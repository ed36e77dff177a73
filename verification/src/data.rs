//! The data the gateway carries: transaction identifiers, signed
//! transactions, execution outcomes, and the request and response shapes
//! of the JSON-RPC surface.
//!
//! The identifier and outcome types hold plain values: the hash and the
//! account identifier of a signed transaction are computed once by the
//! cryptographic layer outside this crate and are authoritative here.

use vstd::prelude::*;

verus! {

/// A transaction's content hash: exactly thirty-two bytes.
#[derive(Debug)]
pub struct CryptoHash {
    pub bytes: Vec<u8>,
}

impl View for CryptoHash {
    type V = Seq<u8>;

    open spec fn view(&self) -> Seq<u8> {
        self.bytes@
    }
}

impl CryptoHash {
    /// A hash value is well-formed when it has exactly thirty-two bytes.
    pub open spec fn wf(&self) -> bool {
        self@.len() == 32
    }

    /// Wraps thirty-two bytes as a hash; refuses any other length.
    pub fn new(bytes: Vec<u8>) -> (r: Option<CryptoHash>)
        ensures
            bytes@.len() == 32 ==> (r matches Some(h) && h@ == bytes@ && h.wf()),
            bytes@.len() != 32 ==> r is None,
    {
        if bytes.len() == 32 {
            Some(CryptoHash { bytes })
        } else {
            None
        }
    }

    /// An independent copy of the same hash value.
    pub fn duplicate(&self) -> (r: CryptoHash)
        ensures
            r@ == self@,
            r.wf() == self.wf(),
    {
        let bytes = crate::text::copy_range(&self.bytes, 0, self.bytes.len());
        proof {
            assert(bytes@ =~= self@);
        }
        CryptoHash { bytes }
    }
}

/// The identifier of the account that signed a transaction.
#[derive(Debug)]
pub struct AccountId {
    pub bytes: Vec<u8>,
}

impl View for AccountId {
    type V = Seq<u8>;

    open spec fn view(&self) -> Seq<u8> {
        self.bytes@
    }
}

/// The execution record the outcome-tracking service hands back once a
/// transaction has made progress. This crate never looks inside it: it is
/// carried to the caller as it came.
#[derive(Debug)]
pub struct ExecutionOutcome {
    pub payload: Vec<u8>,
}

impl View for ExecutionOutcome {
    type V = Seq<u8>;

    open spec fn view(&self) -> Seq<u8> {
        self.payload@
    }
}

impl ExecutionOutcome {
    /// An independent copy of the same outcome record.
    pub fn duplicate(&self) -> (r: ExecutionOutcome)
        ensures
            r@ == self@,
    {
        let payload = crate::text::copy_range(&self.payload, 0, self.payload.len());
        proof {
            assert(payload@ =~= self@);
        }
        ExecutionOutcome { payload }
    }
}

/// A signed transaction. The hash and the signer's account identifier are
/// derived from the payload by the cryptographic layer when the value is
/// built, and are authoritative from then on.
#[derive(Debug)]
pub struct SignedTransaction {
    pub hash: CryptoHash,
    pub signer_account: AccountId,
    pub payload: Vec<u8>,
}

impl SignedTransaction {
    /// Well-formed when its hash is.
    pub open spec fn wf(&self) -> bool {
        self.hash.wf()
    }
}

/// Either a full signed transaction, or the pair of hash and account
/// identifier that locates one submitted earlier. Exactly one of the two
/// forms is present.
#[derive(Debug)]
pub enum TransactionInfo {
    Transaction(SignedTransaction),
    TransactionId { hash: CryptoHash, account_id: AccountId },
}

impl TransactionInfo {
    /// The hash that identifies the transaction, whichever form holds it.
    pub open spec fn spec_hash(&self) -> Seq<u8> {
        match self {
            TransactionInfo::Transaction(t) => t.hash@,
            TransactionInfo::TransactionId { hash, .. } => hash@,
        }
    }

    /// Well-formed when the hash it carries is.
    pub open spec fn wf(&self) -> bool {
        self.spec_hash().len() == 32
    }

    /// The hash that identifies the transaction.
    pub fn hash(&self) -> (r: &CryptoHash)
        ensures
            r@ == self.spec_hash(),
    {
        match self {
            TransactionInfo::Transaction(t) => &t.hash,
            TransactionInfo::TransactionId { hash, .. } => hash,
        }
    }
}

/// A fire-and-forget submission: broadcast, answer with the hash alone.
#[derive(Debug)]
pub struct RpcBroadcastTransactionRequest {
    pub signed_transaction: SignedTransaction,
}

/// A submission that waits for the requested milestone before answering.
#[derive(Debug)]
pub struct RpcBroadcastWaitTransactionRequest {
    pub signed_transaction: SignedTransaction,
    pub rpc_broadcast_wait_type: crate::wait_level::RpcBroadcastWait,
}

/// A status query for a transaction submitted earlier.
#[derive(Debug)]
pub struct RpcTransactionStatusCommonRequest {
    pub transaction_info: TransactionInfo,
}

/// The answer to a status query: the execution outcome, once resolvable.
#[derive(Debug)]
pub struct RpcTransactionResponse {
    pub final_execution_outcome: ExecutionOutcome,
}

/// The answer to a fire-and-forget submission: the hash alone.
#[derive(Debug)]
pub struct RpcBroadcastTxSyncResponse {
    pub transaction_hash: CryptoHash,
}

/// The answer to a waiting submission: the hash, and the outcome when a
/// milestone beyond `NoWait` was asked for and reached.
#[derive(Debug)]
pub struct RpcBroadcastWaitResponse {
    pub transaction_hash: CryptoHash,
    pub final_execution_outcome: Option<ExecutionOutcome>,
}

} // verus!
