//! The closed error taxonomy of the gateway, its mathematical view, and
//! the plain-text rendering of each failure.

use crate::data::CryptoHash;
use crate::text::{append_ascii, append_dec, append_hex, ascii_bytes, dec_of, hex_of};
use vstd::prelude::*;

verus! {

/// The validation verdict the network layer attaches to a transaction it
/// refuses. A model of the validator's taxonomy: the cases this crate's
/// callers distinguish, with their structured context as plain values.
#[derive(Debug, Clone, Copy, PartialEq, Eq, Structural)]
pub enum InvalidTxError {
    /// The signature does not match the signed payload.
    InvalidSignature,
    /// The transaction's nonce does not advance the access key's nonce.
    InvalidNonce { tx_nonce: u64, ak_nonce: u64 },
    /// The transaction refers to a block too far in the past.
    Expired,
    /// The context is not known; in particular, the primary wire envelope
    /// intentionally omits it, so a decoded error carries this.
    Omitted,
}

/// A failure of the submission or waiting pipeline, as surfaced to the
/// caller. A closed set: every internal failure condition maps to exactly
/// one of these.
#[derive(Debug)]
pub enum RpcTransactionError {
    /// The submitted transaction failed validation.
    InvalidTransaction { context: InvalidTxError },
    /// This node does not track the account's shard and cannot judge
    /// validity.
    DoesNotTrackShard,
    /// The transaction was routed to another node, which must resolve it.
    RequestRouted { transaction_hash: CryptoHash },
    /// The hash was asserted never received by the tracking service.
    UnknownTransaction { requested_transaction_hash: CryptoHash },
    /// Node-side resource exhaustion or an unexpected internal failure.
    InternalError { debug_info: Vec<u8> },
    /// The wait budget lapsed before the requested milestone was reached.
    TimeoutError,
}

/// The mathematical value of an `RpcTransactionError`: the same shape over
/// sequences instead of vectors.
pub enum ErrorView {
    InvalidTransaction { context: InvalidTxError },
    DoesNotTrackShard,
    RequestRouted { transaction_hash: Seq<u8> },
    UnknownTransaction { requested_transaction_hash: Seq<u8> },
    InternalError { debug_info: Seq<u8> },
    TimeoutError,
}

impl View for RpcTransactionError {
    type V = ErrorView;

    open spec fn view(&self) -> ErrorView {
        match self {
            RpcTransactionError::InvalidTransaction { context } => ErrorView::InvalidTransaction {
                context: *context,
            },
            RpcTransactionError::DoesNotTrackShard => ErrorView::DoesNotTrackShard,
            RpcTransactionError::RequestRouted { transaction_hash } => ErrorView::RequestRouted {
                transaction_hash: transaction_hash@,
            },
            RpcTransactionError::UnknownTransaction {
                requested_transaction_hash,
            } => ErrorView::UnknownTransaction {
                requested_transaction_hash: requested_transaction_hash@,
            },
            RpcTransactionError::InternalError { debug_info } => ErrorView::InternalError {
                debug_info: debug_info@,
            },
            RpcTransactionError::TimeoutError => ErrorView::TimeoutError,
        }
    }
}

impl ErrorView {
    /// Well-formed when any hash it carries has exactly thirty-two bytes.
    pub open spec fn wf(self) -> bool {
        match self {
            ErrorView::RequestRouted { transaction_hash } => transaction_hash.len() == 32,
            ErrorView::UnknownTransaction { requested_transaction_hash } => {
                requested_transaction_hash.len() == 32
            },
            _ => true,
        }
    }

    /// Equality of the parts the primary wire envelope carries: everything
    /// but the validation context, which the envelope intentionally omits.
    pub open spec fn logical_eq(self, other: ErrorView) -> bool {
        match (self, other) {
            (
                ErrorView::InvalidTransaction { .. },
                ErrorView::InvalidTransaction { .. },
            ) => true,
            _ => self == other,
        }
    }
}

impl RpcTransactionError {
    /// Well-formed when its view is.
    pub open spec fn wf(&self) -> bool {
        self@.wf()
    }
}

/// The plain-text description of a validation verdict.
pub open spec fn context_text(c: InvalidTxError) -> Seq<u8> {
    match c {
        InvalidTxError::InvalidSignature => ascii_bytes("InvalidSignature"@),
        InvalidTxError::InvalidNonce { tx_nonce, ak_nonce } => ascii_bytes(
            "InvalidNonce { tx_nonce: "@,
        ) + dec_of(tx_nonce as nat) + ascii_bytes(", ak_nonce: "@) + dec_of(ak_nonce as nat)
            + ascii_bytes(" }"@),
        InvalidTxError::Expired => ascii_bytes("Expired"@),
        InvalidTxError::Omitted => ascii_bytes("Omitted"@),
    }
}

/// The plain-text rendering of each failure, as a caller sees it.
pub open spec fn message_spec(e: ErrorView) -> Seq<u8> {
    match e {
        ErrorView::InvalidTransaction { context } => ascii_bytes(
            "An error happened during transaction execution: "@,
        ) + context_text(context),
        ErrorView::DoesNotTrackShard => ascii_bytes(
            "Node doesn't track this shard. Cannot determine whether the transaction is valid"@,
        ),
        ErrorView::RequestRouted { transaction_hash } => ascii_bytes("Transaction with hash "@)
            + hex_of(transaction_hash) + ascii_bytes(" was routed"@),
        ErrorView::UnknownTransaction { requested_transaction_hash } => ascii_bytes(
            "Transaction "@,
        ) + hex_of(requested_transaction_hash) + ascii_bytes(" doesn't exist"@),
        ErrorView::InternalError { debug_info } => ascii_bytes(
            "The node reached its limits. Try again later. More details: "@,
        ) + debug_info,
        ErrorView::TimeoutError => ascii_bytes("Timeout"@),
    }
}

/// Appends the plain-text description of a validation verdict.
pub fn append_context_text(out: &mut Vec<u8>, c: &InvalidTxError)
    ensures
        final(out)@ == old(out)@ + context_text(*c),
{
    match c {
        InvalidTxError::InvalidSignature => {
            proof {
                reveal_strlit("InvalidSignature");
            }
            append_ascii(out, "InvalidSignature");
        },
        InvalidTxError::InvalidNonce { tx_nonce, ak_nonce } => {
            proof {
                reveal_strlit("InvalidNonce { tx_nonce: ");
                reveal_strlit(", ak_nonce: ");
                reveal_strlit(" }");
            }
            append_ascii(out, "InvalidNonce { tx_nonce: ");
            append_dec(out, *tx_nonce);
            append_ascii(out, ", ak_nonce: ");
            append_dec(out, *ak_nonce);
            append_ascii(out, " }");
            proof {
                assert(out@ =~= old(out)@ + context_text(*c));
            }
        },
        InvalidTxError::Expired => {
            proof {
                reveal_strlit("Expired");
            }
            append_ascii(out, "Expired");
        },
        InvalidTxError::Omitted => {
            proof {
                reveal_strlit("Omitted");
            }
            append_ascii(out, "Omitted");
        },
    }
}

impl RpcTransactionError {
    /// The plain-text rendering of this failure.
    pub fn message_bytes(&self) -> (r: Vec<u8>)
        ensures
            r@ == message_spec(self@),
    {
        let mut out: Vec<u8> = Vec::new();
        match self {
            RpcTransactionError::InvalidTransaction { context } => {
                proof {
                    reveal_strlit("An error happened during transaction execution: ");
                }
                append_ascii(&mut out, "An error happened during transaction execution: ");
                append_context_text(&mut out, context);
            },
            RpcTransactionError::DoesNotTrackShard => {
                proof {
                    reveal_strlit(
                        "Node doesn't track this shard. Cannot determine whether the transaction is valid",
                    );
                }
                append_ascii(
                    &mut out,
                    "Node doesn't track this shard. Cannot determine whether the transaction is valid",
                );
            },
            RpcTransactionError::RequestRouted { transaction_hash } => {
                proof {
                    reveal_strlit("Transaction with hash ");
                    reveal_strlit(" was routed");
                }
                append_ascii(&mut out, "Transaction with hash ");
                append_hex(&mut out, &transaction_hash.bytes);
                append_ascii(&mut out, " was routed");
            },
            RpcTransactionError::UnknownTransaction { requested_transaction_hash } => {
                proof {
                    reveal_strlit("Transaction ");
                    reveal_strlit(" doesn't exist");
                }
                append_ascii(&mut out, "Transaction ");
                append_hex(&mut out, &requested_transaction_hash.bytes);
                append_ascii(&mut out, " doesn't exist");
            },
            RpcTransactionError::InternalError { debug_info } => {
                proof {
                    reveal_strlit(
                        "The node reached its limits. Try again later. More details: ",
                    );
                }
                append_ascii(
                    &mut out,
                    "The node reached its limits. Try again later. More details: ",
                );
                crate::text::append_bytes(&mut out, debug_info);
            },
            RpcTransactionError::TimeoutError => {
                proof {
                    reveal_strlit("Timeout");
                }
                append_ascii(&mut out, "Timeout");
            },
        }
        proof {
            assert(out@ =~= message_spec(self@));
        }
        out
    }
}

} // verus!
