//! Translation of the error taxonomy into the caller-facing error object:
//! the tagged wire envelope, together with a secondary, legacy-shaped
//! payload — the validation context wrapped in the server error shape for
//! a refused transaction, a plain string rendering of the failure for
//! everything else.
//!
//! The mapping is explicit and total: a match over the closed error set,
//! each arm building its wire bytes directly, so no serialization step is
//! left that could fail halfway through a response.

use crate::errors::{message_spec, ErrorView, InvalidTxError, RpcTransactionError};
use crate::text::{append_ascii, append_dec, append_escaped, ascii_bytes, dec_of, escape};
use crate::wire::{encode_error, encode_spec};
use vstd::prelude::*;

verus! {

/// How one validation context stands in JSON: a quoted name alone where
/// it has no fields, an object carrying both nonces where it has them.
pub open spec fn context_json(c: InvalidTxError) -> Seq<u8> {
    match c {
        InvalidTxError::InvalidSignature => ascii_bytes("\"InvalidSignature\""@),
        InvalidTxError::InvalidNonce { tx_nonce, ak_nonce } => ascii_bytes(
            "{\"InvalidNonce\":{\"tx_nonce\":"@,
        ) + dec_of(tx_nonce as nat) + ascii_bytes(",\"ak_nonce\":"@) + dec_of(ak_nonce as nat)
            + ascii_bytes("}}"@),
        InvalidTxError::Expired => ascii_bytes("\"Expired\""@),
        InvalidTxError::Omitted => ascii_bytes("\"Omitted\""@),
    }
}

/// The legacy-shaped payload of a refused transaction: the validation
/// context wrapped in the server error shape.
pub open spec fn legacy_payload_spec(c: InvalidTxError) -> Seq<u8> {
    ascii_bytes("{\"TxExecutionError\":{\"InvalidTxError\":"@) + context_json(c) + ascii_bytes(
        "}}"@,
    )
}

/// A plain text as a JSON string value: quoted and escaped.
pub open spec fn json_string_of(m: Seq<u8>) -> Seq<u8> {
    seq![34u8] + escape(m) + seq![34u8]
}

/// The caller-facing error object: the human-readable or legacy-shaped
/// payload, and the tagged wire envelope of the failure itself.
#[derive(Debug)]
pub struct RpcError {
    /// For a refused transaction, the legacy-shaped wrapping of its
    /// validation context; for every other failure, the plain string
    /// rendering of the failure, as a JSON string.
    pub data: Vec<u8>,
    /// The canonical tagged envelope `{"name": TAG, "info": ...}`.
    pub envelope: Vec<u8>,
}

/// The mathematical value of an `RpcError`.
pub struct RpcErrorView {
    pub data: Seq<u8>,
    pub envelope: Seq<u8>,
}

impl View for RpcError {
    type V = RpcErrorView;

    open spec fn view(&self) -> RpcErrorView {
        RpcErrorView { data: self.data@, envelope: self.envelope@ }
    }
}

/// What translation yields for each failure.
pub open spec fn translate_spec(e: ErrorView) -> RpcErrorView {
    RpcErrorView {
        data: match e {
            ErrorView::InvalidTransaction { context } => legacy_payload_spec(context),
            _ => json_string_of(message_spec(e)),
        },
        envelope: encode_spec(e),
    }
}

impl RpcError {
    /// Translates a failure into the caller-facing error object: the
    /// tagged envelope always, beside it the legacy-shaped payload for a
    /// refused transaction and the string rendering for the rest.
    pub fn from_transaction_error(e: &RpcTransactionError) -> (r: RpcError)
        ensures
            r@ == translate_spec(e@),
    {
        let mut data: Vec<u8> = Vec::new();
        match e {
            RpcTransactionError::InvalidTransaction { context } => {
                proof {
                    reveal_strlit("{\"TxExecutionError\":{\"InvalidTxError\":");
                    reveal_strlit("}}");
                }
                append_ascii(&mut data, "{\"TxExecutionError\":{\"InvalidTxError\":");
                match context {
                    InvalidTxError::InvalidSignature => {
                        proof {
                            reveal_strlit("\"InvalidSignature\"");
                        }
                        append_ascii(&mut data, "\"InvalidSignature\"");
                    },
                    InvalidTxError::InvalidNonce { tx_nonce, ak_nonce } => {
                        proof {
                            reveal_strlit("{\"InvalidNonce\":{\"tx_nonce\":");
                            reveal_strlit(",\"ak_nonce\":");
                        }
                        append_ascii(&mut data, "{\"InvalidNonce\":{\"tx_nonce\":");
                        append_dec(&mut data, *tx_nonce);
                        append_ascii(&mut data, ",\"ak_nonce\":");
                        append_dec(&mut data, *ak_nonce);
                        append_ascii(&mut data, "}}");
                    },
                    InvalidTxError::Expired => {
                        proof {
                            reveal_strlit("\"Expired\"");
                        }
                        append_ascii(&mut data, "\"Expired\"");
                    },
                    InvalidTxError::Omitted => {
                        proof {
                            reveal_strlit("\"Omitted\"");
                        }
                        append_ascii(&mut data, "\"Omitted\"");
                    },
                }
                append_ascii(&mut data, "}}");
                proof {
                    assert(data@ =~= legacy_payload_spec(*context));
                }
            },
            _ => {
                let m = e.message_bytes();
                data.push(34);
                append_escaped(&mut data, &m);
                data.push(34);
                proof {
                    assert(data@ =~= json_string_of(message_spec(e@)));
                }
            },
        }
        let envelope = encode_error(e);
        RpcError { data, envelope }
    }
}

} // verus!
