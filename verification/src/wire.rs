//! The canonical wire envelope of the error taxonomy: a tagged JSON
//! object `{"name": TAG, "info": ...}`, encoded and decoded by this
//! module, with the proof that decoding inverts encoding.
//!
//! `DOES_NOT_TRACK_SHARD` and `TIMEOUT_ERROR` carry nothing beyond the
//! tag; `INVALID_TRANSACTION` carries an empty info object, its
//! validation context being intentionally left off the wire; the
//! remaining tags carry the field their name implies.

use crate::errors::{ErrorView, InvalidTxError, RpcTransactionError};
use crate::data::CryptoHash;
use crate::text::{
    append_ascii, append_escaped, append_hex, ascii_bytes, equals_lit, escape, hex_of,
    lemma_escape_unescape, lemma_hex_unhex, lemma_unescape_escape, lemma_unhex_hex,
    lemma_unhex_len, matches_at, unescape, unescape_range, unhex, unhex_range,
};
use vstd::prelude::*;

verus! {

/// The whole envelope of a failure that carries nothing but its tag.
pub open spec fn does_not_track_shard_text() -> Seq<u8> {
    ascii_bytes("{\"name\":\"DOES_NOT_TRACK_SHARD\"}"@)
}

/// The whole envelope of a lapsed wait budget.
pub open spec fn timeout_text() -> Seq<u8> {
    ascii_bytes("{\"name\":\"TIMEOUT_ERROR\"}"@)
}

/// The whole envelope of a refused transaction: the info object is empty,
/// the validation context stays off the wire by design.
pub open spec fn invalid_transaction_text() -> Seq<u8> {
    ascii_bytes("{\"name\":\"INVALID_TRANSACTION\",\"info\":{}}"@)
}

/// Everything before the hash digits of a routed transaction's envelope.
pub open spec fn routed_prefix() -> Seq<u8> {
    ascii_bytes("{\"name\":\"REQUEST_ROUTED\",\"info\":{\"transaction_hash\":\""@)
}

/// Everything before the hash digits of an unknown transaction's envelope.
pub open spec fn unknown_prefix() -> Seq<u8> {
    ascii_bytes("{\"name\":\"UNKNOWN_TRANSACTION\",\"info\":{\"requested_transaction_hash\":\""@)
}

/// Everything before the debug string of an internal error's envelope.
pub open spec fn internal_prefix() -> Seq<u8> {
    ascii_bytes("{\"name\":\"INTERNAL_ERROR\",\"info\":{\"debug_info\":\""@)
}

/// The closing quote and braces shared by the payload-carrying envelopes.
pub open spec fn close_text() -> Seq<u8> {
    ascii_bytes("\"}}"@)
}

/// The canonical wire encoding of a failure.
pub open spec fn encode_spec(e: ErrorView) -> Seq<u8> {
    match e {
        ErrorView::InvalidTransaction { .. } => invalid_transaction_text(),
        ErrorView::DoesNotTrackShard => does_not_track_shard_text(),
        ErrorView::RequestRouted { transaction_hash } => routed_prefix() + hex_of(
            transaction_hash,
        ) + close_text(),
        ErrorView::UnknownTransaction { requested_transaction_hash } => unknown_prefix() + hex_of(
            requested_transaction_hash,
        ) + close_text(),
        ErrorView::InternalError { debug_info } => internal_prefix() + escape(debug_info)
            + close_text(),
        ErrorView::TimeoutError => timeout_text(),
    }
}

/// Whether `s` has the fixed frame of an envelope with prefix `prefix`, a
/// body of `body_len` bytes, and the closing `"}}`.
pub open spec fn shell(s: Seq<u8>, prefix: Seq<u8>, body_len: int) -> bool {
    &&& s.len() == prefix.len() + body_len + 3
    &&& s.subrange(0, prefix.len() as int) == prefix
    &&& s.subrange(s.len() - 3, s.len() as int) == close_text()
}

/// The body bytes between an envelope's prefix and its closing frame.
pub open spec fn body_of(s: Seq<u8>, prefix: Seq<u8>) -> Seq<u8> {
    s.subrange(prefix.len() as int, s.len() - 3)
}

/// The value a well-formed envelope decodes to; `None` for every byte
/// string that is not the canonical encoding of some failure.
pub open spec fn parse_spec(s: Seq<u8>) -> Option<ErrorView> {
    if s == does_not_track_shard_text() {
        Some(ErrorView::DoesNotTrackShard)
    } else if s == timeout_text() {
        Some(ErrorView::TimeoutError)
    } else if s == invalid_transaction_text() {
        Some(ErrorView::InvalidTransaction { context: InvalidTxError::Omitted })
    } else if shell(s, routed_prefix(), 64) {
        match unhex(body_of(s, routed_prefix())) {
            Some(h) => Some(ErrorView::RequestRouted { transaction_hash: h }),
            None => None,
        }
    } else if shell(s, unknown_prefix(), 64) {
        match unhex(body_of(s, unknown_prefix())) {
            Some(h) => Some(ErrorView::UnknownTransaction { requested_transaction_hash: h }),
            None => None,
        }
    } else if s.len() >= internal_prefix().len() + 3 && shell(
        s,
        internal_prefix(),
        s.len() - internal_prefix().len() - 3,
    ) {
        match unescape(body_of(s, internal_prefix())) {
            Some(d) => Some(ErrorView::InternalError { debug_info: d }),
            None => None,
        }
    } else {
        None
    }
}

/// A failure as decoding reports it: the same value, with the validation
/// context replaced by `Omitted`, since the wire never carries it.
pub open spec fn strip(e: ErrorView) -> ErrorView {
    match e {
        ErrorView::InvalidTransaction { .. } => ErrorView::InvalidTransaction {
            context: InvalidTxError::Omitted,
        },
        _ => e,
    }
}

/// Encodes a failure into its canonical wire envelope.
pub fn encode_error(e: &RpcTransactionError) -> (r: Vec<u8>)
    ensures
        r@ == encode_spec(e@),
{
    let mut out: Vec<u8> = Vec::new();
    match e {
        RpcTransactionError::InvalidTransaction { .. } => {
            proof {
                reveal_strlit("{\"name\":\"INVALID_TRANSACTION\",\"info\":{}}");
            }
            append_ascii(&mut out, "{\"name\":\"INVALID_TRANSACTION\",\"info\":{}}");
        },
        RpcTransactionError::DoesNotTrackShard => {
            proof {
                reveal_strlit("{\"name\":\"DOES_NOT_TRACK_SHARD\"}");
            }
            append_ascii(&mut out, "{\"name\":\"DOES_NOT_TRACK_SHARD\"}");
        },
        RpcTransactionError::RequestRouted { transaction_hash } => {
            proof {
                reveal_strlit("{\"name\":\"REQUEST_ROUTED\",\"info\":{\"transaction_hash\":\"");
                reveal_strlit("\"}}");
            }
            append_ascii(&mut out, "{\"name\":\"REQUEST_ROUTED\",\"info\":{\"transaction_hash\":\"");
            append_hex(&mut out, &transaction_hash.bytes);
            append_ascii(&mut out, "\"}}");
        },
        RpcTransactionError::UnknownTransaction { requested_transaction_hash } => {
            proof {
                reveal_strlit(
                    "{\"name\":\"UNKNOWN_TRANSACTION\",\"info\":{\"requested_transaction_hash\":\"",
                );
                reveal_strlit("\"}}");
            }
            append_ascii(
                &mut out,
                "{\"name\":\"UNKNOWN_TRANSACTION\",\"info\":{\"requested_transaction_hash\":\"",
            );
            append_hex(&mut out, &requested_transaction_hash.bytes);
            append_ascii(&mut out, "\"}}");
        },
        RpcTransactionError::InternalError { debug_info } => {
            proof {
                reveal_strlit("{\"name\":\"INTERNAL_ERROR\",\"info\":{\"debug_info\":\"");
                reveal_strlit("\"}}");
            }
            append_ascii(&mut out, "{\"name\":\"INTERNAL_ERROR\",\"info\":{\"debug_info\":\"");
            append_escaped(&mut out, debug_info);
            append_ascii(&mut out, "\"}}");
        },
        RpcTransactionError::TimeoutError => {
            proof {
                reveal_strlit("{\"name\":\"TIMEOUT_ERROR\"}");
            }
            append_ascii(&mut out, "{\"name\":\"TIMEOUT_ERROR\"}");
        },
    }
    proof {
        assert(out@ =~= encode_spec(e@));
    }
    out
}

/// Decodes a wire envelope; `None` for every byte string that is not the
/// canonical encoding of some failure.
pub fn parse_error(s: &Vec<u8>) -> (r: Option<RpcTransactionError>)
    ensures
        match r {
            Some(e) => parse_spec(s@) == Some(e@) && e.wf(),
            None => parse_spec(s@) is None,
        },
{
    proof {
        broadcast use vstd::string::is_ascii_spec_bytes;

        reveal_strlit("{\"name\":\"DOES_NOT_TRACK_SHARD\"}");
        reveal_strlit("{\"name\":\"TIMEOUT_ERROR\"}");
        reveal_strlit("{\"name\":\"INVALID_TRANSACTION\",\"info\":{}}");
        reveal_strlit("{\"name\":\"REQUEST_ROUTED\",\"info\":{\"transaction_hash\":\"");
        reveal_strlit(
            "{\"name\":\"UNKNOWN_TRANSACTION\",\"info\":{\"requested_transaction_hash\":\"",
        );
        reveal_strlit("{\"name\":\"INTERNAL_ERROR\",\"info\":{\"debug_info\":\"");
        reveal_strlit("\"}}");
    }
    let n: usize = s.len();
    if equals_lit(s, "{\"name\":\"DOES_NOT_TRACK_SHARD\"}") {
        return Some(RpcTransactionError::DoesNotTrackShard);
    }
    if equals_lit(s, "{\"name\":\"TIMEOUT_ERROR\"}") {
        return Some(RpcTransactionError::TimeoutError);
    }
    if equals_lit(s, "{\"name\":\"INVALID_TRANSACTION\",\"info\":{}}") {
        return Some(
            RpcTransactionError::InvalidTransaction { context: InvalidTxError::Omitted },
        );
    }
    let routed_plen: usize = 53;
    proof {
        assert(routed_plen as int == routed_prefix().len());
    }
    if n == routed_plen + 67 && matches_at(
        s,
        0,
        "{\"name\":\"REQUEST_ROUTED\",\"info\":{\"transaction_hash\":\"",
    ) && matches_at(s, n - 3, "\"}}") {
        proof {
            assert(shell(s@, routed_prefix(), 64));
        }
        match unhex_range(s, routed_plen, n - 3) {
            Some(h) => {
                proof {
                    assert(s@.subrange(routed_plen as int, n - 3) =~= body_of(s@, routed_prefix()));
                    lemma_unhex_len(body_of(s@, routed_prefix()));
                }
                return Some(
                    RpcTransactionError::RequestRouted {
                        transaction_hash: CryptoHash { bytes: h },
                    },
                );
            },
            None => {
                proof {
                    assert(s@.subrange(routed_plen as int, n - 3) =~= body_of(s@, routed_prefix()));
                }
                return None;
            },
        }
    }
    let unknown_plen: usize = 68;
    proof {
        assert(unknown_plen as int == unknown_prefix().len());
    }
    if n == unknown_plen + 67 && matches_at(
        s,
        0,
        "{\"name\":\"UNKNOWN_TRANSACTION\",\"info\":{\"requested_transaction_hash\":\"",
    ) && matches_at(s, n - 3, "\"}}") {
        proof {
            assert(shell(s@, unknown_prefix(), 64));
        }
        match unhex_range(s, unknown_plen, n - 3) {
            Some(h) => {
                proof {
                    assert(s@.subrange(unknown_plen as int, n - 3) =~= body_of(s@, unknown_prefix()));
                    lemma_unhex_len(body_of(s@, unknown_prefix()));
                }
                return Some(
                    RpcTransactionError::UnknownTransaction {
                        requested_transaction_hash: CryptoHash { bytes: h },
                    },
                );
            },
            None => {
                proof {
                    assert(s@.subrange(unknown_plen as int, n - 3) =~= body_of(s@, unknown_prefix()));
                }
                return None;
            },
        }
    }
    let internal_plen: usize = 47;
    proof {
        assert(internal_plen as int == internal_prefix().len());
    }
    if n >= internal_plen + 3 && matches_at(
        s,
        0,
        "{\"name\":\"INTERNAL_ERROR\",\"info\":{\"debug_info\":\"",
    ) && matches_at(s, n - 3, "\"}}") {
        proof {
            assert(shell(s@, internal_prefix(), s@.len() - internal_prefix().len() - 3));
        }
        match unescape_range(s, internal_plen, n - 3) {
            Some(d) => {
                proof {
                    assert(s@.subrange(internal_plen as int, n - 3) =~= body_of(s@, internal_prefix()));
                }
                return Some(RpcTransactionError::InternalError { debug_info: d });
            },
            None => {
                proof {
                    assert(s@.subrange(internal_plen as int, n - 3) =~= body_of(s@, internal_prefix()));
                }
                return None;
            },
        }
    }
    None
}

/// Decoding inverts encoding: every well-formed failure's envelope decodes
/// back to the same failure, up to the validation context that the wire
/// intentionally omits.
pub proof fn lemma_wire_round_trip(e: ErrorView)
    requires
        e.wf(),
    ensures
        parse_spec(encode_spec(e)) == Some(strip(e)),
        strip(e).logical_eq(e),
        strip(e).wf(),
{
    reveal_strlit("{\"name\":\"DOES_NOT_TRACK_SHARD\"}");
    reveal_strlit("{\"name\":\"TIMEOUT_ERROR\"}");
    reveal_strlit("{\"name\":\"INVALID_TRANSACTION\",\"info\":{}}");
    reveal_strlit("{\"name\":\"REQUEST_ROUTED\",\"info\":{\"transaction_hash\":\"");
    reveal_strlit("{\"name\":\"UNKNOWN_TRANSACTION\",\"info\":{\"requested_transaction_hash\":\"");
    reveal_strlit("{\"name\":\"INTERNAL_ERROR\",\"info\":{\"debug_info\":\"");
    reveal_strlit("\"}}");
    let s = encode_spec(e);
    match e {
        ErrorView::DoesNotTrackShard => {
        },
        ErrorView::TimeoutError => {
            assert(s.len() == 24 && does_not_track_shard_text().len() == 31);
        },
        ErrorView::InvalidTransaction { .. } => {
            assert(s.len() == 40);
        },
        ErrorView::RequestRouted { transaction_hash } => {
            let p = routed_prefix();
            let h = hex_of(transaction_hash);
            crate::text::lemma_unhex_hex(transaction_hash);
            lemma_unhex_len(h);
            assert(s.len() == 120);
            assert(s.subrange(0, 53) =~= p);
            assert(s.subrange(117, 120) =~= close_text());
            assert(shell(s, p, 64));
            assert(body_of(s, p) =~= h);
        },
        ErrorView::UnknownTransaction { requested_transaction_hash } => {
            let p = unknown_prefix();
            let h = hex_of(requested_transaction_hash);
            crate::text::lemma_unhex_hex(requested_transaction_hash);
            lemma_unhex_len(h);
            assert(s.len() == 135);
            assert(!shell(s, routed_prefix(), 64));
            assert(s.subrange(0, 68) =~= p);
            assert(s.subrange(132, 135) =~= close_text());
            assert(shell(s, p, 64));
            assert(body_of(s, p) =~= h);
        },
        ErrorView::InternalError { debug_info } => {
            let p = internal_prefix();
            let b = escape(debug_info);
            lemma_unescape_escape(debug_info);
            assert(s.len() == 47 + b.len() + 3);
            assert(s != does_not_track_shard_text());
            assert(s != timeout_text());
            assert(s != invalid_transaction_text());
            if shell(s, routed_prefix(), 64) {
                assert(s.subrange(0, 53)[9] == routed_prefix()[9]);
                assert(s[9] == internal_prefix()[9]);
                assert(false);
            }
            if shell(s, unknown_prefix(), 64) {
                assert(s.subrange(0, 68)[9] == unknown_prefix()[9]);
                assert(s[9] == internal_prefix()[9]);
                assert(false);
            }
            assert(s.subrange(0, 47) =~= p);
            assert(s.subrange(s.len() - 3, s.len() as int) =~= close_text());
            assert(shell(s, p, s.len() - p.len() - 3));
            assert(body_of(s, p) =~= b);
        },
    }
}

/// Decoding accepts canonical envelopes only: whatever it accepts
/// re-encodes to the very bytes it came from.
pub proof fn lemma_wire_parse_sound(s: Seq<u8>)
    requires
        parse_spec(s) is Some,
    ensures
        encode_spec(parse_spec(s)->Some_0) == s,
        (parse_spec(s)->Some_0).wf(),
{
    let e = parse_spec(s)->Some_0;
    if s == does_not_track_shard_text() {
    } else if s == timeout_text() {
    } else if s == invalid_transaction_text() {
    } else if shell(s, routed_prefix(), 64) {
        let b = body_of(s, routed_prefix());
        lemma_hex_unhex(b);
        lemma_unhex_len(b);
        assert(s =~= routed_prefix() + b + close_text());
    } else if shell(s, unknown_prefix(), 64) {
        let b = body_of(s, unknown_prefix());
        lemma_hex_unhex(b);
        lemma_unhex_len(b);
        assert(s =~= unknown_prefix() + b + close_text());
    } else {
        let b = body_of(s, internal_prefix());
        lemma_escape_unescape(b);
        assert(s =~= internal_prefix() + b + close_text());
    }
}

} // verus!
