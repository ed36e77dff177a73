//! The ordered set of execution milestones a caller may wait for, with
//! the wire names a request writes them under.

use crate::text::{append_ascii, ascii_bytes, equals_lit};
use vstd::prelude::*;

verus! {

/// How long the gateway should hold a submitted transaction before
/// answering: not at all, or until one of the ordered execution
/// milestones has been reached.
#[derive(Debug, Clone, Copy, PartialEq, Eq, Structural)]
pub enum RpcBroadcastWait {
    /// Returns right away.
    NoWait,
    /// Waits only for inclusion into the block.
    Inclusion,
    /// Waits until the block with the inclusion is finalized.
    InclusionFinal,
    /// Waits until all non-refund receipts are executed.
    Executed,
    /// Waits until all non-refund receipts are executed and the last of the
    /// blocks is final.
    ExecutedFinal,
    /// Waits until everything has executed and is final.
    Final,
}

impl RpcBroadcastWait {
    /// Position of this level in the milestone order: `NoWait` is lowest,
    /// `Final` highest, and a higher rank implies every lower milestone
    /// has been reached as well.
    pub open spec fn rank(self) -> int {
        match self {
            RpcBroadcastWait::NoWait => 0,
            RpcBroadcastWait::Inclusion => 1,
            RpcBroadcastWait::InclusionFinal => 2,
            RpcBroadcastWait::Executed => 3,
            RpcBroadcastWait::ExecutedFinal => 4,
            RpcBroadcastWait::Final => 5,
        }
    }

    /// Executable form of `rank`.
    pub fn rank_of(self) -> (r: u8)
        ensures
            r as int == self.rank(),
    {
        match self {
            RpcBroadcastWait::NoWait => 0,
            RpcBroadcastWait::Inclusion => 1,
            RpcBroadcastWait::InclusionFinal => 2,
            RpcBroadcastWait::Executed => 3,
            RpcBroadcastWait::ExecutedFinal => 4,
            RpcBroadcastWait::Final => 5,
        }
    }

    /// Whether this level is at or beyond `other` in the milestone order.
    pub fn at_least(self, other: RpcBroadcastWait) -> (r: bool)
        ensures
            r == (self.rank() >= other.rank()),
    {
        self.rank_of() >= other.rank_of()
    }

    /// The further-advanced of two milestones.
    pub fn max_with(self, other: RpcBroadcastWait) -> (r: RpcBroadcastWait)
        ensures
            r.rank() == if self.rank() >= other.rank() {
                self.rank()
            } else {
                other.rank()
            },
            r == self || r == other,
    {
        if self.rank_of() >= other.rank_of() {
            self
        } else {
            other
        }
    }

    /// The name of this level on the wire.
    pub open spec fn wire_tag_spec(self) -> Seq<u8> {
        match self {
            RpcBroadcastWait::NoWait => ascii_bytes("NONE"@),
            RpcBroadcastWait::Inclusion => ascii_bytes("INCLUDED"@),
            RpcBroadcastWait::InclusionFinal => ascii_bytes("INCLUDED_FINAL"@),
            RpcBroadcastWait::Executed => ascii_bytes("EXECUTED"@),
            RpcBroadcastWait::ExecutedFinal => ascii_bytes("EXECUTED_FINAL"@),
            RpcBroadcastWait::Final => ascii_bytes("FINAL"@),
        }
    }

    /// Writes the level's wire name.
    pub fn wire_tag(self) -> (r: Vec<u8>)
        ensures
            r@ == self.wire_tag_spec(),
    {
        let mut out: Vec<u8> = Vec::new();
        match self {
            RpcBroadcastWait::NoWait => {
                proof {
                    reveal_strlit("NONE");
                }
                append_ascii(&mut out, "NONE");
            },
            RpcBroadcastWait::Inclusion => {
                proof {
                    reveal_strlit("INCLUDED");
                }
                append_ascii(&mut out, "INCLUDED");
            },
            RpcBroadcastWait::InclusionFinal => {
                proof {
                    reveal_strlit("INCLUDED_FINAL");
                }
                append_ascii(&mut out, "INCLUDED_FINAL");
            },
            RpcBroadcastWait::Executed => {
                proof {
                    reveal_strlit("EXECUTED");
                }
                append_ascii(&mut out, "EXECUTED");
            },
            RpcBroadcastWait::ExecutedFinal => {
                proof {
                    reveal_strlit("EXECUTED_FINAL");
                }
                append_ascii(&mut out, "EXECUTED_FINAL");
            },
            RpcBroadcastWait::Final => {
                proof {
                    reveal_strlit("FINAL");
                }
                append_ascii(&mut out, "FINAL");
            },
        }
        proof {
            assert(out@ =~= self.wire_tag_spec());
        }
        out
    }
}

/// The level a wire name denotes; `None` for every byte string that is
/// not exactly one of the six names.
pub open spec fn parse_wire_tag_spec(s: Seq<u8>) -> Option<RpcBroadcastWait> {
    if s == ascii_bytes("NONE"@) {
        Some(RpcBroadcastWait::NoWait)
    } else if s == ascii_bytes("INCLUDED"@) {
        Some(RpcBroadcastWait::Inclusion)
    } else if s == ascii_bytes("INCLUDED_FINAL"@) {
        Some(RpcBroadcastWait::InclusionFinal)
    } else if s == ascii_bytes("EXECUTED"@) {
        Some(RpcBroadcastWait::Executed)
    } else if s == ascii_bytes("EXECUTED_FINAL"@) {
        Some(RpcBroadcastWait::ExecutedFinal)
    } else if s == ascii_bytes("FINAL"@) {
        Some(RpcBroadcastWait::Final)
    } else {
        None
    }
}

/// Reads a level from its wire name.
pub fn parse_wire_tag(s: &Vec<u8>) -> (r: Option<RpcBroadcastWait>)
    ensures
        r == parse_wire_tag_spec(s@),
{
    proof {
        reveal_strlit("NONE");
        reveal_strlit("INCLUDED");
        reveal_strlit("INCLUDED_FINAL");
        reveal_strlit("EXECUTED");
        reveal_strlit("EXECUTED_FINAL");
        reveal_strlit("FINAL");
    }
    if equals_lit(s, "NONE") {
        Some(RpcBroadcastWait::NoWait)
    } else if equals_lit(s, "INCLUDED") {
        Some(RpcBroadcastWait::Inclusion)
    } else if equals_lit(s, "INCLUDED_FINAL") {
        Some(RpcBroadcastWait::InclusionFinal)
    } else if equals_lit(s, "EXECUTED") {
        Some(RpcBroadcastWait::Executed)
    } else if equals_lit(s, "EXECUTED_FINAL") {
        Some(RpcBroadcastWait::ExecutedFinal)
    } else if equals_lit(s, "FINAL") {
        Some(RpcBroadcastWait::Final)
    } else {
        None
    }
}

/// Each level's wire name reads back as that level, and a name that
/// reads as some level is that level's name: the six names are distinct.
pub proof fn lemma_wire_tag_round_trip(w: RpcBroadcastWait)
    ensures
        parse_wire_tag_spec(w.wire_tag_spec()) == Some(w),
{
    reveal_strlit("NONE");
    reveal_strlit("INCLUDED");
    reveal_strlit("INCLUDED_FINAL");
    reveal_strlit("EXECUTED");
    reveal_strlit("EXECUTED_FINAL");
    reveal_strlit("FINAL");
    let s = w.wire_tag_spec();
    match w {
        RpcBroadcastWait::NoWait => {
        },
        RpcBroadcastWait::Inclusion => {
            assert(s.len() == 8 && ascii_bytes("NONE"@).len() == 4);
        },
        RpcBroadcastWait::InclusionFinal => {
            assert(s.len() == 14);
        },
        RpcBroadcastWait::Executed => {
            assert(s.len() == 8);
            assert(s[0] == 69 && ascii_bytes("INCLUDED"@)[0] == 73);
        },
        RpcBroadcastWait::ExecutedFinal => {
            assert(s.len() == 14);
            assert(s[0] == 69 && ascii_bytes("INCLUDED_FINAL"@)[0] == 73);
        },
        RpcBroadcastWait::Final => {
            assert(s.len() == 5);
        },
    }
}

} // verus!
