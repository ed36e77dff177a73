//! Byte-level text helpers for the wire encoding: ASCII literals, lowercase
//! hexadecimal, decimal rendering of integers, and JSON string escaping,
//! each with its canonical specification and inversion lemmas.

use vstd::prelude::*;

verus! {

/// The bytes of an ASCII string, one byte per character.
pub open spec fn ascii_bytes(s: Seq<char>) -> Seq<u8> {
    Seq::new(s.len(), |i: int| s[i] as u8)
}

/// Appends the bytes of the ASCII literal `lit` to `out`.
pub fn append_ascii(out: &mut Vec<u8>, lit: &str)
    requires
        vstd::string::is_ascii(lit),
    ensures
        final(out)@ == old(out)@ + ascii_bytes(lit@),
{
    let b: &[u8] = lit.as_bytes();
    let n: usize = b.len();
    let mut i: usize = 0;
    while i < n
        invariant
            n == b@.len(),
            i <= n,
            out@ == old(out)@ + b@.subrange(0, i as int),
        decreases n - i,
    {
        out.push(b[i]);
        proof {
            assert(out@ =~= old(out)@ + b@.subrange(0, i + 1));
        }
        i = i + 1;
    }
    proof {
        broadcast use vstd::string::is_ascii_spec_bytes;

        assert(b@ =~= b@.subrange(0, n as int));
        assert(out@ =~= old(out)@ + ascii_bytes(lit@));
    }
}

/// Whether `s` carries exactly the bytes of the ASCII literal `lit` at
/// position `at`.
pub fn matches_at(s: &Vec<u8>, at: usize, lit: &str) -> (r: bool)
    requires
        vstd::string::is_ascii(lit),
    ensures
        r == (at + lit@.len() <= s@.len() && s@.subrange(
            at as int,
            at + lit@.len(),
        ) == ascii_bytes(lit@)),
{
    proof {
        broadcast use vstd::string::is_ascii_spec_bytes;

    }
    let b: &[u8] = lit.as_bytes();
    let n: usize = b.len();
    let slen: usize = s.len();
    if at > slen || slen - at < n {
        return false;
    }
    let mut i: usize = 0;
    while i < n
        invariant
            n == b@.len(),
            b@ == ascii_bytes(lit@),
            i <= n,
            slen == s@.len(),
            at + n <= slen,
            s@.subrange(at as int, at + i) == b@.subrange(0, i as int),
        decreases n - i,
    {
        if s[at + i] != b[i] {
            proof {
                assert(s@.subrange(at as int, at + n as int)[i as int] != ascii_bytes(lit@)[
                    i as int
                ]);
            }
            return false;
        }
        proof {
            assert(s@.subrange(at as int, at + i + 1) =~= b@.subrange(0, i + 1));
        }
        i = i + 1;
    }
    proof {
        assert(s@.subrange(at as int, at + n as int) =~= b@.subrange(0, n as int));
        assert(b@.subrange(0, n as int) =~= ascii_bytes(lit@));
    }
    true
}

/// Whether `s` carries exactly the bytes of the ASCII literal `lit`.
pub fn equals_lit(s: &Vec<u8>, lit: &str) -> (r: bool)
    requires
        vstd::string::is_ascii(lit),
    ensures
        r == (s@ == ascii_bytes(lit@)),
{
    proof {
        broadcast use vstd::string::is_ascii_spec_bytes;

    }
    let b: &[u8] = lit.as_bytes();
    if s.len() != b.len() {
        return false;
    }
    let r = matches_at(s, 0, lit);
    proof {
        broadcast use vstd::string::is_ascii_spec_bytes;

        assert(s@ =~= s@.subrange(0, lit@.len() as int));
    }
    r
}

/// Copies `s[from..to]` into a fresh vector.
pub fn copy_range(s: &Vec<u8>, from: usize, to: usize) -> (r: Vec<u8>)
    requires
        from <= to <= s@.len(),
    ensures
        r@ == s@.subrange(from as int, to as int),
{
    let mut r: Vec<u8> = Vec::new();
    let mut i: usize = from;
    while i < to
        invariant
            from <= i <= to <= s@.len(),
            r@ == s@.subrange(from as int, i as int),
        decreases to - i,
    {
        r.push(s[i]);
        proof {
            assert(r@ =~= s@.subrange(from as int, i + 1));
        }
        i = i + 1;
    }
    r
}

/// Appends all of `s` to `out`.
pub fn append_bytes(out: &mut Vec<u8>, s: &Vec<u8>)
    ensures
        final(out)@ == old(out)@ + s@,
{
    let n: usize = s.len();
    let mut i: usize = 0;
    while i < n
        invariant
            n == s@.len(),
            i <= n,
            out@ == old(out)@ + s@.subrange(0, i as int),
        decreases n - i,
    {
        out.push(s[i]);
        proof {
            assert(out@ =~= old(out)@ + s@.subrange(0, i + 1));
        }
        i = i + 1;
    }
    proof {
        assert(s@.subrange(0, n as int) =~= s@);
    }
}

/// The lowercase hexadecimal digit for a value below sixteen.
pub open spec fn hex_digit(n: u8) -> u8 {
    if n < 10 {
        (48 + n) as u8
    } else {
        (87 + n) as u8
    }
}

/// The two lowercase hexadecimal digits of one byte.
pub open spec fn hex_pair(b: u8) -> Seq<u8> {
    seq![hex_digit((b / 16) as u8), hex_digit((b % 16) as u8)]
}

/// Lowercase hexadecimal rendering of a byte sequence, two digits per byte.
pub open spec fn hex_of(bs: Seq<u8>) -> Seq<u8>
    decreases bs.len(),
{
    if bs.len() == 0 {
        Seq::<u8>::empty()
    } else {
        hex_pair(bs[0]) + hex_of(bs.skip(1))
    }
}

/// Whether `d` is a lowercase hexadecimal digit.
pub open spec fn is_hex_lower(d: u8) -> bool {
    (48 <= d && d <= 57) || (97 <= d && d <= 102)
}

/// The value of a lowercase hexadecimal digit.
pub open spec fn hex_val(d: u8) -> u8 {
    if d <= 57 {
        (d - 48) as u8
    } else {
        (d - 87) as u8
    }
}

/// Hexadecimal rendering distributes over concatenation.
pub proof fn lemma_hex_of_concat(a: Seq<u8>, b: Seq<u8>)
    ensures
        hex_of(a + b) == hex_of(a) + hex_of(b),
    decreases a.len(),
{
    if a.len() == 0 {
        assert(a + b =~= b);
        assert(hex_of(a) + hex_of(b) =~= hex_of(b));
    } else {
        lemma_hex_of_concat(a.skip(1), b);
        assert((a + b).skip(1) =~= a.skip(1) + b);
        assert(hex_of(a) + hex_of(b) =~= hex_pair(a[0]) + (hex_of(a.skip(1)) + hex_of(b)));
    }
}

/// Appends the lowercase hexadecimal rendering of `bs` to `out`.
pub fn append_hex(out: &mut Vec<u8>, bs: &Vec<u8>)
    ensures
        final(out)@ == old(out)@ + hex_of(bs@),
{
    let n: usize = bs.len();
    let mut i: usize = 0;
    proof {
        assert(bs@.subrange(0, 0) =~= Seq::<u8>::empty());
        assert(out@ =~= old(out)@ + hex_of(bs@.subrange(0, 0)));
    }
    while i < n
        invariant
            n == bs@.len(),
            i <= n,
            out@ == old(out)@ + hex_of(bs@.subrange(0, i as int)),
        decreases n - i,
    {
        let b: u8 = bs[i];
        let hi: u8 = b / 16;
        let lo: u8 = b % 16;
        out.push(if hi < 10 {
            48 + hi
        } else {
            87 + hi
        });
        out.push(if lo < 10 {
            48 + lo
        } else {
            87 + lo
        });
        proof {
            let pre = bs@.subrange(0, i as int);
            lemma_hex_of_concat(pre, seq![b]);
            assert(bs@.subrange(0, i + 1) =~= pre + seq![b]);
            assert(seq![b].skip(1) =~= Seq::<u8>::empty());
            assert(hex_of(seq![b]) == hex_pair(b) + hex_of(seq![b].skip(1)));
            assert(hex_of(Seq::<u8>::empty()) == Seq::<u8>::empty());
            assert(hex_of(seq![b]) =~= hex_pair(b));
            assert(out@ =~= old(out)@ + hex_of(bs@.subrange(0, i + 1)));
        }
        i = i + 1;
    }
    proof {
        assert(bs@.subrange(0, n as int) =~= bs@);
    }
}

/// Decodes a sequence of lowercase hexadecimal digits back into bytes;
/// `None` unless the whole sequence is well-formed.
pub open spec fn unhex(s: Seq<u8>) -> Option<Seq<u8>>
    decreases s.len(),
{
    if s.len() == 0 {
        Some(Seq::<u8>::empty())
    } else if s.len() >= 2 && is_hex_lower(s[0]) && is_hex_lower(s[1]) {
        match unhex(s.skip(2)) {
            Some(t) => Some(seq![(hex_val(s[0]) * 16 + hex_val(s[1])) as u8] + t),
            None => None,
        }
    } else {
        None
    }
}

/// Decodes `s[from..to]` as lowercase hexadecimal.
pub fn unhex_range(s: &Vec<u8>, from: usize, to: usize) -> (r: Option<Vec<u8>>)
    requires
        from <= to <= s@.len(),
    ensures
        match r {
            Some(v) => unhex(s@.subrange(from as int, to as int)) == Some(v@),
            None => unhex(s@.subrange(from as int, to as int)) is None,
        },
    decreases to - from,
{
    let ghost sub = s@.subrange(from as int, to as int);
    if from == to {
        proof {
            assert(sub =~= Seq::<u8>::empty());
        }
        return Some(Vec::new());
    }
    if to - from < 2 {
        return None;
    }
    let d0: u8 = s[from];
    let d1: u8 = s[from + 1];
    let ok0: bool = (48 <= d0 && d0 <= 57) || (97 <= d0 && d0 <= 102);
    let ok1: bool = (48 <= d1 && d1 <= 57) || (97 <= d1 && d1 <= 102);
    proof {
        assert(sub[0] == d0);
        assert(sub[1] == d1);
    }
    if !(ok0 && ok1) {
        return None;
    }
    let v0: u8 = if d0 <= 57 {
        d0 - 48
    } else {
        d0 - 87
    };
    let v1: u8 = if d1 <= 57 {
        d1 - 48
    } else {
        d1 - 87
    };
    let rest: Option<Vec<u8>> = unhex_range(s, from + 2, to);
    proof {
        assert(sub.skip(2) =~= s@.subrange(from + 2, to as int));
    }
    match rest {
        Some(mut t) => {
            let ghost t0 = t@;
            t.insert(0, v0 * 16 + v1);
            proof {
                assert(t@ =~= seq![(hex_val(sub[0]) * 16 + hex_val(sub[1])) as u8] + t0);
            }
            Some(t)
        },
        None => None,
    }
}

/// Decoding inverts encoding: `unhex` recovers exactly the bytes that
/// `hex_of` rendered.
pub proof fn lemma_unhex_hex(bs: Seq<u8>)
    ensures
        unhex(hex_of(bs)) == Some(bs),
    decreases bs.len(),
{
    if bs.len() == 0 {
    } else {
        let b = bs[0];
        let h = hex_of(bs);
        lemma_unhex_hex(bs.skip(1));
        assert(h[0] == hex_digit((b / 16) as u8));
        assert(h[1] == hex_digit((b % 16) as u8));
        assert(is_hex_lower(h[0]));
        assert(is_hex_lower(h[1]));
        assert(hex_val(h[0]) == b / 16);
        assert(hex_val(h[1]) == b % 16);
        assert(h.skip(2) =~= hex_of(bs.skip(1)));
        assert(seq![(hex_val(h[0]) * 16 + hex_val(h[1])) as u8] + bs.skip(1) =~= bs);
    }
}

/// A successful decode yields one byte for every two digits.
pub proof fn lemma_unhex_len(s: Seq<u8>)
    requires
        unhex(s) is Some,
    ensures
        (unhex(s)->Some_0).len() * 2 == s.len(),
    decreases s.len(),
{
    if s.len() == 0 {
    } else {
        lemma_unhex_len(s.skip(2));
    }
}

/// A successful decode is of canonical digits only: re-encoding gives the
/// input back.
pub proof fn lemma_hex_unhex(s: Seq<u8>)
    requires
        unhex(s) is Some,
    ensures
        hex_of(unhex(s)->Some_0) == s,
    decreases s.len(),
{
    if s.len() == 0 {
        assert(hex_of(Seq::<u8>::empty()) =~= s);
    } else {
        let t = unhex(s.skip(2))->Some_0;
        lemma_hex_unhex(s.skip(2));
        let b = (hex_val(s[0]) * 16 + hex_val(s[1])) as u8;
        let v = unhex(s)->Some_0;
        assert(v == seq![b] + t);
        assert(hex_val(s[1]) < 16);
        assert(b / 16 == hex_val(s[0]));
        assert(b % 16 == hex_val(s[1]));
        assert(hex_digit(hex_val(s[0])) == s[0]);
        assert(hex_digit(hex_val(s[1])) == s[1]);
        assert(v[0] == b);
        assert(v.skip(1) =~= t);
        assert(hex_of(v) =~= s);
    }
}

/// Decimal rendering of a non-negative integer, most significant digit
/// first, with no leading zeros.
pub open spec fn dec_of(n: nat) -> Seq<u8>
    decreases n,
{
    if n < 10 {
        seq![(48 + n) as u8]
    } else {
        dec_of(n / 10) + seq![(48 + n % 10) as u8]
    }
}

/// Appends the decimal rendering of `n` to `out`.
pub fn append_dec(out: &mut Vec<u8>, n: u64)
    ensures
        final(out)@ == old(out)@ + dec_of(n as nat),
    decreases n,
{
    if n < 10 {
        out.push(48 + (n as u8));
        proof {
            assert(out@ =~= old(out)@ + dec_of(n as nat));
        }
    } else {
        append_dec(out, n / 10);
        out.push(48 + ((n % 10) as u8));
        proof {
            assert(out@ =~= old(out)@ + dec_of(n as nat));
        }
    }
}

/// The canonical JSON escaping of one byte inside a quoted string:
/// quote and backslash get a backslash, control bytes a `\u00..` form,
/// everything else stands as itself.
pub open spec fn esc_byte(b: u8) -> Seq<u8> {
    if b == 34 {
        seq![92u8, 34u8]
    } else if b == 92 {
        seq![92u8, 92u8]
    } else if b < 32 {
        seq![92u8, 117u8, 48u8, 48u8, hex_digit((b / 16) as u8), hex_digit((b % 16) as u8)]
    } else {
        seq![b]
    }
}

/// The canonical JSON escaping of a byte string.
pub open spec fn escape(s: Seq<u8>) -> Seq<u8>
    decreases s.len(),
{
    if s.len() == 0 {
        Seq::<u8>::empty()
    } else {
        esc_byte(s[0]) + escape(s.skip(1))
    }
}

/// Escaping distributes over concatenation.
pub proof fn lemma_escape_concat(a: Seq<u8>, b: Seq<u8>)
    ensures
        escape(a + b) == escape(a) + escape(b),
    decreases a.len(),
{
    if a.len() == 0 {
        assert(a + b =~= b);
        assert(escape(a) + escape(b) =~= escape(b));
    } else {
        lemma_escape_concat(a.skip(1), b);
        assert((a + b).skip(1) =~= a.skip(1) + b);
        assert(escape(a) + escape(b) =~= esc_byte(a[0]) + (escape(a.skip(1)) + escape(b)));
    }
}

/// Appends the canonical JSON escaping of `s` to `out`.
pub fn append_escaped(out: &mut Vec<u8>, s: &Vec<u8>)
    ensures
        final(out)@ == old(out)@ + escape(s@),
{
    let n: usize = s.len();
    let mut i: usize = 0;
    proof {
        assert(s@.subrange(0, 0) =~= Seq::<u8>::empty());
        assert(out@ =~= old(out)@ + escape(s@.subrange(0, 0)));
    }
    while i < n
        invariant
            n == s@.len(),
            i <= n,
            out@ == old(out)@ + escape(s@.subrange(0, i as int)),
        decreases n - i,
    {
        let b: u8 = s[i];
        if b == 34 {
            out.push(92);
            out.push(34);
        } else if b == 92 {
            out.push(92);
            out.push(92);
        } else if b < 32 {
            out.push(92);
            out.push(117);
            out.push(48);
            out.push(48);
            let hi: u8 = b / 16;
            let lo: u8 = b % 16;
            out.push(if hi < 10 {
                48 + hi
            } else {
                87 + hi
            });
            out.push(if lo < 10 {
                48 + lo
            } else {
                87 + lo
            });
        } else {
            out.push(b);
        }
        proof {
            let pre = s@.subrange(0, i as int);
            lemma_escape_concat(pre, seq![b]);
            assert(s@.subrange(0, i + 1) =~= pre + seq![b]);
            assert(seq![b].skip(1) =~= Seq::<u8>::empty());
            assert(escape(seq![b]) == esc_byte(b) + escape(seq![b].skip(1)));
            assert(escape(Seq::<u8>::empty()) == Seq::<u8>::empty());
            assert(escape(seq![b]) =~= esc_byte(b));
            assert(out@ =~= old(out)@ + escape(s@.subrange(0, i + 1)));
        }
        i = i + 1;
    }
    proof {
        assert(s@.subrange(0, n as int) =~= s@);
    }
}

/// Strict inverse of `escape`: decodes exactly the canonical escape forms
/// and refuses everything else — raw quotes, raw control bytes, unknown
/// escapes, and non-canonical `\u` sequences.
pub open spec fn unescape(s: Seq<u8>) -> Option<Seq<u8>>
    decreases s.len(),
{
    if s.len() == 0 {
        Some(Seq::<u8>::empty())
    } else if s[0] == 92 {
        if s.len() >= 2 && (s[1] == 34 || s[1] == 92) {
            match unescape(s.skip(2)) {
                Some(t) => Some(seq![s[1]] + t),
                None => None,
            }
        } else if s.len() >= 6 && s[1] == 117 && s[2] == 48 && s[3] == 48 && is_hex_lower(s[4])
            && is_hex_lower(s[5]) && hex_val(s[4]) * 16 + hex_val(s[5]) < 32 {
            match unescape(s.skip(6)) {
                Some(t) => Some(seq![(hex_val(s[4]) * 16 + hex_val(s[5])) as u8] + t),
                None => None,
            }
        } else {
            None
        }
    } else if s[0] == 34 || s[0] < 32 {
        None
    } else {
        match unescape(s.skip(1)) {
            Some(t) => Some(seq![s[0]] + t),
            None => None,
        }
    }
}

/// Decodes `s[from..to]` as a canonically escaped JSON string body.
pub fn unescape_range(s: &Vec<u8>, from: usize, to: usize) -> (r: Option<Vec<u8>>)
    requires
        from <= to <= s@.len(),
    ensures
        match r {
            Some(v) => unescape(s@.subrange(from as int, to as int)) == Some(v@),
            None => unescape(s@.subrange(from as int, to as int)) is None,
        },
    decreases to - from,
{
    let ghost sub = s@.subrange(from as int, to as int);
    if from == to {
        proof {
            assert(sub =~= Seq::<u8>::empty());
        }
        return Some(Vec::new());
    }
    let b0: u8 = s[from];
    proof {
        assert(sub[0] == b0);
    }
    if b0 == 92 {
        if to - from >= 2 {
            let b1: u8 = s[from + 1];
            proof {
                assert(sub[1] == b1);
            }
            if b1 == 34 || b1 == 92 {
                let rest: Option<Vec<u8>> = unescape_range(s, from + 2, to);
                proof {
                    assert(sub.skip(2) =~= s@.subrange(from + 2, to as int));
                }
                match rest {
                    Some(mut t) => {
                        let ghost t0 = t@;
                        t.insert(0, b1);
                        proof {
                            assert(t@ =~= seq![sub[1]] + t0);
                        }
                        Some(t)
                    },
                    None => None,
                }
            } else if b1 == 117 && to - from >= 6 {
                let b2: u8 = s[from + 2];
                let b3: u8 = s[from + 3];
                let d0: u8 = s[from + 4];
                let d1: u8 = s[from + 5];
                proof {
                    assert(sub[2] == b2);
                    assert(sub[3] == b3);
                    assert(sub[4] == d0);
                    assert(sub[5] == d1);
                }
                let ok0: bool = (48 <= d0 && d0 <= 57) || (97 <= d0 && d0 <= 102);
                let ok1: bool = (48 <= d1 && d1 <= 57) || (97 <= d1 && d1 <= 102);
                if b2 == 48 && b3 == 48 && ok0 && ok1 {
                    let v0: u8 = if d0 <= 57 {
                        d0 - 48
                    } else {
                        d0 - 87
                    };
                    let v1: u8 = if d1 <= 57 {
                        d1 - 48
                    } else {
                        d1 - 87
                    };
                    if v0 * 16 + v1 < 32 {
                        let rest: Option<Vec<u8>> = unescape_range(s, from + 6, to);
                        proof {
                            assert(sub.skip(6) =~= s@.subrange(from + 6, to as int));
                        }
                        match rest {
                            Some(mut t) => {
                                let ghost t0 = t@;
                                t.insert(0, v0 * 16 + v1);
                                proof {
                                    assert(t@ =~= seq![(hex_val(sub[4]) * 16 + hex_val(
                                        sub[5],
                                    )) as u8] + t0);
                                }
                                Some(t)
                            },
                            None => None,
                        }
                    } else {
                        None
                    }
                } else {
                    None
                }
            } else {
                None
            }
        } else {
            None
        }
    } else if b0 == 34 || b0 < 32 {
        None
    } else {
        let rest: Option<Vec<u8>> = unescape_range(s, from + 1, to);
        proof {
            assert(sub.skip(1) =~= s@.subrange(from + 1, to as int));
        }
        match rest {
            Some(mut t) => {
                let ghost t0 = t@;
                t.insert(0, b0);
                proof {
                    assert(t@ =~= seq![sub[0]] + t0);
                }
                Some(t)
            },
            None => None,
        }
    }
}

/// Unescaping inverts escaping: the canonical escape form of any byte
/// string decodes back to it.
pub proof fn lemma_unescape_escape(s: Seq<u8>)
    ensures
        unescape(escape(s)) == Some(s),
    decreases s.len(),
{
    if s.len() == 0 {
    } else {
        let b = s[0];
        let u = esc_byte(b);
        let r = escape(s.skip(1));
        let e = escape(s);
        lemma_unescape_escape(s.skip(1));
        assert(e == u + r);
        if b == 34 || b == 92 {
            assert(e[0] == 92 && e[1] == b);
            assert(e.skip(2) =~= r);
            assert(seq![b] + s.skip(1) =~= s);
        } else if b < 32 {
            assert(e[0] == 92 && e[1] == 117 && e[2] == 48 && e[3] == 48);
            assert(e[4] == hex_digit((b / 16) as u8));
            assert(e[5] == hex_digit((b % 16) as u8));
            assert(is_hex_lower(e[4]) && is_hex_lower(e[5]));
            assert(hex_val(e[4]) == b / 16 && hex_val(e[5]) == b % 16);
            assert(hex_val(e[4]) * 16 + hex_val(e[5]) == b);
            assert(e.skip(6) =~= r);
            assert(seq![b] + s.skip(1) =~= s);
        } else {
            assert(e[0] == b);
            assert(e.skip(1) =~= r);
            assert(seq![b] + s.skip(1) =~= s);
        }
    }
}

/// A lowercase hexadecimal digit re-renders to itself.
pub proof fn lemma_hex_digit_val(d: u8)
    requires
        is_hex_lower(d),
    ensures
        hex_digit(hex_val(d)) == d,
        hex_val(d) < 16,
{
}

/// A successful unescape is of a canonical escape form only: re-escaping
/// the decoded bytes gives the input back.
pub proof fn lemma_escape_unescape(s: Seq<u8>)
    requires
        unescape(s) is Some,
    ensures
        escape(unescape(s)->Some_0) == s,
    decreases s.len(),
{
    let t = unescape(s)->Some_0;
    if s.len() == 0 {
        assert(escape(t) =~= s);
    } else if s[0] == 92 {
        if s.len() >= 2 && (s[1] == 34 || s[1] == 92) {
            let t2 = unescape(s.skip(2))->Some_0;
            lemma_escape_unescape(s.skip(2));
            assert(t == seq![s[1]] + t2);
            assert(t[0] == s[1]);
            assert(t.skip(1) =~= t2);
            assert(esc_byte(s[1]) =~= seq![s[0], s[1]]);
            assert(escape(t) == esc_byte(s[1]) + escape(t2));
            assert(seq![s[0], s[1]] + s.skip(2) =~= s);
        } else {
            let v = (hex_val(s[4]) * 16 + hex_val(s[5])) as u8;
            let t6 = unescape(s.skip(6))->Some_0;
            lemma_escape_unescape(s.skip(6));
            assert(t == seq![v] + t6);
            assert(t[0] == v);
            assert(t.skip(1) =~= t6);
            lemma_hex_digit_val(s[4]);
            lemma_hex_digit_val(s[5]);
            assert(v / 16 == hex_val(s[4]));
            assert(v % 16 == hex_val(s[5]));
            assert(esc_byte(v) =~= seq![92u8, 117u8, 48u8, 48u8, s[4], s[5]]);
            assert(escape(t) == esc_byte(v) + escape(t6));
            assert(seq![92u8, 117u8, 48u8, 48u8, s[4], s[5]] + s.skip(6) =~= s);
        }
    } else {
        let t1 = unescape(s.skip(1))->Some_0;
        lemma_escape_unescape(s.skip(1));
        assert(t == seq![s[0]] + t1);
        assert(t[0] == s[0]);
        assert(t.skip(1) =~= t1);
        assert(esc_byte(s[0]) =~= seq![s[0]]);
        assert(escape(t) == esc_byte(s[0]) + escape(t1));
        assert(seq![s[0]] + s.skip(1) =~= s);
    }
}

} // verus!
