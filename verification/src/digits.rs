//! Decimal digit strings and their numeric values.
//!
//! The numeric fields of a log line (port, status code, response length, the
//! timestamp components) are unsigned decimal literals with an optional
//! leading `+`, rejected when empty, non-numeric, or over the field's bound.

use vstd::prelude::*;

verus! {

/// `b` is an ASCII decimal digit.
pub open spec fn is_digit(b: u8) -> bool {
    48 <= b <= 57
}

/// Every byte of `s` is an ASCII decimal digit.
pub open spec fn all_digits(s: Seq<u8>) -> bool {
    forall|i: int| 0 <= i < s.len() ==> is_digit(s[i])
}

/// Value of `s` read as a big-endian decimal numeral.
pub open spec fn dec_val(s: Seq<u8>) -> nat
    decreases s.len(),
{
    if s.len() == 0 {
        0
    } else {
        (dec_val(s.drop_last()) * 10 + (s.last() - 48)) as nat
    }
}

/// Reading a decimal numeral left to right never decreases its value: the
/// value of a digit-string prefix is at most the value of the whole string.
pub proof fn lemma_dec_val_prefix_le(s: Seq<u8>, i: int)
    requires
        0 <= i <= s.len(),
        all_digits(s),
    ensures
        dec_val(s.subrange(0, i)) <= dec_val(s),
    decreases s.len(),
{
    if i < s.len() {
        let t = s.drop_last();
        assert forall|k: int| 0 <= k < t.len() implies is_digit(t[k]) by {
            assert(t[k] == s[k]);
        }
        lemma_dec_val_prefix_le(t, i);
        assert(t.subrange(0, i) =~= s.subrange(0, i));
        assert(is_digit(s[s.len() - 1]));
        assert(dec_val(s) == dec_val(t) * 10 + (s.last() - 48));
        assert(dec_val(t) <= dec_val(s));
    } else {
        assert(s.subrange(0, i) =~= s);
    }
}

/// The decimal field grammar: an optional leading `+`, then one or more
/// digits whose value is at most `bound`.
pub open spec fn spec_parse_dec(s: Seq<u8>, bound: nat) -> Option<nat> {
    let digits = if s.len() >= 1 && s[0] == 43u8 {
        s.subrange(1, s.len() as int)
    } else {
        s
    };
    if digits.len() >= 1 && all_digits(digits) && dec_val(digits) <= bound {
        Some(dec_val(digits))
    } else {
        None
    }
}

/// Parses `s` as an unsigned decimal literal no greater than `bound`.
pub fn parse_dec(s: &[u8], bound: u32) -> (out: Option<u32>)
    ensures
        match out {
            Some(v) => spec_parse_dec(s@, bound as nat) == Some(v as nat),
            None => spec_parse_dec(s@, bound as nat) is None,
        },
{
    let ghost digits: Seq<u8> = if s@.len() >= 1 && s@[0] == 43u8 {
        s@.subrange(1, s@.len() as int)
    } else {
        s@
    };
    let start: usize = if s.len() >= 1 && s[0] == 43u8 {
        1
    } else {
        0
    };
    proof {
        assert(digits =~= s@.subrange(start as int, s@.len() as int));
    }
    if s.len() == start {
        return None;
    }
    let mut acc: u32 = 0;
    let mut i: usize = start;
    while i < s.len()
        invariant
            start <= i <= s@.len(),
            start == (if s@.len() >= 1 && s@[0] == 43u8 {
                1int
            } else {
                0int
            }),
            s@.len() > start,
            digits == (if s@.len() >= 1 && s@[0] == 43u8 {
                s@.subrange(1, s@.len() as int)
            } else {
                s@
            }),
            digits =~= s@.subrange(start as int, s@.len() as int),
            all_digits(s@.subrange(start as int, i as int)),
            acc as nat == dec_val(s@.subrange(start as int, i as int)),
            acc <= bound,
        decreases s@.len() - i,
    {
        let b = s[i];
        if b < 48 || b > 57 {
            proof {
                assert(digits[i - start] == s@[i as int]);
                assert(!is_digit(digits[i - start]));
                assert(!all_digits(digits));
                assert(spec_parse_dec(s@, bound as nat) is None);
            }
            return None;
        }
        let d: u32 = (b - 48) as u32;
        let ghost pre = s@.subrange(start as int, i as int);
        let ghost cur = s@.subrange(start as int, i as int + 1);
        proof {
            assert(cur.drop_last() =~= pre);
            assert(cur.last() == s@[i as int]);
            assert(dec_val(cur) == acc as nat * 10 + d);
        }
        if d > bound || acc > (bound - d) / 10 {
            proof {
                // The running value already exceeds `bound`, and appending
                // further digits can only increase it.
                if d <= bound {
                    vstd::arithmetic::div_mod::lemma_fundamental_div_mod(bound - d, 10);
                }
                assert(dec_val(cur) > bound);
                if all_digits(digits) {
                    lemma_dec_val_prefix_le(digits, i as int + 1 - start);
                    assert(digits.subrange(0, i as int + 1 - start) =~= cur);
                    assert(dec_val(cur) <= dec_val(digits));
                    assert(spec_parse_dec(s@, bound as nat) is None);
                } else {
                    assert(spec_parse_dec(s@, bound as nat) is None);
                }
            }
            return None;
        }
        proof {
            vstd::arithmetic::div_mod::lemma_fundamental_div_mod(bound - d, 10);
            assert(acc * 10 + d <= bound);
        }
        acc = acc * 10 + d;
        i += 1;
    }
    proof {
        assert(s@.subrange(start as int, i as int) =~= digits);
    }
    Some(acc)
}

/// Parses `s` as an unsigned 16-bit decimal literal.
pub fn parse_u16(s: &[u8]) -> (out: Option<u16>)
    ensures
        match out {
            Some(v) => spec_parse_dec(s@, 65535) == Some(v as nat),
            None => spec_parse_dec(s@, 65535) is None,
        },
{
    match parse_dec(s, 65535) {
        Some(v) => Some(v as u16),
        None => None,
    }
}

/// Parses `s` as an unsigned 32-bit decimal literal.
pub fn parse_u32(s: &[u8]) -> (out: Option<u32>)
    ensures
        match out {
            Some(v) => spec_parse_dec(s@, 0xffff_ffff) == Some(v as nat),
            None => spec_parse_dec(s@, 0xffff_ffff) is None,
        },
{
    parse_dec(s, 0xffff_ffff)
}

} // verus!
