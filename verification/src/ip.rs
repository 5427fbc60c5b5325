//! IP address literals.
//!
//! The server and client address fields hold textual IPv4 or IPv6 literals.
//! An IPv4 literal is four dot-separated decimal octets, each 0 to 255 with
//! no leading zero. An IPv6 literal is colon-separated groups of one to four
//! hex digits, with at most one `::` standing for one or more zero groups,
//! and optionally an embedded IPv4 literal in place of the last two groups.

use vstd::prelude::*;

use crate::digits::{all_digits, dec_val, is_digit};
use crate::scan::{lemma_spec_find, spec_find};

verus! {

/// A parsed IP address: four IPv4 octets or eight IPv6 groups.
#[derive(Clone, Copy, Debug, PartialEq, Eq, Structural)]
pub enum IpAddr {
    V4(u8, u8, u8, u8),
    V6(u16, u16, u16, u16, u16, u16, u16, u16),
}

/// An IPv4 octet: one to three decimal digits, value at most 255, and no
/// leading zero.
pub open spec fn valid_octet(s: Seq<u8>) -> bool {
    &&& 1 <= s.len() <= 3
    &&& all_digits(s)
    &&& dec_val(s) <= 255
    &&& (s.len() > 1 ==> s[0] != 48u8)
}

/// A decimal numeral of at most two digits stays below 100.
pub proof fn lemma_dec_val_bound2(s: Seq<u8>)
    requires
        s.len() <= 2,
        all_digits(s),
    ensures
        dec_val(s) <= 99,
{
    if s.len() > 0 {
        let t = s.drop_last();
        if t.len() > 0 {
            assert(t.drop_last().len() == 0);
            assert(dec_val(t.drop_last()) == 0);
            assert(t.last() == s[0]);
            assert(is_digit(s[0]));
        }
        assert(dec_val(t) <= 9);
        assert(is_digit(s.last()));
    }
}

/// Parses one IPv4 octet.
pub fn parse_octet(s: &[u8]) -> (out: Option<u8>)
    ensures
        match out {
            Some(v) => valid_octet(s@) && v as nat == dec_val(s@),
            None => !valid_octet(s@),
        },
{
    if s.len() < 1 || s.len() > 3 {
        return None;
    }
    if s.len() > 1 && s[0] == 48u8 {
        return None;
    }
    let mut acc: u32 = 0;
    let mut i: usize = 0;
    while i < s.len()
        invariant
            0 <= i <= s@.len(),
            s@.len() <= 3,
            all_digits(s@.subrange(0, i as int)),
            acc as nat == dec_val(s@.subrange(0, i as int)),
            acc <= 999,
        decreases s@.len() - i,
    {
        let b = s[i];
        if b < 48 || b > 57 {
            proof {
                assert(!is_digit(s@[i as int]));
            }
            return None;
        }
        let ghost pre = s@.subrange(0, i as int);
        let ghost cur = s@.subrange(0, i as int + 1);
        proof {
            assert(cur.drop_last() =~= pre);
            assert(cur.last() == s@[i as int]);
            lemma_dec_val_bound2(pre);
        }
        acc = acc * 10 + ((b - 48) as u32);
        i += 1;
    }
    proof {
        assert(s@.subrange(0, i as int) =~= s@);
    }
    if acc > 255 {
        return None;
    }
    Some(acc as u8)
}

/// An IPv6 group digit: hexadecimal, either case.
pub open spec fn is_hex_digit(b: u8) -> bool {
    is_digit(b) || (97 <= b <= 102) || (65 <= b <= 70)
}

/// Numeric value of one hex digit.
pub open spec fn hex_digit_val(b: u8) -> nat {
    if is_digit(b) {
        (b - 48) as nat
    } else if 97 <= b <= 102 {
        (b - 87) as nat
    } else if 65 <= b <= 70 {
        (b - 55) as nat
    } else {
        0
    }
}

/// Every byte of `s` is a hex digit.
pub open spec fn all_hex(s: Seq<u8>) -> bool {
    forall|i: int| 0 <= i < s.len() ==> is_hex_digit(s[i])
}

/// Value of `s` read as a big-endian hexadecimal numeral.
pub open spec fn hex_val(s: Seq<u8>) -> nat
    decreases s.len(),
{
    if s.len() == 0 {
        0
    } else {
        hex_val(s.drop_last()) * 16 + hex_digit_val(s.last())
    }
}

/// An IPv6 group: one to four hex digits.
pub open spec fn valid_quibble(s: Seq<u8>) -> bool {
    1 <= s.len() <= 4 && all_hex(s)
}

/// A hexadecimal numeral of at most four digits stays below 2^16.
pub proof fn lemma_hex_val_bound(s: Seq<u8>)
    requires
        s.len() <= 4,
    ensures
        hex_val(s) < 65536,
    decreases s.len(),
{
    if s.len() > 0 {
        let t = s.drop_last();
        lemma_hex_val_bound_small(t);
        assert(hex_digit_val(s.last()) <= 15);
    }
}

/// A hexadecimal numeral of at most three digits stays below 2^12.
pub proof fn lemma_hex_val_bound_small(s: Seq<u8>)
    requires
        s.len() <= 3,
    ensures
        hex_val(s) < 4096,
    decreases s.len(),
{
    if s.len() > 0 {
        let t = s.drop_last();
        lemma_hex_val_bound_small2(t);
        assert(hex_digit_val(s.last()) <= 15);
    }
}

/// A hexadecimal numeral of at most two digits stays below 2^8.
pub proof fn lemma_hex_val_bound_small2(s: Seq<u8>)
    requires
        s.len() <= 2,
    ensures
        hex_val(s) < 256,
    decreases s.len(),
{
    if s.len() > 0 {
        let t = s.drop_last();
        assert(t.len() <= 1);
        if t.len() > 0 {
            assert(t.drop_last().len() == 0);
            assert(hex_val(t.drop_last()) == 0);
            assert(hex_digit_val(t.last()) <= 15);
        }
        assert(hex_val(t) <= 15);
        assert(hex_digit_val(s.last()) <= 15);
    }
}

/// Parses one IPv6 group.
pub fn parse_quibble(s: &[u8]) -> (out: Option<u16>)
    ensures
        match out {
            Some(v) => valid_quibble(s@) && v as nat == hex_val(s@),
            None => !valid_quibble(s@),
        },
{
    if s.len() < 1 || s.len() > 4 {
        return None;
    }
    let mut acc: u32 = 0;
    let mut i: usize = 0;
    while i < s.len()
        invariant
            0 <= i <= s@.len(),
            s@.len() <= 4,
            all_hex(s@.subrange(0, i as int)),
            acc as nat == hex_val(s@.subrange(0, i as int)),
            acc <= 65535,
        decreases s@.len() - i,
    {
        let b = s[i];
        let d: u32 = if 48 <= b && b <= 57 {
            (b - 48) as u32
        } else if 97 <= b && b <= 102 {
            (b - 87) as u32
        } else if 65 <= b && b <= 70 {
            (b - 55) as u32
        } else {
            proof {
                assert(!is_hex_digit(s@[i as int]));
            }
            return None;
        };
        let ghost pre = s@.subrange(0, i as int);
        let ghost cur = s@.subrange(0, i as int + 1);
        proof {
            assert(cur.drop_last() =~= pre);
            assert(cur.last() == s@[i as int]);
            assert(d == hex_digit_val(s@[i as int]));
            lemma_hex_val_bound_small(pre);
        }
        acc = acc * 16 + d;
        i += 1;
    }
    proof {
        assert(s@.subrange(0, i as int) =~= s@);
        lemma_hex_val_bound(s@);
    }
    Some(acc as u16)
}

/// The IPv4 literal grammar: four octets separated by exactly three dots.
/// The split is canonical because an octet never contains a dot.
pub open spec fn spec_parse_ipv4(s: Seq<u8>) -> Option<IpAddr> {
    match spec_find(s, 46u8) {
        None => None,
        Some(i1) => {
            let o1 = s.subrange(0, i1);
            let r1 = s.subrange(i1 + 1, s.len() as int);
            match spec_find(r1, 46u8) {
                None => None,
                Some(i2) => {
                    let o2 = r1.subrange(0, i2);
                    let r2 = r1.subrange(i2 + 1, r1.len() as int);
                    match spec_find(r2, 46u8) {
                        None => None,
                        Some(i3) => {
                            let o3 = r2.subrange(0, i3);
                            let o4 = r2.subrange(i3 + 1, r2.len() as int);
                            if valid_octet(o1) && valid_octet(o2) && valid_octet(o3)
                                && spec_find(o4, 46u8) is None && valid_octet(o4) {
                                Some(
                                    IpAddr::V4(
                                        dec_val(o1) as u8,
                                        dec_val(o2) as u8,
                                        dec_val(o3) as u8,
                                        dec_val(o4) as u8,
                                    ),
                                )
                            } else {
                                None
                            }
                        },
                    }
                },
            }
        },
    }
}

/// Parses an IPv4 literal.
pub fn parse_ipv4(s: &[u8]) -> (out: Option<IpAddr>)
    ensures
        out == spec_parse_ipv4(s@),
{
    let i1 = match crate::scan::find_byte(s, 46u8) {
        Some(i) => i,
        None => {
            return None;
        },
    };
    proof {
        lemma_spec_find(s@, 46u8);
    }
    let n = s.len();
    let o1 = vstd::slice::slice_subrange(s, 0, i1);
    let r1 = vstd::slice::slice_subrange(s, i1 + 1, n);
    let i2 = match crate::scan::find_byte(r1, 46u8) {
        Some(i) => i,
        None => {
            return None;
        },
    };
    proof {
        lemma_spec_find(r1@, 46u8);
    }
    let o2 = vstd::slice::slice_subrange(r1, 0, i2);
    let r2 = vstd::slice::slice_subrange(r1, i2 + 1, r1.len());
    let i3 = match crate::scan::find_byte(r2, 46u8) {
        Some(i) => i,
        None => {
            return None;
        },
    };
    proof {
        lemma_spec_find(r2@, 46u8);
    }
    let o3 = vstd::slice::slice_subrange(r2, 0, i3);
    let o4 = vstd::slice::slice_subrange(r2, i3 + 1, r2.len());
    if let Some(_) = crate::scan::find_byte(o4, 46u8) {
        return None;
    }
    let v1 = match parse_octet(o1) {
        Some(v) => v,
        None => {
            return None;
        },
    };
    let v2 = match parse_octet(o2) {
        Some(v) => v,
        None => {
            return None;
        },
    };
    let v3 = match parse_octet(o3) {
        Some(v) => v,
        None => {
            return None;
        },
    };
    let v4 = match parse_octet(o4) {
        Some(v) => v,
        None => {
            return None;
        },
    };
    Some(IpAddr::V4(v1, v2, v3, v4))
}

/// The two-byte group separator `"::"` starts at index `i` of `s`.
pub open spec fn dc_at(s: Seq<u8>, i: int) -> bool {
    0 <= i && i + 2 <= s.len() && s[i] == 58u8 && s[i + 1] == 58u8
}

/// Index of the first occurrence of `"::"` in `s`, if any.
pub open spec fn spec_find2(s: Seq<u8>) -> Option<int>
    decreases s.len(),
{
    if s.len() < 2 {
        None
    } else if s[0] == 58u8 && s[1] == 58u8 {
        Some(0int)
    } else {
        match spec_find2(s.subrange(1, s.len() as int)) {
            Some(i) => Some(i + 1),
            None => None,
        }
    }
}

/// `spec_find2` returns the first `"::"` position, or `None` when `"::"`
/// occurs nowhere in `s`.
pub proof fn lemma_spec_find2(s: Seq<u8>)
    ensures
        match spec_find2(s) {
            Some(i) => dc_at(s, i) && (forall|j: int| 0 <= j < i ==> !dc_at(s, j)),
            None => forall|j: int| !dc_at(s, j),
        },
    decreases s.len(),
{
    if s.len() < 2 {
    } else if s[0] == 58u8 && s[1] == 58u8 {
    } else {
        let t = s.subrange(1, s.len() as int);
        lemma_spec_find2(t);
        assert forall|j: int| 1 <= j implies dc_at(s, j) == dc_at(t, j - 1) by {
            if j + 2 <= s.len() {
                assert(s[j] == t[j - 1]);
                assert(s[j + 1] == t[j]);
            }
        }
        match spec_find2(s) {
            Some(i) => {
                assert(dc_at(t, i - 1));
                assert forall|j: int| 0 <= j < i implies !dc_at(s, j) by {
                    if j >= 1 {
                        assert(!dc_at(t, j - 1));
                    }
                }
            },
            None => {
                assert forall|j: int| !dc_at(s, j) by {
                    if j >= 1 {
                        assert(!dc_at(t, j - 1));
                    }
                }
            },
        }
    }
}

/// Linear scan for the first occurrence of `"::"` in `s`.
pub fn find2(s: &[u8]) -> (out: Option<usize>)
    ensures
        match out {
            Some(i) => spec_find2(s@) == Some(i as int),
            None => spec_find2(s@) is None,
        },
{
    if s.len() < 2 {
        proof {
            lemma_spec_find2(s@);
        }
        return None;
    }
    let mut i: usize = 0;
    while i < s.len() - 1
        invariant
            s@.len() >= 2,
            0 <= i <= s@.len() - 1,
            forall|j: int| 0 <= j < i ==> !dc_at(s@, j),
        decreases s@.len() - i,
    {
        if s[i] == 58u8 && s[i + 1] == 58u8 {
            proof {
                lemma_spec_find2(s@);
                assert(dc_at(s@, i as int));
            }
            return Some(i);
        }
        i += 1;
    }
    proof {
        lemma_spec_find2(s@);
    }
    None
}

/// Group list grammar: one or more groups separated by single colons, each a
/// hex quibble; when `allow_ip` holds, the final group may instead be an
/// embedded IPv4 literal contributing its two high and two low octets as two
/// groups.
pub open spec fn spec_groups(s: Seq<u8>, allow_ip: bool) -> Option<Seq<u16>>
    decreases s.len()
        via spec_groups_dec
{
    match spec_find(s, 58u8) {
        None => {
            if valid_quibble(s) {
                Some(seq![hex_val(s) as u16])
            } else if allow_ip {
                match spec_parse_ipv4(s) {
                    Some(ip) => match ip {
                        IpAddr::V4(a, b, c, d) => Some(
                            seq![
                                ((a as nat) * 256 + (b as nat)) as u16,
                                ((c as nat) * 256 + (d as nat)) as u16,
                            ],
                        ),
                        _ => None,
                    },
                    None => None,
                }
            } else {
                None
            }
        },
        Some(i) => {
            if valid_quibble(s.subrange(0, i)) {
                match spec_groups(s.subrange(i + 1, s.len() as int), allow_ip) {
                    Some(ws) => Some(seq![hex_val(s.subrange(0, i)) as u16] + ws),
                    None => None,
                }
            } else {
                None
            }
        },
    }
}

#[via_fn]
proof fn spec_groups_dec(s: Seq<u8>, allow_ip: bool) {
    lemma_spec_find(s, 58u8);
}

/// Parses a colon-separated group list, as `spec_groups` defines it.
pub fn parse_groups(s: &[u8], allow_ip: bool) -> (out: Option<Vec<u16>>)
    ensures
        match out {
            Some(v) => spec_groups(s@, allow_ip) == Some(v@) && v@.len() <= s@.len() + 2,
            None => spec_groups(s@, allow_ip) is None,
        },
    decreases s@.len(),
{
    match crate::scan::find_byte(s, 58u8) {
        None => {
            match parse_quibble(s) {
                Some(q) => {
                    let mut v: Vec<u16> = Vec::new();
                    v.push(q);
                    proof {
                        assert(v@ =~= seq![hex_val(s@) as u16]);
                    }
                    Some(v)
                },
                None => {
                    if allow_ip {
                        match parse_ipv4(s) {
                            Some(ip) => match ip {
                                IpAddr::V4(a, b, c, d) => {
                                    let w1: u16 = (a as u16) * 256 + (b as u16);
                                    let w2: u16 = (c as u16) * 256 + (d as u16);
                                    let mut v: Vec<u16> = Vec::new();
                                    v.push(w1);
                                    v.push(w2);
                                    proof {
                                        assert(v@ =~= seq![w1, w2]);
                                    }
                                    Some(v)
                                },
                                _ => None,
                            },
                            None => None,
                        }
                    } else {
                        None
                    }
                },
            }
        },
        Some(i) => {
            proof {
                lemma_spec_find(s@, 58u8);
            }
            let n = s.len();
            let g = vstd::slice::slice_subrange(s, 0, i);
            let rest = vstd::slice::slice_subrange(s, i + 1, n);
            match parse_quibble(g) {
                Some(q) => {
                    match parse_groups(rest, allow_ip) {
                        Some(mut ws) => {
                            let ghost tail = ws@;
                            ws.insert(0, q);
                            proof {
                                assert(ws@ =~= seq![q] + tail);
                            }
                            Some(ws)
                        },
                        None => None,
                    }
                },
                None => None,
            }
        },
    }
}

/// A run of zero groups.
pub open spec fn zeros(n: int) -> Seq<u16> {
    Seq::new(n as nat, |i: int| 0u16)
}

/// The address made of eight groups.
pub open spec fn v6_of(ws: Seq<u16>) -> IpAddr {
    IpAddr::V6(ws[0], ws[1], ws[2], ws[3], ws[4], ws[5], ws[6], ws[7])
}

/// The IPv6 literal grammar. Without `"::"` the literal is exactly eight
/// groups. With one `"::"` the group lists on either side together leave at
/// least one group elided, and the elided groups are zero.
pub open spec fn spec_parse_ipv6(s: Seq<u8>) -> Option<IpAddr> {
    match spec_find2(s) {
        None => match spec_groups(s, true) {
            Some(ws) => if ws.len() == 8 {
                Some(v6_of(ws))
            } else {
                None
            },
            None => None,
        },
        Some(i) => {
            let left = s.subrange(0, i);
            let right = s.subrange(i + 2, s.len() as int);
            let lw = if left.len() == 0 {
                Some(Seq::<u16>::empty())
            } else {
                spec_groups(left, false)
            };
            let rw = if right.len() == 0 {
                Some(Seq::<u16>::empty())
            } else {
                spec_groups(right, true)
            };
            match (lw, rw) {
                (Some(l), Some(r)) => if l.len() + r.len() <= 7 {
                    Some(v6_of(l + zeros(8 - l.len() - r.len()) + r))
                } else {
                    None
                },
                _ => None,
            }
        },
    }
}

/// Parses an IPv6 literal.
pub fn parse_ipv6(s: &[u8]) -> (out: Option<IpAddr>)
    ensures
        out == spec_parse_ipv6(s@),
{
    match find2(s) {
        None => {
            match parse_groups(s, true) {
                Some(ws) => {
                    if ws.len() == 8 {
                        let ghost gws = ws@;
                        let out = IpAddr::V6(
                            ws[0],
                            ws[1],
                            ws[2],
                            ws[3],
                            ws[4],
                            ws[5],
                            ws[6],
                            ws[7],
                        );
                        proof {
                            assert(out == v6_of(gws));
                        }
                        Some(out)
                    } else {
                        None
                    }
                },
                None => None,
            }
        },
        Some(i) => {
            proof {
                lemma_spec_find2(s@);
            }
            let n = s.len();
            let left = vstd::slice::slice_subrange(s, 0, i);
            let right = vstd::slice::slice_subrange(s, i + 2, n);
            let lw: Option<Vec<u16>> = if left.len() == 0 {
                Some(Vec::new())
            } else {
                parse_groups(left, false)
            };
            let rw: Option<Vec<u16>> = if right.len() == 0 {
                Some(Vec::new())
            } else {
                parse_groups(right, true)
            };
            match (lw, rw) {
                (Some(l), Some(mut r)) => {
                    if l.len() <= 7 && r.len() <= 7 - l.len() {
                        let ghost lg = l@;
                        let ghost rg = r@;
                        let mut words = l;
                        let target: usize = 8 - r.len();
                        while words.len() < target
                            invariant
                                lg.len() + rg.len() <= 7,
                                target == 8 - rg.len(),
                                r@ == rg,
                                lg.len() <= words@.len() <= target,
                                words@ == lg + zeros(words@.len() - lg.len()),
                            decreases target - words@.len(),
                        {
                            words.push(0u16);
                            proof {
                                assert(words@ =~= lg + zeros(words@.len() - lg.len()));
                            }
                        }
                        words.append(&mut r);
                        proof {
                            assert(words@ =~= lg + zeros(8 - lg.len() - rg.len()) + rg);
                        }
                        let out = IpAddr::V6(
                            words[0],
                            words[1],
                            words[2],
                            words[3],
                            words[4],
                            words[5],
                            words[6],
                            words[7],
                        );
                        proof {
                            assert(out == v6_of(lg + zeros(8 - lg.len() - rg.len()) + rg));
                        }
                        Some(out)
                    } else {
                        None
                    }
                },
                _ => None,
            }
        },
    }
}

/// The address field grammar: an IPv4 literal, or else an IPv6 literal.
pub open spec fn spec_parse_ip(s: Seq<u8>) -> Option<IpAddr> {
    match spec_parse_ipv4(s) {
        Some(ip) => Some(ip),
        None => spec_parse_ipv6(s),
    }
}

/// Parses an IP literal, trying the IPv4 form first.
pub fn parse_ip(s: &[u8]) -> (out: Option<IpAddr>)
    ensures
        out == spec_parse_ip(s@),
{
    match parse_ipv4(s) {
        Some(ip) => Some(ip),
        None => parse_ipv6(s),
    }
}

} // verus!
