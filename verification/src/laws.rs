//! Properties of the line grammar that hold for every input, stated and
//! proved over the spec functions the extractor's contract uses.

use vstd::prelude::*;

use crate::digits::{all_digits, dec_val, is_digit, spec_parse_dec};
use crate::ip::{spec_parse_ipv4, valid_octet, IpAddr};
use crate::parse::{spec_split_meta, spec_try_parse};
use crate::record::SpecRecord;
use crate::scan::{lemma_spec_find, marker_at, spec_find, spec_find_marker, window};

verus! {

/// The decimal numeral of `n`, most significant digit first.
pub open spec fn dec_digits_of(n: nat) -> Seq<u8>
    decreases n,
{
    if n < 10 {
        seq![(n + 48) as u8]
    } else {
        dec_digits_of(n / 10) + seq![(n % 10 + 48) as u8]
    }
}

/// Writing a value out in decimal and reading it back yields the value.
pub proof fn lemma_dec_round_trip(n: nat)
    ensures
        all_digits(dec_digits_of(n)),
        dec_digits_of(n).len() >= 1,
        dec_val(dec_digits_of(n)) == n,
    decreases n,
{
    if n < 10 {
        let s = dec_digits_of(n);
        assert(s.len() == 1);
        assert(s.drop_last().len() == 0);
        assert(dec_val(s.drop_last()) == 0);
    } else {
        lemma_dec_round_trip(n / 10);
        let d = dec_digits_of(n / 10);
        let s = dec_digits_of(n);
        assert(s.drop_last() =~= d);
        assert(s.last() == (n % 10 + 48) as u8);
        assert forall|i: int| 0 <= i < s.len() implies is_digit(s[i]) by {
            if i < d.len() {
                assert(s[i] == d[i]);
            }
        }
        vstd::arithmetic::div_mod::lemma_fundamental_div_mod(n as int, 10);
    }
}

/// A decimal field holding exactly the numeral of `n`, for `n` within the
/// field's bound, parses back to `n`: every numeric field round-trips.
pub proof fn lemma_dec_field_round_trip(n: nat, bound: nat)
    requires
        n <= bound,
    ensures
        spec_parse_dec(dec_digits_of(n), bound) == Some(n),
{
    lemma_dec_round_trip(n);
    assert(is_digit(dec_digits_of(n)[0]));
}

/// In a byte string made of digits, then a dot, then anything, the first
/// dot stands exactly after the digits.
pub proof fn lemma_first_dot(o: Seq<u8>, rest: Seq<u8>)
    requires
        all_digits(o),
    ensures
        spec_find(o + seq![46u8] + rest, 46u8) == Some(o.len() as int),
{
    let s = o + seq![46u8] + rest;
    lemma_spec_find(s, 46u8);
    assert(s[o.len() as int] == 46u8);
    match spec_find(s, 46u8) {
        Some(k) => {
            if k < o.len() {
                assert(s[k] == o[k]);
                assert(is_digit(o[k]));
                assert(false);
            } else if k > o.len() {
                assert(s[o.len() as int] != 46u8);
                assert(false);
            }
        },
        None => {
            assert(s[o.len() as int] != 46u8);
            assert(false);
        },
    }
}

/// A string of digits holds no dot.
pub proof fn lemma_no_dot_in_digits(o: Seq<u8>)
    requires
        all_digits(o),
    ensures
        spec_find(o, 46u8) is None,
{
    lemma_spec_find(o, 46u8);
    match spec_find(o, 46u8) {
        Some(k) => {
            assert(is_digit(o[k]));
            assert(false);
        },
        None => {},
    }
}

/// Every well-formed dotted-quad IPv4 literal parses, to exactly its four
/// octet values: the first-dot split of the address grammar is canonical.
pub proof fn lemma_ipv4_complete(o1: Seq<u8>, o2: Seq<u8>, o3: Seq<u8>, o4: Seq<u8>)
    requires
        valid_octet(o1),
        valid_octet(o2),
        valid_octet(o3),
        valid_octet(o4),
    ensures
        ({
            let s = o1 + seq![46u8] + o2 + seq![46u8] + o3 + seq![46u8] + o4;
            spec_parse_ipv4(s) == Some(
                IpAddr::V4(
                    dec_val(o1) as u8,
                    dec_val(o2) as u8,
                    dec_val(o3) as u8,
                    dec_val(o4) as u8,
                ),
            )
        }),
{
    let s = o1 + seq![46u8] + o2 + seq![46u8] + o3 + seq![46u8] + o4;
    let r1 = o2 + seq![46u8] + o3 + seq![46u8] + o4;
    let r2 = o3 + seq![46u8] + o4;
    assert(s =~= o1 + seq![46u8] + r1);
    assert(r1 =~= o2 + seq![46u8] + r2);
    lemma_first_dot(o1, r1);
    assert(s.subrange(0, o1.len() as int) =~= o1);
    assert(s.subrange(o1.len() as int + 1, s.len() as int) =~= r1);
    lemma_first_dot(o2, r2);
    assert(r1.subrange(0, o2.len() as int) =~= o2);
    assert(r1.subrange(o2.len() as int + 1, r1.len() as int) =~= r2);
    lemma_first_dot(o3, o4);
    assert(r2.subrange(0, o3.len() as int) =~= o3);
    assert(r2.subrange(o3.len() as int + 1, r2.len() as int) =~= o4);
    lemma_no_dot_in_digits(o4);
}

/// Any line shorter than 100 bytes fails to parse.
pub proof fn lemma_short_line_rejected(s: Seq<u8>)
    requires
        s.len() < 100,
    ensures
        spec_try_parse(s) is None,
{
}

/// A line in whose first 45 bytes the marker `"]: "` never occurs fails to
/// parse, whatever else it contains.
pub proof fn lemma_missing_marker_rejected(s: Seq<u8>)
    requires
        forall|i: int| !marker_at(window(s, 45), i),
    ensures
        spec_try_parse(s) is None,
{
    crate::scan::lemma_spec_find_marker(window(s, 45));
}

/// When a line parses and its server address field is the placeholder `-`,
/// the record holds the IPv4 loopback address.
pub proof fn lemma_address_placeholder_default(s: Seq<u8>, mi: int, r: SpecRecord)
    requires
        spec_try_parse(s) == Some(r),
        spec_find_marker(window(s, 45)) == Some(mi),
        ({
            let s1 = s.subrange(mi + 3, s.len() as int);
            s1.len() >= 1 && s1[0] == 45u8
        }),
    ensures
        r.server_ip == IpAddr::V4(127, 0, 0, 1),
{
}

/// When a line parses, its server address field is the placeholder `-`, and
/// the following port field is the placeholder too, the record holds port 0.
pub proof fn lemma_port_placeholder_default(s: Seq<u8>, mi: int, r: SpecRecord)
    requires
        spec_try_parse(s) == Some(r),
        spec_find_marker(window(s, 45)) == Some(mi),
        ({
            let s1 = s.subrange(mi + 3, s.len() as int);
            s1.len() >= 2 && s1[0] == 45u8 && ({
                let s2 = s1.subrange(2, s1.len() as int);
                s2.len() >= 1 && s2[0] == 45u8
            })
        }),
    ensures
        r.server_port == 0,
{
}

/// A trailing segment of at most three bytes means both referer and user
/// agent are absent, whatever the segment holds.
pub proof fn lemma_short_meta_absent(s: Seq<u8>)
    requires
        s.len() <= 3,
    ensures
        spec_split_meta(s) == Some((None::<Seq<u8>>, None::<Seq<u8>>)),
{
}

} // verus!
