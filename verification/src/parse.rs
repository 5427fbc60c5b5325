//! The sequential field extractor.
//!
//! [`LogMessage::try_parse`] walks one log line left to right. Each field is
//! scanned inside a capped window, validated, and sliced out of the input
//! buffer without copying; any violation collapses to `None`. The grammar is
//! stated field by field by the `spec_take_*` functions and composed by
//! [`spec_try_parse`], and the extractor returns exactly what the grammar
//! denotes.

use vstd::prelude::*;

use crate::date::{spec_parse_date, DateTime};
use crate::digits::spec_parse_dec;
use crate::ip::{spec_parse_ip, IpAddr};
use crate::record::{LogMessage, SpecRecord};
use crate::scan::{
    lemma_spec_find, lemma_spec_find_marker, spec_find, spec_find_marker, window,
};

verus! {

/// One space-terminated field, searched for inside the first `max` bytes:
/// the field's bytes and the remainder past the terminator.
pub open spec fn spec_take_token(s: Seq<u8>, max: int) -> Option<(Seq<u8>, Seq<u8>)> {
    match spec_find(window(s, max), 32u8) {
        Some(i) => Some((s.subrange(0, i), s.subrange(i + 1, s.len() as int))),
        None => None,
    }
}

/// A space-terminated unsigned decimal field no greater than `bound`.
pub open spec fn spec_take_num(s: Seq<u8>, max: int, bound: nat) -> Option<(nat, Seq<u8>)> {
    match spec_take_token(s, max) {
        Some(t) => match spec_parse_dec(t.0, bound) {
            Some(v) => Some((v, t.1)),
            None => None,
        },
        None => None,
    }
}

/// The server address field: the placeholder `"- "` denotes the IPv4
/// loopback address, otherwise a space-terminated IP literal found within a
/// 45-byte window.
pub open spec fn spec_take_ip_or_default(s: Seq<u8>) -> Option<(IpAddr, Seq<u8>)> {
    let w = window(s, 45);
    if w.len() >= 1 && w[0] == 45u8 {
        if s.len() >= 2 {
            Some((IpAddr::V4(127, 0, 0, 1), s.subrange(2, s.len() as int)))
        } else {
            None
        }
    } else {
        match spec_take_token(s, 45) {
            Some(t) => match spec_parse_ip(t.0) {
                Some(ip) => Some((ip, t.1)),
                None => None,
            },
            None => None,
        }
    }
}

/// The server port field: the placeholder `"- "` denotes port 0, otherwise
/// a space-terminated 16-bit decimal found within a 5-byte window.
pub open spec fn spec_take_port(s: Seq<u8>) -> Option<(u16, Seq<u8>)> {
    let w = window(s, 5);
    if w.len() >= 1 && w[0] == 45u8 {
        if s.len() >= 2 {
            Some((0u16, s.subrange(2, s.len() as int)))
        } else {
            None
        }
    } else {
        match spec_take_num(s, 5, 65535) {
            Some(t) => Some((t.0 as u16, t.1)),
            None => None,
        }
    }
}

/// The client address field: a mandatory space-terminated IP literal found
/// within a 45-byte window.
pub open spec fn spec_take_ip(s: Seq<u8>) -> Option<(IpAddr, Seq<u8>)> {
    match spec_take_token(s, 45) {
        Some(t) => match spec_parse_ip(t.0) {
            Some(ip) => Some((ip, t.1)),
            None => None,
        },
        None => None,
    }
}

/// The timestamp field: a space-terminated, bracket-delimited date-time
/// literal found within a 30-byte window, at least 8 bytes long, whose
/// interior must decode structurally and pass calendar validation.
pub open spec fn spec_take_date(s: Seq<u8>) -> Option<(DateTime, Seq<u8>)> {
    match spec_take_token(s, 30) {
        Some(t) => {
            let raw = t.0;
            if raw.len() < 8 {
                None
            } else {
                match spec_parse_date(raw.subrange(1, raw.len() - 1)) {
                    Some(p) => {
                        let dt = DateTime {
                            year: p[2],
                            month: p[1],
                            day: p[0],
                            hour: p[3],
                            minute: p[4],
                            second: p[5],
                            millisecond: p[6],
                        };
                        if dt.wf() {
                            Some((dt, t.1))
                        } else {
                            None
                        }
                    },
                    None => None,
                }
            }
        },
        None => None,
    }
}

/// The path field with its optional query string: inside a 300-byte window,
/// a `?` before the terminating space splits the path from a query that is
/// skipped up to a space of its own within a 400-byte window; otherwise the
/// whole space-terminated slice is the path.
pub open spec fn spec_take_path(s: Seq<u8>) -> Option<(Seq<u8>, Seq<u8>)> {
    let w = window(s, 300);
    let query_first = match (spec_find(w, 63u8), spec_find(w, 32u8)) {
        (Some(q), Some(i)) => q < i,
        (Some(_), None) => true,
        _ => false,
    };
    if query_first {
        match spec_find(w, 63u8) {
            Some(q) => {
                let path = s.subrange(0, q);
                let after = s.subrange(q + 1, s.len() as int);
                match spec_find(window(after, 400), 32u8) {
                    Some(k) => Some((path, after.subrange(k + 1, after.len() as int))),
                    None => None,
                }
            },
            None => None,
        }
    } else {
        match spec_find(w, 32u8) {
            Some(i) => Some((s.subrange(0, i), s.subrange(i + 1, s.len() as int))),
            None => None,
        }
    }
}

/// The trailing referer / user-agent segment: a remainder of more than three
/// bytes loses its first byte and last two bytes, splits at the first `|`,
/// and each side is present only when non-empty; a remainder of at most
/// three bytes means both are absent.
pub open spec fn spec_split_meta(s: Seq<u8>) -> Option<(Option<Seq<u8>>, Option<Seq<u8>>)> {
    if s.len() > 3 {
        let inner = s.subrange(1, s.len() - 2);
        match spec_find(inner, 124u8) {
            Some(i) => {
                let l = inner.subrange(0, i);
                let r = inner.subrange(i + 1, inner.len() as int);
                Some(
                    (
                        if l.len() > 0 {
                            Some(l)
                        } else {
                            None
                        },
                        if r.len() > 0 {
                            Some(r)
                        } else {
                            None
                        },
                    ),
                )
            },
            None => None,
        }
    } else {
        Some((None, None))
    }
}

/// The line grammar: a line of at least 100 bytes whose preamble ends at the
/// first `"]: "` marker within 45 bytes, followed by server address, server
/// port, client address, timestamp, method, path, version, status code and
/// response length fields, and the trailing referer / user-agent segment.
pub open spec fn spec_try_parse(s: Seq<u8>) -> Option<SpecRecord> {
    if s.len() < 100 {
        None
    } else {
        match spec_find_marker(window(s, 45)) {
            None => None,
            Some(mi) => {
                let s1 = s.subrange(mi + 3, s.len() as int);
                match spec_take_ip_or_default(s1) {
                    Some((server_ip, s2)) => match spec_take_port(s2) {
                        Some((server_port, s3)) => match spec_take_ip(s3) {
                            Some((user_ip, s4)) => match spec_take_date(s4) {
                                Some((date_time, s5)) => match spec_take_token(s5, 7) {
                                    Some((http_method, s6)) => match spec_take_path(s6) {
                                        Some((path, s7)) => match spec_take_token(s7, 9) {
                                            Some((version, s8)) => match spec_take_num(
                                                s8,
                                                4,
                                                65535,
                                            ) {
                                                Some((status, s9)) => match spec_take_num(
                                                    s9,
                                                    10,
                                                    0xffff_ffff,
                                                ) {
                                                    Some((length, s10)) => match spec_split_meta(
                                                        s10,
                                                    ) {
                                                        Some((referer, user_agent)) => Some(
                                                            SpecRecord {
                                                                server_ip,
                                                                server_port: server_port,
                                                                user_ip,
                                                                date_time,
                                                                http_method,
                                                                path,
                                                                version,
                                                                status_code: status as u16,
                                                                response_length: length as u32,
                                                                referer,
                                                                user_agent,
                                                            },
                                                        ),
                                                        None => None,
                                                    },
                                                    None => None,
                                                },
                                                None => None,
                                            },
                                            None => None,
                                        },
                                        None => None,
                                    },
                                    None => None,
                                },
                                None => None,
                            },
                            None => None,
                        },
                        None => None,
                    },
                    None => None,
                }
            },
        }
    }
}

/// Finds one space-terminated field within the first `max` bytes.
fn take_token<'a>(s: &'a [u8], max: usize) -> (out: Option<(&'a [u8], &'a [u8])>)
    ensures
        match out {
            Some(t) => spec_take_token(s@, max as int) == Some((t.0@, t.1@)),
            None => spec_take_token(s@, max as int) is None,
        },
{
    let w = crate::scan::split_max(s, max);
    match crate::scan::find_byte(w, 32u8) {
        Some(i) => {
            proof {
                lemma_spec_find(w@, 32u8);
            }
            let n = s.len();
            let tok = vstd::slice::slice_subrange(s, 0, i);
            let rest = vstd::slice::slice_subrange(s, i + 1, n);
            Some((tok, rest))
        },
        None => None,
    }
}

/// Extracts the server address field or its placeholder.
fn take_ip_or_default<'a>(s: &'a [u8]) -> (out: Option<(IpAddr, &'a [u8])>)
    ensures
        match out {
            Some(t) => spec_take_ip_or_default(s@) == Some((t.0, t.1@)),
            None => spec_take_ip_or_default(s@) is None,
        },
{
    if s.len() >= 1 && s[0] == 45u8 {
        if s.len() >= 2 {
            let n = s.len();
            let rest = vstd::slice::slice_subrange(s, 2, n);
            Some((IpAddr::V4(127, 0, 0, 1), rest))
        } else {
            None
        }
    } else {
        match take_token(s, 45) {
            Some((tok, rest)) => match crate::ip::parse_ip(tok) {
                Some(ip) => Some((ip, rest)),
                None => None,
            },
            None => None,
        }
    }
}

/// Extracts the server port field or its placeholder.
fn take_port<'a>(s: &'a [u8]) -> (out: Option<(u16, &'a [u8])>)
    ensures
        match out {
            Some(t) => spec_take_port(s@) == Some((t.0, t.1@)),
            None => spec_take_port(s@) is None,
        },
{
    if s.len() >= 1 && s[0] == 45u8 {
        if s.len() >= 2 {
            let n = s.len();
            let rest = vstd::slice::slice_subrange(s, 2, n);
            Some((0u16, rest))
        } else {
            None
        }
    } else {
        match take_token(s, 5) {
            Some((tok, rest)) => match crate::digits::parse_u16(tok) {
                Some(v) => Some((v, rest)),
                None => None,
            },
            None => None,
        }
    }
}

/// Extracts the mandatory client address field.
fn take_ip<'a>(s: &'a [u8]) -> (out: Option<(IpAddr, &'a [u8])>)
    ensures
        match out {
            Some(t) => spec_take_ip(s@) == Some((t.0, t.1@)),
            None => spec_take_ip(s@) is None,
        },
{
    match take_token(s, 45) {
        Some((tok, rest)) => match crate::ip::parse_ip(tok) {
            Some(ip) => Some((ip, rest)),
            None => None,
        },
        None => None,
    }
}

/// Extracts and validates the timestamp field.
fn take_date<'a>(s: &'a [u8]) -> (out: Option<(DateTime, &'a [u8])>)
    ensures
        match out {
            Some(t) => spec_take_date(s@) == Some((t.0, t.1@)) && t.0.wf(),
            None => spec_take_date(s@) is None,
        },
{
    match take_token(s, 30) {
        Some((raw, rest)) => {
            if raw.len() < 8 {
                return None;
            }
            let rl = raw.len();
            let interior = vstd::slice::slice_subrange(raw, 1, rl - 1);
            match crate::date::parse_date_split(interior) {
                Some(p) => {
                    match DateTime::new(p[2], p[1], p[0], p[3], p[4], p[5], p[6]) {
                        Some(dt) => Some((dt, rest)),
                        None => None,
                    }
                },
                None => None,
            }
        },
        None => None,
    }
}

/// Extracts the path field and skips its optional query string.
fn take_path<'a>(s: &'a [u8]) -> (out: Option<(&'a [u8], &'a [u8])>)
    ensures
        match out {
            Some(t) => spec_take_path(s@) == Some((t.0@, t.1@)),
            None => spec_take_path(s@) is None,
        },
{
    let w = crate::scan::split_max(s, 300);
    let qi = crate::scan::find_byte(w, 63u8);
    let si = crate::scan::find_byte(w, 32u8);
    let query_first: bool = match (qi, si) {
        (Some(q), Some(i)) => q < i,
        (Some(_), None) => true,
        _ => false,
    };
    if query_first {
        let q = match qi {
            Some(q) => q,
            None => {
                return None;
            },
        };
        proof {
            lemma_spec_find(w@, 63u8);
        }
        let n = s.len();
        let path = vstd::slice::slice_subrange(s, 0, q);
        let after = vstd::slice::slice_subrange(s, q + 1, n);
        let wq = crate::scan::split_max(after, 400);
        match crate::scan::find_byte(wq, 32u8) {
            Some(k) => {
                proof {
                    lemma_spec_find(wq@, 32u8);
                }
                let an = after.len();
                let rest = vstd::slice::slice_subrange(after, k + 1, an);
                Some((path, rest))
            },
            None => None,
        }
    } else {
        match si {
            Some(i) => {
                proof {
                    lemma_spec_find(w@, 32u8);
                }
                let n = s.len();
                let path = vstd::slice::slice_subrange(s, 0, i);
                let rest = vstd::slice::slice_subrange(s, i + 1, n);
                Some((path, rest))
            },
            None => None,
        }
    }
}

/// Splits the trailing segment into referer and user agent.
fn split_meta<'a>(s: &'a [u8]) -> (out: Option<(Option<&'a [u8]>, Option<&'a [u8]>)>)
    ensures
        match out {
            Some(p) => spec_split_meta(s@) == Some(
                (
                    match p.0 {
                        Some(l) => Some(l@),
                        None => None,
                    },
                    match p.1 {
                        Some(r) => Some(r@),
                        None => None,
                    },
                ),
            ),
            None => spec_split_meta(s@) is None,
        },
{
    if s.len() > 3 {
        let n = s.len();
        let inner = vstd::slice::slice_subrange(s, 1, n - 2);
        match crate::scan::find_byte(inner, 124u8) {
            Some(i) => {
                proof {
                    lemma_spec_find(inner@, 124u8);
                }
                let m = inner.len();
                let l = vstd::slice::slice_subrange(inner, 0, i);
                let r = vstd::slice::slice_subrange(inner, i + 1, m);
                let referer: Option<&[u8]> = if l.len() > 0 {
                    Some(l)
                } else {
                    None
                };
                let user_agent: Option<&[u8]> = if r.len() > 0 {
                    Some(r)
                } else {
                    None
                };
                Some((referer, user_agent))
            },
            None => None,
        }
    } else {
        Some((None, None))
    }
}

impl<'a> LogMessage<'a> {
    /// Parses one log line, returning the borrowed record exactly when the
    /// line matches the grammar [`spec_try_parse`] states, with exactly the
    /// field values that grammar denotes.
    pub fn try_parse(source: &'a [u8]) -> (out: Option<LogMessage<'a>>)
        ensures
            match out {
                Some(r) => spec_try_parse(source@) == Some(r@) && r.date_time.wf(),
                None => spec_try_parse(source@) is None,
            },
            source@.len() < 100 ==> out is None,
    {
        if source.len() < 100 {
            return None;
        }
        let w = crate::scan::split_max(source, 45);
        let mi = match crate::scan::find_marker(w) {
            Some(i) => i,
            None => {
                return None;
            },
        };
        proof {
            lemma_spec_find_marker(w@);
        }
        let n = source.len();
        let s1 = vstd::slice::slice_subrange(source, mi + 3, n);
        let (server_ip, s2) = match take_ip_or_default(s1) {
            Some(t) => t,
            None => {
                return None;
            },
        };
        let (server_port, s3) = match take_port(s2) {
            Some(t) => t,
            None => {
                return None;
            },
        };
        let (user_ip, s4) = match take_ip(s3) {
            Some(t) => t,
            None => {
                return None;
            },
        };
        let (date_time, s5) = match take_date(s4) {
            Some(t) => t,
            None => {
                return None;
            },
        };
        let (http_method, s6) = match take_token(s5, 7) {
            Some(t) => t,
            None => {
                return None;
            },
        };
        let (path, s7) = match take_path(s6) {
            Some(t) => t,
            None => {
                return None;
            },
        };
        let (version, s8) = match take_token(s7, 9) {
            Some(t) => t,
            None => {
                return None;
            },
        };
        let (status_code, s9) = match take_status(s8) {
            Some(t) => t,
            None => {
                return None;
            },
        };
        let (response_length, s10) = match take_length(s9) {
            Some(t) => t,
            None => {
                return None;
            },
        };
        let (referer, user_agent) = match split_meta(s10) {
            Some(p) => p,
            None => {
                return None;
            },
        };
        let out = LogMessage {
            server_ip,
            server_port,
            user_ip,
            date_time,
            http_method,
            path,
            version,
            status_code,
            response_length,
            referer,
            user_agent,
        };
        proof {
            assert(spec_try_parse(source@) == Some(out@));
        }
        Some(out)
    }
}

/// Extracts the status code field: a 16-bit decimal within a 4-byte window.
fn take_status<'a>(s: &'a [u8]) -> (out: Option<(u16, &'a [u8])>)
    ensures
        match out {
            Some(t) => spec_take_num(s@, 4, 65535) == Some((t.0 as nat, t.1@)),
            None => spec_take_num(s@, 4, 65535) is None,
        },
{
    match take_token(s, 4) {
        Some((tok, rest)) => match crate::digits::parse_u16(tok) {
            Some(v) => Some((v, rest)),
            None => None,
        },
        None => None,
    }
}

/// Extracts the response length field: a 32-bit decimal within a 10-byte
/// window.
fn take_length<'a>(s: &'a [u8]) -> (out: Option<(u32, &'a [u8])>)
    ensures
        match out {
            Some(t) => spec_take_num(s@, 10, 0xffff_ffff) == Some((t.0 as nat, t.1@)),
            None => spec_take_num(s@, 10, 0xffff_ffff) is None,
        },
{
    match take_token(s, 10) {
        Some((tok, rest)) => match crate::digits::parse_u32(tok) {
            Some(v) => Some((v, rest)),
            None => None,
        },
        None => None,
    }
}

} // verus!
