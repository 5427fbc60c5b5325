//! The two record representations: a zero-copy borrowed view whose text
//! fields are slices of the input buffer, and an owned copy that can outlive
//! the buffer. Both are abstracted by the same mathematical record.

use vstd::prelude::*;

use crate::date::DateTime;
use crate::ip::IpAddr;

verus! {

/// The mathematical record a parsed line denotes: the text fields as byte
/// sequences, the scalar fields as values.
#[verifier::ext_equal]
pub ghost struct SpecRecord {
    pub server_ip: IpAddr,
    pub server_port: u16,
    pub user_ip: IpAddr,
    pub date_time: DateTime,
    pub http_method: Seq<u8>,
    pub path: Seq<u8>,
    pub version: Seq<u8>,
    pub status_code: u16,
    pub response_length: u32,
    pub referer: Option<Seq<u8>>,
    pub user_agent: Option<Seq<u8>>,
}

/// A parsed log line whose text fields borrow from the input buffer. Valid
/// only while that buffer lives; [`LogMessage::to_owned`] makes a copy free
/// of the borrow.
#[derive(Clone, Copy, Debug)]
pub struct LogMessage<'a> {
    pub server_ip: IpAddr,
    pub server_port: u16,
    pub user_ip: IpAddr,
    pub date_time: DateTime,
    pub http_method: &'a [u8],
    pub path: &'a [u8],
    pub version: &'a [u8],
    pub status_code: u16,
    pub response_length: u32,
    pub referer: Option<&'a [u8]>,
    pub user_agent: Option<&'a [u8]>,
}

/// A parsed log line that owns every text field.
#[derive(Clone, Debug)]
pub struct OwnedLogMessage {
    pub server_ip: IpAddr,
    pub server_port: u16,
    pub user_ip: IpAddr,
    pub date_time: DateTime,
    pub http_method: Vec<u8>,
    pub path: Vec<u8>,
    pub version: Vec<u8>,
    pub status_code: u16,
    pub response_length: u32,
    pub referer: Option<Vec<u8>>,
    pub user_agent: Option<Vec<u8>>,
}

impl<'a> View for LogMessage<'a> {
    type V = SpecRecord;

    open spec fn view(&self) -> SpecRecord {
        SpecRecord {
            server_ip: self.server_ip,
            server_port: self.server_port,
            user_ip: self.user_ip,
            date_time: self.date_time,
            http_method: self.http_method@,
            path: self.path@,
            version: self.version@,
            status_code: self.status_code,
            response_length: self.response_length,
            referer: match self.referer {
                Some(r) => Some(r@),
                None => None,
            },
            user_agent: match self.user_agent {
                Some(u) => Some(u@),
                None => None,
            },
        }
    }
}

impl View for OwnedLogMessage {
    type V = SpecRecord;

    open spec fn view(&self) -> SpecRecord {
        SpecRecord {
            server_ip: self.server_ip,
            server_port: self.server_port,
            user_ip: self.user_ip,
            date_time: self.date_time,
            http_method: self.http_method@,
            path: self.path@,
            version: self.version@,
            status_code: self.status_code,
            response_length: self.response_length,
            referer: match self.referer {
                Some(r) => Some(r@),
                None => None,
            },
            user_agent: match self.user_agent {
                Some(u) => Some(u@),
                None => None,
            },
        }
    }
}

impl<'a> LogMessage<'a> {
    /// Copies every text field so the record no longer borrows from the
    /// input buffer. Every field of the copy denotes the same value.
    pub fn to_owned(&self) -> (out: OwnedLogMessage)
        ensures
            out@ == self@,
    {
        let out = OwnedLogMessage {
            server_ip: self.server_ip,
            server_port: self.server_port,
            user_ip: self.user_ip,
            date_time: self.date_time,
            http_method: vstd::slice::slice_to_vec(self.http_method),
            path: vstd::slice::slice_to_vec(self.path),
            version: vstd::slice::slice_to_vec(self.version),
            status_code: self.status_code,
            response_length: self.response_length,
            referer: match self.referer {
                Some(r) => Some(vstd::slice::slice_to_vec(r)),
                None => None,
            },
            user_agent: match self.user_agent {
                Some(u) => Some(vstd::slice::slice_to_vec(u)),
                None => None,
            },
        };
        proof {
            assert(out@ =~= self@);
        }
        out
    }
}

} // verus!
