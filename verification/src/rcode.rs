//! The DNS result-code enumeration and its numeric encoding.

use vstd::prelude::*;

verus! {

/// The four-bit result code of a DNS message header.
#[derive(Clone, Copy, PartialEq, Eq, Structural, Debug)]
pub enum DnsRCode {
    /// 0: No error
    NoError,
    /// 1: Format error - the nameserver could not interpret the query
    FormError,
    /// 2: Server failure - the nameserver could not process the query
    ServFail,
    /// 3: Name error - the domain does not exist
    NXDomain,
    /// 4: Not implemented - the requested operation is unsupported
    NotImp,
    /// 5: Refused - the nameserver refused for an unspecified reason
    Refused,
    /// 6: A name exists when it should not (RFC 2136)
    YXDomain,
    /// 7: An RRset exists when it should not (RFC 2136)
    YXRRSet,
    /// 8: An RRset that should exist does not (RFC 2136)
    NXRRSet,
    /// 9: The server is not authoritative for the zone (RFC 2136)
    NotAuth,
    /// 10: A name is not within the zone (RFC 2136)
    NotZone,
    /// 11: DSO-TYPE not implemented (RFC 8490); 12-15 are reserved
    DSOTypeNI,
}

/// The numeric wire value of a result code.
pub open spec fn rcode_num(rc: DnsRCode) -> u8 {
    match rc {
        DnsRCode::NoError => 0,
        DnsRCode::FormError => 1,
        DnsRCode::ServFail => 2,
        DnsRCode::NXDomain => 3,
        DnsRCode::NotImp => 4,
        DnsRCode::Refused => 5,
        DnsRCode::YXDomain => 6,
        DnsRCode::YXRRSet => 7,
        DnsRCode::NXRRSet => 8,
        DnsRCode::NotAuth => 9,
        DnsRCode::NotZone => 10,
        DnsRCode::DSOTypeNI => 11,
    }
}

/// The result code a numeric wire value stands for, if any.
pub open spec fn rcode_of_num(num: u8) -> Option<DnsRCode> {
    match num {
        0 => Some(DnsRCode::NoError),
        1 => Some(DnsRCode::FormError),
        2 => Some(DnsRCode::ServFail),
        3 => Some(DnsRCode::NXDomain),
        4 => Some(DnsRCode::NotImp),
        5 => Some(DnsRCode::Refused),
        6 => Some(DnsRCode::YXDomain),
        7 => Some(DnsRCode::YXRRSet),
        8 => Some(DnsRCode::NXRRSet),
        9 => Some(DnsRCode::NotAuth),
        10 => Some(DnsRCode::NotZone),
        11 => Some(DnsRCode::DSOTypeNI),
        _ => None,
    }
}

impl DnsRCode {
    /// Decode a numeric wire value, failing on reserved values.
    pub fn from_u8(num: u8) -> (r: Option<DnsRCode>)
        ensures
            r == rcode_of_num(num),
    {
        match num {
            0 => Some(DnsRCode::NoError),
            1 => Some(DnsRCode::FormError),
            2 => Some(DnsRCode::ServFail),
            3 => Some(DnsRCode::NXDomain),
            4 => Some(DnsRCode::NotImp),
            5 => Some(DnsRCode::Refused),
            6 => Some(DnsRCode::YXDomain),
            7 => Some(DnsRCode::YXRRSet),
            8 => Some(DnsRCode::NXRRSet),
            9 => Some(DnsRCode::NotAuth),
            10 => Some(DnsRCode::NotZone),
            11 => Some(DnsRCode::DSOTypeNI),
            _ => None,
        }
    }

    /// The numeric wire value of this result code.
    pub fn to_u8(&self) -> (r: u8)
        ensures
            r == rcode_num(*self),
    {
        match self {
            DnsRCode::NoError => 0,
            DnsRCode::FormError => 1,
            DnsRCode::ServFail => 2,
            DnsRCode::NXDomain => 3,
            DnsRCode::NotImp => 4,
            DnsRCode::Refused => 5,
            DnsRCode::YXDomain => 6,
            DnsRCode::YXRRSet => 7,
            DnsRCode::NXRRSet => 8,
            DnsRCode::NotAuth => 9,
            DnsRCode::NotZone => 10,
            DnsRCode::DSOTypeNI => 11,
        }
    }
}

/// Numeric encoding and decoding of result codes are inverses, and every
/// result code fits in the four-bit header field.
pub proof fn lemma_rcode_round_trip(rc: DnsRCode)
    ensures
        rcode_of_num(rcode_num(rc)) == Some(rc),
        rcode_num(rc) < 16,
{
}

} // verus!
