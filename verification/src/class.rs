//! The DNS class enumeration and its numeric encoding.

use vstd::prelude::*;

verus! {

/// The class field of a question or resource record.
///
/// RFC 6891 defines the OPT pseudo-record, which reinterprets the class
/// field as the requester's UDP payload size; `EdnsPayloadSize` carries that
/// reading.
#[derive(Clone, Copy, PartialEq, Eq, Structural, Debug)]
pub enum DnsClass {
    /// 1: INternet - essentially the only class in actual use
    IN,
    /// 2: CSnet - obsolete before the DNS standard was published
    CS,
    /// 3: CHaos
    CH,
    /// 4: HeSiod
    HS,
    /// 254: NONE - distinguishes nonexistent RRsets from empty ones (RFC 2136)
    NONE,
    /// 255: ANY - only valid in queries; asks for records of every class
    ANY,
    /// The class field of an OPT record, reinterpreted per RFC 6891
    EdnsPayloadSize(u16),
}

/// The class a numeric wire value stands for, if any.  `EdnsPayloadSize` is
/// never produced here; it arises only when a resource record's type is OPT.
pub open spec fn class_of_num(num: u16) -> Option<DnsClass> {
    match num {
        1 => Some(DnsClass::IN),
        2 => Some(DnsClass::CS),
        3 => Some(DnsClass::CH),
        4 => Some(DnsClass::HS),
        254 => Some(DnsClass::NONE),
        255 => Some(DnsClass::ANY),
        _ => None,
    }
}

/// The numeric wire value of a class.
pub open spec fn class_num(class: DnsClass) -> u16 {
    match class {
        DnsClass::IN => 1,
        DnsClass::CS => 2,
        DnsClass::CH => 3,
        DnsClass::HS => 4,
        DnsClass::NONE => 254,
        DnsClass::ANY => 255,
        DnsClass::EdnsPayloadSize(payload) => payload,
    }
}

impl DnsClass {
    /// Decode a numeric wire value, failing on unassigned values.
    pub fn from_u16(class: u16) -> (r: Option<DnsClass>)
        ensures
            r == class_of_num(class),
    {
        match class {
            1 => Some(DnsClass::IN),
            2 => Some(DnsClass::CS),
            3 => Some(DnsClass::CH),
            4 => Some(DnsClass::HS),
            254 => Some(DnsClass::NONE),
            255 => Some(DnsClass::ANY),
            _ => None,
        }
    }

    /// The numeric wire value of this class.  On an OPT record the "class"
    /// is the carried payload size.
    pub fn to_u16(&self) -> (r: u16)
        ensures
            r == class_num(*self),
    {
        match self {
            DnsClass::IN => 1,
            DnsClass::CS => 2,
            DnsClass::CH => 3,
            DnsClass::HS => 4,
            DnsClass::NONE => 254,
            DnsClass::ANY => 255,
            DnsClass::EdnsPayloadSize(payload) => *payload,
        }
    }
}

/// Numeric encoding and decoding of the symbolic classes are inverses.
pub proof fn lemma_class_round_trip(class: DnsClass)
    requires
        !(class is EdnsPayloadSize),
    ensures
        class_of_num(class_num(class)) == Some(class),
{
}

} // verus!
