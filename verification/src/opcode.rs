//! The DNS operation-code enumeration and its numeric encoding.

use vstd::prelude::*;

verus! {

/// The four-bit operation code of a DNS message header.
#[derive(Clone, Copy, PartialEq, Eq, Structural, Debug)]
pub enum DnsOpcode {
    /// Opcode 0: standard query
    Query,
    /// Opcode 1: inverse query (obsoleted by RFC 3425)
    IQuery,
    /// Opcode 2: server status request
    Status,
    /// Opcode 4: notify of zone change (RFC 1996); 3 is reserved
    Zone,
    /// Opcode 5: dynamic update to DNS records (RFC 2136)
    Update,
    /// Opcode 6: DNS stateful operations (RFC 8490); 7-15 are reserved
    DSO,
}

/// The numeric wire value of an opcode.
pub open spec fn opcode_num(op: DnsOpcode) -> u8 {
    match op {
        DnsOpcode::Query => 0,
        DnsOpcode::IQuery => 1,
        DnsOpcode::Status => 2,
        DnsOpcode::Zone => 4,
        DnsOpcode::Update => 5,
        DnsOpcode::DSO => 6,
    }
}

/// The opcode a numeric wire value stands for, if any.
pub open spec fn opcode_of_num(num: u8) -> Option<DnsOpcode> {
    match num {
        0 => Some(DnsOpcode::Query),
        1 => Some(DnsOpcode::IQuery),
        2 => Some(DnsOpcode::Status),
        4 => Some(DnsOpcode::Zone),
        5 => Some(DnsOpcode::Update),
        6 => Some(DnsOpcode::DSO),
        _ => None,
    }
}

impl DnsOpcode {
    /// Decode a numeric wire value, failing on reserved values.
    pub fn from_u8(num: u8) -> (r: Option<DnsOpcode>)
        ensures
            r == opcode_of_num(num),
    {
        match num {
            0 => Some(DnsOpcode::Query),
            1 => Some(DnsOpcode::IQuery),
            2 => Some(DnsOpcode::Status),
            4 => Some(DnsOpcode::Zone),
            5 => Some(DnsOpcode::Update),
            6 => Some(DnsOpcode::DSO),
            _ => None,
        }
    }

    /// The numeric wire value of this opcode.
    pub fn to_u8(&self) -> (r: u8)
        ensures
            r == opcode_num(*self),
    {
        match self {
            DnsOpcode::Query => 0,
            DnsOpcode::IQuery => 1,
            DnsOpcode::Status => 2,
            DnsOpcode::Zone => 4,
            DnsOpcode::Update => 5,
            DnsOpcode::DSO => 6,
        }
    }
}

/// Numeric encoding and decoding of opcodes are inverses, and every opcode
/// fits in the four-bit header field.
pub proof fn lemma_opcode_round_trip(op: DnsOpcode)
    ensures
        opcode_of_num(opcode_num(op)) == Some(op),
        opcode_num(op) < 16,
{
}

} // verus!
