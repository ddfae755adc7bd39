//! The packed 16-bit header flag word.

use vstd::prelude::*;

use crate::errors::DnsFormatError;
use crate::opcode::{opcode_num, opcode_of_num, DnsOpcode};
use crate::rcode::{rcode_num, rcode_of_num, DnsRCode};

verus! {

/// The unpacked header flag word.
///
/// The Z field (byte 1, bit 6) is reserved and must be zero on the wire, so
/// it is not stored; decoding rejects a set Z bit.
#[derive(Clone, Copy, PartialEq, Eq, Structural, Debug)]
pub struct DnsFlags {
    /// Query/Response: true if this is a response, false if it is a query
    pub qr_bit: bool,
    /// A four-bit field indicating the DNS operation being performed
    pub opcode: DnsOpcode,
    /// Authoritative Answer: true on a response from the authority
    pub aa_bit: bool,
    /// TrunCation: true if the message was truncated for being too long
    pub tc_bit: bool,
    /// Recursion Desired: true if the query asks for recursive resolution
    pub rd_bit: bool,
    /// Recursion Available: true on a response from a recursive server
    pub ra_bit: bool,
    /// Authenticated Data (DNSSEC, RFC 4035)
    pub ad_bit: bool,
    /// Checking Disabled (DNSSEC, RFC 4035)
    pub cd_bit: bool,
    /// A four-bit field indicating the status of a response
    pub rcode: DnsRCode,
}

/// The first flag byte: QR at bit 7, opcode at bits 3..=6, AA, TC, RD at
/// bits 2, 1, 0.
pub open spec fn flags_byte0(flags: DnsFlags) -> u8 {
    (if flags.qr_bit {
        0x80u8
    } else {
        0u8
    }) | (opcode_num(flags.opcode) << 3) | (if flags.aa_bit {
        4u8
    } else {
        0u8
    }) | (if flags.tc_bit {
        2u8
    } else {
        0u8
    }) | (if flags.rd_bit {
        1u8
    } else {
        0u8
    })
}

/// The second flag byte: RA at bit 7, Z (always zero) at bit 6, AD, CD at
/// bits 5, 4, rcode at bits 0..=3.
pub open spec fn flags_byte1(flags: DnsFlags) -> u8 {
    (if flags.ra_bit {
        0x80u8
    } else {
        0u8
    }) | (if flags.ad_bit {
        0x20u8
    } else {
        0u8
    }) | (if flags.cd_bit {
        0x10u8
    } else {
        0u8
    }) | rcode_num(flags.rcode)
}

/// The two-byte encoding of the flag word.
pub open spec fn spec_flags_bytes(flags: DnsFlags) -> Seq<u8> {
    seq![flags_byte0(flags), flags_byte1(flags)]
}

/// Decode two flag bytes.  Fails when the reserved Z bit is set or when the
/// opcode or rcode field holds an unassigned value.
pub open spec fn parse_flags(b0: u8, b1: u8) -> Option<DnsFlags> {
    if (b1 >> 6) & 1 == 1 {
        None
    } else {
        match (opcode_of_num((b0 >> 3) & 0xf), rcode_of_num(b1 & 0xf)) {
            (Some(opcode), Some(rcode)) => Some(
                DnsFlags {
                    qr_bit: (b0 >> 7) & 1 == 1,
                    opcode,
                    aa_bit: (b0 >> 2) & 1 == 1,
                    tc_bit: (b0 >> 1) & 1 == 1,
                    rd_bit: b0 & 1 == 1,
                    ra_bit: (b1 >> 7) & 1 == 1,
                    ad_bit: (b1 >> 5) & 1 == 1,
                    cd_bit: (b1 >> 4) & 1 == 1,
                    rcode,
                },
            ),
            _ => None,
        }
    }
}

impl DnsFlags {
    /// Unpack the first two bytes of the slice as the header flag word.
    pub fn from_bytes(bytes: &[u8]) -> (r: Result<DnsFlags, DnsFormatError>)
        requires
            bytes@.len() >= 2,
        ensures
            match parse_flags(bytes@[0], bytes@[1]) {
                Some(flags) => r matches Ok(f) && f == flags,
                None => r matches Err(e) && e.spec_partial() is None,
            },
            (bytes@[1] >> 6) & 1 == 1 ==> r is Err,
    {
        let b0 = bytes[0];
        let b1 = bytes[1];
        if (b1 >> 6) & 1 == 1 {
            return Err(DnsFormatError::make_error(String::from_str("Z bit was set")));
        }
        let opcode = match DnsOpcode::from_u8((b0 >> 3) & 0xf) {
            Some(x) => x,
            None => {
                return Err(DnsFormatError::make_error(String::from_str("Invalid opcode value")));
            },
        };
        let rcode = match DnsRCode::from_u8(b1 & 0xf) {
            Some(x) => x,
            None => {
                return Err(DnsFormatError::make_error(String::from_str("Invalid rcode value")));
            },
        };
        Ok(
            DnsFlags {
                qr_bit: (b0 >> 7) & 1 == 1,
                opcode,
                aa_bit: (b0 >> 2) & 1 == 1,
                tc_bit: (b0 >> 1) & 1 == 1,
                rd_bit: b0 & 1 == 1,
                ra_bit: (b1 >> 7) & 1 == 1,
                ad_bit: (b1 >> 5) & 1 == 1,
                cd_bit: (b1 >> 4) & 1 == 1,
                rcode,
            },
        )
    }

    /// Pack the flag word into its two wire bytes, leaving Z zero.
    pub fn to_bytes(&self) -> (r: [u8; 2])
        ensures
            r@ == spec_flags_bytes(*self),
    {
        let qr: u8 = if self.qr_bit {
            0x80
        } else {
            0
        };
        let aa: u8 = if self.aa_bit {
            4
        } else {
            0
        };
        let tc: u8 = if self.tc_bit {
            2
        } else {
            0
        };
        let rd: u8 = if self.rd_bit {
            1
        } else {
            0
        };
        let ra: u8 = if self.ra_bit {
            0x80
        } else {
            0
        };
        let ad: u8 = if self.ad_bit {
            0x20
        } else {
            0
        };
        let cd: u8 = if self.cd_bit {
            0x10
        } else {
            0
        };
        let byte0 = qr | (self.opcode.to_u8() << 3) | aa | tc | rd;
        let byte1 = ra | ad | cd | self.rcode.to_u8();
        let r = [byte0, byte1];
        proof {
            assert(r@ =~= spec_flags_bytes(*self));
        }
        r
    }
}

/// Unpacking the two bytes packed from a flag word yields the word back:
/// encoding sets only defined bits and the Z bit stays clear.
pub proof fn lemma_flags_round_trip(flags: DnsFlags)
    ensures
        parse_flags(flags_byte0(flags), flags_byte1(flags)) == Some(flags),
{
    let q: u8 = if flags.qr_bit {
        1
    } else {
        0
    };
    let a: u8 = if flags.aa_bit {
        1
    } else {
        0
    };
    let t: u8 = if flags.tc_bit {
        1
    } else {
        0
    };
    let d: u8 = if flags.rd_bit {
        1
    } else {
        0
    };
    let r: u8 = if flags.ra_bit {
        1
    } else {
        0
    };
    let s: u8 = if flags.ad_bit {
        1
    } else {
        0
    };
    let c: u8 = if flags.cd_bit {
        1
    } else {
        0
    };
    let op: u8 = opcode_num(flags.opcode);
    let rc: u8 = rcode_num(flags.rcode);
    let b0: u8 = flags_byte0(flags);
    let b1: u8 = flags_byte1(flags);
    assert(b0 == (q << 7) | (op << 3) | (a << 2) | (t << 1) | d) by (bit_vector)
        requires
            q <= 1 && a <= 1 && t <= 1 && d <= 1,
            b0 == (if q == 1 {
                0x80u8
            } else {
                0u8
            }) | (op << 3) | (if a == 1 {
                4u8
            } else {
                0u8
            }) | (if t == 1 {
                2u8
            } else {
                0u8
            }) | (if d == 1 {
                1u8
            } else {
                0u8
            }),
    ;
    assert((b0 >> 7) & 1 == q && (b0 >> 3) & 0xf == op && (b0 >> 2) & 1 == a && (b0 >> 1) & 1 == t
        && b0 & 1 == d) by (bit_vector)
        requires
            b0 == (q << 7) | (op << 3) | (a << 2) | (t << 1) | d,
            q <= 1 && a <= 1 && t <= 1 && d <= 1 && op <= 15,
    ;
    assert(b1 == (r << 7) | (s << 5) | (c << 4) | rc) by (bit_vector)
        requires
            r <= 1 && s <= 1 && c <= 1,
            b1 == (if r == 1 {
                0x80u8
            } else {
                0u8
            }) | (if s == 1 {
                0x20u8
            } else {
                0u8
            }) | (if c == 1 {
                0x10u8
            } else {
                0u8
            }) | rc,
    ;
    assert((b1 >> 7) & 1 == r && (b1 >> 6) & 1 == 0 && (b1 >> 5) & 1 == s && (b1 >> 4) & 1 == c
        && b1 & 0xf == rc) by (bit_vector)
        requires
            b1 == (r << 7) | (s << 5) | (c << 4) | rc,
            r <= 1 && s <= 1 && c <= 1 && rc <= 15,
    ;
    crate::opcode::lemma_opcode_round_trip(flags.opcode);
    crate::rcode::lemma_rcode_round_trip(flags.rcode);
}

} // verus!
