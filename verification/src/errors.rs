//! The structured parse error, carrying the partial packet used to build
//! FormErr replies.

use vstd::prelude::*;

use crate::flags::DnsFlags;
use crate::packet::{DnsPacket, PacketModel};
use crate::rcode::DnsRCode;

verus! {

/// A wire-format error.
///
/// Besides a human-readable message, the error can carry a partial packet:
/// whatever header fields were decoded before the failure.  The server layer
/// uses the partial to synthesize a FormErr reply; without one the datagram
/// is dropped silently.
#[derive(Debug)]
pub struct DnsFormatError {
    message: String,
    partial: Option<DnsPacket>,
}

/// The FormErr reply built from a partial packet: QR set, AA, TC, RA and AD
/// cleared, rcode FormError, the client's id, opcode, RD and CD preserved,
/// and all four sections empty.
pub open spec fn formerr_response(partial: PacketModel) -> PacketModel {
    PacketModel {
        id: partial.id,
        flags: DnsFlags {
            qr_bit: true,
            opcode: partial.flags.opcode,
            aa_bit: false,
            tc_bit: false,
            rd_bit: partial.flags.rd_bit,
            ra_bit: false,
            ad_bit: false,
            cd_bit: partial.flags.cd_bit,
            rcode: DnsRCode::FormError,
        },
        questions: Seq::empty(),
        answers: Seq::empty(),
        nameservers: Seq::empty(),
        addl_recs: Seq::empty(),
    }
}

impl DnsFormatError {
    /// The error text.
    pub closed spec fn spec_message(&self) -> Seq<char> {
        self.message@
    }

    /// The partial packet captured before the failure, if any.
    pub closed spec fn spec_partial(&self) -> Option<PacketModel> {
        match self.partial {
            Some(p) => Some(p@),
            None => None,
        }
    }

    /// Build an error with a message and no partial packet.
    pub fn make_error(message: String) -> (r: DnsFormatError)
        ensures
            r.spec_message() == message@,
            r.spec_partial() is None,
    {
        DnsFormatError { message, partial: None }
    }

    /// The error text.
    pub fn get_message(&self) -> (r: &String)
        ensures
            r@ == self.spec_message(),
    {
        &self.message
    }

    /// Record the partially decoded packet the failure left behind.  The
    /// partial should hold only header fields, not any decoded records.
    pub fn set_partial(&mut self, packet: DnsPacket)
        ensures
            final(self).spec_message() == old(self).spec_message(),
            final(self).spec_partial() == Some(packet@),
    {
        self.partial = Some(packet);
    }

    /// Build the FormErr reply for this error: the reply described by
    /// [`formerr_response`] when a partial header was captured, nothing
    /// otherwise.
    pub fn get_error_response(&self) -> (r: Option<DnsPacket>)
        ensures
            match self.spec_partial() {
                Some(partial) => r matches Some(resp) && resp@ == formerr_response(partial),
                None => r is None,
            },
    {
        match &self.partial {
            Some(packet) => {
                let flags = DnsFlags {
                    qr_bit: true,
                    opcode: packet.flags.opcode,
                    aa_bit: false,
                    tc_bit: false,
                    rd_bit: packet.flags.rd_bit,
                    ra_bit: false,
                    ad_bit: false,
                    cd_bit: packet.flags.cd_bit,
                    rcode: DnsRCode::FormError,
                };
                let resp = DnsPacket {
                    id: packet.id,
                    flags,
                    questions: Vec::new(),
                    answers: Vec::new(),
                    nameservers: Vec::new(),
                    addl_recs: Vec::new(),
                };
                proof {
                    assert(resp@ =~= formerr_response(self.spec_partial()->Some_0));
                }
                Some(resp)
            },
            None => None,
        }
    }
}

} // verus!
