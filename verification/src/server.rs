//! The server front-end's decision logic: what to do with a received
//! datagram, and how a resolver reply is fixed up before it goes back to
//! the client.  The socket loop itself lives outside the library.

use vstd::prelude::*;

use crate::errors::formerr_response;
use crate::flags::DnsFlags;
use crate::packet::{spec_header, spec_parse_packet, DnsPacket, PacketModel};
use crate::question::{DnsQuestion, QuestionModel};

verus! {

/// What the server does with a received datagram.
pub enum RequestDisposition {
    /// The datagram held a well-formed query with exactly one question:
    /// resolve it, then finalize the reply with the carried client id
    Resolve(DnsQuestion, u16),
    /// The datagram was malformed but its header decoded: send this
    /// FormErr reply
    RespondFormErr(DnsPacket),
    /// Send nothing: the header did not decode, or the question count was
    /// not one
    Drop,
}

/// The mathematical value of a disposition.
#[verifier::ext_equal]
pub ghost enum DispositionModel {
    Resolve(QuestionModel, u16),
    RespondFormErr(PacketModel),
    Drop,
}

impl View for RequestDisposition {
    type V = DispositionModel;

    open spec fn view(&self) -> DispositionModel {
        match self {
            RequestDisposition::Resolve(q, id) => DispositionModel::Resolve(q@, *id),
            RequestDisposition::RespondFormErr(p) => DispositionModel::RespondFormErr(p@),
            RequestDisposition::Drop => DispositionModel::Drop,
        }
    }
}

/// How a datagram is handled: a message that decodes with exactly one
/// question is resolved; one that decodes with another question count is
/// dropped; one that fails to decode draws a FormErr reply when at least
/// its header decoded and is dropped silently otherwise.
pub open spec fn spec_classify_request(b: Seq<u8>) -> DispositionModel {
    match spec_parse_packet(b) {
        Some(m) => if m.questions.len() == 1 {
            DispositionModel::Resolve(m.questions[0], m.id)
        } else {
            DispositionModel::Drop
        },
        None => match spec_header(b) {
            Some(hdr) => DispositionModel::RespondFormErr(formerr_response(hdr)),
            None => DispositionModel::Drop,
        },
    }
}

/// Decide what to do with a received datagram; see
/// [`spec_classify_request`].
pub fn classify_request(buf: &[u8]) -> (r: RequestDisposition)
    ensures
        r@ == spec_classify_request(buf@),
{
    match DnsPacket::from_bytes(buf) {
        Ok(packet) => {
            if packet.questions.len() != 1 {
                return RequestDisposition::Drop;
            }
            let mut packet = packet;
            let question = match packet.questions.pop() {
                Some(q) => q,
                None => {
                    proof {
                        assert(false);
                    }
                    return RequestDisposition::Drop;
                },
            };
            RequestDisposition::Resolve(question, packet.id)
        },
        Err(e) => match e.get_error_response() {
            Some(response) => RequestDisposition::RespondFormErr(response),
            None => RequestDisposition::Drop,
        },
    }
}

/// A resolver reply readied for the client: the client's transaction id
/// replaces the upstream one and the recursion-available bit is set;
/// everything else is untouched.
pub open spec fn spec_finalize(m: PacketModel, id: u16) -> PacketModel {
    PacketModel { id, flags: DnsFlags { ra_bit: true, ..m.flags }, ..m }
}

/// Ready a resolver reply for the client; see [`spec_finalize`].
pub fn finalize_response(response: &mut DnsPacket, id: u16)
    ensures
        final(response)@ == spec_finalize(old(response)@, id),
{
    response.id = id;
    response.flags.ra_bit = true;
    proof {
        assert(response@ =~= spec_finalize(old(response)@, id));
    }
}

} // verus!
