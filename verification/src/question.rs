//! The question section entry: a (name, type, class) triple.

use vstd::prelude::*;

use crate::bigendians;
use crate::class::{class_num, class_of_num, DnsClass};
use crate::errors::DnsFormatError;
use crate::names;
use crate::rrtype::{rrtype_num, rrtype_of_num, DnsRRType};

verus! {

/// A single entry of a message's question section.
#[derive(Clone, PartialEq, Eq, Debug)]
pub struct DnsQuestion {
    /// The name being asked about, as its sequence of labels.  The fully
    /// qualified name "blog.example.com." is the three labels "blog",
    /// "example", "com".
    pub qname: Vec<Vec<u8>>,
    /// The type of records desired.  Some types (like ANY) are only valid
    /// in queries and never on actual resource records.
    pub qtype: DnsRRType,
    /// The class of records desired, nearly always IN.
    pub qclass: DnsClass,
}

/// The mathematical value of a question.
#[verifier::ext_equal]
pub ghost struct QuestionModel {
    pub qname: Seq<Seq<u8>>,
    pub qtype: DnsRRType,
    pub qclass: DnsClass,
}

impl View for DnsQuestion {
    type V = QuestionModel;

    open spec fn view(&self) -> QuestionModel {
        QuestionModel { qname: self.qname.deep_view(), qtype: self.qtype, qclass: self.qclass }
    }
}

impl DeepView for DnsQuestion {
    type V = QuestionModel;

    open spec fn deep_view(&self) -> QuestionModel {
        self.view()
    }
}

/// A question whose name can be written back to the wire.
pub open spec fn wf_question(q: QuestionModel) -> bool {
    names::wf_name(q.qname)
}

/// Copy a question section entry by entry.
pub fn clone_questions(questions: &Vec<DnsQuestion>) -> (r: Vec<DnsQuestion>)
    ensures
        r.deep_view() == questions.deep_view(),
{
    let mut r: Vec<DnsQuestion> = Vec::new();
    let mut i: usize = 0;
    while i < questions.len()
        invariant
            r.deep_view() == questions.deep_view().take(i as int),
            i <= questions@.len(),
            questions.deep_view().len() == questions@.len(),
        decreases questions@.len() - i,
    {
        let q = questions[i].duplicate();
        proof {
            assert(questions.deep_view()[i as int] == questions@[i as int].deep_view());
        }
        let ghost prev = r.deep_view();
        r.push(q);
        i += 1;
        proof {
            assert(r.deep_view() =~= prev.push(q.deep_view()));
            assert(prev.push(q.deep_view()) =~= questions.deep_view().take(i as int));
        }
    }
    proof {
        assert(questions.deep_view().take(questions@.len() as int) =~= questions.deep_view());
    }
    r
}

/// The wire encoding of a question: its name followed by the 16-bit type
/// and class values.
pub open spec fn spec_serialize_question(q: QuestionModel) -> Seq<u8> {
    names::spec_serialize_name(q.qname) + bigendians::be_u16_bytes(rrtype_num(q.qtype))
        + bigendians::be_u16_bytes(class_num(q.qclass))
}

/// Decode the question at `pos` of the message `b`: a name, then the
/// 16-bit type and class, both of which must be assigned values.
pub open spec fn parse_question(b: Seq<u8>, pos: int) -> Option<(QuestionModel, int)> {
    match names::parse_name(b, pos, b.len() as nat) {
        Some((qname, p)) => if p + 4 <= b.len() {
            match (
                rrtype_of_num(bigendians::be_u16(b[p], b[p + 1]) as u16),
                class_of_num(bigendians::be_u16(b[p + 2], b[p + 3]) as u16),
            ) {
                (Some(qtype), Some(qclass)) => Some((QuestionModel { qname, qtype, qclass }, p + 4)),
                _ => None,
            }
        } else {
            None
        },
        None => None,
    }
}

/// A question that decoding can produce: its name is well formed and its
/// class is symbolic (`EdnsPayloadSize` arises only on OPT records).
pub open spec fn canonical_question(q: QuestionModel) -> bool {
    wf_question(q) && !(q.qclass is EdnsPayloadSize)
}

/// A decoded question is canonical: its name came out of the label codec
/// and its class out of the symbolic class table.
pub proof fn lemma_parse_question_canonical(b: Seq<u8>, pos: int)
    ensures
        parse_question(b, pos) matches Some((q, end)) ==> canonical_question(q),
{
    if parse_question(b, pos) is Some {
        names::lemma_parse_name_props(b, pos, b.len() as nat);
    }
}

/// Decoding a buffer that holds a serialized question at `pos` yields
/// exactly that question.
pub proof fn lemma_parse_serialized_question(b: Seq<u8>, pos: int, q: QuestionModel)
    requires
        canonical_question(q),
        0 <= pos,
        pos + spec_serialize_question(q).len() <= b.len(),
        b.subrange(pos, pos + spec_serialize_question(q).len() as int) == spec_serialize_question(
            q,
        ),
    ensures
        parse_question(b, pos) == Some((q, pos + spec_serialize_question(q).len() as int)),
{
    let ser = spec_serialize_question(q);
    let sn = names::spec_serialize_name(q.qname);
    let tb = bigendians::be_u16_bytes(rrtype_num(q.qtype));
    let cb = bigendians::be_u16_bytes(class_num(q.qclass));
    assert(ser.len() == sn.len() + 4);
    assert(b.subrange(pos, pos + sn.len() as int) =~= sn) by {
        assert forall|i: int| 0 <= i < sn.len() implies b.subrange(pos, pos + sn.len() as int)[i]
            == sn[i] by {
            assert(b.subrange(pos, pos + ser.len() as int)[i] == ser[i]);
            assert(ser[i] == sn[i]);
        }
    }
    names::lemma_parse_serialized_name(b, pos, q.qname, b.len() as nat);
    let p = pos + sn.len() as int;
    assert forall|i: int| 0 <= i < 4 implies #[trigger] b[p + i] == ser[sn.len() + i] by {
        assert(b.subrange(pos, pos + ser.len() as int)[sn.len() + i] == ser[sn.len() + i]);
    }
    assert(ser[sn.len() as int] == tb[0]);
    assert(ser[sn.len() as int + 1] == tb[1]);
    assert(ser[sn.len() as int + 2] == cb[0]);
    assert(ser[sn.len() as int + 3] == cb[1]);
    assert(b[p] == tb[0] && b[p + 1] == tb[1]);
    assert(b[p + 2] == cb[0] && b[p + 3] == cb[1]);
    bigendians::lemma_u16_round_trip(rrtype_num(q.qtype));
    bigendians::lemma_u16_round_trip(class_num(q.qclass));
    crate::rrtype::lemma_rrtype_round_trip(q.qtype);
    crate::class::lemma_class_round_trip(q.qclass);
}

impl DnsQuestion {
    /// Decode the question at `pos`.  `packet_bytes` must be the whole DNS
    /// message, because the question's name may point back into it.
    pub fn from_bytes(packet_bytes: &[u8], pos: usize) -> (r: Result<
        (DnsQuestion, usize),
        DnsFormatError,
    >)
        ensures
            match parse_question(packet_bytes@, pos as int) {
                Some((q, end)) => r matches Ok((question, p)) && question@ == q && p == end,
                None => r matches Err(e) && e.spec_partial() is None,
            },
    {
        let (qname, new_pos) = match names::deserialize_name(packet_bytes, pos) {
            Ok(x) => x,
            Err(e) => {
                return Err(e);
            },
        };
        proof {
            names::lemma_parse_name_props(packet_bytes@, pos as int, packet_bytes@.len() as nat);
        }
        if packet_bytes.len() - new_pos < 4 {
            return Err(
                DnsFormatError::make_error(String::from_str("End of packet parsing question")),
            );
        }
        let qtype_num = bigendians::to_u16(&packet_bytes[new_pos..new_pos + 2]);
        let qclass_num = bigendians::to_u16(&packet_bytes[new_pos + 2..new_pos + 4]);
        let qtype = match DnsRRType::from_u16(qtype_num) {
            Some(x) => x,
            None => {
                return Err(DnsFormatError::make_error(String::from_str("Invalid qtype value")));
            },
        };
        let qclass = match DnsClass::from_u16(qclass_num) {
            Some(x) => x,
            None => {
                return Err(DnsFormatError::make_error(String::from_str("Invalid qclass value")));
            },
        };
        Ok((DnsQuestion { qname, qtype, qclass }, new_pos + 4))
    }

    /// Copy this question.
    pub fn duplicate(&self) -> (r: DnsQuestion)
        ensures
            r@ == self@,
    {
        let r = DnsQuestion {
            qname: names::clone_name(&self.qname),
            qtype: self.qtype,
            qclass: self.qclass,
        };
        proof {
            assert(r@ =~= self@);
        }
        r
    }

    /// Encode this question for the wire.
    pub fn to_bytes(&self) -> (r: Vec<u8>)
        requires
            wf_question(self@),
        ensures
            r@ == spec_serialize_question(self@),
    {
        let mut bytes = names::serialize_name(&self.qname);
        let qtype_bytes = bigendians::from_u16(self.qtype.to_u16());
        bytes.push(qtype_bytes[0]);
        bytes.push(qtype_bytes[1]);
        let qclass_bytes = bigendians::from_u16(self.qclass.to_u16());
        bytes.push(qclass_bytes[0]);
        bytes.push(qclass_bytes[1]);
        proof {
            assert(bytes@ =~= spec_serialize_question(self@));
        }
        bytes
    }
}

} // verus!
