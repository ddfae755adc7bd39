//! Full DNS messages: header plus the four record sections.

use vstd::prelude::*;

use crate::bigendians;
use crate::errors::DnsFormatError;
use crate::flags::{parse_flags, spec_flags_bytes, DnsFlags};
use crate::question::{DnsQuestion, QuestionModel};
use crate::rr::{DnsResourceRecord, RecordModel};

verus! {

/// A full DNS message.
///
/// The wire-format count fields (QDCOUNT, ANCOUNT, NSCOUNT, ARCOUNT) are
/// never stored: they are always the lengths of the four sequences.
#[derive(Clone, PartialEq, Eq, Debug)]
pub struct DnsPacket {
    /// The 16-bit transaction id, echoed by servers so clients can match
    /// replies to their questions
    pub id: u16,
    /// The header flag word
    pub flags: DnsFlags,
    /// The question section
    pub questions: Vec<DnsQuestion>,
    /// The answer section
    pub answers: Vec<DnsResourceRecord>,
    /// The authority section
    pub nameservers: Vec<DnsResourceRecord>,
    /// The additional-record section
    pub addl_recs: Vec<DnsResourceRecord>,
}

/// The mathematical value of a message.
#[verifier::ext_equal]
pub ghost struct PacketModel {
    pub id: u16,
    pub flags: DnsFlags,
    pub questions: Seq<QuestionModel>,
    pub answers: Seq<RecordModel>,
    pub nameservers: Seq<RecordModel>,
    pub addl_recs: Seq<RecordModel>,
}

impl View for DnsPacket {
    type V = PacketModel;

    open spec fn view(&self) -> PacketModel {
        PacketModel {
            id: self.id,
            flags: self.flags,
            questions: self.questions.deep_view(),
            answers: self.answers.deep_view(),
            nameservers: self.nameservers.deep_view(),
            addl_recs: self.addl_recs.deep_view(),
        }
    }
}

impl DeepView for DnsPacket {
    type V = PacketModel;

    open spec fn deep_view(&self) -> PacketModel {
        self.view()
    }
}

/// A message whose sections fit the 16-bit count fields and whose names
/// and payloads can be written back to the wire.
pub open spec fn wf_packet(m: PacketModel) -> bool {
    &&& m.questions.len() <= 65535
    &&& m.answers.len() <= 65535
    &&& m.nameservers.len() <= 65535
    &&& m.addl_recs.len() <= 65535
    &&& forall|i: int|
        0 <= i < m.questions.len() ==> crate::question::wf_question(#[trigger] m.questions[i])
    &&& forall|i: int| 0 <= i < m.answers.len() ==> crate::rr::wf_record(#[trigger] m.answers[i])
    &&& forall|i: int|
        0 <= i < m.nameservers.len() ==> crate::rr::wf_record(#[trigger] m.nameservers[i])
    &&& forall|i: int|
        0 <= i < m.addl_recs.len() ==> crate::rr::wf_record(#[trigger] m.addl_recs[i])
}

/// The wire encoding of a question section.
pub open spec fn spec_serialize_questions(questions: Seq<QuestionModel>) -> Seq<u8>
    decreases questions.len(),
{
    if questions.len() == 0 {
        Seq::empty()
    } else {
        crate::question::spec_serialize_question(questions[0]) + spec_serialize_questions(
            questions.drop_first(),
        )
    }
}

/// The wire encoding of a record section.
pub open spec fn spec_serialize_records(records: Seq<RecordModel>) -> Seq<u8>
    decreases records.len(),
{
    if records.len() == 0 {
        Seq::empty()
    } else {
        crate::rr::spec_serialize_record(records[0]) + spec_serialize_records(records.drop_first())
    }
}

/// The wire encoding of a message: id, flags, the four section counts
/// computed from the sequences, then every section in order.
pub open spec fn spec_serialize_packet(m: PacketModel) -> Seq<u8> {
    bigendians::be_u16_bytes(m.id) + spec_flags_bytes(m.flags) + bigendians::be_u16_bytes(
        m.questions.len() as u16,
    ) + bigendians::be_u16_bytes(m.answers.len() as u16) + bigendians::be_u16_bytes(
        m.nameservers.len() as u16,
    ) + bigendians::be_u16_bytes(m.addl_recs.len() as u16) + spec_serialize_questions(m.questions)
        + spec_serialize_records(m.answers) + spec_serialize_records(m.nameservers)
        + spec_serialize_records(m.addl_recs)
}

/// Decode `count` consecutive questions starting at `pos`.
pub open spec fn parse_questions(b: Seq<u8>, pos: int, count: nat) -> Option<
    (Seq<QuestionModel>, int),
>
    decreases count,
{
    if count == 0 {
        Some((Seq::empty(), pos))
    } else {
        match crate::question::parse_question(b, pos) {
            Some((q, p)) => match parse_questions(b, p, (count - 1) as nat) {
                Some((qs, end)) => Some((seq![q] + qs, end)),
                None => None,
            },
            None => None,
        }
    }
}

/// Decode `count` consecutive resource records starting at `pos`.
pub open spec fn parse_records(b: Seq<u8>, pos: int, count: nat) -> Option<(Seq<RecordModel>, int)>
    decreases count,
{
    if count == 0 {
        Some((Seq::empty(), pos))
    } else {
        match crate::rr::parse_record(b, pos) {
            Some((r, p)) => match parse_records(b, p, (count - 1) as nat) {
                Some((rs, end)) => Some((seq![r] + rs, end)),
                None => None,
            },
            None => None,
        }
    }
}

/// A message holding only header fields, used as the partial packet of a
/// format error.
pub open spec fn header_model(id: u16, flags: DnsFlags) -> PacketModel {
    PacketModel {
        id,
        flags,
        questions: Seq::empty(),
        answers: Seq::empty(),
        nameservers: Seq::empty(),
        addl_recs: Seq::empty(),
    }
}

/// The header fields of a message, when the message is at least 12 bytes
/// long and its flag word decodes.
pub open spec fn spec_header(b: Seq<u8>) -> Option<PacketModel> {
    if b.len() >= 12 {
        match parse_flags(b[2], b[3]) {
            Some(flags) => Some(header_model(bigendians::be_u16(b[0], b[1]) as u16, flags)),
            None => None,
        }
    } else {
        None
    }
}

/// Decode a whole message: the 12-byte header, then as many questions,
/// answers, authority records and additional records as the four counts
/// say.  Trailing bytes after the last record are not an error.
pub open spec fn spec_parse_packet(b: Seq<u8>) -> Option<PacketModel> {
    if b.len() < 12 {
        None
    } else {
        match parse_flags(b[2], b[3]) {
            Some(flags) => match parse_questions(
                b,
                12,
                bigendians::be_u16(b[4], b[5]) as nat,
            ) {
                Some((questions, p1)) => match parse_records(
                    b,
                    p1,
                    bigendians::be_u16(b[6], b[7]) as nat,
                ) {
                    Some((answers, p2)) => match parse_records(
                        b,
                        p2,
                        bigendians::be_u16(b[8], b[9]) as nat,
                    ) {
                        Some((nameservers, p3)) => match parse_records(
                            b,
                            p3,
                            bigendians::be_u16(b[10], b[11]) as nat,
                        ) {
                            Some((addl_recs, _)) => Some(
                                PacketModel {
                                    id: bigendians::be_u16(b[0], b[1]) as u16,
                                    flags,
                                    questions,
                                    answers,
                                    nameservers,
                                    addl_recs,
                                },
                            ),
                            None => None,
                        },
                        None => None,
                    },
                    None => None,
                },
                None => None,
            },
            None => None,
        }
    }
}

/// Build the header-only packet a format error carries as its partial.
fn header_packet(id: u16, flags: DnsFlags) -> (r: DnsPacket)
    ensures
        r@ == header_model(id, flags),
{
    let r = DnsPacket {
        id,
        flags,
        questions: Vec::new(),
        answers: Vec::new(),
        nameservers: Vec::new(),
        addl_recs: Vec::new(),
    };
    proof {
        assert(r@ =~= header_model(id, flags));
    }
    r
}

/// Decode `count` consecutive questions starting at `start`.
fn read_questions(bytes: &[u8], start: usize, count: u16) -> (r: Result<
    (Vec<DnsQuestion>, usize),
    DnsFormatError,
>)
    ensures
        match parse_questions(bytes@, start as int, count as nat) {
            Some((qs, end)) => r matches Ok((v, p)) && v.deep_view() == qs && p == end,
            None => r matches Err(e) && e.spec_partial() is None,
        },
{
    let mut questions: Vec<DnsQuestion> = Vec::new();
    let mut pos: usize = start;
    let mut i: u16 = 0;
    while i < count
        invariant
            i <= count,
            parse_questions(bytes@, pos as int, (count - i) as nat) matches Some((qs, end))
                ==> parse_questions(bytes@, start as int, count as nat) == Some(
                (questions.deep_view() + qs, end),
            ),
            parse_questions(bytes@, pos as int, (count - i) as nat) is None ==> parse_questions(
                bytes@,
                start as int,
                count as nat,
            ) is None,
        decreases count - i,
    {
        match DnsQuestion::from_bytes(bytes, pos) {
            Ok((question, new_pos)) => {
                let ghost prev = questions.deep_view();
                let ghost rest = parse_questions(bytes@, new_pos as int, (count - i - 1) as nat);
                questions.push(question);
                pos = new_pos;
                i += 1;
                proof {
                    assert(questions.deep_view() =~= prev.push(question.deep_view()));
                    if rest is Some {
                        let (qs2, e2) = rest->Some_0;
                        assert(prev.push(question@) + qs2 =~= prev + (seq![question@] + qs2));
                    }
                }
            },
            Err(e) => {
                return Err(e);
            },
        }
    }
    proof {
        assert(questions.deep_view() + Seq::<QuestionModel>::empty() =~= questions.deep_view());
    }
    Ok((questions, pos))
}

/// Decode `count` consecutive resource records starting at `start`.
fn read_records(bytes: &[u8], start: usize, count: u16) -> (r: Result<
    (Vec<DnsResourceRecord>, usize),
    DnsFormatError,
>)
    ensures
        match parse_records(bytes@, start as int, count as nat) {
            Some((rs, end)) => r matches Ok((v, p)) && v.deep_view() == rs && p == end,
            None => r matches Err(e) && e.spec_partial() is None,
        },
{
    let mut records: Vec<DnsResourceRecord> = Vec::new();
    let mut pos: usize = start;
    let mut i: u16 = 0;
    while i < count
        invariant
            i <= count,
            parse_records(bytes@, pos as int, (count - i) as nat) matches Some((rs, end))
                ==> parse_records(bytes@, start as int, count as nat) == Some(
                (records.deep_view() + rs, end),
            ),
            parse_records(bytes@, pos as int, (count - i) as nat) is None ==> parse_records(
                bytes@,
                start as int,
                count as nat,
            ) is None,
        decreases count - i,
    {
        match DnsResourceRecord::from_bytes(bytes, pos) {
            Ok((record, new_pos)) => {
                let ghost prev = records.deep_view();
                let ghost rest = parse_records(bytes@, new_pos as int, (count - i - 1) as nat);
                records.push(record);
                pos = new_pos;
                i += 1;
                proof {
                    assert(records.deep_view() =~= prev.push(record.deep_view()));
                    if rest is Some {
                        let (rs2, e2) = rest->Some_0;
                        assert(prev.push(record@) + rs2 =~= prev + (seq![record@] + rs2));
                    }
                }
            },
            Err(e) => {
                return Err(e);
            },
        }
    }
    proof {
        assert(records.deep_view() + Seq::<RecordModel>::empty() =~= records.deep_view());
    }
    Ok((records, pos))
}

/// Append the wire encoding of every question to `bytes`.
fn write_questions(bytes: &mut Vec<u8>, questions: &Vec<DnsQuestion>)
    requires
        forall|i: int|
            0 <= i < questions.deep_view().len() ==> crate::question::wf_question(
                #[trigger] questions.deep_view()[i],
            ),
    ensures
        final(bytes)@ == old(bytes)@ + spec_serialize_questions(questions.deep_view()),
{
    let ghost prefix = bytes@;
    let ghost dv = questions.deep_view();
    let mut i: usize = 0;
    while i < questions.len()
        invariant
            i <= questions@.len(),
            dv == questions.deep_view(),
            dv.len() == questions@.len(),
            forall|k: int| 0 <= k < dv.len() ==> crate::question::wf_question(#[trigger] dv[k]),
            bytes@ == prefix + spec_serialize_questions(dv.take(i as int)),
        decreases questions@.len() - i,
    {
        proof {
            assert(dv[i as int] == questions@[i as int].deep_view());
        }
        let mut qb = questions[i].to_bytes();
        bytes.append(&mut qb);
        proof {
            lemma_serialize_questions_push(dv.take(i as int), dv[i as int]);
            assert(dv.take(i as int).push(dv[i as int]) =~= dv.take(i + 1));
        }
        i += 1;
    }
    proof {
        assert(dv.take(questions@.len() as int) =~= dv);
    }
}

/// Append the wire encoding of every record to `bytes`.
fn write_records(bytes: &mut Vec<u8>, records: &Vec<DnsResourceRecord>)
    requires
        forall|i: int|
            0 <= i < records.deep_view().len() ==> crate::rr::wf_record(
                #[trigger] records.deep_view()[i],
            ),
    ensures
        final(bytes)@ == old(bytes)@ + spec_serialize_records(records.deep_view()),
{
    let ghost prefix = bytes@;
    let ghost dv = records.deep_view();
    let mut i: usize = 0;
    while i < records.len()
        invariant
            i <= records@.len(),
            dv == records.deep_view(),
            dv.len() == records@.len(),
            forall|k: int| 0 <= k < dv.len() ==> crate::rr::wf_record(#[trigger] dv[k]),
            bytes@ == prefix + spec_serialize_records(dv.take(i as int)),
        decreases records@.len() - i,
    {
        proof {
            assert(dv[i as int] == records@[i as int].deep_view());
        }
        let mut rb = records[i].to_bytes();
        bytes.append(&mut rb);
        proof {
            lemma_serialize_records_push(dv.take(i as int), dv[i as int]);
            assert(dv.take(i as int).push(dv[i as int]) =~= dv.take(i + 1));
        }
        i += 1;
    }
    proof {
        assert(dv.take(records@.len() as int) =~= dv);
    }
}

/// Appending a question to a section appends its encoding to the section's.
pub proof fn lemma_serialize_questions_push(questions: Seq<QuestionModel>, q: QuestionModel)
    ensures
        spec_serialize_questions(questions.push(q)) == spec_serialize_questions(questions)
            + crate::question::spec_serialize_question(q),
    decreases questions.len(),
{
    let p = questions.push(q);
    if questions.len() == 0 {
        let rest = p.drop_first();
        assert(rest =~= Seq::<QuestionModel>::empty());
        assert(spec_serialize_questions(rest) == Seq::<u8>::empty());
        assert(p[0] == q);
        assert(spec_serialize_questions(questions) == Seq::<u8>::empty());
        assert(spec_serialize_questions(p) =~= spec_serialize_questions(questions)
            + crate::question::spec_serialize_question(q));
    } else {
        lemma_serialize_questions_push(questions.drop_first(), q);
        assert(p.drop_first() =~= questions.drop_first().push(q));
        assert(p[0] == questions[0]);
        assert(spec_serialize_questions(p) =~= spec_serialize_questions(questions)
            + crate::question::spec_serialize_question(q));
    }
}

/// Appending a record to a section appends its encoding to the section's.
pub proof fn lemma_serialize_records_push(records: Seq<RecordModel>, r: RecordModel)
    ensures
        spec_serialize_records(records.push(r)) == spec_serialize_records(records)
            + crate::rr::spec_serialize_record(r),
    decreases records.len(),
{
    let p = records.push(r);
    if records.len() == 0 {
        let rest = p.drop_first();
        assert(rest =~= Seq::<RecordModel>::empty());
        assert(spec_serialize_records(rest) == Seq::<u8>::empty());
        assert(p[0] == r);
        assert(spec_serialize_records(records) == Seq::<u8>::empty());
        assert(spec_serialize_records(p) =~= spec_serialize_records(records)
            + crate::rr::spec_serialize_record(r));
    } else {
        lemma_serialize_records_push(records.drop_first(), r);
        assert(p.drop_first() =~= records.drop_first().push(r));
        assert(p[0] == records[0]);
        assert(spec_serialize_records(p) =~= spec_serialize_records(records)
            + crate::rr::spec_serialize_record(r));
    }
}

/// A message that decoding can produce and encoding writes back bit for
/// bit: well formed, with every record's data variant agreeing with its
/// type and the OPT class special case respected.
pub open spec fn canonical_packet(m: PacketModel) -> bool {
    &&& wf_packet(m)
    &&& forall|i: int|
        0 <= i < m.questions.len() ==> crate::question::canonical_question(
            #[trigger] m.questions[i],
        )
    &&& forall|i: int|
        0 <= i < m.answers.len() ==> crate::rr::canonical_record(#[trigger] m.answers[i])
    &&& forall|i: int|
        0 <= i < m.nameservers.len() ==> crate::rr::canonical_record(#[trigger] m.nameservers[i])
    &&& forall|i: int|
        0 <= i < m.addl_recs.len() ==> crate::rr::canonical_record(#[trigger] m.addl_recs[i])
}

/// Decoding a buffer that holds a serialized question section at `pos`
/// yields exactly those questions.
pub proof fn lemma_parse_serialized_questions(b: Seq<u8>, pos: int, qs: Seq<QuestionModel>)
    requires
        forall|i: int|
            0 <= i < qs.len() ==> crate::question::canonical_question(#[trigger] qs[i]),
        0 <= pos,
        pos + spec_serialize_questions(qs).len() <= b.len(),
        b.subrange(pos, pos + spec_serialize_questions(qs).len() as int)
            == spec_serialize_questions(qs),
    ensures
        parse_questions(b, pos, qs.len() as nat) == Some(
            (qs, pos + spec_serialize_questions(qs).len() as int),
        ),
    decreases qs.len(),
{
    let ser = spec_serialize_questions(qs);
    if qs.len() == 0 {
        assert(qs =~= Seq::<QuestionModel>::empty());
    } else {
        let sq = crate::question::spec_serialize_question(qs[0]);
        let rest = qs.drop_first();
        let sr = spec_serialize_questions(rest);
        assert(ser == sq + sr);
        assert(b.subrange(pos, pos + sq.len() as int) =~= sq) by {
            assert forall|i: int| 0 <= i < sq.len() implies b.subrange(
                pos,
                pos + sq.len() as int,
            )[i] == sq[i] by {
                assert(b.subrange(pos, pos + ser.len() as int)[i] == ser[i]);
                assert(ser[i] == sq[i]);
            }
        }
        crate::question::lemma_parse_serialized_question(b, pos, qs[0]);
        let p = pos + sq.len() as int;
        assert(b.subrange(p, p + sr.len() as int) =~= sr) by {
            assert forall|i: int| 0 <= i < sr.len() implies b.subrange(p, p + sr.len() as int)[i]
                == sr[i] by {
                assert(b.subrange(pos, pos + ser.len() as int)[sq.len() + i] == ser[sq.len() + i]);
                assert(ser[sq.len() + i] == sr[i]);
            }
        }
        lemma_parse_serialized_questions(b, p, rest);
        assert(seq![qs[0]] + rest =~= qs);
    }
}

/// Decoding a buffer that holds a serialized record section at `pos`
/// yields exactly those records.
pub proof fn lemma_parse_serialized_records(b: Seq<u8>, pos: int, rs: Seq<RecordModel>)
    requires
        forall|i: int| 0 <= i < rs.len() ==> crate::rr::canonical_record(#[trigger] rs[i]),
        0 <= pos,
        pos + spec_serialize_records(rs).len() <= b.len(),
        b.subrange(pos, pos + spec_serialize_records(rs).len() as int) == spec_serialize_records(
            rs,
        ),
    ensures
        parse_records(b, pos, rs.len() as nat) == Some(
            (rs, pos + spec_serialize_records(rs).len() as int),
        ),
    decreases rs.len(),
{
    let ser = spec_serialize_records(rs);
    if rs.len() == 0 {
        assert(rs =~= Seq::<RecordModel>::empty());
    } else {
        let sq = crate::rr::spec_serialize_record(rs[0]);
        let rest = rs.drop_first();
        let sr = spec_serialize_records(rest);
        assert(ser == sq + sr);
        assert(b.subrange(pos, pos + sq.len() as int) =~= sq) by {
            assert forall|i: int| 0 <= i < sq.len() implies b.subrange(
                pos,
                pos + sq.len() as int,
            )[i] == sq[i] by {
                assert(b.subrange(pos, pos + ser.len() as int)[i] == ser[i]);
                assert(ser[i] == sq[i]);
            }
        }
        crate::rr::lemma_parse_serialized_record(b, pos, rs[0]);
        let p = pos + sq.len() as int;
        assert(b.subrange(p, p + sr.len() as int) =~= sr) by {
            assert forall|i: int| 0 <= i < sr.len() implies b.subrange(p, p + sr.len() as int)[i]
                == sr[i] by {
                assert(b.subrange(pos, pos + ser.len() as int)[sq.len() + i] == ser[sq.len() + i]);
                assert(ser[sq.len() + i] == sr[i]);
            }
        }
        lemma_parse_serialized_records(b, p, rest);
        assert(seq![rs[0]] + rest =~= rs);
    }
}

/// Decoding an encoded message yields the message back: the encoder emits
/// no label compression and recomputes every length, so the structure
/// survives the round trip exactly.
#[verifier::rlimit(100)]
pub proof fn lemma_packet_round_trip(m: PacketModel)
    requires
        canonical_packet(m),
    ensures
        spec_parse_packet(spec_serialize_packet(m)) == Some(m),
{
    let b = spec_serialize_packet(m);
    let idb = bigendians::be_u16_bytes(m.id);
    let fb = spec_flags_bytes(m.flags);
    let qdb = bigendians::be_u16_bytes(m.questions.len() as u16);
    let anb = bigendians::be_u16_bytes(m.answers.len() as u16);
    let nsb = bigendians::be_u16_bytes(m.nameservers.len() as u16);
    let arb = bigendians::be_u16_bytes(m.addl_recs.len() as u16);
    let sq = spec_serialize_questions(m.questions);
    let sa = spec_serialize_records(m.answers);
    let sn = spec_serialize_records(m.nameservers);
    let sr = spec_serialize_records(m.addl_recs);
    assert(b.len() == 12 + sq.len() + sa.len() + sn.len() + sr.len());
    assert(b[0] == idb[0] && b[1] == idb[1]);
    assert(b[2] == fb[0] && b[3] == fb[1]);
    assert(b[4] == qdb[0] && b[5] == qdb[1]);
    assert(b[6] == anb[0] && b[7] == anb[1]);
    assert(b[8] == nsb[0] && b[9] == nsb[1]);
    assert(b[10] == arb[0] && b[11] == arb[1]);
    crate::flags::lemma_flags_round_trip(m.flags);
    bigendians::lemma_u16_round_trip(m.id);
    bigendians::lemma_u16_round_trip(m.questions.len() as u16);
    bigendians::lemma_u16_round_trip(m.answers.len() as u16);
    bigendians::lemma_u16_round_trip(m.nameservers.len() as u16);
    bigendians::lemma_u16_round_trip(m.addl_recs.len() as u16);
    let p1 = 12 + sq.len() as int;
    let p2 = p1 + sa.len() as int;
    let p3 = p2 + sn.len() as int;
    assert(b.subrange(12, p1) =~= sq) by {
        assert forall|i: int| 0 <= i < sq.len() implies b.subrange(12, p1)[i] == sq[i] by {
            assert(b[12 + i] == sq[i]);
        }
    }
    assert(b.subrange(p1, p2) =~= sa) by {
        assert forall|i: int| 0 <= i < sa.len() implies b.subrange(p1, p2)[i] == sa[i] by {
            assert(b[12 + sq.len() + i] == sa[i]);
        }
    }
    assert(b.subrange(p2, p3) =~= sn) by {
        assert forall|i: int| 0 <= i < sn.len() implies b.subrange(p2, p3)[i] == sn[i] by {
            assert(b[12 + sq.len() + sa.len() + i] == sn[i]);
        }
    }
    assert(b.subrange(p3, p3 + sr.len() as int) =~= sr) by {
        assert forall|i: int| 0 <= i < sr.len() implies b.subrange(p3, p3 + sr.len() as int)[i]
            == sr[i] by {
            assert(b[12 + sq.len() + sa.len() + sn.len() + i] == sr[i]);
        }
    }
    lemma_parse_serialized_questions(b, 12, m.questions);
    lemma_parse_serialized_records(b, p1, m.answers);
    lemma_parse_serialized_records(b, p2, m.nameservers);
    lemma_parse_serialized_records(b, p3, m.addl_recs);
    assert(spec_parse_packet(b)->Some_0 =~= m);
}

/// Every question of a decoded question section is canonical, and the
/// section has exactly `count` entries.
pub proof fn lemma_parse_questions_canonical(b: Seq<u8>, pos: int, count: nat)
    ensures
        parse_questions(b, pos, count) matches Some((qs, end)) ==> qs.len() == count && forall|
            i: int,
        |
            0 <= i < qs.len() ==> crate::question::canonical_question(#[trigger] qs[i]),
    decreases count,
{
    if count > 0 && parse_questions(b, pos, count) is Some {
        crate::question::lemma_parse_question_canonical(b, pos);
        let (q, p) = crate::question::parse_question(b, pos)->Some_0;
        lemma_parse_questions_canonical(b, p, (count - 1) as nat);
    }
}

/// Every record of a decoded record section is coherent, and the section
/// has exactly `count` entries.
pub proof fn lemma_parse_records_coherent(b: Seq<u8>, pos: int, count: nat)
    ensures
        parse_records(b, pos, count) matches Some((rs, end)) ==> rs.len() == count && forall|
            i: int,
        |
            0 <= i < rs.len() ==> crate::rr::coherent_record(#[trigger] rs[i]),
    decreases count,
{
    if count > 0 && parse_records(b, pos, count) is Some {
        crate::rr::lemma_parse_record_coherent(b, pos);
        let (r, p) = crate::rr::parse_record(b, pos)->Some_0;
        lemma_parse_records_coherent(b, p, (count - 1) as nat);
    }
}

/// A decoded message's sections fit their count fields, its questions are
/// canonical and its records coherent.
pub proof fn lemma_parse_packet_coherent(b: Seq<u8>)
    ensures
        spec_parse_packet(b) matches Some(m) ==> {
            &&& m.questions.len() <= 65535
            &&& m.answers.len() <= 65535
            &&& m.nameservers.len() <= 65535
            &&& m.addl_recs.len() <= 65535
            &&& forall|i: int|
                0 <= i < m.questions.len() ==> crate::question::canonical_question(
                    #[trigger] m.questions[i],
                )
            &&& forall|i: int|
                0 <= i < m.answers.len() ==> crate::rr::coherent_record(#[trigger] m.answers[i])
            &&& forall|i: int|
                0 <= i < m.nameservers.len() ==> crate::rr::coherent_record(
                    #[trigger] m.nameservers[i],
                )
            &&& forall|i: int|
                0 <= i < m.addl_recs.len() ==> crate::rr::coherent_record(
                    #[trigger] m.addl_recs[i],
                )
        },
{
    if spec_parse_packet(b) is Some {
        lemma_parse_questions_canonical(b, 12, bigendians::be_u16(b[4], b[5]) as nat);
        let (questions, p1) = parse_questions(b, 12, bigendians::be_u16(b[4], b[5]) as nat)->Some_0;
        lemma_parse_records_coherent(b, p1, bigendians::be_u16(b[6], b[7]) as nat);
        let (answers, p2) = parse_records(b, p1, bigendians::be_u16(b[6], b[7]) as nat)->Some_0;
        lemma_parse_records_coherent(b, p2, bigendians::be_u16(b[8], b[9]) as nat);
        let (nameservers, p3) = parse_records(b, p2, bigendians::be_u16(b[8], b[9]) as nat)->Some_0;
        lemma_parse_records_coherent(b, p3, bigendians::be_u16(b[10], b[11]) as nat);
    }
}

/// Decoding, re-encoding and decoding again yields the identical
/// structure.  The re-encoded bytes may differ from the received ones,
/// since the encoder never compresses labels; the one condition is that
/// each decompressed payload still fits the 16-bit record-data length
/// field it is written back through.
pub proof fn lemma_decode_encode_decode(b: Seq<u8>, m: PacketModel)
    requires
        spec_parse_packet(b) == Some(m),
        forall|i: int|
            0 <= i < m.answers.len() ==> crate::rdata::spec_serialize_rdata(
                (#[trigger] m.answers[i]).record,
            ).len() <= 65535,
        forall|i: int|
            0 <= i < m.nameservers.len() ==> crate::rdata::spec_serialize_rdata(
                (#[trigger] m.nameservers[i]).record,
            ).len() <= 65535,
        forall|i: int|
            0 <= i < m.addl_recs.len() ==> crate::rdata::spec_serialize_rdata(
                (#[trigger] m.addl_recs[i]).record,
            ).len() <= 65535,
    ensures
        spec_parse_packet(spec_serialize_packet(m)) == Some(m),
{
    lemma_parse_packet_coherent(b);
    assert(canonical_packet(m));
    lemma_packet_round_trip(m);
}

impl DnsPacket {
    /// Decode a whole message.  On failure the error carries the header
    /// fields as a partial packet whenever the 12-byte header itself
    /// decoded, so the server layer can synthesize a FormErr reply.
    pub fn from_bytes(bytes: &[u8]) -> (r: Result<DnsPacket, DnsFormatError>)
        ensures
            match spec_parse_packet(bytes@) {
                Some(m) => r matches Ok(p) && p@ == m,
                None => r matches Err(e) && e.spec_partial() == spec_header(bytes@),
            },
            bytes@.len() < 12 ==> r is Err,
    {
        if bytes.len() < 12 {
            return Err(
                DnsFormatError::make_error(String::from_str("Packet is shorter than a DNS header")),
            );
        }
        let id = bigendians::to_u16(&bytes[0..2]);
        let flags = match DnsFlags::from_bytes(&bytes[2..4]) {
            Ok(f) => f,
            Err(e) => {
                return Err(e);
            },
        };
        let qd_count = bigendians::to_u16(&bytes[4..6]);
        let an_count = bigendians::to_u16(&bytes[6..8]);
        let ns_count = bigendians::to_u16(&bytes[8..10]);
        let ar_count = bigendians::to_u16(&bytes[10..12]);

        // The header was 12 bytes; the rest of the packet is variable
        // length.  From here on a failure carries the header as a partial.
        let (questions, pos1) = match read_questions(bytes, 12, qd_count) {
            Ok(x) => x,
            Err(mut e) => {
                e.set_partial(header_packet(id, flags));
                return Err(e);
            },
        };
        let (answers, pos2) = match read_records(bytes, pos1, an_count) {
            Ok(x) => x,
            Err(mut e) => {
                e.set_partial(header_packet(id, flags));
                return Err(e);
            },
        };
        let (nameservers, pos3) = match read_records(bytes, pos2, ns_count) {
            Ok(x) => x,
            Err(mut e) => {
                e.set_partial(header_packet(id, flags));
                return Err(e);
            },
        };
        let (addl_recs, _) = match read_records(bytes, pos3, ar_count) {
            Ok(x) => x,
            Err(mut e) => {
                e.set_partial(header_packet(id, flags));
                return Err(e);
            },
        };
        Ok(DnsPacket { id, flags, questions, answers, nameservers, addl_recs })
    }

    /// Check that this message can be written to the wire: every section
    /// fits its 16-bit count field and every name and payload is well
    /// formed.
    pub fn is_wf(&self) -> (r: bool)
        ensures
            r == wf_packet(self@),
    {
        if self.questions.len() > 65535 || self.answers.len() > 65535 || self.nameservers.len()
            > 65535 || self.addl_recs.len() > 65535 {
            return false;
        }
        let ghost qv = self.questions.deep_view();
        let mut i: usize = 0;
        while i < self.questions.len()
            invariant
                i <= self.questions@.len(),
                qv == self.questions.deep_view(),
                qv.len() == self.questions@.len(),
                forall|k: int| 0 <= k < i ==> crate::question::wf_question(#[trigger] qv[k]),
            decreases self.questions@.len() - i,
        {
            proof {
                assert(qv[i as int] == self.questions@[i as int].deep_view());
            }
            if !crate::names::is_wf_name(&self.questions[i].qname) {
                return false;
            }
            i += 1;
        }
        let ghost av = self.answers.deep_view();
        let mut i: usize = 0;
        while i < self.answers.len()
            invariant
                i <= self.answers@.len(),
                av == self.answers.deep_view(),
                av.len() == self.answers@.len(),
                forall|k: int| 0 <= k < i ==> crate::rr::wf_record(#[trigger] av[k]),
            decreases self.answers@.len() - i,
        {
            proof {
                assert(av[i as int] == self.answers@[i as int].deep_view());
            }
            if !self.answers[i].is_wf() {
                return false;
            }
            i += 1;
        }
        let ghost nv = self.nameservers.deep_view();
        let mut i: usize = 0;
        while i < self.nameservers.len()
            invariant
                i <= self.nameservers@.len(),
                nv == self.nameservers.deep_view(),
                nv.len() == self.nameservers@.len(),
                forall|k: int| 0 <= k < i ==> crate::rr::wf_record(#[trigger] nv[k]),
            decreases self.nameservers@.len() - i,
        {
            proof {
                assert(nv[i as int] == self.nameservers@[i as int].deep_view());
            }
            if !self.nameservers[i].is_wf() {
                return false;
            }
            i += 1;
        }
        let ghost rv = self.addl_recs.deep_view();
        let mut i: usize = 0;
        while i < self.addl_recs.len()
            invariant
                i <= self.addl_recs@.len(),
                rv == self.addl_recs.deep_view(),
                rv.len() == self.addl_recs@.len(),
                forall|k: int| 0 <= k < i ==> crate::rr::wf_record(#[trigger] rv[k]),
            decreases self.addl_recs@.len() - i,
        {
            proof {
                assert(rv[i as int] == self.addl_recs@[i as int].deep_view());
            }
            if !self.addl_recs[i].is_wf() {
                return false;
            }
            i += 1;
        }
        true
    }

    /// Encode this message for the wire.  The four count fields are the
    /// section lengths; there is no length prefix.
    pub fn to_bytes(&self) -> (r: Vec<u8>)
        requires
            wf_packet(self@),
        ensures
            r@ == spec_serialize_packet(self@),
    {
        let mut bytes: Vec<u8> = Vec::new();
        let id_bytes = bigendians::from_u16(self.id);
        bytes.push(id_bytes[0]);
        bytes.push(id_bytes[1]);
        let flag_bytes = self.flags.to_bytes();
        bytes.push(flag_bytes[0]);
        bytes.push(flag_bytes[1]);
        let qd_bytes = bigendians::from_u16(self.questions.len() as u16);
        bytes.push(qd_bytes[0]);
        bytes.push(qd_bytes[1]);
        let an_bytes = bigendians::from_u16(self.answers.len() as u16);
        bytes.push(an_bytes[0]);
        bytes.push(an_bytes[1]);
        let ns_bytes = bigendians::from_u16(self.nameservers.len() as u16);
        bytes.push(ns_bytes[0]);
        bytes.push(ns_bytes[1]);
        let ar_bytes = bigendians::from_u16(self.addl_recs.len() as u16);
        bytes.push(ar_bytes[0]);
        bytes.push(ar_bytes[1]);
        write_questions(&mut bytes, &self.questions);
        write_records(&mut bytes, &self.answers);
        write_records(&mut bytes, &self.nameservers);
        write_records(&mut bytes, &self.addl_recs);
        proof {
            assert(bytes@ =~= spec_serialize_packet(self@));
        }
        bytes
    }
}

/// The reply sent for a query the server does not implement: NotImp with
/// the client's questions echoed and everything else cleared.
pub open spec fn not_imp_answer(m: PacketModel) -> PacketModel {
    PacketModel {
        id: m.id,
        flags: DnsFlags {
            qr_bit: true,
            opcode: m.flags.opcode,
            aa_bit: false,
            tc_bit: false,
            rd_bit: m.flags.rd_bit,
            ra_bit: false,
            ad_bit: false,
            cd_bit: false,
            rcode: crate::rcode::DnsRCode::NotImp,
        },
        questions: m.questions,
        answers: Seq::empty(),
        nameservers: Seq::empty(),
        addl_recs: Seq::empty(),
    }
}

/// Build a NotImp reply to a query, echoing its id and questions.
pub fn not_imp_answer_from_query(packet: &DnsPacket) -> (r: DnsPacket)
    ensures
        r@ == not_imp_answer(packet@),
{
    let id = packet.id;
    let flags = DnsFlags {
        qr_bit: true,
        opcode: packet.flags.opcode,
        aa_bit: false,
        tc_bit: false,
        rd_bit: packet.flags.rd_bit,
        ra_bit: false,
        ad_bit: false,
        cd_bit: false,
        rcode: crate::rcode::DnsRCode::NotImp,
    };
    let questions = crate::question::clone_questions(&packet.questions);
    let r = DnsPacket {
        id,
        flags,
        questions,
        answers: Vec::new(),
        nameservers: Vec::new(),
        addl_recs: Vec::new(),
    };
    proof {
        assert(r@ =~= not_imp_answer(packet@));
    }
    r
}

} // verus!
