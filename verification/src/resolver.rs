//! The iterative resolver's decision logic, as a pure state machine.
//!
//! Resolution walks the DNS hierarchy from a root nameserver downward,
//! following referrals, consuming glue records, resolving glueless
//! nameserver names and chasing CNAME aliases.  The machine holds a stack
//! of pending lookups; [`ResolverState::start`] opens a resolution and
//! every upstream reply is handed to [`ResolverState::step`], which
//! returns the next action: send a query to a nameserver, finish with a
//! reply, or fail.  The caller performs the socket work and feeds each
//! decoded reply back in, so every decision the resolver makes is
//! verified here while the I/O stays outside the library.

use vstd::prelude::*;

use crate::class::DnsClass;
use crate::flags::DnsFlags;
use crate::ip::Ipv4Address;
use crate::names;
use crate::opcode::DnsOpcode;
use crate::packet::{DnsPacket, PacketModel};
use crate::question::{DnsQuestion, QuestionModel};
use crate::rcode::DnsRCode;
use crate::rdata::{DnsRecordData, RDataModel};
use crate::rr::{DnsResourceRecord, RecordModel};
use crate::rrtype::DnsRRType;

verus! {

/// The deepest stack of pending lookups allowed: each glueless referral or
/// CNAME alias adds one frame, so this bounds in-bailiwick referral loops
/// and alias chains.
pub const MAX_RESOLUTION_DEPTH: usize = 20;

/// The largest number of upstream queries a single resolution may send,
/// bounding referral loops that never make progress.
pub const MAX_RESOLUTION_QUERIES: u16 = 64;

/// The IPv4 address of the built-in root nameserver hint.
pub open spec fn root_nameserver() -> Ipv4Address {
    Ipv4Address { o0: 192, o1: 203, o2: 230, o3: 10 }
}

/// The A record address of e.root-servers.net, the built-in root hint.
pub fn get_root_nameserver() -> (r: Ipv4Address)
    ensures
        r == root_nameserver(),
{
    Ipv4Address::new(192, 203, 230, 10)
}

/// Why a resolution failed.
#[derive(Clone, Copy, PartialEq, Eq, Structural, Debug)]
pub enum ResolveError {
    /// An upstream server answered with an rcode other than NoError or
    /// NXDomain
    NonZeroRcode,
    /// A reply carried no error, no answers and no NS records to follow
    NoNameserverRecords,
    /// An NS record's payload was not a nameserver name
    MalformedNsRecord,
    /// Resolving a nameserver's name produced no A record
    NoAddressForNameserver,
    /// The stack of glueless-referral and CNAME lookups grew past
    /// [`MAX_RESOLUTION_DEPTH`]
    DepthLimitReached,
    /// The resolution sent [`MAX_RESOLUTION_QUERIES`] queries without
    /// finishing
    QueryLimitReached,
}

/// What a finished lookup frame does with its result.
pub enum FrameCont {
    /// This is the outermost lookup: its result is the resolution's answer
    Root,
    /// This lookup resolves a nameserver's address for the stored
    /// question, which is then re-asked at that address
    Glue(DnsQuestion),
    /// This lookup chases a CNAME: its result is merged into the stored
    /// reply, which then stands as the result one frame down
    Cname(DnsPacket),
}

/// One pending lookup.
pub struct Frame {
    /// The question this lookup asks
    pub question: DnsQuestion,
    /// What to do with the lookup's result
    pub cont: FrameCont,
}

/// The resolver's whole state: the lookup stack and the remaining query
/// budget.
pub struct ResolverState {
    /// Pending lookups, outermost first
    pub frames: Vec<Frame>,
    /// Upstream queries this resolution may still send
    pub queries_left: u16,
}

/// What the caller must do next.
pub enum ResolverAction {
    /// Send the encoded query to port 53 of the address, then feed the
    /// decoded reply back into the machine together with a freshly drawn
    /// transaction id for the next query
    SendQuery(Ipv4Address, DnsPacket),
    /// Resolution finished with this reply
    Done(DnsPacket),
    /// Resolution failed
    Fail(ResolveError),
}

/// The mathematical value of a frame continuation.
#[verifier::ext_equal]
pub ghost enum ContModel {
    Root,
    Glue(QuestionModel),
    Cname(PacketModel),
}

/// The mathematical value of a frame.
#[verifier::ext_equal]
pub ghost struct FrameModel {
    pub question: QuestionModel,
    pub cont: ContModel,
}

/// The mathematical value of the resolver state.
#[verifier::ext_equal]
pub ghost struct StateModel {
    pub frames: Seq<FrameModel>,
    pub queries_left: u16,
}

/// The mathematical value of an action.
#[verifier::ext_equal]
pub ghost enum ActionModel {
    SendQuery(Ipv4Address, PacketModel),
    Done(PacketModel),
    Fail(ResolveError),
}

impl View for FrameCont {
    type V = ContModel;

    open spec fn view(&self) -> ContModel {
        match self {
            FrameCont::Root => ContModel::Root,
            FrameCont::Glue(q) => ContModel::Glue(q@),
            FrameCont::Cname(p) => ContModel::Cname(p@),
        }
    }
}

impl View for Frame {
    type V = FrameModel;

    open spec fn view(&self) -> FrameModel {
        FrameModel { question: self.question@, cont: self.cont@ }
    }
}

impl DeepView for Frame {
    type V = FrameModel;

    open spec fn deep_view(&self) -> FrameModel {
        self.view()
    }
}

impl View for ResolverState {
    type V = StateModel;

    open spec fn view(&self) -> StateModel {
        StateModel { frames: self.frames.deep_view(), queries_left: self.queries_left }
    }
}

impl View for ResolverAction {
    type V = ActionModel;

    open spec fn view(&self) -> ActionModel {
        match self {
            ResolverAction::SendQuery(ns, q) => ActionModel::SendQuery(*ns, q@),
            ResolverAction::Done(p) => ActionModel::Done(p@),
            ResolverAction::Fail(e) => ActionModel::Fail(*e),
        }
    }
}

/// The outbound query for a question: a fresh message carrying the
/// transaction id the caller drew for this query, a single copy of the
/// question, recursion not desired and every other flag clear.
pub open spec fn spec_build_query(q: QuestionModel, txid: u16) -> PacketModel {
    PacketModel {
        id: txid,
        flags: DnsFlags {
            qr_bit: false,
            opcode: DnsOpcode::Query,
            aa_bit: false,
            tc_bit: false,
            rd_bit: false,
            ra_bit: false,
            ad_bit: false,
            cd_bit: false,
            rcode: DnsRCode::NoError,
        },
        questions: seq![q],
        answers: Seq::empty(),
        nameservers: Seq::empty(),
        addl_recs: Seq::empty(),
    }
}

/// Build the outbound query for a question, under the transaction id the
/// caller drew for it.
pub fn build_query(question: &DnsQuestion, txid: u16) -> (r: DnsPacket)
    ensures
        r@ == spec_build_query(question@, txid),
{
    let flags = DnsFlags {
        qr_bit: false,
        opcode: DnsOpcode::Query,
        aa_bit: false,
        tc_bit: false,
        rd_bit: false,
        ra_bit: false,
        ad_bit: false,
        cd_bit: false,
        rcode: DnsRCode::NoError,
    };
    let mut questions: Vec<DnsQuestion> = Vec::new();
    questions.push(question.duplicate());
    let r = DnsPacket {
        id: txid,
        flags,
        questions,
        answers: Vec::new(),
        nameservers: Vec::new(),
        addl_recs: Vec::new(),
    };
    proof {
        assert(r@.questions =~= seq![question@]);
        assert(r@ =~= spec_build_query(question@, txid));
    }
    r
}

/// The first NS record of the authority section, if any.  Servers often
/// randomize NS order, so taking the first is as good as any.
pub open spec fn find_first_ns(records: Seq<RecordModel>) -> Option<RecordModel>
    decreases records.len(),
{
    if records.len() == 0 {
        None
    } else if records[0].rr_type is NS {
        Some(records[0])
    } else {
        find_first_ns(records.drop_first())
    }
}

/// The address of the first A record named like the nameserver, if any:
/// the glue record for that nameserver.
pub open spec fn find_glue(ns_name: Seq<Seq<u8>>, records: Seq<RecordModel>) -> Option<Ipv4Address>
    decreases records.len(),
{
    if records.len() == 0 {
        None
    } else if records[0].name == ns_name && records[0].record is A {
        Some(records[0].record->A_0)
    } else {
        find_glue(ns_name, records.drop_first())
    }
}

/// The address of the first A record of the section, if any.
pub open spec fn find_first_a(records: Seq<RecordModel>) -> Option<Ipv4Address>
    decreases records.len(),
{
    if records.len() == 0 {
        None
    } else if records[0].rr_type is A && records[0].record is A {
        Some(records[0].record->A_0)
    } else {
        find_first_a(records.drop_first())
    }
}

/// A CNAME reply merged with the reply for its target: the original id,
/// flags and question with the sections' concatenation.
pub open spec fn merge_packets(base: PacketModel, reply: PacketModel) -> PacketModel {
    PacketModel {
        id: base.id,
        flags: base.flags,
        questions: base.questions,
        answers: base.answers + reply.answers,
        nameservers: base.nameservers + reply.nameservers,
        addl_recs: base.addl_recs + reply.addl_recs,
    }
}

/// Hand a finished lookup's result down the stack.  The top frame's
/// continuation decides: the outermost lookup is done; a glue lookup takes
/// the first A answer as the nameserver's address and re-asks the waiting
/// question there, failing without one; a CNAME lookup merges the result
/// into the stored reply, which then stands as the result one frame down.
pub open spec fn spec_deliver(frames: Seq<FrameModel>, result: PacketModel, txid: u16) -> (
    Seq<FrameModel>,
    ActionModel,
)
    decreases frames.len(),
{
    if frames.len() == 0 {
        (frames, ActionModel::Done(result))
    } else {
        let f = frames.last();
        let fs = frames.drop_last();
        match f.cont {
            ContModel::Root => (fs, ActionModel::Done(result)),
            ContModel::Glue(parent_q) => match find_first_a(result.answers) {
                Some(ip) => (fs, ActionModel::SendQuery(ip, spec_build_query(parent_q, txid))),
                None => (fs, ActionModel::Fail(ResolveError::NoAddressForNameserver)),
            },
            ContModel::Cname(base) => spec_deliver(fs, merge_packets(base, result), txid),
        }
    }
}

/// Classify an upstream reply for the top lookup and produce the next
/// stack and action.
///
/// NXDomain is an authoritative answer and is handed down unchanged; any
/// other nonzero rcode fails the resolution.  A reply with answers is
/// handed down, except that a single CNAME answer opens a chase of its
/// target with the same type and class.  A reply without answers is a
/// referral: the first NS record of the authority section names the next
/// server, whose address comes from a glue A record if the additional
/// section has one and from a fresh lookup of the nameserver's name if
/// not.  Pushing a lookup past [`MAX_RESOLUTION_DEPTH`] frames fails
/// instead, bounding in-bailiwick referral loops and alias chains.
pub open spec fn spec_transition(frames: Seq<FrameModel>, reply: PacketModel, txid: u16) -> (
    Seq<FrameModel>,
    ActionModel,
)
    recommends
        frames.len() > 0,
{
    let top = frames.last();
    if reply.flags.rcode is NXDomain {
        spec_deliver(frames, reply, txid)
    } else if !(reply.flags.rcode is NoError) {
        (frames, ActionModel::Fail(ResolveError::NonZeroRcode))
    } else if reply.answers.len() > 0 {
        if reply.answers.len() == 1 && reply.answers[0].record is CNAME {
            if frames.len() >= MAX_RESOLUTION_DEPTH {
                (frames, ActionModel::Fail(ResolveError::DepthLimitReached))
            } else {
                let q = QuestionModel {
                    qname: reply.answers[0].record->CNAME_0,
                    qtype: top.question.qtype,
                    qclass: top.question.qclass,
                };
                (
                    frames.push(FrameModel { question: q, cont: ContModel::Cname(reply) }),
                    ActionModel::SendQuery(root_nameserver(), spec_build_query(q, txid)),
                )
            }
        } else {
            spec_deliver(frames, reply, txid)
        }
    } else {
        match find_first_ns(reply.nameservers) {
            None => (frames, ActionModel::Fail(ResolveError::NoNameserverRecords)),
            Some(nsrr) => match nsrr.record {
                RDataModel::NS(ns_name) => match find_glue(ns_name, reply.addl_recs) {
                    Some(ip) => (
                        frames,
                        ActionModel::SendQuery(ip, spec_build_query(top.question, txid)),
                    ),
                    None => if frames.len() >= MAX_RESOLUTION_DEPTH {
                        (frames, ActionModel::Fail(ResolveError::DepthLimitReached))
                    } else {
                        let q = QuestionModel {
                            qname: ns_name,
                            qtype: DnsRRType::A,
                            qclass: DnsClass::IN,
                        };
                        (
                            frames.push(
                                FrameModel { question: q, cont: ContModel::Glue(top.question) },
                            ),
                            ActionModel::SendQuery(root_nameserver(), spec_build_query(q, txid)),
                        )
                    },
                },
                _ => (frames, ActionModel::Fail(ResolveError::MalformedNsRecord)),
            },
        }
    }
}

/// One whole step of the machine: classify the reply, then charge any
/// outgoing query against the budget, failing once
/// [`MAX_RESOLUTION_QUERIES`] queries have been sent.  `txid` is the
/// transaction id the caller drew for whatever query this step sends.
pub open spec fn spec_step(s: StateModel, reply: PacketModel, txid: u16) -> (StateModel, ActionModel) {
    let (frames, action) = spec_transition(s.frames, reply, txid);
    if action is SendQuery {
        if s.queries_left == 0 {
            (
                StateModel { frames, queries_left: 0 },
                ActionModel::Fail(ResolveError::QueryLimitReached),
            )
        } else {
            (StateModel { frames, queries_left: (s.queries_left - 1) as u16 }, action)
        }
    } else {
        (StateModel { frames, queries_left: s.queries_left }, action)
    }
}

/// A fresh resolution of a question: a single outermost lookup, a full
/// query budget less the opening query, and that query aimed at the root
/// under the transaction id the caller drew for it.
pub open spec fn spec_start(q: QuestionModel, txid: u16) -> (StateModel, ActionModel) {
    (
        StateModel {
            frames: seq![FrameModel { question: q, cont: ContModel::Root }],
            queries_left: (MAX_RESOLUTION_QUERIES - 1) as u16,
        },
        ActionModel::SendQuery(root_nameserver(), spec_build_query(q, txid)),
    )
}

/// Every query the stack hands out while delivering a result is the
/// plain query for some question under the caller's transaction id: a
/// single question, recursion not desired and every other flag clear.
pub proof fn lemma_deliver_queries_plain(frames: Seq<FrameModel>, result: PacketModel, txid: u16)
    ensures
        spec_deliver(frames, result, txid).1 matches ActionModel::SendQuery(ns, q) ==> q
            == spec_build_query(q.questions[0], txid),
    decreases frames.len(),
{
    if frames.len() > 0 {
        match frames.last().cont {
            ContModel::Cname(base) => {
                lemma_deliver_queries_plain(frames.drop_last(), merge_packets(base, result), txid);
            },
            _ => {},
        }
    }
}

/// Every query the machine asks to send is the plain query for some
/// question under the transaction id the caller drew for that query:
/// upstream servers always see a single unmodified question, a fresh id,
/// recursion not desired and every other flag clear.
pub proof fn lemma_step_queries_plain(s: StateModel, reply: PacketModel, txid: u16)
    ensures
        spec_step(s, reply, txid).1 matches ActionModel::SendQuery(ns, q) ==> q
            == spec_build_query(q.questions[0], txid),
{
    if reply.flags.rcode is NXDomain {
        lemma_deliver_queries_plain(s.frames, reply, txid);
    } else if reply.flags.rcode is NoError && reply.answers.len() > 0 && !(reply.answers.len() == 1
        && reply.answers[0].record is CNAME) {
        lemma_deliver_queries_plain(s.frames, reply, txid);
    }
}

/// Find the index of the first NS record of the section, if any.
fn find_first_ns_index(records: &Vec<DnsResourceRecord>) -> (r: Option<usize>)
    ensures
        match r {
            Some(i) => i < records@.len() && find_first_ns(records.deep_view()) == Some(
                records.deep_view()[i as int],
            ),
            None => find_first_ns(records.deep_view()) is None,
        },
{
    let ghost dv = records.deep_view();
    proof {
        assert(dv.skip(0) =~= dv);
    }
    let mut i: usize = 0;
    while i < records.len()
        invariant
            i <= records@.len(),
            dv == records.deep_view(),
            dv.len() == records@.len(),
            find_first_ns(dv) == find_first_ns(dv.skip(i as int)),
        decreases records@.len() - i,
    {
        proof {
            assert(dv[i as int] == records@[i as int].deep_view());
            assert(dv.skip(i as int).len() > 0);
            assert(dv.skip(i as int)[0] == dv[i as int]);
        }
        if records[i].rr_type == DnsRRType::NS {
            return Some(i);
        }
        proof {
            assert(dv.skip(i as int).drop_first() =~= dv.skip(i as int + 1));
        }
        i += 1;
    }
    proof {
        assert(dv.skip(dv.len() as int) =~= Seq::<RecordModel>::empty());
    }
    None
}

/// Scan the additional section for a glue record: an A record named like
/// the chosen nameserver.
pub fn find_glue_record_for_ns(ns_name: &Vec<Vec<u8>>, records: &Vec<DnsResourceRecord>) -> (r:
    Option<Ipv4Address>)
    ensures
        r == find_glue(ns_name.deep_view(), records.deep_view()),
{
    let ghost dv = records.deep_view();
    let ghost dn = ns_name.deep_view();
    proof {
        assert(dv.skip(0) =~= dv);
    }
    let mut i: usize = 0;
    while i < records.len()
        invariant
            i <= records@.len(),
            dv == records.deep_view(),
            dn == ns_name.deep_view(),
            dv.len() == records@.len(),
            find_glue(dn, dv) == find_glue(dn, dv.skip(i as int)),
        decreases records@.len() - i,
    {
        proof {
            assert(dv[i as int] == records@[i as int].deep_view());
            assert(dv.skip(i as int).len() > 0);
            assert(dv.skip(i as int)[0] == dv[i as int]);
        }
        let name_matches = names::names_equal(&records[i].name, ns_name);
        if name_matches {
            match &records[i].record {
                DnsRecordData::A(ip) => {
                    return Some(*ip);
                },
                _ => {},
            }
        }
        proof {
            assert(dv.skip(i as int).drop_first() =~= dv.skip(i as int + 1));
        }
        i += 1;
    }
    proof {
        assert(dv.skip(dv.len() as int) =~= Seq::<RecordModel>::empty());
    }
    None
}

/// Find the address of the first A record of the section, if any.
fn find_first_a_address(records: &Vec<DnsResourceRecord>) -> (r: Option<Ipv4Address>)
    ensures
        r == find_first_a(records.deep_view()),
{
    let ghost dv = records.deep_view();
    proof {
        assert(dv.skip(0) =~= dv);
    }
    let mut i: usize = 0;
    while i < records.len()
        invariant
            i <= records@.len(),
            dv == records.deep_view(),
            dv.len() == records@.len(),
            find_first_a(dv) == find_first_a(dv.skip(i as int)),
        decreases records@.len() - i,
    {
        proof {
            assert(dv[i as int] == records@[i as int].deep_view());
            assert(dv.skip(i as int).len() > 0);
            assert(dv.skip(i as int)[0] == dv[i as int]);
        }
        if records[i].rr_type == DnsRRType::A {
            match &records[i].record {
                DnsRecordData::A(ip) => {
                    return Some(*ip);
                },
                _ => {},
            }
        }
        proof {
            assert(dv.skip(i as int).drop_first() =~= dv.skip(i as int + 1));
        }
        i += 1;
    }
    proof {
        assert(dv.skip(dv.len() as int) =~= Seq::<RecordModel>::empty());
    }
    None
}

/// Merge the reply for a CNAME target into the reply that carried the
/// CNAME: answers, authority records and additional records are appended;
/// the id, flags and question stay those of the original reply.
fn merge_replies(base: DnsPacket, reply: DnsPacket) -> (r: DnsPacket)
    ensures
        r@ == merge_packets(base@, reply@),
{
    let ghost bm = base@;
    let ghost rm = reply@;
    let mut base = base;
    let mut reply = reply;
    base.answers.append(&mut reply.answers);
    base.nameservers.append(&mut reply.nameservers);
    base.addl_recs.append(&mut reply.addl_recs);
    proof {
        assert(base.answers.deep_view() =~= bm.answers + rm.answers);
        assert(base.nameservers.deep_view() =~= bm.nameservers + rm.nameservers);
        assert(base.addl_recs.deep_view() =~= bm.addl_recs + rm.addl_recs);
        assert(base@ =~= merge_packets(bm, rm));
    }
    base
}

/// Hand a finished lookup's result down the stack; see [`spec_deliver`].
fn deliver_frames(frames: &mut Vec<Frame>, result: DnsPacket, txid: u16) -> (a: ResolverAction)
    ensures
        final(frames).deep_view() == spec_deliver(old(frames).deep_view(), result@, txid).0,
        a@ == spec_deliver(old(frames).deep_view(), result@, txid).1,
    decreases old(frames)@.len(),
{
    let ghost frames_before = frames.deep_view();
    match frames.pop() {
        None => {
            proof {
                assert(frames_before.len() == 0);
                assert(frames.deep_view() =~= frames_before);
            }
            ResolverAction::Done(result)
        },
        Some(f) => {
            proof {
                assert(f@ == frames_before.last());
                assert(frames.deep_view() =~= frames_before.drop_last());
            }
            match f.cont {
                FrameCont::Root => ResolverAction::Done(result),
                FrameCont::Glue(parent_q) => {
                    match find_first_a_address(&result.answers) {
                        Some(ip) => ResolverAction::SendQuery(ip, build_query(&parent_q, txid)),
                        None => ResolverAction::Fail(ResolveError::NoAddressForNameserver),
                    }
                },
                FrameCont::Cname(base) => {
                    let merged = merge_replies(base, result);
                    deliver_frames(frames, merged, txid)
                },
            }
        },
    }
}

impl ResolverState {
    /// Open the resolution of a question.  The returned action is the
    /// opening query, aimed at the root nameserver and carrying the
    /// transaction id the caller drew for it.
    pub fn start(question: DnsQuestion, txid: u16) -> (r: (ResolverState, ResolverAction))
        ensures
            r.0@ == spec_start(question@, txid).0,
            r.1@ == spec_start(question@, txid).1,
    {
        let query = build_query(&question, txid);
        let mut frames: Vec<Frame> = Vec::new();
        frames.push(Frame { question, cont: FrameCont::Root });
        let state = ResolverState { frames, queries_left: MAX_RESOLUTION_QUERIES - 1 };
        proof {
            assert(state@.frames =~= spec_start(state.frames@[0].question@, txid).0.frames);
        }
        (state, ResolverAction::SendQuery(get_root_nameserver(), query))
    }

    /// Hand a finished lookup's result down the stack; see
    /// [`spec_deliver`].
    fn deliver(&mut self, result: DnsPacket, txid: u16) -> (a: ResolverAction)
        ensures
            final(self)@.frames == spec_deliver(old(self)@.frames, result@, txid).0,
            final(self)@.queries_left == old(self)@.queries_left,
            a@ == spec_deliver(old(self)@.frames, result@, txid).1,
    {
        deliver_frames(&mut self.frames, result, txid)
    }

    /// Classify a reply for the top lookup; see [`spec_transition`].
    fn transition(&mut self, reply: DnsPacket, txid: u16) -> (a: ResolverAction)
        requires
            old(self)@.frames.len() >= 1,
        ensures
            final(self)@.frames == spec_transition(old(self)@.frames, reply@, txid).0,
            final(self)@.queries_left == old(self)@.queries_left,
            a@ == spec_transition(old(self)@.frames, reply@, txid).1,
    {
        let ghost frames0 = self@.frames;
        if reply.flags.rcode == DnsRCode::NXDomain {
            return self.deliver(reply, txid);
        }
        if reply.flags.rcode != DnsRCode::NoError {
            return ResolverAction::Fail(ResolveError::NonZeroRcode);
        }
        if reply.answers.len() > 0 {
            proof {
                assert(reply@.answers[0] == reply.answers@[0].deep_view());
            }
            let single_cname = reply.answers.len() == 1 && (match &reply.answers[0].record {
                DnsRecordData::CNAME(_) => true,
                _ => false,
            });
            if single_cname {
                if self.frames.len() >= MAX_RESOLUTION_DEPTH {
                    return ResolverAction::Fail(ResolveError::DepthLimitReached);
                }
                let top_idx = self.frames.len() - 1;
                proof {
                    assert(self.frames@[top_idx as int].deep_view() == frames0.last());
                }
                let qtype = self.frames[top_idx].question.qtype;
                let qclass = self.frames[top_idx].question.qclass;
                let target = match &reply.answers[0].record {
                    DnsRecordData::CNAME(name) => names::clone_name(name),
                    _ => {
                        proof {
                            assert(false);
                        }
                        Vec::new()
                    },
                };
                let q = DnsQuestion { qname: target, qtype, qclass };
                let query = build_query(&q, txid);
                let ghost qm = q@;
                self.frames.push(Frame { question: q, cont: FrameCont::Cname(reply) });
                proof {
                    assert(self.frames.deep_view() =~= frames0.push(
                        FrameModel { question: qm, cont: ContModel::Cname(reply@) },
                    ));
                }
                return ResolverAction::SendQuery(get_root_nameserver(), query);
            }
            return self.deliver(reply, txid);
        }
        match find_first_ns_index(&reply.nameservers) {
            None => ResolverAction::Fail(ResolveError::NoNameserverRecords),
            Some(i) => {
                proof {
                    assert(reply@.nameservers[i as int] == reply.nameservers@[i as int].deep_view());
                }
                match &reply.nameservers[i].record {
                    DnsRecordData::NS(ns_name) => {
                        match find_glue_record_for_ns(ns_name, &reply.addl_recs) {
                            Some(ip) => {
                                let top_idx = self.frames.len() - 1;
                                proof {
                                    assert(self.frames@[top_idx as int].deep_view()
                                        == frames0.last());
                                }
                                let query = build_query(&self.frames[top_idx].question, txid);
                                ResolverAction::SendQuery(ip, query)
                            },
                            None => {
                                if self.frames.len() >= MAX_RESOLUTION_DEPTH {
                                    return ResolverAction::Fail(ResolveError::DepthLimitReached);
                                }
                                let ns_q = DnsQuestion {
                                    qname: names::clone_name(ns_name),
                                    qtype: DnsRRType::A,
                                    qclass: DnsClass::IN,
                                };
                                let top_idx = self.frames.len() - 1;
                                proof {
                                    assert(self.frames@[top_idx as int].deep_view()
                                        == frames0.last());
                                }
                                let parent_q = self.frames[top_idx].question.duplicate();
                                let query = build_query(&ns_q, txid);
                                let ghost qm = ns_q@;
                                self.frames.push(
                                    Frame { question: ns_q, cont: FrameCont::Glue(parent_q) },
                                );
                                proof {
                                    assert(self.frames.deep_view() =~= frames0.push(
                                        FrameModel {
                                            question: qm,
                                            cont: ContModel::Glue(frames0.last().question),
                                        },
                                    ));
                                }
                                ResolverAction::SendQuery(get_root_nameserver(), query)
                            },
                        }
                    },
                    _ => ResolverAction::Fail(ResolveError::MalformedNsRecord),
                }
            },
        }
    }

    /// Feed an upstream reply into the machine and get the next action,
    /// handing in a freshly drawn transaction id for whatever query the
    /// step sends; see [`spec_step`].
    pub fn step(&mut self, reply: DnsPacket, txid: u16) -> (a: ResolverAction)
        requires
            old(self)@.frames.len() >= 1,
        ensures
            final(self)@ == spec_step(old(self)@, reply@, txid).0,
            a@ == spec_step(old(self)@, reply@, txid).1,
    {
        let action = self.transition(reply, txid);
        let is_send = match &action {
            ResolverAction::SendQuery(_, _) => true,
            _ => false,
        };
        if is_send {
            if self.queries_left == 0 {
                return ResolverAction::Fail(ResolveError::QueryLimitReached);
            }
            self.queries_left = self.queries_left - 1;
        }
        action
    }
}

} // verus!
