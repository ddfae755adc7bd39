use dns_resolver::class::DnsClass;
use dns_resolver::flags::DnsFlags;
use dns_resolver::ip::Ipv4Address;
use dns_resolver::opcode::DnsOpcode;
use dns_resolver::packet::DnsPacket;
use dns_resolver::question::DnsQuestion;
use dns_resolver::rcode::DnsRCode;
use dns_resolver::rdata::DnsRecordData;
use dns_resolver::resolver::{
    get_root_nameserver, ResolveError, ResolverAction, ResolverState,
};
use dns_resolver::rr::DnsResourceRecord;
use dns_resolver::rrtype::DnsRRType;
use dns_resolver::server::{classify_request, finalize_response, RequestDisposition};

fn question(name: &[&str]) -> DnsQuestion {
    DnsQuestion {
        qname: name.iter().map(|l| l.as_bytes().to_vec()).collect(),
        qtype: DnsRRType::A,
        qclass: DnsClass::IN,
    }
}

fn response_flags(rcode: DnsRCode) -> DnsFlags {
    DnsFlags {
        qr_bit: true,
        opcode: DnsOpcode::Query,
        aa_bit: false,
        tc_bit: false,
        rd_bit: false,
        ra_bit: false,
        ad_bit: false,
        cd_bit: false,
        rcode,
    }
}

fn reply(rcode: DnsRCode, questions: Vec<DnsQuestion>) -> DnsPacket {
    // The id an upstream server would echo; arbitrary for these tests
    DnsPacket {
        id: 777,
        flags: response_flags(rcode),
        questions,
        answers: Vec::new(),
        nameservers: Vec::new(),
        addl_recs: Vec::new(),
    }
}

fn a_record(name: &[&str], ip: Ipv4Address) -> DnsResourceRecord {
    DnsResourceRecord {
        name: name.iter().map(|l| l.as_bytes().to_vec()).collect(),
        rr_type: DnsRRType::A,
        class: DnsClass::IN,
        ttl: 60,
        record: DnsRecordData::A(ip),
    }
}

fn ns_record(zone: &[&str], target: &[&str]) -> DnsResourceRecord {
    DnsResourceRecord {
        name: zone.iter().map(|l| l.as_bytes().to_vec()).collect(),
        rr_type: DnsRRType::NS,
        class: DnsClass::IN,
        ttl: 60,
        record: DnsRecordData::NS(target.iter().map(|l| l.as_bytes().to_vec()).collect()),
    }
}

fn cname_record(name: &[&str], target: &[&str]) -> DnsResourceRecord {
    DnsResourceRecord {
        name: name.iter().map(|l| l.as_bytes().to_vec()).collect(),
        rr_type: DnsRRType::CNAME,
        class: DnsClass::IN,
        ttl: 60,
        record: DnsRecordData::CNAME(target.iter().map(|l| l.as_bytes().to_vec()).collect()),
    }
}

#[test]
fn root_nameserver_hint_is_e_root() {
    assert_eq!(Ipv4Address::new(192, 203, 230, 10), get_root_nameserver());
}

#[test]
fn start_queries_the_root_with_the_question() {
    let q = question(&["example", "com"]);
    let (_state, action) = ResolverState::start(q.clone(), 0x7A3B);
    match action {
        ResolverAction::SendQuery(ns, query) => {
            assert_eq!(get_root_nameserver(), ns);
            assert_eq!(vec![q], query.questions);
            // The query carries the caller's freshly drawn transaction id
            assert_eq!(0x7A3B, query.id);
            assert!(!query.flags.qr_bit);
            assert!(!query.flags.rd_bit);
            assert!(query.answers.is_empty());
        }
        _ => panic!("expected a query to be sent"),
    }
}

#[test]
fn nxdomain_reply_is_returned_verbatim() {
    let q = question(&["nonexistent", "test"]);
    let (mut state, _action) = ResolverState::start(q.clone(), 101);
    let mut nx = reply(DnsRCode::NXDomain, vec![q]);
    nx.flags.aa_bit = true;
    let action = state.step(nx.clone(), 102);
    match action {
        ResolverAction::Done(result) => assert_eq!(nx, result),
        _ => panic!("expected the NXDomain reply to be the result"),
    }
}

#[test]
fn answer_reply_is_returned_as_is() {
    let q = question(&["example", "com"]);
    let (mut state, _action) = ResolverState::start(q.clone(), 101);
    let mut answered = reply(DnsRCode::NoError, vec![q]);
    answered
        .answers
        .push(a_record(&["example", "com"], Ipv4Address::new(93, 184, 216, 34)));
    let action = state.step(answered.clone(), 102);
    match action {
        ResolverAction::Done(result) => assert_eq!(answered, result),
        _ => panic!("expected the answer to be the result"),
    }
}

#[test]
fn servfail_reply_fails_resolution() {
    let q = question(&["example", "com"]);
    let (mut state, _action) = ResolverState::start(q.clone(), 101);
    let action = state.step(reply(DnsRCode::ServFail, vec![q]), 102);
    match action {
        ResolverAction::Fail(e) => assert_eq!(ResolveError::NonZeroRcode, e),
        _ => panic!("expected a failure"),
    }
}

#[test]
fn reply_without_answers_or_nameservers_fails() {
    let q = question(&["example", "com"]);
    let (mut state, _action) = ResolverState::start(q.clone(), 101);
    let action = state.step(reply(DnsRCode::NoError, vec![q]), 102);
    match action {
        ResolverAction::Fail(e) => assert_eq!(ResolveError::NoNameserverRecords, e),
        _ => panic!("expected a failure"),
    }
}

#[test]
fn referral_with_glue_requeries_the_glue_address() {
    let q = question(&["example", "com"]);
    let (mut state, _action) = ResolverState::start(q.clone(), 101);
    let mut referral = reply(DnsRCode::NoError, vec![q.clone()]);
    referral.nameservers.push(ns_record(&["com"], &["ns1", "nic", "com"]));
    let glue_ip = Ipv4Address::new(10, 0, 0, 53);
    referral.addl_recs.push(a_record(&["ns1", "nic", "com"], glue_ip));
    let action = state.step(referral, 102);
    match action {
        ResolverAction::SendQuery(ns, query) => {
            assert_eq!(glue_ip, ns);
            assert_eq!(vec![q], query.questions);
        }
        _ => panic!("expected the question to be re-asked at the glue address"),
    }
}

#[test]
fn glueless_referral_resolves_the_nameserver_first() {
    let q = question(&["example", "com"]);
    let (mut state, _action) = ResolverState::start(q.clone(), 101);
    let mut referral = reply(DnsRCode::NoError, vec![q.clone()]);
    referral.nameservers.push(ns_record(&["com"], &["ns1", "nic", "net"]));
    let action = state.step(referral, 102);
    match action {
        ResolverAction::SendQuery(ns, query) => {
            assert_eq!(get_root_nameserver(), ns);
            assert_eq!(1, query.questions.len());
            assert_eq!(question(&["ns1", "nic", "net"]), query.questions[0]);
            assert_eq!(102, query.id);
        }
        _ => panic!("expected a lookup of the nameserver's name"),
    }

    // The nameserver lookup answers; the original question goes to its
    // address next
    let ns_ip = Ipv4Address::new(10, 1, 2, 3);
    let mut ns_answer = reply(DnsRCode::NoError, vec![question(&["ns1", "nic", "net"])]);
    ns_answer.answers.push(a_record(&["ns1", "nic", "net"], ns_ip));
    let action = state.step(ns_answer, 103);
    match action {
        ResolverAction::SendQuery(ns, query) => {
            assert_eq!(ns_ip, ns);
            assert_eq!(vec![q], query.questions);
            // Each query carries the id freshly drawn for it
            assert_eq!(103, query.id);
        }
        _ => panic!("expected the original question re-asked at the resolved address"),
    }
}

#[test]
fn nameserver_lookup_without_a_record_fails() {
    let q = question(&["example", "com"]);
    let (mut state, _action) = ResolverState::start(q.clone(), 101);
    let mut referral = reply(DnsRCode::NoError, vec![q.clone()]);
    referral.nameservers.push(ns_record(&["com"], &["ns1", "nic", "net"]));
    let _ = state.step(referral, 102);
    // NXDomain for the nameserver's name: no address to continue with
    let nx = reply(DnsRCode::NXDomain, vec![question(&["ns1", "nic", "net"])]);
    let action = state.step(nx, 103);
    match action {
        ResolverAction::Fail(e) => assert_eq!(ResolveError::NoAddressForNameserver, e),
        _ => panic!("expected a failure"),
    }
}

#[test]
fn ns_record_with_wrong_payload_fails() {
    let q = question(&["example", "com"]);
    let (mut state, _action) = ResolverState::start(q.clone(), 101);
    let mut referral = reply(DnsRCode::NoError, vec![q]);
    referral.nameservers.push(DnsResourceRecord {
        name: vec![b"com".to_vec()],
        rr_type: DnsRRType::NS,
        class: DnsClass::IN,
        ttl: 60,
        record: DnsRecordData::Other(vec![1, 2, 3]),
    });
    let action = state.step(referral, 102);
    match action {
        ResolverAction::Fail(e) => assert_eq!(ResolveError::MalformedNsRecord, e),
        _ => panic!("expected a failure"),
    }
}

#[test]
fn cname_chase_merges_both_answers() {
    let q = question(&["alias", "test"]);
    let (mut state, _action) = ResolverState::start(q.clone(), 101);

    // Nameserver A answers with a single CNAME alias.test. -> target.test.
    let mut cname_reply = reply(DnsRCode::NoError, vec![q.clone()]);
    cname_reply.answers.push(cname_record(&["alias", "test"], &["target", "test"]));
    let action = state.step(cname_reply.clone(), 102);
    match &action {
        ResolverAction::SendQuery(ns, query) => {
            assert_eq!(get_root_nameserver(), *ns);
            assert_eq!(1, query.questions.len());
            assert_eq!(question(&["target", "test"]), query.questions[0]);
            assert_eq!(102, query.id);
        }
        _ => panic!("expected the CNAME target to be chased"),
    }

    // Nameserver B answers the target's A record
    let target_ip = Ipv4Address::new(10, 0, 0, 1);
    let mut target_reply = reply(DnsRCode::NoError, vec![question(&["target", "test"])]);
    target_reply.answers.push(a_record(&["target", "test"], target_ip));
    let action = state.step(target_reply, 103);
    match action {
        ResolverAction::Done(result) => {
            // Both the CNAME and the A record are in the final answer
            // section, and the original question is preserved
            assert_eq!(2, result.answers.len());
            assert_eq!(cname_record(&["alias", "test"], &["target", "test"]), result.answers[0]);
            assert_eq!(a_record(&["target", "test"], target_ip), result.answers[1]);
            assert_eq!(vec![q], result.questions);
        }
        _ => panic!("expected a merged final reply"),
    }
}

#[test]
fn endless_cname_chain_is_bounded() {
    let q = question(&["alias", "test"]);
    let (mut state, _action) = ResolverState::start(q.clone(), 101);
    let mut failed = false;
    for _ in 0..100 {
        let mut cname_reply = reply(DnsRCode::NoError, vec![q.clone()]);
        cname_reply.answers.push(cname_record(&["alias", "test"], &["alias", "test"]));
        match state.step(cname_reply, 5) {
            ResolverAction::SendQuery(_, _) => {}
            ResolverAction::Fail(e) => {
                assert_eq!(ResolveError::DepthLimitReached, e);
                failed = true;
                break;
            }
            ResolverAction::Done(_) => panic!("a CNAME loop must not resolve"),
        }
    }
    assert!(failed, "the resolver must bound CNAME chains");
}

#[test]
fn endless_referral_loop_is_bounded() {
    let q = question(&["example", "com"]);
    let (mut state, _action) = ResolverState::start(q.clone(), 101);
    let glue_ip = Ipv4Address::new(10, 0, 0, 53);
    let mut failed = false;
    for _ in 0..100 {
        // The same referral over and over: progress never happens
        let mut referral = reply(DnsRCode::NoError, vec![q.clone()]);
        referral.nameservers.push(ns_record(&["com"], &["ns1", "nic", "com"]));
        referral.addl_recs.push(a_record(&["ns1", "nic", "com"], glue_ip));
        match state.step(referral, 5) {
            ResolverAction::SendQuery(_, _) => {}
            ResolverAction::Fail(e) => {
                assert_eq!(ResolveError::QueryLimitReached, e);
                failed = true;
                break;
            }
            ResolverAction::Done(_) => panic!("a referral loop must not resolve"),
        }
    }
    assert!(failed, "the resolver must bound its query count");
}

#[test]
fn classify_accepts_a_single_question() {
    let q = question(&["example", "com"]);
    let packet = DnsPacket {
        id: 77,
        flags: DnsFlags {
            qr_bit: false,
            opcode: DnsOpcode::Query,
            aa_bit: false,
            tc_bit: false,
            rd_bit: true,
            ra_bit: false,
            ad_bit: false,
            cd_bit: false,
            rcode: DnsRCode::NoError,
        },
        questions: vec![q.clone()],
        answers: Vec::new(),
        nameservers: Vec::new(),
        addl_recs: Vec::new(),
    };
    let bytes = packet.to_bytes();
    match classify_request(&bytes) {
        RequestDisposition::Resolve(got_q, id) => {
            assert_eq!(q, got_q);
            assert_eq!(77, id);
        }
        _ => panic!("expected the question to be resolved"),
    }
}

#[test]
fn classify_drops_a_two_question_packet() {
    let q = question(&["example", "com"]);
    let packet = DnsPacket {
        id: 77,
        flags: response_flags(DnsRCode::NoError),
        questions: vec![q.clone(), q],
        answers: Vec::new(),
        nameservers: Vec::new(),
        addl_recs: Vec::new(),
    };
    let bytes = packet.to_bytes();
    assert!(matches!(classify_request(&bytes), RequestDisposition::Drop));
}

#[test]
fn classify_drops_a_short_datagram() {
    let bytes = [0u8; 5];
    assert!(matches!(classify_request(&bytes), RequestDisposition::Drop));
}

#[test]
fn classify_answers_formerr_for_a_malformed_body() {
    let bytes = [
        0x00u8, 0x2A, 0x11, 0x20, 0x00, 0x01, 0x00, 0x00, 0x00, 0x00, 0x00, 0x00, 0x00,
    ];
    match classify_request(&bytes) {
        RequestDisposition::RespondFormErr(response) => {
            assert_eq!(0x002A, response.id);
            assert!(response.flags.qr_bit);
            assert_eq!(DnsRCode::FormError, response.flags.rcode);
            assert!(response.questions.is_empty());
            assert!(response.answers.is_empty());
        }
        _ => panic!("expected a FormErr reply"),
    }
}

#[test]
fn finalize_sets_client_id_and_ra_bit() {
    let q = question(&["nonexistent", "test"]);
    let (mut state, _action) = ResolverState::start(q.clone(), 101);
    let nx = reply(DnsRCode::NXDomain, vec![q]);
    let mut result = match state.step(nx.clone(), 102) {
        ResolverAction::Done(result) => result,
        _ => panic!("expected the NXDomain reply to be the result"),
    };
    finalize_response(&mut result, 0x1234);
    assert_eq!(0x1234, result.id);
    assert!(result.flags.ra_bit);
    // Everything else of the upstream reply is untouched
    assert_eq!(nx.flags.rcode, result.flags.rcode);
    assert_eq!(nx.questions, result.questions);
}
