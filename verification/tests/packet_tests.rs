use dns_resolver::bigendians::{from_u16, to_u16};
use dns_resolver::class::DnsClass;
use dns_resolver::flags::DnsFlags;
use dns_resolver::ip::{Ipv4Address, Ipv6Address};
use dns_resolver::opcode::DnsOpcode;
use dns_resolver::packet::{not_imp_answer_from_query, DnsPacket};
use dns_resolver::question::DnsQuestion;
use dns_resolver::rcode::DnsRCode;
use dns_resolver::rdata::DnsRecordData;
use dns_resolver::rr::DnsResourceRecord;
use dns_resolver::rrtype::DnsRRType;

fn query_flags() -> DnsFlags {
    DnsFlags {
        qr_bit: false,
        opcode: DnsOpcode::Query,
        aa_bit: false,
        tc_bit: false,
        rd_bit: false,
        ra_bit: false,
        ad_bit: false,
        cd_bit: false,
        rcode: DnsRCode::NoError,
    }
}

#[test]
fn header_only_hex_round_trip() {
    // id=42, flags qr=0 opcode=Query rd=1 ad=1, one question expected
    let bytes = [
        0x00u8, 0x2A, 0x01, 0x20, 0x00, 0x01, 0x00, 0x00, 0x00, 0x00, 0x00, 0x00,
    ];
    assert_eq!(42, to_u16(&bytes[0..2]));
    let flags = DnsFlags::from_bytes(&bytes[2..4]).expect("Unexpected error");
    let expected = DnsFlags {
        qr_bit: false,
        opcode: DnsOpcode::Query,
        aa_bit: false,
        tc_bit: false,
        rd_bit: true,
        ra_bit: false,
        ad_bit: true,
        cd_bit: false,
        rcode: DnsRCode::NoError,
    };
    assert_eq!(expected, flags);
    assert_eq!(1, to_u16(&bytes[4..6]));
    assert_eq!(0, to_u16(&bytes[6..8]));

    // Re-encoding the parsed header yields the same 12 bytes
    let mut reencoded = Vec::new();
    reencoded.extend_from_slice(&from_u16(42));
    reencoded.extend_from_slice(&flags.to_bytes());
    reencoded.extend_from_slice(&from_u16(1));
    reencoded.extend_from_slice(&from_u16(0));
    reencoded.extend_from_slice(&from_u16(0));
    reencoded.extend_from_slice(&from_u16(0));
    assert_eq!(&bytes[..], &reencoded[..]);
}

#[test]
fn short_packet_fails_without_response() {
    // Eleven bytes: one short of a header
    let bytes = [0u8; 11];
    let err = DnsPacket::from_bytes(&bytes).expect_err("should fail");
    assert!(err.get_error_response().is_none());
}

#[test]
fn empty_packet_fails_without_response() {
    let bytes: [u8; 0] = [];
    let err = DnsPacket::from_bytes(&bytes).expect_err("should fail");
    assert!(err.get_error_response().is_none());
}

#[test]
fn formerr_synthesis_from_truncated_question() {
    // The 12-byte header decodes; the one promised question is malformed
    let bytes = [
        0x00u8, 0x2A, 0x11, 0x20, 0x00, 0x01, 0x00, 0x00, 0x00, 0x00, 0x00, 0x00, 0x00,
    ];
    let err = DnsPacket::from_bytes(&bytes).expect_err("should fail");
    let response = err.get_error_response().expect("partial header should be present");
    assert_eq!(0x002A, response.id);
    assert!(response.flags.qr_bit);
    assert_eq!(DnsRCode::FormError, response.flags.rcode);
    assert!(!response.flags.aa_bit);
    assert!(!response.flags.tc_bit);
    assert!(!response.flags.ra_bit);
    assert!(!response.flags.ad_bit);
    assert!(response.questions.is_empty());
    assert!(response.answers.is_empty());
    assert!(response.nameservers.is_empty());
    assert!(response.addl_recs.is_empty());

    let response_bytes = response.to_bytes();
    // id, flags (QR set, opcode Status, RD kept; rcode FormErr), zero counts
    assert_eq!(
        response_bytes,
        vec![0x00u8, 0x2A, 0x91, 0x01, 0x00, 0x00, 0x00, 0x00, 0x00, 0x00, 0x00, 0x00]
    );
}

#[test]
fn a_record_answer_decodes() {
    // Header with one answer, then example.com. type=1 class=1 ttl=3600
    // rdlength=4 rdata=5D B8 D8 22
    let mut bytes: Vec<u8> = vec![
        0x00, 0x2A, 0x01, 0x20, 0x00, 0x00, 0x00, 0x01, 0x00, 0x00, 0x00, 0x00,
    ];
    bytes.extend_from_slice(b"\x07example\x03com\x00");
    bytes.extend_from_slice(&[0x00, 0x01]); // type A
    bytes.extend_from_slice(&[0x00, 0x01]); // class IN
    bytes.extend_from_slice(&[0x00, 0x00, 0x0E, 0x10]); // ttl 3600
    bytes.extend_from_slice(&[0x00, 0x04]); // rdlength
    bytes.extend_from_slice(&[0x5D, 0xB8, 0xD8, 0x22]);

    let packet = DnsPacket::from_bytes(&bytes).expect("should decode");
    assert_eq!(1, packet.answers.len());
    let answer = &packet.answers[0];
    assert_eq!(vec![b"example".to_vec(), b"com".to_vec()], answer.name);
    assert_eq!(DnsRRType::A, answer.rr_type);
    assert_eq!(DnsClass::IN, answer.class);
    assert_eq!(3600, answer.ttl);
    let expected_ip = Ipv4Address::new(93, 184, 216, 34);
    assert_eq!(DnsRecordData::A(expected_ip), answer.record);
    assert_eq!(expected_ip, answer.get_a_ip());
}

#[test]
fn opt_record_class_is_payload_size() {
    // An OPT pseudo-record's class field carries the payload size 4096
    let rr = DnsResourceRecord {
        name: Vec::new(),
        rr_type: DnsRRType::OPT,
        class: DnsClass::EdnsPayloadSize(4096),
        ttl: 0,
        record: DnsRecordData::Other(Vec::new()),
    };
    let bytes = rr.to_bytes();
    // root name, type 41, class field 0x1000, ttl 0, rdlength 0
    assert_eq!(
        bytes,
        vec![0x00u8, 0x00, 0x29, 0x10, 0x00, 0x00, 0x00, 0x00, 0x00, 0x00, 0x00]
    );
    let (decoded, pos) = DnsResourceRecord::from_bytes(&bytes, 0).expect("should decode");
    assert_eq!(DnsClass::EdnsPayloadSize(4096), decoded.class);
    assert_eq!(rr, decoded);
    assert_eq!(bytes.len(), pos);
}

#[test]
fn full_packet_encode_then_decode_is_identity() {
    let packet = DnsPacket {
        id: 4660,
        flags: DnsFlags {
            qr_bit: true,
            opcode: DnsOpcode::Query,
            aa_bit: true,
            tc_bit: false,
            rd_bit: true,
            ra_bit: true,
            ad_bit: false,
            cd_bit: false,
            rcode: DnsRCode::NoError,
        },
        questions: vec![DnsQuestion {
            qname: vec![b"example".to_vec(), b"com".to_vec()],
            qtype: DnsRRType::A,
            qclass: DnsClass::IN,
        }],
        answers: vec![
            DnsResourceRecord {
                name: vec![b"example".to_vec(), b"com".to_vec()],
                rr_type: DnsRRType::A,
                class: DnsClass::IN,
                ttl: 3600,
                record: DnsRecordData::A(Ipv4Address::new(93, 184, 216, 34)),
            },
            DnsResourceRecord {
                name: vec![b"example".to_vec(), b"com".to_vec()],
                rr_type: DnsRRType::AAAA,
                class: DnsClass::IN,
                ttl: 60,
                record: DnsRecordData::AAAA(Ipv6Address::new(
                    0x2606, 0x2800, 0x21f, 0xcb07, 0x6820, 0x80da, 0xaf6b, 0x8b2c,
                )),
            },
        ],
        nameservers: vec![DnsResourceRecord {
            name: vec![b"com".to_vec()],
            rr_type: DnsRRType::NS,
            class: DnsClass::IN,
            ttl: 7200,
            record: DnsRecordData::NS(vec![b"ns1".to_vec(), b"example".to_vec(), b"net".to_vec()]),
        }],
        addl_recs: vec![DnsResourceRecord {
            name: vec![b"example".to_vec(), b"com".to_vec()],
            rr_type: DnsRRType::TXT,
            class: DnsClass::IN,
            ttl: 100,
            record: DnsRecordData::Other(b"\x04test".to_vec()),
        }],
    };
    assert!(packet.is_wf());
    let bytes = packet.to_bytes();
    let decoded = DnsPacket::from_bytes(&bytes).expect("should decode");
    assert_eq!(packet, decoded);
}

#[test]
fn cname_record_encode_then_decode_is_identity() {
    let rr = DnsResourceRecord {
        name: vec![b"alias".to_vec(), b"test".to_vec()],
        rr_type: DnsRRType::CNAME,
        class: DnsClass::IN,
        ttl: 30,
        record: DnsRecordData::CNAME(vec![b"target".to_vec(), b"test".to_vec()]),
    };
    let bytes = rr.to_bytes();
    let (decoded, pos) = DnsResourceRecord::from_bytes(&bytes, 0).expect("should decode");
    assert_eq!(rr, decoded);
    assert_eq!(bytes.len(), pos);
}

#[test]
fn trailing_bytes_after_last_record_are_ignored() {
    let mut bytes: Vec<u8> = vec![
        0x00, 0x01, 0x01, 0x00, 0x00, 0x01, 0x00, 0x00, 0x00, 0x00, 0x00, 0x00,
    ];
    bytes.extend_from_slice(b"\x03foo\x00");
    bytes.extend_from_slice(&[0x00, 0x01, 0x00, 0x01]);
    bytes.extend_from_slice(&[0xAA, 0xBB, 0xCC]); // padding
    let packet = DnsPacket::from_bytes(&bytes).expect("should decode");
    assert_eq!(1, packet.questions.len());
}

#[test]
fn rr_with_truncated_fixed_fields_fails() {
    // One answer whose name parses but whose ten fixed bytes are missing
    let mut bytes: Vec<u8> = vec![
        0x00, 0x01, 0x01, 0x00, 0x00, 0x00, 0x00, 0x01, 0x00, 0x00, 0x00, 0x00,
    ];
    bytes.extend_from_slice(b"\x03foo\x00");
    bytes.extend_from_slice(&[0x00, 0x01]);
    let err = DnsPacket::from_bytes(&bytes).expect_err("should fail");
    assert!(err.get_error_response().is_some());
}

#[test]
fn rdata_running_past_buffer_fails() {
    // rdlength says 4 bytes but only 2 follow
    let mut bytes: Vec<u8> = vec![
        0x00, 0x01, 0x01, 0x00, 0x00, 0x00, 0x00, 0x01, 0x00, 0x00, 0x00, 0x00,
    ];
    bytes.extend_from_slice(b"\x03foo\x00");
    bytes.extend_from_slice(&[0x00, 0x10]); // type TXT
    bytes.extend_from_slice(&[0x00, 0x01]); // class IN
    bytes.extend_from_slice(&[0x00, 0x00, 0x00, 0x00]); // ttl
    bytes.extend_from_slice(&[0x00, 0x04]); // rdlength 4
    bytes.extend_from_slice(&[0xAA, 0xBB]);
    assert!(DnsPacket::from_bytes(&bytes).is_err());
}

#[test]
fn a_record_with_wrong_rdlength_fails() {
    let mut bytes: Vec<u8> = vec![
        0x00, 0x01, 0x01, 0x00, 0x00, 0x00, 0x00, 0x01, 0x00, 0x00, 0x00, 0x00,
    ];
    bytes.extend_from_slice(b"\x03foo\x00");
    bytes.extend_from_slice(&[0x00, 0x01]); // type A
    bytes.extend_from_slice(&[0x00, 0x01]); // class IN
    bytes.extend_from_slice(&[0x00, 0x00, 0x00, 0x00]); // ttl
    bytes.extend_from_slice(&[0x00, 0x02]); // rdlength 2, not 4
    bytes.extend_from_slice(&[0xAA, 0xBB]);
    assert!(DnsPacket::from_bytes(&bytes).is_err());
}

#[test]
fn question_with_unassigned_qtype_fails() {
    let mut bytes: Vec<u8> = vec![
        0x00, 0x01, 0x01, 0x00, 0x00, 0x01, 0x00, 0x00, 0x00, 0x00, 0x00, 0x00,
    ];
    bytes.extend_from_slice(b"\x03foo\x00");
    bytes.extend_from_slice(&[0x00, 0x00, 0x00, 0x01]); // qtype 0, class IN
    assert!(DnsPacket::from_bytes(&bytes).is_err());
}

#[test]
fn question_with_unassigned_qclass_fails() {
    let mut bytes: Vec<u8> = vec![
        0x00, 0x01, 0x01, 0x00, 0x00, 0x01, 0x00, 0x00, 0x00, 0x00, 0x00, 0x00,
    ];
    bytes.extend_from_slice(b"\x03foo\x00");
    bytes.extend_from_slice(&[0x00, 0x01, 0x00, 0x00]); // qtype A, class 0
    assert!(DnsPacket::from_bytes(&bytes).is_err());
}

#[test]
fn z_bit_in_packet_header_is_a_format_error() {
    // No response can be built: the header itself is malformed
    let bytes = [
        0x00u8, 0x2A, 0x00, 0x40, 0x00, 0x00, 0x00, 0x00, 0x00, 0x00, 0x00, 0x00,
    ];
    let err = DnsPacket::from_bytes(&bytes).expect_err("should fail");
    assert!(err.get_error_response().is_none());
}

#[test]
fn not_imp_answer_echoes_questions() {
    let query = DnsPacket {
        id: 7,
        flags: query_flags(),
        questions: vec![DnsQuestion {
            qname: vec![b"foo".to_vec()],
            qtype: DnsRRType::MX,
            qclass: DnsClass::IN,
        }],
        answers: Vec::new(),
        nameservers: Vec::new(),
        addl_recs: Vec::new(),
    };
    let reply = not_imp_answer_from_query(&query);
    assert_eq!(7, reply.id);
    assert!(reply.flags.qr_bit);
    assert_eq!(DnsRCode::NotImp, reply.flags.rcode);
    assert_eq!(query.questions, reply.questions);
    assert!(reply.answers.is_empty());
    assert!(reply.nameservers.is_empty());
    assert!(reply.addl_recs.is_empty());
}

#[test]
fn class_codec_round_trips() {
    assert_eq!(Some(DnsClass::IN), DnsClass::from_u16(1));
    assert_eq!(Some(DnsClass::CS), DnsClass::from_u16(2));
    assert_eq!(Some(DnsClass::CH), DnsClass::from_u16(3));
    assert_eq!(Some(DnsClass::HS), DnsClass::from_u16(4));
    assert_eq!(Some(DnsClass::NONE), DnsClass::from_u16(254));
    assert_eq!(Some(DnsClass::ANY), DnsClass::from_u16(255));
    assert_eq!(None, DnsClass::from_u16(0));
    assert_eq!(None, DnsClass::from_u16(5));
    assert_eq!(1, DnsClass::IN.to_u16());
    assert_eq!(4096, DnsClass::EdnsPayloadSize(4096).to_u16());
}

#[test]
fn rrtype_codec_round_trips() {
    assert_eq!(Some(DnsRRType::A), DnsRRType::from_u16(1));
    assert_eq!(Some(DnsRRType::NS), DnsRRType::from_u16(2));
    assert_eq!(Some(DnsRRType::CNAME), DnsRRType::from_u16(5));
    assert_eq!(Some(DnsRRType::AAAA), DnsRRType::from_u16(28));
    assert_eq!(Some(DnsRRType::OPT), DnsRRType::from_u16(41));
    assert_eq!(Some(DnsRRType::DLV), DnsRRType::from_u16(32769));
    assert_eq!(None, DnsRRType::from_u16(0));
    assert_eq!(None, DnsRRType::from_u16(65535));
    assert_eq!(41, DnsRRType::OPT.to_u16());
    assert_eq!(28, DnsRRType::AAAA.to_u16());
}
