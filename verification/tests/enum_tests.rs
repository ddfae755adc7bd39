use dns_resolver::class::DnsClass;
use dns_resolver::ip::Ipv6Address;
use dns_resolver::opcode::DnsOpcode;
use dns_resolver::packet::DnsPacket;
use dns_resolver::rcode::DnsRCode;
use dns_resolver::rdata::DnsRecordData;
use dns_resolver::rr::DnsResourceRecord;
use dns_resolver::rrtype::DnsRRType;

#[test]
fn opcode_codec_round_trips() {
    let cases = [
        (0u8, DnsOpcode::Query),
        (1, DnsOpcode::IQuery),
        (2, DnsOpcode::Status),
        (4, DnsOpcode::Zone),
        (5, DnsOpcode::Update),
        (6, DnsOpcode::DSO),
    ];
    for (num, op) in cases {
        assert_eq!(Some(op), DnsOpcode::from_u8(num));
        assert_eq!(num, op.to_u8());
    }
    assert_eq!(None, DnsOpcode::from_u8(3));
    for reserved in 7u8..=15 {
        assert_eq!(None, DnsOpcode::from_u8(reserved));
    }
}

#[test]
fn rcode_codec_round_trips() {
    let cases = [
        (0u8, DnsRCode::NoError),
        (1, DnsRCode::FormError),
        (2, DnsRCode::ServFail),
        (3, DnsRCode::NXDomain),
        (4, DnsRCode::NotImp),
        (5, DnsRCode::Refused),
        (6, DnsRCode::YXDomain),
        (7, DnsRCode::YXRRSet),
        (8, DnsRCode::NXRRSet),
        (9, DnsRCode::NotAuth),
        (10, DnsRCode::NotZone),
        (11, DnsRCode::DSOTypeNI),
    ];
    for (num, rc) in cases {
        assert_eq!(Some(rc), DnsRCode::from_u8(num));
        assert_eq!(num, rc.to_u8());
    }
    for reserved in 12u8..=15 {
        assert_eq!(None, DnsRCode::from_u8(reserved));
    }
}

#[test]
fn aaaa_record_decodes_from_sixteen_bytes() {
    let mut bytes: Vec<u8> = Vec::new();
    bytes.extend_from_slice(b"\x03foo\x00");
    bytes.extend_from_slice(&[0x00, 0x1C]); // type AAAA
    bytes.extend_from_slice(&[0x00, 0x01]); // class IN
    bytes.extend_from_slice(&[0x00, 0x00, 0x00, 0x3C]); // ttl 60
    bytes.extend_from_slice(&[0x00, 0x10]); // rdlength 16
    bytes.extend_from_slice(&[
        0x20, 0x01, 0x0d, 0xb8, 0x00, 0x00, 0x00, 0x00, 0x00, 0x00, 0x00, 0x00, 0x00, 0x00,
        0x00, 0x01,
    ]);
    let (rr, pos) = DnsResourceRecord::from_bytes(&bytes, 0).expect("should decode");
    assert_eq!(DnsRRType::AAAA, rr.rr_type);
    assert_eq!(
        DnsRecordData::AAAA(Ipv6Address::new(0x2001, 0x0db8, 0, 0, 0, 0, 0, 1)),
        rr.record
    );
    assert_eq!(bytes.len(), pos);
}

#[test]
fn aaaa_record_with_wrong_rdlength_fails() {
    let mut bytes: Vec<u8> = Vec::new();
    bytes.extend_from_slice(b"\x03foo\x00");
    bytes.extend_from_slice(&[0x00, 0x1C]); // type AAAA
    bytes.extend_from_slice(&[0x00, 0x01]); // class IN
    bytes.extend_from_slice(&[0x00, 0x00, 0x00, 0x3C]); // ttl
    bytes.extend_from_slice(&[0x00, 0x04]); // rdlength 4, not 16
    bytes.extend_from_slice(&[0x20, 0x01, 0x0d, 0xb8]);
    assert!(DnsResourceRecord::from_bytes(&bytes, 0).is_err());
}

#[test]
fn packet_with_overlong_label_is_not_well_formed() {
    let flags = dns_resolver::flags::DnsFlags {
        qr_bit: false,
        opcode: DnsOpcode::Query,
        aa_bit: false,
        tc_bit: false,
        rd_bit: false,
        ra_bit: false,
        ad_bit: false,
        cd_bit: false,
        rcode: DnsRCode::NoError,
    };
    let good = DnsPacket {
        id: 1,
        flags,
        questions: vec![dns_resolver::question::DnsQuestion {
            qname: vec![vec![b'a'; 63]],
            qtype: DnsRRType::A,
            qclass: DnsClass::IN,
        }],
        answers: Vec::new(),
        nameservers: Vec::new(),
        addl_recs: Vec::new(),
    };
    assert!(good.is_wf());
    let bad = DnsPacket {
        questions: vec![dns_resolver::question::DnsQuestion {
            qname: vec![vec![b'a'; 64]],
            qtype: DnsRRType::A,
            qclass: DnsClass::IN,
        }],
        ..good
    };
    assert!(!bad.is_wf());
}
