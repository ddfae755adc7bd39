use dns_resolver::flags::DnsFlags;
use dns_resolver::opcode::DnsOpcode;
use dns_resolver::rcode::DnsRCode;

#[test]
fn flags_deserialize_works() {
    let flag_bytes = [0x01u8, 0x20u8];
    let expected = DnsFlags {
        qr_bit: false,
        opcode: DnsOpcode::Query,
        aa_bit: false,
        tc_bit: false,
        rd_bit: true,
        ra_bit: false,
        ad_bit: true,
        cd_bit: false,
        rcode: DnsRCode::NoError,
    };
    let result = DnsFlags::from_bytes(&flag_bytes).expect("Unexpected error");
    assert_eq!(expected, result);

    let flag_bytes = [0xacu8, 0x23u8];
    let expected = DnsFlags {
        qr_bit: true,
        opcode: DnsOpcode::Update,
        aa_bit: true,
        tc_bit: false,
        rd_bit: false,
        ra_bit: false,
        ad_bit: true,
        cd_bit: false,
        rcode: DnsRCode::NXDomain,
    };
    let result = DnsFlags::from_bytes(&flag_bytes).expect("Unexpected error");
    assert_eq!(expected, result);
}

#[test]
fn z_bit_set_is_a_format_error() {
    // Byte 1 bit 6 is the reserved Z field
    let flag_bytes = [0x00u8, 0x40u8];
    assert!(DnsFlags::from_bytes(&flag_bytes).is_err());
}

#[test]
fn invalid_opcode_is_a_format_error() {
    // Opcode field (byte 0, bits 3..=6) holding 15, which is unassigned
    let flag_bytes = [0x78u8, 0x00u8];
    assert!(DnsFlags::from_bytes(&flag_bytes).is_err());
}

#[test]
fn invalid_rcode_is_a_format_error() {
    // Rcode field (byte 1, bits 0..=3) holding 15, which is unassigned
    let flag_bytes = [0x00u8, 0x0Fu8];
    assert!(DnsFlags::from_bytes(&flag_bytes).is_err());
}

#[test]
fn flags_encode_then_decode_is_identity() {
    let flags = DnsFlags {
        qr_bit: true,
        opcode: DnsOpcode::Status,
        aa_bit: false,
        tc_bit: true,
        rd_bit: true,
        ra_bit: true,
        ad_bit: false,
        cd_bit: true,
        rcode: DnsRCode::Refused,
    };
    let bytes = flags.to_bytes();
    let decoded = DnsFlags::from_bytes(&bytes).expect("Unexpected error");
    assert_eq!(flags, decoded);
}
