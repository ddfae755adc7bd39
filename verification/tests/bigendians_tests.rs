use dns_resolver::bigendians::{from_u16, from_u32, to_u16, to_u32};

#[test]
fn u16_parse_works() {
    assert_eq!(66, to_u16(&[0x00u8, 0x42u8]));
    assert_eq!(6025, to_u16(&[0x17u8, 0x89u8]));
    assert_eq!(32902, to_u16(&[0x80u8, 0x86u8]));
    // Ensure additional bytes are irrelevant
    assert_eq!(32902, to_u16(&[0x80u8, 0x86u8, 0x00u8]));
}

#[test]
fn u32_parse_works() {
    assert_eq!(32902, to_u32(&[0x00u8, 0x00u8, 0x80u8, 0x86u8]));
    assert_eq!(537034886, to_u32(&[0x20u8, 0x02u8, 0x80u8, 0x86u8]));
}

#[test]
fn u16_serialize_works() {
    assert_eq!([0x00u8, 0x42u8], from_u16(66));
    assert_eq!([0x17u8, 0x89u8], from_u16(6025));
    assert_eq!([0x80u8, 0x86u8], from_u16(32902));
}

#[test]
fn u32_serialize_works() {
    assert_eq!([0x00u8, 0x00u8, 0x80u8, 0x86u8], from_u32(32902));
    assert_eq!([0x20u8, 0x02u8, 0x80u8, 0x86u8], from_u32(537034886));
}

#[test]
fn u16_round_trip_samples() {
    for x in [0u16, 1, 255, 256, 4096, 65535] {
        let bytes = from_u16(x);
        assert_eq!(x, to_u16(&bytes));
    }
}

#[test]
fn u32_round_trip_samples() {
    for x in [0u32, 1, 65535, 65536, 16777216, 4294967295] {
        let bytes = from_u32(x);
        assert_eq!(x, to_u32(&bytes));
    }
}
