use dns_resolver::names::{deserialize_name, serialize_name};

fn rfc1035_example_packet() -> [u8; 93] {
    // Using the example in RFC 1035: a 93-byte buffer with f.isi.arpa at
    // offset 20, a pointer-bearing name at offset 40, a bare pointer at
    // offset 64 and the root label at offset 92.
    let mut packet = [0x00u8; 93];
    // First label starting at byte 20 is f.isi.arpa
    packet[20] = 1;
    packet[21] = 'f' as u8;
    packet[22] = 3;
    packet[23] = 'i' as u8;
    packet[24] = 's' as u8;
    packet[25] = 'i' as u8;
    packet[26] = 4;
    packet[27] = 'a' as u8;
    packet[28] = 'r' as u8;
    packet[29] = 'p' as u8;
    packet[30] = 'a' as u8;
    packet[31] = 0;

    // Second label starting at byte 40 is foo.f.isi.arpa
    packet[40] = 3;
    packet[41] = 'f' as u8;
    packet[42] = 'o' as u8;
    packet[43] = 'o' as u8;
    // Pointer to "f.isi.arpa" at byte 20
    packet[44] = 0b11000000;
    packet[45] = 20;

    // Third label at byte 64 is .arpa, pointer to byte 26
    packet[64] = 0b11000000;
    packet[65] = 26;

    // Fourth label at byte 92 is just the root
    packet[92] = 0;
    packet
}

#[test]
fn name_read_works() {
    let packet = rfc1035_example_packet();

    let (labels, pos) = deserialize_name(&packet, 20).expect("Deserialize failed");
    assert_eq!(labels, vec![b"f".to_vec(), b"isi".to_vec(), b"arpa".to_vec()]);
    assert_eq!(pos, 32);

    let (labels, pos) = deserialize_name(&packet, 40).expect("Deserialize failed");
    assert_eq!(
        labels,
        vec![b"foo".to_vec(), b"f".to_vec(), b"isi".to_vec(), b"arpa".to_vec()]
    );
    assert_eq!(pos, 46);

    let (labels, pos) = deserialize_name(&packet, 64).expect("Deserialize failed");
    assert_eq!(labels, vec![b"arpa".to_vec()]);
    assert_eq!(pos, 66);

    let (labels, pos) = deserialize_name(&packet, 92).expect("Deserialize failed");
    assert_eq!(labels, Vec::<Vec<u8>>::new());
    assert_eq!(pos, 93);
}

#[test]
fn names_name_read_works() {
    let packet = rfc1035_example_packet();

    let (labels, pos) = deserialize_name(&packet, 20).expect("Deserialize failed");
    assert_eq!(labels, vec![b"f".to_vec(), b"isi".to_vec(), b"arpa".to_vec()]);
    assert_eq!(pos, 32);

    let (labels, pos) = deserialize_name(&packet, 40).expect("Deserialize failed");
    assert_eq!(
        labels,
        vec![b"foo".to_vec(), b"f".to_vec(), b"isi".to_vec(), b"arpa".to_vec()]
    );
    assert_eq!(pos, 46);

    let (labels, pos) = deserialize_name(&packet, 64).expect("Deserialize failed");
    assert_eq!(labels, vec![b"arpa".to_vec()]);
    assert_eq!(pos, 66);

    let (labels, pos) = deserialize_name(&packet, 92).expect("Deserialize failed");
    assert_eq!(labels, Vec::<Vec<u8>>::new());
    assert_eq!(pos, 93);
}

#[test]
fn name_serialize_then_deserialize_is_identity() {
    let name = vec![b"blog".to_vec(), b"example".to_vec(), b"com".to_vec()];
    let bytes = serialize_name(&name);
    assert_eq!(bytes, b"\x04blog\x07example\x03com\x00".to_vec());
    let (labels, pos) = deserialize_name(&bytes, 0).expect("Deserialize failed");
    assert_eq!(labels, name);
    assert_eq!(pos, bytes.len());
}

#[test]
fn longest_label_round_trips() {
    let name = vec![vec![b'x'; 63], b"test".to_vec()];
    let bytes = serialize_name(&name);
    let (labels, pos) = deserialize_name(&bytes, 0).expect("Deserialize failed");
    assert_eq!(labels, name);
    assert_eq!(pos, bytes.len());
}

#[test]
fn empty_name_is_a_single_root_byte() {
    let name: Vec<Vec<u8>> = Vec::new();
    let bytes = serialize_name(&name);
    assert_eq!(bytes, vec![0x00u8]);
    let (labels, pos) = deserialize_name(&bytes, 0).expect("Deserialize failed");
    assert_eq!(labels, name);
    assert_eq!(pos, 1);
}

#[test]
fn self_pointer_fails() {
    // A pointer at offset 0 aimed back at offset 0
    let packet = [0xC0u8, 0x00u8];
    assert!(deserialize_name(&packet, 0).is_err());
}

#[test]
fn two_node_pointer_cycle_fails() {
    // A pointer at offset 0 to offset 2, whose pointer aims back at 0
    let packet = [0xC0u8, 0x02u8, 0xC0u8, 0x00u8];
    assert!(deserialize_name(&packet, 0).is_err());
    assert!(deserialize_name(&packet, 2).is_err());
}

#[test]
fn pointer_beyond_buffer_end_fails() {
    // A pointer to offset 16 in a 2-byte buffer
    let packet = [0xC0u8, 0x10u8];
    assert!(deserialize_name(&packet, 0).is_err());
}

#[test]
fn reserved_label_types_fail() {
    // Top bits 01 and 10 are reserved: no label may be longer than 63
    let packet = [0x40u8, 0x00u8, 0x00u8];
    assert!(deserialize_name(&packet, 0).is_err());
    let packet = [0x80u8, 0x00u8, 0x00u8];
    assert!(deserialize_name(&packet, 0).is_err());
}

#[test]
fn label_running_past_buffer_fails() {
    // A label claiming 5 bytes with only 2 present
    let packet = [0x05u8, b'a', b'b'];
    assert!(deserialize_name(&packet, 0).is_err());
}

#[test]
fn start_beyond_buffer_fails() {
    let packet = [0x00u8];
    assert!(deserialize_name(&packet, 1).is_err());
}
