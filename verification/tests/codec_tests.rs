use kasa_gateway::codec::{decode_frame, decrypt, encrypt};

fn frame_of(payload: &[u8]) -> Vec<u8> {
    encrypt(&payload.to_vec())
}

#[test]
fn round_trip_simple_payload() {
    let payload = b"{\"system\":{\"get_sysinfo\":{}}}".to_vec();
    let frame = encrypt(&payload);
    let decoded = decode_frame(&frame).expect("frame should decode");
    assert_eq!(decoded, payload);
}

#[test]
fn round_trip_empty_payload() {
    let payload: Vec<u8> = Vec::new();
    let frame = encrypt(&payload);
    assert_eq!(frame.len(), 4);
    let decoded = decode_frame(&frame).expect("frame should decode");
    assert_eq!(decoded, payload);
}

#[test]
fn round_trip_all_byte_values() {
    let payload: Vec<u8> = (0u8..=255u8).collect();
    let frame = encrypt(&payload);
    let decoded = decode_frame(&frame).expect("frame should decode");
    assert_eq!(decoded, payload);
}

#[test]
fn length_prefix_is_exact_big_endian() {
    let frame = frame_of(b"abc");
    assert_eq!(&frame[..4], &[0, 0, 0, 3]);
    let frame = frame_of(&[7u8; 300]);
    assert_eq!(&frame[..4], &[0, 0, 1, 44]);
}

#[test]
fn whitening_chain_known_bytes() {
    // First cipher byte is key ^ plain; each cipher byte keys the next.
    let frame = frame_of(&[0x01, 0x01]);
    assert_eq!(&frame[4..], &[0xAB ^ 0x01, (0xAB ^ 0x01) ^ 0x01]);
    let frame = frame_of(&[0x00]);
    assert_eq!(&frame[4..], &[0xAB]);
}

#[test]
fn decrypt_undoes_known_chain() {
    let plain = decrypt(vec![0xAA]);
    assert_eq!(plain, vec![0xAB ^ 0xAA]);
    let plain = decrypt(vec![0xAA, 0xAB]);
    assert_eq!(plain, vec![0x01, 0x01]);
}

#[test]
fn short_frame_is_malformed() {
    assert!(decode_frame(&vec![]).is_none());
    assert!(decode_frame(&vec![0, 0, 0]).is_none());
}

#[test]
fn truncated_body_is_malformed() {
    // Announces five bytes but carries two.
    let data = vec![0, 0, 0, 5, 0x10, 0x20];
    assert!(decode_frame(&data).is_none());
}

#[test]
fn trailing_bytes_are_ignored() {
    let payload = b"xy".to_vec();
    let mut frame = encrypt(&payload);
    frame.push(0xFF);
    frame.push(0xFF);
    let decoded = decode_frame(&frame).expect("frame should decode");
    assert_eq!(decoded, payload);
}
