use tcp_pow::{decode_length, encode_length, frame, unframe, PREFIX_LEN};

#[test]
fn length_prefix_is_little_endian() {
    assert_eq!(PREFIX_LEN, 8);
    assert_eq!(encode_length(5), vec![5, 0, 0, 0, 0, 0, 0, 0]);
    assert_eq!(encode_length(0x0102), vec![2, 1, 0, 0, 0, 0, 0, 0]);
    assert_eq!(encode_length(u64::MAX), vec![255; 8]);
    assert_eq!(decode_length(&[2, 1, 0, 0, 0, 0, 0, 0]), 0x0102);
    assert_eq!(decode_length(&[255; 8]), u64::MAX);
}

#[test]
fn frame_round_trip_empty() {
    let f = frame(&[]);
    assert_eq!(f, vec![0; 8]);
    assert_eq!(unframe(&f), Some(vec![]));
}

#[test]
fn frame_round_trip_small() {
    let f = frame(b"abc");
    assert_eq!(f, vec![3, 0, 0, 0, 0, 0, 0, 0, b'a', b'b', b'c']);
    assert_eq!(unframe(&f), Some(b"abc".to_vec()));
}

#[test]
fn frame_round_trip_large() {
    let payload: Vec<u8> = (0..300_000u32).map(|i| (i % 251) as u8).collect();
    let f = frame(&payload);
    assert_eq!(f.len(), payload.len() + 8);
    assert_eq!(decode_length(&f[..8]), payload.len() as u64);
    assert_eq!(unframe(&f), Some(payload));
}

#[test]
fn unframe_rejects_bad_bytes() {
    assert_eq!(unframe(&[1, 0, 0]), None);
    assert_eq!(unframe(&[2, 0, 0, 0, 0, 0, 0, 0, 9]), None);
    assert_eq!(unframe(&[0, 0, 0, 0, 0, 0, 0, 0, 9]), None);
}
