use meshgrid::{cobs_decode, cobs_encode};

fn round_trip(data: &[u8]) {
    let enc = cobs_encode(data);
    assert!(!enc.contains(&0), "encoded frame holds a zero: {:?}", enc);
    assert_eq!(cobs_decode(&enc), Some(data.to_vec()));
}

#[test]
fn encode_empty_is_one_marker() {
    assert_eq!(cobs_encode(&[]), vec![1]);
    assert_eq!(cobs_decode(&[]), Some(vec![]));
    assert_eq!(cobs_decode(&[1]), Some(vec![]));
}

#[test]
fn encode_known_vectors() {
    assert_eq!(cobs_encode(&[0]), vec![1, 1]);
    assert_eq!(cobs_encode(&[0, 0]), vec![1, 1, 1]);
    assert_eq!(cobs_encode(&[1, 2, 3]), vec![4, 1, 2, 3]);
    assert_eq!(cobs_encode(&[1, 0, 2]), vec![2, 1, 2, 2]);
    assert_eq!(cobs_encode(&[0x11, 0x22, 0x00, 0x33]), vec![3, 0x11, 0x22, 2, 0x33]);
}

#[test]
fn long_runs_split_at_254() {
    let data: Vec<u8> = (0..254).map(|i| (i % 255 + 1) as u8).collect();
    let enc = cobs_encode(&data);
    assert_eq!(enc[0], 0xFF);
    assert_eq!(enc.len(), 256);
    assert_eq!(enc[255], 1);
    round_trip(&data);
    let data: Vec<u8> = (0..600).map(|i| (i % 200 + 1) as u8).collect();
    round_trip(&data);
}

#[test]
fn round_trip_edge_inputs() {
    round_trip(&[]);
    round_trip(&[0; 10]);
    round_trip(&[0, 1, 0, 0, 2, 0]);
    round_trip(b"INFO");
    let mut heavy = Vec::new();
    for i in 0..1000u32 {
        heavy.push(if i % 3 == 0 { 0 } else { (i % 251) as u8 });
    }
    round_trip(&heavy);
}

#[test]
fn decode_rejects_truncated_group() {
    let enc = cobs_encode(&[1, 2, 3]);
    assert_eq!(cobs_decode(&enc[..3]), None);
    assert_eq!(cobs_decode(&[5, 1, 2]), None);
}

#[test]
fn decode_rejects_delimiter_inside() {
    assert_eq!(cobs_decode(&[0]), None);
    assert_eq!(cobs_decode(&[3, 1, 0]), None);
    assert_eq!(cobs_decode(&[2, 1, 0, 1]), None);
}

#[test]
fn decode_corrupted_length_is_invalid() {
    let mut enc = cobs_encode(b"hello world");
    enc[0] = 40;
    assert_eq!(cobs_decode(&enc), None);
}
