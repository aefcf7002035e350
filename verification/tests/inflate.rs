use std::io::Write;

use paktool::error::PakError;
use paktool::inflate::{check_inflated, inflate};

fn deflated(data: &[u8]) -> Vec<u8> {
    let mut encoder = flate2::write::ZlibEncoder::new(Vec::new(), flate2::Compression::default());
    encoder.write_all(data).unwrap();
    encoder.finish().unwrap()
}

#[test]
fn check_inflated_wants_the_recorded_size() {
    assert_eq!(check_inflated(Some(vec![1, 2, 3]), 3), Ok(vec![1, 2, 3]));
    assert_eq!(check_inflated(Some(vec![]), 0), Ok(vec![]));
    assert_eq!(check_inflated(Some(vec![1, 2, 3]), 2), Err(PakError::Decompress));
    assert_eq!(check_inflated(Some(vec![1, 2, 3]), 4), Err(PakError::Decompress));
    assert_eq!(check_inflated(None, 0), Err(PakError::Decompress));
    assert_eq!(check_inflated(None, 3), Err(PakError::Decompress));
}

#[test]
fn inflate_gives_back_what_was_deflated() {
    let data = b"hello hello hello hello hello hello hello hello".to_vec();
    let stream = deflated(&data);
    assert_ne!(stream, data);
    assert_eq!(inflate(&stream, data.len() as u32), Ok(data));
}

#[test]
fn inflate_of_an_empty_payload() {
    let stream = deflated(&[]);
    assert!(!stream.is_empty());
    assert_eq!(inflate(&stream, 0), Ok(vec![]));
}

#[test]
fn inflate_refuses_another_size() {
    let data = vec![7u8; 1000];
    let stream = deflated(&data);
    assert_eq!(inflate(&stream, 999), Err(PakError::Decompress));
    assert_eq!(inflate(&stream, 1001), Err(PakError::Decompress));
    assert_eq!(inflate(&stream, 1000), Ok(data));
}

#[test]
fn inflate_refuses_a_corrupt_stream() {
    assert_eq!(inflate(&[0xde, 0xad, 0xbe, 0xef, 0x00, 0x11], 4), Err(PakError::Decompress));
    let data = vec![3u8; 64];
    let mut stream = deflated(&data);
    stream[0] ^= 0xff;
    assert_eq!(inflate(&stream, 64), Err(PakError::Decompress));
}

#[test]
fn inflate_refuses_a_stream_that_stops_short() {
    let data: Vec<u8> = (0..5000u32).map(|i| (i * 7 % 251) as u8).collect();
    let stream = deflated(&data);
    let cut = &stream[..stream.len() / 2];
    assert_eq!(inflate(cut, data.len() as u32), Err(PakError::Decompress));
    assert_eq!(inflate(&stream[..2], data.len() as u32), Err(PakError::Decompress));
    assert_eq!(inflate(&stream, data.len() as u32), Ok(data));
}

#[test]
fn inflate_is_the_same_each_time() {
    let data: Vec<u8> = (0..300u32).map(|i| (i % 17) as u8).collect();
    let stream = deflated(&data);
    let first = inflate(&stream, 300);
    let second = inflate(&stream, 300);
    assert_eq!(first, second);
    assert_eq!(first, Ok(data));
}
