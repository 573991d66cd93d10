use flate2::write::GzEncoder;
use flate2::Compression;
use retro_rl::gamestate::{CorruptState, GameState};
use std::io::Write;

fn gzip(data: &[u8]) -> Vec<u8> {
    let mut encoder = GzEncoder::new(Vec::new(), Compression::default());
    encoder.write_all(data).unwrap();
    encoder.finish().unwrap()
}

#[test]
fn compressed_state_is_decoded() {
    let data: Vec<u8> = (0..5000u32).map(|i| (i % 251) as u8).collect();
    let compressed = gzip(&data);
    assert_ne!(compressed, data);
    let state = GameState::new(&compressed).unwrap();
    assert_eq!(state.buffer, data);
}

#[test]
fn empty_state_is_decoded() {
    let state = GameState::new(&gzip(&[])).unwrap();
    assert!(state.buffer.is_empty());
}

#[test]
fn bytes_that_are_no_gzip_stream_are_rejected() {
    assert_eq!(GameState::new(&[1, 2, 3, 4]).err(), Some(CorruptState));
    assert_eq!(GameState::new(&[]).err(), Some(CorruptState));
}

#[test]
fn truncated_stream_is_rejected() {
    let compressed = gzip(&[7u8; 4000]);
    assert!(GameState::new(&compressed[..compressed.len() / 2]).is_err());
}
