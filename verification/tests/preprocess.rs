use retro_rl::preprocess::{
    grayscale, preprocess_screen, FrameError, FRAME_HEIGHT, FRAME_SIZE, FRAME_WIDTH,
    MAX_SOURCE_WIDTH,
};

fn uniform(width: usize, height: usize, rgb: [u8; 3]) -> Vec<u8> {
    let mut buffer = Vec::with_capacity(width * height * 3);
    for _ in 0..width * height {
        buffer.extend_from_slice(&rgb);
    }
    buffer
}

#[test]
fn frame_size_is_width_times_height() {
    assert_eq!(FRAME_SIZE, (FRAME_WIDTH * FRAME_HEIGHT) as usize);
}

#[test]
fn luminance_weights_are_exact() {
    assert_eq!(grayscale(&vec![255, 0, 0]), vec![76]);
    assert_eq!(grayscale(&vec![0, 255, 0]), vec![149]);
    assert_eq!(grayscale(&vec![0, 0, 255]), vec![29]);
    assert_eq!(grayscale(&vec![255, 255, 255]), vec![255]);
    assert_eq!(grayscale(&vec![0, 0, 0]), vec![0]);
    // (299 * 10 + 587 * 20 + 114 * 30) / 1000 = 18.15
    assert_eq!(grayscale(&vec![10, 20, 30]), vec![18]);
}

#[test]
fn grayscale_goes_pixel_by_pixel_and_ignores_a_partial_pixel() {
    assert_eq!(grayscale(&vec![255, 0, 0, 0, 0, 255, 9, 9]), vec![76, 29]);
    assert!(grayscale(&Vec::new()).is_empty());
}

#[test]
fn uniform_frame_becomes_uniform_intensity() {
    let frame = preprocess_screen(uniform(320, 224, [10, 20, 30]), 320, 224).unwrap();
    assert_eq!(frame, vec![18u8; FRAME_SIZE]);
}

#[test]
fn frame_of_target_size_is_only_converted() {
    let mut buffer = Vec::new();
    for pixel in 0..FRAME_SIZE {
        let value = (pixel % 256) as u8;
        buffer.extend_from_slice(&[value, value, value]);
    }
    let frame = preprocess_screen(buffer, 84, 84).unwrap();
    let expected: Vec<u8> = (0..FRAME_SIZE).map(|pixel| (pixel % 256) as u8).collect();
    assert_eq!(frame, expected);
}

#[test]
fn halves_of_the_source_stay_halves() {
    // Left half red, right half blue, twice the target size.
    let mut buffer = Vec::new();
    for _ in 0..168 {
        for x in 0..168 {
            buffer.extend_from_slice(if x < 84 { &[255, 0, 0] } else { &[0, 0, 255] });
        }
    }
    let frame = preprocess_screen(buffer, 168, 168).unwrap();
    assert_eq!(frame.len(), FRAME_SIZE);
    for y in 0..84 {
        for x in 0..84 {
            assert_eq!(frame[y * 84 + x], if x < 42 { 76 } else { 29 });
        }
    }
}

#[test]
fn buffer_of_wrong_length_is_rejected() {
    let short = vec![0u8; 320 * 224 * 3 - 1];
    assert_eq!(preprocess_screen(short, 320, 224), Err(FrameError::LengthMismatch));
    let long = vec![0u8; 4 * 4 * 3 + 1];
    assert_eq!(preprocess_screen(long, 4, 4), Err(FrameError::LengthMismatch));
}

#[test]
fn negative_dimensions_are_rejected() {
    assert_eq!(preprocess_screen(vec![0u8; 18], -2, -3), Err(FrameError::LengthMismatch));
    assert_eq!(preprocess_screen(Vec::new(), -1, 0), Err(FrameError::LengthMismatch));
}

#[test]
fn frame_beyond_the_widest_is_rejected() {
    assert_eq!(
        preprocess_screen(Vec::new(), MAX_SOURCE_WIDTH + 1, 0),
        Err(FrameError::TooWide)
    );
}

#[test]
fn empty_frame_becomes_a_zero_frame() {
    assert_eq!(preprocess_screen(Vec::new(), 0, 0), Ok(vec![0u8; FRAME_SIZE]));
}
