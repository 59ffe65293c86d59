use everpuzzle::engine::input::{Input, KEY_LEFT, KEY_S, BUTTON_DPAD_LEFT, BUTTON_SOUTH};
use everpuzzle::helpers::math::{I2, ToI2, ToIndex};
use everpuzzle::scripts::rng::Rng;
use everpuzzle::scripts::cursor::{move_to, Cursor, CursorState};

#[test]
fn key_press_then_hold() {
    let mut input = Input::default();
    assert!(!input.key_down(KEY_LEFT));
    input.down_event(KEY_LEFT);
    assert!(input.key_pressed(KEY_LEFT));
    assert_eq!(input.key_down_frames(KEY_LEFT), Some(1));
    input.update_end();
    assert!(!input.key_pressed(KEY_LEFT));
    assert!(input.key_down(KEY_LEFT));
    assert_eq!(input.key_down_frames(KEY_LEFT), Some(2));
    input.down_event(KEY_LEFT);
    assert_eq!(input.key_down_frames(KEY_LEFT), Some(2));
    input.up_event(KEY_LEFT);
    assert!(!input.key_down(KEY_LEFT));
    assert_eq!(input.key_down_frames(KEY_LEFT), None);
    // keys and buttons count together
    input.button_down_event(BUTTON_DPAD_LEFT);
    assert_eq!(input.kb_down_frames(KEY_LEFT, BUTTON_DPAD_LEFT), Some(1));
    assert!(input.kb_pressed(KEY_S, BUTTON_SOUTH) == false);
}

#[test]
fn coordinates_and_indexes_convert_both_ways() {
    for i in 0..72usize {
        let p = i.to_i2();
        assert_eq!(p.to_index(), i);
        assert_eq!(p, I2::new((i % 6) as i32, (i / 6) as i32));
    }
    assert_eq!((-1i32).to_i2(), I2::new(-1, -1));
    assert_eq!((-6i32).to_i2(), I2::new(0, -1));
    assert_eq!((-7i32).to_i2(), I2::new(-1, -2));
    assert_eq!(13i32.to_i2(), I2::new(1, 2));
}

#[test]
fn generator_is_seeded_and_moves_on() {
    let a = Rng::new(5);
    let b = Rng::new(5);
    assert_eq!(a, b);
    assert_ne!(Rng::new(5), Rng::new(6));
    assert_ne!(a.state, 5);
    let mut c = a;
    let mut draws = Vec::new();
    for _ in 0..50 {
        let v = c.rand_range(3, 8);
        assert!((3..8).contains(&v));
        draws.push(v);
    }
    assert_ne!(c.state, a.state);
    assert_eq!(c.inc, a.inc);
    assert!(draws.iter().any(|v| *v != draws[0]));
    let mut d = a;
    let again: Vec<u32> = (0..50).map(|_| d.rand_range(3, 8)).collect();
    assert_eq!(draws, again);
}

#[test]
fn cursor_moves_rows_first() {
    let mut counter = 0u32;
    let mut p = I2::new(0, 0);
    let goal = I2::new(2, 1);
    assert!(move_to(&mut counter, &mut p, goal));
    assert_eq!(p, I2::new(0, 1));
    // no move again until the frame limit passed
    assert!(!move_to(&mut counter, &mut p, goal));
    assert_eq!(p, I2::new(0, 1));
    while counter <= 25 {
        move_to(&mut counter, &mut p, goal);
    }
    assert_eq!(p, I2::new(1, 1));
    move_to(&mut counter, &mut p, goal);
    assert_eq!(p, goal);
    assert!(!move_to(&mut counter, &mut p, goal));
}

#[test]
fn new_cursor_starts_idle() {
    let c = Cursor::new(true);
    assert!(c.ai);
    assert_eq!(c.position, I2::new(2, 7));
    assert!(c.states.is_empty());
    let _ = CursorState::Idle;
}

#[test]
fn generators_start_as_oorandom_starts_them() {
    let reference = oorandom::Rand32::new(5).state();
    let rng = Rng::new(5);
    assert_eq!((rng.state, rng.inc), reference);
    assert_eq!(rng.inc % 2, 1);
}

#[test]
fn png_pixels_decode() {
    let raster = png_pong::PngRaster::Rgba8(pix::Raster::with_pixels(
        2,
        1,
        &[pix::rgb::SRgba8::new(1, 2, 3, 4), pix::rgb::SRgba8::new(5, 6, 7, 8)][..],
    ));
    let mut data = Vec::new();
    let mut encoder = png_pong::Encoder::new(&mut data).into_step_enc();
    encoder.encode(&png_pong::Step { raster, delay: 0 }).expect("encodes");
    let pixels = everpuzzle::engine::texture::Pixels::decode(&data).expect("decodes");
    assert_eq!((pixels.width, pixels.height), (2, 1));
    assert_eq!(pixels.rgba, vec![1, 2, 3, 4, 5, 6, 7, 8]);

    assert!(everpuzzle::engine::texture::Pixels::decode(&vec![1, 2, 3]).is_none());
}

/// appends a PNG chunk with a zero checksum
fn chunk(out: &mut Vec<u8>, name: &[u8; 4], data: &[u8]) {
    out.extend_from_slice(&(data.len() as u32).to_be_bytes());
    out.extend_from_slice(name);
    out.extend_from_slice(data);
    out.extend_from_slice(&[0, 0, 0, 0]);
}

#[test]
fn malformed_png_bytes_decode_to_nothing() {
    let mut header = Vec::new();
    header.extend_from_slice(&[137, 80, 78, 71, 13, 10, 26, 10]);
    let mut ihdr = Vec::new();
    ihdr.extend_from_slice(&2u32.to_be_bytes());
    ihdr.extend_from_slice(&1u32.to_be_bytes());
    ihdr.extend_from_slice(&[8, 6, 0, 0, 0]);
    chunk(&mut header, b"IHDR", &ihdr);

    // a zlib stream of three bytes
    let mut short = header.clone();
    chunk(&mut short, b"IDAT", &[0x78, 0x9c, 0x03]);
    chunk(&mut short, b"IEND", &[]);
    assert!(everpuzzle::engine::texture::Pixels::decode(&short).is_none());

    // a text chunk before the image data
    let mut text = header.clone();
    chunk(&mut text, b"tEXt", b"a\0b");
    chunk(&mut text, b"IDAT", &[0x78, 0x9c, 0x03, 0, 0, 0, 0, 1]);
    chunk(&mut text, b"IEND", &[]);
    assert!(everpuzzle::engine::texture::Pixels::decode(&text).is_none());

    // no end chunk
    let mut open = header.clone();
    chunk(&mut open, b"IDAT", &[0x78, 0x9c, 0x03, 0, 0, 0, 0, 1]);
    assert!(everpuzzle::engine::texture::Pixels::decode(&open).is_none());
}
