use pico_raster::engine::{EngineError, State, MAX_SCREEN_SIZE};

fn fill_surface(st: &mut State, s: u8, c: i32) {
    st.set_target(s).unwrap();
    st.cls(c);
    st.set_target(0).unwrap();
}

#[test]
fn copy_screen_overwrites_canvas() {
    let mut st = State::new();
    fill_surface(&mut st, 1, 5);
    st.set_target(1).unwrap();
    st.pset(3, 3, 0);
    st.set_target(0).unwrap();
    st.cls(2);
    st.copy_screen(1, 0);
    assert_eq!(st.pget(0, 0), Some(5));
    assert_eq!(st.pget(3, 3), Some(0));
    assert_eq!(st.surfaces[128 * 128], 2);
}

#[test]
fn keyed_copy_skips_transparent_colours() {
    let mut st = State::new();
    st.set_target(1).unwrap();
    st.cls(0);
    st.pset(1, 1, 7);
    st.pset(2, 2, 9);
    st.set_target(0).unwrap();
    st.cls(3);
    st.palt(9, true);
    st.copy_screen_with_transparency(1, 0);
    assert_eq!(st.pget(1, 1), Some(7));
    assert_eq!(st.pget(2, 2), Some(3));
    assert_eq!(st.pget(5, 5), Some(3));
}

#[test]
fn masked_copy_uses_stencil() {
    let mut st = State::new();
    fill_surface(&mut st, 1, 4);
    st.set_target(2).unwrap();
    st.cls(6);
    st.pset(0, 0, 0);
    st.set_target(0).unwrap();
    st.cls(1);
    st.copy_screen_with_transparency_mask(1, 0, 2);
    assert_eq!(st.pget(0, 0), Some(4));
    assert_eq!(st.pget(1, 0), Some(1));
}

#[test]
fn copy_sprite_clips_both_sides() {
    let mut st = State::new();
    st.set_target(1).unwrap();
    for y in 0..4 {
        for x in 0..4 {
            st.pset(x, y, 10 + x + 4 * y);
        }
    }
    st.set_target(0).unwrap();
    st.copy_sprite(1, 0, 0, 0, 126, 126, 4, 4);
    assert_eq!(st.pget(126, 126), Some(10));
    assert_eq!(st.pget(127, 127), Some(15));
    st.copy_sprite(1, 0, -1, -1, 20, 20, 3, 3);
    assert_eq!(st.pget(20, 20), Some(0));
    assert_eq!(st.pget(21, 21), Some(10));
    assert_eq!(st.pget(22, 21), Some(11));
}

#[test]
fn copy_sprite_with_transparency_keeps_background() {
    let mut st = State::new();
    st.set_target(1).unwrap();
    st.pset(0, 0, 0);
    st.pset(1, 0, 8);
    st.set_target(0).unwrap();
    st.cls(2);
    st.copy_sprite_with_transparency(1, 0, 0, 0, 50, 50, 2, 1);
    assert_eq!(st.pget(50, 50), Some(2));
    assert_eq!(st.pget(51, 50), Some(8));
}

fn sheet(width: u16, height: u16, pixels: &[u8]) -> Vec<u8> {
    let mut bytes = vec![(width & 255) as u8, (width >> 8) as u8, (height & 255) as u8, (height >> 8) as u8];
    for i in 0..768 {
        bytes.push((i * 7 % 256) as u8);
    }
    bytes.extend_from_slice(pixels);
    bytes
}

#[test]
fn sprite_sheet_decodes_and_round_trips() {
    let bytes = sheet(4, 2, &[1, 2, 3, 4, 5, 6, 7, 8]);
    let mut st = State::new();
    assert_eq!(st.load_spritesheet(&bytes), Ok(()));
    assert_eq!(&st.palette[..], &bytes[4..772]);
    st.set_target(3).unwrap();
    assert_eq!(st.pget(0, 0), Some(1));
    assert_eq!(st.pget(3, 0), Some(4));
    assert_eq!(st.pget(0, 1), Some(5));
    assert_eq!(st.pget(3, 1), Some(8));
    assert_eq!(st.pget(4, 0), Some(0));
    assert_eq!(st.surfaces[3 * MAX_SCREEN_SIZE + 128], 5);

    let mut again = vec![4, 0, 2, 0];
    again.extend_from_slice(&st.palette);
    for y in 0..2 {
        for x in 0..4 {
            again.push(st.pget(x, y).unwrap());
        }
    }
    assert_eq!(again, bytes);
    let mut other = State::new();
    assert_eq!(other.load_spritesheet(&again), Ok(()));
    assert_eq!(other.palette, st.palette);
    other.set_target(3).unwrap();
    for y in 0..2 {
        for x in 0..4 {
            assert_eq!(other.pget(x, y), st.pget(x, y));
        }
    }
}

#[test]
fn sprite_sheet_rejects_bad_input() {
    let mut st = State::new();
    assert_eq!(st.load_spritesheet(&[4, 0]), Err(EngineError::MalformedSpriteSheet));
    let short = sheet(4, 2, &[1, 2, 3]);
    assert_eq!(st.load_spritesheet(&short), Err(EngineError::MalformedSpriteSheet));
    let wide = sheet(200, 1, &[0; 200]);
    assert_eq!(st.load_spritesheet(&wide), Err(EngineError::MalformedSpriteSheet));
    assert_eq!(st.palette[3], 29);
}
