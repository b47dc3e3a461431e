use pico_raster::engine::{Point, State};
use pico_raster::input::{Input, MouseButtonState};
use pico_raster::sketch::{sketch_descriptor, Sketch, SketchContainer, SKETCH_COUNT};
use pico_raster::sketches::diagonals::Diagonals;
use pico_raster::sketches::erase::Erase;
use pico_raster::sketches::text::Text;

#[test]
fn button_edges_follow_two_frames() {
    let mut input = Input::new();
    assert_eq!(input.get_pointer_btn(0, 0), MouseButtonState::Up);
    input.set_pointer_state(0, 1);
    assert_eq!(input.get_pointer_btn(0, 0), MouseButtonState::DownThisFrame);
    assert!(input.pointer_btn(0, 0));
    assert!(input.pointer_btn_this_frame(0, 0));
    input.advance_frame();
    assert_eq!(input.get_pointer_btn(0, 0), MouseButtonState::Down);
    assert!(!input.pointer_btn_this_frame(0, 0));
    input.set_pointer_state(0, 0);
    assert_eq!(input.get_pointer_btn(0, 0), MouseButtonState::UpThisFrame);
    assert!(!input.btn(0));
    assert!(input.btn_this_frame(0));
    input.advance_frame();
    assert_eq!(input.get_mouse_btn(0), MouseButtonState::Up);
    input.set_pointer_state(3, 4);
    assert_eq!(input.get_pointer_btn(3, 2), MouseButtonState::DownThisFrame);
    assert_eq!(input.get_pointer_btn(3, 1), MouseButtonState::Up);
    assert_eq!(input.get_pointer_btn(10, 0), MouseButtonState::Up);
    assert_eq!(input.get_pointer_btn(0, 6), MouseButtonState::Up);
}

#[test]
fn pointer_positions_and_counts() {
    let mut input = Input::new();
    input.set_pointer_pos(0, 3, 4);
    input.set_pointer_pos(2, 5, 6);
    input.set_pointer_pos(12, 1, 1);
    assert!(input.has_any_pointer_position_changed());
    assert_eq!(input.get_mouse_pos(), Some(Point { x: 3, y: 4 }));
    assert_eq!(input.get_active_pointer_count(), 2);
    assert_eq!(input.get_last_active_pointer_count(), 0);
    input.advance_frame();
    assert!(!input.has_any_pointer_position_changed());
    input.set_pointer_end(0);
    assert_eq!(input.get_pointer_position(0), None);
    assert_eq!(input.get_last_pointer_position(0), Some(Point { x: 3, y: 4 }));
    assert_eq!(input.get_active_pointer_count(), 1);
    assert_eq!(input.get_last_active_pointer_count(), 2);
}

#[test]
fn mouse_buttons_settle() {
    let mut input = Input::new();
    input.set_mouse_button(1, true);
    assert_eq!(input.mouse_buttons[1], MouseButtonState::DownThisFrame);
    input.advance_frame();
    assert_eq!(input.mouse_buttons[1], MouseButtonState::Down);
    input.set_mouse_button(1, false);
    input.advance_frame();
    assert_eq!(input.mouse_buttons[1], MouseButtonState::Up);
    input.set_mouse_button(9, true);
    assert_eq!(input.mouse_buttons.len(), 5);
}

fn font_with_exclamation() -> Vec<u8> {
    let mut font = vec![0u8; 760];
    font[0] = 0b0000_0001;
    font[1] = 0b0000_0100;
    font
}

#[test]
fn text_draws_glyph_bits() {
    let mut st = State::new();
    let font = font_with_exclamation();
    st.prnt(&font, "!", 10, 20, 1, 1, 7);
    assert_eq!(st.pget(10, 20), Some(7));
    assert_eq!(st.pget(12, 21), Some(7));
    assert_eq!(st.pget(11, 20), Some(0));
    st.prnt(&font, "a !\r\n!", 40, 40, 2, 2, 5);
    assert_eq!(st.pget(56, 40), Some(5));
    assert_eq!(st.pget(57, 41), Some(5));
    assert_eq!(st.pget(40, 49), Some(5));
    assert_eq!(st.pget(40, 40), Some(0));
}

#[test]
fn diagonals_paint_bands() {
    let mut st = State::new();
    let mut d = Diagonals::new(&mut st);
    let input = Input::new();
    d.update(&mut st, &input, 16, 0);
    assert_eq!(d.count, 1);
    assert_eq!(st.pget(0, 0), Some(1));
    assert_eq!(st.pget(3, 4), Some(8));
    assert_eq!(st.pget(10, 10), Some(5));
}

#[test]
fn sketch_container_runs_sketches() {
    let mut st = State::new();
    let input = Input::new();
    let mut slot = SketchContainer(None);
    slot.start(&mut st, SKETCH_COUNT);
    assert!(slot.0.is_none());
    for i in 0..SKETCH_COUNT {
        slot.start(&mut st, i);
        assert!(slot.0.is_some());
        slot.update(&mut st, &input, 16, 0);
        assert!(sketch_descriptor(i).is_some());
    }
    assert!(sketch_descriptor(SKETCH_COUNT).is_none());
    let text = Text::with_font(&mut st, font_with_exclamation());
    assert_eq!(text.count, 0);
    assert_eq!(st.WIDTH(), 480);
}

#[test]
fn erase_reveals_pattern_under_pointer() {
    let mut st = State::new();
    let mut input = Input::new();
    let mut e = Erase::new(&mut st);
    assert_eq!(st.WIDTH(), 512);
    assert!(st.transparency[1]);
    assert!(!st.transparency[0]);
    input.set_pointer_pos(0, 100, 100);
    e.update(&mut st, &input, 16, 0);
    assert_eq!(e.last_mouse, Some(Point { x: 100, y: 100 }));
    st.set_target(2).unwrap();
    assert_eq!(st.pget(100, 100), Some(1));
    st.set_target(0).unwrap();
    assert_eq!(st.pget(100, 100), Some(2));
    assert_eq!(st.pget(0, 0), Some(0));
    assert_eq!(st.pget(4, 0), Some(1));
    input.set_pointer_pos(0, 140, 100);
    e.update(&mut st, &input, 32, 16);
    st.set_target(2).unwrap();
    assert_eq!(st.pget(120, 100), Some(1));
    assert_eq!(st.pget(120, 108), Some(1));
}

#[test]
fn erase_constructor_prepares_surfaces() {
    let mut st = State::new();
    let e = pico_raster::sketches::erase::new(&mut st);
    assert_eq!(e.radius, 10);
    assert_eq!(st.get_target(), 2);
    assert_eq!(st.pget(5, 9), Some(3));
    assert_eq!(st.pget(511, 511), Some(14));
    st.set_target(1).unwrap();
    assert_eq!(st.pget(5, 9), Some(0));
}
