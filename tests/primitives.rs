use pico_raster::engine::{Point, State};
use pico_raster::fills::fat_line_normal;
use pico_raster::sketches::circle_rect::CircleRect;
use pico_raster::input::Input;
use pico_raster::sketch::{Sketch, SketchContainer};
use pico_raster::sketches::lines::Lines;
use pico_raster::sketches::rand_static::RandStatic;
use pico_raster::sketches::rects::Rects;

fn count_colour(st: &State, c: u8) -> usize {
    let mut n = 0;
    for y in 0..st.HEIGHT() as i32 {
        for x in 0..st.WIDTH() as i32 {
            if st.pget(x, y) == Some(c) {
                n += 1;
            }
        }
    }
    n
}

#[test]
fn poly_line_open_and_closed() {
    let pts = [Point { x: 10, y: 10 }, Point { x: 20, y: 10 }, Point { x: 20, y: 20 }];
    let mut st = State::new();
    st.poly_line(&pts, 3, false);
    assert_eq!(st.pget(15, 10), Some(3));
    assert_eq!(st.pget(20, 15), Some(3));
    assert_eq!(st.pget(15, 15), Some(0));
    assert_eq!(count_colour(&st, 3), 21);
    st.poly_line(&pts, 4, true);
    assert_eq!(st.pget(15, 15), Some(4));
    let mut st = State::new();
    st.poly_line(&pts[..1], 6, true);
    assert_eq!(count_colour(&st, 6), 1);
    st.poly_line(&pts[..0], 6, true);
    assert_eq!(count_colour(&st, 6), 1);
}

#[test]
fn fans_outline_and_fill() {
    let quad = [
        Point { x: 10, y: 10 },
        Point { x: 30, y: 10 },
        Point { x: 30, y: 30 },
        Point { x: 10, y: 30 },
    ];
    let mut st = State::new();
    st.tri_fan(&quad, 2);
    assert_eq!(st.pget(20, 10), Some(2));
    assert_eq!(st.pget(20, 20), Some(2));
    assert_eq!(st.pget(25, 15), Some(0));
    st.tri_fill_fan(&quad, 5);
    assert_eq!(st.pget(25, 15), Some(5));
    assert_eq!(st.pget(15, 25), Some(5));
    assert_eq!(st.pget(31, 20), Some(5));
    assert_eq!(st.pget(32, 20), Some(0));
    let mut st = State::new();
    st.tri_fill_fan(&quad[..2], 7);
    assert_eq!(count_colour(&st, 7), 21);
}

#[test]
fn fat_line_covers_a_band() {
    let mut st = State::new();
    st.fat_line(20, 50, 80, 50, 5, false, 9);
    assert_eq!(st.pget(50, 50), Some(9));
    assert_eq!(st.pget(50, 46), Some(9));
    assert_eq!(st.pget(50, 54), Some(9));
    assert_eq!(st.pget(50, 57), Some(0));
    assert_eq!(st.pget(16, 50), Some(0));
    st.fat_line(20, 50, 80, 50, 5, true, 9);
    assert_eq!(st.pget(16, 50), Some(9));
    assert_eq!(st.pget(84, 50), Some(9));
}

#[test]
fn fat_line_normal_values() {
    assert_eq!(fat_line_normal(0, 0, 10, 0, 5), (0, -5));
    assert_eq!(fat_line_normal(0, 0, 0, 10, 5), (5, 0));
    assert_eq!(fat_line_normal(0, 0, 3, 4, 10), (8, -6));
    assert_eq!(fat_line_normal(0, 0, 1, 1, 10), (7, -7));
    assert_eq!(fat_line_normal(5, 5, 5, 5, 10), (0, 0));
    assert_eq!(fat_line_normal(0, 0, -3, -4, 10), (-8, 6));
    assert_eq!(fat_line_normal(0, 0, 3, 4, -10), (-8, 6));
    assert_eq!(fat_line_normal(i32::MIN, 0, i32::MAX, 0, i32::MIN), (0, 2147483648));
}

#[test]
fn fat_line_of_length_zero_is_its_caps() {
    let mut st = State::new();
    st.fat_line(40, 40, 40, 40, 3, true, 4);
    assert_eq!(st.pget(40, 40), Some(4));
    assert_eq!(st.pget(43, 40), Some(4));
    assert_eq!(st.pget(44, 40), Some(0));
}

#[test]
fn init_resets_and_update_advances_input() {
    let mut st = State::new();
    let mut input = Input::new();
    let mut active = SketchContainer(None);
    st.camera_set(3, 3);
    st.palt(0, false);
    st.palette[0] = 99;
    st.palette[100] = 42;
    input.set_pointer_pos(1, 4, 4);
    pico_raster::init(&mut st, &mut input, &mut active, 99);
    assert!(active.0.is_none());
    assert_eq!(st.offset, Point { x: 0, y: 0 });
    assert!(st.transparency[0]);
    assert_eq!(st.palette[0], 0);
    assert_eq!(st.palette[100], 42);
    assert_eq!(input.get_pointer_position(1), None);
    pico_raster::init(&mut st, &mut input, &mut active, 1);
    assert!(active.0.is_some());
    input.set_pointer_pos(0, 1, 2);
    input.set_pointer_state(0, 1);
    pico_raster::update(&mut st, &mut input, &mut active, 0, 16);
    assert_eq!(input.get_last_pointer_position(0), Some(Point { x: 1, y: 2 }));
    assert!(!input.has_any_pointer_state_changed());
    assert_eq!(st.pget(0, 0), Some(1));
}

#[test]
fn random_sketches_stay_in_range() {
    let mut st = State::new();
    let input = Input::new();
    let mut s = RandStatic::new(&mut st);
    s.update(&mut st, &input, 16, 0);
    for y in 0..128 {
        for x in 0..128 {
            assert!(st.pget(x, y).unwrap() < 16);
        }
    }
    let mut st = State::new();
    let mut r = Rects::new(&mut st);
    for _ in 0..20 {
        r.update(&mut st, &input, 16, 0);
    }
    for y in 0..128 {
        for x in 0..128 {
            assert!(st.pget(x, y).unwrap() < 16);
        }
    }
}

#[test]
fn lines_sketch_uses_largest_canvas() {
    let mut st = State::new();
    let input = Input::new();
    let mut l = Lines::new(&mut st);
    assert_eq!(st.WIDTH(), 1024);
    assert_eq!(st.HEIGHT(), 1024);
    l.update(&mut st, &input, 16, 0);
    assert!(st.pget(1023, 1023).unwrap() < 16);
}

#[test]
fn reset_restores_defaults() {
    let mut st = State::new();
    st.set_dimensions(300, 200).unwrap();
    st.set_target(2).unwrap();
    st.palette_swap[5] = 0;
    st.reset();
    assert_eq!(st.WIDTH(), 128);
    assert_eq!(st.get_target(), 0);
    assert_eq!(st.palette_swap[5], 5);
    assert_eq!(st.clip_rect.r, 128);
}

#[test]
fn circle_rect_nests_outlines() {
    let mut st = State::new();
    let sketch = CircleRect::new(&mut st);
    sketch.draw(&mut st, 100, 100);
    assert_eq!(st.pget(80, 64), Some(1));
    assert_eq!(st.pget(80, 65), Some(2));
    assert_eq!(st.pget(127, 64), Some(9));
    assert_eq!(st.pget(10, 10), Some(0));
}
