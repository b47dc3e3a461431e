use pico_raster::engine::{EngineError, State, MAX_SCREEN_SIZE};
use pico_raster::geometry::{rect_swap, wrap_byte};
use pico_raster::shapes::PixelSink;

fn canvas_pixel(st: &State, x: i32, y: i32) -> u8 {
    st.pget(x, y).unwrap()
}

#[test]
fn wrap_byte_values() {
    assert_eq!(wrap_byte(0), 0);
    assert_eq!(wrap_byte(255), 255);
    assert_eq!(wrap_byte(256), 0);
    assert_eq!(wrap_byte(300), 44);
    assert_eq!(wrap_byte(-1), 255);
    assert_eq!(wrap_byte(-257), 255);
    assert_eq!(wrap_byte(i32::MIN), 0);
    assert_eq!(wrap_byte(i32::MAX), 255);
}

#[test]
fn wrap_byte_is_periodic() {
    for c in [-1000, -3, 0, 7, 199, 4000] {
        for k in [-5, -1, 1, 3] {
            assert_eq!(wrap_byte(c), wrap_byte(c + 256 * k));
        }
    }
}

#[test]
fn rect_swap_orders_pairs() {
    assert_eq!(rect_swap(5, 9, 1, 2), (1, 2, 5, 9));
    assert_eq!(rect_swap(1, 9, 5, 2), (1, 2, 5, 9));
    assert_eq!(rect_swap(1, 2, 5, 9), (1, 2, 5, 9));
}

#[test]
fn new_state_defaults() {
    let st = State::new();
    assert_eq!(st.WIDTH(), 128);
    assert_eq!(st.HEIGHT(), 128);
    assert_eq!(st.get_target(), 0);
    assert!(st.transparency[0]);
    assert!(!st.transparency[1]);
    assert_eq!(&st.palette[3..6], &[29, 43, 83]);
    assert_eq!(st.palette_swap[200], 200);
}

#[test]
fn rect_fill_scenario() {
    let mut st = State::new();
    st.cls(0);
    st.rect_fill(10, 10, 20, 20, 5);
    assert_eq!(st.pget(15, 15), Some(5));
    assert_eq!(st.pget(9, 9), Some(0));
    assert_eq!(st.pget(25, 25), Some(0));
    assert_eq!(st.pget(10, 20), Some(5));
    assert_eq!(st.pget(21, 20), Some(0));
}

#[test]
fn rect_fill_clamps_and_wraps_colour() {
    let mut st = State::new();
    st.rect_fill(120, 120, 500, 500, -2);
    assert_eq!(st.pget(127, 127), Some(254));
    assert_eq!(st.pget(120, 120), Some(254));
    assert_eq!(st.pget(119, 127), Some(0));
    assert_eq!(st.pget(128, 128), None);
}

#[test]
fn rect_fill_needs_a_corner_on_canvas() {
    let mut st = State::new();
    st.rect_fill(-5, -5, 200, 200, 3);
    assert_eq!(st.pget(64, 64), Some(0));
}

#[test]
fn clear_then_fill_whole_canvas() {
    let mut st = State::new();
    st.cls(3);
    st.rect_fill(0, 0, 127, 127, 9);
    for y in 0..128 {
        for x in 0..128 {
            assert_eq!(canvas_pixel(&st, x, y), 9);
        }
    }
}

#[test]
fn pset_and_pget_follow_the_camera() {
    let mut st = State::new();
    st.camera_set(5, 5);
    st.pset(10, 10, 4);
    assert_eq!(st.pget(10, 10), Some(4));
    st.camera_set(0, 0);
    assert_eq!(st.pget(5, 5), Some(4));
    assert_eq!(st.pget(10, 10), Some(0));
    assert_eq!(st.pget(-1, 0), None);
}

#[test]
fn point_line_sets_one_pixel() {
    let mut st = State::new();
    st.line(7, 9, 7, 9, 12);
    let mut count = 0;
    for y in 0..128 {
        for x in 0..128 {
            if canvas_pixel(&st, x, y) != 0 {
                count += 1;
            }
        }
    }
    assert_eq!(count, 1);
    assert_eq!(st.pget(7, 9), Some(12));
}

#[test]
fn diagonal_line_hits_both_ends() {
    let mut st = State::new();
    st.line(0, 0, 10, 5, 6);
    assert_eq!(st.pget(0, 0), Some(6));
    assert_eq!(st.pget(10, 5), Some(6));
    let mut count = 0;
    for y in 0..128 {
        for x in 0..128 {
            if canvas_pixel(&st, x, y) == 6 {
                count += 1;
            }
        }
    }
    assert_eq!(count, 11);
}

#[test]
fn circle_is_octant_symmetric() {
    let (cx, cy) = (64, 64);
    for r in 1..=40 {
        let mut st = State::new();
        st.circ(cx, cy, r, 3);
        for y in 0..128 {
            for x in 0..128 {
                if canvas_pixel(&st, x, y) == 3 {
                    let (dx, dy) = (x - cx, y - cy);
                    for (ex, ey) in [(-dx, dy), (dx, -dy), (dy, dx), (-dy, -dx)] {
                        assert_eq!(canvas_pixel(&st, cx + ex, cy + ey), 3, "radius {}", r);
                    }
                }
            }
        }
        assert_eq!(st.pget(cx + r, cy), Some(3));
        assert_eq!(st.pget(cx, cy - r), Some(3));
    }
}

#[test]
fn small_circle_fills() {
    let mut st = State::new();
    st.circ_fill(10, 10, 0, 2);
    assert_eq!(st.pget(10, 10), Some(2));
    st.circ_fill(30, 30, 1, 4);
    assert_eq!(st.pget(30, 30), Some(4));
    assert_eq!(st.pget(31, 30), Some(4));
    assert_eq!(st.pget(30, 29), Some(4));
    assert_eq!(st.pget(31, 31), Some(0));
}

#[test]
fn circle_fill_respects_clip() {
    let mut st = State::new();
    st.set_clip(0, 0, 10, 10);
    st.circ_fill(5, 5, 100, 7);
    for y in 0..128 {
        for x in 0..128 {
            let inside = x < 10 && y < 10;
            assert_eq!(canvas_pixel(&st, x, y) == 7, inside, "pixel {} {}", x, y);
        }
    }
}

#[test]
fn circle_fill_radius_three() {
    let mut st = State::new();
    st.circ_fill(20, 20, 3, 5);
    assert_eq!(st.pget(20, 20), Some(5));
    assert_eq!(st.pget(23, 20), Some(5));
    assert_eq!(st.pget(17, 20), Some(5));
    assert_eq!(st.pget(20, 17), Some(5));
    assert_eq!(st.pget(24, 20), Some(0));
    assert_eq!(st.pget(23, 23), Some(0));
}

#[test]
fn set_clip_off_canvas_disables_fills() {
    let mut st = State::new();
    st.set_clip(200, 200, 10, 10);
    assert!(st.clip_rect.r < st.clip_rect.l);
    st.circ_fill(64, 64, 10, 7);
    st.tri_fill(0, 0, 100, 0, 0, 100, 7);
    for y in 0..128 {
        for x in 0..128 {
            assert_eq!(canvas_pixel(&st, x, y), 0);
        }
    }
}

#[test]
fn triangle_fill_covers_its_corners() {
    let mut st = State::new();
    st.tri_fill(10, 10, 30, 10, 10, 30, 8);
    assert_eq!(st.pget(10, 10), Some(8));
    assert_eq!(st.pget(15, 15), Some(8));
    assert_eq!(st.pget(10, 30), Some(8));
    assert_eq!(st.pget(40, 40), Some(0));
    assert_eq!(st.pget(9, 15), Some(0));
}

#[test]
fn triangle_outline() {
    let mut st = State::new();
    st.tri(10, 10, 30, 10, 10, 30, 8);
    assert_eq!(st.pget(20, 10), Some(8));
    assert_eq!(st.pget(10, 20), Some(8));
    assert_eq!(st.pget(20, 20), Some(8));
    assert_eq!(st.pget(15, 15), Some(0));
}

#[test]
fn rect_outline_draws_visible_edges() {
    let mut st = State::new();
    st.rect(10, 10, 20, 30, 2);
    assert_eq!(st.pget(15, 10), Some(2));
    assert_eq!(st.pget(15, 30), Some(2));
    assert_eq!(st.pget(10, 20), Some(2));
    assert_eq!(st.pget(20, 20), Some(2));
    assert_eq!(st.pget(15, 20), Some(0));
    let mut st = State::new();
    st.rect(100, 100, 200, 110, 2);
    assert_eq!(st.pget(127, 100), Some(2));
    assert_eq!(st.pget(100, 105), Some(2));
    assert_eq!(st.pget(127, 105), Some(0));
}

#[test]
fn span_buffer_tracks_extremes() {
    let mut st = State::new();
    st.init_sides_buffer();
    assert_eq!(st.sides_left[5], 128);
    assert_eq!(st.sides_right[5], -1);
    st.set_side_pixel(40, 5);
    st.set_side_pixel(12, 5);
    st.set_side_pixel(30, 5);
    assert_eq!(st.sides_left[5], 12);
    assert_eq!(st.sides_right[5], 40);
    st.circ_with_pixel_func(20, 6, 3, 1, PixelSink::Span);
    assert_eq!(st.sides_left[6], 17);
    assert_eq!(st.sides_right[6], 23);
    assert_eq!(st.pget(17, 6), Some(0));
}

#[test]
fn hline_fills_span() {
    let mut st = State::new();
    st.hline(3, 6, 2, 9);
    assert_eq!(st.pget(3, 2), Some(9));
    assert_eq!(st.pget(6, 2), Some(9));
    assert_eq!(st.pget(7, 2), Some(0));
    st.hline(6, 3, 4, 9);
    assert_eq!(st.pget(4, 4), Some(0));
}

#[test]
fn set_dimensions_limits() {
    let mut st = State::new();
    assert_eq!(st.set_dimensions(2048, 2048), Err(EngineError::CanvasTooLarge));
    assert_eq!(st.WIDTH(), 128);
    assert_eq!(st.set_dimensions(MAX_SCREEN_SIZE + 1, 1), Err(EngineError::CanvasTooLarge));
    assert_eq!(st.set_dimensions(256, 64), Ok(()));
    assert_eq!(st.WIDTH(), 256);
    assert_eq!(st.clip_rect.r, 256);
    assert_eq!(st.clip_rect.b, 64);
}

#[test]
fn set_target_checks_id() {
    let mut st = State::new();
    assert_eq!(st.set_target(4), Err(EngineError::InvalidSurface));
    assert_eq!(st.set_target(2), Ok(()));
    st.cls(6);
    assert_eq!(st.pget(0, 0), Some(6));
    st.set_target(0).unwrap();
    assert_eq!(st.pget(0, 0), Some(0));
}

#[test]
fn limits_clamp_into_canvas() {
    let st = State::new();
    assert_eq!(st.limit_x(-4), 0);
    assert_eq!(st.limit_x(500), 127);
    assert_eq!(st.limit_point(5, 200), (5, 127));
    assert!(st.is_point_on_screen(0, 127));
    assert!(!st.is_point_on_screen(128, 0));
}

#[test]
fn rect_fill_tests_the_ordered_corners() {
    let mut st = State::new();
    st.rect_fill(-5, 5, 5, -5, 7);
    assert_eq!(st.pget(0, 0), Some(7));
    assert_eq!(st.pget(5, 5), Some(7));
    let mut other = State::new();
    other.rect_fill(5, 5, -5, -5, 7);
    for y in 0..128 {
        for x in 0..128 {
            assert_eq!(st.pget(x, y), other.pget(x, y));
        }
    }
    let mut st = State::new();
    st.rect_fill(50, 10, -5, 200, 7);
    assert_eq!(st.pget(20, 10), Some(0));
    assert_eq!(st.pget(50, 10), Some(0));
}

#[test]
fn rect_draws_each_visible_edge() {
    let mut st = State::new();
    st.rect(-5, 10, 200, 20, 3);
    assert_eq!(st.pget(0, 10), Some(3));
    assert_eq!(st.pget(127, 10), Some(3));
    assert_eq!(st.pget(64, 20), Some(3));
    assert_eq!(st.pget(64, 15), Some(0));
    assert_eq!(st.pget(0, 15), Some(0));
    let mut st = State::new();
    st.rect(200, 10, 300, 20, 3);
    assert_eq!(st.pget(127, 10), Some(0));
}

#[test]
fn set_dimensions_bounds_only_the_area() {
    let mut st = State::new();
    assert_eq!(st.set_dimensions(MAX_SCREEN_SIZE + 1, 0), Ok(()));
    assert_eq!(st.WIDTH(), MAX_SCREEN_SIZE + 1);
    st.circ_fill(3, 3, 5, 2);
    st.rect(0, 0, 4, 4, 2);
    assert_eq!(st.pget(0, 0), None);
    assert_eq!(st.set_dimensions(0, 5_000_000), Ok(()));
    st.tri_fill(0, 0, 4, 0, 0, 4, 1);
    assert_eq!(st.set_dimensions(1025, 1024), Err(EngineError::CanvasTooLarge));
}
