//! An indexed-colour software rasterizer: surfaces of palette indices, a
//! clip rectangle and camera offset, scan-converted primitives, surface
//! compositing, bitmap text and double-buffered pointer input.
use vstd::prelude::*;

pub mod geometry;
pub mod engine;
pub mod raster;
pub mod compositor;
pub mod spritesheet;
pub mod shapes;
pub mod fills;
pub mod input;
pub mod text;
pub mod fans;
pub mod sketch;
pub mod sketches;
pub mod laws;

use crate::engine::State;
use crate::input::Input;
use crate::sketch::{SketchContainer, SKETCH_COUNT};

verus! {

/// Starts the engine: settings back to their defaults, no pointer present,
/// and sketch `index` built in `active` when there is such a sketch.
pub fn init(state: &mut State, input: &mut Input, active: &mut SketchContainer, index: usize)
    requires
        old(state).wf(),
        old(input).wf(),
    ensures
        final(state).wf(),
        final(input).wf(),
        forall|i: int| 0 <= i < input::POINTER_COUNT ==> #[trigger] final(input).pointer_pos@[i] is None,
        index < SKETCH_COUNT ==> final(active).0 is Some,
        index >= SKETCH_COUNT ==> final(active).0 == old(active).0,
        index >= SKETCH_COUNT ==> {
            &&& forall|i: int| 0 <= i < 48 ==> #[trigger] final(state).palette@[i] == engine::DEFAULT_COLORS[i]
            &&& forall|i: int|
                48 <= i < engine::NUM_COLORS * 3 ==> #[trigger] final(state).palette@[i] == old(state).palette@[i]
            &&& forall|i: int| 0 <= i < engine::NUM_COLORS ==> #[trigger] final(state).palette_swap@[i] == i
            &&& forall|i: int| 0 <= i < engine::NUM_COLORS ==> #[trigger] final(state).transparency@[i] == (i == 0)
            &&& final(state).offset == (engine::Point { x: 0, y: 0 })
            &&& final(state).width == engine::DEFAULT_WIDTH
            &&& final(state).height == engine::DEFAULT_HEIGHT
            &&& final(state).clip_rect == (engine::ClipRect {
                l: 0,
                t: 0,
                r: engine::DEFAULT_WIDTH as i64,
                b: engine::DEFAULT_HEIGHT as i64,
            })
            &&& final(state).target == 0
            &&& final(state).surfaces@ == old(state).surfaces@
        },
{
    state.reset();
    input.clear_pointers();
    active.start(state, index);
}

/// Runs one frame: the active sketch draws, given the previous and the new
/// time in milliseconds, then the frame's input becomes the last frame's.
pub fn update(
    state: &mut State,
    input: &mut Input,
    active: &mut SketchContainer,
    old_time: u32,
    new_time: u32,
)
    requires
        old(state).wf(),
        old(input).wf(),
    ensures
        final(state).wf(),
        final(input).wf(),
        final(input).last_pointer_pos@ == old(input).pointer_pos@,
        final(input).last_pointer_state@ == old(input).pointer_state@,
        final(input).pointer_pos@ == old(input).pointer_pos@,
        final(input).pointer_state@ == old(input).pointer_state@,
        !final(input).pointer_pos_changed,
        !final(input).pointer_state_changed,
        forall|i: int|
            0 <= i < input::MOUSE_BUTTON_COUNT ==> #[trigger] final(input).mouse_buttons@[i] == match old(
                input,
            ).mouse_buttons@[i] {
                input::MouseButtonState::UpThisFrame => input::MouseButtonState::Up,
                input::MouseButtonState::DownThisFrame => input::MouseButtonState::Down,
                input::MouseButtonState::Up => input::MouseButtonState::Up,
                input::MouseButtonState::Down => input::MouseButtonState::Down,
            },
{
    active.update(state, input, new_time, old_time);
    input.advance_frame();
}

} // verus!
