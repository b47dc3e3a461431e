//! What a sketch is: a demonstration driven one frame at a time, and the
//! slot that holds the one that runs.
use vstd::prelude::*;
use crate::engine::State;
use crate::input::Input;
use crate::sketches::diagonals::Diagonals;
use crate::sketches::drawing::Drawing;
use crate::sketches::erase::Erase;
use crate::sketches::erase2::Erase2;
use crate::sketches::lines::Lines;
use crate::sketches::rand_static::RandStatic;
use crate::sketches::rects::Rects;
use crate::sketches::text::Text;

verus! {

/// Relies on rand::random: a value drawn from the thread-local generator;
/// nothing is known of it.
#[verifier::external_body]
pub(crate) fn random_u32() -> u32 {
    rand::random::<u32>()
}

pub trait Sketch: Sized {
    /// Sets up the canvas for the sketch and builds it.
    fn new(state: &mut State) -> (r: Self)
        requires
            old(state).wf(),
        ensures
            final(state).wf(),
    ;

    /// Draws one frame; times are in milliseconds.
    fn update(&mut self, state: &mut State, input: &Input, new_time: u32, old_time: u32)
        requires
            old(state).wf(),
            input.wf(),
        ensures
            final(state).wf(),
    ;
}

/// How a host lists a sketch.
pub struct SketchDescriptor {
    pub name: &'static str,
    pub mobile: bool,
    pub desktop: bool,
    pub public: bool,
    pub url: &'static str,
}

/// One sketch of each kind.
pub enum AnySketch {
    RandStatic(RandStatic),
    Diagonals(Diagonals),
    Lines(Lines),
    Rects(Rects),
    Drawing(Drawing),
    Text(Text),
    Erase(Erase),
    Erase2(Erase2),
}

/// Number of sketches that `SketchContainer::start` can build.
pub const SKETCH_COUNT: usize = 8;

/// The listing of sketch `i`, in the order that `start` numbers them.
pub fn sketch_descriptor(i: usize) -> (r: Option<SketchDescriptor>)
    ensures
        r is Some <==> i < SKETCH_COUNT,
{
    if i == 0 {
        Some(SketchDescriptor { name: "Random Static", mobile: true, desktop: true, public: true, url: "random-static" })
    } else if i == 1 {
        Some(SketchDescriptor { name: "Diagonals", mobile: true, desktop: true, public: true, url: "diagonals" })
    } else if i == 2 {
        Some(SketchDescriptor { name: "Lines", mobile: true, desktop: true, public: true, url: "lines" })
    } else if i == 3 {
        Some(SketchDescriptor { name: "Rectangles", mobile: true, desktop: true, public: true, url: "rectangles" })
    } else if i == 4 {
        Some(SketchDescriptor { name: "Drawing", mobile: true, desktop: true, public: true, url: "drawing" })
    } else if i == 5 {
        Some(SketchDescriptor { name: "Text", mobile: true, desktop: true, public: true, url: "text" })
    } else if i == 6 {
        Some(SketchDescriptor { name: "Erase", mobile: true, desktop: true, public: true, url: "erase" })
    } else if i == 7 {
        Some(SketchDescriptor { name: "Erase 2", mobile: true, desktop: true, public: true, url: "erase-2" })
    } else {
        None
    }
}

/// The slot that holds the running sketch, if any.
pub struct SketchContainer(pub Option<AnySketch>);

impl SketchContainer {
    /// Builds sketch `index` in the slot; an index past the last leaves the
    /// slot as it was.
    pub fn start(&mut self, state: &mut State, index: usize)
        requires
            old(state).wf(),
        ensures
            final(state).wf(),
            index < SKETCH_COUNT ==> final(self).0 is Some,
            index >= SKETCH_COUNT ==> final(self).0 == old(self).0 && *final(state) == *old(state),
    {
        if index == 0 {
            self.0 = Some(AnySketch::RandStatic(RandStatic::new(state)));
        } else if index == 1 {
            self.0 = Some(AnySketch::Diagonals(Diagonals::new(state)));
        } else if index == 2 {
            self.0 = Some(AnySketch::Lines(Lines::new(state)));
        } else if index == 3 {
            self.0 = Some(AnySketch::Rects(Rects::new(state)));
        } else if index == 4 {
            self.0 = Some(AnySketch::Drawing(Drawing::new(state)));
        } else if index == 5 {
            self.0 = Some(AnySketch::Text(Text::new(state)));
        } else if index == 6 {
            self.0 = Some(AnySketch::Erase(Erase::new(state)));
        } else if index == 7 {
            self.0 = Some(AnySketch::Erase2(Erase2::new(state)));
        }
    }

    /// Advances the running sketch by one frame, if there is one.
    pub fn update(&mut self, state: &mut State, input: &Input, new_time: u32, old_time: u32)
        requires
            old(state).wf(),
            input.wf(),
        ensures
            final(state).wf(),
    {
        match &mut self.0 {
            Some(AnySketch::RandStatic(s)) => s.update(state, input, new_time, old_time),
            Some(AnySketch::Diagonals(s)) => s.update(state, input, new_time, old_time),
            Some(AnySketch::Lines(s)) => s.update(state, input, new_time, old_time),
            Some(AnySketch::Rects(s)) => s.update(state, input, new_time, old_time),
            Some(AnySketch::Drawing(s)) => s.update(state, input, new_time, old_time),
            Some(AnySketch::Text(s)) => s.update(state, input, new_time, old_time),
            Some(AnySketch::Erase(s)) => s.update(state, input, new_time, old_time),
            Some(AnySketch::Erase2(s)) => s.update(state, input, new_time, old_time),
            None => {},
        }
    }
}

} // verus!
