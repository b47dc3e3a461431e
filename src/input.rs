//! Double-buffered pointer input: up to ten pointer slots, each with a
//! position and a button bitmask for this frame and the last, plus a small
//! state machine for each of five mouse buttons.
use vstd::prelude::*;
use crate::engine::Point;

verus! {

pub const POINTER_COUNT: usize = 10;
pub const MOUSE_BUTTON_COUNT: usize = 5;
/// Number of buttons that a pointer's bitmask reports.
pub const BUTTON_COUNT: usize = 6;

#[derive(Clone, Copy, Debug, PartialEq, Eq, Structural)]
pub enum MouseButtonState {
    UpThisFrame,
    Up,
    DownThisFrame,
    Down,
}

/// The bit of button `b` in a pointer's bitmask: left, right, middle, back,
/// forward, eraser.
pub open spec fn button_bit(b: int) -> u32 {
    if b == 0 {
        1
    } else if b == 1 {
        2
    } else if b == 2 {
        4
    } else if b == 3 {
        8
    } else if b == 4 {
        16
    } else {
        32
    }
}

pub open spec fn pressed(mask: u32, b: int) -> bool {
    mask & button_bit(b) != 0
}

/// The edge state of a button from whether it is down now and was down in
/// the last frame.
pub open spec fn edge_state(now: bool, before: bool) -> MouseButtonState {
    if now && before {
        MouseButtonState::Down
    } else if now {
        MouseButtonState::DownThisFrame
    } else if before {
        MouseButtonState::UpThisFrame
    } else {
        MouseButtonState::Up
    }
}

/// How many slots hold a position.
pub open spec fn count_present(s: Seq<Option<Point>>) -> nat
    decreases s.len(),
{
    if s.len() == 0 {
        0
    } else {
        count_present(s.drop_last()) + if s.last() is Some {
            1nat
        } else {
            0nat
        }
    }
}

pub struct Input {
    pub mouse_buttons: Vec<MouseButtonState>,
    pub pointer_pos: Vec<Option<Point>>,
    pub last_pointer_pos: Vec<Option<Point>>,
    pub pointer_state: Vec<u32>,
    pub last_pointer_state: Vec<u32>,
    pub pointer_pos_changed: bool,
    pub pointer_state_changed: bool,
}

fn bit_of(b: u8) -> (r: u32)
    requires
        (b as usize) < BUTTON_COUNT,
    ensures
        r == button_bit(b as int),
{
    if b == 0 {
        1
    } else if b == 1 {
        2
    } else if b == 2 {
        4
    } else if b == 3 {
        8
    } else if b == 4 {
        16
    } else {
        32
    }
}

fn count_slots(v: &Vec<Option<Point>>) -> (r: usize)
    ensures
        r == count_present(v@),
{
    let mut n: usize = 0;
    let mut i: usize = 0;
    while i < v.len()
        invariant
            i <= v@.len(),
            n == count_present(v@.subrange(0, i as int)),
            n <= i,
        decreases v@.len() - i,
    {
        proof {
            assert(v@.subrange(0, i + 1).drop_last() =~= v@.subrange(0, i as int));
        }
        if v[i].is_some() {
            n = n + 1;
        }
        i = i + 1;
    }
    assert(v@.subrange(0, v@.len() as int) =~= v@);
    n
}

impl Input {
    pub open spec fn wf(&self) -> bool {
        &&& self.mouse_buttons@.len() == MOUSE_BUTTON_COUNT
        &&& self.pointer_pos@.len() == POINTER_COUNT
        &&& self.last_pointer_pos@.len() == POINTER_COUNT
        &&& self.pointer_state@.len() == POINTER_COUNT
        &&& self.last_pointer_state@.len() == POINTER_COUNT
    }

    /// No pointer present, no button down, nothing changed.
    pub fn new() -> (r: Input)
        ensures
            r.wf(),
            forall|i: int| 0 <= i < POINTER_COUNT ==> r.pointer_pos@[i] is None,
            forall|i: int| 0 <= i < POINTER_COUNT ==> r.last_pointer_pos@[i] is None,
            forall|i: int| 0 <= i < POINTER_COUNT ==> r.pointer_state@[i] == 0,
            forall|i: int| 0 <= i < POINTER_COUNT ==> r.last_pointer_state@[i] == 0,
            forall|i: int| 0 <= i < MOUSE_BUTTON_COUNT ==> r.mouse_buttons@[i] == MouseButtonState::Up,
            !r.pointer_pos_changed,
            !r.pointer_state_changed,
    {
        Input {
            mouse_buttons: vec![MouseButtonState::Up; MOUSE_BUTTON_COUNT],
            pointer_pos: vec![None; POINTER_COUNT],
            last_pointer_pos: vec![None; POINTER_COUNT],
            pointer_state: vec![0u32; POINTER_COUNT],
            last_pointer_state: vec![0u32; POINTER_COUNT],
            pointer_pos_changed: false,
            pointer_state_changed: false,
        }
    }

    /// Forgets every pointer position of this frame.
    pub fn clear_pointers(&mut self)
        requires
            old(self).wf(),
        ensures
            final(self).wf(),
            forall|i: int| 0 <= i < POINTER_COUNT ==> #[trigger] final(self).pointer_pos@[i] is None,
            *final(self) == (Input { pointer_pos: final(self).pointer_pos, ..*old(self) }),
    {
        let mut i: usize = 0;
        while i < POINTER_COUNT
            invariant
                self.wf(),
                i <= POINTER_COUNT,
                *self == (Input { pointer_pos: self.pointer_pos, ..*old(self) }),
                forall|k: int| 0 <= k < i ==> #[trigger] self.pointer_pos@[k] is None,
            decreases POINTER_COUNT - i,
        {
            self.pointer_pos.set(i, None);
            i = i + 1;
        }
    }

    /// Records the position of pointer `idx`; ignored for a slot past the last.
    pub fn set_pointer_pos(&mut self, idx: usize, x: i32, y: i32)
        requires
            old(self).wf(),
        ensures
            final(self).wf(),
            idx < POINTER_COUNT ==> *final(self) == (Input {
                pointer_pos: final(self).pointer_pos,
                pointer_pos_changed: true,
                ..*old(self)
            }) && final(self).pointer_pos@ == old(self).pointer_pos@.update(
                idx as int,
                Some(Point { x, y }),
            ),
            idx >= POINTER_COUNT ==> *final(self) == *old(self),
    {
        if idx < self.pointer_pos.len() {
            self.pointer_pos.set(idx, Some(Point { x, y }));
            self.pointer_pos_changed = true;
        }
    }

    /// Records that pointer `idx` left; ignored for a slot past the last.
    pub fn set_pointer_end(&mut self, idx: usize)
        requires
            old(self).wf(),
        ensures
            final(self).wf(),
            idx < POINTER_COUNT ==> *final(self) == (Input {
                pointer_pos: final(self).pointer_pos,
                pointer_pos_changed: true,
                ..*old(self)
            }) && final(self).pointer_pos@ == old(self).pointer_pos@.update(idx as int, None),
            idx >= POINTER_COUNT ==> *final(self) == *old(self),
    {
        if idx < self.pointer_pos.len() {
            self.pointer_pos.set(idx, None);
            self.pointer_pos_changed = true;
        }
    }

    /// Records the button bitmask of pointer `idx`; ignored for a slot past the last.
    pub fn set_pointer_state(&mut self, idx: usize, btns: u32)
        requires
            old(self).wf(),
        ensures
            final(self).wf(),
            idx < POINTER_COUNT ==> *final(self) == (Input {
                pointer_state: final(self).pointer_state,
                pointer_state_changed: true,
                ..*old(self)
            }) && final(self).pointer_state@ == old(self).pointer_state@.update(idx as int, btns),
            idx >= POINTER_COUNT ==> *final(self) == *old(self),
    {
        if idx < self.pointer_state.len() {
            self.pointer_state.set(idx, btns);
            self.pointer_state_changed = true;
        }
    }

    /// Records a press or release of mouse button `btn_num`; ignored past the last.
    pub fn set_mouse_button(&mut self, btn_num: u8, down: bool)
        requires
            old(self).wf(),
        ensures
            final(self).wf(),
            (btn_num as usize) < MOUSE_BUTTON_COUNT ==> *final(self) == (Input {
                mouse_buttons: final(self).mouse_buttons,
                ..*old(self)
            }) && final(self).mouse_buttons@ == old(self).mouse_buttons@.update(
                btn_num as int,
                if down {
                    MouseButtonState::DownThisFrame
                } else {
                    MouseButtonState::UpThisFrame
                },
            ),
            (btn_num as usize) >= MOUSE_BUTTON_COUNT ==> *final(self) == *old(self),
    {
        if (btn_num as usize) < self.mouse_buttons.len() {
            let s = if down {
                MouseButtonState::DownThisFrame
            } else {
                MouseButtonState::UpThisFrame
            };
            self.mouse_buttons.set(btn_num as usize, s);
        }
    }

    /// Closes a frame: this frame's positions and bitmasks become the last
    /// frame's, the change flags are cleared, and the mouse buttons settle
    /// from their this-frame states.
    pub fn advance_frame(&mut self)
        requires
            old(self).wf(),
        ensures
            final(self).wf(),
            final(self).pointer_pos@ == old(self).pointer_pos@,
            final(self).last_pointer_pos@ == old(self).pointer_pos@,
            final(self).pointer_state@ == old(self).pointer_state@,
            final(self).last_pointer_state@ == old(self).pointer_state@,
            !final(self).pointer_pos_changed,
            !final(self).pointer_state_changed,
            forall|i: int|
                0 <= i < MOUSE_BUTTON_COUNT ==> #[trigger] final(self).mouse_buttons@[i] == match old(
                    self,
                ).mouse_buttons@[i] {
                    MouseButtonState::UpThisFrame => MouseButtonState::Up,
                    MouseButtonState::DownThisFrame => MouseButtonState::Down,
                    MouseButtonState::Up => MouseButtonState::Up,
                    MouseButtonState::Down => MouseButtonState::Down,
                },
    {
        let mut i: usize = 0;
        while i < MOUSE_BUTTON_COUNT
            invariant
                self.wf(),
                i <= MOUSE_BUTTON_COUNT,
                self.pointer_pos@ == old(self).pointer_pos@,
                self.pointer_state@ == old(self).pointer_state@,
                forall|k: int|
                    0 <= k < MOUSE_BUTTON_COUNT ==> #[trigger] self.mouse_buttons@[k] == if k < i {
                        match old(self).mouse_buttons@[k] {
                            MouseButtonState::UpThisFrame => MouseButtonState::Up,
                            MouseButtonState::DownThisFrame => MouseButtonState::Down,
                            MouseButtonState::Up => MouseButtonState::Up,
                            MouseButtonState::Down => MouseButtonState::Down,
                        }
                    } else {
                        old(self).mouse_buttons@[k]
                    },
            decreases MOUSE_BUTTON_COUNT - i,
        {
            let s = match self.mouse_buttons[i] {
                MouseButtonState::UpThisFrame => MouseButtonState::Up,
                MouseButtonState::DownThisFrame => MouseButtonState::Down,
                MouseButtonState::Up => MouseButtonState::Up,
                MouseButtonState::Down => MouseButtonState::Down,
            };
            self.mouse_buttons.set(i, s);
            i = i + 1;
        }
        self.last_pointer_pos = self.pointer_pos.clone();
        self.last_pointer_state = self.pointer_state.clone();
        self.pointer_pos_changed = false;
        self.pointer_state_changed = false;
    }

    /// Position of the first pointer, the mouse.
    pub fn get_mouse_pos(&self) -> (r: Option<Point>)
        requires
            self.wf(),
        ensures
            r == self.pointer_pos@[0],
    {
        self.pointer_pos[0]
    }

    pub fn get_pointer_position(&self, pointer: usize) -> (r: Option<Point>)
        requires
            self.wf(),
            pointer < POINTER_COUNT,
        ensures
            r == self.pointer_pos@[pointer as int],
    {
        self.pointer_pos[pointer]
    }

    pub fn get_last_pointer_position(&self, pointer: usize) -> (r: Option<Point>)
        requires
            self.wf(),
            pointer < POINTER_COUNT,
        ensures
            r == self.last_pointer_pos@[pointer as int],
    {
        self.last_pointer_pos[pointer]
    }

    pub fn has_any_pointer_position_changed(&self) -> (r: bool)
        ensures
            r == self.pointer_pos_changed,
    {
        self.pointer_pos_changed
    }

    pub fn has_any_pointer_state_changed(&self) -> (r: bool)
        ensures
            r == self.pointer_state_changed,
    {
        self.pointer_state_changed
    }

    /// Edge state of button `btn` of pointer `pointer`, from this frame's and
    /// the last frame's bitmasks; `Up` for a pointer or button out of range.
    pub fn get_pointer_btn(&self, pointer: u8, btn: u8) -> (r: MouseButtonState)
        requires
            self.wf(),
        ensures
            r == if (pointer as usize) < POINTER_COUNT && (btn as usize) < BUTTON_COUNT {
                edge_state(
                    pressed(self.pointer_state@[pointer as int], btn as int),
                    pressed(self.last_pointer_state@[pointer as int], btn as int),
                )
            } else {
                MouseButtonState::Up
            },
    {
        if (pointer as usize) < self.pointer_state.len() && (btn as usize) < BUTTON_COUNT {
            let bit = bit_of(btn);
            let now = (self.pointer_state[pointer as usize] & bit) != 0;
            let before = (self.last_pointer_state[pointer as usize] & bit) != 0;
            match (now, before) {
                (true, true) => MouseButtonState::Down,
                (true, false) => MouseButtonState::DownThisFrame,
                (false, false) => MouseButtonState::Up,
                (false, true) => MouseButtonState::UpThisFrame,
            }
        } else {
            MouseButtonState::Up
        }
    }

    /// Edge state of button `btn` of the mouse, pointer 0.
    pub fn get_mouse_btn(&self, btn: u8) -> (r: MouseButtonState)
        requires
            self.wf(),
        ensures
            r == if (btn as usize) < BUTTON_COUNT {
                edge_state(
                    pressed(self.pointer_state@[0], btn as int),
                    pressed(self.last_pointer_state@[0], btn as int),
                )
            } else {
                MouseButtonState::Up
            },
    {
        self.get_pointer_btn(0, btn)
    }

    /// Whether mouse button `btn_num` is down.
    pub fn btn(&self, btn_num: u8) -> (r: bool)
        requires
            self.wf(),
        ensures
            r == ((btn_num as usize) < BUTTON_COUNT && pressed(self.pointer_state@[0], btn_num as int)),
    {
        match self.get_mouse_btn(btn_num) {
            MouseButtonState::Up => false,
            MouseButtonState::UpThisFrame => false,
            MouseButtonState::Down => true,
            MouseButtonState::DownThisFrame => true,
        }
    }

    /// Whether mouse button `btn_num` went down or up in this frame.
    pub fn btn_this_frame(&self, btn_num: u8) -> (r: bool)
        requires
            self.wf(),
        ensures
            r == ((btn_num as usize) < BUTTON_COUNT && pressed(self.pointer_state@[0], btn_num as int)
                != pressed(self.last_pointer_state@[0], btn_num as int)),
    {
        match self.get_mouse_btn(btn_num) {
            MouseButtonState::Up => false,
            MouseButtonState::UpThisFrame => true,
            MouseButtonState::Down => false,
            MouseButtonState::DownThisFrame => true,
        }
    }

    /// Whether button `btn_num` of pointer `pointer` is down.
    pub fn pointer_btn(&self, pointer: u8, btn_num: u8) -> (r: bool)
        requires
            self.wf(),
        ensures
            r == ((pointer as usize) < POINTER_COUNT && (btn_num as usize) < BUTTON_COUNT && pressed(
                self.pointer_state@[pointer as int],
                btn_num as int,
            )),
    {
        match self.get_pointer_btn(pointer, btn_num) {
            MouseButtonState::Up => false,
            MouseButtonState::UpThisFrame => false,
            MouseButtonState::Down => true,
            MouseButtonState::DownThisFrame => true,
        }
    }

    /// Whether button `btn_num` of pointer `pointer` went down or up in this frame.
    pub fn pointer_btn_this_frame(&self, pointer: u8, btn_num: u8) -> (r: bool)
        requires
            self.wf(),
        ensures
            r == ((pointer as usize) < POINTER_COUNT && (btn_num as usize) < BUTTON_COUNT && pressed(
                self.pointer_state@[pointer as int],
                btn_num as int,
            ) != pressed(self.last_pointer_state@[pointer as int], btn_num as int)),
    {
        match self.get_pointer_btn(pointer, btn_num) {
            MouseButtonState::Up => false,
            MouseButtonState::UpThisFrame => true,
            MouseButtonState::Down => false,
            MouseButtonState::DownThisFrame => true,
        }
    }

    /// Number of pointers present in this frame.
    pub fn get_active_pointer_count(&self) -> (r: usize)
        ensures
            r == count_present(self.pointer_pos@),
    {
        count_slots(&self.pointer_pos)
    }

    /// Number of pointers that were present in the last frame.
    pub fn get_last_active_pointer_count(&self) -> (r: usize)
        ensures
            r == count_present(self.last_pointer_pos@),
    {
        count_slots(&self.last_pointer_pos)
    }
}

/// A button's edge state follows from the two frames' bits alone: down in
/// this frame only is `DownThisFrame`, in both `Down`, in the last only
/// `UpThisFrame`, in neither `Up`.
pub proof fn lemma_edge_states(now: u32, before: u32, b: int)
    requires
        0 <= b < BUTTON_COUNT,
    ensures
        pressed(now, b) && !pressed(before, b) ==> edge_state(pressed(now, b), pressed(before, b))
            == MouseButtonState::DownThisFrame,
        pressed(now, b) && pressed(before, b) ==> edge_state(pressed(now, b), pressed(before, b))
            == MouseButtonState::Down,
        !pressed(now, b) && pressed(before, b) ==> edge_state(pressed(now, b), pressed(before, b))
            == MouseButtonState::UpThisFrame,
        !pressed(now, b) && !pressed(before, b) ==> edge_state(pressed(now, b), pressed(before, b))
            == MouseButtonState::Up,
{
}

} // verus!
