//! Per-frame input snapshot.
//!
//! The window layer translates its events into plain [`InputEvent`] values
//! (key codes as integers, cursor positions and wheel deltas in fixed
//! point) and feeds them in; actors read the snapshot through the `is_key`
//! queries and the accumulated mouse state.  [`InputState::update`] closes
//! a frame: keys seen this frame become "previously pressed" and the
//! per-frame accumulators reset.

use vstd::prelude::*;

use crate::math::{coord_in_range, COORD_MAX};

verus! {

/// Key code for moving forward.
pub const KEY_W: u32 = 87;

/// Key code for moving backward.
pub const KEY_S: u32 = 83;

/// Key code for strafing left.
pub const KEY_A: u32 = 65;

/// Key code for strafing right.
pub const KEY_D: u32 = 68;

/// Key code for moving up.
pub const KEY_SPACE: u32 = 32;

/// Key code for moving down.
pub const KEY_SHIFT: u32 = 160;

/// A key currently held down, and whether it was already down before the
/// current frame.
#[derive(Clone, Copy, Debug, PartialEq, Eq, Structural)]
pub struct Key {
    pub keycode: u32,
    pub previous: bool,
}

impl Key {
    /// A key first seen now: not previously pressed.
    pub fn new(keycode: u32) -> (r: Key)
        ensures
            r == (Key { keycode, previous: false }),
    {
        Key { keycode, previous: false }
    }
}

/// One input event, already reduced to plain values by the window layer.
#[derive(Clone, Copy, Debug, PartialEq, Eq, Structural)]
pub enum InputEvent {
    KeyPressed(u32),
    KeyReleased(u32),
    /// Absolute cursor position, fixed point.
    CursorMoved(i64, i64),
    /// Scroll delta, fixed point.
    MouseWheel(i64),
}

impl InputEvent {
    /// Every coordinate the event carries is in range.
    pub open spec fn bounded(self) -> bool {
        match self {
            InputEvent::CursorMoved(x, y) => coord_in_range(x) && coord_in_range(y),
            InputEvent::MouseWheel(d) => coord_in_range(d),
            _ => true,
        }
    }
}


/// How one event transforms the snapshot: presses add an unheld key,
/// releases drop the first held key with the code (preserving order) and
/// record it, cursor motion replaces the delta with the distance from the
/// last seen position, wheel motion replaces the scroll value.
pub open spec fn input_transition(pre: InputState, post: InputState, e: InputEvent) -> bool {
    match e {
                InputEvent::KeyPressed(code) => {
                    &&& !pre.spec_pressed(code) ==> post.keys_view() == pre.keys_view().push(Key { keycode: code, previous: false })
                    &&& pre.spec_pressed(code) ==> post.keys_view() == pre.keys_view()
                    &&& post.released_view() == pre.released_view()
                    &&& post.spec_raw_mouse_delta() == pre.spec_raw_mouse_delta()
                    &&& post.spec_last_mouse_position() == pre.spec_last_mouse_position()
                    &&& post.spec_mouse_sample() == pre.spec_mouse_sample()
                    &&& post.spec_mouse_scroll() == pre.spec_mouse_scroll()
                },
                InputEvent::KeyReleased(code) => {
                    &&& pre.spec_pressed(code) ==> exists|i: int|
                        {
                            &&& 0 <= i < pre.keys_view().len()
                            &&& (#[trigger] pre.keys_view()[i]).keycode == code
                            &&& forall|j: int|
                                0 <= j < i ==> (#[trigger] pre.keys_view()[j]).keycode
                                    != code
                            &&& post.keys_view() == pre.keys_view().remove(i)
                        }
                    &&& pre.spec_pressed(code) ==> post.released_view() == pre.released_view().push(code)
                    &&& !pre.spec_pressed(code) ==> post.keys_view() == pre.keys_view() && post.released_view() == pre.released_view()
                    &&& post.spec_raw_mouse_delta() == pre.spec_raw_mouse_delta()
                    &&& post.spec_last_mouse_position() == pre.spec_last_mouse_position()
                    &&& post.spec_mouse_sample() == pre.spec_mouse_sample()
                    &&& post.spec_mouse_scroll() == pre.spec_mouse_scroll()
                },
                InputEvent::CursorMoved(x, y) => {
                    &&& post.spec_raw_mouse_delta().0 == x - pre.spec_last_mouse_position().0
                    &&& post.spec_raw_mouse_delta().1 == y - pre.spec_last_mouse_position().1
                    &&& post.spec_last_mouse_position() == (x, y)
                    &&& post.spec_mouse_sample() == (if pre.spec_mouse_sample()
                        < 0xffff_ffffu32 {
                        (pre.spec_mouse_sample() + 1) as u32
                    } else {
                        pre.spec_mouse_sample()
                    })
                    &&& post.keys_view() == pre.keys_view()
                    &&& post.released_view() == pre.released_view()
                    &&& post.spec_mouse_scroll() == pre.spec_mouse_scroll()
                },
                InputEvent::MouseWheel(d) => {
                    &&& post.spec_mouse_scroll() == d
                    &&& post.keys_view() == pre.keys_view()
                    &&& post.released_view() == pre.released_view()
                    &&& post.spec_raw_mouse_delta() == pre.spec_raw_mouse_delta()
                    &&& post.spec_last_mouse_position() == pre.spec_last_mouse_position()
                    &&& post.spec_mouse_sample() == pre.spec_mouse_sample()
                },
    }
}

/// The frame-closing transition of the input snapshot: every held key
/// counts as previously pressed, the released list empties, the mouse
/// accumulators reset, and only the last cursor position carries over.
pub open spec fn frame_closed(pre: InputState, post: InputState) -> bool {
    &&& post.keys_view().len() == pre.keys_view().len()
    &&& forall|j: int|
        0 <= j < pre.keys_view().len() ==> (#[trigger] post.keys_view()[j]) == (Key {
            keycode: pre.keys_view()[j].keycode,
            previous: true,
        })
    &&& post.released_view() == Seq::<u32>::empty()
    &&& post.spec_raw_mouse_delta() == (0i64, 0i64)
    &&& post.spec_mouse_sample() == 0u32
    &&& post.spec_mouse_scroll() == 0i64
    &&& post.spec_last_mouse_position() == pre.spec_last_mouse_position()
}

/// The accumulated input of the current frame.
pub struct InputState {
    keys: Vec<Key>,
    keys_released: Vec<u32>,
    mouse_delta: (i64, i64),
    last_mouse_position: (i64, i64),
    mouse_sample: u32,
    mouse_scroll: i64,
}

impl InputState {
    pub closed spec fn keys_view(self) -> Seq<Key> {
        self.keys@
    }

    pub closed spec fn released_view(self) -> Seq<u32> {
        self.keys_released@
    }

    pub closed spec fn spec_raw_mouse_delta(self) -> (i64, i64) {
        self.mouse_delta
    }

    pub closed spec fn spec_last_mouse_position(self) -> (i64, i64) {
        self.last_mouse_position
    }

    pub closed spec fn spec_mouse_sample(self) -> u32 {
        self.mouse_sample
    }

    pub closed spec fn spec_mouse_scroll(self) -> i64 {
        self.mouse_scroll
    }

    /// The mouse fields stay inside ranges that keep the arithmetic exact.
    pub open spec fn wf(self) -> bool {
        &&& coord_in_range(self.spec_last_mouse_position().0)
        &&& coord_in_range(self.spec_last_mouse_position().1)
        &&& -2 * COORD_MAX <= self.spec_raw_mouse_delta().0 <= 2 * COORD_MAX
        &&& -2 * COORD_MAX <= self.spec_raw_mouse_delta().1 <= 2 * COORD_MAX
        &&& coord_in_range(self.spec_mouse_scroll())
    }

    /// A key with this code is currently down.
    pub open spec fn spec_pressed(self, code: u32) -> bool {
        exists|i: int| 0 <= i < self.keys_view().len() && (#[trigger] self.keys_view()[i]).keycode == code
    }

    /// A key with this code went down during the current frame.
    pub open spec fn spec_just_pressed(self, code: u32) -> bool {
        exists|i: int|
            0 <= i < self.keys_view().len() && (#[trigger] self.keys_view()[i]).keycode == code
                && !self.keys_view()[i].previous
    }

    /// A key with this code was released during the current frame.
    pub open spec fn spec_just_released(self, code: u32) -> bool {
        self.released_view().contains(code)
    }

    pub fn new() -> (r: InputState)
        ensures
            r.wf(),
            r.keys_view() == Seq::<Key>::empty(),
            r.released_view() == Seq::<u32>::empty(),
            r.spec_raw_mouse_delta() == (0i64, 0i64),
            r.spec_last_mouse_position() == (0i64, 0i64),
            r.spec_mouse_sample() == 0u32,
            r.spec_mouse_scroll() == 0i64,
    {
        InputState {
            keys: Vec::new(),
            keys_released: Vec::new(),
            mouse_delta: (0, 0),
            last_mouse_position: (0, 0),
            mouse_sample: 0,
            mouse_scroll: 0,
        }
    }

    /// Close the frame: every held key counts as previously pressed, the
    /// released list empties, and the mouse accumulators reset.
    pub fn update(&mut self)
        requires
            old(self).wf(),
        ensures
            final (self).wf(),
            frame_closed(*old(self), *final (self)),
    {
        let n = self.keys.len();
        let mut i: usize = 0;
        while i < n
            invariant
                n == self.keys@.len(),
                0 <= i <= n,
                self.keys@.len() == old(self).keys@.len(),
                forall|j: int|
                    0 <= j < i ==> (#[trigger] self.keys@[j]) == (Key {
                        keycode: old(self).keys@[j].keycode,
                        previous: true,
                    }),
                forall|j: int| i <= j < n ==> (#[trigger] self.keys@[j]) == old(self).keys@[j],
                self.keys_released@ == old(self).keys_released@,
                self.mouse_delta == old(self).mouse_delta,
                self.last_mouse_position == old(self).last_mouse_position,
                self.mouse_sample == old(self).mouse_sample,
                self.mouse_scroll == old(self).mouse_scroll,
            decreases n - i,
        {
            let code = self.keys[i].keycode;
            self.keys.set(i, Key { keycode: code, previous: true });
            i = i + 1;
        }
        self.keys_released.clear();
        self.mouse_delta = (0, 0);
        self.mouse_sample = 0;
        self.mouse_scroll = 0;
    }

    /// Whether some held key has the same code as `key`.
    pub fn contains(&self, key: &Key) -> (r: bool)
        ensures
            r == self.spec_pressed(key.keycode),
    {
        let n = self.keys.len();
        let mut i: usize = 0;
        while i < n
            invariant
                n == self.keys@.len(),
                0 <= i <= n,
                forall|j: int| 0 <= j < i ==> (#[trigger] self.keys@[j]).keycode != key.keycode,
            decreases n - i,
        {
            if self.keys[i].keycode == key.keycode {
                proof {
                    assert(self.keys_view()[i as int].keycode == key.keycode);
                }
                return true;
            }
            i = i + 1;
        }
        false
    }

    /// Position of the first held key with the same code as `key`; zero
    /// when no such key is held.
    pub fn index(&self, key: &Key) -> (r: usize)
        ensures
            self.spec_pressed(key.keycode) ==> r < self.keys_view().len()
                && self.keys_view()[r as int].keycode == key.keycode && forall|j: int|
                0 <= j < r ==> (#[trigger] self.keys_view()[j]).keycode != key.keycode,
            !self.spec_pressed(key.keycode) ==> r == 0,
    {
        let n = self.keys.len();
        let mut i: usize = 0;
        while i < n
            invariant
                n == self.keys@.len(),
                0 <= i <= n,
                forall|j: int| 0 <= j < i ==> (#[trigger] self.keys@[j]).keycode != key.keycode,
            decreases n - i,
        {
            if self.keys[i].keycode == key.keycode {
                return i;
            }
            i = i + 1;
        }
        0
    }

    /// Fold one event into the snapshot.  Key presses add a key not held
    /// yet; releases drop the first held key with that code (preserving
    /// order) and record the code; cursor motion replaces the delta with
    /// the distance from the last seen position; wheel motion replaces the
    /// scroll value.  Returns whether the event was consumed (always, for
    /// the events this layer models).
    pub fn input(&mut self, event: &InputEvent) -> (r: bool)
        requires
            old(self).wf(),
            event.bounded(),
        ensures
            final (self).wf(),
            r == true,
            input_transition(*old(self), *final (self), *event),
    {
        match event {
            InputEvent::KeyPressed(code) => {
                let key = Key::new(*code);
                if !self.contains(&key) {
                    self.keys.push(key);
                }
                true
            },
            InputEvent::KeyReleased(code) => {
                let key = Key::new(*code);
                if self.contains(&key) {
                    let i = self.index(&key);
                    self.keys.remove(i);
                    self.keys_released.push(*code);
                }
                true
            },
            InputEvent::CursorMoved(x, y) => {
                let dx = *x - self.last_mouse_position.0;
                let dy = *y - self.last_mouse_position.1;
                self.mouse_delta = (dx, dy);
                self.last_mouse_position = (*x, *y);
                if self.mouse_sample < 0xffff_ffff {
                    self.mouse_sample = self.mouse_sample + 1;
                }
                true
            },
            InputEvent::MouseWheel(d) => {
                self.mouse_scroll = *d;
                true
            },
        }
    }

    /// The average cursor motion of the frame: the raw delta divided by
    /// the number of samples, truncating toward zero; zero when the cursor
    /// did not move.
    pub fn mouse_delta(&self) -> (r: (i64, i64))
        requires
            self.wf(),
        ensures
            r == self.spec_mouse_delta(),
    {
        if self.mouse_sample > 0 {
            (
                div_trunc(self.mouse_delta.0, self.mouse_sample),
                div_trunc(self.mouse_delta.1, self.mouse_sample),
            )
        } else {
            (0, 0)
        }
    }

    /// The averaged mouse delta [`Self::mouse_delta`] returns.
    pub open spec fn spec_mouse_delta(self) -> (i64, i64) {
        if self.spec_mouse_sample() > 0 {
            (
                spec_div_trunc(
                    self.spec_raw_mouse_delta().0 as int,
                    self.spec_mouse_sample() as int,
                ) as i64,
                spec_div_trunc(
                    self.spec_raw_mouse_delta().1 as int,
                    self.spec_mouse_sample() as int,
                ) as i64,
            )
        } else {
            (0i64, 0i64)
        }
    }

    /// The scroll delta accumulated this frame.
    pub fn mouse_scroll(&self) -> (r: i64)
        ensures
            r == self.spec_mouse_scroll(),
    {
        self.mouse_scroll
    }

    /// A key with this code is currently down.
    pub fn is_key_pressed(&self, code: u32) -> (r: bool)
        ensures
            r == self.spec_pressed(code),
    {
        self.contains(&Key::new(code))
    }

    /// A key with this code went down during the current frame.
    pub fn is_key_just_pressed(&self, code: u32) -> (r: bool)
        ensures
            r == self.spec_just_pressed(code),
    {
        let n = self.keys.len();
        let mut i: usize = 0;
        while i < n
            invariant
                n == self.keys@.len(),
                0 <= i <= n,
                forall|j: int|
                    0 <= j < i ==> !((#[trigger] self.keys@[j]).keycode == code
                        && !self.keys@[j].previous),
            decreases n - i,
        {
            let k = self.keys[i];
            if k.keycode == code && !k.previous {
                proof {
                    assert(self.keys_view()[i as int].keycode == code && !self.keys_view()[
                        i as int
                    ].previous);
                }
                return true;
            }
            i = i + 1;
        }
        false
    }

    /// A key with this code was released during the current frame.
    pub fn is_key_just_released(&self, code: u32) -> (r: bool)
        ensures
            r == self.spec_just_released(code),
    {
        let n = self.keys_released.len();
        let mut i: usize = 0;
        while i < n
            invariant
                n == self.keys_released@.len(),
                0 <= i <= n,
                forall|j: int| 0 <= j < i ==> (#[trigger] self.keys_released@[j]) != code,
            decreases n - i,
        {
            if self.keys_released[i] == code {
                return true;
            }
            i = i + 1;
        }
        false
    }
}

/// Division of a bounded value by a positive count, truncating toward
/// zero, as Rust's integer division does.
pub open spec fn spec_div_trunc(d: int, s: int) -> int {
    if d >= 0 {
        d / s
    } else {
        -((-d) / s)
    }
}

/// Divide a bounded delta by a positive sample count, truncating toward
/// zero.
fn div_trunc(d: i64, s: u32) -> (r: i64)
    requires
        s > 0,
        -2 * COORD_MAX <= d <= 2 * COORD_MAX,
    ensures
        r == spec_div_trunc(d as int, s as int),
{
    if d >= 0 {
        ((d as u64) / (s as u64)) as i64
    } else {
        let m: u64 = (-(d as i128)) as u64;
        let q: u64 = m / (s as u64);
        proof {
            assert((-(d as int)) / (s as int) <= -(d as int)) by (nonlinear_arith)
                requires
                    d < 0,
                    s > 0,
            ;
        }
        -(q as i64)
    }
}

} // verus!
