//! The per-frame input snapshot.
//!
//! Once per frame the engine polls its devices and hands the raw readings to
//! `InputState::capture`, which overwrites the snapshot wholesale: the
//! pressed sets are taken as polled, and the just-pressed and just-released
//! sets are computed by diffing this frame's raw pressed set against the
//! previous frame's. A key is just-pressed exactly on the frame where it
//! turns up, and just-released exactly on the frame where it disappears.

use vstd::prelude::*;

use crate::idmap::IdMap;
use crate::strcoll::{StrMap, StrSet};

verus! {

/// The names just pressed: present now, absent the frame before.
pub open spec fn just_pressed_set(prev: Set<Seq<char>>, cur: Set<Seq<char>>) -> Set<Seq<char>> {
    cur.difference(prev)
}

/// The names just released: absent now, present the frame before.
pub open spec fn just_released_set(prev: Set<Seq<char>>, cur: Set<Seq<char>>) -> Set<Seq<char>> {
    prev.difference(cur)
}

/// Law: the press and release edges land on exactly one frame each. Over
/// three consecutive frames whose raw pressed sets have a key absent, then
/// present, then absent again, the key is just-pressed only on the middle
/// frame and just-released only on the last, whatever the set `s0` before
/// the three frames held.
pub proof fn lemma_press_release_edges(
    s0: Set<Seq<char>>,
    s1: Set<Seq<char>>,
    s2: Set<Seq<char>>,
    s3: Set<Seq<char>>,
    k: Seq<char>,
)
    requires
        !s1.contains(k),
        s2.contains(k),
        !s3.contains(k),
    ensures
        !just_pressed_set(s0, s1).contains(k),
        just_pressed_set(s1, s2).contains(k),
        !just_released_set(s1, s2).contains(k),
        !just_pressed_set(s2, s3).contains(k),
        just_released_set(s2, s3).contains(k),
        !just_released_set(s0, s1).contains(k) || s0.contains(k),
{
}

/// What one gamepad reported this frame: its raw pressed buttons and raw
/// axis values (fixed-point micro-units, unshaped — any deadzone is the
/// consumer's business).
pub struct GamepadPoll {
    pub id: u64,
    pub name: String,
    pub buttons_down: StrSet,
    pub axes: StrMap<i64>,
}

/// One frame's raw device readings, polled by the engine.
pub struct DevicePoll {
    pub keys_down: StrSet,
    pub mouse_buttons_down: StrSet,
    pub mouse_position: Option<(i32, i32)>,
    pub gamepads: Vec<GamepadPoll>,
}

/// The ids of the polled gamepads.
pub open spec fn poll_ids(s: Seq<GamepadPoll>) -> Set<u64>
    decreases s.len(),
{
    if s.len() == 0 {
        Set::empty()
    } else {
        poll_ids(s.drop_last()).insert(s.last().id)
    }
}

impl DevicePoll {
    /// Well-formed: sets are sets and no gamepad reports twice.
    pub open spec fn wf(&self) -> bool {
        &&& self.keys_down.wf()
        &&& self.mouse_buttons_down.wf()
        &&& (forall|i: int|
            0 <= i < self.gamepads@.len() ==> (#[trigger] self.gamepads@[i]).buttons_down.wf()
                && self.gamepads@[i].axes.wf())
        &&& (forall|i: int, j: int|
            0 <= i < j < self.gamepads@.len() ==> self.gamepads@[i].id != self.gamepads@[j].id)
    }

    /// A poll with nothing pressed, no cursor and no gamepads.
    pub fn new() -> (r: DevicePoll)
        ensures
            r.wf(),
            r.keys_down@ == Set::<Seq<char>>::empty(),
            r.mouse_buttons_down@ == Set::<Seq<char>>::empty(),
            r.mouse_position is None,
            r.gamepads@ == Seq::<GamepadPoll>::empty(),
    {
        DevicePoll {
            keys_down: StrSet::new(),
            mouse_buttons_down: StrSet::new(),
            mouse_position: None,
            gamepads: Vec::new(),
        }
    }
}

/// One gamepad's state as the snapshot carries it.
pub struct GamepadInputState {
    pub id: u64,
    pub name: String,
    pub buttons_pressed: StrSet,
    pub buttons_just_pressed: StrSet,
    pub buttons_just_released: StrSet,
    pub axes: StrMap<i64>,
}

impl GamepadInputState {
    pub open spec fn wf(&self) -> bool {
        &&& self.buttons_pressed.wf()
        &&& self.buttons_just_pressed.wf()
        &&& self.buttons_just_released.wf()
        &&& self.axes.wf()
    }

    /// A connected gamepad with nothing pressed and no name yet.
    pub fn new(id: u64) -> (r: GamepadInputState)
        ensures
            r.wf(),
            r.id == id,
            r.name@ == Seq::<char>::empty(),
            r.buttons_pressed@ == Set::<Seq<char>>::empty(),
            r.buttons_just_pressed@ == Set::<Seq<char>>::empty(),
            r.buttons_just_released@ == Set::<Seq<char>>::empty(),
            r.axes@ == Map::<Seq<char>, i64>::empty(),
    {
        GamepadInputState {
            id,
            name: String::new(),
            buttons_pressed: StrSet::new(),
            buttons_just_pressed: StrSet::new(),
            buttons_just_released: StrSet::new(),
            axes: StrMap::new(),
        }
    }
}

/// The raw pressed buttons the previous snapshot recorded for a gamepad;
/// empty for a gamepad it did not know.
pub open spec fn prev_gamepad_buttons(st: InputState, id: u64) -> Set<Seq<char>> {
    if st.gamepads@.dom().contains(id) {
        st.gamepads@[id].buttons_pressed@
    } else {
        Set::empty()
    }
}

/// The just-pressed buttons recorded for a gamepad, empty if unknown.
pub open spec fn prev_gamepad_just_pressed(st: InputState, id: u64) -> Set<Seq<char>> {
    if st.gamepads@.dom().contains(id) {
        st.gamepads@[id].buttons_just_pressed@
    } else {
        Set::empty()
    }
}

/// The just-released buttons recorded for a gamepad, empty if unknown.
pub open spec fn prev_gamepad_just_released(st: InputState, id: u64) -> Set<Seq<char>> {
    if st.gamepads@.dom().contains(id) {
        st.gamepads@[id].buttons_just_released@
    } else {
        Set::empty()
    }
}

/// The axis values recorded for a gamepad, empty if unknown.
pub open spec fn prev_gamepad_axes(st: InputState, id: u64) -> Map<Seq<char>, i64> {
    if st.gamepads@.dom().contains(id) {
        st.gamepads@[id].axes@
    } else {
        Map::empty()
    }
}

/// The name recorded for a gamepad, empty if unknown.
pub open spec fn prev_gamepad_name(st: InputState, id: u64) -> Seq<char> {
    if st.gamepads@.dom().contains(id) {
        st.gamepads@[id].name@
    } else {
        Seq::empty()
    }
}

/// The snapshot entry a capture must record for one polled gamepad.
pub open spec fn gamepad_captured(
    before: InputState,
    g: GamepadPoll,
    gs: GamepadInputState,
) -> bool {
    &&& gs.id == g.id
    &&& gs.name@ == g.name@
    &&& gs.buttons_pressed@ == g.buttons_down@
    &&& gs.buttons_just_pressed@ == just_pressed_set(
        prev_gamepad_buttons(before, g.id),
        g.buttons_down@,
    )
    &&& gs.buttons_just_released@ == just_released_set(
        prev_gamepad_buttons(before, g.id),
        g.buttons_down@,
    )
    &&& gs.axes@ == g.axes@
}

/// Everything `capture` promises: the snapshot `after` is `poll` diffed
/// against `before`, in every device class.
pub open spec fn captured(before: InputState, poll: DevicePoll, after: InputState) -> bool {
    &&& after.keys_pressed@ == poll.keys_down@
    &&& after.keys_just_pressed@ == just_pressed_set(before.keys_pressed@, poll.keys_down@)
    &&& after.keys_just_released@ == just_released_set(before.keys_pressed@, poll.keys_down@)
    &&& after.mouse_buttons_pressed@ == poll.mouse_buttons_down@
    &&& after.mouse_buttons_just_pressed@ == just_pressed_set(
        before.mouse_buttons_pressed@,
        poll.mouse_buttons_down@,
    )
    &&& after.mouse_buttons_just_released@ == just_released_set(
        before.mouse_buttons_pressed@,
        poll.mouse_buttons_down@,
    )
    &&& (match poll.mouse_position {
        Some(p) => {
            &&& after.mouse_position == p
            &&& after.position_seen
            &&& (if before.position_seen {
                after.mouse_delta.0 == p.0 - before.mouse_position.0 && after.mouse_delta.1 == p.1
                    - before.mouse_position.1
            } else {
                after.mouse_delta == (0i64, 0i64)
            })
        },
        None => {
            &&& after.mouse_position == before.mouse_position
            &&& after.position_seen == before.position_seen
            &&& after.mouse_delta == (0i64, 0i64)
        },
    })
    &&& after.gamepads@.dom() == poll_ids(poll.gamepads@)
    &&& (forall|i: int|
        0 <= i < poll.gamepads@.len() ==> gamepad_captured(
            before,
            #[trigger] poll.gamepads@[i],
            after.gamepads@[poll.gamepads@[i].id],
        ))
}

/// Everything except the raw pressed key set is as it was.
pub open spec fn same_but_keys(a: InputState, b: InputState) -> bool {
    &&& b.keys_just_pressed == a.keys_just_pressed
    &&& b.keys_just_released == a.keys_just_released
    &&& b.mouse_buttons_pressed == a.mouse_buttons_pressed
    &&& b.mouse_buttons_just_pressed == a.mouse_buttons_just_pressed
    &&& b.mouse_buttons_just_released == a.mouse_buttons_just_released
    &&& b.mouse_position == a.mouse_position
    &&& b.mouse_delta == a.mouse_delta
    &&& b.position_seen == a.position_seen
    &&& b.gamepads == a.gamepads
}

/// Everything except the just-pressed key set is as it was.
pub open spec fn same_but_just_pressed(a: InputState, b: InputState) -> bool {
    &&& b.keys_pressed == a.keys_pressed
    &&& b.keys_just_released == a.keys_just_released
    &&& b.mouse_buttons_pressed == a.mouse_buttons_pressed
    &&& b.mouse_buttons_just_pressed == a.mouse_buttons_just_pressed
    &&& b.mouse_buttons_just_released == a.mouse_buttons_just_released
    &&& b.mouse_position == a.mouse_position
    &&& b.mouse_delta == a.mouse_delta
    &&& b.position_seen == a.position_seen
    &&& b.gamepads == a.gamepads
}

/// Everything except the just-released key set is as it was.
pub open spec fn same_but_just_released(a: InputState, b: InputState) -> bool {
    &&& b.keys_pressed == a.keys_pressed
    &&& b.keys_just_pressed == a.keys_just_pressed
    &&& b.mouse_buttons_pressed == a.mouse_buttons_pressed
    &&& b.mouse_buttons_just_pressed == a.mouse_buttons_just_pressed
    &&& b.mouse_buttons_just_released == a.mouse_buttons_just_released
    &&& b.mouse_position == a.mouse_position
    &&& b.mouse_delta == a.mouse_delta
    &&& b.position_seen == a.position_seen
    &&& b.gamepads == a.gamepads
}

/// Everything except the raw pressed mouse-button set is as it was.
pub open spec fn same_but_mouse_pressed(a: InputState, b: InputState) -> bool {
    &&& b.keys_pressed == a.keys_pressed
    &&& b.keys_just_pressed == a.keys_just_pressed
    &&& b.keys_just_released == a.keys_just_released
    &&& b.mouse_buttons_just_pressed == a.mouse_buttons_just_pressed
    &&& b.mouse_buttons_just_released == a.mouse_buttons_just_released
    &&& b.mouse_position == a.mouse_position
    &&& b.mouse_delta == a.mouse_delta
    &&& b.position_seen == a.position_seen
    &&& b.gamepads == a.gamepads
}

/// Everything except the just-pressed mouse-button set is as it was.
pub open spec fn same_but_mouse_just_pressed(a: InputState, b: InputState) -> bool {
    &&& b.keys_pressed == a.keys_pressed
    &&& b.keys_just_pressed == a.keys_just_pressed
    &&& b.keys_just_released == a.keys_just_released
    &&& b.mouse_buttons_pressed == a.mouse_buttons_pressed
    &&& b.mouse_buttons_just_released == a.mouse_buttons_just_released
    &&& b.mouse_position == a.mouse_position
    &&& b.mouse_delta == a.mouse_delta
    &&& b.position_seen == a.position_seen
    &&& b.gamepads == a.gamepads
}

/// Everything except the gamepad map is as it was.
pub open spec fn same_but_gamepads(a: InputState, b: InputState) -> bool {
    &&& b.keys_pressed == a.keys_pressed
    &&& b.keys_just_pressed == a.keys_just_pressed
    &&& b.keys_just_released == a.keys_just_released
    &&& b.mouse_buttons_pressed == a.mouse_buttons_pressed
    &&& b.mouse_buttons_just_pressed == a.mouse_buttons_just_pressed
    &&& b.mouse_buttons_just_released == a.mouse_buttons_just_released
    &&& b.mouse_position == a.mouse_position
    &&& b.mouse_delta == a.mouse_delta
    &&& b.position_seen == a.position_seen
}

/// The input snapshot the scripting side reads: fully overwritten by each
/// frame's capture, never partially updated.
pub struct InputState {
    pub keys_pressed: StrSet,
    pub keys_just_pressed: StrSet,
    pub keys_just_released: StrSet,
    pub mouse_buttons_pressed: StrSet,
    pub mouse_buttons_just_pressed: StrSet,
    pub mouse_buttons_just_released: StrSet,
    pub mouse_position: (i32, i32),
    pub mouse_delta: (i64, i64),
    pub position_seen: bool,
    pub gamepads: IdMap<GamepadInputState>,
}

impl InputState {
    pub open spec fn wf(&self) -> bool {
        &&& self.keys_pressed.wf()
        &&& self.keys_just_pressed.wf()
        &&& self.keys_just_released.wf()
        &&& self.mouse_buttons_pressed.wf()
        &&& self.mouse_buttons_just_pressed.wf()
        &&& self.mouse_buttons_just_released.wf()
        &&& self.gamepads.wf()
        &&& (forall|id: u64| #[trigger]
            self.gamepads@.dom().contains(id) ==> self.gamepads@[id].wf()
                && self.gamepads@[id].id == id)
    }

    /// An empty snapshot: nothing pressed, no cursor seen, no gamepads.
    pub fn new() -> (r: InputState)
        ensures
            r.wf(),
            r.keys_pressed@ == Set::<Seq<char>>::empty(),
            r.keys_just_pressed@ == Set::<Seq<char>>::empty(),
            r.keys_just_released@ == Set::<Seq<char>>::empty(),
            r.mouse_buttons_pressed@ == Set::<Seq<char>>::empty(),
            r.mouse_buttons_just_pressed@ == Set::<Seq<char>>::empty(),
            r.mouse_buttons_just_released@ == Set::<Seq<char>>::empty(),
            r.mouse_position == (0i32, 0i32),
            r.mouse_delta == (0i64, 0i64),
            !r.position_seen,
            r.gamepads@ == Map::<u64, GamepadInputState>::empty(),
    {
        InputState {
            keys_pressed: StrSet::new(),
            keys_just_pressed: StrSet::new(),
            keys_just_released: StrSet::new(),
            mouse_buttons_pressed: StrSet::new(),
            mouse_buttons_just_pressed: StrSet::new(),
            mouse_buttons_just_released: StrSet::new(),
            mouse_position: (0, 0),
            mouse_delta: (0, 0),
            position_seen: false,
            gamepads: IdMap::new(),
        }
    }

    /// Whether a key is in the raw pressed set.
    pub fn key_pressed(&self, key: &str) -> (b: bool)
        ensures
            b == self.keys_pressed@.contains(key@),
    {
        self.keys_pressed.contains(key)
    }

    /// Whether a key turned up this frame.
    pub fn key_just_pressed(&self, key: &str) -> (b: bool)
        ensures
            b == self.keys_just_pressed@.contains(key@),
    {
        self.keys_just_pressed.contains(key)
    }

    /// Whether a key disappeared this frame.
    pub fn key_just_released(&self, key: &str) -> (b: bool)
        ensures
            b == self.keys_just_released@.contains(key@),
    {
        self.keys_just_released.contains(key)
    }

    /// Whether a mouse button is in the raw pressed set.
    pub fn mouse_button_pressed(&self, button: &str) -> (b: bool)
        ensures
            b == self.mouse_buttons_pressed@.contains(button@),
    {
        self.mouse_buttons_pressed.contains(button)
    }

    /// Whether a mouse button turned up this frame.
    pub fn mouse_button_just_pressed(&self, button: &str) -> (b: bool)
        ensures
            b == self.mouse_buttons_just_pressed@.contains(button@),
    {
        self.mouse_buttons_just_pressed.contains(button)
    }

    /// Whether a mouse button disappeared this frame.
    pub fn mouse_button_just_released(&self, button: &str) -> (b: bool)
        ensures
            b == self.mouse_buttons_just_released@.contains(button@),
    {
        self.mouse_buttons_just_released.contains(button)
    }

    /// The raw pressed keys, each once.
    pub fn get_pressed_keys(&self) -> (r: Vec<String>)
        requires
            self.wf(),
        ensures
            forall|k: Seq<char>| self.keys_pressed@.contains(k) <==> exists|i: int|
                0 <= i < r@.len() && #[trigger] r@[i]@ == k,
            forall|i: int, j: int| 0 <= i < j < r@.len() ==> r@[i]@ != r@[j]@,
    {
        self.keys_pressed.to_vec()
    }

    /// The ids of the gamepads this snapshot knows.
    pub fn gamepad_ids(&self) -> (r: Vec<u64>)
        requires
            self.wf(),
        ensures
            forall|id: u64| self.gamepads@.dom().contains(id) <==> r@.contains(id),
            forall|i: int, j: int| 0 <= i < j < r@.len() ==> r@[i] != r@[j],
    {
        self.gamepads.keys()
    }

    /// One gamepad's captured state.
    pub fn gamepad_state(&self, id: u64) -> (r: Option<&GamepadInputState>)
        requires
            self.wf(),
        ensures
            match r {
                Some(gs) => self.gamepads@.dom().contains(id) && *gs == self.gamepads@[id],
                None => !self.gamepads@.dom().contains(id),
            },
    {
        self.gamepads.get(id)
    }

    /// Empties every per-frame set; the cursor position survives, as it is
    /// carried across frames for the delta.
    pub fn clear(&mut self)
        requires
            old(self).wf(),
        ensures
            final(self).wf(),
            final(self).keys_pressed@ == Set::<Seq<char>>::empty(),
            final(self).keys_just_pressed@ == Set::<Seq<char>>::empty(),
            final(self).keys_just_released@ == Set::<Seq<char>>::empty(),
            final(self).mouse_buttons_pressed@ == Set::<Seq<char>>::empty(),
            final(self).mouse_buttons_just_pressed@ == Set::<Seq<char>>::empty(),
            final(self).mouse_buttons_just_released@ == Set::<Seq<char>>::empty(),
            final(self).gamepads@ == Map::<u64, GamepadInputState>::empty(),
            final(self).mouse_position == old(self).mouse_position,
            final(self).mouse_delta == old(self).mouse_delta,
            final(self).position_seen == old(self).position_seen,
    {
        self.keys_pressed.clear();
        self.keys_just_pressed.clear();
        self.keys_just_released.clear();
        self.mouse_buttons_pressed.clear();
        self.mouse_buttons_just_pressed.clear();
        self.mouse_buttons_just_released.clear();
        self.gamepads.clear();
    }

    /// Marks a key as raw-pressed in this snapshot.
    pub fn set_pressed(&mut self, key: &str)
        requires
            old(self).wf(),
        ensures
            final(self).wf(),
            final(self).keys_pressed@ == old(self).keys_pressed@.insert(key@),
            same_but_keys(*old(self), *final(self)),
    {
        self.keys_pressed.insert(key.to_owned());
    }

    /// Marks a key as just pressed in this snapshot.
    pub fn set_just_pressed(&mut self, key: &str)
        requires
            old(self).wf(),
        ensures
            final(self).wf(),
            final(self).keys_just_pressed@ == old(self).keys_just_pressed@.insert(key@),
            same_but_just_pressed(*old(self), *final(self)),
    {
        self.keys_just_pressed.insert(key.to_owned());
    }

    /// Marks a key as just released in this snapshot.
    pub fn set_just_released(&mut self, key: &str)
        requires
            old(self).wf(),
        ensures
            final(self).wf(),
            final(self).keys_just_released@ == old(self).keys_just_released@.insert(key@),
            same_but_just_released(*old(self), *final(self)),
    {
        self.keys_just_released.insert(key.to_owned());
    }

    /// Marks a mouse button as raw-pressed in this snapshot.
    pub fn set_mouse_pressed(&mut self, button: &str)
        requires
            old(self).wf(),
        ensures
            final(self).wf(),
            final(self).mouse_buttons_pressed@ == old(self).mouse_buttons_pressed@.insert(
                button@,
            ),
            same_but_mouse_pressed(*old(self), *final(self)),
    {
        self.mouse_buttons_pressed.insert(button.to_owned());
    }

    /// Marks a mouse button as just pressed in this snapshot.
    pub fn set_mouse_just_pressed(&mut self, button: &str)
        requires
            old(self).wf(),
        ensures
            final(self).wf(),
            final(self).mouse_buttons_just_pressed@ == old(
                self,
            ).mouse_buttons_just_pressed@.insert(button@),
            same_but_mouse_just_pressed(*old(self), *final(self)),
    {
        self.mouse_buttons_just_pressed.insert(button.to_owned());
    }

    /// Takes a gamepad's entry out, or makes a fresh one for an unknown id.
    fn take_gamepad(&mut self, id: u64) -> (g: GamepadInputState)
        requires
            old(self).wf(),
        ensures
            final(self).wf(),
            g.wf(),
            g.id == id,
            final(self).gamepads@ == old(self).gamepads@.remove(id),
            g.name@ == prev_gamepad_name(*old(self), id),
            g.buttons_pressed@ == prev_gamepad_buttons(*old(self), id),
            g.buttons_just_pressed@ == prev_gamepad_just_pressed(*old(self), id),
            g.buttons_just_released@ == prev_gamepad_just_released(*old(self), id),
            g.axes@ == prev_gamepad_axes(*old(self), id),
            same_but_gamepads(*old(self), *final(self)),
    {
        match self.gamepads.remove(id) {
            Some(g) => g,
            None => {
                proof {
                    assert(self.gamepads@ =~= old(self).gamepads@.remove(id));
                }
                GamepadInputState::new(id)
            },
        }
    }

    /// Ensures a gamepad slot exists for this frame and records its name.
    pub fn set_gamepad_connected(&mut self, id: u64, name: &str)
        requires
            old(self).wf(),
        ensures
            final(self).wf(),
            final(self).gamepads@.dom() == old(self).gamepads@.dom().insert(id),
            forall|x: u64|
                x != id && old(self).gamepads@.dom().contains(x) ==> final(self).gamepads@[x]
                    == old(self).gamepads@[x],
            final(self).gamepads@[id].id == id,
            final(self).gamepads@[id].name@ == name@,
            final(self).gamepads@[id].buttons_pressed@ == prev_gamepad_buttons(*old(self), id),
            final(self).gamepads@[id].buttons_just_pressed@ == prev_gamepad_just_pressed(
                *old(self),
                id,
            ),
            final(self).gamepads@[id].buttons_just_released@ == prev_gamepad_just_released(
                *old(self),
                id,
            ),
            final(self).gamepads@[id].axes@ == prev_gamepad_axes(*old(self), id),
            same_but_gamepads(*old(self), *final(self)),
    {
        let mut g = self.take_gamepad(id);
        g.name = name.to_owned();
        self.gamepads.insert(id, g);
    }

    /// Marks a gamepad button as raw-pressed in this snapshot.
    pub fn set_gamepad_button_pressed(&mut self, id: u64, button: &str)
        requires
            old(self).wf(),
        ensures
            final(self).wf(),
            final(self).gamepads@.dom() == old(self).gamepads@.dom().insert(id),
            forall|x: u64|
                x != id && old(self).gamepads@.dom().contains(x) ==> final(self).gamepads@[x]
                    == old(self).gamepads@[x],
            final(self).gamepads@[id].id == id,
            final(self).gamepads@[id].buttons_pressed@ == prev_gamepad_buttons(
                *old(self),
                id,
            ).insert(button@),
            final(self).gamepads@[id].name@ == prev_gamepad_name(*old(self), id),
            final(self).gamepads@[id].buttons_just_pressed@ == prev_gamepad_just_pressed(
                *old(self),
                id,
            ),
            final(self).gamepads@[id].buttons_just_released@ == prev_gamepad_just_released(
                *old(self),
                id,
            ),
            final(self).gamepads@[id].axes@ == prev_gamepad_axes(*old(self), id),
            same_but_gamepads(*old(self), *final(self)),
    {
        let mut g = self.take_gamepad(id);
        g.buttons_pressed.insert(button.to_owned());
        self.gamepads.insert(id, g);
    }

    /// Marks a gamepad button as just pressed in this snapshot.
    pub fn set_gamepad_button_just_pressed(&mut self, id: u64, button: &str)
        requires
            old(self).wf(),
        ensures
            final(self).wf(),
            final(self).gamepads@.dom() == old(self).gamepads@.dom().insert(id),
            forall|x: u64|
                x != id && old(self).gamepads@.dom().contains(x) ==> final(self).gamepads@[x]
                    == old(self).gamepads@[x],
            final(self).gamepads@[id].id == id,
            final(self).gamepads@[id].buttons_just_pressed@ == prev_gamepad_just_pressed(
                *old(self),
                id,
            ).insert(button@),
            final(self).gamepads@[id].name@ == prev_gamepad_name(*old(self), id),
            final(self).gamepads@[id].buttons_pressed@ == prev_gamepad_buttons(*old(self), id),
            final(self).gamepads@[id].buttons_just_released@ == prev_gamepad_just_released(
                *old(self),
                id,
            ),
            final(self).gamepads@[id].axes@ == prev_gamepad_axes(*old(self), id),
            same_but_gamepads(*old(self), *final(self)),
    {
        let mut g = self.take_gamepad(id);
        g.buttons_just_pressed.insert(button.to_owned());
        self.gamepads.insert(id, g);
    }

    /// Marks a gamepad button as just released in this snapshot.
    pub fn set_gamepad_button_just_released(&mut self, id: u64, button: &str)
        requires
            old(self).wf(),
        ensures
            final(self).wf(),
            final(self).gamepads@.dom() == old(self).gamepads@.dom().insert(id),
            forall|x: u64|
                x != id && old(self).gamepads@.dom().contains(x) ==> final(self).gamepads@[x]
                    == old(self).gamepads@[x],
            final(self).gamepads@[id].id == id,
            final(self).gamepads@[id].buttons_just_released@ == prev_gamepad_just_released(
                *old(self),
                id,
            ).insert(button@),
            final(self).gamepads@[id].name@ == prev_gamepad_name(*old(self), id),
            final(self).gamepads@[id].buttons_pressed@ == prev_gamepad_buttons(*old(self), id),
            final(self).gamepads@[id].buttons_just_pressed@ == prev_gamepad_just_pressed(
                *old(self),
                id,
            ),
            final(self).gamepads@[id].axes@ == prev_gamepad_axes(*old(self), id),
            same_but_gamepads(*old(self), *final(self)),
    {
        let mut g = self.take_gamepad(id);
        g.buttons_just_released.insert(button.to_owned());
        self.gamepads.insert(id, g);
    }

    /// Records a gamepad axis reading, in fixed-point micro-units.
    pub fn set_gamepad_axis(&mut self, id: u64, axis: &str, value: i64)
        requires
            old(self).wf(),
        ensures
            final(self).wf(),
            final(self).gamepads@.dom() == old(self).gamepads@.dom().insert(id),
            forall|x: u64|
                x != id && old(self).gamepads@.dom().contains(x) ==> final(self).gamepads@[x]
                    == old(self).gamepads@[x],
            final(self).gamepads@[id].id == id,
            final(self).gamepads@[id].axes@ == prev_gamepad_axes(*old(self), id).insert(
                axis@,
                value,
            ),
            final(self).gamepads@[id].name@ == prev_gamepad_name(*old(self), id),
            final(self).gamepads@[id].buttons_pressed@ == prev_gamepad_buttons(*old(self), id),
            final(self).gamepads@[id].buttons_just_pressed@ == prev_gamepad_just_pressed(
                *old(self),
                id,
            ),
            final(self).gamepads@[id].buttons_just_released@ == prev_gamepad_just_released(
                *old(self),
                id,
            ),
            same_but_gamepads(*old(self), *final(self)),
    {
        let mut g = self.take_gamepad(id);
        g.axes.insert(axis.to_owned(), value);
        self.gamepads.insert(id, g);
    }

    /// Overwrites this snapshot from one frame's raw readings, diffing each
    /// pressed set against the previous frame's to find the edges.
    pub fn capture(&mut self, poll: &DevicePoll)
        requires
            old(self).wf(),
            poll.wf(),
        ensures
            final(self).wf(),
            captured(*old(self), *poll, *final(self)),
    {
        let keys_pressed = poll.keys_down.duplicate();
        let keys_just_pressed = poll.keys_down.difference(&self.keys_pressed);
        let keys_just_released = self.keys_pressed.difference(&poll.keys_down);
        let mouse_buttons_pressed = poll.mouse_buttons_down.duplicate();
        let mouse_buttons_just_pressed = poll.mouse_buttons_down.difference(
            &self.mouse_buttons_pressed,
        );
        let mouse_buttons_just_released = self.mouse_buttons_pressed.difference(
            &poll.mouse_buttons_down,
        );
        let (mouse_position, mouse_delta, position_seen): ((i32, i32), (i64, i64), bool) =
            match poll.mouse_position {
            Some(p) => {
                let d: (i64, i64) = if self.position_seen {
                    (
                        p.0 as i64 - self.mouse_position.0 as i64,
                        p.1 as i64 - self.mouse_position.1 as i64,
                    )
                } else {
                    (0, 0)
                };
                (p, d, true)
            },
            None => (self.mouse_position, (0, 0), self.position_seen),
        };
        let mut gamepads: IdMap<GamepadInputState> = IdMap::new();
        let n = poll.gamepads.len();
        let mut i: usize = 0;
        proof {
            assert(poll_ids(poll.gamepads@.subrange(0, 0)) =~= Set::<u64>::empty());
        }
        while i < n
            invariant
                old(self).wf(),
                poll.wf(),
                *self == *old(self),
                n == poll.gamepads@.len(),
                i <= n,
                gamepads.wf(),
                gamepads@.dom() == poll_ids(poll.gamepads@.subrange(0, i as int)),
                forall|j: int|
                    0 <= j < i ==> gamepads@.dom().contains(
                        (#[trigger] poll.gamepads@[j]).id,
                    ) && gamepad_captured(*old(self), poll.gamepads@[j], gamepads@[poll.gamepads@[j].id]),
                forall|id: u64| #[trigger]
                    gamepads@.dom().contains(id) ==> gamepads@[id].wf() && gamepads@[id].id == id,
            decreases n - i,
        {
            let g = &poll.gamepads[i];
            let ghost prefix = poll.gamepads@.subrange(0, i as int);
            let (jp, jr): (StrSet, StrSet) = match self.gamepads.get(g.id) {
                Some(gs) => (
                    g.buttons_down.difference(&gs.buttons_pressed),
                    gs.buttons_pressed.difference(&g.buttons_down),
                ),
                None => {
                    let empty = StrSet::new();
                    let jp = g.buttons_down.difference(&empty);
                    (jp, empty)
                },
            };
            proof {
                assert(jp@ =~= just_pressed_set(prev_gamepad_buttons(*old(self), g.id), g.buttons_down@));
                assert(jr@ =~= just_released_set(prev_gamepad_buttons(*old(self), g.id), g.buttons_down@));
            }
            let gs = GamepadInputState {
                id: g.id,
                name: g.name.clone(),
                buttons_pressed: g.buttons_down.duplicate(),
                buttons_just_pressed: jp,
                buttons_just_released: jr,
                axes: g.axes.duplicate(),
            };
            let ghost pre_map = gamepads@;
            gamepads.insert(g.id, gs);
            proof {
                let ext = prefix.push(poll.gamepads@[i as int]);
                assert(poll.gamepads@.subrange(0, i as int + 1) =~= ext);
                assert(ext.drop_last() =~= prefix);
                assert(gamepads@.dom() =~= poll_ids(ext));
                assert forall|j: int|
                    0 <= j < i + 1 implies gamepads@.dom().contains(
                    (#[trigger] poll.gamepads@[j]).id,
                ) && gamepad_captured(
                    *old(self),
                    poll.gamepads@[j],
                    gamepads@[poll.gamepads@[j].id],
                ) by {
                    if j < i {
                        assert(poll.gamepads@[j].id != poll.gamepads@[i as int].id);
                        assert(gamepad_captured(
                            *old(self),
                            poll.gamepads@[j],
                            pre_map[poll.gamepads@[j].id],
                        ));
                    }
                }
            }
            i = i + 1;
        }
        proof {
            assert(poll.gamepads@.subrange(0, n as int) =~= poll.gamepads@);
        }
        self.keys_pressed = keys_pressed;
        self.keys_just_pressed = keys_just_pressed;
        self.keys_just_released = keys_just_released;
        self.mouse_buttons_pressed = mouse_buttons_pressed;
        self.mouse_buttons_just_pressed = mouse_buttons_just_pressed;
        self.mouse_buttons_just_released = mouse_buttons_just_released;
        self.mouse_position = mouse_position;
        self.mouse_delta = mouse_delta;
        self.position_seen = position_seen;
        self.gamepads = gamepads;
    }
}

} // verus!
