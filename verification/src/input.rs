//! Input: the physical inputs (keys, mouse and gamepad buttons), the
//! per-frame state of what is held and what changed, and the map from
//! action names to input bindings.
use vstd::prelude::*;
use crate::assoc::keys_distinct;
use crate::assoc::lemma_pairs_lookup;
use crate::assoc::lemma_pairs_map;
use crate::assoc::lemma_pairs_map_push;
use crate::assoc::lemma_pairs_map_remove;
use crate::assoc::lemma_pairs_map_update;
use crate::assoc::pairs_map;
use crate::text::str_eq;

verus! {

/// Keyboard keys (the ones games commonly use).
#[derive(Debug, Clone, Copy, PartialEq, Eq, Hash, Structural)]
pub enum KeyCode {
    A, B, C, D, E, F, G, H, I, J, K, L, M,
    N, O, P, Q, R, S, T, U, V, W, X, Y, Z,
    Num0, Num1, Num2, Num3, Num4,
    Num5, Num6, Num7, Num8, Num9,
    F1, F2, F3, F4, F5, F6, F7, F8, F9, F10, F11, F12,
    Escape, Tab, Space, Enter, Backspace,
    Left, Right, Up, Down,
    LeftShift, RightShift, LeftCtrl, RightCtrl, LeftAlt, RightAlt,
}

/// Mouse buttons.
#[derive(Debug, Clone, Copy, PartialEq, Eq, Hash, Structural)]
pub enum MouseButton {
    Left,
    Right,
    Middle,
    Other(u8),
}

/// Gamepad buttons (XInput naming).
#[derive(Debug, Clone, Copy, PartialEq, Eq, Hash, Structural)]
pub enum GamepadButton {
    South,
    East,
    West,
    North,
    LeftBumper,
    RightBumper,
    LeftTrigger,
    RightTrigger,
    Select,
    Start,
    LeftStick,
    RightStick,
    DPadUp,
    DPadDown,
    DPadLeft,
    DPadRight,
}

/// Gamepad axes (two sticks and two triggers).
#[derive(Debug, Clone, Copy, PartialEq, Eq, Hash, Structural)]
pub enum GamepadAxis {
    LeftStickX,
    LeftStickY,
    RightStickX,
    RightStickY,
    LeftZ,
    RightZ,
}

/// The failure to start the gamepad backend.
#[derive(Debug)]
pub enum GilrsInitError {
    Init(String),
}

/// A physical input that can be held down: a key, a mouse button, or a
/// button of the gamepad with the given id.
#[derive(Debug, Clone, Copy, PartialEq, Eq, Structural)]
pub enum HeldInput {
    Key(KeyCode),
    Mouse(MouseButton),
    Pad(u32, GamepadButton),
}

/// A set of held inputs.
pub struct InputSet {
    items: Vec<HeldInput>,
}

impl View for InputSet {
    type V = Set<HeldInput>;

    closed spec fn view(&self) -> Set<HeldInput> {
        self.items@.to_set()
    }
}

impl InputSet {
    pub closed spec fn wf(&self) -> bool {
        self.items@.no_duplicates()
    }

    pub fn new() -> (s: Self)
        ensures
            s.wf(),
            s@ == Set::<HeldInput>::empty(),
    {
        let s = InputSet { items: Vec::new() };
        assert(s@ =~= Set::<HeldInput>::empty());
        s
    }

    fn position(&self, x: HeldInput) -> (r: Option<usize>)
        ensures
            match r {
                Some(i) => i < self.items@.len() && self.items@[i as int] == x,
                None => !self.items@.contains(x),
            },
    {
        let mut i: usize = 0;
        while i < self.items.len()
            invariant
                i <= self.items@.len(),
                forall|j: int| 0 <= j < i ==> self.items@[j] != x,
            decreases self.items@.len() - i,
        {
            if self.items[i] == x {
                return Some(i);
            }
            i = i + 1;
        }
        None
    }

    pub fn contains(&self, x: HeldInput) -> (r: bool)
        ensures
            r == self@.contains(x),
    {
        self.position(x).is_some()
    }

    /// Adds `x`; returns whether it was absent.
    pub fn insert(&mut self, x: HeldInput) -> (added: bool)
        requires
            old(self).wf(),
        ensures
            final(self).wf(),
            added == !old(self)@.contains(x),
            final(self)@ == old(self)@.insert(x),
    {
        match self.position(x) {
            Some(_) => {
                assert(self@ =~= old(self)@.insert(x));
                false
            },
            None => {
                self.items.push(x);
                proof {
                    assert(self@ =~= old(self)@.insert(x)) by {
                        assert forall|y: HeldInput| self@.contains(y) <==> old(self)@.insert(x).contains(y) by {
                            if self.items@.contains(y) && y != x {
                                let k = choose|k: int| 0 <= k < self.items@.len() && self.items@[k] == y;
                                assert(old(self).items@[k] == y);
                            }
                            if old(self).items@.contains(y) {
                                let k = choose|k: int| 0 <= k < old(self).items@.len() && old(self).items@[k] == y;
                                assert(self.items@[k] == y);
                            }
                            if y == x {
                                assert(self.items@[self.items@.len() - 1] == x);
                            }
                        }
                    }
                }
                true
            },
        }
    }

    /// Removes `x`; returns whether it was present.
    pub fn remove(&mut self, x: HeldInput) -> (removed: bool)
        requires
            old(self).wf(),
        ensures
            final(self).wf(),
            removed == old(self)@.contains(x),
            final(self)@ == old(self)@.remove(x),
    {
        match self.position(x) {
            None => {
                assert(self@ =~= old(self)@.remove(x));
                false
            },
            Some(i) => {
                self.items.remove(i);
                proof {
                    let o = old(self).items@;
                    let n = self.items@;
                    assert forall|a: int, b: int| 0 <= a < b < n.len() implies n[a] != n[b] by {
                        let a2 = if a < i { a } else { a + 1 };
                        let b2 = if b < i { b } else { b + 1 };
                        assert(n[a] == o[a2] && n[b] == o[b2]);
                    }
                    assert forall|y: HeldInput| self@.contains(y) <==> old(self)@.remove(x).contains(y) by {
                        if n.contains(y) {
                            let k = choose|k: int| 0 <= k < n.len() && n[k] == y;
                            let k2 = if k < i { k } else { k + 1 };
                            assert(n[k] == o[k2]);
                            assert(k2 != i);
                        }
                        if o.contains(y) && y != x {
                            let k = choose|k: int| 0 <= k < o.len() && o[k] == y;
                            if k < i {
                                assert(n[k] == y);
                            } else {
                                assert(n[k - 1] == y);
                            }
                        }
                    }
                    assert(self@ =~= old(self)@.remove(x));
                }
                true
            },
        }
    }

    /// Removes everything.
    pub fn clear(&mut self)
        ensures
            final(self).wf(),
            final(self)@ == Set::<HeldInput>::empty(),
    {
        self.items.clear();
        assert(self@ =~= Set::<HeldInput>::empty());
    }
}

/// The digital events of the input stream: every event other than pointer
/// motion, scrolling and gamepad axes.
#[derive(Debug, Clone, Copy, PartialEq, Eq, Structural)]
pub enum ButtonEvent {
    KeyPressed(KeyCode),
    KeyReleased(KeyCode),
    MouseButtonPressed(MouseButton),
    MouseButtonReleased(MouseButton),
    GamepadConnected(u32),
    GamepadDisconnected(u32),
    GamepadButtonPressed { id: u32, button: GamepadButton },
    GamepadButtonReleased { id: u32, button: GamepadButton },
    /// The window lost focus: every held input is let go.
    FocusLost,
}

/// The state after input `x` went down; a press is recorded for a tracked
/// input that was up.
pub open spec fn pressed_view(v: ButtonView, x: HeldInput, track: bool) -> ButtonView {
    ButtonView {
        down: v.down.insert(x),
        pressed: if track && !v.down.contains(x) {
            v.pressed.insert(x)
        } else {
            v.pressed
        },
        released: v.released,
    }
}

/// The state after input `x` went up; a release is recorded for a tracked
/// input that was down.
pub open spec fn released_view(v: ButtonView, x: HeldInput, track: bool) -> ButtonView {
    ButtonView {
        down: v.down.remove(x),
        pressed: v.pressed,
        released: if track && v.down.contains(x) {
            v.released.insert(x)
        } else {
            v.released
        },
    }
}

/// The state after one digital event: keys and mouse buttons record their
/// edges, gamepad buttons only their held state, (dis)connections change
/// nothing, and losing focus lets everything go.
pub open spec fn after_button_event(v: ButtonView, e: ButtonEvent) -> ButtonView {
    match e {
        ButtonEvent::KeyPressed(k) => pressed_view(v, HeldInput::Key(k), true),
        ButtonEvent::KeyReleased(k) => released_view(v, HeldInput::Key(k), true),
        ButtonEvent::MouseButtonPressed(b) => pressed_view(v, HeldInput::Mouse(b), true),
        ButtonEvent::MouseButtonReleased(b) => released_view(v, HeldInput::Mouse(b), true),
        ButtonEvent::GamepadButtonPressed { id, button } => pressed_view(v, HeldInput::Pad(id, button), false),
        ButtonEvent::GamepadButtonReleased { id, button } => released_view(v, HeldInput::Pad(id, button), false),
        ButtonEvent::GamepadConnected(_) | ButtonEvent::GamepadDisconnected(_) => v,
        ButtonEvent::FocusLost => ButtonView { down: Set::empty(), ..v },
    }
}

/// What is held and what changed this frame, for keys and mouse buttons,
/// and what is held for gamepad buttons.
pub struct ButtonView {
    pub down: Set<HeldInput>,
    pub pressed: Set<HeldInput>,
    pub released: Set<HeldInput>,
}

/// The button part of the per-frame input state: which inputs are held,
/// and which keys and mouse buttons went down or up since the frame began.
pub struct ButtonState {
    down: InputSet,
    pressed: InputSet,
    released: InputSet,
}

impl View for ButtonState {
    type V = ButtonView;

    closed spec fn view(&self) -> ButtonView {
        ButtonView { down: self.down@, pressed: self.pressed@, released: self.released@ }
    }
}

impl ButtonState {
    pub closed spec fn wf(&self) -> bool {
        self.down.wf() && self.pressed.wf() && self.released.wf()
    }

    /// Nothing held, nothing changed.
    pub fn new() -> (s: Self)
        ensures
            s.wf(),
            s@.down == Set::<HeldInput>::empty(),
            s@.pressed == Set::<HeldInput>::empty(),
            s@.released == Set::<HeldInput>::empty(),
    {
        ButtonState { down: InputSet::new(), pressed: InputSet::new(), released: InputSet::new() }
    }

    /// Starts a frame: forgets this frame's changes and keeps what is held.
    pub fn begin_frame(&mut self)
        requires
            old(self).wf(),
        ensures
            final(self).wf(),
            final(self)@.down == old(self)@.down,
            final(self)@.pressed == Set::<HeldInput>::empty(),
            final(self)@.released == Set::<HeldInput>::empty(),
    {
        self.pressed.clear();
        self.released.clear();
    }

    /// An input goes down; a key or mouse button that was up also records
    /// a press for this frame.
    fn press(&mut self, x: HeldInput, track: bool)
        requires
            old(self).wf(),
        ensures
            final(self).wf(),
            final(self)@.down == old(self)@.down.insert(x),
            final(self)@.pressed == if track && !old(self)@.down.contains(x) {
                old(self)@.pressed.insert(x)
            } else {
                old(self)@.pressed
            },
            final(self)@.released == old(self)@.released,
    {
        let added = self.down.insert(x);
        if added && track {
            self.pressed.insert(x);
        }
    }

    /// An input goes up; a key or mouse button that was down also records
    /// a release for this frame.
    fn release(&mut self, x: HeldInput, track: bool)
        requires
            old(self).wf(),
        ensures
            final(self).wf(),
            final(self)@.down == old(self)@.down.remove(x),
            final(self)@.released == if track && old(self)@.down.contains(x) {
                old(self)@.released.insert(x)
            } else {
                old(self)@.released
            },
            final(self)@.pressed == old(self)@.pressed,
    {
        let removed = self.down.remove(x);
        if removed && track {
            self.released.insert(x);
        }
    }

    /// Takes one digital event into the state.
    pub fn apply(&mut self, event: ButtonEvent)
        requires
            old(self).wf(),
        ensures
            final(self).wf(),
            final(self)@ == after_button_event(old(self)@, event),
    {
        match event {
            ButtonEvent::KeyPressed(k) => self.press(HeldInput::Key(k), true),
            ButtonEvent::KeyReleased(k) => self.release(HeldInput::Key(k), true),
            ButtonEvent::MouseButtonPressed(b) => self.press(HeldInput::Mouse(b), true),
            ButtonEvent::MouseButtonReleased(b) => self.release(HeldInput::Mouse(b), true),
            ButtonEvent::GamepadButtonPressed { id, button } => self.press(HeldInput::Pad(id, button), false),
            ButtonEvent::GamepadButtonReleased { id, button } => self.release(HeldInput::Pad(id, button), false),
            ButtonEvent::GamepadConnected(_) | ButtonEvent::GamepadDisconnected(_) => {},
            ButtonEvent::FocusLost => self.focus_lost(),
        }
    }

    /// A key goes down (a press is recorded if it was up).
    pub fn key_down(&mut self, k: KeyCode)
        requires
            old(self).wf(),
        ensures
            final(self).wf(),
            final(self)@.down == old(self)@.down.insert(HeldInput::Key(k)),
            final(self)@.pressed == if old(self)@.down.contains(HeldInput::Key(k)) {
                old(self)@.pressed
            } else {
                old(self)@.pressed.insert(HeldInput::Key(k))
            },
            final(self)@.released == old(self)@.released,
    {
        self.press(HeldInput::Key(k), true);
    }

    /// A key goes up (a release is recorded if it was down).
    pub fn key_up(&mut self, k: KeyCode)
        requires
            old(self).wf(),
        ensures
            final(self).wf(),
            final(self)@.down == old(self)@.down.remove(HeldInput::Key(k)),
            final(self)@.released == if old(self)@.down.contains(HeldInput::Key(k)) {
                old(self)@.released.insert(HeldInput::Key(k))
            } else {
                old(self)@.released
            },
            final(self)@.pressed == old(self)@.pressed,
    {
        self.release(HeldInput::Key(k), true);
    }

    /// A mouse button goes down (a press is recorded if it was up).
    pub fn mouse_down(&mut self, b: MouseButton)
        requires
            old(self).wf(),
        ensures
            final(self).wf(),
            final(self)@.down == old(self)@.down.insert(HeldInput::Mouse(b)),
            final(self)@.pressed == if old(self)@.down.contains(HeldInput::Mouse(b)) {
                old(self)@.pressed
            } else {
                old(self)@.pressed.insert(HeldInput::Mouse(b))
            },
            final(self)@.released == old(self)@.released,
    {
        self.press(HeldInput::Mouse(b), true);
    }

    /// A mouse button goes up (a release is recorded if it was down).
    pub fn mouse_up(&mut self, b: MouseButton)
        requires
            old(self).wf(),
        ensures
            final(self).wf(),
            final(self)@.down == old(self)@.down.remove(HeldInput::Mouse(b)),
            final(self)@.released == if old(self)@.down.contains(HeldInput::Mouse(b)) {
                old(self)@.released.insert(HeldInput::Mouse(b))
            } else {
                old(self)@.released
            },
            final(self)@.pressed == old(self)@.pressed,
    {
        self.release(HeldInput::Mouse(b), true);
    }

    /// A button of gamepad `id` goes down (no press is recorded).
    pub fn gamepad_down(&mut self, id: u32, button: GamepadButton)
        requires
            old(self).wf(),
        ensures
            final(self).wf(),
            final(self)@ == (ButtonView { down: old(self)@.down.insert(HeldInput::Pad(id, button)), ..old(self)@ }),
    {
        self.press(HeldInput::Pad(id, button), false);
    }

    /// A button of gamepad `id` goes up (no release is recorded).
    pub fn gamepad_up(&mut self, id: u32, button: GamepadButton)
        requires
            old(self).wf(),
        ensures
            final(self).wf(),
            final(self)@ == (ButtonView { down: old(self)@.down.remove(HeldInput::Pad(id, button)), ..old(self)@ }),
    {
        self.release(HeldInput::Pad(id, button), false);
    }

    /// The window lost focus: nothing is held any more (so that no input
    /// stays stuck); this frame's changes are kept.
    pub fn focus_lost(&mut self)
        requires
            old(self).wf(),
        ensures
            final(self).wf(),
            final(self)@ == (ButtonView { down: Set::<HeldInput>::empty(), ..old(self)@ }),
    {
        self.down.clear();
    }

    pub fn is_key_down(&self, k: KeyCode) -> (r: bool)
        ensures
            r == self@.down.contains(HeldInput::Key(k)),
    {
        self.down.contains(HeldInput::Key(k))
    }

    pub fn key_pressed(&self, k: KeyCode) -> (r: bool)
        ensures
            r == self@.pressed.contains(HeldInput::Key(k)),
    {
        self.pressed.contains(HeldInput::Key(k))
    }

    pub fn key_released(&self, k: KeyCode) -> (r: bool)
        ensures
            r == self@.released.contains(HeldInput::Key(k)),
    {
        self.released.contains(HeldInput::Key(k))
    }

    pub fn is_mouse_down(&self, b: MouseButton) -> (r: bool)
        ensures
            r == self@.down.contains(HeldInput::Mouse(b)),
    {
        self.down.contains(HeldInput::Mouse(b))
    }

    pub fn mouse_pressed(&self, b: MouseButton) -> (r: bool)
        ensures
            r == self@.pressed.contains(HeldInput::Mouse(b)),
    {
        self.pressed.contains(HeldInput::Mouse(b))
    }

    pub fn mouse_released(&self, b: MouseButton) -> (r: bool)
        ensures
            r == self@.released.contains(HeldInput::Mouse(b)),
    {
        self.released.contains(HeldInput::Mouse(b))
    }

    pub fn is_gamepad_button_down(&self, id: u32, button: GamepadButton) -> (r: bool)
        ensures
            r == self@.down.contains(HeldInput::Pad(id, button)),
    {
        self.down.contains(HeldInput::Pad(id, button))
    }
}

/// Pressing an input and releasing it in the same frame leaves it up with
/// both a press and a release recorded; a press of something already held
/// records nothing new.
pub proof fn press_release_in_one_frame(v: ButtonView, x: HeldInput)
    requires
        !v.down.contains(x),
    ensures
        ({
            let after_press = ButtonView { down: v.down.insert(x), pressed: v.pressed.insert(x), released: v.released };
            let after_release = ButtonView {
                down: after_press.down.remove(x),
                pressed: after_press.pressed,
                released: after_press.released.insert(x),
            };
            &&& !after_release.down.contains(x)
            &&& after_release.pressed.contains(x)
            &&& after_release.released.contains(x)
        }),
{
}

/// The input backend that produces no event, for tests and windowless runs.
#[derive(Debug, Default)]
pub struct NullBackend;

/// An input source that an action can be bound to.
#[derive(Debug, Clone, Copy, PartialEq, Eq, Hash, Structural)]
pub enum InputBinding {
    Key(KeyCode),
    Mouse(MouseButton),
    GamepadButton(GamepadButton),
}

/// The held input that a binding reads (gamepad bindings read the first
/// local player, gamepad 0).
pub open spec fn binding_input(b: InputBinding) -> HeldInput {
    match b {
        InputBinding::Key(k) => HeldInput::Key(k),
        InputBinding::Mouse(m) => HeldInput::Mouse(m),
        InputBinding::GamepadButton(g) => HeldInput::Pad(0, g),
    }
}

/// The texts of the action names and the bindings of each.
pub open spec fn binding_pairs(s: Seq<(String, Vec<InputBinding>)>) -> Seq<(Seq<char>, Seq<InputBinding>)> {
    s.map_values(|p: (String, Vec<InputBinding>)| (p.0@, p.1@))
}

/// Maps action names (such as "jump") to the inputs bound to them.
pub struct ActionMap {
    bindings: Vec<(String, Vec<InputBinding>)>,
}

impl View for ActionMap {
    type V = Map<Seq<char>, Seq<InputBinding>>;

    closed spec fn view(&self) -> Map<Seq<char>, Seq<InputBinding>> {
        pairs_map(binding_pairs(self.bindings@))
    }
}

impl ActionMap {
    pub closed spec fn wf(&self) -> bool {
        keys_distinct(binding_pairs(self.bindings@))
    }

    /// The bindings of `action`, empty when it has none.
    pub open spec fn bound(m: Map<Seq<char>, Seq<InputBinding>>, action: Seq<char>) -> Seq<InputBinding> {
        if m.contains_key(action) {
            m[action]
        } else {
            Seq::empty()
        }
    }

    /// A map without actions.
    pub fn new() -> (m: Self)
        ensures
            m.wf(),
            m@ == Map::<Seq<char>, Seq<InputBinding>>::empty(),
    {
        let m = ActionMap { bindings: Vec::new() };
        assert(binding_pairs(m.bindings@) =~= Seq::empty());
        m
    }

    fn find(&self, action: &str) -> (r: Option<usize>)
        requires
            self.wf(),
        ensures
            self@.contains_key(action@) == r is Some,
            r matches Some(i) ==> i < self.bindings@.len() && self.bindings@[i as int].0@ == action@
                && self@[action@] == self.bindings@[i as int].1@,
    {
        let mut i: usize = 0;
        while i < self.bindings.len()
            invariant
                i <= self.bindings@.len(),
                self.wf(),
                forall|j: int| 0 <= j < i ==> self.bindings@[j].0@ != action@,
            decreases self.bindings@.len() - i,
        {
            if str_eq(self.bindings[i].0.as_str(), action) {
                proof {
                    assert(binding_pairs(self.bindings@)[i as int].0 == action@);
                    lemma_pairs_lookup(binding_pairs(self.bindings@), action@, Some(i));
                }
                return Some(i);
            }
            i = i + 1;
        }
        proof {
            let s = binding_pairs(self.bindings@);
            assert forall|j: int| 0 <= j < s.len() implies s[j].0 != action@ by {
                assert(s[j].0 == self.bindings@[j].0@);
            }
            lemma_pairs_lookup(s, action@, None);
        }
        None
    }

    /// Adds a binding at the end of the bindings of `action`.
    pub fn bind(&mut self, action: &str, binding: InputBinding)
        requires
            old(self).wf(),
        ensures
            final(self).wf(),
            final(self)@ == old(self)@.insert(action@, Self::bound(old(self)@, action@).push(binding)),
    {
        let ghost s = binding_pairs(self.bindings@);
        match self.find(action) {
            Some(i) => {
                let (name, list) = self.bindings.remove(i);
                let mut list = list;
                list.push(binding);
                self.bindings.insert(i, (name, list));
                proof {
                    assert(binding_pairs(self.bindings@) =~= s.update(i as int, (s[i as int].0, s[i as int].1.push(binding))));
                    lemma_pairs_map_update(s, i as int, s[i as int].1.push(binding));
                }
            },
            None => {
                let mut list: Vec<InputBinding> = Vec::new();
                list.push(binding);
                self.bindings.push((String::from_str(action), list));
                proof {
                    lemma_pairs_map(s);
                    assert forall|j: int| 0 <= j < s.len() implies s[j].0 != action@ by {
                        assert(pairs_map(s).contains_key(s[j].0));
                    }
                    assert(binding_pairs(self.bindings@) =~= s.push((action@, Seq::<InputBinding>::empty().push(binding))));
                    lemma_pairs_map_push(s, action@, Seq::<InputBinding>::empty().push(binding));
                    assert(Self::bound(old(self)@, action@) =~= Seq::<InputBinding>::empty());
                }
            },
        }
    }

    /// Removes every binding of `action`.
    pub fn unbind_all(&mut self, action: &str)
        requires
            old(self).wf(),
        ensures
            final(self).wf(),
            final(self)@ == old(self)@.remove(action@),
    {
        let ghost s = binding_pairs(self.bindings@);
        match self.find(action) {
            Some(i) => {
                self.bindings.remove(i);
                proof {
                    assert(binding_pairs(self.bindings@) =~= s.remove(i as int));
                    lemma_pairs_map_remove(s, i as int);
                }
            },
            None => {
                assert(old(self)@.remove(action@) =~= old(self)@);
            },
        }
    }

    /// The bindings of `action`, or `None` when it has none.
    pub fn bindings(&self, action: &str) -> (r: Option<&[InputBinding]>)
        requires
            self.wf(),
        ensures
            r is Some == self@.contains_key(action@),
            r matches Some(v) ==> v@ == self@[action@],
    {
        match self.find(action) {
            Some(i) => Some(self.bindings[i].1.as_slice()),
            None => None,
        }
    }

    /// Whether any input bound to `action` is held.
    pub fn is_active(&self, action: &str, state: &ButtonState) -> (r: bool)
        requires
            self.wf(),
        ensures
            r == exists|i: int| 0 <= i < Self::bound(self@, action@).len()
                && state@.down.contains(binding_input(#[trigger] Self::bound(self@, action@)[i])),
    {
        match self.find(action) {
            None => false,
            Some(a) => {
                let list = &self.bindings[a].1;
                let mut i: usize = 0;
                while i < list.len()
                    invariant
                        i <= list@.len(),
                        list@ == Self::bound(self@, action@),
                        forall|j: int| 0 <= j < i ==> !state@.down.contains(binding_input(#[trigger] list@[j])),
                    decreases list@.len() - i,
                {
                    let held = match list[i] {
                        InputBinding::Key(k) => state.is_key_down(k),
                        InputBinding::Mouse(m) => state.is_mouse_down(m),
                        InputBinding::GamepadButton(g) => state.is_gamepad_button_down(0, g),
                    };
                    if held {
                        return true;
                    }
                    i = i + 1;
                }
                false
            },
        }
    }
}

impl Default for ActionMap {
    fn default() -> (m: Self)
        ensures
            m.wf(),
            m@ == Map::<Seq<char>, Seq<InputBinding>>::empty(),
    {
        Self::new()
    }
}

/// Binding an input to an action makes the action active whenever that
/// input is held, whatever else is bound to it.
pub proof fn bound_input_activates_action(m: Map<Seq<char>, Seq<InputBinding>>, action: Seq<char>, b: InputBinding, down: Set<HeldInput>)
    requires
        down.contains(binding_input(b)),
    ensures
        ({
            let after = m.insert(action, ActionMap::bound(m, action).push(b));
            let list = ActionMap::bound(after, action);
            exists|i: int| 0 <= i < list.len() && down.contains(binding_input(#[trigger] list[i]))
        }),
{
    let after = m.insert(action, ActionMap::bound(m, action).push(b));
    let list = ActionMap::bound(after, action);
    assert(list[list.len() - 1] == b);
}

/// An action without bindings is never active.
pub proof fn unbound_action_is_inactive(m: Map<Seq<char>, Seq<InputBinding>>, action: Seq<char>)
    ensures
        ActionMap::bound(m.remove(action), action).len() == 0,
{
}

} // verus!
