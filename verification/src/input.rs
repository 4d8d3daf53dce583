//! Input state: pressed mouse buttons and keys, across frames.
use vstd::prelude::*;
use crate::text_util::str_equals;

verus! {

/// Mouse button identifiers.
#[derive(Debug, Clone, Copy, PartialEq, Eq, Hash, Structural)]
pub enum MouseButton {
    Left,
    Right,
    Middle,
}

/// Modifier keys state.
#[derive(Debug, Clone, Copy, PartialEq, Eq, Structural)]
pub struct Modifiers {
    pub shift: bool,
    pub ctrl: bool,
    pub alt: bool,
    pub meta: bool,
}

impl Default for Modifiers {
    /// No modifier pressed.
    fn default() -> (m: Self)
        ensures
            m == (Modifiers { shift: false, ctrl: false, alt: false, meta: false }),
    {
        Modifiers { shift: false, ctrl: false, alt: false, meta: false }
    }
}

/// Keyboard event type.
#[derive(Debug, Clone)]
pub enum KeyEvent {
    Pressed(String),
    Released(String),
}

/// What becomes of the remembered last click (its time and place, which the
/// caller keeps) after a button went down.
#[derive(Debug, Clone, Copy, PartialEq, Eq, Structural)]
pub enum ClickMemory {
    /// Leave it as it is.
    Keep,
    /// Remember this press as the last click.
    Remember,
    /// Forget it (it ended a double click).
    Forget,
}

/// The outcome of a button press.
#[derive(Debug, Clone, Copy, PartialEq, Eq, Structural)]
pub struct ButtonDown {
    /// Whether the press started a drag.
    pub drag_started: bool,
    /// What becomes of the remembered last click.
    pub click: ClickMemory,
}

/// The button and key part of the input state as the contracts see it.
pub ghost struct InputView {
    pub pressed_buttons: Set<MouseButton>,
    pub just_pressed_buttons: Set<MouseButton>,
    pub just_released_buttons: Set<MouseButton>,
    pub pressed_keys: Set<Seq<char>>,
    pub just_pressed_keys: Set<Seq<char>>,
    pub modifiers: Modifiers,
    pub is_dragging: bool,
    pub double_click: bool,
}

/// Tracks which buttons and keys are held, which changed this frame, and
/// whether a double click happened. (Pointer positions, scrolling and the time
/// and place of the last click are geometry and time, kept by the caller.)
pub struct InputState {
    /// Currently pressed mouse buttons.
    pressed_buttons: Vec<MouseButton>,
    /// Buttons that were just pressed this frame.
    just_pressed_buttons: Vec<MouseButton>,
    /// Buttons that were just released this frame.
    just_released_buttons: Vec<MouseButton>,
    /// Current modifier keys state.
    pub modifiers: Modifiers,
    /// Currently pressed keys.
    pressed_keys: Vec<String>,
    /// Keys that were just pressed this frame.
    just_pressed_keys: Vec<String>,
    /// Whether the pointer is currently dragging (left button held).
    pub is_dragging: bool,
    /// Whether a double-click was detected this frame.
    double_click_detected: bool,
}

/// The texts of a list of strings.
spec fn key_texts(v: Seq<String>) -> Seq<Seq<char>> {
    v.map_values(|s: String| s@)
}

impl View for InputState {
    type V = InputView;

    closed spec fn view(&self) -> InputView {
        InputView {
            pressed_buttons: self.pressed_buttons@.to_set(),
            just_pressed_buttons: self.just_pressed_buttons@.to_set(),
            just_released_buttons: self.just_released_buttons@.to_set(),
            pressed_keys: key_texts(self.pressed_keys@).to_set(),
            just_pressed_keys: key_texts(self.just_pressed_keys@).to_set(),
            modifiers: self.modifiers,
            is_dragging: self.is_dragging,
            double_click: self.double_click_detected,
        }
    }
}

/// Index of `b` in `v`, if present.
fn find_button(v: &Vec<MouseButton>, b: MouseButton) -> (r: Option<usize>)
    ensures
        match r {
            Some(i) => i < v@.len() && v@[i as int] == b && v@.contains(b),
            None => !v@.contains(b),
        },
{
    let n = v.len();
    let mut i: usize = 0;
    while i < n
        invariant
            n == v@.len(),
            i <= n,
            forall|j: int| 0 <= j < i ==> v@[j] != b,
        decreases n - i,
    {
        if v[i] == b {
            return Some(i);
        }
        i = i + 1;
    }
    None
}

/// Index of a key with the text of `k` in `v`, if present.
fn find_key(v: &Vec<String>, k: &str) -> (r: Option<usize>)
    ensures
        match r {
            Some(i) => i < v@.len() && v@[i as int]@ == k@ && key_texts(v@).contains(k@),
            None => !key_texts(v@).contains(k@),
        },
{
    let n = v.len();
    let mut i: usize = 0;
    while i < n
        invariant
            n == v@.len(),
            i <= n,
            forall|j: int| 0 <= j < i ==> v@[j]@ != k@,
        decreases n - i,
    {
        if str_equals(v[i].as_str(), k) {
            proof {
                assert(key_texts(v@)[i as int] == k@);
            }
            return Some(i);
        }
        i = i + 1;
    }
    proof {
        if key_texts(v@).contains(k@) {
            let j = choose|j: int| 0 <= j < key_texts(v@).len() && key_texts(v@)[j] == k@;
            assert(v@[j]@ == k@);
        }
    }
    None
}

/// Removing the only occurrence of an element removes it from the list's set.
proof fn lemma_remove_from_set<T>(s: Seq<T>, i: int)
    requires
        0 <= i < s.len(),
        s.no_duplicates(),
    ensures
        s.remove(i).to_set() == s.to_set().remove(s[i]),
        s.remove(i).no_duplicates(),
{
    let r = s.remove(i);
    assert forall|a: T| r.contains(a) <==> (s.contains(a) && a != s[i]) by {
        if r.contains(a) {
            let j = choose|j: int| 0 <= j < r.len() && r[j] == a;
            if j < i {
                assert(s[j] == a);
            } else {
                assert(s[j + 1] == a);
            }
        }
        if s.contains(a) && a != s[i] {
            let j = choose|j: int| 0 <= j < s.len() && s[j] == a;
            if j < i {
                assert(r[j] == a);
            } else {
                assert(j != i);
                assert(r[j - 1] == a);
            }
        }
    }
    assert(r.to_set() =~= s.to_set().remove(s[i]));
    assert forall|a: int, b: int| 0 <= a < r.len() && 0 <= b < r.len() && a != b implies r[a]
        != r[b] by {
        let sa = if a < i {
            a
        } else {
            a + 1
        };
        let sb = if b < i {
            b
        } else {
            b + 1
        };
        assert(r[a] == s[sa]);
        assert(r[b] == s[sb]);
    }
}

impl InputState {
    /// The lists behind the sets hold no repetitions.
    pub closed spec fn well_formed(&self) -> bool {
        &&& self.pressed_buttons@.no_duplicates()
        &&& self.just_pressed_buttons@.no_duplicates()
        &&& self.just_released_buttons@.no_duplicates()
        &&& key_texts(self.pressed_keys@).no_duplicates()
        &&& key_texts(self.just_pressed_keys@).no_duplicates()
    }

    /// The modifier keys held, as the view holds them.
    pub fn current_modifiers(&self) -> (m: Modifiers)
        ensures
            m == self@.modifiers,
    {
        self.modifiers
    }

    /// Whether the pointer is dragging, as the view holds it.
    pub fn dragging(&self) -> (b: bool)
        ensures
            b == self@.is_dragging,
    {
        self.is_dragging
    }

    /// Create a new input state: nothing pressed, no modifiers, not dragging.
    pub fn new() -> (s: Self)
        ensures
            s.well_formed(),
            s@.pressed_buttons.is_empty(),
            s@.just_pressed_buttons.is_empty(),
            s@.just_released_buttons.is_empty(),
            s@.pressed_keys.is_empty(),
            s@.just_pressed_keys.is_empty(),
            s@.modifiers == (Modifiers { shift: false, ctrl: false, alt: false, meta: false }),
            !s@.is_dragging,
            !s@.double_click,
    {
        let s = InputState {
            pressed_buttons: Vec::new(),
            just_pressed_buttons: Vec::new(),
            just_released_buttons: Vec::new(),
            modifiers: Modifiers::default(),
            pressed_keys: Vec::new(),
            just_pressed_keys: Vec::new(),
            is_dragging: false,
            double_click_detected: false,
        };
        proof {
            assert(s@.pressed_buttons =~= Set::empty());
            assert(s@.just_pressed_buttons =~= Set::empty());
            assert(s@.just_released_buttons =~= Set::empty());
            assert(key_texts(s.pressed_keys@) =~= seq![]);
            assert(key_texts(s.just_pressed_keys@) =~= seq![]);
            assert(s@.pressed_keys =~= Set::empty());
            assert(s@.just_pressed_keys =~= Set::empty());
        }
        s
    }

    /// Call at the start of each frame to reset per-frame state: the
    /// just-pressed and just-released sets and the double-click flag.
    pub fn begin_frame(&mut self)
        requires
            old(self).well_formed(),
        ensures
            final(self).well_formed(),
            final(self)@ == (InputView {
                just_pressed_buttons: Set::empty(),
                just_released_buttons: Set::empty(),
                just_pressed_keys: Set::empty(),
                double_click: false,
                ..old(self)@
            }),
    {
        self.just_pressed_buttons.clear();
        self.just_released_buttons.clear();
        self.just_pressed_keys.clear();
        self.double_click_detected = false;
        proof {
            assert(self@.just_pressed_buttons =~= Set::empty());
            assert(self@.just_released_buttons =~= Set::empty());
            assert(key_texts(self.just_pressed_keys@) =~= seq![]);
            assert(self@.just_pressed_keys =~= Set::empty());
        }
    }

    /// A mouse button went down. It becomes pressed, and just pressed if it was
    /// not pressed before. For the left button: the press is a double click
    /// when it comes near the remembered last click (within the double-click
    /// time and distance, which the caller measures), and that click is then
    /// forgotten; otherwise this press is remembered as the last click. The
    /// left button also starts a drag unless one is under way.
    pub fn button_down(&mut self, button: MouseButton, near_last_click: bool) -> (r: ButtonDown)
        requires
            old(self).well_formed(),
        ensures
            final(self).well_formed(),
            r.drag_started == (button == MouseButton::Left && !old(self)@.is_dragging),
            r.click == (if button != MouseButton::Left {
                ClickMemory::Keep
            } else if near_last_click {
                ClickMemory::Forget
            } else {
                ClickMemory::Remember
            }),
            final(self)@ == (InputView {
                pressed_buttons: old(self)@.pressed_buttons.insert(button),
                just_pressed_buttons: if old(self)@.pressed_buttons.contains(button) {
                    old(self)@.just_pressed_buttons
                } else {
                    old(self)@.just_pressed_buttons.insert(button)
                },
                is_dragging: old(self)@.is_dragging || button == MouseButton::Left,
                double_click: old(self)@.double_click || (button == MouseButton::Left
                    && near_last_click),
                ..old(self)@
            }),
    {
        if find_button(&self.pressed_buttons, button).is_none() {
            proof {
                self.pressed_buttons@.lemma_push_to_set_commute(button);
            }
            self.pressed_buttons.push(button);
            if find_button(&self.just_pressed_buttons, button).is_none() {
                proof {
                    self.just_pressed_buttons@.lemma_push_to_set_commute(button);
                }
                self.just_pressed_buttons.push(button);
            } else {
                proof {
                    assert(self@.just_pressed_buttons.contains(button));
                    assert(self@.just_pressed_buttons.insert(button) =~= self@.just_pressed_buttons);
                }
            }
        } else {
            proof {
                assert(self@.pressed_buttons.insert(button) =~= self@.pressed_buttons);
            }
        }
        let mut drag_started = false;
        let mut click = ClickMemory::Keep;
        if button == MouseButton::Left {
            if near_last_click {
                self.double_click_detected = true;
                click = ClickMemory::Forget;
            } else {
                click = ClickMemory::Remember;
            }
            if !self.is_dragging {
                self.is_dragging = true;
                drag_started = true;
            }
        }
        ButtonDown { drag_started, click }
    }

    /// A mouse button went up. It is no longer pressed, and is just released if
    /// it was pressed; the left button ends any drag.
    pub fn button_up(&mut self, button: MouseButton)
        requires
            old(self).well_formed(),
        ensures
            final(self).well_formed(),
            final(self)@ == (InputView {
                pressed_buttons: old(self)@.pressed_buttons.remove(button),
                just_released_buttons: if old(self)@.pressed_buttons.contains(button) {
                    old(self)@.just_released_buttons.insert(button)
                } else {
                    old(self)@.just_released_buttons
                },
                is_dragging: old(self)@.is_dragging && button != MouseButton::Left,
                ..old(self)@
            }),
    {
        match find_button(&self.pressed_buttons, button) {
            Some(i) => {
                proof {
                    lemma_remove_from_set(self.pressed_buttons@, i as int);
                }
                self.pressed_buttons.remove(i);
                if find_button(&self.just_released_buttons, button).is_none() {
                    proof {
                        self.just_released_buttons@.lemma_push_to_set_commute(button);
                    }
                    self.just_released_buttons.push(button);
                } else {
                    proof {
                        assert(self@.just_released_buttons.insert(button) =~= self@.just_released_buttons);
                    }
                }
            },
            None => {
                proof {
                    assert(self@.pressed_buttons.remove(button) =~= self@.pressed_buttons);
                }
            },
        }
        if button == MouseButton::Left {
            self.is_dragging = false;
        }
    }

    /// Process a key event: a pressed key becomes pressed (and just pressed if
    /// it was not pressed before); a released key is no longer pressed.
    pub fn handle_key_event(&mut self, event: KeyEvent)
        requires
            old(self).well_formed(),
        ensures
            final(self).well_formed(),
            match event {
                KeyEvent::Pressed(k) => final(self)@ == (InputView {
                    pressed_keys: old(self)@.pressed_keys.insert(k@),
                    just_pressed_keys: if old(self)@.pressed_keys.contains(k@) {
                        old(self)@.just_pressed_keys
                    } else {
                        old(self)@.just_pressed_keys.insert(k@)
                    },
                    ..old(self)@
                }),
                KeyEvent::Released(k) => final(self)@ == (InputView {
                    pressed_keys: old(self)@.pressed_keys.remove(k@),
                    ..old(self)@
                }),
            },
    {
        match event {
            KeyEvent::Pressed(key) => {
                if find_key(&self.pressed_keys, key.as_str()).is_none() {
                    let copy = key.clone();
                    proof {
                        key_texts(self.pressed_keys@).lemma_push_to_set_commute(key@);
                        assert(key_texts(self.pressed_keys@.push(copy)) =~= key_texts(
                            self.pressed_keys@,
                        ).push(key@));
                    }
                    self.pressed_keys.push(copy);
                    if find_key(&self.just_pressed_keys, key.as_str()).is_none() {
                        proof {
                            key_texts(self.just_pressed_keys@).lemma_push_to_set_commute(key@);
                            assert(key_texts(self.just_pressed_keys@.push(key)) =~= key_texts(
                                self.just_pressed_keys@,
                            ).push(key@));
                        }
                        self.just_pressed_keys.push(key);
                    } else {
                        proof {
                            assert(self@.just_pressed_keys.insert(key@) =~= self@.just_pressed_keys);
                        }
                    }
                } else {
                    proof {
                        assert(self@.pressed_keys.insert(key@) =~= self@.pressed_keys);
                    }
                }
            },
            KeyEvent::Released(key) => {
                match find_key(&self.pressed_keys, key.as_str()) {
                    Some(i) => {
                        proof {
                            let t = key_texts(self.pressed_keys@);
                            lemma_remove_from_set(t, i as int);
                            assert(key_texts(self.pressed_keys@.remove(i as int)) =~= t.remove(
                                i as int,
                            ));
                        }
                        self.pressed_keys.remove(i);
                    },
                    None => {
                        proof {
                            assert(self@.pressed_keys.remove(key@) =~= self@.pressed_keys);
                        }
                    },
                }
            },
        }
    }

    /// Update modifier keys state.
    pub fn set_modifiers(&mut self, modifiers: Modifiers)
        ensures
            final(self)@ == (InputView { modifiers, ..old(self)@ }),
            final(self).well_formed() == old(self).well_formed(),
    {
        self.modifiers = modifiers;
    }

    /// Check if a button is currently pressed.
    pub fn is_button_pressed(&self, button: MouseButton) -> (b: bool)
        ensures
            b == self@.pressed_buttons.contains(button),
    {
        find_button(&self.pressed_buttons, button).is_some()
    }

    /// Check if a button was just pressed this frame.
    pub fn is_button_just_pressed(&self, button: MouseButton) -> (b: bool)
        ensures
            b == self@.just_pressed_buttons.contains(button),
    {
        find_button(&self.just_pressed_buttons, button).is_some()
    }

    /// Check if a button was just released this frame.
    pub fn is_button_just_released(&self, button: MouseButton) -> (b: bool)
        ensures
            b == self@.just_released_buttons.contains(button),
    {
        find_button(&self.just_released_buttons, button).is_some()
    }

    /// Check if a key is currently pressed.
    pub fn is_key_pressed(&self, key: &str) -> (b: bool)
        ensures
            b == self@.pressed_keys.contains(key@),
    {
        find_key(&self.pressed_keys, key).is_some()
    }

    /// Check if a key was just pressed this frame.
    pub fn is_key_just_pressed(&self, key: &str) -> (b: bool)
        ensures
            b == self@.just_pressed_keys.contains(key@),
    {
        find_key(&self.just_pressed_keys, key).is_some()
    }

    /// Check if a double-click was detected this frame.
    pub fn is_double_click(&self) -> (b: bool)
        ensures
            b == self@.double_click,
    {
        self.double_click_detected
    }
}

/// A new frame forgets what was just pressed or released but keeps what is held.
pub proof fn lemma_begin_frame_keeps_held(before: InputView, after: InputView)
    requires
        after == (InputView {
            just_pressed_buttons: Set::empty(),
            just_released_buttons: Set::empty(),
            just_pressed_keys: Set::empty(),
            double_click: false,
            ..before
        }),
    ensures
        after.pressed_buttons == before.pressed_buttons,
        after.pressed_keys == before.pressed_keys,
        forall|b: MouseButton| !after.just_pressed_buttons.contains(b),
{
}

} // verus!
