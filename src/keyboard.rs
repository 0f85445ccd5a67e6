//! Keyboard events, key classification, and the tracking of pressed keys and
//! modifiers.

use vstd::prelude::*;
use std::time::{Duration, Instant};
use crate::clock::{instant_now, elapsed_since, nanos_of, exceeds_nanos};
use crate::text::{chars_of, same_text};

verus! {

/// Whether a key went down, came up, or was pressed and released at once.
#[derive(Debug, Clone, Copy, PartialEq, Eq, Structural)]
pub enum KeyboardEventType {
    KeyDown,
    KeyUp,
    KeyPress,
}

/// One event of the global key listener.
#[derive(Debug, Clone)]
pub struct KeyboardEvent {
    pub event_type: KeyboardEventType,
    pub key_code: u32,
    /// The key's name: the character it types, or a name such as `Backspace`.
    pub key: String,
    pub text: Option<String>,
    /// Milliseconds since the Unix epoch.
    pub timestamp_ms: i64,
}

/// The decimal digits of `n`.
pub open spec fn decimal(n: nat) -> Seq<char>
    decreases n,
{
    if n < 10 {
        seq![digit_char(n)]
    } else {
        decimal(n / 10).push(digit_char(n % 10))
    }
}

/// The character of the digit `d`.
pub open spec fn digit_char(d: nat) -> char {
    if d == 0 { '0' } else if d == 1 { '1' } else if d == 2 { '2' } else if d == 3 { '3' }
    else if d == 4 { '4' } else if d == 5 { '5' } else if d == 6 { '6' } else if d == 7 { '7' }
    else if d == 8 { '8' } else { '9' }
}

fn digit(d: u32) -> (c: char)
    requires
        d < 10,
    ensures
        c == digit_char(d as nat),
{
    if d == 0 { '0' } else if d == 1 { '1' } else if d == 2 { '2' } else if d == 3 { '3' }
    else if d == 4 { '4' } else if d == 5 { '5' } else if d == 6 { '6' } else if d == 7 { '7' }
    else if d == 8 { '8' } else { '9' }
}

/// The decimal representation of `n`.
pub fn decimal_string(n: u32) -> (r: String)
    ensures
        r@ == decimal(n as nat),
    decreases n,
{
    if n < 10 {
        let mut s = String::new();
        crate::text::push_char(&mut s, digit(n));
        s
    } else {
        let mut s = decimal_string(n / 10);
        crate::text::push_char(&mut s, digit(n % 10));
        s
    }
}

/// Relies on `chrono::Utc::now` and `DateTime::timestamp_millis`: the current
/// wall-clock time in milliseconds since the Unix epoch.
#[verifier::external_body]
fn now_timestamp_millis() -> i64 {
    chrono::Utc::now().timestamp_millis()
}

impl KeyboardEvent {
    /// An event for `key_code`, named by its decimal digits and stamped with
    /// the current time.
    pub fn new(event_type: KeyboardEventType, key_code: u32) -> (r: Self)
        ensures
            r.event_type == event_type,
            r.key_code == key_code,
            r.key@ == decimal(key_code as nat),
            r.text is None,
    {
        KeyboardEvent {
            event_type,
            key_code,
            key: decimal_string(key_code),
            text: None,
            timestamp_ms: now_timestamp_millis(),
        }
    }
}

/// Which modifier a key name stands for: ctrl (0), shift (1), alt (2),
/// meta (3), or none (-1).
pub open spec fn modifier_index(key: Seq<char>) -> int {
    if key == "ControlLeft"@ || key == "ControlRight"@ {
        0
    } else if key == "ShiftLeft"@ || key == "ShiftRight"@ {
        1
    } else if key == "Alt"@ || key == "AltGr"@ {
        2
    } else if key == "MetaLeft"@ || key == "MetaRight"@ {
        3
    } else {
        -1
    }
}

/// A key that produces a printable character: one ASCII graphic character or
/// a space, or one of `Space`, `Tab` and `Return`.
pub open spec fn printable_key(key: Seq<char>) -> bool {
    (key.len() == 1 && (('!' <= key[0] && key[0] <= '~') || key[0] == ' ')) || key == "Space"@
        || key == "Tab"@ || key == "Return"@
}

fn modifier_index_of(key: &str) -> (r: i8)
    ensures
        r as int == modifier_index(key@),
{
    if same_text(key, "ControlLeft") || same_text(key, "ControlRight") {
        0
    } else if same_text(key, "ShiftLeft") || same_text(key, "ShiftRight") {
        1
    } else if same_text(key, "Alt") || same_text(key, "AltGr") {
        2
    } else if same_text(key, "MetaLeft") || same_text(key, "MetaRight") {
        3
    } else {
        -1
    }
}

/// Whether `key` names a modifier key.
pub fn key_is_modifier(key: &str) -> (r: bool)
    ensures
        r == (modifier_index(key@) >= 0),
{
    modifier_index_of(key) >= 0
}

/// Whether `key` produces a printable character.
pub fn key_is_printable(key: &str) -> (r: bool)
    ensures
        r == printable_key(key@),
{
    let cs = chars_of(key);
    if cs.len() == 1 && (('!' <= cs[0] && cs[0] <= '~') || cs[0] == ' ') {
        return true;
    }
    same_text(key, "Space") || same_text(key, "Tab") || same_text(key, "Return")
}

/// Which modifier keys are held down.
#[derive(Debug, Clone, Copy, PartialEq, Eq, Structural)]
pub struct ModifierState {
    pub ctrl: bool,
    pub shift: bool,
    pub alt: bool,
    pub meta: bool,
}

impl Default for ModifierState {
    fn default() -> (r: Self)
        ensures
            r == ModifierState::none(),
    {
        ModifierState { ctrl: false, shift: false, alt: false, meta: false }
    }
}

impl ModifierState {
    /// No modifier held.
    pub open spec fn none() -> ModifierState {
        ModifierState { ctrl: false, shift: false, alt: false, meta: false }
    }

    /// The state after an event of type `t` on `key`: a modifier key sets its
    /// flag when it goes down and clears it on any other event.
    pub open spec fn applied(self, key: Seq<char>, t: KeyboardEventType) -> ModifierState {
        let down = t == KeyboardEventType::KeyDown;
        let i = modifier_index(key);
        ModifierState {
            ctrl: if i == 0 { down } else { self.ctrl },
            shift: if i == 1 { down } else { self.shift },
            alt: if i == 2 { down } else { self.alt },
            meta: if i == 3 { down } else { self.meta },
        }
    }

    /// Applies an event of type `event_type` on `key`.
    pub fn apply(&mut self, key: &str, event_type: KeyboardEventType)
        ensures
            *final(self) == old(self).applied(key@, event_type),
    {
        let down = event_type == KeyboardEventType::KeyDown;
        let i = modifier_index_of(key);
        if i == 0 {
            self.ctrl = down;
        } else if i == 1 {
            self.shift = down;
        } else if i == 2 {
            self.alt = down;
        } else if i == 3 {
            self.meta = down;
        }
    }

    pub fn has_any(&self) -> (r: bool)
        ensures
            r == (self.ctrl || self.shift || self.alt || self.meta),
    {
        self.ctrl || self.shift || self.alt || self.meta
    }

    pub fn is_ctrl_only(&self) -> (r: bool)
        ensures
            r == (self.ctrl && !self.shift && !self.alt && !self.meta),
    {
        self.ctrl && !self.shift && !self.alt && !self.meta
    }

    pub fn is_shift_only(&self) -> (r: bool)
        ensures
            r == (!self.ctrl && self.shift && !self.alt && !self.meta),
    {
        !self.ctrl && self.shift && !self.alt && !self.meta
    }

    pub fn is_alt_only(&self) -> (r: bool)
        ensures
            r == (!self.ctrl && !self.shift && self.alt && !self.meta),
    {
        !self.ctrl && !self.shift && self.alt && !self.meta
    }

    /// Whether both states hold the same flags.
    pub fn matches(&self, other: &ModifierState) -> (r: bool)
        ensures
            r == (*self == *other),
    {
        self.ctrl == other.ctrl && self.shift == other.shift && self.alt == other.alt && self.meta
            == other.meta
    }
}

/// A keyboard event with what the handler made of it.
#[derive(Debug, Clone)]
pub struct ProcessedKeyEvent {
    pub key: String,
    pub event_type: KeyboardEventType,
    pub modifiers: ModifierState,
    pub is_modifier: bool,
    pub is_printable: bool,
    pub should_buffer: bool,
}

/// Whether an event belongs in the typing buffer: a printable key going down
/// with neither ctrl, alt nor meta held (shift only capitalises).
pub open spec fn buffers(m: ModifierState, key: Seq<char>, t: KeyboardEventType) -> bool {
    t == KeyboardEventType::KeyDown && !m.ctrl && !m.alt && !m.meta && printable_key(key)
}

/// What the handler tracks: the keys held down and the modifier flags.
pub ghost struct HandlerView {
    pub pressed: Set<Seq<char>>,
    pub modifiers: ModifierState,
}

/// Tracks which keys and modifiers are held, and when input last arrived.
pub struct KeyboardEventHandler {
    pressed_keys: Vec<String>,
    modifiers: ModifierState,
    last_activity: Instant,
}

impl View for KeyboardEventHandler {
    type V = HandlerView;

    closed spec fn view(&self) -> HandlerView {
        HandlerView {
            pressed: self.pressed_keys@.map_values(|k: String| k@).to_set(),
            modifiers: self.modifiers,
        }
    }
}

impl KeyboardEventHandler {
    /// No key is ever recorded twice.
    pub closed spec fn wf(&self) -> bool {
        forall|a: int, b: int|
            0 <= a < b < self.pressed_keys@.len() ==> (#[trigger] self.pressed_keys@[a])@ != (
            #[trigger] self.pressed_keys@[b])@
    }

    pub fn new() -> (r: Self)
        ensures
            r.wf(),
            r@.pressed == Set::<Seq<char>>::empty(),
            r@.modifiers == ModifierState::none(),
    {
        let r = KeyboardEventHandler {
            pressed_keys: Vec::new(),
            modifiers: ModifierState::default(),
            last_activity: instant_now(),
        };
        assert(r@.pressed =~= Set::<Seq<char>>::empty());
        r
    }

    /// The position of `key` among the pressed keys.
    fn position_of(&self, key: &str) -> (r: Option<usize>)
        ensures
            r matches Some(i) ==> i < self.pressed_keys@.len() && self.pressed_keys@[i as int]@
                == key@,
            r is None ==> forall|i: int|
                0 <= i < self.pressed_keys@.len() ==> (#[trigger] self.pressed_keys@[i])@ != key@,
    {
        let mut i: usize = 0;
        while i < self.pressed_keys.len()
            invariant
                i <= self.pressed_keys@.len(),
                forall|j: int| 0 <= j < i ==> (#[trigger] self.pressed_keys@[j])@ != key@,
            decreases self.pressed_keys.len() - i,
        {
            if same_text(self.pressed_keys[i].as_str(), key) {
                return Some(i);
            }
            i = i + 1;
        }
        None
    }

    /// Records that `key` went down (`down`) or came up.
    fn update_key_state(&mut self, key: &String, down: bool)
        requires
            old(self).wf(),
        ensures
            final(self).wf(),
            final(self).modifiers == old(self).modifiers,
            final(self)@.pressed == if down {
                old(self)@.pressed.insert(key@)
            } else {
                old(self)@.pressed.remove(key@)
            },
    {
        let ghost before = self.pressed_keys@;
        let found = self.position_of(key.as_str());
        match found {
            Some(i) => {
                if !down {
                    self.pressed_keys.remove(i);
                    assert(self@.pressed =~= old(self)@.pressed.remove(key@)) by {
                        let after = self.pressed_keys@;
                        assert forall|k: Seq<char>| #[trigger] old(self)@.pressed.contains(k) && k != key@
                            implies self@.pressed.contains(k) by {
                            let j = choose|j: int| 0 <= j < before.len() && before[j]@ == k;
                            if j < i {
                                assert(after[j] == before[j]);
                                assert(after.map_values(|s: String| s@)[j] == k);
                            } else {
                                assert(j != i);
                                assert(after[j - 1] == before[j]);
                                assert(after.map_values(|s: String| s@)[j - 1] == k);
                            }
                        }
                        assert forall|k: Seq<char>| #[trigger] self@.pressed.contains(k) implies
                            old(self)@.pressed.contains(k) && k != key@ by {
                            let j = choose|j: int| 0 <= j < after.len() && after[j]@ == k;
                            if j < i {
                                assert(after[j] == before[j]);
                                assert(before.map_values(|s: String| s@)[j] == k);
                            } else {
                                assert(after[j] == before[j + 1]);
                                assert(before.map_values(|s: String| s@)[j + 1] == k);
                            }
                        }
                    }
                } else {
                    assert(self@.pressed =~= old(self)@.pressed.insert(key@)) by {
                        assert(before.map_values(|s: String| s@)[i as int] == key@);
                    }
                }
            },
            None => {
                if down {
                    self.pressed_keys.push(key.clone());
                    assert(self@.pressed =~= old(self)@.pressed.insert(key@)) by {
                        let after = self.pressed_keys@;
                        assert(after.map_values(|s: String| s@)[before.len() as int] == key@);
                        assert forall|k: Seq<char>| #[trigger] self@.pressed.contains(k) implies
                            old(self)@.pressed.contains(k) || k == key@ by {
                            let j = choose|j: int| 0 <= j < after.len() && after[j]@ == k;
                            if j < before.len() {
                                assert(after[j] == before[j]);
                                assert(before.map_values(|s: String| s@)[j] == k);
                            }
                        }
                        assert forall|k: Seq<char>| #[trigger] old(self)@.pressed.contains(k) implies
                            self@.pressed.contains(k) by {
                            let j = choose|j: int| 0 <= j < before.len() && before[j]@ == k;
                            assert(after[j] == before[j]);
                            assert(after.map_values(|s: String| s@)[j] == k);
                        }
                    }
                } else {
                    assert(self@.pressed =~= old(self)@.pressed.remove(key@)) by {
                        assert forall|k: Seq<char>| #[trigger] old(self)@.pressed.contains(k) implies
                            k != key@ by {
                            let j = choose|j: int| 0 <= j < before.len() && before[j]@ == k;
                        }
                    }
                }
            },
        }
    }

    /// Records `event`: which keys are held, the modifier flags, and the time
    /// of the latest input. The result describes the event as handled.
    pub fn process_event(&mut self, event: KeyboardEvent) -> (r: Option<ProcessedKeyEvent>)
        requires
            old(self).wf(),
        ensures
            final(self).wf(),
            final(self)@.pressed == if event.event_type == KeyboardEventType::KeyDown {
                old(self)@.pressed.insert(event.key@)
            } else {
                old(self)@.pressed.remove(event.key@)
            },
            final(self)@.modifiers == old(self)@.modifiers.applied(event.key@, event.event_type),
            r matches Some(p) && p.key@ == event.key@ && p.event_type == event.event_type
                && p.modifiers == final(self)@.modifiers && p.is_modifier == (modifier_index(
                event.key@,
            ) >= 0) && p.is_printable == printable_key(event.key@) && p.should_buffer == buffers(
                final(self)@.modifiers,
                event.key@,
                event.event_type,
            ),
    {
        self.last_activity = instant_now();
        let down = event.event_type == KeyboardEventType::KeyDown;
        self.update_key_state(&event.key, down);
        self.modifiers.apply(event.key.as_str(), event.event_type);
        let is_modifier = self.is_modifier_key(event.key.as_str());
        let is_printable = self.is_printable_key(event.key.as_str());
        let should_buffer = self.should_buffer_key(&event);
        Some(
            ProcessedKeyEvent {
                key: event.key,
                event_type: event.event_type,
                modifiers: self.modifiers,
                is_modifier,
                is_printable,
                should_buffer,
            },
        )
    }

    /// Whether more time than `timeout` passed since the latest input.
    pub fn is_idle(&self, timeout: Duration) -> bool {
        let elapsed = elapsed_since(&self.last_activity);
        exceeds_nanos(nanos_of(&elapsed), nanos_of(&timeout))
    }

    /// Forgets every held key and modifier.
    pub fn reset(&mut self)
        ensures
            final(self).wf(),
            final(self)@.pressed == Set::<Seq<char>>::empty(),
            final(self)@.modifiers == ModifierState::none(),
    {
        self.pressed_keys = Vec::new();
        self.modifiers = ModifierState::default();
        self.last_activity = instant_now();
        assert(self@.pressed =~= Set::<Seq<char>>::empty());
    }

    pub fn get_modifier_state(&self) -> (r: &ModifierState)
        ensures
            *r == self@.modifiers,
    {
        &self.modifiers
    }

    /// Whether `key` is held down.
    pub fn is_key_pressed(&self, key: &str) -> (r: bool)
        ensures
            r == self@.pressed.contains(key@),
    {
        match self.position_of(key) {
            Some(i) => {
                assert(self.pressed_keys@.map_values(|s: String| s@)[i as int] == key@);
                true
            },
            None => {
                assert(!self@.pressed.contains(key@)) by {
                    if self@.pressed.contains(key@) {
                        let j = choose|j: int|
                            0 <= j < self.pressed_keys@.len() && self.pressed_keys@[j]@ == key@;
                    }
                }
                false
            },
        }
    }

    /// Whether `key` names a modifier key.
    pub fn is_modifier_key(&self, key: &str) -> (r: bool)
        ensures
            r == (modifier_index(key@) >= 0),
    {
        key_is_modifier(key)
    }

    /// Whether `key` produces a printable character.
    pub fn is_printable_key(&self, key: &str) -> (r: bool)
        ensures
            r == printable_key(key@),
    {
        key_is_printable(key)
    }

    /// Whether `event` belongs in the typing buffer, given the modifiers held.
    pub fn should_buffer_key(&self, event: &KeyboardEvent) -> (r: bool)
        ensures
            r == buffers(self@.modifiers, event.key@, event.event_type),
    {
        if event.event_type != KeyboardEventType::KeyDown {
            return false;
        }
        if self.modifiers.ctrl || self.modifiers.alt || self.modifiers.meta {
            return false;
        }
        key_is_printable(event.key.as_str())
    }

    /// The keys held down, each once.
    pub fn get_pressed_keys(&self) -> (r: Vec<String>)
        requires
            self.wf(),
        ensures
            r@.map_values(|k: String| k@).to_set() == self@.pressed,
            forall|a: int, b: int| 0 <= a < b < r@.len() ==> (#[trigger] r@[a])@ != (#[trigger] r@[b])@,
    {
        let mut out: Vec<String> = Vec::new();
        let mut i: usize = 0;
        while i < self.pressed_keys.len()
            invariant
                self.wf(),
                i <= self.pressed_keys@.len(),
                out@.len() == i,
                forall|j: int| 0 <= j < i ==> (#[trigger] out@[j]) == self.pressed_keys@[j],
            decreases self.pressed_keys.len() - i,
        {
            out.push(self.pressed_keys[i].clone());
            i = i + 1;
        }
        assert(out@ =~= self.pressed_keys@);
        out
    }

    /// Whether any modifier is held.
    pub fn has_modifiers(&self) -> (r: bool)
        ensures
            r == (self@.modifiers.ctrl || self@.modifiers.shift || self@.modifiers.alt
                || self@.modifiers.meta),
    {
        self.modifiers.ctrl || self.modifiers.shift || self.modifiers.alt || self.modifiers.meta
    }
}

} // verus!
