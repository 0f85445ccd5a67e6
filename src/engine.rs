//! The expansion engine's decisions: what each keyboard event does to the
//! typing buffer, when a trigger is ready for expansion, how detections are
//! handed to the expansion task, and what that task does with an answer.
//!
//! The engine runs in two contexts. The listener feeds every keyboard event to
//! [`TextExpansionEngine::handle_keyboard_event`], which owns the buffer and
//! never blocks: a detection that finds the hand-off channel full is dropped.
//! The expansion task takes detections in order, asks the snippet service, and
//! acts on [`plan_expansion`]'s answer.

use vstd::prelude::*;
use tokio::sync::mpsc::Sender;
use tokio::sync::mpsc::error::TrySendError;
use crate::buffer::{BufferView, TextBuffer};
use crate::dto::{ExpansionRequest, ExpansionResponse};
use crate::keyboard::{KeyboardEvent, KeyboardEventType, ModifierState};
use crate::text::{chars_of, same_text};
use crate::triggers::{
    TriggerDetectionService, TriggerMatch, PATTERN_COUNT, starts_trigger, trigger_char,
    maximal_run, marker, pattern_of, is_trigger_match, lemma_no_start_inside,
    lemma_maximal_run_unique,
};

verus! {

/// The engine's settings.
#[derive(Debug, Clone, Copy, PartialEq, Eq, Structural)]
pub struct ExpansionConfig {
    /// How many typed characters the buffer keeps.
    pub buffer_size: usize,
    /// After this long without typing, the buffer is stale.
    pub trigger_timeout_ms: u64,
    /// How long the expansion task waits before acting on a detection.
    pub expansion_delay_ms: u64,
    pub enabled: bool,
    pub case_sensitive: bool,
}

impl Default for ExpansionConfig {
    fn default() -> (r: Self)
        ensures
            r == default_config(),
    {
        ExpansionConfig {
            buffer_size: 100,
            trigger_timeout_ms: 1000,
            expansion_delay_ms: 50,
            enabled: true,
            case_sensitive: true,
        }
    }
}

/// A detected trigger, handed from the listener to the expansion task.
#[derive(Debug, Clone)]
pub struct ExpansionEvent {
    pub trigger: String,
    /// How many characters to delete before typing the expansion.
    pub trigger_length: usize,
    /// The buffer's text when the trigger was detected.
    pub buffer_text: String,
}

/// The engine's life cycle.
#[derive(Debug, Clone, Copy, PartialEq, Eq, Structural)]
pub enum EngineState {
    Stopped,
    /// Waiting for the keyboard hook to be installed.
    Starting,
    Running,
}

/// What can go wrong while the engine starts or runs.
#[derive(Debug, Clone, Copy, PartialEq, Eq, Structural)]
pub enum EngineError {
    /// `start` while the engine is starting or running.
    AlreadyRunning,
    /// The keyboard hook could not be installed.
    HookUnavailable,
    /// The hook's installation was reported while the engine was not starting.
    NotStarting,
    /// The synthetic input failed; that expansion is abandoned.
    ActuationFailed,
    /// The snippet service failed; nothing is typed.
    LookupFailed,
    /// The hand-off channel was full; the detection is dropped.
    ChannelSaturated,
    /// The expansion task is gone; the detection is dropped.
    ChannelClosed,
}

/// What a key does to the buffer.
#[derive(Debug, Clone, Copy, PartialEq, Eq, Structural)]
pub enum KeyKind {
    /// A key that types one ASCII character.
    Char(char),
    Backspace,
    /// A key that ends a word (`Return`, `Tab`, `Space`) or a control or
    /// modifier key (`Escape`, `Control*`, `Alt*`, `Meta*`): no trigger spans it.
    Boundary,
    Other,
}

/// The kind of the key named `key`.
pub open spec fn key_kind(key: Seq<char>) -> KeyKind {
    if key.len() == 1 && (key[0] as u32) < 128 {
        KeyKind::Char(key[0])
    } else if key == "Backspace"@ {
        KeyKind::Backspace
    } else if key == "Return"@ || key == "Tab"@ || key == "Space"@ || key == "Escape"@ || key
        == "ControlLeft"@ || key == "ControlRight"@ || key == "Alt"@ || key == "AltGr"@ || key
        == "MetaLeft"@ || key == "MetaRight"@ {
        KeyKind::Boundary
    } else {
        KeyKind::Other
    }
}

/// The kind of the key named `key`.
pub fn classify_key(key: &str) -> (r: KeyKind)
    ensures
        r == key_kind(key@),
{
    let cs = chars_of(key);
    if cs.len() == 1 && (cs[0] as u32) < 128 {
        KeyKind::Char(cs[0])
    } else if same_text(key, "Backspace") {
        KeyKind::Backspace
    } else if same_text(key, "Return") || same_text(key, "Tab") || same_text(key, "Space")
        || same_text(key, "Escape") || same_text(key, "ControlLeft") || same_text(
        key,
        "ControlRight",
    ) || same_text(key, "Alt") || same_text(key, "AltGr") || same_text(key, "MetaLeft")
        || same_text(key, "MetaRight") {
        KeyKind::Boundary
    } else {
        KeyKind::Other
    }
}

/// A trigger of an enabled pattern starts at `s` and runs to the end of `text`.
pub open spec fn trigger_ends_at(text: Seq<char>, pats: Set<usize>, s: int) -> bool {
    &&& starts_trigger(text, pats, s)
    &&& maximal_run(text, s + marker(pattern_of(text[s])).len(), text.len() as int)
}

/// `r` is the detection in `text`: the trigger that ends where typing is,
/// if there is one.
pub open spec fn is_detection(r: Option<ExpansionEvent>, text: Seq<char>, pats: Set<usize>) -> bool {
    &&& (r is Some <==> exists|s: int| trigger_ends_at(text, pats, s))
    &&& r matches Some(ev) ==> exists|s: int|
        #![trigger trigger_ends_at(text, pats, s)]
        trigger_ends_at(text, pats, s) && ev.trigger@ == text.subrange(s, text.len() as int)
            && ev.trigger_length == text.len() - s && ev.buffer_text@ == text
}

/// At most one trigger ends where typing is.
pub proof fn lemma_detection_unique(text: Seq<char>, pats: Set<usize>, s1: int, s2: int)
    requires
        trigger_ends_at(text, pats, s1),
        trigger_ends_at(text, pats, s2),
    ensures
        s1 == s2,
{
    if s1 < s2 {
        lemma_no_start_inside(text, pats, s1, text.len() as int, s2);
    } else if s2 < s1 {
        lemma_no_start_inside(text, pats, s2, text.len() as int, s1);
    }
}

/// What the listener does after one keyboard event.
#[derive(Debug, Clone)]
pub enum KeyOutcome {
    /// The engine is not running: the listener ends.
    Stop,
    /// The event left the buffer alone, or emptied a stale buffer.
    Skip,
    /// The buffer changed and holds no trigger at its end.
    Updated,
    /// The buffer changed and ends with a trigger.
    Expand(ExpansionEvent),
}

/// What the expansion task does with a detection.
#[derive(Debug, Clone)]
pub enum ExpansionAction {
    /// Delete `backspaces` characters, then type `text`.
    Replace { backspaces: usize, text: String },
    /// Leave the typed trigger as it is.
    Skip,
}

/// What the engine holds, in the abstract.
pub ghost struct EngineView {
    pub state: EngineState,
    pub config: ExpansionConfig,
    pub buffer: BufferView,
    pub patterns: Set<usize>,
    pub modifiers: ModifierState,
}

impl EngineView {
    /// The same engine in another state of its life cycle.
    pub open spec fn with_state(self, state: EngineState) -> EngineView {
        EngineView { state, ..self }
    }

    /// The same engine with another buffer.
    pub open spec fn with_buffer(self, buffer: BufferView) -> EngineView {
        EngineView { buffer, ..self }
    }

    /// The same engine with other enabled patterns.
    pub open spec fn with_patterns(self, patterns: Set<usize>) -> EngineView {
        EngineView { patterns, ..self }
    }

    /// The settings replaced, and the buffer resized to match.
    pub open spec fn reconfigured(self, config: ExpansionConfig) -> EngineView {
        EngineView { config, buffer: self.buffer.resized(config.buffer_size as nat), ..self }
    }

    /// The buffer fits its capacity, and the capacity is the configured one.
    pub open spec fn wf(self) -> bool {
        self.buffer.wf() && self.buffer.max_size == self.config.buffer_size
    }

    /// The engine after a key event of type `t` on `key`; `expired` tells
    /// whether the buffer had gone stale when a typed character arrived.
    pub open spec fn after_key(self, key: Seq<char>, t: KeyboardEventType, expired: bool) -> EngineView {
        if self.state != EngineState::Running || !self.config.enabled {
            self
        } else {
            let b = if t != KeyboardEventType::KeyDown {
                self.buffer
            } else {
                match key_kind(key) {
                    KeyKind::Char(c) => if expired {
                        self.buffer.pushed(c).cleared()
                    } else {
                        self.buffer.pushed(c)
                    },
                    KeyKind::Backspace => self.buffer.removed(1),
                    KeyKind::Boundary => self.buffer.cleared(),
                    KeyKind::Other => self.buffer,
                }
            };
            EngineView {
                state: self.state,
                config: self.config,
                buffer: b,
                patterns: self.patterns,
                modifiers: self.modifiers.applied(key, t),
            }
        }
    }

    /// `r` is what the listener reports after that event.
    pub open spec fn key_outcome(
        self,
        key: Seq<char>,
        t: KeyboardEventType,
        expired: bool,
        r: KeyOutcome,
    ) -> bool {
        if self.state != EngineState::Running {
            r is Stop
        } else if !self.config.enabled || t != KeyboardEventType::KeyDown {
            r is Skip
        } else {
            match key_kind(key) {
                KeyKind::Char(c) => if expired {
                    r is Skip
                } else {
                    outcome_of_detection(r, self.buffer.pushed(c).content, self.patterns)
                },
                KeyKind::Backspace => r is Updated,
                KeyKind::Boundary => r is Updated,
                KeyKind::Other => r is Skip,
            }
        }
    }
}

/// `r` reports the detection in `text`.
pub open spec fn outcome_of_detection(r: KeyOutcome, text: Seq<char>, pats: Set<usize>) -> bool {
    match r {
        KeyOutcome::Expand(ev) => is_detection(Some(ev), text, pats),
        KeyOutcome::Updated => is_detection(None, text, pats),
        _ => false,
    }
}

#[verifier::external_type_specification]
#[verifier::external_body]
#[verifier::reject_recursive_types(T)]
pub struct ExSender<T>(Sender<T>);

/// Relies on tokio's `Sender::try_send`: queues `event` without waiting, or
/// reports that the channel is full or that its receiver is gone.
#[verifier::external_body]
fn try_send_event(sender: &Sender<ExpansionEvent>, event: ExpansionEvent) -> (r: Result<(), EngineError>)
    ensures
        r matches Err(e) ==> (e == EngineError::ChannelSaturated || e == EngineError::ChannelClosed),
{
    match sender.try_send(event) {
        Ok(()) => Ok(()),
        Err(TrySendError::Full(_)) => Err(EngineError::ChannelSaturated),
        Err(TrySendError::Closed(_)) => Err(EngineError::ChannelClosed),
    }
}

/// The settings used when none are given.
pub open spec fn default_config() -> ExpansionConfig {
    ExpansionConfig {
        buffer_size: 100,
        trigger_timeout_ms: 1000,
        expansion_delay_ms: 50,
        enabled: true,
        case_sensitive: true,
    }
}

/// An operation that failed with `e`.
pub open spec fn failed(e: EngineError) -> Result<(), EngineError> {
    Err(e)
}

/// Drives the typing buffer from keyboard events and detects triggers.
pub struct TextExpansionEngine {
    state: EngineState,
    config: ExpansionConfig,
    buffer: TextBuffer,
    trigger_detection: TriggerDetectionService,
    modifiers: ModifierState,
}

impl View for TextExpansionEngine {
    type V = EngineView;

    closed spec fn view(&self) -> EngineView {
        EngineView {
            state: self.state,
            config: self.config,
            buffer: self.buffer@,
            patterns: self.trigger_detection@,
            modifiers: self.modifiers,
        }
    }
}

/// The detection in `text` for the patterns of `detector`.
pub fn detect_expansion(detector: &TriggerDetectionService, text: &String) -> (r: Option<ExpansionEvent>)
    ensures
        is_detection(r, text@, detector@),
{
    let ms = detector.find_triggers_in_text(text.as_str());
    let ghost t = text@;
    let ghost pats = detector@;
    let n = chars_of(text.as_str()).len();
    if ms.len() > 0 && ms[ms.len() - 1].end_position == n {
        let last: &TriggerMatch = &ms[ms.len() - 1];
        assert(is_trigger_match(t, pats, ms@[ms@.len() - 1]));
        let ev = ExpansionEvent {
            trigger: last.trigger.clone(),
            trigger_length: last.length(),
            buffer_text: text.clone(),
        };
        assert(trigger_ends_at(t, pats, last.start_position as int));
        Some(ev)
    } else {
        assert forall|s: int| !trigger_ends_at(t, pats, s) by {
            if trigger_ends_at(t, pats, s) {
                let k = choose|k: int| 0 <= k < ms@.len() && (#[trigger] ms@[k]).start_position == s;
                assert(is_trigger_match(t, pats, ms@[k]));
                let from = s + marker(pattern_of(t[s])).len();
                lemma_maximal_run_unique(t, from, t.len() as int, ms@[k].end_position as int);
                let l = ms@.len() - 1;
                if k < l {
                    assert(is_trigger_match(t, pats, ms@[l]));
                    assert(ms@[k].start_position < ms@[l].start_position);
                    lemma_no_start_inside(t, pats, s, t.len() as int, ms@[l].start_position as int);
                }
            }
        }
        None
    }
}

impl TextExpansionEngine {
    /// A stopped engine with `config`, or the default settings, an empty
    /// buffer and the `::` pattern.
    pub fn new(config: Option<ExpansionConfig>) -> (r: Self)
        ensures
            r@.wf(),
            r@.state == EngineState::Stopped,
            config is Some ==> r@.config == config->0,
            config is None ==> r@.config == default_config(),
            r@.buffer.content.len() == 0,
            r@.patterns == set![0usize],
            r@.modifiers == ModifierState::none(),
    {
        let config = match config {
            Some(c) => c,
            None => ExpansionConfig::default(),
        };
        TextExpansionEngine {
            state: EngineState::Stopped,
            config,
            buffer: TextBuffer::new(config.buffer_size),
            trigger_detection: TriggerDetectionService::new(),
            modifiers: ModifierState::default(),
        }
    }

    /// Begins starting: fails when the engine is already starting or running.
    /// The keyboard hook is to be installed next, and its outcome reported to
    /// [`Self::complete_start`].
    pub fn start(&mut self) -> (r: Result<(), EngineError>)
        ensures
            old(self)@.state == EngineState::Stopped ==> (r is Ok) && final(self)@ == old(self)@.with_state(EngineState::Starting),
            old(self)@.state != EngineState::Stopped ==> r == failed(EngineError::AlreadyRunning) && final(self)@
                == old(self)@,
    {
        if self.state != EngineState::Stopped {
            return Err(EngineError::AlreadyRunning);
        }
        self.state = EngineState::Starting;
        Ok(())
    }

    /// Takes the outcome of installing the keyboard hook: running if it was
    /// installed, stopped with `HookUnavailable` if not.
    pub fn complete_start(&mut self, hook_installed: bool) -> (r: Result<(), EngineError>)
        ensures
            old(self)@.state != EngineState::Starting ==> r == failed(EngineError::NotStarting)
                && final(self)@ == old(self)@,
            old(self)@.state == EngineState::Starting && hook_installed ==> (r is Ok) && final(self)@ == old(self)@.with_state(EngineState::Running),
            old(self)@.state == EngineState::Starting && !hook_installed ==> r == failed(
                EngineError::HookUnavailable,
            ) && final(self)@ == old(self)@.with_state(EngineState::Stopped),
    {
        if self.state != EngineState::Starting {
            return Err(EngineError::NotStarting);
        }
        if hook_installed {
            self.state = EngineState::Running;
            Ok(())
        } else {
            self.state = EngineState::Stopped;
            Err(EngineError::HookUnavailable)
        }
    }

    /// Stops the engine, from any state.
    pub fn stop(&mut self)
        ensures
            final(self)@ == old(self)@.with_state(EngineState::Stopped),
    {
        self.state = EngineState::Stopped;
    }

    pub fn is_running(&self) -> (r: bool)
        ensures
            r == (self@.state == EngineState::Running),
    {
        self.state == EngineState::Running
    }

    pub fn state(&self) -> (r: EngineState)
        ensures
            r == self@.state,
    {
        self.state
    }

    pub fn config(&self) -> (r: ExpansionConfig)
        ensures
            r == self@.config,
    {
        self.config
    }

    /// The buffer's text.
    pub fn buffer_text(&self) -> (r: String)
        ensures
            r@ == self@.buffer.content,
    {
        self.buffer.get_text()
    }

    /// Replaces the settings; a smaller buffer size drops the oldest
    /// characters at once.
    pub fn update_config(&mut self, config: ExpansionConfig)
        requires
            old(self)@.wf(),
        ensures
            final(self)@.wf(),
            final(self)@ == old(self)@.reconfigured(config),
    {
        self.config = config;
        self.buffer.set_max_size(config.buffer_size);
    }

    /// Enables the marker pattern `pattern_index`.
    pub fn enable_pattern(&mut self, pattern_index: usize)
        ensures
            pattern_index < PATTERN_COUNT ==> final(self)@ == old(self)@.with_patterns(
                old(self)@.patterns.insert(pattern_index),
            ),
            pattern_index >= PATTERN_COUNT ==> final(self)@ == old(self)@,
    {
        self.trigger_detection.enable_pattern(pattern_index);
    }

    /// Disables the marker pattern `pattern_index`.
    pub fn disable_pattern(&mut self, pattern_index: usize)
        ensures
            final(self)@ == old(self)@.with_patterns(old(self)@.patterns.remove(pattern_index)),
    {
        self.trigger_detection.disable_pattern(pattern_index);
    }

    /// Finishes a typed character that was just added to the buffer: a stale
    /// buffer (`expired`) is emptied; otherwise the buffer is searched for a
    /// trigger at its end.
    pub fn after_char(&mut self, expired: bool) -> (r: KeyOutcome)
        requires
            old(self)@.wf(),
        ensures
            final(self)@.wf(),
            expired ==> (r is Skip) && final(self)@ == old(self)@.with_buffer(
                old(self)@.buffer.cleared(),
            ),
            !expired ==> final(self)@ == old(self)@ && outcome_of_detection(
                r,
                old(self)@.buffer.content,
                old(self)@.patterns,
            ),
    {
        if expired {
            self.buffer.clear();
            return KeyOutcome::Skip;
        }
        let text = self.buffer.get_text();
        match detect_expansion(&self.trigger_detection, &text) {
            Some(ev) => KeyOutcome::Expand(ev),
            None => KeyOutcome::Updated,
        }
    }

    /// Handles one keyboard event: tracks modifiers, edits the buffer, and
    /// reports a trigger that now ends the buffer.
    pub fn on_key_event(&mut self, event: &KeyboardEvent) -> (r: KeyOutcome)
        requires
            old(self)@.wf(),
        ensures
            final(self)@.wf(),
            exists|expired: bool|
                final(self)@ == old(self)@.after_key(event.key@, event.event_type, expired)
                    && old(self)@.key_outcome(event.key@, event.event_type, expired, r),
    {
        if self.state != EngineState::Running {
            assert(old(self)@.key_outcome(event.key@, event.event_type, false, KeyOutcome::Stop));
            return KeyOutcome::Stop;
        }
        if !self.config.enabled {
            assert(old(self)@.key_outcome(event.key@, event.event_type, false, KeyOutcome::Skip));
            return KeyOutcome::Skip;
        }
        self.modifiers.apply(event.key.as_str(), event.event_type);
        if event.event_type != KeyboardEventType::KeyDown {
            assert(self@ == old(self)@.after_key(event.key@, event.event_type, false));
            return KeyOutcome::Skip;
        }
        match classify_key(event.key.as_str()) {
            KeyKind::Char(c) => {
                self.buffer.add_char(c);
                let expired = self.buffer.is_expired(self.config.trigger_timeout_ms);
                let r = self.after_char(expired);
                assert(self@ == old(self)@.after_key(event.key@, event.event_type, expired));
                r
            },
            KeyKind::Backspace => {
                self.buffer.remove_chars(1);
                assert(self@ == old(self)@.after_key(event.key@, event.event_type, false));
                KeyOutcome::Updated
            },
            KeyKind::Boundary => {
                self.buffer.clear();
                assert(self@ == old(self)@.after_key(event.key@, event.event_type, false));
                KeyOutcome::Updated
            },
            KeyKind::Other => {
                assert(self@ == old(self)@.after_key(event.key@, event.event_type, false));
                KeyOutcome::Skip
            },
        }
    }

    /// One step of the listener: handles `event` and hands a detection to the
    /// expansion task without waiting. A detection the channel cannot take is
    /// dropped and reported as the error.
    pub fn handle_keyboard_event(
        &mut self,
        event: &KeyboardEvent,
        sender: &Sender<ExpansionEvent>,
    ) -> (r: Result<KeyOutcome, EngineError>)
        requires
            old(self)@.wf(),
        ensures
            final(self)@.wf(),
            exists|expired: bool|
                #![trigger old(self)@.after_key(event.key@, event.event_type, expired)]
                final(self)@ == old(self)@.after_key(event.key@, event.event_type, expired) && match r {
                    Ok(o) => old(self)@.key_outcome(event.key@, event.event_type, expired, o),
                    Err(e) => (e == EngineError::ChannelSaturated || e == EngineError::ChannelClosed)
                        && exists|ev: ExpansionEvent|
                        old(self)@.key_outcome(
                            event.key@,
                            event.event_type,
                            expired,
                            KeyOutcome::Expand(ev),
                        ),
                },
    {
        let outcome = self.on_key_event(event);
        let ghost expired = choose|x: bool|
            self@ == old(self)@.after_key(event.key@, event.event_type, x) && old(
                self,
            )@.key_outcome(event.key@, event.event_type, x, outcome);
        assert(self@ == old(self)@.after_key(event.key@, event.event_type, expired));
        match outcome {
            KeyOutcome::Expand(ev) => {
                let ghost sent = ev;
                assert(old(self)@.key_outcome(event.key@, event.event_type, expired, KeyOutcome::Expand(sent)));
                let copy = ExpansionEvent {
                    trigger: ev.trigger.clone(),
                    trigger_length: ev.trigger_length,
                    buffer_text: ev.buffer_text.clone(),
                };
                assert(copy == sent);
                match try_send_event(sender, ev) {
                    Ok(()) => Ok(KeyOutcome::Expand(copy)),
                    Err(e) => Err(e),
                }
            },
            other => Ok(other),
        }
    }
}

/// The characters typed by the keys `:`, `:`, `h`, `i`.
pub open spec fn colon_colon_hi() -> Seq<char> {
    seq![':', ':', 'h', 'i']
}

/// A typed ASCII character that does not expire the buffer is appended to it.
proof fn lemma_typed_char(v: EngineView, c: char)
    requires
        v.wf(),
        v.state == EngineState::Running,
        v.config.enabled,
        (c as u32) < 128,
    ensures
        ({
            let w = v.after_key(seq![c], KeyboardEventType::KeyDown, false);
            &&& w.wf()
            &&& w.buffer == v.buffer.pushed(c)
            &&& w.state == v.state && w.config == v.config && w.patterns == v.patterns
        }),
{
    assert(key_kind(seq![c]) == KeyKind::Char(c));
}

/// Typing `::hi` into any buffer with room for four characters leaves those
/// four characters at its end.
proof fn lemma_ends_with_colon_colon_hi(b: BufferView)
    requires
        b.wf(),
        b.max_size >= 4,
    ensures
        ({
            let text = b.pushed(':').pushed(':').pushed('h').pushed('i').content;
            &&& text.len() >= 4
            &&& text.subrange(text.len() - 4, text.len() as int) == colon_colon_hi()
        }),
{
    let q = colon_colon_hi();
    assert(q.drop_first() =~= seq![':', 'h', 'i']);
    assert(q.drop_first().drop_first() =~= seq!['h', 'i']);
    assert(q.drop_first().drop_first().drop_first() =~= seq!['i']);
    assert(seq!['i'].drop_first() =~= Seq::<char>::empty());
    assert(b.pushed_all(q) == b.pushed(':').pushed(':').pushed('h').pushed('i')) by {
        reveal_with_fuel(BufferView::pushed_all, 5);
    }
    crate::buffer::lemma_push_keeps_most_recent(b, q);
    let text = b.pushed_all(q).content;
    let n = b.max_size;
    let u = b.content + q;
    let l = text.len() as int;
    assert(text.subrange(l - 4, l) =~= q) by {
        if u.len() > n {
            assert(text =~= u.subrange(u.len() - n, u.len() as int));
        }
        assert forall|j: int| 0 <= j < 4 implies #[trigger] text.subrange(l - 4, l)[j] == q[j] by {
            assert(u[u.len() - 4 + j] == q[j]);
            if u.len() > n {
                assert(text[l - 4 + j] == u[u.len() - n + (l - 4 + j)]);
            }
        }
    }
}

/// A text that ends with `::hi` has exactly one trigger at its end, the
/// last four characters, when the `::` pattern is enabled.
proof fn lemma_colon_colon_hi_detected(text: Seq<char>, pats: Set<usize>)
    requires
        text.len() >= 4,
        text.subrange(text.len() - 4, text.len() as int) == colon_colon_hi(),
        pats.contains(0usize),
    ensures
        forall|s: int| trigger_ends_at(text, pats, s) <==> s == text.len() - 4,
{
    let l = text.len() as int;
    assert(text[l - 4] == ':' && text[l - 3] == ':' && text[l - 2] == 'h' && text[l - 1] == 'i') by {
        assert(text.subrange(l - 4, l)[0] == text[l - 4]);
        assert(text.subrange(l - 4, l)[1] == text[l - 3]);
        assert(text.subrange(l - 4, l)[2] == text[l - 2]);
        assert(text.subrange(l - 4, l)[3] == text[l - 1]);
    }
    assert(text.subrange(l - 4, l - 2) =~= marker(0));
    assert(starts_trigger(text, pats, l - 4));
    assert(maximal_run(text, l - 2, l));
    assert forall|s: int| trigger_ends_at(text, pats, s) implies s == l - 4 by {
        lemma_detection_unique(text, pats, s, l - 4);
    }
}

/// After a word boundary, or a character that cannot stand in a trigger,
/// typing `::hi` (with the `::` pattern enabled, room for four characters,
/// and no expiry between the keys) ends the buffer with exactly the trigger
/// `::hi`, and the last key reports it for expansion with four characters to
/// delete: nothing typed before the boundary leaks into the match.
pub proof fn lemma_fresh_trigger_after_boundary(v: EngineView, k: Seq<char>)
    requires
        v.wf(),
        v.state == EngineState::Running,
        v.config.enabled,
        v.buffer.max_size >= 4,
        v.patterns.contains(0usize),
        (key_kind(k) is Boundary) || ((key_kind(k) is Char) && !trigger_char(key_kind(k)->0)),
    ensures
        ({
            let d = KeyboardEventType::KeyDown;
            let v4 = v.after_key(k, d, false).after_key(seq![':'], d, false).after_key(
                seq![':'],
                d,
                false,
            ).after_key(seq!['h'], d, false);
            let text = v4.buffer.pushed('i').content;
            &&& text.len() >= 4
            &&& text.subrange(text.len() - 4, text.len() as int) == colon_colon_hi()
            &&& forall|s: int| trigger_ends_at(text, v.patterns, s) <==> s == text.len() - 4
            &&& forall|r: KeyOutcome|
                #[trigger] v4.key_outcome(seq!['i'], d, false, r) ==> (r is Expand) && r->0.trigger@
                    == colon_colon_hi() && r->0.trigger_length == 4
        }),
{
    let d = KeyboardEventType::KeyDown;
    let v1 = v.after_key(k, d, false);
    let v2 = v1.after_key(seq![':'], d, false);
    let v3 = v2.after_key(seq![':'], d, false);
    let v4 = v3.after_key(seq!['h'], d, false);
    lemma_typed_char(v1, ':');
    lemma_typed_char(v2, ':');
    lemma_typed_char(v3, 'h');
    lemma_typed_char(v4, 'i');
    lemma_ends_with_colon_colon_hi(v1.buffer);
    let text = v4.buffer.pushed('i').content;
    let pats = v.patterns;
    lemma_colon_colon_hi_detected(text, pats);
    let l = text.len() as int;
    assert forall|r: KeyOutcome| #[trigger] v4.key_outcome(seq!['i'], d, false, r) implies (r is Expand)
        && r->0.trigger@ == colon_colon_hi() && r->0.trigger_length == 4 by {
        assert(key_kind(seq!['i']) == KeyKind::Char('i'));
        assert(v4.state == EngineState::Running && v4.config.enabled && v4.patterns == pats);
        assert(outcome_of_detection(r, text, pats));
        assert(trigger_ends_at(text, pats, l - 4));
        assert(r is Expand);
        let ev = r->0;
        assert(is_detection(Some(ev), text, pats));
        let s = choose|s: int|
            #![trigger trigger_ends_at(text, pats, s)]
            trigger_ends_at(text, pats, s) && ev.trigger@ == text.subrange(s, text.len() as int)
                && ev.trigger_length == text.len() - s && ev.buffer_text@ == text;
    }
}

/// The request to send to the snippet service for `event`: its trigger, with
/// the buffer's text as context.
pub fn expansion_request(event: &ExpansionEvent) -> (r: ExpansionRequest)
    ensures
        r.trigger@ == event.trigger@,
        r.context is Some,
        r.context->0@ == event.buffer_text@,
{
    ExpansionRequest { trigger: event.trigger.clone(), context: Some(event.buffer_text.clone()) }
}

/// What to do with the service's answer for `event`: replace the trigger
/// when the service expanded it, otherwise leave the text alone.
pub fn plan_expansion(event: &ExpansionEvent, response: &ExpansionResponse) -> (r: ExpansionAction)
    ensures
        (response.success && response.expanded_text is Some) ==> (r is Replace),
        (response.success && response.expanded_text is Some) ==> r->backspaces
            == event.trigger_length && r->text@ == response.expanded_text->0@,
        !(response.success && response.expanded_text is Some) ==> (r is Skip),
{
    if response.success {
        match &response.expanded_text {
            Some(t) => ExpansionAction::Replace { backspaces: event.trigger_length, text: t.clone() },
            None => ExpansionAction::Skip,
        }
    } else {
        ExpansionAction::Skip
    }
}

} // verus!
