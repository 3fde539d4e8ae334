//! Selection state and key handling: which preset, which string, how far
//! transposed, and whether automatic string detection drives the choice.

use vstd::prelude::*;

use crate::config::TRANSPOSE_LIMIT;
use crate::notes::{
    display_name_of, string_freq, string_label, tuning, tuning_prefix, tuning_root,
    GuitarString, N_STRINGS, N_TUNINGS,
};

verus! {

/// Whether a key was pressed, held (repeat) or released.
#[derive(Clone, Copy, PartialEq, Eq, Structural)]
pub enum KeyKind {
    Press,
    Repeat,
    Release,
}

/// The keys the tuner distinguishes.
#[derive(Clone, Copy, PartialEq, Eq, Structural)]
pub enum KeyCode {
    Char(char),
    Esc,
    Other,
}

/// One keyboard event.
#[derive(Clone, Copy, PartialEq, Eq, Structural)]
pub struct KeyEvent {
    pub code: KeyCode,
    pub kind: KeyKind,
}

/// What the caller must redo after the selection changed.
#[derive(Clone, Copy, PartialEq, Eq, Structural)]
pub struct Effect {
    /// Push the active reference into the wheel and the conditioning filter.
    pub retune: bool,
    /// Re-center the detector on the candidate frequencies of the tuning.
    pub refresh_detector: bool,
}

/// The selection as mathematical values.
pub struct AppView {
    pub tuning: int,
    pub string: int,
    pub transpose: int,
    pub auto: bool,
    pub quit: bool,
}

/// Every selection the tuner can be in.
pub open spec fn wf(s: AppView) -> bool {
    &&& 0 <= s.tuning < N_TUNINGS
    &&& 0 <= s.string < N_STRINGS
    &&& -TRANSPOSE_LIMIT <= s.transpose <= TRANSPOSE_LIMIT
}

pub open spec fn no_effect() -> Effect {
    Effect { retune: false, refresh_detector: false }
}

pub open spec fn retune_only() -> Effect {
    Effect { retune: true, refresh_detector: false }
}

pub open spec fn retune_all() -> Effect {
    Effect { retune: true, refresh_detector: true }
}

/// The selection after `key`, and what has to be redone.
pub open spec fn key_step(s: AppView, key: KeyEvent) -> (AppView, Effect) {
    if key.kind != KeyKind::Press {
        (s, no_effect())
    } else {
        match key.code {
            KeyCode::Esc => (AppView { quit: true, ..s }, no_effect()),
            KeyCode::Other => (s, no_effect()),
            KeyCode::Char(c) => {
                if c == 'q' {
                    (AppView { quit: true, ..s }, no_effect())
                } else if '1' <= c <= '6' {
                    (AppView { auto: false, string: c as int - '1' as int, ..s }, retune_only())
                } else if c == 'a' {
                    (AppView { auto: !s.auto, ..s }, no_effect())
                } else if c == '0' {
                    (AppView { transpose: 0, ..s }, retune_all())
                } else if c == 't' {
                    (AppView { tuning: (s.tuning + 1) % 3, ..s }, retune_all())
                } else if c == 'T' {
                    (AppView { tuning: (s.tuning + 3 - 1) % 3, ..s }, retune_all())
                } else if c == '[' {
                    (
                        AppView {
                            transpose: if s.transpose - 1 < -TRANSPOSE_LIMIT {
                                -TRANSPOSE_LIMIT as int
                            } else {
                                s.transpose - 1
                            },
                            ..s
                        },
                        retune_all(),
                    )
                } else if c == ']' {
                    (
                        AppView {
                            transpose: if s.transpose + 1 > TRANSPOSE_LIMIT {
                                TRANSPOSE_LIMIT as int
                            } else {
                                s.transpose + 1
                            },
                            ..s
                        },
                        retune_all(),
                    )
                } else {
                    (s, no_effect())
                }
            },
        }
    }
}

/// The selection after the detector reported `detected`, and whether the
/// reference has to be retuned.
pub open spec fn detect_step(s: AppView, detected: Option<usize>) -> (AppView, bool) {
    match detected {
        Some(i) => if s.auto && i != s.string {
            (AppView { string: i as int, ..s }, true)
        } else {
            (s, false)
        },
        None => (s, false),
    }
}

/// A press of the character key `c`.
pub open spec fn press(c: char) -> KeyEvent {
    KeyEvent { code: KeyCode::Char(c), kind: KeyKind::Press }
}

/// Every key keeps the selection one the tuner can be in.
pub proof fn lemma_key_step_wf(s: AppView, key: KeyEvent)
    requires
        wf(s),
    ensures
        wf(key_step(s, key).0),
{
}

/// Only presses act: a repeat or release leaves everything unchanged.
pub proof fn lemma_only_presses_act(s: AppView, key: KeyEvent)
    requires
        key.kind != KeyKind::Press,
    ensures
        key_step(s, key) == (s, no_effect()),
{
}

/// Next tuning and previous tuning undo each other.
pub proof fn lemma_next_prev_tuning(s: AppView)
    requires
        wf(s),
    ensures
        key_step(key_step(s, press('t')).0, press('T')).0 == s,
        key_step(key_step(s, press('T')).0, press('t')).0 == s,
{
}

/// Cycling forward through all presets returns to the first.
pub proof fn lemma_tuning_cycle(s: AppView)
    requires
        wf(s),
    ensures
        key_step(key_step(key_step(s, press('t')).0, press('t')).0, press('t')).0 == s,
{
}

/// Transposing up and back down (or down and back up) restores the
/// selection unless the first step hit the limit.
pub proof fn lemma_transpose_up_down(s: AppView)
    requires
        wf(s),
    ensures
        s.transpose < TRANSPOSE_LIMIT ==> key_step(key_step(s, press(']')).0, press('[')).0 == s,
        s.transpose > -TRANSPOSE_LIMIT ==> key_step(key_step(s, press('[')).0, press(']')).0 == s,
{
}

/// Transposition saturates at the limits.
pub proof fn lemma_transpose_saturates(s: AppView)
    requires
        wf(s),
    ensures
        s.transpose == TRANSPOSE_LIMIT ==> key_step(s, press(']')).0 == s,
        s.transpose == -TRANSPOSE_LIMIT ==> key_step(s, press('[')).0 == s,
{
}

/// Reset always brings the transpose back to zero, and nothing else moves.
pub proof fn lemma_reset_transpose(s: AppView)
    ensures
        key_step(s, press('0')).0 == (AppView { transpose: 0, ..s }),
{
}

/// Toggling auto detection twice restores it.
pub proof fn lemma_auto_toggle_twice(s: AppView)
    ensures
        key_step(key_step(s, press('a')).0, press('a')).0 == s,
{
}

/// A manual string choice selects that string and leaves auto mode.
pub proof fn lemma_manual_string(s: AppView, c: char)
    requires
        '1' <= c <= '6',
    ensures
        key_step(s, press(c)).0.string == c as int - '1' as int,
        !key_step(s, press(c)).0.auto,
{
}

/// Whenever a key changes the active reference (tuning, string or
/// transpose), the wheel and filter are retuned; whenever it changes the
/// candidate set (tuning or transpose), the detector is refreshed too.
pub proof fn lemma_changes_are_announced(s: AppView, key: KeyEvent)
    requires
        wf(s),
    ensures
        ({
            let (t, e) = key_step(s, key);
            &&& (t.tuning != s.tuning || t.string != s.string || t.transpose != s.transpose)
                ==> e.retune
            &&& (t.tuning != s.tuning || t.transpose != s.transpose) ==> e.refresh_detector
        }),
{
}

/// Detection never overrides a manual choice, only ever changes the string,
/// and reports every change.
pub proof fn lemma_detection_respects_manual(s: AppView, detected: Option<usize>)
    ensures
        !s.auto ==> detect_step(s, detected) == (s, false),
        ({
            let (t, r) = detect_step(s, detected);
            &&& t.tuning == s.tuning && t.transpose == s.transpose && t.auto == s.auto
            &&& r <==> t.string != s.string
        }),
{
}

/// Which keys move which part of the selection: only a press of 'q' or Esc
/// quits (and changes nothing else); only 'a' or a string digit changes auto
/// mode; only a digit changes the string; only 't' / 'T' change the preset;
/// only '0', '[' and ']' change the transpose.
pub proof fn lemma_keys_touch_only_their_field(s: AppView, key: KeyEvent)
    ensures
        ({
            let t = key_step(s, key).0;
            let pressed = key.kind == KeyKind::Press;
            &&& t.quit != s.quit ==> pressed && (key.code == KeyCode::Esc || key.code == KeyCode::Char('q'))
            &&& pressed && (key.code == KeyCode::Esc || key.code == KeyCode::Char('q'))
                ==> t == (AppView { quit: true, ..s })
            &&& t.auto != s.auto ==> (key.code matches KeyCode::Char(c) && pressed && (c == 'a' || ('1' <= c && c <= '6')))
            &&& pressed && key.code == KeyCode::Char('a') ==> t == (AppView { auto: !s.auto, ..s })
            &&& t.string != s.string ==> (key.code matches KeyCode::Char(c) && pressed && '1' <= c && c <= '6')
            &&& t.tuning != s.tuning ==> pressed && (key.code == KeyCode::Char('t') || key.code == KeyCode::Char('T'))
            &&& t.transpose != s.transpose ==> pressed && (key.code == KeyCode::Char('0')
                || key.code == KeyCode::Char('[') || key.code == KeyCode::Char(']'))
        }),
{
}

/// Each tuning and transpose key moves its field by the stated amount and
/// leaves everything else: 't' and 'T' step the preset forward and back
/// around the three, '[' and ']' step the transpose by one within the limit.
pub proof fn lemma_tuning_and_transpose_steps(s: AppView)
    requires
        wf(s),
    ensures
        key_step(s, press('t')).0 == (AppView { tuning: if s.tuning == 2 { 0 } else { s.tuning + 1 }, ..s }),
        key_step(s, press('T')).0 == (AppView { tuning: if s.tuning == 0 { 2 } else { s.tuning - 1 }, ..s }),
        key_step(s, press(']')).0 == (AppView {
            transpose: if s.transpose == TRANSPOSE_LIMIT { s.transpose } else { s.transpose + 1 },
            ..s
        }),
        key_step(s, press('[')).0 == (AppView {
            transpose: if s.transpose == -TRANSPOSE_LIMIT { s.transpose } else { s.transpose - 1 },
            ..s
        }),
        key_step(s, press('t')).1.retune && key_step(s, press('t')).1.refresh_detector,
        key_step(s, press('T')).1.retune && key_step(s, press('T')).1.refresh_detector,
{
}

/// In auto mode a detected string becomes the selection, with a retune
/// exactly when it differs from the current one; out of auto mode, or with
/// nothing detected, nothing changes.
pub proof fn lemma_detection_selects(s: AppView, detected: Option<usize>)
    ensures
        forall|i: usize|
            s.auto && detected == Some(i) ==> #[trigger] detect_step(s, Some(i)).0 == (AppView {
                string: i as int,
                ..s
            }) && detect_step(s, Some(i)).1 == (i != s.string),
        !s.auto || detected is None ==> detect_step(s, detected) == (s, false),
{
}

/// The selection state of the tuner.
pub struct App {
    tuning_idx: usize,
    string_idx: usize,
    transpose: i32,
    auto: bool,
    should_quit: bool,
}

impl View for App {
    type V = AppView;

    closed spec fn view(&self) -> AppView {
        AppView {
            tuning: self.tuning_idx as int,
            string: self.string_idx as int,
            transpose: self.transpose as int,
            auto: self.auto,
            quit: self.should_quit,
        }
    }
}

impl App {
    #[verifier::type_invariant]
    spec fn inv(self) -> bool {
        wf(self@)
    }

    /// Standard tuning, string 1, no transpose, auto detection on.
    pub fn new() -> (app: App)
        ensures
            app@ == (AppView { tuning: 0, string: 0, transpose: 0, auto: true, quit: false }),
    {
        App { tuning_idx: 0, string_idx: 0, transpose: 0, auto: true, should_quit: false }
    }

    /// Index of the selected preset.
    pub fn tuning_idx(&self) -> (t: usize)
        ensures
            t == self@.tuning,
            t < N_TUNINGS,
    {
        proof { use_type_invariant(self); }
        self.tuning_idx
    }

    /// Selected string, 0-based (the UI shows it as 1..=6).
    pub fn string_idx(&self) -> (s: usize)
        ensures
            s == self@.string,
            s < N_STRINGS,
    {
        proof { use_type_invariant(self); }
        self.string_idx
    }

    /// Transpose in semitones.
    pub fn transpose(&self) -> (t: i32)
        ensures
            t == self@.transpose,
            -TRANSPOSE_LIMIT <= t <= TRANSPOSE_LIMIT,
    {
        proof { use_type_invariant(self); }
        self.transpose
    }

    /// Whether automatic string detection is driving the selection.
    pub fn auto(&self) -> (a: bool)
        ensures
            a == self@.auto,
    {
        self.auto
    }

    /// Whether the user asked to quit.
    pub fn should_quit(&self) -> (q: bool)
        ensures
            q == self@.quit,
    {
        self.should_quit
    }

    /// The currently selected open string before transpose.
    pub fn current_string(&self) -> (s: GuitarString)
        ensures
            s.label@ == string_label(self@.tuning, self@.string),
            s.freq_units == string_freq(self@.tuning, self@.string),
    {
        proof { use_type_invariant(self); }
        let t = tuning(self.tuning_idx);
        let s = t.strings[self.string_idx];
        assert(s == t.strings[self.string_idx as int]);
        s
    }

    /// Displayed tuning name, e.g. "Standard E♭".
    pub fn tuning_name(&self) -> (name: String)
        ensures
            name@ == display_name_of(
                tuning_prefix(self@.tuning),
                tuning_root(self@.tuning),
                self@.transpose,
            ),
    {
        proof { use_type_invariant(self); }
        let t = tuning(self.tuning_idx);
        t.display_name(self.transpose)
    }

    /// Apply one key event; the result says what the caller must redo.
    pub fn on_key(&mut self, key: KeyEvent) -> (effect: Effect)
        ensures
            (final(self)@, effect) == key_step(old(self)@, key),
            final(self)@.quit != old(self)@.quit ==> key.kind == KeyKind::Press && (key.code
                == KeyCode::Esc || key.code == KeyCode::Char('q')),
            final(self)@.tuning != old(self)@.tuning || final(self)@.string != old(self)@.string
                || final(self)@.transpose != old(self)@.transpose ==> effect.retune,
    {
        proof {
            use_type_invariant(&*self);
            lemma_keys_touch_only_their_field(self@, key);
            lemma_changes_are_announced(self@, key);
        }
        match key.kind {
            KeyKind::Press => {},
            _ => {
                return Effect { retune: false, refresh_detector: false };
            },
        }
        let none = Effect { retune: false, refresh_detector: false };
        let all = Effect { retune: true, refresh_detector: true };
        match key.code {
            KeyCode::Esc => {
                self.should_quit = true;
                none
            },
            KeyCode::Other => none,
            KeyCode::Char(c) => {
                if c == 'q' {
                    self.should_quit = true;
                    none
                } else if '1' <= c && c <= '6' {
                    self.auto = false;
                    self.string_idx = (c as u32 - '1' as u32) as usize;
                    Effect { retune: true, refresh_detector: false }
                } else if c == 'a' {
                    self.auto = !self.auto;
                    none
                } else if c == '0' {
                    self.transpose = 0;
                    all
                } else if c == 't' {
                    self.tuning_idx = (self.tuning_idx + 1) % N_TUNINGS;
                    all
                } else if c == 'T' {
                    self.tuning_idx = (self.tuning_idx + N_TUNINGS - 1) % N_TUNINGS;
                    all
                } else if c == '[' {
                    self.transpose = if self.transpose - 1 < -TRANSPOSE_LIMIT {
                        -TRANSPOSE_LIMIT
                    } else {
                        self.transpose - 1
                    };
                    all
                } else if c == ']' {
                    self.transpose = if self.transpose + 1 > TRANSPOSE_LIMIT {
                        TRANSPOSE_LIMIT
                    } else {
                        self.transpose + 1
                    };
                    all
                } else {
                    none
                }
            },
        }
    }

    /// Let the detector pick the string while auto mode is on. Returns whether
    /// the selection changed, in which case the reference must be retuned.
    pub fn update(&mut self, detected: Option<usize>) -> (retune: bool)
        requires
            detected matches Some(i) ==> i < N_STRINGS,
        ensures
            (final(self)@, retune) == detect_step(old(self)@, detected),
            forall|i: usize|
                old(self)@.auto && detected == Some(i) ==> final(self)@.string == i && retune == (i
                    != old(self)@.string),
            !old(self)@.auto || detected is None ==> final(self)@ == old(self)@ && !retune,
    {
        proof { use_type_invariant(&*self); }
        if self.auto {
            if let Some(idx) = detected {
                if idx != self.string_idx {
                    self.string_idx = idx;
                    return true;
                }
            }
        }
        false
    }
}

} // verus!
