//! Note names, tuning presets, and transposition of pitch classes.
//!
//! Preset frequencies are kept as exact integers in units of 1/10000 Hz, the
//! precision to which the presets are written.

use vstd::prelude::*;

verus! {

/// Units of a preset frequency per hertz.
pub const FREQ_UNITS_PER_HZ: u32 = 10_000;

/// Number of tuning presets.
pub const N_TUNINGS: usize = 3;

/// Number of strings in each preset.
pub const N_STRINGS: usize = 6;

/// The name of a pitch class (0 = C), spelled with flats.
pub open spec fn flat_name(pc: int) -> Seq<char> {
    if pc == 0 { "C"@ }
    else if pc == 1 { "D♭"@ }
    else if pc == 2 { "D"@ }
    else if pc == 3 { "E♭"@ }
    else if pc == 4 { "E"@ }
    else if pc == 5 { "F"@ }
    else if pc == 6 { "G♭"@ }
    else if pc == 7 { "G"@ }
    else if pc == 8 { "A♭"@ }
    else if pc == 9 { "A"@ }
    else if pc == 10 { "B♭"@ }
    else { "B"@ }
}

/// The pitch class reached from `root_pc` by `semitones` steps, in 0..12.
pub open spec fn pitch_class(root_pc: int, semitones: int) -> int {
    (root_pc + semitones) % 12
}

/// Transposition lands on one of the twelve pitch classes.
pub proof fn lemma_pitch_class_range(root_pc: int, semitones: int)
    ensures
        0 <= pitch_class(root_pc, semitones) < 12,
{
}

/// Transposing by a whole octave names the same pitch class.
pub proof fn lemma_octave_same_name(root_pc: int, semitones: int)
    ensures
        pitch_class(root_pc, semitones + 12) == pitch_class(root_pc, semitones),
        pitch_class(root_pc, semitones - 12) == pitch_class(root_pc, semitones),
{
    assert((root_pc + semitones + 12) % 12 == (root_pc + semitones) % 12) by (nonlinear_arith);
    assert((root_pc + semitones - 12) % 12 == (root_pc + semitones) % 12) by (nonlinear_arith);
}

/// No transpose keeps a pitch class, and each semitone up moves to the next
/// of the twelve, wrapping from B to C.
pub proof fn lemma_semitone_steps(root_pc: int, semitones: int)
    ensures
        0 <= root_pc < 12 ==> pitch_class(root_pc, 0) == root_pc,
        pitch_class(root_pc, semitones + 1) == if pitch_class(root_pc, semitones) == 11 {
            0
        } else {
            pitch_class(root_pc, semitones) + 1
        },
{
    assert((root_pc + semitones + 1) % 12 == if (root_pc + semitones) % 12 == 11 {
        0
    } else {
        (root_pc + semitones) % 12 + 1
    }) by (nonlinear_arith);
}

/// Transposing in two steps names the same pitch class as transposing by
/// their sum.
pub proof fn lemma_transpose_composes(root_pc: int, a: int, b: int)
    ensures
        pitch_class(pitch_class(root_pc, a), b) == pitch_class(root_pc, a + b),
{
    vstd::arithmetic::div_mod::lemma_add_mod_noop_right(b, root_pc + a, 12);
}

/// Name of a pitch class given by its index in 0..12.
fn flat_name_of(pc: i32) -> (name: &'static str)
    requires
        0 <= pc < 12,
    ensures
        name@ == flat_name(pc as int),
{
    if pc == 0 { "C" }
    else if pc == 1 { "D♭" }
    else if pc == 2 { "D" }
    else if pc == 3 { "E♭" }
    else if pc == 4 { "E" }
    else if pc == 5 { "F" }
    else if pc == 6 { "G♭" }
    else if pc == 7 { "G" }
    else if pc == 8 { "A♭" }
    else if pc == 9 { "A" }
    else if pc == 10 { "B♭" }
    else { "B" }
}

/// Name of a pitch class shifted by a number of semitones.
pub fn transposed_pitch_class(root_pc: i32, semitones: i32) -> (name: &'static str)
    requires
        i32::MIN <= root_pc + semitones <= i32::MAX,
    ensures
        name@ == flat_name(pitch_class(root_pc as int, semitones as int)),
{
    let sum: i32 = root_pc + semitones;
    let pc: i32 = match sum.checked_rem_euclid(12) {
        Some(r) => r,
        None => 0,
    };
    flat_name_of(pc)
}


/// One open string within a tuning preset.
#[derive(Clone, Copy)]
pub struct GuitarString {
    /// Display label including octave, e.g. "E2".
    pub label: &'static str,
    /// Base frequency before transpose, in units of 1/10000 Hz.
    pub freq_units: u32,
}

/// A tuning preset.
#[derive(Clone, Copy)]
pub struct Tuning {
    /// Stable identifier, e.g. "standard".
    pub id: &'static str,
    /// Name prefix; the transposed root note is appended to form the label.
    pub prefix: &'static str,
    /// Root/key pitch class (0 = C).
    pub root_pc: i32,
    /// The six open strings. Index 0 is string "1" in the UI.
    pub strings: [GuitarString; 6],
}

/// Identifier of preset `t`.
pub open spec fn tuning_id(t: int) -> Seq<char> {
    if t == 0 { "standard"@ } else if t == 1 { "drop_d"@ } else { "open_g"@ }
}

/// Name prefix of preset `t`.
pub open spec fn tuning_prefix(t: int) -> Seq<char> {
    if t == 0 { "Standard"@ } else if t == 1 { "Drop"@ } else { "Open"@ }
}

/// Root pitch class of preset `t`: E, D and G.
pub open spec fn tuning_root(t: int) -> int {
    if t == 0 { 4 } else if t == 1 { 2 } else { 7 }
}

/// Label of string `s` in preset `t`.
pub open spec fn string_label(t: int, s: int) -> Seq<char> {
    if s == 0 { if t == 0 { "E2"@ } else { "D2"@ } }
    else if s == 1 { if t == 2 { "G2"@ } else { "A2"@ } }
    else if s == 2 { "D3"@ }
    else if s == 3 { "G3"@ }
    else if s == 4 { "B3"@ }
    else { if t == 2 { "D4"@ } else { "E4"@ } }
}

/// Base frequency of string `s` in preset `t`, in units of 1/10000 Hz.
pub open spec fn string_freq(t: int, s: int) -> int {
    if s == 0 { if t == 0 { 824069 } else { 734162 } }
    else if s == 1 { if t == 2 { 979989 } else { 1100000 } }
    else if s == 2 { 1468324 }
    else if s == 3 { 1959977 }
    else if s == 4 { 2469417 }
    else { if t == 2 { 2936648 } else { 3296276 } }
}

/// `tuning` is preset number `t` of the table.
pub open spec fn is_preset(tuning: Tuning, t: int) -> bool {
    &&& tuning.id@ == tuning_id(t)
    &&& tuning.prefix@ == tuning_prefix(t)
    &&& tuning.root_pc == tuning_root(t)
    &&& forall|s: int|
        0 <= s < 6 ==> {
            &&& (#[trigger] tuning.strings[s]).label@ == string_label(t, s)
            &&& tuning.strings[s].freq_units == string_freq(t, s)
        }
}

/// The displayed name of a preset with root `root_pc`, transposed.
pub open spec fn display_name_of(prefix: Seq<char>, root_pc: int, transpose: int) -> Seq<char> {
    prefix + " "@ + flat_name(pitch_class(root_pc, transpose))
}

impl Tuning {
    /// Displayed tuning name for a given transpose, e.g. "Standard E♭".
    pub fn display_name(&self, transpose: i32) -> (name: String)
        requires
            i32::MIN <= self.root_pc + transpose <= i32::MAX,
        ensures
            name@ == display_name_of(self.prefix@, self.root_pc as int, transpose as int),
    {
        let mut name = String::from_str(self.prefix);
        name.append(" ");
        name.append(transposed_pitch_class(self.root_pc, transpose));
        name
    }
}

/// Preset number `idx` of the table, in cycle order: Standard, Drop D, Open G.
pub fn tuning(idx: usize) -> (t: Tuning)
    requires
        idx < N_TUNINGS,
    ensures
        is_preset(t, idx as int),
{
    let t = if idx == 0 {
        Tuning {
            id: "standard",
            prefix: "Standard",
            root_pc: 4,
            strings: [
                GuitarString { label: "E2", freq_units: 824069 },
                GuitarString { label: "A2", freq_units: 1100000 },
                GuitarString { label: "D3", freq_units: 1468324 },
                GuitarString { label: "G3", freq_units: 1959977 },
                GuitarString { label: "B3", freq_units: 2469417 },
                GuitarString { label: "E4", freq_units: 3296276 },
            ],
        }
    } else if idx == 1 {
        Tuning {
            id: "drop_d",
            prefix: "Drop",
            root_pc: 2,
            strings: [
                GuitarString { label: "D2", freq_units: 734162 },
                GuitarString { label: "A2", freq_units: 1100000 },
                GuitarString { label: "D3", freq_units: 1468324 },
                GuitarString { label: "G3", freq_units: 1959977 },
                GuitarString { label: "B3", freq_units: 2469417 },
                GuitarString { label: "E4", freq_units: 3296276 },
            ],
        }
    } else {
        Tuning {
            id: "open_g",
            prefix: "Open",
            root_pc: 7,
            strings: [
                GuitarString { label: "D2", freq_units: 734162 },
                GuitarString { label: "G2", freq_units: 979989 },
                GuitarString { label: "D3", freq_units: 1468324 },
                GuitarString { label: "G3", freq_units: 1959977 },
                GuitarString { label: "B3", freq_units: 2469417 },
                GuitarString { label: "D4", freq_units: 2936648 },
            ],
        }
    };
    assert(forall|s: int| 0 <= s < 6 ==> t.strings[s] == t.strings@[s]);
    t
}

} // verus!
