//! The decision half of automatic string detection: the window of recent
//! samples, the search for the first dip of the YIN difference function, and
//! the hysteresis that commits a detected string only once it has held.
//!
//! What the signal is (levels, the difference function, the nearest string)
//! is measured by the caller; this module decides what to do with it.

use vstd::prelude::*;

use crate::config::{DETECT_HOLD_FRAMES, DETECT_SWITCH_FRAMES};

verus! {

/// The last `cap` elements of `s`, or all of `s` if it is shorter.
pub open spec fn recent<T>(s: Seq<T>, cap: int) -> Seq<T> {
    if s.len() <= cap {
        s
    } else {
        s.subrange(s.len() - cap, s.len() as int)
    }
}

/// Append `samples` to `buffer` and drop the oldest elements beyond `cap`.
pub fn keep_recent<T: Copy>(buffer: &mut Vec<T>, samples: &[T], cap: usize)
    requires
        old(buffer).len() + samples.len() <= usize::MAX,
    ensures
        final(buffer)@ == recent(old(buffer)@ + samples@, cap as int),
        final(buffer)@.len() == if old(buffer).len() + samples.len() <= cap {
            old(buffer).len() + samples.len()
        } else {
            cap as int
        },
        forall|i: int|
            0 <= i < final(buffer)@.len() ==> #[trigger] final(buffer)@[i] == (old(buffer)@
                + samples@)[old(buffer).len() + samples.len() - final(buffer)@.len() + i],
        samples.len() > 0 && cap > 0 ==> final(buffer)@.last() == samples@.last(),
{
    proof {
        lemma_recent_is_newest(old(buffer)@ + samples@, cap as int);
    }
    let ghost all = buffer@ + samples@;
    let old_len = buffer.len();
    let total = old_len + samples.len();
    let skip = if total > cap { total - cap } else { 0 };
    let mut out: Vec<T> = Vec::new();
    let mut i = skip;
    while i < total
        invariant
            all == old(buffer)@ + samples@,
            buffer@ == old(buffer)@,
            old_len == buffer.len(),
            total == all.len(),
            skip <= i <= total,
            out@ == all.subrange(skip as int, i as int),
        decreases total - i,
    {
        let x: T = if i < old_len { buffer[i] } else { samples[i - old_len] };
        out.push(x);
        i += 1;
    }
    assert(out@ == recent(all, cap as int));
    *buffer = out;
}

/// The first index in `lo..=hi` at which `below` holds.
pub open spec fn first_below(below: Seq<bool>, lo: int, hi: int) -> Option<int>
    decreases hi - lo + 1,
{
    if lo > hi {
        None
    } else if below[lo] {
        Some(lo)
    } else {
        first_below(below, lo + 1, hi)
    }
}

/// From `t`, follow the curve down while it keeps falling, stopping at `hi`.
pub open spec fn descend(falling: Seq<bool>, t: int, hi: int) -> int
    decreases hi - t,
{
    if t < hi && falling[t] {
        descend(falling, t + 1, hi)
    } else {
        t
    }
}

/// The lag picked by the YIN absolute threshold: the first lag in
/// `max(tau_min, 1)..=tau_max` whose normalized difference is below the
/// threshold, descended to the bottom of its dip.
pub open spec fn dip_lag(below: Seq<bool>, falling: Seq<bool>, tau_min: int, tau_max: int) -> Option<int> {
    let lo = if tau_min < 1 { 1 } else { tau_min };
    match first_below(below, lo, tau_max) {
        Some(t) => Some(descend(falling, t, tau_max)),
        None => None,
    }
}

/// Search for the period dip. `below[tau]` says whether the normalized
/// difference at lag `tau` is under the threshold, and `falling[tau]`
/// whether it decreases from `tau` to `tau + 1`.
pub fn first_dip(below: &[bool], falling: &[bool], tau_min: usize, tau_max: usize) -> (lag: Option<usize>)
    requires
        tau_max < below.len(),
        tau_max <= falling.len(),
    ensures
        lag matches Some(t) ==> dip_lag(below@, falling@, tau_min as int, tau_max as int) == Some(t as int),
        lag is None ==> dip_lag(below@, falling@, tau_min as int, tau_max as int) is None,
        lag matches Some(t) ==> exists|s: int|
            #![trigger below@[s]]
            {
                &&& (if tau_min < 1 { 1 } else { tau_min as int }) <= s <= t <= tau_max
                &&& below@[s]
                &&& forall|u: int| (if tau_min < 1 { 1 } else { tau_min as int }) <= u < s ==> !below@[u]
                &&& forall|u: int| s <= u < t ==> falling@[u]
                &&& (t == tau_max || !falling@[t as int])
            },
        lag is None <==> forall|u: int|
            (if tau_min < 1 { 1 } else { tau_min as int }) <= u <= tau_max ==> !below@[u],
{
    proof {
        lemma_dip_is_first_local_minimum(below@, falling@, tau_min as int, tau_max as int);
    }
    let lo = if tau_min < 1 { 1 } else { tau_min };
    let mut tau = lo;
    while tau <= tau_max
        invariant
            tau_max < below.len(),
            tau_max <= falling.len(),
            lo <= tau,
            lo == (if tau_min < 1 { 1 } else { tau_min }),
            first_below(below@, lo as int, tau_max as int) == first_below(below@, tau as int, tau_max as int),
        decreases tau_max + 1 - tau,
    {
        if below[tau] {
            let ghost start = tau;
            assert(first_below(below@, tau as int, tau_max as int) == Some(tau as int));
            while tau < tau_max && falling[tau]
                invariant
                    tau_max < below.len(),
                    tau_max <= falling.len(),
                    start <= tau <= tau_max,
                    lo == (if tau_min < 1 { 1 } else { tau_min }),
                    first_below(below@, lo as int, tau_max as int) == Some(start as int),
                    descend(falling@, start as int, tau_max as int) == descend(falling@, tau as int, tau_max as int),
                decreases tau_max - tau,
            {
                tau += 1;
            }
            assert(descend(falling@, tau as int, tau_max as int) == tau);
            proof {
                lemma_dip_is_first_local_minimum(below@, falling@, tau_min as int, tau_max as int);
            }
            return Some(tau);
        }
        tau += 1;
    }
    None
}

/// Feeding samples in two batches keeps the same window as feeding them at
/// once.
pub proof fn lemma_recent_batches<T>(a: Seq<T>, b: Seq<T>, cap: int)
    requires
        cap >= 0,
    ensures
        recent(recent(a, cap) + b, cap) == recent(a + b, cap),
{
    let ra = recent(a, cap);
    let l = recent(ra + b, cap);
    let r = recent(a + b, cap);
    assert(l.len() == r.len());
    assert forall|i: int| 0 <= i < l.len() implies l[i] == r[i] by {
        let ab = a + b;
        let rab = ra + b;
        let off_r = ab.len() - r.len();
        let off_l = rab.len() - l.len();
        assert(r[i] == ab[off_r + i]);
        assert(l[i] == rab[off_l + i]);
        let k = off_l + i;
        if k < ra.len() {
            assert(rab[k] == ra[k]);
            assert(ra[k] == a[a.len() - ra.len() + k]);
        } else {
            assert(rab[k] == b[k - ra.len()]);
        }
    }
    assert(l =~= r);
}

/// The window is the newest part of the stream: it has `min(len, cap)`
/// elements, each the element at the same distance from the end of the
/// stream, so a nonempty window ends with the newest element.
pub proof fn lemma_recent_is_newest<T>(s: Seq<T>, cap: int)
    requires
        cap >= 0,
    ensures
        recent(s, cap).len() == if s.len() <= cap { s.len() as int } else { cap },
        forall|i: int|
            0 <= i < recent(s, cap).len() ==> #[trigger] recent(s, cap)[i] == s[s.len() - recent(s, cap).len() + i],
        s.len() > 0 && cap > 0 ==> recent(s, cap).last() == s.last(),
        s.len() <= cap ==> recent(s, cap) == s,
{
}

/// The window never grows past its capacity.
pub proof fn lemma_recent_bounded<T>(s: Seq<T>, cap: int)
    requires
        cap >= 0,
    ensures
        recent(s, cap).len() == if s.len() <= cap { s.len() as int } else { cap },
{
}

proof fn lemma_descend_bounds(falling: Seq<bool>, t: int, hi: int)
    requires
        t <= hi,
    ensures
        t <= descend(falling, t, hi) <= hi,
        descend(falling, t, hi) == hi || !falling[descend(falling, t, hi)],
        forall|u: int| t <= u < descend(falling, t, hi) ==> falling[u],
    decreases hi - t,
{
    if t < hi && falling[t] {
        lemma_descend_bounds(falling, t + 1, hi);
    }
}

proof fn lemma_first_below_bounds(below: Seq<bool>, lo: int, hi: int)
    ensures
        first_below(below, lo, hi) matches Some(t) ==> {
            &&& lo <= t <= hi
            &&& below[t]
            &&& forall|u: int| lo <= u < t ==> !below[u]
        },
        first_below(below, lo, hi) is None ==> forall|u: int| lo <= u <= hi ==> !below[u],
    decreases hi - lo + 1,
{
    if lo <= hi && !below[lo] {
        lemma_first_below_bounds(below, lo + 1, hi);
    }
}

/// The picked lag is the bottom of the first dip: with `s` the first lag in
/// `max(tau_min, 1)..=tau_max` under the threshold, the curve falls at every
/// lag from `s` up to the picked lag, and stops falling there (or the range
/// ends). A lag is picked exactly when some lag in range is under the
/// threshold.
pub proof fn lemma_dip_is_first_local_minimum(below: Seq<bool>, falling: Seq<bool>, tau_min: int, tau_max: int)
    ensures
        ({
            let lo = if tau_min < 1 { 1 } else { tau_min };
            &&& dip_lag(below, falling, tau_min, tau_max) matches Some(t) ==> exists|s: int|
                #![trigger below[s]]
                {
                    &&& lo <= s <= t <= tau_max
                    &&& below[s]
                    &&& forall|u: int| lo <= u < s ==> !below[u]
                    &&& forall|u: int| s <= u < t ==> falling[u]
                    &&& (t == tau_max || !falling[t])
                }
            &&& (dip_lag(below, falling, tau_min, tau_max) is None <==> forall|u: int|
                lo <= u <= tau_max ==> !below[u])
        }),
{
    let lo = if tau_min < 1 { 1 } else { tau_min };
    lemma_first_below_bounds(below, lo, tau_max);
    if let Some(s) = first_below(below, lo, tau_max) {
        lemma_descend_bounds(falling, s, tau_max);
        assert(below[s]);
    }
}

/// The state after the same observation `n` times.
pub open spec fn observe_n(s: DetectorView, obs: Observation, n: nat) -> DetectorView
    decreases n,
{
    if n == 0 {
        s
    } else {
        observe(observe_n(s, obs, (n - 1) as nat), obs)
    }
}

/// The committed string after `n` frames of one candidate that starts afresh.
pub open spec fn fresh_run_current(current: Option<usize>, c: usize, n: int) -> Option<usize> {
    if current is None {
        if n - 1 >= DETECT_HOLD_FRAMES { Some(c) } else { None }
    } else if n - 1 >= DETECT_SWITCH_FRAMES {
        Some(c)
    } else {
        current
    }
}

/// A quiet or unmatched frame never changes the committed string.
pub proof fn lemma_quiet_holds_selection(s: DetectorView, obs: Observation)
    requires
        !(obs is Match),
    ensures
        observe(s, obs).current == s.current,
{
}

/// A frame without enough history changes nothing; a silent or unmatched
/// frame drops the pending candidate and its count, keeping only the
/// committed string.
pub proof fn lemma_non_match_frames(s: DetectorView)
    ensures
        observe(s, Observation::Warming) == s,
        observe(s, Observation::Silent) == (DetectorView { current: s.current, pending: None, hold: 0 }),
        observe(s, Observation::NoMatch) == (DetectorView { current: s.current, pending: None, hold: 0 }),
{
}

/// After a silent or unmatched frame a candidate starts over: four more
/// frames of it commit nothing, the fifth locks it if nothing was
/// committed, and a committed string is only replaced on the seventeenth.
pub proof fn lemma_interruption_restarts(s: DetectorView, obs: Observation, c: usize)
    requires
        obs is Silent || obs is NoMatch,
    ensures
        observe_n(observe(s, obs), Observation::Match(c), 4).current == s.current,
        s.current is None ==> observe_n(observe(s, obs), Observation::Match(c), 5).current == Some(c),
        s.current is Some ==> observe_n(observe(s, obs), Observation::Match(c), 16).current == s.current,
        observe_n(observe(s, obs), Observation::Match(c), 17).current == Some(c),
{
    let t = observe(s, obs);
    lemma_fresh_run(t, c, 4);
    lemma_fresh_run(t, c, 5);
    lemma_fresh_run(t, c, 16);
    lemma_fresh_run(t, c, 17);
}

/// The committed string only ever becomes the candidate just observed.
pub proof fn lemma_commits_only_candidates(s: DetectorView, obs: Observation)
    ensures
        observe(s, obs).current != s.current ==> (obs matches Observation::Match(c)
            && observe(s, obs).current == Some(c)),
{
}

/// A run of one new candidate: after `n` frames it is pending with `n - 1`
/// frames held, and it is committed once it has held long enough for the
/// first lock, or long enough to replace a committed string.
pub proof fn lemma_fresh_run(s: DetectorView, c: usize, n: nat)
    requires
        s.pending != Some(c) || s.hold == u32::MAX,
        1 <= n <= u32::MAX,
    ensures
        observe_n(s, Observation::Match(c), n) == (DetectorView {
            current: fresh_run_current(s.current, c, n as int),
            pending: Some(c),
            hold: n - 1,
        }),
    decreases n,
{
    let m = Observation::Match(c);
    if n == 1 {
        assert(observe_n(s, m, 0) == s);
        assert(observe_n(s, m, 1) == observe(s, m));
    } else {
        lemma_fresh_run(s, c, (n - 1) as nat);
        let t = observe_n(s, m, (n - 1) as nat);
        assert(observe_n(s, m, n) == observe(t, m));
        assert(t.pending == Some(c) && t.hold == n - 2);
        assert(t.current == fresh_run_current(s.current, c, n - 1));
    }
}

proof fn lemma_continuing_run(s: DetectorView, c: usize, n: nat)
    requires
        s.pending == Some(c),
        0 <= s.hold,
        s.hold + n <= u32::MAX,
    ensures
        observe_n(s, Observation::Match(c), n).pending == Some(c),
        observe_n(s, Observation::Match(c), n).hold == s.hold + n,
        n >= 1 && s.hold + n >= DETECT_SWITCH_FRAMES ==> observe_n(
            s,
            Observation::Match(c),
            n,
        ).current == Some(c),
    decreases n,
{
    if n > 0 {
        lemma_continuing_run(s, c, (n - 1) as nat);
    }
}

proof fn lemma_observe_n_split(s: DetectorView, obs: Observation, n: nat, k: nat)
    ensures
        observe_n(s, obs, n + k) == observe_n(observe_n(s, obs, n), obs, k),
    decreases k,
{
    if k > 0 {
        lemma_observe_n_split(s, obs, n, (k - 1) as nat);
        assert((n + k - 1) as nat == n + (k - 1) as nat);
    }
}

proof fn lemma_committed_persists(s: DetectorView, c: usize, n: nat)
    requires
        s.current == Some(c),
    ensures
        observe_n(s, Observation::Match(c), n).current == Some(c),
    decreases n,
{
    if n > 0 {
        lemma_committed_persists(s, c, (n - 1) as nat);
    }
}

/// A new candidate is not committed before it has held: four frames leave
/// the committed string as it was, and a committed string is only replaced
/// after seventeen.
pub proof fn lemma_no_early_commit(s: DetectorView, c: usize)
    requires
        s.pending != Some(c),
    ensures
        observe_n(s, Observation::Match(c), 4).current == s.current,
        s.current is Some ==> observe_n(s, Observation::Match(c), 16).current == s.current,
{
    lemma_fresh_run(s, c, 4);
    lemma_fresh_run(s, c, 16);
}

/// A new candidate is locked on its fifth frame when nothing is committed.
pub proof fn lemma_first_lock(s: DetectorView, c: usize)
    requires
        s.pending != Some(c),
        s.current is None,
    ensures
        observe_n(s, Observation::Match(c), 5).current == Some(c),
{
    lemma_fresh_run(s, c, 5);
}

/// The same candidate winning seventeen frames in a row is committed,
/// whatever came before.
pub proof fn lemma_commits_after_hold(s: DetectorView, c: usize)
    requires
        0 <= s.hold <= u32::MAX,
    ensures
        observe_n(s, Observation::Match(c), 17).current == Some(c),
{
    let m = Observation::Match(c);
    if s.pending != Some(c) || s.hold == u32::MAX {
        lemma_fresh_run(s, c, 17);
    } else if s.hold + 17 <= u32::MAX {
        lemma_continuing_run(s, c, 17);
    } else {
        let n = (u32::MAX - s.hold) as nat;
        lemma_continuing_run(s, c, n);
        lemma_observe_n_split(s, m, n, (17 - n) as nat);
        lemma_committed_persists(observe_n(s, m, n), c, (17 - n) as nat);
    }
}

/// What the caller measured this frame.
#[derive(Clone, Copy, PartialEq, Eq, Structural)]
pub enum Observation {
    /// Not enough history in the window yet.
    Warming,
    /// The level is under the noise gate.
    Silent,
    /// No string is close enough to the detected pitch (or no pitch).
    NoMatch,
    /// The nearest string to the detected pitch.
    Match(usize),
}

/// The detector's selection state as mathematical values.
pub struct DetectorView {
    pub current: Option<usize>,
    pub pending: Option<usize>,
    pub hold: int,
}

/// Frames a candidate must have won before it is committed: fewer for the
/// first lock than for replacing a committed string.
pub open spec fn frames_needed(current: Option<usize>) -> int {
    if current is None { DETECT_HOLD_FRAMES as int } else { DETECT_SWITCH_FRAMES as int }
}

/// The state after one observation.
pub open spec fn observe(s: DetectorView, obs: Observation) -> DetectorView {
    match obs {
        Observation::Warming => s,
        Observation::Silent => DetectorView { pending: None, hold: 0, ..s },
        Observation::NoMatch => DetectorView { pending: None, hold: 0, ..s },
        Observation::Match(c) => {
            let hold = if s.pending == Some(c) {
                if s.hold + 1 > u32::MAX { 0 } else { s.hold + 1 }
            } else {
                0
            };
            DetectorView {
                current: if hold >= frames_needed(s.current) { Some(c) } else { s.current },
                pending: Some(c),
                hold: hold,
            }
        },
    }
}

/// Commits a string once the same candidate has won for long enough.
pub struct StringDetector {
    current: Option<usize>,
    pending: Option<usize>,
    hold: u32,
}

impl View for StringDetector {
    type V = DetectorView;

    closed spec fn view(&self) -> DetectorView {
        DetectorView { current: self.current, pending: self.pending, hold: self.hold as int }
    }
}

impl StringDetector {
    /// Nothing committed, nothing pending.
    pub fn new() -> (d: StringDetector)
        ensures
            d@ == (DetectorView { current: None, pending: None, hold: 0 }),
    {
        StringDetector { current: None, pending: None, hold: 0 }
    }

    /// The currently committed string index, if any.
    pub fn current(&self) -> (c: Option<usize>)
        ensures
            c == self@.current,
    {
        self.current
    }

    /// Take one frame's observation and re-evaluate the selected string.
    pub fn process(&mut self, obs: Observation)
        ensures
            final(self)@ == observe(old(self)@, obs),
            0 <= final(self)@.hold <= u32::MAX,
            final(self)@.current != old(self)@.current ==> obs == Observation::Match(
                final(self)@.pending->0,
            ) && final(self)@.current == final(self)@.pending,
            obs is Warming ==> final(self)@ == old(self)@,
            obs is Silent || obs is NoMatch ==> final(self)@ == (DetectorView {
                current: old(self)@.current,
                pending: None,
                hold: 0,
            }),
            obs matches Observation::Match(c) ==> final(self)@.pending == Some(c),
    {
        match obs {
            Observation::Warming => {},
            Observation::Silent | Observation::NoMatch => {
                self.pending = None;
                self.hold = 0;
            },
            Observation::Match(candidate) => {
                if self.pending == Some(candidate) {
                    self.hold = self.hold.wrapping_add(1);
                } else {
                    self.pending = Some(candidate);
                    self.hold = 0;
                }
                let needed = if self.current.is_none() {
                    DETECT_HOLD_FRAMES
                } else {
                    DETECT_SWITCH_FRAMES
                };
                if self.hold >= needed {
                    self.current = Some(candidate);
                }
            },
        }
    }
}

} // verus!
