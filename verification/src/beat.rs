//! Beat timing: tap tempo and Madmom beat windows feeding one beat clock.
use vstd::prelude::*;

use crate::text::{decimal, decimal_string, digit_char};

verus! {

/// Taps further apart than this start a fresh tap window.
pub const TAP_TIMEOUT_MS: u64 = 2_000;
/// Number of taps kept in the rolling tap window.
pub const TAP_WINDOW: usize = 4;
/// Madmom beats further apart than this start a fresh beat window.
pub const MADMOM_TIMEOUT_MS: u64 = 2_500;
/// Number of Madmom beats kept in the rolling beat window.
pub const MADMOM_WINDOW: usize = 4;

/// `x` clamped to the `u64` range from above, as `saturating_mul` does.
pub open spec fn saturate(x: int) -> int {
    if x > u64::MAX {
        u64::MAX as int
    } else {
        x
    }
}

/// An interval is an outlier against a beat length when it is longer than
/// three halves or shorter than two thirds of it (with saturating products).
pub open spec fn outside_ratio(interval: int, beat: int) -> bool {
    saturate(interval * 2) > saturate(beat * 3) || saturate(interval * 3) < saturate(beat * 2)
}

/// A sequence of timestamps in strictly increasing order.
pub open spec fn strictly_increasing(s: Seq<u64>) -> bool {
    forall|i: int, j: int| 0 <= i < j < s.len() ==> s[i] < s[j]
}

/// Keep at most `max` newest entries after one push.
pub open spec fn windowed(s: Seq<u64>, max: nat) -> Seq<u64> {
    if s.len() > max {
        s.drop_first()
    } else {
        s
    }
}

/// Whether an interval is rejected as an outlier, given the window sizes and
/// the current clock: only an established window with a known tempo rejects.
pub open spec fn is_outlier(
    taps_len: nat,
    madmom_len: nat,
    clock: Option<(u64, u64)>,
    interval: int,
) -> bool {
    &&& (taps_len >= 3 || madmom_len >= 2)
    &&& clock is Some
    &&& outside_ratio(interval, (clock->0).0 as int)
}

/// Whether a tap at `ts` throws the current tap window away.
pub open spec fn tap_resets(
    taps: Seq<u64>,
    madmom_len: nat,
    clock: Option<(u64, u64)>,
    ts: u64,
) -> bool {
    &&& taps.len() > 0
    &&& {
        let last = taps.last();
        ||| ts <= last
        ||| ts - last > TAP_TIMEOUT_MS
        ||| (taps.len() >= 3 && is_outlier(taps.len(), madmom_len, clock, ts - last))
    }
}

/// The tap window after a tap at `ts`.
pub open spec fn taps_after(
    taps: Seq<u64>,
    madmom_len: nat,
    clock: Option<(u64, u64)>,
    ts: u64,
) -> Seq<u64> {
    let base = if tap_resets(taps, madmom_len, clock, ts) {
        Seq::<u64>::empty()
    } else {
        taps
    };
    windowed(base.push(ts), TAP_WINDOW as nat)
}

/// Average interval of a tap window: the mean of the consecutive gaps.
pub open spec fn tap_average(w: Seq<u64>) -> int
    recommends
        w.len() >= 2,
{
    (w.last() - w[0]) / (w.len() - 1)
}

/// Whether a Madmom beat at `beat` throws the current beat window away.
pub open spec fn madmom_resets(
    beats: Seq<u64>,
    taps_len: nat,
    clock: Option<(u64, u64)>,
    beat: u64,
) -> bool {
    &&& beats.len() > 0
    &&& {
        let since = beat - beats.last();
        ||| since <= 0
        ||| since > MADMOM_TIMEOUT_MS
        ||| is_outlier(taps_len, beats.len(), clock, since)
    }
}

/// The Madmom beat window after a beat at `beat`.
pub open spec fn madmom_after(
    beats: Seq<u64>,
    taps_len: nat,
    clock: Option<(u64, u64)>,
    beat: u64,
) -> Seq<u64> {
    let base = if madmom_resets(beats, taps_len, clock, beat) {
        Seq::<u64>::empty()
    } else {
        beats
    };
    windowed(base.push(beat), MADMOM_WINDOW as nat)
}

/// The middle one of three values.
pub open spec fn middle_of_three(a: int, b: int, c: int) -> int {
    if (a <= b && b <= c) || (c <= b && b <= a) {
        b
    } else if (b <= a && a <= c) || (c <= a && a <= b) {
        a
    } else {
        c
    }
}

/// Gap between beat `i` and beat `i + 1`.
pub open spec fn gap(w: Seq<u64>, i: int) -> int {
    w[i + 1] - w[i]
}

/// Median of the gaps of a window of two to four beats; with an even
/// number of gaps it is the truncated mean of the two middle ones.
pub open spec fn median_gap(w: Seq<u64>) -> int
    recommends
        2 <= w.len() <= 4,
{
    if w.len() == 2 {
        gap(w, 0)
    } else if w.len() == 3 {
        (gap(w, 0) + gap(w, 1)) / 2
    } else {
        middle_of_three(gap(w, 0), gap(w, 1), gap(w, 2))
    }
}

/// Whether the tap tempo counter has concluded at `now`.
pub open spec fn tap_concluded(taps: Seq<u64>, now: u64) -> bool {
    taps.len() == 0 || now - taps.last() > TAP_TIMEOUT_MS
}

/// Beat clock: a beat length and the timestamp of a beat boundary.
#[derive(Clone, Copy, Debug)]
pub struct BeatClock {
    beat_ms: u64,
    anchor_ms: u64,
}

impl BeatClock {
    /// Beat length in milliseconds.
    pub closed spec fn period(self) -> u64 {
        self.beat_ms
    }

    /// Timestamp of a beat boundary.
    pub closed spec fn anchor(self) -> u64 {
        self.anchor_ms
    }

    /// Create a clock with a beat length and anchor timestamp.
    pub fn new(beat_ms: u64, anchor_ms: u64) -> (c: Self)
        ensures
            c.period() == beat_ms,
            c.anchor() == anchor_ms,
    {
        BeatClock { beat_ms, anchor_ms }
    }

    /// Beat length in milliseconds.
    pub fn beat_ms(&self) -> (r: u64)
        ensures
            r == self.period(),
    {
        self.beat_ms
    }

    /// Timestamp of a beat boundary in milliseconds.
    pub fn anchor_ms(&self) -> (r: u64)
        ensures
            r == self.anchor(),
    {
        self.anchor_ms
    }
}

impl Default for BeatClock {
    fn default() -> (c: Self)
        ensures
            c.period() == 500,
            c.anchor() == 0,
    {
        BeatClock::new(500, 0)
    }
}

/// Beat state: the tap window, the Madmom beat window and the beat clock.
#[derive(Clone, Debug)]
pub struct BeatBroadcaster {
    taps: Vec<u64>,
    madmom_beats: Vec<u64>,
    clock: Option<BeatClock>,
}

/// `after` is `before` with a tap at `ts` added: the tap window as
/// `taps_after` gives it; once it holds three taps the clock takes their
/// average interval, anchored at the tap, and the Madmom window empties;
/// before that the clock and the Madmom window stay.
pub open spec fn tapped(before: BeatBroadcaster, after: BeatBroadcaster, ts: u64) -> bool {
    &&& after.taps() == taps_after(before.taps(), before.madmom().len(), before.clock(), ts)
    &&& after.taps().len() >= 3 ==> {
        &&& after.clock() == Some((tap_average(after.taps()) as u64, ts))
        &&& after.madmom() == Seq::<u64>::empty()
    }
    &&& after.taps().len() < 3 ==> {
        &&& after.clock() == before.clock()
        &&& after.madmom() == before.madmom()
    }
}

/// `after` is `before` with a Madmom beat at `beat_ms` reported: the beat
/// window as `madmom_after` gives it; once it holds two beats the clock
/// takes their median interval, anchored at `anchor_ms`, and the tap window
/// empties; before that the clock and the tap window stay.
pub open spec fn beat_reported(
    before: BeatBroadcaster,
    after: BeatBroadcaster,
    beat_ms: u64,
    anchor_ms: u64,
) -> bool {
    &&& after.madmom() == madmom_after(
        before.madmom(),
        before.taps().len(),
        before.clock(),
        beat_ms,
    )
    &&& after.madmom().len() >= 2 ==> {
        &&& after.clock() == Some((median_gap(after.madmom()) as u64, anchor_ms))
        &&& after.taps() == Seq::<u64>::empty()
    }
    &&& after.madmom().len() < 2 ==> {
        &&& after.clock() == before.clock()
        &&& after.taps() == before.taps()
    }
}

impl BeatBroadcaster {
    /// Tap timestamps in the current window, oldest first.
    pub closed spec fn taps(self) -> Seq<u64> {
        self.taps@
    }

    /// Madmom beat timestamps in the current window, oldest first.
    pub closed spec fn madmom(self) -> Seq<u64> {
        self.madmom_beats@
    }

    /// Beat length and anchor of the clock, if a tempo is known.
    pub closed spec fn clock(self) -> Option<(u64, u64)> {
        match self.clock {
            Some(c) => Some((c.beat_ms, c.anchor_ms)),
            None => None,
        }
    }

    /// Both windows are strictly increasing and bounded, and a known beat
    /// length is at least one millisecond.
    pub open spec fn wf(self) -> bool {
        &&& strictly_increasing(self.taps())
        &&& self.taps().len() <= TAP_WINDOW
        &&& strictly_increasing(self.madmom())
        &&& self.madmom().len() <= MADMOM_WINDOW
        &&& (self.clock() matches Some(c) ==> c.0 >= 1)
    }

    /// Empty state: no taps, no beats, no tempo.
    pub fn new() -> (b: Self)
        ensures
            b.wf(),
            b.taps() == Seq::<u64>::empty(),
            b.madmom() == Seq::<u64>::empty(),
            b.clock() is None,
    {
        BeatBroadcaster { taps: Vec::new(), madmom_beats: Vec::new(), clock: None }
    }

    /// Add a human tap timestamp.
    pub fn add_tap(&mut self, timestamp_ms: u64)
        requires
            old(self).wf(),
        ensures
            final(self).wf(),
            tapped(*old(self), *final(self), timestamp_ms),
    {
        let ghost old_taps = self.taps@;
        let n = self.taps.len();
        if n > 0 {
            let last = self.taps[n - 1];
            let reset = if timestamp_ms <= last {
                true
            } else if timestamp_ms - last > TAP_TIMEOUT_MS {
                true
            } else if n >= 3 {
                self.interval_is_outlier(timestamp_ms - last)
            } else {
                false
            };
            if reset {
                self.taps.clear();
            }
        }
        proof {
            assert(self.taps@ == if tap_resets(
                old_taps,
                self.madmom_beats@.len(),
                self.clock(),
                timestamp_ms,
            ) {
                Seq::<u64>::empty()
            } else {
                old_taps
            });
        }
        let ghost base = self.taps@;
        self.taps.push(timestamp_ms);
        if self.taps.len() > TAP_WINDOW {
            self.taps.remove(0);
        }
        proof {
            assert(self.taps@ == windowed(base.push(timestamp_ms), TAP_WINDOW as nat));
            assert forall|i: int, j: int| 0 <= i < j < self.taps@.len() implies self.taps@[i]
                < self.taps@[j] by {
                let p = base.push(timestamp_ms);
                assert(strictly_increasing(base));
                if base.len() > 0 {
                    assert(timestamp_ms > base.last());
                }
                assert(strictly_increasing(p));
            }
        }
        let len = self.taps.len();
        if len >= 3 {
            let first = self.taps[0];
            let last = self.taps[len - 1];
            proof {
                assert(self.taps@[0] < self.taps@[len - 1]);
                self.lemma_span_at_least_count();
            }
            let average = (last - first) / ((len - 1) as u64);
            assert(average >= 1) by (nonlinear_arith)
                requires
                    last - first >= len - 1,
                    len >= 3,
                    average as int == (last - first) as int / (len - 1) as int,
            ;
            self.clock = Some(BeatClock::new(average, timestamp_ms));
            self.madmom_beats.clear();
        }
    }

    /// A strictly increasing window spans at least one millisecond per gap.
    proof fn lemma_span_at_least_count(&self)
        requires
            strictly_increasing(self.taps@),
            self.taps@.len() >= 2,
        ensures
            self.taps@.last() - self.taps@[0] >= self.taps@.len() - 1,
    {
        lemma_increasing_span(self.taps@, self.taps@.len() - 1);
    }

    /// Reset beat, tap and Madmom state.
    pub fn reset(&mut self)
        ensures
            final(self).wf(),
            final(self).taps() == Seq::<u64>::empty(),
            final(self).madmom() == Seq::<u64>::empty(),
            final(self).clock() is None,
    {
        self.taps.clear();
        self.madmom_beats.clear();
        self.clock = None;
    }

    /// Report a Madmom beat timestamp (audio-stream milliseconds), anchoring
    /// the clock at the given real-time timestamp.
    pub fn report_madmom_beat(&mut self, beat_ms: u64, realtime_anchor_ms: u64)
        requires
            old(self).wf(),
        ensures
            final(self).wf(),
            beat_reported(*old(self), *final(self), beat_ms, realtime_anchor_ms),
    {
        let ghost old_beats = self.madmom_beats@;
        let n = self.madmom_beats.len();
        if n > 0 {
            let last = self.madmom_beats[n - 1];
            let reset = if beat_ms <= last {
                true
            } else if beat_ms - last > MADMOM_TIMEOUT_MS {
                true
            } else {
                self.interval_is_outlier(beat_ms - last)
            };
            if reset {
                self.madmom_beats.clear();
            }
        }
        proof {
            assert(self.madmom_beats@ == if madmom_resets(
                old_beats,
                self.taps@.len(),
                self.clock(),
                beat_ms,
            ) {
                Seq::<u64>::empty()
            } else {
                old_beats
            });
        }
        let ghost base = self.madmom_beats@;
        self.madmom_beats.push(beat_ms);
        if self.madmom_beats.len() > MADMOM_WINDOW {
            self.madmom_beats.remove(0);
        }
        proof {
            assert(self.madmom_beats@ == windowed(base.push(beat_ms), MADMOM_WINDOW as nat));
            assert forall|i: int, j: int|
                0 <= i < j < self.madmom_beats@.len() implies self.madmom_beats@[i]
                < self.madmom_beats@[j] by {
                let p = base.push(beat_ms);
                if base.len() > 0 {
                    assert(beat_ms > base.last());
                }
                assert(strictly_increasing(p));
            }
        }
        let len = self.madmom_beats.len();
        if len >= 2 {
            let median = median_of_window(&self.madmom_beats);
            self.clock = Some(BeatClock::new(median, realtime_anchor_ms));
            self.taps.clear();
        }
    }

    /// Install a tempo that an outside source (Ableton Link) reported, as a
    /// beat length and anchor; both windows are cleared.
    pub fn report_link_period(&mut self, beat_ms: u64, anchor_ms: u64)
        requires
            old(self).wf(),
            beat_ms >= 1,
        ensures
            final(self).wf(),
            final(self).clock() == Some((beat_ms, anchor_ms)),
            final(self).taps() == Seq::<u64>::empty(),
            final(self).madmom() == Seq::<u64>::empty(),
    {
        self.clock = Some(BeatClock::new(beat_ms, anchor_ms));
        self.taps.clear();
        self.madmom_beats.clear();
    }

    fn interval_is_outlier(&self, interval_ms: u64) -> (r: bool)
        ensures
            r == is_outlier(self.taps().len(), self.madmom().len(), self.clock(), interval_ms as int),
    {
        let established_tap_window = self.taps.len() >= 3;
        let established_madmom_window = self.madmom_beats.len() >= 2;
        if !established_tap_window && !established_madmom_window {
            return false;
        }
        match &self.clock {
            None => false,
            Some(clock) => interval_outside_ratio(interval_ms, clock.beat_ms),
        }
    }

    /// Beat length in milliseconds, if known.
    pub fn beat_ms(&self) -> (r: Option<u64>)
        ensures
            r == (match self.clock() {
                Some(c) => Some(c.0),
                None => None::<u64>,
            }),
    {
        match &self.clock {
            Some(clock) => Some(clock.beat_ms),
            None => None,
        }
    }

    /// The beat clock, if a tempo is known.
    pub fn beat_clock(&self) -> (r: Option<BeatClock>)
        ensures
            (r is Some) == (self.clock() is Some),
            r matches Some(c) ==> self.clock() == Some((c.period(), c.anchor())),
    {
        self.clock.clone()
    }

    /// BPM display string: `[none]` without a tempo, else `60000 / beat_ms`.
    pub fn bpm_string(&self) -> (r: String)
        requires
            self.wf(),
        ensures
            r@ == (match self.clock() {
                Some(c) => decimal((60_000u64 / c.0) as nat),
                None => seq!['[', 'n', 'o', 'n', 'e', ']'],
            }),
    {
        match &self.clock {
            Some(clock) => decimal_string(60_000 / clock.beat_ms),
            None => {
                let s = "[none]".to_owned();
                proof {
                    reveal_strlit("[none]");
                }
                assert(s@ == seq!['[', 'n', 'o', 'n', 'e', ']']);
                s
            },
        }
    }

    /// Tap counter text: `Tap` once the tap tempo has concluded, else the
    /// number of taps in the window.
    pub fn tap_counter_text(&self, now_ms: u64) -> (r: String)
        ensures
            r@ == if tap_concluded(self.taps(), now_ms) {
                seq!['T', 'a', 'p']
            } else {
                decimal(self.taps().len())
            },
    {
        if self.tap_tempo_concluded(now_ms) {
            let s = "Tap".to_owned();
            proof {
                reveal_strlit("Tap");
            }
            assert(s@ == seq!['T', 'a', 'p']);
            s
        } else {
            decimal_string(self.taps.len() as u64)
        }
    }

    /// Whether the tap tempo counter should display as active.
    pub fn tap_counter_active(&self, now_ms: u64) -> (r: bool)
        ensures
            r == !tap_concluded(self.taps(), now_ms),
    {
        !self.tap_tempo_concluded(now_ms)
    }

    fn tap_tempo_concluded(&self, now_ms: u64) -> (r: bool)
        ensures
            r == tap_concluded(self.taps(), now_ms),
    {
        let n = self.taps.len();
        if n == 0 {
            true
        } else {
            now_ms.saturating_sub(self.taps[n - 1]) > TAP_TIMEOUT_MS
        }
    }
}

impl Default for BeatBroadcaster {
    fn default() -> (b: Self)
        ensures
            b.wf(),
            b.taps() == Seq::<u64>::empty(),
            b.madmom() == Seq::<u64>::empty(),
            b.clock() is None,
    {
        BeatBroadcaster::new()
    }
}

/// In a strictly increasing sequence the entry at `k` exceeds the first by at least `k`.
pub proof fn lemma_increasing_span(s: Seq<u64>, k: int)
    requires
        strictly_increasing(s),
        0 <= k < s.len(),
    ensures
        s[k] - s[0] >= k,
    decreases k,
{
    if k > 0 {
        lemma_increasing_span(s, k - 1);
    }
}

fn sat_mul(a: u64, k: u64) -> (r: u64)
    requires
        k == 2 || k == 3,
    ensures
        r == saturate(a * k),
{
    if a > u64::MAX / k {
        assert(a * k > u64::MAX) by (nonlinear_arith)
            requires
                a > u64::MAX / k,
                k == 2 || k == 3,
        ;
        u64::MAX
    } else {
        assert(a * k <= u64::MAX) by (nonlinear_arith)
            requires
                a <= u64::MAX / k,
                k == 2 || k == 3,
        ;
        a * k
    }
}

/// Whether `interval_ms` falls outside `[2/3, 3/2]` of `beat_ms`.
pub fn interval_outside_ratio(interval_ms: u64, beat_ms: u64) -> (r: bool)
    ensures
        r == outside_ratio(interval_ms as int, beat_ms as int),
{
    sat_mul(interval_ms, 2) > sat_mul(beat_ms, 3) || sat_mul(interval_ms, 3) < sat_mul(
        beat_ms,
        2,
    )
}

fn median_of_window(w: &Vec<u64>) -> (r: u64)
    requires
        2 <= w@.len() <= 4,
        strictly_increasing(w@),
    ensures
        r == median_gap(w@),
        r >= 1,
{
    let n = w.len();
    let g0 = w[1] - w[0];
    if n == 2 {
        g0
    } else {
        let g1 = w[2] - w[1];
        if n == 3 {
            proof {
                lemma_increasing_span(w@, 2);
            }
            (g0 + g1) / 2
        } else {
            let g2 = w[3] - w[2];
            if (g0 <= g1 && g1 <= g2) || (g2 <= g1 && g1 <= g0) {
                g1
            } else if (g1 <= g0 && g0 <= g2) || (g2 <= g0 && g0 <= g1) {
                g0
            } else {
                g2
            }
        }
    }
}

/// Text the tap counter shows for a tap window at `now`.
pub open spec fn tap_counter_chars(taps: Seq<u64>, now: u64) -> Seq<char> {
    if tap_concluded(taps, now) {
        seq!['T', 'a', 'p']
    } else {
        decimal(taps.len())
    }
}

/// Three evenly spaced taps into an empty tap window set the tempo to their
/// spacing, whatever the Madmom window and the previous clock were.
pub proof fn law_steady_taps_set_tempo(
    madmom_len: nat,
    clock: Option<(u64, u64)>,
    t: u64,
    d: u64,
)
    requires
        1 <= d <= TAP_TIMEOUT_MS,
        t + 2 * d <= u64::MAX,
    ensures
        ({
            let w1 = taps_after(Seq::<u64>::empty(), madmom_len, clock, t);
            let w2 = taps_after(w1, madmom_len, clock, (t + d) as u64);
            let w3 = taps_after(w2, madmom_len, clock, (t + 2 * d) as u64);
            &&& w1.len() == 1 && w2.len() == 2 && w3.len() == 3
            &&& tap_average(w3) == d
        }),
{
    let w1 = taps_after(Seq::<u64>::empty(), madmom_len, clock, t);
    assert(w1 == seq![t]);
    let w2 = taps_after(w1, madmom_len, clock, (t + d) as u64);
    assert(w2 == seq![t, (t + d) as u64]);
    let w3 = taps_after(w2, madmom_len, clock, (t + 2 * d) as u64);
    assert(w3 == seq![t, (t + d) as u64, (t + 2 * d) as u64]);
    assert(w3.last() - w3[0] == 2 * d);
    assert(tap_average(w3) == (2 * d) / 2);
}

/// Two Madmom beats `d` apart in an empty beat window set the tempo to `d`
/// when no established tap window can reject the second one.
pub proof fn law_two_beats_set_tempo(taps_len: nat, clock: Option<(u64, u64)>, b: u64, d: u64)
    requires
        taps_len < 3,
        1 <= d <= MADMOM_TIMEOUT_MS,
        b + d <= u64::MAX,
    ensures
        ({
            let w1 = madmom_after(Seq::<u64>::empty(), taps_len, clock, b);
            let w2 = madmom_after(w1, taps_len, clock, (b + d) as u64);
            &&& w2 == seq![b, (b + d) as u64]
            &&& median_gap(w2) == d
        }),
{
    let w1 = madmom_after(Seq::<u64>::empty(), taps_len, clock, b);
    assert(w1 == seq![b]);
    let w2 = madmom_after(w1, taps_len, clock, (b + d) as u64);
    assert(w2 == seq![b, (b + d) as u64]);
}

/// An interval between two thirds and three halves of the beat length is
/// never an outlier; in particular an interval equal to the beat length.
pub proof fn law_in_ratio_interval_is_kept(interval: u64, beat: u64)
    requires
        2 * interval <= 3 * beat,
        3 * interval >= 2 * beat,
    ensures
        !outside_ratio(interval as int, beat as int),
{
}

/// A tap that is not later than the last one, or comes after the tap
/// timeout, starts a fresh window holding only itself.
pub proof fn law_late_or_backwards_tap_restarts(
    taps: Seq<u64>,
    madmom_len: nat,
    clock: Option<(u64, u64)>,
    ts: u64,
)
    requires
        taps.len() > 0,
        ts <= taps.last() || ts - taps.last() > TAP_TIMEOUT_MS,
    ensures
        taps_after(taps, madmom_len, clock, ts) == seq![ts],
{
    assert(Seq::<u64>::empty().push(ts) == seq![ts]);
}

/// A Madmom beat that is not later than the last one, or comes after the
/// beat timeout, starts a fresh window holding only itself.
pub proof fn law_late_or_backwards_beat_restarts(
    beats: Seq<u64>,
    taps_len: nat,
    clock: Option<(u64, u64)>,
    beat: u64,
)
    requires
        beats.len() > 0,
        beat <= beats.last() || beat - beats.last() > MADMOM_TIMEOUT_MS,
    ensures
        madmom_after(beats, taps_len, clock, beat) == seq![beat],
{
    assert(Seq::<u64>::empty().push(beat) == seq![beat]);
}

/// The tap counter reads `Tap` exactly when it is not active.
pub proof fn law_counter_text_matches_activity(taps: Seq<u64>, now: u64)
    ensures
        (tap_counter_chars(taps, now) == seq!['T', 'a', 'p']) == tap_concluded(taps, now),
{
    if !tap_concluded(taps, now) {
        lemma_decimal_ends_in_digit(taps.len());
        let d = decimal(taps.len());
        assert(d.last() != 'p');
        if d == seq!['T', 'a', 'p'] {
            assert(d.last() == 'p');
        }
    }
}

/// The last character of a decimal rendering is a digit.
pub proof fn lemma_decimal_ends_in_digit(n: nat)
    ensures
        decimal(n).len() > 0,
        decimal(n).last() == digit_char(n % 10),
{
    if n < 10 {
        assert(n % 10 == n);
    }
}

/// The clock's beat length from a Madmom window is the median by value of
/// the window's gaps: for two beats their one gap; for three the truncated
/// mean of the two gaps; for four one of the three gaps that is no smaller
/// than two of them and no larger than two of them.
pub proof fn law_window_beat_length_is_median(w: Seq<u64>)
    requires
        2 <= w.len() <= 4,
    ensures
        w.len() == 2 ==> median_gap(w) == w[1] - w[0],
        w.len() == 3 ==> 2 * median_gap(w) <= (w[1] - w[0]) + (w[2] - w[1]) <= 2 * median_gap(w)
            + 1,
        w.len() == 4 ==> ({
            let m = median_gap(w);
            let a = w[1] - w[0];
            let b = w[2] - w[1];
            let c = w[3] - w[2];
            &&& (m == a || m == b || m == c)
            &&& ((a <= m && b <= m) || (a <= m && c <= m) || (b <= m && c <= m))
            &&& ((a >= m && b >= m) || (a >= m && c >= m) || (b >= m && c >= m))
        }),
{
}

/// Without saturation, an interval is an outlier exactly when it is
/// shorter than two thirds or longer than three halves of the beat length.
pub proof fn law_outlier_is_outside_two_thirds_to_three_halves(interval: u64, beat: u64)
    requires
        2 * interval <= u64::MAX,
        3 * beat <= u64::MAX,
    ensures
        outside_ratio(interval as int, beat as int) <==> (3 * interval < 2 * beat || 2 * interval
            > 3 * beat),
{
}

/// In an established tap window with a known tempo, a tap that comes sooner
/// than two thirds of the beat length after the last one (a double-time
/// tap) starts a fresh window holding only itself.
pub proof fn law_double_time_tap_restarts(
    taps: Seq<u64>,
    madmom_len: nat,
    beat: u64,
    anchor: u64,
    ts: u64,
)
    requires
        taps.len() >= 3,
        ts > taps.last(),
        3 * (ts - taps.last()) < 2 * beat,
        2 * beat <= u64::MAX,
    ensures
        taps_after(taps, madmom_len, Some((beat, anchor)), ts) == seq![ts],
{
    assert(Seq::<u64>::empty().push(ts) == seq![ts]);
}

} // verus!
