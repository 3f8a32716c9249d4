//! Fixed-length step patterns driven by sample time.
//!
//! Time is counted in ticks: every sample adds `bpm * step_division` ticks
//! and every step lasts `sample_rate * 60` ticks, so a step lasts exactly
//! `sample_rate * 60 / (bpm * step_division)` samples with no rounding.
use vstd::prelude::*;

verus! {

/// Velocity of a note played at full strength.
pub const VELOCITY_FULL: u16 = 1000;

/// A note in a step slot: `frequency` in millihertz, `velocity` in
/// thousandths of full strength.
#[derive(Clone, Copy, Debug, PartialEq, Eq, Structural)]
pub struct NoteEvent {
    pub frequency: u32,
    pub velocity: u16,
}

/// How a step is shown: under the cursor, holding a note, or empty.
#[derive(Clone, Copy, Debug, PartialEq, Eq, Structural)]
pub enum StepCell {
    Current,
    Filled,
    Empty,
}

/// One step as the sequencer window shows it, with the frequency of the
/// note it holds, if any.
#[derive(Clone, Copy, Debug, PartialEq, Eq, Structural)]
pub struct StepView {
    pub cell: StepCell,
    pub frequency: Option<u32>,
}

/// Step pattern with a cursor that advances in sample time.
#[derive(Debug)]
pub struct Sequencer {
    pub events: Vec<Option<NoteEvent>>,
    pub bpm: u32,
    pub sample_rate: u32,
    pub current_step: usize,
    pub accumulated: u64,
    pub step_division: u8,
    pub primed: bool,
}

impl Sequencer {
    /// Ticks that one sample adds.
    pub open spec fn ticks_per_sample(&self) -> int {
        self.bpm * self.step_division
    }

    /// Ticks that one step lasts.
    pub open spec fn ticks_per_step(&self) -> int {
        self.sample_rate * 60
    }

    pub open spec fn len(&self) -> int {
        self.events@.len() as int
    }

    pub open spec fn wf(&self) -> bool {
        &&& self.bpm > 0
        &&& self.sample_rate > 0
        &&& self.step_division > 0
        &&& 0 < self.events@.len() <= usize::MAX
        &&& self.current_step < self.events@.len()
        &&& self.accumulated < self.ticks_per_step()
    }

    /// The cursor sits on the first step with nothing accumulated, as it
    /// does right after construction at these parameters.
    pub open spec fn is_fresh(&self, bpm: u32, sample_rate: u32, length: nat, step_division: u8) -> bool {
        &&& self.bpm == bpm
        &&& self.sample_rate == sample_rate
        &&& self.step_division == step_division
        &&& self.events@.len() == length
        &&& self.current_step == 0
        &&& self.accumulated == 0
        &&& self.primed
    }

    /// Ticks accumulated after `n` more samples, before wrapping into steps.
    pub open spec fn total_after(&self, n: nat) -> int {
        self.accumulated + n * self.ticks_per_sample()
    }

    /// The sequencer after `n` more samples.
    pub open spec fn advanced(&self, n: nat) -> Sequencer {
        Sequencer {
            current_step: ((self.current_step + self.total_after(n) / self.ticks_per_step())
                % self.len()) as usize,
            accumulated: (self.total_after(n) % self.ticks_per_step()) as u64,
            primed: self.primed && n == 0,
            ..*self
        }
    }

    /// The sequencer after `n` single-sample advances, one after the other.
    pub open spec fn advanced_singly(&self, n: nat) -> Sequencer
        decreases n,
    {
        if n == 0 {
            *self
        } else {
            self.advanced(1).advanced_singly((n - 1) as nat)
        }
    }

    /// The sequencer after `set_bpm(bpm)`.
    pub open spec fn with_bpm(&self, bpm: u32) -> Sequencer {
        Sequencer {
            bpm,
            accumulated: kept_ticks(
                self.accumulated as int,
                self.ticks_per_sample(),
                bpm * self.step_division,
                self.ticks_per_step(),
            ) as u64,
            ..*self
        }
    }

    /// The sequencer after `set_sample_rate(sample_rate)`.
    pub open spec fn with_sample_rate(&self, sample_rate: u32) -> Sequencer {
        Sequencer {
            sample_rate,
            accumulated: if self.accumulated < sample_rate * 60 {
                self.accumulated
            } else {
                (sample_rate * 60 - 1) as u64
            },
            ..*self
        }
    }

    /// How many of `n` single-sample advances, one after the other, report
    /// a boundary.
    pub open spec fn boundaries_singly(&self, n: nat) -> nat
        decreases n,
    {
        if n == 0 {
            0
        } else {
            (if self.crosses(1) {
                1nat
            } else {
                0nat
            }) + self.advanced(1).boundaries_singly((n - 1) as nat)
        }
    }

    /// Whether `n` more samples reach at least one step boundary.
    pub open spec fn crosses(&self, n: nat) -> bool {
        self.total_after(n) >= self.ticks_per_step()
    }

    pub open spec fn event_at(&self, step: int) -> Option<NoteEvent> {
        if 0 <= step < self.len() {
            self.events@[step]
        } else {
            None
        }
    }

    /// An empty pattern of `length` steps with the cursor on the first step,
    /// which the first sample enters.
    pub fn new(bpm: u32, sample_rate: u32, length: usize, step_division: u8) -> (r: Sequencer)
        requires
            bpm > 0,
            sample_rate > 0,
            length > 0,
            step_division > 0,
        ensures
            r.wf(),
            r.is_fresh(bpm, sample_rate, length as nat, step_division),
            forall|i: int| 0 <= i < length ==> r.events@[i] == None::<NoteEvent>,
    {
        let mut events: Vec<Option<NoteEvent>> = Vec::with_capacity(length);
        let mut i: usize = 0;
        while i < length
            invariant
                i <= length,
                events@.len() == i,
                forall|j: int| 0 <= j < i ==> events@[j] == None::<NoteEvent>,
            decreases length - i,
        {
            events.push(None);
            i = i + 1;
        }
        proof {
            assert((sample_rate as int) * 60 > 0) by (nonlinear_arith)
                requires
                    sample_rate > 0,
            ;
        }
        Sequencer {
            events,
            bpm,
            sample_rate,
            current_step: 0,
            accumulated: 0,
            step_division,
            primed: true,
        }
    }

    /// Adds `num_samples` of time. Every boundary crossed moves the cursor
    /// one step on, wrapping at the end of the pattern; the result says
    /// whether any boundary was crossed.
    pub fn process(&mut self, num_samples: usize) -> (r: bool)
        requires
            old(self).wf(),
        ensures
            *final(self) == old(self).advanced(num_samples as nat),
            final(self).wf(),
            r == old(self).crosses(num_samples as nat),
    {
        let w: u128 = tick_rate(self.bpm, self.step_division) as u128;
        let t: u128 = (self.sample_rate as u128) * 60;
        let len: usize = self.events.len();
        proof {
            assert((num_samples as int) * (w as int) <= (u64::MAX as int) * ((u32::MAX as int)
                * 255)) by (nonlinear_arith)
                requires
                    num_samples <= u64::MAX,
                    w <= (u32::MAX as int) * 255,
            ;
        }
        let total: u128 = (self.accumulated as u128) + (num_samples as u128) * w;
        let crossings: u128 = total / t;
        let moved: usize = (crossings % (len as u128)) as usize;
        self.current_step = ((self.current_step as u128 + moved as u128) % (len as u128)) as usize;
        self.accumulated = (total % t) as u64;
        if num_samples > 0 {
            self.primed = false;
        }
        proof {
            let c = self.current_step as int;
            let l = len as int;
            vstd::arithmetic::div_mod::lemma_add_mod_noop(
                old(self).current_step as int,
                crossings as int,
                l,
            );
            vstd::arithmetic::div_mod::lemma_small_mod(old(self).current_step as nat, l as nat);
            vstd::arithmetic::div_mod::lemma_mod_twice(crossings as int, l);
            if total >= t {
                vstd::arithmetic::div_mod::lemma_div_is_ordered(t as int, total as int, t as int);
                vstd::arithmetic::div_mod::lemma_div_by_self(t as int);
            } else {
                vstd::arithmetic::div_mod::lemma_basic_div(total as int, t as int);
            }
        }
        crossings > 0
    }

    /// Whether no sample has been fed since construction or `reset`: the
    /// step under the cursor has not been entered yet.
    pub fn is_primed(&self) -> (r: bool)
        ensures
            r == self.primed,
    {
        self.primed
    }

    /// Follows a new sample rate. The time accumulated in the current step
    /// is kept, cut to stay short of the new step length.
    pub fn set_sample_rate(&mut self, sample_rate: u32)
        requires
            old(self).wf(),
            sample_rate > 0,
        ensures
            final(self).wf(),
            *final(self) == old(self).with_sample_rate(sample_rate),
    {
        let t: u64 = (sample_rate as u64) * 60;
        if self.accumulated >= t {
            self.accumulated = t - 1;
        }
        self.sample_rate = sample_rate;
    }

    /// The note at the cursor, if its slot holds one.
    pub fn get_current_event(&self) -> (r: Option<NoteEvent>)
        requires
            self.wf(),
        ensures
            r == self.event_at(self.current_step as int),
    {
        self.events[self.current_step]
    }

    /// Writes a note into slot `step`; a step past the end is ignored.
    pub fn set_note_at(&mut self, step: usize, frequency: u32, velocity: u16)
        requires
            old(self).wf(),
            frequency > 0,
            velocity <= VELOCITY_FULL,
        ensures
            final(self).wf(),
            step < old(self).len() ==> *final(self) == (Sequencer {
                events: final(self).events,
                ..*old(self)
            }) && final(self).events@ == old(self).events@.update(
                step as int,
                Some(NoteEvent { frequency, velocity }),
            ),
            step >= old(self).len() ==> *final(self) == *old(self),
    {
        if step < self.events.len() {
            self.events.set(step, Some(NoteEvent { frequency, velocity }));
        }
    }

    /// Empties slot `step`; a step past the end is ignored.
    pub fn clear_step(&mut self, step: usize)
        requires
            old(self).wf(),
        ensures
            final(self).wf(),
            step < old(self).len() ==> *final(self) == (Sequencer {
                events: final(self).events,
                ..*old(self)
            }) && final(self).events@ == old(self).events@.update(step as int, None),
            step >= old(self).len() ==> *final(self) == *old(self),
    {
        if step < self.events.len() {
            self.events.set(step, None);
        }
    }

    /// The slot at `id`, or nothing past the end of the pattern.
    pub fn get_event(&self, id: usize) -> (r: Option<NoteEvent>)
        ensures
            r == self.event_at(id as int),
    {
        if id < self.events.len() {
            self.events[id]
        } else {
            None
        }
    }

    /// Puts the cursor back on the first step with nothing accumulated; the
    /// next sample enters that step again.
    pub fn reset(&mut self)
        requires
            old(self).wf(),
        ensures
            final(self).wf(),
            *final(self) == (Sequencer {
                current_step: 0,
                accumulated: 0,
                primed: true,
                ..*old(self)
            }),
            final(self).is_fresh(
                old(self).bpm,
                old(self).sample_rate,
                old(self).len() as nat,
                old(self).step_division,
            ),
    {
        self.current_step = 0;
        self.accumulated = 0;
        self.primed = true;
    }

    /// Follows a new tempo. The samples accumulated in the current step
    /// are kept (to the nearest tick below), cut to stay short of the new
    /// step length; the cursor does not move.
    pub fn set_bpm(&mut self, bpm: u32)
        requires
            old(self).wf(),
            bpm > 0,
        ensures
            final(self).wf(),
            *final(self) == old(self).with_bpm(bpm),
    {
        let old_w: u128 = tick_rate(self.bpm, self.step_division) as u128;
        let new_w: u128 = tick_rate(bpm, self.step_division) as u128;
        let t: u64 = (self.sample_rate as u64) * 60;
        proof {
            assert((self.accumulated as int) * (new_w as int) <= (u64::MAX as int) * ((u32::MAX as int)
                * 255)) by (nonlinear_arith)
                requires
                    self.accumulated <= u64::MAX,
                    new_w <= (u32::MAX as int) * 255,
            ;
            assert(old_w > 0) by (nonlinear_arith)
                requires
                    old_w == (self.bpm as int) * (self.step_division as int),
                    self.bpm > 0,
                    self.step_division > 0,
            ;
        }
        let scaled: u128 = (self.accumulated as u128) * new_w / old_w;
        if scaled >= t as u128 {
            self.accumulated = t - 1;
        } else {
            self.accumulated = scaled as u64;
        }
        self.bpm = bpm;
    }

    /// The view of every step, in order: the step under the cursor is
    /// `Current`, others are `Filled` when they hold a note and `Empty`
    /// otherwise.
    pub fn step_views(&self) -> (r: Vec<StepView>)
        requires
            self.wf(),
        ensures
            r@.len() == self.len(),
            forall|i: int|
                0 <= i < r@.len() ==> {
                    &&& (#[trigger] r@[i]).cell == if i == self.current_step {
                        StepCell::Current
                    } else if self.events@[i] is Some {
                        StepCell::Filled
                    } else {
                        StepCell::Empty
                    }
                    &&& r@[i].frequency == match self.events@[i] {
                        Some(n) => Some(n.frequency),
                        None => None,
                    }
                },
    {
        let mut out: Vec<StepView> = Vec::with_capacity(self.events.len());
        let mut i: usize = 0;
        while i < self.events.len()
            invariant
                i <= self.events@.len(),
                out@.len() == i,
                forall|j: int|
                    0 <= j < i ==> {
                        &&& (#[trigger] out@[j]).cell == if j == self.current_step {
                            StepCell::Current
                        } else if self.events@[j] is Some {
                            StepCell::Filled
                        } else {
                            StepCell::Empty
                        }
                        &&& out@[j].frequency == match self.events@[j] {
                            Some(n) => Some(n.frequency),
                            None => None,
                        }
                    },
            decreases self.events@.len() - i,
        {
            let event = self.events[i];
            let frequency = match event {
                Some(n) => Some(n.frequency),
                None => None,
            };
            let cell = if i == self.current_step {
                StepCell::Current
            } else if event.is_some() {
                StepCell::Filled
            } else {
                StepCell::Empty
            };
            out.push(StepView { cell, frequency });
            i = i + 1;
        }
        out
    }

    pub fn current_step(&self) -> (r: usize)
        ensures
            r == self.current_step,
    {
        self.current_step
    }

    pub fn pattern_len(&self) -> (r: usize)
        ensures
            r == self.events@.len(),
    {
        self.events.len()
    }
}

/// Advancing never leaves the well-formed states.
pub proof fn lemma_advanced_wf(s: Sequencer, n: nat)
    requires
        s.wf(),
    ensures
        s.advanced(n).wf(),
        s.advanced(n).events == s.events,
{
    lemma_tick_rate_pos(s);
}

proof fn lemma_tick_rate_pos(s: Sequencer)
    requires
        s.wf(),
    ensures
        s.ticks_per_sample() > 0,
        s.ticks_per_step() > 0,
{
    assert((s.bpm as int) * (s.step_division as int) > 0) by (nonlinear_arith)
        requires
            s.bpm > 0,
            s.step_division > 0,
    ;
}

/// Advancing by `a` samples and then by `b` is advancing by `a + b`.
pub proof fn lemma_advanced_compose(s: Sequencer, a: nat, b: nat)
    requires
        s.wf(),
    ensures
        s.advanced(a).advanced(b) == s.advanced(a + b),
{
    lemma_tick_rate_pos(s);
    let t = s.ticks_per_step();
    let w = s.ticks_per_sample();
    let l = s.len();
    let total1 = s.total_after(a);
    let q1 = total1 / t;
    let r1 = total1 % t;
    let mid = s.advanced(a);
    vstd::arithmetic::div_mod::lemma_div_pos_is_pos(total1, t);
    vstd::arithmetic::div_mod::lemma_mod_pos_bound(s.current_step + q1, l);
    assert(mid.current_step == (s.current_step + q1) % l);
    assert(mid.accumulated == r1);
    let total2 = r1 + b * w;
    assert(mid.total_after(b) == total2);
    assert(s.total_after(a + b) == total1 + b * w) by (nonlinear_arith)
        requires
            total1 == s.accumulated + a * w,
            s.total_after(a + b) == s.accumulated + (a + b) * w,
    ;
    vstd::arithmetic::div_mod::lemma_fundamental_div_mod(total1, t);
    assert(s.total_after(a + b) == t * q1 + total2);
    vstd::arithmetic::div_mod::lemma_div_pos_is_pos(total1, t);
    vstd::arithmetic::div_mod::lemma_hoist_over_denominator(total2, q1, t as nat);
    assert(q1 * t == t * q1) by (nonlinear_arith);
    assert(s.total_after(a + b) / t == q1 + total2 / t);
    vstd::arithmetic::div_mod::lemma_mod_multiples_vanish(q1, total2, t);
    assert(s.total_after(a + b) % t == total2 % t);
    vstd::arithmetic::div_mod::lemma_add_mod_noop(s.current_step + q1, total2 / t, l);
    vstd::arithmetic::div_mod::lemma_mod_twice(total2 / t, l);
    vstd::arithmetic::div_mod::lemma_div_pos_is_pos(total2, t);
    vstd::arithmetic::div_mod::lemma_add_mod_noop(s.current_step + q1 + total2 / t, 0, l);
    assert(mid.current_step == (s.current_step + q1) % l);
    assert(((s.current_step + q1) % l + total2 / t) % l == (s.current_step + q1 + total2 / t) % l)
        by {
        vstd::arithmetic::div_mod::lemma_add_mod_noop_right(total2 / t, s.current_step + q1, l);
    }
}

/// Feeding the sequencer one sample at a time, `n` times, lands where a
/// single advance by `n` samples lands. From a fresh start the cursor has
/// then moved `floor(n * bpm * step_division / (sample_rate * 60))` steps,
/// which is `floor(n / samples_per_step)`, and the remainder is what stays
/// accumulated.
pub proof fn lemma_sample_by_sample(s: Sequencer, n: nat)
    requires
        s.wf(),
    ensures
        s.advanced_singly(n) == s.advanced(n),
        s.current_step == 0 && s.accumulated == 0 ==> {
            &&& s.advanced_singly(n).current_step == (n * s.ticks_per_sample() / s.ticks_per_step())
                % s.len()
            &&& s.advanced_singly(n).accumulated == (n * s.ticks_per_sample()) % s.ticks_per_step()
        },
    decreases n,
{
    if n > 0 {
        lemma_advanced_wf(s, 1);
        lemma_sample_by_sample(s.advanced(1), (n - 1) as nat);
        lemma_advanced_compose(s, 1, (n - 1) as nat);
        assert(1 + (n - 1) as nat == n);
    } else {
        lemma_tick_rate_pos(s);
        vstd::arithmetic::div_mod::lemma_basic_div(s.accumulated as int, s.ticks_per_step());
        vstd::arithmetic::div_mod::lemma_small_mod(s.accumulated as nat, s.ticks_per_step() as nat);
        vstd::arithmetic::div_mod::lemma_small_mod(s.current_step as nat, s.len() as nat);
        assert(s.advanced(0) == s);
    }
    lemma_tick_rate_pos(s);
    vstd::arithmetic::div_mod::lemma_div_pos_is_pos(n * s.ticks_per_sample(), s.ticks_per_step());
    vstd::arithmetic::div_mod::lemma_small_mod(0, s.len() as nat);
    assert(0 <= n * s.ticks_per_sample()) by (nonlinear_arith)
        requires
            s.ticks_per_sample() > 0,
    ;
    vstd::arithmetic::div_mod::lemma_div_pos_is_pos(n * s.ticks_per_sample(), s.ticks_per_step());
}

/// A step lasts `sample_rate * 60 / (bpm * step_division)` samples: from a
/// fresh start, `n` samples reach the first boundary exactly when
/// `n * bpm * step_division >= sample_rate * 60`.
pub proof fn lemma_step_length(s: Sequencer, n: nat)
    requires
        s.wf(),
        s.accumulated == 0,
    ensures
        s.crosses(n) <==> n * (s.bpm * s.step_division) >= s.sample_rate * 60,
{
    lemma_tick_rate_pos(s);
    assert(n * (s.bpm * s.step_division) == n * s.ticks_per_sample());
}

/// A tempo change mid-step keeps the cursor where it is, and the next
/// boundary comes within one step at the new tempo: any `n` samples with
/// `n * bpm * step_division >= sample_rate * 60` cross it.
pub proof fn lemma_tempo_change(s: Sequencer, bpm: u32, n: nat)
    requires
        s.wf(),
        bpm > 0,
        n * (bpm * s.step_division) >= s.sample_rate * 60,
    ensures
        s.with_bpm(bpm).wf(),
        s.with_bpm(bpm).current_step == s.current_step,
        s.with_bpm(bpm).events == s.events,
        s.with_bpm(bpm).crosses(n),
{
    lemma_tick_rate_pos(s);
    let t = s.with_bpm(bpm);
    assert(0 <= (s.accumulated as int) * (bpm * s.step_division) / s.ticks_per_sample())
        by (nonlinear_arith)
        requires
            s.ticks_per_sample() > 0,
            s.accumulated >= 0,
            bpm * s.step_division >= 0,
    ;
    assert(t.ticks_per_sample() == bpm * s.step_division);
    assert(n * t.ticks_per_sample() >= t.ticks_per_step());
}

/// When a step lasts at least one sample, feeding `n` samples one at a
/// time reports a boundary exactly `floor((accumulated + n * bpm *
/// step_division) / (sample_rate * 60))` times: from a fresh start, once
/// per whole step length in `n`.
pub proof fn lemma_boundaries_counted(s: Sequencer, n: nat)
    requires
        s.wf(),
        s.ticks_per_sample() <= s.ticks_per_step(),
    ensures
        s.boundaries_singly(n) == s.total_after(n) / s.ticks_per_step(),
    decreases n,
{
    lemma_tick_rate_pos(s);
    let t = s.ticks_per_step();
    let w = s.ticks_per_sample();
    if n == 0 {
        vstd::arithmetic::div_mod::lemma_basic_div(s.accumulated as int, t);
    } else {
        lemma_advanced_wf(s, 1);
        let m = (n - 1) as nat;
        let s1 = s.advanced(1);
        lemma_boundaries_counted(s1, m);
        let total1 = s.total_after(1);
        assert(total1 == s.accumulated + w);
        if total1 >= t {
            vstd::arithmetic::div_mod::lemma_fundamental_div_mod_converse(total1, t, 1, total1 - t);
        } else {
            vstd::arithmetic::div_mod::lemma_basic_div(total1, t);
        }
        let q1 = total1 / t;
        assert(s1.accumulated == total1 % t);
        assert(s.total_after(n) == total1 + m * w) by (nonlinear_arith)
            requires
                s.total_after(n) == s.accumulated + n * w,
                total1 == s.accumulated + w,
                m == n - 1,
        ;
        vstd::arithmetic::div_mod::lemma_fundamental_div_mod(total1, t);
        assert(s1.total_after(m) == total1 % t + m * w);
        let r = s1.total_after(m);
        assert(s.total_after(n) == t * q1 + r);
        vstd::arithmetic::div_mod::lemma_hoist_over_denominator(r, q1, t as nat);
        assert(q1 * t == t * q1) by (nonlinear_arith);
    }
}

/// When a step lasts at least one sample, the first boundary reached after
/// any point (such as a tempo change) moves the cursor exactly one step on:
/// if `n - 1` samples cross nothing and `n` samples do, the cursor lands on
/// the next step.
pub proof fn lemma_first_boundary_one_step(s: Sequencer, n: nat)
    requires
        s.wf(),
        s.ticks_per_sample() <= s.ticks_per_step(),
        n > 0,
        !s.crosses((n - 1) as nat),
        s.crosses(n),
    ensures
        s.advanced(n).current_step == (s.current_step + 1) % s.len(),
{
    lemma_tick_rate_pos(s);
    let t = s.ticks_per_step();
    let tot = s.total_after(n);
    assert(tot == s.total_after((n - 1) as nat) + s.ticks_per_sample()) by (nonlinear_arith)
        requires
            tot == s.accumulated + n * s.ticks_per_sample(),
            s.total_after((n - 1) as nat) == s.accumulated + (n - 1) * s.ticks_per_sample(),
    ;
    vstd::arithmetic::div_mod::lemma_fundamental_div_mod_converse(tot, t, 1, tot - t);
}

/// Two fresh sequencers at the same parameters with the same pattern go
/// through the same states and report the same boundaries and events for
/// any stretch of samples; `reset` yields such a state, as `new` does.
pub proof fn lemma_reset_replays_fresh(
    a: Sequencer,
    b: Sequencer,
    bpm: u32,
    sample_rate: u32,
    length: nat,
    step_division: u8,
    n: nat,
)
    requires
        a.is_fresh(bpm, sample_rate, length, step_division),
        b.is_fresh(bpm, sample_rate, length, step_division),
        a.events@ == b.events@,
    ensures
        a.advanced(n).current_step == b.advanced(n).current_step,
        a.advanced(n).accumulated == b.advanced(n).accumulated,
        a.crosses(n) == b.crosses(n),
        a.advanced(n).primed == b.advanced(n).primed,
        a.advanced(n).event_at(a.advanced(n).current_step as int) == b.advanced(n).event_at(
            b.advanced(n).current_step as int,
        ),
{
}

/// A note written at step `k` is the event seen once single-sample
/// advances bring the cursor to `k`; after that step is cleared, reaching
/// `k` again the same way shows no event.
pub proof fn lemma_note_round_trip(
    s0: Sequencer,
    s1: Sequencer,
    s2: Sequencer,
    k: int,
    note: NoteEvent,
    n: nat,
    m: nat,
)
    requires
        s0.wf(),
        0 <= k < s0.len(),
        s1 == (Sequencer { events: s1.events, ..s0 }),
        s1.events@ == s0.events@.update(k, Some(note)),
        s1.advanced_singly(n).current_step == k,
        s2 == (Sequencer { events: s2.events, ..s1.advanced_singly(n) }),
        s2.events@ == s1.events@.update(k, None),
        s2.advanced_singly(m).current_step == k,
    ensures
        s1.advanced_singly(n).event_at(s1.advanced_singly(n).current_step as int) == Some(note),
        s2.advanced_singly(m).event_at(s2.advanced_singly(m).current_step as int) == None::<
            NoteEvent,
        >,
{
    lemma_sample_by_sample(s1, n);
    lemma_advanced_wf(s1, n);
    lemma_sample_by_sample(s2, m);
}

/// `bpm * step_division`: the ticks one sample adds.
fn tick_rate(bpm: u32, step_division: u8) -> (r: u64)
    ensures
        r == bpm * step_division,
        r <= (u32::MAX as int) * 255,
        bpm > 0 && step_division > 0 ==> r > 0,
{
    proof {
        assert((bpm as int) * (step_division as int) <= (u32::MAX as int) * 255)
            by (nonlinear_arith)
            requires
                step_division <= 255,
                bpm <= u32::MAX,
        ;
        assert(bpm > 0 && step_division > 0 ==> (bpm as int) * (step_division as int) > 0)
            by (nonlinear_arith);
    }
    (bpm as u64) * (step_division as u64)
}

/// Ticks kept when the tick rate per sample changes from `old_rate` to
/// `new_rate`: the same number of samples, rounded down, and short of `span`.
pub open spec fn kept_ticks(acc: int, old_rate: int, new_rate: int, span: int) -> int {
    let scaled = acc * new_rate / old_rate;
    if scaled >= span {
        span - 1
    } else {
        scaled
    }
}

} // verus!
