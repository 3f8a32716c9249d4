//! Envelopes and oscillators.
use vstd::prelude::*;

verus! {

/// Unity level: envelope levels run from 0 (silence) to `LEVEL_ONE` (full).
pub const LEVEL_ONE: u32 = 65536;

/// A stage that turns one input value into one output value per sample.
pub trait Processor {
    type Input;

    type Output;

    fn process(&mut self, input: Self::Input) -> Self::Output;
}

/// The shape an oscillator draws over one cycle.
#[derive(Clone, Copy, Debug, PartialEq, Eq, Structural)]
pub enum WaveType {
    Sine,
    Square,
    Triangle,
    Saw,
}

/// The role a device plays in a track's chain.
#[derive(Clone, Copy, Debug, PartialEq, Eq, Structural)]
pub enum DeviceType {
    Fx,
    Synth,
    Analyzer,
}

/// The segment an ADSR envelope is in.
#[derive(Clone, Copy, Debug, PartialEq, Eq, Structural)]
pub enum EnvelopeState {
    Attack,
    Decay,
    Sustain,
    Release,
    Idle,
}

/// `part / whole` of `span`, with the ratio clamped to one; a segment of
/// length zero counts as already complete.
pub open spec fn portion(span: int, part: int, whole: int) -> int {
    if whole == 0 || part >= whole {
        span
    } else {
        span * part / whole
    }
}

/// ADSR amplitude shaper. `attack`, `decay` and `release` are lengths in
/// samples, `sustain` and `current_level` are levels on the `LEVEL_ONE`
/// scale, and `phase` counts the samples spent in the current segment.
#[derive(Clone, Copy, Debug)]
pub struct Envelope {
    pub attack: u64,
    pub decay: u64,
    pub sustain: u32,
    pub release: u64,
    pub phase: u64,
    pub sample_rate: u32,
    pub state: EnvelopeState,
    pub current_level: u32,
}

impl Envelope {
    pub open spec fn wf(&self) -> bool {
        &&& self.sustain <= LEVEL_ONE
        &&& self.current_level <= LEVEL_ONE
        &&& self.phase < u64::MAX
    }

    /// The amplitude the envelope emits for the next sample.
    pub open spec fn amp(&self) -> int {
        match self.state {
            EnvelopeState::Attack => self.current_level + portion(
                LEVEL_ONE - self.current_level,
                self.phase as int,
                self.attack as int,
            ),
            EnvelopeState::Decay => LEVEL_ONE - portion(
                LEVEL_ONE - self.sustain,
                self.phase as int,
                self.decay as int,
            ),
            EnvelopeState::Sustain => self.sustain as int,
            EnvelopeState::Release => self.sustain - portion(
                self.sustain as int,
                self.phase as int,
                self.release as int,
            ),
            EnvelopeState::Idle => 0,
        }
    }

    /// The envelope after it has emitted one sample.
    pub open spec fn stepped(&self) -> Envelope {
        let level = self.amp() as u32;
        let next = (self.phase + 1) as u64;
        match self.state {
            EnvelopeState::Attack => if next >= self.attack {
                Envelope { state: EnvelopeState::Decay, phase: 0, current_level: level, ..*self }
            } else {
                Envelope { phase: next, current_level: level, ..*self }
            },
            EnvelopeState::Decay => if next >= self.decay {
                Envelope { state: EnvelopeState::Sustain, phase: 0, current_level: level, ..*self }
            } else {
                Envelope { phase: next, current_level: level, ..*self }
            },
            EnvelopeState::Sustain => Envelope { current_level: level, ..*self },
            EnvelopeState::Release => if next >= self.release {
                Envelope { state: EnvelopeState::Idle, phase: 0, current_level: level, ..*self }
            } else {
                Envelope { phase: next, current_level: level, ..*self }
            },
            EnvelopeState::Idle => Envelope { phase: 0, current_level: level, ..*self },
        }
    }

    pub open spec fn spec_is_active(&self) -> bool {
        self.state == EnvelopeState::Attack || self.state == EnvelopeState::Decay || self.state
            == EnvelopeState::Sustain
    }

    /// Builds an idle envelope; segment lengths are given in milliseconds and
    /// held as sample counts at `sample_rate`.
    pub fn new(
        attack_ms: u32,
        decay_ms: u32,
        sustain: u32,
        release_ms: u32,
        sample_rate: u32,
    ) -> (r: Envelope)
        requires
            sustain <= LEVEL_ONE,
        ensures
            r.wf(),
            r.attack == attack_ms * sample_rate / 1000,
            r.decay == decay_ms * sample_rate / 1000,
            r.release == release_ms * sample_rate / 1000,
            r.sustain == sustain,
            r.sample_rate == sample_rate,
            r.phase == 0,
            r.state == EnvelopeState::Idle,
            r.current_level == 0,
    {
        Envelope {
            attack: ms_to_samples(attack_ms, sample_rate),
            decay: ms_to_samples(decay_ms, sample_rate),
            sustain,
            release: ms_to_samples(release_ms, sample_rate),
            phase: 0,
            sample_rate,
            state: EnvelopeState::Idle,
            current_level: 0,
        }
    }

    /// Enters the attack segment from its beginning.
    pub fn start(&mut self)
        ensures
            *final(self) == (Envelope { state: EnvelopeState::Attack, phase: 0, ..*old(self) }),
    {
        self.state = EnvelopeState::Attack;
        self.phase = 0;
    }

    pub fn is_idle(&self) -> (r: bool)
        ensures
            r == (self.state == EnvelopeState::Idle),
    {
        self.state == EnvelopeState::Idle
    }

    /// Moves an active envelope into its release segment; a releasing or
    /// idle envelope is left as it is.
    pub fn stop(&mut self)
        ensures
            old(self).spec_is_active() ==> *final(self) == (Envelope {
                state: EnvelopeState::Release,
                phase: 0,
                ..*old(self)
            }),
            !old(self).spec_is_active() ==> *final(self) == *old(self),
    {
        if self.is_active() {
            self.state = EnvelopeState::Release;
            self.phase = 0;
        }
    }

    pub fn get_state(&self) -> (r: EnvelopeState)
        ensures
            r == self.state,
    {
        self.state
    }

    pub fn is_active(&self) -> (r: bool)
        ensures
            r == self.spec_is_active(),
    {
        match self.state {
            EnvelopeState::Attack | EnvelopeState::Decay | EnvelopeState::Sustain => true,
            _ => false,
        }
    }

    /// Emits the amplitude for one sample and moves the envelope on.
    pub fn next_level(&mut self) -> (r: u32)
        requires
            old(self).wf(),
        ensures
            r == old(self).amp(),
            r <= LEVEL_ONE,
            *final(self) == old(self).stepped(),
            final(self).wf(),
    {
        let amp: u32 = match self.state {
            EnvelopeState::Attack => self.current_level + scaled(
                LEVEL_ONE - self.current_level,
                self.phase,
                self.attack,
            ),
            EnvelopeState::Decay => LEVEL_ONE - scaled(LEVEL_ONE - self.sustain, self.phase, self.decay),
            EnvelopeState::Sustain => self.sustain,
            EnvelopeState::Release => self.sustain - scaled(self.sustain, self.phase, self.release),
            EnvelopeState::Idle => 0,
        };
        let next: u64 = self.phase + 1;
        match self.state {
            EnvelopeState::Attack => {
                if next >= self.attack {
                    self.state = EnvelopeState::Decay;
                    self.phase = 0;
                } else {
                    self.phase = next;
                }
            },
            EnvelopeState::Decay => {
                if next >= self.decay {
                    self.state = EnvelopeState::Sustain;
                    self.phase = 0;
                } else {
                    self.phase = next;
                }
            },
            EnvelopeState::Sustain => {},
            EnvelopeState::Release => {
                if next >= self.release {
                    self.state = EnvelopeState::Idle;
                    self.phase = 0;
                } else {
                    self.phase = next;
                }
            },
            EnvelopeState::Idle => {
                self.phase = 0;
            },
        }
        self.current_level = amp;
        amp
    }
}

impl Processor for Envelope {
    type Input = u32;

    type Output = u32;

    /// Scales a gain on the `LEVEL_ONE` scale by the envelope's amplitude
    /// for this sample.
    fn process(&mut self, input: u32) -> (r: u32)
        ensures
            old(self).wf() ==> r == (input as int) * old(self).amp() / (LEVEL_ONE as int)
                && *final(self) == old(self).stepped(),
            !old(self).wf() ==> r == 0 && *final(self) == *old(self),
            r <= input,
    {
        // A trait method states no precondition: an envelope whose levels
        // are out of range gives silence and is left as it is.
        if self.sustain <= LEVEL_ONE && self.current_level <= LEVEL_ONE && self.phase < u64::MAX {
            let amp = self.next_level();
            proof {
                assert((input as int) * (amp as int) <= (input as int) * (LEVEL_ONE as int))
                    by (nonlinear_arith)
                    requires
                        amp <= LEVEL_ONE,
                ;
                assert((input as int) * (amp as int) / (LEVEL_ONE as int) <= input as int)
                    by (nonlinear_arith)
                    requires
                        (input as int) * (amp as int) <= (input as int) * (LEVEL_ONE as int),
                ;
            }
            ((input as u64) * (amp as u64) / (LEVEL_ONE as u64)) as u32
        } else {
            0
        }
    }
}

/// One cycle of an oscillator spans `CYCLE` units of phase.
pub const CYCLE: u64 = 4294967296;

/// Phase units added per sample by a tone of `frequency` millihertz at
/// `sample_rate` samples per second.
pub open spec fn phase_increment(frequency: int, sample_rate: int) -> int {
    frequency * CYCLE / (sample_rate * 1000)
}

/// What an oscillator hands out for one sample: the shape to draw, the
/// position in its cycle (`phase / CYCLE`) and the envelope level on the
/// `LEVEL_ONE` scale. The sample value is `shape(wave, phase) * level`.
#[derive(Clone, Copy, Debug, PartialEq, Eq, Structural)]
pub struct Tone {
    pub wave: WaveType,
    pub phase: u32,
    pub level: u32,
}

/// Phase-accumulating oscillator with an attached envelope. `frequency` is
/// in millihertz and `phase / CYCLE` is the position in the current cycle.
#[derive(Clone, Copy, Debug)]
pub struct PrimitiveWave {
    pub wave_type: WaveType,
    pub sample_rate: u32,
    pub phase: u32,
    pub frequency: u32,
    pub envelope: Envelope,
}

impl PrimitiveWave {
    pub open spec fn wf(&self) -> bool {
        &&& self.sample_rate > 0
        &&& self.envelope.wf()
    }

    /// The oscillator after `set_sample_rate(sample_rate)`.
    pub open spec fn with_sample_rate(&self, sample_rate: u32) -> PrimitiveWave {
        PrimitiveWave { sample_rate, ..*self }
    }

    /// The oscillator after `note_on(frequency)`.
    pub open spec fn with_note_on(&self, frequency: u32) -> PrimitiveWave {
        PrimitiveWave {
            frequency,
            envelope: Envelope { state: EnvelopeState::Attack, phase: 0, ..self.envelope },
            ..*self
        }
    }

    /// The oscillator after `note_off()`.
    pub open spec fn with_note_off(&self) -> PrimitiveWave {
        if self.envelope.spec_is_active() {
            PrimitiveWave {
                envelope: Envelope { state: EnvelopeState::Release, phase: 0, ..self.envelope },
                ..*self
            }
        } else {
            *self
        }
    }

    /// The tone handed out for the next sample.
    pub open spec fn tone(&self) -> Tone {
        Tone { wave: self.wave_type, phase: self.phase, level: self.envelope.amp() as u32 }
    }

    /// The oscillator after it has handed out one sample.
    pub open spec fn stepped(&self) -> PrimitiveWave {
        PrimitiveWave { phase: self.next_phase(), envelope: self.envelope.stepped(), ..*self }
    }

    /// The phase one sample later, wrapped into one cycle.
    pub open spec fn next_phase(&self) -> u32 {
        ((self.phase + phase_increment(self.frequency as int, self.sample_rate as int)) % (
        CYCLE as int)) as u32
    }

    pub fn new(frequency: u32, wave_type: WaveType, sample_rate: u32, envelope: Envelope) -> (r:
        PrimitiveWave)
        requires
            sample_rate > 0,
            envelope.wf(),
        ensures
            r.wf(),
            r == (PrimitiveWave { wave_type, sample_rate, phase: 0, frequency, envelope }),
    {
        PrimitiveWave { wave_type, sample_rate, phase: 0, frequency, envelope }
    }

    /// Moves the phase on by one sample's worth of the current frequency.
    pub fn advance_phase(&mut self)
        requires
            old(self).sample_rate > 0,
        ensures
            *final(self) == (PrimitiveWave { phase: old(self).next_phase(), ..*old(self) }),
    {
        proof {
            assert((self.frequency as int) * (CYCLE as int) < (CYCLE as int) * (CYCLE as int))
                by (nonlinear_arith)
                requires
                    self.frequency < CYCLE,
            ;
            assert((self.frequency as int) * (CYCLE as int) / ((self.sample_rate as int) * 1000)
                <= (self.frequency as int) * (CYCLE as int)) by (nonlinear_arith)
                requires
                    self.sample_rate > 0,
                    self.frequency >= 0,
            ;
        }
        let step: u64 = (self.frequency as u64) * CYCLE / ((self.sample_rate as u64) * 1000);
        let wrapped: u64 = ((self.phase as u64) + (step % CYCLE)) % CYCLE;
        proof {
            let p = self.phase as int;
            let st = step as int;
            let c = CYCLE as int;
            assert((p + st % c) % c == (p + st) % c) by {
                vstd::arithmetic::div_mod::lemma_add_mod_noop(p, st, c);
                vstd::arithmetic::div_mod::lemma_mod_twice(p, c);
                vstd::arithmetic::div_mod::lemma_small_mod(p as nat, c as nat);
            }
        }
        self.phase = wrapped as u32;
    }

    /// Hands out the tone for one sample, then moves the phase and the
    /// envelope on.
    pub fn process(&mut self) -> (r: Tone)
        requires
            old(self).wf(),
        ensures
            r == old(self).tone(),
            r.level == old(self).envelope.amp(),
            r.level <= LEVEL_ONE,
            *final(self) == old(self).stepped(),
            final(self).wf(),
    {
        let phase = self.phase;
        self.advance_phase();
        let level = self.envelope.next_level();
        Tone { wave: self.wave_type, phase, level }
    }

    /// Retunes to `frequency` millihertz and restarts the envelope.
    pub fn note_on(&mut self, frequency: u32)
        ensures
            *final(self) == old(self).with_note_on(frequency),
    {
        self.frequency = frequency;
        self.envelope.start();
    }

    /// Sends the envelope into its release segment.
    pub fn note_off(&mut self)
        ensures
            *final(self) == old(self).with_note_off(),
    {
        self.envelope.stop();
    }

    pub fn get_envelope(&self) -> (r: &Envelope)
        ensures
            *r == self.envelope,
    {
        &self.envelope
    }

    pub fn get_phase(&self) -> (r: u32)
        ensures
            r == self.phase,
    {
        self.phase
    }

    /// Follows a new sample rate; the phase is kept.
    pub fn set_sample_rate(&mut self, sample_rate: u32)
        requires
            sample_rate > 0,
        ensures
            *final(self) == old(self).with_sample_rate(sample_rate),
    {
        self.sample_rate = sample_rate;
    }
}

/// Number of whole samples in `ms` milliseconds at `sample_rate`.
fn ms_to_samples(ms: u32, sample_rate: u32) -> (r: u64)
    ensures
        r == ms * sample_rate / 1000,
{
    proof {
        assert((ms as int) * (sample_rate as int) <= (u32::MAX as int) * (u32::MAX as int))
            by (nonlinear_arith);
    }
    (ms as u64) * (sample_rate as u64) / 1000
}

/// `span * part / whole` with the ratio clamped to one.
fn scaled(span: u32, part: u64, whole: u64) -> (r: u32)
    requires
        span <= LEVEL_ONE,
    ensures
        r == portion(span as int, part as int, whole as int),
        r <= span,
{
    if whole == 0 || part >= whole {
        span
    } else {
        proof {
            assert((span as int) * (part as int) <= (span as int) * (whole as int))
                by (nonlinear_arith)
                requires
                    part < whole,
            ;
            assert((span as int) * (part as int) / (whole as int) <= span as int)
                by (nonlinear_arith)
                requires
                    part < whole,
                    whole > 0,
            ;
            assert((span as int) * (part as int) <= (LEVEL_ONE as int) * (u64::MAX as int))
                by (nonlinear_arith)
                requires
                    span <= LEVEL_ONE,
            ;
        }
        ((span as u128) * (part as u128) / (whole as u128)) as u32
    }
}

/// Every level an envelope emits lies between silence and unity, in every
/// segment, so an oscillator's output never exceeds its waveform's peak.
pub proof fn lemma_level_bounded(e: Envelope)
    requires
        e.wf(),
    ensures
        0 <= e.amp() <= LEVEL_ONE,
        e.stepped().wf(),
{
    let p = e.phase as int;
    if e.attack > 0 && p < e.attack {
        assert((LEVEL_ONE - e.current_level) * p / (e.attack as int) <= LEVEL_ONE - e.current_level)
            by (nonlinear_arith)
            requires
                0 <= p < e.attack,
                e.current_level <= LEVEL_ONE,
        ;
        assert(0 <= (LEVEL_ONE - e.current_level) * p / (e.attack as int)) by (nonlinear_arith)
            requires
                0 <= p,
                e.attack > 0,
                e.current_level <= LEVEL_ONE,
        ;
    }
    if e.decay > 0 && p < e.decay {
        assert((LEVEL_ONE - e.sustain) * p / (e.decay as int) <= LEVEL_ONE - e.sustain)
            by (nonlinear_arith)
            requires
                0 <= p < e.decay,
                e.sustain <= LEVEL_ONE,
        ;
        assert(0 <= (LEVEL_ONE - e.sustain) * p / (e.decay as int)) by (nonlinear_arith)
            requires
                0 <= p,
                e.decay > 0,
                e.sustain <= LEVEL_ONE,
        ;
    }
    if e.release > 0 && p < e.release {
        assert((e.sustain as int) * p / (e.release as int) <= e.sustain) by (nonlinear_arith)
            requires
                0 <= p < e.release,
        ;
        assert(0 <= (e.sustain as int) * p / (e.release as int)) by (nonlinear_arith)
            requires
                0 <= p,
                e.release > 0,
        ;
    }
}

/// An oscillator whose envelope is held in sustain at unity hands out
/// every sample at unity level, whatever its phase, and stays there.
pub proof fn lemma_full_sustain(w: PrimitiveWave)
    requires
        w.wf(),
        w.envelope.state == EnvelopeState::Sustain,
        w.envelope.sustain == LEVEL_ONE,
    ensures
        w.tone().level == LEVEL_ONE,
        w.stepped().envelope.state == EnvelopeState::Sustain,
        w.stepped().envelope.sustain == LEVEL_ONE,
        w.stepped().wf(),
{
}

} // verus!
