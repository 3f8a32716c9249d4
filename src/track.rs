//! A track: one step sequencer driving one optional instrument.
use vstd::prelude::*;
use crate::generators::{PrimitiveWave, Tone};
use crate::sequencer::{NoteEvent, Sequencer, VELOCITY_FULL};

verus! {

/// Everything needed to draw one sample of a track: the oscillator's tone,
/// the velocity of the sounding note (full when none sounds) in thousandths
/// and the track volume in percent. The sample value is
/// `shape(tone) * tone.level / LEVEL_ONE * velocity / 1000 * volume / 100`.
#[derive(Clone, Copy, Debug, PartialEq, Eq, Structural)]
pub struct Voice {
    pub tone: Tone,
    pub velocity: u16,
    pub volume: u32,
}

/// One sequencer, one optional instrument and a gain in percent.
#[derive(Debug)]
pub struct Track {
    pub sample_rate: u32,
    pub volume: u32,
    pub name: String,
    pub sequencer: Sequencer,
    pub current_note: Option<NoteEvent>,
    pub bpm: u32,
    pub instrument: Option<PrimitiveWave>,
}

impl Track {
    pub open spec fn wf(&self) -> bool {
        &&& self.sequencer.wf()
        &&& self.bpm == self.sequencer.bpm
        &&& self.sample_rate == self.sequencer.sample_rate
        &&& match self.instrument {
            Some(i) => i.wf(),
            None => true,
        }
    }

    /// The track after entering the step under the cursor: a note there
    /// starts on the instrument and becomes the sounding note, while an
    /// empty step releases the instrument and leaves no sounding note.
    pub open spec fn cued(&self) -> Track {
        match self.sequencer.event_at(self.sequencer.current_step as int) {
            Some(note) => Track {
                current_note: Some(note),
                instrument: match self.instrument {
                    Some(i) => Some(i.with_note_on(note.frequency)),
                    None => None,
                },
                ..*self
            },
            None => Track {
                current_note: None,
                instrument: match self.instrument {
                    Some(i) => Some(i.with_note_off()),
                    None => None,
                },
                ..*self
            },
        }
    }

    /// The track after moving the sequencer one sample on and, when that
    /// sample crossed a boundary or is the first since construction or
    /// `reset`, entering the step now under the cursor.
    pub open spec fn triggered(&self) -> Track {
        let moved = Track { sequencer: self.sequencer.advanced(1), ..*self };
        if self.sequencer.primed || self.sequencer.crosses(1) {
            moved.cued()
        } else {
            moved
        }
    }

    /// The voice the track hands out for its next sample, with no
    /// sequencer movement; silence without an instrument.
    pub open spec fn voice(&self) -> Option<Voice> {
        match self.instrument {
            Some(i) => Some(
                Voice {
                    tone: i.tone(),
                    velocity: match self.current_note {
                        Some(n) => n.velocity,
                        None => VELOCITY_FULL,
                    },
                    volume: self.volume,
                },
            ),
            None => None,
        }
    }

    /// The track after its instrument has handed out one sample.
    pub open spec fn sounded(&self) -> Track {
        match self.instrument {
            Some(i) => Track { instrument: Some(i.stepped()), ..*self },
            None => *self,
        }
    }

    /// The track after `set_bpm(bpm)`.
    pub open spec fn with_bpm(&self, bpm: u32) -> Track {
        Track { bpm, sequencer: self.sequencer.with_bpm(bpm), ..*self }
    }

    /// The track after `set_sample_rate(sample_rate)`.
    pub open spec fn with_sample_rate(&self, sample_rate: u32) -> Track {
        Track {
            sample_rate,
            sequencer: self.sequencer.with_sample_rate(sample_rate),
            instrument: match self.instrument {
                Some(i) => Some(i.with_sample_rate(sample_rate)),
                None => None,
            },
            ..*self
        }
    }

    /// The track after one whole sample: sequencer, triggering, sound.
    pub open spec fn stepped(&self) -> Track {
        self.triggered().sounded()
    }

    /// The track after `n` samples.
    pub open spec fn after_block(&self, n: nat) -> Track
        decreases n,
    {
        if n == 0 {
            *self
        } else {
            self.after_block((n - 1) as nat).stepped()
        }
    }

    /// The voices of the next `n` samples.
    pub open spec fn block(&self, n: nat) -> Seq<Option<Voice>>
        decreases n,
    {
        if n == 0 {
            Seq::empty()
        } else {
            self.block((n - 1) as nat).push(self.after_block((n - 1) as nat).triggered().voice())
        }
    }

    /// A silent track with an empty pattern of `length` steps.
    pub fn new(
        volume: u32,
        name: String,
        sample_rate: u32,
        bpm: u32,
        length: usize,
        step_division: u8,
    ) -> (r: Track)
        requires
            sample_rate > 0,
            bpm > 0,
            length > 0,
            step_division > 0,
        ensures
            r.wf(),
            r.volume == volume,
            r.name@ == name@,
            r.sample_rate == sample_rate,
            r.bpm == bpm,
            r.current_note == None::<NoteEvent>,
            r.instrument == None::<PrimitiveWave>,
            r.sequencer.is_fresh(bpm, sample_rate, length as nat, step_division),
            forall|i: int| 0 <= i < length ==> r.sequencer.events@[i] == None::<NoteEvent>,
    {
        Track {
            sample_rate,
            volume,
            name,
            instrument: None,
            sequencer: Sequencer::new(bpm, sample_rate, length, step_division),
            current_note: None,
            bpm,
        }
    }

    /// Puts `instrument` in the track's chain, replacing any earlier one.
    pub fn set_instrument(&mut self, instrument: PrimitiveWave)
        requires
            old(self).wf(),
            instrument.wf(),
        ensures
            final(self).wf(),
            *final(self) == (Track { instrument: Some(instrument), ..*old(self) }),
    {
        self.instrument = Some(instrument);
    }

    pub fn get_current_note(&self) -> (r: Option<NoteEvent>)
        ensures
            r == self.current_note,
    {
        self.current_note
    }

    pub fn get_name(&self) -> (r: &str)
        ensures
            r@ == self.name@,
    {
        self.name.as_str()
    }

    pub fn get_volume(&self) -> (r: u32)
        ensures
            r == self.volume,
    {
        self.volume
    }

    /// The voices of the next `num_samples` samples, one sample at a time.
    pub fn process_block(&mut self, num_samples: usize) -> (r: Vec<Option<Voice>>)
        requires
            old(self).wf(),
        ensures
            r@.len() == num_samples,
            r@ == old(self).block(num_samples as nat),
            *final(self) == old(self).after_block(num_samples as nat),
            final(self).wf(),
            final(self).bpm == old(self).bpm,
            final(self).volume == old(self).volume,
            final(self).name == old(self).name,
            final(self).sample_rate == old(self).sample_rate,
    {
        let mut output: Vec<Option<Voice>> = Vec::with_capacity(num_samples);
        let mut i: usize = 0;
        while i < num_samples
            invariant
                i <= num_samples,
                self.wf(),
                output@ == old(self).block(i as nat),
                *self == old(self).after_block(i as nat),
                self.bpm == old(self).bpm,
                self.volume == old(self).volume,
                self.name == old(self).name,
                self.sample_rate == old(self).sample_rate,
            decreases num_samples - i,
        {
            let v = self.get_output();
            output.push(v);
            i = i + 1;
        }
        proof {
            lemma_block_len(*old(self), num_samples as nat);
        }
        output
    }

    /// Moves the sequencer one sample on, enters the new step when a
    /// boundary was crossed (or on the first sample after construction or
    /// `reset`), and hands out the voice for that sample.
    pub fn get_output(&mut self) -> (r: Option<Voice>)
        requires
            old(self).wf(),
        ensures
            r == old(self).triggered().voice(),
            *final(self) == old(self).stepped(),
            final(self).wf(),
    {
        proof {
            crate::sequencer::lemma_advanced_wf(self.sequencer, 1);
        }
        let first = self.sequencer.is_primed();
        let crossed = self.sequencer.process(1);
        if first || crossed {
            match self.sequencer.get_current_event() {
                Some(note) => self.trigger_note(note),
                None => {
                    self.current_note = None;
                    match &mut self.instrument {
                        Some(i) => i.note_off(),
                        None => {},
                    }
                },
            }
        }
        self.genrate_sample()
    }

    /// Lends out the track's sequencer, to edit its pattern.
    pub fn sequencer_mut(&mut self) -> (r: &mut Sequencer)
        ensures
            *r == old(self).sequencer,
            *final(self) == (Track { sequencer: *final(r), ..*old(self) }),
    {
        &mut self.sequencer
    }

    /// Starts `note` on the instrument and makes it the sounding note.
    pub fn trigger_note(&mut self, note: NoteEvent)
        ensures
            *final(self) == (Track {
                current_note: Some(note),
                instrument: match old(self).instrument {
                    Some(i) => Some(i.with_note_on(note.frequency)),
                    None => None,
                },
                ..*old(self)
            }),
    {
        self.current_note = Some(note);
        match &mut self.instrument {
            Some(i) => i.note_on(note.frequency),
            None => {},
        }
    }

    /// Hands out the voice for one sample and moves the instrument on.
    pub fn genrate_sample(&mut self) -> (r: Option<Voice>)
        requires
            old(self).wf(),
        ensures
            r == old(self).voice(),
            *final(self) == old(self).sounded(),
            final(self).wf(),
    {
        let velocity: u16 = match self.current_note {
            Some(n) => n.velocity,
            None => VELOCITY_FULL,
        };
        let volume = self.volume;
        match &mut self.instrument {
            Some(i) => {
                let tone = i.process();
                Some(Voice { tone, velocity, volume })
            },
            None => None,
        }
    }

    /// Lowers the volume by `amount` percent, stopping at zero.
    pub fn decrease_volume(&mut self, amount: u32)
        ensures
            *final(self) == (Track {
                volume: if old(self).volume >= amount {
                    (old(self).volume - amount) as u32
                } else {
                    0
                },
                ..*old(self)
            }),
    {
        if self.volume >= amount {
            self.volume = self.volume - amount;
        } else {
            self.volume = 0;
        }
    }

    /// Raises the volume by `amount` percent, stopping at the largest value
    /// the field holds.
    pub fn increse_volume(&mut self, amount: u32)
        ensures
            *final(self) == (Track {
                volume: if old(self).volume + amount <= u32::MAX {
                    (old(self).volume + amount) as u32
                } else {
                    u32::MAX
                },
                ..*old(self)
            }),
    {
        self.volume = self.volume.saturating_add(amount);
    }

    /// Follows a new tempo, down to the sequencer.
    pub fn set_bpm(&mut self, bpm: u32)
        requires
            old(self).wf(),
            bpm > 0,
        ensures
            final(self).wf(),
            *final(self) == old(self).with_bpm(bpm),
    {
        self.bpm = bpm;
        self.sequencer.set_bpm(bpm);
    }

    /// Follows a new sample rate, down to the sequencer and the instrument.
    pub fn set_sample_rate(&mut self, sample_rate: u32)
        requires
            old(self).wf(),
            sample_rate > 0,
        ensures
            final(self).wf(),
            *final(self) == old(self).with_sample_rate(sample_rate),
    {
        self.sample_rate = sample_rate;
        self.sequencer.set_sample_rate(sample_rate);
        match &mut self.instrument {
            Some(i) => i.set_sample_rate(sample_rate),
            None => {},
        }
    }

    pub fn rename(&mut self, new_name: String)
        ensures
            *final(self) == (Track { name: new_name, ..*old(self) }),
    {
        self.name = new_name;
    }
}

proof fn lemma_block_len(t: Track, n: nat)
    ensures
        t.block(n).len() == n,
    decreases n,
{
    if n > 0 {
        lemma_block_len(t, (n - 1) as nat);
    }
}

/// A track without an instrument hands out silence on every sample and
/// stays without one.
pub proof fn lemma_silent_without_instrument(t: Track, n: nat)
    requires
        t.instrument is None,
    ensures
        t.after_block(n).instrument is None,
        forall|i: int| 0 <= i < n ==> #[trigger] t.block(n)[i] is None,
    decreases n,
{
    if n > 0 {
        lemma_silent_without_instrument(t, (n - 1) as nat);
        lemma_block_len(t, (n - 1) as nat);
        assert forall|i: int| 0 <= i < n implies #[trigger] t.block(n)[i] is None by {
            if i < n - 1 {
                assert(t.block(n)[i] == t.block((n - 1) as nat)[i]);
            }
        }
    }
}

} // verus!
