//! The mixer: tracks under stable ids, a render order and a selection.
use vstd::prelude::*;
use std::collections::HashMap;
use crate::generators::{Envelope, PrimitiveWave, WaveType, LEVEL_ONE};
use crate::track::{Track, Voice};
use crate::control::{command_for, spec_command_for, Command, Key};

verus! {

broadcast use vstd::std_specs::hash::group_hash_axioms;

/// Largest master volume, in percent.
pub const MASTER_MAX: u32 = 200;

/// Frequency of the oscillator a new track starts with, in millihertz.
pub const DEFAULT_FREQUENCY: u32 = 144000;

/// Volume, in percent, of a track added from the keyboard.
pub const DEFAULT_VOLUME: u32 = 30;

/// Pattern length of a track added from the keyboard.
pub const DEFAULT_LENGTH: usize = 16;

/// Steps per beat of a track added from the keyboard.
pub const DEFAULT_DIVISION: u8 = 16;

/// The decimal digit for `d < 10`.
pub open spec fn digit_char(d: nat) -> char {
    seq!['0', '1', '2', '3', '4', '5', '6', '7', '8', '9'][d as int]
}

/// The decimal digits of `n`, most significant first.
pub open spec fn decimal(n: nat) -> Seq<char>
    decreases n,
{
    if n < 10 {
        seq![digit_char(n)]
    } else {
        decimal(n / 10).push(digit_char(n % 10))
    }
}

/// The one-character text of decimal digit `d < 10`.
fn digit_str(d: usize) -> (r: &'static str)
    requires
        d < 10,
    ensures
        r@ == seq![digit_char(d as nat)],
{
    proof {
        reveal_strlit("0");
        reveal_strlit("1");
        reveal_strlit("2");
        reveal_strlit("3");
        reveal_strlit("4");
        reveal_strlit("5");
        reveal_strlit("6");
        reveal_strlit("7");
        reveal_strlit("8");
        reveal_strlit("9");
    }
    match d {
        0 => "0",
        1 => "1",
        2 => "2",
        3 => "3",
        4 => "4",
        5 => "5",
        6 => "6",
        7 => "7",
        8 => "8",
        _ => "9",
    }
}

/// Appends the decimal digits of `n` to `s`.
fn push_decimal(s: &mut String, n: usize)
    ensures
        final(s)@ == old(s)@ + decimal(n as nat),
    decreases n,
{
    if n >= 10 {
        push_decimal(s, n / 10);
    }
    s.append(digit_str(n % 10));
    proof {
        assert(s@ =~= old(s)@ + decimal(n as nat));
    }
}

/// `Track ` followed by the decimal digits of `n`.
fn track_label(n: usize) -> (r: String)
    ensures
        r@ == "Track "@ + decimal(n as nat),
{
    let mut s = String::from_str("Track ");
    push_decimal(&mut s, n);
    s
}

/// Full scale of a mixer bar, in percent.
pub const BAR_MAX: u32 = 100;

/// One track as the mixer window shows it: its id and name, its volume in
/// percent, the height of its bar (the volume, capped at `BAR_MAX`) and
/// whether it is selected.
#[derive(Debug)]
pub struct TrackView {
    pub id: usize,
    pub name: String,
    pub volume: u32,
    pub bar: u32,
    pub selected: bool,
}

/// Sums the tracks and keeps the bookkeeping the user interface edits:
/// which tracks exist, in which order they play and are shown, which one
/// is selected, and the shared tempo and sample rate. Volumes are in
/// percent.
#[derive(Debug)]
pub struct Mixer {
    pub sample_rate: u32,
    pub tracks: HashMap<usize, Track>,
    pub track_order: Vec<usize>,
    pub selected_index: usize,
    pub master_volume: u32,
    pub increment_volume: u32,
    pub bpm: u32,
    pub next_id: usize,
}

impl Mixer {
    /// The order holds each track id exactly once, and nothing else.
    pub open spec fn order_matches(&self) -> bool {
        &&& self.track_order@.no_duplicates()
        &&& self.tracks@.dom() == self.track_order@.to_set()
    }

    /// The selection points into the order, or is zero when there is none.
    pub open spec fn selection_ok(&self) -> bool {
        if self.track_order@.len() == 0 {
            self.selected_index == 0
        } else {
            self.selected_index < self.track_order@.len()
        }
    }

    pub open spec fn wf(&self) -> bool {
        &&& self.order_matches()
        &&& self.selection_ok()
        &&& self.sample_rate > 0
        &&& self.bpm > 0
        &&& self.master_volume <= MASTER_MAX
        &&& forall|id: usize| #[trigger]
            self.tracks@.contains_key(id) ==> self.tracks@[id].wf() && self.tracks@[id].bpm
                == self.bpm && id < self.next_id
    }

    /// The id of the selected track, when there is one.
    pub open spec fn selected_id(&self) -> Option<usize> {
        if self.selected_index < self.track_order@.len() {
            Some(self.track_order@[self.selected_index as int])
        } else {
            None
        }
    }

    /// The selection after `next_track`.
    pub open spec fn after_next(&self) -> Mixer {
        if self.track_order@.len() == 0 {
            *self
        } else {
            Mixer {
                selected_index: ((self.selected_index + 1) % (self.track_order@.len() as int)) as usize,
                ..*self
            }
        }
    }

    /// The selection after `previous_track`.
    pub open spec fn after_previous(&self) -> Mixer {
        if self.track_order@.len() == 0 {
            *self
        } else {
            Mixer {
                selected_index: if self.selected_index == 0 {
                    (self.track_order@.len() - 1) as usize
                } else {
                    (self.selected_index - 1) as usize
                },
                ..*self
            }
        }
    }

    /// `next` is this mixer after `add_track` with these arguments.
    pub open spec fn adds_track(
        &self,
        next: Mixer,
        volume: u32,
        name: Seq<char>,
        length: usize,
        step_division: u8,
        sample_rate: u32,
    ) -> bool {
        &&& next.wf()
        &&& next.next_id == self.next_id + 1
        &&& next.track_order@ == self.track_order@.push(self.next_id)
        &&& next.selected_index == self.track_order@.len()
        &&& next.tracks@.dom() == self.tracks@.dom().insert(self.next_id)
        &&& forall|id: usize| #[trigger]
            self.tracks@.contains_key(id) ==> next.tracks@[id] == self.tracks@[id]
        &&& ({
            let t = next.tracks@[self.next_id as usize];
            &&& t.volume == volume
            &&& t.name@ == name
            &&& t.sample_rate == sample_rate
            &&& t.bpm == self.bpm
            &&& t.current_note == None::<crate::sequencer::NoteEvent>
            &&& t.sequencer.is_fresh(self.bpm, sample_rate, length as nat, step_division)
            &&& forall|i: int| 0 <= i < length ==> t.sequencer.events@[i] == None::<crate::sequencer::NoteEvent>
            &&& t.instrument == Some(
                PrimitiveWave {
                    wave_type: WaveType::Sine,
                    sample_rate,
                    phase: 0,
                    frequency: DEFAULT_FREQUENCY,
                    envelope: Envelope {
                        attack: (10 * sample_rate / 1000) as u64,
                        decay: (10 * sample_rate / 1000) as u64,
                        sustain: LEVEL_ONE,
                        release: (30 * sample_rate / 1000) as u64,
                        phase: 0,
                        sample_rate,
                        state: crate::generators::EnvelopeState::Idle,
                        current_level: 0,
                    },
                },
            )
        })
        &&& next.sample_rate == self.sample_rate
        &&& next.bpm == self.bpm
        &&& next.master_volume == self.master_volume
        &&& next.increment_volume == self.increment_volume
    }

    /// `next` is this mixer after `remove_selected_track`.
    pub open spec fn removes_selected(&self, next: Mixer) -> bool {
        &&& next.wf()
        &&& self.track_order@.len() == 0 ==> next == *self
        &&& self.track_order@.len() > 0 ==> {
            let i = self.selected_index as int;
            let id = self.track_order@[i];
            &&& next.track_order@ == self.track_order@.remove(i)
            &&& next.tracks@ == self.tracks@.remove(id)
            &&& next.selected_index == if i >= next.track_order@.len() && i > 0 {
                i - 1
            } else {
                i
            }
            &&& next.next_id == self.next_id
            &&& next.bpm == self.bpm
            &&& next.sample_rate == self.sample_rate
            &&& next.master_volume == self.master_volume
            &&& next.increment_volume == self.increment_volume
        }
    }

    /// `next` is this mixer after `increment_selected_track_volume`.
    pub open spec fn raises_selected(&self, next: Mixer) -> bool {
        &&& next.wf()
        &&& match self.selected_id() {
            Some(id) => next == (Mixer { tracks: next.tracks, ..*self }) && next.tracks@ == self.tracks@.insert(
                id,
                Track {
                    volume: if self.tracks@[id].volume + self.increment_volume <= u32::MAX {
                        (self.tracks@[id].volume + self.increment_volume) as u32
                    } else {
                        u32::MAX
                    },
                    ..self.tracks@[id]
                },
            ),
            None => next == *self,
        }
    }

    /// `next` is this mixer after `decrease_selected_track_volume`.
    pub open spec fn lowers_selected(&self, next: Mixer) -> bool {
        &&& next.wf()
        &&& match self.selected_id() {
            Some(id) => next == (Mixer { tracks: next.tracks, ..*self }) && next.tracks@ == self.tracks@.insert(
                id,
                Track {
                    volume: if self.tracks@[id].volume >= self.increment_volume {
                        (self.tracks@[id].volume - self.increment_volume) as u32
                    } else {
                        0
                    },
                    ..self.tracks@[id]
                },
            ),
            None => next == *self,
        }
    }

    /// An empty mixer at unity master volume.
    pub fn new(sample_rate: u32, bpm: u32) -> (r: Mixer)
        requires
            sample_rate > 0,
            bpm > 0,
        ensures
            r.wf(),
            r.tracks@ == Map::<usize, Track>::empty(),
            r.track_order@ == Seq::<usize>::empty(),
            r.selected_index == 0,
            r.master_volume == 100,
            r.increment_volume == 10,
            r.sample_rate == sample_rate,
            r.bpm == bpm,
            r.next_id == 0,
    {
        let r = Mixer {
            tracks: HashMap::new(),
            track_order: Vec::new(),
            selected_index: 0,
            master_volume: 100,
            sample_rate,
            increment_volume: 10,
            bpm,
            next_id: 0,
        };
        proof {
            assert(r.track_order@.to_set() =~= Set::<usize>::empty());
            assert(r.tracks@.dom() =~= Set::<usize>::empty());
        }
        r
    }

    /// Adds a track with a sine oscillator and a short default envelope
    /// (10 ms attack, 10 ms decay, full sustain, 30 ms release) under a
    /// fresh id, appends it to the order and selects it.
    pub fn add_track(
        &mut self,
        volume: u32,
        name: String,
        length: usize,
        step_division: u8,
        sample_rate: u32,
    )
        requires
            old(self).wf(),
            old(self).next_id < usize::MAX,
            length > 0,
            step_division > 0,
            sample_rate > 0,
        ensures
            old(self).adds_track(*final(self), volume, name@, length, step_division, sample_rate),
            final(self).track_order@.len() == final(self).tracks@.len(),
            final(self).track_order@.to_set() == final(self).tracks@.dom(),
            final(self).track_order@.no_duplicates(),
            final(self).selected_index < final(self).track_order@.len(),
    {
        let id = self.next_id;
        self.next_id = self.next_id + 1;
        let mut track = Track::new(volume, name, sample_rate, self.bpm, length, step_division);
        track.set_instrument(
            PrimitiveWave::new(
                DEFAULT_FREQUENCY,
                WaveType::Sine,
                sample_rate,
                Envelope::new(10, 10, LEVEL_ONE, 30, sample_rate),
            ),
        );
        proof {
            assert(!self.tracks@.contains_key(id));
            assert(!self.track_order@.contains(id)) by {
                if self.track_order@.contains(id) {
                    assert(self.track_order@.to_set().contains(id));
                }
            }
        }
        self.tracks.insert(id, track);
        self.track_order.push(id);
        self.selected_index = self.track_order.len() - 1;
        proof {
            assert(self.track_order@.to_set() =~= old(self).track_order@.to_set().insert(id)) by {
                assert forall|x: usize| #[trigger]
                    self.track_order@.to_set().contains(x) <==> old(
                        self,
                    ).track_order@.to_set().insert(id).contains(x) by {
                    if self.track_order@.contains(x) {
                        let j = choose|j: int|
                            0 <= j < self.track_order@.len() && self.track_order@[j] == x;
                        if j < old(self).track_order@.len() {
                            assert(old(self).track_order@[j] == x);
                        }
                    }
                    if old(self).track_order@.contains(x) {
                        let j = choose|j: int|
                            0 <= j < old(self).track_order@.len() && old(self).track_order@[j]
                                == x;
                        assert(self.track_order@[j] == x);
                    }
                    if x == id {
                        assert(self.track_order@[old(self).track_order@.len() as int] == id);
                    }
                }
            }
            assert(self.tracks@.dom() =~= old(self).tracks@.dom().insert(id));
            assert(self.track_order@.no_duplicates()) by {
                assert forall|i: int, j: int|
                    0 <= i < self.track_order@.len() && 0 <= j < self.track_order@.len() && i
                        != j implies self.track_order@[i] != self.track_order@[j] by {
                    if i < old(self).track_order@.len() && j < old(self).track_order@.len() {
                        assert(old(self).track_order@[i] != old(self).track_order@[j]);
                    } else if i < old(self).track_order@.len() {
                        assert(old(self).track_order@.contains(old(self).track_order@[i]));
                    } else if j < old(self).track_order@.len() {
                        assert(old(self).track_order@.contains(old(self).track_order@[j]));
                    }
                }
            }
        }
        proof {
            lemma_order_matches_tracks(*self);
        }
    }

    /// Moves the selection one track on, wrapping past the last.
    pub fn next_track(&mut self)
        requires
            old(self).wf(),
        ensures
            *final(self) == old(self).after_next(),
            final(self).wf(),
    {
        if self.track_order.len() == 0 {
            return ;
        }
        self.selected_index = (self.selected_index + 1) % self.track_order.len();
    }

    /// Moves the selection one track back, wrapping before the first.
    pub fn previous_track(&mut self)
        requires
            old(self).wf(),
        ensures
            *final(self) == old(self).after_previous(),
            final(self).wf(),
    {
        if self.track_order.len() == 0 {
            return ;
        }
        self.selected_index = if self.selected_index == 0 {
            self.track_order.len() - 1
        } else {
            self.selected_index - 1
        };
    }

    /// Removes the selected track, if any; the selection stays at the same
    /// position, or moves back one when it was on the last track.
    pub fn remove_selected_track(&mut self)
        requires
            old(self).wf(),
        ensures
            old(self).removes_selected(*final(self)),
            final(self).track_order@.len() == final(self).tracks@.len(),
            final(self).track_order@.to_set() == final(self).tracks@.dom(),
            final(self).track_order@.no_duplicates(),
            final(self).track_order@.len() > 0 ==> final(self).selected_index
                < final(self).track_order@.len(),
    {
        if self.track_order.len() == 0 {
            proof {
                lemma_order_matches_tracks(*self);
            }
            return ;
        }
        let i = self.selected_index;
        let id = self.track_order[i];
        self.tracks.remove(&id);
        self.track_order.remove(i);
        if self.selected_index >= self.track_order.len() && self.selected_index > 0 {
            self.selected_index = self.selected_index - 1;
        }
        proof {
            let o = old(self).track_order@;
            let n = self.track_order@;
            assert(n =~= o.remove(i as int));
            assert forall|x: usize| #[trigger] n.to_set().contains(x) <==> o.to_set().remove(id).contains(x) by {
                if n.contains(x) {
                    let j = choose|j: int| 0 <= j < n.len() && n[j] == x;
                    if j < i {
                        assert(o[j] == x);
                    } else {
                        assert(o[j + 1] == x);
                    }
                }
                if o.contains(x) && x != id {
                    let j = choose|j: int| 0 <= j < o.len() && o[j] == x;
                    if j < i {
                        assert(n[j] == x);
                    } else {
                        assert(j != i);
                        assert(n[j - 1] == x);
                    }
                }
            }
            assert(n.to_set() =~= o.to_set().remove(id));
            assert(self.tracks@.dom() =~= old(self).tracks@.dom().remove(id));
            assert(n.no_duplicates()) by {
                assert forall|a: int, b: int|
                    0 <= a < n.len() && 0 <= b < n.len() && a != b implies n[a] != n[b] by {
                    let a2 = if a < i { a } else { a + 1 };
                    let b2 = if b < i { b } else { b + 1 };
                    assert(n[a] == o[a2]);
                    assert(n[b] == o[b2]);
                }
            }
        }
        proof {
            lemma_order_matches_tracks(*self);
        }
    }

    /// The selected track, when there is one.
    pub fn selected_track(&self) -> (r: Option<&Track>)
        requires
            self.wf(),
        ensures
            match self.selected_id() {
                Some(id) => r == Some(&self.tracks@[id]),
                None => r.is_none(),
            },
    {
        if self.selected_index < self.track_order.len() {
            let id = self.track_order[self.selected_index];
            proof {
                assert(self.track_order@.to_set().contains(id));
            }
            self.tracks.get(&id)
        } else {
            None
        }
    }

    /// The track under `id`, when there is one.
    pub fn get_track_id(&self, id: usize) -> (r: Option<&Track>)
        ensures
            match r {
                Some(t) => self.tracks@.contains_key(id) && *t == self.tracks@[id],
                None => !self.tracks@.contains_key(id),
            },
    {
        self.tracks.get(&id)
    }

    /// Raises the selected track's volume by the mixer's increment.
    pub fn increment_selected_track_volume(&mut self)
        requires
            old(self).wf(),
        ensures
            old(self).raises_selected(*final(self)),
    {
        if self.selected_index < self.track_order.len() {
            let id = self.track_order[self.selected_index];
            let inc = self.increment_volume;
            proof {
                assert(self.track_order@.to_set().contains(id));
            }
            match self.tracks.remove(&id) {
                Some(mut t) => {
                    t.increse_volume(inc);
                    let ghost tv = t;
                    self.tracks.insert(id, t);
                    proof {
                        assert(self.tracks@ =~= old(self).tracks@.insert(id, tv));
                    }
                },
                None => {},
            }
            proof {
                assert(self.tracks@.dom() =~= old(self).tracks@.dom());
                assert(self.wf());
                assert(old(self).selected_id() == Some(id));
            }
        }
    }

    /// Lowers the selected track's volume by the mixer's increment,
    /// stopping at zero.
    pub fn decrease_selected_track_volume(&mut self)
        requires
            old(self).wf(),
        ensures
            old(self).lowers_selected(*final(self)),
    {
        if self.selected_index < self.track_order.len() {
            let id = self.track_order[self.selected_index];
            let inc = self.increment_volume;
            proof {
                assert(self.track_order@.to_set().contains(id));
            }
            match self.tracks.remove(&id) {
                Some(mut t) => {
                    t.decrease_volume(inc);
                    let ghost tv = t;
                    self.tracks.insert(id, t);
                    proof {
                        assert(self.tracks@ =~= old(self).tracks@.insert(id, tv));
                    }
                },
                None => {},
            }
            proof {
                assert(self.tracks@.dom() =~= old(self).tracks@.dom());
                assert(self.wf());
                assert(old(self).selected_id() == Some(id));
            }
        }
    }

    /// Sets the master volume, clamped to `0..=MASTER_MAX` percent.
    pub fn set_master_volumne(&mut self, vol: u32)
        requires
            old(self).wf(),
        ensures
            final(self).wf(),
            *final(self) == (Mixer {
                master_volume: if vol <= MASTER_MAX {
                    vol
                } else {
                    MASTER_MAX
                },
                ..*old(self)
            }),
    {
        self.master_volume = if vol <= MASTER_MAX {
            vol
        } else {
            MASTER_MAX
        };
    }

    /// Sets the tempo of the mixer and of every track and sequencer in it.
    pub fn set_bpm(&mut self, bpm: u32)
        requires
            old(self).wf(),
            bpm > 0,
        ensures
            final(self).wf(),
            final(self).tracks@.dom() == old(self).tracks@.dom(),
            forall|id: usize| #[trigger]
                final(self).tracks@.contains_key(id) ==> final(self).tracks@[id] == old(
                    self,
                ).tracks@[id].with_bpm(bpm),
            *final(self) == (Mixer { tracks: final(self).tracks, bpm, ..*old(self) }),
    {
        self.bpm = bpm;
        let mut i: usize = 0;
        while i < self.track_order.len()
            invariant
                i <= self.track_order@.len(),
                *self == (Mixer { tracks: self.tracks, bpm: bpm, ..*old(self) }),
                bpm > 0,
                old(self).wf(),
                self.tracks@.dom() == old(self).tracks@.dom(),
                forall|id: usize| #[trigger]
                    self.tracks@.contains_key(id) ==> self.tracks@[id].wf(),
                forall|j: int|
                    0 <= j < i ==> #[trigger] self.tracks@[self.track_order@[j]] == old(
                        self,
                    ).tracks@[self.track_order@[j]].with_bpm(bpm),
                forall|j: int|
                    i <= j < self.track_order@.len() ==> #[trigger] self.tracks@[self.track_order@[j]]
                        == old(self).tracks@[self.track_order@[j]],
            decreases self.track_order@.len() - i,
        {
            let id = self.track_order[i];
            proof {
                assert(self.track_order@.to_set().contains(id));
            }
            match self.tracks.remove(&id) {
                Some(mut t) => {
                    t.set_bpm(bpm);
                    self.tracks.insert(id, t);
                },
                None => {},
            }
            proof {
                assert(self.tracks@.dom() =~= old(self).tracks@.dom());
                assert forall|j: int| 0 <= j < self.track_order@.len() && j != i implies
                    self.track_order@[j] != id by {
                    assert(old(self).track_order@.no_duplicates());
                }
            }
            i = i + 1;
        }
        proof {
            assert forall|id: usize| #[trigger] self.tracks@.contains_key(id) implies self.tracks@[id]
                == old(self).tracks@[id].with_bpm(bpm) by {
                assert(self.track_order@.to_set().contains(id));
                let j = choose|j: int|
                    0 <= j < self.track_order@.len() && self.track_order@[j] == id;
                assert(self.tracks@[self.track_order@[j]] == self.tracks@[id]);
            }
            assert forall|id: usize| #[trigger] self.tracks@.contains_key(id) implies
                self.tracks@[id].wf() && self.tracks@[id].bpm == self.bpm && id < self.next_id by {
                assert(old(self).tracks@.contains_key(id));
            }
        }
    }

    pub fn bpm(&self) -> (r: u32)
        ensures
            r == self.bpm,
    {
        self.bpm
    }

    /// Sets the sample rate of the mixer and of every track, sequencer and
    /// instrument in it.
    pub fn set_sample_rate(&mut self, sample_rate: u32)
        requires
            old(self).wf(),
            sample_rate > 0,
        ensures
            final(self).wf(),
            final(self).tracks@.dom() == old(self).tracks@.dom(),
            forall|id: usize| #[trigger]
                final(self).tracks@.contains_key(id) ==> final(self).tracks@[id] == old(
                    self,
                ).tracks@[id].with_sample_rate(sample_rate),
            *final(self) == (Mixer { tracks: final(self).tracks, sample_rate, ..*old(self) }),
    {
        self.sample_rate = sample_rate;
        let mut i: usize = 0;
        while i < self.track_order.len()
            invariant
                i <= self.track_order@.len(),
                *self == (Mixer { tracks: self.tracks, sample_rate: sample_rate, ..*old(self) }),
                sample_rate > 0,
                old(self).wf(),
                self.tracks@.dom() == old(self).tracks@.dom(),
                forall|id: usize| #[trigger]
                    self.tracks@.contains_key(id) ==> self.tracks@[id].wf(),
                forall|j: int|
                    0 <= j < i ==> #[trigger] self.tracks@[self.track_order@[j]] == old(
                        self,
                    ).tracks@[self.track_order@[j]].with_sample_rate(sample_rate),
                forall|j: int|
                    i <= j < self.track_order@.len() ==> #[trigger] self.tracks@[self.track_order@[j]]
                        == old(self).tracks@[self.track_order@[j]],
            decreases self.track_order@.len() - i,
        {
            let id = self.track_order[i];
            proof {
                assert(self.track_order@.to_set().contains(id));
            }
            match self.tracks.remove(&id) {
                Some(mut t) => {
                    t.set_sample_rate(sample_rate);
                    self.tracks.insert(id, t);
                },
                None => {},
            }
            proof {
                assert(self.tracks@.dom() =~= old(self).tracks@.dom());
                assert forall|j: int| 0 <= j < self.track_order@.len() && j != i implies
                    self.track_order@[j] != id by {
                    assert(old(self).track_order@.no_duplicates());
                }
            }
            i = i + 1;
        }
        proof {
            assert forall|id: usize| #[trigger] self.tracks@.contains_key(id) implies self.tracks@[id]
                == old(self).tracks@[id].with_sample_rate(sample_rate) by {
                assert(self.track_order@.to_set().contains(id));
                let j = choose|j: int|
                    0 <= j < self.track_order@.len() && self.track_order@[j] == id;
                assert(self.tracks@[self.track_order@[j]] == self.tracks@[id]);
            }
            assert forall|id: usize| #[trigger] self.tracks@.contains_key(id) implies
                self.tracks@[id].wf() && self.tracks@[id].bpm == self.bpm && id < self.next_id by {
                assert(old(self).tracks@.contains_key(id));
            }
        }
    }

    /// Renders `num_samples` samples of every track, in render order: entry
    /// `k` holds the voices of the track at position `k` of the order.
    pub fn process_block(&mut self, num_samples: usize) -> (r: Vec<Vec<Option<Voice>>>)
        requires
            old(self).wf(),
        ensures
            final(self).wf(),
            r@.len() == old(self).track_order@.len(),
            forall|k: int|
                0 <= k < r@.len() ==> {
                    &&& (#[trigger] r@[k])@ == old(self).tracks@[old(self).track_order@[k]].block(
                        num_samples as nat,
                    )
                    &&& r@[k]@.len() == num_samples
                },
            final(self).tracks@.dom() == old(self).tracks@.dom(),
            forall|id: usize| #[trigger]
                final(self).tracks@.contains_key(id) ==> final(self).tracks@[id] == old(
                    self,
                ).tracks@[id].after_block(num_samples as nat),
            *final(self) == (Mixer { tracks: final(self).tracks, ..*old(self) }),
    {
        let mut out: Vec<Vec<Option<Voice>>> = Vec::with_capacity(self.track_order.len());
        let mut i: usize = 0;
        while i < self.track_order.len()
            invariant
                i <= self.track_order@.len(),
                *self == (Mixer { tracks: self.tracks, ..*old(self) }),
                old(self).wf(),
                self.tracks@.dom() == old(self).tracks@.dom(),
                forall|id: usize| #[trigger]
                    self.tracks@.contains_key(id) ==> self.tracks@[id].wf() && id < self.next_id
                        && self.tracks@[id].bpm == self.bpm,
                out@.len() == i,
                forall|k: int|
                    0 <= k < i ==> {
                        &&& (#[trigger] out@[k])@ == old(self).tracks@[self.track_order@[k]].block(
                            num_samples as nat,
                        )
                        &&& out@[k]@.len() == num_samples
                    },
                forall|j: int|
                    0 <= j < i ==> #[trigger] self.tracks@[self.track_order@[j]] == old(
                        self,
                    ).tracks@[self.track_order@[j]].after_block(num_samples as nat),
                forall|j: int|
                    i <= j < self.track_order@.len() ==> #[trigger] self.tracks@[self.track_order@[j]]
                        == old(self).tracks@[self.track_order@[j]],
            decreases self.track_order@.len() - i,
        {
            let id = self.track_order[i];
            proof {
                assert(self.track_order@.to_set().contains(id));
            }
            match self.tracks.remove(&id) {
                Some(mut t) => {
                    let block = t.process_block(num_samples);
                    self.tracks.insert(id, t);
                    out.push(block);
                },
                None => {},
            }
            proof {
                assert(self.tracks@.dom() =~= old(self).tracks@.dom());
                assert forall|j: int| 0 <= j < self.track_order@.len() && j != i implies
                    self.track_order@[j] != id by {
                    assert(old(self).track_order@.no_duplicates());
                }
            }
            i = i + 1;
        }
        proof {
            assert forall|id: usize| #[trigger] self.tracks@.contains_key(id) implies self.tracks@[id]
                == old(self).tracks@[id].after_block(num_samples as nat) by {
                assert(self.track_order@.to_set().contains(id));
                let j = choose|j: int|
                    0 <= j < self.track_order@.len() && self.track_order@[j] == id;
                assert(self.tracks@[self.track_order@[j]] == self.tracks@[id]);
            }
        }
        out
    }

    /// Applies the mixer's part of a key press: `t` adds a track named after
    /// its id, `r` removes the selected track, left and right move the
    /// selection, up and down nudge the selected volume; other keys change
    /// nothing.
    pub fn handle_keyboard_input(&mut self, key: Key)
        requires
            old(self).wf(),
            spec_command_for(key) == Command::AddTrack ==> old(self).next_id < usize::MAX,
        ensures
            final(self).wf(),
            match spec_command_for(key) {
                Command::AddTrack => old(self).adds_track(
                    *final(self),
                    DEFAULT_VOLUME,
                    "Track "@ + decimal(old(self).next_id as nat),
                    DEFAULT_LENGTH,
                    DEFAULT_DIVISION,
                    old(self).sample_rate,
                ),
                Command::RemoveTrack => old(self).removes_selected(*final(self)),
                Command::NextTrack => *final(self) == old(self).after_next(),
                Command::PreviousTrack => *final(self) == old(self).after_previous(),
                Command::VolumeUp => old(self).raises_selected(*final(self)),
                Command::VolumeDown => old(self).lowers_selected(*final(self)),
                _ => *final(self) == *old(self),
            },
    {
        match command_for(key) {
            Command::AddTrack => {
                let name = track_label(self.next_id);
                let sample_rate = self.sample_rate;
                self.add_track(DEFAULT_VOLUME, name, DEFAULT_LENGTH, DEFAULT_DIVISION, sample_rate);
            },
            Command::RemoveTrack => self.remove_selected_track(),
            Command::NextTrack => self.next_track(),
            Command::PreviousTrack => self.previous_track(),
            Command::VolumeUp => self.increment_selected_track_volume(),
            Command::VolumeDown => self.decrease_selected_track_volume(),
            _ => {},
        }
    }

    /// The view of every track, in render order.
    pub fn track_views(&self) -> (r: Vec<TrackView>)
        requires
            self.wf(),
        ensures
            r@.len() == self.track_order@.len(),
            forall|k: int|
                0 <= k < r@.len() ==> {
                    let id = self.track_order@[k];
                    let t = self.tracks@[id];
                    &&& (#[trigger] r@[k]).id == id
                    &&& r@[k].name@ == t.name@
                    &&& r@[k].volume == t.volume
                    &&& r@[k].bar == if t.volume <= BAR_MAX {
                        t.volume
                    } else {
                        BAR_MAX
                    }
                    &&& r@[k].selected == (k == self.selected_index)
                },
    {
        let mut out: Vec<TrackView> = Vec::with_capacity(self.track_order.len());
        let mut k: usize = 0;
        while k < self.track_order.len()
            invariant
                self.wf(),
                k <= self.track_order@.len(),
                out@.len() == k,
                forall|j: int|
                    0 <= j < k ==> {
                        let id = self.track_order@[j];
                        let t = self.tracks@[id];
                        &&& (#[trigger] out@[j]).id == id
                        &&& out@[j].name@ == t.name@
                        &&& out@[j].volume == t.volume
                        &&& out@[j].bar == if t.volume <= BAR_MAX {
                            t.volume
                        } else {
                            BAR_MAX
                        }
                        &&& out@[j].selected == (j == self.selected_index)
                    },
            decreases self.track_order@.len() - k,
        {
            let id = self.track_order[k];
            proof {
                assert(self.track_order@.to_set().contains(id));
            }
            match self.tracks.get(&id) {
                Some(t) => {
                    let volume = t.volume;
                    let bar = if volume <= BAR_MAX {
                        volume
                    } else {
                        BAR_MAX
                    };
                    out.push(
                        TrackView {
                            id,
                            name: t.name.clone(),
                            volume,
                            bar,
                            selected: k == self.selected_index,
                        },
                    );
                },
                None => {},
            }
            k = k + 1;
        }
        out
    }

    /// Sets the sample rate that new tracks are built for; existing
    /// tracks keep theirs.
    pub fn prepare(&mut self, sample_rate: u32)
        requires
            old(self).wf(),
            sample_rate > 0,
        ensures
            final(self).wf(),
            *final(self) == (Mixer { sample_rate, ..*old(self) }),
    {
        self.sample_rate = sample_rate;
    }
}

/// However tracks were added and removed, the render order and the track
/// map hold the same ids, and as many of them.
pub proof fn lemma_order_matches_tracks(m: Mixer)
    requires
        m.wf(),
    ensures
        m.track_order@.len() == m.tracks@.len(),
        m.track_order@.to_set() == m.tracks@.dom(),
{
    m.track_order@.unique_seq_to_set();
}

/// Whenever the mixer holds a track, the selection points at one.
pub proof fn lemma_selection_in_range(m: Mixer)
    requires
        m.wf(),
        m.track_order@.len() > 0,
    ensures
        m.selected_index < m.track_order@.len(),
        m.selected_id() is Some,
        m.tracks@.contains_key(m.selected_id()->Some_0),
{
    assert(m.track_order@.to_set().contains(m.track_order@[m.selected_index as int]));
}

/// Every edit the user can make (adding a track, removing the selected
/// one, moving the selection, nudging a volume) leaves the render order holding exactly the track ids, each once,
/// and the selection inside the order whenever the mixer holds a track;
/// ids are never handed out twice.
pub proof fn lemma_edits_keep_order(
    m: Mixer,
    next: Mixer,
    volume: u32,
    name: Seq<char>,
    length: usize,
    step_division: u8,
    sample_rate: u32,
)
    requires
        m.wf(),
        m.adds_track(next, volume, name, length, step_division, sample_rate)
            || m.removes_selected(next) || next == m.after_next() || next == m.after_previous()
            || m.raises_selected(next) || m.lowers_selected(next),
    ensures
        next.track_order@.len() == next.tracks@.len(),
        next.track_order@.to_set() == next.tracks@.dom(),
        next.track_order@.no_duplicates(),
        next.track_order@.len() > 0 ==> next.selected_index < next.track_order@.len(),
        next.next_id >= m.next_id,
{
    if next == m.after_next() || next == m.after_previous() {
        assert(next.wf());
    }
    lemma_order_matches_tracks(next);
}

} // verus!
