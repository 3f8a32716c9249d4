//! Transport state and what the device callback does with a buffer.
use vstd::prelude::*;

verus! {

/// Whether the engine renders sound or writes silence.
#[derive(Clone, Copy, Debug, PartialEq, Eq, Structural)]
pub enum AudioEngineState {
    Playing,
    Stopped,
}

impl AudioEngineState {
    /// Play becomes stop and stop becomes play.
    pub fn handle_stop_start(self) -> (r: AudioEngineState)
        ensures
            r != self,
    {
        match self {
            AudioEngineState::Playing => AudioEngineState::Stopped,
            AudioEngineState::Stopped => AudioEngineState::Playing,
        }
    }
}

/// What one device callback does with its interleaved buffer.
#[derive(Clone, Copy, Debug, PartialEq, Eq, Structural)]
pub enum CallbackPlan {
    /// Write silence over the whole buffer.
    Silence,
    /// Render this many frames from the mixer and fan each out to every
    /// channel of its frame.
    Render { frames: usize },
}

/// The plan for a buffer of `buffer_len` samples over `channels` channels:
/// silence while stopped (or with no channels), else one mixer frame per
/// whole frame of the buffer.
pub fn plan_callback(state: AudioEngineState, buffer_len: usize, channels: usize) -> (r:
    CallbackPlan)
    ensures
        state == AudioEngineState::Stopped || channels == 0 ==> r == CallbackPlan::Silence,
        state == AudioEngineState::Playing && channels > 0 ==> r == (CallbackPlan::Render {
            frames: buffer_len / channels,
        }),
{
    match state {
        AudioEngineState::Stopped => CallbackPlan::Silence,
        AudioEngineState::Playing => {
            if channels == 0 {
                CallbackPlan::Silence
            } else {
                CallbackPlan::Render { frames: buffer_len / channels }
            }
        },
    }
}

/// Interleaves a mono block into `channels` channels: every channel of
/// frame `i` carries `mix[i]`.
pub fn fan_out<T: Copy>(mix: &Vec<T>, channels: usize) -> (r: Vec<T>)
    requires
        channels > 0,
        mix@.len() * channels <= usize::MAX,
    ensures
        r@.len() == mix@.len() * channels,
        forall|j: int| 0 <= j < r@.len() ==> #[trigger] r@[j] == mix@[j / channels as int],
{
    let mut out: Vec<T> = Vec::new();
    let mut i: usize = 0;
    while i < mix.len()
        invariant
            i <= mix@.len(),
            channels > 0,
            mix@.len() * channels <= usize::MAX,
            out@.len() == i * channels,
            forall|j: int| 0 <= j < out@.len() ==> #[trigger] out@[j] == mix@[j / channels as int],
        decreases mix@.len() - i,
    {
        let sample: T = mix[i];
        let mut c: usize = 0;
        proof {
            assert((i + 1) * channels <= mix@.len() * channels) by (nonlinear_arith)
                requires
                    i + 1 <= mix@.len(),
                    channels > 0,
            ;
            assert((i + 1) * channels == i * channels + channels) by (nonlinear_arith);
        }
        while c < channels
            invariant
                c <= channels,
                channels > 0,
                i < mix@.len(),
                sample == mix@[i as int],
                i * channels + channels <= usize::MAX,
                out@.len() == i * channels + c,
                forall|j: int| 0 <= j < out@.len() ==> #[trigger] out@[j] == mix@[j / channels as int],
            decreases channels - c,
        {
            proof {
                let j = i * channels + c;
                vstd::arithmetic::div_mod::lemma_fundamental_div_mod_converse(
                    j as int,
                    channels as int,
                    i as int,
                    c as int,
                );
            }
            out.push(sample);
            c = c + 1;
        }
        i = i + 1;
    }
    out
}

} // verus!
