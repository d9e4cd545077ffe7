//! Tick-to-time conversion.
//!
//! Under a metrical resolution a delta of `d` ticks lasts
//! `d * tempo / ticks_per_beat` microseconds, where `tempo` is the active
//! microseconds-per-beat value; a tempo change affects only later deltas.
//! Under a timecode resolution the ratio is fixed by frames per second and
//! ticks per frame, and tempo events are ignored.

use vstd::prelude::*;

use crate::device::MidiError;

verus! {

/// The default tempo, applied from tick 0 when no tempo event has been
/// seen: 500000 microseconds per beat, that is 120 beats per minute.
pub const DEFAULT_TEMPO: u32 = 500_000;

/// The file's timing resolution, fixed for the whole file.
#[derive(Clone, Copy, PartialEq, Eq, Structural, Debug)]
pub enum Timing {
    /// Ticks per quarter note; tempo gives the quarter note's duration.
    Metrical { ticks_per_beat: u16 },
    /// Frames per second times ticks per frame gives ticks per second.
    Timecode { frames_per_second: u8, ticks_per_frame: u8 },
}

/// Whether the scheduler can interpret a resolution: its tick divisor
/// must not be zero.
pub open spec fn spec_timing_supported(t: Timing) -> bool {
    match t {
        Timing::Metrical { ticks_per_beat } => ticks_per_beat > 0,
        Timing::Timecode { frames_per_second, ticks_per_frame } => frames_per_second > 0
            && ticks_per_frame > 0,
    }
}

/// Microseconds a gap of `delta` ticks lasts under a resolution and an
/// active tempo, as an unbounded integer.
pub open spec fn spec_wait_micros(timing: Timing, tempo: int, delta: int) -> int {
    match timing {
        Timing::Metrical { ticks_per_beat } => {
            if ticks_per_beat > 0 {
                delta * tempo / (ticks_per_beat as int)
            } else {
                0
            }
        },
        Timing::Timecode { frames_per_second, ticks_per_frame } => {
            let ticks_per_second = (frames_per_second as int) * (ticks_per_frame as int);
            if ticks_per_second > 0 {
                delta * 1_000_000 / ticks_per_second
            } else {
                0
            }
        },
    }
}

/// The same, saturated to what the wall-clock counter can hold.
pub open spec fn spec_wait_sat(timing: Timing, tempo: int, delta: int) -> int {
    if spec_wait_micros(timing, tempo, delta) <= u64::MAX {
        spec_wait_micros(timing, tempo, delta)
    } else {
        u64::MAX as int
    }
}

/// The conversion state: the fixed resolution and the active tempo.
#[derive(Clone, Copy, PartialEq, Eq, Structural, Debug)]
pub struct Timer {
    pub timing: Timing,
    pub tempo: u32,
}

impl Timer {
    /// The resolution this timer was accepted with is interpretable.
    pub open spec fn wf(&self) -> bool {
        spec_timing_supported(self.timing)
    }

    /// Accept a resolution, or reject one whose tick divisor is zero
    /// rather than guess. The default tempo applies from tick 0.
    pub fn try_new(timing: Timing) -> (r: Result<Timer, MidiError>)
        ensures
            spec_timing_supported(timing) ==> r == Result::<Timer, MidiError>::Ok(
                (Timer { timing, tempo: DEFAULT_TEMPO }),
            ),
            !spec_timing_supported(timing) ==> r == Result::<Timer, MidiError>::Err(
                MidiError::TimingUnsupported,
            ),
            r matches Ok(t) ==> t.wf(),
    {
        let supported = match timing {
            Timing::Metrical { ticks_per_beat } => ticks_per_beat > 0,
            Timing::Timecode { frames_per_second, ticks_per_frame } => frames_per_second > 0
                && ticks_per_frame > 0,
        };
        if supported {
            Ok(Timer { timing, tempo: DEFAULT_TEMPO })
        } else {
            Err(MidiError::TimingUnsupported)
        }
    }

    /// Make a new tempo the active one for all later deltas.
    pub fn set_tempo(&mut self, micros_per_beat: u32)
        ensures
            final(self).timing == old(self).timing,
            final(self).tempo == micros_per_beat,
            final(self).wf() == old(self).wf(),
    {
        self.tempo = micros_per_beat;
    }

    /// The wall-clock wait for a gap of `delta` ticks under the active
    /// tempo, in microseconds, saturated to the counter's range.
    pub fn wait_micros(&self, delta: u64) -> (r: u64)
        requires
            self.wf(),
        ensures
            r == spec_wait_sat(self.timing, self.tempo as int, delta as int),
    {
        let w: u128 = match self.timing {
            Timing::Metrical { ticks_per_beat } => {
                proof {
                    vstd::arithmetic::mul::lemma_mul_upper_bound(
                        delta as int,
                        u64::MAX as int,
                        self.tempo as int,
                        u32::MAX as int,
                    );
                }
                (delta as u128) * (self.tempo as u128) / (ticks_per_beat as u128)
            },
            Timing::Timecode { frames_per_second, ticks_per_frame } => {
                proof {
                    vstd::arithmetic::mul::lemma_mul_upper_bound(
                        delta as int,
                        u64::MAX as int,
                        1_000_000int,
                        1_000_000int,
                    );
                    vstd::arithmetic::mul::lemma_mul_upper_bound(
                        frames_per_second as int,
                        u8::MAX as int,
                        ticks_per_frame as int,
                        u8::MAX as int,
                    );
                    vstd::arithmetic::mul::lemma_mul_strictly_positive(
                        frames_per_second as int,
                        ticks_per_frame as int,
                    );
                }
                (delta as u128) * 1_000_000 / ((frames_per_second as u128) * (ticks_per_frame
                    as u128))
            },
        };
        if w > u64::MAX as u128 {
            u64::MAX
        } else {
            w as u64
        }
    }
}

} // verus!
