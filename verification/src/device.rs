//! The error taxonomy and the device-selection rule.
//!
//! Opening a port and writing to it are the application's business; the
//! decision of whether a requested device index can be honoured, and the
//! classification of every failure, live here.

use vstd::prelude::*;

verus! {

/// Every way a run can fail, with enough context to report it.
#[derive(Clone, Copy, PartialEq, Eq, Structural, Debug)]
pub enum MidiError {
    /// Malformed or truncated source bytes, surfaced by the decoder.
    Decode,
    /// No output device present, or the requested index exceeds the count.
    DeviceUnavailable { available: usize, requested: usize },
    /// The sink refused the connect handshake.
    Connection,
    /// A mid-playback write to the sink failed.
    Send,
    /// A timing resolution the scheduler cannot interpret.
    TimingUnsupported,
    /// Sequential playback needs each track's declared end.
    MissingEndOfTrack { track: usize },
}

/// A fixed description of an error, for reporting.
pub open spec fn spec_describe(e: MidiError) -> Seq<char> {
    match e {
        MidiError::Decode => "malformed MIDI data"@,
        MidiError::DeviceUnavailable { available, requested } => {
            if available == 0 {
                "no MIDI output device detected"@
            } else {
                "the requested MIDI output device does not exist"@
            }
        },
        MidiError::Connection => "could not connect to the MIDI output device"@,
        MidiError::Send => "sending to the MIDI output device failed"@,
        MidiError::TimingUnsupported => "unsupported timing resolution"@,
        MidiError::MissingEndOfTrack { track } => "a track has no end-of-track event"@,
    }
}

impl MidiError {
    /// A human-readable description; the caller adds the numbers it has.
    pub fn describe(&self) -> (r: String)
        ensures
            r@ == spec_describe(*self),
    {
        match *self {
            MidiError::Decode => String::from_str("malformed MIDI data"),
            MidiError::DeviceUnavailable { available, requested: _ } => {
                if available == 0 {
                    String::from_str("no MIDI output device detected")
                } else {
                    String::from_str("the requested MIDI output device does not exist")
                }
            },
            MidiError::Connection => String::from_str("could not connect to the MIDI output device"),
            MidiError::Send => String::from_str("sending to the MIDI output device failed"),
            MidiError::TimingUnsupported => String::from_str("unsupported timing resolution"),
            MidiError::MissingEndOfTrack { track: _ } => String::from_str(
                "a track has no end-of-track event",
            ),
        }
    }
}

/// Decide whether the requested device index can be honoured among the
/// devices present. With zero devices present this always reports the
/// device as unavailable: never a send error, never silent success.
pub fn select_device(requested: usize, available: usize) -> (r: Result<usize, MidiError>)
    ensures
        requested < available ==> r == Result::<usize, MidiError>::Ok(requested),
        requested >= available ==> r == Result::<usize, MidiError>::Err(
            (MidiError::DeviceUnavailable { available, requested }),
        ),
        available == 0 ==> (r matches Err(e) && e is DeviceUnavailable),
{
    if requested < available {
        Ok(requested)
    } else {
        Err(MidiError::DeviceUnavailable { available, requested })
    }
}

} // verus!
