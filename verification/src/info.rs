//! The metadata aggregator: one read-only pass over every track.
//!
//! For each track it records the ports, channels and resolved instrument
//! names in encounter order and counts the sounding note-on events; across
//! all tracks it records every tempo event in encounter order, converted
//! to thousandths of a beat per minute.

use vstd::prelude::*;

use crate::events::{ChannelMessage, EventKind, MetaMessage, TrackEvent};
use crate::instruments::{resolve_instrument, spec_instrument};

verus! {

/// Beats per minute, scaled by 1000 to stay exact in integers:
/// 500000 microseconds per beat is 120000, that is 120.000 BPM.
/// A (malformed) tempo of zero microseconds per beat maps to zero.
pub open spec fn spec_bpm_milli(micros_per_beat: int) -> int {
    if micros_per_beat <= 0 {
        0
    } else {
        60_000_000_000int / micros_per_beat
    }
}

/// Convert microseconds per beat to thousandths of a beat per minute.
pub fn bpm_milli(micros_per_beat: u32) -> (r: u64)
    ensures
        r == spec_bpm_milli(micros_per_beat as int),
{
    if micros_per_beat == 0 {
        0
    } else {
        60_000_000_000u64 / (micros_per_beat as u64)
    }
}

/// How many note-on events with strictly positive velocity a track holds.
pub open spec fn spec_note_count(track: Seq<TrackEvent>) -> int
    decreases track.len(),
{
    if track.len() == 0 {
        0
    } else {
        spec_note_count(track.drop_last()) + (match track.last().kind {
            EventKind::Channel { channel: _, message } => match message {
                ChannelMessage::NoteOn { key: _, vel } => if vel > 0 {
                    1int
                } else {
                    0int
                },
                _ => 0int,
            },
            _ => 0int,
        })
    }
}

/// The ports named by a track's MIDI-port meta events, in encounter order.
pub open spec fn spec_ports(track: Seq<TrackEvent>) -> Seq<u8>
    decreases track.len(),
{
    if track.len() == 0 {
        Seq::empty()
    } else {
        spec_ports(track.drop_last()) + (match track.last().kind {
            EventKind::Meta(MetaMessage::MidiPort { port }) => seq![port],
            _ => Seq::empty(),
        })
    }
}

/// The channels named by a track's MIDI-channel meta events, in encounter order.
pub open spec fn spec_channels(track: Seq<TrackEvent>) -> Seq<u8>
    decreases track.len(),
{
    if track.len() == 0 {
        Seq::empty()
    } else {
        spec_channels(track.drop_last()) + (match track.last().kind {
            EventKind::Meta(MetaMessage::MidiChannel { channel }) => seq![channel],
            _ => Seq::empty(),
        })
    }
}

/// The resolved instrument names of a track's program changes, in
/// program-change order, repeats kept.
pub open spec fn spec_instruments(track: Seq<TrackEvent>) -> Seq<Seq<char>>
    decreases track.len(),
{
    if track.len() == 0 {
        Seq::empty()
    } else {
        spec_instruments(track.drop_last()) + (match track.last().kind {
            EventKind::Channel {
                channel: _,
                message: ChannelMessage::ProgramChange { program },
            } => seq![spec_instrument(program as int)],
            _ => Seq::empty(),
        })
    }
}

/// The tempo values of one track in encounter order, as milli-BPM.
pub open spec fn spec_track_tempi(track: Seq<TrackEvent>) -> Seq<u64>
    decreases track.len(),
{
    if track.len() == 0 {
        Seq::empty()
    } else {
        spec_track_tempi(track.drop_last()) + (match track.last().kind {
            EventKind::Meta(MetaMessage::Tempo { micros_per_beat }) => seq![
                spec_bpm_milli(micros_per_beat as int) as u64,
            ],
            _ => Seq::empty(),
        })
    }
}

/// The tempo values of a whole file in encounter order: tracks in file
/// order, events in track order. Tempo is file-scoped even though each
/// event physically sits in one track.
pub open spec fn spec_tempi(tracks: Seq<Seq<TrackEvent>>) -> Seq<u64>
    decreases tracks.len(),
{
    if tracks.len() == 0 {
        Seq::empty()
    } else {
        spec_tempi(tracks.drop_last()) + spec_track_tempi(tracks.last())
    }
}

/// What the aggregator gathered from one track.
pub struct TrackInfo {
    /// Ports named by MIDI-port meta events, in encounter order.
    pub ports: Vec<u8>,
    /// Channels named by MIDI-channel meta events, in encounter order.
    pub channels: Vec<u8>,
    /// Resolved instrument names, in program-change order, repeats kept.
    pub instruments: Vec<String>,
    /// Note-on events with strictly positive velocity.
    pub num_notes: usize,
}

/// The aggregator's output: per-track records in ascending track order
/// (index 0 is track 1) and the file-wide tempo list.
pub struct MidiInfo {
    pub num_tracks: usize,
    pub tracks: Vec<TrackInfo>,
    /// Tempo values in encounter order, in milli-BPM.
    pub tempi: Vec<u64>,
}

/// Whether one gathered record says exactly what the track holds.
pub open spec fn track_info_matches(info: TrackInfo, track: Seq<TrackEvent>) -> bool {
    &&& info.ports@ == spec_ports(track)
    &&& info.channels@ == spec_channels(track)
    &&& info.instruments@.map_values(|s: String| s@) == spec_instruments(track)
    &&& info.num_notes == spec_note_count(track)
}

/// Walk one track once, gathering its record and appending its tempo
/// events to the file-wide list.
fn scan_track(track: &Vec<TrackEvent>, tempi: &mut Vec<u64>) -> (r: TrackInfo)
    ensures
        track_info_matches(r, track@),
        final(tempi)@ == old(tempi)@ + spec_track_tempi(track@),
{
    let ghost tempi0 = tempi@;
    let mut ports: Vec<u8> = Vec::new();
    let mut channels: Vec<u8> = Vec::new();
    let mut instruments: Vec<String> = Vec::new();
    let mut num_notes: usize = 0;
    let n = track.len();
    let mut j: usize = 0;
    while j < n
        invariant
            j <= n,
            n == track@.len(),
            ports@ == spec_ports(track@.take(j as int)),
            channels@ == spec_channels(track@.take(j as int)),
            instruments@.map_values(|s: String| s@) == spec_instruments(track@.take(j as int)),
            num_notes == spec_note_count(track@.take(j as int)),
            num_notes <= j,
            tempi@ == tempi0 + spec_track_tempi(track@.take(j as int)),
        decreases n - j,
    {
        let ghost pre = track@.take(j as int);
        let ghost post = track@.take(j as int + 1);
        proof {
            assert(post.drop_last() =~= pre);
            assert(post.last() == track@[j as int]);
        }
        let ev = track[j];
        match ev.kind {
            EventKind::Channel { channel: _, message } => {
                match message {
                    ChannelMessage::ProgramChange { program } => {
                        let name = resolve_instrument(program);
                        instruments.push(name);
                        proof {
                            assert(instruments@.map_values(|s: String| s@) =~= spec_instruments(
                                post,
                            ));
                        }
                    },
                    ChannelMessage::NoteOn { key: _, vel } => {
                        if vel > 0 {
                            num_notes = num_notes + 1;
                        }
                    },
                    _ => {},
                }
            },
            EventKind::Meta(message) => {
                match message {
                    MetaMessage::MidiChannel { channel } => {
                        channels.push(channel);
                    },
                    MetaMessage::MidiPort { port } => {
                        ports.push(port);
                    },
                    MetaMessage::Tempo { micros_per_beat } => {
                        let bpm = bpm_milli(micros_per_beat);
                        tempi.push(bpm);
                    },
                    _ => {},
                }
            },
            EventKind::Other => {},
        }
        proof {
            assert(ports@ =~= spec_ports(post));
            assert(channels@ =~= spec_channels(post));
            assert(instruments@.map_values(|s: String| s@) =~= spec_instruments(post));
            assert(tempi@ =~= tempi0 + spec_track_tempi(post));
        }
        j = j + 1;
    }
    proof {
        assert(track@.take(n as int) =~= track@);
    }
    TrackInfo { ports, channels, instruments, num_notes }
}

/// Aggregate the decoded tracks into one report. Never fails on decoded
/// input: unrecognized event kinds are skipped, not errors.
pub fn get_midi_info(tracks: &Vec<Vec<TrackEvent>>) -> (r: MidiInfo)
    ensures
        r.num_tracks == tracks@.len(),
        r.tracks@.len() == tracks@.len(),
        forall|i: int|
            0 <= i < tracks@.len() ==> track_info_matches(#[trigger] r.tracks@[i], tracks@[i]@),
        r.tempi@ == spec_tempi(tracks@.map_values(|t: Vec<TrackEvent>| t@)),
{
    let mut infos: Vec<TrackInfo> = Vec::new();
    let mut tempi: Vec<u64> = Vec::new();
    let n = tracks.len();
    let ghost tviews = tracks@.map_values(|t: Vec<TrackEvent>| t@);
    let mut i: usize = 0;
    while i < n
        invariant
            i <= n,
            n == tracks@.len(),
            tviews == tracks@.map_values(|t: Vec<TrackEvent>| t@),
            infos@.len() == i,
            forall|k: int|
                0 <= k < i ==> track_info_matches(#[trigger] infos@[k], tracks@[k]@),
            tempi@ == spec_tempi(tviews.take(i as int)),
        decreases n - i,
    {
        let info = scan_track(&tracks[i], &mut tempi);
        infos.push(info);
        proof {
            assert(tviews.take(i as int + 1).drop_last() =~= tviews.take(i as int));
            assert(tviews.take(i as int + 1).last() == tracks@[i as int]@);
            assert(tempi@ =~= spec_tempi(tviews.take(i as int + 1)));
        }
        i = i + 1;
    }
    proof {
        assert(tviews.take(n as int) =~= tviews);
    }
    MidiInfo { num_tracks: n, tracks: infos, tempi }
}

} // verus!
