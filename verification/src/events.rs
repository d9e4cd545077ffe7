//! The event model: decoded MIDI track events as plain values.
//!
//! A track is an ordered `Vec<TrackEvent>`; each event carries the ticks
//! elapsed since the previous event on the same track (its delta time)
//! and either a channel message, a meta message, or something the core
//! does not interpret.

use vstd::prelude::*;

verus! {

/// A message addressed to one of the 16 MIDI channels.
#[derive(Clone, Copy, PartialEq, Eq, Structural, Debug)]
pub enum ChannelMessage {
    NoteOn { key: u8, vel: u8 },
    NoteOff { key: u8, vel: u8 },
    Aftertouch { key: u8, vel: u8 },
    Controller { controller: u8, value: u8 },
    ProgramChange { program: u8 },
    ChannelAftertouch { vel: u8 },
    PitchBend { bend: u16 },
}

/// A meta event; only the kinds the core reads carry their payload.
#[derive(Clone, Copy, PartialEq, Eq, Structural, Debug)]
pub enum MetaMessage {
    TrackName,
    InstrumentName,
    TrackNumber,
    MidiChannel { channel: u8 },
    MidiPort { port: u8 },
    Tempo { micros_per_beat: u32 },
    EndOfTrack,
    Other,
}

/// The payload of a track event.
#[derive(Clone, Copy, PartialEq, Eq, Structural, Debug)]
pub enum EventKind {
    Channel { channel: u8, message: ChannelMessage },
    Meta(MetaMessage),
    Other,
}

/// One decoded track event: a delta time in ticks and a payload.
#[derive(Clone, Copy, PartialEq, Eq, Structural, Debug)]
pub struct TrackEvent {
    pub delta: u32,
    pub kind: EventKind,
}

/// The file's declared track arrangement, which selects the sequencing mode.
#[derive(Clone, Copy, PartialEq, Eq, Structural, Debug)]
pub enum Format {
    SingleTrack,
    Sequential,
    Parallel,
}

/// Ranges the MIDI wire format guarantees for a channel message's data bytes.
pub open spec fn wf_channel_message(m: ChannelMessage) -> bool {
    match m {
        ChannelMessage::NoteOn { key, vel } => key < 128 && vel < 128,
        ChannelMessage::NoteOff { key, vel } => key < 128 && vel < 128,
        ChannelMessage::Aftertouch { key, vel } => key < 128 && vel < 128,
        ChannelMessage::Controller { controller, value } => controller < 128 && value < 128,
        ChannelMessage::ProgramChange { program } => program < 128,
        ChannelMessage::ChannelAftertouch { vel } => vel < 128,
        ChannelMessage::PitchBend { bend } => bend < 16384,
    }
}

/// The bytes of a channel message on the wire: a status byte holding the
/// message kind and the channel, then the data bytes.
pub open spec fn spec_encode(channel: u8, m: ChannelMessage) -> Seq<u8> {
    match m {
        ChannelMessage::NoteOff { key, vel } => seq![(0x80 + channel) as u8, key, vel],
        ChannelMessage::NoteOn { key, vel } => seq![(0x90 + channel) as u8, key, vel],
        ChannelMessage::Aftertouch { key, vel } => seq![(0xa0 + channel) as u8, key, vel],
        ChannelMessage::Controller { controller, value } => seq![
            (0xb0 + channel) as u8,
            controller,
            value,
        ],
        ChannelMessage::ProgramChange { program } => seq![(0xc0 + channel) as u8, program],
        ChannelMessage::ChannelAftertouch { vel } => seq![(0xd0 + channel) as u8, vel],
        ChannelMessage::PitchBend { bend } => seq![
            (0xe0 + channel) as u8,
            (bend % 128) as u8,
            (bend / 128) as u8,
        ],
    }
}

/// Encode a channel message for the wire.
pub fn encode_channel_message(channel: u8, m: &ChannelMessage) -> (r: Vec<u8>)
    requires
        channel < 16,
        wf_channel_message(*m),
    ensures
        r@ == spec_encode(channel, *m),
{
    let mut out: Vec<u8> = Vec::new();
    match *m {
        ChannelMessage::NoteOff { key, vel } => {
            out.push(0x80 + channel);
            out.push(key);
            out.push(vel);
        },
        ChannelMessage::NoteOn { key, vel } => {
            out.push(0x90 + channel);
            out.push(key);
            out.push(vel);
        },
        ChannelMessage::Aftertouch { key, vel } => {
            out.push(0xa0 + channel);
            out.push(key);
            out.push(vel);
        },
        ChannelMessage::Controller { controller, value } => {
            out.push(0xb0 + channel);
            out.push(controller);
            out.push(value);
        },
        ChannelMessage::ProgramChange { program } => {
            out.push(0xc0 + channel);
            out.push(program);
        },
        ChannelMessage::ChannelAftertouch { vel } => {
            out.push(0xd0 + channel);
            out.push(vel);
        },
        ChannelMessage::PitchBend { bend } => {
            out.push(0xe0 + channel);
            out.push((bend % 128) as u8);
            out.push((bend / 128) as u8);
        },
    }
    proof {
        assert(out@ =~= spec_encode(channel, *m));
    }
    out
}

/// Encode a channel message, rejecting values outside the wire format's
/// ranges instead of demanding them up front.
pub fn encode_message_checked(channel: u8, m: &ChannelMessage) -> (r: Option<Vec<u8>>)
    ensures
        channel < 16 && wf_channel_message(*m) ==> (r matches Some(b) && b@ == spec_encode(
            channel,
            *m,
        )),
        !(channel < 16 && wf_channel_message(*m)) ==> r is None,
{
    if channel >= 16 {
        return None;
    }
    let ok = match *m {
        ChannelMessage::NoteOn { key, vel } => key < 128 && vel < 128,
        ChannelMessage::NoteOff { key, vel } => key < 128 && vel < 128,
        ChannelMessage::Aftertouch { key, vel } => key < 128 && vel < 128,
        ChannelMessage::Controller { controller, value } => controller < 128 && value < 128,
        ChannelMessage::ProgramChange { program } => program < 128,
        ChannelMessage::ChannelAftertouch { vel } => vel < 128,
        ChannelMessage::PitchBend { bend } => bend < 16384,
    };
    if ok {
        Some(encode_channel_message(channel, m))
    } else {
        None
    }
}

} // verus!
