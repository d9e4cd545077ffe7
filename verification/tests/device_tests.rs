use midiplay::device::{select_device, MidiError};
use midiplay::events::{encode_channel_message, encode_message_checked, ChannelMessage};

#[test]
fn zero_devices_present_means_device_unavailable() {
    let r = select_device(0, 0);
    assert_eq!(r.unwrap_err(), MidiError::DeviceUnavailable { available: 0, requested: 0 });
    // Never a send error and never silent success.
    let r = select_device(3, 0);
    match r {
        Err(MidiError::DeviceUnavailable { available, requested }) => {
            assert_eq!(available, 0);
            assert_eq!(requested, 3);
        }
        other => panic!("expected DeviceUnavailable, got {:?}", other),
    }
}

#[test]
fn an_index_past_the_device_count_is_unavailable() {
    assert_eq!(
        select_device(2, 2).unwrap_err(),
        MidiError::DeviceUnavailable { available: 2, requested: 2 }
    );
}

#[test]
fn an_index_in_range_is_honoured() {
    assert_eq!(select_device(0, 1).unwrap(), 0);
    assert_eq!(select_device(3, 5).unwrap(), 3);
}

#[test]
fn errors_describe_themselves() {
    let none = MidiError::DeviceUnavailable { available: 0, requested: 0 };
    assert_eq!(none.describe(), "no MIDI output device detected");
    let few = MidiError::DeviceUnavailable { available: 2, requested: 7 };
    assert_eq!(few.describe(), "the requested MIDI output device does not exist");
    assert_eq!(MidiError::TimingUnsupported.describe(), "unsupported timing resolution");
    assert_eq!(
        MidiError::MissingEndOfTrack { track: 4 }.describe(),
        "a track has no end-of-track event"
    );
    assert_eq!(MidiError::Send.describe(), "sending to the MIDI output device failed");
    assert_eq!(MidiError::Decode.describe(), "malformed MIDI data");
    assert_eq!(
        MidiError::Connection.describe(),
        "could not connect to the MIDI output device"
    );
}

#[test]
fn channel_messages_encode_to_their_wire_bytes() {
    let b = encode_channel_message(0, &ChannelMessage::NoteOn { key: 60, vel: 100 });
    assert_eq!(b, vec![0x90, 60, 100]);
    let b = encode_channel_message(15, &ChannelMessage::NoteOff { key: 60, vel: 64 });
    assert_eq!(b, vec![0x8f, 60, 64]);
    let b = encode_channel_message(9, &ChannelMessage::ProgramChange { program: 40 });
    assert_eq!(b, vec![0xc9, 40]);
    let b = encode_channel_message(1, &ChannelMessage::Controller { controller: 7, value: 99 });
    assert_eq!(b, vec![0xb1, 7, 99]);
    let b = encode_channel_message(2, &ChannelMessage::PitchBend { bend: 8192 });
    assert_eq!(b, vec![0xe2, 0, 64]);
    let b = encode_channel_message(3, &ChannelMessage::ChannelAftertouch { vel: 55 });
    assert_eq!(b, vec![0xd3, 55]);
    let b = encode_channel_message(4, &ChannelMessage::Aftertouch { key: 61, vel: 20 });
    assert_eq!(b, vec![0xa4, 61, 20]);
}

#[test]
fn out_of_range_messages_are_refused_by_the_checked_encoder() {
    assert_eq!(encode_message_checked(16, &ChannelMessage::NoteOn { key: 60, vel: 100 }), None);
    assert_eq!(encode_message_checked(0, &ChannelMessage::NoteOn { key: 128, vel: 100 }), None);
    assert_eq!(encode_message_checked(0, &ChannelMessage::PitchBend { bend: 16384 }), None);
    assert_eq!(
        encode_message_checked(0, &ChannelMessage::NoteOn { key: 60, vel: 100 }),
        Some(vec![0x90, 60, 100])
    );
}
