use midiplay::events::{ChannelMessage, EventKind, MetaMessage, TrackEvent};
use midiplay::info::{bpm_milli, get_midi_info};
use midiplay::instruments::resolve_instrument;

fn ch(delta: u32, channel: u8, message: ChannelMessage) -> TrackEvent {
    TrackEvent { delta, kind: EventKind::Channel { channel, message } }
}

fn meta(delta: u32, message: MetaMessage) -> TrackEvent {
    TrackEvent { delta, kind: EventKind::Meta(message) }
}

#[test]
fn num_tracks_matches_track_count() {
    let tracks = vec![
        vec![ch(0, 0, ChannelMessage::NoteOn { key: 60, vel: 100 })],
        vec![],
        vec![meta(0, MetaMessage::EndOfTrack)],
    ];
    let info = get_midi_info(&tracks);
    assert_eq!(info.num_tracks, 3);
    assert_eq!(info.tracks.len(), 3);

    let none: Vec<Vec<TrackEvent>> = Vec::new();
    assert_eq!(get_midi_info(&none).num_tracks, 0);
}

#[test]
fn note_counter_counts_only_positive_velocity() {
    let track = vec![
        ch(0, 0, ChannelMessage::NoteOn { key: 60, vel: 100 }),
        ch(10, 0, ChannelMessage::NoteOn { key: 62, vel: 0 }),
        ch(10, 0, ChannelMessage::NoteOn { key: 64, vel: 1 }),
        ch(10, 0, ChannelMessage::NoteOff { key: 60, vel: 64 }),
        meta(0, MetaMessage::EndOfTrack),
    ];
    let info = get_midi_info(&vec![track]);
    assert_eq!(info.tracks[0].num_notes, 2);
}

#[test]
fn velocity_zero_note_ons_never_count() {
    let track = vec![
        ch(0, 0, ChannelMessage::NoteOn { key: 60, vel: 0 }),
        ch(5, 1, ChannelMessage::NoteOn { key: 61, vel: 0 }),
        ch(5, 2, ChannelMessage::NoteOn { key: 62, vel: 0 }),
    ];
    let info = get_midi_info(&vec![track]);
    assert_eq!(info.tracks[0].num_notes, 0);
}

#[test]
fn tempo_list_keeps_encounter_order_across_tracks() {
    let t1 = vec![
        meta(0, MetaMessage::Tempo { micros_per_beat: 500_000 }),
        meta(10, MetaMessage::Tempo { micros_per_beat: 250_000 }),
    ];
    let t2 = vec![meta(0, MetaMessage::Tempo { micros_per_beat: 1_000_000 })];
    let info = get_midi_info(&vec![t1, t2]);
    // 500000 us/beat is exactly 120 BPM, kept in thousandths of a BPM.
    assert_eq!(info.tempi, vec![120_000, 240_000, 60_000]);
}

#[test]
fn bpm_conversion_is_exact_for_the_reference_tempo() {
    assert_eq!(bpm_milli(500_000), 120_000);
    assert_eq!(bpm_milli(250_000), 240_000);
    // A degenerate zero tempo maps to zero rather than failing.
    assert_eq!(bpm_milli(0), 0);
}

#[test]
fn instrument_resolution_is_a_pure_function_of_the_program() {
    assert_eq!(resolve_instrument(0), "acoustic grand piano");
    assert_eq!(resolve_instrument(40), "violin");
    assert_eq!(resolve_instrument(127), "127");
    // Idempotent across repeated calls.
    assert_eq!(resolve_instrument(40), resolve_instrument(40));
    assert_eq!(resolve_instrument(127), resolve_instrument(127));
}

#[test]
fn instrument_list_keeps_program_change_order_and_repeats() {
    let track = vec![
        ch(0, 0, ChannelMessage::ProgramChange { program: 40 }),
        ch(10, 0, ChannelMessage::ProgramChange { program: 40 }),
        ch(10, 0, ChannelMessage::ProgramChange { program: 0 }),
        ch(10, 0, ChannelMessage::ProgramChange { program: 99 }),
    ];
    let info = get_midi_info(&vec![track]);
    assert_eq!(
        info.tracks[0].instruments,
        vec!["violin", "violin", "acoustic grand piano", "99"]
    );
}

#[test]
fn ports_and_channels_collected_per_track_in_order() {
    let t1 = vec![
        meta(0, MetaMessage::MidiPort { port: 3 }),
        meta(0, MetaMessage::MidiChannel { channel: 5 }),
        meta(0, MetaMessage::MidiPort { port: 1 }),
    ];
    let t2 = vec![meta(0, MetaMessage::MidiChannel { channel: 9 })];
    let info = get_midi_info(&vec![t1, t2]);
    assert_eq!(info.tracks[0].ports, vec![3, 1]);
    assert_eq!(info.tracks[0].channels, vec![5]);
    assert_eq!(info.tracks[1].ports, Vec::<u8>::new());
    assert_eq!(info.tracks[1].channels, vec![9]);
}

#[test]
fn unrecognized_events_are_skipped_not_errors() {
    let track = vec![
        meta(0, MetaMessage::TrackName),
        meta(0, MetaMessage::InstrumentName),
        meta(0, MetaMessage::TrackNumber),
        TrackEvent { delta: 0, kind: EventKind::Other },
        meta(0, MetaMessage::EndOfTrack),
    ];
    let info = get_midi_info(&vec![track]);
    assert_eq!(info.tracks[0].num_notes, 0);
    assert!(info.tracks[0].instruments.is_empty());
    assert!(info.tempi.is_empty());
}
