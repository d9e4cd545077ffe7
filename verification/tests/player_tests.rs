use midiplay::events::{ChannelMessage, EventKind, MetaMessage, TrackEvent};
use midiplay::player::{OutMessage, Player, PlayerPhase, StepResult};
use midiplay::sheet::{Sheet, TimedEvent};
use midiplay::timing::{Timer, Timing};

fn note_on(key: u8) -> TrackEvent {
    TrackEvent {
        delta: 0,
        kind: EventKind::Channel { channel: 0, message: ChannelMessage::NoteOn { key, vel: 100 } },
    }
}

fn tempo(micros_per_beat: u32) -> TrackEvent {
    TrackEvent { delta: 0, kind: EventKind::Meta(MetaMessage::Tempo { micros_per_beat }) }
}

fn timed(tick: u64, track: usize, event: TrackEvent) -> TimedEvent {
    TimedEvent { tick, track, event }
}

fn metrical_player(events: Vec<TimedEvent>, ticks_per_beat: u16) -> Player {
    let timer = Timer::try_new(Timing::Metrical { ticks_per_beat }).unwrap();
    Player::new(Sheet { events }, timer)
}

#[test]
fn playback_delivers_every_channel_message_in_sheet_order() {
    let events = vec![
        timed(0, 1, note_on(60)),
        timed(10, 1, note_on(62)),
        timed(20, 2, note_on(64)),
    ];
    let mut player = metrical_player(events, 480);
    let mut sent: Vec<OutMessage> = Vec::new();
    loop {
        match player.step(false) {
            StepResult::Emit { send, .. } => {
                if let Some(msg) = send {
                    sent.push(msg);
                }
            }
            StepResult::Finished => break,
            StepResult::Aborted => panic!("nothing aborted this run"),
        }
    }
    let keys: Vec<u8> = sent
        .iter()
        .map(|m| match m.message {
            ChannelMessage::NoteOn { key, .. } => key,
            _ => 255,
        })
        .collect();
    assert_eq!(keys, vec![60, 62, 64]);
    assert_eq!(player.phase, PlayerPhase::Finished);
}

#[test]
fn tempo_events_update_the_timer_and_are_not_sent() {
    // 480 ticks/beat; a tempo change at tick 480 doubles the speed, so the
    // note at tick 720 waits 500000 then 125000 microseconds.
    let events = vec![timed(480, 1, tempo(250_000)), timed(720, 1, note_on(60))];
    let mut player = metrical_player(events, 480);

    let first = player.step(false);
    match first {
        StepResult::Emit { wait_micros, send } => {
            assert_eq!(wait_micros, 500_000);
            assert_eq!(send, None);
        }
        _ => panic!("expected an event"),
    }
    assert_eq!(player.timer.tempo, 250_000);

    let second = player.step(false);
    match second {
        StepResult::Emit { wait_micros, send } => {
            assert_eq!(wait_micros, 125_000);
            assert!(send.is_some());
        }
        _ => panic!("expected an event"),
    }
    assert!(matches!(player.step(false), StepResult::Finished));
}

#[test]
fn cancellation_stops_delivery_before_the_next_send() {
    let events = vec![
        timed(0, 1, note_on(60)),
        timed(10, 1, note_on(62)),
        timed(20, 1, note_on(64)),
    ];
    let mut player = metrical_player(events, 480);

    // One event goes out, then the stop signal is raised.
    assert!(matches!(player.step(false), StepResult::Emit { .. }));
    let pos_before = player.pos;
    assert!(matches!(player.step(true), StepResult::Aborted));
    assert_eq!(player.phase, PlayerPhase::Aborted);
    // The abort happened before the next send: no event was consumed.
    assert_eq!(player.pos, pos_before);

    // No further sink writes are observable afterwards, signal or not.
    assert!(matches!(player.step(false), StepResult::Aborted));
    assert!(matches!(player.step(true), StepResult::Aborted));
}

#[test]
fn a_send_failure_aborts_the_run_for_good() {
    let events = vec![timed(0, 1, note_on(60)), timed(10, 1, note_on(62))];
    let mut player = metrical_player(events, 480);
    assert!(matches!(player.step(false), StepResult::Emit { .. }));
    player.abort();
    assert_eq!(player.phase, PlayerPhase::Aborted);
    assert!(matches!(player.step(false), StepResult::Aborted));
}

#[test]
fn an_empty_sheet_finishes_at_once() {
    let mut player = metrical_player(Vec::new(), 480);
    assert!(matches!(player.step(false), StepResult::Finished));
    assert_eq!(player.phase, PlayerPhase::Finished);
    assert!(matches!(player.step(false), StepResult::Finished));
}

#[test]
fn waits_come_from_tick_gaps() {
    let events = vec![timed(240, 1, note_on(60)), timed(480, 1, note_on(62))];
    let mut player = metrical_player(events, 480);
    match player.step(false) {
        StepResult::Emit { wait_micros, .. } => assert_eq!(wait_micros, 250_000),
        _ => panic!("expected an event"),
    }
    match player.step(false) {
        StepResult::Emit { wait_micros, .. } => assert_eq!(wait_micros, 250_000),
        _ => panic!("expected an event"),
    }
}

#[test]
fn a_tempo_event_in_one_track_retimes_every_track() {
    // The tempo change sits in track 1, the note in track 2; merged in
    // parallel, the change still governs the note's wait.
    let t1 = vec![TrackEvent {
        delta: 480,
        kind: EventKind::Meta(MetaMessage::Tempo { micros_per_beat: 250_000 }),
    }];
    let t2 = vec![TrackEvent {
        delta: 720,
        kind: EventKind::Channel {
            channel: 0,
            message: ChannelMessage::NoteOn { key: 60, vel: 100 },
        },
    }];
    let sheet = midiplay::sheet::parallel(&vec![t1, t2]);
    let timer = Timer::try_new(Timing::Metrical { ticks_per_beat: 480 }).unwrap();
    let mut player = Player::new(sheet, timer);

    match player.step(false) {
        StepResult::Emit { wait_micros, send } => {
            assert_eq!(wait_micros, 500_000);
            assert_eq!(send, None);
        }
        _ => panic!("expected the tempo event"),
    }
    match player.step(false) {
        StepResult::Emit { wait_micros, send } => {
            assert_eq!(wait_micros, 125_000);
            assert!(send.is_some());
        }
        _ => panic!("expected the note"),
    }
    assert!(matches!(player.step(false), StepResult::Finished));
}
