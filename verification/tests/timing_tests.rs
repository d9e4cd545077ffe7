use midiplay::device::MidiError;
use midiplay::timing::{Timer, Timing, DEFAULT_TEMPO};

#[test]
fn metrical_timer_starts_at_the_default_tempo() {
    let timer = Timer::try_new(Timing::Metrical { ticks_per_beat: 480 }).unwrap();
    assert_eq!(timer.tempo, DEFAULT_TEMPO);
    assert_eq!(timer.tempo, 500_000);
}

#[test]
fn tick_to_time_conversion_under_a_tempo_change() {
    // 480 ticks per beat; 500000 us/beat for ticks [0, 480), then
    // 250000 us/beat from tick 480 on. An event at tick 720 falls at
    // 480 * (500000/480) + 240 * (250000/480) microseconds from start.
    let mut timer = Timer::try_new(Timing::Metrical { ticks_per_beat: 480 }).unwrap();
    let first = timer.wait_micros(480);
    assert_eq!(first, 480 * (500_000 / 480) + 480 * (500_000 % 480) / 480);
    assert_eq!(first, 500_000);
    timer.set_tempo(250_000);
    let second = timer.wait_micros(240);
    assert_eq!(second, 125_000);
    assert_eq!(first + second, 625_000);
}

#[test]
fn timecode_ratio_is_fixed_and_ignores_tempo() {
    // 25 frames per second, 40 ticks per frame: 1000 ticks per second.
    let mut timer =
        Timer::try_new(Timing::Timecode { frames_per_second: 25, ticks_per_frame: 40 }).unwrap();
    assert_eq!(timer.wait_micros(1000), 1_000_000);
    assert_eq!(timer.wait_micros(1), 1_000);
    timer.set_tempo(250_000);
    assert_eq!(timer.wait_micros(1000), 1_000_000);
}

#[test]
fn unrecognized_resolutions_are_rejected_not_guessed() {
    assert_eq!(
        Timer::try_new(Timing::Metrical { ticks_per_beat: 0 }).unwrap_err(),
        MidiError::TimingUnsupported
    );
    assert_eq!(
        Timer::try_new(Timing::Timecode { frames_per_second: 0, ticks_per_frame: 40 })
            .unwrap_err(),
        MidiError::TimingUnsupported
    );
    assert_eq!(
        Timer::try_new(Timing::Timecode { frames_per_second: 25, ticks_per_frame: 0 })
            .unwrap_err(),
        MidiError::TimingUnsupported
    );
}

#[test]
fn zero_delta_costs_no_time() {
    let timer = Timer::try_new(Timing::Metrical { ticks_per_beat: 480 }).unwrap();
    assert_eq!(timer.wait_micros(0), 0);
}
