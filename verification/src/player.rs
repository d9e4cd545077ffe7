//! The playback loop as a state machine.
//!
//! The player walks a sheet entry by entry. Each step yields the
//! wall-clock wait before the entry and, for a channel message, what to
//! send to the output sink; the caller sleeps, sends, and steps again.
//! A tempo meta event updates the active tempo for all later steps and is
//! itself never sent. A cancellation signal is honoured at every event
//! boundary, before the next send; an aborted or finished player never
//! delivers anything again.

use vstd::prelude::*;

use crate::events::{ChannelMessage, EventKind, MetaMessage, TrackEvent};
use crate::sheet::Sheet;
use crate::timing::{spec_wait_sat, Timer};

verus! {

/// Where a run stands.
#[derive(Clone, Copy, PartialEq, Eq, Structural, Debug)]
pub enum PlayerPhase {
    Playing,
    Finished,
    Aborted,
}

/// A channel message bound for the output sink.
#[derive(Clone, Copy, PartialEq, Eq, Structural, Debug)]
pub struct OutMessage {
    pub channel: u8,
    pub message: ChannelMessage,
}

/// What one step asks the caller to do.
#[derive(Clone, Copy, PartialEq, Eq, Structural, Debug)]
pub enum StepResult {
    /// Sleep `wait_micros`, then send `send` if there is one.
    Emit { wait_micros: u64, send: Option<OutMessage> },
    /// The sheet is exhausted; the run succeeded.
    Finished,
    /// Cancelled or failed; nothing further will be delivered.
    Aborted,
}

/// The tick gap to the next event; a sheet is time-ordered, so an earlier
/// tick can only come from a malformed one and then costs no wait.
pub open spec fn spec_delta(last_tick: int, tick: int) -> int {
    if tick >= last_tick {
        tick - last_tick
    } else {
        0
    }
}

/// What an event sends to the sink: its channel message, or nothing.
/// Meta events are not wire-level channel messages and are never sent.
pub open spec fn spec_send(e: TrackEvent) -> Option<OutMessage> {
    match e.kind {
        EventKind::Channel { channel, message } => Some(OutMessage { channel, message }),
        _ => None,
    }
}

/// The tempo active after an event: a tempo meta event replaces it, any
/// other event keeps it.
pub open spec fn spec_new_tempo(tempo: u32, e: TrackEvent) -> u32 {
    match e.kind {
        EventKind::Meta(MetaMessage::Tempo { micros_per_beat }) => micros_per_beat,
        _ => tempo,
    }
}

/// The playback state machine.
pub struct Player {
    pub sheet: Sheet,
    pub timer: Timer,
    /// The next sheet entry to deliver.
    pub pos: usize,
    /// The absolute tick of the entry last delivered.
    pub last_tick: u64,
    pub phase: PlayerPhase,
}

impl Player {
    pub open spec fn wf(&self) -> bool {
        &&& self.timer.wf()
        &&& self.pos <= self.sheet.events@.len()
    }

    /// Stand at the sheet's start: clock at 0, default or current tempo
    /// in the timer, ready to play.
    pub fn new(sheet: Sheet, timer: Timer) -> (r: Player)
        requires
            timer.wf(),
        ensures
            r.wf(),
            r.sheet.events@ == sheet.events@,
            r.timer == timer,
            r.pos == 0,
            r.last_tick == 0,
            r.phase is Playing,
    {
        Player { sheet, timer, pos: 0, last_tick: 0, phase: PlayerPhase::Playing }
    }

    /// Record that a send failed: the run is over and nothing further
    /// will be delivered.
    pub fn abort(&mut self)
        ensures
            final(self).phase is Aborted,
            final(self).sheet.events@ == old(self).sheet.events@,
            final(self).timer == old(self).timer,
            final(self).pos == old(self).pos,
            final(self).last_tick == old(self).last_tick,
            final(self).wf() == old(self).wf(),
    {
        self.phase = PlayerPhase::Aborted;
    }

    /// One event boundary. The cancellation signal is checked first and,
    /// when set, aborts before the next send: the result carries nothing
    /// to deliver and the position does not advance. Otherwise the next
    /// entry is delivered: the wait is computed from its tick gap and the
    /// tempo active before it, a tempo meta event updates the tempo for
    /// later steps and is not sent, and a channel message is sent.
    /// Finished and aborted players stay as they are and deliver nothing.
    pub fn step(&mut self, cancelled: bool) -> (r: StepResult)
        requires
            old(self).wf(),
        ensures
            final(self).wf(),
            final(self).sheet.events@ == old(self).sheet.events@,
            old(self).phase is Finished ==> r is Finished && *final(self) == *old(self),
            old(self).phase is Aborted ==> r is Aborted && *final(self) == *old(self),
            old(self).phase is Playing && cancelled ==> {
                &&& r is Aborted
                &&& final(self).phase is Aborted
                &&& final(self).pos == old(self).pos
                &&& final(self).last_tick == old(self).last_tick
                &&& final(self).timer == old(self).timer
            },
            old(self).phase is Playing && !cancelled && old(self).pos == old(
                self,
            ).sheet.events@.len() ==> {
                &&& r is Finished
                &&& final(self).phase is Finished
                &&& final(self).pos == old(self).pos
                &&& final(self).last_tick == old(self).last_tick
                &&& final(self).timer == old(self).timer
            },
            old(self).phase is Playing && !cancelled && old(self).pos < old(
                self,
            ).sheet.events@.len() ==> {
                let e = old(self).sheet.events@[old(self).pos as int];
                &&& r == (StepResult::Emit {
                    wait_micros: spec_wait_sat(
                        old(self).timer.timing,
                        old(self).timer.tempo as int,
                        spec_delta(old(self).last_tick as int, e.tick as int),
                    ) as u64,
                    send: spec_send(e.event),
                })
                &&& final(self).phase is Playing
                &&& final(self).pos == old(self).pos + 1
                &&& final(self).last_tick == e.tick
                &&& final(self).timer.timing == old(self).timer.timing
                &&& final(self).timer.tempo == spec_new_tempo(old(self).timer.tempo, e.event)
            },
    {
        match self.phase {
            PlayerPhase::Finished => {
                return StepResult::Finished;
            },
            PlayerPhase::Aborted => {
                return StepResult::Aborted;
            },
            PlayerPhase::Playing => {},
        }
        if cancelled {
            self.phase = PlayerPhase::Aborted;
            return StepResult::Aborted;
        }
        if self.pos == self.sheet.events.len() {
            self.phase = PlayerPhase::Finished;
            return StepResult::Finished;
        }
        let te = self.sheet.events[self.pos];
        let delta: u64 = if te.tick >= self.last_tick {
            te.tick - self.last_tick
        } else {
            0
        };
        let wait_micros = self.timer.wait_micros(delta);
        let send = match te.event.kind {
            EventKind::Channel { channel, message } => Some(OutMessage { channel, message }),
            _ => None,
        };
        match te.event.kind {
            EventKind::Meta(MetaMessage::Tempo { micros_per_beat }) => {
                self.timer.set_tempo(micros_per_beat);
            },
            _ => {},
        }
        self.pos = self.pos + 1;
        self.last_tick = te.tick;
        StepResult::Emit { wait_micros, send }
    }
}

} // verus!
