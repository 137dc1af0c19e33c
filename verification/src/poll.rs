//! The poll loop's clock: what one turn of the loop is due to do. Times are
//! in milliseconds since the loop started.

use vstd::prelude::*;

verus! {

/// How long the workspace file is left alone after it was read.
pub const WORKSPACE_INTERVAL: u64 = 250;

/// How long the text file is left alone after it was read.
pub const TEXT_INTERVAL: u64 = 10;

/// Every how many turns the loop makes a roundtrip to keep the connection
/// alive.
pub const ROUNDTRIP_PERIOD: u32 = 100;

/// How long the loop sleeps at the end of a turn.
pub const SLEEP_QUANTUM: u64 = 10;

/// When the files were read last, and how many turns have passed since the
/// last roundtrip.
#[derive(Clone, Copy, Debug, PartialEq, Eq, Structural)]
pub struct PollClock {
    pub last_workspace_check: u64,
    pub last_text_check: u64,
    pub turns: u32,
}

/// What one turn of the loop is due to do, in this order; after it, the
/// pending events are dispatched and the loop sleeps.
#[derive(Clone, Copy, Debug, PartialEq, Eq, Structural)]
pub struct Turn {
    /// Read the workspace file.
    pub check_workspace: bool,
    /// Read the text file.
    pub check_text: bool,
    /// Make a roundtrip.
    pub roundtrip: bool,
}

/// The time from `last` to `now`; none where `now` is before `last`.
pub open spec fn elapsed(now: u64, last: u64) -> int {
    if now >= last {
        now - last
    } else {
        0
    }
}

impl PollClock {
    /// Whether the count of turns is within its period.
    pub open spec fn wf(self) -> bool {
        self.turns < ROUNDTRIP_PERIOD
    }

    /// What the turn at the time `now` is due to do: to read a file that was
    /// left alone for its interval, and to make a roundtrip in the first of
    /// every `ROUNDTRIP_PERIOD` turns.
    pub open spec fn due(self, now: u64) -> Turn {
        Turn {
            check_workspace: elapsed(now, self.last_workspace_check) >= WORKSPACE_INTERVAL,
            check_text: elapsed(now, self.last_text_check) >= TEXT_INTERVAL,
            roundtrip: self.turns == 0,
        }
    }

    /// The clock after the turn at the time `now`: a file that was due has
    /// been read at `now`.
    pub open spec fn after_turn(self, now: u64) -> PollClock {
        PollClock {
            last_workspace_check: if self.due(now).check_workspace {
                now
            } else {
                self.last_workspace_check
            },
            last_text_check: if self.due(now).check_text {
                now
            } else {
                self.last_text_check
            },
            turns: if self.turns + 1 >= ROUNDTRIP_PERIOD {
                0
            } else {
                (self.turns + 1) as u32
            },
        }
    }

    /// The clock after `n` turns, all at the time `now`.
    pub open spec fn after_turns(self, now: u64, n: nat) -> PollClock
        decreases n,
    {
        if n == 0 {
            self
        } else {
            self.after_turns(now, (n - 1) as nat).after_turn(now)
        }
    }

    /// A clock that starts at the time `now`: both files count as read, and
    /// the first turn makes a roundtrip.
    pub fn new(now: u64) -> (clock: PollClock)
        ensures
            clock == (PollClock { last_workspace_check: now, last_text_check: now, turns: 0 }),
            clock.wf(),
    {
        PollClock { last_workspace_check: now, last_text_check: now, turns: 0 }
    }

    /// The clock after the workspace was switched at the time `now`: the text
    /// file of the new workspace is due in the next turn.
    pub open spec fn after_switch(self, now: u64) -> PollClock {
        PollClock {
            last_text_check: if now >= TEXT_INTERVAL {
                (now - TEXT_INTERVAL) as u64
            } else {
                0
            },
            ..self
        }
    }

    /// Makes the text file due in the next turn, after the workspace was
    /// switched at the time `now`.
    pub fn make_text_due(&mut self, now: u64)
        ensures
            *final(self) == old(self).after_switch(now),
            old(self).wf() ==> final(self).wf(),
            forall|later: u64| later >= now && now >= TEXT_INTERVAL ==> final(self).due(later).check_text,
    {
        self.last_text_check = if now >= TEXT_INTERVAL {
            now - TEXT_INTERVAL
        } else {
            0
        };
    }

    /// Begins the turn at the time `now`: returns what it is due to do.
    pub fn tick(&mut self, now: u64) -> (turn: Turn)
        requires
            old(self).wf(),
        ensures
            turn == old(self).due(now),
            *final(self) == old(self).after_turn(now),
            final(self).wf(),
    {
        let check_workspace = now >= self.last_workspace_check && now - self.last_workspace_check
            >= WORKSPACE_INTERVAL;
        let check_text = now >= self.last_text_check && now - self.last_text_check >= TEXT_INTERVAL;
        let roundtrip = self.turns == 0;
        if check_workspace {
            self.last_workspace_check = now;
        }
        if check_text {
            self.last_text_check = now;
        }
        self.turns = if self.turns + 1 >= ROUNDTRIP_PERIOD {
            0
        } else {
            self.turns + 1
        };
        Turn { check_workspace, check_text, roundtrip }
    }
}

/// Whether the connection is to be flushed after `dispatched` events were
/// dispatched: only if there was one at least.
pub fn should_flush(dispatched: usize) -> (flush: bool)
    ensures
        flush == (dispatched > 0),
{
    dispatched > 0
}

/// The count of turns stays within its period.
pub proof fn lemma_turns_in_period(clock: PollClock, now: u64)
    requires
        clock.wf(),
    ensures
        clock.after_turn(now).wf(),
{
}

/// A file that is read in a turn is not due again in a turn that begins
/// before its interval has passed.
pub proof fn lemma_checks_are_spaced(clock: PollClock, now: u64, later: u64)
    requires
        now <= later,
    ensures
        clock.due(now).check_workspace && later - now < WORKSPACE_INTERVAL ==> !clock.after_turn(
            now,
        ).due(later).check_workspace,
        clock.due(now).check_text && later - now < TEXT_INTERVAL ==> !clock.after_turn(now).due(
            later,
        ).check_text,
{
}

/// A roundtrip is made in the first of every `ROUNDTRIP_PERIOD` turns, and in
/// no other.
pub proof fn lemma_roundtrip_period(clock: PollClock, now: u64, n: nat)
    requires
        clock.wf(),
    ensures
        clock.after_turns(now, n).turns == (clock.turns + n) % (ROUNDTRIP_PERIOD as int),
        clock.after_turns(now, n).due(now).roundtrip <==> (clock.turns + n) % (
        ROUNDTRIP_PERIOD as int) == 0,
    decreases n,
{
    if n > 0 {
        lemma_roundtrip_period(clock, now, (n - 1) as nat);
    }
}

} // verus!
