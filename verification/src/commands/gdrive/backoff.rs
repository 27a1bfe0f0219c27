//! How often to look for changes: less often while that fails, and no longer at some point.
use vstd::prelude::*;

use crate::commands::gdrive::state;
use crate::commands::gdrive::state::{Drive, GDriveState};
use crate::models::{Event, Status, SyncEvent, SyncStatus, SyncStatusKind};

verus! {

/// The seconds between two looks.
pub const BASE_DELAY_SECS: u64 = 10;

/// The most seconds between two looks.
pub const MAX_DELAY_SECS: u64 = 300;

/// The number of failures in a row after which to stop.
pub const KILL_AFTER_FAILURES: u32 = 30;

/// What is reported when it stops.
pub const STOPPED_MESSAGE: &'static str = "Sync stopped after repeated failures. Please reconnect to retry.";

/// The rhythm of the synchronisation.
#[derive(Debug, Clone, Copy, PartialEq, Eq, Structural)]
pub struct SyncLoop {
    pub delay_secs: u64,
    pub consecutive_failures: u32,
}

/// What is shown and reported of a failure.
#[derive(Debug, PartialEq)]
pub struct Notice {
    pub status: SyncStatus,
    pub event: SyncEvent,
}

/// What follows from a look at the changes.
#[derive(Debug, PartialEq)]
pub struct LoopStep {
    pub notices: Vec<Notice>,
    pub stop: bool,
}

/// What a `Notice` says.
pub struct Announced {
    pub status: Status,
    pub event: Event,
}

impl View for Notice {
    type V = Announced;

    open spec fn view(&self) -> Announced {
        Announced { status: self.status@, event: self.event@ }
    }
}

impl DeepView for Notice {
    type V = Announced;

    open spec fn deep_view(&self) -> Announced {
        self@
    }
}

/// The delay after one more failure.
pub open spec fn longer(delay: u64) -> u64 {
    if delay > MAX_DELAY_SECS / 2 {
        MAX_DELAY_SECS
    } else {
        (delay * 2) as u64
    }
}

/// The rhythm at the start, and after a success.
pub open spec fn steady() -> SyncLoop {
    SyncLoop { delay_secs: BASE_DELAY_SECS, consecutive_failures: 0 }
}

/// The rhythm after a failure. It stays as it is where the failure is the last.
pub open spec fn slowed(l: SyncLoop) -> SyncLoop {
    let failures = (l.consecutive_failures + 1) as u32;
    SyncLoop {
        consecutive_failures: failures,
        delay_secs: if failures >= KILL_AFTER_FAILURES {
            l.delay_secs
        } else {
            longer(l.delay_secs)
        },
    }
}

/// What is shown and reported of a failure.
pub open spec fn announced(d: Drive, message: Seq<char>) -> Announced {
    Announced {
        status: state::with_status(d, SyncStatusKind::Error, message).status,
        event: Event { event_type: "error"@, file_name: None, message },
    }
}

fn announce(drive: &mut GDriveState, message: String) -> (res: Notice)
    ensures
        final(drive)@ == state::with_status(old(drive)@, SyncStatusKind::Error, message@),
        res@ == announced(old(drive)@, message@),
{
    drive.set_status(SyncStatusKind::Error, message.clone());
    Notice {
        status: drive.status.clone(),
        event: SyncEvent { event_type: "error".to_owned(), file_name: None, message },
    }
}

impl SyncLoop {
    /// The rhythm to start with.
    pub fn new() -> (res: Self)
        ensures
            res == steady(),
    {
        SyncLoop { delay_secs: BASE_DELAY_SECS, consecutive_failures: 0 }
    }

    /// What follows from a look at the changes.
    pub fn on_tick(&mut self, drive: &mut GDriveState, outcome: Result<(), String>) -> (res:
        LoopStep)
        requires
            old(self).consecutive_failures < KILL_AFTER_FAILURES,
        ensures
            match outcome {
                Ok(_) => {
                    &&& *final(self) == steady()
                    &&& final(drive)@ == old(drive)@
                    &&& res.notices@.len() == 0
                    &&& !res.stop
                },
                Err(e) => {
                    &&& *final(self) == slowed(*old(self))
                    &&& res.stop == (old(self).consecutive_failures + 1 == KILL_AFTER_FAILURES)
                    &&& final(drive)@ == state::with_status(
                        old(drive)@,
                        SyncStatusKind::Error,
                        if res.stop {
                            STOPPED_MESSAGE@
                        } else {
                            e@
                        },
                    )
                    &&& res.notices.deep_view() == if res.stop {
                        seq![
                            announced(old(drive)@, e@),
                            announced(old(drive)@, STOPPED_MESSAGE@),
                        ]
                    } else {
                        seq![announced(old(drive)@, e@)]
                    }
                },
            },
    {
        let mut notices: Vec<Notice> = Vec::new();
        match outcome {
            Ok(_) => {
                self.delay_secs = BASE_DELAY_SECS;
                self.consecutive_failures = 0;
                LoopStep { notices, stop: false }
            },
            Err(e) => {
                self.consecutive_failures = self.consecutive_failures + 1;
                let ghost message = e@;
                notices.push(announce(drive, e));
                assert(notices.deep_view() =~= seq![announced(old(drive)@, message)]);
                if self.consecutive_failures >= KILL_AFTER_FAILURES {
                    notices.push(announce(drive, STOPPED_MESSAGE.to_owned()));
                    assert(notices.deep_view() =~= seq![
                        announced(old(drive)@, message),
                        announced(old(drive)@, STOPPED_MESSAGE@),
                    ]);
                    return LoopStep { notices, stop: true };
                }
                self.delay_secs = if self.delay_secs > MAX_DELAY_SECS / 2 {
                    MAX_DELAY_SECS
                } else {
                    self.delay_secs * 2
                };
                LoopStep { notices, stop: false }
            },
        }
    }
}

/// The rhythm after `k` failures in a row.
pub open spec fn slowed_times(k: nat) -> SyncLoop
    decreases k,
{
    if k == 0 {
        steady()
    } else {
        slowed(slowed_times((k - 1) as nat))
    }
}

/// The delay that doubles with each failure.
pub open spec fn doubled(k: nat) -> nat
    decreases k,
{
    if k == 0 {
        BASE_DELAY_SECS as nat
    } else {
        2 * doubled((k - 1) as nat)
    }
}

/// After `k` failures in a row, short of the last, the delay is ten seconds doubled `k` times,
/// but five minutes at most.
pub proof fn law_delay_doubles_up_to_the_cap(k: nat)
    requires
        k < KILL_AFTER_FAILURES,
    ensures
        slowed_times(k).consecutive_failures == k,
        slowed_times(k).delay_secs == if doubled(k) < MAX_DELAY_SECS {
            doubled(k)
        } else {
            MAX_DELAY_SECS as nat
        },
        BASE_DELAY_SECS <= slowed_times(k).delay_secs <= MAX_DELAY_SECS,
        doubled(k) >= BASE_DELAY_SECS,
    decreases k,
{
    if k > 0 {
        law_delay_doubles_up_to_the_cap((k - 1) as nat);
    }
}

/// How many looks have failed since the last that went well; `true` stands for one that did.
pub open spec fn failures_in_a_row(looks: Seq<bool>) -> nat
    decreases looks.len(),
{
    if looks.len() == 0 || looks.last() {
        0
    } else {
        1 + failures_in_a_row(looks.drop_last())
    }
}

/// The rhythm after a row of looks.
pub open spec fn rhythm_after(looks: Seq<bool>) -> SyncLoop
    decreases looks.len(),
{
    if looks.len() == 0 || looks.last() {
        steady()
    } else {
        slowed(rhythm_after(looks.drop_last()))
    }
}

/// Whatever went before, only the failures since the last success count: they set the delay,
/// and the next failure is the last one exactly if it is the thirtieth of them.
pub proof fn law_only_failures_in_a_row_count(looks: Seq<bool>)
    requires
        failures_in_a_row(looks) < KILL_AFTER_FAILURES,
    ensures
        rhythm_after(looks) == slowed_times(failures_in_a_row(looks)),
        rhythm_after(looks).consecutive_failures == failures_in_a_row(looks),
        rhythm_after(looks).consecutive_failures + 1 == KILL_AFTER_FAILURES
            <==> failures_in_a_row(looks.push(false)) == KILL_AFTER_FAILURES,
    decreases looks.len(),
{
    assert(looks.push(false).drop_last() =~= looks);
    law_delay_doubles_up_to_the_cap(failures_in_a_row(looks));
    if looks.len() > 0 && !looks.last() {
        law_only_failures_in_a_row_count(looks.drop_last());
    }
}

/// It starts with ten seconds; each failure doubles the delay, up to three hundred, and counts as
/// one more, except that the thirtieth leaves the delay.
pub proof fn law_one_failure_slows_down(l: SyncLoop)
    requires
        l.consecutive_failures < 30,
        10 <= l.delay_secs <= 300,
    ensures
        steady().delay_secs == 10,
        steady().consecutive_failures == 0,
        slowed(l).consecutive_failures == l.consecutive_failures + 1,
        l.consecutive_failures < 29 && 2 * l.delay_secs <= 300 ==> slowed(l).delay_secs == 2
            * l.delay_secs,
        l.consecutive_failures < 29 && 2 * l.delay_secs > 300 ==> slowed(l).delay_secs == 300,
        l.consecutive_failures == 29 ==> slowed(l).delay_secs == l.delay_secs,
        KILL_AFTER_FAILURES == 30,
{
}

/// A failure is shown as an error with its message, and reported with it; the time of the last
/// success and the count of files stay shown.
pub proof fn law_failures_are_announced(d: Drive, message: Seq<char>, n: Notice)
    ensures
        ({
            let a = announced(d, message);
            &&& a.status.state == SyncStatusKind::Error
            &&& a.status.message == message
            &&& a.status.last_synced == d.status.last_synced
            &&& a.status.files_synced == d.status.files_synced
            &&& a.event == (Event { event_type: "error"@, file_name: None, message })
        }),
        n@.status == n.status@,
        n@.event == n.event@,
{
}

} // verus!
