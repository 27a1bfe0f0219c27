//! Trying again when Telegram asks to slow down.
use vstd::prelude::*;

use crate::number;
use crate::text;

verus! {

/// What may still be tried, and the error that was waited for last.
#[derive(Debug, PartialEq)]
pub struct FloodRetry {
    pub left: u32,
    pub last_error: String,
}

/// What a `FloodRetry` says.
pub struct Retry {
    pub left: nat,
    pub last_error: Seq<char>,
}

impl View for FloodRetry {
    type V = Retry;

    open spec fn view(&self) -> Retry {
        Retry { left: self.left as nat, last_error: self.last_error@ }
    }
}

/// What to do after a failed attempt.
#[derive(Debug, PartialEq)]
pub enum AfterError {
    /// Wait for so many seconds, and try again.
    Sleep(u64),
    /// Fail.
    Fail(String),
}

/// The seconds that an error `FLOOD_WAIT_<n>` asks to wait.
pub open spec fn flood_wait(error: Seq<char>) -> Option<nat> {
    match text::without_prefix(error, "FLOOD_WAIT_"@) {
        Some(rest) => number::read_unsigned(rest, u64::MAX as nat),
        None => None,
    }
}

/// The seconds that an error `FLOOD_WAIT_<n>` asks to wait.
pub fn flood_wait_seconds(error: &str) -> (res: Option<u64>)
    ensures
        res == match flood_wait(error@) {
            Some(n) => Some(n as u64),
            None => None::<u64>,
        },
{
    match text::strip_prefix(error, "FLOOD_WAIT_") {
        Some(rest) => number::read_u64(rest.as_str()),
        None => None,
    }
}

/// What is left once an attempt was taken.
pub open spec fn taken(r: Retry) -> Retry {
    Retry { left: (r.left - 1) as nat, ..r }
}

/// How long to wait after a failed attempt: a second more than was asked for, if another
/// attempt is left to be made.
pub open spec fn wait_after(r: Retry, error: Seq<char>) -> Option<u64> {
    match flood_wait(error) {
        Some(n) if r.left > 0 => Some(
            if n < u64::MAX {
                (n + 1) as u64
            } else {
                u64::MAX
            },
        ),
        _ => None,
    }
}

/// What is left after a failed attempt.
pub open spec fn after_error(r: Retry, error: Seq<char>) -> Retry {
    if wait_after(r, error) is Some {
        Retry { last_error: error, ..r }
    } else {
        r
    }
}

impl FloodRetry {
    /// `max_attempts` attempts may be made.
    pub fn new(max_attempts: u32) -> (res: Self)
        ensures
            res@ == (Retry { left: max_attempts as nat, last_error: Seq::empty() }),
    {
        FloodRetry { left: max_attempts, last_error: String::new() }
    }

    /// Takes one attempt, or says with which error it is over.
    pub fn next(&mut self) -> (res: Result<(), String>)
        ensures
            old(self)@.left > 0 ==> res is Ok && final(self)@ == taken(old(self)@),
            old(self)@.left == 0 ==> final(self)@ == old(self)@,
            old(self)@.left == 0 ==> (res matches Err(e) && e@ == old(self)@.last_error),
    {
        if self.left == 0 {
            return Err(self.last_error.clone());
        }
        self.left = self.left - 1;
        Ok(())
    }

    /// What follows from a failed attempt.
    pub fn on_error(&mut self, error: String) -> (res: AfterError)
        ensures
            final(self)@ == after_error(old(self)@, error@),
            match wait_after(old(self)@, error@) {
                Some(n) => res == AfterError::Sleep(n),
                None => res matches AfterError::Fail(e) && e@ == error@,
            },
    {
        if self.left == 0 {
            return AfterError::Fail(error);
        }
        match flood_wait_seconds(error.as_str()) {
            Some(n) => {
                self.last_error = error;
                AfterError::Sleep(n.saturating_add(1))
            },
            None => AfterError::Fail(error),
        }
    }
}

/// How a row of attempts ends: `None` for a success, else the error. The attempts fail with
/// `errors` in turn, and the one after those succeeds.
pub open spec fn outcome(r: Retry, errors: Seq<Seq<char>>) -> Option<Seq<char>>
    decreases errors.len(),
{
    if r.left == 0 {
        Some(r.last_error)
    } else if errors.len() == 0 {
        None
    } else if wait_after(taken(r), errors[0]) is Some {
        outcome(after_error(taken(r), errors[0]), errors.skip(1))
    } else {
        Some(errors[0])
    }
}

/// Requests to slow down are outlasted while attempts are left; the last of them is the error
/// once there are none.
pub proof fn law_flood_waits_are_outlasted(r: Retry, errors: Seq<Seq<char>>)
    requires
        forall|i: int| 0 <= i < errors.len() ==> flood_wait(#[trigger] errors[i]) is Some,
    ensures
        errors.len() < r.left ==> outcome(r, errors) is None,
        0 < r.left <= errors.len() ==> outcome(r, errors) == Some(errors[r.left - 1]),
    decreases errors.len(),
{
    if r.left > 0 && errors.len() > 0 {
        let rest = errors.skip(1);
        assert forall|i: int| 0 <= i < rest.len() implies flood_wait(
            #[trigger] rest[i],
        ) is Some by {
            assert(rest[i] == errors[i + 1]);
        }
        law_flood_waits_are_outlasted(after_error(taken(r), errors[0]), rest);
    }
}

/// Any other error ends the attempts at once.
pub proof fn law_other_errors_are_final(r: Retry, errors: Seq<Seq<char>>, k: int)
    requires
        0 <= k < errors.len(),
        k < r.left,
        forall|i: int| 0 <= i < k ==> flood_wait(#[trigger] errors[i]) is Some,
        flood_wait(errors[k]) is None,
    ensures
        outcome(r, errors) == Some(errors[k]),
    decreases errors.len(),
{
    if k > 0 {
        let rest = errors.skip(1);
        assert(flood_wait(errors[0]) is Some);
        assert forall|i: int| 0 <= i < k - 1 implies flood_wait(#[trigger] rest[i]) is Some by {
            assert(rest[i] == errors[i + 1]);
        }
        law_other_errors_are_final(after_error(taken(r), errors[0]), rest, k - 1);
    }
}

/// `FLOOD_WAIT_` and a number of seconds asks to wait so many; no error that does not begin so
/// asks to wait.
pub proof fn law_flood_waits_are_recognised(n: nat, error: Seq<char>)
    ensures
        n <= u64::MAX ==> flood_wait("FLOOD_WAIT_"@ + number::decimal(n)) == Some(n),
        n > u64::MAX ==> flood_wait("FLOOD_WAIT_"@ + number::decimal(n)) is None,
        !"FLOOD_WAIT_"@.is_prefix_of(error) ==> flood_wait(error) is None,
        flood_wait("FLOOD_WAIT_"@) is None,
{
    let d = number::decimal(n);
    let none = Seq::<char>::empty();
    text::law_prefix_and_remainder_make_the_text(error, "FLOOD_WAIT_"@, d);
    text::law_prefix_and_remainder_make_the_text(error, "FLOOD_WAIT_"@, none);
    assert("FLOOD_WAIT_"@ + none =~= "FLOOD_WAIT_"@);
    number::law_unsigned_numbers_are_read(n, none, u64::MAX as nat);
    assert(none + d =~= d);
}

/// While an attempt is left, a second more is waited than was asked for; without one, or after
/// any other error, nothing is waited. An attempt that is taken is one fewer.
pub proof fn law_a_second_more_is_waited(r: Retry, error: Seq<char>)
    ensures
        r.left == 0 ==> wait_after(r, error) is None,
        flood_wait(error) is None ==> wait_after(r, error) is None,
        r.left > 0 ==> (flood_wait(error) matches Some(n) ==> {
            &&& wait_after(r, error) is Some
            &&& n < u64::MAX ==> wait_after(r, error)->0 == n + 1
            &&& n >= u64::MAX ==> wait_after(r, error)->0 == u64::MAX
        }),
        after_error(r, error).left == r.left,
        wait_after(r, error) is Some ==> after_error(r, error).last_error == error,
        wait_after(r, error) is None ==> after_error(r, error) == r,
        r.left > 0 ==> taken(r).left + 1 == r.left && taken(r).last_error == r.last_error,
{
}

/// The view of what may still be tried holds it as it is.
pub proof fn law_view_of_a_retry(r: FloodRetry)
    ensures
        r@.left == r.left,
        r@.last_error == r.last_error@,
{
}

} // verus!
