//! Moving and deleting files.
use vstd::prelude::*;

use crate::commands::folders::DeleteStep;
use crate::commands::retry;
use crate::commands::retry::Retry;

verus! {

/// How often forwarding and deleting are tried.
pub const MOVE_ATTEMPTS: u32 = 3;

/// What to do to move files.
#[derive(Debug, Clone, Copy, PartialEq, Eq, Structural)]
pub enum MoveStep {
    /// Nothing; so many count as moved.
    Done(u32),
    /// Forward the messages, then delete them at the source.
    Forward,
}

/// How many messages there are, as a 32-bit number.
pub open spec fn message_count(ids: Seq<i32>) -> nat {
    ids.len() % 0x1_0000_0000
}

fn count_messages(ids: &Vec<i32>) -> (res: u32)
    ensures
        res == message_count(ids@),
{
    (ids.len() as u64 % 0x1_0000_0000) as u32
}

/// Begins to move messages from one folder to another.
pub fn cmd_move_files(
    message_ids: &Vec<i32>,
    source_folder_id: Option<i64>,
    target_folder_id: Option<i64>,
    connected: bool,
) -> (res: MoveStep)
    ensures
        res == if source_folder_id == target_folder_id || !connected {
            MoveStep::Done(message_count(message_ids@) as u32)
        } else {
            MoveStep::Forward
        },
{
    if source_folder_id == target_folder_id || !connected {
        MoveStep::Done(count_messages(message_ids))
    } else {
        MoveStep::Forward
    }
}

/// What follows from forwarding the messages: how many count as moved.
pub fn on_forwarded(message_ids: &Vec<i32>, outcome: Result<(), String>) -> (res: Result<
    u32,
    String,
>)
    ensures
        match outcome {
            Ok(_) => res == Ok::<u32, String>(message_count(message_ids@) as u32),
            Err(e) => res matches Err(m) && m@ == "Forward failed: "@ + e@,
        },
{
    match outcome {
        Ok(_) => Ok(count_messages(message_ids)),
        Err(e) => {
            let mut message = "Forward failed: ".to_owned();
            message.append(e.as_str());
            Err(message)
        },
    }
}

/// What follows from deleting the messages at the source: they count as moved all the same.
pub fn on_source_deleted(forwarded: u32, outcome: Result<(), String>) -> (res: Result<u32, String>)
    ensures
        res == Ok::<u32, String>(forwarded),
{
    Ok(forwarded)
}

/// Begins to delete a file.
pub fn cmd_delete_file(connected: bool) -> (res: DeleteStep)
    ensures
        res == if connected {
            DeleteStep::ResolvePeer
        } else {
            DeleteStep::Done
        },
{
    if connected {
        DeleteStep::ResolvePeer
    } else {
        DeleteStep::Done
    }
}

/// Messages are counted one by one, up to the range of a 32-bit number.
pub proof fn law_messages_are_counted(ids: Seq<i32>, id: i32)
    ensures
        ids.len() <= u32::MAX ==> message_count(ids) == ids.len(),
        message_count(ids) <= u32::MAX,
        message_count(ids.push(id)) == (message_count(ids) + 1) % 0x1_0000_0000,
{
}

/// Forwarding and deleting outlast two requests to slow down, and give up with the third.
pub proof fn law_moving_outlasts_two_waits(errors: Seq<Seq<char>>)
    requires
        forall|i: int| 0 <= i < errors.len() ==> retry::flood_wait(#[trigger] errors[i]) is Some,
    ensures
        ({
            let fresh = Retry { left: MOVE_ATTEMPTS as nat, last_error: Seq::empty() };
            &&& errors.len() <= 2 ==> retry::outcome(fresh, errors) is None
            &&& errors.len() > 2 ==> retry::outcome(fresh, errors) == Some(errors[2])
        }),
{
    retry::law_flood_waits_are_outlasted(
        Retry { left: MOVE_ATTEMPTS as nat, last_error: Seq::empty() },
        errors,
    );
}

} // verus!
