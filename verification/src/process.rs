//! The processes of the isolated application: whether they run, and how they are ended.
use vstd::prelude::*;

use crate::decimal::{decimal, decimal_chars};
use crate::error::CodexError;
use crate::text::{chars_of, push_text, text_of};
use crate::timing::PROCESS_SHUTDOWN_TIMEOUT;

verus! {

/// What follows the request to a group of processes to end.
#[derive(Clone, Copy, Debug, PartialEq, Eq, Structural)]
pub enum TerminationStep {
    /// The group gets more time.
    Wait,
    /// The group is ended by force.
    Kill,
    /// The group is gone.
    Done,
}

/// What follows the request to a group of processes to end.
pub fn terminate(group_exists: bool, elapsed_milliseconds: u64) -> (result: TerminationStep)
    ensures
        result == if !group_exists {
            TerminationStep::Done
        } else if elapsed_milliseconds < PROCESS_SHUTDOWN_TIMEOUT {
            TerminationStep::Wait
        } else {
            TerminationStep::Kill
        },
{
    if !group_exists {
        TerminationStep::Done
    } else if elapsed_milliseconds < PROCESS_SHUTDOWN_TIMEOUT {
        TerminationStep::Wait
    } else {
        TerminationStep::Kill
    }
}

/// What `WaitForSingleObject` gives for a process that has ended.
pub const WAIT_OBJECT_0: u32 = 0;

/// What `WaitForSingleObject` gives for a process that is running.
pub const WAIT_TIMEOUT: u32 = 258;

/// Whether a Windows process has ended, by what a wait for it has given.
pub fn has_exited(process_id: u32, status: u32) -> (result: Result<bool, CodexError>)
    ensures
        match result {
            Ok(exited) => exited && status == WAIT_OBJECT_0 || !exited && status == WAIT_TIMEOUT,
            Err(error) => status != WAIT_OBJECT_0 && status != WAIT_TIMEOUT && error@
                == "无法读取隔离 ChatGPT 进程 "@ + decimal(process_id as nat)
                + " 状态：等待结果 "@ + decimal(status as nat),
        },
{
    if status == WAIT_OBJECT_0 {
        return Ok(true);
    }
    if status == WAIT_TIMEOUT {
        return Ok(false);
    }
    let mut message = chars_of("无法读取隔离 ChatGPT 进程 ");
    let mut id = decimal_chars(process_id as u128);
    message.append(&mut id);
    push_text(&mut message, " 状态：等待结果 ");
    let mut code = decimal_chars(status as u128);
    message.append(&mut code);
    Err(CodexError::new(text_of(message.as_slice()).as_str()))
}

/// What `CoInitializeEx` gives where the thread has been set up in another way.
pub const RPC_E_CHANGED_MODE: i32 = -2147417850;

/// Whether a thread was set up for Windows components by this call, so that it is to be taken down
/// again, by what the call has given; nothing where it cannot be used.
pub fn initialized_here(result_code: i32) -> (result: Option<bool>)
    ensures
        result == if result_code >= 0 {
            Some(true)
        } else if result_code == RPC_E_CHANGED_MODE {
            Some(false)
        } else {
            None
        },
{
    if result_code >= 0 {
        Some(true)
    } else if result_code == RPC_E_CHANGED_MODE {
        Some(false)
    } else {
        None
    }
}

/// A group of processes that was asked to end has one second to do so, and is then ended by force;
/// once it is gone nothing more is done.
pub proof fn group_has_a_second_to_end(
    group_exists: bool,
    elapsed_milliseconds: u64,
    step: TerminationStep,
)
    requires
        call_ensures(terminate, (group_exists, elapsed_milliseconds), step),
    ensures
        !group_exists <==> step is Done,
        group_exists && elapsed_milliseconds < 1_000 <==> step is Wait,
        group_exists && elapsed_milliseconds >= 1_000 <==> step is Kill,
{
}

/// A process has ended where the wait for it was answered, and runs where the wait was in vain; any
/// other answer is told, with the process.
pub proof fn wait_tells_whether_a_process_runs(
    process_id: u32,
    status: u32,
    exited: Result<bool, CodexError>,
)
    requires
        call_ensures(has_exited, (process_id, status), exited),
    ensures
        status == 0 ==> exited is Ok && exited->Ok_0,
        status == 258 ==> exited is Ok && !exited->Ok_0,
        status != 0 && status != 258 ==> exited is Err && exited->Err_0@
            == "无法读取隔离 ChatGPT 进程 "@ + decimal(process_id as nat) + " 状态：等待结果 "@ + decimal(
            status as nat,
        ),
{
}

/// A thread that was set up by the call is to be taken down again; one that had been set up in
/// another way before can be used as it is; any other failure is final.
pub proof fn thread_is_taken_down_where_it_was_set_up(result_code: i32, here: Option<bool>)
    requires
        call_ensures(initialized_here, (result_code,), here),
    ensures
        result_code >= 0 ==> here == Some(true),
        result_code == -2147417850 ==> here == Some(false),
        result_code < 0 && result_code != -2147417850 ==> here is None,
{
}

} // verus!
