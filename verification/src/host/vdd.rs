//! The scheduled tasks that switch the virtual display driver. Switching a
//! device needs privileges, so the installer registers one task for each
//! direction, and the host only triggers them.

use vstd::prelude::*;

verus! {

/// The names under which the tasks are registered.
pub const TASK_ENABLE: &'static str = "EternalMonitor VDD Enable";

pub const TASK_DISABLE: &'static str = "EternalMonitor VDD Disable";

/// The program that triggers a task.
pub const TASK_RUNNER: &'static str = "schtasks";

/// The arguments that make it trigger the task for a direction.
pub fn task_arguments(enable: bool) -> (args: Vec<&'static str>)
    ensures
        args@.len() == 3,
        args@[0]@ == "/Run"@,
        args@[1]@ == "/TN"@,
        args@[2]@ == (if enable {
            TASK_ENABLE@
        } else {
            TASK_DISABLE@
        }),
{
    let mut args: Vec<&'static str> = Vec::new();
    args.push("/Run");
    args.push("/TN");
    args.push(
        if enable {
            TASK_ENABLE
        } else {
            TASK_DISABLE
        },
    );
    args
}

/// Whether a task was triggered: its runner could be started and succeeded.
/// A task that is not registered is no reason to stop; the display that was
/// asked for is then missing, and capture falls back.
pub fn was_triggered(runner_exit: Option<bool>) -> (b: bool)
    ensures
        b == (runner_exit == Some(true)),
{
    match runner_exit {
        Some(success) => success,
        None => false,
    }
}

} // verus!
