//! The decisions of the flash worker. The worker itself, which waits, runs
//! the flash command and sleeps, lives outside this library: it asks
//! [`next_worker_action`] what to do, runs the command as
//! [`flash_command_args`] and [`after_flash_pass`] say, and reports back
//! through [`record_flash_result`].

use vstd::prelude::*;
use vstd::string::StringExecFns;

use crate::clock::current_time_millis;
use crate::flash_queue::{FlashJob, FlashQueue, JobView};
use crate::text::{append_decimal, append_signed_decimal, decimal_digits, signed_decimal};

verus! {

/// Milliseconds that the worker sleeps when there is nothing to flash.
pub const WORKER_IDLE_SLEEP_MS: u64 = 500;

/// What the worker does next.
#[derive(Debug)]
pub enum WorkerAction {
    /// Flash this job, which now occupies the current slot.
    Flash(FlashJob),
    /// Nothing to do: sleep this many milliseconds and ask again.
    Sleep(u64),
}

/// The mathematical value of a [`WorkerAction`].
pub enum WorkerActionView {
    Flash(JobView),
    Sleep(u64),
}

impl View for WorkerAction {
    type V = WorkerActionView;

    open spec fn view(&self) -> WorkerActionView {
        match self {
            WorkerAction::Flash(job) => WorkerActionView::Flash(job@),
            WorkerAction::Sleep(millis) => WorkerActionView::Sleep(*millis),
        }
    }
}

/// The action that follows from what a dequeue handed out.
pub open spec fn action_for(dequeued: Option<JobView>) -> WorkerActionView {
    match dequeued {
        Some(job) => WorkerActionView::Flash(job),
        None => WorkerActionView::Sleep(WORKER_IDLE_SLEEP_MS),
    }
}

/// One round of the worker at `now`: old finished jobs are cleared, then the
/// next job is taken if the display is free.
pub fn next_worker_action_at(queue: &mut FlashQueue, now: u64) -> (action: WorkerAction)
    ensures
        final(queue)@ == old(queue)@.clear_current_if_finished(now).dequeue(now),
        action@ == action_for(old(queue)@.clear_current_if_finished(now).dequeued(now)),
        old(queue)@.wf() ==> final(queue)@.wf(),
{
    queue.clear_current_if_finished_at(now);
    match queue.dequeue_at(now) {
        Some(job) => WorkerAction::Flash(job),
        None => WorkerAction::Sleep(WORKER_IDLE_SLEEP_MS),
    }
}

/// One round of the worker at the time the clock shows.
pub fn next_worker_action(queue: &mut FlashQueue) -> (action: WorkerAction)
    ensures
        exists|now: u64|
            final(queue)@ == old(queue)@.clear_current_if_finished(now).dequeue(now) && action@
                == action_for(old(queue)@.clear_current_if_finished(now).dequeued(now)),
        old(queue)@.wf() ==> final(queue)@.wf(),
{
    let now = current_time_millis();
    next_worker_action_at(queue, now)
}

/// The view of what a flash returned.
pub open spec fn result_view(result: Result<(), String>) -> Result<(), Seq<char>> {
    match result {
        Ok(_) => Ok(()),
        Err(message) => Err(message@),
    }
}

/// Records at `now` how the flash of the current job ended: completed, or
/// failed with the message.
pub fn record_flash_result_at(queue: &mut FlashQueue, result: Result<(), String>, now: u64)
    ensures
        final(queue)@ == (match result {
            Ok(_) => old(queue)@.mark_completed(now),
            Err(message) => old(queue)@.mark_failed(message@, now),
        }),
        old(queue)@.wf() ==> final(queue)@.wf(),
{
    match result {
        Ok(_) => queue.mark_completed_at(now),
        Err(message) => queue.mark_failed_at(message, now),
    }
}

/// Records how the flash of the current job ended, at the time the clock shows.
pub fn record_flash_result(queue: &mut FlashQueue, result: Result<(), String>)
    ensures
        exists|now: u64|
            final(queue)@ == (match result {
                Ok(_) => old(queue)@.mark_completed(now),
                Err(message) => old(queue)@.mark_failed(message@, now),
            }),
        old(queue)@.wf() ==> final(queue)@.wf(),
{
    let now = current_time_millis();
    record_flash_result_at(queue, result, now)
}

/// The program that drives the display.
pub fn flash_program() -> (program: &'static str)
    ensures
        program@ == "/usr/bin/inky-soup-update-display"@,
{
    "/usr/bin/inky-soup-update-display"
}

/// The arguments of the flash command, as texts.
pub open spec fn flash_args(dithered_path: Seq<char>, rotation_degrees: u16) -> Seq<Seq<char>> {
    seq![
        dithered_path,
        "--skip-dither"@,
        "--rotation"@,
        decimal_digits(rotation_degrees as nat),
    ]
}

/// The texts of a list of strings.
pub open spec fn texts(strings: Seq<String>) -> Seq<Seq<char>> {
    strings.map_values(|s: String| s@)
}

/// The arguments with which the flash program is run: the image, the flag
/// that says it is dithered already, and the rotation.
pub fn flash_command_args(dithered_path: &str, rotation_degrees: u16) -> (args: Vec<String>)
    ensures
        texts(args@) == flash_args(dithered_path@, rotation_degrees),
{
    let mut rotation = String::new();
    append_decimal(&mut rotation, rotation_degrees as u64);
    let mut args: Vec<String> = Vec::new();
    args.push(String::from_str(dithered_path));
    args.push(String::from_str("--skip-dither"));
    args.push(String::from_str("--rotation"));
    args.push(rotation);
    assert(rotation@ =~= decimal_digits(rotation_degrees as nat));
    assert(texts(args@) =~= flash_args(dithered_path@, rotation_degrees));
    args
}

/// Which run of the flash program is meant.
#[derive(Debug, Clone, Copy, PartialEq, Eq, Structural)]
pub enum FlashPass {
    First,
    Second,
}

/// How one run of the flash program ended.
#[derive(Debug)]
pub enum CommandOutcome {
    /// The program could not be started.
    LaunchFailed { error: String },
    /// The program ran and exited; `stderr` is its captured error text with
    /// the white space at both ends removed.
    Exited { success: bool, exit_code: Option<i32>, stderr: String },
}

/// The mathematical value of a [`CommandOutcome`].
pub enum CommandOutcomeView {
    LaunchFailed { error: Seq<char> },
    Exited { success: bool, exit_code: Option<i32>, stderr: Seq<char> },
}

impl View for CommandOutcome {
    type V = CommandOutcomeView;

    open spec fn view(&self) -> CommandOutcomeView {
        match self {
            CommandOutcome::LaunchFailed { error } => CommandOutcomeView::LaunchFailed {
                error: error@,
            },
            CommandOutcome::Exited { success, exit_code, stderr } => CommandOutcomeView::Exited {
                success: *success,
                exit_code: *exit_code,
                stderr: stderr@,
            },
        }
    }
}

/// What follows a run of the flash program.
#[derive(Debug)]
pub enum FlashStep {
    /// Run the program once more.
    RunAgain,
    /// The flash is over, with this result.
    Finished(Result<(), String>),
}

/// The mathematical value of a [`FlashStep`].
pub enum FlashStepView {
    RunAgain,
    Finished(Result<(), Seq<char>>),
}

impl View for FlashStep {
    type V = FlashStepView;

    open spec fn view(&self) -> FlashStepView {
        match self {
            FlashStep::RunAgain => FlashStepView::RunAgain,
            FlashStep::Finished(result) => FlashStepView::Finished(result_view(*result)),
        }
    }
}

/// The message for a program that could not be started.
pub open spec fn launch_failure_message(pass: FlashPass, error: Seq<char>) -> Seq<char> {
    match pass {
        FlashPass::First => "Failed to execute script: "@ + error,
        FlashPass::Second => "Failed to execute second flash: "@ + error,
    }
}

/// The exit code that a message shows: -1 where the program gave none.
pub open spec fn shown_exit_code(exit_code: Option<i32>) -> int {
    match exit_code {
        Some(code) => code as int,
        None => -1,
    }
}

/// The message for a program that exited without success.
pub open spec fn exit_failure_message(
    pass: FlashPass,
    exit_code: Option<i32>,
    stderr: Seq<char>,
) -> Seq<char> {
    match pass {
        FlashPass::First => "Flash failed (exit code "@ + signed_decimal(
            shown_exit_code(exit_code),
        ) + "): "@ + stderr,
        FlashPass::Second => "Second flash failed (exit code "@ + signed_decimal(
            shown_exit_code(exit_code),
        ) + "): "@ + stderr,
    }
}

/// What follows a run: a failure ends the flash with its message, so that a
/// failed first run is never followed by a second; a success of the first
/// run is followed by a second run exactly when the job asks for two; any
/// other success ends the flash.
pub open spec fn flash_step(
    pass: FlashPass,
    flash_twice: bool,
    outcome: CommandOutcomeView,
) -> FlashStepView {
    match outcome {
        CommandOutcomeView::LaunchFailed { error } => FlashStepView::Finished(
            Err(launch_failure_message(pass, error)),
        ),
        CommandOutcomeView::Exited { success, exit_code, stderr } => {
            if !success {
                FlashStepView::Finished(Err(exit_failure_message(pass, exit_code, stderr)))
            } else if pass == FlashPass::First && flash_twice {
                FlashStepView::RunAgain
            } else {
                FlashStepView::Finished(Ok(()))
            }
        },
    }
}

/// Decides what follows a run of the flash program.
pub fn after_flash_pass(pass: FlashPass, flash_twice: bool, outcome: &CommandOutcome) -> (step:
    FlashStep)
    ensures
        step@ == flash_step(pass, flash_twice, outcome@),
{
    match outcome {
        CommandOutcome::LaunchFailed { error } => {
            let mut message = match pass {
                FlashPass::First => String::from_str("Failed to execute script: "),
                FlashPass::Second => String::from_str("Failed to execute second flash: "),
            };
            message.append(error.as_str());
            FlashStep::Finished(Err(message))
        },
        CommandOutcome::Exited { success, exit_code, stderr } => {
            if !*success {
                let mut message = match pass {
                    FlashPass::First => String::from_str("Flash failed (exit code "),
                    FlashPass::Second => String::from_str("Second flash failed (exit code "),
                };
                let code: i32 = match exit_code {
                    Some(code) => *code,
                    None => -1,
                };
                append_signed_decimal(&mut message, code);
                message.append("): ");
                message.append(stderr.as_str());
                FlashStep::Finished(Err(message))
            } else {
                match pass {
                    FlashPass::First => {
                        if flash_twice {
                            FlashStep::RunAgain
                        } else {
                            FlashStep::Finished(Ok(()))
                        }
                    },
                    FlashPass::Second => FlashStep::Finished(Ok(())),
                }
            }
        },
    }
}

} // verus!
