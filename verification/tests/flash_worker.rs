use upload_server::flash_queue::{FlashJobStatus, FlashQueue};
use upload_server::flash_worker::{
    after_flash_pass, flash_command_args, flash_program, next_worker_action,
    next_worker_action_at, record_flash_result, record_flash_result_at, CommandOutcome, FlashPass,
    FlashStep, WorkerAction, WORKER_IDLE_SLEEP_MS,
};

#[test]
fn test_worker_sleeps_when_nothing_waits() {
    let mut queue = FlashQueue::new();
    match next_worker_action_at(&mut queue, 10) {
        WorkerAction::Sleep(millis) => {
            assert_eq!(millis, 500);
            assert_eq!(millis, WORKER_IDLE_SLEEP_MS);
        }
        WorkerAction::Flash(_) => panic!("nothing to flash"),
    }
}

#[test]
fn test_worker_takes_jobs_in_order_one_at_a_time() {
    let mut queue = FlashQueue::new();
    let a = queue.enqueue_at("a".into(), "pa".into(), false, 0, 1);
    let b = queue.enqueue_at("b".into(), "pb".into(), true, 180, 2);
    match next_worker_action_at(&mut queue, 10) {
        WorkerAction::Flash(job) => {
            assert_eq!(job.job_id, a);
            assert_eq!(job.status, FlashJobStatus::Flashing);
        }
        WorkerAction::Sleep(_) => panic!("a job waits"),
    }
    assert!(matches!(next_worker_action_at(&mut queue, 11), WorkerAction::Sleep(500)));
    record_flash_result_at(&mut queue, Ok(()), 20);
    assert_eq!(queue.find_job(a).unwrap().status, FlashJobStatus::Completed);
    match next_worker_action_at(&mut queue, 30) {
        WorkerAction::Flash(job) => {
            assert_eq!(job.job_id, b);
            assert!(job.flash_twice);
            assert_eq!(job.rotation_degrees, 180);
        }
        WorkerAction::Sleep(_) => panic!("the second job waits"),
    }
    record_flash_result_at(&mut queue, Err("Flash failed (exit code 2): boom".to_string()), 40);
    let failed = queue.find_job(b).unwrap();
    assert_eq!(failed.status, FlashJobStatus::Failed);
    assert_eq!(failed.error_message.as_deref(), Some("Flash failed (exit code 2): boom"));
    assert_eq!(failed.finished_at, Some(40));
    assert_eq!(queue.find_job(a).unwrap().finished_at, Some(20));
}

#[test]
fn test_worker_goes_on_after_a_failure() {
    let mut queue = FlashQueue::new();
    queue.enqueue_at("a".into(), "pa".into(), false, 0, 1);
    let b = queue.enqueue_at("b".into(), "pb".into(), false, 0, 2);
    assert!(matches!(next_worker_action_at(&mut queue, 3), WorkerAction::Flash(_)));
    record_flash_result_at(&mut queue, Err("Failed to execute script: gone".to_string()), 4);
    match next_worker_action_at(&mut queue, 5) {
        WorkerAction::Flash(job) => assert_eq!(job.job_id, b),
        WorkerAction::Sleep(_) => panic!("the worker stopped"),
    }
}

#[test]
fn test_worker_with_the_clock() {
    let mut queue = FlashQueue::new();
    let a = queue.enqueue("a".into(), "pa".into(), false, 0);
    assert!(matches!(next_worker_action(&mut queue), WorkerAction::Flash(_)));
    record_flash_result(&mut queue, Ok(()));
    assert_eq!(queue.find_job(a).unwrap().status, FlashJobStatus::Completed);
}

#[test]
fn test_flash_command() {
    assert_eq!(flash_program(), "/usr/bin/inky-soup-update-display");
    assert_eq!(
        flash_command_args("static/images/dithered/a.jpg.png", 270),
        vec![
            "static/images/dithered/a.jpg.png".to_string(),
            "--skip-dither".to_string(),
            "--rotation".to_string(),
            "270".to_string()
        ]
    );
    assert_eq!(flash_command_args("x", 0)[3], "0");
    assert_eq!(flash_command_args("x", 65535)[3], "65535");
}

fn exited(success: bool, exit_code: Option<i32>, stderr: &str) -> CommandOutcome {
    CommandOutcome::Exited { success, exit_code, stderr: stderr.to_string() }
}

fn message_of(step: FlashStep) -> String {
    match step {
        FlashStep::Finished(Err(message)) => message,
        other => panic!("no failure: {:?}", other),
    }
}

#[test]
fn test_single_flash_ends_after_first_success() {
    let step = after_flash_pass(FlashPass::First, false, &exited(true, Some(0), ""));
    assert!(matches!(step, FlashStep::Finished(Ok(()))));
}

#[test]
fn test_double_flash_runs_again_after_first_success() {
    let step = after_flash_pass(FlashPass::First, true, &exited(true, Some(0), ""));
    assert!(matches!(step, FlashStep::RunAgain));
    let step = after_flash_pass(FlashPass::Second, true, &exited(true, Some(0), ""));
    assert!(matches!(step, FlashStep::Finished(Ok(()))));
}

#[test]
fn test_failed_first_flash_skips_the_second() {
    let step = after_flash_pass(FlashPass::First, true, &exited(false, Some(3), "no display"));
    assert_eq!(message_of(step), "Flash failed (exit code 3): no display");
}

#[test]
fn test_flash_failure_messages() {
    let step = after_flash_pass(FlashPass::Second, true, &exited(false, Some(-7), "again"));
    assert_eq!(message_of(step), "Second flash failed (exit code -7): again");
    let step = after_flash_pass(FlashPass::First, false, &exited(false, None, "killed"));
    assert_eq!(message_of(step), "Flash failed (exit code -1): killed");
    let step = after_flash_pass(FlashPass::First, false, &exited(false, Some(i32::MIN), ""));
    assert_eq!(message_of(step), "Flash failed (exit code -2147483648): ");
    let step = after_flash_pass(FlashPass::First, false, &exited(false, Some(i32::MAX), ""));
    assert_eq!(message_of(step), "Flash failed (exit code 2147483647): ");
    let launch = CommandOutcome::LaunchFailed { error: "No such file".to_string() };
    assert_eq!(
        message_of(after_flash_pass(FlashPass::First, true, &launch)),
        "Failed to execute script: No such file"
    );
    assert_eq!(
        message_of(after_flash_pass(FlashPass::Second, true, &launch)),
        "Failed to execute second flash: No such file"
    );
}
