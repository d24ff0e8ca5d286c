use podcast_studio::pipeline::Pipeline;
use podcast_studio::pipeline::StepStatus;
use podcast_studio::pipeline::exit_message;
use podcast_studio::pipeline::status_icon;

fn fresh() -> Pipeline {
    Pipeline::new()
}

#[test]
fn new_pipeline_starts_pending_at_stage_zero() {
    let p = fresh();
    assert_eq!(p.current_step, 0);
    assert_eq!(p.steps.len(), 5);
    for s in &p.steps {
        assert_eq!(*s, StepStatus::Pending);
    }
    assert!(p.pdf_path.is_none());
    assert!(p.output_dir.is_none());
    assert!(p.work_dir.is_none());
}

#[test]
fn advance_walks_stages_and_stops_at_terminal() {
    let mut p = fresh();
    for expected in 1..=4usize {
        p.advance();
        assert_eq!(p.current_step, expected);
        for i in 0..expected {
            assert_eq!(p.steps[i], StepStatus::Done);
        }
    }
    // Further advances are no-ops at the terminal stage.
    p.advance();
    p.advance();
    assert_eq!(p.current_step, 4);
    assert_eq!(p.steps[4], StepStatus::Pending);
    p.complete_current();
    assert_eq!(p.steps[4], StepStatus::Done);
    assert_eq!(p.current_step, 4);
}

#[test]
fn reset_returns_to_initial_state_whatever_happened() {
    let mut p = fresh();
    p.pdf_path = Some(String::from("/in/a.pdf"));
    p.output_dir = Some(String::from("/out"));
    p.advance();
    p.advance();
    p.fail(String::from("boom"));
    p.reset();
    let q = fresh();
    assert_eq!(p.current_step, q.current_step);
    assert_eq!(p.steps, q.steps);
    assert!(p.pdf_path.is_none());
    assert!(p.output_dir.is_none());
    assert!(p.work_dir.is_none());
}

#[test]
fn fail_retry_set_running_cycle() {
    let mut p = fresh();
    p.advance();
    p.set_running();
    assert_eq!(p.steps[1], StepStatus::Running);
    p.fail(String::from("network down"));
    assert_eq!(p.steps[1], StepStatus::Failed(String::from("network down")));
    assert!(p.can_retry());
    p.retry();
    assert_eq!(p.steps[1], StepStatus::Pending);
    assert!(!p.can_retry());
    p.set_running();
    assert_eq!(p.steps[1], StepStatus::Running);
    assert_eq!(p.current_step, 1);
}

#[test]
fn jump_without_work_dir_and_cancelled_picker_changes_nothing() {
    let mut p = fresh();
    p.pdf_path = Some(String::from("/in/a.pdf"));
    let before_steps = p.steps.clone();
    let changed = p.jump_to(2, None);
    assert!(!changed);
    assert_eq!(p.current_step, 0);
    assert_eq!(p.steps, before_steps);
    assert!(p.work_dir.is_none());
    assert_eq!(p.pdf_path, Some(String::from("/in/a.pdf")));
}

#[test]
fn jump_with_picked_dir_marks_skipped_stages_done() {
    let mut p = fresh();
    let changed = p.jump_to(3, Some(String::from("/work/run")));
    assert!(changed);
    assert_eq!(p.current_step, 3);
    assert_eq!(p.work_dir, Some(String::from("/work/run")));
    for i in 0..3 {
        assert_eq!(p.steps[i], StepStatus::Done);
    }
    assert_eq!(p.steps[3], StepStatus::Pending);
    assert_eq!(p.steps[4], StepStatus::Pending);
}

#[test]
fn jump_below_edit_needs_no_dir() {
    let mut p = fresh();
    let changed = p.jump_to(1, None);
    assert!(changed);
    assert_eq!(p.current_step, 1);
    assert_eq!(p.steps[0], StepStatus::Done);
    assert!(p.work_dir.is_none());
}

#[test]
fn jump_to_current_stage_is_a_no_op() {
    let mut p = fresh();
    p.advance();
    let changed = p.jump_to(1, None);
    assert!(!changed);
    assert_eq!(p.current_step, 1);
}

#[test]
fn finish_job_failure_records_exit_code_message() {
    let mut p = fresh();
    p.advance();
    p.set_running();
    p.finish_job(2, None);
    assert_eq!(
        p.steps[1],
        StepStatus::Failed(String::from("Process exited with code 2"))
    );
    assert_eq!(p.current_step, 1);
}

#[test]
fn finish_job_success_at_draft_stage_takes_resolved_dir_and_advances() {
    let mut p = fresh();
    p.advance();
    p.set_running();
    p.finish_job(0, Some(String::from("/tmp/run-42")));
    assert_eq!(p.work_dir, Some(String::from("/tmp/run-42")));
    assert_eq!(p.steps[1], StepStatus::Done);
    assert_eq!(p.current_step, 2);
}

#[test]
fn finish_job_success_at_publish_stage_completes_in_place() {
    let mut p = fresh();
    let _ = p.jump_to(4, Some(String::from("/work/run")));
    p.set_running();
    p.finish_job(0, None);
    assert_eq!(p.steps[4], StepStatus::Done);
    assert_eq!(p.current_step, 4);
}

#[test]
fn finish_job_success_never_leaves_failure() {
    let mut p = fresh();
    p.set_running();
    p.finish_job(0, None);
    assert_eq!(p.steps[0], StepStatus::Done);
    assert_eq!(p.current_step, 1);
}

#[test]
fn exit_message_spells_the_code() {
    assert_eq!(exit_message(2), "Process exited with code 2");
    assert_eq!(exit_message(0), "Process exited with code 0");
    assert_eq!(exit_message(-1), "Process exited with code -1");
    assert_eq!(exit_message(1234), "Process exited with code 1234");
}

#[test]
fn step_status_queries() {
    assert!(StepStatus::Done.is_terminal());
    assert!(StepStatus::Failed(String::from("x")).is_terminal());
    assert!(!StepStatus::Pending.is_terminal());
    assert!(!StepStatus::Running.is_terminal());
    assert_eq!(status_icon(&StepStatus::Done), "\u{2714}");
    assert_eq!(status_icon(&StepStatus::Running), "\u{23F3}");
    assert_eq!(status_icon(&StepStatus::Failed(String::new())), "\u{2716}");
    assert_eq!(status_icon(&StepStatus::Pending), "");
}
