use podcast_studio::extract::expected_work_dir;
use podcast_studio::extract::file_stem;
use podcast_studio::extract::marker_payload;
use podcast_studio::extract::select_existing;
use podcast_studio::extract::work_dir_candidates;
use podcast_studio::job::JobHandle;
use podcast_studio::job::audio_stage_args;
use podcast_studio::job::publish_stage_args;
use podcast_studio::job::script_stage_args;
use podcast_studio::log::LogLine;
use podcast_studio::log::OutputLog;
use podcast_studio::pipeline::Pipeline;
use podcast_studio::pipeline::StepStatus;

#[test]
fn try_finish_waits_for_exit_and_drained_lines() {
    let mut h = JobHandle::new();
    assert_eq!(h.try_finish(), None);
    h.push_stdout(String::from("starting"));
    h.push_stderr(String::from("warning"));
    assert_eq!(h.try_finish(), None);
    h.close_stdout();
    h.close_stderr();
    h.report_exit(0);
    // The exit result is withheld while a produced line remains undrained.
    assert_eq!(h.try_finish(), None);
    let drained = h.poll();
    assert_eq!(drained.len(), 2);
    assert_eq!(drained[0].text, "starting");
    assert!(!drained[0].is_stderr);
    assert_eq!(drained[1].text, "warning");
    assert!(drained[1].is_stderr);
    assert_eq!(h.try_finish(), Some(0));
    // Polling again yields nothing new and the result stays observable.
    assert!(h.poll().is_empty());
    assert_eq!(h.try_finish(), Some(0));
}

#[test]
fn spawn_failure_surfaces_synthetic_line_and_failure_exit() {
    let mut h = JobHandle::spawn_failure(String::from("Failed to spawn Python: not found"));
    assert_eq!(h.try_finish(), None);
    let drained = h.poll();
    assert_eq!(drained.len(), 1);
    assert!(drained[0].is_stderr);
    assert_eq!(drained[0].text, "Failed to spawn Python: not found");
    assert_eq!(h.try_finish(), Some(-1));
}

#[test]
fn output_log_cursor_and_clear() {
    let mut log = OutputLog::new();
    log.push(LogLine::new(String::from("one"), false));
    log.push(LogLine::new(String::from("two"), true));
    let first = log.take_new();
    assert_eq!(first.len(), 2);
    assert_eq!(first[0].text, "one");
    assert!(first[1].is_stderr);
    assert!(log.take_new().is_empty());
    log.push(LogLine::new(String::from("three"), false));
    let second = log.take_new();
    assert_eq!(second.len(), 1);
    assert_eq!(second[0].text, "three");
    log.clear();
    assert_eq!(log.len(), 0);
    assert!(log.take_new().is_empty());
}

#[test]
fn retry_starts_from_a_log_holding_only_new_lines() {
    let mut p = Pipeline::new();
    p.advance();
    p.set_running();
    let mut log = OutputLog::new();
    log.push(LogLine::new(String::from("old attempt output"), false));
    p.fail(String::from("Process exited with code 3"));
    assert!(p.can_retry());
    p.retry();
    log.clear();
    p.set_running();
    log.push(LogLine::new(String::from("fresh line a"), false));
    log.push(LogLine::new(String::from("fresh line b"), true));
    let lines = log.take_new();
    assert_eq!(lines.len(), 2);
    assert_eq!(lines[0].text, "fresh line a");
    assert_eq!(lines[1].text, "fresh line b");
    assert_eq!(p.steps[1], StepStatus::Running);
}

#[test]
fn marker_payload_picks_text_after_marker() {
    assert_eq!(
        marker_payload("[12:00] Output dir: /tmp/run-42 ", "Output dir:"),
        Some(String::from("/tmp/run-42"))
    );
    assert_eq!(marker_payload("no marker here", "Output dir:"), None);
    assert_eq!(
        marker_payload("Script generation complete: /data/out", "Script generation complete:"),
        Some(String::from("/data/out"))
    );
}

#[test]
fn marker_payload_stops_at_a_second_marker_occurrence() {
    assert_eq!(
        marker_payload("Output dir: /a Output dir: /b", "Output dir:"),
        Some(String::from("/a"))
    );
}

#[test]
fn unresolved_work_dir_degrades_gracefully() {
    // The draft stage finished but neither a marker nor the fallback guess
    // yielded an existing directory: the stage still completes, and the
    // working directory simply stays unknown.
    let mut p = Pipeline::new();
    p.advance();
    p.set_running();
    p.finish_job(0, None);
    assert!(p.work_dir.is_none());
    assert_eq!(p.steps[1], StepStatus::Done);
    assert_eq!(p.current_step, 2);
}

#[test]
fn candidates_scan_most_recent_first() {
    let log = vec![
        LogLine::new(String::from("Output dir: /old/run"), false),
        LogLine::new(String::from("progress 50%"), false),
        LogLine::new(String::from("Output dir: /new/run"), false),
    ];
    let cands = work_dir_candidates(&log);
    assert_eq!(cands, vec![String::from("/new/run"), String::from("/old/run")]);
}

#[test]
fn extractor_scenario_exit_zero_sets_work_dir() {
    let mut p = Pipeline::new();
    p.pdf_path = Some(String::from("/in/paper.pdf"));
    p.output_dir = Some(String::from("/out"));
    p.advance();
    p.set_running();

    let log = vec![
        LogLine::new(String::from("working..."), false),
        LogLine::new(String::from("Output dir: /tmp/run-42"), false),
    ];
    let cands = work_dir_candidates(&log);
    assert_eq!(cands, vec![String::from("/tmp/run-42")]);
    // The caller confirmed /tmp/run-42 exists on disk.
    let resolved = select_existing(&cands, &vec![true]);
    assert_eq!(resolved, Some(String::from("/tmp/run-42")));
    p.finish_job(0, resolved);
    assert_eq!(p.work_dir, Some(String::from("/tmp/run-42")));
    assert_eq!(p.steps[1], StepStatus::Done);
    assert_eq!(p.current_step, 2);
}

#[test]
fn select_existing_takes_first_confirmed_candidate() {
    let cands = vec![String::from("/a"), String::from("/b"), String::from("/c")];
    assert_eq!(select_existing(&cands, &vec![false, true, true]), Some(String::from("/b")));
    assert_eq!(select_existing(&cands, &vec![false, false, false]), None);
    let no_cands: Vec<String> = vec![];
    let no_flags: Vec<bool> = vec![];
    assert_eq!(select_existing(&no_cands, &no_flags), None);
}

#[test]
fn fallback_guess_is_built_from_date_and_stem() {
    assert_eq!(file_stem("/in/docs/my paper.pdf"), "my paper");
    assert_eq!(file_stem("archive.tar.gz"), "archive.tar");
    assert_eq!(file_stem("/in/.hidden"), ".hidden");
    assert_eq!(file_stem(""), "");
    assert_eq!(
        expected_work_dir("/in/docs/my paper.pdf", "2024-06-15"),
        "data/output/podcast/2024-06-15_my paper"
    );
}

#[test]
fn stage_arguments_match_the_invocation_contract() {
    assert_eq!(
        script_stage_args("/in/a.pdf", "/out"),
        vec![
            String::from("podcast-script"),
            String::from("--pdf"),
            String::from("/in/a.pdf"),
            String::from("--output-dir"),
            String::from("/out"),
        ]
    );
    assert_eq!(
        audio_stage_args("/work/run"),
        vec![String::from("podcast-audio"), String::from("--dir"), String::from("/work/run")]
    );
    assert_eq!(
        publish_stage_args("/work/run"),
        vec![
            String::from("publish-podcast"),
            String::from("--podcast-dir"),
            String::from("/work/run"),
        ]
    );
}
