//! Model of one in-flight external job: lines received from the two stream
//! readers but not yet polled, whether each reader has finished, and the exit
//! result once the process has terminated. The process, the threads and the
//! channel live outside the library; they report what happened through the
//! methods here, and the model enforces the ordering contract: a terminal
//! result is observable only after both readers have finished and every line
//! they produced has been drained.

use vstd::prelude::*;

use crate::log::LogLine;
use crate::log::LogLineV;

verus! {

/// Exit code reported when the process could not start or its real exit code
/// was unavailable.
pub const EXIT_CODE_UNKNOWN: i32 = -1;

/// The arguments launching the draft-generation job: the subcommand, the
/// input document and the output root.
pub fn script_stage_args(pdf: &str, output_dir: &str) -> (r: Vec<String>)
    ensures
        r.deep_view() =~= seq![
            "podcast-script"@,
            "--pdf"@,
            pdf@,
            "--output-dir"@,
            output_dir@,
        ],
{
    let mut r: Vec<String> = Vec::new();
    r.push(String::from_str("podcast-script"));
    r.push(String::from_str("--pdf"));
    r.push(String::from_str(pdf));
    r.push(String::from_str("--output-dir"));
    r.push(String::from_str(output_dir));
    r
}

/// The arguments launching the media-generation job: the subcommand and the
/// working directory.
pub fn audio_stage_args(work_dir: &str) -> (r: Vec<String>)
    ensures
        r.deep_view() =~= seq!["podcast-audio"@, "--dir"@, work_dir@],
{
    let mut r: Vec<String> = Vec::new();
    r.push(String::from_str("podcast-audio"));
    r.push(String::from_str("--dir"));
    r.push(String::from_str(work_dir));
    r
}

/// The arguments launching the publishing job: the subcommand and the
/// working directory.
pub fn publish_stage_args(work_dir: &str) -> (r: Vec<String>)
    ensures
        r.deep_view() =~= seq!["publish-podcast"@, "--podcast-dir"@, work_dir@],
{
    let mut r: Vec<String> = Vec::new();
    r.push(String::from_str("publish-podcast"));
    r.push(String::from_str("--podcast-dir"));
    r.push(String::from_str(work_dir));
    r
}

/// Handle to one running external job.
pub struct JobHandle {
    /// Lines received from the stream readers and not yet polled.
    pub pending: Vec<LogLine>,
    /// The standard-output reader is still running.
    pub stdout_open: bool,
    /// The standard-error reader is still running.
    pub stderr_open: bool,
    /// The exit code, once the process has terminated and both readers have
    /// finished.
    pub exit_code: Option<i32>,
}

impl JobHandle {
    /// The exit code is only ever recorded after both readers have finished.
    pub open spec fn wf(&self) -> bool {
        self.exit_code is Some ==> !self.stdout_open && !self.stderr_open
    }

    /// A handle for a freshly launched process: both readers attached, no
    /// lines yet, no exit result yet.
    pub fn new() -> (r: JobHandle)
        ensures
            r.pending.deep_view() == Seq::<LogLineV>::empty(),
            r.stdout_open,
            r.stderr_open,
            r.exit_code is None,
            r.wf(),
    {
        let r = JobHandle {
            pending: Vec::new(),
            stdout_open: true,
            stderr_open: true,
            exit_code: None,
        };
        proof {
            assert(r.pending.deep_view() =~= Seq::<LogLineV>::empty());
        }
        r
    }

    /// A handle for a process that failed to start: a single synthetic
    /// error-stream line describing the spawn failure, and a terminal
    /// failure exit code.
    pub fn spawn_failure(msg: String) -> (r: JobHandle)
        ensures
            r.pending.deep_view().len() == 1,
            r.pending.deep_view()[0].text == msg@,
            r.pending.deep_view()[0].is_stderr,
            !r.stdout_open,
            !r.stderr_open,
            r.exit_code == Some(EXIT_CODE_UNKNOWN),
            r.wf(),
    {
        let mut pending: Vec<LogLine> = Vec::new();
        pending.push(LogLine::new(msg, true));
        JobHandle { pending, stdout_open: false, stderr_open: false, exit_code: Some(-1) }
    }

    /// The standard-output reader produced a line.
    pub fn push_stdout(&mut self, text: String)
        requires
            old(self).wf(),
            old(self).stdout_open,
        ensures
            final(self).pending.deep_view() == old(self).pending.deep_view().push(
                (LogLineV { text: text@, is_stderr: false }),
            ),
            final(self).stdout_open == old(self).stdout_open,
            final(self).stderr_open == old(self).stderr_open,
            final(self).exit_code == old(self).exit_code,
            final(self).wf(),
    {
        self.pending.push(LogLine::new(text, false));
        proof {
            assert(self.pending.deep_view() =~= old(self).pending.deep_view().push(
                (LogLineV { text: text@, is_stderr: false }),
            ));
        }
    }

    /// The standard-error reader produced a line.
    pub fn push_stderr(&mut self, text: String)
        requires
            old(self).wf(),
            old(self).stderr_open,
        ensures
            final(self).pending.deep_view() == old(self).pending.deep_view().push(
                (LogLineV { text: text@, is_stderr: true }),
            ),
            final(self).stdout_open == old(self).stdout_open,
            final(self).stderr_open == old(self).stderr_open,
            final(self).exit_code == old(self).exit_code,
            final(self).wf(),
    {
        self.pending.push(LogLine::new(text, true));
        proof {
            assert(self.pending.deep_view() =~= old(self).pending.deep_view().push(
                (LogLineV { text: text@, is_stderr: true }),
            ));
        }
    }

    /// The standard-output reader finished draining its stream.
    pub fn close_stdout(&mut self)
        requires
            old(self).wf(),
        ensures
            final(self).pending == old(self).pending,
            !final(self).stdout_open,
            final(self).stderr_open == old(self).stderr_open,
            final(self).exit_code == old(self).exit_code,
            final(self).wf(),
    {
        self.stdout_open = false;
    }

    /// The standard-error reader finished draining its stream.
    pub fn close_stderr(&mut self)
        requires
            old(self).wf(),
        ensures
            final(self).pending == old(self).pending,
            final(self).stdout_open == old(self).stdout_open,
            !final(self).stderr_open,
            final(self).exit_code == old(self).exit_code,
            final(self).wf(),
    {
        self.stderr_open = false;
    }

    /// The process exited. Only accepted once both stream readers have
    /// finished, so that a terminal result can never precede captured output.
    pub fn report_exit(&mut self, code: i32)
        requires
            old(self).wf(),
            !old(self).stdout_open,
            !old(self).stderr_open,
            old(self).exit_code is None,
        ensures
            final(self).pending == old(self).pending,
            !final(self).stdout_open,
            !final(self).stderr_open,
            final(self).exit_code == Some(code),
            final(self).wf(),
    {
        self.exit_code = Some(code);
    }

    /// Drain the newly available lines, in arrival order, without blocking.
    pub fn poll(&mut self) -> (r: Vec<LogLine>)
        requires
            old(self).wf(),
        ensures
            r.deep_view() == old(self).pending.deep_view(),
            final(self).pending.deep_view() == Seq::<LogLineV>::empty(),
            final(self).stdout_open == old(self).stdout_open,
            final(self).stderr_open == old(self).stderr_open,
            final(self).exit_code == old(self).exit_code,
            final(self).wf(),
    {
        let mut out: Vec<LogLine> = Vec::new();
        core::mem::swap(&mut out, &mut self.pending);
        proof {
            assert(self.pending.deep_view() =~= Seq::<LogLineV>::empty());
        }
        out
    }

    /// The exit result, observable only once the process has terminated,
    /// both readers have finished, and no produced line remains undrained.
    pub fn try_finish(&self) -> (r: Option<i32>)
        requires
            self.wf(),
        ensures
            r is Some ==> self.pending.deep_view().len() == 0,
            r == (if self.exit_code is Some && self.pending@.len() == 0 {
                self.exit_code
            } else {
                None::<i32>
            }),
    {
        if self.pending.len() == 0 {
            self.exit_code
        } else {
            None
        }
    }
}

} // verus!
