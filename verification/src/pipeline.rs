//! The five-stage pipeline state machine: per-stage status, the current-stage
//! pointer, and the paths that flow between stages. Every transition is a
//! function of the current state plus explicit input; the mathematical model
//! of a transition is a spec function over [`PipelineV`], and each executable
//! method is proved to realise its spec function exactly.

use vstd::prelude::*;

verus! {

/// Status of a single pipeline step.
#[derive(Clone, Debug)]
pub enum StepStatus {
    Pending,
    Running,
    Done,
    Failed(String),
}

/// Mathematical model of a [`StepStatus`]: the failure message is a character
/// sequence.
pub enum StatusV {
    Pending,
    Running,
    Done,
    Failed(Seq<char>),
}

impl View for StepStatus {
    type V = StatusV;

    open spec fn view(&self) -> StatusV {
        match self {
            StepStatus::Pending => StatusV::Pending,
            StepStatus::Running => StatusV::Running,
            StepStatus::Done => StatusV::Done,
            StepStatus::Failed(m) => StatusV::Failed(m@),
        }
    }
}

impl DeepView for StepStatus {
    type V = StatusV;

    open spec fn deep_view(&self) -> StatusV {
        self.view()
    }
}

impl StepStatus {
    /// A step is terminal once it has either succeeded or failed.
    pub fn is_terminal(&self) -> (r: bool)
        ensures
            r == (self@ is Done || self@ is Failed),
    {
        matches!(self, StepStatus::Done | StepStatus::Failed(_))
    }
}

impl PartialEq for StepStatus {
    fn eq(&self, other: &StepStatus) -> (r: bool) {
        match (self, other) {
            (StepStatus::Pending, StepStatus::Pending) => true,
            (StepStatus::Running, StepStatus::Running) => true,
            (StepStatus::Done, StepStatus::Done) => true,
            (StepStatus::Failed(a), StepStatus::Failed(b)) => *a == *b,
            _ => false,
        }
    }
}

impl vstd::std_specs::cmp::PartialEqSpecImpl for StepStatus {
    open spec fn obeys_eq_spec() -> bool {
        true
    }

    open spec fn eq_spec(&self, other: &StepStatus) -> bool {
        self@ == other@
    }
}

impl Eq for StepStatus {

}

/// Human-readable info for each step.
pub struct StepInfo {
    pub name: &'static str,
    pub description: &'static str,
}

/// Number of steps in the pipeline.
pub const STEP_COUNT: usize = 5;

/// Index of the step that selects the input document.
pub const STEP_SELECT_INPUT: usize = 0;

/// Index of the step that generates the draft script.
pub const STEP_GENERATE_DRAFT: usize = 1;

/// Index of the step in which the script is edited by hand.
pub const STEP_EDIT_DRAFT: usize = 2;

/// Index of the step that synthesises the audio.
pub const STEP_GENERATE_MEDIA: usize = 3;

/// Index of the terminal publishing step.
pub const STEP_PUBLISH: usize = 4;

/// Mathematical model of the whole pipeline state.
#[verifier::ext_equal]
pub struct PipelineV {
    pub pdf_path: Option<Seq<char>>,
    pub output_dir: Option<Seq<char>>,
    pub work_dir: Option<Seq<char>>,
    pub steps: Seq<StatusV>,
    pub current: int,
}

impl PipelineV {
    /// Well-formedness: exactly five steps and an in-range current pointer.
    pub open spec fn wf(self) -> bool {
        &&& self.steps.len() == STEP_COUNT
        &&& 0 <= self.current < STEP_COUNT
    }
}

/// The initial pipeline state: no paths known, all steps pending, pointer at
/// the first step.
pub open spec fn init_v() -> PipelineV {
    PipelineV {
        pdf_path: None,
        output_dir: None,
        work_dir: None,
        steps: seq![
            StatusV::Pending,
            StatusV::Pending,
            StatusV::Pending,
            StatusV::Pending,
            StatusV::Pending,
        ],
        current: 0,
    }
}

/// Spec transition of [`Pipeline::reset`]: the initial state, whatever the
/// state before — a reset erases history.
pub open spec fn reset_v(v: PipelineV) -> PipelineV {
    init_v()
}

/// Spec transition of [`Pipeline::advance`]: below the terminal step, the
/// current step is marked done and the pointer moves on; at the terminal step
/// nothing changes.
pub open spec fn advance_v(v: PipelineV) -> PipelineV {
    if v.current < STEP_COUNT - 1 {
        PipelineV {
            steps: v.steps.update(v.current, StatusV::Done),
            current: v.current + 1,
            ..v
        }
    } else {
        v
    }
}

/// Spec transition of [`Pipeline::fail`].
pub open spec fn fail_v(v: PipelineV, msg: Seq<char>) -> PipelineV {
    PipelineV { steps: v.steps.update(v.current, StatusV::Failed(msg)), ..v }
}

/// Spec transition of [`Pipeline::set_running`].
pub open spec fn set_running_v(v: PipelineV) -> PipelineV {
    PipelineV { steps: v.steps.update(v.current, StatusV::Running), ..v }
}

/// Spec transition of [`Pipeline::complete_current`].
pub open spec fn complete_v(v: PipelineV) -> PipelineV {
    PipelineV { steps: v.steps.update(v.current, StatusV::Done), ..v }
}

/// Spec transition of [`Pipeline::retry`]: the failed current step becomes
/// pending again.
pub open spec fn retry_v(v: PipelineV) -> PipelineV {
    PipelineV { steps: v.steps.update(v.current, StatusV::Pending), ..v }
}

/// The 5-step pipeline state.
pub struct Pipeline {
    pub pdf_path: Option<String>,
    pub output_dir: Option<String>,
    pub work_dir: Option<String>,
    pub steps: Vec<StepStatus>,
    pub current_step: usize,
}

impl View for Pipeline {
    type V = PipelineV;

    open spec fn view(&self) -> PipelineV {
        PipelineV {
            pdf_path: self.pdf_path.deep_view(),
            output_dir: self.output_dir.deep_view(),
            work_dir: self.work_dir.deep_view(),
            steps: self.steps.deep_view(),
            current: self.current_step as int,
        }
    }
}

impl Pipeline {
    /// Well-formedness of the executable state.
    pub open spec fn wf(&self) -> bool {
        self@.wf()
    }

    /// Create a pipeline in the initial state.
    pub fn new() -> (p: Pipeline)
        ensures
            p@ == init_v(),
            p.wf(),
    {
        let mut steps: Vec<StepStatus> = Vec::new();
        steps.push(StepStatus::Pending);
        steps.push(StepStatus::Pending);
        steps.push(StepStatus::Pending);
        steps.push(StepStatus::Pending);
        steps.push(StepStatus::Pending);
        let p = Pipeline {
            pdf_path: None,
            output_dir: None,
            work_dir: None,
            steps,
            current_step: 0,
        };
        proof {
            assert(p@.steps =~= init_v().steps);
            assert(p@ =~= init_v());
        }
        p
    }

    /// Return to the initial state: stage 0, all pending, cleared paths.
    /// The state after a reset is the same whatever happened before.
    pub fn reset(&mut self)
        ensures
            final(self)@ == reset_v(old(self)@),
            final(self)@ == init_v(),
            final(self).wf(),
    {
        *self = Pipeline::new();
    }

    /// Advance to the next step after completing the current one. A no-op at
    /// the terminal step, whose completion is signalled via
    /// [`Pipeline::complete_current`] instead.
    pub fn advance(&mut self)
        requires
            old(self).wf(),
        ensures
            final(self)@ == advance_v(old(self)@),
            final(self).wf(),
    {
        if self.current_step < STEP_COUNT - 1 {
            self.steps[self.current_step] = StepStatus::Done;
            self.current_step = self.current_step + 1;
            proof {
                assert(self@.steps =~= advance_v(old(self)@).steps);
                assert(self@ =~= advance_v(old(self)@));
            }
        } else {
            proof {
                assert(self@ =~= advance_v(old(self)@));
            }
        }
    }

    /// Mark the current step failed with a message; the pipeline does not
    /// advance, and the step remains selectable for retry.
    pub fn fail(&mut self, msg: String)
        requires
            old(self).wf(),
        ensures
            final(self)@ == fail_v(old(self)@, msg@),
            final(self).wf(),
    {
        let i = self.current_step;
        self.steps[i] = StepStatus::Failed(msg);
        proof {
            assert(self@.steps =~= fail_v(old(self)@, msg@).steps);
            assert(self@ =~= fail_v(old(self)@, msg@));
        }
    }

    /// Mark the current step running.
    pub fn set_running(&mut self)
        requires
            old(self).wf(),
        ensures
            final(self)@ == set_running_v(old(self)@),
            final(self).wf(),
    {
        let i = self.current_step;
        self.steps[i] = StepStatus::Running;
        proof {
            assert(self@.steps =~= set_running_v(old(self)@).steps);
            assert(self@ =~= set_running_v(old(self)@));
        }
    }

    /// Mark the current step done without moving past it. Used to finish the
    /// terminal step, which has no successor.
    pub fn complete_current(&mut self)
        requires
            old(self).wf(),
        ensures
            final(self)@ == complete_v(old(self)@),
            final(self).wf(),
    {
        let i = self.current_step;
        self.steps[i] = StepStatus::Done;
        proof {
            assert(self@.steps =~= complete_v(old(self)@).steps);
            assert(self@ =~= complete_v(old(self)@));
        }
    }

    /// Can the user retry the current step?
    pub fn can_retry(&self) -> (r: bool)
        requires
            self.wf(),
        ensures
            r == (self@.steps[self@.current] is Failed),
    {
        matches!(self.steps[self.current_step], StepStatus::Failed(_))
    }

    /// Reset the failed current step to pending so it can be run again. The
    /// caller clears the output log of the failed attempt at the same time.
    pub fn retry(&mut self)
        requires
            old(self).wf(),
            old(self)@.steps[old(self)@.current] is Failed,
        ensures
            final(self)@ == retry_v(old(self)@),
            final(self).wf(),
    {
        let i = self.current_step;
        self.steps[i] = StepStatus::Pending;
        proof {
            assert(self@.steps =~= retry_v(old(self)@).steps);
            assert(self@ =~= retry_v(old(self)@));
        }
    }
}

/// The failure message recorded for a process that exited with `code`.
pub open spec fn exit_message_v(code: int) -> Seq<char> {
    "Process exited with code "@ + crate::text::dec_int(code)
}

/// Build the failure message for a process that exited with `code`.
pub fn exit_message(code: i32) -> (r: String)
    ensures
        r@ == exit_message_v(code as int),
{
    let mut s = String::from_str("Process exited with code ");
    s.append(crate::text::i32_dec(code).as_str());
    s
}

/// Does jumping to `target` need a working directory that is not yet known?
pub open spec fn jump_needs_dir(v: PipelineV, target: int) -> bool {
    target >= STEP_EDIT_DRAFT && v.work_dir is None
}

/// Spec transition of [`Pipeline::jump_to`]: a jump to the current stage, or
/// one that needs a working directory the collaborator did not provide,
/// changes nothing; otherwise every stage strictly before the target is
/// force-marked done, the target becomes pending, and the pointer moves
/// there.
pub open spec fn jump_v(v: PipelineV, target: int, picked: Option<Seq<char>>) -> PipelineV {
    if target == v.current {
        v
    } else if jump_needs_dir(v, target) && picked is None {
        v
    } else {
        PipelineV {
            work_dir: if jump_needs_dir(v, target) {
                picked
            } else {
                v.work_dir
            },
            steps: Seq::new(
                v.steps.len(),
                |i: int|
                    if i < target {
                        StatusV::Done
                    } else if i == target {
                        StatusV::Pending
                    } else {
                        v.steps[i]
                    },
            ),
            current: target,
            ..v
        }
    }
}

/// Spec transition of [`Pipeline::finish_job`]: on success the draft stage
/// records the resolved working directory and advances, the terminal stage
/// completes in place, and any other stage advances; on failure the current
/// stage is marked failed with a message naming the exit code.
pub open spec fn finish_v(v: PipelineV, code: int, resolved: Option<Seq<char>>) -> PipelineV {
    if code == 0 {
        if v.current == STEP_GENERATE_DRAFT {
            let w = if resolved is Some {
                resolved
            } else {
                v.work_dir
            };
            advance_v(PipelineV { work_dir: w, ..v })
        } else if v.current == STEP_PUBLISH {
            complete_v(v)
        } else {
            advance_v(v)
        }
    } else {
        fail_v(v, exit_message_v(code))
    }
}

impl Pipeline {
    /// Jump directly to `target`. Stages the jump skips are force-marked
    /// done even if they never ran — a deliberate, lossy trade of strict
    /// provenance for workflow flexibility — and the target is reset to
    /// pending so the user can act on it again. When the target needs a
    /// working directory and none is known, the caller passes one obtained
    /// from its file-selection collaborator in `picked`; if the collaborator
    /// was cancelled (`picked` is `None`), the jump is aborted and the state
    /// is unchanged. Returns whether the jump was performed.
    pub fn jump_to(&mut self, target: usize, picked: Option<String>) -> (changed: bool)
        requires
            old(self).wf(),
            target < STEP_COUNT,
        ensures
            final(self)@ == jump_v(old(self)@, target as int, picked.deep_view()),
            final(self).wf(),
            changed == (target != old(self)@.current && !(jump_needs_dir(old(self)@, target as int)
                && picked is None)),
            !changed ==> *final(self) == *old(self),
    {
        if target == self.current_step {
            return false;
        }
        if target >= STEP_EDIT_DRAFT && self.work_dir.is_none() {
            match picked {
                None => {
                    return false;
                },
                Some(d) => {
                    self.work_dir = Some(d);
                },
            }
        }
        let mut i: usize = 0;
        while i < target
            invariant
                0 <= i <= target,
                target < STEP_COUNT,
                self.steps@.len() == old(self).steps@.len() == STEP_COUNT,
                self.pdf_path == old(self).pdf_path,
                self.output_dir == old(self).output_dir,
                self.work_dir == (if jump_needs_dir(old(self)@, target as int) {
                    picked
                } else {
                    old(self).work_dir
                }),
                self.current_step == old(self).current_step,
                forall|k: int| 0 <= k < i ==> self.steps.deep_view()[k] is Done,
                forall|k: int| i <= k < STEP_COUNT ==> self.steps.deep_view()[k]
                    == old(self).steps.deep_view()[k],
            decreases target - i,
        {
            let ghost prev = self.steps.deep_view();
            self.steps[i] = StepStatus::Done;
            i = i + 1;
            proof {
                assert(self.steps.deep_view() =~= prev.update(i - 1, StatusV::Done));
            }
        }
        let ghost before_target = self.steps.deep_view();
        self.steps[target] = StepStatus::Pending;
        self.current_step = target;
        proof {
            assert(self.steps.deep_view() =~= before_target.update(
                target as int,
                StatusV::Pending,
            ));
            assert(self@.steps =~= jump_v(old(self)@, target as int, picked.deep_view()).steps);
            assert(self@ =~= jump_v(old(self)@, target as int, picked.deep_view()));
        }
        true
    }

    /// Apply a finished job's exit result to the pipeline. `resolved_work_dir`
    /// carries what the extractor recovered from the job's output (consulted
    /// only when the draft-generation stage finished successfully). On
    /// success the finished stage always ends done, never failed.
    pub fn finish_job(&mut self, code: i32, resolved_work_dir: Option<String>)
        requires
            old(self).wf(),
        ensures
            final(self)@ == finish_v(old(self)@, code as int, resolved_work_dir.deep_view()),
            final(self).wf(),
            code == 0 ==> final(self)@.steps[old(self)@.current] is Done,
            code != 0 ==> final(self)@.steps[old(self)@.current] == StatusV::Failed(
                exit_message_v(code as int),
            ),
            code != 0 ==> final(self)@.current == old(self)@.current,
    {
        if code == 0 {
            if self.current_step == STEP_GENERATE_DRAFT {
                match resolved_work_dir {
                    Some(d) => {
                        self.work_dir = Some(d);
                    },
                    None => {},
                }
                self.advance();
            } else if self.current_step == STEP_PUBLISH {
                self.complete_current();
            } else {
                self.advance();
            }
        } else {
            self.fail(exit_message(code));
        }
        proof {
            assert(self@ =~= finish_v(old(self)@, code as int, resolved_work_dir.deep_view()));
        }
    }
}

/// Icon shown beside a step of the given status.
pub fn status_icon(status: &StepStatus) -> (r: &'static str)
    ensures
        status@ is Done ==> r@ == "\u{2714}"@,
        status@ is Running ==> r@ == "\u{23F3}"@,
        status@ is Failed ==> r@ == "\u{2716}"@,
        status@ is Pending ==> r@ == ""@,
{
    match status {
        StepStatus::Done => "\u{2714}",
        StepStatus::Running => "\u{23F3}",
        StepStatus::Failed(_) => "\u{2716}",
        StepStatus::Pending => "",
    }
}

} // verus!
