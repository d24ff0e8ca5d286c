//! The pipeline's general laws, stated over the spec transitions and proved
//! once and for all: how a run of advances walks the stages, that a reset
//! erases history, what a retried stage's log holds, and how a jump resolves.

use vstd::prelude::*;

use crate::log::LogLineV;
use crate::pipeline::PipelineV;
use crate::pipeline::StatusV;
use crate::pipeline::init_v;
use crate::pipeline::reset_v;
use crate::pipeline::advance_v;
use crate::pipeline::fail_v;
use crate::pipeline::retry_v;
use crate::pipeline::set_running_v;
use crate::pipeline::complete_v;
use crate::pipeline::jump_v;
use crate::pipeline::STEP_COUNT;
use crate::pipeline::STEP_EDIT_DRAFT;

verus! {

/// Every stage strictly before the current one is done.
pub open spec fn prefix_done(v: PipelineV) -> bool {
    forall|i: int| 0 <= i < v.current ==> v.steps[i] is Done
}

/// The state after `n` advances.
pub open spec fn advance_n(v: PipelineV, n: nat) -> PipelineV
    decreases n,
{
    if n == 0 {
        v
    } else {
        advance_v(advance_n(v, (n - 1) as nat))
    }
}

/// One advance below the terminal stage strictly increases the current
/// stage and keeps every earlier stage done; at the terminal stage it
/// changes nothing.
pub proof fn lemma_advance_step(v: PipelineV)
    requires
        v.wf(),
        prefix_done(v),
    ensures
        advance_v(v).wf(),
        prefix_done(advance_v(v)),
        v.current < STEP_COUNT - 1 ==> advance_v(v).current == v.current + 1,
        v.current == STEP_COUNT - 1 ==> advance_v(v) == v,
{
}

/// From the initial state, a sequence of advances walks the current stage
/// strictly upward, leaving every stage before it done, until the terminal
/// stage, where further advances are no-ops.
pub proof fn lemma_advance_runs(n: nat)
    ensures
        advance_n(init_v(), n).wf(),
        prefix_done(advance_n(init_v(), n)),
        advance_n(init_v(), n).current == (if n < (STEP_COUNT - 1) as nat {
            n as int
        } else {
            STEP_COUNT - 1
        }),
        n >= STEP_COUNT - 1 ==> advance_v(advance_n(init_v(), n)) == advance_n(init_v(), n),
    decreases n,
{
    if n > 0 {
        lemma_advance_runs((n - 1) as nat);
        lemma_advance_step(advance_n(init_v(), (n - 1) as nat));
    }
}

/// A reset erases history: from any two states, however they were reached,
/// the state after a reset is one and the same — the initial state.
pub proof fn lemma_reset_history_independent(a: PipelineV, b: PipelineV)
    ensures
        reset_v(a) == reset_v(b),
        reset_v(a) == init_v(),
{
}

/// After the log is cleared at retry time, it holds exactly the lines the
/// new attempt pushes: nothing of the failed attempt survives the clear, and
/// no new line is lost or duplicated. Alongside, the failed stage passes
/// through pending and runs again without the pointer moving.
pub proof fn lemma_fail_retry_rerun(v: PipelineV, msg: Seq<char>, fresh: Seq<LogLineV>)
    requires
        v.wf(),
    ensures
        ({
            let failed = fail_v(v, msg);
            let retried = retry_v(failed);
            let running = set_running_v(retried);
            &&& failed.steps[v.current] == StatusV::Failed(msg)
            &&& retried.steps[v.current] is Pending
            &&& running.steps[v.current] is Running
            &&& running.current == v.current
        }),
        Seq::<LogLineV>::empty() + fresh == fresh,
{
    assert(Seq::<LogLineV>::empty() + fresh =~= fresh);
}

/// At most one stage is running at any instant.
pub open spec fn serialized(v: PipelineV) -> bool {
    forall|i: int, j: int|
        0 <= i < j < v.steps.len() ==> !(v.steps[i] is Running && v.steps[j] is Running)
}

/// No stage at all is running.
pub open spec fn none_running(v: PipelineV) -> bool {
    forall|i: int| 0 <= i < v.steps.len() ==> !(v.steps[i] is Running)
}

/// Stage execution stays serialized: the transitions that write a
/// non-running status never create a second running stage, a jump leaves at
/// most the one that was already running, and marking the current stage
/// running when nothing runs leaves exactly one running stage.
pub proof fn lemma_serialized_execution(
    v: PipelineV,
    msg: Seq<char>,
    target: int,
    picked: Option<Seq<char>>,
)
    requires
        v.wf(),
        serialized(v),
        0 <= target < STEP_COUNT,
    ensures
        serialized(advance_v(v)),
        serialized(fail_v(v, msg)),
        serialized(complete_v(v)),
        serialized(retry_v(v)),
        serialized(jump_v(v, target, picked)),
        none_running(v) ==> ({
            let w = set_running_v(v);
            &&& w.steps[v.current] is Running
            &&& forall|i: int| 0 <= i < w.steps.len() && i != v.current ==> !(w.steps[i] is Running)
        }),
{
}

/// A forward jump into the stages that need a working directory, with none
/// known, either takes the collaborator's path and lands on the target with
/// everything before it done and the target pending, or, when the
/// collaborator was cancelled, changes nothing at all.
pub proof fn lemma_jump_resolution(v: PipelineV, target: int, picked: Option<Seq<char>>)
    requires
        v.wf(),
        0 <= target < STEP_COUNT,
        target > v.current,
        target >= STEP_EDIT_DRAFT,
        v.work_dir is None,
    ensures
        picked is None ==> jump_v(v, target, picked) == v,
        picked is Some ==> ({
            let w = jump_v(v, target, picked);
            &&& w.work_dir == picked
            &&& w.current == target
            &&& (forall|i: int| 0 <= i < target ==> w.steps[i] is Done)
            &&& w.steps[target] is Pending
            &&& w.pdf_path == v.pdf_path
            &&& w.output_dir == v.output_dir
        }),
{
}

} // verus!
