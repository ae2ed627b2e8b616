//! The build/convert/flash sequencer.
//!
//! The upload workflow runs three external commands in a fixed order:
//! compile, convert the artifact to a flashable format, transfer it to
//! the device.  The binary only spawns processes; every decision —
//! which stage comes next, whether a stage's exit status halts the
//! run, and with which code the run then ends — is taken here.  Every
//! unsuccessful stage halts the run at once; when the operating system
//! reported an exit code, that code becomes the whole run's own.

use vstd::prelude::*;

verus! {

/// The exit status of a finished child process: whether it succeeded,
/// and its exit code when the operating system reported one.
#[derive(Clone, Copy, Debug, PartialEq, Eq)]
pub struct ProcStatus {
    pub success: bool,
    pub code: Option<i32>,
}

/// The three stages of the upload workflow, plus the finished state.
#[derive(Clone, Copy, Debug, PartialEq, Eq, Structural)]
pub enum Stage {
    Build,
    MakeHex,
    Upload,
    Done,
}

/// What one finished stage means for the rest of the run: go on to the
/// next stage, or stop the whole run, with the failed stage's exit
/// code when there was one.
#[derive(Clone, Copy, Debug, PartialEq, Eq)]
pub enum RunDecision {
    Proceed,
    Halt(Option<i32>),
}

/// The sequencer: the stage that runs next, and the exit status of the
/// first failed stage once one has failed.
#[derive(Clone, Copy, Debug)]
pub struct UploadPipeline {
    pub stage: Stage,
    pub failure: Option<ProcStatus>,
}

/// The stage after `s` on success.
pub open spec fn next_stage(s: Stage) -> Stage {
    match s {
        Stage::Build => Stage::MakeHex,
        Stage::MakeHex => Stage::Upload,
        Stage::Upload => Stage::Done,
        Stage::Done => Stage::Done,
    }
}

/// The sequencer before any stage has run.
pub open spec fn initial_pipeline() -> UploadPipeline {
    UploadPipeline { stage: Stage::Build, failure: None }
}

/// How one finished stage moves the sequencer on: success advances to
/// the next stage; any failure records the failed status and halts the
/// run at once, whether or not the operating system gave an exit code.
pub open spec fn step_spec(p: UploadPipeline, st: ProcStatus) -> UploadPipeline {
    if st.success {
        UploadPipeline { stage: next_stage(p.stage), failure: None }
    } else {
        UploadPipeline { stage: p.stage, failure: Some(st) }
    }
}

/// The stage whose command should be spawned next, if any: none once a
/// stage has failed, and none after the last stage succeeded.
pub open spec fn pending_spec(p: UploadPipeline) -> Option<Stage> {
    if p.failure is Some {
        None
    } else if p.stage == Stage::Done {
        None
    } else {
        Some(p.stage)
    }
}

impl UploadPipeline {
    /// A sequencer with all three stages still ahead of it.
    pub fn new() -> (r: UploadPipeline)
        ensures
            r == initial_pipeline(),
    {
        UploadPipeline { stage: Stage::Build, failure: None }
    }

    /// Record the exit status of the stage that just ran.
    pub fn step(&mut self, status: &ProcStatus)
        requires
            old(self).failure is None,
            old(self).stage != Stage::Done,
        ensures
            *final(self) == step_spec(*old(self), *status),
    {
        if status.success {
            self.stage = advance(self.stage);
        } else {
            self.failure = Some(*status);
        }
    }

    /// The stage to spawn next, if the run is still going.
    pub fn pending_stage(&self) -> (r: Option<Stage>)
        ensures
            r == pending_spec(*self),
    {
        if self.failure.is_some() {
            None
        } else {
            match self.stage {
                Stage::Done => None,
                s => Some(s),
            }
        }
    }

    /// Whether a stage has failed and the run must stop.
    pub fn has_failed(&self) -> (r: bool)
        ensures
            r == (self.failure is Some),
    {
        self.failure.is_some()
    }

    /// The exit code the whole run must end with: the failed stage's
    /// own code, and nothing while no stage failed or the failed stage
    /// got no code from the operating system.
    pub fn failure_code(&self) -> (r: Option<i32>)
        ensures
            match self.failure {
                Some(st) => r == st.code,
                None => r is None,
            },
    {
        match self.failure {
            Some(st) => st.code,
            None => None,
        }
    }
}

fn advance(s: Stage) -> (r: Stage)
    ensures
        r == next_stage(s),
{
    match s {
        Stage::Build => Stage::MakeHex,
        Stage::MakeHex => Stage::Upload,
        Stage::Upload => Stage::Done,
        Stage::Done => Stage::Done,
    }
}

/// What a finished stage means for the run: it proceeds exactly on
/// success, and any failure halts it, carrying the failed stage's exit
/// code when the operating system reported one.
pub fn exit_on_fail(status: &ProcStatus) -> (r: RunDecision)
    ensures
        status.success <==> r == RunDecision::Proceed,
        !status.success ==> r == RunDecision::Halt(status.code),
{
    if status.success {
        RunDecision::Proceed
    } else {
        RunDecision::Halt(status.code)
    }
}

/// A failure of the very first stage halts the whole run: no later
/// stage is ever handed out, and the recorded exit code is exactly the
/// first stage's own.
pub proof fn lemma_first_stage_failure_halts(st: ProcStatus)
    requires
        !st.success,
    ensures
        step_spec(initial_pipeline(), st).failure == Some(st),
        pending_spec(step_spec(initial_pipeline(), st)) is None,
{
}

/// Once a stage has failed, stepping is over: the sequencer hands out
/// no stage at all, whatever already happened before.
pub proof fn lemma_failure_is_final(p: UploadPipeline)
    requires
        p.failure is Some,
    ensures
        pending_spec(p) is None,
{
}

} // verus!
