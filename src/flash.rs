//! The flashing sequence: prepare, program, finish, release. Each stage runs
//! whatever became of the ones before it, so that the keyboard is left in a
//! state it can recover from; the caller performs each stage's device work
//! and reports back how it went.

use vstd::prelude::*;
use crate::device::{
    classify, classify_spec, find_keyboard, is_tek_spec, lemma_two_keyboards, tek_count, DeviceError,
    DeviceMode, Mode,
};
use crate::upload::UploadError;

verus! {

/// Seconds to wait after the prepare and the program stage, for the
/// keyboard to come back on the bus.
pub const SETTLE_DELAY_SECS: u64 = 2;

/// Seconds to wait after the finish stage, before the kernel driver is reattached.
pub const FINISH_DELAY_SECS: u64 = 4;

#[derive(Clone, Copy, Debug, PartialEq, Eq, Structural)]
pub enum Stage {
    Prepare,
    Program,
    Finish,
    Release,
}

/// The device work a stage asks for, once the keyboard has been found.
#[derive(Clone, Copy, Debug, PartialEq, Eq, Structural)]
pub enum Task {
    SwitchMode,
    Upload,
    Reattach,
}

/// Why the sequence as a whole failed.
#[derive(Clone, Copy, Debug, PartialEq, Eq, Structural)]
pub enum FlashError {
    Device(DeviceError),
    Upload(UploadError),
    NotProgrammed,
}

pub open spec fn plan_spec(stage: Stage, mode: DeviceMode) -> Result<Task, DeviceError> {
    match (stage, mode) {
        (Stage::Release, _) => Ok(Task::Reattach),
        (_, DeviceMode::Unrelated) => Err(DeviceError::UnrelatedDevice),
        (Stage::Prepare, DeviceMode::Normal) => Ok(Task::SwitchMode),
        (Stage::Prepare, DeviceMode::Program) => Err(DeviceError::AlreadyInProgramMode),
        (Stage::Program, DeviceMode::Normal) => Err(DeviceError::StillInNormalMode),
        (Stage::Program, DeviceMode::Program) => Ok(Task::Upload),
        (Stage::Finish, DeviceMode::Normal) => Err(DeviceError::AlreadyInNormalMode),
        (Stage::Finish, DeviceMode::Program) => Ok(Task::SwitchMode),
    }
}

/// The stage after `stage`, given whether it succeeded, and the seconds to wait before it.
pub open spec fn next_stage_spec(stage: Stage, ok: bool) -> (Option<Stage>, u64) {
    match stage {
        Stage::Prepare => if ok {
            (Some(Stage::Program), SETTLE_DELAY_SECS)
        } else {
            (Some(Stage::Finish), SETTLE_DELAY_SECS)
        },
        Stage::Program => (Some(Stage::Finish), SETTLE_DELAY_SECS),
        Stage::Finish => (Some(Stage::Release), FINISH_DELAY_SECS),
        Stage::Release => (None, 0),
    }
}

/// What a stage does with the keyboard found in `mode`: the prepare stage
/// switches a keyboard in normal mode to program mode, the program stage
/// uploads to a keyboard in program mode, the finish stage switches it back,
/// and the release stage reattaches the kernel driver in either mode.
pub fn plan_stage(stage: Stage, mode: DeviceMode) -> (r: Result<Task, DeviceError>)
    ensures
        r == plan_spec(stage, mode),
{
    match (stage, mode) {
        (Stage::Release, _) => Ok(Task::Reattach),
        (_, DeviceMode::Unrelated) => Err(DeviceError::UnrelatedDevice),
        (Stage::Prepare, DeviceMode::Normal) => Ok(Task::SwitchMode),
        (Stage::Prepare, DeviceMode::Program) => Err(DeviceError::AlreadyInProgramMode),
        (Stage::Program, DeviceMode::Normal) => Err(DeviceError::StillInNormalMode),
        (Stage::Program, DeviceMode::Program) => Ok(Task::Upload),
        (Stage::Finish, DeviceMode::Normal) => Err(DeviceError::AlreadyInNormalMode),
        (Stage::Finish, DeviceMode::Program) => Ok(Task::SwitchMode),
    }
}

/// Finds the one keyboard among the identities of all devices on the bus
/// and decides what `stage` does with it: the keyboard's index and the task,
/// or why the stage cannot go on.
pub fn plan_for_bus(stage: Stage, ids: &Vec<u32>) -> (r: Result<(usize, Task), DeviceError>)
    ensures
        tek_count(ids@, ids@.len()) == 0 ==> r == Err::<(usize, Task), DeviceError>(DeviceError::NoDevice),
        tek_count(ids@, ids@.len()) >= 2 ==> r == Err::<(usize, Task), DeviceError>(DeviceError::MultipleDevices),
        tek_count(ids@, ids@.len()) == 1 ==> forall|i: int|
            0 <= i < ids@.len() && #[trigger] is_tek_spec(ids@[i], Mode::Either) ==> match plan_spec(
                stage,
                classify_spec(ids@[i]),
            ) {
                Ok(t) => r == Ok::<(usize, Task), DeviceError>((i as usize, t)),
                Err(e) => r == Err::<(usize, Task), DeviceError>(e),
            },
{
    let index = match find_keyboard(ids) {
        Ok(i) => i,
        Err(e) => return Err(e),
    };
    proof {
        assert forall|i: int| 0 <= i < ids@.len() && #[trigger] is_tek_spec(ids@[i], Mode::Either) implies i
            == index by {
            if i < index {
                lemma_two_keyboards(ids@, i, index as int);
            } else if i > index {
                lemma_two_keyboards(ids@, index as int, i);
            }
        }
    }
    match plan_stage(stage, classify(ids[index])) {
        Ok(t) => Ok((index, t)),
        Err(e) => Err(e),
    }
}

/// Where a flashing run stands: the stage to run next, if any, and the
/// result of the run so far.
pub struct FlashSequence {
    stage: Option<Stage>,
    outcome: Result<(), FlashError>,
}

impl FlashSequence {
    pub closed spec fn stage_spec(&self) -> Option<Stage> {
        self.stage
    }

    pub closed spec fn outcome_spec(&self) -> Result<(), FlashError> {
        self.outcome
    }

    /// A run that starts with the prepare stage and has programmed nothing yet.
    pub fn new() -> (s: FlashSequence)
        ensures
            s.stage_spec() == Some(Stage::Prepare),
            s.outcome_spec() == Err::<(), FlashError>(FlashError::NotProgrammed),
    {
        FlashSequence { stage: Some(Stage::Prepare), outcome: Err(FlashError::NotProgrammed) }
    }

    /// The stage to run next; `None` once the release stage has run.
    pub fn stage(&self) -> (r: Option<Stage>)
        ensures
            r == self.stage_spec(),
    {
        self.stage
    }

    /// The run's result: success only if the program stage ran and succeeded.
    pub fn outcome(&self) -> (r: Result<(), FlashError>)
        ensures
            r == self.outcome_spec(),
    {
        self.outcome
    }

    /// Records how the current stage went, moves on to the next stage and
    /// returns the seconds to wait before it. A failed prepare stage skips the
    /// program stage; the finish and release stages always run, and their
    /// failures leave the result as it was.
    pub fn complete(&mut self, result: Result<(), FlashError>) -> (delay: u64)
        requires
            old(self).stage_spec() is Some,
        ensures
            ({
                let (next, wait) = next_stage_spec(old(self).stage_spec()->0, result is Ok);
                final(self).stage_spec() == next && delay == wait
            }),
            final(self).outcome_spec() == match old(self).stage_spec()->0 {
                Stage::Prepare => if result is Ok { old(self).outcome_spec() } else { result },
                Stage::Program => result,
                _ => old(self).outcome_spec(),
            },
    {
        let stage = self.stage.unwrap();
        match stage {
            Stage::Prepare => {
                if result.is_err() {
                    self.outcome = result;
                    self.stage = Some(Stage::Finish);
                } else {
                    self.stage = Some(Stage::Program);
                }
                SETTLE_DELAY_SECS
            },
            Stage::Program => {
                self.outcome = result;
                self.stage = Some(Stage::Finish);
                SETTLE_DELAY_SECS
            },
            Stage::Finish => {
                self.stage = Some(Stage::Release);
                FINISH_DELAY_SECS
            },
            Stage::Release => {
                self.stage = None;
                0
            },
        }
    }
}

} // verus!
