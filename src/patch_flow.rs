use vstd::prelude::*;

use crate::status::{usable_stage, patch_usable, PatchStage};

verus! {

/// What a patch command is for.
#[derive(PartialEq, Eq, Structural, Clone, Copy, Debug)]
pub enum PatchGoal {
    /// Apply the patch to the game.
    Apply,
    /// Take the patch off the game.
    Revert,
    /// Bring the local patch copy up to date from the first `hosts` mirrors, in order.
    Sync { hosts: usize },
}

/// How a patch command ends.
#[derive(PartialEq, Eq, Structural, Clone, Copy, Debug)]
pub enum PatchReport {
    NotSynced,
    FolderCheckFailed,
    StatusFetchFailed,
    AlreadyApplied,
    AppliedCheckFailed,
    Applied,
    ApplyFailed,
    NotRevertable,
    Reverted,
    RevertFailed,
    AlreadySynced,
    Synced,
    SyncFailed,
}

/// The next call to the patcher, or the end of the command.
#[derive(PartialEq, Eq, Structural, Clone, Copy, Debug)]
pub enum PatchCall {
    /// Is the local patch copy in sync with the mirrors?
    CheckSync,
    /// Fetch where the patch stands.
    FetchStatus,
    /// Is the patch applied to the game?
    CheckApplied,
    Apply,
    Revert,
    /// Sync the local copy from the mirror at this position.
    SyncFrom(usize),
    Finish(PatchReport),
}

/// What the patcher answered.
#[derive(PartialEq, Eq, Structural, Clone, Copy, Debug)]
pub enum PatchAnswer {
    Yes,
    No,
    /// The call failed.
    Failed,
    /// The patch's stage, for `FetchStatus`.
    Stage(PatchStage),
}

/// The patch commands' rules. Every command first checks the local copy. Apply then
/// fetches the status, checks whether the patch is on, and applies it if not. Revert
/// fetches the status and reverts a tested or released patch. Sync tries the mirrors in
/// order until one succeeds. Any failure ends the command with its report.
pub open spec fn patch_next(goal: PatchGoal, call: PatchCall, answer: PatchAnswer) -> PatchCall {
    match call {
        PatchCall::CheckSync => match (goal, answer) {
            (PatchGoal::Sync { .. }, PatchAnswer::Yes) => PatchCall::Finish(PatchReport::AlreadySynced),
            (PatchGoal::Sync { hosts }, PatchAnswer::No) => if hosts > 0 {
                PatchCall::SyncFrom(0)
            } else {
                PatchCall::Finish(PatchReport::SyncFailed)
            },
            (_, PatchAnswer::Yes) => PatchCall::FetchStatus,
            (_, PatchAnswer::No) => PatchCall::Finish(PatchReport::NotSynced),
            _ => PatchCall::Finish(PatchReport::FolderCheckFailed),
        },
        PatchCall::FetchStatus => match answer {
            PatchAnswer::Stage(stage) => if goal == PatchGoal::Revert {
                if usable_stage(stage) {
                    PatchCall::Revert
                } else {
                    PatchCall::Finish(PatchReport::NotRevertable)
                }
            } else {
                PatchCall::CheckApplied
            },
            _ => PatchCall::Finish(PatchReport::StatusFetchFailed),
        },
        PatchCall::CheckApplied => match answer {
            PatchAnswer::No => PatchCall::Apply,
            PatchAnswer::Yes => PatchCall::Finish(PatchReport::AlreadyApplied),
            _ => PatchCall::Finish(PatchReport::AppliedCheckFailed),
        },
        PatchCall::Apply => match answer {
            PatchAnswer::Yes => PatchCall::Finish(PatchReport::Applied),
            _ => PatchCall::Finish(PatchReport::ApplyFailed),
        },
        PatchCall::Revert => match answer {
            PatchAnswer::Yes => PatchCall::Finish(PatchReport::Reverted),
            _ => PatchCall::Finish(PatchReport::RevertFailed),
        },
        PatchCall::SyncFrom(i) => match (goal, answer) {
            (_, PatchAnswer::Yes) => PatchCall::Finish(PatchReport::Synced),
            (PatchGoal::Sync { hosts }, _) => if i + 1 < hosts {
                PatchCall::SyncFrom((i + 1) as usize)
            } else {
                PatchCall::Finish(PatchReport::SyncFailed)
            },
            _ => PatchCall::Finish(PatchReport::SyncFailed),
        },
        PatchCall::Finish(report) => PatchCall::Finish(report),
    }
}

/// The call that follows `call`, given the patcher's answer to it.
pub fn next_patch_call(goal: PatchGoal, call: PatchCall, answer: PatchAnswer) -> (r: PatchCall)
    ensures
        r == patch_next(goal, call, answer),
{
    match call {
        PatchCall::CheckSync => match (goal, answer) {
            (PatchGoal::Sync { .. }, PatchAnswer::Yes) => PatchCall::Finish(PatchReport::AlreadySynced),
            (PatchGoal::Sync { hosts }, PatchAnswer::No) => if hosts > 0 {
                PatchCall::SyncFrom(0)
            } else {
                PatchCall::Finish(PatchReport::SyncFailed)
            },
            (_, PatchAnswer::Yes) => PatchCall::FetchStatus,
            (_, PatchAnswer::No) => PatchCall::Finish(PatchReport::NotSynced),
            _ => PatchCall::Finish(PatchReport::FolderCheckFailed),
        },
        PatchCall::FetchStatus => match answer {
            PatchAnswer::Stage(stage) => if goal == PatchGoal::Revert {
                if patch_usable(stage) {
                    PatchCall::Revert
                } else {
                    PatchCall::Finish(PatchReport::NotRevertable)
                }
            } else {
                PatchCall::CheckApplied
            },
            _ => PatchCall::Finish(PatchReport::StatusFetchFailed),
        },
        PatchCall::CheckApplied => match answer {
            PatchAnswer::No => PatchCall::Apply,
            PatchAnswer::Yes => PatchCall::Finish(PatchReport::AlreadyApplied),
            _ => PatchCall::Finish(PatchReport::AppliedCheckFailed),
        },
        PatchCall::Apply => match answer {
            PatchAnswer::Yes => PatchCall::Finish(PatchReport::Applied),
            _ => PatchCall::Finish(PatchReport::ApplyFailed),
        },
        PatchCall::Revert => match answer {
            PatchAnswer::Yes => PatchCall::Finish(PatchReport::Reverted),
            _ => PatchCall::Finish(PatchReport::RevertFailed),
        },
        PatchCall::SyncFrom(i) => match (goal, answer) {
            (_, PatchAnswer::Yes) => PatchCall::Finish(PatchReport::Synced),
            (PatchGoal::Sync { hosts }, _) => if i < hosts && i + 1 < hosts {
                PatchCall::SyncFrom(i + 1)
            } else {
                PatchCall::Finish(PatchReport::SyncFailed)
            },
            _ => PatchCall::Finish(PatchReport::SyncFailed),
        },
        PatchCall::Finish(report) => PatchCall::Finish(report),
    }
}

/// Whether a call changes the game or the local patch copy.
pub open spec fn changes_files(call: PatchCall) -> bool {
    call is Apply || call is Revert || call is SyncFrom
}

/// Apply and revert touch the game only after the local copy was found in sync and the
/// status was fetched; revert only for a tested or released patch; a sync only ever
/// reads a listed mirror.
pub proof fn lemma_patch_changes_guarded(goal: PatchGoal, call: PatchCall, answer: PatchAnswer)
    ensures
        patch_next(goal, call, answer) is Apply ==> call is CheckApplied && answer is No,
        patch_next(goal, call, answer) is Revert ==> call is FetchStatus && (answer matches PatchAnswer::Stage(s) && usable_stage(s)),
        patch_next(goal, call, answer) matches PatchCall::SyncFrom(i) ==> (goal matches PatchGoal::Sync { hosts } && i < hosts),
        call is CheckSync && changes_files(patch_next(goal, call, answer)) ==> goal is Sync && answer is No,
{
}

} // verus!
