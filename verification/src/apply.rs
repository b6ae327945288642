//! The applier: executes a reconciliation plan in the required order —
//! stage every new image into the managed extension directory, remove
//! every retired image, refresh the overlay exactly once after all file
//! mutations, and persist the recomputed observed-state snapshot last.
//!
//! Like the extraction lifecycle, the applier is a state machine: the
//! driver performs each requested filesystem or overlay-tool action and
//! reports success or failure, and the machine decides every next step,
//! so the ordering is proved here rather than promised by the driver.

use vstd::prelude::*;
use vstd::string::{StrSliceExecFns, StringExecFns};

use crate::errors::ApplyError;
use crate::identity::{ExtensionIdentity, IdentityModel};

verus! {

/// The managed extension storage directory and the file name an image is
/// staged under: a path derived deterministically from the logical name.
pub open spec fn spec_staging_path(name: Seq<char>) -> Seq<char> {
    "/var/lib/extensions/"@ + name + ".raw"@
}

/// The path a merged extension is staged at, derived from its logical
/// name.
pub fn sysext_staging_path(name: &str) -> (r: String)
    ensures
        r@ == spec_staging_path(name@),
{
    let mut p = String::from_str("/var/lib/extensions/");
    p.append(name);
    p.append(".raw");
    proof {
        assert(p@ =~= spec_staging_path(name@));
    }
    p
}

/// The next action the driver must perform.
#[derive(Debug, PartialEq)]
pub enum ApplyAction {
    /// Create the managed extension directory if it is absent.
    EnsureStorageDir,
    /// Copy (not move) the image at `source` to `dest`.
    CopyImage { source: String, dest: String },
    /// Remove the file at `path`.
    RemoveImage { path: String },
    /// Run the overlay tool's refresh operation.
    RefreshOverlay,
    /// Recompute the observed-state snapshot by re-probing the live
    /// system and persist it.
    PersistSnapshot,
    /// The run is complete; the outcome can be taken.
    Finished,
}

/// Mathematical model of an action.
pub enum ApplyActionModel {
    EnsureStorageDir,
    CopyImage { source: Seq<char>, dest: Seq<char> },
    RemoveImage { path: Seq<char> },
    RefreshOverlay,
    PersistSnapshot,
    Finished,
}

impl DeepView for ApplyAction {
    type V = ApplyActionModel;

    open spec fn deep_view(&self) -> ApplyActionModel {
        match self {
            ApplyAction::EnsureStorageDir => ApplyActionModel::EnsureStorageDir,
            ApplyAction::CopyImage { source, dest } => ApplyActionModel::CopyImage {
                source: source.deep_view(),
                dest: dest.deep_view(),
            },
            ApplyAction::RemoveImage { path } => ApplyActionModel::RemoveImage {
                path: path.deep_view(),
            },
            ApplyAction::RefreshOverlay => ApplyActionModel::RefreshOverlay,
            ApplyAction::PersistSnapshot => ApplyActionModel::PersistSnapshot,
            ApplyAction::Finished => ApplyActionModel::Finished,
        }
    }
}

/// What the driver reports back after performing an action.
#[derive(Clone, Copy, Debug, PartialEq, Eq, Structural)]
pub enum ApplyEvent {
    StepOk,
    StepFailed,
}

/// Where the applier stands.
pub enum ApplyPhase {
    /// Waiting for the managed directory to exist.
    Preparing,
    /// Copying the merge entry at `next`.
    Staging { next: usize },
    /// Removing the unmerge entry at `next`.
    Removing { next: usize },
    /// All file mutations done; waiting for the single overlay refresh.
    Refreshing,
    /// Waiting for the recomputed snapshot to be persisted.
    Persisting,
    /// The run is over.
    Done { outcome: Result<(), ApplyError> },
}

/// The applier: the plan it executes and where it stands.
pub struct ApplyMachine {
    to_merge: Vec<(String, String)>,
    to_unmerge: Vec<ExtensionIdentity>,
    phase: ApplyPhase,
}

/// Mathematical model of the applier.
pub struct ApplyModel {
    pub to_merge: Seq<(Seq<char>, Seq<char>)>,
    pub to_unmerge: Seq<IdentityModel>,
    pub phase: ApplyPhase,
}

impl DeepView for ApplyMachine {
    type V = ApplyModel;

    closed spec fn deep_view(&self) -> ApplyModel {
        ApplyModel {
            to_merge: self.to_merge.deep_view(),
            to_unmerge: self.to_unmerge.deep_view(),
            phase: self.phase,
        }
    }
}

/// The error a failure in a phase ends the run with.
pub open spec fn spec_phase_error(p: ApplyPhase) -> ApplyError {
    match p {
        ApplyPhase::Preparing => ApplyError::StagingError,
        ApplyPhase::Staging { .. } => ApplyError::StagingError,
        ApplyPhase::Removing { .. } => ApplyError::StagingError,
        ApplyPhase::Refreshing => ApplyError::RefreshError,
        ApplyPhase::Persisting => ApplyError::SnapshotError,
        ApplyPhase::Done { .. } => ApplyError::InternalError,
    }
}

/// Entering the staging walk at position `i`: copy the next merge entry,
/// or move on to the removal walk when the merge list is exhausted.
pub open spec fn spec_enter_staging(
    to_merge: Seq<(Seq<char>, Seq<char>)>,
    to_unmerge: Seq<IdentityModel>,
    i: int,
) -> (ApplyPhase, ApplyActionModel) {
    if 0 <= i < to_merge.len() {
        (
            ApplyPhase::Staging { next: i as usize },
            ApplyActionModel::CopyImage {
                source: to_merge[i].1,
                dest: spec_staging_path(to_merge[i].0),
            },
        )
    } else {
        spec_enter_removing(to_unmerge, 0)
    }
}

/// Entering the removal walk at position `j`: remove the next unmerge
/// entry at its recorded storage path, fail the run when an entry
/// carries none (only snapshot-derived entries, which always carry one,
/// are staged for unmerge), or move on to the refresh when the list is
/// exhausted.
pub open spec fn spec_enter_removing(to_unmerge: Seq<IdentityModel>, j: int) -> (
    ApplyPhase,
    ApplyActionModel,
) {
    if 0 <= j < to_unmerge.len() {
        match to_unmerge[j].storage_path {
            Some(p) => (
                ApplyPhase::Removing { next: j as usize },
                ApplyActionModel::RemoveImage { path: p },
            ),
            None => (
                ApplyPhase::Done { outcome: Err(ApplyError::InternalError) },
                ApplyActionModel::Finished,
            ),
        }
    } else {
        (ApplyPhase::Refreshing, ApplyActionModel::RefreshOverlay)
    }
}

/// One step of the applier: the new phase and the next action for each
/// phase and event.
pub open spec fn spec_apply_step(m: ApplyModel, e: ApplyEvent) -> (ApplyPhase, ApplyActionModel) {
    match (m.phase, e) {
        (ApplyPhase::Done { outcome }, _) => (
            ApplyPhase::Done { outcome },
            ApplyActionModel::Finished,
        ),
        (ApplyPhase::Preparing, ApplyEvent::StepOk) => spec_enter_staging(
            m.to_merge,
            m.to_unmerge,
            0,
        ),
        (ApplyPhase::Staging { next }, ApplyEvent::StepOk) => spec_enter_staging(
            m.to_merge,
            m.to_unmerge,
            next as int + 1,
        ),
        (ApplyPhase::Removing { next }, ApplyEvent::StepOk) => spec_enter_removing(
            m.to_unmerge,
            next as int + 1,
        ),
        (ApplyPhase::Refreshing, ApplyEvent::StepOk) => (
            ApplyPhase::Persisting,
            ApplyActionModel::PersistSnapshot,
        ),
        (ApplyPhase::Persisting, ApplyEvent::StepOk) => (
            ApplyPhase::Done { outcome: Ok(()) },
            ApplyActionModel::Finished,
        ),
        (phase, ApplyEvent::StepFailed) => (
            ApplyPhase::Done { outcome: Err(spec_phase_error(phase)) },
            ApplyActionModel::Finished,
        ),
    }
}

/// The staging walk at position `i`, executably.
fn enter_staging(
    to_merge: &Vec<(String, String)>,
    to_unmerge: &Vec<ExtensionIdentity>,
    i: usize,
) -> (r: (ApplyPhase, ApplyAction))
    ensures
        (r.0, r.1.deep_view()) == spec_enter_staging(
            to_merge.deep_view(),
            to_unmerge.deep_view(),
            i as int,
        ),
{
    if i < to_merge.len() {
        let entry = &to_merge[i];
        let dest = sysext_staging_path(entry.0.as_str());
        (
            ApplyPhase::Staging { next: i },
            ApplyAction::CopyImage { source: entry.1.clone(), dest },
        )
    } else {
        enter_removing(to_unmerge, 0)
    }
}

/// The removal walk at position `j`, executably.
fn enter_removing(to_unmerge: &Vec<ExtensionIdentity>, j: usize) -> (r: (ApplyPhase, ApplyAction))
    ensures
        (r.0, r.1.deep_view()) == spec_enter_removing(to_unmerge.deep_view(), j as int),
{
    if j < to_unmerge.len() {
        match &to_unmerge[j].storage_path {
            Some(p) => (
                ApplyPhase::Removing { next: j },
                ApplyAction::RemoveImage { path: p.clone() },
            ),
            None => (
                ApplyPhase::Done { outcome: Err(ApplyError::InternalError) },
                ApplyAction::Finished,
            ),
        }
    } else {
        (ApplyPhase::Refreshing, ApplyAction::RefreshOverlay)
    }
}

impl ApplyMachine {
    /// Starts a run over a plan; the first action makes sure the managed
    /// directory exists.
    pub fn new(to_merge: Vec<(String, String)>, to_unmerge: Vec<ExtensionIdentity>) -> (r: (
        ApplyMachine,
        ApplyAction,
    ))
        ensures
            r.0.deep_view() == (ApplyModel {
                to_merge: to_merge.deep_view(),
                to_unmerge: to_unmerge.deep_view(),
                phase: ApplyPhase::Preparing,
            }),
            r.1.deep_view() == ApplyActionModel::EnsureStorageDir,
    {
        (
            ApplyMachine { to_merge, to_unmerge, phase: ApplyPhase::Preparing },
            ApplyAction::EnsureStorageDir,
        )
    }

    /// Advances the run by one driver event and returns the next action
    /// to perform.
    pub fn step(self, event: ApplyEvent) -> (r: (ApplyMachine, ApplyAction))
        ensures
            r.0.deep_view().to_merge == self.deep_view().to_merge,
            r.0.deep_view().to_unmerge == self.deep_view().to_unmerge,
            (r.0.deep_view().phase, r.1.deep_view()) == spec_apply_step(self.deep_view(), event),
    {
        let ApplyMachine { to_merge, to_unmerge, phase } = self;
        let (new_phase, action): (ApplyPhase, ApplyAction) = match (phase, event) {
            (ApplyPhase::Done { outcome }, _) => (
                ApplyPhase::Done { outcome },
                ApplyAction::Finished,
            ),
            (ApplyPhase::Preparing, ApplyEvent::StepOk) => enter_staging(
                &to_merge,
                &to_unmerge,
                0,
            ),
            (ApplyPhase::Staging { next }, ApplyEvent::StepOk) => {
                if next < to_merge.len() {
                    enter_staging(&to_merge, &to_unmerge, next + 1)
                } else {
                    enter_removing(&to_unmerge, 0)
                }
            },
            (ApplyPhase::Removing { next }, ApplyEvent::StepOk) => {
                if next < to_unmerge.len() {
                    enter_removing(&to_unmerge, next + 1)
                } else {
                    (ApplyPhase::Refreshing, ApplyAction::RefreshOverlay)
                }
            },
            (ApplyPhase::Refreshing, ApplyEvent::StepOk) => (
                ApplyPhase::Persisting,
                ApplyAction::PersistSnapshot,
            ),
            (ApplyPhase::Persisting, ApplyEvent::StepOk) => (
                ApplyPhase::Done { outcome: Ok(()) },
                ApplyAction::Finished,
            ),
            (other, ApplyEvent::StepFailed) => {
                let err = match other {
                    ApplyPhase::Preparing => ApplyError::StagingError,
                    ApplyPhase::Staging { .. } => ApplyError::StagingError,
                    ApplyPhase::Removing { .. } => ApplyError::StagingError,
                    ApplyPhase::Refreshing => ApplyError::RefreshError,
                    ApplyPhase::Persisting => ApplyError::SnapshotError,
                    ApplyPhase::Done { .. } => ApplyError::InternalError,
                };
                (ApplyPhase::Done { outcome: Err(err) }, ApplyAction::Finished)
            },
        };
        (ApplyMachine { to_merge, to_unmerge, phase: new_phase }, action)
    }

    /// The run's outcome, once the machine is done.
    pub fn into_outcome(self) -> (r: Option<Result<(), ApplyError>>)
        ensures
            (r is Some) == (self.deep_view().phase is Done),
            r matches Some(o) ==> self.deep_view().phase == (ApplyPhase::Done { outcome: o }),
    {
        match self.phase {
            ApplyPhase::Done { outcome } => Some(outcome),
            _ => None,
        }
    }
}

/// How far along a run a phase stands.
pub open spec fn phase_rank(p: ApplyPhase) -> int {
    match p {
        ApplyPhase::Preparing => 0,
        ApplyPhase::Staging { .. } => 1,
        ApplyPhase::Removing { .. } => 2,
        ApplyPhase::Refreshing => 3,
        ApplyPhase::Persisting => 4,
        ApplyPhase::Done { .. } => 5,
    }
}

/// Law: the applier keeps the required order. Phases only advance; the
/// overlay refresh is requested exactly when the refresh phase is
/// entered, which happens only once the staging and removal walks are
/// exhausted; the snapshot persists only after the refresh succeeded; a
/// successful run is reported only after the snapshot was persisted; and
/// a failure in any phase ends the run with that phase's error and no
/// further action.
pub proof fn lemma_apply_order(m: ApplyModel, e: ApplyEvent)
    ensures
        phase_rank(spec_apply_step(m, e).0) >= phase_rank(m.phase),
        spec_apply_step(m, e).1 is RefreshOverlay ==> spec_apply_step(m, e).0
            == ApplyPhase::Refreshing,
        (!(m.phase is Refreshing) && spec_apply_step(m, e).0 == ApplyPhase::Refreshing) ==> (e
            == ApplyEvent::StepOk && (m.phase is Preparing || m.phase is Staging
            || m.phase is Removing)),
        spec_apply_step(m, e).1 is PersistSnapshot ==> (m.phase is Refreshing && e
            == ApplyEvent::StepOk),
        spec_apply_step(m, e).0 == (ApplyPhase::Done { outcome: Ok(()) }) && !(m.phase is Done)
            ==> (m.phase is Persisting && e == ApplyEvent::StepOk),
        (e == ApplyEvent::StepFailed && !(m.phase is Done)) ==> spec_apply_step(m, e).0 == (
        ApplyPhase::Done { outcome: Err(spec_phase_error(m.phase)) }) && spec_apply_step(
            m,
            e,
        ).1 is Finished,
{
}

} // verus!
