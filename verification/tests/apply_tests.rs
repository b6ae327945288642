use trident_sysext::apply::{sysext_staging_path, ApplyAction, ApplyEvent, ApplyMachine};
use trident_sysext::errors::ApplyError;
use trident_sysext::identity::ExtensionIdentity;

fn observed(sysext_id: &str, storage_path: Option<&str>) -> ExtensionIdentity {
    ExtensionIdentity {
        os_id: None,
        sysext_id: Some(sysext_id.into()),
        version_id: Some("1.0".into()),
        scope: None,
        architecture: None,
        name: sysext_id.into(),
        storage_path: storage_path.map(|s| s.into()),
    }
}

#[test]
fn staging_path_is_derived_from_the_name() {
    assert_eq!(sysext_staging_path("tools"), "/var/lib/extensions/tools.raw");
}

#[test]
fn apply_runs_copy_remove_refresh_persist_in_order() {
    let to_merge = vec![("tools".to_string(), "/downloads/tools.raw".to_string())];
    let to_unmerge = vec![observed("old", Some("/var/lib/extensions/old.raw"))];

    let (m, a) = ApplyMachine::new(to_merge, to_unmerge);
    assert_eq!(a, ApplyAction::EnsureStorageDir);

    let (m, a) = m.step(ApplyEvent::StepOk);
    assert_eq!(
        a,
        ApplyAction::CopyImage {
            source: "/downloads/tools.raw".into(),
            dest: "/var/lib/extensions/tools.raw".into(),
        }
    );

    let (m, a) = m.step(ApplyEvent::StepOk);
    assert_eq!(a, ApplyAction::RemoveImage { path: "/var/lib/extensions/old.raw".into() });

    let (m, a) = m.step(ApplyEvent::StepOk);
    assert_eq!(a, ApplyAction::RefreshOverlay);

    let (m, a) = m.step(ApplyEvent::StepOk);
    assert_eq!(a, ApplyAction::PersistSnapshot);

    let (m, a) = m.step(ApplyEvent::StepOk);
    assert_eq!(a, ApplyAction::Finished);

    assert_eq!(m.into_outcome().unwrap(), Ok(()));
}

#[test]
fn empty_plan_still_refreshes_and_persists() {
    let (m, a) = ApplyMachine::new(Vec::new(), Vec::new());
    assert_eq!(a, ApplyAction::EnsureStorageDir);
    let (m, a) = m.step(ApplyEvent::StepOk);
    assert_eq!(a, ApplyAction::RefreshOverlay);
    let (m, a) = m.step(ApplyEvent::StepOk);
    assert_eq!(a, ApplyAction::PersistSnapshot);
    let (m, a) = m.step(ApplyEvent::StepOk);
    assert_eq!(a, ApplyAction::Finished);
    assert_eq!(m.into_outcome().unwrap(), Ok(()));
}

#[test]
fn copy_failure_ends_the_run_with_a_staging_error() {
    let to_merge = vec![("tools".to_string(), "/downloads/tools.raw".to_string())];
    let (m, _) = ApplyMachine::new(to_merge, Vec::new());
    let (m, _) = m.step(ApplyEvent::StepOk);
    let (m, a) = m.step(ApplyEvent::StepFailed);
    assert_eq!(a, ApplyAction::Finished);
    assert_eq!(m.into_outcome().unwrap(), Err(ApplyError::StagingError));
}

#[test]
fn missing_storage_path_is_an_internal_error() {
    let to_unmerge = vec![observed("old", None)];
    let (m, _) = ApplyMachine::new(Vec::new(), to_unmerge);
    let (m, a) = m.step(ApplyEvent::StepOk);
    assert_eq!(a, ApplyAction::Finished);
    assert_eq!(m.into_outcome().unwrap(), Err(ApplyError::InternalError));
}

#[test]
fn refresh_failure_is_a_refresh_error() {
    let (m, _) = ApplyMachine::new(Vec::new(), Vec::new());
    let (m, _) = m.step(ApplyEvent::StepOk);
    let (m, _) = m.step(ApplyEvent::StepFailed);
    assert_eq!(m.into_outcome().unwrap(), Err(ApplyError::RefreshError));
}

#[test]
fn persist_failure_is_a_snapshot_error() {
    let (m, _) = ApplyMachine::new(Vec::new(), Vec::new());
    let (m, _) = m.step(ApplyEvent::StepOk);
    let (m, _) = m.step(ApplyEvent::StepOk);
    let (m, _) = m.step(ApplyEvent::StepFailed);
    assert_eq!(m.into_outcome().unwrap(), Err(ApplyError::SnapshotError));
}

#[test]
fn removals_walk_every_entry() {
    let to_unmerge = vec![
        observed("a", Some("/var/lib/extensions/a.raw")),
        observed("b", Some("/var/lib/extensions/b.raw")),
    ];
    let (m, _) = ApplyMachine::new(Vec::new(), to_unmerge);
    let (m, a) = m.step(ApplyEvent::StepOk);
    assert_eq!(a, ApplyAction::RemoveImage { path: "/var/lib/extensions/a.raw".into() });
    let (m, a) = m.step(ApplyEvent::StepOk);
    assert_eq!(a, ApplyAction::RemoveImage { path: "/var/lib/extensions/b.raw".into() });
    let (_, a) = m.step(ApplyEvent::StepOk);
    assert_eq!(a, ApplyAction::RefreshOverlay);
}
