use trident_sysext::apply::{ApplyAction, ApplyEvent, ApplyMachine};
use trident_sysext::codec::{decode_snapshot, encode_snapshot};
use trident_sysext::diff::{get_list_of_sysexts_to_merge_and_unmerge, ResolvedSysext};
use trident_sysext::identity::ExtensionIdentity;
use trident_sysext::release::DescriptorFile;
use trident_sysext::store::{get_existing_sysexts, ListedExtension};

fn ident(
    sysext_id: &str,
    version_id: &str,
    name: &str,
    storage_path: Option<&str>,
) -> ExtensionIdentity {
    ExtensionIdentity {
        os_id: Some("azurelinux".into()),
        sysext_id: Some(sysext_id.into()),
        version_id: Some(version_id.into()),
        scope: None,
        architecture: None,
        name: name.into(),
        storage_path: storage_path.map(|s| s.into()),
    }
}

/// Runs an apply plan against a simulated file tree, reporting success
/// for every action, and returns the files left and how often the
/// overlay was refreshed and the snapshot persisted.
fn run_apply(
    plan_merge: Vec<(String, String)>,
    plan_unmerge: Vec<ExtensionIdentity>,
    files: &mut Vec<String>,
) -> (usize, usize) {
    let mut refreshes = 0;
    let mut persists = 0;
    let (mut machine, mut action) = ApplyMachine::new(plan_merge, plan_unmerge);
    loop {
        match &action {
            ApplyAction::EnsureStorageDir => {}
            ApplyAction::CopyImage { dest, .. } => {
                files.push(dest.clone());
            }
            ApplyAction::RemoveImage { path } => {
                assert!(files.contains(path), "removing a file that is not there");
                files.retain(|f| f != path);
            }
            ApplyAction::RefreshOverlay => {
                assert_eq!(persists, 0, "refresh must come before the snapshot persists");
                refreshes += 1;
            }
            ApplyAction::PersistSnapshot => {
                assert_eq!(refreshes, 1, "the snapshot persists only after the refresh");
                persists += 1;
            }
            ApplyAction::Finished => {
                assert_eq!(machine.into_outcome().unwrap(), Ok(()));
                return (refreshes, persists);
            }
        }
        let (next, a) = machine.step(ApplyEvent::StepOk);
        machine = next;
        action = a;
    }
}

#[test]
fn scenario_version_update_replaces_the_old_image() {
    // Observed: net-tools 1.0 merged from /var/lib/extensions/a.raw.
    let observed = vec![ident("net-tools", "1.0", "net-tools", Some("/var/lib/extensions/a.raw"))];
    // Desired: net-tools 2.0 from a downloaded image.
    let add = vec![ResolvedSysext {
        identity: ident("net-tools", "2.0", "net-tools", None),
        source: "/downloads/net-tools-2.raw".into(),
    }];

    let plan = get_list_of_sysexts_to_merge_and_unmerge(&add, &Vec::new(), &observed);
    assert_eq!(plan.to_merge.len(), 1);
    assert_eq!(plan.to_merge[0].1, "/downloads/net-tools-2.raw");
    assert_eq!(plan.to_unmerge.len(), 1);
    assert_eq!(plan.to_unmerge[0].storage_path.as_deref(), Some("/var/lib/extensions/a.raw"));

    let mut files = vec!["/var/lib/extensions/a.raw".to_string()];
    let (refreshes, persists) = run_apply(plan.to_merge, plan.to_unmerge, &mut files);

    assert!(!files.contains(&"/var/lib/extensions/a.raw".to_string()), "old image deleted");
    assert!(files.contains(&"/var/lib/extensions/net-tools.raw".to_string()), "new image staged");
    assert_eq!(refreshes, 1);
    assert_eq!(persists, 1);
}

#[test]
fn scenario_fresh_install_merges_and_snapshots_one_entry() {
    // Observed: nothing. Desired: debug-tools 1.0.
    let observed: Vec<ExtensionIdentity> = Vec::new();
    let add = vec![ResolvedSysext {
        identity: ident("debug-tools", "1.0", "debug-tools", None),
        source: "/downloads/debug-tools.raw".into(),
    }];

    let plan = get_list_of_sysexts_to_merge_and_unmerge(&add, &Vec::new(), &observed);
    assert_eq!(plan.to_merge.len(), 1);
    assert!(plan.to_unmerge.is_empty());

    let mut files: Vec<String> = Vec::new();
    run_apply(plan.to_merge, plan.to_unmerge, &mut files);
    assert_eq!(files, vec!["/var/lib/extensions/debug-tools.raw".to_string()]);

    // Re-probe the live state, as the persist step does, and check the
    // new snapshot holds exactly one entry for debug-tools.
    let descriptors = vec![DescriptorFile {
        file_name: "extension-release.debug-tools".into(),
        content: "SYSEXT_ID=debug-tools\nSYSEXT_VERSION_ID=1.0\n".into(),
    }];
    let listing = vec![ListedExtension {
        name: "debug-tools".into(),
        ext_type: "sysext".into(),
        path: "/var/lib/extensions/debug-tools.raw".into(),
        time: 7,
    }];
    let snapshot = get_existing_sysexts(&descriptors, &listing).unwrap();
    assert_eq!(snapshot.len(), 1);
    assert_eq!(snapshot[0].sysext_id.as_deref(), Some("debug-tools"));
    assert_eq!(
        snapshot[0].storage_path.as_deref(),
        Some("/var/lib/extensions/debug-tools.raw")
    );

    // The persisted snapshot survives a save/load cycle unchanged.
    let saved = encode_snapshot(&snapshot);
    assert_eq!(decode_snapshot(saved.as_str()).unwrap(), snapshot);
}

#[test]
fn scenario_remove_wins_over_add_of_the_same_key() {
    // Observed: X 1.0. Desired: add X 1.0 and remove X.
    let observed = vec![ident("X", "1.0", "X", Some("/var/lib/extensions/x.raw"))];
    let add = vec![ResolvedSysext {
        identity: ident("X", "1.0", "X", None),
        source: "/downloads/x.raw".into(),
    }];
    let remove = vec![ident("X", "1.0", "X", None)];

    let plan = get_list_of_sysexts_to_merge_and_unmerge(&add, &remove, &observed);
    assert!(plan.to_merge.is_empty(), "the add is already satisfied");
    assert_eq!(plan.to_unmerge.len(), 1, "the remove wins for the key");
    assert!(plan.missing_removals.is_empty());

    let mut files = vec!["/var/lib/extensions/x.raw".to_string()];
    run_apply(plan.to_merge, plan.to_unmerge, &mut files);
    assert!(files.is_empty(), "the merged image is gone and nothing was staged");
}
