use trident_sysext::diff::{
    find_existing_sysext, get_list_of_sysexts_to_merge_and_unmerge, ResolvedSysext,
};
use trident_sysext::identity::ExtensionIdentity;

fn ident(
    sysext_id: Option<&str>,
    version_id: Option<&str>,
    name: &str,
    storage_path: Option<&str>,
) -> ExtensionIdentity {
    ExtensionIdentity {
        os_id: Some("azurelinux".into()),
        sysext_id: sysext_id.map(|s| s.into()),
        version_id: version_id.map(|s| s.into()),
        scope: None,
        architecture: None,
        name: name.into(),
        storage_path: storage_path.map(|s| s.into()),
    }
}

fn resolved(identity: ExtensionIdentity, source: &str) -> ResolvedSysext {
    ResolvedSysext { identity, source: source.into() }
}

#[test]
fn empty_desired_state_stages_nothing() {
    let observed = vec![
        ident(Some("a"), Some("1.0"), "a", Some("/var/lib/extensions/a.raw")),
        ident(Some("b"), Some("2.0"), "b", Some("/var/lib/extensions/b.raw")),
    ];
    let plan = get_list_of_sysexts_to_merge_and_unmerge(&Vec::new(), &Vec::new(), &observed);
    assert!(plan.to_merge.is_empty());
    assert!(plan.to_unmerge.is_empty());
    assert!(plan.missing_removals.is_empty());
}

#[test]
fn reapplying_same_version_is_noop() {
    let observed = vec![ident(Some("tools"), Some("1.0"), "tools", Some("/var/lib/x.raw"))];
    let add = vec![resolved(ident(Some("tools"), Some("1.0"), "tools", None), "/src/tools.raw")];
    let plan = get_list_of_sysexts_to_merge_and_unmerge(&add, &Vec::new(), &observed);
    assert!(plan.to_merge.is_empty());
    assert!(plan.to_unmerge.is_empty());
    assert!(plan.missing_removals.is_empty());
}

#[test]
fn version_change_stages_one_merge_and_one_unmerge() {
    let old = ident(Some("tools"), Some("1.0"), "tools", Some("/var/lib/x.raw"));
    let observed = vec![old.clone()];
    let add = vec![resolved(ident(Some("tools"), Some("2.0"), "tools", None), "/src/tools.raw")];
    let plan = get_list_of_sysexts_to_merge_and_unmerge(&add, &Vec::new(), &observed);
    assert_eq!(plan.to_merge.len(), 1);
    assert_eq!(plan.to_merge[0].0, "tools");
    assert_eq!(plan.to_merge[0].1, "/src/tools.raw");
    assert_eq!(plan.to_unmerge.len(), 1);
    assert_eq!(plan.to_unmerge[0], old);
    assert!(plan.missing_removals.is_empty());
}

#[test]
fn adding_unknown_extension_stages_merge_only() {
    let observed = vec![ident(Some("other"), Some("1.0"), "other", Some("/var/lib/o.raw"))];
    let add = vec![resolved(ident(Some("tools"), Some("1.0"), "tools", None), "/src/tools.raw")];
    let plan = get_list_of_sysexts_to_merge_and_unmerge(&add, &Vec::new(), &observed);
    assert_eq!(plan.to_merge.len(), 1);
    assert!(plan.to_unmerge.is_empty());
}

#[test]
fn removing_present_extension_stages_one_unmerge() {
    let old = ident(Some("tools"), Some("1.0"), "tools", Some("/var/lib/x.raw"));
    let observed = vec![old.clone()];
    let remove = vec![ident(Some("tools"), Some("1.0"), "tools", None)];
    let plan = get_list_of_sysexts_to_merge_and_unmerge(&Vec::new(), &remove, &observed);
    assert!(plan.to_merge.is_empty());
    assert_eq!(plan.to_unmerge.len(), 1);
    assert_eq!(plan.to_unmerge[0], old);
    assert!(plan.missing_removals.is_empty());
}

#[test]
fn removing_absent_extension_warns_and_stages_nothing() {
    let observed = vec![ident(Some("other"), Some("1.0"), "other", Some("/var/lib/o.raw"))];
    let gone = ident(Some("tools"), Some("1.0"), "tools", None);
    let remove = vec![gone.clone()];
    let plan = get_list_of_sysexts_to_merge_and_unmerge(&Vec::new(), &remove, &observed);
    assert!(plan.to_merge.is_empty());
    assert!(plan.to_unmerge.is_empty());
    assert_eq!(plan.missing_removals.len(), 1);
    assert_eq!(plan.missing_removals[0], gone);
}

#[test]
fn removal_wins_over_add_of_same_key() {
    let old = ident(Some("x"), Some("1.0"), "x", Some("/var/lib/x.raw"));
    let observed = vec![old.clone()];
    let add = vec![resolved(ident(Some("x"), Some("1.0"), "x", None), "/src/x.raw")];
    let remove = vec![ident(Some("x"), Some("1.0"), "x", None)];
    let plan = get_list_of_sysexts_to_merge_and_unmerge(&add, &remove, &observed);
    assert!(plan.to_merge.is_empty());
    assert_eq!(plan.to_unmerge.len(), 1);
    assert_eq!(plan.to_unmerge[0], old);
    assert!(plan.missing_removals.is_empty());
}

#[test]
fn unmerge_entries_are_deduplicated() {
    let old = ident(Some("x"), Some("1.0"), "x", Some("/var/lib/x.raw"));
    let observed = vec![old.clone()];
    let add = vec![resolved(ident(Some("x"), Some("2.0"), "x", None), "/src/x.raw")];
    let remove = vec![ident(Some("x"), Some("2.0"), "x", None)];
    let plan = get_list_of_sysexts_to_merge_and_unmerge(&add, &remove, &observed);
    assert_eq!(plan.to_merge.len(), 1);
    assert_eq!(plan.to_unmerge.len(), 1);
    assert_eq!(plan.to_unmerge[0], old);
}

#[test]
fn missing_sysext_id_never_matches() {
    let observed = vec![ident(None, Some("1.0"), "anon", Some("/var/lib/anon.raw"))];
    let probe = ident(None, Some("1.0"), "anon", None);
    assert!(find_existing_sysext(&probe, &observed).is_none());

    let add = vec![resolved(probe, "/src/anon.raw")];
    let plan = get_list_of_sysexts_to_merge_and_unmerge(&add, &Vec::new(), &observed);
    assert_eq!(plan.to_merge.len(), 1);
    assert!(plan.to_unmerge.is_empty());
}

#[test]
fn find_existing_sysext_returns_first_match() {
    let observed = vec![
        ident(Some("a"), Some("1.0"), "a", Some("/var/lib/a.raw")),
        ident(Some("b"), Some("1.0"), "b", Some("/var/lib/b.raw")),
    ];
    let probe = ident(Some("b"), Some("9.9"), "elsewhere", None);
    let found = find_existing_sysext(&probe, &observed).unwrap();
    assert_eq!(found, observed[1]);
}
