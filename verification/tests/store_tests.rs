use trident_sysext::codec::{decode_snapshot, encode_snapshot};
use trident_sysext::errors::StoreError;
use trident_sysext::identity::ExtensionIdentity;
use trident_sysext::release::DescriptorFile;
use trident_sysext::store::{find_listed_path, get_existing_sysexts, load_snapshot,
    ListedExtension};

fn descriptor(file_name: &str, content: &str) -> DescriptorFile {
    DescriptorFile { file_name: file_name.into(), content: content.into() }
}

fn listed(name: &str, path: &str) -> ListedExtension {
    ListedExtension { name: name.into(), ext_type: "sysext".into(), path: path.into(), time: 1 }
}

fn ident(sysext_id: Option<&str>, name: &str, storage_path: Option<&str>) -> ExtensionIdentity {
    ExtensionIdentity {
        os_id: Some("azurelinux".into()),
        sysext_id: sysext_id.map(|s| s.into()),
        version_id: Some("1.0".into()),
        scope: None,
        architecture: None,
        name: name.into(),
        storage_path: storage_path.map(|s| s.into()),
    }
}

#[test]
fn bootstrap_builds_one_entry_per_descriptor() {
    let files = vec![
        descriptor("extension-release.a", "SYSEXT_ID=a\nSYSEXT_VERSION_ID=1.0\n"),
        descriptor("extension-release.b", "SYSEXT_ID=b\nSYSEXT_VERSION_ID=2.0\n"),
    ];
    let listing = vec![
        listed("a", "/var/lib/extensions/a.raw"),
        listed("b", "/var/lib/extensions/b.raw"),
    ];
    let snapshot = get_existing_sysexts(&files, &listing).unwrap();
    assert_eq!(snapshot.len(), 2);
    assert_eq!(snapshot[0].sysext_id.as_deref(), Some("a"));
    assert_eq!(snapshot[0].storage_path.as_deref(), Some("/var/lib/extensions/a.raw"));
    assert_eq!(snapshot[1].sysext_id.as_deref(), Some("b"));
    assert_eq!(snapshot[1].version_id.as_deref(), Some("2.0"));
}

#[test]
fn bootstrap_fails_on_unlisted_extension() {
    let files = vec![descriptor("extension-release.a", "SYSEXT_ID=a\n")];
    let listing = vec![listed("b", "/var/lib/extensions/b.raw")];
    assert_eq!(get_existing_sysexts(&files, &listing).unwrap_err(), StoreError::UnlistedExtension);
}

#[test]
fn bootstrap_fails_on_descriptor_without_marker() {
    let files = vec![descriptor("os-release", "ID=azurelinux\n")];
    let listing = vec![listed("a", "/var/lib/extensions/a.raw")];
    assert_eq!(
        get_existing_sysexts(&files, &listing).unwrap_err(),
        StoreError::MissingDescriptorName
    );
}

#[test]
fn listing_lookup_returns_first_match() {
    let listing = vec![
        listed("a", "/var/lib/extensions/first.raw"),
        listed("a", "/var/lib/extensions/second.raw"),
    ];
    assert_eq!(
        find_listed_path(&listing, "a").as_deref(),
        Some("/var/lib/extensions/first.raw")
    );
    assert_eq!(find_listed_path(&listing, "missing"), None);
}

#[test]
fn snapshot_round_trips_through_the_codec() {
    let snapshot = vec![
        ident(Some("net-tools"), "net-tools", Some("/var/lib/extensions/a.raw")),
        ident(None, "anonymous", None),
    ];
    let text = encode_snapshot(&snapshot);
    let decoded = decode_snapshot(text.as_str()).unwrap();
    assert_eq!(decoded, snapshot);
}

#[test]
fn fields_with_quotes_and_backslashes_round_trip() {
    let mut entry = ident(Some("net-tools"), "net-tools", Some("/var/lib/extensions/a.raw"));
    entry.version_id = Some("a \"quoted\" \\ version".into());
    entry.scope = Some("back\\slash".into());
    let snapshot = vec![entry];
    let text = encode_snapshot(&snapshot);
    assert_eq!(decode_snapshot(text.as_str()).unwrap(), snapshot);

    // The escapes on the wire are ordinary JSON escapes.
    let value: serde_json::Value = serde_json::from_str(&text).unwrap();
    let entries = value.as_array().unwrap();
    assert_eq!(
        entries[0].as_object().unwrap().get("sysext_version_id").unwrap().as_str(),
        Some("a \"quoted\" \\ version")
    );
}

#[test]
fn empty_snapshot_round_trips() {
    let snapshot: Vec<ExtensionIdentity> = Vec::new();
    let text = encode_snapshot(&snapshot);
    assert_eq!(text, "[]");
    let decoded = decode_snapshot(text.as_str()).unwrap();
    assert!(decoded.is_empty());
}

#[test]
fn encoded_snapshot_is_json_under_the_original_keys() {
    let snapshot = vec![ident(Some("net-tools"), "net-tools", Some("/var/lib/extensions/a.raw"))];
    let text = encode_snapshot(&snapshot);
    let value: serde_json::Value = serde_json::from_str(&text).unwrap();
    let entries = value.as_array().unwrap();
    assert_eq!(entries.len(), 1);
    let entry = entries[0].as_object().unwrap();
    assert_eq!(entry.get("id").unwrap().as_str(), Some("azurelinux"));
    assert_eq!(entry.get("sysext_id").unwrap().as_str(), Some("net-tools"));
    assert_eq!(entry.get("sysext_version_id").unwrap().as_str(), Some("1.0"));
    assert!(entry.get("sysext_scope").unwrap().is_null());
    assert!(entry.get("architecture").unwrap().is_null());
    assert_eq!(entry.get("path").unwrap().as_str(), Some("/var/lib/extensions/a.raw"));
    assert_eq!(entry.get("name").unwrap().as_str(), Some("net-tools"));
}

#[test]
fn decoding_ignores_unknown_fields_and_key_order() {
    let mut text = String::from("[{\"name\":\"tools\",\"sysext_id\":\"tools\",\"extra\":\"ignored\",");
    text.push_str("\"id\":null,\"sysext_version_id\":\"1.0\",\"sysext_scope\":null,");
    text.push_str("\"architecture\":null,\"path\":\"/var/lib/extensions/t.raw\"}]");
    let decoded = decode_snapshot(text.as_str()).unwrap();
    assert_eq!(decoded.len(), 1);
    assert_eq!(decoded[0].name, "tools");
    assert_eq!(decoded[0].sysext_id.as_deref(), Some("tools"));
    assert_eq!(decoded[0].os_id, None);
    assert_eq!(decoded[0].storage_path.as_deref(), Some("/var/lib/extensions/t.raw"));
}

#[test]
fn entry_without_a_name_does_not_decode() {
    let text = "[{\"sysext_id\":\"tools\"}]";
    assert!(decode_snapshot(text).is_none());
}

#[test]
fn load_snapshot_rejects_garbage() {
    assert_eq!(load_snapshot("not a snapshot").unwrap_err(), StoreError::MalformedSnapshot);
    assert_eq!(load_snapshot("").unwrap_err(), StoreError::MalformedSnapshot);
    assert_eq!(load_snapshot("[").unwrap_err(), StoreError::MalformedSnapshot);
}

#[test]
fn load_snapshot_reads_a_saved_snapshot() {
    let snapshot = vec![ident(Some("a"), "a", Some("/var/lib/extensions/a.raw"))];
    let text = encode_snapshot(&snapshot);
    assert_eq!(load_snapshot(text.as_str()).unwrap(), snapshot);
}
