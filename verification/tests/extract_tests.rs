use trident_sysext::errors::ExtractError;
use trident_sysext::extract::{ExtractAction, ExtractEvent, ExtractMachine};
use trident_sysext::release::DescriptorFile;

fn descriptor(file_name: &str, content: &str) -> DescriptorFile {
    DescriptorFile { file_name: file_name.into(), content: content.into() }
}

#[test]
fn extraction_walks_attach_mount_read_unmount_detach() {
    let (m, a) = ExtractMachine::new("/downloads/tools.raw".into());
    assert_eq!(a, ExtractAction::AttachLoop { image: "/downloads/tools.raw".into() });

    let (m, a) = m.step(ExtractEvent::Attached { device: "/dev/loop3".into() });
    assert_eq!(a, ExtractAction::MountDevice { device: "/dev/loop3".into() });

    let (m, a) = m.step(ExtractEvent::Mounted);
    assert_eq!(a, ExtractAction::ReadDescriptorDir);

    let files = vec![descriptor("extension-release.tools", "SYSEXT_ID=tools\nSYSEXT_VERSION_ID=1.0\n")];
    let (m, a) = m.step(ExtractEvent::DescriptorDir { files });
    assert_eq!(a, ExtractAction::UnmountDevice);

    let (m, a) = m.step(ExtractEvent::Unmounted);
    assert_eq!(a, ExtractAction::DetachLoop { device: "/dev/loop3".into() });

    let (m, a) = m.step(ExtractEvent::Detached);
    assert_eq!(a, ExtractAction::Finished);

    let id = m.into_outcome().unwrap().unwrap();
    assert_eq!(id.sysext_id.as_deref(), Some("tools"));
    assert_eq!(id.version_id.as_deref(), Some("1.0"));
    assert_eq!(id.name, "tools");
    assert_eq!(id.storage_path, None);
}

#[test]
fn malformed_descriptor_still_releases_both_resources() {
    let (m, _) = ExtractMachine::new("/downloads/image.raw".into());
    let (m, _) = m.step(ExtractEvent::Attached { device: "/dev/loop0".into() });
    let (m, _) = m.step(ExtractEvent::Mounted);

    // An empty descriptor directory is a malformed image; the machine
    // must still ask for the unmount and the detach before finishing.
    let (m, a) = m.step(ExtractEvent::DescriptorDir { files: Vec::new() });
    assert_eq!(a, ExtractAction::UnmountDevice);

    let (m, a) = m.step(ExtractEvent::Unmounted);
    assert_eq!(a, ExtractAction::DetachLoop { device: "/dev/loop0".into() });

    let (m, a) = m.step(ExtractEvent::Detached);
    assert_eq!(a, ExtractAction::Finished);

    let err = m.into_outcome().unwrap().unwrap_err();
    assert_eq!(err, ExtractError::MalformedImageError);
}

#[test]
fn ambiguous_descriptor_directory_is_malformed() {
    let (m, _) = ExtractMachine::new("/downloads/image.raw".into());
    let (m, _) = m.step(ExtractEvent::Attached { device: "/dev/loop0".into() });
    let (m, _) = m.step(ExtractEvent::Mounted);
    let files = vec![
        descriptor("extension-release.a", "SYSEXT_ID=a\n"),
        descriptor("extension-release.b", "SYSEXT_ID=b\n"),
    ];
    let (m, _) = m.step(ExtractEvent::DescriptorDir { files });
    let (m, _) = m.step(ExtractEvent::Unmounted);
    let (m, _) = m.step(ExtractEvent::Detached);
    let err = m.into_outcome().unwrap().unwrap_err();
    assert_eq!(err, ExtractError::MalformedImageError);
}

#[test]
fn unreadable_descriptor_directory_still_releases() {
    let (m, _) = ExtractMachine::new("/downloads/image.raw".into());
    let (m, _) = m.step(ExtractEvent::Attached { device: "/dev/loop1".into() });
    let (m, _) = m.step(ExtractEvent::Mounted);
    let (m, a) = m.step(ExtractEvent::DescriptorReadFailed);
    assert_eq!(a, ExtractAction::UnmountDevice);
    let (m, a) = m.step(ExtractEvent::Unmounted);
    assert_eq!(a, ExtractAction::DetachLoop { device: "/dev/loop1".into() });
    let (m, _) = m.step(ExtractEvent::Detached);
    let err = m.into_outcome().unwrap().unwrap_err();
    assert_eq!(err, ExtractError::MalformedImageError);
}

#[test]
fn attach_failure_finishes_without_resources() {
    let (m, _) = ExtractMachine::new("/downloads/image.raw".into());
    let (m, a) = m.step(ExtractEvent::AttachFailed);
    assert_eq!(a, ExtractAction::Finished);
    let err = m.into_outcome().unwrap().unwrap_err();
    assert_eq!(err, ExtractError::DeviceSetupError);
}

#[test]
fn mount_failure_still_detaches_the_loop_device() {
    let (m, _) = ExtractMachine::new("/downloads/image.raw".into());
    let (m, _) = m.step(ExtractEvent::Attached { device: "/dev/loop2".into() });
    let (m, a) = m.step(ExtractEvent::MountFailed);
    assert_eq!(a, ExtractAction::DetachLoop { device: "/dev/loop2".into() });
    let (m, a) = m.step(ExtractEvent::Detached);
    assert_eq!(a, ExtractAction::Finished);
    let err = m.into_outcome().unwrap().unwrap_err();
    assert_eq!(err, ExtractError::MountError);
}

#[test]
fn naming_failure_is_reported_after_release() {
    let (m, _) = ExtractMachine::new("/downloads/image.raw".into());
    let (m, _) = m.step(ExtractEvent::Attached { device: "/dev/loop0".into() });
    let (m, _) = m.step(ExtractEvent::Mounted);
    let files = vec![descriptor("os-release", "ID=azurelinux\n")];
    let (m, a) = m.step(ExtractEvent::DescriptorDir { files });
    assert_eq!(a, ExtractAction::UnmountDevice);
    let (m, _) = m.step(ExtractEvent::Unmounted);
    let (m, _) = m.step(ExtractEvent::Detached);
    let err = m.into_outcome().unwrap().unwrap_err();
    assert_eq!(err, ExtractError::NamingError);
}

#[test]
fn unexpected_event_repeats_the_pending_action() {
    let (m, _) = ExtractMachine::new("/downloads/image.raw".into());
    let (m, a) = m.step(ExtractEvent::Mounted);
    assert_eq!(a, ExtractAction::AttachLoop { image: "/downloads/image.raw".into() });
    assert!(m.into_outcome().is_none());
}
