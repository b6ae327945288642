use trident_sysext::media::{detect_boot_type, eject_installation_media_smart, BootType,
    EjectDecision};

#[test]
fn ram_disk_root_is_a_ram_disk_boot() {
    let boot = detect_boot_type("BOOT_IMAGE=/vmlinuz root=/dev/ram0 quiet");
    assert_eq!(boot, BootType::RamDisk);
}

#[test]
fn missing_root_is_a_ram_disk_boot() {
    let boot = detect_boot_type("BOOT_IMAGE=/vmlinuz quiet splash");
    assert_eq!(boot, BootType::RamDisk);
}

#[test]
fn live_cdrom_label_is_a_live_boot() {
    let boot = detect_boot_type("root=live:LABEL=CDROM rd.live.image");
    assert_eq!(boot, BootType::LiveCdrom);
}

#[test]
fn any_live_root_is_a_live_boot() {
    let boot = detect_boot_type("root=live:CDLABEL=Install rd.live.image");
    assert_eq!(boot, BootType::LiveCdrom);
}

#[test]
fn ordinary_root_is_persistent_storage() {
    let boot = detect_boot_type("BOOT_IMAGE=/vmlinuz root=UUID=0a1b ro quiet");
    assert_eq!(boot, BootType::PersistentStorage);
}

#[test]
fn only_a_ram_disk_boot_ejects() {
    assert_eq!(eject_installation_media_smart(Some(BootType::RamDisk)), EjectDecision::Eject);
    assert_eq!(
        eject_installation_media_smart(Some(BootType::LiveCdrom)),
        EjectDecision::SkipLiveMedia
    );
    assert_eq!(
        eject_installation_media_smart(Some(BootType::PersistentStorage)),
        EjectDecision::SkipPersistentStorage
    );
    assert_eq!(eject_installation_media_smart(None), EjectDecision::SkipUnknownBootType);
}
