//! Installation-media handling: classify how the system was booted from
//! the kernel command line, and decide whether the installation media
//! can be ejected.

use vstd::prelude::*;

use crate::scan::{contains_seq, str_contains};

verus! {

/// How the running system was booted.
#[derive(Clone, Copy, Debug, PartialEq, Eq, Structural)]
pub enum BootType {
    /// The system is running from a RAM disk.
    RamDisk,
    /// The system is running directly from CD-ROM/DVD.
    LiveCdrom,
    /// The system is running from persistent storage (a normal
    /// installation).
    PersistentStorage,
}

/// The boot type a kernel command line describes: a RAM-disk root (or
/// no root at all) is a RAM-disk boot, a live root is a CD-ROM boot,
/// and anything else is persistent storage.
pub open spec fn spec_boot_type(cmdline: Seq<char>) -> BootType {
    if contains_seq(cmdline, "root=/dev/ram0"@) || !contains_seq(cmdline, "root="@) {
        BootType::RamDisk
    } else if contains_seq(cmdline, "root=live:LABEL=CDROM"@) || contains_seq(
        cmdline,
        "root=live:"@,
    ) {
        BootType::LiveCdrom
    } else {
        BootType::PersistentStorage
    }
}

/// Classifies the boot type from the content of the kernel command
/// line.
pub fn detect_boot_type(cmdline: &str) -> (r: BootType)
    ensures
        r == spec_boot_type(cmdline@),
{
    if str_contains(cmdline, "root=/dev/ram0") || !str_contains(cmdline, "root=") {
        BootType::RamDisk
    } else if str_contains(cmdline, "root=live:LABEL=CDROM") || str_contains(
        cmdline,
        "root=live:",
    ) {
        BootType::LiveCdrom
    } else {
        BootType::PersistentStorage
    }
}

/// What to do about installation media for a detection result.
#[derive(Clone, Copy, Debug, PartialEq, Eq, Structural)]
pub enum EjectDecision {
    /// Eject the installation media.
    Eject,
    /// Running from live CD-ROM: the media cannot be ejected while the
    /// system is active.
    SkipLiveMedia,
    /// Running from persistent storage: there is no installation media
    /// to eject.
    SkipPersistentStorage,
    /// The boot type could not be determined: skip automatic ejection.
    SkipUnknownBootType,
}

/// The ejection decision for each detection result: only a RAM-disk
/// boot ejects.
pub open spec fn spec_eject_decision(boot: Option<BootType>) -> EjectDecision {
    match boot {
        Some(BootType::RamDisk) => EjectDecision::Eject,
        Some(BootType::LiveCdrom) => EjectDecision::SkipLiveMedia,
        Some(BootType::PersistentStorage) => EjectDecision::SkipPersistentStorage,
        None => EjectDecision::SkipUnknownBootType,
    }
}

/// Decides whether to eject the installation media, from the detected
/// boot type (`None` when detection failed).
pub fn eject_installation_media_smart(boot: Option<BootType>) -> (r: EjectDecision)
    ensures
        r == spec_eject_decision(boot),
{
    match boot {
        Some(BootType::RamDisk) => EjectDecision::Eject,
        Some(BootType::LiveCdrom) => EjectDecision::SkipLiveMedia,
        Some(BootType::PersistentStorage) => EjectDecision::SkipPersistentStorage,
        None => EjectDecision::SkipUnknownBootType,
    }
}

} // verus!
