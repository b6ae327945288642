//! Error taxonomy of the reconciliation engine.

use vstd::prelude::*;

verus! {

/// Failure of a single identity extraction.
#[derive(Clone, Copy, Debug, PartialEq, Eq, Structural)]
pub enum ExtractError {
    /// No loop device could be bound to the image.
    DeviceSetupError,
    /// The loop device could not be mounted at the scratch mount point.
    MountError,
    /// The mounted image does not hold exactly one readable release
    /// descriptor.
    MalformedImageError,
    /// The release-descriptor file name carries no marker to derive the
    /// logical extension name from.
    NamingError,
}

/// Failure of the observed-state store.
#[derive(Clone, Copy, Debug, PartialEq, Eq, Structural)]
pub enum StoreError {
    /// The persisted snapshot could not be read.
    ReadError,
    /// The persisted snapshot could not be written.
    WriteError,
    /// The persisted snapshot does not decode as a snapshot document.
    MalformedSnapshot,
    /// A live release-descriptor file name carries no marker to derive
    /// the logical extension name from.
    MissingDescriptorName,
    /// A live extension has no entry in the overlay tool's listing, so
    /// its storage path cannot be resolved.
    UnlistedExtension,
}

/// Failure of applying a reconciliation plan.
#[derive(Clone, Copy, Debug, PartialEq, Eq, Structural)]
pub enum ApplyError {
    /// Preparing the managed directory or copying a staged image into
    /// it, or removing a retired image, failed.
    StagingError,
    /// An entry staged for unmerge carries no storage path: a violation
    /// of the snapshot invariant, never expected in normal operation.
    InternalError,
    /// The overlay tool's refresh operation failed.
    RefreshError,
    /// The new observed-state snapshot could not be recomputed or
    /// persisted after the overlay transition.
    SnapshotError,
}

impl ExtractError {
    /// Short description of the failure.
    pub fn message(&self) -> (r: &'static str)
    {
        match self {
            ExtractError::DeviceSetupError => "failed to set up a loop device for the image",
            ExtractError::MountError => "failed to mount the loop device at the scratch mount point",
            ExtractError::MalformedImageError => "the image does not hold exactly one readable release descriptor",
            ExtractError::NamingError => "the release-descriptor file name holds no extension-release marker",
        }
    }
}

impl StoreError {
    /// Short description of the failure.
    pub fn message(&self) -> (r: &'static str)
    {
        match self {
            StoreError::ReadError => "failed to read the observed-state snapshot",
            StoreError::WriteError => "failed to write the observed-state snapshot",
            StoreError::MalformedSnapshot => "the observed-state snapshot does not decode as a snapshot document",
            StoreError::MissingDescriptorName => "a live release-descriptor file name holds no extension-release marker",
            StoreError::UnlistedExtension => "a live extension is missing from the overlay tool's listing",
        }
    }
}

impl ApplyError {
    /// Short description of the failure.
    pub fn message(&self) -> (r: &'static str)
    {
        match self {
            ApplyError::StagingError => "failed to stage or remove an extension image",
            ApplyError::InternalError => "an entry staged for unmerge carries no storage path",
            ApplyError::RefreshError => "the overlay refresh operation failed",
            ApplyError::SnapshotError => "failed to recompute or persist the observed-state snapshot",
        }
    }
}

} // verus!
