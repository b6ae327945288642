//! The identity-extraction lifecycle: bind a loop device to the image,
//! mount it read-only at the scratch mount point, read the release
//! descriptor, and release both kernel resources on every exit path —
//! parse failures included.
//!
//! The lifecycle is a state machine: the driver performs each requested
//! action (a command against the kernel or the filesystem) and reports
//! what happened; the machine decides every next step, so the ordering
//! and the release guarantee are proved here rather than promised by the
//! driver.

use vstd::prelude::*;

use crate::errors::ExtractError;
use crate::identity::{ExtensionIdentity, IdentityModel};
use crate::release::{
    get_extension_release, spec_release_identity, DescriptorFile, DescriptorModel,
};

verus! {

/// The next action the driver must perform.
#[derive(Debug, PartialEq)]
pub enum ExtractAction {
    /// Bind a free loop device to the image and report the device's
    /// path.
    AttachLoop { image: String },
    /// Mount the loop device read-only at the scratch mount point.
    MountDevice { device: String },
    /// Read the release-descriptor directory under the scratch mount
    /// point and report every file in it with its text.
    ReadDescriptorDir,
    /// Unmount the scratch mount point.
    UnmountDevice,
    /// Detach the loop device.
    DetachLoop { device: String },
    /// The extraction is complete; the outcome can be taken.
    Finished,
}

/// Mathematical model of an action.
pub enum ActionModel {
    AttachLoop { image: Seq<char> },
    MountDevice { device: Seq<char> },
    ReadDescriptorDir,
    UnmountDevice,
    DetachLoop { device: Seq<char> },
    Finished,
}

impl DeepView for ExtractAction {
    type V = ActionModel;

    open spec fn deep_view(&self) -> ActionModel {
        match self {
            ExtractAction::AttachLoop { image } => ActionModel::AttachLoop {
                image: image.deep_view(),
            },
            ExtractAction::MountDevice { device } => ActionModel::MountDevice {
                device: device.deep_view(),
            },
            ExtractAction::ReadDescriptorDir => ActionModel::ReadDescriptorDir,
            ExtractAction::UnmountDevice => ActionModel::UnmountDevice,
            ExtractAction::DetachLoop { device } => ActionModel::DetachLoop {
                device: device.deep_view(),
            },
            ExtractAction::Finished => ActionModel::Finished,
        }
    }
}

/// What the driver reports back after performing an action.
pub enum ExtractEvent {
    /// A loop device was bound; its path.
    Attached { device: String },
    /// No loop device could be bound.
    AttachFailed,
    /// The mount succeeded.
    Mounted,
    /// The mount failed.
    MountFailed,
    /// The descriptor directory was read: every file in it, with its
    /// text.
    DescriptorDir { files: Vec<DescriptorFile> },
    /// The descriptor directory could not be read.
    DescriptorReadFailed,
    /// The unmount succeeded.
    Unmounted,
    /// The unmount failed; the machine still goes on to detach.
    UnmountFailed,
    /// The loop device was detached.
    Detached,
    /// The detach failed; nothing more can be done for it.
    DetachFailed,
}

/// Mathematical model of an event.
pub enum EventModel {
    Attached { device: Seq<char> },
    AttachFailed,
    Mounted,
    MountFailed,
    DescriptorDir { files: Seq<DescriptorModel> },
    DescriptorReadFailed,
    Unmounted,
    UnmountFailed,
    Detached,
    DetachFailed,
}

impl DeepView for ExtractEvent {
    type V = EventModel;

    open spec fn deep_view(&self) -> EventModel {
        match self {
            ExtractEvent::Attached { device } => EventModel::Attached {
                device: device.deep_view(),
            },
            ExtractEvent::AttachFailed => EventModel::AttachFailed,
            ExtractEvent::Mounted => EventModel::Mounted,
            ExtractEvent::MountFailed => EventModel::MountFailed,
            ExtractEvent::DescriptorDir { files } => EventModel::DescriptorDir {
                files: files.deep_view(),
            },
            ExtractEvent::DescriptorReadFailed => EventModel::DescriptorReadFailed,
            ExtractEvent::Unmounted => EventModel::Unmounted,
            ExtractEvent::UnmountFailed => EventModel::UnmountFailed,
            ExtractEvent::Detached => EventModel::Detached,
            ExtractEvent::DetachFailed => EventModel::DetachFailed,
        }
    }
}

/// The extraction lifecycle.
pub enum ExtractMachine {
    /// Waiting for a loop device for the image.
    Attaching { image: String },
    /// The loop device is bound; waiting for the mount.
    Mounting { device: String },
    /// Mounted; waiting for the descriptor directory.
    Reading { device: String },
    /// The outcome is decided; waiting for the unmount.
    Unmounting { device: String, outcome: Result<ExtensionIdentity, ExtractError> },
    /// Unmount done (or given up); waiting for the detach.
    Detaching { device: String, outcome: Result<ExtensionIdentity, ExtractError> },
    /// Both resources released (or never acquired); the outcome stands.
    Done { outcome: Result<ExtensionIdentity, ExtractError> },
}

/// Mathematical model of the machine.
pub enum ExtractModel {
    Attaching { image: Seq<char> },
    Mounting { device: Seq<char> },
    Reading { device: Seq<char> },
    Unmounting { device: Seq<char>, outcome: Result<IdentityModel, ExtractError> },
    Detaching { device: Seq<char>, outcome: Result<IdentityModel, ExtractError> },
    Done { outcome: Result<IdentityModel, ExtractError> },
}

/// Model of an extraction outcome.
pub open spec fn outcome_model(o: Result<ExtensionIdentity, ExtractError>) -> Result<
    IdentityModel,
    ExtractError,
> {
    match o {
        Ok(id) => Ok(id.deep_view()),
        Err(e) => Err(e),
    }
}

impl DeepView for ExtractMachine {
    type V = ExtractModel;

    open spec fn deep_view(&self) -> ExtractModel {
        match self {
            ExtractMachine::Attaching { image } => ExtractModel::Attaching {
                image: image.deep_view(),
            },
            ExtractMachine::Mounting { device } => ExtractModel::Mounting {
                device: device.deep_view(),
            },
            ExtractMachine::Reading { device } => ExtractModel::Reading {
                device: device.deep_view(),
            },
            ExtractMachine::Unmounting { device, outcome } => ExtractModel::Unmounting {
                device: device.deep_view(),
                outcome: outcome_model(*outcome),
            },
            ExtractMachine::Detaching { device, outcome } => ExtractModel::Detaching {
                device: device.deep_view(),
                outcome: outcome_model(*outcome),
            },
            ExtractMachine::Done { outcome } => ExtractModel::Done {
                outcome: outcome_model(*outcome),
            },
        }
    }
}

/// What a directory listing decides: exactly one descriptor file is
/// expected; its identity is read out of it, and any other count is a
/// malformed image.
pub open spec fn spec_descriptor_outcome(files: Seq<DescriptorModel>) -> Result<
    IdentityModel,
    ExtractError,
> {
    if files.len() == 1 {
        spec_release_identity(files[0])
    } else {
        Err(ExtractError::MalformedImageError)
    }
}

/// The action a state is waiting on.
pub open spec fn spec_pending_action(m: ExtractModel) -> ActionModel {
    match m {
        ExtractModel::Attaching { image } => ActionModel::AttachLoop { image },
        ExtractModel::Mounting { device } => ActionModel::MountDevice { device },
        ExtractModel::Reading { .. } => ActionModel::ReadDescriptorDir,
        ExtractModel::Unmounting { .. } => ActionModel::UnmountDevice,
        ExtractModel::Detaching { device, .. } => ActionModel::DetachLoop { device },
        ExtractModel::Done { .. } => ActionModel::Finished,
    }
}

/// One step of the extraction lifecycle: the new state and the next
/// action for each state and event. An event that does not answer the
/// pending action leaves the state unchanged and repeats the pending
/// action.
pub open spec fn spec_extract_step(m: ExtractModel, e: EventModel) -> (ExtractModel, ActionModel) {
    match (m, e) {
        (ExtractModel::Attaching { .. }, EventModel::Attached { device }) => (
            ExtractModel::Mounting { device },
            ActionModel::MountDevice { device },
        ),
        (ExtractModel::Attaching { .. }, EventModel::AttachFailed) => (
            ExtractModel::Done { outcome: Err(ExtractError::DeviceSetupError) },
            ActionModel::Finished,
        ),
        (ExtractModel::Mounting { device }, EventModel::Mounted) => (
            ExtractModel::Reading { device },
            ActionModel::ReadDescriptorDir,
        ),
        (ExtractModel::Mounting { device }, EventModel::MountFailed) => (
            ExtractModel::Detaching { device, outcome: Err(ExtractError::MountError) },
            ActionModel::DetachLoop { device },
        ),
        (ExtractModel::Reading { device }, EventModel::DescriptorDir { files }) => (
            ExtractModel::Unmounting { device, outcome: spec_descriptor_outcome(files) },
            ActionModel::UnmountDevice,
        ),
        (ExtractModel::Reading { device }, EventModel::DescriptorReadFailed) => (
            ExtractModel::Unmounting { device, outcome: Err(ExtractError::MalformedImageError) },
            ActionModel::UnmountDevice,
        ),
        (ExtractModel::Unmounting { device, outcome }, EventModel::Unmounted) => (
            ExtractModel::Detaching { device, outcome },
            ActionModel::DetachLoop { device },
        ),
        (ExtractModel::Unmounting { device, outcome }, EventModel::UnmountFailed) => (
            ExtractModel::Detaching { device, outcome },
            ActionModel::DetachLoop { device },
        ),
        (ExtractModel::Detaching { outcome, .. }, EventModel::Detached) => (
            ExtractModel::Done { outcome },
            ActionModel::Finished,
        ),
        (ExtractModel::Detaching { outcome, .. }, EventModel::DetachFailed) => (
            ExtractModel::Done { outcome },
            ActionModel::Finished,
        ),
        (state, _) => (state, spec_pending_action(state)),
    }
}

/// What one directory listing yields: the identity of the single
/// descriptor file, or a malformed-image failure when the directory does
/// not hold exactly one file.
pub fn descriptor_outcome(files: &Vec<DescriptorFile>) -> (r: Result<
    ExtensionIdentity,
    ExtractError,
>)
    ensures
        outcome_model(r) == spec_descriptor_outcome(files.deep_view()),
{
    if files.len() == 1 {
        let f = &files[0];
        get_extension_release(f.file_name.as_str(), f.content.as_str())
    } else {
        Err(ExtractError::MalformedImageError)
    }
}

impl ExtractMachine {
    /// Starts an extraction of the image at the given path; the first
    /// action binds a loop device to it.
    pub fn new(image: String) -> (r: (ExtractMachine, ExtractAction))
        ensures
            r.0.deep_view() == (ExtractModel::Attaching { image: image@ }),
            r.1.deep_view() == (ActionModel::AttachLoop { image: image@ }),
    {
        let action_image = image.clone();
        (
            ExtractMachine::Attaching { image },
            ExtractAction::AttachLoop { image: action_image },
        )
    }

    /// The action this state is waiting on.
    pub fn pending_action(&self) -> (r: ExtractAction)
        ensures
            r.deep_view() == spec_pending_action(self.deep_view()),
    {
        match self {
            ExtractMachine::Attaching { image } => ExtractAction::AttachLoop {
                image: image.clone(),
            },
            ExtractMachine::Mounting { device } => ExtractAction::MountDevice {
                device: device.clone(),
            },
            ExtractMachine::Reading { .. } => ExtractAction::ReadDescriptorDir,
            ExtractMachine::Unmounting { .. } => ExtractAction::UnmountDevice,
            ExtractMachine::Detaching { device, .. } => ExtractAction::DetachLoop {
                device: device.clone(),
            },
            ExtractMachine::Done { .. } => ExtractAction::Finished,
        }
    }

    /// Advances the lifecycle by one driver event and returns the next
    /// action to perform.
    pub fn step(self, event: ExtractEvent) -> (r: (ExtractMachine, ExtractAction))
        ensures
            (r.0.deep_view(), r.1.deep_view()) == spec_extract_step(
                self.deep_view(),
                event.deep_view(),
            ),
    {
        match (self, event) {
            (ExtractMachine::Attaching { .. }, ExtractEvent::Attached { device }) => {
                let action_device = device.clone();
                (
                    ExtractMachine::Mounting { device },
                    ExtractAction::MountDevice { device: action_device },
                )
            },
            (ExtractMachine::Attaching { .. }, ExtractEvent::AttachFailed) => (
                ExtractMachine::Done { outcome: Err(ExtractError::DeviceSetupError) },
                ExtractAction::Finished,
            ),
            (ExtractMachine::Mounting { device }, ExtractEvent::Mounted) => (
                ExtractMachine::Reading { device },
                ExtractAction::ReadDescriptorDir,
            ),
            (ExtractMachine::Mounting { device }, ExtractEvent::MountFailed) => {
                let action_device = device.clone();
                (
                    ExtractMachine::Detaching {
                        device,
                        outcome: Err(ExtractError::MountError),
                    },
                    ExtractAction::DetachLoop { device: action_device },
                )
            },
            (ExtractMachine::Reading { device }, ExtractEvent::DescriptorDir { files }) => {
                let outcome = descriptor_outcome(&files);
                (ExtractMachine::Unmounting { device, outcome }, ExtractAction::UnmountDevice)
            },
            (ExtractMachine::Reading { device }, ExtractEvent::DescriptorReadFailed) => (
                ExtractMachine::Unmounting {
                    device,
                    outcome: Err(ExtractError::MalformedImageError),
                },
                ExtractAction::UnmountDevice,
            ),
            (ExtractMachine::Unmounting { device, outcome }, ExtractEvent::Unmounted) => {
                let action_device = device.clone();
                (
                    ExtractMachine::Detaching { device, outcome },
                    ExtractAction::DetachLoop { device: action_device },
                )
            },
            (ExtractMachine::Unmounting { device, outcome }, ExtractEvent::UnmountFailed) => {
                let action_device = device.clone();
                (
                    ExtractMachine::Detaching { device, outcome },
                    ExtractAction::DetachLoop { device: action_device },
                )
            },
            (ExtractMachine::Detaching { outcome, .. }, ExtractEvent::Detached) => (
                ExtractMachine::Done { outcome },
                ExtractAction::Finished,
            ),
            (ExtractMachine::Detaching { outcome, .. }, ExtractEvent::DetachFailed) => (
                ExtractMachine::Done { outcome },
                ExtractAction::Finished,
            ),
            (state, _) => {
                let action = state.pending_action();
                (state, action)
            },
        }
    }

    /// The extraction's outcome, once the machine is done.
    pub fn into_outcome(self) -> (r: Option<Result<ExtensionIdentity, ExtractError>>)
        ensures
            (r is Some) == (self.deep_view() is Done),
            r matches Some(o) ==> self.deep_view() == (ExtractModel::Done {
                outcome: outcome_model(o),
            }),
    {
        match self {
            ExtractMachine::Done { outcome } => Some(outcome),
            _ => None,
        }
    }
}

/// The scratch mount point is held from the moment a mount is confirmed
/// until an unmount answer (success or giving up) comes back.
pub open spec fn holds_mount(m: ExtractModel) -> bool {
    m is Reading || m is Unmounting
}

/// The loop device is held from the moment an attach is confirmed until
/// a detach answer comes back.
pub open spec fn holds_loop(m: ExtractModel) -> bool {
    m is Mounting || m is Reading || m is Unmounting || m is Detaching
}

/// Law: identity extraction always releases its loop device and its
/// scratch mount point, a failed descriptor parse included. Completion
/// is reachable only through the detach step or before anything was
/// acquired; a state never reports done while either resource is held;
/// the unmount and detach requests are emitted exactly when their states
/// are entered; and every answer to the descriptor read — a malformed
/// directory and an unreadable one included — walks the machine into the
/// unmount step rather than finishing early.
pub proof fn lemma_extraction_always_releases(m: ExtractModel, e: EventModel)
    ensures
        spec_extract_step(m, e).0 is Done ==> !holds_mount(spec_extract_step(m, e).0) && !holds_loop(
            spec_extract_step(m, e).0,
        ),
        spec_extract_step(m, e).0 is Done ==> (m is Done || m is Detaching || (m is Attaching
            && e is AttachFailed)),
        (!(m is Unmounting) && spec_extract_step(m, e).0 is Unmounting) ==> spec_extract_step(
            m,
            e,
        ).1 is UnmountDevice,
        (!(m is Detaching) && spec_extract_step(m, e).0 is Detaching) ==> spec_extract_step(
            m,
            e,
        ).1 is DetachLoop,
        (m is Reading && (e is DescriptorDir || e is DescriptorReadFailed)) ==> (
        spec_extract_step(m, e).0 is Unmounting && spec_extract_step(m, e).1 is UnmountDevice),
        holds_mount(m) ==> holds_loop(m),
{
}

} // verus!
