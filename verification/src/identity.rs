//! The identity of a system extension image and its mathematical model.

use vstd::prelude::*;

verus! {

/// Identity of a system extension image, derived from the release
/// descriptor embedded in the image and never hand-constructed by
/// callers. Two images with the same `sysext_id` are the same logical
/// extension, possibly at different versions.
#[derive(Debug)]
pub struct ExtensionIdentity {
    /// Vendor/OS identifier (the `ID` key of the release descriptor).
    pub os_id: Option<String>,
    /// The identity key (`SYSEXT_ID`); matching is always done on this
    /// field, never on the name.
    pub sysext_id: Option<String>,
    /// The version (`SYSEXT_VERSION_ID`), compared for equality to
    /// decide whether an update is needed.
    pub version_id: Option<String>,
    /// Descriptive scope (`SYSEXT_SCOPE`); not used for identity.
    pub scope: Option<String>,
    /// Descriptive architecture (`ARCHITECTURE`); not used for identity.
    pub architecture: Option<String>,
    /// The logical name under which the extension is registered on the
    /// host, derived from the release-descriptor file name.
    pub name: String,
    /// Absolute path of the currently merged image file; present only
    /// for observed (already merged) identities.
    pub storage_path: Option<String>,
}

/// Mathematical model of an `ExtensionIdentity`: each text field as a
/// sequence of characters.
pub struct IdentityModel {
    pub os_id: Option<Seq<char>>,
    pub sysext_id: Option<Seq<char>>,
    pub version_id: Option<Seq<char>>,
    pub scope: Option<Seq<char>>,
    pub architecture: Option<Seq<char>>,
    pub name: Seq<char>,
    pub storage_path: Option<Seq<char>>,
}

impl DeepView for ExtensionIdentity {
    type V = IdentityModel;

    open spec fn deep_view(&self) -> IdentityModel {
        IdentityModel {
            os_id: self.os_id.deep_view(),
            sysext_id: self.sysext_id.deep_view(),
            version_id: self.version_id.deep_view(),
            scope: self.scope.deep_view(),
            architecture: self.architecture.deep_view(),
            name: self.name.deep_view(),
            storage_path: self.storage_path.deep_view(),
        }
    }
}

/// Two identities are the same logical extension exactly when both carry
/// an identity key and the keys are equal: identities without a key are
/// never considered equal to anything, so that missing metadata cannot
/// cause mass-matching.
pub open spec fn key_matches(a: IdentityModel, b: IdentityModel) -> bool {
    a.sysext_id is Some && b.sysext_id is Some && a.sysext_id == b.sysext_id
}

/// Equality of two optional strings by content.
pub fn opt_string_eq(a: &Option<String>, b: &Option<String>) -> (r: bool)
    ensures
        r == (a.deep_view() == b.deep_view()),
{
    match (a, b) {
        (Some(x), Some(y)) => *x == *y,
        (None, None) => true,
        _ => false,
    }
}

/// Clone of an optional string.
pub fn clone_opt_string(a: &Option<String>) -> (r: Option<String>)
    ensures
        r == *a,
{
    match a {
        Some(s) => Some(s.clone()),
        None => None,
    }
}

/// Whether two identities carry the same (present) identity key.
pub fn same_sysext_id(a: &ExtensionIdentity, b: &ExtensionIdentity) -> (r: bool)
    ensures
        r == key_matches(a.deep_view(), b.deep_view()),
{
    match (&a.sysext_id, &b.sysext_id) {
        (Some(x), Some(y)) => *x == *y,
        _ => false,
    }
}

/// Equality of two identities, field by field.
pub fn identity_eq(a: &ExtensionIdentity, b: &ExtensionIdentity) -> (r: bool)
    ensures
        r == (a.deep_view() == b.deep_view()),
{
    let r = opt_string_eq(&a.os_id, &b.os_id) && opt_string_eq(&a.sysext_id, &b.sysext_id)
        && opt_string_eq(&a.version_id, &b.version_id) && opt_string_eq(&a.scope, &b.scope)
        && opt_string_eq(&a.architecture, &b.architecture) && (a.name == b.name) && opt_string_eq(
        &a.storage_path,
        &b.storage_path,
    );
    r
}

impl Clone for ExtensionIdentity {
    /// Clone that keeps every field equal to the original's.
    fn clone(&self) -> (res: Self)
        ensures
            res == *self,
    {
        ExtensionIdentity {
            os_id: clone_opt_string(&self.os_id),
            sysext_id: clone_opt_string(&self.sysext_id),
            version_id: clone_opt_string(&self.version_id),
            scope: clone_opt_string(&self.scope),
            architecture: clone_opt_string(&self.architecture),
            name: self.name.clone(),
            storage_path: clone_opt_string(&self.storage_path),
        }
    }
}

impl PartialEq for ExtensionIdentity {
    /// Equality by content of every field.
    fn eq(&self, other: &Self) -> (r: bool) {
        identity_eq(self, other)
    }
}

impl vstd::std_specs::cmp::PartialEqSpecImpl for ExtensionIdentity {
    open spec fn obeys_eq_spec() -> bool {
        true
    }

    open spec fn eq_spec(&self, other: &Self) -> bool {
        self.deep_view() == other.deep_view()
    }
}

} // verus!
