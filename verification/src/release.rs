//! Reading an extension identity out of a release descriptor: a flat
//! KEY=VALUE text whose file name, after the last `extension-release.`
//! marker, gives the logical extension name.

use vstd::prelude::*;
use vstd::string::{StrSliceExecFns, StringExecFns};

use crate::errors::ExtractError;
use crate::identity::{ExtensionIdentity, IdentityModel};
use crate::scan::{
    contains_seq, lemma_last_match_before_none, lemma_last_match_before_some, matches_at,
    spec_rfind, str_rfind,
};

verus! {

/// One release-descriptor file: its name and its text.
pub struct DescriptorFile {
    pub file_name: String,
    pub content: String,
}

/// Mathematical model of a descriptor file.
pub struct DescriptorModel {
    pub file_name: Seq<char>,
    pub content: Seq<char>,
}

impl DeepView for DescriptorFile {
    type V = DescriptorModel;

    open spec fn deep_view(&self) -> DescriptorModel {
        DescriptorModel { file_name: self.file_name.deep_view(), content: self.content.deep_view() }
    }
}

/// What a key lookup in a release descriptor returns: the value, when
/// the key is present, is a function of the descriptor text and the key
/// alone.
pub uninterp spec fn release_lookup(content: Seq<char>, key: Seq<char>) -> Option<Seq<char>>;

/// Relies on etc_os_release::OsRelease: `from_str` is infallible and
/// collects the KEY=VALUE lines of the text into a map (skipping
/// malformed lines), and `get_value` looks a key up in that map, so the
/// result depends on the descriptor text and the key alone.
#[verifier::external_body]
fn read_release_value(content: &str, key: &str) -> (r: Option<String>)
    ensures
        (r is Some) == (release_lookup(content@, key@) is Some),
        r matches Some(v) ==> Some(v@) == release_lookup(content@, key@),
{
    match <etc_os_release::OsRelease as core::str::FromStr>::from_str(content) {
        Ok(parsed) => parsed.get_value(key).map(|v| v.to_owned()),
        Err(_) => None,
    }
}

/// The marker that precedes the logical extension name in a
/// release-descriptor file name.
pub open spec fn release_marker() -> Seq<char> {
    "extension-release."@
}

/// The logical extension name a descriptor file name carries: the text
/// after the last `extension-release.` marker, if the marker occurs.
pub open spec fn spec_name_of(file_name: Seq<char>) -> Option<Seq<char>> {
    match spec_rfind(file_name, release_marker()) {
        Some(i) => Some(file_name.skip(i + release_marker().len() as int)),
        None => None,
    }
}

/// A file name carries a logical extension name exactly when the
/// marker occurs in it: so a naming failure means the marker is absent,
/// and nothing else.
pub proof fn lemma_name_exists_iff_marker(file_name: Seq<char>)
    ensures
        spec_name_of(file_name) is Some <==> contains_seq(file_name, release_marker()),
{
    let m = release_marker();
    let j = file_name.len() - m.len() + 1;
    match spec_rfind(file_name, m) {
        Some(i) => {
            lemma_last_match_before_some(file_name, m, j, i);
        },
        None => {
            lemma_last_match_before_none(file_name, m, j);
            assert forall|k: int| !matches_at(file_name, m, k) by {
                if matches_at(file_name, m, k) {
                    assert(k + m.len() <= file_name.len());
                }
            }
        },
    }
}

/// Derives the logical extension name from a release-descriptor file
/// name.
pub fn name_from_descriptor(file_name: &str) -> (r: Option<String>)
    ensures
        match r {
            Some(n) => spec_name_of(file_name@) == Some(n@),
            None => spec_name_of(file_name@) is None,
        },
{
    let marker = "extension-release.";
    match str_rfind(file_name, marker) {
        Some(i) => {
            let hlen = file_name.unicode_len();
            let mlen = marker.unicode_len();
            proof {
                lemma_last_match_before_some(
                    file_name@,
                    marker@,
                    file_name@.len() - marker@.len() + 1,
                    i as int,
                );
                assert(file_name@.subrange(i + marker@.len(), hlen as int) =~= file_name@.skip(
                    i + marker@.len(),
                ));
            }
            let suffix = file_name.substring_char(i + mlen, hlen);
            Some(String::from_str(suffix))
        },
        None => None,
    }
}

/// The identity a release descriptor describes: the advisory fields from
/// the KEY=VALUE text (an absent key is no error) and the logical name
/// from the file name, with no storage path; or a naming failure when
/// the file name carries no marker.
pub open spec fn spec_release_identity(file: DescriptorModel) -> Result<
    IdentityModel,
    ExtractError,
> {
    match spec_name_of(file.file_name) {
        Some(n) => Ok(
            IdentityModel {
                os_id: release_lookup(file.content, "ID"@),
                sysext_id: release_lookup(file.content, "SYSEXT_ID"@),
                version_id: release_lookup(file.content, "SYSEXT_VERSION_ID"@),
                scope: release_lookup(file.content, "SYSEXT_SCOPE"@),
                architecture: release_lookup(file.content, "ARCHITECTURE"@),
                name: n,
                storage_path: None,
            },
        ),
        None => Err(ExtractError::NamingError),
    }
}

/// Reads the identity out of a release-descriptor file: every metadata
/// field comes from the descriptor text by key name, the name from the
/// file name, and only a file name without the marker is an error.
pub fn get_extension_release(file_name: &str, content: &str) -> (r: Result<
    ExtensionIdentity,
    ExtractError,
>)
    ensures
        match r {
            Ok(id) => spec_release_identity(
                DescriptorModel { file_name: file_name@, content: content@ },
            ) == Ok::<IdentityModel, ExtractError>(id.deep_view()),
            Err(e) => spec_release_identity(
                DescriptorModel { file_name: file_name@, content: content@ },
            ) == Err::<IdentityModel, ExtractError>(e),
        },
{
    let name = match name_from_descriptor(file_name) {
        Some(n) => n,
        None => {
            return Err(ExtractError::NamingError);
        },
    };
    Ok(
        ExtensionIdentity {
            os_id: read_release_value(content, "ID"),
            sysext_id: read_release_value(content, "SYSEXT_ID"),
            version_id: read_release_value(content, "SYSEXT_VERSION_ID"),
            scope: read_release_value(content, "SYSEXT_SCOPE"),
            architecture: read_release_value(content, "ARCHITECTURE"),
            name,
            storage_path: None,
        },
    )
}

} // verus!
