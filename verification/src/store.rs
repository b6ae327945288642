//! The observed-state store: the engine's durable memory of which
//! extensions are merged. The snapshot is bootstrapped once from the
//! live system (the release-descriptor directory and the overlay tool's
//! listing), then loaded from and saved to its persisted document.

use vstd::prelude::*;

use crate::codec::{decode_snapshot, sp_decode};
use crate::errors::StoreError;
use crate::identity::{ExtensionIdentity, IdentityModel};
use crate::release::{get_extension_release, spec_name_of, spec_release_identity, DescriptorFile,
    DescriptorModel};

verus! {

/// One entry of the overlay tool's listing of currently merged
/// extensions.
pub struct ListedExtension {
    /// The logical extension name.
    pub name: String,
    /// The entry kind the tool reports.
    pub ext_type: String,
    /// The absolute path of the merged image.
    pub path: String,
    /// The tool's timestamp for the entry.
    pub time: u64,
}

/// Mathematical model of a listing entry.
pub struct ListedModel {
    pub name: Seq<char>,
    pub ext_type: Seq<char>,
    pub path: Seq<char>,
    pub time: u64,
}

impl DeepView for ListedExtension {
    type V = ListedModel;

    open spec fn deep_view(&self) -> ListedModel {
        ListedModel {
            name: self.name.deep_view(),
            ext_type: self.ext_type.deep_view(),
            path: self.path.deep_view(),
            time: self.time,
        }
    }
}

/// The storage path the listing gives an extension name: the path of
/// the first entry with that name, if any.
pub open spec fn spec_listed_path(listing: Seq<ListedModel>, name: Seq<char>) -> Option<Seq<char>>
    decreases listing.len(),
{
    if listing.len() == 0 {
        None
    } else if listing.first().name == name {
        Some(listing.first().path)
    } else {
        spec_listed_path(listing.drop_first(), name)
    }
}

/// Looks an extension name up in the overlay tool's listing.
pub fn find_listed_path(listing: &Vec<ListedExtension>, name: &str) -> (r: Option<String>)
    ensures
        match r {
            Some(p) => spec_listed_path(listing.deep_view(), name@) == Some(p@),
            None => spec_listed_path(listing.deep_view(), name@) is None,
        },
{
    let ghost lm = listing.deep_view();
    let n = listing.len();
    let mut i: usize = 0;
    proof {
        assert(lm.skip(0) =~= lm);
    }
    while i < n
        invariant
            n == listing@.len(),
            i <= n,
            lm == listing.deep_view(),
            spec_listed_path(lm, name@) == spec_listed_path(lm.skip(i as int), name@),
        decreases n - i,
    {
        proof {
            assert(lm.skip(i as int).first() == lm[i as int]);
            assert(lm.skip(i as int).drop_first() =~= lm.skip(i as int + 1));
        }
        let entry = &listing[i];
        if crate::scan::str_eq(entry.name.as_str(), name) {
            return Some(entry.path.clone());
        }
        i += 1;
    }
    proof {
        assert(lm.skip(i as int).len() == 0);
    }
    None
}

/// The observed identity one live descriptor file yields: the fields
/// and the name as for any descriptor, and the storage path from the
/// listing; a name without the marker or an extension missing from the
/// listing is a failure.
pub open spec fn spec_observed_identity(f: DescriptorModel, listing: Seq<ListedModel>) -> Result<
    IdentityModel,
    StoreError,
> {
    match spec_release_identity(f) {
        Err(_) => Err(StoreError::MissingDescriptorName),
        Ok(id) => match spec_listed_path(listing, id.name) {
            None => Err(StoreError::UnlistedExtension),
            Some(p) => Ok(
                IdentityModel {
                    os_id: id.os_id,
                    sysext_id: id.sysext_id,
                    version_id: id.version_id,
                    scope: id.scope,
                    architecture: id.architecture,
                    name: id.name,
                    storage_path: Some(p),
                },
            ),
        },
    }
}

/// What bootstrapping yields from the live descriptor files and the
/// overlay tool's listing: one observed identity per file, in file
/// order, aborting on the first failure.
pub open spec fn spec_bootstrap(files: Seq<DescriptorModel>, listing: Seq<ListedModel>) -> Result<
    Seq<IdentityModel>,
    StoreError,
>
    decreases files.len(),
{
    if files.len() == 0 {
        Ok(Seq::empty())
    } else {
        match spec_bootstrap(files.drop_last(), listing) {
            Err(e) => Err(e),
            Ok(s) => match spec_observed_identity(files.last(), listing) {
                Ok(id) => Ok(s.push(id)),
                Err(e) => Err(e),
            },
        }
    }
}

/// A failure on one file fails the whole bootstrap with that file's
/// error, when every earlier file succeeded.
proof fn lemma_bootstrap_prefix_error(
    files: Seq<DescriptorModel>,
    listing: Seq<ListedModel>,
    i: int,
    e: StoreError,
)
    requires
        0 <= i < files.len(),
        spec_bootstrap(files.take(i), listing) is Ok,
        spec_observed_identity(files[i], listing) == Err::<IdentityModel, StoreError>(e),
    ensures
        spec_bootstrap(files, listing) == Err::<Seq<IdentityModel>, StoreError>(e),
    decreases files.len(),
{
    if i == files.len() - 1 {
        assert(files.take(i) =~= files.drop_last());
    } else {
        assert(files.drop_last().take(i) =~= files.take(i));
        lemma_bootstrap_prefix_error(files.drop_last(), listing, i, e);
    }
}

/// Probes the live system's state: builds one observed identity per
/// release-descriptor file, resolving each file's storage path through
/// the overlay tool's listing.
pub fn get_existing_sysexts(files: &Vec<DescriptorFile>, listing: &Vec<ListedExtension>) -> (r:
    Result<Vec<ExtensionIdentity>, StoreError>)
    ensures
        match r {
            Ok(v) => spec_bootstrap(files.deep_view(), listing.deep_view()) == Ok::<
                Seq<IdentityModel>,
                StoreError,
            >(v.deep_view()),
            Err(e) => spec_bootstrap(files.deep_view(), listing.deep_view()) == Err::<
                Seq<IdentityModel>,
                StoreError,
            >(e),
        },
{
    let ghost fm = files.deep_view();
    let ghost lm = listing.deep_view();
    let mut out: Vec<ExtensionIdentity> = Vec::new();
    let n = files.len();
    let mut i: usize = 0;
    proof {
        assert(fm.take(0) =~= Seq::<DescriptorModel>::empty());
        assert(out.deep_view() =~= Seq::<IdentityModel>::empty());
    }
    while i < n
        invariant
            n == files@.len(),
            i <= n,
            fm == files.deep_view(),
            lm == listing.deep_view(),
            spec_bootstrap(fm.take(i as int), lm) == Ok::<Seq<IdentityModel>, StoreError>(
                out.deep_view(),
            ),
        decreases n - i,
    {
        proof {
            assert(fm.take(i as int + 1).drop_last() =~= fm.take(i as int));
            assert(fm.take(i as int + 1).last() == fm[i as int]);
        }
        let f = &files[i];
        let ghost out_before = out.deep_view();
        let mut ident = match get_extension_release(f.file_name.as_str(), f.content.as_str()) {
            Ok(id) => id,
            Err(_) => {
                proof {
                    lemma_bootstrap_prefix_error(fm, lm, i as int, StoreError::MissingDescriptorName);
                }
                return Err(StoreError::MissingDescriptorName);
            },
        };
        let path = match find_listed_path(listing, ident.name.as_str()) {
            Some(p) => p,
            None => {
                proof {
                    lemma_bootstrap_prefix_error(fm, lm, i as int, StoreError::UnlistedExtension);
                }
                return Err(StoreError::UnlistedExtension);
            },
        };
        ident.storage_path = Some(path);
        out.push(ident);
        proof {
            assert(out.deep_view() =~= spec_bootstrap(fm.take(i as int + 1), lm)->Ok_0);
        }
        i += 1;
    }
    proof {
        assert(fm.take(n as int) =~= fm);
    }
    Ok(out)
}

/// Loads the observed snapshot out of its persisted document: the
/// decoded snapshot, or a malformed-snapshot failure exactly when the
/// text is not an encoded snapshot.
pub fn load_snapshot(content: &str) -> (r: Result<Vec<ExtensionIdentity>, StoreError>)
    ensures
        match r {
            Ok(v) => sp_decode(content@) == Some(v.deep_view()),
            Err(e) => sp_decode(content@) is None && e == StoreError::MalformedSnapshot,
        },
{
    match decode_snapshot(content) {
        Some(v) => Ok(v),
        None => Err(StoreError::MalformedSnapshot),
    }
}

} // verus!
