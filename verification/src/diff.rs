//! The diff engine: a pure function from the desired add and remove
//! lists and the observed snapshot to the merge and unmerge plan.

use vstd::prelude::*;

use crate::identity::{
    identity_eq, key_matches, opt_string_eq, same_sysext_id, ExtensionIdentity, IdentityModel,
};

verus! {

/// A desired extension image whose identity has already been extracted,
/// together with the source location the image can be copied from.
pub struct ResolvedSysext {
    pub identity: ExtensionIdentity,
    pub source: String,
}

/// Mathematical model of a resolved desired image.
pub struct ResolvedModel {
    pub identity: IdentityModel,
    pub source: Seq<char>,
}

impl DeepView for ResolvedSysext {
    type V = ResolvedModel;

    open spec fn deep_view(&self) -> ResolvedModel {
        ResolvedModel { identity: self.identity.deep_view(), source: self.source.deep_view() }
    }
}

/// The plan the diff engine emits: images to merge (logical name and
/// source location, in input order), observed entries to unmerge, and
/// the desired removals that matched nothing observed — a non-fatal
/// warning signal, never an error.
pub struct SysextPlan {
    pub to_merge: Vec<(String, String)>,
    pub to_unmerge: Vec<ExtensionIdentity>,
    pub missing_removals: Vec<ExtensionIdentity>,
}

/// The first observed entry whose identity key matches `x`, if any.
pub open spec fn spec_find(observed: Seq<IdentityModel>, x: IdentityModel) -> Option<IdentityModel>
    decreases observed.len(),
{
    if observed.len() == 0 {
        None
    } else if key_matches(observed.first(), x) {
        Some(observed.first())
    } else {
        spec_find(observed.drop_first(), x)
    }
}

/// What the add list stages: for each desired image in order, nothing
/// when an observed entry with the same key already carries the same
/// version; a merge of the new image and an unmerge of the matching
/// observed entry when the versions differ; and a merge alone when no
/// observed entry matches.
pub open spec fn spec_add_phase(add: Seq<ResolvedModel>, observed: Seq<IdentityModel>) -> (Seq<
    (Seq<char>, Seq<char>),
>, Seq<IdentityModel>)
    decreases add.len(),
{
    if add.len() == 0 {
        (Seq::empty(), Seq::empty())
    } else {
        let prev = spec_add_phase(add.drop_last(), observed);
        let d = add.last();
        match spec_find(observed, d.identity) {
            Some(o) => {
                if o.version_id == d.identity.version_id {
                    prev
                } else {
                    (prev.0.push((d.identity.name, d.source)), prev.1.push(o))
                }
            },
            None => (prev.0.push((d.identity.name, d.source)), prev.1),
        }
    }
}

/// What the remove list stages on top of the unmerges already staged by
/// the add phase: for each desired removal in order, the matching
/// observed entry (deduplicated against entries already staged), or a
/// warning when nothing observed matches.
pub open spec fn spec_remove_phase(
    remove: Seq<IdentityModel>,
    observed: Seq<IdentityModel>,
    staged: Seq<IdentityModel>,
) -> (Seq<IdentityModel>, Seq<IdentityModel>)
    decreases remove.len(),
{
    if remove.len() == 0 {
        (staged, Seq::empty())
    } else {
        let prev = spec_remove_phase(remove.drop_last(), observed, staged);
        let d = remove.last();
        match spec_find(observed, d) {
            Some(o) => {
                if prev.0.contains(o) {
                    prev
                } else {
                    (prev.0.push(o), prev.1)
                }
            },
            None => (prev.0, prev.1.push(d)),
        }
    }
}

/// The whole diff: the add phase stages merges and version-change
/// unmerges, then the remove phase stages the remaining unmerges and
/// collects the warnings.
pub open spec fn spec_diff(
    add: Seq<ResolvedModel>,
    remove: Seq<IdentityModel>,
    observed: Seq<IdentityModel>,
) -> (Seq<(Seq<char>, Seq<char>)>, Seq<IdentityModel>, Seq<IdentityModel>) {
    let a = spec_add_phase(add, observed);
    let r = spec_remove_phase(remove, observed, a.1);
    (a.0, r.0, r.1)
}

/// The first observed entry whose identity key matches the new
/// identity's, if any.
pub fn find_existing_sysext(new: &ExtensionIdentity, existing: &Vec<ExtensionIdentity>) -> (r:
    Option<ExtensionIdentity>)
    ensures
        match r {
            Some(o) => spec_find(existing.deep_view(), new.deep_view()) == Some(o.deep_view()),
            None => spec_find(existing.deep_view(), new.deep_view()) is None,
        },
{
    let ghost obs = existing.deep_view();
    let n = existing.len();
    let mut i: usize = 0;
    proof {
        assert(obs.skip(0) =~= obs);
    }
    while i < n
        invariant
            n == existing@.len(),
            i <= n,
            obs == existing.deep_view(),
            spec_find(obs, new.deep_view()) == spec_find(obs.skip(i as int), new.deep_view()),
        decreases n - i,
    {
        proof {
            assert(obs.skip(i as int).first() == obs[i as int]);
            assert(obs.skip(i as int).drop_first() =~= obs.skip(i as int + 1));
        }
        let ext = &existing[i];
        if same_sysext_id(ext, new) {
            return Some(ext.clone());
        }
        i += 1;
    }
    proof {
        assert(obs.skip(i as int).len() == 0);
    }
    None
}

/// Whether the staged unmerge list already holds an entry equal to `x`.
fn staged_contains(staged: &Vec<ExtensionIdentity>, x: &ExtensionIdentity) -> (r: bool)
    ensures
        r == staged.deep_view().contains(x.deep_view()),
{
    let ghost s = staged.deep_view();
    let n = staged.len();
    let mut i: usize = 0;
    while i < n
        invariant
            n == staged@.len(),
            i <= n,
            s == staged.deep_view(),
            forall|k: int| 0 <= k < i ==> s[k] != x.deep_view(),
        decreases n - i,
    {
        if identity_eq(&staged[i], x) {
            proof {
                assert(s[i as int] == x.deep_view());
            }
            return true;
        }
        i += 1;
    }
    false
}

/// Diffs the resolved desired state against the observed snapshot and
/// returns the plan: what to merge, what to unmerge, and which desired
/// removals matched nothing observed.
pub fn get_list_of_sysexts_to_merge_and_unmerge(
    to_add: &Vec<ResolvedSysext>,
    to_remove: &Vec<ExtensionIdentity>,
    existing: &Vec<ExtensionIdentity>,
) -> (r: SysextPlan)
    ensures
        ({
            let d = spec_diff(to_add.deep_view(), to_remove.deep_view(), existing.deep_view());
            &&& r.to_merge.deep_view() == d.0
            &&& r.to_unmerge.deep_view() == d.1
            &&& r.missing_removals.deep_view() == d.2
        }),
{
    let ghost addm = to_add.deep_view();
    let ghost removem = to_remove.deep_view();
    let ghost obs = existing.deep_view();
    let mut to_merge: Vec<(String, String)> = Vec::new();
    let mut to_unmerge: Vec<ExtensionIdentity> = Vec::new();
    let mut missing_removals: Vec<ExtensionIdentity> = Vec::new();

    let n_add = to_add.len();
    let mut i: usize = 0;
    proof {
        assert(addm.take(0) =~= Seq::<ResolvedModel>::empty());
    }
    while i < n_add
        invariant
            n_add == to_add@.len(),
            i <= n_add,
            addm == to_add.deep_view(),
            obs == existing.deep_view(),
            (to_merge.deep_view(), to_unmerge.deep_view()) == spec_add_phase(
                addm.take(i as int),
                obs,
            ),
        decreases n_add - i,
    {
        proof {
            assert(addm.take(i as int + 1).drop_last() =~= addm.take(i as int));
            assert(addm.take(i as int + 1).last() == addm[i as int]);
        }
        let d = &to_add[i];
        let ghost merge_before = to_merge.deep_view();
        let ghost unmerge_before = to_unmerge.deep_view();
        match find_existing_sysext(&d.identity, existing) {
            Some(o) => {
                if !opt_string_eq(&o.version_id, &d.identity.version_id) {
                    to_merge.push((d.identity.name.clone(), d.source.clone()));
                    to_unmerge.push(o);
                    proof {
                        assert(to_merge.deep_view() =~= merge_before.push(
                            (d.identity.name@, d.source@),
                        ));
                        assert(to_unmerge.deep_view() =~= spec_add_phase(
                            addm.take(i as int + 1),
                            obs,
                        ).1);
                    }
                }
            },
            None => {
                to_merge.push((d.identity.name.clone(), d.source.clone()));
                proof {
                    assert(to_merge.deep_view() =~= merge_before.push(
                        (d.identity.name@, d.source@),
                    ));
                }
            },
        }
        i += 1;
    }
    proof {
        assert(addm.take(n_add as int) =~= addm);
    }

    let ghost staged = to_unmerge.deep_view();
    let n_remove = to_remove.len();
    let mut j: usize = 0;
    proof {
        assert(removem.take(0) =~= Seq::<IdentityModel>::empty());
    }
    while j < n_remove
        invariant
            n_remove == to_remove@.len(),
            j <= n_remove,
            removem == to_remove.deep_view(),
            obs == existing.deep_view(),
            to_merge.deep_view() == spec_add_phase(addm, obs).0,
            staged == spec_add_phase(addm, obs).1,
            (to_unmerge.deep_view(), missing_removals.deep_view()) == spec_remove_phase(
                removem.take(j as int),
                obs,
                staged,
            ),
        decreases n_remove - j,
    {
        proof {
            assert(removem.take(j as int + 1).drop_last() =~= removem.take(j as int));
            assert(removem.take(j as int + 1).last() == removem[j as int]);
        }
        let d = &to_remove[j];
        let ghost unmerge_before = to_unmerge.deep_view();
        let ghost missing_before = missing_removals.deep_view();
        match find_existing_sysext(d, existing) {
            Some(o) => {
                if !staged_contains(&to_unmerge, &o) {
                    to_unmerge.push(o);
                    proof {
                        assert(to_unmerge.deep_view() =~= spec_remove_phase(
                            removem.take(j as int + 1),
                            obs,
                            staged,
                        ).0);
                    }
                }
            },
            None => {
                missing_removals.push(d.clone());
                proof {
                    assert(missing_removals.deep_view() =~= missing_before.push(
                        removem[j as int],
                    ));
                }
            },
        }
        j += 1;
    }
    proof {
        assert(removem.take(n_remove as int) =~= removem);
    }

    SysextPlan { to_merge, to_unmerge, missing_removals }
}

/// Law: an empty desired state is always satisfied — diffing empty add
/// and remove lists against any observed snapshot stages no merge, no
/// unmerge, and no warning.
pub proof fn lemma_empty_desired_state_is_noop(observed: Seq<IdentityModel>)
    ensures
        spec_diff(Seq::<ResolvedModel>::empty(), Seq::<IdentityModel>::empty(), observed).0
            =~= Seq::<(Seq<char>, Seq<char>)>::empty(),
        spec_diff(Seq::<ResolvedModel>::empty(), Seq::<IdentityModel>::empty(), observed).1
            =~= Seq::<IdentityModel>::empty(),
        spec_diff(Seq::<ResolvedModel>::empty(), Seq::<IdentityModel>::empty(), observed).2
            =~= Seq::<IdentityModel>::empty(),
{
    reveal_with_fuel(spec_add_phase, 2);
    reveal_with_fuel(spec_remove_phase, 2);
}

/// Law: re-applying an already-satisfied desired state is a no-op —
/// when the observed snapshot holds an entry with the desired key and
/// the desired version, adding that image stages no merge and no
/// unmerge.
pub proof fn lemma_satisfied_add_is_noop(
    d: ResolvedModel,
    o: IdentityModel,
    observed: Seq<IdentityModel>,
)
    requires
        spec_find(observed, d.identity) == Some(o),
        o.version_id == d.identity.version_id,
    ensures
        spec_diff(seq![d], Seq::<IdentityModel>::empty(), observed).0 =~= Seq::<
            (Seq<char>, Seq<char>),
        >::empty(),
        spec_diff(seq![d], Seq::<IdentityModel>::empty(), observed).1 =~= Seq::<
            IdentityModel,
        >::empty(),
        spec_diff(seq![d], Seq::<IdentityModel>::empty(), observed).2 =~= Seq::<
            IdentityModel,
        >::empty(),
{
    reveal_with_fuel(spec_add_phase, 2);
    reveal_with_fuel(spec_remove_phase, 2);
    assert(seq![d].drop_last() =~= Seq::<ResolvedModel>::empty());
    assert(seq![d].last() == d);
}

/// Law: a version change stages exactly one merge — the new image — and
/// exactly one unmerge — the observed entry with the same key.
pub proof fn lemma_version_change_stages_update(
    d: ResolvedModel,
    o: IdentityModel,
    observed: Seq<IdentityModel>,
)
    requires
        spec_find(observed, d.identity) == Some(o),
        o.version_id != d.identity.version_id,
    ensures
        spec_diff(seq![d], Seq::<IdentityModel>::empty(), observed).0 =~= seq![
            (d.identity.name, d.source),
        ],
        spec_diff(seq![d], Seq::<IdentityModel>::empty(), observed).1 =~= seq![o],
        spec_diff(seq![d], Seq::<IdentityModel>::empty(), observed).2 =~= Seq::<
            IdentityModel,
        >::empty(),
{
    reveal_with_fuel(spec_add_phase, 2);
    reveal_with_fuel(spec_remove_phase, 2);
    assert(seq![d].drop_last() =~= Seq::<ResolvedModel>::empty());
    assert(seq![d].last() == d);
}

/// Law: removing an entry present in the observed snapshot stages
/// exactly one unmerge and no merge and no warning.
pub proof fn lemma_remove_present_stages_unmerge(
    x: IdentityModel,
    o: IdentityModel,
    observed: Seq<IdentityModel>,
)
    requires
        spec_find(observed, x) == Some(o),
    ensures
        spec_diff(Seq::<ResolvedModel>::empty(), seq![x], observed).0 =~= Seq::<
            (Seq<char>, Seq<char>),
        >::empty(),
        spec_diff(Seq::<ResolvedModel>::empty(), seq![x], observed).1 =~= seq![o],
        spec_diff(Seq::<ResolvedModel>::empty(), seq![x], observed).2 =~= Seq::<
            IdentityModel,
        >::empty(),
{
    reveal_with_fuel(spec_add_phase, 2);
    reveal_with_fuel(spec_remove_phase, 2);
    assert(seq![x].drop_last() =~= Seq::<IdentityModel>::empty());
    assert(seq![x].last() == x);
}

/// Law: removing an entry absent from the observed snapshot stages
/// nothing and yields exactly one warning — never an error.
pub proof fn lemma_remove_absent_warns(x: IdentityModel, observed: Seq<IdentityModel>)
    requires
        spec_find(observed, x) is None,
    ensures
        spec_diff(Seq::<ResolvedModel>::empty(), seq![x], observed).0 =~= Seq::<
            (Seq<char>, Seq<char>),
        >::empty(),
        spec_diff(Seq::<ResolvedModel>::empty(), seq![x], observed).1 =~= Seq::<
            IdentityModel,
        >::empty(),
        spec_diff(Seq::<ResolvedModel>::empty(), seq![x], observed).2 =~= seq![x],
{
    reveal_with_fuel(spec_add_phase, 2);
    reveal_with_fuel(spec_remove_phase, 2);
    assert(seq![x].drop_last() =~= Seq::<IdentityModel>::empty());
    assert(seq![x].last() == x);
}

/// Law: when one desired state adds and removes the same key and the
/// observed entry already carries the desired version, the removal wins
/// for that key — the diff stages exactly the one unmerge, and the add
/// is treated as already satisfied and contributes no merge.
pub proof fn lemma_removal_wins_over_satisfied_add(
    d: ResolvedModel,
    x: IdentityModel,
    o: IdentityModel,
    observed: Seq<IdentityModel>,
)
    requires
        spec_find(observed, d.identity) == Some(o),
        o.version_id == d.identity.version_id,
        spec_find(observed, x) == Some(o),
    ensures
        spec_diff(seq![d], seq![x], observed).0 =~= Seq::<(Seq<char>, Seq<char>)>::empty(),
        spec_diff(seq![d], seq![x], observed).1 =~= seq![o],
        spec_diff(seq![d], seq![x], observed).2 =~= Seq::<IdentityModel>::empty(),
{
    reveal_with_fuel(spec_add_phase, 2);
    reveal_with_fuel(spec_remove_phase, 2);
    assert(seq![d].drop_last() =~= Seq::<ResolvedModel>::empty());
    assert(seq![d].last() == d);
    assert(seq![x].drop_last() =~= Seq::<IdentityModel>::empty());
    assert(seq![x].last() == x);
}

} // verus!
