//! What holds of the stack operations and of the naming scheme, proved from
//! their definitions.

use vstd::prelude::*;
use crate::branch::Aux;
use crate::branch::Branch;
use crate::branch::STACKER_REF_PREFIX;
use crate::protocol::EXCLUDE_DECORATION_KEY;
use crate::protocol::HIDE_REFS_KEY;
use crate::repo::Repo;

verus! {

/// The four kinds of reference names never meet: a primary reference is no
/// auxiliary reference, two auxiliary references are the same name only
/// where they are of the same kind and of the same branch, and two primary
/// references only where they are of the same branch.
pub proof fn law_names_apart(k1: Aux, k2: Aux, a: Seq<char>, b: Seq<char>)
    ensures
        Branch::primary_ref(a) != Branch::aux_ref(k2, b),
        Branch::aux_ref(k1, a) == Branch::aux_ref(k2, b) <==> k1 == k2 && a == b,
        Branch::primary_ref(a) == Branch::primary_ref(b) <==> a == b,
{
    Branch::lemma_aux_owner(k1, a);
    Branch::lemma_aux_owner(k2, b);
    Branch::lemma_primary_injective(a, b);
    Branch::lemma_owner(k1, Branch::aux_ref(k1, a), a);
    Branch::lemma_owner(k2, Branch::aux_ref(k2, b), b);
    if Branch::aux_ref(k1, a) == Branch::aux_ref(k2, b) {
        Branch::lemma_kinds_apart(k1, k2, Branch::aux_ref(k1, a));
    }
}

/// Hiding the auxiliary namespace where it is hidden changes nothing, and
/// neither does taking it out of the configuration where it is not in it.
/// So a second `init` after one that went through changes nothing, and
/// neither does a second `clean`.
pub proof fn law_config_settled(repo: Repo)
    ensures
        repo.config.contains((HIDE_REFS_KEY@, STACKER_REF_PREFIX@)) && repo.config.contains(
            (EXCLUDE_DECORATION_KEY@, STACKER_REF_PREFIX@),
        ) ==> repo.initialized() == repo,
        !repo.config.contains((HIDE_REFS_KEY@, STACKER_REF_PREFIX@)) && !repo.config.contains(
            (EXCLUDE_DECORATION_KEY@, STACKER_REF_PREFIX@),
        ) ==> repo.cleaned() == repo,
        repo.initialized().initialized() == repo.initialized(),
        repo.cleaned().cleaned() == repo.cleaned(),
{
    assert(repo.initialized().initialized().config =~= repo.initialized().config);
    assert(repo.cleaned().cleaned().config =~= repo.cleaned().config);
    if repo.config.contains((HIDE_REFS_KEY@, STACKER_REF_PREFIX@)) && repo.config.contains(
        (EXCLUDE_DECORATION_KEY@, STACKER_REF_PREFIX@),
    ) {
        assert(repo.initialized().config =~= repo.config);
    }
    if !repo.config.contains((HIDE_REFS_KEY@, STACKER_REF_PREFIX@)) && !repo.config.contains(
        (EXCLUDE_DECORATION_KEY@, STACKER_REF_PREFIX@),
    ) {
        assert(repo.cleaned().config =~= repo.config);
    }
}

/// After a branch was started from the branch that was checked out, its
/// base reference names that branch, its start reference holds the commit
/// at which that branch stands, and the new branch is checked out and
/// stands at that commit.
pub proof fn law_started(repo: Repo, name: Seq<char>)
    requires
        repo.can_start(name),
    ensures
        repo.started(name).target(Branch::base_ref(name)) == Some(
            Branch::primary_ref(repo.head->0),
        ),
        repo.started(name).tip(Branch::start_ref(name)) == repo.tip(
            Branch::primary_ref(repo.head->0),
        ),
        repo.started(name).head == Some(name),
        repo.started(name).tip(Branch::primary_ref(name)) == repo.tip(
            Branch::primary_ref(repo.head->0),
        ),
        repo.started(name).tip(Branch::primary_ref(repo.head->0)) == repo.tip(
            Branch::primary_ref(repo.head->0),
        ),
{
    Branch::lemma_owned(Branch::base_ref(name), name);
    Branch::lemma_aux_owner(Aux::Base, name);
    Branch::lemma_aux_owner(Aux::Start, name);
    Branch::lemma_aux_owner(Aux::Base, repo.head->0);
}

/// A publish that went through can be repeated at once, and the second one
/// changes nothing: not the remote reference, and nothing else.
pub proof fn law_publish_again(repo: Repo)
    requires
        repo.can_publish(),
    ensures
        repo.published().can_publish(),
        repo.published().published() == repo.published(),
{
    let b = repo.head->0;
    let once = repo.published();
    Branch::lemma_owned(Branch::remote_ref(b), b);
    Branch::lemma_aux_owner(Aux::Remote, b);
    Branch::lemma_aux_owner(Aux::Base, b);
    let twice = once.published();
    assert(twice.remote_tips =~= once.remote_tips);
    assert(twice.tracking =~= once.tracking);
    assert(twice.refs =~= once.refs);
}

/// A publish against a remote that has another commit for the branch than
/// the remote reference recorded is not accepted.
pub proof fn law_publish_refused(repo: Repo)
    requires
        repo.remote_moved(),
    ensures
        !repo.publish_accepted(),
        !repo.can_publish(),
{
}

/// A rebase leaves the start reference at the commit at the end of the
/// base.
pub proof fn law_rebased(repo: Repo)
    requires
        repo.can_rebase(),
    ensures
        repo.rebased().tip(Branch::start_ref(repo.head->0)) == repo.base_tip(repo.head->0),
        repo.base_tip(repo.head->0) is Some,
{
}

/// Where the base has not moved, a second rebase goes through and changes
/// nothing.
pub proof fn law_rebase_again(repo: Repo)
    requires
        repo.can_rebase(),
        repo.rebased().base_tip(repo.head->0) == repo.base_tip(repo.head->0),
    ensures
        repo.rebased().can_rebase(),
        repo.rebased().rebased() == repo.rebased(),
{
    let b = repo.head->0;
    let once = repo.rebased();
    Branch::lemma_aux_owner(Aux::Start, b);
    Branch::lemma_owned(Branch::start_ref(b), b);
    assert(once.tip(Branch::start_ref(b)) == repo.base_tip(b));
    assert(once.tip(Branch::primary_ref(b)) == repo.rebased_tip(b));
    assert(once.rebased().refs =~= once.refs);
}

/// Where no base reference names a start reference, none does after a
/// pairing.
pub proof fn law_paired_names_no_start(repo: Repo, branch: Seq<char>, base: Seq<char>)
    requires
        repo.bases_name_no_start(),
    ensures
        repo.paired(branch, base).bases_name_no_start(),
{
    let p = repo.paired(branch, base);
    Branch::lemma_aux_owner(Aux::Start, branch);
    Branch::lemma_aux_owner(Aux::Start, base);
    assert forall|n: Seq<char>|
        Branch::owner(Aux::Base, n) is Some && #[trigger] p.target(n) is Some
            implies Branch::owner(Aux::Start, p.target(n)->0) is None by {
        if n == Branch::base_ref(branch) && !repo.refs.contains_key(n) {
            assert(p.target(n) == Some(Branch::primary_ref(base)));
        } else if n == Branch::start_ref(branch) {
        } else {
            assert(p.target(n) == repo.target(n));
        }
    }
}

/// A fix of a branch that is there, with its base named, can be repeated
/// at once, and the second one changes nothing.
pub proof fn law_fix_again(repo: Repo, branch: Seq<char>, base: Seq<char>)
    requires
        repo.bases_name_no_start(),
        repo.refs.contains_key(Branch::primary_ref(branch)),
        repo.can_fix(Some(branch), Some(base)),
    ensures
        repo.fixed(Some(branch), Some(base)).can_fix(Some(branch), Some(base)),
        repo.fixed(Some(branch), Some(base)).fixed(Some(branch), Some(base)) == repo.fixed(
            Some(branch),
            Some(base),
        ),
{
    let p = repo.paired(branch, base);
    let s = p.swept();
    let f = s.repaired();
    law_paired_names_no_start(repo, branch, base);
    Branch::lemma_owned(Branch::base_ref(branch), branch);
    Branch::lemma_owned(Branch::start_ref(branch), branch);
    Branch::lemma_aux_owner(Aux::Base, branch);
    Branch::lemma_aux_owner(Aux::Start, branch);
    assert(p.refs.contains_key(Branch::primary_ref(branch)));
    assert(p.target(Branch::base_ref(branch)) == Some(Branch::primary_ref(base)));
    assert(p.refs.contains_key(Branch::start_ref(branch)));
    assert(!p.orphaned(Branch::base_ref(branch)));
    assert(!p.orphaned(Branch::start_ref(branch)));
    assert(f.target(Branch::base_ref(branch)) == Some(Branch::primary_ref(base)));
    assert(f.refs.contains_key(Branch::start_ref(branch)));
    assert(f.paired(branch, base) == f);
    law_fixed_settled(p);
}

/// A repository in which no base reference names a start reference is,
/// after a sweep and a repair, one that a sweep and a repair leave as it
/// is.
pub proof fn law_fixed_settled(repo: Repo)
    requires
        repo.bases_name_no_start(),
    ensures
        repo.swept().repaired().can_sweep(),
        repo.swept().repaired().swept() == repo.swept().repaired(),
        repo.swept().repaired().can_repair(),
        repo.swept().repaired().repaired() == repo.swept().repaired(),
{
    let s = repo.swept();
    let f = s.repaired();
    assert forall|n: Seq<char>| f.refs.contains_key(n) implies !f.orphaned(n) by {
        if Branch::aux_owner(n) is Some {
            let o = Branch::aux_owner(n)->0;
            Branch::lemma_owned(n, o);
            Branch::lemma_aux_owner(Aux::Base, o);
            Branch::lemma_aux_owner(Aux::Start, o);
            let prim = Branch::primary_ref(o);
            if s.refs.contains_key(n) {
                assert(!repo.orphaned(n));
                assert(repo.refs.contains_key(prim));
                assert(!repo.orphaned(prim));
                assert(s.refs.contains_key(prim));
            } else {
                assert(s.start_due(n));
                Branch::lemma_owner(Aux::Start, n, Branch::owner(Aux::Start, n)->0);
                let b = Branch::owner(Aux::Start, n)->0;
                Branch::lemma_aux_owner(Aux::Start, b);
                assert(o == b);
                assert(s.refs.contains_key(Branch::base_ref(o)));
                assert(!repo.orphaned(Branch::base_ref(o)));
                assert(repo.refs.contains_key(prim));
                assert(!repo.orphaned(prim));
                assert(s.refs.contains_key(prim));
            }
        }
    }
    assert(f.swept().refs =~= f.refs);
    assert forall|b: Seq<char>| !#[trigger] f.lacks_start(b) by {
        if f.lacks_start(b) {
            let n = Branch::base_ref(b);
            Branch::lemma_aux_owner(Aux::Base, b);
            Branch::lemma_aux_owner(Aux::Start, b);
            Branch::lemma_owner(Aux::Start, Branch::start_ref(b), b);
            let t = f.target(n)->0;
            assert(s.refs.contains_key(n));
            assert(s.target(n) == Some(t));
            assert(repo.target(n) == Some(t));
            assert(Branch::owner(Aux::Start, t) is None);
            assert(s.refs.contains_key(t));
            assert(s.lacks_start(b));
            assert(s.start_due(Branch::start_ref(b)));
        }
    }
    assert(f.repaired().refs =~= f.refs);
}

/// A fix, whether it goes through or fails, changes auxiliary references
/// and their notes only: the branches, the checkout, the configuration and
/// the remotes are as they were.
pub proof fn law_fix_spares_branches(
    repo: Repo,
    branch: Option<Seq<char>>,
    base: Option<Seq<char>>,
    after: Repo,
)
    requires
        repo.fix_stalled(branch, base, after) || after == repo.fixed(branch, base),
    ensures
        repo.aux_apart(after),
{
    let paired = repo.fix_paired(branch, base);
    let swept = paired.swept();
    repo.lemma_swept_aux(repo);
    if branch is Some && base is Some {
        repo.lemma_paired_aux(branch->0, base->0);
    }
    assert(repo.aux_apart(paired));
    paired.lemma_swept_aux(after);
    paired.lemma_swept_aux(swept);
    repo.lemma_aux_apart_trans(paired, swept);
    swept.lemma_repaired_aux(after);
    swept.lemma_repaired_aux(swept.repaired());
    if paired.partly_swept(after) {
        repo.lemma_aux_apart_trans(paired, after);
    }
    if swept.partly_repaired(after) {
        repo.lemma_aux_apart_trans(swept, after);
    }
    if after == repo.fixed(branch, base) {
        repo.lemma_aux_apart_trans(swept, after);
    }
}

/// A sweep deletes the three auxiliary references of a branch that has no
/// primary reference, and leaves those of a branch that has one, and every
/// other reference, as they were.
pub proof fn law_swept(repo: Repo, kind: Aux, gone: Seq<char>, there: Seq<char>, other: Seq<char>)
    requires
        !repo.refs.contains_key(Branch::primary_ref(gone)),
        repo.refs.contains_key(Branch::primary_ref(there)),
        Branch::aux_owner(other) is None,
    ensures
        !repo.swept().refs.contains_key(Branch::aux_ref(kind, gone)),
        repo.same_at(repo.swept(), Branch::aux_ref(kind, there)),
        repo.same_at(repo.swept(), other),
{
    Branch::lemma_aux_owner(kind, gone);
    Branch::lemma_aux_owner(kind, there);
}

/// A fix without a branch leaves no auxiliary reference of a branch that
/// has no primary reference. Of a branch that has one it leaves the base
/// and the remote reference as they were, and the start reference too
/// where there was one.
pub proof fn law_fixed_sweeps(repo: Repo, kind: Aux, gone: Seq<char>, there: Seq<char>)
    requires
        !repo.refs.contains_key(Branch::primary_ref(gone)),
        repo.refs.contains_key(Branch::primary_ref(there)),
    ensures
        !repo.fixed(None, None).refs.contains_key(Branch::aux_ref(kind, gone)),
        kind != Aux::Start || repo.refs.contains_key(Branch::start_ref(there)) ==> repo.same_at(
            repo.fixed(None, None),
            Branch::aux_ref(kind, there),
        ),
{
    let s = repo.swept();
    Branch::lemma_aux_owner(kind, gone);
    Branch::lemma_aux_owner(kind, there);
    law_swept(repo, kind, gone, there, Branch::primary_ref(there));
    law_swept(repo, Aux::Base, gone, there, Branch::primary_ref(there));
    Branch::lemma_aux_owner(Aux::Start, gone);
    Branch::lemma_aux_owner(Aux::Start, there);
    Branch::lemma_owner(Aux::Start, Branch::aux_ref(kind, gone), gone);
    Branch::lemma_owner(Aux::Start, Branch::aux_ref(kind, there), there);
    let n = Branch::aux_ref(kind, gone);
    if s.start_due(n) {
        assert(kind == Aux::Start);
        assert(s.refs.contains_key(Branch::base_ref(gone)));
    }
}

} // verus!
