//! The stack operations: `init`, `clean`, `start`, `push`, `rebase`, `sync`
//! and `fix`, each a sequence of calls through the capability interface.

use vstd::prelude::*;
use crate::branch::Branch;
use crate::branch::Aux;
use crate::branch::STACKER_REF_PREFIX;
use crate::git::Git;
use crate::object::ObjectName;
use crate::object::Status;
use crate::protocol::EXCLUDE_DECORATION_KEY;
use crate::protocol::FIX_NOTE;
use crate::protocol::HIDE_REFS_KEY;
use crate::protocol::START_NOTE;
use crate::refs::RefSnapshot;
use crate::refs::text_view;
use crate::repo::Repo;

verus! {

/// The stack operations on the repository behind `G`.
pub struct STC<G: Git> {
    git: G,
}

impl<G: Git> STC<G> {
    /// The repository that the operations work on.
    pub closed spec fn repo(&self) -> Repo {
        self.git.repo()
    }

    pub fn new(git: G) -> (r: Self)
        ensures
            r.repo() == git.repo(),
    {
        STC { git }
    }

    pub fn git(&self) -> (r: &G)
        ensures
            r.repo() == self.repo(),
    {
        &self.git
    }

    pub fn into_git(self) -> (r: G)
        ensures
            r.repo() == self.repo(),
    {
        self.git
    }

    /// Hides the auxiliary namespace from transfer and from log decoration.
    pub fn init(&mut self) -> (r: Result<(), Status>)
        ensures
            r is Ok ==> final(self).repo() == old(self).repo().initialized(),
            r is Err ==> {
                ||| final(self).repo() == old(self).repo()
                ||| final(self).repo() == old(self).repo().init_step(1)
            },
            G::reliable() ==> r is Ok,
    {
        self.git.config_add(HIDE_REFS_KEY, STACKER_REF_PREFIX)?;
        self.git.config_add(EXCLUDE_DECORATION_KEY, STACKER_REF_PREFIX)?;
        Ok(())
    }

    /// Takes the auxiliary namespace out of the two configuration keys.
    pub fn clean(&mut self) -> (r: Result<(), Status>)
        ensures
            r is Ok ==> final(self).repo() == old(self).repo().cleaned(),
            r is Err ==> {
                ||| final(self).repo() == old(self).repo()
                ||| final(self).repo() == old(self).repo().clean_step(1)
            },
            G::reliable() ==> r is Ok,
    {
        self.git.config_unset_pattern(HIDE_REFS_KEY, STACKER_REF_PREFIX)?;
        self.git.config_unset_pattern(EXCLUDE_DECORATION_KEY, STACKER_REF_PREFIX)?;
        Ok(())
    }

    /// Starts the branch `name` on top of the branch that is checked out,
    /// and checks it out.
    pub fn start(&mut self, name: String) -> (r: Result<(), Status>)
        ensures
            r is Ok ==> old(self).repo().can_start(name@),
            r is Ok ==> final(self).repo() == old(self).repo().started(name@),
            r is Err ==> exists|k: nat|
                k < 4 && final(self).repo() == #[trigger] old(self).repo().start_step(name@, k),
            !old(self).repo().can_start(name@) ==> final(self).repo() == old(self).repo(),
            G::reliable() && old(self).repo().can_start(name@) ==> r is Ok,
            G::reliable() && r is Err ==> final(self).repo() == old(self).repo(),
    {
        let ghost before = self.git.repo();
        assert(before == before.start_step(name@, 0));
        let refs = self.git.snapshot()?;
        let base_branch = self.git.head()?;
        let new_name = self.git.check_branchname(name.as_str())?;
        self.git.create_branch(&new_name, &base_branch)?;
        assert(self.git.repo() == before.start_step(name@, 1));
        self.git.switch_branch(&new_name)?;
        assert(self.git.repo() == before.start_step(name@, 2));
        self.git.create_symref(
            new_name.stacker_base_refname().as_str(),
            base_branch.refname().as_str(),
            START_NOTE,
        )?;
        assert(self.git.repo() == before.start_step(name@, 3));
        let base_refname = base_branch.refname();
        let base_ref = match refs.find(base_refname.as_str()) {
            Ok(found) => found,
            Err(missing) => {
                return Err(missing);
            },
        };
        self.git.create_ref(new_name.stacker_start_refname().as_str(), &base_ref.objectname)?;
        assert(self.git.repo() == before.start_step(name@, 4));
        Ok(())
    }

    /// Publishes the branch that is checked out, and records in its remote
    /// reference what the remote now has.
    pub fn push(&mut self) -> (r: Result<(), Status>)
        ensures
            r is Ok ==> old(self).repo().can_publish(),
            r is Ok ==> final(self).repo() == old(self).repo().published(),
            r is Err ==> {
                ||| final(self).repo() == old(self).repo()
                ||| (old(self).repo().publish_accepted() && final(self).repo() == old(
                    self).repo().sent())
            },
            old(self).repo().remote_moved() ==> r is Err,
            old(self).repo().remote_moved() ==> final(self).repo() == old(self).repo(),
            G::reliable() && old(self).repo().can_publish() ==> r is Ok,
            G::reliable() && old(self).repo().head is Some && !old(self).repo().has_base(
                old(self).repo().head->0,
            ) ==> (r matches Err(s) && s@ == Status::bare(1)),
    {
        let expected_commit: ObjectName;
        {
            let refs = self.git.snapshot()?;
            let cur_branch = self.git.head()?;
            let base_symref = match refs.find(cur_branch.stacker_base_refname().as_str()) {
                Ok(found) => found,
                Err(missing) => {
                    return Err(missing);
                },
            };
            let base_ref = match &base_symref.symref_target {
                Some(target) => match refs.find(target.as_str()) {
                    Ok(found) => found,
                    Err(missing) => {
                        return Err(missing);
                    },
                },
                None => {
                    return Err(Status::with(1));
                },
            };
            expected_commit =
            match refs.get(cur_branch.stacker_remote_refname().as_str()) {
                Some(remote_ref) => remote_ref.objectname.clone(),
                None => ObjectName::none(),
            };
            self.git.push(&cur_branch, &base_ref.remote, &expected_commit)?;
        }
        {
            let refs = self.git.snapshot()?;
            let cur_branch = self.git.head()?;
            let cur_ref = match refs.find(cur_branch.refname().as_str()) {
                Ok(found) => found,
                Err(missing) => {
                    return Err(missing);
                },
            };
            proof {
                Branch::lemma_aux_owner(Aux::Remote, cur_branch@);
            }
            self.git.update_ref(
                cur_branch.stacker_remote_refname().as_str(),
                &cur_ref.objectname,
                &expected_commit,
            )?;
        }
        Ok(())
    }

    /// Rebases the branch that is checked out onto the end of its base, and
    /// moves its start reference there. A rebase that fails is not undone:
    /// it may leave no branch checked out.
    pub fn rebase(&mut self) -> (r: Result<(), Status>)
        ensures
            r is Ok ==> old(self).repo().can_rebase(),
            r is Ok ==> final(self).repo() == old(self).repo().rebased(),
            r is Err ==> {
                ||| final(self).repo() == old(self).repo()
                ||| final(self).repo() == old(self).repo().detached()
                ||| (old(self).repo().can_rebase() && final(self).repo() == old(
                    self).repo().rebase_onto(old(self).repo().head->0))
            },
            old(self).repo().lacks_rebase_refs() ==> final(self).repo() == old(self).repo(),
            G::reliable() && old(self).repo().can_rebase() ==> r is Ok,
            G::reliable() && r is Err ==> {
                ||| final(self).repo() == old(self).repo()
                ||| final(self).repo() == old(self).repo().detached()
            },
            G::reliable() && old(self).repo().head is Some && old(self).repo().lacks_rebase_refs()
                ==> (r matches Err(s) && s@ == Status::bare(1)),
    {
        let refs = self.git.snapshot()?;
        let branch = self.git.head()?;
        let base_ref = match refs.find(branch.stacker_base_refname().as_str()) {
            Ok(found) => found,
            Err(missing) => {
                return Err(missing);
            },
        };
        let start_ref = match refs.find(branch.stacker_start_refname().as_str()) {
            Ok(found) => found,
            Err(missing) => {
                return Err(missing);
            },
        };
        self.git.rebase_onto(&branch)?;
        proof {
            Branch::lemma_aux_owner(Aux::Start, branch@);
            Branch::lemma_aux_owner(Aux::Base, branch@);
        }
        self.git.update_ref(
            branch.stacker_start_refname().as_str(),
            &base_ref.objectname,
            &start_ref.objectname,
        )?;
        Ok(())
    }

    /// Fetches from all remotes and prunes what they deleted: the
    /// repository then has seen what the remotes have. The references, the
    /// checkout and the configuration stay as they are, also where the
    /// fetch fails.
    pub fn sync(&mut self) -> (r: Result<(), Status>)
        ensures
            r is Ok ==> final(self).repo() == old(self).repo().fetched(),
            r is Err ==> old(self).repo().same_but_seen(final(self).repo()),
            G::reliable() ==> r is Ok,
    {
        self.git.fetch_all_prune()?;
        Ok(())
    }

    /// The first stage of a fix: gives the branch the base reference and
    /// the start reference that it has not, going by what `refs` shows.
    fn pair_on(&mut self, refs: &RefSnapshot, branchname: &str, base_branchname: &str) -> (r:
        Result<(), Status>)
        requires
            refs@ == old(self).repo().snapshot(),
        ensures
            r is Ok ==> old(self).repo().can_pair(branchname@, base_branchname@) && final(
                self).repo() == old(self).repo().paired(branchname@, base_branchname@),
            r is Err ==> final(self).repo() == old(self).repo() || final(self).repo() == old(
                self).repo().pair_step(branchname@, base_branchname@, 1),
            old(self).repo().pair_conflict(branchname@, base_branchname@) ==> r is Err && final(
                self).repo() == old(self).repo(),
            G::reliable() && old(self).repo().can_pair(branchname@, base_branchname@) ==> r is Ok,
            G::reliable() && old(self).repo().valid_names.contains(branchname@) && old(
                self).repo().valid_names.contains(base_branchname@) && old(
                self).repo().pair_conflict(branchname@, base_branchname@) ==> (r matches Err(s)
                && s@ == Status::told("base branch already defined"@)),
    {
        let ghost before = self.git.repo();
        let branch = self.git.check_branchname(branchname)?;
        let base_branch = self.git.check_branchname(base_branchname)?;
        proof {
            Branch::lemma_aux_owner(Aux::Base, branch@);
            Branch::lemma_aux_owner(Aux::Start, branch@);
            Branch::lemma_aux_owner(Aux::Base, base_branch@);
        }
        match refs.get(branch.stacker_base_refname().as_str()) {
            Some(base_symref) => {
                let wanted = base_branch.refname();
                let agrees = match &base_symref.symref_target {
                    Some(target) => *target == wanted,
                    None => false,
                };
                if !agrees {
                    return Err(Status::saying("base branch already defined"));
                }
            },
            None => {
                self.git.create_symref(
                    branch.stacker_base_refname().as_str(),
                    base_branch.refname().as_str(),
                    FIX_NOTE,
                )?;
            },
        }
        assert(self.git.repo() == before.pair_step(branchname@, base_branchname@, 1));
        match refs.get(branch.stacker_start_refname().as_str()) {
            Some(_start_ref) => {},
            None => {
                let forkpoint = self.git.forkpoint(
                    base_branch.refname().as_str(),
                    branch.refname().as_str(),
                )?;
                self.git.create_ref(branch.stacker_start_refname().as_str(), &forkpoint)?;
            },
        }
        Ok(())
    }

    /// The second stage of a fix: deletes the auxiliary references of every
    /// branch that has no primary reference.
    pub fn sweep(&mut self) -> (r: Result<(), Status>)
        ensures
            r is Ok ==> old(self).repo().can_sweep() && final(self).repo() == old(
                self).repo().swept(),
            r is Err ==> old(self).repo().partly_swept(final(self).repo()),
            G::reliable() && old(self).repo().can_sweep() ==> r is Ok,
    {
        let ghost mid = self.git.repo();
        let refs = self.git.snapshot()?;
        let branches = self.git.tracked_branches()?;
        let ghost names = Branch::names(branches@);
        proof {
            mid.lemma_sweep_done(names);
            assert forall|n: Seq<char>|
                mid.refs.contains_key(n) && mid.orphaned(n) && Branch::among(
                    names,
                    0,
                    Branch::aux_owner(n)->0,
                ) implies #[trigger] mid.sweepable(n) by {
                Branch::lemma_among_ends(names, Branch::aux_owner(n)->0);
            }
        }
        let mut i: usize = 0;
        while i < branches.len()
            invariant
                i <= branches.len(),
                names == Branch::names(branches@),
                names.no_duplicates(),
                forall|b: Seq<char>| #[trigger] mid.tracks(b) <==> names.contains(b),
                refs@ == mid.snapshot(),
                mid == old(self).repo(),
                self.git.repo() == mid.swept_through(names, i as int),
                forall|n: Seq<char>|
                    mid.refs.contains_key(n) && mid.orphaned(n) && Branch::among(
                        names,
                        i as int,
                        Branch::aux_owner(n)->0,
                    ) ==> #[trigger] mid.sweepable(n),
            decreases branches.len() - i,
        {
            let branch = &branches[i];
            let ghost b = branch@;
            let ghost cur = self.git.repo();
            proof {
                assert(b == names[i as int]);
                mid.lemma_sweep_pending(names, i as int, Aux::Base);
                mid.lemma_sweep_pending(names, i as int, Aux::Start);
                mid.lemma_sweep_pending(names, i as int, Aux::Remote);
                Branch::lemma_owned(Branch::base_ref(b), b);
                Branch::lemma_aux_owner(Aux::Base, b);
                Branch::lemma_aux_owner(Aux::Start, b);
                Branch::lemma_aux_owner(Aux::Remote, b);
                Branch::lemma_owner(Aux::Base, Branch::base_ref(b), b);
                assert(mid.can_sweep() ==> (mid.refs.contains_key(Branch::base_ref(b))
                    && mid.orphaned(Branch::base_ref(b)) ==> mid.sweepable(Branch::base_ref(b))));
                assert(mid.can_sweep() ==> (mid.refs.contains_key(Branch::start_ref(b))
                    && mid.orphaned(Branch::start_ref(b)) ==> mid.sweepable(
                    Branch::start_ref(b),
                )));
                assert(mid.can_sweep() ==> (mid.refs.contains_key(Branch::remote_ref(b))
                    && mid.orphaned(Branch::remote_ref(b)) ==> mid.sweepable(
                    Branch::remote_ref(b),
                )));
            }
            if refs.get(branch.refname().as_str()).is_none() {
                match refs.get(branch.stacker_base_refname().as_str()) {
                    Some(found) => {
                        self.git.delete_symref(found.name.as_str())?;
                    },
                    None => {},
                }
                assert(self.git.repo().refs =~= cur.refs.remove(Branch::base_ref(b)));
                match refs.get(branch.stacker_start_refname().as_str()) {
                    Some(found) => {
                        self.git.delete_ref(found.name.as_str(), &found.objectname)?;
                    },
                    None => {},
                }
                assert(self.git.repo().refs =~= cur.refs.remove(Branch::base_ref(b)).remove(
                    Branch::start_ref(b),
                ));
                match refs.get(branch.stacker_remote_refname().as_str()) {
                    Some(found) => {
                        self.git.delete_ref(found.name.as_str(), &found.objectname)?;
                    },
                    None => {},
                }
                assert(self.git.repo().refs =~= cur.refs.remove(Branch::base_ref(b)).remove(
                    Branch::start_ref(b),
                ).remove(Branch::remote_ref(b)));
            }
            proof {
                mid.lemma_sweep_step(names, i as int, self.git.repo());
                assert forall|n: Seq<char>|
                    mid.refs.contains_key(n) && mid.orphaned(n) && Branch::among(
                        names,
                        i as int + 1,
                        Branch::aux_owner(n)->0,
                    ) implies #[trigger] mid.sweepable(n) by {
                    Branch::lemma_among_step(names, i as int, Branch::aux_owner(n)->0);
                    Branch::lemma_owned(n, b);
                }
            }
            i += 1;
        }
        proof {
            assert forall|n: Seq<char>|
                mid.refs.contains_key(n) && mid.orphaned(n) implies #[trigger] mid.sweepable(
                n,
            ) by {
                let o = Branch::aux_owner(n)->0;
                Branch::lemma_owned(n, o);
                assert(mid.tracks(o));
                Branch::lemma_among_ends(names, o);
            }
        }
        Ok(())
    }

    /// The third stage of a fix: writes the start reference, at the fork
    /// point, of every branch that is there and has a base but no start
    /// reference. A branch that is gone, and one whose base reference names
    /// a reference that is gone, is passed over.
    pub fn repair(&mut self) -> (r: Result<(), Status>)
        ensures
            r is Ok ==> old(self).repo().can_repair() && final(self).repo() == old(
                self).repo().repaired(),
            r is Err ==> old(self).repo().partly_repaired(final(self).repo()),
            G::reliable() && old(self).repo().can_repair() ==> r is Ok,
    {
        let ghost late = self.git.repo();
        let refs = self.git.snapshot()?;
        let branches = self.git.tracked_branches()?;
        let ghost names = Branch::names(branches@);
        proof {
            late.lemma_repair_done(names);
            assert forall|b: Seq<char>|
                Branch::among(names, 0, b) && #[trigger] late.lacks_start(
                    b,
                ) implies late.repair_fork(b) is Some by {
                Branch::lemma_among_ends(names, b);
            }
        }
        let mut i: usize = 0;
        while i < branches.len()
            invariant
                i <= branches.len(),
                names == Branch::names(branches@),
                names.no_duplicates(),
                forall|b: Seq<char>| #[trigger] late.lacks_start(b) ==> names.contains(b),
                refs@ == late.snapshot(),
                late == old(self).repo(),
                self.git.repo() == late.repaired_through(names, i as int),
                forall|b: Seq<char>|
                    Branch::among(names, i as int, b) && #[trigger] late.lacks_start(b)
                        ==> late.repair_fork(b) is Some,
            decreases branches.len() - i,
        {
            let branch = &branches[i];
            let ghost b = branch@;
            proof {
                assert(b == names[i as int]);
                Branch::lemma_aux_owner(Aux::Start, b);
                late.lemma_repair_reads(names, i as int, Branch::primary_ref(b));
                assert(late.can_repair() ==> (late.lacks_start(b) ==> late.repair_fork(b) is Some));
            }
            match refs.get(branch.stacker_base_refname().as_str()) {
                Some(base_symref) => {
                    if refs.get(branch.refname().as_str()).is_some() && refs.get(
                        branch.stacker_start_refname().as_str(),
                    ).is_none() {
                        match &base_symref.symref_target {
                            Some(target) => {
                                if refs.get(target.as_str()).is_some() {
                                    proof {
                                        late.lemma_repair_reads(names, i as int, target@);
                                    }
                                    let forkpoint = self.git.forkpoint(
                                        target.as_str(),
                                        branch.refname().as_str(),
                                    )?;
                                    self.git.create_ref(
                                        branch.stacker_start_refname().as_str(),
                                        &forkpoint,
                                    )?;
                                }
                            },
                            None => {},
                        }
                    }
                },
                None => {},
            }
            proof {
                late.lemma_repair_step(names, i as int, self.git.repo());
                assert forall|o: Seq<char>|
                    Branch::among(names, i as int + 1, o) && #[trigger] late.lacks_start(
                        o,
                    ) implies late.repair_fork(o) is Some by {
                    Branch::lemma_among_step(names, i as int, o);
                }
            }
            i += 1;
        }
        proof {
            assert forall|o: Seq<char>| #[trigger] late.lacks_start(o) implies late.repair_fork(
                o,
            ) is Some by {
                Branch::lemma_among_ends(names, o);
            }
        }
        Ok(())
    }

    /// Repairs the auxiliary references in three stages, each on a new
    /// reading of the references: pairs `branch` with `base` where a branch
    /// is given, deletes the references of branches that are gone, and
    /// writes the start references that are missing.
    pub fn fix(&mut self, branch: Option<String>, base: Option<String>) -> (r: Result<(), Status>)
        ensures
            r is Ok ==> old(self).repo().can_fix(text_view(branch), text_view(base)) && final(
                self).repo() == old(self).repo().fixed(text_view(branch), text_view(base)),
            r is Err ==> old(self).repo().fix_stalled(
                text_view(branch),
                text_view(base),
                final(self).repo(),
            ),
            branch is Some && base is None ==> r is Err && final(self).repo() == old(self).repo(),
            branch is Some && base is Some && old(self).repo().pair_conflict(
                branch->0@,
                base->0@,
            ) ==> r is Err && final(self).repo() == old(self).repo(),
            G::reliable() && old(self).repo().can_fix(text_view(branch), text_view(base))
                ==> r is Ok,
            G::reliable() && r is Err ==> old(self).repo().fix_stopped(
                text_view(branch),
                text_view(base),
                final(self).repo(),
            ),
            G::reliable() && branch is Some && base is None ==> (r matches Err(s) && s@
                == Status::told("base not specified"@)),
            G::reliable() && branch is Some && base is Some && old(
                self).repo().valid_names.contains(branch->0@) && old(
                self).repo().valid_names.contains(base->0@) && old(self).repo().pair_conflict(
                branch->0@,
                base->0@,
            ) ==> (r matches Err(s) && s@ == Status::told("base branch already defined"@)),
    {
        let refs = self.git.snapshot()?;
        match &branch {
            Some(branchname) => match &base {
                Some(base_branchname) => {
                    self.pair_on(&refs, branchname.as_str(), base_branchname.as_str())?;
                },
                None => {
                    return Err(Status::saying("base not specified"));
                },
            },
            None => {},
        }
        self.sweep()?;
        self.repair()?;
        Ok(())
    }
}

} // verus!
