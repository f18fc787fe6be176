//! What the stack operations do to a repository, step by step, as functions
//! of the model.

use vstd::prelude::*;
use crate::branch::Aux;
use crate::branch::Branch;
use crate::branch::STACKER_REF_PREFIX;
use crate::object::ObjectName;
use crate::repo::Repo;
use crate::repo::RefValue;

verus! {

/// The configuration key that hides references from transfer.
pub const HIDE_REFS_KEY: &'static str = "transfer.hideRefs";

/// The configuration key that keeps references out of log decoration.
pub const EXCLUDE_DECORATION_KEY: &'static str = "log.excludeDecoration";

/// The note that `start` leaves with the base reference.
pub const START_NOTE: &'static str = "stacker: base branch marker";

/// The note that `fix` leaves with the base reference.
pub const FIX_NOTE: &'static str = "stacker: set base branch";

impl Repo {
    /// The repository with the auxiliary namespace under the first `k` of
    /// the two configuration keys.
    pub open spec fn init_step(self, k: nat) -> Repo {
        let r1 = self.config_add(HIDE_REFS_KEY@, STACKER_REF_PREFIX@);
        let r2 = r1.config_add(EXCLUDE_DECORATION_KEY@, STACKER_REF_PREFIX@);
        if k == 0 {
            self
        } else if k == 1 {
            r1
        } else {
            r2
        }
    }

    /// The repository with the auxiliary namespace hidden from transfer and
    /// from log decoration.
    pub open spec fn initialized(self) -> Repo {
        self.init_step(2)
    }

    /// The repository with the auxiliary namespace taken from the first `k`
    /// of the two configuration keys.
    pub open spec fn clean_step(self, k: nat) -> Repo {
        let r1 = self.config_unset(HIDE_REFS_KEY@, STACKER_REF_PREFIX@);
        let r2 = r1.config_unset(EXCLUDE_DECORATION_KEY@, STACKER_REF_PREFIX@);
        if k == 0 {
            self
        } else if k == 1 {
            r1
        } else {
            r2
        }
    }

    pub open spec fn cleaned(self) -> Repo {
        self.clean_step(2)
    }

    /// Whether a branch called `name` can be started: a branch is checked
    /// out and holds a commit, the name is one for a branch, and no branch
    /// has it.
    pub open spec fn can_start(self, name: Seq<char>) -> bool {
        &&& self.head is Some
        &&& self.valid_names.contains(name)
        &&& self.can_create_branch(name, self.head->0)
    }

    /// The repository after the first `k` of the four writes that start
    /// the branch `name`: the branch, the checkout, the base reference,
    /// the start reference.
    pub open spec fn start_step(self, name: Seq<char>, k: nat) -> Repo {
        let base = self.head->0;
        let at = self.tip(Branch::primary_ref(base))->0;
        let r1 = self.create_branch(name, base);
        let r2 = r1.switch(name);
        let r3 = r2.with_symref(Branch::base_ref(name), Branch::primary_ref(base), START_NOTE@);
        let r4 = r3.with_ref(Branch::start_ref(name), RefValue::Direct(at));
        if k == 0 {
            self
        } else if k == 1 {
            r1
        } else if k == 2 {
            r2
        } else if k == 3 {
            r3
        } else {
            r4
        }
    }

    /// The repository with the branch `name` started from the branch that
    /// was checked out.
    pub open spec fn started(self, name: Seq<char>) -> Repo {
        self.start_step(name, 4)
    }

    /// What a publish of the branch expects the remote to have: what the
    /// remote reference of the branch shows, "no such object" where there
    /// is none.
    pub open spec fn publish_expected(self, branch: Seq<char>) -> Seq<char> {
        if self.refs.contains_key(Branch::remote_ref(branch)) {
            self.resolved(Branch::remote_ref(branch))
        } else {
            ObjectName::absent()
        }
    }

    /// Whether the reference that the base reference of the branch names
    /// is there.
    pub open spec fn has_base(self, branch: Seq<char>) -> bool {
        &&& self.target(Branch::base_ref(branch)) is Some
        &&& self.refs.contains_key(self.target(Branch::base_ref(branch))->0)
    }

    /// The remote that a publish of the branch goes to: the one that the
    /// base of the branch is associated with.
    pub open spec fn publish_remote(self, branch: Seq<char>) -> Option<Seq<char>> {
        self.shown(self.target(Branch::base_ref(branch))->0).remote
    }

    /// Whether the remote accepts a publish of the branch that is checked
    /// out: the branch has a base, and the remote has for it what the
    /// remote reference recorded.
    pub open spec fn publish_accepted(self) -> bool {
        &&& self.head is Some
        &&& self.has_base(self.head->0)
        &&& self.can_push(
            self.head->0,
            self.publish_remote(self.head->0),
            self.publish_expected(self.head->0),
        )
    }

    /// Whether the branch that is checked out can be published and the
    /// publish recorded.
    pub open spec fn can_publish(self) -> bool {
        &&& self.publish_accepted()
        &&& self.target(Branch::remote_ref(self.head->0)) is None
    }

    /// The repository after the remote took the branch that is checked out.
    pub open spec fn sent(self) -> Repo {
        self.push(self.head->0, self.publish_remote(self.head->0)->0)
    }

    /// The repository after the publish and its record: the remote has the
    /// branch where it stands, and so says the remote reference.
    pub open spec fn published(self) -> Repo {
        self.sent().with_ref(
            Branch::remote_ref(self.head->0),
            RefValue::Direct(self.tip(Branch::primary_ref(self.head->0))->0),
        )
    }

    /// Whether the remote has for the branch that is checked out another
    /// commit than the remote reference recorded.
    pub open spec fn remote_moved(self) -> bool {
        &&& self.head is Some
        &&& self.has_base(self.head->0)
        &&& self.publish_remote(self.head->0) is Some
        &&& self.remote_tip(self.publish_remote(self.head->0)->0, self.head->0)
            != self.publish_expected(self.head->0)
    }

    /// Whether no branch is checked out, or the one that is has no base
    /// reference or no start reference: a rebase then stops before it
    /// writes.
    pub open spec fn lacks_rebase_refs(self) -> bool {
        ||| self.head is None
        ||| !self.refs.contains_key(Branch::base_ref(self.head->0))
        ||| !self.refs.contains_key(Branch::start_ref(self.head->0))
    }

    /// Whether the branch that is checked out can be rebased: it has a base
    /// and a start reference, and the replay onto the base gives a commit.
    pub open spec fn can_rebase(self) -> bool {
        &&& self.head is Some
        &&& self.rebased_tip(self.head->0) is Some
    }

    /// The repository after the rebase of the branch that is checked out:
    /// the branch stands on the replayed commits, and its start reference
    /// at the end of the base.
    pub open spec fn rebased(self) -> Repo {
        self.rebase_onto(self.head->0).with_ref(
            Branch::start_ref(self.head->0),
            RefValue::Direct(self.base_tip(self.head->0)->0),
        )
    }

    /// Whether no base reference names a start reference.
    pub open spec fn bases_name_no_start(self) -> bool {
        forall|n: Seq<char>|
            Branch::owner(Aux::Base, n) is Some && #[trigger] self.target(n) is Some
                ==> Branch::owner(Aux::Start, self.target(n)->0) is None
    }

    /// Whether the branch has a base reference that does not name the
    /// primary reference of `base`.
    pub open spec fn pair_conflict(self, branch: Seq<char>, base: Seq<char>) -> bool {
        &&& self.refs.contains_key(Branch::base_ref(branch))
        &&& self.target(Branch::base_ref(branch)) != Some(Branch::primary_ref(base))
    }

    /// Whether the branch can be paired with the base: both names are names
    /// for branches, the branch has no other base, and it has a start
    /// reference or the two have a fork point.
    pub open spec fn can_pair(self, branch: Seq<char>, base: Seq<char>) -> bool {
        &&& self.valid_names.contains(branch)
        &&& self.valid_names.contains(base)
        &&& !self.pair_conflict(branch, base)
        &&& (self.refs.contains_key(Branch::start_ref(branch)) || self.fork_point(
            Branch::primary_ref(base),
            Branch::primary_ref(branch),
        ) is Some)
    }

    /// The repository after the first `k` of the two steps that pair the
    /// branch with the base: a base reference where there was none, then a
    /// start reference at the fork point where there was none.
    pub open spec fn pair_step(self, branch: Seq<char>, base: Seq<char>, k: nat) -> Repo {
        let r1 = if self.refs.contains_key(Branch::base_ref(branch)) {
            self
        } else {
            self.with_symref(Branch::base_ref(branch), Branch::primary_ref(base), FIX_NOTE@)
        };
        let r2 = if self.refs.contains_key(Branch::start_ref(branch)) {
            r1
        } else {
            r1.with_ref(
                Branch::start_ref(branch),
                RefValue::Direct(
                    self.fork_point(Branch::primary_ref(base), Branch::primary_ref(branch))->0,
                ),
            )
        };
        if k == 0 {
            self
        } else if k == 1 {
            r1
        } else {
            r2
        }
    }

    pub open spec fn paired(self, branch: Seq<char>, base: Seq<char>) -> Repo {
        self.pair_step(branch, base, 2)
    }

    /// Whether `name` is an auxiliary reference of a branch that has no
    /// primary reference.
    pub open spec fn orphaned(self, name: Seq<char>) -> bool {
        &&& Branch::aux_owner(name) is Some
        &&& !self.refs.contains_key(Branch::primary_ref(Branch::aux_owner(name)->0))
    }

    /// Whether the auxiliary reference `name` can be deleted as what it
    /// should be: a base reference as a symbolic one, the others as direct
    /// ones.
    pub open spec fn sweepable(self, name: Seq<char>) -> bool {
        if Branch::owner(Aux::Base, name) is Some {
            self.target(name) is Some
        } else {
            self.tip(name) is Some
        }
    }

    pub open spec fn can_sweep(self) -> bool {
        forall|n: Seq<char>|
            self.refs.contains_key(n) && self.orphaned(n) ==> #[trigger] self.sweepable(n)
    }

    /// The repository without the auxiliary references of those of the
    /// first `i` of `names` that have no primary reference.
    pub open spec fn swept_through(self, names: Seq<Seq<char>>, i: int) -> Repo {
        Repo {
            refs: Map::new(
                |n: Seq<char>|
                    self.refs.contains_key(n) && !(self.orphaned(n) && Branch::among(
                        names,
                        i,
                        Branch::aux_owner(n)->0,
                    )),
                |n: Seq<char>| self.refs[n],
            ),
            ..self
        }
    }

    /// The repository without the auxiliary references of the branches
    /// that have no primary reference.
    pub open spec fn swept(self) -> Repo {
        Repo {
            refs: Map::new(
                |n: Seq<char>| self.refs.contains_key(n) && !self.orphaned(n),
                |n: Seq<char>| self.refs[n],
            ),
            ..self
        }
    }

    /// Whether `after` is the repository with some of the references gone
    /// that a sweep deletes, and with nothing else changed.
    pub open spec fn partly_swept(self, after: Repo) -> bool {
        &&& self.same_but_refs(after)
        &&& forall|n: Seq<char>|
            (#[trigger] after.refs.contains_key(n) ==> self.refs.contains_key(n) && after.refs[n]
                == self.refs[n]) && (self.refs.contains_key(n) && !self.orphaned(n)
                ==> after.refs.contains_key(n))
    }

    /// Whether the branch is there and has a base reference whose target
    /// is there, and no start reference.
    pub open spec fn lacks_start(self, branch: Seq<char>) -> bool {
        &&& self.refs.contains_key(Branch::primary_ref(branch))
        &&& !self.refs.contains_key(Branch::start_ref(branch))
        &&& self.has_base(branch)
    }

    /// The fork point of the branch and the reference that its base
    /// reference names.
    pub open spec fn repair_fork(self, branch: Seq<char>) -> Option<Seq<char>> {
        self.fork_point(self.target(Branch::base_ref(branch))->0, Branch::primary_ref(branch))
    }

    pub open spec fn can_repair(self) -> bool {
        forall|b: Seq<char>| #[trigger] self.lacks_start(b) ==> self.repair_fork(b) is Some
    }

    /// Whether `name` is the start reference that a branch lacks.
    pub open spec fn start_due(self, name: Seq<char>) -> bool {
        &&& Branch::owner(Aux::Start, name) is Some
        &&& self.lacks_start(Branch::owner(Aux::Start, name)->0)
    }

    /// What a repair writes to the start reference `name`.
    pub open spec fn due_value(self, name: Seq<char>) -> RefValue {
        RefValue::Direct(self.repair_fork(Branch::owner(Aux::Start, name)->0)->0)
    }

    /// The repository with the start references written that those of the
    /// first `i` of `names` lack.
    pub open spec fn repaired_through(self, names: Seq<Seq<char>>, i: int) -> Repo {
        Repo {
            refs: Map::new(
                |n: Seq<char>|
                    self.refs.contains_key(n) || (self.start_due(n) && Branch::among(
                        names,
                        i,
                        Branch::owner(Aux::Start, n)->0,
                    )),
                |n: Seq<char>|
                    if self.refs.contains_key(n) {
                        self.refs[n]
                    } else {
                        self.due_value(n)
                    },
            ),
            ..self
        }
    }

    /// The repository with a start reference at the fork point for every
    /// branch that lacks one.
    pub open spec fn repaired(self) -> Repo {
        Repo {
            refs: Map::new(
                |n: Seq<char>| self.refs.contains_key(n) || self.start_due(n),
                |n: Seq<char>|
                    if self.refs.contains_key(n) {
                        self.refs[n]
                    } else {
                        self.due_value(n)
                    },
            ),
            ..self
        }
    }

    /// Whether `after` is the repository with some of the start references
    /// written that a repair writes, and with nothing else changed.
    pub open spec fn partly_repaired(self, after: Repo) -> bool {
        &&& self.same_but_refs(after)
        &&& forall|n: Seq<char>|
            (self.refs.contains_key(n) ==> after.refs.contains_key(n) && after.refs[n]
                == self.refs[n]) && (#[trigger] after.refs.contains_key(n)
                && !self.refs.contains_key(n) ==> self.start_due(n) && after.refs[n]
                == self.due_value(n))
    }

    /// Whether the two repositories agree in all but their references.
    pub open spec fn same_but_refs(self, other: Repo) -> bool {
        other == Repo { refs: other.refs, ..self }
    }

    /// Whether the two repositories agree in all but their references and
    /// the notes with them.
    pub open spec fn same_but_written(self, other: Repo) -> bool {
        other == Repo { refs: other.refs, notes: other.notes, ..self }
    }

    /// Whether the two repositories have the same for the reference `name`:
    /// what it stores, and its note.
    pub open spec fn same_at(self, other: Repo, name: Seq<char>) -> bool {
        &&& self.refs.contains_key(name) == other.refs.contains_key(name)
        &&& self.refs.contains_key(name) ==> self.refs[name] == other.refs[name]
        &&& self.notes.contains_key(name) == other.notes.contains_key(name)
        &&& self.notes.contains_key(name) ==> self.notes[name] == other.notes[name]
    }

    /// Whether the two repositories differ in auxiliary references at most.
    pub open spec fn aux_apart(self, other: Repo) -> bool {
        &&& self.same_but_written(other)
        &&& forall|n: Seq<char>| Branch::aux_owner(n) is None ==> #[trigger] self.same_at(other, n)
    }

    /// The repository after the first stage of a fix: paired where a branch
    /// and a base are given.
    pub open spec fn fix_paired(self, branch: Option<Seq<char>>, base: Option<Seq<char>>) -> Repo {
        if branch is Some && base is Some {
            self.paired(branch->0, base->0)
        } else {
            self
        }
    }

    /// Whether `after` is what a fix that failed can leave: the repository
    /// as it was, or with the base reference of the pairing written, or
    /// paired and swept in part, or paired, swept and repaired in part.
    pub open spec fn fix_stalled(
        self,
        branch: Option<Seq<char>>,
        base: Option<Seq<char>>,
        after: Repo,
    ) -> bool {
        let paired = self.fix_paired(branch, base);
        let pairs = branch is Some ==> base is Some && self.can_pair(branch->0, base->0);
        ||| after == self
        ||| (branch is Some && base is Some && after == self.pair_step(branch->0, base->0, 1))
        ||| (pairs && paired.partly_swept(after))
        ||| (pairs && paired.can_sweep() && paired.swept().partly_repaired(after))
    }

    /// Whether `after` is where a fix that failed stopped, going by the
    /// first of its stages that cannot go through: as it was where the
    /// pairing cannot, paired and swept in part where the sweep cannot,
    /// paired, swept and repaired in part else.
    pub open spec fn fix_stopped(
        self,
        branch: Option<Seq<char>>,
        base: Option<Seq<char>>,
        after: Repo,
    ) -> bool {
        let paired = self.fix_paired(branch, base);
        let pairs = branch is Some ==> base is Some && self.can_pair(branch->0, base->0);
        if !pairs {
            ||| after == self
            ||| (branch is Some && base is Some && after == self.pair_step(branch->0, base->0, 1))
        } else if !paired.can_sweep() {
            paired.partly_swept(after)
        } else {
            paired.swept().partly_repaired(after)
        }
    }

    /// Whether a fix goes through: the pairing, where a branch is given,
    /// then the sweep, then the repair.
    pub open spec fn can_fix(self, branch: Option<Seq<char>>, base: Option<Seq<char>>) -> bool {
        &&& branch is Some ==> base is Some && self.can_pair(branch->0, base->0)
        &&& self.fix_paired(branch, base).can_sweep()
        &&& self.fix_paired(branch, base).swept().can_repair()
    }

    /// The repository after a fix.
    pub open spec fn fixed(self, branch: Option<Seq<char>>, base: Option<Seq<char>>) -> Repo {
        self.fix_paired(branch, base).swept().repaired()
    }

    /// One step of a sweep: the next name is a branch that is there, and
    /// nothing changes, or one that is gone, and its three references go.
    pub proof fn lemma_sweep_step(self, names: Seq<Seq<char>>, i: int, after: Repo)
        requires
            0 <= i < names.len(),
            names.no_duplicates(),
            self.swept_through(names, i).same_but_refs(after),
            self.refs.contains_key(Branch::primary_ref(names[i])) ==> after.refs
                == self.swept_through(names, i).refs,
            !self.refs.contains_key(Branch::primary_ref(names[i])) ==> after.refs
                == self.swept_through(names, i).refs.remove(Branch::base_ref(names[i])).remove(
                Branch::start_ref(names[i]),
            ).remove(Branch::remote_ref(names[i])),
        ensures
            after == self.swept_through(names, i + 1),
    {
        let b = names[i];
        let cur = self.swept_through(names, i);
        let next = self.swept_through(names, i + 1);
        assert forall|n: Seq<char>| #[trigger]
            after.refs.contains_key(n) == next.refs.contains_key(n) by {
            Branch::lemma_owned(n, b);
            if Branch::aux_owner(n) is Some {
                Branch::lemma_among_step(names, i, Branch::aux_owner(n)->0);
            }
            let mine = n == Branch::base_ref(b) || n == Branch::start_ref(b) || n
                == Branch::remote_ref(b);
            if self.refs.contains_key(Branch::primary_ref(b)) {
                assert(after.refs.contains_key(n) == cur.refs.contains_key(n));
                if mine {
                    assert(!self.orphaned(n));
                }
            } else {
                if mine {
                    assert(!after.refs.contains_key(n));
                    assert(self.orphaned(n));
                    assert(Branch::among(names, i + 1, b));
                } else {
                    assert(after.refs.contains_key(n) == cur.refs.contains_key(n));
                }
            }
        }
        assert(after.refs =~= next.refs);
    }

    /// What a sweep has not come to yet is as it was.
    pub proof fn lemma_sweep_pending(self, names: Seq<Seq<char>>, i: int, kind: Aux)
        requires
            0 <= i < names.len(),
            names.no_duplicates(),
        ensures
            self.same_at(self.swept_through(names, i), Branch::aux_ref(kind, names[i])),
            Branch::aux_owner(Branch::aux_ref(kind, names[i])) == Some(names[i]),
    {
        Branch::lemma_aux_owner(kind, names[i]);
        Branch::lemma_among_step(names, i, names[i]);
    }

    /// A sweep through all the branches that have auxiliary references is
    /// the whole sweep.
    pub proof fn lemma_sweep_done(self, names: Seq<Seq<char>>)
        requires
            forall|b: Seq<char>| #[trigger] self.tracks(b) <==> names.contains(b),
        ensures
            self.swept_through(names, names.len() as int) == self.swept(),
            self.swept_through(names, 0) == self,
    {
        let all = self.swept_through(names, names.len() as int);
        assert forall|n: Seq<char>| #[trigger]
            all.refs.contains_key(n) == self.swept().refs.contains_key(n) by {
            if self.refs.contains_key(n) && self.orphaned(n) {
                let b = Branch::aux_owner(n)->0;
                Branch::lemma_owned(n, b);
                assert(self.tracks(b));
                Branch::lemma_among_ends(names, b);
            }
        }
        assert(all.refs =~= self.swept().refs);
        assert forall|n: Seq<char>| #[trigger]
            self.swept_through(names, 0).refs.contains_key(n) == self.refs.contains_key(n) by {
            Branch::lemma_among_ends(names, Branch::aux_owner(n)->0);
        }
        assert(self.swept_through(names, 0).refs =~= self.refs);
    }

    /// One step of a repair: the next name is a branch that lacks its start
    /// reference, and it is written, or one that does not, and nothing
    /// changes.
    pub proof fn lemma_repair_step(self, names: Seq<Seq<char>>, i: int, after: Repo)
        requires
            0 <= i < names.len(),
            names.no_duplicates(),
            self.lacks_start(names[i]) ==> after == self.repaired_through(names, i).with_ref(
                Branch::start_ref(names[i]),
                RefValue::Direct(self.repair_fork(names[i])->0),
            ),
            !self.lacks_start(names[i]) ==> after == self.repaired_through(names, i),
        ensures
            after == self.repaired_through(names, i + 1),
    {
        let b = names[i];
        let cur = self.repaired_through(names, i);
        let next = self.repaired_through(names, i + 1);
        Branch::lemma_owner(Aux::Start, Branch::start_ref(b), b);
        assert forall|n: Seq<char>|
            #[trigger] after.refs.contains_key(n) == next.refs.contains_key(n) && (
            after.refs.contains_key(n) ==> after.refs[n] == next.refs[n]) by {
            if Branch::owner(Aux::Start, n) is Some {
                let o = Branch::owner(Aux::Start, n)->0;
                Branch::lemma_owner(Aux::Start, n, o);
                Branch::lemma_among_step(names, i, o);
            }
            if n == Branch::start_ref(b) {
                if self.lacks_start(b) {
                    assert(self.start_due(n));
                    assert(Branch::among(names, i + 1, b));
                    assert(after.refs[n] == self.due_value(n));
                }
            } else {
                assert(after.refs.contains_key(n) == cur.refs.contains_key(n));
            }
        }
        assert(after.refs =~= next.refs);
    }

    /// What a repair reads is as it was: the references that were there,
    /// and the primary references.
    pub proof fn lemma_repair_reads(self, names: Seq<Seq<char>>, i: int, name: Seq<char>)
        requires
            self.refs.contains_key(name) || Branch::owner(Aux::Start, name) is None,
        ensures
            self.same_at(self.repaired_through(names, i), name),
            self.tip(name) == self.repaired_through(names, i).tip(name),
    {
    }

    /// A repair through all the branches that have auxiliary references is
    /// the whole repair.
    pub proof fn lemma_repair_done(self, names: Seq<Seq<char>>)
        requires
            forall|b: Seq<char>| #[trigger] self.tracks(b) <==> names.contains(b),
        ensures
            self.repaired_through(names, names.len() as int) == self.repaired(),
            self.repaired_through(names, 0) == self,
            forall|b: Seq<char>| #[trigger] self.lacks_start(b) ==> names.contains(b),
    {
        let all = self.repaired_through(names, names.len() as int);
        assert forall|b: Seq<char>| #[trigger] self.lacks_start(b) implies names.contains(b) by {
            assert(self.tracks(b));
        }
        assert forall|n: Seq<char>| #[trigger]
            all.refs.contains_key(n) == self.repaired().refs.contains_key(n) by {
            if self.start_due(n) {
                let b = Branch::owner(Aux::Start, n)->0;
                assert(self.lacks_start(b));
                Branch::lemma_among_ends(names, b);
            }
        }
        assert(all.refs =~= self.repaired().refs);
        assert forall|n: Seq<char>| #[trigger]
            self.repaired_through(names, 0).refs.contains_key(n) == self.refs.contains_key(n) by {
            Branch::lemma_among_ends(names, Branch::owner(Aux::Start, n)->0);
        }
        assert(self.repaired_through(names, 0).refs =~= self.refs);
    }

    /// What differs in auxiliary references at most, twice over, differs in
    /// auxiliary references at most.
    pub proof fn lemma_aux_apart_trans(self, mid: Repo, last: Repo)
        requires
            self.aux_apart(mid),
            mid.aux_apart(last),
        ensures
            self.aux_apart(last),
    {
        assert forall|n: Seq<char>| Branch::aux_owner(n) is None implies #[trigger] self.same_at(
            last,
            n,
        ) by {
            assert(self.same_at(mid, n));
            assert(mid.same_at(last, n));
        }
    }

    /// A sweep, whole or in part, changes auxiliary references only.
    pub proof fn lemma_swept_aux(self, after: Repo)
        ensures
            self.aux_apart(self),
            self.partly_swept(self.swept()),
            self.partly_swept(after) ==> self.aux_apart(after),
    {
        assert forall|n: Seq<char>| Branch::aux_owner(n) is None implies #[trigger] self.same_at(
            self,
            n,
        ) by {}
        if self.partly_swept(after) {
            assert forall|n: Seq<char>|
                Branch::aux_owner(n) is None implies #[trigger] self.same_at(after, n) by {
                assert(after.refs.contains_key(n) ==> self.refs.contains_key(n));
                assert(!self.orphaned(n));
            }
        }
    }

    /// A repair, whole or in part, changes auxiliary references only.
    pub proof fn lemma_repaired_aux(self, after: Repo)
        ensures
            self.partly_repaired(self.repaired()),
            self.partly_repaired(after) ==> self.aux_apart(after),
    {
        if self.partly_repaired(after) {
            assert forall|n: Seq<char>|
                Branch::aux_owner(n) is None implies #[trigger] self.same_at(after, n) by {
                assert(after.refs.contains_key(n) ==> self.refs.contains_key(n));
            }
        }
    }

    /// The steps of a pairing change auxiliary references only.
    pub proof fn lemma_paired_aux(self, branch: Seq<char>, base: Seq<char>)
        ensures
            self.aux_apart(self.pair_step(branch, base, 1)),
            self.aux_apart(self.pair_step(branch, base, 2)),
    {
        Branch::lemma_aux_owner(Aux::Base, branch);
        Branch::lemma_aux_owner(Aux::Start, branch);
        let r1 = self.pair_step(branch, base, 1);
        let r2 = self.pair_step(branch, base, 2);
        assert forall|n: Seq<char>| Branch::aux_owner(n) is None implies #[trigger] self.same_at(
            r1,
            n,
        ) by {
            assert(n != Branch::base_ref(branch));
        }
        assert forall|n: Seq<char>| Branch::aux_owner(n) is None implies #[trigger] self.same_at(
            r2,
            n,
        ) by {
            assert(n != Branch::base_ref(branch));
            assert(n != Branch::start_ref(branch));
        }
    }
}

} // verus!
