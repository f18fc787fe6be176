//! The repository as the protocol sees it: the model that the contracts of
//! the capability interface and of the stack operations speak of.

use vstd::prelude::*;
use crate::branch::Branch;
use crate::object::ObjectName;
use crate::refs::RefView;

verus! {

/// What a reference stores: an object name, or the name of another
/// reference.
pub enum RefValue {
    Direct(Seq<char>),
    Symbolic(Seq<char>),
}

/// The repository as the protocol sees it.
///
/// `refs` holds the branches and the auxiliary references. `notes` holds,
/// for a symbolic reference, the note that it was last written with.
/// `upstream` gives
/// the remote that a reference is associated with. `head` is the branch
/// that is checked out. `config` is the set of (key, value) pairs of the
/// multi-valued configuration. `tracking` gives, for a remote and a branch
/// name, the commit that the repository last saw the remote have for it.
/// `remote_tips` gives, for a remote and a
/// branch name, the commit that the remote has for it. `merge_bases` and
/// `replays` say what the object store answers: the nearest common ancestor
/// of two different commits, and the commit that comes of replaying the
/// commits after a start up to a tip onto another commit. `valid_names`
/// holds the texts that are accepted as branch names.
pub struct Repo {
    pub refs: Map<Seq<char>, RefValue>,
    pub notes: Map<Seq<char>, Seq<char>>,
    pub upstream: Map<Seq<char>, Seq<char>>,
    pub head: Option<Seq<char>>,
    pub config: Set<(Seq<char>, Seq<char>)>,
    pub tracking: Map<(Seq<char>, Seq<char>), Seq<char>>,
    pub remote_tips: Map<(Seq<char>, Seq<char>), Seq<char>>,
    pub merge_bases: Map<(Seq<char>, Seq<char>), Seq<char>>,
    pub replays: Map<(Seq<char>, Seq<char>, Seq<char>), Seq<char>>,
    pub valid_names: Set<Seq<char>>,
}

impl Repo {
    /// The commit that the direct reference `name` holds.
    pub open spec fn tip(self, name: Seq<char>) -> Option<Seq<char>> {
        if self.refs.contains_key(name) {
            match self.refs[name] {
                RefValue::Direct(o) => Some(o),
                RefValue::Symbolic(_) => None,
            }
        } else {
            None
        }
    }

    /// The reference that the symbolic reference `name` names.
    pub open spec fn target(self, name: Seq<char>) -> Option<Seq<char>> {
        if self.refs.contains_key(name) {
            match self.refs[name] {
                RefValue::Direct(_) => None,
                RefValue::Symbolic(t) => Some(t),
            }
        } else {
            None
        }
    }

    /// The object that a snapshot shows for `name`: what a direct reference
    /// holds, what the target of a symbolic one holds, and "no such object"
    /// where that target holds no commit.
    pub open spec fn resolved(self, name: Seq<char>) -> Seq<char> {
        match self.refs[name] {
            RefValue::Direct(o) => o,
            RefValue::Symbolic(t) => match self.tip(t) {
                Some(o) => o,
                None => ObjectName::absent(),
            },
        }
    }

    /// The reference called `name` as a snapshot shows it.
    pub open spec fn shown(self, name: Seq<char>) -> RefView {
        RefView {
            name,
            objectname: self.resolved(name),
            symref_target: self.target(name),
            remote: if self.upstream.contains_key(name) {
                Some(self.upstream[name])
            } else {
                None
            },
        }
    }

    /// What a snapshot of the repository shows.
    pub open spec fn snapshot(self) -> Map<Seq<char>, RefView> {
        Map::new(|n: Seq<char>| self.refs.contains_key(n), |n: Seq<char>| self.shown(n))
    }

    /// What a compare-and-swap write holds against its expected value: the
    /// commit of a direct reference, "no such object" for a missing one.
    /// A symbolic reference has no such value.
    pub open spec fn stored(self, name: Seq<char>) -> Option<Seq<char>> {
        if self.refs.contains_key(name) {
            self.tip(name)
        } else {
            Some(ObjectName::absent())
        }
    }

    pub open spec fn with_ref(self, name: Seq<char>, value: RefValue) -> Repo {
        Repo { refs: self.refs.insert(name, value), ..self }
    }

    /// The repository with `name` a symbolic reference to `target`, written
    /// with `note`.
    pub open spec fn with_symref(
        self,
        name: Seq<char>,
        target: Seq<char>,
        note: Seq<char>,
    ) -> Repo {
        Repo {
            refs: self.refs.insert(name, RefValue::Symbolic(target)),
            notes: self.notes.insert(name, note),
            ..self
        }
    }

    pub open spec fn without_ref(self, name: Seq<char>) -> Repo {
        Repo { refs: self.refs.remove(name), ..self }
    }

    /// What the remote has for the branch, "no such object" where it has
    /// no such branch.
    pub open spec fn remote_tip(self, remote: Seq<char>, branch: Seq<char>) -> Seq<char> {
        if self.remote_tips.contains_key((remote, branch)) {
            self.remote_tips[(remote, branch)]
        } else {
            ObjectName::absent()
        }
    }

    /// The nearest common ancestor of two commits; of a commit and itself,
    /// the commit.
    pub open spec fn merge_base(self, a: Seq<char>, b: Seq<char>) -> Option<Seq<char>> {
        if a == b {
            Some(a)
        } else if self.merge_bases.contains_key((a, b)) {
            Some(self.merge_bases[(a, b)])
        } else {
            None
        }
    }

    /// The commit that comes of replaying the commits after `start` up to
    /// `tip` onto `onto`; `tip` itself where `onto` is `start`. `None` is a
    /// conflict.
    pub open spec fn replay(self, start: Seq<char>, tip: Seq<char>, onto: Seq<char>) -> Option<
        Seq<char>,
    > {
        if start == onto {
            Some(tip)
        } else if self.replays.contains_key((start, tip, onto)) {
            Some(self.replays[(start, tip, onto)])
        } else {
            None
        }
    }

    /// Whether the branch called `name` has an auxiliary reference.
    pub open spec fn tracks(self, name: Seq<char>) -> bool {
        ||| self.refs.contains_key(Branch::base_ref(name))
        ||| self.refs.contains_key(Branch::start_ref(name))
        ||| self.refs.contains_key(Branch::remote_ref(name))
    }

    pub open spec fn can_create_branch(self, new: Seq<char>, base: Seq<char>) -> bool {
        &&& !self.refs.contains_key(Branch::primary_ref(new))
        &&& self.tip(Branch::primary_ref(base)) is Some
    }

    /// The new branch stands where the base stands.
    pub open spec fn create_branch(self, new: Seq<char>, base: Seq<char>) -> Repo {
        self.with_ref(
            Branch::primary_ref(new),
            RefValue::Direct(self.tip(Branch::primary_ref(base))->0),
        )
    }

    pub open spec fn can_switch(self, branch: Seq<char>) -> bool {
        self.refs.contains_key(Branch::primary_ref(branch))
    }

    pub open spec fn switch(self, branch: Seq<char>) -> Repo {
        Repo { head: Some(branch), ..self }
    }

    /// The repository with no branch checked out.
    pub open spec fn detached(self) -> Repo {
        Repo { head: None, ..self }
    }

    pub open spec fn can_update_ref(self, name: Seq<char>, expected: Seq<char>) -> bool {
        self.stored(name) == Some(expected)
    }

    pub open spec fn can_delete_ref(self, name: Seq<char>, expected: Seq<char>) -> bool {
        self.tip(name) == Some(expected)
    }

    pub open spec fn can_delete_symref(self, name: Seq<char>) -> bool {
        self.target(name) is Some
    }

    pub open spec fn can_push(
        self,
        branch: Seq<char>,
        remote: Option<Seq<char>>,
        expected: Seq<char>,
    ) -> bool {
        &&& remote is Some
        &&& self.tip(Branch::primary_ref(branch)) is Some
        &&& self.remote_tip(remote->0, branch) == expected
    }

    /// The remote has the branch where the branch stands here, and the
    /// repository has seen it.
    pub open spec fn push(self, branch: Seq<char>, remote: Seq<char>) -> Repo {
        Repo {
            tracking: self.tracking.insert(
                (remote, branch),
                self.tip(Branch::primary_ref(branch))->0,
            ),
            remote_tips: self.remote_tips.insert(
                (remote, branch),
                self.tip(Branch::primary_ref(branch))->0,
            ),
            ..self
        }
    }

    /// The repository after a fetch from all remotes that prunes what they
    /// deleted: it has seen what the remotes have, and nothing else.
    pub open spec fn fetched(self) -> Repo {
        Repo { tracking: self.remote_tips, ..self }
    }

    /// Whether the two repositories agree in all but what they have seen of
    /// the remotes.
    pub open spec fn same_but_seen(self, other: Repo) -> bool {
        other == Repo { tracking: other.tracking, ..self }
    }

    /// The commit that stands at the end of the base reference of the
    /// branch: where its rebase goes.
    pub open spec fn base_tip(self, branch: Seq<char>) -> Option<Seq<char>> {
        match self.target(Branch::base_ref(branch)) {
            Some(t) => self.tip(t),
            None => None,
        }
    }

    /// Where the branch stands after its rebase.
    pub open spec fn rebased_tip(self, branch: Seq<char>) -> Option<Seq<char>> {
        let onto = self.base_tip(branch);
        let start = self.tip(Branch::start_ref(branch));
        let tip = self.tip(Branch::primary_ref(branch));
        if onto is Some && start is Some && tip is Some {
            self.replay(start->0, tip->0, onto->0)
        } else {
            None
        }
    }

    pub open spec fn rebase_onto(self, branch: Seq<char>) -> Repo {
        self.with_ref(Branch::primary_ref(branch), RefValue::Direct(self.rebased_tip(branch)->0))
    }

    /// The fork point of two references: the nearest common ancestor of the
    /// commits that the two hold.
    pub open spec fn fork_point(self, base: Seq<char>, branch: Seq<char>) -> Option<Seq<char>> {
        let a = self.tip(base);
        let b = self.tip(branch);
        if a is Some && b is Some {
            self.merge_base(a->0, b->0)
        } else {
            None
        }
    }

    pub open spec fn config_add(self, key: Seq<char>, value: Seq<char>) -> Repo {
        Repo { config: self.config.insert((key, value)), ..self }
    }

    pub open spec fn config_unset(self, key: Seq<char>, value: Seq<char>) -> Repo {
        Repo { config: self.config.remove((key, value)), ..self }
    }
}

} // verus!
