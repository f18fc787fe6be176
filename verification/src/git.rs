//! The capability interface: what the stack operations ask of the
//! version-control system.

use vstd::prelude::*;
use crate::branch::Branch;
use crate::object::ObjectName;
use crate::object::Status;
use crate::refs::RefSnapshot;
use crate::refs::text_view;
use crate::repo::Repo;
use crate::repo::RefValue;

verus! {

/// What the protocol asks of the version-control system.
///
/// An implementation stands for a repository, `repo()`. Every call may
/// fail. A call that fails leaves the repository as it was, but that a
/// rebase that fails may leave no branch checked out, and a fetch that
/// fails may have seen some of the remotes; one that succeeds
/// found the condition that its contract names and made the change that it
/// names. The contracts describe the repository as the calls through this
/// handle change it, with no other writer in between.
///
/// An implementation for which `reliable()` holds never fails but for the
/// reason that the contract names.
pub trait Git {
    /// The repository that the handle stands for.
    spec fn repo(&self) -> Repo;

    /// Whether the implementation fails only where the contract of the call
    /// names the reason. Unless an implementation says so, it does not.
    open spec fn reliable() -> bool {
        false
    }

    /// Adds `value` to the values of the configuration key.
    fn config_add(&mut self, key: &str, value: &str) -> (r: Result<(), Status>)
        ensures
            r is Ok ==> final(self).repo() == old(self).repo().config_add(key@, value@),
            r is Err ==> final(self).repo() == old(self).repo(),
            Self::reliable() ==> r is Ok,
    ;

    /// Removes from the values of the configuration key those equal to
    /// `pattern`.
    fn config_unset_pattern(&mut self, key: &str, pattern: &str) -> (r: Result<(), Status>)
        ensures
            r is Ok ==> final(self).repo() == old(self).repo().config_unset(key@, pattern@),
            r is Err ==> final(self).repo() == old(self).repo(),
            Self::reliable() ==> r is Ok,
    ;

    /// Reads the references.
    fn snapshot(&self) -> (r: Result<RefSnapshot, Status>)
        ensures
            r matches Ok(s) ==> s@ == self.repo().snapshot(),
            Self::reliable() ==> r is Ok,
    ;

    /// The branch that is checked out.
    fn head(&self) -> (r: Result<Branch, Status>)
        ensures
            r matches Ok(b) ==> self.repo().head == Some(b@),
            Self::reliable() && self.repo().head is Some ==> r is Ok,
    ;

    /// The branch called `name`, where that is a name for a branch.
    fn check_branchname(&self, name: &str) -> (r: Result<Branch, Status>)
        ensures
            r matches Ok(b) ==> b@ == name@ && self.repo().valid_names.contains(name@),
            Self::reliable() && self.repo().valid_names.contains(name@) ==> r is Ok,
    ;

    /// Makes the branch `new` where `base` stands. Fails where `new` exists.
    fn create_branch(&mut self, new: &Branch, base: &Branch) -> (r: Result<(), Status>)
        ensures
            r is Ok ==> old(self).repo().can_create_branch(new@, base@),
            r is Ok ==> final(self).repo() == old(self).repo().create_branch(new@, base@),
            r is Err ==> final(self).repo() == old(self).repo(),
            Self::reliable() && old(self).repo().can_create_branch(new@, base@) ==> r is Ok,
    ;

    /// Checks the branch out.
    fn switch_branch(&mut self, branch: &Branch) -> (r: Result<(), Status>)
        ensures
            r is Ok ==> old(self).repo().can_switch(branch@),
            r is Ok ==> final(self).repo() == old(self).repo().switch(branch@),
            r is Err ==> final(self).repo() == old(self).repo(),
            Self::reliable() && old(self).repo().can_switch(branch@) ==> r is Ok,
    ;

    /// Makes `name` a symbolic reference to `target`, whatever it was, and
    /// leaves `note` with it.
    fn create_symref(&mut self, name: &str, target: &str, note: &str) -> (r: Result<(), Status>)
        ensures
            r is Ok ==> final(self).repo() == old(self).repo().with_symref(
                name@,
                target@,
                note@,
            ),
            r is Err ==> final(self).repo() == old(self).repo(),
            Self::reliable() ==> r is Ok,
    ;

    /// Makes `name` a direct reference to `object`, whatever it was.
    fn create_ref(&mut self, name: &str, object: &ObjectName) -> (r: Result<(), Status>)
        ensures
            r is Ok ==> final(self).repo() == old(self).repo().with_ref(
                name@,
                RefValue::Direct(object@),
            ),
            r is Err ==> final(self).repo() == old(self).repo(),
            Self::reliable() ==> r is Ok,
    ;

    /// Moves `name` to `new`, where it holds `expected`.
    fn update_ref(&mut self, name: &str, new: &ObjectName, expected: &ObjectName) -> (r: Result<
        (),
        Status,
    >)
        ensures
            r is Ok ==> old(self).repo().can_update_ref(name@, expected@),
            r is Ok ==> final(self).repo() == old(self).repo().with_ref(
                name@,
                RefValue::Direct(new@),
            ),
            r is Err ==> final(self).repo() == old(self).repo(),
            Self::reliable() && old(self).repo().can_update_ref(name@, expected@) ==> r is Ok,
    ;

    /// Deletes the direct reference `name`, where it holds `expected`.
    fn delete_ref(&mut self, name: &str, expected: &ObjectName) -> (r: Result<(), Status>)
        ensures
            r is Ok ==> old(self).repo().can_delete_ref(name@, expected@),
            r is Ok ==> final(self).repo() == old(self).repo().without_ref(name@),
            r is Err ==> final(self).repo() == old(self).repo(),
            Self::reliable() && old(self).repo().can_delete_ref(name@, expected@) ==> r is Ok,
    ;

    /// Deletes the symbolic reference `name`.
    fn delete_symref(&mut self, name: &str) -> (r: Result<(), Status>)
        ensures
            r is Ok ==> old(self).repo().can_delete_symref(name@),
            r is Ok ==> final(self).repo() == old(self).repo().without_ref(name@),
            r is Err ==> final(self).repo() == old(self).repo(),
            Self::reliable() && old(self).repo().can_delete_symref(name@) ==> r is Ok,
    ;

    /// Publishes the branch to the remote, where the remote has `expected`
    /// for it.
    fn push(&mut self, branch: &Branch, remote: &Option<String>, expected: &ObjectName) -> (r:
        Result<(), Status>)
        ensures
            r is Ok ==> old(self).repo().can_push(branch@, text_view(*remote), expected@),
            r is Ok ==> final(self).repo() == old(self).repo().push(
                branch@,
                text_view(*remote)->0,
            ),
            r is Err ==> final(self).repo() == old(self).repo(),
            Self::reliable() && old(self).repo().can_push(
                branch@,
                text_view(*remote),
                expected@,
            ) ==> r is Ok,
    ;

    /// Replays the commits of the branch after its start onto the commit
    /// at the end of its base. Where it fails the branch is where it was,
    /// and the rebase may be left open, with no branch checked out.
    fn rebase_onto(&mut self, branch: &Branch) -> (r: Result<(), Status>)
        ensures
            r is Ok ==> old(self).repo().rebased_tip(branch@) is Some,
            r is Ok ==> final(self).repo() == old(self).repo().rebase_onto(branch@),
            r is Err ==> {
                ||| final(self).repo() == old(self).repo()
                ||| final(self).repo() == old(self).repo().detached()
            },
            Self::reliable() && old(self).repo().rebased_tip(branch@) is Some ==> r is Ok,
    ;

    /// Fetches from all remotes and prunes what they deleted: the
    /// repository then has seen what the remotes have.
    fn fetch_all_prune(&mut self) -> (r: Result<(), Status>)
        ensures
            r is Ok ==> final(self).repo() == old(self).repo().fetched(),
            r is Err ==> old(self).repo().same_but_seen(final(self).repo()),
            Self::reliable() ==> r is Ok,
    ;

    /// The fork point of the two references.
    fn forkpoint(&self, base: &str, branch: &str) -> (r: Result<ObjectName, Status>)
        ensures
            r matches Ok(o) ==> self.repo().fork_point(base@, branch@) == Some(o@),
            Self::reliable() && self.repo().fork_point(base@, branch@) is Some ==> r is Ok,
    ;

    /// Every branch that has an auxiliary reference, once.
    fn tracked_branches(&self) -> (r: Result<Vec<Branch>, Status>)
        ensures
            r matches Ok(v) ==> {
                &&& Branch::names(v@).no_duplicates()
                &&& forall|b: Seq<char>| #[trigger]
                    self.repo().tracks(b) <==> Branch::names(v@).contains(b)
            },
            Self::reliable() ==> r is Ok,
    ;
}

} // verus!
