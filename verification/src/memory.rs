//! A repository in memory that implements the capability interface.

use vstd::prelude::*;
use crate::branch::Branch;
use crate::git::Git;
use crate::object::ObjectName;
use crate::object::Status;
use crate::refs::Ref;
use crate::refs::RefSnapshot;
use crate::refs::text_view;
use crate::repo::RefValue;
use crate::repo::Repo;
use crate::table::Key;
use crate::table::Table;

verus! {

/// What a reference of the repository in memory stores: the name of a
/// commit, or the name of another reference.
pub enum Stored {
    Direct(ObjectName),
    Symbolic(String),
}

impl View for Stored {
    type V = RefValue;

    open spec fn view(&self) -> RefValue {
        match self {
            Stored::Direct(o) => RefValue::Direct(o@),
            Stored::Symbolic(t) => RefValue::Symbolic(t@),
        }
    }
}

/// A repository in memory: the references, the checkout, the configuration
/// and what the remotes hold, with tables for what the object store would
/// answer. It fails only where the contract of a call names the reason.
pub struct MemGit {
    refs: Table<String, Stored>,
    notes: Table<String, String>,
    upstream: Table<String, String>,
    head: Option<String>,
    config: Table<(String, String), bool>,
    tracking: Table<(String, String), ObjectName>,
    remote_tips: Table<(String, String), ObjectName>,
    merge_bases: Table<(String, String), ObjectName>,
    replays: Table<(String, String, String), ObjectName>,
}

impl MemGit {
    /// Whether a character may not stand in a branch name.
    pub open spec fn barred(c: char) -> bool {
        ||| c == ' '
        ||| c == '~'
        ||| c == '^'
        ||| c == ':'
        ||| c == '?'
        ||| c == '*'
        ||| c == '['
        ||| c == '\\'
        ||| (c as u32) < 32
        ||| c as u32 == 127
    }

    /// The texts that this repository takes as branch names: not empty, not
    /// beginning with a hyphen, and without a barred character.
    pub open spec fn name_ok(name: Seq<char>) -> bool {
        &&& name.len() > 0
        &&& name[0] != '-'
        &&& forall|i: int| 0 <= i < name.len() ==> !Self::barred(#[trigger] name[i])
    }

    /// The repository with nothing in it and nothing checked out.
    pub fn new() -> (r: Self)
        ensures
            r.repo().refs == Map::<Seq<char>, RefValue>::empty(),
            r.repo().notes == Map::<Seq<char>, Seq<char>>::empty(),
            r.repo().upstream == Map::<Seq<char>, Seq<char>>::empty(),
            r.repo().head == None::<Seq<char>>,
            r.repo().config == Set::<(Seq<char>, Seq<char>)>::empty(),
            r.repo().tracking == Map::<(Seq<char>, Seq<char>), Seq<char>>::empty(),
            r.repo().remote_tips == Map::<(Seq<char>, Seq<char>), Seq<char>>::empty(),
            r.repo().merge_bases == Map::<(Seq<char>, Seq<char>), Seq<char>>::empty(),
            r.repo().replays == Map::<(Seq<char>, Seq<char>, Seq<char>), Seq<char>>::empty(),
            r.repo().valid_names == Set::new(|n: Seq<char>| Self::name_ok(n)),
    {
        let r = MemGit {
            refs: Table::new(),
            notes: Table::new(),
            upstream: Table::new(),
            head: None,
            config: Table::new(),
            tracking: Table::new(),
            remote_tips: Table::new(),
            merge_bases: Table::new(),
            replays: Table::new(),
        };
        assert(r.config@.dom() =~= Set::<(Seq<char>, Seq<char>)>::empty());
        r
    }

    /// Puts the branch at the commit, whether or not the branch was there.
    pub fn commit(&mut self, branch: &str, object: &str)
        ensures
            final(self).repo() == old(self).repo().with_ref(
                Branch::primary_ref(branch@),
                RefValue::Direct(object@),
            ),
    {
        let name = Branch::new(String::from_str(branch)).refname();
        self.refs.insert(name, Stored::Direct(ObjectName::new(String::from_str(object))));
    }

    /// Deletes the branch, and nothing else.
    pub fn delete_branch(&mut self, branch: &str)
        ensures
            final(self).repo() == old(self).repo().without_ref(Branch::primary_ref(branch@)),
    {
        let name = Branch::new(String::from_str(branch)).refname();
        self.refs.remove(&name);
    }

    /// Checks the branch out, whether or not it is there.
    pub fn checkout(&mut self, branch: &str)
        ensures
            final(self).repo() == old(self).repo().switch(branch@),
    {
        self.head = Some(String::from_str(branch));
    }

    /// Associates the branch with the remote.
    pub fn set_upstream(&mut self, branch: &str, remote: &str)
        ensures
            final(self).repo() == (Repo {
                upstream: old(self).repo().upstream.insert(Branch::primary_ref(branch@), remote@),
                ..old(self).repo()
            }),
    {
        let name = Branch::new(String::from_str(branch)).refname();
        self.upstream.insert(name, String::from_str(remote));
    }

    /// Says what the remote has for the branch.
    pub fn set_remote_tip(&mut self, remote: &str, branch: &str, object: &str)
        ensures
            final(self).repo() == (Repo {
                remote_tips: old(self).repo().remote_tips.insert((remote@, branch@), object@),
                ..old(self).repo()
            }),
    {
        self.remote_tips.insert(
            (String::from_str(remote), String::from_str(branch)),
            ObjectName::new(String::from_str(object)),
        );
    }

    /// Says what the nearest common ancestor of the commits `a` and `b` is.
    pub fn set_merge_base(&mut self, a: &str, b: &str, base: &str)
        ensures
            final(self).repo() == (Repo {
                merge_bases: old(self).repo().merge_bases.insert((a@, b@), base@),
                ..old(self).repo()
            }),
    {
        self.merge_bases.insert(
            (String::from_str(a), String::from_str(b)),
            ObjectName::new(String::from_str(base)),
        );
    }

    /// Says what comes of replaying the commits after `start` up to `tip`
    /// onto `onto`.
    pub fn set_replay(&mut self, start: &str, tip: &str, onto: &str, result: &str)
        ensures
            final(self).repo() == (Repo {
                replays: old(self).repo().replays.insert((start@, tip@, onto@), result@),
                ..old(self).repo()
            }),
    {
        self.replays.insert(
            (String::from_str(start), String::from_str(tip), String::from_str(onto)),
            ObjectName::new(String::from_str(result)),
        );
    }

    /// Whether there is a reference called `name`.
    pub fn has_ref(&self, name: &str) -> (r: bool)
        ensures
            r == self.repo().refs.contains_key(name@),
    {
        self.refs.contains(&String::from_str(name))
    }

    /// The commit that the direct reference `name` holds.
    pub fn object_at(&self, name: &str) -> (r: Option<ObjectName>)
        ensures
            match r {
                Some(o) => self.repo().tip(name@) == Some(o@),
                None => self.repo().tip(name@) is None,
            },
    {
        match self.refs.get(&String::from_str(name)) {
            Some(Stored::Direct(o)) => Some(o.clone()),
            _ => None,
        }
    }

    /// The reference that the symbolic reference `name` names.
    pub fn target_at(&self, name: &str) -> (r: Option<String>)
        ensures
            text_view(r) == self.repo().target(name@),
    {
        match self.refs.get(&String::from_str(name)) {
            Some(Stored::Symbolic(t)) => Some(t.clone()),
            _ => None,
        }
    }

    /// The note that the symbolic reference `name` was last written with.
    pub fn note_at(&self, name: &str) -> (r: Option<String>)
        ensures
            match r {
                Some(n) => self.repo().notes.contains_key(name@) && self.repo().notes[name@]
                    == n@,
                None => !self.repo().notes.contains_key(name@),
            },
    {
        match self.notes.get(&String::from_str(name)) {
            Some(n) => Some(n.clone()),
            None => None,
        }
    }

    /// The branch that is checked out.
    pub fn current_branch(&self) -> (r: Option<String>)
        ensures
            text_view(r) == self.repo().head,
    {
        match &self.head {
            Some(h) => Some(h.clone()),
            None => None,
        }
    }

    /// What the remote has for the branch.
    pub fn remote_object(&self, remote: &str, branch: &str) -> (r: Option<ObjectName>)
        ensures
            match r {
                Some(o) => self.repo().remote_tips.contains_key((remote@, branch@))
                    && self.repo().remote_tips[(remote@, branch@)] == o@,
                None => !self.repo().remote_tips.contains_key((remote@, branch@)),
            },
    {
        match self.remote_tips.get(&(String::from_str(remote), String::from_str(branch))) {
            Some(o) => Some(o.clone()),
            None => None,
        }
    }

    /// What the repository last saw the remote have for the branch.
    pub fn seen_object(&self, remote: &str, branch: &str) -> (r: Option<ObjectName>)
        ensures
            match r {
                Some(o) => self.repo().tracking.contains_key((remote@, branch@))
                    && self.repo().tracking[(remote@, branch@)] == o@,
                None => !self.repo().tracking.contains_key((remote@, branch@)),
            },
    {
        match self.tracking.get(&(String::from_str(remote), String::from_str(branch))) {
            Some(o) => Some(o.clone()),
            None => None,
        }
    }

    /// Whether the configuration key has the value.
    pub fn config_has(&self, key: &str, value: &str) -> (r: bool)
        ensures
            r == self.repo().config.contains((key@, value@)),
    {
        self.config.contains(&(String::from_str(key), String::from_str(value)))
    }

    /// The number of references.
    pub fn ref_count(&self) -> (r: usize)
        ensures
            r == self.repo().refs.dom().len(),
            self.repo().refs.dom().finite(),
    {
        let n = self.refs.len();
        proof {
            self.refs.key_seq().unique_seq_to_set();
        }
        n
    }

    /// Whether the text is taken as a branch name.
    pub fn name_is_ok(name: &str) -> (r: bool)
        ensures
            r == Self::name_ok(name@),
    {
        let n: usize = name.unicode_len();
        if n == 0 {
            return false;
        }
        if name.get_char(0) == '-' {
            return false;
        }
        let mut i: usize = 0;
        while i < n
            invariant
                i <= n,
                n == name@.len(),
                forall|j: int| 0 <= j < i ==> !Self::barred(#[trigger] name@[j]),
            decreases n - i,
        {
            let c = name.get_char(i);
            let code: u32 = c as u32;
            if c == ' ' || c == '~' || c == '^' || c == ':' || c == '?' || c == '*' || c == '['
                || c == '\\' || code < 32 || code == 127 {
                assert(Self::barred(name@[i as int]));
                return false;
            }
            i += 1;
        }
        true
    }

    fn tip_of(&self, name: &String) -> (r: Option<ObjectName>)
        ensures
            match r {
                Some(o) => self.repo().tip(name@) == Some(o@),
                None => self.repo().tip(name@) is None,
            },
    {
        match self.refs.get(name) {
            Some(Stored::Direct(o)) => Some(o.clone()),
            _ => None,
        }
    }

    fn target_of(&self, name: &String) -> (r: Option<String>)
        ensures
            text_view(r) == self.repo().target(name@),
    {
        match self.refs.get(name) {
            Some(Stored::Symbolic(t)) => Some(t.clone()),
            _ => None,
        }
    }

    /// The failure with status 1 that says `text` on its error stream.
    fn failure(text: &str) -> (r: Result<(), Status>)
        ensures
            (r matches Err(s) && s@ == Status::told(text@)),
    {
        Err(Status::saying(text))
    }

    /// A copy of what the remotes have.
    fn tips_copied(&self) -> (r: Table<(String, String), ObjectName>)
        ensures
            r@ == self.repo().remote_tips,
    {
        let mut copy: Table<(String, String), ObjectName> = Table::new();
        let n: usize = self.remote_tips.len();
        let ghost keys = self.remote_tips.key_seq();
        let mut i: usize = 0;
        while i < n
            invariant
                i <= n,
                n == keys.len(),
                keys == self.remote_tips.key_seq(),
                forall|k: (Seq<char>, Seq<char>)|
                    copy@.contains_key(k) <==> exists|j: int| 0 <= j < i && #[trigger] keys[j] == k,
                forall|k: (Seq<char>, Seq<char>)| #[trigger]
                    copy@.contains_key(k) ==> copy@[k] == self.remote_tips@[k],
            decreases n - i,
        {
            let key = self.remote_tips.key_at(i);
            let value = self.remote_tips.value_at(i);
            let ghost before = copy@;
            copy.insert(key.duplicate(), value.clone());
            proof {
                assert forall|k: (Seq<char>, Seq<char>)|
                    copy@.contains_key(k) <==> exists|j: int|
                        0 <= j < i + 1 && #[trigger] keys[j] == k by {
                    if before.contains_key(k) {
                        let j = choose|j: int| 0 <= j < i && #[trigger] keys[j] == k;
                        assert(0 <= j < i + 1 && keys[j] == k);
                    }
                    if k == keys[i as int] {
                        assert(0 <= i < i + 1 && keys[i as int] == k);
                    }
                    if exists|j: int| 0 <= j < i + 1 && #[trigger] keys[j] == k {
                        let j = choose|j: int| 0 <= j < i + 1 && #[trigger] keys[j] == k;
                        if j < i {
                            assert(before.contains_key(k));
                        }
                    }
                }
            }
            i += 1;
        }
        proof {
            assert forall|k: (Seq<char>, Seq<char>)|
                copy@.contains_key(k) <==> self.remote_tips@.contains_key(k) by {
                if copy@.contains_key(k) {
                    let j = choose|j: int| 0 <= j < n && #[trigger] keys[j] == k;
                    assert(keys.contains(k));
                }
                if self.remote_tips@.contains_key(k) {
                    assert(keys.contains(k));
                    let j = choose|j: int| 0 <= j < keys.len() && keys[j] == k;
                    assert(0 <= j < n && keys[j] == k);
                }
            }
            assert(copy@ =~= self.remote_tips@);
        }
        copy
    }
}

impl Git for MemGit {
    closed spec fn repo(&self) -> Repo {
        Repo {
            refs: self.refs@,
            notes: self.notes@,
            upstream: self.upstream@,
            head: text_view(self.head),
            config: self.config@.dom(),
            tracking: self.tracking@,
            remote_tips: self.remote_tips@,
            merge_bases: self.merge_bases@,
            replays: self.replays@,
            valid_names: Set::new(|n: Seq<char>| Self::name_ok(n)),
        }
    }

    open spec fn reliable() -> bool {
        true
    }

    fn config_add(&mut self, key: &str, value: &str) -> (r: Result<(), Status>) {
        self.config.insert((String::from_str(key), String::from_str(value)), true);
        assert(self.config@.dom() =~= old(self).config@.dom().insert((key@, value@)));
        Ok(())
    }

    fn config_unset_pattern(&mut self, key: &str, pattern: &str) -> (r: Result<(), Status>) {
        self.config.remove(&(String::from_str(key), String::from_str(pattern)));
        assert(self.config@.dom() =~= old(self).config@.dom().remove((key@, pattern@)));
        Ok(())
    }

    fn snapshot(&self) -> (r: Result<RefSnapshot, Status>) {
        let mut snap = RefSnapshot::new();
        let n: usize = self.refs.len();
        let ghost keys = self.refs.key_seq();
        let mut i: usize = 0;
        proof {
            assert forall|k: Seq<char>| snap@.contains_key(k) <==> Branch::among(
                keys,
                0,
                k,
            ) by {
                Branch::lemma_among_ends(keys, k);
            }
        }
        while i < n
            invariant
                i <= n,
                n == keys.len(),
                keys == self.refs.key_seq(),
                forall|k: Seq<char>| snap@.contains_key(k) <==> Branch::among(keys, i as int, k),
                forall|k: Seq<char>| #[trigger]
                    snap@.contains_key(k) ==> snap@[k] == self.repo().shown(k),
            decreases n - i,
        {
            let name = self.refs.key_at(i);
            let value = self.refs.value_at(i);
            let objectname = match value {
                Stored::Direct(o) => o.clone(),
                Stored::Symbolic(t) => match self.tip_of(t) {
                    Some(o) => o,
                    None => ObjectName::none(),
                },
            };
            let symref_target = match value {
                Stored::Direct(_) => None,
                Stored::Symbolic(t) => Some(t.clone()),
            };
            let remote = match self.upstream.get(name) {
                Some(found) => Some(found.clone()),
                None => None,
            };
            snap.insert(Ref { name: name.clone(), objectname, symref_target, remote });
            proof {
                assert forall|k: Seq<char>| snap@.contains_key(k) <==> Branch::among(
                    keys,
                    i as int + 1,
                    k,
                ) by {
                    Branch::lemma_among_step(keys, i as int, k);
                }
            }
            i += 1;
        }
        proof {
            assert forall|k: Seq<char>| snap@.contains_key(k) <==> self.repo().refs.contains_key(
                k,
            ) by {
                Branch::lemma_among_ends(keys, k);
            }
            assert(snap@ =~= self.repo().snapshot());
        }
        Ok(snap)
    }

    fn head(&self) -> (r: Result<Branch, Status>) {
        match &self.head {
            Some(h) => Ok(Branch::new(h.clone())),
            None => Err(Status::saying("not on a branch")),
        }
    }

    fn check_branchname(&self, name: &str) -> (r: Result<Branch, Status>) {
        if Self::name_is_ok(name) {
            Ok(Branch::new(String::from_str(name)))
        } else {
            Err(Status::saying("not a branch name"))
        }
    }

    fn create_branch(&mut self, new: &Branch, base: &Branch) -> (r: Result<(), Status>) {
        let name = new.refname();
        if self.refs.contains(&name) {
            return Self::failure("the branch exists");
        }
        match self.tip_of(&base.refname()) {
            Some(at) => {
                self.refs.insert(name, Stored::Direct(at));
                Ok(())
            },
            None => Self::failure("the base is no branch"),
        }
    }

    fn switch_branch(&mut self, branch: &Branch) -> (r: Result<(), Status>) {
        if self.refs.contains(&branch.refname()) {
            self.head = Some(String::from_str(branch.name()));
            Ok(())
        } else {
            Self::failure("no such branch")
        }
    }

    fn create_symref(&mut self, name: &str, target: &str, note: &str) -> (r: Result<(), Status>) {
        self.refs.insert(String::from_str(name), Stored::Symbolic(String::from_str(target)));
        self.notes.insert(String::from_str(name), String::from_str(note));
        Ok(())
    }

    fn create_ref(&mut self, name: &str, object: &ObjectName) -> (r: Result<(), Status>) {
        self.refs.insert(String::from_str(name), Stored::Direct(object.clone()));
        Ok(())
    }

    fn update_ref(&mut self, name: &str, new: &ObjectName, expected: &ObjectName) -> (r: Result<
        (),
        Status,
    >) {
        let key = String::from_str(name);
        let holds = match self.refs.get(&key) {
            Some(Stored::Direct(o)) => o.same(expected),
            Some(Stored::Symbolic(_)) => false,
            None => expected.same(&ObjectName::none()),
        };
        if holds {
            self.refs.insert(key, Stored::Direct(new.clone()));
            Ok(())
        } else {
            Self::failure("the reference holds another value")
        }
    }

    fn delete_ref(&mut self, name: &str, expected: &ObjectName) -> (r: Result<(), Status>) {
        let key = String::from_str(name);
        let holds = match self.refs.get(&key) {
            Some(Stored::Direct(o)) => o.same(expected),
            _ => false,
        };
        if holds {
            self.refs.remove(&key);
            Ok(())
        } else {
            Self::failure("the reference holds another value")
        }
    }

    fn delete_symref(&mut self, name: &str) -> (r: Result<(), Status>) {
        let key = String::from_str(name);
        let symbolic = match self.refs.get(&key) {
            Some(Stored::Symbolic(_)) => true,
            _ => false,
        };
        if symbolic {
            self.refs.remove(&key);
            Ok(())
        } else {
            Self::failure("no such symbolic reference")
        }
    }

    fn push(&mut self, branch: &Branch, remote: &Option<String>, expected: &ObjectName) -> (r:
        Result<(), Status>) {
        let to = match remote {
            Some(found) => found.clone(),
            None => {
                return Self::failure("no remote");
            },
        };
        let at = match self.tip_of(&branch.refname()) {
            Some(found) => found,
            None => {
                return Self::failure("no such branch");
            },
        };
        let key = (to, String::from_str(branch.name()));
        let holds = match self.remote_tips.get(&key) {
            Some(o) => o.same(expected),
            None => expected.same(&ObjectName::none()),
        };
        if holds {
            self.tracking.insert(key.duplicate(), at.clone());
            self.remote_tips.insert(key, at);
            Ok(())
        } else {
            Self::failure("the remote holds another commit")
        }
    }

    fn rebase_onto(&mut self, branch: &Branch) -> (r: Result<(), Status>)
        ensures
            r is Err ==> final(self).repo() == old(self).repo(),
    {
        let onto = match self.target_of(&branch.stacker_base_refname()) {
            Some(target) => match self.tip_of(&target) {
                Some(found) => found,
                None => {
                    return Self::failure("the base holds no commit");
                },
            },
            None => {
                return Self::failure("the branch has no base");
            },
        };
        let start = match self.tip_of(&branch.stacker_start_refname()) {
            Some(found) => found,
            None => {
                return Self::failure("the branch has no start");
            },
        };
        let tip = match self.tip_of(&branch.refname()) {
            Some(found) => found,
            None => {
                return Self::failure("no such branch");
            },
        };
        let result = if start.same(&onto) {
            tip
        } else {
            let key = (
                String::from_str(start.as_str()),
                String::from_str(tip.as_str()),
                String::from_str(onto.as_str()),
            );
            match self.replays.get(&key) {
                Some(found) => found.clone(),
                None => {
                    return Self::failure("conflict");
                },
            }
        };
        self.refs.insert(branch.refname(), Stored::Direct(result));
        Ok(())
    }

    fn fetch_all_prune(&mut self) -> (r: Result<(), Status>) {
        self.tracking = self.tips_copied();
        Ok(())
    }

    fn forkpoint(&self, base: &str, branch: &str) -> (r: Result<ObjectName, Status>) {
        let a = match self.tip_of(&String::from_str(base)) {
            Some(found) => found,
            None => {
                return Err(Status::saying("the base holds no commit"));
            },
        };
        let b = match self.tip_of(&String::from_str(branch)) {
            Some(found) => found,
            None => {
                return Err(Status::saying("the branch holds no commit"));
            },
        };
        if a.same(&b) {
            return Ok(a);
        }
        let key = (String::from_str(a.as_str()), String::from_str(b.as_str()));
        match self.merge_bases.get(&key) {
            Some(found) => Ok(found.clone()),
            None => Err(Status::saying("no common ancestor")),
        }
    }

    fn tracked_branches(&self) -> (r: Result<Vec<Branch>, Status>) {
        let mut found: Vec<Branch> = Vec::new();
        let n: usize = self.refs.len();
        let ghost keys = self.refs.key_seq();
        let mut i: usize = 0;
        while i < n
            invariant
                i <= n,
                n == keys.len(),
                keys == self.refs.key_seq(),
                Branch::names(found@).no_duplicates(),
                forall|b: Seq<char>|
                    Branch::names(found@).contains(b) <==> exists|j: int|
                        0 <= j < i && Branch::aux_owner(#[trigger] keys[j]) == Some(b),
            decreases n - i,
        {
            let name = self.refs.key_at(i);
            let ghost before = Branch::names(found@);
            match Branch::tracked_by(name.as_str()) {
                Some(owner) => {
                    if !has_branch(&found, &owner) {
                        found.push(owner);
                        proof {
                            assert(Branch::names(found@) =~= before.push(owner@));
                        }
                    }
                },
                None => {},
            }
            proof {
                let after = Branch::names(found@);
                assert forall|b: Seq<char>|
                    after.contains(b) <==> exists|j: int|
                        0 <= j < i + 1 && Branch::aux_owner(#[trigger] keys[j]) == Some(b) by {
                    if after.contains(b) {
                        if before.contains(b) {
                            let j = choose|j: int|
                                0 <= j < i && Branch::aux_owner(#[trigger] keys[j]) == Some(b);
                            assert(0 <= j < i + 1 && Branch::aux_owner(keys[j]) == Some(b));
                        } else {
                            let q = choose|q: int| 0 <= q < after.len() && after[q] == b;
                            assert(Branch::aux_owner(keys[i as int]) == Some(b));
                        }
                    }
                    if exists|j: int|
                        0 <= j < i + 1 && Branch::aux_owner(#[trigger] keys[j]) == Some(b) {
                        let j = choose|j: int|
                            0 <= j < i + 1 && Branch::aux_owner(#[trigger] keys[j]) == Some(b);
                        if j < i {
                            assert(before.contains(b));
                            let q = choose|q: int| 0 <= q < before.len() && before[q] == b;
                            assert(after[q] == b);
                        } else {
                            if before.contains(b) {
                                let q = choose|q: int| 0 <= q < before.len() && before[q] == b;
                                assert(after[q] == b);
                            } else {
                                assert(after[after.len() - 1] == b);
                            }
                        }
                    }
                }
            }
            i += 1;
        }
        proof {
            let names = Branch::names(found@);
            assert forall|b: Seq<char>| #[trigger] self.repo().tracks(b) <==> names.contains(b) by {
                if self.repo().tracks(b) {
                    let k = if self.repo().refs.contains_key(Branch::base_ref(b)) {
                        Branch::base_ref(b)
                    } else if self.repo().refs.contains_key(Branch::start_ref(b)) {
                        Branch::start_ref(b)
                    } else {
                        Branch::remote_ref(b)
                    };
                    Branch::lemma_owned(k, b);
                    assert(keys.contains(k));
                    let j = choose|j: int| 0 <= j < keys.len() && keys[j] == k;
                    assert(0 <= j < n && Branch::aux_owner(keys[j]) == Some(b));
                }
                if names.contains(b) {
                    let j = choose|j: int|
                        0 <= j < n && Branch::aux_owner(#[trigger] keys[j]) == Some(b);
                    Branch::lemma_owned(keys[j], b);
                    assert(keys.contains(keys[j]));
                }
            }
        }
        Ok(found)
    }
}

/// Whether the branches hold one of the name of `wanted`.
fn has_branch(branches: &Vec<Branch>, wanted: &Branch) -> (r: bool)
    ensures
        r == Branch::names(branches@).contains(wanted@),
{
    let mut i: usize = 0;
    while i < branches.len()
        invariant
            i <= branches.len(),
            forall|j: int| 0 <= j < i ==> Branch::names(branches@)[j] != wanted@,
        decreases branches.len() - i,
    {
        if branches[i].same(wanted) {
            assert(Branch::names(branches@)[i as int] == wanted@);
            return true;
        }
        i += 1;
    }
    false
}

} // verus!
