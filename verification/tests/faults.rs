use stacker::branch::Branch;
use stacker::git::Git;
use stacker::memory::MemGit;
use stacker::object::ObjectName;
use stacker::object::Status;
use stacker::refs::RefSnapshot;
use stacker::repo::Repo;
use stacker::stc::STC;

/// A repository in memory whose calls that write fail from the time that
/// `writes_left` of them went through, and in which another writer moves the
/// reference `meddled` to the commit `c7` right after a publish.
struct Flaky {
    inner: MemGit,
    writes_left: usize,
    meddled: Option<String>,
}

impl Flaky {
    fn write(&mut self) -> Result<(), Status> {
        if self.writes_left == 0 {
            return Err(Status::new(7, b"out".to_vec(), b"err".to_vec()));
        }
        self.writes_left -= 1;
        Ok(())
    }
}

impl Git for Flaky {
    fn repo(&self) -> Repo {
        unreachable!()
    }

    fn config_add(&mut self, key: &str, value: &str) -> Result<(), Status> {
        self.write()?;
        self.inner.config_add(key, value)
    }

    fn config_unset_pattern(&mut self, key: &str, pattern: &str) -> Result<(), Status> {
        self.write()?;
        self.inner.config_unset_pattern(key, pattern)
    }

    fn snapshot(&self) -> Result<RefSnapshot, Status> {
        self.inner.snapshot()
    }

    fn head(&self) -> Result<Branch, Status> {
        self.inner.head()
    }

    fn check_branchname(&self, name: &str) -> Result<Branch, Status> {
        self.inner.check_branchname(name)
    }

    fn create_branch(&mut self, new: &Branch, base: &Branch) -> Result<(), Status> {
        self.write()?;
        self.inner.create_branch(new, base)
    }

    fn switch_branch(&mut self, branch: &Branch) -> Result<(), Status> {
        self.write()?;
        self.inner.switch_branch(branch)
    }

    fn create_symref(&mut self, name: &str, target: &str, note: &str) -> Result<(), Status> {
        self.write()?;
        self.inner.create_symref(name, target, note)
    }

    fn create_ref(&mut self, name: &str, object: &ObjectName) -> Result<(), Status> {
        self.write()?;
        self.inner.create_ref(name, object)
    }

    fn update_ref(
        &mut self,
        name: &str,
        new: &ObjectName,
        expected: &ObjectName,
    ) -> Result<(), Status> {
        self.write()?;
        self.inner.update_ref(name, new, expected)
    }

    fn delete_ref(&mut self, name: &str, expected: &ObjectName) -> Result<(), Status> {
        self.write()?;
        self.inner.delete_ref(name, expected)
    }

    fn delete_symref(&mut self, name: &str) -> Result<(), Status> {
        self.write()?;
        self.inner.delete_symref(name)
    }

    fn push(
        &mut self,
        branch: &Branch,
        remote: &Option<String>,
        expected: &ObjectName,
    ) -> Result<(), Status> {
        self.write()?;
        self.inner.push(branch, remote, expected)?;
        if let Some(name) = &self.meddled {
            self.inner.create_ref(name, &ObjectName::new("c7".to_string()))?;
        }
        Ok(())
    }

    fn rebase_onto(&mut self, branch: &Branch) -> Result<(), Status> {
        self.write()?;
        self.inner.rebase_onto(branch)
    }

    fn fetch_all_prune(&mut self) -> Result<(), Status> {
        self.write()?;
        self.inner.fetch_all_prune()
    }

    fn forkpoint(&self, base: &str, branch: &str) -> Result<ObjectName, Status> {
        self.inner.forkpoint(base, branch)
    }

    fn tracked_branches(&self) -> Result<Vec<Branch>, Status> {
        self.inner.tracked_branches()
    }
}

fn object(s: &str) -> ObjectName {
    ObjectName::new(s.to_string())
}

fn the_fault() -> Status {
    Status::new(7, b"out".to_vec(), b"err".to_vec())
}

fn main_only() -> MemGit {
    let mut g = MemGit::new();
    g.commit("main", "c1");
    g.checkout("main");
    g.set_upstream("main", "origin");
    g
}

fn started_x() -> MemGit {
    let mut stc = STC::new(main_only());
    stc.start("x".to_string()).unwrap();
    let mut g = stc.into_git();
    g.commit("x", "c2");
    g
}

fn failing_after(inner: MemGit, writes: usize) -> STC<Flaky> {
    STC::new(Flaky { inner, writes_left: writes, meddled: None })
}

#[test]
fn a_failure_comes_back_as_it_is() {
    let mut stc = failing_after(main_only(), 0);
    assert_eq!(stc.init(), Err(the_fault()));
    assert_eq!(stc.clean(), Err(the_fault()));
    assert_eq!(stc.sync(), Err(the_fault()));
    assert_eq!(stc.start("x".to_string()), Err(the_fault()));
    let mut stc = failing_after(started_x(), 0);
    assert_eq!(stc.push(), Err(the_fault()));
    assert_eq!(stc.rebase(), Err(the_fault()));
}

#[test]
fn init_stops_at_the_first_failure() {
    let mut stc = failing_after(MemGit::new(), 1);
    assert!(stc.init().is_err());
    let g = stc.into_git().inner;
    assert!(g.config_has("transfer.hideRefs", "refs/stacker/"));
    assert!(!g.config_has("log.excludeDecoration", "refs/stacker/"));
}

#[test]
fn clean_stops_at_the_first_failure() {
    let mut g = MemGit::new();
    g.config_add("transfer.hideRefs", "refs/stacker/").unwrap();
    g.config_add("log.excludeDecoration", "refs/stacker/").unwrap();
    let mut stc = failing_after(g, 1);
    assert!(stc.clean().is_err());
    let g = stc.into_git().inner;
    assert!(!g.config_has("transfer.hideRefs", "refs/stacker/"));
    assert!(g.config_has("log.excludeDecoration", "refs/stacker/"));
}

#[test]
fn start_stops_after_as_many_writes_as_went_through() {
    for writes in 0..5usize {
        let mut stc = failing_after(main_only(), writes);
        let r = stc.start("x".to_string());
        assert_eq!(r.is_ok(), writes >= 4);
        let g = stc.into_git().inner;
        assert_eq!(g.has_ref("refs/heads/x"), writes >= 1);
        assert_eq!(g.current_branch(), Some(if writes >= 2 { "x" } else { "main" }.to_string()));
        assert_eq!(g.has_ref("refs/stacker/base/x"), writes >= 3);
        assert_eq!(g.has_ref("refs/stacker/start/x"), writes >= 4);
    }
}

#[test]
fn push_that_fails_before_the_record_leaves_the_record_behind() {
    let mut stc = failing_after(started_x(), 1);
    assert!(stc.push().is_err());
    let g = stc.into_git().inner;
    assert_eq!(g.remote_object("origin", "x"), Some(object("c2")));
    assert!(!g.has_ref("refs/stacker/remote/x"));
    let mut stc = STC::new(g);
    assert!(stc.push().is_err());
    assert!(!stc.git().has_ref("refs/stacker/remote/x"));
    assert_eq!(stc.git().remote_object("origin", "x"), Some(object("c2")));
}

#[test]
fn push_that_fails_at_once_changes_nothing() {
    let mut stc = failing_after(started_x(), 0);
    assert!(stc.push().is_err());
    let g = stc.into_git().inner;
    assert_eq!(g.remote_object("origin", "x"), None);
    assert!(!g.has_ref("refs/stacker/remote/x"));
}

#[test]
fn rebase_that_fails_before_the_record_leaves_the_start_behind() {
    let mut g = started_x();
    g.commit("main", "c3");
    g.set_replay("c1", "c2", "c3", "c4");
    let mut stc = failing_after(g, 1);
    assert!(stc.rebase().is_err());
    let g = stc.into_git().inner;
    assert_eq!(g.object_at("refs/heads/x"), Some(object("c4")));
    assert_eq!(g.object_at("refs/stacker/start/x"), Some(object("c1")));
}

#[test]
fn fix_that_fails_touches_auxiliary_references_only() {
    for writes in 0..4usize {
        let mut g = main_only();
        g.commit("x", "c2");
        g.set_merge_base("c1", "c2", "c1");
        g.create_ref("refs/stacker/remote/y", &object("c0")).unwrap();
        g.create_ref("refs/stacker/start/y", &object("c0")).unwrap();
        let mut stc = failing_after(g, writes);
        let r = stc.fix(Some("x".to_string()), Some("main".to_string()));
        assert_eq!(r.is_ok(), writes >= 4);
        let g = stc.into_git().inner;
        assert_eq!(g.object_at("refs/heads/main"), Some(object("c1")));
        assert_eq!(g.object_at("refs/heads/x"), Some(object("c2")));
        assert_eq!(g.current_branch(), Some("main".to_string()));
        assert_eq!(g.has_ref("refs/stacker/base/x"), writes >= 1);
        assert_eq!(g.has_ref("refs/stacker/start/x"), writes >= 2);
        assert_eq!(g.has_ref("refs/stacker/start/y"), writes < 3);
    }
}

#[test]
fn fix_with_all_writes_through_succeeds() {
    let mut g = main_only();
    g.commit("x", "c2");
    g.set_merge_base("c1", "c2", "c1");
    g.create_ref("refs/stacker/remote/y", &object("c0")).unwrap();
    g.create_ref("refs/stacker/start/y", &object("c0")).unwrap();
    let mut stc = failing_after(g, 4);
    assert_eq!(stc.fix(Some("x".to_string()), Some("main".to_string())), Ok(()));
    let g = stc.into_git().inner;
    assert_eq!(g.target_at("refs/stacker/base/x"), Some("refs/heads/main".to_string()));
    assert_eq!(g.object_at("refs/stacker/start/x"), Some(object("c1")));
    assert!(!g.has_ref("refs/stacker/start/y"));
    assert!(!g.has_ref("refs/stacker/remote/y"));
}

#[test]
fn fix_tells_a_missing_base_before_it_writes() {
    let mut stc = failing_after(started_x(), 0);
    let r = stc.fix(Some("x".to_string()), None);
    assert_eq!(r, Err(Status::saying("base not specified")));
    let r = stc.fix(Some("x".to_string()), Some("dev".to_string()));
    assert_eq!(r, Err(Status::saying("base branch already defined")));
}

#[test]
fn push_does_not_overwrite_a_record_that_moved_under_it() {
    let meddled = Some("refs/stacker/remote/x".to_string());
    let mut stc = STC::new(Flaky { inner: started_x(), writes_left: 9, meddled });
    assert!(stc.push().is_err());
    let g = stc.into_git().inner;
    assert_eq!(g.remote_object("origin", "x"), Some(object("c2")));
    assert_eq!(g.object_at("refs/stacker/remote/x"), Some(object("c7")));
}

#[test]
fn push_records_what_the_branch_holds_after_the_publish() {
    let meddled = Some("refs/heads/x".to_string());
    let mut stc = STC::new(Flaky { inner: started_x(), writes_left: 9, meddled });
    assert_eq!(stc.push(), Ok(()));
    let g = stc.into_git().inner;
    assert_eq!(g.remote_object("origin", "x"), Some(object("c2")));
    assert_eq!(g.object_at("refs/stacker/remote/x"), Some(object("c7")));
}
