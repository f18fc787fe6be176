use stacker::git::Git;
use stacker::memory::MemGit;
use stacker::object::ObjectName;
use stacker::object::Status;
use stacker::stc::STC;

fn object(s: &str) -> ObjectName {
    ObjectName::new(s.to_string())
}

/// `main` at `c1`, checked out, associated with the remote `origin`.
fn on_main() -> MemGit {
    let mut g = MemGit::new();
    g.commit("main", "c1");
    g.checkout("main");
    g.set_upstream("main", "origin");
    g
}

/// `x` started from `main` at `c1` and moved on to `c2`.
fn on_x() -> STC<MemGit> {
    let mut stc = STC::new(on_main());
    stc.start("x".to_string()).unwrap();
    let mut g = stc.into_git();
    g.commit("x", "c2");
    STC::new(g)
}

#[test]
fn init_hides_the_namespace() {
    let mut stc = STC::new(MemGit::new());
    assert_eq!(stc.init(), Ok(()));
    assert!(stc.git().config_has("transfer.hideRefs", "refs/stacker/"));
    assert!(stc.git().config_has("log.excludeDecoration", "refs/stacker/"));
    assert_eq!(stc.git().ref_count(), 0);
}

#[test]
fn init_twice_is_init_once() {
    let mut stc = STC::new(MemGit::new());
    stc.init().unwrap();
    assert_eq!(stc.init(), Ok(()));
    assert!(stc.git().config_has("transfer.hideRefs", "refs/stacker/"));
    assert!(stc.git().config_has("log.excludeDecoration", "refs/stacker/"));
    stc.clean().unwrap();
    assert!(!stc.git().config_has("transfer.hideRefs", "refs/stacker/"));
    assert!(!stc.git().config_has("log.excludeDecoration", "refs/stacker/"));
}

#[test]
fn clean_takes_the_namespace_out_and_nothing_else() {
    let mut g = MemGit::new();
    g.config_add("transfer.hideRefs", "refs/other/").unwrap();
    let mut stc = STC::new(g);
    stc.init().unwrap();
    assert_eq!(stc.clean(), Ok(()));
    assert!(!stc.git().config_has("transfer.hideRefs", "refs/stacker/"));
    assert!(!stc.git().config_has("log.excludeDecoration", "refs/stacker/"));
    assert!(stc.git().config_has("transfer.hideRefs", "refs/other/"));
    assert_eq!(stc.clean(), Ok(()));
    assert!(stc.git().config_has("transfer.hideRefs", "refs/other/"));
}

#[test]
fn sync_sees_what_the_remotes_have() {
    let stc = on_x();
    let mut g = stc.into_git();
    g.set_remote_tip("origin", "main", "c8");
    g.set_remote_tip("origin", "x", "c9");
    let mut stc = STC::new(g);
    assert_eq!(stc.git().seen_object("origin", "main"), None);
    assert_eq!(stc.sync(), Ok(()));
    assert_eq!(stc.git().seen_object("origin", "main"), Some(object("c8")));
    assert_eq!(stc.git().seen_object("origin", "x"), Some(object("c9")));
    assert_eq!(stc.git().remote_object("origin", "x"), Some(object("c9")));
    assert_eq!(stc.sync(), Ok(()));
    assert_eq!(stc.git().seen_object("origin", "x"), Some(object("c9")));
}

#[test]
fn sync_leaves_the_references() {
    let mut stc = on_x();
    assert_eq!(stc.sync(), Ok(()));
    assert_eq!(stc.git().ref_count(), 4);
    assert_eq!(stc.git().object_at("refs/heads/x"), Some(object("c2")));
    assert_eq!(stc.git().current_branch(), Some("x".to_string()));
}

#[test]
fn start_records_base_and_start() {
    let mut stc = STC::new(on_main());
    assert_eq!(stc.start("x".to_string()), Ok(()));
    let g = stc.git();
    assert_eq!(g.target_at("refs/stacker/base/x"), Some("refs/heads/main".to_string()));
    assert_eq!(g.object_at("refs/stacker/start/x"), Some(object("c1")));
    assert_eq!(g.current_branch(), Some("x".to_string()));
    assert_eq!(g.object_at("refs/heads/x"), Some(object("c1")));
    assert_eq!(g.object_at("refs/heads/main"), Some(object("c1")));
    assert!(!g.has_ref("refs/stacker/remote/x"));
    assert_eq!(g.ref_count(), 4);
}

#[test]
fn start_leaves_its_note_with_the_base_reference() {
    let mut stc = STC::new(on_main());
    stc.start("x".to_string()).unwrap();
    assert_eq!(
        stc.git().note_at("refs/stacker/base/x"),
        Some("stacker: base branch marker".to_string())
    );
    assert_eq!(stc.git().note_at("refs/stacker/start/x"), None);
}

#[test]
fn start_stacks_on_the_branch_that_is_checked_out() {
    let mut stc = on_x();
    assert_eq!(stc.start("y".to_string()), Ok(()));
    let g = stc.git();
    assert_eq!(g.target_at("refs/stacker/base/y"), Some("refs/heads/x".to_string()));
    assert_eq!(g.object_at("refs/stacker/start/y"), Some(object("c2")));
    assert_eq!(g.object_at("refs/heads/y"), Some(object("c2")));
    assert_eq!(g.current_branch(), Some("y".to_string()));
    assert_eq!(g.target_at("refs/stacker/base/x"), Some("refs/heads/main".to_string()));
    assert_eq!(g.object_at("refs/stacker/start/x"), Some(object("c1")));
}

#[test]
fn start_refuses_a_bad_name() {
    let mut stc = STC::new(on_main());
    assert!(stc.start("a b".to_string()).is_err());
    assert!(stc.start(String::new()).is_err());
    assert_eq!(stc.git().ref_count(), 1);
    assert_eq!(stc.git().current_branch(), Some("main".to_string()));
}

#[test]
fn start_refuses_a_name_that_is_taken() {
    let mut stc = on_x();
    assert!(stc.start("main".to_string()).is_err());
    assert!(stc.start("x".to_string()).is_err());
    assert_eq!(stc.git().ref_count(), 4);
    assert_eq!(stc.git().current_branch(), Some("x".to_string()));
    assert_eq!(stc.git().object_at("refs/stacker/start/x"), Some(object("c1")));
}

#[test]
fn start_needs_a_branch_checked_out() {
    let mut g = MemGit::new();
    g.commit("main", "c1");
    let mut stc = STC::new(g);
    assert!(stc.start("x".to_string()).is_err());
    assert_eq!(stc.git().ref_count(), 1);
}

#[test]
fn push_publishes_and_records() {
    let mut stc = on_x();
    assert_eq!(stc.push(), Ok(()));
    assert_eq!(stc.git().remote_object("origin", "x"), Some(object("c2")));
    assert_eq!(stc.git().object_at("refs/stacker/remote/x"), Some(object("c2")));
    assert_eq!(stc.git().object_at("refs/heads/x"), Some(object("c2")));
}

#[test]
fn push_twice_changes_nothing_the_second_time() {
    let mut stc = on_x();
    assert_eq!(stc.push(), Ok(()));
    let count = stc.git().ref_count();
    assert_eq!(stc.push(), Ok(()));
    assert_eq!(stc.git().remote_object("origin", "x"), Some(object("c2")));
    assert_eq!(stc.git().object_at("refs/stacker/remote/x"), Some(object("c2")));
    assert_eq!(stc.git().ref_count(), count);
}

#[test]
fn push_after_new_commits_moves_the_record() {
    let mut stc = on_x();
    stc.push().unwrap();
    let mut g = stc.into_git();
    g.commit("x", "c3");
    let mut stc = STC::new(g);
    assert_eq!(stc.push(), Ok(()));
    assert_eq!(stc.git().remote_object("origin", "x"), Some(object("c3")));
    assert_eq!(stc.git().object_at("refs/stacker/remote/x"), Some(object("c3")));
}

#[test]
fn push_fails_when_the_remote_moved() {
    let mut stc = on_x();
    stc.push().unwrap();
    let mut g = stc.into_git();
    g.set_remote_tip("origin", "x", "c9");
    g.commit("x", "c3");
    let mut stc = STC::new(g);
    assert!(stc.push().is_err());
    assert_eq!(stc.git().object_at("refs/stacker/remote/x"), Some(object("c2")));
    assert_eq!(stc.git().remote_object("origin", "x"), Some(object("c9")));
}

#[test]
fn a_first_push_fails_when_the_remote_has_the_branch() {
    let mut stc = on_x();
    let mut g = stc.into_git();
    g.set_remote_tip("origin", "x", "c9");
    stc = STC::new(g);
    assert!(stc.push().is_err());
    assert!(!stc.git().has_ref("refs/stacker/remote/x"));
    assert_eq!(stc.git().remote_object("origin", "x"), Some(object("c9")));
}

#[test]
fn push_of_a_branch_without_base_is_not_found() {
    let mut stc = STC::new(on_main());
    assert_eq!(stc.push(), Err(Status::with(1)));
    assert_eq!(stc.git().remote_object("origin", "main"), None);
    assert_eq!(stc.git().ref_count(), 1);
}

#[test]
fn push_with_a_base_that_is_gone_is_not_found() {
    let stc = on_x();
    let mut g = stc.into_git();
    g.delete_branch("main");
    let mut stc = STC::new(g);
    assert_eq!(stc.push(), Err(Status::with(1)));
    assert_eq!(stc.git().remote_object("origin", "x"), None);
    assert!(!stc.git().has_ref("refs/stacker/remote/x"));
}

#[test]
fn push_with_a_direct_base_reference_is_not_found() {
    let mut g = on_main();
    g.commit("x", "c2");
    g.checkout("x");
    g.create_ref("refs/stacker/base/x", &object("c1")).unwrap();
    let mut stc = STC::new(g);
    assert_eq!(stc.push(), Err(Status::with(1)));
}

#[test]
fn push_needs_a_remote_for_the_base() {
    let mut g = MemGit::new();
    g.commit("main", "c1");
    g.checkout("main");
    let mut stc = STC::new(g);
    stc.start("x".to_string()).unwrap();
    assert!(stc.push().is_err());
    assert!(!stc.git().has_ref("refs/stacker/remote/x"));
}

#[test]
fn push_goes_to_the_remote_of_the_base() {
    let mut g = on_main();
    g.set_upstream("main", "upstream");
    let mut stc = STC::new(g);
    stc.start("x".to_string()).unwrap();
    assert_eq!(stc.push(), Ok(()));
    assert_eq!(stc.git().remote_object("upstream", "x"), Some(object("c1")));
    assert_eq!(stc.git().remote_object("origin", "x"), None);
}

#[test]
fn rebase_moves_the_start_to_the_end_of_the_base() {
    let stc = on_x();
    let mut g = stc.into_git();
    g.commit("main", "c3");
    g.set_replay("c1", "c2", "c3", "c4");
    let mut stc = STC::new(g);
    assert_eq!(stc.rebase(), Ok(()));
    assert_eq!(stc.git().object_at("refs/stacker/start/x"), Some(object("c3")));
    assert_eq!(stc.git().object_at("refs/heads/x"), Some(object("c4")));
    assert_eq!(stc.git().object_at("refs/heads/main"), Some(object("c3")));
    assert_eq!(stc.git().target_at("refs/stacker/base/x"), Some("refs/heads/main".to_string()));
}

#[test]
fn rebase_again_changes_nothing() {
    let stc = on_x();
    let mut g = stc.into_git();
    g.commit("main", "c3");
    g.set_replay("c1", "c2", "c3", "c4");
    let mut stc = STC::new(g);
    stc.rebase().unwrap();
    assert_eq!(stc.rebase(), Ok(()));
    assert_eq!(stc.git().object_at("refs/stacker/start/x"), Some(object("c3")));
    assert_eq!(stc.git().object_at("refs/heads/x"), Some(object("c4")));
    assert_eq!(stc.git().ref_count(), 4);
}

#[test]
fn rebase_on_a_base_that_has_not_moved_changes_nothing() {
    let mut stc = on_x();
    assert_eq!(stc.rebase(), Ok(()));
    assert_eq!(stc.git().object_at("refs/stacker/start/x"), Some(object("c1")));
    assert_eq!(stc.git().object_at("refs/heads/x"), Some(object("c2")));
}

#[test]
fn rebase_with_a_conflict_fails_and_changes_nothing() {
    let stc = on_x();
    let mut g = stc.into_git();
    g.commit("main", "c3");
    let mut stc = STC::new(g);
    assert!(stc.rebase().is_err());
    assert_eq!(stc.git().object_at("refs/stacker/start/x"), Some(object("c1")));
    assert_eq!(stc.git().object_at("refs/heads/x"), Some(object("c2")));
}

#[test]
fn rebase_without_base_or_start_is_not_found() {
    let mut stc = STC::new(on_main());
    assert_eq!(stc.rebase(), Err(Status::with(1)));
    let mut g = on_main();
    g.create_symref("refs/stacker/base/main", "refs/heads/main", "note").unwrap();
    let mut stc = STC::new(g);
    assert_eq!(stc.rebase(), Err(Status::with(1)));
    let mut g = on_main();
    g.create_ref("refs/stacker/start/main", &object("c1")).unwrap();
    let mut stc = STC::new(g);
    assert_eq!(stc.rebase(), Err(Status::with(1)));
}

#[test]
fn the_operations_need_a_branch_checked_out() {
    let mut g = MemGit::new();
    g.commit("main", "c1");
    let mut stc = STC::new(g);
    assert!(stc.push().is_err());
    assert!(stc.rebase().is_err());
    assert_eq!(stc.git().ref_count(), 1);
}

#[test]
fn the_handle_gives_the_repository_back() {
    let stc = STC::new(on_main());
    assert_eq!(stc.git().head().unwrap().name(), "main");
    let g = stc.into_git();
    assert_eq!(g.object_at("refs/heads/main"), Some(object("c1")));
}
