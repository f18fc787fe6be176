use stacker::branch::Branch;
use stacker::git::Git;
use stacker::memory::MemGit;
use stacker::object::ObjectName;

fn object(s: &str) -> ObjectName {
    ObjectName::new(s.to_string())
}

fn branch(s: &str) -> Branch {
    Branch::new(s.to_string())
}

#[test]
fn a_new_repository_is_empty() {
    let g = MemGit::new();
    assert_eq!(g.ref_count(), 0);
    assert_eq!(g.current_branch(), None);
    assert!(g.head().is_err());
    assert_eq!(g.snapshot().unwrap().len(), 0);
    assert!(g.tracked_branches().unwrap().is_empty());
    assert!(!g.config_has("transfer.hideRefs", "refs/stacker/"));
}

#[test]
fn branch_names_are_checked() {
    for good in ["x", "feature/x", "a-b", "é", "x.y"].iter() {
        assert!(MemGit::name_is_ok(good));
    }
    for bad in ["", "-x", "a b", "a~b", "a^", "a:b", "a?", "a*", "a[b", "a\\b", "a\tb", "a\u{7f}"]
        .iter()
    {
        assert!(!MemGit::name_is_ok(bad));
    }
    let g = MemGit::new();
    assert_eq!(g.check_branchname("feature/x").unwrap(), branch("feature/x"));
    assert!(g.check_branchname("a b").is_err());
    assert!(g.check_branchname("").is_err());
}

#[test]
fn commit_checkout_and_delete() {
    let mut g = MemGit::new();
    g.commit("main", "c1");
    assert!(g.has_ref("refs/heads/main"));
    assert_eq!(g.object_at("refs/heads/main"), Some(object("c1")));
    g.commit("main", "c2");
    assert_eq!(g.object_at("refs/heads/main"), Some(object("c2")));
    assert_eq!(g.ref_count(), 1);
    g.checkout("main");
    assert_eq!(g.current_branch(), Some("main".to_string()));
    assert_eq!(g.head().unwrap(), branch("main"));
    g.delete_branch("main");
    assert!(!g.has_ref("refs/heads/main"));
    assert_eq!(g.object_at("refs/heads/main"), None);
}

#[test]
fn a_snapshot_resolves_symbolic_references() {
    let mut g = MemGit::new();
    g.commit("main", "c1");
    g.set_upstream("main", "origin");
    g.create_symref("refs/stacker/base/x", "refs/heads/main", "note").unwrap();
    g.create_symref("refs/stacker/base/y", "refs/heads/gone", "note").unwrap();
    let s = g.snapshot().unwrap();
    assert_eq!(s.len(), 3);
    let m = s.get("refs/heads/main").unwrap();
    assert_eq!(m.name, "refs/heads/main");
    assert_eq!(m.objectname, object("c1"));
    assert_eq!(m.symref_target, None);
    assert_eq!(m.remote, Some("origin".to_string()));
    let x = s.get("refs/stacker/base/x").unwrap();
    assert_eq!(x.objectname, object("c1"));
    assert_eq!(x.symref_target, Some("refs/heads/main".to_string()));
    assert_eq!(x.remote, None);
    let y = s.get("refs/stacker/base/y").unwrap();
    assert_eq!(y.objectname, ObjectName::none());
    assert_eq!(y.symref_target, Some("refs/heads/gone".to_string()));
    assert_eq!(g.target_at("refs/stacker/base/x"), Some("refs/heads/main".to_string()));
    assert_eq!(g.target_at("refs/heads/main"), None);
    assert_eq!(g.object_at("refs/stacker/base/x"), None);
}

#[test]
fn a_snapshot_is_a_reading_of_one_moment() {
    let mut g = MemGit::new();
    g.commit("main", "c1");
    let s = g.snapshot().unwrap();
    g.commit("main", "c2");
    assert_eq!(s.get("refs/heads/main").unwrap().objectname, object("c1"));
    assert_eq!(g.snapshot().unwrap().get("refs/heads/main").unwrap().objectname, object("c2"));
}

#[test]
fn create_branch_needs_a_base_and_a_free_name() {
    let mut g = MemGit::new();
    g.commit("main", "c1");
    assert!(g.create_branch(&branch("x"), &branch("main")).is_ok());
    assert_eq!(g.object_at("refs/heads/x"), Some(object("c1")));
    assert!(g.create_branch(&branch("x"), &branch("main")).is_err());
    assert!(g.create_branch(&branch("y"), &branch("gone")).is_err());
    assert!(!g.has_ref("refs/heads/y"));
    assert_eq!(g.ref_count(), 2);
}

#[test]
fn switch_needs_the_branch() {
    let mut g = MemGit::new();
    g.commit("main", "c1");
    assert!(g.switch_branch(&branch("x")).is_err());
    assert_eq!(g.current_branch(), None);
    assert!(g.switch_branch(&branch("main")).is_ok());
    assert_eq!(g.current_branch(), Some("main".to_string()));
}

#[test]
fn update_ref_compares_and_swaps() {
    let mut g = MemGit::new();
    let name = "refs/stacker/remote/x";
    assert!(g.update_ref(name, &object("c1"), &object("c0")).is_err());
    assert!(!g.has_ref(name));
    assert!(g.update_ref(name, &object("c1"), &ObjectName::none()).is_ok());
    assert_eq!(g.object_at(name), Some(object("c1")));
    assert!(g.update_ref(name, &object("c2"), &ObjectName::none()).is_err());
    assert!(g.update_ref(name, &object("c2"), &object("c0")).is_err());
    assert_eq!(g.object_at(name), Some(object("c1")));
    assert!(g.update_ref(name, &object("c2"), &object("c1")).is_ok());
    assert_eq!(g.object_at(name), Some(object("c2")));
    g.create_symref("refs/stacker/base/x", "refs/heads/main", "note").unwrap();
    assert!(g.update_ref("refs/stacker/base/x", &object("c2"), &ObjectName::none()).is_err());
    assert_eq!(g.target_at("refs/stacker/base/x"), Some("refs/heads/main".to_string()));
}

#[test]
fn delete_ref_compares_and_deletes() {
    let mut g = MemGit::new();
    g.create_ref("refs/stacker/start/x", &object("c1")).unwrap();
    assert!(g.delete_ref("refs/stacker/start/x", &object("c2")).is_err());
    assert!(g.has_ref("refs/stacker/start/x"));
    assert!(g.delete_ref("refs/stacker/start/y", &object("c1")).is_err());
    assert!(g.delete_ref("refs/stacker/start/x", &object("c1")).is_ok());
    assert!(!g.has_ref("refs/stacker/start/x"));
    assert!(g.delete_ref("refs/stacker/start/x", &ObjectName::none()).is_err());
}

#[test]
fn delete_symref_deletes_symbolic_references_only() {
    let mut g = MemGit::new();
    g.create_ref("refs/stacker/start/x", &object("c1")).unwrap();
    g.create_symref("refs/stacker/base/x", "refs/heads/main", "note").unwrap();
    assert!(g.delete_symref("refs/stacker/start/x").is_err());
    assert!(g.delete_symref("refs/stacker/base/y").is_err());
    assert!(g.delete_symref("refs/stacker/base/x").is_ok());
    assert!(!g.has_ref("refs/stacker/base/x"));
    assert!(g.has_ref("refs/stacker/start/x"));
}

#[test]
fn create_ref_replaces() {
    let mut g = MemGit::new();
    g.create_ref("refs/stacker/start/x", &object("c1")).unwrap();
    g.create_ref("refs/stacker/start/x", &object("c2")).unwrap();
    assert_eq!(g.object_at("refs/stacker/start/x"), Some(object("c2")));
    g.create_symref("refs/stacker/start/x", "refs/heads/main", "note").unwrap();
    assert_eq!(g.target_at("refs/stacker/start/x"), Some("refs/heads/main".to_string()));
    assert_eq!(g.ref_count(), 1);
}

#[test]
fn create_symref_keeps_the_last_note() {
    let mut g = MemGit::new();
    assert_eq!(g.note_at("refs/stacker/base/x"), None);
    g.create_symref("refs/stacker/base/x", "refs/heads/main", "one").unwrap();
    assert_eq!(g.note_at("refs/stacker/base/x"), Some("one".to_string()));
    g.create_symref("refs/stacker/base/x", "refs/heads/dev", "two").unwrap();
    assert_eq!(g.note_at("refs/stacker/base/x"), Some("two".to_string()));
    assert_eq!(g.target_at("refs/stacker/base/x"), Some("refs/heads/dev".to_string()));
}

#[test]
fn push_asserts_what_the_remote_has() {
    let mut g = MemGit::new();
    g.commit("x", "c1");
    let origin = Some("origin".to_string());
    assert!(g.push(&branch("x"), &None, &ObjectName::none()).is_err());
    assert!(g.push(&branch("y"), &origin, &ObjectName::none()).is_err());
    assert!(g.push(&branch("x"), &origin, &object("c0")).is_err());
    assert_eq!(g.remote_object("origin", "x"), None);
    assert_eq!(g.seen_object("origin", "x"), None);
    assert!(g.push(&branch("x"), &origin, &ObjectName::none()).is_ok());
    assert_eq!(g.remote_object("origin", "x"), Some(object("c1")));
    assert_eq!(g.seen_object("origin", "x"), Some(object("c1")));
    g.commit("x", "c2");
    assert!(g.push(&branch("x"), &origin, &ObjectName::none()).is_err());
    assert_eq!(g.remote_object("origin", "x"), Some(object("c1")));
    assert!(g.push(&branch("x"), &origin, &object("c1")).is_ok());
    assert_eq!(g.remote_object("origin", "x"), Some(object("c2")));
    assert_eq!(g.remote_object("other", "x"), None);
}

#[test]
fn forkpoint_reads_the_table() {
    let mut g = MemGit::new();
    g.commit("main", "c3");
    g.commit("x", "c2");
    g.commit("same", "c3");
    assert!(g.forkpoint("refs/heads/main", "refs/heads/x").is_err());
    g.set_merge_base("c3", "c2", "c1");
    assert_eq!(g.forkpoint("refs/heads/main", "refs/heads/x").unwrap(), object("c1"));
    assert!(g.forkpoint("refs/heads/x", "refs/heads/main").is_err());
    assert_eq!(g.forkpoint("refs/heads/main", "refs/heads/same").unwrap(), object("c3"));
    assert!(g.forkpoint("refs/heads/main", "refs/heads/gone").is_err());
    assert!(g.forkpoint("refs/heads/gone", "refs/heads/x").is_err());
}

#[test]
fn rebase_onto_replays_or_conflicts() {
    let mut g = MemGit::new();
    g.commit("main", "c3");
    g.commit("x", "c2");
    assert!(g.rebase_onto(&branch("x")).is_err());
    g.create_symref("refs/stacker/base/x", "refs/heads/main", "note").unwrap();
    assert!(g.rebase_onto(&branch("x")).is_err());
    g.create_ref("refs/stacker/start/x", &object("c1")).unwrap();
    assert!(g.rebase_onto(&branch("x")).is_err());
    assert_eq!(g.object_at("refs/heads/x"), Some(object("c2")));
    g.set_replay("c1", "c2", "c3", "c4");
    assert!(g.rebase_onto(&branch("x")).is_ok());
    assert_eq!(g.object_at("refs/heads/x"), Some(object("c4")));
    assert_eq!(g.object_at("refs/stacker/start/x"), Some(object("c1")));
    assert_eq!(g.object_at("refs/heads/main"), Some(object("c3")));
}

#[test]
fn rebase_onto_the_start_changes_nothing() {
    let mut g = MemGit::new();
    g.commit("main", "c1");
    g.commit("x", "c2");
    g.create_symref("refs/stacker/base/x", "refs/heads/main", "note").unwrap();
    g.create_ref("refs/stacker/start/x", &object("c1")).unwrap();
    assert!(g.rebase_onto(&branch("x")).is_ok());
    assert_eq!(g.object_at("refs/heads/x"), Some(object("c2")));
}

#[test]
fn the_branches_with_auxiliary_references() {
    let mut g = MemGit::new();
    g.commit("main", "c1");
    g.create_symref("refs/stacker/base/x", "refs/heads/main", "note").unwrap();
    g.create_ref("refs/stacker/start/x", &object("c1")).unwrap();
    g.create_ref("refs/stacker/remote/x", &object("c1")).unwrap();
    g.create_ref("refs/stacker/remote/y", &object("c1")).unwrap();
    g.create_ref("refs/stacker/start/z/w", &object("c1")).unwrap();
    g.create_ref("refs/stacker/other/v", &object("c1")).unwrap();
    let mut names: Vec<String> =
        g.tracked_branches().unwrap().iter().map(|b| b.name().to_string()).collect();
    names.sort();
    assert_eq!(names, vec!["x".to_string(), "y".to_string(), "z/w".to_string()]);
}

#[test]
fn the_configuration_is_a_set() {
    let mut g = MemGit::new();
    g.config_add("k", "v").unwrap();
    g.config_add("k", "v").unwrap();
    g.config_add("k", "w").unwrap();
    assert!(g.config_has("k", "v"));
    assert!(g.config_has("k", "w"));
    assert!(!g.config_has("j", "v"));
    g.config_unset_pattern("k", "v").unwrap();
    assert!(!g.config_has("k", "v"));
    assert!(g.config_has("k", "w"));
    g.config_unset_pattern("k", "v").unwrap();
    assert!(g.config_has("k", "w"));
}

#[test]
fn fetch_sees_what_the_remotes_have() {
    let mut g = MemGit::new();
    g.commit("main", "c1");
    g.set_remote_tip("origin", "main", "c0");
    g.set_remote_tip("other", "x", "c5");
    assert_eq!(g.seen_object("origin", "main"), None);
    assert!(g.fetch_all_prune().is_ok());
    assert_eq!(g.seen_object("origin", "main"), Some(object("c0")));
    assert_eq!(g.seen_object("other", "x"), Some(object("c5")));
    assert_eq!(g.seen_object("origin", "x"), None);
    assert_eq!(g.object_at("refs/heads/main"), Some(object("c1")));
    assert_eq!(g.remote_object("origin", "main"), Some(object("c0")));
    assert_eq!(g.ref_count(), 1);
}

#[test]
fn fetch_prunes_what_the_remotes_have_not() {
    let mut g = MemGit::new();
    g.commit("x", "c1");
    g.push(&branch("x"), &Some("origin".to_string()), &ObjectName::none()).unwrap();
    assert_eq!(g.seen_object("origin", "x"), Some(object("c1")));
    let mut fresh = MemGit::new();
    fresh.commit("x", "c1");
    fresh.set_remote_tip("origin", "y", "c2");
    fresh.push(&branch("x"), &Some("other".to_string()), &ObjectName::none()).unwrap();
    fresh.set_remote_tip("other", "x", "c3");
    assert_eq!(fresh.seen_object("other", "x"), Some(object("c1")));
    assert!(fresh.fetch_all_prune().is_ok());
    assert_eq!(fresh.seen_object("other", "x"), Some(object("c3")));
    assert_eq!(fresh.seen_object("origin", "y"), Some(object("c2")));
}

#[test]
fn a_refusal_says_why_on_the_error_stream() {
    let mut g = MemGit::new();
    let r = g.switch_branch(&branch("x"));
    assert_eq!(r, Err(stacker::object::Status::saying("no such branch")));
    let r = g.delete_symref("refs/stacker/base/x");
    assert_eq!(r, Err(stacker::object::Status::saying("no such symbolic reference")));
    g.commit("x", "c1");
    let r = g.create_branch(&branch("x"), &branch("x"));
    assert_eq!(r, Err(stacker::object::Status::saying("the branch exists")));
}
