use dotfm::os::Os;
use dotfm::error::Error;
use dotfm::link::{classify, paths_equal, plan_ensure, plan_remove, Change, DstEntry, LinkState, LinkStep};
use dotfm::paths::{backup_path, join, link_location_of, parent_of, path_starts_with, absolutize};

#[test]
fn inspect_states() {
    let src = "/t/src";
    assert_eq!(classify(&DstEntry::Absent, "/t/dst", src, None, None, Os::Linux), LinkState::Missing);
    let correct = DstEntry::Symlink { target: "/t/src".to_string() };
    assert_eq!(classify(&correct, "/t/dst", src, Some("/t/src"), Some("/t/src"), Os::Linux), LinkState::CorrectLink);
    let wrong = DstEntry::Symlink { target: "/t/other".to_string() };
    assert!(matches!(
        classify(&wrong, "/t/dst", src, Some("/t/other"), Some("/t/src"), Os::Linux),
        LinkState::WrongLink { .. }
    ));
    assert_eq!(classify(&DstEntry::File, "/t/dst", src, None, None, Os::Linux), LinkState::ExistingFile);
    assert_eq!(classify(&DstEntry::Dir, "/t/dst", src, None, None, Os::Linux), LinkState::ExistingDir);
}

#[test]
fn classify_compares_written_paths_without_canonical_forms() {
    let link = DstEntry::Symlink { target: "/t//./src".to_string() };
    assert_eq!(classify(&link, "/t/dst", "/t/src", None, Some("/t/src"), Os::Linux), LinkState::CorrectLink);
    let relative = DstEntry::Symlink { target: "../dots/src".to_string() };
    assert_eq!(classify(&relative, "/home/me/.config/dst", "/home/me/dots/src", None, None, Os::Linux), LinkState::WrongLink { target: "../dots/src".to_string() });
    let inside = DstEntry::Symlink { target: "dots/src".to_string() };
    assert_eq!(classify(&inside, "/home/me/dst", "/home/me/dots/src", None, None, Os::Linux), LinkState::CorrectLink);
    assert!(paths_equal("a/b/", "a/./b", Os::Linux));
    assert!(!paths_equal("/a/b", "a/b", Os::Linux));
}

#[test]
fn ensure_creates_and_is_idempotent() {
    let plan = plan_ensure(&LinkState::Missing, "/t/src", "/t/child/dst", false, false).unwrap();
    assert_eq!(plan.change, Change::Created);
    assert_eq!(
        plan.steps,
        vec![
            LinkStep::CreateParent { path: "/t/child/dst".to_string() },
            LinkStep::Symlink { src: "/t/src".to_string(), dst: "/t/child/dst".to_string() },
        ]
    );
    let created = DstEntry::Symlink { target: "/t/src".to_string() };
    assert_eq!(classify(&created, "/t/dst", "/t/src", None, None, Os::Linux), LinkState::CorrectLink);
    let plan = plan_ensure(&LinkState::CorrectLink, "/t/src", "/t/child/dst", false, false).unwrap();
    assert_eq!(plan.change, Change::Noop);
    assert!(plan.steps.is_empty());
}

#[test]
fn ensure_force_backs_up() {
    let err = plan_ensure(&LinkState::ExistingFile, "/t/src", "/t/dst", false, false).err().unwrap();
    assert!(err.message().contains("exists"));
    assert!(matches!(err, Error::DestinationOccupied { .. }));

    let plan = plan_ensure(&LinkState::ExistingFile, "/t/src", "/t/dst", true, false).unwrap();
    assert_eq!(plan.change, Change::BackedUpAndReplaced);
    assert_eq!(
        plan.steps[0],
        LinkStep::Rename { from: "/t/dst".to_string(), to: "/t/dst.bak".to_string() }
    );
}

#[test]
fn ensure_replaces_wrong_link_and_dry_run_plans_nothing() {
    let wrong = LinkState::WrongLink { target: "/x".to_string() };
    let plan = plan_ensure(&wrong, "/s", "/d", false, false).unwrap();
    assert_eq!(plan.change, Change::Updated);
    assert_eq!(plan.steps[0], LinkStep::RemoveLink { path: "/d".to_string() });
    assert_eq!(plan.steps.len(), 3);
    let dry = plan_ensure(&wrong, "/s", "/d", false, true).unwrap();
    assert_eq!(dry.change, Change::Updated);
    assert!(dry.steps.is_empty());
    let dry = plan_ensure(&LinkState::ExistingDir, "/s", "/d", true, true).unwrap();
    assert_eq!(dry.change, Change::BackedUpAndReplaced);
    assert!(dry.steps.is_empty());
}

#[test]
fn remove_skips_foreign_link() {
    let entry = DstEntry::Symlink { target: "/t/foreign".to_string() };
    let plan = plan_remove(&entry, "/t/dst", Some("/t/foreign"), "/t/dotfiles", Some("/t/dotfiles"), false, Os::Linux);
    assert!(matches!(plan.change, Change::Skipped { .. }));
    assert!(!plan.delete);
}

#[test]
fn remove_deletes_our_link() {
    let entry = DstEntry::Symlink { target: "/t/dotfiles/src".to_string() };
    let plan = plan_remove(&entry, "/t/dst", Some("/t/dotfiles/src"), "/t/dotfiles", Some("/t/dotfiles"), false, Os::Linux);
    assert_eq!(plan.change, Change::Removed);
    assert!(plan.delete);
}

#[test]
fn remove_reasons_and_dry_run() {
    let plan = plan_remove(&DstEntry::Absent, "/t/dst", None, "/r", None, false, Os::Linux);
    assert_eq!(plan.change, Change::Skipped { reason: "/t/dst does not exist".to_string() });
    let plan = plan_remove(&DstEntry::File, "/t/dst", None, "/r", None, false, Os::Linux);
    assert_eq!(plan.change, Change::Skipped { reason: "/t/dst is not a symlink".to_string() });
    let entry = DstEntry::Symlink { target: "/rx/a".to_string() };
    let plan = plan_remove(&entry, "/t/dst", None, "/r", None, false, Os::Linux);
    assert_eq!(
        plan.change,
        Change::Skipped { reason: "/t/dst points outside dotfiles_root (/rx/a)".to_string() }
    );
    let relative = DstEntry::Symlink { target: "dots/a".to_string() };
    let plan = plan_remove(&relative, "/r/dst", None, "/r", None, false, Os::Linux);
    assert_eq!(plan.change, Change::Removed);
    let entry = DstEntry::Symlink { target: "/r/a".to_string() };
    let plan = plan_remove(&entry, "/t/dst", None, "/r", None, true, Os::Linux);
    assert_eq!(plan.change, Change::Removed);
    assert!(!plan.delete);
}

#[test]
fn path_helpers() {
    assert_eq!(join("/a", "b", Os::Linux), "/a/b");
    assert_eq!(join("/a/", "b", Os::Linux), "/a/b");
    assert_eq!(join("/a", "/b", Os::Linux), "/b");
    assert_eq!(join("", "b", Os::Linux), "b");
    assert_eq!(absolutize("rel", "/cwd", Os::Linux), "/cwd/rel");
    assert_eq!(absolutize("/abs", "/cwd", Os::Linux), "/abs");
    assert_eq!(backup_path("/t/dst"), "/t/dst.bak");
    assert!(path_starts_with("/r/a/b", "/r", Os::Linux));
    assert!(path_starts_with("/r", "/r/", Os::Linux));
    assert!(!path_starts_with("/rx", "/r", Os::Linux));
    assert!(!path_starts_with("r/a", "/r", Os::Linux));
}

#[test]
fn link_locations() {
    assert_eq!(parent_of("/home/me/.config/x", Os::Linux), "/home/me/.config");
    assert_eq!(parent_of("/x", Os::Linux), "/");
    assert_eq!(parent_of("x", Os::Linux), "");
    assert_eq!(link_location_of("/home/me/.config/x", "../dots/x", Os::Linux), "/home/me/.config/../dots/x");
    assert_eq!(link_location_of("/home/me/x", "/abs/x", Os::Linux), "/abs/x");
}

#[test]
fn paths_follow_the_platform() {
    assert_eq!(join("C:\\Users\\me", ".config", Os::Windows), "C:\\Users\\me\\.config");
    assert_eq!(join("C:\\Users\\me\\", "x", Os::Windows), "C:\\Users\\me\\x");
    assert_eq!(join("/home", "D:\\x", Os::Windows), "D:\\x");
    assert_eq!(join("C:\\home", "\\x", Os::Windows), "C:\\x");
    assert_eq!(join("C:", "x", Os::Windows), "C:x");
    assert_eq!(absolutize("\\x", "C:\\cwd", Os::Windows), "C:\\x");
    assert_eq!(absolutize("C:\\x", "D:\\cwd", Os::Windows), "C:\\x");
    assert_eq!(parent_of("C:\\x", Os::Windows), "C:\\");
    assert_eq!(link_location_of("C:\\a\\l", "t", Os::Windows), "C:\\a\\t");
    assert_eq!(join("/home", "D:\\x", Os::Linux), "/home/D:\\x");
    assert_eq!(join("/home", "\\x", Os::Linux), "/home/\\x");
    assert!(path_starts_with("C:\\r\\a", "C:/r", Os::Windows));
    assert!(!path_starts_with("/r\\a", "/r/a", Os::Linux));
    assert!(!paths_equal("./a", "a", Os::Linux));
    assert!(!paths_equal("./a", "./b/../a/.", Os::Linux));
    assert!(paths_equal("a/./b", "a/b", Os::Linux));
    assert_eq!(parent_of("C:\\Users\\me\\x", Os::Windows), "C:\\Users\\me");
}
