use dotfm::commands::add::plan_add;
use dotfm::commands::apply::{
    apply_exit_code, apply_step, change_badge, hook_runs, hook_text, script_for, select_targets, tool_step, ApplyAction,
    ApplyPos, StepOutcome, ToolStep,
};
use dotfm::commands::diff::{
    content_diff, diff_any_drift, diff_exit_code, diff_targets, drift_line, is_binary, link_drift, registry_drift,
    render_changes, reports_in_sync, DiffTag,
};
use dotfm::commands::doctor::{
    developer_mode_enabled, doctor_exit_code, doctor_script_for, doctor_targets, enabled_links_ok, link_problem, LinkCheck,
};
use dotfm::commands::init::{candidate_root, resolve_dotfiles_root};
use dotfm::commands::list::{list_line, list_root};
use dotfm::commands::remove::{remove_exit_code, removal_step, warns_without_unscript, RemovalStep};
use dotfm::commands::status::{status_badge, status_exit_code};
use dotfm::commands::util::effective_root;
use dotfm::config::Config;
use dotfm::error::Error;
use dotfm::link::{Change, LinkState};
use dotfm::os::{Env, Os};
use dotfm::registry::{Hook, OsMap, Registry, ResolvedLink, Tool};
use dotfm::style::Icons;

fn tool(platforms: Option<Vec<&str>>) -> Tool {
    Tool {
        description: None,
        platforms: platforms.map(|p| p.into_iter().map(|s| s.to_string()).collect()),
        links: vec![],
        post_apply: vec![],
        script: None,
        unscript: None,
        doctor: None,
    }
}

fn registry(names: &[&str]) -> Registry {
    let mut reg = Registry::new();
    for n in names {
        reg.insert(n.to_string(), tool(None));
    }
    reg
}

fn strings(v: &[&str]) -> Vec<String> {
    v.iter().map(|s| s.to_string()).collect()
}

#[test]
fn add_unknown_tool_errors() {
    let reg = registry(&["alacritty", "starship"]);
    let mut cfg = Config::create("/c.toml", "/d", false, false).unwrap();
    let err = plan_add(&mut cfg, &reg, &strings(&["alacritty", "nope"])).err().unwrap();
    assert_eq!(
        err,
        Error::UnknownTool { name: "nope".to_string(), available: "alacritty, starship".to_string() }
    );
    assert!(err.message().contains("unknown tool"));
    assert!(cfg.enabled().is_empty());
}

#[test]
fn add_reports_added_and_skipped() {
    let reg = registry(&["alacritty", "git", "starship"]);
    let mut cfg = Config::load("/c.toml", Some("dotfiles_root = \"/d\"\nenabled = [\"git\"]\n")).unwrap();
    let out = plan_add(&mut cfg, &reg, &strings(&["starship", "git", "alacritty", "starship"])).unwrap();
    assert_eq!(out.added, strings(&["starship", "alacritty"]));
    assert_eq!(out.skipped, strings(&["git", "starship"]));
    assert_eq!(cfg.enabled(), strings(&["alacritty", "git", "starship"]));
    assert_eq!(cfg.dotfiles_root().unwrap(), "/d");
    assert_eq!(cfg.path(), "/c.toml");
}

#[test]
fn apply_targets_and_codes() {
    let enabled = strings(&["a", "b"]);
    assert_eq!(select_targets(&enabled, &vec![]).unwrap(), enabled);
    assert_eq!(select_targets(&enabled, &strings(&["b"])).unwrap(), strings(&["b"]));
    assert_eq!(
        select_targets(&enabled, &strings(&["b", "c", "d"])).unwrap_err(),
        Error::NotEnabled { name: "c".to_string() }
    );
    assert_eq!(apply_exit_code(0), 0);
    assert_eq!(apply_exit_code(3), 1);
    let icons = Icons::plain();
    assert_eq!(change_badge(&Change::Noop, icons), "ok   ");
    assert_eq!(change_badge(&Change::Created, icons), "link ");
    assert_eq!(change_badge(&Change::BackedUpAndReplaced, icons), "bak  ");
}

#[test]
fn apply_tool_steps_hooks_and_scripts() {
    let mut reg = registry(&["a"]);
    reg.insert("w".to_string(), tool(Some(vec!["windows"])));
    assert_eq!(tool_step(&reg, "a", Os::Linux), ToolStep::Apply);
    assert_eq!(tool_step(&reg, "w", Os::Linux), ToolStep::Unsupported);
    assert_eq!(tool_step(&reg, "x", Os::Linux), ToolStep::Missing);
    let hook = Hook { run: strings(&["git", "config", "--global", "init.defaultBranch", "main"]), os: None };
    assert!(hook_runs(&hook, Os::Linux));
    assert_eq!(hook_text(&hook), "git config --global init.defaultBranch main");
    assert!(!hook_runs(&Hook { run: vec![], os: None }, Os::Linux));
    let mut t = tool(None);
    t.script = Some(OsMap { windows: Some("setup.ps1".to_string()), linux: None });
    assert_eq!(script_for(&t, Os::Windows), Some("setup.ps1".to_string()));
    assert_eq!(script_for(&t, Os::Linux), None);
    assert!(warns_without_unscript(&t));
    t.doctor = Some(OsMap { windows: None, linux: Some("doctor.sh".to_string()) });
    assert_eq!(doctor_script_for(&t, Os::Linux), Some("doctor.sh".to_string()));
}

#[test]
fn remove_steps_and_code() {
    let reg = registry(&["a"]);
    let enabled = strings(&["a", "gone"]);
    assert_eq!(removal_step(&enabled, &reg, "a"), RemovalStep::Remove);
    assert_eq!(removal_step(&enabled, &reg, "gone"), RemovalStep::NotInRegistry);
    assert_eq!(removal_step(&enabled, &reg, "b"), RemovalStep::NotEnabled);
    assert_eq!(remove_exit_code(true), 2);
    assert_eq!(remove_exit_code(false), 0);
}

#[test]
fn status_badges_and_code() {
    let icons = Icons::plain();
    assert_eq!(status_badge(&LinkState::CorrectLink, icons), ("ok     ", false));
    assert_eq!(status_badge(&LinkState::Missing, icons), ("missing", true));
    assert_eq!(status_badge(&LinkState::ExistingDir, icons), ("!!     ", true));
    assert_eq!(status_exit_code(true), 1);
    assert_eq!(status_exit_code(false), 0);
}

#[test]
fn roots_for_init_list_and_commands() {
    assert_eq!(resolve_dotfiles_root(Some("dots"), "/home/me", true, Os::Linux).unwrap(), "/home/me/dots");
    assert_eq!(
        resolve_dotfiles_root(Some("dots"), "/home/me", false, Os::Linux).unwrap_err(),
        Error::RegistryMissing { path: "/home/me/dots".to_string() }
    );
    assert_eq!(candidate_root(Some("dots"), "/home/me", Os::Linux), "/home/me/dots");
    assert_eq!(candidate_root(None, "/home/me", Os::Linux), "/home/me");
    assert_eq!(resolve_dotfiles_root(None, "/home/me/dots", true, Os::Linux).unwrap(), "/home/me/dots");
    assert_eq!(resolve_dotfiles_root(None, "/home/me", false, Os::Linux).unwrap_err(), Error::DotfilesRootUnknown);

    let mut env = Env::new();
    env.set("HOME", "/home/me");
    let homeless = Env::new();
    let cfg = Config::create("/c.toml", "/recorded", false, false).unwrap();
    assert_eq!(effective_root(&cfg, None, "/cwd", &env, Os::Linux).unwrap(), "/recorded");
    assert_eq!(effective_root(&cfg, Some("rel"), "/cwd", &env, Os::Linux).unwrap(), "/cwd/rel");
    let empty = Config::load("/c.toml", Some("")).unwrap();
    assert_eq!(effective_root(&empty, None, "/cwd", &env, Os::Linux).unwrap_err(), Error::DotfilesRootUnknown);
    let tilde = Config::load("/c.toml", Some("dotfiles_root = \"~/dotfiles\"\n")).unwrap();
    assert_eq!(effective_root(&tilde, None, "/cwd", &env, Os::Linux).unwrap(), "/home/me/dotfiles");
    assert_eq!(effective_root(&tilde, None, "/cwd", &homeless, Os::Linux).unwrap_err(), Error::HomeUnknown);
    assert_eq!(list_root(None, Some(&tilde), "/cwd", false, &env).unwrap(), "/home/me/dotfiles");

    assert_eq!(list_root(Some("/flag"), Some(&cfg), "/cwd", true, &env).unwrap(), "/flag");
    assert_eq!(list_root(None, Some(&cfg), "/cwd", true, &env).unwrap(), "/recorded");
    assert_eq!(list_root(None, Some(&empty), "/cwd", true, &env).unwrap_err(), Error::RootNotSet);
    assert_eq!(list_root(None, None, "/cwd", true, &env).unwrap(), "/cwd");
    assert_eq!(list_root(None, None, "/cwd", false, &env).unwrap_err(), Error::NoRootSupplied);
}

#[test]
fn list_lines() {
    let icons = Icons::plain();
    assert_eq!(
        list_line(true, "alacritty", Some("Alacritty"), true, icons),
        "* alacritty        Alacritty"
    );
    assert_eq!(
        list_line(false, "wsl", None, false, icons),
        "  wsl               (not on this OS)"
    );
}

#[test]
fn doctor_targets_and_code() {
    let enabled = strings(&["a", "b"]);
    assert_eq!(doctor_targets(&enabled, &strings(&["c"]), false), strings(&["c"]));
    assert_eq!(doctor_targets(&enabled, &vec![], true), enabled);
    assert!(doctor_targets(&enabled, &vec![], false).is_empty());
    assert_eq!(doctor_exit_code(true, true), 2);
    assert_eq!(doctor_exit_code(false, true), 1);
    assert_eq!(doctor_exit_code(false, false), 0);
    let icons = Icons::plain();
    assert_eq!(link_problem(&LinkState::CorrectLink, icons), None);
    assert_eq!(link_problem(&LinkState::WrongLink { target: "/x".to_string() }, icons), Some("wrong  "));
}

#[test]
fn diff_registry_and_link_drift() {
    let mut reg = registry(&["alacritty", "git", "starship"]);
    reg.insert("wintool".to_string(), tool(Some(vec!["windows"])));
    let enabled = strings(&["git", "old"]);
    let (orphaned, available) = registry_drift(&reg, &enabled, Os::Linux);
    assert_eq!(orphaned, strings(&["old"]));
    assert_eq!(available, strings(&["alacritty", "starship"]));
    let icons = Icons::plain();
    assert_eq!(drift_line(&LinkState::CorrectLink, "/s", "/d", icons), None);
    assert_eq!(drift_line(&LinkState::Missing, "/s", "/d", icons), Some("  missing  /d".to_string()));
    assert_eq!(
        drift_line(&LinkState::WrongLink { target: "/t".to_string() }, "/s", "/d", icons),
        Some("  wrong    /d\n      expected: /s\n      actual:   /t".to_string())
    );
    assert_eq!(
        drift_line(&LinkState::ExistingFile, "/s", "/d", icons),
        Some("  !!       /d (file, not a symlink)".to_string())
    );
    assert_eq!(diff_exit_code(true), 1);
    assert_eq!(diff_exit_code(false), 0);
}

#[test]
fn diff_content() {
    assert!(is_binary(&[1, 0, 2]));
    assert!(!is_binary(b"text"));
    let mut late = vec![1u8; 9000];
    late[8500] = 0;
    assert!(!is_binary(&late));
    let out = content_diff("t", "/s", "/d", Some(b"a\nb\n"), Some(b"a\nc\n"));
    assert_eq!(out, "--- t: /s (expected)\n+++ t: /d (actual)\n-b\n+c\n");
    let out = content_diff("t", "/s", "/d", Some(&[0, 1]), Some(b"x"));
    assert_eq!(out, "--- t: /s (expected)\n+++ t: /d (actual)\n  (binary files, diff suppressed)\n");
    let out = content_diff("t", "/s", "/d", None, Some(b"x"));
    assert_eq!(out, "--- t: /s (expected)\n+++ t: /d (actual)\n  (unreadable file, diff suppressed)\n");
    let changes = vec![
        (DiffTag::Equal, "same\n".to_string()),
        (DiffTag::Delete, "old\n".to_string()),
        (DiffTag::Insert, "new\n".to_string()),
    ];
    assert_eq!(render_changes(&changes), "-old\n+new\n");
}

#[test]
fn diff_targets_and_in_sync_report() {
    let enabled = strings(&["git", "zsh"]);
    assert_eq!(diff_targets(&enabled, &vec![]), enabled);
    assert_eq!(diff_targets(&enabled, &strings(&["nvim"])), strings(&["nvim"]));
    let reg = registry(&["git"]);
    assert!(reports_in_sync(false, &strings(&["zsh", "git"]), &reg));
    assert!(!reports_in_sync(true, &strings(&["git"]), &reg));
    assert!(!reports_in_sync(false, &strings(&["zsh"]), &reg));
    assert!(!reports_in_sync(false, &vec![], &reg));
}

#[test]
fn developer_mode_from_registry_output() {
    let on = "\r\nHKEY_LOCAL_MACHINE\\SOFTWARE\\Microsoft\\Windows\\CurrentVersion\\AppModelUnlock\r\n    AllowDevelopmentWithoutDevLicense    REG_DWORD    0x1\r\n";
    let off = "    AllowDevelopmentWithoutDevLicense    REG_DWORD    0x0\r\n";
    assert!(developer_mode_enabled(true, on));
    assert!(!developer_mode_enabled(false, on));
    assert!(!developer_mode_enabled(true, off));
    assert!(!developer_mode_enabled(true, ""));
    assert!(!developer_mode_enabled(true, "0x"));
}

fn link(src: &str, dst: &str) -> ResolvedLink {
    ResolvedLink { src: src.to_string(), dst: dst.to_string() }
}

#[test]
fn link_drift_of_a_tool() {
    let icons = Icons::plain();
    let checks = vec![
        (link("/s/a", "/d/a"), LinkState::CorrectLink),
        (link("/s/b", "/d/b"), LinkState::ExistingFile),
        (link("/s/c", "/d/c"), LinkState::Missing),
    ];
    let drift = link_drift(&checks, icons);
    assert!(drift.drifted);
    assert_eq!(drift.lines, vec![
        "  !!       /d/b (file, not a symlink)".to_string(),
        "  missing  /d/c".to_string(),
    ]);
    assert_eq!(drift.content_targets.len(), 1);
    assert_eq!(drift.content_targets[0].src, "/s/b");
    assert_eq!(drift.content_targets[0].dst, "/d/b");
    let fine = link_drift(&vec![(link("/s/a", "/d/a"), LinkState::CorrectLink)], icons);
    assert!(!fine.drifted);
    assert!(fine.lines.is_empty());
    assert!(!diff_any_drift(&vec![], &vec![], &vec![false, false]));
    assert!(diff_any_drift(&vec![], &vec![], &vec![false, true]));
    assert!(diff_any_drift(&strings(&["gone"]), &vec![], &vec![]));
    assert!(diff_any_drift(&vec![], &strings(&["available"]), &vec![]));
}

#[test]
fn doctor_link_verdict() {
    let reg = registry(&["git"]);
    let good = vec![LinkCheck::Inspected(LinkState::CorrectLink)];
    assert!(enabled_links_ok(&strings(&["git"]), &reg, &good));
    assert!(enabled_links_ok(&vec![], &reg, &vec![]));
    assert!(!enabled_links_ok(&strings(&["git", "zsh"]), &reg, &good));
    assert!(!enabled_links_ok(&strings(&["git"]), &reg, &vec![LinkCheck::Inspected(LinkState::Missing)]));
    assert!(!enabled_links_ok(&strings(&["git"]), &reg, &vec![LinkCheck::Unresolved]));
    assert!(!enabled_links_ok(&strings(&["git"]), &reg, &vec![LinkCheck::InspectFailed]));
}

#[test]
fn apply_steps_in_order() {
    let mut t = tool(None);
    t.script = Some(OsMap { windows: None, linux: Some("setup.sh".to_string()) });
    t.post_apply = vec![
        Hook { run: vec!["win".to_string()], os: Some(vec!["windows".to_string()]) },
        Hook { run: vec!["echo".to_string(), "hi".to_string()], os: None },
    ];
    let (pos, act) = apply_step(&t, Os::Linux, false, 1, false, ApplyPos::Links(0), StepOutcome::Started);
    assert!(matches!(act, ApplyAction::EnsureLink(0)));
    let (pos, act) = apply_step(&t, Os::Linux, false, 1, false, pos, StepOutcome::Succeeded);
    assert!(matches!(act, ApplyAction::RunScript(ref s) if s == "setup.sh"));
    let (pos, act) = apply_step(&t, Os::Linux, false, 1, false, pos, StepOutcome::Succeeded);
    assert!(matches!(act, ApplyAction::RunHook(1)));
    let (pos, act) = apply_step(&t, Os::Linux, false, 1, false, pos, StepOutcome::Succeeded);
    assert!(matches!(act, ApplyAction::Done));
    assert_eq!(pos, ApplyPos::Finished);

    let (_, act) = apply_step(&t, Os::Linux, true, 0, false, ApplyPos::Links(0), StepOutcome::Started);
    assert!(matches!(act, ApplyAction::PrintScript(_)));
    let (_, act) = apply_step(&t, Os::Linux, true, 0, false, ApplyPos::Script, StepOutcome::Succeeded);
    assert!(matches!(act, ApplyAction::PrintHook(1)));
    let (pos, act) = apply_step(&t, Os::Linux, false, 2, false, ApplyPos::Links(1), StepOutcome::Failed);
    assert!(matches!(act, ApplyAction::Fail));
    assert_eq!(pos, ApplyPos::Finished);
    let (_, act) = apply_step(&t, Os::Linux, false, 1, true, ApplyPos::Links(1), StepOutcome::Succeeded);
    assert!(matches!(act, ApplyAction::Fail));
    let (_, act) = apply_step(&t, Os::Windows, false, 0, false, ApplyPos::Links(0), StepOutcome::Started);
    assert!(matches!(act, ApplyAction::RunHook(0)));
}

#[test]
fn add_keeps_the_list_sorted_and_unique() {
    let reg = registry(&["a", "b", "c"]);
    let mut cfg = Config::load("/c.toml", Some("enabled = [\"c\", \"a\"]\n")).unwrap();
    let out = plan_add(&mut cfg, &reg, &strings(&["b", "b"])).unwrap();
    assert_eq!(out.added, strings(&["b"]));
    assert_eq!(cfg.enabled(), strings(&["a", "b", "c"]));
}

#[test]
fn reapplying_a_linked_tool_changes_nothing() {
    let t = tool(None);
    let (pos, act) = apply_step(&t, Os::Linux, false, 2, false, ApplyPos::Links(0), StepOutcome::Started);
    assert!(matches!(act, ApplyAction::EnsureLink(0)));
    let (pos, act) = apply_step(&t, Os::Linux, false, 2, false, pos, StepOutcome::Succeeded);
    assert!(matches!(act, ApplyAction::EnsureLink(1)));
    let (_, act) = apply_step(&t, Os::Linux, false, 2, false, pos, StepOutcome::Succeeded);
    assert!(matches!(act, ApplyAction::Done));
    let plan = dotfm::link::plan_ensure(&LinkState::CorrectLink, "/s", "/d", true, false).unwrap();
    assert_eq!(plan.change, Change::Noop);
    assert!(plan.steps.is_empty());
    assert_eq!(apply_exit_code(0), 0);
}
