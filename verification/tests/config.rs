use dotfm::os::Os;
use dotfm::config::Config;
use dotfm::error::Error;
use dotfm::os::Env;

#[test]
fn create_load_roundtrip() {
    let path = "/tmp/dotfm-test/config.toml";
    let root = "/tmp/dotfm-test";
    let cfg = Config::create(path, root, false, false).unwrap();
    assert_eq!(cfg.enabled(), Vec::<String>::new());
    assert_eq!(cfg.dotfiles_root().unwrap(), root);

    let text = cfg.render();
    let cfg2 = Config::load(path, Some(&text)).unwrap();
    assert_eq!(cfg2.dotfiles_root().unwrap(), root);
}

#[test]
fn enable_disable_preserves_format() {
    let path = "/tmp/d/config.toml";
    let text = "# leading comment\ndotfiles_root = \"/tmp/d\"\nenabled = [\n    \"a\",\n    \"b\",\n]\n";

    let mut cfg = Config::load(path, Some(text)).unwrap();
    assert!(cfg.enable("c"));
    assert!(!cfg.enable("a"));
    assert!(cfg.disable("b"));
    assert!(!cfg.disable("missing"));

    let text = cfg.render();
    assert!(text.contains("# leading comment"));
    assert_eq!(cfg.enabled(), vec!["a".to_string(), "c".to_string()]);
}

#[test]
fn load_without_file_is_config_missing() {
    match Config::load("/nowhere/config.toml", None) {
        Err(Error::ConfigMissing { path }) => assert_eq!(path, "/nowhere/config.toml"),
        other => panic!("expected ConfigMissing, got {other:?}"),
    }
}

#[test]
fn load_invalid_toml_is_parse_error() {
    match Config::load("/c.toml", Some("enabled = [")) {
        Err(Error::ConfigParse { path, .. }) => assert_eq!(path, "/c.toml"),
        other => panic!("expected ConfigParse, got {other:?}"),
    }
}

#[test]
fn create_refuses_existing_without_force() {
    match Config::create("/c.toml", "/d", true, false) {
        Err(e) => {
            assert!(matches!(e, Error::ConfigExists { .. }));
            assert_eq!(e.message(), "config already exists at /c.toml. use --force to overwrite");
        }
        Ok(_) => panic!("expected ConfigExists"),
    }
    let cfg = Config::create("/c.toml", "/d", true, true).unwrap();
    assert_eq!(cfg.dotfiles_root().unwrap(), "/d");
    assert_eq!(cfg.path(), "/c.toml");
}

#[test]
fn enable_keeps_list_sorted_and_creates_missing_list() {
    let mut cfg = Config::load("/c.toml", Some("dotfiles_root = \"/d\"\n")).unwrap();
    assert_eq!(cfg.enabled(), Vec::<String>::new());
    assert!(cfg.enable("zsh"));
    assert!(cfg.enable("alacritty"));
    assert!(cfg.enable("git"));
    assert_eq!(cfg.enabled(), vec!["alacritty".to_string(), "git".to_string(), "zsh".to_string()]);
    // Enabling again reports it was already there and keeps the list.
    assert!(!cfg.enable("git"));
    assert_eq!(cfg.enabled(), vec!["alacritty".to_string(), "git".to_string(), "zsh".to_string()]);
}

#[test]
fn disable_removes_every_occurrence_and_undoes_enable() {
    let mut cfg = Config::load("/c.toml", Some("enabled = [\"a\", \"b\", \"a\", 3]\n")).unwrap();
    assert_eq!(cfg.enabled(), vec!["a".to_string(), "b".to_string(), "a".to_string()]);
    assert!(cfg.disable("a"));
    assert_eq!(cfg.enabled(), vec!["b".to_string()]);
    assert!(cfg.enable("n"));
    assert!(cfg.disable("n"));
    assert_eq!(cfg.enabled(), vec!["b".to_string()]);
}

#[test]
fn set_dotfiles_root_replaces_value() {
    let mut cfg = Config::load("/c.toml", Some("dotfiles_root = \"/old\"\nenabled = []\n")).unwrap();
    cfg.set_dotfiles_root("/new");
    assert_eq!(cfg.dotfiles_root().unwrap(), "/new");
    assert!(cfg.render().contains("/new"));
}

#[test]
fn default_path_prefers_override_then_xdg() {
    let mut env = Env::new();
    env.set("HOME", "/home/me");
    assert_eq!(Config::default_path(&env, Os::Linux).ok().unwrap(), "/home/me/.config/dotfm/config.toml");
    env.set("XDG_CONFIG_HOME", "/xdg");
    assert_eq!(Config::default_path(&env, Os::Linux).ok().unwrap(), "/xdg/dotfm/config.toml");
    env.set("DOTFM_CONFIG", "/custom.toml");
    assert_eq!(Config::default_path(&env, Os::Linux).ok().unwrap(), "/custom.toml");
}

#[test]
fn edited_config_reads_back_the_same() {
    let text = "# leading comment\ndotfiles_root = \"/tmp/d\"\nenabled = [\"b\"]\n";
    let mut cfg = Config::load("/c.toml", Some(text)).unwrap();
    assert!(cfg.enable("a"));
    let saved = cfg.render();
    assert!(saved.contains("# leading comment"));
    let back = Config::load("/c.toml", Some(&saved)).unwrap();
    assert_eq!(back.enabled(), cfg.enabled());
    assert_eq!(back.dotfiles_root(), cfg.dotfiles_root());
}
