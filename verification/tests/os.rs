use dotfm::os::{expand, expand_tilde, lookup_var, Env, ExpandError, Os, os_for_separator};

#[test]
fn expand_home_tilde() {
    let mut env = Env::new();
    env.set("HOME", "/home/me");
    let p = expand("~/foo", &env, Os::Linux).unwrap();
    assert!(p.starts_with("/home/me"));
    assert_eq!(p, "/home/me/foo");
}

#[test]
fn expand_env_var() {
    let mut env = Env::new();
    env.set("DOTUP_TEST_VAR", "/tmp/x");
    let p = expand("$DOTUP_TEST_VAR/y", &env, Os::Linux).unwrap();
    assert_eq!(p, "/tmp/x/y");
}

#[test]
fn expand_xdg_fallback() {
    let mut env = Env::new();
    env.set("HOME", "/home/me");
    let p = expand("$XDG_CONFIG_HOME/app", &env, Os::Linux).unwrap();
    assert_eq!(p, "/home/me/.config/app");
}

#[test]
fn expand_braces_unknown_and_plain() {
    let mut env = Env::new();
    env.set("A", "va");
    assert_eq!(expand("pre${A}post", &env, Os::Linux).unwrap(), "prevapost");
    assert_eq!(expand("$UNKNOWN/x", &env, Os::Linux).unwrap(), "$UNKNOWN/x");
    assert_eq!(expand("plain/path", &env, Os::Linux).unwrap(), "plain/path");
}

#[test]
fn expand_without_home_fails() {
    let env = Env::new();
    let err = expand("$XDG_CONFIG_HOME/app", &env, Os::Linux).unwrap_err();
    assert_eq!(
        err,
        ExpandError::Lookup {
            input: "$XDG_CONFIG_HOME/app".to_string(),
            var_name: "XDG_CONFIG_HOME".to_string(),
            cause: "no HOME/USERPROFILE".to_string(),
        }
    );
    assert_eq!(
        err.message(),
        "failed to expand variables in $XDG_CONFIG_HOME/app: error looking key 'XDG_CONFIG_HOME' up: no HOME/USERPROFILE"
    );
    let err = expand("~/x", &env, Os::Linux).unwrap_err();
    assert_eq!(err, ExpandError::NoHome);
    assert_eq!(err.message(), "cannot expand ~ without HOME/USERPROFILE");
}

#[test]
fn userprofile_stands_in_for_home() {
    let mut env = Env::new();
    env.set("USERPROFILE", "C:/Users/me");
    assert_eq!(expand("~/x", &env, Os::Linux).unwrap(), "C:/Users/me/x");
    assert_eq!(expand("$HOME/y", &env, Os::Linux).unwrap(), "C:/Users/me/y");
}

#[test]
fn env_set_shadows_and_reads_back() {
    let mut env = Env::new();
    assert_eq!(env.var("K"), None);
    env.set("K", "1");
    env.set("K", "2");
    assert_eq!(env.var("K"), Some("2".to_string()));
    assert_eq!(env.home(), None);
    assert_eq!(lookup_var(&env, "OTHER", Os::Linux), Ok(None));
    assert_eq!(lookup_var(&env, "XDG_CONFIG_HOME", Os::Linux), Err("no HOME/USERPROFILE".to_string()));
}

#[test]
fn tilde_only_at_start() {
    assert_eq!(expand_tilde("a/~b", None).unwrap(), "a/~b");
    assert_eq!(expand_tilde("~", Some("/h")).unwrap(), "/h");
}

#[test]
fn os_names() {
    assert_eq!(Os::Windows.as_str(), "windows");
    assert_eq!(Os::Linux.as_str(), "linux");
    assert_eq!(os_for_separator('\\'), Os::Windows);
    assert_eq!(os_for_separator('/'), Os::Linux);
    let os = Os::current();
    assert!(os == Os::Windows || os == Os::Linux);
}

#[test]
fn expand_single_references() {
    let mut env = Env::new();
    env.set("USERPROFILE", "C:/Users/me");
    assert_eq!(expand("$HOME/x", &env, Os::Linux).unwrap(), "C:/Users/me/x");
    assert_eq!(expand("~/x", &env, Os::Linux).unwrap(), "C:/Users/me/x");
    assert_eq!(expand("pre/$NOPE.d/x", &env, Os::Linux).unwrap(), "pre/$NOPE.d/x");
    env.set("A_1", "v");
    assert_eq!(expand("p/$A_1", &env, Os::Linux).unwrap(), "p/v");
    assert_eq!(expand("p/$A_1-q", &env, Os::Linux).unwrap(), "p/v-q");
    let homeless = Env::new();
    assert!(expand("~/x", &homeless, Os::Linux).is_err());
    assert_eq!(expand("$HOME/x", &homeless, Os::Linux).unwrap(), "$HOME/x");
}

#[test]
fn expand_single_braced_references() {
    let mut env = Env::new();
    env.set("HOME", "/home/me");
    env.set("TOOL", "nvim");
    assert_eq!(expand("${XDG_CONFIG_HOME}/app", &env, Os::Linux).unwrap(), "/home/me/.config/app");
    assert_eq!(expand("/opt/${TOOL}rc", &env, Os::Linux).unwrap(), "/opt/nvimrc");
    assert_eq!(expand("/opt/${NOPE}/x", &env, Os::Linux).unwrap(), "/opt/${NOPE}/x");
    assert!(expand("${XDG_CONFIG_HOME}/app", &Env::new(), Os::Linux).is_err());
}
