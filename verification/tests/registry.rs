use dotfm::commands::util::sorted_keys;
use dotfm::os::{Env, Os};
use dotfm::registry::{Hook, LinkSpec, LinkSrc, OsMap, Registry, Tool};

fn tool(description: Option<&str>, platforms: Option<Vec<&str>>, links: Vec<LinkSpec>) -> Tool {
    Tool {
        description: description.map(|d| d.to_string()),
        platforms: platforms.map(|p| p.into_iter().map(|s| s.to_string()).collect()),
        links,
        post_apply: vec![],
        script: None,
        unscript: None,
        doctor: None,
    }
}

fn dst(windows: Option<&str>, linux: Option<&str>) -> OsMap<String> {
    OsMap { windows: windows.map(|s| s.to_string()), linux: linux.map(|s| s.to_string()) }
}

#[test]
fn minimal_registry_lookup() {
    let mut reg = Registry::new();
    let link = LinkSpec {
        src: LinkSrc::Path("alacritty".to_string()),
        dst: dst(Some("$APPDATA/alacritty"), Some("$HOME/.config/alacritty")),
    };
    reg.insert("alacritty".to_string(), tool(Some("terminal"), None, vec![link]));
    let t = reg.get("alacritty").unwrap();
    assert_eq!(t.description.as_deref(), Some("terminal"));
    assert_eq!(t.links.len(), 1);
    match &t.links[0].src {
        LinkSrc::Path(p) => assert_eq!(p, "alacritty"),
        LinkSrc::Expand { .. } => panic!("expected Path"),
    }
    assert_eq!(t.links[0].dst.pick(Os::Linux), Some(&"$HOME/.config/alacritty".to_string()));
    assert!(reg.get("missing").is_none());
}

#[test]
fn insert_keeps_names_sorted_and_unique() {
    let mut reg = Registry::new();
    for name in ["zsh", "git", "alacritty", "git", "nvim"] {
        reg.insert(name.to_string(), tool(Some(name), None, vec![]));
    }
    assert_eq!(reg.len(), 4);
    assert_eq!(reg.names(), vec!["alacritty", "git", "nvim", "zsh"]);
    assert_eq!(sorted_keys(&reg), "alacritty, git, nvim, zsh");
    assert!(reg.contains_key("nvim"));
    assert!(!reg.contains_key("vim"));
    reg.insert("git".to_string(), tool(Some("second"), None, vec![]));
    assert_eq!(reg.get("git").unwrap().description.as_deref(), Some("second"));
    let (name, t) = reg.entry(0);
    assert_eq!(name, "alacritty");
    assert_eq!(t.description.as_deref(), Some("alacritty"));
}

#[test]
fn platforms_and_hooks_filter_by_os() {
    let t = tool(None, Some(vec!["linux"]), vec![]);
    assert!(t.supports(Os::Linux));
    assert!(!t.supports(Os::Windows));
    let any = tool(None, None, vec![]);
    assert!(any.supports(Os::Windows));
    let hook = Hook { run: vec!["git".to_string()], os: Some(vec!["windows".to_string()]) };
    assert!(hook.applies_to(Os::Windows));
    assert!(!hook.applies_to(Os::Linux));
    let every = Hook { run: vec![], os: None };
    assert!(every.applies_to(Os::Linux));
}

#[test]
fn resolve_path_and_expand_forms() {
    let mut env = Env::new();
    env.set("HOME", "/home/me");
    let single = LinkSpec {
        src: LinkSrc::Path("starship/starship.toml".to_string()),
        dst: dst(None, Some("$HOME/.config/starship.toml")),
    };
    let links = single.resolve("/dots", Os::Linux, &env).ok().unwrap().unwrap();
    assert_eq!(links.len(), 1);
    assert_eq!(links[0].src, "/dots/starship/starship.toml");
    assert_eq!(links[0].dst, "/home/me/.config/starship.toml");
    assert!(single.resolve("/dots", Os::Windows, &env).ok().unwrap().is_none());

    let code = LinkSpec {
        src: LinkSrc::Expand {
            dir: "code".to_string(),
            files: vec!["settings.json".to_string(), "keybindings.json".to_string()],
        },
        dst: dst(None, Some("$XDG_CONFIG_HOME/Code/User")),
    };
    let links = code.resolve("/dots", Os::Linux, &env).ok().unwrap().unwrap();
    assert_eq!(links.len(), 2);
    assert_eq!(links[0].src, "/dots/code/settings.json");
    assert_eq!(links[0].dst, "/home/me/.config/Code/User/settings.json");
    assert_eq!(links[1].src, "/dots/code/keybindings.json");
    assert_eq!(links[1].dst, "/home/me/.config/Code/User/keybindings.json");
}

#[test]
fn resolve_reports_expansion_failure() {
    let env = Env::new();
    let link = LinkSpec { src: LinkSrc::Path("x".to_string()), dst: dst(None, Some("~/x")) };
    assert!(link.resolve("/dots", Os::Linux, &env).is_err());
}

#[test]
fn tool_links_resolve_in_order_until_a_failure() {
    let mut env = Env::new();
    env.set("HOME", "/home/me");
    let ok = tool(None, None, vec![
        LinkSpec { src: LinkSrc::Path("a".to_string()), dst: dst(None, Some("~/a")) },
        LinkSpec { src: LinkSrc::Path("w".to_string()), dst: dst(Some("~/w"), None) },
        LinkSpec { src: LinkSrc::Path("c".to_string()), dst: dst(None, Some("$HOME/c")) },
    ]);
    let (items, failure) = ok.resolve_links("/dots", Os::Linux, &env);
    assert!(failure.is_none());
    assert_eq!(items.len(), 2);
    assert_eq!(items[0].src, "/dots/a");
    assert_eq!(items[0].dst, "/home/me/a");
    assert_eq!(items[1].src, "/dots/c");
    assert_eq!(items[1].dst, "/home/me/c");

    // Without a home directory, `~` cannot expand: the links before it
    // resolve, the ones after it are not looked at.
    let homeless = Env::new();
    let failing = tool(None, None, vec![
        LinkSpec { src: LinkSrc::Path("a".to_string()), dst: dst(None, Some("/etc/a")) },
        LinkSpec { src: LinkSrc::Path("w".to_string()), dst: dst(Some("~/w"), None) },
        LinkSpec { src: LinkSrc::Path("b".to_string()), dst: dst(None, Some("~/b")) },
        LinkSpec { src: LinkSrc::Path("c".to_string()), dst: dst(None, Some("/etc/c")) },
    ]);
    let (items, failure) = failing.resolve_links("/dots", Os::Linux, &homeless);
    assert_eq!(items.len(), 1);
    assert_eq!(items[0].dst, "/etc/a");
    assert!(failure.is_some());
}
