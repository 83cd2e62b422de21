use dotfm::style::{nerd_fonts_enabled, IconMode, Icons};

#[test]
fn auto_respects_nerd_font_env() {
    let icons = Icons::resolve(IconMode::Auto, Some("1"));
    assert_eq!(icons.enabled, Icons::nerd().enabled);
    let icons = Icons::resolve(IconMode::Auto, Some("0"));
    assert_eq!(icons.enabled, Icons::plain().enabled);
    let icons = Icons::resolve(IconMode::Auto, None);
    assert_eq!(icons.enabled, Icons::plain().enabled);
}

#[test]
fn explicit_override_wins() {
    assert_eq!(Icons::resolve(IconMode::Nerd, None).enabled, Icons::nerd().enabled);
    assert_eq!(Icons::resolve(IconMode::Plain, Some("1")).enabled, Icons::plain().enabled);
}

#[test]
fn nerd_font_values() {
    assert!(nerd_fonts_enabled(Some("yes")));
    assert!(nerd_fonts_enabled(Some(" 1 ")));
    assert!(!nerd_fonts_enabled(Some("  FALSE\t")));
    assert!(!nerd_fonts_enabled(Some("No")));
    assert!(!nerd_fonts_enabled(Some("   ")));
    assert!(!nerd_fonts_enabled(Some("")));
    assert!(nerd_fonts_enabled(Some("nope")));
    assert!(!nerd_fonts_enabled(None));
}

#[test]
fn icon_sets() {
    assert_eq!(Icons::plain().ok, "ok     ");
    assert_eq!(Icons::plain().tool_header, "==>");
    assert_eq!(Icons::nerd().enabled, "\u{f00c}");
    assert_eq!(Icons::nerd().skipped, "\u{f05e}  skip");
}

#[test]
fn default_mode_is_auto() {
    assert_eq!(IconMode::default(), IconMode::Auto);
}
