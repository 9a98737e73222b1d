use pwm::config::AppConfig;
use pwm::user_config::{
    builtin_themes, default_font, load_theme, parse_hex_color, session_theme_name, RawConfig, RawTheme,
    RawThemeSection, Theme, DEFAULT_FONT,
};

fn raw(black: &str, white: &str, grey: &str, accent: &str, font: &str) -> RawTheme {
    RawTheme {
        black: black.to_string(),
        white: white.to_string(),
        grey: grey.to_string(),
        accent: accent.to_string(),
        font: font.to_string(),
    }
}

fn colors(t: &Theme) -> (u32, u32, u32, u32) {
    (t.black, t.white, t.grey, t.accent)
}

#[test]
fn hex_color_six_digits_gets_opaque_alpha() {
    assert_eq!(parse_hex_color("#aabbcc"), Some(0xaabbccff));
    assert_eq!(parse_hex_color("0xaabbcc"), Some(0xaabbccff));
    assert_eq!(parse_hex_color("aabbcc"), Some(0xaabbccff));
    assert_eq!(parse_hex_color("000000"), Some(0x000000ff));
}

#[test]
fn hex_color_eight_digits_keeps_alpha() {
    assert_eq!(parse_hex_color("#AABBCCDD"), Some(0xaabbccdd));
    assert_eq!(parse_hex_color("0x282828ff"), Some(0x282828ff));
    assert_eq!(parse_hex_color("FFFFFFFF"), Some(0xffffffff));
    assert_eq!(parse_hex_color("00000000"), Some(0));
}

#[test]
fn hex_color_trims_and_strips_repeated_prefixes() {
    assert_eq!(parse_hex_color("  #123456 \n"), Some(0x123456ff));
    assert_eq!(parse_hex_color("0x0xff00ff"), Some(0xff00ffff));
    assert_eq!(parse_hex_color("##ff00ff"), Some(0xff00ffff));
    // the `0x` prefix is removed before the `#` one, not after
    assert_eq!(parse_hex_color("#0xff00ff"), None);
}

#[test]
fn hex_color_rejects_bad_input() {
    assert_eq!(parse_hex_color(""), None);
    assert_eq!(parse_hex_color("#12345"), None);
    assert_eq!(parse_hex_color("#1234567"), None);
    assert_eq!(parse_hex_color("#123456789"), None);
    assert_eq!(parse_hex_color("zzzzzz"), None);
    assert_eq!(parse_hex_color("12 456"), None);
    assert_eq!(parse_hex_color("-12345"), None);
    assert_eq!(parse_hex_color("ééé"), None);
}

#[test]
fn hex_color_rejects_a_sign() {
    assert_eq!(parse_hex_color("+12345"), None);
    assert_eq!(parse_hex_color("+fffff"), None);
    assert_eq!(parse_hex_color("+1234567"), None);
    assert_eq!(parse_hex_color("0x+fffff"), None);
    assert_eq!(parse_hex_color("#+1234567"), None);
}

#[test]
fn default_font_is_jetbrains_nerd_font() {
    assert_eq!(default_font(), "JetBrainsMono Nerd Font");
    assert_eq!(DEFAULT_FONT, "JetBrainsMono Nerd Font");
}

#[test]
fn builtin_theme_list() {
    let themes = builtin_themes();
    let d77 = themes.get("d77").unwrap();
    assert_eq!(colors(d77), (0x282828ff, 0xebdbb2ff, 0x3c3836ff, 0xaa96daff));
    assert_eq!(d77.font, "JetBrainsMono Nerd Font");
    assert_eq!(colors(themes.get("gruvbox_dark").unwrap()).3, 0xfe8019ff);
    assert_eq!(
        colors(themes.get("arc_dark").unwrap()),
        (0x2f343fff, 0xd3dae3ff, 0x353945ff, 0x5294e2ff)
    );
    assert_eq!(
        colors(themes.get("dracula").unwrap()),
        (0x282a36ff, 0xf8f8f2ff, 0x44475aff, 0xbd93f9ff)
    );
    assert_eq!(
        colors(themes.get("tokyo_night").unwrap()),
        (0x1a1b26ff, 0xc0caf5ff, 0x414868ff, 0xbb9af7ff)
    );
    assert!(themes.get("solarized").is_none());
    assert_eq!(themes.into_entries().len(), 5);
}

#[test]
fn resolve_falls_back_field_by_field() {
    let fallback = builtin_themes().get("d77").unwrap().clone();
    let palette = raw("#101010", "not a color", "0x20202020", "", "Fira Code");
    let t = palette.resolve("mine", &fallback);
    assert_eq!(t.black, 0x101010ff);
    assert_eq!(t.white, fallback.white);
    assert_eq!(t.grey, 0x20202020);
    assert_eq!(t.accent, fallback.accent);
    assert_eq!(t.font, "Fira Code");
}

#[test]
fn load_theme_without_config_is_d77() {
    let t = load_theme(&RawConfig::default());
    assert_eq!(colors(&t), (0x282828ff, 0xebdbb2ff, 0x3c3836ff, 0xaa96daff));
    assert_eq!(t.font, "JetBrainsMono Nerd Font");
}

#[test]
fn load_theme_selects_builtin_by_name() {
    let cfg = RawConfig {
        theme: RawThemeSection { active: Some("dracula".to_string()), palettes: vec![] },
    };
    let t = load_theme(&cfg);
    assert_eq!(colors(&t), (0x282a36ff, 0xf8f8f2ff, 0x44475aff, 0xbd93f9ff));
}

#[test]
fn load_theme_unknown_name_falls_back_to_d77() {
    let cfg = RawConfig {
        theme: RawThemeSection { active: Some("no_such_theme".to_string()), palettes: vec![] },
    };
    let t = load_theme(&cfg);
    assert_eq!(colors(&t), (0x282828ff, 0xebdbb2ff, 0x3c3836ff, 0xaa96daff));
}

#[test]
fn load_theme_user_palette_overrides_builtin() {
    let cfg = RawConfig {
        theme: RawThemeSection {
            active: Some("gruvbox_dark".to_string()),
            palettes: vec![(
                "gruvbox_dark".to_string(),
                raw("#000000", "#ffffff", "oops", "#ff0000", "Hack"),
            )],
        },
    };
    let t = load_theme(&cfg);
    // grey falls back to gruvbox_dark's own, not to d77's
    assert_eq!(colors(&t), (0x000000ff, 0xffffffff, 0x3c3836ff, 0xff0000ff));
    assert_eq!(t.font, "Hack");
}

#[test]
fn load_theme_new_palette_falls_back_to_d77() {
    let cfg = RawConfig {
        theme: RawThemeSection {
            active: Some("mine".to_string()),
            palettes: vec![
                ("other".to_string(), raw("#111111", "#111111", "#111111", "#111111", "X")),
                ("mine".to_string(), raw("bad", "bad", "#abcdef", "bad", "Y")),
            ],
        },
    };
    let t = load_theme(&cfg);
    assert_eq!(colors(&t), (0x282828ff, 0xebdbb2ff, 0xabcdefff, 0xaa96daff));
    assert_eq!(t.font, "Y");
}

#[test]
fn load_theme_palette_for_d77_does_not_change_fallback_for_unknown() {
    let cfg = RawConfig {
        theme: RawThemeSection {
            active: Some("missing".to_string()),
            palettes: vec![(
                "d77".to_string(),
                raw("#010101", "#010101", "#010101", "#010101", "Z"),
            )],
        },
    };
    // an unknown active name falls back to the built-in d77, not the user's
    let t = load_theme(&cfg);
    assert_eq!(colors(&t), (0x282828ff, 0xebdbb2ff, 0x3c3836ff, 0xaa96daff));
}

#[test]
fn app_config_defaults() {
    let a = AppConfig::default();
    assert_eq!(a.terminal, "st");
    assert_eq!(a.launcher, "dmenu_run");
    assert_eq!(a.locker, "slock");
    assert_eq!(a.startup_script, "/etc/xdg/pwm/startup.sh");
}

#[test]
fn session_theme_name_is_active_when_it_exists() {
    let named = |active: Option<&str>, palettes: Vec<(String, RawTheme)>| RawConfig {
        theme: RawThemeSection { active: active.map(|a| a.to_string()), palettes },
    };
    assert_eq!(session_theme_name(&RawConfig::default()), "d77");
    assert_eq!(session_theme_name(&named(Some("dracula"), vec![])), "dracula");
    assert_eq!(session_theme_name(&named(Some("nope"), vec![])), "d77");
    let mine = vec![("mine".to_string(), raw("#000000", "#000000", "#000000", "#000000", "F"))];
    assert_eq!(session_theme_name(&named(Some("mine"), mine)), "mine");
}

#[test]
fn lavender_is_an_opaque_rrggbbaa_color() {
    assert_eq!(pwm::config::LAVENDER, 0xaa96daff);
    assert_eq!(pwm::config::LAVENDER, builtin_themes().get("d77").unwrap().accent);
}

#[test]
fn apps_settings_fall_back_to_builtins() {
    let a = pwm::user_config::Apps::with_defaults(Some("alacritty".to_string()), None, None, Some("/tmp/s.sh".to_string()));
    assert_eq!(a.terminal, "alacritty");
    assert_eq!(a.launcher, "dmenu_run");
    assert_eq!(a.locker, "slock");
    assert_eq!(a.startup_script, "/tmp/s.sh");
}
