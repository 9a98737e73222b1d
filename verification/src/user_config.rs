//! The user-editable side of the configuration: colour themes, the palettes
//! a user may define for them, and the values of `config.toml` that the
//! keymap is built from.
//!
//! Reading the file and decoding its TOML happen outside this library; what
//! is decided from the decoded values is here.

use vstd::prelude::*;
use crate::config::AppConfig;
use crate::table::{
    Table, table_lookup, names_distinct, lemma_lookup_push, lemma_lookup_absent, lemma_lookup_some,
};
use crate::text::{
    chars_of, trim, trim_spec, strip_all_prefixes, strip_all_prefixes_of, lemma_digits_value_bound, power, all_digits, digits_value, digit_of,
    trim_start, trim_end, strip_prefix_spec,
};

verus! {

/// A resolved color + font theme. Colors are `0xRRGGBBAA` values.
#[derive(Debug, Clone)]
pub struct Theme {
    pub black: u32,
    pub white: u32,
    pub grey: u32,
    pub accent: u32,
    pub font: String,
}

/// What a [`Theme`] holds, its font as characters.
pub struct ThemeView {
    pub black: u32,
    pub white: u32,
    pub grey: u32,
    pub accent: u32,
    pub font: Seq<char>,
}

impl View for Theme {
    type V = ThemeView;

    open spec fn view(&self) -> ThemeView {
        ThemeView {
            black: self.black,
            white: self.white,
            grey: self.grey,
            accent: self.accent,
            font: self.font@,
        }
    }
}

impl Theme {
    /// A theme equal to this one.
    pub fn duplicate(&self) -> (r: Theme)
        ensures
            r@ == self@,
    {
        Theme {
            black: self.black,
            white: self.white,
            grey: self.grey,
            accent: self.accent,
            font: self.font.clone(),
        }
    }
}

/// The font every built-in theme uses.
pub const DEFAULT_FONT: &'static str = "JetBrainsMono Nerd Font";

/// The theme used when none is chosen or the chosen one does not exist.
pub const DEFAULT_THEME_NAME: &'static str = "d77";

/// A built-in theme with the given colors and the default font.
pub open spec fn builtin_theme(black: u32, white: u32, grey: u32, accent: u32) -> ThemeView {
    ThemeView { black, white, grey, accent, font: DEFAULT_FONT@ }
}

/// The themes pwm ships with, by name.
pub open spec fn builtin_theme_map() -> Map<Seq<char>, ThemeView> {
    Map::empty().insert(
        DEFAULT_THEME_NAME@,
        builtin_theme(0x282828ff, 0xebdbb2ff, 0x3c3836ff, 0xaa96daff),
    ).insert("gruvbox_dark"@, builtin_theme(0x282828ff, 0xebdbb2ff, 0x3c3836ff, 0xfe8019ff)).insert(
        "arc_dark"@,
        builtin_theme(0x2f343fff, 0xd3dae3ff, 0x353945ff, 0x5294e2ff),
    ).insert("dracula"@, builtin_theme(0x282a36ff, 0xf8f8f2ff, 0x44475aff, 0xbd93f9ff)).insert(
        "tokyo_night"@,
        builtin_theme(0x1a1b26ff, 0xc0caf5ff, 0x414868ff, 0xbb9af7ff),
    )
}

/// The font a palette gets when it names none.
pub fn default_font() -> (r: String)
    ensures
        r@ == DEFAULT_FONT@,
{
    String::from_str(DEFAULT_FONT)
}

/// A built-in theme with the given colors and the default font.
fn make_theme(black: u32, white: u32, grey: u32, accent: u32) -> (r: Theme)
    ensures
        r@ == builtin_theme(black, white, grey, accent),
{
    Theme { black, white, grey, accent, font: default_font() }
}

/// The themes pwm ships with. `d77` is the original hand-picked palette
/// (Gruvbox Dark with a lavender accent); the others follow each project's
/// published palette.
pub fn builtin_themes() -> (r: Table<Theme>)
    ensures
        r@ == builtin_theme_map(),
{
    let mut t: Table<Theme> = Table::new();
    t.insert(
        String::from_str(DEFAULT_THEME_NAME),
        make_theme(0x282828ff, 0xebdbb2ff, 0x3c3836ff, 0xaa96daff),
    );
    t.insert(
        String::from_str("gruvbox_dark"),
        make_theme(0x282828ff, 0xebdbb2ff, 0x3c3836ff, 0xfe8019ff),
    );
    t.insert(String::from_str("arc_dark"), make_theme(0x2f343fff, 0xd3dae3ff, 0x353945ff, 0x5294e2ff));
    t.insert(String::from_str("dracula"), make_theme(0x282a36ff, 0xf8f8f2ff, 0x44475aff, 0xbd93f9ff));
    t.insert(
        String::from_str("tokyo_night"),
        make_theme(0x1a1b26ff, 0xc0caf5ff, 0x414868ff, 0xbb9af7ff),
    );
    t
}

/// What is left of a color string once white space and any `0x`, then any
/// `#`, prefixes are gone.
pub open spec fn hex_color_digits(raw: Seq<char>) -> Seq<char> {
    strip_all_prefixes(strip_all_prefixes(trim_spec(raw), seq!['0', 'x']), seq!['#'])
}

/// The color that `raw` spells: six hex digits `RRGGBB` (alpha `ff` added)
/// or eight `RRGGBBAA`, after an optional `0x` or `#`; anything else spells
/// no color.
pub open spec fn hex_color(raw: Seq<char>) -> Option<u32> {
    let d = hex_color_digits(raw);
    if !all_digits(d, 16) {
        None
    } else if d.len() == 6 {
        Some((digits_value(d, 16) * 256 + 255) as u32)
    } else if d.len() == 8 {
        Some(digits_value(d, 16) as u32)
    } else {
        None
    }
}

/// Parses a color string in `0xRRGGBB[AA]` or `#RRGGBB[AA]` form (the `0x`
/// or `#` prefix is optional) into the `0xRRGGBBAA` form, with an alpha of
/// `ff` where none is given.
pub fn parse_hex_color(raw: &str) -> (r: Option<u32>)
    ensures
        r == hex_color(raw@),
{
    let chars = chars_of(raw);
    let trimmed = trim(chars.as_slice());
    let no_0x = strip_all_prefixes_of(trimmed.as_slice(), "0x");
    let cleaned = strip_all_prefixes_of(no_0x.as_slice(), "#");
    proof {
        reveal_strlit("0x");
        reveal_strlit("#");
        assert("0x"@ =~= seq!['0', 'x']);
        assert("#"@ =~= seq!['#']);
    }
    let n = cleaned.len();
    if n != 6 && n != 8 {
        return None;
    }
    // a sign is no hex digit
    if cleaned[0] == '+' {
        assert(digit_of(cleaned@[0], 16) is None);
        return None;
    }
    let max: u64 = if n == 6 {
        0xff_ffff
    } else {
        0xffff_ffff
    };
    proof {
        if all_digits(cleaned@, 16) {
            lemma_digits_value_bound(cleaned@, 16);
            reveal_with_fuel(power, 9);
        }
    }
    assert(cleaned@.skip(0) =~= cleaned@);
    match crate::text::parse_digits(cleaned.as_slice(), 0, 16, max) {
        Some(v) => {
            if n == 6 {
                let rgb = v as u32;
                assert((rgb << 8u32) | 0xffu32 == rgb * 256 + 255) by (bit_vector)
                    requires
                        rgb < 0x1000000u32,
                ;
                Some((rgb << 8) | 0xff)
            } else {
                Some(v as u32)
            }
        },
        None => None,
    }
}

/// A string of hex digits is left as it is by the clean-up before parsing.
proof fn lemma_hex_digits_clean(d: Seq<char>)
    requires
        d.len() >= 2,
        all_digits(d, 16),
    ensures
        hex_color_digits(d) == d,
        hex_color_digits(seq!['0', 'x'] + d) == d,
        hex_color_digits(seq!['#'] + d) == d,
{
    assert(digit_of(d[0], 16) is Some);
    assert(digit_of(d[1], 16) is Some);
    assert(digit_of(d[d.len() - 1], 16) is Some);
    let zx = seq!['0', 'x'];
    let h = seq!['#'];
    // d itself: no white space at either end, no prefix to strip
    assert(trim_start(d) == d);
    assert(trim_end(d) == d);
    assert(d.take(2)[1] == d[1]);
    assert(strip_prefix_spec(d, zx) is None);
    assert(strip_all_prefixes(d, zx) == d);
    assert(d.take(1)[0] == d[0]);
    assert(strip_prefix_spec(d, h) is None);
    assert(strip_all_prefixes(d, h) == d);
    // 0x followed by d
    let a = zx + d;
    assert(a[0] == '0' && a[a.len() - 1] == d[d.len() - 1]);
    assert(trim_start(a) == a);
    assert(trim_end(a) == a);
    assert(a.take(2) =~= zx);
    assert(a.skip(2) =~= d);
    assert(strip_all_prefixes(a, zx) == d);
    // # followed by d
    let b = h + d;
    assert(b[0] == '#' && b[b.len() - 1] == d[d.len() - 1]);
    assert(trim_start(b) == b);
    assert(trim_end(b) == b);
    assert(b.take(2)[0] == '#');
    assert(strip_prefix_spec(b, zx) is None);
    assert(strip_all_prefixes(b, zx) == b);
    assert(b.take(1) =~= h);
    assert(b.skip(1) =~= d);
    assert(strip_all_prefixes(b, h) == d);
}

/// Eight hex digits `RRGGBBAA`, with a `0x` prefix, a `#` prefix or none,
/// parse to the number they spell.
pub proof fn lemma_hex_color_rrggbbaa(d: Seq<char>)
    requires
        d.len() == 8,
        all_digits(d, 16),
    ensures
        digits_value(d, 16) <= u32::MAX,
        hex_color(d) == Some(digits_value(d, 16) as u32),
        hex_color(seq!['0', 'x'] + d) == Some(digits_value(d, 16) as u32),
        hex_color(seq!['#'] + d) == Some(digits_value(d, 16) as u32),
{
    lemma_hex_digits_clean(d);
    lemma_digits_value_bound(d, 16);
    reveal_with_fuel(power, 9);
    assert(digit_of(d[0], 16) is Some);
}

/// Six hex digits `RRGGBB`, with a `0x` prefix, a `#` prefix or none, parse
/// to the number they spell with an alpha of `ff` appended.
pub proof fn lemma_hex_color_rrggbb(d: Seq<char>)
    requires
        d.len() == 6,
        all_digits(d, 16),
    ensures
        digits_value(d, 16) < 0x1000000,
        hex_color(d) == Some((digits_value(d, 16) * 256 + 255) as u32),
        hex_color(seq!['0', 'x'] + d) == Some((digits_value(d, 16) * 256 + 255) as u32),
        hex_color(seq!['#'] + d) == Some((digits_value(d, 16) * 256 + 255) as u32),
{
    lemma_hex_digits_clean(d);
    lemma_digits_value_bound(d, 16);
    reveal_with_fuel(power, 7);
    assert(digit_of(d[0], 16) is Some);
}

/// A palette as written under `[theme.<name>]`: colors as the user typed them.
#[derive(Debug, Clone)]
pub struct RawTheme {
    pub black: String,
    pub white: String,
    pub grey: String,
    pub accent: String,
    pub font: String,
}

/// What a [`RawTheme`] holds, as characters.
pub struct RawThemeView {
    pub black: Seq<char>,
    pub white: Seq<char>,
    pub grey: Seq<char>,
    pub accent: Seq<char>,
    pub font: Seq<char>,
}

impl View for RawTheme {
    type V = RawThemeView;

    open spec fn view(&self) -> RawThemeView {
        RawThemeView {
            black: self.black@,
            white: self.white@,
            grey: self.grey@,
            accent: self.accent@,
            font: self.font@,
        }
    }
}

/// The color `raw` spells, or `fallback` if it spells none.
pub open spec fn color_or(raw: Seq<char>, fallback: u32) -> u32 {
    match hex_color(raw) {
        Some(v) => v,
        None => fallback,
    }
}

/// A palette resolved against `fallback`: each color that parses is taken,
/// each other one is the fallback's; the font is the palette's.
pub open spec fn resolve_spec(raw: RawThemeView, fallback: ThemeView) -> ThemeView {
    ThemeView {
        black: color_or(raw.black, fallback.black),
        white: color_or(raw.white, fallback.white),
        grey: color_or(raw.grey, fallback.grey),
        accent: color_or(raw.accent, fallback.accent),
        font: raw.font,
    }
}

/// The color `raw` spells, or `fallback`.
fn parse_color_or(raw: &String, fallback: u32) -> (r: u32)
    ensures
        r == color_or(raw@, fallback),
{
    match parse_hex_color(raw.as_str()) {
        Some(v) => v,
        None => fallback,
    }
}

impl RawTheme {
    /// Converts to a resolved [`Theme`], falling back to `fallback`'s fields
    /// one at a time for anything that fails to parse, so a single typo
    /// doesn't take out the whole palette. `name` is the palette's name.
    pub fn resolve(&self, name: &str, fallback: &Theme) -> (r: Theme)
        ensures
            r@ == resolve_spec(self@, fallback@),
    {
        let _ = name;
        Theme {
            black: parse_color_or(&self.black, fallback.black),
            white: parse_color_or(&self.white, fallback.white),
            grey: parse_color_or(&self.grey, fallback.grey),
            accent: parse_color_or(&self.accent, fallback.accent),
            font: self.font.clone(),
        }
    }
}

/// The `[theme]` table of `config.toml`: which theme is active, and the
/// palettes defined under `[theme.<name>]`.
#[derive(Debug, Clone)]
pub struct RawThemeSection {
    pub active: Option<String>,
    pub palettes: Vec<(String, RawTheme)>,
}

/// What `config.toml` holds.
#[derive(Debug, Clone)]
pub struct RawConfig {
    pub theme: RawThemeSection,
}

impl Default for RawConfig {
    /// A configuration with nothing set: what a missing or unreadable
    /// `config.toml` amounts to.
    fn default() -> (r: RawConfig)
        ensures
            r.theme.active is None,
            r.theme.palettes@.len() == 0,
    {
        RawConfig { theme: RawThemeSection { active: None, palettes: Vec::new() } }
    }
}

/// The built-in theme of that name, or else `d77`: what a palette's colors
/// fall back to.
pub open spec fn fallback_theme(name: Seq<char>) -> ThemeView {
    if builtin_theme_map().contains_key(name) {
        builtin_theme_map()[name]
    } else {
        builtin_theme_map()[DEFAULT_THEME_NAME@]
    }
}

/// The built-in themes, overlaid with the user's palettes: a palette of a
/// built-in's name replaces it, a palette of a new name is added.
pub open spec fn theme_overlay(palettes: Seq<(String, RawTheme)>) -> Map<Seq<char>, ThemeView> {
    Map::new(
        |k: Seq<char>| builtin_theme_map().contains_key(k) || table_lookup(palettes, k) is Some,
        |k: Seq<char>|
            match table_lookup(palettes, k) {
                Some(raw) => resolve_spec(raw, fallback_theme(k)),
                None => builtin_theme_map()[k],
            },
    )
}

/// The name of the theme that `raw` selects.
pub open spec fn active_theme_name(raw: RawConfig) -> Seq<char> {
    match raw.theme.active {
        Some(a) => a@,
        None => DEFAULT_THEME_NAME@,
    }
}

/// The theme a session uses: the active one among the overlaid themes, or
/// the built-in `d77` when no theme of that name exists.
pub open spec fn session_theme(raw: RawConfig) -> ThemeView {
    let themes = theme_overlay(raw.theme.palettes@);
    let active = active_theme_name(raw);
    if themes.contains_key(active) {
        themes[active]
    } else {
        builtin_theme_map()[DEFAULT_THEME_NAME@]
    }
}

/// Loads the active theme for this session from the decoded `config.toml`:
/// built-in themes, overlaid with any palettes it defines, selecting
/// whichever one `[theme].active` names (defaulting to `"d77"`, and falling
/// back to it if the requested name doesn't exist).
pub fn load_theme(raw: &RawConfig) -> (r: Theme)
    requires
        names_distinct(raw.theme.palettes@),
    ensures
        r@ == session_theme(*raw),
{
    let mut themes = builtin_themes();
    let default_theme = themes.get(DEFAULT_THEME_NAME).unwrap().duplicate();
    let palettes = &raw.theme.palettes;
    let mut i: usize = 0;
    assert(theme_overlay(palettes@.take(0)) =~= builtin_theme_map()) by {
        assert forall|k: Seq<char>| table_lookup(palettes@.take(0), k) is None by {
            lemma_lookup_absent(palettes@.take(0), k);
        }
    }
    while i < palettes.len()
        invariant
            i <= palettes.len(),
            names_distinct(palettes@),
            themes@ == theme_overlay(palettes@.take(i as int)),
            default_theme@ == builtin_theme_map()[DEFAULT_THEME_NAME@],
        decreases palettes.len() - i,
    {
        let name = &palettes[i].0;
        let ghost before = palettes@.take(i as int);
        proof {
            assert forall|j: int| 0 <= j < before.len() implies before[j].0@ != name@ by {
                assert(before[j] == palettes@[j]);
            }
            lemma_lookup_absent(before, name@);
        }
        let fallback = match themes.get(name.as_str()) {
            Some(t) => t.duplicate(),
            None => default_theme.duplicate(),
        };
        assert(fallback@ == fallback_theme(name@));
        let resolved = palettes[i].1.resolve(name.as_str(), &fallback);
        themes.insert(name.clone(), resolved);
        proof {
            let after = palettes@.take(i + 1);
            assert(after =~= before.push(palettes@[i as int]));
            assert forall|k: Seq<char>|
                #![auto]
                table_lookup(after, k) == (if palettes@[i as int].0@ == k {
                    Some(palettes@[i as int].1@)
                } else {
                    table_lookup(before, k)
                }) by {
                lemma_lookup_push(before, palettes@[i as int], k);
            }
            assert(themes@ =~= theme_overlay(after));
        }
        i = i + 1;
    }
    assert(palettes@.take(palettes.len() as int) =~= palettes@);
    let active: &str = match &raw.theme.active {
        Some(a) => a.as_str(),
        None => DEFAULT_THEME_NAME,
    };
    match themes.get(active) {
        Some(theme) => theme.duplicate(),
        None => default_theme,
    }
}

/// The name of the theme a session uses: the active name when a theme of
/// that name exists, else `d77`.
pub open spec fn session_theme_name_spec(raw: RawConfig) -> Seq<char> {
    let active = active_theme_name(raw);
    if theme_overlay(raw.theme.palettes@).contains_key(active) {
        active
    } else {
        DEFAULT_THEME_NAME@
    }
}

/// Whether one of `palettes` is named `name`.
fn has_palette(palettes: &Vec<(String, RawTheme)>, name: &str) -> (r: bool)
    ensures
        r == (table_lookup(palettes@, name@) is Some),
{
    let mut i: usize = 0;
    while i < palettes.len()
        invariant
            i <= palettes.len(),
            forall|j: int| 0 <= j < i ==> palettes@[j].0@ != name@,
        decreases palettes.len() - i,
    {
        if crate::text::str_eq(palettes[i].0.as_str(), name) {
            proof {
                lemma_lookup_some(palettes@, i as int);
            }
            return true;
        }
        i = i + 1;
    }
    proof {
        lemma_lookup_absent(palettes@, name@);
    }
    false
}

/// The name of the theme this session uses, as handed to the startup script.
pub fn session_theme_name(raw: &RawConfig) -> (r: String)
    ensures
        r@ == session_theme_name_spec(*raw),
{
    let active: &str = match &raw.theme.active {
        Some(a) => a.as_str(),
        None => DEFAULT_THEME_NAME,
    };
    let themes = builtin_themes();
    if themes.get(active).is_some() || has_palette(&raw.theme.palettes, active) {
        String::from_str(active)
    } else {
        String::from_str(DEFAULT_THEME_NAME)
    }
}

/// A configuration that sets nothing gives the built-in `d77` theme.
pub proof fn lemma_empty_config_gives_default_theme(raw: RawConfig)
    requires
        raw.theme.active is None,
        raw.theme.palettes@.len() == 0,
    ensures
        session_theme(raw) == builtin_theme_map()[DEFAULT_THEME_NAME@],
{
    let themes = theme_overlay(raw.theme.palettes@);
    assert(themes.contains_key(DEFAULT_THEME_NAME@));
    assert(table_lookup(raw.theme.palettes@, DEFAULT_THEME_NAME@) is None);
}

/// The active theme is the user's palette of that name, resolved against
/// the built-in theme of that name (or `d77`); else the built-in theme of
/// that name; and when neither exists, the built-in `d77`.
pub proof fn lemma_active_theme_choice(raw: RawConfig)
    ensures
        ({
            let name = active_theme_name(raw);
            match table_lookup(raw.theme.palettes@, name) {
                Some(p) => session_theme(raw) == resolve_spec(p, fallback_theme(name)),
                None => if builtin_theme_map().contains_key(name) {
                    session_theme(raw) == builtin_theme_map()[name]
                } else {
                    session_theme(raw) == builtin_theme_map()[DEFAULT_THEME_NAME@]
                },
            }
        }),
{
}

/// The themes pwm ships with, colour by colour: `d77`, `gruvbox_dark`,
/// `arc_dark`, `dracula` and `tokyo_night`, all in the default font.
pub proof fn lemma_builtin_theme_colors()
    ensures
        builtin_theme_map().contains_key("d77"@),
        builtin_theme_map()["d77"@] == (ThemeView {
            black: 0x282828ff,
            white: 0xebdbb2ff,
            grey: 0x3c3836ff,
            accent: 0xaa96daff,
            font: "JetBrainsMono Nerd Font"@,
        }),
        builtin_theme_map().contains_key("gruvbox_dark"@),
        builtin_theme_map()["gruvbox_dark"@] == (ThemeView {
            black: 0x282828ff,
            white: 0xebdbb2ff,
            grey: 0x3c3836ff,
            accent: 0xfe8019ff,
            font: "JetBrainsMono Nerd Font"@,
        }),
        builtin_theme_map().contains_key("arc_dark"@),
        builtin_theme_map()["arc_dark"@] == (ThemeView {
            black: 0x2f343fff,
            white: 0xd3dae3ff,
            grey: 0x353945ff,
            accent: 0x5294e2ff,
            font: "JetBrainsMono Nerd Font"@,
        }),
        builtin_theme_map().contains_key("dracula"@),
        builtin_theme_map()["dracula"@] == (ThemeView {
            black: 0x282a36ff,
            white: 0xf8f8f2ff,
            grey: 0x44475aff,
            accent: 0xbd93f9ff,
            font: "JetBrainsMono Nerd Font"@,
        }),
        builtin_theme_map().contains_key("tokyo_night"@),
        builtin_theme_map()["tokyo_night"@] == (ThemeView {
            black: 0x1a1b26ff,
            white: 0xc0caf5ff,
            grey: 0x414868ff,
            accent: 0xbb9af7ff,
            font: "JetBrainsMono Nerd Font"@,
        }),
        builtin_theme_map().dom().len() == 5,
{
    reveal_strlit("d77");
    reveal_strlit("gruvbox_dark");
    reveal_strlit("arc_dark");
    reveal_strlit("dracula");
    reveal_strlit("tokyo_night");
    reveal_strlit("JetBrainsMono Nerd Font");
    assert("d77"@ != "gruvbox_dark"@ && "d77"@ != "arc_dark"@ && "d77"@ != "dracula"@ && "d77"@
        != "tokyo_night"@) by {
        assert("d77"@.len() == 3);
    }
    assert("gruvbox_dark"@ != "arc_dark"@ && "gruvbox_dark"@ != "dracula"@ && "gruvbox_dark"@
        != "tokyo_night"@) by {
        assert("gruvbox_dark"@.len() == 12);
    }
    assert("arc_dark"@ != "dracula"@ && "arc_dark"@ != "tokyo_night"@) by {
        assert("arc_dark"@.len() == 8);
    }
    assert("dracula"@ != "tokyo_night"@) by {
        assert("dracula"@.len() == 7);
    }
    let m = builtin_theme_map();
    assert(m.dom() =~= set!["d77"@, "gruvbox_dark"@, "arc_dark"@, "dracula"@, "tokyo_night"@]);
    assert(set!["d77"@, "gruvbox_dark"@, "arc_dark"@, "dracula"@, "tokyo_night"@].len() == 5) by {
        let s0 = Set::<Seq<char>>::empty();
        let s1 = s0.insert("d77"@);
        let s2 = s1.insert("gruvbox_dark"@);
        let s3 = s2.insert("arc_dark"@);
        let s4 = s3.insert("dracula"@);
        let s5 = s4.insert("tokyo_night"@);
        assert(s5 =~= set!["d77"@, "gruvbox_dark"@, "arc_dark"@, "dracula"@, "tokyo_night"@]);
    }
}

/// A palette named after a built-in theme falls back to that theme's own
/// colours, field by field; a palette of a new name falls back to `d77`.
pub proof fn lemma_palette_falls_back_to_namesake(name: Seq<char>)
    ensures
        builtin_theme_map().contains_key(name) ==> fallback_theme(name) == builtin_theme_map()[name],
        !builtin_theme_map().contains_key(name) ==> fallback_theme(name)
            == builtin_theme_map()["d77"@],
{
    reveal_strlit("d77");
    assert(DEFAULT_THEME_NAME@ == "d77"@);
}

/// When the active theme is a user palette named after a built-in theme,
/// each colour is the palette's where it parses and the built-in theme's
/// own colour where it does not; the font is the palette's. For example a
/// `dracula` palette whose grey does not parse keeps dracula's grey
/// `0x44475aff`.
pub proof fn lemma_palette_overrides_namesake(raw: RawConfig, p: RawThemeView)
    requires
        builtin_theme_map().contains_key(active_theme_name(raw)),
        table_lookup(raw.theme.palettes@, active_theme_name(raw)) == Some(p),
    ensures
        ({
            let b = builtin_theme_map()[active_theme_name(raw)];
            let t = session_theme(raw);
            &&& t.black == (match hex_color(p.black) {
                Some(v) => v,
                None => b.black,
            })
            &&& t.white == (match hex_color(p.white) {
                Some(v) => v,
                None => b.white,
            })
            &&& t.grey == (match hex_color(p.grey) {
                Some(v) => v,
                None => b.grey,
            })
            &&& t.accent == (match hex_color(p.accent) {
                Some(v) => v,
                None => b.accent,
            })
            &&& t.font == p.font
        }),
        active_theme_name(raw) == "dracula"@ && hex_color(p.grey) is None ==> session_theme(raw).grey
            == 0x44475aff,
{
    lemma_palette_falls_back_to_namesake(active_theme_name(raw));
    lemma_builtin_theme_colors();
}

/// The programs that keybindings launch, and the startup script.
#[derive(Debug, Clone)]
pub struct Apps {
    pub terminal: String,
    pub launcher: String,
    pub locker: String,
    pub startup_script: String,
}

/// `Some` of a setting's characters, or the built-in value.
pub open spec fn setting_or(setting: Option<String>, builtin: Seq<char>) -> Seq<char> {
    match setting {
        Some(s) => s@,
        None => builtin,
    }
}

/// A setting, or the built-in value.
fn or_builtin(setting: Option<String>, builtin: &str) -> (r: String)
    ensures
        r@ == setting_or(setting, builtin@),
{
    match setting {
        Some(s) => s,
        None => String::from_str(builtin),
    }
}

impl Apps {
    /// The programs set in `[apps]`; each one left out keeps its built-in
    /// value from [`AppConfig::default`].
    pub fn with_defaults(
        terminal: Option<String>,
        launcher: Option<String>,
        locker: Option<String>,
        startup_script: Option<String>,
    ) -> (r: Apps)
        ensures
            r.terminal@ == setting_or(terminal, "st"@),
            r.launcher@ == setting_or(launcher, "dmenu_run"@),
            r.locker@ == setting_or(locker, "slock"@),
            r.startup_script@ == setting_or(startup_script, "/etc/xdg/pwm/startup.sh"@),
    {
        let d = AppConfig::default();
        Apps {
            terminal: or_builtin(terminal, d.terminal),
            launcher: or_builtin(launcher, d.launcher),
            locker: or_builtin(locker, d.locker),
            startup_script: or_builtin(startup_script, d.startup_script),
        }
    }
}

/// A `[[bind]]` entry: a key, the name of an action, and an optional
/// argument for it.
#[derive(Debug, Clone)]
pub struct BindSpec {
    pub key: String,
    pub action: String,
    pub arg: Option<String>,
}

} // verus!
