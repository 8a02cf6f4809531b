//! Colour themes of the terminal interface: colours read from theme files
//! (names, `#RRGGBB`, `RRGGBB`, `#RRGGBBAA`) and the default theme.
use vstd::prelude::*;
use crate::text::{
    first_index_of, from_chars, lemma_deep_view_chars, lemma_first_index_at, lemma_first_index_of, parse_u64,
    parse_unsigned, str_eq, to_chars, views,
};
use crate::views::byte_len;

verus! {

/// A terminal colour.
#[derive(Debug, Clone, Copy, PartialEq, Eq, Structural)]
pub enum Color {
    Reset,
    Black,
    Red,
    Green,
    Yellow,
    Blue,
    Magenta,
    Cyan,
    Gray,
    DarkGray,
    LightRed,
    LightGreen,
    LightYellow,
    LightBlue,
    LightMagenta,
    LightCyan,
    White,
    Rgb(u8, u8, u8),
    Indexed(u8),
}

// ---------------------------------------------------------------------------
// Reading a colour
// ---------------------------------------------------------------------------

/// The text that ratatui shows (`Display`) for the colour that its
/// `Color::from_str` reads from `s`, where it reads one.
pub uninterp spec fn ratatui_color_text(s: Seq<char>) -> Option<Seq<char>>;

/// `ratatui::style::Color::from_str` (colour names in several spellings, a
/// decimal palette index, or `#RRGGBB`), the colour read shown as ratatui's
/// `Display` writes it. The contract names the result; it depends on the
/// text alone.
#[verifier::external_body]
fn ratatui_parse(s: &str) -> (r: Option<String>)
    ensures
        match r {
            Some(t) => ratatui_color_text(s@) == Some(t@),
            None => ratatui_color_text(s@) is None,
        },
{
    match s.parse::<ratatui::style::Color>() {
        Ok(c) => Some(format!("{c}")),
        Err(_) => None,
    }
}

/// The value of a hexadecimal digit.
pub open spec fn hex_value(c: char) -> Option<nat> {
    if '0' <= c && c <= '9' {
        Some(((c as u32) - ('0' as u32)) as nat)
    } else if 'a' <= c && c <= 'f' {
        Some(((c as u32) - ('a' as u32) + 10) as nat)
    } else if 'A' <= c && c <= 'F' {
        Some(((c as u32) - ('A' as u32) + 10) as nat)
    } else {
        None
    }
}

/// What `u8::from_str_radix(_, 16)` reads from a text of two characters:
/// two hexadecimal digits, or `+` and one digit.
pub open spec fn hex_pair(a: char, b: char) -> Option<nat> {
    if a == '+' {
        hex_value(b)
    } else {
        match (hex_value(a), hex_value(b)) {
            (Some(x), Some(y)) => Some(16 * x + y),
            _ => None,
        }
    }
}

/// The colour that ratatui's `Display` text `t` stands for: a colour name,
/// `#` and six hexadecimal digits, or a palette index.
pub open spec fn display_color(t: Seq<char>) -> Color {
    if t == "Reset"@ {
        Color::Reset
    } else if t == "Black"@ {
        Color::Black
    } else if t == "Red"@ {
        Color::Red
    } else if t == "Green"@ {
        Color::Green
    } else if t == "Yellow"@ {
        Color::Yellow
    } else if t == "Blue"@ {
        Color::Blue
    } else if t == "Magenta"@ {
        Color::Magenta
    } else if t == "Cyan"@ {
        Color::Cyan
    } else if t == "Gray"@ {
        Color::Gray
    } else if t == "DarkGray"@ {
        Color::DarkGray
    } else if t == "LightRed"@ {
        Color::LightRed
    } else if t == "LightGreen"@ {
        Color::LightGreen
    } else if t == "LightYellow"@ {
        Color::LightYellow
    } else if t == "LightBlue"@ {
        Color::LightBlue
    } else if t == "LightMagenta"@ {
        Color::LightMagenta
    } else if t == "LightCyan"@ {
        Color::LightCyan
    } else if t == "White"@ {
        Color::White
    } else if t.len() == 7 && t[0] == '#' && t[1] != '+' && t[3] != '+' && t[5] != '+' {
        match (hex_pair(t[1], t[2]), hex_pair(t[3], t[4]), hex_pair(t[5], t[6])) {
            (Some(r), Some(g), Some(b)) => Color::Rgb(r as u8, g as u8, b as u8),
            _ => Color::Reset,
        }
    } else {
        match parse_unsigned(t, 255) {
            Some(n) => Color::Indexed(n as u8),
            None => Color::Reset,
        }
    }
}

/// `s` without its leading `#` characters (`trim_start_matches('#')`).
pub open spec fn strip_hashes(s: Seq<char>) -> Seq<char>
    decreases s.len(),
{
    if s.len() > 0 && s[0] == '#' {
        strip_hashes(s.drop_first())
    } else {
        s
    }
}

/// The colour that the text, without its leading `#`, spells as six
/// hexadecimal digits (and two more of alpha, which are ignored).
pub open spec fn hex_color(s: Seq<char>) -> Color {
    let h = strip_hashes(s);
    if (byte_len(h) == 6 || byte_len(h) == 8) && h.len() >= 6 && forall|i: int| 0 <= i < 6 ==> (#[trigger] h[i] as u32) < 128 {
        match (hex_pair(h[0], h[1]), hex_pair(h[2], h[3]), hex_pair(h[4], h[5])) {
            (Some(r), Some(g), Some(b)) => Color::Rgb(r as u8, g as u8, b as u8),
            _ => Color::Reset,
        }
    } else {
        Color::Reset
    }
}

/// The colour of a theme entry: what ratatui reads from the text, else
/// six hexadecimal digits after any `#`, else the terminal's own colour.
pub open spec fn color_spec(s: Seq<char>) -> Color {
    match ratatui_color_text(s) {
        Some(t) => display_color(t),
        None => hex_color(s),
    }
}

fn hex_value_exec(c: char) -> (r: Option<u8>)
    ensures
        match r {
            Some(v) => hex_value(c) == Some(v as nat) && v < 16,
            None => hex_value(c) is None,
        },
{
    if '0' <= c && c <= '9' {
        Some(((c as u32) - ('0' as u32)) as u8)
    } else if 'a' <= c && c <= 'f' {
        Some(((c as u32) - ('a' as u32) + 10) as u8)
    } else if 'A' <= c && c <= 'F' {
        Some(((c as u32) - ('A' as u32) + 10) as u8)
    } else {
        None
    }
}

fn hex_pair_exec(a: char, b: char) -> (r: Option<u8>)
    ensures
        match r {
            Some(v) => hex_pair(a, b) == Some(v as nat),
            None => hex_pair(a, b) is None,
        },
{
    if a == '+' {
        return hex_value_exec(b);
    }
    match (hex_value_exec(a), hex_value_exec(b)) {
        (Some(x), Some(y)) => Some(16 * x + y),
        _ => None,
    }
}

fn display_color_exec(t: &str) -> (r: Color)
    ensures
        r == display_color(t@),
{
    if str_eq(t, "Reset") {
        return Color::Reset;
    } else if str_eq(t, "Black") {
        return Color::Black;
    } else if str_eq(t, "Red") {
        return Color::Red;
    } else if str_eq(t, "Green") {
        return Color::Green;
    } else if str_eq(t, "Yellow") {
        return Color::Yellow;
    } else if str_eq(t, "Blue") {
        return Color::Blue;
    } else if str_eq(t, "Magenta") {
        return Color::Magenta;
    } else if str_eq(t, "Cyan") {
        return Color::Cyan;
    } else if str_eq(t, "Gray") {
        return Color::Gray;
    } else if str_eq(t, "DarkGray") {
        return Color::DarkGray;
    } else if str_eq(t, "LightRed") {
        return Color::LightRed;
    } else if str_eq(t, "LightGreen") {
        return Color::LightGreen;
    } else if str_eq(t, "LightYellow") {
        return Color::LightYellow;
    } else if str_eq(t, "LightBlue") {
        return Color::LightBlue;
    } else if str_eq(t, "LightMagenta") {
        return Color::LightMagenta;
    } else if str_eq(t, "LightCyan") {
        return Color::LightCyan;
    } else if str_eq(t, "White") {
        return Color::White;
    }
    let v = to_chars(t);
    if v.len() == 7 && v[0] == '#' && v[1] != '+' && v[3] != '+' && v[5] != '+' {
        return match (hex_pair_exec(v[1], v[2]), hex_pair_exec(v[3], v[4]), hex_pair_exec(v[5], v[6])) {
            (Some(r), Some(g), Some(b)) => Color::Rgb(r, g, b),
            _ => Color::Reset,
        };
    }
    match parse_u64(v.as_slice()) {
        Some(n) => if n <= 255 {
            Color::Indexed(n as u8)
        } else {
            Color::Reset
        },
        None => Color::Reset,
    }
}

fn strip_hashes_exec(v: &[char]) -> (r: Vec<char>)
    ensures
        r@ == strip_hashes(v@),
{
    let mut i: usize = 0;
    assert(v@.skip(0) =~= v@);
    while i < v.len() && v[i] == '#'
        invariant
            i <= v.len(),
            strip_hashes(v@) == strip_hashes(v@.skip(i as int)),
        decreases v.len() - i,
    {
        assert(v@.skip(i as int).drop_first() =~= v@.skip(i + 1));
        i += 1;
    }
    assert(strip_hashes(v@.skip(i as int)) == v@.skip(i as int));
    crate::text::slice_chars(v, i, v.len())
}

fn hex_color_exec(s: &str) -> (r: Color)
    ensures
        r == hex_color(s@),
{
    let v = to_chars(s);
    let h = strip_hashes_exec(v.as_slice());
    let hs = from_chars(h.as_slice());
    let b = hs.as_str().as_bytes().len();
    if (b == 6 || b == 8) && h.len() >= 6 && (h[0] as u32) < 128 && (h[1] as u32) < 128 && (h[2] as u32) < 128
        && (h[3] as u32) < 128 && (h[4] as u32) < 128 && (h[5] as u32) < 128 {
        assert(forall|i: int| 0 <= i < 6 ==> (#[trigger] h@[i] as u32) < 128) by {
            assert forall|i: int| 0 <= i < 6 implies (#[trigger] h@[i] as u32) < 128 by {
                if i == 0 {
                } else if i == 1 {
                } else if i == 2 {
                } else if i == 3 {
                } else if i == 4 {
                } else {
                }
            }
        }
        match (hex_pair_exec(h[0], h[1]), hex_pair_exec(h[2], h[3]), hex_pair_exec(h[4], h[5])) {
            (Some(r), Some(g), Some(b)) => Color::Rgb(r, g, b),
            _ => Color::Reset,
        }
    } else {
        Color::Reset
    }
}

/// The colour of a theme entry (see [`color_spec`]); text that is no
/// colour gives `Color::Reset`.
pub fn parse_color(hex: &str) -> (r: Color)
    ensures
        r == color_spec(hex@),
{
    match ratatui_parse(hex) {
        Some(t) => display_color_exec(t.as_str()),
        None => hex_color_exec(hex),
    }
}

// ---------------------------------------------------------------------------
// Themes
// ---------------------------------------------------------------------------

/// The colours of the interface, by role.
#[derive(Debug, Clone)]
pub struct Theme {
    pub accent: Color,
    pub text: Color,
    pub text_muted: Color,
    pub text_secondary: Color,
    pub header: Color,
    pub success: Color,
    pub error: Color,
    pub highlight_bg: Color,
    pub highlight_fg: Color,
    /// The rotating colours of the packages' output.
    pub pkg_colors: [Color; 10],
}

/// The default package colours.
pub open spec fn default_pkg_colors() -> Seq<Color> {
    seq![
        Color::Cyan,
        Color::Green,
        Color::Yellow,
        Color::Blue,
        Color::Magenta,
        Color::Red,
        Color::LightCyan,
        Color::LightGreen,
        Color::LightYellow,
        Color::LightBlue,
    ]
}

impl Default for Theme {
    /// The dark theme of the terminal's own colours.
    fn default() -> (r: Self)
        ensures
            r.accent == Color::Cyan,
            r.text == Color::White,
            r.text_muted == Color::DarkGray,
            r.text_secondary == Color::Gray,
            r.header == Color::Yellow,
            r.success == Color::Green,
            r.error == Color::Red,
            r.highlight_bg == Color::Indexed(237),
            r.highlight_fg == Color::White,
            r.pkg_colors@ == default_pkg_colors(),
    {
        let r = Theme {
            accent: Color::Cyan,
            text: Color::White,
            text_muted: Color::DarkGray,
            text_secondary: Color::Gray,
            header: Color::Yellow,
            success: Color::Green,
            error: Color::Red,
            highlight_bg: Color::Indexed(237),
            highlight_fg: Color::White,
            pkg_colors: [
                Color::Cyan,
                Color::Green,
                Color::Yellow,
                Color::Blue,
                Color::Magenta,
                Color::Red,
                Color::LightCyan,
                Color::LightGreen,
                Color::LightYellow,
                Color::LightBlue,
            ],
        };
        assert(r.pkg_colors@ =~= default_pkg_colors());
        r
    }
}

/// A variant of a theme file: its name, mode and colours by key.
#[derive(Debug, Clone)]
pub struct ThemeVariant {
    pub name: String,
    pub mode: String,
    pub colors: Vec<(String, String)>,
}

/// The colour text under `key`, where there is one (the first such entry).
pub open spec fn entry_of(colors: Seq<(String, String)>, key: Seq<char>) -> Option<Seq<char>>
    decreases colors.len(),
{
    if colors.len() == 0 {
        None
    } else if colors[0].0@ == key {
        Some(colors[0].1@)
    } else {
        entry_of(colors.drop_first(), key)
    }
}

/// The colour of a role: the entry under `key`, else `fallback`.
pub open spec fn role_color(colors: Seq<(String, String)>, key: Seq<char>, fallback: Seq<char>) -> Color {
    match entry_of(colors, key) {
        Some(t) => color_spec(t),
        None => color_spec(fallback),
    }
}

fn entry_exec<'a>(colors: &'a Vec<(String, String)>, key: &str) -> (r: Option<&'a String>)
    ensures
        match r {
            Some(t) => entry_of(colors@, key@) == Some(t@) && exists|i: int|
                0 <= i < colors@.len() && t@ == (#[trigger] colors@[i]).1@,
            None => entry_of(colors@, key@) is None,
        },
{
    let mut i: usize = 0;
    assert(colors@.skip(0) =~= colors@);
    while i < colors.len()
        invariant
            i <= colors@.len(),
            entry_of(colors@, key@) == entry_of(colors@.skip(i as int), key@),
        decreases colors@.len() - i,
    {
        assert(colors@.skip(i as int)[0] == colors@[i as int]);
        assert(colors@.skip(i as int).drop_first() =~= colors@.skip(i + 1));
        if str_eq(colors[i].0.as_str(), key) {
            return Some(&colors[i].1);
        }
        i += 1;
    }
    None
}

fn role_exec(colors: &Vec<(String, String)>, key: &str, fallback: &str) -> (r: Color)
    ensures
        r == role_color(colors@, key@, fallback@),
{
    match entry_exec(colors, key) {
        Some(t) => parse_color(t.as_str()),
        None => parse_color(fallback),
    }
}

/// The built-in theme files; each holds one or more variants.
#[derive(Debug, Clone, Copy, PartialEq, Eq, Structural)]
pub enum ThemeFile {
    DefaultDark,
    DefaultLight,
    Solarized,
    Gruvbox,
    Catppuccin,
    Dracula,
    Nord,
    TokyoNight,
    One,
    RosePine,
    Everforest,
}

/// The theme file and the variant in it that a theme name stands for.
pub open spec fn theme_source_spec(name: Seq<char>) -> Option<(ThemeFile, Seq<char>)> {
    if name == "dark"@ {
        Some((ThemeFile::DefaultDark, "Default Dark"@))
    } else if name == "default-dark"@ {
        Some((ThemeFile::DefaultDark, "Default Dark"@))
    } else if name == "light"@ {
        Some((ThemeFile::DefaultLight, "Default Light"@))
    } else if name == "default-light"@ {
        Some((ThemeFile::DefaultLight, "Default Light"@))
    } else if name == "solarized-dark"@ {
        Some((ThemeFile::Solarized, "Solarized Dark"@))
    } else if name == "solarized-light"@ {
        Some((ThemeFile::Solarized, "Solarized Light"@))
    } else if name == "gruvbox-dark"@ {
        Some((ThemeFile::Gruvbox, "Gruvbox Dark"@))
    } else if name == "gruvbox-light"@ {
        Some((ThemeFile::Gruvbox, "Gruvbox Light"@))
    } else if name == "catppuccin-mocha"@ {
        Some((ThemeFile::Catppuccin, "Catppuccin Mocha"@))
    } else if name == "catppuccin-latte"@ {
        Some((ThemeFile::Catppuccin, "Catppuccin Latte"@))
    } else if name == "dracula"@ {
        Some((ThemeFile::Dracula, "Dracula"@))
    } else if name == "nord"@ {
        Some((ThemeFile::Nord, "Nord"@))
    } else if name == "nord-light"@ {
        Some((ThemeFile::Nord, "Nord Light"@))
    } else if name == "tokyo-night"@ {
        Some((ThemeFile::TokyoNight, "Tokyo Night"@))
    } else if name == "tokyo-night-light"@ {
        Some((ThemeFile::TokyoNight, "Tokyo Night Light"@))
    } else if name == "one-dark"@ {
        Some((ThemeFile::One, "One Dark"@))
    } else if name == "one-light"@ {
        Some((ThemeFile::One, "One Light"@))
    } else if name == "rose-pine"@ {
        Some((ThemeFile::RosePine, "Rosé Pine"@))
    } else if name == "rose-pine-dawn"@ {
        Some((ThemeFile::RosePine, "Rosé Pine Dawn"@))
    } else if name == "everforest-dark"@ {
        Some((ThemeFile::Everforest, "Everforest Dark"@))
    } else if name == "everforest-light"@ {
        Some((ThemeFile::Everforest, "Everforest Light"@))
    } else {
        None
    }
}

/// The theme file and the variant in it that a theme name stands for
/// (`dark` and `default-dark` are the same theme, as are `light` and
/// `default-light`); `None` for a name that is no built-in theme.
pub fn theme_source(name: &str) -> (r: Option<(ThemeFile, &'static str)>)
    ensures
        match r {
            Some((f, v)) => theme_source_spec(name@) == Some((f, v@)),
            None => theme_source_spec(name@) is None,
        },
{
    if str_eq(name, "dark") {
        Some((ThemeFile::DefaultDark, "Default Dark"))
    } else if str_eq(name, "default-dark") {
        Some((ThemeFile::DefaultDark, "Default Dark"))
    } else if str_eq(name, "light") {
        Some((ThemeFile::DefaultLight, "Default Light"))
    } else if str_eq(name, "default-light") {
        Some((ThemeFile::DefaultLight, "Default Light"))
    } else if str_eq(name, "solarized-dark") {
        Some((ThemeFile::Solarized, "Solarized Dark"))
    } else if str_eq(name, "solarized-light") {
        Some((ThemeFile::Solarized, "Solarized Light"))
    } else if str_eq(name, "gruvbox-dark") {
        Some((ThemeFile::Gruvbox, "Gruvbox Dark"))
    } else if str_eq(name, "gruvbox-light") {
        Some((ThemeFile::Gruvbox, "Gruvbox Light"))
    } else if str_eq(name, "catppuccin-mocha") {
        Some((ThemeFile::Catppuccin, "Catppuccin Mocha"))
    } else if str_eq(name, "catppuccin-latte") {
        Some((ThemeFile::Catppuccin, "Catppuccin Latte"))
    } else if str_eq(name, "dracula") {
        Some((ThemeFile::Dracula, "Dracula"))
    } else if str_eq(name, "nord") {
        Some((ThemeFile::Nord, "Nord"))
    } else if str_eq(name, "nord-light") {
        Some((ThemeFile::Nord, "Nord Light"))
    } else if str_eq(name, "tokyo-night") {
        Some((ThemeFile::TokyoNight, "Tokyo Night"))
    } else if str_eq(name, "tokyo-night-light") {
        Some((ThemeFile::TokyoNight, "Tokyo Night Light"))
    } else if str_eq(name, "one-dark") {
        Some((ThemeFile::One, "One Dark"))
    } else if str_eq(name, "one-light") {
        Some((ThemeFile::One, "One Light"))
    } else if str_eq(name, "rose-pine") {
        Some((ThemeFile::RosePine, "Rosé Pine"))
    } else if str_eq(name, "rose-pine-dawn") {
        Some((ThemeFile::RosePine, "Rosé Pine Dawn"))
    } else if str_eq(name, "everforest-dark") {
        Some((ThemeFile::Everforest, "Everforest Dark"))
    } else if str_eq(name, "everforest-light") {
        Some((ThemeFile::Everforest, "Everforest Light"))
    } else {
        None
    }
}

/// The names of a theme file's variants, in order.
pub open spec fn variant_names(v: Seq<ThemeVariant>) -> Seq<Seq<char>> {
    v.map_values(|t: ThemeVariant| t.name@)
}

/// The variant a theme uses: the first named `variant_name`, else the
/// file's first variant, else none.
pub open spec fn pick_variant_spec(v: Seq<ThemeVariant>, variant_name: Seq<char>) -> Option<int> {
    match first_index_of(variant_names(v), variant_name) {
        Some(i) => Some(i),
        None => if v.len() > 0 {
            Some(0)
        } else {
            None
        },
    }
}

/// The position of the variant a theme uses (see [`pick_variant_spec`]).
pub fn pick_variant(variants: &Vec<ThemeVariant>, variant_name: &str) -> (r: Option<usize>)
    ensures
        match r {
            Some(i) => pick_variant_spec(variants@, variant_name@) == Some(i as int) && i < variants@.len(),
            None => pick_variant_spec(variants@, variant_name@) is None,
        },
{
    let ghost names = variant_names(variants@);
    let mut i: usize = 0;
    while i < variants.len()
        invariant
            i <= variants@.len(),
            names == variant_names(variants@),
            forall|k: int| 0 <= k < i ==> names[k] != variant_name@,
        decreases variants@.len() - i,
    {
        if str_eq(variants[i].name.as_str(), variant_name) {
            proof {
                lemma_first_index_at(names, variant_name@, i as int);
            }
            return Some(i);
        }
        i += 1;
    }
    proof {
        lemma_first_index_of(names, variant_name@);
    }
    if variants.len() > 0 {
        Some(0)
    } else {
        None
    }
}

impl Theme {
    /// The theme of a variant: each role's colour from the variant's entry
    /// for it, where there is one, else from the role's fallback (the
    /// colours of the default dark theme, written as `#RRGGBB`).
    pub fn from_variant(v: &ThemeVariant) -> (r: Self)
        ensures
            r.accent == role_color(v.colors@, "accent"@, "#00FFFF"@),
            r.text == role_color(v.colors@, "text"@, "#FFFFFF"@),
            r.text_muted == role_color(v.colors@, "text_muted"@, "#666666"@),
            r.text_secondary == role_color(v.colors@, "text_secondary"@, "#808080"@),
            r.header == role_color(v.colors@, "header"@, "#FFFF00"@),
            r.success == role_color(v.colors@, "success"@, "#00FF00"@),
            r.error == role_color(v.colors@, "error"@, "#FF0000"@),
            r.highlight_bg == role_color(v.colors@, "highlight_bg"@, "#3A3A3A"@),
            r.highlight_fg == role_color(v.colors@, "highlight_fg"@, "#FFFFFF"@),
            r.pkg_colors@ == seq![
                role_color(v.colors@, "pkg_color_0"@, "#00FFFF"@),
                role_color(v.colors@, "pkg_color_1"@, "#00FF00"@),
                role_color(v.colors@, "pkg_color_2"@, "#FFFF00"@),
                role_color(v.colors@, "pkg_color_3"@, "#0000FF"@),
                role_color(v.colors@, "pkg_color_4"@, "#FF00FF"@),
                role_color(v.colors@, "pkg_color_5"@, "#FF0000"@),
                role_color(v.colors@, "pkg_color_6"@, "#87FFFF"@),
                role_color(v.colors@, "pkg_color_7"@, "#87FF87"@),
                role_color(v.colors@, "pkg_color_8"@, "#FFFF87"@),
                role_color(v.colors@, "pkg_color_9"@, "#5F87FF"@),
            ],
    {
        let c = &v.colors;
        let r = Theme {
            accent: role_exec(c, "accent", "#00FFFF"),
            text: role_exec(c, "text", "#FFFFFF"),
            text_muted: role_exec(c, "text_muted", "#666666"),
            text_secondary: role_exec(c, "text_secondary", "#808080"),
            header: role_exec(c, "header", "#FFFF00"),
            success: role_exec(c, "success", "#00FF00"),
            error: role_exec(c, "error", "#FF0000"),
            highlight_bg: role_exec(c, "highlight_bg", "#3A3A3A"),
            highlight_fg: role_exec(c, "highlight_fg", "#FFFFFF"),
            pkg_colors: [
                role_exec(c, "pkg_color_0", "#00FFFF"),
                role_exec(c, "pkg_color_1", "#00FF00"),
                role_exec(c, "pkg_color_2", "#FFFF00"),
                role_exec(c, "pkg_color_3", "#0000FF"),
                role_exec(c, "pkg_color_4", "#FF00FF"),
                role_exec(c, "pkg_color_5", "#FF0000"),
                role_exec(c, "pkg_color_6", "#87FFFF"),
                role_exec(c, "pkg_color_7", "#87FF87"),
                role_exec(c, "pkg_color_8", "#FFFF87"),
                role_exec(c, "pkg_color_9", "#5F87FF"),
            ],
        };
        r
    }

    /// The names of the built-in themes.
    pub fn available_names() -> (r: Vec<&'static str>)
        ensures
            r@ == crate::app::THEME_NAMES@,
    {
        let mut out: Vec<&'static str> = Vec::new();
        let mut i: usize = 0;
        while i < 19
            invariant
                i <= 19,
                out@ == crate::app::THEME_NAMES@.take(i as int),
            decreases 19 - i,
        {
            out.push(crate::app::THEME_NAMES[i]);
            assert(crate::app::THEME_NAMES@.take(i + 1) =~= crate::app::THEME_NAMES@.take(i as int).push(
                crate::app::THEME_NAMES@[i as int],
            ));
            i += 1;
        }
        assert(crate::app::THEME_NAMES@.take(19) =~= crate::app::THEME_NAMES@);
        out
    }
}

} // verus!
