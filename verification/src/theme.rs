//! Color themes: the presets, `#RRGGBB` parsing, and custom overrides from the
//! configuration.
use vstd::prelude::*;
use crate::config::{CustomThemeConfig, TuiConfig};
use crate::text::{chars_of, str_eq};
use crate::types::strings_view;

verus! {

/// A terminal color.
#[derive(Debug, Clone, Copy, PartialEq, Eq, Structural)]
pub enum Color {
    White,
    Gray,
    Magenta,
    DarkGray,
    Yellow,
    Rgb(u8, u8, u8),
}

/// Color theme for the front end.
#[derive(Debug, Clone)]
pub struct Theme {
    pub name: String,
    pub fg: Color,
    pub fg_dim: Color,
    pub accent: Color,
    pub accent_dim: Color,
    pub border: Color,
    pub error: Color,
    pub visualizer: Vec<Color>,
}

/// Model of a [`Theme`].
pub struct ThemeView {
    pub name: Seq<char>,
    pub fg: Color,
    pub fg_dim: Color,
    pub accent: Color,
    pub accent_dim: Color,
    pub border: Color,
    pub error: Color,
    pub visualizer: Seq<Color>,
}

impl View for Theme {
    type V = ThemeView;

    open spec fn view(&self) -> ThemeView {
        ThemeView {
            name: self.name@,
            fg: self.fg,
            fg_dim: self.fg_dim,
            accent: self.accent,
            accent_dim: self.accent_dim,
            border: self.border,
            error: self.error,
            visualizer: self.visualizer@,
        }
    }
}

/// The default preset.
pub open spec fn default_view() -> ThemeView {
    ThemeView {
        name: "default"@,
        fg: Color::White,
        fg_dim: Color::Gray,
        accent: Color::Magenta,
        accent_dim: Color::DarkGray,
        border: Color::DarkGray,
        error: Color::Yellow,
        visualizer: seq![Color::DarkGray, Color::Magenta],
    }
}

/// The Nord preset.
pub open spec fn nord_view() -> ThemeView {
    ThemeView {
        name: "nord"@,
        fg: Color::Rgb(216, 222, 233),
        fg_dim: Color::Rgb(76, 86, 106),
        accent: Color::Rgb(136, 192, 208),
        accent_dim: Color::Rgb(94, 129, 172),
        border: Color::Rgb(59, 66, 82),
        error: Color::Rgb(191, 97, 106),
        visualizer: seq![Color::Rgb(94, 129, 172), Color::Rgb(136, 192, 208)],
    }
}

/// The Dracula preset.
pub open spec fn dracula_view() -> ThemeView {
    ThemeView {
        name: "dracula"@,
        fg: Color::Rgb(248, 248, 242),
        fg_dim: Color::Rgb(98, 114, 164),
        accent: Color::Rgb(189, 147, 249),
        accent_dim: Color::Rgb(139, 97, 199),
        border: Color::Rgb(68, 71, 90),
        error: Color::Rgb(255, 85, 85),
        visualizer: seq![Color::Rgb(98, 114, 164), Color::Rgb(189, 147, 249)],
    }
}

/// The Gruvbox preset.
pub open spec fn gruvbox_view() -> ThemeView {
    ThemeView {
        name: "gruvbox"@,
        fg: Color::Rgb(235, 219, 178),
        fg_dim: Color::Rgb(146, 131, 116),
        accent: Color::Rgb(250, 189, 47),
        accent_dim: Color::Rgb(215, 153, 33),
        border: Color::Rgb(60, 56, 54),
        error: Color::Rgb(251, 73, 52),
        visualizer: seq![Color::Rgb(104, 157, 106), Color::Rgb(250, 189, 47)],
    }
}

/// The Catppuccin preset.
pub open spec fn catppuccin_view() -> ThemeView {
    ThemeView {
        name: "catppuccin"@,
        fg: Color::Rgb(205, 214, 244),
        fg_dim: Color::Rgb(88, 91, 112),
        accent: Color::Rgb(203, 166, 247),
        accent_dim: Color::Rgb(147, 110, 191),
        border: Color::Rgb(49, 50, 68),
        error: Color::Rgb(243, 139, 168),
        visualizer: seq![Color::Rgb(88, 91, 112), Color::Rgb(203, 166, 247)],
    }
}

/// The preset with the given name; unknown names give the default preset.
pub open spec fn preset_view(name: Seq<char>) -> ThemeView {
    if name == "nord"@ {
        nord_view()
    } else if name == "dracula"@ {
        dracula_view()
    } else if name == "gruvbox"@ {
        gruvbox_view()
    } else if name == "catppuccin"@ {
        catppuccin_view()
    } else {
        default_view()
    }
}

/// Value of a hexadecimal digit (either case).
pub open spec fn hex_digit_value(c: char) -> Option<u8> {
    if '0' <= c && c <= '9' {
        Some((c as u32 - '0' as u32) as u8)
    } else if 'a' <= c && c <= 'f' {
        Some((c as u32 - 'a' as u32 + 10) as u8)
    } else if 'A' <= c && c <= 'F' {
        Some((c as u32 - 'A' as u32 + 10) as u8)
    } else {
        None
    }
}

/// Every character is a hexadecimal digit.
pub open spec fn all_hex(d: Seq<char>) -> bool {
    forall|i: int| 0 <= i < d.len() ==> (#[trigger] hex_digit_value(d[i])) is Some
}

/// The number that hexadecimal digits spell.
pub open spec fn hex_value(d: Seq<char>) -> int
    decreases d.len(),
{
    if d.len() == 0 {
        0
    } else {
        hex_value(d.drop_last()) * 16 + hex_digit_value(d.last())->0
    }
}

/// `u8::from_str_radix(p, 16)`: an optional `+`, then at least one hexadecimal
/// digit, with a value below 256.
pub open spec fn radix16_u8(p: Seq<char>) -> Option<u8> {
    let d = if p.len() > 0 && p[0] == '+' {
        p.drop_first()
    } else {
        p
    };
    if d.len() == 0 || !all_hex(d) || hex_value(d) > 255 {
        None
    } else {
        Some(hex_value(d) as u8)
    }
}

/// Number of bytes of a character in UTF-8.
pub open spec fn utf8_len(c: char) -> nat {
    if (c as u32) < 0x80 {
        1
    } else if (c as u32) < 0x800 {
        2
    } else if (c as u32) < 0x10000 {
        3
    } else {
        4
    }
}

/// Number of bytes of a string in UTF-8.
pub open spec fn byte_len(s: Seq<char>) -> nat
    decreases s.len(),
{
    if s.len() == 0 {
        0
    } else {
        byte_len(s.drop_last()) + utf8_len(s.last())
    }
}

/// The character is ASCII (one byte in UTF-8).
pub open spec fn is_ascii_char(c: char) -> bool {
    (c as u32) < 0x80
}

/// `parse_hex_color`: `#` and six more bytes that are three pairs of hex digits.
pub open spec fn hex_color(s: Seq<char>) -> Option<Color> {
    if s.len() == 0 || s[0] != '#' {
        None
    } else {
        let r = s.drop_first();
        if byte_len(r) != 6 || r.len() != 6 {
            None
        } else {
            match (
                radix16_u8(r.subrange(0, 2)),
                radix16_u8(r.subrange(2, 4)),
                radix16_u8(r.subrange(4, 6)),
            ) {
                (Some(red), Some(green), Some(blue)) => Some(Color::Rgb(red, green, blue)),
                _ => None,
            }
        }
    }
}

/// The text after `#` is six bytes long but cutting it into byte pairs splits a
/// character: at byte 2, or at byte 4 once the first pair has parsed. Parsing such
/// text panics.
pub open spec fn hex_color_panics(s: Seq<char>) -> bool {
    let r = s.drop_first();
    let first_ascii = r.len() >= 2 && is_ascii_char(r[0]) && is_ascii_char(r[1]);
    let cut_at_2 = first_ascii || (r.len() >= 1 && utf8_len(r[0]) == 2);
    let second_ascii = r.len() >= 4 && is_ascii_char(r[2]) && is_ascii_char(r[3]);
    let cut_at_4 = second_ascii || (r.len() >= 3 && utf8_len(r[2]) == 2);
    &&& s.len() > 0
    &&& s[0] == '#'
    &&& byte_len(r) == 6
    &&& (!cut_at_2 || (first_ascii && radix16_u8(r.subrange(0, 2)) is Some && !cut_at_4))
}

/// `base`, or the color that `hex` names when it is given and parses.
pub open spec fn override_color(base: Color, hex: Option<String>) -> Color {
    match hex {
        Some(h) => match hex_color(h@) {
            Some(c) => c,
            None => base,
        },
        None => base,
    }
}

/// The colors of the strings that parse, in order.
pub open spec fn parsed_colors(hexes: Seq<Seq<char>>) -> Seq<Color>
    decreases hexes.len(),
{
    if hexes.len() == 0 {
        Seq::empty()
    } else {
        let p = parsed_colors(hexes.drop_last());
        match hex_color(hexes.last()) {
            Some(c) => p.push(c),
            None => p,
        }
    }
}

/// Parsing this optional color does not panic.
pub open spec fn hex_safe(h: Option<String>) -> bool {
    h matches Some(x) ==> !hex_color_panics(x@)
}

/// Parsing the custom colors does not panic.
pub open spec fn custom_safe(c: CustomThemeConfig) -> bool {
    &&& hex_safe(c.fg)
    &&& hex_safe(c.fg_dim)
    &&& hex_safe(c.accent)
    &&& hex_safe(c.accent_dim)
    &&& hex_safe(c.border)
    &&& hex_safe(c.error)
    &&& (c.visualizer matches Some(v) ==> forall|i: int|
        0 <= i < v@.len() ==> !hex_color_panics(#[trigger] v@[i]@))
}

/// The theme a configuration describes: its preset, with the custom colors that
/// parse laid over it and the name "custom" when there are custom colors.
pub open spec fn themed(config: TuiConfig) -> ThemeView {
    let base = preset_view(config.theme@);
    match config.custom_theme {
        None => base,
        Some(c) => ThemeView {
            name: "custom"@,
            fg: override_color(base.fg, c.fg),
            fg_dim: override_color(base.fg_dim, c.fg_dim),
            accent: override_color(base.accent, c.accent),
            accent_dim: override_color(base.accent_dim, c.accent_dim),
            border: override_color(base.border, c.border),
            error: override_color(base.error, c.error),
            visualizer: match c.visualizer {
                Some(v) => {
                    let p = parsed_colors(strings_view(v@));
                    if p.len() > 0 {
                        p
                    } else {
                        base.visualizer
                    }
                },
                None => base.visualizer,
            },
        },
    }
}

/// Each custom color replaces its own color of the preset: a custom color that parses
/// becomes that color of the theme, one that is missing or does not parse leaves the
/// preset's color; the custom visualizer colors that parse replace the preset's
/// palette when there is at least one; a theme with custom colors is named "custom".
pub proof fn lemma_custom_colors(config: TuiConfig, c: CustomThemeConfig)
    requires
        config.custom_theme == Some(c),
    ensures
        c.fg is None ==> themed(config).fg == preset_view(config.theme@).fg,
        c.fg matches Some(h) ==> (hex_color(h@) matches Some(x) ==> themed(config).fg == x),
        c.fg matches Some(h) ==> (hex_color(h@) is None ==> themed(config).fg == preset_view(
            config.theme@,
        ).fg),
        c.fg_dim is None ==> themed(config).fg_dim == preset_view(config.theme@).fg_dim,
        c.fg_dim matches Some(h) ==> (hex_color(h@) matches Some(x) ==> themed(config).fg_dim == x),
        c.fg_dim matches Some(h) ==> (hex_color(h@) is None ==> themed(config).fg_dim == preset_view(
            config.theme@,
        ).fg_dim),
        c.accent is None ==> themed(config).accent == preset_view(config.theme@).accent,
        c.accent matches Some(h) ==> (hex_color(h@) matches Some(x) ==> themed(config).accent == x),
        c.accent matches Some(h) ==> (hex_color(h@) is None ==> themed(config).accent == preset_view(
            config.theme@,
        ).accent),
        c.accent_dim is None ==> themed(config).accent_dim == preset_view(config.theme@).accent_dim,
        c.accent_dim matches Some(h) ==> (hex_color(h@) matches Some(x) ==> themed(config).accent_dim == x),
        c.accent_dim matches Some(h) ==> (hex_color(h@) is None ==> themed(config).accent_dim == preset_view(
            config.theme@,
        ).accent_dim),
        c.border is None ==> themed(config).border == preset_view(config.theme@).border,
        c.border matches Some(h) ==> (hex_color(h@) matches Some(x) ==> themed(config).border == x),
        c.border matches Some(h) ==> (hex_color(h@) is None ==> themed(config).border == preset_view(
            config.theme@,
        ).border),
        c.error is None ==> themed(config).error == preset_view(config.theme@).error,
        c.error matches Some(h) ==> (hex_color(h@) matches Some(x) ==> themed(config).error == x),
        c.error matches Some(h) ==> (hex_color(h@) is None ==> themed(config).error == preset_view(
            config.theme@,
        ).error),
        c.visualizer is None ==> themed(config).visualizer == preset_view(config.theme@).visualizer,
        c.visualizer matches Some(v) ==> (parsed_colors(strings_view(v@)).len() == 0
            ==> themed(config).visualizer == preset_view(config.theme@).visualizer),
        c.visualizer matches Some(v) ==> (parsed_colors(strings_view(v@)).len() > 0
            ==> themed(config).visualizer == parsed_colors(strings_view(v@))),
        themed(config).name == "custom"@,
{
}

/// Without custom colors the theme is the preset the name selects.
pub proof fn lemma_no_custom_colors(config: TuiConfig)
    requires
        config.custom_theme is None,
    ensures
        themed(config) == preset_view(config.theme@),
{
}

impl Theme {
    pub fn default_theme() -> (t: Theme)
        ensures
            t@ == default_view(),
    {
        let t = Theme {
            name: String::from_str("default"),
            fg: Color::White,
            fg_dim: Color::Gray,
            accent: Color::Magenta,
            accent_dim: Color::DarkGray,
            border: Color::DarkGray,
            error: Color::Yellow,
            visualizer: vec![Color::DarkGray, Color::Magenta],
        };
        assert(t.visualizer@ =~= seq![Color::DarkGray, Color::Magenta]);
        t
    }

    pub fn nord() -> (t: Theme)
        ensures
            t@ == nord_view(),
    {
        let t = Theme {
            name: String::from_str("nord"),
            fg: Color::Rgb(216, 222, 233),
            fg_dim: Color::Rgb(76, 86, 106),
            accent: Color::Rgb(136, 192, 208),
            accent_dim: Color::Rgb(94, 129, 172),
            border: Color::Rgb(59, 66, 82),
            error: Color::Rgb(191, 97, 106),
            visualizer: vec![Color::Rgb(94, 129, 172), Color::Rgb(136, 192, 208)],
        };
        assert(t.visualizer@ =~= nord_view().visualizer);
        t
    }

    pub fn dracula() -> (t: Theme)
        ensures
            t@ == dracula_view(),
    {
        let t = Theme {
            name: String::from_str("dracula"),
            fg: Color::Rgb(248, 248, 242),
            fg_dim: Color::Rgb(98, 114, 164),
            accent: Color::Rgb(189, 147, 249),
            accent_dim: Color::Rgb(139, 97, 199),
            border: Color::Rgb(68, 71, 90),
            error: Color::Rgb(255, 85, 85),
            visualizer: vec![Color::Rgb(98, 114, 164), Color::Rgb(189, 147, 249)],
        };
        assert(t.visualizer@ =~= dracula_view().visualizer);
        t
    }

    pub fn gruvbox() -> (t: Theme)
        ensures
            t@ == gruvbox_view(),
    {
        let t = Theme {
            name: String::from_str("gruvbox"),
            fg: Color::Rgb(235, 219, 178),
            fg_dim: Color::Rgb(146, 131, 116),
            accent: Color::Rgb(250, 189, 47),
            accent_dim: Color::Rgb(215, 153, 33),
            border: Color::Rgb(60, 56, 54),
            error: Color::Rgb(251, 73, 52),
            visualizer: vec![Color::Rgb(104, 157, 106), Color::Rgb(250, 189, 47)],
        };
        assert(t.visualizer@ =~= gruvbox_view().visualizer);
        t
    }

    pub fn catppuccin() -> (t: Theme)
        ensures
            t@ == catppuccin_view(),
    {
        let t = Theme {
            name: String::from_str("catppuccin"),
            fg: Color::Rgb(205, 214, 244),
            fg_dim: Color::Rgb(88, 91, 112),
            accent: Color::Rgb(203, 166, 247),
            accent_dim: Color::Rgb(147, 110, 191),
            border: Color::Rgb(49, 50, 68),
            error: Color::Rgb(243, 139, 168),
            visualizer: vec![Color::Rgb(88, 91, 112), Color::Rgb(203, 166, 247)],
        };
        assert(t.visualizer@ =~= catppuccin_view().visualizer);
        t
    }

    /// Loads a theme by preset name; unknown names give the default theme.
    pub fn from_name(name: &str) -> (t: Theme)
        ensures
            t@ == preset_view(name@),
    {
        if str_eq(name, "nord") {
            Self::nord()
        } else if str_eq(name, "dracula") {
            Self::dracula()
        } else if str_eq(name, "gruvbox") {
            Self::gruvbox()
        } else if str_eq(name, "catppuccin") {
            Self::catppuccin()
        } else {
            Self::default_theme()
        }
    }

    /// The theme a configuration describes: the preset it names, with its custom
    /// colors (those that parse) laid over it.
    pub fn from_config(config: &TuiConfig) -> (t: Theme)
        requires
            config.custom_theme matches Some(c) ==> custom_safe(c),
        ensures
            t@ == themed(*config),
    {
        let mut theme = Self::from_name(config.theme.as_str());
        if let Some(custom) = &config.custom_theme {
            theme.fg = overridden(theme.fg, &custom.fg);
            theme.fg_dim = overridden(theme.fg_dim, &custom.fg_dim);
            theme.accent = overridden(theme.accent, &custom.accent);
            theme.accent_dim = overridden(theme.accent_dim, &custom.accent_dim);
            theme.border = overridden(theme.border, &custom.border);
            theme.error = overridden(theme.error, &custom.error);
            if let Some(colors) = &custom.visualizer {
                let parsed = parse_colors(colors);
                if parsed.len() > 0 {
                    theme.visualizer = parsed;
                }
            }
            theme.name = String::from_str("custom");
        }
        theme
    }
}

/// `base`, or the color `hex` names when it is given and parses.
fn overridden(base: Color, hex: &Option<String>) -> (c: Color)
    requires
        hex_safe(*hex),
    ensures
        c == override_color(base, *hex),
{
    match hex {
        Some(h) => match parse_hex_color(h.as_str()) {
            Some(c) => c,
            None => base,
        },
        None => base,
    }
}

/// The colors of the strings that parse, in order.
fn parse_colors(hexes: &Vec<String>) -> (r: Vec<Color>)
    requires
        forall|i: int| 0 <= i < hexes@.len() ==> !hex_color_panics(#[trigger] hexes@[i]@),
    ensures
        r@ == parsed_colors(strings_view(hexes@)),
{
    let ghost all = strings_view(hexes@);
    let mut r: Vec<Color> = Vec::new();
    let mut i: usize = 0;
    while i < hexes.len()
        invariant
            i <= hexes@.len(),
            all == strings_view(hexes@),
            forall|k: int| 0 <= k < hexes@.len() ==> !hex_color_panics(#[trigger] hexes@[k]@),
            r@ == parsed_colors(all.subrange(0, i as int)),
        decreases hexes@.len() - i,
    {
        let ghost pre = all.subrange(0, i as int + 1);
        assert(pre.drop_last() =~= all.subrange(0, i as int));
        assert(pre.last() == hexes@[i as int]@);
        if let Some(c) = parse_hex_color(hexes[i].as_str()) {
            r.push(c);
        }
        i = i + 1;
    }
    assert(all.subrange(0, hexes@.len() as int) =~= all);
    r
}

/// Value of a hexadecimal digit (either case).
fn hex_digit(c: char) -> (r: Option<u8>)
    ensures
        r == hex_digit_value(c),
{
    if '0' <= c && c <= '9' {
        Some(((c as u32) - 48) as u8)
    } else if 'a' <= c && c <= 'f' {
        Some(((c as u32) - 87) as u8)
    } else if 'A' <= c && c <= 'F' {
        Some(((c as u32) - 55) as u8)
    } else {
        None
    }
}

/// `u8::from_str_radix` in base 16 on two characters.
fn parse_hex_pair(a: char, b: char) -> (r: Option<u8>)
    ensures
        r == radix16_u8(seq![a, b]),
{
    let ghost p = seq![a, b];
    let ghost pa = seq![a];
    let ghost pb = seq![b];
    assert(pa.drop_last() =~= Seq::<char>::empty());
    assert(pb.drop_last() =~= Seq::<char>::empty());
    assert(p.drop_last() =~= pa);
    assert(p.drop_first() =~= pb);
    assert(pb[0] == b && pa[0] == a && p[0] == a && p[1] == b);
    assert(pb.last() == b && pa.last() == a && p.last() == b);
    assert(hex_value(Seq::<char>::empty()) == 0);
    if a == '+' {
        match hex_digit(b) {
            Some(v) => {
                assert(hex_value(pb) == v);
                assert(all_hex(pb));
                Some(v)
            },
            None => {
                assert(!all_hex(pb));
                None
            },
        }
    } else {
        match (hex_digit(a), hex_digit(b)) {
            (Some(x), Some(y)) => {
                assert(hex_value(pa) == x);
                assert(hex_value(p) == x * 16 + y);
                assert(all_hex(p)) by {
                    assert forall|i: int| 0 <= i < p.len() implies (#[trigger] hex_digit_value(
                        p[i],
                    )) is Some by {
                        if i == 0 {
                            assert(p[i] == a);
                        } else {
                            assert(p[i] == b);
                        }
                    }
                }
                Some(x * 16 + y)
            },
            _ => {
                assert(hex_digit_value(p[0]) is None || hex_digit_value(p[1]) is None);
                assert(!all_hex(p));
                None
            },
        }
    }
}

/// Number of bytes of a character in UTF-8.
fn char_utf8_len(c: char) -> (n: usize)
    ensures
        n == utf8_len(c),
{
    let u = c as u32;
    if u < 0x80 {
        1
    } else if u < 0x800 {
        2
    } else if u < 0x10000 {
        3
    } else {
        4
    }
}

/// A prefix is no longer in bytes than the whole.
proof fn lemma_byte_len_prefix(s: Seq<char>, i: int)
    requires
        0 <= i <= s.len(),
    ensures
        byte_len(s.subrange(0, i)) <= byte_len(s),
    decreases s.len() - i,
{
    if i < s.len() {
        lemma_byte_len_prefix(s, i + 1);
        assert(s.subrange(0, i + 1).drop_last() =~= s.subrange(0, i));
    } else {
        assert(s.subrange(0, i) =~= s);
    }
}

/// Whether `v[lo..]` is exactly `n` bytes long in UTF-8.
fn byte_len_from_is(v: &[char], lo: usize, n: usize) -> (b: bool)
    requires
        lo <= v@.len(),
        n < usize::MAX - 4,
    ensures
        b == (byte_len(v@.subrange(lo as int, v@.len() as int)) == n),
{
    let ghost s = v@.subrange(lo as int, v@.len() as int);
    let mut total: usize = 0;
    let mut i: usize = lo;
    while i < v.len()
        invariant
            lo <= i <= v@.len(),
            s == v@.subrange(lo as int, v@.len() as int),
            n < usize::MAX - 4,
            total == byte_len(s.subrange(0, i - lo)),
            total <= n,
        decreases v@.len() - i,
    {
        let ghost pre = s.subrange(0, i - lo + 1);
        assert(pre.drop_last() =~= s.subrange(0, i - lo));
        assert(pre.last() == v@[i as int]);
        total = total + char_utf8_len(v[i]);
        i = i + 1;
        if total > n {
            proof {
                lemma_byte_len_prefix(s, i - lo);
            }
            return false;
        }
    }
    assert(s.subrange(0, i - lo) =~= s);
    total == n
}

/// Whether parsing `hex` as a color would panic (see [`hex_color_panics`]).
pub fn hex_color_would_panic(hex: &str) -> (b: bool)
    ensures
        b == hex_color_panics(hex@),
{
    let v = chars_of(hex);
    if v.len() == 0 || v[0] != '#' {
        return false;
    }
    if !byte_len_from_is(v.as_slice(), 1, 6) {
        assert(v@.subrange(1, v@.len() as int) =~= hex@.drop_first());
        return false;
    }
    let ghost r = hex@.drop_first();
    assert(v@.subrange(1, v@.len() as int) =~= r);
    let n = v.len();
    let first_ascii = n >= 3 && (v[1] as u32) < 0x80 && (v[2] as u32) < 0x80;
    let cut_at_2 = first_ascii || (n >= 2 && char_utf8_len(v[1]) == 2);
    let second_ascii = n >= 5 && (v[3] as u32) < 0x80 && (v[4] as u32) < 0x80;
    let cut_at_4 = second_ascii || (n >= 4 && char_utf8_len(v[3]) == 2);
    if !cut_at_2 {
        return true;
    }
    if first_ascii {
        assert(r.subrange(0, 2) =~= seq![v@[1], v@[2]]);
        parse_hex_pair(v[1], v[2]).is_some() && !cut_at_4
    } else {
        false
    }
}

/// Parses a `#RRGGBB` hex string to a color.
pub fn parse_hex_color(hex: &str) -> (r: Option<Color>)
    requires
        !hex_color_panics(hex@),
    ensures
        r == hex_color(hex@),
{
    let v = chars_of(hex);
    if v.len() == 0 || v[0] != '#' {
        return None;
    }
    let ghost r = hex@.drop_first();
    assert(v@.subrange(1, v@.len() as int) =~= r);
    if !byte_len_from_is(v.as_slice(), 1, 6) || v.len() != 7 {
        return None;
    }
    assert(r.subrange(0, 2) =~= seq![v@[1], v@[2]]);
    assert(r.subrange(2, 4) =~= seq![v@[3], v@[4]]);
    assert(r.subrange(4, 6) =~= seq![v@[5], v@[6]]);
    let red = match parse_hex_pair(v[1], v[2]) {
        Some(x) => x,
        None => return None,
    };
    let green = match parse_hex_pair(v[3], v[4]) {
        Some(x) => x,
        None => return None,
    };
    let blue = match parse_hex_pair(v[5], v[6]) {
        Some(x) => x,
        None => return None,
    };
    Some(Color::Rgb(red, green, blue))
}

} // verus!
