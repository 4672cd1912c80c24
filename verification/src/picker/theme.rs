//! Color themes of the native picker.

use vstd::prelude::*;

use crate::text::{
    byte_len, char_utf8_width, chars_of, is_boundary, lemma_byte_len_take_mono,
    lemma_byte_len_take_step, prefix_byte_len, str_eq,
};

verus! {

/// A terminal color.
#[derive(Clone, Copy, Debug, PartialEq, Eq, Structural)]
pub enum Color {
    Reset,
    DarkGray,
    Blue,
    White,
    Yellow,
    Rgb(u8, u8, u8),
}

/// The colors of the picker's parts.
#[derive(Clone, Copy, Debug, PartialEq, Eq, Structural)]
pub struct Theme {
    pub prompt_fg: Color,
    pub separator_fg: Color,
    pub status_fg: Color,
    pub highlight_bg: Color,
    pub highlight_fg: Color,
    pub item_fg: Color,
    pub match_fg: Color,
    /// Color of entries with a pending bell
    pub bell_fg: Color,
}

pub open spec fn catppuccin_mocha() -> Theme {
    Theme {
        prompt_fg: Color::Rgb(137, 180, 250),
        separator_fg: Color::Rgb(108, 112, 134),
        status_fg: Color::Rgb(166, 173, 200),
        highlight_bg: Color::Rgb(69, 71, 90),
        highlight_fg: Color::Rgb(203, 166, 247),
        item_fg: Color::Rgb(205, 214, 244),
        match_fg: Color::Rgb(249, 226, 175),
        bell_fg: Color::Rgb(250, 179, 135),
    }
}

pub open spec fn nord() -> Theme {
    Theme {
        prompt_fg: Color::Rgb(136, 192, 208),
        separator_fg: Color::Rgb(76, 86, 106),
        status_fg: Color::Rgb(97, 110, 136),
        highlight_bg: Color::Rgb(59, 66, 82),
        highlight_fg: Color::Rgb(136, 192, 208),
        item_fg: Color::Rgb(216, 222, 233),
        match_fg: Color::Rgb(235, 203, 139),
        bell_fg: Color::Rgb(208, 135, 112),
    }
}

pub open spec fn gruvbox() -> Theme {
    Theme {
        prompt_fg: Color::Rgb(131, 165, 152),
        separator_fg: Color::Rgb(102, 92, 84),
        status_fg: Color::Rgb(146, 131, 116),
        highlight_bg: Color::Rgb(60, 56, 54),
        highlight_fg: Color::Rgb(250, 189, 47),
        item_fg: Color::Rgb(235, 219, 178),
        match_fg: Color::Rgb(254, 128, 25),
        bell_fg: Color::Rgb(251, 73, 52),
    }
}

pub open spec fn tokyo_night() -> Theme {
    Theme {
        prompt_fg: Color::Rgb(122, 162, 247),
        separator_fg: Color::Rgb(65, 72, 104),
        status_fg: Color::Rgb(86, 95, 137),
        highlight_bg: Color::Rgb(36, 40, 59),
        highlight_fg: Color::Rgb(187, 154, 247),
        item_fg: Color::Rgb(192, 202, 245),
        match_fg: Color::Rgb(224, 175, 104),
        bell_fg: Color::Rgb(255, 158, 100),
    }
}

pub open spec fn solarized_dark() -> Theme {
    Theme {
        prompt_fg: Color::Rgb(38, 139, 210),
        separator_fg: Color::Rgb(88, 110, 117),
        status_fg: Color::Rgb(101, 123, 131),
        highlight_bg: Color::Rgb(7, 54, 66),
        highlight_fg: Color::Rgb(42, 161, 152),
        item_fg: Color::Rgb(131, 148, 150),
        match_fg: Color::Rgb(181, 137, 0),
        bell_fg: Color::Rgb(203, 75, 22),
    }
}

pub open spec fn default_theme() -> Theme {
    Theme {
        prompt_fg: Color::Reset,
        separator_fg: Color::DarkGray,
        status_fg: Color::DarkGray,
        highlight_bg: Color::Blue,
        highlight_fg: Color::White,
        item_fg: Color::Reset,
        match_fg: Color::Yellow,
        bell_fg: Color::Yellow,
    }
}

/// The theme called `name`; the plain default for unknown names.
pub open spec fn theme_named(name: Seq<char>) -> Theme {
    if name == "catppuccin"@ || name == "catppuccin-mocha"@ {
        catppuccin_mocha()
    } else if name == "nord"@ {
        nord()
    } else if name == "gruvbox"@ {
        gruvbox()
    } else if name == "tokyo-night"@ || name == "tokyonight"@ {
        tokyo_night()
    } else if name == "solarized"@ || name == "solarized-dark"@ {
        solarized_dark()
    } else {
        default_theme()
    }
}

/// Each name gives its palette: Catppuccin Mocha (also `catppuccin-mocha`),
/// Nord, Gruvbox, Tokyo Night (also `tokyonight`), Solarized Dark (also
/// `solarized`), and the terminal's own colors for any other name; the
/// palettes of different themes differ.
pub proof fn lemma_theme_palettes(other: Seq<char>)
    requires
        other != "catppuccin"@,
        other != "catppuccin-mocha"@,
        other != "nord"@,
        other != "gruvbox"@,
        other != "tokyo-night"@,
        other != "tokyonight"@,
        other != "solarized"@,
        other != "solarized-dark"@,
    ensures
        theme_named("catppuccin"@).prompt_fg == Color::Rgb(137, 180, 250),
        theme_named("catppuccin"@).item_fg == Color::Rgb(205, 214, 244),
        theme_named("catppuccin"@).match_fg == Color::Rgb(249, 226, 175),
        theme_named("catppuccin"@).bell_fg == Color::Rgb(250, 179, 135),
        theme_named("catppuccin-mocha"@) == theme_named("catppuccin"@),
        theme_named("nord"@).prompt_fg == Color::Rgb(136, 192, 208),
        theme_named("nord"@).separator_fg == Color::Rgb(76, 86, 106),
        theme_named("nord"@).item_fg == Color::Rgb(216, 222, 233),
        theme_named("nord"@).match_fg == Color::Rgb(235, 203, 139),
        theme_named("nord"@).bell_fg == Color::Rgb(208, 135, 112),
        theme_named("gruvbox"@).prompt_fg == Color::Rgb(131, 165, 152),
        theme_named("gruvbox"@).item_fg == Color::Rgb(235, 219, 178),
        theme_named("gruvbox"@).match_fg == Color::Rgb(254, 128, 25),
        theme_named("gruvbox"@).bell_fg == Color::Rgb(251, 73, 52),
        theme_named("tokyo-night"@).prompt_fg == Color::Rgb(122, 162, 247),
        theme_named("tokyo-night"@).item_fg == Color::Rgb(192, 202, 245),
        theme_named("tokyo-night"@).bell_fg == Color::Rgb(255, 158, 100),
        theme_named("tokyonight"@) == theme_named("tokyo-night"@),
        theme_named("solarized-dark"@).prompt_fg == Color::Rgb(38, 139, 210),
        theme_named("solarized-dark"@).item_fg == Color::Rgb(131, 148, 150),
        theme_named("solarized-dark"@).bell_fg == Color::Rgb(203, 75, 22),
        theme_named("solarized"@) == theme_named("solarized-dark"@),
        theme_named(other).prompt_fg == Color::Reset,
        theme_named(other).highlight_bg == Color::Blue,
        theme_named(other).match_fg == Color::Yellow,
        theme_named(other).bell_fg == Color::Yellow,
        theme_named("catppuccin"@) != theme_named("nord"@),
        theme_named("catppuccin"@) != theme_named("gruvbox"@),
        theme_named("catppuccin"@) != theme_named("tokyo-night"@),
        theme_named("catppuccin"@) != theme_named("solarized-dark"@),
        theme_named("nord"@) != theme_named("gruvbox"@),
        theme_named("nord"@) != theme_named("tokyo-night"@),
        theme_named("nord"@) != theme_named("solarized-dark"@),
        theme_named("gruvbox"@) != theme_named("tokyo-night"@),
        theme_named("gruvbox"@) != theme_named("solarized-dark"@),
        theme_named("tokyo-night"@) != theme_named("solarized-dark"@),
        theme_named(other) != theme_named("catppuccin"@),
        theme_named(other) != theme_named("nord"@),
        theme_named(other) != theme_named("gruvbox"@),
        theme_named(other) != theme_named("tokyo-night"@),
        theme_named(other) != theme_named("solarized-dark"@),
{
    reveal_strlit("catppuccin");
    reveal_strlit("catppuccin-mocha");
    reveal_strlit("nord");
    reveal_strlit("gruvbox");
    reveal_strlit("tokyo-night");
    reveal_strlit("tokyonight");
    reveal_strlit("solarized");
    reveal_strlit("solarized-dark");
    assert("nord"@.len() == 4 && "catppuccin"@.len() == 10 && "catppuccin-mocha"@.len() == 16);
    assert("gruvbox"@.len() == 7 && "tokyo-night"@.len() == 11 && "tokyonight"@.len() == 10);
    assert("solarized"@.len() == 9 && "solarized-dark"@.len() == 14);
    assert("tokyonight"@[0] != "catppuccin"@[0]);
    assert("solarized"@[0] != "catppuccin"@[0]);
    assert(theme_named("nord"@) == nord());
    assert(theme_named("gruvbox"@) == gruvbox());
    assert(theme_named("tokyo-night"@) == tokyo_night());
    assert(theme_named("tokyonight"@) == tokyo_night());
    assert(theme_named("solarized"@) == solarized_dark());
    assert(theme_named("solarized-dark"@) == solarized_dark());
}

impl Theme {
    /// The theme called `name`.
    pub fn from_name(name: &str) -> (t: Theme)
        ensures
            t == theme_named(name@),
    {
        if str_eq(name, "catppuccin") || str_eq(name, "catppuccin-mocha") {
            Theme {
                prompt_fg: Color::Rgb(137, 180, 250),
                separator_fg: Color::Rgb(108, 112, 134),
                status_fg: Color::Rgb(166, 173, 200),
                highlight_bg: Color::Rgb(69, 71, 90),
                highlight_fg: Color::Rgb(203, 166, 247),
                item_fg: Color::Rgb(205, 214, 244),
                match_fg: Color::Rgb(249, 226, 175),
                bell_fg: Color::Rgb(250, 179, 135),
            }
        } else if str_eq(name, "nord") {
            Theme {
                prompt_fg: Color::Rgb(136, 192, 208),
                separator_fg: Color::Rgb(76, 86, 106),
                status_fg: Color::Rgb(97, 110, 136),
                highlight_bg: Color::Rgb(59, 66, 82),
                highlight_fg: Color::Rgb(136, 192, 208),
                item_fg: Color::Rgb(216, 222, 233),
                match_fg: Color::Rgb(235, 203, 139),
                bell_fg: Color::Rgb(208, 135, 112),
            }
        } else if str_eq(name, "gruvbox") {
            Theme {
                prompt_fg: Color::Rgb(131, 165, 152),
                separator_fg: Color::Rgb(102, 92, 84),
                status_fg: Color::Rgb(146, 131, 116),
                highlight_bg: Color::Rgb(60, 56, 54),
                highlight_fg: Color::Rgb(250, 189, 47),
                item_fg: Color::Rgb(235, 219, 178),
                match_fg: Color::Rgb(254, 128, 25),
                bell_fg: Color::Rgb(251, 73, 52),
            }
        } else if str_eq(name, "tokyo-night") || str_eq(name, "tokyonight") {
            Theme {
                prompt_fg: Color::Rgb(122, 162, 247),
                separator_fg: Color::Rgb(65, 72, 104),
                status_fg: Color::Rgb(86, 95, 137),
                highlight_bg: Color::Rgb(36, 40, 59),
                highlight_fg: Color::Rgb(187, 154, 247),
                item_fg: Color::Rgb(192, 202, 245),
                match_fg: Color::Rgb(224, 175, 104),
                bell_fg: Color::Rgb(255, 158, 100),
            }
        } else if str_eq(name, "solarized") || str_eq(name, "solarized-dark") {
            Theme {
                prompt_fg: Color::Rgb(38, 139, 210),
                separator_fg: Color::Rgb(88, 110, 117),
                status_fg: Color::Rgb(101, 123, 131),
                highlight_bg: Color::Rgb(7, 54, 66),
                highlight_fg: Color::Rgb(42, 161, 152),
                item_fg: Color::Rgb(131, 148, 150),
                match_fg: Color::Rgb(181, 137, 0),
                bell_fg: Color::Rgb(203, 75, 22),
            }
        } else {
            Theme {
                prompt_fg: Color::Reset,
                separator_fg: Color::DarkGray,
                status_fg: Color::DarkGray,
                highlight_bg: Color::Blue,
                highlight_fg: Color::White,
                item_fg: Color::Reset,
                match_fg: Color::Yellow,
                bell_fg: Color::Yellow,
            }
        }
    }
}


/// `s` without its leading `#` characters.
pub open spec fn strip_hashes(s: Seq<char>) -> Seq<char>
    decreases s.len(),
{
    if s.len() > 0 && s[0] == '#' {
        strip_hashes(s.drop_first())
    } else {
        s
    }
}

/// The value of a hexadecimal digit (either case).
pub open spec fn hex_value(c: char) -> Option<nat> {
    if '0' <= c <= '9' {
        Some((c as u32 - '0' as u32) as nat)
    } else if 'a' <= c <= 'f' {
        Some((c as u32 - 'a' as u32 + 10) as nat)
    } else if 'A' <= c <= 'F' {
        Some((c as u32 - 'A' as u32 + 10) as nat)
    } else {
        None
    }
}

/// The byte that two characters denote as `u8::from_str_radix(_, 16)` reads
/// them: two hex digits, or `+` and one hex digit.
pub open spec fn hex_byte(a: char, b: char) -> Option<u8> {
    if a == '+' {
        match hex_value(b) {
            Some(v) => Some(v as u8),
            None => None,
        }
    } else {
        match (hex_value(a), hex_value(b)) {
            (Some(x), Some(y)) => Some((x * 16 + y) as u8),
            _ => None,
        }
    }
}

/// The color `#rrggbb` denotes (any number of leading `#`, exactly six
/// bytes after them).
pub open spec fn hex_color(s: Seq<char>) -> Option<Color> {
    let t = strip_hashes(s);
    if byte_len(t) != 6 || t.len() != 6 {
        None
    } else {
        match (hex_byte(t[0], t[1]), hex_byte(t[2], t[3]), hex_byte(t[4], t[5])) {
            (Some(r), Some(g), Some(b)) => Some(Color::Rgb(r, g, b)),
            _ => None,
        }
    }
}

/// The two-byte groups of a six-byte color fall on character boundaries
/// (slicing them otherwise panics).
pub open spec fn hex_color_splits(s: Seq<char>) -> bool {
    let t = strip_hashes(s);
    byte_len(t) == 6 ==> is_boundary(t, 2) && is_boundary(t, 4)
}

/// Some prefix of `t` of at most `n` characters takes `b` bytes.
pub open spec fn boundary_upto(t: Seq<char>, b: int, n: int) -> bool {
    exists|j: int| 0 <= j <= n && #[trigger] byte_len(t.take(j)) == b
}

/// Whether the two-byte groups of a six-byte color fall on character
/// boundaries, so that `parse_hex_color` may be called.
pub fn color_splits(s: &str) -> (r: bool)
    ensures
        r == hex_color_splits(s@),
{
    let v = chars_of(s);
    let mut start: usize = 0;
    assert(v@.skip(0) =~= v@);
    while start < v.len() && v[start] == '#'
        invariant
            start <= v@.len(),
            strip_hashes(v@) == strip_hashes(v@.skip(start as int)),
        decreases v@.len() - start,
    {
        assert(v@.skip(start as int).drop_first() =~= v@.skip(start as int + 1));
        start = start + 1;
    }
    let ghost t = v@.skip(start as int);
    assert(strip_hashes(t) == t);
    assert(t.take(0) =~= Seq::<char>::empty());
    let mut acc: usize = 0;
    let mut i: usize = start;
    let mut found2 = false;
    let mut found4 = false;
    assert(!boundary_upto(t, 2, 0) && !boundary_upto(t, 4, 0)) by {
        if boundary_upto(t, 2, 0) || boundary_upto(t, 4, 0) {
            let j = choose|j: int| 0 <= j <= 0 && (#[trigger] byte_len(t.take(j)) == 2 || byte_len(t.take(j)) == 4);
            assert(j == 0);
        }
    }
    while i < v.len() && acc <= 6
        invariant
            start <= i <= v@.len(),
            t == v@.skip(start as int),
            acc == byte_len(t.take(i - start)),
            found2 == boundary_upto(t, 2, i - start),
            found4 == boundary_upto(t, 4, i - start),
        decreases v@.len() - i,
    {
        let k: usize = i - start;
        proof {
            lemma_byte_len_take_step(t, k as int);
            assert(t[k as int] == v@[i as int]);
        }
        acc = acc + char_utf8_width(v[i]);
        proof {
            assert forall|b: int| #[trigger] boundary_upto(t, b, k + 1) == (boundary_upto(t, b, k as int)
                || byte_len(t.take(k + 1)) == b) by {
                if boundary_upto(t, b, k + 1) {
                    let j = choose|j: int| 0 <= j <= k + 1 && #[trigger] byte_len(t.take(j)) == b;
                    if j <= k {
                        assert(boundary_upto(t, b, k as int));
                    }
                }
                if byte_len(t.take(k + 1)) == b {
                    assert(boundary_upto(t, b, k + 1));
                }
                if boundary_upto(t, b, k as int) {
                    let j = choose|j: int| 0 <= j <= k && #[trigger] byte_len(t.take(j)) == b;
                    assert(boundary_upto(t, b, k + 1));
                }
            }
        }
        found2 = found2 || acc == 2;
        found4 = found4 || acc == 4;
        i = i + 1;
    }
    proof {
        lemma_byte_len_take_mono(t, i - start, t.len() as int);
        assert(t.take(t.len() as int) =~= t);
    }
    if acc > 6 || i < v.len() {
        return true;
    }
    if acc != 6 {
        return true;
    }
    assert(boundary_upto(t, 2, t.len() as int) == is_boundary(t, 2));
    assert(boundary_upto(t, 4, t.len() as int) == is_boundary(t, 4));
    found2 && found4
}

fn hex_digit(c: char) -> (r: Option<u8>)
    ensures
        r is Some <==> hex_value(c) is Some,
        r is Some ==> r->0 == hex_value(c)->0,
{
    if '0' <= c && c <= '9' {
        Some((c as u32 - '0' as u32) as u8)
    } else if 'a' <= c && c <= 'f' {
        Some((c as u32 - 'a' as u32 + 10) as u8)
    } else if 'A' <= c && c <= 'F' {
        Some((c as u32 - 'A' as u32 + 10) as u8)
    } else {
        None
    }
}

fn parse_hex_byte(a: char, b: char) -> (r: Option<u8>)
    ensures
        r == hex_byte(a, b),
        r is Some ==> (a as u32) < 0x80 && (b as u32) < 0x80,
{
    if a == '+' {
        match hex_digit(b) {
            Some(v) => Some(v),
            None => None,
        }
    } else {
        match (hex_digit(a), hex_digit(b)) {
            (Some(x), Some(y)) => Some(x * 16 + y),
            _ => None,
        }
    }
}

/// Parses `#rrggbb` (or `rrggbb`) into a color.
pub fn parse_hex_color(s: &str) -> (r: Option<Color>)
    requires
        hex_color_splits(s@),
    ensures
        r == hex_color(s@),
{
    let v = chars_of(s);
    let mut start: usize = 0;
    assert(v@.skip(0) =~= v@);
    while start < v.len() && v[start] == '#'
        invariant
            start <= v@.len(),
            strip_hashes(v@) == strip_hashes(v@.skip(start as int)),
        decreases v@.len() - start,
    {
        assert(v@.skip(start as int).drop_first() =~= v@.skip(start as int + 1));
        start = start + 1;
    }
    let ghost t = v@.skip(start as int);
    assert(strip_hashes(t) == t);
    if v.len() - start != 6 {
        return None;
    }
    assert(t[0] == v@[start as int] && t[1] == v@[start + 1] && t[2] == v@[start + 2]);
    assert(t[3] == v@[start + 3] && t[4] == v@[start + 4] && t[5] == v@[start + 5]);
    let r = parse_hex_byte(v[start], v[start + 1]);
    let g = parse_hex_byte(v[start + 2], v[start + 3]);
    let b = parse_hex_byte(v[start + 4], v[start + 5]);
    match (r, g, b) {
        (Some(r), Some(g), Some(b)) => {
            proof {
                reveal_with_fuel(byte_len, 7);
                assert(t.take(5) =~= t.drop_last());
                assert(t.take(4) =~= t.take(5).drop_last());
                assert(t.take(3) =~= t.take(4).drop_last());
                assert(t.take(2) =~= t.take(3).drop_last());
                assert(t.take(1) =~= t.take(2).drop_last());
                assert(t.take(0) =~= t.take(1).drop_last());
            }
            Some(Color::Rgb(r, g, b))
        },
        _ => None,
    }
}

/// The theme called `name`, its bell color replaced by `bell_fg` when that
/// is a valid `#rrggbb` color.
pub fn picker_theme(name: &str, bell_fg: &Option<String>) -> (t: Theme)
    requires
        bell_fg matches Some(h) ==> hex_color_splits(h@),
    ensures
        t == (match bell_fg {
            Some(h) => match hex_color(h@) {
                Some(c) => Theme { bell_fg: c, ..theme_named(name@) },
                None => theme_named(name@),
            },
            None => theme_named(name@),
        }),
{
    let mut theme = Theme::from_name(name);
    if let Some(hex) = bell_fg {
        if let Some(color) = parse_hex_color(hex.as_str()) {
            theme.bell_fg = color;
        }
    }
    theme
}

} // verus!
