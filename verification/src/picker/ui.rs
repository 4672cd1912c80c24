//! What a frame of the picker shows: each row's text, cut to the width
//! available and split into matched and unmatched runs, its colors, the
//! prompt, the status bar and the message shown when nothing matches.

use vstd::prelude::*;

use crate::picker::theme::{Color, Theme};
use crate::text::{
    lemma_trim_end_len, byte_len, char_index, char_index_of_byte, chars_of, decimal, decimal_chars, extend_chars,
    extend_str, is_boundary, push_string, slice_chars, string_of, strings_view, trim_end,
    trim_end_chars,
};

verus! {

/// The columns `c` takes on screen, `None` for control characters.
pub uninterp spec fn char_columns(c: char) -> Option<usize>;

/// The columns `s` takes on screen.
pub uninterp spec fn str_columns(s: Seq<char>) -> usize;

/// `UnicodeWidthChar::width`: the columns a character takes on screen
/// (`None` for control characters), a function of the character alone.
#[verifier::external_body]
fn char_width(c: char) -> (w: Option<usize>)
    ensures
        w == char_columns(c),
{
    unicode_width::UnicodeWidthChar::width(c)
}

/// `UnicodeWidthStr::width`: the columns a string takes on screen, a
/// function of the string alone.
#[verifier::external_body]
fn str_width(s: &str) -> (w: usize)
    ensures
        w == str_columns(s@),
{
    unicode_width::UnicodeWidthStr::width(s)
}

/// The columns `c` takes when truncating: control characters count as one.
pub open spec fn col(c: char) -> nat {
    match char_columns(c) {
        Some(w) => w as nat,
        None => 1,
    }
}

/// How many leading characters of `s` fit in `target` columns, going on
/// from character `i` with `width` columns used.
pub open spec fn fit_count(s: Seq<char>, target: nat, i: int, width: nat) -> int
    decreases s.len() - i,
{
    if i < 0 || i >= s.len() {
        i
    } else if width + col(s[i]) > target {
        i
    } else {
        fit_count(s, target, i + 1, width + col(s[i]))
    }
}

/// `s` cut to `max` columns: unchanged (`None`) when it fits, else the
/// characters that fit in one column less, then `…`.
pub open spec fn truncated(s: Seq<char>, max: nat) -> Option<Seq<char>> {
    if str_columns(s) <= max {
        None
    } else {
        let target: nat = if max >= 1 {
            (max - 1) as nat
        } else {
            0
        };
        Some(s.take(fit_count(s, target, 0, 0)) + "…"@)
    }
}

/// Text that was kept as it is, or cut and given an ellipsis.
#[derive(Debug)]
pub enum Truncated<'a> {
    Borrowed(&'a str),
    Owned(String),
}

impl<'a> Truncated<'a> {
    /// The text.
    pub fn as_str(&self) -> (s: &str)
        ensures
            s@ == match self {
                Truncated::Borrowed(b) => b@,
                Truncated::Owned(o) => o@,
            },
    {
        match self {
            Truncated::Borrowed(b) => b,
            Truncated::Owned(o) => o.as_str(),
        }
    }
}

proof fn lemma_fit_count_bounds(s: Seq<char>, target: nat, i: int, width: nat)
    requires
        0 <= i <= s.len(),
    ensures
        i <= fit_count(s, target, i, width) <= s.len(),
    decreases s.len() - i,
{
    if i < s.len() && width + col(s[i]) <= target {
        lemma_fit_count_bounds(s, target, i + 1, width + col(s[i]));
    }
}

/// The columns the characters of `s` take, counted one by one as
/// truncation counts them.
pub open spec fn cols(s: Seq<char>) -> nat
    decreases s.len(),
{
    if s.len() == 0 {
        0
    } else {
        cols(s.drop_last()) + col(s.last())
    }
}

proof fn lemma_fit_count_greedy(s: Seq<char>, target: nat, i: int, width: nat)
    requires
        0 <= i <= s.len(),
        width == cols(s.take(i)),
        width <= target,
    ensures
        cols(s.take(fit_count(s, target, i, width))) <= target,
        fit_count(s, target, i, width) < s.len() ==> cols(s.take(fit_count(s, target, i, width)))
            + col(s[fit_count(s, target, i, width)]) > target,
    decreases s.len() - i,
{
    if i < s.len() && width + col(s[i]) <= target {
        assert(s.take(i + 1).drop_last() =~= s.take(i));
        lemma_fit_count_greedy(s, target, i + 1, width + col(s[i]));
    }
}

/// Truncation keeps the longest prefix that fits in one column less than
/// the width, so that the `…` fits too: the kept characters take at most
/// `max - 1` columns (none when `max` is 0), and the next character would
/// not have fitted.
pub proof fn lemma_truncation_fits(s: Seq<char>, max: nat)
    requires
        truncated(s, max) is Some,
    ensures
        ({
            let target: nat = if max >= 1 {
                (max - 1) as nat
            } else {
                0
            };
            let n = fit_count(s, target, 0, 0);
            &&& truncated(s, max)->0 == s.take(n) + "…"@
            &&& cols(s.take(n)) <= target
            &&& n < s.len() ==> cols(s.take(n)) + col(s[n]) > target
        }),
{
    assert(s.take(0) =~= Seq::<char>::empty());
    let target: nat = if max >= 1 {
        (max - 1) as nat
    } else {
        0
    };
    lemma_fit_count_greedy(s, target, 0, 0);
}

/// `s` cut to at most `max_width` columns with a trailing `…` when it is wider.
pub fn truncate_to_width(s: &str, max_width: usize) -> (r: Truncated)
    ensures
        match r {
            Truncated::Borrowed(b) => truncated(s@, max_width as nat) is None && b@ == s@,
            Truncated::Owned(o) => truncated(s@, max_width as nat) == Some(o@),
        },
{
    if str_width(s) <= max_width {
        return Truncated::Borrowed(s);
    }
    let target: usize = if max_width >= 1 {
        max_width - 1
    } else {
        0
    };
    let v = chars_of(s);
    let mut width: usize = 0;
    let mut end: usize = 0;
    let mut stop = false;
    while end < v.len() && !stop
        invariant
            end <= v@.len(),
            width <= target,
            v@ == s@,
            !stop ==> fit_count(v@, target as nat, 0, 0) == fit_count(
                v@,
                target as nat,
                end as int,
                width as nat,
            ),
            stop ==> fit_count(v@, target as nat, 0, 0) == end,
        decreases v@.len() - end, if stop {
            0int
        } else {
            1int
        },
    {
        let cw: usize = match char_width(v[end]) {
            Some(w) => w,
            None => 1,
        };
        if cw > target - width {
            stop = true;
        } else {
            width = width + cw;
            end = end + 1;
        }
    }
    let mut out = slice_chars(&v, 0, end);
    extend_str(&mut out, "…");
    assert(v@.subrange(0, end as int) =~= v@.take(end as int));
    Truncated::Owned(string_of(&out))
}


/// Character `j` is among the matched positions.
pub open spec fn is_matched(positions: Seq<u32>, j: int) -> bool {
    exists|k: int| 0 <= k < positions.len() && positions[k] == j
}

/// The texts of a list of runs.
pub open spec fn run_texts(runs: Seq<(String, bool)>) -> Seq<Seq<char>> {
    runs.map_values(|r: (String, bool)| r.0@)
}

/// Strings laid end to end.
pub open spec fn joined(parts: Seq<Seq<char>>) -> Seq<char>
    decreases parts.len(),
{
    if parts.len() == 0 {
        Seq::empty()
    } else {
        joined(parts.drop_last()) + parts.last()
    }
}

/// The flag of each character of a list of runs.
pub open spec fn run_flags(runs: Seq<(String, bool)>) -> Seq<bool>
    decreases runs.len(),
{
    if runs.len() == 0 {
        Seq::empty()
    } else {
        run_flags(runs.drop_last()) + Seq::new(runs.last().0@.len(), |j: int| runs.last().1)
    }
}

/// `runs` splits `text` into maximal runs of matched and unmatched
/// characters, character `j` being matched when `positions` holds `j`.
pub open spec fn splits_into_runs(text: Seq<char>, positions: Seq<u32>, runs: Seq<(String, bool)>) -> bool {
    &&& joined(run_texts(runs)) == text
    &&& run_flags(runs) == Seq::new(text.len(), |j: int| is_matched(positions, j))
    &&& forall|k: int| 0 <= k < runs.len() ==> (#[trigger] runs[k]).0@.len() > 0
    &&& forall|k: int| 0 < k < runs.len() ==> (#[trigger] runs[k]).1 != runs[k - 1].1
}

fn position_listed(positions: &[u32], j: u32) -> (r: bool)
    ensures
        r == is_matched(positions@, j as int),
{
    let mut k: usize = 0;
    while k < positions.len()
        invariant
            k <= positions@.len(),
            forall|m: int| 0 <= m < k ==> positions@[m] != j,
        decreases positions@.len() - k,
    {
        if positions[k] == j {
            return true;
        }
        k = k + 1;
    }
    false
}

/// Splits `text` into runs of matched (`true`) and unmatched characters, to
/// be drawn in two styles. With no positions the text is one unmatched run.
pub fn highlight_spans(text: &str, positions: &[u32]) -> (runs: Vec<(String, bool)>)
    requires
        text@.len() <= u32::MAX,
    ensures
        positions@.len() == 0 ==> runs@.len() == 1 && runs@[0].0@ == text@ && !runs@[0].1,
        positions@.len() > 0 ==> splits_into_runs(text@, positions@, runs@),
{
    if positions.len() == 0 {
        let mut runs: Vec<(String, bool)> = Vec::new();
        runs.push((String::from_str(text), false));
        return runs;
    }
    let v = chars_of(text);
    let ghost flags = Seq::new(v@.len(), |j: int| is_matched(positions@, j));
    let mut runs: Vec<(String, bool)> = Vec::new();
    let mut cur: Vec<char> = Vec::new();
    let mut cur_flag = false;
    let mut i: usize = 0;
    while i < v.len()
        invariant
            i <= v@.len() <= u32::MAX,
            v@ == text@,
            flags == Seq::new(v@.len(), |j: int| is_matched(positions@, j)),
            joined(run_texts(runs@)) + cur@ == v@.take(i as int),
            run_flags(runs@) + Seq::new(cur@.len(), |j: int| cur_flag) == flags.take(i as int),
            (cur@.len() == 0) == (i == 0),
            forall|k: int| 0 <= k < runs@.len() ==> (#[trigger] runs@[k]).0@.len() > 0,
            forall|k: int| 0 < k < runs@.len() ==> (#[trigger] runs@[k]).1 != runs@[k - 1].1,
            runs@.len() > 0 && cur@.len() > 0 ==> runs@.last().1 != cur_flag,
        decreases v@.len() - i,
    {
        let m = position_listed(positions, i as u32);
        assert(flags[i as int] == m);
        if m != cur_flag && cur.len() > 0 {
            let ghost before = runs@;
            runs.push((string_of(&cur), cur_flag));
            proof {
                assert(runs@.drop_last() =~= before);
                assert(run_texts(runs@).drop_last() =~= run_texts(before));
                assert(run_texts(runs@).last() == cur@);
            }
            cur = Vec::new();
            assert(joined(run_texts(runs@)) + cur@ =~= v@.take(i as int));
            assert(run_flags(runs@) + Seq::new(cur@.len(), |j: int| cur_flag) =~= flags.take(i as int));
        }
        let ghost prev_runs_flags = run_flags(runs@);
        cur_flag = m;
        cur.push(v[i]);
        proof {
            assert(v@.take(i as int + 1) =~= v@.take(i as int).push(v@[i as int]));
            assert(flags.take(i as int + 1) =~= flags.take(i as int).push(m));
            assert(joined(run_texts(runs@)) + cur@ =~= v@.take(i as int + 1));
            assert(run_flags(runs@) + Seq::new(cur@.len(), |j: int| cur_flag) =~= flags.take(
                i as int + 1,
            ));
        }
        i = i + 1;
    }
    if cur.len() > 0 {
        let ghost before = runs@;
        runs.push((string_of(&cur), cur_flag));
        proof {
            assert(runs@.drop_last() =~= before);
            assert(run_texts(runs@).drop_last() =~= run_texts(before));
        }
    }
    assert(v@.take(v@.len() as int) =~= v@);
    assert(flags.take(v@.len() as int) =~= flags);
    assert(run_flags(runs@) =~= flags);
    runs
}


/// The colors a row is drawn with. Matched characters are also bold.
#[derive(Clone, Copy, Debug, PartialEq, Eq, Structural)]
pub struct RowColors {
    pub normal_fg: Color,
    pub normal_bg: Option<Color>,
    pub match_fg: Color,
    pub match_bg: Option<Color>,
}

/// The colors of a row: the selected row on the highlight background, a
/// row with a bell in the bell color.
pub open spec fn row_colors_of(theme: Theme, selected: bool, bell: bool) -> RowColors {
    if selected {
        RowColors {
            normal_fg: if bell {
                theme.bell_fg
            } else {
                theme.highlight_fg
            },
            normal_bg: Some(theme.highlight_bg),
            match_fg: theme.match_fg,
            match_bg: Some(theme.highlight_bg),
        }
    } else {
        RowColors {
            normal_fg: if bell {
                theme.bell_fg
            } else {
                theme.item_fg
            },
            normal_bg: None,
            match_fg: theme.match_fg,
            match_bg: None,
        }
    }
}

/// A row with a bell is drawn in the theme's bell color, selected or not;
/// other rows in the highlight color when selected, else in the item color.
/// Only the selected row has a background, the highlight one, and matched
/// characters are always in the match color.
pub proof fn lemma_row_colors(theme: Theme, selected: bool, bell: bool)
    ensures
        bell ==> row_colors_of(theme, selected, bell).normal_fg == theme.bell_fg,
        !bell && selected ==> row_colors_of(theme, selected, bell).normal_fg == theme.highlight_fg,
        !bell && !selected ==> row_colors_of(theme, selected, bell).normal_fg == theme.item_fg,
        selected ==> row_colors_of(theme, selected, bell).normal_bg == Some(theme.highlight_bg)
            && row_colors_of(theme, selected, bell).match_bg == Some(theme.highlight_bg),
        !selected ==> row_colors_of(theme, selected, bell).normal_bg is None
            && row_colors_of(theme, selected, bell).match_bg is None,
        row_colors_of(theme, selected, bell).match_fg == theme.match_fg,
{
}

/// The colors of a row.
pub fn row_colors(theme: &Theme, selected: bool, bell: bool) -> (c: RowColors)
    ensures
        c == row_colors_of(*theme, selected, bell),
        bell ==> c.normal_fg == theme.bell_fg,
{
    if selected {
        RowColors {
            normal_fg: if bell {
                theme.bell_fg
            } else {
                theme.highlight_fg
            },
            normal_bg: Some(theme.highlight_bg),
            match_fg: theme.match_fg,
            match_bg: Some(theme.highlight_bg),
        }
    } else {
        RowColors {
            normal_fg: if bell {
                theme.bell_fg
            } else {
                theme.item_fg
            },
            normal_bg: None,
            match_fg: theme.match_fg,
            match_bg: None,
        }
    }
}

/// The text of a row: the entry without trailing white space, cut to `width`.
pub open spec fn row_text(item: Seq<char>, width: nat) -> Seq<char> {
    match truncated(trim_end(item), width) {
        Some(t) => t,
        None => trim_end(item),
    }
}

/// How many characters of the row text come from the entry (not the `…`).
pub open spec fn row_visible(item: Seq<char>, width: nat) -> nat {
    match truncated(trim_end(item), width) {
        Some(t) => if t.len() >= 1 {
            (t.len() - 1) as nat
        } else {
            0
        },
        None => trim_end(item).len(),
    }
}

/// The matched positions that fall on visible characters, in their order.
pub open spec fn kept_positions(positions: Seq<u32>, n: nat) -> Seq<u32> {
    positions.filter(|p: u32| (p as nat) < n)
}

/// A row as it is drawn: its runs of matched and unmatched text and its colors.
#[derive(Debug)]
pub struct RowPlan {
    pub runs: Vec<(String, bool)>,
    pub colors: RowColors,
}

/// The entry shows a bell.
pub open spec fn has_bell(item: Seq<char>) -> bool {
    trim_end(item).contains('🔔')
}

fn contains_char(v: &Vec<char>, c: char) -> (r: bool)
    ensures
        r == v@.contains(c),
{
    let mut i: usize = 0;
    while i < v.len()
        invariant
            i <= v@.len(),
            forall|j: int| 0 <= j < i ==> v@[j] != c,
        decreases v@.len() - i,
    {
        if v[i] == c {
            assert(v@[i as int] == c);
            return true;
        }
        i = i + 1;
    }
    false
}

/// How the entry `item`, with the matched `positions`, is drawn in a row
/// `width` columns wide.
pub fn row_plan(item: &str, positions: &[u32], width: usize, theme: &Theme, selected: bool) -> (p:
    RowPlan)
    requires
        item@.len() < u32::MAX,
    ensures
        p.colors == row_colors_of(*theme, selected, has_bell(item@)),
        has_bell(item@) ==> p.colors.normal_fg == theme.bell_fg,
        kept_positions(positions@, row_visible(item@, width as nat)).len() == 0 ==> p.runs@.len()
            == 1 && p.runs@[0].0@ == row_text(item@, width as nat) && !p.runs@[0].1,
        kept_positions(positions@, row_visible(item@, width as nat)).len() > 0 ==> splits_into_runs(
            row_text(item@, width as nat),
            kept_positions(positions@, row_visible(item@, width as nat)),
            p.runs@,
        ),
{
    let raw_chars = trim_end_chars(&chars_of(item));
    let raw = string_of(&raw_chars);
    let bell = contains_char(&raw_chars, '🔔');
    let text = truncate_to_width(raw.as_str(), width);
    let (shown, visible) = match &text {
        Truncated::Borrowed(b) => {
            let n = chars_of(b).len();
            (String::from_str(b), n)
        },
        Truncated::Owned(o) => {
            let n = chars_of(o.as_str()).len();
            (o.clone(), if n >= 1 {
                n - 1
            } else {
                0
            })
        },
    };
    proof {
        lemma_fit_count_bounds(trim_end(item@), if width >= 1 { (width - 1) as nat } else { 0 }, 0, 0);
        lemma_trim_end_len(item@);
        reveal_strlit("…");
        assert(shown@.len() <= item@.len() + 1);
    }
    let ghost keep = |p: u32| (p as nat) < visible;
    let mut kept: Vec<u32> = Vec::new();
    let mut i: usize = 0;
    reveal_with_fuel(Seq::filter, 1);
    while i < positions.len()
        invariant
            i <= positions@.len(),
            keep == (|p: u32| (p as nat) < visible),
            kept@ == positions@.take(i as int).filter(keep),
        decreases positions@.len() - i,
    {
        proof {
            crate::tmux::lemma_filter_take_step(positions@, keep, i as int);
        }
        if (positions[i] as usize) < visible {
            kept.push(positions[i]);
        }
        i = i + 1;
    }
    assert(positions@.take(positions@.len() as int) =~= positions@);
    let runs = highlight_spans(shown.as_str(), kept.as_slice());
    RowPlan { runs, colors: row_colors(theme, selected, bell) }
}

/// The prompt line: `> ` and the query.
pub fn prompt_text(query: &str) -> (s: String)
    ensures
        s@ == "> "@ + query@,
{
    let mut v: Vec<char> = Vec::new();
    extend_str(&mut v, "> ");
    extend_str(&mut v, query);
    string_of(&v)
}

/// The status bar: `  [position/matches] total total`, the position
/// counted from 1 and 0 when nothing matches.
pub open spec fn status_line(selected: nat, matches: nat, total: nat) -> Seq<char> {
    let pos = if matches == 0 {
        0
    } else {
        selected + 1
    };
    "  ["@ + decimal(pos) + "/"@ + decimal(matches) + "] "@ + decimal(total) + " total"@
}

/// The status bar text.
pub fn status_text(selected: usize, matches: usize, total: usize) -> (s: String)
    requires
        matches > 0 ==> selected < usize::MAX,
    ensures
        s@ == status_line(selected as nat, matches as nat, total as nat),
{
    let pos: usize = if matches == 0 {
        0
    } else {
        selected + 1
    };
    let mut v: Vec<char> = Vec::new();
    extend_str(&mut v, "  [");
    extend_chars(&mut v, &decimal_chars(pos as u64));
    extend_str(&mut v, "/");
    extend_chars(&mut v, &decimal_chars(matches as u64));
    extend_str(&mut v, "] ");
    extend_chars(&mut v, &decimal_chars(total as u64));
    extend_str(&mut v, " total");
    string_of(&v)
}

/// The lines shown instead of the list when nothing matches: with a query,
/// an invitation to create a window named after it.
pub fn empty_message(query: &str) -> (lines: Vec<String>)
    ensures
        query@.len() == 0 ==> strings_view(lines@) == seq!["  No matches"@],
        query@.len() > 0 ==> strings_view(lines@) == seq![
            "  No matches"@,
            "  Press Enter to create '"@ + query@ + "'"@,
        ],
{
    let mut lines: Vec<String> = Vec::new();
    push_string(&mut lines, "  No matches");
    if !query.is_empty() {
        let mut v: Vec<char> = Vec::new();
        extend_str(&mut v, "  Press Enter to create '");
        extend_str(&mut v, query);
        extend_str(&mut v, "'");
        crate::text::push_chars(&mut lines, &v);
    }
    assert(query@.len() == 0 ==> strings_view(lines@) =~= seq!["  No matches"@]);
    lines
}

/// The separator line: `width` box-drawing dashes.
pub fn separator(width: usize) -> (s: String)
    ensures
        s@ == Seq::new(width as nat, |i: int| '─'),
{
    let mut v: Vec<char> = Vec::new();
    let mut i: usize = 0;
    while i < width
        invariant
            i <= width,
            v@ == Seq::new(i as nat, |j: int| '─'),
        decreases width - i,
    {
        v.push('─');
        assert(v@ =~= Seq::new(i as nat + 1, |j: int| '─'));
        i = i + 1;
    }
    string_of(&v)
}

/// The screen column of the cursor after the prompt: the width of the query
/// before it.
pub fn cursor_column(query: &str, cursor: usize) -> (c: usize)
    requires
        is_boundary(query@, cursor as int),
    ensures
        c == str_columns(query@.take(char_index(query@, cursor as int))),
{
    let v = chars_of(query);
    let k = char_index_of_byte(&v, cursor);
    let prefix = string_of(&slice_chars(&v, 0, k));
    assert(v@.subrange(0, k as int) =~= v@.take(k as int));
    str_width(prefix.as_str())
}

/// The width left for entry text after the `> ` marker.
pub fn item_width(inner_width: usize) -> (w: usize)
    ensures
        w == if inner_width >= 2 {
            inner_width - 2
        } else {
            0
        },
{
    if inner_width >= 2 {
        inner_width - 2
    } else {
        0
    }
}

} // verus!
