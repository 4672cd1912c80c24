//! tmux windows, favorites and the previous window: how each is shown in
//! the picker, in which order, and the tmux command lines that act on them.

pub mod favorite;
pub mod previous;
pub mod window;

use vstd::prelude::*;

use crate::text::{
    chars_eq, chars_of, extend_str, find_char, find_char_from, lemma_find_char, pad_left,
    pad_right, push_chars, push_padded_left, push_padded_right, push_string, slice_chars,
    str_eq, string_of, strings_view, trim, trim_chars,
};
use crate::tmux::favorite::{or_empty, index_text, Favorite};
use crate::tmux::previous::PreviousWindow;
use crate::tmux::window::Window;

verus! {

/// The columns every list line starts with: the session padded to 15
/// characters, the index right-aligned in 3, then the name.
pub open spec fn window_base(session: Seq<char>, index: Seq<char>, name: Seq<char>) -> Seq<char> {
    pad_right(session, 15) + " - "@ + pad_left(index, 3) + " - "@ + name
}

/// The columns every list line starts with, as characters.
pub fn window_base_chars(session: &str, index: &str, name: &str) -> (v: Vec<char>)
    ensures
        v@ == window_base(session@, index@, name@),
{
    let s = chars_of(session);
    let i = chars_of(index);
    let mut v: Vec<char> = Vec::new();
    push_padded_right(&mut v, &s, 15);
    extend_str(&mut v, " - ");
    push_padded_left(&mut v, &i, 3);
    extend_str(&mut v, " - ");
    extend_str(&mut v, name);
    assert(v@ =~= window_base(session@, index@, name@));
    v
}

/// The columns every list line starts with: `{:15} - {:>3} - {}`.
pub fn format_window_base(session: &str, index: &str, name: &str) -> (s: String)
    ensures
        s@ == window_base(session@, index@, name@),
{
    let v = window_base_chars(session, index, name);
    string_of(&v)
}


/// An entry of the picker list.
#[derive(Debug)]
pub enum ListItem {
    Favorite(Favorite),
    Previous(PreviousWindow),
    Window(Window),
}

impl ListItem {
    /// The place of this entry in the list, in half steps (lower first).
    pub open spec fn priority(&self) -> nat {
        match self {
            ListItem::Favorite(f) => f.priority(),
            ListItem::Previous(p) => p.priority(),
            ListItem::Window(w) => w.priority(),
        }
    }

    /// The sort priority, in half steps.
    pub fn sort_priority_halves(&self) -> (p: u8)
        ensures
            p == self.priority(),
    {
        match self {
            ListItem::Favorite(f) => f.sort_priority_halves(),
            ListItem::Previous(p) => p.sort_priority_halves(),
            ListItem::Window(w) => w.sort_priority_halves(),
        }
    }

    /// A copy of this entry.
    pub fn duplicate(&self) -> (r: ListItem)
        ensures
            r == *self,
    {
        match self {
            ListItem::Favorite(f) => ListItem::Favorite(f.duplicate()),
            ListItem::Previous(p) => ListItem::Previous(p.duplicate()),
            ListItem::Window(w) => ListItem::Window(w.duplicate()),
        }
    }

    /// The line that shows this entry in the picker.
    pub open spec fn display(&self) -> Seq<char> {
        match self {
            ListItem::Favorite(f) => f.display(),
            ListItem::Previous(p) => p.display(),
            ListItem::Window(w) => w.display(),
        }
    }

    /// The line that shows this entry in the picker.
    pub fn display_string(&self) -> (s: String)
        ensures
            s@ == self.display(),
    {
        match self {
            ListItem::Favorite(f) => f.display_string(),
            ListItem::Previous(p) => p.display_string(),
            ListItem::Window(w) => w.display_string(),
        }
    }

    /// The session of this entry (empty for a favorite without one).
    pub open spec fn spec_session_name(&self) -> Seq<char> {
        match self {
            ListItem::Favorite(f) => or_empty(f.session_name),
            ListItem::Previous(p) => p.session_name@,
            ListItem::Window(w) => w.session_name@,
        }
    }

    /// The window index of this entry (empty for a favorite without one).
    pub open spec fn spec_index(&self) -> Seq<char> {
        match self {
            ListItem::Favorite(f) => index_text(f.index),
            ListItem::Previous(p) => p.index@,
            ListItem::Window(w) => w.index@,
        }
    }

    /// The window name of this entry.
    pub open spec fn spec_name(&self) -> Seq<char> {
        match self {
            ListItem::Favorite(f) => f.name@,
            ListItem::Previous(p) => p.name@,
            ListItem::Window(w) => w.name@,
        }
    }

    /// The session of this entry.
    pub fn session_name(&self) -> (s: String)
        ensures
            s@ == self.spec_session_name(),
    {
        match self {
            ListItem::Favorite(f) => match &f.session_name {
                Some(s) => s.clone(),
                None => String::new(),
            },
            ListItem::Previous(p) => p.session_name.clone(),
            ListItem::Window(w) => w.session_name.clone(),
        }
    }

    /// The window index of this entry.
    pub fn index(&self) -> (s: String)
        ensures
            s@ == self.spec_index(),
    {
        match self {
            ListItem::Favorite(f) => match f.index {
                Some(i) => string_of(&crate::text::decimal_chars(i as u64)),
                None => String::new(),
            },
            ListItem::Previous(p) => p.index.clone(),
            ListItem::Window(w) => w.index.clone(),
        }
    }

    /// The window name of this entry.
    pub fn name(&self) -> (s: String)
        ensures
            s@ == self.spec_name(),
    {
        match self {
            ListItem::Favorite(f) => f.name.clone(),
            ListItem::Previous(p) => p.name.clone(),
            ListItem::Window(w) => w.name.clone(),
        }
    }

    /// The tmux command line that goes to this entry.
    pub open spec fn spec_switch_args(&self) -> Seq<Seq<char>> {
        match self {
            ListItem::Favorite(f) => f.spec_switch_args(),
            ListItem::Previous(p) => seq!["switch"@, "-t"@, p.session_name@ + ":"@ + p.index@],
            ListItem::Window(w) => seq!["switch"@, "-t"@, w.session_name@ + ":"@ + w.index@],
        }
    }

    /// The tmux command line that goes to this entry.
    pub fn switch_args(&self) -> (args: Vec<String>)
        ensures
            strings_view(args@) == self.spec_switch_args(),
    {
        match self {
            ListItem::Favorite(f) => f.switch_args(),
            ListItem::Previous(p) => p.switch_args(),
            ListItem::Window(w) => w.switch_args(),
        }
    }
}

/// The highest sort priority, in half steps.
pub open spec fn max_priority() -> nat {
    10
}

/// Entries of priority `p`.
pub open spec fn has_priority(p: nat) -> spec_fn(ListItem) -> bool {
    |x: ListItem| x.priority() == p
}

/// The entries of `s` with a priority below `n`, by priority; entries of
/// one priority keep the order they had in `s`.
pub open spec fn by_priority_below(s: Seq<ListItem>, n: nat) -> Seq<ListItem>
    decreases n,
{
    if n == 0 {
        Seq::empty()
    } else {
        by_priority_below(s, (n - 1) as nat) + s.filter(has_priority((n - 1) as nat))
    }
}

/// `s` sorted by priority, keeping the order of entries of equal priority.
pub open spec fn by_priority(s: Seq<ListItem>) -> Seq<ListItem> {
    by_priority_below(s, max_priority() + 1)
}

pub proof fn lemma_filter_take_step<A>(s: Seq<A>, f: spec_fn(A) -> bool, i: int)
    requires
        0 <= i < s.len(),
    ensures
        s.take(i + 1).filter(f) == if f(s[i]) {
            s.take(i).filter(f).push(s[i])
        } else {
            s.take(i).filter(f)
        },
{
    reveal_with_fuel(Seq::filter, 1);
    assert(s.take(i + 1).drop_last() =~= s.take(i));
}

/// Sorts the list entries by priority, keeping the order of entries of
/// equal priority.
pub fn sort_by_priority(items: &mut Vec<ListItem>)
    ensures
        final(items)@ == by_priority(old(items)@),
{
    let ghost s = items@;
    let n = items.len();
    let mut out: Vec<ListItem> = Vec::new();
    let mut p: u8 = 0;
    while p <= 10
        invariant
            p <= 11,
            n == s.len(),
            items@ == s,
            out@ == by_priority_below(s, p as nat),
        decreases 11 - p,
    {
        let mut i: usize = 0;
        assert(s.take(0) =~= Seq::<ListItem>::empty());
        reveal_with_fuel(Seq::filter, 1);
        while i < n
            invariant
                i <= n == s.len(),
                p <= 10,
                items@ == s,
                out@ == by_priority_below(s, p as nat) + s.take(i as int).filter(has_priority(p as nat)),
            decreases n - i,
        {
            proof {
                lemma_filter_take_step(s, has_priority(p as nat), i as int);
            }
            if items[i].sort_priority_halves() == p {
                out.push(items[i].duplicate());
            }
            i = i + 1;
        }
        assert(s.take(n as int) =~= s);
        p = p + 1;
    }
    *items = out;
}

/// Every entry's priority is at most `max_priority()`.
pub proof fn lemma_priority_bounded(x: ListItem)
    ensures
        x.priority() <= max_priority(),
{
}

/// Of the entries below priority `n`, `by_priority_below` keeps every one,
/// and nothing else.
proof fn lemma_by_priority_below_count(s: Seq<ListItem>, n: nat, x: ListItem)
    ensures
        by_priority_below(s, n).to_multiset().count(x) == if x.priority() < n {
            s.to_multiset().count(x)
        } else {
            0
        },
    decreases n,
{
    broadcast use {vstd::multiset::group_multiset_axioms, vstd::multiset::group_multiset_properties, vstd::seq_lib::group_to_multiset_ensures};
    if n == 0 {
        assert(by_priority_below(s, n) =~= Seq::<ListItem>::empty());
        assert(by_priority_below(s, n).to_multiset().len() == 0);
    } else {
        let p = (n - 1) as nat;
        lemma_by_priority_below_count(s, p, x);
        vstd::seq_lib::lemma_multiset_commutative(by_priority_below(s, p), s.filter(has_priority(p)));
        lemma_filter_count(s, has_priority(p), x);
    }
}

/// Filtering keeps every copy of an element that passes, and none of one
/// that does not.
proof fn lemma_filter_count<A>(s: Seq<A>, f: spec_fn(A) -> bool, x: A)
    ensures
        s.filter(f).to_multiset().count(x) == if f(x) {
            s.to_multiset().count(x)
        } else {
            0
        },
    decreases s.len(),
{
    broadcast use {vstd::multiset::group_multiset_axioms, vstd::multiset::group_multiset_properties, vstd::seq_lib::group_to_multiset_ensures};
    if s.len() == 0 {
        reveal_with_fuel(Seq::filter, 1);
        assert(s.filter(f) =~= s);
    } else {
        let t = s.drop_last();
        let y = s.last();
        lemma_filter_count(t, f, x);
        assert(t.push(y) =~= s);
        t.lemma_filter_push(y, f);
        vstd::seq_lib::to_multiset_build(t, y);
        vstd::seq_lib::to_multiset_build(t.filter(f), y);
    }
}

/// `by_priority_below(s, n)` is ordered by priority, and every entry in it
/// has a priority below `n`.
proof fn lemma_by_priority_below_sorted(s: Seq<ListItem>, n: nat)
    ensures
        forall|i: int|
            0 <= i < by_priority_below(s, n).len() ==> (#[trigger] by_priority_below(s, n)[i]).priority() < n,
        forall|i: int, j: int|
            0 <= i <= j < by_priority_below(s, n).len() ==> (#[trigger] by_priority_below(s, n)[i]).priority()
                <= (#[trigger] by_priority_below(s, n)[j]).priority(),
    decreases n,
{
    if n > 0 {
        let p = (n - 1) as nat;
        lemma_by_priority_below_sorted(s, p);
        let a = by_priority_below(s, p);
        let b = s.filter(has_priority(p));
        assert forall|i: int| 0 <= i < b.len() implies (#[trigger] b[i]).priority() == p by {
            s.lemma_filter_pred(has_priority(p), i);
        }
        assert(by_priority_below(s, n) == a + b);
    }
}

/// Sorting puts the entries in order of priority: the active window, the
/// previous window, windows with a bell, marked windows, the other windows,
/// then the favorites.
pub proof fn lemma_by_priority_sorted(s: Seq<ListItem>)
    ensures
        forall|i: int, j: int|
            0 <= i <= j < by_priority(s).len() ==> (#[trigger] by_priority(s)[i]).priority()
                <= (#[trigger] by_priority(s)[j]).priority(),
{
    lemma_by_priority_below_sorted(s, max_priority() + 1);
}

/// Sorting neither drops nor adds an entry: the result is a permutation.
pub proof fn lemma_by_priority_permutation(s: Seq<ListItem>)
    ensures
        by_priority(s).to_multiset() == s.to_multiset(),
{
    assert forall|x: ListItem| #[trigger] by_priority(s).to_multiset().count(x)
        == s.to_multiset().count(x) by {
        lemma_by_priority_below_count(s, max_priority() + 1, x);
    }
    assert(by_priority(s).to_multiset() =~= s.to_multiset());
}

/// Sorting keeps the order of entries of equal priority: those of priority
/// `p` come out as they came in.
pub proof fn lemma_by_priority_stable(s: Seq<ListItem>, p: nat)
    ensures
        by_priority(s).filter(has_priority(p)) == s.filter(has_priority(p)),
{
    lemma_by_priority_below_stable(s, max_priority() + 1, p);
    if p > max_priority() {
        assert forall|i: int| 0 <= i < s.len() implies !has_priority(p)(s[i]) by {
            lemma_priority_bounded(s[i]);
        }
        s.lemma_all_neg_filter_empty(has_priority(p));
    }
}

proof fn lemma_filter_all_or_none(b: Seq<ListItem>, q: nat, p: nat)
    requires
        forall|i: int| 0 <= i < b.len() ==> (#[trigger] b[i]).priority() == q,
    ensures
        b.filter(has_priority(p)) == if p == q {
            b
        } else {
            Seq::<ListItem>::empty()
        },
    decreases b.len(),
{
    reveal_with_fuel(Seq::filter, 1);
    if b.len() > 0 {
        lemma_filter_all_or_none(b.drop_last(), q, p);
        assert(b.drop_last().push(b.last()) =~= b);
    }
}

proof fn lemma_by_priority_below_stable(s: Seq<ListItem>, n: nat, p: nat)
    ensures
        by_priority_below(s, n).filter(has_priority(p)) == if p < n {
            s.filter(has_priority(p))
        } else {
            Seq::<ListItem>::empty()
        },
    decreases n,
{
    broadcast use Seq::filter_distributes_over_add;
    if n == 0 {
        reveal_with_fuel(Seq::filter, 1);
    } else {
        let q = (n - 1) as nat;
        lemma_by_priority_below_stable(s, q, p);
        let b = s.filter(has_priority(q));
        assert forall|i: int| 0 <= i < b.len() implies (#[trigger] b[i]).priority() == q by {
            s.lemma_filter_pred(has_priority(q), i);
        }
        lemma_filter_all_or_none(b, q, p);
        if p == q {
            lemma_filter_idempotent(s, has_priority(p));
        }
        assert(by_priority_below(s, n) == by_priority_below(s, q) + b);
        assert(by_priority_below(s, n).filter(has_priority(p)) =~= by_priority_below(s, q).filter(
            has_priority(p),
        ) + b.filter(has_priority(p)));
    }
}

proof fn lemma_filter_idempotent<A>(s: Seq<A>, f: spec_fn(A) -> bool)
    ensures
        s.filter(f).filter(f) == s.filter(f),
    decreases s.len(),
{
    reveal_with_fuel(Seq::filter, 1);
    if s.len() > 0 {
        lemma_filter_idempotent(s.drop_last(), f);
        s.drop_last().lemma_filter_push(s.last(), f);
        s.drop_last().filter(f).lemma_filter_push(s.last(), f);
        assert(s.drop_last().push(s.last()) =~= s);
    }
}


// ---------------------------------------------------------------------------
// Reading tmux output
// ---------------------------------------------------------------------------

/// `l` without one trailing carriage return.
pub open spec fn strip_cr(l: Seq<char>) -> Seq<char> {
    if l.len() > 0 && l.last() == '\r' {
        l.drop_last()
    } else {
        l
    }
}

/// The lines of `s` as `str::lines` gives them: split at `\n`, a `\r`
/// before the `\n` dropped, no empty line after a final `\n`.
pub open spec fn lines(s: Seq<char>) -> Seq<Seq<char>>
    decreases s.len(),
{
    if s.len() == 0 {
        Seq::empty()
    } else {
        let p = find_char(s, '\n');
        if p >= s.len() {
            seq![s]
        } else {
            proof {
                lemma_find_char(s, '\n');
            }
            seq![strip_cr(s.take(p))] + lines(s.skip(p + 1))
        }
    }
}

/// The `|`-separated segments of `s`.
pub open spec fn split_bars(s: Seq<char>) -> Seq<Seq<char>>
    decreases s.len(),
{
    let p = find_char(s, '|');
    if p >= s.len() {
        seq![s]
    } else {
        proof {
            lemma_find_char(s, '|');
        }
        seq![s.take(p)] + split_bars(s.skip(p + 1))
    }
}

/// The first run of six consecutive non-empty segments at or after `i`.
pub open spec fn six_fields_from(segs: Seq<Seq<char>>, i: int) -> Option<Seq<Seq<char>>>
    decreases segs.len() - i,
{
    if i < 0 || i + 6 > segs.len() {
        None
    } else if forall|j: int| i <= j < i + 6 ==> (#[trigger] segs[j]).len() > 0 {
        Some(segs.subrange(i, i + 6))
    } else {
        six_fields_from(segs, i + 1)
    }
}

proof fn lemma_six_fields_len(segs: Seq<Seq<char>>, i: int)
    ensures
        six_fields_from(segs, i) is Some ==> six_fields_from(segs, i)->0.len() == 6,
    decreases segs.len() - i,
{
    if 0 <= i && i + 6 <= segs.len() {
        lemma_six_fields_len(segs, i + 1);
    }
}

/// The fields of a `list-windows` line: the leftmost run of six
/// consecutive non-empty `|`-separated segments of `line`.
pub open spec fn window_fields(line: Seq<char>) -> Option<Seq<Seq<char>>> {
    six_fields_from(split_bars(line), 0)
}

/// The `|`-separated segments of `line`.
fn split_bar_strings(line: &str) -> (segs: Vec<String>)
    ensures
        strings_view(segs@) == split_bars(line@),
{
    let s = chars_of(line);
    let n = s.len();
    let mut out: Vec<String> = Vec::new();
    let mut pos: usize = 0;
    let mut done = false;
    assert(s@.skip(0) =~= s@);
    assert(strings_view(out@) + split_bars(s@) =~= split_bars(s@));
    while !done
        invariant
            pos <= n == s@.len(),
            s@ == line@,
            !done ==> split_bars(line@) == strings_view(out@) + split_bars(s@.skip(pos as int)),
            done ==> split_bars(line@) == strings_view(out@),
        decreases (if done {
            0int
        } else {
            1int
        }) + (n - pos),
    {
        let ghost rest = s@.skip(pos as int);
        let ghost before = strings_view(out@);
        proof {
            lemma_find_char(rest, '|');
        }
        let p = find_char_from(&s, '|', pos);
        if p >= n {
            let seg = slice_chars(&s, pos, n);
            assert(seg@ =~= rest);
            push_chars(&mut out, &seg);
            assert(split_bars(rest) == seq![rest]);
            assert(strings_view(out@) =~= before + seq![rest]);
            done = true;
        } else {
            let seg = slice_chars(&s, pos, p);
            assert(seg@ =~= rest.take(p - pos));
            push_chars(&mut out, &seg);
            assert(rest.skip(p - pos + 1) =~= s@.skip(p + 1));
            assert(split_bars(rest) == seq![rest.take(p - pos)] + split_bars(rest.skip(p - pos + 1)));
            assert(strings_view(out@) + split_bars(s@.skip(p + 1)) =~= before + split_bars(rest));
            pos = p + 1;
        }
    }
    out
}

/// The fields of a `list-windows` line, if it has six in a row.
fn window_line_fields(line: &str) -> (r: Option<Vec<String>>)
    ensures
        r is Some <==> window_fields(line@) is Some,
        r is Some ==> strings_view(r->0@) == window_fields(line@)->0,
{
    let segs = split_bar_strings(line);
    let ghost sv = strings_view(segs@);
    let mut i: usize = 0;
    while i < segs.len() && segs.len() - i >= 6
        invariant
            i <= segs@.len(),
            sv == strings_view(segs@),
            sv == split_bars(line@),
            six_fields_from(sv, 0) == six_fields_from(sv, i as int),
        decreases segs@.len() - i,
    {
        assert(forall|j: int| 0 <= j < segs@.len() ==> #[trigger] sv[j] == segs@[j]@);
        if !segs[i].as_str().is_empty() && !segs[i + 1].as_str().is_empty()
            && !segs[i + 2].as_str().is_empty() && !segs[i + 3].as_str().is_empty()
            && !segs[i + 4].as_str().is_empty() && !segs[i + 5].as_str().is_empty() {
            assert forall|j: int| i <= j < i + 6 implies (#[trigger] sv[j]).len() > 0 by {
                assert(sv[j] == segs@[j]@);
            }
            let mut fields: Vec<String> = Vec::new();
            push_string(&mut fields, segs[i].as_str());
            push_string(&mut fields, segs[i + 1].as_str());
            push_string(&mut fields, segs[i + 2].as_str());
            push_string(&mut fields, segs[i + 3].as_str());
            push_string(&mut fields, segs[i + 4].as_str());
            push_string(&mut fields, segs[i + 5].as_str());
            assert(strings_view(fields@) =~= sv.subrange(i as int, i + 6));
            return Some(fields);
        }
        assert(exists|j: int| i <= j < i + 6 && (#[trigger] sv[j]).len() == 0) by {
            if segs[i as int]@.len() == 0 {
                assert(sv[i as int].len() == 0);
            } else if segs[i + 1]@.len() == 0 {
                assert(sv[i + 1].len() == 0);
            } else if segs[i + 2]@.len() == 0 {
                assert(sv[i + 2].len() == 0);
            } else if segs[i + 3]@.len() == 0 {
                assert(sv[i + 3].len() == 0);
            } else if segs[i + 4]@.len() == 0 {
                assert(sv[i + 4].len() == 0);
            } else {
                assert(sv[i + 5].len() == 0);
            }
        }
        i = i + 1;
    }
    None
}

/// The lines of `raw`.
pub fn split_lines(raw: &str) -> (ls: Vec<String>)
    ensures
        strings_view(ls@) == lines(raw@),
{
    let s = chars_of(raw);
    let n = s.len();
    let mut out: Vec<String> = Vec::new();
    let mut pos: usize = 0;
    assert(s@.skip(0) =~= s@);
    while pos < n
        invariant
            pos <= n == s@.len(),
            s@ == raw@,
            lines(raw@) == strings_view(out@) + lines(s@.skip(pos as int)),
        decreases n - pos,
    {
        let p = find_char_from(&s, '\n', pos);
        let ghost rest = s@.skip(pos as int);
        proof {
            lemma_find_char(rest, '\n');
        }
        if p >= n {
            let line = slice_chars(&s, pos, n);
            assert(line@ =~= rest);
            let ghost before = strings_view(out@);
            push_chars(&mut out, &line);
            assert(lines(rest) == seq![rest]);
            assert(strings_view(out@) =~= before + seq![rest]);
            assert(s@.skip(n as int) =~= Seq::<char>::empty());
            assert(lines(s@.skip(n as int)) =~= Seq::<Seq<char>>::empty());
            assert(strings_view(out@) + lines(s@.skip(n as int)) =~= strings_view(out@));
            pos = n;
        } else {
            let mut line = slice_chars(&s, pos, p);
            assert(line@ =~= rest.take(p - pos));
            if line.len() > 0 && line[line.len() - 1] == '\r' {
                line.pop();
                assert(line@ =~= rest.take(p - pos).drop_last());
            }
            let ghost before = strings_view(out@);
            push_chars(&mut out, &line);
            assert(rest.skip(p - pos + 1) =~= s@.skip(p + 1));
            assert(strings_view(out@) + lines(s@.skip(p + 1)) =~= before + (seq![line@] + lines(
                rest.skip(p - pos + 1),
            )));
            pos = p + 1;
        }
    }
    assert(s@.skip(pos as int) =~= Seq::<char>::empty());
    assert(strings_view(out@) + Seq::<Seq<char>>::empty() =~= strings_view(out@));
    out
}

/// `w` is the window that the fields `f` of a `list-windows` line describe,
/// with `current` the current session.
pub open spec fn window_from_fields(w: Window, f: Seq<Seq<char>>, current: Seq<char>) -> bool {
    &&& w.session_name@ == f[0]
    &&& w.index@ == f[1]
    &&& w.name@ == f[2]
    &&& w.active == (f[3] == "1"@ && f[0] == current)
    &&& w.marked == (f[4] == "1"@)
    &&& w.bell == (f[5] == "1"@)
}

/// The fields of the lines of `raw` that describe a window.
pub open spec fn window_records(raw: Seq<char>) -> Seq<Seq<Seq<char>>> {
    lines(raw).filter_map(|l: Seq<char>| window_fields(l))
}

fn window_of(f: &Vec<String>, current: &str) -> (w: Window)
    requires
        f@.len() == 6,
    ensures
        window_from_fields(w, strings_view(f@), current@),
{
    let ghost fv = strings_view(f@);
    assert(fv[0] == f@[0]@ && fv[1] == f@[1]@ && fv[2] == f@[2]@);
    assert(fv[3] == f@[3]@ && fv[4] == f@[4]@ && fv[5] == f@[5]@);
    Window {
        session_name: f[0].clone(),
        index: f[1].clone(),
        name: f[2].clone(),
        active: str_eq(f[3].as_str(), "1") && str_eq(f[0].as_str(), current),
        marked: str_eq(f[4].as_str(), "1"),
        bell: str_eq(f[5].as_str(), "1"),
    }
}

/// The windows that the output of `tmux list-windows -a` describes, with
/// `current_session` the session the client is in.
pub fn parse_windows(raw: &str, current_session: &str) -> (ws: Vec<Window>)
    ensures
        ws@.len() == window_records(raw@).len(),
        forall|i: int|
            0 <= i < ws@.len() ==> window_from_fields(
                #[trigger] ws@[i],
                window_records(raw@)[i],
                current_session@,
            ),
{
    let ls = split_lines(raw);
    let ghost lv = strings_view(ls@);
    let ghost f = |l: Seq<char>| window_fields(l);
    let mut ws: Vec<Window> = Vec::new();
    let mut i: usize = 0;
    while i < ls.len()
        invariant
            i <= ls@.len(),
            lv == strings_view(ls@),
            lv == lines(raw@),
            f == (|l: Seq<char>| window_fields(l)),
            ws@.len() == lv.take(i as int).filter_map(f).len(),
            forall|k: int|
                0 <= k < ws@.len() ==> window_from_fields(
                    #[trigger] ws@[k],
                    lv.take(i as int).filter_map(f)[k],
                    current_session@,
                ),
        decreases ls@.len() - i,
    {
        let ghost prev = lv.take(i as int).filter_map(f);
        assert(lv.take(i as int + 1).drop_last() =~= lv.take(i as int));
        assert(lv[i as int] == ls@[i as int]@);
        match window_line_fields(ls[i].as_str()) {
            Some(fields) => {
                proof {
                    lemma_six_fields_len(split_bars(lv[i as int]), 0);
                }
                assert(strings_view(fields@).len() == fields@.len());
                let w = window_of(&fields, current_session);
                ws.push(w);
                assert(lv.take(i as int + 1).filter_map(f) == prev + seq![strings_view(fields@)]);
            },
            None => {
                assert(lv.take(i as int + 1).filter_map(f) == prev);
            },
        }
        i = i + 1;
    }
    assert(lv.take(ls@.len() as int) =~= lv);
    ws
}

/// The windows `tmux list-windows -a` reported, or its failure unchanged.
pub fn get_running_windows(output: Result<String, String>, current_session: &str) -> (r: Result<
    Vec<Window>,
    String,
>)
    ensures
        output is Err ==> r is Err && r->Err_0 == output->Err_0,
        output is Ok ==> r is Ok && r->Ok_0@.len() == window_records(output->Ok_0@).len()
            && forall|i: int|
            0 <= i < r->Ok_0@.len() ==> window_from_fields(
                #[trigger] r->Ok_0@[i],
                window_records(output->Ok_0@)[i],
                current_session@,
            ),
{
    match output {
        Ok(raw) => Ok(parse_windows(raw.as_str(), current_session)),
        Err(e) => Err(e),
    }
}


/// `s` split at its first `n - 1` bars, as `splitn(n, '|')` splits it.
pub open spec fn splitn_bars(s: Seq<char>, n: nat) -> Seq<Seq<char>>
    decreases n,
{
    let p = find_char(s, '|');
    if n <= 1 || p >= s.len() {
        seq![s]
    } else {
        seq![s.take(p)] + splitn_bars(s.skip(p + 1), (n - 1) as nat)
    }
}

/// Part `k` of `parts`, or the empty string.
pub open spec fn part_or_empty(parts: Seq<Seq<char>>, k: int) -> Seq<char> {
    if k < parts.len() {
        parts[k]
    } else {
        Seq::empty()
    }
}

/// The current window as `display-message -p
/// '#{session_name}|#{window_index}|#{window_name}|#{pane_current_path}'`
/// prints it: session, index, name and path, each empty when missing.
pub open spec fn current_window_parts(output: Seq<char>) -> (Seq<char>, Seq<char>, Seq<char>, Seq<char>) {
    let parts = splitn_bars(trim(output), 4);
    (part_or_empty(parts, 0), part_or_empty(parts, 1), part_or_empty(parts, 2), part_or_empty(parts, 3))
}

/// Reads the output of `display-message` for the current window.
pub fn parse_current_window(output: &str) -> (r: (String, String, String, String))
    ensures
        (r.0@, r.1@, r.2@, r.3@) == current_window_parts(output@),
{
    let t = trim_chars(&chars_of(output));
    let ghost parts = splitn_bars(t@, 4);
    let mut pieces: Vec<Vec<char>> = Vec::new();
    let mut pos: usize = 0;
    let mut k: usize = 0;
    let mut done = false;
    let n = t.len();
    assert(t@.skip(0) =~= t@);
    while !done
        invariant
            k <= 4,
            pos <= n,
            n == t@.len(),
            pieces@.len() == k,
            !done ==> k <= 3,
            !done ==> parts == pieces@.map_values(|v: Vec<char>| v@) + splitn_bars(
                t@.skip(pos as int),
                (4 - k) as nat,
            ),
            done ==> parts == pieces@.map_values(|v: Vec<char>| v@),
        decreases 4 - k,
    {
        let ghost rest = t@.skip(pos as int);
        let ghost before = pieces@.map_values(|v: Vec<char>| v@);
        proof {
            lemma_find_char(rest, '|');
        }
        let p = find_char_from(&t, '|', pos);
        if k == 3 || p >= n {
            let piece = slice_chars(&t, pos, n);
            assert(piece@ =~= rest);
            pieces.push(piece);
            assert(pieces@.map_values(|v: Vec<char>| v@) =~= before.push(rest));
            done = true;
        } else {
            let piece = slice_chars(&t, pos, p);
            assert(piece@ =~= rest.take(p - pos));
            pieces.push(piece);
            assert(rest.skip(p - pos + 1) =~= t@.skip(p + 1));
            assert(pieces@.map_values(|v: Vec<char>| v@) + splitn_bars(
                t@.skip(p + 1),
                (4 - k - 1) as nat,
            ) =~= before + splitn_bars(rest, (4 - k) as nat));
            pos = p + 1;
        }
        k = k + 1;
    }
    let ghost pv = pieces@.map_values(|v: Vec<char>| v@);
    assert(pv.len() == pieces@.len());
    let s0 = if pieces.len() > 0 {
        assert(pv[0] == pieces@[0]@);
        string_of(&pieces[0])
    } else {
        String::new()
    };
    let s1 = if pieces.len() > 1 {
        assert(pv[1] == pieces@[1]@);
        string_of(&pieces[1])
    } else {
        String::new()
    };
    let s2 = if pieces.len() > 2 {
        assert(pv[2] == pieces@[2]@);
        string_of(&pieces[2])
    } else {
        String::new()
    };
    let s3 = if pieces.len() > 3 {
        assert(pv[3] == pieces@[3]@);
        string_of(&pieces[3])
    } else {
        String::new()
    };
    (s0, s1, s2, s3)
}

/// The tmux command line that creates a window named `title` in `session`.
pub fn create_new_window_args(session: &str, title: &str) -> (args: Vec<String>)
    ensures
        strings_view(args@) == seq!["new-window"@, "-t"@, session@, "-n"@, title@],
{
    let mut args: Vec<String> = Vec::new();
    push_string(&mut args, "new-window");
    push_string(&mut args, "-t");
    push_string(&mut args, session);
    push_string(&mut args, "-n");
    push_string(&mut args, title);
    assert(strings_view(args@) =~= seq!["new-window"@, "-t"@, session@, "-n"@, title@]);
    args
}

/// The tmux command line that lists every window, one line of `|`-separated
/// fields each.
pub fn list_windows_args() -> (args: Vec<String>)
    ensures
        strings_view(args@) == seq![
            "list-windows"@,
            "-a"@,
            "-F"@,
            "#{session_name}|#{window_index}|#{window_name}|#{window_active}|#{window_marked_flag}|#{window_bell_flag}|"@,
        ],
{
    let mut args: Vec<String> = Vec::new();
    push_string(&mut args, "list-windows");
    push_string(&mut args, "-a");
    push_string(&mut args, "-F");
    push_string(
        &mut args,
        "#{session_name}|#{window_index}|#{window_name}|#{window_active}|#{window_marked_flag}|#{window_bell_flag}|",
    );
    args
}

/// The tmux command line that prints the current session's name.
pub fn current_session_args() -> (args: Vec<String>)
    ensures
        strings_view(args@) == seq!["display-message"@, "-p"@, "#S"@],
{
    let mut args: Vec<String> = Vec::new();
    push_string(&mut args, "display-message");
    push_string(&mut args, "-p");
    push_string(&mut args, "#S");
    args
}

/// The current session's name in the output of `display-message -p '#S'`.
pub fn parse_current_session(output: &str) -> (s: String)
    ensures
        s@ == trim(output@),
{
    crate::text::trim_str(output)
}

/// The tmux command line that prints the current window's session, index,
/// name and working directory.
pub fn current_window_args() -> (args: Vec<String>)
    ensures
        strings_view(args@) == seq![
            "display-message"@,
            "-p"@,
            "-F"@,
            "#{session_name}|#{window_index}|#{window_name}|#{pane_current_path}"@,
        ],
{
    let mut args: Vec<String> = Vec::new();
    push_string(&mut args, "display-message");
    push_string(&mut args, "-p");
    push_string(&mut args, "-F");
    push_string(&mut args, "#{session_name}|#{window_index}|#{window_name}|#{pane_current_path}");
    args
}

/// The file that remembers the previous window, in the config directory.
pub fn get_previous_window_path(config_dir: &str) -> (p: String)
    ensures
        p@ == crate::utils::path_join(config_dir@, "previous_window.json"@),
{
    crate::utils::join_path(config_dir, "previous_window.json")
}

} // verus!
