//! The native picker: its query and selection state, key handling, fuzzy
//! filtering and what each frame shows.

pub mod filter;
pub mod input;
pub mod state;
pub mod theme;
pub mod ui;

use vstd::prelude::*;

use crate::fzf::{popup_output, PickerOutputModel};
use crate::picker::filter::{ascending, all_in_order, fuzzy_match, is_ranking, items_fit, query_fits, query_words_fit, scores_for, FuzzyFilter};
use crate::picker::input::Action;
use crate::picker::state::{clamp_selected, word_start, PickerState};
use crate::text::{
    byte_len, decimal, decimal_chars, extend_chars, extend_str, has_prefix, is_white_space,
    lemma_decimal_value_of_decimal, lemma_trim_unchanged, string_of, trim, utf8_width,
};

verus! {

/// What the outer process hands the picker: its entries and how to show them.
#[derive(Debug)]
pub struct PickerConfig {
    pub items: Vec<String>,
    pub title: String,
    pub border: String,
    pub layout: String,
    pub theme: String,
    pub bell_fg: Option<String>,
}

/// How the picker ended.
#[derive(Debug, PartialEq, Eq)]
pub enum PickerResult {
    /// The entry at this index into the items was chosen.
    Selected(usize),
    /// A query that matched nothing was confirmed: a new window's name.
    New(String),
    Cancelled,
}

/// Entries moved by Page Up and Page Down.
pub const PAGE_SIZE: usize = 10;

/// What the picker's result file holds for `r`; nothing is written on a cancel.
pub open spec fn result_file_text(r: PickerResult) -> Option<Seq<char>> {
    match r {
        PickerResult::Selected(i) => Some(decimal(i as nat)),
        PickerResult::New(t) => Some("new:"@ + t@),
        PickerResult::Cancelled => None,
    }
}

/// What the picker writes to its result file.
pub fn result_file_contents(r: &PickerResult) -> (c: Option<String>)
    ensures
        match c {
            Some(s) => result_file_text(*r) == Some(s@),
            None => result_file_text(*r) is None,
        },
{
    match r {
        PickerResult::Selected(i) => Some(string_of(&decimal_chars(*i as u64))),
        PickerResult::New(t) => {
            let mut v: Vec<char> = Vec::new();
            extend_str(&mut v, "new:");
            extend_str(&mut v, t.as_str());
            Some(string_of(&v))
        },
        PickerResult::Cancelled => None,
    }
}

/// What the picker writes to its result file, the outer process reads back
/// as the same outcome: an entry's index as that index, a new window's name
/// as that name, and the empty file left on a cancel as a cancel. A name
/// that ends in white space loses it to trimming, so it is left out.
pub proof fn lemma_result_file_round_trip(r: PickerResult)
    requires
        r matches PickerResult::New(t) ==> t@.len() == 0 || !is_white_space(t@.last()),
    ensures
        popup_output(
            match result_file_text(r) {
                Some(text) => text,
                None => Seq::empty(),
            },
        ) == match r {
            PickerResult::Selected(i) => PickerOutputModel::Selected(i),
            PickerResult::New(t) => PickerOutputModel::New(t@),
            PickerResult::Cancelled => PickerOutputModel::Cancelled,
        },
{
    reveal_strlit("new:");
    match r {
        PickerResult::Selected(i) => {
            lemma_decimal_value_of_decimal(i as nat);
            let d = decimal(i as nat);
            assert(!has_prefix(d, "new:"@)) by {
                if has_prefix(d, "new:"@) {
                    assert(d.take(4)[0] == d[0]);
                }
            }
        },
        PickerResult::New(t) => {
            let text = "new:"@ + t@;
            assert(text[0] == 'n');
            if t@.len() > 0 {
                assert(text.last() == t@.last());
            }
            lemma_trim_unchanged(text);
            assert(text.take(4) =~= "new:"@);
            assert(text.skip(4) =~= t@);
        },
        PickerResult::Cancelled => {
            assert(trim(Seq::<char>::empty()) == Seq::<char>::empty());
        },
    }
}

/// The state shows the entries that match its query: all of them in order
/// with no positions for an empty query, else the ranked matches with their
/// matched positions.
pub open spec fn shows_matches(st: PickerState) -> bool {
    let q = st.query@;
    let items = st.items@;
    if q.len() == 0 {
        &&& st.filtered@ == all_in_order(items.len())
        &&& st.match_indices@.len() == items.len()
        &&& forall|k: int| 0 <= k < items.len() ==> (#[trigger] st.match_indices@[k])@.len() == 0
    } else {
        &&& is_ranking(scores_for(q, items), st.filtered@)
        &&& st.match_indices@.len() == st.filtered@.len()
        &&& forall|k: int|
            0 <= k < st.filtered@.len() ==> ascending((#[trigger] st.match_indices@[k])@)
                && st.match_indices@[k]@.to_multiset() == (fuzzy_match(
                q,
                items[st.filtered@[k] as int]@,
            )->0).1.to_multiset()
    }
}

/// Filters the entries again for the current query.
pub fn refilter(filter: &mut FuzzyFilter, state: &mut PickerState)
    requires
        items_fit(old(state).items@),
        query_fits(old(state).query@),
    ensures
        shows_matches(*final(state)),
        old(state).cursor_ok() ==> final(state).wf(),
        final(state).query == old(state).query,
        final(state).cursor == old(state).cursor,
        final(state).items == old(state).items,
        final(state).selected == clamp_selected(
            old(state).selected as int,
            final(state).filtered@.len() as int,
        ),
{
    let results = filter.filter_with_indices(state.query.as_str(), state.items.as_slice());
    let ghost rs = results@;
    state.update_filter_full(results);
    proof {
        assert forall|k: int| 0 <= k < rs.len() implies state.filtered@[k] == rs[k].0
            && state.match_indices@[k] == rs[k].1 by {}
        if state.query@.len() == 0 {
            assert(state.filtered@ =~= all_in_order(state.items@.len()));
        } else {
            assert(state.filtered@ =~= rs.map_values(|e: (usize, Vec<u32>)| e.0));
        }
    }
}

/// What Enter does: the selected entry, else a new window named after the
/// query, else nothing.
pub open spec fn confirm_result(st: PickerState) -> PickerResultModel {
    if st.selected < st.filtered@.len() {
        PickerResultModel::Selected(st.filtered@[st.selected as int])
    } else if st.query@.len() > 0 {
        PickerResultModel::New(st.query@)
    } else {
        PickerResultModel::Cancelled
    }
}

/// How the picker ended, by the contents of its text.
pub enum PickerResultModel {
    Selected(usize),
    New(Seq<char>),
    Cancelled,
}

impl View for PickerResult {
    type V = PickerResultModel;

    open spec fn view(&self) -> PickerResultModel {
        match self {
            PickerResult::Selected(i) => PickerResultModel::Selected(*i),
            PickerResult::New(t) => PickerResultModel::New(t@),
            PickerResult::Cancelled => PickerResultModel::Cancelled,
        }
    }
}


/// Whether the picker goes on after a key press, or how it ended.
#[derive(Debug, PartialEq, Eq)]
pub enum StepOutcome {
    Continue,
    Done(PickerResult),
}

/// The editing actions, after which the entries are filtered again.
pub open spec fn is_edit(a: Action) -> bool {
    a is InsertChar || a is DeleteCharBackward || a is DeleteWordBackward || a is DeleteToStart
}

/// What `action` does to the query and the cursor.
pub open spec fn edited(old: PickerState, new: PickerState, action: Action) -> bool {
    let s = old.query@;
    let k = old.cursor_char();
    match action {
        Action::InsertChar(c) => new.query@ == s.insert(k, c) && new.cursor == old.cursor + utf8_width(c),
        Action::DeleteCharBackward => if old.cursor == 0 {
            new.query == old.query && new.cursor == 0
        } else {
            new.query@ == s.remove(k - 1) && new.cursor == byte_len(s.take(k - 1))
        },
        Action::DeleteWordBackward => if old.cursor == 0 {
            new.query == old.query && new.cursor == 0
        } else {
            new.query@ == s.take(word_start(s, k)) + s.skip(k) && new.cursor == byte_len(
                s.take(word_start(s, k)),
            )
        },
        Action::DeleteToStart => new.query@ == s.skip(k) && new.cursor == 0,
        Action::CursorLeft => new.query == old.query && new.cursor == if old.cursor == 0 {
            0
        } else {
            byte_len(s.take(k - 1))
        },
        Action::CursorRight => new.query == old.query && new.cursor == if k < s.len() {
            byte_len(s.take(k + 1))
        } else {
            old.cursor as nat
        },
        Action::CursorToStart => new.query == old.query && new.cursor == 0,
        Action::CursorToEnd => new.query == old.query && new.cursor == byte_len(s),
        _ => new.query == old.query && new.cursor == old.cursor,
    }
}

/// The query after the editing action `action`; the query as it is for the
/// other actions.
pub open spec fn query_after(old: PickerState, action: Action) -> Seq<char> {
    let s = old.query@;
    let k = old.cursor_char();
    match action {
        Action::InsertChar(c) => s.insert(k, c),
        Action::DeleteCharBackward => if old.cursor == 0 {
            s
        } else {
            s.remove(k - 1)
        },
        Action::DeleteWordBackward => if old.cursor == 0 {
            s
        } else {
            s.take(word_start(s, k)) + s.skip(k)
        },
        Action::DeleteToStart => s.skip(k),
        _ => s,
    }
}

/// Whether `action` leaves a query that nucleo can score, as `apply_action`
/// requires of the editing actions.
pub fn edit_fits(state: &PickerState, action: Action) -> (b: bool)
    requires
        state.cursor_ok(),
        action matches Action::InsertChar(c) ==> byte_len(state.query@) + utf8_width(c)
            <= isize::MAX,
    ensures
        b == (is_edit(action) ==> query_fits(query_after(*state, action))),
{
    let mut trial = PickerState {
        query: state.query.clone(),
        cursor: state.cursor,
        selected: 0,
        filtered: Vec::new(),
        match_indices: Vec::new(),
        items: Vec::new(),
    };
    match action {
        Action::InsertChar(c) => trial.insert_char(c),
        Action::DeleteCharBackward => trial.delete_char_backward(),
        Action::DeleteWordBackward => trial.delete_word_backward(),
        Action::DeleteToStart => trial.delete_to_start(),
        _ => {
            return true;
        },
    }
    query_words_fit(trial.query.as_str())
}

/// Where `action` moves the selection, for actions that do not edit.
pub open spec fn moved_selection(old: PickerState, action: Action) -> int {
    let sel = old.selected as int;
    let len = old.filtered@.len() as int;
    let max = if len > 0 {
        len - 1
    } else {
        0
    };
    match action {
        Action::MoveUp => if sel > 0 {
            sel - 1
        } else {
            0
        },
        Action::MoveDown => if sel + 1 < len {
            sel + 1
        } else {
            sel
        },
        Action::PageUp => if sel >= PAGE_SIZE {
            sel - PAGE_SIZE
        } else {
            0
        },
        Action::PageDown => if sel + PAGE_SIZE < max {
            sel + PAGE_SIZE
        } else {
            max
        },
        _ => sel,
    }
}

/// Up moves the selection one entry up and Down one entry down, each
/// stopping at the end of the list; Page Up and Page Down move it by
/// `PAGE_SIZE` entries, stopping at the first and the last entry.
pub proof fn lemma_selection_moves(st: PickerState)
    ensures
        moved_selection(st, Action::MoveUp) == if st.selected >= 1 {
            st.selected - 1
        } else {
            0
        },
        moved_selection(st, Action::MoveDown) == if st.selected + 1 < st.filtered@.len() {
            st.selected + 1
        } else {
            st.selected as int
        },
        moved_selection(st, Action::PageUp) == if st.selected >= 10 {
            st.selected - 10
        } else {
            0
        },
        st.filtered@.len() > 0 ==> moved_selection(st, Action::PageDown) == if st.selected + 10
            <= st.filtered@.len() - 1 {
            st.selected + 10
        } else {
            st.filtered@.len() - 1
        },
        st.filtered@.len() == 0 ==> moved_selection(st, Action::PageDown) == 0,
{
}

/// Down then Up comes back to the same entry, away from the last entry; Up
/// then Down comes back, away from the first.
pub proof fn lemma_up_undoes_down(st: PickerState, down: PickerState, up: PickerState)
    requires
        down.filtered == st.filtered,
        down.selected == moved_selection(st, Action::MoveDown),
        up.selected == moved_selection(down, Action::MoveUp),
        st.selected + 1 < st.filtered@.len(),
    ensures
        up.selected == st.selected,
{
    lemma_selection_moves(st);
    lemma_selection_moves(down);
}

/// Up then Down comes back to the same entry, away from the first entry.
pub proof fn lemma_down_undoes_up(st: PickerState, up: PickerState, down: PickerState)
    requires
        up.filtered == st.filtered,
        up.selected == moved_selection(st, Action::MoveUp),
        down.selected == moved_selection(up, Action::MoveDown),
        st.selected >= 1,
        st.selected < st.filtered@.len(),
    ensures
        down.selected == st.selected,
{
    lemma_selection_moves(st);
    lemma_selection_moves(up);
}

/// Applies one key action to the picker: edits the query (then filters the
/// entries again), moves the cursor or the selection, or ends the picker.
pub fn apply_action(state: &mut PickerState, filter: &mut FuzzyFilter, action: Action) -> (o:
    StepOutcome)
    requires
        old(state).cursor_ok(),
        items_fit(old(state).items@),
        action matches Action::InsertChar(c) ==> byte_len(old(state).query@) + utf8_width(c)
            <= isize::MAX,
        is_edit(action) ==> query_fits(query_after(*old(state), action)),
    ensures
        final(state).cursor_ok(),
        final(state).items == old(state).items,
        old(state).wf() ==> final(state).wf(),
        old(state).selection_ok() ==> final(state).selection_ok(),
        shows_matches(*old(state)) ==> shows_matches(*final(state)),
        action is Cancel ==> o == StepOutcome::Done(PickerResult::Cancelled) && *final(state) == *old(
            state,
        ),
        action is Confirm ==> (o matches StepOutcome::Done(r) && r@ == confirm_result(*old(state))
            && *final(state) == *old(state)),
        !(action is Cancel) && !(action is Confirm) ==> {
            &&& o == StepOutcome::Continue
            &&& edited(*old(state), *final(state), action)
        },
        is_edit(action) ==> shows_matches(*final(state)) && final(state).selected == clamp_selected(
            old(state).selected as int,
            final(state).filtered@.len() as int,
        ),
        !is_edit(action) && !(action is Cancel) && !(action is Confirm) ==> {
            &&& final(state).filtered == old(state).filtered
            &&& final(state).match_indices == old(state).match_indices
            &&& final(state).selected == moved_selection(*old(state), action)
        },
        action is MoveUp ==> final(state).selected == if old(state).selected > 0 {
            old(state).selected - 1
        } else {
            0
        },
        action is MoveDown ==> final(state).selected == if old(state).selected + 1 < old(
            state,
        ).filtered@.len() {
            old(state).selected + 1
        } else {
            old(state).selected as int
        },
{
    match action {
        Action::Cancel => StepOutcome::Done(PickerResult::Cancelled),
        Action::Confirm => {
            let r = match state.selected_item_index() {
                Some(idx) => PickerResult::Selected(idx),
                None => if !state.query.as_str().is_empty() {
                    PickerResult::New(state.query.clone())
                } else {
                    PickerResult::Cancelled
                },
            };
            StepOutcome::Done(r)
        },
        Action::InsertChar(c) => {
            state.insert_char(c);
            refilter(filter, state);
            StepOutcome::Continue
        },
        Action::DeleteCharBackward => {
            state.delete_char_backward();
            refilter(filter, state);
            StepOutcome::Continue
        },
        Action::DeleteWordBackward => {
            state.delete_word_backward();
            refilter(filter, state);
            StepOutcome::Continue
        },
        Action::DeleteToStart => {
            state.delete_to_start();
            refilter(filter, state);
            StepOutcome::Continue
        },
        Action::CursorLeft => {
            state.cursor_left();
            StepOutcome::Continue
        },
        Action::CursorRight => {
            state.cursor_right();
            StepOutcome::Continue
        },
        Action::CursorToStart => {
            state.cursor_to_start();
            StepOutcome::Continue
        },
        Action::CursorToEnd => {
            state.cursor_to_end();
            StepOutcome::Continue
        },
        Action::MoveUp => {
            state.move_up();
            StepOutcome::Continue
        },
        Action::MoveDown => {
            state.move_down();
            StepOutcome::Continue
        },
        Action::PageUp => {
            state.page_up(PAGE_SIZE);
            StepOutcome::Continue
        },
        Action::PageDown => {
            state.page_down(PAGE_SIZE);
            StepOutcome::Continue
        },
        Action::Noop => StepOutcome::Continue,
    }
}

} // verus!
