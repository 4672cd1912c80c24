//! The picker's editable query, its cursor and the selection in the
//! filtered item list.

use vstd::prelude::*;

use crate::text::{
    byte_len, char_index, char_index_of_byte, char_utf8_width, chars_of, extend_chars, is_boundary,
    lemma_byte_len_concat, lemma_byte_len_push, lemma_byte_len_take_mono, lemma_byte_len_take_step, lemma_char_index,
    prefix_byte_len, slice_chars, string_of, utf8_width,
};

verus! {

/// Where the query ends and which filtered item is selected.
///
/// `cursor` is a byte offset into `query`; `filtered` holds indices into
/// `items` in display order, and `match_indices[r]` the matched character
/// positions of the item shown at rank `r`.
pub struct PickerState {
    pub query: String,
    pub cursor: usize,
    pub selected: usize,
    pub filtered: Vec<usize>,
    pub match_indices: Vec<Vec<u32>>,
    pub items: Vec<String>,
}

/// The character index at which a word deletion ending at character `k`
/// starts: the position of the last space before `k`, or 0.
pub open spec fn word_start(s: Seq<char>, k: int) -> int
    decreases k,
{
    if k <= 0 {
        0
    } else if s[k - 1] == ' ' {
        k - 1
    } else {
        word_start(s, k - 1)
    }
}

/// `m` holds `n` match lists, all empty.
pub open spec fn no_matches(m: Seq<Vec<u32>>, n: nat) -> bool {
    m.len() == n && forall|i: int| 0 <= i < n ==> (#[trigger] m[i])@.len() == 0
}

/// The selection moved to at most `max`.
pub open spec fn clamp_selected(selected: int, len: int) -> int {
    let max = if len > 0 {
        len - 1
    } else {
        0
    };
    if selected > max {
        max
    } else {
        selected
    }
}

impl PickerState {
    /// The cursor stands on a character boundary of the query, and the
    /// query fits in a `String`.
    pub open spec fn cursor_ok(&self) -> bool {
        &&& is_boundary(self.query@, self.cursor as int)
        &&& byte_len(self.query@) <= isize::MAX
    }

    /// The selection is a shown entry, or 0 when nothing is shown.
    pub open spec fn selection_ok(&self) -> bool {
        if self.filtered@.len() == 0 {
            self.selected == 0
        } else {
            self.selected < self.filtered@.len()
        }
    }

    /// The state is well formed: the cursor on a character boundary, one
    /// match list per shown entry, every shown entry an index into `items`,
    /// and the selection in range.
    pub open spec fn wf(&self) -> bool {
        &&& self.cursor_ok()
        &&& self.filtered@.len() == self.match_indices@.len()
        &&& forall|k: int| 0 <= k < self.filtered@.len() ==> (#[trigger] self.filtered@[k]) < self.items@.len()
        &&& self.selection_ok()
    }

    /// The character index of the cursor.
    pub open spec fn cursor_char(&self) -> int {
        char_index(self.query@, self.cursor as int)
    }

    /// A fresh state: empty query, every item shown in order, the first selected.
    pub fn new(items: Vec<String>) -> (s: Self)
        ensures
            s.query@ == Seq::<char>::empty(),
            s.cursor == 0,
            s.selected == 0,
            s.filtered@ == Seq::new(items@.len(), |i: int| i as usize),
            no_matches(s.match_indices@, items@.len()),
            s.items@ == items@,
            s.cursor_ok(),
            s.selection_ok(),
            s.wf(),
    {
        let n = items.len();
        let mut filtered: Vec<usize> = Vec::new();
        let mut match_indices: Vec<Vec<u32>> = Vec::new();
        let mut i: usize = 0;
        while i < n
            invariant
                n == items@.len(),
                i <= n,
                filtered@ == Seq::new(i as nat, |j: int| j as usize),
                match_indices@.len() == i,
                forall|j: int| 0 <= j < i ==> (#[trigger] match_indices@[j])@.len() == 0,
            decreases n - i,
        {
            filtered.push(i);
            match_indices.push(Vec::new());
            assert(filtered@ =~= Seq::new(i as nat + 1, |j: int| j as usize));
            i = i + 1;
        }
        let query = String::new();
        proof {
            assert(query@.take(0) =~= Seq::<char>::empty());
            lemma_char_index(query@, 0);
        }
        PickerState { query, cursor: 0, selected: 0, filtered, match_indices, items }
    }

    /// Inserts `c` at the cursor and moves the cursor past it.
    pub fn insert_char(&mut self, c: char)
        requires
            old(self).cursor_ok(),
            byte_len(old(self).query@) + utf8_width(c) <= isize::MAX,
        ensures
            old(self).wf() ==> final(self).wf(),
            final(self).cursor_ok(),
            final(self).query@ == old(self).query@.insert(old(self).cursor_char(), c),
            final(self).cursor == old(self).cursor + utf8_width(c),
            final(self).cursor_char() == old(self).cursor_char() + 1,
            final(self).selected == old(self).selected,
            final(self).filtered == old(self).filtered,
            final(self).match_indices == old(self).match_indices,
            final(self).items == old(self).items,
    {
        let mut chars = chars_of(self.query.as_str());
        let k = char_index_of_byte(&chars, self.cursor);
        let ghost before = chars@;
        chars.insert(k, c);
        proof {
            let after = chars@;
            assert(after.take(k as int + 1) =~= before.take(k as int).push(c));
            lemma_byte_len_push(before.take(k as int), c);
            lemma_char_index(after, k as int + 1);
            assert(after =~= before.take(k as int).push(c) + before.skip(k as int));
            assert(before =~= before.take(k as int) + before.skip(k as int));
            lemma_byte_len_concat(before.take(k as int).push(c), before.skip(k as int));
            lemma_byte_len_concat(before.take(k as int), before.skip(k as int));
            lemma_byte_len_take_mono(before, k as int, before.len() as int);
            assert(before.take(before.len() as int) =~= before);
        }
        self.query = string_of(&chars);
        self.cursor = self.cursor + char_utf8_width(c);
    }

    /// Deletes the character before the cursor; nothing at the start.
    pub fn delete_char_backward(&mut self)
        requires
            old(self).cursor_ok(),
        ensures
            old(self).wf() ==> final(self).wf(),
            final(self).cursor_ok(),
            old(self).cursor == 0 ==> final(self).query == old(self).query && final(self).cursor
                == 0,
            old(self).cursor > 0 ==> {
                &&& final(self).query@ == old(self).query@.remove(old(self).cursor_char() - 1)
                &&& final(self).cursor == byte_len(
                    old(self).query@.take(old(self).cursor_char() - 1),
                )
                &&& final(self).cursor_char() == old(self).cursor_char() - 1
            },
            final(self).selected == old(self).selected,
            final(self).filtered == old(self).filtered,
            final(self).match_indices == old(self).match_indices,
            final(self).items == old(self).items,
    {
        if self.cursor == 0 {
            return;
        }
        let mut chars = chars_of(self.query.as_str());
        let k = char_index_of_byte(&chars, self.cursor);
        let ghost before = chars@;
        proof {
            assert(before.take(0) =~= Seq::<char>::empty());
            assert(k > 0);
            lemma_byte_len_take_mono(before, k as int, before.len() as int);
            assert(before.take(before.len() as int) =~= before);
        }
        let prev = prefix_byte_len(&chars, k - 1);
        chars.remove(k - 1);
        proof {
            let after = chars@;
            assert(after.take(k - 1) =~= before.take(k - 1));
            lemma_char_index(after, k - 1);
            lemma_char_index(before, k - 1);
            assert(before =~= before.take(k - 1).push(before[k - 1]) + before.skip(k as int));
            assert(after =~= before.take(k - 1) + before.skip(k as int));
            lemma_byte_len_concat(before.take(k - 1).push(before[k - 1]), before.skip(k as int));
            lemma_byte_len_concat(before.take(k - 1), before.skip(k as int));
            lemma_byte_len_push(before.take(k - 1), before[k - 1]);
        }
        self.query = string_of(&chars);
        self.cursor = prev;
    }

    /// Deletes from the last space before the cursor (or the start) up to
    /// the cursor.
    pub fn delete_word_backward(&mut self)
        requires
            old(self).cursor_ok(),
        ensures
            old(self).wf() ==> final(self).wf(),
            final(self).cursor_ok(),
            old(self).cursor == 0 ==> final(self).query == old(self).query && final(self).cursor
                == 0,
            old(self).cursor > 0 ==> {
                let s = old(self).query@;
                let k = old(self).cursor_char();
                let j = word_start(s, k);
                &&& final(self).query@ == s.take(j) + s.skip(k)
                &&& final(self).cursor == byte_len(s.take(j))
                &&& final(self).cursor_char() == j
            },
            final(self).selected == old(self).selected,
            final(self).filtered == old(self).filtered,
            final(self).match_indices == old(self).match_indices,
            final(self).items == old(self).items,
    {
        if self.cursor == 0 {
            return;
        }
        let chars = chars_of(self.query.as_str());
        let k = char_index_of_byte(&chars, self.cursor);
        let ghost s = chars@;
        let mut j: usize = k;
        while j > 0 && chars[j - 1] != ' '
            invariant
                j <= k <= s.len(),
                s == chars@,
                word_start(s, k as int) == word_start(s, j as int),
            decreases j,
        {
            j = j - 1;
        }
        let start: usize = if j > 0 {
            j - 1
        } else {
            0
        };
        assert(word_start(s, j as int) == start);
        proof {
            lemma_byte_len_take_mono(s, k as int, s.len() as int);
            lemma_byte_len_take_mono(s, start as int, s.len() as int);
            assert(s.take(s.len() as int) =~= s);
        }
        let new_cursor = prefix_byte_len(&chars, start);
        let mut rest = slice_chars(&chars, 0, start);
        let tail = slice_chars(&chars, k, chars.len());
        extend_chars(&mut rest, &tail);
        proof {
            let after = rest@;
            assert(s.subrange(0, start as int) =~= s.take(start as int));
            assert(s.subrange(k as int, s.len() as int) =~= s.skip(k as int));
            assert(after.take(start as int) =~= s.take(start as int));
            lemma_char_index(after, start as int);
            assert(s =~= s.take(k as int) + s.skip(k as int));
            lemma_byte_len_concat(s.take(k as int), s.skip(k as int));
            lemma_byte_len_concat(s.take(start as int), s.skip(k as int));
            lemma_byte_len_take_mono(s, start as int, k as int);
        }
        self.query = string_of(&rest);
        self.cursor = new_cursor;
    }

    /// Deletes everything before the cursor.
    pub fn delete_to_start(&mut self)
        requires
            old(self).cursor_ok(),
        ensures
            old(self).wf() ==> final(self).wf(),
            final(self).cursor_ok(),
            final(self).query@ == old(self).query@.skip(old(self).cursor_char()),
            final(self).cursor == 0,
            final(self).selected == old(self).selected,
            final(self).filtered == old(self).filtered,
            final(self).match_indices == old(self).match_indices,
            final(self).items == old(self).items,
    {
        let chars = chars_of(self.query.as_str());
        let k = char_index_of_byte(&chars, self.cursor);
        let rest = slice_chars(&chars, k, chars.len());
        proof {
            let s = chars@;
            assert(s.subrange(k as int, s.len() as int) =~= s.skip(k as int));
            assert(s =~= s.take(k as int) + s.skip(k as int));
            lemma_byte_len_concat(s.take(k as int), s.skip(k as int));
            assert(rest@.take(0) =~= Seq::<char>::empty());
            lemma_char_index(rest@, 0);
        }
        self.query = string_of(&rest);
        self.cursor = 0;
    }

    /// Moves the cursor one character to the left; nothing at the start.
    pub fn cursor_left(&mut self)
        requires
            old(self).cursor_ok(),
        ensures
            old(self).wf() ==> final(self).wf(),
            final(self).cursor_ok(),
            final(self).query == old(self).query,
            old(self).cursor == 0 ==> final(self).cursor == 0,
            old(self).cursor > 0 ==> final(self).cursor == byte_len(
                old(self).query@.take(old(self).cursor_char() - 1),
            ) && final(self).cursor_char() == old(self).cursor_char() - 1,
            final(self).selected == old(self).selected,
            final(self).filtered == old(self).filtered,
            final(self).match_indices == old(self).match_indices,
            final(self).items == old(self).items,
    {
        if self.cursor > 0 {
            let chars = chars_of(self.query.as_str());
            let k = char_index_of_byte(&chars, self.cursor);
            proof {
                assert(chars@.take(0) =~= Seq::<char>::empty());
                lemma_byte_len_take_mono(chars@, k as int, chars@.len() as int);
                assert(chars@.take(chars@.len() as int) =~= chars@);
                lemma_char_index(chars@, k - 1);
            }
            self.cursor = prefix_byte_len(&chars, k - 1);
        }
    }

    /// Moves the cursor one character to the right; nothing at the end.
    pub fn cursor_right(&mut self)
        requires
            old(self).cursor_ok(),
        ensures
            old(self).wf() ==> final(self).wf(),
            final(self).cursor_ok(),
            final(self).query == old(self).query,
            old(self).cursor_char() == old(self).query@.len() ==> final(self).cursor == old(
                self,
            ).cursor,
            old(self).cursor_char() < old(self).query@.len() ==> final(self).cursor == byte_len(
                old(self).query@.take(old(self).cursor_char() + 1),
            ) && final(self).cursor_char() == old(self).cursor_char() + 1,
            final(self).selected == old(self).selected,
            final(self).filtered == old(self).filtered,
            final(self).match_indices == old(self).match_indices,
            final(self).items == old(self).items,
    {
        let chars = chars_of(self.query.as_str());
        let k = char_index_of_byte(&chars, self.cursor);
        if k < chars.len() {
            proof {
                assert(chars@.take(chars@.len() as int) =~= chars@);
                lemma_char_index(chars@, k + 1);
            }
            self.cursor = prefix_byte_len(&chars, k + 1);
        }
    }

    /// Moves the cursor to the start of the query.
    pub fn cursor_to_start(&mut self)
        requires
            old(self).cursor_ok(),
        ensures
            old(self).wf() ==> final(self).wf(),
            final(self).cursor_ok(),
            final(self).cursor == 0,
            final(self).query == old(self).query,
            final(self).selected == old(self).selected,
            final(self).filtered == old(self).filtered,
            final(self).match_indices == old(self).match_indices,
            final(self).items == old(self).items,
    {
        proof {
            lemma_char_index(self.query@, 0);
            assert(self.query@.take(0) =~= Seq::<char>::empty());
        }
        self.cursor = 0;
    }

    /// Moves the cursor to the end of the query.
    pub fn cursor_to_end(&mut self)
        requires
            old(self).cursor_ok(),
        ensures
            old(self).wf() ==> final(self).wf(),
            final(self).cursor_ok(),
            final(self).cursor == byte_len(old(self).query@),
            final(self).cursor_char() == old(self).query@.len(),
            final(self).query == old(self).query,
            final(self).selected == old(self).selected,
            final(self).filtered == old(self).filtered,
            final(self).match_indices == old(self).match_indices,
            final(self).items == old(self).items,
    {
        let chars = chars_of(self.query.as_str());
        proof {
            assert(chars@.take(chars@.len() as int) =~= chars@);
            lemma_char_index(chars@, chars@.len() as int);
        }
        self.cursor = prefix_byte_len(&chars, chars.len());
    }

    /// Selects the previous item; nothing at the first.
    pub fn move_up(&mut self)
        ensures
            old(self).wf() ==> final(self).wf(),
            old(self).selection_ok() ==> final(self).selection_ok(),
            final(self).selected == if old(self).selected > 0 {
                old(self).selected - 1
            } else {
                0
            },
            final(self).query == old(self).query,
            final(self).cursor == old(self).cursor,
            final(self).filtered == old(self).filtered,
            final(self).match_indices == old(self).match_indices,
            final(self).items == old(self).items,
    {
        if self.selected > 0 {
            self.selected = self.selected - 1;
        }
    }

    /// Selects the next item; nothing at the last.
    pub fn move_down(&mut self)
        ensures
            old(self).wf() ==> final(self).wf(),
            old(self).selection_ok() ==> final(self).selection_ok(),
            final(self).selected == if old(self).selected + 1 < old(self).filtered@.len() {
                old(self).selected + 1
            } else {
                old(self).selected as int
            },
            final(self).query == old(self).query,
            final(self).cursor == old(self).cursor,
            final(self).filtered == old(self).filtered,
            final(self).match_indices == old(self).match_indices,
            final(self).items == old(self).items,
    {
        if self.filtered.len() > 0 && self.selected < self.filtered.len() - 1 {
            self.selected = self.selected + 1;
        }
    }

    /// Moves the selection up by `page_size`, stopping at the first item.
    pub fn page_up(&mut self, page_size: usize)
        ensures
            old(self).wf() ==> final(self).wf(),
            old(self).selection_ok() ==> final(self).selection_ok(),
            final(self).selected == if old(self).selected >= page_size {
                old(self).selected - page_size
            } else {
                0
            },
            final(self).query == old(self).query,
            final(self).cursor == old(self).cursor,
            final(self).filtered == old(self).filtered,
            final(self).match_indices == old(self).match_indices,
            final(self).items == old(self).items,
    {
        self.selected = if self.selected >= page_size {
            self.selected - page_size
        } else {
            0
        };
    }

    /// Moves the selection down by `page_size`, stopping at the last item
    /// (at 0 when nothing is shown).
    pub fn page_down(&mut self, page_size: usize)
        ensures
            old(self).wf() ==> final(self).wf(),
            old(self).selection_ok() ==> final(self).selection_ok(),
            ({
                let max = if old(self).filtered@.len() > 0 {
                    old(self).filtered@.len() - 1
                } else {
                    0
                };
                final(self).selected == if old(self).selected + page_size < max {
                    old(self).selected + page_size
                } else {
                    max
                }
            }),
            final(self).query == old(self).query,
            final(self).cursor == old(self).cursor,
            final(self).filtered == old(self).filtered,
            final(self).match_indices == old(self).match_indices,
            final(self).items == old(self).items,
    {
        let max: usize = if self.filtered.len() > 0 {
            self.filtered.len() - 1
        } else {
            0
        };
        if self.selected < max && page_size < max - self.selected {
            self.selected = self.selected + page_size;
        } else {
            self.selected = max;
        }
    }

    /// Shows `filtered` with no match positions and keeps the selection in range.
    pub fn update_filter(&mut self, filtered: Vec<usize>)
        ensures
            old(self).cursor_ok() && (forall|k: int|
                0 <= k < filtered@.len() ==> (#[trigger] filtered@[k]) < old(self).items@.len())
                ==> final(self).wf(),
            final(self).selection_ok(),
            final(self).filtered@ == filtered@,
            no_matches(final(self).match_indices@, filtered@.len()),
            final(self).selected == clamp_selected(old(self).selected as int, filtered@.len() as int),
            final(self).query == old(self).query,
            final(self).cursor == old(self).cursor,
            final(self).items == old(self).items,
    {
        let n = filtered.len();
        let mut match_indices: Vec<Vec<u32>> = Vec::new();
        let mut i: usize = 0;
        while i < n
            invariant
                i <= n,
                no_matches(match_indices@, i as nat),
            decreases n - i,
        {
            match_indices.push(Vec::new());
            i = i + 1;
        }
        self.match_indices = match_indices;
        self.filtered = filtered;
        let max: usize = if n > 0 {
            n - 1
        } else {
            0
        };
        if self.selected > max {
            self.selected = max;
        }
    }

    /// Shows the ranked `results` (item index, match positions) and keeps the
    /// selection in range.
    pub fn update_filter_full(&mut self, results: Vec<(usize, Vec<u32>)>)
        ensures
            old(self).cursor_ok() && (forall|k: int|
                0 <= k < results@.len() ==> (#[trigger] results@[k]).0 < old(self).items@.len())
                ==> final(self).wf(),
            final(self).selection_ok(),
            final(self).filtered@ == results@.map_values(|r: (usize, Vec<u32>)| r.0),
            final(self).match_indices@ == results@.map_values(|r: (usize, Vec<u32>)| r.1),
            final(self).selected == clamp_selected(old(self).selected as int, results@.len() as int),
            final(self).query == old(self).query,
            final(self).cursor == old(self).cursor,
            final(self).items == old(self).items,
    {
        let n = results.len();
        let ghost all = results@;
        let mut filtered: Vec<usize> = Vec::new();
        let mut match_indices: Vec<Vec<u32>> = Vec::new();
        let mut rest = results;
        let mut i: usize = 0;
        while i < n
            invariant
                i <= n == all.len(),
                rest@ == all.skip(i as int),
                filtered@ == all.take(i as int).map_values(|r: (usize, Vec<u32>)| r.0),
                match_indices@ == all.take(i as int).map_values(|r: (usize, Vec<u32>)| r.1),
            decreases n - i,
        {
            assert(rest@.len() > 0);
            let (idx, positions) = rest.remove(0);
            assert(all.skip(i as int).remove(0) =~= all.skip(i as int + 1));
            filtered.push(idx);
            match_indices.push(positions);
            assert(all.take(i as int + 1) =~= all.take(i as int).push(all[i as int]));
            i = i + 1;
        }
        assert(all.take(n as int) =~= all);
        self.filtered = filtered;
        self.match_indices = match_indices;
        let max: usize = if n > 0 {
            n - 1
        } else {
            0
        };
        if self.selected > max {
            self.selected = max;
        }
    }

    /// The index into `items` of the selected entry, if any is shown there.
    pub fn selected_item_index(&self) -> (r: Option<usize>)
        ensures
            r == if self.selected < self.filtered@.len() {
                Some(self.filtered@[self.selected as int])
            } else {
                None::<usize>
            },
    {
        if self.selected < self.filtered.len() {
            Some(self.filtered[self.selected])
        } else {
            None
        }
    }
}

/// The byte offset of a boundary is that of the characters before it.
proof fn lemma_cursor_offset(st: PickerState)
    requires
        st.cursor_ok(),
    ensures
        0 <= st.cursor_char() <= st.query@.len(),
        byte_len(st.query@.take(st.cursor_char())) == st.cursor,
{
}

/// Deleting the character before the cursor undoes inserting one: the query
/// and the cursor are back where they were. `inserted` is what
/// `insert_char(c)` made of `before`, and `deleted` what
/// `delete_char_backward` made of `inserted`.
pub proof fn lemma_delete_undoes_insert(
    before: PickerState,
    c: char,
    inserted: PickerState,
    deleted: PickerState,
)
    requires
        before.cursor_ok(),
        inserted.query@ == before.query@.insert(before.cursor_char(), c),
        inserted.cursor == before.cursor + utf8_width(c),
        inserted.cursor_char() == before.cursor_char() + 1,
        deleted.query@ == inserted.query@.remove(inserted.cursor_char() - 1),
        deleted.cursor == byte_len(inserted.query@.take(inserted.cursor_char() - 1)),
    ensures
        deleted.query@ == before.query@,
        deleted.cursor == before.cursor,
{
    lemma_cursor_offset(before);
    let q = before.query@;
    let k = before.cursor_char();
    assert(q.insert(k, c).remove(k) =~= q);
    assert(q.insert(k, c).take(k) =~= q.take(k));
}

/// Moving the cursor right undoes moving it left: away from the start of the
/// query, `left` is what `cursor_left` made of `before`, and `right` what
/// `cursor_right` made of `left`.
pub proof fn lemma_right_undoes_left(before: PickerState, left: PickerState, right: PickerState)
    requires
        before.cursor_ok(),
        before.cursor > 0,
        left.cursor_ok(),
        left.query == before.query,
        left.cursor == byte_len(before.query@.take(before.cursor_char() - 1)),
        left.cursor_char() == before.cursor_char() - 1,
        right.query == left.query,
        left.cursor_char() < left.query@.len() ==> right.cursor == byte_len(
            left.query@.take(left.cursor_char() + 1),
        ),
    ensures
        right.query == before.query,
        right.cursor == before.cursor,
{
    lemma_cursor_offset(before);
}

/// Moving the cursor left undoes moving it right: before the end of the
/// query, `right` is what `cursor_right` made of `before`, and `left` what
/// `cursor_left` made of `right`.
pub proof fn lemma_left_undoes_right(before: PickerState, right: PickerState, left: PickerState)
    requires
        before.cursor_ok(),
        before.cursor_char() < before.query@.len(),
        right.cursor_ok(),
        right.query == before.query,
        right.cursor == byte_len(before.query@.take(before.cursor_char() + 1)),
        right.cursor_char() == before.cursor_char() + 1,
        left.query == right.query,
        right.cursor > 0 ==> left.cursor == byte_len(right.query@.take(right.cursor_char() - 1)),
    ensures
        left.query == before.query,
        left.cursor == before.cursor,
{
    lemma_cursor_offset(before);
    lemma_byte_len_take_mono(before.query@, 0, before.cursor_char() + 1);
    lemma_byte_len_take_step(before.query@, before.cursor_char());
}

} // verus!
