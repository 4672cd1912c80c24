//! Fuzzy filtering of the picker's entries with nucleo: which entries match
//! the query, in which order, and which of their characters matched.

use vstd::prelude::*;

use nucleo_matcher::pattern::{CaseMatching, Normalization, Pattern};
use nucleo_matcher::{Matcher, Utf32Str};

use crate::text::chars_of;

verus! {

#[verifier::external_type_specification]
#[verifier::external_body]
pub struct ExMatcher(nucleo_matcher::Matcher);

/// The score nucleo gives `item` for the query `query` (parsed with smart
/// case and smart normalization), `None` when it does not match.
pub uninterp spec fn fuzzy_score(query: Seq<char>, item: Seq<char>) -> Option<u32>;

/// The score and the matched positions (in nucleo's order, one list per
/// query word) nucleo gives `item` for the query `query`.
pub uninterp spec fn fuzzy_match(query: Seq<char>, item: Seq<char>) -> Option<(u32, Seq<u32>)>;

/// `nucleo_matcher::Matcher::new(Config::DEFAULT)`: a matcher with the
/// default scoring configuration.
#[verifier::external_body]
fn new_matcher() -> Matcher {
    Matcher::new(nucleo_matcher::Config::DEFAULT)
}

/// The longest query word nucleo scores without overflow: a word's score is
/// a `u16` that grows by at most 26 per matched character.
pub open spec fn max_word_len() -> nat {
    2400
}

/// The longest query nucleo scores without overflow: the words' scores are
/// added up in a `u32`, at most 44 per query character.
pub open spec fn max_query_len() -> nat {
    97_000_000
}

/// The words of `q` from character `i` on, split as `Pattern::parse` splits
/// them (at spaces not preceded by a backslash), are at most
/// `max_word_len()` long; `run` characters of the current word lie before
/// `i`, and `escaped` says whether the character before `i` is a backslash.
pub open spec fn words_fit_from(q: Seq<char>, i: int, run: nat, escaped: bool) -> bool
    decreases q.len() - i,
{
    if i < 0 || i >= q.len() {
        run <= max_word_len()
    } else if q[i] == ' ' && !escaped {
        run <= max_word_len() && words_fit_from(q, i + 1, 0, false)
    } else {
        words_fit_from(q, i + 1, run + 1, q[i] == '\\')
    }
}

/// nucleo can score the query `q`: no word and not the whole is too long.
pub open spec fn query_fits(q: Seq<char>) -> bool {
    q.len() <= max_query_len() && words_fit_from(q, 0, 0, false)
}

/// Whether nucleo can score the query `q` without overflow.
pub fn query_words_fit(q: &str) -> (b: bool)
    ensures
        b == query_fits(q@),
{
    let v = chars_of(q);
    if v.len() > 97_000_000 {
        return false;
    }
    let mut i: usize = 0;
    let mut run: usize = 0;
    let mut escaped = false;
    while i < v.len()
        invariant
            i <= v@.len() <= max_query_len(),
            run <= i,
            v@ == q@,
            words_fit_from(v@, 0, 0, false) == words_fit_from(v@, i as int, run as nat, escaped),
        decreases v@.len() - i,
    {
        if v[i] == ' ' && !escaped {
            if run > 2400 {
                return false;
            }
            run = 0;
            escaped = false;
        } else {
            run = run + 1;
            escaped = v[i] == '\\';
        }
        i = i + 1;
    }
    run <= 2400
}

/// `Pattern::parse(query, CaseMatching::Smart, Normalization::Smart)` then
/// `Pattern::score` on `item`. The contract claims the score is a function
/// of the query and the item alone: the matcher only lends scratch memory
/// and a configuration that each pattern word overwrites where it matters.
/// nucleo panics on haystacks over `u32::MAX` code points, and its scores
/// overflow for query words over `max_word_len()` characters.
#[verifier::external_body]
fn score_item(matcher: &mut Matcher, query: &str, item: &str) -> (r: Option<u32>)
    requires
        item@.len() <= u32::MAX,
        query_fits(query@),
    ensures
        r == fuzzy_score(query@, item@),
{
    let pattern = Pattern::parse(query, CaseMatching::Smart, Normalization::Smart);
    let mut buf = Vec::new();
    pattern.score(Utf32Str::new(item, &mut buf), matcher)
}

/// `Pattern::parse` as above, then `Pattern::indices` on `item`: the score
/// and the matched positions appended in nucleo's order. `indices` runs the
/// same matching as `score` (only recording positions besides), so the
/// score is the one `score` gives.
#[verifier::external_body]
fn match_item(matcher: &mut Matcher, query: &str, item: &str) -> (r: Option<(u32, Vec<u32>)>)
    requires
        item@.len() <= u32::MAX,
        query_fits(query@),
    ensures
        r is Some <==> fuzzy_match(query@, item@) is Some,
        r is Some ==> (r->0).0 == (fuzzy_match(query@, item@)->0).0 && (r->0).1@ == (fuzzy_match(
            query@,
            item@,
        )->0).1,
        r is Some <==> fuzzy_score(query@, item@) is Some,
        r is Some ==> (r->0).0 == fuzzy_score(query@, item@)->0,
{
    let pattern = Pattern::parse(query, CaseMatching::Smart, Normalization::Smart);
    let mut buf = Vec::new();
    let mut indices = Vec::new();
    let score = pattern.indices(Utf32Str::new(item, &mut buf), matcher, &mut indices)?;
    Some((score, indices))
}

/// Entry `a` ranks before entry `b`: a higher score, or the same score and
/// an earlier place in the list.
pub open spec fn ranks_before(scores: Seq<Option<u32>>, a: int, b: int) -> bool {
    scores[a]->0 > scores[b]->0 || (scores[a]->0 == scores[b]->0 && a < b)
}

/// `r` lists exactly the entries that have a score, best score first and
/// entries of equal score in list order.
pub open spec fn is_ranking(scores: Seq<Option<u32>>, r: Seq<usize>) -> bool {
    &&& forall|k: int| 0 <= k < r.len() ==> (#[trigger] r[k]) < scores.len() && scores[r[k] as int] is Some
    &&& forall|i: int|
        0 <= i < scores.len() && (#[trigger] scores[i]) is Some ==> exists|k: int|
            0 <= k < r.len() && r[k] == i
    &&& forall|k: int, l: int|
        0 <= k < l < r.len() ==> ranks_before(scores, #[trigger] r[k] as int, #[trigger] r[l] as int)
}

fn score_at_least(scores: &Vec<Option<u32>>, idx: usize, sc: u32) -> (b: bool)
    requires
        idx < scores@.len(),
        scores@[idx as int] is Some,
    ensures
        b == (scores@[idx as int]->0 >= sc),
{
    match scores[idx] {
        Some(x) => x >= sc,
        None => true,
    }
}

/// Ranks the entries that have a score.
#[verifier::spinoff_prover]
pub fn rank_by_score(scores: &Vec<Option<u32>>) -> (r: Vec<usize>)
    ensures
        is_ranking(scores@, r@),
{
    let ghost s = scores@;
    let mut r: Vec<usize> = Vec::new();
    let mut i: usize = 0;
    while i < scores.len()
        invariant
            i <= s.len(),
            s == scores@,
            forall|k: int| 0 <= k < r@.len() ==> (#[trigger] r@[k]) < i && s[r@[k] as int] is Some,
            forall|j: int|
                0 <= j < i && (#[trigger] s[j]) is Some ==> exists|k: int|
                    0 <= k < r@.len() && r@[k] == j,
            forall|k: int, l: int|
                0 <= k < l < r@.len() ==> ranks_before(s, #[trigger] r@[k] as int, #[trigger] r@[l] as int),
        decreases s.len() - i,
    {
        if let Some(sc) = scores[i] {
            let mut k: usize = 0;
            while k < r.len() && score_at_least(scores, r[k], sc)
                invariant
                    k <= r@.len(),
                    s == scores@,
                    i < s.len(),
                    s[i as int] == Some(sc),
                    forall|m: int| 0 <= m < r@.len() ==> (#[trigger] r@[m]) < i && s[r@[m] as int] is Some,
                    forall|m: int| 0 <= m < k ==> s[(#[trigger] r@[m]) as int]->0 >= sc,
                decreases r@.len() - k,
            {
                k = k + 1;
            }
            let ghost old_r = r@;
            proof {
                assert forall|m: int| k <= m < old_r.len() implies s[(#[trigger] old_r[m]) as int]->0 < sc by {
                    if m > k {
                        assert(ranks_before(s, old_r[k as int] as int, old_r[m] as int));
                    }
                }
            }
            r.insert(k, i);
            proof {
                assert forall|j: int| 0 <= j < i + 1 && (#[trigger] s[j]) is Some implies exists|m: int|
                    0 <= m < r@.len() && r@[m] == j by {
                    if j == i {
                        assert(r@[k as int] == i);
                    } else {
                        let m0 = choose|m: int| 0 <= m < old_r.len() && old_r[m] == j;
                        if m0 < k {
                            assert(r@[m0] == j);
                        } else {
                            assert(r@[m0 + 1] == j);
                        }
                    }
                }
                assert forall|a: int, b: int| 0 <= a < b < r@.len() implies ranks_before(
                    s,
                    #[trigger] r@[a] as int,
                    #[trigger] r@[b] as int,
                ) by {
                    if b < k {
                        assert(ranks_before(s, old_r[a] as int, old_r[b] as int));
                    } else if b == k {
                        assert(r@[a] == old_r[a]);
                    } else if a < k {
                        assert(r@[b] == old_r[b - 1]);
                        assert(r@[a] == old_r[a]);
                    } else if a == k {
                        assert(r@[b] == old_r[b - 1]);
                    } else {
                        assert(ranks_before(s, old_r[a - 1] as int, old_r[b - 1] as int));
                    }
                }
            }
        }
        i = i + 1;
    }
    r
}

/// `s` in ascending order.
pub open spec fn ascending(s: Seq<u32>) -> bool {
    forall|a: int, b: int| 0 <= a < b < s.len() ==> #[trigger] s[a] <= #[trigger] s[b]
}

/// `v` sorted ascending, as `sort_unstable` leaves it.
pub fn sort_positions(v: &Vec<u32>) -> (r: Vec<u32>)
    ensures
        ascending(r@),
        r@.to_multiset() == v@.to_multiset(),
{
    broadcast use vstd::seq_lib::to_multiset_insert;
    let mut r: Vec<u32> = Vec::new();
    let mut i: usize = 0;
    assert(v@.take(0) =~= r@);
    while i < v.len()
        invariant
            i <= v@.len(),
            ascending(r@),
            r@.to_multiset() == v@.take(i as int).to_multiset(),
        decreases v@.len() - i,
    {
        let x = v[i];
        let mut k: usize = 0;
        while k < r.len() && r[k] <= x
            invariant
                k <= r@.len(),
                forall|m: int| 0 <= m < k ==> r@[m] <= x,
            decreases r@.len() - k,
        {
            k = k + 1;
        }
        let ghost old_r = r@;
        r.insert(k, x);
        proof {
            vstd::seq_lib::to_multiset_build(v@.take(i as int), x);
            vstd::seq_lib::to_multiset_insert(old_r, k as int, x);
            assert(r@ == old_r.insert(k as int, x));
            assert(v@.take(i as int + 1) =~= v@.take(i as int).push(x));
            assert forall|a: int, b: int| 0 <= a < b < r@.len() implies #[trigger] r@[a] <= #[trigger] r@[b] by {
                if b < k {
                } else if b == k {
                } else if a < k {
                    assert(r@[b] == old_r[b - 1]);
                } else if a == k {
                    assert(old_r[k as int] > x);
                    assert(r@[b] == old_r[b - 1]);
                } else {
                    assert(r@[b] == old_r[b - 1]);
                    assert(r@[a] == old_r[a - 1]);
                }
            }
        }
        i = i + 1;
    }
    assert(v@.take(v@.len() as int) =~= v@);
    r
}


/// Every entry is short enough for nucleo.
pub open spec fn items_fit(items: Seq<String>) -> bool {
    forall|i: int| 0 <= i < items.len() ==> (#[trigger] items[i])@.len() <= u32::MAX
}

/// The score of each entry for `query`.
pub open spec fn scores_for(query: Seq<char>, items: Seq<String>) -> Seq<Option<u32>> {
    items.map_values(|it: String| fuzzy_score(query, it@))
}

/// The entries in list order.
pub open spec fn all_in_order(n: nat) -> Seq<usize> {
    Seq::new(n, |i: int| i as usize)
}

fn copy_u32s(v: &Vec<u32>) -> (r: Vec<u32>)
    ensures
        r@ == v@,
{
    let mut r: Vec<u32> = Vec::new();
    let mut i: usize = 0;
    while i < v.len()
        invariant
            i <= v@.len(),
            r@ == v@.take(i as int),
        decreases v@.len() - i,
    {
        r.push(v[i]);
        assert(v@.take(i as int + 1) =~= v@.take(i as int).push(v@[i as int]));
        i = i + 1;
    }
    assert(v@.take(v@.len() as int) =~= v@);
    r
}

/// A fuzzy matcher over the picker's entries.
pub struct FuzzyFilter {
    matcher: Matcher,
}

impl FuzzyFilter {
    pub fn new() -> Self {
        FuzzyFilter { matcher: new_matcher() }
    }

    /// The entries that match `query`, best first; all of them in order when
    /// the query is empty.
    pub fn filter(&mut self, query: &str, items: &[String]) -> (r: Vec<usize>)
        requires
            items_fit(items@),
            query_fits(query@),
        ensures
            query@.len() == 0 ==> r@ == all_in_order(items@.len()),
            query@.len() > 0 ==> is_ranking(scores_for(query@, items@), r@),
    {
        if query.is_empty() {
            let mut r: Vec<usize> = Vec::new();
            let mut i: usize = 0;
            while i < items.len()
                invariant
                    i <= items@.len(),
                    r@ == all_in_order(i as nat),
                decreases items@.len() - i,
            {
                r.push(i);
                assert(r@ =~= all_in_order(i as nat + 1));
                i = i + 1;
            }
            return r;
        }
        let ghost sv = scores_for(query@, items@);
        let mut scores: Vec<Option<u32>> = Vec::new();
        let mut i: usize = 0;
        while i < items.len()
            invariant
                i <= items@.len(),
                items_fit(items@),
                query_fits(query@),
                sv == scores_for(query@, items@),
                scores@ == sv.take(i as int),
            decreases items@.len() - i,
        {
            let sc = score_item(&mut self.matcher, query, items[i].as_str());
            scores.push(sc);
            assert(scores@ =~= sv.take(i as int + 1));
            i = i + 1;
        }
        assert(sv.take(items@.len() as int) =~= sv);
        rank_by_score(&scores)
    }

    /// Like `filter`, with the matched character positions of each entry in
    /// ascending order (none when the query is empty).
    pub fn filter_with_indices(&mut self, query: &str, items: &[String]) -> (r: Vec<(usize, Vec<u32>)>)
        requires
            items_fit(items@),
            query_fits(query@),
        ensures
            query@.len() == 0 ==> r@.len() == items@.len() && forall|k: int|
                0 <= k < r@.len() ==> (#[trigger] r@[k]).0 == k && r@[k].1@.len() == 0,
            query@.len() > 0 ==> {
                &&& is_ranking(
                    scores_for(query@, items@),
                    r@.map_values(|e: (usize, Vec<u32>)| e.0),
                )
                &&& forall|k: int|
                    0 <= k < r@.len() ==> fuzzy_match(query@, items@[(#[trigger] r@[k]).0 as int]@) is Some
                        && ascending(r@[k].1@) && r@[k].1@.to_multiset()
                        == (fuzzy_match(query@, items@[r@[k].0 as int]@)->0).1.to_multiset()
            },
    {
        let n = items.len();
        if query.is_empty() {
            let mut r: Vec<(usize, Vec<u32>)> = Vec::new();
            let mut i: usize = 0;
            while i < n
                invariant
                    i <= n == items@.len(),
                    r@.len() == i,
                    forall|k: int| 0 <= k < i ==> (#[trigger] r@[k]).0 == k && r@[k].1@.len() == 0,
                decreases n - i,
            {
                r.push((i, Vec::new()));
                i = i + 1;
            }
            return r;
        }
        let ghost sv = scores_for(query@, items@);
        let mut scores: Vec<Option<u32>> = Vec::new();
        let mut positions: Vec<Vec<u32>> = Vec::new();
        let mut i: usize = 0;
        while i < n
            invariant
                i <= n == items@.len(),
                items_fit(items@),
                query_fits(query@),
                sv == scores_for(query@, items@),
                scores@ == sv.take(i as int),
                positions@.len() == i,
                forall|j: int|
                    0 <= j < i && (#[trigger] scores@[j]) is Some ==> fuzzy_match(query@, items@[j]@) is Some
                        && ascending(positions@[j]@)
                        && positions@[j]@.to_multiset() == (fuzzy_match(
                        query@,
                        items@[j]@,
                    )->0).1.to_multiset(),
            decreases n - i,
        {
            match match_item(&mut self.matcher, query, items[i].as_str()) {
                Some((sc, idx)) => {
                    scores.push(Some(sc));
                    positions.push(sort_positions(&idx));
                },
                None => {
                    scores.push(None);
                    positions.push(Vec::new());
                },
            }
            assert(scores@ =~= sv.take(i as int + 1));
            i = i + 1;
        }
        assert(sv.take(n as int) =~= sv);
        let ranked = rank_by_score(&scores);
        let mut r: Vec<(usize, Vec<u32>)> = Vec::new();
        let mut k: usize = 0;
        while k < ranked.len()
            invariant
                k <= ranked@.len(),
                is_ranking(sv, ranked@),
                sv == scores@,
                n == items@.len() == positions@.len() == sv.len(),
                r@.map_values(|e: (usize, Vec<u32>)| e.0) == ranked@.take(k as int),
                forall|j: int|
                    0 <= j < n && (#[trigger] scores@[j]) is Some ==> fuzzy_match(query@, items@[j]@) is Some
                        && ascending(positions@[j]@)
                        && positions@[j]@.to_multiset() == (fuzzy_match(
                        query@,
                        items@[j]@,
                    )->0).1.to_multiset(),
                forall|m: int|
                    0 <= m < r@.len() ==> fuzzy_match(query@, items@[(#[trigger] r@[m]).0 as int]@) is Some
                        && ascending(r@[m].1@) && r@[m].1@.to_multiset()
                        == (fuzzy_match(query@, items@[r@[m].0 as int]@)->0).1.to_multiset(),
            decreases ranked@.len() - k,
        {
            let idx = ranked[k];
            assert(scores@[idx as int] is Some);
            let p = copy_u32s(&positions[idx]);
            let ghost before = r@.map_values(|e: (usize, Vec<u32>)| e.0);
            r.push((idx, p));
            assert(r@.map_values(|e: (usize, Vec<u32>)| e.0) =~= before.push(idx));
            assert(ranked@.take(k as int + 1) =~= ranked@.take(k as int).push(idx));
            k = k + 1;
        }
        assert(ranked@.take(ranked@.len() as int) =~= ranked@);
        r
    }
}

/// A ranking is determined by the scores: two rankings of the same scores
/// are the same list.
pub proof fn lemma_ranking_unique(scores: Seq<Option<u32>>, r1: Seq<usize>, r2: Seq<usize>)
    requires
        is_ranking(scores, r1),
        is_ranking(scores, r2),
    ensures
        r1 == r2,
    decreases r1.len(),
{
    if r1.len() == 0 {
        if r2.len() > 0 {
            let k = choose|k: int| 0 <= k < r1.len() && r1[k] == r2[0];
        }
        assert(r1 =~= r2);
    } else {
        let a = r1[0];
        assert(exists|k: int| 0 <= k < r2.len() && r2[k] == r1[0]);
        let ka = choose|k: int| 0 <= k < r2.len() && r2[k] == a;
        let b = r2[0];
        assert(exists|k: int| 0 <= k < r1.len() && r1[k] == r2[0]);
        let kb = choose|k: int| 0 <= k < r1.len() && r1[k] == b;
        if a != b {
            assert(ranks_before(scores, r2[0] as int, r2[ka] as int));
            assert(ranks_before(scores, r1[0] as int, r1[kb] as int));
            assert(false);
        }
        let s2 = scores.update(a as int, None);
        let t1 = r1.drop_first();
        let t2 = r2.drop_first();
        assert forall|k: int| 0 <= k < t1.len() implies (#[trigger] t1[k]) < s2.len() && s2[t1[k] as int] is Some by {
            assert(ranks_before(scores, r1[0] as int, r1[k + 1] as int));
        }
        assert forall|k: int| 0 <= k < t2.len() implies (#[trigger] t2[k]) < s2.len() && s2[t2[k] as int] is Some by {
            assert(ranks_before(scores, r2[0] as int, r2[k + 1] as int));
        }
        assert forall|i: int| 0 <= i < s2.len() && (#[trigger] s2[i]) is Some implies exists|k: int|
            0 <= k < t1.len() && t1[k] == i by {
            assert(scores[i] is Some);
            let k = choose|k: int| 0 <= k < r1.len() && r1[k] == i;
            assert(t1[k - 1] == i);
        }
        assert forall|i: int| 0 <= i < s2.len() && (#[trigger] s2[i]) is Some implies exists|k: int|
            0 <= k < t2.len() && t2[k] == i by {
            assert(scores[i] is Some);
            let k = choose|k: int| 0 <= k < r2.len() && r2[k] == i;
            assert(t2[k - 1] == i);
        }
        assert forall|k: int, l: int| 0 <= k < l < t1.len() implies ranks_before(
            s2,
            #[trigger] t1[k] as int,
            #[trigger] t1[l] as int,
        ) by {
            assert(ranks_before(scores, r1[k + 1] as int, r1[l + 1] as int));
            assert(ranks_before(scores, r1[0] as int, r1[k + 1] as int));
            assert(ranks_before(scores, r1[0] as int, r1[l + 1] as int));
        }
        assert forall|k: int, l: int| 0 <= k < l < t2.len() implies ranks_before(
            s2,
            #[trigger] t2[k] as int,
            #[trigger] t2[l] as int,
        ) by {
            assert(ranks_before(scores, r2[k + 1] as int, r2[l + 1] as int));
            assert(ranks_before(scores, r2[0] as int, r2[k + 1] as int));
            assert(ranks_before(scores, r2[0] as int, r2[l + 1] as int));
        }
        lemma_ranking_unique(s2, t1, t2);
        assert forall|k: int| 0 <= k < r1.len() implies r1[k] == r2[k] by {
            if k > 0 {
                assert(t1[k - 1] == t2[k - 1]);
            }
        }
        assert(r1 =~= r2);
    }
}

/// `filter` and `filter_with_indices` list the same entries in the same
/// order: `by_filter` is a result of `filter(query, items)` and
/// `by_indices` one of `filter_with_indices(query, items)`, both for a
/// non-empty query.
pub proof fn lemma_filters_agree(
    query: Seq<char>,
    items: Seq<String>,
    by_filter: Seq<usize>,
    by_indices: Seq<(usize, Vec<u32>)>,
)
    requires
        is_ranking(scores_for(query, items), by_filter),
        is_ranking(scores_for(query, items), by_indices.map_values(|e: (usize, Vec<u32>)| e.0)),
    ensures
        by_indices.map_values(|e: (usize, Vec<u32>)| e.0) == by_filter,
{
    lemma_ranking_unique(
        scores_for(query, items),
        by_indices.map_values(|e: (usize, Vec<u32>)| e.0),
        by_filter,
    );
}

} // verus!
