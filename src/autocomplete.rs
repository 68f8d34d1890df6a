//! The autocomplete index: names mapped to values, queried by contiguous
//! substring and ranked by match position, then by name.
use std::ops::Range;
use vstd::prelude::*;
use vstd::utf8::{encode_utf8, encode_utf8_decode_utf8};

use crate::text::{
    contains_bytes, find_bytes, first_occurrence, lemma_first_occurrence, lemma_lex_irreflexive,
    lemma_lex_total, lemma_lex_transitive, lex_less, lex_lt,
};

verus! {

/// The UTF-8 bytes of a name or a query.
pub open spec fn bytes_of(s: Seq<char>) -> Seq<u8> {
    encode_utf8(s)
}

/// Byte offset at which query `q` first occurs in name `n`; none for an
/// empty query or when `q` does not occur.
pub open spec fn match_start(q: Seq<char>, n: Seq<char>) -> Option<int> {
    if bytes_of(q).len() == 0 {
        None
    } else {
        first_occurrence(bytes_of(n), bytes_of(q))
    }
}

pub open spec fn matches_query(q: Seq<char>, n: Seq<char>) -> bool {
    match_start(q, n) is Some
}

/// Name `a` is ranked ahead of name `b` for query `q`: an earlier match
/// wins, and equal match positions fall back to the order of the names.
pub open spec fn ranks_before(q: Seq<char>, a: Seq<char>, b: Seq<char>) -> bool {
    let sa = match_start(q, a)->0;
    let sb = match_start(q, b)->0;
    sa < sb || (sa == sb && lex_lt(bytes_of(a), bytes_of(b)))
}

/// The match ranges reported for name `n`: one byte range where the query
/// first occurs, or none.
pub open spec fn match_ranges_of(q: Seq<char>, n: Seq<char>, m: Seq<Range<usize>>) -> bool {
    match match_start(q, n) {
        Some(s) => m.len() == 1 && m[0].start == s && m[0].end == s + bytes_of(q).len(),
        None => m.len() == 0,
    }
}

/// `r` lists, best first, the `k` best-ranked names of `pool` that match
/// `q`, or all of them where fewer match.
pub open spec fn is_top_ranking(
    q: Seq<char>,
    pool: Set<Seq<char>>,
    k: nat,
    r: Seq<Seq<char>>,
) -> bool {
    &&& r.len() <= k
    &&& forall|i: int| 0 <= i < r.len() ==> pool.contains(#[trigger] r[i]) && matches_query(q, r[i])
    &&& forall|i: int, j: int| 0 <= i < j < r.len() ==> ranks_before(q, r[i], r[j])
    &&& forall|n: Seq<char>|
        pool.contains(n) && matches_query(q, n) && !r.contains(n) ==> r.len() == k && forall|
            i: int,
        | 0 <= i < r.len() ==> ranks_before(q, r[i], n)
}

pub open spec fn distinct_names(names: Seq<Seq<char>>) -> bool {
    forall|i: int, j: int| 0 <= i < j < names.len() ==> names[i] != names[j]
}

pub open spec fn views_of(v: Seq<String>) -> Seq<Seq<char>> {
    v.map_values(|s: String| s@)
}

/// Two distinct names have distinct encodings.
pub proof fn lemma_bytes_injective(a: Seq<char>, b: Seq<char>)
    requires
        a != b,
    ensures
        bytes_of(a) != bytes_of(b),
{
    encode_utf8_decode_utf8(a);
    encode_utf8_decode_utf8(b);
}

/// Of two distinct matching names, one is ranked ahead of the other.
pub proof fn lemma_rank_total(q: Seq<char>, a: Seq<char>, b: Seq<char>)
    requires
        a != b,
    ensures
        ranks_before(q, a, b) || ranks_before(q, b, a),
{
    lemma_bytes_injective(a, b);
    lemma_lex_total(bytes_of(a), bytes_of(b));
}

pub proof fn lemma_rank_transitive(q: Seq<char>, a: Seq<char>, b: Seq<char>, c: Seq<char>)
    requires
        ranks_before(q, a, b),
        ranks_before(q, b, c),
    ensures
        ranks_before(q, a, c),
{
    if lex_lt(bytes_of(a), bytes_of(b)) && lex_lt(bytes_of(b), bytes_of(c)) {
        lemma_lex_transitive(bytes_of(a), bytes_of(b), bytes_of(c));
    }
}

pub proof fn lemma_rank_irreflexive(q: Seq<char>, a: Seq<char>)
    ensures
        !ranks_before(q, a, a),
{
    lemma_lex_irreflexive(bytes_of(a));
}

/// The names of `pool` that match `q`.
pub open spec fn matching_names(q: Seq<char>, pool: Set<Seq<char>>) -> Set<Seq<char>> {
    pool.filter(|n: Seq<char>| matches_query(q, n))
}

/// A ranking holds no name twice.
pub proof fn lemma_ranking_distinct(q: Seq<char>, pool: Set<Seq<char>>, k: nat, r: Seq<Seq<char>>)
    requires
        is_top_ranking(q, pool, k, r),
    ensures
        r.no_duplicates(),
{
    assert forall|i: int, j: int| 0 <= i < r.len() && 0 <= j < r.len() && i != j implies r[i] != r[j] by {
        if i < j {
            lemma_rank_irreflexive(q, r[i]);
        } else {
            lemma_rank_irreflexive(q, r[j]);
        }
    }
}

/// For a non-empty query, when no more than `k` names of the index contain
/// it, the `k` best results are exactly the names that contain the query.
pub proof fn lemma_query_returns_containing_names(
    q: Seq<char>,
    pool: Set<Seq<char>>,
    k: nat,
    r: Seq<Seq<char>>,
)
    requires
        is_top_ranking(q, pool, k, r),
        bytes_of(q).len() > 0,
        pool.finite(),
        matching_names(q, pool).len() <= k,
    ensures
        forall|n: Seq<char>|
            r.contains(n) <==> pool.contains(n) && contains_bytes(bytes_of(n), bytes_of(q)),
{
    assert forall|n: Seq<char>|
        r.contains(n) <==> pool.contains(n) && contains_bytes(bytes_of(n), bytes_of(q)) by {
        lemma_first_occurrence(bytes_of(n), bytes_of(q));
        if r.contains(n) {
            let i = choose|i: int| 0 <= i < r.len() && r[i] == n;
            assert(pool.contains(r[i]) && matches_query(q, r[i]));
        }
        if pool.contains(n) && contains_bytes(bytes_of(n), bytes_of(q)) && !r.contains(n) {
            let m = matching_names(q, pool);
            pool.lemma_len_filter(|x: Seq<char>| matches_query(q, x));
            lemma_ranking_distinct(q, pool, k, r);
            r.unique_seq_to_set();
            assert(m.contains(n));
            assert(r.to_set().subset_of(m.remove(n))) by {
                assert forall|x: Seq<char>| r.to_set().contains(x) implies m.remove(n).contains(x) by {
                    let i = choose|i: int| 0 <= i < r.len() && r[i] == x;
                    assert(pool.contains(r[i]) && matches_query(q, r[i]));
                }
            }
            vstd::set_lib::lemma_len_subset(r.to_set(), m.remove(n));
        }
    }
}

/// The number of names that `min(k, matching)` gives.
pub open spec fn capped(k: nat, n: nat) -> nat {
    if k < n {
        k
    } else {
        n
    }
}

/// Over a finite pool, a ranking holds `k` names, or every matching name
/// where fewer match.
pub proof fn lemma_ranking_length(q: Seq<char>, pool: Set<Seq<char>>, k: nat, r: Seq<Seq<char>>)
    requires
        is_top_ranking(q, pool, k, r),
        pool.finite(),
    ensures
        r.len() == capped(k, matching_names(q, pool).len()),
{
    let m = matching_names(q, pool);
    pool.lemma_len_filter(|x: Seq<char>| matches_query(q, x));
    lemma_ranking_distinct(q, pool, k, r);
    r.unique_seq_to_set();
    assert(r.to_set().subset_of(m)) by {
        assert forall|x: Seq<char>| r.to_set().contains(x) implies m.contains(x) by {
            let i = choose|i: int| 0 <= i < r.len() && r[i] == x;
            assert(pool.contains(r[i]) && matches_query(q, r[i]));
        }
    }
    vstd::set_lib::lemma_len_subset(r.to_set(), m);
    if r.len() < k {
        assert(m.subset_of(r.to_set())) by {
            assert forall|x: Seq<char>| m.contains(x) implies r.to_set().contains(x) by {
                if !r.contains(x) {
                    assert(r.len() == k);
                }
            }
        }
        vstd::set_lib::lemma_len_subset(m, r.to_set());
    }
}

/// An empty query returns nothing, whatever the index holds.
pub proof fn lemma_empty_query_returns_nothing(
    q: Seq<char>,
    pool: Set<Seq<char>>,
    k: nat,
    r: Seq<Seq<char>>,
)
    requires
        is_top_ranking(q, pool, k, r),
        q.len() == 0,
    ensures
        r.len() == 0,
{
    assert(bytes_of(q) =~= Seq::<u8>::empty());
    if r.len() > 0 {
        assert(matches_query(q, r[0]));
    }
}

/// The text of a reported match range is the query.
pub proof fn lemma_match_range_is_query(q: Seq<char>, n: Seq<char>, m: Seq<Range<usize>>)
    requires
        match_ranges_of(q, n, m),
        m.len() > 0,
    ensures
        bytes_of(n).subrange(m[0].start as int, m[0].end as int) == bytes_of(q),
{
    lemma_first_occurrence(bytes_of(n), bytes_of(q));
}

/// One ranked result.
#[derive(Debug, PartialEq)]
pub struct AutocompleteSuggestion<T: Clone> {
    pub name: String,
    pub matches: Vec<Range<usize>>,
    pub value: T,
}

/// A name that matched a query, with where it matched.
#[derive(Debug, PartialEq, Eq)]
pub struct CandidateSuggestion<'a> {
    pub name: &'a str,
    pub matches: Vec<Range<usize>>,
}

/// Where `input` occurs in `name`: the byte range of its first occurrence,
/// or nothing when it does not occur or is empty.
pub fn get_matches(input: &str, name: &str) -> (r: Vec<Range<usize>>)
    ensures
        match_ranges_of(input@, name@, r@),
{
    let mut r: Vec<Range<usize>> = Vec::new();
    let needle = input.as_bytes();
    let hay = utf8_bytes(name);
    if needle.len() > 0 {
        match find_bytes(hay, needle) {
            Some(start) => {
                proof {
                    lemma_first_occurrence(hay@, needle@);
                }
                r.push(Range { start: start, end: start + needle.len() });
            },
            None => {},
        }
    }
    r
}

/// The bytes of `s`.
fn utf8_bytes(s: &str) -> (b: &[u8])
    ensures
        b@ == bytes_of(s@),
        b@.len() <= usize::MAX,
{
    let b = s.as_bytes();
    let _n = b.len();
    b
}

/// Whether candidate `a` is ranked ahead of candidate `b`.
fn precedes(a: &CandidateSuggestion, b: &CandidateSuggestion) -> (r: bool)
    requires
        a.matches@.len() >= 1,
        b.matches@.len() >= 1,
    ensures
        r == (a.matches@[0].start < b.matches@[0].start || (a.matches@[0].start
            == b.matches@[0].start && lex_lt(bytes_of(a.name@), bytes_of(b.name@)))),
{
    let sa = a.matches[0].start;
    let sb = b.matches[0].start;
    if sa != sb {
        sa < sb
    } else {
        lex_less(a.name.as_bytes(), b.name.as_bytes())
    }
}

pub open spec fn candidate_names(c: Seq<CandidateSuggestion>) -> Seq<Seq<char>> {
    c.map_values(|s: CandidateSuggestion| s.name@)
}

/// Candidates ranked best first, each matching the query `q` where it says.
pub open spec fn ranked_candidates(q: Seq<char>, c: Seq<CandidateSuggestion>) -> bool {
    &&& forall|k: int|
        0 <= k < c.len() ==> match_ranges_of(q, #[trigger] c[k].name@, c[k].matches@)
            && matches_query(q, c[k].name@)
    &&& forall|k: int, l: int| 0 <= k < l < c.len() ==> ranks_before(q, c[k].name@, c[l].name@)
}

/// Inserts `cand` where its rank puts it, returning the position.
fn insert_ranked<'a>(
    cands: &mut Vec<CandidateSuggestion<'a>>,
    cand: CandidateSuggestion<'a>,
    q: Ghost<Seq<char>>,
) -> (p: usize)
    requires
        ranked_candidates(q@, old(cands)@),
        match_ranges_of(q@, cand.name@, cand.matches@),
        matches_query(q@, cand.name@),
        forall|k: int| 0 <= k < old(cands)@.len() ==> #[trigger] old(cands)@[k].name@ != cand.name@,
    ensures
        p <= old(cands)@.len(),
        final(cands)@ == old(cands)@.insert(p as int, cand),
        ranked_candidates(q@, final(cands)@),
{
    let ghost cn = cand.name@;
    let mut p: usize = 0;
    let mut found = false;
    while !found && p < cands.len()
        invariant
            p <= cands@.len(),
            ranked_candidates(q@, cands@),
            cand.matches@.len() == 1,
            match_ranges_of(q@, cn, cand.matches@),
            cn == cand.name@,
            found ==> p < cands@.len() && ranks_before(q@, cn, cands@[p as int].name@),
            forall|l: int| 0 <= l < p ==> !ranks_before(q@, cn, #[trigger] cands@[l].name@),
        decreases cands@.len() - p + (if found { 0int } else { 1int }),
    {
        assert(match_ranges_of(q@, cands@[p as int].name@, cands@[p as int].matches@));
        if precedes(&cand, &cands[p]) {
            found = true;
        } else {
            p += 1;
        }
    }
    let ghost old_cands = cands@;
    assert forall|l: int| 0 <= l < p implies ranks_before(q@, #[trigger] old_cands[l].name@, cn) by {
        lemma_rank_total(q@, cn, old_cands[l].name@);
    }
    assert forall|l: int| p <= l < old_cands.len() implies ranks_before(q@, cn, #[trigger] old_cands[l].name@) by {
        if l > p {
            lemma_rank_transitive(q@, cn, old_cands[p as int].name@, old_cands[l].name@);
        }
    }
    cands.insert(p, cand);
    assert forall|k: int, l: int| 0 <= k < l < cands@.len() implies ranks_before(q@, cands@[k].name@, cands@[l].name@) by {
        if k < p && l < p {
        } else if k < p && l == p {
        } else if k < p {
            assert(cands@[l] == old_cands[l - 1]);
        } else if k == p {
            assert(cands@[l] == old_cands[l - 1]);
        } else {
            assert(cands@[k] == old_cands[k - 1]);
            assert(cands@[l] == old_cands[l - 1]);
        }
    }
    assert forall|k: int| 0 <= k < cands@.len() implies match_ranges_of(q@, #[trigger] cands@[k].name@, cands@[k].matches@)
        && matches_query(q@, cands@[k].name@) by {
        if k < p {
            assert(cands@[k] == old_cands[k]);
        } else if k > p {
            assert(cands@[k] == old_cands[k - 1]);
        }
    }
    p
}

/// The best `max_results` names for `input`, best first: earliest match,
/// then name order.
pub fn get_best_candidates<'a>(input: &str, names: &'a Vec<String>, max_results: usize) -> (r: Vec<
    CandidateSuggestion<'a>,
>)
    requires
        distinct_names(views_of(names@)),
    ensures
        is_top_ranking(input@, views_of(names@).to_set(), max_results as nat, candidate_names(r@)),
        forall|i: int| 0 <= i < r@.len() ==> match_ranges_of(input@, #[trigger] r@[i].name@, r@[i].matches@),
{
    let ghost q = input@;
    let ghost pool = views_of(names@);
    let mut cands: Vec<CandidateSuggestion<'a>> = Vec::new();
    let mut i: usize = 0;
    while i < names.len()
        invariant
            i <= names@.len(),
            q == input@,
            pool == views_of(names@),
            distinct_names(pool),
            ranked_candidates(q, cands@),
            forall|k: int|
                0 <= k < cands@.len() ==> exists|j: int|
                    0 <= j < i && pool[j] == #[trigger] cands@[k].name@,
            forall|j: int|
                0 <= j < i && matches_query(q, #[trigger] pool[j]) ==> exists|k: int|
                    0 <= k < cands@.len() && cands@[k].name@ == pool[j],
        decreases names@.len() - i,
    {
        let name: &'a str = names[i].as_str();
        assert(name@ == pool[i as int]);
        let matches = get_matches(input, name);
        if matches.len() > 0 {
            let cand = CandidateSuggestion { name: name, matches: matches };
            let ghost old_cands = cands@;
            assert forall|k: int| 0 <= k < old_cands.len() implies #[trigger] old_cands[k].name@ != name@ by {
                let j = choose|j: int| 0 <= j < i && pool[j] == old_cands[k].name@;
                assert(pool[j] != pool[i as int]);
            }
            let p = insert_ranked(&mut cands, cand, Ghost(q));
            assert forall|k: int| 0 <= k < cands@.len() implies exists|j: int|
                0 <= j < i + 1 && pool[j] == #[trigger] cands@[k].name@ by {
                if k < p {
                    assert(cands@[k] == old_cands[k]);
                } else if k == p {
                    assert(pool[i as int] == cands@[k].name@);
                } else {
                    assert(cands@[k] == old_cands[k - 1]);
                }
            }
            assert forall|j: int| 0 <= j < i + 1 && matches_query(q, #[trigger] pool[j]) implies exists|k: int|
                0 <= k < cands@.len() && cands@[k].name@ == pool[j] by {
                if j == i {
                    assert(cands@[p as int].name@ == pool[j]);
                } else {
                    let k = choose|k: int| 0 <= k < old_cands.len() && old_cands[k].name@ == pool[j];
                    if k < p {
                        assert(cands@[k] == old_cands[k]);
                    } else {
                        assert(cands@[k + 1] == old_cands[k]);
                    }
                }
            }
        } else {
            assert forall|j: int| 0 <= j < i + 1 && matches_query(q, #[trigger] pool[j]) implies exists|k: int|
                0 <= k < cands@.len() && cands@[k].name@ == pool[j] by {
                if j == i {
                    assert(!matches_query(q, pool[j]));
                }
            }
        }
        i += 1;
    }
    let ghost full = cands@;
    cands.truncate(max_results);
    proof {
        let r = candidate_names(cands@);
        assert forall|i: int| 0 <= i < r.len() implies pool.to_set().contains(#[trigger] r[i]) && matches_query(q, r[i]) by {
            let j = choose|j: int| 0 <= j < names@.len() && pool[j] == full[i].name@;
            assert(pool.contains(r[i]));
        }
        assert forall|n: Seq<char>|
            pool.to_set().contains(n) && matches_query(q, n) && !r.contains(n) implies r.len() == max_results && forall|
                i: int,
            | 0 <= i < r.len() ==> ranks_before(q, r[i], n) by {
            let j = choose|j: int| 0 <= j < pool.len() && pool[j] == n;
            let k = choose|k: int| 0 <= k < full.len() && full[k].name@ == pool[j];
            if k < r.len() {
                assert(r[k] == n);
            }
        }
    }
    cands
}

/// Names mapped to values, answering ranked substring queries.
pub struct AutocompleteMap<T: Clone> {
    names: Vec<String>,
    values: Vec<T>,
}

impl<T: Clone> AutocompleteMap<T> {
    /// The names and values line up, and no name is held twice.
    pub closed spec fn wf(&self) -> bool {
        &&& self.names@.len() == self.values@.len()
        &&& distinct_names(views_of(self.names@))
    }

    /// The index holds finitely many names.
    pub proof fn lemma_domain_finite(&self)
        requires
            self.wf(),
        ensures
            self.view().dom().finite(),
    {
        assert(views_of(self.names@).to_set() =~= self.view().dom());
        vstd::seq_lib::seq_to_set_is_finite(views_of(self.names@));
    }

    /// When the index holds no more names than are asked for, a non-empty
    /// query returns exactly the names that contain it.
    pub proof fn lemma_query_complete(&self, q: Seq<char>, k: nat, r: Seq<Seq<char>>)
        requires
            self.wf(),
            is_top_ranking(q, self.view().dom(), k, r),
            bytes_of(q).len() > 0,
            self.view().dom().len() <= k,
        ensures
            forall|n: Seq<char>|
                r.contains(n) <==> self.view().contains_key(n) && contains_bytes(bytes_of(n), bytes_of(q)),
    {
        self.lemma_domain_finite();
        self.view().dom().lemma_len_filter(|x: Seq<char>| matches_query(q, x));
        lemma_query_returns_containing_names(q, self.view().dom(), k, r);
    }

    /// The index as a map from name to value.
    pub closed spec fn view(&self) -> Map<Seq<char>, T> {
        Map::new(
            |k: Seq<char>| views_of(self.names@).contains(k),
            |k: Seq<char>|
                self.values@[choose|i: int| 0 <= i < self.names@.len() && self.names@[i]@ == k],
        )
    }

    proof fn lemma_view_at(&self, i: int)
        requires
            self.wf(),
            0 <= i < self.names@.len(),
        ensures
            self.view().contains_key(self.names@[i]@),
            self.view()[self.names@[i]@] == self.values@[i],
    {
        assert(views_of(self.names@)[i] == self.names@[i]@);
        let j = choose|j: int| 0 <= j < self.names@.len() && self.names@[j]@ == self.names@[i]@;
        if j != i {
            assert(views_of(self.names@)[j] == self.names@[j]@);
        }
    }

    pub fn new() -> (r: Self)
        ensures
            r.wf(),
            r.view() == Map::<Seq<char>, T>::empty(),
    {
        let r = AutocompleteMap { names: Vec::new(), values: Vec::new() };
        assert(r.view() =~= Map::<Seq<char>, T>::empty());
        r
    }

    /// Position of `name` among the names held.
    fn position(&self, name: &String) -> (r: Option<usize>)
        requires
            self.wf(),
        ensures
            match r {
                Some(i) => i < self.names@.len() && self.names@[i as int]@ == name@,
                None => !self.view().contains_key(name@),
            },
    {
        let mut i: usize = 0;
        while i < self.names.len()
            invariant
                i <= self.names@.len(),
                forall|j: int| 0 <= j < i ==> self.names@[j]@ != name@,
            decreases self.names@.len() - i,
        {
            if self.names[i] == *name {
                return Some(i);
            }
            i += 1;
        }
        proof {
            if views_of(self.names@).contains(name@) {
                let j = choose|j: int| 0 <= j < self.names@.len() && views_of(self.names@)[j] == name@;
                assert(self.names@[j]@ == name@);
            }
        }
        None
    }

    /// Maps `name` to `value`, returning the value it replaced.
    pub fn insert(&mut self, name: &str, value: T) -> (r: Option<T>)
        requires
            old(self).wf(),
        ensures
            final(self).wf(),
            final(self).view() == old(self).view().insert(name@, value),
            r == (if old(self).view().contains_key(name@) {
                Some(old(self).view()[name@])
            } else {
                None
            }),
    {
        let key = name.to_owned();
        match self.position(&key) {
            Some(i) => {
                proof {
                    self.lemma_view_at(i as int);
                }
                let ghost pre = *self;
                let mut previous = value;
                self.values.set_and_swap(i, &mut previous);
                proof {
                    assert(self.names@ == pre.names@);
                    assert forall|k: Seq<char>| #[trigger] self.view().contains_key(k) implies self.view()[k]
                        == pre.view().insert(name@, value)[k] by {
                        let j = choose|j: int| 0 <= j < self.names@.len() && views_of(self.names@)[j] == k;
                        self.lemma_view_at(j);
                        pre.lemma_view_at(j);
                        if j != i {
                            assert(views_of(self.names@)[i as int] == name@);
                            if j < i {
                                assert(views_of(self.names@)[j] != views_of(self.names@)[i as int]);
                            } else {
                                assert(views_of(self.names@)[i as int] != views_of(self.names@)[j]);
                            }
                        }
                    }
                    assert(self.view() =~= pre.view().insert(name@, value));
                }
                Some(previous)
            },
            None => {
                let ghost pre = *self;
                self.names.push(key);
                self.values.push(value);
                proof {
                    assert(views_of(self.names@) =~= views_of(pre.names@).push(name@));
                    assert(!views_of(pre.names@).contains(name@));
                    assert forall|x: int, y: int| 0 <= x < y < self.names@.len() implies views_of(self.names@)[x] != views_of(self.names@)[y] by {
                        if y == pre.names@.len() {
                            assert(views_of(pre.names@)[x] == views_of(self.names@)[x]);
                        } else {
                            assert(views_of(pre.names@)[x] == views_of(self.names@)[x]);
                            assert(views_of(pre.names@)[y] == views_of(self.names@)[y]);
                        }
                    }
                    assert forall|k: Seq<char>| #[trigger] self.view().contains_key(k) implies self.view()[k]
                        == pre.view().insert(name@, value)[k] by {
                        let j = choose|j: int| 0 <= j < self.names@.len() && views_of(self.names@)[j] == k;
                        self.lemma_view_at(j);
                        if j < pre.names@.len() {
                            pre.lemma_view_at(j);
                            assert(views_of(pre.names@)[j] == k);
                        }
                    }
                    assert forall|k: Seq<char>| pre.view().insert(name@, value).contains_key(k) implies #[trigger] self.view().contains_key(k) by {
                        if k != name@ {
                            let j = choose|j: int| 0 <= j < pre.names@.len() && views_of(pre.names@)[j] == k;
                            assert(views_of(self.names@)[j] == k);
                        } else {
                            assert(views_of(self.names@)[pre.names@.len() as int] == k);
                        }
                    }
                    assert(self.view() =~= pre.view().insert(name@, value));
                }
                None
            },
        }
    }

    /// Removes `name`, returning its value.
    pub fn remove(&mut self, name: &str) -> (r: Option<T>)
        requires
            old(self).wf(),
        ensures
            final(self).wf(),
            final(self).view() == old(self).view().remove(name@),
            r == (if old(self).view().contains_key(name@) {
                Some(old(self).view()[name@])
            } else {
                None
            }),
    {
        let key = name.to_owned();
        match self.position(&key) {
            Some(i) => {
                proof {
                    self.lemma_view_at(i as int);
                }
                let ghost pre = *self;
                self.names.remove(i);
                let previous = self.values.remove(i);
                proof {
                    let pv = views_of(pre.names@);
                    let sv = views_of(self.names@);
                    assert(sv =~= pv.remove(i as int));
                    assert forall|x: int, y: int| 0 <= x < y < self.names@.len() implies sv[x] != sv[y] by {
                        if x < i {
                            if y < i {
                            } else {
                                assert(sv[y] == pv[y + 1]);
                            }
                        } else {
                            assert(sv[x] == pv[x + 1]);
                            assert(sv[y] == pv[y + 1]);
                        }
                    }
                    assert forall|k: Seq<char>| #[trigger] self.view().contains_key(k) implies self.view()[k]
                        == pre.view().remove(name@)[k] && pre.view().remove(name@).contains_key(k) by {
                        let j = choose|j: int| 0 <= j < self.names@.len() && sv[j] == k;
                        self.lemma_view_at(j);
                        if j < i {
                            pre.lemma_view_at(j);
                            assert(pv[j] == k);
                            assert(pv[j] != pv[i as int]);
                        } else {
                            pre.lemma_view_at(j + 1);
                            assert(pv[j + 1] == k);
                            assert(pv[i as int] != pv[j + 1]);
                        }
                    }
                    assert forall|k: Seq<char>| pre.view().remove(name@).contains_key(k) implies #[trigger] self.view().contains_key(k) by {
                        let j = choose|j: int| 0 <= j < pre.names@.len() && pv[j] == k;
                        assert(j != i);
                        if j < i {
                            assert(sv[j] == k);
                        } else {
                            assert(sv[j - 1] == k);
                        }
                    }
                    assert(self.view() =~= pre.view().remove(name@));
                }
                Some(previous)
            },
            None => {
                assert(self.view() =~= self.view().remove(name@));
                None
            },
        }
    }

    /// Whether `name` is held.
    pub fn contains(&self, name: &str) -> (r: bool)
        requires
            self.wf(),
        ensures
            r == self.view().contains_key(name@),
    {
        let key = name.to_owned();
        match self.position(&key) {
            Some(i) => {
                proof {
                    self.lemma_view_at(i as int);
                }
                true
            },
            None => false,
        }
    }

    /// The `max_results` best-ranked names that contain `input`, best first,
    /// each with its match range and a clone of its value.
    pub fn autocomplete(&self, input: &str, max_results: usize) -> (r: Vec<AutocompleteSuggestion<T>>)
        requires
            self.wf(),
        ensures
            is_top_ranking(input@, self.view().dom(), max_results as nat, suggestion_names(r@)),
            r@.len() == capped(max_results as nat, matching_names(input@, self.view().dom()).len()),
            forall|i: int|
                0 <= i < r@.len() ==> match_ranges_of(input@, #[trigger] r@[i].name@, r@[i].matches@)
                    && cloned(self.view()[r@[i].name@], r@[i].value),
    {
        proof {
            self.lemma_domain_finite();
        }
        let candidates = get_best_candidates(input, &self.names, max_results);
        assert(views_of(self.names@).to_set() =~= self.view().dom());
        assert forall|k: int| 0 <= k < candidates@.len() implies self.view().contains_key(#[trigger] candidates@[k].name@) by {
            assert(candidate_names(candidates@)[k] == candidates@[k].name@);
        }
        let mut results: Vec<AutocompleteSuggestion<T>> = Vec::new();
        let mut c: usize = 0;
        while c < candidates.len()
            invariant
                c <= candidates@.len(),
                self.wf(),
                results@.len() == c,
                forall|k: int| 0 <= k < candidates@.len() ==> self.view().contains_key(#[trigger] candidates@[k].name@),
                forall|k: int|
                    0 <= k < c ==> (#[trigger] results@[k]).name@ == candidates@[k].name@
                        && results@[k].matches@ == candidates@[k].matches@
                        && cloned(self.view()[results@[k].name@], results@[k].value),
            decreases candidates@.len() - c,
        {
            let name = candidates[c].name.to_owned();
            proof {
                assert(candidate_names(candidates@)[c as int] == candidates@[c as int].name@);
            }
            match self.position(&name) {
                Some(i) => {
                    proof {
                        self.lemma_view_at(i as int);
                    }
                    let value = self.values[i].clone();
                    let matches = copy_ranges(&candidates[c].matches);
                    results.push(AutocompleteSuggestion { name: name, matches: matches, value: value });
                },
                None => {
                    proof {
                        assert(false);
                    }
                },
            }
            c += 1;
        }
        proof {
            assert(suggestion_names(results@) =~= candidate_names(candidates@));
            lemma_ranking_length(input@, self.view().dom(), max_results as nat, suggestion_names(results@));
        }
        results
    }
}

/// A copy of a list of ranges.
pub(crate) fn copy_ranges(m: &Vec<Range<usize>>) -> (r: Vec<Range<usize>>)
    ensures
        r@ == m@,
{
    let mut r: Vec<Range<usize>> = Vec::new();
    let mut i: usize = 0;
    while i < m.len()
        invariant
            i <= m@.len(),
            r@ == m@.subrange(0, i as int),
        decreases m@.len() - i,
    {
        r.push(Range { start: m[i].start, end: m[i].end });
        assert(r@ =~= m@.subrange(0, i + 1));
        i += 1;
    }
    assert(r@ =~= m@);
    r
}

pub open spec fn suggestion_names<T: Clone>(s: Seq<AutocompleteSuggestion<T>>) -> Seq<Seq<char>> {
    s.map_values(|x: AutocompleteSuggestion<T>| x.name@)
}

} // verus!
