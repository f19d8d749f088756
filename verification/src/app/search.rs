//! `/search` — the history-search screen.
//!
//! State and presentation logic for searching the history index: a query
//! input, fetched matches (relevance-ordered, as returned by the store), and
//! client-side sort/filter/dedup applied on top via [`visible_indices`].

use vstd::prelude::*;
use crate::app::input::InputState;
use crate::text::{chars_of, str_eq, decimal, push_decimal};

verus! {

/// One history hit as the index returns it.
#[derive(Debug, Clone, PartialEq)]
pub struct HistoryMatch {
    pub session_id: String,
    pub title: String,
    pub role: String,
    /// RFC 3339, or empty when unknown.
    pub timestamp: String,
    pub text: String,
}

/// Which zone owns plain keystrokes: the query line (text editing) or the
/// result list (navigation + single-letter actions).
#[derive(Debug, Clone, Copy, PartialEq, Eq, Structural, Default)]
pub enum SearchFocus {
    #[default]
    Query,
    Results,
}

#[derive(Debug, Clone, Copy, PartialEq, Eq, Structural, Default)]
pub enum SearchSort {
    /// Order returned by the hybrid ranker.
    #[default]
    Relevance,
    Newest,
    Oldest,
}

pub open spec fn sort_next(s: SearchSort) -> SearchSort {
    match s {
        SearchSort::Relevance => SearchSort::Newest,
        SearchSort::Newest => SearchSort::Oldest,
        SearchSort::Oldest => SearchSort::Relevance,
    }
}

pub open spec fn sort_label(s: SearchSort) -> Seq<char> {
    match s {
        SearchSort::Relevance => "relevance"@,
        SearchSort::Newest => "newest"@,
        SearchSort::Oldest => "oldest"@,
    }
}

impl SearchSort {
    pub fn next(self) -> (r: SearchSort)
        ensures
            r == sort_next(self),
    {
        match self {
            SearchSort::Relevance => SearchSort::Newest,
            SearchSort::Newest => SearchSort::Oldest,
            SearchSort::Oldest => SearchSort::Relevance,
        }
    }

    pub fn label(self) -> (r: &'static str)
        ensures
            r@ == sort_label(self),
    {
        match self {
            SearchSort::Relevance => "relevance",
            SearchSort::Newest => "newest",
            SearchSort::Oldest => "oldest",
        }
    }
}

#[derive(Debug, Clone, Copy, PartialEq, Eq, Structural, Default)]
pub enum RoleFilter {
    #[default]
    All,
    User,
    Assistant,
}

pub open spec fn filter_next(f: RoleFilter) -> RoleFilter {
    match f {
        RoleFilter::All => RoleFilter::User,
        RoleFilter::User => RoleFilter::Assistant,
        RoleFilter::Assistant => RoleFilter::All,
    }
}

pub open spec fn filter_label(f: RoleFilter) -> Seq<char> {
    match f {
        RoleFilter::All => "all"@,
        RoleFilter::User => "user"@,
        RoleFilter::Assistant => "assistant"@,
    }
}

/// Whether a hit written by `role` passes the filter.
pub open spec fn admits_role(f: RoleFilter, role: Seq<char>) -> bool {
    match f {
        RoleFilter::All => true,
        RoleFilter::User => role == "user"@,
        RoleFilter::Assistant => role == "assistant"@,
    }
}

impl RoleFilter {
    pub fn next(self) -> (r: RoleFilter)
        ensures
            r == filter_next(self),
    {
        match self {
            RoleFilter::All => RoleFilter::User,
            RoleFilter::User => RoleFilter::Assistant,
            RoleFilter::Assistant => RoleFilter::All,
        }
    }

    pub fn label(self) -> (r: &'static str)
        ensures
            r@ == filter_label(self),
    {
        match self {
            RoleFilter::All => "all",
            RoleFilter::User => "user",
            RoleFilter::Assistant => "assistant",
        }
    }

    fn admits(self, role: &str) -> (b: bool)
        ensures
            b == admits_role(self, role@),
    {
        match self {
            RoleFilter::All => true,
            RoleFilter::User => str_eq(role, "user"),
            RoleFilter::Assistant => str_eq(role, "assistant"),
        }
    }
}

/// Cycling the sort order comes back to where it started after three steps.
pub proof fn lemma_sort_cycle(s: SearchSort)
    ensures
        sort_next(sort_next(sort_next(s))) == s,
        sort_next(s) != s,
{
}

/// Cycling the role filter comes back to where it started after three steps.
pub proof fn lemma_filter_cycle(f: RoleFilter)
    ensures
        filter_next(filter_next(filter_next(f))) == f,
        filter_next(f) != f,
{
}

// ─────────────────────────── ordering of timestamps ───────────────────────────

/// Lexicographic order of character sequences by code point. On UTF-8 text
/// this is the byte order that `String`'s `Ord` uses; RFC 3339 stamps compare
/// correctly under it, and the empty stamp comes before every other.
pub open spec fn lex_lt(a: Seq<char>, b: Seq<char>) -> bool
    decreases a.len(),
{
    if a.len() == 0 {
        b.len() > 0
    } else if b.len() == 0 {
        false
    } else if a[0] != b[0] {
        (a[0] as u32) < (b[0] as u32)
    } else {
        lex_lt(a.drop_first(), b.drop_first())
    }
}

proof fn lemma_lex_irreflexive(a: Seq<char>)
    ensures
        !lex_lt(a, a),
    decreases a.len(),
{
    if a.len() > 0 {
        lemma_lex_irreflexive(a.drop_first());
    }
}

proof fn lemma_lex_transitive(a: Seq<char>, b: Seq<char>, c: Seq<char>)
    requires
        lex_lt(a, b),
        lex_lt(b, c),
    ensures
        lex_lt(a, c),
    decreases a.len(),
{
    if a.len() > 0 && b.len() > 0 && c.len() > 0 && a[0] == b[0] && b[0] == c[0] {
        lemma_lex_transitive(a.drop_first(), b.drop_first(), c.drop_first());
    }
}

proof fn lemma_lex_total(a: Seq<char>, b: Seq<char>)
    ensures
        a == b || lex_lt(a, b) || lex_lt(b, a),
    decreases a.len(),
{
    if a.len() > 0 && b.len() > 0 {
        if a[0] == b[0] {
            lemma_lex_total(a.drop_first(), b.drop_first());
            if a.drop_first() == b.drop_first() {
                assert(a == seq![a[0]] + a.drop_first());
                assert(b == seq![b[0]] + b.drop_first());
            }
        } else {
            vstd::utf8::char_u32_cast(a[0], a[0] as u32);
            vstd::utf8::char_u32_cast(b[0], b[0] as u32);
        }
    } else if a.len() == 0 && b.len() == 0 {
        assert(a == b);
    }
}

/// `lex_lt(a, b)` on exact character vectors.
fn lex_lt_exec(a: &Vec<char>, b: &Vec<char>) -> (r: bool)
    ensures
        r == lex_lt(a@, b@),
{
    let mut i: usize = 0;
    assert(a@.skip(0) == a@ && b@.skip(0) == b@);
    loop
        invariant
            i <= a.len(),
            i <= b.len(),
            lex_lt(a@, b@) == lex_lt(a@.skip(i as int), b@.skip(i as int)),
        decreases a.len() - i,
    {
        if i == a.len() {
            return i < b.len();
        }
        if i == b.len() {
            return false;
        }
        if a[i] != b[i] {
            return (a[i] as u32) < (b[i] as u32);
        }
        assert(a@.skip(i as int).drop_first() == a@.skip(i + 1));
        assert(b@.skip(i as int).drop_first() == b@.skip(i + 1));
        i += 1;
    }
}

// ─────────────────────────── the visible list ───────────────────────────

/// Hit `i` survives the role filter and, with `unique` set, is the first
/// (most relevant) admitted hit of its session.
pub open spec fn kept(ms: Seq<HistoryMatch>, f: RoleFilter, unique: bool, i: int) -> bool {
    &&& 0 <= i < ms.len()
    &&& admits_role(f, ms[i].role@)
    &&& unique ==> forall|j: int|
        0 <= j < i && admits_role(f, ms[j].role@) ==> ms[j].session_id@ != ms[i].session_id@
}

/// Hit `i` is shown above hit `j`: by relevance (the base order), by newest
/// or oldest timestamp, ties keeping the base order.
pub open spec fn shown_before(ms: Seq<HistoryMatch>, sort: SearchSort, i: int, j: int) -> bool {
    match sort {
        SearchSort::Relevance => i < j,
        SearchSort::Newest => lex_lt(ms[j].timestamp@, ms[i].timestamp@) || (ms[i].timestamp@
            == ms[j].timestamp@ && i < j),
        SearchSort::Oldest => lex_lt(ms[i].timestamp@, ms[j].timestamp@) || (ms[i].timestamp@
            == ms[j].timestamp@ && i < j),
    }
}

/// `r` lists exactly the kept hits, each once, in display order.
pub open spec fn is_visible_list(
    ms: Seq<HistoryMatch>,
    sort: SearchSort,
    f: RoleFilter,
    unique: bool,
    r: Seq<usize>,
) -> bool {
    &&& forall|k: int| 0 <= k < r.len() ==> kept(ms, f, unique, #[trigger] r[k] as int)
    &&& forall|i: int| kept(ms, f, unique, i) ==> r.contains(i as usize)
    &&& forall|a: int, b: int|
        0 <= a < b < r.len() ==> shown_before(ms, sort, #[trigger] r[a] as int, #[trigger] r[b] as int)
}

proof fn lemma_shown_before_total(ms: Seq<HistoryMatch>, sort: SearchSort, i: int, j: int)
    requires
        i != j,
    ensures
        shown_before(ms, sort, i, j) || shown_before(ms, sort, j, i),
{
    lemma_lex_total(ms[i].timestamp@, ms[j].timestamp@);
}

proof fn lemma_shown_before_transitive(ms: Seq<HistoryMatch>, sort: SearchSort, i: int, j: int, k: int)
    requires
        shown_before(ms, sort, i, j),
        shown_before(ms, sort, j, k),
    ensures
        shown_before(ms, sort, i, k),
{
    let (a, b, c) = (ms[i].timestamp@, ms[j].timestamp@, ms[k].timestamp@);
    match sort {
        SearchSort::Relevance => {},
        SearchSort::Newest => {
            if lex_lt(b, a) && lex_lt(c, b) {
                lemma_lex_transitive(c, b, a);
            }
        },
        SearchSort::Oldest => {
            if lex_lt(a, b) && lex_lt(b, c) {
                lemma_lex_transitive(a, b, c);
            }
        },
    }
}

proof fn lemma_shown_before_irreflexive(ms: Seq<HistoryMatch>, sort: SearchSort, i: int)
    ensures
        !shown_before(ms, sort, i, i),
{
    lemma_lex_irreflexive(ms[i].timestamp@);
}

/// Whether hit `i` is the first admitted hit of its session.
fn first_of_session(ms: &Vec<HistoryMatch>, f: RoleFilter, i: usize) -> (b: bool)
    requires
        i < ms.len(),
    ensures
        b == forall|j: int|
            0 <= j < i && admits_role(f, ms@[j].role@) ==> ms@[j].session_id@ != ms@[i as int].session_id@,
{
    let mut j: usize = 0;
    while j < i
        invariant
            j <= i < ms.len(),
            forall|k: int|
                0 <= k < j && admits_role(f, ms@[k].role@) ==> ms@[k].session_id@ != ms@[i as int].session_id@,
        decreases i - j,
    {
        if f.admits(ms[j].role.as_str()) && ms[j].session_id == ms[i].session_id {
            return false;
        }
        j += 1;
    }
    true
}

/// Where hit `i` goes in `r`: before the first entry it is shown above.
fn insertion_point(
    ms: &Vec<HistoryMatch>,
    keys: &Vec<Vec<char>>,
    sort: SearchSort,
    r: &Vec<usize>,
    i: usize,
) -> (p: usize)
    requires
        i < ms.len() == keys.len(),
        forall|k: int| 0 <= k < keys.len() ==> (#[trigger] keys@[k])@ == ms@[k].timestamp@,
        forall|k: int| 0 <= k < r.len() ==> r@[k] < i,
    ensures
        p <= r.len(),
        forall|k: int| 0 <= k < p ==> !shown_before(ms@, sort, i as int, #[trigger] r@[k] as int),
        p < r.len() ==> shown_before(ms@, sort, i as int, r@[p as int] as int),
{
    let mut p: usize = 0;
    while p < r.len()
        invariant
            p <= r.len(),
            i < ms.len() == keys.len(),
            forall|k: int| 0 <= k < keys.len() ==> (#[trigger] keys@[k])@ == ms@[k].timestamp@,
            forall|k: int| 0 <= k < r.len() ==> r@[k] < i,
            forall|k: int| 0 <= k < p ==> !shown_before(ms@, sort, i as int, #[trigger] r@[k] as int),
        decreases r.len() - p,
    {
        let q = r[p];
        assert(q < i);
        let goes_before = match sort {
            SearchSort::Relevance => false,
            SearchSort::Newest => lex_lt_exec(&keys[q], &keys[i]),
            SearchSort::Oldest => lex_lt_exec(&keys[i], &keys[q]),
        };
        proof {
            let (a, b) = (ms@[i as int].timestamp@, ms@[q as int].timestamp@);
            assert(keys@[q as int]@ == b);
            assert(keys@[i as int]@ == a);
        }
        if goes_before {
            return p;
        }
        p += 1;
    }
    p
}

/// The timestamps of `ms` as character vectors.
fn timestamp_keys(ms: &Vec<HistoryMatch>) -> (keys: Vec<Vec<char>>)
    ensures
        keys.len() == ms.len(),
        forall|k: int| 0 <= k < keys.len() ==> (#[trigger] keys@[k])@ == ms@[k].timestamp@,
{
    let mut keys: Vec<Vec<char>> = Vec::new();
    let mut i: usize = 0;
    while i < ms.len()
        invariant
            i <= ms.len(),
            keys.len() == i,
            forall|k: int| 0 <= k < keys.len() ==> (#[trigger] keys@[k])@ == ms@[k].timestamp@,
        decreases ms.len() - i,
    {
        keys.push(chars_of(ms[i].timestamp.as_str()));
        i += 1;
    }
    keys
}

/// Pure view computation: role filter → per-session dedup (keeps the
/// most relevant chunk, which is the first in base order) → sort.
pub fn visible_indices(
    matches: &Vec<HistoryMatch>,
    sort: SearchSort,
    role_filter: RoleFilter,
    unique_sessions: bool,
) -> (r: Vec<usize>)
    ensures
        is_visible_list(matches@, sort, role_filter, unique_sessions, r@),
        r@ == visible_spec(matches@, sort, role_filter, unique_sessions),
{
    let ghost ms = matches@;
    let keys = timestamp_keys(matches);
    let mut r: Vec<usize> = Vec::new();
    let mut i: usize = 0;
    while i < matches.len()
        invariant
            i <= matches.len() == keys.len(),
            ms == matches@,
            forall|k: int| 0 <= k < keys.len() ==> (#[trigger] keys@[k])@ == ms[k].timestamp@,
            forall|k: int| 0 <= k < r.len() ==> r@[k] < i,
            forall|k: int| 0 <= k < r.len() ==> kept(ms, role_filter, unique_sessions, #[trigger] r@[k] as int),
            forall|x: int| 0 <= x < i && kept(ms, role_filter, unique_sessions, x) ==> r@.contains(x as usize),
            forall|a: int, b: int|
                0 <= a < b < r.len() ==> shown_before(ms, sort, #[trigger] r@[a] as int, #[trigger] r@[b] as int),
        decreases matches.len() - i,
    {
        let admitted = role_filter.admits(matches[i].role.as_str());
        if admitted && (!unique_sessions || first_of_session(matches, role_filter, i)) {
            let p = insertion_point(matches, &keys, sort, &r, i);
            let ghost old_r = r@;
            proof {
                assert forall|k: int| 0 <= k < p implies shown_before(ms, sort, #[trigger] old_r[k] as int, i as int) by {
                    lemma_shown_before_total(ms, sort, old_r[k] as int, i as int);
                }
                assert forall|k: int| p <= k < old_r.len() implies shown_before(ms, sort, i as int, #[trigger] old_r[k] as int) by {
                    if k > p {
                        lemma_shown_before_transitive(ms, sort, i as int, old_r[p as int] as int, old_r[k] as int);
                    }
                }
            }
            r.insert(p, i);
            proof {
                assert(r@ == old_r.insert(p as int, i));
                assert forall|a: int, b: int| 0 <= a < b < r.len() implies shown_before(ms, sort, #[trigger] r@[a] as int, #[trigger] r@[b] as int) by {
                    if b < p {
                        assert(r@[a] == old_r[a] && r@[b] == old_r[b]);
                    } else if b == p {
                        assert(r@[a] == old_r[a]);
                    } else if a < p {
                        assert(r@[a] == old_r[a] && r@[b] == old_r[b - 1]);
                        lemma_shown_before_transitive(ms, sort, old_r[a] as int, i as int, old_r[b - 1] as int);
                    } else if a == p {
                        assert(r@[b] == old_r[b - 1]);
                    } else {
                        assert(r@[a] == old_r[a - 1] && r@[b] == old_r[b - 1]);
                    }
                }
                assert forall|x: int| 0 <= x <= i && kept(ms, role_filter, unique_sessions, x) implies r@.contains(x as usize) by {
                    if x < i {
                        let w = choose|w: int| 0 <= w < old_r.len() && old_r[w] == x as usize;
                        if w < p {
                            assert(r@[w] == x as usize);
                        } else {
                            assert(r@[w + 1] == x as usize);
                        }
                    } else {
                        assert(r@[p as int] == i);
                    }
                }
            }
        } else {
            proof {
                assert(!kept(ms, role_filter, unique_sessions, i as int));
            }
        }
        i += 1;
    }
    proof {
        lemma_visible_spec(ms, sort, role_filter, unique_sessions, r@);
    }
    r
}

/// With per-session dedup on, no two listed hits come from the same session,
/// and the one listed for a session is its most relevant admitted hit.
pub proof fn lemma_unique_sessions(ms: Seq<HistoryMatch>, sort: SearchSort, f: RoleFilter, r: Seq<usize>)
    requires
        is_visible_list(ms, sort, f, true, r),
    ensures
        forall|a: int, b: int|
            0 <= a < r.len() && 0 <= b < r.len() && a != b ==> ms[r[a] as int].session_id@
                != ms[r[b] as int].session_id@,
        forall|a: int, j: int|
            0 <= a < r.len() && 0 <= j < r[a] && admits_role(f, ms[j].role@) ==> ms[j].session_id@
                != ms[r[a] as int].session_id@,
{
    assert forall|a: int, b: int|
        0 <= a < r.len() && 0 <= b < r.len() && a != b implies ms[r[a] as int].session_id@
            != ms[r[b] as int].session_id@ by {
        assert(kept(ms, f, true, r[a] as int));
        assert(kept(ms, f, true, r[b] as int));
        if r[a] == r[b] {
            if a < b {
                lemma_shown_before_irreflexive(ms, sort, r[a] as int);
            } else {
                lemma_shown_before_irreflexive(ms, sort, r[b] as int);
            }
        }
    }
    assert forall|a: int, j: int|
        0 <= a < r.len() && 0 <= j < r[a] && admits_role(f, ms[j].role@) implies ms[j].session_id@
            != ms[r[a] as int].session_id@ by {
        assert(kept(ms, f, true, r[a] as int));
    }
}

/// The listed hits never repeat one.
pub proof fn lemma_visible_distinct(
    ms: Seq<HistoryMatch>,
    sort: SearchSort,
    f: RoleFilter,
    unique: bool,
    r: Seq<usize>,
)
    requires
        is_visible_list(ms, sort, f, unique, r),
    ensures
        forall|a: int, b: int| 0 <= a < b < r.len() ==> r[a] != r[b],
{
    assert forall|a: int, b: int| 0 <= a < b < r.len() implies r[a] != r[b] by {
        if r[a] == r[b] {
            lemma_shown_before_irreflexive(ms, sort, r[a] as int);
        }
    }
}

/// Two lists that both satisfy `is_visible_list` agree up to `k`.
proof fn lemma_visible_prefix(
    ms: Seq<HistoryMatch>,
    sort: SearchSort,
    f: RoleFilter,
    unique: bool,
    r1: Seq<usize>,
    r2: Seq<usize>,
    k: int,
)
    requires
        is_visible_list(ms, sort, f, unique, r1),
        is_visible_list(ms, sort, f, unique, r2),
        0 <= k <= r1.len(),
        k <= r2.len(),
    ensures
        forall|j: int| 0 <= j < k ==> r1[j] == r2[j],
    decreases k,
{
    if k > 0 {
        lemma_visible_prefix(ms, sort, f, unique, r1, r2, k - 1);
        let i = k - 1;
        let x = r1[i];
        let y = r2[i];
        assert(kept(ms, f, unique, x as int));
        assert(kept(ms, f, unique, y as int));
        assert(r2.contains(x));
        assert(r1.contains(y));
        let p = choose|p: int| 0 <= p < r2.len() && r2[p] == x;
        let q = choose|q: int| 0 <= q < r1.len() && r1[q] == y;
        if p < i {
            assert(r1[p] == x);
            lemma_shown_before_irreflexive(ms, sort, x as int);
            assert(shown_before(ms, sort, r1[p] as int, r1[i] as int));
        }
        if q < i {
            assert(r2[q] == y);
            lemma_shown_before_irreflexive(ms, sort, y as int);
            assert(shown_before(ms, sort, r2[q] as int, r2[i] as int));
        }
        if p > i && q > i {
            assert(shown_before(ms, sort, r2[i] as int, r2[p] as int));
            assert(shown_before(ms, sort, r1[i] as int, r1[q] as int));
            lemma_shown_before_transitive(ms, sort, x as int, y as int, x as int);
            lemma_shown_before_irreflexive(ms, sort, x as int);
        }
    }
}

/// The visible list is a function of the hits and the view settings: any
/// two lists that show exactly the kept hits in display order are the same.
pub proof fn lemma_visible_list_unique(
    ms: Seq<HistoryMatch>,
    sort: SearchSort,
    f: RoleFilter,
    unique: bool,
    r1: Seq<usize>,
    r2: Seq<usize>,
)
    requires
        is_visible_list(ms, sort, f, unique, r1),
        is_visible_list(ms, sort, f, unique, r2),
    ensures
        r1 == r2,
{
    let m = if r1.len() < r2.len() { r1.len() } else { r2.len() };
    lemma_visible_prefix(ms, sort, f, unique, r1, r2, m as int);
    if r1.len() < r2.len() {
        let z = r2[m as int];
        assert(kept(ms, f, unique, z as int));
        let q = choose|q: int| 0 <= q < r1.len() && r1[q] == z;
        assert(r2[q] == z);
        assert(shown_before(ms, sort, r2[q] as int, r2[m as int] as int));
        lemma_shown_before_irreflexive(ms, sort, z as int);
    } else if r2.len() < r1.len() {
        let z = r1[m as int];
        assert(kept(ms, f, unique, z as int));
        let q = choose|q: int| 0 <= q < r2.len() && r2[q] == z;
        assert(r1[q] == z);
        assert(shown_before(ms, sort, r1[q] as int, r1[m as int] as int));
        lemma_shown_before_irreflexive(ms, sort, z as int);
    }
    assert(r1 =~= r2);
}

/// The list of hits shown for these settings.
pub open spec fn visible_spec(ms: Seq<HistoryMatch>, sort: SearchSort, f: RoleFilter, unique: bool) -> Seq<usize> {
    choose|r: Seq<usize>| is_visible_list(ms, sort, f, unique, r)
}

/// What [`visible_indices`] returns is the one list `visible_spec` names.
pub proof fn lemma_visible_spec(ms: Seq<HistoryMatch>, sort: SearchSort, f: RoleFilter, unique: bool, r: Seq<usize>)
    requires
        is_visible_list(ms, sort, f, unique, r),
    ensures
        visible_spec(ms, sort, f, unique) == r,
{
    lemma_visible_list_unique(ms, sort, f, unique, visible_spec(ms, sort, f, unique), r);
}

/// Sorted by relevance with no filter and no dedup, the list is every hit in
/// the order the index returned them.
pub proof fn lemma_relevance_shows_everything_in_order(ms: Seq<HistoryMatch>, r: Seq<usize>)
    requires
        is_visible_list(ms, SearchSort::Relevance, RoleFilter::All, false, r),
        ms.len() <= usize::MAX,
    ensures
        r.len() == ms.len(),
        forall|k: int| 0 <= k < r.len() ==> r[k] == k,
{
    assert forall|i: int| 0 <= i < ms.len() implies kept(ms, RoleFilter::All, false, i) by {}
    lemma_relevance_prefix(ms, r, r.len() as int);
    if r.len() < ms.len() {
        let n = r.len() as int;
        assert(kept(ms, RoleFilter::All, false, n));
        assert(r.contains(n as usize));
        let p = choose|p: int| 0 <= p < r.len() && r[p] == n as usize;
        assert(r[p] == p);
    } else if r.len() > ms.len() {
        let n = ms.len() as int;
        assert(kept(ms, RoleFilter::All, false, r[n] as int));
        assert(r[n] == n);
    }
}

proof fn lemma_relevance_prefix(ms: Seq<HistoryMatch>, r: Seq<usize>, k: int)
    requires
        is_visible_list(ms, SearchSort::Relevance, RoleFilter::All, false, r),
        forall|i: int| 0 <= i < ms.len() ==> kept(ms, RoleFilter::All, false, i),
        ms.len() <= usize::MAX,
        0 <= k <= r.len(),
    ensures
        forall|j: int| 0 <= j < k ==> r[j] == j,
    decreases k,
{
    if k > 0 {
        lemma_relevance_prefix(ms, r, k - 1);
        let i = k - 1;
        assert(kept(ms, RoleFilter::All, false, r[i] as int));
        if i > 0 {
            assert(shown_before(ms, SearchSort::Relevance, r[i - 1] as int, r[i] as int));
        }
        assert(r[i] >= i);
        assert(kept(ms, RoleFilter::All, false, i));
        assert(r.contains(i as usize));
        let p = choose|p: int| 0 <= p < r.len() && r[p] == i as usize;
        if p < i {
            assert(r[p] == p);
        } else if p > i {
            assert(shown_before(ms, SearchSort::Relevance, r[i] as int, r[p] as int));
        }
    }
}

// ─────────────────────────── the view state ───────────────────────────

pub struct SearchViewState {
    pub query: InputState,
    pub focus: SearchFocus,
    pub sort: SearchSort,
    pub role_filter: RoleFilter,
    /// Show only the best (most relevant) chunk of each session.
    pub unique_sessions: bool,
    /// Matches in the ranker's relevance order — never reordered in place;
    /// sort/filter produce an index view over this.
    pub matches: Vec<HistoryMatch>,
    /// Selection is a position in the *visible* (filtered+sorted) list,
    /// not in `matches`; the render derives its scroll window from it.
    pub selected: usize,
    pub searching: bool,
    /// The query the current `matches` answer — a late reply for anything
    /// else is stale and dropped.
    pub last_query: String,
    pub status: String,
}

/// The status line after results arrive.
pub open spec fn results_status(n: nat) -> Seq<char> {
    if n == 0 {
        "No matches \u{2014} the index may still be building (see /rag)"@
    } else {
        decimal(n) + " matches"@
    }
}

impl Default for SearchViewState {
    fn default() -> (s: SearchViewState)
        ensures
            s.query@.buffer.len() == 0,
            s.query@.cursor == 0,
            s.query@.anchor is None,
            s.query@.history.len() == 0,
            s.query@.history_index is None,
            s.query@.unsent.len() == 0,
            s.focus == SearchFocus::Query,
            s.sort == SearchSort::Relevance,
            s.role_filter == RoleFilter::All,
            !s.unique_sessions,
            s.matches@.len() == 0,
            s.selected == 0,
            !s.searching,
            s.last_query@.len() == 0,
            s.status@.len() == 0,
    {
        SearchViewState {
            query: InputState::default(),
            focus: SearchFocus::Query,
            sort: SearchSort::Relevance,
            role_filter: RoleFilter::All,
            unique_sessions: false,
            matches: Vec::new(),
            selected: 0,
            searching: false,
            last_query: String::new(),
            status: String::new(),
        }
    }
}

impl SearchViewState {
    /// Fresh state for opening the view, optionally with a prefilled query.
    pub fn fresh(query: &str) -> (s: SearchViewState)
        ensures
            s.query@.buffer == query@,
            s.query@.cursor == query@.len(),
            s.query@.anchor is None,
            s.query@.history.len() == 0,
            s.query@.history_index is None,
            s.focus == SearchFocus::Query,
            s.sort == SearchSort::Relevance,
            s.role_filter == RoleFilter::All,
            !s.unique_sessions,
            s.matches@.len() == 0,
            s.selected == 0,
            !s.searching,
            s.last_query@.len() == 0,
            s.status@.len() == 0,
    {
        let mut state = SearchViewState::default();
        state.query.buffer = query.to_owned();
        state.query.cursor = query.unicode_len();
        state
    }

    /// Indices into `matches`, filtered and sorted for display.
    pub fn visible(&self) -> (r: Vec<usize>)
        ensures
            is_visible_list(self.matches@, self.sort, self.role_filter, self.unique_sessions, r@),
            r@ == visible_spec(self.matches@, self.sort, self.role_filter, self.unique_sessions),
    {
        visible_indices(&self.matches, self.sort, self.role_filter, self.unique_sessions)
    }

    /// A late reply to an earlier query is dropped — otherwise it would
    /// overwrite what the user is asking now.
    pub fn apply_results(&mut self, query: &str, matches: Vec<HistoryMatch>)
        ensures
            old(self).last_query@ != query@ ==> *final(self) == *old(self),
            old(self).last_query@ == query@ ==> {
                &&& !final(self).searching
                &&& final(self).matches@ == matches@
                &&& final(self).selected == 0
                &&& final(self).status@ == results_status(matches@.len())
                &&& final(self).focus == if matches@.len() > 0 {
                    SearchFocus::Results
                } else {
                    old(self).focus
                }
                &&& final(self).query == old(self).query
                &&& final(self).sort == old(self).sort
                &&& final(self).role_filter == old(self).role_filter
                &&& final(self).unique_sessions == old(self).unique_sessions
                &&& final(self).last_query == old(self).last_query
            },
    {
        if !str_eq(self.last_query.as_str(), query) {
            return;
        }
        self.searching = false;
        self.matches = matches;
        self.reset_selection();
        let n = self.matches.len();
        self.status = if n == 0 {
            "No matches \u{2014} the index may still be building (see /rag)".to_owned()
        } else {
            let mut s = String::new();
            push_decimal(&mut s, n as u64);
            s.append(" matches");
            s
        };
        // Put the cursor on the results straight away, not on the query line.
        if n > 0 {
            self.focus = SearchFocus::Results;
        }
    }

    /// Reset list position after anything that changes the visible set.
    pub fn reset_selection(&mut self)
        ensures
            final(self).selected == 0,
            final(self).query == old(self).query,
            final(self).focus == old(self).focus,
            final(self).sort == old(self).sort,
            final(self).role_filter == old(self).role_filter,
            final(self).unique_sessions == old(self).unique_sessions,
            final(self).matches == old(self).matches,
            final(self).searching == old(self).searching,
            final(self).last_query == old(self).last_query,
            final(self).status == old(self).status,
    {
        self.selected = 0;
    }
}

} // verus!
