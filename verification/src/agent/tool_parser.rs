//! Tool-call markup in model replies: the `<tool_use>…</tool_use>`,
//! `<thinking>…</thinking>` and legacy `[TOOL:name] {…}` blocks that must
//! never reach the screen, and an incremental tracker that keeps the
//! visible part of a streaming reply up to date.
//!
//! Each strip pass is stated as a left-to-right scan over the characters of
//! the text: the first opener, then the first closer after it, the block
//! removed, and the scan resumed after the closer.

use vstd::prelude::*;
use crate::text::{
    is_ws, occurs_at, occurs_at_exec, trim, push_char, push_chars, chars_of, string_of,
    first_occ, lemma_first_occ_props, lemma_first_occ_unique, find_first, skip_ws,
    lemma_skip_ws_props, skip_ws_exec, trimmed, strings_view,
};
use crate::json::{json_error, json_error_of, json_member, json_member_of, json_string, json_string_of};
use crate::provider::ToolCall;

verus! {

// ───────────────────────────── patterns ─────────────────────────────

pub open spec fn tool_open() -> Seq<char> { seq!['<', 't', 'o', 'o', 'l', '_', 'u', 's', 'e', '>'] }
pub open spec fn tool_close() -> Seq<char> { seq!['<', '/', 't', 'o', 'o', 'l', '_', 'u', 's', 'e', '>'] }
pub open spec fn think_open() -> Seq<char> { seq!['<', 't', 'h', 'i', 'n', 'k', 'i', 'n', 'g', '>'] }
pub open spec fn think_close() -> Seq<char> { seq!['<', '/', 't', 'h', 'i', 'n', 'k', 'i', 'n', 'g', '>'] }
pub open spec fn legacy_open() -> Seq<char> { seq!['[', 'T', 'O', 'O', 'L', ':'] }

fn tool_open_vec() -> (v: Vec<char>) ensures v@ == tool_open() {
    let v = vec!['<', 't', 'o', 'o', 'l', '_', 'u', 's', 'e', '>'];
    assert(v@ == tool_open());
    v
}
fn tool_close_vec() -> (v: Vec<char>) ensures v@ == tool_close() {
    let v = vec!['<', '/', 't', 'o', 'o', 'l', '_', 'u', 's', 'e', '>'];
    assert(v@ == tool_close());
    v
}
fn think_open_vec() -> (v: Vec<char>) ensures v@ == think_open() {
    let v = vec!['<', 't', 'h', 'i', 'n', 'k', 'i', 'n', 'g', '>'];
    assert(v@ == think_open());
    v
}
fn think_close_vec() -> (v: Vec<char>) ensures v@ == think_close() {
    let v = vec!['<', '/', 't', 'h', 'i', 'n', 'k', 'i', 'n', 'g', '>'];
    assert(v@ == think_close());
    v
}
fn legacy_open_vec() -> (v: Vec<char>) ensures v@ == legacy_open() {
    let v = vec!['[', 'T', 'O', 'O', 'L', ':'];
    assert(v@ == legacy_open());
    v
}

// ───────────────────────────── scanning ─────────────────────────────

// ───────────────────────────── the passes ─────────────────────────────

/// Removal of every `open … close` block from `s[pos..]`: the first opener,
/// then the first closer that starts after it; text without a closer is kept.
pub open spec fn strip_pairs_from(s: Seq<char>, open: Seq<char>, close: Seq<char>, pos: int) -> Seq<char>
    decreases s.len() - pos when 0 <= pos <= s.len() && close.len() > 0
{
    match first_occ(s, open, pos) {
        None => s.subrange(pos, s.len() as int),
        Some(i) => match first_occ(s, close, i + open.len()) {
            None => s.subrange(pos, s.len() as int),
            Some(j) => {
                proof {
                    lemma_first_occ_props(s, open, pos);
                    lemma_first_occ_props(s, close, i + open.len());
                }
                s.subrange(pos, i) + strip_pairs_from(s, open, close, j + close.len())
            },
        },
    }
}

pub open spec fn strip_pairs(s: Seq<char>, open: Seq<char>, close: Seq<char>) -> Seq<char> {
    strip_pairs_from(s, open, close, 0)
}

/// End (exclusive) of a legacy `[TOOL:name] {…}` block whose `[TOOL:`
/// opener stands at `i`: one or more characters other than `]`, the `]`,
/// optional whitespace, `{`, any characters other than `}`, and the `}`.
pub open spec fn legacy_end(s: Seq<char>, i: int) -> Option<int> {
    match first_occ(s, seq![']'], i + 6) {
        None => None,
        Some(c) => if c == i + 6 {
            None
        } else {
            let w = skip_ws(s, c + 1);
            if w < s.len() && s[w] == '{' {
                match first_occ(s, seq!['}'], w + 1) {
                    None => None,
                    Some(e) => Some(e + 1),
                }
            } else {
                None
            }
        },
    }
}

pub proof fn lemma_legacy_end_props(s: Seq<char>, i: int)
    requires
        i >= 0,
    ensures
        legacy_end(s, i) matches Some(e) ==> i + 8 <= e <= s.len(),
{
    lemma_first_occ_props(s, seq![']'], i + 6);
    match first_occ(s, seq![']'], i + 6) {
        None => {},
        Some(c) => {
            if c != i + 6 {
                let w = skip_ws(s, c + 1);
                lemma_skip_ws_props(s, c + 1);
                lemma_first_occ_props(s, seq!['}'], w + 1);
            }
        },
    }
}

/// Removal of every legacy block from `s[pos..]`, scanning each `[TOOL:`
/// occurrence in turn and resuming one character later when it does not
/// open a complete block.
pub open spec fn strip_legacy_from(s: Seq<char>, pos: int) -> Seq<char>
    decreases s.len() - pos when 0 <= pos <= s.len()
{
    match first_occ(s, legacy_open(), pos) {
        None => s.subrange(pos, s.len() as int),
        Some(i) => {
            proof {
                lemma_first_occ_props(s, legacy_open(), pos);
                lemma_legacy_end_props(s, i);
            }
            match legacy_end(s, i) {
                Some(e) => s.subrange(pos, i) + strip_legacy_from(s, e),
                None => s.subrange(pos, i + 1) + strip_legacy_from(s, i + 1),
            }
        },
    }
}

pub open spec fn strip_legacy(s: Seq<char>) -> Seq<char> {
    strip_legacy_from(s, 0)
}

pub open spec fn strip_tool_xml(s: Seq<char>) -> Seq<char> {
    strip_pairs(s, tool_open(), tool_close())
}

pub open spec fn strip_thinking(s: Seq<char>) -> Seq<char> {
    strip_pairs(s, think_open(), think_close())
}

/// The three strip passes in their load-bearing order: tool-use blocks,
/// then thinking blocks, then legacy blocks.
pub open spec fn strip_blocks(s: Seq<char>) -> Seq<char> {
    strip_legacy(strip_thinking(strip_tool_xml(s)))
}

/// `s` cut at the first occurrence of `pat`, if any.
pub open spec fn cut_at(s: Seq<char>, pat: Seq<char>) -> Seq<char> {
    match first_occ(s, pat, 0) {
        Some(i) => s.take(i),
        None => s,
    }
}

/// Stripped text cut at the first bare `<` and then at the first partial
/// legacy marker `[TOOL:`. (Every other cut marker starts with `<` and so
/// can no longer occur once the text has been cut at `<`.)
pub open spec fn truncate_visible_spec(v: Seq<char>) -> Seq<char> {
    cut_at(cut_at(v, seq!['<']), legacy_open())
}

/// What a streaming reply shows so far.
pub open spec fn stream_visible(text: Seq<char>) -> Seq<char> {
    truncate_visible_spec(strip_blocks(text))
}

/// What a finished reply shows once every block is gone.
pub open spec fn strip_tool_calls_spec(text: Seq<char>) -> Seq<char> {
    trim(strip_legacy(trim(strip_thinking(strip_tool_xml(text)))))
}

// ───────────────────────────── exec passes ─────────────────────────────

fn strip_pairs_exec(s: &Vec<char>, open: &Vec<char>, close: &Vec<char>) -> (r: Vec<char>)
    requires
        close@.len() > 0,
    ensures
        r@ == strip_pairs(s@, open@, close@),
{
    let mut out: Vec<char> = Vec::new();
    let mut pos: usize = 0;
    loop
        invariant_except_break
            pos <= s.len(),
            close@.len() > 0,
            out@ + strip_pairs_from(s@, open@, close@, pos as int) == strip_pairs(s@, open@, close@),
        ensures
            out@ == strip_pairs(s@, open@, close@),
        decreases s.len() - pos,
    {
        let ghost before = out@;
        let found = find_first(s, open, pos);
        match found {
            None => {
                append_range(&mut out, s, pos, s.len());
                break;
            },
            Some(i) => {
                proof { lemma_first_occ_props(s@, open@, pos as int); }
                let after = i + open.len();
                let closing = find_first(s, close, after);
                match closing {
                    None => {
                        append_range(&mut out, s, pos, s.len());
                        break;
                    },
                    Some(j) => {
                        proof { lemma_first_occ_props(s@, close@, after as int); }
                        append_range(&mut out, s, pos, i);
                        assert(out@ + strip_pairs_from(s@, open@, close@, (j + close.len()) as int)
                            == before + strip_pairs_from(s@, open@, close@, pos as int));
                        pos = j + close.len();
                    },
                }
            },
        }
    }
    out
}

fn append_range(out: &mut Vec<char>, s: &Vec<char>, from: usize, to: usize)
    requires
        from <= to <= s.len(),
    ensures
        final(out)@ == old(out)@ + s@.subrange(from as int, to as int),
{
    let mut k = from;
    while k < to
        invariant
            from <= k <= to <= s.len(),
            out@ == old(out)@ + s@.subrange(from as int, k as int),
        decreases to - k,
    {
        out.push(s[k]);
        k += 1;
        assert(out@ == old(out)@ + s@.subrange(from as int, k as int));
    }
}


fn legacy_end_exec(s: &Vec<char>, i: usize) -> (r: Option<usize>)
    requires
        i + 6 <= s.len(),
    ensures
        r matches Some(e) ==> legacy_end(s@, i as int) == Some(e as int),
        r is None ==> legacy_end(s@, i as int) is None,
{
    let bracket = vec![']'];
    assert(bracket@ == seq![']']);
    let brace = vec!['}'];
    assert(brace@ == seq!['}']);
    match find_first(s, &bracket, i + 6) {
        None => None,
        Some(c) => {
            proof { lemma_first_occ_props(s@, seq![']'], (i + 6) as int); }
            if c == i + 6 {
                None
            } else {
                let w = skip_ws_exec(s, c + 1);
                if w < s.len() && s[w] == '{' {
                    match find_first(s, &brace, w + 1) {
                        None => None,
                        Some(e) => {
                            proof { lemma_first_occ_props(s@, seq!['}'], (w + 1) as int); }
                            Some(e + 1)
                        },
                    }
                } else {
                    None
                }
            }
        },
    }
}

fn strip_legacy_exec(s: &Vec<char>) -> (r: Vec<char>)
    ensures
        r@ == strip_legacy(s@),
{
    let open = legacy_open_vec();
    let mut out: Vec<char> = Vec::new();
    let mut pos: usize = 0;
    loop
        invariant_except_break
            pos <= s.len(),
            open@ == legacy_open(),
            out@ + strip_legacy_from(s@, pos as int) == strip_legacy(s@),
        ensures
            out@ == strip_legacy(s@),
        decreases s.len() - pos,
    {
        let ghost before = out@;
        match find_first(s, &open, pos) {
            None => {
                append_range(&mut out, s, pos, s.len());
                break;
            },
            Some(i) => {
                proof {
                    lemma_first_occ_props(s@, open@, pos as int);
                    lemma_legacy_end_props(s@, i as int);
                }
                match legacy_end_exec(s, i) {
                    Some(e) => {
                        append_range(&mut out, s, pos, i);
                        assert(out@ + strip_legacy_from(s@, e as int) == before + strip_legacy_from(s@, pos as int));
                        pos = e;
                    },
                    None => {
                        append_range(&mut out, s, pos, i + 1);
                        assert(out@ + strip_legacy_from(s@, (i + 1) as int) == before + strip_legacy_from(s@, pos as int));
                        pos = i + 1;
                    },
                }
            },
        }
    }
    out
}

/// The three strip passes over characters.
fn strip_blocks_exec(s: &Vec<char>) -> (r: Vec<char>)
    ensures
        r@ == strip_blocks(s@),
{
    let a = strip_pairs_exec(s, &tool_open_vec(), &tool_close_vec());
    let b = strip_pairs_exec(&a, &think_open_vec(), &think_close_vec());
    strip_legacy_exec(&b)
}

fn cut_at_exec(s: &Vec<char>, pat: &Vec<char>) -> (r: Vec<char>)
    ensures
        r@ == cut_at(s@, pat@),
{
    let mut out: Vec<char> = Vec::new();
    match find_first(s, pat, 0) {
        Some(i) => {
            proof { lemma_first_occ_props(s@, pat@, 0); }
            append_range(&mut out, s, 0, i);
        },
        None => {
            append_range(&mut out, s, 0, s.len());
        },
    }
    out
}

fn truncate_visible(v: &Vec<char>) -> (r: Vec<char>)
    ensures
        r@ == truncate_visible_spec(v@),
{
    let lt = vec!['<'];
    assert(lt@ == seq!['<']);
    let cut = cut_at_exec(v, &lt);
    cut_at_exec(&cut, &legacy_open_vec())
}

/// Only the reasoning removed (`<thinking>` blocks), surrounding whitespace
/// trimmed. On the native tool-call protocol the tool markup in text is
/// content, not a call, and must stay.
pub fn strip_thinking_only(text: &str) -> (r: String)
    ensures
        r@ == trim(strip_thinking(text@)),
{
    let v = chars_of(text);
    let w = strip_pairs_exec(&v, &think_open_vec(), &think_close_vec());
    let (i, j) = crate::text::trim_bounds(&w, 0, w.len());
    assert(w@.subrange(0, w@.len() as int) == w@);
    string_of(&w, i, j)
}

/// A finished reply with every tool-use, thinking and legacy block removed
/// and the result trimmed.
pub fn strip_tool_calls(text: &str) -> (r: String)
    ensures
        r@ == strip_tool_calls_spec(text@),
{
    let v = chars_of(text);
    let a = strip_pairs_exec(&v, &tool_open_vec(), &tool_close_vec());
    let b = strip_pairs_exec(&a, &think_open_vec(), &think_close_vec());
    let (i, j) = crate::text::trim_bounds(&b, 0, b.len());
    assert(b@.subrange(0, b@.len() as int) == b@);
    let mut t: Vec<char> = Vec::new();
    append_range(&mut t, &b, i, j);
    let c = strip_legacy_exec(&t);
    let (k, l) = crate::text::trim_bounds(&c, 0, c.len());
    assert(c@.subrange(0, c@.len() as int) == c@);
    string_of(&c, k, l)
}

/// The visible part of a (possibly unfinished) streaming reply: every
/// complete block removed, then everything from the first bare `<` or
/// partial `[TOOL:` marker on hidden.
pub fn stream_visible_text(text: &str) -> (r: String)
    ensures
        r@ == stream_visible(text@),
{
    let v = chars_of(text);
    let stripped = strip_blocks_exec(&v);
    let shown = truncate_visible(&stripped);
    string_of(&shown, 0, shown.len())
}


// ───────────────────────────── algebra of the passes ─────────────────────────────

pub open spec fn shifted(o: Option<int>, d: int) -> Option<int> {
    match o {
        Some(i) => Some(i + d),
        None => None,
    }
}

pub proof fn lemma_occurs_shift(q: Seq<char>, s: Seq<char>, p: Seq<char>, m: int)
    requires
        m >= 0,
    ensures
        occurs_at(q + s, p, q.len() + m) == occurs_at(s, p, m),
{
    if m + p.len() <= s.len() {
        assert((q + s).subrange(q.len() + m, q.len() + m + p.len()) =~= s.subrange(m, m + p.len()));
    }
}

pub proof fn lemma_occurs_within(b: Seq<char>, e: Seq<char>, p: Seq<char>, m: int)
    requires
        0 <= m,
        m + p.len() <= b.len(),
    ensures
        occurs_at(b + e, p, m) == occurs_at(b, p, m),
{
    assert((b + e).subrange(m, m + p.len()) =~= b.subrange(m, m + p.len()));
}

pub proof fn lemma_occurs_first_char(s: Seq<char>, p: Seq<char>, m: int)
    requires
        occurs_at(s, p, m),
        p.len() > 0,
    ensures
        s[m] == p[0],
{
    assert(s.subrange(m, m + p.len())[0] == s[m]);
}

pub proof fn lemma_first_occ_shift(q: Seq<char>, s: Seq<char>, p: Seq<char>, k: int)
    requires
        k >= 0,
    ensures
        first_occ(q + s, p, q.len() + k) == shifted(first_occ(s, p, k), q.len() as int),
    decreases s.len() + 1 - k,
{
    lemma_occurs_shift(q, s, p, k);
    if k > s.len() {
    } else if occurs_at(s, p, k) {
    } else {
        lemma_first_occ_shift(q, s, p, k + 1);
    }
}

/// Positions without an occurrence can be skipped.
pub proof fn lemma_first_occ_skip(s: Seq<char>, p: Seq<char>, a: int, b: int)
    requires
        0 <= a <= b,
        forall|m: int| a <= m < b ==> !occurs_at(s, p, m),
    ensures
        first_occ(s, p, a) == first_occ(s, p, b),
    decreases b - a,
{
    if a < b {
        if a > s.len() {
            lemma_first_occ_past_end(s, p, b);
        } else {
            lemma_first_occ_skip(s, p, a + 1, b);
        }
    }
}

pub proof fn lemma_first_occ_past_end(s: Seq<char>, p: Seq<char>, k: int)
    requires
        k > s.len(),
    ensures
        first_occ(s, p, k) is None,
{
}

/// An occurrence that lies entirely inside `b` is found in `b + e` as in `b`.
pub proof fn lemma_first_occ_within(b: Seq<char>, e: Seq<char>, p: Seq<char>, k: int, i: int)
    requires
        0 <= k <= i,
        i + p.len() <= b.len(),
    ensures
        first_occ(b + e, p, k) == Some(i) <==> first_occ(b, p, k) == Some(i),
{
    lemma_first_occ_props(b + e, p, k);
    lemma_first_occ_props(b, p, k);
    lemma_occurs_within(b, e, p, i);
    assert forall|m: int| k <= m <= i implies occurs_at(b + e, p, m) == occurs_at(b, p, m) by {
        lemma_occurs_within(b, e, p, m);
    }
    if first_occ(b, p, k) == Some(i) {
        assert forall|m: int| k <= m < i implies !occurs_at(b + e, p, m) by {
            lemma_occurs_within(b, e, p, m);
        }
        lemma_first_occ_unique(b + e, p, k, Some(i));
    }
    if first_occ(b + e, p, k) == Some(i) {
        assert forall|m: int| k <= m < i implies !occurs_at(b, p, m) by {
            lemma_occurs_within(b, e, p, m);
        }
        lemma_first_occ_unique(b, p, k, Some(i));
    }
}

pub proof fn lemma_strip_pairs_from_shift(q: Seq<char>, s: Seq<char>, o: Seq<char>, c: Seq<char>, k: int)
    requires
        0 <= k <= s.len(),
        c.len() > 0,
    ensures
        strip_pairs_from(q + s, o, c, q.len() + k) == strip_pairs_from(s, o, c, k),
    decreases s.len() - k,
{
    let qs = q + s;
    let n = q.len() as int;
    lemma_first_occ_shift(q, s, o, k);
    lemma_first_occ_props(s, o, k);
    match first_occ(s, o, k) {
        None => {
            assert(qs.subrange(n + k, qs.len() as int) =~= s.subrange(k, s.len() as int));
        },
        Some(i) => {
            lemma_first_occ_shift(q, s, c, i + o.len());
            lemma_first_occ_props(s, c, i + o.len());
            match first_occ(s, c, i + o.len()) {
                None => {
                    assert(qs.subrange(n + k, qs.len() as int) =~= s.subrange(k, s.len() as int));
                },
                Some(j) => {
                    assert(qs.subrange(n + k, n + i) =~= s.subrange(k, i));
                    lemma_strip_pairs_from_shift(q, s, o, c, j + c.len());
                    assert(n + j + c.len() == n + (j + c.len()));
                },
            }
        },
    }
}

pub proof fn lemma_skip_ws_shift(q: Seq<char>, s: Seq<char>, k: int)
    requires
        k >= 0,
    ensures
        skip_ws(q + s, q.len() + k) == q.len() + skip_ws(s, k),
    decreases s.len() - k,
{
    if k < s.len() {
        assert((q + s)[q.len() + k] == s[k]);
        if is_ws(s[k]) {
            lemma_skip_ws_shift(q, s, k + 1);
        }
    }
}

pub proof fn lemma_legacy_end_shift(q: Seq<char>, s: Seq<char>, i: int)
    requires
        i >= 0,
    ensures
        legacy_end(q + s, q.len() + i) == shifted(legacy_end(s, i), q.len() as int),
{
    let n = q.len() as int;
    lemma_first_occ_shift(q, s, seq![']'], i + 6);
    lemma_first_occ_props(s, seq![']'], i + 6);
    match first_occ(s, seq![']'], i + 6) {
        None => {},
        Some(c) => {
            if c != i + 6 {
                lemma_skip_ws_shift(q, s, c + 1);
                lemma_skip_ws_props(s, c + 1);
                let w = skip_ws(s, c + 1);
                if w < s.len() {
                    assert((q + s)[n + w] == s[w]);
                }
                lemma_first_occ_shift(q, s, seq!['}'], w + 1);
            }
        },
    }
}

pub proof fn lemma_strip_legacy_from_shift(q: Seq<char>, s: Seq<char>, k: int)
    requires
        0 <= k <= s.len(),
    ensures
        strip_legacy_from(q + s, q.len() + k) == strip_legacy_from(s, k),
    decreases s.len() - k,
{
    let qs = q + s;
    let n = q.len() as int;
    lemma_first_occ_shift(q, s, legacy_open(), k);
    lemma_first_occ_props(s, legacy_open(), k);
    match first_occ(s, legacy_open(), k) {
        None => {
            assert(qs.subrange(n + k, qs.len() as int) =~= s.subrange(k, s.len() as int));
        },
        Some(i) => {
            lemma_legacy_end_shift(q, s, i);
            lemma_legacy_end_props(s, i);
            match legacy_end(s, i) {
                Some(e) => {
                    assert(qs.subrange(n + k, n + i) =~= s.subrange(k, i));
                    lemma_strip_legacy_from_shift(q, s, e);
                },
                None => {
                    assert(qs.subrange(n + k, n + i + 1) =~= s.subrange(k, i + 1));
                    lemma_strip_legacy_from_shift(q, s, i + 1);
                    assert(n + (i + 1) == n + i + 1);
                },
            }
        },
    }
}

/// A prefix in which no opener starts passes through a pair pass unchanged.
pub proof fn lemma_pairs_prefix(q: Seq<char>, e: Seq<char>, o: Seq<char>, c: Seq<char>)
    requires
        c.len() > 0,
        forall|m: int| 0 <= m < q.len() ==> !occurs_at(q + e, o, m),
    ensures
        strip_pairs(q + e, o, c) == q + strip_pairs(e, o, c),
{
    let qe = q + e;
    let n = q.len() as int;
    lemma_first_occ_skip(qe, o, 0, n);
    lemma_first_occ_shift(q, e, o, 0);
    lemma_first_occ_props(e, o, 0);
    match first_occ(e, o, 0) {
        None => {
            assert(qe.subrange(0, qe.len() as int) =~= q + e.subrange(0, e.len() as int));
        },
        Some(i) => {
            lemma_first_occ_shift(q, e, c, i + o.len());
            lemma_first_occ_props(e, c, i + o.len());
            match first_occ(e, c, i + o.len()) {
                None => {
                    assert(qe.subrange(0, qe.len() as int) =~= q + e.subrange(0, e.len() as int));
                },
                Some(j) => {
                    assert(n + i + o.len() == n + (i + o.len()));
                    lemma_strip_pairs_from_shift(q, e, o, c, j + c.len());
                    assert(n + j + c.len() == n + (j + c.len()));
                    assert(qe.subrange(0, n + i) =~= q + e.subrange(0, i));
                },
            }
        },
    }
}

/// A prefix in which no `[TOOL:` starts passes through the legacy pass unchanged.
pub proof fn lemma_legacy_prefix(q: Seq<char>, e: Seq<char>)
    requires
        forall|m: int| 0 <= m < q.len() ==> !occurs_at(q + e, legacy_open(), m),
    ensures
        strip_legacy(q + e) == q + strip_legacy(e),
{
    let qe = q + e;
    let n = q.len() as int;
    lemma_first_occ_skip(qe, legacy_open(), 0, n);
    lemma_first_occ_shift(q, e, legacy_open(), 0);
    lemma_first_occ_props(e, legacy_open(), 0);
    match first_occ(e, legacy_open(), 0) {
        None => {
            assert(qe.subrange(0, qe.len() as int) =~= q + e.subrange(0, e.len() as int));
        },
        Some(i) => {
            lemma_legacy_end_shift(q, e, i);
            lemma_legacy_end_props(e, i);
            match legacy_end(e, i) {
                Some(x) => {
                    lemma_strip_legacy_from_shift(q, e, x);
                    assert(qe.subrange(0, n + i) =~= q + e.subrange(0, i));
                },
                None => {
                    lemma_strip_legacy_from_shift(q, e, i + 1);
                    assert(n + (i + 1) == n + i + 1);
                    assert(qe.subrange(0, n + i + 1) =~= q + e.subrange(0, i + 1));
                },
            }
        },
    }
}


/// A complete `open … close` block at the front vanishes from a pair pass.
pub proof fn lemma_pairs_block(b: Seq<char>, e: Seq<char>, o: Seq<char>, c: Seq<char>)
    requires
        o.len() > 0,
        c.len() > 0,
        first_occ(b, o, 0) == Some(0int),
        first_occ(b, c, o.len() as int) == Some(b.len() - c.len()),
    ensures
        strip_pairs(b + e, o, c) == strip_pairs(e, o, c),
{
    lemma_first_occ_props(b, o, 0);
    lemma_first_occ_props(b, c, o.len() as int);
    lemma_first_occ_within(b, e, o, 0, 0);
    lemma_first_occ_within(b, e, c, o.len() as int, b.len() - c.len());
    lemma_strip_pairs_from_shift(b, e, o, c, 0);
    assert((b + e).subrange(0, 0) =~= Seq::<char>::empty());
}

pub proof fn lemma_skip_ws_within(b: Seq<char>, e: Seq<char>, k: int)
    requires
        0 <= k,
        skip_ws(b, k) < b.len() || skip_ws(b + e, k) < b.len(),
    ensures
        skip_ws(b + e, k) == skip_ws(b, k),
    decreases b.len() - k,
{
    lemma_skip_ws_props(b, k);
    lemma_skip_ws_props(b + e, k);
    if k < b.len() {
        assert((b + e)[k] == b[k]);
        if is_ws(b[k]) {
            lemma_skip_ws_within(b, e, k + 1);
        }
    }
}

/// A legacy block that ends exactly at the end of `b` ends there in `b + e` too,
/// and conversely.
pub proof fn lemma_legacy_end_within(b: Seq<char>, e: Seq<char>)
    ensures
        legacy_end(b + e, 0) == Some(b.len() as int) <==> legacy_end(b, 0) == Some(b.len() as int),
{
    let be = b + e;
    let rb = seq![']'];
    let cb = seq!['}'];
    lemma_first_occ_props(b, rb, 6);
    lemma_first_occ_props(be, rb, 6);
    if legacy_end(b, 0) == Some(b.len() as int) {
        let cc = first_occ(b, rb, 6)->Some_0;
        lemma_skip_ws_props(b, cc + 1);
        let w = skip_ws(b, cc + 1);
        lemma_first_occ_props(b, cb, w + 1);
        lemma_first_occ_within(b, e, rb, 6, cc);
        lemma_skip_ws_within(b, e, cc + 1);
        assert(be[w] == b[w]);
        lemma_first_occ_within(b, e, cb, w + 1, b.len() - 1);
    }
    if legacy_end(be, 0) == Some(b.len() as int) {
        let cc = first_occ(be, rb, 6)->Some_0;
        lemma_skip_ws_props(be, cc + 1);
        let w = skip_ws(be, cc + 1);
        lemma_first_occ_props(be, cb, w + 1);
        lemma_first_occ_within(b, e, rb, 6, cc);
        lemma_skip_ws_within(b, e, cc + 1);
        assert(be[w] == b[w]);
        lemma_first_occ_within(b, e, cb, w + 1, b.len() - 1);
    }
}

/// A complete legacy block at the front vanishes from the legacy pass.
pub proof fn lemma_legacy_block(b: Seq<char>, e: Seq<char>)
    requires
        first_occ(b, legacy_open(), 0) == Some(0int),
        legacy_end(b, 0) == Some(b.len() as int),
    ensures
        strip_legacy(b + e) == strip_legacy(e),
{
    lemma_first_occ_props(b, legacy_open(), 0);
    lemma_first_occ_within(b, e, legacy_open(), 0, 0);
    lemma_legacy_end_within(b, e);
    lemma_strip_legacy_from_shift(b, e, 0);
    assert((b + e).subrange(0, 0) =~= Seq::<char>::empty());
}

/// Text in which a character never appears holds no occurrence of a
/// pattern that starts with it.
pub proof fn lemma_no_start(q: Seq<char>, e: Seq<char>, p: Seq<char>, ch: char)
    requires
        p.len() > 0,
        p[0] == ch,
        forall|m: int| 0 <= m < q.len() ==> q[m] != ch,
    ensures
        forall|m: int| 0 <= m < q.len() ==> !occurs_at(q + e, p, m),
{
    assert forall|m: int| 0 <= m < q.len() implies !occurs_at(q + e, p, m) by {
        if occurs_at(q + e, p, m) {
            lemma_occurs_first_char(q + e, p, m);
            assert((q + e)[m] == q[m]);
        }
    }
}

/// Plain prose (no `<`, no `[`) passes through all three passes unchanged.
pub proof fn lemma_blocks_prose(q: Seq<char>, e: Seq<char>)
    requires
        forall|m: int| 0 <= m < q.len() ==> q[m] != '<' && q[m] != '[',
    ensures
        strip_blocks(q + e) == q + strip_blocks(e),
{
    lemma_no_start(q, e, tool_open(), '<');
    lemma_pairs_prefix(q, e, tool_open(), tool_close());
    let x = strip_tool_xml(e);
    lemma_no_start(q, x, think_open(), '<');
    lemma_pairs_prefix(q, x, think_open(), think_close());
    let t = strip_thinking(x);
    lemma_no_start(q, t, legacy_open(), '[');
    lemma_legacy_prefix(q, t);
}

/// A complete tool-use block at the front contributes nothing.
pub proof fn lemma_blocks_tool(b: Seq<char>, e: Seq<char>)
    requires
        first_occ(b, tool_open(), 0) == Some(0int),
        first_occ(b, tool_close(), 10) == Some(b.len() - 11),
    ensures
        strip_blocks(b + e) == strip_blocks(e),
{
    lemma_pairs_block(b, e, tool_open(), tool_close());
}

/// A complete thinking block at the front with no tool-use opener inside
/// contributes nothing.
pub proof fn lemma_blocks_think(b: Seq<char>, e: Seq<char>)
    requires
        first_occ(b, think_open(), 0) == Some(0int),
        first_occ(b, think_close(), 10) == Some(b.len() - 11),
        first_occ(b, tool_open(), 0) is None,
    ensures
        strip_blocks(b + e) == strip_blocks(e),
{
    lemma_first_occ_props(b, think_close(), 10);
    lemma_first_occ_props(b, tool_open(), 0);
    let n = b.len() as int;
    assert forall|m: int| 0 <= m < b.len() implies !occurs_at(b + e, tool_open(), m) by {
        if m + 10 <= n {
            lemma_occurs_within(b, e, tool_open(), m);
        } else if occurs_at(b + e, tool_open(), m) {
            lemma_occurs_first_char(b + e, tool_open(), m);
            assert((b + e)[m] == b[m]);
            assert(b.subrange(n - 11, n)[m - (n - 11)] == b[m]);
        }
    }
    lemma_pairs_prefix(b, e, tool_open(), tool_close());
    lemma_pairs_block(b, strip_tool_xml(e), think_open(), think_close());
}

/// A complete legacy block at the front with no `<` inside contributes nothing.
pub proof fn lemma_blocks_legacy(b: Seq<char>, e: Seq<char>)
    requires
        first_occ(b, legacy_open(), 0) == Some(0int),
        legacy_end(b, 0) == Some(b.len() as int),
        forall|m: int| 0 <= m < b.len() ==> b[m] != '<',
    ensures
        strip_blocks(b + e) == strip_blocks(e),
{
    lemma_no_start(b, e, tool_open(), '<');
    lemma_pairs_prefix(b, e, tool_open(), tool_close());
    let x = strip_tool_xml(e);
    lemma_no_start(b, x, think_open(), '<');
    lemma_pairs_prefix(b, x, think_open(), think_close());
    lemma_legacy_block(b, strip_thinking(x));
}

/// A pair pass whose opener starts with `<` keeps the first `k` characters
/// when none of them is `<`.
pub proof fn lemma_pairs_keeps_prefix(e: Seq<char>, o: Seq<char>, c: Seq<char>, k: int)
    requires
        o.len() > 0,
        c.len() > 0,
        o[0] == '<',
        0 <= k <= e.len(),
        forall|m: int| 0 <= m < k ==> e[m] != '<',
    ensures
        strip_pairs(e, o, c).len() >= k,
        strip_pairs(e, o, c).take(k) == e.take(k),
{
    lemma_first_occ_props(e, o, 0);
    match first_occ(e, o, 0) {
        None => {
            assert(e.subrange(0, e.len() as int) =~= e);
        },
        Some(i) => {
            lemma_occurs_first_char(e, o, i);
            lemma_first_occ_props(e, c, i + o.len());
            match first_occ(e, c, i + o.len()) {
                None => {
                    assert(e.subrange(0, e.len() as int) =~= e);
                },
                Some(j) => {
                    let r = e.subrange(0, i) + strip_pairs_from(e, o, c, j + c.len());
                    assert(r.take(k) =~= e.take(k));
                },
            }
        },
    }
}

/// A lone `<` or `[` followed by nine characters free of `<` that do not
/// complete an opener stays put in all three passes.
pub proof fn lemma_blocks_inert(ch: char, e: Seq<char>)
    requires
        e.len() >= 9,
        forall|m: int| 0 <= m < 9 ==> e[m] != '<',
        !occurs_at(seq![ch] + e, tool_open(), 0),
        !occurs_at(seq![ch] + e, think_open(), 0),
        !occurs_at(seq![ch] + e, legacy_open(), 0),
    ensures
        strip_blocks(seq![ch] + e) == seq![ch] + strip_blocks(e),
{
    let q = seq![ch];
    lemma_pairs_prefix(q, e, tool_open(), tool_close());
    let x = strip_tool_xml(e);
    lemma_pairs_keeps_prefix(e, tool_open(), tool_close(), 9);
    assert forall|m: int| 0 <= m < 10 implies (q + x)[m] == (q + e)[m] by {
        if m > 0 {
            assert(x.take(9)[m - 1] == e.take(9)[m - 1]);
        }
    }
    assert((q + x).subrange(0, 10) =~= (q + e).subrange(0, 10));
    assert(!occurs_at(q + x, think_open(), 0));
    lemma_pairs_prefix(q, x, think_open(), think_close());
    let t = strip_thinking(x);
    assert forall|m: int| 0 <= m < 9 implies x[m] != '<' by {
        assert(x.take(9)[m] == e.take(9)[m]);
    }
    lemma_pairs_keeps_prefix(x, think_open(), think_close(), 9);
    assert forall|m: int| 0 <= m < 6 implies (q + t)[m] == (q + e)[m] by {
        if m > 0 {
            assert(t.take(9)[m - 1] == x.take(9)[m - 1]);
            assert(x.take(9)[m - 1] == e.take(9)[m - 1]);
        }
    }
    assert((q + t).subrange(0, 6) =~= (q + e).subrange(0, 6));
    assert(!occurs_at(q + t, legacy_open(), 0));
    lemma_legacy_prefix(q, t);
}


/// Every character of an occurrence matches the pattern.
proof fn lemma_occurs_char(s: Seq<char>, p: Seq<char>, m: int, k: int)
    requires
        occurs_at(s, p, m),
        0 <= k < p.len(),
    ensures
        s[m + k] == p[k],
{
    assert(s.subrange(m, m + p.len())[k] == s[m + k]);
}

/// The model's reasoning never shows in a finished reply: removing a
/// `<thinking>…</thinking>` block leaves what the reply shows unchanged.
/// This holds for every reply in which the block is the first thing with a
/// `<` (no `<` in the text `a` before it nor in the reasoning `b`), whatever
/// follows it in `c`; so a reply such as `a<thinking>b</thinking>c` shows
/// the same as `ac`.
pub proof fn lemma_thinking_never_shows(a: Seq<char>, b: Seq<char>, c: Seq<char>)
    requires
        forall|m: int| 0 <= m < a.len() ==> a[m] != '<',
        forall|m: int| 0 <= m < b.len() ==> b[m] != '<',
    ensures
        strip_tool_calls_spec(a + think_open() + b + think_close() + c) == strip_tool_calls_spec(a + c),
{
    let t = think_open() + b + think_close();
    let n = t.len() as int;
    let bl = b.len() as int;
    assert(n == 21 + bl);
    assert forall|m: int| 0 <= m < n && t[m] == '<' implies m == 0 || m == 10 + bl by {
        if 0 < m < 10 {
            assert(t[m] == think_open()[m]);
        } else if 10 <= m < 10 + bl {
            assert(t[m] == b[m - 10]);
        } else if 10 + bl < m {
            assert(t[m] == think_close()[m - 10 - bl]);
        }
    }
    assert(t[0] == '<');
    assert(t[2] == 'h');
    assert(t[10 + bl] == '<');
    assert(t[11 + bl] == '/');
    // No tool-use block starts inside the thinking block.
    let tc = t + c;
    assert forall|m: int| 0 <= m < t.len() implies !occurs_at(tc, tool_open(), m) by {
        if occurs_at(tc, tool_open(), m) {
            lemma_occurs_char(tc, tool_open(), m, 0);
            assert(tc[m] == t[m]);
            if m == 0 {
                lemma_occurs_char(tc, tool_open(), m, 2);
                assert(tc[2] == t[2]);
            } else {
                lemma_occurs_char(tc, tool_open(), m, 1);
                assert(tc[m + 1] == t[m + 1]);
            }
        }
    }
    // The thinking block opens at its start and closes at its end.
    assert(t.subrange(0, 10) =~= think_open());
    assert(occurs_at(t, think_open(), 0));
    assert(first_occ(t, think_open(), 0) == Some(0int));
    assert forall|m: int| 10 <= m < n - 11 implies !occurs_at(t, think_close(), m) by {
        if occurs_at(t, think_close(), m) {
            lemma_occurs_char(t, think_close(), m, 0);
            assert(t[m] == b[m - 10]);
        }
    }
    lemma_first_occ_skip(t, think_close(), 10, n - 11);
    assert(t.subrange(n - 11, n) =~= think_close());
    assert(occurs_at(t, think_close(), n - 11));
    assert(first_occ(t, think_close(), n - 11) == Some(n - 11));
    // The tool-use pass.
    let x = strip_tool_xml(c);
    lemma_pairs_prefix(t, c, tool_open(), tool_close());
    lemma_no_start(a, tc, tool_open(), '<');
    lemma_pairs_prefix(a, tc, tool_open(), tool_close());
    lemma_no_start(a, c, tool_open(), '<');
    lemma_pairs_prefix(a, c, tool_open(), tool_close());
    // The thinking pass.
    let tx = t + x;
    lemma_no_start(a, tx, think_open(), '<');
    lemma_pairs_prefix(a, tx, think_open(), think_close());
    lemma_pairs_block(t, x, think_open(), think_close());
    lemma_no_start(a, x, think_open(), '<');
    lemma_pairs_prefix(a, x, think_open(), think_close());
    assert(a + think_open() + b + think_close() + c =~= a + tc);
    assert(strip_thinking(strip_tool_xml(a + tc)) == strip_thinking(strip_tool_xml(a + c)));
}

// ───────────────────────────── the incremental tracker ─────────────────────────────

/// `f` is the final stripped form of `seen[..fi]`: however `seen` goes on,
/// stripping it gives `f` followed by the stripped rest.
pub open spec fn frozen_ok(seen: Seq<char>, fi: int, f: Seq<char>) -> bool {
    forall|ext: Seq<char>| #[trigger] strip_blocks(seen + ext)
        == f + strip_blocks(seen.subrange(fi, seen.len() as int) + ext)
}

proof fn lemma_frozen_extend(seen: Seq<char>, full: Seq<char>, fi: int, f: Seq<char>)
    requires
        0 <= fi <= seen.len() <= full.len(),
        full.take(seen.len() as int) == seen,
        frozen_ok(seen, fi, f),
    ensures
        frozen_ok(full, fi, f),
{
    let more = full.subrange(seen.len() as int, full.len() as int);
    assert forall|ext: Seq<char>| #[trigger] strip_blocks(full + ext)
        == f + strip_blocks(full.subrange(fi, full.len() as int) + ext) by {
        assert(full + ext =~= seen + (more + ext));
        assert(full.subrange(fi, full.len() as int) + ext
            =~= seen.subrange(fi, seen.len() as int) + (more + ext));
        assert(strip_blocks(seen + (more + ext))
            == f + strip_blocks(seen.subrange(fi, seen.len() as int) + (more + ext)));
    }
}

/// Freezing a block `v[fi..fi+n]` whose stripped form is `c` whatever follows.
proof fn lemma_frozen_step(v: Seq<char>, fi: int, n: int, f: Seq<char>, c: Seq<char>)
    requires
        0 <= fi,
        fi + n <= v.len(),
        0 <= n,
        frozen_ok(v, fi, f),
        forall|ext: Seq<char>| #[trigger] strip_blocks(v.subrange(fi, fi + n) + (v.subrange(fi + n, v.len() as int) + ext))
            == c + strip_blocks(v.subrange(fi + n, v.len() as int) + ext),
    ensures
        frozen_ok(v, fi + n, f + c),
{
    let b = v.subrange(fi, fi + n);
    let rest = v.subrange(fi + n, v.len() as int);
    assert forall|ext: Seq<char>| #[trigger] strip_blocks(v + ext)
        == (f + c) + strip_blocks(v.subrange(fi + n, v.len() as int) + ext) by {
        assert(v.subrange(fi, v.len() as int) + ext =~= b + (rest + ext));
        assert(strip_blocks(v + ext) == f + strip_blocks(v.subrange(fi, v.len() as int) + ext));
        assert(strip_blocks(b + (rest + ext)) == c + strip_blocks(rest + ext));
        assert(f + (c + strip_blocks(rest + ext)) =~= (f + c) + strip_blocks(rest + ext));
    }
}

/// A first occurrence found in `v` at or after `d + k` that ends inside
/// `v[d..d+n]` is the first occurrence in that slice too.
proof fn lemma_first_occ_slice(v: Seq<char>, d: int, n: int, p: Seq<char>, k: int, i: int)
    requires
        0 <= d,
        d + n <= v.len(),
        0 <= k <= i,
        i + p.len() <= n,
        first_occ(v, p, d + k) == Some(d + i),
    ensures
        first_occ(v.subrange(d, d + n), p, k) == Some(i),
{
    let q = v.subrange(0, d);
    let h = v.subrange(d, v.len() as int);
    assert(v =~= q + h);
    lemma_first_occ_shift(q, h, p, k);
    let b = v.subrange(d, d + n);
    let rest = v.subrange(d + n, v.len() as int);
    assert(h =~= b + rest);
    lemma_first_occ_within(b, rest, p, k, i);
}

/// No occurrence in `v` at or after `d` that ends inside `v[d..d+n]` means
/// none in the slice.
proof fn lemma_no_occ_slice(v: Seq<char>, d: int, n: int, p: Seq<char>)
    requires
        0 <= d,
        0 <= n,
        d + n <= v.len(),
        match first_occ(v, p, d) {
            None => true,
            Some(m) => m + p.len() > d + n,
        },
    ensures
        first_occ(v.subrange(d, d + n), p, 0) is None,
{
    let b = v.subrange(d, d + n);
    lemma_first_occ_props(v, p, d);
    assert forall|m: int| 0 <= m implies !occurs_at(b, p, m) by {
        if occurs_at(b, p, m) {
            let rest = v.subrange(d + n, v.len() as int);
            lemma_occurs_within(b, rest, p, m);
            let q = v.subrange(0, d);
            assert(v =~= q + (b + rest));
            lemma_occurs_shift(q, b + rest, p, m);
        }
    }
    lemma_first_occ_unique(b, p, 0, None);
}

/// `c` may start a block the strip passes remove: `<` or `[`.
pub open spec fn is_danger(c: char) -> bool {
    c == '<' || c == '['
}

/// The first `<` or `[` of `v` at or after `from`.
pub open spec fn danger_from(v: Seq<char>, from: int) -> Option<int>
    decreases v.len() - from,
{
    if from < 0 || from >= v.len() {
        None
    } else if is_danger(v[from]) {
        Some(from)
    } else {
        danger_from(v, from + 1)
    }
}

pub proof fn lemma_danger_from_props(v: Seq<char>, from: int)
    requires
        0 <= from,
    ensures
        danger_from(v, from) matches Some(d) ==> from <= d < v.len() && is_danger(v[d])
            && forall|m: int| from <= m < d ==> !is_danger(#[trigger] v[m]),
        danger_from(v, from) is None ==> forall|m: int| from <= m < v.len() ==> !is_danger(#[trigger] v[m]),
    decreases v.len() - from,
{
    if from < v.len() && !is_danger(v[from]) {
        lemma_danger_from_props(v, from + 1);
    }
}

/// Where a complete `<tool_use>…</tool_use>` block starting at `d` ends:
/// just past the first `</tool_use>` after the opener.
pub open spec fn tool_block_end(v: Seq<char>, d: int) -> Option<int> {
    if occurs_at(v, tool_open(), d) {
        match first_occ(v, tool_close(), d + 10) {
            Some(j) => Some(j + 11),
            None => None,
        }
    } else {
        None
    }
}

/// Where a complete `<thinking>…</thinking>` block starting at `d` ends,
/// when no `<tool_use>` opener lies inside it (the tool strip, which runs
/// first, could otherwise eat its closing tag once more input arrives).
pub open spec fn think_block_end(v: Seq<char>, d: int) -> Option<int> {
    if occurs_at(v, think_open(), d) {
        match first_occ(v, think_close(), d + 10) {
            Some(j) => if (first_occ(v, tool_open(), d) matches Some(m) && m <= j + 1) {
                None
            } else {
                Some(j + 11)
            },
            None => None,
        }
    } else {
        None
    }
}

/// Where a complete `[TOOL:…] {…}` block starting at `d` ends, when it
/// holds no `<` (the earlier passes could otherwise rewrite its inside).
pub open spec fn legacy_block_end(v: Seq<char>, d: int) -> Option<int> {
    if occurs_at(v, legacy_open(), d) {
        match legacy_end(v, d) {
            Some(e) => if (exists|m: int| d <= m < e && v[m] == '<') {
                None
            } else {
                Some(e)
            },
            None => None,
        }
    } else {
        None
    }
}

/// The end of the strippable block that starts at `d`, trying the tool,
/// thinking and legacy forms in turn.
pub open spec fn block_end(v: Seq<char>, d: int) -> Option<int> {
    match tool_block_end(v, d) {
        Some(e) => Some(e),
        None => match think_block_end(v, d) {
            Some(e) => Some(e),
            None => legacy_block_end(v, d),
        },
    }
}

/// The `<`/`[` at `d` provably never starts a block: nine more characters
/// are known, none of them `<`, and no opener stands at `d`.
pub open spec fn inert_spec(v: Seq<char>, d: int) -> bool {
    &&& v.len() - d >= 10
    &&& !(exists|m: int| d + 1 <= m < d + 10 && v[m] == '<')
    &&& !occurs_at(v, tool_open(), d)
    &&& !occurs_at(v, think_open(), d)
    &&& !occurs_at(v, legacy_open(), d)
}

pub proof fn lemma_block_end_after(v: Seq<char>, d: int)
    requires
        0 <= d,
    ensures
        block_end(v, d) matches Some(e) ==> d < e <= v.len(),
{
    lemma_first_occ_props(v, tool_close(), d + 10);
    lemma_first_occ_props(v, think_close(), d + 10);
    lemma_legacy_end_props(v, d);
}

/// Where the frozen boundary comes to rest from `fi`: past prose, past each
/// complete block whose removal later input cannot undo, past each lone
/// `<`/`[` that provably opens no block, stopping at the first `<`/`[`
/// that may still start one (or at the end).
pub open spec fn frozen_end(v: Seq<char>, fi: int) -> int
    decreases v.len() - fi,
{
    if fi < 0 || fi >= v.len() {
        v.len() as int
    } else {
        match danger_from(v, fi) {
            None => v.len() as int,
            Some(d) => {
                proof {
                    lemma_danger_from_props(v, fi);
                    lemma_block_end_after(v, d);
                }
                match block_end(v, d) {
                    Some(e) => frozen_end(v, e),
                    None => if inert_spec(v, d) {
                        frozen_end(v, d + 1)
                    } else {
                        d
                    },
                }
            },
        }
    }
}

proof fn lemma_danger_from_is(v: Seq<char>, from: int, d: int)
    requires
        0 <= from <= d < v.len(),
        is_danger(v[d]),
        forall|m: int| from <= m < d ==> !is_danger(#[trigger] v[m]),
    ensures
        danger_from(v, from) == Some(d),
    decreases d - from,
{
    if from < d {
        assert(!is_danger(v[from]));
        lemma_danger_from_is(v, from + 1, d);
    }
}

proof fn lemma_danger_from_none(v: Seq<char>, from: int)
    requires
        0 <= from,
        forall|m: int| from <= m < v.len() ==> !is_danger(#[trigger] v[m]),
    ensures
        danger_from(v, from) is None,
    decreases v.len() - from,
{
    if from < v.len() {
        assert(!is_danger(v[from]));
        lemma_danger_from_none(v, from + 1);
    }
}

fn find_danger(v: &Vec<char>, from: usize) -> (r: Option<usize>)
    requires
        from <= v.len(),
    ensures
        r matches Some(d) ==> from <= d < v.len() && (v@[d as int] == '<' || v@[d as int] == '[')
            && forall|m: int| from <= m < d ==> v@[m] != '<' && v@[m] != '[',
        r is None ==> forall|m: int| from <= m < v.len() ==> v@[m] != '<' && v@[m] != '[',
        r matches Some(d) ==> danger_from(v@, from as int) == Some(d as int),
        r is None ==> danger_from(v@, from as int) is None,
{
    proof { lemma_danger_from_props(v@, from as int); }
    let mut i = from;
    while i < v.len()
        invariant
            from <= i <= v.len(),
            forall|m: int| from <= m < i ==> v@[m] != '<' && v@[m] != '[',
        decreases v.len() - i,
    {
        if v[i] == '<' || v[i] == '[' {
            proof {
                assert forall|m: int| from <= m < i implies !is_danger(#[trigger] v@[m]) by {}
                lemma_danger_from_is(v@, from as int, i as int);
            }
            return Some(i);
        }
        i += 1;
    }
    proof {
        assert forall|m: int| from <= m < v@.len() implies !is_danger(#[trigger] v@[m]) by {}
        lemma_danger_from_none(v@, from as int);
    }
    None
}

fn has_lt(v: &Vec<char>, from: usize, to: usize) -> (b: bool)
    requires
        from <= to <= v.len(),
    ensures
        b == exists|m: int| from <= m < to && v@[m] == '<',
{
    let mut i = from;
    while i < to
        invariant
            from <= i <= to <= v.len(),
            forall|m: int| from <= m < i ==> v@[m] != '<',
        decreases to - i,
    {
        if v[i] == '<' {
            return true;
        }
        i += 1;
    }
    false
}

proof fn lemma_freeze_prose(v: Seq<char>, start: int, d: int, f: Seq<char>)
    requires
        0 <= start <= d <= v.len(),
        frozen_ok(v, start, f),
        forall|m: int| start <= m < d ==> v[m] != '<' && v[m] != '[',
    ensures
        frozen_ok(v, d, f + v.subrange(start, d)),
{
    let q = v.subrange(start, d);
    let rest = v.subrange(d, v.len() as int);
    assert forall|ext: Seq<char>| #[trigger] strip_blocks(v.subrange(start, start + (d - start)) + (v.subrange(start + (d - start), v.len() as int) + ext))
        == q + strip_blocks(v.subrange(start + (d - start), v.len() as int) + ext) by {
        assert(start + (d - start) == d);
        lemma_blocks_prose(q, rest + ext);
    }
    lemma_frozen_step(v, start, d - start, f, q);
}

fn try_tool_block(v: &Vec<char>, d: usize, Ghost(f): Ghost<Seq<char>>) -> (r: Option<usize>)
    requires
        d < v.len(),
        frozen_ok(v@, d as int, f),
    ensures
        r matches Some(end) ==> d < end <= v.len() && frozen_ok(v@, end as int, f),
        r matches Some(end) ==> tool_block_end(v@, d as int) == Some(end as int),
        r is None ==> tool_block_end(v@, d as int) is None,
{
    let topen = tool_open_vec();
    let tclose = tool_close_vec();
    if !occurs_at_exec(v, &topen, d) {
        return None;
    }
    match find_first(v, &tclose, d + 10) {
        Some(j) => {
            proof {
                lemma_first_occ_props(v@, tclose@, (d + 10) as int);
                let n = j + 11 - d;
                lemma_first_occ_unique(v@, topen@, d as int, Some(d as int));
                lemma_first_occ_slice(v@, d as int, n, topen@, 0, 0);
                lemma_first_occ_slice(v@, d as int, n, tclose@, 10, j - d);
                let b = v@.subrange(d as int, d + n);
                let rest = v@.subrange(d + n, v.len() as int);
                assert forall|ext: Seq<char>| #[trigger] strip_blocks(v@.subrange(d as int, d + n) + (v@.subrange(d + n, v.len() as int) + ext))
                    == Seq::<char>::empty() + strip_blocks(v@.subrange(d + n, v.len() as int) + ext) by {
                    lemma_blocks_tool(b, rest + ext);
                    assert(Seq::<char>::empty() + strip_blocks(rest + ext) =~= strip_blocks(rest + ext));
                }
                lemma_frozen_step(v@, d as int, n, f, Seq::<char>::empty());
                assert(f + Seq::<char>::empty() =~= f);
            }
            Some(j + 11)
        },
        None => None,
    }
}

fn try_think_block(v: &Vec<char>, d: usize, Ghost(f): Ghost<Seq<char>>) -> (r: Option<usize>)
    requires
        d < v.len(),
        frozen_ok(v@, d as int, f),
    ensures
        r matches Some(end) ==> d < end <= v.len() && frozen_ok(v@, end as int, f),
        r matches Some(end) ==> think_block_end(v@, d as int) == Some(end as int),
        r is None ==> think_block_end(v@, d as int) is None,
{
    let topen = tool_open_vec();
    let kopen = think_open_vec();
    let kclose = think_close_vec();
    if !occurs_at_exec(v, &kopen, d) {
        return None;
    }
    match find_first(v, &kclose, d + 10) {
        Some(j) => {
            proof { lemma_first_occ_props(v@, kclose@, (d + 10) as int); }
            let inner = find_first(v, &topen, d);
            let clean = match inner {
                None => true,
                Some(m) => m > j + 1,
            };
            if !clean {
                return None;
            }
            proof {
                let n = j + 11 - d;
                lemma_first_occ_unique(v@, kopen@, d as int, Some(d as int));
                lemma_first_occ_slice(v@, d as int, n, kopen@, 0, 0);
                lemma_first_occ_slice(v@, d as int, n, kclose@, 10, j - d);
                lemma_no_occ_slice(v@, d as int, n, topen@);
                let b = v@.subrange(d as int, d + n);
                let rest = v@.subrange(d + n, v.len() as int);
                assert forall|ext: Seq<char>| #[trigger] strip_blocks(v@.subrange(d as int, d + n) + (v@.subrange(d + n, v.len() as int) + ext))
                    == Seq::<char>::empty() + strip_blocks(v@.subrange(d + n, v.len() as int) + ext) by {
                    lemma_blocks_think(b, rest + ext);
                    assert(Seq::<char>::empty() + strip_blocks(rest + ext) =~= strip_blocks(rest + ext));
                }
                lemma_frozen_step(v@, d as int, n, f, Seq::<char>::empty());
                assert(f + Seq::<char>::empty() =~= f);
            }
            Some(j + 11)
        },
        None => None,
    }
}

fn try_legacy_block(v: &Vec<char>, d: usize, Ghost(f): Ghost<Seq<char>>) -> (r: Option<usize>)
    requires
        d < v.len(),
        frozen_ok(v@, d as int, f),
    ensures
        r matches Some(end) ==> d < end <= v.len() && frozen_ok(v@, end as int, f),
        r matches Some(end) ==> legacy_block_end(v@, d as int) == Some(end as int),
        r is None ==> legacy_block_end(v@, d as int) is None,
{
    let lopen = legacy_open_vec();
    if !occurs_at_exec(v, &lopen, d) {
        return None;
    }
    match legacy_end_exec(v, d) {
        Some(e) => {
            proof { lemma_legacy_end_props(v@, d as int); }
            if has_lt(v, d, e) {
                return None;
            }
            proof {
                let n = e - d;
                let b = v@.subrange(d as int, e as int);
                let rest = v@.subrange(e as int, v.len() as int);
                let q = v@.subrange(0, d as int);
                let h = v@.subrange(d as int, v.len() as int);
                assert(v@ =~= q + h);
                assert(h =~= b + rest);
                lemma_legacy_end_shift(q, h, 0);
                lemma_legacy_end_within(b, rest);
                lemma_first_occ_unique(v@, lopen@, d as int, Some(d as int));
                lemma_first_occ_slice(v@, d as int, n, lopen@, 0, 0);
                assert forall|m: int| 0 <= m < b.len() implies b[m] != '<' by {
                    assert(b[m] == v@[d + m]);
                }
                assert forall|ext: Seq<char>| #[trigger] strip_blocks(v@.subrange(d as int, d + n) + (v@.subrange(d + n, v.len() as int) + ext))
                    == Seq::<char>::empty() + strip_blocks(v@.subrange(d + n, v.len() as int) + ext) by {
                    lemma_blocks_legacy(b, rest + ext);
                    assert(Seq::<char>::empty() + strip_blocks(rest + ext) =~= strip_blocks(rest + ext));
                }
                lemma_frozen_step(v@, d as int, n, f, Seq::<char>::empty());
                assert(f + Seq::<char>::empty() =~= f);
            }
            Some(e)
        },
        None => None,
    }
}

/// Whether the `<`/`[` at `d` provably never starts a block, however the
/// input goes on: nine more characters known, none of them `<`, and no
/// opener at `d`.
fn inert_at(v: &Vec<char>, d: usize, Ghost(f): Ghost<Seq<char>>) -> (b: bool)
    requires
        d < v.len(),
        frozen_ok(v@, d as int, f),
    ensures
        b == inert_spec(v@, d as int),
        b ==> frozen_ok(v@, d + 1, f + seq![v@[d as int]]),
{
    let topen = tool_open_vec();
    let kopen = think_open_vec();
    let lopen = legacy_open_vec();
    let inert = v.len() - d >= 10 && !has_lt(v, d + 1, d + 10)
        && !occurs_at_exec(v, &topen, d) && !occurs_at_exec(v, &kopen, d)
        && !occurs_at_exec(v, &lopen, d);
    if inert {
        proof {
            let ch = v@[d as int];
            let rest = v@.subrange(d + 1, v.len() as int);
            assert(v@.subrange(d as int, d + 1) =~= seq![ch]);
            assert forall|ext: Seq<char>| #[trigger] strip_blocks(v@.subrange(d as int, d + 1) + (v@.subrange(d + 1, v.len() as int) + ext))
                == seq![ch] + strip_blocks(v@.subrange(d + 1, v.len() as int) + ext) by {
                let e2 = rest + ext;
                assert forall|m: int| 0 <= m < 9 implies e2[m] != '<' by {
                    assert(e2[m] == v@[d + 1 + m]);
                }
                assert((seq![ch] + e2).subrange(0, 10) =~= v@.subrange(d as int, d + 10));
                assert((seq![ch] + e2).subrange(0, 6) =~= v@.subrange(d as int, d + 6));
                lemma_blocks_inert(ch, e2);
            }
            lemma_frozen_step(v@, d as int, 1, f, seq![ch]);
        }
    }
    inert
}

/// How far the frozen boundary `fi` may move: past prose, past complete
/// blocks whose removal later input cannot undo, and past a lone `<`/`[`
/// that provably opens no block.
fn advance(v: &Vec<char>, fi: &mut usize, fs: &mut String)
    requires
        *old(fi) <= v.len(),
        frozen_ok(v@, *old(fi) as int, old(fs)@),
    ensures
        *final(fi) <= v.len(),
        frozen_ok(v@, *final(fi) as int, final(fs)@),
        *final(fi) == frozen_end(v@, *old(fi) as int),
{
    let ghost target = frozen_end(v@, *fi as int);
    loop
        invariant
            *fi <= v.len(),
            frozen_ok(v@, *fi as int, fs@),
            frozen_end(v@, *fi as int) == target,
            target == frozen_end(v@, *old(fi) as int),
        decreases v.len() - *fi,
    {
        let start = *fi;
        match find_danger(v, start) {
            None => {
                proof { lemma_freeze_prose(v@, start as int, v.len() as int, fs@); }
                push_chars(fs, v, start, v.len());
                *fi = v.len();
                return;
            },
            Some(d) => {
                proof { lemma_freeze_prose(v@, start as int, d as int, fs@); }
                push_chars(fs, v, start, d);
                *fi = d;
                if let Some(end) = try_tool_block(v, d, Ghost(fs@)) {
                    *fi = end;
                } else if let Some(end) = try_think_block(v, d, Ghost(fs@)) {
                    *fi = end;
                } else if let Some(end) = try_legacy_block(v, d, Ghost(fs@)) {
                    *fi = end;
                } else if inert_at(v, d, Ghost(fs@)) {
                    let ghost before = fs@;
                    push_char(fs, v[d]);
                    assert(fs@ =~= before + seq![v@[d as int]]);
                    *fi = d + 1;
                } else {
                    return;
                }
            },
        }
    }
}

/// Incremental equivalent of [`stream_visible_text`] for streaming.
///
/// The runner hands it the whole accumulated reply after every delta. The
/// tracker freezes the input prefix whose stripped form can no longer
/// change and reruns the strip passes only on the remaining hot tail; the
/// final truncation runs over the whole stripped text every time, because a
/// `[TOOL:` cut marker can be spliced together across the frozen/hot seam.
/// Positions count characters.
pub struct StreamTextTracker {
    /// Characters of the input whose stripped form is final.
    frozen_input: usize,
    /// Stripped (pre-truncation) form of the frozen prefix.
    frozen_stripped: String,
    /// Everything seen so far.
    seen: Ghost<Seq<char>>,
}

impl StreamTextTracker {
    /// The input the tracker has seen so far; the next call must extend it.
    pub closed spec fn seen(&self) -> Seq<char> {
        self.seen@
    }

    /// How many characters of the input are frozen: their stripped form is
    /// final whatever follows.
    pub closed spec fn frozen(&self) -> int {
        self.frozen_input as int
    }

    #[verifier::type_invariant]
    spec fn wf(&self) -> bool {
        &&& self.frozen_input <= self.seen@.len()
        &&& frozen_ok(self.seen@, self.frozen_input as int, self.frozen_stripped@)
    }

    /// A tracker that has seen nothing yet.
    pub fn new() -> (t: Self)
        ensures
            t.seen() == Seq::<char>::empty(),
            t.frozen() == 0,
    {
        let t = StreamTextTracker { frozen_input: 0, frozen_stripped: String::new(), seen: Ghost(Seq::empty()) };
        assert forall|ext: Seq<char>| #[trigger] strip_blocks(Seq::<char>::empty() + ext)
            == Seq::<char>::empty() + strip_blocks(Seq::<char>::empty().subrange(0, 0) + ext) by {
            assert(Seq::<char>::empty() + ext =~= ext);
            assert(Seq::<char>::empty().subrange(0, 0) + ext =~= ext);
            assert(Seq::<char>::empty() + strip_blocks(ext) =~= strip_blocks(ext));
        }
        t
    }

    /// Characters of input frozen so far.
    pub fn frozen_input(&self) -> (n: usize)
        ensures
            n == self.frozen(),
            n <= self.seen().len(),
    {
        proof { use_type_invariant(&*self); }
        self.frozen_input
    }

    /// The visible text of `full`, which must extend what the tracker has
    /// seen (the reply only ever grows): always equal to
    /// `stream_visible_text(full)`.
    pub fn visible(&mut self, full: &str) -> (r: String)
        requires
            old(self).seen().len() <= full@.len(),
            full@.take(old(self).seen().len() as int) == old(self).seen(),
        ensures
            r@ == stream_visible(full@),
            final(self).seen() == full@,
            final(self).frozen() == frozen_end(full@, old(self).frozen()),
    {
        proof { use_type_invariant(&*self); }
        let v = chars_of(full);
        let mut fi = self.frozen_input;
        let mut fs = self.frozen_stripped.clone();
        proof { lemma_frozen_extend(self.seen@, v@, fi as int, fs@); }
        advance(&v, &mut fi, &mut fs);
        let mut hot: Vec<char> = Vec::new();
        append_range(&mut hot, &v, fi, v.len());
        let hot_stripped = strip_blocks_exec(&hot);
        let mut stripped = chars_of(fs.as_str());
        let n = hot_stripped.len();
        append_range(&mut stripped, &hot_stripped, 0, n);
        proof {
            assert(hot_stripped@.subrange(0, n as int) =~= hot_stripped@);
            assert(v@ + Seq::<char>::empty() =~= v@);
            assert(v@.subrange(fi as int, v@.len() as int) + Seq::<char>::empty() =~= hot@);
            assert(strip_blocks(v@ + Seq::<char>::empty())
                == fs@ + strip_blocks(v@.subrange(fi as int, v@.len() as int) + Seq::<char>::empty()));
        }
        let shown = truncate_visible(&stripped);
        *self = StreamTextTracker { frozen_input: fi, frozen_stripped: fs, seen: Ghost(v@) };
        string_of(&shown, 0, shown.len())
    }
}

impl Default for StreamTextTracker {
    fn default() -> (t: Self)
        ensures
            t.seen() == Seq::<char>::empty(),
            t.frozen() == 0,
    {
        Self::new()
    }
}

// ───────────────────────────── parsing the calls ─────────────────────────────

pub open spec fn name_open() -> Seq<char> { seq!['<', 'n', 'a', 'm', 'e', '>'] }
pub open spec fn name_close() -> Seq<char> { seq!['<', '/', 'n', 'a', 'm', 'e', '>'] }
pub open spec fn args_open() -> Seq<char> {
    seq!['<', 'a', 'r', 'g', 'u', 'm', 'e', 'n', 't', 's', '>']
}
pub open spec fn args_close() -> Seq<char> {
    seq!['<', '/', 'a', 'r', 'g', 'u', 'm', 'e', 'n', 't', 's', '>']
}

fn name_open_vec() -> (v: Vec<char>) ensures v@ == name_open() {
    let v = vec!['<', 'n', 'a', 'm', 'e', '>'];
    assert(v@ == name_open());
    v
}
fn name_close_vec() -> (v: Vec<char>) ensures v@ == name_close() {
    let v = vec!['<', '/', 'n', 'a', 'm', 'e', '>'];
    assert(v@ == name_close());
    v
}
fn args_open_vec() -> (v: Vec<char>) ensures v@ == args_open() {
    let v = vec!['<', 'a', 'r', 'g', 'u', 'm', 'e', 'n', 't', 's', '>'];
    assert(v@ == args_open());
    v
}
fn args_close_vec() -> (v: Vec<char>) ensures v@ == args_close() {
    let v = vec!['<', '/', 'a', 'r', 'g', 'u', 'm', 'e', 'n', 't', 's', '>'];
    assert(v@ == args_close());
    v
}

proof fn lemma_pattern_lengths()
    ensures
        tool_open().len() == 10,
        tool_close().len() == 11,
        legacy_open().len() == 6,
        name_open().len() == 6,
        name_close().len() == 7,
        args_open().len() == 11,
        args_close().len() == 12,
{
}

/// A tool call found in a reply, as the specifications see it.
pub struct CallView {
    pub id: Option<Seq<char>>,
    pub name: Seq<char>,
    pub arguments: Seq<char>,
}

/// A tool call found in a reply. The arguments are the JSON text of the
/// call, checked to parse.
#[derive(Debug, Clone)]
pub struct ParsedToolCall {
    /// The provider's id when the call came over the native protocol;
    /// `None` on the prompt path, where the loop makes one up.
    pub id: Option<String>,
    pub name: String,
    pub arguments: String,
}

impl View for ParsedToolCall {
    type V = CallView;

    open spec fn view(&self) -> CallView {
        CallView { id: self.id.deep_view(), name: self.name@, arguments: self.arguments@ }
    }
}

impl From<&ToolCall> for ParsedToolCall {
    fn from(call: &ToolCall) -> (p: ParsedToolCall) {
        ParsedToolCall { id: Some(call.id.clone()), name: call.name.clone(), arguments: call.arguments.clone() }
    }
}

impl vstd::std_specs::convert::FromSpecImpl<&ToolCall> for ParsedToolCall {
    open spec fn obeys_from_spec() -> bool {
        true
    }

    open spec fn from_spec(call: &ToolCall) -> ParsedToolCall {
        ParsedToolCall { id: Some(call.id), name: call.name, arguments: call.arguments }
    }
}

/// Start of the name and position of its closer in a `<tool_use>` body:
/// the first `<name>`, and the first `</name>` after it.
pub open spec fn name_span(body: Seq<char>) -> Option<(int, int)> {
    match first_occ(body, name_open(), 0) {
        Some(a) => match first_occ(body, name_close(), a + 6) {
            Some(b) => Some((a + 6, b)),
            None => None,
        },
        None => None,
    }
}

/// The arguments region of a `<tool_use>` body: a well-formed
/// `<arguments>…</arguments>`; else everything after an unclosed
/// `<arguments>` opener, cut at any stray closer; else the first JSON
/// object after `</name>`.
pub open spec fn arguments_region(body: Seq<char>) -> Option<Seq<char>> {
    match first_occ(body, args_open(), 0) {
        Some(a) => match first_occ(body, args_close(), a + 11) {
            Some(b) => Some(trim(body.subrange(a + 11, b))),
            None => Some(
                trim(cut_at(cut_at(body.subrange(a + 11, body.len() as int), args_close()), tool_close())),
            ),
        },
        None => {
            let after = match name_span(body) {
                Some(span) => body.subrange(span.1 + 7, body.len() as int),
                None => body,
            };
            match first_occ(after, seq!['{'], 0) {
                Some(k) => Some(trim(after.subrange(k, after.len() as int))),
                None => None,
            }
        },
    }
}

pub open spec fn invalid_arguments_message(name: Seq<char>, error: Seq<char>) -> Seq<char> {
    "tool `"@ + name + "`: <arguments> is not valid JSON ("@ + error
        + "). Re-send with a valid JSON object and escape every backslash (\\\\) and quote (\\\") inside string values."@
}

pub open spec fn missing_arguments_message(name: Seq<char>) -> Seq<char> {
    "tool `"@ + name + "`: missing <arguments> block. Send exactly <tool_use><name>"@ + name
        + "</name><arguments>{ ... }</arguments></tool_use>."@
}

pub open spec fn nameless_message() -> Seq<char> {
    "a <tool_use> block had no <name> tag and no \"tool\"/\"name\" field in its JSON."@
}

pub open spec fn malformed_block_message(error: Seq<char>) -> Seq<char> {
    "malformed <tool_use> block ("@ + error
        + "). Use <tool_use><name>TOOL</name><arguments>{ valid JSON }</arguments></tool_use>."@
}

pub open spec fn legacy_invalid_message(name: Seq<char>, error: Seq<char>) -> Seq<char> {
    "tool `"@ + name + "`: arguments are not valid JSON ("@ + error + ")."@
}

/// The name a bare-JSON body gives: its `"tool"` member when it has one,
/// else its `"name"` member; either only when it is a JSON string.
pub open spec fn bare_name(body: Seq<char>) -> Option<Seq<char>> {
    match json_member_of(body, "tool"@) {
        Some(m) => json_string_of(m),
        None => match json_member_of(body, "name"@) {
            Some(m) => json_string_of(m),
            None => None,
        },
    }
}

/// The arguments a bare-JSON body gives: its `"args"` member, else its
/// `"arguments"` member, else an empty object.
pub open spec fn bare_arguments(body: Seq<char>) -> Seq<char> {
    match json_member_of(body, "args"@) {
        Some(m) => m,
        None => match json_member_of(body, "arguments"@) {
            Some(m) => m,
            None => "{}"@,
        },
    }
}

/// What one `<tool_use>` body (already trimmed) yields: a call, or the
/// diagnostic that is fed back to the model.
pub open spec fn block_outcome(body: Seq<char>) -> Result<CallView, Seq<char>> {
    match name_span(body) {
        Some(span) => {
            let name = trim(body.subrange(span.0, span.1));
            match arguments_region(body) {
                Some(args) => match json_error_of(trim(args)) {
                    None => Ok(CallView { id: None, name, arguments: trim(args) }),
                    Some(error) => Err(invalid_arguments_message(name, error)),
                },
                None => Err(missing_arguments_message(name)),
            }
        },
        None => match json_error_of(body) {
            Some(error) => Err(malformed_block_message(error)),
            None => match bare_name(body) {
                Some(name) => Ok(CallView { id: None, name, arguments: bare_arguments(body) }),
                None => Err(nameless_message()),
            },
        },
    }
}

/// The outcomes of the `<tool_use>` blocks of `s[pos..]`, in order: the
/// first opener, the first closer after it, the body between them trimmed.
pub open spec fn xml_outcomes_from(s: Seq<char>, pos: int) -> Seq<Result<CallView, Seq<char>>>
    decreases s.len() - pos when 0 <= pos <= s.len()
{
    match first_occ(s, tool_open(), pos) {
        None => Seq::empty(),
        Some(i) => match first_occ(s, tool_close(), i + 10) {
            None => Seq::empty(),
            Some(j) => {
                proof {
                    lemma_first_occ_props(s, tool_open(), pos);
                    lemma_first_occ_props(s, tool_close(), i + 10);
                }
                seq![block_outcome(trim(s.subrange(i + 10, j)))] + xml_outcomes_from(s, j + 11)
            },
        },
    }
}

/// What the legacy block `s[i..e]` yields: its name, and its `{…}`
/// arguments when they parse.
pub open spec fn legacy_outcome(s: Seq<char>, i: int, e: int) -> Result<CallView, Seq<char>> {
    let c = first_occ(s, seq![']'], i + 6)->0;
    let w = skip_ws(s, c + 1);
    let name = s.subrange(i + 6, c);
    let args = s.subrange(w, e);
    match json_error_of(args) {
        None => Ok(CallView { id: None, name, arguments: args }),
        Some(error) => Err(legacy_invalid_message(name, error)),
    }
}

/// The outcomes of the legacy `[TOOL:name] {…}` blocks of `s[pos..]`.
pub open spec fn legacy_outcomes_from(s: Seq<char>, pos: int) -> Seq<Result<CallView, Seq<char>>>
    decreases s.len() - pos when 0 <= pos <= s.len()
{
    match first_occ(s, legacy_open(), pos) {
        None => Seq::empty(),
        Some(i) => {
            proof {
                lemma_first_occ_props(s, legacy_open(), pos);
                lemma_legacy_end_props(s, i);
            }
            match legacy_end(s, i) {
                Some(e) => seq![legacy_outcome(s, i, e)] + legacy_outcomes_from(s, e),
                None => legacy_outcomes_from(s, i + 1),
            }
        },
    }
}

/// The calls among `o`, in order.
pub open spec fn oks(o: Seq<Result<CallView, Seq<char>>>) -> Seq<CallView>
    decreases o.len(),
{
    if o.len() == 0 {
        Seq::empty()
    } else {
        match o[0] {
            Ok(c) => seq![c] + oks(o.drop_first()),
            Err(_) => oks(o.drop_first()),
        }
    }
}

/// The diagnostics among `o`, in order.
pub open spec fn errs(o: Seq<Result<CallView, Seq<char>>>) -> Seq<Seq<char>>
    decreases o.len(),
{
    if o.len() == 0 {
        Seq::empty()
    } else {
        match o[0] {
            Ok(_) => errs(o.drop_first()),
            Err(e) => seq![e] + errs(o.drop_first()),
        }
    }
}

/// The calls of a reply: those of its `<tool_use>` blocks, then those of
/// its legacy blocks.
pub open spec fn parsed_calls(text: Seq<char>) -> Seq<CallView> {
    oks(xml_outcomes_from(text, 0)) + oks(legacy_outcomes_from(text, 0))
}

/// The diagnostics of a reply, in the same order.
pub open spec fn parse_errors(text: Seq<char>) -> Seq<Seq<char>> {
    errs(xml_outcomes_from(text, 0)) + errs(legacy_outcomes_from(text, 0))
}

/// The views of a sequence of parsed calls.
pub open spec fn call_views(calls: Seq<ParsedToolCall>) -> Seq<CallView> {
    calls.map_values(|c: ParsedToolCall| c@)
}

proof fn lemma_oks_errs_cons(o: Result<CallView, Seq<char>>, rest: Seq<Result<CallView, Seq<char>>>)
    ensures
        oks(seq![o] + rest) == match o {
            Ok(c) => seq![c] + oks(rest),
            Err(_) => oks(rest),
        },
        errs(seq![o] + rest) == match o {
            Ok(_) => errs(rest),
            Err(e) => seq![e] + errs(rest),
        },
{
    assert((seq![o] + rest).drop_first() =~= rest);
    assert((seq![o] + rest)[0] == o);
}

/// `v[from..to]` as a string, trimmed.
fn trimmed_range(v: &Vec<char>, from: usize, to: usize) -> (s: String)
    requires
        from <= to <= v.len(),
    ensures
        s@ == trim(v@.subrange(from as int, to as int)),
{
    let (i, j) = crate::text::trim_bounds(v, from, to);
    string_of(v, i, j)
}

/// Where the name of a `<tool_use>` body starts, and where its closer does.
fn find_name_span(body: &Vec<char>) -> (r: Option<(usize, usize)>)
    ensures
        r matches Some(span) ==> name_span(body@) == Some((span.0 as int, span.1 as int)) && span.0
            <= span.1 && span.1 + 7 <= body@.len(),
        r is None ==> name_span(body@) is None,
{
    let no = name_open_vec();
    let nc = name_close_vec();
    proof { lemma_pattern_lengths(); }
    let n = body.len();
    match find_first(body, &no, 0) {
        Some(a) => {
            proof { lemma_first_occ_props(body@, name_open(), 0); }
            assert(occurs_at(body@, name_open(), a as int));
            assert(a + 6 <= n);
            match find_first(body, &nc, a + 6) {
                Some(b) => {
                    proof { lemma_first_occ_props(body@, name_close(), a + 6); }
                    assert(occurs_at(body@, name_close(), b as int));
                    assert(b + 7 <= n);
                    Some((a + 6, b))
                },
                None => None,
            }
        },
        None => None,
    }
}

/// Pull the JSON arguments out of a `<tool_use>` body, tolerating the
/// common malformations that weaker models produce.
fn extract_arguments(body: &Vec<char>) -> (r: Option<String>)
    ensures
        r.deep_view() == arguments_region(body@),
{
    let ao = args_open_vec();
    let ac = args_close_vec();
    proof { lemma_pattern_lengths(); }
    let n = body.len();
    match find_first(body, &ao, 0) {
        Some(a) => {
            proof { lemma_first_occ_props(body@, args_open(), 0); }
            assert(occurs_at(body@, args_open(), a as int));
            assert(a + 11 <= n);
            match find_first(body, &ac, a + 11) {
                Some(b) => {
                    proof { lemma_first_occ_props(body@, args_close(), a + 11); }
                    Some(trimmed_range(body, a + 11, b))
                },
                None => {
                    let mut rest: Vec<char> = Vec::new();
                    append_range(&mut rest, body, a + 11, body.len());
                    let cut = cut_at_exec(&rest, &ac);
                    let cut2 = cut_at_exec(&cut, &tool_close_vec());
                    assert(cut2@.subrange(0, cut2@.len() as int) == cut2@);
                    Some(trimmed_range(&cut2, 0, cut2.len()))
                },
            }
        },
        None => {
            let mut after: Vec<char> = Vec::new();
            let from: usize = match find_name_span(body) {
                Some(span) => {
                    assert(span.1 + 7 <= n);
                    span.1 + 7
                },
                None => 0,
            };
            append_range(&mut after, body, from, body.len());
            assert(from == 0 ==> body@.subrange(0, body@.len() as int) == body@);
            let brace = vec!['{'];
            assert(brace@ == seq!['{']);
            match find_first(&after, &brace, 0) {
                Some(k) => {
                    proof { lemma_first_occ_props(after@, seq!['{'], 0); }
                    Some(trimmed_range(&after, k, after.len()))
                },
                None => None,
            }
        },
    }
}

/// The name of a bare-JSON body.
fn bare_name_exec(body: &str) -> (r: Option<String>)
    ensures
        r.deep_view() == bare_name(body@),
{
    match json_member(body, "tool") {
        Some(m) => json_string(m.as_str()),
        None => match json_member(body, "name") {
            Some(m) => json_string(m.as_str()),
            None => None,
        },
    }
}

/// The arguments of a bare-JSON body.
fn bare_arguments_exec(body: &str) -> (r: String)
    ensures
        r@ == bare_arguments(body@),
{
    match json_member(body, "args") {
        Some(m) => m,
        None => match json_member(body, "arguments") {
            Some(m) => m,
            None => "{}".to_owned(),
        },
    }
}

/// What one trimmed `<tool_use>` body yields.
fn block_outcome_exec(body: &Vec<char>) -> (r: Result<ParsedToolCall, String>)
    ensures
        match r {
            Ok(c) => block_outcome(body@) == Ok::<CallView, Seq<char>>(c@),
            Err(e) => block_outcome(body@) == Err::<CallView, Seq<char>>(e@),
        },
{
    let span = find_name_span(body);
    match span {
        Some((from, to)) => {
            assert(name_span(body@) == Some((from as int, to as int)));
            let name = trimmed_range(body, from, to);
            match extract_arguments(body) {
                Some(args) => {
                    let args = trimmed(args.as_str());
                    match json_error(args.as_str()) {
                        None => Ok(ParsedToolCall { id: None, name, arguments: args }),
                        Some(error) => {
                            let mut m = "tool `".to_owned();
                            m.append(name.as_str());
                            m.append("`: <arguments> is not valid JSON (");
                            m.append(error.as_str());
                            m.append(
                                "). Re-send with a valid JSON object and escape every backslash (\\\\) and quote (\\\") inside string values.",
                            );
                            Err(m)
                        },
                    }
                },
                None => {
                    let mut m = "tool `".to_owned();
                    m.append(name.as_str());
                    m.append("`: missing <arguments> block. Send exactly <tool_use><name>");
                    m.append(name.as_str());
                    m.append("</name><arguments>{ ... }</arguments></tool_use>.");
                    Err(m)
                },
            }
        },
        None => {
            assert(name_span(body@) is None);
            let text = string_of(body, 0, body.len());
            assert(body@.subrange(0, body@.len() as int) == body@);
            match json_error(text.as_str()) {
                Some(error) => {
                    let mut m = "malformed <tool_use> block (".to_owned();
                    m.append(error.as_str());
                    m.append("). Use <tool_use><name>TOOL</name><arguments>{ valid JSON }</arguments></tool_use>.");
                    Err(m)
                },
                None => match bare_name_exec(text.as_str()) {
                    Some(name) => Ok(ParsedToolCall { id: None, name, arguments: bare_arguments_exec(text.as_str()) }),
                    None => Err("a <tool_use> block had no <name> tag and no \"tool\"/\"name\" field in its JSON.".to_owned()),
                },
            }
        },
    }
}

/// What the legacy block `s[i..e]` yields.
fn legacy_outcome_exec(s: &Vec<char>, i: usize, e: usize) -> (r: Result<ParsedToolCall, String>)
    requires
        i + 6 <= s.len(),
        legacy_end(s@, i as int) == Some(e as int),
    ensures
        match r {
            Ok(c) => legacy_outcome(s@, i as int, e as int) == Ok::<CallView, Seq<char>>(c@),
            Err(m) => legacy_outcome(s@, i as int, e as int) == Err::<CallView, Seq<char>>(m@),
        },
{
    let bracket = vec![']'];
    assert(bracket@ == seq![']']);
    let c = find_first(s, &bracket, i + 6).unwrap();
    proof { lemma_first_occ_props(s@, seq![']'], (i + 6) as int); }
    let w = skip_ws_exec(s, c + 1);
    proof {
        lemma_skip_ws_props(s@, c + 1);
        lemma_legacy_end_props(s@, i as int);
        lemma_first_occ_props(s@, seq!['}'], w + 1);
    }
    let name = string_of(s, i + 6, c);
    let args = string_of(s, w, e);
    match json_error(args.as_str()) {
        None => Ok(ParsedToolCall { id: None, name, arguments: args }),
        Some(error) => {
            let mut m = "tool `".to_owned();
            m.append(name.as_str());
            m.append("`: arguments are not valid JSON (");
            m.append(error.as_str());
            m.append(").");
            Err(m)
        },
    }
}

/// Record one outcome in the calls or the diagnostics.
fn record(outcome: Result<ParsedToolCall, String>, calls: &mut Vec<ParsedToolCall>, errors: &mut Vec<String>)
    ensures
        match outcome {
            Ok(c) => call_views(final(calls)@) == call_views(old(calls)@).push(c@)
                && final(errors)@ == old(errors)@,
            Err(e) => call_views(final(calls)@) == call_views(old(calls)@)
                && strings_view(final(errors)@) == strings_view(old(errors)@).push(e@),
        },
{
    match outcome {
        Ok(c) => {
            let ghost before = calls@;
            let ghost cv = c@;
            calls.push(c);
            assert(call_views(calls@) =~= call_views(before).push(cv));
        },
        Err(e) => {
            let ghost before = errors@;
            let ghost ev = e@;
            errors.push(e);
            assert(strings_view(errors@) =~= strings_view(before).push(ev));
        },
    }
}

/// Parse every tool call in `text`, returning both the calls and a
/// human-readable diagnostic for each `<tool_use>` / `[TOOL:…]` block that
/// looked like a call but failed to parse, so the model can re-issue it.
///
/// Tolerated beyond the strict `<name>` + `<arguments>` shape: swapped
/// `</arguments>` / `</tool_use>` closers, a dropped `<arguments>` wrapper
/// (the first `{…}` after `<name>`), and the bare-JSON shapes
/// `{"tool":…,"args":…}` and `{"name":…,"arguments":…}`. Broken JSON is
/// never guessed at: it becomes a diagnostic.
pub fn parse_tool_calls_with_errors(text: &str) -> (r: (Vec<ParsedToolCall>, Vec<String>))
    ensures
        call_views(r.0@) == parsed_calls(text@),
        strings_view(r.1@) == parse_errors(text@),
{
    let s = chars_of(text);
    proof { lemma_pattern_lengths(); }
    let mut calls: Vec<ParsedToolCall> = Vec::new();
    let mut errors: Vec<String> = Vec::new();
    let open = tool_open_vec();
    let close = tool_close_vec();
    let mut pos: usize = 0;
    loop
        invariant_except_break
            pos <= s.len(),
            open@ == tool_open(),
            close@ == tool_close(),
            call_views(calls@) + oks(xml_outcomes_from(s@, pos as int)) == oks(xml_outcomes_from(s@, 0)),
            strings_view(errors@) + errs(xml_outcomes_from(s@, pos as int)) == errs(xml_outcomes_from(s@, 0)),
        ensures
            call_views(calls@) == oks(xml_outcomes_from(s@, 0)),
            strings_view(errors@) == errs(xml_outcomes_from(s@, 0)),
        decreases s.len() - pos,
    {
        match find_first(&s, &open, pos) {
            None => {
                assert(xml_outcomes_from(s@, pos as int) == Seq::<Result<CallView, Seq<char>>>::empty());
                assert(call_views(calls@) + Seq::<CallView>::empty() =~= call_views(calls@));
                assert(strings_view(errors@) + Seq::<Seq<char>>::empty() =~= strings_view(errors@));
                break;
            },
            Some(i) => {
                proof { lemma_first_occ_props(s@, tool_open(), pos as int); }
                match find_first(&s, &close, i + 10) {
                    None => {
                        assert(xml_outcomes_from(s@, pos as int) == Seq::<Result<CallView, Seq<char>>>::empty());
                        assert(call_views(calls@) + Seq::<CallView>::empty() =~= call_views(calls@));
                        assert(strings_view(errors@) + Seq::<Seq<char>>::empty() =~= strings_view(errors@));
                        break;
                    },
                    Some(j) => {
                        proof { lemma_first_occ_props(s@, tool_close(), (i + 10) as int); }
                        let (bi, bj) = crate::text::trim_bounds(&s, i + 10, j);
                        let mut body: Vec<char> = Vec::new();
                        append_range(&mut body, &s, bi, bj);
                        assert(body@ == trim(s@.subrange(i + 10, j as int)));
                        let outcome = block_outcome_exec(&body);
                        let ghost o = block_outcome(body@);
                        let ghost rest = xml_outcomes_from(s@, (j + 11) as int);
                        assert(xml_outcomes_from(s@, pos as int) == seq![o] + rest);
                        proof { lemma_oks_errs_cons(o, rest); }
                        let ghost cv0 = call_views(calls@);
                        let ghost ev0 = strings_view(errors@);
                        record(outcome, &mut calls, &mut errors);
                        proof {
                            match o {
                                Ok(c) => {
                                    assert(cv0.push(c) + oks(rest) =~= cv0 + (seq![c] + oks(rest)));
                                },
                                Err(e) => {
                                    assert(ev0.push(e) + errs(rest) =~= ev0 + (seq![e] + errs(rest)));
                                },
                            }
                        }
                        pos = j + 11;
                    },
                }
            },
        }
    }
    let ghost xml_calls = call_views(calls@);
    let ghost xml_errors = strings_view(errors@);
    let lopen = legacy_open_vec();
    pos = 0;
    assert(xml_calls + oks(legacy_outcomes_from(s@, 0)) == parsed_calls(s@));
    loop
        invariant_except_break
            pos <= s.len(),
            lopen@ == legacy_open(),
            call_views(calls@) + oks(legacy_outcomes_from(s@, pos as int)) == parsed_calls(s@),
            strings_view(errors@) + errs(legacy_outcomes_from(s@, pos as int)) == parse_errors(s@),
        ensures
            call_views(calls@) == parsed_calls(s@),
            strings_view(errors@) == parse_errors(s@),
        decreases s.len() - pos,
    {
        match find_first(&s, &lopen, pos) {
            None => {
                assert(legacy_outcomes_from(s@, pos as int) == Seq::<Result<CallView, Seq<char>>>::empty());
                assert(call_views(calls@) + Seq::<CallView>::empty() =~= call_views(calls@));
                assert(strings_view(errors@) + Seq::<Seq<char>>::empty() =~= strings_view(errors@));
                break;
            },
            Some(i) => {
                proof {
                    lemma_first_occ_props(s@, legacy_open(), pos as int);
                    lemma_legacy_end_props(s@, i as int);
                }
                match legacy_end_exec(&s, i) {
                    Some(e) => {
                        let outcome = legacy_outcome_exec(&s, i, e);
                        let ghost o = legacy_outcome(s@, i as int, e as int);
                        let ghost rest = legacy_outcomes_from(s@, e as int);
                        assert(legacy_outcomes_from(s@, pos as int) == seq![o] + rest);
                        proof { lemma_oks_errs_cons(o, rest); }
                        let ghost cv0 = call_views(calls@);
                        let ghost ev0 = strings_view(errors@);
                        record(outcome, &mut calls, &mut errors);
                        proof {
                            match o {
                                Ok(c) => {
                                    assert(cv0.push(c) + oks(rest) =~= cv0 + (seq![c] + oks(rest)));
                                },
                                Err(m) => {
                                    assert(ev0.push(m) + errs(rest) =~= ev0 + (seq![m] + errs(rest)));
                                },
                            }
                        }
                        pos = e;
                    },
                    None => {
                        assert(legacy_outcomes_from(s@, pos as int) == legacy_outcomes_from(s@, (i + 1) as int));
                        pos = i + 1;
                    },
                }
            },
        }
    }
    (calls, errors)
}

/// The calls of `text`, without the diagnostics.
pub fn parse_tool_calls(text: &str) -> (calls: Vec<ParsedToolCall>)
    ensures
        call_views(calls@) == parsed_calls(text@),
{
    parse_tool_calls_with_errors(text).0
}

} // verus!
