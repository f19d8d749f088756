//! Character-level text helpers shared by every module: Unicode
//! whitespace, trimming, UTF-8 widths, substring search and decimal
//! rendering, each stated over the `Seq<char>` view of a string.

use vstd::prelude::*;

verus! {

/// Unicode `White_Space`, the property `char::is_whitespace` reports.
pub open spec fn is_ws(c: char) -> bool {
    let u = c as u32;
    (0x09 <= u && u <= 0x0D) || u == 0x20 || u == 0x85 || u == 0xA0 || u == 0x1680
        || (0x2000 <= u && u <= 0x200A) || u == 0x2028 || u == 0x2029 || u == 0x202F
        || u == 0x205F || u == 0x3000
}

/// Whether `c` is Unicode whitespace.
pub fn is_whitespace(c: char) -> (b: bool)
    ensures
        b == is_ws(c),
{
    let u = c as u32;
    (0x09 <= u && u <= 0x0D) || u == 0x20 || u == 0x85 || u == 0xA0 || u == 0x1680
        || (0x2000 <= u && u <= 0x200A) || u == 0x2028 || u == 0x2029 || u == 0x202F
        || u == 0x205F || u == 0x3000
}

/// `s` without its leading whitespace.
pub open spec fn trim_start(s: Seq<char>) -> Seq<char>
    decreases s.len(),
{
    if s.len() > 0 && is_ws(s[0]) {
        trim_start(s.drop_first())
    } else {
        s
    }
}

/// `s` without its trailing whitespace.
pub open spec fn trim_end(s: Seq<char>) -> Seq<char>
    decreases s.len(),
{
    if s.len() > 0 && is_ws(s.last()) {
        trim_end(s.drop_last())
    } else {
        s
    }
}

/// `s` without leading and trailing whitespace, as `str::trim` gives it.
pub open spec fn trim(s: Seq<char>) -> Seq<char> {
    trim_end(trim_start(s))
}

/// Leading-whitespace removal leaves nothing exactly when every character
/// is whitespace; what it leaves starts with a non-whitespace character.
pub proof fn lemma_trim_start_blank(s: Seq<char>)
    ensures
        (trim_start(s).len() == 0) == (forall|k: int| 0 <= k < s.len() ==> is_ws(#[trigger] s[k])),
        trim_start(s).len() > 0 ==> !is_ws(trim_start(s)[0]),
    decreases s.len(),
{
    if s.len() > 0 && is_ws(s[0]) {
        let t = s.drop_first();
        lemma_trim_start_blank(t);
        if forall|k: int| 0 <= k < t.len() ==> is_ws(#[trigger] t[k]) {
            assert forall|k: int| 0 <= k < s.len() implies is_ws(#[trigger] s[k]) by {
                if k > 0 {
                    assert(s[k] == t[k - 1]);
                }
            }
        } else {
            let k = choose|k: int| 0 <= k < t.len() && !is_ws(#[trigger] t[k]);
            assert(s[k + 1] == t[k]);
        }
    } else if s.len() > 0 {
        assert(!is_ws(s[0]));
    }
}

/// Trailing-whitespace removal keeps something of a text that starts with
/// a non-whitespace character.
pub proof fn lemma_trim_end_keeps(t: Seq<char>)
    requires
        t.len() > 0,
        !is_ws(t[0]),
    ensures
        trim_end(t).len() > 0,
    decreases t.len(),
{
    if is_ws(t.last()) {
        assert(t.len() > 1);
        assert(t.drop_last()[0] == t[0]);
        lemma_trim_end_keeps(t.drop_last());
    }
}

/// A trimmed text is empty exactly when every character of the text is
/// whitespace.
pub proof fn lemma_trim_blank(s: Seq<char>)
    ensures
        (trim(s).len() == 0) == (forall|k: int| 0 <= k < s.len() ==> is_ws(#[trigger] s[k])),
{
    lemma_trim_start_blank(s);
    let t = trim_start(s);
    if t.len() > 0 {
        lemma_trim_end_keeps(t);
    }
}

/// Bytes that `c` takes in UTF-8.
pub open spec fn utf8_width(c: char) -> nat {
    let u = c as u32;
    if u < 0x80 {
        1
    } else if u < 0x800 {
        2
    } else if u < 0x10000 {
        3
    } else {
        4
    }
}

/// Bytes that the characters `s` take in UTF-8.
pub open spec fn utf8_len(s: Seq<char>) -> nat
    decreases s.len(),
{
    if s.len() == 0 {
        0
    } else {
        utf8_width(s[0]) + utf8_len(s.drop_first())
    }
}

/// `utf8_len` adds up over concatenation.
pub proof fn lemma_utf8_len_append(a: Seq<char>, b: Seq<char>)
    ensures
        utf8_len(a + b) == utf8_len(a) + utf8_len(b),
    decreases a.len(),
{
    if a.len() > 0 {
        assert((a + b).drop_first() == a.drop_first() + b);
        lemma_utf8_len_append(a.drop_first(), b);
    } else {
        assert(a + b == b);
    }
}

/// The UTF-8 length of a prefix grows by the width of the next character.
pub proof fn lemma_utf8_len_take_next(s: Seq<char>, i: int)
    requires
        0 <= i < s.len(),
    ensures
        utf8_len(s.take(i + 1)) == utf8_len(s.take(i)) + utf8_width(s[i]),
{
    let one = seq![s[i]];
    assert(s.take(i + 1) == s.take(i) + one);
    lemma_utf8_len_append(s.take(i), one);
    assert(one.drop_first() == Seq::<char>::empty());
    assert(utf8_len(one) == utf8_width(s[i]) + utf8_len(one.drop_first()));
}

/// A prefix takes no more bytes than the whole.
pub proof fn lemma_utf8_len_take_le(s: Seq<char>, i: int)
    requires
        0 <= i <= s.len(),
    ensures
        utf8_len(s.take(i)) <= utf8_len(s),
{
    assert(s == s.take(i) + s.skip(i));
    lemma_utf8_len_append(s.take(i), s.skip(i));
}

/// `utf8_len` is the length of vstd's UTF-8 encoding.
pub proof fn lemma_utf8_len_encoding(s: Seq<char>)
    ensures
        utf8_len(s) == vstd::utf8::encode_utf8(s).len(),
    decreases s.len(),
{
    if s.len() > 0 {
        lemma_utf8_len_encoding(s.drop_first());
        let u = s[0] as u32;
        vstd::utf8::char_is_scalar(s[0]);
        assert(vstd::utf8::encode_scalar(u).len() == utf8_width(s[0]));
    }
}

/// The decimal digit for `d < 10`.
pub open spec fn digit(d: nat) -> char {
    if d == 0 { '0' }
    else if d == 1 { '1' }
    else if d == 2 { '2' }
    else if d == 3 { '3' }
    else if d == 4 { '4' }
    else if d == 5 { '5' }
    else if d == 6 { '6' }
    else if d == 7 { '7' }
    else if d == 8 { '8' }
    else { '9' }
}

/// Decimal rendering of `n`, as `format!("{n}")` gives it.
pub open spec fn decimal(n: nat) -> Seq<char>
    decreases n,
{
    if n < 10 {
        seq![digit(n)]
    } else {
        decimal(n / 10).push(digit(n % 10))
    }
}

/// Whether `needle` occurs in `hay` starting at index `i`.
pub open spec fn occurs_at(hay: Seq<char>, needle: Seq<char>, i: int) -> bool {
    0 <= i && i + needle.len() <= hay.len() && hay.subrange(i, i + needle.len()) == needle
}

/// Whether `needle` occurs anywhere in `hay`.
pub open spec fn contains(hay: Seq<char>, needle: Seq<char>) -> bool {
    exists|i: int| occurs_at(hay, needle, i)
}

/// Appends one character to a string (`String::push`).
#[verifier::external_body]
pub(crate) fn push_char(s: &mut String, c: char)
    ensures
        final(s)@ == old(s)@.push(c),
{
    s.push(c);
}

/// The characters of `s`, one by one.
pub fn chars_of(s: &str) -> (v: Vec<char>)
    ensures
        v@ == s@,
{
    let mut out: Vec<char> = Vec::new();
    for c in it: s.chars()
        invariant
            out@ == it.seq().take(it.index()),
    {
        out.push(c);
        assert(out@ == it.seq().take(it.index() + 1));
    }
    out
}


/// A string made of the characters `v[from..to]`.
pub fn string_of(v: &Vec<char>, from: usize, to: usize) -> (s: String)
    requires
        from <= to <= v.len(),
    ensures
        s@ == v@.subrange(from as int, to as int),
{
    let mut s = String::new();
    let mut i = from;
    while i < to
        invariant
            from <= i <= to <= v.len(),
            s@ == v@.subrange(from as int, i as int),
        decreases to - i,
    {
        push_char(&mut s, v[i]);
        i += 1;
        assert(s@ == v@.subrange(from as int, i as int));
    }
    s
}

/// Appends the characters `v[from..to]` to `s`.
pub fn push_chars(s: &mut String, v: &Vec<char>, from: usize, to: usize)
    requires
        from <= to <= v.len(),
    ensures
        final(s)@ == old(s)@ + v@.subrange(from as int, to as int),
{
    let mut i = from;
    while i < to
        invariant
            from <= i <= to <= v.len(),
            s@ == old(s)@ + v@.subrange(from as int, i as int),
        decreases to - i,
    {
        push_char(s, v[i]);
        i += 1;
        assert(s@ == old(s)@ + v@.subrange(from as int, i as int));
    }
}

/// Appends the decimal rendering of `n` to `s`.
pub fn push_decimal(s: &mut String, n: u64)
    ensures
        final(s)@ == old(s)@ + decimal(n as nat),
    decreases n,
{
    if n < 10 {
        push_char(s, digit_char(n));
        assert(decimal(n as nat) == seq![digit(n as nat)]);
    } else {
        push_decimal(s, n / 10);
        push_char(s, digit_char(n % 10));
        assert(decimal(n as nat) == decimal((n / 10) as nat).push(digit((n % 10) as nat)));
    }
}

/// The decimal rendering of `n` as a new string.
pub fn decimal_string(n: u64) -> (s: String)
    ensures
        s@ == decimal(n as nat),
{
    let mut s = String::new();
    push_decimal(&mut s, n);
    s
}

fn digit_char(d: u64) -> (c: char)
    requires
        d < 10,
    ensures
        c == digit(d as nat),
{
    if d == 0 { '0' }
    else if d == 1 { '1' }
    else if d == 2 { '2' }
    else if d == 3 { '3' }
    else if d == 4 { '4' }
    else if d == 5 { '5' }
    else if d == 6 { '6' }
    else if d == 7 { '7' }
    else if d == 8 { '8' }
    else { '9' }
}

/// Number of leading whitespace characters of `v[from..to]`, i.e. the index
/// where `trim_start` begins.
pub fn skip_ws_forward(v: &Vec<char>, from: usize, to: usize) -> (i: usize)
    requires
        from <= to <= v.len(),
    ensures
        from <= i <= to,
        trim_start(v@.subrange(from as int, to as int)) == v@.subrange(i as int, to as int),
{
    let mut i = from;
    while i < to && is_whitespace(v[i])
        invariant
            from <= i <= to <= v.len(),
            trim_start(v@.subrange(from as int, to as int)) == trim_start(v@.subrange(i as int, to as int)),
        decreases to - i,
    {
        assert(v@.subrange(i as int, to as int).drop_first() == v@.subrange(i + 1, to as int));
        i += 1;
    }
    i
}

/// The end of `v[from..to]` once trailing whitespace is dropped.
pub fn skip_ws_backward(v: &Vec<char>, from: usize, to: usize) -> (j: usize)
    requires
        from <= to <= v.len(),
    ensures
        from <= j <= to,
        trim_end(v@.subrange(from as int, to as int)) == v@.subrange(from as int, j as int),
{
    let mut j = to;
    while j > from && is_whitespace(v[j - 1])
        invariant
            from <= j <= to <= v.len(),
            trim_end(v@.subrange(from as int, to as int)) == trim_end(v@.subrange(from as int, j as int)),
        decreases j - from,
    {
        assert(v@.subrange(from as int, j as int).drop_last() == v@.subrange(from as int, j - 1));
        j -= 1;
    }
    j
}

/// Bounds of `trim(v[from..to])` inside `v`.
pub fn trim_bounds(v: &Vec<char>, from: usize, to: usize) -> (r: (usize, usize))
    requires
        from <= to <= v.len(),
    ensures
        from <= r.0 <= r.1 <= to,
        trim(v@.subrange(from as int, to as int)) == v@.subrange(r.0 as int, r.1 as int),
{
    let i = skip_ws_forward(v, from, to);
    let j = skip_ws_backward(v, i, to);
    (i, j)
}

/// `str::trim` as a new string.
pub fn trimmed(s: &str) -> (r: String)
    ensures
        r@ == trim(s@),
{
    let v = chars_of(s);
    let (i, j) = trim_bounds(&v, 0, v.len());
    assert(v@.subrange(0, v@.len() as int) == v@);
    string_of(&v, i, j)
}

/// Whether `needle` occurs in `hay` at index `i`.
pub fn occurs_at_exec(hay: &Vec<char>, needle: &Vec<char>, i: usize) -> (b: bool)
    ensures
        b == occurs_at(hay@, needle@, i as int),
{
    if i > hay.len() || needle.len() > hay.len() - i {
        return false;
    }
    let mut k: usize = 0;
    while k < needle.len()
        invariant
            i + needle.len() <= hay.len(),
            k <= needle.len(),
            forall|m: int| 0 <= m < k ==> hay@[i + m] == needle@[m],
        decreases needle.len() - k,
    {
        if hay[i + k] != needle[k] {
            assert(hay@.subrange(i as int, i + needle.len())[k as int] != needle@[k as int]);
            return false;
        }
        k += 1;
    }
    assert(hay@.subrange(i as int, i + needle.len()) =~= needle@);
    true
}

/// First occurrence of `needle` in `hay` at or after `from`.
pub fn find_from(hay: &Vec<char>, needle: &Vec<char>, from: usize) -> (r: Option<usize>)
    ensures
        r matches Some(i) ==> from <= i && occurs_at(hay@, needle@, i as int)
            && forall|j: int| from <= j < i ==> !occurs_at(hay@, needle@, j),
        r is None ==> forall|j: int| from <= j ==> !occurs_at(hay@, needle@, j),
{
    let mut i = from;
    while i < hay.len()
        invariant
            from <= i,
            forall|j: int| from <= j < i ==> !occurs_at(hay@, needle@, j),
        decreases hay.len() - i,
    {
        if occurs_at_exec(hay, needle, i) {
            return Some(i);
        }
        i += 1;
    }
    if occurs_at_exec(hay, needle, i) {
        return Some(i);
    }
    assert forall|j: int| from <= j implies !occurs_at(hay@, needle@, j) by {
        if j > i {
        }
    }
    None
}

/// The first index `>= from` at which `pat` occurs in `s`.
pub open spec fn first_occ(s: Seq<char>, pat: Seq<char>, from: int) -> Option<int>
    decreases s.len() + 1 - from when from >= 0
{
    if from > s.len() {
        None
    } else if occurs_at(s, pat, from) {
        Some(from)
    } else {
        first_occ(s, pat, from + 1)
    }
}

pub proof fn lemma_first_occ_props(s: Seq<char>, pat: Seq<char>, from: int)
    requires
        from >= 0,
    ensures
        first_occ(s, pat, from) matches Some(i) ==> from <= i && occurs_at(s, pat, i)
            && forall|j: int| from <= j < i ==> !occurs_at(s, pat, j),
        first_occ(s, pat, from) is None ==> forall|j: int| from <= j ==> !occurs_at(s, pat, j),
    decreases s.len() + 1 - from,
{
    if from > s.len() {
        assert forall|j: int| from <= j implies !occurs_at(s, pat, j) by {}
    } else if occurs_at(s, pat, from) {
    } else {
        lemma_first_occ_props(s, pat, from + 1);
    }
}

/// `first_occ` is the least occurrence: any minimal witness is it.
pub proof fn lemma_first_occ_unique(s: Seq<char>, pat: Seq<char>, from: int, r: Option<int>)
    requires
        from >= 0,
        r matches Some(i) ==> from <= i && occurs_at(s, pat, i)
            && forall|j: int| from <= j < i ==> !occurs_at(s, pat, j),
        r is None ==> forall|j: int| from <= j ==> !occurs_at(s, pat, j),
    ensures
        first_occ(s, pat, from) == r,
{
    lemma_first_occ_props(s, pat, from);
    match first_occ(s, pat, from) {
        Some(i) => {
            match r {
                Some(k) => {
                    if i < k {
                        assert(!occurs_at(s, pat, i));
                    } else if k < i {
                        assert(!occurs_at(s, pat, k));
                    }
                },
                None => {
                    assert(!occurs_at(s, pat, i));
                },
            }
        },
        None => {
            match r {
                Some(k) => {
                    assert(!occurs_at(s, pat, k));
                },
                None => {},
            }
        },
    }
}

/// Exact search, tied to `first_occ`.
pub fn find_first(hay: &Vec<char>, needle: &Vec<char>, from: usize) -> (r: Option<usize>)
    ensures
        r matches Some(i) ==> first_occ(hay@, needle@, from as int) == Some(i as int),
        r is None ==> first_occ(hay@, needle@, from as int) is None,
{
    let r = find_from(hay, needle, from);
    proof {
        let g = match r { Some(i) => Some(i as int), None => None };
        lemma_first_occ_unique(hay@, needle@, from as int, g);
    }
    r
}

/// Length of the first line of `s`: the characters before its first `'\n'`.
pub open spec fn line_len(s: Seq<char>) -> nat
    decreases s.len(),
{
    if s.len() == 0 || s[0] == '\n' {
        0
    } else {
        1 + line_len(s.drop_first())
    }
}

/// `line` without one trailing `'\r'`.
pub open spec fn strip_cr(line: Seq<char>) -> Seq<char> {
    if line.len() > 0 && line.last() == '\r' {
        line.drop_last()
    } else {
        line
    }
}

/// The lines of `s` as `str::lines` yields them: split at `'\n'`, a `'\r'`
/// before the `'\n'` dropped, and no empty line after a final line ending.
pub open spec fn lines(s: Seq<char>) -> Seq<Seq<char>>
    decreases s.len(),
{
    if s.len() == 0 {
        Seq::empty()
    } else {
        let k = line_len(s) as int;
        if k < s.len() {
            seq![strip_cr(s.take(k))] + lines(s.skip(k + 1))
        } else {
            seq![s]
        }
    }
}

/// Index of the first `'\n'` at or after `start` (or `v.len()`).
fn line_end(v: &Vec<char>, start: usize) -> (j: usize)
    requires
        start <= v.len(),
    ensures
        start <= j <= v.len(),
        j - start == line_len(v@.skip(start as int)),
        j < v.len() ==> v@[j as int] == '\n',
{
    let mut j = start;
    while j < v.len() && v[j] != '\n'
        invariant
            start <= j <= v.len(),
            line_len(v@.skip(start as int)) == (j - start) + line_len(v@.skip(j as int)),
        decreases v.len() - j,
    {
        assert(v@.skip(j as int).drop_first() == v@.skip(j + 1));
        j += 1;
    }
    j
}

/// The first line of `v[start..]`: it is `v[start..r.0]`, and the rest of
/// the text resumes at `r.1`.
pub fn next_line(v: &Vec<char>, start: usize) -> (r: (usize, usize))
    requires
        start < v.len(),
    ensures
        start <= r.0 <= r.1 <= v.len(),
        start < r.1,
        lines(v@.skip(start as int)) == seq![v@.subrange(start as int, r.0 as int)] + lines(
            v@.skip(r.1 as int),
        ),
{
    let j = line_end(v, start);
    let ghost s = v@.skip(start as int);
    if j < v.len() {
        let le = if j > start && v[j - 1] == '\r' { j - 1 } else { j };
        proof {
            let k = j - start;
            assert(s.take(k) == v@.subrange(start as int, j as int));
            assert(s.skip(k + 1) == v@.skip(j + 1));
            assert(strip_cr(s.take(k)) == v@.subrange(start as int, le as int));
        }
        (le, j + 1)
    } else {
        proof {
            assert(s == v@.subrange(start as int, v.len() as int));
            assert(v@.skip(v.len() as int).len() == 0);
            assert(lines(v@.skip(v.len() as int)) == Seq::<Seq<char>>::empty());
            assert(seq![s] + Seq::<Seq<char>>::empty() == seq![s]);
        }
        (v.len(), v.len())
    }
}

/// A copy of `v[from..to]`.
pub fn copy_range(v: &Vec<char>, from: usize, to: usize) -> (r: Vec<char>)
    requires
        from <= to <= v.len(),
    ensures
        r@ == v@.subrange(from as int, to as int),
{
    let mut r: Vec<char> = Vec::new();
    let mut i = from;
    while i < to
        invariant
            from <= i <= to <= v.len(),
            r@ == v@.subrange(from as int, i as int),
        decreases to - i,
    {
        r.push(v[i]);
        i += 1;
        assert(r@ == v@.subrange(from as int, i as int));
    }
    r
}

/// Whether two strings hold the same characters.
pub fn str_eq(a: &str, b: &str) -> (r: bool)
    ensures
        r == (a@ == b@),
{
    let x = chars_of(a);
    let y = chars_of(b);
    if x.len() != y.len() {
        return false;
    }
    let mut i: usize = 0;
    while i < x.len()
        invariant
            i <= x.len() == y.len(),
            x@ == a@,
            y@ == b@,
            forall|k: int| 0 <= k < i ==> x@[k] == y@[k],
        decreases x.len() - i,
    {
        if x[i] != y[i] {
            assert(x@[i as int] != y@[i as int]);
            return false;
        }
        i += 1;
    }
    assert(x@ =~= y@);
    true
}

/// The first index `>= k` that does not hold whitespace (or `s.len()`).
pub open spec fn skip_ws(s: Seq<char>, k: int) -> int
    decreases s.len() - k when k >= 0
{
    if k < s.len() && is_ws(s[k]) {
        skip_ws(s, k + 1)
    } else {
        k
    }
}

pub proof fn lemma_skip_ws_props(s: Seq<char>, k: int)
    requires
        k >= 0,
    ensures
        k <= s.len() ==> k <= skip_ws(s, k) <= s.len(),
        k > s.len() ==> skip_ws(s, k) == k,
        forall|m: int| k <= m < skip_ws(s, k) ==> is_ws(s[m]),
        skip_ws(s, k) < s.len() ==> !is_ws(s[skip_ws(s, k)]),
    decreases s.len() - k,
{
    if k < s.len() && is_ws(s[k]) {
        lemma_skip_ws_props(s, k + 1);
    }
}

/// `skip_ws` on an exact character vector.
pub fn skip_ws_exec(s: &Vec<char>, k: usize) -> (r: usize)
    requires
        k <= s.len(),
    ensures
        r as int == skip_ws(s@, k as int),
{
    let mut m = k;
    while m < s.len() && is_whitespace(s[m])
        invariant
            k <= m <= s.len(),
            skip_ws(s@, k as int) == skip_ws(s@, m as int),
        decreases s.len() - m,
    {
        m += 1;
    }
    m
}

/// The first index `>= k` that holds whitespace (or `s.len()`).
pub open spec fn skip_word(s: Seq<char>, k: int) -> int
    decreases s.len() - k when k >= 0
{
    if k < s.len() && !is_ws(s[k]) {
        skip_word(s, k + 1)
    } else {
        k
    }
}

pub proof fn lemma_skip_word_props(s: Seq<char>, k: int)
    requires
        0 <= k <= s.len(),
    ensures
        k <= skip_word(s, k) <= s.len(),
        forall|m: int| k <= m < skip_word(s, k) ==> !is_ws(s[m]),
        skip_word(s, k) < s.len() ==> is_ws(s[skip_word(s, k)]),
        k < s.len() && !is_ws(s[k]) ==> k < skip_word(s, k),
    decreases s.len() - k,
{
    if k < s.len() && !is_ws(s[k]) {
        lemma_skip_word_props(s, k + 1);
    }
}

/// `skip_word` on an exact character vector.
pub fn skip_word_exec(s: &Vec<char>, k: usize) -> (r: usize)
    requires
        k <= s.len(),
    ensures
        r as int == skip_word(s@, k as int),
{
    let mut m = k;
    while m < s.len() && !is_whitespace(s[m])
        invariant
            k <= m <= s.len(),
            skip_word(s@, k as int) == skip_word(s@, m as int),
        decreases s.len() - m,
    {
        m += 1;
    }
    m
}

/// The whitespace-separated words of `s[i..]`.
pub open spec fn words_from(s: Seq<char>, i: int) -> Seq<Seq<char>>
    decreases s.len() - i when 0 <= i <= s.len()
{
    let a = skip_ws(s, i);
    if a >= s.len() {
        Seq::empty()
    } else {
        proof {
            lemma_skip_ws_props(s, i);
            lemma_skip_word_props(s, a);
        }
        let b = skip_word(s, a);
        seq![s.subrange(a, b)] + words_from(s, b)
    }
}

/// The words of `s` as `str::split_whitespace` yields them: the maximal runs
/// of non-whitespace characters, in order.
pub open spec fn words(s: Seq<char>) -> Seq<Seq<char>> {
    words_from(s, 0)
}

/// The character sequences of a vector of strings.
pub open spec fn strings_view(v: Seq<String>) -> Seq<Seq<char>> {
    v.map_values(|w: String| w@)
}

/// `str::split_whitespace`, collected.
pub fn split_words(s: &str) -> (r: Vec<String>)
    ensures
        strings_view(r@) == words(s@),
{
    let v = chars_of(s);
    let n = v.len();
    let mut out: Vec<String> = Vec::new();
    let mut i: usize = 0;
    while i < n
        invariant
            i <= n == v.len(),
            v@ == s@,
            words(v@) == strings_view(out@) + words_from(v@, i as int),
        decreases n - i,
    {
        let a = skip_ws_exec(&v, i);
        proof {
            lemma_skip_ws_props(v@, i as int);
        }
        if a >= n {
            assert(words_from(v@, i as int) == Seq::<Seq<char>>::empty());
            assert(strings_view(out@) + Seq::<Seq<char>>::empty() == strings_view(out@));
            i = n;
        } else {
            let b = skip_word_exec(&v, a);
            proof {
                lemma_skip_word_props(v@, a as int);
            }
            let w = string_of(&v, a, b);
            let ghost before = out@;
            out.push(w);
            proof {
                assert(strings_view(out@) == strings_view(before).push(v@.subrange(a as int, b as int)));
                assert(words_from(v@, i as int) == seq![v@.subrange(a as int, b as int)] + words_from(v@, b as int));
                assert(strings_view(before) + (seq![v@.subrange(a as int, b as int)] + words_from(v@, b as int))
                    == strings_view(before).push(v@.subrange(a as int, b as int)) + words_from(v@, b as int));
            }
            i = b;
        }
    }
    proof {
        assert(words_from(v@, n as int) == Seq::<Seq<char>>::empty()) by {
            lemma_skip_ws_props(v@, n as int);
        }
        assert(strings_view(out@) + Seq::<Seq<char>>::empty() == strings_view(out@));
    }
    out
}

/// Bytes `s` takes in UTF-8 (`str::len`).
pub fn byte_len(s: &str) -> (n: usize)
    ensures
        n == utf8_len(s@),
{
    proof {
        lemma_utf8_len_encoding(s@);
    }
    s.as_bytes().len()
}

/// `c` is an ASCII digit.
pub open spec fn is_digit(c: char) -> bool {
    '0' <= c && c <= '9'
}

/// The value of the decimal digits `d`.
pub open spec fn digits_value(d: Seq<char>) -> nat
    decreases d.len(),
{
    if d.len() == 0 {
        0
    } else {
        digits_value(d.drop_last()) * 10 + ((d.last() as u32 - '0' as u32) as nat)
    }
}

/// What `str::parse::<u64>` makes of `s`: an optional `+`, then one or more
/// ASCII digits whose value fits a `u64`.
pub open spec fn parse_u64(s: Seq<char>) -> Option<u64> {
    let d = unsigned_digits(s);
    if d.len() > 0 && all_digits(d) && digits_value(d) <= u64::MAX {
        Some(digits_value(d) as u64)
    } else {
        None
    }
}

/// `s` without the one `+` it may start with.
pub open spec fn unsigned_digits(s: Seq<char>) -> Seq<char> {
    if s.len() > 0 && s[0] == '+' { s.skip(1) } else { s }
}

/// Every character of `d` is an ASCII digit.
pub open spec fn all_digits(d: Seq<char>) -> bool {
    forall|i: int| 0 <= i < d.len() ==> is_digit(#[trigger] d[i])
}

proof fn lemma_digits_value_grows(d: Seq<char>, i: int)
    requires
        0 <= i <= d.len(),
        forall|j: int| 0 <= j < d.len() ==> is_digit(#[trigger] d[j]),
    ensures
        digits_value(d.take(i)) <= digits_value(d),
    decreases d.len() - i,
{
    if i < d.len() {
        assert(d.take(i + 1).drop_last() =~= d.take(i));
        assert(d.take(i + 1).last() == d[i]);
        lemma_digits_value_grows(d, i + 1);
    } else {
        assert(d.take(i) =~= d);
    }
}

/// `s.parse::<u64>()`, as `str::parse` documents it for unsigned integers.
pub fn parse_u64_exec(s: &str) -> (r: Option<u64>)
    ensures
        r == parse_u64(s@),
{
    let v = chars_of(s);
    let start: usize = if v.len() > 0 && v[0] == '+' { 1 } else { 0 };
    let ghost d = unsigned_digits(s@);
    assert(d =~= v@.skip(start as int));
    if start == v.len() {
        return None;
    }
    let mut value: u64 = 0;
    let mut i = start;
    while i < v.len()
        invariant
            start <= i <= v@.len(),
            start < v@.len(),
            v@ == s@,
            d == unsigned_digits(s@),
            d == v@.skip(start as int),
            forall|j: int| 0 <= j < i - start ==> is_digit(#[trigger] d[j]),
            value == digits_value(d.take(i - start)),
        decreases v.len() - i,
    {
        let c = v[i];
        if !('0' <= c && c <= '9') {
            assert(!is_digit(d[i - start]));
            return None;
        }
        let digit = (c as u32 - '0' as u32) as u64;
        assert(d.take(i - start + 1).drop_last() =~= d.take(i - start));
        assert(d.take(i - start + 1).last() == c);
        if value > (u64::MAX - digit) / 10 {
            proof {
                assert(value * 10 + digit > u64::MAX) by (nonlinear_arith)
                    requires value > (u64::MAX - digit) / 10, digit <= 9;
                if all_digits(d) {
                    lemma_digits_value_grows(d, i - start + 1);
                }
            }
            return None;
        }
        assert(value * 10 + digit <= u64::MAX) by (nonlinear_arith)
            requires value <= (u64::MAX - digit) / 10, digit <= 9;
        value = value * 10 + digit;
        i += 1;
    }
    assert(d.take(i - start) =~= d);
    Some(value)
}

} // verus!
