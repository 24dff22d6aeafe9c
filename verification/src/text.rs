//! Character-level text utilities with specifications over `Seq<char>`.

use vstd::prelude::*;

verus! {

/// A vector of characters is seen the same way through `@` and `deep_view`.
pub broadcast proof fn lemma_char_vec_deep_view(v: Vec<char>)
    ensures
        #[trigger] v.deep_view() == v@,
{
    assert(v.deep_view() =~= v@);
}

pub broadcast group group_text {
    lemma_char_vec_deep_view,
}

/// Unicode `White_Space` code points, as `char::is_whitespace` defines them.
pub open spec fn is_ws(c: char) -> bool {
    ||| c == ' '
    ||| ('\u{9}' <= c && c <= '\u{d}')
    ||| c == '\u{85}'
    ||| c == '\u{a0}'
    ||| c == '\u{1680}'
    ||| ('\u{2000}' <= c && c <= '\u{200a}')
    ||| c == '\u{2028}'
    ||| c == '\u{2029}'
    ||| c == '\u{202f}'
    ||| c == '\u{205f}'
    ||| c == '\u{3000}'
}

pub fn is_whitespace_char(c: char) -> (res: bool)
    ensures
        res == is_ws(c),
{
    c == ' ' || ('\u{9}' <= c && c <= '\u{d}') || c == '\u{85}' || c == '\u{a0}' || c == '\u{1680}'
        || ('\u{2000}' <= c && c <= '\u{200a}') || c == '\u{2028}' || c == '\u{2029}' || c
        == '\u{202f}' || c == '\u{205f}' || c == '\u{3000}'
}

/// `s` with leading whitespace removed.
pub open spec fn trim_start(s: Seq<char>) -> Seq<char>
    decreases s.len(),
{
    if s.len() > 0 && is_ws(s[0]) {
        trim_start(s.drop_first())
    } else {
        s
    }
}

/// `s` with trailing whitespace removed.
pub open spec fn trim_end(s: Seq<char>) -> Seq<char>
    decreases s.len(),
{
    if s.len() > 0 && is_ws(s.last()) {
        trim_end(s.drop_last())
    } else {
        s
    }
}

/// `s` with leading and trailing whitespace removed (`str::trim`).
pub open spec fn trim(s: Seq<char>) -> Seq<char> {
    trim_end(trim_start(s))
}

pub proof fn lemma_trim_start_skip(s: Seq<char>, i: int)
    requires
        0 <= i <= s.len(),
        forall|j: int| 0 <= j < i ==> is_ws(#[trigger] s[j]),
    ensures
        trim_start(s) == trim_start(s.skip(i)),
    decreases i,
{
    if i > 0 {
        assert(s.skip(1) =~= s.drop_first());
        lemma_trim_start_skip(s.drop_first(), i - 1);
        assert(s.drop_first().skip(i - 1) =~= s.skip(i));
    } else {
        assert(s.skip(0) =~= s);
    }
}

pub proof fn lemma_trim_end_take(s: Seq<char>, i: int)
    requires
        0 <= i <= s.len(),
        forall|j: int| i <= j < s.len() ==> is_ws(#[trigger] s[j]),
    ensures
        trim_end(s) == trim_end(s.take(i)),
    decreases s.len() - i,
{
    if i < s.len() {
        assert(s.take(s.len() - 1) =~= s.drop_last());
        lemma_trim_end_take(s.drop_last(), i);
        assert(s.drop_last().take(i) =~= s.take(i));
    } else {
        assert(s.take(i) =~= s);
    }
}

/// Exact `str::trim` on a character vector.
pub fn trim_chars(s: &Vec<char>) -> (res: Vec<char>)
    ensures
        res@ == trim(s@),
{
    let n = s.len();
    let mut start: usize = 0;
    while start < n && is_whitespace_char(s[start])
        invariant
            n == s.len(),
            start <= n,
            forall|j: int| 0 <= j < start ==> is_ws(#[trigger] s@[j]),
        decreases n - start,
    {
        start = start + 1;
    }
    proof {
        lemma_trim_start_skip(s@, start as int);
    }
    let ghost t = s@.skip(start as int);
    assert(start == n || !is_ws(t[0]));
    assert(trim_start(t) == t);
    let mut end: usize = n;
    while end > start && is_whitespace_char(s[end - 1])
        invariant
            n == s.len(),
            start <= end <= n,
            forall|j: int| end <= j < n ==> is_ws(#[trigger] s@[j]),
        decreases end - start,
    {
        end = end - 1;
    }
    proof {
        lemma_trim_end_take(t, end - start);
        assert(t.take(end - start) =~= s@.subrange(start as int, end as int));
    }
    let mut res: Vec<char> = Vec::new();
    let mut i = start;
    while i < end
        invariant
            n == s.len(),
            start <= i <= end <= n,
            res@ =~= s@.subrange(start as int, i as int),
        decreases end - i,
    {
        res.push(s[i]);
        i = i + 1;
    }
    res
}


/// The characters of a string, in order.
pub fn chars_of(s: &str) -> (res: Vec<char>)
    ensures
        res@ == s@,
{
    broadcast use vstd::string::group_string_axioms;

    let mut res: Vec<char> = Vec::new();
    for c in it: s.chars()
        invariant
            res@ == it.seq().take(it.index()),
            it.seq() == s@,
    {
        res.push(c);
    }
    res
}

/// Collects characters into a `String` (`FromIterator<char>` for `String`).
#[verifier::external_body]
pub(crate) fn string_of(chars: &Vec<char>) -> (res: String)
    ensures
        res@ == chars@,
{
    chars.iter().collect()
}

/// Exact `str::trim`, returning an owned string.
pub fn trim_str(s: &str) -> (res: String)
    ensures
        res@ == trim(s@),
{
    let v = chars_of(s);
    let t = trim_chars(&v);
    string_of(&t)
}

/// A set of separator characters.
#[derive(Clone, Copy)]
pub enum Sep {
    /// A single character.
    Char(char),
    /// Unicode whitespace.
    Whitespace,
    /// A comma or Unicode whitespace.
    CommaOrWhitespace,
}

pub open spec fn is_sep(sep: Sep, c: char) -> bool {
    match sep {
        Sep::Char(d) => c == d,
        Sep::Whitespace => is_ws(c),
        Sep::CommaOrWhitespace => c == ',' || is_ws(c),
    }
}

pub fn sep_matches(sep: Sep, c: char) -> (res: bool)
    ensures
        res == is_sep(sep, c),
{
    match sep {
        Sep::Char(d) => c == d,
        Sep::Whitespace => is_whitespace_char(c),
        Sep::CommaOrWhitespace => c == ',' || is_whitespace_char(c),
    }
}

/// The pieces between separators, empty pieces included (`str::split`).
pub open spec fn split_by(s: Seq<char>, sep: Sep) -> Seq<Seq<char>>
    decreases s.len(),
{
    if s.len() == 0 {
        seq![Seq::<char>::empty()]
    } else {
        let r = split_by(s.drop_last(), sep);
        if is_sep(sep, s.last()) {
            r.push(Seq::<char>::empty())
        } else {
            r.update(r.len() - 1, r.last().push(s.last()))
        }
    }
}

pub open spec fn nonempty(p: Seq<char>) -> bool {
    p.len() > 0
}

/// The maximal runs of non-separator characters (`str::split_whitespace` for whitespace).
pub open spec fn tokens(s: Seq<char>, sep: Sep) -> Seq<Seq<char>> {
    split_by(s, sep).filter(|p: Seq<char>| nonempty(p))
}

pub proof fn lemma_split_by_nonempty(s: Seq<char>, sep: Sep)
    ensures
        split_by(s, sep).len() >= 1,
    decreases s.len(),
{
    if s.len() > 0 {
        lemma_split_by_nonempty(s.drop_last(), sep);
    }
}

pub fn split_chars(s: &Vec<char>, sep: Sep) -> (res: Vec<Vec<char>>)
    ensures
        res.deep_view() == split_by(s@, sep),
{
    broadcast use lemma_char_vec_deep_view;

    let mut pieces: Vec<Vec<char>> = Vec::new();
    let mut cur: Vec<char> = Vec::new();
    let mut i: usize = 0;
    assert(s@.take(0) =~= Seq::<char>::empty());
    while i < s.len()
        invariant
            i <= s.len(),
            split_by(s@.take(i as int), sep) =~= pieces.deep_view().push(cur@),
        decreases s.len() - i,
    {
        let c = s[i];
        assert(s@.take(i + 1).drop_last() =~= s@.take(i as int));
        let ghost old_pieces = pieces.deep_view();
        let ghost old_cur = cur@;
        if sep_matches(sep, c) {
            assert(cur.deep_view() == cur@);
            let done = cur;
            pieces.push(done);
            cur = Vec::new();
            assert(pieces.deep_view() =~= old_pieces.push(old_cur));
        } else {
            cur.push(c);
        }
        i = i + 1;
    }
    assert(s@.take(s.len() as int) =~= s@);
    let ghost old_pieces = pieces.deep_view();
    let ghost old_cur = cur@;
    assert(cur.deep_view() == cur@);
    let last = cur;
    pieces.push(last);
    assert(pieces.deep_view() =~= old_pieces.push(old_cur));
    pieces
}

pub fn tokens_chars(s: &Vec<char>, sep: Sep) -> (res: Vec<Vec<char>>)
    ensures
        res.deep_view() == tokens(s@, sep),
{
    broadcast use lemma_char_vec_deep_view;
    broadcast use vstd::seq::Seq::lemma_filter_push;

    let ghost pred = |p: Seq<char>| nonempty(p);
    let mut out: Vec<Vec<char>> = Vec::new();
    let mut cur: Vec<char> = Vec::new();
    let mut i: usize = 0;
    assert(s@.take(0) =~= Seq::<char>::empty());
    reveal_with_fuel(Seq::filter, 1);
    assert(Seq::<Seq<char>>::empty().filter(pred) =~= Seq::<Seq<char>>::empty());
    assert(split_by(s@.take(0), sep) =~= seq![Seq::<char>::empty()]);
    assert(split_by(s@.take(0), sep).drop_last() =~= Seq::<Seq<char>>::empty());
    assert(out.deep_view() =~= Seq::<Seq<char>>::empty());
    while i < s.len()
        invariant
            i <= s.len(),
            split_by(s@.take(i as int), sep).last() == cur@,
            split_by(s@.take(i as int), sep).drop_last().filter(pred) == out.deep_view(),
            pred == (|p: Seq<char>| nonempty(p)),
        decreases s.len() - i,
    {
        let c = s[i];
        proof {
            lemma_split_by_nonempty(s@.take(i as int), sep);
        }
        assert(s@.take(i + 1).drop_last() =~= s@.take(i as int));
        let ghost old_split = split_by(s@.take(i as int), sep);
        let ghost old_out = out.deep_view();
        let ghost old_cur = cur@;
        if sep_matches(sep, c) {
            assert(old_split =~= old_split.drop_last().push(old_cur));
            assert(split_by(s@.take(i + 1), sep).drop_last() =~= old_split);
            proof { old_split.drop_last().lemma_filter_push(old_cur, pred); }
            if cur.len() > 0 {
                assert(cur.deep_view() == cur@);
                let done = cur;
                out.push(done);
                assert(out.deep_view() =~= old_out.push(old_cur));
            }
            cur = Vec::new();
        } else {
            cur.push(c);
            assert(split_by(s@.take(i + 1), sep).drop_last() =~= old_split.drop_last());
        }
        i = i + 1;
    }
    assert(s@.take(s.len() as int) =~= s@);
    proof {
        lemma_split_by_nonempty(s@, sep);
    }
    let ghost all = split_by(s@, sep);
    assert(all =~= all.drop_last().push(cur@));
    let ghost old_out = out.deep_view();
    let ghost old_cur = cur@;
    if cur.len() > 0 {
        assert(cur.deep_view() == cur@);
        out.push(cur);
        assert(out.deep_view() =~= old_out.push(old_cur));
    }
    out
}


/// `p` without one trailing carriage return.
pub open spec fn strip_cr(p: Seq<char>) -> Seq<char> {
    if p.len() > 0 && p.last() == '\r' {
        p.drop_last()
    } else {
        p
    }
}

/// `str::lines`: pieces between `\n`, a final empty piece dropped, and a `\r`
/// that precedes a `\n` removed.
pub open spec fn lines(s: Seq<char>) -> Seq<Seq<char>> {
    let parts = split_by(s, Sep::Char('\n'));
    let body = if parts.last().len() == 0 {
        parts.drop_last()
    } else {
        parts
    };
    Seq::new(
        body.len(),
        |i: int|
            if i < parts.len() - 1 {
                strip_cr(body[i])
            } else {
                body[i]
            },
    )
}

pub fn lines_chars(s: &Vec<char>) -> (res: Vec<Vec<char>>)
    ensures
        res.deep_view() == lines(s@),
{
    broadcast use lemma_char_vec_deep_view;

    let parts = split_chars(s, Sep::Char('\n'));
    proof {
        lemma_split_by_nonempty(s@, Sep::Char('\n'));
    }
    let n = parts.len();
    let count = if parts[n - 1].len() == 0 {
        n - 1
    } else {
        n
    };
    let mut res: Vec<Vec<char>> = Vec::new();
    let mut i: usize = 0;
    while i < count
        invariant
            n == parts.len() >= 1,
            parts.deep_view() == split_by(s@, Sep::Char('\n')),
            count == (if parts.deep_view().last().len() == 0 {
                n - 1
            } else {
                n as int
            }),
            i <= count,
            res.deep_view() =~= lines(s@).take(i as int),
        decreases count - i,
    {
        let p = &parts[i];
        let mut line: Vec<char> = Vec::new();
        let mut len = p.len();
        if i + 1 < n && len > 0 && p[len - 1] == '\r' {
            len = len - 1;
        }
        let mut j: usize = 0;
        while j < len
            invariant
                len <= p.len(),
                j <= len,
                line@ =~= p@.take(j as int),
            decreases len - j,
        {
            line.push(p[j]);
            j = j + 1;
        }
        assert(parts.deep_view()[i as int] == p@);
        assert(line@ =~= lines(s@)[i as int]);
        let ghost old_res = res.deep_view();
        assert(line.deep_view() == line@);
        res.push(line);
        assert(res.deep_view() =~= old_res.push(lines(s@)[i as int]));
        i = i + 1;
    }
    res
}

/// Pieces joined with a separator between neighbours (`slice::join`).
pub open spec fn join(parts: Seq<Seq<char>>, sep: Seq<char>) -> Seq<char>
    decreases parts.len(),
{
    if parts.len() == 0 {
        Seq::empty()
    } else if parts.len() == 1 {
        parts[0]
    } else {
        join(parts.drop_last(), sep) + sep + parts.last()
    }
}

pub fn join_strings(parts: &Vec<String>, sep: &str) -> (res: String)
    ensures
        res@ == join(parts.deep_view(), sep@),
{
    let mut res = String::new();
    let mut i: usize = 0;
    while i < parts.len()
        invariant
            i <= parts.len(),
            res@ == join(parts.deep_view().take(i as int), sep@),
        decreases parts.len() - i,
    {
        assert(parts.deep_view().take(i + 1).drop_last() =~= parts.deep_view().take(i as int));
        if i > 0 {
            res.append(sep);
        } else {
            assert(parts.deep_view().take(1) =~= seq![parts@[0]@]);
        }
        res.append(parts[i].as_str());
        i = i + 1;
    }
    assert(parts.deep_view().take(parts.len() as int) =~= parts.deep_view());
    res
}

/// Converts each character vector into a `String`.
pub fn strings_of(v: &Vec<Vec<char>>) -> (res: Vec<String>)
    ensures
        res.deep_view() == v.deep_view(),
{
    broadcast use lemma_char_vec_deep_view;

    let mut res: Vec<String> = Vec::new();
    let mut i: usize = 0;
    while i < v.len()
        invariant
            i <= v.len(),
            res.deep_view() =~= v.deep_view().take(i as int),
        decreases v.len() - i,
    {
        let s = string_of(&v[i]);
        let ghost old_res = res.deep_view();
        assert(v@[i as int].deep_view() == v@[i as int]@);
        res.push(s);
        assert(res.deep_view() =~= old_res.push(v.deep_view()[i as int]));
        i = i + 1;
    }
    res
}

/// ASCII lower-casing of one character (`char::to_ascii_lowercase`).
pub open spec fn lower(c: char) -> char {
    if 'A' <= c && c <= 'Z' {
        ((c as u32) + 32) as char
    } else {
        c
    }
}

pub open spec fn lower_all(s: Seq<char>) -> Seq<char> {
    s.map_values(|c: char| lower(c))
}

pub fn lower_char(c: char) -> (res: char)
    ensures
        res == lower(c),
{
    if 'A' <= c && c <= 'Z' {
        let b = (c as u8) + 32;
        assert(b == (c as u32) + 32);
        b as char
    } else {
        c
    }
}

/// `str::to_ascii_lowercase` on a character vector.
pub fn lower_chars(s: &Vec<char>) -> (res: Vec<char>)
    ensures
        res@ == lower_all(s@),
{
    let mut res: Vec<char> = Vec::new();
    let mut i: usize = 0;
    while i < s.len()
        invariant
            i <= s.len(),
            res@ =~= lower_all(s@).take(i as int),
        decreases s.len() - i,
    {
        res.push(lower_char(s[i]));
        i = i + 1;
    }
    res
}

/// `needle` occurs in `hay` at position `i`.
pub open spec fn occurs_at(hay: Seq<char>, needle: Seq<char>, i: int) -> bool {
    0 <= i && i + needle.len() <= hay.len() && hay.subrange(i, i + needle.len()) == needle
}

/// `str::contains` with a string pattern.
pub open spec fn contains_seq(hay: Seq<char>, needle: Seq<char>) -> bool {
    exists|i: int| occurs_at(hay, needle, i)
}

pub fn matches_at(hay: &Vec<char>, needle: &Vec<char>, i: usize) -> (res: bool)
    ensures
        res == occurs_at(hay@, needle@, i as int),
{
    if needle.len() > hay.len() || i > hay.len() - needle.len() {
        return false;
    }
    let mut j: usize = 0;
    while j < needle.len()
        invariant
            i + needle.len() <= hay.len(),
            j <= needle.len(),
            forall|k: int| 0 <= k < j ==> hay@[i + k] == needle@[k],
        decreases needle.len() - j,
    {
        if hay[i + j] != needle[j] {
            assert(hay@.subrange(i as int, i + needle.len())[j as int] != needle@[j as int]);
            return false;
        }
        j = j + 1;
    }
    assert(hay@.subrange(i as int, i + needle.len()) =~= needle@);
    true
}

pub fn contains_chars(hay: &Vec<char>, needle: &Vec<char>) -> (res: bool)
    ensures
        res == contains_seq(hay@, needle@),
{
    if needle.len() > hay.len() {
        return false;
    }
    let last = hay.len() - needle.len();
    let mut i: usize = 0;
    loop
        invariant
            last == hay.len() - needle.len(),
            i <= last,
            forall|k: int| 0 <= k < i ==> !occurs_at(hay@, needle@, k),
        decreases last - i,
    {
        if matches_at(hay, needle, i) {
            return true;
        }
        if i == last {
            assert forall|k: int| !occurs_at(hay@, needle@, k) by {
                if 0 <= k && k < i {
                }
            }
            return false;
        }
        i = i + 1;
    }
}

pub open spec fn starts_with(s: Seq<char>, p: Seq<char>) -> bool {
    p.len() <= s.len() && s.take(p.len() as int) == p
}

pub open spec fn ends_with(s: Seq<char>, p: Seq<char>) -> bool {
    p.len() <= s.len() && s.skip(s.len() - p.len()) == p
}

pub fn starts_with_chars(s: &Vec<char>, p: &Vec<char>) -> (res: bool)
    ensures
        res == starts_with(s@, p@),
{
    let r = matches_at(s, p, 0);
    assert(r ==> s@.take(p.len() as int) =~= s@.subrange(0, p.len() as int));
    assert(starts_with(s@, p@) ==> s@.take(p.len() as int) =~= s@.subrange(0, p.len() as int));
    r
}

pub fn ends_with_chars(s: &Vec<char>, p: &Vec<char>) -> (res: bool)
    ensures
        res == ends_with(s@, p@),
{
    if p.len() > s.len() {
        return false;
    }
    let r = matches_at(s, p, s.len() - p.len());
    assert(s@.skip(s.len() - p.len()) =~= s@.subrange(s.len() - p.len(), s.len() as int));
    r
}

/// `str::starts_with` on strings.
pub fn str_starts_with(s: &str, p: &str) -> (res: bool)
    ensures
        res == starts_with(s@, p@),
{
    let a = chars_of(s);
    let b = chars_of(p);
    starts_with_chars(&a, &b)
}

/// `str::ends_with` on strings.
pub fn str_ends_with(s: &str, p: &str) -> (res: bool)
    ensures
        res == ends_with(s@, p@),
{
    let a = chars_of(s);
    let b = chars_of(p);
    ends_with_chars(&a, &b)
}

/// `str::contains` on strings.
pub fn str_contains(s: &str, p: &str) -> (res: bool)
    ensures
        res == contains_seq(s@, p@),
{
    let a = chars_of(s);
    let b = chars_of(p);
    contains_chars(&a, &b)
}

/// Equality of two strings.
pub fn str_eq(a: &str, b: &str) -> (res: bool)
    ensures
        res == (a@ == b@),
{
    let x = chars_of(a);
    let y = chars_of(b);
    if x.len() != y.len() {
        return false;
    }
    let r = matches_at(&x, &y, 0);
    assert(r ==> x@ =~= y@) by {
        if r {
            assert(x@.subrange(0, y.len() as int) =~= x@);
        }
    }
    assert(x@ == y@ ==> x@.subrange(0, y.len() as int) =~= y@);
    r
}


/// A copy of a list of strings.
pub fn clone_strings(v: &Vec<String>) -> (res: Vec<String>)
    ensures
        res.deep_view() == v.deep_view(),
{
    let mut res: Vec<String> = Vec::new();
    let mut i: usize = 0;
    while i < v.len()
        invariant
            i <= v.len(),
            res.deep_view() =~= v.deep_view().take(i as int),
        decreases v.len() - i,
    {
        let ghost old_res = res.deep_view();
        res.push(v[i].clone());
        assert(res.deep_view() =~= old_res.push(v.deep_view()[i as int]));
        i = i + 1;
    }
    res
}

/// A copy of a list of string pairs.
pub fn clone_pairs(v: &Vec<(String, String)>) -> (res: Vec<(String, String)>)
    ensures
        res.deep_view() == v.deep_view(),
{
    let mut res: Vec<(String, String)> = Vec::new();
    let mut i: usize = 0;
    while i < v.len()
        invariant
            i <= v.len(),
            res.deep_view() =~= v.deep_view().take(i as int),
        decreases v.len() - i,
    {
        let ghost old_res = res.deep_view();
        let a = v[i].0.clone();
        let b = v[i].1.clone();
        res.push((a, b));
        assert(res.deep_view() =~= old_res.push(v.deep_view()[i as int]));
        i = i + 1;
    }
    res
}

/// A copy of an optional string.
pub fn clone_opt_string(v: &Option<String>) -> (res: Option<String>)
    ensures
        res.deep_view() == v.deep_view(),
{
    match v {
        Some(s) => Some(s.clone()),
        None => None,
    }
}


/// Position of the first `c` in `s`.
pub open spec fn find_char(s: Seq<char>, c: char) -> Option<int>
    decreases s.len(),
{
    if s.len() == 0 {
        None
    } else if s[0] == c {
        Some(0)
    } else {
        match find_char(s.drop_first(), c) {
            Some(i) => Some(i + 1),
            None => None,
        }
    }
}

pub proof fn lemma_find_char(s: Seq<char>, c: char, i: int)
    requires
        0 <= i <= s.len(),
        forall|j: int| 0 <= j < i ==> s[j] != c,
    ensures
        i < s.len() && s[i] == c ==> find_char(s, c) == Some(i),
        i == s.len() ==> find_char(s, c) is None,
    decreases i,
{
    if i > 0 {
        assert forall|j: int| 0 <= j < i - 1 implies s.drop_first()[j] != c by {
            assert(s.drop_first()[j] == s[j + 1]);
        }
        lemma_find_char(s.drop_first(), c, i - 1);
        if i < s.len() {
            assert(s.drop_first()[i - 1] == s[i]);
        }
    }
}

pub proof fn lemma_find_char_some(s: Seq<char>, c: char)
    ensures
        find_char(s, c) matches Some(i) ==> 0 <= i < s.len() && s[i] == c && forall|j: int|
            0 <= j < i ==> s[j] != c,
    decreases s.len(),
{
    if s.len() > 0 && s[0] != c {
        lemma_find_char_some(s.drop_first(), c);
        if let Some(i) = find_char(s, c) {
            assert forall|j: int| 0 <= j < i implies s[j] != c by {
                if j > 0 {
                    assert(s[j] == s.drop_first()[j - 1]);
                }
            }
        }
    }
}

/// If `s` holds `c`, `find_char` finds a position.
pub proof fn lemma_find_char_first(s: Seq<char>, c: char, j: int)
    requires
        0 <= j < s.len(),
        s[j] == c,
    ensures
        find_char(s, c) is Some,
    decreases j,
{
    if j > 0 && s[0] != c {
        assert(s.drop_first()[j - 1] == c);
        lemma_find_char_first(s.drop_first(), c, j - 1);
    }
}

/// Position of the first `c`, as `str::find` with a `char`.
pub fn find_char_index(s: &Vec<char>, c: char) -> (res: Option<usize>)
    ensures
        res matches Some(i) ==> find_char(s@, c) == Some(i as int),
        res is None ==> find_char(s@, c) is None,
{
    let mut i: usize = 0;
    while i < s.len()
        invariant
            i <= s.len(),
            forall|j: int| 0 <= j < i ==> s@[j] != c,
        decreases s.len() - i,
    {
        if s[i] == c {
            proof {
                lemma_find_char(s@, c, i as int);
            }
            return Some(i);
        }
        i = i + 1;
    }
    proof {
        lemma_find_char(s@, c, i as int);
    }
    None
}

/// `str::split_once` with a `char`.
pub open spec fn split_once(s: Seq<char>, c: char) -> Option<(Seq<char>, Seq<char>)> {
    match find_char(s, c) {
        Some(i) => Some((s.take(i), s.skip(i + 1))),
        None => None,
    }
}

pub fn split_once_chars(s: &Vec<char>, c: char) -> (res: Option<(Vec<char>, Vec<char>)>)
    ensures
        res.deep_view() == split_once(s@, c),
{
    broadcast use lemma_char_vec_deep_view;

    match find_char_index(s, c) {
        Some(i) => {
            proof {
                lemma_find_char_some(s@, c);
                assert(find_char(s@, c) == Some(i as int));
                assert(i < s.len());
            }
            let a = slice_chars(s, 0, i);
            let b = slice_chars(s, i + 1, s.len());
            assert(a@ =~= s@.take(i as int));
            assert(b@ =~= s@.skip(i + 1));
            Some((a, b))
        },
        None => None,
    }
}

/// The characters of `s` in `from..to`.
pub fn slice_chars(s: &Vec<char>, from: usize, to: usize) -> (res: Vec<char>)
    requires
        from <= to <= s.len(),
    ensures
        res@ == s@.subrange(from as int, to as int),
{
    let mut res: Vec<char> = Vec::new();
    let mut i = from;
    while i < to
        invariant
            from <= i <= to <= s.len(),
            res@ =~= s@.subrange(from as int, i as int),
        decreases to - i,
    {
        res.push(s[i]);
        i = i + 1;
    }
    res
}

/// At most the first `n` characters (`chars().take(n)`).
pub open spec fn take_chars(s: Seq<char>, n: nat) -> Seq<char> {
    if s.len() <= n {
        s
    } else {
        s.take(n as int)
    }
}

pub fn take_prefix(s: &Vec<char>, n: usize) -> (res: Vec<char>)
    ensures
        res@ == take_chars(s@, n as nat),
{
    let end = if s.len() <= n {
        s.len()
    } else {
        n
    };
    let r = slice_chars(s, 0, end);
    assert(s.len() <= n ==> r@ =~= s@);
    assert(s.len() > n ==> r@ =~= s@.take(n as int));
    r
}

/// Position of the last `c` in `s`.
pub open spec fn find_last_char(s: Seq<char>, c: char) -> Option<int>
    decreases s.len(),
{
    if s.len() == 0 {
        None
    } else if s.last() == c {
        Some(s.len() - 1)
    } else {
        find_last_char(s.drop_last(), c)
    }
}

/// `s.rsplit(c).next()`: what follows the last `c`, or all of `s`.
pub open spec fn after_last(s: Seq<char>, c: char) -> Seq<char> {
    match find_last_char(s, c) {
        Some(i) => s.skip(i + 1),
        None => s,
    }
}

pub fn after_last_chars(s: &Vec<char>, c: char) -> (res: Vec<char>)
    ensures
        res@ == after_last(s@, c),
{
    let mut i: usize = s.len();
    assert(s@.take(s.len() as int) =~= s@);
    while i > 0 && s[i - 1] != c
        invariant
            i <= s.len(),
            find_last_char(s@, c) == find_last_char(s@.take(i as int), c),
        decreases i,
    {
        assert(s@.take(i as int).drop_last() =~= s@.take(i - 1));
        i = i - 1;
    }
    assert(s@.take(s.len() as int) =~= s@);
    if i > 0 {
        assert(s@.take(i as int).last() == c);
        slice_chars(s, i, s.len())
    } else {
        assert(s@.take(0) =~= Seq::<char>::empty());
        let r = slice_chars(s, 0, s.len());
        assert(r@ =~= s@);
        r
    }
}

/// Position of the first occurrence of `needle` in `hay`.
pub open spec fn find_seq(hay: Seq<char>, needle: Seq<char>) -> Option<int>
    decreases hay.len(),
{
    if occurs_at(hay, needle, 0) {
        Some(0)
    } else if hay.len() == 0 {
        None
    } else {
        match find_seq(hay.drop_first(), needle) {
            Some(i) => Some(i + 1),
            None => None,
        }
    }
}

proof fn lemma_occurs_shift(hay: Seq<char>, needle: Seq<char>, i: int)
    requires
        hay.len() > 0,
        i >= 1,
    ensures
        occurs_at(hay, needle, i) == occurs_at(hay.drop_first(), needle, i - 1),
{
    if i + needle.len() <= hay.len() {
        assert(hay.subrange(i, i + needle.len()) =~= hay.drop_first().subrange(
            i - 1,
            i - 1 + needle.len(),
        ));
    }
}

proof fn lemma_find_seq(hay: Seq<char>, needle: Seq<char>, i: int)
    requires
        0 <= i <= hay.len(),
        forall|j: int| 0 <= j < i ==> !occurs_at(hay, needle, j),
    ensures
        occurs_at(hay, needle, i) ==> find_seq(hay, needle) == Some(i),
        i == hay.len() && !occurs_at(hay, needle, i) ==> find_seq(hay, needle) is None,
    decreases i,
{
    if i > 0 {
        assert forall|j: int| 0 <= j < i - 1 implies !occurs_at(hay.drop_first(), needle, j) by {
            lemma_occurs_shift(hay, needle, j + 1);
        }
        lemma_occurs_shift(hay, needle, i);
        lemma_find_seq(hay.drop_first(), needle, i - 1);
        assert(!occurs_at(hay, needle, 0));
    }
}

/// `hay.split(needle).next()`: what precedes the first `needle`, or all of `hay`.
pub open spec fn before_first(hay: Seq<char>, needle: Seq<char>) -> Seq<char> {
    match find_seq(hay, needle) {
        Some(i) => hay.take(i),
        None => hay,
    }
}

pub fn before_first_chars(hay: &Vec<char>, needle: &Vec<char>) -> (res: Vec<char>)
    ensures
        res@ == before_first(hay@, needle@),
{
    let mut i: usize = 0;
    loop
        invariant
            i <= hay.len(),
            forall|j: int| 0 <= j < i ==> !occurs_at(hay@, needle@, j),
        decreases hay.len() - i,
    {
        if matches_at(hay, needle, i) {
            proof {
                lemma_find_seq(hay@, needle@, i as int);
            }
            return slice_chars(hay, 0, i);
        }
        if i == hay.len() {
            proof {
                lemma_find_seq(hay@, needle@, i as int);
            }
            let r = slice_chars(hay, 0, hay.len());
            assert(r@ =~= hay@);
            return r;
        }
        i = i + 1;
    }
}

/// Concatenation of two character vectors.
pub fn concat_chars(a: &Vec<char>, b: &Vec<char>) -> (res: Vec<char>)
    ensures
        res@ == a@ + b@,
{
    let mut res = slice_chars(a, 0, a.len());
    let mut i: usize = 0;
    while i < b.len()
        invariant
            i <= b.len(),
            res@ =~= a@ + b@.take(i as int),
        decreases b.len() - i,
    {
        res.push(b[i]);
        i = i + 1;
    }
    assert(b@.take(b.len() as int) =~= b@);
    res
}

/// Concatenation of strings.
pub fn concat_str(a: &str, b: &str) -> (res: String)
    ensures
        res@ == a@ + b@,
{
    let mut r = String::new();
    r.append(a);
    r.append(b);
    r
}


/// A copy of an optional list of strings.
pub fn clone_opt_strings(v: &Option<Vec<String>>) -> (res: Option<Vec<String>>)
    ensures
        res.deep_view() == v.deep_view(),
{
    match v {
        Some(s) => Some(clone_strings(s)),
        None => None,
    }
}

/// A copy of an optional list of string pairs.
pub fn clone_opt_pairs(v: &Option<Vec<(String, String)>>) -> (res: Option<Vec<(String, String)>>)
    ensures
        res.deep_view() == v.deep_view(),
{
    match v {
        Some(s) => Some(clone_pairs(s)),
        None => None,
    }
}


/// A text trimmed, or nothing where only whitespace is left.
pub open spec fn opt_trimmed(s: Seq<char>) -> Option<Seq<char>> {
    if trim(s).len() == 0 {
        None
    } else {
        Some(trim(s))
    }
}

pub fn trimmed_option(s: &str) -> (res: Option<String>)
    ensures
        res.deep_view() == opt_trimmed(s@),
{
    let t = trim_str(s);
    if t.as_str().is_empty() {
        None
    } else {
        Some(t)
    }
}


/// No piece of a split holds a separator.
pub proof fn lemma_split_pieces_free(s: Seq<char>, sep: Sep)
    ensures
        forall|i: int, j: int|
            0 <= i < split_by(s, sep).len() && 0 <= j < split_by(s, sep)[i].len() ==> !is_sep(
                sep,
                #[trigger] split_by(s, sep)[i][j],
            ),
    decreases s.len(),
{
    if s.len() > 0 {
        lemma_split_pieces_free(s.drop_last(), sep);
        lemma_split_by_nonempty(s.drop_last(), sep);
        let r = split_by(s.drop_last(), sep);
        if !is_sep(sep, s.last()) {
            let n = split_by(s, sep);
            assert forall|i: int, j: int| 0 <= i < n.len() && 0 <= j < n[i].len() implies !is_sep(
                sep,
                #[trigger] n[i][j],
            ) by {
                if i == r.len() - 1 {
                    if j < r.last().len() {
                        assert(n[i][j] == r[i][j]);
                    }
                } else {
                    assert(n[i] == r[i]);
                }
            }
        } else {
            let n = split_by(s, sep);
            assert forall|i: int, j: int| 0 <= i < n.len() && 0 <= j < n[i].len() implies !is_sep(
                sep,
                #[trigger] n[i][j],
            ) by {
                if i < r.len() {
                    assert(n[i] == r[i]);
                }
            }
        }
    }
}

/// Every token is nonempty and holds no separator.
pub proof fn lemma_tokens_free(s: Seq<char>, sep: Sep)
    ensures
        forall|k: int| 0 <= k < tokens(s, sep).len() ==> (#[trigger] tokens(s, sep)[k]).len() > 0,
        forall|k: int, j: int|
            0 <= k < tokens(s, sep).len() && 0 <= j < tokens(s, sep)[k].len() ==> !is_sep(
                sep,
                #[trigger] tokens(s, sep)[k][j],
            ),
{
    let pred = |p: Seq<char>| nonempty(p);
    let parts = split_by(s, sep);
    lemma_split_pieces_free(s, sep);
    assert forall|k: int| 0 <= k < tokens(s, sep).len() implies (#[trigger] tokens(
        s,
        sep,
    )[k]).len() > 0 by {
        parts.lemma_filter_pred(pred, k);
    }
    assert forall|k: int, j: int|
        0 <= k < tokens(s, sep).len() && 0 <= j < tokens(s, sep)[k].len() implies !is_sep(
        sep,
        #[trigger] tokens(s, sep)[k][j],
    ) by {
        let t = tokens(s, sep)[k];
        assert(parts.filter(pred).contains(t));
        parts.lemma_filter_contains_rev(pred, t);
        let i = choose|i: int| 0 <= i < parts.len() && parts[i] == t;
        assert(parts[i][j] == t[j]);
    }
}

} // verus!
