//! Text primitives: the few operations on strings that the rest of the
//! library is written in, each with its meaning over `Seq<char>`.

use vstd::prelude::*;

verus! {

/// Whether `c` has the Unicode property `White_Space`.
pub uninterp spec fn char_is_whitespace(c: char) -> bool;

/// The lowercase form of a text, as Unicode defines it for whole strings.
pub uninterp spec fn str_lowercase(s: Seq<char>) -> Seq<char>;

/// Calls `char::is_whitespace`. The result is a function of the character
/// alone and is named: the property is a table of Unicode. Of the
/// characters of ASCII the table holds the space and the five from the
/// tabulator to the carriage return, and no other.
#[verifier::external_body]
pub(crate) fn is_whitespace(c: char) -> (r: bool)
    ensures
        r == char_is_whitespace(c),
        c <= '\u{7f}' ==> r == (c == ' ' || ('\u{9}' <= c && c <= '\u{d}')),
{
    c.is_whitespace()
}

/// Calls `str::to_lowercase`. The result is a function of the text alone and
/// is named, not described.
#[verifier::external_body]
pub(crate) fn lowercase(s: &str) -> (r: String)
    ensures
        r@ == str_lowercase(s@),
{
    s.to_lowercase()
}

/// Calls `String::from_iter` on the characters of `v`: the string made of
/// exactly these characters, in this order.
#[verifier::external_body]
pub(crate) fn from_chars(v: &Vec<char>) -> (r: String)
    ensures
        r@ == v@,
{
    String::from_iter(v.iter())
}

/// The characters of `s`, in order.
pub fn to_chars(s: &str) -> (out: Vec<char>)
    ensures
        out@ == s@,
{
    let mut out: Vec<char> = Vec::new();
    for c in it: s.chars()
        invariant
            out@ == s@.take(it.index() as int),
            it.seq() == s@,
    {
        out.push(c);
    }
    out
}

/// The string made of `v[from..to]`.
pub(crate) fn slice_to_string(v: &Vec<char>, from: usize, to: usize) -> (r: String)
    requires
        from <= to <= v.len(),
    ensures
        r@ == v@.subrange(from as int, to as int),
{
    let mut part: Vec<char> = Vec::new();
    let mut i: usize = from;
    while i < to
        invariant
            from <= i <= to <= v.len(),
            part@ == v@.subrange(from as int, i as int),
        decreases to - i,
    {
        part.push(v[i]);
        i += 1;
    }
    from_chars(&part)
}

/// `s` without its leading whitespace.
pub open spec fn trim_start_spec(s: Seq<char>) -> Seq<char>
    decreases s.len(),
{
    if s.len() > 0 && char_is_whitespace(s[0]) {
        trim_start_spec(s.drop_first())
    } else {
        s
    }
}

/// `s` without its trailing whitespace.
pub open spec fn trim_end_spec(s: Seq<char>) -> Seq<char>
    decreases s.len(),
{
    if s.len() > 0 && char_is_whitespace(s.last()) {
        trim_end_spec(s.drop_last())
    } else {
        s
    }
}

/// `s` without leading and trailing whitespace.
pub open spec fn trim_spec(s: Seq<char>) -> Seq<char> {
    trim_end_spec(trim_start_spec(s))
}

/// What is left when trailing whitespace is dropped is the beginning of
/// the text, ends with no whitespace, and lacks only whitespace.
pub proof fn lemma_trim_end(s: Seq<char>)
    ensures
        trim_end_spec(s).is_prefix_of(s),
        trim_end_spec(s).len() > 0 ==> !char_is_whitespace(trim_end_spec(s).last()),
        forall|i: int| trim_end_spec(s).len() <= i < s.len() ==> char_is_whitespace(s[i]),
    decreases s.len(),
{
    if s.len() > 0 && char_is_whitespace(s.last()) {
        let front = s.drop_last();
        lemma_trim_end(front);
        assert forall|i: int| trim_end_spec(s).len() <= i < s.len() implies char_is_whitespace(
            s[i],
        ) by {
            if i < front.len() {
                assert(front[i] == s[i]);
            }
        }
    }
}

/// What is left when leading whitespace is dropped is the end of the
/// text, begins with no whitespace, and lacks only whitespace.
pub proof fn lemma_trim_start(s: Seq<char>)
    ensures
        trim_start_spec(s).is_suffix_of(s),
        trim_start_spec(s).len() > 0 ==> !char_is_whitespace(trim_start_spec(s)[0]),
        forall|i: int| 0 <= i < s.len() - trim_start_spec(s).len() ==> char_is_whitespace(s[i]),
    decreases s.len(),
{
    if s.len() > 0 && char_is_whitespace(s[0]) {
        let rest = s.drop_first();
        lemma_trim_start(rest);
        let r = trim_start_spec(rest);
        assert(r =~= s.subrange(s.len() - r.len(), s.len() as int)) by {
            assert(r =~= rest.subrange(rest.len() - r.len(), rest.len() as int));
        }
        assert forall|i: int| 0 <= i < s.len() - r.len() implies char_is_whitespace(s[i]) by {
            if i > 0 {
                assert(rest[i - 1] == s[i]);
            }
        }
    }
}

/// Whether `c` is whitespace of ASCII: a space, or one of the five
/// characters from the tabulator to the carriage return, the line feed
/// among them.
pub open spec fn is_ascii_space(c: char) -> bool {
    c == ' ' || ('\u{9}' <= c && c <= '\u{d}')
}

/// Index of the first character of `v[from..]` that is not whitespace.
fn skip_whitespace(v: &Vec<char>, from: usize, to: usize) -> (i: usize)
    requires
        from <= to <= v.len(),
    ensures
        from <= i <= to,
        trim_start_spec(v@.subrange(from as int, to as int)) == v@.subrange(i as int, to as int),
        i < to ==> !is_ascii_space(v@[i as int]),
{
    let mut i: usize = from;
    while i < to && is_whitespace(v[i])
        invariant
            from <= i <= to <= v.len(),
            trim_start_spec(v@.subrange(from as int, to as int)) == trim_start_spec(
                v@.subrange(i as int, to as int),
            ),
        decreases to - i,
    {
        assert(v@.subrange(i as int, to as int).drop_first() == v@.subrange(i + 1, to as int));
        i += 1;
    }
    i
}

/// End of `v[from..to]` once its trailing whitespace is dropped.
fn drop_whitespace(v: &Vec<char>, from: usize, to: usize) -> (j: usize)
    requires
        from <= to <= v.len(),
    ensures
        from <= j <= to,
        trim_end_spec(v@.subrange(from as int, to as int)) == v@.subrange(from as int, j as int),
        j > from ==> !is_ascii_space(v@[j - 1]),
{
    let mut j: usize = to;
    while j > from && is_whitespace(v[j - 1])
        invariant
            from <= j <= to <= v.len(),
            trim_end_spec(v@.subrange(from as int, to as int)) == trim_end_spec(
                v@.subrange(from as int, j as int),
            ),
        decreases j - from,
    {
        assert(v@.subrange(from as int, j as int).drop_last() == v@.subrange(from as int, j - 1));
        j -= 1;
    }
    j
}

/// `s` without leading and trailing whitespace.
pub fn trim(s: &str) -> (r: String)
    ensures
        r@ == trim_spec(s@),
        r@.len() > 0 ==> !is_ascii_space(r@[0]) && !is_ascii_space(r@.last()),
{
    let v = to_chars(s);
    let i = skip_whitespace(&v, 0, v.len());
    let j = drop_whitespace(&v, i, v.len());
    assert(v@.subrange(0, v.len() as int) == v@);
    slice_to_string(&v, i, j)
}

/// `s` without trailing whitespace.
pub fn trim_end(s: &str) -> (r: String)
    ensures
        r@ == trim_end_spec(s@),
        r@.len() > 0 ==> !is_ascii_space(r@.last()),
{
    let v = to_chars(s);
    let j = drop_whitespace(&v, 0, v.len());
    assert(v@.subrange(0, v.len() as int) == v@);
    slice_to_string(&v, 0, j)
}

/// The texts that a vector of strings holds.
pub open spec fn texts(v: Seq<String>) -> Seq<Seq<char>> {
    v.map_values(|s: String| s@)
}

/// One more string holds one more text.
pub proof fn lemma_texts_push(v: Seq<String>, s: String)
    ensures
        texts(v.push(s)) == texts(v).push(s@),
{
    assert(texts(v.push(s)) =~= texts(v).push(s@));
}

/// Whether `p` stands in `s` at index `i`.
pub open spec fn occurs_at(s: Seq<char>, p: Seq<char>, i: int) -> bool {
    0 <= i && i + p.len() <= s.len() && s.subrange(i, i + p.len()) == p
}

/// The first index at or after `i` at which `p` stands in `s`, or -1.
pub open spec fn find_from(s: Seq<char>, p: Seq<char>, i: int) -> int
    decreases s.len() - i + 1,
{
    if i < 0 || i + p.len() > s.len() {
        -1
    } else if occurs_at(s, p, i) {
        i
    } else {
        find_from(s, p, i + 1)
    }
}

/// What the search from `i` finds is the first place at or after `i` at
/// which `p` stands in `s`, and it finds none only where there is none.
pub proof fn lemma_find_from(s: Seq<char>, p: Seq<char>, i: int)
    requires
        0 <= i,
    ensures
        find_from(s, p, i) == -1 || (i <= find_from(s, p, i) && occurs_at(
            s,
            p,
            find_from(s, p, i),
        )),
        forall|j: int|
            i <= j && (find_from(s, p, i) == -1 || j < find_from(s, p, i)) ==> !#[trigger] occurs_at(
                s,
                p,
                j,
            ),
    decreases s.len() - i + 1,
{
    if i + p.len() <= s.len() && !occurs_at(s, p, i) {
        lemma_find_from(s, p, i + 1);
    }
}

/// Whether `p` occurs somewhere in `s`.
pub open spec fn contains_spec(s: Seq<char>, p: Seq<char>) -> bool {
    find_from(s, p, 0) >= 0
}

/// Whether `p` stands in `v` at index `i`.
fn matches_at(v: &Vec<char>, p: &Vec<char>, i: usize) -> (r: bool)
    ensures
        r == occurs_at(v@, p@, i as int),
{
    if p.len() > v.len() || i > v.len() - p.len() {
        return false;
    }
    let mut k: usize = 0;
    while k < p.len()
        invariant
            k <= p.len(),
            i + p.len() <= v.len(),
            forall|j: int| 0 <= j < k ==> v@[i + j] == p@[j],
        decreases p.len() - k,
    {
        if v[i + k] != p[k] {
            assert(v@.subrange(i as int, i + p.len())[k as int] != p@[k as int]);
            return false;
        }
        k += 1;
    }
    assert(v@.subrange(i as int, i + p.len()) =~= p@);
    true
}

/// The first index at which `p` stands in `v`, searching from `from`.
pub fn find_in(v: &Vec<char>, p: &Vec<char>, from: usize) -> (r: Option<usize>)
    ensures
        match r {
            Some(i) => i as int == find_from(v@, p@, from as int) && from <= i && occurs_at(
                v@,
                p@,
                i as int,
            ),
            None => find_from(v@, p@, from as int) == -1,
        },
{
    if p.len() > v.len() || from > v.len() - p.len() {
        return None;
    }
    let last: usize = v.len() - p.len();
    let mut i: usize = from;
    loop
        invariant
            from <= i <= last,
            last + p.len() == v.len(),
            find_from(v@, p@, from as int) == find_from(v@, p@, i as int),
        decreases last - i,
    {
        if matches_at(v, p, i) {
            return Some(i);
        }
        if i == last {
            assert(find_from(v@, p@, i + 1) == -1);
            return None;
        }
        i += 1;
    }
}

/// Whether `s` begins with `p`.
pub fn starts_with(s: &str, p: &str) -> (r: bool)
    ensures
        r == p@.is_prefix_of(s@),
{
    let v = to_chars(s);
    let q = to_chars(p);
    matches_at(&v, &q, 0)
}

/// Whether `p` occurs somewhere in `s`.
pub fn contains(s: &str, p: &str) -> (r: bool)
    ensures
        r == contains_spec(s@, p@),
{
    let v = to_chars(s);
    let q = to_chars(p);
    find_in(&v, &q, 0).is_some()
}

/// `s` cut at every `sep`: one piece to begin with, each separator opens a
/// new piece and every other character extends the last one.
pub open spec fn split_spec(s: Seq<char>, sep: char) -> Seq<Seq<char>>
    decreases s.len(),
{
    if s.len() == 0 {
        seq![Seq::<char>::empty()]
    } else {
        let before = split_spec(s.drop_last(), sep);
        if s.last() == sep {
            before.push(Seq::<char>::empty())
        } else {
            before.drop_last().push(before.last().push(s.last()))
        }
    }
}

/// Cutting a text gives at least one piece, no piece holds the separator,
/// and the pieces with the separator between them are the text again.
pub proof fn lemma_split(s: Seq<char>, sep: char)
    ensures
        split_spec(s, sep).len() >= 1,
        forall|k: int, i: int|
            0 <= k < split_spec(s, sep).len() && 0 <= i < split_spec(s, sep)[k].len()
                ==> #[trigger] split_spec(s, sep)[k][i] != sep,
        join_spec(split_spec(s, sep), seq![sep]) == s,
    decreases s.len(),
{
    let r = split_spec(s, sep);
    if s.len() == 0 {
        assert(join_spec(r, seq![sep]) == r[0]);
        assert(r[0] =~= s);
    } else {
        let front = s.drop_last();
        let before = split_spec(front, sep);
        lemma_split(front, sep);
        assert(s =~= front.push(s.last()));
        if s.last() == sep {
            assert(r.drop_last() =~= before);
            assert(r.last() =~= Seq::<char>::empty());
            assert(join_spec(r, seq![sep]) =~= front + seq![sep]);
            assert forall|k: int, i: int| 0 <= k < r.len() && 0 <= i < r[k].len() implies #[trigger] r[k][i]
                != sep by {
                assert(r[k] == before[k]);
            }
        } else {
            let last = before.last().push(s.last());
            assert(r.last() == last);
            assert(r.drop_last() =~= before.drop_last());
            if before.len() == 1 {
                assert(join_spec(before, seq![sep]) == before[0]);
                assert(join_spec(r, seq![sep]) == r[0]);
                assert(r[0] =~= front.push(s.last()));
            } else {
                assert(join_spec(r, seq![sep]) =~= (join_spec(before.drop_last(), seq![sep])
                    + seq![sep] + before.last()).push(s.last()));
            }
            assert forall|k: int, i: int| 0 <= k < r.len() && 0 <= i < r[k].len() implies #[trigger] r[k][i]
                != sep by {
                if k < r.len() - 1 {
                    assert(r[k] == before[k]);
                } else if i < before.last().len() {
                    assert(r[k][i] == before[before.len() - 1][i]);
                }
            }
        }
    }
}

/// The pieces of `s` between the occurrences of `sep`.
pub fn split(s: &str, sep: char) -> (out: Vec<String>)
    ensures
        texts(out@) == split_spec(s@, sep),
{
    let v = to_chars(s);
    let mut out: Vec<String> = Vec::new();
    let mut start: usize = 0;
    let mut i: usize = 0;
    assert(texts(out@).push(v@.subrange(0, 0)) =~~= seq![Seq::<char>::empty()]);
    while i < v.len()
        invariant
            start <= i <= v.len(),
            split_spec(v@.take(i as int), sep) == texts(out@).push(
                v@.subrange(start as int, i as int),
            ),
        decreases v.len() - i,
    {
        proof {
            let t = v@.take(i + 1);
            assert(t.drop_last() == v@.take(i as int));
            assert(t.last() == v@[i as int]);
            let before = split_spec(v@.take(i as int), sep);
            assert(before.drop_last() == texts(out@));
        }
        if v[i] == sep {
            let piece = slice_to_string(&v, start, i);
            proof {
                assert(texts(out@.push(piece)) == texts(out@).push(piece@));
            }
            out.push(piece);
            start = i + 1;
            assert(v@.subrange(start as int, start as int) == Seq::<char>::empty());
        } else {
            assert(v@.subrange(start as int, i as int).push(v@[i as int]) == v@.subrange(
                start as int,
                i + 1,
            ));
        }
        i += 1;
    }
    let piece = slice_to_string(&v, start, i);
    proof {
        assert(texts(out@.push(piece)) == texts(out@).push(piece@));
        assert(v@.take(i as int) == v@);
    }
    out.push(piece);
    out
}

/// The texts of `parts` in one text, with `sep` between neighbours.
pub open spec fn join_spec(parts: Seq<Seq<char>>, sep: Seq<char>) -> Seq<char>
    decreases parts.len(),
{
    if parts.len() == 0 {
        Seq::<char>::empty()
    } else if parts.len() == 1 {
        parts[0]
    } else {
        join_spec(parts.drop_last(), sep) + sep + parts.last()
    }
}

/// The strings of `parts` in one string, with `sep` between neighbours.
pub fn join(parts: &Vec<String>, sep: &str) -> (r: String)
    ensures
        r@ == join_spec(texts(parts@), sep@),
{
    let mut r = String::new();
    let mut i: usize = 0;
    while i < parts.len()
        invariant
            i <= parts.len(),
            r@ == join_spec(texts(parts@).take(i as int), sep@),
        decreases parts.len() - i,
    {
        proof {
            let t = texts(parts@).take(i + 1);
            assert(t.drop_last() == texts(parts@).take(i as int));
            assert(t.last() == parts@[i as int]@);
        }
        if i > 0 {
            r.append(sep);
        }
        r.append(parts[i].as_str());
        i += 1;
    }
    assert(texts(parts@).take(i as int) == texts(parts@));
    r
}

/// `s` without its first `n` characters.
pub fn skip_chars(s: &str, n: usize) -> (r: String)
    ensures
        r@ == (if n <= s@.len() { s@.skip(n as int) } else { Seq::<char>::empty() }),
{
    let v = to_chars(s);
    if n <= v.len() {
        slice_to_string(&v, n, v.len())
    } else {
        String::new()
    }
}

/// `s` without the characters that `drop` holds.
pub open spec fn strip_chars_spec(s: Seq<char>, drop: Seq<char>) -> Seq<char>
    decreases s.len(),
{
    if s.len() == 0 {
        s
    } else if drop.contains(s.last()) {
        strip_chars_spec(s.drop_last(), drop)
    } else {
        strip_chars_spec(s.drop_last(), drop).push(s.last())
    }
}

/// Whether `set` holds `c`.
fn holds_char(set: &Vec<char>, c: char) -> (r: bool)
    ensures
        r == set@.contains(c),
{
    let mut k: usize = 0;
    while k < set.len()
        invariant
            k <= set.len(),
            forall|j: int| 0 <= j < k ==> set@[j] != c,
        decreases set.len() - k,
    {
        if set[k] == c {
            return true;
        }
        k += 1;
    }
    false
}

/// `s` without the characters that `drop` holds.
pub fn strip_chars(s: &str, drop: &str) -> (r: String)
    ensures
        r@ == strip_chars_spec(s@, drop@),
{
    let v = to_chars(s);
    let d = to_chars(drop);
    let mut out: Vec<char> = Vec::new();
    let mut i: usize = 0;
    while i < v.len()
        invariant
            i <= v.len(),
            out@ == strip_chars_spec(v@.take(i as int), d@),
        decreases v.len() - i,
    {
        proof {
            let t = v@.take(i + 1);
            assert(t.drop_last() == v@.take(i as int));
            assert(t.last() == v@[i as int]);
        }
        if !holds_char(&d, v[i]) {
            out.push(v[i]);
        }
        i += 1;
    }
    assert(v@.take(i as int) == v@);
    from_chars(&out)
}

/// Whether two strings hold the same text.
pub fn same_text(a: &str, b: &str) -> (r: bool)
    ensures
        r == (a@ == b@),
{
    a.to_owned() == b.to_owned()
}

/// The number of characters of `s`.
pub fn char_count(s: &str) -> (n: usize)
    ensures
        n == s@.len(),
{
    s.unicode_len()
}

/// Whether two vectors of strings hold the same texts.
pub fn same_texts(a: &Vec<String>, b: &Vec<String>) -> (r: bool)
    ensures
        r == (texts(a@) == texts(b@)),
{
    if a.len() != b.len() {
        assert(texts(a@).len() != texts(b@).len());
        return false;
    }
    let mut i: usize = 0;
    while i < a.len()
        invariant
            i <= a.len(),
            a.len() == b.len(),
            forall|k: int| 0 <= k < i ==> a@[k]@ == b@[k]@,
        decreases a.len() - i,
    {
        if a[i] != b[i] {
            assert(texts(a@)[i as int] != texts(b@)[i as int]);
            return false;
        }
        i += 1;
    }
    assert(texts(a@) =~= texts(b@));
    true
}

/// The text that an optional string holds, if any.
pub open spec fn opt_text(s: Option<String>) -> Option<Seq<char>> {
    match s {
        Some(t) => Some(t@),
        None => None,
    }
}

/// Whether two optional strings hold the same.
pub fn same_opt_text(a: &Option<String>, b: &Option<String>) -> (r: bool)
    ensures
        r == (opt_text(*a) == opt_text(*b)),
{
    match (a, b) {
        (Some(x), Some(y)) => *x == *y,
        (None, None) => true,
        _ => false,
    }
}

/// A copy of an optional string.
pub fn copy_opt_text(a: &Option<String>) -> (r: Option<String>)
    ensures
        opt_text(r) == opt_text(*a),
{
    match a {
        Some(x) => Some(x.clone()),
        None => None,
    }
}

/// A copy of a vector of strings.
pub fn copy_texts(a: &Vec<String>) -> (r: Vec<String>)
    ensures
        texts(r@) == texts(a@),
{
    let mut out: Vec<String> = Vec::new();
    let mut i: usize = 0;
    assert(texts(out@) == texts(a@).take(0));
    while i < a.len()
        invariant
            i <= a.len(),
            texts(out@) == texts(a@).take(i as int),
        decreases a.len() - i,
    {
        let line = a[i].clone();
        proof {
            lemma_texts_push(out@, line);
            assert(texts(a@).take(i as int).push(line@) == texts(a@).take(i + 1));
        }
        out.push(line);
        i += 1;
    }
    assert(texts(a@).take(i as int) == texts(a@));
    out
}

/// Whether `a` comes before `b` in the order of dictionaries: by the first
/// character in which they differ, and a text before its extensions.
pub open spec fn text_lt(a: Seq<char>, b: Seq<char>) -> bool
    decreases a.len(),
{
    if b.len() == 0 {
        false
    } else if a.len() == 0 {
        true
    } else if a[0] != b[0] {
        a[0] < b[0]
    } else {
        text_lt(a.drop_first(), b.drop_first())
    }
}

/// No text comes before itself.
pub proof fn lemma_text_lt_irreflexive(a: Seq<char>)
    ensures
        !text_lt(a, a),
    decreases a.len(),
{
    if a.len() > 0 {
        lemma_text_lt_irreflexive(a.drop_first());
    }
}

/// What comes before a text comes before what that text comes before.
pub proof fn lemma_text_lt_transitive(a: Seq<char>, b: Seq<char>, c: Seq<char>)
    requires
        text_lt(a, b),
        text_lt(b, c),
    ensures
        text_lt(a, c),
    decreases a.len(),
{
    if a.len() > 0 && a[0] == b[0] && b[0] == c[0] {
        lemma_text_lt_transitive(a.drop_first(), b.drop_first(), c.drop_first());
    }
}

/// Of two different texts one comes before the other.
pub proof fn lemma_text_lt_total(a: Seq<char>, b: Seq<char>)
    ensures
        text_lt(a, b) || text_lt(b, a) || a == b,
    decreases a.len(),
{
    if a.len() > 0 && b.len() > 0 && a[0] == b[0] {
        lemma_text_lt_total(a.drop_first(), b.drop_first());
        if a.drop_first() == b.drop_first() {
            assert forall|i: int| 0 <= i < a.len() implies a[i] == b[i] by {
                if i > 0 {
                    assert(a.drop_first()[i - 1] == a[i]);
                    assert(b.drop_first()[i - 1] == b[i]);
                }
            }
            assert(a.len() == a.drop_first().len() + 1);
            assert(b.len() == b.drop_first().len() + 1);
            assert(a =~= b);
        }
    } else if a.len() == 0 && b.len() == 0 {
        assert(a =~= b);
    }
}

/// Whether `a` comes before `b` in the order of dictionaries.
pub fn less_text(a: &str, b: &str) -> (r: bool)
    ensures
        r == text_lt(a@, b@),
{
    let x = to_chars(a);
    let y = to_chars(b);
    let mut i: usize = 0;
    assert(x@.skip(0) == x@ && y@.skip(0) == y@);
    while i < x.len() && i < y.len()
        invariant
            i <= x.len(),
            i <= y.len(),
            x@ == a@,
            y@ == b@,
            text_lt(x@, y@) == text_lt(x@.skip(i as int), y@.skip(i as int)),
        decreases x.len() - i,
    {
        assert(x@.skip(i as int)[0] == x@[i as int]);
        assert(y@.skip(i as int)[0] == y@[i as int]);
        if x[i] != y[i] {
            return x[i] < y[i];
        }
        assert(x@.skip(i as int).drop_first() == x@.skip(i + 1));
        assert(y@.skip(i as int).drop_first() == y@.skip(i + 1));
        i += 1;
    }
    i < y.len()
}

/// `s` with every run of three or more line feeds shortened to two, so
/// that no two blank lines follow each other.
pub open spec fn collapse_spec(s: Seq<char>) -> Seq<char>
    decreases s.len(),
{
    if s.len() == 0 {
        s
    } else {
        let before = collapse_spec(s.drop_last());
        if s.last() == '\n' && before.len() >= 2 && before[before.len() - 1] == '\n'
            && before[before.len() - 2] == '\n' {
            before
        } else {
            before.push(s.last())
        }
    }
}

/// Whether three line feeds follow each other in `s` from index `i` on.
pub open spec fn three_feeds_at(s: Seq<char>, i: int) -> bool {
    0 <= i && i + 2 < s.len() && s[i] == '\n' && s[i + 1] == '\n' && s[i + 2] == '\n'
}

/// Whether nowhere in `s` three line feeds follow each other.
pub open spec fn no_two_blank_lines(s: Seq<char>) -> bool {
    forall|i: int| !#[trigger] three_feeds_at(s, i)
}

/// After the runs of line feeds are shortened, no two blank lines follow
/// each other, and a text in which none did is left as it was.
pub proof fn lemma_collapse(s: Seq<char>)
    ensures
        no_two_blank_lines(collapse_spec(s)),
        no_two_blank_lines(s) ==> collapse_spec(s) == s,
    decreases s.len(),
{
    if s.len() > 0 {
        let front = s.drop_last();
        lemma_collapse(front);
        let before = collapse_spec(front);
        let r = collapse_spec(s);
        assert forall|i: int| !#[trigger] three_feeds_at(r, i) by {
            assert(!three_feeds_at(before, i));
        }
        if no_two_blank_lines(s) {
            assert forall|i: int| !#[trigger] three_feeds_at(front, i) by {
                assert(!three_feeds_at(s, i));
            }
            assert(before == front);
            assert(!three_feeds_at(s, s.len() - 3));
            assert(r =~= s);
        }
    }
}

/// A text as a file holds it: no two blank lines in a row, no whitespace
/// at its end, and one line feed to close it.
pub open spec fn file_text(s: Seq<char>) -> Seq<char> {
    trim_end_spec(collapse_spec(s)) + "\n"@
}

/// `s` with every run of three or more line feeds shortened to two.
pub fn collapse(s: &str) -> (r: String)
    ensures
        r@ == collapse_spec(s@),
{
    let v = to_chars(s);
    let mut out: Vec<char> = Vec::new();
    let mut i: usize = 0;
    assert(v@.take(0) == Seq::<char>::empty());
    while i < v.len()
        invariant
            i <= v.len(),
            out@ == collapse_spec(v@.take(i as int)),
        decreases v.len() - i,
    {
        proof {
            let upto = v@.take(i + 1);
            assert(upto.drop_last() == v@.take(i as int));
            assert(upto.last() == v@[i as int]);
        }
        let n = out.len();
        if !(v[i] == '\n' && n >= 2 && out[n - 1] == '\n' && out[n - 2] == '\n') {
            out.push(v[i]);
        }
        i += 1;
    }
    assert(v@.take(i as int) == v@);
    from_chars(&out)
}

/// Whether a text ends with one line feed and no more.
pub open spec fn ends_with_one_feed(s: Seq<char>) -> bool {
    s.len() >= 1 && s.last() == '\n' && (s.len() >= 2 ==> s[s.len() - 2] != '\n')
}

/// A text as a file holds it: it ends with one line feed and no more, and
/// no two blank lines follow each other in it.
pub fn to_file_text(s: &str) -> (r: String)
    ensures
        r@ == file_text(s@),
        ends_with_one_feed(r@),
        no_two_blank_lines(r@),
{
    let tidy = collapse(s);
    let mut out = trim_end(tidy.as_str());
    let ghost kept = out@;
    out.append("\n");
    proof {
        reveal_strlit("\n");
        lemma_collapse(s@);
        lemma_trim_end(tidy@);
        assert(out@.len() == kept.len() + 1);
        assert(out@.last() == '\n');
        assert forall|i: int| !#[trigger] three_feeds_at(out@, i) by {
            if 0 <= i && i + 2 < kept.len() {
                assert(!three_feeds_at(tidy@, i));
                assert(kept[i] == tidy@[i] && kept[i + 1] == tidy@[i + 1] && kept[i + 2]
                    == tidy@[i + 2]);
            }
        }
    }
    out
}

/// The character of a decimal digit.
pub open spec fn digit_spec(d: nat) -> char {
    if d == 0 {
        '0'
    } else if d == 1 {
        '1'
    } else if d == 2 {
        '2'
    } else if d == 3 {
        '3'
    } else if d == 4 {
        '4'
    } else if d == 5 {
        '5'
    } else if d == 6 {
        '6'
    } else if d == 7 {
        '7'
    } else if d == 8 {
        '8'
    } else {
        '9'
    }
}

/// `n` in decimal, without leading zeros.
pub open spec fn decimal_spec(n: nat) -> Seq<char>
    decreases n,
{
    if n < 10 {
        seq![digit_spec(n)]
    } else {
        decimal_spec(n / 10).push(digit_spec(n % 10))
    }
}

/// The character of a decimal digit.
fn digit(d: u64) -> (c: char)
    requires
        d < 10,
    ensures
        c == digit_spec(d as nat),
{
    if d == 0 {
        '0'
    } else if d == 1 {
        '1'
    } else if d == 2 {
        '2'
    } else if d == 3 {
        '3'
    } else if d == 4 {
        '4'
    } else if d == 5 {
        '5'
    } else if d == 6 {
        '6'
    } else if d == 7 {
        '7'
    } else if d == 8 {
        '8'
    } else {
        '9'
    }
}

/// Writes `n` in decimal.
pub fn push_decimal(out: &mut Vec<char>, n: u64)
    ensures
        final(out)@ == old(out)@ + decimal_spec(n as nat),
    decreases n,
{
    if n < 10 {
        out.push(digit(n));
    } else {
        push_decimal(out, n / 10);
        out.push(digit(n % 10));
    }
}

/// Writes the characters of `s`.
pub fn push_text(out: &mut Vec<char>, s: &str)
    ensures
        final(out)@ == old(out)@ + s@,
{
    let mut v = to_chars(s);
    out.append(&mut v);
}

/// `n` in decimal.
pub fn decimal(n: u64) -> (r: String)
    ensures
        r@ == decimal_spec(n as nat),
{
    let mut out: Vec<char> = Vec::new();
    push_decimal(&mut out, n);
    assert(Seq::<char>::empty() + decimal_spec(n as nat) == decimal_spec(n as nat));
    from_chars(&out)
}

} // verus!
