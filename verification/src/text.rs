//! Character-level text operations: whitespace trimming, suffix trimming,
//! prefix stripping and joining, stated over the `Seq<char>` view of strings.
use vstd::prelude::*;

verus! {

broadcast use vstd::string::group_string_axioms;

/// Whitespace as `char::is_whitespace` defines it: the characters with the
/// Unicode `White_Space` property.
pub open spec fn spec_is_space(c: char) -> bool {
    ||| ('\u{9}' <= c && c <= '\u{d}')
    ||| c == ' '
    ||| c == '\u{85}'
    ||| c == '\u{a0}'
    ||| c == '\u{1680}'
    ||| ('\u{2000}' <= c && c <= '\u{200a}')
    ||| c == '\u{2028}'
    ||| c == '\u{2029}'
    ||| c == '\u{202f}'
    ||| c == '\u{205f}'
    ||| c == '\u{3000}'
}

/// The text with its leading whitespace removed.
pub open spec fn trim_start_seq(s: Seq<char>) -> Seq<char>
    decreases s.len(),
{
    if s.len() > 0 && spec_is_space(s[0]) {
        trim_start_seq(s.drop_first())
    } else {
        s
    }
}

/// The text with its trailing whitespace removed.
pub open spec fn trim_end_seq(s: Seq<char>) -> Seq<char>
    decreases s.len(),
{
    if s.len() > 0 && spec_is_space(s.last()) {
        trim_end_seq(s.drop_last())
    } else {
        s
    }
}

/// The text with whitespace removed at both ends (`str::trim`).
pub open spec fn trim_seq(s: Seq<char>) -> Seq<char> {
    trim_start_seq(trim_end_seq(s))
}

/// The text with every trailing occurrence of `c` removed (`str::trim_end_matches`).
pub open spec fn trim_end_char(s: Seq<char>, c: char) -> Seq<char>
    decreases s.len(),
{
    if s.len() > 0 && s.last() == c {
        trim_end_char(s.drop_last(), c)
    } else {
        s
    }
}

/// The texts of `list` put one after the other with `sep` between each two.
pub open spec fn join_seq(list: Seq<Seq<char>>, sep: Seq<char>) -> Seq<char>
    decreases list.len(),
{
    if list.len() == 0 {
        Seq::empty()
    } else if list.len() == 1 {
        list[0]
    } else {
        join_seq(list.drop_last(), sep) + sep + list.last()
    }
}

/// The views of a sequence of strings.
pub open spec fn views(list: Seq<String>) -> Seq<Seq<char>> {
    list.map_values(|s: String| s@)
}

/// The view of an optional string.
pub open spec fn opt_view(a: Option<String>) -> Option<Seq<char>> {
    match a {
        Some(s) => Some(s@),
        None => None,
    }
}

/// A copy of an optional string.
pub fn copy_opt(a: &Option<String>) -> (r: Option<String>)
    ensures
        opt_view(r) == opt_view(*a),
{
    match a {
        Some(s) => Some(s.clone()),
        None => None,
    }
}

/// Whether `c` is whitespace.
pub fn is_space(c: char) -> (r: bool)
    ensures
        r == spec_is_space(c),
{
    ('\u{9}' <= c && c <= '\u{d}') || c == ' ' || c == '\u{85}' || c == '\u{a0}' || c
        == '\u{1680}' || ('\u{2000}' <= c && c <= '\u{200a}') || c == '\u{2028}' || c
        == '\u{2029}' || c == '\u{202f}' || c == '\u{205f}' || c == '\u{3000}'
}

/// The characters of `s`, in order.
pub fn chars_of(s: &str) -> (v: Vec<char>)
    ensures
        v@ == s@,
{
    let mut v: Vec<char> = Vec::new();
    for c in it: s.chars()
        invariant
            it.seq() == s@,
            v@ == s@.take(it.index() as int),
    {
        v.push(c);
        assert(s@.take(it.index() + 1) == s@.take(it.index() as int).push(c));
    }
    assert(s@.take(s@.len() as int) == s@);
    v
}

/// Calls `String::push`, which appends one character.
#[verifier::external_body]
fn push_char(s: &mut String, c: char)
    ensures
        final(s)@ == old(s)@.push(c),
{
    s.push(c);
}

/// Appends `c` to `s`.
pub fn append_char(s: &mut String, c: char)
    ensures
        final(s)@ == old(s)@.push(c),
{
    push_char(s, c);
}

/// Appends the characters `v[lo..hi]` to `s`.
pub fn append_range(s: &mut String, v: &Vec<char>, lo: usize, hi: usize)
    requires
        lo <= hi <= v.len(),
    ensures
        final(s)@ == old(s)@ + v@.subrange(lo as int, hi as int),
{
    let ghost start = s@;
    let mut i = lo;
    while i < hi
        invariant
            lo <= i <= hi <= v.len(),
            s@ == start + v@.subrange(lo as int, i as int),
        decreases hi - i,
    {
        push_char(s, v[i]);
        assert(v@.subrange(lo as int, i + 1) == v@.subrange(lo as int, i as int).push(v@[i as int]));
        i = i + 1;
    }
}

/// A new string holding the characters `v[lo..hi]`.
pub fn string_of_range(v: &Vec<char>, lo: usize, hi: usize) -> (s: String)
    requires
        lo <= hi <= v.len(),
    ensures
        s@ == v@.subrange(lo as int, hi as int),
{
    let mut s = String::new();
    append_range(&mut s, v, lo, hi);
    s
}

/// The end of `v[..hi]` once its trailing whitespace is removed.
fn trimmed_end(v: &Vec<char>) -> (hi: usize)
    ensures
        hi <= v.len(),
        v@.take(hi as int) == trim_end_seq(v@),
{
    let mut hi = v.len();
    assert(v@.take(hi as int) == v@);
    while hi > 0 && is_space(v[hi - 1])
        invariant
            hi <= v.len(),
            trim_end_seq(v@) == trim_end_seq(v@.take(hi as int)),
        decreases hi,
    {
        assert(v@.take(hi as int).drop_last() == v@.take(hi - 1));
        hi = hi - 1;
    }
    hi
}

/// The start of `v[..hi]` once its leading whitespace is removed.
fn trimmed_start(v: &Vec<char>, hi: usize) -> (lo: usize)
    requires
        hi <= v.len(),
    ensures
        lo <= hi,
        v@.subrange(lo as int, hi as int) == trim_start_seq(v@.take(hi as int)),
{
    let mut lo: usize = 0;
    assert(v@.subrange(0, hi as int) == v@.take(hi as int));
    while lo < hi && is_space(v[lo])
        invariant
            lo <= hi <= v.len(),
            trim_start_seq(v@.take(hi as int)) == trim_start_seq(v@.subrange(lo as int, hi as int)),
        decreases hi - lo,
    {
        assert(v@.subrange(lo as int, hi as int).drop_first() == v@.subrange(lo + 1, hi as int));
        lo = lo + 1;
    }
    lo
}

/// `s` with whitespace removed at both ends (`str::trim`).
pub fn trim(s: &str) -> (r: String)
    ensures
        r@ == trim_seq(s@),
{
    let v = chars_of(s);
    let hi = trimmed_end(&v);
    let lo = trimmed_start(&v, hi);
    string_of_range(&v, lo, hi)
}

/// `s` with every trailing `c` removed (`str::trim_end_matches`).
pub fn trim_end_matches(s: &str, c: char) -> (r: String)
    ensures
        r@ == trim_end_char(s@, c),
{
    let v = chars_of(s);
    let mut hi = v.len();
    assert(v@.take(hi as int) == v@);
    while hi > 0 && v[hi - 1] == c
        invariant
            hi <= v.len(),
            trim_end_char(v@, c) == trim_end_char(v@.take(hi as int), c),
        decreases hi,
    {
        assert(v@.take(hi as int).drop_last() == v@.take(hi - 1));
        hi = hi - 1;
    }
    string_of_range(&v, 0, hi)
}

/// Whether `a` and `b` hold the same characters.
pub fn same_text(a: &str, b: &str) -> (r: bool)
    ensures
        r == (a@ == b@),
{
    let x = chars_of(a);
    let y = chars_of(b);
    if x.len() != y.len() {
        return false;
    }
    let mut i: usize = 0;
    while i < x.len()
        invariant
            x@ == a@,
            y@ == b@,
            x.len() == y.len(),
            i <= x.len(),
            x@.take(i as int) == y@.take(i as int),
        decreases x.len() - i,
    {
        if x[i] != y[i] {
            assert(x@[i as int] != y@[i as int]);
            assert(x@ != y@);
            return false;
        }
        assert(x@.take(i + 1) == x@.take(i as int).push(x@[i as int]));
        assert(y@.take(i + 1) == y@.take(i as int).push(y@[i as int]));
        i = i + 1;
    }
    assert(x@ == x@.take(i as int));
    assert(y@ == y@.take(i as int));
    true
}

/// The rest of `s` after `prefix`, when `s` starts with `prefix` (`str::strip_prefix`).
pub fn strip_prefix(s: &str, prefix: &str) -> (r: Option<String>)
    ensures
        r is Some <==> (prefix@.len() <= s@.len() && s@.take(prefix@.len() as int) == prefix@),
        r matches Some(rest) ==> rest@ == s@.skip(prefix@.len() as int),
{
    let v = chars_of(s);
    let p = chars_of(prefix);
    if p.len() > v.len() {
        return None;
    }
    let mut i: usize = 0;
    while i < p.len()
        invariant
            v@ == s@,
            p@ == prefix@,
            p.len() <= v.len(),
            i <= p.len(),
            v@.take(i as int) == p@.take(i as int),
        decreases p.len() - i,
    {
        if v[i] != p[i] {
            assert(v@.take(p.len() as int)[i as int] != p@[i as int]);
            assert(v@.take(p.len() as int) != p@);
            return None;
        }
        assert(v@.take(i + 1) == v@.take(i as int).push(v@[i as int]));
        assert(p@.take(i + 1) == p@.take(i as int).push(p@[i as int]));
        i = i + 1;
    }
    assert(p@ == p@.take(i as int));
    assert(v@.subrange(p.len() as int, v.len() as int) == v@.skip(p.len() as int));
    Some(string_of_range(&v, p.len(), v.len()))
}

/// The strings of `list` joined with `sep` between each two (`[String]::join`).
pub fn join(list: &Vec<String>, sep: &str) -> (r: String)
    ensures
        r@ == join_seq(views(list@), sep@),
{
    let ghost parts = views(list@);
    let mut r = String::new();
    let mut i: usize = 0;
    while i < list.len()
        invariant
            i <= list.len(),
            parts == views(list@),
            r@ == join_seq(parts.take(i as int), sep@),
        decreases list.len() - i,
    {
        assert(parts.take(i + 1).drop_last() == parts.take(i as int));
        if i > 0 {
            r.append(sep);
        }
        r.append(list[i].as_str());
        i = i + 1;
    }
    assert(parts.take(list.len() as int) == parts);
    r
}

/// The total length of the texts of `list`.
pub open spec fn total_len(list: Seq<Seq<char>>) -> int
    decreases list.len(),
{
    if list.len() == 0 {
        0
    } else {
        total_len(list.drop_last()) + list.last().len()
    }
}

/// Where the text `list[k]` starts once `list` is joined with a
/// one-character separator: after the texts before it and one separator each.
pub open spec fn word_start(list: Seq<Seq<char>>, k: int) -> int {
    total_len(list.take(k)) + k
}

/// The layout of texts joined with a one-character separator `c`: its length
/// is the texts' total length plus one less than their number, each text
/// stands in order at its place, and `c` stands between each two.
pub proof fn lemma_join_layout(list: Seq<Seq<char>>, c: char)
    ensures
        list.len() == 0 ==> join_seq(list, seq![c]).len() == 0,
        list.len() > 0 ==> join_seq(list, seq![c]).len() == total_len(list) + list.len() - 1,
        forall|k: int|
            0 <= k < list.len() ==> join_seq(list, seq![c]).subrange(
                word_start(list, k),
                word_start(list, k) + list[k].len(),
            ) == #[trigger] list[k],
        forall|k: int|
            0 <= k < list.len() - 1 ==> join_seq(list, seq![c])[word_start(list, k)
                + #[trigger] list[k].len()] == c,
    decreases list.len(),
{
    let j = join_seq(list, seq![c]);
    if list.len() == 0 {
    } else if list.len() == 1 {
        assert(list.take(0) == Seq::<Seq<char>>::empty());
        assert(total_len(list.drop_last()) == 0);
        assert(j.subrange(0, list[0].len() as int) == list[0]);
    } else {
        let front = list.drop_last();
        let w = list.last();
        let jf = join_seq(front, seq![c]);
        lemma_join_layout(front, c);
        assert(j == jf + seq![c] + w);
        assert forall|k: int| 0 <= k < list.len() implies j.subrange(
            word_start(list, k),
            word_start(list, k) + list[k].len(),
        ) == #[trigger] list[k] by {
            if k < front.len() {
                assert(list.take(k) == front.take(k));
                assert(list[k] == front[k]);
                lemma_word_end_bound(front, k);
                lemma_total_len_nonneg(front.take(k));
                let a = word_start(front, k);
                let b = a + front[k].len();
                assert(0 <= a <= b <= jf.len());
                assert(j.subrange(a, b) =~= jf.subrange(a, b));
            } else {
                assert(list.take(k) == front);
                assert(j.subrange(word_start(list, k), word_start(list, k) + list[k].len()) == w);
            }
        }
        assert forall|k: int| 0 <= k < list.len() - 1 implies j[word_start(list, k)
            + #[trigger] list[k].len()] == c by {
            assert(list.take(k) == front.take(k));
            assert(list[k] == front[k]);
            lemma_total_len_nonneg(front.take(k));
            if k < front.len() - 1 {
                lemma_word_end_bound(front, k);
                let a = word_start(front, k) + front[k].len();
                assert(j[a] == jf[a]);
            } else {
                assert(front.take(k) == front.drop_last());
                assert(word_start(front, k) + front[k].len() == jf.len());
            }
        }
    }
}

/// Lengths add up to no less than zero.
proof fn lemma_total_len_nonneg(list: Seq<Seq<char>>)
    ensures
        total_len(list) >= 0,
    decreases list.len(),
{
    if list.len() > 0 {
        lemma_total_len_nonneg(list.drop_last());
    }
}

/// Each text of `list` ends, joined, no later than the joined text.
proof fn lemma_word_end_bound(list: Seq<Seq<char>>, k: int)
    requires
        0 <= k < list.len(),
    ensures
        word_start(list, k) + list[k].len() <= total_len(list) + list.len() - 1,
        k < list.len() - 1 ==> word_start(list, k) + list[k].len() < total_len(list) + list.len() - 1,
    decreases list.len(),
{
    let front = list.drop_last();
    if k == list.len() - 1 {
        assert(list.take(k) == front);
    } else {
        assert(list.take(k) == front.take(k));
        assert(list[k] == front[k]);
        lemma_word_end_bound(front, k);
        assert(total_len(list) == total_len(front) + list.last().len());
    }
}

/// `trim_end_seq` keeps a prefix, drops only whitespace, and ends in a non-space.
pub proof fn lemma_trim_end_take(s: Seq<char>) -> (hi: int)
    ensures
        0 <= hi <= s.len(),
        trim_end_seq(s) == s.take(hi),
        forall|i: int| hi <= i < s.len() ==> spec_is_space(#[trigger] s[i]),
        hi > 0 ==> !spec_is_space(s[hi - 1]),
    decreases s.len(),
{
    if s.len() > 0 && spec_is_space(s.last()) {
        let hi = lemma_trim_end_take(s.drop_last());
        assert(s.drop_last().take(hi) == s.take(hi));
        assert forall|i: int| hi <= i < s.len() implies spec_is_space(#[trigger] s[i]) by {
            if i < s.len() - 1 {
                assert(s[i] == s.drop_last()[i]);
            }
        }
        hi
    } else {
        assert(s.take(s.len() as int) == s);
        s.len() as int
    }
}

/// `trim_start_seq` keeps a suffix, drops only whitespace, and starts with a non-space.
pub proof fn lemma_trim_start_skip(s: Seq<char>) -> (lo: int)
    ensures
        0 <= lo <= s.len(),
        trim_start_seq(s) == s.skip(lo),
        forall|i: int| 0 <= i < lo ==> spec_is_space(#[trigger] s[i]),
        lo < s.len() ==> !spec_is_space(s[lo]),
    decreases s.len(),
{
    if s.len() > 0 && spec_is_space(s[0]) {
        let rest = s.drop_first();
        let lo = lemma_trim_start_skip(rest);
        assert(rest.skip(lo) == s.skip(lo + 1));
        assert forall|i: int| 0 <= i < lo + 1 implies spec_is_space(#[trigger] s[i]) by {
            if i > 0 {
                assert(s[i] == rest[i - 1]);
            }
        }
        lo + 1
    } else {
        assert(s.skip(0) == s);
        0
    }
}

/// Trimming keeps a contiguous part of the text, drops only whitespace on
/// either side, and keeps nothing that starts or ends with whitespace.
pub proof fn lemma_trim_bounds(s: Seq<char>) -> (r: (int, int))
    ensures
        0 <= r.0 <= r.1 <= s.len(),
        trim_seq(s) == s.subrange(r.0, r.1),
        forall|i: int| 0 <= i < r.0 ==> spec_is_space(#[trigger] s[i]),
        forall|i: int| r.1 <= i < s.len() ==> spec_is_space(#[trigger] s[i]),
        r.0 < r.1 ==> !spec_is_space(s[r.0]) && !spec_is_space(s[r.1 - 1]),
{
    let hi = lemma_trim_end_take(s);
    let t = s.take(hi);
    let lo = lemma_trim_start_skip(t);
    assert(t.skip(lo) == s.subrange(lo, hi));
    assert forall|i: int| 0 <= i < lo implies spec_is_space(#[trigger] s[i]) by {
        assert(s[i] == t[i]);
    }
    if lo < hi {
        assert(s[lo] == t[lo]);
    }
    (lo, hi)
}

/// Removing every trailing `c` keeps a prefix, removes only `c`s, and leaves
/// text that does not end in `c`.
pub proof fn lemma_trim_end_char_take(s: Seq<char>, c: char) -> (hi: int)
    ensures
        0 <= hi <= s.len(),
        trim_end_char(s, c) == s.take(hi),
        forall|i: int| hi <= i < s.len() ==> #[trigger] s[i] == c,
        hi > 0 ==> s[hi - 1] != c,
    decreases s.len(),
{
    if s.len() > 0 && s.last() == c {
        let hi = lemma_trim_end_char_take(s.drop_last(), c);
        assert(s.drop_last().take(hi) == s.take(hi));
        assert forall|i: int| hi <= i < s.len() implies #[trigger] s[i] == c by {
            if i < s.len() - 1 {
                assert(s[i] == s.drop_last()[i]);
            }
        }
        hi
    } else {
        assert(s.take(s.len() as int) == s);
        s.len() as int
    }
}

/// Text from which every trailing `c` was removed does not end in `c`.
pub proof fn lemma_trim_end_char_last(s: Seq<char>, c: char)
    ensures
        trim_end_char(s, c).len() > 0 ==> trim_end_char(s, c).last() != c,
    decreases s.len(),
{
    if s.len() > 0 && s.last() == c {
        lemma_trim_end_char_last(s.drop_last(), c);
    }
}

/// Whitespace removal at both ends leaves nothing more to remove.
pub proof fn lemma_trim_idempotent(s: Seq<char>)
    ensures
        trim_seq(trim_seq(s)) == trim_seq(s),
{
    lemma_trim_end_no_space(s);
    lemma_trim_start_keeps_end(trim_end_seq(s));
    lemma_trim_start_idempotent(trim_end_seq(s));
}

proof fn lemma_trim_end_no_space(s: Seq<char>)
    ensures
        trim_end_seq(s).len() > 0 ==> !spec_is_space(trim_end_seq(s).last()),
        trim_end_seq(trim_end_seq(s)) == trim_end_seq(s),
    decreases s.len(),
{
    if s.len() > 0 && spec_is_space(s.last()) {
        lemma_trim_end_no_space(s.drop_last());
    }
}

/// Removing leading whitespace from text that ends in a non-space keeps that end.
proof fn lemma_trim_start_keeps_end(s: Seq<char>)
    requires
        s.len() > 0 ==> !spec_is_space(s.last()),
    ensures
        trim_end_seq(trim_start_seq(s)) == trim_start_seq(s),
        trim_start_seq(s).len() > 0 ==> !spec_is_space(trim_start_seq(s).last()),
    decreases s.len(),
{
    if s.len() > 0 && spec_is_space(s[0]) {
        assert(s.drop_first().len() > 0 ==> s.drop_first().last() == s.last());
        lemma_trim_start_keeps_end(s.drop_first());
    }
}

proof fn lemma_trim_start_idempotent(s: Seq<char>)
    ensures
        trim_start_seq(trim_start_seq(s)) == trim_start_seq(s),
    decreases s.len(),
{
    if s.len() > 0 && spec_is_space(s[0]) {
        lemma_trim_start_idempotent(s.drop_first());
    }
}

} // verus!
