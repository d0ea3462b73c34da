//! Text primitives over `Seq<char>`: the lexicographic order on names, prefix
//! tests, searching and splitting.

use vstd::prelude::*;
use vstd::std_specs::iter::IteratorSpec;

verus! {

/// Strict lexicographic order by code point, the order in which `str` values
/// compare.
pub open spec fn lex_lt(a: Seq<char>, b: Seq<char>) -> bool
    decreases a.len(),
{
    if b.len() == 0 {
        false
    } else if a.len() == 0 {
        true
    } else if a[0] == b[0] {
        lex_lt(a.skip(1), b.skip(1))
    } else {
        (a[0] as int) < (b[0] as int)
    }
}

/// No text sorts before itself.
pub proof fn lemma_lex_irreflexive(a: Seq<char>)
    ensures
        !lex_lt(a, a),
    decreases a.len(),
{
    if a.len() > 0 {
        lemma_lex_irreflexive(a.skip(1));
    }
}

/// What sorts before a text sorts before what follows the text.
pub proof fn lemma_lex_transitive(a: Seq<char>, b: Seq<char>, c: Seq<char>)
    requires
        lex_lt(a, b),
        lex_lt(b, c),
    ensures
        lex_lt(a, c),
    decreases a.len(),
{
    if a.len() > 0 && a[0] == b[0] && b[0] == c[0] {
        lemma_lex_transitive(a.skip(1), b.skip(1), c.skip(1));
    }
}

/// Of two different texts, one sorts before the other.
pub proof fn lemma_lex_total(a: Seq<char>, b: Seq<char>)
    ensures
        lex_lt(a, b) || lex_lt(b, a) || a == b,
    decreases a.len(),
{
    if a.len() > 0 && b.len() > 0 {
        if a[0] == b[0] {
            lemma_lex_total(a.skip(1), b.skip(1));
            if a.skip(1) == b.skip(1) {
                assert(a =~= seq![a[0]] + a.skip(1));
                assert(b =~= seq![b[0]] + b.skip(1));
            }
        } else {
            assert(a[0] as int != b[0] as int);
        }
    } else if a.len() == 0 && b.len() == 0 {
        assert(a =~= b);
    }
}

/// Whether `needle` occurs in `hay` at position `at`.
pub open spec fn occurs_at(hay: Seq<char>, needle: Seq<char>, at: int) -> bool {
    0 <= at && at + needle.len() <= hay.len() && hay.subrange(at, at + needle.len()) == needle
}

/// The first position at or after `from` where `needle` occurs in `hay`.
pub open spec fn find_from(hay: Seq<char>, needle: Seq<char>, from: int) -> Option<int>
    decreases hay.len() + 1 - from,
{
    if from < 0 || from + needle.len() > hay.len() {
        None
    } else if occurs_at(hay, needle, from) {
        Some(from)
    } else {
        find_from(hay, needle, from + 1)
    }
}

/// The first position where `needle` occurs in `hay`.
pub open spec fn find(hay: Seq<char>, needle: Seq<char>) -> Option<int> {
    find_from(hay, needle, 0)
}

/// What `find_from` finds is an occurrence, and the first one from `from`
/// on; if it finds none, there is none.
pub proof fn lemma_find_from_first(hay: Seq<char>, needle: Seq<char>, from: int)
    requires
        0 <= from,
    ensures
        match find_from(hay, needle, from) {
            Some(p) => from <= p && occurs_at(hay, needle, p) && forall|q: int|
                from <= q < p ==> !occurs_at(hay, needle, q),
            None => forall|q: int| from <= q ==> !occurs_at(hay, needle, q),
        },
    decreases hay.len() + 1 - from,
{
    if from + needle.len() <= hay.len() && !occurs_at(hay, needle, from) {
        lemma_find_from_first(hay, needle, from + 1);
    }
}

/// The characters of `s`, in order.
pub fn chars_of(s: &str) -> (v: Vec<char>)
    ensures
        v@ == s@,
{
    let mut v: Vec<char> = Vec::new();
    for c in it: s.chars()
        invariant
            it.seq() == s@,
            v@ == it.seq().take(it.index() as int),
    {
        v.push(c);
    }
    v
}

/// Whether `needle` occurs in `hay` at position `at`.
pub fn matches_at(hay: &Vec<char>, needle: &Vec<char>, at: usize) -> (r: bool)
    ensures
        r == occurs_at(hay@, needle@, at as int),
{
    if needle.len() > hay.len() || at > hay.len() - needle.len() {
        return false;
    }
    let mut i: usize = 0;
    while i < needle.len()
        invariant
            i <= needle.len(),
            at + needle.len() <= hay.len(),
            forall|j: int| 0 <= j < i ==> hay@[at + j] == needle@[j],
        decreases needle.len() - i,
    {
        if hay[at + i] != needle[i] {
            proof {
                let sub = hay@.subrange(at as int, at + needle.len());
                assert(sub[i as int] == hay@[at + i]);
            }
            return false;
        }
        i += 1;
    }
    assert(hay@.subrange(at as int, at + needle.len()) =~= needle@);
    true
}

/// Whether two strings hold the same text.
pub fn str_eq(a: &str, b: &str) -> (r: bool)
    ensures
        r == (a@ == b@),
{
    let x = chars_of(a);
    let y = chars_of(b);
    if x.len() != y.len() {
        return false;
    }
    let r = matches_at(&x, &y, 0);
    assert(x@.subrange(0, x@.len() as int) =~= x@);
    r
}

/// Whether `a` sorts strictly before `b`.
pub fn str_lt(a: &str, b: &str) -> (r: bool)
    ensures
        r == lex_lt(a@, b@),
{
    let x = chars_of(a);
    let y = chars_of(b);
    let mut i: usize = 0;
    assert(x@.skip(0) =~= x@ && y@.skip(0) =~= y@);
    while i < x.len() && i < y.len()
        invariant
            x@ == a@,
            y@ == b@,
            i <= x.len(),
            i <= y.len(),
            lex_lt(x@, y@) == lex_lt(x@.skip(i as int), y@.skip(i as int)),
        decreases x.len() - i,
    {
        let ghost xs = x@.skip(i as int);
        let ghost ys = y@.skip(i as int);
        assert(xs[0] == x@[i as int] && ys[0] == y@[i as int]);
        if x[i] != y[i] {
            return x[i] < y[i];
        }
        assert(xs.skip(1) =~= x@.skip(i + 1));
        assert(ys.skip(1) =~= y@.skip(i + 1));
        i += 1;
    }
    assert(x@.skip(i as int).len() == x.len() - i);
    assert(y@.skip(i as int).len() == y.len() - i);
    i < y.len()
}

/// Whether `s` begins with `prefix`.
pub fn starts_with(s: &str, prefix: &str) -> (r: bool)
    ensures
        r == prefix@.is_prefix_of(s@),
{
    let hay = chars_of(s);
    let needle = chars_of(prefix);
    let r = matches_at(&hay, &needle, 0);
    proof {
        if needle@.len() <= hay@.len() {
            assert(hay@.subrange(0, needle@.len() as int) =~= hay@.take(needle@.len() as int));
        }
        if r {
            assert(needle@.is_prefix_of(hay@));
        }
        if needle@.is_prefix_of(hay@) {
            assert(hay@.subrange(0, needle@.len() as int) =~= needle@);
        }
    }
    r
}

/// What follows `prefix` in `s`, if `s` begins with it.
pub fn strip_prefix<'a>(s: &'a str, prefix: &str) -> (r: Option<&'a str>)
    ensures
        match r {
            Some(rest) => prefix@.is_prefix_of(s@) && rest@ == s@.skip(prefix@.len() as int),
            None => !prefix@.is_prefix_of(s@),
        },
{
    if starts_with(s, prefix) {
        let n = s.unicode_len();
        let k = prefix.unicode_len();
        let rest = s.substring_char(k, n);
        assert(s@.subrange(k as int, n as int) =~= s@.skip(k as int));
        Some(rest)
    } else {
        None
    }
}

/// The texts of a list of strings.
pub open spec fn texts(names: Seq<String>) -> Seq<Seq<char>> {
    Seq::new(names.len(), |i: int| names[i]@)
}

/// Where the splitting of a text at a separator stands after some of its
/// characters: the pieces that are complete, and the piece in progress.
pub struct SplitState {
    pub done: Seq<Seq<char>>,
    pub current: Seq<char>,
}

/// The splitting of the first `n` characters of `s` at each `sep`.
pub open spec fn split_upto(s: Seq<char>, sep: char, n: nat) -> SplitState
    decreases n,
{
    if n == 0 || n > s.len() {
        SplitState { done: Seq::empty(), current: Seq::empty() }
    } else {
        let before = split_upto(s, sep, (n - 1) as nat);
        if s[n - 1] == sep {
            SplitState { done: before.done.push(before.current), current: Seq::empty() }
        } else {
            SplitState { done: before.done, current: before.current.push(s[n - 1]) }
        }
    }
}

/// The pieces of `s` between the occurrences of `sep`; one more piece than
/// there are separators.
pub open spec fn split_on(s: Seq<char>, sep: char) -> Seq<Seq<char>> {
    let end = split_upto(s, sep, s.len());
    end.done.push(end.current)
}

/// The first `n` of `parts`, with `sep` between each two.
pub open spec fn joined_upto(parts: Seq<Seq<char>>, sep: Seq<char>, n: nat) -> Seq<char>
    decreases n,
{
    if n == 0 || n > parts.len() {
        Seq::empty()
    } else if n == 1 {
        parts[0]
    } else {
        joined_upto(parts, sep, (n - 1) as nat) + sep + parts[n - 1]
    }
}

/// The pieces of `s` between the occurrences of `sep`.
pub fn split(s: &str, sep: char) -> (parts: Vec<String>)
    ensures
        texts(parts@) == split_on(s@, sep),
{
    let chars = chars_of(s);
    let n = chars.len();
    let mut parts: Vec<String> = Vec::new();
    let mut start: usize = 0;
    let mut i: usize = 0;
    assert(texts(parts@) =~= Seq::<Seq<char>>::empty());
    assert(s@.subrange(0, 0) =~= Seq::<char>::empty());
    while i < n
        invariant
            chars@ == s@,
            n == s@.len(),
            start <= i <= n,
            split_upto(s@, sep, i as nat) == (SplitState {
                done: texts(parts@),
                current: s@.subrange(start as int, i as int),
            }),
        decreases n - i,
    {
        if chars[i] == sep {
            let piece = s.substring_char(start, i).to_owned();
            proof {
                assert(texts(parts@.push(piece)) =~= texts(parts@).push(piece@));
                assert(s@.subrange(i + 1, i + 1) =~= Seq::<char>::empty());
            }
            parts.push(piece);
            start = i + 1;
        } else {
            proof {
                assert(s@.subrange(start as int, i + 1) =~= s@.subrange(start as int, i as int).push(
                    s@[i as int],
                ));
            }
        }
        i += 1;
    }
    let piece = s.substring_char(start, n).to_owned();
    proof {
        assert(texts(parts@.push(piece)) =~= texts(parts@).push(piece@));
    }
    parts.push(piece);
    parts
}

/// The first position at or after `from` where `needle` occurs in `hay`.
pub fn find_in(hay: &Vec<char>, needle: &Vec<char>, from: usize) -> (r: Option<usize>)
    ensures
        match r {
            Some(p) => find_from(hay@, needle@, from as int) == Some(p as int),
            None => find_from(hay@, needle@, from as int) is None,
        },
{
    if needle.len() > hay.len() || from > hay.len() - needle.len() {
        return None;
    }
    let last = hay.len() - needle.len();
    let mut i: usize = from;
    loop
        invariant
            from <= i <= last,
            last == hay@.len() - needle@.len(),
            find_from(hay@, needle@, from as int) == find_from(hay@, needle@, i as int),
        decreases last - i,
    {
        if matches_at(hay, needle, i) {
            return Some(i);
        }
        if i == last {
            assert(find_from(hay@, needle@, i + 1) is None);
            return None;
        }
        i += 1;
    }
}

/// Whether `c` is white space: a character with the Unicode property
/// `White_Space`.
pub open spec fn is_white_space(c: char) -> bool {
    let n = c as int;
    ||| 0x09 <= n <= 0x0D
    ||| n == 0x20
    ||| n == 0x85
    ||| n == 0xA0
    ||| n == 0x1680
    ||| 0x2000 <= n <= 0x200A
    ||| n == 0x2028
    ||| n == 0x2029
    ||| n == 0x202F
    ||| n == 0x205F
    ||| n == 0x3000
}

/// Whether `c` is white space.
pub fn white_space(c: char) -> (r: bool)
    ensures
        r == is_white_space(c),
{
    let n = c as u32;
    (0x09 <= n && n <= 0x0D) || n == 0x20 || n == 0x85 || n == 0xA0 || n == 0x1680 || (0x2000 <= n && n
        <= 0x200A) || n == 0x2028 || n == 0x2029 || n == 0x202F || n == 0x205F || n == 0x3000
}

/// The number of white-space characters that `s` begins with.
pub open spec fn leading_white_space(s: Seq<char>) -> nat
    decreases s.len(),
{
    if s.len() > 0 && is_white_space(s[0]) {
        1 + leading_white_space(s.skip(1))
    } else {
        0
    }
}

/// The number of white-space characters that `s` ends with.
pub open spec fn trailing_white_space(s: Seq<char>) -> nat
    decreases s.len(),
{
    if s.len() > 0 && is_white_space(s.last()) {
        1 + trailing_white_space(s.drop_last())
    } else {
        0
    }
}

/// The number of white-space characters that the text begins with.
pub fn count_leading_white_space(chars: &Vec<char>) -> (n: usize)
    ensures
        n == leading_white_space(chars@),
        n <= chars@.len(),
{
    let mut i: usize = 0;
    assert(chars@.skip(0) =~= chars@);
    while i < chars.len() && white_space(chars[i])
        invariant
            i <= chars.len(),
            leading_white_space(chars@) == i + leading_white_space(chars@.skip(i as int)),
        decreases chars.len() - i,
    {
        assert(chars@.skip(i as int)[0] == chars@[i as int]);
        assert(chars@.skip(i as int).skip(1) =~= chars@.skip(i + 1));
        i += 1;
    }
    proof {
        if i < chars.len() {
            assert(chars@.skip(i as int)[0] == chars@[i as int]);
        }
    }
    i
}

/// The number of white-space characters that the text ends with.
pub fn count_trailing_white_space(chars: &Vec<char>) -> (n: usize)
    ensures
        n == trailing_white_space(chars@),
        n <= chars@.len(),
{
    let len = chars.len();
    let mut i: usize = 0;
    assert(chars@.take(len as int) =~= chars@);
    while i < len && white_space(chars[len - 1 - i])
        invariant
            i <= len,
            len == chars@.len(),
            trailing_white_space(chars@) == i + trailing_white_space(chars@.take(len - i)),
        decreases len - i,
    {
        assert(chars@.take(len - i).last() == chars@[len - 1 - i]);
        assert(chars@.take(len - i).drop_last() =~= chars@.take(len - i - 1));
        i += 1;
    }
    proof {
        if i < len {
            assert(chars@.take(len - i).last() == chars@[len - 1 - i]);
        }
    }
    i
}

/// `s` with every occurrence of `from` replaced by `to`, the occurrences
/// taken from left to right and not overlapping. The empty text occurs
/// before every character and at the end.
pub open spec fn replaced(s: Seq<char>, from: Seq<char>, to: Seq<char>) -> Seq<char>
    decreases s.len(),
{
    if from.len() == 0 {
        if s.len() == 0 {
            to
        } else {
            to + seq![s[0]] + replaced(s.skip(1), from, to)
        }
    } else if s.len() < from.len() {
        s
    } else if s.take(from.len() as int) == from {
        to + replaced(s.skip(from.len() as int), from, to)
    } else {
        seq![s[0]] + replaced(s.skip(1), from, to)
    }
}

/// `to` before every character of `s` and at its end.
fn interleave(s: &str, to: &str) -> (r: String)
    ensures
        r@ == replaced(s@, Seq::empty(), to@),
{
    let n = s.unicode_len();
    let mut out = String::new();
    let mut i: usize = 0;
    proof {
        assert(s@.skip(0) =~= s@);
        assert(Seq::<char>::empty() + replaced(s@, Seq::empty(), to@) =~= replaced(s@, Seq::empty(), to@));
    }
    while i < n
        invariant
            i <= n,
            n == s@.len(),
            out@ + replaced(s@.skip(i as int), Seq::empty(), to@) == replaced(s@, Seq::empty(), to@),
        decreases n - i,
    {
        let ghost before = out@;
        let ghost rest = s@.skip(i as int);
        out.append(to);
        out.append(s.substring_char(i, i + 1));
        proof {
            assert(s@.subrange(i as int, i + 1) =~= seq![rest[0]]);
            assert(rest.skip(1) =~= s@.skip(i + 1));
            assert(out@ + replaced(s@.skip(i + 1), Seq::empty(), to@) =~= before + (to@ + seq![rest[0]]
                + replaced(rest.skip(1), Seq::empty(), to@)));
        }
        i += 1;
    }
    out.append(to);
    out
}

/// `s` with every occurrence of `from` replaced by `to`.
pub fn replace_all(s: &str, from: &str, to: &str) -> (r: String)
    ensures
        r@ == replaced(s@, from@, to@),
{
    let hay = chars_of(s);
    let needle = chars_of(from);
    let n = hay.len();
    let m = needle.len();
    if m == 0 {
        assert(from@ =~= Seq::<char>::empty());
        return interleave(s, to);
    }
    let mut out = String::new();
    if m > n {
        out.append(s);
        assert(Seq::<char>::empty() + s@ =~= s@);
        return out;
    }
    let mut copied: usize = 0;
    let mut i: usize = 0;
    proof {
        assert(s@.skip(0) =~= s@);
        assert(out@ + s@.subrange(0, 0) + replaced(s@.skip(0), from@, to@) =~= replaced(s@, from@, to@));
    }
    while i <= n - m
        invariant
            hay@ == s@,
            needle@ == from@,
            n == s@.len(),
            m == from@.len(),
            0 < m <= n,
            copied <= i <= n,
            out@ + s@.subrange(copied as int, i as int) + replaced(s@.skip(i as int), from@, to@)
                == replaced(s@, from@, to@),
        decreases n - i,
    {
        let ghost rest = s@.skip(i as int);
        let found = matches_at(&hay, &needle, i);
        proof {
            assert(rest.take(m as int) =~= s@.subrange(i as int, i + m));
        }
        if found {
            let ghost before = out@;
            let gap = s.substring_char(copied, i);
            out.append(gap);
            out.append(to);
            proof {
                assert(rest.skip(m as int) =~= s@.skip(i + m));
                assert(s@.subrange(i + m, i + m) =~= Seq::<char>::empty());
                assert(out@ + s@.subrange(i + m, i + m) + replaced(s@.skip(i + m), from@, to@) =~= before
                    + s@.subrange(copied as int, i as int) + (to@ + replaced(s@.skip(i + m), from@, to@)));
            }
            i = i + m;
            copied = i;
        } else {
            proof {
                assert(rest.skip(1) =~= s@.skip(i + 1));
                assert(rest[0] == s@[i as int]);
                assert(s@.subrange(copied as int, i + 1) =~= s@.subrange(copied as int, i as int) + seq![
                    s@[i as int],
                ]);
                assert(out@ + s@.subrange(copied as int, i + 1) + replaced(s@.skip(i + 1), from@, to@) =~= out@
                    + s@.subrange(copied as int, i as int) + (seq![s@[i as int]] + replaced(
                    s@.skip(i + 1),
                    from@,
                    to@,
                )));
            }
            i += 1;
        }
    }
    let tail = s.substring_char(copied, n);
    out.append(tail);
    proof {
        assert(s@.skip(i as int).len() < m);
        assert(s@.subrange(copied as int, n as int) =~= s@.subrange(copied as int, i as int) + s@.skip(
            i as int,
        ));
    }
    out
}

/// Whether `needle` occurs somewhere in `hay`.
pub fn contains_text(hay: &str, needle: &str) -> (r: bool)
    ensures
        r == (find(hay@, needle@) is Some),
{
    let h = chars_of(hay);
    let n = chars_of(needle);
    find_in(&h, &n, 0).is_some()
}

/// Whether `s` ends with `suffix`.
pub open spec fn ends_with(s: Seq<char>, suffix: Seq<char>) -> bool {
    suffix.len() <= s.len() && s.skip(s.len() - suffix.len()) == suffix
}

/// What comes before `suffix` in `s`, if `s` ends with it.
pub fn strip_suffix<'a>(s: &'a str, suffix: &str) -> (r: Option<&'a str>)
    ensures
        match r {
            Some(rest) => ends_with(s@, suffix@) && rest@ == s@.take(s@.len() - suffix@.len()),
            None => !ends_with(s@, suffix@),
        },
{
    let hay = chars_of(s);
    let needle = chars_of(suffix);
    if needle.len() > hay.len() {
        return None;
    }
    let at = hay.len() - needle.len();
    proof {
        assert(hay@.subrange(at as int, at + needle@.len()) =~= s@.skip(s@.len() - suffix@.len()));
    }
    if matches_at(&hay, &needle, at) {
        let rest = s.substring_char(0, at);
        assert(s@.subrange(0, at as int) =~= s@.take(at as int));
        Some(rest)
    } else {
        None
    }
}

/// The last position of `c` in `s`.
pub open spec fn last_index_of(s: Seq<char>, c: char) -> Option<int>
    decreases s.len(),
{
    if s.len() == 0 {
        None
    } else if s.last() == c {
        Some(s.len() - 1)
    } else {
        last_index_of(s.drop_last(), c)
    }
}

/// What comes before and what comes after the last `c` in `s`.
pub open spec fn rsplit_once_of(s: Seq<char>, c: char) -> Option<(Seq<char>, Seq<char>)> {
    match last_index_of(s, c) {
        Some(i) => Some((s.take(i), s.skip(i + 1))),
        None => None,
    }
}

/// What comes before and what comes after the last `c` in `s`.
pub fn rsplit_once<'a>(s: &'a str, c: char) -> (r: Option<(&'a str, &'a str)>)
    ensures
        match r {
            Some((before, after)) => rsplit_once_of(s@, c) == Some((before@, after@)),
            None => rsplit_once_of(s@, c) is None,
        },
{
    let chars = chars_of(s);
    let n = chars.len();
    let mut i: usize = n;
    assert(s@.take(n as int) =~= s@);
    while i > 0
        invariant
            i <= n,
            chars@ == s@,
            n == s@.len(),
            last_index_of(s@, c) == last_index_of(s@.take(i as int), c),
        decreases i,
    {
        let ghost head = s@.take(i as int);
        assert(head.last() == s@[i - 1]);
        if chars[i - 1] == c {
            let before = s.substring_char(0, i - 1);
            let after = s.substring_char(i, n);
            proof {
                assert(s@.subrange(0, i - 1) =~= s@.take(i - 1));
                assert(s@.subrange(i as int, n as int) =~= s@.skip(i as int));
            }
            return Some((before, after));
        }
        assert(head.drop_last() =~= s@.take(i - 1));
        i -= 1;
    }
    None
}

/// The texts `a` and `b`, one after the other.
pub fn concat(a: &str, b: &str) -> (r: String)
    ensures
        r@ == a@ + b@,
{
    let mut r = a.to_owned();
    r.append(b);
    r
}

} // verus!
