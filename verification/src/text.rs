//! Text as sequences of characters: finding, splitting, joining and replacing.

use vstd::prelude::*;
use vstd::string::*;
use itertools::Itertools;

verus! {

/// The characters of `s`, in order.
pub fn chars_of(s: &str) -> (v: Vec<char>)
    ensures
        v@ == s@,
{
    let mut v: Vec<char> = Vec::new();
    for c in it: s.chars()
        invariant
            it.seq() == s@,
            v@ == s@.take(it.index() as int),
    {
        assert(s@.take(it.index() + 1) =~= s@.take(it.index() as int).push(c));
        v.push(c);
    }
    assert(s@.take(s@.len() as int) =~= s@);
    v
}

/// The text of `v[from..to]` as an owned string.
pub fn string_of(v: &Vec<char>, from: usize, to: usize) -> (s: String)
    requires
        from <= to <= v.len(),
    ensures
        s@ == v@.subrange(from as int, to as int),
{
    let mut s = String::new();
    let mut i: usize = from;
    while i < to
        invariant
            from <= i <= to <= v.len(),
            s@ == v@.subrange(from as int, i as int),
        decreases to - i,
    {
        push_char(&mut s, v[i]);
        assert(v@.subrange(from as int, i + 1) =~= v@.subrange(from as int, i as int).push(v@[i as int]));
        i = i + 1;
    }
    s
}

/// `String::push` of std: the string grows by the one character at its end.
#[verifier::external_body]
pub(crate) fn push_char(s: &mut String, c: char)
    ensures
        final(s)@ == old(s)@.push(c),
{
    s.push(c)
}

/// `pat` stands in `s` at position `i`.
pub open spec fn occurs_at(s: Seq<char>, pat: Seq<char>, i: int) -> bool {
    0 <= i && i + pat.len() <= s.len() && s.subrange(i, i + pat.len()) == pat
}

/// Whether `pat` stands in `v` at position `i`.
pub fn matches_at(v: &Vec<char>, pat: &Vec<char>, i: usize) -> (r: bool)
    ensures
        r == occurs_at(v@, pat@, i as int),
{
    if i > v.len() || pat.len() > v.len() - i {
        return false;
    }
    let mut k: usize = 0;
    while k < pat.len()
        invariant
            i + pat.len() <= v.len(),
            k <= pat.len(),
            forall|j: int| 0 <= j < k ==> v@[i + j] == pat@[j],
        decreases pat.len() - k,
    {
        if v[i + k] != pat[k] {
            assert(v@.subrange(i as int, i + pat.len())[k as int] == v@[i + k]);
            return false;
        }
        k = k + 1;
    }
    assert(v@.subrange(i as int, i + pat.len()) =~= pat@);
    true
}

/// The first position at or after `from` where `pat` stands in `s`.
pub open spec fn first_occurrence(s: Seq<char>, pat: Seq<char>, from: int) -> Option<int>
    decreases s.len() + 1 - from,
{
    if from < 0 || from + pat.len() > s.len() {
        None
    } else if occurs_at(s, pat, from) {
        Some(from)
    } else {
        first_occurrence(s, pat, from + 1)
    }
}

/// `pat` stands nowhere in `s` from `from` up to, not including, `to`.
pub open spec fn absent_between(s: Seq<char>, pat: Seq<char>, from: int, to: int) -> bool {
    forall|j: int| from <= j < to ==> !occurs_at(s, pat, j)
}

/// Where nothing was found before `i`, the first occurrence from `from` is the first from `i`.
pub proof fn lemma_first_occurrence_skips(s: Seq<char>, pat: Seq<char>, from: int, i: int)
    requires
        0 <= from <= i,
        absent_between(s, pat, from, i),
    ensures
        first_occurrence(s, pat, from) == first_occurrence(s, pat, i),
    decreases i - from,
{
    if from < i {
        assert(!occurs_at(s, pat, from));
        lemma_first_occurrence_skips(s, pat, from + 1, i);
        if from + pat.len() > s.len() {
            assert(first_occurrence(s, pat, i) is None);
        }
    }
}

/// What `first_occurrence` finds is an occurrence with none before it; it finds nothing only
/// where there is none.
pub proof fn lemma_first_occurrence(s: Seq<char>, pat: Seq<char>, from: int)
    requires
        0 <= from,
    ensures
        match first_occurrence(s, pat, from) {
            Some(i) => from <= i && occurs_at(s, pat, i) && absent_between(s, pat, from, i),
            None => forall|j: int| from <= j ==> !occurs_at(s, pat, j),
        },
    decreases s.len() + 1 - from,
{
    if from + pat.len() > s.len() {
    } else if occurs_at(s, pat, from) {
    } else {
        lemma_first_occurrence(s, pat, from + 1);
    }
}

/// An occurrence in what follows the first `k` characters is one in the whole, `k` further on.
pub proof fn lemma_occurs_in_skip(s: Seq<char>, pat: Seq<char>, k: int, i: int)
    requires
        0 <= k <= s.len(),
        0 <= i,
    ensures
        occurs_at(s.skip(k), pat, i) == occurs_at(s, pat, k + i),
{
    if i + pat.len() <= s.len() - k {
        assert(s.skip(k).subrange(i, i + pat.len()) =~= s.subrange(k + i, k + i + pat.len()));
    }
}

/// The pieces of `s` between the occurrences of `pat`, found from left to right without
/// overlap. There is always at least one piece.
pub open spec fn split_by(s: Seq<char>, pat: Seq<char>) -> Seq<Seq<char>>
    decreases s.len(),
{
    match first_occurrence(s, pat, 0) {
        Some(i) => if pat.len() > 0 && 0 <= i && i + pat.len() <= s.len() {
            seq![s.take(i)] + split_by(s.skip(i + pat.len()), pat)
        } else {
            seq![s]
        },
        None => seq![s],
    }
}

/// The views of a list of character vectors.
pub open spec fn views_of(pieces: Seq<Vec<char>>) -> Seq<Seq<char>> {
    pieces.map_values(|p: Vec<char>| p@)
}

/// The position of the first occurrence of `pat` in `v` at or after `from`.
pub fn find_from(v: &Vec<char>, pat: &Vec<char>, from: usize) -> (r: Option<usize>)
    ensures
        match r {
            Some(i) => first_occurrence(v@, pat@, from as int) == Some(i as int),
            None => first_occurrence(v@, pat@, from as int) is None,
        },
{
    if pat.len() > v.len() || from > v.len() - pat.len() {
        return None;
    }
    let last = v.len() - pat.len();
    let mut i: usize = from;
    loop
        invariant
            last == v.len() - pat.len(),
            from <= i <= last,
            absent_between(v@, pat@, from as int, i as int),
        decreases last - i,
    {
        proof {
            lemma_first_occurrence_skips(v@, pat@, from as int, i as int);
        }
        if matches_at(v, pat, i) {
            return Some(i);
        }
        if i == last {
            assert(first_occurrence(v@, pat@, i + 1) is None);
            return None;
        }
        i = i + 1;
    }
}

/// A copy of `v[from..to]`.
pub fn slice_of(v: &Vec<char>, from: usize, to: usize) -> (r: Vec<char>)
    requires
        from <= to <= v.len(),
    ensures
        r@ == v@.subrange(from as int, to as int),
{
    let mut r: Vec<char> = Vec::new();
    let mut i: usize = from;
    while i < to
        invariant
            from <= i <= to <= v.len(),
            r@ == v@.subrange(from as int, i as int),
        decreases to - i,
    {
        r.push(v[i]);
        assert(v@.subrange(from as int, i + 1) =~= v@.subrange(from as int, i as int).push(v@[i as int]));
        i = i + 1;
    }
    r
}

/// Splits `v` at every occurrence of `pat`.
pub fn split(v: &Vec<char>, pat: &Vec<char>) -> (pieces: Vec<Vec<char>>)
    requires
        pat.len() > 0,
    ensures
        views_of(pieces@) == split_by(v@, pat@),
{
    let mut pieces: Vec<Vec<char>> = Vec::new();
    let mut start: usize = 0;
    assert(v@.skip(0) =~= v@);
    assert(views_of(pieces@) + split_by(v@, pat@) =~= split_by(v@, pat@));
    loop
        invariant_except_break
            split_by(v@, pat@) == views_of(pieces@) + split_by(v@.skip(start as int), pat@),
        invariant
            pat.len() > 0,
            start <= v.len(),
        ensures
            views_of(pieces@) == split_by(v@, pat@),
        decreases v.len() - start,
    {
        let ghost rest = v@.skip(start as int);
        let found = find_from(v, pat, start);
        proof {
            lemma_first_occurrence(v@, pat@, start as int);
            lemma_first_occurrence(rest, pat@, 0);
            assert forall|j: int| 0 <= j implies occurs_at(rest, pat@, j) == occurs_at(
                v@,
                pat@,
                start + j,
            ) by {
                lemma_occurs_in_skip(v@, pat@, start as int, j);
            }
        }
        match found {
            Some(i) => {
                proof {
                    let k = first_occurrence(rest, pat@, 0);
                    if k is Some {
                        assert(occurs_at(v@, pat@, start + k->0));
                        assert(occurs_at(rest, pat@, i - start));
                        assert(k->0 == i - start);
                    } else {
                        assert(occurs_at(rest, pat@, i - start));
                    }
                    assert(rest.take(i - start) =~= v@.subrange(start as int, i as int));
                    assert(rest.skip(i - start + pat@.len()) =~= v@.skip(i + pat@.len()));
                }
                let piece = slice_of(v, start, i);
                let ghost before = views_of(pieces@);
                pieces.push(piece);
                assert(views_of(pieces@) =~= before + seq![piece@]);
                start = i + pat.len();
            },
            None => {
                proof {
                    let k = first_occurrence(rest, pat@, 0);
                    if k is Some {
                        assert(occurs_at(v@, pat@, start + k->0));
                    }
                    assert(rest =~= v@.subrange(start as int, v@.len() as int));
                }
                let piece = slice_of(v, start, v.len());
                let ghost before = views_of(pieces@);
                pieces.push(piece);
                assert(views_of(pieces@) =~= before + seq![piece@]);
                break ;
            },
        }
    }
    pieces
}

/// `s` without the occurrences of `pat` that stand one after another at its start.
pub open spec fn strip_prefixes(s: Seq<char>, pat: Seq<char>) -> Seq<char>
    decreases s.len(),
{
    if pat.len() > 0 && occurs_at(s, pat, 0) {
        strip_prefixes(s.skip(pat.len() as int), pat)
    } else {
        s
    }
}

/// The position in `v`, at or after `from`, where the repeated prefix `pat` ends.
pub fn skip_prefixes(v: &Vec<char>, from: usize, pat: &Vec<char>) -> (r: usize)
    requires
        from <= v.len(),
    ensures
        from <= r <= v.len(),
        v@.skip(r as int) == strip_prefixes(v@.skip(from as int), pat@),
{
    let mut pos: usize = from;
    if pat.len() == 0 {
        return pos;
    }
    loop
        invariant
            pat.len() > 0,
            from <= pos <= v.len(),
            strip_prefixes(v@.skip(pos as int), pat@) == strip_prefixes(v@.skip(from as int), pat@),
        ensures
            from <= pos <= v.len(),
            v@.skip(pos as int) == strip_prefixes(v@.skip(from as int), pat@),
        decreases v.len() - pos,
    {
        proof {
            lemma_occurs_in_skip(v@, pat@, pos as int, 0);
        }
        if matches_at(v, pat, pos) {
            assert(v@.skip(pos as int).skip(pat.len() as int) =~= v@.skip(pos + pat.len()));
            pos = pos + pat.len();
        } else {
            break ;
        }
    }
    pos
}

/// The views of a list of strings.
pub open spec fn texts_of(items: Seq<String>) -> Seq<Seq<char>> {
    items.map_values(|s: String| s@)
}

/// The items one after another, with `sep` between each two.
pub open spec fn joined(items: Seq<Seq<char>>, sep: Seq<char>) -> Seq<char>
    decreases items.len(),
{
    if items.len() == 0 {
        Seq::empty()
    } else if items.len() == 1 {
        items[0]
    } else {
        joined(items.drop_last(), sep) + sep + items.last()
    }
}

/// `Itertools::join` of `itertools`, over strings: the strings one after another, with
/// `sep` between each two.
#[verifier::external_body]
pub(crate) fn join_with(items: &Vec<String>, sep: &str) -> (r: String)
    ensures
        r@ == joined(texts_of(items@), sep@),
{
    items.iter().join(sep)
}

/// Whether `pat`, which is not empty, stands somewhere in `s`.
pub fn contains_text(s: &str, pat: &Vec<char>) -> (r: bool)
    ensures
        r == first_occurrence(s@, pat@, 0) is Some,
{
    let chars = chars_of(s);
    find_from(&chars, pat, 0).is_some()
}

/// `s` with `to` in the place of every `from`.
pub open spec fn replaced(s: Seq<char>, from: char, to: char) -> Seq<char> {
    s.map_values(|c: char| if c == from { to } else { c })
}

/// A copy of `s` with `to` in the place of every `from`.
pub fn replace_char(s: &str, from: char, to: char) -> (r: String)
    ensures
        r@ == replaced(s@, from, to),
{
    let chars = chars_of(s);
    let mut r = String::new();
    let mut i: usize = 0;
    while i < chars.len()
        invariant
            i <= chars.len(),
            chars@ == s@,
            r@ == replaced(s@.take(i as int), from, to),
        decreases chars.len() - i,
    {
        let c = chars[i];
        push_char(&mut r, if c == from { to } else { c });
        assert(replaced(s@.take(i + 1), from, to) =~= replaced(s@.take(i as int), from, to).push(
            if c == from { to } else { c },
        ));
        i = i + 1;
    }
    assert(s@.take(s@.len() as int) =~= s@);
    r
}

/// Whether two texts are the same.
pub fn same_text(a: &str, b: &str) -> (r: bool)
    ensures
        r == (a@ == b@),
{
    let left = chars_of(a);
    let right = chars_of(b);
    if left.len() != right.len() {
        return false;
    }
    let same = matches_at(&left, &right, 0);
    assert(left@.subrange(0, right@.len() as int) =~= left@);
    same
}

/// Joining puts the first item, then the separator, in front of the rest joined.
pub proof fn lemma_joined_from_the_front(first: Seq<char>, rest: Seq<Seq<char>>, sep: Seq<char>)
    requires
        rest.len() > 0,
    ensures
        joined(seq![first] + rest, sep) == first + sep + joined(rest, sep),
    decreases rest.len(),
{
    let all = seq![first] + rest;
    assert(all.last() == rest.last());
    if rest.len() == 1 {
        assert(all.drop_last() =~= seq![first]);
        assert(seq![first].len() == 1 && seq![first][0] == first);
        assert(joined(seq![first], sep) == first);
        assert(joined(rest, sep) == rest[0]);
        assert(joined(all, sep) == joined(all.drop_last(), sep) + sep + all.last());
    } else {
        assert(all.drop_last() =~= seq![first] + rest.drop_last());
        lemma_joined_from_the_front(first, rest.drop_last(), sep);
        assert(joined(all, sep) =~= first + sep + joined(rest, sep));
    }
}

/// Splitting loses nothing: the pieces of a text, joined by what it was split at, are the
/// text; and there is at least one piece.
pub proof fn lemma_split_then_join(s: Seq<char>, pat: Seq<char>)
    requires
        pat.len() > 0,
    ensures
        split_by(s, pat).len() >= 1,
        joined(split_by(s, pat), pat) == s,
    decreases s.len(),
{
    lemma_first_occurrence(s, pat, 0);
    match first_occurrence(s, pat, 0) {
        Some(i) => {
            let rest = s.skip(i + pat.len());
            lemma_split_then_join(rest, pat);
            lemma_joined_from_the_front(s.take(i), split_by(rest, pat), pat);
            assert(s.take(i) + pat + rest =~= s) by {
                assert(s.subrange(i, i + pat.len()) == pat);
            }
        },
        None => {},
    }
}

} // verus!
