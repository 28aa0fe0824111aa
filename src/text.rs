//! Character-level text handling: conversion between `str` and character
//! vectors, searching, splitting, trimming, integer parsing and rendering.
use vstd::prelude::*;

verus! {

/// Relies on `String::push`: the character is appended at the end.
#[verifier::external_body]
pub(crate) fn push_char(s: &mut String, c: char)
    ensures
        final(s)@ == old(s)@.push(c),
{
    s.push(c)
}

/// The characters of a string slice, in order.
pub fn chars_of(s: &str) -> (r: Vec<char>)
    ensures
        r@ == s@,
{
    let mut r: Vec<char> = Vec::new();
    for c in it: s.chars()
        invariant
            r@ == it.seq().take(it.index() as int),
            it.seq() == s@,
    {
        r.push(c);
    }
    r
}

/// A string holding exactly the given characters.
pub fn string_of(v: &Vec<char>) -> (r: String)
    ensures
        r@ == v@,
{
    let mut r = String::new();
    let mut i: usize = 0;
    while i < v.len()
        invariant
            i <= v.len(),
            r@ == v@.take(i as int),
        decreases v.len() - i,
    {
        push_char(&mut r, v[i]);
        i = i + 1;
        assert(r@ =~= v@.take(i as int));
    }
    assert(v@.take(i as int) =~= v@);
    r
}

/// The characters of `s` from position `a` up to (not including) `b`.
pub fn slice_chars(s: &Vec<char>, a: usize, b: usize) -> (r: Vec<char>)
    requires
        a <= b <= s.len(),
    ensures
        r@ == s@.subrange(a as int, b as int),
{
    let mut r: Vec<char> = Vec::new();
    let mut i: usize = a;
    while i < b
        invariant
            a <= i <= b <= s.len(),
            r@ == s@.subrange(a as int, i as int),
        decreases b - i,
    {
        r.push(s[i]);
        i = i + 1;
        assert(r@ =~= s@.subrange(a as int, i as int));
    }
    r
}

/// Whether two character sequences are equal.
pub fn same_chars(a: &Vec<char>, b: &Vec<char>) -> (r: bool)
    ensures
        r == (a@ == b@),
{
    if a.len() != b.len() {
        return false;
    }
    let mut i: usize = 0;
    while i < a.len()
        invariant
            a.len() == b.len(),
            i <= a.len(),
            forall|k: int| 0 <= k < i ==> a@[k] == b@[k],
        decreases a.len() - i,
    {
        if a[i] != b[i] {
            return false;
        }
        i = i + 1;
    }
    assert(a@ =~= b@);
    true
}

/// Whether a string slice holds exactly the given characters.
pub fn str_is(s: &str, lit: &str) -> (r: bool)
    ensures
        r == (s@ == lit@),
{
    let a = chars_of(s);
    let b = chars_of(lit);
    same_chars(&a, &b)
}

/// Whether `pat` occurs in `s` at position `i`.
pub open spec fn occurs_at(s: Seq<char>, pat: Seq<char>, i: int) -> bool {
    0 <= i && i + pat.len() <= s.len() && s.subrange(i, i + pat.len()) == pat
}

/// The first position at or after `i` where the non-empty `pat` occurs in `s`.
pub open spec fn find_from(s: Seq<char>, pat: Seq<char>, i: int) -> Option<int>
    decreases s.len() - i,
{
    if pat.len() == 0 || i < 0 || i + pat.len() > s.len() {
        None
    } else if s.subrange(i, i + pat.len()) == pat {
        Some(i)
    } else {
        find_from(s, pat, i + 1)
    }
}

/// The pieces of `s` between the successive leftmost occurrences of the
/// non-empty separator `pat` (as `str::split` gives them).
pub open spec fn split_by(s: Seq<char>, pat: Seq<char>) -> Seq<Seq<char>>
    decreases s.len(),
{
    match find_from(s, pat, 0) {
        Some(i) => if 0 <= i && i + pat.len() <= s.len() && pat.len() > 0 {
            seq![s.take(i)] + split_by(s.skip(i + pat.len()), pat)
        } else {
            seq![s]
        },
        None => seq![s],
    }
}

/// Splitting always gives at least one piece.
pub(crate) proof fn lemma_split_nonempty(s: Seq<char>, pat: Seq<char>)
    ensures
        split_by(s, pat).len() >= 1,
{
}

pub(crate) proof fn lemma_find_from_bounds(s: Seq<char>, pat: Seq<char>, i: int)
    ensures
        find_from(s, pat, i) matches Some(k) ==> i <= k && occurs_at(s, pat, k) && pat.len() > 0,
    decreases s.len() - i,
{
    if pat.len() == 0 || i < 0 || i + pat.len() > s.len() {
    } else if s.subrange(i, i + pat.len()) == pat {
    } else {
        lemma_find_from_bounds(s, pat, i + 1);
    }
}

/// Whether `pat` occurs in `s` at position `i` (executable).
fn occurs_at_exec(s: &Vec<char>, pat: &Vec<char>, i: usize) -> (r: bool)
    requires
        i + pat.len() <= s.len(),
    ensures
        r == (s@.subrange(i as int, i + pat.len()) == pat@),
{
    let mut k: usize = 0;
    while k < pat.len()
        invariant
            i + pat.len() <= s.len(),
            k <= pat.len(),
            forall|t: int| 0 <= t < k ==> s@[i + t] == pat@[t],
        decreases pat.len() - k,
    {
        if s[i + k] != pat[k] {
            assert(s@.subrange(i as int, i + pat.len())[k as int] != pat@[k as int]);
            return false;
        }
        k = k + 1;
    }
    assert(s@.subrange(i as int, i + pat.len()) =~= pat@);
    true
}

/// The first position at or after `from` where `pat` occurs in `s`.
pub fn find_chars(s: &Vec<char>, pat: &Vec<char>, from: usize) -> (r: Option<usize>)
    ensures
        r == (match find_from(s@, pat@, from as int) {
            Some(k) => Some(k as usize),
            None => None::<usize>,
        }),
{
    proof {
        lemma_find_from_bounds(s@, pat@, from as int);
    }
    if pat.len() == 0 || pat.len() > s.len() || from > s.len() - pat.len() {
        return None;
    }
    let mut i: usize = from;
    while i <= s.len() - pat.len()
        invariant
            pat.len() > 0,
            pat.len() <= s.len(),
            i <= s.len() - pat.len() + 1,
            find_from(s@, pat@, i as int) == find_from(s@, pat@, from as int),
            from <= i,
        decreases s.len() - i,
    {
        if occurs_at_exec(s, pat, i) {
            return Some(i);
        }
        i = i + 1;
    }
    None
}

/// Splits `s` at each leftmost occurrence of the non-empty separator `pat`.
pub fn split_chars(s: &Vec<char>, pat: &Vec<char>) -> (r: Vec<Vec<char>>)
    requires
        pat.len() > 0,
    ensures
        r@.map_values(|p: Vec<char>| p@) == split_by(s@, pat@),
{
    let mut pieces: Vec<Vec<char>> = Vec::new();
    let mut rest: Vec<char> = slice_chars(s, 0, s.len());
    assert(s@.subrange(0, s@.len() as int) =~= s@);
    loop
        invariant
            pat.len() > 0,
            pieces@.map_values(|p: Vec<char>| p@) + split_by(rest@, pat@) == split_by(s@, pat@),
        decreases rest.len(),
    {
        let found = find_chars(&rest, pat, 0);
        proof {
            lemma_find_from_bounds(rest@, pat@, 0);
        }
        match found {
            Some(i) => {
                let head = slice_chars(&rest, 0, i);
                let tail = slice_chars(&rest, i + pat.len(), rest.len());
                proof {
                    assert(head@ =~= rest@.take(i as int));
                    assert(tail@ =~= rest@.skip(i + pat.len()));
                    let old_pieces = pieces@;
                    assert((old_pieces.push(head)).map_values(|p: Vec<char>| p@) =~= old_pieces.map_values(
                        |p: Vec<char>| p@,
                    ).push(head@));
                    assert(split_by(rest@, pat@) == seq![head@] + split_by(tail@, pat@));
                    assert(old_pieces.map_values(|p: Vec<char>| p@).push(head@) + split_by(tail@, pat@)
                        =~= old_pieces.map_values(|p: Vec<char>| p@) + (seq![head@] + split_by(
                        tail@,
                        pat@,
                    )));
                }
                pieces.push(head);
                rest = tail;
            },
            None => {
                proof {
                    let old_pieces = pieces@;
                    assert(split_by(rest@, pat@) == seq![rest@]);
                    assert((old_pieces.push(rest)).map_values(|p: Vec<char>| p@) =~= old_pieces.map_values(
                        |p: Vec<char>| p@,
                    ) + seq![rest@]);
                }
                pieces.push(rest);
                return pieces;
            },
        }
    }
}

/// Whether `c` is white space in the sense of `char::is_whitespace`.
pub open spec fn is_space(c: char) -> bool {
    let u = c as u32;
    (9 <= u && u <= 13) || u == 32 || u == 0x85 || u == 0xa0 || u == 0x1680 || (0x2000 <= u && u
        <= 0x200a) || u == 0x2028 || u == 0x2029 || u == 0x202f || u == 0x205f || u == 0x3000
}

/// Whether `c` is a parenthesis.
pub open spec fn is_paren(c: char) -> bool {
    c == '(' || c == ')'
}

/// The class of characters that a trim removes: white space, or parentheses.
pub open spec fn strippable(c: char, parens: bool) -> bool {
    if parens {
        is_paren(c)
    } else {
        is_space(c)
    }
}

/// `s` without its leading characters of the class.
pub open spec fn trim_start(s: Seq<char>, parens: bool) -> Seq<char>
    decreases s.len(),
{
    if s.len() > 0 && strippable(s[0], parens) {
        trim_start(s.drop_first(), parens)
    } else {
        s
    }
}

/// `s` without its trailing characters of the class.
pub open spec fn trim_end(s: Seq<char>, parens: bool) -> Seq<char>
    decreases s.len(),
{
    if s.len() > 0 && strippable(s.last(), parens) {
        trim_end(s.drop_last(), parens)
    } else {
        s
    }
}

/// `s` without leading and trailing characters of the class.
pub open spec fn trim(s: Seq<char>, parens: bool) -> Seq<char> {
    trim_end(trim_start(s, parens), parens)
}

fn strippable_exec(c: char, parens: bool) -> (r: bool)
    ensures
        r == strippable(c, parens),
{
    if parens {
        c == '(' || c == ')'
    } else {
        let u = c as u32;
        (9 <= u && u <= 13) || u == 32 || u == 0x85 || u == 0xa0 || u == 0x1680 || (0x2000 <= u
            && u <= 0x200a) || u == 0x2028 || u == 0x2029 || u == 0x202f || u == 0x205f || u
            == 0x3000
    }
}

/// Removes leading and trailing white space (or parentheses) from `s`.
pub fn trim_chars(s: &Vec<char>, parens: bool) -> (r: Vec<char>)
    ensures
        r@ == trim(s@, parens),
{
    let mut a: usize = 0;
    assert(s@.skip(0) =~= s@);
    while a < s.len() && strippable_exec(s[a], parens)
        invariant
            a <= s.len(),
            trim_start(s@.skip(a as int), parens) == trim_start(s@, parens),
        decreases s.len() - a,
    {
        assert(s@.skip(a as int).drop_first() =~= s@.skip(a + 1));
        a = a + 1;
    }
    let ghost front = s@.skip(a as int);
    assert(trim_start(front, parens) == front);
    let mut b: usize = s.len();
    while b > a && strippable_exec(s[b - 1], parens)
        invariant
            a <= b <= s.len(),
            front == s@.skip(a as int),
            trim_end(s@.subrange(a as int, b as int), parens) == trim_end(front, parens),
        decreases b,
    {
        assert(s@.subrange(a as int, b as int).drop_last() =~= s@.subrange(a as int, b - 1));
        b = b - 1;
    }
    assert(front =~= s@.subrange(a as int, s.len() as int));
    slice_chars(s, a, b)
}

/// The words of `s` (maximal runs of non-space characters), scanning from
/// position `i` with the current word begun at `start`, if any.
pub open spec fn words_from(s: Seq<char>, i: int, start: Option<int>) -> Seq<Seq<char>>
    decreases s.len() - i,
{
    if i >= s.len() {
        match start {
            Some(a) => seq![s.subrange(a, s.len() as int)],
            None => seq![],
        }
    } else if is_space(s[i]) {
        match start {
            Some(a) => seq![s.subrange(a, i)] + words_from(s, i + 1, None),
            None => words_from(s, i + 1, None),
        }
    } else {
        words_from(
            s,
            i + 1,
            match start {
                Some(a) => Some(a),
                None => Some(i),
            },
        )
    }
}

/// The words of `s`, as `str::split_whitespace` gives them.
pub open spec fn words(s: Seq<char>) -> Seq<Seq<char>> {
    words_from(s, 0, None)
}

/// Splits `s` into its words.
pub fn split_words(s: &Vec<char>) -> (r: Vec<Vec<char>>)
    ensures
        r@.map_values(|p: Vec<char>| p@) == words(s@),
{
    let mut out: Vec<Vec<char>> = Vec::new();
    let mut i: usize = 0;
    let mut start: Option<usize> = None;
    while i < s.len()
        invariant
            i <= s.len(),
            start matches Some(a) ==> a < i,
            out@.map_values(|p: Vec<char>| p@) + words_from(
                s@,
                i as int,
                match start {
                    Some(a) => Some(a as int),
                    None => None,
                },
            ) == words(s@),
        decreases s.len() - i,
    {
        let ghost old_out = out@;
        if strippable_exec(s[i], false) {
            match start {
                Some(a) => {
                    let w = slice_chars(s, a, i);
                    proof {
                        assert((old_out.push(w)).map_values(|p: Vec<char>| p@) =~= old_out.map_values(
                            |p: Vec<char>| p@,
                        ).push(w@));
                        assert(old_out.map_values(|p: Vec<char>| p@).push(w@) + words_from(
                            s@,
                            i + 1,
                            None,
                        ) =~= old_out.map_values(|p: Vec<char>| p@) + (seq![w@] + words_from(
                            s@,
                            i + 1,
                            None,
                        )));
                    }
                    out.push(w);
                },
                None => {},
            }
            start = None;
        } else {
            match start {
                Some(_) => {},
                None => {
                    start = Some(i);
                },
            }
        }
        i = i + 1;
    }
    let ghost old_out = out@;
    match start {
        Some(a) => {
            let w = slice_chars(s, a, s.len());
            proof {
                assert((old_out.push(w)).map_values(|p: Vec<char>| p@) =~= old_out.map_values(
                    |p: Vec<char>| p@,
                ) + seq![w@]);
            }
            out.push(w);
        },
        None => {
            assert(old_out.map_values(|p: Vec<char>| p@) + seq![] =~= old_out.map_values(
                |p: Vec<char>| p@,
            ));
        },
    }
    out
}

/// Whether `p` is a prefix of `s`.
pub fn starts_with_chars(s: &Vec<char>, p: &Vec<char>) -> (r: bool)
    ensures
        r == p@.is_prefix_of(s@),
{
    if p.len() > s.len() {
        return false;
    }
    let r = occurs_at_exec(s, p, 0);
    assert(s@.subrange(0, p.len() as int) =~= s@.take(p.len() as int));
    r
}

/// Whether `p` is a suffix of `s`.
pub fn ends_with_chars(s: &Vec<char>, p: &Vec<char>) -> (r: bool)
    ensures
        r == p@.is_suffix_of(s@),
{
    if p.len() > s.len() {
        return false;
    }
    occurs_at_exec(s, p, s.len() - p.len())
}

/// Whether `p` occurs somewhere in `s`.
pub open spec fn contains_seq(s: Seq<char>, p: Seq<char>) -> bool {
    exists|i: int| occurs_at(s, p, i)
}

/// Whether `p` occurs somewhere in `s`.
pub fn contains_chars(s: &Vec<char>, p: &Vec<char>) -> (r: bool)
    ensures
        r == contains_seq(s@, p@),
{
    if p.len() > s.len() {
        assert(forall|i: int| !occurs_at(s@, p@, i));
        return false;
    }
    if p.len() == 0 {
        assert(s@.subrange(0, 0) =~= p@);
        assert(occurs_at(s@, p@, 0));
        return true;
    }
    let mut i: usize = 0;
    while i <= s.len() - p.len()
        invariant
            0 < p.len() <= s.len(),
            i <= s.len() - p.len() + 1,
            forall|k: int| 0 <= k < i ==> !occurs_at(s@, p@, k),
        decreases s.len() - i,
    {
        if occurs_at_exec(s, p, i) {
            assert(occurs_at(s@, p@, i as int));
            return true;
        }
        i = i + 1;
    }
    assert(forall|k: int| !occurs_at(s@, p@, k));
    false
}

} // verus!
