//! Character classes and small scanning helpers over page text.
use vstd::prelude::*;

verus! {

pub open spec fn is_digit(c: char) -> bool {
    '0' <= c && c <= '9'
}

/// The whitespace characters that separate words of statement text.
pub open spec fn is_space(c: char) -> bool {
    c == ' ' || c == '\t' || c == '\n' || c == '\r' || c == '\x0B' || c == '\x0C'
}

pub open spec fn digit_value(c: char) -> int {
    (c as int) - ('0' as int)
}

pub fn is_digit_char(c: char) -> (r: bool)
    ensures
        r == is_digit(c),
{
    '0' <= c && c <= '9'
}

pub fn is_space_char(c: char) -> (r: bool)
    ensures
        r == is_space(c),
{
    c == ' ' || c == '\t' || c == '\n' || c == '\r' || c == '\x0B' || c == '\x0C'
}

/// A blank in a phrase stands for any one whitespace character.
pub open spec fn phrase_char_matches(c: char, p: char) -> bool {
    if p == ' ' {
        is_space(c)
    } else {
        c == p
    }
}

/// The phrase `p` stands in `s` at `i`.
pub open spec fn phrase_at(s: Seq<char>, i: int, p: Seq<char>) -> bool {
    0 <= i && i + p.len() <= s.len() && forall|k: int|
        0 <= k < p.len() ==> #[trigger] phrase_char_matches(s[i + k], p[k])
}

/// The first place at or after `from` where `p` stands in `s`, or `s.len()`.
pub open spec fn next_phrase(s: Seq<char>, p: Seq<char>, from: int) -> int
    decreases s.len() - from,
{
    if from >= s.len() {
        s.len() as int
    } else if phrase_at(s, from, p) {
        from
    } else {
        next_phrase(s, p, from + 1)
    }
}

/// From `e` to the end of its line there is nothing but whitespace.
pub open spec fn blank_to_eol(s: Seq<char>, e: int) -> bool
    decreases s.len() - e,
{
    if e < 0 || e >= s.len() {
        true
    } else if s[e] == '\n' {
        true
    } else if is_space(s[e]) {
        blank_to_eol(s, e + 1)
    } else {
        false
    }
}

pub proof fn lemma_next_phrase_bounds(s: Seq<char>, p: Seq<char>, from: int)
    requires
        0 <= from,
    ensures
        from <= next_phrase(s, p, from) || next_phrase(s, p, from) == s.len(),
        next_phrase(s, p, from) <= s.len(),
        next_phrase(s, p, from) < s.len() ==> phrase_at(s, next_phrase(s, p, from), p),
    decreases s.len() - from,
{
    if from < s.len() && !phrase_at(s, from, p) {
        lemma_next_phrase_bounds(s, p, from + 1);
    }
}

pub fn phrase_matches(s: &Vec<char>, i: usize, p: &Vec<char>) -> (r: bool)
    ensures
        r == phrase_at(s@, i as int, p@),
{
    if i > s.len() || p.len() > s.len() - i {
        return false;
    }
    let mut k: usize = 0;
    while k < p.len()
        invariant
            i + p.len() <= s.len(),
            k <= p.len(),
            forall|j: int| 0 <= j < k ==> #[trigger] phrase_char_matches(s@[i + j], p@[j]),
        decreases p.len() - k,
    {
        let c = s[i + k];
        let q = p[k];
        let ok = if q == ' ' {
            is_space_char(c)
        } else {
            c == q
        };
        if !ok {
            assert(!phrase_char_matches(s@[i + k], p@[k as int]));
            return false;
        }
        k = k + 1;
    }
    true
}

pub fn find_phrase(s: &Vec<char>, p: &Vec<char>, from: usize) -> (r: usize)
    requires
        from <= s.len(),
    ensures
        r as int == next_phrase(s@, p@, from as int),
{
    let mut i = from;
    while i < s.len() && !phrase_matches(s, i, p)
        invariant
            from <= i <= s.len(),
            next_phrase(s@, p@, from as int) == next_phrase(s@, p@, i as int),
        decreases s.len() - i,
    {
        i = i + 1;
    }
    i
}

pub fn blank_to_line_end(s: &Vec<char>, e: usize) -> (r: bool)
    ensures
        r == blank_to_eol(s@, e as int),
{
    let mut i = e;
    while i < s.len() && s[i] != '\n' && is_space_char(s[i])
        invariant
            e <= i,
            blank_to_eol(s@, e as int) == blank_to_eol(s@, i as int),
        decreases s.len() - i,
    {
        i = i + 1;
    }
    i >= s.len() || s[i] == '\n'
}

/// The characters of `s`, in order.
pub fn chars_of(s: &str) -> (r: Vec<char>)
    ensures
        r@ == s@,
{
    let mut out: Vec<char> = Vec::new();
    for c in iter: s.chars()
        invariant
            iter.seq() == s@,
            out@ == s@.take(iter.index() as int),
    {
        out.push(c);
        proof {
            assert(out@ =~= s@.take(iter.index() as int + 1));
        }
    }
    proof {
        assert(out@ =~= s@);
    }
    out
}

} // verus!
