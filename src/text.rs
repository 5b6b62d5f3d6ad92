//! Character-level helpers for reading program text: characters of a string,
//! whitespace, words, trimming and lines.

use vstd::prelude::*;
use vstd::string::StrSliceExecFns;

verus! {

/// Unicode white space, as `char::is_whitespace` defines it.
pub open spec fn is_space(c: char) -> bool {
    let u = c as u32;
    ||| 9 <= u <= 13
    ||| u == 32
    ||| u == 0x85
    ||| u == 0xa0
    ||| u == 0x1680
    ||| 0x2000 <= u <= 0x200a
    ||| u == 0x2028
    ||| u == 0x2029
    ||| u == 0x202f
    ||| u == 0x205f
    ||| u == 0x3000
}

/// The first index at or after `i` that does not hold white space.
pub open spec fn skip_space(s: Seq<char>, i: int) -> int
    decreases s.len() - i,
{
    if 0 <= i < s.len() && is_space(s[i]) {
        skip_space(s, i + 1)
    } else {
        i
    }
}

/// The first index at or after `i` that holds white space, or the end.
pub open spec fn word_end(s: Seq<char>, i: int) -> int
    decreases s.len() - i,
{
    if 0 <= i < s.len() && !is_space(s[i]) {
        word_end(s, i + 1)
    } else {
        i
    }
}

/// Start and end of the `n`-th whitespace-separated word of `s`, counted
/// from 0. The start is `s.len()` where `s` has no such word.
pub open spec fn word_span(s: Seq<char>, n: nat) -> (int, int)
    decreases n,
{
    let from = if n == 0 {
        0
    } else {
        word_span(s, (n - 1) as nat).1
    };
    let a = skip_space(s, from);
    (a, word_end(s, a))
}

/// The `n`-th whitespace-separated word of `s`, counted from 0.
pub open spec fn word(s: Seq<char>, n: nat) -> Option<Seq<char>> {
    let (a, b) = word_span(s, n);
    if a < s.len() {
        Some(s.subrange(a, b))
    } else {
        None
    }
}

/// The end of `s.take(j)` with trailing white space removed.
pub open spec fn trim_end(s: Seq<char>, j: int) -> int
    decreases j,
{
    if 0 < j <= s.len() && is_space(s[j - 1]) {
        trim_end(s, j - 1)
    } else {
        j
    }
}

/// `s` without leading and trailing white space.
pub open spec fn trim(s: Seq<char>) -> Seq<char> {
    let a = skip_space(s, 0);
    if a < s.len() {
        s.subrange(a, trim_end(s, s.len() as int))
    } else {
        Seq::empty()
    }
}

/// The pieces of `s` between newline characters, in order: one more piece
/// than `s` holds newlines.
pub open spec fn pieces(s: Seq<char>) -> Seq<Seq<char>>
    decreases s.len(),
{
    if s.len() == 0 {
        seq![Seq::empty()]
    } else {
        let p = pieces(s.drop_last());
        if s.last() == '\n' {
            p.push(Seq::empty())
        } else {
            p.update(p.len() - 1, p.last().push(s.last()))
        }
    }
}

/// The lines of `s`: its pieces between newlines, where an empty piece after
/// a final newline (or of an empty text) is no line.
pub open spec fn lines(s: Seq<char>) -> Seq<Seq<char>> {
    let p = pieces(s);
    if p.last().len() == 0 {
        p.drop_last()
    } else {
        p
    }
}

pub proof fn lemma_skip_space_bounds(s: Seq<char>, i: int)
    requires
        0 <= i <= s.len(),
    ensures
        i <= skip_space(s, i) <= s.len(),
        skip_space(s, i) < s.len() ==> !is_space(s[skip_space(s, i)]),
    decreases s.len() - i,
{
    if i < s.len() && is_space(s[i]) {
        lemma_skip_space_bounds(s, i + 1);
    }
}

pub proof fn lemma_word_end_bounds(s: Seq<char>, i: int)
    requires
        0 <= i <= s.len(),
    ensures
        i <= word_end(s, i) <= s.len(),
        forall|k: int| i <= k < word_end(s, i) ==> !is_space(#[trigger] s[k]),
        i < s.len() && !is_space(s[i]) ==> i < word_end(s, i),
    decreases s.len() - i,
{
    if i < s.len() && !is_space(s[i]) {
        lemma_word_end_bounds(s, i + 1);
    }
}

pub proof fn lemma_word_span_bounds(s: Seq<char>, n: nat)
    ensures
        0 <= word_span(s, n).0 <= word_span(s, n).1 <= s.len(),
        word_span(s, n).0 < s.len() ==> word_span(s, n).0 < word_span(s, n).1,
    decreases n,
{
    let from = if n == 0 {
        0
    } else {
        lemma_word_span_bounds(s, (n - 1) as nat);
        word_span(s, (n - 1) as nat).1
    };
    lemma_skip_space_bounds(s, from);
    lemma_word_end_bounds(s, skip_space(s, from));
}

proof fn lemma_trim_end_bounds(s: Seq<char>, j: int, k: int)
    requires
        0 <= k < j <= s.len(),
        !is_space(s[k]),
    ensures
        k < trim_end(s, j) <= j,
    decreases j,
{
    if is_space(s[j - 1]) {
        lemma_trim_end_bounds(s, j - 1, k);
    }
}

/// Whether `c` is white space.
pub fn is_space_char(c: char) -> (r: bool)
    ensures
        r == is_space(c),
{
    let u = c as u32;
    (9 <= u && u <= 13) || u == 32 || u == 0x85 || u == 0xa0 || u == 0x1680
        || (0x2000 <= u && u <= 0x200a) || u == 0x2028 || u == 0x2029 || u == 0x202f
        || u == 0x205f || u == 0x3000
}

/// The characters of `s`, in order.
pub fn chars_of(s: &str) -> (r: Vec<char>)
    ensures
        r@ == s@,
{
    let mut r: Vec<char> = Vec::new();
    for c in it: s.chars()
        invariant
            it.seq() == s@,
            r@ == it.seq().take(it.index() as int),
    {
        r.push(c);
    }
    r
}

/// The first index at or after `i` that does not hold white space.
pub fn skip_space_from(s: &Vec<char>, i: usize) -> (r: usize)
    requires
        i <= s.len(),
    ensures
        r as int == skip_space(s@, i as int),
        i <= r <= s.len(),
{
    let mut k: usize = i;
    while k < s.len() && is_space_char(s[k])
        invariant
            i <= k <= s.len(),
            skip_space(s@, k as int) == skip_space(s@, i as int),
        decreases s.len() - k,
    {
        k = k + 1;
    }
    k
}

/// The first index at or after `i` that holds white space, or the end.
pub fn word_end_from(s: &Vec<char>, i: usize) -> (r: usize)
    requires
        i <= s.len(),
    ensures
        r as int == word_end(s@, i as int),
        i <= r <= s.len(),
{
    let mut k: usize = i;
    while k < s.len() && !is_space_char(s[k])
        invariant
            i <= k <= s.len(),
            word_end(s@, k as int) == word_end(s@, i as int),
        decreases s.len() - k,
    {
        k = k + 1;
    }
    k
}

/// Start and end of the next word of `s` after the word that ends at `from`
/// (the first word where `from` is 0).
pub fn next_word(s: &Vec<char>, from: usize) -> (r: (usize, usize))
    requires
        from <= s.len(),
    ensures
        r.0 as int == skip_space(s@, from as int),
        r.1 as int == word_end(s@, r.0 as int),
        from <= r.0 <= r.1 <= s.len(),
{
    let a = skip_space_from(s, from);
    let b = word_end_from(s, a);
    (a, b)
}

/// `s` without leading and trailing white space.
pub fn trim_str(s: &str) -> (r: &str)
    ensures
        r@ == trim(s@),
{
    let cs = chars_of(s);
    let a = skip_space_from(&cs, 0);
    if a == cs.len() {
        return s.substring_char(0, 0);
    }
    proof {
        lemma_skip_space_bounds(s@, 0);
    }
    let mut e: usize = cs.len();
    while e > 0 && is_space_char(cs[e - 1])
        invariant
            a < e <= cs.len(),
            cs@ == s@,
            !is_space(s@[a as int]),
            trim_end(s@, e as int) == trim_end(s@, cs.len() as int),
        decreases e,
    {
        e = e - 1;
    }
    s.substring_char(a, e)
}

} // verus!
