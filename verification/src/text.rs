//! Character-level helpers shared by the acquirers: substring search,
//! case folding and trimming, each with its meaning on `Seq<char>`.

use vstd::prelude::*;
use vstd::std_specs::iter::IteratorSpec;

verus! {

broadcast use vstd::string::group_string_axioms;

/// The characters of `s`, in order.
pub fn chars_of(s: &str) -> (out: Vec<char>)
    ensures
        out@ == s@,
{
    let mut it = s.chars();
    let mut out: Vec<char> = Vec::new();
    loop
        invariant
            it.obeys_prophetic_iter_laws(),
            out@ + it.remaining() == s@,
            it.decrease() is Some,
        ensures
            out@ == s@,
        decreases it.decrease()->0,
    {
        match it.next() {
            Some(c) => {
                out.push(c);
            },
            None => {
                assert(out@ =~= s@);
                break ;
            },
        }
    }
    out
}

/// Whether `pat` stands in `hay` at position `at`.
pub open spec fn occurs_at(hay: Seq<char>, pat: Seq<char>, at: int) -> bool {
    &&& 0 <= at
    &&& at + pat.len() <= hay.len()
    &&& hay.subrange(at, at + pat.len()) == pat
}

/// Whether `pat` stands somewhere in `hay`. The empty pattern stands in
/// every sequence.
pub open spec fn contains(hay: Seq<char>, pat: Seq<char>) -> bool {
    exists|at: int| occurs_at(hay, pat, at)
}

/// The lower-case form of an ASCII capital; any other character unchanged.
pub open spec fn lower(c: char) -> char {
    if 65 <= (c as u32) && (c as u32) <= 90 {
        (((c as u32) + 32) as u8) as char
    } else {
        c
    }
}

/// `s` with its ASCII capitals in lower case.
pub open spec fn lowered(s: Seq<char>) -> Seq<char> {
    Seq::new(s.len(), |i: int| lower(s[i]))
}

/// White space in the sense of Unicode's `White_Space` property.
pub open spec fn is_blank(c: char) -> bool {
    let code = c as u32;
    ||| 9 <= code <= 13
    ||| code == 0x20
    ||| code == 0x85
    ||| code == 0xA0
    ||| code == 0x1680
    ||| 0x2000 <= code <= 0x200A
    ||| code == 0x2028
    ||| code == 0x2029
    ||| code == 0x202F
    ||| code == 0x205F
    ||| code == 0x3000
}

/// Number of blanks in a row from position `from` on.
pub open spec fn blanks_from(s: Seq<char>, from: int) -> int
    decreases s.len() - from,
{
    if 0 <= from < s.len() && is_blank(s[from]) {
        1 + blanks_from(s, from + 1)
    } else {
        0
    }
}

/// Number of blanks in a row up to, not including, position `to`.
pub open spec fn blanks_before(s: Seq<char>, to: int) -> int
    decreases to,
{
    if 0 < to <= s.len() && is_blank(s[to - 1]) {
        1 + blanks_before(s, to - 1)
    } else {
        0
    }
}

/// `s` without the blanks at its start and at its end.
pub open spec fn trimmed(s: Seq<char>) -> Seq<char> {
    if blanks_from(s, 0) == s.len() {
        Seq::empty()
    } else {
        s.subrange(blanks_from(s, 0), s.len() - blanks_before(s, s.len() as int))
    }
}

/// The run of blanks from `at` on lies within `s`, holds blanks only and
/// ends before a character that is no blank.
pub proof fn lemma_blanks_from(s: Seq<char>, at: int)
    requires
        0 <= at <= s.len(),
    ensures
        0 <= blanks_from(s, at) <= s.len() - at,
        blanks_from(s, at) < s.len() - at ==> !is_blank(s[at + blanks_from(s, at)]),
        forall|i: int| at <= i < at + blanks_from(s, at) ==> is_blank(#[trigger] s[i]),
    decreases s.len() - at,
{
    if at < s.len() && is_blank(s[at]) {
        lemma_blanks_from(s, at + 1);
    }
}

/// The run of blanks up to `at` lies within `s`, holds blanks only and
/// begins after a character that is no blank.
pub proof fn lemma_blanks_before(s: Seq<char>, at: int)
    requires
        0 <= at <= s.len(),
    ensures
        0 <= blanks_before(s, at) <= at,
        blanks_before(s, at) < at ==> !is_blank(s[at - blanks_before(s, at) - 1]),
        forall|i: int| at - blanks_before(s, at) <= i < at ==> is_blank(#[trigger] s[i]),
    decreases at,
{
    if 0 < at && is_blank(s[at - 1]) {
        lemma_blanks_before(s, at - 1);
    }
}

/// Trimming leaves no blank at either end, and takes away nothing but
/// blanks: `s` is blanks, then `trimmed(s)`, then blanks.
pub proof fn lemma_trimmed(s: Seq<char>)
    ensures
        trimmed(s).len() > 0 ==> !is_blank(trimmed(s).first()) && !is_blank(trimmed(s).last()),
        exists|a: int, b: int|
            0 <= a <= b <= s.len() && trimmed(s) == #[trigger] s.subrange(a, b) && (forall|i: int|
                0 <= i < a || b <= i < s.len() ==> is_blank(#[trigger] s[i])),
{
    let n = s.len() as int;
    lemma_blanks_from(s, 0);
    lemma_blanks_before(s, n);
    let a = blanks_from(s, 0);
    if a == n {
        assert(trimmed(s) =~= s.subrange(n, n));
        assert(forall|i: int| 0 <= i < n ==> is_blank(#[trigger] s[i]));
    } else {
        let b = n - blanks_before(s, n);
        assert(!is_blank(s[a]));
        assert(a < b) by {
            if b <= a {
                assert(is_blank(s[a]));
            }
        }
        assert(trimmed(s) == s.subrange(a, b));
        assert(trimmed(s).first() == s[a]);
        assert(trimmed(s).last() == s[b - 1]);
    }
}

pub fn is_blank_char(c: char) -> (blank: bool)
    ensures
        blank == is_blank(c),
{
    let code: u32 = c as u32;
    (9 <= code && code <= 13) || code == 0x20 || code == 0x85 || code == 0xA0 || code == 0x1680 || (
    0x2000 <= code && code <= 0x200A) || code == 0x2028 || code == 0x2029 || code == 0x202F || code
        == 0x205F || code == 0x3000
}

/// The part of `s` between its leading and its trailing blanks.
pub fn trim(s: &[char]) -> (out: &[char])
    ensures
        out@ == trimmed(s@),
{
    let mut start: usize = 0;
    while start < s.len() && is_blank_char(s[start])
        invariant
            start <= s@.len(),
            blanks_from(s@, 0) == start + blanks_from(s@, start as int),
        decreases s@.len() - start,
    {
        start += 1;
    }
    if start == s.len() {
        proof {
            assert(s@.subrange(start as int, start as int) =~= Seq::<char>::empty());
        }
        return vstd::slice::slice_subrange(s, start, start);
    }
    let mut end: usize = s.len();
    while end > start && is_blank_char(s[end - 1])
        invariant
            start < end <= s@.len(),
            !is_blank(s@[start as int]),
            blanks_before(s@, s@.len() as int) == (s@.len() - end) + blanks_before(s@, end as int),
        decreases end,
    {
        end -= 1;
    }
    vstd::slice::slice_subrange(s, start, end)
}

/// The lower-case form of an ASCII capital; any other character unchanged.
pub fn lower_char(c: char) -> (out: char)
    ensures
        out == lower(c),
{
    let code: u32 = c as u32;
    if 65 <= code && code <= 90 {
        ((code + 32) as u8) as char
    } else {
        c
    }
}

/// `s` with its ASCII capitals in lower case.
pub fn to_lower(s: &[char]) -> (out: Vec<char>)
    ensures
        out@ == lowered(s@),
{
    let mut out: Vec<char> = Vec::new();
    let mut i: usize = 0;
    while i < s.len()
        invariant
            i <= s@.len(),
            out@.len() == i,
            forall|j: int| 0 <= j < i ==> out@[j] == lower(s@[j]),
        decreases s@.len() - i,
    {
        out.push(lower_char(s[i]));
        i += 1;
    }
    proof {
        assert(out@ =~= lowered(s@));
    }
    out
}

/// Whether `a` and `b` hold the same characters.
pub fn same_chars(a: &[char], b: &[char]) -> (same: bool)
    ensures
        same == (a@ == b@),
{
    if a.len() != b.len() {
        return false;
    }
    let mut i: usize = 0;
    while i < a.len()
        invariant
            i <= a@.len(),
            a@.len() == b@.len(),
            forall|j: int| 0 <= j < i ==> a@[j] == b@[j],
        decreases a@.len() - i,
    {
        if a[i] != b[i] {
            return false;
        }
        i += 1;
    }
    proof {
        assert(a@ =~= b@);
    }
    true
}

/// Whether `pat` stands in `hay` at position `at`.
pub fn found_at(hay: &[char], pat: &[char], at: usize) -> (found: bool)
    ensures
        found == occurs_at(hay@, pat@, at as int),
{
    let size: usize = hay.len();
    if pat.len() > size || at > size - pat.len() {
        return false;
    }
    let mut i: usize = 0;
    while i < pat.len()
        invariant
            i <= pat@.len(),
            at + pat@.len() <= hay@.len() == size,
            forall|j: int| 0 <= j < i ==> hay@[at + j] == pat@[j],
        decreases pat@.len() - i,
    {
        if hay[at + i] != pat[i] {
            proof {
                assert(hay@.subrange(at as int, at + pat@.len())[i as int] == hay@[at + i]);
            }
            return false;
        }
        i += 1;
    }
    proof {
        assert(hay@.subrange(at as int, at + pat@.len()) =~= pat@);
    }
    true
}

/// Whether `pat` stands somewhere in `hay`.
pub fn has_substring(hay: &[char], pat: &[char]) -> (found: bool)
    ensures
        found == contains(hay@, pat@),
{
    if pat.len() > hay.len() {
        return false;
    }
    let last: usize = hay.len() - pat.len();
    let mut at: usize = 0;
    loop
        invariant
            at <= last,
            last == hay@.len() - pat@.len(),
            forall|j: int| 0 <= j < at ==> !occurs_at(hay@, pat@, j),
        decreases last - at,
    {
        if found_at(hay, pat, at) {
            return true;
        }
        if at == last {
            return false;
        }
        at += 1;
    }
}

} // verus!
