//! Deriving a command's dotted phrase from a handler's identifier.
use vstd::prelude::*;

verus! {

/// Index of the last `':'` in `s`, or -1 when there is none.
pub open spec fn last_colon(s: Seq<char>) -> int
    decreases s.len(),
{
    if s.len() == 0 {
        -1
    } else if s.last() == ':' {
        s.len() - 1
    } else {
        last_colon(s.drop_last())
    }
}

/// `'_'` becomes `'.'`; every other character stays.
pub open spec fn dot_of(c: char) -> char {
    if c == '_' {
        '.'
    } else {
        c
    }
}

/// The phrase of an identifier: what follows its last `':'`, with each `'_'`
/// replaced by `'.'` (splitting on `'_'` and joining with `'.'`).
pub open spec fn derive_phrase(id: Seq<char>) -> Seq<char> {
    id.subrange(last_colon(id) + 1, id.len() as int).map_values(|c: char| dot_of(c))
}

proof fn lemma_last_colon(s: Seq<char>)
    ensures
        -1 <= last_colon(s) < s.len(),
        last_colon(s) >= 0 ==> s[last_colon(s)] == ':',
        forall|j: int| last_colon(s) < j < s.len() ==> s[j] != ':',
    decreases s.len(),
{
    if s.len() > 0 && s.last() != ':' {
        lemma_last_colon(s.drop_last());
        assert(forall|j: int| 0 <= j < s.len() - 1 ==> s.drop_last()[j] == s[j]);
    }
}

/// Relies on String::push: appends one character at the end.
#[verifier::external_body]
pub(crate) fn push_char(s: &mut String, c: char)
    ensures
        final(s)@ == old(s)@.push(c),
{
    s.push(c)
}

/// Derives the phrase under which a handler named `identifier` is invoked:
/// `questions_list` gives `questions.list`, `crate::commands::export` gives
/// `export`.
pub fn phrase_of(identifier: &str) -> (r: String)
    ensures
        r@ == derive_phrase(identifier@),
{
    proof {
        lemma_last_colon(identifier@);
    }
    let n = identifier.unicode_len();
    let mut start: usize = 0;
    let mut i: usize = 0;
    while i < n
        invariant
            n == identifier@.len(),
            i <= n,
            start <= i,
            start == last_colon(identifier@.subrange(0, i as int)) + 1,
        decreases n - i,
    {
        let c = identifier.get_char(i);
        proof {
            let s = identifier@.subrange(0, i as int + 1);
            assert(s.drop_last() =~= identifier@.subrange(0, i as int));
        }
        i = i + 1;
        if c == ':' {
            start = i;
        }
    }
    assert(identifier@.subrange(0, n as int) =~= identifier@);
    let mut r = String::new();
    let mut k: usize = start;
    while k < n
        invariant
            n == identifier@.len(),
            start <= k <= n,
            r@ =~= identifier@.subrange(start as int, k as int).map_values(|c: char| dot_of(c)),
        decreases n - k,
    {
        let c = identifier.get_char(k);
        if c == '_' {
            push_char(&mut r, '.');
        } else {
            push_char(&mut r, c);
        }
        proof {
            assert(identifier@.subrange(start as int, k as int + 1) =~= identifier@.subrange(
                start as int,
                k as int,
            ).push(c));
        }
        k = k + 1;
    }
    r
}

} // verus!
