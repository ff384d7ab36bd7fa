//! Texts as sequences of characters: searching for a pattern.

use vstd::prelude::*;

verus! {

/// Whether `pattern` stands in `text` at position `at`.
pub open spec fn occurs_at(text: Seq<char>, pattern: Seq<char>, at: int) -> bool {
    &&& 0 <= at
    &&& at + pattern.len() <= text.len()
    &&& text.subrange(at, at + pattern.len()) == pattern
}

/// Whether `pattern` stands somewhere in `text`.
pub open spec fn occurs(text: Seq<char>, pattern: Seq<char>) -> bool {
    exists|at: int| occurs_at(text, pattern, at)
}

/// Whether `at` is the leftmost position at which `pattern` stands in `text`.
pub open spec fn is_first_occurrence(text: Seq<char>, pattern: Seq<char>, at: int) -> bool {
    &&& occurs_at(text, pattern, at)
    &&& forall|before: int| 0 <= before < at ==> !occurs_at(text, pattern, before)
}

/// The leftmost position at which `pattern` stands in `text`, if it stands
/// there at all.
pub open spec fn first_occurrence(text: Seq<char>, pattern: Seq<char>) -> Option<int> {
    if exists|at: int| is_first_occurrence(text, pattern, at) {
        Some(choose|at: int| is_first_occurrence(text, pattern, at))
    } else {
        None
    }
}

/// A leftmost occurrence is the only one: `first_occurrence` names it.
pub proof fn lemma_first_occurrence_found(text: Seq<char>, pattern: Seq<char>, at: int)
    requires
        is_first_occurrence(text, pattern, at),
    ensures
        first_occurrence(text, pattern) == Some(at),
{
    let chosen = choose|i: int| is_first_occurrence(text, pattern, i);
    assert(is_first_occurrence(text, pattern, chosen));
    if chosen < at {
        assert(!occurs_at(text, pattern, chosen));
    }
    if at < chosen {
        assert(!occurs_at(text, pattern, at));
    }
}

/// Where the pattern stands nowhere, there is no first occurrence, and the
/// other way round.
pub proof fn lemma_first_occurrence_none(text: Seq<char>, pattern: Seq<char>)
    ensures
        first_occurrence(text, pattern) is None <==> !occurs(text, pattern),
{
    if occurs(text, pattern) {
        let at = choose|at: int| occurs_at(text, pattern, at);
        let first = lemma_leftmost(text, pattern, at);
        assert(is_first_occurrence(text, pattern, first));
    } else {
        assert forall|at: int| !is_first_occurrence(text, pattern, at) by {
            assert(!occurs_at(text, pattern, at));
        }
    }
}

/// Below any occurrence there is a leftmost one.
pub proof fn lemma_leftmost(text: Seq<char>, pattern: Seq<char>, at: int) -> (first: int)
    requires
        occurs_at(text, pattern, at),
    ensures
        is_first_occurrence(text, pattern, first),
        first <= at,
    decreases at,
{
    if exists|before: int| 0 <= before < at && occurs_at(text, pattern, before) {
        let before = choose|before: int| 0 <= before < at && occurs_at(text, pattern, before);
        lemma_leftmost(text, pattern, before)
    } else {
        at
    }
}

/// How many positions below `limit` hold an occurrence of `pattern` in `text`.
pub open spec fn occurrences_below(text: Seq<char>, pattern: Seq<char>, limit: int) -> nat
    decreases limit,
{
    if limit <= 0 {
        0
    } else {
        occurrences_below(text, pattern, limit - 1) + if occurs_at(text, pattern, limit - 1) {
            1nat
        } else {
            0nat
        }
    }
}

/// How many occurrences of `pattern` there are in `text`, overlapping ones
/// included.
pub open spec fn occurrences(text: Seq<char>, pattern: Seq<char>) -> nat {
    occurrences_below(text, pattern, text.len() as int + 1)
}

/// Where no position below `limit` holds an occurrence, the count below
/// `limit` is zero.
pub proof fn lemma_no_occurrences_below(text: Seq<char>, pattern: Seq<char>, limit: int)
    requires
        forall|at: int| 0 <= at < limit ==> !occurs_at(text, pattern, at),
    ensures
        occurrences_below(text, pattern, limit) == 0,
    decreases limit,
{
    if limit > 0 {
        lemma_no_occurrences_below(text, pattern, limit - 1);
    }
}

/// The characters of a string, in order.
pub fn chars_of(s: &str) -> (chars: Vec<char>)
    ensures
        chars@ == s@,
{
    let mut chars: Vec<char> = Vec::new();
    for c in it: s.chars()
        invariant
            chars@ == it.seq().take(it.index() as int),
            it.seq() == s@,
    {
        chars.push(c);
    }
    chars
}

/// Whether `pattern` stands in `text` at position `at`.
pub fn matches_at(text: &[char], pattern: &[char], at: usize) -> (hit: bool)
    ensures
        hit == occurs_at(text@, pattern@, at as int),
{
    if pattern.len() > text.len() || at > text.len() - pattern.len() {
        return false;
    }
    let mut k: usize = 0;
    while k < pattern.len()
        invariant
            k <= pattern.len(),
            at + pattern.len() <= text.len(),
            forall|j: int| 0 <= j < k ==> text@[at + j] == pattern@[j],
        decreases pattern.len() - k,
    {
        if text[at + k] != pattern[k] {
            proof {
                let window = text@.subrange(at as int, at + pattern.len());
                assert(window[k as int] == text@[at + k]);
            }
            return false;
        }
        k = k + 1;
    }
    proof {
        assert(text@.subrange(at as int, at + pattern.len()) =~= pattern@);
    }
    true
}

/// Finds the leftmost position at which `pattern` stands in `text`.
pub fn find_first(text: &[char], pattern: &[char]) -> (found: Option<usize>)
    ensures
        match found {
            Some(at) => first_occurrence(text@, pattern@) == Some(at as int),
            None => first_occurrence(text@, pattern@) is None,
        },
{
    if pattern.len() > text.len() {
        proof {
            lemma_first_occurrence_none(text@, pattern@);
        }
        return None;
    }
    let last: usize = text.len() - pattern.len();
    let mut at: usize = 0;
    while at < last
        invariant
            pattern.len() <= text.len(),
            last == text.len() - pattern.len(),
            at <= last,
            forall|before: int| 0 <= before < at ==> !occurs_at(text@, pattern@, before),
        decreases last - at,
    {
        if matches_at(text, pattern, at) {
            proof {
                lemma_first_occurrence_found(text@, pattern@, at as int);
            }
            return Some(at);
        }
        at = at + 1;
    }
    if matches_at(text, pattern, at) {
        proof {
            lemma_first_occurrence_found(text@, pattern@, at as int);
        }
        Some(at)
    } else {
        proof {
            lemma_first_occurrence_none(text@, pattern@);
        }
        None
    }
}

} // verus!
