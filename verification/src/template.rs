//! Insertion of a head fragment into the HTML shell.

use crate::text::{
    chars_of, find_first, first_occurrence, lemma_first_occurrence_none,
    lemma_no_occurrences_below, occurrences, occurrences_below, occurs, occurs_at,
};
use vstd::prelude::*;

verus! {

/// The closing tag of the document head, before which a fragment goes.
pub open spec fn marker() -> Seq<char> {
    "</head>"@
}

/// The shell with the fragment inserted right before its first closing head
/// tag. A shell without that tag stays as it is.
pub open spec fn injected(shell: Seq<char>, fragment: Seq<char>) -> Seq<char> {
    match first_occurrence(shell, marker()) {
        Some(at) => shell.take(at) + fragment + shell.skip(at),
        None => shell,
    }
}

/// Inserts `fragment` into `shell` right before the first closing head tag.
/// The tag itself stays, later closing head tags are left alone, and a shell
/// without one is returned unchanged.
pub fn inject(shell: &str, fragment: &str) -> (document: String)
    ensures
        document@ == injected(shell@, fragment@),
        !occurs(shell@, marker()) ==> document@ == shell@,
{
    let text = chars_of(shell);
    let pattern = chars_of("</head>");
    proof {
        lemma_first_occurrence_none(shell@, marker());
    }
    match find_first(text.as_slice(), pattern.as_slice()) {
        Some(at) => {
            let mut document = String::from_str(shell.substring_char(0, at));
            document.append(fragment);
            document.append(shell.substring_char(at, text.len()));
            document
        },
        None => String::from_str(shell),
    }
}

/// Whether a shell has a closing head tag, and so a place for a fragment.
pub fn has_marker(shell: &str) -> (found: bool)
    ensures
        found == occurs(shell@, marker()),
{
    let text = chars_of(shell);
    let pattern = chars_of("</head>");
    proof {
        lemma_first_occurrence_none(shell@, marker());
    }
    find_first(text.as_slice(), pattern.as_slice()).is_some()
}

/// Whether inserting `fragment` into `shell` leaves the closing head tags of
/// the shell the only ones: none lies in the fragment, and none is formed by
/// the fragment together with the text before it.
pub open spec fn adds_no_marker(shell: Seq<char>, fragment: Seq<char>) -> bool {
    match first_occurrence(shell, marker()) {
        Some(at) => forall|i: int|
            0 <= i < at + fragment.len() ==> !occurs_at(
                injected(shell, fragment),
                marker(),
                i,
            ),
        None => true,
    }
}

/// Injection into a shell with a closing head tag inserts the fragment once:
/// the document is longer than the shell by the fragment's length, holds the
/// fragment where the first closing head tag stood, holds that tag right
/// after it, and is the shell again once the fragment is cut out.
pub proof fn lemma_inject_inserts_once(shell: Seq<char>, fragment: Seq<char>)
    requires
        occurs(shell, marker()),
    ensures
        first_occurrence(shell, marker()) is Some,
        ({
            let at = first_occurrence(shell, marker())->0;
            let document = injected(shell, fragment);
            &&& document.len() == shell.len() + fragment.len()
            &&& document.subrange(at, at + fragment.len()) == fragment
            &&& occurs_at(document, marker(), at + fragment.len())
            &&& document.take(at) + document.skip(at + fragment.len()) == shell
        }),
{
    lemma_first_occurrence_none(shell, marker());
    let at = first_occurrence(shell, marker())->0;
    let document = injected(shell, fragment);
    assert(occurs_at(shell, marker(), at));
    assert(document.subrange(at, at + fragment.len()) =~= fragment);
    assert(document.subrange(at + fragment.len(), at + fragment.len() + marker().len())
        =~= shell.subrange(at, at + marker().len()));
    assert(document.take(at) + document.skip(at + fragment.len()) =~= shell);
}

/// Injection keeps the number of closing head tags, for every fragment that
/// brings none of its own.
pub proof fn lemma_inject_keeps_marker_count(shell: Seq<char>, fragment: Seq<char>)
    requires
        adds_no_marker(shell, fragment),
    ensures
        occurrences(injected(shell, fragment), marker()) == occurrences(shell, marker()),
{
    match first_occurrence(shell, marker()) {
        Some(at) => {
            assert(occurs_at(shell, marker(), at));
            lemma_no_occurrences_below(shell, marker(), at);
            lemma_no_occurrences_below(injected(shell, fragment), marker(), at + fragment.len());
            lemma_shifted_occurrences(shell, fragment, at, shell.len() as int + 1);
        },
        None => {},
    }
}

/// Whether the character at position `at`, if it is a `<`, is followed by a
/// character other than `/`.
pub open spec fn no_closing_tag_at(text: Seq<char>, at: int) -> bool {
    text[at] == '<' ==> at + 1 < text.len() && text[at + 1] != '/'
}

/// A text that opens tags and closes none: it is empty or begins with `<`,
/// and each `<` in it is followed by a character other than `/`.
pub open spec fn opens_tags_only(text: Seq<char>) -> bool {
    &&& text.len() > 0 ==> text[0] == '<'
    &&& forall|at: int| 0 <= at < text.len() ==> #[trigger] no_closing_tag_at(text, at)
}

/// A fragment that opens tags and closes none brings no closing head tag,
/// whatever the shell holds around it.
pub proof fn lemma_opening_tags_add_no_marker(shell: Seq<char>, fragment: Seq<char>)
    requires
        opens_tags_only(fragment),
    ensures
        adds_no_marker(shell, fragment),
{
    reveal_strlit("</head>");
    match first_occurrence(shell, marker()) {
        Some(at) => {
            lemma_first_occurrence_none(shell, marker());
            assert(occurs_at(shell, marker(), at));
            let document = injected(shell, fragment);
            let width = marker().len() as int;
            assert forall|i: int| 0 <= i < at + fragment.len() implies !occurs_at(
                document,
                marker(),
                i,
            ) by {
                if occurs_at(document, marker(), i) {
                    let window = document.subrange(i, i + width);
                    assert(window[0] == '<' && window[1] == '/');
                    if i >= at {
                        assert(no_closing_tag_at(fragment, i - at));
                        assert(window[0] == fragment[i - at]);
                        assert(window[1] == document[i + 1]);
                        assert(document[i + 1] == fragment[i + 1 - at]);
                        assert(false);
                    } else if fragment.len() == 0 {
                        assert(document =~= shell);
                        assert(occurs_at(shell, marker(), i));
                        assert(false);
                    } else if i + width <= at {
                        assert(window =~= shell.subrange(i, i + width));
                        assert(occurs_at(shell, marker(), i));
                        assert(false);
                    } else {
                        let k = at - i;
                        assert(1 <= k < width);
                        assert(window[k] == document[at]);
                        assert(document[at] == fragment[0]);
                        assert(marker()[k] != '<');
                        assert(false);
                    }
                }
            }
        },
        None => {},
    }
}

/// From the first closing head tag on, the document holds the shell's text
/// moved by the fragment's length, and so the same occurrences.
proof fn lemma_shifted_occurrences(shell: Seq<char>, fragment: Seq<char>, at: int, limit: int)
    requires
        first_occurrence(shell, marker()) == Some(at),
        0 <= at <= shell.len(),
        at <= limit,
        occurrences_below(shell, marker(), at) == occurrences_below(
            injected(shell, fragment),
            marker(),
            at + fragment.len(),
        ),
    ensures
        occurrences_below(shell, marker(), limit) == occurrences_below(
            injected(shell, fragment),
            marker(),
            limit + fragment.len(),
        ),
    decreases limit - at,
{
    if limit > at {
        lemma_shifted_occurrences(shell, fragment, at, limit - 1);
        let document = injected(shell, fragment);
        let i = limit - 1;
        let width = marker().len();
        if i + width <= shell.len() {
            assert(document.subrange(i + fragment.len(), i + fragment.len() + width)
                =~= shell.subrange(i, i + width));
        }
        assert(occurs_at(shell, marker(), i) == occurs_at(document, marker(), i + fragment.len()));
    }
}

} // verus!
