//! HTML escaping of text and the `<meta>` tag built from escaped text.

use crate::text::occurs_at;
use vstd::prelude::*;

verus! {

/// What one character becomes when it is escaped: the five characters with a
/// meaning in HTML markup are replaced by an entity, every other character is
/// kept.
pub open spec fn entity(c: char) -> Seq<char> {
    if c == '"' {
        seq!['&', 'q', 'u', 'o', 't', ';']
    } else if c == '&' {
        seq!['&', 'a', 'm', 'p', ';']
    } else if c == '\'' {
        seq!['&', '#', 'x', '2', '7', ';']
    } else if c == '<' {
        seq!['&', 'l', 't', ';']
    } else if c == '>' {
        seq!['&', 'g', 't', ';']
    } else {
        seq![c]
    }
}

/// The escaped form of a text: the entities of its characters, in order.
pub open spec fn escaped(s: Seq<char>) -> Seq<char>
    decreases s.len(),
{
    if s.len() == 0 {
        Seq::empty()
    } else {
        entity(s[0]) + escaped(s.drop_first())
    }
}

/// The text of a `<meta>` tag with the given property name and content, both
/// escaped.
pub open spec fn meta_tag(property: Seq<char>, content: Seq<char>) -> Seq<char> {
    "<meta property=\""@ + escaped(property) + "\" content=\""@ + escaped(content) + "\" />"@
}

/// Escapes a text with `htmlescape::encode_minimal`.
///
/// Trusted, not proved: the result is the input with each `"`, `&`, `'`, `<`
/// and `>` replaced by `&quot;`, `&amp;`, `&#x27;`, `&lt;` and `&gt;`, and every
/// other character copied, which is what the encoder does character by
/// character with its table of five entities.
#[verifier::external_body]
fn encode_minimal(s: &str) -> (out: String)
    ensures
        out@ == escaped(s@),
{
    htmlescape::encode_minimal(s)
}

/// Renders one `<meta property="..." content="..." />` tag. Both the property
/// name and the content are escaped, so that neither can end the attribute it
/// stands in. The tag carries no trailing newline.
pub fn create_meta(prop: &str, content: &str) -> (tag: String)
    ensures
        tag@ == meta_tag(prop@, content@),
{
    let mut tag = String::from_str("<meta property=\"");
    tag.append(encode_minimal(prop).as_str());
    tag.append("\" content=\"");
    tag.append(encode_minimal(content).as_str());
    tag.append("\" />");
    tag
}

/// The five characters that have a meaning in HTML markup.
pub open spec fn is_markup(c: char) -> bool {
    c == '"' || c == '&' || c == '\'' || c == '<' || c == '>'
}

/// Whether one of the five entities stands in `text` at position `at`.
pub open spec fn entity_at(text: Seq<char>, at: int) -> bool {
    exists|c: char| is_markup(c) && occurs_at(text, #[trigger] entity(c), at)
}

/// A text that markup cannot be made of: it holds no `<`, `>`, `"` or `'`,
/// and each `&` in it begins one of the five entities.
pub open spec fn inert(text: Seq<char>) -> bool {
    forall|i: int|
        0 <= i < text.len() ==> {
            &&& text[i] != '<'
            &&& text[i] != '>'
            &&& text[i] != '"'
            &&& text[i] != '\''
            &&& text[i] == '&' ==> entity_at(text, i)
        }
}

/// The text that an escaped text stands for: each entity read as its
/// character, from left to right, every other character kept.
pub open spec fn unescaped(text: Seq<char>) -> Seq<char>
    decreases text.len(),
{
    if text.len() == 0 {
        Seq::empty()
    } else if occurs_at(text, entity('"'), 0) {
        seq!['"'] + unescaped(text.skip(6))
    } else if occurs_at(text, entity('&'), 0) {
        seq!['&'] + unescaped(text.skip(5))
    } else if occurs_at(text, entity('\''), 0) {
        seq!['\''] + unescaped(text.skip(6))
    } else if occurs_at(text, entity('<'), 0) {
        seq!['<'] + unescaped(text.skip(4))
    } else if occurs_at(text, entity('>'), 0) {
        seq!['>'] + unescaped(text.skip(4))
    } else {
        seq![text[0]] + unescaped(text.drop_first())
    }
}

/// Escaping leaves no character that could open or close markup or end an
/// attribute value: whatever the input holds, `<`, `>`, `"` and `'` are gone
/// from the output, and every `&` of the output begins an entity.
pub proof fn lemma_escaped_is_inert(s: Seq<char>)
    ensures
        inert(escaped(s)),
    decreases s.len(),
{
    if s.len() > 0 {
        let first = entity(s[0]);
        let rest = escaped(s.drop_first());
        let whole = escaped(s);
        lemma_escaped_is_inert(s.drop_first());
        assert forall|i: int| 0 <= i < whole.len() implies {
            &&& whole[i] != '<'
            &&& whole[i] != '>'
            &&& whole[i] != '"'
            &&& whole[i] != '\''
            &&& whole[i] == '&' ==> entity_at(whole, i)
        } by {
            if i < first.len() {
                if whole[i] == '&' {
                    assert(i == 0);
                    assert(is_markup(s[0]));
                    assert(whole.subrange(0, first.len() as int) =~= first);
                    assert(occurs_at(whole, entity(s[0]), 0));
                }
            } else {
                let j = i - first.len();
                assert(whole[i] == rest[j]);
                if rest[j] == '&' {
                    let c = choose|c: char| is_markup(c) && occurs_at(rest, #[trigger] entity(c), j);
                    assert(whole.subrange(i, i + entity(c).len()) =~= rest.subrange(
                        j,
                        j + entity(c).len(),
                    ));
                    assert(occurs_at(whole, entity(c), i));
                }
            }
        }
    }
}

/// An entity at the head of a text is read as its character; a character that
/// is not markup is read as itself.
proof fn lemma_unescaped_head(c: char, rest: Seq<char>)
    ensures
        unescaped(entity(c) + rest) == seq![c] + unescaped(rest),
{
    let text = entity(c) + rest;
    let head = entity(c);
    assert(text.len() >= head.len());
    assert(text.subrange(0, head.len() as int) =~= head);
    assert(text.skip(head.len() as int) =~= rest);
    assert forall|other: char| is_markup(other) && other != c implies !occurs_at(
        text,
        #[trigger] entity(other),
        0,
    ) by {
        let width = entity(other).len() as int;
        if width <= text.len() {
            let window = text.subrange(0, width);
            assert(window[0] == text[0]);
            assert(window[1] == text[1]);
        }
    }
    if is_markup(c) {
        assert(occurs_at(text, entity(c), 0));
    } else {
        assert(text.drop_first() =~= rest);
    }
}

/// Reading an escaped text gives the text back.
pub proof fn lemma_unescaped_escaped(s: Seq<char>)
    ensures
        unescaped(escaped(s)) == s,
    decreases s.len(),
{
    if s.len() > 0 {
        lemma_unescaped_escaped(s.drop_first());
        lemma_unescaped_head(s[0], escaped(s.drop_first()));
        assert(seq![s[0]] + s.drop_first() =~= s);
    }
}

/// Where the attribute values stand in a tag, and that nothing in them can
/// end them. A tag holds four double quotes, the delimiters of its two
/// attribute values; between them stand the escaped property name and the
/// escaped content, which are inert and read back as the texts given.
pub proof fn lemma_meta_tag_attributes(property: Seq<char>, content: Seq<char>)
    ensures
        ({
            let tag = meta_tag(property, content);
            let p = escaped(property).len() as int;
            let c = escaped(content).len() as int;
            &&& tag.len() == 31 + p + c
            &&& forall|i: int|
                0 <= i < tag.len() ==> (tag[i] == '"' <==> (i == 15 || i == 16 + p || i == 26 + p
                    || i == 27 + p + c))
            &&& tag.subrange(16, 16 + p) == escaped(property)
            &&& tag.subrange(27 + p, 27 + p + c) == escaped(content)
            &&& inert(tag.subrange(16, 16 + p))
            &&& inert(tag.subrange(27 + p, 27 + p + c))
            &&& unescaped(tag.subrange(16, 16 + p)) == property
            &&& unescaped(tag.subrange(27 + p, 27 + p + c)) == content
        }),
{
    reveal_strlit("<meta property=\"");
    reveal_strlit("\" content=\"");
    reveal_strlit("\" />");
    lemma_escaped_is_inert(property);
    lemma_escaped_is_inert(content);
    lemma_unescaped_escaped(property);
    lemma_unescaped_escaped(content);
    let tag = meta_tag(property, content);
    let p = escaped(property).len() as int;
    let c = escaped(content).len() as int;
    assert(tag.subrange(16, 16 + p) =~= escaped(property));
    assert(tag.subrange(27 + p, 27 + p + c) =~= escaped(content));
}

} // verus!
