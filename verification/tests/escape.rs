use card_preview::create_meta;

#[test]
fn plain_tag() {
    assert_eq!(
        create_meta("og:title", "Hello"),
        "<meta property=\"og:title\" content=\"Hello\" />"
    );
}

#[test]
fn empty_property_and_content() {
    assert_eq!(create_meta("", ""), "<meta property=\"\" content=\"\" />");
}

#[test]
fn tag_has_no_trailing_newline() {
    let tag = create_meta("title", "T");
    assert!(tag.ends_with(" />"));
    assert!(!tag.contains('\n'));
}

#[test]
fn less_than_is_escaped() {
    assert_eq!(
        create_meta("p", "<"),
        "<meta property=\"p\" content=\"&lt;\" />"
    );
}

#[test]
fn all_five_markup_characters_are_escaped_in_content() {
    assert_eq!(
        create_meta("p", "<a href=\"x\">Tom & 'Jerry'</a>"),
        "<meta property=\"p\" content=\"&lt;a href=&quot;x&quot;&gt;Tom &amp; &#x27;Jerry&#x27;&lt;/a&gt;\" />"
    );
}

#[test]
fn property_name_is_escaped_too() {
    assert_eq!(
        create_meta("a\"b<c", "v"),
        "<meta property=\"a&quot;b&lt;c\" content=\"v\" />"
    );
}

#[test]
fn text_that_looks_escaped_is_escaped_again() {
    assert_eq!(
        create_meta("p", "&amp;"),
        "<meta property=\"p\" content=\"&amp;amp;\" />"
    );
}

#[test]
fn characters_outside_ascii_are_kept() {
    assert_eq!(
        create_meta("p", "caf\u{e9} \u{1F600} \u{43f}\u{440}"),
        "<meta property=\"p\" content=\"caf\u{e9} \u{1F600} \u{43f}\u{440}\" />"
    );
}

#[test]
fn quote_in_content_does_not_end_the_attribute() {
    let tag = create_meta("title", "say \"hi\" onload=\"x");
    assert_eq!(
        tag,
        "<meta property=\"title\" content=\"say &quot;hi&quot; onload=&quot;x\" />"
    );
    assert_eq!(tag.matches('"').count(), 4);
}

#[test]
fn escaped_values_hold_no_markup_character() {
    let inputs = ["<", ">", "&", "\"", "'", "a<b>c&d\"e'f", "<<<>>>", "&&", "\"\"\"", ""];
    for input in inputs {
        let tag = create_meta(input, input);
        let rest = tag.strip_prefix("<meta property=\"").unwrap();
        let rest = rest.strip_suffix("\" />").unwrap();
        let values: Vec<&str> = rest.split("\" content=\"").collect();
        assert_eq!(values.len(), 2);
        for value in values {
            assert!(!value.contains('<'));
            assert!(!value.contains('>'));
            assert!(!value.contains('"'));
            assert!(!value.contains('\''));
            for (at, _) in value.match_indices('&') {
                let tail = &value[at..];
                assert!(
                    tail.starts_with("&quot;")
                        || tail.starts_with("&amp;")
                        || tail.starts_with("&#x27;")
                        || tail.starts_with("&lt;")
                        || tail.starts_with("&gt;")
                );
            }
        }
    }
}

#[test]
fn escaped_value_reads_back_as_the_input() {
    let input = "Tom & \"Jerry\" <3 'cheese' &amp; more";
    let tag = create_meta("title", input);
    let rest = tag.strip_prefix("<meta property=\"title\" content=\"").unwrap();
    let value = rest.strip_suffix("\" />").unwrap();
    let back = value
        .replace("&quot;", "\"")
        .replace("&#x27;", "'")
        .replace("&lt;", "<")
        .replace("&gt;", ">")
        .replace("&amp;", "&");
    assert_eq!(back, input);
}
