//! The site's configuration, a card's record, and the meta tags that describe
//! a card to link-preview crawlers.

use crate::decimal::{append_decimal, decimal};
use crate::escape::{create_meta, escaped, inert, lemma_escaped_is_inert, meta_tag};
use crate::template::{no_closing_tag_at, opens_tags_only};
use vstd::prelude::*;

verus! {

/// Settings of the site, fixed at startup and shared by all requests.
#[derive(Debug, Clone, PartialEq, Eq)]
pub struct Config {
    /// Public base URL of the site, the prefix of every card's page address.
    pub public_url: String,
    /// Base URL under which preview images are served.
    pub image_url: String,
    /// Base URL of the backend that holds the cards.
    pub backend_url: String,
    /// Display name of the site.
    pub sitename: String,
    /// Where the HTML shell is read from at startup.
    pub index_html_path: String,
}

/// A `Config` as plain texts.
pub ghost struct ConfigView {
    pub public_url: Seq<char>,
    pub image_url: Seq<char>,
    pub backend_url: Seq<char>,
    pub sitename: Seq<char>,
    pub index_html_path: Seq<char>,
}

impl View for Config {
    type V = ConfigView;

    open spec fn view(&self) -> ConfigView {
        ConfigView {
            public_url: self.public_url@,
            image_url: self.image_url@,
            backend_url: self.backend_url@,
            sitename: self.sitename@,
            index_html_path: self.index_html_path@,
        }
    }
}

/// A card as the backend describes it. The two timestamps are passed through
/// as they came; `preview_url`, where present, is the path of the card's
/// preview image below the image base URL.
#[derive(Debug, Clone, PartialEq, Eq)]
pub struct Card {
    pub title: String,
    pub description: String,
    pub id: i32,
    pub created_at: String,
    pub updated_at: String,
    pub preview_url: Option<String>,
}

/// A `Card` as plain texts and a mathematical integer.
pub ghost struct CardView {
    pub title: Seq<char>,
    pub description: Seq<char>,
    pub id: int,
    pub created_at: Seq<char>,
    pub updated_at: Seq<char>,
    pub preview_url: Option<Seq<char>>,
}

impl View for Card {
    type V = CardView;

    open spec fn view(&self) -> CardView {
        CardView {
            title: self.title@,
            description: self.description@,
            id: self.id as int,
            created_at: self.created_at@,
            updated_at: self.updated_at@,
            preview_url: match self.preview_url {
                Some(url) => Some(url@),
                None => None,
            },
        }
    }
}

/// One meta tag before rendering: a property name and its content.
pub ghost struct MetaTag {
    pub property: Seq<char>,
    pub content: Seq<char>,
}

/// Address of a card's page on the public site.
pub open spec fn page_url(config: ConfigView, card: CardView) -> Seq<char> {
    config.public_url + "/open/"@ + decimal(card.id)
}

/// Address of a preview image.
pub open spec fn preview_image_url(config: ConfigView, preview: Seq<char>) -> Seq<char> {
    config.image_url + "/"@ + preview
}

/// Address of the backend's metadata endpoint for a card.
pub open spec fn backend_meta_url(config: ConfigView, card_id: int) -> Seq<char> {
    config.backend_url + "/api/cards/"@ + decimal(card_id) + "/meta/"@
}

/// The Twitter card variant: the large one needs an image.
pub open spec fn twitter_card_kind(card: CardView) -> Seq<char> {
    if card.preview_url is Some {
        "summary_large_image"@
    } else {
        "summary"@
    }
}

/// The image tag with the given property name: one tag where the card has a
/// preview image, none where it has not.
pub open spec fn image_tags(property: Seq<char>, config: ConfigView, card: CardView) -> Seq<
    MetaTag,
> {
    match card.preview_url {
        Some(preview) => seq![
            MetaTag { property, content: preview_image_url(config, preview) },
        ],
        None => Seq::empty(),
    }
}

/// The tags that every card has, up to and including `og:url`.
pub open spec fn head_tags(config: ConfigView, card: CardView) -> Seq<MetaTag> {
    seq![
        MetaTag { property: "title"@, content: card.title },
        MetaTag { property: "description"@, content: card.description },
        MetaTag { property: "og:site_name"@, content: config.sitename },
        MetaTag { property: "og:type"@, content: "article"@ },
        MetaTag { property: "og:title"@, content: card.title },
        MetaTag { property: "og:description"@, content: card.description },
        MetaTag { property: "og:url"@, content: page_url(config, card) },
    ]
}

/// The tags that every card has, from `article:published_time` on.
pub open spec fn tail_tags(config: ConfigView, card: CardView) -> Seq<MetaTag> {
    seq![
        MetaTag { property: "article:published_time"@, content: card.created_at },
        MetaTag { property: "article:modified_time"@, content: card.updated_at },
        MetaTag { property: "twitter:card"@, content: twitter_card_kind(card) },
        MetaTag { property: "twitter:site"@, content: "@howtocards_io"@ },
        MetaTag { property: "twitter:title"@, content: card.title },
        MetaTag { property: "twitter:description"@, content: card.description },
    ]
}

/// The thirteen tags that do not depend on a preview image, in their order.
pub open spec fn unconditional_tags(config: ConfigView, card: CardView) -> Seq<MetaTag> {
    head_tags(config, card) + tail_tags(config, card)
}

/// All tags of a card, in the order in which they are emitted: `og:image`
/// follows `og:url` and `twitter:image` comes last, both only for a card with
/// a preview image.
pub open spec fn card_tags(config: ConfigView, card: CardView) -> Seq<MetaTag> {
    head_tags(config, card) + image_tags("og:image"@, config, card) + tail_tags(config, card)
        + image_tags("twitter:image"@, config, card)
}

/// Each tag rendered as text.
pub open spec fn rendered(tags: Seq<MetaTag>) -> Seq<Seq<char>> {
    tags.map_values(|tag: MetaTag| meta_tag(tag.property, tag.content))
}

/// Texts joined by single newlines: none before the first, none after the
/// last.
pub open spec fn lines(parts: Seq<Seq<char>>) -> Seq<char>
    decreases parts.len(),
{
    if parts.len() == 0 {
        Seq::empty()
    } else if parts.len() == 1 {
        parts[0]
    } else {
        lines(parts.drop_last()) + seq!['\n'] + parts.last()
    }
}

/// The head fragment for a card: its tags, rendered and joined by newlines.
pub open spec fn fragment(config: ConfigView, card: CardView) -> Seq<char> {
    lines(rendered(card_tags(config, card)))
}

/// The texts that a sequence of strings holds.
pub open spec fn texts(parts: Seq<String>) -> Seq<Seq<char>> {
    parts.map_values(|part: String| part@)
}

/// Joins strings with single newlines.
pub fn join_lines(parts: &Vec<String>) -> (out: String)
    ensures
        out@ == lines(texts(parts@)),
{
    let mut out = String::new();
    let mut i: usize = 0;
    while i < parts.len()
        invariant
            i <= parts.len(),
            out@ == lines(texts(parts@.take(i as int))),
        decreases parts.len() - i,
    {
        if i > 0 {
            out.append("\n");
        }
        out.append(parts[i].as_str());
        proof {
            reveal_strlit("\n");
            assert("\n"@ =~= seq!['\n']);
            let before = texts(parts@.take(i as int));
            let after = texts(parts@.take(i + 1));
            assert(after.drop_last() =~= before);
            assert(after.last() == parts@[i as int]@);
            if i == 0 {
                assert(out@ =~= parts@[0]@);
            }
        }
        i = i + 1;
    }
    proof {
        assert(parts@.take(i as int) =~= parts@);
    }
    out
}

impl Config {
    /// The head fragment for a card: thirteen tags for every card, and the two
    /// image tags for a card with a preview image, in a fixed order, joined by
    /// newlines. Each tag is built by `create_meta`, so every value is
    /// escaped.
    pub fn meta_for_card(&self, card: &Card) -> (html: String)
        ensures
            html@ == fragment(self@, card@),
    {
        let mut og_url = self.public_url.clone();
        og_url.append("/open/");
        append_decimal(&mut og_url, card.id as i64);

        let mut tags: Vec<String> = Vec::new();
        tags.push(create_meta("title", card.title.as_str()));
        tags.push(create_meta("description", card.description.as_str()));
        tags.push(create_meta("og:site_name", self.sitename.as_str()));
        tags.push(create_meta("og:type", "article"));
        tags.push(create_meta("og:title", card.title.as_str()));
        tags.push(create_meta("og:description", card.description.as_str()));
        tags.push(create_meta("og:url", og_url.as_str()));
        assert(texts(tags@) =~= rendered(head_tags(self@, card@)));
        match &card.preview_url {
            Some(preview) => {
                let mut image = self.image_url.clone();
                image.append("/");
                image.append(preview.as_str());
                tags.push(create_meta("og:image", image.as_str()));
            },
            None => {},
        }
        assert(texts(tags@) =~= rendered(
            head_tags(self@, card@) + image_tags("og:image"@, self@, card@),
        ));
        tags.push(create_meta("article:published_time", card.created_at.as_str()));
        tags.push(create_meta("article:modified_time", card.updated_at.as_str()));
        let kind = if card.preview_url.is_some() {
            "summary_large_image"
        } else {
            "summary"
        };
        tags.push(create_meta("twitter:card", kind));
        tags.push(create_meta("twitter:site", "@howtocards_io"));
        tags.push(create_meta("twitter:title", card.title.as_str()));
        tags.push(create_meta("twitter:description", card.description.as_str()));
        assert(texts(tags@) =~= rendered(
            head_tags(self@, card@) + image_tags("og:image"@, self@, card@) + tail_tags(
                self@,
                card@,
            ),
        ));
        match &card.preview_url {
            Some(preview) => {
                let mut image = self.image_url.clone();
                image.append("/");
                image.append(preview.as_str());
                tags.push(create_meta("twitter:image", image.as_str()));
            },
            None => {},
        }
        assert(texts(tags@) =~= rendered(card_tags(self@, card@)));
        join_lines(&tags)
    }

    /// The address of the backend's metadata endpoint for the card with the
    /// given identifier.
    pub fn backend_card_url(&self, card_id: u32) -> (url: String)
        ensures
            url@ == backend_meta_url(self@, card_id as int),
    {
        let mut url = self.backend_url.clone();
        url.append("/api/cards/");
        append_decimal(&mut url, card_id as i64);
        url.append("/meta/");
        url
    }
}

/// How many tags a card has, and which: the thirteen unconditional tags for
/// every card, none of them an image tag, and besides them `og:image` after
/// `og:url` and `twitter:image` at the end if and only if the card has a
/// preview image.
pub proof fn lemma_card_tags_cardinality(config: ConfigView, card: CardView)
    ensures
        unconditional_tags(config, card).len() == 13,
        forall|i: int|
            0 <= i < 13 ==> {
                &&& (#[trigger] unconditional_tags(config, card)[i]).property != "og:image"@
                &&& unconditional_tags(config, card)[i].property != "twitter:image"@
            },
        rendered(card_tags(config, card)).len() == card_tags(config, card).len(),
        card.preview_url is None ==> card_tags(config, card) == unconditional_tags(config, card),
        card.preview_url matches Some(preview) ==> {
            let tags = card_tags(config, card);
            let image = preview_image_url(config, preview);
            &&& tags.len() == 15
            &&& tags[7] == MetaTag { property: "og:image"@, content: image }
            &&& tags[14] == MetaTag { property: "twitter:image"@, content: image }
            &&& tags.remove(14).remove(7) == unconditional_tags(config, card)
        },
{
    reveal_strlit("og:image");
    reveal_strlit("twitter:image");
    reveal_strlit("title");
    reveal_strlit("description");
    reveal_strlit("og:site_name");
    reveal_strlit("og:type");
    reveal_strlit("og:title");
    reveal_strlit("og:description");
    reveal_strlit("og:url");
    reveal_strlit("article:published_time");
    reveal_strlit("article:modified_time");
    reveal_strlit("twitter:card");
    reveal_strlit("twitter:site");
    reveal_strlit("twitter:title");
    reveal_strlit("twitter:description");
    let plain = unconditional_tags(config, card);
    assert(plain.len() == 13);
    assert forall|i: int| 0 <= i < 13 implies {
        &&& (#[trigger] plain[i]).property != "og:image"@
        &&& plain[i].property != "twitter:image"@
    } by {
        let name = plain[i].property;
        if name.len() == 8 {
            assert(name[3] != "og:image"@[3]);
        }
        if name.len() == 13 {
            assert(name[8] != "twitter:image"@[8]);
        }
    }
    match card.preview_url {
        Some(preview) => {
            let tags = card_tags(config, card);
            assert(tags.remove(14).remove(7) =~= plain);
        },
        None => {
            assert(card_tags(config, card) =~= plain);
        },
    }
}

/// The text of one tag: it begins with `<m` and holds no other `<`.
spec fn opens_once(tag: Seq<char>) -> bool {
    &&& tag.len() >= 2
    &&& tag[0] == '<'
    &&& tag[1] == 'm'
    &&& forall|i: int| 1 <= i < tag.len() ==> tag[i] != '<'
}

/// Whether the character at position `at`, if it is a `<`, is followed by an
/// `m`.
spec fn meta_tag_at(text: Seq<char>, at: int) -> bool {
    text[at] == '<' ==> at + 1 < text.len() && text[at + 1] == 'm'
}

/// A text made of tags and what separates them: it begins with `<`, and each
/// `<` in it is followed by `m`.
spec fn opens_meta_only(text: Seq<char>) -> bool {
    &&& text.len() >= 2
    &&& text[0] == '<'
    &&& forall|at: int| 0 <= at < text.len() ==> #[trigger] meta_tag_at(text, at)
}

proof fn lemma_meta_tag_opens_once(property: Seq<char>, content: Seq<char>)
    ensures
        opens_once(meta_tag(property, content)),
{
    reveal_strlit("<meta property=\"");
    reveal_strlit("\" content=\"");
    reveal_strlit("\" />");
    lemma_escaped_is_inert(property);
    lemma_escaped_is_inert(content);
    let tag = meta_tag(property, content);
    let p = escaped(property).len() as int;
    let c = escaped(content).len() as int;
    assert forall|i: int| 1 <= i < tag.len() implies tag[i] != '<' by {
        if 16 <= i < 16 + p {
            assert(tag[i] == escaped(property)[i - 16]);
        } else if 27 + p <= i < 27 + p + c {
            assert(tag[i] == escaped(content)[i - 27 - p]);
        }
    }
}

proof fn lemma_lines_open_meta_only(parts: Seq<Seq<char>>)
    requires
        parts.len() > 0,
        forall|i: int| 0 <= i < parts.len() ==> opens_once(#[trigger] parts[i]),
    ensures
        opens_meta_only(lines(parts)),
    decreases parts.len(),
{
    if parts.len() > 1 {
        let before = lines(parts.drop_last());
        let tag = parts.last();
        assert forall|i: int| 0 <= i < parts.drop_last().len() implies opens_once(
            #[trigger] parts.drop_last()[i],
        ) by {
            assert(parts.drop_last()[i] == parts[i]);
        }
        lemma_lines_open_meta_only(parts.drop_last());
        let text = lines(parts);
        assert(text == before + seq!['\n'] + tag);
        assert(opens_once(tag));
        assert forall|i: int| 0 <= i < text.len() implies #[trigger] meta_tag_at(text, i) by {
            if i < before.len() {
                assert(meta_tag_at(before, i));
                assert(text[i] == before[i]);
                if i + 1 < before.len() {
                    assert(text[i + 1] == before[i + 1]);
                }
            } else if i > before.len() {
                let j = i - before.len() - 1;
                assert(text[i] == tag[j]);
                if j == 0 {
                    assert(text[i + 1] == tag[1]);
                }
            }
        }
    } else {
        assert(opens_once(parts[0]));
    }
}

/// The fragment of any card opens tags and closes none.
pub proof fn lemma_fragment_opens_tags_only(config: ConfigView, card: CardView)
    ensures
        opens_tags_only(fragment(config, card)),
{
    let tags = card_tags(config, card);
    let parts = rendered(tags);
    assert(parts.len() == tags.len());
    assert(head_tags(config, card).len() == 7);
    assert forall|i: int| 0 <= i < parts.len() implies opens_once(#[trigger] parts[i]) by {
        lemma_meta_tag_opens_once(tags[i].property, tags[i].content);
    }
    lemma_lines_open_meta_only(parts);
    let text = fragment(config, card);
    assert forall|at: int| 0 <= at < text.len() implies #[trigger] no_closing_tag_at(
        text,
        at,
    ) by {
        assert(meta_tag_at(text, at));
    }
}

} // verus!
