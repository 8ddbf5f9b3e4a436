//! The JSON Feed data model: a feed's metadata and its ordered list of items,
//! with plain string fields, together with the ghost views that the contracts
//! of the parser, the normalizer and the renderer speak of.

use vstd::prelude::*;

verus! {

/// Why a JSON Feed document was rejected by [`crate::parse::parse`].
#[derive(Clone, Copy, PartialEq, Eq, Structural, Debug)]
pub enum ParseError {
    /// The input is not well-formed JSON, or text follows the document.
    Syntax,
    /// A known field carries a value of the wrong JSON type, or the document
    /// is not a JSON object.
    FieldType,
    /// A required field is absent: `title` on the feed, `id` on an item,
    /// `url` or `mime_type` on an attachment.
    MissingField,
}

/// Why rendering failed: the chosen feed-level `updated` string could not be
/// parsed as an RFC 3339 timestamp, so no freshness decision is possible.
#[derive(Clone, Copy, PartialEq, Eq, Structural, Debug)]
pub enum RenderError {
    Timestamp,
}

/// A feed or item author.
#[derive(Clone, Debug)]
pub struct Author {
    pub name: Option<String>,
    pub url: Option<String>,
    pub avatar: Option<String>,
}

/// Ghost view of an [`Author`].
pub struct AuthorView {
    pub name: Option<Seq<char>>,
    pub url: Option<Seq<char>>,
    pub avatar: Option<Seq<char>>,
}

impl DeepView for Author {
    type V = AuthorView;

    open spec fn deep_view(&self) -> AuthorView {
        AuthorView {
            name: self.name.deep_view(),
            url: self.url.deep_view(),
            avatar: self.avatar.deep_view(),
        }
    }
}

/// A linked media resource attached to an item.
#[derive(Clone, Debug)]
pub struct Attachment {
    pub url: String,
    pub mime_type: String,
    pub title: Option<String>,
    pub size_in_bytes: Option<u64>,
    pub duration_in_seconds: Option<u64>,
}

/// Ghost view of an [`Attachment`].
pub struct AttachmentView {
    pub url: Seq<char>,
    pub mime_type: Seq<char>,
    pub title: Option<Seq<char>>,
    pub size_in_bytes: Option<u64>,
    pub duration_in_seconds: Option<u64>,
}

impl DeepView for Attachment {
    type V = AttachmentView;

    open spec fn deep_view(&self) -> AttachmentView {
        AttachmentView {
            url: self.url@,
            mime_type: self.mime_type@,
            title: self.title.deep_view(),
            size_in_bytes: self.size_in_bytes,
            duration_in_seconds: self.duration_in_seconds,
        }
    }
}

/// A WebSub hub; parsed but never rendered.
#[derive(Clone, Debug)]
pub struct Hub {
    pub hub_type: Option<String>,
    pub url: Option<String>,
}

/// Ghost view of a [`Hub`].
pub struct HubView {
    pub hub_type: Option<Seq<char>>,
    pub url: Option<Seq<char>>,
}

impl DeepView for Hub {
    type V = HubView;

    open spec fn deep_view(&self) -> HubView {
        HubView { hub_type: self.hub_type.deep_view(), url: self.url.deep_view() }
    }
}

/// One feed entry. Only `id` is required.
#[derive(Clone, Debug)]
pub struct Item {
    pub id: String,
    pub url: Option<String>,
    pub external_url: Option<String>,
    pub title: Option<String>,
    pub content_html: Option<String>,
    pub content_text: Option<String>,
    pub summary: Option<String>,
    pub image: Option<String>,
    pub banner_image: Option<String>,
    pub date_published: Option<String>,
    pub date_modified: Option<String>,
    pub author: Option<Author>,
    pub authors: Option<Vec<Author>>,
    pub tags: Option<Vec<String>>,
    pub language: Option<String>,
    pub attachments: Option<Vec<Attachment>>,
}

/// Ghost view of an [`Item`].
pub struct ItemView {
    pub id: Seq<char>,
    pub url: Option<Seq<char>>,
    pub external_url: Option<Seq<char>>,
    pub title: Option<Seq<char>>,
    pub content_html: Option<Seq<char>>,
    pub content_text: Option<Seq<char>>,
    pub summary: Option<Seq<char>>,
    pub image: Option<Seq<char>>,
    pub banner_image: Option<Seq<char>>,
    pub date_published: Option<Seq<char>>,
    pub date_modified: Option<Seq<char>>,
    pub author: Option<AuthorView>,
    pub authors: Option<Seq<AuthorView>>,
    pub tags: Option<Seq<Seq<char>>>,
    pub language: Option<Seq<char>>,
    pub attachments: Option<Seq<AttachmentView>>,
}

impl DeepView for Item {
    type V = ItemView;

    open spec fn deep_view(&self) -> ItemView {
        ItemView {
            id: self.id@,
            url: self.url.deep_view(),
            external_url: self.external_url.deep_view(),
            title: self.title.deep_view(),
            content_html: self.content_html.deep_view(),
            content_text: self.content_text.deep_view(),
            summary: self.summary.deep_view(),
            image: self.image.deep_view(),
            banner_image: self.banner_image.deep_view(),
            date_published: self.date_published.deep_view(),
            date_modified: self.date_modified.deep_view(),
            author: self.author.deep_view(),
            authors: self.authors.deep_view(),
            tags: self.tags.deep_view(),
            language: self.language.deep_view(),
            attachments: self.attachments.deep_view(),
        }
    }
}

/// A whole feed. Only `title` is required.
///
/// `author` is the legacy single-author field of JSON Feed 1.0; after
/// [`crate::normalize::normalize_feed`] it is always absent.
#[derive(Clone, Debug)]
pub struct Feed {
    pub version: Option<String>,
    pub title: String,
    pub home_page_url: Option<String>,
    pub feed_url: Option<String>,
    pub description: Option<String>,
    pub user_comment: Option<String>,
    pub next_url: Option<String>,
    pub icon: Option<String>,
    pub favicon: Option<String>,
    pub language: Option<String>,
    pub expired: Option<bool>,
    pub author: Option<Author>,
    pub authors: Option<Vec<Author>>,
    pub hubs: Option<Vec<Hub>>,
    pub items: Option<Vec<Item>>,
}

/// Ghost view of a [`Feed`].
pub struct FeedView {
    pub version: Option<Seq<char>>,
    pub title: Seq<char>,
    pub home_page_url: Option<Seq<char>>,
    pub feed_url: Option<Seq<char>>,
    pub description: Option<Seq<char>>,
    pub user_comment: Option<Seq<char>>,
    pub next_url: Option<Seq<char>>,
    pub icon: Option<Seq<char>>,
    pub favicon: Option<Seq<char>>,
    pub language: Option<Seq<char>>,
    pub expired: Option<bool>,
    pub author: Option<AuthorView>,
    pub authors: Option<Seq<AuthorView>>,
    pub hubs: Option<Seq<HubView>>,
    pub items: Option<Seq<ItemView>>,
}

impl DeepView for Feed {
    type V = FeedView;

    open spec fn deep_view(&self) -> FeedView {
        FeedView {
            version: self.version.deep_view(),
            title: self.title@,
            home_page_url: self.home_page_url.deep_view(),
            feed_url: self.feed_url.deep_view(),
            description: self.description.deep_view(),
            user_comment: self.user_comment.deep_view(),
            next_url: self.next_url.deep_view(),
            icon: self.icon.deep_view(),
            favicon: self.favicon.deep_view(),
            language: self.language.deep_view(),
            expired: self.expired,
            author: self.author.deep_view(),
            authors: self.authors.deep_view(),
            hubs: self.hubs.deep_view(),
            items: self.items.deep_view(),
        }
    }
}

} // verus!
