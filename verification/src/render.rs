//! Rendering of a normalized feed as an Atom XML document.
//!
//! Rendering is a pure string-building pass: no value is escaped, and text is
//! copied verbatim into the markup, exactly as the field-mapping rules say.
//! The feed-level `updated` element carries the derived `updated` string, and
//! the same string is parsed into an [`Instant`] that callers use for the
//! freshness decision.

use vstd::prelude::*;
use crate::chars::chars_to_string;
use crate::instant::{parse_rfc3339, parsed_rfc3339, now_rfc3339, Instant};
use crate::model::{
    Attachment,
    AttachmentView,
    Author,
    AuthorView,
    Feed,
    FeedView,
    Item,
    ItemView,
    RenderError,
};
use crate::updated::feed_updated_string;

verus! {

/// `pre + v + post` where `v` is present, nothing where it is absent.
pub open spec fn opt_wrap(pre: Seq<char>, v: Option<Seq<char>>, post: Seq<char>) -> Seq<char> {
    match v {
        Some(s) => pre + s + post,
        None => Seq::<char>::empty(),
    }
}

/// The character for one decimal digit.
pub open spec fn digit_char(d: int) -> char {
    if d == 0 {
        '0'
    } else if d == 1 {
        '1'
    } else if d == 2 {
        '2'
    } else if d == 3 {
        '3'
    } else if d == 4 {
        '4'
    } else if d == 5 {
        '5'
    } else if d == 6 {
        '6'
    } else if d == 7 {
        '7'
    } else if d == 8 {
        '8'
    } else {
        '9'
    }
}

/// The decimal digit characters of `n`, most significant first.
pub open spec fn dec_str(n: int) -> Seq<char>
    recommends
        n >= 0,
    decreases n,
{
    if n < 10 {
        seq![digit_char(n)]
    } else {
        dec_str(n / 10).push(digit_char(n % 10))
    }
}

fn digit_char_of(d: u64) -> (c: char)
    requires
        d < 10,
    ensures
        c == digit_char(d as int),
{
    if d == 0 {
        '0'
    } else if d == 1 {
        '1'
    } else if d == 2 {
        '2'
    } else if d == 3 {
        '3'
    } else if d == 4 {
        '4'
    } else if d == 5 {
        '5'
    } else if d == 6 {
        '6'
    } else if d == 7 {
        '7'
    } else if d == 8 {
        '8'
    } else {
        '9'
    }
}

/// The decimal representation of `n`.
pub fn u64_to_string(n: u64) -> (r: String)
    ensures
        r@ == dec_str(n as int),
{
    let mut digits: Vec<char> = Vec::new();
    let mut m: u64 = n;
    if m == 0 {
        let r = String::from_str("0");
        proof {
            reveal_strlit("0");
            assert(r@ =~= dec_str(0));
        }
        return r;
    }
    while m > 0
        invariant
            m > 0 ==> dec_str(n as int) == dec_str(m as int) + digits@,
            m == 0 ==> dec_str(n as int) == digits@,
        decreases m,
    {
        let ghost m0 = m as int;
        let ghost d0 = digits@;
        let d: u64 = m % 10;
        let c: char = digit_char_of(d);
        digits.insert(0, c);
        m = m / 10;
        proof {
            assert(digits@ =~= seq![c] + d0);
            if m0 < 10 {
                assert(dec_str(m0) == seq![c]);
                assert(dec_str(n as int) =~= digits@);
            } else {
                assert(dec_str(m0) == dec_str(m0 / 10).push(digit_char(m0 % 10)));
                assert(dec_str(n as int) =~= dec_str(m as int) + digits@);
            }
        }
    }
    chars_to_string(&digits)
}

/// One Atom `author` element: a `name` (empty when absent) and an optional
/// `uri`.
pub open spec fn atom_author(a: AuthorView) -> Seq<char> {
    "<author>\n<name>"@ + (match a.name {
        Some(n) => n,
        None => Seq::<char>::empty(),
    }) + "</name>\n"@ + opt_wrap("<uri>"@, a.url, "</uri>\n"@) + "</author>\n"@
}

/// One author element per entry of the sequence, in order.
pub open spec fn atom_authors(authors: Seq<AuthorView>) -> Seq<char>
    decreases authors.len(),
{
    if authors.len() == 0 {
        Seq::<char>::empty()
    } else {
        atom_authors(authors.drop_last()) + atom_author(authors.last())
    }
}

/// The fallback author element: Atom requires at least one author, so a feed
/// without any renders one author with an empty name.
pub open spec fn placeholder_author() -> Seq<char> {
    "<author><name></name></author>\n"@
}

/// The feed-level author block: one element per author, or the placeholder
/// when the feed has no authors.
pub open spec fn feed_author_block(f: FeedView) -> Seq<char> {
    match f.authors {
        Some(s) => if s.len() > 0 {
            atom_authors(s)
        } else {
            placeholder_author()
        },
        None => placeholder_author(),
    }
}

/// Law: a feed whose `authors` sequence is absent or empty renders exactly
/// one fallback author element with an empty name as its author block.
pub proof fn lemma_feed_fallback_author(f: FeedView)
    requires
        f.authors is None || f.authors->0.len() == 0,
    ensures
        feed_author_block(f) == placeholder_author(),
{
}

impl Author {
    /// Render this author as an Atom `author` element.
    pub fn to_atom(&self) -> (r: String)
        ensures
            r@ == atom_author(self.deep_view()),
    {
        let mut out = String::from_str("<author>\n<name>");
        if let Some(name) = &self.name {
            out.append(name.as_str());
        }
        out.append("</name>\n");
        if let Some(url) = &self.url {
            out.append("<uri>");
            out.append(url.as_str());
            out.append("</uri>\n");
        }
        out.append("</author>\n");
        proof {
            assert(out@ =~= atom_author(self.deep_view()));
        }
        out
    }
}

/// One author element per author, in order.
fn authors_to_atom(authors: &Vec<Author>) -> (r: String)
    ensures
        r@ == atom_authors(authors.deep_view()),
{
    let mut out = String::new();
    let n = authors.len();
    let mut i: usize = 0;
    while i < n
        invariant
            0 <= i <= n,
            n == authors@.len(),
            out@ == atom_authors(authors.deep_view().take(i as int)),
        decreases n - i,
    {
        let block = authors[i].to_atom();
        out.append(block.as_str());
        proof {
            assert(authors.deep_view().take(i + 1 as int).drop_last() =~= authors.deep_view().take(
                i as int,
            ));
            assert(authors.deep_view().take(i + 1 as int).last() == authors.deep_view()[i as int]);
        }
        i = i + 1;
    }
    proof {
        assert(authors.deep_view().take(n as int) =~= authors.deep_view());
    }
    out
}

/// One enclosure link per attachment, carrying `href`, `type` and an optional
/// `length`.
pub open spec fn atom_attachment(at: AttachmentView) -> Seq<char> {
    "<link rel=\"enclosure\" href=\""@ + at.url + "\"/ type=\""@ + at.mime_type + "\""@ + (
    match at.size_in_bytes {
        Some(len) => " length=\""@ + dec_str(len as int) + "\""@,
        None => Seq::<char>::empty(),
    }) + ">\n"@
}

/// One enclosure link per attachment, in order.
pub open spec fn atom_attachments(ats: Seq<AttachmentView>) -> Seq<char>
    decreases ats.len(),
{
    if ats.len() == 0 {
        Seq::<char>::empty()
    } else {
        atom_attachments(ats.drop_last()) + atom_attachment(ats.last())
    }
}

impl Attachment {
    /// Render this attachment as an Atom enclosure link.
    pub fn to_atom(&self) -> (r: String)
        ensures
            r@ == atom_attachment(self.deep_view()),
    {
        let mut out = String::from_str("<link rel=\"enclosure\" href=\"");
        out.append(self.url.as_str());
        out.append("\"/ type=\"");
        out.append(self.mime_type.as_str());
        out.append("\"");
        if let Some(size) = &self.size_in_bytes {
            out.append(" length=\"");
            let num = u64_to_string(*size);
            out.append(num.as_str());
            out.append("\"");
        }
        out.append(">\n");
        proof {
            assert(out@ =~= atom_attachment(self.deep_view()));
        }
        out
    }
}

/// One enclosure link per attachment, in order.
fn attachments_to_atom(ats: &Vec<Attachment>) -> (r: String)
    ensures
        r@ == atom_attachments(ats.deep_view()),
{
    let mut out = String::new();
    let n = ats.len();
    let mut i: usize = 0;
    while i < n
        invariant
            0 <= i <= n,
            n == ats@.len(),
            out@ == atom_attachments(ats.deep_view().take(i as int)),
        decreases n - i,
    {
        let block = ats[i].to_atom();
        out.append(block.as_str());
        proof {
            assert(ats.deep_view().take(i + 1 as int).drop_last() =~= ats.deep_view().take(
                i as int,
            ));
            assert(ats.deep_view().take(i + 1 as int).last() == ats.deep_view()[i as int]);
        }
        i = i + 1;
    }
    proof {
        assert(ats.deep_view().take(n as int) =~= ats.deep_view());
    }
    out
}

/// The opening `entry` tag, with an `xml:lang` attribute when the item has a
/// language.
pub open spec fn entry_open(it: ItemView) -> Seq<char> {
    match it.language {
        Some(lang) => "<entry xml:lang=\""@ + lang + "\">\n"@,
        None => "<entry>\n"@,
    }
}

/// The entry's content element: the text-typed content wins over the
/// HTML-typed one when both are present.
pub open spec fn entry_content(it: ItemView) -> Seq<char> {
    match it.content_text {
        Some(t) => "<content type=\"text\">"@ + t + "</content>\n"@,
        None => opt_wrap(
            "<content type=\"html\"><![CDATA[ "@,
            it.content_html,
            " ]]></content>\n"@,
        ),
    }
}

/// Law: where both `content_text` and `content_html` are present, only the
/// text-typed content element is emitted.
pub proof fn lemma_content_text_wins(it: ItemView)
    requires
        it.content_text is Some,
        it.content_html is Some,
    ensures
        entry_content(it) == "<content type=\"text\">"@ + it.content_text->0 + "</content>\n"@,
{
}

/// The value of the entry's `updated` element: `date_modified` if present,
/// else `date_published` if present, else the render-time clock value.
pub open spec fn entry_updated_value(it: ItemView, now: Seq<char>) -> Seq<char> {
    match it.date_modified {
        Some(m) => m,
        None => match it.date_published {
            Some(p) => p,
            None => now,
        },
    }
}

/// The entry's optional `published` element, from `date_published` alone.
pub open spec fn entry_published_block(it: ItemView) -> Seq<char> {
    opt_wrap("<published>"@, it.date_published, "</published>\n"@)
}

/// Law: `published` and `updated` are derived independently. An item with
/// only `date_published` renders both elements from that one value; an item
/// with `date_modified` renders `updated` from it while `published` still
/// reflects `date_published`.
pub proof fn lemma_published_updated_independent(it: ItemView, now: Seq<char>)
    ensures
        (it.date_modified is None && it.date_published is Some) ==> entry_updated_value(it, now)
            == it.date_published->0 && entry_published_block(it) == "<published>"@
            + it.date_published->0 + "</published>\n"@,
        it.date_modified matches Some(m) ==> entry_updated_value(it, now) == m,
        (it.date_modified is Some && it.date_published is Some) ==> entry_published_block(it)
            == "<published>"@ + it.date_published->0 + "</published>\n"@,
{
}

/// The head of an Atom `entry` element: the opening tag, id, optional
/// title, link and summary, and the content element.
pub open spec fn atom_entry_meta(it: ItemView) -> Seq<char> {
    entry_open(it) + "<id>"@ + it.id + "</id>\n"@ + opt_wrap("<title>"@, it.title, "</title>\n"@)
        + opt_wrap("<link rel=\"alternate\" href=\""@, it.url, "\"/>\n"@) + opt_wrap(
        "<summary>"@,
        it.summary,
        "</summary>\n"@,
    ) + entry_content(it)
}

/// A whole Atom `entry` element for one item: the head, `updated` and
/// `published`, the item's authors, and one enclosure link per attachment.
pub open spec fn atom_entry(it: ItemView, now: Seq<char>) -> Seq<char> {
    atom_entry_meta(it) + "<updated>"@ + entry_updated_value(it, now) + "</updated>\n"@
        + entry_published_block(it) + (match it.authors {
        Some(authors) => atom_authors(authors),
        None => Seq::<char>::empty(),
    }) + (match it.attachments {
        Some(ats) => atom_attachments(ats),
        None => Seq::<char>::empty(),
    }) + "</entry>\n"@
}

impl Item {
    /// Render the head of this item's `entry` element.
    fn entry_meta(&self) -> (r: String)
        ensures
            r@ == atom_entry_meta(self.deep_view()),
    {
        let ghost v = self.deep_view();
        let mut out = String::new();
        if let Some(lang) = &self.language {
            out.append("<entry xml:lang=\"");
            out.append(lang.as_str());
            out.append("\">\n");
        } else {
            out.append("<entry>\n");
        }
        proof {
            assert(out@ =~= entry_open(v));
        }
        out.append("<id>");
        out.append(self.id.as_str());
        out.append("</id>\n");
        let ghost c1 = entry_open(v) + "<id>"@ + v.id + "</id>\n"@;
        proof {
            assert(out@ =~= c1);
        }
        if let Some(title) = &self.title {
            out.append("<title>");
            out.append(title.as_str());
            out.append("</title>\n");
        }
        let ghost c2 = c1 + opt_wrap("<title>"@, v.title, "</title>\n"@);
        proof {
            assert(out@ =~= c2);
        }
        if let Some(url) = &self.url {
            out.append("<link rel=\"alternate\" href=\"");
            out.append(url.as_str());
            out.append("\"/>\n");
        }
        let ghost c3 = c2 + opt_wrap("<link rel=\"alternate\" href=\""@, v.url, "\"/>\n"@);
        proof {
            assert(out@ =~= c3);
        }
        if let Some(summary) = &self.summary {
            out.append("<summary>");
            out.append(summary.as_str());
            out.append("</summary>\n");
        }
        let ghost c4 = c3 + opt_wrap("<summary>"@, v.summary, "</summary>\n"@);
        proof {
            assert(out@ =~= c4);
        }
        if let Some(text) = &self.content_text {
            out.append("<content type=\"text\">");
            out.append(text.as_str());
            out.append("</content>\n");
        } else if let Some(html) = &self.content_html {
            out.append("<content type=\"html\"><![CDATA[ ");
            out.append(html.as_str());
            out.append(" ]]></content>\n");
        }
        let ghost c5 = c4 + entry_content(v);
        proof {
            assert(out@ =~= c5);
            assert(out@ =~= atom_entry_meta(v));
        }
        out
    }

    /// Render this item as an Atom `entry` element; `now` is the clock value
    /// used as the `updated` fallback when the item carries no date at all.
    pub fn to_atom(&self, now: &str) -> (r: String)
        ensures
            r@ == atom_entry(self.deep_view(), now@),
    {
        let ghost v = self.deep_view();
        let mut out = self.entry_meta();
        out.append("<updated>");
        if let Some(modified) = &self.date_modified {
            out.append(modified.as_str());
        } else if let Some(published) = &self.date_published {
            out.append(published.as_str());
        } else {
            out.append(now);
        }
        out.append("</updated>\n");
        let ghost c6 = atom_entry_meta(v) + "<updated>"@ + entry_updated_value(v, now@)
            + "</updated>\n"@;
        proof {
            assert(out@ =~= c6);
        }
        if let Some(published) = &self.date_published {
            out.append("<published>");
            out.append(published.as_str());
            out.append("</published>\n");
        }
        let ghost c7 = c6 + entry_published_block(v);
        proof {
            assert(out@ =~= c7);
        }
        if let Some(authors) = &self.authors {
            let block = authors_to_atom(authors);
            out.append(block.as_str());
        }
        let ghost c8 = c7 + (match v.authors {
            Some(authors) => atom_authors(authors),
            None => Seq::<char>::empty(),
        });
        proof {
            assert(out@ =~= c8);
        }
        if let Some(ats) = &self.attachments {
            let block = attachments_to_atom(ats);
            out.append(block.as_str());
        }
        let ghost c9 = c8 + (match v.attachments {
            Some(ats) => atom_attachments(ats),
            None => Seq::<char>::empty(),
        });
        proof {
            assert(out@ =~= c9);
        }
        out.append("</entry>\n");
        proof {
            assert(out@ =~= atom_entry(v, now@));
        }
        out
    }
}

/// One `entry` element per item, in order.
pub open spec fn atom_entries(items: Seq<ItemView>, now: Seq<char>) -> Seq<char>
    decreases items.len(),
{
    if items.len() == 0 {
        Seq::<char>::empty()
    } else {
        atom_entries(items.drop_last(), now) + atom_entry(items.last(), now)
    }
}

fn items_to_atom(items: &Vec<Item>, now: &str) -> (r: String)
    ensures
        r@ == atom_entries(items.deep_view(), now@),
{
    let mut out = String::new();
    let n = items.len();
    let mut i: usize = 0;
    while i < n
        invariant
            0 <= i <= n,
            n == items@.len(),
            out@ == atom_entries(items.deep_view().take(i as int), now@),
        decreases n - i,
    {
        let block = items[i].to_atom(now);
        out.append(block.as_str());
        proof {
            assert(items.deep_view().take(i + 1 as int).drop_last() =~= items.deep_view().take(
                i as int,
            ));
            assert(items.deep_view().take(i + 1 as int).last() == items.deep_view()[i as int]);
        }
        i = i + 1;
    }
    proof {
        assert(items.deep_view().take(n as int) =~= items.deep_view());
    }
    out
}

/// The fixed XML declaration and the opening `feed` tag, with an `xml:lang`
/// attribute when the feed has a language.
pub open spec fn feed_open(f: FeedView) -> Seq<char> {
    "<?xml version=\"1.0\" encoding=\"utf-8\"?>\n"@ + (match f.language {
        Some(lang) => "<feed xmlns=\"http://www.w3.org/2005/Atom\" xml:lang=\""@ + lang + "\">\n"@,
        None => "<feed xmlns=\"http://www.w3.org/2005/Atom\">\n"@,
    })
}

/// The document head for one feed: declaration, authors (with fallback),
/// title, id (`feed_url` if present, else the title), optional links,
/// subtitle and logo.
pub open spec fn atom_feed_meta(f: FeedView) -> Seq<char> {
    feed_open(f) + feed_author_block(f) + "<title>"@ + f.title + "</title>\n"@ + "<id>"@ + (
    match f.feed_url {
        Some(u) => u,
        None => f.title,
    }) + "</id>\n"@ + opt_wrap("<link rel=\"alternate\" href=\""@, f.home_page_url, "\"/>\n"@)
        + opt_wrap("<link rel=\"self\" href=\""@, f.feed_url, "\"/>\n"@) + opt_wrap(
        "<subtitle>"@,
        f.description,
        "</subtitle>\n"@,
    ) + opt_wrap("<logo>"@, f.icon, "</logo>\n"@)
}

/// A whole Atom document for one feed: the head, the derived `updated`, and
/// one entry per item.
pub open spec fn atom_feed(f: FeedView, now: Seq<char>) -> Seq<char> {
    atom_feed_meta(f) + "<updated>"@ + feed_updated_string(f) + "</updated>\n"@ + (
    match f.items {
        Some(items) => atom_entries(items, now),
        None => Seq::<char>::empty(),
    }) + "</feed>"@
}

impl Feed {
    /// Render the document head for this feed.
    #[verifier::rlimit(100)]
    fn feed_meta(&self) -> (r: String)
        ensures
            r@ == atom_feed_meta(self.deep_view()),
    {
        let ghost v = self.deep_view();
        let mut out = String::from_str("<?xml version=\"1.0\" encoding=\"utf-8\"?>\n");
        if let Some(lang) = &self.language {
            out.append("<feed xmlns=\"http://www.w3.org/2005/Atom\" xml:lang=\"");
            out.append(lang.as_str());
            out.append("\">\n");
        } else {
            out.append("<feed xmlns=\"http://www.w3.org/2005/Atom\">\n");
        }
        proof {
            assert(out@ =~= feed_open(v));
        }
        let mut has_authors = false;
        if let Some(authors) = &self.authors {
            if authors.len() > 0 {
                has_authors = true;
                let block = authors_to_atom(authors);
                out.append(block.as_str());
            }
        }
        if !has_authors {
            out.append("<author><name></name></author>\n");
        }
        let ghost c1 = feed_open(v) + feed_author_block(v);
        proof {
            assert(out@ =~= c1);
        }
        out.append("<title>");
        out.append(self.title.as_str());
        out.append("</title>\n");
        let ghost c2 = c1 + "<title>"@ + v.title + "</title>\n"@;
        proof {
            assert(out@ =~= c2);
        }
        out.append("<id>");
        if let Some(feed_url) = &self.feed_url {
            out.append(feed_url.as_str());
        } else {
            out.append(self.title.as_str());
        }
        out.append("</id>\n");
        let ghost c3 = c2 + "<id>"@ + (match v.feed_url {
            Some(u) => u,
            None => v.title,
        }) + "</id>\n"@;
        proof {
            assert(out@ =~= c3);
        }
        if let Some(home_page_url) = &self.home_page_url {
            out.append("<link rel=\"alternate\" href=\"");
            out.append(home_page_url.as_str());
            out.append("\"/>\n");
        }
        let ghost c4 = c3 + opt_wrap("<link rel=\"alternate\" href=\""@, v.home_page_url, "\"/>\n"@);
        proof {
            assert(out@ =~= c4);
        }
        if let Some(feed_url) = &self.feed_url {
            out.append("<link rel=\"self\" href=\"");
            out.append(feed_url.as_str());
            out.append("\"/>\n");
        }
        let ghost c5 = c4 + opt_wrap("<link rel=\"self\" href=\""@, v.feed_url, "\"/>\n"@);
        proof {
            assert(out@ =~= c5);
        }
        if let Some(description) = &self.description {
            out.append("<subtitle>");
            out.append(description.as_str());
            out.append("</subtitle>\n");
        }
        let ghost c6 = c5 + opt_wrap("<subtitle>"@, v.description, "</subtitle>\n"@);
        proof {
            assert(out@ =~= c6);
        }
        if let Some(icon) = &self.icon {
            out.append("<logo>");
            out.append(icon.as_str());
            out.append("</logo>\n");
        }
        let ghost c7 = c6 + opt_wrap("<logo>"@, v.icon, "</logo>\n"@);
        proof {
            assert(out@ =~= c7);
            assert(out@ =~= atom_feed_meta(v));
        }
        out
    }

    /// Render this feed as an Atom document; `now` is the clock value used as
    /// each entry's `updated` fallback when an item carries no date at all.
    pub fn to_atom(&self, now: &str) -> (r: String)
        ensures
            r@ == atom_feed(self.deep_view(), now@),
    {
        let ghost v = self.deep_view();
        let mut out = self.feed_meta();
        out.append("<updated>");
        let upd = self.updated_string();
        out.append(upd.as_str());
        out.append("</updated>\n");
        let ghost c8 = atom_feed_meta(v) + "<updated>"@ + feed_updated_string(v) + "</updated>\n"@;
        proof {
            assert(out@ =~= c8);
        }
        if let Some(items) = &self.items {
            let block = items_to_atom(items, now);
            out.append(block.as_str());
        }
        let ghost c9 = c8 + (match v.items {
            Some(items) => atom_entries(items, now@),
            None => Seq::<char>::empty(),
        });
        proof {
            assert(out@ =~= c9);
        }
        out.append("</feed>");
        proof {
            assert(out@ =~= atom_feed(v, now@));
        }
        out
    }
}

/// Render `feed` as an Atom document, with `now` as the entry-level `updated`
/// fallback, and parse the feed-level `updated` string into an instant for
/// the caller's freshness decision. Fails exactly where that string is not a
/// parseable RFC 3339 timestamp.
pub fn render_at(feed: &Feed, now: &str) -> (r: Result<(String, Instant), RenderError>)
    ensures
        r matches Ok(p) ==> p.0@ == atom_feed(feed.deep_view(), now@),
        r matches Ok(p) ==> parsed_rfc3339(feed_updated_string(feed.deep_view())) == Some(
            (p.1.secs as int, p.1.nanos as int),
        ),
        r is Err <==> parsed_rfc3339(feed_updated_string(feed.deep_view())) is None,
        r matches Err(e) ==> e == RenderError::Timestamp,
{
    let upd = feed.updated_string();
    match parse_rfc3339(upd.as_str()) {
        Some(instant) => Ok((feed.to_atom(now), instant)),
        None => Err(RenderError::Timestamp),
    }
}

/// Render `feed` as an Atom document, reading the clock for the entry-level
/// `updated` fallback. The document and the returned instant are as
/// [`render_at`] states, for some clock string.
pub fn render(feed: &Feed) -> (r: Result<(String, Instant), RenderError>)
    ensures
        r matches Ok(p) ==> exists|n: Seq<char>| p.0@ == atom_feed(feed.deep_view(), n),
        r matches Ok(p) ==> parsed_rfc3339(feed_updated_string(feed.deep_view())) == Some(
            (p.1.secs as int, p.1.nanos as int),
        ),
        r is Err <==> parsed_rfc3339(feed_updated_string(feed.deep_view())) is None,
        r matches Err(e) ==> e == RenderError::Timestamp,
{
    let now = now_rfc3339();
    let r = render_at(feed, now.as_str());
    proof {
        match &r {
            Ok(p) => {
                assert(p.0@ == atom_feed(feed.deep_view(), now@));
            },
            Err(_) => {},
        }
    }
    r
}

} // verus!
