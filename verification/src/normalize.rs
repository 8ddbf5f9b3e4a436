//! Author normalization: the legacy single `author` field of JSON Feed 1.0
//! is folded into the `authors` sequence, on the feed and on every item, so
//! that downstream code only ever reads `authors`. Where `authors` is already
//! present the legacy value is discarded without merging; the legacy field is
//! cleared in every case.

use vstd::prelude::*;
use crate::model::{Author, AuthorView, Feed, FeedView, Item, ItemView};

verus! {

/// The normalized `authors` sequence for a legacy `author` / `authors` pair:
/// an existing sequence is kept as it is (even empty); otherwise a present
/// legacy author becomes a one-element sequence.
pub open spec fn normalized_authors(
    author: Option<AuthorView>,
    authors: Option<Seq<AuthorView>>,
) -> Option<Seq<AuthorView>> {
    match authors {
        Some(aa) => Some(aa),
        None => match author {
            Some(a) => Some(seq![a]),
            None => None,
        },
    }
}

/// An item after author normalization.
pub open spec fn normalize_item_view(it: ItemView) -> ItemView {
    ItemView { author: None, authors: normalized_authors(it.author, it.authors), ..it }
}

/// A feed after author normalization: applied to the feed itself and,
/// independently, to every item.
pub open spec fn normalize_feed_view(f: FeedView) -> FeedView {
    FeedView {
        author: None,
        authors: normalized_authors(f.author, f.authors),
        items: match f.items {
            Some(items) => Some(items.map(|i: int, it: ItemView| normalize_item_view(it))),
            None => None,
        },
        ..f
    }
}

/// Law: a present legacy author with no `authors` sequence is folded into a
/// one-element sequence, and the legacy field is cleared; a present `authors`
/// sequence is never overwritten.
pub proof fn lemma_normalize_folds_author(f: FeedView)
    ensures
        normalize_feed_view(f).author is None,
        (f.author is Some && f.authors is None) ==> normalize_feed_view(f).authors == Some(
            seq![f.author->0],
        ),
        f.authors is Some ==> normalize_feed_view(f).authors == f.authors,
{
}

/// Law: normalization is idempotent; renormalizing a normalized feed changes
/// nothing.
pub proof fn lemma_normalize_idempotent(f: FeedView)
    ensures
        normalize_feed_view(normalize_feed_view(f)) == normalize_feed_view(f),
{
    let n1 = normalize_feed_view(f);
    let n2 = normalize_feed_view(n1);
    match f.items {
        Some(items) => {
            let m1 = items.map(|i: int, it: ItemView| normalize_item_view(it));
            let m2 = m1.map(|i: int, it: ItemView| normalize_item_view(it));
            assert forall|i: int| 0 <= i < m1.len() implies m2[i] == m1[i] by {
                assert(m1[i] == normalize_item_view(items[i]));
                assert(m2[i] == normalize_item_view(m1[i]));
            }
            assert(m2 =~= m1);
            assert(n2 =~= n1);
        },
        None => {
            assert(n2 =~= n1);
        },
    }
}

impl Item {
    /// Fold a legacy single `author` into `authors` and clear it.
    pub fn normalize(self) -> (r: Item)
        ensures
            r.deep_view() == normalize_item_view(self.deep_view()),
    {
        let Item {
            id,
            url,
            external_url,
            title,
            content_html,
            content_text,
            summary,
            image,
            banner_image,
            date_published,
            date_modified,
            author,
            authors,
            tags,
            language,
            attachments,
        } = self;
        let new_authors: Option<Vec<Author>> = match (author, authors) {
            (_, Some(aa)) => Some(aa),
            (Some(a), None) => {
                let mut v: Vec<Author> = Vec::new();
                let ghost av = a.deep_view();
                v.push(a);
                proof {
                    assert(v.deep_view() =~= seq![av]);
                }
                Some(v)
            },
            (None, None) => None,
        };
        Item {
            id,
            url,
            external_url,
            title,
            content_html,
            content_text,
            summary,
            image,
            banner_image,
            date_published,
            date_modified,
            author: None,
            authors: new_authors,
            tags,
            language,
            attachments,
        }
    }
}

impl Feed {
    /// Fold legacy single `author` fields into `authors` sequences, on the
    /// feed itself and on every item, and clear them.
    pub fn normalize(self) -> (r: Feed)
        ensures
            r.deep_view() == normalize_feed_view(self.deep_view()),
    {
        let ghost f0 = self.deep_view();
        let Feed {
            version,
            title,
            home_page_url,
            feed_url,
            description,
            user_comment,
            next_url,
            icon,
            favicon,
            language,
            expired,
            author,
            authors,
            hubs,
            items,
        } = self;
        let new_authors: Option<Vec<Author>> = match (author, authors) {
            (_, Some(aa)) => Some(aa),
            (Some(a), None) => {
                let mut v: Vec<Author> = Vec::new();
                let ghost av = a.deep_view();
                v.push(a);
                proof {
                    assert(v.deep_view() =~= seq![av]);
                }
                Some(v)
            },
            (None, None) => None,
        };
        let new_items: Option<Vec<Item>> = match items {
            Some(v) => {
                let ghost vs = v.deep_view();
                let mut rest = v;
                let mut out: Vec<Item> = Vec::new();
                while rest.len() > 0
                    invariant
                        rest.deep_view() =~= vs.skip(out@.len() as int),
                        out@.len() <= vs.len(),
                        out.deep_view() =~= vs.take(out@.len() as int).map(
                            |i: int, it: ItemView| normalize_item_view(it),
                        ),
                    decreases rest@.len(),
                {
                    let ghost k = out@.len() as int;
                    let ghost rest0 = rest.deep_view();
                    let ghost out0 = out.deep_view();
                    let it = rest.remove(0);
                    proof {
                        assert(rest0[0] == it.deep_view());
                        assert(rest0.len() > 0);
                        assert(rest0 == vs.skip(k));
                        assert(k < vs.len());
                        assert(vs.skip(k)[0] == vs[k]);
                        assert(it.deep_view() == vs[k]);
                        assert(rest.deep_view() =~= rest0.skip(1));
                        assert(rest0.skip(1) =~= vs.skip(k + 1));
                    }
                    let normalized = it.normalize();
                    out.push(normalized);
                    proof {
                        assert(out.deep_view() =~= out0.push(normalized.deep_view()));
                        assert(out.deep_view() =~= vs.take(k + 1).map(
                            |i: int, x: ItemView| normalize_item_view(x),
                        ));
                    }
                }
                proof {
                    assert(vs.take(vs.len() as int) =~= vs);
                }
                Some(out)
            },
            None => None,
        };
        let r = Feed {
            version,
            title,
            home_page_url,
            feed_url,
            description,
            user_comment,
            next_url,
            icon,
            favicon,
            language,
            expired,
            author: None,
            authors: new_authors,
            hubs,
            items: new_items,
        };
        proof {
            assert(r.deep_view() =~= normalize_feed_view(f0));
        }
        r
    }
}

} // verus!
