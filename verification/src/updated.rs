//! Derivation of the feed-level `updated` timestamp: every item contributes
//! its `date_modified` if present, else its `date_published` if present; the
//! feed's `updated` is the lexicographically maximal contributed string, or a
//! fixed floor value when no item contributes one.

use vstd::prelude::*;
use crate::model::{Feed, FeedView, Item, ItemView};

verus! {

/// Lexicographic strict order on character sequences, comparing code points
/// from position `i` on; a proper prefix sorts before its extensions.
pub open spec fn lex_lt_from(a: Seq<char>, b: Seq<char>, i: int) -> bool
    recommends
        0 <= i,
    decreases b.len() - i,
{
    if i >= b.len() {
        false
    } else if i >= a.len() {
        true
    } else if a[i] != b[i] {
        (a[i] as u32) < (b[i] as u32)
    } else {
        lex_lt_from(a, b, i + 1)
    }
}

/// Lexicographic strict order on character sequences.
pub open spec fn lex_lt(a: Seq<char>, b: Seq<char>) -> bool {
    lex_lt_from(a, b, 0)
}

/// Whether `a` sorts strictly before `b` in lexicographic code-point order.
pub fn lex_less(a: &str, b: &str) -> (r: bool)
    ensures
        r == lex_lt(a@, b@),
{
    let alen = a.unicode_len();
    let blen = b.unicode_len();
    let mut i: usize = 0;
    loop
        invariant
            0 <= i <= alen,
            i <= blen,
            alen == a@.len(),
            blen == b@.len(),
            lex_lt(a@, b@) == lex_lt_from(a@, b@, i as int),
        decreases blen - i,
    {
        if i >= blen {
            return false;
        }
        if i >= alen {
            return true;
        }
        let ca = a.get_char(i);
        let cb = b.get_char(i);
        if ca != cb {
            return (ca as u32) < (cb as u32);
        }
        i = i + 1;
    }
}

/// Lexicographic order is transitive.
pub proof fn lemma_lex_lt_trans_from(a: Seq<char>, b: Seq<char>, c: Seq<char>, i: int)
    requires
        0 <= i,
        lex_lt_from(a, b, i),
        lex_lt_from(b, c, i),
    ensures
        lex_lt_from(a, c, i),
    decreases c.len() - i,
{
    if i < a.len() && i < b.len() && i < c.len() && a[i] == b[i] && b[i] == c[i] {
        lemma_lex_lt_trans_from(a, b, c, i + 1);
    }
}

/// Lexicographic order is irreflexive.
pub proof fn lemma_lex_lt_irrefl_from(a: Seq<char>, i: int)
    requires
        0 <= i,
    ensures
        !lex_lt_from(a, a, i),
    decreases a.len() - i,
{
    if i < a.len() {
        lemma_lex_lt_irrefl_from(a, i + 1);
    }
}

/// Lexicographic order is irreflexive.
pub proof fn lemma_lex_lt_irrefl(a: Seq<char>)
    ensures
        !lex_lt(a, a),
{
    lemma_lex_lt_irrefl_from(a, 0);
}

/// Lexicographic order is transitive.
pub proof fn lemma_lex_lt_trans(a: Seq<char>, b: Seq<char>, c: Seq<char>)
    requires
        lex_lt(a, b),
        lex_lt(b, c),
    ensures
        lex_lt(a, c),
{
    lemma_lex_lt_trans_from(a, b, c, 0);
}

/// The timestamp string an item contributes to the feed's `updated`:
/// `date_modified` if present, else `date_published` if present, else nothing.
pub open spec fn item_candidate(it: ItemView) -> Option<Seq<char>> {
    if it.date_modified is Some {
        it.date_modified
    } else if it.date_published is Some {
        it.date_published
    } else {
        None
    }
}

/// The lexicographically maximal candidate among the items, scanned in order;
/// of two equal candidates the earlier one is kept, which is the same string.
pub open spec fn max_candidate(items: Seq<ItemView>) -> Option<Seq<char>>
    decreases items.len(),
{
    if items.len() == 0 {
        None
    } else {
        let prev = max_candidate(items.drop_last());
        let cur = item_candidate(items.last());
        match (prev, cur) {
            (None, c) => c,
            (Some(p), None) => Some(p),
            (Some(p), Some(c)) => if lex_lt(p, c) {
                Some(c)
            } else {
                Some(p)
            },
        }
    }
}

/// The maximal candidate over a feed's items, if any item contributes one.
pub open spec fn feed_candidate(f: FeedView) -> Option<Seq<char>> {
    match f.items {
        Some(items) => max_candidate(items),
        None => None,
    }
}

/// The floor timestamp used when no item contributes a candidate.
pub open spec fn floor_updated() -> Seq<char> {
    "2000-01-01T00:00:00Z"@
}

/// The feed-level `updated` string: the maximal candidate, or the floor.
pub open spec fn feed_updated_string(f: FeedView) -> Seq<char> {
    match feed_candidate(f) {
        Some(m) => m,
        None => floor_updated(),
    }
}

/// Law: the maximal candidate is itself one of the items' candidates, no
/// item's candidate exceeds it, and it is absent exactly when no item
/// contributes a candidate.
pub proof fn lemma_max_candidate(items: Seq<ItemView>)
    ensures
        max_candidate(items) is None ==> forall|i: int|
            0 <= i < items.len() ==> item_candidate(#[trigger] items[i]) is None,
        max_candidate(items) matches Some(m) ==> exists|i: int|
            0 <= i < items.len() && item_candidate(#[trigger] items[i]) == Some(m),
        max_candidate(items) matches Some(m) ==> forall|i: int|
            0 <= i < items.len() && item_candidate(#[trigger] items[i]) is Some ==> !lex_lt(
                m,
                item_candidate(items[i])->0,
            ),
    decreases items.len(),
{
    if items.len() > 0 {
        lemma_max_candidate(items.drop_last());
        let rest = items.drop_last();
        let prev = max_candidate(rest);
        let cur = item_candidate(items.last());
        assert forall|i: int| 0 <= i < rest.len() implies items[i] == rest[i] by {}
        assert(items[items.len() - 1] == items.last());
        match prev {
            Some(p) => {
                assert(exists|i: int|
                    0 <= i < rest.len() && item_candidate(#[trigger] rest[i]) == Some(p));
                let wi = choose|i: int|
                    0 <= i < rest.len() && item_candidate(#[trigger] rest[i]) == Some(p);
                assert(item_candidate(items[wi]) == Some(p));
                match cur {
                    Some(c) => {
                        if lex_lt(p, c) {
                            // the last item holds the maximum
                            assert(item_candidate(items[items.len() - 1]) == Some(c));
                            assert forall|i: int|
                                0 <= i < items.len() && item_candidate(#[trigger] items[i])
                                    is Some implies !lex_lt(c, item_candidate(items[i])->0) by {
                                let x = item_candidate(items[i])->0;
                                if i < rest.len() {
                                    assert(!lex_lt(p, x));
                                    if lex_lt(c, x) {
                                        lemma_lex_lt_trans(p, c, x);
                                    }
                                } else {
                                    lemma_lex_lt_irrefl(c);
                                }
                            }
                        } else {
                            // the earlier maximum stands
                            assert forall|i: int|
                                0 <= i < items.len() && item_candidate(#[trigger] items[i])
                                    is Some implies !lex_lt(p, item_candidate(items[i])->0) by {
                                if i >= rest.len() {
                                    assert(item_candidate(items[i]) == Some(c));
                                }
                            }
                        }
                    },
                    None => {
                        assert forall|i: int|
                            0 <= i < items.len() && item_candidate(#[trigger] items[i]) is Some
                                implies !lex_lt(p, item_candidate(items[i])->0) by {}
                    },
                }
            },
            None => {
                match cur {
                    Some(c) => {
                        assert(item_candidate(items[items.len() - 1]) == Some(c));
                        assert forall|i: int|
                            0 <= i < items.len() && item_candidate(#[trigger] items[i]) is Some
                                implies !lex_lt(c, item_candidate(items[i])->0) by {
                            if i >= rest.len() {
                                lemma_lex_lt_irrefl(c);
                            }
                        }
                    },
                    None => {},
                }
            },
        }
    }
}

/// Law: the feed-level `updated` string is the lexicographically maximal of
/// the items' candidate strings, and the fixed floor exactly where no item
/// contributes one.
pub proof fn lemma_feed_updated_is_max(f: FeedView)
    ensures
        feed_candidate(f) is None ==> feed_updated_string(f) == floor_updated(),
        feed_candidate(f) is None ==> match f.items {
            Some(items) => forall|i: int|
                0 <= i < items.len() ==> item_candidate(#[trigger] items[i]) is None,
            None => true,
        },
        feed_candidate(f) matches Some(m) ==> feed_updated_string(f) == m,
        feed_candidate(f) matches Some(m) ==> match f.items {
            Some(items) => (exists|i: int|
                0 <= i < items.len() && item_candidate(#[trigger] items[i]) == Some(m)) && forall|
                i: int,
            |
                0 <= i < items.len() && item_candidate(#[trigger] items[i]) is Some ==> !lex_lt(
                    m,
                    item_candidate(items[i])->0,
                ),
            None => false,
        },
{
    match f.items {
        Some(items) => {
            lemma_max_candidate(items);
        },
        None => {},
    }
}

impl Item {
    /// The timestamp this item contributes to the feed's `updated`:
    /// `date_modified` if present, else `date_published` if present.
    pub fn updated(&self) -> (r: Option<String>)
        ensures
            r.deep_view() == item_candidate(self.deep_view()),
    {
        if let Some(m) = &self.date_modified {
            Some(m.clone())
        } else if let Some(p) = &self.date_published {
            Some(p.clone())
        } else {
            None
        }
    }
}

impl Feed {
    /// The lexicographically maximal candidate timestamp among this feed's
    /// items, scanned in input order.
    pub fn updated(&self) -> (r: Option<String>)
        ensures
            r.deep_view() == feed_candidate(self.deep_view()),
    {
        let mut cur: Option<String> = None;
        if let Some(items) = &self.items {
            let n = items.len();
            let mut i: usize = 0;
            while i < n
                invariant
                    0 <= i <= n,
                    n == items@.len(),
                    cur.deep_view() == max_candidate(items.deep_view().take(i as int)),
                decreases n - i,
            {
                let cand = items[i].updated();
                proof {
                    assert(items.deep_view().take(i + 1 as int).drop_last() =~= items.deep_view()
                        .take(i as int));
                    assert(items.deep_view().take(i + 1 as int).last() == items.deep_view()[
                        i as int]);
                }
                if let Some(c) = cand {
                    match &cur {
                        Some(p) => {
                            if lex_less(p.as_str(), c.as_str()) {
                                cur = Some(c);
                            }
                        },
                        None => {
                            cur = Some(c);
                        },
                    }
                }
                i = i + 1;
            }
            proof {
                assert(items.deep_view().take(n as int) =~= items.deep_view());
            }
        }
        cur
    }

    /// The feed-level `updated` string: the maximal candidate among the
    /// items, or the floor `2000-01-01T00:00:00Z` when none contributes one.
    pub fn updated_string(&self) -> (r: String)
        ensures
            r@ == feed_updated_string(self.deep_view()),
    {
        match self.updated() {
            Some(s) => s,
            None => String::from_str("2000-01-01T00:00:00Z"),
        }
    }
}

} // verus!
