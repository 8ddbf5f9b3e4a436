//! The structure layer of the JSON Feed parser: known objects and arrays are
//! parsed field by field, unknown members are skipped, and the required
//! fields are enforced. The one public entry point is [`parse`], which also
//! applies author normalization to the parsed feed.
//!
//! Failures are classified as the specification functions say: text that is
//! not well-formed JSON is a syntax error; a known field whose value is a
//! well-formed JSON value of the wrong type is a field-type error; an absent
//! required field is a missing-field error.

use vstd::prelude::*;
use crate::chars::{chars_eq_str, chars_to_string, str_to_chars};
use crate::jsontext::{
    lit_at,
    number_end,
    number_end_exec,
    is_digit,
    skip_value,
    skip_value_exec,
    skip_ws,
    str_body,
    str_body_exec,
    ws_end,
    false_at,
    true_at,
};
use crate::model::{Author, AuthorView, Feed, FeedView, Hub, HubView, Item, ItemView, ParseError};
use crate::model::{Attachment, AttachmentView};
use crate::normalize::normalize_feed_view;

verus! {

/// The decoded content and end of the string value at `p`, if one stands
/// there.
pub open spec fn string_at(s: Seq<char>, p: int) -> Option<(Seq<char>, int)> {
    if 0 <= p < s.len() && s[p] == '"' {
        str_body(s, p + 1)
    } else {
        None
    }
}

/// How to classify a known field whose value could not be read as the
/// expected type: a field-type error where a well-formed JSON value of some
/// other shape stands there, a syntax error otherwise.
pub open spec fn wrong_value(s: Seq<char>, p: int) -> ParseError {
    if skip_value(s, p) is Some {
        ParseError::FieldType
    } else {
        ParseError::Syntax
    }
}

/// A string-typed field value at `p`.
pub open spec fn string_field(s: Seq<char>, p: int) -> Result<(Seq<char>, int), ParseError> {
    match string_at(s, p) {
        Some((v, e)) => Ok((v, e)),
        None => Err(wrong_value(s, p)),
    }
}

/// A boolean field value at `p`.
pub open spec fn bool_field(s: Seq<char>, p: int) -> Result<(bool, int), ParseError> {
    if lit_at(s, p, "true"@) {
        Ok((true, p + 4))
    } else if lit_at(s, p, "false"@) {
        Ok((false, p + 5))
    } else {
        Err(wrong_value(s, p))
    }
}

/// The unsigned 64-bit value whose decimal digits are `ds`, accumulated onto
/// `acc`; nothing where a character is no digit or the value would not fit.
pub open spec fn u64_digits(ds: Seq<char>, acc: u64) -> Option<u64>
    decreases ds.len(),
{
    if ds.len() == 0 {
        Some(acc)
    } else if !is_digit(ds[0]) {
        None
    } else {
        let d = ((ds[0] as u32) - 48) as u64;
        if acc > (0xFFFF_FFFF_FFFF_FFFFu64 - d) / 10 {
            None
        } else {
            u64_digits(ds.drop_first(), (acc * 10 + d) as u64)
        }
    }
}

/// An unsigned-integer field value at `p`: the lexeme must be a JSON number
/// that is a plain decimal integer fitting in 64 bits.
pub open spec fn u64_field(s: Seq<char>, p: int) -> Result<(u64, int), ParseError> {
    match number_end(s, p) {
        Some(e) => if p < e <= s.len() {
            match u64_digits(s.subrange(p, e), 0u64) {
                Some(v) => Ok((v, e)),
                None => Err(ParseError::FieldType),
            }
        } else {
            Err(ParseError::Syntax)
        },
        None => Err(wrong_value(s, p)),
    }
}

pub(crate) fn wrong_value_exec(s: &Vec<char>, p: usize) -> (r: ParseError)
    requires
        p <= s@.len(),
    ensures
        r == wrong_value(s@, p as int),
{
    match skip_value_exec(s, p) {
        Some(_) => ParseError::FieldType,
        None => ParseError::Syntax,
    }
}

pub(crate) fn string_field_exec(s: &Vec<char>, p: usize) -> (r: Result<(String, usize), ParseError>)
    requires
        p <= s@.len(),
    ensures
        r matches Ok(t) ==> string_field(s@, p as int) == Ok::<(Seq<char>, int), ParseError>(
            (t.0@, t.1 as int),
        ) && p < t.1 <= s@.len(),
        r matches Err(e) ==> string_field(s@, p as int) == Err::<(Seq<char>, int), ParseError>(e),
{
    if p < s.len() && s[p] == '"' {
        match str_body_exec(s, p + 1) {
            Some((content, e)) => Ok((chars_to_string(&content), e)),
            None => Err(wrong_value_exec(s, p)),
        }
    } else {
        Err(wrong_value_exec(s, p))
    }
}

pub(crate) fn bool_field_exec(s: &Vec<char>, p: usize) -> (r: Result<(bool, usize), ParseError>)
    requires
        p <= s@.len(),
    ensures
        r matches Ok(t) ==> bool_field(s@, p as int) == Ok::<(bool, int), ParseError>(
            (t.0, t.1 as int),
        ) && p < t.1 <= s@.len(),
        r matches Err(e) ==> bool_field(s@, p as int) == Err::<(bool, int), ParseError>(e),
{
    let n = s.len();
    if true_at(s, p) {
        proof {
            reveal_strlit("true");
            assert(p + 4 <= n);
        }
        Ok((true, p + 4))
    } else if false_at(s, p) {
        proof {
            reveal_strlit("false");
            assert(p + 5 <= n);
        }
        Ok((false, p + 5))
    } else {
        Err(wrong_value_exec(s, p))
    }
}

pub(crate) fn u64_field_exec(s: &Vec<char>, p: usize) -> (r: Result<(u64, usize), ParseError>)
    requires
        p <= s@.len(),
    ensures
        r matches Ok(t) ==> u64_field(s@, p as int) == Ok::<(u64, int), ParseError>(
            (t.0, t.1 as int),
        ) && p < t.1 <= s@.len(),
        r matches Err(e) ==> u64_field(s@, p as int) == Err::<(u64, int), ParseError>(e),
{
    match number_end_exec(s, p) {
        Some(e) => {
            let ghost lexeme = s@.subrange(p as int, e as int);
            let mut acc: u64 = 0;
            let mut i: usize = p;
            while i < e
                invariant
                    p <= i <= e <= s@.len(),
                    number_end(s@, p as int) == Some(e as int),
                    lexeme == s@.subrange(p as int, e as int),
                    u64_digits(lexeme, 0u64) == u64_digits(
                        s@.subrange(i as int, e as int),
                        acc,
                    ),
                decreases e - i,
            {
                let ghost pre = s@.subrange(i as int, e as int);
                let c = s[i];
                proof {
                    assert(pre[0] == s@[i as int]);
                    assert(pre.drop_first() =~= s@.subrange(i + 1 as int, e as int));
                }
                let u = c as u32;
                if !(48 <= u && u <= 57) {
                    proof {
                        assert(!is_digit(pre[0]));
                        assert(u64_digits(pre, acc) is None);
                        assert(u64_digits(lexeme, 0u64) is None);
                    }
                    return Err(ParseError::FieldType);
                }
                let d: u64 = (u - 48) as u64;
                if acc > (0xFFFF_FFFF_FFFF_FFFFu64 - d) / 10 {
                    proof {
                        assert(u64_digits(pre, acc) is None);
                        assert(u64_digits(lexeme, 0u64) is None);
                    }
                    return Err(ParseError::FieldType);
                }
                acc = acc * 10 + d;
                i = i + 1;
            }
            proof {
                assert(s@.subrange(e as int, e as int) =~= Seq::<char>::empty());
            }
            Ok((acc, e))
        },
        None => Err(wrong_value_exec(s, p)),
    }
}

/// An author with no fields set.
pub open spec fn empty_author() -> AuthorView {
    AuthorView { name: None, url: None, avatar: None }
}

/// One member of an author object, dispatched on the key: the three known
/// string fields, anything else skipped.
pub open spec fn author_member(s: Seq<char>, y: int, acc: AuthorView, key: Seq<char>) -> Result<
    (AuthorView, int),
    ParseError,
> {
    if key == "name"@ {
        match string_field(s, y) {
            Ok((v, e)) => Ok((AuthorView { name: Some(v), ..acc }, e)),
            Err(er) => Err(er),
        }
    } else if key == "url"@ {
        match string_field(s, y) {
            Ok((v, e)) => Ok((AuthorView { url: Some(v), ..acc }, e)),
            Err(er) => Err(er),
        }
    } else if key == "avatar"@ {
        match string_field(s, y) {
            Ok((v, e)) => Ok((AuthorView { avatar: Some(v), ..acc }, e)),
            Err(er) => Err(er),
        }
    } else {
        match skip_value(s, y) {
            Some(e) => Ok((acc, e)),
            None => Err(ParseError::Syntax),
        }
    }
}

/// The members of an author object from `p` on, just after the opening brace
/// or after a comma.
pub open spec fn author_members(s: Seq<char>, p: int, acc: AuthorView, first: bool) -> Result<
    (AuthorView, int),
    ParseError,
>
    decreases s.len() - p,
{
    if !(0 <= p <= s.len()) {
        Err(ParseError::Syntax)
    } else {
        let q = skip_ws(s, p);
        if q < p || q > s.len() {
            Err(ParseError::Syntax)
        } else if first && q < s.len() && s[q] == '}' {
            Ok((acc, q + 1))
        } else {
            match string_at(s, q) {
                Some((key, e)) => if e <= q || e > s.len() {
                    Err(ParseError::Syntax)
                } else {
                    let x = skip_ws(s, e);
                    if x < e || x > s.len() {
                        Err(ParseError::Syntax)
                    } else if x < s.len() && s[x] == ':' {
                        let y = skip_ws(s, x + 1);
                        if y < x + 1 || y > s.len() {
                            Err(ParseError::Syntax)
                        } else {
                            match author_member(s, y, acc, key) {
                                Ok((acc2, v)) => if v <= y || v > s.len() {
                                    Err(ParseError::Syntax)
                                } else {
                                    let w = skip_ws(s, v);
                                    if w < v || w > s.len() {
                                        Err(ParseError::Syntax)
                                    } else if w < s.len() && s[w] == '}' {
                                        Ok((acc2, w + 1))
                                    } else if w < s.len() && s[w] == ',' {
                                        author_members(s, w + 1, acc2, false)
                                    } else {
                                        Err(ParseError::Syntax)
                                    }
                                },
                                Err(er) => Err(er),
                            }
                        }
                    } else {
                        Err(ParseError::Syntax)
                    }
                },
                None => Err(ParseError::Syntax),
            }
        }
    }
}

/// The author object at `p`.
pub open spec fn author_at(s: Seq<char>, p: int) -> Result<(AuthorView, int), ParseError> {
    if 0 <= p < s.len() && s[p] == '{' {
        author_members(s, p + 1, empty_author(), true)
    } else {
        Err(wrong_value(s, p))
    }
}

fn author_member_exec(s: &Vec<char>, y: usize, acc: Author, key: &Vec<char>) -> (r: Result<
    (Author, usize),
    ParseError,
>)
    requires
        y <= s@.len(),
    ensures
        r matches Ok(t) ==> author_member(s@, y as int, acc.deep_view(), key@) == Ok::<
            (AuthorView, int),
            ParseError,
        >((t.0.deep_view(), t.1 as int)) && y < t.1 <= s@.len(),
        r matches Err(e) ==> author_member(s@, y as int, acc.deep_view(), key@) == Err::<
            (AuthorView, int),
            ParseError,
        >(e),
{
    if chars_eq_str(key, "name") {
        match string_field_exec(s, y) {
            Ok((v, e)) => Ok((Author { name: Some(v), ..acc }, e)),
            Err(er) => Err(er),
        }
    } else if chars_eq_str(key, "url") {
        match string_field_exec(s, y) {
            Ok((v, e)) => Ok((Author { url: Some(v), ..acc }, e)),
            Err(er) => Err(er),
        }
    } else if chars_eq_str(key, "avatar") {
        match string_field_exec(s, y) {
            Ok((v, e)) => Ok((Author { avatar: Some(v), ..acc }, e)),
            Err(er) => Err(er),
        }
    } else {
        match skip_value_exec(s, y) {
            Some(e) => Ok((acc, e)),
            None => Err(ParseError::Syntax),
        }
    }
}

fn author_at_exec(s: &Vec<char>, p: usize) -> (r: Result<(Author, usize), ParseError>)
    requires
        p <= s@.len(),
    ensures
        r matches Ok(t) ==> author_at(s@, p as int) == Ok::<(AuthorView, int), ParseError>(
            (t.0.deep_view(), t.1 as int),
        ) && p < t.1 <= s@.len(),
        r matches Err(e) ==> author_at(s@, p as int) == Err::<(AuthorView, int), ParseError>(e),
{
    if !(p < s.len() && s[p] == '{') {
        return Err(wrong_value_exec(s, p));
    }
    let mut acc = Author { name: None, url: None, avatar: None };
    let mut cur: usize = p + 1;
    let mut first: bool = true;
    loop
        invariant
            p < cur <= s@.len(),
            author_at(s@, p as int) == author_members(s@, cur as int, acc.deep_view(), first),
        decreases s@.len() - cur,
    {
        let q = ws_end(s, cur);
        if first && q < s.len() && s[q] == '}' {
            return Ok((acc, q + 1));
        }
        if !(q < s.len() && s[q] == '"') {
            proof {
                assert(string_at(s@, q as int) is None);
            }
            return Err(ParseError::Syntax);
        }
        match str_body_exec(s, q + 1) {
            Some((key, e)) => {
                let x = ws_end(s, e);
                if !(x < s.len() && s[x] == ':') {
                    return Err(ParseError::Syntax);
                }
                let y = ws_end(s, x + 1);
                match author_member_exec(s, y, acc, &key) {
                    Ok((acc2, v)) => {
                        let w = ws_end(s, v);
                        if w < s.len() && s[w] == '}' {
                            return Ok((acc2, w + 1));
                        }
                        if w < s.len() && s[w] == ',' {
                            acc = acc2;
                            cur = w + 1;
                            first = false;
                        } else {
                            return Err(ParseError::Syntax);
                        }
                    },
                    Err(er) => {
                        return Err(er);
                    },
                }
            },
            None => {
                return Err(ParseError::Syntax);
            },
        }
    }
}

/// The elements of an author array from `p` on, just after the opening
/// bracket or after a comma.
pub open spec fn authors_items(s: Seq<char>, p: int, acc: Seq<AuthorView>, first: bool) -> Result<
    (Seq<AuthorView>, int),
    ParseError,
>
    decreases s.len() - p,
{
    if !(0 <= p <= s.len()) {
        Err(ParseError::Syntax)
    } else {
        let q = skip_ws(s, p);
        if q < p || q > s.len() {
            Err(ParseError::Syntax)
        } else if first && q < s.len() && s[q] == ']' {
            Ok((acc, q + 1))
        } else {
            match author_at(s, q) {
                Ok((a, e)) => if e <= q || e > s.len() {
                    Err(ParseError::Syntax)
                } else {
                    let w = skip_ws(s, e);
                    if w < e || w > s.len() {
                        Err(ParseError::Syntax)
                    } else if w < s.len() && s[w] == ']' {
                        Ok((acc.push(a), w + 1))
                    } else if w < s.len() && s[w] == ',' {
                        authors_items(s, w + 1, acc.push(a), false)
                    } else {
                        Err(ParseError::Syntax)
                    }
                },
                Err(er) => Err(er),
            }
        }
    }
}

/// The author array at `p`.
pub open spec fn authors_at(s: Seq<char>, p: int) -> Result<(Seq<AuthorView>, int), ParseError> {
    if 0 <= p < s.len() && s[p] == '[' {
        authors_items(s, p + 1, Seq::<AuthorView>::empty(), true)
    } else {
        Err(wrong_value(s, p))
    }
}

fn authors_at_exec(s: &Vec<char>, p: usize) -> (r: Result<(Vec<Author>, usize), ParseError>)
    requires
        p <= s@.len(),
    ensures
        r matches Ok(t) ==> authors_at(s@, p as int) == Ok::<(Seq<AuthorView>, int), ParseError>(
            (t.0.deep_view(), t.1 as int),
        ) && p < t.1 <= s@.len(),
        r matches Err(e) ==> authors_at(s@, p as int) == Err::<(Seq<AuthorView>, int), ParseError>(
            e,
        ),
{
    if !(p < s.len() && s[p] == '[') {
        return Err(wrong_value_exec(s, p));
    }
    let mut acc: Vec<Author> = Vec::new();
    let mut cur: usize = p + 1;
    let mut first: bool = true;
    proof {
        assert(acc.deep_view() =~= Seq::<AuthorView>::empty());
    }
    loop
        invariant
            p < cur <= s@.len(),
            authors_at(s@, p as int) == authors_items(s@, cur as int, acc.deep_view(), first),
        decreases s@.len() - cur,
    {
        let q = ws_end(s, cur);
        if first && q < s.len() && s[q] == ']' {
            return Ok((acc, q + 1));
        }
        match author_at_exec(s, q) {
            Ok((a, e)) => {
                let w = ws_end(s, e);
                let ghost acc0 = acc.deep_view();
                let ghost av = a.deep_view();
                acc.push(a);
                proof {
                    assert(acc.deep_view() =~= acc0.push(av));
                }
                if w < s.len() && s[w] == ']' {
                    return Ok((acc, w + 1));
                }
                if w < s.len() && s[w] == ',' {
                    cur = w + 1;
                    first = false;
                } else {
                    return Err(ParseError::Syntax);
                }
            },
            Err(er) => {
                return Err(er);
            },
        }
    }
}


/// A hub with no fields set.
pub open spec fn empty_hub() -> HubView {
    HubView { hub_type: None, url: None }
}

/// One member of a hub object, dispatched on the key.
pub open spec fn hub_member(s: Seq<char>, y: int, acc: HubView, key: Seq<char>) -> Result<
    (HubView, int),
    ParseError,
> {
    if key == "type"@ {
        match string_field(s, y) {
            Ok((v, e)) => Ok((HubView { hub_type: Some(v), ..acc }, e)),
            Err(er) => Err(er),
        }
    } else if key == "url"@ {
        match string_field(s, y) {
            Ok((v, e)) => Ok((HubView { url: Some(v), ..acc }, e)),
            Err(er) => Err(er),
        }
    } else {
        match skip_value(s, y) {
            Some(e) => Ok((acc, e)),
            None => Err(ParseError::Syntax),
        }
    }
}

/// The members of a hub object from `p` on.
pub open spec fn hub_members(s: Seq<char>, p: int, acc: HubView, first: bool) -> Result<
    (HubView, int),
    ParseError,
>
    decreases s.len() - p,
{
    if !(0 <= p <= s.len()) {
        Err(ParseError::Syntax)
    } else {
        let q = skip_ws(s, p);
        if q < p || q > s.len() {
            Err(ParseError::Syntax)
        } else if first && q < s.len() && s[q] == '}' {
            Ok((acc, q + 1))
        } else {
            match string_at(s, q) {
                Some((key, e)) => if e <= q || e > s.len() {
                    Err(ParseError::Syntax)
                } else {
                    let x = skip_ws(s, e);
                    if x < e || x > s.len() {
                        Err(ParseError::Syntax)
                    } else if x < s.len() && s[x] == ':' {
                        let y = skip_ws(s, x + 1);
                        if y < x + 1 || y > s.len() {
                            Err(ParseError::Syntax)
                        } else {
                            match hub_member(s, y, acc, key) {
                                Ok((acc2, v)) => if v <= y || v > s.len() {
                                    Err(ParseError::Syntax)
                                } else {
                                    let w = skip_ws(s, v);
                                    if w < v || w > s.len() {
                                        Err(ParseError::Syntax)
                                    } else if w < s.len() && s[w] == '}' {
                                        Ok((acc2, w + 1))
                                    } else if w < s.len() && s[w] == ',' {
                                        hub_members(s, w + 1, acc2, false)
                                    } else {
                                        Err(ParseError::Syntax)
                                    }
                                },
                                Err(er) => Err(er),
                            }
                        }
                    } else {
                        Err(ParseError::Syntax)
                    }
                },
                None => Err(ParseError::Syntax),
            }
        }
    }
}

/// The hub object at `p`.
pub open spec fn hub_at(s: Seq<char>, p: int) -> Result<(HubView, int), ParseError> {
    if 0 <= p < s.len() && s[p] == '{' {
        hub_members(s, p + 1, empty_hub(), true)
    } else {
        Err(wrong_value(s, p))
    }
}

fn hub_member_exec(s: &Vec<char>, y: usize, acc: Hub, key: &Vec<char>) -> (r: Result<
    (Hub, usize),
    ParseError,
>)
    requires
        y <= s@.len(),
    ensures
        r matches Ok(t) ==> hub_member(s@, y as int, acc.deep_view(), key@) == Ok::<
            (HubView, int),
            ParseError,
        >((t.0.deep_view(), t.1 as int)) && y < t.1 <= s@.len(),
        r matches Err(e) ==> hub_member(s@, y as int, acc.deep_view(), key@) == Err::<
            (HubView, int),
            ParseError,
        >(e),
{
    if chars_eq_str(key, "type") {
        match string_field_exec(s, y) {
            Ok((v, e)) => Ok((Hub { hub_type: Some(v), ..acc }, e)),
            Err(er) => Err(er),
        }
    } else if chars_eq_str(key, "url") {
        match string_field_exec(s, y) {
            Ok((v, e)) => Ok((Hub { url: Some(v), ..acc }, e)),
            Err(er) => Err(er),
        }
    } else {
        match skip_value_exec(s, y) {
            Some(e) => Ok((acc, e)),
            None => Err(ParseError::Syntax),
        }
    }
}

fn hub_at_exec(s: &Vec<char>, p: usize) -> (r: Result<(Hub, usize), ParseError>)
    requires
        p <= s@.len(),
    ensures
        r matches Ok(t) ==> hub_at(s@, p as int) == Ok::<(HubView, int), ParseError>(
            (t.0.deep_view(), t.1 as int),
        ) && p < t.1 <= s@.len(),
        r matches Err(e) ==> hub_at(s@, p as int) == Err::<(HubView, int), ParseError>(e),
{
    if !(p < s.len() && s[p] == '{') {
        return Err(wrong_value_exec(s, p));
    }
    let mut acc = Hub { hub_type: None, url: None };
    let mut cur: usize = p + 1;
    let mut first: bool = true;
    loop
        invariant
            p < cur <= s@.len(),
            hub_at(s@, p as int) == hub_members(s@, cur as int, acc.deep_view(), first),
        decreases s@.len() - cur,
    {
        let q = ws_end(s, cur);
        if first && q < s.len() && s[q] == '}' {
            return Ok((acc, q + 1));
        }
        if !(q < s.len() && s[q] == '"') {
            proof {
                assert(string_at(s@, q as int) is None);
            }
            return Err(ParseError::Syntax);
        }
        match str_body_exec(s, q + 1) {
            Some((key, e)) => {
                let x = ws_end(s, e);
                if !(x < s.len() && s[x] == ':') {
                    return Err(ParseError::Syntax);
                }
                let y = ws_end(s, x + 1);
                match hub_member_exec(s, y, acc, &key) {
                    Ok((acc2, v)) => {
                        let w = ws_end(s, v);
                        if w < s.len() && s[w] == '}' {
                            return Ok((acc2, w + 1));
                        }
                        if w < s.len() && s[w] == ',' {
                            acc = acc2;
                            cur = w + 1;
                            first = false;
                        } else {
                            return Err(ParseError::Syntax);
                        }
                    },
                    Err(er) => {
                        return Err(er);
                    },
                }
            },
            None => {
                return Err(ParseError::Syntax);
            },
        }
    }
}

/// The elements of a hub array from `p` on.
pub open spec fn hubs_items(s: Seq<char>, p: int, acc: Seq<HubView>, first: bool) -> Result<
    (Seq<HubView>, int),
    ParseError,
>
    decreases s.len() - p,
{
    if !(0 <= p <= s.len()) {
        Err(ParseError::Syntax)
    } else {
        let q = skip_ws(s, p);
        if q < p || q > s.len() {
            Err(ParseError::Syntax)
        } else if first && q < s.len() && s[q] == ']' {
            Ok((acc, q + 1))
        } else {
            match hub_at(s, q) {
                Ok((a, e)) => if e <= q || e > s.len() {
                    Err(ParseError::Syntax)
                } else {
                    let w = skip_ws(s, e);
                    if w < e || w > s.len() {
                        Err(ParseError::Syntax)
                    } else if w < s.len() && s[w] == ']' {
                        Ok((acc.push(a), w + 1))
                    } else if w < s.len() && s[w] == ',' {
                        hubs_items(s, w + 1, acc.push(a), false)
                    } else {
                        Err(ParseError::Syntax)
                    }
                },
                Err(er) => Err(er),
            }
        }
    }
}

/// The hub array at `p`.
pub open spec fn hubs_at(s: Seq<char>, p: int) -> Result<(Seq<HubView>, int), ParseError> {
    if 0 <= p < s.len() && s[p] == '[' {
        hubs_items(s, p + 1, Seq::<HubView>::empty(), true)
    } else {
        Err(wrong_value(s, p))
    }
}

fn hubs_at_exec(s: &Vec<char>, p: usize) -> (r: Result<(Vec<Hub>, usize), ParseError>)
    requires
        p <= s@.len(),
    ensures
        r matches Ok(t) ==> hubs_at(s@, p as int) == Ok::<(Seq<HubView>, int), ParseError>(
            (t.0.deep_view(), t.1 as int),
        ) && p < t.1 <= s@.len(),
        r matches Err(e) ==> hubs_at(s@, p as int) == Err::<(Seq<HubView>, int), ParseError>(e),
{
    if !(p < s.len() && s[p] == '[') {
        return Err(wrong_value_exec(s, p));
    }
    let mut acc: Vec<Hub> = Vec::new();
    let mut cur: usize = p + 1;
    let mut first: bool = true;
    proof {
        assert(acc.deep_view() =~= Seq::<HubView>::empty());
    }
    loop
        invariant
            p < cur <= s@.len(),
            hubs_at(s@, p as int) == hubs_items(s@, cur as int, acc.deep_view(), first),
        decreases s@.len() - cur,
    {
        let q = ws_end(s, cur);
        if first && q < s.len() && s[q] == ']' {
            return Ok((acc, q + 1));
        }
        match hub_at_exec(s, q) {
            Ok((a, e)) => {
                let w = ws_end(s, e);
                let ghost acc0 = acc.deep_view();
                let ghost av = a.deep_view();
                acc.push(a);
                proof {
                    assert(acc.deep_view() =~= acc0.push(av));
                }
                if w < s.len() && s[w] == ']' {
                    return Ok((acc, w + 1));
                }
                if w < s.len() && s[w] == ',' {
                    cur = w + 1;
                    first = false;
                } else {
                    return Err(ParseError::Syntax);
                }
            },
            Err(er) => {
                return Err(er);
            },
        }
    }
}

/// The elements of a string array from `p` on.
pub open spec fn strings_items(s: Seq<char>, p: int, acc: Seq<Seq<char>>, first: bool) -> Result<
    (Seq<Seq<char>>, int),
    ParseError,
>
    decreases s.len() - p,
{
    if !(0 <= p <= s.len()) {
        Err(ParseError::Syntax)
    } else {
        let q = skip_ws(s, p);
        if q < p || q > s.len() {
            Err(ParseError::Syntax)
        } else if first && q < s.len() && s[q] == ']' {
            Ok((acc, q + 1))
        } else {
            match string_field(s, q) {
                Ok((a, e)) => if e <= q || e > s.len() {
                    Err(ParseError::Syntax)
                } else {
                    let w = skip_ws(s, e);
                    if w < e || w > s.len() {
                        Err(ParseError::Syntax)
                    } else if w < s.len() && s[w] == ']' {
                        Ok((acc.push(a), w + 1))
                    } else if w < s.len() && s[w] == ',' {
                        strings_items(s, w + 1, acc.push(a), false)
                    } else {
                        Err(ParseError::Syntax)
                    }
                },
                Err(er) => Err(er),
            }
        }
    }
}

/// The string array at `p`.
pub open spec fn strings_at(s: Seq<char>, p: int) -> Result<(Seq<Seq<char>>, int), ParseError> {
    if 0 <= p < s.len() && s[p] == '[' {
        strings_items(s, p + 1, Seq::<Seq<char>>::empty(), true)
    } else {
        Err(wrong_value(s, p))
    }
}

fn strings_at_exec(s: &Vec<char>, p: usize) -> (r: Result<(Vec<String>, usize), ParseError>)
    requires
        p <= s@.len(),
    ensures
        r matches Ok(t) ==> strings_at(s@, p as int) == Ok::<(Seq<Seq<char>>, int), ParseError>(
            (t.0.deep_view(), t.1 as int),
        ) && p < t.1 <= s@.len(),
        r matches Err(e) ==> strings_at(s@, p as int) == Err::<(Seq<Seq<char>>, int), ParseError>(
            e,
        ),
{
    if !(p < s.len() && s[p] == '[') {
        return Err(wrong_value_exec(s, p));
    }
    let mut acc: Vec<String> = Vec::new();
    let mut cur: usize = p + 1;
    let mut first: bool = true;
    proof {
        assert(acc.deep_view() =~= Seq::<Seq<char>>::empty());
    }
    loop
        invariant
            p < cur <= s@.len(),
            strings_at(s@, p as int) == strings_items(s@, cur as int, acc.deep_view(), first),
        decreases s@.len() - cur,
    {
        let q = ws_end(s, cur);
        if first && q < s.len() && s[q] == ']' {
            return Ok((acc, q + 1));
        }
        match string_field_exec(s, q) {
            Ok((a, e)) => {
                let w = ws_end(s, e);
                let ghost acc0 = acc.deep_view();
                let ghost av = a@;
                acc.push(a);
                proof {
                    assert(acc.deep_view() =~= acc0.push(av));
                }
                if w < s.len() && s[w] == ']' {
                    return Ok((acc, w + 1));
                }
                if w < s.len() && s[w] == ',' {
                    cur = w + 1;
                    first = false;
                } else {
                    return Err(ParseError::Syntax);
                }
            },
            Err(er) => {
                return Err(er);
            },
        }
    }
}

/// The fields of an attachment while its object is being read; `url` and
/// `mime_type` are still optional here and enforced at the closing brace.
pub struct AttachmentAcc {
    pub url: Option<String>,
    pub mime_type: Option<String>,
    pub title: Option<String>,
    pub size_in_bytes: Option<u64>,
    pub duration_in_seconds: Option<u64>,
}

/// Ghost view of an [`AttachmentAcc`].
pub struct AttachmentAccView {
    pub url: Option<Seq<char>>,
    pub mime_type: Option<Seq<char>>,
    pub title: Option<Seq<char>>,
    pub size_in_bytes: Option<u64>,
    pub duration_in_seconds: Option<u64>,
}

impl DeepView for AttachmentAcc {
    type V = AttachmentAccView;

    open spec fn deep_view(&self) -> AttachmentAccView {
        AttachmentAccView {
            url: self.url.deep_view(),
            mime_type: self.mime_type.deep_view(),
            title: self.title.deep_view(),
            size_in_bytes: self.size_in_bytes,
            duration_in_seconds: self.duration_in_seconds,
        }
    }
}

/// An attachment with no fields set.
pub open spec fn empty_attachment() -> AttachmentAccView {
    AttachmentAccView {
        url: None,
        mime_type: None,
        title: None,
        size_in_bytes: None,
        duration_in_seconds: None,
    }
}

/// One member of an attachment object, dispatched on the key.
pub open spec fn attachment_member(
    s: Seq<char>,
    y: int,
    acc: AttachmentAccView,
    key: Seq<char>,
) -> Result<(AttachmentAccView, int), ParseError> {
    if key == "url"@ {
        match string_field(s, y) {
            Ok((v, e)) => Ok((AttachmentAccView { url: Some(v), ..acc }, e)),
            Err(er) => Err(er),
        }
    } else if key == "mime_type"@ {
        match string_field(s, y) {
            Ok((v, e)) => Ok((AttachmentAccView { mime_type: Some(v), ..acc }, e)),
            Err(er) => Err(er),
        }
    } else if key == "title"@ {
        match string_field(s, y) {
            Ok((v, e)) => Ok((AttachmentAccView { title: Some(v), ..acc }, e)),
            Err(er) => Err(er),
        }
    } else if key == "size_in_bytes"@ {
        match u64_field(s, y) {
            Ok((v, e)) => Ok((AttachmentAccView { size_in_bytes: Some(v), ..acc }, e)),
            Err(er) => Err(er),
        }
    } else if key == "duration_in_seconds"@ {
        match u64_field(s, y) {
            Ok((v, e)) => Ok((AttachmentAccView { duration_in_seconds: Some(v), ..acc }, e)),
            Err(er) => Err(er),
        }
    } else {
        match skip_value(s, y) {
            Some(e) => Ok((acc, e)),
            None => Err(ParseError::Syntax),
        }
    }
}

/// The members of an attachment object from `p` on.
pub open spec fn attachment_members(
    s: Seq<char>,
    p: int,
    acc: AttachmentAccView,
    first: bool,
) -> Result<(AttachmentAccView, int), ParseError>
    decreases s.len() - p,
{
    if !(0 <= p <= s.len()) {
        Err(ParseError::Syntax)
    } else {
        let q = skip_ws(s, p);
        if q < p || q > s.len() {
            Err(ParseError::Syntax)
        } else if first && q < s.len() && s[q] == '}' {
            Ok((acc, q + 1))
        } else {
            match string_at(s, q) {
                Some((key, e)) => if e <= q || e > s.len() {
                    Err(ParseError::Syntax)
                } else {
                    let x = skip_ws(s, e);
                    if x < e || x > s.len() {
                        Err(ParseError::Syntax)
                    } else if x < s.len() && s[x] == ':' {
                        let y = skip_ws(s, x + 1);
                        if y < x + 1 || y > s.len() {
                            Err(ParseError::Syntax)
                        } else {
                            match attachment_member(s, y, acc, key) {
                                Ok((acc2, v)) => if v <= y || v > s.len() {
                                    Err(ParseError::Syntax)
                                } else {
                                    let w = skip_ws(s, v);
                                    if w < v || w > s.len() {
                                        Err(ParseError::Syntax)
                                    } else if w < s.len() && s[w] == '}' {
                                        Ok((acc2, w + 1))
                                    } else if w < s.len() && s[w] == ',' {
                                        attachment_members(s, w + 1, acc2, false)
                                    } else {
                                        Err(ParseError::Syntax)
                                    }
                                },
                                Err(er) => Err(er),
                            }
                        }
                    } else {
                        Err(ParseError::Syntax)
                    }
                },
                None => Err(ParseError::Syntax),
            }
        }
    }
}

/// The finished attachment: `url` and `mime_type` are required.
pub open spec fn finish_attachment(acc: AttachmentAccView) -> Result<AttachmentView, ParseError> {
    match (acc.url, acc.mime_type) {
        (Some(u), Some(m)) => Ok(
            AttachmentView {
                url: u,
                mime_type: m,
                title: acc.title,
                size_in_bytes: acc.size_in_bytes,
                duration_in_seconds: acc.duration_in_seconds,
            },
        ),
        _ => Err(ParseError::MissingField),
    }
}

/// The attachment object at `p`.
pub open spec fn attachment_at(s: Seq<char>, p: int) -> Result<(AttachmentView, int), ParseError> {
    if 0 <= p < s.len() && s[p] == '{' {
        match attachment_members(s, p + 1, empty_attachment(), true) {
            Ok((acc, e)) => match finish_attachment(acc) {
                Ok(a) => Ok((a, e)),
                Err(er) => Err(er),
            },
            Err(er) => Err(er),
        }
    } else {
        Err(wrong_value(s, p))
    }
}

fn attachment_member_exec(s: &Vec<char>, y: usize, acc: AttachmentAcc, key: &Vec<char>) -> (r:
    Result<(AttachmentAcc, usize), ParseError>)
    requires
        y <= s@.len(),
    ensures
        r matches Ok(t) ==> attachment_member(s@, y as int, acc.deep_view(), key@) == Ok::<
            (AttachmentAccView, int),
            ParseError,
        >((t.0.deep_view(), t.1 as int)) && y < t.1 <= s@.len(),
        r matches Err(e) ==> attachment_member(s@, y as int, acc.deep_view(), key@) == Err::<
            (AttachmentAccView, int),
            ParseError,
        >(e),
{
    if chars_eq_str(key, "url") {
        match string_field_exec(s, y) {
            Ok((v, e)) => Ok((AttachmentAcc { url: Some(v), ..acc }, e)),
            Err(er) => Err(er),
        }
    } else if chars_eq_str(key, "mime_type") {
        match string_field_exec(s, y) {
            Ok((v, e)) => Ok((AttachmentAcc { mime_type: Some(v), ..acc }, e)),
            Err(er) => Err(er),
        }
    } else if chars_eq_str(key, "title") {
        match string_field_exec(s, y) {
            Ok((v, e)) => Ok((AttachmentAcc { title: Some(v), ..acc }, e)),
            Err(er) => Err(er),
        }
    } else if chars_eq_str(key, "size_in_bytes") {
        match u64_field_exec(s, y) {
            Ok((v, e)) => Ok((AttachmentAcc { size_in_bytes: Some(v), ..acc }, e)),
            Err(er) => Err(er),
        }
    } else if chars_eq_str(key, "duration_in_seconds") {
        match u64_field_exec(s, y) {
            Ok((v, e)) => Ok((AttachmentAcc { duration_in_seconds: Some(v), ..acc }, e)),
            Err(er) => Err(er),
        }
    } else {
        match skip_value_exec(s, y) {
            Some(e) => Ok((acc, e)),
            None => Err(ParseError::Syntax),
        }
    }
}

fn attachment_at_exec(s: &Vec<char>, p: usize) -> (r: Result<(Attachment, usize), ParseError>)
    requires
        p <= s@.len(),
    ensures
        r matches Ok(t) ==> attachment_at(s@, p as int) == Ok::<(AttachmentView, int), ParseError>(
            (t.0.deep_view(), t.1 as int),
        ) && p < t.1 <= s@.len(),
        r matches Err(e) ==> attachment_at(s@, p as int) == Err::<(AttachmentView, int), ParseError>(
            e,
        ),
{
    if !(p < s.len() && s[p] == '{') {
        return Err(wrong_value_exec(s, p));
    }
    let mut acc = AttachmentAcc {
        url: None,
        mime_type: None,
        title: None,
        size_in_bytes: None,
        duration_in_seconds: None,
    };
    let mut cur: usize = p + 1;
    let mut first: bool = true;
    loop
        invariant
            p < cur <= s@.len(),
            attachment_members(s@, p + 1 as int, empty_attachment(), true) == attachment_members(
                s@,
                cur as int,
                acc.deep_view(),
                first,
            ),
            s@[p as int] == '{' && p < s@.len(),
        decreases s@.len() - cur,
    {
        let q = ws_end(s, cur);
        if first && q < s.len() && s[q] == '}' {
            return match (acc.url, acc.mime_type) {
                (Some(u), Some(m)) => Ok(
                    (
                        Attachment {
                            url: u,
                            mime_type: m,
                            title: acc.title,
                            size_in_bytes: acc.size_in_bytes,
                            duration_in_seconds: acc.duration_in_seconds,
                        },
                        q + 1,
                    ),
                ),
                _ => Err(ParseError::MissingField),
            };
        }
        if !(q < s.len() && s[q] == '"') {
            proof {
                assert(string_at(s@, q as int) is None);
            }
            return Err(ParseError::Syntax);
        }
        match str_body_exec(s, q + 1) {
            Some((key, e)) => {
                let x = ws_end(s, e);
                if !(x < s.len() && s[x] == ':') {
                    return Err(ParseError::Syntax);
                }
                let y = ws_end(s, x + 1);
                match attachment_member_exec(s, y, acc, &key) {
                    Ok((acc2, v)) => {
                        let w = ws_end(s, v);
                        if w < s.len() && s[w] == '}' {
                            return match (acc2.url, acc2.mime_type) {
                                (Some(u), Some(m)) => Ok(
                                    (
                                        Attachment {
                                            url: u,
                                            mime_type: m,
                                            title: acc2.title,
                                            size_in_bytes: acc2.size_in_bytes,
                                            duration_in_seconds: acc2.duration_in_seconds,
                                        },
                                        w + 1,
                                    ),
                                ),
                                _ => Err(ParseError::MissingField),
                            };
                        }
                        if w < s.len() && s[w] == ',' {
                            acc = acc2;
                            cur = w + 1;
                            first = false;
                        } else {
                            return Err(ParseError::Syntax);
                        }
                    },
                    Err(er) => {
                        return Err(er);
                    },
                }
            },
            None => {
                return Err(ParseError::Syntax);
            },
        }
    }
}

/// The elements of an attachment array from `p` on.
pub open spec fn attachments_items(
    s: Seq<char>,
    p: int,
    acc: Seq<AttachmentView>,
    first: bool,
) -> Result<(Seq<AttachmentView>, int), ParseError>
    decreases s.len() - p,
{
    if !(0 <= p <= s.len()) {
        Err(ParseError::Syntax)
    } else {
        let q = skip_ws(s, p);
        if q < p || q > s.len() {
            Err(ParseError::Syntax)
        } else if first && q < s.len() && s[q] == ']' {
            Ok((acc, q + 1))
        } else {
            match attachment_at(s, q) {
                Ok((a, e)) => if e <= q || e > s.len() {
                    Err(ParseError::Syntax)
                } else {
                    let w = skip_ws(s, e);
                    if w < e || w > s.len() {
                        Err(ParseError::Syntax)
                    } else if w < s.len() && s[w] == ']' {
                        Ok((acc.push(a), w + 1))
                    } else if w < s.len() && s[w] == ',' {
                        attachments_items(s, w + 1, acc.push(a), false)
                    } else {
                        Err(ParseError::Syntax)
                    }
                },
                Err(er) => Err(er),
            }
        }
    }
}

/// The attachment array at `p`.
pub open spec fn attachments_at(s: Seq<char>, p: int) -> Result<
    (Seq<AttachmentView>, int),
    ParseError,
> {
    if 0 <= p < s.len() && s[p] == '[' {
        attachments_items(s, p + 1, Seq::<AttachmentView>::empty(), true)
    } else {
        Err(wrong_value(s, p))
    }
}

fn attachments_at_exec(s: &Vec<char>, p: usize) -> (r: Result<(Vec<Attachment>, usize), ParseError>)
    requires
        p <= s@.len(),
    ensures
        r matches Ok(t) ==> attachments_at(s@, p as int) == Ok::<
            (Seq<AttachmentView>, int),
            ParseError,
        >((t.0.deep_view(), t.1 as int)) && p < t.1 <= s@.len(),
        r matches Err(e) ==> attachments_at(s@, p as int) == Err::<
            (Seq<AttachmentView>, int),
            ParseError,
        >(e),
{
    if !(p < s.len() && s[p] == '[') {
        return Err(wrong_value_exec(s, p));
    }
    let mut acc: Vec<Attachment> = Vec::new();
    let mut cur: usize = p + 1;
    let mut first: bool = true;
    proof {
        assert(acc.deep_view() =~= Seq::<AttachmentView>::empty());
    }
    loop
        invariant
            p < cur <= s@.len(),
            attachments_at(s@, p as int) == attachments_items(
                s@,
                cur as int,
                acc.deep_view(),
                first,
            ),
        decreases s@.len() - cur,
    {
        let q = ws_end(s, cur);
        if first && q < s.len() && s[q] == ']' {
            return Ok((acc, q + 1));
        }
        match attachment_at_exec(s, q) {
            Ok((a, e)) => {
                let w = ws_end(s, e);
                let ghost acc0 = acc.deep_view();
                let ghost av = a.deep_view();
                acc.push(a);
                proof {
                    assert(acc.deep_view() =~= acc0.push(av));
                }
                if w < s.len() && s[w] == ']' {
                    return Ok((acc, w + 1));
                }
                if w < s.len() && s[w] == ',' {
                    cur = w + 1;
                    first = false;
                } else {
                    return Err(ParseError::Syntax);
                }
            },
            Err(er) => {
                return Err(er);
            },
        }
    }
}


/// The fields of an item while its object is being read; `id` is still
/// optional here and enforced at the closing brace.
pub struct ItemAcc {
    pub id: Option<String>,
    pub url: Option<String>,
    pub external_url: Option<String>,
    pub title: Option<String>,
    pub content_html: Option<String>,
    pub content_text: Option<String>,
    pub summary: Option<String>,
    pub image: Option<String>,
    pub banner_image: Option<String>,
    pub date_published: Option<String>,
    pub date_modified: Option<String>,
    pub author: Option<Author>,
    pub authors: Option<Vec<Author>>,
    pub tags: Option<Vec<String>>,
    pub language: Option<String>,
    pub attachments: Option<Vec<Attachment>>,
}

/// Ghost view of an [`ItemAcc`].
pub struct ItemAccView {
    pub id: Option<Seq<char>>,
    pub url: Option<Seq<char>>,
    pub external_url: Option<Seq<char>>,
    pub title: Option<Seq<char>>,
    pub content_html: Option<Seq<char>>,
    pub content_text: Option<Seq<char>>,
    pub summary: Option<Seq<char>>,
    pub image: Option<Seq<char>>,
    pub banner_image: Option<Seq<char>>,
    pub date_published: Option<Seq<char>>,
    pub date_modified: Option<Seq<char>>,
    pub author: Option<AuthorView>,
    pub authors: Option<Seq<AuthorView>>,
    pub tags: Option<Seq<Seq<char>>>,
    pub language: Option<Seq<char>>,
    pub attachments: Option<Seq<AttachmentView>>,
}

impl DeepView for ItemAcc {
    type V = ItemAccView;

    open spec fn deep_view(&self) -> ItemAccView {
        ItemAccView {
            id: self.id.deep_view(),
            url: self.url.deep_view(),
            external_url: self.external_url.deep_view(),
            title: self.title.deep_view(),
            content_html: self.content_html.deep_view(),
            content_text: self.content_text.deep_view(),
            summary: self.summary.deep_view(),
            image: self.image.deep_view(),
            banner_image: self.banner_image.deep_view(),
            date_published: self.date_published.deep_view(),
            date_modified: self.date_modified.deep_view(),
            author: self.author.deep_view(),
            authors: self.authors.deep_view(),
            tags: self.tags.deep_view(),
            language: self.language.deep_view(),
            attachments: self.attachments.deep_view(),
        }
    }
}

/// An item with no fields set.
pub open spec fn empty_item() -> ItemAccView {
    ItemAccView {
        id: None,
        url: None,
        external_url: None,
        title: None,
        content_html: None,
        content_text: None,
        summary: None,
        image: None,
        banner_image: None,
        date_published: None,
        date_modified: None,
        author: None,
        authors: None,
        tags: None,
        language: None,
        attachments: None,
    }
}

/// One member of an item object, dispatched on the key.
pub open spec fn item_member(s: Seq<char>, y: int, acc: ItemAccView, key: Seq<char>) -> Result<
    (ItemAccView, int),
    ParseError,
> {
    if key == "id"@ {
        match string_field(s, y) {
            Ok((v, e)) => Ok((ItemAccView { id: Some(v), ..acc }, e)),
            Err(er) => Err(er),
        }
    } else if key == "url"@ {
        match string_field(s, y) {
            Ok((v, e)) => Ok((ItemAccView { url: Some(v), ..acc }, e)),
            Err(er) => Err(er),
        }
    } else if key == "external_url"@ {
        match string_field(s, y) {
            Ok((v, e)) => Ok((ItemAccView { external_url: Some(v), ..acc }, e)),
            Err(er) => Err(er),
        }
    } else if key == "title"@ {
        match string_field(s, y) {
            Ok((v, e)) => Ok((ItemAccView { title: Some(v), ..acc }, e)),
            Err(er) => Err(er),
        }
    } else if key == "content_html"@ {
        match string_field(s, y) {
            Ok((v, e)) => Ok((ItemAccView { content_html: Some(v), ..acc }, e)),
            Err(er) => Err(er),
        }
    } else if key == "content_text"@ {
        match string_field(s, y) {
            Ok((v, e)) => Ok((ItemAccView { content_text: Some(v), ..acc }, e)),
            Err(er) => Err(er),
        }
    } else if key == "summary"@ {
        match string_field(s, y) {
            Ok((v, e)) => Ok((ItemAccView { summary: Some(v), ..acc }, e)),
            Err(er) => Err(er),
        }
    } else if key == "image"@ {
        match string_field(s, y) {
            Ok((v, e)) => Ok((ItemAccView { image: Some(v), ..acc }, e)),
            Err(er) => Err(er),
        }
    } else if key == "banner_image"@ {
        match string_field(s, y) {
            Ok((v, e)) => Ok((ItemAccView { banner_image: Some(v), ..acc }, e)),
            Err(er) => Err(er),
        }
    } else if key == "date_published"@ {
        match string_field(s, y) {
            Ok((v, e)) => Ok((ItemAccView { date_published: Some(v), ..acc }, e)),
            Err(er) => Err(er),
        }
    } else if key == "date_modified"@ {
        match string_field(s, y) {
            Ok((v, e)) => Ok((ItemAccView { date_modified: Some(v), ..acc }, e)),
            Err(er) => Err(er),
        }
    } else if key == "author"@ {
        match author_at(s, y) {
            Ok((v, e)) => Ok((ItemAccView { author: Some(v), ..acc }, e)),
            Err(er) => Err(er),
        }
    } else if key == "authors"@ {
        match authors_at(s, y) {
            Ok((v, e)) => Ok((ItemAccView { authors: Some(v), ..acc }, e)),
            Err(er) => Err(er),
        }
    } else if key == "tags"@ {
        match strings_at(s, y) {
            Ok((v, e)) => Ok((ItemAccView { tags: Some(v), ..acc }, e)),
            Err(er) => Err(er),
        }
    } else if key == "language"@ {
        match string_field(s, y) {
            Ok((v, e)) => Ok((ItemAccView { language: Some(v), ..acc }, e)),
            Err(er) => Err(er),
        }
    } else if key == "attachments"@ {
        match attachments_at(s, y) {
            Ok((v, e)) => Ok((ItemAccView { attachments: Some(v), ..acc }, e)),
            Err(er) => Err(er),
        }
    } else {
        match skip_value(s, y) {
            Some(e) => Ok((acc, e)),
            None => Err(ParseError::Syntax),
        }
    }
}

/// The members of an item object from `p` on.
pub open spec fn item_members(s: Seq<char>, p: int, acc: ItemAccView, first: bool) -> Result<
    (ItemAccView, int),
    ParseError,
>
    decreases s.len() - p,
{
    if !(0 <= p <= s.len()) {
        Err(ParseError::Syntax)
    } else {
        let q = skip_ws(s, p);
        if q < p || q > s.len() {
            Err(ParseError::Syntax)
        } else if first && q < s.len() && s[q] == '}' {
            Ok((acc, q + 1))
        } else {
            match string_at(s, q) {
                Some((key, e)) => if e <= q || e > s.len() {
                    Err(ParseError::Syntax)
                } else {
                    let x = skip_ws(s, e);
                    if x < e || x > s.len() {
                        Err(ParseError::Syntax)
                    } else if x < s.len() && s[x] == ':' {
                        let y = skip_ws(s, x + 1);
                        if y < x + 1 || y > s.len() {
                            Err(ParseError::Syntax)
                        } else {
                            match item_member(s, y, acc, key) {
                                Ok((acc2, v)) => if v <= y || v > s.len() {
                                    Err(ParseError::Syntax)
                                } else {
                                    let w = skip_ws(s, v);
                                    if w < v || w > s.len() {
                                        Err(ParseError::Syntax)
                                    } else if w < s.len() && s[w] == '}' {
                                        Ok((acc2, w + 1))
                                    } else if w < s.len() && s[w] == ',' {
                                        item_members(s, w + 1, acc2, false)
                                    } else {
                                        Err(ParseError::Syntax)
                                    }
                                },
                                Err(er) => Err(er),
                            }
                        }
                    } else {
                        Err(ParseError::Syntax)
                    }
                },
                None => Err(ParseError::Syntax),
            }
        }
    }
}

/// The finished item: `id` is required.
pub open spec fn finish_item(acc: ItemAccView) -> Result<ItemView, ParseError> {
    match acc.id {
        Some(id) => Ok(
            ItemView {
                id: id,
                url: acc.url,
                external_url: acc.external_url,
                title: acc.title,
                content_html: acc.content_html,
                content_text: acc.content_text,
                summary: acc.summary,
                image: acc.image,
                banner_image: acc.banner_image,
                date_published: acc.date_published,
                date_modified: acc.date_modified,
                author: acc.author,
                authors: acc.authors,
                tags: acc.tags,
                language: acc.language,
                attachments: acc.attachments,
            },
        ),
        None => Err(ParseError::MissingField),
    }
}

/// The item object at `p`.
pub open spec fn item_at(s: Seq<char>, p: int) -> Result<(ItemView, int), ParseError> {
    if 0 <= p < s.len() && s[p] == '{' {
        match item_members(s, p + 1, empty_item(), true) {
            Ok((acc, e)) => match finish_item(acc) {
                Ok(it) => Ok((it, e)),
                Err(er) => Err(er),
            },
            Err(er) => Err(er),
        }
    } else {
        Err(wrong_value(s, p))
    }
}

#[verifier::rlimit(100)]
fn item_member_str_exec(s: &Vec<char>, y: usize, acc: ItemAcc, key: &Vec<char>) -> (r: Result<
    Result<(ItemAcc, usize), ParseError>,
    ItemAcc,
>)
    requires
        y <= s@.len(),
    ensures
        r matches Ok(res) ==> ({
            &&& (res matches Ok(t) ==> item_member(s@, y as int, acc.deep_view(), key@) == Ok::<
                (ItemAccView, int),
                ParseError,
            >((t.0.deep_view(), t.1 as int)) && y < t.1 <= s@.len())
            &&& (res matches Err(e) ==> item_member(s@, y as int, acc.deep_view(), key@) == Err::<
                (ItemAccView, int),
                ParseError,
            >(e))
        }),
        r matches Err(back) ==> back == acc && key@ != "id"@ && key@ != "url"@ && key@
            != "external_url"@ && key@ != "title"@ && key@ != "content_html"@ && key@
            != "content_text"@ && key@ != "summary"@ && key@ != "image"@ && key@
            != "banner_image"@ && key@ != "date_published"@ && key@ != "date_modified"@,
{
    if chars_eq_str(key, "id") {
        match string_field_exec(s, y) {
            Ok((v, e)) => Ok(Ok((ItemAcc { id: Some(v), ..acc }, e))),
            Err(er) => Ok(Err(er)),
        }
    } else if chars_eq_str(key, "url") {
        match string_field_exec(s, y) {
            Ok((v, e)) => Ok(Ok((ItemAcc { url: Some(v), ..acc }, e))),
            Err(er) => Ok(Err(er)),
        }
    } else if chars_eq_str(key, "external_url") {
        match string_field_exec(s, y) {
            Ok((v, e)) => Ok(Ok((ItemAcc { external_url: Some(v), ..acc }, e))),
            Err(er) => Ok(Err(er)),
        }
    } else if chars_eq_str(key, "title") {
        match string_field_exec(s, y) {
            Ok((v, e)) => Ok(Ok((ItemAcc { title: Some(v), ..acc }, e))),
            Err(er) => Ok(Err(er)),
        }
    } else if chars_eq_str(key, "content_html") {
        match string_field_exec(s, y) {
            Ok((v, e)) => Ok(Ok((ItemAcc { content_html: Some(v), ..acc }, e))),
            Err(er) => Ok(Err(er)),
        }
    } else if chars_eq_str(key, "content_text") {
        match string_field_exec(s, y) {
            Ok((v, e)) => Ok(Ok((ItemAcc { content_text: Some(v), ..acc }, e))),
            Err(er) => Ok(Err(er)),
        }
    } else if chars_eq_str(key, "summary") {
        match string_field_exec(s, y) {
            Ok((v, e)) => Ok(Ok((ItemAcc { summary: Some(v), ..acc }, e))),
            Err(er) => Ok(Err(er)),
        }
    } else if chars_eq_str(key, "image") {
        match string_field_exec(s, y) {
            Ok((v, e)) => Ok(Ok((ItemAcc { image: Some(v), ..acc }, e))),
            Err(er) => Ok(Err(er)),
        }
    } else if chars_eq_str(key, "banner_image") {
        match string_field_exec(s, y) {
            Ok((v, e)) => Ok(Ok((ItemAcc { banner_image: Some(v), ..acc }, e))),
            Err(er) => Ok(Err(er)),
        }
    } else if chars_eq_str(key, "date_published") {
        match string_field_exec(s, y) {
            Ok((v, e)) => Ok(Ok((ItemAcc { date_published: Some(v), ..acc }, e))),
            Err(er) => Ok(Err(er)),
        }
    } else if chars_eq_str(key, "date_modified") {
        match string_field_exec(s, y) {
            Ok((v, e)) => Ok(Ok((ItemAcc { date_modified: Some(v), ..acc }, e))),
            Err(er) => Ok(Err(er)),
        }
    } else {
        Err(acc)
    }
}

#[verifier::rlimit(100)]
fn item_member_exec(s: &Vec<char>, y: usize, acc: ItemAcc, key: &Vec<char>) -> (r: Result<
    (ItemAcc, usize),
    ParseError,
>)
    requires
        y <= s@.len(),
    ensures
        r matches Ok(t) ==> item_member(s@, y as int, acc.deep_view(), key@) == Ok::<
            (ItemAccView, int),
            ParseError,
        >((t.0.deep_view(), t.1 as int)) && y < t.1 <= s@.len(),
        r matches Err(e) ==> item_member(s@, y as int, acc.deep_view(), key@) == Err::<
            (ItemAccView, int),
            ParseError,
        >(e),
{
    let acc = match item_member_str_exec(s, y, acc, key) {
        Ok(res) => {
            return res;
        },
        Err(back) => back,
    };
    if chars_eq_str(key, "author") {
        match author_at_exec(s, y) {
            Ok((v, e)) => Ok((ItemAcc { author: Some(v), ..acc }, e)),
            Err(er) => Err(er),
        }
    } else if chars_eq_str(key, "authors") {
        match authors_at_exec(s, y) {
            Ok((v, e)) => Ok((ItemAcc { authors: Some(v), ..acc }, e)),
            Err(er) => Err(er),
        }
    } else if chars_eq_str(key, "tags") {
        match strings_at_exec(s, y) {
            Ok((v, e)) => Ok((ItemAcc { tags: Some(v), ..acc }, e)),
            Err(er) => Err(er),
        }
    } else if chars_eq_str(key, "language") {
        match string_field_exec(s, y) {
            Ok((v, e)) => Ok((ItemAcc { language: Some(v), ..acc }, e)),
            Err(er) => Err(er),
        }
    } else if chars_eq_str(key, "attachments") {
        match attachments_at_exec(s, y) {
            Ok((v, e)) => Ok((ItemAcc { attachments: Some(v), ..acc }, e)),
            Err(er) => Err(er),
        }
    } else {
        match skip_value_exec(s, y) {
            Some(e) => Ok((acc, e)),
            None => Err(ParseError::Syntax),
        }
    }
}

fn finish_item_exec(acc: ItemAcc) -> (r: Result<Item, ParseError>)
    ensures
        r matches Ok(it) ==> finish_item(acc.deep_view()) == Ok::<ItemView, ParseError>(
            it.deep_view(),
        ),
        r matches Err(e) ==> finish_item(acc.deep_view()) == Err::<ItemView, ParseError>(e),
{
    match acc.id {
        Some(id) => Ok(
            Item {
                id: id,
                url: acc.url,
                external_url: acc.external_url,
                title: acc.title,
                content_html: acc.content_html,
                content_text: acc.content_text,
                summary: acc.summary,
                image: acc.image,
                banner_image: acc.banner_image,
                date_published: acc.date_published,
                date_modified: acc.date_modified,
                author: acc.author,
                authors: acc.authors,
                tags: acc.tags,
                language: acc.language,
                attachments: acc.attachments,
            },
        ),
        None => Err(ParseError::MissingField),
    }
}

fn item_at_exec(s: &Vec<char>, p: usize) -> (r: Result<(Item, usize), ParseError>)
    requires
        p <= s@.len(),
    ensures
        r matches Ok(t) ==> item_at(s@, p as int) == Ok::<(ItemView, int), ParseError>(
            (t.0.deep_view(), t.1 as int),
        ) && p < t.1 <= s@.len(),
        r matches Err(e) ==> item_at(s@, p as int) == Err::<(ItemView, int), ParseError>(e),
{
    if !(p < s.len() && s[p] == '{') {
        return Err(wrong_value_exec(s, p));
    }
    let mut acc = ItemAcc {
        id: None,
        url: None,
        external_url: None,
        title: None,
        content_html: None,
        content_text: None,
        summary: None,
        image: None,
        banner_image: None,
        date_published: None,
        date_modified: None,
        author: None,
        authors: None,
        tags: None,
        language: None,
        attachments: None,
    };
    let mut cur: usize = p + 1;
    let mut first: bool = true;
    loop
        invariant
            p < cur <= s@.len(),
            item_members(s@, p + 1 as int, empty_item(), true) == item_members(
                s@,
                cur as int,
                acc.deep_view(),
                first,
            ),
            s@[p as int] == '{' && p < s@.len(),
        decreases s@.len() - cur,
    {
        let q = ws_end(s, cur);
        if first && q < s.len() && s[q] == '}' {
            return match finish_item_exec(acc) {
                Ok(it) => Ok((it, q + 1)),
                Err(er) => Err(er),
            };
        }
        if !(q < s.len() && s[q] == '"') {
            proof {
                assert(string_at(s@, q as int) is None);
            }
            return Err(ParseError::Syntax);
        }
        match str_body_exec(s, q + 1) {
            Some((key, e)) => {
                let x = ws_end(s, e);
                if !(x < s.len() && s[x] == ':') {
                    return Err(ParseError::Syntax);
                }
                let y = ws_end(s, x + 1);
                match item_member_exec(s, y, acc, &key) {
                    Ok((acc2, v)) => {
                        let w = ws_end(s, v);
                        if w < s.len() && s[w] == '}' {
                            return match finish_item_exec(acc2) {
                                Ok(it) => Ok((it, w + 1)),
                                Err(er) => Err(er),
                            };
                        }
                        if w < s.len() && s[w] == ',' {
                            acc = acc2;
                            cur = w + 1;
                            first = false;
                        } else {
                            return Err(ParseError::Syntax);
                        }
                    },
                    Err(er) => {
                        return Err(er);
                    },
                }
            },
            None => {
                return Err(ParseError::Syntax);
            },
        }
    }
}

/// The elements of an item array from `p` on.
pub open spec fn items_items(s: Seq<char>, p: int, acc: Seq<ItemView>, first: bool) -> Result<
    (Seq<ItemView>, int),
    ParseError,
>
    decreases s.len() - p,
{
    if !(0 <= p <= s.len()) {
        Err(ParseError::Syntax)
    } else {
        let q = skip_ws(s, p);
        if q < p || q > s.len() {
            Err(ParseError::Syntax)
        } else if first && q < s.len() && s[q] == ']' {
            Ok((acc, q + 1))
        } else {
            match item_at(s, q) {
                Ok((a, e)) => if e <= q || e > s.len() {
                    Err(ParseError::Syntax)
                } else {
                    let w = skip_ws(s, e);
                    if w < e || w > s.len() {
                        Err(ParseError::Syntax)
                    } else if w < s.len() && s[w] == ']' {
                        Ok((acc.push(a), w + 1))
                    } else if w < s.len() && s[w] == ',' {
                        items_items(s, w + 1, acc.push(a), false)
                    } else {
                        Err(ParseError::Syntax)
                    }
                },
                Err(er) => Err(er),
            }
        }
    }
}

/// The item array at `p`.
pub open spec fn items_at(s: Seq<char>, p: int) -> Result<(Seq<ItemView>, int), ParseError> {
    if 0 <= p < s.len() && s[p] == '[' {
        items_items(s, p + 1, Seq::<ItemView>::empty(), true)
    } else {
        Err(wrong_value(s, p))
    }
}

fn items_at_exec(s: &Vec<char>, p: usize) -> (r: Result<(Vec<Item>, usize), ParseError>)
    requires
        p <= s@.len(),
    ensures
        r matches Ok(t) ==> items_at(s@, p as int) == Ok::<(Seq<ItemView>, int), ParseError>(
            (t.0.deep_view(), t.1 as int),
        ) && p < t.1 <= s@.len(),
        r matches Err(e) ==> items_at(s@, p as int) == Err::<(Seq<ItemView>, int), ParseError>(e),
{
    if !(p < s.len() && s[p] == '[') {
        return Err(wrong_value_exec(s, p));
    }
    let mut acc: Vec<Item> = Vec::new();
    let mut cur: usize = p + 1;
    let mut first: bool = true;
    proof {
        assert(acc.deep_view() =~= Seq::<ItemView>::empty());
    }
    loop
        invariant
            p < cur <= s@.len(),
            items_at(s@, p as int) == items_items(s@, cur as int, acc.deep_view(), first),
        decreases s@.len() - cur,
    {
        let q = ws_end(s, cur);
        if first && q < s.len() && s[q] == ']' {
            return Ok((acc, q + 1));
        }
        match item_at_exec(s, q) {
            Ok((a, e)) => {
                let w = ws_end(s, e);
                let ghost acc0 = acc.deep_view();
                let ghost av = a.deep_view();
                acc.push(a);
                proof {
                    assert(acc.deep_view() =~= acc0.push(av));
                }
                if w < s.len() && s[w] == ']' {
                    return Ok((acc, w + 1));
                }
                if w < s.len() && s[w] == ',' {
                    cur = w + 1;
                    first = false;
                } else {
                    return Err(ParseError::Syntax);
                }
            },
            Err(er) => {
                return Err(er);
            },
        }
    }
}


/// The fields of a feed while its object is being read; `title` is still
/// optional here and enforced at the closing brace.
pub struct FeedAcc {
    pub version: Option<String>,
    pub title: Option<String>,
    pub home_page_url: Option<String>,
    pub feed_url: Option<String>,
    pub description: Option<String>,
    pub user_comment: Option<String>,
    pub next_url: Option<String>,
    pub icon: Option<String>,
    pub favicon: Option<String>,
    pub language: Option<String>,
    pub expired: Option<bool>,
    pub author: Option<Author>,
    pub authors: Option<Vec<Author>>,
    pub hubs: Option<Vec<Hub>>,
    pub items: Option<Vec<Item>>,
}

/// Ghost view of a [`FeedAcc`].
pub struct FeedAccView {
    pub version: Option<Seq<char>>,
    pub title: Option<Seq<char>>,
    pub home_page_url: Option<Seq<char>>,
    pub feed_url: Option<Seq<char>>,
    pub description: Option<Seq<char>>,
    pub user_comment: Option<Seq<char>>,
    pub next_url: Option<Seq<char>>,
    pub icon: Option<Seq<char>>,
    pub favicon: Option<Seq<char>>,
    pub language: Option<Seq<char>>,
    pub expired: Option<bool>,
    pub author: Option<AuthorView>,
    pub authors: Option<Seq<AuthorView>>,
    pub hubs: Option<Seq<HubView>>,
    pub items: Option<Seq<ItemView>>,
}

impl DeepView for FeedAcc {
    type V = FeedAccView;

    open spec fn deep_view(&self) -> FeedAccView {
        FeedAccView {
            version: self.version.deep_view(),
            title: self.title.deep_view(),
            home_page_url: self.home_page_url.deep_view(),
            feed_url: self.feed_url.deep_view(),
            description: self.description.deep_view(),
            user_comment: self.user_comment.deep_view(),
            next_url: self.next_url.deep_view(),
            icon: self.icon.deep_view(),
            favicon: self.favicon.deep_view(),
            language: self.language.deep_view(),
            expired: self.expired,
            author: self.author.deep_view(),
            authors: self.authors.deep_view(),
            hubs: self.hubs.deep_view(),
            items: self.items.deep_view(),
        }
    }
}

/// A feed with no fields set.
pub open spec fn empty_feed() -> FeedAccView {
    FeedAccView {
        version: None,
        title: None,
        home_page_url: None,
        feed_url: None,
        description: None,
        user_comment: None,
        next_url: None,
        icon: None,
        favicon: None,
        language: None,
        expired: None,
        author: None,
        authors: None,
        hubs: None,
        items: None,
    }
}

/// One member of the feed object, dispatched on the key.
pub open spec fn feed_member(s: Seq<char>, y: int, acc: FeedAccView, key: Seq<char>) -> Result<
    (FeedAccView, int),
    ParseError,
> {
    if key == "version"@ {
        match string_field(s, y) {
            Ok((v, e)) => Ok((FeedAccView { version: Some(v), ..acc }, e)),
            Err(er) => Err(er),
        }
    } else if key == "title"@ {
        match string_field(s, y) {
            Ok((v, e)) => Ok((FeedAccView { title: Some(v), ..acc }, e)),
            Err(er) => Err(er),
        }
    } else if key == "home_page_url"@ {
        match string_field(s, y) {
            Ok((v, e)) => Ok((FeedAccView { home_page_url: Some(v), ..acc }, e)),
            Err(er) => Err(er),
        }
    } else if key == "feed_url"@ {
        match string_field(s, y) {
            Ok((v, e)) => Ok((FeedAccView { feed_url: Some(v), ..acc }, e)),
            Err(er) => Err(er),
        }
    } else if key == "description"@ {
        match string_field(s, y) {
            Ok((v, e)) => Ok((FeedAccView { description: Some(v), ..acc }, e)),
            Err(er) => Err(er),
        }
    } else if key == "user_comment"@ {
        match string_field(s, y) {
            Ok((v, e)) => Ok((FeedAccView { user_comment: Some(v), ..acc }, e)),
            Err(er) => Err(er),
        }
    } else if key == "next_url"@ {
        match string_field(s, y) {
            Ok((v, e)) => Ok((FeedAccView { next_url: Some(v), ..acc }, e)),
            Err(er) => Err(er),
        }
    } else if key == "icon"@ {
        match string_field(s, y) {
            Ok((v, e)) => Ok((FeedAccView { icon: Some(v), ..acc }, e)),
            Err(er) => Err(er),
        }
    } else if key == "favicon"@ {
        match string_field(s, y) {
            Ok((v, e)) => Ok((FeedAccView { favicon: Some(v), ..acc }, e)),
            Err(er) => Err(er),
        }
    } else if key == "language"@ {
        match string_field(s, y) {
            Ok((v, e)) => Ok((FeedAccView { language: Some(v), ..acc }, e)),
            Err(er) => Err(er),
        }
    } else if key == "expired"@ {
        match bool_field(s, y) {
            Ok((v, e)) => Ok((FeedAccView { expired: Some(v), ..acc }, e)),
            Err(er) => Err(er),
        }
    } else if key == "author"@ {
        match author_at(s, y) {
            Ok((v, e)) => Ok((FeedAccView { author: Some(v), ..acc }, e)),
            Err(er) => Err(er),
        }
    } else if key == "authors"@ {
        match authors_at(s, y) {
            Ok((v, e)) => Ok((FeedAccView { authors: Some(v), ..acc }, e)),
            Err(er) => Err(er),
        }
    } else if key == "hubs"@ {
        match hubs_at(s, y) {
            Ok((v, e)) => Ok((FeedAccView { hubs: Some(v), ..acc }, e)),
            Err(er) => Err(er),
        }
    } else if key == "items"@ {
        match items_at(s, y) {
            Ok((v, e)) => Ok((FeedAccView { items: Some(v), ..acc }, e)),
            Err(er) => Err(er),
        }
    } else {
        match skip_value(s, y) {
            Some(e) => Ok((acc, e)),
            None => Err(ParseError::Syntax),
        }
    }
}

/// The members of the feed object from `p` on.
pub open spec fn feed_members(s: Seq<char>, p: int, acc: FeedAccView, first: bool) -> Result<
    (FeedAccView, int),
    ParseError,
>
    decreases s.len() - p,
{
    if !(0 <= p <= s.len()) {
        Err(ParseError::Syntax)
    } else {
        let q = skip_ws(s, p);
        if q < p || q > s.len() {
            Err(ParseError::Syntax)
        } else if first && q < s.len() && s[q] == '}' {
            Ok((acc, q + 1))
        } else {
            match string_at(s, q) {
                Some((key, e)) => if e <= q || e > s.len() {
                    Err(ParseError::Syntax)
                } else {
                    let x = skip_ws(s, e);
                    if x < e || x > s.len() {
                        Err(ParseError::Syntax)
                    } else if x < s.len() && s[x] == ':' {
                        let y = skip_ws(s, x + 1);
                        if y < x + 1 || y > s.len() {
                            Err(ParseError::Syntax)
                        } else {
                            match feed_member(s, y, acc, key) {
                                Ok((acc2, v)) => if v <= y || v > s.len() {
                                    Err(ParseError::Syntax)
                                } else {
                                    let w = skip_ws(s, v);
                                    if w < v || w > s.len() {
                                        Err(ParseError::Syntax)
                                    } else if w < s.len() && s[w] == '}' {
                                        Ok((acc2, w + 1))
                                    } else if w < s.len() && s[w] == ',' {
                                        feed_members(s, w + 1, acc2, false)
                                    } else {
                                        Err(ParseError::Syntax)
                                    }
                                },
                                Err(er) => Err(er),
                            }
                        }
                    } else {
                        Err(ParseError::Syntax)
                    }
                },
                None => Err(ParseError::Syntax),
            }
        }
    }
}

/// The finished feed: `title` is required.
pub open spec fn finish_feed(acc: FeedAccView) -> Result<FeedView, ParseError> {
    match acc.title {
        Some(title) => Ok(
            FeedView {
                version: acc.version,
                title: title,
                home_page_url: acc.home_page_url,
                feed_url: acc.feed_url,
                description: acc.description,
                user_comment: acc.user_comment,
                next_url: acc.next_url,
                icon: acc.icon,
                favicon: acc.favicon,
                language: acc.language,
                expired: acc.expired,
                author: acc.author,
                authors: acc.authors,
                hubs: acc.hubs,
                items: acc.items,
            },
        ),
        None => Err(ParseError::MissingField),
    }
}

/// The feed object at `p`.
pub open spec fn feed_at(s: Seq<char>, p: int) -> Result<(FeedView, int), ParseError> {
    if 0 <= p < s.len() && s[p] == '{' {
        match feed_members(s, p + 1, empty_feed(), true) {
            Ok((acc, e)) => match finish_feed(acc) {
                Ok(f) => Ok((f, e)),
                Err(er) => Err(er),
            },
            Err(er) => Err(er),
        }
    } else {
        Err(wrong_value(s, p))
    }
}

/// The whole document: optional whitespace, the feed object, optional
/// whitespace, the end of the input.
pub open spec fn feed_doc(s: Seq<char>) -> Result<FeedView, ParseError> {
    let q = skip_ws(s, 0);
    if q < 0 || q > s.len() {
        Err(ParseError::Syntax)
    } else {
        match feed_at(s, q) {
            Ok((f, e)) => if e < 0 || e > s.len() {
                Err(ParseError::Syntax)
            } else {
                let w = skip_ws(s, e);
                if w == s.len() {
                    Ok(f)
                } else {
                    Err(ParseError::Syntax)
                }
            },
            Err(er) => Err(er),
        }
    }
}

/// What [`parse`] returns for a given input: the parsed feed, normalized.
pub open spec fn parse_spec(s: Seq<char>) -> Result<FeedView, ParseError> {
    match feed_doc(s) {
        Ok(f) => Ok(normalize_feed_view(f)),
        Err(er) => Err(er),
    }
}

#[verifier::rlimit(100)]
fn feed_member_str_exec(s: &Vec<char>, y: usize, acc: FeedAcc, key: &Vec<char>) -> (r: Result<
    Result<(FeedAcc, usize), ParseError>,
    FeedAcc,
>)
    requires
        y <= s@.len(),
    ensures
        r matches Ok(res) ==> ({
            &&& (res matches Ok(t) ==> feed_member(s@, y as int, acc.deep_view(), key@) == Ok::<
                (FeedAccView, int),
                ParseError,
            >((t.0.deep_view(), t.1 as int)) && y < t.1 <= s@.len())
            &&& (res matches Err(e) ==> feed_member(s@, y as int, acc.deep_view(), key@) == Err::<
                (FeedAccView, int),
                ParseError,
            >(e))
        }),
        r matches Err(back) ==> back == acc && key@ != "version"@ && key@ != "title"@ && key@
            != "home_page_url"@ && key@ != "feed_url"@ && key@ != "description"@ && key@
            != "user_comment"@ && key@ != "next_url"@ && key@ != "icon"@ && key@ != "favicon"@
            && key@ != "language"@,
{
    if chars_eq_str(key, "version") {
        match string_field_exec(s, y) {
            Ok((v, e)) => Ok(Ok((FeedAcc { version: Some(v), ..acc }, e))),
            Err(er) => Ok(Err(er)),
        }
    } else if chars_eq_str(key, "title") {
        match string_field_exec(s, y) {
            Ok((v, e)) => Ok(Ok((FeedAcc { title: Some(v), ..acc }, e))),
            Err(er) => Ok(Err(er)),
        }
    } else if chars_eq_str(key, "home_page_url") {
        match string_field_exec(s, y) {
            Ok((v, e)) => Ok(Ok((FeedAcc { home_page_url: Some(v), ..acc }, e))),
            Err(er) => Ok(Err(er)),
        }
    } else if chars_eq_str(key, "feed_url") {
        match string_field_exec(s, y) {
            Ok((v, e)) => Ok(Ok((FeedAcc { feed_url: Some(v), ..acc }, e))),
            Err(er) => Ok(Err(er)),
        }
    } else if chars_eq_str(key, "description") {
        match string_field_exec(s, y) {
            Ok((v, e)) => Ok(Ok((FeedAcc { description: Some(v), ..acc }, e))),
            Err(er) => Ok(Err(er)),
        }
    } else if chars_eq_str(key, "user_comment") {
        match string_field_exec(s, y) {
            Ok((v, e)) => Ok(Ok((FeedAcc { user_comment: Some(v), ..acc }, e))),
            Err(er) => Ok(Err(er)),
        }
    } else if chars_eq_str(key, "next_url") {
        match string_field_exec(s, y) {
            Ok((v, e)) => Ok(Ok((FeedAcc { next_url: Some(v), ..acc }, e))),
            Err(er) => Ok(Err(er)),
        }
    } else if chars_eq_str(key, "icon") {
        match string_field_exec(s, y) {
            Ok((v, e)) => Ok(Ok((FeedAcc { icon: Some(v), ..acc }, e))),
            Err(er) => Ok(Err(er)),
        }
    } else if chars_eq_str(key, "favicon") {
        match string_field_exec(s, y) {
            Ok((v, e)) => Ok(Ok((FeedAcc { favicon: Some(v), ..acc }, e))),
            Err(er) => Ok(Err(er)),
        }
    } else if chars_eq_str(key, "language") {
        match string_field_exec(s, y) {
            Ok((v, e)) => Ok(Ok((FeedAcc { language: Some(v), ..acc }, e))),
            Err(er) => Ok(Err(er)),
        }
    } else {
        Err(acc)
    }
}

#[verifier::rlimit(100)]
fn feed_member_exec(s: &Vec<char>, y: usize, acc: FeedAcc, key: &Vec<char>) -> (r: Result<
    (FeedAcc, usize),
    ParseError,
>)
    requires
        y <= s@.len(),
    ensures
        r matches Ok(t) ==> feed_member(s@, y as int, acc.deep_view(), key@) == Ok::<
            (FeedAccView, int),
            ParseError,
        >((t.0.deep_view(), t.1 as int)) && y < t.1 <= s@.len(),
        r matches Err(e) ==> feed_member(s@, y as int, acc.deep_view(), key@) == Err::<
            (FeedAccView, int),
            ParseError,
        >(e),
{
    let acc = match feed_member_str_exec(s, y, acc, key) {
        Ok(res) => {
            return res;
        },
        Err(back) => back,
    };
    if chars_eq_str(key, "expired") {
        match bool_field_exec(s, y) {
            Ok((v, e)) => Ok((FeedAcc { expired: Some(v), ..acc }, e)),
            Err(er) => Err(er),
        }
    } else if chars_eq_str(key, "author") {
        match author_at_exec(s, y) {
            Ok((v, e)) => Ok((FeedAcc { author: Some(v), ..acc }, e)),
            Err(er) => Err(er),
        }
    } else if chars_eq_str(key, "authors") {
        match authors_at_exec(s, y) {
            Ok((v, e)) => Ok((FeedAcc { authors: Some(v), ..acc }, e)),
            Err(er) => Err(er),
        }
    } else if chars_eq_str(key, "hubs") {
        match hubs_at_exec(s, y) {
            Ok((v, e)) => Ok((FeedAcc { hubs: Some(v), ..acc }, e)),
            Err(er) => Err(er),
        }
    } else if chars_eq_str(key, "items") {
        match items_at_exec(s, y) {
            Ok((v, e)) => Ok((FeedAcc { items: Some(v), ..acc }, e)),
            Err(er) => Err(er),
        }
    } else {
        match skip_value_exec(s, y) {
            Some(e) => Ok((acc, e)),
            None => Err(ParseError::Syntax),
        }
    }
}

fn finish_feed_exec(acc: FeedAcc) -> (r: Result<Feed, ParseError>)
    ensures
        r matches Ok(f) ==> finish_feed(acc.deep_view()) == Ok::<FeedView, ParseError>(
            f.deep_view(),
        ),
        r matches Err(e) ==> finish_feed(acc.deep_view()) == Err::<FeedView, ParseError>(e),
{
    match acc.title {
        Some(title) => Ok(
            Feed {
                version: acc.version,
                title: title,
                home_page_url: acc.home_page_url,
                feed_url: acc.feed_url,
                description: acc.description,
                user_comment: acc.user_comment,
                next_url: acc.next_url,
                icon: acc.icon,
                favicon: acc.favicon,
                language: acc.language,
                expired: acc.expired,
                author: acc.author,
                authors: acc.authors,
                hubs: acc.hubs,
                items: acc.items,
            },
        ),
        None => Err(ParseError::MissingField),
    }
}

fn feed_at_exec(s: &Vec<char>, p: usize) -> (r: Result<(Feed, usize), ParseError>)
    requires
        p <= s@.len(),
    ensures
        r matches Ok(t) ==> feed_at(s@, p as int) == Ok::<(FeedView, int), ParseError>(
            (t.0.deep_view(), t.1 as int),
        ) && p < t.1 <= s@.len(),
        r matches Err(e) ==> feed_at(s@, p as int) == Err::<(FeedView, int), ParseError>(e),
{
    if !(p < s.len() && s[p] == '{') {
        return Err(wrong_value_exec(s, p));
    }
    let mut acc = FeedAcc {
        version: None,
        title: None,
        home_page_url: None,
        feed_url: None,
        description: None,
        user_comment: None,
        next_url: None,
        icon: None,
        favicon: None,
        language: None,
        expired: None,
        author: None,
        authors: None,
        hubs: None,
        items: None,
    };
    let mut cur: usize = p + 1;
    let mut first: bool = true;
    loop
        invariant
            p < cur <= s@.len(),
            feed_members(s@, p + 1 as int, empty_feed(), true) == feed_members(
                s@,
                cur as int,
                acc.deep_view(),
                first,
            ),
            s@[p as int] == '{' && p < s@.len(),
        decreases s@.len() - cur,
    {
        let q = ws_end(s, cur);
        if first && q < s.len() && s[q] == '}' {
            return match finish_feed_exec(acc) {
                Ok(f) => Ok((f, q + 1)),
                Err(er) => Err(er),
            };
        }
        if !(q < s.len() && s[q] == '"') {
            proof {
                assert(string_at(s@, q as int) is None);
            }
            return Err(ParseError::Syntax);
        }
        match str_body_exec(s, q + 1) {
            Some((key, e)) => {
                let x = ws_end(s, e);
                if !(x < s.len() && s[x] == ':') {
                    return Err(ParseError::Syntax);
                }
                let y = ws_end(s, x + 1);
                match feed_member_exec(s, y, acc, &key) {
                    Ok((acc2, v)) => {
                        let w = ws_end(s, v);
                        if w < s.len() && s[w] == '}' {
                            return match finish_feed_exec(acc2) {
                                Ok(f) => Ok((f, w + 1)),
                                Err(er) => Err(er),
                            };
                        }
                        if w < s.len() && s[w] == ',' {
                            acc = acc2;
                            cur = w + 1;
                            first = false;
                        } else {
                            return Err(ParseError::Syntax);
                        }
                    },
                    Err(er) => {
                        return Err(er);
                    },
                }
            },
            None => {
                return Err(ParseError::Syntax);
            },
        }
    }
}

/// Parse a JSON Feed document into a normalized [`Feed`].
///
/// Succeeds exactly where the input is a well-formed JSON object of the Feed
/// shape carrying its required fields, with nothing but whitespace around it;
/// unknown fields are ignored. The returned feed is author-normalized, on the
/// feed itself and on every item.
pub fn parse(raw: &str) -> (r: Result<Feed, ParseError>)
    ensures
        r matches Ok(f) ==> parse_spec(raw@) matches Ok(fv) && f.deep_view() == fv,
        r matches Err(e) ==> parse_spec(raw@) == Err::<FeedView, ParseError>(e),
{
    let chars = str_to_chars(raw);
    let q = ws_end(&chars, 0);
    match feed_at_exec(&chars, q) {
        Ok((f, e)) => {
            let w = ws_end(&chars, e);
            if w == chars.len() {
                Ok(f.normalize())
            } else {
                Err(ParseError::Syntax)
            }
        },
        Err(er) => Err(er),
    }
}

impl Feed {
    /// Parse a JSON Feed document into a normalized [`Feed`]; see [`parse`].
    pub fn parse(raw: &str) -> (r: Result<Feed, ParseError>)
        ensures
            r matches Ok(f) ==> parse_spec(raw@) matches Ok(fv) && f.deep_view() == fv,
            r matches Err(e) ==> parse_spec(raw@) == Err::<FeedView, ParseError>(e),
    {
        parse(raw)
    }
}

} // verus!
