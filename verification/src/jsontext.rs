//! The lexical layer of the JSON Feed parser: whitespace, digit runs, string
//! bodies with escapes, number lexemes, the three keyword literals, and
//! skipping over one whole JSON value of any shape.
//!
//! Every construct is defined twice: a specification function over a
//! `Seq<char>` and a position, and an executable twin proved to return
//! exactly what the specification says. Positions returned by the
//! specification functions are guarded to stay inside the input; the guards
//! are unreachable, which the executable twins' bounds clauses show.

use vstd::prelude::*;

verus! {

/// JSON whitespace: space, tab, line feed, carriage return.
pub open spec fn is_ws(c: char) -> bool {
    c == ' ' || c == '\t' || c == '\n' || c == '\r'
}

/// An ASCII decimal digit.
pub open spec fn is_digit(c: char) -> bool {
    48 <= (c as u32) && (c as u32) <= 57
}

/// The first position at or after `p` holding no whitespace.
pub open spec fn skip_ws(s: Seq<char>, p: int) -> int
    decreases s.len() - p,
{
    if 0 <= p < s.len() && is_ws(s[p]) {
        skip_ws(s, p + 1)
    } else {
        p
    }
}

pub(crate) fn ws_end(s: &Vec<char>, p: usize) -> (r: usize)
    requires
        p <= s@.len(),
    ensures
        r == skip_ws(s@, p as int),
        p <= r <= s@.len(),
{
    let mut i: usize = p;
    while i < s.len() && (s[i] == ' ' || s[i] == '\t' || s[i] == '\n' || s[i] == '\r')
        invariant
            p <= i <= s@.len(),
            skip_ws(s@, p as int) == skip_ws(s@, i as int),
        decreases s@.len() - i,
    {
        i = i + 1;
    }
    i
}

/// The end of the digit run starting at `p`.
pub open spec fn digits_end(s: Seq<char>, p: int) -> int
    decreases s.len() - p,
{
    if 0 <= p < s.len() && is_digit(s[p]) {
        digits_end(s, p + 1)
    } else {
        p
    }
}

pub(crate) fn digits_end_exec(s: &Vec<char>, p: usize) -> (r: usize)
    requires
        p <= s@.len(),
    ensures
        r == digits_end(s@, p as int),
        p <= r <= s@.len(),
{
    let mut i: usize = p;
    while i < s.len() && (s[i] as u32) >= 48 && (s[i] as u32) <= 57
        invariant
            p <= i <= s@.len(),
            digits_end(s@, p as int) == digits_end(s@, i as int),
        decreases s@.len() - i,
    {
        i = i + 1;
    }
    i
}

/// A digit run ends no earlier than it starts and no later than the input.
pub proof fn lemma_digits_end_bounds(s: Seq<char>, p: int)
    requires
        0 <= p <= s.len(),
    ensures
        p <= digits_end(s, p) <= s.len(),
    decreases s.len() - p,
{
    if p < s.len() && is_digit(s[p]) {
        lemma_digits_end_bounds(s, p + 1);
    }
}

/// The value of one hexadecimal digit character.
pub open spec fn hex_val(c: char) -> Option<u32> {
    let u = c as u32;
    if 48 <= u && u <= 57 {
        Some((u - 48) as u32)
    } else if 97 <= u && u <= 102 {
        Some((u - 87) as u32)
    } else if 65 <= u && u <= 70 {
        Some((u - 55) as u32)
    } else {
        None
    }
}

fn hex_val_exec(c: char) -> (r: Option<u32>)
    ensures
        r == hex_val(c),
{
    let u = c as u32;
    if 48 <= u && u <= 57 {
        Some(u - 48)
    } else if 97 <= u && u <= 102 {
        Some(u - 87)
    } else if 65 <= u && u <= 70 {
        Some(u - 55)
    } else {
        None
    }
}

/// The value of the four hexadecimal digits at `p`.
pub open spec fn hex4(s: Seq<char>, p: int) -> Option<u32> {
    if 0 <= p && p + 4 <= s.len() {
        match (hex_val(s[p]), hex_val(s[p + 1]), hex_val(s[p + 2]), hex_val(s[p + 3])) {
            (Some(a), Some(b), Some(c), Some(d)) => Some((a * 4096 + b * 256 + c * 16 + d) as u32),
            _ => None,
        }
    } else {
        None
    }
}

fn hex4_exec(s: &Vec<char>, p: usize) -> (r: Option<u32>)
    requires
        p <= s@.len(),
    ensures
        r == hex4(s@, p as int),
        r matches Some(v) ==> v < 0x10000,
{
    if s.len() - p >= 4 {
        let a = hex_val_exec(s[p]);
        let b = hex_val_exec(s[p + 1]);
        let c = hex_val_exec(s[p + 2]);
        let d = hex_val_exec(s[p + 3]);
        match (a, b, c, d) {
            (Some(a), Some(b), Some(c), Some(d)) => Some(a * 4096 + b * 256 + c * 16 + d),
            _ => None,
        }
    } else {
        None
    }
}

/// The decoding of one simple (single-character) string escape.
pub open spec fn esc_simple(c: char) -> Option<char> {
    if c == '"' {
        Some('"')
    } else if c == '\\' {
        Some('\\')
    } else if c == '/' {
        Some('/')
    } else if c == 'b' {
        Some('\u{8}')
    } else if c == 'f' {
        Some('\u{c}')
    } else if c == 'n' {
        Some('\n')
    } else if c == 'r' {
        Some('\r')
    } else if c == 't' {
        Some('\t')
    } else {
        None
    }
}

fn esc_simple_exec(c: char) -> (r: Option<char>)
    ensures
        r == esc_simple(c),
{
    if c == '"' {
        Some('"')
    } else if c == '\\' {
        Some('\\')
    } else if c == '/' {
        Some('/')
    } else if c == 'b' {
        Some('\u{8}')
    } else if c == 'f' {
        Some('\u{c}')
    } else if c == 'n' {
        Some('\n')
    } else if c == 'r' {
        Some('\r')
    } else if c == 't' {
        Some('\t')
    } else {
        None
    }
}

/// The decoding of the escape whose backslash stands at `p`: the decoded
/// character and the position after the escape. A `\u` escape carrying a
/// leading surrogate must be followed by one carrying a trailing surrogate;
/// the pair decodes to one supplementary character.
pub open spec fn esc_at(s: Seq<char>, p: int) -> Option<(char, int)> {
    if 0 <= p && p + 2 <= s.len() && s[p] == '\\' {
        let c = s[p + 1];
        if c == 'u' {
            match hex4(s, p + 2) {
                Some(v) => if v < 0xD800 || (0xE000 <= v && v <= 0xFFFF) {
                    Some(((v as char), p + 6))
                } else if v < 0xDC00 {
                    if p + 8 <= s.len() && s[p + 6] == '\\' && s[p + 7] == 'u' {
                        match hex4(s, p + 8) {
                            Some(w) => if 0xDC00 <= w && w <= 0xDFFF {
                                Some(
                                    (((0x10000 + (v - 0xD800) * 0x400 + (w - 0xDC00)) as char), p
                                        + 12),
                                )
                            } else {
                                None
                            },
                            None => None,
                        }
                    } else {
                        None
                    }
                } else {
                    None
                },
                None => None,
            }
        } else {
            match esc_simple(c) {
                Some(e) => Some((e, p + 2)),
                None => None,
            }
        }
    } else {
        None
    }
}

pub(crate) fn esc_at_exec(s: &Vec<char>, p: usize) -> (r: Option<(char, usize)>)
    requires
        p <= s@.len(),
    ensures
        r matches Some(t) ==> esc_at(s@, p as int) == Some((t.0, t.1 as int)) && p < t.1
            <= s@.len(),
        r is None ==> esc_at(s@, p as int) is None,
{
    if s.len() - p >= 2 && s[p] == '\\' {
        let c = s[p + 1];
        if c == 'u' {
            match hex4_exec(s, p + 2) {
                Some(v) => {
                    if v < 0xD800 || 0xE000 <= v {
                        match char::from_u32(v) {
                            Some(ch) => Some((ch, p + 6)),
                            None => {
                                proof {
                                    assert(false);
                                }
                                None
                            },
                        }
                    } else if v < 0xDC00 {
                        if s.len() - p >= 8 && s[p + 6] == '\\' && s[p + 7] == 'u' {
                            match hex4_exec(s, p + 8) {
                                Some(w) => {
                                    if 0xDC00 <= w && w <= 0xDFFF {
                                        let code = 0x10000 + (v - 0xD800) * 0x400 + (w - 0xDC00);
                                        match char::from_u32(code) {
                                            Some(ch) => Some((ch, p + 12)),
                                            None => {
                                                proof {
                                                    assert(false);
                                                }
                                                None
                                            },
                                        }
                                    } else {
                                        None
                                    }
                                },
                                None => None,
                            }
                        } else {
                            None
                        }
                    } else {
                        None
                    }
                },
                None => None,
            }
        } else {
            match esc_simple_exec(c) {
                Some(e) => Some((e, p + 2)),
                None => None,
            }
        }
    } else {
        None
    }
}

/// The decoded content and end of the string body that starts at `p`, just
/// after the opening quote: the decoded characters, and the position after
/// the closing quote. Raw control characters are refused, as JSON demands.
pub open spec fn str_body(s: Seq<char>, p: int) -> Option<(Seq<char>, int)>
    decreases s.len() - p,
{
    if !(0 <= p < s.len()) {
        None
    } else if s[p] == '"' {
        Some((Seq::<char>::empty(), p + 1))
    } else if s[p] == '\\' {
        match esc_at(s, p) {
            Some((c, q)) => if q <= p || q > s.len() {
                None
            } else {
                match str_body(s, q) {
                    Some((rest, e)) => Some((seq![c] + rest, e)),
                    None => None,
                }
            },
            None => None,
        }
    } else if (s[p] as u32) < 0x20 {
        None
    } else {
        match str_body(s, p + 1) {
            Some((rest, e)) => Some((seq![s[p]] + rest, e)),
            None => None,
        }
    }
}

/// Prepend `pre` to the content of a string-body result.
pub open spec fn prepend_body(pre: Seq<char>, r: Option<(Seq<char>, int)>) -> Option<
    (Seq<char>, int),
> {
    match r {
        Some((t, e)) => Some((pre + t, e)),
        None => None,
    }
}

pub(crate) fn str_body_exec(s: &Vec<char>, p: usize) -> (r: Option<(Vec<char>, usize)>)
    requires
        p <= s@.len(),
    ensures
        r matches Some(t) ==> str_body(s@, p as int) == Some((t.0@, t.1 as int)) && p < t.1
            <= s@.len(),
        r is None ==> str_body(s@, p as int) is None,
{
    let mut content: Vec<char> = Vec::new();
    let mut i: usize = p;
    loop
        invariant
            p <= i <= s@.len(),
            str_body(s@, p as int) == prepend_body(content@, str_body(s@, i as int)),
        decreases s@.len() - i,
    {
        if i >= s.len() {
            return None;
        }
        let c = s[i];
        if c == '"' {
            proof {
                assert(content@ + Seq::<char>::empty() =~= content@);
            }
            return Some((content, i + 1));
        }
        if c == '\\' {
            match esc_at_exec(s, i) {
                Some((ch, q)) => {
                    let ghost c0 = content@;
                    content.push(ch);
                    proof {
                        assert(content@ =~= c0 + seq![ch]);
                        match str_body(s@, q as int) {
                            Some((rest, e)) => {
                                assert(c0 + (seq![ch] + rest) =~= (c0 + seq![ch]) + rest);
                            },
                            None => {},
                        }
                    }
                    i = q;
                },
                None => {
                    return None;
                },
            }
        } else if (c as u32) < 0x20 {
            return None;
        } else {
            let ghost c0 = content@;
            content.push(c);
            proof {
                assert(content@ =~= c0 + seq![c]);
                match str_body(s@, i + 1 as int) {
                    Some((rest, e)) => {
                        assert(c0 + (seq![c] + rest) =~= (c0 + seq![c]) + rest);
                    },
                    None => {},
                }
            }
            i = i + 1;
        }
    }
}

/// The end of the JSON number lexeme that starts at `p`: an optional minus,
/// an integer part without leading zeros, an optional fraction, an optional
/// exponent.
pub open spec fn number_end(s: Seq<char>, p: int) -> Option<int> {
    let q0 = if 0 <= p < s.len() && s[p] == '-' {
        p + 1
    } else {
        p
    };
    if !(0 <= q0 < s.len() && is_digit(s[q0])) {
        None
    } else {
        let q1 = if s[q0] == '0' {
            q0 + 1
        } else {
            digits_end(s, q0)
        };
        let frac = if 0 <= q1 < s.len() && s[q1] == '.' {
            let d = digits_end(s, q1 + 1);
            if d > q1 + 1 {
                Some(d)
            } else {
                None
            }
        } else {
            Some(q1)
        };
        match frac {
            None => None,
            Some(q2) => if 0 <= q2 < s.len() && (s[q2] == 'e' || s[q2] == 'E') {
                let q3 = if q2 + 1 < s.len() && (s[q2 + 1] == '+' || s[q2 + 1] == '-') {
                    q2 + 2
                } else {
                    q2 + 1
                };
                let d = digits_end(s, q3);
                if d > q3 {
                    Some(d)
                } else {
                    None
                }
            } else {
                Some(q2)
            },
        }
    }
}

pub(crate) fn number_end_exec(s: &Vec<char>, p: usize) -> (r: Option<usize>)
    requires
        p <= s@.len(),
    ensures
        r matches Some(e) ==> number_end(s@, p as int) == Some(e as int) && p < e <= s@.len(),
        r is None ==> number_end(s@, p as int) is None,
{
    let q0: usize = if p < s.len() && s[p] == '-' {
        p + 1
    } else {
        p
    };
    if !(q0 < s.len() && (s[q0] as u32) >= 48 && (s[q0] as u32) <= 57) {
        return None;
    }
    let q1: usize = if s[q0] == '0' {
        q0 + 1
    } else {
        digits_end_exec(s, q0)
    };
    proof {
        lemma_digits_end_bounds(s@, q0 + 1 as int);
        assert(q1 > q0);
    }
    let q2: usize = if q1 < s.len() && s[q1] == '.' {
        let d = digits_end_exec(s, q1 + 1);
        if d > q1 + 1 {
            d
        } else {
            return None;
        }
    } else {
        q1
    };
    if q2 < s.len() && (s[q2] == 'e' || s[q2] == 'E') {
        let q3: usize = if q2 + 1 < s.len() && (s[q2 + 1] == '+' || s[q2 + 1] == '-') {
            q2 + 2
        } else {
            q2 + 1
        };
        let d = digits_end_exec(s, q3);
        if d > q3 {
            Some(d)
        } else {
            None
        }
    } else {
        Some(q2)
    }
}

/// Whether the characters of `lit` stand at `p` in `s`.
pub open spec fn lit_at(s: Seq<char>, p: int, lit: Seq<char>) -> bool {
    0 <= p && p + lit.len() <= s.len() && s.subrange(p, p + lit.len()) == lit
}

pub(crate) fn true_at(s: &Vec<char>, p: usize) -> (r: bool)
    requires
        p <= s@.len(),
    ensures
        r == lit_at(s@, p as int, "true"@),
{
    proof {
        reveal_strlit("true");
    }
    let r = s.len() - p >= 4 && s[p] == 't' && s[p + 1] == 'r' && s[p + 2] == 'u' && s[p + 3]
        == 'e';
    proof {
        if r {
            assert(s@.subrange(p as int, p + 4 as int) =~= "true"@);
        } else {
            if 0 <= p && p + 4 <= s@.len() {
                assert(s@.subrange(p as int, p + 4 as int) != "true"@) by {
                    if s@.subrange(p as int, p + 4 as int) == "true"@ {
                        assert(s@.subrange(p as int, p + 4 as int)[0] == 't');
                        assert(s@.subrange(p as int, p + 4 as int)[1] == 'r');
                        assert(s@.subrange(p as int, p + 4 as int)[2] == 'u');
                        assert(s@.subrange(p as int, p + 4 as int)[3] == 'e');
                    }
                }
            }
        }
    }
    r
}

pub(crate) fn false_at(s: &Vec<char>, p: usize) -> (r: bool)
    requires
        p <= s@.len(),
    ensures
        r == lit_at(s@, p as int, "false"@),
{
    proof {
        reveal_strlit("false");
    }
    let r = s.len() - p >= 5 && s[p] == 'f' && s[p + 1] == 'a' && s[p + 2] == 'l' && s[p + 3]
        == 's' && s[p + 4] == 'e';
    proof {
        if r {
            assert(s@.subrange(p as int, p + 5 as int) =~= "false"@);
        } else {
            if 0 <= p && p + 5 <= s@.len() {
                assert(s@.subrange(p as int, p + 5 as int) != "false"@) by {
                    if s@.subrange(p as int, p + 5 as int) == "false"@ {
                        assert(s@.subrange(p as int, p + 5 as int)[0] == 'f');
                        assert(s@.subrange(p as int, p + 5 as int)[1] == 'a');
                        assert(s@.subrange(p as int, p + 5 as int)[2] == 'l');
                        assert(s@.subrange(p as int, p + 5 as int)[3] == 's');
                        assert(s@.subrange(p as int, p + 5 as int)[4] == 'e');
                    }
                }
            }
        }
    }
    r
}

pub(crate) fn null_at(s: &Vec<char>, p: usize) -> (r: bool)
    requires
        p <= s@.len(),
    ensures
        r == lit_at(s@, p as int, "null"@),
{
    proof {
        reveal_strlit("null");
    }
    let r = s.len() - p >= 4 && s[p] == 'n' && s[p + 1] == 'u' && s[p + 2] == 'l' && s[p + 3]
        == 'l';
    proof {
        if r {
            assert(s@.subrange(p as int, p + 4 as int) =~= "null"@);
        } else {
            if 0 <= p && p + 4 <= s@.len() {
                assert(s@.subrange(p as int, p + 4 as int) != "null"@) by {
                    if s@.subrange(p as int, p + 4 as int) == "null"@ {
                        assert(s@.subrange(p as int, p + 4 as int)[0] == 'n');
                        assert(s@.subrange(p as int, p + 4 as int)[1] == 'u');
                        assert(s@.subrange(p as int, p + 4 as int)[2] == 'l');
                        assert(s@.subrange(p as int, p + 4 as int)[3] == 'l');
                    }
                }
            }
        }
    }
    r
}

/// The position after the whole JSON value that starts at `p`.
pub open spec fn skip_value(s: Seq<char>, p: int) -> Option<int>
    decreases s.len() - p, 0int,
{
    if !(0 <= p < s.len()) {
        None
    } else if s[p] == '"' {
        match str_body(s, p + 1) {
            Some((c, e)) => Some(e),
            None => None,
        }
    } else if s[p] == '-' || is_digit(s[p]) {
        number_end(s, p)
    } else if s[p] == 't' {
        if lit_at(s, p, "true"@) {
            Some(p + 4)
        } else {
            None
        }
    } else if s[p] == 'f' {
        if lit_at(s, p, "false"@) {
            Some(p + 5)
        } else {
            None
        }
    } else if s[p] == 'n' {
        if lit_at(s, p, "null"@) {
            Some(p + 4)
        } else {
            None
        }
    } else if s[p] == '[' {
        skip_array_items(s, p + 1, true)
    } else if s[p] == '{' {
        skip_object_members(s, p + 1, true)
    } else {
        None
    }
}

/// The position after the rest of the array whose items start at `p`, just
/// after the opening bracket or after a comma.
pub open spec fn skip_array_items(s: Seq<char>, p: int, first: bool) -> Option<int>
    decreases s.len() - p, 1int,
{
    if !(0 <= p <= s.len()) {
        None
    } else {
        let q = skip_ws(s, p);
        if q < p || q > s.len() {
            None
        } else if first && q < s.len() && s[q] == ']' {
            Some(q + 1)
        } else {
            match skip_value(s, q) {
                Some(v) => if v <= q || v > s.len() {
                    None
                } else {
                    let w = skip_ws(s, v);
                    if w < v || w > s.len() {
                        None
                    } else if w < s.len() && s[w] == ']' {
                        Some(w + 1)
                    } else if w < s.len() && s[w] == ',' {
                        skip_array_items(s, w + 1, false)
                    } else {
                        None
                    }
                },
                None => None,
            }
        }
    }
}

/// The position after the rest of the object whose members start at `p`,
/// just after the opening brace or after a comma.
pub open spec fn skip_object_members(s: Seq<char>, p: int, first: bool) -> Option<int>
    decreases s.len() - p, 1int,
{
    if !(0 <= p <= s.len()) {
        None
    } else {
        let q = skip_ws(s, p);
        if q < p || q > s.len() {
            None
        } else if first && q < s.len() && s[q] == '}' {
            Some(q + 1)
        } else if q < s.len() && s[q] == '"' {
            match str_body(s, q + 1) {
                Some((key, e)) => if e <= q || e > s.len() {
                    None
                } else {
                    let x = skip_ws(s, e);
                    if x < e || x > s.len() {
                        None
                    } else if x < s.len() && s[x] == ':' {
                        let y = skip_ws(s, x + 1);
                        if y < x + 1 || y > s.len() {
                            None
                        } else {
                            match skip_value(s, y) {
                                Some(v) => if v <= y || v > s.len() {
                                    None
                                } else {
                                    let w = skip_ws(s, v);
                                    if w < v || w > s.len() {
                                        None
                                    } else if w < s.len() && s[w] == '}' {
                                        Some(w + 1)
                                    } else if w < s.len() && s[w] == ',' {
                                        skip_object_members(s, w + 1, false)
                                    } else {
                                        None
                                    }
                                },
                                None => None,
                            }
                        }
                    } else {
                        None
                    }
                },
                None => None,
            }
        } else {
            None
        }
    }
}

pub(crate) fn skip_value_exec(s: &Vec<char>, p: usize) -> (r: Option<usize>)
    requires
        p <= s@.len(),
    ensures
        r matches Some(e) ==> skip_value(s@, p as int) == Some(e as int) && p < e <= s@.len(),
        r is None ==> skip_value(s@, p as int) is None,
    decreases s@.len() - p, 0int,
{
    let n = s.len();
    if p >= n {
        return None;
    }
    let c = s[p];
    if c == '"' {
        match str_body_exec(s, p + 1) {
            Some((content, e)) => Some(e),
            None => None,
        }
    } else if c == '-' || ((c as u32) >= 48 && (c as u32) <= 57) {
        number_end_exec(s, p)
    } else if c == 't' {
        if true_at(s, p) {
            proof {
                reveal_strlit("true");
                assert(p + 4 <= n);
            }
            Some(p + 4)
        } else {
            None
        }
    } else if c == 'f' {
        if false_at(s, p) {
            proof {
                reveal_strlit("false");
                assert(p + 5 <= n);
            }
            Some(p + 5)
        } else {
            None
        }
    } else if c == 'n' {
        if null_at(s, p) {
            proof {
                reveal_strlit("null");
                assert(p + 4 <= n);
            }
            Some(p + 4)
        } else {
            None
        }
    } else if c == '[' {
        skip_array_items_exec(s, p + 1, true)
    } else if c == '{' {
        skip_object_members_exec(s, p + 1, true)
    } else {
        None
    }
}

pub(crate) fn skip_array_items_exec(s: &Vec<char>, p: usize, first: bool) -> (r: Option<usize>)
    requires
        p <= s@.len(),
    ensures
        r matches Some(e) ==> skip_array_items(s@, p as int, first) == Some(e as int) && p < e
            <= s@.len(),
        r is None ==> skip_array_items(s@, p as int, first) is None,
    decreases s@.len() - p, 1int,
{
    let q = ws_end(s, p);
    if first && q < s.len() && s[q] == ']' {
        return Some(q + 1);
    }
    match skip_value_exec(s, q) {
        Some(v) => {
            let w = ws_end(s, v);
            if w < s.len() && s[w] == ']' {
                Some(w + 1)
            } else if w < s.len() && s[w] == ',' {
                skip_array_items_exec(s, w + 1, false)
            } else {
                None
            }
        },
        None => None,
    }
}

pub(crate) fn skip_object_members_exec(s: &Vec<char>, p: usize, first: bool) -> (r: Option<usize>)
    requires
        p <= s@.len(),
    ensures
        r matches Some(e) ==> skip_object_members(s@, p as int, first) == Some(e as int) && p < e
            <= s@.len(),
        r is None ==> skip_object_members(s@, p as int, first) is None,
    decreases s@.len() - p, 1int,
{
    let q = ws_end(s, p);
    if first && q < s.len() && s[q] == '}' {
        return Some(q + 1);
    }
    if q < s.len() && s[q] == '"' {
        match str_body_exec(s, q + 1) {
            Some((key, e)) => {
                let x = ws_end(s, e);
                if x < s.len() && s[x] == ':' {
                    let y = ws_end(s, x + 1);
                    match skip_value_exec(s, y) {
                        Some(v) => {
                            let w = ws_end(s, v);
                            if w < s.len() && s[w] == '}' {
                                Some(w + 1)
                            } else if w < s.len() && s[w] == ',' {
                                skip_object_members_exec(s, w + 1, false)
                            } else {
                                None
                            }
                        },
                        None => None,
                    }
                } else {
                    None
                }
            },
            None => None,
        }
    } else {
        None
    }
}

} // verus!
