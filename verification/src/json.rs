//! The JSON text layer.
//!
//! The grammar that decoding accepts is written down as recursive spec
//! functions over a sequence of characters; the executable parser is proved
//! to return exactly what the grammar says.  Documents are flat or nested
//! JSON values, with containers nested no deeper than `DEPTH_LIMIT`, as the
//! transport's parser bounds them; only the string-valued members of the
//! top-level object are collected, since every field of the wire schema is
//! a string.  The executable parser iterates over characters and members,
//! recursing only per nesting level, so its stack use is bounded whatever
//! the document's size.  The serialisation side defines the canonical text
//! that encoding emits, and the lemmas at the end show that the parser
//! recovers the members of a canonically serialised object.

use vstd::prelude::*;

verus! {

/// JSON whitespace: space, tab, line feed, carriage return.
pub open spec fn is_ws(c: char) -> bool {
    c == ' ' || c == '\t' || c == '\n' || c == '\r'
}

/// Index of the first character at or after `i` that is not whitespace.
pub open spec fn sp_ws(s: Seq<char>, i: int) -> int
    decreases s.len() - i,
{
    if 0 <= i && i < s.len() && is_ws(s[i]) {
        sp_ws(s, i + 1)
    } else {
        i
    }
}

/// Skipping whitespace stops immediately on a non-whitespace character.
pub proof fn lemma_sp_ws_stops(s: Seq<char>, i: int)
    requires
        0 <= i < s.len() ==> !is_ws(s[i]),
    ensures
        sp_ws(s, i) == i,
{
}

pub open spec fn is_digit(c: char) -> bool {
    48 <= c as u32 && c as u32 <= 57
}

pub open spec fn is_hex_digit(c: char) -> bool {
    is_digit(c) || (97 <= c as u32 && c as u32 <= 102) || (65 <= c as u32 && c as u32 <= 70)
}

/// Numeric value of a hexadecimal digit (lower or upper case).
pub open spec fn hex_val(c: char) -> int {
    if is_digit(c) {
        c as u32 - 48
    } else if 97 <= c as u32 && c as u32 <= 102 {
        c as u32 - 87
    } else {
        c as u32 - 55
    }
}

/// The character that a short escape `\x` stands for, if `x` is one of the
/// eight single-letter escapes of JSON.
pub open spec fn sp_escape(c: char) -> Option<char> {
    if c == '"' {
        Some('"')
    } else if c == '\\' {
        Some('\\')
    } else if c == '/' {
        Some('/')
    } else if c == 'b' {
        Some('\u{8}')
    } else if c == 'f' {
        Some('\u{c}')
    } else if c == 'n' {
        Some('\n')
    } else if c == 'r' {
        Some('\r')
    } else if c == 't' {
        Some('\t')
    } else {
        None
    }
}

/// Code points that are Unicode scalar values: everything but the
/// surrogate range.
pub open spec fn is_scalar_code(h: int) -> bool {
    (0 <= h && h < 0xD800) || (0xE000 <= h && h < 0x110000)
}

/// The character with code point `h`, for a scalar value `h`.
pub open spec fn char_of_code(h: int) -> char {
    (h as u32) as char
}

/// Content of a JSON string starting just after the opening quote at
/// position `i`: the decoded characters and the index just past the closing
/// quote.  `\uXXXX` escapes cover the whole basic plane, with a high and
/// a low surrogate escape pairing up to one supplementary character; a
/// lone surrogate escape and a raw character below 0x20 are rejected, as
/// the grammar requires.
pub open spec fn sp_string_body(s: Seq<char>, i: int) -> Option<(Seq<char>, int)>
    decreases s.len() - i,
{
    if i < 0 || i >= s.len() {
        None
    } else if s[i] == '"' {
        Some((Seq::empty(), i + 1))
    } else if s[i] == '\\' {
        if i + 2 <= s.len() && s[i + 1] == 'u' {
            if i + 6 <= s.len() && is_hex_digit(s[i + 2]) && is_hex_digit(s[i + 3]) && is_hex_digit(
                s[i + 4],
            ) && is_hex_digit(s[i + 5]) {
                let h = 4096 * hex_val(s[i + 2]) + 256 * hex_val(s[i + 3]) + 16 * hex_val(s[i + 4])
                    + hex_val(s[i + 5]);
                if 0xD800 <= h && h < 0xDC00 {
                    if i + 12 <= s.len() && s[i + 6] == '\\' && s[i + 7] == 'u' && is_hex_digit(
                        s[i + 8],
                    ) && is_hex_digit(s[i + 9]) && is_hex_digit(s[i + 10]) && is_hex_digit(
                        s[i + 11],
                    ) {
                        let h2 = 4096 * hex_val(s[i + 8]) + 256 * hex_val(s[i + 9]) + 16 * hex_val(
                            s[i + 10],
                        ) + hex_val(s[i + 11]);
                        if 0xDC00 <= h2 && h2 < 0xE000 {
                            match sp_string_body(s, i + 12) {
                                Some((t, j)) => Some(
                                    (
                                        seq![
                                            char_of_code(
                                                0x10000 + (h - 0xD800) * 0x400 + (h2 - 0xDC00),
                                            ),
                                        ] + t,
                                        j,
                                    ),
                                ),
                                None => None,
                            }
                        } else {
                            None
                        }
                    } else {
                        None
                    }
                } else if 0xDC00 <= h && h < 0xE000 {
                    None
                } else {
                    match sp_string_body(s, i + 6) {
                        Some((t, j)) => Some((seq![char_of_code(h)] + t, j)),
                        None => None,
                    }
                }
            } else {
                None
            }
        } else if i + 2 <= s.len() {
            match sp_escape(s[i + 1]) {
                Some(c) => match sp_string_body(s, i + 2) {
                    Some((t, j)) => Some((seq![c] + t, j)),
                    None => None,
                },
                None => None,
            }
        } else {
            None
        }
    } else if (s[i] as u32) < 32 {
        None
    } else {
        match sp_string_body(s, i + 1) {
            Some((t, j)) => Some((seq![s[i]] + t, j)),
            None => None,
        }
    }
}

/// A complete JSON string at position `i`: opening quote, content, closing
/// quote.  Returns the content and the index just past the closing quote.
pub open spec fn sp_string(s: Seq<char>, i: int) -> Option<(Seq<char>, int)> {
    if 0 <= i && i < s.len() && s[i] == '"' {
        sp_string_body(s, i + 1)
    } else {
        None
    }
}

/// Index of the first character at or after `i` that is not a decimal digit.
pub open spec fn sp_digits(s: Seq<char>, i: int) -> int
    decreases s.len() - i,
{
    if 0 <= i && i < s.len() && is_digit(s[i]) {
        sp_digits(s, i + 1)
    } else {
        i
    }
}

pub proof fn lemma_sp_digits_bounds(s: Seq<char>, i: int)
    requires
        0 <= i <= s.len(),
    ensures
        i <= sp_digits(s, i) <= s.len(),
    decreases s.len() - i,
{
    if i < s.len() && is_digit(s[i]) {
        lemma_sp_digits_bounds(s, i + 1);
    }
}

/// The optional exponent part of a number beginning at `i`, and the end of
/// the whole number.
pub open spec fn sp_number_exp(s: Seq<char>, i: int) -> Option<int> {
    if 0 <= i && i < s.len() && (s[i] == 'e' || s[i] == 'E') {
        let a = if i + 2 <= s.len() && (s[i + 1] == '+' || s[i + 1] == '-') {
            i + 2
        } else {
            i + 1
        };
        if a < s.len() && is_digit(s[a]) {
            Some(sp_digits(s, a))
        } else {
            None
        }
    } else {
        Some(i)
    }
}

/// End of a JSON number whose first character stands at `i`.
pub open spec fn sp_number(s: Seq<char>, i: int) -> Option<int> {
    let a = if 0 <= i && i < s.len() && s[i] == '-' {
        i + 1
    } else {
        i
    };
    if !(0 <= a && a < s.len() && is_digit(s[a])) {
        None
    } else {
        let b = if s[a] == '0' {
            a + 1
        } else {
            sp_digits(s, a)
        };
        if 0 <= b && b < s.len() && s[b] == '.' {
            if b + 2 <= s.len() && is_digit(s[b + 1]) {
                sp_number_exp(s, sp_digits(s, b + 1))
            } else {
                None
            }
        } else {
            sp_number_exp(s, b)
        }
    }
}

/// A member list of a JSON object: pairs of a key and its value.  Only the
/// members whose value is itself a string are collected, since every field
/// of the wire schema is a string; other members are validated and skipped.
pub type Fields = Seq<(Seq<char>, Seq<char>)>;

/// How deep objects and arrays may nest before a document is rejected,
/// as the transport's parser bounds it.
pub const DEPTH_LIMIT: u32 = 128;

/// End of the JSON value whose first character stands at `i`, given the
/// remaining nesting budget `d`.
pub open spec fn sp_value(s: Seq<char>, i: int, d: int) -> Option<int>
    decreases s.len() - i, 1int,
{
    if i < 0 || i >= s.len() {
        None
    } else if s[i] == '"' {
        match sp_string(s, i) {
            Some((t, j)) => Some(j),
            None => None,
        }
    } else if s[i] == '{' {
        match sp_object(s, i, d) {
            Some((ps, j)) => Some(j),
            None => None,
        }
    } else if s[i] == '[' {
        sp_array(s, i, d)
    } else if s[i] == 't' {
        if i + 4 <= s.len() && s[i + 1] == 'r' && s[i + 2] == 'u' && s[i + 3] == 'e' {
            Some(i + 4)
        } else {
            None
        }
    } else if s[i] == 'f' {
        if i + 5 <= s.len() && s[i + 1] == 'a' && s[i + 2] == 'l' && s[i + 3] == 's' && s[i + 4]
            == 'e' {
            Some(i + 5)
        } else {
            None
        }
    } else if s[i] == 'n' {
        if i + 4 <= s.len() && s[i + 1] == 'u' && s[i + 2] == 'l' && s[i + 3] == 'l' {
            Some(i + 4)
        } else {
            None
        }
    } else if s[i] == '-' || is_digit(s[i]) {
        sp_number(s, i)
    } else {
        None
    }
}

/// A JSON object whose opening brace stands at `i`: its string-valued
/// members and the index just past the closing brace.  Opening the object
/// spends one level of the nesting budget `d`; with none left the
/// document is rejected.
pub open spec fn sp_object(s: Seq<char>, i: int, d: int) -> Option<(Fields, int)>
    decreases s.len() - i, 0int,
{
    if 0 <= i && i < s.len() && s[i] == '{' && d > 0 {
        let j = sp_ws(s, i + 1);
        if i < j && j < s.len() && s[j] == '}' {
            Some((Seq::empty(), j + 1))
        } else if i < j && j <= s.len() {
            sp_membs(s, j, d - 1)
        } else {
            None
        }
    } else {
        None
    }
}

/// One or more `key : value` members starting at `i`, up to and including
/// the closing brace.
pub open spec fn sp_membs(s: Seq<char>, i: int, d: int) -> Option<(Fields, int)>
    decreases s.len() - i, 2int,
{
    match sp_string(s, i) {
        None => None,
        Some((k, j1)) => {
            let j2 = sp_ws(s, j1);
            if !(0 <= j2 && j2 < s.len() && s[j2] == ':') {
                None
            } else {
                let j3 = sp_ws(s, j2 + 1);
                if !(i < j3 && j3 <= s.len()) {
                    None
                } else {
                    let vres: Option<(Option<Seq<char>>, int)> = if j3 < s.len() && s[j3] == '"' {
                        match sp_string(s, j3) {
                            Some((v, j4)) => Some((Some(v), j4)),
                            None => None,
                        }
                    } else {
                        match sp_value(s, j3, d) {
                            Some(j4) => Some((None, j4)),
                            None => None,
                        }
                    };
                    match vres {
                        None => None,
                        Some((kept, j4)) => {
                            let j5 = sp_ws(s, j4);
                            let head: Fields = match kept {
                                Some(v) => seq![(k, v)],
                                None => Seq::empty(),
                            };
                            if 0 <= j5 && j5 < s.len() && s[j5] == '}' {
                                Some((head, j5 + 1))
                            } else if 0 <= j5 && j5 < s.len() && s[j5] == ',' {
                                let j6 = sp_ws(s, j5 + 1);
                                if i < j6 && j6 <= s.len() {
                                    match sp_membs(s, j6, d) {
                                        Some((rest, j7)) => Some((head + rest, j7)),
                                        None => None,
                                    }
                                } else {
                                    None
                                }
                            } else {
                                None
                            }
                        },
                    }
                }
            }
        },
    }
}

/// A JSON array whose opening bracket stands at `i`.  Opening the array
/// spends one level of the nesting budget `d`.
pub open spec fn sp_array(s: Seq<char>, i: int, d: int) -> Option<int>
    decreases s.len() - i, 0int,
{
    if 0 <= i && i < s.len() && s[i] == '[' && d > 0 {
        let j = sp_ws(s, i + 1);
        if i < j && j < s.len() && s[j] == ']' {
            Some(j + 1)
        } else if i < j && j <= s.len() {
            sp_elems(s, j, d - 1)
        } else {
            None
        }
    } else {
        None
    }
}

/// One or more array elements starting at `i`, up to and including the
/// closing bracket.
pub open spec fn sp_elems(s: Seq<char>, i: int, d: int) -> Option<int>
    decreases s.len() - i, 2int,
{
    match sp_value(s, i, d) {
        None => None,
        Some(j) => {
            let j2 = sp_ws(s, j);
            if 0 <= j2 && j2 < s.len() && s[j2] == ']' {
                Some(j2 + 1)
            } else if 0 <= j2 && j2 < s.len() && s[j2] == ',' {
                let j3 = sp_ws(s, j2 + 1);
                if i < j3 && j3 <= s.len() {
                    sp_elems(s, j3, d)
                } else {
                    None
                }
            } else {
                None
            }
        },
    }
}

/// The string-valued members of a complete JSON document that consists of
/// one object, possibly surrounded by whitespace, nested no deeper than
/// the transport's bound.
pub open spec fn sp_doc_fields(s: Seq<char>) -> Option<Fields> {
    let i = sp_ws(s, 0);
    match sp_object(s, i, DEPTH_LIMIT as int) {
        None => None,
        Some((ps, j)) => if sp_ws(s, j) == s.len() {
            Some(ps)
        } else {
            None
        },
    }
}

/// View of the parsed member list: each key and value as its sequence of
/// characters.
pub open spec fn pv(ps: Seq<(Vec<char>, Vec<char>)>) -> Fields {
    ps.map_values(|p: (Vec<char>, Vec<char>)| (p.0@, p.1@))
}

fn e_hex(c: char) -> (r: Option<u32>)
    ensures
        match r {
            Some(v) => is_hex_digit(c) && v as int == hex_val(c) && v < 16,
            None => !is_hex_digit(c),
        },
{
    let u = c as u32;
    if 48 <= u && u <= 57 {
        Some(u - 48)
    } else if 97 <= u && u <= 102 {
        Some(u - 87)
    } else if 65 <= u && u <= 70 {
        Some(u - 55)
    } else {
        None
    }
}

fn e_escape(c: char) -> (r: Option<char>)
    ensures
        r == sp_escape(c),
{
    if c == '"' {
        Some('"')
    } else if c == '\\' {
        Some('\\')
    } else if c == '/' {
        Some('/')
    } else if c == 'b' {
        Some('\u{8}')
    } else if c == 'f' {
        Some('\u{c}')
    } else if c == 'n' {
        Some('\n')
    } else if c == 'r' {
        Some('\r')
    } else if c == 't' {
        Some('\t')
    } else {
        None
    }
}

/// Relies on `char::from_u32`: for a Unicode scalar value it returns the
/// character with exactly that code point.
#[verifier::external_body]
fn char_from_code(h: u32) -> (r: char)
    requires
        is_scalar_code(h as int),
    ensures
        r as u32 == h,
{
    char::from_u32(h).unwrap()
}

fn p_ws(s: &Vec<char>, i: usize) -> (r: usize)
    requires
        i <= s@.len(),
    ensures
        i <= r <= s@.len(),
        r as int == sp_ws(s@, i as int),
{
    let mut cur: usize = i;
    while cur < s.len() && (s[cur] == ' ' || s[cur] == '\t' || s[cur] == '\n' || s[cur] == '\r')
        invariant
            i <= cur <= s@.len(),
            sp_ws(s@, i as int) == sp_ws(s@, cur as int),
        decreases s@.len() - cur,
    {
        cur = cur + 1;
    }
    cur
}

fn p_string_body(s: &Vec<char>, i: usize) -> (r: Option<(Vec<char>, usize)>)
    requires
        i <= s@.len(),
    ensures
        match r {
            Some((t, j)) => sp_string_body(s@, i as int) == Some((t@, j as int)) && i < j
                <= s@.len(),
            None => sp_string_body(s@, i as int) is None,
        },
{
    let mut acc: Vec<char> = Vec::new();
    let mut cur: usize = i;
    proof {
        match sp_string_body(s@, i as int) {
            Some((t, j)) => {
                assert(Seq::<char>::empty() + t =~= t);
            },
            None => {},
        }
    }
    loop
        invariant
            i <= cur <= s@.len(),
            match sp_string_body(s@, cur as int) {
                Some((t, j)) => sp_string_body(s@, i as int) == Some((acc@ + t, j)),
                None => sp_string_body(s@, i as int) is None,
            },
        decreases s@.len() - cur,
    {
        if cur >= s.len() {
            return None;
        }
        let c = s[cur];
        if c == '"' {
            proof {
                assert(acc@ + Seq::<char>::empty() =~= acc@);
            }
            return Some((acc, cur + 1));
        }
        let ghost aold = acc@;
        let step: usize;
        if c == '\\' {
            if s.len() - cur >= 2 && s[cur + 1] == 'u' {
                if s.len() - cur < 6 {
                    return None;
                }
                let h: u32 = match (
                    e_hex(s[cur + 2]),
                    e_hex(s[cur + 3]),
                    e_hex(s[cur + 4]),
                    e_hex(s[cur + 5]),
                ) {
                    (Some(h1), Some(h2), Some(h3), Some(h4)) => 4096 * h1 + 256 * h2 + 16 * h3
                        + h4,
                    _ => {
                        return None;
                    },
                };
                if 0xD800 <= h && h < 0xDC00 {
                    if !(s.len() - cur >= 12 && s[cur + 6] == '\\' && s[cur + 7] == 'u') {
                        return None;
                    }
                    let g: u32 = match (
                        e_hex(s[cur + 8]),
                        e_hex(s[cur + 9]),
                        e_hex(s[cur + 10]),
                        e_hex(s[cur + 11]),
                    ) {
                        (Some(g1), Some(g2), Some(g3), Some(g4)) => 4096 * g1 + 256 * g2 + 16 * g3
                            + g4,
                        _ => {
                            return None;
                        },
                    };
                    if !(0xDC00 <= g && g < 0xE000) {
                        return None;
                    }
                    let cp: u32 = 0x10000 + (h - 0xD800) * 0x400 + (g - 0xDC00);
                    let ch = char_from_code(cp);
                    proof {
                        vstd::utf8::char_u32_cast(ch, cp);
                    }
                    acc.push(ch);
                    step = 12;
                } else if 0xDC00 <= h && h < 0xE000 {
                    return None;
                } else {
                    let ch = char_from_code(h);
                    proof {
                        vstd::utf8::char_u32_cast(ch, h);
                    }
                    acc.push(ch);
                    step = 6;
                }
            } else if s.len() - cur >= 2 {
                match e_escape(s[cur + 1]) {
                    Some(ec) => {
                        acc.push(ec);
                        step = 2;
                    },
                    None => {
                        return None;
                    },
                }
            } else {
                return None;
            }
        } else if (c as u32) < 32 {
            return None;
        } else {
            acc.push(c);
            step = 1;
        }
        proof {
            let prev = cur as int;
            let next = cur as int + step as int;
            // acc@[aold.len()] is the one character this iteration decoded
            match sp_string_body(s@, next) {
                Some((t, j)) => {
                    assert(sp_string_body(s@, prev) == Some((seq![acc@[aold.len() as int]] + t, j)));
                    assert(aold + (seq![acc@[aold.len() as int]] + t) =~= acc@ + t);
                },
                None => {
                    assert(sp_string_body(s@, prev) is None);
                },
            }
        }
        cur = cur + step;
    }
}

fn p_string(s: &Vec<char>, i: usize) -> (r: Option<(Vec<char>, usize)>)
    requires
        i <= s@.len(),
    ensures
        match r {
            Some((t, j)) => sp_string(s@, i as int) == Some((t@, j as int)) && i < j <= s@.len(),
            None => sp_string(s@, i as int) is None,
        },
{
    if i < s.len() && s[i] == '"' {
        p_string_body(s, i + 1)
    } else {
        None
    }
}

fn p_digits(s: &Vec<char>, i: usize) -> (r: usize)
    requires
        i <= s@.len(),
    ensures
        i <= r <= s@.len(),
        r as int == sp_digits(s@, i as int),
{
    let mut cur: usize = i;
    while cur < s.len() && 48 <= s[cur] as u32 && s[cur] as u32 <= 57
        invariant
            i <= cur <= s@.len(),
            sp_digits(s@, i as int) == sp_digits(s@, cur as int),
        decreases s@.len() - cur,
    {
        cur = cur + 1;
    }
    cur
}

fn p_number_exp(s: &Vec<char>, i: usize) -> (r: Option<usize>)
    requires
        i <= s@.len(),
    ensures
        match r {
            Some(j) => sp_number_exp(s@, i as int) == Some(j as int) && i <= j <= s@.len(),
            None => sp_number_exp(s@, i as int) is None,
        },
{
    if i < s.len() && (s[i] == 'e' || s[i] == 'E') {
        let a = if s.len() - i >= 2 && (s[i + 1] == '+' || s[i + 1] == '-') {
            i + 2
        } else {
            i + 1
        };
        if a < s.len() {
            let u = s[a] as u32;
            if 48 <= u && u <= 57 {
                return Some(p_digits(s, a));
            }
        }
        None
    } else {
        Some(i)
    }
}

fn p_number(s: &Vec<char>, i: usize) -> (r: Option<usize>)
    requires
        i <= s@.len(),
    ensures
        match r {
            Some(j) => sp_number(s@, i as int) == Some(j as int) && i < j <= s@.len(),
            None => sp_number(s@, i as int) is None,
        },
{
    let a = if i < s.len() && s[i] == '-' {
        i + 1
    } else {
        i
    };
    if !(a < s.len()) {
        return None;
    }
    let ua = s[a] as u32;
    if !(48 <= ua && ua <= 57) {
        return None;
    }
    let b = if s[a] == '0' {
        a + 1
    } else {
        p_digits(s, a)
    };
    proof {
        if s@[a as int] != '0' {
            lemma_sp_digits_bounds(s@, a + 1);
        }
    }
    if b < s.len() && s[b] == '.' {
        if s.len() - b >= 2 {
            let ub = s[b + 1] as u32;
            if 48 <= ub && ub <= 57 {
                let d = p_digits(s, b + 1);
                return p_number_exp(s, d);
            }
        }
        None
    } else {
        p_number_exp(s, b)
    }
}

fn p_value(s: &Vec<char>, i: usize, d: u32) -> (r: Option<usize>)
    requires
        i <= s@.len(),
    ensures
        match r {
            Some(j) => sp_value(s@, i as int, d as int) == Some(j as int) && i < j <= s@.len(),
            None => sp_value(s@, i as int, d as int) is None,
        },
    decreases s@.len() - i, 1int,
{
    if i >= s.len() {
        return None;
    }
    let c = s[i];
    if c == '"' {
        match p_string(s, i) {
            Some((t, j)) => Some(j),
            None => None,
        }
    } else if c == '{' {
        match p_object(s, i, d) {
            Some((ps, j)) => Some(j),
            None => None,
        }
    } else if c == '[' {
        p_array(s, i, d)
    } else if c == 't' {
        if s.len() - i >= 4 && s[i + 1] == 'r' && s[i + 2] == 'u' && s[i + 3] == 'e' {
            Some(i + 4)
        } else {
            None
        }
    } else if c == 'f' {
        if s.len() - i >= 5 && s[i + 1] == 'a' && s[i + 2] == 'l' && s[i + 3] == 's' && s[i + 4]
            == 'e' {
            Some(i + 5)
        } else {
            None
        }
    } else if c == 'n' {
        if s.len() - i >= 4 && s[i + 1] == 'u' && s[i + 2] == 'l' && s[i + 3] == 'l' {
            Some(i + 4)
        } else {
            None
        }
    } else {
        let u = c as u32;
        if c == '-' || (48 <= u && u <= 57) {
            p_number(s, i)
        } else {
            None
        }
    }
}

fn p_object(s: &Vec<char>, i: usize, d: u32) -> (r: Option<
    (Vec<(Vec<char>, Vec<char>)>, usize),
>)
    requires
        i <= s@.len(),
    ensures
        match r {
            Some((ps, j)) => sp_object(s@, i as int, d as int) == Some((pv(ps@), j as int)) && i
                < j <= s@.len(),
            None => sp_object(s@, i as int, d as int) is None,
        },
    decreases s@.len() - i, 0int,
{
    if i < s.len() && s[i] == '{' && d > 0 {
        let j = p_ws(s, i + 1);
        if j < s.len() && s[j] == '}' {
            let ps: Vec<(Vec<char>, Vec<char>)> = Vec::new();
            proof {
                assert(pv(ps@) =~= Seq::<(Seq<char>, Seq<char>)>::empty());
            }
            Some((ps, j + 1))
        } else {
            p_membs(s, j, d - 1)
        }
    } else {
        None
    }
}

fn p_membs(s: &Vec<char>, i: usize, d: u32) -> (r: Option<(Vec<(Vec<char>, Vec<char>)>, usize)>)
    requires
        i <= s@.len(),
    ensures
        match r {
            Some((ps, j)) => sp_membs(s@, i as int, d as int) == Some((pv(ps@), j as int)) && i
                < j <= s@.len(),
            None => sp_membs(s@, i as int, d as int) is None,
        },
    decreases s@.len() - i, 2int,
{
    let mut acc: Vec<(Vec<char>, Vec<char>)> = Vec::new();
    let mut cur: usize = i;
    proof {
        assert(pv(acc@) =~= Seq::<(Seq<char>, Seq<char>)>::empty());
        match sp_membs(s@, i as int, d as int) {
            Some((rest, j)) => {
                assert(Seq::<(Seq<char>, Seq<char>)>::empty() + rest =~= rest);
            },
            None => {},
        }
    }
    loop
        invariant
            i <= cur <= s@.len(),
            match sp_membs(s@, cur as int, d as int) {
                Some((rest, j)) => sp_membs(s@, i as int, d as int) == Some((pv(acc@) + rest, j)),
                None => sp_membs(s@, i as int, d as int) is None,
            },
        decreases s@.len() - cur,
    {
        let kres = p_string(s, cur);
        if kres.is_none() {
            return None;
        }
        let (k, j1) = kres.unwrap();
        let j2 = p_ws(s, j1);
        if !(j2 < s.len() && s[j2] == ':') {
            return None;
        }
        let j3 = p_ws(s, j2 + 1);
        let kept: Option<Vec<char>>;
        let j4: usize;
        if j3 < s.len() && s[j3] == '"' {
            match p_string(s, j3) {
                Some((v, j)) => {
                    kept = Some(v);
                    j4 = j;
                },
                None => {
                    return None;
                },
            }
        } else {
            match p_value(s, j3, d) {
                Some(j) => {
                    kept = None;
                    j4 = j;
                },
                None => {
                    return None;
                },
            }
        }
        let j5 = p_ws(s, j4);
        let ghost aold = pv(acc@);
        let ghost head: Fields = match &kept {
            Some(v) => seq![(k@, v@)],
            None => Seq::empty(),
        };
        match kept {
            Some(v) => {
                acc.push((k, v));
            },
            None => {},
        }
        proof {
            assert(pv(acc@) =~= aold + head);
        }
        if j5 < s.len() && s[j5] == '}' {
            proof {
                assert(sp_membs(s@, cur as int, d as int) == Some((head, j5 + 1 as int)));
            }
            return Some((acc, j5 + 1));
        } else if j5 < s.len() && s[j5] == ',' {
            let j6 = p_ws(s, j5 + 1);
            proof {
                match sp_membs(s@, j6 as int, d as int) {
                    Some((rest, jj)) => {
                        assert(sp_membs(s@, cur as int, d as int) == Some((head + rest, jj)));
                        assert((aold + head) + rest =~= aold + (head + rest));
                    },
                    None => {
                        assert(sp_membs(s@, cur as int, d as int) is None);
                    },
                }
            }
            cur = j6;
        } else {
            return None;
        }
    }
}

fn p_array(s: &Vec<char>, i: usize, d: u32) -> (r: Option<usize>)
    requires
        i <= s@.len(),
    ensures
        match r {
            Some(j) => sp_array(s@, i as int, d as int) == Some(j as int) && i < j <= s@.len(),
            None => sp_array(s@, i as int, d as int) is None,
        },
    decreases s@.len() - i, 0int,
{
    if i < s.len() && s[i] == '[' && d > 0 {
        let j = p_ws(s, i + 1);
        if j < s.len() && s[j] == ']' {
            Some(j + 1)
        } else {
            p_elems(s, j, d - 1)
        }
    } else {
        None
    }
}

fn p_elems(s: &Vec<char>, i: usize, d: u32) -> (r: Option<usize>)
    requires
        i <= s@.len(),
    ensures
        match r {
            Some(j) => sp_elems(s@, i as int, d as int) == Some(j as int) && i < j <= s@.len(),
            None => sp_elems(s@, i as int, d as int) is None,
        },
    decreases s@.len() - i, 2int,
{
    let mut cur: usize = i;
    loop
        invariant
            i <= cur <= s@.len(),
            match sp_elems(s@, cur as int, d as int) {
                Some(j) => sp_elems(s@, i as int, d as int) == Some(j),
                None => sp_elems(s@, i as int, d as int) is None,
            },
        decreases s@.len() - cur,
    {
        let v = p_value(s, cur, d);
        if v.is_none() {
            return None;
        }
        let j = v.unwrap();
        let j2 = p_ws(s, j);
        if j2 < s.len() && s[j2] == ']' {
            return Some(j2 + 1);
        } else if j2 < s.len() && s[j2] == ',' {
            let j3 = p_ws(s, j2 + 1);
            proof {
                match sp_elems(s@, j3 as int, d as int) {
                    Some(jj) => {
                        assert(sp_elems(s@, cur as int, d as int) == Some(jj));
                    },
                    None => {
                        assert(sp_elems(s@, cur as int, d as int) is None);
                    },
                }
            }
            cur = j3;
        } else {
            return None;
        }
    }
}

/// Parse a complete document: one JSON object, possibly surrounded by
/// whitespace, and return its string-valued members in order.
pub(crate) fn p_doc_fields(s: &Vec<char>) -> (r: Option<Vec<(Vec<char>, Vec<char>)>>)
    ensures
        match r {
            Some(ps) => sp_doc_fields(s@) == Some(pv(ps@)),
            None => sp_doc_fields(s@) is None,
        },
{
    let i = p_ws(s, 0);
    match p_object(s, i, DEPTH_LIMIT) {
        None => None,
        Some((ps, j)) => {
            let k = p_ws(s, j);
            if k == s.len() {
                Some(ps)
            } else {
                None
            }
        },
    }
}

/// Relies on `str::chars` and `Vec: FromIterator<char>`: the characters of
/// the slice, collected in order.
#[verifier::external_body]
pub(crate) fn chars_of(s: &str) -> (r: Vec<char>)
    ensures
        r@ == s@,
{
    s.chars().collect()
}

/// Relies on `String: FromIterator<char>`: collecting the characters of the
/// vector, in order, yields the string made of exactly those characters.
#[verifier::external_body]
pub(crate) fn string_from_chars(cs: &Vec<char>) -> (r: String)
    ensures
        r@ == cs@,
{
    cs.iter().collect()
}

/// Hexadecimal digit character for `d` in 0..16, lower case.
pub open spec fn hex_digit(d: int) -> char {
    if d < 10 {
        ((48 + d) as u8) as char
    } else {
        ((87 + d) as u8) as char
    }
}

/// The canonical escape of one character inside a serialised JSON string:
/// quote and backslash take a backslash, the named control escapes use
/// their short form, the remaining control characters use `\u00XX`, and
/// everything else stands for itself.
pub open spec fn esc_char(c: char) -> Seq<char> {
    if c == '"' {
        seq!['\\', '"']
    } else if c == '\\' {
        seq!['\\', '\\']
    } else if c == '\n' {
        seq!['\\', 'n']
    } else if c == '\r' {
        seq!['\\', 'r']
    } else if c == '\t' {
        seq!['\\', 't']
    } else if c == '\u{8}' {
        seq!['\\', 'b']
    } else if c == '\u{c}' {
        seq!['\\', 'f']
    } else if (c as u32) < 32 {
        seq!['\\', 'u', '0', '0', hex_digit(c as u32 as int / 16), hex_digit(c as u32 as int % 16)]
    } else {
        seq![c]
    }
}

/// The canonical escape of a whole string content.
pub open spec fn esc(v: Seq<char>) -> Seq<char>
    decreases v.len(),
{
    if v.len() == 0 {
        Seq::empty()
    } else {
        esc_char(v[0]) + esc(v.drop_first())
    }
}

/// A serialised JSON string: quote, escaped content, quote.
pub open spec fn quoted(v: Seq<char>) -> Seq<char> {
    seq!['"'] + esc(v) + seq!['"']
}

/// One serialised object member, without any whitespace.
pub open spec fn memb_text(k: Seq<char>, v: Seq<char>) -> Seq<char> {
    quoted(k) + seq![':'] + quoted(v)
}

/// Serialised members joined by commas, closed by the final brace.
/// Meaningful for a member list with at least one entry.
pub open spec fn membs_text(ps: Fields) -> Seq<char>
    decreases ps.len(),
{
    if ps.len() <= 1 {
        memb_text(ps[0].0, ps[0].1) + seq!['}']
    } else {
        memb_text(ps[0].0, ps[0].1) + seq![','] + membs_text(ps.drop_first())
    }
}

/// The canonical serialisation of an object with the given members.
pub open spec fn obj_text(ps: Fields) -> Seq<char> {
    seq!['{'] + membs_text(ps)
}

pub proof fn lemma_esc_push(a: Seq<char>, c: char)
    ensures
        esc(a.push(c)) == esc(a) + esc_char(c),
    decreases a.len(),
{
    reveal_with_fuel(esc, 2);
    if a.len() == 0 {
        assert(a.push(c).drop_first() =~= Seq::<char>::empty());
        assert(esc(a.push(c)) =~= esc(a) + esc_char(c));
    } else {
        assert(a.push(c).drop_first() =~= a.drop_first().push(c));
        lemma_esc_push(a.drop_first(), c);
        assert(esc(a.push(c)) =~= esc(a) + esc_char(c));
    }
}

/// Append the canonical escape of `v`'s characters to `out`.
pub(crate) fn append_escaped(out: &mut Vec<char>, v: &Vec<char>)
    ensures
        final(out)@ == old(out)@ + esc(v@),
{
    let mut i: usize = 0;
    while i < v.len()
        invariant
            i <= v@.len(),
            out@ == old(out)@ + esc(v@.take(i as int)),
        decreases v@.len() - i,
    {
        let ghost oprev = out@;
        let c = v[i];
        if c == '"' {
            out.push('\\');
            out.push('"');
        } else if c == '\\' {
            out.push('\\');
            out.push('\\');
        } else if c == '\n' {
            out.push('\\');
            out.push('n');
        } else if c == '\r' {
            out.push('\\');
            out.push('r');
        } else if c == '\t' {
            out.push('\\');
            out.push('t');
        } else if c == '\u{8}' {
            out.push('\\');
            out.push('b');
        } else if c == '\u{c}' {
            out.push('\\');
            out.push('f');
        } else {
            let u = c as u32;
            if u < 32 {
                out.push('\\');
                out.push('u');
                out.push('0');
                out.push('0');
                let d1 = u / 16;
                let d2 = u % 16;
                let h1 = if d1 < 10 {
                    ((48 + d1) as u8) as char
                } else {
                    ((87 + d1) as u8) as char
                };
                let h2 = if d2 < 10 {
                    ((48 + d2) as u8) as char
                } else {
                    ((87 + d2) as u8) as char
                };
                out.push(h1);
                out.push(h2);
            } else {
                out.push(c);
            }
        }
        proof {
            assert(out@ =~= oprev + esc_char(v@[i as int]));
            lemma_esc_push(v@.take(i as int), v@[i as int]);
            assert(v@.take(i + 1 as int) =~= v@.take(i as int).push(v@[i as int]));
            assert(out@ =~= old(out)@ + esc(v@.take(i + 1 as int)));
        }
        i = i + 1;
    }
    proof {
        assert(v@.take(v@.len() as int) =~= v@);
    }
}

/// Append a serialised JSON string with content `v` to `out`.
pub(crate) fn append_quoted(out: &mut Vec<char>, v: &Vec<char>)
    ensures
        final(out)@ == old(out)@ + quoted(v@),
{
    out.push('"');
    append_escaped(out, v);
    out.push('"');
    proof {
        assert(out@ =~= old(out)@ + quoted(v@));
    }
}

/// A subrange of a matched fragment matches the fragment's subrange.
pub proof fn lemma_sub_sub(s: Seq<char>, i: int, m: Seq<char>, a: int, b: int)
    requires
        0 <= i,
        i + m.len() <= s.len(),
        s.subrange(i, i + m.len()) == m,
        0 <= a <= b <= m.len(),
    ensures
        s.subrange(i + a, i + b) == m.subrange(a, b),
{
    assert forall|w: int| 0 <= w < b - a implies s.subrange(i + a, i + b)[w] == m.subrange(a, b)[w] by {
        assert(m[a + w] == s.subrange(i, i + m.len())[a + w]);
    }
    assert(s.subrange(i + a, i + b) =~= m.subrange(a, b));
}

/// A single character of a matched fragment.
pub proof fn lemma_sub_index(s: Seq<char>, i: int, m: Seq<char>, a: int)
    requires
        0 <= i,
        i + m.len() <= s.len(),
        s.subrange(i, i + m.len()) == m,
        0 <= a < m.len(),
    ensures
        s[i + a] == m[a],
{
    assert(m[a] == s.subrange(i, i + m.len())[a]);
}

/// The parser recovers the content of an escaped string: if the text at `i`
/// is the canonical escape of `v` followed by a closing quote, the string
/// body parse yields `v` and stops just past that quote.
pub proof fn lemma_parse_escaped(s: Seq<char>, i: int, v: Seq<char>)
    requires
        0 <= i,
        i + esc(v).len() + 1 <= s.len(),
        s.subrange(i, i + esc(v).len()) == esc(v),
        s[i + esc(v).len()] == '"',
    ensures
        sp_string_body(s, i) == Some((v, i + esc(v).len() + 1)),
    decreases v.len(),
{
    if v.len() == 0 {
        assert(v =~= Seq::<char>::empty());
    } else {
        let c = v[0];
        let e = esc_char(c);
        let v2 = v.drop_first();
        assert(esc(v) == e + esc(v2));
        let elen = e.len();
        assert forall|w: int| 0 <= w < elen implies s[i + w] == e[w] by {
            lemma_sub_index(s, i, esc(v), w);
        }
        let i2 = i + elen;
        lemma_sub_sub(s, i, esc(v), elen as int, esc(v).len() as int);
        assert(esc(v).subrange(elen as int, esc(v).len() as int) =~= esc(v2));
        lemma_parse_escaped(s, i2, v2);
        assert(seq![c] + v2 =~= v);
        if c == '"' || c == '\\' || c == '\n' || c == '\r' || c == '\t' || c == '\u{8}' || c
            == '\u{c}' {
            assert(sp_string_body(s, i) == Some((v, i + esc(v).len() + 1)));
        } else if (c as u32) < 32 {
            let u = c as u32 as int;
            let d1 = u / 16;
            let d2 = u % 16;
            assert(e[2] == '0' && e[3] == '0' && e[4] == hex_digit(d1) && e[5] == hex_digit(d2));
            assert(hex_val('0') == 0);
            assert(is_hex_digit(hex_digit(d1)) && hex_val(hex_digit(d1)) == d1);
            assert(is_hex_digit(hex_digit(d2)) && hex_val(hex_digit(d2)) == d2);
            assert(4096 * hex_val(s[i + 2]) + 256 * hex_val(s[i + 3]) + 16 * hex_val(s[i + 4])
                + hex_val(s[i + 5]) == u);
            vstd::utf8::char_u32_cast(c, c as u32);
            assert(char_of_code(u) == ((c as u32) as char));
            assert(char_of_code(u) == c);
            assert(sp_string_body(s, i) == Some((v, i + esc(v).len() + 1)));
        } else {
            assert(sp_string_body(s, i) == Some((v, i + esc(v).len() + 1)));
        }
    }
}

/// The parser recovers the content of a canonically serialised string.
pub proof fn lemma_parse_quoted(s: Seq<char>, i: int, v: Seq<char>)
    requires
        0 <= i,
        i + quoted(v).len() <= s.len(),
        s.subrange(i, i + quoted(v).len()) == quoted(v),
    ensures
        sp_string(s, i) == Some((v, i + quoted(v).len())),
{
    let q = quoted(v);
    lemma_sub_index(s, i, q, 0);
    lemma_sub_index(s, i, q, q.len() - 1);
    lemma_sub_sub(s, i, q, 1, 1 + esc(v).len() as int);
    assert(q.subrange(1, 1 + esc(v).len() as int) =~= esc(v));
    lemma_parse_escaped(s, i + 1, v);
}

/// The parser recovers the members of a canonically serialised object body:
/// if the text at `i` is `membs_text(ps)`, the member parse yields exactly
/// `ps` and stops just past the closing brace.  Canonical members hold only
/// string values, so any nesting budget `d` serves.
pub proof fn lemma_parse_canonical_membs(s: Seq<char>, i: int, d: int, ps: Fields)
    requires
        ps.len() >= 1,
        0 <= i,
        i + membs_text(ps).len() <= s.len(),
        s.subrange(i, i + membs_text(ps).len()) == membs_text(ps),
    ensures
        sp_membs(s, i, d) == Some((ps, i + membs_text(ps).len())),
    decreases ps.len(),
{
    let k = ps[0].0;
    let v = ps[0].1;
    let m = membs_text(ps);
    let mt = memb_text(k, v);
    let qk = quoted(k).len() as int;
    let qv = quoted(v).len() as int;
    let mtl = mt.len() as int;
    assert(mtl == qk + 1 + qv);
    // the key string
    lemma_sub_sub(s, i, m, 0, qk);
    assert(m.subrange(0, qk) =~= quoted(k));
    lemma_parse_quoted(s, i, k);
    let j1 = i + qk;
    // the colon, with no whitespace around it
    lemma_sub_index(s, i, m, qk);
    assert(m[qk] == ':');
    lemma_sp_ws_stops(s, j1);
    // the value string
    lemma_sub_index(s, i, m, qk + 1);
    assert(m[qk + 1] == quoted(v)[0]);
    lemma_sp_ws_stops(s, j1 + 1);
    lemma_sub_sub(s, i, m, qk + 1, qk + 1 + qv);
    assert(m.subrange(qk + 1, qk + 1 + qv) =~= quoted(v));
    lemma_parse_quoted(s, j1 + 1, v);
    let j4 = j1 + 1 + qv;
    assert(j4 == i + mtl);
    if ps.len() == 1 {
        lemma_sub_index(s, i, m, mtl);
        assert(m[mtl] == '}');
        lemma_sp_ws_stops(s, j4);
        assert((k, v) == ps[0]);
        assert(seq![(k, v)] =~= ps);
        assert(sp_membs(s, i, d) == Some((ps, i + m.len())));
    } else {
        lemma_sub_index(s, i, m, mtl);
        assert(m[mtl] == ',');
        lemma_sp_ws_stops(s, j4);
        let rest = ps.drop_first();
        let rl = membs_text(rest).len() as int;
        assert(m.len() == mtl + 1 + rl);
        lemma_sub_sub(s, i, m, mtl + 1, mtl + 1 + rl);
        assert(m.subrange(mtl + 1, mtl + 1 + rl) =~= membs_text(rest));
        lemma_sub_index(s, i, m, mtl + 1);
        assert(membs_text(rest)[0] == quoted(rest[0].0)[0]);
        lemma_sp_ws_stops(s, j4 + 1);
        lemma_parse_canonical_membs(s, j4 + 1, d, rest);
        assert((k, v) == ps[0]);
        assert(seq![(k, v)] + rest =~= ps);
        assert(sp_membs(s, i, d) == Some((ps, i + m.len())));
    }
}

/// The parser recovers the members of a canonically serialised document:
/// parsing `obj_text(ps)` yields exactly the members `ps`.
pub proof fn lemma_parse_canonical_doc(s: Seq<char>, ps: Fields)
    requires
        ps.len() >= 1,
        s == obj_text(ps),
    ensures
        sp_doc_fields(s) == Some(ps),
{
    let m = membs_text(ps);
    assert(s.len() == 1 + m.len());
    assert(s[0] == '{');
    lemma_sp_ws_stops(s, 0);
    assert(s.subrange(1, 1 + m.len() as int) =~= m);
    lemma_sub_index(s, 1, m, 0);
    assert(m[0] == quoted(ps[0].0)[0]);
    lemma_sp_ws_stops(s, 1);
    lemma_parse_canonical_membs(s, 1, DEPTH_LIMIT as int - 1, ps);
    lemma_sp_ws_stops(s, s.len() as int);
    assert(sp_doc_fields(s) == Some(ps));
}

/// Push one character, stated as concatenation.
pub(crate) fn push_char(out: &mut Vec<char>, c: char)
    ensures
        final(out)@ == old(out)@ + seq![c],
{
    out.push(c);
    proof {
        assert(out@ =~= old(out)@ + seq![c]);
    }
}

/// The serialised object of four members, written out flat.
pub proof fn lemma_obj_text_flat4(ps: Fields)
    requires
        ps.len() == 4,
    ensures
        obj_text(ps) == seq!['{'] + memb_text(ps[0].0, ps[0].1) + seq![','] + memb_text(
            ps[1].0,
            ps[1].1,
        ) + seq![','] + memb_text(ps[2].0, ps[2].1) + seq![','] + memb_text(ps[3].0, ps[3].1)
            + seq!['}'],
{
    reveal_with_fuel(membs_text, 5);
    assert(obj_text(ps) =~= seq!['{'] + memb_text(ps[0].0, ps[0].1) + seq![','] + memb_text(
        ps[1].0,
        ps[1].1,
    ) + seq![','] + memb_text(ps[2].0, ps[2].1) + seq![','] + memb_text(ps[3].0, ps[3].1)
        + seq!['}']);
}

/// The serialised object of five members, written out flat.
pub proof fn lemma_obj_text_flat5(ps: Fields)
    requires
        ps.len() == 5,
    ensures
        obj_text(ps) == seq!['{'] + memb_text(ps[0].0, ps[0].1) + seq![','] + memb_text(
            ps[1].0,
            ps[1].1,
        ) + seq![','] + memb_text(ps[2].0, ps[2].1) + seq![','] + memb_text(ps[3].0, ps[3].1)
            + seq![','] + memb_text(ps[4].0, ps[4].1) + seq!['}'],
{
    reveal_with_fuel(membs_text, 6);
    assert(obj_text(ps) =~= seq!['{'] + memb_text(ps[0].0, ps[0].1) + seq![','] + memb_text(
        ps[1].0,
        ps[1].1,
    ) + seq![','] + memb_text(ps[2].0, ps[2].1) + seq![','] + memb_text(ps[3].0, ps[3].1)
        + seq![','] + memb_text(ps[4].0, ps[4].1) + seq!['}']);
}

/// The serialised object of six members, written out flat.
#[verifier::rlimit(100)]
pub proof fn lemma_obj_text_flat6(ps: Fields)
    requires
        ps.len() == 6,
    ensures
        obj_text(ps) == seq!['{'] + memb_text(ps[0].0, ps[0].1) + seq![','] + memb_text(
            ps[1].0,
            ps[1].1,
        ) + seq![','] + memb_text(ps[2].0, ps[2].1) + seq![','] + memb_text(ps[3].0, ps[3].1)
            + seq![','] + memb_text(ps[4].0, ps[4].1) + seq![','] + memb_text(ps[5].0, ps[5].1)
            + seq!['}'],
{
    let m0 = memb_text(ps[0].0, ps[0].1);
    let m1 = memb_text(ps[1].0, ps[1].1);
    let m2 = memb_text(ps[2].0, ps[2].1);
    let m3 = memb_text(ps[3].0, ps[3].1);
    let m4 = memb_text(ps[4].0, ps[4].1);
    let m5 = memb_text(ps[5].0, ps[5].1);
    assert(ps.subrange(5, 6)[0] == ps[5]);
    assert(membs_text(ps.subrange(5, 6)) == m5 + seq!['}']);
    assert(ps.subrange(4, 6)[0] == ps[4]);
    assert(ps.subrange(4, 6).drop_first() =~= ps.subrange(5, 6));
    assert(membs_text(ps.subrange(4, 6)) == m4 + seq![','] + membs_text(ps.subrange(5, 6)));
    assert(ps.subrange(3, 6)[0] == ps[3]);
    assert(ps.subrange(3, 6).drop_first() =~= ps.subrange(4, 6));
    assert(membs_text(ps.subrange(3, 6)) == m3 + seq![','] + membs_text(ps.subrange(4, 6)));
    assert(ps.subrange(2, 6)[0] == ps[2]);
    assert(ps.subrange(2, 6).drop_first() =~= ps.subrange(3, 6));
    assert(membs_text(ps.subrange(2, 6)) == m2 + seq![','] + membs_text(ps.subrange(3, 6)));
    assert(ps.subrange(1, 6)[0] == ps[1]);
    assert(ps.subrange(1, 6).drop_first() =~= ps.subrange(2, 6));
    assert(membs_text(ps.subrange(1, 6)) == m1 + seq![','] + membs_text(ps.subrange(2, 6)));
    assert(ps.subrange(0, 6) =~= ps);
    assert(ps.drop_first() =~= ps.subrange(1, 6));
    assert(membs_text(ps) == m0 + seq![','] + membs_text(ps.subrange(1, 6)));
    assert(obj_text(ps) =~= seq!['{'] + m0 + seq![','] + m1 + seq![','] + m2 + seq![','] + m3
        + seq![','] + m4 + seq![','] + m5 + seq!['}']);
}

} // verus!
