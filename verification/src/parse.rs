//! The JSON text parser.
//!
//! A recursive-descent grammar over character sequences. The executable
//! parser mirrors a specification-level parser function for function;
//! the round-trip law against the serializer lives in `roundtrip`.
//!
//! The accepted grammar is standard JSON with integer numbers:
//! whitespace between tokens is skipped, so the compact form the
//! serializer emits and any conventionally formatted peer output both
//! parse. A frame outside the grammar (including any fractional or
//! exponent number, which the integer model cannot hold) is reported
//! as malformed and the caller drops it.

use vstd::prelude::*;
use crate::json::{Json, JsonVal, jval, jval_seq, jval_members};

verus! {

broadcast use {vstd::std_specs::vec::group_vec_axioms, vstd::seq::group_seq_axioms};

/// Whether the character at `i` is `c`.
pub open spec fn at(s: Seq<char>, i: int, c: char) -> bool {
    0 <= i < s.len() && s[i] == c
}

/// Whether `c` is a decimal digit.
pub open spec fn is_digit(c: char) -> bool {
    '0' <= c && c <= '9'
}

/// The value of a decimal digit.
pub open spec fn digit_val(c: char) -> int {
    c as int - '0' as int
}

/// Whether `c` is a hexadecimal digit.
pub open spec fn is_hex(c: char) -> bool {
    is_digit(c) || ('a' <= c && c <= 'f') || ('A' <= c && c <= 'F')
}

/// The value of a hexadecimal digit.
pub open spec fn hex_val(c: char) -> int {
    if is_digit(c) {
        digit_val(c)
    } else if 'a' <= c && c <= 'f' {
        c as int - 'a' as int + 10
    } else {
        c as int - 'A' as int + 10
    }
}

/// Whether `code` is a Unicode scalar value, hence a valid `char`.
pub open spec fn is_scalar(code: int) -> bool {
    (0 <= code < 0xD800) || (0xE000 <= code <= 0x10FFFF)
}

/// The character named by a short escape (the character after the
/// backslash), if it is one.
pub open spec fn unescape_short(e: char) -> Option<char> {
    if e == '"' {
        Some('"')
    } else if e == '\\' {
        Some('\\')
    } else if e == '/' {
        Some('/')
    } else if e == 'b' {
        Some('\u{8}')
    } else if e == 'f' {
        Some('\u{c}')
    } else if e == 'n' {
        Some('\n')
    } else if e == 'r' {
        Some('\r')
    } else if e == 't' {
        Some('\t')
    } else {
        None
    }
}

/// Whether `c` is JSON whitespace (a trailing carriage return from a
/// CRLF line ending is whitespace too).
pub open spec fn is_ws(c: char) -> bool {
    c == ' ' || c == '\t' || c == '\r' || c == '\n'
}

/// The first position at or after `i` that does not hold whitespace.
pub open spec fn skip_ws(s: Seq<char>, i: int) -> int
    decreases s.len() - i,
{
    if 0 <= i < s.len() && is_ws(s[i]) {
        skip_ws(s, i + 1)
    } else {
        i
    }
}

/// Skipping whitespace never moves backwards and never passes the end.
pub proof fn lemma_skip_ws_bounds(s: Seq<char>, i: int)
    requires
        0 <= i <= s.len(),
    ensures
        i <= skip_ws(s, i) <= s.len(),
        skip_ws(s, i) == s.len() || !is_ws(s[skip_ws(s, i)]),
    decreases s.len() - i,
{
    if i < s.len() && is_ws(s[i]) {
        lemma_skip_ws_bounds(s, i + 1);
    }
}

/// Parses the body of a string literal starting just after the opening
/// quote; yields the content and the position after the closing quote.
pub open spec fn parse_string_rest(s: Seq<char>, i: int) -> Option<(Seq<char>, int)>
    decreases s.len() - i,
{
    if i < 0 || i >= s.len() {
        None
    } else if s[i] == '"' {
        Some((Seq::empty(), i + 1))
    } else if s[i] == '\\' {
        if i + 2 > s.len() {
            None
        } else if s[i + 1] == 'u' {
            if i + 6 > s.len() {
                None
            } else if !(is_hex(s[i + 2]) && is_hex(s[i + 3]) && is_hex(s[i + 4]) && is_hex(
                s[i + 5],
            )) {
                None
            } else {
                let code = hex_val(s[i + 2]) * 0x1000 + hex_val(s[i + 3]) * 0x100 + hex_val(
                    s[i + 4],
                ) * 0x10 + hex_val(s[i + 5]);
                if is_scalar(code) {
                    match parse_string_rest(s, i + 6) {
                        None => None,
                        Some((t, j)) => Some((seq![code as char] + t, j)),
                    }
                } else {
                    None
                }
            }
        } else {
            match unescape_short(s[i + 1]) {
                None => None,
                Some(c) => match parse_string_rest(s, i + 2) {
                    None => None,
                    Some((t, j)) => Some((seq![c] + t, j)),
                },
            }
        }
    } else {
        match parse_string_rest(s, i + 1) {
            None => None,
            Some((t, j)) => Some((seq![s[i]] + t, j)),
        }
    }
}

/// Consumes decimal digits from `i`, folding them onto `acc`; stops at
/// the first non-digit and yields the accumulated value and position.
pub open spec fn parse_digits(s: Seq<char>, i: int, acc: nat) -> (nat, int)
    decreases s.len() - i,
{
    if 0 <= i < s.len() && is_digit(s[i]) {
        parse_digits(s, i + 1, (acc * 10 + digit_val(s[i])) as nat)
    } else {
        (acc, i)
    }
}

/// The least value a JSON number may take here: `i128::MIN`.
pub open spec fn int_min() -> int {
    -0x8000_0000_0000_0000_0000_0000_0000_0000
}

/// One past the greatest value a JSON number may take here: `i128::MAX + 1`.
pub open spec fn int_top() -> int {
    0x8000_0000_0000_0000_0000_0000_0000_0000
}

/// Parses a number starting at `i` (a minus sign or a first digit).
/// Numbers with leading zeros, and numbers outside the `i128` range,
/// are rejected.
pub open spec fn parse_number(s: Seq<char>, i: int) -> Option<(JsonVal, int)> {
    if at(s, i, '-') {
        if i + 1 < s.len() && is_digit(s[i + 1]) && !(s[i + 1] == '0' && i + 2 < s.len()
            && is_digit(s[i + 2])) {
            let (n, j) = parse_digits(s, i + 1, 0);
            if n <= -int_min() {
                Some((JsonVal::Int(-(n as int)), j))
            } else {
                None
            }
        } else {
            None
        }
    } else if 0 <= i < s.len() && is_digit(s[i]) {
        if s[i] == '0' && i + 1 < s.len() && is_digit(s[i + 1]) {
            None
        } else {
            let (n, j) = parse_digits(s, i, 0);
            if n < int_top() {
                Some((JsonVal::Int(n as int), j))
            } else {
                None
            }
        }
    } else {
        None
    }
}

/// Parses one JSON value starting at `i`, skipping leading whitespace.
pub open spec fn parse_value(s: Seq<char>, i: int) -> Option<(JsonVal, int)>
    decreases s.len() - i, 0int,
{
    let j = skip_ws(s, i);
    if i < 0 || j < i || j >= s.len() {
        None
    } else {
        let c = s[j];
        if c == 'n' {
            if j + 4 <= s.len() && s[j + 1] == 'u' && s[j + 2] == 'l' && s[j + 3] == 'l' {
                Some((JsonVal::Null, j + 4))
            } else {
                None
            }
        } else if c == 't' {
            if j + 4 <= s.len() && s[j + 1] == 'r' && s[j + 2] == 'u' && s[j + 3] == 'e' {
                Some((JsonVal::Bool(true), j + 4))
            } else {
                None
            }
        } else if c == 'f' {
            if j + 5 <= s.len() && s[j + 1] == 'a' && s[j + 2] == 'l' && s[j + 3] == 's' && s[j
                + 4] == 'e' {
                Some((JsonVal::Bool(false), j + 5))
            } else {
                None
            }
        } else if c == '"' {
            match parse_string_rest(s, j + 1) {
                None => None,
                Some((t, k)) => Some((JsonVal::Text(t), k)),
            }
        } else if c == '[' {
            if at(s, skip_ws(s, j + 1), ']') {
                Some((JsonVal::Arr(Seq::empty()), skip_ws(s, j + 1) + 1))
            } else {
                match parse_elems(s, j + 1) {
                    None => None,
                    Some((items, k)) => Some((JsonVal::Arr(items), k)),
                }
            }
        } else if c == '{' {
            if at(s, skip_ws(s, j + 1), '}') {
                Some((JsonVal::Obj(Seq::empty()), skip_ws(s, j + 1) + 1))
            } else {
                match parse_members(s, j + 1) {
                    None => None,
                    Some((members, k)) => Some((JsonVal::Obj(members), k)),
                }
            }
        } else if c == '-' || is_digit(c) {
            parse_number(s, j)
        } else {
            None
        }
    }
}

/// Parses a non-empty comma-separated element list and the closing `]`.
pub open spec fn parse_elems(s: Seq<char>, i: int) -> Option<(Seq<JsonVal>, int)>
    decreases s.len() - i, 1int,
{
    match parse_value(s, i) {
        None => None,
        Some((v, j)) => if j <= i {
            // never happens: a parsed value consumes at least one character
            None
        } else {
            let k = skip_ws(s, j);
            if k < j {
                // never happens: skipping whitespace never moves backwards
                None
            } else if at(s, k, ',') {
                match parse_elems(s, k + 1) {
                    None => None,
                    Some((items, l)) => Some((seq![v] + items, l)),
                }
            } else if at(s, k, ']') {
                Some((seq![v], k + 1))
            } else {
                None
            }
        },
    }
}

/// Parses a non-empty comma-separated member list and the closing `}`.
pub open spec fn parse_members(s: Seq<char>, i: int) -> Option<(Seq<(Seq<char>, JsonVal)>, int)>
    decreases s.len() - i, 1int,
{
    let i0 = skip_ws(s, i);
    if i0 < i || !at(s, i0, '"') {
        None
    } else {
        match parse_string_rest(s, i0 + 1) {
            None => None,
            Some((key, j)) => if j <= i0 {
                // never happens: a parsed string consumes at least one character
                None
            } else {
                let j2 = skip_ws(s, j);
                if j2 < j || !at(s, j2, ':') {
                    None
                } else {
                    match parse_value(s, j2 + 1) {
                        None => None,
                        Some((v, k)) => if k <= j2 {
                            // never happens: a parsed value consumes at least one character
                            None
                        } else {
                            let k2 = skip_ws(s, k);
                            if k2 < k {
                                // never happens: skipping whitespace never moves backwards
                                None
                            } else if at(s, k2, ',') {
                                match parse_members(s, k2 + 1) {
                                    None => None,
                                    Some((members, l)) => Some((seq![(key, v)] + members, l)),
                                }
                            } else if at(s, k2, '}') {
                                Some((seq![(key, v)], k2 + 1))
                            } else {
                                None
                            }
                        },
                    }
                }
            },
        }
    }
}

/// Parses a whole document: one JSON value, with nothing but whitespace
/// around it.
pub open spec fn parse_doc(s: Seq<char>) -> Option<JsonVal> {
    match parse_value(s, 0) {
        None => None,
        Some((v, j)) => if skip_ws(s, j) == s.len() {
            Some(v)
        } else {
            None
        },
    }
}

/// A successful string-body parse always advances and stays in bounds.
pub proof fn lemma_string_progress(s: Seq<char>, i: int)
    ensures
        parse_string_rest(s, i) matches Some((t, j)) ==> i < j <= s.len(),
    decreases s.len() - i,
{
    if 0 <= i < s.len() {
        if s[i] == '"' {
        } else if s[i] == '\\' {
            if i + 2 <= s.len() {
                if s[i + 1] == 'u' {
                    if i + 6 <= s.len() {
                        lemma_string_progress(s, i + 6);
                    }
                } else {
                    lemma_string_progress(s, i + 2);
                }
            }
        } else {
            lemma_string_progress(s, i + 1);
        }
    }
}

/// Digit consumption never moves backwards and stays in bounds, and the
/// accumulated value never shrinks.
pub proof fn lemma_digits_progress(s: Seq<char>, i: int, acc: nat)
    requires
        0 <= i <= s.len(),
    ensures
        i <= parse_digits(s, i, acc).1 <= s.len(),
        parse_digits(s, i, acc).0 >= acc,
    decreases s.len() - i,
{
    if i < s.len() && is_digit(s[i]) {
        lemma_digits_progress(s, i + 1, (acc * 10 + digit_val(s[i])) as nat);
    }
}

/// A successful value parse always advances and stays in bounds.
pub proof fn lemma_value_progress(s: Seq<char>, i: int)
    ensures
        parse_value(s, i) matches Some((v, j)) ==> i < j <= s.len(),
    decreases s.len() - i, 0int,
{
    let j0 = skip_ws(s, i);
    if 0 <= i && i <= j0 < s.len() {
        lemma_skip_ws_bounds(s, i);
        let c = s[j0];
        if c == '"' {
            lemma_string_progress(s, j0 + 1);
        } else if c == '[' {
            lemma_skip_ws_bounds(s, j0 + 1);
            if !at(s, skip_ws(s, j0 + 1), ']') {
                lemma_elems_progress(s, j0 + 1);
            }
        } else if c == '{' {
            lemma_skip_ws_bounds(s, j0 + 1);
            if !at(s, skip_ws(s, j0 + 1), '}') {
                lemma_members_progress(s, j0 + 1);
            }
        } else if c == '-' || is_digit(c) {
            if at(s, j0, '-') {
                if j0 + 1 < s.len() && is_digit(s[j0 + 1]) {
                    lemma_digits_progress(s, j0 + 1, 0);
                }
            } else {
                lemma_digits_progress(s, j0 + 1, digit_val(s[j0]) as nat);
            }
        }
    }
}

/// A successful element-list parse always advances and stays in bounds.
pub proof fn lemma_elems_progress(s: Seq<char>, i: int)
    ensures
        parse_elems(s, i) matches Some((items, j)) ==> i < j <= s.len(),
    decreases s.len() - i, 1int,
{
    lemma_value_progress(s, i);
    if let Some((v, j)) = parse_value(s, i) {
        if i < j {
            lemma_skip_ws_bounds(s, j);
            let k = skip_ws(s, j);
            if j <= k && at(s, k, ',') {
                lemma_elems_progress(s, k + 1);
            }
        }
    }
}

/// A successful member-list parse always advances and stays in bounds.
pub proof fn lemma_members_progress(s: Seq<char>, i: int)
    ensures
        parse_members(s, i) matches Some((members, j)) ==> i < j <= s.len(),
    decreases s.len() - i, 1int,
{
    let i0 = skip_ws(s, i);
    if i <= i0 && at(s, i0, '"') {
        lemma_string_progress(s, i0 + 1);
        if let Some((key, j)) = parse_string_rest(s, i0 + 1) {
            if i0 < j {
                lemma_skip_ws_bounds(s, j);
                let j2 = skip_ws(s, j);
                if j <= j2 && at(s, j2, ':') {
                    lemma_value_progress(s, j2 + 1);
                    if let Some((v, k)) = parse_value(s, j2 + 1) {
                        if j2 < k {
                            lemma_skip_ws_bounds(s, k);
                            let k2 = skip_ws(s, k);
                            if k <= k2 && at(s, k2, ',') {
                                lemma_members_progress(s, k2 + 1);
                            }
                        }
                    }
                }
            }
        }
    }
}

/// Whether a decimal digit stands at `k`.
fn digit_at(s: &Vec<char>, k: usize) -> (r: bool)
    ensures
        r == (k < s@.len() && is_digit(s@[k as int])),
{
    if k < s.len() {
        let c = s[k];
        '0' <= c && c <= '9'
    } else {
        false
    }
}

/// Whether whitespace stands at `k`.
fn ws_at(s: &Vec<char>, k: usize) -> (r: bool)
    ensures
        r == (k < s@.len() && is_ws(s@[k as int])),
{
    if k < s.len() {
        let c = s[k];
        c == ' ' || c == '\t' || c == '\r' || c == '\n'
    } else {
        false
    }
}

/// The first position at or after `i` without whitespace.
fn ws_skip(s: &Vec<char>, i: usize) -> (r: usize)
    requires
        i <= s@.len(),
    ensures
        r as int == skip_ws(s@, i as int),
        i <= r,
        r <= s@.len(),
{
    proof {
        lemma_len_usize(s);
        lemma_skip_ws_bounds(s@, i as int);
    }
    let mut k: usize = i;
    while ws_at(s, k)
        invariant
            s@.len() <= usize::MAX,
            i <= k <= s@.len(),
            skip_ws(s@, i as int) == skip_ws(s@, k as int),
        decreases s@.len() - k,
    {
        k = k + 1;
    }
    k
}

/// Whether the character `c` stands at `k`.
fn char_at(s: &Vec<char>, k: usize, c: char) -> (r: bool)
    ensures
        r == at(s@, k as int, c),
{
    k < s.len() && s[k] == c
}

/// A vector never holds more than `usize::MAX` characters.
proof fn lemma_len_usize(s: &Vec<char>)
    ensures
        s@.len() <= usize::MAX,
{
    assert(vstd::std_specs::vec::spec_vec_len(s) == s@.len());
}

/// The value of the hexadecimal digit at `k`, if one stands there.
fn hex_at(s: &Vec<char>, k: usize) -> (r: Option<u32>)
    requires
        k < s@.len(),
    ensures
        r is Some <==> is_hex(s@[k as int]),
        r matches Some(v) ==> v == hex_val(s@[k as int]) && v < 16,
{
    let c = s[k];
    if '0' <= c && c <= '9' {
        Some(c as u32 - '0' as u32)
    } else if 'a' <= c && c <= 'f' {
        Some(c as u32 - 'a' as u32 + 10)
    } else if 'A' <= c && c <= 'F' {
        Some(c as u32 - 'A' as u32 + 10)
    } else {
        None
    }
}

/// The character named by a short escape, if it is one.
fn unescape_short_at(e: char) -> (r: Option<char>)
    ensures
        r == unescape_short(e),
{
    if e == '"' {
        Some('"')
    } else if e == '\\' {
        Some('\\')
    } else if e == '/' {
        Some('/')
    } else if e == 'b' {
        Some('\u{8}')
    } else if e == 'f' {
        Some('\u{c}')
    } else if e == 'n' {
        Some('\n')
    } else if e == 'r' {
        Some('\r')
    } else if e == 't' {
        Some('\t')
    } else {
        None
    }
}

/// Consumes decimal digits from `i`; `None` reports a value too large
/// for any JSON number accepted here.
fn take_digits(s: &Vec<char>, i: usize) -> (r: Option<(u128, usize)>)
    requires
        i <= s@.len(),
    ensures
        match r {
            Some((n, j)) => parse_digits(s@, i as int, 0) == ((n as nat, j as int))
                && i <= j <= s@.len(),
            None => parse_digits(s@, i as int, 0).0 > u128::MAX,
        },
{
    proof {
        lemma_len_usize(s);
    }
    let mut acc: u128 = 0;
    let mut k: usize = i;
    while digit_at(s, k)
        invariant
            s@.len() <= usize::MAX,
            i <= k <= s@.len(),
            parse_digits(s@, i as int, 0) == parse_digits(s@, k as int, acc as nat),
        decreases s@.len() - k,
    {
        let c = s[k];
        let d: u128 = (c as u32 - '0' as u32) as u128;
        if acc > u128::MAX / 10 {
            proof {
                lemma_digits_progress(s@, k + 1, (acc * 10 + digit_val(s@[k as int])) as nat);
                assert(acc * 10 > u128::MAX);
            }
            return None;
        }
        let m: u128 = acc * 10;
        if d > u128::MAX - m {
            proof {
                lemma_digits_progress(s@, k + 1, (acc * 10 + digit_val(s@[k as int])) as nat);
            }
            return None;
        }
        acc = m + d;
        k = k + 1;
    }
    Some((acc, k))
}

/// Parses the body of a string literal starting just after the opening
/// quote.
fn take_string_rest(s: &Vec<char>, i: usize) -> (r: Option<(String, usize)>)
    requires
        i <= s@.len(),
    ensures
        match r {
            Some((t, j)) => parse_string_rest(s@, i as int) == Some((t@, j as int)) && i < j
                <= s@.len(),
            None => parse_string_rest(s@, i as int) is None,
        },
{
    proof {
        lemma_len_usize(s);
    }
    let mut out: Vec<char> = Vec::new();
    let mut k: usize = i;
    loop
        invariant
            s@.len() <= usize::MAX,
            i <= k <= s@.len(),
            parse_string_rest(s@, i as int) == (match parse_string_rest(s@, k as int) {
                None => None::<(Seq<char>, int)>,
                Some((t, j)) => Some((out@ + t, j)),
            }),
        decreases s@.len() - k,
    {
        if k >= s.len() {
            return None;
        }
        let c = s[k];
        if c == '"' {
            proof {
                assert(out@ + Seq::<char>::empty() =~= out@);
            }
            let t = crate::text::chars_to_string(&out);
            return Some((t, k + 1));
        }
        let ghost pre = out@;
        if c == '\\' {
            if k + 1 >= s.len() {
                return None;
            }
            let e = s[k + 1];
            if e == 'u' {
                if s.len() - k < 6 {
                    return None;
                }
                let h0 = hex_at(s, k + 2);
                let h1 = hex_at(s, k + 3);
                let h2 = hex_at(s, k + 4);
                let h3 = hex_at(s, k + 5);
                match (h0, h1, h2, h3) {
                    (Some(v0), Some(v1), Some(v2), Some(v3)) => {
                        let code: u32 = v0 * 0x1000 + v1 * 0x100 + v2 * 0x10 + v3;
                        match crate::text::char_from_u32(code) {
                            None => {
                                return None;
                            },
                            Some(ch) => {
                                out.push(ch);
                                k = k + 6;
                                proof {
                                    if let Some((t, j)) = parse_string_rest(s@, k as int) {
                                        assert(pre + (seq![ch] + t) =~= out@ + t);
                                    }
                                }
                            },
                        }
                    },
                    _ => {
                        return None;
                    },
                }
            } else {
                match unescape_short_at(e) {
                    None => {
                        return None;
                    },
                    Some(c2) => {
                        out.push(c2);
                        k = k + 2;
                        proof {
                            if let Some((t, j)) = parse_string_rest(s@, k as int) {
                                assert(pre + (seq![c2] + t) =~= out@ + t);
                            }
                        }
                    },
                }
            }
        } else {
            out.push(c);
            k = k + 1;
            proof {
                if let Some((t, j)) = parse_string_rest(s@, k as int) {
                    assert(pre + (seq![c] + t) =~= out@ + t);
                }
            }
        }
    }
}

/// Parses a number starting at `i` (a minus sign or a first digit).
fn take_number(s: &Vec<char>, i: usize) -> (r: Option<(Json, usize)>)
    requires
        i < s@.len(),
        s@[i as int] == '-' || is_digit(s@[i as int]),
    ensures
        match r {
            Some((v, j)) => parse_number(s@, i as int) == Some((jval(v), j as int)) && i < j
                <= s@.len(),
            None => parse_number(s@, i as int) is None,
        },
{
    proof {
        lemma_len_usize(s);
    }
    if s[i] == '-' {
        if !digit_at(s, i + 1) {
            return None;
        }
        if char_at(s, i + 1, '0') && digit_at(s, i + 2) {
            return None;
        }
        match take_digits(s, i + 1) {
            None => None,
            Some((n, j)) => {
                proof {
                    lemma_digits_progress(s@, i + 2 as int, digit_val(s@[i + 1 as int]) as nat);
                }
                if n > 0x8000_0000_0000_0000_0000_0000_0000_0000u128 {
                    None
                } else if n == 0x8000_0000_0000_0000_0000_0000_0000_0000u128 {
                    Some((Json::Int(i128::MIN), j))
                } else {
                    Some((Json::Int(-(n as i128)), j))
                }
            },
        }
    } else {
        if char_at(s, i, '0') && digit_at(s, i + 1) {
            return None;
        }
        match take_digits(s, i) {
            None => None,
            Some((n, j)) => {
                proof {
                    lemma_digits_progress(s@, i + 1 as int, digit_val(s@[i as int]) as nat);
                }
                if n >= 0x8000_0000_0000_0000_0000_0000_0000_0000u128 {
                    None
                } else {
                    Some((Json::Int(n as i128), j))
                }
            },
        }
    }
}

/// Parses one JSON value starting at `i`, skipping leading whitespace.
pub fn take_value(s: &Vec<char>, i: usize) -> (r: Option<(Json, usize)>)
    requires
        i <= s@.len(),
    ensures
        match r {
            Some((v, j)) => parse_value(s@, i as int) == Some((jval(v), j as int)) && i < j
                <= s@.len(),
            None => parse_value(s@, i as int) is None,
        },
    decreases s@.len() - i,
{
    proof {
        lemma_len_usize(s);
    }
    let ws = ws_skip(s, i);
    if ws >= s.len() {
        return None;
    }
    let c = s[ws];
    if c == 'n' {
        if s.len() - ws >= 4 && s[ws + 1] == 'u' && s[ws + 2] == 'l' && s[ws + 3] == 'l' {
            Some((Json::Null, ws + 4))
        } else {
            None
        }
    } else if c == 't' {
        if s.len() - ws >= 4 && s[ws + 1] == 'r' && s[ws + 2] == 'u' && s[ws + 3] == 'e' {
            Some((Json::Bool(true), ws + 4))
        } else {
            None
        }
    } else if c == 'f' {
        if s.len() - ws >= 5 && s[ws + 1] == 'a' && s[ws + 2] == 'l' && s[ws + 3] == 's' && s[ws
            + 4] == 'e' {
            Some((Json::Bool(false), ws + 5))
        } else {
            None
        }
    } else if c == '"' {
        match take_string_rest(s, ws + 1) {
            None => None,
            Some((t, j)) => Some((Json::Text(t), j)),
        }
    } else if c == '[' {
        let open_end = ws_skip(s, ws + 1);
        if char_at(s, open_end, ']') {
            let empty: Vec<Json> = Vec::new();
            proof {
                assert(jval_seq(empty@) =~= Seq::<JsonVal>::empty());
            }
            return Some((Json::Arr(empty), open_end + 1));
        }
        let mut items: Vec<Json> = Vec::new();
        let mut k: usize = ws + 1;
        loop
            invariant
                s@.len() <= usize::MAX,
                i < k <= s@.len(),
                parse_elems(s@, ws + 1 as int) == (match parse_elems(s@, k as int) {
                    None => None::<(Seq<JsonVal>, int)>,
                    Some((vs, m)) => Some((jval_seq(items@) + vs, m)),
                }),
                parse_value(s@, i as int) == (match parse_elems(s@, ws + 1 as int) {
                    None => None::<(JsonVal, int)>,
                    Some((vs, m)) => Some((JsonVal::Arr(vs), m)),
                }),
            decreases s@.len() - k,
        {
            let ghost pre = items@;
            match take_value(s, k) {
                None => {
                    return None;
                },
                Some((v, j)) => {
                    let ghost kv = jval(v);
                    items.push(v);
                    let sep = ws_skip(s, j);
                    if char_at(s, sep, ',') {
                        proof {
                            if let Some((vs, m)) = parse_elems(s@, sep + 1 as int) {
                                assert(jval_seq(pre) + (seq![kv] + vs) =~= jval_seq(pre).push(
                                    kv,
                                ) + vs);
                                crate::json::lemma_jval_seq_push(pre, v);
                            }
                        }
                        k = sep + 1;
                    } else if char_at(s, sep, ']') {
                        proof {
                            crate::json::lemma_jval_seq_push(pre, v);
                            assert(jval_seq(pre) + seq![kv] =~= jval_seq(pre).push(kv));
                        }
                        return Some((Json::Arr(items), sep + 1));
                    } else {
                        return None;
                    }
                },
            }
        }
    } else if c == '{' {
        let open_end = ws_skip(s, ws + 1);
        if char_at(s, open_end, '}') {
            let empty: Vec<(String, Json)> = Vec::new();
            proof {
                assert(jval_members(empty@) =~= Seq::<(Seq<char>, JsonVal)>::empty());
            }
            return Some((Json::Obj(empty), open_end + 1));
        }
        let mut members: Vec<(String, Json)> = Vec::new();
        let mut k: usize = ws + 1;
        loop
            invariant
                s@.len() <= usize::MAX,
                i < k <= s@.len(),
                parse_members(s@, ws + 1 as int) == (match parse_members(s@, k as int) {
                    None => None::<(Seq<(Seq<char>, JsonVal)>, int)>,
                    Some((ms, m)) => Some((jval_members(members@) + ms, m)),
                }),
                parse_value(s@, i as int) == (match parse_members(s@, ws + 1 as int) {
                    None => None::<(JsonVal, int)>,
                    Some((ms, m)) => Some((JsonVal::Obj(ms), m)),
                }),
            decreases s@.len() - k,
        {
            let ghost pre = members@;
            let key_start = ws_skip(s, k);
            if !char_at(s, key_start, '"') {
                return None;
            }
            match take_string_rest(s, key_start + 1) {
                None => {
                    return None;
                },
                Some((key, j)) => {
                    let colon = ws_skip(s, j);
                    if !char_at(s, colon, ':') {
                        return None;
                    }
                    match take_value(s, colon + 1) {
                        None => {
                            return None;
                        },
                        Some((v, l)) => {
                            let ghost kv = (key@, jval(v));
                            members.push((key, v));
                            let sep = ws_skip(s, l);
                            if char_at(s, sep, ',') {
                                proof {
                                    if let Some((ms, m)) = parse_members(s@, sep + 1 as int) {
                                        assert(jval_members(pre) + (seq![kv] + ms)
                                            =~= jval_members(pre).push(kv) + ms);
                                        crate::json::lemma_jval_members_push(pre, (key, v));
                                    }
                                }
                                k = sep + 1;
                            } else if char_at(s, sep, '}') {
                                proof {
                                    crate::json::lemma_jval_members_push(pre, (key, v));
                                    assert(jval_members(pre) + seq![kv] =~= jval_members(
                                        pre,
                                    ).push(kv));
                                }
                                return Some((Json::Obj(members), sep + 1));
                            } else {
                                return None;
                            }
                        },
                    }
                },
            }
        }
    } else if c == '-' || ('0' <= c && c <= '9') {
        take_number(s, ws)
    } else {
        None
    }
}

/// Parses a whole document held in a character vector.
pub fn parse_json_chars(s: &Vec<char>) -> (r: Option<Json>)
    ensures
        match r {
            Some(v) => parse_doc(s@) == Some(jval(v)),
            None => parse_doc(s@) is None,
        },
{
    match take_value(s, 0) {
        None => None,
        Some((v, j)) => {
            let end = ws_skip(s, j);
            if end == s.len() {
                Some(v)
            } else {
                None
            }
        },
    }
}

/// Parses a whole document held in a string.
pub fn parse_json(s: &str) -> (r: Option<Json>)
    ensures
        match r {
            Some(v) => parse_doc(s@) == Some(jval(v)),
            None => parse_doc(s@) is None,
        },
{
    let chars = crate::text::string_to_chars(s);
    parse_json_chars(&chars)
}

} // verus!
