//! The round-trip law: parsing the serialization of any well-formed
//! JSON value yields that value back.

use vstd::prelude::*;
use crate::json::{Json, JsonVal, jval, jval_seq, jval_members};
use crate::json::{ser, ser_int, ser_elems, ser_member, ser_members, ser_escaped, esc_char,
    dec_digits, digit_char, hex_char};
use crate::parse::{parse_value, parse_elems, parse_members, parse_string_rest, parse_number,
    parse_digits, parse_doc, at, is_digit, digit_val, is_hex, hex_val, is_scalar, unescape_short,
    int_min, int_top, is_ws, skip_ws};

verus! {

broadcast use vstd::seq::group_seq_axioms;

/// A JSON value the executable model can hold: every number fits in an
/// `i128`.
pub open spec fn wf_jval(v: JsonVal) -> bool
    decreases v,
{
    match v {
        JsonVal::Null => true,
        JsonVal::Bool(_) => true,
        JsonVal::Int(n) => int_min() <= n < int_top(),
        JsonVal::Text(_) => true,
        JsonVal::Arr(items) => wf_elems(items),
        JsonVal::Obj(members) => wf_members(members),
    }
}

/// Every element is well formed.
pub open spec fn wf_elems(items: Seq<JsonVal>) -> bool
    decreases items,
{
    if items.len() == 0 {
        true
    } else {
        wf_jval(items.first()) && wf_elems(items.drop_first())
    }
}

/// Every member value is well formed.
pub open spec fn wf_members(members: Seq<(Seq<char>, JsonVal)>) -> bool
    decreases members,
{
    if members.len() == 0 {
        true
    } else {
        wf_jval(members.first().1) && wf_members(members.drop_first())
    }
}

/// The model of any executable JSON value is well formed.
pub proof fn lemma_exec_jval_wf(j: Json)
    ensures
        wf_jval(jval(j)),
    decreases j,
{
    match j {
        Json::Arr(items) => {
            lemma_exec_seq_wf(items@);
        },
        Json::Obj(members) => {
            lemma_exec_members_wf(members@);
        },
        _ => {},
    }
}

/// The models of executable array elements are well formed.
pub proof fn lemma_exec_seq_wf(items: Seq<Json>)
    ensures
        wf_elems(jval_seq(items)),
    decreases items,
{
    if items.len() > 0 {
        lemma_exec_jval_wf(items.first());
        lemma_exec_seq_wf(items.drop_first());
        assert(jval_seq(items).drop_first() =~= jval_seq(items.drop_first()));
    }
}

/// The models of executable object members are well formed.
pub proof fn lemma_exec_members_wf(members: Seq<(String, Json)>)
    ensures
        wf_members(jval_members(members)),
    decreases members,
{
    if members.len() > 0 {
        lemma_exec_jval_wf(members.first().1);
        lemma_exec_members_wf(members.drop_first());
        assert(jval_members(members).drop_first() =~= jval_members(members.drop_first()));
    }
}

/// When a stretch of `s` equals `t`, each character matches.
proof fn lemma_sub_index(s: Seq<char>, i: int, t: Seq<char>, k: int)
    requires
        0 <= i,
        i + t.len() <= s.len(),
        s.subrange(i, i + t.len()) == t,
        0 <= k < t.len(),
    ensures
        s[i + k] == t[k],
{
    assert(s.subrange(i, i + t.len() as int)[k] == t[k]);
}

/// A stretch of `s` equal to a concatenation splits into two stretches.
proof fn lemma_sub_split(s: Seq<char>, i: int, a: Seq<char>, b: Seq<char>)
    requires
        0 <= i,
        i + a.len() + b.len() <= s.len(),
        s.subrange(i, i + a.len() + b.len()) == a + b,
    ensures
        s.subrange(i, i + a.len()) == a,
        s.subrange(i + a.len(), i + a.len() + b.len()) == b,
{
    assert forall|k: int| 0 <= k < a.len() implies s.subrange(i, i + a.len() as int)[k] == a[k] by {
        assert(s.subrange(i, i + a.len() + b.len() as int)[k] == (a + b)[k]);
    }
    assert(s.subrange(i, i + a.len() as int) =~= a);
    assert forall|k: int| 0 <= k < b.len() implies s.subrange(
        i + a.len() as int,
        i + a.len() + b.len() as int,
    )[k] == b[k] by {
        assert(s.subrange(i, i + a.len() + b.len() as int)[a.len() + k] == (a + b)[a.len() + k]);
        assert((a + b)[a.len() + k] == b[k]);
        assert(s.subrange(i, i + a.len() + b.len() as int)[a.len() + k] == s[i + a.len() + k]);
        assert(s.subrange(i + a.len() as int, i + a.len() + b.len() as int)[k] == s[i + a.len()
            + k]);
    }
    assert(s.subrange(i + a.len() as int, i + a.len() + b.len() as int) =~= b);
}

/// Ten to the `k`.
pub open spec fn pow10(k: nat) -> nat
    decreases k,
{
    if k == 0 {
        1
    } else {
        10 * pow10((k - 1) as nat)
    }
}

/// Decimal digit characters are digits and carry their value.
proof fn lemma_digit_char_val(d: int)
    requires
        0 <= d < 10,
    ensures
        is_digit(digit_char(d)),
        digit_val(digit_char(d)) == d,
{
}

/// A digit rendering is never empty, every character in it is a digit,
/// and its first character is `'0'` only for the value zero.
proof fn lemma_dec_digits_shape(n: nat)
    ensures
        dec_digits(n).len() >= 1,
        is_digit(dec_digits(n)[0]),
        n >= 1 ==> dec_digits(n)[0] != '0',
    decreases n,
{
    if n < 10 {
        lemma_digit_char_val(n as int);
    } else {
        lemma_dec_digits_shape(n / 10);
        assert(dec_digits(n)[0] == dec_digits(n / 10)[0]);
    }
}

/// Consuming the rendered digits of `n` folds `n` onto the accumulator.
proof fn lemma_parse_digits_chunk(s: Seq<char>, i: int, n: nat, acc: nat)
    requires
        0 <= i,
        i + dec_digits(n).len() <= s.len(),
        s.subrange(i, i + dec_digits(n).len()) == dec_digits(n),
    ensures
        parse_digits(s, i, acc) == parse_digits(
            s,
            i + dec_digits(n).len(),
            acc * pow10(dec_digits(n).len() as nat) + n,
        ),
    decreases n,
{
    if n < 10 {
        lemma_digit_char_val(n as int);
        lemma_sub_index(s, i, dec_digits(n), 0);
        assert(dec_digits(n).len() == 1);
        assert(s[i] == dec_digits(n)[0]);
        assert(s[i] == digit_char(n as int));
        assert(i < s.len());
        assert(is_digit(s[i]));
        assert(digit_val(s[i]) == n);
        assert(parse_digits(s, i, acc) == parse_digits(s, i + 1, (acc * 10 + n) as nat));
        assert(pow10(0) == 1);
        assert(pow10(1) == 10);
    } else {
        let head = dec_digits(n / 10);
        let lh = head.len() as int;
        assert(dec_digits(n) =~= head + seq![digit_char((n % 10) as int)]);
        lemma_sub_split(s, i, head, seq![digit_char((n % 10) as int)]);
        lemma_parse_digits_chunk(s, i, n / 10, acc);
        let acc2 = (acc * pow10(head.len()) + n / 10) as nat;
        lemma_digit_char_val((n % 10) as int);
        lemma_sub_index(s, i + lh, seq![digit_char((n % 10) as int)], 0);
        assert(s[i + lh] == digit_char((n % 10) as int));
        assert(parse_digits(s, i + lh, acc2) == parse_digits(
            s,
            i + lh + 1,
            (acc2 * 10 + n % 10) as nat,
        ));
        assert(acc2 * 10 + n % 10 == acc * pow10(dec_digits(n).len() as nat) + n) by {
            assert((acc * pow10(head.len()) + n / 10) * 10 == acc * pow10(head.len()) * 10 + (n
                / 10) * 10) by (nonlinear_arith);
            assert(acc * pow10(head.len()) * 10 == acc * (pow10(head.len()) * 10))
                by (nonlinear_arith);
            assert(pow10(head.len()) * 10 == pow10((head.len() + 1) as nat));
            assert((n / 10) * 10 + n % 10 == n);
        }
        assert(dec_digits(n).len() == head.len() + 1);
    }
}

/// Parsing stops at the first non-digit.
proof fn lemma_parse_digits_stop(s: Seq<char>, i: int, acc: nat)
    requires
        i == s.len() || (0 <= i < s.len() && !is_digit(s[i])),
    ensures
        parse_digits(s, i, acc) == ((acc, i)),
{
}

/// Hexadecimal digit characters are hexadecimal digits and carry their
/// value.
proof fn lemma_hex_char_val(d: int)
    requires
        0 <= d < 16,
    ensures
        is_hex(hex_char(d)),
        hex_val(hex_char(d)) == d,
        !is_digit(hex_char(d)) ==> 'a' <= hex_char(d) <= 'f',
{
    if d < 10 {
        lemma_digit_char_val(d);
    }
}

/// Parsing the escaped rendering of a string body followed by its
/// closing quote yields the content and stops after the quote.
proof fn lemma_parse_ser_string(s: Seq<char>, i: int, content: Seq<char>)
    requires
        0 <= i,
        i + ser_escaped(content).len() + 1 <= s.len(),
        s.subrange(i, i + ser_escaped(content).len() + 1) == ser_escaped(content) + seq!['"'],
    ensures
        parse_string_rest(s, i) == Some((content, i + ser_escaped(content).len() + 1)),
    decreases content.len(),
{
    if content.len() == 0 {
        assert(ser_escaped(content) + seq!['"'] =~= seq!['"']);
        lemma_sub_index(s, i, seq!['"'], 0);
        assert(s[i] == '"');
    } else {
        let c = content.first();
        let rest = content.drop_first();
        let e = esc_char(c);
        let tail = ser_escaped(rest) + seq!['"'];
        assert(ser_escaped(content) =~= e + ser_escaped(rest));
        assert(ser_escaped(content) + seq!['"'] =~= e + tail);
        lemma_sub_split(s, i, e, tail);
        lemma_parse_ser_string(s, i + e.len(), rest);
        let end = i + e.len() + ser_escaped(rest).len() + 1;
        assert(parse_string_rest(s, i + e.len()) == Some((rest, end)));
        assert(seq![c] + rest =~= content);
        if c == '"' || c == '\\' || c == '\n' || c == '\r' || c == '\t' {
            lemma_sub_index(s, i, e, 0);
            lemma_sub_index(s, i, e, 1);
            assert(s[i] == '\\');
            assert(unescape_short(s[i + 1]) == Some(c));
            assert(parse_string_rest(s, i) == Some((content, end)));
        } else if (c as u32) < 0x20 {
            let code = c as u32 as int;
            lemma_sub_index(s, i, e, 0);
            lemma_sub_index(s, i, e, 1);
            lemma_sub_index(s, i, e, 2);
            lemma_sub_index(s, i, e, 3);
            lemma_sub_index(s, i, e, 4);
            lemma_sub_index(s, i, e, 5);
            assert(s[i] == '\\');
            assert(s[i + 1] == 'u');
            assert(s[i + 2] == '0');
            assert(s[i + 3] == '0');
            assert(s[i + 4] == hex_char(code / 16));
            assert(s[i + 5] == hex_char(code % 16));
            lemma_digit_char_val(0);
            lemma_hex_char_val(0);
            lemma_hex_char_val(code / 16);
            lemma_hex_char_val(code % 16);
            let parsed_code = hex_val(s[i + 2]) * 0x1000 + hex_val(s[i + 3]) * 0x100 + hex_val(
                s[i + 4],
            ) * 0x10 + hex_val(s[i + 5]);
            assert(parsed_code == code);
            assert(is_scalar(code));
            vstd::utf8::char_u32_cast(c, c as u32);
            assert(code as char == c);
            assert(parse_string_rest(s, i) == Some((content, end)));
        } else {
            assert(e =~= seq![c]);
            lemma_sub_index(s, i, e, 0);
            assert(s[i] == c);
            assert(s[i] != '"' && s[i] != '\\');
            assert(parse_string_rest(s, i) == Some((content, end)));
        }
    }
}

/// Parsing the rendering of an in-range integer yields that integer and
/// stops right after it.
proof fn lemma_parse_ser_int(s: Seq<char>, i: int, n: int)
    requires
        int_min() <= n < int_top(),
        0 <= i,
        i + ser_int(n).len() <= s.len(),
        s.subrange(i, i + ser_int(n).len()) == ser_int(n),
        i + ser_int(n).len() == s.len() || !is_digit(s[i + ser_int(n).len()]),
    ensures
        parse_number(s, i) == Some((JsonVal::Int(n), i + ser_int(n).len())),
{
    if n < 0 {
        let m = (-n) as nat;
        let digits = dec_digits(m);
        let l = digits.len() as int;
        assert(ser_int(n) =~= seq!['-'] + digits);
        lemma_sub_split(s, i, seq!['-'], digits);
        lemma_sub_index(s, i, ser_int(n), 0);
        assert(s[i] == '-');
        lemma_dec_digits_shape(m);
        lemma_sub_index(s, i + 1, digits, 0);
        assert(s[i + 1] == digits[0]);
        assert(is_digit(s[i + 1]));
        // no leading zero: a negative number's magnitude is at least one
        assert(s[i + 1] != '0') by {
            if m < 10 {
                lemma_digit_char_val(m as int);
            }
        }
        lemma_parse_digits_chunk(s, i + 1, m, 0);
        lemma_parse_digits_stop(s, i + 1 + l, m);
        assert(parse_digits(s, i + 1, 0) == ((m, i + 1 + l)));
        assert(m <= -int_min());
    } else {
        let digits = dec_digits(n as nat);
        let l = digits.len() as int;
        assert(ser_int(n) == digits);
        lemma_dec_digits_shape(n as nat);
        lemma_sub_index(s, i, digits, 0);
        assert(s[i] == digits[0]);
        assert(is_digit(s[i]));
        assert(!at(s, i, '-'));
        // no leading zero: either a single digit or a non-zero lead
        if s[i] == '0' && i + 1 < s.len() && is_digit(s[i + 1]) {
            assert(n == 0) by {
                if n >= 1 {
                    assert(digits[0] != '0');
                }
            }
            assert(l == 1);
            assert(i + 1 == i + ser_int(n).len());
            assert(!is_digit(s[i + 1]));
        }
        lemma_parse_digits_chunk(s, i, n as nat, 0);
        lemma_parse_digits_stop(s, i + l, n as nat);
        assert(parse_digits(s, i, 0) == ((n as nat, i + l)));
    }
}

/// A serialization is never empty, never begins with whitespace, and
/// never begins with a closing bracket, a comma, or a colon.
proof fn lemma_ser_head(v: JsonVal)
    ensures
        ser(v).len() >= 1,
        ser(v)[0] != ']' && ser(v)[0] != '}' && ser(v)[0] != ',' && ser(v)[0] != ':',
        !is_ws(ser(v)[0]),
{
    match v {
        JsonVal::Int(n) => {
            if n < 0 {
                assert(ser(v)[0] == '-');
            } else {
                lemma_dec_digits_shape(n as nat);
                assert(ser(v)[0] == dec_digits(n as nat)[0]);
                assert(is_digit(ser(v)[0]));
            }
        },
        _ => {},
    }
}

/// Whitespace skipping stands still on a non-whitespace character.
proof fn lemma_skip_here(s: Seq<char>, i: int)
    requires
        0 <= i < s.len(),
        !is_ws(s[i]),
    ensures
        skip_ws(s, i) == i,
{
}

/// Parsing a serialized value at its position yields that value and
/// stops right after it. The serialized text must not be followed by a
/// digit when the value is a number, since digits are consumed greedily.
pub proof fn lemma_parse_ser_value(s: Seq<char>, i: int, v: JsonVal)
    requires
        wf_jval(v),
        0 <= i,
        i + ser(v).len() <= s.len(),
        s.subrange(i, i + ser(v).len()) == ser(v),
        v matches JsonVal::Int(_) ==> (i + ser(v).len() == s.len() || !is_digit(
            s[i + ser(v).len()],
        )),
    ensures
        parse_value(s, i) == Some((v, i + ser(v).len())),
    decreases v,
{
    let e = ser(v);
    let l = e.len() as int;
    lemma_ser_head(v);
    lemma_sub_index(s, i, e, 0);
    assert(s[i] == e[0]);
    lemma_skip_here(s, i);
    match v {
        JsonVal::Null => {
            lemma_sub_index(s, i, e, 0);
            lemma_sub_index(s, i, e, 1);
            lemma_sub_index(s, i, e, 2);
            lemma_sub_index(s, i, e, 3);
            assert(parse_value(s, i) == Some((v, i + 4)));
        },
        JsonVal::Bool(b) => {
            lemma_sub_index(s, i, e, 0);
            lemma_sub_index(s, i, e, 1);
            lemma_sub_index(s, i, e, 2);
            lemma_sub_index(s, i, e, 3);
            if !b {
                lemma_sub_index(s, i, e, 4);
            }
            assert(parse_value(s, i) == Some((v, i + l)));
        },
        JsonVal::Int(n) => {
            lemma_sub_index(s, i, e, 0);
            if n < 0 {
                assert(s[i] == '-');
            } else {
                lemma_dec_digits_shape(n as nat);
                assert(s[i] == dec_digits(n as nat)[0]);
                assert(is_digit(s[i]));
            }
            lemma_parse_ser_int(s, i, n);
            assert(parse_value(s, i) == Some((v, i + l)));
        },
        JsonVal::Text(t) => {
            let body = ser_escaped(t) + seq!['"'];
            assert(e =~= seq!['"'] + body);
            lemma_sub_split(s, i, seq!['"'], body);
            lemma_sub_index(s, i, e, 0);
            assert(s[i] == '"');
            lemma_parse_ser_string(s, i + 1, t);
            assert(parse_value(s, i) == Some((v, i + l)));
        },
        JsonVal::Arr(items) => {
            lemma_sub_index(s, i, e, 0);
            assert(s[i] == '[');
            if items.len() == 0 {
                assert(e =~= seq!['[', ']']);
                lemma_sub_index(s, i, e, 1);
                assert(s[i + 1] == ']');
                assert(i + 2 <= s.len());
                lemma_skip_here(s, i + 1);
                assert(at(s, i + 1, ']'));
                assert(s[i] != 'n' && s[i] != 't' && s[i] != 'f' && s[i] != '"');
                assert(parse_value(s, i) == Some((JsonVal::Arr(Seq::empty()), i + 2))) by {
                    reveal_with_fuel(parse_value, 2);
                }
                assert(items =~= Seq::<JsonVal>::empty());
            } else {
                let mid = ser_elems(items);
                assert(e =~= seq!['['] + (mid + seq![']']));
                lemma_sub_split(s, i, seq!['['], mid + seq![']']);
                lemma_sub_split(s, i + 1, mid, seq![']']);
                lemma_sub_index(s, i + 1 + mid.len(), seq![']'], 0);
                assert(s[i + 1 + mid.len()] == ']');
                // the first element starts at i + 1, so no empty array here
                lemma_ser_head(items.first());
                assert(mid[0] == ser(items.first())[0]);
                lemma_sub_index(s, i + 1, mid, 0);
                assert(s[i + 1] != ']');
                lemma_skip_here(s, i + 1);
                lemma_parse_ser_elems(s, i + 1, items);
                assert(parse_value(s, i) == Some((v, i + l)));
            }
        },
        JsonVal::Obj(members) => {
            lemma_sub_index(s, i, e, 0);
            assert(s[i] == '{');
            if members.len() == 0 {
                assert(e =~= seq!['{', '}']);
                lemma_sub_index(s, i, e, 1);
                assert(s[i + 1] == '}');
                assert(i + 2 <= s.len());
                lemma_skip_here(s, i + 1);
                assert(at(s, i + 1, '}'));
                assert(s[i] != 'n' && s[i] != 't' && s[i] != 'f' && s[i] != '"' && s[i] != '[');
                assert(parse_value(s, i) == Some((JsonVal::Obj(Seq::empty()), i + 2))) by {
                    reveal_with_fuel(parse_value, 2);
                }
                assert(members =~= Seq::<(Seq<char>, JsonVal)>::empty());
            } else {
                let mid = ser_members(members);
                assert(e =~= seq!['{'] + (mid + seq!['}']));
                lemma_sub_split(s, i, seq!['{'], mid + seq!['}']);
                lemma_sub_split(s, i + 1, mid, seq!['}']);
                lemma_sub_index(s, i + 1 + mid.len(), seq!['}'], 0);
                assert(s[i + 1 + mid.len()] == '}');
                // the first member starts with its quoted key
                assert(mid[0] == ser_member(members.first())[0]);
                assert(ser_member(members.first())[0] == '"');
                lemma_sub_index(s, i + 1, mid, 0);
                assert(s[i + 1] != '}');
                lemma_skip_here(s, i + 1);
                lemma_parse_ser_members(s, i + 1, members);
                assert(parse_value(s, i) == Some((v, i + l)));
            }
        },
    }
}

/// Parsing serialized elements followed by `]` yields those elements.
proof fn lemma_parse_ser_elems(s: Seq<char>, i: int, items: Seq<JsonVal>)
    requires
        wf_elems(items),
        items.len() >= 1,
        0 <= i,
        i + ser_elems(items).len() + 1 <= s.len(),
        s.subrange(i, i + ser_elems(items).len()) == ser_elems(items),
        at(s, i + ser_elems(items).len(), ']'),
    ensures
        parse_elems(s, i) == Some((items, i + ser_elems(items).len() + 1)),
    decreases items,
{
    let first = items.first();
    let fe = ser(first);
    let fl = fe.len() as int;
    lemma_ser_head(first);
    if items.len() == 1 {
        assert(ser_elems(items) == fe);
        lemma_parse_ser_value(s, i, first);
        assert(parse_value(s, i) == Some((first, i + fl)));
        assert(s[i + fl] == ']');
        lemma_skip_here(s, i + fl);
        assert(!at(s, i + fl, ','));
        assert(seq![first] =~= items);
    } else {
        let rest = items.drop_first();
        let re = ser_elems(rest);
        assert(ser_elems(items) =~= fe + (seq![','] + re));
        lemma_sub_split(s, i, fe, seq![','] + re);
        lemma_sub_split(s, i + fl, seq![','], re);
        lemma_sub_index(s, i + fl, seq![','], 0);
        assert(s[i + fl] == ',');
        lemma_parse_ser_value(s, i, first);
        assert(parse_value(s, i) == Some((first, i + fl)));
        lemma_skip_here(s, i + fl);
        assert(at(s, i + fl, ','));
        lemma_parse_ser_elems(s, i + fl + 1, rest);
        assert(seq![first] + rest =~= items);
    }
}

/// Parsing serialized members followed by `}` yields those members.
proof fn lemma_parse_ser_members(s: Seq<char>, i: int, members: Seq<(Seq<char>, JsonVal)>)
    requires
        wf_members(members),
        members.len() >= 1,
        0 <= i,
        i + ser_members(members).len() + 1 <= s.len(),
        s.subrange(i, i + ser_members(members).len()) == ser_members(members),
        at(s, i + ser_members(members).len(), '}'),
    ensures
        parse_members(s, i) == Some((members, i + ser_members(members).len() + 1)),
    decreases members,
{
    let first = members.first();
    let me = ser_member(first);
    let ml = me.len() as int;
    let key = first.0;
    let value = first.1;
    let kbody = ser_escaped(key) + seq!['"'];
    let vpart = seq![':'] + ser(value);
    lemma_ser_head(value);
    // decompose one member into quote, key body, colon and value
    assert(me =~= seq!['"'] + (kbody + vpart));
    let tail_len: int = if members.len() == 1 { 0 } else { 1 + ser_members(
        members.drop_first(),
    ).len() as int };
    assert(ser_members(members).len() == ml + tail_len);
    if members.len() == 1 {
        assert(ser_members(members) == me);
    } else {
        assert(ser_members(members) =~= me + (seq![','] + ser_members(members.drop_first())));
        lemma_sub_split(s, i, me, seq![','] + ser_members(members.drop_first()));
    }
    assert(s.subrange(i, i + ml) == me);
    lemma_sub_split(s, i, seq!['"'], kbody + vpart);
    lemma_sub_split(s, i + 1, kbody, vpart);
    lemma_sub_split(s, i + 1 + kbody.len(), seq![':'], ser(value));
    lemma_sub_index(s, i, me, 0);
    assert(s[i] == '"');
    lemma_skip_here(s, i);
    assert(at(s, i, '"'));
    lemma_parse_ser_string(s, i + 1, key);
    let kend = i + 1 + kbody.len() as int;
    assert(parse_string_rest(s, i + 1) == Some((key, kend)));
    lemma_sub_index(s, kend, seq![':'], 0);
    assert(s[kend] == ':');
    lemma_skip_here(s, kend);
    assert(at(s, kend, ':'));
    let vstart = kend + 1;
    let vend = vstart + ser(value).len() as int;
    assert(vend == i + ml);
    if members.len() == 1 {
        assert(s[i + ml] == '}');
        lemma_parse_ser_value(s, vstart, value);
        assert(parse_value(s, vstart) == Some((value, vend)));
        lemma_skip_here(s, vend);
        assert(!at(s, vend, ','));
        assert(at(s, vend, '}'));
        assert(seq![(key, value)] =~= members);
    } else {
        let rest = members.drop_first();
        lemma_sub_split(s, i + ml, seq![','], ser_members(rest));
        lemma_sub_index(s, i + ml, seq![','], 0);
        assert(s[i + ml] == ',');
        lemma_parse_ser_value(s, vstart, value);
        assert(parse_value(s, vstart) == Some((value, vend)));
        lemma_skip_here(s, vend);
        assert(at(s, vend, ','));
        lemma_parse_ser_members(s, i + ml + 1, rest);
        assert(seq![(key, value)] + rest =~= members);
    }
}

/// The round-trip law: parsing the serialization of any well-formed
/// JSON value yields exactly that value.
pub proof fn theorem_json_round_trip(v: JsonVal)
    requires
        wf_jval(v),
    ensures
        parse_doc(ser(v)) == Some(v),
{
    let s = ser(v);
    assert(s.subrange(0, s.len() as int) =~= s);
    lemma_parse_ser_value(s, 0, v);
    assert(skip_ws(s, s.len() as int) == s.len());
}

/// The round-trip law for every value the executable model can hold.
pub proof fn lemma_exec_round_trip(j: Json)
    ensures
        parse_doc(ser(j@)) == Some(j@),
{
    lemma_exec_jval_wf(j);
    theorem_json_round_trip(jval(j));
}

} // verus!
