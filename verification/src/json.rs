//! The JSON value model.
//!
//! Wire payloads are JSON documents. The engine only ever needs the
//! integer subset of JSON numbers (correlation ids, error codes, tool
//! call counters), so a number is held as an `i128`, wide enough for
//! both `i32` and `u64` payload fields.

use vstd::prelude::*;

verus! {

broadcast use {vstd::std_specs::vec::group_vec_axioms, vstd::seq::group_seq_axioms};

/// An executable JSON value.
///
/// Object members keep their textual order and may in principle repeat;
/// lookups take the first binding of a key.
#[derive(Debug, PartialEq, Eq)]
pub enum Json {
    Null,
    Bool(bool),
    Int(i128),
    Text(String),
    Arr(Vec<Json>),
    Obj(Vec<(String, Json)>),
}

/// The mathematical model of a JSON value: strings become character
/// sequences, vectors become sequences.
pub enum JsonVal {
    Null,
    Bool(bool),
    Int(int),
    Text(Seq<char>),
    Arr(Seq<JsonVal>),
    Obj(Seq<(Seq<char>, JsonVal)>),
}

/// The model of an executable JSON value.
pub open spec fn jval(j: Json) -> JsonVal
    decreases j,
{
    match j {
        Json::Null => JsonVal::Null,
        Json::Bool(b) => JsonVal::Bool(b),
        Json::Int(n) => JsonVal::Int(n as int),
        Json::Text(s) => JsonVal::Text(s@),
        Json::Arr(items) => {
            proof {
                assert(decreases_to!(j => items));
                assert(decreases_to!(items => items@));
            }
            JsonVal::Arr(jval_seq(items@))
        },
        Json::Obj(members) => {
            proof {
                assert(decreases_to!(j => members));
                assert(decreases_to!(members => members@));
            }
            JsonVal::Obj(jval_members(members@))
        },
    }
}

/// The models of a sequence of executable JSON values.
pub open spec fn jval_seq(items: Seq<Json>) -> Seq<JsonVal>
    decreases items,
{
    if items.len() == 0 {
        Seq::empty()
    } else {
        seq![jval(items.first())] + jval_seq(items.drop_first())
    }
}

/// The models of a sequence of executable object members.
pub open spec fn jval_members(members: Seq<(String, Json)>) -> Seq<(Seq<char>, JsonVal)>
    decreases members,
{
    if members.len() == 0 {
        Seq::empty()
    } else {
        seq![(members.first().0@, jval(members.first().1))] + jval_members(members.drop_first())
    }
}

impl View for Json {
    type V = JsonVal;

    open spec fn view(&self) -> JsonVal {
        jval(*self)
    }
}

/// How many values a sequence of executable JSON values models.
pub proof fn lemma_jval_seq_len(items: Seq<Json>)
    ensures
        jval_seq(items).len() == items.len(),
    decreases items,
{
    if items.len() > 0 {
        lemma_jval_seq_len(items.drop_first());
    }
}

/// Each element of a modelled sequence is the model of its element.
pub proof fn lemma_jval_seq_index(items: Seq<Json>, i: int)
    requires
        0 <= i < items.len(),
    ensures
        jval_seq(items).len() == items.len(),
        jval_seq(items)[i] == jval(items[i]),
    decreases items,
{
    lemma_jval_seq_len(items);
    if i > 0 {
        lemma_jval_seq_index(items.drop_first(), i - 1);
    }
}

/// How many members a sequence of executable object members models.
pub proof fn lemma_jval_members_len(members: Seq<(String, Json)>)
    ensures
        jval_members(members).len() == members.len(),
    decreases members,
{
    if members.len() > 0 {
        lemma_jval_members_len(members.drop_first());
    }
}

/// Each member of a modelled member sequence is the model of its member.
pub proof fn lemma_jval_members_index(members: Seq<(String, Json)>, i: int)
    requires
        0 <= i < members.len(),
    ensures
        jval_members(members).len() == members.len(),
        jval_members(members)[i] == (members[i].0@, jval(members[i].1)),
    decreases members,
{
    lemma_jval_members_len(members);
    if i > 0 {
        lemma_jval_members_index(members.drop_first(), i - 1);
    }
}

/// The model of a member sequence, member by member.
pub proof fn lemma_jval_members_model(members: Seq<(String, Json)>)
    ensures
        jval_members(members).len() == members.len(),
        forall|k: int|
            0 <= k < members.len() ==> #[trigger] jval_members(members)[k] == (
                members[k].0@,
                jval(members[k].1),
            ),
{
    lemma_jval_members_len(members);
    assert forall|k: int| 0 <= k < members.len() implies #[trigger] jval_members(members)[k] == (
        members[k].0@,
        jval(members[k].1),
    ) by {
        lemma_jval_members_index(members, k);
    }
}

/// The model of an element sequence, element by element.
pub proof fn lemma_jval_seq_model(items: Seq<Json>)
    ensures
        jval_seq(items).len() == items.len(),
        forall|k: int|
            0 <= k < items.len() ==> #[trigger] jval_seq(items)[k] == jval(items[k]),
{
    lemma_jval_seq_len(items);
    assert forall|k: int| 0 <= k < items.len() implies #[trigger] jval_seq(items)[k] == jval(
        items[k],
    ) by {
        lemma_jval_seq_index(items, k);
    }
}

/// Appending an executable value appends its model.
pub proof fn lemma_jval_seq_push(items: Seq<Json>, j: Json)
    ensures
        jval_seq(items.push(j)) == jval_seq(items).push(jval(j)),
    decreases items,
{
    if items.len() == 0 {
        assert(items.push(j).drop_first() =~= items);
        assert(jval_seq(items.push(j)) =~= jval_seq(items).push(jval(j)));
    } else {
        assert(items.push(j).drop_first() =~= items.drop_first().push(j));
        lemma_jval_seq_push(items.drop_first(), j);
        assert(jval_seq(items.push(j)) =~= jval_seq(items).push(jval(j)));
    }
}

/// Appending an executable member appends its model.
pub proof fn lemma_jval_members_push(members: Seq<(String, Json)>, m: (String, Json))
    ensures
        jval_members(members.push(m)) == jval_members(members).push((m.0@, jval(m.1))),
    decreases members,
{
    if members.len() == 0 {
        assert(members.push(m).drop_first() =~= members);
        assert(jval_members(members.push(m)) =~= jval_members(members).push((m.0@, jval(m.1))));
    } else {
        assert(members.push(m).drop_first() =~= members.drop_first().push(m));
        lemma_jval_members_push(members.drop_first(), m);
        assert(jval_members(members.push(m)) =~= jval_members(members).push((m.0@, jval(m.1))));
    }
}

/// The character for a decimal digit.
pub open spec fn digit_char(d: int) -> char {
    if d == 0 {
        '0'
    } else if d == 1 {
        '1'
    } else if d == 2 {
        '2'
    } else if d == 3 {
        '3'
    } else if d == 4 {
        '4'
    } else if d == 5 {
        '5'
    } else if d == 6 {
        '6'
    } else if d == 7 {
        '7'
    } else if d == 8 {
        '8'
    } else {
        '9'
    }
}

/// The character for a hexadecimal digit.
pub open spec fn hex_char(d: int) -> char {
    if d < 10 {
        digit_char(d)
    } else if d == 10 {
        'a'
    } else if d == 11 {
        'b'
    } else if d == 12 {
        'c'
    } else if d == 13 {
        'd'
    } else if d == 14 {
        'e'
    } else {
        'f'
    }
}

/// The decimal digits of a non-negative integer, most significant first.
pub open spec fn dec_digits(n: nat) -> Seq<char>
    decreases n,
{
    if n < 10 {
        seq![digit_char(n as int)]
    } else {
        dec_digits(n / 10).push(digit_char((n % 10) as int))
    }
}

/// The serialization of a JSON number (an optional sign and decimal digits).
pub open spec fn ser_int(n: int) -> Seq<char> {
    if n < 0 {
        seq!['-'] + dec_digits((-n) as nat)
    } else {
        dec_digits(n as nat)
    }
}

/// The serialization of one character inside a JSON string: quotes and
/// backslashes are escaped, control characters use the short escapes or
/// a four-digit hexadecimal escape, everything else stands as itself.
pub open spec fn esc_char(c: char) -> Seq<char> {
    if c == '"' {
        seq!['\\', '"']
    } else if c == '\\' {
        seq!['\\', '\\']
    } else if c == '\n' {
        seq!['\\', 'n']
    } else if c == '\r' {
        seq!['\\', 'r']
    } else if c == '\t' {
        seq!['\\', 't']
    } else if (c as u32) < 0x20 {
        seq!['\\', 'u', '0', '0', hex_char(c as u32 as int / 16), hex_char(c as u32 as int % 16)]
    } else {
        seq![c]
    }
}

/// The serialization of the characters of a JSON string, without the
/// surrounding quotes.
pub open spec fn ser_escaped(s: Seq<char>) -> Seq<char>
    decreases s,
{
    if s.len() == 0 {
        Seq::empty()
    } else {
        esc_char(s.first()) + ser_escaped(s.drop_first())
    }
}

/// The serialization of a JSON value. No whitespace is ever emitted.
pub open spec fn ser(v: JsonVal) -> Seq<char>
    decreases v,
{
    match v {
        JsonVal::Null => seq!['n', 'u', 'l', 'l'],
        JsonVal::Bool(b) => if b {
            seq!['t', 'r', 'u', 'e']
        } else {
            seq!['f', 'a', 'l', 's', 'e']
        },
        JsonVal::Int(n) => ser_int(n),
        JsonVal::Text(s) => seq!['"'] + ser_escaped(s) + seq!['"'],
        JsonVal::Arr(items) => seq!['['] + ser_elems(items) + seq![']'],
        JsonVal::Obj(members) => seq!['{'] + ser_members(members) + seq!['}'],
    }
}

/// The comma-separated serializations of array elements.
pub open spec fn ser_elems(items: Seq<JsonVal>) -> Seq<char>
    decreases items,
{
    if items.len() == 0 {
        Seq::empty()
    } else if items.len() == 1 {
        ser(items.first())
    } else {
        ser(items.first()) + seq![','] + ser_elems(items.drop_first())
    }
}

/// The serialization of one object member: a quoted key, a colon, a value.
pub open spec fn ser_member(m: (Seq<char>, JsonVal)) -> Seq<char>
    decreases m,
{
    seq!['"'] + ser_escaped(m.0) + seq!['"', ':'] + ser(m.1)
}

/// The comma-separated serializations of object members.
pub open spec fn ser_members(members: Seq<(Seq<char>, JsonVal)>) -> Seq<char>
    decreases members,
{
    if members.len() == 0 {
        Seq::empty()
    } else if members.len() == 1 {
        ser_member(members.first())
    } else {
        ser_member(members.first()) + seq![','] + ser_members(members.drop_first())
    }
}

/// Appending a character to a string appends its escape to the
/// serialization.
pub proof fn lemma_ser_escaped_push(s: Seq<char>, c: char)
    ensures
        ser_escaped(s.push(c)) == ser_escaped(s) + esc_char(c),
    decreases s,
{
    if s.len() == 0 {
        assert(s.push(c).drop_first() =~= s);
        assert(ser_escaped(s.push(c)) =~= ser_escaped(s) + esc_char(c));
    } else {
        assert(s.push(c).drop_first() =~= s.drop_first().push(c));
        lemma_ser_escaped_push(s.drop_first(), c);
        assert(ser_escaped(s.push(c)) =~= ser_escaped(s) + esc_char(c));
    }
}

/// Appending an element to an array appends a comma (when needed) and
/// its serialization.
pub proof fn lemma_ser_elems_push(items: Seq<JsonVal>, v: JsonVal)
    ensures
        ser_elems(items.push(v)) == if items.len() == 0 {
            ser(v)
        } else {
            ser_elems(items) + seq![','] + ser(v)
        },
    decreases items,
{
    if items.len() == 0 {
        assert(items.push(v).first() == v);
        assert(ser_elems(items.push(v)) =~= ser(v));
    } else {
        assert(items.push(v).drop_first() =~= items.drop_first().push(v));
        lemma_ser_elems_push(items.drop_first(), v);
        if items.len() == 1 {
            assert(ser_elems(items.push(v)) =~= ser_elems(items) + seq![','] + ser(v));
        } else {
            assert(ser_elems(items.push(v)) =~= ser_elems(items) + seq![','] + ser(v));
        }
    }
}

/// Appending a member to an object appends a comma (when needed) and its
/// serialization.
pub proof fn lemma_ser_members_push(members: Seq<(Seq<char>, JsonVal)>, m: (Seq<char>, JsonVal))
    ensures
        ser_members(members.push(m)) == if members.len() == 0 {
            ser_member(m)
        } else {
            ser_members(members) + seq![','] + ser_member(m)
        },
    decreases members,
{
    if members.len() == 0 {
        assert(members.push(m).first() == m);
        assert(ser_members(members.push(m)) =~= ser_member(m));
    } else {
        assert(members.push(m).drop_first() =~= members.drop_first().push(m));
        lemma_ser_members_push(members.drop_first(), m);
        assert(ser_members(members.push(m)) =~= ser_members(members) + seq![','] + ser_member(m));
    }
}

/// The character for a decimal digit.
pub fn digit_to_char(d: u8) -> (c: char)
    requires
        d < 10,
    ensures
        c == digit_char(d as int),
{
    match d {
        0 => '0',
        1 => '1',
        2 => '2',
        3 => '3',
        4 => '4',
        5 => '5',
        6 => '6',
        7 => '7',
        8 => '8',
        _ => '9',
    }
}

/// The character for a hexadecimal digit.
pub fn hex_to_char(d: u8) -> (c: char)
    requires
        d < 16,
    ensures
        c == hex_char(d as int),
{
    if d < 10 {
        digit_to_char(d)
    } else {
        match d {
            10 => 'a',
            11 => 'b',
            12 => 'c',
            13 => 'd',
            14 => 'e',
            _ => 'f',
        }
    }
}

/// Writes the decimal digits of a non-negative number.
fn push_digits(n: u128, out: &mut Vec<char>)
    ensures
        final(out)@ == old(out)@ + dec_digits(n as nat),
    decreases n,
{
    if n < 10 {
        out.push(digit_to_char(n as u8));
        assert(out@ =~= old(out)@ + dec_digits(n as nat));
    } else {
        push_digits(n / 10, out);
        out.push(digit_to_char((n % 10) as u8));
        assert(out@ =~= old(out)@ + dec_digits(n as nat));
    }
}

/// Writes a JSON number: an optional minus sign and decimal digits.
pub fn push_int(n: i128, out: &mut Vec<char>)
    ensures
        final(out)@ == old(out)@ + ser_int(n as int),
{
    if n >= 0 {
        push_digits(n as u128, out);
    } else {
        out.push('-');
        let mag: u128 = ((-1 - n) as u128) + 1;
        assert(mag == -(n as int));
        push_digits(mag, out);
        assert(out@ =~= old(out)@ + ser_int(n as int));
    }
}

/// Writes one character of a JSON string, escaped as needed.
fn push_esc_char(c: char, out: &mut Vec<char>)
    ensures
        final(out)@ == old(out)@ + esc_char(c),
{
    if c == '"' {
        out.push('\\');
        out.push('"');
    } else if c == '\\' {
        out.push('\\');
        out.push('\\');
    } else if c == '\n' {
        out.push('\\');
        out.push('n');
    } else if c == '\r' {
        out.push('\\');
        out.push('r');
    } else if c == '\t' {
        out.push('\\');
        out.push('t');
    } else if (c as u32) < 0x20 {
        let code = c as u32;
        out.push('\\');
        out.push('u');
        out.push('0');
        out.push('0');
        out.push(hex_to_char((code / 16) as u8));
        out.push(hex_to_char((code % 16) as u8));
    } else {
        out.push(c);
    }
    assert(out@ =~= old(out)@ + esc_char(c));
}

/// Writes a quoted, escaped JSON string.
pub fn push_quoted(s: &String, out: &mut Vec<char>)
    ensures
        final(out)@ == old(out)@ + seq!['"'] + ser_escaped(s@) + seq!['"'],
{
    let chars = crate::text::string_to_chars(s.as_str());
    out.push('"');
    let mut i: usize = 0;
    while i < chars.len()
        invariant
            i <= chars.len(),
            chars@ == s@,
            out@ == old(out)@ + seq!['"'] + ser_escaped(s@.take(i as int)),
        decreases chars.len() - i,
    {
        push_esc_char(chars[i], out);
        proof {
            assert(s@.take(i + 1 as int) =~= s@.take(i as int).push(s@[i as int]));
            lemma_ser_escaped_push(s@.take(i as int), s@[i as int]);
        }
        i = i + 1;
    }
    assert(s@.take(chars.len() as int) =~= s@);
    out.push('"');
    assert(out@ =~= old(out)@ + seq!['"'] + ser_escaped(s@) + seq!['"']);
}

/// Writes the serialization of a JSON value after the current contents.
#[verifier::loop_isolation(false)]
#[verifier::rlimit(50)]
pub fn write_json(j: &Json, out: &mut Vec<char>)
    ensures
        final(out)@ == old(out)@ + ser(j@),
    decreases j,
{
    match j {
        Json::Null => {
            out.push('n');
            out.push('u');
            out.push('l');
            out.push('l');
            assert(out@ =~= old(out)@ + ser(j@));
        },
        Json::Bool(b) => {
            if *b {
                out.push('t');
                out.push('r');
                out.push('u');
                out.push('e');
            } else {
                out.push('f');
                out.push('a');
                out.push('l');
                out.push('s');
                out.push('e');
            }
            assert(out@ =~= old(out)@ + ser(j@));
        },
        Json::Int(n) => {
            push_int(*n, out);
        },
        Json::Text(s) => {
            push_quoted(s, out);
            assert(out@ =~= old(out)@ + ser(j@));
        },
        Json::Arr(items) => {
            out.push('[');
            let mut i: usize = 0;
            proof {
                lemma_jval_seq_len(items@);
            }
            while i < items.len()
                invariant
                    i <= items.len(),
                    jval_seq(items@).len() == items@.len(),
                    jval(*j) == JsonVal::Arr(jval_seq(items@)),
                    out@ == old(out)@ + seq!['['] + ser_elems(jval_seq(items@).take(i as int)),
                decreases items.len() - i,
            {
                if i > 0 {
                    out.push(',');
                }
                proof {
                    assert(decreases_to!(*j => *items));
                    assert(decreases_to!(*items => items@));
                    assert(decreases_to!(items@ => items@[i as int]));
                }
                write_json(&items[i], out);
                proof {
                    lemma_jval_seq_index(items@, i as int);
                    assert(jval_seq(items@).take(i + 1 as int) =~= jval_seq(items@).take(
                        i as int,
                    ).push(jval(items@[i as int])));
                    lemma_ser_elems_push(jval_seq(items@).take(i as int), jval(items@[i as int]));
                }
                i = i + 1;
                assert(out@ =~= old(out)@ + seq!['['] + ser_elems(
                    jval_seq(items@).take(i as int),
                ));
            }
            out.push(']');
            assert(jval_seq(items@).take(items@.len() as int) =~= jval_seq(items@));
            assert(out@ =~= old(out)@ + ser(j@));
        },
        Json::Obj(members) => {
            out.push('{');
            let mut i: usize = 0;
            proof {
                lemma_jval_members_len(members@);
            }
            while i < members.len()
                invariant
                    i <= members.len(),
                    jval_members(members@).len() == members@.len(),
                    jval(*j) == JsonVal::Obj(jval_members(members@)),
                    out@ == old(out)@ + seq!['{'] + ser_members(jval_members(members@).take(i as int)),
                decreases members.len() - i,
            {
                if i > 0 {
                    out.push(',');
                }
                push_quoted(&members[i].0, out);
                out.push(':');
                proof {
                    assert(decreases_to!(*j => *members));
                    assert(decreases_to!(*members => members@));
                    assert(decreases_to!(members@ => members@[i as int]));
                    assert(decreases_to!(members@[i as int] => members@[i as int].1));
                }
                write_json(&members[i].1, out);
                proof {
                    lemma_jval_members_index(members@, i as int);
                    assert(jval_members(members@).take(i + 1 as int) =~= jval_members(
                        members@,
                    ).take(i as int).push((members@[i as int].0@, jval(members@[i as int].1))));
                    lemma_ser_members_push(
                        jval_members(members@).take(i as int),
                        (members@[i as int].0@, jval(members@[i as int].1)),
                    );
                }
                i = i + 1;
                assert(out@ =~= old(out)@ + seq!['{'] + ser_members(
                    jval_members(members@).take(i as int),
                ));
            }
            out.push('}');
            assert(jval_members(members@).take(members@.len() as int) =~= jval_members(members@));
            assert(out@ =~= old(out)@ + ser(j@));
        },
    }
}

impl Json {
    /// The serialization of this value as a character vector.
    pub fn to_chars(&self) -> (out: Vec<char>)
        ensures
            out@ == ser(self@),
    {
        let mut out: Vec<char> = Vec::new();
        write_json(self, &mut out);
        out
    }

    /// The serialization of this value as a string.
    pub fn to_text(&self) -> (s: String)
        ensures
            s@ == ser(self@),
    {
        let out = self.to_chars();
        crate::text::chars_to_string(&out)
    }
}

} // verus!
