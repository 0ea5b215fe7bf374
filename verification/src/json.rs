//! JSON text for `hx-vals` and event data: values held as their serialized
//! text, and objects written with their keys in ascending order, as
//! `serde_json` writes a `Map` (a `BTreeMap`).
use vstd::prelude::*;

use crate::text::{push_char, text_lt};

verus! {

/// The lowercase hexadecimal digit of `d` (below 16).
pub open spec fn hex_digit(d: int) -> char {
    if d < 10 {
        (('0' as int) + d) as char
    } else {
        (('a' as int) + d - 10) as char
    }
}

/// How `serde_json` writes one character inside a string: `"` and `\` are
/// backslash-escaped, backspace, form feed, newline, carriage return and tab
/// get their short escapes, other control characters below U+0020 become
/// `\u00XX` with lowercase hex digits, and everything else stays as it is.
pub open spec fn json_escaped_char(c: char) -> Seq<char> {
    if c == '"' {
        seq!['\\', '"']
    } else if c == '\\' {
        seq!['\\', '\\']
    } else if c == '\x08' {
        seq!['\\', 'b']
    } else if c == '\x0c' {
        seq!['\\', 'f']
    } else if c == '\n' {
        seq!['\\', 'n']
    } else if c == '\r' {
        seq!['\\', 'r']
    } else if c == '\t' {
        seq!['\\', 't']
    } else if (c as int) < 0x20 {
        seq!['\\', 'u', '0', '0', hex_digit((c as int) / 16), hex_digit((c as int) % 16)]
    } else {
        seq![c]
    }
}

pub open spec fn json_escaped(s: Seq<char>) -> Seq<char>
    decreases s.len(),
{
    if s.len() == 0 {
        Seq::empty()
    } else {
        json_escaped(s.drop_last()) + json_escaped_char(s.last())
    }
}

/// A JSON string literal holding `s`.
pub open spec fn json_quoted(s: Seq<char>) -> Seq<char> {
    seq!['"'] + json_escaped(s) + seq!['"']
}

/// `serde_json::to_string(s)`: a JSON string literal. Serializing a `str`
/// cannot fail (its `Serialize` impl never errs, and the writer is a `Vec`);
/// `format_escaped_str` and its `ESCAPE` table write it as `json_quoted`.
#[verifier::external_body]
fn serde_json_quote(s: &str) -> (r: String)
    ensures
        r@ == json_quoted(s@),
{
    match serde_json::to_string(s) {
        Ok(text) => text,
        Err(_) => String::new(),
    }
}

/// The decimal digits of `n`.
pub open spec fn digits(n: nat) -> Seq<char>
    decreases n,
{
    if n < 10 {
        seq![(('0' as int) + n) as char]
    } else {
        digits(n / 10) + seq![(('0' as int) + n % 10) as char]
    }
}

/// An integer in decimal, with a leading `-` when negative.
pub open spec fn decimal(n: int) -> Seq<char> {
    if n < 0 {
        seq!['-'] + digits((-n) as nat)
    } else {
        digits(n as nat)
    }
}

/// `i64::to_string`: the integer's `Display` form, which is `decimal`.
#[verifier::external_body]
pub(crate) fn decimal_text(n: i64) -> (r: String)
    ensures
        r@ == decimal(n as int),
{
    n.to_string()
}

/// A JSON value, held as the text that `serde_json` serializes it to.
#[derive(Clone)]
pub struct JsonValue {
    text: String,
}

impl View for JsonValue {
    type V = Seq<char>;

    closed spec fn view(&self) -> Seq<char> {
        self.text@
    }
}

/// The text of JSON `null`.
pub open spec fn null_text() -> Seq<char> {
    seq!['n', 'u', 'l', 'l']
}

impl JsonValue {
    /// `null`.
    pub fn null() -> (v: JsonValue)
        ensures
            v@ == null_text(),
    {
        let mut text = String::new();
        push_char(&mut text, 'n');
        push_char(&mut text, 'u');
        push_char(&mut text, 'l');
        push_char(&mut text, 'l');
        proof {
            assert(text@ =~= null_text());
        }
        JsonValue { text }
    }

    /// A JSON string.
    pub fn string(s: &str) -> (v: JsonValue)
        ensures
            v@ == json_quoted(s@),
    {
        JsonValue { text: serde_json_quote(s) }
    }

    /// A JSON integer.
    pub fn integer(n: i64) -> (v: JsonValue)
        ensures
            v@ == decimal(n as int),
    {
        JsonValue { text: decimal_text(n) }
    }

    /// A value from its serialized text, as `serde_json::to_string` wrote it.
    pub fn from_text(text: String) -> (v: JsonValue)
        ensures
            v@ == text@,
    {
        JsonValue { text }
    }

    /// Whether this is `null`.
    pub fn is_null(&self) -> (r: bool)
        ensures
            r == (self@ == null_text()),
    {
        let n = JsonValue::null();
        self.text.eq(&n.text)
    }

    /// The serialized text.
    pub fn as_str(&self) -> (s: &str)
        ensures
            s@ == self@,
    {
        self.text.as_str()
    }
}

/// Object members with strictly ascending keys.
pub open spec fn keys_ascending(vals: Seq<(Seq<char>, Seq<char>)>) -> bool {
    forall|i: int, j: int| 0 <= i < j < vals.len() ==> text_lt(#[trigger] vals[i].0, #[trigger] vals[j].0)
}

/// One member: `"key":value`.
pub open spec fn member_text(m: (Seq<char>, Seq<char>)) -> Seq<char> {
    json_quoted(m.0) + seq![':'] + m.1
}

/// Members separated by commas.
pub open spec fn members_text(vals: Seq<(Seq<char>, Seq<char>)>) -> Seq<char>
    decreases vals.len(),
{
    if vals.len() == 0 {
        Seq::empty()
    } else if vals.len() == 1 {
        member_text(vals[0])
    } else {
        members_text(vals.drop_last()) + seq![','] + member_text(vals.last())
    }
}

/// The compact JSON text of an object with these members in this order.
pub open spec fn object_text(vals: Seq<(Seq<char>, Seq<char>)>) -> Seq<char> {
    seq!['{'] + members_text(vals) + seq!['}']
}

/// The views of (key, value) pairs.
pub open spec fn members_view(v: Seq<(String, JsonValue)>) -> Seq<(Seq<char>, Seq<char>)> {
    v.map_values(|m: (String, JsonValue)| (m.0@, m.1@))
}

/// Writes an object with these members in this order.
pub fn object_json(vals: &Vec<(String, JsonValue)>) -> (r: String)
    ensures
        r@ == object_text(members_view(vals@)),
{
    let ghost mv = members_view(vals@);
    let mut r = String::new();
    push_char(&mut r, '{');
    let mut i: usize = 0;
    proof {
        assert(mv.take(0) =~= Seq::<(Seq<char>, Seq<char>)>::empty());
    }
    while i < vals.len()
        invariant
            mv == members_view(vals@),
            i <= vals.len(),
            r@ == seq!['{'] + members_text(mv.take(i as int)),
        decreases vals.len() - i,
    {
        let ghost before = r@;
        if i > 0 {
            push_char(&mut r, ',');
        }
        let key = serde_json_quote(vals[i].0.as_str());
        r.append(key.as_str());
        push_char(&mut r, ':');
        r.append(vals[i].1.as_str());
        proof {
            let t = mv.take(i as int + 1);
            assert(t.drop_last() =~= mv.take(i as int));
            assert(t.last() == mv[i as int]);
            assert(mv[i as int] == (vals@[i as int].0@, vals@[i as int].1@));
            if i == 0 {
                assert(t =~= seq![mv[0]]);
            }
            assert(r@ =~= seq!['{'] + members_text(t));
        }
        i = i + 1;
    }
    push_char(&mut r, '}');
    proof {
        assert(mv.take(vals.len() as int) =~= mv);
        assert(r@ =~= object_text(mv));
    }
    r
}

} // verus!
