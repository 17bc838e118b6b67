//! The JSON values that the launcher reads from request and response bodies
//! and the compact JSON text it writes: strings escaped as serde_json escapes
//! them, objects with their members in the order given.
use vstd::prelude::*;
use crate::text::{str_eq, chars_of, dec, digit_char, digit_to_char, push_char, push_digits, push_signed_padded, push_str, signed_pad};

verus! {

/// A JSON number as the launcher reads it: its value as an unsigned or a
/// signed 64-bit integer where it is one, and the JSON text of the number as
/// a binary64 float (`1.0` for the integer one, `null` for a non-finite value),
/// which is how a value copied through `as_f64` is written back.
pub struct JsonNumber {
    pub as_u64: Option<u64>,
    pub as_i64: Option<i64>,
    pub float_text: String,
}

/// A JSON value. Object members keep their order; the parser that fills it
/// gives each key once.
pub enum JsonValue {
    Null,
    Bool(bool),
    Number(JsonNumber),
    Str(String),
    Array(Vec<JsonValue>),
    Object(Vec<(String, JsonValue)>),
}

/// The escape sequence serde_json writes for `c` inside a string literal:
/// its `ESCAPE` table and `write_char_escape` (`src/ser.rs` of serde_json
/// 1.0.154) escape `"` and `\` with a backslash, the control characters
/// 0x08, 0x09, 0x0A, 0x0C and 0x0D as `\b`, `\t`, `\n`, `\f` and `\r`, every
/// other character below 0x20 as `\u00` and two lower-case hexadecimal
/// digits, and leave every other character as it is.
pub open spec fn escape_char(c: char) -> Seq<char> {
    if c == '"' {
        seq!['\\', '"']
    } else if c == '\\' {
        seq!['\\', '\\']
    } else if c == '\n' {
        seq!['\\', 'n']
    } else if c == '\r' {
        seq!['\\', 'r']
    } else if c == '\t' {
        seq!['\\', 't']
    } else if c == '\x08' {
        seq!['\\', 'b']
    } else if c == '\x0c' {
        seq!['\\', 'f']
    } else if (c as u32) < 0x20 {
        seq!['\\', 'u', '0', '0', digit_char((c as u32 / 16) as nat), digit_char((c as u32 % 16) as nat)]
    } else {
        seq![c]
    }
}

/// The escaped body of a string literal.
pub open spec fn escape_seq(s: Seq<char>) -> Seq<char>
    decreases s.len(),
{
    if s.len() == 0 {
        Seq::empty()
    } else {
        escape_seq(s.drop_last()) + escape_char(s.last())
    }
}

/// A JSON string literal with the characters of `s`.
pub open spec fn quoted(s: Seq<char>) -> Seq<char> {
    seq!['"'] + escape_seq(s) + seq!['"']
}

/// The JSON text of a number.
pub open spec fn number_text(n: JsonNumber) -> Seq<char> {
    match n.as_u64 {
        Some(u) => dec(u as nat),
        None => match n.as_i64 {
            Some(i) => signed_pad(i as int, 0),
            None => n.float_text@,
        },
    }
}

/// Compact JSON text of a value, the form the launcher writes into its HTTP
/// answers and files: `null`, `true`, `false`, the number's text, a quoted
/// string, and arrays and objects with their items separated by `,` and no
/// white space, members as `"key":value` in their order.
pub open spec fn json_text(v: JsonValue) -> Seq<char>
    decreases v,
{
    match v {
        JsonValue::Null => seq!['n', 'u', 'l', 'l'],
        JsonValue::Bool(b) => if b {
            seq!['t', 'r', 'u', 'e']
        } else {
            seq!['f', 'a', 'l', 's', 'e']
        },
        JsonValue::Number(n) => number_text(n),
        JsonValue::Str(s) => quoted(s@),
        JsonValue::Array(items) => seq!['['] + items_text(items@) + seq![']'],
        JsonValue::Object(members) => seq!['{'] + members_text(members@) + seq!['}'],
    }
}

/// Comma-separated texts of array items.
pub open spec fn items_text(items: Seq<JsonValue>) -> Seq<char>
    decreases items,
{
    if items.len() == 0 {
        Seq::empty()
    } else if items.len() == 1 {
        json_text(items[0])
    } else {
        items_text(items.drop_last()) + seq![','] + json_text(items.last())
    }
}

/// Comma-separated `"key":value` texts of object members.
pub open spec fn members_text(members: Seq<(String, JsonValue)>) -> Seq<char>
    decreases members,
{
    if members.len() == 0 {
        Seq::empty()
    } else {
        let last = members.last();
        let text = quoted(last.0@) + seq![':'] + json_text(last.1);
        if members.len() == 1 {
            text
        } else {
            members_text(members.drop_last()) + seq![','] + text
        }
    }
}

/// Appends the escape sequence of one character.
pub fn push_escaped_char(out: &mut String, c: char)
    ensures
        final(out)@ == old(out)@ + escape_char(c),
{
    let ghost before = out@;
    if c == '"' {
        push_char(out, '\\');
        push_char(out, '"');
    } else if c == '\\' {
        push_char(out, '\\');
        push_char(out, '\\');
    } else if c == '\n' {
        push_char(out, '\\');
        push_char(out, 'n');
    } else if c == '\r' {
        push_char(out, '\\');
        push_char(out, 'r');
    } else if c == '\t' {
        push_char(out, '\\');
        push_char(out, 't');
    } else if c == '\x08' {
        push_char(out, '\\');
        push_char(out, 'b');
    } else if c == '\x0c' {
        push_char(out, '\\');
        push_char(out, 'f');
    } else if (c as u32) < 0x20 {
        let code = c as u32;
        push_char(out, '\\');
        push_char(out, 'u');
        push_char(out, '0');
        push_char(out, '0');
        push_char(out, digit_to_char((code / 16) as u8));
        push_char(out, digit_to_char((code % 16) as u8));
    } else {
        push_char(out, c);
    }
    assert(out@ =~= before + escape_char(c));
}

/// Appends the escaped characters of `s`.
pub fn push_escaped(out: &mut String, s: &str)
    ensures
        final(out)@ == old(out)@ + escape_seq(s@),
{
    let cs = chars_of(s);
    let ghost before = out@;
    let mut i: usize = 0;
    while i < cs.len()
        invariant
            i <= cs@.len(),
            cs@ == s@,
            out@ == before + escape_seq(cs@.take(i as int)),
        decreases cs@.len() - i,
    {
        push_escaped_char(out, cs[i]);
        assert(cs@.take(i + 1).drop_last() =~= cs@.take(i as int));
        assert(out@ =~= before + escape_seq(cs@.take(i + 1)));
        i += 1;
    }
    assert(cs@.take(cs@.len() as int) =~= s@);
}

/// Appends a JSON string literal with the characters of `s`.
pub fn push_quoted(out: &mut String, s: &str)
    ensures
        final(out)@ == old(out)@ + quoted(s@),
{
    let ghost before = out@;
    push_char(out, '"');
    push_escaped(out, s);
    push_char(out, '"');
    assert(out@ =~= before + quoted(s@));
}

/// Appends the JSON text of a number.
pub fn push_number(out: &mut String, n: &JsonNumber)
    ensures
        final(out)@ == old(out)@ + number_text(*n),
{
    match n.as_u64 {
        Some(u) => push_digits(out, u as u128, 10),
        None => match n.as_i64 {
            Some(i) => push_signed_padded(out, i, 0),
            None => push_str(out, n.float_text.as_str()),
        },
    }
}

/// Appends the compact JSON text of `v`.
pub fn push_json(out: &mut String, v: &JsonValue)
    ensures
        final(out)@ == old(out)@ + json_text(*v),
    decreases v,
{
    let ghost before = out@;
    match v {
        JsonValue::Null => push_str(out, "null"),
        JsonValue::Bool(b) => {
            if *b {
                push_str(out, "true");
            } else {
                push_str(out, "false");
            }
        },
        JsonValue::Number(n) => push_number(out, n),
        JsonValue::Str(s) => push_quoted(out, s.as_str()),
        JsonValue::Array(items) => {
            push_char(out, '[');
            let mut i: usize = 0;
            while i < items.len()
                invariant
                    i <= items@.len(),
                    *v == JsonValue::Array(*items),
                    out@ == before + seq!['['] + items_text(items@.take(i as int)),
                decreases items@.len() - i,
            {
                if i > 0 {
                    push_char(out, ',');
                }
                assert(*items == (*v)->Array_0);
                assert(decreases_to!(*v => (*v)->Array_0));
                assert(decreases_to!(*items => items@));
                assert(decreases_to!(items@ => items@[i as int]));
                push_json(out, &items[i]);
                assert(items@.take(i + 1).drop_last() =~= items@.take(i as int));
                assert(out@ =~= before + seq!['['] + items_text(items@.take(i + 1)));
                i += 1;
            }
            push_char(out, ']');
            assert(items@.take(items@.len() as int) =~= items@);
        },
        JsonValue::Object(members) => {
            push_char(out, '{');
            let mut i: usize = 0;
            while i < members.len()
                invariant
                    i <= members@.len(),
                    *v == JsonValue::Object(*members),
                    out@ == before + seq!['{'] + members_text(members@.take(i as int)),
                decreases members@.len() - i,
            {
                if i > 0 {
                    push_char(out, ',');
                }
                let (key, value) = &members[i];
                push_quoted(out, key.as_str());
                push_char(out, ':');
                assert(*members == (*v)->Object_0);
                assert(decreases_to!(*v => (*v)->Object_0));
                assert(decreases_to!(*members => members@));
                assert(decreases_to!(members@ => members@[i as int]));
                assert(decreases_to!(members@[i as int] => members@[i as int].1));
                push_json(out, value);
                assert(members@.take(i + 1).drop_last() =~= members@.take(i as int));
                assert(out@ =~= before + seq!['{'] + members_text(members@.take(i + 1)));
                i += 1;
            }
            push_char(out, '}');
            assert(members@.take(members@.len() as int) =~= members@);
        },
    }
    proof {
        reveal_strlit("null");
        reveal_strlit("true");
        reveal_strlit("false");
    }
}

/// The compact JSON text of `v`.
pub fn to_json_string(v: &JsonValue) -> (r: String)
    ensures
        r@ == json_text(*v),
{
    let mut out = String::new();
    push_json(&mut out, v);
    assert(out@ =~= json_text(*v));
    out
}

/// The value of the first member named `key` among `members`.
pub open spec fn find_member(members: Seq<(String, JsonValue)>, key: Seq<char>) -> Option<JsonValue>
    decreases members.len(),
{
    if members.len() == 0 {
        None
    } else if members[0].0@ == key {
        Some(members[0].1)
    } else {
        find_member(members.drop_first(), key)
    }
}

/// `value.get(key)`: the member named `key` of an object; nothing for any other value.
pub open spec fn member(v: JsonValue, key: Seq<char>) -> Option<JsonValue> {
    match v {
        JsonValue::Object(members) => find_member(members@, key),
        _ => None,
    }
}

/// The value behind an optional reference.
pub open spec fn opt(v: Option<&JsonValue>) -> Option<JsonValue> {
    match v {
        Some(x) => Some(*x),
        None => None,
    }
}

/// `as_str` of an optional value.
pub open spec fn str_of(v: Option<JsonValue>) -> Option<Seq<char>> {
    match v {
        Some(JsonValue::Str(s)) => Some(s@),
        _ => None,
    }
}

/// `as_bool` of an optional value.
pub open spec fn bool_of(v: Option<JsonValue>) -> Option<bool> {
    match v {
        Some(JsonValue::Bool(b)) => Some(b),
        _ => None,
    }
}

/// `as_u64` of an optional value.
pub open spec fn u64_of(v: Option<JsonValue>) -> Option<u64> {
    match v {
        Some(JsonValue::Number(n)) => n.as_u64,
        _ => None,
    }
}

/// `as_array` of an optional value.
pub open spec fn array_of(v: Option<JsonValue>) -> Option<Seq<JsonValue>> {
    match v {
        Some(JsonValue::Array(items)) => Some(items@),
        _ => None,
    }
}

/// `value.get(key)`.
pub fn get<'a>(v: &'a JsonValue, key: &str) -> (r: Option<&'a JsonValue>)
    ensures
        match r {
            Some(x) => member(*v, key@) == Some(*x),
            None => member(*v, key@) is None,
        },
{
    match v {
        JsonValue::Object(members) => {
            let mut i: usize = 0;
            assert(members@.skip(0) =~= members@);
            while i < members.len()
                invariant
                    i <= members@.len(),
                    find_member(members@, key@) == find_member(members@.skip(i as int), key@),
                    *v == JsonValue::Object(*members),
                decreases members@.len() - i,
            {
                let (k, value) = &members[i];
                assert(members@.skip(i as int)[0] == members@[i as int]);
                if str_eq(k.as_str(), key) {
                    assert(find_member(members@.skip(i as int), key@) == Some(members@[i as int].1));
                    assert(*value == members@[i as int].1);
                    assert(member(*v, key@) == find_member(members@, key@));
                    return Some(value);
                }
                assert(members@.skip(i as int).drop_first() =~= members@.skip(i + 1));
                i += 1;
            }
            None
        },
        _ => None,
    }
}

/// `as_str`.
pub fn as_str<'a>(v: Option<&'a JsonValue>) -> (r: Option<&'a String>)
    ensures
        match r {
            Some(s) => str_of(opt(v)) == Some(s@),
            None => str_of(opt(v)) is None,
        },
{
    match v {
        Some(JsonValue::Str(s)) => Some(s),
        _ => None,
    }
}

/// `as_bool`.
pub fn as_bool(v: Option<&JsonValue>) -> (r: Option<bool>)
    ensures
        r == bool_of(opt(v)),
{
    match v {
        Some(JsonValue::Bool(b)) => Some(*b),
        _ => None,
    }
}

/// `as_u64`.
pub fn as_u64(v: Option<&JsonValue>) -> (r: Option<u64>)
    ensures
        r == u64_of(opt(v)),
{
    match v {
        Some(JsonValue::Number(n)) => n.as_u64,
        _ => None,
    }
}

/// `as_array`.
pub fn as_array<'a>(v: Option<&'a JsonValue>) -> (r: Option<&'a Vec<JsonValue>>)
    ensures
        match r {
            Some(items) => array_of(opt(v)) == Some(items@),
            None => array_of(opt(v)) is None,
        },
{
    match v {
        Some(JsonValue::Array(items)) => Some(items),
        _ => None,
    }
}

proof fn lemma_find_member_update(members: Seq<(String, JsonValue)>, i: int, key: String, value: JsonValue, k: Seq<char>)
    requires
        0 <= i < members.len(),
        members[i].0@ == key@,
        forall|j: int| 0 <= j < i ==> members[j].0@ != key@,
    ensures
        find_member(members.update(i, (key, value)), k) == (if k == key@ {
            Some(value)
        } else {
            find_member(members, k)
        }),
    decreases members.len(),
{
    let u = members.update(i, (key, value));
    if i > 0 {
        lemma_find_member_update(members.drop_first(), i - 1, key, value, k);
        assert(u.drop_first() =~= members.drop_first().update(i - 1, (key, value)));
        assert(u[0] == members[0]);
    } else {
        assert(u.drop_first() =~= members.drop_first());
        assert(u[0] == (key, value));
    }
}

proof fn lemma_find_member_push(members: Seq<(String, JsonValue)>, key: String, value: JsonValue, k: Seq<char>)
    requires
        forall|j: int| 0 <= j < members.len() ==> members[j].0@ != key@,
    ensures
        find_member(members.push((key, value)), k) == (if k == key@ {
            Some(value)
        } else {
            find_member(members, k)
        }),
    decreases members.len(),
{
    let p = members.push((key, value));
    if members.len() > 0 {
        lemma_find_member_push(members.drop_first(), key, value, k);
        assert(p.drop_first() =~= members.drop_first().push((key, value)));
        assert(p[0] == members[0]);
    } else {
        assert(p.drop_first() =~= Seq::<(String, JsonValue)>::empty());
        assert(p[0] == (key, value));
        assert(find_member(p.drop_first(), k) is None);
    }
}

/// `value[key] = new`: an object gets the member set (in place where it has
/// it, at the end where it has not); `null` becomes an object with that one
/// member.
pub fn with_member(v: JsonValue, key: &str, new: JsonValue) -> (r: JsonValue)
    requires
        v is Object || v is Null,
    ensures
        r is Object,
        forall|k: Seq<char>| #[trigger] member(r, k) == (if k == key@ {
            Some(new)
        } else {
            member(v, k)
        }),
{
    let mut members = match v {
        JsonValue::Object(ms) => ms,
        _ => Vec::new(),
    };
    let ghost old_members = members@;
    assert forall|k: Seq<char>| #[trigger] member(v, k) == find_member(old_members, k) by {
        if v is Null {
            assert(old_members.len() == 0);
        }
    }
    let mut i: usize = 0;
    while i < members.len()
        invariant
            i <= members@.len(),
            members@ == old_members,
            forall|k: Seq<char>| #[trigger] member(v, k) == find_member(old_members, k),
            forall|j: int| 0 <= j < i ==> members@[j].0@ != key@,
        decreases members@.len() - i,
    {
        if str_eq(members[i].0.as_str(), key) {
            let name = String::from_str(key);
            proof {
                assert forall|k: Seq<char>| #[trigger] find_member(old_members.update(i as int, (name, new)), k) == (
                if k == key@ {
                    Some(new)
                } else {
                    find_member(old_members, k)
                }) by {
                    lemma_find_member_update(old_members, i as int, name, new, k);
                }
            }
            members.set(i, (name, new));
            return JsonValue::Object(members);
        }
        i += 1;
    }
    let name = String::from_str(key);
    proof {
        assert forall|k: Seq<char>| #[trigger] find_member(old_members.push((name, new)), k) == (if k == key@ {
            Some(new)
        } else {
            find_member(old_members, k)
        }) by {
            lemma_find_member_push(old_members, name, new, k);
        }
    }
    members.push((name, new));
    JsonValue::Object(members)
}

/// The JSON number of a count: exact as an integer of either kind, and
/// `n.0` as a float (serde_json's text of a whole `f64` below 2^32).
pub fn unsigned_number(n: u32) -> (r: JsonNumber)
    ensures
        r.as_u64 == Some(n as u64),
        r.as_i64 == Some(n as i64),
        r.float_text@ == dec(n as nat) + ".0"@,
{
    let mut s = String::new();
    push_digits(&mut s, n as u128, 10);
    push_str(&mut s, ".0");
    JsonNumber { as_u64: Some(n as u64), as_i64: Some(n as i64), float_text: s }
}

/// The member named `key` of an optional value.
pub open spec fn opt_member(v: Option<JsonValue>, key: Seq<char>) -> Option<JsonValue> {
    match v {
        Some(x) => member(x, key),
        None => None,
    }
}

} // verus!
