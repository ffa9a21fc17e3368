//! A small JSON value model and a verified compact renderer.
//!
//! Every line the engine emits — progress events, log events, the
//! terminal response, the crash-journal file — is rendered through this
//! module, so the exact bytes on the wire are pinned by the contracts.

use vstd::prelude::*;

use crate::strutil::{dec_str, push_char, u64_to_string};

verus! {

/// A JSON value as the engine uses it.
pub enum JsonValue {
    Null,
    Bool(bool),
    UInt(u64),
    Str(String),
    Arr(Vec<JsonValue>),
    Obj(Vec<(String, JsonValue)>),
}

/// The mathematical shape of a JSON value.
pub enum JsonV {
    Null,
    Bool(bool),
    UInt(u64),
    Str(Seq<char>),
    Arr(Seq<JsonV>),
    Obj(Seq<(Seq<char>, JsonV)>),
}

/// The shape of one value.
pub open spec fn jv(v: JsonValue) -> JsonV
    decreases v,
{
    match v {
        JsonValue::Null => JsonV::Null,
        JsonValue::Bool(b) => JsonV::Bool(b),
        JsonValue::UInt(u) => JsonV::UInt(u),
        JsonValue::Str(s) => JsonV::Str(s@),
        JsonValue::Arr(items) => JsonV::Arr(jv_seq(items@)),
        JsonValue::Obj(fields) => JsonV::Obj(jv_fields(fields@)),
    }
}

/// The shapes of the elements of an array.
pub open spec fn jv_seq(s: Seq<JsonValue>) -> Seq<JsonV>
    decreases s,
{
    if s.len() == 0 {
        Seq::empty()
    } else {
        seq![jv(s[0])] + jv_seq(s.subrange(1, s.len() as int))
    }
}

/// The shapes of the fields of an object.
pub open spec fn jv_fields(s: Seq<(String, JsonValue)>) -> Seq<(Seq<char>, JsonV)>
    decreases s,
{
    if s.len() == 0 {
        Seq::empty()
    } else {
        seq![(s[0].0@, jv(s[0].1))] + jv_fields(s.subrange(1, s.len() as int))
    }
}

/// The length and elements of an array's shape.
pub proof fn lemma_jv_seq(s: Seq<JsonValue>)
    ensures
        jv_seq(s).len() == s.len(),
        forall|i: int| 0 <= i < s.len() ==> jv_seq(s)[i] == jv(s[i]),
    decreases s,
{
    if s.len() > 0 {
        let rest = s.subrange(1, s.len() as int);
        lemma_jv_seq(rest);
        assert forall|i: int| 0 <= i < s.len() implies jv_seq(s)[i] == jv(s[i]) by {
            if i > 0 {
                assert(jv_seq(s)[i] == jv_seq(rest)[i - 1]);
                assert(rest[i - 1] == s[i]);
            }
        }
    }
}

/// The length and elements of an object's shape.
pub proof fn lemma_jv_fields(s: Seq<(String, JsonValue)>)
    ensures
        jv_fields(s).len() == s.len(),
        forall|i: int|
            0 <= i < s.len() ==> jv_fields(s)[i] == (s[i].0@, jv(s[i].1)),
    decreases s,
{
    if s.len() > 0 {
        let rest = s.subrange(1, s.len() as int);
        lemma_jv_fields(rest);
        assert forall|i: int| 0 <= i < s.len() implies jv_fields(s)[i] == (
            s[i].0@,
            jv(s[i].1),
        ) by {
            if i > 0 {
                assert(jv_fields(s)[i] == jv_fields(rest)[i - 1]);
                assert(rest[i - 1] == s[i]);
            }
        }
    }
}

impl View for JsonValue {
    type V = JsonV;

    open spec fn view(&self) -> JsonV {
        jv(*self)
    }
}

/// The escape of one character inside a JSON string literal.
pub open spec fn escape_char(c: char) -> Seq<char> {
    if c == '"' {
        seq!['\\', '"']
    } else if c == '\\' {
        seq!['\\', '\\']
    } else if c == '\n' {
        seq!['\\', 'n']
    } else if c == '\r' {
        seq!['\\', 'r']
    } else if c == '\t' {
        seq!['\\', 't']
    } else if (c as u32) < 32 {
        seq!['\\', 'u', '0', '0', hex_digit((c as u32 / 16) as nat), hex_digit(
            (c as u32 % 16) as nat,
        )]
    } else {
        seq![c]
    }
}

/// One lower-case hexadecimal digit.
pub open spec fn hex_digit(d: nat) -> char {
    if d == 0 { '0' } else if d == 1 { '1' } else if d == 2 { '2' } else if d == 3 { '3' }
    else if d == 4 { '4' } else if d == 5 { '5' } else if d == 6 { '6' } else if d == 7 { '7' }
    else if d == 8 { '8' } else if d == 9 { '9' } else if d == 10 { 'a' } else if d == 11 { 'b' }
    else if d == 12 { 'c' } else if d == 13 { 'd' } else if d == 14 { 'e' } else { 'f' }
}

/// The escaped body of a JSON string literal.
pub open spec fn escape_str(s: Seq<char>) -> Seq<char>
    decreases s.len(),
{
    if s.len() == 0 {
        Seq::empty()
    } else {
        escape_char(s[0]) + escape_str(s.skip(1))
    }
}

/// A JSON string literal: quotes around the escaped body.
pub open spec fn str_lit(s: Seq<char>) -> Seq<char> {
    seq!['"'] + escape_str(s) + seq!['"']
}

/// The compact rendering of a JSON value: no spaces, object fields in
/// the order given, numbers in decimal.
pub open spec fn json_text(v: JsonV) -> Seq<char>
    decreases v,
{
    match v {
        JsonV::Null => "null"@,
        JsonV::Bool(b) => if b {
            "true"@
        } else {
            "false"@
        },
        JsonV::UInt(u) => dec_str(u as nat),
        JsonV::Str(s) => str_lit(s),
        JsonV::Arr(items) => seq!['['] + json_items(items) + seq![']'],
        JsonV::Obj(fields) => seq!['{'] + json_fields(fields) + seq!['}'],
    }
}

/// Array elements joined with commas.
pub open spec fn json_items(items: Seq<JsonV>) -> Seq<char>
    decreases items,
{
    if items.len() == 0 {
        Seq::empty()
    } else if items.len() == 1 {
        json_text(items[0])
    } else {
        json_text(items[0]) + seq![','] + json_items(items.skip(1))
    }
}

/// Object fields joined with commas.
pub open spec fn json_fields(fields: Seq<(Seq<char>, JsonV)>) -> Seq<char>
    decreases fields,
{
    if fields.len() == 0 {
        Seq::empty()
    } else if fields.len() == 1 {
        str_lit(fields[0].0) + seq![':'] + json_text(fields[0].1)
    } else {
        str_lit(fields[0].0) + seq![':'] + json_text(fields[0].1) + seq![','] + json_fields(
            fields.skip(1),
        )
    }
}

/// Append the escaped body of `s` to `out`.
fn render_escaped(out: &mut String, s: &str)
    ensures
        final(out)@ == old(out)@ + escape_str(s@),
{
    let n = s.unicode_len();
    proof {
        assert(s@.skip(0) =~= s@);
    }
    let mut i: usize = 0;
    while i < n
        invariant
            i <= n,
            n == s@.len(),
            out@ + escape_str(s@.skip(i as int)) == old(out)@ + escape_str(s@),
        decreases n - i,
    {
        let ghost rest = s@.skip(i as int);
        let ghost before = out@;
        proof {
            assert(rest.skip(1) =~= s@.skip(i + 1));
            assert(rest[0] == s@[i as int]);
        }
        let c = s.get_char(i);
        if c == '"' {
            push_char(out, '\\');
            push_char(out, '"');
        } else if c == '\\' {
            push_char(out, '\\');
            push_char(out, '\\');
        } else if c == '\n' {
            push_char(out, '\\');
            push_char(out, 'n');
        } else if c == '\r' {
            push_char(out, '\\');
            push_char(out, 'r');
        } else if c == '\t' {
            push_char(out, '\\');
            push_char(out, 't');
        } else if (c as u32) < 32 {
            push_char(out, '\\');
            push_char(out, 'u');
            push_char(out, '0');
            push_char(out, '0');
            let code = c as u32;
            let hi = code / 16;
            let lo = code % 16;
            let hc: char = if hi == 0 { '0' } else { '1' };
            proof {
                assert(c < ' ');
                assert(code < 32);
                assert(hi <= 1);
                assert(hc == hex_digit((c as u32 / 16) as nat));
            }
            push_char(out, hc);
            let lc: char = match lo {
                0 => '0', 1 => '1', 2 => '2', 3 => '3', 4 => '4', 5 => '5', 6 => '6',
                7 => '7', 8 => '8', 9 => '9', 10 => 'a', 11 => 'b', 12 => 'c', 13 => 'd',
                14 => 'e', _ => 'f',
            };
            proof {
                assert(lc == hex_digit((c as u32 % 16) as nat));
            }
            push_char(out, lc);
        } else {
            push_char(out, c);
        }
        proof {
            assert(out@ =~= before + escape_char(rest[0]));
            assert(escape_str(rest) == escape_char(rest[0]) + escape_str(rest.skip(1)));
            assert(out@ + escape_str(s@.skip(i + 1)) =~= before + escape_str(rest));
        }
        i = i + 1;
    }
    proof {
        assert(s@.skip(n as int) =~= Seq::<char>::empty());
        assert(out@ + Seq::<char>::empty() =~= out@);
    }
}

/// Append the rendering of `v` to `out`.
fn render_value(out: &mut String, v: &JsonValue)
    ensures
        final(out)@ == old(out)@ + json_text(v@),
    decreases *v, 0int,
{
    match v {
        JsonValue::Null => {
            out.append("null");
        },
        JsonValue::Bool(b) => {
            if *b {
                out.append("true");
            } else {
                out.append("false");
            }
        },
        JsonValue::UInt(u) => {
            let text = u64_to_string(*u);
            out.append(text.as_str());
        },
        JsonValue::Str(s) => {
            push_char(out, '"');
            render_escaped(out, s.as_str());
            push_char(out, '"');
            proof {
                assert(old(out)@ + str_lit(s@) =~= ((old(out)@ + seq!['"']) + escape_str(s@)).push(
                    '"',
                ));
            }
        },
        JsonValue::Arr(items) => {
            push_char(out, '[');
            proof {
                lemma_jv_seq(items@);
                assert(jv_seq(items@).skip(0) =~= jv_seq(items@));
            }
            render_items(out, items, 0);
            push_char(out, ']');
            proof {
                assert(old(out)@ + json_text(v@) =~= ((old(out)@ + seq!['[']) + json_items(
                    jv_seq(items@),
                )).push(']'));
            }
        },
        JsonValue::Obj(fields) => {
            push_char(out, '{');
            proof {
                lemma_jv_fields(fields@);
                assert(jv_fields(fields@).skip(0) =~= jv_fields(fields@));
            }
            render_fields(out, fields, 0);
            push_char(out, '}');
            proof {
                assert(old(out)@ + json_text(v@) =~= ((old(out)@ + seq!['{']) + json_fields(
                    jv_fields(fields@),
                )).push('}'));
            }
        },
    }
}

/// Append the renderings of the array elements from `from` on, joined
/// with commas.
fn render_items(out: &mut String, items: &Vec<JsonValue>, from: usize)
    requires
        from <= items@.len(),
    ensures
        final(out)@ == old(out)@ + json_items(jv_seq(items@).skip(from as int)),
    decreases *items, items@.len() - from,
{
    let ghost iv = jv_seq(items@);
    proof {
        lemma_jv_seq(items@);
    }
    if from < items.len() {
        proof {
            assert(decreases_to!(*items => items@));
            assert(decreases_to!(items@ => items@[from as int]));
        }
        render_value(out, &items[from]);
        proof {
            assert(iv.skip(from as int)[0] == iv[from as int]);
        }
        if from + 1 < items.len() {
            push_char(out, ',');
            render_items(out, items, from + 1);
            proof {
                let rest = iv.skip(from as int);
                assert(rest.skip(1) =~= iv.skip(from + 1));
                assert(json_items(rest) == json_text(rest[0]) + seq![','] + json_items(
                    rest.skip(1),
                ));
                assert(old(out)@ + json_items(rest) =~= (((old(out)@ + json_text(rest[0])).push(
                    ',',
                )) + json_items(rest.skip(1))));
            }
        } else {
            proof {
                let rest = iv.skip(from as int);
                assert(rest.len() == 1);
                assert(json_items(rest) == json_text(rest[0]));
            }
        }
    } else {
        proof {
            assert(iv.skip(from as int).len() == 0);
            assert(out@ + Seq::<char>::empty() =~= out@);
        }
    }
}

/// Append the renderings of the object fields from `from` on, joined
/// with commas.
fn render_fields(out: &mut String, fields: &Vec<(String, JsonValue)>, from: usize)
    requires
        from <= fields@.len(),
    ensures
        final(out)@ == old(out)@ + json_fields(jv_fields(fields@).skip(from as int)),
    decreases *fields, fields@.len() - from,
{
    let ghost fv = jv_fields(fields@);
    proof {
        lemma_jv_fields(fields@);
    }
    if from < fields.len() {
        push_char(out, '"');
        let pair = &fields[from];
        render_escaped(out, pair.0.as_str());
        push_char(out, '"');
        push_char(out, ':');
        proof {
            assert(decreases_to!(*fields => fields@));
            assert(decreases_to!(fields@ => fields@[from as int]));
            assert(decreases_to!(fields@[from as int] => fields@[from as int].1));
        }
        render_value(out, &pair.1);
        let ghost head = fv.skip(from as int)[0];
        proof {
            assert(head == fv[from as int]);
            assert(out@ =~= old(out)@ + (str_lit(head.0) + seq![':'] + json_text(head.1)));
        }
        if from + 1 < fields.len() {
            push_char(out, ',');
            render_fields(out, fields, from + 1);
            proof {
                let rest = fv.skip(from as int);
                assert(rest.skip(1) =~= fv.skip(from + 1));
                assert(json_fields(rest) == str_lit(rest[0].0) + seq![':'] + json_text(rest[0].1)
                    + seq![','] + json_fields(rest.skip(1)));
                assert(old(out)@ + json_fields(rest) =~= ((old(out)@ + (str_lit(head.0)
                    + seq![':'] + json_text(head.1))).push(',')) + json_fields(rest.skip(1)));
            }
        } else {
            proof {
                let rest = fv.skip(from as int);
                assert(rest.len() == 1);
                assert(json_fields(rest) == str_lit(rest[0].0) + seq![':'] + json_text(rest[0].1));
            }
        }
    } else {
        proof {
            assert(fv.skip(from as int).len() == 0);
            assert(out@ + Seq::<char>::empty() =~= out@);
        }
    }
}

/// Render a JSON value compactly.
pub fn to_json(v: &JsonValue) -> (r: String)
    ensures
        r@ == json_text(v@),
{
    let mut out = String::new();
    render_value(&mut out, v);
    out
}

/// Read a string field of a JSON object, by key.
pub open spec fn lookup(fields: Seq<(Seq<char>, JsonV)>, key: Seq<char>) -> Option<JsonV>
    decreases fields.len(),
{
    if fields.len() == 0 {
        None
    } else if fields[0].0 == key {
        Some(fields[0].1)
    } else {
        lookup(fields.skip(1), key)
    }
}

/// The value of a key in a JSON value, when the value is an object
/// holding that key.
pub open spec fn get_spec(v: JsonV, key: Seq<char>) -> Option<JsonV> {
    match v {
        JsonV::Obj(fields) => lookup(fields, key),
        _ => None,
    }
}

impl JsonValue {
    /// Fetch a field of an object by key; absent on other shapes.
    pub fn get(&self, key: &str) -> (r: Option<&JsonValue>)
        ensures
            match r {
                Some(f) => get_spec(self@, key@) == Some(f@),
                None => get_spec(self@, key@) is None,
            },
    {
        match self {
            JsonValue::Obj(fields) => {
                let ghost fv = self@->Obj_0;
                let n = fields.len();
                proof {
                    lemma_jv_fields(fields@);
                    assert(fv.skip(0) =~= fv);
                }
                let mut i: usize = 0;
                while i < n
                    invariant
                        i <= n,
                        n == fields@.len(),
                        fv.len() == n,
                        self@ == JsonV::Obj(fv),
                        forall|k: int|
                            0 <= k < n ==> fv[k] == (fields@[k].0@, fields@[k].1@),
                        lookup(fv.skip(i as int), key@) == lookup(fv, key@),
                    decreases n - i,
                {
                    proof {
                        assert(fv.skip(i as int)[0] == fv[i as int]);
                        assert(fv.skip(i as int).skip(1) =~= fv.skip(i + 1));
                    }
                    if crate::strutil::str_eq(fields[i].0.as_str(), key) {
                        return Some(&fields[i].1);
                    }
                    i = i + 1;
                }
                proof {
                    assert(fv.skip(n as int).len() == 0);
                }
                None
            },
            _ => None,
        }
    }

    /// The string a field holds, when present and a string.
    pub fn as_str_opt(&self) -> (r: Option<&String>)
        ensures
            match r {
                Some(s) => self@ matches JsonV::Str(t) && t == s@,
                None => !(self@ is Str),
            },
    {
        match self {
            JsonValue::Str(s) => Some(s),
            _ => None,
        }
    }

    /// The boolean a field holds, when present and boolean.
    pub fn as_bool_opt(&self) -> (r: Option<bool>)
        ensures
            match r {
                Some(b) => self@ == JsonV::Bool(b),
                None => !(self@ is Bool),
            },
    {
        match self {
            JsonValue::Bool(b) => Some(*b),
            _ => None,
        }
    }

    /// The number a field holds, when present and a number.
    pub fn as_u64_opt(&self) -> (r: Option<u64>)
        ensures
            match r {
                Some(u) => self@ == JsonV::UInt(u),
                None => !(self@ is UInt),
            },
    {
        match self {
            JsonValue::UInt(u) => Some(*u),
            _ => None,
        }
    }
}

/// A missing string field of the request payload, by the planner's rule:
/// the field must exist and hold a string.
pub open spec fn read_string_spec(payload: JsonV, key: Seq<char>) -> Option<Seq<char>> {
    match get_spec(payload, key) {
        Some(JsonV::Str(s)) => Some(s),
        _ => None,
    }
}

/// Read a required string field of the request payload; the error names
/// the missing field.
pub fn read_string(payload: &JsonValue, key: &str) -> (r: Result<String, String>)
    ensures
        match r {
            Ok(s) => read_string_spec(payload@, key@) == Some(s@),
            Err(e) => read_string_spec(payload@, key@) is None && e@ == "Missing field: "@
                + key@,
        },
{
    match payload.get(key) {
        Some(value) => {
            match value.as_str_opt() {
                Some(s) => Ok(s.clone()),
                None => {
                    let msg = String::from_str("Missing field: ");
                    Err(msg.concat(key))
                },
            }
        },
        None => {
            let msg = String::from_str("Missing field: ");
            Err(msg.concat(key))
        },
    }
}

} // verus!
