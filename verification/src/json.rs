//! JSON values as plain data.

use vstd::prelude::*;

verus! {

/// A JSON value. Numbers keep their textual form.
#[derive(Debug, PartialEq)]
pub enum JsonValue {
    Null,
    Bool(bool),
    Number(String),
    Str(String),
    Array(Vec<JsonValue>),
    Object(Vec<(String, JsonValue)>),
}

/// A copy of a JSON value.
#[verifier::loop_isolation(false)]
pub fn json_clone(v: &JsonValue) -> (r: JsonValue)
    ensures
        json_data(r) == json_data(*v),
    decreases v,
{
    match v {
        JsonValue::Null => JsonValue::Null,
        JsonValue::Bool(b) => JsonValue::Bool(*b),
        JsonValue::Number(n) => JsonValue::Number(n.clone()),
        JsonValue::Str(s) => JsonValue::Str(s.clone()),
        JsonValue::Array(items) => {
            let mut out: Vec<JsonValue> = Vec::new();
            let mut i: usize = 0;
            while i < items.len()
                invariant
                    i <= items@.len(),
                    items_data(out@) == items_data(items@.take(i as int)),
                decreases items@.len() - i,
            {
                assert(decreases_to!(*v => *items));
                assert(decreases_to!(*items => items@));
                assert(decreases_to!(items@ => items@[i as int]));
                let ghost before = out@;
                out.push(json_clone(&items[i]));
                proof {
                    assert(out@.drop_last() =~= before);
                    assert(items@.take(i + 1).drop_last() =~= items@.take(i as int));
                }
                i = i + 1;
            }
            assert(items@.take(items@.len() as int) =~= items@);
            JsonValue::Array(out)
        },
        JsonValue::Object(fields) => {
            let mut out: Vec<(String, JsonValue)> = Vec::new();
            let mut i: usize = 0;
            while i < fields.len()
                invariant
                    i <= fields@.len(),
                    fields_data(out@) == fields_data(fields@.take(i as int)),
                decreases fields@.len() - i,
            {
                assert(decreases_to!(*v => *fields));
                assert(decreases_to!(*fields => fields@));
                assert(decreases_to!(fields@ => fields@[i as int]));
                assert(decreases_to!(fields@[i as int] => fields@[i as int].1));
                let k = fields[i].0.clone();
                let ghost before = out@;
                out.push((k, json_clone(&fields[i].1)));
                proof {
                    assert(out@.drop_last() =~= before);
                    assert(fields@.take(i + 1).drop_last() =~= fields@.take(i as int));
                }
                i = i + 1;
            }
            assert(fields@.take(fields@.len() as int) =~= fields@);
            JsonValue::Object(out)
        },
    }
}

impl Clone for JsonValue {
    fn clone(&self) -> (r: Self)
        ensures
            json_data(r) == json_data(*self),
    {
        json_clone(self)
    }
}

/// A JSON value as seen in specifications: strings by their characters.
pub enum JsonData {
    Null,
    Bool(bool),
    Number(Seq<char>),
    Str(Seq<char>),
    Array(Seq<JsonData>),
    Object(Seq<(Seq<char>, JsonData)>),
}

/// The specification view of a JSON value.
pub open spec fn json_data(v: JsonValue) -> JsonData
    decreases v,
{
    match v {
        JsonValue::Null => JsonData::Null,
        JsonValue::Bool(b) => JsonData::Bool(b),
        JsonValue::Number(n) => JsonData::Number(n@),
        JsonValue::Str(s) => JsonData::Str(s@),
        JsonValue::Array(xs) => {
            proof {
                assert(decreases_to!(xs => xs@));
            }
            JsonData::Array(items_data(xs@))
        },
        JsonValue::Object(xs) => {
            proof {
                assert(decreases_to!(xs => xs@));
            }
            JsonData::Object(fields_data(xs@))
        },
    }
}

/// The views of a list of JSON values.
pub open spec fn items_data(xs: Seq<JsonValue>) -> Seq<JsonData>
    decreases xs,
{
    if xs.len() == 0 {
        Seq::empty()
    } else {
        items_data(xs.drop_last()).push(json_data(xs.last()))
    }
}

/// The views of a list of object fields.
pub open spec fn fields_data(xs: Seq<(String, JsonValue)>) -> Seq<(Seq<char>, JsonData)>
    decreases xs,
{
    if xs.len() == 0 {
        Seq::empty()
    } else {
        proof {
            assert(decreases_to!(xs => xs[xs.len() - 1]));
        }
        fields_data(xs.drop_last()).push((xs.last().0@, json_data(xs.last().1)))
    }
}

/// Two JSON values are the same value: same kind, same text for numbers and
/// strings, and the same items (or keys and values) in the same order.
pub open spec fn json_equal(a: JsonValue, b: JsonValue) -> bool {
    json_data(a) == json_data(b)
}

proof fn lemma_items_data_len(xs: Seq<JsonValue>)
    ensures
        items_data(xs).len() == xs.len(),
    decreases xs.len(),
{
    if xs.len() > 0 {
        lemma_items_data_len(xs.drop_last());
    }
}

proof fn lemma_fields_data_len(xs: Seq<(String, JsonValue)>)
    ensures
        fields_data(xs).len() == xs.len(),
    decreases xs.len(),
{
    if xs.len() > 0 {
        lemma_fields_data_len(xs.drop_last());
    }
}

/// Item `i` of the view is the view of item `i`.
proof fn lemma_items_data_at(xs: Seq<JsonValue>, i: int)
    requires
        0 <= i < xs.len(),
    ensures
        items_data(xs)[i] == json_data(xs[i]),
    decreases xs.len(),
{
    lemma_items_data_len(xs.drop_last());
    if i < xs.len() - 1 {
        lemma_items_data_at(xs.drop_last(), i);
    }
}

/// Field `i` of the view is the view of field `i`.
proof fn lemma_fields_data_at(xs: Seq<(String, JsonValue)>, i: int)
    requires
        0 <= i < xs.len(),
    ensures
        fields_data(xs)[i] == (xs[i].0@, json_data(xs[i].1)),
    decreases xs.len(),
{
    lemma_fields_data_len(xs.drop_last());
    if i < xs.len() - 1 {
        lemma_fields_data_at(xs.drop_last(), i);
    }
}

/// Whether two JSON values are the same value.
#[verifier::loop_isolation(false)]
pub fn json_eq(a: &JsonValue, b: &JsonValue) -> (r: bool)
    ensures
        r == json_equal(*a, *b),
    decreases a,
{
    match a {
        JsonValue::Null => match b {
            JsonValue::Null => true,
            _ => false,
        },
        JsonValue::Bool(x) => match b {
            JsonValue::Bool(y) => *x == *y,
            _ => false,
        },
        JsonValue::Number(x) => match b {
            JsonValue::Number(y) => crate::text::str_eq(x.as_str(), y.as_str()),
            _ => false,
        },
        JsonValue::Str(x) => match b {
            JsonValue::Str(y) => crate::text::str_eq(x.as_str(), y.as_str()),
            _ => false,
        },
        JsonValue::Array(xs) => match b {
            JsonValue::Array(ys) => {
                proof {
                    lemma_items_data_len(xs@);
                    lemma_items_data_len(ys@);
                }
                if xs.len() != ys.len() {
                    return false;
                }
                let mut i: usize = 0;
                while i < xs.len()
                    invariant
                        i <= xs@.len(),
                        xs@.len() == ys@.len(),
                        items_data(xs@.take(i as int)) == items_data(ys@.take(i as int)),
                    decreases xs@.len() - i,
                {
                    assert(decreases_to!(*a => *xs));
                    assert(decreases_to!(*xs => xs@));
                    assert(decreases_to!(xs@ => xs@[i as int]));
                    proof {
                        assert(xs@.take(i + 1).drop_last() =~= xs@.take(i as int));
                        assert(ys@.take(i + 1).drop_last() =~= ys@.take(i as int));
                    }
                    if !json_eq(&xs[i], &ys[i]) {
                        proof {
                            lemma_items_data_at(xs@, i as int);
                            lemma_items_data_at(ys@, i as int);
                        }
                        return false;
                    }
                    i = i + 1;
                }
                assert(xs@.take(xs@.len() as int) =~= xs@);
                assert(ys@.take(ys@.len() as int) =~= ys@);
                true
            },
            _ => false,
        },
        JsonValue::Object(xs) => match b {
            JsonValue::Object(ys) => {
                proof {
                    lemma_fields_data_len(xs@);
                    lemma_fields_data_len(ys@);
                }
                if xs.len() != ys.len() {
                    return false;
                }
                let mut i: usize = 0;
                while i < xs.len()
                    invariant
                        i <= xs@.len(),
                        xs@.len() == ys@.len(),
                        fields_data(xs@.take(i as int)) == fields_data(ys@.take(i as int)),
                    decreases xs@.len() - i,
                {
                    assert(decreases_to!(*a => *xs));
                    assert(decreases_to!(*xs => xs@));
                    assert(decreases_to!(xs@ => xs@[i as int]));
                    assert(decreases_to!(xs@[i as int] => xs@[i as int].1));
                    proof {
                        assert(xs@.take(i + 1).drop_last() =~= xs@.take(i as int));
                        assert(ys@.take(i + 1).drop_last() =~= ys@.take(i as int));
                    }
                    if !crate::text::str_eq(xs[i].0.as_str(), ys[i].0.as_str()) || !json_eq(&xs[i].1, &ys[i].1) {
                        proof {
                            lemma_fields_data_at(xs@, i as int);
                            lemma_fields_data_at(ys@, i as int);
                        }
                        return false;
                    }
                    i = i + 1;
                }
                assert(xs@.take(xs@.len() as int) =~= xs@);
                assert(ys@.take(ys@.len() as int) =~= ys@);
                true
            },
            _ => false,
        },
    }
}

/// The value of the first field named `key`.
pub open spec fn field_of(fields: Seq<(String, JsonValue)>, key: Seq<char>) -> Option<JsonValue>
    decreases fields.len(),
{
    if fields.len() == 0 {
        None
    } else if fields[0].0@ == key {
        Some(fields[0].1)
    } else {
        field_of(fields.drop_first(), key)
    }
}

/// The value of field `key` of an object (`Value::get` on an object).
pub fn object_get<'a>(fields: &'a Vec<(String, JsonValue)>, key: &str) -> (r: Option<&'a JsonValue>)
    ensures
        match field_of(fields@, key@) {
            Some(v) => r matches Some(x) && *x == v,
            None => r is None,
        },
{
    let mut i: usize = 0;
    assert(fields@.skip(0) =~= fields@);
    while i < fields.len()
        invariant
            i <= fields@.len(),
            field_of(fields@.skip(i as int), key@) == field_of(fields@, key@),
        decreases fields@.len() - i,
    {
        assert(fields@.skip(i as int)[0] == fields@[i as int]);
        if crate::text::str_eq(fields[i].0.as_str(), key) {
            return Some(&fields[i].1);
        }
        assert(fields@.skip(i as int).drop_first() =~= fields@.skip(i + 1));
        i = i + 1;
    }
    None
}

/// The view of a list has the same length, and holds the view of each item.
pub proof fn lemma_items_data_ext(xs: Seq<JsonValue>)
    ensures
        items_data(xs).len() == xs.len(),
        forall|i: int| 0 <= i < xs.len() ==> #[trigger] items_data(xs)[i] == json_data(xs[i]),
{
    lemma_items_data_len(xs);
    assert forall|i: int| 0 <= i < xs.len() implies #[trigger] items_data(xs)[i] == json_data(xs[i]) by {
        lemma_items_data_at(xs, i);
    }
}

/// The view of a field list has the same length, and holds the view of each
/// field.
pub proof fn lemma_fields_data_ext(xs: Seq<(String, JsonValue)>)
    ensures
        fields_data(xs).len() == xs.len(),
        forall|i: int| 0 <= i < xs.len() ==> #[trigger] fields_data(xs)[i] == (xs[i].0@, json_data(xs[i].1)),
{
    lemma_fields_data_len(xs);
    assert forall|i: int| 0 <= i < xs.len() implies #[trigger] fields_data(xs)[i] == (xs[i].0@, json_data(xs[i].1)) by {
        lemma_fields_data_at(xs, i);
    }
}

/// A copy of a list of JSON values.
pub fn clone_items(items: &Vec<JsonValue>) -> (r: Vec<JsonValue>)
    ensures
        items_data(r@) == items_data(items@),
{
    let mut out: Vec<JsonValue> = Vec::new();
    let mut i: usize = 0;
    while i < items.len()
        invariant
            i <= items@.len(),
            items_data(out@) == items_data(items@.take(i as int)),
        decreases items@.len() - i,
    {
        let ghost before = out@;
        out.push(json_clone(&items[i]));
        proof {
            assert(out@.drop_last() =~= before);
            assert(items@.take(i + 1).drop_last() =~= items@.take(i as int));
        }
        i = i + 1;
    }
    assert(items@.take(items@.len() as int) =~= items@);
    out
}

/// The value of the first field named `key`, on views.
pub open spec fn data_field(fields: Seq<(Seq<char>, JsonData)>, key: Seq<char>) -> Option<JsonData>
    decreases fields.len(),
{
    if fields.len() == 0 {
        None
    } else if fields[0].0 == key {
        Some(fields[0].1)
    } else {
        data_field(fields.drop_first(), key)
    }
}

/// A value is an object whose field `field` is `value`.
pub open spec fn has_field_value(d: JsonData, field: Seq<char>, value: JsonData) -> bool {
    d matches JsonData::Object(fs) && data_field(fs, field) == Some(value)
}

/// Looking a field up commutes with taking views.
pub proof fn lemma_field_of_data(fields: Seq<(String, JsonValue)>, key: Seq<char>)
    ensures
        data_field(fields_data(fields), key) == match field_of(fields, key) {
            Some(v) => Some(json_data(v)),
            None => None,
        },
    decreases fields.len(),
{
    lemma_fields_data_ext(fields);
    if fields.len() > 0 {
        lemma_fields_data_ext(fields.drop_first());
        assert(fields_data(fields).drop_first() =~= fields_data(fields.drop_first()));
        lemma_field_of_data(fields.drop_first(), key);
    }
}

/// Whether a value is an object whose field `field` equals `value`.
pub fn has_field_equal(item: &JsonValue, field: &str, value: &JsonValue) -> (b: bool)
    ensures
        b == has_field_value(json_data(*item), field@, json_data(*value)),
{
    match item {
        JsonValue::Object(fields) => {
            proof {
                lemma_field_of_data(fields@, field@);
            }
            match object_get(fields, field) {
                Some(x) => json_eq(x, value),
                None => false,
            }
        },
        _ => false,
    }
}

/// A lower-case hexadecimal digit.
pub open spec fn hex_digit_lower(d: nat) -> char {
    if d < 10 { (('0' as u32) + d) as char } else { (('a' as u32) + d - 10) as char }
}

/// How a character is written inside a JSON string: `"` and `\` escaped, the
/// control characters below U+0020 as `\b`, `\t`, `\n`, `\f`, `\r` or
/// `\u00XX`, every other character as itself.
pub open spec fn escaped_char(c: char) -> Seq<char> {
    if c == '"' {
        seq!['\\', '"']
    } else if c == '\\' {
        seq!['\\', '\\']
    } else if c == '\x08' {
        seq!['\\', 'b']
    } else if c == '\t' {
        seq!['\\', 't']
    } else if c == '\n' {
        seq!['\\', 'n']
    } else if c == '\x0C' {
        seq!['\\', 'f']
    } else if c == '\r' {
        seq!['\\', 'r']
    } else if (c as u32) < 0x20 {
        seq!['\\', 'u', '0', '0', hex_digit_lower(((c as u32) / 16) as nat), hex_digit_lower(((c as u32) % 16) as nat)]
    } else {
        seq![c]
    }
}

/// The characters of a string written inside a JSON string.
pub open spec fn escaped(s: Seq<char>) -> Seq<char>
    decreases s.len(),
{
    if s.len() == 0 {
        Seq::empty()
    } else {
        escaped(s.drop_last()) + escaped_char(s.last())
    }
}

/// A string written as a JSON string literal.
pub open spec fn json_string_literal(s: Seq<char>) -> Seq<char> {
    seq!['"'] + escaped(s) + seq!['"']
}

/// `serde_json::to_string` of a string: the JSON string literal, escaping as
/// serde_json's writer does (its escape table covers `"`, `\\` and the
/// characters below U+0020, with lower-case hexadecimal digits). Serializing
/// a string cannot fail.
#[verifier::external_body]
pub(crate) fn json_quote(s: &str) -> (r: String)
    ensures
        r@ == json_string_literal(s@),
{
    serde_json::to_string(s).unwrap()
}

#[verifier::external_type_specification]
#[verifier::external_body]
pub struct ExSerdeJsonValue(serde_json::Value);

/// A serde_json value as a [`JsonValue`]: numbers by their `to_string` text,
/// object members in the map's order (sorted by key).
#[verifier::external_body]
fn from_serde_value(v: &serde_json::Value) -> JsonValue {
    match v {
        serde_json::Value::Null => JsonValue::Null,
        serde_json::Value::Bool(b) => JsonValue::Bool(*b),
        serde_json::Value::Number(n) => JsonValue::Number(n.to_string()),
        serde_json::Value::String(s) => JsonValue::Str(s.clone()),
        serde_json::Value::Array(a) => JsonValue::Array(a.iter().map(from_serde_value).collect()),
        serde_json::Value::Object(m) => JsonValue::Object(m.iter().map(|(k, x)| (k.clone(), from_serde_value(x))).collect()),
    }
}

/// A [`JsonValue`] as a serde_json value: numbers from their text (`null`
/// for a text that is not a JSON number), object members inserted in order.
#[verifier::external_body]
pub(crate) fn to_serde_value(v: &JsonValue) -> serde_json::Value {
    match v {
        JsonValue::Null => serde_json::Value::Null,
        JsonValue::Bool(b) => serde_json::Value::Bool(*b),
        JsonValue::Number(n) => n.parse::<serde_json::Number>().map(serde_json::Value::Number).unwrap_or(serde_json::Value::Null),
        JsonValue::Str(s) => serde_json::Value::String(s.clone()),
        JsonValue::Array(a) => serde_json::Value::Array(a.iter().map(to_serde_value).collect()),
        JsonValue::Object(m) => serde_json::Value::Object(m.iter().map(|(k, x)| (k.clone(), to_serde_value(x))).collect()),
    }
}

/// What parsing a JSON text gives: the value, or serde_json's message.
pub uninterp spec fn json_parsed(text: Seq<char>) -> Result<JsonData, Seq<char>>;

/// `serde_json::from_str` into a `serde_json::Value`: the value of a JSON
/// text, or the parser's error message. The outcome depends on the text
/// alone.
#[verifier::external_body]
pub(crate) fn parse_json(text: &str) -> (r: Result<JsonValue, String>)
    ensures
        match r {
            Ok(v) => json_parsed(text@) == Ok::<JsonData, Seq<char>>(json_data(v)),
            Err(e) => json_parsed(text@) == Err::<JsonData, Seq<char>>(e@),
        },
{
    serde_json::from_str::<serde_json::Value>(text).map(|v| from_serde_value(&v)).map_err(|e| e.to_string())
}

/// What parsing a YAML text into a JSON value gives: the value, or
/// serde_yaml's message.
pub uninterp spec fn yaml_parsed(text: Seq<char>) -> Result<JsonData, Seq<char>>;

/// `serde_yaml::from_str` into a `serde_json::Value`: the value of a YAML
/// text, or the parser's error message. The outcome depends on the text
/// alone.
#[verifier::external_body]
pub(crate) fn parse_yaml(text: &str) -> (r: Result<JsonValue, String>)
    ensures
        match r {
            Ok(v) => yaml_parsed(text@) == Ok::<JsonData, Seq<char>>(json_data(v)),
            Err(e) => yaml_parsed(text@) == Err::<JsonData, Seq<char>>(e@),
        },
{
    serde_yaml::from_str::<serde_json::Value>(text).map(|v| from_serde_value(&v)).map_err(|e| e.to_string())
}

/// Sets `key` to `value` in an object whose keys are kept in order, as a
/// `serde_json::Map` does: the value replaces that of an equal key, or goes
/// in before the first key that does not come before it.
pub open spec fn sorted_insert(fields: Seq<(Seq<char>, JsonData)>, key: Seq<char>, value: JsonData)
    -> Seq<(Seq<char>, JsonData)>
    decreases fields.len(),
{
    if fields.len() == 0 {
        seq![(key, value)]
    } else if fields[0].0 == key {
        seq![(key, value)] + fields.drop_first()
    } else if crate::text::seq_lt(fields[0].0, key) {
        seq![fields[0]] + sorted_insert(fields.drop_first(), key, value)
    } else {
        seq![(key, value)] + fields
    }
}

proof fn lemma_sorted_insert_skip(fields: Seq<(Seq<char>, JsonData)>, key: Seq<char>, value: JsonData, j: int)
    requires
        0 <= j < fields.len(),
        fields[j].0 != key,
        crate::text::seq_lt(fields[j].0, key),
    ensures
        sorted_insert(fields.skip(j), key, value) == seq![fields[j]] + sorted_insert(fields.skip(j + 1), key, value),
{
    assert(fields.skip(j)[0] == fields[j]);
    assert(fields.skip(j).drop_first() =~= fields.skip(j + 1));
}

/// Sets field `key` to `value`, keeping the keys in order.
pub fn insert_sorted_field(fields: &mut Vec<(String, JsonValue)>, key: String, value: JsonValue)
    ensures
        fields_data(final(fields)@) == sorted_insert(fields_data(old(fields)@), key@, json_data(value)),
{
    let ghost fd = fields_data(fields@);
    let ghost d = json_data(value);
    proof {
        lemma_fields_data_ext(fields@);
        assert(fd.skip(0) =~= fd);
        assert(fd.take(0) =~= Seq::<(Seq<char>, JsonData)>::empty());
    }
    let mut j: usize = 0;
    while j < fields.len() && !crate::text::str_eq(fields[j].0.as_str(), key.as_str())
        && crate::text::str_lt(fields[j].0.as_str(), key.as_str())
        invariant
            j <= fields@.len(),
            fd == fields_data(fields@),
            fd.len() == fields@.len(),
            forall|i: int| 0 <= i < fields@.len() ==> #[trigger] fd[i] == (fields@[i].0@, json_data(fields@[i].1)),
            sorted_insert(fd, key@, d) == fd.take(j as int) + sorted_insert(fd.skip(j as int), key@, d),
        decreases fields@.len() - j,
    {
        proof {
            lemma_sorted_insert_skip(fd, key@, d, j as int);
            assert(fd.take(j + 1) =~= fd.take(j as int).push(fd[j as int]));
            assert(fd.take(j as int) + (seq![fd[j as int]] + sorted_insert(fd.skip(j + 1), key@, d))
                =~= fd.take(j + 1) + sorted_insert(fd.skip(j + 1), key@, d));
        }
        j = j + 1;
    }
    let ghost k = key@;
    if j < fields.len() && crate::text::str_eq(fields[j].0.as_str(), key.as_str()) {
        proof {
            assert(fd.skip(j as int)[0] == fd[j as int]);
            assert(fd.skip(j as int).drop_first() =~= fd.skip(j + 1));
        }
        fields.set(j, (key, value));
        proof {
            lemma_fields_data_ext(fields@);
            assert(fields_data(fields@) =~= fd.take(j as int) + (seq![(k, d)] + fd.skip(j + 1)));
        }
    } else {
        proof {
            if j < fd.len() {
                assert(fd.skip(j as int)[0] == fd[j as int]);
            } else {
                assert(fd.skip(j as int) =~= Seq::<(Seq<char>, JsonData)>::empty());
            }
        }
        fields.insert(j, (key, value));
        proof {
            lemma_fields_data_ext(fields@);
            if j < fd.len() {
                assert(fields_data(fields@) =~= fd.take(j as int) + (seq![(k, d)] + fd.skip(j as int)));
            } else {
                assert(fields_data(fields@) =~= fd.take(j as int) + seq![(k, d)]);
            }
        }
    }
}

/// A member of an object by key (`Value::get`): nothing for other values.
pub open spec fn member(d: JsonData, key: Seq<char>) -> Option<JsonData> {
    match d {
        JsonData::Object(fs) => data_field(fs, key),
        _ => None,
    }
}

/// The text of a string value (`Value::as_str`).
pub open spec fn str_of(d: Option<JsonData>) -> Option<Seq<char>> {
    match d {
        Some(JsonData::Str(s)) => Some(s),
        _ => None,
    }
}

/// The items of an array value (`Value::as_array`).
pub open spec fn array_of(d: Option<JsonData>) -> Option<Seq<JsonData>> {
    match d {
        Some(JsonData::Array(xs)) => Some(xs),
        _ => None,
    }
}

/// A value as serde_json's compact writer (`to_string`) writes it.
pub open spec fn compact(d: JsonData) -> Seq<char>
    decreases d,
{
    match d {
        JsonData::Null => "null"@,
        JsonData::Bool(b) => if b { "true"@ } else { "false"@ },
        JsonData::Number(t) => t,
        JsonData::Str(s) => json_string_literal(s),
        JsonData::Array(xs) => "["@ + compact_items(xs) + "]"@,
        JsonData::Object(fs) => "{"@ + compact_members(fs) + "}"@,
    }
}

/// The items of a list, written compactly and separated by commas.
pub open spec fn compact_items(xs: Seq<JsonData>) -> Seq<char>
    decreases xs,
{
    if xs.len() == 0 {
        Seq::empty()
    } else {
        proof {
            assert(xs.drop_last() == xs.subrange(0, xs.len() - 1));
            assert(decreases_to!(xs => xs.subrange(0, xs.len() - 1)));
            assert(decreases_to!(xs => xs[xs.len() - 1]));
        }
        compact_items(xs.drop_last()) + (if xs.len() == 1 { Seq::empty() } else { ","@ }) + compact(xs.last())
    }
}

/// The members of an object, written compactly and separated by commas.
pub open spec fn compact_members(fs: Seq<(Seq<char>, JsonData)>) -> Seq<char>
    decreases fs,
{
    if fs.len() == 0 {
        Seq::empty()
    } else {
        proof {
            assert(fs.drop_last() == fs.subrange(0, fs.len() - 1));
            assert(decreases_to!(fs => fs.subrange(0, fs.len() - 1)));
            assert(decreases_to!(fs => fs[fs.len() - 1]));
            assert(decreases_to!(fs[fs.len() - 1] => fs[fs.len() - 1].1));
        }
        compact_members(fs.drop_last()) + (if fs.len() == 1 { Seq::empty() } else { ","@ })
            + json_string_literal(fs.last().0) + ":"@ + compact(fs.last().1)
    }
}

/// Writes a value as serde_json's compact writer does.
pub fn write_compact(out: &mut String, v: &JsonValue)
    ensures
        final(out)@ == old(out)@ + compact(json_data(*v)),
    decreases v,
{
    match v {
        JsonValue::Null => out.append("null"),
        JsonValue::Bool(b) => if *b { out.append("true") } else { out.append("false") },
        JsonValue::Number(t) => out.append(t.as_str()),
        JsonValue::Str(x) => {
            let q = json_quote(x.as_str());
            out.append(q.as_str());
        },
        JsonValue::Array(xs) => {
            proof {
                lemma_items_data_ext(xs@);
            }
            let ghost start = out@;
            out.append("[");
            assert(decreases_to!(*v => *xs));
            write_compact_items(out, xs);
            out.append("]");
            assert(out@ =~= start + compact(json_data(*v)));
        },
        JsonValue::Object(fs) => {
            proof {
                lemma_fields_data_ext(fs@);
            }
            let ghost start = out@;
            out.append("{");
            assert(decreases_to!(*v => *fs));
            write_compact_members(out, fs);
            out.append("}");
            assert(out@ =~= start + compact(json_data(*v)));
        },
    }
}

fn write_compact_items(out: &mut String, xs: &Vec<JsonValue>)
    ensures
        final(out)@ == old(out)@ + compact_items(items_data(xs@)),
    decreases xs,
{
    proof {
        lemma_items_data_ext(xs@);
    }
    let ghost start = out@;
    let ghost xd = items_data(xs@);
    let mut i: usize = 0;
    assert(xd.take(0) =~= Seq::<JsonData>::empty());
    while i < xs.len()
        invariant
            i <= xs@.len(),
            xd == items_data(xs@),
            xd.len() == xs@.len(),
            forall|j: int| 0 <= j < xs@.len() ==> #[trigger] xd[j] == json_data(xs@[j]),
            out@ == start + compact_items(xd.take(i as int)),
        decreases xs@.len() - i,
    {
        proof {
            assert(xd.take(i + 1).drop_last() =~= xd.take(i as int));
            assert(xd.take(i + 1).last() == json_data(xs@[i as int]));
        }
        if i > 0 {
            out.append(",");
        }
        assert(decreases_to!(*xs => xs@));
        assert(decreases_to!(xs@ => xs@[i as int]));
        write_compact(out, &xs[i]);
        assert(out@ =~= start + compact_items(xd.take(i + 1)));
        i = i + 1;
    }
    assert(xd.take(xs@.len() as int) =~= xd);
}

fn write_compact_members(out: &mut String, fs: &Vec<(String, JsonValue)>)
    ensures
        final(out)@ == old(out)@ + compact_members(fields_data(fs@)),
    decreases fs,
{
    proof {
        lemma_fields_data_ext(fs@);
    }
    let ghost start = out@;
    let ghost fd = fields_data(fs@);
    let mut i: usize = 0;
    assert(fd.take(0) =~= Seq::<(Seq<char>, JsonData)>::empty());
    while i < fs.len()
        invariant
            i <= fs@.len(),
            fd == fields_data(fs@),
            fd.len() == fs@.len(),
            forall|j: int| 0 <= j < fs@.len() ==> #[trigger] fd[j] == (fs@[j].0@, json_data(fs@[j].1)),
            out@ == start + compact_members(fd.take(i as int)),
        decreases fs@.len() - i,
    {
        proof {
            assert(fd.take(i + 1).drop_last() =~= fd.take(i as int));
            assert(fd.take(i + 1).last() == fd[i as int]);
        }
        if i > 0 {
            out.append(",");
        }
        let q = json_quote(fs[i].0.as_str());
        out.append(q.as_str());
        out.append(":");
        assert(decreases_to!(*fs => fs@));
        assert(decreases_to!(fs@ => fs@[i as int]));
        assert(decreases_to!(fs@[i as int] => fs@[i as int].1));
        write_compact(out, &fs[i].1);
        assert(out@ =~= start + compact_members(fd.take(i + 1)));
        i = i + 1;
    }
    assert(fd.take(fs@.len() as int) =~= fd);
}

/// A value as JSON text, as `serde_json::to_string` writes it.
pub fn to_json_string(v: &JsonValue) -> (r: String)
    ensures
        r@ == compact(json_data(*v)),
{
    let mut out = String::new();
    write_compact(&mut out, v);
    out
}

/// A value found by key lies inside the fields.
proof fn lemma_field_of_inside(fields: Seq<(String, JsonValue)>, key: Seq<char>)
    ensures
        field_of(fields, key) matches Some(x) ==> decreases_to!(fields => x),
    decreases fields.len(),
{
    if fields.len() > 0 {
        assert(decreases_to!(fields => fields[0]));
        assert(decreases_to!(fields[0] => fields[0].1));
        if fields[0].0@ != key {
            lemma_field_of_inside(fields.drop_first(), key);
            assert(fields.drop_first() == fields.subrange(1, fields.len() as int));
            assert(decreases_to!(fields => fields.subrange(1, fields.len() as int)));
        }
    }
}

/// A member of an object by key (`Value::get`).
pub fn get_member<'a>(v: &'a JsonValue, key: &str) -> (r: Option<&'a JsonValue>)
    ensures
        match r {
            Some(x) => member(json_data(*v), key@) == Some(json_data(*x)) && decreases_to!(*v => *x),
            None => member(json_data(*v), key@) is None,
        },
{
    match v {
        JsonValue::Object(fs) => {
            proof {
                lemma_field_of_data(fs@, key@);
                lemma_field_of_inside(fs@, key@);
                assert(decreases_to!(*v => *fs));
                assert(decreases_to!(*fs => fs@));
            }
            object_get(fs, key)
        },
        _ => None,
    }
}

/// Adds a member at the end of an object's members.
pub fn push_field(fields: &mut Vec<(String, JsonValue)>, key: &str, value: JsonValue)
    ensures
        fields_data(final(fields)@) == fields_data(old(fields)@).push((key@, json_data(value))),
{
    let ghost before = fields@;
    fields.push((String::from_str(key), value));
    assert(fields@.drop_last() =~= before);
}

/// Adds an item at the end of an array's items.
pub fn push_item(items: &mut Vec<JsonValue>, value: JsonValue)
    ensures
        items_data(final(items)@) == items_data(old(items)@).push(json_data(value)),
{
    let ghost before = items@;
    items.push(value);
    assert(items@.drop_last() =~= before);
}

/// Two spaces per level of nesting.
pub open spec fn indentation(level: nat) -> Seq<char> {
    Seq::new(2 * level, |i: int| ' ')
}

/// A value written as serde_json's pretty printer writes it at nesting
/// `level`: scalars as in compact form, empty lists and objects as `[]` and
/// `{}`, others with one item or member per line, indented by two spaces
/// per level, members written as key, `: ` and value.
pub open spec fn pretty(d: JsonData, level: nat) -> Seq<char>
    decreases d,
{
    match d {
        JsonData::Null => "null"@,
        JsonData::Bool(b) => if b { "true"@ } else { "false"@ },
        JsonData::Number(t) => t,
        JsonData::Str(s) => json_string_literal(s),
        JsonData::Array(xs) => if xs.len() == 0 {
            "[]"@
        } else {
            "["@ + pretty_items(xs, level) + "\n"@ + indentation(level) + "]"@
        },
        JsonData::Object(fs) => if fs.len() == 0 {
            "{}"@
        } else {
            "{"@ + pretty_members(fs, level) + "\n"@ + indentation(level) + "}"@
        },
    }
}

/// The items of a list, each on a line of its own.
pub open spec fn pretty_items(xs: Seq<JsonData>, level: nat) -> Seq<char>
    decreases xs,
{
    if xs.len() == 0 {
        Seq::empty()
    } else {
        proof {
            assert(xs.drop_last() == xs.subrange(0, xs.len() - 1));
            assert(decreases_to!(xs => xs.subrange(0, xs.len() - 1)));
            assert(decreases_to!(xs => xs[xs.len() - 1]));
        }
        pretty_items(xs.drop_last(), level) + (if xs.len() == 1 { "\n"@ } else { ",\n"@ })
            + indentation(level + 1) + pretty(xs.last(), level + 1)
    }
}

/// The members of an object, each on a line of its own.
pub open spec fn pretty_members(fs: Seq<(Seq<char>, JsonData)>, level: nat) -> Seq<char>
    decreases fs,
{
    if fs.len() == 0 {
        Seq::empty()
    } else {
        proof {
            assert(fs.drop_last() == fs.subrange(0, fs.len() - 1));
            assert(decreases_to!(fs => fs.subrange(0, fs.len() - 1)));
            assert(decreases_to!(fs => fs[fs.len() - 1]));
            assert(decreases_to!(fs[fs.len() - 1] => fs[fs.len() - 1].1));
        }
        pretty_members(fs.drop_last(), level) + (if fs.len() == 1 { "\n"@ } else { ",\n"@ })
            + indentation(level + 1) + json_string_literal(fs.last().0) + ": "@ + pretty(fs.last().1, level + 1)
    }
}

/// Writes a value as serde_json's pretty printer does, at the nesting
/// `level` whose indentation is `indent`.
pub fn write_pretty(out: &mut String, v: &JsonValue, indent: &str, Ghost(level): Ghost<nat>)
    requires
        indent@ == indentation(level),
    ensures
        final(out)@ == old(out)@ + pretty(json_data(*v), level),
    decreases v,
{
    match v {
        JsonValue::Null => out.append("null"),
        JsonValue::Bool(b) => if *b { out.append("true") } else { out.append("false") },
        JsonValue::Number(t) => out.append(t.as_str()),
        JsonValue::Str(x) => {
            let q = json_quote(x.as_str());
            out.append(q.as_str());
        },
        JsonValue::Array(xs) => {
            proof {
                lemma_items_data_ext(xs@);
            }
            if xs.len() == 0 {
                out.append("[]");
            } else {
                let ghost start = out@;
                out.append("[");
                assert(decreases_to!(*v => *xs));
                write_pretty_items(out, xs, indent, Ghost(level));
                out.append("\n");
                out.append(indent);
                out.append("]");
                assert(out@ =~= start + pretty(json_data(*v), level));
            }
        },
        JsonValue::Object(fs) => {
            proof {
                lemma_fields_data_ext(fs@);
            }
            if fs.len() == 0 {
                out.append("{}");
            } else {
                let ghost start = out@;
                out.append("{");
                assert(decreases_to!(*v => *fs));
                write_pretty_members(out, fs, indent, Ghost(level));
                out.append("\n");
                out.append(indent);
                out.append("}");
                assert(out@ =~= start + pretty(json_data(*v), level));
            }
        },
    }
}

fn write_pretty_items(out: &mut String, xs: &Vec<JsonValue>, indent: &str, Ghost(level): Ghost<nat>)
    requires
        indent@ == indentation(level),
    ensures
        final(out)@ == old(out)@ + pretty_items(items_data(xs@), level),
    decreases xs,
{
    let deeper = crate::text::concat2(indent, "  ");
    proof {
        reveal_strlit("  ");
        assert(deeper@ =~= indentation(level + 1));
        lemma_items_data_ext(xs@);
    }
    let ghost start = out@;
    let ghost xd = items_data(xs@);
    let mut i: usize = 0;
    assert(xd.take(0) =~= Seq::<JsonData>::empty());
    while i < xs.len()
        invariant
            i <= xs@.len(),
            deeper@ == indentation(level + 1),
            xd == items_data(xs@),
            xd.len() == xs@.len(),
            forall|j: int| 0 <= j < xs@.len() ==> #[trigger] xd[j] == json_data(xs@[j]),
            out@ == start + pretty_items(xd.take(i as int), level),
        decreases xs@.len() - i,
    {
        proof {
            assert(xd.take(i + 1).drop_last() =~= xd.take(i as int));
            assert(xd.take(i + 1).last() == json_data(xs@[i as int]));
        }
        if i == 0 { out.append("\n"); } else { out.append(",\n"); }
        out.append(deeper.as_str());
        assert(decreases_to!(*xs => xs@));
        assert(decreases_to!(xs@ => xs@[i as int]));
        write_pretty(out, &xs[i], deeper.as_str(), Ghost(level + 1));
        assert(out@ =~= start + pretty_items(xd.take(i + 1), level));
        i = i + 1;
    }
    assert(xd.take(xs@.len() as int) =~= xd);
}

fn write_pretty_members(out: &mut String, fs: &Vec<(String, JsonValue)>, indent: &str, Ghost(level): Ghost<nat>)
    requires
        indent@ == indentation(level),
    ensures
        final(out)@ == old(out)@ + pretty_members(fields_data(fs@), level),
    decreases fs,
{
    let deeper = crate::text::concat2(indent, "  ");
    proof {
        reveal_strlit("  ");
        assert(deeper@ =~= indentation(level + 1));
        lemma_fields_data_ext(fs@);
    }
    let ghost start = out@;
    let ghost fd = fields_data(fs@);
    let mut i: usize = 0;
    assert(fd.take(0) =~= Seq::<(Seq<char>, JsonData)>::empty());
    while i < fs.len()
        invariant
            i <= fs@.len(),
            deeper@ == indentation(level + 1),
            fd == fields_data(fs@),
            fd.len() == fs@.len(),
            forall|j: int| 0 <= j < fs@.len() ==> #[trigger] fd[j] == (fs@[j].0@, json_data(fs@[j].1)),
            out@ == start + pretty_members(fd.take(i as int), level),
        decreases fs@.len() - i,
    {
        proof {
            assert(fd.take(i + 1).drop_last() =~= fd.take(i as int));
            assert(fd.take(i + 1).last() == fd[i as int]);
        }
        if i == 0 { out.append("\n"); } else { out.append(",\n"); }
        out.append(deeper.as_str());
        let q = json_quote(fs[i].0.as_str());
        out.append(q.as_str());
        out.append(": ");
        assert(decreases_to!(*fs => fs@));
        assert(decreases_to!(fs@ => fs@[i as int]));
        assert(decreases_to!(fs@[i as int] => fs@[i as int].1));
        write_pretty(out, &fs[i].1, deeper.as_str(), Ghost(level + 1));
        assert(out@ =~= start + pretty_members(fd.take(i + 1), level));
        i = i + 1;
    }
    assert(fd.take(fs@.len() as int) =~= fd);
}

/// A value found by key lies inside the fields.
pub proof fn lemma_data_field_inside(fields: Seq<(Seq<char>, JsonData)>, key: Seq<char>)
    ensures
        data_field(fields, key) matches Some(x) ==> decreases_to!(fields => x),
    decreases fields.len(),
{
    if fields.len() > 0 {
        assert(decreases_to!(fields => fields[0]));
        assert(decreases_to!(fields[0] => fields[0].1));
        if fields[0].0 != key {
            lemma_data_field_inside(fields.drop_first(), key);
            assert(fields.drop_first() == fields.subrange(1, fields.len() as int));
            assert(decreases_to!(fields => fields.subrange(1, fields.len() as int)));
        }
    }
}

/// A member lies inside its object.
pub proof fn lemma_member_inside(d: JsonData, key: Seq<char>)
    ensures
        member(d, key) matches Some(x) ==> decreases_to!(d => x),
{
    match d {
        JsonData::Object(fs) => {
            lemma_data_field_inside(fs, key);
        },
        _ => {},
    }
}

/// The text of a string member (`Value::get` and `as_str`).
pub fn str_member<'a>(v: &'a JsonValue, key: &str) -> (r: Option<&'a String>)
    ensures
        match r {
            Some(x) => str_of(member(json_data(*v), key@)) == Some(x@),
            None => str_of(member(json_data(*v), key@)) is None,
        },
{
    match get_member(v, key) {
        Some(x) => match x {
            JsonValue::Str(t) => Some(t),
            _ => None,
        },
        None => None,
    }
}

/// The items of a list member (`Value::get` and `as_array`).
pub fn array_member<'a>(v: &'a JsonValue, key: &str) -> (r: Option<&'a Vec<JsonValue>>)
    ensures
        match r {
            Some(xs) => array_of(member(json_data(*v), key@)) == Some(items_data(xs@)) && decreases_to!(*v => *xs),
            None => array_of(member(json_data(*v), key@)) is None,
        },
{
    match get_member(v, key) {
        Some(x) => match x {
            JsonValue::Array(xs) => {
                assert(decreases_to!(*x => *xs));
                Some(xs)
            },
            _ => None,
        },
        None => None,
    }
}

} // verus!
