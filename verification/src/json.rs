//! A model of JSON documents: an executable value type, the mathematical
//! value it stands for, and the bridge to `serde_json` for reading and
//! writing bytes.
use vstd::prelude::*;
use vstd::string::*;

verus! {

/// A JSON value as the specifications see it.
pub enum Json {
    Null,
    Bool(bool),
    /// A number, held by its decimal text.
    Number(Seq<char>),
    Str(Seq<char>),
    Array(Seq<Json>),
    Object(Seq<(Seq<char>, Json)>),
}

/// A JSON value.
#[derive(Debug)]
pub enum JsonValue {
    Null,
    Bool(bool),
    /// A number, held by its decimal text.
    Number(String),
    Str(String),
    Array(Vec<JsonValue>),
    /// The members of an object, in order; a key occurs at most once.
    Object(Vec<(String, JsonValue)>),
}

pub open spec fn view_items(s: Seq<JsonValue>) -> Seq<Json>
    decreases s,
{
    if s.len() == 0 {
        Seq::empty()
    } else {
        view_items(s.subrange(0, s.len() - 1)).push(view_json(s[s.len() - 1]))
    }
}

pub open spec fn view_fields(s: Seq<(String, JsonValue)>) -> Seq<(Seq<char>, Json)>
    decreases s,
{
    if s.len() == 0 {
        Seq::empty()
    } else {
        view_fields(s.subrange(0, s.len() - 1)).push(
            (s[s.len() - 1].0@, view_json(s[s.len() - 1].1)),
        )
    }
}

pub open spec fn view_json(v: JsonValue) -> Json
    decreases v,
{
    match v {
        JsonValue::Null => Json::Null,
        JsonValue::Bool(b) => Json::Bool(b),
        JsonValue::Number(n) => Json::Number(n@),
        JsonValue::Str(s) => Json::Str(s@),
        JsonValue::Array(items) => Json::Array(view_items(items@)),
        JsonValue::Object(fields) => Json::Object(view_fields(fields@)),
    }
}

impl View for JsonValue {
    type V = Json;

    open spec fn view(&self) -> Json {
        view_json(*self)
    }
}

pub proof fn lemma_view_items(s: Seq<JsonValue>)
    ensures
        view_items(s).len() == s.len(),
        forall|i: int| 0 <= i < s.len() ==> #[trigger] view_items(s)[i] == s[i]@,
    decreases s.len(),
{
    if s.len() > 0 {
        lemma_view_items(s.subrange(0, s.len() - 1));
    }
}

pub proof fn lemma_view_fields(s: Seq<(String, JsonValue)>)
    ensures
        view_fields(s).len() == s.len(),
        forall|i: int|
            0 <= i < s.len() ==> #[trigger] view_fields(s)[i] == (s[i].0@, s[i].1@),
    decreases s.len(),
{
    if s.len() > 0 {
        lemma_view_fields(s.subrange(0, s.len() - 1));
    }
}

pub proof fn lemma_view_items_push(s: Seq<JsonValue>, v: JsonValue)
    ensures
        view_items(s.push(v)) == view_items(s).push(v@),
{
    assert(s.push(v).subrange(0, s.len() as int) =~= s);
}

pub proof fn lemma_view_fields_push(s: Seq<(String, JsonValue)>, f: (String, JsonValue))
    ensures
        view_fields(s.push(f)) == view_fields(s).push((f.0@, f.1@)),
{
    assert(s.push(f).subrange(0, s.len() as int) =~= s);
}

/// The value of the first member of `fields` named `key`.
pub open spec fn find_field(fields: Seq<(Seq<char>, Json)>, key: Seq<char>) -> Option<Json>
    decreases fields.len(),
{
    if fields.len() == 0 {
        None
    } else if fields[0].0 == key {
        Some(fields[0].1)
    } else {
        find_field(fields.drop_first(), key)
    }
}

/// The member `key` of a JSON object; `None` for a value that is not an object.
pub open spec fn json_get(j: Json, key: Seq<char>) -> Option<Json> {
    match j {
        Json::Object(fields) => find_field(fields, key),
        _ => None,
    }
}

/// The text of a JSON string; `None` for any other value.
pub open spec fn json_str(j: Json) -> Option<Seq<char>> {
    match j {
        Json::Str(s) => Some(s),
        _ => None,
    }
}

/// The member `key` of an object, when it is a string.
pub open spec fn json_get_str(j: Json, key: Seq<char>) -> Option<Seq<char>> {
    match json_get(j, key) {
        Some(v) => json_str(v),
        None => None,
    }
}

/// The members of an object after setting `key` to `val`: an existing member
/// keeps its place and takes the new value, a new one goes at the end.
pub open spec fn set_field(fields: Seq<(Seq<char>, Json)>, key: Seq<char>, val: Json) -> Seq<
    (Seq<char>, Json),
>
    decreases fields.len(),
{
    if fields.len() == 0 {
        seq![(key, val)]
    } else if fields[0].0 == key {
        fields.update(0, (key, val))
    } else {
        seq![fields[0]] + set_field(fields.drop_first(), key, val)
    }
}

pub proof fn lemma_find_field_skip(fields: Seq<(Seq<char>, Json)>, key: Seq<char>, i: int)
    requires
        0 <= i < fields.len(),
        fields[i].0 != key,
    ensures
        find_field(fields.skip(i), key) == find_field(fields.skip(i + 1), key),
{
    assert(fields.skip(i).drop_first() =~= fields.skip(i + 1));
}

pub proof fn lemma_set_field_split(fields: Seq<(Seq<char>, Json)>, key: Seq<char>, val: Json, i: int)
    requires
        0 <= i <= fields.len(),
        forall|j: int| 0 <= j < i ==> fields[j].0 != key,
    ensures
        set_field(fields, key, val) == fields.take(i) + set_field(fields.skip(i), key, val),
    decreases i,
{
    if i > 0 {
        lemma_set_field_split(fields.drop_first(), key, val, i - 1);
        assert(fields.drop_first().take(i - 1) =~= fields.take(i).drop_first());
        assert(fields.drop_first().skip(i - 1) =~= fields.skip(i));
        assert(fields.take(i) =~= seq![fields[0]] + fields.take(i).drop_first());
    } else {
        assert(fields.skip(0) =~= fields);
    }
}

/// Reading a member after setting it gives the value set; reading another
/// member gives what it held before.
pub proof fn lemma_get_after_set(fields: Seq<(Seq<char>, Json)>, key: Seq<char>, other: Seq<char>, val: Json)
    ensures
        find_field(set_field(fields, key, val), key) == Some(val),
        other != key ==> find_field(set_field(fields, key, val), other) == find_field(fields, other),
    decreases fields.len(),
{
    reveal_with_fuel(find_field, 2);
    if fields.len() > 0 {
        if fields[0].0 == key {
            assert(set_field(fields, key, val).drop_first() =~= fields.drop_first());
        } else {
            lemma_get_after_set(fields.drop_first(), key, other, val);
            assert((seq![fields[0]] + set_field(fields.drop_first(), key, val)).drop_first() =~= set_field(
                fields.drop_first(),
                key,
                val,
            ));
        }
    }
}

impl JsonValue {
    /// The member `key` of an object; `None` for other values or a missing member.
    pub fn get(&self, key: &str) -> (r: Option<&JsonValue>)
        ensures
            match r {
                Some(v) => json_get(self@, key@) == Some(v@),
                None => json_get(self@, key@) is None,
            },
    {
        match self {
            JsonValue::Object(fields) => {
                let ghost vf = view_fields(fields@);
                proof {
                    lemma_view_fields(fields@);
                    assert(vf.skip(0) =~= vf);
                }
                assert(self@ == Json::Object(vf));
                let mut i: usize = 0;
                while i < fields.len()
                    invariant
                        0 <= i <= fields.len(),
                        vf == view_fields(fields@),
                        self@ == Json::Object(vf),
                        vf.len() == fields.len(),
                        forall|k: int|
                            0 <= k < fields.len() ==> #[trigger] vf[k] == (
                                fields@[k].0@,
                                fields@[k].1@,
                            ),
                        find_field(vf, key@) == find_field(vf.skip(i as int), key@),
                    decreases fields.len() - i,
                {
                    if <str as PartialEq>::eq(fields[i].0.as_str(), key) {
                        assert(vf.skip(i as int)[0] == vf[i as int]);

                        assert(vf[i as int].0 == key@);
                        return Some(&fields[i].1);
                    }
                    proof {
                        lemma_find_field_skip(vf, key@, i as int);
                    }
                    i = i + 1;
                }
                assert(vf.skip(i as int).len() == 0);
                None
            },
            _ => None,
        }
    }

    /// The text of a string value.
    pub fn as_str(&self) -> (r: Option<&str>)
        ensures
            match r {
                Some(s) => json_str(self@) == Some(s@),
                None => json_str(self@) is None,
            },
    {
        match self {
            JsonValue::Str(s) => Some(s.as_str()),
            _ => None,
        }
    }

    /// The value of a boolean.
    pub fn as_bool(&self) -> (r: Option<bool>)
        ensures
            r == (match self@ {
                Json::Bool(b) => Some(b),
                _ => None,
            }),
    {
        match self {
            JsonValue::Bool(b) => Some(*b),
            _ => None,
        }
    }

    /// Sets member `key` of an object to `val`; other values are left as they are.
    pub fn set(&mut self, key: String, val: JsonValue)
        ensures
            match old(self)@ {
                Json::Object(fields) => final(self)@ == Json::Object(set_field(fields, key@, val@)),
                _ => final(self)@ == old(self)@,
            },
    {
        match self {
            JsonValue::Object(fields) => {
                set_member(fields, key, val);
            },
            _ => {},
        }
    }
}

/// Sets member `key` among `fields` to `val`.
pub fn set_member(fields: &mut Vec<(String, JsonValue)>, key: String, val: JsonValue)
    ensures
        view_fields(final(fields)@) == set_field(view_fields(old(fields)@), key@, val@),
{
    let ghost vf0 = view_fields(fields@);
    proof {
        lemma_view_fields(fields@);
    }
    let mut i: usize = 0;
    while i < fields.len()
        invariant
            0 <= i <= fields.len(),
            fields@ == old(fields)@,
            vf0 == view_fields(fields@),
            vf0.len() == fields.len(),
            forall|k: int|
                0 <= k < fields.len() ==> #[trigger] vf0[k] == (fields@[k].0@, fields@[k].1@),
            forall|k: int| 0 <= k < i ==> vf0[k].0 != key@,
        decreases fields.len() - i,
    {
        if <str as PartialEq>::eq(fields[i].0.as_str(), key.as_str()) {
            proof {
                lemma_set_field_split(vf0, key@, val@, i as int);
            }
            let ghost kv = key@;
            let ghost vv = val@;
            fields.set(i, (key, val));
            proof {
                lemma_view_fields(fields@);
                let rest = vf0.skip(i as int);
                assert(rest[0].0 == kv);
                assert(view_fields(fields@) =~= vf0.take(i as int) + set_field(rest, kv, vv));
            }
            return;
        }
        i = i + 1;
    }
    proof {
        lemma_set_field_split(vf0, key@, val@, i as int);
        assert(vf0.skip(i as int).len() == 0);
        assert(vf0.take(i as int) =~= vf0);
        lemma_view_fields_push(fields@, (key, val));
    }
    fields.push((key, val));
}

impl JsonValue {
    /// A copy of this value.
    pub fn deep_copy(&self) -> (r: JsonValue)
        ensures
            r@ == self@,
        decreases self,
    {
        match self {
            JsonValue::Null => JsonValue::Null,
            JsonValue::Bool(b) => JsonValue::Bool(*b),
            JsonValue::Number(n) => JsonValue::Number(n.clone()),
            JsonValue::Str(s) => JsonValue::Str(s.clone()),
            JsonValue::Array(items) => {
                let mut out: Vec<JsonValue> = Vec::new();
                let mut i: usize = 0;
                proof {
                    lemma_view_items(items@);
                }
                while i < items.len()
                    invariant
                        i <= items.len(),
                        *self == JsonValue::Array(*items),
                        view_items(out@) =~= view_items(items@).take(i as int),
                        view_items(items@).len() == items.len(),
                        forall|k: int| 0 <= k < items.len() ==> #[trigger] view_items(items@)[k] == items@[k]@,
                    decreases items.len() - i,
                {
                    assert(decreases_to!(*self => (*self)->Array_0));
                    assert(decreases_to!(*items => items@));
                    assert(decreases_to!(items@ => items@[i as int]));
                    assert(decreases_to!(*self => items@[i as int]));
                    let c = items[i].deep_copy();
                    proof {
                        lemma_view_items_push(out@, c);
                    }
                    out.push(c);
                    assert(view_items(items@).take(i + 1) =~= view_items(items@).take(i as int).push(items@[i as int]@));
                    i = i + 1;
                }
                assert(view_items(items@).take(i as int) =~= view_items(items@));
                JsonValue::Array(out)
            },
            JsonValue::Object(fields) => {
                let mut out: Vec<(String, JsonValue)> = Vec::new();
                let mut i: usize = 0;
                proof {
                    lemma_view_fields(fields@);
                }
                while i < fields.len()
                    invariant
                        i <= fields.len(),
                        *self == JsonValue::Object(*fields),
                        view_fields(out@) =~= view_fields(fields@).take(i as int),
                        view_fields(fields@).len() == fields.len(),
                        forall|k: int| 0 <= k < fields.len() ==> #[trigger] view_fields(fields@)[k] == (fields@[k].0@, fields@[k].1@),
                    decreases fields.len() - i,
                {
                    assert(decreases_to!(*self => (*self)->Object_0));
                    assert(decreases_to!(*fields => fields@));
                    assert(decreases_to!(fields@ => fields@[i as int]));
                    assert(decreases_to!(fields@[i as int] => fields@[i as int].1));
                    assert(decreases_to!(*self => fields@[i as int].1));
                    let c = fields[i].1.deep_copy();
                    let k = fields[i].0.clone();
                    proof {
                        lemma_view_fields_push(out@, (k, c));
                    }
                    out.push((k, c));
                    assert(view_fields(fields@).take(i + 1) =~= view_fields(fields@).take(i as int).push((fields@[i as int].0@, fields@[i as int].1@)));
                    i = i + 1;
                }
                assert(view_fields(fields@).take(i as int) =~= view_fields(fields@));
                JsonValue::Object(out)
            },
        }
    }
}

/// The JSON number of a natural number.
pub open spec fn num_json(n: nat) -> Json {
    Json::Number(crate::text::decimal(n))
}

/// The JSON array of some numbers.
pub open spec fn ids_json(s: Seq<u32>) -> Json {
    Json::Array(s.map_values(|i: u32| num_json(i as nat)))
}

/// The JSON array of some strings.
pub open spec fn strs_json(s: Seq<String>) -> Json {
    Json::Array(s.map_values(|t: String| Json::Str(t@)))
}

/// A JSON number.
pub fn json_number(n: u64) -> (r: JsonValue)
    ensures
        r@ == num_json(n as nat),
{
    JsonValue::Number(crate::text::decimal_string(n))
}

/// The JSON array of some numbers.
pub fn json_ids(ids: &Vec<u32>) -> (r: JsonValue)
    ensures
        r@ == ids_json(ids@),
{
    let mut items: Vec<JsonValue> = Vec::new();
    let mut i: usize = 0;
    while i < ids.len()
        invariant
            i <= ids.len(),
            view_items(items@) =~= ids@.take(i as int).map_values(|k: u32| num_json(k as nat)),
        decreases ids.len() - i,
    {
        let j = json_number(ids[i] as u64);
        proof {
            lemma_view_items_push(items@, j);
        }
        items.push(j);
        assert(ids@.take(i + 1).map_values(|k: u32| num_json(k as nat)) =~= ids@.take(i as int).map_values(
            |k: u32| num_json(k as nat),
        ).push(num_json(ids@[i as int] as nat)));
        i = i + 1;
    }
    assert(ids@.take(i as int) =~= ids@);
    JsonValue::Array(items)
}

/// The JSON array of some strings.
pub fn json_strs(strs: &Vec<String>) -> (r: JsonValue)
    ensures
        r@ == strs_json(strs@),
{
    let mut items: Vec<JsonValue> = Vec::new();
    let mut i: usize = 0;
    while i < strs.len()
        invariant
            i <= strs.len(),
            view_items(items@) =~= strs@.take(i as int).map_values(|t: String| Json::Str(t@)),
        decreases strs.len() - i,
    {
        let j = json_string(strs[i].as_str());
        proof {
            lemma_view_items_push(items@, j);
        }
        items.push(j);
        assert(strs@.take(i + 1).map_values(|t: String| Json::Str(t@)) =~= strs@.take(i as int).map_values(
            |t: String| Json::Str(t@),
        ).push(Json::Str(strs@[i as int]@)));
        i = i + 1;
    }
    assert(strs@.take(i as int) =~= strs@);
    JsonValue::Array(items)
}

/// Appends the member `(key, v)`.
pub fn push_member(fields: &mut Vec<(String, JsonValue)>, key: &str, v: JsonValue)
    ensures
        view_fields(final(fields)@) == view_fields(old(fields)@).push((key@, v@)),
{
    let k = String::from_str(key);
    proof {
        lemma_view_fields_push(fields@, (k, v));
    }
    fields.push((k, v));
}

/// The object `{key: text}`.
pub fn single_member(key: &str, text: String) -> (r: JsonValue)
    ensures
        r@ == Json::Object(seq![(key@, Json::Str(text@))]),
{
    let mut fields: Vec<(String, JsonValue)> = Vec::new();
    push_member(&mut fields, key, JsonValue::Str(text));
    assert(view_fields(fields@) =~= seq![(key@, Json::Str(text@))]);
    JsonValue::Object(fields)
}

/// A JSON string.
pub fn json_string(s: &str) -> (r: JsonValue)
    ensures
        r@ == Json::Str(s@),
{
    JsonValue::Str(String::from_str(s))
}

} // verus!

verus! {

#[verifier::external_type_specification]
#[verifier::external_body]
pub struct ExSerdeJsonValue(serde_json::Value);

/// What `serde_json::from_slice` makes of `bytes`: the value it reads, or the
/// text of its error.
pub uninterp spec fn json_parse(bytes: Seq<u8>) -> Result<Json, Seq<char>>;

/// The bytes that `serde_json::to_vec` writes for a value.
pub uninterp spec fn json_bytes(v: Json) -> Seq<u8>;

/// Takes a `serde_json` value over into the crate's model, member for member;
/// a number keeps the text that `serde_json` displays for it.
#[verifier::external_body]
fn from_serde(v: serde_json::Value) -> JsonValue {
    match v {
        serde_json::Value::Null => JsonValue::Null,
        serde_json::Value::Bool(b) => JsonValue::Bool(b),
        serde_json::Value::Number(n) => JsonValue::Number(n.to_string()),
        serde_json::Value::String(s) => JsonValue::Str(s),
        serde_json::Value::Array(a) => JsonValue::Array(a.into_iter().map(from_serde).collect()),
        serde_json::Value::Object(o) => JsonValue::Object(
            o.into_iter().map(|(k, v)| (k, from_serde(v))).collect(),
        ),
    }
}

/// Takes a value of the crate's model over into a `serde_json` value, member
/// for member; a number's text is read back by `serde_json::Number`'s `FromStr`.
#[verifier::external_body]
pub(crate) fn to_serde(v: &JsonValue) -> serde_json::Value {
    match v {
        JsonValue::Null => serde_json::Value::Null,
        JsonValue::Bool(b) => serde_json::Value::Bool(*b),
        JsonValue::Number(n) => n.parse().map(serde_json::Value::Number).unwrap_or(serde_json::Value::Null),
        JsonValue::Str(s) => serde_json::Value::String(s.clone()),
        JsonValue::Array(a) => serde_json::Value::Array(a.iter().map(to_serde).collect()),
        JsonValue::Object(o) => serde_json::Value::Object(
            o.iter().map(|(k, v)| (k.clone(), to_serde(v))).collect(),
        ),
    }
}

/// Reads a JSON document with `serde_json::from_slice`. The contract claims
/// only that the outcome is a function of the bytes, named `json_parse`: the
/// value read, or the text of the error.
#[verifier::external_body]
pub(crate) fn parse_json(bytes: &[u8]) -> (r: Result<JsonValue, String>)
    ensures
        json_parse(bytes@) == (match r {
            Ok(v) => Ok(v@),
            Err(e) => Err(e@),
        }),
{
    match serde_json::from_slice::<serde_json::Value>(bytes) {
        Ok(v) => Ok(from_serde(v)),
        Err(e) => Err(e.to_string()),
    }
}

/// Writes a value with `serde_json::to_vec`. The contract claims that the
/// bytes written are a function of the value, named `json_bytes`. Writing a
/// `serde_json::Value` into a `Vec` does not fail: its `Serialize` reports no
/// error of its own, every map key is a string, and a `Vec` takes every write.
#[verifier::external_body]
pub(crate) fn write_json(v: &JsonValue) -> (r: Vec<u8>)
    ensures
        r@ == json_bytes(v@),
{
    serde_json::to_vec(&to_serde(v)).expect("a JSON value always serializes")
}

} // verus!
