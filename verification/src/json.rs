//! JSON values as the core reads and builds them.
use crate::text::{same_text, text_of};
use serde_json::Value;
use std::collections::HashMap;
use vstd::prelude::*;

verus! {

/// A JSON number: an integer where it is one, otherwise its text.
#[derive(Debug)]
pub enum JsonNumber {
    Unsigned(u64),
    Negative(i64),
    Other(String),
}

/// One key and its value.
#[derive(Debug)]
pub struct Member {
    pub key: String,
    pub value: Json,
}

/// A JSON value.
#[derive(Debug)]
pub enum Json {
    Null,
    Bool(bool),
    Number(JsonNumber),
    Text(String),
    List(Vec<Json>),
    Object(Vec<Member>),
}

/// What a JSON number is.
pub enum NumberV {
    Unsigned(u64),
    Negative(i64),
    Other(Seq<char>),
}

/// What a JSON value is: the order of an object's members does not matter, and of two
/// members with one key the later counts.
pub enum JsonV {
    Null,
    Bool(bool),
    Number(NumberV),
    Text(Seq<char>),
    List(Seq<JsonV>),
    Object(Map<Seq<char>, JsonV>),
}

pub open spec fn number_view(n: JsonNumber) -> NumberV {
    match n {
        JsonNumber::Unsigned(u) => NumberV::Unsigned(u),
        JsonNumber::Negative(i) => NumberV::Negative(i),
        JsonNumber::Other(t) => NumberV::Other(t@),
    }
}

pub open spec fn json_view(j: Json) -> JsonV
    decreases j,
{
    match j {
        Json::Null => JsonV::Null,
        Json::Bool(b) => JsonV::Bool(b),
        Json::Number(n) => JsonV::Number(number_view(n)),
        Json::Text(s) => JsonV::Text(s@),
        Json::List(v) => JsonV::List(list_view(v@)),
        Json::Object(m) => JsonV::Object(object_view(m@)),
    }
}

pub open spec fn list_view(v: Seq<Json>) -> Seq<JsonV>
    decreases v,
{
    Seq::new(
        v.len(),
        |i: int|
            if 0 <= i < v.len() {
                json_view(v[i])
            } else {
                JsonV::Null
            },
    )
}

pub open spec fn object_view(m: Seq<Member>) -> Map<Seq<char>, JsonV>
    decreases m,
{
    if m.len() == 0 {
        Map::empty()
    } else {
        object_view(m.drop_last()).insert(m.last().key@, json_view(m.last().value))
    }
}

impl View for Json {
    type V = JsonV;

    open spec fn view(&self) -> JsonV {
        json_view(*self)
    }
}

/// The value under `key` of an object; nothing for other values.
pub open spec fn member(v: JsonV, key: Seq<char>) -> Option<JsonV> {
    match v {
        JsonV::Object(m) => if m.dom().contains(key) {
            Some(m[key])
        } else {
            None
        },
        _ => None,
    }
}

pub open spec fn text_in(v: Option<JsonV>) -> Option<Seq<char>> {
    match v {
        Some(JsonV::Text(s)) => Some(s),
        _ => None,
    }
}

pub open spec fn unsigned_in(v: Option<JsonV>) -> Option<u64> {
    match v {
        Some(JsonV::Number(NumberV::Unsigned(u))) => Some(u),
        _ => None,
    }
}

pub open spec fn list_in(v: Option<JsonV>) -> Option<Seq<JsonV>> {
    match v {
        Some(JsonV::List(l)) => Some(l),
        _ => None,
    }
}

pub open spec fn bool_in(v: Option<JsonV>) -> Option<bool> {
    match v {
        Some(JsonV::Bool(b)) => Some(b),
        _ => None,
    }
}

/// `v` with `key` set to `value`; a value that is no object stays as it is.
pub open spec fn with_member(v: JsonV, key: Seq<char>, value: JsonV) -> JsonV {
    match v {
        JsonV::Object(m) => JsonV::Object(m.insert(key, value)),
        _ => v,
    }
}

pub open spec fn opt_json_view(j: Option<Json>) -> Option<JsonV> {
    match j {
        Some(j) => Some(j@),
        None => None,
    }
}

/// The value under `inner` of the object under `outer`.
pub open spec fn sub_member(v: JsonV, outer: Seq<char>, inner: Seq<char>) -> Option<JsonV> {
    match member(v, outer) {
        Some(o) => member(o, inner),
        None => None,
    }
}

/// A text, or another one in its place.
pub open spec fn text_or(t: Option<Seq<char>>, default: Seq<char>) -> Seq<char> {
    match t {
        Some(s) => s,
        None => default,
    }
}

impl Json {
    /// The value under `key`, when this is an object that has it.
    pub fn get(&self, key: &str) -> (r: Option<&Json>)
        ensures
            match r {
                Some(j) => member(self@, key@) == Some(j@),
                None => member(self@, key@) is None,
            },
    {
        match self {
            Json::Object(m) => {
                let mut i: usize = m.len();
                assert(m@.take(i as int) =~= m@);
                while i > 0
                    invariant
                        i <= m@.len(),
                        self@ == JsonV::Object(object_view(m@)),
                        member(self@, key@) == member(
                            JsonV::Object(object_view(m@.take(i as int))),
                            key@,
                        ),
                    decreases i,
                {
                    assert(m@.take(i as int).drop_last() =~= m@.take(i - 1));
                    assert(m@.take(i as int).last() == m@[i - 1]);
                    if same_text(m[i - 1].key.as_str(), key) {
                        return Some(&m[i - 1].value);
                    }
                    i -= 1;
                }
                None
            },
            _ => None,
        }
    }

    pub fn as_str(&self) -> (r: Option<&str>)
        ensures
            match r {
                Some(s) => text_in(Some(self@)) == Some(s@),
                None => text_in(Some(self@)) is None,
            },
    {
        match self {
            Json::Text(s) => Some(s.as_str()),
            _ => None,
        }
    }

    pub fn as_u64(&self) -> (r: Option<u64>)
        ensures
            r == unsigned_in(Some(self@)),
    {
        match self {
            Json::Number(JsonNumber::Unsigned(u)) => Some(*u),
            _ => None,
        }
    }

    pub fn as_bool(&self) -> (r: Option<bool>)
        ensures
            r == bool_in(Some(self@)),
    {
        match self {
            Json::Bool(b) => Some(*b),
            _ => None,
        }
    }

    pub fn as_list(&self) -> (r: Option<&Vec<Json>>)
        ensures
            match r {
                Some(l) => list_in(Some(self@)) == Some(list_view(l@)),
                None => list_in(Some(self@)) is None,
            },
    {
        match self {
            Json::List(l) => Some(l),
            _ => None,
        }
    }

    /// The text under `key`, when there is one.
    pub fn text_under(&self, key: &str) -> (r: Option<&str>)
        ensures
            match r {
                Some(s) => text_in(member(self@, key@)) == Some(s@),
                None => text_in(member(self@, key@)) is None,
            },
    {
        match self.get(key) {
            Some(j) => j.as_str(),
            None => None,
        }
    }

    /// The text under `inner` of the object under `outer`, when there is one.
    pub fn text_within(&self, outer: &str, inner: &str) -> (r: Option<&str>)
        ensures
            match r {
                Some(s) => text_in(sub_member(self@, outer@, inner@)) == Some(s@),
                None => text_in(sub_member(self@, outer@, inner@)) is None,
            },
    {
        match self.get(outer) {
            Some(o) => o.text_under(inner),
            None => None,
        }
    }

    /// The unsigned number under `key`, when there is one.
    pub fn number_under(&self, key: &str) -> (r: Option<u64>)
        ensures
            r == unsigned_in(member(self@, key@)),
    {
        match self.get(key) {
            Some(j) => j.as_u64(),
            None => None,
        }
    }

    /// The list under `key`, when there is one.
    pub fn list_under(&self, key: &str) -> (r: Option<&Vec<Json>>)
        ensures
            match r {
                Some(l) => list_in(member(self@, key@)) == Some(list_view(l@)),
                None => list_in(member(self@, key@)) is None,
            },
    {
        match self.get(key) {
            Some(j) => j.as_list(),
            None => None,
        }
    }

    /// The text under `key`, or `default`.
    pub fn text_or_else(&self, key: &str, default: &str) -> (r: String)
        ensures
            r@ == text_or(text_in(member(self@, key@)), default@),
    {
        match self.text_under(key) {
            Some(s) => text_of(s),
            None => text_of(default),
        }
    }

    /// The text under `key`, or an empty one.
    pub fn text_at(&self, key: &str) -> (r: String)
        ensures
            r@ == (match text_in(member(self@, key@)) {
                Some(s) => s,
                None => Seq::empty(),
            }),
    {
        match self.get(key) {
            Some(j) => match j.as_str() {
                Some(s) => text_of(s),
                None => String::new(),
            },
            None => String::new(),
        }
    }

    /// An equal value.
    pub fn copy(&self) -> (r: Json)
        ensures
            r@ == self@,
        decreases self,
    {
        match self {
            Json::Null => Json::Null,
            Json::Bool(b) => Json::Bool(*b),
            Json::Number(JsonNumber::Unsigned(u)) => Json::Number(JsonNumber::Unsigned(*u)),
            Json::Number(JsonNumber::Negative(i)) => Json::Number(JsonNumber::Negative(*i)),
            Json::Number(JsonNumber::Other(t)) => Json::Number(
                JsonNumber::Other(text_of(t.as_str())),
            ),
            Json::Text(s) => Json::Text(text_of(s.as_str())),
            Json::List(v) => {
                let mut out: Vec<Json> = Vec::new();
                let mut i: usize = 0;
                while i < v.len()
                    invariant
                        i <= v@.len(),
                        self matches Json::List(w) && w == v,
                        list_view(out@) == list_view(v@.take(i as int)),
                    decreases v@.len() - i,
                {
                    let ghost done = list_view(out@);
                    assert(decreases_to!(self => v@[i as int]));
                    let item: Json = v[i].copy();
                    out.push(item);
                    assert(list_view(out@) =~= done.push(json_view(v@[i as int])));
                    assert(list_view(v@.take(i + 1)) =~= done.push(json_view(v@[i as int])));
                    i += 1;
                }
                assert(v@.take(i as int) =~= v@);
                Json::List(out)
            },
            Json::Object(m) => {
                let mut out: Vec<Member> = Vec::new();
                let mut i: usize = 0;
                while i < m.len()
                    invariant
                        i <= m@.len(),
                        self matches Json::Object(w) && w == m,
                        object_view(out@) == object_view(m@.take(i as int)),
                    decreases m@.len() - i,
                {
                    let ghost done = out@;
                    assert(decreases_to!(self => m@[i as int]));
                    assert(decreases_to!(self => m@[i as int].value));
                    let item: Member = Member {
                        key: text_of(m[i].key.as_str()),
                        value: m[i].value.copy(),
                    };
                    out.push(item);
                    assert(out@.drop_last() =~= done);
                    assert(m@.take(i + 1).drop_last() =~= m@.take(i as int));
                    i += 1;
                }
                assert(m@.take(i as int) =~= m@);
                Json::Object(out)
            },
        }
    }

    /// A copy with `key` set to the text `value`.
    pub fn with_text(&self, key: &str, value: String) -> (r: Json)
        ensures
            r@ == with_member(self@, key@, JsonV::Text(value@)),
    {
        match self.copy() {
            Json::Object(m) => {
                let mut m: Vec<Member> = m;
                let ghost before = m@;
                let ghost v = value@;
                m.push(Member { key: text_of(key), value: Json::Text(value) });
                assert(m@.drop_last() =~= before);
                assert(json_view(m@.last().value) == JsonV::Text(v));
                assert(object_view(m@) == object_view(before).insert(key@, JsonV::Text(v)));
                Json::Object(m)
            },
            other => other,
        }
    }
}

/// A text as a value; nothing is `null`.
pub open spec fn text_value(t: Option<Seq<char>>) -> JsonV {
    match t {
        Some(s) => JsonV::Text(s),
        None => JsonV::Null,
    }
}

/// A number as a value; nothing is `null`.
pub open spec fn number_value(n: Option<u64>) -> JsonV {
    match n {
        Some(u) => JsonV::Number(NumberV::Unsigned(u)),
        None => JsonV::Null,
    }
}

/// Sets `key` of the object that the members make.
pub fn push_member(members: &mut Vec<Member>, key: &str, value: Json)
    ensures
        object_view(final(members)@) == object_view(old(members)@).insert(key@, value@),
{
    let ghost before = members@;
    let ghost v = value@;
    members.push(Member { key: text_of(key), value });
    assert(members@.drop_last() =~= before);
    assert(json_view(members@.last().value) == v);
}

pub fn push_text(members: &mut Vec<Member>, key: &str, value: &str)
    ensures
        object_view(final(members)@) == object_view(old(members)@).insert(
            key@,
            JsonV::Text(value@),
        ),
{
    push_member(members, key, Json::Text(text_of(value)));
}

pub fn push_number(members: &mut Vec<Member>, key: &str, value: u64)
    ensures
        object_view(final(members)@) == object_view(old(members)@).insert(
            key@,
            JsonV::Number(NumberV::Unsigned(value)),
        ),
{
    push_member(members, key, Json::Number(JsonNumber::Unsigned(value)));
}

/// Puts a value behind a list.
pub fn push_item(items: &mut Vec<Json>, value: Json)
    ensures
        list_view(final(items)@) == list_view(old(items)@).push(value@),
{
    let ghost v = value@;
    let ghost before = list_view(items@);
    items.push(value);
    assert(list_view(items@) =~= before.push(v));
}

// ---------------------------------------------------------------------------
// Text
// ---------------------------------------------------------------------------

/// `serde_json::Value`, carried between the two conversions below.
#[verifier::external_type_specification]
#[verifier::external_body]
pub struct ExValue(serde_json::Value);

/// What `serde_json::from_str` makes of a text: the value, or the words of its error.
pub uninterp spec fn json_parsed(text: Seq<char>) -> Result<JsonV, Seq<char>>;

/// What `serde_json::from_str` makes of a text as a list of values: the values, or the
/// words of its error.
pub uninterp spec fn json_list_parsed(text: Seq<char>) -> Result<Seq<JsonV>, Seq<char>>;

/// What `serde_json::from_str` makes of a text as an object whose values are texts, one by
/// one: the object, or the words of its error.
pub uninterp spec fn json_texts_parsed(text: Seq<char>) -> Result<
    Map<Seq<char>, Seq<char>>,
    Seq<char>,
>;

/// What `serde_json::Value::to_string` writes for a value.
pub uninterp spec fn json_written(v: JsonV) -> Seq<char>;

/// What `serde_json::to_string_pretty` writes for a value.
pub uninterp spec fn json_pretty(v: JsonV) -> Seq<char>;

/// A `serde_json::Value` in the type of this module, member by member.
#[verifier::external_body]
fn from_value(v: Value) -> Json {
    match v {
        Value::Null => Json::Null,
        Value::Bool(b) => Json::Bool(b),
        Value::Number(n) => Json::Number(match (n.as_u64(), n.as_i64()) {
            (Some(u), _) => JsonNumber::Unsigned(u),
            (None, Some(i)) => JsonNumber::Negative(i),
            (None, None) => JsonNumber::Other(n.to_string()),
        }),
        Value::String(s) => Json::Text(s),
        Value::Array(a) => Json::List(a.into_iter().map(from_value).collect()),
        Value::Object(o) => Json::Object(
            o.into_iter().map(|(key, v)| Member { key, value: from_value(v) }).collect(),
        ),
    }
}

/// A value of this module as a `Value`, member by member.
#[verifier::external_body]
fn to_value(j: &Json) -> Value {
    match j {
        Json::Null => Value::Null,
        Json::Bool(b) => Value::from(*b),
        Json::Number(JsonNumber::Unsigned(u)) => Value::from(*u),
        Json::Number(JsonNumber::Negative(i)) => Value::from(*i),
        Json::Number(JsonNumber::Other(t)) => serde_json::from_str(t).unwrap_or_default(),
        Json::Text(s) => Value::from(s.as_str()),
        Json::List(v) => Value::Array(v.iter().map(to_value).collect()),
        Json::Object(m) => Value::Object(
            m.iter().map(|e| (e.key.clone(), to_value(&e.value))).collect(),
        ),
    }
}

/// Whether `serde_json::from_str` reads `text` as `v`.
pub open spec fn reads_as(text: Seq<char>, v: JsonV) -> bool {
    json_parsed(text) == Ok::<JsonV, Seq<char>>(v)
}

/// No number but integers, and lists and objects at most `depth` deep.
pub open spec fn is_plain(v: JsonV, depth: nat) -> bool
    decreases depth,
{
    match v {
        JsonV::Number(NumberV::Other(_)) => false,
        JsonV::Number(NumberV::Negative(i)) => i < 0,
        JsonV::List(l) => depth > 0 && forall|i: int|
            0 <= i < l.len() ==> is_plain(#[trigger] l[i], (depth - 1) as nat),
        JsonV::Object(m) => depth > 0 && m.dom().finite() && forall|k: Seq<char>|
            m.dom().contains(k) ==> is_plain(#[trigger] m[k], (depth - 1) as nat),
        _ => true,
    }
}

/// `serde_json::from_str` into a `serde_json::Value`: the result depends on the text
/// alone. An error is reported in serde_json's own words.
#[verifier::external_body]
pub(crate) fn parse_json(text: &str) -> (r: Result<Json, String>)
    ensures
        match r {
            Ok(j) => json_parsed(text@) == Ok::<JsonV, Seq<char>>(j@),
            Err(e) => json_parsed(text@) == Err::<JsonV, Seq<char>>(e@),
        },
{
    match serde_json::from_str::<serde_json::Value>(text) {
        Ok(v) => Ok(from_value(v)),
        Err(e) => Err(e.to_string()),
    }
}

/// `serde_json::from_str` into a `Vec<serde_json::Value>`: the result depends on the text
/// alone. An error is reported in serde_json's own words.
#[verifier::external_body]
pub(crate) fn parse_json_list(text: &str) -> (r: Result<Vec<Json>, String>)
    ensures
        match r {
            Ok(l) => json_list_parsed(text@) == Ok::<Seq<JsonV>, Seq<char>>(list_view(l@)),
            Err(e) => json_list_parsed(text@) == Err::<Seq<JsonV>, Seq<char>>(e@),
        },
{
    match serde_json::from_str::<Vec<serde_json::Value>>(text) {
        Ok(v) => Ok(v.into_iter().map(from_value).collect()),
        Err(e) => Err(e.to_string()),
    }
}

/// The object that keys and their texts make; of a key that occurs twice the last text counts.
pub open spec fn pairs_map(pairs: Seq<(String, String)>) -> Map<Seq<char>, Seq<char>>
    decreases pairs.len(),
{
    if pairs.len() == 0 {
        Map::empty()
    } else {
        pairs_map(pairs.drop_last()).insert(pairs.last().0@, pairs.last().1@)
    }
}

/// `serde_json::from_str` into a `HashMap<String, String>`, whose entries are handed out in
/// any order: the entries depend on the text alone. An error is reported in serde_json's own
/// words.
#[verifier::external_body]
pub(crate) fn parse_json_texts(text: &str) -> (r: Result<Vec<(String, String)>, String>)
    ensures
        match r {
            Ok(v) => json_texts_parsed(text@) == Ok::<Map<Seq<char>, Seq<char>>, Seq<char>>(
                pairs_map(v@),
            ),
            Err(e) => json_texts_parsed(text@) == Err::<Map<Seq<char>, Seq<char>>, Seq<char>>(e@),
        },
{
    match serde_json::from_str::<HashMap<String, String>>(text) {
        Ok(m) => Ok(m.into_iter().collect()),
        Err(e) => Err(e.to_string()),
    }
}

/// Whether every value of an object is a text.
pub open spec fn all_texts(m: Map<Seq<char>, JsonV>) -> bool {
    forall|k: Seq<char>| #[trigger] m.dom().contains(k) ==> m[k] is Text
}

/// The texts that are the values of an object.
pub open spec fn texts_in(m: Map<Seq<char>, JsonV>) -> Map<Seq<char>, Seq<char>> {
    Map::new(
        |k: Seq<char>| m.dom().contains(k),
        |k: Seq<char>|
            match m[k] {
                JsonV::Text(s) => s,
                _ => seq![],
            },
    )
}

/// Whether `serde_json::from_str` reads `text` as the object of texts that `v` is, where it
/// is one.
pub open spec fn reads_as_texts(text: Seq<char>, v: JsonV) -> bool {
    match v {
        JsonV::Object(m) => all_texts(m) ==> json_texts_parsed(text) == Ok::<
            Map<Seq<char>, Seq<char>>,
            Seq<char>,
        >(texts_in(m)),
        _ => true,
    }
}

/// `serde_json::Value::to_string`: the text depends on the value alone, and for a value
/// without fractional numbers that is at most eight levels deep `serde_json::from_str`
/// reads it back as that value.
#[verifier::external_body]
pub(crate) fn write_json(j: &Json) -> (r: String)
    ensures
        r@ == json_written(j@),
        is_plain(j@, 8) ==> reads_as(r@, j@),
{
    to_value(j).to_string()
}

/// `serde_json::to_string_pretty` on a `serde_json::Value`, which has an answer for each of
/// them: the text depends on the value alone, and for a value without fractional numbers
/// that is at most eight levels deep `serde_json::from_str` reads it back as that value. An
/// object of texts is also read back as a map of texts.
#[verifier::external_body]
pub(crate) fn write_pretty(j: &Json) -> (r: String)
    ensures
        r@ == json_pretty(j@),
        is_plain(j@, 8) ==> reads_as(r@, j@),
        reads_as_texts(r@, j@),
{
    serde_json::to_string_pretty(&to_value(j)).unwrap_or_default()
}

/// The keys of an object are those of its members.
pub proof fn lemma_object_keys(m: Seq<Member>, k: Seq<char>)
    ensures
        object_view(m).dom().contains(k) <==> exists|i: int|
            0 <= i < m.len() && (#[trigger] m[i]).key@ == k,
        object_view(m).dom().finite(),
    decreases m.len(),
{
    if m.len() > 0 {
        lemma_object_keys(m.drop_last(), k);
        let d = m.drop_last();
        if exists|i: int| 0 <= i < d.len() && (#[trigger] d[i]).key@ == k {
            let i = choose|i: int| 0 <= i < d.len() && (#[trigger] d[i]).key@ == k;
            assert(m[i].key@ == k);
        }
        if exists|i: int| 0 <= i < m.len() && (#[trigger] m[i]).key@ == k {
            let i = choose|i: int| 0 <= i < m.len() && (#[trigger] m[i]).key@ == k;
            if i < d.len() {
                assert(d[i].key@ == k);
            } else {
                assert(m.last().key@ == k);
            }
        }
        if m.last().key@ == k {
            assert(m[m.len() - 1].key@ == k);
        }
    }
}

} // verus!
