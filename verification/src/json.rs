//! JSON documents as the library sees them, and the exchange of documents with text.

use vstd::prelude::*;
use crate::text::same;

verus! {

/// A JSON document. Numbers without a fraction are held as integers; every other number is held as
/// the decimal text that denotes it. Where an object names a key twice, the later entry counts.
#[derive(Debug)]
pub enum Json {
    Null,
    Bool(bool),
    Unsigned(u64),
    Signed(i64),
    Decimal(String),
    Text(String),
    Array(Vec<Json>),
    Object(Vec<(String, Json)>),
}

/// What a document means, free of how it is stored.
#[verifier::ext_equal]
pub enum JsonView {
    Null,
    Bool(bool),
    Integer(int),
    Decimal(Seq<char>),
    Text(Seq<char>),
    Array(Seq<JsonView>),
    Object(Map<Seq<char>, JsonView>),
}

pub open spec fn json_view(value: Json) -> JsonView
    decreases value,
{
    match value {
        Json::Null => JsonView::Null,
        Json::Bool(b) => JsonView::Bool(b),
        Json::Unsigned(n) => JsonView::Integer(n as int),
        Json::Signed(n) => JsonView::Integer(n as int),
        Json::Decimal(t) => JsonView::Decimal(t@),
        Json::Text(t) => JsonView::Text(t@),
        Json::Array(items) => JsonView::Array(array_view(items@)),
        Json::Object(entries) => JsonView::Object(object_view(entries@)),
    }
}

pub open spec fn array_view(items: Seq<Json>) -> Seq<JsonView>
    decreases items,
{
    if items.len() == 0 {
        Seq::empty()
    } else {
        array_view(items.drop_last()).push(json_view(items.last()))
    }
}

pub open spec fn object_view(entries: Seq<(String, Json)>) -> Map<Seq<char>, JsonView>
    decreases entries,
{
    if entries.len() == 0 {
        Map::empty()
    } else {
        object_view(entries.drop_last()).insert(entries.last().0@, json_view(entries.last().1))
    }
}

impl View for Json {
    type V = JsonView;

    open spec fn view(&self) -> JsonView {
        json_view(*self)
    }
}

/// The member `key` of an object; nothing for any other document.
pub open spec fn member(value: JsonView, key: Seq<char>) -> Option<JsonView> {
    match value {
        JsonView::Object(entries) if entries.dom().contains(key) => Some(entries[key]),
        _ => None,
    }
}

/// The member `key`, with `null` standing for an absent one.
pub open spec fn at(value: JsonView, key: Seq<char>) -> JsonView {
    match member(value, key) {
        Some(inner) => inner,
        None => JsonView::Null,
    }
}

/// The text of a string document.
pub open spec fn text_of(value: JsonView) -> Option<Seq<char>> {
    match value {
        JsonView::Text(t) => Some(t),
        _ => None,
    }
}

/// The text of the member `key`, where that member is a string.
pub open spec fn text_at(value: JsonView, key: Seq<char>) -> Option<Seq<char>> {
    text_of(at(value, key))
}

/// `Some(t)` seen as an optional text.
pub open spec fn opt_text(t: Option<String>) -> Option<Seq<char>> {
    match t {
        Some(s) => Some(s@),
        None => None,
    }
}

pub open spec fn opt_str(t: Option<&str>) -> Option<Seq<char>> {
    match t {
        Some(s) => Some(s@),
        None => None,
    }
}

pub open spec fn opt_json(v: Option<Json>) -> Option<JsonView> {
    match v {
        Some(j) => Some(j@),
        None => None,
    }
}

pub open spec fn opt_json_ref(v: Option<&Json>) -> Option<JsonView> {
    match v {
        Some(j) => Some(j@),
        None => None,
    }
}

/// Each element of an array means what the element at that place means.
pub proof fn lemma_array_view(items: Seq<Json>)
    ensures
        array_view(items).len() == items.len(),
        forall|i: int| 0 <= i < items.len() ==> #[trigger] array_view(items)[i] == json_view(items[i]),
    decreases items.len(),
{
    if items.len() > 0 {
        lemma_array_view(items.drop_last());
        assert forall|i: int| 0 <= i < items.len() implies #[trigger] array_view(items)[i] == json_view(items[i]) by {
            if i < items.len() - 1 {
                assert(items.drop_last()[i] == items[i]);
            }
        }
    }
}

/// The last entry that names `key` is the member; without such an entry there is none.
pub proof fn lemma_object_lookup(entries: Seq<(String, Json)>, key: Seq<char>, at: int)
    requires
        -1 <= at < entries.len(),
        at >= 0 ==> entries[at].0@ == key,
        forall|k: int| at < k < entries.len() ==> (#[trigger] entries[k]).0@ != key,
    ensures
        at >= 0 ==> object_view(entries).dom().contains(key) && object_view(entries)[key] == json_view(entries[at].1),
        at < 0 ==> !object_view(entries).dom().contains(key),
    decreases entries.len(),
{
    if entries.len() > 0 && at < entries.len() - 1 {
        assert(entries[entries.len() - 1].0@ != key);
        assert forall|k: int| at < k < entries.drop_last().len() implies (#[trigger] entries.drop_last()[k]).0@ != key by {
            assert(entries.drop_last()[k] == entries[k]);
        }
        lemma_object_lookup(entries.drop_last(), key, at);
    }
}

impl Json {
    /// An object without members.
    pub fn object() -> (r: Json)
        ensures
            r@ == JsonView::Object(Map::empty()),
    {
        Json::Object(Vec::new())
    }

    /// A string document.
    pub fn text(s: &str) -> (r: Json)
        ensures
            r@ == JsonView::Text(s@),
    {
        Json::Text(s.to_owned())
    }

    /// This object with the member `key` set to `value`.
    pub fn with(self, key: &str, value: Json) -> (r: Json)
        requires
            self@ is Object,
        ensures
            r@ == JsonView::Object(self@->Object_0.insert(key@, value@)),
    {
        match self {
            Json::Object(entries) => {
                let mut entries = entries;
                let ghost before = entries@;
                entries.push((key.to_owned(), value));
                assert(entries@.drop_last() =~= before);
                Json::Object(entries)
            },
            other => other,
        }
    }

    pub fn get(&self, key: &str) -> (r: Option<&Json>)
        ensures
            opt_json_ref(r) == member(self@, key@),
    {
        match self {
            Json::Object(entries) => {
                let mut i: usize = entries.len();
                while i > 0
                    invariant
                        i <= entries@.len(),
                        self == Json::Object(*entries),
                        forall|k: int| i <= k < entries@.len() ==> (#[trigger] entries@[k]).0@ != key@,
                    decreases i,
                {
                    i -= 1;
                    if same(entries[i].0.as_str(), key) {
                        proof {
                            lemma_object_lookup(entries@, key@, i as int);
                        }
                        return Some(&entries[i].1);
                    }
                }
                proof {
                    lemma_object_lookup(entries@, key@, -1);
                }
                None
            },
            _ => None,
        }
    }

    pub fn as_str(&self) -> (r: Option<&str>)
        ensures
            opt_str(r) == text_of(self@),
    {
        match self {
            Json::Text(t) => Some(t.as_str()),
            _ => None,
        }
    }

    pub fn is_null(&self) -> (r: bool)
        ensures
            r == (self@ is Null),
    {
        matches!(self, Json::Null)
    }

    /// The member `key`, with `null` standing for an absent one.
    pub fn at(&self, key: &str) -> (r: &Json)
        ensures
            r@ == at(self@, key@),
    {
        match self.get(key) {
            Some(inner) => inner,
            None => &Json::Null,
        }
    }

    /// Whether this document is the string `text`.
    pub fn is_text(&self, text: &str) -> (r: bool)
        ensures
            r == (text_of(self@) == Some(text@)),
    {
        match self {
            Json::Text(t) => same(t.as_str(), text),
            _ => false,
        }
    }

    pub fn text_at(&self, key: &str) -> (r: Option<&str>)
        ensures
            opt_str(r) == text_at(self@, key@),
    {
        match self.get(key) {
            Some(inner) => inner.as_str(),
            None => None,
        }
    }
}

impl Clone for Json {
    fn clone(&self) -> (r: Json)
        ensures
            r@ == self@,
        decreases self,
    {
        match self {
            Json::Null => Json::Null,
            Json::Bool(b) => Json::Bool(*b),
            Json::Unsigned(n) => Json::Unsigned(*n),
            Json::Signed(n) => Json::Signed(*n),
            Json::Decimal(t) => Json::Decimal(t.clone()),
            Json::Text(t) => Json::Text(t.clone()),
            Json::Array(items) => {
                let mut copy: Vec<Json> = Vec::new();
                let mut i: usize = 0;
                while i < items.len()
                    invariant
                        i <= items@.len(),
                        self == Json::Array(*items),
                        array_view(copy@) == array_view(items@.take(i as int)),
                    decreases items@.len() - i,
                {
                    assert(decreases_to!(*self => self->Array_0));
                    assert(decreases_to!(*items => items@));
                    assert(decreases_to!(items@ => items@[i as int]));
                    let ghost before = copy@;
                    copy.push(items[i].clone());
                    assert(copy@.drop_last() =~= before);
                    assert(items@.take(i + 1).drop_last() =~= items@.take(i as int));
                    i += 1;
                }
                assert(items@.take(i as int) =~= items@);
                Json::Array(copy)
            },
            Json::Object(entries) => {
                let mut copy: Vec<(String, Json)> = Vec::new();
                let mut i: usize = 0;
                while i < entries.len()
                    invariant
                        i <= entries@.len(),
                        self == Json::Object(*entries),
                        object_view(copy@) == object_view(entries@.take(i as int)),
                    decreases entries@.len() - i,
                {
                    assert(decreases_to!(*self => self->Object_0));
                    assert(decreases_to!(*entries => entries@));
                    assert(decreases_to!(entries@ => entries@[i as int]));
                    assert(decreases_to!(entries@[i as int] => entries@[i as int].1));
                    let ghost before = copy@;
                    copy.push((entries[i].0.clone(), entries[i].1.clone()));
                    assert(copy@.drop_last() =~= before);
                    assert(entries@.take(i + 1).drop_last() =~= entries@.take(i as int));
                    i += 1;
                }
                assert(entries@.take(i as int) =~= entries@);
                Json::Object(copy)
            },
        }
    }
}

/// `serde_json::Value`, held only while a document crosses into or out of `serde_json`.
#[verifier::external_type_specification]
#[verifier::external_body]
pub struct ExJsonValue(serde_json::Value);

/// Turns a `serde_json::Value` into a document, variant by variant; a number that is neither a `u64`
/// nor an `i64` is kept as the text that `serde_json` prints for it.
#[verifier::external_body]
pub(crate) fn from_value(value: serde_json::Value) -> Json {
    match value {
        serde_json::Value::Null => Json::Null,
        serde_json::Value::Bool(b) => Json::Bool(b),
        serde_json::Value::Number(n) => match (n.as_u64(), n.as_i64()) {
            (Some(unsigned), _) => Json::Unsigned(unsigned),
            (_, Some(signed)) => Json::Signed(signed),
            _ => Json::Decimal(n.to_string()),
        },
        serde_json::Value::String(t) => Json::Text(t),
        serde_json::Value::Array(items) => Json::Array(items.into_iter().map(from_value).collect()),
        serde_json::Value::Object(map) => Json::Object(map.into_iter().map(|(k, v)| (k, from_value(v))).collect()),
    }
}

/// Turns a document into a `serde_json::Value`, variant by variant. Decimal text that denotes no
/// finite number becomes `null`.
#[verifier::external_body]
pub(crate) fn to_value(json: &Json) -> serde_json::Value {
    match json {
        Json::Null => serde_json::Value::Null,
        Json::Bool(b) => serde_json::Value::Bool(*b),
        Json::Unsigned(n) => serde_json::Value::from(*n),
        Json::Signed(n) => serde_json::Value::from(*n),
        Json::Decimal(t) => t.parse().ok().and_then(serde_json::Number::from_f64).into(),
        Json::Text(t) => serde_json::Value::String(t.clone()),
        Json::Array(items) => serde_json::Value::Array(items.iter().map(to_value).collect()),
        Json::Object(entries) => serde_json::Value::Object(entries.iter().map(|(k, v)| (k.clone(), to_value(v))).collect()),
    }
}

/// The document that `serde_json::from_slice` reads from `bytes`, if they are one JSON document.
pub uninterp spec fn parsed(bytes: Seq<u8>) -> Option<JsonView>;

/// The compact text that `serde_json` prints for a document.
pub uninterp spec fn printed(value: JsonView) -> Seq<char>;

/// Reads one JSON document with `serde_json::from_slice`. The result is a function of the bytes
/// alone; what the reader makes of given bytes is not stated.
#[verifier::external_body]
pub(crate) fn parse(bytes: &[u8]) -> (r: Option<Json>)
    ensures
        opt_json(r) == parsed(bytes@),
{
    serde_json::from_slice::<serde_json::Value>(bytes).ok().map(from_value)
}

/// Prints a document with `serde_json::Value`'s compact `Display`. The result is a function of the
/// document alone, and it stays on one line: control characters inside strings are escaped and
/// nothing is written between tokens. The rest of its layout is not stated.
#[verifier::external_body]
pub(crate) fn print(value: &Json) -> (r: String)
    ensures
        r@ == printed(value@),
        !r@.contains('\r'),
        !r@.contains('\n'),
{
    to_value(value).to_string()
}

impl Json {
    /// The document that `bytes` hold, if they are one JSON document.
    pub fn read(bytes: &[u8]) -> (r: Option<Json>)
        ensures
            opt_json(r) == parsed(bytes@),
    {
        parse(bytes)
    }

    /// The document as compact text, on one line.
    pub fn to_text(&self) -> (r: String)
        ensures
            r@ == printed(self@),
            !r@.contains('\r'),
            !r@.contains('\n'),
    {
        print(self)
    }
}

/// Only objects have members, and a member is what the object holds under its key; an absent one reads as null.
pub proof fn law_members_are_found_by_key(entries: Map<Seq<char>, JsonView>, key: Seq<char>, value: JsonView)
    ensures
        member(JsonView::Object(entries.insert(key, value)), key) == Some(value),
        at(JsonView::Object(entries.insert(key, value)), key) == value,
        member(JsonView::Object(entries.remove(key)), key) is None,
        at(JsonView::Object(entries.remove(key)), key) is Null,
        !(value is Object) ==> member(value, key) is None,
        text_at(JsonView::Object(entries.insert(key, value)), key) == (match value {
            JsonView::Text(t) => Some(t),
            _ => None,
        }),
{
}

} // verus!
