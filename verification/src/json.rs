//! JSON documents as plain values.

use vstd::prelude::*;
use vstd::string::*;

use crate::text::{decimal, same_text};

verus! {

/// A JSON number: an integer that fits in 64 bits, or a double.
#[derive(Debug)]
pub enum JsonNumber {
    PosInt(u64),
    NegInt(i64),
    Float(serde_json::Number),
}

/// A JSON document.
#[derive(Debug)]
pub enum Json {
    Null,
    Bool(bool),
    Number(JsonNumber),
    Text(String),
    Array(Vec<Json>),
    Object(Vec<(String, Json)>),
}

/// What a JSON number is: an integer, or a double by the text that a document writes it with.
pub enum NumberView {
    PosInt(u64),
    NegInt(i64),
    Float(Seq<char>),
}

/// What a JSON document says. The members of an object have no order.
pub enum JsonView {
    Null,
    Bool(bool),
    Number(NumberView),
    Text(Seq<char>),
    Array(Seq<JsonView>),
    Object(Map<Seq<char>, JsonView>),
}

impl View for JsonNumber {
    type V = NumberView;

    open spec fn view(&self) -> NumberView {
        match self {
            JsonNumber::PosInt(n) => NumberView::PosInt(*n),
            JsonNumber::NegInt(n) => NumberView::NegInt(*n),
            JsonNumber::Float(n) => NumberView::Float(number_written(*n)),
        }
    }
}

/// What a document says.
pub open spec fn json_view(j: Json) -> JsonView
    decreases j,
{
    match j {
        Json::Null => JsonView::Null,
        Json::Bool(b) => JsonView::Bool(b),
        Json::Number(n) => JsonView::Number(n@),
        Json::Text(t) => JsonView::Text(t@),
        Json::Array(items) => JsonView::Array(items_view(items@)),
        Json::Object(members) => JsonView::Object(members_view(members@)),
    }
}

/// What a row of documents says.
pub open spec fn items_view(items: Seq<Json>) -> Seq<JsonView>
    decreases items,
{
    if items.len() == 0 {
        Seq::empty()
    } else {
        items_view(items.drop_last()).push(json_view(items.last()))
    }
}

/// What the members of an object say; of two members with one name the later counts.
pub open spec fn members_view(members: Seq<(String, Json)>) -> Map<Seq<char>, JsonView>
    decreases members,
{
    if members.len() == 0 {
        Map::empty()
    } else {
        members_view(members.drop_last()).insert(members.last().0@, json_view(members.last().1))
    }
}

impl View for Json {
    type V = JsonView;

    open spec fn view(&self) -> JsonView {
        json_view(*self)
    }
}

/// The view behind an optional reference.
pub open spec fn found(r: Option<&Json>) -> Option<JsonView> {
    match r {
        Some(j) => Some(j@),
        None => None,
    }
}

/// The text behind an optional string slice.
pub open spec fn found_text(r: Option<&str>) -> Option<Seq<char>> {
    match r {
        Some(s) => Some(s@),
        None => None,
    }
}

impl JsonView {
    /// The member of an object with the given name.
    pub open spec fn member(self, key: Seq<char>) -> Option<JsonView> {
        match self {
            JsonView::Object(m) => if m.contains_key(key) {
                Some(m[key])
            } else {
                None
            },
            _ => None,
        }
    }

    pub open spec fn text(self) -> Option<Seq<char>> {
        match self {
            JsonView::Text(t) => Some(t),
            _ => None,
        }
    }

    pub open spec fn boolean(self) -> Option<bool> {
        match self {
            JsonView::Bool(b) => Some(b),
            _ => None,
        }
    }

    pub open spec fn unsigned(self) -> Option<u64> {
        match self {
            JsonView::Number(NumberView::PosInt(n)) => Some(n),
            _ => None,
        }
    }

    pub open spec fn signed(self) -> Option<i64> {
        match self {
            JsonView::Number(NumberView::PosInt(n)) => if n <= i64::MAX {
                Some(n as i64)
            } else {
                None
            },
            JsonView::Number(NumberView::NegInt(n)) => Some(n),
            _ => None,
        }
    }

    pub open spec fn items(self) -> Option<Seq<JsonView>> {
        match self {
            JsonView::Array(s) => Some(s),
            _ => None,
        }
    }

    /// The text of the member with the given name.
    pub open spec fn text_of(self, key: Seq<char>) -> Option<Seq<char>> {
        match self.member(key) {
            Some(v) => v.text(),
            None => None,
        }
    }

    /// The boolean of the member with the given name.
    pub open spec fn boolean_of(self, key: Seq<char>) -> Option<bool> {
        match self.member(key) {
            Some(v) => v.boolean(),
            None => None,
        }
    }

    /// The unsigned integer of the member with the given name.
    pub open spec fn unsigned_of(self, key: Seq<char>) -> Option<u64> {
        match self.member(key) {
            Some(v) => v.unsigned(),
            None => None,
        }
    }

    /// The signed integer of the member with the given name.
    pub open spec fn signed_of(self, key: Seq<char>) -> Option<i64> {
        match self.member(key) {
            Some(v) => v.signed(),
            None => None,
        }
    }

    /// The items of the member with the given name.
    pub open spec fn items_of(self, key: Seq<char>) -> Option<Seq<JsonView>> {
        match self.member(key) {
            Some(v) => v.items(),
            None => None,
        }
    }
}

/// The view of a row of documents holds the view of each, in order.
pub proof fn lemma_items_view(items: Seq<Json>)
    ensures
        items_view(items).len() == items.len(),
        forall|i: int| 0 <= i < items.len() ==> #[trigger] items_view(items)[i] == json_view(items[i]),
    decreases items.len(),
{
    if items.len() > 0 {
        lemma_items_view(items.drop_last());
        assert forall|i: int| 0 <= i < items.len() implies #[trigger] items_view(items)[i]
            == json_view(items[i]) by {
            if i < items.len() - 1 {
                assert(items.drop_last()[i] == items[i]);
            }
        }
    }
}

proof fn lemma_members_view(members: Seq<(String, Json)>, n: int, key: Seq<char>)
    requires
        0 <= n <= members.len(),
        forall|i: int| n <= i < members.len() ==> (#[trigger] members[i]).0@ != key,
    ensures
        members_view(members).contains_key(key) == members_view(members.take(n)).contains_key(key),
        members_view(members).contains_key(key) ==> members_view(members)[key] == members_view(
            members.take(n),
        )[key],
    decreases members.len(),
{
    if n < members.len() {
        let init = members.drop_last();
        assert(members[members.len() - 1].0@ != key);
        assert forall|i: int| n <= i < init.len() implies (#[trigger] init[i]).0@ != key by {
            assert(init[i] == members[i]);
        }
        lemma_members_view(init, n, key);
        assert(init.take(n) =~= members.take(n));
    } else {
        assert(members.take(n) =~= members);
    }
}

impl Json {
    /// The member with the given name.
    pub fn get(&self, key: &str) -> (r: Option<&Json>)
        ensures
            found(r) == self@.member(key@),
    {
        match self {
            Json::Object(members) => {
                let mut n: usize = members.len();
                while n > 0
                    invariant
                        n <= members@.len(),
                        *self == Json::Object(*members),
                        forall|i: int|
                            n <= i < members@.len() ==> (#[trigger] members@[i]).0@ != key@,
                    decreases n,
                {
                    if same_text(members[n - 1].0.as_str(), key) {
                        proof {
                            lemma_members_view(members@, n as int, key@);
                            assert(members@.take(n as int).last() == members@[n - 1]);
                        }
                        return Some(&members[n - 1].1);
                    }
                    n = n - 1;
                }
                proof {
                    lemma_members_view(members@, 0, key@);
                    assert(members@.take(0).len() == 0);
                }
                None
            },
            _ => None,
        }
    }

    pub fn as_str(&self) -> (r: Option<&str>)
        ensures
            found_text(r) == self@.text(),
    {
        match self {
            Json::Text(t) => Some(t.as_str()),
            _ => None,
        }
    }

    pub fn as_bool(&self) -> (r: Option<bool>)
        ensures
            r == self@.boolean(),
    {
        match self {
            Json::Bool(b) => Some(*b),
            _ => None,
        }
    }

    pub fn as_u64(&self) -> (r: Option<u64>)
        ensures
            r == self@.unsigned(),
    {
        match self {
            Json::Number(JsonNumber::PosInt(n)) => Some(*n),
            _ => None,
        }
    }

    pub fn as_i64(&self) -> (r: Option<i64>)
        ensures
            r == self@.signed(),
    {
        match self {
            Json::Number(JsonNumber::PosInt(n)) => if *n <= i64::MAX as u64 {
                Some(*n as i64)
            } else {
                None
            },
            Json::Number(JsonNumber::NegInt(n)) => Some(*n),
            _ => None,
        }
    }

    pub fn as_array(&self) -> (r: Option<&Vec<Json>>)
        ensures
            (match r {
                Some(v) => Some(items_view(v@)),
                None => None,
            }) == self@.items(),
    {
        match self {
            Json::Array(v) => Some(v),
            _ => None,
        }
    }

    pub fn text_at(&self, key: &str) -> (r: Option<&str>)
        ensures
            found_text(r) == self@.text_of(key@),
    {
        match self.get(key) {
            Some(v) => v.as_str(),
            None => None,
        }
    }

    pub fn bool_at(&self, key: &str) -> (r: Option<bool>)
        ensures
            r == self@.boolean_of(key@),
    {
        match self.get(key) {
            Some(v) => v.as_bool(),
            None => None,
        }
    }

    pub fn u64_at(&self, key: &str) -> (r: Option<u64>)
        ensures
            r == self@.unsigned_of(key@),
    {
        match self.get(key) {
            Some(v) => v.as_u64(),
            None => None,
        }
    }

    pub fn i64_at(&self, key: &str) -> (r: Option<i64>)
        ensures
            r == self@.signed_of(key@),
    {
        match self.get(key) {
            Some(v) => v.as_i64(),
            None => None,
        }
    }

    pub fn array_at(&self, key: &str) -> (r: Option<&Vec<Json>>)
        ensures
            (match r {
                Some(v) => Some(items_view(v@)),
                None => None,
            }) == self@.items_of(key@),
    {
        match self.get(key) {
            Some(v) => v.as_array(),
            None => None,
        }
    }
}

/// `serde_json::Value`, carried as it is.
#[verifier::external_type_specification]
#[verifier::external_body]
pub struct ExValue(serde_json::Value);

/// `serde_json::Number`, carried as it is.
#[verifier::external_type_specification]
#[verifier::external_body]
pub struct ExNumber(serde_json::Number);

/// The text that `serde_json::Number::to_string` writes, which tells any two numbers apart.
pub uninterp spec fn number_written(n: serde_json::Number) -> Seq<char>;

/// What a `serde_json::Value` holds. An integer within the range of `u64` or `i64` is that integer;
/// any other number is its double, by its written text.
pub uninterp spec fn value_view(v: serde_json::Value) -> JsonView;

/// What `serde_json::from_slice` makes of the bytes: a document, or the text of its error.
pub uninterp spec fn json_document(raw: Seq<u8>) -> Result<JsonView, Seq<char>>;

/// The compact text that `serde_json::Value::to_string` writes.
pub uninterp spec fn json_text(v: JsonView) -> Seq<char>;

/// One level of a `serde_json::Value`: a number by what its accessors return, and itself.
pub enum JsonNode {
    Null,
    Bool(bool),
    Number(Option<u64>, Option<i64>, Option<serde_json::Number>),
    Text(String),
    Array(Vec<serde_json::Value>),
    Object(Vec<(String, serde_json::Value)>),
}

/// A number from what the accessors of `serde_json::Number` return.
pub open spec fn number_view(
    u: Option<u64>,
    i: Option<i64>,
    n: Option<serde_json::Number>,
) -> NumberView {
    match u {
        Some(n) => NumberView::PosInt(n),
        None => match i {
            Some(n) => NumberView::NegInt(n),
            None => NumberView::Float(number_written(n->0)),
        },
    }
}

/// What the members of an opened object hold; of two members with one name the later counts.
pub open spec fn values_view(members: Seq<(String, serde_json::Value)>) -> Map<
    Seq<char>,
    JsonView,
>
    decreases members.len(),
{
    if members.len() == 0 {
        Map::empty()
    } else {
        values_view(members.drop_last()).insert(members.last().0@, value_view(members.last().1))
    }
}

/// What an opened value holds.
pub open spec fn node_view(n: JsonNode) -> JsonView {
    match n {
        JsonNode::Null => JsonView::Null,
        JsonNode::Bool(b) => JsonView::Bool(b),
        JsonNode::Number(u, i, n) => JsonView::Number(number_view(u, i, n)),
        JsonNode::Text(t) => JsonView::Text(t@),
        JsonNode::Array(items) => JsonView::Array(
            items@.map_values(|v: serde_json::Value| value_view(v)),
        ),
        JsonNode::Object(members) => JsonView::Object(values_view(members@)),
    }
}

/// `serde_json::from_slice::<serde_json::Value>`: the outcome depends on the bytes alone. An error
/// comes as its text.
#[verifier::external_body]
fn decode(raw: &[u8]) -> (r: Result<serde_json::Value, String>)
    ensures
        json_document(raw@) == match r {
            Ok(v) => Ok(value_view(v)),
            Err(m) => Err(m@),
        },
{
    serde_json::from_slice(raw).map_err(|e: serde_json::Error| e.to_string())
}

/// The variants of `serde_json::Value`, with `Number::as_u64` and `Number::as_i64` on a number and
/// `Map::into_iter` on an object: one level of what the value
/// holds. The names of an object's members are distinct.
#[verifier::external_body]
fn open_value(v: serde_json::Value) -> (r: JsonNode)
    ensures
        node_view(r) == value_view(v),
        r is Object ==> distinct_names(r->Object_0@),
        r is Number ==> r->Number_2 is Some,
{
    match v {
        serde_json::Value::Null => JsonNode::Null,
        serde_json::Value::Bool(b) => JsonNode::Bool(b),
        serde_json::Value::Number(n) => JsonNode::Number(n.as_u64(), n.as_i64(), Some(n)),
        serde_json::Value::String(s) => JsonNode::Text(s),
        serde_json::Value::Array(a) => JsonNode::Array(a),
        serde_json::Value::Object(m) => JsonNode::Object(m.into_iter().collect()),
    }
}

/// No two members have one name.
pub open spec fn distinct_names(members: Seq<(String, serde_json::Value)>) -> bool {
    forall|i: int, j: int|
        0 <= i < j < members.len() ==> (#[trigger] members[i]).0@ != (#[trigger] members[j]).0@
}

proof fn lemma_values_view(members: Seq<(String, serde_json::Value)>)
    requires
        distinct_names(members),
    ensures
        values_view(members).dom().finite(),
        forall|i: int|
            0 <= i < members.len() ==> values_view(members).contains_key(
                (#[trigger] members[i]).0@,
            ) && values_view(members)[members[i].0@] == value_view(members[i].1),
    decreases members.len(),
{
    if members.len() > 0 {
        let init = members.drop_last();
        lemma_values_view(init);
        assert forall|i: int| 0 <= i < members.len() implies values_view(members).contains_key(
            (#[trigger] members[i]).0@,
        ) && values_view(members)[members[i].0@] == value_view(members[i].1) by {
            if i < members.len() - 1 {
                assert(init[i] == members[i]);
                assert(members[i].0@ != members[members.len() - 1].0@);
            }
        }
    }
}

/// Turns a `serde_json::Value` into a document.
fn build(v: serde_json::Value) -> (r: Json)
    ensures
        r@ == value_view(v),
    decreases value_view(v),
{
    let ghost whole = value_view(v);
    match open_value(v) {
        JsonNode::Null => Json::Null,
        JsonNode::Bool(b) => Json::Bool(b),
        JsonNode::Number(Some(n), _, _) => Json::Number(JsonNumber::PosInt(n)),
        JsonNode::Number(None, Some(n), _) => Json::Number(JsonNumber::NegInt(n)),
        JsonNode::Number(None, None, Some(n)) => Json::Number(JsonNumber::Float(n)),
        JsonNode::Number(None, None, None) => Json::Null,
        JsonNode::Text(t) => Json::Text(t),
        JsonNode::Array(items) => {
            let ghost all = items@;
            let ghost parts = all.map_values(|x: serde_json::Value| value_view(x));
            let mut out: Vec<Json> = Vec::new();
            for item in it: items
                invariant
                    it.seq() == all,
                    parts == all.map_values(|x: serde_json::Value| value_view(x)),
                    whole == JsonView::Array(parts),
                    whole == value_view(v),
                    items_view(out@) == parts.take(it.index()),
            {
                assert(parts[it.index()] == value_view(item));
                assert(decreases_to!(whole => whole->Array_0));
                let child = build(item);
                let ghost before = out@;
                out.push(child);
                assert(out@.drop_last() =~= before);
                assert(items_view(out@) =~= parts.take(it.index() + 1));
            }
            assert(parts.take(all.len() as int) =~= parts);
            Json::Array(out)
        },
        JsonNode::Object(members) => {
            let ghost all = members@;
            let ghost map = values_view(all);
            proof {
                lemma_values_view(all);
            }
            let mut out: Vec<(String, Json)> = Vec::new();
            for member in it: members
                invariant
                    it.seq() == all,
                    map == values_view(all),
                    whole == JsonView::Object(map),
                    whole == value_view(v),
                    map.dom().finite(),
                    distinct_names(all),
                    members_view(out@) == values_view(all.take(it.index())),
            {
                let ghost i = it.index();
                assert(all[i] == member);
                proof {
                    lemma_values_view(all);
                    assert(map.contains_key(all[i].0@));
                    assert(decreases_to!(map => map[all[i].0@]));
                    assert(decreases_to!(whole => whole->Object_0));
                }
                let (name, value) = member;
                let child = build(value);
                let ghost before = out@;
                out.push((name, child));
                assert(out@.drop_last() =~= before);
                assert(all.take(i + 1).drop_last() =~= all.take(i));
                assert(members_view(out@) =~= values_view(all.take(i + 1)));
            }
            assert(all.take(all.len() as int) =~= all);
            Json::Object(out)
        },
    }
}

/// Reads a JSON document.
pub fn parse_json(raw: &[u8]) -> (r: Result<Json, String>)
    ensures
        json_document(raw@) == match r {
            Ok(j) => Ok(j@),
            Err(m) => Err(m@),
        },
{
    match decode(raw) {
        Ok(v) => Ok(build(v)),
        Err(m) => Err(m),
    }
}

/// What `serde_json::from_slice` makes of the bytes as an array: its items, or the text of its error.
pub uninterp spec fn json_list(raw: Seq<u8>) -> Result<Seq<JsonView>, Seq<char>>;

/// `serde_json::from_slice::<Vec<serde_json::Value>>`: the outcome depends on the bytes alone. An
/// error comes as its text.
#[verifier::external_body]
fn decode_list(raw: &[u8]) -> (r: Result<Vec<serde_json::Value>, String>)
    ensures
        json_list(raw@) == match r {
            Ok(v) => Ok(v@.map_values(|x: serde_json::Value| value_view(x))),
            Err(m) => Err(m@),
        },
{
    serde_json::from_slice(raw).map_err(|e: serde_json::Error| e.to_string())
}

/// Reads a JSON array.
pub fn parse_json_list(raw: &[u8]) -> (r: Result<Vec<Json>, String>)
    ensures
        json_list(raw@) == match r {
            Ok(v) => Ok(items_view(v@)),
            Err(m) => Err(m@),
        },
{
    let values = match decode_list(raw) {
        Ok(v) => v,
        Err(m) => {
            return Err(m);
        },
    };
    let ghost all = values@;
    let ghost parts = all.map_values(|x: serde_json::Value| value_view(x));
    let mut out: Vec<Json> = Vec::new();
    for value in it: values
        invariant
            it.seq() == all,
            parts == all.map_values(|x: serde_json::Value| value_view(x)),
            items_view(out@) == parts.take(it.index()),
    {
        assert(parts[it.index()] == value_view(value));
        let child = build(value);
        let ghost before = out@;
        out.push(child);
        assert(out@.drop_last() =~= before);
        assert(items_view(out@) =~= parts.take(it.index() + 1));
    }
    assert(parts.take(all.len() as int) =~= parts);
    Ok(out)
}

/// The double of a number, given by its written text, with so many decimal places.
pub uninterp spec fn double_fixed(written: Seq<char>, places: u8) -> Seq<char>;

/// An integer as a double with so many decimal places; up to 2^53 a double holds it exactly.
pub open spec fn integer_fixed(n: u64, places: u8) -> Seq<char> {
    if n > 0x20_0000_0000_0000 {
        double_fixed(decimal(n as nat), places)
    } else if places == 0 {
        decimal(n as nat)
    } else {
        decimal(n as nat) + "."@ + Seq::new(places as nat, |i: int| '0')
    }
}

/// `serde_json::Number::as_f64` on a number, written with so many decimal places: the text depends on
/// the number and the places alone.
#[verifier::external_body]
pub(crate) fn fixed_point(n: &serde_json::Number, places: u8) -> (r: String)
    ensures
        r@ == double_fixed(number_written(*n), places),
{
    let double = n.as_f64().unwrap_or_default();
    format!("{:.*}", usize::from(places), double)
}

/// `serde_json::Number::as_f64` on an integer, written with so many decimal places: up to 2^53 the
/// integer itself and zeros, above that a text that depends on the integer and the places alone.
#[verifier::external_body]
pub(crate) fn integer_fixed_point(n: u64, places: u8) -> (r: String)
    ensures
        n <= 0x20_0000_0000_0000 && places == 0 ==> r@ == decimal(n as nat),
        n <= 0x20_0000_0000_0000 && places > 0 ==> r@ == decimal(n as nat) + "."@ + Seq::new(
            places as nat,
            |i: int| '0',
        ),
        n > 0x20_0000_0000_0000 ==> r@ == double_fixed(decimal(n as nat), places),
{
    let double = serde_json::Number::from(n).as_f64().unwrap_or_default();
    format!("{:.*}", usize::from(places), double)
}

/// The document has integers only, as they are written.
pub open spec fn writable(j: Json) -> bool
    decreases j,
{
    match j {
        Json::Number(JsonNumber::NegInt(n)) => n < 0,
        Json::Number(JsonNumber::Float(_)) => false,
        Json::Array(items) => forall|i: int|
            0 <= i < items@.len() ==> writable(#[trigger] items@[i]),
        Json::Object(members) => forall|i: int|
            0 <= i < members@.len() ==> writable((#[trigger] members@[i]).1),
        _ => true,
    }
}

/// The variants of `serde_json::Value`, with `From<u64>` and `From<i64>` for a number and `collect`
/// into a `Map` for an object whose names are distinct: the value holds what the node holds.
#[verifier::external_body]
fn close_value(n: JsonNode) -> (r: serde_json::Value)
    requires
        n is Number ==> n->Number_0 is Some || (n->Number_1 is Some && n->Number_1->0 < 0),
        n is Object ==> distinct_names(n->Object_0@),
    ensures
        value_view(r) == node_view(n),
{
    match n {
        JsonNode::Null => serde_json::Value::Null,
        JsonNode::Bool(b) => serde_json::Value::Bool(b),
        JsonNode::Number(u, i, _) => u.map_or(i.into(), |u| u.into()),
        JsonNode::Text(s) => serde_json::Value::String(s),
        JsonNode::Array(a) => serde_json::Value::Array(a),
        JsonNode::Object(m) => serde_json::Value::Object(m.into_iter().collect()),
    }
}

/// `serde_json::Value::to_string`: the text depends on what the value holds alone. It is compact, and
/// control characters inside texts are escaped, so it has no line feed.
#[verifier::external_body]
fn encode(v: &serde_json::Value) -> (r: String)
    ensures
        r@ == json_text(value_view(*v)),
        !r@.contains('\n'),
{
    v.to_string()
}

/// The members without those of the given name.
pub open spec fn without_name(
    members: Seq<(String, serde_json::Value)>,
    name: Seq<char>,
) -> Seq<(String, serde_json::Value)>
    decreases members.len(),
{
    if members.len() == 0 {
        members
    } else if members.last().0@ == name {
        without_name(members.drop_last(), name)
    } else {
        without_name(members.drop_last(), name).push(members.last())
    }
}

proof fn lemma_without_name(members: Seq<(String, serde_json::Value)>, name: Seq<char>)
    requires
        distinct_names(members),
    ensures
        distinct_names(without_name(members, name)),
        forall|i: int|
            0 <= i < without_name(members, name).len() ==> members.contains(
                #[trigger] without_name(members, name)[i],
            ) && without_name(members, name)[i].0@ != name,
        values_view(without_name(members, name)) == values_view(members).remove(name),
    decreases members.len(),
{
    if members.len() > 0 {
        let init = members.drop_last();
        let last = members.last();
        lemma_without_name(init, name);
        let rest = without_name(init, name);
        assert forall|i: int| 0 <= i < rest.len() implies members.contains(#[trigger] rest[i]) && (
        last.0@ != rest[i].0@) by {
            let k = init.index_of(rest[i]);
            assert(members[k] == rest[i]);
            assert(members[k].0@ != members[members.len() - 1].0@);
        }
        assert(members[members.len() - 1] == last);
        if last.0@ == name {
            assert(values_view(members).remove(name) =~= values_view(init).remove(name));
        } else {
            let all = without_name(members, name);
            assert(all.drop_last() =~= rest);
            assert(values_view(all) =~= values_view(members).remove(name));
        }
    } else {
        assert(values_view(members).remove(name) =~= values_view(members));
    }
}

/// The members with one more; an earlier one of that name is dropped.
fn put_member(
    members: Vec<(String, serde_json::Value)>,
    name: String,
    value: serde_json::Value,
) -> (r: Vec<(String, serde_json::Value)>)
    requires
        distinct_names(members@),
    ensures
        distinct_names(r@),
        values_view(r@) == values_view(members@).insert(name@, value_view(value)),
{
    let ghost all = members@;
    let mut out: Vec<(String, serde_json::Value)> = Vec::new();
    for member in it: members
        invariant
            it.seq() == all,
            out@ == without_name(all.take(it.index()), name@),
    {
        assert(all.take(it.index() + 1).drop_last() =~= all.take(it.index()));
        assert(all.take(it.index() + 1).last() == member);
        if !same_text(member.0.as_str(), name.as_str()) {
            out.push(member);
        }
    }
    assert(all.take(all.len() as int) =~= all);
    proof {
        lemma_without_name(all, name@);
    }
    let ghost rest = out@;
    let ghost key = name@;
    out.push((name, value));
    assert(out@.drop_last() =~= rest);
    assert(values_view(out@) =~= values_view(all).insert(key, value_view(value)));
    out
}

/// Turns a document into a `serde_json::Value`.
fn unbuild(j: &Json) -> (r: serde_json::Value)
    requires
        writable(*j),
    ensures
        value_view(r) == j@,
    decreases j,
{
    match j {
        Json::Null => close_value(JsonNode::Null),
        Json::Bool(b) => close_value(JsonNode::Bool(*b)),
        Json::Number(JsonNumber::PosInt(n)) => close_value(
            JsonNode::Number(Some(*n), None, None),
        ),
        Json::Number(JsonNumber::NegInt(n)) => close_value(
            JsonNode::Number(None, Some(*n), None),
        ),
        Json::Number(JsonNumber::Float(_)) => close_value(JsonNode::Null),
        Json::Text(t) => close_value(JsonNode::Text(t.clone())),
        Json::Array(items) => {
            let mut out: Vec<serde_json::Value> = Vec::new();
            let mut i: usize = 0;
            while i < items.len()
                invariant
                    i <= items@.len(),
                    *j == Json::Array(*items),
                    writable(*j),
                    out@.len() == i,
                    forall|k: int| 0 <= k < i ==> value_view(#[trigger] out@[k]) == items@[k]@,
                decreases items@.len() - i,
            {
                assert(j->Array_0 == *items);
                assert(writable(j->Array_0@[i as int]));
                assert(decreases_to!(j->Array_0 => j->Array_0@[i as int]));
                let child = unbuild(&items[i]);
                out.push(child);
                i = i + 1;
            }
            proof {
                lemma_items_view(items@);
                assert(out@.map_values(|x: serde_json::Value| value_view(x)) =~= items_view(
                    items@,
                ));
            }
            close_value(JsonNode::Array(out))
        },
        Json::Object(members) => {
            let mut out: Vec<(String, serde_json::Value)> = Vec::new();
            let mut i: usize = 0;
            while i < members.len()
                invariant
                    i <= members@.len(),
                    *j == Json::Object(*members),
                    writable(*j),
                    distinct_names(out@),
                    values_view(out@) == members_view(members@.take(i as int)),
                decreases members@.len() - i,
            {
                assert(j->Object_0 == *members);
                assert(writable(j->Object_0@[i as int].1));
                assert(decreases_to!(j->Object_0 => j->Object_0@[i as int]));
                let child = unbuild(&members[i].1);
                out = put_member(out, members[i].0.clone(), child);
                i = i + 1;
                assert(members@.take(i as int).drop_last() =~= members@.take(i as int - 1));
                assert(members@.take(i as int).last() == members@[i as int - 1]);
            }
            assert(members@.take(i as int) =~= members@);
            close_value(JsonNode::Object(out))
        },
    }
}

/// Writes a JSON document as compact text.
pub fn write_json(j: &Json) -> (r: String)
    requires
        writable(*j),
    ensures
        r@ == json_text(j@),
        !r@.contains('\n'),
{
    let v = unbuild(j);
    encode(&v)
}

/// All values of a row of members are writable.
pub open spec fn members_writable(members: Seq<(String, Json)>) -> bool {
    forall|i: int| 0 <= i < members.len() ==> writable((#[trigger] members[i]).1)
}

/// No members.
pub fn no_members() -> (r: Vec<(String, Json)>)
    ensures
        members_view(r@) == Map::<Seq<char>, JsonView>::empty(),
        members_writable(r@),
{
    Vec::new()
}

/// The members and one more.
pub fn with_member(members: Vec<(String, Json)>, key: &str, value: Json) -> (r: Vec<(String, Json)>)
    requires
        members_writable(members@),
        writable(value),
    ensures
        members_view(r@) == members_view(members@).insert(key@, value@),
        members_writable(r@),
{
    let mut out = members;
    out.push((key.to_owned(), value));
    assert(out@.drop_last() =~= members@);
    out
}

/// An object of the given members.
pub fn object(members: Vec<(String, Json)>) -> (r: Json)
    requires
        members_writable(members@),
    ensures
        r@ == JsonView::Object(members_view(members@)),
        writable(r),
{
    let r = Json::Object(members);
    assert(r->Object_0 == members);
    r
}

/// A text.
pub fn text(s: &str) -> (r: Json)
    ensures
        r@ == JsonView::Text(s@),
        writable(r),
{
    Json::Text(s.to_owned())
}

/// An unsigned integer.
pub fn uint(n: u64) -> (r: Json)
    ensures
        r@ == JsonView::Number(NumberView::PosInt(n)),
        writable(r),
{
    Json::Number(JsonNumber::PosInt(n))
}

/// An array of the given documents.
pub fn array(items: Vec<Json>) -> (r: Json)
    requires
        forall|i: int| 0 <= i < items@.len() ==> writable(#[trigger] items@[i]),
    ensures
        r@ == JsonView::Array(items_view(items@)),
        writable(r),
{
    let r = Json::Array(items);
    assert(r->Array_0 == items);
    r
}

/// What an array of texts says.
pub open spec fn texts_view(parts: Seq<Seq<char>>) -> JsonView {
    JsonView::Array(parts.map_values(|t: Seq<char>| JsonView::Text(t)))
}

/// An array of texts.
pub fn text_array(parts: &Vec<String>) -> (r: Json)
    ensures
        r@ == texts_view(crate::text::views(parts@)),
        writable(r),
{
    let mut out: Vec<Json> = Vec::new();
    let mut i: usize = 0;
    while i < parts.len()
        invariant
            i <= parts@.len(),
            out@.len() == i,
            forall|k: int|
                0 <= k < i ==> writable(#[trigger] out@[k]) && out@[k]@ == JsonView::Text(
                    parts@[k]@,
                ),
        decreases parts@.len() - i,
    {
        out.push(text(parts[i].as_str()));
        i = i + 1;
    }
    proof {
        lemma_items_view(out@);
        assert(JsonView::Array(items_view(out@)) == texts_view(crate::text::views(parts@))) by {
            assert(items_view(out@) =~= crate::text::views(parts@).map_values(
                |t: Seq<char>| JsonView::Text(t),
            ));
        }
    }
    array(out)
}

/// A JSON integer reads as a signed and as an unsigned number exactly where it is in range, and nothing
/// else reads as one.
pub proof fn law_integers_are_read(v: JsonView, n: u64, m: i64)
    ensures
        v.unsigned() == Some(n) <==> v == JsonView::Number(NumberView::PosInt(n)),
        m >= 0 ==> (v.signed() == Some(m) <==> v == JsonView::Number(NumberView::PosInt(m as u64))
            || v == JsonView::Number(NumberView::NegInt(m))),
        m < 0 ==> (v.signed() == Some(m) <==> v == JsonView::Number(NumberView::NegInt(m))),
{
}

/// A member of an object is found by its name, with the kind of its value.
pub proof fn law_members_are_found(
    m: Map<Seq<char>, JsonView>,
    key: Seq<char>,
    v: JsonView,
    t: Seq<char>,
    b: bool,
    items: Seq<JsonView>,
)
    ensures
        JsonView::Object(m.insert(key, v)).member(key) == Some(v),
        !m.contains_key(key) ==> JsonView::Object(m).member(key) is None,
        JsonView::Object(m).text_of(key) == Some(t) <==> m.contains_key(key) && m[key]
            == JsonView::Text(t),
        JsonView::Object(m).boolean_of(key) == Some(b) <==> m.contains_key(key) && m[key]
            == JsonView::Bool(b),
        JsonView::Object(m).items_of(key) == Some(items) <==> m.contains_key(key) && m[key]
            == JsonView::Array(items),
{
}

} // verus!
