//! JSON values: an own tree that is read and built here, and the calls that parse and render it.

use serde_json::Value;
use vstd::prelude::*;
use vstd::utf8::encode_utf8;
use crate::scalar::Scalar;
use crate::text::{same_text, text_less, text_less_irreflexive, text_less_transitive};

verus! {

#[verifier::external_type_specification]
#[verifier::external_body]
pub struct ExNumber(serde_json::Number);

#[verifier::external_type_specification]
#[verifier::external_body]
pub struct ExValue(serde_json::Value);

/// A floating-point number, carried as it was parsed. Only taking a `serde_json::Value` apart makes
/// one, and only of a number that is no integer.
pub struct FloatNumber {
    number: serde_json::Number,
}

impl FloatNumber {
    /// The bit pattern of the number.
    pub closed spec fn bits(self) -> u64 {
        float_bits(self.number)
    }
}

/// A JSON number: an integer, or a floating-point number.
pub enum JsonNumber {
    Unsigned(u64),
    Negative(i64),
    Float(FloatNumber),
}

/// A JSON value. The members of an object stand in ascending order of their keys.
pub enum Json {
    Null,
    Bool(bool),
    Number(JsonNumber),
    Text(String),
    Array(Vec<Json>),
    Object(Vec<(String, Json)>),
}

/// What a JSON number says; a floating-point number by its bit pattern.
pub enum NumberView {
    Unsigned(u64),
    Negative(i64),
    Float(u64),
}

/// What a JSON value says.
#[verifier::ext_equal]
pub enum JsonView {
    Null,
    Bool(bool),
    Number(NumberView),
    Text(Seq<char>),
    Array(Seq<JsonView>),
    Object(Seq<(Seq<char>, JsonView)>),
}

/// The bit pattern of a floating-point number.
pub uninterp spec fn float_bits(number: serde_json::Number) -> u64;

/// What a parsed value says.
pub uninterp spec fn value_view(value: serde_json::Value) -> JsonView;

/// What a text parses to, or why it does not parse.
pub uninterp spec fn parsed(bytes: Seq<u8>) -> Result<JsonView, Seq<char>>;

/// The compact text of a value.
pub uninterp spec fn compact(value: JsonView) -> Seq<char>;

/// The indented text of a value.
pub uninterp spec fn pretty(value: JsonView) -> Seq<char>;

/// The JSON string literal for a text: quoted, with the characters escaped that JSON asks for.
pub uninterp spec fn json_string(text: Seq<char>) -> Seq<char>;

impl View for JsonNumber {
    type V = NumberView;

    open spec fn view(&self) -> NumberView {
        match self {
            JsonNumber::Unsigned(n) => NumberView::Unsigned(*n),
            JsonNumber::Negative(n) => NumberView::Negative(*n),
            JsonNumber::Float(number) => NumberView::Float(number.bits()),
        }
    }
}

/// What a JSON value says.
pub open spec fn json_view(json: Json) -> JsonView
    decreases json,
{
    match json {
        Json::Null => JsonView::Null,
        Json::Bool(b) => JsonView::Bool(b),
        Json::Number(n) => JsonView::Number(n@),
        Json::Text(s) => JsonView::Text(s@),
        Json::Array(items) => JsonView::Array(
            Seq::new(
                items@.len(),
                |i: int|
                    if 0 <= i < items@.len() {
                        json_view(items@[i])
                    } else {
                        JsonView::Null
                    },
            ),
        ),
        Json::Object(members) => JsonView::Object(
            Seq::new(
                members@.len(),
                |i: int|
                    if 0 <= i < members@.len() {
                        (members@[i].0@, json_view(members@[i].1))
                    } else {
                        (Seq::<char>::empty(), JsonView::Null)
                    },
            ),
        ),
    }
}

impl View for Json {
    type V = JsonView;

    open spec fn view(&self) -> JsonView {
        json_view(*self)
    }
}

/// What the items of an array say.
pub open spec fn item_views(items: Seq<Json>) -> Seq<JsonView> {
    items.map_values(|item: Json| item@)
}

/// What the members of an object say.
pub open spec fn member_views(members: Seq<(String, Json)>) -> Seq<(Seq<char>, JsonView)> {
    members.map_values(|member: (String, Json)| (member.0@, member.1@))
}

/// An array says what its items say.
pub proof fn array_view(items: Vec<Json>)
    ensures
        Json::Array(items)@ == JsonView::Array(item_views(items@)),
{
    let whole = Json::Array(items);
    assert(whole@->Array_0 =~= item_views(items@));
}

/// An object says what its members say.
pub proof fn object_view(members: Vec<(String, Json)>)
    ensures
        Json::Object(members)@ == JsonView::Object(member_views(members@)),
{
    let whole = Json::Object(members);
    assert(whole@->Object_0 =~= member_views(members@));
}

/// True iff the value is in normal form: the keys of every object ascend strictly, and a negative
/// number is below zero, at every depth.
pub open spec fn normal(value: JsonView) -> bool
    decreases value,
{
    match value {
        JsonView::Number(NumberView::Negative(n)) => n < 0,
        JsonView::Array(items) => forall|i: int|
            #![trigger items[i]]
            0 <= i < items.len() ==> normal(items[i]),
        JsonView::Object(members) => {
            &&& forall|i: int, j: int|
                #![trigger members[i], members[j]]
                0 <= i < j < members.len() ==> text_less(members[i].0, members[j].0)
            &&& forall|i: int|
                #![trigger members[i]]
                0 <= i < members.len() ==> normal(members[i].1)
        },
        _ => true,
    }
}

/// True iff the value holds no floating-point number, at any depth.
pub open spec fn exact(value: JsonView) -> bool
    decreases value,
{
    match value {
        JsonView::Number(NumberView::Float(bits)) => false,
        JsonView::Array(items) => forall|i: int|
            #![trigger items[i]]
            0 <= i < items.len() ==> exact(items[i]),
        JsonView::Object(members) => forall|i: int|
            #![trigger members[i]]
            0 <= i < members.len() ==> exact(members[i].1),
        _ => true,
    }
}

/// The number of levels below a value.
pub open spec fn levels(value: JsonView) -> nat
    decreases value, 0int,
{
    match value {
        JsonView::Array(items) => item_levels(items, items.len() as int),
        JsonView::Object(members) => member_levels(members, members.len() as int),
        _ => 0,
    }
}

/// The number of levels that the first `n` items add.
pub open spec fn item_levels(items: Seq<JsonView>, n: int) -> nat
    decreases items, n,
{
    if n <= 0 || n > items.len() {
        0
    } else {
        let rest = item_levels(items, n - 1);
        let own = levels(items[n - 1]) + 1;
        if own > rest {
            own
        } else {
            rest
        }
    }
}

/// The number of levels that the first `n` members add.
pub open spec fn member_levels(members: Seq<(Seq<char>, JsonView)>, n: int) -> nat
    decreases members, n,
{
    if n <= 0 || n > members.len() {
        0
    } else {
        let rest = member_levels(members, n - 1);
        let own = levels(members[n - 1].1) + 1;
        if own > rest {
            own
        } else {
            rest
        }
    }
}

/// True iff the value says the same after it was rendered and parsed: it is in normal form, holds no
/// floating-point number, and is not nested deeper than a parser goes.
pub open spec fn reads_back(value: JsonView) -> bool {
    normal(value) && exact(value) && levels(value) <= 126
}

/// True iff the text parses to the value.
pub open spec fn reads_as(json: Seq<char>, value: JsonView) -> bool {
    parsed(encode_utf8(json)) == Ok::<JsonView, Seq<char>>(value)
}

// ---- the outside calls ----

/// `serde_json::to_string` of a `str`, which cannot fail: the JSON string literal, a function of
/// the text alone.
#[verifier::external_body]
pub(crate) fn json_string_text(text: &str) -> (r: String)
    ensures
        r@ == json_string(text@),
{
    serde_json::to_string(text).unwrap()
}

/// `serde_json::from_slice`: the value that the bytes write, or the text of the parse error. Both
/// are functions of the bytes alone.
#[verifier::external_body]
fn parse_value(bytes: &[u8]) -> (r: Result<Value, String>)
    ensures
        match r {
            Ok(value) => parsed(bytes@) == Ok::<JsonView, Seq<char>>(value_view(value)),
            Err(message) => parsed(bytes@) == Err::<JsonView, Seq<char>>(message@),
        },
{
    serde_json::from_slice(bytes).map_err(|error| error.to_string())
}

/// `serde_json::Value`, taken apart: the same value as an own tree. A `serde_json::Number` is an
/// integer where it fits in 64 bits; a negative one is only given for what is below zero. The
/// members of a `serde_json::Map` come in ascending order of their keys, and no key comes twice.
#[verifier::external_body]
fn tree_of_value(value: Value) -> (r: Json)
    ensures
        r@ == value_view(value),
        normal(r@),
{
    match value {
        Value::Null => Json::Null,
        Value::Bool(b) => Json::Bool(b),
        Value::Number(n) => Json::Number(match (n.as_u64(), n.as_i64()) {
            (Some(u), _) => JsonNumber::Unsigned(u),
            (None, Some(i)) => JsonNumber::Negative(i),
            (None, None) => JsonNumber::Float(FloatNumber { number: n }),
        }),
        Value::String(s) => Json::Text(s),
        Value::Array(items) => Json::Array(items.into_iter().map(tree_of_value).collect()),
        Value::Object(map) => Json::Object(map.into_iter().map(|(k, v)| (k, tree_of_value(v))).collect()),
    }
}

/// `serde_json::Value`, put together from an own tree. A tree in normal form gives a value that
/// says the same: its floating-point numbers came out of a value, where they were no integers.
#[verifier::external_body]
fn value_of_tree(json: &Json) -> (r: Value)
    ensures
        normal(json@) ==> value_view(r) == json@,
{
    match json {
        Json::Null => Value::Null,
        Json::Bool(b) => Value::Bool(*b),
        Json::Number(JsonNumber::Unsigned(n)) => Value::from(*n),
        Json::Number(JsonNumber::Negative(n)) => Value::from(*n),
        Json::Number(JsonNumber::Float(n)) => Value::Number(n.number.clone()),
        Json::Text(s) => Value::String(s.clone()),
        Json::Array(items) => Value::Array(items.iter().map(value_of_tree).collect()),
        Json::Object(map) => Value::Object(map.iter().map(|(k, v)| (k.clone(), value_of_tree(v))).collect()),
    }
}

/// `serde_json::Value`'s `Display` text: the compact JSON of the value. Parsed again, it gives the
/// same value, but for two things: a floating-point number may come back as one beside it, and the
/// parser gives up at 128 values that stand one in the other.
#[verifier::external_body]
fn compact_value(value: &Value) -> (r: String)
    ensures
        r@ == compact(value_view(*value)),
        reads_back(value_view(*value)) ==> reads_as(r@, value_view(*value)),
{
    value.to_string()
}

/// `serde_json::to_string_pretty`, which cannot fail for a value: its indented JSON.
#[verifier::external_body]
fn pretty_value(value: &Value) -> (r: String)
    ensures
        r@ == pretty(value_view(*value)),
{
    serde_json::to_string_pretty(value).unwrap()
}

/// `serde_json::Number::as_f64`, by its bit pattern.
#[verifier::external_body]
fn number_scalar(number: &serde_json::Number) -> (r: Scalar)
    ensures
        r.bits == float_bits(*number),
{
    Scalar::from_bits(number.as_f64().unwrap().to_bits())
}

/// `serde_json::Number::from_f64`, of the finite number with that bit pattern, which
/// `valence::protocol::Decode` reads from its eight bytes: the value is that number.
#[verifier::external_body]
fn float_value(bits: u64) -> (r: Value)
    requires
        (Scalar { bits }).finite(),
    ensures
        value_view(r) == JsonView::Number(NumberView::Float(bits)),
{
    let number = valence::protocol::Decode::decode(&mut bits.to_be_bytes().as_slice()).unwrap();
    Value::Number(serde_json::Number::from_f64(number).unwrap())
}

/// `Clone` of a `serde_json::Number` gives the same number.
pub assume_specification[ <serde_json::Number as Clone>::clone ](number: &serde_json::Number) -> (r:
    serde_json::Number)
    ensures
        r == *number,
;

// ---- reading ----

/// The value as an own tree.
pub fn json_of_value(value: Value) -> (r: Json)
    ensures
        r@ == value_view(value),
        normal(r@),
{
    tree_of_value(value)
}

/// The value of a tree.
pub fn value_of_json(json: &Json) -> (r: Value)
    ensures
        normal(json@) ==> value_view(r) == json@,
{
    value_of_tree(json)
}

/// The JSON value that the bytes write.
pub fn parse_json(bytes: &[u8]) -> (r: Result<Json, String>)
    ensures
        match r {
            Ok(json) => parsed(bytes@) == Ok::<JsonView, Seq<char>>(json@) && normal(json@),
            Err(message) => parsed(bytes@) == Err::<JsonView, Seq<char>>(message@),
        },
{
    match parse_value(bytes) {
        Ok(value) => Ok(tree_of_value(value)),
        Err(message) => Err(message),
    }
}

/// The index of the first member with that key, from `i` on.
pub open spec fn member_index(members: Seq<(Seq<char>, JsonView)>, key: Seq<char>, i: int) -> Option<
    int,
>
    decreases members.len() - i,
{
    if i >= members.len() {
        None
    } else if members[i].0 == key {
        Some(i)
    } else {
        member_index(members, key, i + 1)
    }
}

/// The member of an object with that key; other values have no members.
pub open spec fn member(value: JsonView, key: Seq<char>) -> Option<JsonView> {
    match value {
        JsonView::Object(members) => match member_index(members, key, 0) {
            Some(i) => Some(members[i].1),
            None => None,
        },
        _ => None,
    }
}

/// The text of a string value.
pub open spec fn text_of_value(value: JsonView) -> Option<Seq<char>> {
    match value {
        JsonView::Text(text) => Some(text),
        _ => None,
    }
}

/// The integer that a value is, where it fits in a signed 64-bit number.
pub open spec fn signed_of_value(value: JsonView) -> Option<int> {
    match value {
        JsonView::Number(NumberView::Unsigned(n)) => if n <= i64::MAX {
            Some(n as int)
        } else {
            None
        },
        JsonView::Number(NumberView::Negative(n)) => Some(n as int),
        _ => None,
    }
}

/// The integer that a value is, where it fits in an unsigned 64-bit number.
pub open spec fn unsigned_of_value(value: JsonView) -> Option<int> {
    match value {
        JsonView::Number(NumberView::Unsigned(n)) => Some(n as int),
        JsonView::Number(NumberView::Negative(n)) => if n >= 0 {
            Some(n as int)
        } else {
            None
        },
        _ => None,
    }
}

/// The text in an optional string slice.
pub open spec fn slice_text(s: Option<&str>) -> Option<Seq<char>> {
    match s {
        Some(s) => Some(s@),
        None => None,
    }
}

impl Json {
    /// The member with that key.
    pub fn get(&self, key: &str) -> (r: Option<&Json>)
        ensures
            match r {
                Some(json) => member(self@, key@) == Some(json@),
                None => member(self@, key@) is None,
            },
    {
        match self {
            Json::Object(members) => {
                let ghost views = self@->Object_0;
                let mut i: usize = 0;
                while i < members.len()
                    invariant
                        i <= members@.len(),
                        *self == Json::Object(*members),
                        views == self@->Object_0,
                        views.len() == members@.len(),
                        member_index(views, key@, 0) == member_index(views, key@, i as int),
                    decreases members@.len() - i,
                {
                    proof {
                        assert(views[i as int] == (
                            members@[i as int].0@,
                            members@[i as int].1@,
                        ));
                    }
                    if same_text(members[i].0.as_str(), key) {
                        return Some(&members[i].1);
                    }
                    i = i + 1;
                }
                None
            },
            _ => None,
        }
    }

    pub fn as_str(&self) -> (r: Option<&str>)
        ensures
            slice_text(r) == text_of_value(self@),
    {
        match self {
            Json::Text(text) => Some(text.as_str()),
            _ => None,
        }
    }

    pub fn as_i64(&self) -> (r: Option<i64>)
        ensures
            match r {
                Some(n) => signed_of_value(self@) == Some(n as int),
                None => signed_of_value(self@) is None,
            },
    {
        match self {
            Json::Number(JsonNumber::Unsigned(n)) => if *n <= i64::MAX as u64 {
                Some(*n as i64)
            } else {
                None
            },
            Json::Number(JsonNumber::Negative(n)) => Some(*n),
            _ => None,
        }
    }

    pub fn as_u64(&self) -> (r: Option<u64>)
        ensures
            match r {
                Some(n) => unsigned_of_value(self@) == Some(n as int),
                None => unsigned_of_value(self@) is None,
            },
    {
        match self {
            Json::Number(JsonNumber::Unsigned(n)) => Some(*n),
            Json::Number(JsonNumber::Negative(n)) => if *n >= 0 {
                Some(*n as u64)
            } else {
                None
            },
            _ => None,
        }
    }

    pub fn is_object(&self) -> (r: bool)
        ensures
            r == self@ is Object,
    {
        match self {
            Json::Object(members) => true,
            _ => false,
        }
    }

    /// The compact JSON of the value.
    pub fn compact_text(&self) -> (r: String)
        ensures
            normal(self@) ==> r@ == compact(self@),
            reads_back(self@) ==> reads_as(r@, self@),
    {
        compact_value(&value_of_tree(self))
    }

    /// The indented JSON of the value.
    pub fn pretty_text(&self) -> (r: String)
        ensures
            normal(self@) ==> r@ == pretty(self@),
    {
        pretty_value(&value_of_tree(self))
    }
}

/// The JSON of a floating-point number; `null` where it is infinite or a NaN.
pub open spec fn number_json(number: Scalar) -> Seq<char> {
    if number.finite() {
        compact(JsonView::Number(NumberView::Float(number.bits)))
    } else {
        "null"@
    }
}

/// The JSON of a floating-point number.
pub fn number_text(number: Scalar) -> (r: String)
    ensures
        r@ == number_json(number),
{
    if number.is_finite() {
        compact_value(&float_value(number.bits))
    } else {
        "null".to_owned()
    }
}

/// A copy of the value.
pub fn copy_json(json: &Json) -> (r: Json)
    ensures
        r@ == json@,
    decreases json,
{
    match json {
        Json::Null => Json::Null,
        Json::Bool(b) => Json::Bool(*b),
        Json::Number(JsonNumber::Unsigned(n)) => Json::Number(JsonNumber::Unsigned(*n)),
        Json::Number(JsonNumber::Negative(n)) => Json::Number(JsonNumber::Negative(*n)),
        Json::Number(JsonNumber::Float(n)) => Json::Number(
            JsonNumber::Float(FloatNumber { number: n.number.clone() }),
        ),
        Json::Text(text) => Json::Text(text.clone()),
        Json::Array(items) => {
            let mut copy: Vec<Json> = Vec::new();
            let mut i: usize = 0;
            while i < items.len()
                invariant
                    i <= items@.len(),
                    *json == Json::Array(*items),
                    item_views(copy@) =~= item_views(items@).take(i as int),
                decreases items@.len() - i,
            {
                let ghost before = item_views(copy@);
                proof {
                    assert(decreases_to!(json => json->Array_0@[i as int]));
                }
                let item = copy_json(&items[i]);
                copy.push(item);
                proof {
                    assert(item_views(copy@) =~= before.push(item@));
                }
                i = i + 1;
            }
            proof {
                assert(item_views(items@).take(i as int) =~= item_views(items@));
                array_view(copy);
                array_view(*items);
            }
            Json::Array(copy)
        },
        Json::Object(members) => {
            let mut copy: Vec<(String, Json)> = Vec::new();
            let mut i: usize = 0;
            while i < members.len()
                invariant
                    i <= members@.len(),
                    *json == Json::Object(*members),
                    member_views(copy@) =~= member_views(members@).take(i as int),
                decreases members@.len() - i,
            {
                let ghost before = member_views(copy@);
                proof {
                    assert(decreases_to!(json => json->Object_0@[i as int].1));
                }
                let key = members[i].0.clone();
                let value = copy_json(&members[i].1);
                copy.push((key, value));
                proof {
                    assert(member_views(copy@) =~= before.push((key@, value@)));
                }
                i = i + 1;
            }
            proof {
                assert(member_views(members@).take(i as int) =~= member_views(members@));
                object_view(copy);
                object_view(*members);
            }
            Json::Object(copy)
        },
    }
}

// ---- building ----

/// The members of an object that is being built.
pub struct Fields {
    members: Vec<(String, Json)>,
}

impl View for Fields {
    type V = Seq<(Seq<char>, JsonView)>;

    closed spec fn view(&self) -> Seq<(Seq<char>, JsonView)> {
        member_views(self.members@)
    }
}

impl Fields {
    pub fn new() -> (r: Self)
        ensures
            r@ == Seq::<(Seq<char>, JsonView)>::empty(),
    {
        let r = Fields { members: Vec::new() };
        proof {
            assert(r@ =~= Seq::<(Seq<char>, JsonView)>::empty());
        }
        r
    }

    /// The members with one more behind them.
    pub fn with(self, key: &str, value: Json) -> (r: Self)
        ensures
            r@ == self@.push((key@, value@)),
    {
        let ghost before = self@;
        let mut members = self.members;
        members.push((key.to_owned(), value));
        let r = Fields { members };
        proof {
            assert(r@ =~= before.push((key@, value@)));
        }
        r
    }

    pub fn object(self) -> (r: Json)
        ensures
            r@ == JsonView::Object(self@),
    {
        proof {
            object_view(self.members);
        }
        Json::Object(self.members)
    }
}

/// The items of an array that is being built.
pub struct Items {
    items: Vec<Json>,
}

impl View for Items {
    type V = Seq<JsonView>;

    closed spec fn view(&self) -> Seq<JsonView> {
        item_views(self.items@)
    }
}

impl Items {
    pub fn new() -> (r: Self)
        ensures
            r@ == Seq::<JsonView>::empty(),
    {
        let r = Items { items: Vec::new() };
        proof {
            assert(r@ =~= Seq::<JsonView>::empty());
        }
        r
    }

    /// The items with one more behind them.
    pub fn with(self, value: Json) -> (r: Self)
        ensures
            r@ == self@.push(value@),
    {
        let ghost before = self@;
        let mut items = self.items;
        items.push(value);
        let r = Items { items };
        proof {
            assert(r@ =~= before.push(value@));
        }
        r
    }

    pub fn array(self) -> (r: Json)
        ensures
            r@ == JsonView::Array(self@),
    {
        proof {
            array_view(self.items);
        }
        Json::Array(self.items)
    }
}

/// A string value.
pub fn text(s: &str) -> (r: Json)
    ensures
        r@ == JsonView::Text(s@),
{
    Json::Text(s.to_owned())
}

/// The value of an integer.
pub open spec fn integer_value(n: int) -> JsonView {
    if n < 0 {
        JsonView::Number(NumberView::Negative(n as i64))
    } else {
        JsonView::Number(NumberView::Unsigned(n as u64))
    }
}

/// A number value.
pub fn integer(n: i64) -> (r: Json)
    ensures
        r@ == integer_value(n as int),
{
    if n < 0 {
        Json::Number(JsonNumber::Negative(n))
    } else {
        Json::Number(JsonNumber::Unsigned(n as u64))
    }
}

/// A number value.
pub fn unsigned(n: u64) -> (r: Json)
    ensures
        r@ == integer_value(n as int),
{
    Json::Number(JsonNumber::Unsigned(n))
}

/// The value of a floating-point number; `null` where it is infinite or a NaN.
pub open spec fn number_value(number: Scalar) -> JsonView {
    if number.finite() {
        JsonView::Number(NumberView::Float(number.bits))
    } else {
        JsonView::Null
    }
}

/// The value of a floating-point number.
pub fn float(number: Scalar) -> (r: Json)
    ensures
        r@ == number_value(number),
{
    if number.is_finite() {
        tree_of_value(float_value(number.bits))
    } else {
        Json::Null
    }
}

/// A boolean value.
pub fn boolean(b: bool) -> (r: Json)
    ensures
        r@ == JsonView::Bool(b),
{
    Json::Bool(b)
}

// ---- equality ----

/// True iff the two numbers are equal: integers by their value, floating-point numbers as such,
/// and none of one sort with one of the other.
pub open spec fn numbers_equal(a: NumberView, b: NumberView) -> bool {
    match (a, b) {
        (NumberView::Unsigned(x), NumberView::Unsigned(y)) => x == y,
        (NumberView::Negative(x), NumberView::Negative(y)) => x == y,
        (NumberView::Float(x), NumberView::Float(y)) => (Scalar { bits: x }).equals(
            Scalar { bits: y },
        ),
        _ => false,
    }
}

/// True iff the two values are equal, member by member and item by item.
pub open spec fn values_equal(a: JsonView, b: JsonView) -> bool
    decreases a,
{
    match (a, b) {
        (JsonView::Null, JsonView::Null) => true,
        (JsonView::Bool(x), JsonView::Bool(y)) => x == y,
        (JsonView::Number(x), JsonView::Number(y)) => numbers_equal(x, y),
        (JsonView::Text(x), JsonView::Text(y)) => x == y,
        (JsonView::Array(x), JsonView::Array(y)) => x.len() == y.len() && forall|i: int|
            #![trigger x[i]]
            0 <= i < x.len() ==> values_equal(x[i], y[i]),
        (JsonView::Object(x), JsonView::Object(y)) => x.len() == y.len() && forall|i: int|
            #![trigger x[i]]
            0 <= i < x.len() ==> x[i].0 == y[i].0 && values_equal(x[i].1, y[i].1),
        _ => false,
    }
}

fn same_number(a: &JsonNumber, b: &JsonNumber) -> (r: bool)
    ensures
        r == numbers_equal(a@, b@),
{
    match (a, b) {
        (JsonNumber::Unsigned(x), JsonNumber::Unsigned(y)) => *x == *y,
        (JsonNumber::Negative(x), JsonNumber::Negative(y)) => *x == *y,
        (JsonNumber::Float(x), JsonNumber::Float(y)) => number_scalar(&x.number).same(
            number_scalar(&y.number),
        ),
        _ => false,
    }
}

/// True iff the two values are equal.
pub fn same_json(a: &Json, b: &Json) -> (r: bool)
    ensures
        r == values_equal(a@, b@),
    decreases a,
{
    match (a, b) {
        (Json::Null, Json::Null) => true,
        (Json::Bool(x), Json::Bool(y)) => *x == *y,
        (Json::Number(x), Json::Number(y)) => same_number(x, y),
        (Json::Text(x), Json::Text(y)) => same_text(x.as_str(), y.as_str()),
        (Json::Array(x), Json::Array(y)) => {
            if x.len() != y.len() {
                return false;
            }
            let ghost xs = a@->Array_0;
            let ghost ys = b@->Array_0;
            let mut i: usize = 0;
            while i < x.len()
                invariant
                    i <= x@.len(),
                    x@.len() == y@.len(),
                    *a == Json::Array(*x),
                    *b == Json::Array(*y),
                    xs == a@->Array_0,
                    ys == b@->Array_0,
                    forall|j: int| #![trigger xs[j]] 0 <= j < i ==> values_equal(xs[j], ys[j]),
                decreases x@.len() - i,
            {
                proof {
                    assert(xs[i as int] == x@[i as int]@);
                    assert(ys[i as int] == y@[i as int]@);
                }
                if !same_json(&x[i], &y[i]) {
                    return false;
                }
                i = i + 1;
            }
            true
        },
        (Json::Object(x), Json::Object(y)) => {
            if x.len() != y.len() {
                return false;
            }
            let ghost xs = a@->Object_0;
            let ghost ys = b@->Object_0;
            let mut i: usize = 0;
            while i < x.len()
                invariant
                    i <= x@.len(),
                    x@.len() == y@.len(),
                    *a == Json::Object(*x),
                    *b == Json::Object(*y),
                    xs == a@->Object_0,
                    ys == b@->Object_0,
                    forall|j: int|
                        #![trigger xs[j]]
                        0 <= j < i ==> xs[j].0 == ys[j].0 && values_equal(xs[j].1, ys[j].1),
                decreases x@.len() - i,
            {
                proof {
                    assert(xs[i as int] == (x@[i as int].0@, x@[i as int].1@));
                    assert(ys[i as int] == (y@[i as int].0@, y@[i as int].1@));
                }
                if !same_text(x[i].0.as_str(), y[i].0.as_str()) || !same_json(&x[i].1, &y[i].1) {
                    return false;
                }
                i = i + 1;
            }
            true
        },
        _ => false,
    }
}

/// A value without floating-point numbers is equal to itself.
pub proof fn exact_values_equal_themselves(value: JsonView)
    requires
        exact(value),
    ensures
        values_equal(value, value),
    decreases value,
{
    match value {
        JsonView::Array(items) => {
            assert forall|i: int| #![trigger items[i]] 0 <= i < items.len() implies values_equal(
                items[i],
                items[i],
            ) by {
                exact_values_equal_themselves(items[i]);
            }
        },
        JsonView::Object(members) => {
            assert forall|i: int| #![trigger members[i]] 0 <= i < members.len() implies values_equal(
                members[i].1,
                members[i].1,
            ) by {
                exact_values_equal_themselves(members[i].1);
            }
        },
        _ => {},
    }
}

// ---- the order of keys ----

/// True iff two lists of members have the same keys: `to` says where those of the first stand in the
/// second, and `back` the other way.
pub open spec fn keys_match(
    x: Seq<(Seq<char>, JsonView)>,
    y: Seq<(Seq<char>, JsonView)>,
    to: Seq<int>,
    back: Seq<int>,
) -> bool {
    &&& to.len() == x.len()
    &&& back.len() == y.len()
    &&& forall|i: int|
        #![trigger to[i]]
        0 <= i < x.len() ==> 0 <= to[i] < y.len() && y[to[i]].0 == x[i].0
    &&& forall|j: int|
        #![trigger back[j]]
        0 <= j < y.len() ==> 0 <= back[j] < x.len() && x[back[j]].0 == y[j].0
}

/// True iff two values say the same but for the order in which the members of objects stand.
pub open spec fn same_but_for_order(a: JsonView, b: JsonView) -> bool
    decreases a,
{
    match (a, b) {
        (JsonView::Array(x), JsonView::Array(y)) => x.len() == y.len() && forall|i: int|
            #![trigger x[i]]
            0 <= i < x.len() ==> same_but_for_order(x[i], y[i]),
        (JsonView::Object(x), JsonView::Object(y)) => x.len() == y.len() && exists|
            to: Seq<int>,
            back: Seq<int>,
        | #[trigger]
            keys_match(x, y, to, back) && forall|i: int|
                #![trigger to[i]]
                0 <= i < x.len() ==> same_but_for_order(x[i].1, y[to[i]].1),
        _ => a == b,
    }
}

/// True iff the keys ascend strictly.
spec fn keys_in_order(x: Seq<(Seq<char>, JsonView)>) -> bool {
    forall|i: int, j: int|
        #![trigger x[i], x[j]]
        0 <= i < j < x.len() ==> text_less(x[i].0, x[j].0)
}

proof fn keys_stand_in_place(
    x: Seq<(Seq<char>, JsonView)>,
    y: Seq<(Seq<char>, JsonView)>,
    to: Seq<int>,
    back: Seq<int>,
    n: int,
)
    requires
        keys_in_order(x),
        keys_in_order(y),
        x.len() == y.len(),
        keys_match(x, y, to, back),
        0 <= n <= x.len(),
    ensures
        forall|k: int| #![trigger to[k]] 0 <= k < n ==> to[k] == k,
    decreases n,
{
    if n > 0 {
        keys_stand_in_place(x, y, to, back, n - 1);
        let i = n - 1;
        let j = to[i];
        let m = back[i];
        assert(y[j].0 == x[i].0);
        assert(x[m].0 == y[i].0);
        text_less_irreflexive(x[i].0);
        text_less_irreflexive(y[i].0);
        if j < i {
            assert(to[j] == j);
            assert(y[j].0 == x[j].0);
            assert(text_less(x[j].0, x[i].0));
        }
        if i < j {
            assert(text_less(y[i].0, y[j].0));
            if m < i {
                assert(to[m] == m);
                assert(y[m].0 == x[m].0);
                assert(text_less(y[m].0, y[i].0));
            } else if i < m {
                assert(text_less(x[i].0, x[m].0));
                text_less_transitive(x[i].0, y[i].0, x[i].0);
            }
        }
    }
}

/// The order of keys does not matter: two documents that differ in nothing else are one value once
/// they are parsed, so that whatever is read from them is the same.
pub proof fn key_order_does_not_matter(a: JsonView, b: JsonView)
    requires
        normal(a),
        normal(b),
        same_but_for_order(a, b),
    ensures
        a == b,
    decreases a,
{
    match (a, b) {
        (JsonView::Array(x), JsonView::Array(y)) => {
            assert forall|i: int| 0 <= i < x.len() implies x[i] == y[i] by {
                assert(same_but_for_order(x[i], y[i]));
                assert(normal(x[i]) && normal(y[i]));
                key_order_does_not_matter(x[i], y[i]);
            }
            assert(x =~= y);
        },
        (JsonView::Object(x), JsonView::Object(y)) => {
            let (to, back) = choose|to: Seq<int>, back: Seq<int>| #[trigger]
                keys_match(x, y, to, back) && forall|i: int|
                    #![trigger to[i]]
                    0 <= i < x.len() ==> same_but_for_order(x[i].1, y[to[i]].1);
            keys_stand_in_place(x, y, to, back, x.len() as int);
            assert forall|i: int| 0 <= i < x.len() implies x[i] == y[i] by {
                assert(to[i] == i);
                assert(normal(x[i].1) && normal(y[i].1));
                key_order_does_not_matter(x[i].1, y[i].1);
            }
            assert(x =~= y);
        },
        _ => {},
    }
}

proof fn index_from(members: Seq<(Seq<char>, JsonView)>, key: Seq<char>, from: int, i: int)
    requires
        0 <= from <= i < members.len(),
        members[i].0 == key,
        forall|j: int| from <= j < i ==> (#[trigger] members[j]).0 != key,
    ensures
        member_index(members, key, from) == Some(i),
    decreases i - from,
{
    if from < i {
        assert(members[from].0 != key);
        index_from(members, key, from + 1, i);
    }
}

/// The member of an object with a key is the first one that has it.
pub proof fn first_member(members: Seq<(Seq<char>, JsonView)>, key: Seq<char>, i: int)
    requires
        0 <= i < members.len(),
        members[i].0 == key,
        forall|j: int| 0 <= j < i ==> (#[trigger] members[j]).0 != key,
    ensures
        member(JsonView::Object(members), key) == Some(members[i].1),
{
    index_from(members, key, 0, i);
}

proof fn index_is_none(members: Seq<(Seq<char>, JsonView)>, key: Seq<char>, from: int)
    requires
        0 <= from <= members.len(),
        forall|j: int| from <= j < members.len() ==> (#[trigger] members[j]).0 != key,
    ensures
        member_index(members, key, from) is None,
    decreases members.len() - from,
{
    if from < members.len() {
        assert(members[from].0 != key);
        index_is_none(members, key, from + 1);
    }
}

/// An object has no member with a key that none of its members has, and what is no object has no
/// member at all.
pub proof fn missing_member(value: JsonView, key: Seq<char>)
    requires
        value matches JsonView::Object(members) ==> forall|j: int|
            0 <= j < members.len() ==> (#[trigger] members[j]).0 != key,
    ensures
        member(value, key) is None,
{
    if let JsonView::Object(members) = value {
        index_is_none(members, key, 0);
    }
}

/// A whole number reads back from its value, signed or not, as far as it fits.
pub proof fn integers_read_back(n: int)
    requires
        i64::MIN <= n <= u64::MAX,
    ensures
        n <= i64::MAX ==> signed_of_value(integer_value(n)) == Some(n),
        n > i64::MAX ==> signed_of_value(integer_value(n)) is None,
        n >= 0 ==> unsigned_of_value(integer_value(n)) == Some(n),
        n < 0 ==> unsigned_of_value(integer_value(n)) is None,
{
}

/// Two values without floating-point numbers are equal exactly where they are the same.
pub proof fn equal_exact_values_are_the_same(a: JsonView, b: JsonView)
    requires
        exact(a),
    ensures
        values_equal(a, b) <==> a == b,
    decreases a,
{
    exact_values_equal_themselves(a);
    if values_equal(a, b) {
        match (a, b) {
            (JsonView::Array(x), JsonView::Array(y)) => {
                assert forall|i: int| 0 <= i < x.len() implies x[i] == y[i] by {
                    equal_exact_values_are_the_same(x[i], y[i]);
                }
                assert(x =~= y);
            },
            (JsonView::Object(x), JsonView::Object(y)) => {
                assert forall|i: int| 0 <= i < x.len() implies x[i] == y[i] by {
                    equal_exact_values_are_the_same(x[i].1, y[i].1);
                }
                assert(x =~= y);
            },
            _ => {},
        }
    }
}

} // verus!
