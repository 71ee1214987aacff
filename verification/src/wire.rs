//! Text to JSON value and back. The grammar is serde_json's: this module
//! calls it and states what the rest of the library relies on.

use vstd::prelude::*;
use crate::error::{Error, ErrorCode};
use crate::json::{members_view, Json, JsonView};

verus! {

/// serde_json's own value. The library carries it from one call into
/// serde_json to the next and never looks into it.
#[verifier::external_type_specification]
#[verifier::external_body]
pub struct ExValue(serde_json::Value);

/// The JSON value that a `serde_json::Value` holds. A number that
/// `Number::as_i128` gives is an `Integer`; any other number is a `Real` with
/// the text that `Number`'s `Display` prints.
pub uninterp spec fn value_json(value: serde_json::Value) -> JsonView;

/// What `serde_json::from_str` makes of a text: the value it parses to, or
/// the message of the error it is refused with. Numbers are read by
/// serde_json's exact reader (its feature `float_roundtrip`).
pub uninterp spec fn parsed_json(text: Seq<char>) -> Result<JsonView, Seq<char>>;

/// The compact text that serde_json prints for a value; the members of an
/// object stand in the order of their keys, which is how serde_json's map
/// keeps them.
pub uninterp spec fn json_text(json: JsonView) -> Seq<char>;

/// `serde_json::from_str` at `Value`, with the error it may return turned
/// into its message: the result depends on the text alone.
#[verifier::external_body]
fn parse_value(text: &str) -> (parsed: Result<serde_json::Value, String>)
    ensures
        match parsed {
            Ok(value) => parsed_json(text@) == Ok::<JsonView, Seq<char>>(value_json(value)),
            Err(message) => parsed_json(text@) == Err::<JsonView, Seq<char>>(message@),
        },
{
    serde_json::from_str::<serde_json::Value>(text).map_err(|error| error.to_string())
}

/// One level of a `serde_json::Value`: its variant with what the variant
/// holds, the values below it still as serde_json has them.
enum Parts {
    Null,
    Bool(bool),
    Integer(i128),
    Real(String),
    Text(String),
    Array(Vec<serde_json::Value>),
    Object(Vec<(String, serde_json::Value)>),
}

/// The JSON values that a run of `serde_json::Value`s holds, one by one.
spec fn values_json(values: Seq<serde_json::Value>) -> Seq<JsonView> {
    Seq::new(values.len(), |i: int| value_json(values[i]))
}

/// The members that a run of keys with their `serde_json::Value`s stands
/// for; of two with one key the later one counts.
spec fn pairs_json(pairs: Seq<(String, serde_json::Value)>) -> Map<Seq<char>, JsonView>
    decreases pairs.len(),
{
    if pairs.len() == 0 {
        Map::empty()
    } else {
        pairs_json(pairs.drop_last()).insert(pairs.last().0@, value_json(pairs.last().1))
    }
}

/// That no two of the pairs share a key.
spec fn keys_differ(pairs: Seq<(String, serde_json::Value)>) -> bool {
    forall|i: int, j: int|
        0 <= i < j < pairs.len() ==> (#[trigger] pairs[i]).0@ != (#[trigger] pairs[j]).0@
}

/// The JSON value that the parts make up.
spec fn parts_json(parts: Parts) -> JsonView {
    match parts {
        Parts::Null => JsonView::Null,
        Parts::Bool(b) => JsonView::Bool(b),
        Parts::Integer(n) => JsonView::Integer(n as int),
        Parts::Real(text) => JsonView::Real(text@),
        Parts::Text(text) => JsonView::String(text@),
        Parts::Array(values) => JsonView::Array(values_json(values@)),
        Parts::Object(pairs) => JsonView::Object(pairs_json(pairs@)),
    }
}

/// Takes a `serde_json::Value` apart, one arm for each variant. A number
/// that `Number::as_i128` gives is an integer, any other number is held by
/// the text that `Number`'s `Display` prints. The members of an object are
/// those that `Map::into_iter` hands out; a `Map` holds each key once.
#[verifier::external_body]
fn parts_of(value: serde_json::Value) -> (parts: Parts)
    ensures
        parts_json(parts) == value_json(value),
        parts matches Parts::Object(pairs) ==> keys_differ(pairs@),
{
    match value {
        serde_json::Value::Null => Parts::Null,
        serde_json::Value::Bool(b) => Parts::Bool(b),
        serde_json::Value::Number(n) => match n.as_i128() {
            Some(i) => Parts::Integer(i),
            None => Parts::Real(n.to_string()),
        },
        serde_json::Value::String(s) => Parts::Text(s),
        serde_json::Value::Array(a) => Parts::Array(a),
        serde_json::Value::Object(m) => Parts::Object(m.into_iter().collect()),
    }
}

/// Whether serde_json can hold a number or a text as it stands: an integer
/// must lie between `i64::MIN` and `u64::MAX`, and the text of a `Real` must
/// parse to that very `Real`.
spec fn fits(parts: Parts) -> bool {
    match parts {
        Parts::Integer(i) => i64::MIN <= i <= u64::MAX,
        Parts::Real(text) => parsed_json(text@) == Ok::<JsonView, Seq<char>>(JsonView::Real(text@)),
        _ => true,
    }
}

/// Puts a `serde_json::Value` together, one arm for each variant:
/// `Number::from_i128` for an integer, `serde_json::from_str` for the text of
/// a `Real`, `Map::insert` pair by pair for an object, so that of two pairs
/// with one key the later one stays.
#[verifier::external_body]
fn value_of(parts: Parts) -> (value: serde_json::Value)
    requires
        fits(parts),
    ensures
        value_json(value) == parts_json(parts),
{
    match parts {
        Parts::Null => serde_json::Value::Null,
        Parts::Bool(b) => serde_json::Value::Bool(b),
        Parts::Integer(i) => serde_json::Value::Number(serde_json::Number::from_i128(i).unwrap()),
        Parts::Real(text) => serde_json::from_str(&text).unwrap(),
        Parts::Text(s) => serde_json::Value::String(s),
        Parts::Array(a) => serde_json::Value::Array(a),
        Parts::Object(pairs) => {
            let mut map = serde_json::Map::new();
            pairs.into_iter().for_each(|(k, v)| { map.insert(k, v); });
            serde_json::Value::Object(map)
        },
    }
}

/// The same items in the opposite order.
fn reversed<T>(items: Vec<T>) -> (turned: Vec<T>)
    ensures
        turned@ == items@.reverse(),
{
    let mut rest = items;
    let mut turned: Vec<T> = Vec::new();
    loop
        invariant
            rest@.len() + turned@.len() == items@.len(),
            forall|i: int| 0 <= i < rest@.len() ==> rest@[i] == items@[i],
            forall|i: int|
                0 <= i < turned@.len() ==> turned@[i] == items@[items@.len() - 1 - i],
        decreases rest@.len(),
    {
        match rest.pop() {
            Some(item) => {
                turned.push(item);
            },
            None => {
                assert(turned@ =~= items@.reverse());
                return turned;
            },
        }
    }
}

/// With keys that differ, each pair is a member of what the pairs stand for,
/// and there are no more members than pairs.
proof fn lemma_pairs_json(pairs: Seq<(String, serde_json::Value)>)
    requires
        keys_differ(pairs),
    ensures
        pairs_json(pairs).dom().finite(),
        forall|i: int|
            0 <= i < pairs.len() ==> pairs_json(pairs).contains_key((#[trigger] pairs[i]).0@)
                && pairs_json(pairs)[pairs[i].0@] == value_json(pairs[i].1),
    decreases pairs.len(),
{
    if pairs.len() > 0 {
        let front = pairs.drop_last();
        assert forall|i: int, j: int| 0 <= i < j < front.len() implies (#[trigger] front[i]).0@
            != (#[trigger] front[j]).0@ by {
            assert(front[i] == pairs[i] && front[j] == pairs[j]);
        }
        lemma_pairs_json(front);
        assert forall|i: int| 0 <= i < pairs.len() implies pairs_json(pairs).contains_key(
            (#[trigger] pairs[i]).0@,
        ) && pairs_json(pairs)[pairs[i].0@] == value_json(pairs[i].1) by {
            if i < pairs.len() - 1 {
                assert(front[i] == pairs[i]);
                assert(pairs[i].0@ != pairs[pairs.len() - 1].0@);
            }
        }
    }
}

/// Members that go pair by pair with the pairs, key for key and value for
/// value, stand for the same object.
proof fn lemma_members_of_pairs(
    members: Seq<(String, Json)>,
    pairs: Seq<(String, serde_json::Value)>,
)
    requires
        members.len() == pairs.len(),
        forall|i: int|
            0 <= i < pairs.len() ==> (#[trigger] members[i]).0@ == pairs[i].0@ && members[i].1@
                == value_json(pairs[i].1),
    ensures
        members_view(members) == pairs_json(pairs),
    decreases pairs.len(),
{
    if pairs.len() > 0 {
        let front = members.drop_last();
        assert forall|i: int| 0 <= i < pairs.len() - 1 implies (#[trigger] front[i]).0@
            == pairs.drop_last()[i].0@ && front[i].1@ == value_json(pairs.drop_last()[i].1) by {
            assert(front[i] == members[i]);
        }
        lemma_members_of_pairs(front, pairs.drop_last());
        assert(members.last() == members[members.len() - 1]);
    }
}

/// Copies a `serde_json::Value` into a [`Json`].
#[verifier::loop_isolation(false)]
fn from_value(value: serde_json::Value) -> (json: Json)
    ensures
        json@ == value_json(value),
    decreases value_json(value),
{
    match parts_of(value) {
        Parts::Null => Json::Null,
        Parts::Bool(b) => Json::Bool(b),
        Parts::Integer(n) => Json::Integer(n),
        Parts::Real(text) => Json::Real(text),
        Parts::Text(text) => Json::String(text),
        Parts::Array(values) => {
            let ghost below = values@;
            let mut rest = reversed(values);
            let mut items: Vec<Json> = Vec::new();
            loop
                invariant
                    rest@.len() + items@.len() == below.len(),
                    forall|i: int|
                        0 <= i < rest@.len() ==> rest@[i] == below[below.len() - 1 - i],
                    forall|i: int|
                        0 <= i < items@.len() ==> (#[trigger] items@[i])@ == value_json(below[i]),
                decreases rest@.len(),
            {
                match rest.pop() {
                    Some(next) => {
                        proof {
                            let whole = value_json(value);
                            let all = values_json(below);
                            assert(next == below[items@.len() as int]);
                            assert(all[items@.len() as int] == value_json(next));
                            assert(whole == JsonView::Array(all));
                            assert(decreases_to!(whole => whole->Array_0));
                            assert(decreases_to!(all => all[items@.len() as int]));
                        }
                        let item = from_value(next);
                        items.push(item);
                    },
                    None => {
                        assert(Json::Array(items)@->Array_0 =~= values_json(below));
                        return Json::Array(items);
                    },
                }
            }
        },
        Parts::Object(pairs) => {
            let ghost below = pairs@;
            proof {
                lemma_pairs_json(below);
            }
            let mut rest = reversed(pairs);
            let mut members: Vec<(String, Json)> = Vec::new();
            loop
                invariant
                    rest@.len() + members@.len() == below.len(),
                    forall|i: int|
                        0 <= i < rest@.len() ==> rest@[i] == below[below.len() - 1 - i],
                    forall|i: int|
                        0 <= i < members@.len() ==> (#[trigger] members@[i]).0@ == below[i].0@
                            && members@[i].1@ == value_json(below[i].1),
                decreases rest@.len(),
            {
                match rest.pop() {
                    Some((key, next)) => {
                        proof {
                            let whole = value_json(value);
                            let all = pairs_json(below);
                            assert((key, next) == below[members@.len() as int]);
                            assert(all.contains_key(key@) && all[key@] == value_json(next));
                            assert(whole == JsonView::Object(all));
                            assert(decreases_to!(whole => whole->Object_0));
                            assert(decreases_to!(all => all[key@]));
                        }
                        let member = from_value(next);
                        members.push((key, member));
                    },
                    None => {
                        proof {
                            lemma_members_of_pairs(members@, below);
                        }
                        return Json::Object(members);
                    },
                }
            }
        },
    }
}

/// Whether serde_json can hold a value as it stands: every integer in it lies
/// between `i64::MIN` and `u64::MAX`, and the text of every `Real` in it parses
/// to that very `Real`. The texts that do are those that serde_json prints
/// for a finite floating-point number, the shortest that name it: serde_json
/// is taken with its exact number reader, which reads each of them back to the
/// number it was printed for. A text that names a number in another way
/// (`12.50`, `1`), or none, is refused.
pub open spec fn writable(json: &Json) -> bool
    decreases json,
{
    match json {
        Json::Integer(i) => i64::MIN <= *i <= u64::MAX,
        Json::Real(text) => parsed_json(text@) == Ok::<JsonView, Seq<char>>(JsonView::Real(text@)),
        Json::Array(items) => forall|i: int|
            0 <= i < items@.len() ==> writable(#[trigger] &items@[i]),
        Json::Object(members) => forall|i: int|
            0 <= i < members@.len() ==> writable(&(#[trigger] members@[i]).1),
        _ => true,
    }
}

/// Copies a [`Json`] into a `serde_json::Value`.
#[verifier::loop_isolation(false)]
fn to_value(json: &Json) -> (value: serde_json::Value)
    requires
        writable(json),
    ensures
        value_json(value) == json@,
    decreases json,
{
    match json {
        Json::Null => value_of(Parts::Null),
        Json::Bool(b) => value_of(Parts::Bool(*b)),
        Json::Integer(n) => value_of(Parts::Integer(*n)),
        Json::Real(text) => value_of(Parts::Real(text.clone())),
        Json::String(text) => value_of(Parts::Text(text.clone())),
        Json::Array(items) => {
            let mut values: Vec<serde_json::Value> = Vec::new();
            let mut i: usize = 0;
            while i < items.len()
                invariant
                    i <= items.len(),
                    values@.len() == i,
                    forall|j: int|
                        0 <= j < i ==> value_json(#[trigger] values@[j]) == items@[j]@,
                decreases items.len() - i,
            {
                let value = to_value(&items[i]);
                values.push(value);
                i = i + 1;
            }
            assert(values_json(values@) =~= json@->Array_0);
            value_of(Parts::Array(values))
        },
        Json::Object(members) => {
            let mut pairs: Vec<(String, serde_json::Value)> = Vec::new();
            let mut i: usize = 0;
            while i < members.len()
                invariant
                    i <= members.len(),
                    pairs@.len() == i,
                    forall|j: int|
                        0 <= j < i ==> (#[trigger] pairs@[j]).0@ == members@[j].0@ && value_json(
                            pairs@[j].1,
                        ) == members@[j].1@,
                decreases members.len() - i,
            {
                let value = to_value(&members[i].1);
                pairs.push((members[i].0.clone(), value));
                i = i + 1;
            }
            proof {
                lemma_members_of_pairs(members@, pairs@);
            }
            value_of(Parts::Object(pairs))
        },
    }
}

/// `serde_json::Value`'s `Display`, through `to_string`: the compact text.
#[verifier::external_body]
fn value_text(value: &serde_json::Value) -> (text: String)
    ensures
        text@ == json_text(value_json(*value)),
{
    value.to_string()
}

/// Parses a text as one JSON value.
pub fn parse_json(text: &str) -> (parsed: Result<Json, Error>)
    ensures
        match parsed {
            Ok(json) => parsed_json(text@) == Ok::<JsonView, Seq<char>>(json@),
            Err(error) => error@ is JsonParseError && parsed_json(text@) == Err::<
                JsonView,
                Seq<char>,
            >(error@->JsonParseError_0),
        },
{
    match parse_value(text) {
        Ok(value) => Ok(from_value(value)),
        Err(message) => Err(Error(ErrorCode::JsonParseError(message))),
    }
}

/// Decides [`writable`].
#[verifier::loop_isolation(false)]
pub fn is_writable(json: &Json) -> (yes: bool)
    ensures
        yes == writable(json),
    decreases json,
{
    match json {
        Json::Integer(i) => -9223372036854775808i128 <= *i && *i <= 18446744073709551615i128,
        Json::Real(text) => match parse_json(text.as_str()) {
            Ok(Json::Real(again)) => again == *text,
            _ => false,
        },
        Json::Array(items) => {
            let mut i: usize = 0;
            while i < items.len()
                invariant
                    i <= items.len(),
                    forall|j: int| 0 <= j < i ==> writable(#[trigger] &items@[j]),
                decreases items.len() - i,
            {
                if !is_writable(&items[i]) {
                    return false;
                }
                i = i + 1;
            }
            true
        },
        Json::Object(members) => {
            let mut i: usize = 0;
            while i < members.len()
                invariant
                    i <= members.len(),
                    forall|j: int| 0 <= j < i ==> writable(&(#[trigger] members@[j]).1),
                decreases members.len() - i,
            {
                if !is_writable(&members[i].1) {
                    return false;
                }
                i = i + 1;
            }
            true
        },
        _ => true,
    }
}

/// Prints a value as compact JSON text, if serde_json can hold it.
pub fn to_text(json: &Json) -> (text: Option<String>)
    ensures
        match text {
            Some(t) => writable(json) && t@ == json_text(json@),
            None => !writable(json),
        },
{
    if is_writable(json) {
        let value = to_value(json);
        Some(value_text(&value))
    } else {
        None
    }
}

} // verus!
