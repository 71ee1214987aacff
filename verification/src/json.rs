//! The untyped JSON value that travels on the wire.

use vstd::prelude::*;
use crate::text::text_eq;

verus! {

/// Mathematical model of a JSON value.
pub enum JsonView {
    Null,
    Bool(bool),
    /// A number that serde_json holds as an integer: one written without
    /// fraction or exponent that lies between `i64::MIN` and `u64::MAX`,
    /// but for `-0`.
    Integer(int),
    /// Any other number, by the decimal text that serde_json prints for it:
    /// one written with a fraction or an exponent, one written without them
    /// that lies outside `i64::MIN..=u64::MAX`, and `-0`.
    Real(Seq<char>),
    String(Seq<char>),
    Array(Seq<JsonView>),
    Object(Map<Seq<char>, JsonView>),
}

impl JsonView {
    /// The member of an object under `key`; `None` where `self` is no object
    /// or has no such member.
    pub open spec fn member(self, key: Seq<char>) -> Option<JsonView> {
        match self {
            JsonView::Object(m) => if m.contains_key(key) {
                Some(m[key])
            } else {
                None
            },
            _ => None,
        }
    }
}

/// A JSON value. A number that serde_json holds as a floating-point number
/// is a `Real`, held by the decimal text that serde_json prints for it.
#[derive(Debug, PartialEq, Eq)]
pub enum Json {
    Null,
    Bool(bool),
    Integer(i128),
    Real(String),
    String(String),
    Array(Vec<Json>),
    /// The members in the order they were given; of two members with one key
    /// the later one counts.
    Object(Vec<(String, Json)>),
}

/// The members of an object as a map; of two members with one key the later
/// one counts.
pub open spec fn members_view(members: Seq<(String, Json)>) -> Map<Seq<char>, JsonView>
    decreases members, 0int,
{
    if members.len() == 0 {
        Map::empty()
    } else {
        members_view(members.drop_last()).insert(members.last().0@, members.last().1.view())
    }
}

impl View for Json {
    type V = JsonView;

    open spec fn view(&self) -> JsonView
        decreases self, 1int,
    {
        match self {
            Json::Null => JsonView::Null,
            Json::Bool(b) => JsonView::Bool(*b),
            Json::Integer(n) => JsonView::Integer(*n as int),
            Json::Real(text) => JsonView::Real(text@),
            Json::String(text) => JsonView::String(text@),
            Json::Array(items) => JsonView::Array(
                Seq::new(
                    items@.len(),
                    |i: int|
                        if 0 <= i < items@.len() {
                            items@[i].view()
                        } else {
                            JsonView::Null
                        },
                ),
            ),
            Json::Object(members) => JsonView::Object(members_view(members@)),
        }
    }
}

/// The views of a run of values, one by one.
pub open spec fn items_view(items: Seq<Json>) -> Seq<JsonView> {
    Seq::new(items.len(), |i: int| items[i]@)
}

/// An array's view is the views of its items.
pub proof fn lemma_array_view(items: Vec<Json>)
    ensures
        Json::Array(items)@ == JsonView::Array(items_view(items@)),
{
    assert(Json::Array(items)@->Array_0 =~= items_view(items@));
}

/// A member put behind the others overrides what they hold under its key.
pub proof fn lemma_members_push(members: Seq<(String, Json)>, member: (String, Json))
    ensures
        members_view(members.push(member)) == members_view(members).insert(
            member.0@,
            member.1@,
        ),
        members_view(Seq::empty()) == Map::<Seq<char>, JsonView>::empty(),
{
    let longer = members.push(member);
    assert(longer.last() == member);
    assert(longer.drop_last() =~= members);
}

/// The value of the last member with the given key, if there is one.
pub open spec fn lookup(members: Seq<(String, Json)>, key: Seq<char>) -> Option<JsonView>
    decreases members.len(),
{
    if members.len() == 0 {
        None
    } else if members.last().0@ == key {
        Some(members.last().1@)
    } else {
        lookup(members.drop_last(), key)
    }
}

/// What `members_view` holds under a key is what `lookup` finds.
pub proof fn lemma_members_lookup(members: Seq<(String, Json)>, key: Seq<char>)
    ensures
        JsonView::Object(members_view(members)).member(key) == lookup(members, key),
    decreases members.len(),
{
    if members.len() > 0 {
        lemma_members_lookup(members.drop_last(), key);
        assert(members_view(members) == members_view(members.drop_last()).insert(
            members.last().0@,
            members.last().1@,
        ));
    } else {
        assert(members_view(members) == Map::<Seq<char>, JsonView>::empty());
    }
}

impl Json {
    /// Looks up the member of an object under `key`.
    pub fn get(&self, key: &str) -> (found: Option<&Json>)
        ensures
            match found {
                Some(value) => self@.member(key@) == Some(value@),
                None => self@.member(key@) is None,
            },
    {
        match self {
            Json::Object(members) => {
                let mut i: usize = members.len();
                proof {
                    lemma_members_lookup(members@, key@);
                    assert(members@.take(i as int) == members@);
                }
                while i > 0
                    invariant
                        i <= members.len(),
                        self@.member(key@) == lookup(members@, key@),
                        lookup(members@, key@) == lookup(members@.take(i as int), key@),
                    decreases i,
                {
                    i = i - 1;
                    proof {
                        let upto = members@.take(i + 1);
                        assert(upto.last() == members@[i as int]);
                        assert(upto.drop_last() == members@.take(i as int));
                    }
                    if text_eq(members[i].0.as_str(), key) {
                        return Some(&members[i].1);
                    }
                }
                None
            },
            _ => None,
        }
    }
}

} // verus!
