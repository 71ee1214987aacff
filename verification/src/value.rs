//! The domain values that the player's untyped values decode to.

use vstd::prelude::*;
use crate::error::{Error, ErrorCode, ErrorView};
use crate::json::{lemma_members_lookup, lookup, members_view, Json, JsonView};
use crate::text::text_eq;

verus! {

/// One entry of the playlist.
#[derive(Debug, Clone, PartialEq, Eq)]
pub struct PlaylistEntry {
    /// The position of the entry in the playlist, from 0.
    pub id: usize,
    pub filename: String,
    pub title: Option<String>,
    /// Whether this entry is the one being played.
    pub current: bool,
}

/// Mathematical model of a [`PlaylistEntry`].
pub struct PlaylistEntryView {
    pub id: nat,
    pub filename: Seq<char>,
    pub title: Option<Seq<char>>,
    pub current: bool,
}

impl View for PlaylistEntry {
    type V = PlaylistEntryView;

    open spec fn view(&self) -> PlaylistEntryView {
        PlaylistEntryView {
            id: self.id as nat,
            filename: self.filename@,
            title: match self.title {
                Some(title) => Some(title@),
                None => None,
            },
            current: self.current,
        }
    }
}

/// The views of a run of entries, one by one.
pub open spec fn entries_of(entries: Seq<PlaylistEntry>) -> Seq<PlaylistEntryView> {
    Seq::new(entries.len(), |i: int| entries[i]@)
}

/// The playlist of the player, in playing order.
#[derive(Debug, Clone, PartialEq, Eq)]
pub struct Playlist(pub Vec<PlaylistEntry>);

impl View for Playlist {
    type V = Seq<PlaylistEntryView>;

    open spec fn view(&self) -> Seq<PlaylistEntryView> {
        entries_of(self.0@)
    }
}

/// A value of the player. A `Double` is held as its decimal text, a `HashMap`
/// as its entries, each key once.
#[derive(Debug, PartialEq, Eq)]
pub enum MpvDataType {
    Array(Vec<MpvDataType>),
    Bool(bool),
    Double(String),
    HashMap(Vec<(String, MpvDataType)>),
    Null,
    Playlist(Playlist),
    String(String),
    Usize(usize),
}

/// Mathematical model of an [`MpvDataType`].
pub enum DataView {
    Array(Seq<DataView>),
    Bool(bool),
    Double(Seq<char>),
    HashMap(Map<Seq<char>, DataView>),
    Null,
    Playlist(Seq<PlaylistEntryView>),
    String(Seq<char>),
    Usize(nat),
}

/// The entries of a map as a mathematical map; of two entries with one key
/// the later one counts.
pub open spec fn entries_view(entries: Seq<(String, MpvDataType)>) -> Map<Seq<char>, DataView>
    decreases entries, 0int,
{
    if entries.len() == 0 {
        Map::empty()
    } else {
        entries_view(entries.drop_last()).insert(entries.last().0@, entries.last().1.view())
    }
}

impl View for MpvDataType {
    type V = DataView;

    open spec fn view(&self) -> DataView
        decreases self, 1int,
    {
        match self {
            MpvDataType::Array(items) => DataView::Array(
                Seq::new(
                    items@.len(),
                    |i: int|
                        if 0 <= i < items@.len() {
                            items@[i].view()
                        } else {
                            DataView::Null
                        },
                ),
            ),
            MpvDataType::Bool(b) => DataView::Bool(*b),
            MpvDataType::Double(text) => DataView::Double(text@),
            MpvDataType::HashMap(entries) => DataView::HashMap(entries_view(entries@)),
            MpvDataType::Null => DataView::Null,
            MpvDataType::Playlist(playlist) => DataView::Playlist(playlist@),
            MpvDataType::String(text) => DataView::String(text@),
            MpvDataType::Usize(n) => DataView::Usize(*n as nat),
        }
    }
}

/// That no two entries of a map share a key.
pub open spec fn distinct_keys(entries: Seq<(String, MpvDataType)>) -> bool {
    forall|i: int, j: int|
        0 <= i < j < entries.len() ==> (#[trigger] entries[i]).0@ != (#[trigger] entries[j]).0@
}

impl MpvDataType {
    /// Well-formedness: every map in the value holds each key once.
    pub open spec fn wf(&self) -> bool
        decreases self,
    {
        match self {
            MpvDataType::Array(items) => forall|i: int|
                0 <= i < items@.len() ==> (#[trigger] items@[i]).wf(),
            MpvDataType::HashMap(entries) => distinct_keys(entries@) && forall|i: int|
                0 <= i < entries@.len() ==> (#[trigger] entries@[i]).1.wf(),
            _ => true,
        }
    }
}

/// The value of the last entry with the given key, if there is one.
pub open spec fn entry_lookup(entries: Seq<(String, MpvDataType)>, key: Seq<char>) -> Option<
    DataView,
>
    decreases entries.len(),
{
    if entries.len() == 0 {
        None
    } else if entries.last().0@ == key {
        Some(entries.last().1@)
    } else {
        entry_lookup(entries.drop_last(), key)
    }
}

/// What `entries_view` holds under a key is what `entry_lookup` finds.
pub proof fn lemma_entries_lookup(entries: Seq<(String, MpvDataType)>, key: Seq<char>)
    ensures
        entries_view(entries).contains_key(key) <==> entry_lookup(entries, key) is Some,
        entries_view(entries).contains_key(key) ==> entry_lookup(entries, key) == Some(
            entries_view(entries)[key],
        ),
    decreases entries.len(),
{
    if entries.len() > 0 {
        lemma_entries_lookup(entries.drop_last(), key);
        assert(entries_view(entries) == entries_view(entries.drop_last()).insert(
            entries.last().0@,
            entries.last().1@,
        ));
    } else {
        assert(entries_view(entries) == Map::<Seq<char>, DataView>::empty());
    }
}

/// The domain value that an untyped value stands for; `None` where it has
/// none: an integer that is negative or does not fit in `usize`, alone or
/// inside an array or object.
pub open spec fn data_of(json: JsonView) -> Option<DataView>
    decreases json,
{
    match json {
        JsonView::Null => Some(DataView::Null),
        JsonView::Bool(b) => Some(DataView::Bool(b)),
        JsonView::Integer(n) => if 0 <= n <= usize::MAX {
            Some(DataView::Usize(n as nat))
        } else {
            None
        },
        JsonView::Real(text) => Some(DataView::Double(text)),
        JsonView::String(text) => Some(DataView::String(text)),
        JsonView::Array(items) => {
            if forall|i: int| 0 <= i < items.len() ==> data_of(#[trigger] items[i]) is Some {
                Some(
                    DataView::Array(
                        Seq::new(
                            items.len(),
                            |i: int|
                                if 0 <= i < items.len() {
                                    data_of(items[i]).unwrap()
                                } else {
                                    DataView::Null
                                },
                        ),
                    ),
                )
            } else {
                None
            }
        },
        JsonView::Object(members) => {
            if forall|key: Seq<char>|
                members.contains_key(key) ==> data_of(#[trigger] members[key]) is Some {
                Some(
                    DataView::HashMap(
                        Map::new(
                            |key: Seq<char>| members.contains_key(key),
                            |key: Seq<char>|
                                if members.contains_key(key) {
                                    data_of(members[key]).unwrap()
                                } else {
                                    DataView::Null
                                },
                        ),
                    ),
                )
            } else {
                None
            }
        },
    }
}

/// `lookup` on a run with one member put before it: the member found in the
/// run itself, else the one put before it.
proof fn lemma_lookup_prepend(first: (String, Json), rest: Seq<(String, Json)>, key: Seq<char>)
    ensures
        lookup(seq![first] + rest, key) == match lookup(rest, key) {
            Some(value) => Some(value),
            None => if first.0@ == key {
                Some(first.1@)
            } else {
                None
            },
        },
    decreases rest.len(),
{
    let whole = seq![first] + rest;
    if rest.len() == 0 {
        assert(whole.last() == first);
        assert(whole.drop_last() =~= Seq::<(String, Json)>::empty());
    } else {
        assert(whole.last() == rest.last());
        assert(whole.drop_last() =~= seq![first] + rest.drop_last());
        lemma_lookup_prepend(first, rest.drop_last(), key);
    }
}

/// `lookup` finds in the whole run what it finds behind position `from`.
proof fn lemma_lookup_skip(members: Seq<(String, Json)>, from: int, key: Seq<char>)
    requires
        0 <= from <= members.len(),
        lookup(members.skip(from), key) is Some,
    ensures
        lookup(members, key) == lookup(members.skip(from), key),
    decreases from,
{
    if from == 0 {
        assert(members.skip(0) =~= members);
    } else {
        let first = members[from - 1];
        assert(members.skip(from - 1) =~= seq![first] + members.skip(from));
        lemma_lookup_prepend(first, members.skip(from), key);
        lemma_lookup_skip(members, from - 1, key);
    }
}

/// Where `entry_lookup` finds nothing, no entry has the key.
proof fn lemma_entry_lookup_none(entries: Seq<(String, MpvDataType)>, key: Seq<char>)
    requires
        entry_lookup(entries, key) is None,
    ensures
        forall|i: int| 0 <= i < entries.len() ==> (#[trigger] entries[i]).0@ != key,
    decreases entries.len(),
{
    if entries.len() > 0 {
        lemma_entry_lookup_none(entries.drop_last(), key);
        assert forall|i: int| 0 <= i < entries.len() implies (#[trigger] entries[i]).0@ != key by {
            if i < entries.len() - 1 {
                assert(entries.drop_last()[i] == entries[i]);
            }
        }
    }
}

/// Whether some entry has the key.
pub fn has_entry(entries: &Vec<(String, MpvDataType)>, key: &str) -> (found: bool)
    ensures
        found == entry_lookup(entries@, key@) is Some,
{
    let mut i: usize = entries.len();
    proof {
        assert(entries@.take(i as int) == entries@);
    }
    while i > 0
        invariant
            i <= entries.len(),
            entry_lookup(entries@, key@) == entry_lookup(entries@.take(i as int), key@),
        decreases i,
    {
        i = i - 1;
        proof {
            let upto = entries@.take(i + 1);
            assert(upto.last() == entries@[i as int]);
            assert(upto.drop_last() == entries@.take(i as int));
        }
        if text_eq(entries[i].0.as_str(), key) {
            return true;
        }
    }
    false
}

/// That `entries` holds under `key` the decoded value of the last member
/// from position `from` on that has the key, and nothing where there is none.
spec fn decoded_at(
    members: Seq<(String, Json)>,
    from: int,
    entries: Seq<(String, MpvDataType)>,
    key: Seq<char>,
) -> bool {
    match lookup(members.skip(from), key) {
        Some(value) => data_of(value) is Some && entry_lookup(entries, key) == data_of(value),
        None => entry_lookup(entries, key) is None,
    }
}

/// Decodes the members of an object: each key once, with the value of its
/// last member.
#[verifier::loop_isolation(false)]
pub(crate) fn decode_members(members: &Vec<(String, Json)>) -> (decoded: Result<
    Vec<(String, MpvDataType)>,
    Error,
>)
    ensures
        match decoded {
            Ok(entries) => data_of(JsonView::Object(members_view(members@))) == Some(
                DataView::HashMap(entries_view(entries@)),
            ) && MpvDataType::HashMap(entries).wf(),
            Err(error) => data_of(JsonView::Object(members_view(members@))) is None && error@
                == ErrorView::UnsupportedType,
        },
    decreases members, 0int,
{
    let mut entries: Vec<(String, MpvDataType)> = Vec::new();
    let mut i: usize = members.len();
    let ghost whole = members_view(members@);
    proof {
        assert(members@.skip(i as int) =~= Seq::<(String, Json)>::empty());
    }
    // From the last member to the first, so that a key is decoded where it
    // counts and skipped where a later member overrides it.
    while i > 0
        invariant
            i <= members.len(),
            distinct_keys(entries@),
            forall|j: int| 0 <= j < entries@.len() ==> (#[trigger] entries@[j]).1.wf(),
            forall|key: Seq<char>| #[trigger] decoded_at(members@, i as int, entries@, key),
        decreases i,
    {
        i = i - 1;
        let ghost rest = members@.skip(i + 1);
        let ghost first = members@[i as int];
        let ghost before = entries@;
        proof {
            assert(members@.skip(i as int) =~= seq![first] + rest);
            assert(decoded_at(members@, i + 1, before, first.0@));
        }
        if !has_entry(&entries, members[i].0.as_str()) {
            proof {
                lemma_lookup_prepend(first, rest, first.0@);
            }
            match json_to_value(&members[i].1) {
                Ok(value) => {
                    proof {
                        lemma_entry_lookup_none(before, first.0@);
                    }
                    entries.push((members[i].0.clone(), value));
                    assert(entries@.drop_last() == before);
                },
                Err(error) => {
                    proof {
                        lemma_lookup_skip(members@, i as int, first.0@);
                        lemma_members_lookup(members@, first.0@);
                        assert(data_of(whole[first.0@]) is None);
                    }
                    return Err(error);
                },
            }
        }
        assert forall|key: Seq<char>| #[trigger] decoded_at(
            members@,
            i as int,
            entries@,
            key,
        ) by {
            assert(decoded_at(members@, i + 1, before, key));
            lemma_lookup_prepend(first, rest, key);
        }
    }
    proof {
        assert(members@.skip(0) =~= members@);
        let decoded = entries_view(entries@);
        assert forall|key: Seq<char>| whole.contains_key(key) implies data_of(
            #[trigger] whole[key],
        ) is Some by {
            lemma_members_lookup(members@, key);
            assert(decoded_at(members@, 0, entries@, key));
        }
        assert forall|key: Seq<char>|
            (#[trigger] decoded.contains_key(key)) == whole.contains_key(key) && (
            whole.contains_key(key) ==> decoded[key] == data_of(whole[key]).unwrap()) by {
            lemma_members_lookup(members@, key);
            lemma_entries_lookup(entries@, key);
            assert(decoded_at(members@, 0, entries@, key));
        }
        assert(data_of(JsonView::Object(whole))->Some_0->HashMap_0 =~= decoded);
    }
    Ok(entries)
}

/// Decodes an untyped value into the domain value it stands for. Numbers are
/// not bent to fit: an integer that is negative or too large for `usize` makes
/// the whole value unsupported.
#[verifier::loop_isolation(false)]
pub fn json_to_value(json: &Json) -> (decoded: Result<MpvDataType, Error>)
    ensures
        match decoded {
            Ok(value) => data_of(json@) == Some(value@) && value.wf(),
            Err(error) => data_of(json@) is None && error@ == ErrorView::UnsupportedType,
        },
    decreases json, 1int,
{
    match json {
        Json::Null => Ok(MpvDataType::Null),
        Json::Bool(b) => Ok(MpvDataType::Bool(*b)),
        Json::Integer(n) => {
            if 0 <= *n && *n <= usize::MAX as i128 {
                Ok(MpvDataType::Usize(*n as usize))
            } else {
                Err(Error(ErrorCode::UnsupportedType))
            }
        },
        Json::Real(text) => Ok(MpvDataType::Double(text.clone())),
        Json::String(text) => Ok(MpvDataType::String(text.clone())),
        Json::Array(items) => {
            let mut values: Vec<MpvDataType> = Vec::new();
            let mut i: usize = 0;
            while i < items.len()
                invariant
                    i <= items.len(),
                    values@.len() == i,
                    forall|j: int|
                        0 <= j < i ==> data_of(items@[j]@) == Some((#[trigger] values@[j])@)
                            && values@[j].wf(),
                decreases items.len() - i,
            {
                match json_to_value(&items[i]) {
                    Ok(value) => {
                        values.push(value);
                    },
                    Err(error) => {
                        assert(json@->Array_0[i as int] == items@[i as int]@);
                        return Err(error);
                    },
                }
                i = i + 1;
            }
            proof {
                assert forall|j: int| 0 <= j < items@.len() implies data_of(
                    #[trigger] json@->Array_0[j],
                ) is Some by {
                    assert(data_of(items@[j]@) == Some(values@[j]@));
                }
                assert(data_of(json@)->Some_0->Array_0 =~= MpvDataType::Array(values)@->Array_0);
            }
            Ok(MpvDataType::Array(values))
        },
        Json::Object(members) => match decode_members(members) {
            Ok(entries) => Ok(MpvDataType::HashMap(entries)),
            Err(error) => Err(error),
        },
    }
}

} // verus!
