//! Typed decoding: from an untyped value to the kind that the caller asks
//! for. A value of another kind is refused, never bent into shape.

use vstd::prelude::*;
use crate::error::{Error, ErrorCode, ErrorView};
use crate::json::{Json, JsonView};
use crate::text::{signed_decimal, signed_decimal_text};
use crate::wire::{json_text, to_text, writable};
use crate::value::{
    data_of, decode_members, entries_of, entries_view, DataView, MpvDataType, Playlist,
    PlaylistEntry, PlaylistEntryView,
};

verus! {

/// The boolean that a value is.
pub open spec fn bool_of(json: JsonView) -> Result<bool, ErrorView> {
    match json {
        JsonView::Bool(b) => Ok(b),
        _ => Err(ErrorView::ValueDoesNotContainBool),
    }
}

/// The string that a value is.
pub open spec fn string_of(json: JsonView) -> Result<Seq<char>, ErrorView> {
    match json {
        JsonView::String(text) => Ok(text),
        _ => Err(ErrorView::ValueDoesNotContainString),
    }
}

/// The decimal text of the floating-point number that a value is: a number
/// that serde_json does not hold as an integer.
pub open spec fn double_of(json: JsonView) -> Result<Seq<char>, ErrorView> {
    match json {
        JsonView::Real(text) => Ok(text),
        _ => Err(ErrorView::ValueDoesNotContainF64),
    }
}

/// The non-negative integer within `usize` that a value is.
pub open spec fn usize_of(json: JsonView) -> Result<nat, ErrorView> {
    match json {
        JsonView::Integer(n) => if 0 <= n <= usize::MAX {
            Ok(n as nat)
        } else {
            Err(ErrorView::ValueDoesNotContainUsize)
        },
        _ => Err(ErrorView::ValueDoesNotContainUsize),
    }
}

/// The map that a value is: the members of an object, each decoded in turn.
pub open spec fn map_of(json: JsonView) -> Result<Map<Seq<char>, DataView>, ErrorView> {
    match json {
        JsonView::Object(_) => match data_of(json) {
            Some(DataView::HashMap(entries)) => Ok(entries),
            _ => Err(ErrorView::UnsupportedType),
        },
        _ => Err(ErrorView::ValueDoesNotContainHashMap),
    }
}

/// The playlist entry that a value at position `index` of the playlist is.
/// The file name is required; the title may be absent; an entry is the
/// current one only where it says so.
pub open spec fn entry_of(json: JsonView, index: nat) -> Result<PlaylistEntryView, ErrorView> {
    match json {
        JsonView::Object(_) => match json.member("filename"@) {
            Some(JsonView::String(filename)) => Ok(
                PlaylistEntryView {
                    id: index,
                    filename,
                    title: match json.member("title"@) {
                        Some(JsonView::String(title)) => Some(title),
                        _ => None,
                    },
                    current: match json.member("current"@) {
                        Some(JsonView::Bool(current)) => current,
                        _ => false,
                    },
                },
            ),
            _ => Err(ErrorView::MissingValue),
        },
        _ => Err(ErrorView::ValueDoesNotContainPlaylist),
    }
}

/// The entries that the first `count` values are, or the error of the first
/// among them that is no entry.
pub open spec fn entries_upto(items: Seq<JsonView>, count: nat) -> Result<
    Seq<PlaylistEntryView>,
    ErrorView,
>
    decreases count,
{
    if count == 0 {
        Ok(Seq::empty())
    } else {
        match entries_upto(items, (count - 1) as nat) {
            Ok(entries) => match entry_of(items[count - 1], (count - 1) as nat) {
                Ok(entry) => Ok(entries.push(entry)),
                Err(error) => Err(error),
            },
            Err(error) => Err(error),
        }
    }
}

/// The playlist that a value is: an array of entries.
pub open spec fn playlist_of(json: JsonView) -> Result<Seq<PlaylistEntryView>, ErrorView> {
    match json {
        JsonView::Array(items) => entries_upto(items, items.len()),
        _ => Err(ErrorView::ValueDoesNotContainPlaylist),
    }
}

/// A value as plain text: a string as it is, a boolean as `true` or `false`,
/// a number in decimal, an array or object as the compact JSON text that
/// serde_json prints for it. Null has no text.
pub open spec fn text_of(json: &Json) -> Result<Seq<char>, ErrorView> {
    match json {
        Json::Null => Err(ErrorView::MissingValue),
        Json::Bool(b) => Ok(
            if *b {
                "true"@
            } else {
                "false"@
            },
        ),
        Json::Integer(n) => Ok(signed_decimal_text(*n as int)),
        Json::Real(text) => Ok(text@),
        Json::String(text) => Ok(text@),
        _ => if writable(json) {
            Ok(json_text(json@))
        } else {
            Err(ErrorView::UnsupportedType)
        },
    }
}

/// Renders a value as plain text, whatever its kind.
pub fn property_text(json: &Json) -> (rendered: Result<String, Error>)
    ensures
        match rendered {
            Ok(text) => text_of(json) == Ok::<Seq<char>, ErrorView>(text@),
            Err(error) => text_of(json) == Err::<Seq<char>, ErrorView>(error@),
        },
{
    match json {
        Json::Null => Err(Error(ErrorCode::MissingValue)),
        Json::Bool(b) => Ok(
            String::from_str(
                if *b {
                    "true"
                } else {
                    "false"
                },
            ),
        ),
        Json::Integer(n) => Ok(signed_decimal(*n)),
        Json::Real(text) => Ok(text.clone()),
        Json::String(text) => Ok(text.clone()),
        _ => match to_text(json) {
            Some(text) => Ok(text),
            None => Err(Error(ErrorCode::UnsupportedType)),
        },
    }
}

/// A boolean as the value that stands for it on the wire.
pub fn encode_bool(b: bool) -> (json: Json)
    ensures
        json@ == JsonView::Bool(b),
        writable(&json),
{
    Json::Bool(b)
}

/// A string as the value that stands for it on the wire.
pub fn encode_string(text: &str) -> (json: Json)
    ensures
        json@ == JsonView::String(text@),
        writable(&json),
{
    Json::String(String::from_str(text))
}

/// A `usize` as the value that stands for it on the wire.
pub fn encode_usize(n: usize) -> (json: Json)
    ensures
        json@ == JsonView::Integer(n as int),
        writable(&json),
{
    Json::Integer(n as i128)
}

/// A floating-point number, given by its decimal text, as the value that
/// stands for it on the wire. The text can be written where it is the text
/// that serde_json prints for a finite number: `12.5`, `1.0`, `-0.0`,
/// `1e-7`, `1.8446744073709552e+19`. Any other text, such as `12.50`, `1` or
/// `inf`, makes a value that [`writable`] refuses.
pub fn encode_double(text: &str) -> (json: Json)
    ensures
        json@ == JsonView::Real(text@),
{
    Json::Real(String::from_str(text))
}

/// What was encoded for the wire decodes to itself, kind by kind.
pub proof fn lemma_round_trip(b: bool, text: Seq<char>, number: Seq<char>, n: usize)
    ensures
        bool_of(JsonView::Bool(b)) == Ok::<bool, ErrorView>(b),
        string_of(JsonView::String(text)) == Ok::<Seq<char>, ErrorView>(text),
        double_of(JsonView::Real(number)) == Ok::<Seq<char>, ErrorView>(number),
        usize_of(JsonView::Integer(n as int)) == Ok::<nat, ErrorView>(n as nat),
{
}

/// No coercion. A boolean is never taken for a string, nor a string or a
/// number for a boolean, whatever they hold; a number with a fraction is
/// never taken for an integer, nor an integer for one with a fraction.
pub proof fn lemma_no_coercion(b: bool, text: Seq<char>, n: int)
    ensures
        string_of(JsonView::Bool(b)) == Err::<Seq<char>, ErrorView>(
            ErrorView::ValueDoesNotContainString,
        ),
        bool_of(JsonView::String(text)) == Err::<bool, ErrorView>(
            ErrorView::ValueDoesNotContainBool,
        ),
        bool_of(JsonView::Integer(n)) == Err::<bool, ErrorView>(ErrorView::ValueDoesNotContainBool),
        bool_of(JsonView::Real(text)) == Err::<bool, ErrorView>(ErrorView::ValueDoesNotContainBool),
        usize_of(JsonView::Real(text)) == Err::<nat, ErrorView>(
            ErrorView::ValueDoesNotContainUsize,
        ),
        double_of(JsonView::Integer(n)) == Err::<Seq<char>, ErrorView>(
            ErrorView::ValueDoesNotContainF64,
        ),
        n < 0 ==> usize_of(JsonView::Integer(n)) == Err::<nat, ErrorView>(
            ErrorView::ValueDoesNotContainUsize,
        ),
{
}

/// Whether a value is an object with a string under `"filename"`.
pub open spec fn names_file(json: JsonView) -> bool {
    json is Object && json.member("filename"@) is Some && json.member("filename"@)->Some_0
        is String
}

/// A playlist decodes whole or not at all. Where every item is an object
/// that names its file, the playlist decodes, one entry for each item in its
/// place, whether or not an item has a title. Where every item is an object
/// and one of them names no file, the playlist is refused with
/// `MissingValue`.
pub proof fn lemma_playlist_all_or_nothing(items: Seq<JsonView>, count: nat)
    requires
        count <= items.len(),
        forall|i: int| 0 <= i < count ==> (#[trigger] items[i]) is Object,
    ensures
        (forall|i: int| 0 <= i < count ==> names_file(#[trigger] items[i])) ==> entries_upto(
            items,
            count,
        ) is Ok && entries_upto(items, count)->Ok_0.len() == count && forall|i: int|
            0 <= i < count ==> entry_of(items[i], i as nat) == Ok::<PlaylistEntryView, ErrorView>(
                #[trigger] entries_upto(items, count)->Ok_0[i],
            ),
        (exists|i: int| 0 <= i < count && !names_file(#[trigger] items[i])) ==> entries_upto(
            items,
            count,
        ) == Err::<Seq<PlaylistEntryView>, ErrorView>(ErrorView::MissingValue),
    decreases count,
{
    if count > 0 {
        lemma_playlist_all_or_nothing(items, (count - 1) as nat);
        let last = items[count - 1];
        if exists|i: int| 0 <= i < count && !names_file(#[trigger] items[i]) {
            let bad = choose|i: int| 0 <= i < count && !names_file(#[trigger] items[i]);
            if bad < count - 1 {
                assert(entries_upto(items, (count - 1) as nat) is Err);
            } else {
                assert(entry_of(last, (count - 1) as nat) == Err::<PlaylistEntryView, ErrorView>(
                    ErrorView::MissingValue,
                ));
                if exists|i: int| 0 <= i < count - 1 && !names_file(#[trigger] items[i]) {
                } else {
                    assert(entries_upto(items, (count - 1) as nat) is Ok);
                }
            }
        }
    }
}

/// Decodes a value as a boolean.
pub fn decode_bool(json: &Json) -> (decoded: Result<bool, Error>)
    ensures
        match decoded {
            Ok(b) => bool_of(json@) == Ok::<bool, ErrorView>(b),
            Err(error) => bool_of(json@) == Err::<bool, ErrorView>(error@),
        },
{
    match json {
        Json::Bool(b) => Ok(*b),
        _ => Err(Error(ErrorCode::ValueDoesNotContainBool)),
    }
}

/// Decodes a value as a string.
pub fn decode_string(json: &Json) -> (decoded: Result<String, Error>)
    ensures
        match decoded {
            Ok(text) => string_of(json@) == Ok::<Seq<char>, ErrorView>(text@),
            Err(error) => string_of(json@) == Err::<Seq<char>, ErrorView>(error@),
        },
{
    match json {
        Json::String(text) => Ok(text.clone()),
        _ => Err(Error(ErrorCode::ValueDoesNotContainString)),
    }
}

/// Decodes a value as a floating-point number, which is handed out as its
/// decimal text.
pub fn decode_double(json: &Json) -> (decoded: Result<String, Error>)
    ensures
        match decoded {
            Ok(text) => double_of(json@) == Ok::<Seq<char>, ErrorView>(text@),
            Err(error) => double_of(json@) == Err::<Seq<char>, ErrorView>(error@),
        },
{
    match json {
        Json::Real(text) => Ok(text.clone()),
        _ => Err(Error(ErrorCode::ValueDoesNotContainF64)),
    }
}

/// Decodes a value as a `usize`.
pub fn decode_usize(json: &Json) -> (decoded: Result<usize, Error>)
    ensures
        match decoded {
            Ok(n) => usize_of(json@) == Ok::<nat, ErrorView>(n as nat),
            Err(error) => usize_of(json@) == Err::<nat, ErrorView>(error@),
        },
{
    match json {
        Json::Integer(n) => {
            if 0 <= *n && *n <= usize::MAX as i128 {
                Ok(*n as usize)
            } else {
                Err(Error(ErrorCode::ValueDoesNotContainUsize))
            }
        },
        _ => Err(Error(ErrorCode::ValueDoesNotContainUsize)),
    }
}

/// Decodes a value as a map from strings to values. The result holds each
/// key once.
pub fn decode_map(json: &Json) -> (decoded: Result<Vec<(String, MpvDataType)>, Error>)
    ensures
        match decoded {
            Ok(entries) => map_of(json@) == Ok::<Map<Seq<char>, DataView>, ErrorView>(
                entries_view(entries@),
            ) && MpvDataType::HashMap(entries).wf(),
            Err(error) => map_of(json@) == Err::<Map<Seq<char>, DataView>, ErrorView>(error@),
        },
{
    match json {
        Json::Object(members) => decode_members(members),
        _ => Err(Error(ErrorCode::ValueDoesNotContainHashMap)),
    }
}

/// Decodes the value at position `index` of a playlist as an entry.
pub fn decode_entry(json: &Json, index: usize) -> (decoded: Result<PlaylistEntry, Error>)
    ensures
        match decoded {
            Ok(entry) => entry_of(json@, index as nat) == Ok::<PlaylistEntryView, ErrorView>(
                entry@,
            ),
            Err(error) => entry_of(json@, index as nat) == Err::<PlaylistEntryView, ErrorView>(
                error@,
            ),
        },
{
    match json {
        Json::Object(_) => {
            let filename = match json.get("filename") {
                Some(Json::String(filename)) => filename.clone(),
                _ => {
                    return Err(Error(ErrorCode::MissingValue));
                },
            };
            let title = match json.get("title") {
                Some(Json::String(title)) => Some(title.clone()),
                _ => None,
            };
            let current = match json.get("current") {
                Some(Json::Bool(current)) => *current,
                _ => false,
            };
            Ok(PlaylistEntry { id: index, filename, title, current })
        },
        _ => Err(Error(ErrorCode::ValueDoesNotContainPlaylist)),
    }
}

/// Decodes a value as a playlist. Either every entry decodes, or the whole
/// value is refused with the error of the first entry that does not.
pub fn decode_playlist(json: &Json) -> (decoded: Result<Playlist, Error>)
    ensures
        match decoded {
            Ok(playlist) => playlist_of(json@) == Ok::<Seq<PlaylistEntryView>, ErrorView>(
                playlist@,
            ),
            Err(error) => playlist_of(json@) == Err::<Seq<PlaylistEntryView>, ErrorView>(error@),
        },
{
    match json {
        Json::Array(items) => {
            let mut entries: Vec<PlaylistEntry> = Vec::new();
            let mut i: usize = 0;
            assert(entries_of(entries@) =~= Seq::<PlaylistEntryView>::empty());
            while i < items.len()
                invariant
                    i <= items.len(),
                    json@ is Array,
                    json@->Array_0.len() == items@.len(),
                    forall|j: int| 0 <= j < items@.len() ==> json@->Array_0[j] == items@[j]@,
                    entries_upto(json@->Array_0, i as nat) == Ok::<
                        Seq<PlaylistEntryView>,
                        ErrorView,
                    >(entries_of(entries@)),
                decreases items.len() - i,
            {
                match decode_entry(&items[i], i) {
                    Ok(entry) => {
                        let ghost before = entries@;
                        entries.push(entry);
                        assert(entries_of(entries@) =~= entries_of(before).push(entry@));
                    },
                    Err(error) => {
                        proof {
                            lemma_entries_upto_error(json@->Array_0, i as nat, items@.len());
                        }
                        return Err(error);
                    },
                }
                i = i + 1;
            }
            Ok(Playlist(entries))
        },
        _ => Err(Error(ErrorCode::ValueDoesNotContainPlaylist)),
    }
}

/// Once an entry is refused, so is every longer run, with the same error.
proof fn lemma_entries_upto_error(items: Seq<JsonView>, bad: nat, count: nat)
    requires
        bad < count,
        entries_upto(items, bad) is Ok,
        entry_of(items[bad as int], bad) is Err,
    ensures
        entries_upto(items, count) == Err::<Seq<PlaylistEntryView>, ErrorView>(
            entry_of(items[bad as int], bad)->Err_0,
        ),
    decreases count,
{
    if count > bad + 1 {
        lemma_entries_upto_error(items, bad, (count - 1) as nat);
    }
}

} // verus!
