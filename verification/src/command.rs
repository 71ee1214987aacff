//! Commands of the player, and the words that stand for them on the wire.

use vstd::prelude::*;
use crate::json::{items_view, Json, JsonView};
use crate::text::{decimal, decimal_text, signed_decimal, signed_decimal_text};
use crate::wire::writable;

verus! {

/// How a number given to the player relates to the one it has.
#[derive(Debug, Clone, Copy, PartialEq, Eq)]
pub enum NumberChangeOptions {
    Absolute,
    Increase,
    Decrease,
}

/// Whether a loaded file replaces the playlist or is appended to it.
#[derive(Debug, Clone, Copy, PartialEq, Eq)]
pub enum PlaylistAddOptions {
    Replace,
    Append,
}

/// Whether a path names one file or a playlist.
#[derive(Debug, Clone, Copy, PartialEq, Eq)]
pub enum PlaylistAddTypeOptions {
    File,
    Playlist,
}

/// How the offset of a seek is to be read.
#[derive(Debug, Clone, Copy, PartialEq, Eq)]
pub enum SeekOptions {
    Relative,
    Absolute,
    RelativePercent,
    AbsolutePercent,
}

/// A flag to set: on, off, or the opposite of what it is.
#[derive(Debug, Clone, Copy, PartialEq, Eq)]
pub enum Switch {
    On,
    Off,
    Toggle,
}

impl PlaylistAddOptions {
    /// The keyword of the option on the wire.
    pub open spec fn keyword_text(self) -> Seq<char> {
        match self {
            PlaylistAddOptions::Append => "append"@,
            PlaylistAddOptions::Replace => "replace"@,
        }
    }

    /// The keyword of the option on the wire.
    pub fn keyword(self) -> (word: &'static str)
        ensures
            word@ == self.keyword_text(),
    {
        match self {
            PlaylistAddOptions::Append => "append",
            PlaylistAddOptions::Replace => "replace",
        }
    }
}

impl SeekOptions {
    /// The keyword of the mode on the wire.
    pub open spec fn keyword_text(self) -> Seq<char> {
        match self {
            SeekOptions::Absolute => "absolute"@,
            SeekOptions::Relative => "relative"@,
            SeekOptions::AbsolutePercent => "absolute-percent"@,
            SeekOptions::RelativePercent => "relative-percent"@,
        }
    }

    /// The keyword of the mode on the wire.
    pub fn keyword(self) -> (word: &'static str)
        ensures
            word@ == self.keyword_text(),
    {
        match self {
            SeekOptions::Absolute => "absolute",
            SeekOptions::Relative => "relative",
            SeekOptions::AbsolutePercent => "absolute-percent",
            SeekOptions::RelativePercent => "relative-percent",
        }
    }
}

/// A command of the player. The offset of a seek is held as its decimal text.
#[derive(Debug, Clone, PartialEq, Eq)]
pub enum MpvCommand {
    LoadFile { file: String, option: PlaylistAddOptions },
    LoadList { file: String, option: PlaylistAddOptions },
    PlaylistClear,
    PlaylistMove { from: usize, to: usize },
    Observe { id: isize, property: String },
    PlaylistNext,
    PlaylistPrev,
    PlaylistRemove(usize),
    PlaylistShuffle,
    Quit,
    ScriptMessage(Vec<String>),
    ScriptMessageTo { target: String, args: Vec<String> },
    Seek { seconds: String, option: SeekOptions },
    Stop,
    Unobserve(isize),
    ShowText { text: String, duration_ms: Option<i32>, level: Option<u32> },
}

/// A run of strings as JSON strings.
pub open spec fn words_of(texts: Seq<String>) -> Seq<JsonView> {
    Seq::new(texts.len(), |i: int| JsonView::String(texts[i]@))
}

impl MpvCommand {
    /// The command array that stands for the command on the wire: the verb,
    /// then the arguments in the order the player expects.
    pub open spec fn wire(&self) -> Seq<JsonView> {
        match self {
            MpvCommand::LoadFile { file, option } => seq![
                JsonView::String("loadfile"@),
                JsonView::String(file@),
                JsonView::String(option.keyword_text()),
            ],
            MpvCommand::LoadList { file, option } => seq![
                JsonView::String("loadlist"@),
                JsonView::String(file@),
                JsonView::String(option.keyword_text()),
            ],
            MpvCommand::PlaylistClear => seq![JsonView::String("playlist-clear"@)],
            MpvCommand::PlaylistMove { from, to } => seq![
                JsonView::String("playlist-move"@),
                JsonView::String(decimal_text(*from as nat)),
                JsonView::String(decimal_text(*to as nat)),
            ],
            MpvCommand::Observe { id, property } => seq![
                JsonView::String("observe_property"@),
                JsonView::Integer(*id as int),
                JsonView::String(property@),
            ],
            MpvCommand::PlaylistNext => seq![JsonView::String("playlist-next"@)],
            MpvCommand::PlaylistPrev => seq![JsonView::String("playlist-prev"@)],
            MpvCommand::PlaylistRemove(id) => seq![
                JsonView::String("playlist-remove"@),
                JsonView::String(decimal_text(*id as nat)),
            ],
            MpvCommand::PlaylistShuffle => seq![JsonView::String("playlist-shuffle"@)],
            MpvCommand::Quit => seq![JsonView::String("quit"@)],
            MpvCommand::ScriptMessage(args) => seq![JsonView::String("script-message"@)]
                + words_of(args@),
            MpvCommand::ScriptMessageTo { target, args } => seq![
                JsonView::String("script-message-to"@),
                JsonView::String(target@),
            ] + words_of(args@),
            MpvCommand::Seek { seconds, option } => seq![
                JsonView::String("seek"@),
                JsonView::String(seconds@),
                JsonView::String(option.keyword_text()),
            ],
            MpvCommand::Stop => seq![JsonView::String("stop"@)],
            MpvCommand::Unobserve(id) => seq![
                JsonView::String("unobserve_property"@),
                JsonView::Integer(*id as int),
            ],
            MpvCommand::ShowText { text, duration_ms, level } => {
                let head = seq![
                    JsonView::String("show-text"@),
                    JsonView::String(text@),
                    JsonView::String(
                        signed_decimal_text(
                            match duration_ms {
                                Some(ms) => *ms as int,
                                None => -1,
                            },
                        ),
                    ),
                ];
                match level {
                    Some(level) => head.push(JsonView::String(decimal_text(*level as nat))),
                    None => head,
                }
            },
        }
    }

    /// Builds the command array of the command.
    pub fn encode(&self) -> (words: Vec<Json>)
        ensures
            items_view(words@) == self.wire(),
            forall|i: int| 0 <= i < words@.len() ==> writable(#[trigger] &words@[i]),
    {
        let mut words: Vec<Json> = Vec::new();
        match self {
            MpvCommand::LoadFile { file, option } => {
                words.push(word("loadfile"));
                words.push(Json::String(file.clone()));
                words.push(word(option.keyword()));
            },
            MpvCommand::LoadList { file, option } => {
                words.push(word("loadlist"));
                words.push(Json::String(file.clone()));
                words.push(word(option.keyword()));
            },
            MpvCommand::PlaylistClear => {
                words.push(word("playlist-clear"));
            },
            MpvCommand::PlaylistMove { from, to } => {
                words.push(word("playlist-move"));
                words.push(Json::String(decimal(*from as u128)));
                words.push(Json::String(decimal(*to as u128)));
            },
            MpvCommand::Observe { id, property } => {
                words.push(word("observe_property"));
                words.push(Json::Integer(*id as i128));
                words.push(Json::String(property.clone()));
            },
            MpvCommand::PlaylistNext => {
                words.push(word("playlist-next"));
            },
            MpvCommand::PlaylistPrev => {
                words.push(word("playlist-prev"));
            },
            MpvCommand::PlaylistRemove(id) => {
                words.push(word("playlist-remove"));
                words.push(Json::String(decimal(*id as u128)));
            },
            MpvCommand::PlaylistShuffle => {
                words.push(word("playlist-shuffle"));
            },
            MpvCommand::Quit => {
                words.push(word("quit"));
            },
            MpvCommand::ScriptMessage(args) => {
                words.push(word("script-message"));
                push_words(&mut words, args);
            },
            MpvCommand::ScriptMessageTo { target, args } => {
                words.push(word("script-message-to"));
                words.push(Json::String(target.clone()));
                push_words(&mut words, args);
            },
            MpvCommand::Seek { seconds, option } => {
                words.push(word("seek"));
                words.push(Json::String(seconds.clone()));
                words.push(word(option.keyword()));
            },
            MpvCommand::Stop => {
                words.push(word("stop"));
            },
            MpvCommand::Unobserve(id) => {
                words.push(word("unobserve_property"));
                words.push(Json::Integer(*id as i128));
            },
            MpvCommand::ShowText { text, duration_ms, level } => {
                words.push(word("show-text"));
                words.push(Json::String(text.clone()));
                let duration: i128 = match duration_ms {
                    Some(ms) => *ms as i128,
                    None => -1,
                };
                words.push(Json::String(signed_decimal(duration)));
                match level {
                    Some(level) => {
                        words.push(Json::String(decimal(*level as u128)));
                    },
                    None => {},
                }
            },
        }
        assert(items_view(words@) =~= self.wire());
        words
    }
}

/// A string slice as a JSON string.
pub fn word(text: &str) -> (json: Json)
    ensures
        json@ == JsonView::String(text@),
        writable(&json),
{
    Json::String(String::from_str(text))
}

/// Appends each of `texts` to `words` as a JSON string.
pub fn push_words(words: &mut Vec<Json>, texts: &Vec<String>)
    ensures
        final(words)@.len() == old(words)@.len() + texts@.len(),
        forall|i: int| 0 <= i < old(words)@.len() ==> final(words)@[i] == old(words)@[i],
        forall|i: int|
            old(words)@.len() <= i < final(words)@.len() ==> writable(#[trigger] &final(words)@[i]),
        items_view(final(words)@) == items_view(old(words)@) + words_of(texts@),
{
    let ghost before = words@;
    let mut i: usize = 0;
    assert(items_view(words@) =~= items_view(before) + words_of(texts@.take(0)));
    while i < texts.len()
        invariant
            i <= texts.len(),
            words@.len() == before.len() + i,
            forall|j: int| 0 <= j < before.len() ==> words@[j] == before[j],
            forall|j: int| before.len() <= j < words@.len() ==> writable(#[trigger] &words@[j]),
            items_view(words@) == items_view(before) + words_of(texts@.take(i as int)),
        decreases texts.len() - i,
    {
        let ghost earlier = words@;
        let next = Json::String(texts[i].clone());
        assert(next@ == JsonView::String(texts@[i as int]@));
        words.push(next);
        i = i + 1;
        proof {
            let head = items_view(before);
            let was = words_of(texts@.take(i - 1));
            let now = words_of(texts@.take(i as int));
            assert(items_view(earlier) == head + was);
            assert forall|k: int| 0 <= k < words@.len() implies items_view(words@)[k] == (head
                + now)[k] by {
                if k < earlier.len() {
                    assert(items_view(words@)[k] == items_view(earlier)[k]);
                    assert((head + was)[k] == (head + now)[k]);
                } else {
                    assert(texts@.take(i as int)[i - 1] == texts@[i - 1]);
                }
            }
            assert(items_view(words@) =~= head + now);
        }
    }
    assert(texts@.take(i as int) == texts@);
}

} // verus!
