//! The operations of the player, each as the request that starts it. What an
//! operation computes from a value that was read before stands here too.

use vstd::prelude::*;
use crate::command::{
    push_words, word, words_of, MpvCommand, PlaylistAddOptions, PlaylistAddTypeOptions,
    SeekOptions, Switch,
};
use crate::error::{Error, ErrorCode, ErrorView};
use crate::json::{items_view, Json, JsonView};
use crate::mpv::{Mpv, PendingRequest};
use crate::text::text_eq;
use crate::wire::writable;

verus! {

/// What a flag is set to: on, off, or the opposite of what it is.
pub open spec fn switched(option: Switch, current: bool) -> bool {
    match option {
        Switch::On => true,
        Switch::Off => false,
        Switch::Toggle => !current,
    }
}

/// What a flag is set to.
pub fn switch_target(option: Switch, current: bool) -> (target: bool)
    ensures
        target == switched(option, current),
{
    match option {
        Switch::On => true,
        Switch::Off => false,
        Switch::Toggle => !current,
    }
}

/// Whether the text of a loop property says that nothing is looped.
pub open spec fn loop_is_off(current: Seq<char>) -> bool {
    current == "false"@
}

/// What a loop property is set to, given the text it has now.
pub fn loop_target(option: Switch, current: &str) -> (target: bool)
    ensures
        target == switched(option, !loop_is_off(current@)),
{
    match option {
        Switch::On => true,
        Switch::Off => false,
        Switch::Toggle => text_eq(current, "false"),
    }
}

/// The position behind the current one, if there is one within `usize`.
pub fn position_after(current: usize) -> (next: Option<usize>)
    ensures
        match next {
            Some(position) => position == current + 1,
            None => current == usize::MAX,
        },
{
    if current < usize::MAX {
        Some(current + 1)
    } else {
        None
    }
}

/// The verb that adds a file, or a playlist, to the playlist.
pub open spec fn addition(file_type: PlaylistAddTypeOptions) -> Seq<char> {
    match file_type {
        PlaylistAddTypeOptions::File => "loadfile"@,
        PlaylistAddTypeOptions::Playlist => "loadlist"@,
    }
}

/// The words of a property read.
pub open spec fn get_words(property: Seq<char>) -> Seq<JsonView> {
    seq![JsonView::String("get_property"@), JsonView::String(property)]
}

/// The words of a property write.
pub open spec fn set_words(property: Seq<char>, value: JsonView) -> Seq<JsonView> {
    seq![JsonView::String("set_property"@), JsonView::String(property), value]
}

impl Mpv {
    /// Starts the read of a property. The payload of the reply is the value,
    /// to be decoded as the kind that the caller expects.
    pub fn get_property(&mut self, property: &str) -> (sent: Result<PendingRequest, Error>)
        ensures
            old(self).started(final(self), get_words(property@), true, sent),
    {
        let mut words: Vec<Json> = Vec::new();
        words.push(word("get_property"));
        words.push(word(property));
        assert(items_view(words@) =~= get_words(property@));
        self.send(words)
    }

    /// Starts the read of a property whose value is wanted as plain text.
    pub fn get_property_string(&mut self, property: &str) -> (sent: Result<PendingRequest, Error>)
        ensures
            old(self).started(final(self), get_words(property@), true, sent),
    {
        self.get_property(property)
    }

    /// Starts the read of the metadata of the current file.
    pub fn get_metadata(&mut self) -> (sent: Result<PendingRequest, Error>)
        ensures
            old(self).started(final(self), get_words("metadata"@), true, sent),
    {
        self.get_property("metadata")
    }

    /// Starts the read of the playlist.
    pub fn get_playlist(&mut self) -> (sent: Result<PendingRequest, Error>)
        ensures
            old(self).started(final(self), get_words("playlist"@), true, sent),
    {
        self.get_property("playlist")
    }

    /// Starts the write of a property.
    pub fn set_property(&mut self, property: &str, value: Json) -> (sent: Result<
        PendingRequest,
        Error,
    >)
        ensures
            old(self).started(final(self), set_words(property@, value@), writable(&value), sent),
    {
        let mut words: Vec<Json> = Vec::new();
        words.push(word("set_property"));
        words.push(word(property));
        words.push(value);
        assert(items_view(words@) =~= set_words(property@, value@));
        assert(writable(&value) <==> forall|i: int|
            0 <= i < words@.len() ==> writable(#[trigger] &words@[i])) by {
            assert(words@[2] == value);
        }
        self.send(words)
    }

    /// Starts a command.
    pub fn run_command(&mut self, command: MpvCommand) -> (sent: Result<PendingRequest, Error>)
        ensures
            old(self).started(final(self), command.wire(), true, sent),
    {
        let words = command.encode();
        self.send(words)
    }

    /// Starts a command that [`MpvCommand`] has no variant for.
    pub fn run_command_raw(&mut self, command: &str, args: &Vec<String>) -> (sent: Result<
        PendingRequest,
        Error,
    >)
        ensures
            old(self).started(
                final(self),
                seq![JsonView::String(command@)] + words_of(args@),
                true,
                sent,
            ),
    {
        let mut words: Vec<Json> = Vec::new();
        words.push(word(command));
        assert(items_view(words@) =~= seq![JsonView::String(command@)]);
        push_words(&mut words, args);
        self.send(words)
    }

    /// Starts a command that [`MpvCommand`] has no variant for and whose verb
    /// takes several words, such as a prefix before it.
    pub fn run_command_raw2(&mut self, command: &Vec<String>, args: &Vec<String>) -> (sent: Result<
        PendingRequest,
        Error,
    >)
        ensures
            old(self).started(final(self), words_of(command@) + words_of(args@), true, sent),
    {
        let mut words: Vec<Json> = Vec::new();
        assert(items_view(words@) =~= Seq::<JsonView>::empty());
        push_words(&mut words, command);
        assert(items_view(words@) =~= words_of(command@));
        push_words(&mut words, args);
        self.send(words)
    }

    /// Asks the player to quit.
    pub fn kill(&mut self) -> (sent: Result<PendingRequest, Error>)
        ensures
            old(self).started(final(self), MpvCommand::Quit.wire(), true, sent),
    {
        self.run_command(MpvCommand::Quit)
    }

    /// Goes to the next entry of the playlist.
    pub fn next(&mut self) -> (sent: Result<PendingRequest, Error>)
        ensures
            old(self).started(final(self), MpvCommand::PlaylistNext.wire(), true, sent),
    {
        self.run_command(MpvCommand::PlaylistNext)
    }

    /// Goes to the previous entry of the playlist.
    pub fn prev(&mut self) -> (sent: Result<PendingRequest, Error>)
        ensures
            old(self).started(final(self), MpvCommand::PlaylistPrev.wire(), true, sent),
    {
        self.run_command(MpvCommand::PlaylistPrev)
    }

    /// Stops playback.
    pub fn stop(&mut self) -> (sent: Result<PendingRequest, Error>)
        ensures
            old(self).started(final(self), MpvCommand::Stop.wire(), true, sent),
    {
        self.run_command(MpvCommand::Stop)
    }

    /// Observes a property under the given identifier: each change of it is
    /// then reported as an event that carries the identifier.
    pub fn observe_property(&mut self, id: isize, property: &str) -> (sent: Result<
        PendingRequest,
        Error,
    >)
        ensures
            old(self).started(
                final(self),
                seq![
                    JsonView::String("observe_property"@),
                    JsonView::Integer(id as int),
                    JsonView::String(property@),
                ],
                true,
                sent,
            ),
    {
        self.run_command(MpvCommand::Observe { id, property: String::from_str(property) })
    }

    /// Ends the observation that was started under the given identifier.
    pub fn unobserve_property(&mut self, id: isize) -> (sent: Result<PendingRequest, Error>)
        ensures
            old(self).started(final(self), MpvCommand::Unobserve(id).wire(), true, sent),
    {
        self.run_command(MpvCommand::Unobserve(id))
    }

    /// Pauses playback.
    pub fn pause(&mut self) -> (sent: Result<PendingRequest, Error>)
        ensures
            old(self).started(
                final(self),
                set_words("pause"@, JsonView::Bool(true)),
                true,
                sent,
            ),
    {
        self.set_property("pause", Json::Bool(true))
    }

    /// Pauses playback if it runs, and resumes it if it is paused.
    pub fn toggle(&mut self) -> (sent: Result<PendingRequest, Error>)
        ensures
            old(self).started(
                final(self),
                seq![JsonView::String("cycle"@), JsonView::String("pause"@)],
                true,
                sent,
            ),
    {
        let mut words: Vec<Json> = Vec::new();
        words.push(word("cycle"));
        words.push(word("pause"));
        assert(items_view(words@) =~= seq![
            JsonView::String("cycle"@),
            JsonView::String("pause"@),
        ]);
        self.send(words)
    }

    /// Seeks to the start of the current file.
    pub fn restart(&mut self) -> (sent: Result<PendingRequest, Error>)
        ensures
            old(self).started(
                final(self),
                seq![
                    JsonView::String("seek"@),
                    JsonView::String("0"@),
                    JsonView::String("absolute"@),
                ],
                true,
                sent,
            ),
    {
        self.run_command(
            MpvCommand::Seek { seconds: String::from_str("0"), option: SeekOptions::Absolute },
        )
    }

    /// Seeks by or to an offset, which is given as its decimal text.
    pub fn seek(&mut self, seconds: &str, option: SeekOptions) -> (sent: Result<
        PendingRequest,
        Error,
    >)
        ensures
            old(self).started(
                final(self),
                seq![
                    JsonView::String("seek"@),
                    JsonView::String(seconds@),
                    JsonView::String(option.keyword_text()),
                ],
                true,
                sent,
            ),
    {
        self.run_command(MpvCommand::Seek { seconds: String::from_str(seconds), option })
    }

    /// Adds a file or a playlist to the playlist.
    pub fn playlist_add(
        &mut self,
        file: &str,
        file_type: PlaylistAddTypeOptions,
        option: PlaylistAddOptions,
    ) -> (sent: Result<PendingRequest, Error>)
        ensures
            old(self).started(
                final(self),
                seq![
                    JsonView::String(addition(file_type)),
                    JsonView::String(file@),
                    JsonView::String(option.keyword_text()),
                ],
                true,
                sent,
            ),
    {
        match file_type {
            PlaylistAddTypeOptions::File => self.run_command(
                MpvCommand::LoadFile { file: String::from_str(file), option },
            ),
            PlaylistAddTypeOptions::Playlist => self.run_command(
                MpvCommand::LoadList { file: String::from_str(file), option },
            ),
        }
    }

    /// Empties the playlist but for the current entry.
    pub fn playlist_clear(&mut self) -> (sent: Result<PendingRequest, Error>)
        ensures
            old(self).started(final(self), MpvCommand::PlaylistClear.wire(), true, sent),
    {
        self.run_command(MpvCommand::PlaylistClear)
    }

    /// Moves the entry at `from` before the one at `to`.
    pub fn playlist_move_id(&mut self, from: usize, to: usize) -> (sent: Result<
        PendingRequest,
        Error,
    >)
        ensures
            old(self).started(final(self), MpvCommand::PlaylistMove { from, to }.wire(), true, sent),
    {
        self.run_command(MpvCommand::PlaylistMove { from, to })
    }

    /// Plays the entry at the given position.
    pub fn playlist_play_id(&mut self, id: usize) -> (sent: Result<PendingRequest, Error>)
        ensures
            old(self).started(
                final(self),
                set_words("playlist-pos"@, JsonView::Integer(id as int)),
                true,
                sent,
            ),
    {
        self.set_property("playlist-pos", Json::Integer(id as i128))
    }

    /// Moves the entry at `id` behind the current one, whose position was
    /// read before. Where there is no position behind the current one the
    /// move is refused with `ValueDoesNotContainUsize` and the state stays as
    /// it is.
    pub fn playlist_play_next(&mut self, id: usize, current: usize) -> (sent: Result<
        PendingRequest,
        Error,
    >)
        ensures
            current < usize::MAX ==> old(self).started(
                final(self),
                MpvCommand::PlaylistMove { from: id, to: (current + 1) as usize }.wire(),
                true,
                sent,
            ),
            current == usize::MAX ==> *final(self) == *old(self) && sent is Err && sent->Err_0@
                == ErrorView::ValueDoesNotContainUsize,
    {
        match position_after(current) {
            Some(to) => self.run_command(MpvCommand::PlaylistMove { from: id, to }),
            None => Err(Error(ErrorCode::ValueDoesNotContainUsize)),
        }
    }

    /// Removes the entry at the given position.
    pub fn playlist_remove_id(&mut self, id: usize) -> (sent: Result<PendingRequest, Error>)
        ensures
            old(self).started(final(self), MpvCommand::PlaylistRemove(id).wire(), true, sent),
    {
        self.run_command(MpvCommand::PlaylistRemove(id))
    }

    /// Shuffles the playlist.
    pub fn playlist_shuffle(&mut self) -> (sent: Result<PendingRequest, Error>)
        ensures
            old(self).started(final(self), MpvCommand::PlaylistShuffle.wire(), true, sent),
    {
        self.run_command(MpvCommand::PlaylistShuffle)
    }

    /// Sets whether the current file is looped. `current` is the text of the
    /// property as it was read before; it counts only for `Toggle`.
    pub fn set_loop_file(&mut self, option: Switch, current: &str) -> (sent: Result<
        PendingRequest,
        Error,
    >)
        ensures
            old(self).started(
                final(self),
                set_words(
                    "loop-file"@,
                    JsonView::Bool(switched(option, !loop_is_off(current@))),
                ),
                true,
                sent,
            ),
    {
        let enabled = loop_target(option, current);
        self.set_property("loop-file", Json::Bool(enabled))
    }

    /// Sets whether the playlist is looped. `current` is the text of the
    /// property as it was read before; it counts only for `Toggle`.
    pub fn set_loop_playlist(&mut self, option: Switch, current: &str) -> (sent: Result<
        PendingRequest,
        Error,
    >)
        ensures
            old(self).started(
                final(self),
                set_words(
                    "loop-playlist"@,
                    JsonView::Bool(switched(option, !loop_is_off(current@))),
                ),
                true,
                sent,
            ),
    {
        let enabled = loop_target(option, current);
        self.set_property("loop-playlist", Json::Bool(enabled))
    }

    /// Sets whether the sound is muted. `current` is the value of the
    /// property as it was read before; it counts only for `Toggle`.
    pub fn set_mute(&mut self, option: Switch, current: bool) -> (sent: Result<
        PendingRequest,
        Error,
    >)
        ensures
            old(self).started(
                final(self),
                set_words("mute"@, JsonView::Bool(switched(option, current))),
                true,
                sent,
            ),
    {
        let enabled = switch_target(option, current);
        self.set_property("mute", Json::Bool(enabled))
    }
}

} // verus!
