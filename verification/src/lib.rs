//! Client-side protocol layer for mpv's JSON IPC: framing of the line
//! records, correlation of requests with replies, queueing of events that
//! arrive in between, and decoding of the untyped values into domain types.

pub mod command;
pub mod decode;
pub mod error;
pub mod event;
pub mod frame;
pub mod json;
pub mod mpv;
pub mod playback;
pub mod text;
pub mod value;
pub mod wire;

pub use command::{
    MpvCommand, NumberChangeOptions, PlaylistAddOptions, PlaylistAddTypeOptions, SeekOptions,
    Switch,
};
pub use error::{Error, ErrorCode};
pub use event::{Event, Property};
pub use json::Json;
pub use mpv::{Mpv, PendingRequest, Step};
pub use value::{MpvDataType, Playlist, PlaylistEntry};
