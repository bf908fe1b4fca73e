//! The track that is playing, and the messages that tell of it.

use crate::text::same_text;
use crate::types::TrackInfo;
use vstd::prelude::*;

verus! {

/// The kinds of message that the playback source sends.
#[derive(Debug, Clone, Copy, PartialEq, Eq, Structural)]
pub enum MessageKind {
    /// News of the track: detected, paused, stopped or progressing.
    TrackUpdate,
    /// A request for a sign of life.
    Ping,
    /// Anything else.
    Other,
}

/// The kind of a message type.
pub open spec fn kind_of(message_type: Seq<char>) -> MessageKind {
    if message_type == "TRACK_DETECTED"@ || message_type == "TRACK_PAUSED"@ || message_type
        == "TRACK_STOPPED"@ || message_type == "TRACK_PROGRESS"@ {
        MessageKind::TrackUpdate
    } else if message_type == "ping"@ {
        MessageKind::Ping
    } else {
        MessageKind::Other
    }
}

/// Tells the kinds of message apart by their type.
pub fn classify_message(message_type: &String) -> (r: MessageKind)
    ensures
        r == kind_of(message_type@),
{
    if same_text(message_type, &"TRACK_DETECTED".to_owned()) || same_text(
        message_type,
        &"TRACK_PAUSED".to_owned(),
    ) || same_text(message_type, &"TRACK_STOPPED".to_owned()) || same_text(
        message_type,
        &"TRACK_PROGRESS".to_owned(),
    ) {
        MessageKind::TrackUpdate
    } else if same_text(message_type, &"ping".to_owned()) {
        MessageKind::Ping
    } else {
        MessageKind::Other
    }
}

/// An update stands at the start of a track: it tells no position, or
/// position zero.
pub open spec fn at_start(position: Option<u64>) -> bool {
    match position {
        Some(p) => p == 0,
        None => true,
    }
}

/// An update tells of another track than the known one: there is none
/// known, or title or artist differ.
pub open spec fn is_new_track(known: Option<TrackInfo>, title: Seq<char>, artist: Seq<char>) -> bool {
    match known {
        Some(k) => k.title@ != title || k.artist@ != artist,
        None => true,
    }
}

/// Whether an update tells of another track than the known one.
pub fn track_changed(known: &Option<TrackInfo>, update: &TrackInfo) -> (r: bool)
    ensures
        r == is_new_track(*known, update.title@, update.artist@),
{
    match known {
        Some(k) => !same_text(&k.title, &update.title) || !same_text(&k.artist, &update.artist),
        None => true,
    }
}

/// Takes in an update of the track. Where it stands at the start of a track
/// and tells of another track than the known one, it becomes the known
/// track and the change is to be announced; otherwise nothing changes.
pub fn observe_track(known: &mut Option<TrackInfo>, update: TrackInfo, position: Option<u64>) -> (announce:
    bool)
    ensures
        announce == (at_start(position) && is_new_track(*old(known), update.title@, update.artist@)),
        *final(known) == if announce {
            Some(update)
        } else {
            *old(known)
        },
{
    let start = match position {
        Some(p) => p == 0,
        None => true,
    };
    if start && track_changed(known, &update) {
        *known = Some(update);
        true
    } else {
        false
    }
}

} // verus!
