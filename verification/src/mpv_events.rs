//! The events libmpv reports, by their C numbers and as the player sees them.

use vstd::prelude::*;

verus! {

/// The event kinds of libmpv's `mpv_event_id`.
#[allow(non_camel_case_types)]
#[derive(Debug, Copy, Clone, PartialEq, Eq)]
pub enum mpv_event_id {
    MPV_EVENT_NONE,
    MPV_EVENT_SHUTDOWN,
    MPV_EVENT_LOG_MESSAGE,
    MPV_EVENT_GET_PROPERTY_REPLY,
    MPV_EVENT_SET_PROPERTY_REPLY,
    MPV_EVENT_COMMAND_REPLY,
    MPV_EVENT_START_FILE,
    MPV_EVENT_END_FILE,
    MPV_EVENT_FILE_LOADED,
    MPV_EVENT_IDLE,
    MPV_EVENT_TICK,
    MPV_EVENT_CLIENT_MESSAGE,
    MPV_EVENT_VIDEO_RECONFIG,
    MPV_EVENT_AUDIO_RECONFIG,
    MPV_EVENT_SEEK,
    MPV_EVENT_PLAYBACK_RESTART,
    MPV_EVENT_PROPERTY_CHANGE,
    MPV_EVENT_QUEUE_OVERFLOW,
    MPV_EVENT_HOOK,
}

/// The C number libmpv uses for each event kind.
pub open spec fn event_code(id: mpv_event_id) -> i32 {
    match id {
        mpv_event_id::MPV_EVENT_NONE => 0,
        mpv_event_id::MPV_EVENT_SHUTDOWN => 1,
        mpv_event_id::MPV_EVENT_LOG_MESSAGE => 2,
        mpv_event_id::MPV_EVENT_GET_PROPERTY_REPLY => 3,
        mpv_event_id::MPV_EVENT_SET_PROPERTY_REPLY => 4,
        mpv_event_id::MPV_EVENT_COMMAND_REPLY => 5,
        mpv_event_id::MPV_EVENT_START_FILE => 6,
        mpv_event_id::MPV_EVENT_END_FILE => 7,
        mpv_event_id::MPV_EVENT_FILE_LOADED => 8,
        mpv_event_id::MPV_EVENT_IDLE => 11,
        mpv_event_id::MPV_EVENT_TICK => 14,
        mpv_event_id::MPV_EVENT_CLIENT_MESSAGE => 16,
        mpv_event_id::MPV_EVENT_VIDEO_RECONFIG => 17,
        mpv_event_id::MPV_EVENT_AUDIO_RECONFIG => 18,
        mpv_event_id::MPV_EVENT_SEEK => 20,
        mpv_event_id::MPV_EVENT_PLAYBACK_RESTART => 21,
        mpv_event_id::MPV_EVENT_PROPERTY_CHANGE => 22,
        mpv_event_id::MPV_EVENT_QUEUE_OVERFLOW => 24,
        mpv_event_id::MPV_EVENT_HOOK => 25,
    }
}

impl mpv_event_id {
    /// The C number of this event kind.
    pub fn code(&self) -> (r: i32)
        ensures
            r == event_code(*self),
    {
        match self {
            mpv_event_id::MPV_EVENT_NONE => 0,
            mpv_event_id::MPV_EVENT_SHUTDOWN => 1,
            mpv_event_id::MPV_EVENT_LOG_MESSAGE => 2,
            mpv_event_id::MPV_EVENT_GET_PROPERTY_REPLY => 3,
            mpv_event_id::MPV_EVENT_SET_PROPERTY_REPLY => 4,
            mpv_event_id::MPV_EVENT_COMMAND_REPLY => 5,
            mpv_event_id::MPV_EVENT_START_FILE => 6,
            mpv_event_id::MPV_EVENT_END_FILE => 7,
            mpv_event_id::MPV_EVENT_FILE_LOADED => 8,
            mpv_event_id::MPV_EVENT_IDLE => 11,
            mpv_event_id::MPV_EVENT_TICK => 14,
            mpv_event_id::MPV_EVENT_CLIENT_MESSAGE => 16,
            mpv_event_id::MPV_EVENT_VIDEO_RECONFIG => 17,
            mpv_event_id::MPV_EVENT_AUDIO_RECONFIG => 18,
            mpv_event_id::MPV_EVENT_SEEK => 20,
            mpv_event_id::MPV_EVENT_PLAYBACK_RESTART => 21,
            mpv_event_id::MPV_EVENT_PROPERTY_CHANGE => 22,
            mpv_event_id::MPV_EVENT_QUEUE_OVERFLOW => 24,
            mpv_event_id::MPV_EVENT_HOOK => 25,
        }
    }

    /// The event kind with C number `code`, if there is one.
    pub fn from_code(code: i32) -> (r: Option<mpv_event_id>)
        ensures
            r matches Some(id) ==> event_code(id) == code,
            r is None ==> forall|id: mpv_event_id| event_code(id) != code,
    {
        match code {
            0 => Some(mpv_event_id::MPV_EVENT_NONE),
            1 => Some(mpv_event_id::MPV_EVENT_SHUTDOWN),
            2 => Some(mpv_event_id::MPV_EVENT_LOG_MESSAGE),
            3 => Some(mpv_event_id::MPV_EVENT_GET_PROPERTY_REPLY),
            4 => Some(mpv_event_id::MPV_EVENT_SET_PROPERTY_REPLY),
            5 => Some(mpv_event_id::MPV_EVENT_COMMAND_REPLY),
            6 => Some(mpv_event_id::MPV_EVENT_START_FILE),
            7 => Some(mpv_event_id::MPV_EVENT_END_FILE),
            8 => Some(mpv_event_id::MPV_EVENT_FILE_LOADED),
            11 => Some(mpv_event_id::MPV_EVENT_IDLE),
            14 => Some(mpv_event_id::MPV_EVENT_TICK),
            16 => Some(mpv_event_id::MPV_EVENT_CLIENT_MESSAGE),
            17 => Some(mpv_event_id::MPV_EVENT_VIDEO_RECONFIG),
            18 => Some(mpv_event_id::MPV_EVENT_AUDIO_RECONFIG),
            20 => Some(mpv_event_id::MPV_EVENT_SEEK),
            21 => Some(mpv_event_id::MPV_EVENT_PLAYBACK_RESTART),
            22 => Some(mpv_event_id::MPV_EVENT_PROPERTY_CHANGE),
            24 => Some(mpv_event_id::MPV_EVENT_QUEUE_OVERFLOW),
            25 => Some(mpv_event_id::MPV_EVENT_HOOK),
            _ => None,
        }
    }
}

/// Each event kind is found again from its C number, and no two kinds share one.
pub proof fn law_event_code_round_trip(id: mpv_event_id, other: mpv_event_id)
    ensures
        event_code(id) == event_code(other) ==> id == other,
{
}

/// An mpv event as the player handles it.
#[derive(Debug, Clone)]
pub enum MpvEvent {
    /// No event was waiting.
    NoEvent,
    Shutdown,
    StartFile,
    EndFile(i32),
    FileLoaded,
    Idle,
    VideoReconfig,
    AudioReconfig,
    Seek,
    PlaybackRestart,
    PropertyChange(String),
    Other,
}

/// The event for an mpv event of kind `id`: the end-of-file reason defaults
/// to zero and the property name to the empty string when libmpv gave none;
/// kinds the player does not handle become `Other`.
pub fn event_from_parts(id: mpv_event_id, reason: Option<i32>, name: Option<String>) -> (r: MpvEvent)
    ensures
        id == mpv_event_id::MPV_EVENT_NONE ==> r is NoEvent,
        id == mpv_event_id::MPV_EVENT_SHUTDOWN ==> r is Shutdown,
        id == mpv_event_id::MPV_EVENT_START_FILE ==> r is StartFile,
        id == mpv_event_id::MPV_EVENT_END_FILE ==> r == MpvEvent::EndFile(
            match reason {
                Some(x) => x,
                None => 0,
            },
        ),
        id == mpv_event_id::MPV_EVENT_FILE_LOADED ==> r is FileLoaded,
        id == mpv_event_id::MPV_EVENT_IDLE ==> r is Idle,
        id == mpv_event_id::MPV_EVENT_VIDEO_RECONFIG ==> r is VideoReconfig,
        id == mpv_event_id::MPV_EVENT_AUDIO_RECONFIG ==> r is AudioReconfig,
        id == mpv_event_id::MPV_EVENT_SEEK ==> r is Seek,
        id == mpv_event_id::MPV_EVENT_PLAYBACK_RESTART ==> r is PlaybackRestart,
        id == mpv_event_id::MPV_EVENT_PROPERTY_CHANGE ==> (r matches MpvEvent::PropertyChange(n)
            && n@ == match name {
            Some(s) => s@,
            None => Seq::<char>::empty(),
        }),
        (id == mpv_event_id::MPV_EVENT_LOG_MESSAGE || id
            == mpv_event_id::MPV_EVENT_GET_PROPERTY_REPLY || id
            == mpv_event_id::MPV_EVENT_SET_PROPERTY_REPLY || id
            == mpv_event_id::MPV_EVENT_COMMAND_REPLY || id == mpv_event_id::MPV_EVENT_TICK || id
            == mpv_event_id::MPV_EVENT_CLIENT_MESSAGE || id
            == mpv_event_id::MPV_EVENT_QUEUE_OVERFLOW || id == mpv_event_id::MPV_EVENT_HOOK)
            ==> r is Other,
{
    match id {
        mpv_event_id::MPV_EVENT_NONE => MpvEvent::NoEvent,
        mpv_event_id::MPV_EVENT_SHUTDOWN => MpvEvent::Shutdown,
        mpv_event_id::MPV_EVENT_START_FILE => MpvEvent::StartFile,
        mpv_event_id::MPV_EVENT_END_FILE => MpvEvent::EndFile(
            match reason {
                Some(x) => x,
                None => 0,
            },
        ),
        mpv_event_id::MPV_EVENT_FILE_LOADED => MpvEvent::FileLoaded,
        mpv_event_id::MPV_EVENT_IDLE => MpvEvent::Idle,
        mpv_event_id::MPV_EVENT_VIDEO_RECONFIG => MpvEvent::VideoReconfig,
        mpv_event_id::MPV_EVENT_AUDIO_RECONFIG => MpvEvent::AudioReconfig,
        mpv_event_id::MPV_EVENT_SEEK => MpvEvent::Seek,
        mpv_event_id::MPV_EVENT_PLAYBACK_RESTART => MpvEvent::PlaybackRestart,
        mpv_event_id::MPV_EVENT_PROPERTY_CHANGE => MpvEvent::PropertyChange(
            match name {
                Some(s) => s,
                None => String::new(),
            },
        ),
        _ => MpvEvent::Other,
    }
}

} // verus!
