//! The decisions of the mpv player thread: what to tell mpv and the client
//! as the player's controls change and mpv reports events, and the buffer
//! that feeds pushed media data to mpv's stream callbacks.

use vstd::prelude::*;
use crate::mpv_events::MpvEvent;

verus! {

// ---------------------------------------------------------------------------
// The player loop
// ---------------------------------------------------------------------------

/// The playback states the player reports to its client.
#[derive(Debug, Clone, Copy, PartialEq, Eq)]
pub enum PlaybackStateKind {
    Stopped,
    Buffering,
    Paused,
    Playing,
}

/// What the player thread does after an mpv event.
#[derive(Debug, Clone, PartialEq, Eq)]
pub enum EventResponse {
    /// Nothing to report; read the next event.
    Continue,
    /// No event was waiting; stop reading events for this round.
    StopReading,
    /// mpv shut down: stop the player and stop reading events.
    Shutdown,
    /// Report the playback state; read the next event.
    Report(PlaybackStateKind),
    /// Report the error message and stop reading events.
    Failed(String),
    /// The file ended: report the final duration and position when the
    /// duration is known, then the end of stream and the `Stopped` state.
    EndOfFile,
    /// The video size changed: read it from mpv and pass it to
    /// `video_reconfigured`.
    QueryVideoSize,
    /// Playback restarted: report that the pending seek to the position
    /// with these bits is done (when there is one), then the `Playing` state.
    Restarted { seek_done: Option<u64> },
}

/// The state the player thread keeps between rounds of its loop.
#[derive(Debug, Clone, Copy, PartialEq, Eq)]
pub struct PlayerLoop {
    /// The player's ID.
    pub player_id: usize,
    /// Whether mpv was last told to play.
    pub last_playing: bool,
    /// The volume mpv was last given by the loop.
    pub last_volume: i64,
    /// The video width, zero until known.
    pub video_width: i32,
    /// The video height, zero until known.
    pub video_height: i32,
    /// Whether the metadata for the current video size was reported.
    pub metadata_sent: bool,
    /// Whether the end of the file was reported since mpv last said it was reached.
    pub eof_sent: bool,
    /// The bits of the position of the seek that was last requested and not
    /// yet reported done, if any.
    pub seek_pending: Option<u64>,
}

/// The new `last_playing` and the state to report when the requested
/// playing state `playing` differs from the one mpv was last given.
pub open spec fn playing_step(last_playing: bool, playing: bool) -> (bool, Option<PlaybackStateKind>) {
    if playing == last_playing {
        (last_playing, None)
    } else {
        (
            playing,
            Some(
                if playing {
                    PlaybackStateKind::Playing
                } else {
                    PlaybackStateKind::Paused
                },
            ),
        )
    }
}

/// The volume a player should have: full for the player with audio focus,
/// silent otherwise.
pub open spec fn target_volume(player_id: usize, focus_id: i32) -> i64 {
    if focus_id == player_id as i32 {
        100
    } else {
        0
    }
}

/// The new `eof_sent` and whether to report the end of stream, given
/// whether mpv says the end of the file is reached.
pub open spec fn eof_step(eof_sent: bool, eof: bool) -> (bool, bool) {
    if eof && !eof_sent {
        (true, true)
    } else if !eof && eof_sent {
        (false, false)
    } else {
        (eof_sent, false)
    }
}

impl PlayerLoop {
    /// The state when the player thread starts: playing, with the volume mpv
    /// starts with (`initial_volume`), video size unknown, nothing reported, no
    /// seek pending.
    pub fn new(player_id: usize) -> (r: Self)
        ensures
            r == (PlayerLoop {
                player_id,
                last_playing: true,
                last_volume: if player_id == 1 {
                    100i64
                } else {
                    0i64
                },
                video_width: 0,
                video_height: 0,
                metadata_sent: false,
                eof_sent: false,
                seek_pending: None,
            }),
    {
        let last_volume: i64 = if player_id == 1 {
            100
        } else {
            0
        };
        PlayerLoop {
            player_id,
            last_playing: true,
            last_volume,
            video_width: 0,
            video_height: 0,
            metadata_sent: false,
            eof_sent: false,
            seek_pending: None,
        }
    }

    /// The volume mpv starts with: full for player 1, silent otherwise.
    pub fn initial_volume(&self) -> (r: i64)
        ensures
            r == if self.player_id == 1 {
                100i64
            } else {
                0i64
            },
    {
        if self.player_id == 1 {
            100
        } else {
            0
        }
    }

    /// Brings mpv's pause state in line with the requested playing state:
    /// returns the state to report (after setting mpv's `pause` property to
    /// `no` for `Playing`, `yes` for `Paused`), or none when nothing changed.
    pub fn sync_playing(&mut self, playing: bool) -> (r: Option<PlaybackStateKind>)
        ensures
            (final(self).last_playing, r) == playing_step(old(self).last_playing, playing),
            *final(self) == (PlayerLoop { last_playing: final(self).last_playing, ..*old(self) }),
    {
        if playing == self.last_playing {
            None
        } else {
            self.last_playing = playing;
            if playing {
                Some(PlaybackStateKind::Playing)
            } else {
                Some(PlaybackStateKind::Paused)
            }
        }
    }

    /// Brings mpv's volume in line with audio focus (`focus_id` is the
    /// player that has it): returns the volume to give mpv, or none when it
    /// already has it.
    pub fn sync_volume(&mut self, focus_id: i32) -> (r: Option<i64>)
        ensures
            target_volume(old(self).player_id, focus_id) == old(self).last_volume ==> r is None
                && *final(self) == *old(self),
            target_volume(old(self).player_id, focus_id) != old(self).last_volume ==> r == Some(
                target_volume(old(self).player_id, focus_id),
            ) && *final(self) == (PlayerLoop {
                last_volume: target_volume(old(self).player_id, focus_id),
                ..*old(self)
            }),
    {
        let target: i64 = if focus_id == self.player_id as i32 {
            100
        } else {
            0
        };
        if target == self.last_volume {
            None
        } else {
            self.last_volume = target;
            Some(target)
        }
    }

    /// Notes that a seek to the position with bits `position` was requested
    /// (and handed to mpv).
    pub fn note_seek(&mut self, position: u64)
        ensures
            *final(self) == (PlayerLoop { seek_pending: Some(position), ..*old(self) }),
            (final(self).seek_pending, None::<u64>) == seek_step(
                old(self).seek_pending,
                SeekInput::Requested(position),
            ),
    {
        self.seek_pending = Some(position);
    }

    /// What to do after mpv reported `event`.
    pub fn handle_event(&mut self, event: &MpvEvent) -> (r: EventResponse)
        ensures
            (match *event {
                MpvEvent::NoEvent => r == EventResponse::StopReading,
                MpvEvent::Shutdown => r == EventResponse::Shutdown,
                MpvEvent::FileLoaded => r == EventResponse::Report(PlaybackStateKind::Paused),
                MpvEvent::EndFile(reason) => if reason < 0 {
                    r matches EventResponse::Failed(m) && m@ == "playback error"@
                } else if reason == 3 {
                    r matches EventResponse::Failed(m) && m@ == "playback error (end_file reason=3)"@
                } else {
                    r == EventResponse::EndOfFile
                },
                MpvEvent::VideoReconfig => r == EventResponse::QueryVideoSize,
                MpvEvent::Seek => r == EventResponse::Report(PlaybackStateKind::Buffering),
                MpvEvent::PlaybackRestart => r == (EventResponse::Restarted {
                    seek_done: old(self).seek_pending,
                }),
                _ => r == EventResponse::Continue,
            }),
            (*event is PlaybackRestart) ==> *final(self) == (PlayerLoop {
                seek_pending: None,
                ..*old(self)
            }),
            !(*event is PlaybackRestart) ==> *final(self) == *old(self),
            (*event is PlaybackRestart) ==> (final(self).seek_pending, r->seek_done) == seek_step(
                old(self).seek_pending,
                SeekInput::Restart,
            ),
            !(*event is PlaybackRestart) ==> final(self).seek_pending == seek_step(
                old(self).seek_pending,
                SeekInput::Other,
            ).0,
    {
        match event {
            MpvEvent::NoEvent => EventResponse::StopReading,
            MpvEvent::Shutdown => EventResponse::Shutdown,
            MpvEvent::FileLoaded => EventResponse::Report(PlaybackStateKind::Paused),
            MpvEvent::EndFile(reason) => {
                if *reason < 0 {
                    EventResponse::Failed(String::from_str("playback error"))
                } else if *reason == 3 {
                    EventResponse::Failed(String::from_str("playback error (end_file reason=3)"))
                } else {
                    EventResponse::EndOfFile
                }
            },
            MpvEvent::VideoReconfig => EventResponse::QueryVideoSize,
            MpvEvent::Seek => EventResponse::Report(PlaybackStateKind::Buffering),
            MpvEvent::PlaybackRestart => {
                let seek_done = self.seek_pending;
                self.seek_pending = None;
                EventResponse::Restarted { seek_done }
            },
            _ => EventResponse::Continue,
        }
    }

    /// Takes the video size mpv reported, when it read one with both sides
    /// positive; a new size has its metadata reported again.
    pub fn video_reconfigured(&mut self, size: Option<(i32, i32)>)
        ensures
            size matches Some((w, h)) ==> *final(self) == (PlayerLoop {
                video_width: w,
                video_height: h,
                metadata_sent: false,
                ..*old(self)
            }),
            size is None ==> *final(self) == *old(self),
    {
        match size {
            Some((w, h)) => {
                self.video_width = w;
                self.video_height = h;
                self.metadata_sent = false;
            },
            None => {},
        }
    }

    /// The video size to report in the metadata, when it is known and not yet reported.
    pub fn metadata_due(&mut self) -> (r: Option<(u32, u32)>)
        ensures
            !old(self).metadata_sent && old(self).video_width > 0 && old(self).video_height > 0
                ==> r == Some((old(self).video_width as u32, old(self).video_height as u32))
                && *final(self) == (PlayerLoop { metadata_sent: true, ..*old(self) }),
            !(!old(self).metadata_sent && old(self).video_width > 0 && old(self).video_height > 0)
                ==> r is None && *final(self) == *old(self),
    {
        if !self.metadata_sent && self.video_width > 0 && self.video_height > 0 {
            self.metadata_sent = true;
            Some((self.video_width as u32, self.video_height as u32))
        } else {
            None
        }
    }

    /// Takes mpv's `eof-reached` flag: returns whether to report the end of
    /// stream now (once per time the end is reached).
    pub fn eof_reached(&mut self, eof: bool) -> (r: bool)
        ensures
            (final(self).eof_sent, r) == eof_step(old(self).eof_sent, eof),
            *final(self) == (PlayerLoop { eof_sent: final(self).eof_sent, ..*old(self) }),
    {
        if eof && !self.eof_sent {
            self.eof_sent = true;
            true
        } else if !eof && self.eof_sent {
            self.eof_sent = false;
            false
        } else {
            false
        }
    }
}

/// Telling mpv the same playing state twice reports a change at most once.
pub proof fn law_playing_step_idempotent(last: bool, playing: bool)
    ensures
        playing_step(playing_step(last, playing).0, playing).1 is None,
{
}

/// The end of a file is reported once each time it is reached: a second
/// report needs mpv to leave the end first.
pub proof fn law_eof_reported_once(sent: bool)
    ensures
        eof_step(eof_step(sent, true).0, true).1 == false,
        eof_step(eof_step(eof_step(sent, true).0, false).0, true).1 == true,
{
}

/// What the player thread sees that bears on seeking: a seek requested to
/// the position with the given bits, mpv restarting playback, or anything else.
pub enum SeekInput {
    Requested(u64),
    Restart,
    Other,
}

/// The pending seek after `input`, and the seek reported done at it:
/// `note_seek` for `Requested`, `handle_event` with `PlaybackRestart` for
/// `Restart`, and any other step for `Other`.
pub open spec fn seek_step(pending: Option<u64>, input: SeekInput) -> (Option<u64>, Option<u64>) {
    match input {
        SeekInput::Requested(p) => (Some(p), None),
        SeekInput::Restart => (None, pending),
        SeekInput::Other => (pending, None),
    }
}

/// The pending seek after the run `inputs`, starting with `pending`.
pub open spec fn pending_after(pending: Option<u64>, inputs: Seq<SeekInput>) -> Option<u64>
    decreases inputs.len(),
{
    if inputs.len() == 0 {
        pending
    } else {
        seek_step(pending_after(pending, inputs.drop_last()), inputs.last()).0
    }
}

/// The positions reported done during the run `inputs`, in order.
pub open spec fn seeks_done(pending: Option<u64>, inputs: Seq<SeekInput>) -> Seq<u64>
    decreases inputs.len(),
{
    if inputs.len() == 0 {
        Seq::empty()
    } else {
        let before = seeks_done(pending, inputs.drop_last());
        match seek_step(pending_after(pending, inputs.drop_last()), inputs.last()).1 {
            Some(p) => before.push(p),
            None => before,
        }
    }
}

/// The number of seeks requested during `inputs`.
pub open spec fn seeks_requested(inputs: Seq<SeekInput>) -> nat
    decreases inputs.len(),
{
    if inputs.len() == 0 {
        0
    } else {
        seeks_requested(inputs.drop_last()) + if inputs.last() is Requested {
            1nat
        } else {
            0nat
        }
    }
}

/// The seek pending after a run is the one requested last, and nothing but
/// other steps came after that request; with no seek pending at the start,
/// no seek is pending unless one was requested.
pub proof fn law_pending_seek_is_last_request(inputs: Seq<SeekInput>)
    ensures
        pending_after(None, inputs) matches Some(p) ==> exists|i: int|
            0 <= i < inputs.len() && inputs[i] == SeekInput::Requested(p) && (forall|j: int|
                i < j < inputs.len() ==> #[trigger] inputs[j] == SeekInput::Other),
    decreases inputs.len(),
{
    if inputs.len() > 0 {
        let rest = inputs.drop_last();
        law_pending_seek_is_last_request(rest);
        match inputs.last() {
            SeekInput::Requested(p) => {
                assert(inputs[inputs.len() - 1] == SeekInput::Requested(p));
            },
            SeekInput::Restart => {},
            SeekInput::Other => {
                if let Some(p) = pending_after(None, inputs) {
                    let i = choose|i: int|
                        0 <= i < rest.len() && rest[i] == SeekInput::Requested(p) && (forall|j: int|
                            i < j < rest.len() ==> #[trigger] rest[j] == SeekInput::Other);
                    assert(inputs[i] == rest[i]);
                    assert forall|j: int| i < j < inputs.len() implies #[trigger] inputs[j]
                        == SeekInput::Other by {
                        if j < rest.len() {
                            assert(inputs[j] == rest[j]);
                        }
                    }
                }
            },
        }
    }
}

/// Each seek is reported done at most once: a run reports no more seeks
/// done than it requested, and a restart reports the seek pending before it.
pub proof fn law_seek_done_once_per_request(inputs: Seq<SeekInput>)
    ensures
        seeks_done(None, inputs).len() + (if pending_after(None, inputs) is Some {
            1int
        } else {
            0int
        }) <= seeks_requested(inputs),
        seeks_done(None, inputs.push(SeekInput::Restart)) == match pending_after(None, inputs) {
            Some(p) => seeks_done(None, inputs).push(p),
            None => seeks_done(None, inputs),
        },
    decreases inputs.len(),
{
    let ext = inputs.push(SeekInput::Restart);
    assert(ext.drop_last() =~= inputs);
    if inputs.len() > 0 {
        law_seek_done_once_per_request(inputs.drop_last());
    }
}

// ---------------------------------------------------------------------------
// The stream buffer
// ---------------------------------------------------------------------------

/// The media data pushed to a player, as mpv's stream callbacks read it:
/// everything received so far, the read position, and whether the end of
/// the stream is known.
pub struct StreamBuffer {
    data: Vec<u8>,
    read_pos: usize,
    eos: bool,
}

impl StreamBuffer {
    #[verifier::type_invariant]
    spec fn well_formed(self) -> bool {
        self.read_pos <= self.data@.len()
    }

    /// All data received so far.
    pub closed spec fn data(&self) -> Seq<u8> {
        self.data@
    }

    /// The read position.
    pub closed spec fn position(&self) -> nat {
        self.read_pos as nat
    }

    /// Whether the end of the stream is known.
    pub closed spec fn ended(&self) -> bool {
        self.eos
    }

    /// An empty buffer at position zero.
    pub fn new() -> (r: Self)
        ensures
            r.data() == Seq::<u8>::empty(),
            r.position() == 0,
            !r.ended(),
    {
        StreamBuffer { data: Vec::new(), read_pos: 0, eos: false }
    }

    /// The read position.
    pub fn read_position(&self) -> (r: usize)
        ensures
            r == self.position(),
            r <= self.data().len(),
    {
        proof {
            use_type_invariant(self);
        }
        self.read_pos
    }

    /// Whether more data must arrive before `target` bytes are available:
    /// fewer are buffered and the end of the stream is not known.
    pub fn needs_data(&self, target: usize) -> (r: bool)
        ensures
            r == (self.data().len() < target && !self.ended()),
    {
        self.data.len() < target && !self.eos
    }

    /// Appends received data.
    pub fn append(&mut self, bytes: &[u8])
        ensures
            final(self).data() == old(self).data() + bytes@,
            final(self).position() == old(self).position(),
            final(self).ended() == old(self).ended(),
    {
        proof {
            use_type_invariant(&*self);
        }
        let mut previous = StreamBuffer::new();
        std::mem::swap(&mut previous, self);
        proof {
            use_type_invariant(&previous);
        }
        let StreamBuffer { mut data, read_pos, eos } = previous;
        let ghost before = data@;
        let mut i: usize = 0;
        while i < bytes.len()
            invariant
                i <= bytes@.len(),
                data@ == before + bytes@.take(i as int),
            decreases bytes@.len() - i,
        {
            data.push(bytes[i]);
            assert(bytes@.take(i + 1) =~= bytes@.take(i as int).push(bytes@[i as int]));
            i = i + 1;
        }
        assert(bytes@.take(i as int) =~= bytes@);
        *self = StreamBuffer { data, read_pos, eos };
    }

    /// Records that no more data will arrive.
    pub fn mark_eos(&mut self)
        ensures
            final(self).data() == old(self).data(),
            final(self).position() == old(self).position(),
            final(self).ended(),
    {
        proof {
            use_type_invariant(&*self);
        }
        self.eos = true;
    }

    /// Reads up to `want` bytes at the read position and moves past them.
    pub fn read(&mut self, want: usize) -> (r: Vec<u8>)
        ensures
            r@ == read_span(old(self).data(), old(self).position(), want as nat),
            final(self).position() == old(self).position() + r@.len(),
            final(self).data() == old(self).data(),
            final(self).ended() == old(self).ended(),
    {
        proof {
            use_type_invariant(&*self);
        }
        let avail_all = self.data.len() - self.read_pos;
        let avail = if avail_all < want {
            avail_all
        } else {
            want
        };
        let start = self.read_pos;
        let len = self.data.len();
        let mut out: Vec<u8> = Vec::new();
        let mut i: usize = 0;
        while i < avail
            invariant
                i <= avail,
                len == self.data@.len(),
                start + avail <= len,
                out@ == self.data@.subrange(start as int, start + i),
            decreases avail - i,
        {
            out.push(self.data[start + i]);
            assert(self.data@.subrange(start as int, start + i + 1) =~= self.data@.subrange(
                start as int,
                start + i,
            ).push(self.data@[start + i]));
            i = i + 1;
        }
        self.read_pos = start + avail;
        out
    }

    /// Moves the read position to `target`, or to the end of the data
    /// received when that is shorter; returns the new position.
    pub fn seek(&mut self, target: usize) -> (r: usize)
        ensures
            r == if target < old(self).data().len() {
                target as int
            } else {
                old(self).data().len() as int
            },
            final(self).position() == r,
            final(self).data() == old(self).data(),
            final(self).ended() == old(self).ended(),
    {
        let len = self.data.len();
        let pos = if target < len {
            target
        } else {
            len
        };
        self.read_pos = pos;
        pos
    }

    /// The stream size: the length of the data once the end is known, else -1.
    pub fn size(&self) -> (r: i64)
        ensures
            self.ended() ==> r == self.data().len() as i64,
            !self.ended() ==> r == -1,
    {
        if self.eos {
            self.data.len() as i64
        } else {
            -1
        }
    }
}

/// The bytes a read of up to `want` bytes at position `pos` of `data` gives.
pub open spec fn read_span(data: Seq<u8>, pos: nat, want: nat) -> Seq<u8> {
    let n = if data.len() - pos < want {
        data.len() - pos
    } else {
        want as int
    };
    data.subrange(pos as int, pos + n)
}

/// Two reads in a row give what one read of their combined size gives.
pub proof fn law_reads_compose(data: Seq<u8>, pos: nat, a: nat, b: nat)
    requires
        pos <= data.len(),
    ensures
        read_span(data, pos, a) + read_span(data, pos + read_span(data, pos, a).len(), b)
            == read_span(data, pos, a + b),
{
    let first = read_span(data, pos, a);
    assert(first.len() == if data.len() - pos < a {
        data.len() - pos
    } else {
        a as int
    });
    assert(read_span(data, pos, a) + read_span(data, pos + first.len(), b) =~= read_span(
        data,
        pos,
        a + b,
    ));
}

/// Appending data never changes what a read of already-received data gives.
pub proof fn law_append_keeps_reads(data: Seq<u8>, more: Seq<u8>, pos: nat, want: nat)
    requires
        pos + want <= data.len(),
    ensures
        read_span(data + more, pos, want) == read_span(data, pos, want),
{
    assert(read_span(data + more, pos, want) =~= read_span(data, pos, want));
}

} // verus!
