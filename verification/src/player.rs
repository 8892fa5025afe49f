//! The mirrored state of the external music player: track and player
//! snapshots, the decision of when cached track resources must be rebuilt,
//! the adaptive polling delay, and the scripted commands the widget sends.
//!
//! Times are whole milliseconds, so positions and lengths compare exactly.

use vstd::prelude::*;

verus! {

/// What the external player is doing.
#[derive(Clone, Copy, PartialEq, Eq, Structural)]
pub enum PlayerState {
    Stopped,
    Playing,
    Paused,
    FastForwarding,
    Rewinding,
}

/// A track as the player reports it: names, the loved flag, and its length
/// in milliseconds.
pub struct TrackInfo {
    pub name: String,
    pub artist: String,
    pub album: String,
    pub loved: bool,
    pub length: u64,
}

impl TrackInfo {
    pub fn name(&self) -> (r: &String)
        ensures
            r@ == self.name@,
    {
        &self.name
    }

    pub fn artist(&self) -> (r: &String)
        ensures
            r@ == self.artist@,
    {
        &self.artist
    }

    pub fn album(&self) -> (r: &String)
        ensures
            r@ == self.album@,
    {
        &self.album
    }

    pub fn loved(&self) -> (r: bool)
        ensures
            r == self.loved,
    {
        self.loved
    }

    pub fn length(&self) -> (r: u64)
        ensures
            r == self.length,
    {
        self.length
    }
}

/// Two reported tracks are the same track: every field agrees.
pub open spec fn same_track(a: TrackInfo, b: TrackInfo) -> bool {
    &&& a.name@ == b.name@
    &&& a.artist@ == b.artist@
    &&& a.album@ == b.album@
    &&& a.loved == b.loved
    &&& a.length == b.length
}

/// The player's own state: the position in the current track in
/// milliseconds, whether the auto-DJ playlist is active, and what it does.
#[derive(Clone, Copy)]
pub struct PlayerInfo {
    pub pos: u64,
    pub dj_active: bool,
    pub state: PlayerState,
}

impl PlayerInfo {
    pub fn dj_active(&self) -> (r: bool)
        ensures
            r == self.dj_active,
    {
        self.dj_active
    }

    pub fn pos(&self) -> (r: u64)
        ensures
            r == self.pos,
    {
        self.pos
    }

    pub fn state(&self) -> (r: PlayerState)
        ensures
            r == self.state,
    {
        self.state
    }
}

/// One answer from the player poll: the track, the player state, and the
/// raw artwork data to decode when the track changed.
pub struct PDOsascriptResponse {
    pub track_info: TrackInfo,
    pub player_info: PlayerInfo,
    pub track_artwork_data: String,
}

/// The track shown when nothing plays.
pub open spec fn placeholder_track(t: TrackInfo) -> bool {
    t.name@.len() == 0 && t.artist@.len() == 0 && t.album@.len() == 0 && !t.loved && t.length
        == 1000
}

/// The mirrored now-playing state that the rendered widget reads.
pub struct NowPlayingInfo {
    pub track: TrackInfo,
    pub player: PlayerInfo,
}

impl NowPlayingInfo {
    /// The state before any poll answered: an empty placeholder track and
    /// a stopped player.
    pub fn placeholder() -> (r: NowPlayingInfo)
        ensures
            placeholder_track(r.track),
            r.player.pos == 0 && !r.player.dj_active && r.player.state is Stopped,
    {
        NowPlayingInfo {
            track: TrackInfo {
                name: String::new(),
                artist: String::new(),
                album: String::new(),
                loved: false,
                length: 1000,
            },
            player: PlayerInfo { pos: 0, dj_active: false, state: PlayerState::Stopped },
        }
    }

    /// Folds one poll answer in. Track resources are costly to rebuild, so
    /// the result says whether they must be: only when the reported track
    /// differs from the current one, or when the player fell silent and
    /// the placeholder takes over. While the track is unchanged only the
    /// player half moves.
    pub fn update(&mut self, response: Option<(TrackInfo, PlayerInfo)>) -> (rebuild: bool)
        ensures
            match response {
                Some(tp) => {
                    &&& rebuild == !same_track(old(self).track, tp.0)
                    &&& final(self).player == tp.1
                    &&& (rebuild ==> final(self).track == tp.0)
                    &&& (!rebuild ==> final(self).track == old(self).track)
                },
                None => {
                    &&& rebuild
                    &&& placeholder_track(final(self).track)
                    &&& final(self).player.pos == 0 && !final(self).player.dj_active
                    &&& final(self).player.state is Stopped
                },
            },
    {
        match response {
            Some((track, player)) => {
                let same = self.track.name == track.name && self.track.artist == track.artist
                    && self.track.album == track.album && self.track.loved == track.loved
                    && self.track.length == track.length;
                self.player = player;
                if same {
                    false
                } else {
                    self.track = track;
                    true
                }
            },
            None => {
                *self = NowPlayingInfo::placeholder();
                true
            },
        }
    }
}

/// Fastest and slowest polling of the external player, in milliseconds.
pub const POLL_MIN_MS: u64 = 200;

pub const POLL_MAX_MS: u64 = 3000;

/// How long the poll worker sleeps before asking the player again: until
/// the track is about to end, clamped between the floor and the ceiling —
/// so a track's end is noticed promptly, without hammering the player.
pub fn poll_delay_ms(length_ms: u64, pos_ms: u64) -> (delay: u64)
    ensures
        delay == poll_delay_spec(length_ms as int, pos_ms as int),
        POLL_MIN_MS <= delay <= POLL_MAX_MS,
{
    let remaining: u64 = if pos_ms >= length_ms {
        0
    } else {
        length_ms - pos_ms
    };
    if remaining > POLL_MAX_MS {
        POLL_MAX_MS
    } else if remaining < POLL_MIN_MS {
        POLL_MIN_MS
    } else {
        remaining
    }
}

pub open spec fn poll_delay_spec(length_ms: int, pos_ms: int) -> int {
    let remaining = if pos_ms >= length_ms {
        0int
    } else {
        length_ms - pos_ms
    };
    if remaining > POLL_MAX_MS {
        POLL_MAX_MS as int
    } else if remaining < POLL_MIN_MS {
        POLL_MIN_MS as int
    } else {
        remaining
    }
}

/// Space between the two copies of the scrolling info text, in pixels.
pub const INFO_SPACING: u32 = 50;

/// Advances the scrolling info text by one pixel while the player plays:
/// the offset wraps after the text's width plus the gap, so the second
/// copy takes over seamlessly.
pub fn scroll_offset_step(offset: u32, text_width: u32, playing: bool) -> (r: u32)
    requires
        text_width + INFO_SPACING <= u32::MAX,
        offset < text_width + INFO_SPACING,
    ensures
        playing ==> r == ((offset + 1) as int) % ((text_width + INFO_SPACING) as int),
        !playing ==> r == offset,
        r < text_width + INFO_SPACING,
{
    if playing {
        (offset + 1) % (text_width + INFO_SPACING)
    } else {
        offset
    }
}

/// The scripted commands the widget can send to the external player.
#[derive(Clone, Copy, PartialEq, Eq, Structural)]
pub enum JXACommand {
    PlayPause,
    NextTrack,
    PreviousTrack,
    BackTrack,
    Love,
    Unlove,
}

impl JXACommand {
    /// The automation script each command runs.
    pub fn as_str(&self) -> (r: &'static str)
        ensures
            *self is PlayPause ==> r@ == "Application('Music').playpause()"@,
            *self is NextTrack ==> r@ == "Application('Music').nextTrack()"@,
            *self is PreviousTrack ==> r@ == "Application('Music').previousTrack()"@,
            *self is BackTrack ==> r@ == "Application('Music').backTrack()"@,
            *self is Love ==> r@ == "Application('Music').currentTrack.loved = true"@,
            *self is Unlove ==> r@ == "Application('Music').currentTrack.loved = false"@,
    {
        match self {
            JXACommand::PlayPause => "Application('Music').playpause()",
            JXACommand::NextTrack => "Application('Music').nextTrack()",
            JXACommand::PreviousTrack => "Application('Music').previousTrack()",
            JXACommand::BackTrack => "Application('Music').backTrack()",
            JXACommand::Love => "Application('Music').currentTrack.loved = true",
            JXACommand::Unlove => "Application('Music').currentTrack.loved = false",
        }
    }
}

} // verus!
