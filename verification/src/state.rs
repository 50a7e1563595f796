//! Persisted playback state: queue, current track and position, playback
//! modes, so a restart resumes where the last session stopped.
//!
//! It is losable state, neither library nor preferences, and references
//! tracks by filename like the index.  Anything unreadable is ignored and
//! the app starts fresh: being disposable, it is never migrated.
use vstd::prelude::*;

use crate::app::LoopMode;

verus! {

/// Bumped only if the file's shape changes incompatibly; a mismatch is
/// treated as "no saved state", never an error.
pub const STATE_VERSION: u32 = 1;

/// Name of the state file.
pub const STATE_FILE: &'static str = "state.json";

/// A snapshot of playback, as written to disk.
#[derive(Debug, Clone)]
pub struct PlaybackState {
    /// Shape of the file this was read from.
    pub version: u32,
    /// Queue entries, by filename.
    pub queue: Vec<String>,
    /// Index into `queue` of the track that was current, if any.
    pub now_playing: Option<usize>,
    /// Position within the current track, in seconds.
    pub position_secs: u64,
    pub loop_mode: LoopMode,
    /// Playback speed, in hundredths.
    pub speed: u32,
    /// Volume, in percent.
    pub volume: u32,
}

impl PlaybackState {
    /// Builds a snapshot of the current shape from the parts the app tracks.
    pub fn new(
        queue: Vec<String>,
        now_playing: Option<usize>,
        position_secs: u64,
        loop_mode: LoopMode,
        speed: u32,
        volume: u32,
    ) -> (r: Self)
        ensures
            r.version == STATE_VERSION,
            r.queue == queue,
            r.now_playing == now_playing,
            r.position_secs == position_secs,
            r.loop_mode == loop_mode,
            r.speed == speed,
            r.volume == volume,
    {
        PlaybackState { version: STATE_VERSION, queue, now_playing, position_secs, loop_mode, speed, volume }
    }

    /// A snapshot read back from disk, kept only when it has the shape this
    /// build writes; any other version counts as no saved state.
    pub fn accept(read: PlaybackState) -> (r: Option<PlaybackState>)
        ensures
            read.version == STATE_VERSION ==> r == Some(read),
            read.version != STATE_VERSION ==> r is None,
    {
        if read.version == STATE_VERSION {
            Some(read)
        } else {
            None
        }
    }
}

} // verus!
