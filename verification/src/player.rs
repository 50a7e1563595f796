//! The UI side of playback: the commands sent to the audio thread, the
//! events it sends back, and the handle that shadows its volume, pause state
//! and speed so reads never wait on that thread.
//!
//! Volume is a whole percentage (0 to 100) and speed is in hundredths
//! (1.00x is 100); the audio thread turns them into its own units.  Commands
//! queue up in the handle's outbox until the caller delivers them.
use vstd::prelude::*;

verus! {

/// Volume change per key press, in percent.
pub const VOLUME_STEP: u32 = 1;

/// Loudest volume, in percent.
pub const VOLUME_MAX: u32 = 100;

/// Speed change per key press, in hundredths.
pub const SPEED_STEP: u32 = 1;

/// Slowest playback speed, in hundredths.
pub const SPEED_MIN: u32 = 5;

/// Fastest playback speed, in hundredths.
pub const SPEED_MAX: u32 = 300;

/// Normal playback speed, in hundredths.
pub const SPEED_NORMAL: u32 = 100;

/// The volume one step up from `v`, at most 100 percent.
pub open spec fn louder(v: u32) -> u32 {
    if v + VOLUME_STEP <= VOLUME_MAX {
        (v + VOLUME_STEP) as u32
    } else {
        VOLUME_MAX
    }
}

/// The volume one step down from `v`, at least silence and at most 100
/// percent.
pub open spec fn quieter(v: u32) -> u32 {
    if v >= VOLUME_STEP {
        if v - VOLUME_STEP <= VOLUME_MAX {
            (v - VOLUME_STEP) as u32
        } else {
            VOLUME_MAX
        }
    } else {
        0
    }
}

/// A volume step up adds one percent and a step down takes one away,
/// stopping at 100 and at 0; inside that range a step up is undone by a
/// step down and the other way round.
pub proof fn lemma_volume_steps(v: u32)
    requires
        v <= 100,
    ensures
        louder(v) == if v < 100 { v + 1 } else { 100 },
        quieter(v) == if v >= 1 { v - 1 } else { 0 },
        v < 100 ==> quieter(louder(v)) == v,
        v > 0 ==> louder(quieter(v)) == v,
{
}

/// `post` is `pre` with the volume set to `v` and the audio thread told so.
pub open spec fn volume_set(pre: PlayerHandle, post: PlayerHandle, v: u32) -> bool {
    &&& post.volume == v
    &&& post.is_paused == pre.is_paused
    &&& post.playback_speed == pre.playback_speed
    &&& post.outbox@ == pre.outbox@.push(PlayerCommand::SetVolume(v))
}

/// Commands sent from the UI thread to the audio thread.
#[derive(Debug, Clone, PartialEq, Eq)]
pub enum PlayerCommand {
    Play { path: String, speed: u32 },
    Stop,
    Pause,
    Resume,
    /// Seek to an absolute position. `paused` says whether to stay paused
    /// afterwards; `speed` is re-applied to the fresh decoder.
    Seek { path: String, position_ms: u64, paused: bool, speed: u32 },
    SetVolume(u32),
    /// Change playback speed without restarting the decoder.
    SetSpeed(u32),
    Quit,
}

/// Events sent from the audio thread back to the UI thread.
#[derive(Debug, Clone)]
pub enum PlayerEvent {
    /// Playback of the current track finished naturally (not via Stop).
    TrackFinished,
    /// A file could not be opened or decoded; carries a readable reason.
    Error(String),
}

/// The UI's handle on the audio thread: the shadowed state and the
/// commands not yet delivered.
pub struct PlayerHandle {
    /// Shadow of the audio thread's volume, in percent.
    pub volume: u32,
    /// Shadow of the audio thread's pause state.
    pub is_paused: bool,
    /// Current playback speed in hundredths, sent with every play and seek.
    pub playback_speed: u32,
    /// Commands waiting to be delivered, oldest first.
    pub outbox: Vec<PlayerCommand>,
}

impl PlayerHandle {
    /// A handle at `volume` percent (clamped to 100), playing at normal
    /// speed, with nothing sent yet.
    pub fn new(volume: u32) -> (r: Self)
        ensures
            r.volume == if volume <= VOLUME_MAX {
                volume
            } else {
                VOLUME_MAX
            },
            !r.is_paused,
            r.playback_speed == SPEED_NORMAL,
            r.outbox@.len() == 0,
    {
        PlayerHandle {
            volume: if volume <= VOLUME_MAX {
                volume
            } else {
                VOLUME_MAX
            },
            is_paused: false,
            playback_speed: SPEED_NORMAL,
            outbox: Vec::new(),
        }
    }

    /// Queues `cmd` for the audio thread.
    pub fn send(&mut self, cmd: PlayerCommand)
        ensures
            final(self).outbox@ == old(self).outbox@.push(cmd),
            final(self).volume == old(self).volume,
            final(self).is_paused == old(self).is_paused,
            final(self).playback_speed == old(self).playback_speed,
    {
        self.outbox.push(cmd);
    }

    /// Hands over the queued commands, oldest first, and empties the outbox.
    pub fn take_commands(&mut self) -> (r: Vec<PlayerCommand>)
        ensures
            r@ == old(self).outbox@,
            final(self).outbox@.len() == 0,
            final(self).volume == old(self).volume,
            final(self).is_paused == old(self).is_paused,
            final(self).playback_speed == old(self).playback_speed,
    {
        let mut out: Vec<PlayerCommand> = Vec::new();
        core::mem::swap(&mut out, &mut self.outbox);
        out
    }

    /// Starts `path` from the beginning at the current speed.
    pub fn play(&mut self, path: String)
        ensures
            !final(self).is_paused,
            final(self).volume == old(self).volume,
            final(self).playback_speed == old(self).playback_speed,
            final(self).outbox@ == old(self).outbox@.push(
                PlayerCommand::Play { path: path, speed: old(self).playback_speed },
            ),
    {
        self.is_paused = false;
        let speed = self.playback_speed;
        self.send(PlayerCommand::Play { path, speed });
    }

    /// Stops playback.
    pub fn stop(&mut self)
        ensures
            !final(self).is_paused,
            final(self).volume == old(self).volume,
            final(self).playback_speed == old(self).playback_speed,
            final(self).outbox@ == old(self).outbox@.push(PlayerCommand::Stop),
    {
        self.is_paused = false;
        self.send(PlayerCommand::Stop);
    }

    /// Pauses playback.
    pub fn pause(&mut self)
        ensures
            final(self).is_paused,
            final(self).volume == old(self).volume,
            final(self).playback_speed == old(self).playback_speed,
            final(self).outbox@ == old(self).outbox@.push(PlayerCommand::Pause),
    {
        self.is_paused = true;
        self.send(PlayerCommand::Pause);
    }

    /// Resumes playback.
    pub fn resume(&mut self)
        ensures
            !final(self).is_paused,
            final(self).volume == old(self).volume,
            final(self).playback_speed == old(self).playback_speed,
            final(self).outbox@ == old(self).outbox@.push(PlayerCommand::Resume),
    {
        self.is_paused = false;
        self.send(PlayerCommand::Resume);
    }

    /// Seeks to `position_ms` in `path`, which the audio thread reopens;
    /// `paused` says whether to stay paused.  Leaves `is_paused` to the
    /// caller.
    pub fn seek(&mut self, path: String, position_ms: u64, paused: bool)
        ensures
            final(self).is_paused == old(self).is_paused,
            final(self).volume == old(self).volume,
            final(self).playback_speed == old(self).playback_speed,
            final(self).outbox@ == old(self).outbox@.push(
                PlayerCommand::Seek {
                    path: path,
                    position_ms: position_ms,
                    paused: paused,
                    speed: old(self).playback_speed,
                },
            ),
    {
        let speed = self.playback_speed;
        self.send(PlayerCommand::Seek { path, position_ms, paused, speed });
    }

    /// Sets the volume to `v` percent, clamped to 100.
    pub fn set_volume(&mut self, v: u32)
        ensures
            final(self).volume == if v <= VOLUME_MAX {
                v
            } else {
                VOLUME_MAX
            },
            final(self).is_paused == old(self).is_paused,
            final(self).playback_speed == old(self).playback_speed,
            final(self).outbox@ == old(self).outbox@.push(
                PlayerCommand::SetVolume(final(self).volume),
            ),
    {
        self.volume = if v <= VOLUME_MAX {
            v
        } else {
            VOLUME_MAX
        };
        let vol = self.volume;
        self.send(PlayerCommand::SetVolume(vol));
    }

    /// Changes playback speed in place, with no decoder restart.
    pub fn set_speed(&mut self, speed: u32)
        ensures
            final(self).playback_speed == speed,
            final(self).volume == old(self).volume,
            final(self).is_paused == old(self).is_paused,
            final(self).outbox@ == old(self).outbox@.push(PlayerCommand::SetSpeed(speed)),
    {
        self.playback_speed = speed;
        self.send(PlayerCommand::SetSpeed(speed));
    }

    /// One step louder, up to 100 percent.
    pub fn volume_up(&mut self)
        ensures
            volume_set(*old(self), *final(self), louder(old(self).volume)),
    {
        let v = if self.volume < VOLUME_MAX {
            self.volume + VOLUME_STEP
        } else {
            VOLUME_MAX
        };
        self.set_volume(v);
    }

    /// One step quieter, down to silence.
    pub fn volume_down(&mut self)
        ensures
            volume_set(*old(self), *final(self), quieter(old(self).volume)),
    {
        let v = if self.volume >= VOLUME_STEP {
            self.volume - VOLUME_STEP
        } else {
            0
        };
        self.set_volume(v);
    }
}

} // verus!
