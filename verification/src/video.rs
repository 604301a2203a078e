//! The state of video playback: whether a clip loops, plays, pauses or has
//! ended. The decoding itself happens elsewhere and reports here.

use vstd::prelude::*;

verus! {

/// State of the video player.
#[derive(Debug, Clone, Copy, PartialEq, Eq, Structural)]
pub enum PlayerState {
    Stopped,
    Playing,
    Paused,
    EndOfStream,
}

/// What to do with the decoder at the end of the stream.
#[derive(Debug, Clone, Copy, PartialEq, Eq, Structural)]
pub enum EndOfStream {
    /// Seek back to the start and go on playing.
    Restart,
    /// Leave it: the clip is over.
    Finish,
}

/// Whether a clip of the declared duration loops: it does if and only if the
/// duration is known and strictly below the threshold.
pub open spec fn loops(duration: Option<u64>, threshold: u64) -> bool {
    duration matches Some(d) && d < threshold
}

/// A video player as the contracts see it.
pub struct PlayerView {
    pub state: PlayerState,
    pub looping: bool,
    pub duration: Option<u64>,
    pub ended: bool,
}

/// The playback state of one clip. Durations are in milliseconds.
pub struct VideoPlayer {
    state: PlayerState,
    should_loop: bool,
    duration: Option<u64>,
    eos_reached: bool,
}

impl View for VideoPlayer {
    type V = PlayerView;

    closed spec fn view(&self) -> PlayerView {
        PlayerView {
            state: self.state,
            looping: self.should_loop,
            duration: self.duration,
            ended: self.eos_reached,
        }
    }
}

impl VideoPlayer {
    /// Create a new video player for a clip of the declared duration.
    pub fn new(loop_threshold: u64, media_duration: Option<u64>) -> (r: Self)
        ensures
            r@ == (PlayerView {
                state: PlayerState::Stopped,
                looping: loops(media_duration, loop_threshold),
                duration: media_duration,
                ended: false,
            }),
    {
        let should_loop = match media_duration {
            Some(d) => d < loop_threshold,
            None => false,
        };
        VideoPlayer {
            state: PlayerState::Stopped,
            should_loop,
            duration: media_duration,
            eos_reached: false,
        }
    }

    /// Start playing the video.
    pub fn play(&mut self)
        ensures
            final(self)@ == (PlayerView { state: PlayerState::Playing, ..old(self)@ }),
    {
        self.state = PlayerState::Playing;
    }

    /// Pause the video.
    pub fn pause(&mut self)
        ensures
            final(self)@ == (PlayerView { state: PlayerState::Paused, ..old(self)@ }),
    {
        self.state = PlayerState::Paused;
    }

    /// Stop the video.
    pub fn stop(&mut self)
        ensures
            final(self)@ == (PlayerView { state: PlayerState::Stopped, ..old(self)@ }),
    {
        self.state = PlayerState::Stopped;
    }

    /// The decoder reached the end of the stream: a looping clip starts
    /// over, any other clip has ended.
    pub fn end_of_stream(&mut self) -> (r: EndOfStream)
        ensures
            r == if old(self)@.looping {
                EndOfStream::Restart
            } else {
                EndOfStream::Finish
            },
            final(self)@ == (PlayerView {
                ended: old(self)@.ended || !old(self)@.looping,
                ..old(self)@
            }),
    {
        if self.should_loop {
            EndOfStream::Restart
        } else {
            self.eos_reached = true;
            EndOfStream::Finish
        }
    }

    /// The decoder failed: the clip counts as ended.
    pub fn failed(&mut self)
        ensures
            final(self)@ == (PlayerView { ended: true, ..old(self)@ }),
    {
        self.eos_reached = true;
    }

    /// Check if end of stream has been reached (for non-looping videos).
    pub fn is_eos(&self) -> (r: bool)
        ensures
            r == self@.ended,
    {
        self.eos_reached
    }

    /// Get the player state.
    pub fn state(&self) -> (r: PlayerState)
        ensures
            r == self@.state,
    {
        self.state
    }

    /// Check if this video is set to loop.
    pub fn is_looping(&self) -> (r: bool)
        ensures
            r == self@.looping,
    {
        self.should_loop
    }

    /// Get video duration in milliseconds.
    pub fn duration(&self) -> (r: Option<u64>)
        ensures
            r == self@.duration,
    {
        self.duration
    }
}

/// Manager for video playback state.
pub struct VideoManager {
    current_player: Option<VideoPlayer>,
    loop_threshold: u64,
}

impl VideoManager {
    /// The player of the current clip, if a clip is loaded.
    pub closed spec fn player(&self) -> Option<PlayerView> {
        match self.current_player {
            Some(p) => Some(p@),
            None => None,
        }
    }

    /// The duration in milliseconds below which a clip loops.
    pub closed spec fn threshold(&self) -> u64 {
        self.loop_threshold
    }

    /// Create a new video manager.
    pub fn new(loop_threshold: u64) -> (r: Self)
        ensures
            r.player() is None,
            r.threshold() == loop_threshold,
    {
        VideoManager { current_player: None, loop_threshold }
    }

    /// Load and start playing a video of the declared duration, in place of
    /// the current one.
    pub fn play_video(&mut self, duration: Option<u64>)
        ensures
            final(self).threshold() == old(self).threshold(),
            final(self).player() == Some(
                PlayerView {
                    state: PlayerState::Playing,
                    looping: loops(duration, old(self).threshold()),
                    duration,
                    ended: false,
                },
            ),
    {
        let mut player = VideoPlayer::new(self.loop_threshold, duration);
        player.play();
        self.current_player = Some(player);
    }

    /// Stop current video.
    pub fn stop(&mut self)
        ensures
            final(self).threshold() == old(self).threshold(),
            final(self).player() is None,
    {
        self.current_player = None;
    }

    /// Pause the current video.
    pub fn pause(&mut self)
        ensures
            final(self).threshold() == old(self).threshold(),
            final(self).player() == match old(self).player() {
                Some(p) => Some(PlayerView { state: PlayerState::Paused, ..p }),
                None => None,
            },
    {
        match self.current_player.take() {
            Some(mut p) => {
                p.pause();
                self.current_player = Some(p);
            },
            None => {},
        }
    }

    /// Resume the current video.
    pub fn resume(&mut self)
        ensures
            final(self).threshold() == old(self).threshold(),
            final(self).player() == match old(self).player() {
                Some(p) => Some(PlayerView { state: PlayerState::Playing, ..p }),
                None => None,
            },
    {
        match self.current_player.take() {
            Some(mut p) => {
                p.play();
                self.current_player = Some(p);
            },
            None => {},
        }
    }

    /// The decoder reached the end of the stream.
    pub fn end_of_stream(&mut self) -> (r: EndOfStream)
        ensures
            final(self).threshold() == old(self).threshold(),
            r == match old(self).player() {
                Some(p) => if p.looping {
                    EndOfStream::Restart
                } else {
                    EndOfStream::Finish
                },
                None => EndOfStream::Finish,
            },
            final(self).player() == match old(self).player() {
                Some(p) => Some(PlayerView { ended: p.ended || !p.looping, ..p }),
                None => None,
            },
    {
        match self.current_player.take() {
            Some(mut p) => {
                let r = p.end_of_stream();
                self.current_player = Some(p);
                r
            },
            None => EndOfStream::Finish,
        }
    }

    /// The decoder failed: the clip counts as ended.
    pub fn failed(&mut self)
        ensures
            final(self).threshold() == old(self).threshold(),
            final(self).player() == match old(self).player() {
                Some(p) => Some(PlayerView { ended: true, ..p }),
                None => None,
            },
    {
        match self.current_player.take() {
            Some(mut p) => {
                p.failed();
                self.current_player = Some(p);
            },
            None => {},
        }
    }

    /// Check if video playback has ended. Without a clip it has.
    pub fn is_ended(&self) -> (r: bool)
        ensures
            r == match self.player() {
                Some(p) => p.ended,
                None => true,
            },
    {
        match &self.current_player {
            Some(p) => p.is_eos(),
            None => true,
        }
    }

    /// Check if a video is currently playing.
    pub fn is_playing(&self) -> (r: bool)
        ensures
            r == match self.player() {
                Some(p) => p.state == PlayerState::Playing,
                None => false,
            },
    {
        match &self.current_player {
            Some(p) => p.state() == PlayerState::Playing,
            None => false,
        }
    }

    /// Check if current video is looping.
    pub fn is_looping(&self) -> (r: bool)
        ensures
            r == match self.player() {
                Some(p) => p.looping,
                None => false,
            },
    {
        match &self.current_player {
            Some(p) => p.is_looping(),
            None => false,
        }
    }

    /// Get video duration in milliseconds.
    pub fn duration(&self) -> (r: Option<u64>)
        ensures
            r == match self.player() {
                Some(p) => p.duration,
                None => None,
            },
    {
        match &self.current_player {
            Some(p) => p.duration(),
            None => None,
        }
    }
}

} // verus!
