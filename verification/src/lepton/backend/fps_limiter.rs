use vstd::prelude::*;

verus! {

/// Number of frames after which the limiter restarts its clock.
pub const REFRESH_FRAME: usize = 64;

/// Microseconds per second.
pub const MICROS_PER_SECOND: u32 = 1_000_000;

/// The frame time, in microseconds, that a frame rate asks for.
pub open spec fn frame_time(fps: u32) -> u32 {
    (MICROS_PER_SECOND / fps) as u32
}

/// What one tick of the limiter decided: the length of the frame in
/// microseconds (zero when the frame ran over the upper limit and is
/// dropped), and whether the caller must restart the clock that it reads
/// the current time from.
#[derive(PartialEq, Eq, Structural, Copy, Clone, Debug)]
pub struct FrameTick {
    pub delta_micros: u128,
    pub restart_clock: bool,
}

/// Paces a game loop. The caller owns the clock: it reports the
/// microseconds elapsed since the clock last started, sleeps for what
/// `time_to_sleep` asks, and restarts its clock when `tick_frame` says so.
pub struct FPSLimiter {
    lower_frame_time: Option<u32>,
    upper_frame_time: Option<u32>,
    current_frame: usize,
    last_micros: u128,
}

impl FPSLimiter {
    #[verifier::type_invariant]
    spec fn inv(self) -> bool {
        self.current_frame < REFRESH_FRAME
    }

    /// The shortest frame time in microseconds, if frames are to be stretched.
    pub closed spec fn lower_frame_time(self) -> Option<u32> {
        self.lower_frame_time
    }

    /// The longest frame time in microseconds, if longer frames are dropped.
    pub closed spec fn upper_frame_time(self) -> Option<u32> {
        self.upper_frame_time
    }

    /// How many frames have passed since the clock last restarted.
    pub closed spec fn current_frame(self) -> nat {
        self.current_frame as nat
    }

    /// The clock reading at the end of the previous frame.
    pub closed spec fn last_micros(self) -> u128 {
        self.last_micros
    }

    /// A limiter that neither stretches nor drops frames.
    pub fn new() -> (r: FPSLimiter)
        ensures
            r.lower_frame_time() is None,
            r.upper_frame_time() is None,
            r.current_frame() == 0,
            r.last_micros() == 0,
    {
        FPSLimiter { lower_frame_time: None, upper_frame_time: None, current_frame: 0, last_micros: 0 }
    }

    /// A limiter that stretches frames to at most `lower` frames per second
    /// and drops frames slower than `upper` frames per second.
    pub fn with_limits(lower: Option<u32>, upper: Option<u32>) -> (r: FPSLimiter)
        requires
            lower != Some(0u32),
            upper != Some(0u32),
        ensures
            r.lower_frame_time() == (match lower {
                Some(fps) => Some(frame_time(fps)),
                None => None::<u32>,
            }),
            r.upper_frame_time() == (match upper {
                Some(fps) => Some(frame_time(fps)),
                None => None::<u32>,
            }),
            r.current_frame() == 0,
            r.last_micros() == 0,
    {
        let lower_frame_time = match lower {
            Some(fps) => Some(MICROS_PER_SECOND / fps),
            None => None,
        };
        let upper_frame_time = match upper {
            Some(fps) => Some(MICROS_PER_SECOND / fps),
            None => None,
        };
        FPSLimiter { lower_frame_time, upper_frame_time, current_frame: 0, last_micros: 0 }
    }

    /// The clock reading at the end of the previous frame (zero after the
    /// clock restarts): a later reading may not be smaller.
    pub fn last_reading(&self) -> (r: u128)
        ensures
            r == self.last_micros(),
    {
        self.last_micros
    }

    /// Given the clock reading `now_micros`, how long the caller must sleep
    /// before the frame reaches the shortest frame time.
    pub fn time_to_sleep(&self, now_micros: u128) -> (r: Option<u64>)
        requires
            self.last_micros() <= now_micros,
            now_micros - self.last_micros() <= i128::MAX,
        ensures
            r == (match self.lower_frame_time() {
                Some(t) => if now_micros - self.last_micros() < t {
                    Some((t - (now_micros - self.last_micros())) as u64)
                } else {
                    None::<u64>
                },
                None => None::<u64>,
            }),
    {
        let delta_frame = now_micros - self.last_micros;
        match self.lower_frame_time {
            Some(t) => {
                if delta_frame < t as u128 {
                    Some((t as u128 - delta_frame) as u64)
                } else {
                    None
                }
            },
            None => None,
        }
    }

    /// Ends a frame at clock reading `now_micros`: returns the frame's
    /// length (zero when it exceeds the longest frame time) and whether this
    /// was the last frame before the clock restarts.
    pub fn tick_frame(&mut self, now_micros: u128) -> (r: FrameTick)
        requires
            old(self).last_micros() <= now_micros,
            now_micros - old(self).last_micros() <= i128::MAX,
        ensures
            r.delta_micros == (match old(self).upper_frame_time() {
                Some(t) => if now_micros - old(self).last_micros() > t {
                    0
                } else {
                    now_micros - old(self).last_micros()
                },
                None => now_micros - old(self).last_micros(),
            }),
            r.restart_clock == (old(self).current_frame() + 1 == REFRESH_FRAME),
            final(self).current_frame() == (old(self).current_frame() + 1) % (REFRESH_FRAME as nat),
            final(self).last_micros() == (if r.restart_clock { 0 } else { now_micros }),
            final(self).lower_frame_time() == old(self).lower_frame_time(),
            final(self).upper_frame_time() == old(self).upper_frame_time(),
    {
        proof {
            use_type_invariant(&*self);
        }
        let mut delta_frame = now_micros - self.last_micros;
        if let Some(t) = self.upper_frame_time {
            if delta_frame > t as u128 {
                delta_frame = 0;
            }
        }
        let restart_clock = self.current_frame + 1 == REFRESH_FRAME;
        if restart_clock {
            self.last_micros = 0;
            self.current_frame = 0;
        } else {
            self.last_micros = now_micros;
            self.current_frame = self.current_frame + 1;
        }
        FrameTick { delta_micros: delta_frame, restart_clock }
    }
}

/// Ticking from a fresh limiter, the frame counter after `i` ticks is
/// `i` modulo `REFRESH_FRAME`, so the clock restarts on every
/// `REFRESH_FRAME`-th tick and on no other. `frames[i]` is the counter
/// after `i` ticks, as `tick_frame`'s contract relates them.
pub proof fn lemma_restart_every_refresh(frames: Seq<nat>)
    requires
        frames.len() > 0,
        frames[0] == 0,
        forall|i: int| 0 <= i < frames.len() - 1 ==> #[trigger] frames[i + 1] == (frames[i] + 1) % (REFRESH_FRAME as nat),
    ensures
        forall|i: int| 0 <= i < frames.len() ==> #[trigger] frames[i] == i % (REFRESH_FRAME as int),
        forall|i: int|
            0 <= i < frames.len() - 1 ==> (frames[i] + 1 == REFRESH_FRAME <==> (i + 1) % (REFRESH_FRAME as int) == 0),
{
    assert forall|i: int| 0 <= i < frames.len() implies #[trigger] frames[i] == i % (REFRESH_FRAME as int) by {
        lemma_frames_count(frames, i);
    }
    assert forall|i: int| 0 <= i < frames.len() - 1 implies (frames[i] + 1 == REFRESH_FRAME <==> (i + 1) % (
    REFRESH_FRAME as int) == 0) by {
        lemma_frames_count(frames, i);
    }
}

proof fn lemma_frames_count(frames: Seq<nat>, i: int)
    requires
        0 <= i < frames.len(),
        frames[0] == 0,
        forall|j: int| 0 <= j < frames.len() - 1 ==> #[trigger] frames[j + 1] == (frames[j] + 1) % (REFRESH_FRAME as nat),
    ensures
        frames[i] == i % (REFRESH_FRAME as int),
    decreases i,
{
    if i > 0 {
        let j = i - 1;
        lemma_frames_count(frames, j);
        assert(frames[j + 1] == (frames[j] + 1) % (REFRESH_FRAME as nat));
        assert(((j % 64) + 1) % 64 == (j + 1) % 64) by (nonlinear_arith)
            requires
                j >= 0,
        ;
    }
}

} // verus!
