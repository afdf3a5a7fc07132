//! Frame timing: the time between two frames and a frame rate that is sampled
//! once per second.
//!
//! All times are nanoseconds, counted from the moment the timer was made.

use vstd::prelude::*;

verus! {

/// Length of a frame-rate sampling window, in nanoseconds.
pub const NANOS_PER_SECOND: u128 = 1_000_000_000;

/// What a [`FrameTimer`] is, as mathematical integers.
pub struct TimerModel {
    /// When the current sampling window began.
    pub window_start: nat,
    /// The clock reading of the frame before the latest one.
    pub previous: nat,
    /// The latest clock reading.
    pub current: nat,
    /// Frames counted in the current sampling window.
    pub frames: nat,
    /// Frames counted in the latest completed sampling window.
    pub frame_rate: nat,
}

impl TimerModel {
    /// A timer that has seen no frame: every reading is zero.
    pub open spec fn initial() -> TimerModel {
        TimerModel { window_start: 0, previous: 0, current: 0, frames: 0, frame_rate: 0 }
    }

    /// Whether every number fits the machine integer that a [`FrameTimer`]
    /// holds it in.
    pub open spec fn fits(self) -> bool {
        &&& self.window_start <= u128::MAX
        &&& self.previous <= u128::MAX
        &&& self.current <= u128::MAX
        &&& self.frames <= u32::MAX
        &&& self.frame_rate <= u32::MAX
    }

    /// Time between the two latest readings, or `None` where the clock ran
    /// backwards between them.
    pub open spec fn delta(self) -> Option<nat> {
        if self.previous <= self.current {
            Some((self.current - self.previous) as nat)
        } else {
            None
        }
    }

    /// Whether a reading can be taken in: it is not earlier than the start of
    /// the sampling window.
    pub open spec fn accepts(self, now: nat) -> bool {
        self.window_start <= now
    }

    /// Whether a reading completes the sampling window: a full second has
    /// passed since the window began.
    pub open spec fn completes_window(self, now: nat) -> bool {
        now - self.window_start >= NANOS_PER_SECOND
    }

    /// The frame count one frame later. It stops at `u32::MAX`.
    pub open spec fn counted(self) -> nat {
        if self.frames < u32::MAX {
            self.frames + 1
        } else {
            u32::MAX as nat
        }
    }

    /// The timer after a frame that ended at `now`.
    ///
    /// The frame is counted. Where it completes the sampling window, the count
    /// becomes the frame rate and a new window begins at `now`.
    pub open spec fn tick(self, now: nat) -> TimerModel {
        if self.completes_window(now) {
            TimerModel {
                window_start: now,
                previous: self.current,
                current: now,
                frames: 0,
                frame_rate: self.counted(),
            }
        } else {
            TimerModel {
                window_start: self.window_start,
                previous: self.current,
                current: now,
                frames: self.counted(),
                frame_rate: self.frame_rate,
            }
        }
    }

    /// The timer after one frame per reading, in order.
    pub open spec fn tick_all(self, readings: Seq<nat>) -> TimerModel
        decreases readings.len(),
    {
        if readings.len() == 0 {
            self
        } else {
            self.tick_all(readings.drop_last()).tick(readings.last())
        }
    }
}

/// The clock ran backwards: a reading is earlier than one it has to follow.
#[derive(Clone, Copy, Debug, PartialEq, Eq)]
pub enum TimeError {
    ClockWentBackwards,
}

/// Measures the time between frames and samples the frame rate once per
/// second.
pub struct FrameTimer {
    window_start: u128,
    previous: u128,
    current: u128,
    frames: u32,
    frame_rate: u32,
}

impl View for FrameTimer {
    type V = TimerModel;

    closed spec fn view(&self) -> TimerModel {
        TimerModel {
            window_start: self.window_start as nat,
            previous: self.previous as nat,
            current: self.current as nat,
            frames: self.frames as nat,
            frame_rate: self.frame_rate as nat,
        }
    }
}

impl FrameTimer {
    /// A timer at time zero that has seen no frame.
    pub fn new() -> (timer: FrameTimer)
        ensures
            timer@ == TimerModel::initial(),
    {
        FrameTimer { window_start: 0, previous: 0, current: 0, frames: 0, frame_rate: 0 }
    }

    /// The numbers of a timer fit its machine integers.
    pub proof fn lemma_fits(&self)
        ensures
            self@.fits(),
    {
    }

    /// Frames counted in the latest completed sampling window; zero until a
    /// window has been completed.
    pub fn frame_rate(&self) -> (rate: u32)
        ensures
            rate == self@.frame_rate,
    {
        self.frame_rate
    }

    /// Time between the two latest readings, or `None` where the clock ran
    /// backwards between them.
    pub fn delta_nanos(&self) -> (delta: Option<u128>)
        ensures
            match delta {
                Some(d) => self@.delta() == Some(d as nat),
                None => self@.delta() is None,
            },
    {
        if self.previous <= self.current {
            Some(self.current - self.previous)
        } else {
            None
        }
    }

    /// Ends a frame at `now`.
    ///
    /// Fails, and changes nothing, where `now` is earlier than the start of
    /// the sampling window.
    pub fn tick(&mut self, now: u128) -> (result: Result<(), TimeError>)
        ensures
            result is Ok <==> old(self)@.accepts(now as nat),
            result is Ok ==> final(self)@ == old(self)@.tick(now as nat),
            result is Err ==> final(self)@ == old(self)@,
    {
        if now < self.window_start {
            return Err(TimeError::ClockWentBackwards);
        }
        let counted: u32 = if self.frames < u32::MAX {
            self.frames + 1
        } else {
            u32::MAX
        };
        self.previous = self.current;
        self.current = now;
        if now - self.window_start >= NANOS_PER_SECOND {
            self.frame_rate = counted;
            self.frames = 0;
            self.window_start = now;
        } else {
            self.frames = counted;
        }
        Ok(())
    }
}

/// While no reading completes the sampling window, the frame rate and the
/// window stay as they are and every frame is counted: the frame rate changes
/// at most once per second.
pub proof fn lemma_rate_holds_within_window(timer: TimerModel, readings: Seq<nat>)
    requires
        timer.fits(),
        forall|i: int| 0 <= i < readings.len() ==> !timer.completes_window(#[trigger] readings[i]),
    ensures
        timer.tick_all(readings).frame_rate == timer.frame_rate,
        timer.tick_all(readings).window_start == timer.window_start,
        timer.tick_all(readings).frames == if timer.frames + readings.len() < u32::MAX {
            timer.frames + readings.len()
        } else {
            u32::MAX as nat
        },
    decreases readings.len(),
{
    if readings.len() > 0 {
        let earlier = readings.drop_last();
        assert forall|i: int| 0 <= i < earlier.len() implies !timer.completes_window(
            #[trigger] earlier[i],
        ) by {
            assert(earlier[i] == readings[i]);
        }
        lemma_rate_holds_within_window(timer, earlier);
        assert(!timer.completes_window(readings[readings.len() - 1]));
    }
}

/// A timer reports the frame rate zero for as long as every reading lies
/// within the first second.
pub proof fn lemma_no_sample_in_first_second(readings: Seq<nat>)
    requires
        forall|i: int| 0 <= i < readings.len() ==> #[trigger] readings[i] < NANOS_PER_SECOND,
    ensures
        TimerModel::initial().tick_all(readings).frame_rate == 0,
{
    lemma_rate_holds_within_window(TimerModel::initial(), readings);
}

/// The frame rate sampled when a window is completed is the number of
/// frames that ended in the window, the completing one included.
pub proof fn lemma_rate_counts_frames(timer: TimerModel, readings: Seq<nat>)
    requires
        timer.fits(),
        timer.frames == 0,
        0 < readings.len() <= u32::MAX,
        forall|i: int|
            0 <= i < readings.len() - 1 ==> !timer.completes_window(#[trigger] readings[i]),
        timer.completes_window(readings.last()),
    ensures
        timer.tick_all(readings).frame_rate == readings.len(),
        timer.tick_all(readings).frames == 0,
        timer.tick_all(readings).window_start == readings.last(),
{
    let earlier = readings.drop_last();
    assert forall|i: int| 0 <= i < earlier.len() implies !timer.completes_window(
        #[trigger] earlier[i],
    ) by {
        assert(earlier[i] == readings[i]);
    }
    lemma_rate_holds_within_window(timer, earlier);
}

} // verus!
