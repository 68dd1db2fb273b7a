use vstd::prelude::*;

verus! {

/// How long frames are counted before a rate is reported, in nanoseconds.
pub const FPS_INTERVAL: u64 = 3_000_000_000;

/// The frames finished over a stretch of time, for a frame rate.
#[derive(Debug, Clone, Copy, PartialEq, Eq, Structural)]
pub struct FrameReport {
    pub frames: u32,
    pub elapsed_nanos: u64,
}

/// Counts finished frames and reports them once `FPS_INTERVAL` has passed.
///
/// Instants are nanoseconds since any fixed origin.
pub struct FrameCounter {
    pub last_instant: u64,
    pub counter: u32,
}

impl FrameCounter {
    pub fn new(start: u64) -> (r: Self)
        ensures
            r.last_instant == start,
            r.counter == 0,
    {
        Self { counter: 0, last_instant: start }
    }

    /// Records a finished frame at `current_instant`. Once more than `FPS_INTERVAL` has
    /// passed since the last report, returns the frames counted and the time they took, and
    /// starts counting afresh from `current_instant`.
    pub fn finish_frame(&mut self, current_instant: u64) -> (r: Option<FrameReport>)
        ensures
            ({
                let frames = if old(self).counter < u32::MAX {
                    old(self).counter + 1
                } else {
                    old(self).counter as int
                };
                let elapsed = if current_instant >= old(self).last_instant {
                    current_instant - old(self).last_instant
                } else {
                    0
                };
                if elapsed > FPS_INTERVAL {
                    &&& r == Some(
                        FrameReport { frames: frames as u32, elapsed_nanos: elapsed as u64 },
                    )
                    &&& final(self).counter == 0
                    &&& final(self).last_instant == current_instant
                } else {
                    &&& r.is_none()
                    &&& final(self).counter == frames
                    &&& final(self).last_instant == old(self).last_instant
                }
            }),
    {
        if self.counter < u32::MAX {
            self.counter = self.counter + 1;
        }
        let time_since_last_printout = if current_instant >= self.last_instant {
            current_instant - self.last_instant
        } else {
            0
        };
        if time_since_last_printout > FPS_INTERVAL {
            let report = FrameReport {
                frames: self.counter,
                elapsed_nanos: time_since_last_printout,
            };
            self.counter = 0;
            self.last_instant = current_instant;
            Some(report)
        } else {
            None
        }
    }
}

} // verus!
