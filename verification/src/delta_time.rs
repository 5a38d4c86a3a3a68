//! The time that one frame took.

use std::time::Duration;
use vstd::prelude::*;

verus! {

/// The time that the last frame took.
pub struct DeltaTime(Duration);

impl DeltaTime {
    /// The time that the frame took.
    pub closed spec fn view(&self) -> Duration {
        self.0
    }

    /// The frame time `duration`.
    pub fn new(duration: Duration) -> (delta: Self)
        ensures
            delta@ == duration,
    {
        DeltaTime(duration)
    }

    /// The time that the frame took.
    pub fn duration(&self) -> (duration: Duration)
        ensures
            duration == self@,
    {
        self.0
    }
}

} // verus!
