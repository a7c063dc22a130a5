use vstd::prelude::*;
use crate::input::InputState;

verus! {

/// Snapshot of one frame, handed read-only to every behavior during updates:
/// the input state and the timing.
#[derive(Debug)]
pub struct GameFrame {
    pub Input: InputState,
    /// Milliseconds since the simulation started.
    pub TimeSinceGameStart: i64,
    /// Milliseconds since the previous frame.
    pub DeltaTime: i64,
}

impl GameFrame {
    pub fn new(input: InputState, timeSinceGameStart: i64, deltaTime: i64) -> (r: Self)
        ensures
            r.Input == input,
            r.TimeSinceGameStart == timeSinceGameStart,
            r.DeltaTime == deltaTime,
    {
        GameFrame { Input: input, TimeSinceGameStart: timeSinceGameStart, DeltaTime: deltaTime }
    }
}

} // verus!
