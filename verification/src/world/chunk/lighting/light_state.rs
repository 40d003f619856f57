use vstd::prelude::*;

verus! {

/// The light level that reaches a block.
pub struct LightState {
    pub level: i32,
}

impl LightState {
    pub fn new(level: i32) -> (r: LightState)
        ensures
            r.level == level,
    {
        LightState { level }
    }
}

} // verus!
