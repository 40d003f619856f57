use vstd::prelude::*;

verus! {

/// A block that gives off light of some level.
pub struct LightSource {
    pub level: i32,
}

impl LightSource {
    pub fn new(level: i32) -> (r: LightSource)
        ensures
            r.level == level,
    {
        LightSource { level }
    }
}

} // verus!
