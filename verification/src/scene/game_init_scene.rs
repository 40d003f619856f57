use vstd::prelude::*;

verus! {

/// The first scene: it loads the textures and fonts and opens the loading
/// screen.
pub struct GameInitScene {}

} // verus!
