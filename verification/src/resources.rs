//! State shared by the passes of a tick.

use vstd::prelude::*;

verus! {

/// A count of bricks at which the menu is due: none is left.
pub open spec fn menu_due(count: int) -> bool {
    count == 0
}

/// The number of bricks that can still be struck.
#[derive(Clone, Copy, Debug, PartialEq, Eq, Structural)]
pub struct WallCount(pub i32);

impl WallCount {
    /// With no brick left the game is over and the menu is due.
    pub open spec fn exhausted(self) -> bool {
        menu_due(self.0 as int)
    }
}

} // verus!
