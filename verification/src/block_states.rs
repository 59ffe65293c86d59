use vstd::prelude::*;

verus! {

/// marker of the fall state of a block: it moves down a space each frame
pub struct Fall;

/// marker of the hang state of a block: it waits in the air before it falls
pub struct Hang;

/// marker of the idle state of a block: it waits for something below it to go away
pub struct Idle;

} // verus!
