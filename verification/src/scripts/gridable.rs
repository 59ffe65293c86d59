use vstd::prelude::*;

verus! {

/// set of functions both garbage and blocks share
pub trait Gridable: Sized {
    fn is_idle(self) -> bool;

    fn is_hang(self) -> bool;

    fn is_clear(self) -> bool;

    fn clear_started(self) -> bool;

    fn hang_started(self) -> bool;

    fn hang_finished(self) -> bool;

    fn clear_finished(self) -> bool;

    fn to_hang(&mut self, counter: u32);

    fn to_clear(&mut self);
}

} // verus!
