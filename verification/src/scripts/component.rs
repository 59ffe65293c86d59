use vstd::prelude::*;
use crate::scripts::block::{Block, BlockState, default_block};
use crate::scripts::garbage::Child;

verus! {

/// variants that live in each grid space
#[derive(Clone, Copy, PartialEq, Eq, Structural, Debug)]
pub enum Component {
    /// shows up as nothing in the grid
    Empty { size: usize, alive: bool },
    /// normal block with unique data
    Block { block: Block, state: BlockState },
    /// garbage child that lives in the grid and is linked up in a higher layer garbage
    Child(Child),
}

/// the component a grid space gets from an optional vframe
pub open spec fn spawned(opt_vframe: Option<u32>) -> Component {
    match opt_vframe {
        Some(vframe) => Component::Block {
            block: Block { vframe, ..default_block() },
            state: BlockState::Idle,
        },
        None => Component::Empty { size: 0, alive: false },
    }
}

impl Component {
    /// an idle block of the given vframe, or an empty space
    pub fn spawn(opt_vframe: Option<u32>) -> (r: Component)
        ensures
            r == spawned(opt_vframe),
    {
        match opt_vframe {
            Some(vframe) => Component::Block {
                block: Block { vframe, ..Block::default() },
                state: BlockState::Idle,
            },
            None => Component::Empty { size: 0, alive: false },
        }
    }
}

/// exchanges two components of the list
pub fn swap_components(v: &mut Vec<Component>, i: usize, j: usize)
    requires
        i < old(v)@.len(),
        j < old(v)@.len(),
    ensures
        final(v)@ == old(v)@.update(i as int, old(v)@[j as int]).update(j as int, old(v)@[i as int]),
{
    let a = v[i];
    let b = v[j];
    v.set(i, b);
    v.set(j, a);
}

} // verus!
