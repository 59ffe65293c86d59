use vstd::prelude::*;

verus! {

/// clear bookkeeping of a playfield
pub struct Clear {
    pub clear_queue: Vec<u32>,
    pub combo_counter: u32,
    pub chain: u32,
    pub last_chain: u32,
    pub blocks_cleared: u32,
}

impl Default for Clear {
    fn default() -> (r: Clear)
        ensures
            r.clear_queue@.len() == 0,
            r.combo_counter == 0,
            r.chain == 1,
            r.last_chain == 1,
            r.blocks_cleared == 0,
    {
        Clear { clear_queue: Vec::new(), combo_counter: 0, chain: 1, last_chain: 1, blocks_cleared: 0 }
    }
}

/// lose state of a playfield
pub struct Lose {
    pub lost: bool,
    pub counter: u32,
}

impl Default for Lose {
    fn default() -> (r: Lose)
        ensures
            !r.lost,
            r.counter == 0,
    {
        Lose { lost: false, counter: 0 }
    }
}

/// deals with garbage spawns: the dimensions of the last garbage and wether the next one is
/// offset
pub struct GarbageMaster {
    pub last_dimensions: (usize, usize),
    /// wether the next garbage should be offset
    pub offset: bool,
}

impl Default for GarbageMaster {
    fn default() -> (r: GarbageMaster)
        ensures
            r.last_dimensions == (0usize, 0usize),
            !r.offset,
    {
        GarbageMaster { last_dimensions: (0, 0), offset: false }
    }
}

} // verus!
