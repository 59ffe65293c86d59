use vstd::prelude::*;
use crate::helpers::data::{CLEAR_TIME, LAND_TIME};
use crate::scripts::rng::Rng;

verus! {

/// all states a block can be in, with their frame counters
#[derive(Clone, Copy, PartialEq, Eq, Structural, Debug)]
pub enum BlockState {
    Idle,
    Hang { counter: u32 },
    Fall,
    Swap { counter: u32, direction: i32 },
    Land { counter: u32 },
    Clear { counter: u32, start_time: u32, end_time: u32 },
    Spawned,
}

/// block data used for unique block rendering and unique state
///
/// The visual offsets and the scale are held exactly as integers:
/// `swap_offset` counts steps of `ATLAS_TILE / SWAP_TIME` pixels,
/// `offset_y` counts pixels and `scale` counts `1 / CLEAR_TIME` of the full size.
#[derive(Clone, Copy, PartialEq, Eq, Structural, Debug)]
pub struct Block {
    /// hframe horizontal position in the texture atlas
    pub hframe: u32,
    /// vframe vertical position in the texture atlas
    pub vframe: u32,
    /// horizontal swap animation offset in steps of `ATLAS_TILE / SWAP_TIME` pixels
    pub swap_offset: i64,
    /// vertical pixel offset
    pub offset_y: i32,
    /// visual scale in `1 / CLEAR_TIME` units of the full size
    pub scale: u32,
    /// wether the block could result in a chain or not
    pub saved_chain: Option<usize>,
}

/// the block every new block starts from
pub open spec fn default_block() -> Block {
    Block { hframe: 0, vframe: 2, swap_offset: 0, offset_y: 0, scale: CLEAR_TIME, saved_chain: None }
}

impl Default for Block {
    fn default() -> (r: Block)
        ensures
            r == default_block(),
    {
        Block { hframe: 0, vframe: 2, swap_offset: 0, offset_y: 0, scale: CLEAR_TIME, saved_chain: None }
    }
}

/// wether the counter of a state can still be increased
pub open spec fn counter_room(s: BlockState) -> bool {
    match s {
        BlockState::Hang { counter } => counter < u32::MAX,
        BlockState::Swap { counter, .. } => counter < u32::MAX,
        BlockState::Clear { counter, .. } => counter < u32::MAX,
        BlockState::Land { counter } => counter < u32::MAX,
        _ => true,
    }
}

/// the scale of a clearing block at a given frame of its clear animation
pub open spec fn clear_scale(old_scale: u32, counter: u32, start_time: u32) -> u32 {
    if counter > start_time {
        if counter - start_time < CLEAR_TIME - 1 {
            (CLEAR_TIME - (counter - start_time)) as u32
        } else {
            0
        }
    } else {
        old_scale
    }
}

/// one animation frame of a block: the block and its state afterwards
pub open spec fn block_step(b: Block, s: BlockState) -> (Block, BlockState) {
    match s {
        BlockState::Hang { counter } => (b, BlockState::Hang { counter: (counter + 1) as u32 }),
        BlockState::Swap { counter, direction } => (
            Block { swap_offset: (direction * counter) as i64, ..b },
            BlockState::Swap { counter: (counter + 1) as u32, direction },
        ),
        BlockState::Clear { counter, start_time, end_time } => (
            Block { scale: clear_scale(b.scale, counter, start_time), hframe: 1, ..b },
            BlockState::Clear { counter: (counter + 1) as u32, start_time, end_time },
        ),
        BlockState::Land { counter } => (
            Block { hframe: (3 + counter / (LAND_TIME / 3)) as u32, ..b },
            BlockState::Land { counter: (counter + 1) as u32 },
        ),
        BlockState::Idle => (Block { saved_chain: None, hframe: 0, ..b }, s),
        _ => (b, s),
    }
}

impl Block {
    /// simply creates a vframe designed for the block
    pub fn random_vframe(gen: &mut Rng) -> (r: u32)
        requires
            old(gen).valid(),
        ensures
            3 <= r < 8,
            (r, final(gen).state) == crate::scripts::rng::pcg_range(old(gen).state, old(gen).inc, 3, 8),
            final(gen).inc == old(gen).inc,
    {
        gen.rand_range(3, 8)
    }

    /// updates the block variables based on each state, mostly animation based
    pub fn update(&mut self, state: &mut BlockState)
        requires
            counter_room(*old(state)),
        ensures
            (*final(self), *final(state)) == block_step(*old(self), *old(state)),
    {
        match *state {
            BlockState::Hang { counter } => {
                *state = BlockState::Hang { counter: counter + 1 };
            },
            BlockState::Swap { counter, direction } => {
                assert(-0x8000_0000 * 0xffff_ffff <= direction as int * counter as int <= 0x7fff_ffff * 0xffff_ffff) by (nonlinear_arith)
                    requires -0x8000_0000 <= direction <= 0x7fff_ffff, 0 <= counter <= 0xffff_ffff;
                self.swap_offset = direction as i64 * counter as i64;
                *state = BlockState::Swap { counter: counter + 1, direction };
            },
            BlockState::Clear { counter, start_time, end_time } => {
                if counter > start_time {
                    if (counter - start_time) < CLEAR_TIME - 1 {
                        self.scale = CLEAR_TIME - (counter - start_time);
                    } else {
                        self.scale = 0;
                    }
                }
                self.hframe = 1;
                *state = BlockState::Clear { counter: counter + 1, start_time, end_time };
            },
            BlockState::Land { counter } => {
                self.hframe = 3 + counter / (LAND_TIME / 3);
                *state = BlockState::Land { counter: counter + 1 };
            },
            BlockState::Idle => {
                self.saved_chain = None;
                self.hframe = 0;
            },
            _ => {},
        }
    }
}

} // verus!
