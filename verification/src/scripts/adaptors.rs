use vstd::prelude::*;
use crate::scripts::block::Block;
use crate::scripts::component::Component;

verus! {

/// reading a block that may be missing
pub trait OptionBlock: Sized {
    /// the chain the block may be part of, nothing without a block
    spec fn chain_spec(self) -> Option<usize>;

    fn get_chain(self) -> (r: Option<usize>)
        ensures
            r == self.chain_spec(),
    ;
}

impl<'a> OptionBlock for Option<&'a Block> {
    open spec fn chain_spec(self) -> Option<usize> {
        match self {
            Some(b) => b.saved_chain,
            None => None,
        }
    }

    fn get_chain(self) -> (r: Option<usize>) {
        match self {
            Some(b) => b.saved_chain,
            None => None,
        }
    }
}

/// writing a block that may be missing
trait OptionMutBlock: Sized {
    /// sets the texture column of the block
    fn set_hframe(self, num: u32);

    /// saves the chain the block is part of
    fn set_chain(self, size: u32);
}

impl<'a> OptionMutBlock for Option<&'a mut Block> {
    fn set_hframe(self, num: u32)
        ensures
            match self {
                Some(b) => *final(b) == (Block { hframe: num, ..*b }),
                None => true,
            },
    {
        match self {
            Some(b) => {
                b.hframe = num;
            },
            None => {},
        }
    }

    fn set_chain(self, size: u32)
        ensures
            match self {
                Some(b) => *final(b) == (Block { saved_chain: Some(size as usize), ..*b }),
                None => true,
            },
    {
        match self {
            Some(b) => {
                b.saved_chain = Some(size as usize);
            },
            None => {},
        }
    }
}

/// writing a component that may be missing
pub trait OptionMutComponent: Sized {
    /// turns the component into an empty space that passes a chain on to blocks falling into it
    fn to_chainable(self, chain: usize);
}

impl<'a> OptionMutComponent for Option<&'a mut Component> {
    fn to_chainable(self, chain: usize)
        ensures
            match self {
                Some(c) => *final(c) == (Component::Empty { size: chain, alive: true }),
                None => true,
            },
    {
        match self {
            Some(c) => {
                *c = Component::Empty { size: chain, alive: true };
            },
            None => {},
        }
    }
}

} // verus!
