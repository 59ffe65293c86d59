use vstd::prelude::*;

verus! {

/// the id of the playfield an entity belongs to
pub struct PlayfieldId {
    id: usize,
}

impl PlayfieldId {
    /// the id a `PlayfieldId` was made with
    pub closed spec fn spec_id(&self) -> usize {
        self.id
    }

    pub fn new(id: usize) -> (r: PlayfieldId)
        ensures
            r.spec_id() == id,
    {
        PlayfieldId { id }
    }

    /// the playfield id
    pub fn id(&self) -> (r: usize)
        ensures
            r == self.spec_id(),
    {
        self.id
    }
}

} // verus!
