use vstd::prelude::*;
use std::collections::VecDeque;

verus! {

/// amount of frames the appear animation of a new combo takes
pub const COMBO_APPEAR_TIME: u32 = 5;

/// amount of frames the disappear animation of a combo takes
pub const COMBO_DISAPPEAR_START: u32 = 10;

/// amount of frames a combo stays in the list
pub const COMBO_DISAPPEAR_TIME: u32 = 500;

/// Types of combos
#[derive(Clone, Copy, PartialEq, Eq, Structural, Debug)]
pub enum ComboVariant {
    /// wether a combo is the type
    Combo,
    /// wether a combo is a result of the chain
    Chain,
}

/// Data each combo requires
#[derive(Clone, Copy, PartialEq, Eq, Structural, Debug)]
pub struct ComboData {
    pub size: u32,
    pub counter: u32,
    pub variant: ComboVariant,
    pub sent: bool,
}

/// list of combo data and the appear animation counter
pub struct ComboHighlight {
    pub list: VecDeque<ComboData>,
    pub y_offset: u32,
}

/// the first position of a combo whose display time ran out, or the length
pub open spec fn first_expired(s: Seq<ComboData>) -> int
    decreases s.len(),
{
    if s.len() == 0 {
        0
    } else if s[0].counter >= COMBO_DISAPPEAR_TIME {
        0
    } else {
        1 + first_expired(s.drop_first())
    }
}

/// the combo list with the combos before the first expired one counted one frame up
pub open spec fn counted_list(s: Seq<ComboData>) -> Seq<ComboData> {
    let k = first_expired(s);
    Seq::new(
        s.len(),
        |j: int| if j < k { ComboData { counter: (s[j].counter + 1) as u32, ..s[j] } } else { s[j] },
    )
}

/// the combo list after one animation frame: the combos before the first expired one
/// count one frame up, and if a combo expired the last combo of the list is dropped
pub open spec fn advanced_list(s: Seq<ComboData>) -> Seq<ComboData> {
    let k = first_expired(s);
    let counted = counted_list(s);
    if k < s.len() {
        counted.drop_last()
    } else {
        counted
    }
}

proof fn lemma_first_expired(s: Seq<ComboData>)
    ensures
        0 <= first_expired(s) <= s.len(),
        forall|j: int| 0 <= j < first_expired(s) ==> s[j].counter < COMBO_DISAPPEAR_TIME,
        first_expired(s) < s.len() ==> s[first_expired(s)].counter >= COMBO_DISAPPEAR_TIME,
    decreases s.len(),
{
    if s.len() > 0 && s[0].counter < COMBO_DISAPPEAR_TIME {
        lemma_first_expired(s.drop_first());
        assert forall|j: int| 0 <= j < first_expired(s) implies s[j].counter < COMBO_DISAPPEAR_TIME by {
            if j > 0 {
                assert(s[j] == s.drop_first()[j - 1]);
            }
        }
    }
}

impl Default for ComboHighlight {
    fn default() -> (r: ComboHighlight)
        ensures
            r.list@.len() == 0,
            r.y_offset == 0,
    {
        ComboHighlight { list: VecDeque::new(), y_offset: 0 }
    }
}

impl ComboHighlight {
    /// clears the queue
    pub fn clear(&mut self)
        ensures
            final(self).list@.len() == 0,
            final(self).y_offset == old(self).y_offset,
    {
        self.list.clear();
    }

    /// pushes a chain onto the vecdeque start, restarts the appear animation
    pub fn push_chain(&mut self, chain_size: u32)
        ensures
            final(self).list@ == seq![(ComboData { size: chain_size, counter: 0, variant: ComboVariant::Chain, sent: false })] + old(self).list@,
            final(self).y_offset == COMBO_APPEAR_TIME,
    {
        self.list.push_front(ComboData { size: chain_size, counter: 0, variant: ComboVariant::Chain, sent: false });
        self.y_offset = COMBO_APPEAR_TIME;
    }

    /// pushes a combo onto the vecdeque start, restarts the appear animation
    pub fn push_combo(&mut self, combo_size: u32)
        ensures
            final(self).list@ == seq![(ComboData { size: combo_size, counter: 0, variant: ComboVariant::Combo, sent: false })] + old(self).list@,
            final(self).y_offset == COMBO_APPEAR_TIME,
    {
        self.list.push_front(ComboData { size: combo_size, counter: 0, variant: ComboVariant::Combo, sent: false });
        self.y_offset = COMBO_APPEAR_TIME;
    }

    /// the amount of combos drawn this frame: all up to and including the first expired one
    pub fn visible_count(&self) -> (r: usize)
        ensures
            r == if first_expired(self.list@) < self.list@.len() { first_expired(self.list@) + 1 } else { self.list@.len() as int },
    {
        proof { lemma_first_expired(self.list@); }
        let len = self.list.len();
        let mut i: usize = 0;
        while i < len
            invariant
                len == self.list@.len(),
                0 <= i <= len,
                forall|j: int| 0 <= j < i ==> self.list@[j].counter < COMBO_DISAPPEAR_TIME,
                0 <= first_expired(self.list@) <= len,
                forall|j: int| 0 <= j < first_expired(self.list@) ==> self.list@[j].counter < COMBO_DISAPPEAR_TIME,
                first_expired(self.list@) < len ==> self.list@[first_expired(self.list@)].counter >= COMBO_DISAPPEAR_TIME,
                i <= first_expired(self.list@),
            decreases len - i,
        {
            if self.list[i].counter >= COMBO_DISAPPEAR_TIME {
                return i + 1;
            }
            i = i + 1;
        }
        len
    }

    /// the animation frame of all current combos: counts their display time up, drops the
    /// last combo once a combo reached the end of its display time and moves the appear
    /// animation on
    pub fn advance(&mut self)
        ensures
            final(self).list@ == advanced_list(old(self).list@),
            final(self).y_offset == if old(self).y_offset != 0 { old(self).y_offset - 1 } else { 0 },
    {
        proof { lemma_first_expired(self.list@); }
        let len = self.list.len();
        let ghost s = self.list@;
        let ghost k = first_expired(s);
        let ghost y0 = self.y_offset;
        let ghost counted = counted_list(s);
        let mut i: usize = 0;
        let mut expired = false;
        while i < len
            invariant_except_break
                len == s.len(),
                0 <= k <= len,
                forall|j: int| 0 <= j < k ==> s[j].counter < COMBO_DISAPPEAR_TIME,
                k < len ==> s[k].counter >= COMBO_DISAPPEAR_TIME,
                0 <= i <= len,
                i <= k,
                self.list@.len() == len,
                forall|j: int| 0 <= j < i ==> self.list@[j] == (ComboData { counter: (s[j].counter + 1) as u32, ..s[j] }),
                forall|j: int| i <= j < len ==> self.list@[j] == s[j],
                !expired,
                self.y_offset == y0,
                k == first_expired(s),
                counted == counted_list(s),
                counted.len() == len,
                forall|j: int| 0 <= j < len ==> counted[j] == (if j < k { ComboData { counter: (s[j].counter + 1) as u32, ..s[j] } } else { s[j] }),
            ensures
                self.y_offset == y0,
                expired ==> self.list@ == advanced_list(s),
                !expired ==> (i == len && k == len),
                !expired ==> forall|j: int| 0 <= j < len ==> self.list@[j] == (ComboData { counter: (s[j].counter + 1) as u32, ..s[j] }),
                !expired ==> self.list@.len() == len,
            decreases len - i,
        {
            let data = self.list[i];
            if data.counter < COMBO_DISAPPEAR_TIME {
                let mut d = self.list.remove(i).unwrap();
                d.counter = d.counter + 1;
                self.list.insert(i, d);
                i = i + 1;
            } else {
                assert(i == k);
                assert forall|j: int| 0 <= j < len implies self.list@[j] == counted[j] by {
                    if j < i {
                        assert(self.list@[j] == (ComboData { counter: (s[j].counter + 1) as u32, ..s[j] }));
                    } else {
                        assert(self.list@[j] == s[j]);
                    }
                }
                assert(self.list@ =~= counted);
                assert(k < s.len());
                let ghost before = self.list@;
                self.list.pop_back();
                expired = true;
                assert(self.list@ == before.subrange(0, before.len() - 1));
                assert(advanced_list(s) == counted.drop_last());
                assert(self.list@ =~= advanced_list(s));
                break;
            }
        }
        if !expired {
            assert(self.list@ =~= counted);
            assert(self.list@ =~= advanced_list(s));
        }
        if self.y_offset != 0 {
            self.y_offset = self.y_offset - 1;
        }
    }
}

} // verus!
