use vstd::prelude::*;
use std::collections::HashMap;

verus! {

broadcast use vstd::std_specs::hash::group_hash_axioms;

/// the tick table a new `KeyHashMap` of player `id` starts with: each of the player's cursor
/// actions (up, down, left, right, swap, raise, with the codes `6 * id` to `6 * id + 5`) at 0
pub open spec fn new_ticks(id: usize) -> Map<u32, i32> {
    Map::new(|k: u32| id * 6 <= k < id * 6 + 6, |k: u32| 0i32)
}

/// the ticks an action has after `KeyHashMap::press` or `KeyHashMap::down`
pub open spec fn pressed_ticks(t: i32, is_down: bool) -> i32 {
    if is_down {
        if t == 0 {
            1
        } else {
            t
        }
    } else {
        0
    }
}

/// a held action counts as pressed once: after a press on a frame it is down, the next frame it
/// is still down does not count again; and after it went up it counts again
pub proof fn lemma_press_once(t: i32)
    requires
        t >= 0,
    ensures
        !(pressed_ticks(pressed_ticks(t, true), true) == 0),
        pressed_ticks(pressed_ticks(t, true), false) == 0,
{
}

/// a table of ticks of inputs: how long each action has been held down, used to tell presses
/// from holds
pub struct KeyHashMap {
    pub key_presses: HashMap<u32, i32>,
}

impl Default for KeyHashMap {
    fn default() -> (r: KeyHashMap)
        ensures
            r.key_presses@ == Map::<u32, i32>::empty(),
    {
        KeyHashMap { key_presses: HashMap::new() }
    }
}

impl KeyHashMap {
    /// a table with the cursor actions of player `id`, none held yet
    pub fn new(id: usize) -> (r: KeyHashMap)
        requires
            id < 2,
        ensures
            r.key_presses@ == new_ticks(id),
    {
        let mut key_presses: HashMap<u32, i32> = HashMap::new();
        let base: u32 = if id == 0 { 0 } else { 6 };
        let mut k: u32 = 0;
        while k < 6
            invariant
                0 <= k <= 6,
                base == id * 6,
                base <= 6,
                key_presses@ == Map::new(|c: u32| base <= c < base + k, |c: u32| 0i32),
            decreases 6 - k,
        {
            key_presses.insert(base + k, 0);
            assert(key_presses@ =~= Map::new(|c: u32| base <= c < base + k + 1, |c: u32| 0i32));
            k = k + 1;
        }
        assert(key_presses@ =~= new_ticks(id));
        KeyHashMap { key_presses }
    }

    /// wether an action counts as held: on the first frame it is down, and every frame after
    /// 16 frames of holding
    pub fn hold(&mut self, is_down: bool, name: u32) -> (r: bool)
        requires
            old(self).key_presses@.contains_key(name),
            is_down ==> old(self).key_presses@[name] < i32::MAX,
        ensures
            ({
                let t = old(self).key_presses@[name];
                &&& final(self).key_presses@ == old(self).key_presses@.insert(name, if is_down { (t + 1) as i32 } else { 0i32 })
                &&& r == (is_down && (t == 0 || t > 16))
            }),
    {
        let ticks = *self.key_presses.get(&name).unwrap();
        if is_down {
            self.key_presses.insert(name, ticks + 1);
            ticks == 0 || ticks > 16
        } else {
            self.key_presses.insert(name, 0);
            false
        }
    }

    /// wether an action was pressed this frame, after not being down
    pub fn press(&mut self, is_down: bool, name: u32) -> (r: bool)
        requires
            old(self).key_presses@.contains_key(name),
        ensures
            ({
                let t = old(self).key_presses@[name];
                &&& final(self).key_presses@ == old(self).key_presses@.insert(name, pressed_ticks(t, is_down))
                &&& r == (is_down && t == 0)
            }),
    {
        let ticks = *self.key_presses.get(&name).unwrap();
        if is_down {
            if ticks == 0 {
                self.key_presses.insert(name, 1);
                return true;
            }
            assert(self.key_presses@ =~= old(self).key_presses@.insert(name, ticks));
            return false;
        }
        self.key_presses.insert(name, 0);
        false
    }

    /// wether an action went down this frame: true on the first frame it is down
    pub fn down(&mut self, is_down: bool, name: u32) -> (r: bool)
        requires
            old(self).key_presses@.contains_key(name),
        ensures
            ({
                let t = old(self).key_presses@[name];
                &&& final(self).key_presses@ == old(self).key_presses@.insert(name, pressed_ticks(t, is_down))
                &&& r == (is_down && (t == 0 || t == 1))
            }),
    {
        let ticks = *self.key_presses.get(&name).unwrap();
        if is_down {
            let mut t = ticks;
            if t == 0 {
                t = 1;
            }
            self.key_presses.insert(name, t);
            return t == 1;
        }
        self.key_presses.insert(name, 0);
        false
    }
}

} // verus!
