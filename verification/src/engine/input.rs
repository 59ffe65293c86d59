use vstd::prelude::*;
use std::collections::HashMap;
use vstd::std_specs::iter::IteratorSpec;

verus! {

broadcast use vstd::std_specs::hash::group_hash_axioms;

/// key codes the game asks for; the application maps its keyboard keys onto them
pub const KEY_LEFT: u32 = 0;
pub const KEY_RIGHT: u32 = 1;
pub const KEY_UP: u32 = 2;
pub const KEY_DOWN: u32 = 3;
pub const KEY_S: u32 = 4;
pub const KEY_A: u32 = 5;
pub const KEY_ESCAPE: u32 = 6;
pub const KEY_TAB: u32 = 7;
pub const KEY_ENTER: u32 = 8;
pub const KEY_SPACE: u32 = 9;
pub const KEY_LEFT_SHIFT: u32 = 10;

/// gamepad button codes the game asks for; the application maps its gamepad buttons onto them
pub const BUTTON_DPAD_LEFT: u32 = 0;
pub const BUTTON_DPAD_RIGHT: u32 = 1;
pub const BUTTON_DPAD_UP: u32 = 2;
pub const BUTTON_DPAD_DOWN: u32 = 3;
pub const BUTTON_SOUTH: u32 = 4;
pub const BUTTON_EAST: u32 = 5;
pub const BUTTON_NORTH: u32 = 6;
pub const BUTTON_WEST: u32 = 7;
pub const BUTTON_SELECT: u32 = 8;
pub const BUTTON_START: u32 = 9;
pub const BUTTON_LEFT_TRIGGER: u32 = 10;
pub const BUTTON_RIGHT_TRIGGER: u32 = 11;

/// mouse that holds all info of the click states
#[derive(Clone, Copy, PartialEq, Eq, Structural, Debug)]
pub struct Mouse {
    pub left_down: bool,
    pub left_pressed: bool,
    pub left_released: bool,
    pub last_left_down: bool,
    pub right_down: bool,
    pub right_pressed: bool,
    pub right_released: bool,
    pub last_right_down: bool,
}

/// mouse buttons the game tells apart
#[derive(Clone, Copy, PartialEq, Eq, Structural, Debug)]
pub enum MouseButton {
    Left,
    Right,
    Other,
}

/// the mouse after a frame: a button is pressed in the frame it went down
pub open spec fn mouse_frame(m: Mouse) -> Mouse {
    Mouse {
        left_pressed: m.left_down && !m.last_left_down,
        last_left_down: m.left_down,
        right_pressed: m.right_down && !m.last_right_down,
        last_right_down: m.right_down,
        ..m
    }
}

impl Default for Mouse {
    fn default() -> (r: Mouse)
        ensures
            r == (Mouse {
                left_down: false,
                left_pressed: false,
                left_released: false,
                last_left_down: false,
                right_down: false,
                right_pressed: false,
                right_released: false,
                last_right_down: false,
            }),
    {
        Mouse {
            left_down: false,
            left_pressed: false,
            left_released: false,
            last_left_down: false,
            right_down: false,
            right_pressed: false,
            right_released: false,
            last_right_down: false,
        }
    }
}

impl Mouse {
    /// updates the mouse each frame for presses based on old events
    pub fn update_frame(&mut self)
        ensures
            *final(self) == mouse_frame(*old(self)),
    {
        self.left_pressed = if self.left_down {
            !self.last_left_down
        } else {
            false
        };
        self.last_left_down = self.left_down;
        self.right_pressed = if self.right_down {
            !self.last_right_down
        } else {
            false
        };
        self.last_right_down = self.right_down;
    }

    /// on a mouse event sets down / released of the button
    pub fn update_event(&mut self, pressed: bool, button: MouseButton)
        ensures
            *final(self) == (match button {
                MouseButton::Left => Mouse { left_down: pressed, left_released: !pressed, ..*old(self) },
                MouseButton::Right => Mouse { right_down: pressed, right_released: !pressed, ..*old(self) },
                MouseButton::Other => *old(self),
            }),
    {
        match button {
            MouseButton::Left => {
                self.left_down = pressed;
                self.left_released = !pressed;
            },
            MouseButton::Right => {
                self.right_down = pressed;
                self.right_released = !pressed;
            },
            MouseButton::Other => {},
        }
    }
}

/// frames a key has been held down for, 0 if it is up or was never seen
pub open spec fn frames_of(m: Map<u32, u32>, code: u32) -> u32 {
    if m.contains_key(code) {
        m[code]
    } else {
        0
    }
}

/// the frame table after a key went down: a key that was up starts at frame 1
pub open spec fn pressed_table(m: Map<u32, u32>, code: u32) -> Map<u32, u32> {
    if frames_of(m, code) != 0 {
        m
    } else {
        m.insert(code, 1)
    }
}

/// the frame table after a key went up
pub open spec fn released_table(m: Map<u32, u32>, code: u32) -> Map<u32, u32> {
    if m.contains_key(code) {
        m.insert(code, 0)
    } else {
        m
    }
}

/// the frame table after a frame ended: every held key counts one frame more
pub open spec fn advanced_table(m: Map<u32, u32>) -> Map<u32, u32> {
    Map::new(|k: u32| m.contains_key(k), |k: u32| if m[k] != 0 { (m[k] + 1) as u32 } else { 0 })
}

/// no counter of the table is at its maximum
pub open spec fn table_has_room(m: Map<u32, u32>) -> bool {
    forall|k: u32| m.contains_key(k) ==> m[k] < u32::MAX
}

/// the larger of two optional frame counts
pub open spec fn max_frames(a: Option<u32>, b: Option<u32>) -> Option<u32> {
    match (a, b) {
        (Some(x), Some(y)) => Some(if x >= y { x } else { y }),
        (Some(x), None) => Some(x),
        (None, Some(y)) => Some(y),
        (None, None) => None,
    }
}

/// frames held as an option: `None` while up
pub open spec fn down_frames(m: Map<u32, u32>, code: u32) -> Option<u32> {
    if frames_of(m, code) != 0 {
        Some(frames_of(m, code))
    } else {
        None
    }
}

/// a key that goes down counts as pressed on its first frame and as held, but no longer as
/// pressed, once the frame ended; a key that goes up is neither
pub proof fn lemma_press_then_hold(m: Map<u32, u32>, code: u32)
    requires
        frames_of(m, code) == 0,
    ensures
        frames_of(pressed_table(m, code), code) == 1,
        frames_of(advanced_table(pressed_table(m, code)), code) == 2,
        frames_of(released_table(pressed_table(m, code), code), code) == 0,
        frames_of(released_table(advanced_table(pressed_table(m, code)), code), code) == 0,
{
}

/// a key held down counts one frame more each frame, and going down again while held changes
/// nothing
pub proof fn lemma_hold_counts(m: Map<u32, u32>, code: u32)
    requires
        frames_of(m, code) != 0,
        table_has_room(m),
    ensures
        frames_of(advanced_table(m), code) == frames_of(m, code) + 1,
        pressed_table(m, code) == m,
{
}

/// input state: keys and gamepad buttons with the frames they have been held for, and the mouse
pub struct Input {
    /// data storage for each key that was pressed with the frame time
    pub key_downs: HashMap<u32, u32>,
    /// data storage for each button that was pressed with the frame time
    pub button_downs: HashMap<u32, u32>,
    /// mouse handle which holds left / right button info
    pub mouse: Mouse,
}

fn frames_lookup(m: &HashMap<u32, u32>, code: u32) -> (r: u32)
    ensures
        r == frames_of(m@, code),
{
    match m.get(&code) {
        Some(v) => *v,
        None => 0,
    }
}

fn press_in(m: &mut HashMap<u32, u32>, code: u32)
    ensures
        final(m)@ == pressed_table(old(m)@, code),
{
    if frames_lookup(m, code) == 0 {
        m.insert(code, 1);
    }
}

fn release_in(m: &mut HashMap<u32, u32>, code: u32)
    ensures
        final(m)@ == released_table(old(m)@, code),
{
    if m.contains_key(&code) {
        m.insert(code, 0);
    }
}

fn advance_table(m: &HashMap<u32, u32>) -> (r: HashMap<u32, u32>)
    requires
        table_has_room(m@),
    ensures
        r@ == advanced_table(m@),
{
    let mut r: HashMap<u32, u32> = HashMap::new();
    let ghost pairs = m.iter().remaining();
    for entry in it: m.iter()
        invariant
            table_has_room(m@),
            pairs == it.seq(),
            forall|i: int| 0 <= i < pairs.len() ==> m@.contains_key(*pairs[i].0) && m@[*pairs[i].0] == *pairs[i].1,
            forall|k: u32| #[trigger] m@.contains_key(k) ==> pairs.contains((&k, &m@[k])),
            forall|k: u32| #[trigger] r@.contains_key(k) ==> m@.contains_key(k) && r@[k] == advanced_table(m@)[k],
            forall|i: int| 0 <= i < it.index() ==> r@.contains_key(*pairs[i].0),
    {
        let (k, v) = entry;
        let nv: u32 = if *v != 0 { *v + 1 } else { 0 };
        r.insert(*k, nv);
    }
    assert forall|k: u32| m@.contains_key(k) implies r@.contains_key(k) by {
        assert(pairs.contains((&k, &m@[k])));
        let i = choose|i: int| 0 <= i < pairs.len() && pairs[i] == (&k, &m@[k]);
        assert(r@.contains_key(*pairs[i].0));
    }
    assert(r@ =~= advanced_table(m@));
    r
}

impl Default for Input {
    fn default() -> (r: Input)
        ensures
            r.key_downs@ == Map::<u32, u32>::empty(),
            r.button_downs@ == Map::<u32, u32>::empty(),
            !r.mouse.left_down && !r.mouse.right_down,
            !r.mouse.left_pressed && !r.mouse.right_pressed,
            !r.mouse.left_released && !r.mouse.right_released,
            !r.mouse.last_left_down && !r.mouse.last_right_down,
    {
        Input { key_downs: HashMap::new(), button_downs: HashMap::new(), mouse: Mouse::default() }
    }
}

impl Input {
    /// a key went down
    pub fn down_event(&mut self, code: u32)
        ensures
            final(self).key_downs@ == pressed_table(old(self).key_downs@, code),
            final(self).button_downs@ == old(self).button_downs@,
            final(self).mouse == old(self).mouse,
    {
        press_in(&mut self.key_downs, code);
    }

    /// a key went up
    pub fn up_event(&mut self, code: u32)
        ensures
            final(self).key_downs@ == released_table(old(self).key_downs@, code),
            final(self).button_downs@ == old(self).button_downs@,
            final(self).mouse == old(self).mouse,
    {
        release_in(&mut self.key_downs, code);
    }

    /// a gamepad button went down
    pub fn button_down_event(&mut self, code: u32)
        ensures
            final(self).button_downs@ == pressed_table(old(self).button_downs@, code),
            final(self).key_downs@ == old(self).key_downs@,
            final(self).mouse == old(self).mouse,
    {
        press_in(&mut self.button_downs, code);
    }

    /// a gamepad button went up
    pub fn button_up_event(&mut self, code: u32)
        ensures
            final(self).button_downs@ == released_table(old(self).button_downs@, code),
            final(self).key_downs@ == old(self).key_downs@,
            final(self).mouse == old(self).mouse,
    {
        release_in(&mut self.button_downs, code);
    }

    /// returns true if a key is held down
    pub fn key_down(&self, code: u32) -> (r: bool)
        ensures
            r == (frames_of(self.key_downs@, code) != 0),
    {
        frames_lookup(&self.key_downs, code) != 0
    }

    /// returns the amount of frames a key has been down for
    pub fn key_down_frames(&self, code: u32) -> (r: Option<u32>)
        ensures
            r == down_frames(self.key_downs@, code),
    {
        let v = frames_lookup(&self.key_downs, code);
        if v != 0 {
            Some(v)
        } else {
            None
        }
    }

    /// returns true if a key is pressed for a single frame
    pub fn key_pressed(&self, code: u32) -> (r: bool)
        ensures
            r == (frames_of(self.key_downs@, code) == 1),
    {
        frames_lookup(&self.key_downs, code) == 1
    }

    /// returns true if a button is held down
    pub fn button_down(&self, code: u32) -> (r: bool)
        ensures
            r == (frames_of(self.button_downs@, code) != 0),
    {
        frames_lookup(&self.button_downs, code) != 0
    }

    /// returns the amount of frames a button has been down for
    pub fn button_down_frames(&self, code: u32) -> (r: Option<u32>)
        ensures
            r == down_frames(self.button_downs@, code),
    {
        let v = frames_lookup(&self.button_downs, code);
        if v != 0 {
            Some(v)
        } else {
            None
        }
    }

    /// returns true if a button is pressed for a single frame
    pub fn button_pressed(&self, code: u32) -> (r: bool)
        ensures
            r == (frames_of(self.button_downs@, code) == 1),
    {
        frames_lookup(&self.button_downs, code) == 1
    }

    /// returns true if a button or a key is held down
    pub fn kb_down(&self, code: u32, button: u32) -> (r: bool)
        ensures
            r == (frames_of(self.key_downs@, code) != 0 || frames_of(self.button_downs@, button) != 0),
    {
        self.key_down(code) || self.button_down(button)
    }

    /// returns the amount of frames a button or a key has been down for, the larger one
    pub fn kb_down_frames(&self, code: u32, button: u32) -> (r: Option<u32>)
        ensures
            r == max_frames(down_frames(self.key_downs@, code), down_frames(self.button_downs@, button)),
    {
        let mut result = None;
        if let Some(frames) = self.key_down_frames(code) {
            result = Some(frames);
        }
        if let Some(frames) = self.button_down_frames(button) {
            if let Some(old_frames) = result {
                result = Some(if old_frames >= frames { old_frames } else { frames });
            } else {
                result = Some(frames);
            }
        }
        result
    }

    /// returns true if a button or a key is pressed for a single frame
    pub fn kb_pressed(&self, code: u32, button: u32) -> (r: bool)
        ensures
            r == (frames_of(self.key_downs@, code) == 1 || frames_of(self.button_downs@, button) == 1),
    {
        self.key_pressed(code) || self.button_pressed(button)
    }

    /// ends a frame: all held keys and buttons count one frame more, mouse presses are updated
    pub fn update_end(&mut self)
        requires
            table_has_room(old(self).key_downs@),
            table_has_room(old(self).button_downs@),
        ensures
            final(self).key_downs@ == advanced_table(old(self).key_downs@),
            final(self).button_downs@ == advanced_table(old(self).button_downs@),
            final(self).mouse == mouse_frame(old(self).mouse),
    {
        self.key_downs = advance_table(&self.key_downs);
        self.button_downs = advance_table(&self.button_downs);
        self.mouse.update_frame();
    }
}

} // verus!
