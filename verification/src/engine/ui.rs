use vstd::prelude::*;

verus! {

/// all ui items that exist and can be drawn
#[derive(Clone, Copy, PartialEq, Eq, Structural, Debug)]
pub enum UiItem {
    Empty,
    Button,
}

/// the entire state of the ui: the item under the mouse and the item being pressed
pub struct UiContext {
    pub hot: UiItem,
    pub active: UiItem,
}

impl Default for UiContext {
    fn default() -> (r: UiContext)
        ensures
            r.hot == UiItem::Empty,
            r.active == UiItem::Empty,
    {
        UiContext { hot: UiItem::Empty, active: UiItem::Empty }
    }
}

/// the state of the ui after a frame of a button: the active and hot items and wether the
/// button was pressed
pub open spec fn button_step(hot: UiItem, active: UiItem, intersection: bool, left_released: bool, left_pressed: bool) -> (UiItem, UiItem, bool) {
    if intersection {
        if active == UiItem::Button {
            if left_released {
                (UiItem::Button, UiItem::Empty, hot == UiItem::Button)
            } else {
                (UiItem::Button, active, false)
            }
        } else if hot == UiItem::Button && left_pressed {
            (UiItem::Button, UiItem::Button, false)
        } else {
            (UiItem::Button, active, false)
        }
    } else {
        (hot, active, false)
    }
}

/// the hframe a button is drawn with: pressed under the mouse, under the mouse, or not
pub open spec fn button_hframe(intersection: bool, left_down: bool) -> u32 {
    if intersection {
        if left_down {
            4
        } else {
            3
        }
    } else {
        2
    }
}

impl UiContext {
    /// the state logic of a button whose rectangle the mouse does or does not touch: a press
    /// that starts and is released on the button counts; returns wether it was pressed and the
    /// hframe to draw it with
    pub fn draw_button(&mut self, intersection: bool, left_released: bool, left_pressed: bool, left_down: bool) -> (r: (bool, u32))
        ensures
            ({
                let s = button_step(old(self).hot, old(self).active, intersection, left_released, left_pressed);
                &&& final(self).hot == s.0
                &&& final(self).active == s.1
                &&& r.0 == s.2
                &&& r.1 == button_hframe(intersection, left_down)
            }),
    {
        let mut result = false;
        if intersection {
            if self.active == UiItem::Button {
                if left_released {
                    if self.hot == UiItem::Button {
                        result = true;
                    }
                    self.active = UiItem::Empty;
                }
            } else if self.hot == UiItem::Button {
                if left_pressed {
                    self.active = UiItem::Button;
                }
            }
            self.hot = UiItem::Button;
        }
        let hframe = if intersection {
            if left_down {
                4
            } else {
                3
            }
        } else {
            2
        };
        (result, hframe)
    }
}

} // verus!
