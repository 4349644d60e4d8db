use vstd::prelude::*;

verus! {

/// Where the change of the view's angles comes from in a frame.
#[derive(Debug, Copy, Clone, PartialEq, Eq, Structural)]
pub enum ViewInput {
    /// The motion of the first touch.
    Touch,
    /// The mouse motion while the left button is held.
    Mouse,
    /// Nothing: the view stays as it is.
    Nothing,
}

/// Picks the input that turns the view: a touch wins over the mouse, the
/// mouse counts only while its left button is pressed, and with neither the
/// view does not change.
pub fn view_input(touching: bool, left_button_pressed: bool) -> (input: ViewInput)
    ensures
        input == (if touching {
            ViewInput::Touch
        } else if left_button_pressed {
            ViewInput::Mouse
        } else {
            ViewInput::Nothing
        }),
{
    if touching {
        ViewInput::Touch
    } else if left_button_pressed {
        ViewInput::Mouse
    } else {
        ViewInput::Nothing
    }
}

} // verus!
