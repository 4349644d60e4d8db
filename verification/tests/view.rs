use twisty::view::{view_input, ViewInput};

#[test]
fn touch_wins_over_mouse() {
    assert_eq!(view_input(true, true), ViewInput::Touch);
    assert_eq!(view_input(true, false), ViewInput::Touch);
    assert_eq!(view_input(false, true), ViewInput::Mouse);
    assert_eq!(view_input(false, false), ViewInput::Nothing);
}
