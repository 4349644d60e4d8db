use twisty::camera::{move_axes, CameraAction, CursorState, Mode, MoveAxes, MoveKey};

#[test]
fn default_mode_is_static() {
    assert_eq!(Mode::default(), Mode::Static);
    assert!(!Mode::Static.is_flying());
    assert!(Mode::Flying.is_flying());
}

#[test]
fn switching_modes() {
    assert_eq!(Mode::Static.switch(true), (Mode::Flying, CameraAction::StartFlying));
    assert_eq!(Mode::Flying.switch(true), (Mode::Static, CameraAction::StopFlying));
    assert_eq!(Mode::Static.switch(false), (Mode::Static, CameraAction::Nothing));
    assert_eq!(Mode::Flying.switch(false), (Mode::Flying, CameraAction::Nothing));
    for m in [Mode::Static, Mode::Flying] {
        assert_eq!(m.switch(true).0.switch(true).0, m);
    }
}

#[test]
fn actions_set_the_cursor() {
    assert_eq!(CameraAction::Nothing.cursor(), None);
    assert_eq!(
        CameraAction::StartFlying.cursor(),
        Some(CursorState { visible: false, locked: true })
    );
    assert_eq!(
        CameraAction::StopFlying.cursor(),
        Some(CursorState { visible: true, locked: false })
    );
}

#[test]
fn cursor_toggle() {
    let c = CursorState { visible: false, locked: true };
    assert_eq!(c.toggled(), CursorState { visible: true, locked: false });
    assert_eq!(c.toggled().toggled(), c);
}

#[test]
fn movement_keys() {
    assert_eq!(move_axes(&[]), MoveAxes { up: 0, forward: 0, right: 0 });
    assert_eq!(
        move_axes(&[MoveKey::Forward, MoveKey::Right, MoveKey::Up]),
        MoveAxes { up: 1, forward: 1, right: 1 }
    );
    assert_eq!(
        move_axes(&[MoveKey::Forward, MoveKey::Back, MoveKey::Left]),
        MoveAxes { up: 0, forward: 0, right: -1 }
    );
    assert_eq!(
        move_axes(&[MoveKey::Down, MoveKey::Back, MoveKey::Left, MoveKey::Up, MoveKey::Down]),
        move_axes(&[MoveKey::Down, MoveKey::Left, MoveKey::Down, MoveKey::Back, MoveKey::Up])
    );
}
