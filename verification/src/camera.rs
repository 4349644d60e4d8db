use vstd::prelude::*;

verus! {

/// How the camera is driven: fixed on the puzzle, or flown around freely.
#[derive(Debug, Copy, Clone, PartialEq, Eq, Structural)]
pub enum Mode {
    Static,
    Flying,
}

impl Default for Mode {
    fn default() -> (mode: Self)
        ensures
            mode == Mode::Static,
    {
        Mode::Static
    }
}

/// What the application has to do after the mode-switch key was handled.
#[derive(Debug, Copy, Clone, PartialEq, Eq, Structural)]
pub enum CameraAction {
    /// Nothing changes.
    Nothing,
    /// Hide and lock the cursor, and start looking straight ahead (zero
    /// pitch and yaw).
    StartFlying,
    /// Show and free the cursor, and put the camera back at its static
    /// place, looking at its static target.
    StopFlying,
}

/// The state of the mouse cursor over the window.
#[derive(Debug, Copy, Clone, PartialEq, Eq, Structural)]
pub struct CursorState {
    pub visible: bool,
    pub locked: bool,
}

/// The next mode, and the action to perform, when the mode-switch key was
/// (`switch_pressed`) or was not pressed in `mode`.
pub open spec fn switch_result(mode: Mode, switch_pressed: bool) -> (Mode, CameraAction) {
    if !switch_pressed {
        (mode, CameraAction::Nothing)
    } else {
        match mode {
            Mode::Static => (Mode::Flying, CameraAction::StartFlying),
            Mode::Flying => (Mode::Static, CameraAction::StopFlying),
        }
    }
}

/// The cursor that an action leaves behind, if it sets one.
pub open spec fn action_cursor(action: CameraAction) -> Option<CursorState> {
    match action {
        CameraAction::Nothing => None,
        CameraAction::StartFlying => Some(CursorState { visible: false, locked: true }),
        CameraAction::StopFlying => Some(CursorState { visible: true, locked: false }),
    }
}

impl Mode {
    /// The camera is flown by the user in this mode (the flying systems run).
    pub fn is_flying(&self) -> (flying: bool)
        ensures
            flying == (*self == Mode::Flying),
    {
        match self {
            Mode::Static => false,
            Mode::Flying => true,
        }
    }

    /// Handles the mode-switch key: when pressed, a static camera starts
    /// flying and a flying one goes back to its static place; otherwise
    /// nothing happens.
    pub fn switch(self, switch_pressed: bool) -> (next: (Mode, CameraAction))
        ensures
            next == switch_result(self, switch_pressed),
    {
        if !switch_pressed {
            (self, CameraAction::Nothing)
        } else {
            match self {
                Mode::Static => (Mode::Flying, CameraAction::StartFlying),
                Mode::Flying => (Mode::Static, CameraAction::StopFlying),
            }
        }
    }
}

impl CameraAction {
    /// The state the cursor is put in by this action, if any.
    pub fn cursor(&self) -> (cursor: Option<CursorState>)
        ensures
            cursor == action_cursor(*self),
    {
        match self {
            CameraAction::Nothing => None,
            CameraAction::StartFlying => Some(CursorState { visible: false, locked: true }),
            CameraAction::StopFlying => Some(CursorState { visible: true, locked: false }),
        }
    }
}

impl CursorState {
    /// The cursor after the lock key: visibility and lock both flip.
    pub fn toggled(&self) -> (next: CursorState)
        ensures
            next == toggle(*self),
    {
        CursorState { visible: !self.visible, locked: !self.locked }
    }
}

/// Pressing the mode-switch key twice brings the camera back to the mode it
/// was in, by one start and one stop of flying; when it is not pressed, the
/// mode stays and nothing happens.
pub proof fn lemma_switch_twice(mode: Mode)
    ensures
        switch_result(switch_result(mode, true).0, true).0 == mode,
        switch_result(mode, true).1 != CameraAction::Nothing,
        switch_result(mode, true).1 != switch_result(switch_result(mode, true).0, true).1,
        switch_result(mode, false) == (mode, CameraAction::Nothing),
{
}

/// After the mode-switch key is pressed, the cursor is locked and hidden
/// exactly when the camera is flying.
pub proof fn lemma_switch_sets_cursor(mode: Mode)
    ensures
        ({
            let (next, action) = switch_result(mode, true);
            &&& action_cursor(action) is Some
            &&& action_cursor(action)->0.locked == (next == Mode::Flying)
            &&& action_cursor(action)->0.visible == (next != Mode::Flying)
        }),
{
}

/// The cursor after the lock key: visibility and lock both flip.
pub open spec fn toggle(cursor: CursorState) -> CursorState {
    CursorState { visible: !cursor.visible, locked: !cursor.locked }
}

/// Pressing the cursor lock key twice leaves the cursor as it was.
pub proof fn lemma_toggle_twice(cursor: CursorState)
    ensures
        toggle(toggle(cursor)) == cursor,
{
}

/// The keys that move a flying camera.
#[derive(Debug, Copy, Clone, PartialEq, Eq, Structural)]
pub enum MoveKey {
    /// Space: up, along the world's vertical axis.
    Up,
    /// Left shift: down, along the world's vertical axis.
    Down,
    /// W: ahead, where the camera looks.
    Forward,
    /// S: back, away from where the camera looks.
    Back,
    /// A: to the camera's left.
    Left,
    /// D: to the camera's right.
    Right,
}

/// The movement asked for by the pressed keys, as a number of unit steps
/// along the world's up axis and the camera's forward and right axes.
#[derive(Debug, Copy, Clone, PartialEq, Eq, Structural)]
pub struct MoveAxes {
    pub up: i64,
    pub forward: i64,
    pub right: i64,
}

/// The steps that one key adds along the up, forward and right axes.
pub open spec fn key_steps(key: MoveKey) -> (int, int, int) {
    match key {
        MoveKey::Up => (1, 0, 0),
        MoveKey::Down => (-1, 0, 0),
        MoveKey::Forward => (0, 1, 0),
        MoveKey::Back => (0, -1, 0),
        MoveKey::Left => (0, 0, -1),
        MoveKey::Right => (0, 0, 1),
    }
}

/// The steps of all `keys` added up.
pub open spec fn total_steps(keys: Seq<MoveKey>) -> (int, int, int)
    decreases keys.len(),
{
    if keys.len() == 0 {
        (0, 0, 0)
    } else {
        let rest = total_steps(keys.drop_last());
        let last = key_steps(keys.last());
        (rest.0 + last.0, rest.1 + last.1, rest.2 + last.2)
    }
}

proof fn lemma_total_steps_bounded(keys: Seq<MoveKey>)
    ensures
        -keys.len() <= total_steps(keys).0 <= keys.len(),
        -keys.len() <= total_steps(keys).1 <= keys.len(),
        -keys.len() <= total_steps(keys).2 <= keys.len(),
    decreases keys.len(),
{
    if keys.len() > 0 {
        lemma_total_steps_bounded(keys.drop_last());
    }
}

/// The steps of the pressed keys are the number of presses of each key of an
/// axis less those of the opposite key.
pub proof fn lemma_total_steps_counts(keys: Seq<MoveKey>)
    ensures
        total_steps(keys) == (
            keys.to_multiset().count(MoveKey::Up) as int - keys.to_multiset().count(MoveKey::Down) as int,
            keys.to_multiset().count(MoveKey::Forward) as int - keys.to_multiset().count(MoveKey::Back) as int,
            keys.to_multiset().count(MoveKey::Right) as int - keys.to_multiset().count(MoveKey::Left) as int,
        ),
    decreases keys.len(),
{
    broadcast use vstd::multiset::group_multiset_axioms;

    if keys.len() == 0 {
        keys.to_multiset_ensures();
        assert(!keys.contains(MoveKey::Up) && !keys.contains(MoveKey::Down) && !keys.contains(MoveKey::Forward) && !keys.contains(MoveKey::Back) && !keys.contains(MoveKey::Left) && !keys.contains(MoveKey::Right));
    } else {
        let init = keys.drop_last();
        lemma_total_steps_counts(init);
        vstd::seq_lib::to_multiset_build(init, keys.last());
        assert(init.push(keys.last()) == keys);
    }
}

/// The movement does not depend on the order in which the pressed keys are
/// listed: keys that are the same up to order move the camera alike.
pub proof fn lemma_move_order_free(keys: Seq<MoveKey>, other: Seq<MoveKey>)
    requires
        keys.to_multiset() == other.to_multiset(),
    ensures
        total_steps(keys) == total_steps(other),
{
    lemma_total_steps_counts(keys);
    lemma_total_steps_counts(other);
}

/// Adds up the movement of the pressed keys: opposite keys cancel, and keys
/// that do not move the camera are left out before the call.
pub fn move_axes(keys: &[MoveKey]) -> (axes: MoveAxes)
    requires
        keys@.len() <= i64::MAX,
    ensures
        (axes.up as int, axes.forward as int, axes.right as int) == total_steps(keys@),
{
    let mut up: i64 = 0;
    let mut forward: i64 = 0;
    let mut right: i64 = 0;
    let mut i: usize = 0;
    while i < keys.len()
        invariant
            i <= keys@.len(),
            keys@.len() <= i64::MAX,
            (up as int, forward as int, right as int) == total_steps(keys@.take(i as int)),
        decreases keys@.len() - i,
    {
        proof {
            lemma_total_steps_bounded(keys@.take(i as int));
            assert(keys@.take(i + 1).drop_last() == keys@.take(i as int));
        }
        match keys[i] {
            MoveKey::Up => up = up + 1,
            MoveKey::Down => up = up - 1,
            MoveKey::Forward => forward = forward + 1,
            MoveKey::Back => forward = forward - 1,
            MoveKey::Left => right = right - 1,
            MoveKey::Right => right = right + 1,
        }
        i = i + 1;
    }
    assert(keys@.take(keys@.len() as int) == keys@);
    MoveAxes { up, forward, right }
}

} // verus!
