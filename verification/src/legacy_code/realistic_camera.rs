use vstd::prelude::*;

verus! {

/// A movement command of the camera, bound to a key.
#[derive(Clone, Copy, PartialEq, Eq, Structural)]
pub enum Action {
    MoveForward,
    MoveBackwards,
    MoveUp,
    MoveDown,
    MoveLeft,
    MoveRight,
    Sprint,
    FlipGravity,
}

/// Which movement commands are held down.
#[derive(Clone, Copy, PartialEq, Eq, Structural)]
pub struct CameraState {
    pub move_forward: bool,
    pub move_backwards: bool,
    pub move_up: bool,
    pub move_down: bool,
    pub move_left: bool,
    pub move_right: bool,
    pub flipped_gravity: bool,
    pub sprint: bool,
}

/// Whether `action` is held down in `s`.
pub open spec fn action_flag(s: CameraState, action: Action) -> bool {
    match action {
        Action::MoveForward => s.move_forward,
        Action::MoveBackwards => s.move_backwards,
        Action::MoveUp => s.move_up,
        Action::MoveDown => s.move_down,
        Action::MoveLeft => s.move_left,
        Action::MoveRight => s.move_right,
        Action::FlipGravity => s.flipped_gravity,
        Action::Sprint => s.sprint,
    }
}

/// Each movement command reads the flag of its own key: forward the
/// forward key, backwards the backwards key, and so on.
pub proof fn law_action_reads_its_own_key(s: CameraState)
    ensures
        action_flag(s, Action::MoveForward) == s.move_forward,
        action_flag(s, Action::MoveBackwards) == s.move_backwards,
        action_flag(s, Action::MoveUp) == s.move_up,
        action_flag(s, Action::MoveDown) == s.move_down,
        action_flag(s, Action::MoveLeft) == s.move_left,
        action_flag(s, Action::MoveRight) == s.move_right,
        action_flag(s, Action::FlipGravity) == s.flipped_gravity,
        action_flag(s, Action::Sprint) == s.sprint,
{
}

impl Default for CameraState {
    /// Nothing held down.
    fn default() -> (r: Self)
        ensures
            forall|a: Action| !action_flag(r, a),
    {
        CameraState {
            move_forward: false,
            move_backwards: false,
            move_up: false,
            move_down: false,
            move_left: false,
            move_right: false,
            flipped_gravity: false,
            sprint: false,
        }
    }
}

impl CameraState {
    /// Records that `action` is now held down (`state` true) or released.
    pub fn dispatch_state(&mut self, action: Action, state: bool)
        ensures
            action_flag(*final(self), action) == state,
            forall|a: Action| a != action ==> action_flag(*final(self), a) == action_flag(*old(self), a),
            final(self).move_forward == if action == Action::MoveForward { state } else { old(self).move_forward },
            final(self).move_backwards == if action == Action::MoveBackwards { state } else { old(self).move_backwards },
            final(self).move_up == if action == Action::MoveUp { state } else { old(self).move_up },
            final(self).move_down == if action == Action::MoveDown { state } else { old(self).move_down },
            final(self).move_left == if action == Action::MoveLeft { state } else { old(self).move_left },
            final(self).move_right == if action == Action::MoveRight { state } else { old(self).move_right },
            final(self).flipped_gravity == if action == Action::FlipGravity { state } else { old(self).flipped_gravity },
            final(self).sprint == if action == Action::Sprint { state } else { old(self).sprint },
    {
        match action {
            Action::MoveForward => self.move_forward = state,
            Action::MoveBackwards => self.move_backwards = state,
            Action::MoveUp => self.move_up = state,
            Action::MoveDown => self.move_down = state,
            Action::MoveRight => self.move_right = state,
            Action::MoveLeft => self.move_left = state,
            Action::Sprint => self.sprint = state,
            Action::FlipGravity => self.flipped_gravity = state,
        }
    }
}

} // verus!
