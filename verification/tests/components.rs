use engine::components::renderable::Renderable;
use engine::legacy_code::cfg_loader::{GameSettings, Settings, WindowDimensions, WindowSettings};
use engine::legacy_code::free_flight_camera;
use engine::legacy_code::realistic_camera;

#[test]
fn renderable_is_visible_by_default() {
    let r = Renderable::new(1, 2, Some(3));
    assert_eq!((r.mesh, r.shader, r.texture, r.is_visible), (1, 2, Some(3), true));
    let r = r.with_visibility_flag(false);
    assert!(!r.is_visible);
    let mut r = r;
    r.set_visibility(true);
    assert!(r.is_visible);
    assert_eq!(r.mesh, 1);
}

#[test]
fn free_flight_dispatch_sets_one_flag() {
    let mut s = free_flight_camera::CameraState::default();
    s.dispatch_state(free_flight_camera::Action::Sprint, true);
    assert!(s.sprint);
    assert!(!s.move_forward && !s.flipped_gravity);
    s.dispatch_state(free_flight_camera::Action::MoveLeft, true);
    s.dispatch_state(free_flight_camera::Action::Sprint, false);
    assert!(s.move_left && !s.sprint);
    s.dispatch_state(free_flight_camera::Action::FlipGravity, true);
    assert!(s.flipped_gravity);
}

#[test]
fn realistic_dispatch_sets_one_flag() {
    let mut s = realistic_camera::CameraState::default();
    for a in [realistic_camera::Action::MoveForward, realistic_camera::Action::MoveBackwards, realistic_camera::Action::MoveUp, realistic_camera::Action::MoveDown, realistic_camera::Action::MoveRight] {
        s.dispatch_state(a, true);
    }
    assert!(s.move_forward && s.move_backwards && s.move_up && s.move_down && s.move_right);
    assert!(!s.move_left && !s.sprint && !s.flipped_gravity);
    s.dispatch_state(realistic_camera::Action::MoveUp, false);
    assert!(!s.move_up && s.move_down);
}

#[test]
fn settings_hold_their_values() {
    let s = Settings {
        window: WindowSettings {
            title: "Game".to_string(),
            dimensions: WindowDimensions { w: 800, h: 600 },
            theme: "dark".to_string(),
        },
        game: GameSettings {
            default_fs: "a.frag".to_string(),
            default_vs: "a.vert".to_string(),
            model: "m.obj".to_string(),
            texture: "t.png".to_string(),
        },
    };
    assert_eq!(s.window.dimensions.w, 800);
    assert_eq!(s.game.model, "m.obj");
}
