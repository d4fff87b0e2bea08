use gk4::camera::{free_camera_handover, view_camera, CameraMode};
use gk4::controls::{key_command, Command, ControlState, KeyInput};
use gk4::scene::{normal_map_targets, ResourceAction, ResourceToggle};

fn ch(s: &str) -> KeyInput {
    KeyInput::Character(s.to_string())
}

#[test]
fn keys_map_to_commands() {
    assert_eq!(key_command(&ch("1")), Command::SelectCamera(0));
    assert_eq!(key_command(&ch("5")), Command::SelectCamera(4));
    assert_eq!(key_command(&ch("P")), Command::TogglePhong);
    assert_eq!(key_command(&ch("f")), Command::ToggleFog);
    assert_eq!(key_command(&ch("=")), Command::FogDenser);
    assert_eq!(key_command(&ch("+")), Command::FogDenser);
    assert_eq!(key_command(&ch("-")), Command::FogThinner);
    assert_eq!(key_command(&ch("n")), Command::ToggleDayNightAuto);
    assert_eq!(key_command(&ch("O")), Command::Brighter);
    assert_eq!(key_command(&ch("l")), Command::Darker);
    assert_eq!(key_command(&KeyInput::Escape), Command::Quit);
    assert_eq!(key_command(&KeyInput::Space), Command::ToggleDrive);
    assert_eq!(key_command(&KeyInput::Tab), Command::Nothing);
    assert_eq!(key_command(&ch("6")), Command::Nothing);
    assert_eq!(key_command(&ch("pp")), Command::Nothing);
    assert_eq!(key_command(&ch("")), Command::Nothing);
}

#[test]
fn default_controls() {
    let st = ControlState::new();
    assert_eq!(st.active_camera, 0);
    assert!(st.use_phong && st.fog_enabled && st.day_night_auto && st.show_panel);
    assert!(!st.manual_drive && !st.mouse_look && !st.keys.w && !st.keys.left);
}

#[test]
fn toggle_keys_pressed_twice_restore_state() {
    let start = ControlState::new();
    let mut st = start;
    for k in ["p", "F", "n"] {
        st.handle_key(&ch(k));
        st.handle_key(&ch(k));
    }
    st.handle_key(&KeyInput::Space);
    st.handle_key(&KeyInput::Space);
    assert_eq!(st, start);
    st.handle_key(&ch("p"));
    assert!(!st.use_phong);
}

#[test]
fn camera_keys_select_camera() {
    let mut st = ControlState::new();
    assert_eq!(st.handle_key(&ch("3")), Command::SelectCamera(2));
    assert_eq!(st.active_camera, 2);
    st.handle_key(&ch("5"));
    assert_eq!(st.active_camera, 4);
    st.handle_key(&ch("x"));
    assert_eq!(st.active_camera, 4);
}

#[test]
fn movement_keys_tracked_in_every_mode() {
    let mut st = ControlState::new();
    st.key_event(&ch("w"), true, false);
    assert!(st.keys.w);
    st.key_event(&KeyInput::ArrowLeft, true, false);
    assert!(st.keys.left);
    st.key_event(&ch("w"), false, false);
    assert!(!st.keys.w);
    st.key_event(&KeyInput::Space, true, false);
    assert!(st.manual_drive);
    st.key_event(&ch("W"), true, false);
    assert!(st.keys.w);
    st.key_event(&ch("w"), false, false);
    assert!(!st.keys.w);
    let mut free = ControlState::new();
    free.key_event(&ch("5"), true, false);
    free.key_event(&ch("e"), true, true);
    assert!(free.keys.e);
}

#[test]
fn key_released_after_camera_switch_does_not_stick() {
    let mut st = ControlState::new();
    st.key_event(&ch("5"), true, false);
    st.key_event(&ch("w"), true, false);
    assert!(st.keys.w);
    st.key_event(&ch("1"), true, false);
    assert_eq!(st.active_camera, 0);
    st.key_event(&ch("w"), false, false);
    assert!(!st.keys.w);
    st.key_event(&ch("5"), true, false);
    assert_eq!(st.frame_plan().free_move, Some((0, 0, 0)));
}

#[test]
fn tab_toggles_panel_even_when_panel_takes_keys() {
    let mut st = ControlState::new();
    assert_eq!(st.key_event(&KeyInput::Tab, true, true), Command::Nothing);
    assert!(!st.show_panel);
    st.key_event(&KeyInput::Tab, false, false);
    assert!(!st.show_panel);
    st.key_event(&KeyInput::Tab, true, false);
    assert!(st.show_panel);
}

#[test]
fn consumed_or_released_keys_run_no_command() {
    let mut st = ControlState::new();
    assert_eq!(st.key_event(&ch("p"), true, true), Command::Nothing);
    assert!(st.use_phong);
    assert_eq!(st.key_event(&ch("p"), false, false), Command::Nothing);
    assert!(st.use_phong);
    assert_eq!(st.key_event(&KeyInput::Escape, true, false), Command::Quit);
}

#[test]
fn reversing_mirrors_steering() {
    let mut st = ControlState::new();
    st.manual_drive = true;
    st.keys.s = true;
    st.keys.a = true;
    let plan = st.frame_plan();
    assert!(!plan.animate);
    assert_eq!(plan.drive, Some((-1, -1)));
    assert_eq!(plan.free_move, None);
    st.keys.s = false;
    st.keys.w = true;
    assert_eq!(st.frame_plan().drive, Some((1, 1)));
}

#[test]
fn free_camera_takes_movement_keys() {
    let mut st = ControlState::new();
    st.active_camera = 4;
    st.manual_drive = true;
    st.keys.w = true;
    st.keys.d = true;
    st.keys.q = true;
    let plan = st.frame_plan();
    assert_eq!(plan.drive, None);
    assert!(!plan.animate);
    assert_eq!(plan.free_move, Some((1, 1, -1)));
    assert_eq!(plan.spot_aim, (0, 0));
    st.keys.right = true;
    st.keys.down = true;
    assert_eq!(st.frame_plan().spot_aim, (-1, -1));
}

#[test]
fn arrows_aim_headlights_outside_free_cam() {
    let mut st = ControlState::new();
    st.keys.left = true;
    st.keys.up = true;
    let plan = st.frame_plan();
    assert!(plan.animate);
    assert_eq!(plan.spot_aim, (1, 1));
    assert_eq!(plan.drive, None);
}

#[test]
fn mouse_turns_only_free_camera() {
    let mut st = ControlState::new();
    st.set_mouse_look(true);
    assert!(!st.mouse_turns_camera());
    st.active_camera = 4;
    assert!(st.mouse_turns_camera());
    st.set_mouse_look(false);
    assert!(!st.mouse_turns_camera());
}

#[test]
fn camera_index_selects_view() {
    assert_eq!(view_camera(0), CameraMode::Static);
    assert_eq!(view_camera(2), CameraMode::ThirdPerson);
    assert_eq!(view_camera(4), CameraMode::Free);
    assert_eq!(view_camera(9), CameraMode::Static);
}

#[test]
fn free_camera_takes_over_once() {
    assert_eq!(free_camera_handover(4, 1), Some(CameraMode::Tracking));
    assert_eq!(free_camera_handover(4, 3), Some(CameraMode::FirstPerson));
    assert_eq!(free_camera_handover(4, 4), None);
    assert_eq!(free_camera_handover(2, 4), None);
}

#[test]
fn resources_follow_the_panel() {
    let mut car = ResourceToggle::new();
    assert_eq!(car.sync(), ResourceAction::Keep);
    car.show = true;
    assert_eq!(car.sync(), ResourceAction::Load);
    assert!(car.loaded);
    assert_eq!(car.sync(), ResourceAction::Keep);
    car.show = false;
    assert_eq!(car.sync(), ResourceAction::Unload);
    assert!(!car.loaded);
    assert_eq!(car.sync(), ResourceAction::Keep);
}

#[test]
fn normal_maps_go_to_both_spheres() {
    assert_eq!(normal_map_targets(5), vec![0, 4]);
    assert_eq!(normal_map_targets(3), vec![0]);
    assert_eq!(normal_map_targets(0), Vec::<usize>::new());
}
