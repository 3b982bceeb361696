use voxel_engine::camera::{
    dt_fp, Camera, CameraController, CameraTrig, PITCH_LIMIT,
};
use voxel_engine::command_buffer::NCommandUpdate;
use voxel_engine::chunks::Chunk;
use voxel_engine::input::{InputEvent, InputState, KEY_S, KEY_W};
use voxel_engine::math::{clamped_add, fp_mul, Vec3, COORD_MAX, FP_ONE};

#[test]
fn key_press_release_cycle() {
    let mut input = InputState::new();
    input.input(&InputEvent::KeyPressed(KEY_W));
    assert!(input.is_key_pressed(KEY_W));
    assert!(input.is_key_just_pressed(KEY_W));
    assert!(!input.is_key_just_released(KEY_W));

    // after the frame closes the key is still down but no longer "just"
    input.update();
    assert!(input.is_key_pressed(KEY_W));
    assert!(!input.is_key_just_pressed(KEY_W));

    input.input(&InputEvent::KeyReleased(KEY_W));
    assert!(!input.is_key_pressed(KEY_W));
    assert!(input.is_key_just_released(KEY_W));

    input.update();
    assert!(!input.is_key_just_released(KEY_W));
}

#[test]
fn pressing_a_held_key_again_changes_nothing() {
    let mut input = InputState::new();
    input.input(&InputEvent::KeyPressed(KEY_W));
    input.update();
    input.input(&InputEvent::KeyPressed(KEY_W));
    // the key was already held, so it is not "just pressed" again
    assert!(!input.is_key_just_pressed(KEY_W));
}

#[test]
fn mouse_delta_averages_over_samples() {
    let mut input = InputState::new();
    input.input(&InputEvent::CursorMoved(10, 20));
    assert_eq!(input.mouse_delta(), (10, 20));
    input.input(&InputEvent::CursorMoved(30, 10));
    // the delta is replaced by the last step and divided by the sample count
    assert_eq!(input.mouse_delta(), (10, -5));
    input.update();
    assert_eq!(input.mouse_delta(), (0, 0));
}

#[test]
fn mouse_wheel_replaces_scroll() {
    let mut input = InputState::new();
    input.input(&InputEvent::MouseWheel(100 * FP_ONE));
    assert_eq!(input.mouse_scroll(), 100 * FP_ONE);
    input.update();
    assert_eq!(input.mouse_scroll(), 0);
}

#[test]
fn camera_motion_saturates() {
    let mut camera = Camera::new(Vec3::new(0, 0, 0), 0, 0);
    camera.move_position(Vec3::new(7, 0, -7));
    assert_eq!(camera.position(), Vec3::new(7, 0, -7));
    camera.move_position(Vec3::new(i64::MAX, 0, i64::MIN));
    assert_eq!(camera.position().x, COORD_MAX);
    assert_eq!(camera.position().z, -COORD_MAX);
}

#[test]
fn camera_pitch_clamps_both_ways() {
    let mut camera = Camera::new(Vec3::new(0, 0, 0), 0, 0);
    camera.add_pitch(i64::MAX);
    assert_eq!(camera.pitch(), PITCH_LIMIT);
    camera.add_pitch(i64::MIN);
    assert_eq!(camera.pitch(), -PITCH_LIMIT);
    camera.add_pitch(PITCH_LIMIT + 100);
    assert_eq!(camera.pitch(), 100);
}

#[test]
fn fixed_point_multiply_matches_arithmetic() {
    // 1.5 * 2.0 == 3.0 in fixed point
    assert_eq!(fp_mul(3 * FP_ONE / 2, 2 * FP_ONE), 3 * FP_ONE);
    // signs
    assert_eq!(fp_mul(-2 * FP_ONE, 3 * FP_ONE), -6 * FP_ONE);
    assert_eq!(fp_mul(-2 * FP_ONE, -2 * FP_ONE), 4 * FP_ONE);
    // saturation
    assert_eq!(fp_mul(i64::MAX, i64::MAX), COORD_MAX);
    assert_eq!(fp_mul(i64::MAX, i64::MIN), -COORD_MAX);
    // truncation toward zero
    assert_eq!(fp_mul(1, 1), 0);
    assert_eq!(clamped_add(COORD_MAX, 1), COORD_MAX);
}

#[test]
fn frame_time_conversion() {
    assert_eq!(dt_fp(1000), FP_ONE);
    assert_eq!(dt_fp(500), FP_ONE / 2);
    assert_eq!(dt_fp(0), 0);
    assert_eq!(dt_fp(u64::MAX), COORD_MAX);
}

#[test]
fn controller_emits_forward_motion_for_w() {
    // Facing along +x (yaw sine 0, cosine 1), a full second at speed 4
    // moves the camera 4 world units forward.
    let mut input = InputState::new();
    input.input(&InputEvent::KeyPressed(KEY_W));
    let mut controller = CameraController::new(4 * FP_ONE, FP_ONE);
    let trig = CameraTrig::new(0, FP_ONE, 0, FP_ONE);
    let cmds = controller
        .update_commands::<Chunk>(1000, &input, &trig)
        .iter_command();
    assert_eq!(cmds.len(), 2);
    match &cmds[0] {
        NCommandUpdate::MoveCamera(offset) => {
            assert_eq!(*offset, Vec3::new(4 * FP_ONE, 0, 0));
        }
        _ => panic!("first command must move the camera"),
    }
    match &cmds[1] {
        NCommandUpdate::RotateCamera(dyaw, dpitch) => {
            assert_eq!((*dyaw, *dpitch), (0, 0));
        }
        _ => panic!("second command must rotate the camera"),
    }
}

#[test]
fn controller_opposing_keys_cancel() {
    let mut input = InputState::new();
    input.input(&InputEvent::KeyPressed(KEY_W));
    input.input(&InputEvent::KeyPressed(KEY_S));
    let mut controller = CameraController::new(4 * FP_ONE, FP_ONE);
    let trig = CameraTrig::new(0, FP_ONE, 0, FP_ONE);
    let cmds = controller
        .update_commands::<Chunk>(1000, &input, &trig)
        .iter_command();
    match &cmds[0] {
        NCommandUpdate::MoveCamera(offset) => assert_eq!(*offset, Vec3::new(0, 0, 0)),
        _ => panic!("first command must move the camera"),
    }
}

#[test]
fn controller_turns_mouse_motion_into_rotation() {
    let mut input = InputState::new();
    input.input(&InputEvent::CursorMoved(3 * FP_ONE, -2 * FP_ONE));
    let mut controller = CameraController::new(FP_ONE, FP_ONE);
    let trig = CameraTrig::new(0, FP_ONE, 0, FP_ONE);
    let cmds = controller
        .update_commands::<Chunk>(1000, &input, &trig)
        .iter_command();
    match &cmds[1] {
        NCommandUpdate::RotateCamera(dyaw, dpitch) => {
            // dyaw = dx * sensitivity * dt; dpitch is inverted
            assert_eq!((*dyaw, *dpitch), (3 * FP_ONE, 2 * FP_ONE));
        }
        _ => panic!("second command must rotate the camera"),
    }
}
