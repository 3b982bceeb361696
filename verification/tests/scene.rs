use voxel_engine::app::{App, DeviceAction, ModelDraw};
use voxel_engine::camera::{Camera, CameraController, CameraTrig, Projection};
use voxel_engine::chunks::Chunk;
use voxel_engine::command_buffer::NCommandUpdate;
use voxel_engine::frustum::FrustumCuller;
use voxel_engine::input::{InputEvent, KEY_W};
use voxel_engine::math::{Mat4, Vec3, COORD_MAX, FP_ONE};

type Scene = App<Chunk, CameraController>;

fn scene() -> Scene {
    let camera = Camera::new(Vec3::new(0, 0, 0), 0, 0);
    // z_far of 4096 world units
    let projection = Projection::new(800, 600, FP_ONE / 2, FP_ONE / 10, 4096 * FP_ONE);
    App::new(camera, projection)
}

fn chunk_at(id: u128, x: i64, z: i64) -> Chunk {
    let mut c = Chunk::new(id, Vec3::new(x, 0, z));
    c.add_block_data((0, 0, 0), 1);
    c
}

#[test]
fn add_and_find_models() {
    let mut app = scene();
    app.add_model(chunk_at(1, 0, 0)).unwrap();
    app.add_model(chunk_at(2, 1, 0)).unwrap();
    assert_eq!(app.models().len(), 2);
    assert!(app.models().get_model(1).is_some());
    assert!(app.models().get_model(3).is_none());
    // each chunk allocated one pipeline
    assert_eq!(app.pipeline_arena().len(), 2);
    assert!(app.pipeline_arena().is_live(0) && app.pipeline_arena().is_live(1));
}

#[test]
fn removing_an_absent_model_is_a_no_op() {
    let mut app = scene();
    app.add_model(chunk_at(1, 0, 0)).unwrap();
    let actions = app
        .apply_update(NCommandUpdate::<Chunk, CameraController>::RemoveModel(42))
        .unwrap();
    assert!(actions.is_empty());
    assert_eq!(app.models().len(), 1);
    assert!(app.pipeline_arena().is_live(0));
}

#[test]
fn removing_a_model_releases_its_unshared_pipeline() {
    let mut app = scene();
    app.add_model(chunk_at(1, 0, 0)).unwrap();
    app.add_model(chunk_at(2, 1, 0)).unwrap();
    let actions = app
        .apply_update(NCommandUpdate::<Chunk, CameraController>::RemoveModel(1))
        .unwrap();
    assert_eq!(actions[0], DeviceAction::ModelRemoved(1));
    assert!(actions.contains(&DeviceAction::FreePipeline(0)));
    assert_eq!(app.models().len(), 1);
    assert!(!app.pipeline_arena().is_live(0));
    assert!(app.pipeline_arena().is_live(1));
}

#[test]
fn visibility_filters_by_frustum_and_distance() {
    let mut app = scene();
    // one chunk straddling the origin region, one far beyond the far plane
    app.add_model(chunk_at(1, 0, 0)).unwrap();
    app.add_model(chunk_at(2, 1_000_000, 0)).unwrap();

    // a wide orthographic-like view volume: |x|,|y|,|z| <= 8192 world units
    let scale = 8192i64;
    let mut m = Mat4::identity();
    m.ww = scale * FP_ONE;
    let culler = FrustumCuller::from_matrix(&m);

    let vis = app.visible_indices(&culler);
    assert_eq!(vis, vec![0]);
}

#[test]
fn distance_filter_excludes_the_far_boundary() {
    // The visibility condition is strictly "distance squared < far squared":
    // a model exactly at the far plane is excluded.
    let far = 4096 * FP_ONE;
    let cam = Vec3::new(0, 0, 0);
    let at_boundary = Vec3::new(far, 0, 0);
    let just_inside = Vec3::new(far - 1, 0, 0);
    let d_boundary = at_boundary.distance_squared(&cam);
    let d_inside = just_inside.distance_squared(&cam);
    let far2 = far as i128 * far as i128;
    assert!(d_boundary >= far2);
    assert!(d_inside < far2);
}

#[test]
fn render_emits_one_draw_program_per_visible_model() {
    let mut app = scene();
    app.register_model(String::from("cube.obj"));
    app.add_model(chunk_at(1, 0, 0)).unwrap();

    // an all-encompassing view volume
    let mut m = Mat4::identity();
    m.ww = COORD_MAX / 2;
    let draws = app.render(&m).unwrap();
    assert_eq!(draws.len(), 1);
    let ModelDraw { model_index, model_id, calls } = &draws[0];
    assert_eq!((*model_index, *model_id), (0, 1));
    assert_eq!(calls.len(), 3);
}

#[test]
fn update_applies_camera_commands_from_actors() {
    let mut app = scene();
    let controller = CameraController::new(4 * FP_ONE, FP_ONE);
    app.add_actor(controller);

    // motionless input, level orientation: no movement commands take effect
    let trig = CameraTrig::new(0, FP_ONE, 0, FP_ONE);
    let actions = app.update(16, &trig).unwrap();
    assert!(actions.is_empty());
    assert_eq!(app.camera().position(), Vec3::new(0, 0, 0));
}

#[test]
fn move_camera_command_is_clamped_addition() {
    let mut app = scene();
    app.apply_update(NCommandUpdate::<Chunk, CameraController>::MoveCamera(Vec3::new(
        5, -7, 9,
    )))
    .unwrap();
    assert_eq!(app.camera().position(), Vec3::new(5, -7, 9));

    app.apply_update(NCommandUpdate::<Chunk, CameraController>::MoveCamera(Vec3::new(
        i64::MAX,
        0,
        0,
    )))
    .unwrap();
    // the sum saturates at the edge of the world
    assert_eq!(app.camera().position().x, COORD_MAX);
}

#[test]
fn rotate_camera_clamps_pitch() {
    let mut app = scene();
    app.apply_update(NCommandUpdate::<Chunk, CameraController>::RotateCamera(
        100, 10_000_000,
    ))
    .unwrap();
    assert_eq!(app.camera().yaw(), 100);
    assert_eq!(app.camera().pitch(), voxel_engine::camera::PITCH_LIMIT);
}

#[test]
fn update_buffer_command_validates_its_target() {
    let mut app = scene();
    app.add_model(chunk_at(1, 0, 0)).unwrap();
    let ok = app
        .apply_update(NCommandUpdate::<Chunk, CameraController>::UpdateBuffer(1, 0))
        .unwrap();
    assert_eq!(ok, vec![DeviceAction::RefreshBuffer(1, 0)]);
    let missing =
        app.apply_update(NCommandUpdate::<Chunk, CameraController>::UpdateBuffer(9, 0));
    assert!(missing.is_err());
    let bad_index =
        app.apply_update(NCommandUpdate::<Chunk, CameraController>::UpdateBuffer(1, 5));
    assert!(bad_index.is_err());
}

#[test]
fn create_and_remove_actor_by_id() {
    let mut app = scene();
    let controller = CameraController::new(FP_ONE, FP_ONE);
    let id = controller.id();
    app.apply_update(NCommandUpdate::<Chunk, CameraController>::CreateActor(controller))
        .unwrap();
    app.apply_update(NCommandUpdate::<Chunk, CameraController>::RemoveActor(id)).unwrap();
    // removing it again is a no-op
    app.apply_update(NCommandUpdate::<Chunk, CameraController>::RemoveActor(id)).unwrap();
}

#[test]
fn create_model_through_update_command() {
    let mut app = scene();
    let actions = app
        .apply_update(NCommandUpdate::<Chunk, CameraController>::CreateModel(chunk_at(7, 0, 0)))
        .unwrap();
    assert_eq!(actions, vec![DeviceAction::ModelAdded(7)]);
    assert_eq!(app.models().len(), 1);
}

#[test]
fn fov_command_sets_the_field_of_view() {
    let mut app = scene();
    let before_far = app.projection().z_far();
    let before_aspect = app.projection().aspect();
    app.apply_update(NCommandUpdate::<Chunk, CameraController>::FovCamera(123)).unwrap();
    assert_eq!(app.projection().fov_y(), 123);
    assert_eq!(app.projection().z_far(), before_far);
    assert_eq!(app.projection().aspect(), before_aspect);
}

#[test]
fn resize_updates_aspect_only() {
    let mut app = scene();
    let far = app.projection().z_far();
    let fov = app.projection().fov_y();
    app.resize(1920, 1080);
    assert_eq!(app.projection().aspect(), 1920 * FP_ONE / 1080);
    assert_eq!(app.projection().z_far(), far);
    assert_eq!(app.projection().fov_y(), fov);
    // degenerate sizes are ignored
    app.resize(0, 1080);
    assert_eq!(app.projection().aspect(), 1920 * FP_ONE / 1080);
}

#[test]
fn app_forwards_input_events() {
    let mut app = scene();
    app.input(&InputEvent::KeyPressed(KEY_W));
    assert!(app.input_state().is_key_pressed(KEY_W));
    assert!(app.input_state().is_key_just_pressed(KEY_W));
}

#[test]
fn one_frame_of_forward_motion_moves_the_camera_exactly() {
    let mut app = scene();
    app.add_actor(CameraController::new(4 * FP_ONE, FP_ONE));
    app.input(&InputEvent::KeyPressed(KEY_W));

    // facing along +x; 16 ms at speed 4 world units per second
    let trig = CameraTrig::new(0, FP_ONE, 0, FP_ONE);
    app.update(16, &trig).unwrap();

    // dt = 16 ms -> 1048 fixed-point seconds (truncated); speed * dt = 4192
    assert_eq!(app.camera().position(), Vec3::new(4192, 0, 0));
    // the input frame closed: the key is no longer "just pressed"
    assert!(!app.input_state().is_key_just_pressed(KEY_W));
    assert!(app.input_state().is_key_pressed(KEY_W));
}

#[test]
fn model_lookup_finds_the_first_match() {
    // ids are not deduplicated; lookup is pinned to the first entry in
    // registry order
    let mut app = scene();
    app.add_model(chunk_at(5, 0, 0)).unwrap();
    app.add_model(chunk_at(5, 1, 0)).unwrap();
    assert_eq!(app.models().find_model(5), Some(0));
    assert!(app.models().get_model(5).is_some());
}
