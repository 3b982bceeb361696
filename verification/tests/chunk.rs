use voxel_engine::chunks::{Chunk, CHUNK_EDGE};
use voxel_engine::command_buffer::{NCommandRender, NCommandSetup, BUFFER_USAGE_VERTEX};
use voxel_engine::math::{Vec3, FP_ONE};

#[test]
fn new_chunk_is_empty_and_boxed() {
    let c = Chunk::new(1, Vec3::new(2, 0, -3));
    let aabb = c.aabb();
    assert_eq!(aabb.min.x, 2 * CHUNK_EDGE * FP_ONE);
    assert_eq!(aabb.min.y, 0);
    assert_eq!(aabb.min.z, -3 * CHUNK_EDGE * FP_ONE);
    assert_eq!(aabb.max.x, aabb.min.x + CHUNK_EDGE * FP_ONE);
    assert_eq!(aabb.max.y, CHUNK_EDGE * FP_ONE);
    assert_eq!(aabb.max.z, aabb.min.z + CHUNK_EDGE * FP_ONE);
    assert!(!c.exists_block((0, 0, 0)));
}

#[test]
fn origin_chunk_single_block_setup_and_render() {
    // A chunk at the origin with one block at local (1, 2, 3), id 7, must
    // produce exactly one instance at world (1, 2, 3) with id 7, and a
    // draw of one instance.
    let mut c = Chunk::new(9, Vec3::new(0, 0, 0));
    c.add_block_data((1, 2, 3), 7);

    let setup = c.setup().iter_command();
    assert_eq!(setup.len(), 2);
    match &setup[0] {
        NCommandSetup::CreateBuffer(data, usage) => {
            assert_eq!(*usage, BUFFER_USAGE_VERTEX);
            // one instance, 20 bytes: x=1, y=2, z=3, w=1, id=7, little endian
            assert_eq!(
                data.as_slice(),
                &[
                    1, 0, 0, 0, //
                    2, 0, 0, 0, //
                    3, 0, 0, 0, //
                    1, 0, 0, 0, //
                    7, 0, 0, 0,
                ]
            );
        }
        _ => panic!("first setup command must create the instance buffer"),
    }
    match &setup[1] {
        NCommandSetup::CreatePipeline(bind_groups, shader, layouts, use_model) => {
            assert!(bind_groups.is_empty());
            assert_eq!(*shader, "chunk_instance");
            assert_eq!(layouts.len(), 1);
            assert_eq!(layouts[0].array_stride, 20);
            assert!(*use_model);
        }
        _ => panic!("second setup command must create the pipeline"),
    }

    let render = c.render().iter_command();
    assert_eq!(render.len(), 3);
    assert!(matches!(render[0], NCommandRender::SetPipeline(0)));
    assert!(matches!(render[1], NCommandRender::SetVertexBuffer(1, 0)));
    match &render[2] {
        NCommandRender::DrawModelIndexed(mesh, instances, extra) => {
            assert_eq!(*mesh, 0);
            assert_eq!(*instances, 1);
            assert!(extra.is_empty());
        }
        _ => panic!("third render command must draw the mesh"),
    }
}

#[test]
fn offset_chunk_block_world_position() {
    // World position of a block is origin * edge + local coordinate.
    let mut c = Chunk::new(4, Vec3::new(1, 0, -1));
    c.add_block_data((2, 0, 5), 3);
    let setup = c.setup().iter_command();
    match &setup[0] {
        NCommandSetup::CreateBuffer(data, _) => {
            // x = 16 + 2 = 18, y = 0, z = -16 + 5 = -11 (two's complement), w = 1, id = 3
            let x = i32::from_le_bytes([data[0], data[1], data[2], data[3]]);
            let y = i32::from_le_bytes([data[4], data[5], data[6], data[7]]);
            let z = i32::from_le_bytes([data[8], data[9], data[10], data[11]]);
            let w = i32::from_le_bytes([data[12], data[13], data[14], data[15]]);
            let id = u32::from_le_bytes([data[16], data[17], data[18], data[19]]);
            assert_eq!((x, y, z, w, id), (18, 0, -11, 1, 3));
        }
        _ => panic!("missing instance buffer"),
    }
}

#[test]
fn empty_chunk_still_emits_full_render_program() {
    // Zero blocks draws zero instances; interpretation is not skipped.
    let c = Chunk::new(2, Vec3::new(0, 0, 0));
    let render = c.render().iter_command();
    assert_eq!(render.len(), 3);
    match &render[2] {
        NCommandRender::DrawModelIndexed(_, instances, _) => assert_eq!(*instances, 0),
        _ => panic!("draw command missing"),
    }
}

#[test]
fn exists_and_remove_block() {
    let mut c = Chunk::new(5, Vec3::new(0, 0, 0));
    c.add_block_data((1, 1, 1), 10);
    c.add_block_data((2, 2, 2), 20);
    assert!(c.exists_block((1, 1, 1)));
    assert!(c.exists_block((2, 2, 2)));
    assert!(!c.exists_block((3, 3, 3)));

    c.remove_block((1, 1, 1));
    assert!(!c.exists_block((1, 1, 1)));
    assert!(c.exists_block((2, 2, 2)));

    // removing an absent position is a no-op
    c.remove_block((9, 9, 9));
    assert!(c.exists_block((2, 2, 2)));
}

#[test]
fn remove_block_removes_its_instance_too() {
    let mut c = Chunk::new(6, Vec3::new(0, 0, 0));
    c.add_block_data((0, 0, 1), 1);
    c.add_block_data((0, 0, 2), 2);
    c.add_block_data((0, 0, 3), 3);
    c.remove_block((0, 0, 2));

    let render = c.render().iter_command();
    match &render[2] {
        NCommandRender::DrawModelIndexed(_, instances, _) => assert_eq!(*instances, 2),
        _ => panic!("draw command missing"),
    }
    let setup = c.setup().iter_command();
    match &setup[0] {
        NCommandSetup::CreateBuffer(data, _) => {
            assert_eq!(data.len(), 2 * 20);
            // swap-remove moved the last block into the freed slot
            let z0 = i32::from_le_bytes([data[8], data[9], data[10], data[11]]);
            let z1 = i32::from_le_bytes([data[28], data[29], data[30], data[31]]);
            assert_eq!((z0, z1), (1, 3));
        }
        _ => panic!("missing instance buffer"),
    }
}
