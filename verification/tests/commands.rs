use voxel_engine::app::{
    apply_setup_command, interpret_render, CommandError, DrawCall, ModelState, NModel,
    PipelineArena,
};
use voxel_engine::chunks::Chunk;
use voxel_engine::command_buffer::{
    CommandBuffer, IndexFormat, NCommandRender, NCommandSetup, NResource, BUFFER_USAGE_UNIFORM,
};
use voxel_engine::math::Vec3;

fn fresh_model(id: u128) -> NModel<Chunk> {
    NModel::new(Chunk::new(id, Vec3::new(0, 0, 0)))
}

#[test]
fn command_buffer_keeps_order() {
    let mut buffer: CommandBuffer<NCommandRender> = CommandBuffer::new();
    buffer.push(NCommandRender::SetPipeline(4));
    buffer.push(NCommandRender::DrawIndexed(6, 2));
    let cmds = buffer.iter_command();
    assert_eq!(cmds.len(), 2);
    assert!(matches!(cmds[0], NCommandRender::SetPipeline(4)));
    assert!(matches!(cmds[1], NCommandRender::DrawIndexed(6, 2)));
}

#[test]
fn setup_create_buffer_appends_in_order() {
    let mut nm = fresh_model(1);
    let mut arena = PipelineArena::new();
    let others: ModelState<Chunk> = ModelState::new();

    let r1 = apply_setup_command(
        NCommandSetup::CreateBuffer(vec![1, 2, 3], BUFFER_USAGE_UNIFORM),
        &mut nm,
        &mut arena,
        &others,
    );
    let r2 = apply_setup_command(
        NCommandSetup::CreateBuffer(vec![9], BUFFER_USAGE_UNIFORM),
        &mut nm,
        &mut arena,
        &others,
    );
    assert!(r1.is_ok() && r2.is_ok());
    assert_eq!(nm.buffers().len(), 2);
    assert_eq!(nm.buffers()[0].data.as_slice(), &[1, 2, 3]);
    assert_eq!(nm.buffers()[1].data.as_slice(), &[9]);
}

#[test]
fn setup_bind_group_checks_buffer_references() {
    let mut nm = fresh_model(1);
    let mut arena = PipelineArena::new();
    let others: ModelState<Chunk> = ModelState::new();

    // referencing buffer 0 before any buffer exists is an error
    let bad = apply_setup_command(
        NCommandSetup::CreateBindGroup(vec![], vec![NResource::Buffer(0)]),
        &mut nm,
        &mut arena,
        &others,
    );
    assert_eq!(bad, Err(CommandError::BufferIndex(0)));
    assert_eq!(nm.bind_groups().len(), 0);

    apply_setup_command(
        NCommandSetup::CreateBuffer(vec![0], BUFFER_USAGE_UNIFORM),
        &mut nm,
        &mut arena,
        &others,
    )
    .unwrap();
    let good = apply_setup_command(
        NCommandSetup::CreateBindGroup(vec![], vec![NResource::Buffer(0)]),
        &mut nm,
        &mut arena,
        &others,
    );
    assert!(good.is_ok());
    assert_eq!(nm.bind_groups().len(), 1);
}

#[test]
fn setup_pipeline_allocates_arena_slot() {
    let mut nm = fresh_model(1);
    let mut arena = PipelineArena::new();
    let others: ModelState<Chunk> = ModelState::new();

    let r = apply_setup_command(
        NCommandSetup::CreatePipeline(vec![], "chunk_instance", vec![], true),
        &mut nm,
        &mut arena,
        &others,
    );
    assert!(r.is_ok());
    assert_eq!(arena.len(), 1);
    assert!(arena.is_live(0));
    assert_eq!(nm.pipelines().as_slice(), &[0]);

    // a pipeline naming a bind group that does not exist is refused
    let bad = apply_setup_command(
        NCommandSetup::CreatePipeline(vec![3], "chunk_instance", vec![], false),
        &mut nm,
        &mut arena,
        &others,
    );
    assert_eq!(bad, Err(CommandError::BindGroupIndex(3)));
    assert_eq!(arena.len(), 1);
}

#[test]
fn share_pipeline_reuses_owner_slot() {
    let mut owner = fresh_model(10);
    let mut arena = PipelineArena::new();
    let empty: ModelState<Chunk> = ModelState::new();
    apply_setup_command(
        NCommandSetup::CreatePipeline(vec![], "chunk_instance", vec![], true),
        &mut owner,
        &mut arena,
        &empty,
    )
    .unwrap();

    let mut registry: ModelState<Chunk> = ModelState::new();
    registry.push(owner);

    let mut borrower = fresh_model(11);
    let shared = apply_setup_command(
        NCommandSetup::SharePipeline(10, 0),
        &mut borrower,
        &mut arena,
        &registry,
    );
    assert!(shared.is_ok());
    // the borrower references the very same arena slot; nothing new allocated
    assert_eq!(borrower.pipelines().as_slice(), &[0]);
    assert_eq!(arena.len(), 1);

    // sharing from an entity that is not registered is a fatal error
    let none = apply_setup_command(
        NCommandSetup::SharePipeline(99, 0),
        &mut borrower,
        &mut arena,
        &registry,
    );
    assert_eq!(none, Err(CommandError::MissingModel(99)));
    assert_eq!(borrower.pipelines().len(), 1);

    // naming a pipeline position the owner does not have is an error
    let bad = apply_setup_command(
        NCommandSetup::SharePipeline(10, 5),
        &mut borrower,
        &mut arena,
        &registry,
    );
    assert_eq!(bad, Err(CommandError::PipelineIndex(5)));
}

fn table_with_resources() -> (NModel<Chunk>, PipelineArena) {
    let mut nm = fresh_model(1);
    let mut arena = PipelineArena::new();
    let others: ModelState<Chunk> = ModelState::new();
    apply_setup_command(
        NCommandSetup::CreateBuffer(vec![0], BUFFER_USAGE_UNIFORM),
        &mut nm,
        &mut arena,
        &others,
    )
    .unwrap();
    apply_setup_command(
        NCommandSetup::CreateBindGroup(vec![], vec![NResource::Buffer(0)]),
        &mut nm,
        &mut arena,
        &others,
    )
    .unwrap();
    apply_setup_command(
        NCommandSetup::CreatePipeline(vec![0], "chunk_instance", vec![], true),
        &mut nm,
        &mut arena,
        &others,
    )
    .unwrap();
    (nm, arena)
}

#[test]
fn render_interpretation_resolves_positions() {
    let (nm, _arena) = table_with_resources();
    let cmds = vec![
        NCommandRender::SetPipeline(0),
        NCommandRender::SetVertexBuffer(1, 0),
        NCommandRender::SetIndexBuffer(0, IndexFormat::Uint32),
        NCommandRender::SetBindGroup(2, 0),
        NCommandRender::DrawIndexed(36, 5),
        NCommandRender::DrawModelIndexed(0, 2, vec![0]),
    ];
    let calls = interpret_render(cmds, &nm, 1).unwrap();
    assert_eq!(calls.len(), 6);
    assert!(matches!(calls[0], DrawCall::UsePipeline(0)));
    assert!(matches!(calls[1], DrawCall::UseVertexBuffer(1, 0)));
    assert!(matches!(calls[2], DrawCall::UseIndexBuffer(0, IndexFormat::Uint32)));
    assert!(matches!(calls[3], DrawCall::UseBindGroup(2, 0)));
    assert!(matches!(calls[4], DrawCall::DrawIndexed(36, 5)));
    match &calls[5] {
        DrawCall::DrawMesh(mesh, instances, extra) => {
            assert_eq!((*mesh, *instances), (0, 2));
            assert_eq!(extra.as_slice(), &[0]);
        }
        _ => panic!("expected a mesh draw"),
    }
}

#[test]
fn render_interpretation_error_cases() {
    let (nm, _arena) = table_with_resources();
    assert_eq!(
        interpret_render(vec![NCommandRender::SetPipeline(1)], &nm, 1),
        Err(CommandError::PipelineIndex(1))
    );
    assert_eq!(
        interpret_render(vec![NCommandRender::SetVertexBuffer(0, 7)], &nm, 1),
        Err(CommandError::BufferIndex(7))
    );
    assert_eq!(
        interpret_render(vec![NCommandRender::SetIndexBuffer(3, IndexFormat::Uint16)], &nm, 1),
        Err(CommandError::BufferIndex(3))
    );
    assert_eq!(
        interpret_render(vec![NCommandRender::SetBindGroup(0, 2)], &nm, 1),
        Err(CommandError::BindGroupIndex(2))
    );
    assert_eq!(
        interpret_render(vec![NCommandRender::DrawModelIndexed(1, 1, vec![])], &nm, 1),
        Err(CommandError::MeshIndex(1))
    );
    assert_eq!(
        interpret_render(vec![NCommandRender::DrawModelIndexed(0, 1, vec![9])], &nm, 1),
        Err(CommandError::BindGroupIndex(9))
    );
    // the first failing command wins
    assert_eq!(
        interpret_render(
            vec![NCommandRender::SetPipeline(8), NCommandRender::SetVertexBuffer(0, 7)],
            &nm,
            1
        ),
        Err(CommandError::PipelineIndex(8))
    );
}

#[test]
fn replaying_identical_buffers_gives_identical_draws() {
    // Replay determinism: the same commands against a fresh, identically
    // declared resource table give the same draw sequence, value for value.
    let (nm_first, _) = table_with_resources();
    let (nm_second, _) = table_with_resources();
    let make = || {
        vec![
            NCommandRender::SetPipeline(0),
            NCommandRender::SetVertexBuffer(1, 0),
            NCommandRender::DrawModelIndexed(0, 4, vec![0]),
        ]
    };
    let first = interpret_render(make(), &nm_first, 2).unwrap();
    let second = interpret_render(make(), &nm_second, 2).unwrap();
    assert_eq!(first, second);
}
