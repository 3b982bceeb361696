//! The orchestrator: entity registries, resource tables, and the command
//! interpreters.
//!
//! Models and actors never hold device handles.  A model declares the
//! resources it needs in a setup command buffer; the orchestrator records
//! them in the model's [`NModel`] resource table, in declaration order, so
//! render commands can refer to them by position.  Pipelines live in a
//! shared [`PipelineArena`] and may be shared across models
//! (`SharePipeline`); a pipeline slot is released only when its last owner
//! is removed.  The device layer mirrors these tables and replays the
//! returned [`DeviceAction`]s and draw calls against the real device.

use vstd::prelude::*;

use crate::camera::{Camera, CameraTrig, Projection};
use crate::command_buffer::{
    CommandBuffer, Id, Index, IndexFormat, LayoutEntry, NCommandRender, NCommandSetup,
    NCommandUpdate, NResource, VertexBufferLayout,
};
use crate::frustum::{Aabb, FrustumCuller, Intersection};
use crate::input::{InputEvent, InputState};
use crate::math::{Mat4, Vec3};

verus! {

/// A renderable entity: spatial extent for culling, an identity, and the
/// two command buffers describing its resources and its draw program.
pub trait Model: Sized {
    /// The entity's internal coherence; registries hold only models for
    /// which it holds.
    spec fn inv(&self) -> bool;

    /// The identity the executable `id` returns.
    spec fn spec_id(&self) -> u128;

    /// The world box the executable `aabb` returns.
    spec fn spec_aabb(&self) -> Aabb;

    /// The world position the executable `position` returns.
    spec fn spec_position(&self) -> Vec3;

    fn id(&self) -> (r: u128)
        requires
            self.inv(),
        ensures
            r == self.spec_id(),
    ;

    fn aabb(&self) -> (r: Aabb)
        requires
            self.inv(),
        ensures
            r == self.spec_aabb(),
            r.wf(),
            r.bounded(),
    ;

    fn position(&self) -> (r: Vec3)
        requires
            self.inv(),
        ensures
            r == self.spec_position(),
            r.bounded(),
    ;

    /// The model's own description of the setup buffers it emits: every
    /// buffer the executable `setup` returns satisfies it.
    spec fn setup_wf(&self, cmds: Seq<NCommandSetup>) -> bool;

    /// The model's own description of the render buffers it emits: every
    /// buffer the executable `render` returns satisfies it.
    spec fn render_wf(&self, cmds: Seq<NCommandRender>) -> bool;

    /// The one-time declaration of the GPU resources this model needs.
    fn setup(&self) -> (r: CommandBuffer<NCommandSetup>)
        requires
            self.inv(),
        ensures
            self.setup_wf(r@),
    ;

    /// The per-frame draw program, in terms of the declared resources.
    fn render(&self) -> (r: CommandBuffer<NCommandRender>)
        requires
            self.inv(),
        ensures
            self.render_wf(r@),
    ;
}

/// A behavioral entity: updated once per frame, it describes its intent as
/// a buffer of update commands and never mutates the scene directly.
pub trait Actor<M: Model>: Sized {
    /// The identity the executable `id` returns.
    spec fn spec_id(&self) -> u128;

    /// The actor's own description of one step: the state it ends in and
    /// the commands it emits, as a function of the frame time, the input
    /// snapshot, and the orientation sample.  The executable `update`
    /// returns exactly this.
    spec fn spec_update(&self, dt_ms: u64, inputs: InputState, trig: CameraTrig) -> (
        Self,
        Seq<NCommandUpdate<M, Self>>,
    );

    fn id(&self) -> (r: u128)
        ensures
            r == self.spec_id(),
    ;

    /// One frame step: read the frame time, the input snapshot and the
    /// camera-orientation sample, and emit update commands.  Every model
    /// the buffer creates must satisfy its own invariant.
    fn update(&mut self, dt_ms: u64, inputs: &InputState, trig: &CameraTrig) -> (r: CommandBuffer<
        NCommandUpdate<M, Self>,
    >)
        requires
            inputs.wf(),
        ensures
            update_buffer_wf(r@),
            *final (self) == old(self).spec_update(dt_ms, *inputs, *trig).0,
            r@ == old(self).spec_update(dt_ms, *inputs, *trig).1,
    ;
}

/// A single update command is well formed when any model it carries
/// satisfies its invariant.
pub open spec fn update_cmd_wf<M: Model, A>(c: NCommandUpdate<M, A>) -> bool {
    match c {
        NCommandUpdate::CreateModel(m) => m.inv(),
        _ => true,
    }
}

/// Every command of the buffer is well formed.
pub open spec fn update_buffer_wf<M: Model, A>(s: Seq<NCommandUpdate<M, A>>) -> bool {
    forall|i: int| 0 <= i < s.len() ==> update_cmd_wf(#[trigger] s[i])
}

/// Why interpreting a command failed: a positional reference did not name
/// an existing resource, or a targeted entity id is unknown.  All of these
/// are programming errors in the trusted process; the shell aborts on them.
#[derive(Clone, Copy, Debug, PartialEq, Eq, Structural)]
pub enum CommandError {
    MissingModel(Id),
    BufferIndex(Index),
    BindGroupIndex(Index),
    PipelineIndex(Index),
    MeshIndex(Index),
}

/// An effect the device layer must replay: the verified core touches no
/// device itself.
#[derive(Clone, Copy, Debug, PartialEq, Eq, Structural)]
pub enum DeviceAction {
    /// A model entered the registry; mirror its resource table.
    ModelAdded(Id),
    /// A model left the registry; drop its mirrored resources.
    ModelRemoved(Id),
    /// Re-upload the bytes of one buffer (by position) of the named model.
    RefreshBuffer(Id, Index),
    /// The pipeline in this arena slot lost its last owner; destroy it.
    FreePipeline(Index),
}

/// An allocated buffer: the bytes it was created with and its usage bits.
pub struct NBuffer {
    pub data: Vec<u8>,
    pub usage: u32,
}

impl NBuffer {
    pub fn new(data: Vec<u8>, usage: u32) -> (r: NBuffer)
        ensures
            r.data@ == data@,
            r.usage == usage,
    {
        NBuffer { data, usage }
    }
}

/// An allocated resource-binding set: its layout and the positional
/// resource references it binds.
pub struct NBindGroup {
    pub entries: Vec<LayoutEntry>,
    pub resources: Vec<NResource>,
}

impl NBindGroup {
    pub fn new(entries: Vec<LayoutEntry>, resources: Vec<NResource>) -> (r: NBindGroup)
        ensures
            r.entries@ == entries@,
            r.resources@ == resources@,
    {
        NBindGroup { entries, resources }
    }
}

/// Everything a pipeline was declared with.  When `use_model` is set the
/// device layer prepends its shared model-texture layout and the mesh
/// vertex layout while assembling the real pipeline; the core only records
/// the declaration.
pub struct PipelineDesc {
    pub bind_groups: Vec<Index>,
    pub shader: &'static str,
    pub vertex_layouts: Vec<VertexBufferLayout>,
    pub use_model: bool,
}

/// The shared pipeline store.  Slots are stable: allocation appends and
/// release blanks a slot without moving the others, so the slot index is a
/// durable cross-model reference.
pub struct PipelineArena {
    slots: Vec<Option<PipelineDesc>>,
}

impl PipelineArena {
    pub closed spec fn slots_view(self) -> Seq<Option<PipelineDesc>> {
        self.slots@
    }

    /// Slot `p` exists and still holds a pipeline.
    pub open spec fn live(self, p: int) -> bool {
        0 <= p < self.slots_view().len() && self.slots_view()[p] is Some
    }

    pub fn new() -> (r: PipelineArena)
        ensures
            r.slots_view() == Seq::<Option<PipelineDesc>>::empty(),
    {
        PipelineArena { slots: Vec::new() }
    }

    pub fn len(&self) -> (r: usize)
        ensures
            r == self.slots_view().len(),
    {
        self.slots.len()
    }

    /// Store a new pipeline; its slot index is returned.
    pub fn store(&mut self, desc: PipelineDesc) -> (r: usize)
        ensures
            r == old(self).slots_view().len(),
            final (self).slots_view() == old(self).slots_view().push(Some(desc)),
    {
        let r = self.slots.len();
        self.slots.push(Some(desc));
        r
    }

    /// Blank a slot; the other slots keep their indices.
    pub fn free(&mut self, p: usize)
        requires
            p < old(self).slots_view().len(),
        ensures
            final (self).slots_view() == old(self).slots_view().update(p as int, None),
    {
        self.slots.set(p, None);
    }

    pub fn is_live(&self, p: usize) -> (r: bool)
        ensures
            r == self.live(p as int),
    {
        p < self.slots.len() && self.slots[p].is_some()
    }
}

/// A registered model with its resource table: the entity itself, its
/// pipeline slots in the shared arena, and its own buffers and binding
/// sets, each list in declaration order.
pub struct NModel<M: Model> {
    model: M,
    pipelines: Vec<Index>,
    buffers: Vec<NBuffer>,
    bind_groups: Vec<NBindGroup>,
}

impl<M: Model> NModel<M> {
    pub closed spec fn spec_model(self) -> M {
        self.model
    }

    pub closed spec fn pipelines_view(self) -> Seq<Index> {
        self.pipelines@
    }

    pub closed spec fn buffers_view(self) -> Seq<NBuffer> {
        self.buffers@
    }

    pub closed spec fn bind_groups_view(self) -> Seq<NBindGroup> {
        self.bind_groups@
    }

    /// Wrap an entity with empty resource lists.
    pub fn new(model: M) -> (r: NModel<M>)
        ensures
            r.spec_model() == model,
            r.pipelines_view() == Seq::<Index>::empty(),
            r.buffers_view() == Seq::<NBuffer>::empty(),
            r.bind_groups_view() == Seq::<NBindGroup>::empty(),
    {
        NModel { model, pipelines: Vec::new(), buffers: Vec::new(), bind_groups: Vec::new() }
    }

    pub fn model(&self) -> (r: &M)
        ensures
            *r == self.spec_model(),
    {
        &self.model
    }

    pub fn pipelines(&self) -> (r: &Vec<Index>)
        ensures
            r@ == self.pipelines_view(),
    {
        &self.pipelines
    }

    pub fn buffers(&self) -> (r: &Vec<NBuffer>)
        ensures
            r@ == self.buffers_view(),
    {
        &self.buffers
    }

    pub fn bind_groups(&self) -> (r: &Vec<NBindGroup>)
        ensures
            r@ == self.bind_groups_view(),
    {
        &self.bind_groups
    }
}

/// The model registry: exclusive owner of all registered models.
pub struct ModelState<M: Model> {
    models: Vec<NModel<M>>,
}

impl<M: Model> ModelState<M> {
    pub closed spec fn view_models(self) -> Seq<NModel<M>> {
        self.models@
    }

    /// Every registered model satisfies its own invariant.
    pub open spec fn inv(self) -> bool {
        forall|i: int|
            0 <= i < self.view_models().len() ==> (#[trigger] self.view_models()[i]).spec_model().inv()
    }

    /// Some registered model has this id.
    pub open spec fn spec_has_model(self, id: u128) -> bool {
        exists|i: int|
            0 <= i < self.view_models().len() && (#[trigger] self.view_models()[i]).spec_model().spec_id()
                == id
    }

    pub fn new() -> (r: ModelState<M>)
        ensures
            r.view_models() == Seq::<NModel<M>>::empty(),
            r.inv(),
    {
        ModelState { models: Vec::new() }
    }

    pub fn len(&self) -> (r: usize)
        ensures
            r == self.view_models().len(),
    {
        self.models.len()
    }

    pub fn push(&mut self, model: NModel<M>)
        requires
            old(self).inv(),
            model.spec_model().inv(),
        ensures
            final (self).inv(),
            final (self).view_models() == old(self).view_models().push(model),
    {
        self.models.push(model);
        proof {
            assert forall|i: int|
                0 <= i < self.models@.len() implies (#[trigger] self.models@[
                i
            ]).spec_model().inv() by {
                if i < old(self).models@.len() {
                    assert(self.models@[i] == old(self).models@[i]);
                    assert(old(self).view_models()[i].spec_model().inv());
                } else {
                    assert(self.models@[i] == model);
                }
            }
        }
    }

    /// Index of the first registered model with this id.
    pub fn find_model(&self, id: u128) -> (r: Option<usize>)
        requires
            self.inv(),
        ensures
            match r {
                Some(i) => {
                    &&& i < self.view_models().len()
                    &&& self.view_models()[i as int].spec_model().spec_id() == id
                    &&& forall|j: int|
                        0 <= j < i ==> (#[trigger] self.view_models()[j]).spec_model().spec_id()
                            != id
                },
                None => !self.spec_has_model(id),
            },
    {
        let n = self.models.len();
        let mut i: usize = 0;
        while i < n
            invariant
                self.inv(),
                n == self.view_models().len(),
                0 <= i <= n,
                forall|j: int|
                    0 <= j < i ==> (#[trigger] self.view_models()[j]).spec_model().spec_id() != id,
            decreases n - i,
        {
            if self.models[i].model().id() == id {
                proof {
                    assert(self.view_models()[i as int].spec_model().spec_id() == id);
                }
                return Some(i);
            }
            i = i + 1;
        }
        None
    }

    /// The first registered model with this id.
    pub fn get_model(&self, id: u128) -> (r: Option<&NModel<M>>)
        requires
            self.inv(),
        ensures
            match r {
                Some(m) => exists|i: int|
                    {
                        &&& 0 <= i < self.view_models().len()
                        &&& *m == (#[trigger] self.view_models()[i])
                        &&& self.view_models()[i].spec_model().spec_id() == id
                        &&& forall|j: int|
                            0 <= j < i ==> (#[trigger] self.view_models()[j]).spec_model().spec_id() != id
                    },
                None => !self.spec_has_model(id),
            },
            r is Some <==> self.spec_has_model(id),
    {
        match self.find_model(id) {
            Some(i) => {
                let m = &self.models[i];
                proof {
                    assert(*m == self.view_models()[i as int]);
                }
                Some(m)
            },
            None => None,
        }
    }

    pub fn models(&self) -> (r: &Vec<NModel<M>>)
        ensures
            r@ == self.view_models(),
    {
        &self.models
    }

    /// Swap-remove: the last entry moves into the removed slot; order is
    /// not preserved.
    pub fn remove(&mut self, idx: usize)
        requires
            old(self).inv(),
            idx < old(self).view_models().len(),
        ensures
            final (self).inv(),
            final (self).view_models() == old(self).view_models().update(
                idx as int,
                old(self).view_models().last(),
            ).drop_last(),
    {
        self.models.swap_remove(idx);
    }
}

/// The actor registry.
pub struct ActorState<A> {
    actors: Vec<A>,
}

impl<A> ActorState<A> {
    pub closed spec fn view_actors(self) -> Seq<A> {
        self.actors@
    }

    pub fn new() -> (r: ActorState<A>)
        ensures
            r.view_actors() == Seq::<A>::empty(),
    {
        ActorState { actors: Vec::new() }
    }

    pub fn len(&self) -> (r: usize)
        ensures
            r == self.view_actors().len(),
    {
        self.actors.len()
    }

    pub fn push(&mut self, actor: A)
        ensures
            final (self).view_actors() == old(self).view_actors().push(actor),
    {
        self.actors.push(actor);
    }

    /// Take the actor at `idx` out of the registry, preserving order.
    pub fn take(&mut self, idx: usize) -> (r: A)
        requires
            idx < old(self).view_actors().len(),
        ensures
            r == old(self).view_actors()[idx as int],
            final (self).view_actors() == old(self).view_actors().remove(idx as int),
    {
        self.actors.remove(idx)
    }

    /// Put an actor back at `idx`, preserving order.
    pub fn put_back(&mut self, idx: usize, actor: A)
        requires
            idx <= old(self).view_actors().len(),
        ensures
            final (self).view_actors() == old(self).view_actors().insert(idx as int, actor),
    {
        self.actors.insert(idx, actor);
    }

    /// Swap-remove: the last entry moves into the removed slot; order is
    /// not preserved.
    pub fn remove(&mut self, idx: usize)
        requires
            idx < old(self).view_actors().len(),
        ensures
            final (self).view_actors() == old(self).view_actors().update(
                idx as int,
                old(self).view_actors().last(),
            ).drop_last(),
    {
        self.actors.swap_remove(idx);
    }
}

/// Interpret one setup command against a model's resource table, the
/// shared pipeline arena, and the registry of already-registered models
/// (only `SharePipeline` reads it).  Resource references are positional;
/// one that names a position not declared yet, or a sharing target that
/// is not registered, is an error and changes nothing.
pub fn apply_setup_command<M: Model>(
    command: NCommandSetup,
    n_model: &mut NModel<M>,
    arena: &mut PipelineArena,
    others: &ModelState<M>,
) -> (r: Result<(), CommandError>)
    requires
        others.inv(),
        tables_live(others.view_models(), *old(arena)),
    ensures
        final (n_model).spec_model() == old(n_model).spec_model(),
        forall|k: int|
            0 <= k < final (n_model).pipelines_view().len() ==> (k < old(
                n_model,
            ).pipelines_view().len() && (#[trigger] final (n_model).pipelines_view()[k]) == old(
                n_model,
            ).pipelines_view()[k]) || final (arena).live(
                final (n_model).pipelines_view()[k] as int,
            ),
        match command {
            NCommandSetup::CreateBuffer(data, usage) => {
                &&& r is Ok
                &&& final (n_model).buffers_view().len() == old(n_model).buffers_view().len() + 1
                &&& final (n_model).buffers_view().last().data@ == data@
                &&& final (n_model).buffers_view().last().usage == usage
                &&& final (n_model).buffers_view().drop_last() == old(n_model).buffers_view()
                &&& final (n_model).pipelines_view() == old(n_model).pipelines_view()
                &&& final (n_model).bind_groups_view() == old(n_model).bind_groups_view()
                &&& *final (arena) == *old(arena)
            },
            NCommandSetup::CreateBindGroup(entries, resources) => {
                &&& (r is Ok <==> forall|j: int|
                    0 <= j < resources@.len() ==> resource_valid(
                        #[trigger] resources@[j],
                        old(n_model).buffers_view().len() as int,
                    ))
                &&& r is Ok ==> {
                    &&& final (n_model).bind_groups_view().len() == old(
                        n_model,
                    ).bind_groups_view().len() + 1
                    &&& final (n_model).bind_groups_view().last().entries@ == entries@
                    &&& final (n_model).bind_groups_view().last().resources@ == resources@
                    &&& final (n_model).bind_groups_view().drop_last() == old(
                        n_model,
                    ).bind_groups_view()
                }
                &&& r is Err ==> *final (n_model) == *old(n_model)
                &&& final (n_model).buffers_view() == old(n_model).buffers_view()
                &&& final (n_model).pipelines_view() == old(n_model).pipelines_view()
                &&& *final (arena) == *old(arena)
            },
            NCommandSetup::CreatePipeline(bind_groups, shader, vertex_layouts, use_model) => {
                &&& (r is Ok <==> forall|j: int|
                    0 <= j < bind_groups@.len() ==> 0 <= #[trigger] bind_groups@[j] < old(
                        n_model,
                    ).bind_groups_view().len())
                &&& r is Ok ==> {
                    &&& final (arena).slots_view().len() == old(arena).slots_view().len() + 1
                    &&& final (arena).slots_view().last() matches Some(d) && d.bind_groups@
                        == bind_groups@ && d.shader == shader && d.vertex_layouts@
                        == vertex_layouts@ && d.use_model == use_model
                    &&& final (arena).slots_view().drop_last() == old(arena).slots_view()
                    &&& final (n_model).pipelines_view() == old(n_model).pipelines_view().push(
                        old(arena).slots_view().len() as usize,
                    )
                }
                &&& r is Err ==> *final (n_model) == *old(n_model) && *final (arena) == *old(
                    arena,
                )
                &&& final (n_model).buffers_view() == old(n_model).buffers_view()
                &&& final (n_model).bind_groups_view() == old(n_model).bind_groups_view()
            },
            NCommandSetup::SharePipeline(id, idx) => {
                &&& *final (arena) == *old(arena)
                &&& final (n_model).buffers_view() == old(n_model).buffers_view()
                &&& final (n_model).bind_groups_view() == old(n_model).bind_groups_view()
                &&& match spec_find_model(others.view_models(), id) {
                    None => r == Err::<(), CommandError>(CommandError::MissingModel(id))
                        && *final (n_model) == *old(n_model),
                    Some(i) => {
                        &&& idx < others.view_models()[i].pipelines_view().len() ==> r is Ok
                            && final (n_model).pipelines_view() == old(
                            n_model,
                        ).pipelines_view().push(others.view_models()[i].pipelines_view()[idx as int])
                        &&& idx >= others.view_models()[i].pipelines_view().len() ==> r is Err
                            && *final (n_model) == *old(n_model)
                    },
                }
            },
        },
{
    match command {
        NCommandSetup::CreateBuffer(data, usage) => {
            n_model.buffers.push(NBuffer::new(data, usage));
            Ok(())
        },
        NCommandSetup::CreateBindGroup(entries, resources) => {
            match first_invalid_resource(&resources, n_model.buffers.len()) {
                Some(bad) => Err(CommandError::BufferIndex(bad)),
                None => {
                    n_model.bind_groups.push(NBindGroup::new(entries, resources));
                    Ok(())
                },
            }
        },
        NCommandSetup::CreatePipeline(bind_groups, shader, vertex_layouts, use_model) => {
            match first_out_of_range(&bind_groups, n_model.bind_groups.len()) {
                Some(bad) => Err(CommandError::BindGroupIndex(bad)),
                None => {
                    let slot = arena.store(
                        PipelineDesc { bind_groups, shader, vertex_layouts, use_model },
                    );
                    n_model.pipelines.push(slot);
                    Ok(())
                },
            }
        },
        NCommandSetup::SharePipeline(id, idx) => {
            match others.find_model(id) {
                Some(i) => {
                    proof {
                        lemma_spec_find_model(others.view_models(), id);
                        match spec_find_model(others.view_models(), id) {
                            Some(fi) => {
                                assert(fi == i as int);
                            },
                            None => {
                                assert(others.view_models()[i as int].spec_model().spec_id()
                                    == id);
                            },
                        }
                    }
                    let other = &others.models[i];
                    if idx >= other.pipelines.len() {
                        return Err(CommandError::PipelineIndex(idx));
                    }
                    let slot = other.pipelines[idx];
                    proof {
                        assert(arena.live(
                            others.view_models()[i as int].pipelines_view()[idx as int] as int,
                        ));
                    }
                    n_model.pipelines.push(slot);
                    Ok(())
                },
                None => {
                    proof {
                        lemma_spec_find_model(others.view_models(), id);
                        match spec_find_model(others.view_models(), id) {
                            Some(fi) => {
                                assert(others.spec_has_model(id));
                            },
                            None => {},
                        }
                    }
                    Err(CommandError::MissingModel(id))
                },
            }
        },
    }
}

/// A positional resource reference points below the number of declared
/// buffers.
pub open spec fn resource_valid(r: NResource, n_buffers: int) -> bool {
    match r {
        NResource::Buffer(i) => 0 <= i < n_buffers,
    }
}

/// One resolved draw-pass step.  Pipeline references have been resolved to
/// arena slots; the other references stay model-local positions, already
/// checked against the owning model's resource table.
#[derive(Debug, PartialEq, Eq)]
pub enum DrawCall {
    UsePipeline(Index),
    UseVertexBuffer(u32, Index),
    UseIndexBuffer(Index, IndexFormat),
    UseBindGroup(u32, Index),
    DrawIndexed(u32, u32),
    DrawMesh(Index, u32, Vec<Index>),
}

/// The first element of `s` not below `bound`, scanning left to right.
pub open spec fn spec_first_out_of_range(s: Seq<Index>, bound: int) -> Option<Index>
    decreases s.len(),
{
    if s.len() == 0 {
        None
    } else if !(0 <= s[0] < bound) {
        Some(s[0])
    } else {
        spec_first_out_of_range(s.drop_first(), bound)
    }
}

/// Interpretation of a single render command against a model whose
/// resource table has the given pipeline slots and list lengths: either
/// the resolved draw call, or the error the first bad reference raises.
pub open spec fn spec_render_step(
    c: NCommandRender,
    pipelines: Seq<Index>,
    n_buffers: int,
    n_bind_groups: int,
    n_meshes: int,
) -> Result<DrawCall, CommandError> {
    match c {
        NCommandRender::SetPipeline(i) => if 0 <= i < pipelines.len() {
            Ok(DrawCall::UsePipeline(pipelines[i as int]))
        } else {
            Err(CommandError::PipelineIndex(i))
        },
        NCommandRender::SetVertexBuffer(slot, i) => if 0 <= i < n_buffers {
            Ok(DrawCall::UseVertexBuffer(slot, i))
        } else {
            Err(CommandError::BufferIndex(i))
        },
        NCommandRender::SetIndexBuffer(i, format) => if 0 <= i < n_buffers {
            Ok(DrawCall::UseIndexBuffer(i, format))
        } else {
            Err(CommandError::BufferIndex(i))
        },
        NCommandRender::SetBindGroup(slot, i) => if 0 <= i < n_bind_groups {
            Ok(DrawCall::UseBindGroup(slot, i))
        } else {
            Err(CommandError::BindGroupIndex(i))
        },
        NCommandRender::DrawIndexed(indices, instances) => Ok(
            DrawCall::DrawIndexed(indices, instances),
        ),
        NCommandRender::DrawModelIndexed(mesh, instances, extra) => if !(0 <= mesh < n_meshes) {
            Err(CommandError::MeshIndex(mesh))
        } else {
            match spec_first_out_of_range(extra@, n_bind_groups) {
                Some(bad) => Err(CommandError::BindGroupIndex(bad)),
                None => Ok(DrawCall::DrawMesh(mesh, instances, extra)),
            }
        },
    }
}

/// Interpretation of a whole render command buffer, in order: the resolved
/// draw sequence, or the error of the first failing command.  This is a
/// function of the commands and the table alone, which is what makes
/// replay deterministic.
pub open spec fn spec_interp_render(
    cmds: Seq<NCommandRender>,
    pipelines: Seq<Index>,
    n_buffers: int,
    n_bind_groups: int,
    n_meshes: int,
) -> Result<Seq<DrawCall>, CommandError>
    decreases cmds.len(),
{
    if cmds.len() == 0 {
        Ok(Seq::empty())
    } else {
        match spec_render_step(cmds[0], pipelines, n_buffers, n_bind_groups, n_meshes) {
            Ok(d) => match spec_interp_render(
                cmds.drop_first(),
                pipelines,
                n_buffers,
                n_bind_groups,
                n_meshes,
            ) {
                Ok(rest) => Ok(seq![d] + rest),
                Err(e) => Err(e),
            },
            Err(e) => Err(e),
        }
    }
}

/// Replay determinism: interpreting equal command buffers against equal
/// resource tables yields identical results, draw call for draw call.
/// The interpretation is a mathematical function of the buffer and the
/// table; nothing else (no device state, no hidden mutation) enters it.
pub proof fn lemma_render_replay_deterministic(
    cmds_first: Seq<NCommandRender>,
    cmds_second: Seq<NCommandRender>,
    pipelines_first: Seq<Index>,
    pipelines_second: Seq<Index>,
    n_buffers: int,
    n_bind_groups: int,
    n_meshes: int,
)
    requires
        cmds_first == cmds_second,
        pipelines_first == pipelines_second,
    ensures
        spec_interp_render(cmds_first, pipelines_first, n_buffers, n_bind_groups, n_meshes)
            == spec_interp_render(
            cmds_second,
            pipelines_second,
            n_buffers,
            n_bind_groups,
            n_meshes,
        ),
{
}

/// Copy a list of positional indices.
fn copy_indices(idxs: &Vec<Index>) -> (r: Vec<Index>)
    ensures
        r@ == idxs@,
{
    let mut out: Vec<Index> = Vec::new();
    let n = idxs.len();
    let mut j: usize = 0;
    while j < n
        invariant
            n == idxs@.len(),
            0 <= j <= n,
            out@ == idxs@.take(j as int),
        decreases n - j,
    {
        out.push(idxs[j]);
        proof {
            assert(idxs@.take(j + 1 as int) =~= idxs@.take(j as int).push(idxs@[j as int]));
        }
        j = j + 1;
    }
    proof {
        assert(idxs@.take(n as int) =~= idxs@);
    }
    out
}

/// The value of `first_out_of_range` as a scan from the front.
fn first_out_of_range_spec_exact(idxs: &Vec<Index>, bound: usize) -> (r: Option<Index>)
    ensures
        r == spec_first_out_of_range(idxs@, bound as int),
{
    let n = idxs.len();
    let mut j: usize = 0;
    proof {
        assert(idxs@.skip(0) =~= idxs@);
    }
    while j < n
        invariant
            n == idxs@.len(),
            0 <= j <= n,
            spec_first_out_of_range(idxs@, bound as int) == spec_first_out_of_range(
                idxs@.skip(j as int),
                bound as int,
            ),
            forall|k: int| 0 <= k < j ==> 0 <= #[trigger] idxs@[k] < bound,
        decreases n - j,
    {
        proof {
            assert(idxs@.skip(j as int)[0] == idxs@[j as int]);
            assert(idxs@.skip(j as int).drop_first() =~= idxs@.skip(j + 1 as int));
        }
        if idxs[j] >= bound {
            return Some(idxs[j]);
        }
        j = j + 1;
    }
    proof {
        assert(idxs@.skip(n as int) =~= Seq::<Index>::empty());
    }
    None
}

/// The buffer index of the first resource reference that does not point
/// below `n_buffers`, if any.
fn first_invalid_resource(resources: &Vec<NResource>, n_buffers: usize) -> (r: Option<Index>)
    ensures
        r is None <==> forall|j: int|
            0 <= j < resources@.len() ==> resource_valid(
                #[trigger] resources@[j],
                n_buffers as int,
            ),
{
    let n = resources.len();
    let mut j: usize = 0;
    while j < n
        invariant
            n == resources@.len(),
            0 <= j <= n,
            forall|k: int|
                0 <= k < j ==> resource_valid(#[trigger] resources@[k], n_buffers as int),
        decreases n - j,
    {
        match resources[j] {
            NResource::Buffer(i) => {
                if i >= n_buffers {
                    proof {
                        assert(!resource_valid(resources@[j as int], n_buffers as int));
                    }
                    return Some(i);
                }
            },
        }
        j = j + 1;
    }
    None
}

/// The first position in `idxs` whose value is not below `bound`, if any;
/// the value itself is returned.
fn first_out_of_range(idxs: &Vec<Index>, bound: usize) -> (r: Option<Index>)
    ensures
        r is None <==> forall|j: int| 0 <= j < idxs@.len() ==> 0 <= #[trigger] idxs@[j] < bound,
{
    let n = idxs.len();
    let mut j: usize = 0;
    while j < n
        invariant
            n == idxs@.len(),
            0 <= j <= n,
            forall|k: int| 0 <= k < j ==> 0 <= #[trigger] idxs@[k] < bound,
        decreases n - j,
    {
        if idxs[j] >= bound {
            proof {
                assert(!(0 <= idxs@[j as int] < bound));
            }
            return Some(idxs[j]);
        }
        j = j + 1;
    }
    None
}

/// Interpret a model's render command buffer against its resource table:
/// resolve each command in order, stopping at the first command whose
/// positional reference does not exist.
pub fn interpret_render<M: Model>(
    commands: Vec<NCommandRender>,
    n_model: &NModel<M>,
    mesh_count: usize,
) -> (r: Result<Vec<DrawCall>, CommandError>)
    ensures
        match r {
            Ok(v) => spec_interp_render(
                commands@,
                n_model.pipelines_view(),
                n_model.buffers_view().len() as int,
                n_model.bind_groups_view().len() as int,
                mesh_count as int,
            ) == Ok::<Seq<DrawCall>, CommandError>(v@),
            Err(e) => spec_interp_render(
                commands@,
                n_model.pipelines_view(),
                n_model.buffers_view().len() as int,
                n_model.bind_groups_view().len() as int,
                mesh_count as int,
            ) == Err::<Seq<DrawCall>, CommandError>(e),
        },
{
    let ghost cs = commands@;
    let ghost pipelines = n_model.pipelines_view();
    let ghost nb = n_model.buffers_view().len() as int;
    let ghost nbg = n_model.bind_groups_view().len() as int;
    let ghost nm = mesh_count as int;

    let mut rest = commands;
    let mut out: Vec<DrawCall> = Vec::new();
    while rest.len() > 0
        invariant
            cs == commands@,
            pipelines == n_model.pipelines_view(),
            nb == n_model.buffers_view().len() as int,
            nbg == n_model.bind_groups_view().len() as int,
            nm == mesh_count as int,
            spec_interp_render(cs, pipelines, nb, nbg, nm) == (
            match spec_interp_render(rest@, pipelines, nb, nbg, nm) {
                Ok(tail) => Ok::<Seq<DrawCall>, CommandError>(out@ + tail),
                Err(e) => Err::<Seq<DrawCall>, CommandError>(e),
            }),
        decreases rest@.len(),
    {
        let ghost rest0 = rest@;
        let c = rest.remove(0);
        proof {
            assert(rest0[0] == c);
            assert(rest0.drop_first() =~= rest@);
        }
        let step: Result<DrawCall, CommandError> = match c {
            NCommandRender::SetPipeline(idx) => {
                if idx < n_model.pipelines.len() {
                    Ok(DrawCall::UsePipeline(n_model.pipelines[idx]))
                } else {
                    Err(CommandError::PipelineIndex(idx))
                }
            },
            NCommandRender::SetVertexBuffer(slot, idx) => {
                if idx < n_model.buffers.len() {
                    Ok(DrawCall::UseVertexBuffer(slot, idx))
                } else {
                    Err(CommandError::BufferIndex(idx))
                }
            },
            NCommandRender::SetIndexBuffer(idx, format) => {
                if idx < n_model.buffers.len() {
                    Ok(DrawCall::UseIndexBuffer(idx, format))
                } else {
                    Err(CommandError::BufferIndex(idx))
                }
            },
            NCommandRender::SetBindGroup(slot, idx) => {
                if idx < n_model.bind_groups.len() {
                    Ok(DrawCall::UseBindGroup(slot, idx))
                } else {
                    Err(CommandError::BindGroupIndex(idx))
                }
            },
            NCommandRender::DrawIndexed(indices, instances) => {
                Ok(DrawCall::DrawIndexed(indices, instances))
            },
            NCommandRender::DrawModelIndexed(mesh, instances, extra) => {
                if mesh >= mesh_count {
                    Err(CommandError::MeshIndex(mesh))
                } else {
                    match first_out_of_range_spec_exact(&extra, n_model.bind_groups.len()) {
                        Some(bad) => Err(CommandError::BindGroupIndex(bad)),
                        None => Ok(DrawCall::DrawMesh(mesh, instances, extra)),
                    }
                }
            },
        };
        match step {
            Ok(d) => {
                proof {
                    assert(spec_render_step(rest0[0], pipelines, nb, nbg, nm) == Ok::<
                        DrawCall,
                        CommandError,
                    >(d));
                    match spec_interp_render(rest@, pipelines, nb, nbg, nm) {
                        Ok(tail) => {
                            assert(out@ + (seq![d] + tail) =~= out@.push(d) + tail);
                        },
                        Err(_) => {},
                    }
                }
                out.push(d);
            },
            Err(e) => {
                proof {
                    assert(spec_render_step(rest0[0], pipelines, nb, nbg, nm) == Err::<
                        DrawCall,
                        CommandError,
                    >(e));
                    assert(spec_interp_render(rest0, pipelines, nb, nbg, nm) == Err::<
                        Seq<DrawCall>,
                        CommandError,
                    >(e));
                    assert(spec_interp_render(cs, pipelines, nb, nbg, nm) == Err::<
                        Seq<DrawCall>,
                        CommandError,
                    >(e));
                }
                return Err(e);
            },
        }
    }
    proof {
        assert(rest@ =~= Seq::<NCommandRender>::empty());
        assert(out@ + Seq::<DrawCall>::empty() =~= out@);
    }
    Ok(out)
}

/// `p` occurs in the index list `s`.
pub open spec fn in_seq(s: Seq<Index>, p: int) -> bool {
    exists|k: int| 0 <= k < s.len() && (#[trigger] s[k]) == p
}

/// Index of the first registered model with this id, scanning in registry
/// order.
pub open spec fn spec_find_model<M: Model>(models: Seq<NModel<M>>, id: Id) -> Option<int>
    decreases models.len(),
{
    if models.len() == 0 {
        None
    } else if models[0].spec_model().spec_id() == id {
        Some(0int)
    } else {
        match spec_find_model(models.drop_first(), id) {
            Some(i) => Some(i + 1),
            None => None,
        }
    }
}

/// `spec_find_model` returns exactly the first match: `Some(i)` iff entry
/// `i` carries the id and no earlier entry does, `None` iff no entry does.
pub proof fn lemma_spec_find_model<M: Model>(models: Seq<NModel<M>>, id: Id)
    ensures
        match spec_find_model(models, id) {
            Some(i) => {
                &&& 0 <= i < models.len()
                &&& (#[trigger] models[i]).spec_model().spec_id() == id
                &&& forall|j: int|
                    0 <= j < i ==> (#[trigger] models[j]).spec_model().spec_id() != id
            },
            None => forall|j: int|
                0 <= j < models.len() ==> (#[trigger] models[j]).spec_model().spec_id() != id,
        },
    decreases models.len(),
{
    if models.len() > 0 && models[0].spec_model().spec_id() != id {
        lemma_spec_find_model(models.drop_first(), id);
        assert forall|j: int|
            1 <= j < models.len() implies models[j] == models.drop_first()[j - 1] by {}
        match spec_find_model(models.drop_first(), id) {
            Some(i) => {
                assert(models[i + 1] == models.drop_first()[i]);
            },
            None => {},
        }
    }
}

/// Whether a setup buffer interprets without error: run against an
/// initially counted resource table (`n_buffers` buffers and
/// `n_bind_groups` binding sets already declared) and the given registry,
/// every positional reference exists by the time its command runs, and
/// every sharing target is a registered model that has the named
/// pipeline.  This is the exact success condition of interpreting the
/// buffer.
pub open spec fn spec_setup_ok<M: Model>(
    cmds: Seq<NCommandSetup>,
    others: Seq<NModel<M>>,
    n_buffers: int,
    n_bind_groups: int,
) -> bool
    decreases cmds.len(),
{
    if cmds.len() == 0 {
        true
    } else {
        match cmds[0] {
            NCommandSetup::CreateBuffer(_data, _usage) => spec_setup_ok(
                cmds.drop_first(),
                others,
                n_buffers + 1,
                n_bind_groups,
            ),
            NCommandSetup::CreateBindGroup(_entries, resources) => {
                &&& forall|j: int|
                    0 <= j < resources@.len() ==> resource_valid(
                        #[trigger] resources@[j],
                        n_buffers,
                    )
                &&& spec_setup_ok(cmds.drop_first(), others, n_buffers, n_bind_groups + 1)
            },
            NCommandSetup::CreatePipeline(bind_groups, _shader, _layouts, _use_model) => {
                &&& forall|j: int|
                    0 <= j < bind_groups@.len() ==> 0 <= #[trigger] bind_groups@[j]
                        < n_bind_groups
                &&& spec_setup_ok(cmds.drop_first(), others, n_buffers, n_bind_groups)
            },
            NCommandSetup::SharePipeline(id, idx) => {
                &&& (match spec_find_model(others, id) {
                    Some(i) => idx < others[i].pipelines_view().len(),
                    None => false,
                })
                &&& spec_setup_ok(cmds.drop_first(), others, n_buffers, n_bind_groups)
            },
        }
    }
}

/// Registration outcome: some buffer the model's `setup` may emit decides
/// it, succeeding exactly when the buffer interprets against the registry.
pub open spec fn setup_outcome_described<M: Model>(
    model: M,
    others: Seq<NModel<M>>,
    ok: bool,
) -> bool {
    exists|cmds: Seq<NCommandSetup>|
        #[trigger] model.setup_wf(cmds) && (ok <==> spec_setup_ok(cmds, others, 0, 0))
}

/// Some registered model references arena slot `p`.
pub open spec fn slot_referenced<M: Model>(models: Seq<NModel<M>>, p: int) -> bool {
    exists|i: int, k: int|
        0 <= i < models.len() && 0 <= k < models[i].pipelines_view().len() && (
        #[trigger] models[i].pipelines_view()[k]) == p
}

/// Every pipeline reference of every registered model points at a live
/// arena slot.
pub open spec fn tables_live<M: Model>(models: Seq<NModel<M>>, arena: PipelineArena) -> bool {
    forall|i: int, k: int|
        0 <= i < models.len() && 0 <= k < models[i].pipelines_view().len() ==> arena.live(
            (#[trigger] models[i].pipelines_view()[k]) as int,
        )
}

/// Whether any registered model references arena slot `p`.
fn any_pipeline_ref<M: Model>(models: &ModelState<M>, p: usize) -> (r: bool)
    ensures
        r == slot_referenced(models.view_models(), p as int),
{
    let n = models.models.len();
    let mut i: usize = 0;
    while i < n
        invariant
            n == models.view_models().len(),
            0 <= i <= n,
            forall|a: int, k: int|
                0 <= a < i && 0 <= k < models.view_models()[a].pipelines_view().len() ==> (
                #[trigger] models.view_models()[a].pipelines_view()[k]) != p,
        decreases n - i,
    {
        let m = &models.models[i];
        let pn = m.pipelines.len();
        let mut k: usize = 0;
        while k < pn
            invariant
                n == models.view_models().len(),
                0 <= i < n,
                *m == models.view_models()[i as int],
                pn == m.pipelines_view().len(),
                0 <= k <= pn,
                forall|a: int, q: int|
                    0 <= a < i && 0 <= q < models.view_models()[a].pipelines_view().len() ==> (
                    #[trigger] models.view_models()[a].pipelines_view()[q]) != p,
                forall|q: int|
                    0 <= q < k ==> (#[trigger] m.pipelines_view()[q]) != p,
            decreases pn - k,
        {
            if m.pipelines[k] == p {
                proof {
                    assert(models.view_models()[i as int].pipelines_view()[k as int] == p);
                }
                return true;
            }
            k = k + 1;
        }
        i = i + 1;
    }
    false
}

/// A resolved draw call references only resources that exist: a live
/// arena slot, positions inside the model's lists, a registered mesh.
pub open spec fn draw_call_valid<M: Model>(
    d: DrawCall,
    table: NModel<M>,
    arena: PipelineArena,
    mesh_count: int,
) -> bool {
    match d {
        DrawCall::UsePipeline(p) => arena.live(p as int),
        DrawCall::UseVertexBuffer(_slot, i) => 0 <= i < table.buffers_view().len(),
        DrawCall::UseIndexBuffer(i, _format) => 0 <= i < table.buffers_view().len(),
        DrawCall::UseBindGroup(_slot, i) => 0 <= i < table.bind_groups_view().len(),
        DrawCall::DrawIndexed(_indices, _instances) => true,
        DrawCall::DrawMesh(mesh, _instances, extra) => {
            &&& 0 <= mesh < mesh_count
            &&& forall|j: int|
                0 <= j < extra@.len() ==> 0 <= (#[trigger] extra@[j])
                    < table.bind_groups_view().len()
        },
    }
}

/// Every call of a resolved draw sequence is valid.
pub open spec fn draw_calls_valid<M: Model>(
    calls: Seq<DrawCall>,
    table: NModel<M>,
    arena: PipelineArena,
    mesh_count: int,
) -> bool {
    forall|k: int| 0 <= k < calls.len() ==> draw_call_valid(#[trigger] calls[k], table, arena, mesh_count)
}

/// A successful interpretation only emits valid draw calls, provided the
/// model's pipeline references point at live arena slots.
pub proof fn lemma_interp_render_valid<M: Model>(
    cmds: Seq<NCommandRender>,
    table: NModel<M>,
    arena: PipelineArena,
    mesh_count: int,
    calls: Seq<DrawCall>,
)
    requires
        spec_interp_render(
            cmds,
            table.pipelines_view(),
            table.buffers_view().len() as int,
            table.bind_groups_view().len() as int,
            mesh_count,
        ) == Ok::<Seq<DrawCall>, CommandError>(calls),
        forall|k: int|
            0 <= k < table.pipelines_view().len() ==> arena.live(
                (#[trigger] table.pipelines_view()[k]) as int,
            ),
    ensures
        draw_calls_valid(calls, table, arena, mesh_count),
    decreases cmds.len(),
{
    let pipelines = table.pipelines_view();
    let nb = table.buffers_view().len() as int;
    let nbg = table.bind_groups_view().len() as int;
    if cmds.len() == 0 {
    } else {
        match spec_render_step(cmds[0], pipelines, nb, nbg, mesh_count) {
            Ok(d) => {
                match spec_interp_render(cmds.drop_first(), pipelines, nb, nbg, mesh_count) {
                    Ok(rest) => {
                        lemma_interp_render_valid(cmds.drop_first(), table, arena, mesh_count, rest);
                        assert(draw_call_valid(d, table, arena, mesh_count)) by {
                            match cmds[0] {
                                NCommandRender::DrawModelIndexed(mesh, _instances, extra) => {
                                    lemma_first_out_of_range_none(extra@, nbg);
                                },
                                _ => {},
                            }
                        }
                        assert(calls =~= seq![d] + rest);
                        assert forall|k: int| 0 <= k < calls.len() implies draw_call_valid(
                            #[trigger] calls[k],
                            table,
                            arena,
                            mesh_count,
                        ) by {
                            if k > 0 {
                                assert(calls[k] == rest[k - 1]);
                            }
                        }
                    },
                    Err(_) => {},
                }
            },
            Err(_) => {},
        }
    }
}

/// When the scan finds nothing out of range, everything is in range.
pub proof fn lemma_first_out_of_range_none(s: Seq<Index>, bound: int)
    requires
        spec_first_out_of_range(s, bound) is None,
    ensures
        forall|j: int| 0 <= j < s.len() ==> 0 <= (#[trigger] s[j]) < bound,
    decreases s.len(),
{
    if s.len() > 0 {
        lemma_first_out_of_range_none(s.drop_first(), bound);
        assert forall|j: int| 0 <= j < s.len() implies 0 <= (#[trigger] s[j]) < bound by {
            if j > 0 {
                assert(s[j] == s.drop_first()[j - 1]);
            }
        }
    }
}

/// How removing a model id transforms the scene: an unknown id changes
/// nothing; a known id removes the first model carrying it by swap-remove,
/// blanks every arena slot that model referenced and no survivor still
/// references, and reports the removal and each released slot.
pub open spec fn removal_transition<M: Model, A: Actor<M>>(
    pre: App<M, A>,
    post: App<M, A>,
    id: Id,
    r: Result<Vec<DeviceAction>, CommandError>,
) -> bool {
    &&& !pre.spec_models().spec_has_model(id) ==> post == pre && (r matches Ok(v) && v@.len()
        == 0)
    &&& pre.spec_models().spec_has_model(id) ==> exists|i: int|
        {
            &&& 0 <= i < pre.spec_models().view_models().len()
            &&& (#[trigger] pre.spec_models().view_models()[i]).spec_model().spec_id() == id
            &&& forall|j: int|
                0 <= j < i ==> (#[trigger] pre.spec_models().view_models()[j]).spec_model().spec_id() != id
            &&& post.spec_models().view_models() == pre.spec_models().view_models().update(
                i,
                pre.spec_models().view_models().last(),
            ).drop_last()
            &&& post.spec_arena().slots_view().len() == pre.spec_arena().slots_view().len()
            &&& forall|q: int|
                0 <= q < pre.spec_arena().slots_view().len()
                    ==> (#[trigger] post.spec_arena().slots_view()[q]) == (if in_seq(
                    pre.spec_models().view_models()[i].pipelines_view(),
                    q,
                ) && !slot_referenced(post.spec_models().view_models(), q) {
                    None
                } else {
                    pre.spec_arena().slots_view()[q]
                })
            &&& r matches Ok(v) && {
                &&& v@.len() >= 1
                &&& v@[0] == DeviceAction::ModelRemoved(id)
                &&& forall|k: int|
                    1 <= k < v@.len() ==> ((#[trigger] v@[k]) matches DeviceAction::FreePipeline(
                        q,
                    ) && in_seq(pre.spec_models().view_models()[i].pipelines_view(), q as int)
                        && !slot_referenced(post.spec_models().view_models(), q as int)
                        && pre.spec_arena().live(q as int))
                &&& forall|q: usize|
                    #![trigger in_seq(pre.spec_models().view_models()[i].pipelines_view(), q as int)]
                    in_seq(pre.spec_models().view_models()[i].pipelines_view(), q as int)
                        && !slot_referenced(post.spec_models().view_models(), q as int)
                        && pre.spec_arena().live(q as int) ==> v@.contains(
                        DeviceAction::FreePipeline(q),
                    )
            }
        }
}

/// How one update command transforms the scene, together with the
/// device actions or the error its interpretation returns.  This is the
/// whole contract of [`App::apply_update`]; the frame loop's run
/// ([`steps_ok`]) is built from it.
pub open spec fn update_transition<M: Model, A: Actor<M>>(
    pre: App<M, A>,
    post: App<M, A>,
    command: NCommandUpdate<M, A>,
    r: Result<Vec<DeviceAction>, CommandError>,
) -> bool {
    &&& post.inv()
    &&& post.spec_input() == pre.spec_input()
    &&& post.spec_meshes() == pre.spec_meshes()
    &&& match command {
        NCommandUpdate::CreateModel(m) => {
            &&& post.spec_projection() == pre.spec_projection()
            &&& post.spec_camera() == pre.spec_camera()
            &&& post.spec_actors() == pre.spec_actors()
            &&& setup_outcome_described(
                m,
                pre.spec_models().view_models(),
                r is Ok,
            )
            &&& r matches Ok(v) ==> {
                &&& post.spec_models().view_models().len() == pre.spec_models().view_models().len() + 1
                &&& post.spec_models().view_models().drop_last() == pre.spec_models().view_models()
                &&& post.spec_models().view_models().last().spec_model() == m
                &&& v@.len() == 1
                &&& v@[0] == DeviceAction::ModelAdded(m.spec_id())
            }
            &&& r is Err ==> post.spec_models() == pre.spec_models()
        },
        NCommandUpdate::CreateActor(a) => {
            &&& post.spec_projection() == pre.spec_projection()
            &&& post.spec_actors().view_actors() == pre.spec_actors().view_actors().push(a)
            &&& post.spec_models() == pre.spec_models()
            &&& post.spec_arena() == pre.spec_arena()
            &&& post.spec_camera() == pre.spec_camera()
            &&& r matches Ok(v) && v@.len() == 0
        },
        NCommandUpdate::RemoveModel(id) => {
            &&& post.spec_projection() == pre.spec_projection()
            &&& post.spec_actors() == pre.spec_actors()
            &&& post.spec_camera() == pre.spec_camera()
            &&& removal_transition(pre, post, id, r)
        },
        NCommandUpdate::RemoveActor(id) => {
            &&& post.spec_projection() == pre.spec_projection()
            &&& post.spec_models() == pre.spec_models()
            &&& post.spec_arena() == pre.spec_arena()
            &&& post.spec_camera() == pre.spec_camera()
            &&& r matches Ok(v) && v@.len() == 0
            &&& !(exists|i: int|
                0 <= i < pre.spec_actors().view_actors().len() && (#[trigger] pre.spec_actors().view_actors()[i]).spec_id() == id)
                ==> post.spec_actors() == pre.spec_actors()
            &&& (exists|i: int|
                0 <= i < pre.spec_actors().view_actors().len() && (#[trigger] pre.spec_actors().view_actors()[i]).spec_id() == id) ==> exists|i: int|
                {
                    &&& 0 <= i < pre.spec_actors().view_actors().len()
                    &&& (#[trigger] pre.spec_actors().view_actors()[i]).spec_id()
                        == id
                    &&& forall|j: int|
                        0 <= j < i ==> (#[trigger] pre.spec_actors().view_actors()[j]).spec_id() != id
                    &&& post.spec_actors().view_actors() == pre.spec_actors().view_actors().update(
                        i,
                        pre.spec_actors().view_actors().last(),
                    ).drop_last()
                }
        },
        NCommandUpdate::MoveCamera(offset) => {
            &&& post.spec_projection() == pre.spec_projection()
            &&& post.spec_models() == pre.spec_models()
            &&& post.spec_actors() == pre.spec_actors()
            &&& post.spec_arena() == pre.spec_arena()
            &&& r matches Ok(v) && v@.len() == 0
            &&& post.spec_camera().spec_position().x == crate::math::clamp_coord(
                pre.spec_camera().spec_position().x + offset.x,
            )
            &&& post.spec_camera().spec_position().y == crate::math::clamp_coord(
                pre.spec_camera().spec_position().y + offset.y,
            )
            &&& post.spec_camera().spec_position().z == crate::math::clamp_coord(
                pre.spec_camera().spec_position().z + offset.z,
            )
            &&& post.spec_camera().spec_yaw() == pre.spec_camera().spec_yaw()
            &&& post.spec_camera().spec_pitch() == pre.spec_camera().spec_pitch()
        },
        NCommandUpdate::RotateCamera(dyaw, dpitch) => {
            &&& post.spec_projection() == pre.spec_projection()
            &&& post.spec_models() == pre.spec_models()
            &&& post.spec_actors() == pre.spec_actors()
            &&& post.spec_arena() == pre.spec_arena()
            &&& r matches Ok(v) && v@.len() == 0
            &&& post.spec_camera().spec_yaw() == crate::math::clamp_coord(
                pre.spec_camera().spec_yaw() + dyaw,
            )
            &&& post.spec_camera().spec_pitch() == crate::camera::clamp_pitch(
                pre.spec_camera().spec_pitch() + dpitch,
            )
            &&& post.spec_camera().spec_position() == pre.spec_camera().spec_position()
        },
        NCommandUpdate::FovCamera(f) => {
            &&& post.spec_projection().spec_fov_y() == f
            &&& post.spec_projection().spec_aspect() == pre.spec_projection().spec_aspect()
            &&& post.spec_projection().spec_z_near() == pre.spec_projection().spec_z_near()
            &&& post.spec_projection().spec_z_far() == pre.spec_projection().spec_z_far()
            &&& post.spec_models() == pre.spec_models()
            &&& post.spec_actors() == pre.spec_actors()
            &&& post.spec_arena() == pre.spec_arena()
            &&& post.spec_camera() == pre.spec_camera()
            &&& r matches Ok(v) && v@.len() == 0
        },
        NCommandUpdate::UpdateBuffer(id, idx) => {
            &&& post.spec_projection() == pre.spec_projection()
            &&& post.spec_camera() == pre.spec_camera()
            &&& post.spec_models() == pre.spec_models()
            &&& post.spec_actors() == pre.spec_actors()
            &&& post.spec_arena() == pre.spec_arena()
            &&& !pre.spec_models().spec_has_model(id) ==> r == Err::<
                Vec<DeviceAction>,
                CommandError,
            >(CommandError::MissingModel(id))
            &&& pre.spec_models().spec_has_model(id) ==> exists|i: int|
                {
                    &&& 0 <= i < pre.spec_models().view_models().len()
                    &&& (#[trigger] pre.spec_models().view_models()[i]).spec_model().spec_id() == id
                    &&& forall|j: int|
                        0 <= j < i ==> (#[trigger] pre.spec_models().view_models()[j]).spec_model().spec_id() != id
                    &&& idx < pre.spec_models().view_models()[i].buffers_view().len()
                        ==> (r matches Ok(v) && v@.len() == 1 && v@[0]
                        == DeviceAction::RefreshBuffer(id, idx))
                    &&& idx >= pre.spec_models().view_models()[i].buffers_view().len() ==> r == Err::<
                        Vec<DeviceAction>,
                        CommandError,
                    >(CommandError::BufferIndex(idx))
                }
        },
    }
}

/// A run of one command buffer: every command applied in emission order,
/// each step succeeding.
pub open spec fn steps_ok<M: Model, A: Actor<M>>(
    pre: App<M, A>,
    cmds: Seq<NCommandUpdate<M, A>>,
    post: App<M, A>,
) -> bool
    decreases cmds.len(),
{
    if cmds.len() == 0 {
        post == pre
    } else {
        exists|mid: App<M, A>, acts: Vec<DeviceAction>|
            #[trigger] update_transition(pre, mid, cmds[0], Ok(acts)) && steps_ok(
                mid,
                cmds.drop_first(),
                post,
            )
    }
}

/// A run of several command buffers, strictly in order, every command
/// succeeding.
pub open spec fn buffers_ok<M: Model, A: Actor<M>>(
    pre: App<M, A>,
    buffers: Seq<Seq<NCommandUpdate<M, A>>>,
    post: App<M, A>,
) -> bool
    decreases buffers.len(),
{
    if buffers.len() == 0 {
        post == pre
    } else {
        exists|mid: App<M, A>|
            #[trigger] steps_ok(pre, buffers[0], mid) && buffers_ok(
                mid,
                buffers.drop_first(),
                post,
            )
    }
}

/// Extending a successful run by one more succeeding command.
proof fn lemma_steps_ok_snoc<M: Model, A: Actor<M>>(
    pre: App<M, A>,
    cmds: Seq<NCommandUpdate<M, A>>,
    mid: App<M, A>,
    c: NCommandUpdate<M, A>,
    post: App<M, A>,
    acts: Vec<DeviceAction>,
)
    requires
        steps_ok(pre, cmds, mid),
        update_transition(mid, post, c, Ok(acts)),
    ensures
        steps_ok(pre, cmds.push(c), post),
    decreases cmds.len(),
{
    if cmds.len() == 0 {
        assert(cmds.push(c)[0] == c);
        assert(cmds.push(c).drop_first() =~= Seq::<NCommandUpdate<M, A>>::empty());
        assert(steps_ok(post, cmds.push(c).drop_first(), post));
        assert(update_transition(pre, post, cmds.push(c)[0], Ok(acts)));
        assert(steps_ok(pre, cmds.push(c), post));
    } else {
        assert(cmds.push(c).drop_first() =~= cmds.drop_first().push(c));
        let (m1, a1) = choose|m: App<M, A>, a: Vec<DeviceAction>|
            #[trigger] update_transition(pre, m, cmds[0], Ok(a)) && steps_ok(
                m,
                cmds.drop_first(),
                mid,
            );
        lemma_steps_ok_snoc(m1, cmds.drop_first(), mid, c, post, acts);
        assert(cmds.push(c)[0] == cmds[0]);
        assert(update_transition(pre, m1, cmds.push(c)[0], Ok(a1)));
        assert(steps_ok(pre, cmds.push(c), post));
    }
}

/// Extending a successful multi-buffer run by one more succeeding buffer.
proof fn lemma_buffers_ok_snoc<M: Model, A: Actor<M>>(
    pre: App<M, A>,
    buffers: Seq<Seq<NCommandUpdate<M, A>>>,
    mid: App<M, A>,
    b: Seq<NCommandUpdate<M, A>>,
    post: App<M, A>,
)
    requires
        buffers_ok(pre, buffers, mid),
        steps_ok(mid, b, post),
    ensures
        buffers_ok(pre, buffers.push(b), post),
    decreases buffers.len(),
{
    if buffers.len() == 0 {
        assert(buffers.push(b)[0] == b);
        assert(buffers.push(b).drop_first() =~= Seq::<Seq<NCommandUpdate<M, A>>>::empty());
        assert(buffers_ok(post, buffers.push(b).drop_first(), post));
        assert(steps_ok(pre, buffers.push(b)[0], post));
        assert(buffers_ok(pre, buffers.push(b), post));
    } else {
        assert(buffers.push(b).drop_first() =~= buffers.drop_first().push(b));
        let m1 = choose|m: App<M, A>|
            #[trigger] steps_ok(pre, buffers[0], m) && buffers_ok(m, buffers.drop_first(), mid);
        lemma_buffers_ok_snoc(m1, buffers.drop_first(), mid, b, post);
        assert(buffers.push(b)[0] == buffers[0]);
        assert(buffers_ok(pre, buffers.push(b), post));
    }
}

/// The actors after the collection phase: each stepped exactly once on
/// the same pre-frame input snapshot and orientation sample.
pub open spec fn stepped_actor_seq<M: Model, A: Actor<M>>(
    pre: App<M, A>,
    dt_ms: u64,
    trig: CameraTrig,
) -> Seq<A> {
    Seq::new(
        pre.spec_actors().view_actors().len(),
        |k: int| pre.spec_actors().view_actors()[k].spec_update(dt_ms, pre.spec_input(), trig).0,
    )
}

/// The command buffers the actors emit during the collection phase, in
/// actor registry order.
pub open spec fn emitted_buffer_seq<M: Model, A: Actor<M>>(
    pre: App<M, A>,
    dt_ms: u64,
    trig: CameraTrig,
) -> Seq<Seq<NCommandUpdate<M, A>>> {
    Seq::new(
        pre.spec_actors().view_actors().len(),
        |k: int| pre.spec_actors().view_actors()[k].spec_update(dt_ms, pre.spec_input(), trig).1,
    )
}

/// `b` is the scene `a` with its actor list replaced by `actors`.
pub open spec fn same_scene_with_actors<M: Model, A: Actor<M>>(
    a: App<M, A>,
    b: App<M, A>,
    actors: Seq<A>,
) -> bool {
    &&& b.spec_actors().view_actors() == actors
    &&& b.spec_models() == a.spec_models()
    &&& b.spec_camera() == a.spec_camera()
    &&& b.spec_arena() == a.spec_arena()
    &&& b.spec_input() == a.spec_input()
    &&& b.spec_projection() == a.spec_projection()
    &&& b.spec_meshes() == a.spec_meshes()
}

/// Everything one successful update phase does, end to end: every actor
/// stepped exactly once on the same pre-frame input snapshot; all emitted
/// buffers collected before any command is applied (collect-then-apply,
/// never interleaved); the buffers then applied strictly in actor
/// registry order with the commands of each buffer in emission order,
/// every step an [`update_transition`]; and finally the input snapshot's
/// frame closed.
pub open spec fn frame_update_described<M: Model, A: Actor<M>>(
    pre: App<M, A>,
    post: App<M, A>,
    dt_ms: u64,
    trig: CameraTrig,
) -> bool {
    exists|begun: App<M, A>, applied: App<M, A>|
        {
            &&& same_scene_with_actors(pre, begun, stepped_actor_seq(pre, dt_ms, trig))
            &&& #[trigger] buffers_ok(begun, emitted_buffer_seq(pre, dt_ms, trig), applied)
            &&& post.spec_models() == applied.spec_models()
            &&& post.spec_actors() == applied.spec_actors()
            &&& post.spec_camera() == applied.spec_camera()
            &&& post.spec_arena() == applied.spec_arena()
            &&& post.spec_projection() == applied.spec_projection()
            &&& post.spec_meshes() == applied.spec_meshes()
            &&& crate::input::frame_closed(applied.spec_input(), post.spec_input())
        }
}

/// A failing update phase names its culprit: the scene is the stepped
/// scene (every actor updated once on the pre-frame input) with some
/// full buffers and then a prefix of one buffer applied in emission
/// order, and the very next emitted command's transition yields exactly
/// this error.  Contrapositively, a frame whose emitted commands all
/// interpret is owed success.
pub open spec fn frame_update_failed<M: Model, A: Actor<M>>(
    pre: App<M, A>,
    post: App<M, A>,
    dt_ms: u64,
    trig: CameraTrig,
    e: CommandError,
) -> bool {
    exists|begun: App<M, A>, mid: App<M, A>, fail_pre: App<M, A>, k: int, j: int|
        #![trigger buffers_ok(begun, emitted_buffer_seq(pre, dt_ms, trig).take(k), mid), steps_ok(
            mid,
            emitted_buffer_seq(pre, dt_ms, trig)[k].take(j),
            fail_pre,
        )]
        {
            &&& same_scene_with_actors(pre, begun, stepped_actor_seq(pre, dt_ms, trig))
            &&& 0 <= k < emitted_buffer_seq(pre, dt_ms, trig).len()
            &&& buffers_ok(begun, emitted_buffer_seq(pre, dt_ms, trig).take(k), mid)
            &&& 0 <= j < emitted_buffer_seq(pre, dt_ms, trig)[k].len()
            &&& steps_ok(mid, emitted_buffer_seq(pre, dt_ms, trig)[k].take(j), fail_pre)
            &&& update_transition(
                fail_pre,
                post,
                emitted_buffer_seq(pre, dt_ms, trig)[k][j],
                Err::<Vec<DeviceAction>, CommandError>(e),
            )
        }
}

/// `calls` is the interpretation of some render program the model of
/// this resource table admits: there are commands satisfying the model's
/// own `render_wf` whose in-order interpretation against the table is
/// exactly this draw sequence.
pub open spec fn draw_program_interpreted<M: Model>(
    table: NModel<M>,
    mesh_count: int,
    calls: Seq<DrawCall>,
) -> bool {
    exists|cmds: Seq<NCommandRender>|
        #[trigger] table.spec_model().render_wf(cmds) && spec_interp_render(
            cmds,
            table.pipelines_view(),
            table.buffers_view().len() as int,
            table.bind_groups_view().len() as int,
            mesh_count,
        ) == Ok::<Seq<DrawCall>, CommandError>(calls)
}

/// A failing render phase names its culprit: some visible model's
/// emitted program fails to interpret against that model's own resource
/// table, with exactly this error.  Contrapositively, when every buffer
/// the visible models' `render_wf` admits interprets cleanly, the phase
/// is owed success.
pub open spec fn render_failure_witnessed<M: Model, A: Actor<M>>(
    app: App<M, A>,
    view_proj: Mat4,
    e: CommandError,
) -> bool {
    exists|i: int, cmds: Seq<NCommandRender>|
        {
            &&& 0 <= i < app.spec_models().view_models().len()
            &&& app.spec_visible(FrustumCuller::spec_from_matrix(view_proj), i)
            &&& #[trigger] app.spec_models().view_models()[i].spec_model().render_wf(cmds)
            &&& spec_interp_render(
                cmds,
                app.spec_models().view_models()[i].pipelines_view(),
                app.spec_models().view_models()[i].buffers_view().len() as int,
                app.spec_models().view_models()[i].bind_groups_view().len() as int,
                app.spec_meshes().len() as int,
            ) == Err::<Seq<DrawCall>, CommandError>(e)
        }
}

/// Some draw of the sequence belongs to registry index `i`.
pub open spec fn draws_cover_index(s: Seq<ModelDraw>, i: usize) -> bool {
    exists|k: int| 0 <= k < s.len() && (#[trigger] s[k]).model_index == i
}

/// The draw program of one surviving model: its id and its resolved draw
/// calls, in the model's own command order.
pub struct ModelDraw {
    pub model_index: usize,
    pub model_id: Id,
    pub calls: Vec<DrawCall>,
}

/// The orchestrator's verified core: the registries, the camera and
/// projection, the per-frame input snapshot, the shared pipeline arena,
/// and the names of the registered meshes.
pub struct App<M: Model, A: Actor<M>> {
    actors: ActorState<A>,
    models: ModelState<M>,
    input_state: InputState,
    camera: Camera,
    projection: Projection,
    pipelines: PipelineArena,
    meshes: Vec<String>,
}

impl<M: Model, A: Actor<M>> App<M, A> {
    pub closed spec fn spec_actors(self) -> ActorState<A> {
        self.actors
    }

    pub closed spec fn spec_models(self) -> ModelState<M> {
        self.models
    }

    pub closed spec fn spec_input(self) -> InputState {
        self.input_state
    }

    pub closed spec fn spec_camera(self) -> Camera {
        self.camera
    }

    pub closed spec fn spec_projection(self) -> Projection {
        self.projection
    }

    pub closed spec fn spec_arena(self) -> PipelineArena {
        self.pipelines
    }

    pub closed spec fn spec_meshes(self) -> Seq<String> {
        self.meshes@
    }

    /// The orchestrator's standing state invariant: registered models are
    /// coherent, their pipeline references point at live arena slots, and
    /// the camera, projection and input snapshot are in range.
    pub open spec fn inv(self) -> bool {
        &&& self.spec_models().inv()
        &&& tables_live(self.spec_models().view_models(), self.spec_arena())
        &&& self.spec_camera().wf()
        &&& self.spec_projection().wf()
        &&& self.spec_input().wf()
    }

    /// A fresh scene around a camera and a projection.
    pub fn new(camera: Camera, projection: Projection) -> (r: App<M, A>)
        requires
            camera.wf(),
            projection.wf(),
        ensures
            r.inv(),
            r.spec_camera() == camera,
            r.spec_projection() == projection,
            r.spec_actors().view_actors() == Seq::<A>::empty(),
            r.spec_models().view_models() == Seq::<NModel<M>>::empty(),
            r.spec_arena().slots_view() == Seq::<Option<PipelineDesc>>::empty(),
            r.spec_meshes() == Seq::<String>::empty(),
    {
        App {
            actors: ActorState::new(),
            models: ModelState::new(),
            input_state: InputState::new(),
            camera,
            projection,
            pipelines: PipelineArena::new(),
            meshes: Vec::new(),
        }
    }

    pub fn camera(&self) -> (r: &Camera)
        ensures
            *r == self.spec_camera(),
    {
        &self.camera
    }

    pub fn projection(&self) -> (r: &Projection)
        ensures
            *r == self.spec_projection(),
    {
        &self.projection
    }

    pub fn input_state(&self) -> (r: &InputState)
        ensures
            *r == self.spec_input(),
    {
        &self.input_state
    }

    pub fn models(&self) -> (r: &ModelState<M>)
        ensures
            *r == self.spec_models(),
    {
        &self.models
    }

    pub fn pipeline_arena(&self) -> (r: &PipelineArena)
        ensures
            *r == self.spec_arena(),
    {
        &self.pipelines
    }

    pub fn mesh_count(&self) -> (r: usize)
        ensures
            r == self.spec_meshes().len(),
    {
        self.meshes.len()
    }

    /// Record a named mesh asset; the device layer loads it.  Render
    /// commands reference it by the position returned.
    pub fn register_model(&mut self, name: String) -> (r: usize)
        requires
            old(self).inv(),
        ensures
            final (self).inv(),
            r == old(self).spec_meshes().len(),
            final (self).spec_meshes() == old(self).spec_meshes().push(name),
            final (self).spec_models() == old(self).spec_models(),
            final (self).spec_actors() == old(self).spec_actors(),
            final (self).spec_arena() == old(self).spec_arena(),
            final (self).spec_camera() == old(self).spec_camera(),
            final (self).spec_projection() == old(self).spec_projection(),
            final (self).spec_input() == old(self).spec_input(),
    {
        let r = self.meshes.len();
        self.meshes.push(name);
        r
    }

    /// Fold one window event into the input snapshot.
    pub fn input(&mut self, event: &InputEvent) -> (r: bool)
        requires
            old(self).inv(),
            event.bounded(),
        ensures
            final (self).inv(),
            r == true,
            crate::input::input_transition(old(self).spec_input(), final (self).spec_input(), *event),
            final (self).spec_models() == old(self).spec_models(),
            final (self).spec_actors() == old(self).spec_actors(),
            final (self).spec_arena() == old(self).spec_arena(),
            final (self).spec_camera() == old(self).spec_camera(),
            final (self).spec_projection() == old(self).spec_projection(),
            final (self).spec_meshes() == old(self).spec_meshes(),
    {
        self.input_state.input(event)
    }

    /// React to a surface resize by recomputing the projection's aspect
    /// ratio; a degenerate size changes nothing.
    pub fn resize(&mut self, width: u32, height: u32)
        requires
            old(self).inv(),
        ensures
            final (self).inv(),
            width > 0 && height > 0 ==> final (self).spec_projection().spec_aspect()
                == Projection::spec_aspect_of(width, height),
            !(width > 0 && height > 0) ==> *final (self) == *old(self),
            final (self).spec_projection().spec_fov_y() == old(
                self,
            ).spec_projection().spec_fov_y(),
            final (self).spec_projection().spec_z_near() == old(
                self,
            ).spec_projection().spec_z_near(),
            final (self).spec_projection().spec_z_far() == old(
                self,
            ).spec_projection().spec_z_far(),
            final (self).spec_models() == old(self).spec_models(),
            final (self).spec_actors() == old(self).spec_actors(),
            final (self).spec_camera() == old(self).spec_camera(),
            final (self).spec_arena() == old(self).spec_arena(),
            final (self).spec_input() == old(self).spec_input(),
            final (self).spec_meshes() == old(self).spec_meshes(),
    {
        if width > 0 && height > 0 {
            self.projection.resize(width, height);
        }
    }

    /// Register an actor.
    pub fn add_actor(&mut self, actor: A)
        requires
            old(self).inv(),
        ensures
            final (self).inv(),
            final (self).spec_actors().view_actors() == old(self).spec_actors().view_actors().push(
                actor,
            ),
            final (self).spec_models() == old(self).spec_models(),
            final (self).spec_arena() == old(self).spec_arena(),
            final (self).spec_camera() == old(self).spec_camera(),
            final (self).spec_projection() == old(self).spec_projection(),
            final (self).spec_input() == old(self).spec_input(),
            final (self).spec_meshes() == old(self).spec_meshes(),
    {
        self.actors.push(actor);
    }

    /// Interpret a model's setup commands and register it.  The model's
    /// resource table is built command by command; a command referencing a
    /// position not declared yet is an error, and the model is then not
    /// registered (though pipeline slots allocated before the failure
    /// remain in the arena, unowned).
    pub fn add_model(&mut self, model: M) -> (r: Result<(), CommandError>)
        requires
            old(self).inv(),
            model.inv(),
        ensures
            final (self).inv(),
            final (self).spec_actors() == old(self).spec_actors(),
            final (self).spec_camera() == old(self).spec_camera(),
            final (self).spec_projection() == old(self).spec_projection(),
            final (self).spec_input() == old(self).spec_input(),
            final (self).spec_meshes() == old(self).spec_meshes(),
            old(self).spec_arena().slots_view().len() <= final (self).spec_arena().slots_view().len(),
            forall|p: int|
                0 <= p < old(self).spec_arena().slots_view().len()
                    ==> final (self).spec_arena().slots_view()[p] == old(
                    self,
                ).spec_arena().slots_view()[p],
            r is Ok ==> {
                &&& final (self).spec_models().view_models().len() == old(
                    self,
                ).spec_models().view_models().len() + 1
                &&& final (self).spec_models().view_models().drop_last() == old(
                    self,
                ).spec_models().view_models()
                &&& final (self).spec_models().view_models().last().spec_model() == model
            },
            r is Err ==> final (self).spec_models() == old(self).spec_models(),
            setup_outcome_described(model, old(self).spec_models().view_models(), r is Ok),
    {
        let setup_buffer = model.setup();
        let ghost cs = setup_buffer@;
        let mut cmds = setup_buffer.iter_command();
        let ghost m0 = model;
        let mut n_model = NModel::new(model);

        while cmds.len() > 0
            invariant
                self.actors == old(self).actors,
                self.models == old(self).models,
                self.input_state == old(self).input_state,
                self.camera == old(self).camera,
                self.projection == old(self).projection,
                self.meshes@ == old(self).meshes@,
                old(self).inv(),
                old(self).spec_arena().slots_view().len() <= self.pipelines.slots_view().len(),
                forall|p: int|
                    0 <= p < old(self).spec_arena().slots_view().len() ==> self.pipelines.slots_view()[p]
                        == old(self).spec_arena().slots_view()[p],
                tables_live(self.models.view_models(), self.pipelines),
                forall|k: int|
                    0 <= k < n_model.pipelines_view().len() ==> self.pipelines.live(
                        (#[trigger] n_model.pipelines_view()[k]) as int,
                    ),
                n_model.spec_model() == m0,
                m0 == model,
                m0.inv(),
                self.models.inv(),
                m0.setup_wf(cs),
                spec_setup_ok(cs, old(self).spec_models().view_models(), 0, 0)
                    == spec_setup_ok(
                    cmds@,
                    old(self).spec_models().view_models(),
                    n_model.buffers_view().len() as int,
                    n_model.bind_groups_view().len() as int,
                ),
            decreases cmds@.len(),
        {
            let ghost cmds0 = cmds@;
            let c = cmds.remove(0);
            let ghost c0 = c;
            let ghost arena_before = self.pipelines;
            let ghost nm_before = n_model;
            let r = apply_setup_command(c, &mut n_model, &mut self.pipelines, &self.models);
            proof {
                let before = arena_before.slots_view();
                let after = self.pipelines.slots_view();
                assert forall|p: int| 0 <= p < before.len() implies after[p] == before[p] by {
                    if after.len() > before.len() {
                        assert(after.drop_last() == before);
                        assert(after.drop_last()[p] == after[p]);
                    }
                }
                assert forall|k: int|
                    0 <= k < n_model.pipelines_view().len() implies self.pipelines.live(
                    (#[trigger] n_model.pipelines_view()[k]) as int,
                ) by {
                    if k < nm_before.pipelines_view().len() && n_model.pipelines_view()[k]
                        == nm_before.pipelines_view()[k] {
                        assert(arena_before.live(nm_before.pipelines_view()[k] as int));
                        assert(self.pipelines.slots_view()[nm_before.pipelines_view()[k] as int]
                            == arena_before.slots_view()[nm_before.pipelines_view()[k] as int]);
                    }
                }
                assert forall|i: int, k: int|
                    0 <= i < self.models.view_models().len() && 0 <= k
                        < self.models.view_models()[i].pipelines_view().len() implies self.pipelines.live(
                    (#[trigger] self.models.view_models()[i].pipelines_view()[k]) as int,
                ) by {
                    assert(arena_before.live(
                        self.models.view_models()[i].pipelines_view()[k] as int,
                    ));
                }
                let others0 = old(self).spec_models().view_models();
                let nb0 = nm_before.buffers_view().len() as int;
                let nbg0 = nm_before.bind_groups_view().len() as int;
                assert(cmds0[0] == c0);
                assert(cmds0.drop_first() =~= cmds@);
                assert(others0 == self.models.view_models());
                assert(spec_setup_ok(cmds0, others0, nb0, nbg0) == (r is Ok && spec_setup_ok(
                    cmds@,
                    others0,
                    n_model.buffers_view().len() as int,
                    n_model.bind_groups_view().len() as int,
                )));
            }
            if let Err(e) = r {
                proof {
                    assert(spec_setup_ok(cs, old(self).spec_models().view_models(), 0, 0)
                        == false);
                    assert(setup_outcome_described(
                        m0,
                        old(self).spec_models().view_models(),
                        false,
                    ));
                }
                return Err(e);
            }
        }
        proof {
            assert(cmds@ =~= Seq::<NCommandSetup>::empty());
            assert(spec_setup_ok(
                Seq::<NCommandSetup>::empty(),
                old(self).spec_models().view_models(),
                n_model.buffers_view().len() as int,
                n_model.bind_groups_view().len() as int,
            ));
            assert(setup_outcome_described(m0, old(self).spec_models().view_models(), true));
        }
        self.models.push(n_model);
        proof {
            let ms = self.models.view_models();
            assert forall|i: int, k: int|
                0 <= i < ms.len() && 0 <= k < ms[i].pipelines_view().len() implies self.pipelines.live(
                (#[trigger] ms[i].pipelines_view()[k]) as int,
            ) by {
                if i < ms.len() - 1 {
                    assert(ms[i] == old(self).spec_models().view_models()[i]);
                }
            }
        }
        Ok(())
    }

    /// Index of the first registered actor with this id.
    fn find_actor(&self, id: u128) -> (r: Option<usize>)
        ensures
            match r {
                Some(i) => {
                    &&& i < self.spec_actors().view_actors().len()
                    &&& self.spec_actors().view_actors()[i as int].spec_id() == id
                    &&& forall|j: int|
                        0 <= j < i ==> (#[trigger] self.spec_actors().view_actors()[j]).spec_id()
                            != id
                },
                None => !(exists|i: int|
                    0 <= i < self.spec_actors().view_actors().len() && (
                    #[trigger] self.spec_actors().view_actors()[i]).spec_id() == id),
            },
    {
        let n = self.actors.actors.len();
        let mut i: usize = 0;
        while i < n
            invariant
                n == self.actors.view_actors().len(),
                0 <= i <= n,
                forall|j: int|
                    0 <= j < i ==> (#[trigger] self.actors.view_actors()[j]).spec_id() != id,
            decreases n - i,
        {
            if self.actors.actors[i].id() == id {
                proof {
                    assert(self.spec_actors().view_actors()[i as int].spec_id() == id);
                }
                return Some(i);
            }
            i = i + 1;
        }
        None
    }

    /// Remove the first registered model with this id, release every
    /// pipeline slot it owned that no surviving model still references,
    /// and report the effects.  An id that is not registered is a no-op.
    fn remove_model_by_id(&mut self, id: Id) -> (r: Result<Vec<DeviceAction>, CommandError>)
        requires
            old(self).inv(),
        ensures
            final (self).inv(),
            final (self).spec_projection() == old(self).spec_projection(),
            final (self).spec_input() == old(self).spec_input(),
            final (self).spec_meshes() == old(self).spec_meshes(),
            final (self).spec_actors() == old(self).spec_actors(),
            final (self).spec_camera() == old(self).spec_camera(),
            removal_transition(*old(self), *final (self), id, r),
    {
        match self.models.find_model(id) {
            None => Ok(Vec::new()),
            Some(i) => {
                let removed_slots = copy_indices(self.models.models[i].pipelines());
                self.models.remove(i);
                let ghost survivors = self.models.view_models();
                let ghost slots0 = self.pipelines.slots_view();
                let mut actions: Vec<DeviceAction> = Vec::new();
                actions.push(DeviceAction::ModelRemoved(id));
                let n = removed_slots.len();
                let mut j: usize = 0;
                while j < n
                    invariant
                        old(self).inv(),
                        n == removed_slots@.len(),
                        0 <= j <= n,
                        self.actors == old(self).actors,
                        self.input_state == old(self).input_state,
                        self.camera == old(self).camera,
                        self.projection == old(self).projection,
                        self.meshes@ == old(self).meshes@,
                        survivors == self.models.view_models(),
                        slots0 == old(self).spec_arena().slots_view(),
                        removed_slots@ == old(
                            self,
                        ).spec_models().view_models()[i as int].pipelines_view(),
                        i < old(self).spec_models().view_models().len(),
                        forall|k: int|
                            0 <= k < removed_slots@.len() ==> ((#[trigger] removed_slots@[k]) as int)
                                < slots0.len(),
                        self.models.inv(),
                        self.pipelines.slots_view().len() == slots0.len(),
                        forall|q: int|
                            0 <= q < slots0.len() ==> (#[trigger] self.pipelines.slots_view()[q])
                                == (if in_seq(removed_slots@.take(j as int), q) && !slot_referenced(
                                survivors,
                                q,
                            ) {
                                None
                            } else {
                                slots0[q]
                            }),
                        actions@.len() >= 1,
                        actions@[0] == DeviceAction::ModelRemoved(id),
                        forall|k: int|
                            1 <= k < actions@.len() ==> ((#[trigger] actions@[k]) matches
                                DeviceAction::FreePipeline(q) && in_seq(
                                removed_slots@.take(j as int),
                                q as int,
                            ) && !slot_referenced(survivors, q as int) && old(
                                self,
                            ).spec_arena().live(q as int)),
                        forall|q: usize|
                            in_seq(#[trigger] removed_slots@.take(j as int), q as int)
                                && !slot_referenced(survivors, q as int) && old(
                                self,
                            ).spec_arena().live(q as int) ==> actions@.contains(
                                DeviceAction::FreePipeline(q),
                            ),
                    decreases n - j,
                {
                    let p = removed_slots[j];
                    let ghost slots_pre = self.pipelines.slots_view();
                    let ghost actions_pre = actions@;
                    let live_now = self.pipelines.is_live(p);
                    let referenced = any_pipeline_ref(&self.models, p);
                    if live_now && !referenced {
                        self.pipelines.free(p);
                        actions.push(DeviceAction::FreePipeline(p));
                    }
                    proof {
                        let prefix = removed_slots@.take(j as int);
                        let prefix1 = removed_slots@.take(j + 1 as int);
                        assert(prefix1 =~= prefix.push(removed_slots@[j as int]));
                        assert(prefix1[j as int] == p);
                        // membership in the longer prefix differs only at p
                        assert forall|q: int|
                            in_seq(prefix1, q) && !in_seq(prefix, q) implies q == p as int by {
                            let w = choose|k: int| 0 <= k < prefix1.len() && (#[trigger] prefix1[k]) == q;
                            if w < j {
                                assert(prefix[w] == q);
                            }
                        }
                        assert forall|q: int| in_seq(prefix, q) implies in_seq(prefix1, q) by {
                            let w = choose|k: int| 0 <= k < prefix.len() && (#[trigger] prefix[k]) == q;
                            assert(prefix1[w] == q);
                        }
                        assert(in_seq(prefix1, p as int)) by {
                            assert(prefix1[j as int] == p);
                        }
                        assert forall|q: int|
                            0 <= q < slots0.len() implies (#[trigger] self.pipelines.slots_view()[q])
                            == (if in_seq(prefix1, q) && !slot_referenced(survivors, q) {
                            None
                        } else {
                            slots0[q]
                        }) by {
                            if q == p as int {
                                if live_now && !referenced {
                                    assert(self.pipelines.slots_view()[q] is None);
                                } else if !live_now {
                                    assert(slots_pre[q] is None);
                                    assert(self.pipelines.slots_view()[q] == slots_pre[q]);
                                    if !slot_referenced(survivors, q) && !in_seq(prefix, q) {
                                        assert(slots_pre[q] == slots0[q]);
                                    }
                                } else {
                                    assert(self.pipelines.slots_view()[q] == slots_pre[q]);
                                    assert(slots_pre[q] == slots0[q]);
                                }
                            } else {
                                assert(self.pipelines.slots_view()[q] == slots_pre[q]);
                                assert(in_seq(prefix1, q) == in_seq(prefix, q));
                            }
                        }
                        assert forall|q: usize|
                            #[trigger] in_seq(prefix1, q as int) && !slot_referenced(
                                survivors,
                                q as int,
                            ) && old(self).spec_arena().live(q as int) implies actions@.contains(
                            DeviceAction::FreePipeline(q),
                        ) by {
                            if in_seq(prefix, q as int) {
                                assert(actions_pre.contains(DeviceAction::FreePipeline(q)));
                                let w = choose|k: int|
                                    0 <= k < actions_pre.len() && (#[trigger] actions_pre[k])
                                        == DeviceAction::FreePipeline(q);
                                assert(actions@[w] == DeviceAction::FreePipeline(q));
                            } else {
                                assert(q == p);
                                if live_now && !referenced {
                                    assert(actions@.last() == DeviceAction::FreePipeline(p));
                                } else if !live_now {
                                    // a dead slot that was live at entry must have been
                                    // freed by an earlier duplicate in the list
                                    assert(slots_pre[p as int] is None);
                                    assert(slots0[p as int] is Some);
                                    assert(in_seq(prefix, p as int));
                                } else {
                                    assert(slot_referenced(survivors, q as int));
                                }
                            }
                        }
                        assert forall|k: int|
                            1 <= k < actions@.len() implies ((#[trigger] actions@[k]) matches
                                DeviceAction::FreePipeline(q) && in_seq(prefix1, q as int)
                                && !slot_referenced(survivors, q as int) && old(
                                self,
                            ).spec_arena().live(q as int)) by {
                            if k < actions_pre.len() {
                                assert(actions@[k] == actions_pre[k]);
                            } else {
                                assert(actions@[k] == DeviceAction::FreePipeline(p));
                                assert(live_now && !referenced);
                                assert(slots_pre[p as int] is Some);
                                assert(slots_pre[p as int] == slots0[p as int]) by {
                                    if in_seq(prefix, p as int) && !slot_referenced(
                                        survivors,
                                        p as int,
                                    ) {
                                        assert(slots_pre[p as int] is None);
                                    }
                                }
                            }
                        }
                    }
                    j = j + 1;
                }
                proof {
                    assert(removed_slots@.take(n as int) =~= removed_slots@);
                    assert forall|a: int, k: int|
                        0 <= a < survivors.len() && 0 <= k
                            < survivors[a].pipelines_view().len() implies self.pipelines.live(
                        (#[trigger] survivors[a].pipelines_view()[k]) as int,
                    ) by {
                        let q = survivors[a].pipelines_view()[k] as int;
                        assert(slot_referenced(survivors, q));
                        assert(old(self).spec_arena().live(q)) by {
                            if a == i {
                                assert(survivors[a] == old(
                                    self,
                                ).spec_models().view_models().last());
                            } else {
                                assert(survivors[a] == old(self).spec_models().view_models()[a]);
                            }
                        }
                    }
                }
                Ok(actions)
            },
        }
    }

    /// Interpret one update command: mutate the registries or the camera,
    /// and return the effects the device layer must replay.  Removing an
    /// id that is not registered is a no-op; a positional or id reference
    /// that does not exist is an error and leaves the scene unchanged.
    pub fn apply_update(&mut self, command: NCommandUpdate<M, A>) -> (r: Result<
        Vec<DeviceAction>,
        CommandError,
    >)
        requires
            old(self).inv(),
            update_cmd_wf(command),
        ensures
            update_transition(*old(self), *final (self), command, r),
    {
        match command {
            NCommandUpdate::CreateModel(m) => {
                let mid = m.id();
                match self.add_model(m) {
                    Ok(()) => {
                        let mut actions: Vec<DeviceAction> = Vec::new();
                        actions.push(DeviceAction::ModelAdded(mid));
                        Ok(actions)
                    },
                    Err(e) => Err(e),
                }
            },
            NCommandUpdate::CreateActor(a) => {
                self.actors.push(a);
                Ok(Vec::new())
            },
            NCommandUpdate::RemoveModel(id) => self.remove_model_by_id(id),
            NCommandUpdate::RemoveActor(id) => {
                match self.find_actor(id) {
                    Some(i) => {
                        self.actors.remove(i);
                    },
                    None => {},
                }
                Ok(Vec::new())
            },
            NCommandUpdate::MoveCamera(offset) => {
                self.camera.move_position(offset);
                Ok(Vec::new())
            },
            NCommandUpdate::RotateCamera(dyaw, dpitch) => {
                self.camera.add_yaw(dyaw);
                self.camera.add_pitch(dpitch);
                Ok(Vec::new())
            },
            NCommandUpdate::FovCamera(f) => {
                self.projection.set_fov_y(f);
                Ok(Vec::new())
            },
            NCommandUpdate::UpdateBuffer(id, idx) => {
                match self.models.find_model(id) {
                    None => Err(CommandError::MissingModel(id)),
                    Some(i) => {
                        if idx >= self.models.models[i].buffers.len() {
                            Err(CommandError::BufferIndex(idx))
                        } else {
                            let mut actions: Vec<DeviceAction> = Vec::new();
                            actions.push(DeviceAction::RefreshBuffer(id, idx));
                            Ok(actions)
                        }
                    },
                }
            },
        }
    }

    /// One frame's update phase: every actor is stepped once and its
    /// command buffer collected, then all buffers are interpreted strictly
    /// in emission order (collect-then-apply; camera motion this frame
    /// affects this frame's culling), and the input snapshot closes its
    /// frame.  The returned actions are for the device layer to replay; an
    /// interpretation error aborts the frame with the scene as the
    /// already-applied commands left it.
    pub fn update(&mut self, dt_ms: u64, trig: &CameraTrig) -> (r: Result<
        Vec<DeviceAction>,
        CommandError,
    >)
        requires
            old(self).inv(),
        ensures
            final (self).inv(),
            final (self).spec_projection().spec_aspect() == old(
                self,
            ).spec_projection().spec_aspect(),
            final (self).spec_projection().spec_z_near() == old(
                self,
            ).spec_projection().spec_z_near(),
            final (self).spec_projection().spec_z_far() == old(
                self,
            ).spec_projection().spec_z_far(),
            final (self).spec_meshes() == old(self).spec_meshes(),
            old(self).spec_actors().view_actors().len() == 0 ==> r is Ok,
            r is Err ==> final (self).spec_input() == old(self).spec_input(),
            r is Ok ==> frame_update_described(*old(self), *final (self), dt_ms, *trig),
            r matches Err(e) ==> frame_update_failed(*old(self), *final (self), dt_ms, *trig, e),
    {
        let mut buffers: Vec<Vec<NCommandUpdate<M, A>>> = Vec::new();
        let n = self.actors.len();
        let mut i: usize = 0;
        while i < n
            invariant
                self.inv(),
                n == self.actors.view_actors().len(),
                n == old(self).spec_actors().view_actors().len(),
                0 <= i <= n,
                buffers@.len() == i,
                self.models == old(self).models,
                self.camera == old(self).camera,
                self.pipelines == old(self).pipelines,
                self.input_state == old(self).input_state,
                self.projection == old(self).projection,
                self.meshes@ == old(self).meshes@,
                forall|k: int|
                    0 <= k < i ==> (#[trigger] buffers@[k])@ == old(
                        self,
                    ).spec_actors().view_actors()[k].spec_update(
                        dt_ms,
                        old(self).spec_input(),
                        *trig,
                    ).1,
                forall|k: int|
                    0 <= k < i ==> (#[trigger] self.actors.view_actors()[k]) == old(
                        self,
                    ).spec_actors().view_actors()[k].spec_update(
                        dt_ms,
                        old(self).spec_input(),
                        *trig,
                    ).0,
                forall|k: int|
                    i <= k < n ==> (#[trigger] self.actors.view_actors()[k]) == old(
                        self,
                    ).spec_actors().view_actors()[k],
                forall|b: int|
                    0 <= b < buffers@.len() ==> update_buffer_wf((#[trigger] buffers@[b])@),
            decreases n - i,
        {
            let ghost actors0 = self.actors.view_actors();
            let mut actor = self.actors.take(i);
            let buf = actor.update(dt_ms, &self.input_state, trig);
            self.actors.put_back(i, actor);
            buffers.push(buf.iter_command());
            proof {
                assert(self.actors.view_actors() =~= actors0.update(
                    i as int,
                    actors0[i as int].spec_update(dt_ms, old(self).spec_input(), *trig).0,
                ));
            }
            i = i + 1;
        }

        let ghost begun_g = *self;
        let ghost ebufs = emitted_buffer_seq(*old(self), dt_ms, *trig);
        proof {
            assert(begun_g.spec_actors().view_actors() =~= stepped_actor_seq(
                *old(self),
                dt_ms,
                *trig,
            ));
            assert(same_scene_with_actors(
                *old(self),
                begun_g,
                stepped_actor_seq(*old(self), dt_ms, *trig),
            ));
            assert(buffers@.len() == ebufs.len());
            assert(ebufs.take(0) =~= Seq::<Seq<NCommandUpdate<M, A>>>::empty());
            assert(buffers_ok(begun_g, ebufs.take(0), begun_g));
        }

        let mut actions: Vec<DeviceAction> = Vec::new();
        let mut rest = buffers;
        let ghost mut done: int = 0;
        while rest.len() > 0
            invariant
                self.inv(),
                self.input_state == old(self).input_state,
                self.projection.spec_aspect() == old(self).projection.spec_aspect(),
                self.projection.spec_z_near() == old(self).projection.spec_z_near(),
                self.projection.spec_z_far() == old(self).projection.spec_z_far(),
                self.meshes@ == old(self).meshes@,
                ebufs == emitted_buffer_seq(*old(self), dt_ms, *trig),
                ebufs.len() == old(self).spec_actors().view_actors().len(),
                same_scene_with_actors(
                    *old(self),
                    begun_g,
                    stepped_actor_seq(*old(self), dt_ms, *trig),
                ),
                0 <= done,
                done + rest@.len() == ebufs.len(),
                forall|b: int|
                    0 <= b < rest@.len() ==> (#[trigger] rest@[b])@ == ebufs[done + b],
                buffers_ok(begun_g, ebufs.take(done), *self),
                forall|b: int| 0 <= b < rest@.len() ==> update_buffer_wf((#[trigger] rest@[b])@),
            decreases rest@.len(),
        {
            let ghost rest0 = rest@;
            let mut buf = rest.remove(0);
            proof {
                assert(rest0[0] == buf);
                assert(buf@ == ebufs[done]);
                assert forall|b: int|
                    0 <= b < rest@.len() implies (#[trigger] rest@[b])@ == ebufs[done + 1 + b]
                    && update_buffer_wf(rest@[b]@) by {
                    assert(rest@[b] == rest0[b + 1]);
                }
            }
            let ghost buffer_start = *self;
            let ghost mut consumed: Seq<NCommandUpdate<M, A>> = Seq::empty();
            proof {
                assert(steps_ok(buffer_start, consumed, *self));
            }
            while buf.len() > 0
                invariant
                    self.inv(),
                    self.input_state == old(self).input_state,
    self.projection.spec_aspect() == old(self).projection.spec_aspect(),
                    self.projection.spec_z_near() == old(self).projection.spec_z_near(),
                    self.projection.spec_z_far() == old(self).projection.spec_z_far(),
                    self.meshes@ == old(self).meshes@,
                    old(self).spec_actors().view_actors().len() > 0,
                    update_buffer_wf(buf@),
                    ebufs == emitted_buffer_seq(*old(self), dt_ms, *trig),
                    same_scene_with_actors(
                        *old(self),
                        begun_g,
                        stepped_actor_seq(*old(self), dt_ms, *trig),
                    ),
                    0 <= done < ebufs.len(),
                    buffers_ok(begun_g, ebufs.take(done), buffer_start),
                    consumed + buf@ == ebufs[done],
                    steps_ok(buffer_start, consumed, *self),
                decreases buf@.len(),
            {
                let ghost buf0 = buf@;
                let c = buf.remove(0);
                let ghost c0 = c;
                proof {
                    assert(buf0[0] == c);
                    assert(update_cmd_wf(c));
                    assert forall|b: int|
                        0 <= b < buf@.len() implies update_cmd_wf(#[trigger] buf@[b]) by {
                        assert(buf@[b] == buf0[b + 1]);
                    }
                }
                let ghost prev = *self;
                let ghost consumed0 = consumed;
                match self.apply_update(c) {
                    Ok(mut acts) => {
                        proof {
                            lemma_steps_ok_snoc(buffer_start, consumed0, prev, c0, *self, acts);
                            consumed = consumed0.push(c0);
                            assert(consumed + buf@ =~= consumed0 + buf0);
                        }
                        actions.append(&mut acts);
                    },
                    Err(e) => {
                        proof {
                            let j = consumed0.len() as int;
                            assert(consumed0 + buf0 == ebufs[done]);
                            assert(ebufs[done].take(j) =~= consumed0);
                            assert(j < ebufs[done].len());
                            assert(ebufs[done][j] == buf0[0]);
                            assert(steps_ok(buffer_start, ebufs[done].take(j), prev));
                            assert(update_transition(prev, *self, c0, Err::<
                                Vec<DeviceAction>,
                                CommandError,
                            >(e)));
                            assert(frame_update_failed(*old(self), *self, dt_ms, *trig, e));
                        }
                        return Err(e);
                    },
                }
            }
            proof {
                assert(buf@ =~= Seq::<NCommandUpdate<M, A>>::empty());
                assert(consumed =~= ebufs[done]);
                lemma_buffers_ok_snoc(begun_g, ebufs.take(done), buffer_start, ebufs[done], *self);
                assert(ebufs.take(done).push(ebufs[done]) =~= ebufs.take(done + 1));
                done = done + 1;
            }
        }

        let ghost applied_g = *self;
        proof {
            assert(ebufs.take(done) =~= ebufs);
            assert(buffers_ok(begun_g, emitted_buffer_seq(*old(self), dt_ms, *trig), applied_g));
        }
        self.input_state.update();
        proof {
            assert(crate::input::frame_closed(applied_g.spec_input(), self.spec_input()));
            assert(frame_update_described(*old(self), *self, dt_ms, *trig));
        }
        Ok(actions)
    }

    /// Whether the model at registry index `i` survives this frame's
    /// visibility filter: its box is not wholly outside the frustum, and
    /// its position is strictly nearer to the camera than the far plane.
    pub open spec fn spec_visible(self, culler: FrustumCuller, i: int) -> bool {
        let m = self.spec_models().view_models()[i].spec_model();
        &&& culler.spec_classify(m.spec_aabb()) != Intersection::Outside
        &&& m.spec_position().spec_distance_squared(self.spec_camera().spec_position())
            < self.spec_projection().spec_z_far() * self.spec_projection().spec_z_far()
    }

    /// The registry indices of the models the filter keeps, in ascending
    /// order: exactly those whose box is not `Outside` the frustum and
    /// whose squared distance to the camera is strictly below the squared
    /// far-plane distance.
    pub fn visible_indices(&self, culler: &FrustumCuller) -> (r: Vec<usize>)
        requires
            self.inv(),
            culler.wf(),
        ensures
            forall|k: int|
                0 <= k < r@.len() ==> (#[trigger] r@[k]) < self.spec_models().view_models().len()
                    && self.spec_visible(*culler, r@[k] as int),
            forall|k1: int, k2: int| 0 <= k1 < k2 < r@.len() ==> r@[k1] < r@[k2],
            forall|i: int|
                0 <= i < self.spec_models().view_models().len() && self.spec_visible(*culler, i)
                    ==> r@.contains(i as usize),
    {
        let far = self.projection.z_far();
        proof {
            crate::math::lemma_mul_bound(
                far as int,
                far as int,
                crate::math::COORD_MAX as int,
                crate::math::COORD_MAX as int,
            );
        }
        let far2: i128 = far as i128 * far as i128;
        let cam = self.camera.position();
        let n = self.models.len();
        let mut out: Vec<usize> = Vec::new();
        let mut i: usize = 0;
        while i < n
            invariant
                self.inv(),
                culler.wf(),
                n == self.spec_models().view_models().len(),
                0 <= i <= n,
                far2 == self.spec_projection().spec_z_far() * self.spec_projection().spec_z_far(),
                cam == self.spec_camera().spec_position(),
                forall|k: int|
                    0 <= k < out@.len() ==> (#[trigger] out@[k]) < i && self.spec_visible(
                        *culler,
                        out@[k] as int,
                    ),
                forall|k1: int, k2: int| 0 <= k1 < k2 < out@.len() ==> out@[k1] < out@[k2],
                forall|q: int|
                    0 <= q < i && self.spec_visible(*culler, q) ==> out@.contains(q as usize),
            decreases n - i,
        {
            proof {
                assert(self.spec_models().view_models()[i as int].spec_model().inv());
            }
            let ghost out_pre = out@;
            let nm = &self.models.models[i];
            let m = nm.model();
            let a = m.aabb();
            let test = culler.test_bounding_box(&a);
            let not_outside = match test {
                Intersection::Outside => false,
                _ => true,
            };
            let pos = m.position();
            let d2 = pos.distance_squared(&cam);
            if not_outside && d2 < far2 {
                out.push(i);
            }
            proof {
                assert forall|q: int|
                    0 <= q < i + 1 && self.spec_visible(*culler, q) implies out@.contains(
                    q as usize,
                ) by {
                    if q < i {
                        assert(out_pre.contains(q as usize));
                        let w = choose|w: int|
                            0 <= w < out_pre.len() && (#[trigger] out_pre[w]) == q as usize;
                        assert(out@[w] == q as usize);
                    } else {
                        assert(out@.last() == i as usize);
                    }
                }
            }
            i = i + 1;
        }
        out
    }

    /// One frame's render phase: build the frustum from the given
    /// view-projection matrix, keep the models the visibility filter
    /// accepts, and interpret each survivor's render command buffer
    /// against its resource table.  Every draw call of a successful
    /// result references only resources that exist.
    #[verifier::spinoff_prover]
    #[verifier::rlimit(30)]
    pub fn render(&self, view_proj: &Mat4) -> (r: Result<Vec<ModelDraw>, CommandError>)
        requires
            self.inv(),
            view_proj.bounded(),
        ensures
            r matches Ok(v) ==> forall|k: int|
                0 <= k < v@.len() ==> {
                    &&& (#[trigger] v@[k]).model_index
                        < self.spec_models().view_models().len()
                    &&& self.spec_visible(
                        FrustumCuller::spec_from_matrix(*view_proj),
                        v@[k].model_index as int,
                    )
                    &&& v@[k].model_id
                        == self.spec_models().view_models()[v@[k].model_index as int].spec_model().spec_id()
                    &&& draw_calls_valid(
                        v@[k].calls@,
                        self.spec_models().view_models()[v@[k].model_index as int],
                        self.spec_arena(),
                        self.spec_meshes().len() as int,
                    )
                    &&& draw_program_interpreted(
                        self.spec_models().view_models()[v@[k].model_index as int],
                        self.spec_meshes().len() as int,
                        v@[k].calls@,
                    )
                },
            r matches Ok(v) ==> forall|k1: int, k2: int|
                0 <= k1 < k2 < v@.len() ==> v@[k1].model_index < v@[k2].model_index,
            r matches Ok(v) ==> forall|i: usize|
                i < self.spec_models().view_models().len() && self.spec_visible(
                    FrustumCuller::spec_from_matrix(*view_proj),
                    i as int,
                ) ==> #[trigger] draws_cover_index(v@, i),
            (forall|i: int|
                0 <= i < self.spec_models().view_models().len() ==> !self.spec_visible(
                    FrustumCuller::spec_from_matrix(*view_proj),
                    i,
                )) ==> r is Ok,
            self.spec_models().view_models().len() == 0 ==> r is Ok,
            r matches Err(e) ==> render_failure_witnessed(*self, *view_proj, e),
    {
        let culler = FrustumCuller::from_matrix(view_proj);
        let total = self.models.len();
        let vis = self.visible_indices(&culler);
        let mut out: Vec<ModelDraw> = Vec::new();
        let n = vis.len();
        let mut k: usize = 0;
        while k < n
            invariant
                self.inv(),
                culler == FrustumCuller::spec_from_matrix(*view_proj),
                n == vis@.len(),
                0 <= k <= n,
                out@.len() == k,
                forall|w: int|
                    0 <= w < vis@.len() ==> (#[trigger] vis@[w])
                        < self.spec_models().view_models().len() && self.spec_visible(
                        culler,
                        vis@[w] as int,
                    ),
                forall|w1: int, w2: int| 0 <= w1 < w2 < vis@.len() ==> vis@[w1] < vis@[w2],
                forall|i: int|
                    0 <= i < self.spec_models().view_models().len() && self.spec_visible(
                        culler,
                        i,
                    ) ==> vis@.contains(i as usize),
                forall|w: int| 0 <= w < k ==> (#[trigger] out@[w]).model_index == vis@[w],
                forall|w: int|
                    0 <= w < k ==> (#[trigger] out@[w]).model_id
                        == self.spec_models().view_models()[vis@[w] as int].spec_model().spec_id(),
                forall|w: int|
                    0 <= w < k ==> draw_calls_valid(
                        (#[trigger] out@[w]).calls@,
                        self.spec_models().view_models()[vis@[w] as int],
                        self.spec_arena(),
                        self.spec_meshes().len() as int,
                    ),
                forall|w: int|
                    0 <= w < k ==> draw_program_interpreted(
                        self.spec_models().view_models()[vis@[w] as int],
                        self.spec_meshes().len() as int,
                        (#[trigger] out@[w]).calls@,
                    ),
            decreases n - k,
        {
            let idx = vis[k];
            proof {
                assert(self.spec_models().view_models()[idx as int].spec_model().inv());
            }
            let nm = &self.models.models[idx];
            let mid = nm.model().id();
            let buf = nm.model().render();
            let cmds = buf.iter_command();
            let ghost cseq = cmds@;
            match interpret_render(cmds, nm, self.meshes.len()) {
                Ok(calls) => {
                    proof {
                        assert forall|w: int|
                            0 <= w < nm.pipelines_view().len() implies self.pipelines.live(
                            (#[trigger] nm.pipelines_view()[w]) as int,
                        ) by {
                            assert(*nm == self.spec_models().view_models()[idx as int]);
                        }
                        lemma_interp_render_valid(
                            cseq,
                            *nm,
                            self.pipelines,
                            self.meshes@.len() as int,
                            calls@,
                        );
                        assert(nm.spec_model().render_wf(cseq));
                        assert(draw_program_interpreted(
                            *nm,
                            self.spec_meshes().len() as int,
                            calls@,
                        ));
                    }
                    out.push(ModelDraw { model_index: idx, model_id: mid, calls });
                },
                Err(e) => {
                    return Err(e);
                },
            }
            k = k + 1;
        }
        proof {
            assert forall|i: int|
                #![trigger self.spec_visible(FrustumCuller::spec_from_matrix(*view_proj), i)]
                0 <= i < self.spec_models().view_models().len() && self.spec_visible(
                    FrustumCuller::spec_from_matrix(*view_proj),
                    i,
                ) implies exists|w: int|
                0 <= w < out@.len() && ((#[trigger] out@[w]).model_index as int) == i by {
                assert(self.spec_visible(culler, i));
                assert(self.spec_models().view_models().len() == total as int);
                assert(vis@.contains(i as usize));
                let w = choose|w: int| 0 <= w < vis@.len() && (#[trigger] vis@[w]) == i as usize;
                assert(out@[w].model_index == vis@[w]);
                assert((out@[w].model_index as int) == i);
            }
        }
        Ok(out)
    }
}

} // verus!
