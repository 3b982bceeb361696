//! The deferred command protocol.
//!
//! Entities never touch the graphics device: they describe intent as ordered
//! command buffers for three phases (setup, update, render), and only the
//! orchestrator interprets those buffers.  Commands reference resources by
//! position in the owning entity's resource lists, never by handle, so a
//! buffer is replayable against resources that did not exist when it was
//! produced.

use vstd::prelude::*;

use crate::math::Vec3;

verus! {

/// Index into one of an entity's ordered resource lists.
pub type Index = usize;

/// Process-unique entity identifier (128-bit random identifier semantics).
pub type Id = u128;

/// Buffer usage bit for vertex buffers (matches the device layer's flag).
pub const BUFFER_USAGE_VERTEX: u32 = 32;

/// Buffer usage bit for uniform buffers.
pub const BUFFER_USAGE_UNIFORM: u32 = 64;

/// Buffer usage bit for buffers written after creation.
pub const BUFFER_USAGE_COPY_DST: u32 = 8;

/// Marker trait tying each phase's command enum to [`CommandBuffer`].
pub trait NCommand {

}

/// A resource reference inside a bind-group description, by position.
#[derive(Clone, Copy, Debug, PartialEq, Eq, Structural)]
pub enum NResource {
    Buffer(Index),
}

/// What a bound resource slot holds.
#[derive(Clone, Copy, Debug, PartialEq, Eq, Structural)]
pub enum BindingKind {
    UniformBuffer,
    Texture,
    Sampler,
}

/// One entry of a bind-group layout: slot number, shader-stage visibility
/// bits, and the kind of resource bound there.
#[derive(Clone, Copy, Debug, PartialEq, Eq, Structural)]
pub struct LayoutEntry {
    pub binding: u32,
    pub visibility: u32,
    pub kind: BindingKind,
}

/// Scalar format of one vertex attribute.
#[derive(Clone, Copy, Debug, PartialEq, Eq, Structural)]
pub enum VertexFormat {
    Uint32,
    Sint32x4,
    Float32x2,
    Float32x3,
    Float32x4,
}

/// Whether a vertex buffer advances per vertex or per instance.
#[derive(Clone, Copy, Debug, PartialEq, Eq, Structural)]
pub enum VertexStepMode {
    Vertex,
    Instance,
}

/// One attribute of a vertex buffer layout.
#[derive(Clone, Copy, Debug, PartialEq, Eq, Structural)]
pub struct VertexAttribute {
    pub offset: u64,
    pub shader_location: u32,
    pub format: VertexFormat,
}

/// Byte layout of one vertex buffer.
#[derive(Debug, PartialEq, Eq)]
pub struct VertexBufferLayout {
    pub array_stride: u64,
    pub step_mode: VertexStepMode,
    pub attributes: Vec<VertexAttribute>,
}

/// Width of the indices in an index buffer.
#[derive(Clone, Copy, Debug, PartialEq, Eq, Structural)]
pub enum IndexFormat {
    Uint16,
    Uint32,
}

/// Setup-phase commands: declare the GPU resources a model needs.  The
/// orchestrator allocates them and the model's render commands refer to them
/// by the position they were declared in.
pub enum NCommandSetup {
    /// Allocate a buffer holding these bytes, with these usage bits.
    CreateBuffer(Vec<u8>, u32),
    /// Allocate a resource-binding set from a layout description and
    /// references to resources declared earlier in this buffer.
    CreateBindGroup(Vec<LayoutEntry>, Vec<NResource>),
    /// Allocate a pipeline from bind-group positions, a shader source name,
    /// vertex layouts, and whether the shared model-texture slot is used.
    CreatePipeline(Vec<Index>, &'static str, Vec<VertexBufferLayout>, bool),
    /// Share an existing pipeline of the named entity (given by its id and
    /// the pipeline's position there) instead of allocating a new one.
    SharePipeline(Id, Index),
}

impl NCommand for NCommandSetup {

}

/// Update-phase commands: mutate the scene between frames.
pub enum NCommandUpdate<M, A> {
    CreateModel(M),
    CreateActor(A),
    RemoveModel(Id),
    RemoveActor(Id),
    /// Move the camera by a world-space offset.
    MoveCamera(Vec3),
    /// Add a yaw delta and a pitch delta to the camera, fixed-point radians.
    RotateCamera(i64, i64),
    /// Set the projection's vertical field of view, fixed-point radians.
    FovCamera(i64),
    /// Ask the device layer to refresh one buffer (by position) of the
    /// model with the given id.
    UpdateBuffer(Id, Index),
}

impl<M, A> NCommand for NCommandUpdate<M, A> {

}

/// Render-phase commands, interpreted against the owning model's resource
/// lists in order.
#[derive(Debug, PartialEq, Eq)]
pub enum NCommandRender {
    SetPipeline(Index),
    /// Bind a vertex buffer (by position, second field) at a slot (first).
    SetVertexBuffer(u32, Index),
    SetIndexBuffer(Index, IndexFormat),
    /// Bind a bind group (by position, second field) at a slot (first).
    SetBindGroup(u32, Index),
    /// Draw a number of indices (first field) as a number of instances
    /// (second field).
    DrawIndexed(u32, u32),
    /// Draw a registered mesh (by position) as a number of instances, with
    /// extra bind groups.
    DrawModelIndexed(Index, u32, Vec<Index>),
}

impl NCommand for NCommandRender {

}

/// An ordered, replayable list of commands for one phase.
pub struct CommandBuffer<N: NCommand> {
    commands: Vec<N>,
}

impl<N: NCommand> View for CommandBuffer<N> {
    type V = Seq<N>;

    closed spec fn view(&self) -> Seq<N> {
        self.commands@
    }
}

impl<N: NCommand> CommandBuffer<N> {
    pub fn new() -> (r: CommandBuffer<N>)
        ensures
            r@ == Seq::<N>::empty(),
    {
        CommandBuffer { commands: Vec::new() }
    }

    /// Append a command; order of interpretation is order of insertion.
    pub fn push(&mut self, command: N)
        ensures
            final (self)@ == old(self)@.push(command),
    {
        self.commands.push(command);
    }

    /// Hand the commands out for interpretation, in order.
    pub fn iter_command(self) -> (r: Vec<N>)
        ensures
            r@ == self@,
    {
        self.commands
    }
}

} // verus!
