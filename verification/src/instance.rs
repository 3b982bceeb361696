//! Per-instance render data and its byte encoding.
//!
//! Each voxel becomes one [`Instance`]: a world position in whole block
//! units plus its block-type identifier.  [`InstanceRaw`] is the wire form
//! uploaded as an instance-step vertex buffer: a homogeneous 4-component
//! signed 32-bit position followed by the identifier, 20 bytes little
//! endian per instance.

use vstd::prelude::*;

use crate::command_buffer::{VertexAttribute, VertexBufferLayout, VertexFormat, VertexStepMode};
use crate::math::Vec3;

verus! {

/// Instance positions are whole block units and stay far inside `i32`.
pub const INSTANCE_COORD_MAX: i64 = 0x4000_0000;

/// One drawn repetition of the shared cube mesh: a world-space position in
/// whole block units, and the block-type identifier.
#[derive(Clone, Copy, Debug, PartialEq, Eq, Structural)]
pub struct Instance {
    pub position: Vec3,
    pub id: u16,
}

impl Instance {
    pub fn new(position: Vec3, id: u16) -> (r: Instance)
        ensures
            r == (Instance { position, id }),
    {
        Instance { position, id }
    }

    /// The instance's position fits the 32-bit wire form.
    pub open spec fn encodable(self) -> bool {
        &&& -INSTANCE_COORD_MAX <= self.position.x <= INSTANCE_COORD_MAX
        &&& -INSTANCE_COORD_MAX <= self.position.y <= INSTANCE_COORD_MAX
        &&& -INSTANCE_COORD_MAX <= self.position.z <= INSTANCE_COORD_MAX
    }

    /// The wire form of this instance.
    pub open spec fn spec_raw(self) -> InstanceRaw {
        InstanceRaw {
            x: self.position.x as i32,
            y: self.position.y as i32,
            z: self.position.z as i32,
            w: 1,
            id: self.id as u32,
        }
    }

    /// Convert to the wire form: position as a homogeneous 4-vector, the
    /// identifier widened to 32 bits.
    pub fn to_raw(&self) -> (r: InstanceRaw)
        requires
            self.encodable(),
        ensures
            r == self.spec_raw(),
    {
        InstanceRaw {
            x: self.position.x as i32,
            y: self.position.y as i32,
            z: self.position.z as i32,
            w: 1,
            id: self.id as u32,
        }
    }
}

/// The 20-byte wire form of one instance: signed 32-bit `x, y, z, w`
/// followed by the 32-bit identifier.
#[derive(Clone, Copy, Debug, PartialEq, Eq, Structural)]
pub struct InstanceRaw {
    pub x: i32,
    pub y: i32,
    pub z: i32,
    pub w: i32,
    pub id: u32,
}

/// The four little-endian bytes of a 32-bit word.
pub open spec fn le_bytes(v: u32) -> Seq<u8> {
    seq![
        (v & 0xff) as u8,
        ((v >> 8) & 0xff) as u8,
        ((v >> 16) & 0xff) as u8,
        ((v >> 24) & 0xff) as u8,
    ]
}

/// The 20 little-endian bytes of one wire-form instance.
pub open spec fn raw_bytes(r: InstanceRaw) -> Seq<u8> {
    le_bytes(r.x as u32) + le_bytes(r.y as u32) + le_bytes(r.z as u32) + le_bytes(r.w as u32)
        + le_bytes(r.id)
}

impl InstanceRaw {
    pub fn new(x: i32, y: i32, z: i32, w: i32, id: u32) -> (r: InstanceRaw)
        ensures
            r == (InstanceRaw { x, y, z, w, id }),
    {
        InstanceRaw { x, y, z, w, id }
    }

    pub fn id(&self) -> (r: u32)
        ensures
            r == self.id,
    {
        self.id
    }

    /// Append this instance's 20 wire bytes to `out`.
    pub fn write_bytes(&self, out: &mut Vec<u8>)
        ensures
            final (out)@ == old(out)@ + raw_bytes(*self),
    {
        push_le_bytes(out, self.x as u32);
        push_le_bytes(out, self.y as u32);
        push_le_bytes(out, self.z as u32);
        push_le_bytes(out, self.w as u32);
        push_le_bytes(out, self.id);
    }

    /// The vertex-buffer layout of a run of wire-form instances: one
    /// 4-component signed position and one unsigned identifier, advancing
    /// per instance.
    pub fn desc() -> (r: VertexBufferLayout)
        ensures
            r.array_stride == 20,
            r.step_mode == VertexStepMode::Instance,
            r.attributes@.len() == 2,
            r.attributes@[0] == (VertexAttribute {
                offset: 0,
                shader_location: 5,
                format: VertexFormat::Sint32x4,
            }),
            r.attributes@[1] == (VertexAttribute {
                offset: 16,
                shader_location: 6,
                format: VertexFormat::Uint32,
            }),
    {
        let mut attributes: Vec<VertexAttribute> = Vec::new();
        attributes.push(VertexAttribute { offset: 0, shader_location: 5, format: VertexFormat::Sint32x4 });
        attributes.push(VertexAttribute { offset: 16, shader_location: 6, format: VertexFormat::Uint32 });
        VertexBufferLayout { array_stride: 20, step_mode: VertexStepMode::Instance, attributes }
    }
}

/// Append the four little-endian bytes of `v` to `out`.
pub fn push_le_bytes(out: &mut Vec<u8>, v: u32)
    ensures
        final (out)@ == old(out)@ + le_bytes(v),
{
    proof {
        assert(v & 0xff < 256 && (v >> 8) & 0xff < 256 && (v >> 16) & 0xff < 256 && (v >> 24)
            & 0xff < 256) by (bit_vector);
    }
    out.push((v & 0xff) as u8);
    out.push(((v >> 8) & 0xff) as u8);
    out.push(((v >> 16) & 0xff) as u8);
    out.push(((v >> 24) & 0xff) as u8);
}

} // verus!
