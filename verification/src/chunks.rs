//! Bit-packed voxel blocks.
//!
//! A [`Block`] packs one voxel into a single `u32`: the local position inside
//! a 16x16x16 chunk takes four bits per axis (`x` in bits 8..12, `y` in bits
//! 4..8, `z` in bits 0..4), the block-type identifier fills bits 12..28, and
//! the top four bits are left untouched by every field update.

use vstd::prelude::*;

use crate::app::Model;
use crate::command_buffer::{
    CommandBuffer, Index, NCommandRender, NCommandSetup, NCommandUpdate, VertexBufferLayout,
    BUFFER_USAGE_VERTEX,
};
use crate::frustum::Aabb;
use crate::instance::{raw_bytes, Instance, InstanceRaw};
use crate::math::{Vec3, FP_ONE};

verus! {

/// One voxel: local position and type identifier packed into a `u32`.
#[derive(Clone, Copy, Debug, PartialEq, Eq, Structural)]
pub struct Block {
    data: u32,
}

/// Local x coordinate stored in a packed block word.
pub open spec fn block_x(d: u32) -> u32 {
    (d & 0xf00) >> 8
}

/// Local y coordinate stored in a packed block word.
pub open spec fn block_y(d: u32) -> u32 {
    (d & 0xf0) >> 4
}

/// Local z coordinate stored in a packed block word.
pub open spec fn block_z(d: u32) -> u32 {
    d & 0xf
}

/// Type identifier stored in a packed block word.
pub open spec fn block_id(d: u32) -> u32 {
    (d >> 12) & 0xffff
}

impl Block {
    /// The raw packed word.
    pub closed spec fn raw(self) -> u32 {
        self.data
    }

    /// The decoded local position `(x, y, z)`.
    pub open spec fn spec_position(self) -> (u32, u32, u32) {
        (block_x(self.raw()), block_y(self.raw()), block_z(self.raw()))
    }

    /// The decoded type identifier.
    pub open spec fn spec_id(self) -> u32 {
        block_id(self.raw())
    }

    pub fn new(data: u32) -> (r: Block)
        ensures
            r.raw() == data,
    {
        Block { data }
    }

    /// Replace the position field, leaving the identifier and the high bits
    /// unchanged.  Each coordinate must fit its four-bit field.
    pub fn with_position(self, position: (u32, u32, u32)) -> (r: Block)
        requires
            position.0 < 16,
            position.1 < 16,
            position.2 < 16,
        ensures
            r.spec_position() == position,
            r.spec_id() == self.spec_id(),
            r.raw() >> 28 == self.raw() >> 28,
            r.raw() == ((self.raw() >> 12) << 12) | (position.0 << 8 | position.1 << 4
                | position.2),
    {
        let pos: u32 = position.0 << 8 | position.1 << 4 | position.2;
        let data: u32 = self.data >> 12;
        let packed: u32 = data << 12 | pos;
        proof {
            let (x, y, z) = position;
            let d = self.data;
            assert(block_x((d >> 12) << 12 | (x << 8 | y << 4 | z)) == x
                && block_y((d >> 12) << 12 | (x << 8 | y << 4 | z)) == y
                && block_z((d >> 12) << 12 | (x << 8 | y << 4 | z)) == z
                && block_id((d >> 12) << 12 | (x << 8 | y << 4 | z)) == block_id(d)
                && ((d >> 12) << 12 | (x << 8 | y << 4 | z)) >> 28 == d >> 28) by (bit_vector)
                requires
                    x < 16,
                    y < 16,
                    z < 16,
            ;
        }
        Block { data: packed }
    }

    /// Replace the identifier field, leaving the position and the high bits
    /// unchanged.
    pub fn with_id(self, id: u16) -> (r: Block)
        ensures
            r.spec_id() == id,
            r.spec_position() == self.spec_position(),
            r.raw() >> 28 == self.raw() >> 28,
            r.raw() == ((self.raw() >> 28) << 28) | ((id as u32) << 12) | (self.raw() & 0xfff),
    {
        let position: u32 = self.data & 0xfff;
        let data: u32 = self.data >> 28;
        let packed: u32 = data << 28 | (id as u32) << 12 | position;
        proof {
            let d = self.data;
            assert(block_id((d >> 28) << 28 | (id as u32) << 12 | (d & 0xfff)) == id
                && block_x((d >> 28) << 28 | (id as u32) << 12 | (d & 0xfff)) == block_x(d)
                && block_y((d >> 28) << 28 | (id as u32) << 12 | (d & 0xfff)) == block_y(d)
                && block_z((d >> 28) << 28 | (id as u32) << 12 | (d & 0xfff)) == block_z(d)
                && ((d >> 28) << 28 | (id as u32) << 12 | (d & 0xfff)) >> 28 == d >> 28)
                by (bit_vector);
        }
        Block { data: packed }
    }

    pub fn x(&self) -> (r: u32)
        ensures
            r == block_x(self.raw()),
    {
        (self.data & 0xf00) >> 8
    }

    pub fn y(&self) -> (r: u32)
        ensures
            r == block_y(self.raw()),
    {
        (self.data & 0xf0) >> 4
    }

    pub fn z(&self) -> (r: u32)
        ensures
            r == block_z(self.raw()),
    {
        self.data & 0xf
    }

    /// The local position, decoded.
    pub fn position(&self) -> (r: (u32, u32, u32))
        ensures
            r == self.spec_position(),
    {
        let position: u32 = self.data & 0xfff;
        let x: u32 = position >> 8;
        let y: u32 = (position >> 4) & 0xf;
        let z: u32 = position & 0xf;
        proof {
            let d = self.data;
            assert((d & 0xfff) >> 8 == block_x(d) && ((d & 0xfff) >> 4) & 0xf == block_y(d) && (d
                & 0xfff) & 0xf == block_z(d)) by (bit_vector);
        }
        (x, y, z)
    }

    /// The type identifier, decoded.
    pub fn id(&self) -> (r: u16)
        ensures
            r == self.spec_id(),
    {
        let id: u32 = (self.data >> 12) & 0xffff;
        proof {
            let d = self.data;
            assert((d >> 12) & 0xffff < 0x10000) by (bit_vector);
        }
        id as u16
    }
}

impl Default for Block {
    /// The all-zero block: position `(0, 0, 0)`, identifier `0`.
    fn default() -> (r: Block)
        ensures
            r.raw() == 0,
    {
        Block::new(0)
    }
}

/// Packing round trip: writing a position and an identifier, in either
/// order, stores exactly those values, and neither write disturbs the other
/// field.
pub proof fn lemma_block_round_trip(base: u32, x: u32, y: u32, z: u32, id: u16)
    requires
        x < 16,
        y < 16,
        z < 16,
    ensures
        block_x(packed(base, x, y, z, id)) == x,
        block_y(packed(base, x, y, z, id)) == y,
        block_z(packed(base, x, y, z, id)) == z,
        block_id(packed(base, x, y, z, id)) == id,
        packed(base, x, y, z, id) == packed_id_first(base, x, y, z, id),
{
    assert({
        let w = ((((base >> 28) << 28 | (id as u32) << 12 | (base & 0xfff)) >> 12) << 12) | (x << 8
            | y << 4 | z);
        let v = (((((base >> 12) << 12) | (x << 8 | y << 4 | z)) >> 28) << 28 | (id as u32) << 12
            | ((((base >> 12) << 12) | (x << 8 | y << 4 | z)) & 0xfff));
        block_x(v) == x && block_y(v) == y && block_z(v) == z && block_id(v) == id && v == w
    }) by (bit_vector)
        requires
            x < 16,
            y < 16,
            z < 16,
    ;
}

/// The word produced by writing position then identifier over `base`.
pub open spec fn packed(base: u32, x: u32, y: u32, z: u32, id: u16) -> u32 {
    let after_pos = ((base >> 12) << 12) | (x << 8 | y << 4 | z);
    ((after_pos >> 28) << 28) | (id as u32) << 12 | (after_pos & 0xfff)
}

/// The word produced by writing identifier then position over `base`.
pub open spec fn packed_id_first(base: u32, x: u32, y: u32, z: u32, id: u16) -> u32 {
    let after_id = ((base >> 28) << 28) | (id as u32) << 12 | (base & 0xfff);
    ((after_id >> 12) << 12) | (x << 8 | y << 4 | z)
}

/// Blocks per chunk edge.
pub const CHUNK_EDGE: i64 = 16;

/// Largest magnitude of a chunk-grid origin coordinate.  Scaled by the edge
/// length, a chunk origin then stays a whole block unit inside the 32-bit
/// instance wire form and far inside the fixed-point coordinate range.
pub const MAX_CHUNK_COORD: i64 = 0x3ff_ffff;

/// The world-space box a chunk occupies: its origin scaled by the chunk
/// edge length, in fixed point, extended by one chunk edge.
pub open spec fn chunk_world_aabb(origin: Vec3) -> Aabb {
    Aabb {
        min: Vec3 {
            x: (origin.x * (CHUNK_EDGE * FP_ONE)) as i64,
            y: (origin.y * (CHUNK_EDGE * FP_ONE)) as i64,
            z: (origin.z * (CHUNK_EDGE * FP_ONE)) as i64,
        },
        max: Vec3 {
            x: (origin.x * (CHUNK_EDGE * FP_ONE) + CHUNK_EDGE * FP_ONE) as i64,
            y: (origin.y * (CHUNK_EDGE * FP_ONE) + CHUNK_EDGE * FP_ONE) as i64,
            z: (origin.z * (CHUNK_EDGE * FP_ONE) + CHUNK_EDGE * FP_ONE) as i64,
        },
    }
}

/// The render instance a block of this chunk produces: the block's world
/// position in whole block units (origin times edge length plus the local
/// coordinate) and its decoded identifier.
pub open spec fn derived_instance(origin: Vec3, b: Block) -> Instance {
    Instance {
        position: Vec3 {
            x: (origin.x * CHUNK_EDGE + block_x(b.raw())) as i64,
            y: (origin.y * CHUNK_EDGE + block_y(b.raw())) as i64,
            z: (origin.z * CHUNK_EDGE + block_z(b.raw())) as i64,
        },
        id: block_id(b.raw()) as u16,
    }
}

/// The flat byte buffer of a run of instances, each in its 20-byte wire
/// form, in order.
pub open spec fn instances_bytes(s: Seq<Instance>) -> Seq<u8>
    decreases s.len(),
{
    if s.len() == 0 {
        Seq::empty()
    } else {
        instances_bytes(s.drop_last()) + raw_bytes(s.last().spec_raw())
    }
}

/// The vertex layout [`InstanceRaw::desc`] describes.
pub open spec fn is_instance_layout(l: VertexBufferLayout) -> bool {
    &&& l.array_stride == 20
    &&& l.step_mode == crate::command_buffer::VertexStepMode::Instance
    &&& l.attributes@.len() == 2
    &&& l.attributes@[0] == (crate::command_buffer::VertexAttribute {
        offset: 0,
        shader_location: 5,
        format: crate::command_buffer::VertexFormat::Sint32x4,
    })
    &&& l.attributes@[1] == (crate::command_buffer::VertexAttribute {
        offset: 16,
        shader_location: 6,
        format: crate::command_buffer::VertexFormat::Uint32,
    })
}

/// A fixed cube of voxels: identity, chunk-grid origin, the world box fixed
/// at construction, the packed blocks, and one derived render instance per
/// block.
pub struct Chunk {
    id: u128,
    position: Vec3,
    aabb: Aabb,
    blocks: Vec<Block>,
    instances: Vec<Instance>,
}

impl Chunk {
    /// Internal coherence: the origin is in chunk-grid range, the box is
    /// the one derived from the origin, and instance `i` is exactly what
    /// block `i` derives to.
    pub open spec fn wf(self) -> bool {
        &&& -MAX_CHUNK_COORD <= self.spec_origin().x <= MAX_CHUNK_COORD
        &&& -MAX_CHUNK_COORD <= self.spec_origin().y <= MAX_CHUNK_COORD
        &&& -MAX_CHUNK_COORD <= self.spec_origin().z <= MAX_CHUNK_COORD
        &&& self.spec_aabb() == chunk_world_aabb(self.spec_origin())
        &&& self.instances_view().len() == self.blocks_view().len()
        &&& self.blocks_view().len() <= 0xffff_ffff
        &&& forall|i: int|
            0 <= i < self.blocks_view().len() ==> self.instances_view()[i] == derived_instance(
                self.spec_origin(),
                self.blocks_view()[i],
            )
    }

    /// Some stored block decodes to this local position.
    pub open spec fn spec_has_block(self, position: (u32, u32, u32)) -> bool {
        exists|i: int|
            0 <= i < self.blocks_view().len() && (#[trigger] self.blocks_view()[i]).spec_position()
                == position
    }

    /// An empty chunk at a chunk-grid origin.  The world box is fixed here:
    /// chunks neither move nor resize.
    pub fn new(id: u128, position: Vec3) -> (r: Chunk)
        requires
            -MAX_CHUNK_COORD <= position.x <= MAX_CHUNK_COORD,
            -MAX_CHUNK_COORD <= position.y <= MAX_CHUNK_COORD,
            -MAX_CHUNK_COORD <= position.z <= MAX_CHUNK_COORD,
        ensures
            r.wf(),
            r.spec_id() == id,
            r.spec_origin() == position,
            r.spec_aabb() == chunk_world_aabb(position),
            r.blocks_view() == Seq::<Block>::empty(),
            r.instances_view() == Seq::<Instance>::empty(),
    {
        proof {
            crate::math::lemma_mul_bound(
                position.x as int,
                CHUNK_EDGE as int * FP_ONE as int,
                MAX_CHUNK_COORD as int,
                0x100000,
            );
            crate::math::lemma_mul_bound(
                position.y as int,
                CHUNK_EDGE as int * FP_ONE as int,
                MAX_CHUNK_COORD as int,
                0x100000,
            );
            crate::math::lemma_mul_bound(
                position.z as int,
                CHUNK_EDGE as int * FP_ONE as int,
                MAX_CHUNK_COORD as int,
                0x100000,
            );
        }
        let min = Vec3 {
            x: position.x * (CHUNK_EDGE * FP_ONE),
            y: position.y * (CHUNK_EDGE * FP_ONE),
            z: position.z * (CHUNK_EDGE * FP_ONE),
        };
        let max = Vec3 {
            x: min.x + CHUNK_EDGE * FP_ONE,
            y: min.y + CHUNK_EDGE * FP_ONE,
            z: min.z + CHUNK_EDGE * FP_ONE,
        };
        Chunk {
            id,
            position,
            aabb: Aabb::from_params(min, max),
            blocks: Vec::new(),
            instances: Vec::new(),
        }
    }

    pub closed spec fn spec_id(self) -> u128 {
        self.id
    }

    pub closed spec fn spec_origin(self) -> Vec3 {
        self.position
    }

    pub closed spec fn spec_aabb(self) -> Aabb {
        self.aabb
    }

    pub closed spec fn blocks_view(self) -> Seq<Block> {
        self.blocks@
    }

    pub closed spec fn instances_view(self) -> Seq<Instance> {
        self.instances@
    }

    pub fn id(&self) -> (r: u128)
        ensures
            r == self.spec_id(),
    {
        self.id
    }

    /// The world box fixed at construction.
    pub fn aabb(&self) -> (r: Aabb)
        ensures
            r == self.spec_aabb(),
    {
        self.aabb
    }

    /// The chunk-grid origin.
    pub fn origin(&self) -> (r: Vec3)
        ensures
            r == self.spec_origin(),
    {
        self.position
    }

    /// Whether a block with this decoded local position is stored.
    pub fn exists_block(&self, position: (u32, u32, u32)) -> (r: bool)
        ensures
            r == self.spec_has_block(position),
    {
        let n = self.blocks.len();
        let mut i: usize = 0;
        while i < n
            invariant
                n == self.blocks@.len(),
                0 <= i <= n,
                forall|j: int| 0 <= j < i ==> (#[trigger] self.blocks@[j]).spec_position() != position,
            decreases n - i,
        {
            let p = self.blocks[i].position();
            if p.0 == position.0 && p.1 == position.1 && p.2 == position.2 {
                proof {
                    assert(self.blocks_view()[i as int].spec_position() == position);
                }
                return true;
            }
            i = i + 1;
        }
        false
    }

    /// Store a block and its derived render instance.  The block count is
    /// capped by the 32-bit instance count of the draw command.
    pub fn add_block(&mut self, block: Block)
        requires
            old(self).wf(),
            old(self).blocks_view().len() < 0xffff_ffff,
        ensures
            final (self).wf(),
            final (self).blocks_view() == old(self).blocks_view().push(block),
            final (self).instances_view() == old(self).instances_view().push(
                derived_instance(old(self).spec_origin(), block),
            ),
            final (self).spec_id() == old(self).spec_id(),
            final (self).spec_origin() == old(self).spec_origin(),
            final (self).spec_aabb() == old(self).spec_aabb(),
    {
        proof {
            let d = block.raw();
            assert(block_x(d) <= 15 && block_y(d) <= 15 && block_z(d) <= 15 && block_id(d)
                <= 0xffff) by (bit_vector);
            crate::math::lemma_mul_bound(
                self.position.x as int,
                CHUNK_EDGE as int,
                MAX_CHUNK_COORD as int,
                16,
            );
            crate::math::lemma_mul_bound(
                self.position.y as int,
                CHUNK_EDGE as int,
                MAX_CHUNK_COORD as int,
                16,
            );
            crate::math::lemma_mul_bound(
                self.position.z as int,
                CHUNK_EDGE as int,
                MAX_CHUNK_COORD as int,
                16,
            );
        }
        let bp = block.position();
        let bid = block.id();
        let world = Vec3 {
            x: self.position.x * CHUNK_EDGE + bp.0 as i64,
            y: self.position.y * CHUNK_EDGE + bp.1 as i64,
            z: self.position.z * CHUNK_EDGE + bp.2 as i64,
        };
        self.blocks.push(block);
        self.instances.push(Instance::new(world, bid));
    }

    /// Build a block from a local position and an identifier and store it.
    pub fn add_block_data(&mut self, position: (u32, u32, u32), id: u16)
        requires
            old(self).wf(),
            old(self).blocks_view().len() < 0xffff_ffff,
            position.0 < 16,
            position.1 < 16,
            position.2 < 16,
        ensures
            final (self).wf(),
            final (self).blocks_view().len() == old(self).blocks_view().len() + 1,
            final (self).blocks_view().drop_last() == old(self).blocks_view(),
            final (self).blocks_view().last().raw() == packed(
                0,
                position.0,
                position.1,
                position.2,
                id,
            ),
            final (self).blocks_view().last().spec_position() == position,
            final (self).blocks_view().last().spec_id() == id,
            final (self).instances_view() == old(self).instances_view().push(
                derived_instance(old(self).spec_origin(), final (self).blocks_view().last()),
            ),
            final (self).spec_id() == old(self).spec_id(),
            final (self).spec_origin() == old(self).spec_origin(),
            final (self).spec_aabb() == old(self).spec_aabb(),
    {
        let block = Block::default().with_position(position).with_id(id);
        proof {
            lemma_block_round_trip(0, position.0, position.1, position.2, id);
        }
        self.add_block(block);
    }

    /// Remove the last-scanned block whose decoded position matches, by
    /// swap-remove, together with its derived instance; order among the
    /// remaining blocks is not preserved.  Removing a position that is not
    /// stored changes nothing.
    pub fn remove_block(&mut self, position: (u32, u32, u32))
        requires
            old(self).wf(),
        ensures
            final (self).wf(),
            final (self).spec_id() == old(self).spec_id(),
            final (self).spec_origin() == old(self).spec_origin(),
            final (self).spec_aabb() == old(self).spec_aabb(),
            !old(self).spec_has_block(position) ==> *final (self) == *old(self),
            old(self).spec_has_block(position) ==> exists|i: int|
                {
                    &&& 0 <= i < old(self).blocks_view().len()
                    &&& (#[trigger] old(self).blocks_view()[i]).spec_position() == position
                    &&& forall|j: int|
                        i < j < old(self).blocks_view().len() ==> (#[trigger] old(
                            self,
                        ).blocks_view()[j]).spec_position() != position
                    &&& final (self).blocks_view() == old(self).blocks_view().update(
                        i,
                        old(self).blocks_view().last(),
                    ).drop_last()
                    &&& final (self).instances_view() == old(self).instances_view().update(
                        i,
                        old(self).instances_view().last(),
                    ).drop_last()
                },
    {
        let n = self.blocks.len();
        let mut idx: Option<usize> = None;
        let mut k: usize = 0;
        while k < n
            invariant
                n == self.blocks@.len(),
                0 <= k <= n,
                match idx {
                    Some(i) => {
                        &&& 0 <= i < k
                        &&& self.blocks@[i as int].spec_position() == position
                        &&& forall|j: int|
                            i < j < k ==> (#[trigger] self.blocks@[j]).spec_position() != position
                    },
                    None => forall|j: int|
                        0 <= j < k ==> (#[trigger] self.blocks@[j]).spec_position() != position,
                },
            decreases n - k,
        {
            let p = self.blocks[k].position();
            if p.0 == position.0 && p.1 == position.1 && p.2 == position.2 {
                idx = Some(k);
            }
            k = k + 1;
        }

        if let Some(i) = idx {
            self.blocks.swap_remove(i);
            self.instances.swap_remove(i);
            proof {
                assert forall|j: int| 0 <= j < self.blocks@.len() implies self.instances@[j]
                    == derived_instance(self.position, self.blocks@[j]) by {}
            }
        }
    }

    /// Declare the chunk's GPU resources: one vertex buffer holding every
    /// instance in wire form, and the instanced pipeline over it.
    pub fn setup(&self) -> (r: CommandBuffer<NCommandSetup>)
        requires
            self.wf(),
        ensures
            r@.len() == 2,
            r@[0] matches NCommandSetup::CreateBuffer(data, usage) && data@ == instances_bytes(
                self.instances_view(),
            ) && usage == BUFFER_USAGE_VERTEX,
            r@[1] matches NCommandSetup::CreatePipeline(bgs, shader, layouts, use_model) && bgs@
                =~= Seq::<Index>::empty() && shader@ == "chunk_instance"@ && layouts@.len() == 1
                && is_instance_layout(layouts@[0]) && use_model == true,
    {
        let mut buffer = CommandBuffer::<NCommandSetup>::new();

        let mut data: Vec<u8> = Vec::new();
        let n = self.instances.len();
        let mut i: usize = 0;
        while i < n
            invariant
                self.wf(),
                n == self.instances@.len(),
                0 <= i <= n,
                data@ == instances_bytes(self.instances@.take(i as int)),
            decreases n - i,
        {
            let inst = self.instances[i];
            proof {
                let d = self.blocks@[i as int].raw();
                assert(block_x(d) <= 15 && block_y(d) <= 15 && block_z(d) <= 15) by (bit_vector);
                crate::math::lemma_mul_bound(
                    self.spec_origin().x as int,
                    CHUNK_EDGE as int,
                    MAX_CHUNK_COORD as int,
                    16,
                );
                crate::math::lemma_mul_bound(
                    self.spec_origin().y as int,
                    CHUNK_EDGE as int,
                    MAX_CHUNK_COORD as int,
                    16,
                );
                crate::math::lemma_mul_bound(
                    self.spec_origin().z as int,
                    CHUNK_EDGE as int,
                    MAX_CHUNK_COORD as int,
                    16,
                );
            }
            let raw = inst.to_raw();
            raw.write_bytes(&mut data);
            proof {
                let s = self.instances@;
                assert(s.take(i + 1 as int).drop_last() =~= s.take(i as int));
                assert(s.take(i + 1 as int).last() == s[i as int]);
            }
            i = i + 1;
        }
        proof {
            assert(self.instances@.take(n as int) =~= self.instances@);
        }

        buffer.push(NCommandSetup::CreateBuffer(data, BUFFER_USAGE_VERTEX));

        let layouts_vec = instance_layout_vec();
        buffer.push(
            NCommandSetup::CreatePipeline(Vec::new(), "chunk_instance", layouts_vec, true),
        );

        buffer
    }

    /// Emit the chunk's draw program: select its pipeline, bind the
    /// instance buffer at vertex slot one, and draw the shared cube mesh
    /// once per stored block.  A chunk with no blocks still emits the full
    /// program, drawing zero instances.
    pub fn render(&self) -> (r: CommandBuffer<NCommandRender>)
        requires
            self.wf(),
        ensures
            r@.len() == 3,
            r@[0] == NCommandRender::SetPipeline(0),
            r@[1] == NCommandRender::SetVertexBuffer(1, 0),
            r@[2] matches NCommandRender::DrawModelIndexed(mesh, count, extra) && mesh == 0
                && count == self.blocks_view().len() && extra@ =~= Seq::<Index>::empty(),
    {
        let mut buffer = CommandBuffer::<NCommandRender>::new();
        buffer.push(NCommandRender::SetPipeline(0));
        buffer.push(NCommandRender::SetVertexBuffer(1, 0));
        buffer.push(
            NCommandRender::DrawModelIndexed(0, self.blocks.len() as u32, Vec::new()),
        );
        buffer
    }
}

impl Model for Chunk {
    /// A chunk is coherent exactly when its storage is.
    open spec fn inv(&self) -> bool {
        Chunk::wf(*self)
    }

    open spec fn spec_id(&self) -> u128 {
        Chunk::spec_id(*self)
    }

    /// The world box fixed at construction.
    open spec fn spec_aabb(&self) -> Aabb {
        Chunk::spec_aabb(*self)
    }

    /// The chunk's world position for distance culling: the near corner of
    /// its box (the origin scaled to world units).
    open spec fn spec_position(&self) -> Vec3 {
        Chunk::spec_aabb(*self).min
    }

    /// Every setup buffer a chunk emits: the instance buffer's exact bytes
    /// followed by the instanced-pipeline declaration.
    open spec fn setup_wf(&self, cmds: Seq<NCommandSetup>) -> bool {
        &&& cmds.len() == 2
        &&& cmds[0] matches NCommandSetup::CreateBuffer(data, usage) && data@ == instances_bytes(
            self.instances_view(),
        ) && usage == BUFFER_USAGE_VERTEX
        &&& cmds[1] matches NCommandSetup::CreatePipeline(bgs, shader, layouts, use_model)
            && bgs@ == Seq::<Index>::empty() && shader@ == "chunk_instance"@ && layouts@.len()
            == 1 && is_instance_layout(layouts@[0]) && use_model == true
    }

    /// Every render buffer a chunk emits: select its pipeline, bind the
    /// instance buffer, draw one instance per stored block.
    open spec fn render_wf(&self, cmds: Seq<NCommandRender>) -> bool {
        &&& cmds.len() == 3
        &&& cmds[0] == NCommandRender::SetPipeline(0)
        &&& cmds[1] == NCommandRender::SetVertexBuffer(1, 0)
        &&& cmds[2] matches NCommandRender::DrawModelIndexed(mesh, count, extra) && mesh == 0
            && count == self.blocks_view().len() && extra@ == Seq::<Index>::empty()
    }

    fn id(&self) -> (r: u128) {
        Chunk::id(self)
    }

    fn aabb(&self) -> (r: Aabb) {
        proof {
            lemma_chunk_aabb_bounded(*self);
        }
        Chunk::aabb(self)
    }

    fn position(&self) -> (r: Vec3) {
        proof {
            lemma_chunk_aabb_bounded(*self);
        }
        Chunk::aabb(self).min
    }

    fn setup(&self) -> (r: CommandBuffer<NCommandSetup>) {
        Chunk::setup(self)
    }

    fn render(&self) -> (r: CommandBuffer<NCommandRender>) {
        Chunk::render(self)
    }
}

/// A chunk's setup buffer always interprets: it declares a buffer and an
/// unshared pipeline with no positional references, so no registry and no
/// prior declarations are needed.
pub proof fn lemma_chunk_setup_interprets<M: crate::app::Model>(
    c: Chunk,
    cmds: Seq<NCommandSetup>,
    others: Seq<crate::app::NModel<M>>,
)
    requires
        c.setup_wf(cmds),
    ensures
        crate::app::spec_setup_ok(cmds, others, 0, 0),
{
    let rest1 = cmds.drop_first();
    let rest2 = rest1.drop_first();
    assert(rest1[0] == cmds[1]);
    assert(rest2.len() == 0);
    assert(crate::app::spec_setup_ok(rest2, others, 1, 0));
    assert(crate::app::spec_setup_ok(rest1, others, 1, 0));
    assert(crate::app::spec_setup_ok(cmds, others, 0, 0));
}

/// Registering a chunk is owed to succeed: whatever buffer its `setup`
/// emitted, the registration outcome must be success.
pub proof fn lemma_chunk_registration_succeeds(
    c: Chunk,
    others: Seq<crate::app::NModel<Chunk>>,
    ok: bool,
)
    requires
        crate::app::setup_outcome_described(c, others, ok),
    ensures
        ok,
{
    let cmds = choose|cmds: Seq<NCommandSetup>|
        #[trigger] c.setup_wf(cmds) && (ok <==> crate::app::spec_setup_ok(cmds, others, 0, 0));
    lemma_chunk_setup_interprets(c, cmds, others);
}

/// Interpreting `CreateModel` of a chunk always registers it: a chunk's
/// setup buffer interprets against any registry (its only cross-entity
/// dependency would be a shared pipeline, and it declares none), so the
/// outcome is success and the registry grows by exactly that chunk.
pub proof fn lemma_chunk_create_model_registers<A: crate::app::Actor<Chunk>>(
    pre: crate::app::App<Chunk, A>,
    post: crate::app::App<Chunk, A>,
    c: Chunk,
    r: Result<Vec<crate::app::DeviceAction>, crate::app::CommandError>,
)
    requires
        crate::app::update_transition(pre, post, NCommandUpdate::CreateModel(c), r),
    ensures
        r is Ok,
        post.spec_models().view_models().len() == pre.spec_models().view_models().len() + 1,
        post.spec_models().view_models().last().spec_model() == c,
        post.spec_models().view_models().drop_last() == pre.spec_models().view_models(),
{
    lemma_chunk_registration_succeeds(c, pre.spec_models().view_models(), r is Ok);
}

/// A coherent chunk's world box is ordered and lies in the coordinate
/// range.
proof fn lemma_chunk_aabb_bounded(c: Chunk)
    requires
        c.wf(),
    ensures
        c.spec_aabb().wf(),
        c.spec_aabb().bounded(),
{
    crate::math::lemma_mul_bound(
        c.spec_origin().x as int,
        CHUNK_EDGE as int * FP_ONE as int,
        MAX_CHUNK_COORD as int,
        0x100000,
    );
    crate::math::lemma_mul_bound(
        c.spec_origin().y as int,
        CHUNK_EDGE as int * FP_ONE as int,
        MAX_CHUNK_COORD as int,
        0x100000,
    );
    crate::math::lemma_mul_bound(
        c.spec_origin().z as int,
        CHUNK_EDGE as int * FP_ONE as int,
        MAX_CHUNK_COORD as int,
        0x100000,
    );
}

/// The one-element vertex-layout list of the chunk pipeline.
fn instance_layout_vec() -> (r: Vec<VertexBufferLayout>)
    ensures
        r@.len() == 1,
        is_instance_layout(r@[0]),
{
    let mut v: Vec<VertexBufferLayout> = Vec::new();
    v.push(InstanceRaw::desc());
    v
}

} // verus!
