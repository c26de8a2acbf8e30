//! The chunk mesh engine: a 32x32x32 block grid, the dense quad list with
//! its per-block face-slot bookkeeping, full mesh generation, incremental
//! single-face add and swap-remove, combined block replacement, and the
//! growth policy of the GPU-visible buffers.
//!
//! The vertex and index buffers are kept as owned mirrors of the GPU
//! buffer contents (in whole quads and indices); a renderer uploads them
//! and re-uploads what an edit changed.

use vstd::prelude::*;

use rand::Rng;

use crate::block::{gen_face_spec, lemma_quad_owner, ChunkBlock, Quad, Vertex};
use crate::codec::FaceSlots;
use crate::cull::{blocks_ok, count_faces, emitted, faces_at, lemma_count_bound};
use crate::face::{BlockFace, Vec3i};
use crate::grid::{
    block_idx_to_pos, block_pos_to_idx, lemma_index_to_pos_to_index, lemma_neighbor,
    lemma_neighbor_flip, lemma_pos_to_index_to_pos, pos_to_index_spec, pos_x, pos_y, pos_z, UVec3,
};
use crate::registry::{Color, BlockRegistry, Vec2u};

verus! {

/// The grid coordinates of flat index `i`.
pub open spec fn cell_of(i: int) -> UVec3 {
    UVec3 { x: pos_x(i) as u32, y: pos_y(i) as u32, z: pos_z(i) as u32 }
}

/// The face slot recorded in grid `s` for face `f` of block `i`.
pub open spec fn slot_of(s: Seq<ChunkBlock>, i: int, f: BlockFace) -> Option<usize> {
    s[i].slots.get_spec(f)
}

/// The quad contents face `f` of block `i` meshes to.
pub open spec fn quad_of(reg: &BlockRegistry, s: Seq<ChunkBlock>, i: int, f: BlockFace) -> Quad {
    gen_face_spec(reg, s[i].id as int, s[i].dir, cell_of(i), f)
}

/// Some block in `s` records quad slot `k`.
pub open spec fn slot_owned(s: Seq<ChunkBlock>, k: int) -> bool {
    exists|i: int, f: BlockFace| 0 <= i < 32768 && #[trigger] slot_of(s, i, f) == Some(k as usize)
}

/// No block in `s` records any face slot.
pub open spec fn all_slots_absent(s: Seq<ChunkBlock>) -> bool {
    forall|i: int, f: BlockFace| 0 <= i < 32768 ==> #[trigger] slot_of(s, i, f) is None
}

/// The index entry pattern `{0, 1, 2, 2, 3, 0}` within one face.
pub open spec fn index_offset(k: int) -> int {
    if k == 0 {
        0
    } else if k == 1 {
        1
    } else if k == 2 {
        2
    } else if k == 3 {
        2
    } else if k == 4 {
        3
    } else {
        0
    }
}

/// An index buffer pre-filled for its whole face capacity with the
/// `{0, 1, 2, 2, 3, 0}` pattern, offset by 4 per face slot.
pub open spec fn index_pattern(ib: Seq<u32>) -> bool {
    &&& ib.len() % 6 == 0
    &&& forall|m: int| 0 <= m < ib.len() ==> #[trigger] ib[m] == 4 * (m / 6) + index_offset(m % 6)
}

/// A chunk: its position in chunk units, the block grid, the dense quad
/// list, and the mirrors of the GPU vertex and index buffers (present
/// once the mesh has been built; their length is the allocated capacity,
/// which may exceed the live quad count).
pub struct Chunk {
    pub pos: Vec3i,
    pub blocks: Vec<ChunkBlock>,
    pub vertices: Vec<Quad>,
    pub vertex_buffer: Option<Vec<Quad>>,
    pub index_buffer: Option<Vec<u32>>,
}

impl Chunk {
    /// Face slots index the quad list exactly: every recorded slot is
    /// live and holds that face's quad, no two faces share a slot, and
    /// every live slot is owned.
    pub open spec fn slots_wf(&self, reg: &BlockRegistry) -> bool {
        let s = self.blocks@;
        let q = self.vertices@;
        &&& forall|i: int, f: BlockFace|
            0 <= i < 32768 && (#[trigger] slot_of(s, i, f)) is Some ==> slot_of(s, i, f).unwrap()
                < q.len() && q[slot_of(s, i, f).unwrap() as int] == quad_of(reg, s, i, f)
        &&& forall|i1: int, f1: BlockFace, i2: int, f2: BlockFace|
            (0 <= i1 < 32768 && 0 <= i2 < 32768 && (#[trigger] slot_of(s, i1, f1)) is Some
                && slot_of(s, i1, f1) == #[trigger] slot_of(s, i2, f2)) ==> (i1 == i2 && f1 == f2)
        &&& forall|k: int| 0 <= k < q.len() ==> #[trigger] slot_owned(s, k)
    }

    /// A face slot is recorded exactly for the faces the culling rule
    /// emits.
    pub open spec fn slots_match_culling(&self, reg: &BlockRegistry) -> bool {
        forall|i: int, f: BlockFace|
            0 <= i < 32768 ==> ((#[trigger] slot_of(self.blocks@, i, f)) is Some <==> emitted(
                reg,
                self.blocks@,
                i,
                f,
            ))
    }

    /// The buffer mirrors agree with the quad list: the vertex buffer
    /// holds every live quad, and the index buffer is pattern-filled for
    /// at least the vertex buffer's face capacity.
    pub open spec fn buffers_wf(&self) -> bool {
        match self.vertex_buffer {
            None => self.index_buffer is None,
            Some(vb) => {
                &&& self.vertices@.len() <= vb@.len()
                &&& forall|k: int|
                    0 <= k < self.vertices@.len() ==> #[trigger] vb@[k] == self.vertices@[k]
                &&& self.index_buffer matches Some(ib) && index_pattern(ib@) && vb@.len() * 6
                    <= ib@.len()
            },
        }
    }

    /// The mesh has been built.
    pub open spec fn built(&self) -> bool {
        self.vertex_buffer is Some
    }

    /// Every auxiliary payload is empty (none of the core operations
    /// populates one).
    pub open spec fn data_clear(&self) -> bool {
        forall|i: int| 0 <= i < self.blocks@.len() ==> (#[trigger] self.blocks@[i]).data is None
    }

    /// The chunk invariant: valid block ids, clear payloads, synced
    /// buffers; when built, the face slots are a bijection between the
    /// culling rule's emitted faces and the quad list.
    pub open spec fn wf(&self, reg: &BlockRegistry) -> bool {
        &&& blocks_ok(reg, self.blocks@)
        &&& self.data_clear()
        &&& self.buffers_wf()
        &&& if self.built() {
            &&& self.slots_wf(reg)
            &&& self.slots_match_culling(reg)
            &&& self.vertices@.len() == count_faces(reg, self.blocks@)
        } else {
            &&& self.vertices@.len() == 0
            &&& all_slots_absent(self.blocks@)
        }
    }
}

/// Which of the six showcase blocks cell `i` is, or -1.
pub open spec fn special_slot(i: int) -> int {
    if pos_y(i) == 20 && pos_z(i) == 16 {
        if pos_x(i) == 16 {
            0
        } else if pos_x(i) == 18 {
            1
        } else if pos_x(i) == 20 {
            2
        } else if pos_x(i) == 22 {
            3
        } else if pos_x(i) == 24 {
            4
        } else if pos_x(i) == 26 {
            5
        } else {
            -1
        }
    } else {
        -1
    }
}

/// The orientation each showcase block is generated with.
pub open spec fn special_dir(k: int) -> BlockFace {
    if k == 0 {
        BlockFace::Front
    } else if k == 1 {
        BlockFace::Back
    } else if k == 2 {
        BlockFace::Right
    } else if k == 3 {
        BlockFace::Left
    } else if k == 4 {
        BlockFace::Top
    } else {
        BlockFace::Bottom
    }
}

/// The block type procedural generation places at cell `i`: showcase
/// blocks on one row, otherwise banded by height.
pub open spec fn gen_id_spec(i: int) -> u32 {
    if special_slot(i) >= 0 {
        4
    } else if pos_y(i) <= 9 {
        1
    } else if pos_y(i) <= 14 {
        2
    } else if pos_y(i) == 15 {
        3
    } else {
        0
    }
}

/// Relies on `rand::Rng::gen_range` over `0..n`: a draw below `n`; it
/// panics only on an empty range.
#[verifier::external_body]
fn random_below(n: u32) -> (r: u32)
    requires
        n > 0,
    ensures
        r < n,
{
    rand::thread_rng().gen_range(0..n)
}

impl Chunk {
    /// Coordinates of the block with flat index `idx`.
    pub fn block_idx_to_pos(idx: usize) -> (p: UVec3)
        requires
            idx < 32768,
        ensures
            p == cell_of(idx as int),
            p.x < 32 && p.y < 32 && p.z < 32,
    {
        block_idx_to_pos(idx)
    }

    /// Flat index of the block at coordinates `pos`.
    pub fn block_pos_to_idx(pos: UVec3) -> (idx: usize)
        requires
            pos.x < 32,
            pos.y < 32,
            pos.z < 32,
        ensures
            idx < 32768,
            cell_of(idx as int) == pos,
    {
        block_pos_to_idx(pos)
    }

    /// Procedurally generate the block grid of the chunk at `pos`. The
    /// mesh stays unbuilt. Every non-showcase block gets a random
    /// horizontal orientation.
    pub fn generate(pos: Vec3i) -> (c: Chunk)
        ensures
            c.pos == pos,
            c.vertices@.len() == 0,
            !c.built(),
            c.index_buffer is None,
            c.blocks@.len() == 32768,
            c.data_clear(),
            all_slots_absent(c.blocks@),
            forall|i: int| 0 <= i < 32768 ==> (#[trigger] c.blocks@[i]).id == gen_id_spec(i),
            forall|i: int|
                0 <= i < 32768 ==> (special_slot(i) >= 0 ==> (#[trigger] c.blocks@[i]).dir
                    == special_dir(special_slot(i))),
            forall|i: int|
                0 <= i < 32768 ==> (special_slot(i) < 0 ==> (#[trigger] c.blocks@[i]).dir.ordinal()
                    < 4),
    {
        let mut blocks: Vec<ChunkBlock> = Vec::new();
        let mut i: usize = 0;
        while i < 32768
            invariant
                i <= 32768,
                blocks@.len() == i,
                forall|t: int| 0 <= t < i ==> (#[trigger] blocks@[t]).id == gen_id_spec(t),
                forall|t: int|
                    0 <= t < i ==> (special_slot(t) >= 0 ==> (#[trigger] blocks@[t]).dir
                        == special_dir(special_slot(t))),
                forall|t: int|
                    0 <= t < i ==> (special_slot(t) < 0 ==> (#[trigger] blocks@[t]).dir.ordinal()
                        < 4),
                forall|t: int| 0 <= t < i ==> (#[trigger] blocks@[t]).data is None,
                forall|t: int, f: BlockFace|
                    0 <= t < i ==> #[trigger] blocks@[t].slots.get_spec(f) is None,
            decreases 32768 - i,
        {
            let p = block_idx_to_pos(i);
            let special: bool = p.y == 20 && p.z == 16 && (p.x == 16 || p.x == 18 || p.x == 20
                || p.x == 22 || p.x == 24 || p.x == 26);
            let id: u32;
            let dir: BlockFace;
            if special {
                id = 4;
                dir = if p.x == 16 {
                    BlockFace::Front
                } else if p.x == 18 {
                    BlockFace::Back
                } else if p.x == 20 {
                    BlockFace::Right
                } else if p.x == 22 {
                    BlockFace::Left
                } else if p.x == 24 {
                    BlockFace::Top
                } else {
                    BlockFace::Bottom
                };
            } else {
                id = if p.y <= 9 {
                    1
                } else if p.y <= 14 {
                    2
                } else if p.y == 15 {
                    3
                } else {
                    0
                };
                dir = BlockFace::from_ordinal(random_below(4) as u8);
            }
            blocks.push(ChunkBlock { id, slots: FaceSlots::empty(), dir, data: None });
            i = i + 1;
        }
        Chunk { pos, blocks, vertices: Vec::new(), vertex_buffer: None, index_buffer: None }
    }
}

/// A quad of zeroed vertices, the content of buffer slack past the live
/// quads.
fn blank_quad() -> Quad {
    let v = Vertex {
        position: Vec3i { x: 0, y: 0, z: 0 },
        tex: Vec2u { x: 0, y: 0 },
        color: Color { r: 0, g: 0, b: 0, a: 0 },
    };
    Quad { v0: v, v1: v, v2: v, v3: v }
}

impl Chunk {
    /// Ensure the buffers can take at least six more quads, reallocating
    /// to `max(1024, live * 5 / 4)` faces when they cannot; the live quad
    /// contents carry over, and the index buffer is only rebuilt when its
    /// own face capacity is insufficient.
    pub fn recreate_buffers_if_full(&mut self)
        requires
            old(self).buffers_wf(),
            old(self).vertices@.len() < 0x1ffff,
        ensures
            final(self).pos == old(self).pos,
            final(self).blocks == old(self).blocks,
            final(self).vertices == old(self).vertices,
            final(self).built(),
            final(self).buffers_wf(),
            final(self).vertices@.len() + 6 <= final(self).vertex_buffer.unwrap()@.len(),
            old(self).built() && old(self).vertices@.len() + 6 <= old(
                self,
            ).vertex_buffer.unwrap()@.len() ==> *final(self) == *old(self),
            !(old(self).built() && old(self).vertices@.len() + 6 <= old(
                self,
            ).vertex_buffer.unwrap()@.len()) ==> final(self).vertex_buffer.unwrap()@.len() == max_spec(
                1024,
                old(self).vertices@.len() * 5 as int / 4,
            ),
            (old(self).index_buffer matches Some(ib)
                && final(self).vertex_buffer.unwrap()@.len() * 6 <= ib@.len())
                ==> final(self).index_buffer == old(self).index_buffer,
    {
        let len = self.vertices.len();
        match &self.vertex_buffer {
            Some(vb) => {
                if len + 6 <= vb.len() {
                    return ;
                }
            },
            None => {},
        }
        let face_capacity = {
            let grown = len * 5 / 4;
            if grown < 1024 {
                1024
            } else {
                grown
            }
        };
        assert(len + 6 <= face_capacity) by {
            assert(len * 5 / 4 >= len + len / 4) by (nonlinear_arith);
            assert(len >= 24 ==> len / 4 >= 6) by (nonlinear_arith);
        };
        let mut vb: Vec<Quad> = Vec::new();
        let mut k: usize = 0;
        while k < len
            invariant
                k <= len,
                len == self.vertices@.len(),
                vb@.len() == k,
                forall|t: int| 0 <= t < k ==> #[trigger] vb@[t] == self.vertices@[t],
            decreases len - k,
        {
            vb.push(self.vertices[k]);
            k = k + 1;
        }
        while k < face_capacity
            invariant
                len <= k <= face_capacity,
                len == self.vertices@.len(),
                vb@.len() == k,
                forall|t: int| 0 <= t < len ==> #[trigger] vb@[t] == self.vertices@[t],
            decreases face_capacity - k,
        {
            vb.push(blank_quad());
            k = k + 1;
        }
        self.vertex_buffer = Some(vb);

        let keep_index = match &self.index_buffer {
            Some(ib) => 6 * face_capacity <= ib.len(),
            None => false,
        };
        if keep_index {
            return ;
        }
        let mut ib: Vec<u32> = Vec::new();
        let mut f: usize = 0;
        while f < face_capacity
            invariant
                f <= face_capacity,
                face_capacity <= 0x3ffff,
                ib@.len() == 6 * f,
                forall|m: int|
                    0 <= m < 6 * f ==> #[trigger] ib@[m] == 4 * (m / 6) + index_offset(m % 6),
            decreases face_capacity - f,
        {
            let base: u32 = 4 * (f as u32);
            ib.push(base);
            ib.push(base + 1);
            ib.push(base + 2);
            ib.push(base + 2);
            ib.push(base + 3);
            ib.push(base);
            proof {
                let fi = f as int;
                vstd::arithmetic::div_mod::lemma_fundamental_div_mod_converse(6 * fi, 6, fi, 0);
                vstd::arithmetic::div_mod::lemma_fundamental_div_mod_converse(
                    6 * fi + 1,
                    6,
                    fi,
                    1,
                );
                vstd::arithmetic::div_mod::lemma_fundamental_div_mod_converse(
                    6 * fi + 2,
                    6,
                    fi,
                    2,
                );
                vstd::arithmetic::div_mod::lemma_fundamental_div_mod_converse(
                    6 * fi + 3,
                    6,
                    fi,
                    3,
                );
                vstd::arithmetic::div_mod::lemma_fundamental_div_mod_converse(
                    6 * fi + 4,
                    6,
                    fi,
                    4,
                );
                vstd::arithmetic::div_mod::lemma_fundamental_div_mod_converse(
                    6 * fi + 5,
                    6,
                    fi,
                    5,
                );
            }
            f = f + 1;
        }
        proof {
            vstd::arithmetic::div_mod::lemma_mod_multiples_basic(face_capacity as int, 6);
        }
        self.index_buffer = Some(ib);
    }
}

/// Slot bookkeeping measured against the generation grid `sgen`: the
/// recorded slots of `s` index `q` exactly, and each holds the quad its
/// face meshes to under `sgen`'s block types and orientations.
pub open spec fn slots_gen_wf(
    reg: &BlockRegistry,
    s: Seq<ChunkBlock>,
    q: Seq<Quad>,
    sgen: Seq<ChunkBlock>,
) -> bool {
    &&& forall|i: int, f: BlockFace|
        0 <= i < 32768 && (#[trigger] slot_of(s, i, f)) is Some ==> slot_of(s, i, f).unwrap()
            < q.len() && q[slot_of(s, i, f).unwrap() as int] == quad_of(reg, sgen, i, f)
    &&& forall|i1: int, f1: BlockFace, i2: int, f2: BlockFace|
        (0 <= i1 < 32768 && 0 <= i2 < 32768 && (#[trigger] slot_of(s, i1, f1)) is Some && slot_of(
            s,
            i1,
            f1,
        ) == #[trigger] slot_of(s, i2, f2)) ==> (i1 == i2 && f1 == f2)
    &&& forall|k: int| 0 <= k < q.len() ==> #[trigger] slot_owned(s, k)
}

impl Chunk {
    /// Rewrite one block's slot for `face`, leaving its type, orientation
    /// and every other block untouched.
    fn set_block_slot(&mut self, i: usize, face: BlockFace, value: Option<usize>)
        requires
            i < old(self).blocks@.len(),
            value matches Some(v) ==> v < 0x1ffff,
            old(self).blocks@[i as int].data is None,
        ensures
            final(self).pos == old(self).pos,
            final(self).vertices == old(self).vertices,
            final(self).vertex_buffer == old(self).vertex_buffer,
            final(self).index_buffer == old(self).index_buffer,
            final(self).blocks@.len() == old(self).blocks@.len(),
            forall|t: int|
                0 <= t < old(self).blocks@.len() && t != i ==> #[trigger] final(self).blocks@[t]
                    == old(self).blocks@[t],
            final(self).blocks@[i as int].id == old(self).blocks@[i as int].id,
            final(self).blocks@[i as int].dir == old(self).blocks@[i as int].dir,
            final(self).blocks@[i as int].data is None,
            final(self).blocks@[i as int].slots.get_spec(face) == value,
            forall|g: BlockFace|
                g != face ==> #[trigger] final(self).blocks@[i as int].slots.get_spec(g) == old(
                    self,
                ).blocks@[i as int].slots.get_spec(g),
            forall|t: int, g: BlockFace|
                0 <= t < old(self).blocks@.len() && !(t == i && g == face) ==> #[trigger] slot_of(
                    final(self).blocks@,
                    t,
                    g,
                ) == slot_of(old(self).blocks@, t, g),
            slot_of(final(self).blocks@, i as int, face) == value,
    {
        let id0 = self.blocks[i].id;
        let dir0 = self.blocks[i].dir;
        let mut slots0 = self.blocks[i].slots;
        slots0.set(face, value);
        self.blocks[i] = ChunkBlock { id: id0, slots: slots0, dir: dir0, data: None };
    }

    /// Patch one quad of the vertex-buffer mirror.
    fn buffer_write(&mut self, k: usize, q: Quad)
        requires
            old(self).vertex_buffer matches Some(vb) && k < vb@.len(),
        ensures
            final(self).pos == old(self).pos,
            final(self).blocks == old(self).blocks,
            final(self).vertices == old(self).vertices,
            final(self).index_buffer == old(self).index_buffer,
            final(self).vertex_buffer matches Some(vb2) && vb2@ == old(
                self,
            ).vertex_buffer.unwrap()@.update(k as int, q),
    {
        let mut vb = self.vertex_buffer.take().unwrap();
        vb[k] = q;
        self.vertex_buffer = Some(vb);
    }

    /// Append one quad for face `face` of the (non-air) block at `idx`,
    /// record its slot, and patch the buffer mirror. The caller has run
    /// the growth check; on an unbuilt chunk this is a no-op.
    pub fn add_face(&mut self, reg: &BlockRegistry, idx: usize, face: BlockFace)
        requires
            reg.wf(),
            blocks_ok(reg, old(self).blocks@),
            old(self).data_clear(),
            old(self).buffers_wf(),
            old(self).slots_wf(reg),
            idx < 32768,
            old(self).built() ==> old(self).blocks@[idx as int].id != 0,
            old(self).built() ==> old(self).vertices@.len() < old(
                self,
            ).vertex_buffer.unwrap()@.len(),
            old(self).built() ==> old(self).vertices@.len() < 0x1fffe,
            old(self).built() ==> slot_of(old(self).blocks@, idx as int, face) is None,
        ensures
            !old(self).built() ==> *final(self) == *old(self),
            final(self).pos == old(self).pos,
            final(self).index_buffer == old(self).index_buffer,
            final(self).built() == old(self).built(),
            old(self).built() ==> {
                let s0 = old(self).blocks@;
                let q0 = old(self).vertices@;
                let added = quad_of(reg, s0, idx as int, face);
                &&& final(self).vertices@ == q0.push(added)
                &&& final(self).vertex_buffer.unwrap()@ == old(
                    self,
                ).vertex_buffer.unwrap()@.update(q0.len() as int, added)
                &&& final(self).blocks@.len() == 32768
                &&& forall|t: int, g: BlockFace|
                    0 <= t < 32768 && !(t == idx && g == face) ==> #[trigger] slot_of(
                        final(self).blocks@,
                        t,
                        g,
                    ) == slot_of(s0, t, g)
                &&& slot_of(final(self).blocks@, idx as int, face) == Some(q0.len() as usize)
                &&& forall|t: int|
                    0 <= t < 32768 ==> (#[trigger] final(self).blocks@[t]).id == s0[t].id
                &&& forall|t: int|
                    0 <= t < 32768 ==> (#[trigger] final(self).blocks@[t]).dir == s0[t].dir
                &&& final(self).data_clear()
                &&& final(self).buffers_wf()
                &&& final(self).slots_wf(reg)
                &&& blocks_ok(reg, final(self).blocks@)
            },
    {
        if self.vertex_buffer.is_none() {
            return ;
        }
        let ghost s0 = self.blocks@;
        proof {
            assert(slots_gen_wf(reg, s0, self.vertices@, s0));
        }
        self.add_face_at(reg, idx, face, Ghost(s0));
        proof {
            let sf = self.blocks@;
            assert forall|t: int, g: BlockFace| 0 <= t < 32768 implies #[trigger] quad_of(
                reg,
                sf,
                t,
                g,
            ) == quad_of(reg, s0, t, g) by {
                assert(sf[t].id == s0[t].id);
                assert(sf[t].dir == s0[t].dir);
            }
        }
    }

    /// The body of `add_face` on a built chunk, with the quad contents
    /// measured against the generation grid `sgen` (which must agree with
    /// the live grid on the block being meshed).
    fn add_face_at(
        &mut self,
        reg: &BlockRegistry,
        idx: usize,
        face: BlockFace,
        Ghost(sgen): Ghost<Seq<ChunkBlock>>,
    )
        requires
            reg.wf(),
            blocks_ok(reg, old(self).blocks@),
            old(self).data_clear(),
            old(self).buffers_wf(),
            old(self).built(),
            sgen.len() == 32768,
            slots_gen_wf(reg, old(self).blocks@, old(self).vertices@, sgen),
            sgen[idx as int].id == old(self).blocks@[idx as int].id,
            sgen[idx as int].dir == old(self).blocks@[idx as int].dir,
            idx < 32768,
            old(self).blocks@[idx as int].id != 0,
            old(self).vertices@.len() < old(self).vertex_buffer.unwrap()@.len(),
            old(self).vertices@.len() < 0x1fffe,
            slot_of(old(self).blocks@, idx as int, face) is None,
        ensures
            final(self).pos == old(self).pos,
            final(self).index_buffer == old(self).index_buffer,
            final(self).built(),
            ({
                let s0 = old(self).blocks@;
                let q0 = old(self).vertices@;
                let added = quad_of(reg, sgen, idx as int, face);
                &&& final(self).vertices@ == q0.push(added)
                &&& final(self).vertex_buffer.unwrap()@ == old(
                    self,
                ).vertex_buffer.unwrap()@.update(q0.len() as int, added)
                &&& final(self).vertex_buffer.unwrap()@.len() == old(
                    self,
                ).vertex_buffer.unwrap()@.len()
                &&& final(self).blocks@.len() == 32768
                &&& forall|t: int, g: BlockFace|
                    0 <= t < 32768 && !(t == idx && g == face) ==> #[trigger] slot_of(
                        final(self).blocks@,
                        t,
                        g,
                    ) == slot_of(s0, t, g)
                &&& slot_of(final(self).blocks@, idx as int, face) == Some(q0.len() as usize)
                &&& forall|t: int|
                    0 <= t < 32768 ==> (#[trigger] final(self).blocks@[t]).id == s0[t].id
                &&& forall|t: int|
                    0 <= t < 32768 ==> (#[trigger] final(self).blocks@[t]).dir == s0[t].dir
                &&& final(self).data_clear()
                &&& final(self).buffers_wf()
                &&& slots_gen_wf(reg, final(self).blocks@, final(self).vertices@, sgen)
                &&& blocks_ok(reg, final(self).blocks@)
            }),
    {
        let ghost s0 = self.blocks@;
        let ghost q0 = self.vertices@;
        let face_i = self.vertices.len();
        self.set_block_slot(idx, face, Some(face_i));
        let p = block_idx_to_pos(idx);
        let q = self.blocks[idx].gen_face(reg, p, face);
        proof {
            assert(p == cell_of(idx as int));
            assert(q == quad_of(reg, sgen, idx as int, face));
        }
        self.vertices.push(q);
        self.buffer_write(face_i, q);
        proof {
            let sf = self.blocks@;
            let qf = self.vertices@;
            assert forall|i1: int, f1: BlockFace, i2: int, f2: BlockFace|
                (0 <= i1 < 32768 && 0 <= i2 < 32768 && (#[trigger] slot_of(sf, i1, f1)) is Some
                    && slot_of(sf, i1, f1) == #[trigger] slot_of(sf, i2, f2)) implies (i1 == i2
                && f1 == f2) by {
                if (i1 == idx as int && f1 == face) != (i2 == idx as int && f2 == face) {
                    assert(slot_of(sf, i1, f1) != slot_of(sf, i2, f2));
                }
            }
            assert forall|k: int| 0 <= k < qf.len() implies #[trigger] slot_owned(sf, k) by {
                if k < q0.len() {
                    assert(slot_owned(s0, k));
                    let (i2, f2) = choose|i2: int, f2: BlockFace|
                        0 <= i2 < 32768 && #[trigger] slot_of(s0, i2, f2) == Some(k as usize);
                    assert(slot_of(sf, i2, f2) == Some(k as usize));
                } else {
                    assert(slot_of(sf, idx as int, face) == Some(k as usize));
                }
            }
        }
    }

    /// Remove the quad recorded for face `face` of block `idx`, keeping
    /// the quad list dense: the last quad moves into the vacated slot and
    /// the block owning it (recovered from the moved quad's geometry) is
    /// re-tagged. A missing slot or an unbuilt chunk is a no-op.
    pub fn remove_face(&mut self, reg: &BlockRegistry, idx: usize, face: BlockFace)
        requires
            reg.wf(),
            blocks_ok(reg, old(self).blocks@),
            old(self).data_clear(),
            old(self).buffers_wf(),
            old(self).slots_wf(reg),
            old(self).vertices@.len() <= 0x1ffff,
            idx < 32768,
        ensures
            !old(self).built() ==> *final(self) == *old(self),
            old(self).built() && slot_of(old(self).blocks@, idx as int, face) is None
                ==> *final(self) == *old(self),
            final(self).pos == old(self).pos,
            final(self).index_buffer == old(self).index_buffer,
            final(self).built() == old(self).built(),
            old(self).built() && slot_of(old(self).blocks@, idx as int, face) is Some ==> {
                let s0 = old(self).blocks@;
                let q0 = old(self).vertices@;
                let k = slot_of(s0, idx as int, face).unwrap() as int;
                let last = (q0.len() - 1) as int;
                &&& final(self).vertices@ == q0.update(k, q0.last()).drop_last()
                &&& final(self).vertex_buffer.unwrap()@.len() == old(
                    self,
                ).vertex_buffer.unwrap()@.len()
                &&& final(self).blocks@.len() == 32768
                &&& forall|t: int, g: BlockFace|
                    0 <= t < 32768 ==> #[trigger] slot_of(final(self).blocks@, t, g) == (if t
                        == idx as int && g == face {
                        None
                    } else if slot_of(s0, t, g) == Some(last as usize) {
                        Some(k as usize)
                    } else {
                        slot_of(s0, t, g)
                    })
                &&& forall|t: int|
                    0 <= t < 32768 ==> (#[trigger] final(self).blocks@[t]).id == s0[t].id
                &&& forall|t: int|
                    0 <= t < 32768 ==> (#[trigger] final(self).blocks@[t]).dir == s0[t].dir
                &&& final(self).data_clear()
                &&& final(self).buffers_wf()
                &&& final(self).slots_wf(reg)
                &&& blocks_ok(reg, final(self).blocks@)
            },
    {
        if self.vertex_buffer.is_none() {
            return ;
        }
        let ghost s0 = self.blocks@;
        proof {
            assert(slots_gen_wf(reg, s0, self.vertices@, s0));
        }
        self.remove_face_at(reg, idx, face, Ghost(s0));
        proof {
            let sf = self.blocks@;
            if slot_of(s0, idx as int, face) is Some {
                assert forall|t: int, g: BlockFace| 0 <= t < 32768 implies #[trigger] quad_of(
                    reg,
                    sf,
                    t,
                    g,
                ) == quad_of(reg, s0, t, g) by {
                    assert(sf[t].id == s0[t].id);
                    assert(sf[t].dir == s0[t].dir);
                }
            }
        }
    }

    /// The body of `remove_face` on a built chunk, with the quad contents
    /// measured against the generation grid `sgen`.
    #[verifier::rlimit(100)]
    fn remove_face_at(
        &mut self,
        reg: &BlockRegistry,
        idx: usize,
        face: BlockFace,
        Ghost(sgen): Ghost<Seq<ChunkBlock>>,
    )
        requires
            reg.wf(),
            blocks_ok(reg, old(self).blocks@),
            old(self).data_clear(),
            old(self).buffers_wf(),
            old(self).built(),
            sgen.len() == 32768,
            slots_gen_wf(reg, old(self).blocks@, old(self).vertices@, sgen),
            old(self).vertices@.len() <= 0x1ffff,
            idx < 32768,
        ensures
            slot_of(old(self).blocks@, idx as int, face) is None ==> *final(self) == *old(self),
            final(self).pos == old(self).pos,
            final(self).index_buffer == old(self).index_buffer,
            final(self).built(),
            slot_of(old(self).blocks@, idx as int, face) is Some ==> {
                let s0 = old(self).blocks@;
                let q0 = old(self).vertices@;
                let k = slot_of(s0, idx as int, face).unwrap() as int;
                let last = (q0.len() - 1) as int;
                &&& final(self).vertices@ == q0.update(k, q0.last()).drop_last()
                &&& final(self).vertex_buffer.unwrap()@.len() == old(
                    self,
                ).vertex_buffer.unwrap()@.len()
                &&& final(self).blocks@.len() == 32768
                &&& forall|t: int, g: BlockFace|
                    0 <= t < 32768 ==> #[trigger] slot_of(final(self).blocks@, t, g) == (if t
                        == idx as int && g == face {
                        None
                    } else if slot_of(s0, t, g) == Some(last as usize) {
                        Some(k as usize)
                    } else {
                        slot_of(s0, t, g)
                    })
                &&& forall|t: int|
                    0 <= t < 32768 ==> (#[trigger] final(self).blocks@[t]).id == s0[t].id
                &&& forall|t: int|
                    0 <= t < 32768 ==> (#[trigger] final(self).blocks@[t]).dir == s0[t].dir
                &&& final(self).data_clear()
                &&& final(self).buffers_wf()
                &&& slots_gen_wf(reg, final(self).blocks@, final(self).vertices@, sgen)
                &&& blocks_ok(reg, final(self).blocks@)
            },
    {
        let slot = self.blocks[idx].face(face);
        let face_i = match slot {
            Some(face_i) => face_i,
            None => {
                return ;
            },
        };
        let ghost s0 = self.blocks@;
        let ghost q0 = self.vertices@;
        let ghost last = q0.len() - 1;
        proof {
            crate::codec::lemma_slot_value_bound(self.blocks@[idx as int].slots, face);
            assert(face_i < q0.len());
            assert(face_i < 0x1ffff);
        }
        self.set_block_slot(idx, face, None);
        let _removed = self.vertices.swap_remove(face_i);

        if face_i == self.vertices.len() {
            proof {
                let sf = self.blocks@;
                assert forall|t: int, g: BlockFace| 0 <= t < 32768 implies #[trigger] slot_of(
                    sf,
                    t,
                    g,
                ) == (if t == idx as int && g == face {
                    None
                } else if slot_of(s0, t, g) == Some((q0.len() - 1) as usize) {
                    Some(face_i as usize)
                } else {
                    slot_of(s0, t, g)
                }) by {
                    if !(t == idx as int && g == face) {
                        assert(slot_of(sf, t, g) == slot_of(s0, t, g));
                    }
                }
                lemma_remove_face_wf(reg, sgen, s0, q0, self.blocks@, self.vertices@, idx as int, face, face_i as int);
            }
            return ;
        }

        // The last quad moved into the vacated slot; recover its owning
        // block and direction from its geometry.
        let moved = self.vertices[face_i];
        let ghost (oi, of) = choose|oi: int, of: BlockFace|
            0 <= oi < 32768 && #[trigger] slot_of(s0, oi, of) == Some(last as usize);
        proof {
            assert(last < q0.len());
            assert(slot_owned(s0, last));
            assert(slot_of(s0, oi, of) == Some(last as usize));
            assert(q0[last] == quad_of(reg, sgen, oi, of));
            assert(self.vertices@ == q0.update(face_i as int, q0.last()).drop_last());
            assert(moved == q0.last());
            assert(moved == quad_of(reg, sgen, oi, of));
        }
        let (owner_idx, owner_face) = quad_owner(
            &moved,
            Ghost(of),
            Ghost(sgen[oi as int].dir),
            Ghost(crate::block::face_texture_spec(reg, sgen[oi as int].id as int, sgen[oi as int].dir, of)),
            Ghost(oi),
        );
        let ghost s1 = self.blocks@;
        proof {
            assert(self.blocks@[owner_idx as int].data is None);
            assert(face_i < 0x1ffff);
        }
        self.set_block_slot(owner_idx, owner_face, Some(face_i));
        self.buffer_write(face_i, moved);
        proof {
            lemma_relocated_map(s0, s1, self.blocks@, idx as int, face, oi, of, face_i as int, last);
            lemma_remove_face_wf(reg, sgen, s0, q0, self.blocks@, self.vertices@, idx as int, face, face_i as int);
        }
    }

}

/// After a swap-remove of slot `k` (owned by `(idx, face)` in `s0`) and
/// the re-tagging of the moved quad's owner, the slot bookkeeping is
/// again exact.
proof fn lemma_remove_face_wf(
    reg: &BlockRegistry,
    sgen: Seq<ChunkBlock>,
    s0: Seq<ChunkBlock>,
    q0: Seq<Quad>,
    sf: Seq<ChunkBlock>,
    qf: Seq<Quad>,
    idx: int,
    face: BlockFace,
    k: int,
)
    requires
        0 <= idx < 32768,
        q0.len() <= 0x20000,
        0 <= k < q0.len(),
        slot_of(s0, idx, face) == Some(k as usize),
        forall|i: int, f: BlockFace|
            0 <= i < 32768 && (#[trigger] slot_of(s0, i, f)) is Some ==> slot_of(
                s0,
                i,
                f,
            ).unwrap() < q0.len() && q0[slot_of(s0, i, f).unwrap() as int] == quad_of(
                reg,
                sgen,
                i,
                f,
            ),
        forall|i1: int, f1: BlockFace, i2: int, f2: BlockFace|
            (0 <= i1 < 32768 && 0 <= i2 < 32768 && (#[trigger] slot_of(s0, i1, f1)) is Some
                && slot_of(s0, i1, f1) == #[trigger] slot_of(s0, i2, f2)) ==> (i1 == i2 && f1
                == f2),
        forall|t: int| 0 <= t < q0.len() ==> #[trigger] slot_owned(s0, t),
        sf.len() == 32768,
        qf == q0.update(k, q0.last()).drop_last(),
        forall|t: int, g: BlockFace|
            0 <= t < 32768 ==> #[trigger] slot_of(sf, t, g) == (if t == idx && g == face {
                None
            } else if slot_of(s0, t, g) == Some((q0.len() - 1) as usize) {
                Some(k as usize)
            } else {
                slot_of(s0, t, g)
            }),
    ensures
        forall|i: int, f: BlockFace|
            0 <= i < 32768 && (#[trigger] slot_of(sf, i, f)) is Some ==> slot_of(
                sf,
                i,
                f,
            ).unwrap() < qf.len() && qf[slot_of(sf, i, f).unwrap() as int] == quad_of(
                reg,
                sgen,
                i,
                f,
            ),
        forall|i1: int, f1: BlockFace, i2: int, f2: BlockFace|
            (0 <= i1 < 32768 && 0 <= i2 < 32768 && (#[trigger] slot_of(sf, i1, f1)) is Some
                && slot_of(sf, i1, f1) == #[trigger] slot_of(sf, i2, f2)) ==> (i1 == i2 && f1
                == f2),
        forall|t: int| 0 <= t < qf.len() ==> #[trigger] slot_owned(sf, t),
{
    let last = q0.len() - 1;
    assert(k <= last);
    assert forall|i: int, f: BlockFace|
        0 <= i < 32768 && (#[trigger] slot_of(sf, i, f)) is Some implies slot_of(
        sf,
        i,
        f,
    ).unwrap() < qf.len() && qf[slot_of(sf, i, f).unwrap() as int] == quad_of(reg, sgen, i, f) by {
        let t = slot_of(sf, i, f).unwrap() as int;
        assert(!(i == idx && f == face));
        if slot_of(s0, i, f) == Some(last as usize) {
            assert(slot_of(s0, idx, face) == Some(k as usize));
            if i == idx && f == face {
                assert(false);
            }
            assert(slot_of(sf, i, f) == Some(k as usize));
            assert(t == k);
            if k == last {
                assert(slot_of(s0, i, f) == slot_of(s0, idx, face));
                assert(i == idx && f == face);
            }
            assert(k < last);
            assert(qf[t] == q0[last]);
            assert(q0[last] == quad_of(reg, sgen, i, f));
        } else {
            assert(slot_of(sf, i, f) == slot_of(s0, i, f));
            assert(t < q0.len());
            assert(t != last);
            if t == k {
                assert(slot_of(s0, i, f) == slot_of(s0, idx, face));
                assert(i == idx && f == face);
            }
            assert(t != k);
            assert(qf[t] == q0[t]);
            assert(q0[t] == quad_of(reg, sgen, i, f));
        }
    }
    assert forall|i1: int, f1: BlockFace, i2: int, f2: BlockFace|
        (0 <= i1 < 32768 && 0 <= i2 < 32768 && (#[trigger] slot_of(sf, i1, f1)) is Some && slot_of(
            sf,
            i1,
            f1,
        ) == #[trigger] slot_of(sf, i2, f2)) implies (i1 == i2 && f1 == f2) by {
        if slot_of(s0, i1, f1) == Some(last as usize) {
            if slot_of(s0, i2, f2) != Some(last as usize) {
                assert(slot_of(sf, i2, f2) == slot_of(s0, i2, f2));
                assert(slot_of(s0, i2, f2) != Some(k as usize) || (i2 == idx && f2 == face));
            }
        } else {
            if slot_of(s0, i2, f2) == Some(last as usize) {
                assert(slot_of(s0, i1, f1) != Some(k as usize) || (i1 == idx && f1 == face));
            }
        }
    }
    assert forall|t: int| 0 <= t < qf.len() implies #[trigger] slot_owned(sf, t) by {
        assert(qf.len() == last);
        if t == k {
            assert(last < q0.len());
            assert(slot_owned(s0, last));
            let (i2, f2) = choose|i2: int, f2: BlockFace|
                0 <= i2 < 32768 && #[trigger] slot_of(s0, i2, f2) == Some(last as usize);
            if i2 == idx && f2 == face {
                assert(slot_of(s0, idx, face) == Some(last as usize));
                assert(k == last);
                assert(false);
            }
            assert(slot_of(sf, i2, f2) == Some(k as usize));
            assert(slot_owned(sf, t));
        } else {
            assert(slot_owned(s0, t));
            let (i2, f2) = choose|i2: int, f2: BlockFace|
                0 <= i2 < 32768 && #[trigger] slot_of(s0, i2, f2) == Some(t as usize);
            if i2 == idx && f2 == face {
                assert(slot_of(s0, idx, face) == Some(t as usize));
                assert(t == k);
                assert(false);
            }
            if slot_of(s0, i2, f2) == Some(last as usize) {
                assert(t == last);
                assert(false);
            }
            assert(slot_of(sf, i2, f2) == Some(t as usize));
            assert(slot_owned(sf, t));
        }
    }
}

/// After clearing `(idx, face)` and re-tagging `(oi, of)` (the owner of
/// the last slot) to the vacated slot `k`, the slot map is the expected
/// permutation of the original.
proof fn lemma_relocated_map(
    s0: Seq<ChunkBlock>,
    s1: Seq<ChunkBlock>,
    sf: Seq<ChunkBlock>,
    idx: int,
    face: BlockFace,
    oi: int,
    of: BlockFace,
    k: int,
    last: int,
)
    requires
        0 <= idx < 32768,
        0 <= oi < 32768,
        0 <= k <= 0x1ffff,
        0 <= last <= 0x1ffff,
        forall|i1: int, f1: BlockFace, i2: int, f2: BlockFace|
            (0 <= i1 < 32768 && 0 <= i2 < 32768 && (#[trigger] slot_of(s0, i1, f1)) is Some
                && slot_of(s0, i1, f1) == #[trigger] slot_of(s0, i2, f2)) ==> (i1 == i2 && f1
                == f2),
        slot_of(s0, oi, of) == Some(last as usize),
        !(oi == idx && of == face),
        forall|t: int, g: BlockFace|
            0 <= t < 32768 && !(t == idx && g == face) ==> #[trigger] slot_of(s1, t, g) == slot_of(
                s0,
                t,
                g,
            ),
        slot_of(s1, idx, face) is None,
        forall|t: int, g: BlockFace|
            0 <= t < 32768 && !(t == oi && g == of) ==> #[trigger] slot_of(sf, t, g) == slot_of(
                s1,
                t,
                g,
            ),
        slot_of(sf, oi, of) == Some(k as usize),
    ensures
        forall|t: int, g: BlockFace|
            0 <= t < 32768 ==> #[trigger] slot_of(sf, t, g) == (if t == idx && g == face {
                None
            } else if slot_of(s0, t, g) == Some(last as usize) {
                Some(k as usize)
            } else {
                slot_of(s0, t, g)
            }),
{
    assert forall|t: int, g: BlockFace| 0 <= t < 32768 implies #[trigger] slot_of(sf, t, g) == (if t
        == idx && g == face {
        None
    } else if slot_of(s0, t, g) == Some(last as usize) {
        Some(k as usize)
    } else {
        slot_of(s0, t, g)
    }) by {
        if t == idx && g == face {
            assert(slot_of(sf, t, g) == slot_of(s1, t, g));
        } else if t == oi && g == of {
        } else {
            assert(slot_of(sf, t, g) == slot_of(s0, t, g));
            if slot_of(s0, t, g) == Some(last as usize) {
                assert(slot_of(s0, t, g) == slot_of(s0, oi, of));
                assert(t == oi && g == of);
            }
        }
    }
}

/// Recover, from a quad's corner positions alone, the cell and face
/// direction it was built for: the cross product of its first two edges
/// is the face's outward normal, and stepping half a unit back from its
/// center lands inside the owning cell.
#[verifier::rlimit(100)]
fn quad_owner(
    q: &Quad,
    Ghost(of): Ghost<BlockFace>,
    Ghost(dir): Ghost<BlockFace>,
    Ghost(tex): Ghost<crate::registry::BlockTexture>,
    Ghost(oi): Ghost<int>,
) -> (r: (usize, BlockFace))
    requires
        0 <= oi < 32768,
        *q == crate::block::quad_spec(of, dir, tex, cell_of(oi)),
    ensures
        r.0 == oi,
        r.1 == of,
{
    proof {
        lemma_index_to_pos_to_index(oi);
        assert(cell_of(oi).x < 32 && cell_of(oi).y < 32 && cell_of(oi).z < 32);
        lemma_quad_owner(of, dir, tex, cell_of(oi));
        assert(crate::block::owner_recovered(of, dir, tex, cell_of(oi)));
        assert(crate::block::quad_in_cell(*q, cell_of(oi)));
    }
    let e1x = q.v1.position.x - q.v0.position.x;
    let e1y = q.v1.position.y - q.v0.position.y;
    let e1z = q.v1.position.z - q.v0.position.z;
    let e2x = q.v2.position.x - q.v0.position.x;
    let e2y = q.v2.position.y - q.v0.position.y;
    let e2z = q.v2.position.z - q.v0.position.z;
    proof {
        assert(forall|a: int, b: int|
            (-32 <= a <= 32 && -32 <= b <= 32) ==> -1024 <= #[trigger] (a * b) <= 1024)
            by (nonlinear_arith);
    }
    let nx = e1y * e2z - e1z * e2y;
    let ny = e1z * e2x - e1x * e2z;
    let nz = e1x * e2y - e1y * e2x;
    let sx = q.v0.position.x + q.v1.position.x + q.v2.position.x + q.v3.position.x;
    let sy = q.v0.position.y + q.v1.position.y + q.v2.position.y + q.v3.position.y;
    let sz = q.v0.position.z + q.v1.position.z + q.v2.position.z + q.v3.position.z;
    let cell = UVec3 {
        x: ((sx - 2 * nx) as u32) / 4,
        y: ((sy - 2 * ny) as u32) / 4,
        z: ((sz - 2 * nz) as u32) / 4,
    };
    proof {
        assert(Vec3i { x: nx, y: ny, z: nz } == of.voffset_spec());
        assert(cell == cell_of(oi));
    }
    let owner_idx = block_pos_to_idx(cell);
    let owner_face = match BlockFace::try_from_dir(Vec3i { x: nx, y: ny, z: nz }) {
        Some(f) => f,
        None => unreached(),
    };
    proof {
        assert(owner_idx == oi && owner_face == of);
    }
    (owner_idx, owner_face)
}

/// Within the filter `alive`, some pair records quad slot `k`.
pub open spec fn alive_owned(
    s: Seq<ChunkBlock>,
    alive: spec_fn(int, BlockFace) -> bool,
    k: int,
) -> bool {
    exists|i: int, f: BlockFace|
        0 <= i < 32768 && alive(i, f) && #[trigger] slot_of(s, i, f) == Some(k as usize)
}

/// How many directions of block `i` the filter `alive` admits with a
/// recorded face slot.
pub open spec fn alive_at(
    s: Seq<ChunkBlock>,
    alive: spec_fn(int, BlockFace) -> bool,
    i: int,
) -> int {
    (if alive(i, BlockFace::Back) && slot_of(s, i, BlockFace::Back) is Some {
        1int
    } else {
        0int
    }) + (if alive(i, BlockFace::Front) && slot_of(s, i, BlockFace::Front) is Some {
        1int
    } else {
        0int
    }) + (if alive(i, BlockFace::Right) && slot_of(s, i, BlockFace::Right) is Some {
        1int
    } else {
        0int
    }) + (if alive(i, BlockFace::Left) && slot_of(s, i, BlockFace::Left) is Some {
        1int
    } else {
        0int
    }) + (if alive(i, BlockFace::Top) && slot_of(s, i, BlockFace::Top) is Some {
        1int
    } else {
        0int
    }) + (if alive(i, BlockFace::Bottom) && slot_of(s, i, BlockFace::Bottom) is Some {
        1int
    } else {
        0int
    })
}

/// How many recorded face slots the filter `alive` admits in the grid.
pub open spec fn count_alive(s: Seq<ChunkBlock>, alive: spec_fn(int, BlockFace) -> bool) -> int {
    crate::sums::sum_n(|i: int| alive_at(s, alive, i), 32768)
}

/// Recorded slots that (within `alive`) are unique and fill `[0, L)`
/// exactly number `L`: counting both sides of a bijection agrees.
#[verifier::rlimit(100)]
pub proof fn lemma_alive_count(
    s: Seq<ChunkBlock>,
    alive: spec_fn(int, BlockFace) -> bool,
    l: int,
)
    requires
        s.len() == 32768,
        l >= 0,
        forall|i1: int, f1: BlockFace, i2: int, f2: BlockFace|
            (0 <= i1 < 32768 && 0 <= i2 < 32768 && alive(i1, f1) && alive(i2, f2) && (
            #[trigger] slot_of(s, i1, f1)) is Some && slot_of(s, i1, f1) == #[trigger] slot_of(
                s,
                i2,
                f2,
            )) ==> (i1 == i2 && f1 == f2),
        forall|k: int| 0 <= k < l ==> #[trigger] alive_owned(s, alive, k),
        forall|i: int, f: BlockFace|
            (0 <= i < 32768 && #[trigger] alive(i, f) && slot_of(s, i, f) is Some) ==> slot_of(
                s,
                i,
                f,
            ).unwrap() < l,
        l <= 0x20000,
    ensures
        count_alive(s, alive) == l,
    decreases l,
{
    if l == 0 {
        assert forall|i: int| 0 <= i < 32768 implies #[trigger] alive_at(s, alive, i) == 0 by {
            assert forall|f: BlockFace| !(alive(i, f) && slot_of(s, i, f) is Some) by {
                if alive(i, f) && slot_of(s, i, f) is Some {
                    assert(slot_of(s, i, f).unwrap() < 0);
                }
            }
        }
        crate::sums::lemma_sum_le_const(|i: int| alive_at(s, alive, i), 32768, 0);
        crate::sums::lemma_sum_le(|i: int| 0, |i: int| alive_at(s, alive, i), 32768);
        crate::sums::lemma_sum_zero(32768);
    } else {
        assert(alive_owned(s, alive, l - 1));
        let (oi, of) = choose|oi: int, of: BlockFace|
            0 <= oi < 32768 && alive(oi, of) && #[trigger] slot_of(s, oi, of) == Some(
                (l - 1) as usize,
            );
        let alive2 = |i: int, f: BlockFace| alive(i, f) && !(i == oi && f == of);
        assert forall|k: int| 0 <= k < l - 1 implies #[trigger] alive_owned(s, alive2, k) by {
            assert(alive_owned(s, alive, k));
            let (i2, f2) = choose|i2: int, f2: BlockFace|
                0 <= i2 < 32768 && alive(i2, f2) && #[trigger] slot_of(s, i2, f2) == Some(
                    k as usize,
                );
            if i2 == oi && f2 == of {
                assert(k == l - 1);
                assert(false);
            }
            assert(alive2(i2, f2) && slot_of(s, i2, f2) == Some(k as usize));
        }
        assert forall|i: int, f: BlockFace|
            (0 <= i < 32768 && #[trigger] alive2(i, f) && slot_of(s, i, f) is Some) implies slot_of(
            s,
            i,
            f,
        ).unwrap() < l - 1 by {
            if slot_of(s, i, f).unwrap() == l - 1 {
                assert(slot_of(s, i, f) == slot_of(s, oi, of));
                assert(i == oi && f == of);
            }
        }
        lemma_alive_count(s, alive2, l - 1);
        assert forall|i: int|
            0 <= i < 32768 && i != oi implies #[trigger] alive_at(s, alive, i) == alive_at(
            s,
            alive2,
            i,
        ) by {}
        assert(alive_at(s, alive, oi) == alive_at(s, alive2, oi) + 1);
        crate::sums::lemma_sum_eq_except7(
            |i: int| alive_at(s, alive2, i),
            |i: int| alive_at(s, alive, i),
            32768,
            oi,
            -1,
            -2,
            -3,
            -4,
            -5,
            -6,
        );
    }
}

/// A chunk whose recorded slots fill `[0, l)` uniquely, each an emitted
/// face, has at most `count_faces` of them; exactly that many when every
/// emitted face is recorded.
proof fn lemma_slots_len(reg: &BlockRegistry, s: Seq<ChunkBlock>, l: int)
    requires
        blocks_ok(reg, s),
        0 <= l <= 0x20000,
        forall|i1: int, f1: BlockFace, i2: int, f2: BlockFace|
            (0 <= i1 < 32768 && 0 <= i2 < 32768 && (#[trigger] slot_of(s, i1, f1)) is Some
                && slot_of(s, i1, f1) == #[trigger] slot_of(s, i2, f2)) ==> (i1 == i2 && f1
                == f2),
        forall|k: int| 0 <= k < l ==> #[trigger] slot_owned(s, k),
        forall|i: int, f: BlockFace|
            (0 <= i < 32768 && (#[trigger] slot_of(s, i, f)) is Some) ==> slot_of(s, i, f).unwrap()
                < l,
        forall|i: int, f: BlockFace|
            (0 <= i < 32768 && (#[trigger] slot_of(s, i, f)) is Some) ==> emitted(reg, s, i, f),
    ensures
        l <= count_faces(reg, s),
        l <= 101376,
        (forall|i: int, f: BlockFace|
            0 <= i < 32768 && emitted(reg, s, i, f) ==> (#[trigger] slot_of(s, i, f)) is Some)
            ==> l == count_faces(reg, s),
{
    let alive = |i: int, f: BlockFace| true;
    assert forall|k: int| 0 <= k < l implies #[trigger] alive_owned(s, alive, k) by {
        assert(slot_owned(s, k));
        let (i2, f2) = choose|i2: int, f2: BlockFace|
            0 <= i2 < 32768 && #[trigger] slot_of(s, i2, f2) == Some(k as usize);
        assert(alive(i2, f2) && slot_of(s, i2, f2) == Some(k as usize));
    }
    lemma_alive_count(s, alive, l);
    assert forall|i: int| 0 <= i < 32768 implies #[trigger] alive_at(s, alive, i) <= faces_at(
        reg,
        s,
        i,
    ) by {}
    crate::sums::lemma_sum_le(
        |i: int| alive_at(s, alive, i),
        |i: int| crate::cull::faces_at(reg, s, i),
        32768,
    );
    lemma_count_bound(reg, s);
    if forall|i: int, f: BlockFace|
        0 <= i < 32768 && emitted(reg, s, i, f) ==> (#[trigger] slot_of(s, i, f)) is Some {
        assert forall|i: int| 0 <= i < 32768 implies #[trigger] alive_at(s, alive, i) == faces_at(
            reg,
            s,
            i,
        ) by {}
        crate::sums::lemma_sum_congruence(
            |i: int| alive_at(s, alive, i),
            |i: int| crate::cull::faces_at(reg, s, i),
            32768,
        );
    }
}

impl Chunk {
    /// Build the whole mesh from scratch: walk every cell in flat order,
    /// append a quad for each face the culling rule emits, record its
    /// slot, then size and fill the buffers. Requires an unbuilt chunk
    /// (all slots absent); leaves the block grid's types and orientations
    /// untouched.
    #[verifier::rlimit(100)]
    pub fn gen_mesh(&mut self, reg: &BlockRegistry)
        requires
            reg.wf(),
            old(self).wf(reg),
            !old(self).built(),
        ensures
            final(self).wf(reg),
            final(self).built(),
            final(self).pos == old(self).pos,
            final(self).blocks@.len() == 32768,
            forall|t: int|
                0 <= t < 32768 ==> (#[trigger] final(self).blocks@[t]).id == old(
                    self,
                ).blocks@[t].id,
            forall|t: int|
                0 <= t < 32768 ==> (#[trigger] final(self).blocks@[t]).dir == old(
                    self,
                ).blocks@[t].dir,
    {
        let ghost s_orig = self.blocks@;
        self.vertices = Vec::new();
        let mut i: usize = 0;
        while i < 32768
            invariant
                reg.wf(),
                i <= 32768,
                self.pos == old(self).pos,
                self.vertex_buffer is None,
                self.index_buffer is None,
                s_orig.len() == 32768,
                blocks_ok(reg, s_orig),
                self.blocks@.len() == 32768,
                blocks_ok(reg, self.blocks@),
                self.data_clear(),
                forall|t: int| 0 <= t < 32768 ==> (#[trigger] self.blocks@[t]).id == s_orig[t].id,
                forall|t: int| 0 <= t < 32768 ==> (#[trigger] self.blocks@[t]).dir == s_orig[t].dir,
                forall|t: int, g: BlockFace|
                    i <= t < 32768 ==> (#[trigger] slot_of(self.blocks@, t, g)) is None,
                forall|t: int, g: BlockFace|
                    0 <= t < i ==> ((#[trigger] slot_of(self.blocks@, t, g)) is Some <==> emitted(
                        reg,
                        s_orig,
                        t,
                        g,
                    )),
                forall|t: int, g: BlockFace|
                    (0 <= t < 32768 && (#[trigger] slot_of(self.blocks@, t, g)) is Some) ==> slot_of(
                        self.blocks@,
                        t,
                        g,
                    ).unwrap() < self.vertices@.len() && self.vertices@[slot_of(self.blocks@, t, g).unwrap() as int]
                        == quad_of(reg, s_orig, t, g),
                forall|i1: int, f1: BlockFace, i2: int, f2: BlockFace|
                    (0 <= i1 < 32768 && 0 <= i2 < 32768 && (#[trigger] slot_of(
                        self.blocks@,
                        i1,
                        f1,
                    )) is Some && slot_of(self.blocks@, i1, f1) == #[trigger] slot_of(
                        self.blocks@,
                        i2,
                        f2,
                    )) ==> (i1 == i2 && f1 == f2),
                forall|k: int|
                    0 <= k < self.vertices@.len() ==> #[trigger] slot_owned(self.blocks@, k),
                self.vertices@.len() <= 0x20000,
            decreases 32768 - i,
        {
            if self.blocks[i].id != 0 {
                let p = block_idx_to_pos(i);
                let mut ord: u8 = 0;
                while ord < 6
                    invariant
                        reg.wf(),
                        ord <= 6,
                        i < 32768,
                        self.pos == old(self).pos,
                        self.vertex_buffer is None,
                        self.index_buffer is None,
                        s_orig.len() == 32768,
                        blocks_ok(reg, s_orig),
                        self.blocks@.len() == 32768,
                        blocks_ok(reg, self.blocks@),
                        self.data_clear(),
                        self.blocks@[i as int].id != 0,
                        p.x == pos_x(i as int) && p.y == pos_y(i as int) && p.z == pos_z(i as int),
                        p.x < 32 && p.y < 32 && p.z < 32,
                        forall|t: int|
                            0 <= t < 32768 ==> (#[trigger] self.blocks@[t]).id == s_orig[t].id,
                        forall|t: int|
                            0 <= t < 32768 ==> (#[trigger] self.blocks@[t]).dir == s_orig[t].dir,
                        forall|t: int, g: BlockFace|
                            i < t < 32768 ==> (#[trigger] slot_of(self.blocks@, t, g)) is None,
                        forall|g: BlockFace|
                            g.ordinal() >= ord ==> (#[trigger] slot_of(
                                self.blocks@,
                                i as int,
                                g,
                            )) is None,
                        forall|g: BlockFace|
                            g.ordinal() < ord ==> ((#[trigger] slot_of(
                                self.blocks@,
                                i as int,
                                g,
                            )) is Some <==> emitted(reg, s_orig, i as int, g)),
                        forall|t: int, g: BlockFace|
                            0 <= t < i ==> ((#[trigger] slot_of(self.blocks@, t, g)) is Some
                                <==> emitted(reg, s_orig, t, g)),
                        forall|t: int, g: BlockFace|
                            (0 <= t < 32768 && (#[trigger] slot_of(self.blocks@, t, g)) is Some)
                                ==> slot_of(self.blocks@, t, g).unwrap() < self.vertices@.len()
                                && self.vertices@[slot_of(self.blocks@, t, g).unwrap() as int]
                                == quad_of(reg, s_orig, t, g),
                        forall|i1: int, f1: BlockFace, i2: int, f2: BlockFace|
                            (0 <= i1 < 32768 && 0 <= i2 < 32768 && (#[trigger] slot_of(
                                self.blocks@,
                                i1,
                                f1,
                            )) is Some && slot_of(self.blocks@, i1, f1) == #[trigger] slot_of(
                                self.blocks@,
                                i2,
                                f2,
                            )) ==> (i1 == i2 && f1 == f2),
                        forall|k: int|
                            0 <= k < self.vertices@.len() ==> #[trigger] slot_owned(
                                self.blocks@,
                                k,
                            ),
                        self.vertices@.len() <= 0x20000,
                    decreases 6 - ord,
                {
                    let face = BlockFace::from_ordinal(ord);
                    let edge = face.is_edge(i);
                    let mut suppressed = false;
                    if !edge {
                        proof {
                            lemma_neighbor(face, i as int);
                        }
                        let j = ((i as isize) + face.ioffset()) as usize;
                        suppressed = !self.blocks[j].data(reg).is_transparent();
                    }
                    if !suppressed {
                        proof {
                            assert(emitted(reg, s_orig, i as int, face));
                            lemma_slots_len(reg, self.blocks@, self.vertices@.len() as int);
                        }
                        let k = self.vertices.len();
                        let ghost s_pre = self.blocks@;
                        let ghost q_pre = self.vertices@;
                        self.set_block_slot(i, face, Some(k));
                        let q = self.blocks[i].gen_face(reg, p, face);
                        self.vertices.push(q);
                        proof {
                            assert(p == cell_of(i as int));
                            assert(q == quad_of(reg, s_orig, i as int, face));
                            let sf = self.blocks@;
                            assert forall|t: int, g: BlockFace|
                                (0 <= t < 32768 && (#[trigger] slot_of(sf, t, g)) is Some) implies
                                slot_of(sf, t, g).unwrap() < self.vertices@.len()
                                && self.vertices@[slot_of(sf, t, g).unwrap() as int] == quad_of(
                                reg,
                                s_orig,
                                t,
                                g,
                            ) by {
                                if !(t == i as int && g == face) {
                                    assert(slot_of(sf, t, g) == slot_of(s_pre, t, g));
                                }
                            }
                            assert forall|i1: int, f1: BlockFace, i2: int, f2: BlockFace|
                                (0 <= i1 < 32768 && 0 <= i2 < 32768 && (#[trigger] slot_of(
                                    sf,
                                    i1,
                                    f1,
                                )) is Some && slot_of(sf, i1, f1) == #[trigger] slot_of(
                                    sf,
                                    i2,
                                    f2,
                                )) implies (i1 == i2 && f1 == f2) by {
                                if (i1 == i as int && f1 == face) != (i2 == i as int && f2
                                    == face) {
                                    assert(slot_of(sf, i1, f1) != slot_of(sf, i2, f2));
                                }
                            }
                            assert forall|k2: int|
                                0 <= k2 < self.vertices@.len() implies #[trigger] slot_owned(
                                sf,
                                k2,
                            ) by {
                                if k2 < q_pre.len() {
                                    assert(slot_owned(s_pre, k2));
                                    let (i2, f2) = choose|i2: int, f2: BlockFace|
                                        0 <= i2 < 32768 && #[trigger] slot_of(s_pre, i2, f2)
                                            == Some(k2 as usize);
                                    assert(slot_of(sf, i2, f2) == Some(k2 as usize));
                                } else {
                                    assert(slot_of(sf, i as int, face) == Some(k2 as usize));
                                }
                            }
                        }
                    } else {
                        proof {
                            assert(!emitted(reg, s_orig, i as int, face));
                        }
                    }
                    ord = ord + 1;
                }
            }
            i = i + 1;
        }
        proof {
            assert forall|t: int, g: BlockFace| 0 <= t < 32768 implies ((#[trigger] slot_of(
                self.blocks@,
                t,
                g,
            )) is Some <==> emitted(reg, self.blocks@, t, g)) by {
                lemma_emitted_same(reg, s_orig, self.blocks@, t, g);
            }
            assert forall|t: int, g: BlockFace|
                (0 <= t < 32768 && (#[trigger] slot_of(self.blocks@, t, g)) is Some) implies
                self.vertices@[slot_of(self.blocks@, t, g).unwrap() as int] == quad_of(
                reg,
                self.blocks@,
                t,
                g,
            ) by {
                assert(quad_of(reg, self.blocks@, t, g) == quad_of(reg, s_orig, t, g));
            }
            lemma_slots_len(reg, self.blocks@, self.vertices@.len() as int);
            assert(self.vertices@.len() == count_faces(reg, self.blocks@));
        }
        self.recreate_buffers_if_full();
    }
}

/// Grids that agree on block ids emit the same faces, pointwise.
proof fn lemma_emitted_same(
    reg: &BlockRegistry,
    s1: Seq<ChunkBlock>,
    s2: Seq<ChunkBlock>,
    i: int,
    f: BlockFace,
)
    requires
        s1.len() == 32768,
        s2.len() == 32768,
        0 <= i < 32768,
        forall|t: int| 0 <= t < 32768 ==> (#[trigger] s2[t]).id == s1[t].id,
    ensures
        emitted(reg, s2, i, f) == emitted(reg, s1, i, f),
{
    if !f.is_edge_spec(i) {
        lemma_neighbor(f, i);
    }
}

/// The pairs (block, face) whose slot the combined edit has already
/// brought up to date after processing the directions with ordinal below
/// `ord`: the edited block's own faces, and each in-chunk neighbor's face
/// back toward the edited block.
pub open spec fn touched_below(idx: int, ord: int, t: int, g: BlockFace) -> bool {
    (t == idx && g.ordinal() < ord) || (g.flip_spec().ordinal() < ord
        && !g.flip_spec().is_edge_spec(idx) && t == idx + g.flip_spec().ioffset_spec())
}

/// A pair that is neither the edited block nor a neighbor's face toward
/// it keeps its emission status when only block `idx`'s type changes.
proof fn lemma_emitted_untouched(
    reg: &BlockRegistry,
    sp: Seq<ChunkBlock>,
    sn: Seq<ChunkBlock>,
    idx: int,
    t: int,
    g: BlockFace,
)
    requires
        sp.len() == 32768,
        sn.len() == 32768,
        0 <= idx < 32768,
        0 <= t < 32768,
        forall|t2: int| 0 <= t2 < 32768 && t2 != idx ==> (#[trigger] sn[t2]).id == sp[t2].id,
        t != idx,
        !(!g.flip_spec().is_edge_spec(idx) && t == idx + g.flip_spec().ioffset_spec()),
    ensures
        emitted(reg, sn, t, g) == emitted(reg, sp, t, g),
{
    if !g.is_edge_spec(t) {
        lemma_neighbor(g, t);
        if t + g.ioffset_spec() == idx {
            assert(t == idx + g.flip_spec().ioffset_spec());
            if g.flip_spec().is_edge_spec(idx) {
                crate::grid::lemma_edge_wrap(g.flip_spec(), idx);
                assert(g.is_edge_spec(t));
            }
            assert(false);
        }
    }
}

impl Chunk {
    /// The state the combined edit hands its per-case passes: the block
    /// at `idx` already rewritten, buffers grown, and every slot still
    /// describing the pre-edit grid `sp`.
    pub open spec fn place_entry(&self, reg: &BlockRegistry, sp: Seq<ChunkBlock>, idx: int) -> bool {
        &&& sp.len() == 32768
        &&& blocks_ok(reg, sp)
        &&& self.blocks@.len() == 32768
        &&& blocks_ok(reg, self.blocks@)
        &&& self.data_clear()
        &&& self.built()
        &&& self.buffers_wf()
        &&& forall|t: int| 0 <= t < 32768 && t != idx ==> #[trigger] self.blocks@[t] == sp[t]
        &&& self.blocks@[idx].slots == sp[idx].slots
        &&& forall|t: int, g: BlockFace|
            0 <= t < 32768 ==> ((#[trigger] slot_of(self.blocks@, t, g)) is Some <==> emitted(
                reg,
                sp,
                t,
                g,
            ))
        &&& slots_gen_wf(reg, self.blocks@, self.vertices@, sp)
        &&& self.vertices@.len() + 6 <= self.vertex_buffer.unwrap()@.len()
        &&& self.vertices@.len() <= 101376
    }

    /// What each per-case pass leaves behind: the block grid's types and
    /// orientations untouched, and the full mesh invariant restored.
    pub open spec fn place_exit(&self, reg: &BlockRegistry, entry: Chunk) -> bool {
        &&& self.built()
        &&& self.pos == entry.pos
        &&& self.index_buffer == entry.index_buffer
        &&& self.blocks@.len() == 32768
        &&& forall|t: int|
            0 <= t < 32768 ==> (#[trigger] self.blocks@[t]).id == entry.blocks@[t].id
        &&& forall|t: int|
            0 <= t < 32768 ==> (#[trigger] self.blocks@[t]).dir == entry.blocks@[t].dir
        &&& self.data_clear()
        &&& self.buffers_wf()
        &&& self.slots_wf(reg)
        &&& self.slots_match_culling(reg)
        &&& self.vertices@.len() == count_faces(reg, self.blocks@)
        &&& blocks_ok(reg, self.blocks@)
    }

    /// Place a solid block into previously-air space: for each direction,
    /// a now-interior neighbor face is removed, otherwise the new block's
    /// own face is added.
    #[verifier::rlimit(100)]
    fn place_fill(&mut self, reg: &BlockRegistry, idx: usize, Ghost(sp): Ghost<Seq<ChunkBlock>>)
        requires
            reg.wf(),
            idx < 32768,
            old(self).place_entry(reg, sp, idx as int),
            sp[idx as int].id == 0,
            old(self).blocks@[idx as int].id != 0,
        ensures
            final(self).place_exit(reg, *old(self)),
    {
        let ghost entry = *self;
        let ghost sn = self.blocks@;
        let ghost len0 = self.vertices@.len() as int;
        let ghost cap0 = self.vertex_buffer.unwrap()@.len() as int;
        let mut ord: u8 = 0;
        while ord < 6
            invariant
                reg.wf(),
                ord <= 6,
                idx < 32768,
                sp.len() == 32768,
                sn.len() == 32768,
                blocks_ok(reg, sp),
                blocks_ok(reg, sn),
                sp[idx as int].id == 0,
                sn[idx as int].id != 0,
                forall|t: int| 0 <= t < 32768 && t != idx ==> #[trigger] sn[t] == sp[t],
                self.built(),
                self.pos == entry.pos,
                self.index_buffer == entry.index_buffer,
                self.blocks@.len() == 32768,
                blocks_ok(reg, self.blocks@),
                self.data_clear(),
                self.buffers_wf(),
                forall|t: int| 0 <= t < 32768 ==> (#[trigger] self.blocks@[t]).id == sn[t].id,
                forall|t: int| 0 <= t < 32768 ==> (#[trigger] self.blocks@[t]).dir == sn[t].dir,
                self.vertex_buffer.unwrap()@.len() == cap0,
                self.vertices@.len() <= len0 + ord,
                len0 + 6 <= cap0,
                len0 <= 101376,
                self.slots_wf(reg),
                forall|t: int, g: BlockFace|
                    0 <= t < 32768 ==> ((#[trigger] slot_of(self.blocks@, t, g)) is Some <==> (
                    if touched_below(idx as int, ord as int, t, g) {
                        emitted(reg, sn, t, g)
                    } else {
                        emitted(reg, sp, t, g)
                    })),
            decreases 6 - ord,
        {
            let face = BlockFace::from_ordinal(ord);
            let ghost s_before = self.blocks@;
            let edge = face.is_edge(idx);
            let mut handled = false;
            if !edge {
                proof {
                    lemma_neighbor(face, idx as int);
                    lemma_neighbor_flip(face, idx as int);
                }
                let j = ((idx as isize) + face.ioffset()) as usize;
                if !self.blocks[j].data(reg).is_transparent() {
                    proof {
                        assert(!touched_below(idx as int, ord as int, j as int, face.flip_spec()));
                        assert(emitted(reg, sp, j as int, face.flip_spec()));
                        assert(slot_of(self.blocks@, j as int, face.flip_spec()) is Some);
                    }
                    self.remove_face(reg, j, face.flip());
                    handled = true;
                    proof {
                        let sf = self.blocks@;
                        assert forall|t: int, g: BlockFace| 0 <= t < 32768 implies ((
                        #[trigger] slot_of(sf, t, g)) is Some <==> (if touched_below(
                            idx as int,
                            ord as int + 1,
                            t,
                            g,
                        ) {
                            emitted(reg, sn, t, g)
                        } else {
                            emitted(reg, sp, t, g)
                        })) by {
                            if t == j as int && g == face.flip_spec() {
                                assert(slot_of(sf, t, g) is None);
                                assert(!emitted(reg, sn, t, g));
                            } else if t == idx as int && g == face {
                                assert(slot_of(sf, t, g) == slot_of(s_before, t, g));
                                assert(!emitted(reg, sp, t, g));
                                assert(!emitted(reg, sn, t, g));
                            } else {
                                assert(slot_of(sf, t, g) is Some <==> slot_of(
                                    s_before,
                                    t,
                                    g,
                                ) is Some);
                                assert(touched_below(idx as int, ord as int + 1, t, g)
                                    == touched_below(idx as int, ord as int, t, g));
                            }
                        }
                    }
                }
            }
            if !handled {
                proof {
                    assert(!touched_below(idx as int, ord as int, idx as int, face));
                    assert(!emitted(reg, sp, idx as int, face));
                    assert(slot_of(self.blocks@, idx as int, face) is None);
                    assert(self.vertices@.len() < cap0);
                    assert(self.vertices@.len() < 0x1fffe);
                }
                self.add_face(reg, idx, face);
                proof {
                    let sf = self.blocks@;
                    assert(emitted(reg, sn, idx as int, face));
                    assert forall|t: int, g: BlockFace| 0 <= t < 32768 implies ((#[trigger] slot_of(
                        sf,
                        t,
                        g,
                    )) is Some <==> (if touched_below(idx as int, ord as int + 1, t, g) {
                        emitted(reg, sn, t, g)
                    } else {
                        emitted(reg, sp, t, g)
                    })) by {
                        if t == idx as int && g == face {
                        } else if !face.is_edge_spec(idx as int) && t == idx + face.ioffset_spec()
                            && g == face.flip_spec() {
                            assert(slot_of(sf, t, g) == slot_of(s_before, t, g));
                            assert(!emitted(reg, sp, t, g));
                            assert(!emitted(reg, sn, t, g));
                        } else {
                            assert(slot_of(sf, t, g) == slot_of(s_before, t, g));
                            assert(touched_below(idx as int, ord as int + 1, t, g) == touched_below(
                                idx as int,
                                ord as int,
                                t,
                                g,
                            ));
                        }
                    }
                }
            }
            ord = ord + 1;
        }
        proof {
            self.lemma_place_exit(reg, sp, sn, idx as int, entry);
        }
    }

    /// At the end of a per-case pass, the mixed slot map collapses to the
    /// culling rule of the current grid, and counting the bijection pins
    /// the quad-list length.
    proof fn lemma_place_exit(
        &self,
        reg: &BlockRegistry,
        sp: Seq<ChunkBlock>,
        sn: Seq<ChunkBlock>,
        idx: int,
        entry: Chunk,
    )
        requires
            reg.wf(),
            0 <= idx < 32768,
            sp.len() == 32768,
            sn.len() == 32768,
            blocks_ok(reg, self.blocks@),
            self.blocks@.len() == 32768,
            forall|t: int| 0 <= t < 32768 && t != idx ==> (#[trigger] sn[t]).id == sp[t].id,
            forall|t: int| 0 <= t < 32768 ==> (#[trigger] self.blocks@[t]).id == sn[t].id,
            self.slots_wf(reg),
            self.vertices@.len() <= 0x20000,
            forall|t: int, g: BlockFace|
                0 <= t < 32768 ==> ((#[trigger] slot_of(self.blocks@, t, g)) is Some <==> (if
                touched_below(idx, 6, t, g) {
                    emitted(reg, sn, t, g)
                } else {
                    emitted(reg, sp, t, g)
                })),
        ensures
            self.slots_match_culling(reg),
            self.vertices@.len() == count_faces(reg, self.blocks@),
    {
        assert forall|t: int, g: BlockFace| 0 <= t < 32768 implies ((#[trigger] slot_of(
            self.blocks@,
            t,
            g,
        )) is Some <==> emitted(reg, self.blocks@, t, g)) by {
            lemma_emitted_same(reg, sn, self.blocks@, t, g);
            if !touched_below(idx, 6, t, g) {
                assert(t != idx ==> !(!g.flip_spec().is_edge_spec(idx) && t == idx
                    + g.flip_spec().ioffset_spec()));
                if t != idx {
                    lemma_emitted_untouched(reg, sp, sn, idx, t, g);
                } else {
                    assert(g.ordinal() < 6);
                }
            }
        }
        lemma_slots_len(reg, self.blocks@, self.vertices@.len() as int);
    }
}

impl Chunk {
    /// Remove a solid block to air: for each direction, an opaque in-chunk
    /// neighbor gets a face back toward the removed block, otherwise the
    /// removed block's own face goes away.
    #[verifier::rlimit(100)]
    fn place_clear(&mut self, reg: &BlockRegistry, idx: usize, Ghost(sp): Ghost<Seq<ChunkBlock>>)
        requires
            reg.wf(),
            idx < 32768,
            old(self).place_entry(reg, sp, idx as int),
            sp[idx as int].id != 0,
            old(self).blocks@[idx as int].id == 0,
        ensures
            final(self).place_exit(reg, *old(self)),
    {
        let ghost entry = *self;
        let ghost sn = self.blocks@;
        let ghost len0 = self.vertices@.len() as int;
        let ghost cap0 = self.vertex_buffer.unwrap()@.len() as int;
        let mut ord: u8 = 0;
        while ord < 6
            invariant
                reg.wf(),
                ord <= 6,
                idx < 32768,
                sp.len() == 32768,
                sn.len() == 32768,
                blocks_ok(reg, sp),
                blocks_ok(reg, sn),
                sp[idx as int].id != 0,
                !reg.transparent_spec(sp[idx as int].id as int),
                sn[idx as int].id == 0,
                forall|t: int| 0 <= t < 32768 && t != idx ==> #[trigger] sn[t] == sp[t],
                self.built(),
                self.pos == entry.pos,
                self.index_buffer == entry.index_buffer,
                self.blocks@.len() == 32768,
                blocks_ok(reg, self.blocks@),
                self.data_clear(),
                self.buffers_wf(),
                forall|t: int| 0 <= t < 32768 ==> (#[trigger] self.blocks@[t]).id == sn[t].id,
                forall|t: int| 0 <= t < 32768 ==> (#[trigger] self.blocks@[t]).dir == sn[t].dir,
                self.vertex_buffer.unwrap()@.len() == cap0,
                self.vertices@.len() <= len0 + ord,
                len0 + 6 <= cap0,
                len0 <= 101376,
                slots_gen_wf(reg, self.blocks@, self.vertices@, sp),
                forall|t: int, g: BlockFace|
                    0 <= t < 32768 ==> ((#[trigger] slot_of(self.blocks@, t, g)) is Some <==> (
                    if touched_below(idx as int, ord as int, t, g) {
                        emitted(reg, sn, t, g)
                    } else {
                        emitted(reg, sp, t, g)
                    })),
            decreases 6 - ord,
        {
            let face = BlockFace::from_ordinal(ord);
            let ghost s_before = self.blocks@;
            let edge = face.is_edge(idx);
            let mut handled = false;
            if !edge {
                proof {
                    lemma_neighbor(face, idx as int);
                    lemma_neighbor_flip(face, idx as int);
                }
                let j = ((idx as isize) + face.ioffset()) as usize;
                if !self.blocks[j].data(reg).is_transparent() {
                    proof {
                        assert(!touched_below(idx as int, ord as int, j as int, face.flip_spec()));
                        assert(!emitted(reg, sp, j as int, face.flip_spec()));
                        assert(slot_of(self.blocks@, j as int, face.flip_spec()) is None);
                        assert(self.vertices@.len() < cap0);
                        assert(self.vertices@.len() < 0x1fffe);
                        assert(sp[j as int].id == self.blocks@[j as int].id);
                        assert(sp[j as int].dir == self.blocks@[j as int].dir);
                    }
                    self.add_face_at(reg, j, face.flip(), Ghost(sp));
                    handled = true;
                    proof {
                        let sf = self.blocks@;
                        assert forall|t: int, g: BlockFace| 0 <= t < 32768 implies ((
                        #[trigger] slot_of(sf, t, g)) is Some <==> (if touched_below(
                            idx as int,
                            ord as int + 1,
                            t,
                            g,
                        ) {
                            emitted(reg, sn, t, g)
                        } else {
                            emitted(reg, sp, t, g)
                        })) by {
                            if t == j as int && g == face.flip_spec() {
                                assert(slot_of(sf, t, g) is Some);
                                assert(emitted(reg, sn, t, g));
                            } else if t == idx as int && g == face {
                                assert(slot_of(sf, t, g) == slot_of(s_before, t, g));
                                assert(!emitted(reg, sp, t, g));
                                assert(!emitted(reg, sn, t, g));
                            } else {
                                assert(slot_of(sf, t, g) == slot_of(s_before, t, g));
                                assert(touched_below(idx as int, ord as int + 1, t, g)
                                    == touched_below(idx as int, ord as int, t, g));
                            }
                        }
                    }
                }
            }
            if !handled {
                proof {
                    assert(self.vertices@.len() <= 0x1ffff);
                }
                self.remove_face_at(reg, idx, face, Ghost(sp));
                proof {
                    let sf = self.blocks@;
                    assert forall|t: int, g: BlockFace| 0 <= t < 32768 implies ((#[trigger] slot_of(
                        sf,
                        t,
                        g,
                    )) is Some <==> (if touched_below(idx as int, ord as int + 1, t, g) {
                        emitted(reg, sn, t, g)
                    } else {
                        emitted(reg, sp, t, g)
                    })) by {
                        if slot_of(s_before, idx as int, face) is Some {
                            if t == idx as int && g == face {
                                assert(slot_of(sf, t, g) is None);
                                assert(!emitted(reg, sn, t, g));
                            } else if !face.is_edge_spec(idx as int) && t == idx
                                + face.ioffset_spec() && g == face.flip_spec() {
                                lemma_neighbor(face, idx as int);
                                lemma_neighbor_flip(face, idx as int);
                                assert(slot_of(sf, t, g) is Some <==> slot_of(
                                    s_before,
                                    t,
                                    g,
                                ) is Some);
                                assert(!emitted(reg, sp, t, g));
                                assert(!emitted(reg, sn, t, g));
                            } else {
                                assert(slot_of(sf, t, g) is Some <==> slot_of(
                                    s_before,
                                    t,
                                    g,
                                ) is Some);
                                assert(touched_below(idx as int, ord as int + 1, t, g)
                                    == touched_below(idx as int, ord as int, t, g));
                            }
                        } else {
                            assert(!emitted(reg, sp, idx as int, face));
                            if t == idx as int && g == face {
                                assert(!emitted(reg, sn, t, g));
                            } else if !face.is_edge_spec(idx as int) && t == idx
                                + face.ioffset_spec() && g == face.flip_spec() {
                                lemma_neighbor(face, idx as int);
                                lemma_neighbor_flip(face, idx as int);
                                assert(!emitted(reg, sp, t, g));
                                assert(!emitted(reg, sn, t, g));
                            } else {
                                assert(touched_below(idx as int, ord as int + 1, t, g)
                                    == touched_below(idx as int, ord as int, t, g));
                            }
                        }
                    }
                }
            }
            ord = ord + 1;
        }
        proof {
            // No face of the removed block remains, so every live slot's
            // quad is unchanged from the pre-edit grid.
            assert forall|t: int, g: BlockFace|
                0 <= t < 32768 && (#[trigger] slot_of(self.blocks@, t, g)) is Some implies slot_of(
                self.blocks@,
                t,
                g,
            ).unwrap() < self.vertices@.len() && self.vertices@[slot_of(
                self.blocks@,
                t,
                g,
            ).unwrap() as int] == quad_of(reg, self.blocks@, t, g) by {
                assert(t != idx);
                assert(quad_of(reg, self.blocks@, t, g) == quad_of(reg, sp, t, g));
            }
            self.lemma_place_exit(reg, sp, sn, idx as int, entry);
        }
    }

    /// Replace one solid block with another: every currently emitted face
    /// of the block is regenerated in place, with no slot movement.
    #[verifier::rlimit(100)]
    fn place_replace(&mut self, reg: &BlockRegistry, idx: usize, Ghost(sp): Ghost<Seq<ChunkBlock>>)
        requires
            reg.wf(),
            idx < 32768,
            old(self).place_entry(reg, sp, idx as int),
            sp[idx as int].id != 0,
            old(self).blocks@[idx as int].id != 0,
        ensures
            final(self).place_exit(reg, *old(self)),
            final(self).blocks@ == old(self).blocks@,
            final(self).vertices@.len() == old(self).vertices@.len(),
            forall|t: int, g: BlockFace|
                (0 <= t < 32768 && t != idx && (#[trigger] slot_of(
                    old(self).blocks@,
                    t,
                    g,
                )) is Some) ==> final(self).vertices@[slot_of(old(self).blocks@, t, g).unwrap() as int]
                == old(self).vertices@[slot_of(old(self).blocks@, t, g).unwrap() as int],
            forall|g: BlockFace|
                (#[trigger] slot_of(old(self).blocks@, idx as int, g)) is Some
                    ==> final(self).vertices@[slot_of(old(self).blocks@, idx as int, g).unwrap() as int]
                    == quad_of(reg, old(self).blocks@, idx as int, g),
    {
        let ghost entry = *self;
        let ghost sn = self.blocks@;
        let ghost len0 = self.vertices@.len() as int;
        let ghost cap0 = self.vertex_buffer.unwrap()@.len() as int;
        let p = block_idx_to_pos(idx);
        let mut ord: u8 = 0;
        while ord < 6
            invariant
                reg.wf(),
                ord <= 6,
                idx < 32768,
                sp.len() == 32768,
                sn.len() == 32768,
                blocks_ok(reg, sp),
                blocks_ok(reg, sn),
                sp[idx as int].id != 0,
                sn[idx as int].id != 0,
                forall|t: int| 0 <= t < 32768 && t != idx ==> #[trigger] sn[t] == sp[t],
                self.built(),
                self.pos == entry.pos,
                self.index_buffer == entry.index_buffer,
                self.blocks@ == sn,
                blocks_ok(reg, self.blocks@),
                self.data_clear(),
                p.x == pos_x(idx as int) && p.y == pos_y(idx as int) && p.z == pos_z(idx as int),
                p.x < 32 && p.y < 32 && p.z < 32,
                self.buffers_wf(),
                self.vertex_buffer.unwrap()@.len() == cap0,
                self.vertices@.len() == len0,
                len0 <= 101376,
                forall|t: int, g: BlockFace|
                    0 <= t < 32768 ==> ((#[trigger] slot_of(self.blocks@, t, g)) is Some <==>
                    emitted(reg, sp, t, g)),
                forall|i1: int, f1: BlockFace, i2: int, f2: BlockFace|
                    (0 <= i1 < 32768 && 0 <= i2 < 32768 && (#[trigger] slot_of(
                        self.blocks@,
                        i1,
                        f1,
                    )) is Some && slot_of(self.blocks@, i1, f1) == #[trigger] slot_of(
                        self.blocks@,
                        i2,
                        f2,
                    )) ==> (i1 == i2 && f1 == f2),
                forall|k: int|
                    0 <= k < self.vertices@.len() ==> #[trigger] slot_owned(self.blocks@, k),
                forall|t: int, g: BlockFace|
                    0 <= t < 32768 && (#[trigger] slot_of(self.blocks@, t, g)) is Some ==> slot_of(
                        self.blocks@,
                        t,
                        g,
                    ).unwrap() < self.vertices@.len() && self.vertices@[slot_of(
                        self.blocks@,
                        t,
                        g,
                    ).unwrap() as int] == (if t == idx as int && g.ordinal() < ord {
                        quad_of(reg, sn, t, g)
                    } else {
                        quad_of(reg, sp, t, g)
                    }),
            decreases 6 - ord,
        {
            let face = BlockFace::from_ordinal(ord);
            let slot = self.blocks[idx].face(face);
            match slot {
                Some(k) => {
                    let ghost q_pre = self.vertices@;
                    let q = self.blocks[idx].gen_face(reg, p, face);
                    proof {
                        assert(p == cell_of(idx as int));
                        assert(q == quad_of(reg, sn, idx as int, face));
                        assert(slot_of(self.blocks@, idx as int, face) == Some(k));
                        assert(k < self.vertices@.len());
                    }
                    self.vertices[k] = q;
                    self.buffer_write(k, q);
                    proof {
                        let qf = self.vertices@;
                        assert forall|t: int, g: BlockFace|
                            0 <= t < 32768 && (#[trigger] slot_of(self.blocks@, t, g)) is Some
                            implies qf[slot_of(self.blocks@, t, g).unwrap() as int] == (if t
                            == idx as int && g.ordinal() < ord + 1 {
                            quad_of(reg, sn, t, g)
                        } else {
                            quad_of(reg, sp, t, g)
                        }) by {
                            let kk = slot_of(self.blocks@, t, g).unwrap() as int;
                            assert(slot_of(self.blocks@, idx as int, face) == Some(k));
                            if t == idx as int && g == face {
                                assert(kk == k);
                            } else {
                                if kk == k {
                                    assert(slot_of(self.blocks@, t, g) == slot_of(
                                        self.blocks@,
                                        idx as int,
                                        face,
                                    ));
                                    assert(t == idx as int && g == face);
                                }
                                assert(kk != k);
                                assert(qf[kk] == q_pre[kk]);
                            }
                        }
                    }
                },
                None => {
                    proof {
                        assert forall|t: int, g: BlockFace|
                            0 <= t < 32768 && (#[trigger] slot_of(self.blocks@, t, g)) is Some
                            implies self.vertices@[slot_of(self.blocks@, t, g).unwrap() as int]
                            == (if t == idx as int && g.ordinal() < ord + 1 {
                            quad_of(reg, sn, t, g)
                        } else {
                            quad_of(reg, sp, t, g)
                        }) by {}
                    }
                },
            }
            ord = ord + 1;
        }
        proof {
            assert forall|t: int, g: BlockFace|
                0 <= t < 32768 && (#[trigger] slot_of(self.blocks@, t, g)) is Some implies
                self.vertices@[slot_of(self.blocks@, t, g).unwrap() as int] == quad_of(
                reg,
                self.blocks@,
                t,
                g,
            ) by {
                if t != idx as int {
                    assert(quad_of(reg, sp, t, g) == quad_of(reg, self.blocks@, t, g));
                }
            }
            assert forall|t: int, g: BlockFace| 0 <= t < 32768 implies ((#[trigger] slot_of(
                self.blocks@,
                t,
                g,
            )) is Some <==> emitted(reg, self.blocks@, t, g)) by {
                assert(emitted(reg, self.blocks@, t, g) == emitted(reg, sp, t, g)) by {
                    if !g.is_edge_spec(t) {
                        lemma_neighbor(g, t);
                    }
                }
            }
            lemma_slots_len(reg, self.blocks@, self.vertices@.len() as int);
        }
    }

    /// Change the block at flat index `idx` to type `id` with orientation
    /// `dir`, keeping the mesh incrementally exact: air-to-solid removes
    /// now-interior neighbor faces and adds the block's exposed ones,
    /// solid-to-air does the reverse, solid-to-solid regenerates the
    /// block's quads in place. On an unbuilt chunk only the grid changes.
    pub fn place_block(&mut self, reg: &BlockRegistry, idx: usize, id: u32, dir: BlockFace)
        requires
            reg.wf(),
            old(self).wf(reg),
            idx < 32768,
            id < reg.blocks@.len(),
            id != 0 ==> !reg.transparent_spec(id as int),
        ensures
            final(self).wf(reg),
            final(self).pos == old(self).pos,
            final(self).built() == old(self).built(),
            final(self).blocks@.len() == 32768,
            forall|t: int|
                0 <= t < 32768 && t != idx ==> (#[trigger] final(self).blocks@[t]).id == old(
                    self,
                ).blocks@[t].id,
            forall|t: int|
                0 <= t < 32768 && t != idx ==> (#[trigger] final(self).blocks@[t]).dir == old(
                    self,
                ).blocks@[t].dir,
            final(self).blocks@[idx as int].id == id,
            final(self).blocks@[idx as int].dir == dir,
            // Air replaced by air: no mesh change at all.
            (reg.transparent_spec(old(self).blocks@[idx as int].id as int) && reg.transparent_spec(
                id as int,
            )) ==> final(self).vertices == old(self).vertices && (forall|t: int, g: BlockFace|
                0 <= t < 32768 ==> #[trigger] slot_of(final(self).blocks@, t, g) == slot_of(
                    old(self).blocks@,
                    t,
                    g,
                )),
            // Solid replaced by solid: every slot and list position stays;
            // only the replaced block's own quads change contents.
            (!reg.transparent_spec(old(self).blocks@[idx as int].id as int)
                && !reg.transparent_spec(id as int)) ==> {
                &&& final(self).vertices@.len() == old(self).vertices@.len()
                &&& forall|t: int, g: BlockFace|
                    0 <= t < 32768 ==> #[trigger] slot_of(final(self).blocks@, t, g) == slot_of(
                        old(self).blocks@,
                        t,
                        g,
                    )
                &&& forall|t: int, g: BlockFace|
                    (0 <= t < 32768 && t != idx && (#[trigger] slot_of(
                        old(self).blocks@,
                        t,
                        g,
                    )) is Some) ==> final(self).vertices@[slot_of(
                        old(self).blocks@,
                        t,
                        g,
                    ).unwrap() as int] == old(self).vertices@[slot_of(
                        old(self).blocks@,
                        t,
                        g,
                    ).unwrap() as int]
                &&& forall|g: BlockFace|
                    (#[trigger] slot_of(old(self).blocks@, idx as int, g)) is Some
                        ==> final(self).vertices@[slot_of(
                        old(self).blocks@,
                        idx as int,
                        g,
                    ).unwrap() as int] == quad_of(reg, final(self).blocks@, idx as int, g)
            },
    {
        let ghost sp = self.blocks@;
        let was_transparent = self.blocks[idx].data(reg).is_transparent();
        let slots0 = self.blocks[idx].slots;
        self.blocks[idx] = ChunkBlock { id, slots: slots0, dir, data: None };
        let is_transparent = reg.is_transparent(id);

        if self.vertex_buffer.is_none() {
            proof {
                assert forall|t: int, g: BlockFace| 0 <= t < 32768 implies #[trigger] slot_of(
                    self.blocks@,
                    t,
                    g,
                ) == slot_of(sp, t, g) by {
                    if t != idx as int {
                        assert(self.blocks@[t] == sp[t]);
                    }
                }
                assert forall|t: int, g: BlockFace| 0 <= t < 32768 implies #[trigger] slot_of(
                    self.blocks@,
                    t,
                    g,
                ) is None by {}
            }
            return ;
        }
        proof {
            lemma_count_bound(reg, sp);
        }
        self.recreate_buffers_if_full();
        let ghost entry = *self;
        proof {
            let cur = self.blocks@;
            assert forall|t: int, g: BlockFace| 0 <= t < 32768 implies #[trigger] slot_of(
                cur,
                t,
                g,
            ) == slot_of(sp, t, g) by {
                if t != idx as int {
                    assert(cur[t] == sp[t]);
                }
            }
            assert forall|t: int, g: BlockFace|
                0 <= t < 32768 && (#[trigger] slot_of(cur, t, g)) is Some implies slot_of(
                cur,
                t,
                g,
            ).unwrap() < self.vertices@.len() && self.vertices@[slot_of(cur, t, g).unwrap() as int]
                == quad_of(reg, sp, t, g) by {
                assert(slot_of(sp, t, g) is Some);
            }
            assert forall|i1: int, f1: BlockFace, i2: int, f2: BlockFace|
                (0 <= i1 < 32768 && 0 <= i2 < 32768 && (#[trigger] slot_of(cur, i1, f1)) is Some
                    && slot_of(cur, i1, f1) == #[trigger] slot_of(cur, i2, f2)) implies (i1 == i2
                && f1 == f2) by {
                assert(slot_of(sp, i1, f1) == slot_of(cur, i1, f1));
                assert(slot_of(sp, i2, f2) == slot_of(cur, i2, f2));
            }
            assert forall|k: int| 0 <= k < self.vertices@.len() implies #[trigger] slot_owned(
                cur,
                k,
            ) by {
                assert(slot_owned(sp, k));
                let (i2, f2) = choose|i2: int, f2: BlockFace|
                    0 <= i2 < 32768 && #[trigger] slot_of(sp, i2, f2) == Some(k as usize);
                assert(slot_of(cur, i2, f2) == Some(k as usize));
            }
            assert(self.place_entry(reg, sp, idx as int));
        }
        if was_transparent {
            if is_transparent {
                proof {
                    assert(self.blocks@[idx as int].id == 0 && sp[idx as int].id == 0);
                    assert forall|t: int, g: BlockFace| 0 <= t < 32768 implies ((#[trigger] slot_of(
                        self.blocks@,
                        t,
                        g,
                    )) is Some <==> emitted(reg, self.blocks@, t, g)) by {
                        lemma_emitted_same(reg, sp, self.blocks@, t, g);
                    }
                    assert forall|t: int, g: BlockFace|
                        0 <= t < 32768 && (#[trigger] slot_of(self.blocks@, t, g)) is Some implies
                        self.vertices@[slot_of(self.blocks@, t, g).unwrap() as int] == quad_of(
                        reg,
                        self.blocks@,
                        t,
                        g,
                    ) by {
                        assert(!emitted(reg, sp, idx as int, g));
                        assert(t != idx);
                        assert(quad_of(reg, sp, t, g) == quad_of(reg, self.blocks@, t, g));
                    }
                    lemma_slots_len(reg, self.blocks@, self.vertices@.len() as int);
                }
            } else {
                self.place_fill(reg, idx, Ghost(sp));
            }
        } else {
            if is_transparent {
                self.place_clear(reg, idx, Ghost(sp));
            } else {
                self.place_replace(reg, idx, Ghost(sp));
                proof {
                    assert(entry.vertices == old(self).vertices);
                    assert forall|t: int, g: BlockFace| 0 <= t < 32768 implies #[trigger] slot_of(
                        final(self).blocks@,
                        t,
                        g,
                    ) == slot_of(sp, t, g) by {
                        assert(slot_of(final(self).blocks@, t, g) == slot_of(entry.blocks@, t, g));
                    }
                    assert forall|t: int, g: BlockFace|
                        (0 <= t < 32768 && t != idx as int && (#[trigger] slot_of(
                            sp,
                            t,
                            g,
                        )) is Some) implies final(self).vertices@[slot_of(sp, t, g).unwrap() as int]
                        == old(self).vertices@[slot_of(sp, t, g).unwrap() as int] by {
                        assert(slot_of(entry.blocks@, t, g) == slot_of(sp, t, g));
                    }
                    assert forall|g: BlockFace|
                        (#[trigger] slot_of(sp, idx as int, g)) is Some
                        implies final(self).vertices@[slot_of(sp, idx as int, g).unwrap() as int]
                        == quad_of(reg, final(self).blocks@, idx as int, g) by {
                        assert(slot_of(entry.blocks@, idx as int, g) == slot_of(sp, idx as int, g));
                        assert(final(self).blocks@ == entry.blocks@);
                    }
                }
            }
        }
    }
}

/// The larger of two values.
pub open spec fn max_spec(a: int, b: int) -> int {
    if a >= b {
        a
    } else {
        b
    }
}

} // verus!
