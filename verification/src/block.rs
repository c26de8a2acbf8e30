//! Per-block state and face-quad geometry.
//!
//! `gen_face` builds the four corners of a unit-cube face, with the axis
//! assignment depending on both the face and the block's orientation, and
//! reverses the winding for even face ordinals so every emitted quad is
//! front-facing. A quad built this way can be inverted: its corner
//! positions alone recover the owning cell and face direction, which the
//! swap-remove bookkeeping relies on.

use vstd::prelude::*;

use crate::codec::FaceSlots;
use crate::face::{BlockFace, Vec3i};
use crate::grid::UVec3;
use crate::registry::{BlockData, BlockMeshType, BlockRegistry, BlockTexture, Color, Vec2u};

verus! {

/// One mesh vertex: a lattice position inside the chunk, a texel
/// coordinate into the atlas, and a tint color.
#[derive(Debug, Clone, Copy, PartialEq, Eq, Structural)]
pub struct Vertex {
    pub position: Vec3i,
    pub tex: Vec2u,
    pub color: Color,
}

/// One emitted face: four vertices in winding order.
#[derive(Debug, Clone, Copy, PartialEq, Eq, Structural)]
pub struct Quad {
    pub v0: Vertex,
    pub v1: Vertex,
    pub v2: Vertex,
    pub v3: Vertex,
}

/// Which side of the cell the face plane lies on: 1 for even ordinals,
/// 0 for odd ones.
pub open spec fn axis_spec(face: BlockFace) -> int {
    if face.ordinal() % 2 == 0 {
        1
    } else {
        0
    }
}

/// The cell-local position of corner `(i, j)` of the face `face` on a
/// block oriented toward `dir`, with `i, j` in `{0, 1}`.
pub open spec fn local_corner_spec(face: BlockFace, dir: BlockFace, i: int, j: int) -> (int, int, int) {
    let a = axis_spec(face);
    if face == BlockFace::Right || face == BlockFace::Left {
        if dir == BlockFace::Top {
            (a, i, 1 - j)
        } else if dir == BlockFace::Bottom {
            (a, 1 - i, j)
        } else {
            (a, 1 - j, 1 - i)
        }
    } else if face == BlockFace::Front || face == BlockFace::Back {
        if dir == BlockFace::Top {
            (1 - i, j, a)
        } else {
            (i, 1 - j, a)
        }
    } else {
        if dir == BlockFace::Left {
            (1 - j, a, i)
        } else if dir == BlockFace::Back || dir == BlockFace::Bottom {
            (i, a, j)
        } else if dir == BlockFace::Right {
            (j, a, 1 - i)
        } else {
            (1 - i, a, 1 - j)
        }
    }
}

/// Corner `(i, j)` of the quad: world position, texel coordinate, tint.
pub open spec fn vertex_spec(
    face: BlockFace,
    dir: BlockFace,
    tex: BlockTexture,
    pos: UVec3,
    i: int,
    j: int,
) -> Vertex {
    let (lx, ly, lz) = local_corner_spec(face, dir, i, j);
    Vertex {
        position: Vec3i {
            x: (pos.x + lx) as i32,
            y: (pos.y + ly) as i32,
            z: (pos.z + lz) as i32,
        },
        tex: tex.get_spec(Vec2u { x: i as u32, y: j as u32 }),
        color: tex.color,
    }
}

/// The texture region used for world face `face` of a block of type `id`
/// oriented toward `dir`.
pub open spec fn face_texture_spec(
    reg: &BlockRegistry,
    id: int,
    dir: BlockFace,
    face: BlockFace,
) -> BlockTexture {
    match reg.blocks@[id].mesh_type {
        BlockMeshType::Transparent => arbitrary(),
        BlockMeshType::SameSided(t) => t,
        BlockMeshType::Surrounded { top, bottom, sides } => {
            if face == BlockFace::Top {
                top
            } else if face == BlockFace::Bottom {
                bottom
            } else {
                sides
            }
        },
        BlockMeshType::Directional { right, left, top, bottom, front, back } => {
            match face.on_spec(dir) {
                BlockFace::Right => right,
                BlockFace::Left => left,
                BlockFace::Front => front,
                BlockFace::Back => back,
                BlockFace::Top => top,
                BlockFace::Bottom => bottom,
            }
        },
    }
}

/// The quad emitted for face `face` of the block at cell `pos` with
/// texture `tex`, oriented toward `dir`. Even-ordinal faces have their
/// corner order reversed to keep the winding front-facing.
pub open spec fn quad_spec(face: BlockFace, dir: BlockFace, tex: BlockTexture, pos: UVec3) -> Quad {
    let c0 = vertex_spec(face, dir, tex, pos, 0, 0);
    let c1 = vertex_spec(face, dir, tex, pos, 1, 0);
    let c2 = vertex_spec(face, dir, tex, pos, 1, 1);
    let c3 = vertex_spec(face, dir, tex, pos, 0, 1);
    if face.ordinal() % 2 == 0 {
        Quad { v0: c3, v1: c2, v2: c1, v3: c0 }
    } else {
        Quad { v0: c0, v1: c1, v2: c2, v3: c3 }
    }
}

/// The full quad for face `face` of a block of type `id` oriented toward
/// `dir` at cell `pos`: geometry plus texture selection.
pub open spec fn gen_face_spec(
    reg: &BlockRegistry,
    id: int,
    dir: BlockFace,
    pos: UVec3,
    face: BlockFace,
) -> Quad {
    quad_spec(face, dir, face_texture_spec(reg, id, dir, face), pos)
}

/// The unnormalized face normal of a quad: the cross product of its first
/// two edge vectors.
pub open spec fn quad_normal_spec(q: Quad) -> (int, int, int) {
    let e1x = q.v1.position.x - q.v0.position.x;
    let e1y = q.v1.position.y - q.v0.position.y;
    let e1z = q.v1.position.z - q.v0.position.z;
    let e2x = q.v2.position.x - q.v0.position.x;
    let e2y = q.v2.position.y - q.v0.position.y;
    let e2z = q.v2.position.z - q.v0.position.z;
    (e1y * e2z - e1z * e2y, e1z * e2x - e1x * e2z, e1x * e2y - e1y * e2x)
}

/// The componentwise sum of a quad's corner positions.
pub open spec fn quad_sum_spec(q: Quad) -> (int, int, int) {
    (
        q.v0.position.x + q.v1.position.x + q.v2.position.x + q.v3.position.x,
        q.v0.position.y + q.v1.position.y + q.v2.position.y + q.v3.position.y,
        q.v0.position.z + q.v1.position.z + q.v2.position.z + q.v3.position.z,
    )
}

/// Every corner of the quad lies on the owning cell's unit cube.
pub open spec fn vertex_in_cell(v: Vertex, pos: UVec3) -> bool {
    &&& pos.x <= v.position.x <= pos.x + 1
    &&& pos.y <= v.position.y <= pos.y + 1
    &&& pos.z <= v.position.z <= pos.z + 1
}

pub open spec fn quad_in_cell(q: Quad, pos: UVec3) -> bool {
    vertex_in_cell(q.v0, pos) && vertex_in_cell(q.v1, pos) && vertex_in_cell(q.v2, pos)
        && vertex_in_cell(q.v3, pos)
}

/// A quad of `quad_spec(face, dir, tex, pos)` betrays its owner this way.
pub open spec fn owner_recovered(face: BlockFace, dir: BlockFace, tex: BlockTexture, pos: UVec3) -> bool {
    let q = quad_spec(face, dir, tex, pos);
    let (nx, ny, nz) = quad_normal_spec(q);
    let (sx, sy, sz) = quad_sum_spec(q);
    &&& nx == face.voffset_spec().x
    &&& ny == face.voffset_spec().y
    &&& nz == face.voffset_spec().z
    &&& sx - 2 * nx == 4 * pos.x + 2
    &&& sy - 2 * ny == 4 * pos.y + 2
    &&& sz - 2 * nz == 4 * pos.z + 2
    &&& quad_in_cell(q, pos)
}

/// A product of two factors from `{-1, 0, 1}` evaluates by sign.
pub broadcast proof fn lemma_unit_mul(a: int, b: int)
    requires
        -1 <= a <= 1,
        -1 <= b <= 1,
    ensures
        #[trigger] (a * b) == (if a == 0 || b == 0 {
            0int
        } else if a == b {
            1int
        } else {
            -1int
        }),
{
    assert(a * b == (if a == 0 || b == 0 {
        0int
    } else if a == b {
        1int
    } else {
        -1int
    })) by (nonlinear_arith)
        requires
            -1 <= a <= 1,
            -1 <= b <= 1,
    ;
}

/// A quad built by `quad_spec` betrays its owner: its normal is the unit
/// normal of the face it was built for, and stepping half a unit back
/// from its center lands inside the owning cell.
pub proof fn lemma_quad_owner(face: BlockFace, dir: BlockFace, tex: BlockTexture, pos: UVec3)
    requires
        pos.x < 32,
        pos.y < 32,
        pos.z < 32,
    ensures
        owner_recovered(face, dir, tex, pos),
{
    broadcast use lemma_unit_mul;

    match face {
        BlockFace::Back => match dir {
                BlockFace::Back => {
                    assert(owner_recovered(face, dir, tex, pos));
                },
                BlockFace::Front => {
                    assert(owner_recovered(face, dir, tex, pos));
                },
                BlockFace::Right => {
                    assert(owner_recovered(face, dir, tex, pos));
                },
                BlockFace::Left => {
                    assert(owner_recovered(face, dir, tex, pos));
                },
                BlockFace::Top => {
                    assert(owner_recovered(face, dir, tex, pos));
                },
                BlockFace::Bottom => {
                    assert(owner_recovered(face, dir, tex, pos));
                },
            },
        BlockFace::Front => match dir {
                BlockFace::Back => {
                    assert(owner_recovered(face, dir, tex, pos));
                },
                BlockFace::Front => {
                    assert(owner_recovered(face, dir, tex, pos));
                },
                BlockFace::Right => {
                    assert(owner_recovered(face, dir, tex, pos));
                },
                BlockFace::Left => {
                    assert(owner_recovered(face, dir, tex, pos));
                },
                BlockFace::Top => {
                    assert(owner_recovered(face, dir, tex, pos));
                },
                BlockFace::Bottom => {
                    assert(owner_recovered(face, dir, tex, pos));
                },
            },
        BlockFace::Right => match dir {
                BlockFace::Back => {
                    assert(owner_recovered(face, dir, tex, pos));
                },
                BlockFace::Front => {
                    assert(owner_recovered(face, dir, tex, pos));
                },
                BlockFace::Right => {
                    assert(owner_recovered(face, dir, tex, pos));
                },
                BlockFace::Left => {
                    assert(owner_recovered(face, dir, tex, pos));
                },
                BlockFace::Top => {
                    assert(owner_recovered(face, dir, tex, pos));
                },
                BlockFace::Bottom => {
                    assert(owner_recovered(face, dir, tex, pos));
                },
            },
        BlockFace::Left => match dir {
                BlockFace::Back => {
                    assert(owner_recovered(face, dir, tex, pos));
                },
                BlockFace::Front => {
                    assert(owner_recovered(face, dir, tex, pos));
                },
                BlockFace::Right => {
                    assert(owner_recovered(face, dir, tex, pos));
                },
                BlockFace::Left => {
                    assert(owner_recovered(face, dir, tex, pos));
                },
                BlockFace::Top => {
                    assert(owner_recovered(face, dir, tex, pos));
                },
                BlockFace::Bottom => {
                    assert(owner_recovered(face, dir, tex, pos));
                },
            },
        BlockFace::Top => match dir {
                BlockFace::Back => {
                    assert(owner_recovered(face, dir, tex, pos));
                },
                BlockFace::Front => {
                    assert(owner_recovered(face, dir, tex, pos));
                },
                BlockFace::Right => {
                    assert(owner_recovered(face, dir, tex, pos));
                },
                BlockFace::Left => {
                    assert(owner_recovered(face, dir, tex, pos));
                },
                BlockFace::Top => {
                    assert(owner_recovered(face, dir, tex, pos));
                },
                BlockFace::Bottom => {
                    assert(owner_recovered(face, dir, tex, pos));
                },
            },
        BlockFace::Bottom => match dir {
                BlockFace::Back => {
                    assert(owner_recovered(face, dir, tex, pos));
                },
                BlockFace::Front => {
                    assert(owner_recovered(face, dir, tex, pos));
                },
                BlockFace::Right => {
                    assert(owner_recovered(face, dir, tex, pos));
                },
                BlockFace::Left => {
                    assert(owner_recovered(face, dir, tex, pos));
                },
                BlockFace::Top => {
                    assert(owner_recovered(face, dir, tex, pos));
                },
                BlockFace::Bottom => {
                    assert(owner_recovered(face, dir, tex, pos));
                },
            },
    }
}

/// Per-block state inside a chunk: the block-type id, the packed face
/// slots, the stored orientation, and an optional auxiliary payload.
#[derive(Debug, Clone)]
pub struct ChunkBlock {
    pub id: u32,
    pub slots: FaceSlots,
    pub dir: BlockFace,
    pub data: Option<Vec<u8>>,
}

impl ChunkBlock {
    /// The face slot recorded for direction `face`, if any.
    pub fn face(&self, face: BlockFace) -> (r: Option<usize>)
        ensures
            r == self.slots.get_spec(face),
    {
        self.slots.get(face)
    }

    /// Record (or clear) the face slot for direction `face`, leaving the
    /// other five directions untouched.
    pub fn set_face(&mut self, face: BlockFace, value: Option<usize>)
        requires
            value matches Some(v) ==> v < 0x1ffff,
        ensures
            final(self).slots.get_spec(face) == value,
            forall|g: BlockFace| g != face ==> final(self).slots.raw(g) == old(self).slots.raw(g),
            final(self).id == old(self).id,
            final(self).dir == old(self).dir,
            final(self).data == old(self).data,
    {
        self.slots.set(face, value);
    }

    /// This block's registry entry.
    pub fn data<'a>(&self, reg: &'a BlockRegistry) -> (d: &'a BlockData)
        requires
            self.id < reg.blocks@.len(),
        ensures
            d == &reg.blocks@[self.id as int],
    {
        &reg.blocks[self.id as usize]
    }

    /// Build the quad for world face `face` of this block at cell `pos`.
    pub fn gen_face(&self, reg: &BlockRegistry, pos: UVec3, face: BlockFace) -> (q: Quad)
        requires
            reg.wf(),
            self.id < reg.blocks@.len(),
            !reg.transparent_spec(self.id as int),
            pos.x < 32,
            pos.y < 32,
            pos.z < 32,
        ensures
            q == gen_face_spec(reg, self.id as int, self.dir, pos, face),
    {
        let texture: BlockTexture = match self.data(reg).mesh_type {
            BlockMeshType::Transparent => unreached(),
            BlockMeshType::SameSided(coords) => coords,
            BlockMeshType::Surrounded { top, bottom, sides } => match face {
                BlockFace::Top => top,
                BlockFace::Bottom => bottom,
                _ => sides,
            },
            BlockMeshType::Directional { right, left, top, bottom, front, back } => match face.on(
                self.dir,
            ) {
                BlockFace::Right => right,
                BlockFace::Left => left,
                BlockFace::Front => front,
                BlockFace::Back => back,
                BlockFace::Top => top,
                BlockFace::Bottom => bottom,
            },
        };
        let c0 = gen_corner(face, self.dir, texture, pos, 0, 0);
        let c1 = gen_corner(face, self.dir, texture, pos, 1, 0);
        let c2 = gen_corner(face, self.dir, texture, pos, 1, 1);
        let c3 = gen_corner(face, self.dir, texture, pos, 0, 1);
        if face.as_ordinal() % 2 == 0 {
            Quad { v0: c3, v1: c2, v2: c1, v3: c0 }
        } else {
            Quad { v0: c0, v1: c1, v2: c2, v3: c3 }
        }
    }
}

/// Build corner `(i, j)` of a face quad.
fn gen_corner(face: BlockFace, dir: BlockFace, tex: BlockTexture, pos: UVec3, i: u32, j: u32) -> (v:
    Vertex)
    requires
        tex.wf(),
        i <= 1,
        j <= 1,
        pos.x < 32,
        pos.y < 32,
        pos.z < 32,
    ensures
        v == vertex_spec(face, dir, tex, pos, i as int, j as int),
{
    let a: u32 = if face.as_ordinal() % 2 == 0 {
        1
    } else {
        0
    };
    let (lx, ly, lz): (u32, u32, u32) = match face {
        BlockFace::Right | BlockFace::Left => match dir {
            BlockFace::Top => (a, i, 1 - j),
            BlockFace::Bottom => (a, 1 - i, j),
            _ => (a, 1 - j, 1 - i),
        },
        BlockFace::Front | BlockFace::Back => match dir {
            BlockFace::Top => (1 - i, j, a),
            _ => (i, 1 - j, a),
        },
        _ => match dir {
            BlockFace::Left => (1 - j, a, i),
            BlockFace::Back | BlockFace::Bottom => (i, a, j),
            BlockFace::Right => (j, a, 1 - i),
            _ => (1 - i, a, 1 - j),
        },
    };
    Vertex {
        position: Vec3i {
            x: (pos.x + lx) as i32,
            y: (pos.y + ly) as i32,
            z: (pos.z + lz) as i32,
        },
        tex: tex.get(Vec2u { x: i, y: j }),
        color: tex.color,
    }
}

} // verus!
