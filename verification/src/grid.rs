//! Addressing inside a chunk: the bijection between flat indices in
//! `[0, 32768)` and coordinates of the 32x32x32 grid, and the arithmetic
//! of same-chunk neighbors.

use vstd::prelude::*;

use crate::face::BlockFace;

verus! {

/// Blocks per chunk edge.
pub const CHUNK_SIDE: usize = 32;

/// Blocks per chunk.
pub const CHUNK_VOLUME: usize = 32768;

/// An unsigned block coordinate inside a chunk.
#[derive(Debug, Clone, Copy, PartialEq, Eq, Structural)]
pub struct UVec3 {
    pub x: u32,
    pub y: u32,
    pub z: u32,
}

/// The x coordinate of flat index `i`.
pub open spec fn pos_x(i: int) -> int {
    i % 32
}

/// The y coordinate of flat index `i`.
pub open spec fn pos_y(i: int) -> int {
    (i / 32) % 32
}

/// The z coordinate of flat index `i`.
pub open spec fn pos_z(i: int) -> int {
    i / 1024
}

/// The flat index of coordinates `(x, y, z)`.
pub open spec fn pos_to_index_spec(x: int, y: int, z: int) -> int {
    x + 32 * y + 1024 * z
}

/// Addressing is a bijection: coordinates recover their flat index.
pub proof fn lemma_index_to_pos_to_index(i: int)
    requires
        0 <= i < 32768,
    ensures
        pos_to_index_spec(pos_x(i), pos_y(i), pos_z(i)) == i,
        0 <= pos_x(i) < 32,
        0 <= pos_y(i) < 32,
        0 <= pos_z(i) < 32,
{
    let iu = i as u16;
    assert(iu < 32768 ==> (iu % 32) + 32 * ((iu / 32) % 32) + 1024 * (iu / 1024) == iu && iu % 32
        < 32 && (iu / 32) % 32 < 32 && iu / 1024 < 32) by (bit_vector);
}

/// Addressing is a bijection: a flat index recovers its coordinates.
pub proof fn lemma_pos_to_index_to_pos(x: int, y: int, z: int)
    requires
        0 <= x < 32,
        0 <= y < 32,
        0 <= z < 32,
    ensures
        0 <= pos_to_index_spec(x, y, z) < 32768,
        pos_x(pos_to_index_spec(x, y, z)) == x,
        pos_y(pos_to_index_spec(x, y, z)) == y,
        pos_z(pos_to_index_spec(x, y, z)) == z,
{
    let xu = x as u16;
    let yu = y as u16;
    let zu = z as u16;
    assert((xu < 32 && yu < 32 && zu < 32) ==> xu + 32 * yu + 1024 * zu < 32768 && (xu + 32 * yu
        + 1024 * zu) % 32 == xu && ((xu + 32 * yu + 1024 * zu) / 32) % 32 == yu && (xu + 32 * yu
        + 1024 * zu) / 1024 == zu) by (bit_vector);
}

/// Coordinates of the block with flat index `idx`.
pub fn block_idx_to_pos(idx: usize) -> (p: UVec3)
    requires
        idx < 32768,
    ensures
        p.x == pos_x(idx as int),
        p.y == pos_y(idx as int),
        p.z == pos_z(idx as int),
        p.x < 32 && p.y < 32 && p.z < 32,
{
    proof {
        assert(idx < 32768 ==> (idx & 31) == idx % 32 && ((idx >> 5) & 31) == (idx / 32) % 32 && (
        idx >> 10) == idx / 1024 && idx % 32 < 32 && (idx / 32) % 32 < 32 && idx / 1024 < 32)
            by (bit_vector);
    }
    UVec3 { x: (idx & 31) as u32, y: ((idx >> 5) & 31) as u32, z: (idx >> 10) as u32 }
}

/// Flat index of the block at coordinates `pos`.
pub fn block_pos_to_idx(pos: UVec3) -> (idx: usize)
    requires
        pos.x < 32,
        pos.y < 32,
        pos.z < 32,
    ensures
        idx == pos_to_index_spec(pos.x as int, pos.y as int, pos.z as int),
        idx < 32768,
        pos_x(idx as int) == pos.x,
        pos_y(idx as int) == pos.y,
        pos_z(idx as int) == pos.z,
{
    proof {
        lemma_pos_to_index_to_pos(pos.x as int, pos.y as int, pos.z as int);
    }
    pos.x as usize + pos.y as usize * 32 + pos.z as usize * 1024
}

/// A non-edge block's neighbor stays inside the grid, and its coordinates
/// move by the face's unit normal.
pub proof fn lemma_neighbor(f: BlockFace, i: int)
    requires
        0 <= i < 32768,
        !f.is_edge_spec(i),
    ensures
        0 <= i + f.ioffset_spec() < 32768,
        pos_x(i + f.ioffset_spec()) == pos_x(i) + f.voffset_spec().x,
        pos_y(i + f.ioffset_spec()) == pos_y(i) + f.voffset_spec().y,
        pos_z(i + f.ioffset_spec()) == pos_z(i) + f.voffset_spec().z,
{
    let iu = i as u16;
    match f {
        BlockFace::Right => {
            assert((iu < 32768 && iu % 32 != 31) ==> (iu + 1) % 32 == iu % 32 + 1 && ((iu + 1)
                / 32) % 32 == (iu / 32) % 32 && (iu + 1) / 1024 == iu / 1024 && iu + 1 < 32768)
                by (bit_vector);
        },
        BlockFace::Left => {
            assert((iu < 32768 && iu % 32 != 0) ==> (iu - 1) % 32 == iu % 32 - 1 && ((iu - 1) / 32)
                % 32 == (iu / 32) % 32 && (iu - 1) / 1024 == iu / 1024 && iu - 1 >= 0)
                by (bit_vector);
        },
        BlockFace::Top => {
            assert((iu < 32768 && (iu / 32) % 32 != 31) ==> (iu + 32) % 32 == iu % 32 && ((iu + 32)
                / 32) % 32 == (iu / 32) % 32 + 1 && (iu + 32) / 1024 == iu / 1024 && iu + 32
                < 32768) by (bit_vector);
        },
        BlockFace::Bottom => {
            assert((iu < 32768 && (iu / 32) % 32 != 0) ==> (iu - 32) % 32 == iu % 32 && ((iu - 32)
                / 32) % 32 == (iu / 32) % 32 - 1 && (iu - 32) / 1024 == iu / 1024 && iu - 32 >= 0)
                by (bit_vector);
        },
        BlockFace::Back => {
            assert((iu < 32768 && iu / 1024 != 31) ==> (iu + 1024) % 32 == iu % 32 && ((iu + 1024)
                / 32) % 32 == (iu / 32) % 32 && (iu + 1024) / 1024 == iu / 1024 + 1 && iu + 1024
                < 32768) by (bit_vector);
        },
        BlockFace::Front => {
            assert((iu < 32768 && iu / 1024 != 0) ==> (iu - 1024) % 32 == iu % 32 && ((iu - 1024)
                / 32) % 32 == (iu / 32) % 32 && (iu - 1024) / 1024 == iu / 1024 - 1 && iu - 1024
                >= 0) by (bit_vector);
        },
    }
}

/// Seen from a non-edge block's neighbor, the flipped direction leads
/// back: the neighbor is not on the chunk edge toward the block.
pub proof fn lemma_neighbor_flip(f: BlockFace, i: int)
    requires
        0 <= i < 32768,
        !f.is_edge_spec(i),
    ensures
        !f.flip_spec().is_edge_spec(i + f.ioffset_spec()),
        i + f.ioffset_spec() + f.flip_spec().ioffset_spec() == i,
{
    let iu = i as u16;
    match f {
        BlockFace::Right => {
            assert((iu < 32768 && iu % 32 != 31) ==> (iu + 1) % 32 != 0) by (bit_vector);
        },
        BlockFace::Left => {
            assert((iu < 32768 && iu % 32 != 0) ==> (iu - 1) % 32 != 31) by (bit_vector);
        },
        BlockFace::Top => {
            assert((iu < 32768 && (iu / 32) % 32 != 31) ==> ((iu + 32) / 32) % 32 != 0)
                by (bit_vector);
        },
        BlockFace::Bottom => {
            assert((iu < 32768 && (iu / 32) % 32 != 0) ==> ((iu - 32) / 32) % 32 != 31)
                by (bit_vector);
        },
        BlockFace::Back => {
            assert((iu < 32768 && iu / 1024 != 31) ==> (iu + 1024) / 1024 != 0) by (bit_vector);
        },
        BlockFace::Front => {
            assert((iu < 32768 && iu / 1024 != 0) ==> (iu - 1024) / 1024 != 31) by (bit_vector);
        },
    }
}

/// Stepping off a chunk edge wraps to a flat index (when one exists at
/// all) that lies on the opposite edge: the two cells are not neighbors.
pub proof fn lemma_edge_wrap(f: BlockFace, i: int)
    requires
        0 <= i < 32768,
        f.is_edge_spec(i),
        0 <= i + f.ioffset_spec() < 32768,
    ensures
        f.flip_spec().is_edge_spec(i + f.ioffset_spec()),
{
    let iu = i as u16;
    match f {
        BlockFace::Right => {
            assert((iu < 32768 && iu % 32 == 31 && iu + 1 < 32768) ==> (iu + 1) % 32 == 0)
                by (bit_vector);
        },
        BlockFace::Left => {
            assert((iu < 32768 && iu % 32 == 0 && iu >= 1) ==> (iu - 1) % 32 == 31) by (bit_vector);
        },
        BlockFace::Top => {
            assert((iu < 32768 && (iu / 32) % 32 == 31 && iu + 32 < 32768) ==> ((iu + 32) / 32) % 32
                == 0) by (bit_vector);
        },
        BlockFace::Bottom => {
            assert((iu < 32768 && (iu / 32) % 32 == 0 && iu >= 32) ==> ((iu - 32) / 32) % 32 == 31)
                by (bit_vector);
        },
        BlockFace::Back => {
            assert((iu < 32768 && iu / 1024 == 31 && iu + 1024 < 32768) ==> (iu + 1024) / 1024 == 0)
                by (bit_vector);
        },
        BlockFace::Front => {
            assert((iu < 32768 && iu / 1024 == 0 && iu >= 1024) ==> (iu - 1024) / 1024 == 31)
                by (bit_vector);
        },
    }
}

} // verus!
