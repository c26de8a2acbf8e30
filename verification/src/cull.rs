//! Visibility culling and the chunk-wide face count.
//!
//! A face is emitted exactly at the boundary between a non-air block and
//! air or the chunk edge. Counting boundaries per row shows a 32x32x32
//! grid emits at most `3 * 1024 * 33 = 101376` faces, comfortably below
//! the face-slot codec's `2^17 - 1` sentinel: the incremental edits can
//! always index every emitted face.

use vstd::prelude::*;

use crate::block::ChunkBlock;
use crate::face::BlockFace;
use crate::grid::{lemma_pos_to_index_to_pos, pos_to_index_spec};
use crate::registry::BlockRegistry;
use crate::sums::{
    lemma_sum_add, lemma_sum_blocks, lemma_sum_congruence, lemma_sum_le_const, lemma_sum_swap,
    lemma_row_bound, sum_n,
};

verus! {

/// Block ids index the registry, and only air (id 0) is transparent.
pub open spec fn blocks_ok(reg: &BlockRegistry, s: Seq<ChunkBlock>) -> bool {
    &&& s.len() == 32768
    &&& forall|i: int| 0 <= i < 32768 ==> (#[trigger] s[i]).id < reg.blocks@.len()
    &&& forall|i: int|
        0 <= i < 32768 ==> ((#[trigger] s[i]).id != 0 ==> !reg.transparent_spec(s[i].id as int))
}

/// Face `f` of the block at flat index `i` is emitted: the block is not
/// air, and it is exposed this way (chunk edge, or transparent same-chunk
/// neighbor).
pub open spec fn emitted(reg: &BlockRegistry, s: Seq<ChunkBlock>, i: int, f: BlockFace) -> bool {
    s[i].id != 0 && (f.is_edge_spec(i) || reg.transparent_spec(
        s[i + f.ioffset_spec()].id as int,
    ))
}

/// `emitted` as a 0/1 indicator.
pub open spec fn em(reg: &BlockRegistry, s: Seq<ChunkBlock>, i: int, f: BlockFace) -> int {
    if emitted(reg, s, i, f) {
        1
    } else {
        0
    }
}

/// How many of the six faces of block `i` are emitted.
pub open spec fn faces_at(reg: &BlockRegistry, s: Seq<ChunkBlock>, i: int) -> int {
    em(reg, s, i, BlockFace::Back) + em(reg, s, i, BlockFace::Front) + em(reg, s, i, BlockFace::Right)
        + em(reg, s, i, BlockFace::Left) + em(reg, s, i, BlockFace::Top) + em(
        reg,
        s,
        i,
        BlockFace::Bottom,
    )
}

/// How many faces the blocks with flat index below `k` emit.
pub open spec fn count_upto(reg: &BlockRegistry, s: Seq<ChunkBlock>, k: int) -> int {
    sum_n(|i: int| faces_at(reg, s, i), k)
}

/// How many faces the whole grid emits.
pub open spec fn count_faces(reg: &BlockRegistry, s: Seq<ChunkBlock>) -> int {
    count_upto(reg, s, 32768)
}

proof fn lemma_row_arith_x(r: int, j: int)
    requires
        0 <= r < 1024,
        0 <= j < 32,
    ensures
        (32 * r + j) % 32 == j,
        0 <= 32 * r + j < 32768,
{
    vstd::arithmetic::div_mod::lemma_fundamental_div_mod_converse(32 * r + j, 32, r, j);
    assert(32 * r + j < 32768) by (nonlinear_arith)
        requires
            0 <= r < 1024 && 0 <= j < 32,
    ;
}

proof fn lemma_row_arith_z(zz: int, r: int)
    requires
        0 <= zz < 32,
        0 <= r < 1024,
    ensures
        (1024 * zz + r) / 1024 == zz,
        0 <= 1024 * zz + r < 32768,
{
    vstd::arithmetic::div_mod::lemma_fundamental_div_mod_converse(1024 * zz + r, 1024, zz, r);
    assert(1024 * zz + r < 32768) by (nonlinear_arith)
        requires
            0 <= zz < 32 && 0 <= r < 1024,
    ;
}

/// The two x-axis faces of one x-row admit at most 33 faces.
proof fn lemma_xrow(reg: &BlockRegistry, s: Seq<ChunkBlock>, r: int)
    requires
        blocks_ok(reg, s),
        0 <= r < 1024,
    ensures
        sum_n(
            |j: int|
                em(reg, s, 32 * r + j, BlockFace::Right) + em(reg, s, 32 * r + j, BlockFace::Left),
            32,
        ) <= 33,
{
    let p = |j: int| em(reg, s, 32 * r + j, BlockFace::Right);
    let q = |j: int| em(reg, s, 32 * r + j, BlockFace::Left);
    assert forall|j: int| 0 <= j < 32 implies 0 <= #[trigger] p(j) <= 1 by {}
    assert forall|j: int| 0 <= j < 32 implies 0 <= #[trigger] q(j) <= 1 by {}
    assert forall|j: int| 1 <= j < 32 implies #[trigger] q(j) + p(j - 1) <= 1 by {
        lemma_row_arith_x(r, j);
        lemma_row_arith_x(r, j - 1);
        let i = 32 * r + j;
        if emitted(reg, s, i, BlockFace::Left) && emitted(reg, s, i - 1, BlockFace::Right) {
            assert(reg.transparent_spec(s[i - 1 + 1].id as int));
            assert(s[i].id != 0);
        }
    }
    lemma_row_bound(p, q, 32);
    lemma_sum_congruence(
        |j: int|
            em(reg, s, 32 * r + j, BlockFace::Right) + em(reg, s, 32 * r + j, BlockFace::Left),
        |j: int| p(j) + q(j),
        32,
    );
}

/// The two y-axis faces of one y-row admit at most 33 faces.
proof fn lemma_yrow(reg: &BlockRegistry, s: Seq<ChunkBlock>, x: int, z: int)
    requires
        blocks_ok(reg, s),
        0 <= x < 32,
        0 <= z < 32,
    ensures
        sum_n(
            |y: int|
                em(reg, s, 1024 * z + 32 * y + x, BlockFace::Top) + em(
                    reg,
                    s,
                    1024 * z + 32 * y + x,
                    BlockFace::Bottom,
                ),
            32,
        ) <= 33,
{
    let p = |y: int| em(reg, s, 1024 * z + 32 * y + x, BlockFace::Top);
    let q = |y: int| em(reg, s, 1024 * z + 32 * y + x, BlockFace::Bottom);
    assert forall|y: int| 0 <= y < 32 implies 0 <= #[trigger] p(y) <= 1 by {}
    assert forall|y: int| 0 <= y < 32 implies 0 <= #[trigger] q(y) <= 1 by {}
    assert forall|y: int| 1 <= y < 32 implies #[trigger] q(y) + p(y - 1) <= 1 by {
        lemma_pos_to_index_to_pos(x, y, z);
        lemma_pos_to_index_to_pos(x, y - 1, z);
        assert(pos_to_index_spec(x, y, z) == 1024 * z + 32 * y + x);
        let i = 1024 * z + 32 * y + x;
        if emitted(reg, s, i, BlockFace::Bottom) && emitted(reg, s, i - 32, BlockFace::Top) {
            assert(reg.transparent_spec(s[i - 32 + 32].id as int));
            assert(s[i].id != 0);
        }
    }
    lemma_row_bound(p, q, 32);
    lemma_sum_congruence(
        |y: int|
            em(reg, s, 1024 * z + 32 * y + x, BlockFace::Top) + em(
                reg,
                s,
                1024 * z + 32 * y + x,
                BlockFace::Bottom,
            ),
        |y: int| p(y) + q(y),
        32,
    );
}

/// The two z-axis faces of one z-row admit at most 33 faces.
proof fn lemma_zrow(reg: &BlockRegistry, s: Seq<ChunkBlock>, r: int)
    requires
        blocks_ok(reg, s),
        0 <= r < 1024,
    ensures
        sum_n(
            |zz: int|
                em(reg, s, 1024 * zz + r, BlockFace::Back) + em(
                    reg,
                    s,
                    1024 * zz + r,
                    BlockFace::Front,
                ),
            32,
        ) <= 33,
{
    let p = |zz: int| em(reg, s, 1024 * zz + r, BlockFace::Back);
    let q = |zz: int| em(reg, s, 1024 * zz + r, BlockFace::Front);
    assert forall|zz: int| 0 <= zz < 32 implies 0 <= #[trigger] p(zz) <= 1 by {}
    assert forall|zz: int| 0 <= zz < 32 implies 0 <= #[trigger] q(zz) <= 1 by {}
    assert forall|zz: int| 1 <= zz < 32 implies #[trigger] q(zz) + p(zz - 1) <= 1 by {
        lemma_row_arith_z(zz, r);
        lemma_row_arith_z(zz - 1, r);
        let i = 1024 * zz + r;
        if emitted(reg, s, i, BlockFace::Front) && emitted(reg, s, i - 1024, BlockFace::Back) {
            assert(reg.transparent_spec(s[i - 1024 + 1024].id as int));
            assert(s[i].id != 0);
        }
    }
    lemma_row_bound(p, q, 32);
    lemma_sum_congruence(
        |zz: int|
            em(reg, s, 1024 * zz + r, BlockFace::Back) + em(
                reg,
                s,
                1024 * zz + r,
                BlockFace::Front,
            ),
        |zz: int| p(zz) + q(zz),
        32,
    );
}

/// The x-axis faces over the whole grid number at most `33 * 1024`.
proof fn lemma_axis_x(reg: &BlockRegistry, s: Seq<ChunkBlock>)
    requires
        blocks_ok(reg, s),
    ensures
        sum_n(
            |i: int| em(reg, s, i, BlockFace::Right) + em(reg, s, i, BlockFace::Left),
            32768,
        ) <= 33792,
{
    let fx = |i: int| em(reg, s, i, BlockFace::Right) + em(reg, s, i, BlockFace::Left);
    lemma_sum_blocks(fx, 32, 1024);
    let rows = |k: int| sum_n(|t: int| fx(32 * k + t), 32);
    assert forall|k: int| 0 <= k < 1024 implies #[trigger] rows(k) <= 33 by {
        lemma_xrow(reg, s, k);
        lemma_sum_congruence(
            |t: int| fx(32 * k + t),
            |j: int|
                em(reg, s, 32 * k + j, BlockFace::Right) + em(reg, s, 32 * k + j, BlockFace::Left),
            32,
        );
    }
    lemma_sum_le_const(rows, 1024, 33);
}

/// The y-axis faces over the whole grid number at most `33 * 1024`.
proof fn lemma_axis_y(reg: &BlockRegistry, s: Seq<ChunkBlock>)
    requires
        blocks_ok(reg, s),
    ensures
        sum_n(
            |i: int| em(reg, s, i, BlockFace::Top) + em(reg, s, i, BlockFace::Bottom),
            32768,
        ) <= 33792,
{
    let fy = |i: int| em(reg, s, i, BlockFace::Top) + em(reg, s, i, BlockFace::Bottom);
    lemma_sum_blocks(fy, 1024, 32);
    let slabs = |z: int| sum_n(|r: int| fy(1024 * z + r), 1024);
    assert forall|z: int| 0 <= z < 32 implies #[trigger] slabs(z) <= 1056 by {
        let slab = |r: int| fy(1024 * z + r);
        lemma_sum_blocks(slab, 32, 32);
        let h = |x: int, y: int| fy(1024 * z + 32 * y + x);
        let byy = |y: int| sum_n(|x: int| h(x, y), 32);
        assert forall|y: int| 0 <= y < 32 implies #[trigger] byy(y) == sum_n(
            |t: int| slab(32 * y + t),
            32,
        ) by {
            lemma_sum_congruence(|x: int| h(x, y), |t: int| slab(32 * y + t), 32);
        }
        lemma_sum_congruence(|k: int| sum_n(|t: int| slab(32 * k + t), 32), byy, 32);
        lemma_sum_swap(h, 32, 32);
        let byx = |x: int| sum_n(|y: int| h(x, y), 32);
        assert forall|x: int| 0 <= x < 32 implies #[trigger] byx(x) <= 33 by {
            lemma_yrow(reg, s, x, z);
            lemma_sum_congruence(
                |y: int| h(x, y),
                |y: int|
                    em(reg, s, 1024 * z + 32 * y + x, BlockFace::Top) + em(
                        reg,
                        s,
                        1024 * z + 32 * y + x,
                        BlockFace::Bottom,
                    ),
                32,
            );
        }
        lemma_sum_le_const(byx, 32, 33);
        assert(sum_n(byy, 32) == sum_n(byx, 32));
    }
    lemma_sum_le_const(slabs, 32, 1056);
}

/// The z-axis faces over the whole grid number at most `33 * 1024`.
proof fn lemma_axis_z(reg: &BlockRegistry, s: Seq<ChunkBlock>)
    requires
        blocks_ok(reg, s),
    ensures
        sum_n(
            |i: int| em(reg, s, i, BlockFace::Back) + em(reg, s, i, BlockFace::Front),
            32768,
        ) <= 33792,
{
    let fz = |i: int| em(reg, s, i, BlockFace::Back) + em(reg, s, i, BlockFace::Front);
    lemma_sum_blocks(fz, 1024, 32);
    let h = |r: int, z: int| fz(1024 * z + r);
    let byz = |z: int| sum_n(|r: int| h(r, z), 1024);
    assert forall|z: int| 0 <= z < 32 implies #[trigger] byz(z) == sum_n(
        |t: int| fz(1024 * z + t),
        1024,
    ) by {
        lemma_sum_congruence(|r: int| h(r, z), |t: int| fz(1024 * z + t), 1024);
    }
    lemma_sum_congruence(|k: int| sum_n(|t: int| fz(1024 * k + t), 1024), byz, 32);
    lemma_sum_swap(h, 32, 1024);
    let byr = |r: int| sum_n(|z: int| h(r, z), 32);
    assert forall|r: int| 0 <= r < 1024 implies #[trigger] byr(r) <= 33 by {
        lemma_zrow(reg, s, r);
        lemma_sum_congruence(
            |z: int| h(r, z),
            |zz: int|
                em(reg, s, 1024 * zz + r, BlockFace::Back) + em(
                    reg,
                    s,
                    1024 * zz + r,
                    BlockFace::Front,
                ),
            32,
        );
    }
    lemma_sum_le_const(byr, 1024, 33);
    assert(sum_n(byz, 32) == sum_n(byr, 1024));
}

/// A 32x32x32 grid emits at most 101376 faces: at most 33 per row per
/// axis. Every face-slot index therefore fits the 17-bit codec.
pub proof fn lemma_count_bound(reg: &BlockRegistry, s: Seq<ChunkBlock>)
    requires
        blocks_ok(reg, s),
    ensures
        count_faces(reg, s) <= 101376,
{
    let fx = |i: int| em(reg, s, i, BlockFace::Right) + em(reg, s, i, BlockFace::Left);
    let fy = |i: int| em(reg, s, i, BlockFace::Top) + em(reg, s, i, BlockFace::Bottom);
    let fz = |i: int| em(reg, s, i, BlockFace::Back) + em(reg, s, i, BlockFace::Front);
    let fxy = |i: int| fx(i) + fy(i);
    lemma_sum_add(fx, fy, fxy, 32768);
    lemma_sum_add(fxy, fz, |i: int| faces_at(reg, s, i), 32768);
    lemma_axis_x(reg, s);
    lemma_axis_y(reg, s);
    lemma_axis_z(reg, s);
}

} // verus!
