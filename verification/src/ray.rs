//! The world: the block catalog, the loaded chunks, and the voxel
//! raycaster used for block picking.
//!
//! Positions and directions are fixed-point numbers with 16 fractional
//! bits, so the grid traversal is exact and deterministic: `ray_walk`
//! states the whole walk as a spec-level step relation, and `raycast`
//! returns exactly its value. A renderer converts its floating-point
//! camera data at the boundary.

use vstd::prelude::*;

use crate::chunk::Chunk;
use crate::face::{BlockFace, Vec3i};
use crate::grid::{block_pos_to_idx, pos_to_index_spec, UVec3};
use crate::registry::{BlockData, BlockRegistry};

verus! {

/// One whole unit in the 16-bit fixed-point scale.
pub const FX_ONE: i64 = 65536;

/// The sentinel distance of an axis the ray does not move along: farther
/// than any real boundary.
pub const RAY_FAR: i64 = 0x7000_0000_0000_0000;

/// A fixed-point position or direction vector.
#[derive(Debug, Clone, Copy, PartialEq, Eq, Structural)]
pub struct FVec3 {
    pub x: i64,
    pub y: i64,
    pub z: i64,
}

/// The grid cell a fixed-point coordinate lies in (floor division).
pub open spec fn fx_cell(pos: int) -> int {
    pos / 65536
}

/// The biased fixed-point distance to the next whole-cell boundary along
/// one moving axis (`dir != 0`): the boundary gap scaled against the
/// motion, plus one least unit to guarantee forward progress across
/// exactly-aligned starts.
pub open spec fn dist_val(pos: int, dir: int) -> int {
    if dir > 0 {
        (65536 * (pos / 65536) + 65536 - pos) * 65536 / dir + 1
    } else {
        (if pos % 65536 == 0 {
            65536int
        } else {
            pos % 65536
        }) * 65536 / (-dir) + 1
    }
}

/// The step distance an axis offers: its boundary distance, or the far
/// sentinel when the axis is not moving.
pub open spec fn axis_dist(pos: int, dir: int) -> int {
    if dir == 0 {
        RAY_FAR as int
    } else {
        dist_val(pos, dir)
    }
}

/// The scaled position advance along one axis for a parameter advance
/// `d`.
pub open spec fn advance_by(dir: int, d: int) -> int {
    if dir >= 0 {
        dir * d / 65536
    } else {
        -((-dir) * d / 65536)
    }
}

/// The face through which the stepped-into cell is entered: the axis with
/// the strictly smallest boundary distance steps (x before y before z on
/// ties), and the face is the one opposite the direction of travel.
pub open spec fn step_face(dxv: int, dyv: int, dzv: int, dir: FVec3) -> BlockFace {
    if dxv < dyv && dxv < dzv {
        if dir.x > 0 {
            BlockFace::Left
        } else {
            BlockFace::Right
        }
    } else if dyv < dzv {
        if dir.y > 0 {
            BlockFace::Bottom
        } else {
            BlockFace::Top
        }
    } else {
        if dir.z > 0 {
            BlockFace::Front
        } else {
            BlockFace::Back
        }
    }
}

/// The first loaded chunk at `cpos`, scanning from index `i` on.
pub open spec fn chunk_at(chunks: Seq<Chunk>, cpos: Vec3i, i: int) -> Option<int>
    decreases chunks.len() - i,
{
    if i < 0 || i >= chunks.len() {
        None
    } else if chunks[i].pos == cpos {
        Some(i)
    } else {
        chunk_at(chunks, cpos, i + 1)
    }
}

/// The deterministic grid walk `raycast` performs, one boundary crossing
/// per unit of fuel. From cell `(cx, cy, cz)` at position `pos`, the ray
/// crosses into the neighboring cell along the axis with the smallest
/// boundary distance; the walk stops with `None` once the new position is
/// farther than `max_distance` from `origin` (or the fuel is spent), and
/// stops with a hit at the first entered cell that lies in a loaded chunk
/// and holds a non-air block, reporting the entered face. Cells of
/// unloaded chunks are stepped through without a hit test.
pub open spec fn ray_walk(
    chunks: Seq<Chunk>,
    origin: FVec3,
    dir: FVec3,
    max_distance: int,
    pos: FVec3,
    cx: int,
    cy: int,
    cz: int,
    fuel: nat,
) -> Option<(int, int, BlockFace)>
    decreases fuel,
{
    if fuel == 0 {
        None
    } else {
        let dxv = axis_dist(pos.x as int, dir.x as int);
        let dyv = axis_dist(pos.y as int, dir.y as int);
        let dzv = axis_dist(pos.z as int, dir.z as int);
        let face = step_face(dxv, dyv, dzv, dir);
        let d = if dxv < dyv && dxv < dzv {
            dxv
        } else if dyv < dzv {
            dyv
        } else {
            dzv
        };
        let ncx = if dxv < dyv && dxv < dzv {
            if dir.x > 0 {
                cx + 1
            } else {
                cx - 1
            }
        } else {
            cx
        };
        let ncy = if !(dxv < dyv && dxv < dzv) && dyv < dzv {
            if dir.y > 0 {
                cy + 1
            } else {
                cy - 1
            }
        } else {
            cy
        };
        let ncz = if !(dxv < dyv && dxv < dzv) && !(dyv < dzv) {
            if dir.z > 0 {
                cz + 1
            } else {
                cz - 1
            }
        } else {
            cz
        };
        let np = FVec3 {
            x: (pos.x + advance_by(dir.x as int, d)) as i64,
            y: (pos.y + advance_by(dir.y as int, d)) as i64,
            z: (pos.z + advance_by(dir.z as int, d)) as i64,
        };
        if max_distance * max_distance < (np.x - origin.x) * (np.x - origin.x) + (np.y - origin.y)
            * (np.y - origin.y) + (np.z - origin.z) * (np.z - origin.z) {
            None
        } else {
            let hit = match chunk_at(
                chunks,
                Vec3i { x: (ncx / 32) as i32, y: (ncy / 32) as i32, z: (ncz / 32) as i32 },
                0,
            ) {
                Some(c) => {
                    let bi = pos_to_index_spec(ncx % 32, ncy % 32, ncz % 32);
                    if chunks[c].blocks@[bi].id != 0 {
                        Some((c, bi, face))
                    } else {
                        None
                    }
                },
                None => None,
            };
            if hit is Some {
                hit
            } else {
                ray_walk(chunks, origin, dir, max_distance, np, ncx, ncy, ncz, (fuel - 1) as nat)
            }
        }
    }
}

/// How many boundary crossings the walk allows before giving up: far more
/// than a ray of this length can take before its distance check trips.
pub open spec fn raycast_fuel(max_distance: int) -> nat {
    (64 + 8 * (max_distance / 65536)) as nat
}

/// One unfolding of `ray_walk` with positive fuel, phrased over the step
/// values an implementation computes.
proof fn lemma_walk_step(
    chunks: Seq<Chunk>,
    origin: FVec3,
    dir: FVec3,
    max_distance: int,
    pos: FVec3,
    cx: int,
    cy: int,
    cz: int,
    fuel: nat,
    dxv: int,
    dyv: int,
    dzv: int,
    d: int,
    face: BlockFace,
    np: FVec3,
    ncx: int,
    ncy: int,
    ncz: int,
)
    requires
        fuel > 0,
        dxv == axis_dist(pos.x as int, dir.x as int),
        dyv == axis_dist(pos.y as int, dir.y as int),
        dzv == axis_dist(pos.z as int, dir.z as int),
        d == (if dxv < dyv && dxv < dzv {
            dxv
        } else if dyv < dzv {
            dyv
        } else {
            dzv
        }),
        face == step_face(dxv, dyv, dzv, dir),
        ncx == (if dxv < dyv && dxv < dzv {
            if dir.x > 0 {
                cx + 1
            } else {
                cx - 1
            }
        } else {
            cx
        }),
        ncy == (if !(dxv < dyv && dxv < dzv) && dyv < dzv {
            if dir.y > 0 {
                cy + 1
            } else {
                cy - 1
            }
        } else {
            cy
        }),
        ncz == (if !(dxv < dyv && dxv < dzv) && !(dyv < dzv) {
            if dir.z > 0 {
                cz + 1
            } else {
                cz - 1
            }
        } else {
            cz
        }),
        np == (FVec3 {
            x: (pos.x + advance_by(dir.x as int, d)) as i64,
            y: (pos.y + advance_by(dir.y as int, d)) as i64,
            z: (pos.z + advance_by(dir.z as int, d)) as i64,
        }),
    ensures
        (max_distance * max_distance < (np.x - origin.x) * (np.x - origin.x) + (np.y - origin.y)
            * (np.y - origin.y) + (np.z - origin.z) * (np.z - origin.z)) ==> ray_walk(
            chunks,
            origin,
            dir,
            max_distance,
            pos,
            cx,
            cy,
            cz,
            fuel,
        ) is None,
        !(max_distance * max_distance < (np.x - origin.x) * (np.x - origin.x) + (np.y - origin.y)
            * (np.y - origin.y) + (np.z - origin.z) * (np.z - origin.z)) ==> ray_walk(
            chunks,
            origin,
            dir,
            max_distance,
            pos,
            cx,
            cy,
            cz,
            fuel,
        ) == (match chunk_at(
            chunks,
            Vec3i { x: (ncx / 32) as i32, y: (ncy / 32) as i32, z: (ncz / 32) as i32 },
            0,
        ) {
            Some(c) => {
                if chunks[c].blocks@[pos_to_index_spec(ncx % 32, ncy % 32, ncz % 32)].id != 0 {
                    Some((c, pos_to_index_spec(ncx % 32, ncy % 32, ncz % 32), face))
                } else {
                    ray_walk(
                        chunks,
                        origin,
                        dir,
                        max_distance,
                        np,
                        ncx,
                        ncy,
                        ncz,
                        (fuel - 1) as nat,
                    )
                }
            },
            None => ray_walk(
                chunks,
                origin,
                dir,
                max_distance,
                np,
                ncx,
                ncy,
                ncz,
                (fuel - 1) as nat,
            ),
        }),
{
}

/// The cell index of a fixed-point coordinate.
fn fx_cell_of(pos: i64) -> (c: i64)
    requires
        -0x4000_0000_0000 <= pos <= 0x4000_0000_0000,
    ensures
        c == fx_cell(pos as int),
        65536 * c <= pos < 65536 * c + 65536,
{
    proof {
        let ci = (pos as int) / 65536;
        let r = (pos as int) % 65536;
        vstd::arithmetic::div_mod::lemma_fundamental_div_mod(pos as int, 65536);
        vstd::arithmetic::div_mod::lemma_fundamental_div_mod_converse(
            pos + 0x8000_0000_0000,
            65536,
            ci + 0x8000_0000,
            r,
        );
    }
    let shifted = (pos + 0x8000_0000_0000i64) as u64;
    ((shifted / 65536) as i64) - 0x8000_0000i64
}

/// Floored division and remainder of a cell coordinate by the chunk
/// side.
fn floor_div_mod32(v: i64) -> (r: (i64, u64))
    requires
        -0x1000_0000 <= v <= 0x1000_0000,
    ensures
        r.0 == (v as int) / 32,
        r.1 == (v as int) % 32,
        r.1 < 32,
{
    proof {
        let q = (v as int) / 32;
        let m = (v as int) % 32;
        vstd::arithmetic::div_mod::lemma_fundamental_div_mod(v as int, 32);
        vstd::arithmetic::div_mod::lemma_fundamental_div_mod_converse(
            v + 0x1000_0000,
            32,
            q + 0x80_0000,
            m,
        );
    }
    let sh = (v + 0x1000_0000i64) as u64;
    ((sh / 32) as i64 - 0x80_0000, sh % 32)
}

/// The parametric distance (in fixed-point units, biased up by one least
/// unit to guarantee forward progress) to the next whole-cell boundary
/// along one axis, or `None` when the axis is not moving.
fn dist_to_whole(pos: i64, dir: i64) -> (r: Option<i64>)
    requires
        -0x4000_0000_0000 <= pos <= 0x4000_0000_0000,
        -131072 <= dir <= 131072,
    ensures
        r is Some <==> dir != 0,
        r matches Some(d) ==> 1 <= d <= 0x1_0000_0001 && d == dist_val(pos as int, dir as int),
{
    if dir == 0 {
        return None;
    }
    let cell = fx_cell_of(pos);
    let floor = cell * 65536;
    let (delta, dir_abs): (u64, u64) = if dir > 0 {
        (((floor + 65536) - pos) as u64, dir as u64)
    } else {
        // Distance back to the boundary one cell below (a whole cell when
        // already on a boundary), measured against the downward motion.
        let back = pos - floor;
        ((if back == 0 {
            65536u64
        } else {
            back as u64
        }), (-dir) as u64)
    };
    proof {
        vstd::arithmetic::div_mod::lemma_fundamental_div_mod(pos as int, 65536);
        assert(1 <= delta <= 65536);
        assert(1 <= dir_abs <= 131072);
        if dir > 0 {
            assert(delta == 65536 * ((pos as int) / 65536) + 65536 - pos);
        } else {
            assert(delta == (if (pos as int) % 65536 == 0 {
                65536int
            } else {
                (pos as int) % 65536
            }));
        }
        assert(delta * 65536 <= 65536 * 65536) by (nonlinear_arith)
            requires
                delta <= 65536,
        ;
        assert(delta * 65536 / (dir_abs as int) <= delta * 65536) by (nonlinear_arith)
            requires
                dir_abs >= 1 && delta >= 0,
        ;
    }
    Some(((delta * 65536 / dir_abs) as i64) + 1)
}

/// One fixed-point scaled product: `dir` (a rate) times `d` (a parameter
/// advance), shifted back into position units.
fn fx_advance(dir: i64, d: i64) -> (inc: i64)
    requires
        -131072 <= dir <= 131072,
        0 <= d <= 0x1_0000_0001,
    ensures
        -0x2_0000_0004 <= inc <= 0x2_0000_0004,
        inc == advance_by(dir as int, d as int),
{
    let a: u64 = if dir >= 0 {
        dir as u64
    } else {
        (-dir) as u64
    };
    let b: u64 = d as u64;
    proof {
        assert((a as int) * (b as int) <= 0x2_0000_0002_0000) by (nonlinear_arith)
            requires
                a <= 131072 && b <= 0x1_0000_0001,
        ;
        vstd::arithmetic::div_mod::lemma_div_is_ordered(
            (a as int) * (b as int),
            0x2_0000_0002_0000,
            65536,
        );
        vstd::arithmetic::div_mod::lemma_fundamental_div_mod_converse(
            0x2_0000_0002_0000,
            65536,
            0x2_0000_0002,
            0,
        );
    }
    let scaled = (a * b / 65536) as i64;
    if dir >= 0 {
        scaled
    } else {
        -scaled
    }
}

/// The world: the read-only block catalog and the loaded chunks.
pub struct World {
    pub registry: BlockRegistry,
    pub loaded_chunks: Vec<Chunk>,
}

impl World {
    /// Every loaded chunk satisfies the chunk invariant against the
    /// world's registry.
    pub open spec fn wf(&self) -> bool {
        &&& self.registry.wf()
        &&& forall|c: int|
            0 <= c < self.loaded_chunks@.len() ==> (#[trigger] self.loaded_chunks@[c]).wf(
                &self.registry,
            )
    }

    /// A world over catalog `blocks` with one procedurally generated
    /// chunk below the origin.
    pub fn new(blocks: Vec<BlockData>) -> (w: World)
        requires
            6 <= blocks@.len() <= u32::MAX,
            blocks@[0].is_transparent_spec(),
            forall|i: int| 1 <= i < 6 ==> !(#[trigger] blocks@[i]).is_transparent_spec(),
            forall|i: int| 0 <= i < blocks@.len() ==> (#[trigger] blocks@[i]).mesh_type.wf(),
        ensures
            w.wf(),
            w.registry.blocks == blocks,
            w.loaded_chunks@.len() == 1,
            !w.loaded_chunks@[0].built(),
            w.loaded_chunks@[0].pos == (Vec3i { x: 0, y: -1i32, z: 0 }),
            w.loaded_chunks@[0].blocks@.len() == 32768,
            forall|i: int|
                0 <= i < 32768 ==> (#[trigger] w.loaded_chunks@[0].blocks@[i]).id
                    == crate::chunk::gen_id_spec(i),
    {
        let registry = BlockRegistry::new(blocks);
        let chunk = Chunk::generate(Vec3i { x: 0, y: -1, z: 0 });
        proof {
            assert forall|i: int| 0 <= i < 32768 implies (#[trigger] chunk.blocks@[i]).id
                < registry.blocks@.len() && (chunk.blocks@[i].id != 0
                ==> !registry.transparent_spec(chunk.blocks@[i].id as int)) by {
                assert(chunk.blocks@[i].id == crate::chunk::gen_id_spec(i));
            }
        }
        let mut loaded_chunks: Vec<Chunk> = Vec::new();
        loaded_chunks.push(chunk);
        World { registry, loaded_chunks }
    }


    /// Step a ray from `origin` along `direction` (both fixed-point, the
    /// direction roughly unit length) through the voxel grid, at most
    /// `max_distance` far, to the first non-air block of a loaded chunk.
    /// Returns the chunk index, the block's flat index in it, and the
    /// face through which the block was entered — exactly the value of
    /// the `ray_walk` step relation, and in particular `None` exactly
    /// when the walk reaches no non-air block of a loaded chunk in range.
    pub fn raycast(&self, origin: FVec3, direction: FVec3, max_distance: i64) -> (r: Option<
        (usize, usize, BlockFace)>)
        requires
            self.wf(),
            -0x1_0000_0000 <= origin.x <= 0x1_0000_0000,
            -0x1_0000_0000 <= origin.y <= 0x1_0000_0000,
            -0x1_0000_0000 <= origin.z <= 0x1_0000_0000,
            -131072 <= direction.x <= 131072,
            -131072 <= direction.y <= 131072,
            -131072 <= direction.z <= 131072,
            direction.x != 0 || direction.y != 0 || direction.z != 0,
            0 <= max_distance <= 0x100_0000,
        ensures
            r matches Some((chunk_i, block_i, face)) ==> chunk_i < self.loaded_chunks@.len()
                && block_i < 32768 && self.loaded_chunks@[chunk_i as int].blocks@[block_i as int].id
                != 0,
            ({
                let walk = ray_walk(
                    self.loaded_chunks@,
                    origin,
                    direction,
                    max_distance as int,
                    origin,
                    fx_cell(origin.x as int),
                    fx_cell(origin.y as int),
                    fx_cell(origin.z as int),
                    raycast_fuel(max_distance as int),
                );
                &&& (r is Some <==> walk is Some)
                &&& (r matches Some((chunk_i, block_i, face)) ==> walk == Some(
                    (chunk_i as int, block_i as int, face),
                ))
            }),
    {
        let ghost walk0 = ray_walk(
            self.loaded_chunks@,
            origin,
            direction,
            max_distance as int,
            origin,
            fx_cell(origin.x as int),
            fx_cell(origin.y as int),
            fx_cell(origin.z as int),
            raycast_fuel(max_distance as int),
        );
        let mut pos = origin;
        let mut ix: i64 = fx_cell_of(origin.x);
        let mut iy: i64 = fx_cell_of(origin.y);
        let mut iz: i64 = fx_cell_of(origin.z);
        // More steps than any ray this long can take before its distance
        // check trips.
        proof {
            let m = max_distance as u64;
            assert(m <= 0x100_0000 ==> (m >> 16) <= 0x100 && (m >> 16) == m / 65536)
                by (bit_vector);
        }
        let fuel0: usize = 64 + 8 * (((max_distance as u64) >> 16) as usize);
        let mut fuel: usize = fuel0;
        proof {
            assert((fuel0 - fuel) * 0x2_0000_0004 == 0) by (nonlinear_arith)
                requires
                    fuel0 == fuel,
            ;
            assert(fuel0 as nat == raycast_fuel(max_distance as int));
        }
        loop
            invariant
                self.wf(),
                -0x1_0000_0000 <= origin.x <= 0x1_0000_0000,
                -0x1_0000_0000 <= origin.y <= 0x1_0000_0000,
                -0x1_0000_0000 <= origin.z <= 0x1_0000_0000,
                -131072 <= direction.x <= 131072,
                -131072 <= direction.y <= 131072,
                -131072 <= direction.z <= 131072,
                direction.x != 0 || direction.y != 0 || direction.z != 0,
                0 <= max_distance <= 0x100_0000,
                fuel <= fuel0 <= 2112,
                -0x1_0000_0000 - (fuel0 - fuel) * 0x2_0000_0004 <= pos.x <= 0x1_0000_0000 + (fuel0
                    - fuel) * 0x2_0000_0004,
                -0x1_0000_0000 - (fuel0 - fuel) * 0x2_0000_0004 <= pos.y <= 0x1_0000_0000 + (fuel0
                    - fuel) * 0x2_0000_0004,
                -0x1_0000_0000 - (fuel0 - fuel) * 0x2_0000_0004 <= pos.z <= 0x1_0000_0000 + (fuel0
                    - fuel) * 0x2_0000_0004,
                -0x20000 - (fuel0 - fuel) <= ix <= 0x20000 + (fuel0 - fuel),
                -0x20000 - (fuel0 - fuel) <= iy <= 0x20000 + (fuel0 - fuel),
                -0x20000 - (fuel0 - fuel) <= iz <= 0x20000 + (fuel0 - fuel),
                walk0 == ray_walk(
                    self.loaded_chunks@,
                    origin,
                    direction,
                    max_distance as int,
                    origin,
                    fx_cell(origin.x as int),
                    fx_cell(origin.y as int),
                    fx_cell(origin.z as int),
                    raycast_fuel(max_distance as int),
                ),
                ray_walk(
                    self.loaded_chunks@,
                    origin,
                    direction,
                    max_distance as int,
                    pos,
                    ix as int,
                    iy as int,
                    iz as int,
                    fuel as nat,
                ) == walk0,
            decreases fuel,
        {
            if fuel == 0 {
                proof {
                    assert(walk0 is None);
                }
                return None;
            }
            let ghost pos0 = pos;
            let ghost cx0 = ix as int;
            let ghost cy0 = iy as int;
            let ghost cz0 = iz as int;
            let ghost fuel_entry = fuel as nat;
            fuel = fuel - 1;
            proof {
                assert((fuel0 - fuel) * 0x2_0000_0004 <= 2112 * 0x2_0000_0004 && (fuel0 - fuel)
                    * 0x2_0000_0004 == (fuel0 - fuel - 1) * 0x2_0000_0004 + 0x2_0000_0004)
                    by (nonlinear_arith)
                    requires
                        1 <= fuel0 - fuel <= 2112,
                ;
            }

            let dx = dist_to_whole(pos.x, direction.x);
            let dy = dist_to_whole(pos.y, direction.y);
            let dz = dist_to_whole(pos.z, direction.z);

            let dxv = match dx {
                Some(d) => d,
                None => RAY_FAR,
            };
            let dyv = match dy {
                Some(d) => d,
                None => RAY_FAR,
            };
            let dzv = match dz {
                Some(d) => d,
                None => RAY_FAR,
            };
            proof {
                assert(dxv == axis_dist(pos0.x as int, direction.x as int));
                assert(dyv == axis_dist(pos0.y as int, direction.y as int));
                assert(dzv == axis_dist(pos0.z as int, direction.z as int));
            }

            let block_face: BlockFace;
            let d: i64;
            if dxv < dyv && dxv < dzv {
                d = dxv;
                if direction.x > 0 {
                    ix = ix + 1;
                    block_face = BlockFace::Left;
                } else {
                    ix = ix - 1;
                    block_face = BlockFace::Right;
                }
            } else if dyv < dzv {
                d = dyv;
                if direction.y > 0 {
                    iy = iy + 1;
                    block_face = BlockFace::Bottom;
                } else {
                    iy = iy - 1;
                    block_face = BlockFace::Top;
                }
            } else {
                d = dzv;
                if direction.z > 0 {
                    iz = iz + 1;
                    block_face = BlockFace::Front;
                } else {
                    iz = iz - 1;
                    block_face = BlockFace::Back;
                }
            }
            proof {
                assert(1 <= d <= 0x1_0000_0001);
                assert(block_face == step_face(dxv as int, dyv as int, dzv as int, direction));
            }
            pos = FVec3 {
                x: pos.x + fx_advance(direction.x, d),
                y: pos.y + fx_advance(direction.y, d),
                z: pos.z + fx_advance(direction.z, d),
            };
            proof {
                assert(pos == (FVec3 {
                    x: (pos0.x + advance_by(direction.x as int, d as int)) as i64,
                    y: (pos0.y + advance_by(direction.y as int, d as int)) as i64,
                    z: (pos0.z + advance_by(direction.z as int, d as int)) as i64,
                }));
                lemma_walk_step(
                    self.loaded_chunks@,
                    origin,
                    direction,
                    max_distance as int,
                    pos0,
                    cx0,
                    cy0,
                    cz0,
                    fuel_entry,
                    dxv as int,
                    dyv as int,
                    dzv as int,
                    d as int,
                    block_face,
                    pos,
                    ix as int,
                    iy as int,
                    iz as int,
                );
            }

            // Past the reach of the ray: no hit.
            let ddx = (pos.x - origin.x) as i128;
            let ddy = (pos.y - origin.y) as i128;
            let ddz = (pos.z - origin.z) as i128;
            let md = max_distance as i128;
            proof {
                assert(-0x4000_0000_0000 <= ddx <= 0x4000_0000_0000);
                assert(-0x4000_0000_0000 <= ddy <= 0x4000_0000_0000);
                assert(-0x4000_0000_0000 <= ddz <= 0x4000_0000_0000);
                assert(ddx * ddx <= 0x1000_0000_0000_0000_0000_0000 && ddx * ddx >= 0)
                    by (nonlinear_arith)
                    requires
                        -0x4000_0000_0000 <= ddx <= 0x4000_0000_0000,
                ;
                assert(ddy * ddy <= 0x1000_0000_0000_0000_0000_0000 && ddy * ddy >= 0)
                    by (nonlinear_arith)
                    requires
                        -0x4000_0000_0000 <= ddy <= 0x4000_0000_0000,
                ;
                assert(ddz * ddz <= 0x1000_0000_0000_0000_0000_0000 && ddz * ddz >= 0)
                    by (nonlinear_arith)
                    requires
                        -0x4000_0000_0000 <= ddz <= 0x4000_0000_0000,
                ;
                assert(md * md <= 0x1_0000_0000_0000) by (nonlinear_arith)
                    requires
                        0 <= md <= 0x100_0000,
                ;
            }
            if md * md < ddx * ddx + ddy * ddy + ddz * ddz {
                proof {
                    assert(walk0 is None);
                }
                return None;
            }

            // Resolve the chunk holding the integer position; unloaded
            // regions are skipped, not errors.
            let (qx, rx) = floor_div_mod32(ix);
            let (qy, ry) = floor_div_mod32(iy);
            let (qz, rz) = floor_div_mod32(iz);
            let chunk_pos = Vec3i { x: qx as i32, y: qy as i32, z: qz as i32 };
            let local = UVec3 { x: rx as u32, y: ry as u32, z: rz as u32 };
            let mut chunk_i: usize = 0;
            let mut found: bool = false;
            while chunk_i < self.loaded_chunks.len() && !found
                invariant
                    self.wf(),
                    chunk_i <= self.loaded_chunks@.len(),
                    found ==> chunk_i < self.loaded_chunks@.len()
                        && self.loaded_chunks@[chunk_i as int].pos == chunk_pos,
                    !found ==> chunk_at(self.loaded_chunks@, chunk_pos, chunk_i as int) == chunk_at(
                        self.loaded_chunks@,
                        chunk_pos,
                        0,
                    ),
                    found ==> chunk_at(self.loaded_chunks@, chunk_pos, 0) == Some(chunk_i as int),
                decreases self.loaded_chunks@.len() - chunk_i + (if found {
                    0int
                } else {
                    1int
                }),
            {
                if self.loaded_chunks[chunk_i].pos == chunk_pos {
                    found = true;
                } else {
                    chunk_i = chunk_i + 1;
                }
            }
            proof {
                if !found {
                    assert(chunk_at(self.loaded_chunks@, chunk_pos, 0) is None);
                }
            }
            if found {
                proof {
                    assert(self.loaded_chunks@[chunk_i as int].wf(&self.registry));
                }
                let block_i = block_pos_to_idx(local);
                let chunk = &self.loaded_chunks[chunk_i];
                if chunk.blocks[block_i].id != 0 {
                    proof {
                        assert(walk0 == Some((chunk_i as int, block_i as int, block_face)));
                    }
                    return Some((chunk_i, block_i, block_face));
                }
            }
        }
    }
}

} // verus!
