use mclone::block::ChunkBlock;
use mclone::chunk::Chunk;
use mclone::codec::FaceSlots;
use mclone::face::{BlockFace, Vec3i};
use mclone::grid::{block_pos_to_idx, UVec3};
use mclone::registry::{default_blocks, BlockRegistry};
use rand::seq::SliceRandom;

fn make_chunk<F: Fn(u32, u32, u32) -> u32>(id_of: F) -> Chunk {
    let mut blocks = Vec::new();
    for i in 0..32768usize {
        let x = (i & 31) as u32;
        let y = ((i >> 5) & 31) as u32;
        let z = (i >> 10) as u32;
        blocks.push(ChunkBlock {
            id: id_of(x, y, z),
            slots: FaceSlots::empty(),
            dir: BlockFace::Front,
            data: None,
        });
    }
    Chunk {
        pos: Vec3i { x: 0, y: 0, z: 0 },
        blocks,
        vertices: Vec::new(),
        vertex_buffer: None,
        index_buffer: None,
    }
}

fn registry() -> BlockRegistry {
    BlockRegistry::new(default_blocks())
}

fn emitted_faces(c: &Chunk) -> Vec<(usize, u8)> {
    let mut out = Vec::new();
    for i in 0..32768usize {
        for f in BlockFace::iter() {
            if c.blocks[i].face(f).is_some() {
                out.push((i, f.as_ordinal()));
            }
        }
    }
    out
}

/// Every recorded slot lies inside the quad list and no two faces share
/// a slot.
fn assert_slots_consistent(c: &Chunk) {
    let mut seen = vec![false; c.vertices.len()];
    for i in 0..32768usize {
        for f in BlockFace::iter() {
            if let Some(k) = c.blocks[i].face(f) {
                assert!(k < c.vertices.len(), "slot out of range");
                assert!(!seen[k], "two faces claim slot {}", k);
                seen[k] = true;
            }
        }
    }
    // Dense: every live slot is claimed by exactly one face.
    assert!(seen.iter().all(|&b| b));
}

#[test]
fn culling_half_air_half_solid() {
    // Air below y = 16, one opaque block type above: the mesh is exactly
    // the exposed bottom layer plus the exterior shell of the solid half.
    let reg = registry();
    let mut c = make_chunk(|_, y, _| if y >= 16 { 1 } else { 0 });
    c.gen_mesh(&reg);
    // 1024 bottom faces at y = 16, 1024 top faces at y = 31, and
    // 4 sides x 16 rows x 32 columns.
    assert_eq!(c.vertices.len(), 1024 + 1024 + 4 * 16 * 32);
    assert_slots_consistent(&c);

    let idx = |x, y, z| block_pos_to_idx(UVec3 { x, y, z });
    // An interior block between two stacked opaque blocks shows nothing.
    for f in BlockFace::iter() {
        assert_eq!(c.blocks[idx(5, 20, 5)].face(f), None);
    }
    // The boundary layer is exposed only from below.
    assert!(c.blocks[idx(5, 16, 5)].face(BlockFace::Bottom).is_some());
    assert_eq!(c.blocks[idx(5, 16, 5)].face(BlockFace::Top), None);
    assert_eq!(c.blocks[idx(5, 17, 5)].face(BlockFace::Bottom), None);
    // The top layer is exposed from above, the walls sideways.
    assert!(c.blocks[idx(5, 31, 5)].face(BlockFace::Top).is_some());
    assert!(c.blocks[idx(0, 20, 5)].face(BlockFace::Left).is_some());
    assert_eq!(c.blocks[idx(0, 20, 5)].face(BlockFace::Right), None);
    // Air blocks show nothing.
    assert_eq!(c.blocks[idx(5, 10, 5)].face(BlockFace::Top), None);
}

#[test]
fn edits_keep_slots_consistent_with_regeneration() {
    let reg = registry();
    let mut c = make_chunk(|_, y, _| if y < 8 { 2 } else { 0 });
    c.gen_mesh(&reg);

    let idx = |x, y, z| block_pos_to_idx(UVec3 { x, y, z });
    // Place solid on air, remove solid to air, replace solid with a
    // different solid.
    c.place_block(&reg, idx(4, 8, 4), 1, BlockFace::Front);
    c.place_block(&reg, idx(4, 9, 4), 3, BlockFace::Back);
    c.place_block(&reg, idx(10, 3, 10), 0, BlockFace::Front);
    c.place_block(&reg, idx(4, 8, 4), 4, BlockFace::Right);
    c.place_block(&reg, idx(4, 8, 4), 0, BlockFace::Front);
    assert_slots_consistent(&c);

    // Re-derive the mesh from scratch on the same grid and compare which
    // (position, direction) pairs are emitted, and their quad contents.
    let mut fresh = make_chunk(|_, _, _| 0);
    for i in 0..32768usize {
        fresh.blocks[i].id = c.blocks[i].id;
        fresh.blocks[i].dir = c.blocks[i].dir;
    }
    fresh.gen_mesh(&reg);
    assert_eq!(emitted_faces(&c), emitted_faces(&fresh));
    for i in 0..32768usize {
        for f in BlockFace::iter() {
            match (c.blocks[i].face(f), fresh.blocks[i].face(f)) {
                (Some(k1), Some(k2)) => assert_eq!(c.vertices[k1], fresh.vertices[k2]),
                (None, None) => {},
                _ => panic!("emission sets differ"),
            }
        }
    }
}

#[test]
fn swap_remove_relocates_exactly_one_slot() {
    let reg = registry();
    let mut c = make_chunk(|_, _, _| 0);
    c.gen_mesh(&reg);

    // Scatter isolated solid blocks, then remove them in a random order;
    // the bookkeeping must stay dense and unique throughout.
    let mut cells: Vec<(u32, u32, u32)> = Vec::new();
    for k in 0..24u32 {
        cells.push((2 + (k % 6) * 5, 2 + ((k / 6) % 6) * 5, 2 + (k / 18) * 7));
    }
    for &(x, y, z) in &cells {
        c.place_block(&reg, block_pos_to_idx(UVec3 { x, y, z }), 1, BlockFace::Front);
        assert_slots_consistent(&c);
    }
    assert_eq!(c.vertices.len(), 24 * 6);
    cells.shuffle(&mut rand::thread_rng());
    for &(x, y, z) in &cells {
        c.place_block(&reg, block_pos_to_idx(UVec3 { x, y, z }), 0, BlockFace::Front);
        assert_slots_consistent(&c);
    }
    assert_eq!(c.vertices.len(), 0);
}

#[test]
fn remove_face_retags_the_moved_quad() {
    let reg = registry();
    let mut c = make_chunk(|_, _, _| 0);
    c.gen_mesh(&reg);
    let a = block_pos_to_idx(UVec3 { x: 3, y: 3, z: 3 });
    let b = block_pos_to_idx(UVec3 { x: 9, y: 9, z: 9 });
    c.place_block(&reg, a, 1, BlockFace::Front);
    c.place_block(&reg, b, 2, BlockFace::Front);
    assert_eq!(c.vertices.len(), 12);
    // Removing a non-last face forces the last quad into its slot, and
    // the quad's owner must be re-tagged to point there.
    let first_face = BlockFace::iter()
        .into_iter()
        .find(|&f| c.blocks[a].face(f) == Some(0))
        .expect("block a owns slot 0");
    let last_owner = c.blocks[b]
        .face(BlockFace::iter().into_iter().find(|&f| c.blocks[b].face(f) == Some(11)).unwrap());
    assert_eq!(last_owner, Some(11));
    let moved_quad = c.vertices[11];
    c.remove_face(&reg, a, first_face);
    assert_eq!(c.vertices.len(), 11);
    assert_eq!(c.blocks[a].face(first_face), None);
    assert_eq!(c.vertices[0], moved_quad);
    assert_slots_consistent(&c);
}

#[test]
fn growth_policy_reallocates_at_five_fourths() {
    let reg = registry();
    let mut c = make_chunk(|_, _, _| 0);
    c.gen_mesh(&reg);
    assert_eq!(c.vertices.len(), 0);
    assert_eq!(c.vertex_buffer.as_ref().unwrap().len(), 1024);
    assert_eq!(c.index_buffer.as_ref().unwrap().len(), 6 * 1024);

    // Isolated blocks add six faces each: fill to 1020 quads; the next
    // placement would need 1026 and must trigger exactly one
    // reallocation to 1020 * 5 / 4 faces.
    let mut n = 0u32;
    'outer: for z in (1..31).step_by(2) {
        for y in (1..31).step_by(2) {
            for x in (1..31).step_by(2) {
                c.place_block(&reg, block_pos_to_idx(UVec3 { x, y, z }), 1, BlockFace::Front);
                n += 1;
                if n == 170 {
                    break 'outer;
                }
            }
        }
    }
    assert_eq!(c.vertices.len(), 1020);
    assert_eq!(c.vertex_buffer.as_ref().unwrap().len(), 1024);

    let before: Vec<_> = c.vertices.clone();
    c.place_block(&reg, block_pos_to_idx(UVec3 { x: 1, y: 1, z: 31 }), 1, BlockFace::Front);
    assert_eq!(c.vertices.len(), 1026);
    assert_eq!(c.vertex_buffer.as_ref().unwrap().len(), 1020 * 5 / 4);
    assert!(1020 * 5 / 4 >= 1024);
    assert_eq!(c.index_buffer.as_ref().unwrap().len(), 6 * (1020 * 5 / 4));
    // Previously recorded slots still resolve to identical vertex content.
    for (k, q) in before.iter().enumerate() {
        assert_eq!(&c.vertices[k], q);
        assert_eq!(&c.vertex_buffer.as_ref().unwrap()[k], q);
    }
    // The index buffer holds the canonical pattern.
    let ib = c.index_buffer.as_ref().unwrap();
    for f in 0..(1020 * 5 / 4) as u32 {
        let base = (6 * f) as usize;
        assert_eq!(
            &ib[base..base + 6],
            &[4 * f, 4 * f + 1, 4 * f + 2, 4 * f + 2, 4 * f + 3, 4 * f],
        );
    }
}

#[test]
fn generate_fills_the_height_bands() {
    let c = Chunk::generate(Vec3i { x: 0, y: -1, z: 0 });
    assert_eq!(c.pos, Vec3i { x: 0, y: -1, z: 0 });
    assert_eq!(c.blocks.len(), 32768);
    assert!(c.vertex_buffer.is_none());
    let idx = |x, y, z| block_pos_to_idx(UVec3 { x, y, z });
    assert_eq!(c.blocks[idx(0, 0, 0)].id, 1);
    assert_eq!(c.blocks[idx(3, 9, 3)].id, 1);
    assert_eq!(c.blocks[idx(3, 10, 3)].id, 2);
    assert_eq!(c.blocks[idx(3, 14, 3)].id, 2);
    assert_eq!(c.blocks[idx(3, 15, 3)].id, 3);
    assert_eq!(c.blocks[idx(3, 16, 3)].id, 0);
    // The showcase row of oriented blocks.
    assert_eq!(c.blocks[idx(16, 20, 16)].id, 4);
    assert_eq!(c.blocks[idx(16, 20, 16)].dir, BlockFace::Front);
    assert_eq!(c.blocks[idx(18, 20, 16)].dir, BlockFace::Back);
    assert_eq!(c.blocks[idx(20, 20, 16)].dir, BlockFace::Right);
    assert_eq!(c.blocks[idx(22, 20, 16)].dir, BlockFace::Left);
    assert_eq!(c.blocks[idx(24, 20, 16)].dir, BlockFace::Top);
    assert_eq!(c.blocks[idx(26, 20, 16)].dir, BlockFace::Bottom);
    // Ordinary blocks draw a horizontal orientation.
    for i in 0..32768usize {
        assert!(c.blocks[i].dir.as_ordinal() < 4 || c.blocks[i].id == 4);
        assert!(c.blocks[i].face(BlockFace::Top).is_none());
    }
}
