use mclone::block::ChunkBlock;
use mclone::chunk::Chunk;
use mclone::codec::FaceSlots;
use mclone::face::{BlockFace, Vec3i};
use mclone::grid::{block_pos_to_idx, UVec3};
use mclone::ray::{FVec3, World, FX_ONE};
use mclone::registry::{default_blocks, BlockRegistry};

fn world_with_single_block() -> World {
    let registry = BlockRegistry::new(default_blocks());
    let mut blocks = Vec::new();
    for _ in 0..32768usize {
        blocks.push(ChunkBlock {
            id: 0,
            slots: FaceSlots::empty(),
            dir: BlockFace::Front,
            data: None,
        });
    }
    let target = block_pos_to_idx(UVec3 { x: 5, y: 5, z: 5 });
    blocks[target].id = 1;
    let chunk = Chunk {
        pos: Vec3i { x: 0, y: 0, z: 0 },
        blocks,
        vertices: Vec::new(),
        vertex_buffer: None,
        index_buffer: None,
    };
    World { registry, loaded_chunks: vec![chunk] }
}

#[test]
fn raycast_straight_down_hits_the_top_face() {
    let w = world_with_single_block();
    let origin = FVec3 { x: 5 * FX_ONE + FX_ONE / 2, y: 10 * FX_ONE, z: 5 * FX_ONE + FX_ONE / 2 };
    let direction = FVec3 { x: 0, y: -FX_ONE, z: 0 };
    let hit = w.raycast(origin, direction, 10 * FX_ONE);
    let target = block_pos_to_idx(UVec3 { x: 5, y: 5, z: 5 });
    assert_eq!(hit, Some((0, target, BlockFace::Top)));
}

#[test]
fn raycast_misses_past_max_distance() {
    let w = world_with_single_block();
    let origin = FVec3 { x: 5 * FX_ONE + FX_ONE / 2, y: 10 * FX_ONE, z: 5 * FX_ONE + FX_ONE / 2 };
    let direction = FVec3 { x: 0, y: -FX_ONE, z: 0 };
    assert_eq!(w.raycast(origin, direction, 2 * FX_ONE), None);
}

#[test]
fn raycast_sideways_reports_the_entered_face() {
    let w = world_with_single_block();
    // Approach the block along +x: the ray enters through its Left face.
    let origin = FVec3 { x: 0, y: 5 * FX_ONE + FX_ONE / 2, z: 5 * FX_ONE + FX_ONE / 2 };
    let direction = FVec3 { x: FX_ONE, y: 0, z: 0 };
    let hit = w.raycast(origin, direction, 10 * FX_ONE);
    let target = block_pos_to_idx(UVec3 { x: 5, y: 5, z: 5 });
    assert_eq!(hit, Some((0, target, BlockFace::Left)));
}

#[test]
fn raycast_skips_unloaded_regions() {
    let w = world_with_single_block();
    // Start outside the only loaded chunk; stepping through the unloaded
    // region is not an error, and the ray still finds the block.
    let origin = FVec3 { x: -2 * FX_ONE, y: 5 * FX_ONE + FX_ONE / 2, z: 5 * FX_ONE + FX_ONE / 2 };
    let direction = FVec3 { x: FX_ONE, y: 0, z: 0 };
    let hit = w.raycast(origin, direction, 16 * FX_ONE);
    let target = block_pos_to_idx(UVec3 { x: 5, y: 5, z: 5 });
    assert_eq!(hit, Some((0, target, BlockFace::Left)));
}

#[test]
fn world_new_loads_one_generated_chunk() {
    let w = World::new(default_blocks());
    assert_eq!(w.loaded_chunks.len(), 1);
    assert_eq!(w.loaded_chunks[0].pos, Vec3i { x: 0, y: -1, z: 0 });
    assert_eq!(w.registry.blocks.len(), 6);
}
