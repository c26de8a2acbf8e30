use mclone::chunk::Chunk;
use mclone::grid::{block_idx_to_pos, block_pos_to_idx, UVec3, CHUNK_SIDE, CHUNK_VOLUME};

#[test]
fn addressing_is_a_bijection() {
    assert_eq!(CHUNK_SIDE, 32);
    assert_eq!(CHUNK_VOLUME, 32768);
    for idx in 0..32768usize {
        let p = block_idx_to_pos(idx);
        assert!(p.x < 32 && p.y < 32 && p.z < 32);
        assert_eq!(block_pos_to_idx(p), idx);
    }
    for x in 0..32u32 {
        for y in 0..32u32 {
            for z in 0..32u32 {
                let idx = block_pos_to_idx(UVec3 { x, y, z });
                assert_eq!(block_idx_to_pos(idx), UVec3 { x, y, z });
            }
        }
    }
}

#[test]
fn addressing_samples() {
    assert_eq!(block_pos_to_idx(UVec3 { x: 0, y: 0, z: 0 }), 0);
    assert_eq!(block_pos_to_idx(UVec3 { x: 5, y: 5, z: 5 }), 5 + 32 * 5 + 1024 * 5);
    assert_eq!(block_pos_to_idx(UVec3 { x: 31, y: 31, z: 31 }), 32767);
    let p = block_idx_to_pos(16 + 32 * 20 + 1024 * 16);
    assert_eq!(p, UVec3 { x: 16, y: 20, z: 16 });
}

#[test]
fn chunk_addressing_matches_the_grid_helpers() {
    for idx in [0usize, 1, 31, 32, 1023, 1024, 5285, 32767] {
        let p = Chunk::block_idx_to_pos(idx);
        assert_eq!(p, block_idx_to_pos(idx));
        assert_eq!(Chunk::block_pos_to_idx(p), idx);
    }
}
