use mclone::block::ChunkBlock;
use mclone::codec::FaceSlots;
use mclone::face::{BlockFace, Vec3i};
use mclone::grid::UVec3;
use mclone::registry::{default_blocks, BlockRegistry, Vec2u};

fn registry() -> BlockRegistry {
    BlockRegistry::new(default_blocks())
}

fn block(id: u32, dir: BlockFace) -> ChunkBlock {
    ChunkBlock { id, slots: FaceSlots::empty(), dir, data: None }
}

fn positions(q: &mclone::block::Quad) -> [Vec3i; 4] {
    [q.v0.position, q.v1.position, q.v2.position, q.v3.position]
}

#[test]
fn top_face_quad_of_a_cobblestone() {
    let reg = registry();
    let b = block(1, BlockFace::Front);
    let q = b.gen_face(&reg, UVec3 { x: 0, y: 0, z: 0 }, BlockFace::Top);
    // Even-ordinal faces are wound in reverse; all corners lie on y = 1.
    assert_eq!(
        positions(&q),
        [
            Vec3i { x: 1, y: 1, z: 0 },
            Vec3i { x: 0, y: 1, z: 0 },
            Vec3i { x: 0, y: 1, z: 1 },
            Vec3i { x: 1, y: 1, z: 1 },
        ],
    );
    // Cobblestone is same-sided: atlas region at (624, 272), 16 texels.
    assert_eq!(q.v3.tex, Vec2u { x: 624, y: 272 });
    assert_eq!(q.v0.tex, Vec2u { x: 624, y: 272 + 16 });
}

#[test]
fn quad_normal_points_outward_for_every_face_and_orientation() {
    let reg = registry();
    for dir in BlockFace::iter() {
        for face in BlockFace::iter() {
            let b = block(4, dir);
            let q = b.gen_face(&reg, UVec3 { x: 7, y: 8, z: 9 }, face);
            let e1 = (
                q.v1.position.x - q.v0.position.x,
                q.v1.position.y - q.v0.position.y,
                q.v1.position.z - q.v0.position.z,
            );
            let e2 = (
                q.v2.position.x - q.v0.position.x,
                q.v2.position.y - q.v0.position.y,
                q.v2.position.z - q.v0.position.z,
            );
            let n = Vec3i {
                x: e1.1 * e2.2 - e1.2 * e2.1,
                y: e1.2 * e2.0 - e1.0 * e2.2,
                z: e1.0 * e2.1 - e1.1 * e2.0,
            };
            assert_eq!(n, face.voffset());
            // Backing off half a unit from the quad's center recovers the
            // owning cell.
            let s = (
                q.v0.position.x + q.v1.position.x + q.v2.position.x + q.v3.position.x,
                q.v0.position.y + q.v1.position.y + q.v2.position.y + q.v3.position.y,
                q.v0.position.z + q.v1.position.z + q.v2.position.z + q.v3.position.z,
            );
            assert_eq!((s.0 - 2 * n.x) / 4, 7);
            assert_eq!((s.1 - 2 * n.y) / 4, 8);
            assert_eq!((s.2 - 2 * n.z) / 4, 9);
        }
    }
}

fn uses_region(q: &mclone::block::Quad, x: u32, y: u32) -> bool {
    // The (0, 0) texture corner of the chosen region appears on exactly
    // one of the four vertices.
    [q.v0.tex, q.v1.tex, q.v2.tex, q.v3.tex].contains(&Vec2u { x, y })
}

#[test]
fn directional_blocks_pick_textures_through_orientation() {
    let reg = registry();
    // An observer block: its front texture is at (800, 368).
    let q = block(5, BlockFace::Front).gen_face(
        &reg,
        UVec3 { x: 0, y: 0, z: 0 },
        BlockFace::Front,
    );
    assert!(uses_region(&q, 800, 368));
    // Rotated to face Right, the world Right face shows the front.
    let q = block(5, BlockFace::Right).gen_face(
        &reg,
        UVec3 { x: 0, y: 0, z: 0 },
        BlockFace::Right,
    );
    assert!(uses_region(&q, 800, 368));
    // Its back texture is at (768, 368) and shows on the world Left face.
    let q = block(5, BlockFace::Right).gen_face(&reg, UVec3 { x: 0, y: 0, z: 0 }, BlockFace::Left);
    assert!(uses_region(&q, 768, 368));
}

#[test]
fn registry_catalog() {
    let blocks = default_blocks();
    assert_eq!(blocks.len(), 6);
    assert_eq!(blocks[0].name, "air");
    assert!(blocks[0].is_transparent());
    assert_eq!(blocks[1].name, "cobblestone");
    assert_eq!(blocks[2].name, "dirt");
    assert_eq!(blocks[3].name, "grass");
    assert_eq!(blocks[4].name, "furnace");
    assert_eq!(blocks[5].name, "observer");
    for b in &blocks[1..] {
        assert!(!b.is_transparent());
    }
}
