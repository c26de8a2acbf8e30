use mclone::face::{BlockFace, Vec3i};

#[test]
fn flip_is_an_involution_without_fixed_points() {
    for f in BlockFace::iter() {
        assert_eq!(f.flip().flip(), f);
        assert_ne!(f.flip(), f);
        assert_eq!(f.flip().as_ordinal(), f.as_ordinal() ^ 1);
    }
}

#[test]
fn flip_pairs() {
    assert_eq!(BlockFace::Front.flip(), BlockFace::Back);
    assert_eq!(BlockFace::Back.flip(), BlockFace::Front);
    assert_eq!(BlockFace::Top.flip(), BlockFace::Bottom);
    assert_eq!(BlockFace::Bottom.flip(), BlockFace::Top);
    assert_eq!(BlockFace::Right.flip(), BlockFace::Left);
    assert_eq!(BlockFace::Left.flip(), BlockFace::Right);
}

#[test]
fn ioffset_values() {
    assert_eq!(BlockFace::Right.ioffset(), 1);
    assert_eq!(BlockFace::Left.ioffset(), -1);
    assert_eq!(BlockFace::Top.ioffset(), 32);
    assert_eq!(BlockFace::Bottom.ioffset(), -32);
    assert_eq!(BlockFace::Back.ioffset(), 1024);
    assert_eq!(BlockFace::Front.ioffset(), -1024);
}

#[test]
fn is_edge_detects_boundaries() {
    // Flat index of (x, y, z) is x + 32 y + 1024 z.
    let idx = |x: usize, y: usize, z: usize| x + 32 * y + 1024 * z;
    assert!(BlockFace::Left.is_edge(idx(0, 5, 5)));
    assert!(!BlockFace::Left.is_edge(idx(1, 5, 5)));
    assert!(BlockFace::Right.is_edge(idx(31, 5, 5)));
    assert!(!BlockFace::Right.is_edge(idx(30, 5, 5)));
    assert!(BlockFace::Bottom.is_edge(idx(5, 0, 5)));
    assert!(BlockFace::Top.is_edge(idx(5, 31, 5)));
    assert!(BlockFace::Front.is_edge(idx(5, 5, 0)));
    assert!(BlockFace::Back.is_edge(idx(5, 5, 31)));
    assert!(!BlockFace::Back.is_edge(idx(5, 5, 30)));
}

#[test]
fn try_from_dir_inverts_voffset() {
    for f in BlockFace::iter() {
        assert_eq!(BlockFace::try_from_dir(f.voffset()), Some(f));
    }
    assert_eq!(BlockFace::try_from_dir(Vec3i { x: 0, y: 0, z: 0 }), None);
    assert_eq!(BlockFace::try_from_dir(Vec3i { x: 1, y: 1, z: 0 }), None);
}

use BlockFace::{Back, Bottom, Front, Left, Right, Top};

#[test]
fn on_remaps_faces_through_orientation() {
    // A block facing Front keeps world faces as they are.
    for f in BlockFace::iter() {
        assert_eq!(f.on(Front), f);
    }
    // A block facing Back flips the horizontal pair, not the vertical.
    assert_eq!(Front.on(Back), Back);
    assert_eq!(Back.on(Back), Front);
    assert_eq!(Right.on(Back), Left);
    assert_eq!(Left.on(Back), Right);
    assert_eq!(Top.on(Back), Top);
    assert_eq!(Bottom.on(Back), Bottom);
    // Lateral orientations rotate the horizontal faces.
    assert_eq!(Front.on(Right), Left);
    assert_eq!(Back.on(Right), Right);
    assert_eq!(Left.on(Right), Back);
    assert_eq!(Right.on(Right), Front);
    assert_eq!(Top.on(Right), Top);
    assert_eq!(Front.on(Left), Right);
    assert_eq!(Back.on(Left), Left);
    assert_eq!(Right.on(Left), Back);
    assert_eq!(Left.on(Left), Front);
}
