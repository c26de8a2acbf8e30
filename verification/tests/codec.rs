use mclone::codec::{FaceSlots, FACE_ABSENT};
use mclone::face::BlockFace;

fn all_faces() -> Vec<BlockFace> {
    BlockFace::iter()
}

#[test]
fn codec_round_trip_samples() {
    for d in all_faces() {
        for v in [0usize, 1, 2, 0xff, 0xffff, 0x10000, 0x1fffd, 0x1fffe] {
            let mut s = FaceSlots::empty();
            s.set(d, Some(v));
            assert_eq!(s.get(d), Some(v));
        }
    }
}

#[test]
fn codec_other_directions_unaffected() {
    // Give every direction a distinct value, then rewrite one direction
    // and check the other five still decode their own values.
    for d in all_faces() {
        let mut s = FaceSlots::empty();
        for (k, g) in all_faces().into_iter().enumerate() {
            s.set(g, Some(0x10000 + k));
        }
        s.set(d, Some(7));
        for (k, g) in all_faces().into_iter().enumerate() {
            if g == d {
                assert_eq!(s.get(g), Some(7));
            } else {
                assert_eq!(s.get(g), Some(0x10000 + k));
            }
        }
    }
}

#[test]
fn codec_sentinel() {
    for d in all_faces() {
        let mut s = FaceSlots::empty();
        s.set(d, Some(12345));
        s.set(d, None);
        assert_eq!(s.get(d), None);
    }
}

#[test]
fn codec_empty_is_all_absent() {
    let s = FaceSlots::empty();
    for d in all_faces() {
        assert_eq!(s.get(d), None);
    }
    assert_eq!(FACE_ABSENT, 0x1ffff);
}

#[test]
fn codec_high_bit_is_kept() {
    // Values above 2^16 - 1 exercise the packed 17th bit.
    let mut s = FaceSlots::empty();
    s.set(BlockFace::Top, Some(0x1fffe));
    s.set(BlockFace::Bottom, Some(0xffff));
    assert_eq!(s.get(BlockFace::Top), Some(0x1fffe));
    assert_eq!(s.get(BlockFace::Bottom), Some(0xffff));
}
