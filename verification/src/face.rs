//! The six axis-aligned face directions of a block, their ordinal
//! encoding, opposites, edge tests and per-direction index offsets.

use vstd::prelude::*;

verus! {

/// A direction-indexed integer vector (unit normals, offsets).
#[derive(Debug, Clone, Copy, PartialEq, Eq, Structural)]
pub struct Vec3i {
    pub x: i32,
    pub y: i32,
    pub z: i32,
}

/// One of the six axis-aligned directions a block face can point in.
///
/// The ordinal encoding pairs geometric opposites on adjacent values that
/// differ only in the low bit: `flip` toggles the low ordinal bit.
#[derive(Debug, Clone, Copy, PartialEq, Eq, Structural)]
pub enum BlockFace {
    Back,
    Front,
    Right,
    Left,
    Top,
    Bottom,
}

impl BlockFace {
    /// The 3-bit ordinal of this direction.
    pub open spec fn ordinal(self) -> u8 {
        match self {
            BlockFace::Back => 0,
            BlockFace::Front => 1,
            BlockFace::Right => 2,
            BlockFace::Left => 3,
            BlockFace::Top => 4,
            BlockFace::Bottom => 5,
        }
    }

    pub open spec fn from_ordinal_spec(v: int) -> BlockFace {
        if v == 0 {
            BlockFace::Back
        } else if v == 1 {
            BlockFace::Front
        } else if v == 2 {
            BlockFace::Right
        } else if v == 3 {
            BlockFace::Left
        } else if v == 4 {
            BlockFace::Top
        } else {
            BlockFace::Bottom
        }
    }

    pub fn as_ordinal(self) -> (v: u8)
        ensures
            v == self.ordinal(),
    {
        match self {
            BlockFace::Back => 0,
            BlockFace::Front => 1,
            BlockFace::Right => 2,
            BlockFace::Left => 3,
            BlockFace::Top => 4,
            BlockFace::Bottom => 5,
        }
    }

    pub fn from_ordinal(v: u8) -> (f: BlockFace)
        requires
            v < 6,
        ensures
            f == BlockFace::from_ordinal_spec(v as int),
            f.ordinal() == v,
    {
        match v {
            0 => BlockFace::Back,
            1 => BlockFace::Front,
            2 => BlockFace::Right,
            3 => BlockFace::Left,
            4 => BlockFace::Top,
            _ => BlockFace::Bottom,
        }
    }

    /// All six directions, in ordinal order.
    pub fn iter() -> (faces: Vec<BlockFace>)
        ensures
            faces@.len() == 6,
            forall|k: int| 0 <= k < 6 ==> faces@[k] == BlockFace::from_ordinal_spec(k),
            forall|k: int| 0 <= k < 6 ==> (#[trigger] faces@[k]).ordinal() == k,
    {
        let mut faces: Vec<BlockFace> = Vec::new();
        faces.push(BlockFace::Back);
        faces.push(BlockFace::Front);
        faces.push(BlockFace::Right);
        faces.push(BlockFace::Left);
        faces.push(BlockFace::Top);
        faces.push(BlockFace::Bottom);
        faces
    }

    /// The geometric opposite of this direction.
    pub open spec fn flip_spec(self) -> BlockFace {
        match self {
            BlockFace::Back => BlockFace::Front,
            BlockFace::Front => BlockFace::Back,
            BlockFace::Right => BlockFace::Left,
            BlockFace::Left => BlockFace::Right,
            BlockFace::Top => BlockFace::Bottom,
            BlockFace::Bottom => BlockFace::Top,
        }
    }

    pub fn flip(self) -> (r: BlockFace)
        ensures
            r == self.flip_spec(),
    {
        match self {
            BlockFace::Back => BlockFace::Front,
            BlockFace::Front => BlockFace::Back,
            BlockFace::Right => BlockFace::Left,
            BlockFace::Left => BlockFace::Right,
            BlockFace::Top => BlockFace::Bottom,
            BlockFace::Bottom => BlockFace::Top,
        }
    }

    /// The signed offset this direction applies to a flat block index
    /// within the 32x32x32 grid (x varies fastest, then y, then z).
    pub open spec fn ioffset_spec(self) -> int {
        match self {
            BlockFace::Right => 1,
            BlockFace::Left => -1,
            BlockFace::Top => 32,
            BlockFace::Bottom => -32,
            BlockFace::Front => -1024,
            BlockFace::Back => 1024,
        }
    }

    pub fn ioffset(self) -> (r: isize)
        ensures
            r == self.ioffset_spec(),
    {
        match self {
            BlockFace::Right => 1,
            BlockFace::Left => -1,
            BlockFace::Top => 32,
            BlockFace::Bottom => -32,
            BlockFace::Front => -1024,
            BlockFace::Back => 1024,
        }
    }

    /// The outward unit normal of this direction.
    pub open spec fn voffset_spec(self) -> Vec3i {
        match self {
            BlockFace::Right => Vec3i { x: 1, y: 0, z: 0 },
            BlockFace::Left => Vec3i { x: -1i32, y: 0, z: 0 },
            BlockFace::Top => Vec3i { x: 0, y: 1, z: 0 },
            BlockFace::Bottom => Vec3i { x: 0, y: -1i32, z: 0 },
            BlockFace::Front => Vec3i { x: 0, y: 0, z: -1i32 },
            BlockFace::Back => Vec3i { x: 0, y: 0, z: 1 },
        }
    }

    pub fn voffset(self) -> (v: Vec3i)
        ensures
            v == self.voffset_spec(),
    {
        match self {
            BlockFace::Right => Vec3i { x: 1, y: 0, z: 0 },
            BlockFace::Left => Vec3i { x: -1i32, y: 0, z: 0 },
            BlockFace::Top => Vec3i { x: 0, y: 1, z: 0 },
            BlockFace::Bottom => Vec3i { x: 0, y: -1i32, z: 0 },
            BlockFace::Front => Vec3i { x: 0, y: 0, z: -1i32 },
            BlockFace::Back => Vec3i { x: 0, y: 0, z: 1 },
        }
    }

    pub open spec fn try_from_dir_spec(dir: Vec3i) -> Option<BlockFace> {
        if dir == (Vec3i { x: 1, y: 0, z: 0 }) {
            Some(BlockFace::Right)
        } else if dir == (Vec3i { x: -1i32, y: 0, z: 0 }) {
            Some(BlockFace::Left)
        } else if dir == (Vec3i { x: 0, y: 1, z: 0 }) {
            Some(BlockFace::Top)
        } else if dir == (Vec3i { x: 0, y: -1i32, z: 0 }) {
            Some(BlockFace::Bottom)
        } else if dir == (Vec3i { x: 0, y: 0, z: 1 }) {
            Some(BlockFace::Back)
        } else if dir == (Vec3i { x: 0, y: 0, z: -1i32 }) {
            Some(BlockFace::Front)
        } else {
            None
        }
    }

    /// The direction whose outward normal is `dir`, if `dir` is one of the
    /// six unit axis vectors.
    pub fn try_from_dir(dir: Vec3i) -> (r: Option<BlockFace>)
        ensures
            r == BlockFace::try_from_dir_spec(dir),
            forall|f: BlockFace| dir == f.voffset_spec() ==> r == Some(f),
    {
        let r: Option<BlockFace> = if dir.x == 1 && dir.y == 0 && dir.z == 0 {
            Some(BlockFace::Right)
        } else if dir.x == -1 && dir.y == 0 && dir.z == 0 {
            Some(BlockFace::Left)
        } else if dir.x == 0 && dir.y == 1 && dir.z == 0 {
            Some(BlockFace::Top)
        } else if dir.x == 0 && dir.y == -1 && dir.z == 0 {
            Some(BlockFace::Bottom)
        } else if dir.x == 0 && dir.y == 0 && dir.z == 1 {
            Some(BlockFace::Back)
        } else if dir.x == 0 && dir.y == 0 && dir.z == -1 {
            Some(BlockFace::Front)
        } else {
            None
        };
        r
    }

    /// Whether flat index `i` lies on the chunk edge in this direction,
    /// so that it has no same-chunk neighbor this way.
    pub open spec fn is_edge_spec(self, i: int) -> bool {
        match self {
            BlockFace::Right => i % 32 == 31,
            BlockFace::Left => i % 32 == 0,
            BlockFace::Top => (i / 32) % 32 == 31,
            BlockFace::Bottom => (i / 32) % 32 == 0,
            BlockFace::Front => i / 1024 == 0,
            BlockFace::Back => i / 1024 == 31,
        }
    }

    pub fn is_edge(self, i: usize) -> (r: bool)
        requires
            i < 32768,
        ensures
            r == self.is_edge_spec(i as int),
    {
        proof {
            assert(i < 32768 ==> (i & 31 == i % 32 && ((i >> 5) & 31) == (i / 32) % 32
                && (i >> 10) == i / 1024)) by (bit_vector);
        }
        match self {
            BlockFace::Right => i & 31 == 31,
            BlockFace::Left => i & 31 == 0,
            BlockFace::Top => (i >> 5) & 31 == 31,
            BlockFace::Bottom => (i >> 5) & 31 == 0,
            BlockFace::Front => i >> 10 == 0,
            BlockFace::Back => i >> 10 == 31,
        }
    }

    /// Remaps a world-space face direction to the local texture-face name
    /// of a block rotated to face `dir`.
    pub open spec fn on_spec(self, dir: BlockFace) -> BlockFace {
        match dir {
            BlockFace::Front => self,
            BlockFace::Back => match self {
                BlockFace::Top => self,
                BlockFace::Bottom => self,
                _ => self.flip_spec(),
            },
            _ => {
                if self == BlockFace::Front {
                    dir.flip_spec()
                } else if self == BlockFace::Back {
                    dir
                } else if self == dir.flip_spec() {
                    BlockFace::Back
                } else if self == dir {
                    BlockFace::Front
                } else {
                    self
                }
            },
        }
    }

    pub fn on(self, dir: BlockFace) -> (r: BlockFace)
        ensures
            r == self.on_spec(dir),
    {
        match dir {
            BlockFace::Front => self,
            BlockFace::Back => match self {
                BlockFace::Top => self,
                BlockFace::Bottom => self,
                _ => self.flip(),
            },
            _ => {
                if self == BlockFace::Front {
                    dir.flip()
                } else if self == BlockFace::Back {
                    dir
                } else if self == dir.flip() {
                    BlockFace::Back
                } else if self == dir {
                    BlockFace::Front
                } else {
                    self
                }
            },
        }
    }
}

/// `flip` is an involution without fixed points: it pairs up the three
/// opposite pairs, toggling exactly the low ordinal bit.
pub proof fn lemma_flip_involution(f: BlockFace)
    ensures
        f.flip_spec().flip_spec() == f,
        f.flip_spec() != f,
        f.flip_spec().ordinal() == f.ordinal() ^ 1,
{
    assert(0u8 ^ 1 == 1u8 && 1u8 ^ 1 == 0u8 && 2u8 ^ 1 == 3u8 && 3u8 ^ 1 == 2u8 && 4u8 ^ 1 == 5u8
        && 5u8 ^ 1 == 4u8) by (bit_vector);
}

} // verus!
