//! The block registry: the read-only catalog mapping a block-type id to
//! its mesh metadata (texture regions in the shared atlas, transparency).
//!
//! Atlas coordinates are kept in texel units; a renderer divides by the
//! atlas size to obtain normalized texture coordinates.

use vstd::prelude::*;

verus! {

/// An RGBA tint color.
#[derive(Debug, Clone, Copy, PartialEq, Eq, Structural)]
pub struct Color {
    pub r: u8,
    pub g: u8,
    pub b: u8,
    pub a: u8,
}

impl Color {
    /// The zero color (no tint).
    pub fn zero() -> (c: Color)
        ensures
            c == (Color { r: 0, g: 0, b: 0, a: 0 }),
    {
        Color { r: 0, g: 0, b: 0, a: 0 }
    }
}

/// A 2D texel coordinate in the shared texture atlas.
#[derive(Debug, Clone, Copy, PartialEq, Eq, Structural)]
pub struct Vec2u {
    pub x: u32,
    pub y: u32,
}

/// A rectangular region of the texture atlas plus a tint color.
#[derive(Debug, Clone, Copy, PartialEq, Eq, Structural)]
pub struct BlockTexture {
    pub pos: Vec2u,
    pub size: Vec2u,
    pub color: Color,
}

impl BlockTexture {
    /// The region stays representable when offset by its own size.
    pub open spec fn wf(self) -> bool {
        self.pos.x + self.size.x <= u32::MAX && self.pos.y + self.size.y <= u32::MAX
    }

    pub fn new(pos: Vec2u, size: Vec2u) -> (t: BlockTexture)
        ensures
            t == (BlockTexture { pos, size, color: Color { r: 0, g: 0, b: 0, a: 0 } }),
    {
        BlockTexture { pos, size, color: Color::zero() }
    }

    pub fn with_color(self, color: Color) -> (t: BlockTexture)
        ensures
            t == (BlockTexture { color, ..self }),
    {
        BlockTexture { color, ..self }
    }

    /// The texel coordinate of corner `coords` of this region, each
    /// component of `coords` being 0 or 1.
    pub open spec fn get_spec(self, coords: Vec2u) -> Vec2u {
        Vec2u { x: (self.pos.x + coords.x * self.size.x) as u32, y: (self.pos.y + coords.y
            * self.size.y) as u32 }
    }

    pub fn get(&self, coords: Vec2u) -> (r: Vec2u)
        requires
            self.wf(),
            coords.x <= 1,
            coords.y <= 1,
        ensures
            r == self.get_spec(coords),
    {
        proof {
            assert(coords.x * self.size.x <= self.size.x && coords.y * self.size.y <= self.size.y)
                by (nonlinear_arith)
                requires
                    coords.x <= 1,
                    coords.y <= 1,
            ;
        }
        Vec2u { x: self.pos.x + coords.x * self.size.x, y: self.pos.y + coords.y * self.size.y }
    }
}

/// How a block type is meshed.
#[derive(Debug, Clone, Copy)]
pub enum BlockMeshType {
    /// Never produces faces.
    Transparent,
    /// One texture region for all six faces.
    SameSided(BlockTexture),
    /// Distinct top and bottom, one texture for the four side faces.
    Surrounded { top: BlockTexture, bottom: BlockTexture, sides: BlockTexture },
    /// A distinct texture per logical face, reinterpreted through the
    /// block's stored orientation.
    Directional {
        right: BlockTexture,
        left: BlockTexture,
        top: BlockTexture,
        bottom: BlockTexture,
        front: BlockTexture,
        back: BlockTexture,
    },
}

impl BlockMeshType {
    pub open spec fn wf(self) -> bool {
        match self {
            BlockMeshType::Transparent => true,
            BlockMeshType::SameSided(t) => t.wf(),
            BlockMeshType::Surrounded { top, bottom, sides } => top.wf() && bottom.wf()
                && sides.wf(),
            BlockMeshType::Directional { right, left, top, bottom, front, back } => right.wf()
                && left.wf() && top.wf() && bottom.wf() && front.wf() && back.wf(),
        }
    }
}

/// One catalog entry: a display name and the mesh-type variant.
#[derive(Debug, Clone)]
pub struct BlockData {
    pub name: String,
    pub mesh_type: BlockMeshType,
}

impl BlockData {
    pub open spec fn is_transparent_spec(&self) -> bool {
        self.mesh_type is Transparent
    }

    /// Whether this block type never renders.
    pub fn is_transparent(&self) -> (r: bool)
        ensures
            r == self.is_transparent_spec(),
    {
        match self.mesh_type {
            BlockMeshType::Transparent => true,
            _ => false,
        }
    }
}

/// The read-only block catalog. Index 0 is always the transparent "air"
/// entry.
#[derive(Debug)]
pub struct BlockRegistry {
    pub blocks: Vec<BlockData>,
}

impl BlockRegistry {
    pub open spec fn wf(&self) -> bool {
        &&& 1 <= self.blocks@.len() <= u32::MAX
        &&& self.blocks@[0].is_transparent_spec()
        &&& forall|i: int|
            0 <= i < self.blocks@.len() ==> (#[trigger] self.blocks@[i]).mesh_type.wf()
    }

    /// Whether block-type id `id` is transparent (never rendered).
    pub open spec fn transparent_spec(&self, id: int) -> bool {
        self.blocks@[id].is_transparent_spec()
    }

    pub fn new(blocks: Vec<BlockData>) -> (reg: BlockRegistry)
        requires
            1 <= blocks@.len() <= u32::MAX,
            blocks@[0].is_transparent_spec(),
            forall|i: int| 0 <= i < blocks@.len() ==> (#[trigger] blocks@[i]).mesh_type.wf(),
        ensures
            reg.wf(),
            reg.blocks == blocks,
    {
        BlockRegistry { blocks }
    }

    pub fn is_transparent(&self, id: u32) -> (r: bool)
        requires
            id < self.blocks@.len(),
        ensures
            r == self.transparent_spec(id as int),
    {
        self.blocks[id as usize].is_transparent()
    }
}

fn atlas_texture(x: u32, y: u32) -> (t: BlockTexture)
    requires
        x <= 1008,
        y <= 1008,
    ensures
        t == (BlockTexture {
            pos: Vec2u { x, y },
            size: Vec2u { x: 16, y: 16 },
            color: Color { r: 0, g: 0, b: 0, a: 0 },
        }),
        t.wf(),
{
    BlockTexture::new(Vec2u { x, y }, Vec2u { x: 16, y: 16 })
}

/// The built-in block catalog: air, cobblestone, dirt, grass, furnace and
/// observer, with their regions of the 1024x1024 block atlas.
pub fn default_blocks() -> (blocks: Vec<BlockData>)
    ensures
        blocks@.len() == 6,
        blocks@[0].is_transparent_spec(),
        forall|i: int| 1 <= i < 6 ==> !(#[trigger] blocks@[i]).is_transparent_spec(),
        forall|i: int| 0 <= i < 6 ==> (#[trigger] blocks@[i]).mesh_type.wf(),
{
    let mut blocks: Vec<BlockData> = Vec::new();
    blocks.push(BlockData { name: "air".to_owned(), mesh_type: BlockMeshType::Transparent });
    blocks.push(BlockData {
        name: "cobblestone".to_owned(),
        mesh_type: BlockMeshType::SameSided(atlas_texture(624, 272)),
    });
    blocks.push(BlockData {
        name: "dirt".to_owned(),
        mesh_type: BlockMeshType::SameSided(atlas_texture(768, 304)),
    });
    blocks.push(BlockData {
        name: "grass".to_owned(),
        mesh_type: BlockMeshType::Surrounded {
            top: atlas_texture(880, 320).with_color(Color { r: 0x97, g: 0xc6, b: 0x67, a: 0xff }),
            bottom: atlas_texture(768, 304),
            sides: atlas_texture(832, 320),
        },
    });
    blocks.push(BlockData {
        name: "furnace".to_owned(),
        mesh_type: BlockMeshType::Directional {
            right: atlas_texture(656, 320),
            left: atlas_texture(656, 320),
            top: atlas_texture(672, 320),
            bottom: atlas_texture(672, 320),
            front: atlas_texture(624, 320),
            back: atlas_texture(656, 320),
        },
    });
    blocks.push(BlockData {
        name: "observer".to_owned(),
        mesh_type: BlockMeshType::Directional {
            right: atlas_texture(816, 368),
            left: atlas_texture(816, 368),
            top: atlas_texture(832, 368),
            bottom: atlas_texture(832, 368),
            front: atlas_texture(800, 368),
            back: atlas_texture(768, 368),
        },
    });
    blocks
}

} // verus!
