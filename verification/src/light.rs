//! Scoped block identifiers and packed per-block light levels.

use vstd::prelude::*;

verus! {

/// A block identifier: a 16-bit scope and a 16-bit id packed in one word.
#[derive(Clone, Copy, Debug, Hash, PartialEq, Eq, Structural)]
pub struct BlockId(pub u32);

impl BlockId {
    pub open spec fn id_spec(self) -> int {
        (self.0 & 0xffff) as int
    }

    pub open spec fn scope_spec(self) -> int {
        (self.0 >> 16) as int
    }

    pub fn new(scope: u32, id: u32) -> (b: BlockId)
        requires
            scope < 0x10000,
            id < 0x10000,
        ensures
            b.scope_spec() == scope,
            b.id_spec() == id,
    {
        proof {
            assert((scope < 0x10000 && id < 0x10000) ==> ((scope << 16 | id) & 0xffff == id && (
            scope << 16 | id) >> 16 == scope)) by (bit_vector);
        }
        BlockId(scope << 16 | id)
    }

    pub fn id(&self) -> (r: usize)
        ensures
            r == self.id_spec(),
    {
        (self.0 & 0xffff) as usize
    }

    pub fn scope(&self) -> (r: usize)
        ensures
            r == self.scope_spec(),
    {
        (self.0 >> 16) as usize
    }
}

/// Four 4-bit light levels (sky, red, green, blue) packed in two bytes.
#[derive(Default, Clone, Copy, Debug, Hash, PartialEq, Eq, Structural)]
pub struct Lighting {
    pub sky_red: u8,
    pub blue_green: u8,
}

impl Lighting {
    pub open spec fn sky_spec(self) -> u8 {
        self.sky_red >> 4
    }

    pub open spec fn red_spec(self) -> u8 {
        self.sky_red & 0xf
    }

    pub open spec fn blue_spec(self) -> u8 {
        self.blue_green >> 4
    }

    pub open spec fn green_spec(self) -> u8 {
        self.blue_green & 0xf
    }

    pub fn new(sky: u8, red: u8, green: u8, blue: u8) -> (l: Lighting)
        requires
            sky < 16,
            red < 16,
            green < 16,
            blue < 16,
        ensures
            l.sky_spec() == sky,
            l.red_spec() == red,
            l.green_spec() == green,
            l.blue_spec() == blue,
    {
        proof {
            assert((sky < 16 && red < 16) ==> ((sky << 4 | red) >> 4 == sky && (sky << 4 | red)
                & 0xf == red)) by (bit_vector);
            assert((blue < 16 && green < 16) ==> ((blue << 4 | green) >> 4 == blue && (blue << 4
                | green) & 0xf == green)) by (bit_vector);
        }
        Lighting { sky_red: sky << 4 | red, blue_green: blue << 4 | green }
    }

    pub fn get_sky(&self) -> (r: u8)
        ensures
            r == self.sky_spec(),
    {
        self.sky_red >> 4
    }

    pub fn get_red(&self) -> (r: u8)
        ensures
            r == self.red_spec(),
    {
        self.sky_red & 0xf
    }

    pub fn get_blue(&self) -> (r: u8)
        ensures
            r == self.blue_spec(),
    {
        self.blue_green >> 4
    }

    pub fn get_green(&self) -> (r: u8)
        ensures
            r == self.green_spec(),
    {
        self.blue_green & 0xf
    }

    pub fn set_sky(&mut self, intensity: u8)
        requires
            intensity < 16,
        ensures
            final(self).sky_spec() == intensity,
            final(self).red_spec() == old(self).red_spec(),
            final(self).blue_green == old(self).blue_green,
    {
        proof {
            let h = self.sky_red;
            assert(intensity < 16 ==> ((h & 0xf | intensity << 4) >> 4 == intensity && (h & 0xf
                | intensity << 4) & 0xf == h & 0xf)) by (bit_vector);
        }
        self.sky_red = self.sky_red & 0xf | intensity << 4;
    }

    pub fn set_red(&mut self, intensity: u8)
        requires
            intensity < 16,
        ensures
            final(self).red_spec() == intensity,
            final(self).sky_spec() == old(self).sky_spec(),
            final(self).blue_green == old(self).blue_green,
    {
        proof {
            let h = self.sky_red;
            assert(intensity < 16 ==> ((h & 0xf0 | intensity) & 0xf == intensity && (h & 0xf0
                | intensity) >> 4 == h >> 4)) by (bit_vector);
        }
        self.sky_red = self.sky_red & 0xf0 | intensity;
    }

    pub fn set_blue(&mut self, intensity: u8)
        requires
            intensity < 16,
        ensures
            final(self).blue_spec() == intensity,
            final(self).green_spec() == old(self).green_spec(),
            final(self).sky_red == old(self).sky_red,
    {
        proof {
            let h = self.blue_green;
            assert(intensity < 16 ==> ((h & 0xf | intensity << 4) >> 4 == intensity && (h & 0xf
                | intensity << 4) & 0xf == h & 0xf)) by (bit_vector);
        }
        self.blue_green = self.blue_green & 0xf | intensity << 4;
    }

    pub fn set_green(&mut self, intensity: u8)
        requires
            intensity < 16,
        ensures
            final(self).green_spec() == intensity,
            final(self).blue_spec() == old(self).blue_spec(),
            final(self).sky_red == old(self).sky_red,
    {
        proof {
            let h = self.blue_green;
            assert(intensity < 16 ==> ((h & 0xf0 | intensity) & 0xf == intensity && (h & 0xf0
                | intensity) >> 4 == h >> 4)) by (bit_vector);
        }
        self.blue_green = self.blue_green & 0xf0 | intensity;
    }
}

/// One value per face direction.
#[derive(Default, Clone, Copy, Debug, PartialEq, Eq, Structural)]
pub struct FacedData<T> {
    pub top: T,
    pub bottom: T,
    pub front: T,
    pub back: T,
    pub left: T,
    pub right: T,
}

} // verus!
