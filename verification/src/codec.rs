//! The packed per-block face-slot codec.
//!
//! Each of a block's six directions stores an optional 17-bit quad index:
//! values `0 .. 2^17 - 1` are slot indices, the all-ones value means
//! "absent". The low 16 bits of each direction live in one `u16` field,
//! the six 17th bits share one byte, one bit per direction.

use vstd::prelude::*;

use crate::face::BlockFace;

verus! {

/// The reserved all-ones slot value meaning "no face emitted".
pub const FACE_ABSENT: usize = 0x1ffff;

/// Packed storage for six optional 17-bit face-slot indices.
#[derive(Debug, Clone, Copy)]
pub struct FaceSlots {
    /// Low 16 bits of each direction's slot value, indexed by ordinal.
    pub lows: [u16; 6],
    /// Bit `ordinal(f)` holds the 17th bit of direction `f`'s slot value.
    pub highs: u8,
}

impl FaceSlots {
    /// The raw 17-bit value stored for direction `f`.
    pub open spec fn raw(self, f: BlockFace) -> usize {
        ((((self.highs >> f.ordinal()) & 1) as usize) << 16) | (
        self.lows[f.ordinal() as int] as usize)
    }

    /// The decoded slot for direction `f`: `None` when the stored value is
    /// the reserved sentinel.
    pub open spec fn get_spec(self, f: BlockFace) -> Option<usize> {
        if self.raw(f) == FACE_ABSENT {
            None
        } else {
            Some(self.raw(f))
        }
    }

    pub open spec fn all_absent(self) -> bool {
        forall|f: BlockFace| self.get_spec(f) is None
    }

    /// Storage with every direction absent.
    pub fn empty() -> (s: FaceSlots)
        ensures
            s.all_absent(),
            forall|f: BlockFace| s.raw(f) == FACE_ABSENT,
    {
        let s = FaceSlots { lows: [0xffffu16; 6], highs: 0xff };
        proof {
            assert forall|f: BlockFace| s.raw(f) == FACE_ABSENT by {
                let o = f.ordinal();
                assert(o < 6 ==> ((((0xffu8 >> o) & 1) as usize) << 16) | (0xffffu16 as usize)
                    == 0x1ffff) by (bit_vector);
            }
        }
        s
    }

    /// Decode the slot stored for `face`.
    pub fn get(&self, face: BlockFace) -> (r: Option<usize>)
        ensures
            r == self.get_spec(face),
    {
        let ord = face.as_ordinal();
        assert(ord < 6);
        let value: usize = ((((self.highs >> ord) & 1) as usize) << 16) | (
        self.lows[ord as usize] as usize);
        if value == FACE_ABSENT {
            None
        } else {
            Some(value)
        }
    }

    /// Store `value` (or the absent sentinel) for `face`, leaving the five
    /// other directions' stored values untouched.
    pub fn set(&mut self, face: BlockFace, value: Option<usize>)
        requires
            value matches Some(v) ==> v < 0x1ffff,
        ensures
            final(self).get_spec(face) == value,
            forall|g: BlockFace| g != face ==> final(self).raw(g) == old(self).raw(g),
    {
        let ord = face.as_ordinal();
        assert(ord < 6);
        let raw: usize = match value {
            Some(v) => v,
            None => FACE_ABSENT,
        };
        let h0 = self.highs;
        self.highs = self.highs & !(1u8 << ord) | (((raw >> 16) as u8) << ord);
        self.lows[ord as usize] = raw as u16;
        proof {
            let h1 = self.highs;
            assert((ord < 6 && raw < 0x20000 && h1 == h0 & !(1u8 << ord) | (((raw >> 16) as u8)
                << ord)) ==> (((((h1 >> ord) & 1) as usize) << 16) | ((raw as u16) as usize)) == raw)
                by (bit_vector);
            assert(forall|g: u8|
                (g < 6 && ord < 6 && g != ord && raw < 0x20000 && h1 == h0 & !(1u8 << ord) | (((raw
                    >> 16) as u8) << ord)) ==> ((h1 >> g) & 1) == ((h0 >> g) & 1)) by (bit_vector);
            assert forall|g: BlockFace| g != face implies final(self).raw(g) == old(self).raw(g) by {
                assert(g.ordinal() != face.ordinal());
            }
        }
    }
}

/// Any decoded slot value fits below the absent sentinel.
pub broadcast proof fn lemma_slot_value_bound(s: FaceSlots, f: BlockFace)
    ensures
        (#[trigger] s.get_spec(f)) matches Some(v) ==> v < 0x1ffff,
{
    let o = f.ordinal();
    let h = s.highs;
    let l = s.lows[f.ordinal() as int];
    assert(((((h >> o) & 1) as usize) << 16) | (l as usize) <= 0x1ffff) by (bit_vector);
}

} // verus!
