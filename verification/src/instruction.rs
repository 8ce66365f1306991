//! The four-byte MMIX instruction word `OP X Y Z`.

use vstd::prelude::*;

verus! {

/// An instruction word split into its four bytes: `[OP, X, Y, Z]`
/// (or `[OP, X, YZ]` for the wyde-immediate forms).
#[derive(Debug, Clone, Copy)]
pub struct RawInst {
    pub op: u8,
    pub x: u8,
    pub y: u8,
    pub z: u8,
}

impl RawInst {
    /// The 32-bit word whose bytes, most significant first, are `op x y z`.
    pub open spec fn word(self) -> nat {
        self.op as nat * 0x100_0000 + self.x as nat * 0x1_0000 + self.y as nat * 0x100 + self.z as nat
    }

    /// The instruction that a 32-bit word encodes.
    pub open spec fn spec_decode(word: u32) -> RawInst {
        RawInst {
            op: (word / 0x100_0000) as u8,
            x: ((word / 0x1_0000) % 0x100) as u8,
            y: ((word / 0x100) % 0x100) as u8,
            z: (word % 0x100) as u8,
        }
    }

    /// The 16-bit field `Y * 256 + Z`.
    pub open spec fn spec_yz(self) -> nat {
        self.y as nat * 0x100 + self.z as nat
    }

    pub fn decode(word: u32) -> (inst: Self)
        ensures
            inst == Self::spec_decode(word),
            inst.word() == word,
    {
        let inst = Self {
            op: ((word >> 24) & 0xFF) as u8,
            x: ((word >> 16) & 0xFF) as u8,
            y: ((word >> 8) & 0xFF) as u8,
            z: (word & 0xFF) as u8,
        };
        proof {
            lemma_word_fields(word);
        }
        inst
    }

    pub fn encode(&self) -> (word: u32)
        ensures
            word == self.word(),
    {
        let (op, x, y, z) = (self.op, self.x, self.y, self.z);
        assert((((op as u32) << 24) | ((x as u32) << 16) | ((y as u32) << 8) | (z as u32)) == op as u32
            * 0x100_0000 + x as u32 * 0x1_0000 + y as u32 * 0x100 + z as u32) by (bit_vector);
        ((op as u32) << 24) | ((x as u32) << 16) | ((y as u32) << 8) | (z as u32)
    }

    /// `Y * 256 + Z`, used for wyde immediates and branch offsets.
    pub fn yz(&self) -> (r: u16)
        ensures
            r == self.spec_yz(),
    {
        let (y, z) = (self.y, self.z);
        assert((((y as u16) << 8) | z as u16) == y as u16 * 0x100 + z as u16) by (bit_vector);
        ((y as u16) << 8) | z as u16
    }
}

/// Decoding an encoded instruction gives the instruction back.
pub proof fn lemma_decode_encode(inst: RawInst)
    ensures
        inst.word() < 0x1_0000_0000,
        RawInst::spec_decode(inst.word() as u32) == inst,
{
    let (op, x, y, z) = (inst.op as u32, inst.x as u32, inst.y as u32, inst.z as u32);
    assert(op < 256 && x < 256 && y < 256 && z < 256 ==> {
        let w = op * 0x100_0000 + x * 0x1_0000 + y * 0x100 + z;
        &&& w / 0x100_0000 == op
        &&& (w / 0x1_0000) % 0x100 == x
        &&& (w / 0x100) % 0x100 == y
        &&& w % 0x100 == z
    }) by (bit_vector);
}

/// Encoding a decoded word gives the word back.
pub proof fn lemma_encode_decode(word: u32)
    ensures
        RawInst::spec_decode(word).word() == word,
{
    lemma_word_fields(word);
}

proof fn lemma_word_fields(word: u32)
    by (bit_vector)
    ensures
        ((word >> 24) & 0xFF) == word / 0x100_0000,
        ((word >> 16) & 0xFF) == (word / 0x1_0000) % 0x100,
        ((word >> 8) & 0xFF) == (word / 0x100) % 0x100,
        (word & 0xFF) == word % 0x100,
        word == (word / 0x100_0000) * 0x100_0000 + ((word / 0x1_0000) % 0x100) * 0x1_0000 + ((word
            / 0x100) % 0x100) * 0x100 + word % 0x100,
{
}

} // verus!
