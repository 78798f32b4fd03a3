use vstd::prelude::*;

verus! {

/// One decoded instruction word and its operand fields.
#[derive(Clone, Copy, Debug, PartialEq, Eq, Structural)]
pub struct Opcode {
    /// Leading nibble: the instruction family.
    pub leading: u8,
    /// Second nibble: the first register operand.
    pub x: u8,
    /// Third nibble: the second register operand.
    pub y: u8,
    /// Low nibble.
    pub n: u8,
    /// Low twelve bits: an address operand.
    pub nnn: u16,
    /// Low byte: an immediate operand.
    pub kk: u8,
}

impl Opcode {
    /// The fields of `word`, each by its place in the word.
    pub open spec fn spec_decode(word: u16) -> Opcode {
        Opcode {
            leading: (word / 4096) as u8,
            x: ((word / 256) % 16) as u8,
            y: ((word / 16) % 16) as u8,
            n: (word % 16) as u8,
            nnn: (word % 4096) as u16,
            kk: (word % 256) as u8,
        }
    }

    /// Splits an instruction word into its fields by fixed bit masks.
    pub fn decode(word: u16) -> (r: Opcode)
        ensures
            r == Opcode::spec_decode(word),
    {
        assert(((word & 0xF000u16) >> 12u16) == word / 4096) by (bit_vector);
        assert(((word & 0x0F00u16) >> 8u16) == (word / 256) % 16) by (bit_vector);
        assert(((word & 0x00F0u16) >> 4u16) == (word / 16) % 16) by (bit_vector);
        assert((word & 0x000Fu16) == word % 16) by (bit_vector);
        assert((word & 0x0FFFu16) == word % 4096) by (bit_vector);
        assert((word & 0x00FFu16) == word % 256) by (bit_vector);
        Opcode {
            leading: ((word & 0xF000) >> 12) as u8,
            x: ((word & 0x0F00) >> 8) as u8,
            y: ((word & 0x00F0) >> 4) as u8,
            n: (word & 0x000F) as u8,
            nnn: word & 0x0FFF,
            kk: (word & 0x00FF) as u8,
        }
    }

    /// The instruction word made of the byte at the program counter and the
    /// byte after it, high byte first.
    pub fn word_of(high: u8, low: u8) -> (r: u16)
        ensures
            r as int == high as int * 256 + low as int,
    {
        let h = high as u16;
        let l = low as u16;
        assert(h < 256 && l < 256);
        assert(h < 256u16 && l < 256u16 ==> ((h << 8u16) | l) == h * 256 + l) by (bit_vector);
        (h << 8) | l
    }
}

} // verus!
