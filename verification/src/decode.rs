use vstd::prelude::*;

verus! {

/// The fields of a decoded two-byte instruction word, high byte `hi`, low
/// byte `lo`. They are views of the same word, not independent data: the
/// 4-bit opcode class, the register indices `x` (low nibble of `hi`) and `y`
/// (high nibble of `lo`), the 4-bit immediate `n`, the 8-bit immediate `nn`
/// and the 12-bit address immediate `nnn`.
pub struct Instr {
    pub op: u8,
    pub x: u8,
    pub y: u8,
    pub n: u8,
    pub nn: u8,
    pub nnn: u16,
}

/// The high nibble of a byte.
pub open spec fn hi_nibble(b: u8) -> u8 {
    b >> 4
}

/// The low nibble of a byte.
pub open spec fn lo_nibble(b: u8) -> u8 {
    b & 0x0F
}

/// The 12-bit address held in the low 12 bits of the word `hi, lo`.
pub open spec fn addr_field(hi: u8, lo: u8) -> u16 {
    (((hi & 0x0F) as u16) << 8) | (lo as u16)
}

/// The full 16-bit instruction word `hi, lo`.
pub open spec fn word_of(hi: u8, lo: u8) -> u16 {
    ((hi as u16) << 8) | (lo as u16)
}

/// Split an instruction word into its fields.
pub fn decode(hi: u8, lo: u8) -> (i: Instr)
    ensures
        i.op == hi_nibble(hi),
        i.x == lo_nibble(hi),
        i.y == hi_nibble(lo),
        i.n == lo_nibble(lo),
        i.nn == lo,
        i.nnn == addr_field(hi, lo),
        i.op < 16,
        i.x < 16,
        i.y < 16,
        i.n < 16,
        i.nnn < 0x1000,
{
    let op = (hi & 0xF0) >> 4;
    let x = hi & 0x0F;
    let y = (lo & 0xF0) >> 4;
    let n = lo & 0x0F;
    let nnn = (((hi & 0x0F) as u16) << 8) | (lo as u16);
    proof {
        assert((hi & 0xF0) >> 4 == hi >> 4 && hi >> 4 < 16 && (hi & 0x0F) < 16) by (bit_vector);
        assert((lo & 0xF0) >> 4 == lo >> 4 && lo >> 4 < 16 && (lo & 0x0F) < 16) by (bit_vector);
        assert((((hi & 0x0F) as u16) << 8) | (lo as u16) < 0x1000) by (bit_vector);
    }
    Instr { op, x, y, n, nn: lo, nnn }
}

} // verus!
