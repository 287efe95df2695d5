use vstd::prelude::*;

verus! {

/// The operand fields of a 16-bit instruction word.
#[derive(Clone, Copy, Debug, PartialEq, Eq, Structural)]
pub struct Fields {
    /// Bits 12..16.
    pub op: u8,
    /// Bits 8..12: the first register operand.
    pub x: u8,
    /// Bits 4..8: the second register operand.
    pub y: u8,
    /// Bits 0..4.
    pub n: u8,
    /// Bits 0..12: an address.
    pub nnn: u16,
    /// Bits 0..8: an immediate byte.
    pub kk: u8,
}

pub open spec fn fields_of(code: u16) -> Fields {
    Fields {
        op: (code / 4096) as u8,
        x: (code / 256 % 16) as u8,
        y: (code / 16 % 16) as u8,
        n: (code % 16) as u8,
        nnn: (code % 4096) as u16,
        kk: (code % 256) as u8,
    }
}

/// Splits an instruction word into its fields; every word has them.
pub fn split(code: u16) -> (r: Fields)
    ensures
        r == fields_of(code),
{
    assert(code >> 12 == code / 4096) by (bit_vector);
    assert((code >> 8) & 0xF == code / 256 % 16) by (bit_vector);
    assert((code >> 4) & 0xF == code / 16 % 16) by (bit_vector);
    assert(code & 0xF == code % 16) by (bit_vector);
    assert(code & 0xFFF == code % 4096) by (bit_vector);
    assert(code & 0xFF == code % 256) by (bit_vector);
    Fields {
        op: (code >> 12) as u8,
        x: ((code >> 8) & 0xF) as u8,
        y: ((code >> 4) & 0xF) as u8,
        n: (code & 0xF) as u8,
        nnn: code & 0xFFF,
        kk: (code & 0xFF) as u8,
    }
}

/// One machine instruction, with its operands. Register operands are below 16,
/// addresses below 0x1000 and sprite heights below 16.
#[derive(Clone, Copy, Debug, PartialEq, Eq, Structural)]
pub enum Instruction {
    /// `00E0`: clear the display.
    Cls,
    /// `00EE`: return from a subroutine.
    Ret,
    /// `1nnn`: jump to `nnn`.
    Jp(u16),
    /// `2nnn`: call the subroutine at `nnn`.
    Call(u16),
    /// `3xkk`: skip the next instruction if `Vx == kk`.
    SeVxByte(u8, u8),
    /// `4xkk`: skip the next instruction if `Vx != kk`.
    SneVxByte(u8, u8),
    /// `5xy0`: skip the next instruction if `Vx == Vy`.
    SeVxVy(u8, u8),
    /// `6xkk`: `Vx := kk`.
    LdVxByte(u8, u8),
    /// `7xkk`: `Vx := Vx + kk`, wrapping, flag untouched.
    AddVxByte(u8, u8),
    /// `8xy0`: `Vx := Vy`.
    LdVxVy(u8, u8),
    /// `8xy1`: `Vx := Vx | Vy`.
    OrVxVy(u8, u8),
    /// `8xy2`: `Vx := Vx & Vy`.
    AndVxVy(u8, u8),
    /// `8xy3`: `Vx := Vx ^ Vy`.
    XorVxVy(u8, u8),
    /// `8xy4`: `Vx := Vx + Vy`, flag set on carry.
    AddVxVy(u8, u8),
    /// `8xy5`: `Vx := Vx - Vy`, flag set when no borrow.
    SubVxVy(u8, u8),
    /// `8xy6`: `Vx := Vx >> 1`, flag gets the bit shifted out.
    ShrVx(u8),
    /// `8xy7`: `Vx := Vy - Vx`, flag set when no borrow.
    SubnVxVy(u8, u8),
    /// `8xyE`: `Vx := Vx << 1`, flag gets the bit shifted out.
    ShlVx(u8),
    /// `9xy0`: skip the next instruction if `Vx != Vy`.
    SneVxVy(u8, u8),
    /// `Annn`: `I := nnn`.
    LdIAddr(u16),
    /// `Bnnn`: jump to `V0 + nnn`.
    JpV0Addr(u16),
    /// `Cxkk`: `Vx := random & kk`.
    RndVxByte(u8, u8),
    /// `Dxyn`: draw the `n`-byte sprite at `I` at (`Vx`, `Vy`).
    Drw(u8, u8, u8),
    /// `Ex9E`: skip the next instruction if key `Vx` is down.
    SkpVx(u8),
    /// `ExA1`: skip the next instruction if key `Vx` is up.
    SknpVx(u8),
    /// `Fx07`: `Vx := DT`.
    LdVxDt(u8),
    /// `Fx0A`: wait for a key and put it in `Vx`.
    LdVxK(u8),
    /// `Fx15`: `DT := Vx`.
    LdDtVx(u8),
    /// `Fx18`: `ST := Vx`.
    LdStVx(u8),
    /// `Fx1E`: `I := I + Vx`.
    AddIVx(u8),
    /// `Fx29`: `I :=` the address of the font glyph for digit `Vx`.
    LdFVx(u8),
    /// `Fx33`: store the decimal digits of `Vx` at `I`, `I + 1`, `I + 2`.
    LdBVx(u8),
    /// `Fx55`: store `V0..=Vx` at `I..=I + x`.
    LdIVx(u8),
    /// `Fx65`: load `V0..=Vx` from `I..=I + x`.
    LdVxI(u8),
    /// A word that matches no instruction.
    Unknown(u16),
}

/// The instruction that a set of fields encodes.
pub open spec fn instruction_of_fields(f: Fields, code: u16) -> Instruction {
    let (op, x, y, n) = (f.op, f.x, f.y, f.n);
    if op == 0x0 && x == 0x0 && y == 0xE && n == 0x0 { Instruction::Cls }
    else if op == 0x0 && x == 0x0 && y == 0xE && n == 0xE { Instruction::Ret }
    else if op == 0x1 { Instruction::Jp(f.nnn) }
    else if op == 0x2 { Instruction::Call(f.nnn) }
    else if op == 0x3 { Instruction::SeVxByte(x, f.kk) }
    else if op == 0x4 { Instruction::SneVxByte(x, f.kk) }
    else if op == 0x5 && n == 0x0 { Instruction::SeVxVy(x, y) }
    else if op == 0x6 { Instruction::LdVxByte(x, f.kk) }
    else if op == 0x7 { Instruction::AddVxByte(x, f.kk) }
    else if op == 0x8 && n == 0x0 { Instruction::LdVxVy(x, y) }
    else if op == 0x8 && n == 0x1 { Instruction::OrVxVy(x, y) }
    else if op == 0x8 && n == 0x2 { Instruction::AndVxVy(x, y) }
    else if op == 0x8 && n == 0x3 { Instruction::XorVxVy(x, y) }
    else if op == 0x8 && n == 0x4 { Instruction::AddVxVy(x, y) }
    else if op == 0x8 && n == 0x5 { Instruction::SubVxVy(x, y) }
    else if op == 0x8 && n == 0x6 { Instruction::ShrVx(x) }
    else if op == 0x8 && n == 0x7 { Instruction::SubnVxVy(x, y) }
    else if op == 0x8 && n == 0xE { Instruction::ShlVx(x) }
    else if op == 0x9 && n == 0x0 { Instruction::SneVxVy(x, y) }
    else if op == 0xA { Instruction::LdIAddr(f.nnn) }
    else if op == 0xB { Instruction::JpV0Addr(f.nnn) }
    else if op == 0xC { Instruction::RndVxByte(x, f.kk) }
    else if op == 0xD { Instruction::Drw(x, y, n) }
    else if op == 0xE && y == 0x9 && n == 0xE { Instruction::SkpVx(x) }
    else if op == 0xE && y == 0xA && n == 0x1 { Instruction::SknpVx(x) }
    else if op == 0xF && y == 0x0 && n == 0x7 { Instruction::LdVxDt(x) }
    else if op == 0xF && y == 0x0 && n == 0xA { Instruction::LdVxK(x) }
    else if op == 0xF && y == 0x1 && n == 0x5 { Instruction::LdDtVx(x) }
    else if op == 0xF && y == 0x1 && n == 0x8 { Instruction::LdStVx(x) }
    else if op == 0xF && y == 0x1 && n == 0xE { Instruction::AddIVx(x) }
    else if op == 0xF && y == 0x2 && n == 0x9 { Instruction::LdFVx(x) }
    else if op == 0xF && y == 0x3 && n == 0x3 { Instruction::LdBVx(x) }
    else if op == 0xF && y == 0x5 && n == 0x5 { Instruction::LdIVx(x) }
    else if op == 0xF && y == 0x6 && n == 0x5 { Instruction::LdVxI(x) }
    else { Instruction::Unknown(code) }
}

/// The instruction that a word encodes.
pub open spec fn instruction_of(code: u16) -> Instruction {
    instruction_of_fields(fields_of(code), code)
}

impl Instruction {
    /// Operands are in range: registers below 16, addresses below 0x1000 and
    /// sprite heights below 16.
    pub open spec fn wf(self) -> bool {
        match self {
            Instruction::Jp(a) | Instruction::Call(a) | Instruction::LdIAddr(a)
            | Instruction::JpV0Addr(a) => a < 0x1000,
            Instruction::SeVxByte(x, _) | Instruction::SneVxByte(x, _)
            | Instruction::LdVxByte(x, _) | Instruction::AddVxByte(x, _)
            | Instruction::RndVxByte(x, _) => x < 16,
            Instruction::SeVxVy(x, y) | Instruction::LdVxVy(x, y) | Instruction::OrVxVy(x, y)
            | Instruction::AndVxVy(x, y) | Instruction::XorVxVy(x, y)
            | Instruction::AddVxVy(x, y) | Instruction::SubVxVy(x, y)
            | Instruction::SubnVxVy(x, y) | Instruction::SneVxVy(x, y) => x < 16 && y < 16,
            Instruction::Drw(x, y, n) => x < 16 && y < 16 && n < 16,
            Instruction::ShrVx(x) | Instruction::ShlVx(x) | Instruction::SkpVx(x)
            | Instruction::SknpVx(x) | Instruction::LdVxDt(x) | Instruction::LdVxK(x)
            | Instruction::LdDtVx(x) | Instruction::LdStVx(x) | Instruction::AddIVx(x)
            | Instruction::LdFVx(x) | Instruction::LdBVx(x) | Instruction::LdIVx(x)
            | Instruction::LdVxI(x) => x < 16,
            Instruction::Cls | Instruction::Ret | Instruction::Unknown(_) => true,
        }
    }
}

/// Decodes an instruction word. Every word decodes, to `Unknown` if it
/// matches no instruction.
pub fn decode(code: u16) -> (r: Instruction)
    ensures
        r == instruction_of(code),
        r.wf(),
{
    let f = split(code);
    let (x, y, n) = (f.x, f.y, f.n);
    match (f.op, x, y, n) {
        (0x0, 0x0, 0xE, 0x0) => Instruction::Cls,
        (0x0, 0x0, 0xE, 0xE) => Instruction::Ret,
        (0x1, _, _, _) => Instruction::Jp(f.nnn),
        (0x2, _, _, _) => Instruction::Call(f.nnn),
        (0x3, _, _, _) => Instruction::SeVxByte(x, f.kk),
        (0x4, _, _, _) => Instruction::SneVxByte(x, f.kk),
        (0x5, _, _, 0x0) => Instruction::SeVxVy(x, y),
        (0x6, _, _, _) => Instruction::LdVxByte(x, f.kk),
        (0x7, _, _, _) => Instruction::AddVxByte(x, f.kk),
        (0x8, _, _, 0x0) => Instruction::LdVxVy(x, y),
        (0x8, _, _, 0x1) => Instruction::OrVxVy(x, y),
        (0x8, _, _, 0x2) => Instruction::AndVxVy(x, y),
        (0x8, _, _, 0x3) => Instruction::XorVxVy(x, y),
        (0x8, _, _, 0x4) => Instruction::AddVxVy(x, y),
        (0x8, _, _, 0x5) => Instruction::SubVxVy(x, y),
        (0x8, _, _, 0x6) => Instruction::ShrVx(x),
        (0x8, _, _, 0x7) => Instruction::SubnVxVy(x, y),
        (0x8, _, _, 0xE) => Instruction::ShlVx(x),
        (0x9, _, _, 0x0) => Instruction::SneVxVy(x, y),
        (0xA, _, _, _) => Instruction::LdIAddr(f.nnn),
        (0xB, _, _, _) => Instruction::JpV0Addr(f.nnn),
        (0xC, _, _, _) => Instruction::RndVxByte(x, f.kk),
        (0xD, _, _, _) => Instruction::Drw(x, y, n),
        (0xE, _, 0x9, 0xE) => Instruction::SkpVx(x),
        (0xE, _, 0xA, 0x1) => Instruction::SknpVx(x),
        (0xF, _, 0x0, 0x7) => Instruction::LdVxDt(x),
        (0xF, _, 0x0, 0xA) => Instruction::LdVxK(x),
        (0xF, _, 0x1, 0x5) => Instruction::LdDtVx(x),
        (0xF, _, 0x1, 0x8) => Instruction::LdStVx(x),
        (0xF, _, 0x1, 0xE) => Instruction::AddIVx(x),
        (0xF, _, 0x2, 0x9) => Instruction::LdFVx(x),
        (0xF, _, 0x3, 0x3) => Instruction::LdBVx(x),
        (0xF, _, 0x5, 0x5) => Instruction::LdIVx(x),
        (0xF, _, 0x6, 0x5) => Instruction::LdVxI(x),
        _ => Instruction::Unknown(code),
    }
}

} // verus!
