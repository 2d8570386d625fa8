use vstd::prelude::*;

verus! {

/// One decoded instruction of the CHIP-8 set with the CHIP-48/SCHIP
/// extensions. Register operands are 4-bit indices, addresses are 12 bits,
/// immediates are 8 bits.
#[derive(Clone, Copy, Debug, PartialEq, Eq, Structural)]
pub enum Instr {
    /// `00E0`: clear the screen.
    Cls,
    /// `00EE`: return from a subroutine.
    Ret,
    /// `00CN`: scroll the display down by `N` scan lines.
    ScrollDown(u8),
    /// `00BN`: scroll the display up by `N` scan lines.
    ScrollUp(u8),
    /// `00FE`: switch to the low (64x32) resolution.
    LowRes,
    /// `00FF`: switch to the high (128x64) resolution.
    HighRes,
    /// `1NNN`: jump to address `NNN`.
    Jump(u16),
    /// `2NNN`: call the subroutine at `NNN`.
    Call(u16),
    /// `3XNN`: skip the next instruction if `VX == NN`.
    SkipEqImm(u8, u8),
    /// `4XNN`: skip the next instruction if `VX != NN`.
    SkipNeImm(u8, u8),
    /// `5XY0`: skip the next instruction if `VX == VY`.
    SkipEqReg(u8, u8),
    /// `6XNN`: `VX := NN`.
    SetImm(u8, u8),
    /// `7XNN`: `VX := VX + NN` (wrapping, `VF` untouched).
    AddImm(u8, u8),
    /// `8XY0`: `VX := VY`.
    Move(u8, u8),
    /// `8XY1`: `VX := VX | VY`.
    Or(u8, u8),
    /// `8XY2`: `VX := VX & VY`.
    And(u8, u8),
    /// `8XY3`: `VX := VX ^ VY`.
    Xor(u8, u8),
    /// `8XY4`: `VX := VX + VY`, `VF` := carry.
    Add(u8, u8),
    /// `8XY5`: `VX := VX - VY`, `VF` := 1 if no borrow.
    Sub(u8, u8),
    /// `8XY6`: `VX := VX >> 1`, `VF` := the shifted-out bit.
    Shr(u8),
    /// `8XY7`: `VX := VY - VX`, `VF` := 1 if no borrow.
    SubFrom(u8, u8),
    /// `8XYE`: `VX := VX << 1`, `VF` := the shifted-out bit.
    Shl(u8),
    /// `9XY0`: skip the next instruction if `VX != VY`.
    SkipNeReg(u8, u8),
    /// `ANNN`: `I := NNN`.
    SetIndex(u16),
    /// `BNNN`: jump to `NNN + V0`.
    JumpV0(u16),
    /// `CXNN`: `VX :=` pseudo-random byte `& NN`.
    Random(u8, u8),
    /// `DXYN`: draw the `N`-byte sprite at `I` at `(VX, VY)`; `N == 0`
    /// draws a 16x16 sprite.
    Draw(u8, u8, u8),
    /// `EX9E`: skip the next instruction if the key `VX` is pressed.
    SkipKey(u8),
    /// `EXA1`: skip the next instruction if the key `VX` is not pressed.
    SkipNoKey(u8),
    /// `FX07`: `VX :=` the delay timer's countdown value.
    GetDelay(u8),
    /// `FX0A`: wait for a newly pressed key, then store it in `VX`.
    WaitKey(u8),
    /// `FX15`: set the delay timer to `VX` ticks from now.
    SetDelay(u8),
    /// `FX18`: set the sound timer to `VX` ticks from now.
    SetSound(u8),
    /// `FX1E`: `I := I + VX` (wrapping in 16 bits).
    AddIndex(u8),
    /// `FX29`: `I :=` the address of the built-in glyph for digit `VX`.
    FontSprite(u8),
    /// `FX33`: store the decimal digits of `VX` at `I`, `I+1`, `I+2`.
    StoreBcd(u8),
    /// `FX55`: store `V0..=VX` to memory starting at `I`.
    StoreRegs(u8),
    /// `FX65`: load `V0..=VX` from memory starting at `I`.
    LoadRegs(u8),
    /// `FX75`: copy `V0..=VX` into the flag registers (`X <= 7`).
    SaveFlags(u8),
    /// `FX85`: restore `V0..=VX` from the flag registers (`X <= 7`).
    LoadFlags(u8),
}

/// Every operand of a decoded instruction is within its field's range.
pub open spec fn instr_wf(op: Instr) -> bool {
    match op {
        Instr::Cls => true,
        Instr::Ret => true,
        Instr::ScrollDown(n) => n < 16,
        Instr::ScrollUp(n) => n < 16,
        Instr::LowRes => true,
        Instr::HighRes => true,
        Instr::Jump(nnn) => nnn < 0x1000,
        Instr::Call(nnn) => nnn < 0x1000,
        Instr::SkipEqImm(x, _nn) => x < 16,
        Instr::SkipNeImm(x, _nn) => x < 16,
        Instr::SkipEqReg(x, y) => x < 16 && y < 16,
        Instr::SetImm(x, _nn) => x < 16,
        Instr::AddImm(x, _nn) => x < 16,
        Instr::Move(x, y) => x < 16 && y < 16,
        Instr::Or(x, y) => x < 16 && y < 16,
        Instr::And(x, y) => x < 16 && y < 16,
        Instr::Xor(x, y) => x < 16 && y < 16,
        Instr::Add(x, y) => x < 16 && y < 16,
        Instr::Sub(x, y) => x < 16 && y < 16,
        Instr::Shr(x) => x < 16,
        Instr::SubFrom(x, y) => x < 16 && y < 16,
        Instr::Shl(x) => x < 16,
        Instr::SkipNeReg(x, y) => x < 16 && y < 16,
        Instr::SetIndex(nnn) => nnn < 0x1000,
        Instr::JumpV0(nnn) => nnn < 0x1000,
        Instr::Random(x, _nn) => x < 16,
        Instr::Draw(x, y, n) => x < 16 && y < 16 && n < 16,
        Instr::SkipKey(x) => x < 16,
        Instr::SkipNoKey(x) => x < 16,
        Instr::GetDelay(x) => x < 16,
        Instr::WaitKey(x) => x < 16,
        Instr::SetDelay(x) => x < 16,
        Instr::SetSound(x) => x < 16,
        Instr::AddIndex(x) => x < 16,
        Instr::FontSprite(x) => x < 16,
        Instr::StoreBcd(x) => x < 16,
        Instr::StoreRegs(x) => x < 16,
        Instr::LoadRegs(x) => x < 16,
        Instr::SaveFlags(x) => x < 16,
        Instr::LoadFlags(x) => x < 16,
    }
}

/// The decode table: classifies a 16-bit instruction word by its high
/// nibble and, where that is ambiguous, by its low byte or low nibble.
/// A word that matches no opcode decodes to `None`.
pub open spec fn spec_decode(word: u16) -> Option<Instr> {
    let x = ((word / 0x100) % 0x10) as u8;
    let y = ((word / 0x10) % 0x10) as u8;
    let n = (word % 0x10) as u8;
    let nn = (word % 0x100) as u8;
    let nnn = word % 0x1000;
    let hi = word / 0x1000;
    if word == 0x00E0 {
        Some(Instr::Cls)
    } else if word == 0x00EE {
        Some(Instr::Ret)
    } else if word == 0x00FE {
        Some(Instr::LowRes)
    } else if word == 0x00FF {
        Some(Instr::HighRes)
    } else if word / 0x10 == 0x00C {
        Some(Instr::ScrollDown(n))
    } else if word / 0x10 == 0x00B {
        Some(Instr::ScrollUp(n))
    } else if hi == 0x1 {
        Some(Instr::Jump(nnn))
    } else if hi == 0x2 {
        Some(Instr::Call(nnn))
    } else if hi == 0x3 {
        Some(Instr::SkipEqImm(x, nn))
    } else if hi == 0x4 {
        Some(Instr::SkipNeImm(x, nn))
    } else if hi == 0x5 {
        if n == 0 {
            Some(Instr::SkipEqReg(x, y))
        } else {
            None
        }
    } else if hi == 0x6 {
        Some(Instr::SetImm(x, nn))
    } else if hi == 0x7 {
        Some(Instr::AddImm(x, nn))
    } else if hi == 0x8 {
        if n == 0x0 {
            Some(Instr::Move(x, y))
        } else if n == 0x1 {
            Some(Instr::Or(x, y))
        } else if n == 0x2 {
            Some(Instr::And(x, y))
        } else if n == 0x3 {
            Some(Instr::Xor(x, y))
        } else if n == 0x4 {
            Some(Instr::Add(x, y))
        } else if n == 0x5 {
            Some(Instr::Sub(x, y))
        } else if n == 0x6 {
            Some(Instr::Shr(x))
        } else if n == 0x7 {
            Some(Instr::SubFrom(x, y))
        } else if n == 0xE {
            Some(Instr::Shl(x))
        } else {
            None
        }
    } else if hi == 0x9 {
        if n == 0 {
            Some(Instr::SkipNeReg(x, y))
        } else {
            None
        }
    } else if hi == 0xA {
        Some(Instr::SetIndex(nnn))
    } else if hi == 0xB {
        Some(Instr::JumpV0(nnn))
    } else if hi == 0xC {
        Some(Instr::Random(x, nn))
    } else if hi == 0xD {
        Some(Instr::Draw(x, y, n))
    } else if hi == 0xE {
        if nn == 0x9E {
            Some(Instr::SkipKey(x))
        } else if nn == 0xA1 {
            Some(Instr::SkipNoKey(x))
        } else {
            None
        }
    } else if hi == 0xF {
        if nn == 0x07 {
            Some(Instr::GetDelay(x))
        } else if nn == 0x0A {
            Some(Instr::WaitKey(x))
        } else if nn == 0x15 {
            Some(Instr::SetDelay(x))
        } else if nn == 0x18 {
            Some(Instr::SetSound(x))
        } else if nn == 0x1E {
            Some(Instr::AddIndex(x))
        } else if nn == 0x29 {
            Some(Instr::FontSprite(x))
        } else if nn == 0x33 {
            Some(Instr::StoreBcd(x))
        } else if nn == 0x55 {
            Some(Instr::StoreRegs(x))
        } else if nn == 0x65 {
            Some(Instr::LoadRegs(x))
        } else if nn == 0x75 {
            Some(Instr::SaveFlags(x))
        } else if nn == 0x85 {
            Some(Instr::LoadFlags(x))
        } else {
            None
        }
    } else {
        None
    }
}

/// Whatever a word decodes to has all operands in range.
pub proof fn lemma_decode_wf(word: u16)
    ensures
        spec_decode(word) matches Some(op) ==> instr_wf(op),
{
}

/// Decodes one instruction word against the opcode table.
pub fn decode(word: u16) -> (r: Option<Instr>)
    ensures
        r == spec_decode(word),
        r matches Some(op) ==> instr_wf(op),
{
    proof {
        lemma_decode_wf(word);
    }
    let x = ((word / 0x100) % 0x10) as u8;
    let y = ((word / 0x10) % 0x10) as u8;
    let n = (word % 0x10) as u8;
    let nn = (word % 0x100) as u8;
    let nnn = word % 0x1000;
    let hi = word / 0x1000;
    if word == 0x00E0 {
        Some(Instr::Cls)
    } else if word == 0x00EE {
        Some(Instr::Ret)
    } else if word == 0x00FE {
        Some(Instr::LowRes)
    } else if word == 0x00FF {
        Some(Instr::HighRes)
    } else if word / 0x10 == 0x00C {
        Some(Instr::ScrollDown(n))
    } else if word / 0x10 == 0x00B {
        Some(Instr::ScrollUp(n))
    } else if hi == 0x1 {
        Some(Instr::Jump(nnn))
    } else if hi == 0x2 {
        Some(Instr::Call(nnn))
    } else if hi == 0x3 {
        Some(Instr::SkipEqImm(x, nn))
    } else if hi == 0x4 {
        Some(Instr::SkipNeImm(x, nn))
    } else if hi == 0x5 {
        if n == 0 {
            Some(Instr::SkipEqReg(x, y))
        } else {
            None
        }
    } else if hi == 0x6 {
        Some(Instr::SetImm(x, nn))
    } else if hi == 0x7 {
        Some(Instr::AddImm(x, nn))
    } else if hi == 0x8 {
        if n == 0x0 {
            Some(Instr::Move(x, y))
        } else if n == 0x1 {
            Some(Instr::Or(x, y))
        } else if n == 0x2 {
            Some(Instr::And(x, y))
        } else if n == 0x3 {
            Some(Instr::Xor(x, y))
        } else if n == 0x4 {
            Some(Instr::Add(x, y))
        } else if n == 0x5 {
            Some(Instr::Sub(x, y))
        } else if n == 0x6 {
            Some(Instr::Shr(x))
        } else if n == 0x7 {
            Some(Instr::SubFrom(x, y))
        } else if n == 0xE {
            Some(Instr::Shl(x))
        } else {
            None
        }
    } else if hi == 0x9 {
        if n == 0 {
            Some(Instr::SkipNeReg(x, y))
        } else {
            None
        }
    } else if hi == 0xA {
        Some(Instr::SetIndex(nnn))
    } else if hi == 0xB {
        Some(Instr::JumpV0(nnn))
    } else if hi == 0xC {
        Some(Instr::Random(x, nn))
    } else if hi == 0xD {
        Some(Instr::Draw(x, y, n))
    } else if hi == 0xE {
        if nn == 0x9E {
            Some(Instr::SkipKey(x))
        } else if nn == 0xA1 {
            Some(Instr::SkipNoKey(x))
        } else {
            None
        }
    } else if hi == 0xF {
        if nn == 0x07 {
            Some(Instr::GetDelay(x))
        } else if nn == 0x0A {
            Some(Instr::WaitKey(x))
        } else if nn == 0x15 {
            Some(Instr::SetDelay(x))
        } else if nn == 0x18 {
            Some(Instr::SetSound(x))
        } else if nn == 0x1E {
            Some(Instr::AddIndex(x))
        } else if nn == 0x29 {
            Some(Instr::FontSprite(x))
        } else if nn == 0x33 {
            Some(Instr::StoreBcd(x))
        } else if nn == 0x55 {
            Some(Instr::StoreRegs(x))
        } else if nn == 0x65 {
            Some(Instr::LoadRegs(x))
        } else if nn == 0x75 {
            Some(Instr::SaveFlags(x))
        } else if nn == 0x85 {
            Some(Instr::LoadFlags(x))
        } else {
            None
        }
    } else {
        None
    }
}

} // verus!
