//! Decoding of the Thumb instruction stream.
//!
//! The specification of the decoder is a flat table: one line per encoding,
//! giving the mask and pattern of its fixed bits and the meaning of its
//! fields. The executable decoder walks the architecture's hierarchy of
//! opcode groups instead, and is proved to agree with the table.

use crate::ast::{Cond, DpOpcode, Register, RegisterList, SpecialRegister, Thumb, Thumb16, Thumb32};
use crate::Error;
use vstd::prelude::*;
use vstd::slice::slice_subrange;

verus! {

/// The register numbered `n`.
pub open spec fn register(n: int) -> Register
    recommends
        0 <= n < 16,
{
    match Register::from_code(n as u8) {
        Some(r) => r,
        None => Register::PC,
    }
}

/// The register named by the three bits of `h` that start at bit `lo`.
pub open spec fn low_register(h: u16, lo: u16) -> Register {
    register(((h >> lo) & 7) as int)
}

/// The data-processing operation numbered `n`.
pub open spec fn dp_opcode(n: int) -> DpOpcode
    recommends
        0 <= n < 16,
{
    match DpOpcode::from_code(n as u8) {
        Some(op) => op,
        None => DpOpcode::MVN,
    }
}

/// The condition numbered `n`.
pub open spec fn condition(n: int) -> Cond
    recommends
        0 <= n < 15,
{
    match Cond::from_code(n as u8) {
        Some(c) => c,
        None => Cond::AL,
    }
}

/// The 32-bit two's-complement pattern of the number that `value` stands for
/// when it is read as a signed field whose sign bit weighs `sign`.
pub open spec fn sign_extend(value: int, sign: int) -> u32
    recommends
        0 < sign <= 0x8000_0000,
        0 <= value < 2 * sign,
{
    if value >= sign {
        (value - 2 * sign + 0x1_0000_0000) as u32
    } else {
        value as u32
    }
}

/// The instruction that the 16-bit pattern `h` encodes, if any.
#[verifier::opaque]
pub open spec fn decode16(h: u16) -> Option<Thumb16> {
    if h & 0xFE00 == 0x1800 {
        Some(Thumb16::AddsRegT1(low_register(h, 6), low_register(h, 3), low_register(h, 0)))
    } else if h & 0xFE00 == 0x1C00 {
        Some(Thumb16::AddsImmT1(((h >> 6) & 7) as u32, low_register(h, 3), low_register(h, 0)))
    } else if h & 0xF800 == 0x2000 {
        Some(Thumb16::MovsImmT1(low_register(h, 8), (h & 0xFF) as u32))
    } else if h & 0xF800 == 0x2800 {
        Some(Thumb16::CmpImmT1(low_register(h, 8), (h & 0xFF) as u32))
    } else if h & 0xFC00 == 0x4000 {
        Some(Thumb16::DataProc(dp_opcode(((h >> 6) & 0xF) as int), low_register(h, 3), low_register(h, 0)))
    } else if h & 0xFF00 == 0x4600 {
        Some(Thumb16::MovT1(register(((h >> 3) & 0xF) as int), register((((h >> 4) & 8) | (h & 7)) as int)))
    } else if h & 0xFF87 == 0x4700 {
        Some(Thumb16::BxT1(register(((h >> 3) & 0xF) as int)))
    } else if h & 0xF800 == 0x4800 {
        Some(Thumb16::LdrImmT1(low_register(h, 8), (4 * (h & 0xFF)) as u32))
    } else if h & 0xF800 == 0x9000 {
        Some(Thumb16::STRImmT2(low_register(h, 8), (4 * (h & 0xFF)) as u32))
    } else if h & 0xF800 == 0xA800 {
        Some(Thumb16::AddSpImmT1(low_register(h, 8), (4 * (h & 0xFF)) as u32))
    } else if h & 0xFF80 == 0xB000 {
        Some(Thumb16::AddSpImmT1(Register::MSP, (4 * (h & 0x7F)) as u32))
    } else if h & 0xFF80 == 0xB080 {
        Some(Thumb16::SubSpSpImmT1((4 * (h & 0x7F)) as u32))
    } else if h & 0xFE00 == 0xB400 {
        Some(Thumb16::Push(RegisterList(((h & 0x100) << 6) | (h & 0xFF))))
    } else if h & 0xFF00 == 0xBE00 {
        Some(Thumb16::Bkpt((h & 0xFF) as u32))
    } else if h & 0xF800 == 0xC000 {
        Some(Thumb16::Stm(low_register(h, 8), RegisterList(h & 0xFF)))
    } else if h & 0xF800 == 0xC800 {
        Some(Thumb16::Ldm(low_register(h, 8), RegisterList(h & 0xFF)))
    } else if h & 0xFF00 == 0xDE00 {
        Some(Thumb16::UdfT1((h & 0xFF) as u32))
    } else if h & 0xF000 == 0xD000 && h & 0x0F00 != 0x0F00 {
        Some(Thumb16::BImmT1(condition(((h >> 8) & 0xF) as int), sign_extend(2 * (h & 0xFF), 0x100)))
    } else if h & 0xF800 == 0xE000 {
        Some(Thumb16::BT2(sign_extend(2 * (h & 0x7FF), 0x800)))
    } else {
        None
    }
}

/// How the opcode groups that the executable decoder tests relate to the
/// masks and patterns of the table.
proof fn lemma_groups16(h: u16)
    by (bit_vector)
    ensures
        h & 0xFE00 == 0x1800 <==> (h >> 10 <= 0xF && (h >> 9) & 0x1F == 0xC),
        h & 0xFE00 == 0x1C00 <==> (h >> 10 <= 0xF && (h >> 9) & 0x1F == 0xE),
        h & 0xF800 == 0x2000 <==> (h >> 10 <= 0xF && 0x10 <= (h >> 9) & 0x1F <= 0x13),
        h & 0xF800 == 0x2800 <==> (h >> 10 <= 0xF && 0x14 <= (h >> 9) & 0x1F <= 0x17),
        h & 0xFC00 == 0x4000 <==> h >> 10 == 0x10,
        h & 0xFF00 == 0x4600 <==> (h >> 10 == 0x11 && 0x8 <= (h >> 6) & 0xF <= 0xB),
        h & 0xFF87 == 0x4700 <==> (h >> 10 == 0x11 && 0xC <= (h >> 6) & 0xF <= 0xD && h & 7 == 0),
        h & 0xF800 == 0x4800 <==> 0x12 <= h >> 10 <= 0x13,
        h & 0xF800 == 0x9000 <==> 0x24 <= h >> 10 <= 0x25,
        h & 0xF800 == 0xA800 <==> 0x2A <= h >> 10 <= 0x2B,
        h & 0xFF80 == 0xB000 <==> (0x2C <= h >> 10 <= 0x2F && (h >> 7) & 0x1F == 0),
        h & 0xFF80 == 0xB080 <==> (0x2C <= h >> 10 <= 0x2F && (h >> 7) & 0x1F == 1),
        h & 0xFE00 == 0xB400 <==> (0x2C <= h >> 10 <= 0x2F && 0x8 <= (h >> 7) & 0x1F <= 0xB),
        h & 0xFF00 == 0xBE00 <==> (0x2C <= h >> 10 <= 0x2F && 0x1C <= (h >> 7) & 0x1F <= 0x1D),
        h & 0xF800 == 0xC000 <==> 0x30 <= h >> 10 <= 0x31,
        h & 0xF800 == 0xC800 <==> 0x32 <= h >> 10 <= 0x33,
        h & 0xFF00 == 0xDE00 <==> (0x34 <= h >> 10 <= 0x37 && (h >> 8) & 0xF == 0xE),
        (h & 0xF000 == 0xD000 && h & 0x0F00 != 0x0F00) <==> (0x34 <= h >> 10 <= 0x37 && (h >> 8) & 0xF != 0xF),
        h & 0xF800 == 0xE000 <==> 0x38 <= h >> 10 <= 0x39,
{
}

/// The ranges of the fields, and their executable forms.
pub(crate) proof fn lemma_fields16(h: u16)
    by (bit_vector)
    ensures
        (h >> 6) & 7 < 8,
        (h >> 3) & 7 < 8,
        (h >> 0) & 7 < 8,
        (h >> 8) & 7 < 8,
        (h >> 6) & 0xF < 16,
        (h >> 3) & 0xF < 16,
        (h >> 8) & 0xF < 16,
        ((h >> 4) & 8) | (h & 7) < 16,
        h & 0xFF < 256,
        h & 0x7F < 128,
        h & 0x7FF < 2048,
        ((h & 0xFF) as u32) << 2 == 4 * (h & 0xFF),
        ((h & 0x7F) as u32) << 2 == 4 * (h & 0x7F),
{
}

/// The register named by three bits of an instruction.
fn register_field(instr: u16, lo: u16) -> (r: Register)
    requires
        lo == 0 || lo == 3 || lo == 6 || lo == 8,
    ensures
        r == low_register(instr, lo),
{
    proof {
        lemma_fields16(instr);
    }
    let n: u16 = (instr >> lo) & 0b111;
    let r = Register::try_from(n as u8);
    r.unwrap()
}

/// The register named by a 4-bit number.
fn register_numbered(n: u8) -> (r: Register)
    requires
        n < 16,
    ensures
        r == register(n as int),
{
    let r = Register::try_from(n);
    r.unwrap()
}

/// Sign extension by an arithmetic shift agrees with its arithmetic meaning.
proof fn lemma_sign_extend16(h: u16)
    by (bit_vector)
    ensures
        ((((((h & 0xFF) as u32) << 1) << 23) as i32) >> 23) as u32 == sign_extend(2 * (h & 0xFF), 0x100),
        ((((((h & 0x7FF) as u32) << 1) << 20) as i32) >> 20) as u32 == sign_extend(2 * (h & 0x7FF), 0x800),
{
}

/// Reads a field that was left-aligned in 32 bits as a signed number: an
/// arithmetic shift brings it back down and copies its sign bit into the bits
/// above it.
fn arithmetic_shift_right(aligned: u32, shift: u32) -> (r: u32)
    requires
        shift < 32,
    ensures
        r == ((aligned as i32) >> shift) as u32,
{
    let signed: i32 = #[verifier::truncate] (aligned as i32);
    #[verifier::truncate] ((signed >> shift) as u32)
}

/// Decodes one 16-bit instruction.
///
/// The pattern is resolved group by group: first the six bits at the top, then
/// the narrower fields that the group defines. A pattern of a group that is
/// not modelled gives `IllegalEncoding`.
pub fn disassemble16(instr: u16) -> (r: Result<Thumb16, Error>)
    ensures
        r == (match decode16(instr) {
            Some(t) => Ok::<Thumb16, Error>(t),
            None => Err(Error::IllegalEncoding),
        }),
{
    proof {
        reveal(decode16);
        lemma_groups16(instr);
        lemma_fields16(instr);
        lemma_sign_extend16(instr);
    }
    let op6: u16 = instr >> 10;
    if op6 <= 0b001111 {
        // Shift (immediate), add, subtract, move and compare.
        let op5: u16 = (instr >> 9) & 0b11111;
        if op5 == 0b01100 {
            let rm = register_field(instr, 6);
            let rn = register_field(instr, 3);
            let rd = register_field(instr, 0);
            Ok(Thumb16::AddsRegT1(rm, rn, rd))
        } else if op5 == 0b01110 {
            let imm32: u32 = ((instr >> 6) & 0b111) as u32;
            let rn = register_field(instr, 3);
            let rd = register_field(instr, 0);
            Ok(Thumb16::AddsImmT1(imm32, rn, rd))
        } else if 0b10000 <= op5 && op5 <= 0b10011 {
            let imm32: u32 = (instr & 0xFF) as u32;
            let rd = register_field(instr, 8);
            Ok(Thumb16::MovsImmT1(rd, imm32))
        } else if 0b10100 <= op5 && op5 <= 0b10111 {
            let imm32: u32 = (instr & 0xFF) as u32;
            let rn = register_field(instr, 8);
            Ok(Thumb16::CmpImmT1(rn, imm32))
        } else {
            Err(Error::IllegalEncoding)
        }
    } else if op6 == 0b010000 {
        // Data processing.
        let index: u16 = (instr >> 6) & 0b1111;
        let op = DpOpcode::try_from(index as u8);
        let rm = register_field(instr, 3);
        let rdn = register_field(instr, 0);
        Ok(Thumb16::DataProc(op.unwrap(), rm, rdn))
    } else if op6 == 0b010001 {
        // Special data instructions, branch and exchange.
        let op4: u16 = (instr >> 6) & 0b1111;
        if 0b1000 <= op4 && op4 <= 0b1011 {
            let rm = register_numbered(((instr >> 3) & 0b1111) as u8);
            let rd = register_numbered((((instr >> 4) & 0b1000) | (instr & 0b111)) as u8);
            Ok(Thumb16::MovT1(rm, rd))
        } else if 0b1100 <= op4 && op4 <= 0b1101 && instr & 0b111 == 0 {
            let rm = register_numbered(((instr >> 3) & 0b1111) as u8);
            Ok(Thumb16::BxT1(rm))
        } else {
            Err(Error::IllegalEncoding)
        }
    } else if 0b010010 <= op6 && op6 <= 0b010011 {
        // Load from the literal pool.
        let rt = register_field(instr, 8);
        let imm32: u32 = ((instr & 0xFF) as u32) << 2;
        Ok(Thumb16::LdrImmT1(rt, imm32))
    } else if 0b100100 <= op6 && op6 <= 0b100101 {
        // Store relative to the stack pointer.
        let rt = register_field(instr, 8);
        let imm32: u32 = ((instr & 0xFF) as u32) << 2;
        Ok(Thumb16::STRImmT2(rt, imm32))
    } else if 0b101010 <= op6 && op6 <= 0b101011 {
        // Address relative to the stack pointer.
        let rd = register_field(instr, 8);
        let imm32: u32 = ((instr & 0xFF) as u32) << 2;
        Ok(Thumb16::AddSpImmT1(rd, imm32))
    } else if 0b101100 <= op6 && op6 <= 0b101111 {
        // Miscellaneous 16-bit instructions.
        let op5: u16 = (instr >> 7) & 0b11111;
        if op5 == 0b00000 {
            let imm32: u32 = ((instr & 0x7F) as u32) << 2;
            Ok(Thumb16::AddSpImmT1(Register::MSP, imm32))
        } else if op5 == 0b00001 {
            let imm32: u32 = ((instr & 0x7F) as u32) << 2;
            Ok(Thumb16::SubSpSpImmT1(imm32))
        } else if 0b01000 <= op5 && op5 <= 0b01011 {
            let registers: u16 = ((instr & 0x100) << 6) | (instr & 0xFF);
            Ok(Thumb16::Push(RegisterList(registers)))
        } else if 0b11100 <= op5 && op5 <= 0b11101 {
            let imm32: u32 = (instr & 0xFF) as u32;
            Ok(Thumb16::Bkpt(imm32))
        } else {
            Err(Error::IllegalEncoding)
        }
    } else if 0b110000 <= op6 && op6 <= 0b110001 {
        // Store multiple registers.
        let rn = register_field(instr, 8);
        Ok(Thumb16::Stm(rn, RegisterList(instr & 0xFF)))
    } else if 0b110010 <= op6 && op6 <= 0b110011 {
        // Load multiple registers.
        let rn = register_field(instr, 8);
        Ok(Thumb16::Ldm(rn, RegisterList(instr & 0xFF)))
    } else if 0b110100 <= op6 && op6 <= 0b110111 {
        // Conditional branch, permanently undefined, supervisor call.
        let op4: u16 = (instr >> 8) & 0b1111;
        if op4 == 0b1110 {
            let imm32: u32 = (instr & 0xFF) as u32;
            Ok(Thumb16::UdfT1(imm32))
        } else if op4 == 0b1111 {
            Err(Error::IllegalEncoding)
        } else {
            let cond = Cond::try_from(op4 as u8);
            let field: u32 = ((instr & 0xFF) as u32) << 1;
            let imm32 = arithmetic_shift_right(field << 23, 23);
            Ok(Thumb16::BImmT1(cond.unwrap(), imm32))
        }
    } else if 0b111000 <= op6 && op6 <= 0b111001 {
        // Unconditional branch.
        let field: u32 = ((instr & 0x7FF) as u32) << 1;
        let imm32 = arithmetic_shift_right(field << 20, 20);
        Ok(Thumb16::BT2(imm32))
    } else {
        Err(Error::IllegalEncoding)
    }
}

/// The offset of a branch with link: the fields S, I1, I2, imm10 and imm11 put
/// together, doubled and sign-extended from 25 bits, where I1 and I2 are the
/// bits J1 and J2 of the encoding, each inverted unless it equals S.
pub open spec fn bl_offset(w: u32) -> u32 {
    let s = (w >> 26) & 1;
    let j1 = (w >> 13) & 1;
    let j2 = (w >> 11) & 1;
    let i1: int = if j1 == s { 1 } else { 0 };
    let i2: int = if j2 == s { 1 } else { 0 };
    let imm10 = (w >> 16) & 0x3FF;
    let imm11 = w & 0x7FF;
    sign_extend(s * 0x100_0000 + i1 * 0x80_0000 + i2 * 0x40_0000 + imm10 * 0x1000 + imm11 * 2, 0x100_0000)
}

/// The instruction that the 32-bit pattern `w` encodes, if any. The first
/// halfword of the instruction stands in the upper 16 bits.
#[verifier::opaque]
pub open spec fn decode32(w: u32) -> Option<Thumb32> {
    if w & 0xF800_D000 == 0xF000_D000 {
        Some(Thumb32::BlT1(bl_offset(w)))
    } else if w & 0xFFF0_FF00 == 0xF380_8800 {
        match SpecialRegister::from_code((w & 0xFF) as u8) {
            Some(sr) => Some(Thumb32::MsrT1(register(((w >> 16) & 0xF) as int), sr)),
            None => None,
        }
    } else if w & 0xFFFF_F000 == 0xF3EF_8000 {
        match SpecialRegister::from_code((w & 0xFF) as u8) {
            Some(sr) => Some(Thumb32::MrsT1(register(((w >> 8) & 0xF) as int), sr)),
            None => None,
        }
    } else {
        None
    }
}

proof fn lemma_groups32(w: u32)
    by (bit_vector)
    ensures
        w & 0xF800_D000 == 0xF000_D000 <==> (w >> 27 == 0x1E && (w >> 15) & 1 == 1 && (w >> 12) & 5 == 5),
        w & 0xFFF0_FF00 == 0xF380_8800 <==> (w >> 27 == 0x1E && (w >> 15) & 1 == 1 && (w >> 12) & 5 != 5
            && (w >> 20) & 0x7F == 0x38 && (w >> 8) & 0xFF == 0x88),
        w & 0xFFFF_F000 == 0xF3EF_8000 <==> (w >> 27 == 0x1E && (w >> 15) & 1 == 1 && (w >> 12) & 5 != 5
            && (w >> 20) & 0x7F == 0x3E && (w >> 12) & 0xFF == 0xF8),
        (w >> 16) & 0xF < 16,
        (w >> 8) & 0xF < 16,
        w & 0xFF < 256,
{
}

proof fn lemma_bl_offset(w: u32)
    by (bit_vector)
    ensures
        ({
            let s = (w >> 26) & 1;
            let i1 = (!(((w >> 13) & 1) ^ s)) & 1;
            let i2 = (!(((w >> 11) & 1) ^ s)) & 1;
            let imm10 = (w >> 16) & 0x3FF;
            let imm11 = w & 0x7FF;
            ((((s << 24) | (i1 << 23) | (i2 << 22) | (imm10 << 12) | (imm11 << 1)) << 7) as i32 >> 7) as u32
        }) == bl_offset(w),
{
}

/// Decodes one 32-bit instruction, given with its first halfword in the upper
/// 16 bits.
pub fn disassemble32(instr: u32) -> (r: Result<Thumb32, Error>)
    ensures
        r == (match decode32(instr) {
            Some(t) => Ok::<Thumb32, Error>(t),
            None => Err(Error::IllegalEncoding),
        }),
{
    proof {
        reveal(decode32);
        lemma_groups32(instr);
        lemma_bl_offset(instr);
    }
    let op1: u32 = instr >> 27;
    let op2: u32 = (instr >> 15) & 0b1;
    if op1 == 0b11110 && op2 == 1 {
        // Branch and miscellaneous control.
        let op1: u32 = (instr >> 20) & 0b1111111;
        let op2: u32 = (instr >> 12) & 0b101;
        if op2 == 0b101 {
            let s: u32 = (instr >> 26) & 0b1;
            let j1: u32 = (instr >> 13) & 0b1;
            let j2: u32 = (instr >> 11) & 0b1;
            let imm10: u32 = (instr >> 16) & 0b1111111111;
            let imm11: u32 = instr & 0b11111111111;
            let i1: u32 = (!(j1 ^ s)) & 0b1;
            let i2: u32 = (!(j2 ^ s)) & 0b1;
            let field: u32 = (s << 24) | (i1 << 23) | (i2 << 22) | (imm10 << 12) | (imm11 << 1);
            let imm32 = arithmetic_shift_right(field << 7, 7);
            Ok(Thumb32::BlT1(imm32))
        } else if op1 == 0b0111000 && (instr >> 8) & 0xFF == 0x88 {
            match SpecialRegister::try_from((instr & 0xFF) as u8) {
                Ok(sr) => {
                    let rn = register_numbered(((instr >> 16) & 0b1111) as u8);
                    Ok(Thumb32::MsrT1(rn, sr))
                },
                Err(_) => Err(Error::IllegalEncoding),
            }
        } else if op1 == 0b0111110 && (instr >> 12) & 0xFF == 0xF8 {
            match SpecialRegister::try_from((instr & 0xFF) as u8) {
                Ok(sr) => {
                    let rd = register_numbered(((instr >> 8) & 0b1111) as u8);
                    Ok(Thumb32::MrsT1(rd, sr))
                },
                Err(_) => Err(Error::IllegalEncoding),
            }
        } else {
            Err(Error::IllegalEncoding)
        }
    } else {
        Err(Error::IllegalEncoding)
    }
}

/// The halfword whose bytes, low byte first, are `lo` and `hi`.
pub open spec fn halfword(lo: u8, hi: u8) -> u16 {
    (lo + 256 * hi) as u16
}

/// Whether an instruction that starts with the halfword `first` is 32 bits
/// wide: its five top bits are then 11101, 11110 or 11111.
pub open spec fn is_wide(first: u16) -> bool {
    first >= 0xE800
}

/// The first instruction of `bytes` and the number of bytes that it takes.
pub open spec fn decode(bytes: Seq<u8>) -> Result<(Thumb, nat), Error> {
    if bytes.len() < 2 {
        Err(Error::ChunkNotLongEnough)
    } else {
        let first = halfword(bytes[0], bytes[1]);
        if !is_wide(first) {
            match decode16(first) {
                Some(t) => Ok((Thumb::Thumb16(t), 2nat)),
                None => Err(Error::IllegalEncoding),
            }
        } else if bytes.len() < 4 {
            Err(Error::ChunkNotLongEnough)
        } else {
            let second = halfword(bytes[2], bytes[3]);
            match decode32((first * 0x1_0000 + second) as u32) {
                Some(t) => Ok((Thumb::Thumb32(t), 4nat)),
                None => Err(Error::IllegalEncoding),
            }
        }
    }
}

proof fn lemma_halfword(lo: u8, hi: u8)
    by (bit_vector)
    ensures
        (lo as u16) | ((hi as u16) << 8) == lo + 256 * hi,
        hi >> 3 >= 0x1D <==> lo + 256 * hi >= 0xE800,
{
}

proof fn lemma_word(first: u16, second: u16)
    by (bit_vector)
    ensures
        ((first as u32) << 16) | (second as u32) == first * 0x1_0000 + second,
{
}

fn halfword_at(chunk: &[u8], i: usize) -> (h: u16)
    requires
        i + 1 < chunk.len(),
    ensures
        h == halfword(chunk@[i as int], chunk@[i + 1]),
{
    proof {
        lemma_halfword(chunk@[i as int], chunk@[i + 1]);
    }
    (chunk[i] as u16) | ((chunk[i + 1] as u16) << 8)
}

/// Decodes the first instruction of `chunk` and hands back what follows it.
///
/// The width of the instruction is read from the five top bits of its first
/// halfword. A chunk that ends before the instruction does gives
/// `ChunkNotLongEnough`.
pub fn disassemble(chunk: &[u8]) -> (r: Result<(Thumb, &[u8]), Error>)
    ensures
        match decode(chunk@) {
            Ok((t, n)) => r matches Ok((thumb, rest)) && thumb == t && rest@ == chunk@.skip(n as int),
            Err(e) => r matches Err(err) && err == e,
        },
{
    if chunk.len() < 2 {
        return Err(Error::ChunkNotLongEnough);
    }
    proof {
        lemma_halfword(chunk@[0], chunk@[1]);
    }
    let first: u8 = chunk[1] >> 3;
    if first >= 0b11101 {
        if chunk.len() < 4 {
            return Err(Error::ChunkNotLongEnough);
        }
        let hw1 = halfword_at(chunk, 0);
        let hw2 = halfword_at(chunk, 2);
        proof {
            lemma_word(hw1, hw2);
        }
        let instr: u32 = ((hw1 as u32) << 16) | (hw2 as u32);
        let rest = slice_subrange(chunk, 4, chunk.len());
        match disassemble32(instr) {
            Ok(t) => Ok((Thumb::Thumb32(t), rest)),
            Err(e) => Err(e),
        }
    } else {
        let instr = halfword_at(chunk, 0);
        let rest = slice_subrange(chunk, 2, chunk.len());
        match disassemble16(instr) {
            Ok(t) => Ok((Thumb::Thumb16(t), rest)),
            Err(e) => Err(e),
        }
    }
}

} // verus!
