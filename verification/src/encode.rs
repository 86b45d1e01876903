//! Encoding of 16-bit instructions: the inverse of their decoding.

use crate::ast::{Register, Thumb16};
use crate::decode::{decode16, lemma_fields16, sign_extend};
use vstd::prelude::*;

verus! {

/// The 16-bit pattern that encodes an instruction. Of a field that is too
/// wide for its place in the pattern, the low bits are encoded.
pub open spec fn encode16(t: Thumb16) -> u16 {
    match t {
        Thumb16::AddsRegT1(rm, rn, rd) => 0x1800 | ((rm.code() as u16) << 6) | ((rn.code() as u16) << 3) | (
        rd.code() as u16),
        Thumb16::AddsImmT1(imm32, rn, rd) => 0x1C00 | (((imm32 & 7) as u16) << 6) | ((rn.code() as u16) << 3) | (
        rd.code() as u16),
        Thumb16::MovsImmT1(rd, imm32) => 0x2000 | ((rd.code() as u16) << 8) | ((imm32 & 0xFF) as u16),
        Thumb16::CmpImmT1(rn, imm32) => 0x2800 | ((rn.code() as u16) << 8) | ((imm32 & 0xFF) as u16),
        Thumb16::DataProc(op, rm, rdn) => 0x4000 | ((op.code() as u16) << 6) | ((rm.code() as u16) << 3) | (
        rdn.code() as u16),
        Thumb16::MovT1(rm, rd) => 0x4600 | (((rd.code() as u16) & 8) << 4) | ((rm.code() as u16) << 3) | ((
        rd.code() as u16) & 7),
        Thumb16::BxT1(rm) => 0x4700 | ((rm.code() as u16) << 3),
        Thumb16::LdrImmT1(rt, imm32) => 0x4800 | ((rt.code() as u16) << 8) | (((imm32 >> 2) & 0xFF) as u16),
        Thumb16::STRImmT2(rt, imm32) => 0x9000 | ((rt.code() as u16) << 8) | (((imm32 >> 2) & 0xFF) as u16),
        Thumb16::AddSpImmT1(rd, imm32) => if rd == Register::MSP {
            0xB000 | (((imm32 >> 2) & 0x7F) as u16)
        } else {
            0xA800 | ((rd.code() as u16) << 8) | (((imm32 >> 2) & 0xFF) as u16)
        },
        Thumb16::SubSpSpImmT1(imm32) => 0xB080 | (((imm32 >> 2) & 0x7F) as u16),
        Thumb16::Push(list) => 0xB400 | ((list.0 >> 6) & 0x100) | (list.0 & 0xFF),
        Thumb16::Bkpt(imm32) => 0xBE00 | ((imm32 & 0xFF) as u16),
        Thumb16::Stm(rn, list) => 0xC000 | ((rn.code() as u16) << 8) | (list.0 & 0xFF),
        Thumb16::Ldm(rn, list) => 0xC800 | ((rn.code() as u16) << 8) | (list.0 & 0xFF),
        Thumb16::UdfT1(imm32) => 0xDE00 | ((imm32 & 0xFF) as u16),
        Thumb16::BImmT1(cond, imm32) => 0xD000 | ((cond.code() as u16) << 8) | (((imm32 >> 1) & 0xFF) as u16),
        Thumb16::BT2(imm32) => 0xE000 | (((imm32 >> 1) & 0x7FF) as u16),
    }
}

/// Each pattern is the fixed bits of its encoding together with its fields.
proof fn lemma_fields_make_pattern(h: u16)
    by (bit_vector)
    ensures
        h & 0xFE00 == 0x1800 ==> 0x1800 | (((h >> 6) & 7) << 6) | (((h >> 3) & 7) << 3) | ((h >> 0) & 7) == h,
        h & 0xFE00 == 0x1C00 ==> 0x1C00 | (((h >> 6) & 7) << 6) | (((h >> 3) & 7) << 3) | ((h >> 0) & 7) == h,
        h & 0xF800 == 0x2000 ==> 0x2000 | (((h >> 8) & 7) << 8) | (h & 0xFF) == h,
        h & 0xF800 == 0x2800 ==> 0x2800 | (((h >> 8) & 7) << 8) | (h & 0xFF) == h,
        h & 0xFC00 == 0x4000 ==> 0x4000 | (((h >> 6) & 0xF) << 6) | (((h >> 3) & 7) << 3) | ((h >> 0) & 7) == h,
        h & 0xFF00 == 0x4600 ==> 0x4600 | (((((h >> 4) & 8) | (h & 7)) & 8) << 4) | (((h >> 3) & 0xF) << 3) | ((((h
            >> 4) & 8) | (h & 7)) & 7) == h,
        h & 0xFF87 == 0x4700 ==> 0x4700 | (((h >> 3) & 0xF) << 3) == h,
        h & 0xF800 == 0x4800 ==> 0x4800 | (((h >> 8) & 7) << 8) | (h & 0xFF) == h,
        h & 0xF800 == 0x9000 ==> 0x9000 | (((h >> 8) & 7) << 8) | (h & 0xFF) == h,
        h & 0xF800 == 0xA800 ==> 0xA800 | (((h >> 8) & 7) << 8) | (h & 0xFF) == h,
        h & 0xFF80 == 0xB000 ==> 0xB000 | (h & 0x7F) == h,
        h & 0xFF80 == 0xB080 ==> 0xB080 | (h & 0x7F) == h,
        h & 0xFE00 == 0xB400 ==> 0xB400 | (((((h & 0x100) << 6) | (h & 0xFF)) >> 6) & 0x100) | ((((h & 0x100) << 6)
            | (h & 0xFF)) & 0xFF) == h,
        h & 0xFF00 == 0xBE00 ==> 0xBE00 | (h & 0xFF) == h,
        h & 0xF800 == 0xC000 ==> 0xC000 | (((h >> 8) & 7) << 8) | ((h & 0xFF) & 0xFF) == h,
        h & 0xF800 == 0xC800 ==> 0xC800 | (((h >> 8) & 7) << 8) | ((h & 0xFF) & 0xFF) == h,
        h & 0xFF00 == 0xDE00 ==> 0xDE00 | (h & 0xFF) == h,
        h & 0xF000 == 0xD000 ==> 0xD000 | (((h >> 8) & 0xF) << 8) | (h & 0xFF) == h,
        h & 0xF800 == 0xE000 ==> 0xE000 | (h & 0x7FF) == h,
{
}

/// The fields of the immediates, read back from the decoded values.
proof fn lemma_immediates_read_back(h: u16)
    by (bit_vector)
    ensures
        ((((h >> 6) & 7) as u32) & 7) as u16 == (h >> 6) & 7,
        (((h & 0xFF) as u32) & 0xFF) as u16 == h & 0xFF,
        ((((4 * (h & 0xFF)) as u32) >> 2) & 0xFF) as u16 == h & 0xFF,
        ((((4 * (h & 0x7F)) as u32) >> 2) & 0x7F) as u16 == h & 0x7F,
        ((sign_extend(2 * (h & 0xFF), 0x100) >> 1) & 0xFF) as u16 == h & 0xFF,
        ((sign_extend(2 * (h & 0x7FF), 0x800) >> 1) & 0x7FF) as u16 == h & 0x7FF,
        h & 0x0F00 != 0x0F00 ==> (h >> 8) & 0xF < 15,
{
}

/// Decoding followed by encoding gives back the pattern: every 16-bit
/// pattern that decodes is the encoding of the instruction it decodes to.
pub proof fn lemma_decode16_then_encode16(h: u16)
    ensures
        decode16(h) matches Some(t) ==> encode16(t) == h,
{
    reveal(decode16);
    lemma_fields16(h);
    lemma_fields_make_pattern(h);
    lemma_immediates_read_back(h);
}

fn register_bits(r: Register) -> (bits: u16)
    ensures
        bits == r.code(),
{
    u8::from(r) as u16
}

/// Encodes a 16-bit instruction.
pub fn assemble16(t: &Thumb16) -> (h: u16)
    ensures
        h == encode16(*t),
{
    match *t {
        Thumb16::AddsRegT1(rm, rn, rd) => 0x1800 | (register_bits(rm) << 6) | (register_bits(rn) << 3)
            | register_bits(rd),
        Thumb16::AddsImmT1(imm32, rn, rd) => 0x1C00 | (low_bits(imm32, 7) << 6) | (register_bits(rn) << 3)
            | register_bits(rd),
        Thumb16::MovsImmT1(rd, imm32) => 0x2000 | (register_bits(rd) << 8) | low_bits(imm32, 0xFF),
        Thumb16::CmpImmT1(rn, imm32) => 0x2800 | (register_bits(rn) << 8) | low_bits(imm32, 0xFF),
        Thumb16::DataProc(op, rm, rdn) => 0x4000 | ((u8::from(op) as u16) << 6) | (register_bits(rm) << 3)
            | register_bits(rdn),
        Thumb16::MovT1(rm, rd) => 0x4600 | ((register_bits(rd) & 8) << 4) | (register_bits(rm) << 3) | (
        register_bits(rd) & 7),
        Thumb16::BxT1(rm) => 0x4700 | (register_bits(rm) << 3),
        Thumb16::LdrImmT1(rt, imm32) => 0x4800 | (register_bits(rt) << 8) | low_bits(imm32 >> 2, 0xFF),
        Thumb16::STRImmT2(rt, imm32) => 0x9000 | (register_bits(rt) << 8) | low_bits(imm32 >> 2, 0xFF),
        Thumb16::AddSpImmT1(rd, imm32) => if rd == Register::MSP {
            0xB000 | low_bits(imm32 >> 2, 0x7F)
        } else {
            0xA800 | (register_bits(rd) << 8) | low_bits(imm32 >> 2, 0xFF)
        },
        Thumb16::SubSpSpImmT1(imm32) => 0xB080 | low_bits(imm32 >> 2, 0x7F),
        Thumb16::Push(list) => 0xB400 | ((list.0 >> 6) & 0x100) | (list.0 & 0xFF),
        Thumb16::Bkpt(imm32) => 0xBE00 | low_bits(imm32, 0xFF),
        Thumb16::Stm(rn, list) => 0xC000 | (register_bits(rn) << 8) | (list.0 & 0xFF),
        Thumb16::Ldm(rn, list) => 0xC800 | (register_bits(rn) << 8) | (list.0 & 0xFF),
        Thumb16::UdfT1(imm32) => 0xDE00 | low_bits(imm32, 0xFF),
        Thumb16::BImmT1(cond, imm32) => 0xD000 | ((u8::from(cond) as u16) << 8) | low_bits(imm32 >> 1, 0xFF),
        Thumb16::BT2(imm32) => 0xE000 | low_bits(imm32 >> 1, 0x7FF),
    }
}

/// The bits of `value` under a mask that fits in 16 bits.
fn low_bits(value: u32, mask: u32) -> (bits: u16)
    requires
        mask <= 0xFFFF,
    ensures
        bits == (value & mask) as u16,
{
    assert(value & mask <= 0xFFFF) by (bit_vector)
        requires
            mask <= 0xFFFF,
    ;
    (value & mask) as u16
}

} // verus!
