//! The mathematical model of the processor: its state as plain values, and
//! the meaning of every instruction as a function from state to state.

use super::arm_memmory::{le_bytes, le_value, written};
use crate::ast::{Cond, DpOpcode, Register, RegisterList, SpecialRegister, Thumb, Thumb16, Thumb32};
use crate::decode::decode;
use crate::Error;
use vstd::prelude::*;

verus! {

/// The four condition flags.
#[derive(Copy, Clone, Debug, PartialEq, Eq, Structural)]
pub struct Flags {
    /// Negative: bit 31 of the result.
    pub n: bool,
    /// Zero: the result is zero.
    pub z: bool,
    /// Carry: the unsigned sum did not fit in 32 bits.
    pub c: bool,
    /// Overflow: the signed sum did not fit in 32 bits.
    pub v: bool,
}

/// The number `i` reduced to 32 bits.
pub open spec fn wrap(i: int) -> u32 {
    (i % 0x1_0000_0000) as u32
}

/// The number that the 32-bit pattern `x` stands for in two's complement.
pub open spec fn signed(x: u32) -> int {
    if x >= 0x8000_0000 {
        x - 0x1_0000_0000
    } else {
        x as int
    }
}

/// The pattern `x` with every bit inverted.
pub open spec fn complement(x: u32) -> u32 {
    (0xFFFF_FFFF - x) as u32
}

/// `x` rounded down to a multiple of `y`.
pub open spec fn aligned(x: u32, y: u32) -> u32
    recommends
        y > 0,
{
    (x - x % y) as u32
}

/// The sum of two 32-bit numbers and a carry: the sum reduced to 32 bits,
/// whether the unsigned sum did not fit (carry out), and whether the signed
/// sum did not fit (overflow).
pub open spec fn add_with_carry(x: u32, y: u32, carry_in: bool) -> (u32, bool, bool) {
    let carry: int = if carry_in { 1 } else { 0 };
    let unsigned_sum = x + y + carry;
    let signed_sum = signed(x) + signed(y) + carry;
    let result = wrap(unsigned_sum);
    (result, result != unsigned_sum, signed(result) != signed_sum)
}

/// The flags that an addition with the given outcome sets.
pub open spec fn sum_flags(sum: (u32, bool, bool)) -> Flags {
    Flags { n: sum.0 >= 0x8000_0000, z: sum.0 == 0, c: sum.1, v: sum.2 }
}

/// Whether the condition holds under the flags.
pub open spec fn condition_passed(flags: Flags, cond: Cond) -> bool {
    match cond {
        Cond::EQ => flags.z,
        Cond::NE => !flags.z,
        Cond::CS => flags.c,
        Cond::CC => !flags.c,
        Cond::MI => flags.n,
        Cond::PL => !flags.n,
        Cond::VS => flags.v,
        Cond::VC => !flags.v,
        Cond::HI => flags.c && !flags.z,
        Cond::LS => !flags.c || flags.z,
        Cond::GE => flags.n == flags.v,
        Cond::LT => flags.n != flags.v,
        Cond::GT => flags.n == flags.v && !flags.z,
        Cond::LE => flags.n != flags.v || flags.z,
        Cond::AL => true,
    }
}

impl Flags {
    /// Whether the condition holds under the flags.
    ///
    /// The conditions come in pairs that share a base test; the second of
    /// each pair inverts it.
    pub fn condition_passed(&self, cond: Cond) -> (passed: bool)
        ensures
            passed == condition_passed(*self, cond),
    {
        let result = match cond {
            Cond::EQ | Cond::NE => self.z,
            Cond::CS | Cond::CC => self.c,
            Cond::MI | Cond::PL => self.n,
            Cond::VS | Cond::VC => self.v,
            Cond::HI | Cond::LS => self.c && !self.z,
            Cond::GE | Cond::LT => self.n == self.v,
            Cond::GT | Cond::LE => (self.n == self.v) && !self.z,
            Cond::AL => true,
        };
        match cond {
            Cond::NE | Cond::CC | Cond::PL | Cond::VC | Cond::LS | Cond::LT | Cond::LE => !result,
            _ => result,
        }
    }
}

/// The storage slot, out of twelve, that backs a special register.
pub open spec fn slot(sr: SpecialRegister) -> int {
    match sr {
        SpecialRegister::APSR => 0,
        SpecialRegister::IAPSR => 1,
        SpecialRegister::EAPSR => 2,
        SpecialRegister::XPSR => 3,
        SpecialRegister::IPSR => 5,
        SpecialRegister::EPSR => 6,
        SpecialRegister::IEPSR => 7,
        SpecialRegister::MSP => 8,
        SpecialRegister::PSP => 9,
        SpecialRegister::PRIMASK => 10,
        SpecialRegister::CONTROL => 11,
    }
}

/// The value that MRS reads from a special register, composed of the bit
/// ranges that the register owns: the five condition bits 31..27 of the APSR
/// slot, the exception number in the low byte of the IPSR slot, bit 0 of
/// PRIMASK and bits 1..0 of CONTROL. The execution status bits always read as
/// zero.
pub open spec fn mrs_value(special: Seq<u32>, sr: SpecialRegister) -> u32 {
    let apsr = special[0] & 0xF800_0000;
    let ipsr = special[5] & 0xFF;
    match sr {
        SpecialRegister::APSR => apsr,
        SpecialRegister::IAPSR => ipsr | apsr,
        SpecialRegister::EAPSR => apsr,
        SpecialRegister::XPSR => ipsr | apsr,
        SpecialRegister::IPSR => ipsr,
        SpecialRegister::EPSR => 0,
        SpecialRegister::IEPSR => ipsr,
        SpecialRegister::MSP => special[8],
        SpecialRegister::PSP => special[9],
        SpecialRegister::PRIMASK => special[10] & 1,
        SpecialRegister::CONTROL => special[11] & 3,
    }
}

/// The state of the processor.
pub struct CpuState {
    /// The sixteen registers, by number. Slot 15 holds the address of the
    /// instruction at hand.
    pub registers: Seq<u32>,
    /// The twelve slots that back the special registers.
    pub special_registers: Seq<u32>,
    pub flags: Flags,
    pub memory: Seq<u8>,
    /// Whether the program counter was written since the cycle began.
    pub should_branch: bool,
}

impl CpuState {
    /// Sixteen registers, twelve special slots, an even program counter, and
    /// a memory that spans the 32-bit address space.
    pub open spec fn wf(self) -> bool {
        &&& self.registers.len() == 16
        &&& self.special_registers.len() == 12
        &&& self.registers[15] % 2 == 0
        &&& self.memory.len() == 0x1_0000_0000
    }

    /// The state after reset: everything is zero.
    pub open spec fn reset() -> CpuState {
        CpuState {
            registers: Seq::new(16, |i: int| 0u32),
            special_registers: Seq::new(12, |i: int| 0u32),
            flags: Flags { n: false, z: false, c: false, v: false },
            memory: Seq::new(0x1_0000_0000, |i: int| 0u8),
            should_branch: false,
        }
    }

    /// What an instruction reads from a register: the stored value, but for
    /// the program counter, which reads 4 ahead.
    pub open spec fn read(self, r: Register) -> u32 {
        if r == Register::PC {
            wrap(self.registers[15] + 4)
        } else {
            self.registers[r.code() as int]
        }
    }

    /// The state after an instruction wrote a register. The program counter
    /// stores the value with bit 0 cleared, and the write marks the cycle as a
    /// branch.
    pub open spec fn write(self, r: Register, value: u32) -> CpuState {
        if r == Register::PC {
            CpuState { registers: self.registers.update(15, aligned(value, 2)), should_branch: true, ..self }
        } else {
            CpuState { registers: self.registers.update(r.code() as int, value), ..self }
        }
    }

    /// What the slot of a special register holds.
    pub open spec fn read_special(self, sr: SpecialRegister) -> u32 {
        self.special_registers[slot(sr)]
    }

    /// The state after `value` was written to the slot of a special register.
    pub open spec fn write_special(self, sr: SpecialRegister, value: u32) -> CpuState {
        CpuState { special_registers: self.special_registers.update(slot(sr), value), ..self }
    }

    /// The state with other flags.
    pub open spec fn with_flags(self, flags: Flags) -> CpuState {
        CpuState { flags, ..self }
    }

    /// Whether the four bytes of a word at `addr` lie within the memory.
    pub open spec fn word_in_bounds(self, addr: int) -> bool {
        0 <= addr && addr + 4 <= self.memory.len()
    }

    /// The word at `addr`, least significant byte first.
    pub open spec fn load_word(self, addr: int) -> u32
        recommends
            self.word_in_bounds(addr),
    {
        le_value(self.memory.subrange(addr, addr + 4))
    }

    /// The state after `value` was stored at `addr`, least significant byte
    /// first.
    pub open spec fn store_word(self, addr: int, value: u32) -> CpuState {
        CpuState { memory: written(self.memory, addr, le_bytes(value)), ..self }
    }

    /// The bytes of the values of `regs`, one word after the other.
    pub open spec fn register_bytes(self, regs: Seq<Register>) -> Seq<u8> {
        Seq::new(4 * regs.len(), |i: int| le_bytes(self.read(regs[i / 4]))[i % 4])
    }

    /// The state after the values of `regs` were stored as consecutive words
    /// from `addr` on.
    pub open spec fn store_registers(self, addr: int, regs: Seq<Register>) -> CpuState {
        CpuState { memory: written(self.memory, addr, self.register_bytes(regs)), ..self }
    }

    /// The state after `x + y + carry` was written to `rd`, with the flags
    /// of the sum if `setflags`.
    pub open spec fn add_to(self, rd: Register, x: u32, y: u32, carry: bool, setflags: bool) -> CpuState {
        let sum = add_with_carry(x, y, carry);
        if setflags {
            self.with_flags(sum_flags(sum)).write(rd, sum.0)
        } else {
            self.write(rd, sum.0)
        }
    }

    /// The state after the flags were set as by the subtraction `x - y`.
    pub open spec fn compare(self, x: u32, y: u32) -> CpuState {
        self.with_flags(sum_flags(add_with_carry(x, complement(y), true)))
    }

    /// The meaning of a register-to-register data-processing instruction on
    /// the registers `rm` and `rdn`. Only CMP and MVN are modelled.
    pub open spec fn data_proc(self, op: DpOpcode, rm: Register, rdn: Register) -> Result<CpuState, Error> {
        match op {
            DpOpcode::CMP => Ok(self.compare(self.read(rdn), self.read(rm))),
            DpOpcode::MVN => {
                let result = complement(self.read(rm));
                let flags = Flags { n: result >= 0x8000_0000, z: result == 0, c: false, v: self.flags.v };
                Ok(self.with_flags(flags).write(rdn, result))
            },
            _ => Err(Error::NotImplemented),
        }
    }

    /// PUSH: the registers of the list are stored in ascending order just
    /// below the stack pointer, the lowest-numbered at the lowest address, and
    /// the stack pointer moves down to that address.
    pub open spec fn push(self, list: RegisterList) -> Result<CpuState, Error> {
        let regs = list@;
        let sp = self.read(Register::MSP);
        let start = sp - 4 * regs.len();
        if regs.len() > 0 && (start < 0 || sp > self.memory.len()) {
            Err(Error::OutOfBounds)
        } else {
            Ok(self.store_registers(start, regs).write(Register::MSP, wrap(start)))
        }
    }

    /// STM: the registers of the list are stored in ascending order from the
    /// address in `rn` on, and `rn` moves up past them. A list that holds
    /// `rn` itself is deprecated.
    pub open spec fn store_multiple(self, rn: Register, list: RegisterList) -> Result<CpuState, Error> {
        let regs = list@;
        let addr = self.read(rn);
        if list.has(rn) {
            Err(Error::DeprecatedOperand)
        } else if regs.len() > 0 && addr + 4 * regs.len() > self.memory.len() {
            Err(Error::OutOfBounds)
        } else {
            Ok(self.store_registers(addr as int, regs).write(rn, wrap(addr + 4 * regs.len())))
        }
    }

    /// The meaning of a 16-bit instruction: the state after it, or why it
    /// cannot be executed. The program counter is not advanced here.
    #[verifier::opaque]
    pub open spec fn execute16(self, instr: Thumb16) -> Result<CpuState, Error> {
        match instr {
            Thumb16::AddsImmT1(imm32, rn, rd) => Ok(self.add_to(rd, self.read(rn), imm32, false, true)),
            Thumb16::BxT1(rm) => Ok(self.write(Register::PC, self.read(rm))),
            Thumb16::CmpImmT1(rn, imm32) => Ok(self.compare(self.read(rn), imm32)),
            Thumb16::BImmT1(cond, imm32) => if condition_passed(self.flags, cond) {
                Ok(self.write(Register::PC, wrap(self.read(Register::PC) + imm32)))
            } else {
                Ok(self)
            },
            Thumb16::MovsImmT1(rd, imm32) => {
                let flags = Flags { n: imm32 >= 0x8000_0000, z: imm32 == 0, ..self.flags };
                Ok(self.write(rd, imm32).with_flags(flags))
            },
            Thumb16::AddsRegT1(rm, rn, rd) => Ok(self.add_to(rd, self.read(rn), self.read(rm), false, true)),
            Thumb16::DataProc(op, rm, rdn) => self.data_proc(op, rm, rdn),
            Thumb16::MovT1(rm, rd) => Ok(self.write(rd, self.read(rm))),
            Thumb16::LdrImmT1(rt, imm32) => {
                let addr = wrap(aligned(self.read(Register::PC), 4) + imm32);
                if self.word_in_bounds(addr as int) {
                    Ok(self.write(rt, self.load_word(addr as int)))
                } else {
                    Err(Error::OutOfBounds)
                }
            },
            Thumb16::Stm(rn, list) => self.store_multiple(rn, list),
            Thumb16::BT2(imm32) => Ok(self.write(Register::PC, wrap(self.read(Register::PC) + imm32))),
            Thumb16::Ldm(_, _) => Err(Error::NotImplemented),
            Thumb16::Push(list) => self.push(list),
            Thumb16::UdfT1(_) => Err(Error::NotImplemented),
            Thumb16::AddSpImmT1(rd, imm32) => Ok(self.write(rd, wrap(self.read(Register::MSP) + imm32))),
            Thumb16::SubSpSpImmT1(imm32) => Ok(
                self.write(Register::MSP, wrap(self.read(Register::MSP) - imm32)),
            ),
            Thumb16::STRImmT2(rt, imm32) => {
                let addr = wrap(self.read(Register::MSP) + imm32);
                if self.word_in_bounds(addr as int) {
                    Ok(self.store_word(addr as int, self.read(rt)))
                } else {
                    Err(Error::OutOfBounds)
                }
            },
            Thumb16::Bkpt(_) => Err(Error::NotImplemented),
        }
    }

    /// The meaning of a 32-bit instruction.
    #[verifier::opaque]
    pub open spec fn execute32(self, instr: Thumb32) -> Result<CpuState, Error> {
        match instr {
            Thumb32::BlT1(imm32) => {
                let next = self.read(Register::PC);
                let linked = self.write(Register::LR, (aligned(next, 2) + 1) as u32);
                Ok(linked.write(Register::PC, wrap(next + imm32)))
            },
            Thumb32::MsrT1(_, _) => Err(Error::NotImplemented),
            Thumb32::MrsT1(rd, sr) => Ok(self.write(rd, mrs_value(self.special_registers, sr))),
        }
    }

    /// The meaning of an instruction.
    pub open spec fn execute(self, instr: Thumb) -> Result<CpuState, Error> {
        match instr {
            Thumb::Thumb16(i) => self.execute16(i),
            Thumb::Thumb32(i) => self.execute32(i),
        }
    }

    /// The state after a program was loaded: its code stands in the memory
    /// from `start` on, and the stack pointer holds `stack`. A program that
    /// does not fit in the memory is refused.
    pub open spec fn load(self, text: Seq<u8>, start: u32, stack: u32) -> Result<CpuState, Error> {
        if start + text.len() > self.memory.len() {
            Err(Error::OutOfBounds)
        } else {
            Ok(CpuState { memory: written(self.memory, start as int, text), ..self.write(Register::MSP, stack) })
        }
    }

    /// The bytes that a cycle fetches: up to four, from the program counter
    /// on, as far as the memory reaches.
    pub open spec fn fetch(self, addr: int) -> Seq<u8> {
        if 0 <= addr <= self.memory.len() {
            if addr + 4 <= self.memory.len() {
                self.memory.subrange(addr, addr + 4)
            } else {
                self.memory.subrange(addr, self.memory.len() as int)
            }
        } else {
            Seq::empty()
        }
    }

    /// One cycle: fetch, decode, execute. Gives the state after the cycle,
    /// and `Ok(true)` if the run goes on, `Ok(false)` if the instruction was a
    /// breakpoint, or the failure. A breakpoint or a failure leaves the state
    /// as it was, but for the branch mark, which every cycle clears first.
    /// An instruction that did not write the program counter is followed by
    /// the next one: the counter moves on by the instruction's width.
    #[verifier::opaque]
    pub open spec fn tick(self) -> (CpuState, Result<bool, Error>) {
        let start = CpuState { should_branch: false, ..self };
        match decode(start.fetch(start.registers[15] as int)) {
            Err(e) => (start, Err(e)),
            Ok((instr, width)) => if instr is Thumb16 && instr->Thumb16_0 is Bkpt {
                (start, Ok(false))
            } else {
                match start.execute(instr) {
                    Err(e) => (start, Err(e)),
                    Ok(after) => if after.should_branch {
                        (after, Ok(true))
                    } else {
                        (
                            CpuState {
                                registers: after.registers.update(15, wrap(after.registers[15] + width)),
                                ..after
                            },
                            Ok(true),
                        )
                    },
                }
            },
        }
    }

    /// A run of at most `budget` cycles. Gives the state at its end, and
    /// `Ok(true)` if it ended at a breakpoint, `Ok(false)` if the budget ran
    /// out first, or the failure that ended it.
    pub open spec fn run(self, budget: nat) -> (CpuState, Result<bool, Error>)
        decreases budget,
    {
        if budget == 0 {
            (self, Ok(false))
        } else {
            let (next, outcome) = self.tick();
            match outcome {
                Ok(true) => next.run((budget - 1) as nat),
                Ok(false) => (next, Ok(true)),
                Err(e) => (next, Err(e)),
            }
        }
    }
}

/// Addition with carry does not depend on the order of its operands.
pub proof fn lemma_add_with_carry_commutes(x: u32, y: u32, carry_in: bool)
    ensures
        add_with_carry(x, y, carry_in) == add_with_carry(y, x, carry_in),
{
}

/// Each condition with an odd number holds exactly when the one before it
/// does not: EQ and NE test Z, CS and CC test C, MI and PL test N, VS and VC
/// test V, and so on through the seven pairs. AL always holds.
pub proof fn lemma_condition_pairs(flags: Flags)
    ensures
        condition_passed(flags, Cond::EQ) == flags.z,
        condition_passed(flags, Cond::CS) == flags.c,
        condition_passed(flags, Cond::MI) == flags.n,
        condition_passed(flags, Cond::VS) == flags.v,
        condition_passed(flags, Cond::HI) == (flags.c && !flags.z),
        condition_passed(flags, Cond::GE) == (flags.n == flags.v),
        condition_passed(flags, Cond::GT) == (flags.n == flags.v && !flags.z),
        condition_passed(flags, Cond::NE) == !condition_passed(flags, Cond::EQ),
        condition_passed(flags, Cond::CC) == !condition_passed(flags, Cond::CS),
        condition_passed(flags, Cond::PL) == !condition_passed(flags, Cond::MI),
        condition_passed(flags, Cond::VC) == !condition_passed(flags, Cond::VS),
        condition_passed(flags, Cond::LS) == !condition_passed(flags, Cond::HI),
        condition_passed(flags, Cond::LT) == !condition_passed(flags, Cond::GE),
        condition_passed(flags, Cond::LE) == !condition_passed(flags, Cond::GT),
        condition_passed(flags, Cond::AL),
{
}

/// Whatever is written to the program counter, the value stored has bit 0
/// clear, and differs from the value written in that bit at most.
pub proof fn lemma_pc_write_is_even(s: CpuState, value: u32)
    requires
        s.registers.len() == 16,
    ensures
        s.write(Register::PC, value).registers[15] % 2 == 0,
        s.write(Register::PC, value).registers[15] == value - value % 2,
{
}

/// The program counter reads 4 ahead of what was stored in it: after an even
/// address `x` was written to it, it reads as `x + 4`, reduced to 32 bits.
pub proof fn lemma_pc_read_after_write(s: CpuState, x: u32)
    requires
        s.registers.len() == 16,
        x % 2 == 0,
    ensures
        s.write(Register::PC, x).read(Register::PC) == wrap(x + 4),
        x <= 0xFFFF_FFFB ==> s.write(Register::PC, x).read(Register::PC) == x + 4,
{
}

/// Writing a register keeps a state well formed.
pub proof fn lemma_write_wf(s: CpuState, r: Register, value: u32)
    requires
        s.wf(),
    ensures
        s.write(r, value).wf(),
{
}

/// Setting flags and storing to memory keep a state well formed.
proof fn lemma_parts_wf(s: CpuState, flags: Flags, addr: int, value: u32, regs: Seq<Register>)
    requires
        s.wf(),
    ensures
        s.with_flags(flags).wf(),
        s.store_word(addr, value).wf(),
        s.store_registers(addr, regs).wf(),
{
}

proof fn lemma_add_to_wf(s: CpuState, rd: Register, x: u32, y: u32, carry: bool, setflags: bool)
    requires
        s.wf(),
    ensures
        s.add_to(rd, x, y, carry, setflags).wf(),
{
    let sum = add_with_carry(x, y, carry);
    lemma_parts_wf(s, sum_flags(sum), 0, 0, Seq::empty());
    lemma_write_wf(s.with_flags(sum_flags(sum)), rd, sum.0);
    lemma_write_wf(s, rd, sum.0);
}

proof fn lemma_data_proc_wf(s: CpuState, op: DpOpcode, rm: Register, rdn: Register)
    requires
        s.wf(),
    ensures
        s.data_proc(op, rm, rdn) matches Ok(after) ==> after.wf(),
{
    let result = complement(s.read(rm));
    let flags = Flags { n: result >= 0x8000_0000, z: result == 0, c: false, v: s.flags.v };
    lemma_parts_wf(s, flags, 0, 0, Seq::empty());
    lemma_write_wf(s.with_flags(flags), rdn, result);
    lemma_parts_wf(s, sum_flags(add_with_carry(s.read(rdn), complement(s.read(rm)), true)), 0, 0, Seq::empty());
}

proof fn lemma_push_wf(s: CpuState, list: RegisterList)
    requires
        s.wf(),
    ensures
        s.push(list) matches Ok(after) ==> after.wf(),
{
    let regs = list@;
    let start = s.read(Register::MSP) - 4 * regs.len();
    lemma_parts_wf(s, s.flags, start, 0, regs);
    lemma_write_wf(s.store_registers(start, regs), Register::MSP, wrap(start));
}

proof fn lemma_store_multiple_wf(s: CpuState, rn: Register, list: RegisterList)
    requires
        s.wf(),
    ensures
        s.store_multiple(rn, list) matches Ok(after) ==> after.wf(),
{
    let regs = list@;
    let addr = s.read(rn);
    lemma_parts_wf(s, s.flags, addr as int, 0, regs);
    lemma_write_wf(s.store_registers(addr as int, regs), rn, wrap(addr + 4 * regs.len()));
}

proof fn lemma_execute16_wf(s: CpuState, instr: Thumb16)
    requires
        s.wf(),
    ensures
        s.execute16(instr) matches Ok(after) ==> after.wf(),
{
    reveal(CpuState::execute16);
    let pc = Register::PC;
    let sp = Register::MSP;
    match instr {
        Thumb16::AddsImmT1(imm32, rn, rd) => lemma_add_to_wf(s, rd, s.read(rn), imm32, false, true),
        Thumb16::BxT1(rm) => lemma_write_wf(s, pc, s.read(rm)),
        Thumb16::CmpImmT1(rn, imm32) => lemma_parts_wf(
            s,
            sum_flags(add_with_carry(s.read(rn), complement(imm32), true)),
            0,
            0,
            Seq::empty(),
        ),
        Thumb16::BImmT1(cond, imm32) => lemma_write_wf(s, pc, wrap(s.read(pc) + imm32)),
        Thumb16::MovsImmT1(rd, imm32) => {
            lemma_write_wf(s, rd, imm32);
            lemma_parts_wf(
                s.write(rd, imm32),
                Flags { n: imm32 >= 0x8000_0000, z: imm32 == 0, ..s.flags },
                0,
                0,
                Seq::empty(),
            );
        },
        Thumb16::AddsRegT1(rm, rn, rd) => lemma_add_to_wf(s, rd, s.read(rn), s.read(rm), false, true),
        Thumb16::DataProc(op, rm, rdn) => lemma_data_proc_wf(s, op, rm, rdn),
        Thumb16::MovT1(rm, rd) => lemma_write_wf(s, rd, s.read(rm)),
        Thumb16::LdrImmT1(rt, imm32) => {
            let addr = wrap(aligned(s.read(pc), 4) + imm32);
            lemma_write_wf(s, rt, s.load_word(addr as int));
        },
        Thumb16::Stm(rn, list) => lemma_store_multiple_wf(s, rn, list),
        Thumb16::BT2(imm32) => lemma_write_wf(s, pc, wrap(s.read(pc) + imm32)),
        Thumb16::Ldm(_, _) => {},
        Thumb16::Push(list) => lemma_push_wf(s, list),
        Thumb16::UdfT1(_) => {},
        Thumb16::AddSpImmT1(rd, imm32) => lemma_write_wf(s, rd, wrap(s.read(sp) + imm32)),
        Thumb16::SubSpSpImmT1(imm32) => lemma_write_wf(s, sp, wrap(s.read(sp) - imm32)),
        Thumb16::STRImmT2(rt, imm32) => lemma_parts_wf(
            s,
            s.flags,
            wrap(s.read(sp) + imm32) as int,
            s.read(rt),
            Seq::empty(),
        ),
        Thumb16::Bkpt(_) => {},
    }
}

proof fn lemma_execute32_wf(s: CpuState, instr: Thumb32)
    requires
        s.wf(),
    ensures
        s.execute32(instr) matches Ok(after) ==> after.wf(),
{
    reveal(CpuState::execute32);
    match instr {
        Thumb32::BlT1(imm32) => {
            let next = s.read(Register::PC);
            lemma_write_wf(s, Register::LR, (aligned(next, 2) + 1) as u32);
        },
        _ => {},
    }
}

/// Executing an instruction keeps a state well formed.
pub proof fn lemma_execute_wf(s: CpuState, instr: Thumb)
    requires
        s.wf(),
    ensures
        s.execute(instr) matches Ok(after) ==> after.wf(),
{
    match instr {
        Thumb::Thumb16(i) => lemma_execute16_wf(s, i),
        Thumb::Thumb32(i) => lemma_execute32_wf(s, i),
    }
}

/// A cycle keeps a state well formed: in particular the program counter
/// stays even.
pub proof fn lemma_tick_wf(s: CpuState)
    requires
        s.wf(),
    ensures
        s.tick().0.wf(),
{
    reveal(CpuState::tick);
    let start = CpuState { should_branch: false, ..s };
    match decode(start.fetch(start.registers[15] as int)) {
        Ok((instr, width)) => {
            assert(width == 2 || width == 4);
            lemma_execute_wf(start, instr);
        },
        Err(_) => {},
    }
}

/// Loading a program keeps a state well formed.
pub proof fn lemma_load_wf(s: CpuState, text: Seq<u8>, start: u32, stack: u32)
    requires
        s.wf(),
    ensures
        s.load(text, start, stack) matches Ok(after) ==> after.wf(),
{
    lemma_write_wf(s, Register::MSP, stack);
}

/// A run keeps a state well formed.
pub proof fn lemma_run_wf(s: CpuState, budget: nat)
    requires
        s.wf(),
    ensures
        s.run(budget).0.wf(),
    decreases budget,
{
    if budget > 0 {
        lemma_tick_wf(s);
        lemma_run_wf(s.tick().0, (budget - 1) as nat);
    }
}

} // verus!
