//! The processor: registers, flags and memory, and the execution of decoded
//! instructions on them.

pub mod arm_memmory;
pub mod state;

pub use arm_memmory::Memmory;
pub use state::{CpuState, Flags};

use crate::ast::{Cond, DpOpcode, Register, RegisterList, SpecialRegister, Thumb, Thumb16, Thumb32};
use crate::decode::{decode, disassemble};
use crate::program::Program;
use crate::Error;
use arm_memmory::{le_bytes, written};
use vstd::prelude::*;

verus! {

/// A processor with its memory.
#[derive(Debug)]
pub struct Cpu {
    should_branch: bool,
    registers: [u32; 16],
    special_registers: [u32; 12],
    flags: Flags,
    memmory: Memmory,
}

impl View for Cpu {
    type V = CpuState;

    closed spec fn view(&self) -> CpuState {
        CpuState {
            registers: self.registers@,
            special_registers: self.special_registers@,
            flags: self.flags,
            memory: self.memmory@,
            should_branch: self.should_branch,
        }
    }
}

/// A processor after reset: every register, special register and flag is
/// zero, and so is every byte of its memory, which spans the whole 32-bit
/// address space.
pub fn build() -> (cpu: Cpu)
    ensures
        cpu@ == CpuState::reset(),
        cpu@.wf(),
{
    let memmory = Memmory::new();
    let cpu = Cpu {
        should_branch: false,
        registers: [0u32; 16],
        special_registers: [0u32; 12],
        memmory,
        flags: Flags { n: false, z: false, c: false, v: false },
    };
    assert(cpu@.registers =~= CpuState::reset().registers);
    assert(cpu@.special_registers =~= CpuState::reset().special_registers);
    assert(cpu@.memory =~= CpuState::reset().memory);
    cpu
}

impl Cpu {
    /// The state of every processor has sixteen registers, twelve slots for
    /// the special registers, and a memory as long as the address space.
    pub proof fn lemma_shape(&self)
        ensures
            self@.registers.len() == 16,
            self@.special_registers.len() == 12,
            self@.memory.len() == 0x1_0000_0000,
    {
        self.memmory.lemma_len();
    }

    /// Copies the code of `program` into the memory at its load address and
    /// sets the stack pointer to its initial value.
    pub fn load_program(&mut self, program: &Program) -> (r: Result<(), Error>)
        ensures
            match old(self)@.load(program.text(), program.start_addr(), program.start_stack()) {
                Ok(s) => r is Ok && final(self)@ == s,
                Err(e) => r == Err::<(), Error>(e) && final(self)@ == old(self)@,
            },
            old(self)@.wf() ==> final(self)@.wf(),
    {
        proof {
            self.memmory.lemma_len();
            if self@.wf() {
                state::lemma_load_wf(self@, program.text(), program.start_addr(), program.start_stack());
            }
        }
        let start_addr = program.get_start_addr();
        let text = program.get_text();
        if text.len() as u64 > 0x1_0000_0000 - (start_addr as u64) {
            return Err(Error::OutOfBounds);
        }
        let stack_start = program.get_start_stack();
        self.write_register(Register::MSP, stack_start);
        self.memmory.write_chunk(start_addr, text);
        Ok(())
    }

    /// Sets the program counter to `start_addr` and runs cycle after cycle
    /// until a breakpoint, a failure, or the end of the budget of `budget`
    /// cycles. Gives `Ok(true)` at a breakpoint and `Ok(false)` when the
    /// budget ran out.
    pub fn start(&mut self, start_addr: u32, budget: u64) -> (r: Result<bool, Error>)
        ensures
            (final(self)@, r) == old(self)@.write(Register::PC, start_addr).run(budget as nat),
            old(self)@.wf() ==> final(self)@.wf(),
    {
        proof {
            if self@.wf() {
                state::lemma_write_wf(self@, Register::PC, start_addr);
                state::lemma_run_wf(self@.write(Register::PC, start_addr), budget as nat);
            }
        }
        self.write_register(Register::PC, start_addr);
        let ghost entered = self@;
        let mut left: u64 = budget;
        while left > 0
            invariant
                old(self)@.wf() ==> self@.wf(),
                entered == old(self)@.write(Register::PC, start_addr),
                self@.run(left as nat) == entered.run(budget as nat),
            decreases left,
        {
            match self.tick() {
                Ok(true) => {
                    left = left - 1;
                },
                Ok(false) => {
                    return Ok(true);
                },
                Err(e) => {
                    return Err(e);
                },
            }
        }
        Ok(false)
    }

    /// The bytes of an instruction at `addr`: four, or as many as the memory
    /// holds from there on.
    fn fetch(&self, addr: u32) -> (chunk: Vec<u8>)
        ensures
            chunk@ == self@.fetch(addr as int),
    {
        proof {
            self.memmory.lemma_len();
        }
        let mut chunk: Vec<u8> = Vec::new();
        let mut i: u32 = 0;
        while i < 4 && i <= 0xFFFF_FFFF - addr
            invariant
                i <= 4,
                addr + i <= 0x1_0000_0000,
                self@.memory.len() == 0x1_0000_0000,
                chunk@ == self@.memory.subrange(addr as int, addr + i),
            decreases 4 - i,
        {
            chunk.push(self.memmory.read_byte(addr + i));
            assert(chunk@ =~= self@.memory.subrange(addr as int, addr + i + 1));
            i = i + 1;
        }
        chunk
    }

    /// One cycle: fetches the instruction at the program counter, decodes it
    /// and executes it. Gives `Ok(false)` at a breakpoint, which ends the run,
    /// and `Ok(true)` after any other instruction. Unless the instruction
    /// wrote the program counter, the counter moves on to the next one.
    pub fn tick(&mut self) -> (r: Result<bool, Error>)
        ensures
            (final(self)@, r) == old(self)@.tick(),
            old(self)@.wf() ==> final(self)@.wf(),
    {
        proof {
            reveal(CpuState::tick);
            if self@.wf() {
                state::lemma_tick_wf(self@);
            }
        }
        self.should_branch = false;
        let pc = self.registers[15];
        let chunk = self.fetch(pc);
        let instruction = match disassemble(chunk.as_slice()) {
            Ok((instruction, _)) => instruction,
            Err(e) => {
                return Err(e);
            },
        };
        if matches!(instruction, Thumb::Thumb16(Thumb16::Bkpt(_))) {
            return Ok(false);
        }
        match self.execute(&instruction) {
            Ok(()) => {},
            Err(e) => {
                return Err(e);
            },
        }
        if !self.should_branch {
            match instruction {
                Thumb::Thumb16(_) => {
                    self.registers[15] = self.registers[15].wrapping_add(2);
                },
                Thumb::Thumb32(_) => {
                    self.registers[15] = self.registers[15].wrapping_add(4);
                },
            }
        }
        Ok(true)
    }

    /// The instruction at `addr`, decoded and not executed.
    pub fn instruction_at(&self, addr: u32) -> (r: Result<Thumb, Error>)
        ensures
            match decode(self@.fetch(addr as int)) {
                Ok((thumb, _)) => r == Ok::<Thumb, Error>(thumb),
                Err(e) => r == Err::<Thumb, Error>(e),
            },
    {
        let chunk = self.fetch(addr);
        match disassemble(chunk.as_slice()) {
            Ok((instruction, _)) => Ok(instruction),
            Err(e) => Err(e),
        }
    }

    /// The sixteen registers as they are stored.
    pub fn registers(&self) -> (registers: [u32; 16])
        ensures
            registers@ == self@.registers,
    {
        self.registers
    }

    /// The four condition flags.
    pub fn flags(&self) -> (flags: Flags)
        ensures
            flags == self@.flags,
    {
        self.flags
    }

    /// The memory.
    pub fn memory(&self) -> (memory: &Memmory)
        ensures
            memory@ == self@.memory,
    {
        &self.memmory
    }

    /// The value that an instruction reads from `register`.
    pub fn read_register(&self, register: Register) -> (value: u32)
        ensures
            value == self@.read(register),
    {
        let i: u8 = register.into();
        // The program counter reads as the address of the instruction plus 4.
        if i == 15 {
            self.registers[15].wrapping_add(4)
        } else {
            self.registers[i as usize]
        }
    }

    /// Writes `value` to `register`. Whatever is written to the program
    /// counter, what is stored there is even.
    pub fn write_register(&mut self, register: Register, value: u32)
        ensures
            final(self)@ == old(self)@.write(register, value),
            register == Register::PC ==> final(self)@.registers[15] % 2 == 0,
            old(self)@.wf() ==> final(self)@.wf(),
    {
        let i: u8 = register.into();
        if i == 15 {
            // A write to the program counter is a branch, to an even address.
            self.should_branch = true;
            let to_write: u32 = value & 0xFFFF_FFFE;
            assert(to_write == value - value % 2) by (bit_vector)
                requires
                    to_write == value & 0xFFFF_FFFE,
            ;
            self.registers[15] = to_write;
        } else {
            self.registers[i as usize] = value;
        }
    }

    /// The value in the slot that backs a special register.
    pub fn read_special_register(&self, register: SpecialRegister) -> (value: u32)
        ensures
            value == self@.read_special(register),
    {
        let idx: u8 = register.into();
        if idx <= 9 {
            self.special_registers[idx as usize]
        } else if idx == 16 {
            self.special_registers[10]
        } else {
            self.special_registers[11]
        }
    }

    /// Writes `value` to the slot that backs a special register.
    pub fn write_special_register(&mut self, register: SpecialRegister, value: u32)
        ensures
            final(self)@ == old(self)@.write_special(register, value),
            old(self)@.wf() ==> final(self)@.wf(),
    {
        let idx: u8 = register.into();
        if idx <= 9 {
            self.special_registers[idx as usize] = value;
        } else if idx == 16 {
            self.special_registers[10] = value;
        } else {
            self.special_registers[11] = value;
        }
    }

    /// The sum `x + y + c` in 32 bits, its carry out and its overflow.
    ///
    /// The sum is formed twice in 64 bits, once of the operands as unsigned
    /// and once as signed numbers. The carry says that the 32-bit result,
    /// read as unsigned, is not the first sum; the overflow, that the result,
    /// read as signed, is not the second.
    pub fn add_with_carry(x: u32, y: u32, c: bool) -> (r: (u32, bool, bool))
        ensures
            r == state::add_with_carry(x, y, c),
    {
        let carry: u64 = if c { 1 } else { 0 };
        let u_sum: u64 = x as u64 + y as u64 + carry;
        let sx: i64 = (#[verifier::truncate] (x as i32)) as i64;
        let sy: i64 = (#[verifier::truncate] (y as i32)) as i64;
        proof {
            lemma_widen(x, u_sum);
            lemma_widen(y, u_sum);
        }
        let s_sum: i64 = sx + sy + (carry as i64);
        let result: u32 = #[verifier::truncate] (u_sum as u32);
        proof {
            lemma_widen(result, u_sum);
        }
        let carry_out = result as u64 != u_sum;
        let overflow = (#[verifier::truncate] (result as i32)) as i64 != s_sum;
        (result, carry_out, overflow)
    }

    /// Whether the condition holds under the current flags.
    pub fn condition_passed(&self, cond: Cond) -> (passed: bool)
        ensures
            passed == state::condition_passed(self@.flags, cond),
    {
        self.flags.condition_passed(cond)
    }

    /// Adds with carry and sets all four flags from the sum.
    fn add_with_carry_update_flags(&mut self, x: u32, y: u32, c: bool) -> (result: u32)
        ensures
            result == state::add_with_carry(x, y, c).0,
            final(self)@ == old(self)@.with_flags(state::sum_flags(state::add_with_carry(x, y, c))),
    {
        let (result, carry_out, overflow) = Self::add_with_carry(x, y, c);
        self.flags.c = carry_out;
        self.flags.v = overflow;
        self.flags.z = result == 0;
        self.flags.n = result >= 0x8000_0000;
        result
    }

    /// `rd = rm + imm32 + c`, with the flags of the sum if `setflags`.
    fn add_with_carry_register_imm(&mut self, rd: Register, rm: Register, imm32: u32, c: bool, setflags: bool)
        ensures
            final(self)@ == old(self)@.add_to(rd, old(self)@.read(rm), imm32, c, setflags),
    {
        let rm_data = self.read_register(rm);
        let result = if setflags {
            self.add_with_carry_update_flags(rm_data, imm32, c)
        } else {
            Self::add_with_carry(rm_data, imm32, c).0
        };
        self.write_register(rd, result);
    }

    /// `rd = rn + rm + c`, with the flags of the sum if `setflags`.
    fn add_with_carry_register_register(
        &mut self,
        rd: Register,
        rm: Register,
        rn: Register,
        c: bool,
        setflags: bool,
    )
        ensures
            final(self)@ == old(self)@.add_to(rd, old(self)@.read(rn), old(self)@.read(rm), c, setflags),
    {
        let rm_data = self.read_register(rm);
        let rn_data = self.read_register(rn);
        let result = if setflags {
            self.add_with_carry_update_flags(rn_data, rm_data, c)
        } else {
            Self::add_with_carry(rn_data, rm_data, c).0
        };
        self.write_register(rd, result);
    }

    /// Sets the flags N and Z from a result.
    fn set_flag_nz(&mut self, result: u32)
        ensures
            final(self)@ == old(self)@.with_flags(
                Flags { n: result >= 0x8000_0000, z: result == 0, ..old(self)@.flags },
            ),
    {
        self.flags.z = result == 0;
        self.flags.n = result >= 0x8000_0000;
    }

    /// MOVS with an immediate.
    fn do_movs_imm(&mut self, rd: Register, imm32: u32)
        ensures
            Ok::<CpuState, Error>(final(self)@) == old(self)@.execute16(Thumb16::MovsImmT1(rd, imm32)),
    {
        reveal(CpuState::execute16);
        self.write_register(rd, imm32);
        self.set_flag_nz(imm32);
    }

    /// CMP with an immediate: the flags of `rn - imm32`.
    fn do_cmp_imm(&mut self, rn: Register, imm32: u32)
        ensures
            Ok::<CpuState, Error>(final(self)@) == old(self)@.execute16(Thumb16::CmpImmT1(rn, imm32)),
    {
        proof {
            reveal(CpuState::execute16);
            lemma_bits(imm32);
        }
        let rn_data = self.read_register(rn);
        self.add_with_carry_update_flags(rn_data, !imm32, true);
    }

    /// CMP of two registers: the flags of `rn - rm`.
    fn do_cmp_r(&mut self, rm: Register, rn: Register)
        ensures
            final(self)@ == old(self)@.compare(old(self)@.read(rn), old(self)@.read(rm)),
    {
        let rn_val = self.read_register(rn);
        let rm_val = self.read_register(rm);
        proof {
            lemma_bits(rm_val);
        }
        self.add_with_carry_update_flags(rn_val, !rm_val, true);
    }

    /// MVN: `rd` becomes the complement of `rm`. Sets N and Z and clears C,
    /// since no shift takes place; V stays.
    fn do_mvn_register(&mut self, rd: Register, rm: Register)
        ensures
            Ok::<CpuState, Error>(final(self)@) == old(self)@.data_proc(DpOpcode::MVN, rm, rd),
    {
        let data_rm = self.read_register(rm);
        proof {
            lemma_bits(data_rm);
        }
        let data_rd = !data_rm;
        self.flags.n = data_rd >= 0x8000_0000;
        self.flags.z = data_rd == 0;
        self.flags.c = false;
        self.write_register(rd, data_rd);
    }

    /// The register-to-register data-processing instructions.
    fn do_data_proc(&mut self, dp_op_code: DpOpcode, r1: Register, r2: Register) -> (r: Result<(), Error>)
        ensures
            match old(self)@.data_proc(dp_op_code, r1, r2) {
                Ok(s) => r is Ok && final(self)@ == s,
                Err(e) => r == Err::<(), Error>(e) && final(self)@ == old(self)@,
            },
    {
        match dp_op_code {
            DpOpcode::CMP => {
                // r1 is Rm, r2 is Rn.
                self.do_cmp_r(r1, r2);
                Ok(())
            },
            DpOpcode::MVN => {
                // r1 is Rm, r2 is Rd.
                self.do_mvn_register(r2, r1);
                Ok(())
            },
            _ => Err(Error::NotImplemented),
        }
    }

    /// The privilege model: execution is always privileged.
    #[allow(non_snake_case)]
    fn CurrentModeIsPrivileged(&self) -> (privileged: bool)
        ensures
            privileged,
    {
        true
    }

    /// MRS: `rd` becomes the value of a special register, composed bit range
    /// by bit range as SYSm selects them.
    fn do_mrs(&mut self, rd: Register, sr: SpecialRegister)
        ensures
            Ok::<CpuState, Error>(final(self)@) == old(self)@.execute32(Thumb32::MrsT1(rd, sr)),
    {
        reveal(CpuState::execute32);
        let mut rd_to_write: u32 = 0;
        let special_idx: u8 = sr.into();
        proof {
            lemma_sysm(special_idx);
            lemma_status_bits(self.special_registers[0], self.special_registers[5]);
        }
        let group: u8 = special_idx >> 3;
        if group == 0b00000 {
            if (special_idx & 0b1) == 1 {
                rd_to_write = (rd_to_write & 0xFF00) | (self.special_registers[5] & 0xFF);
            }
            if (special_idx & 0b10) == 0b10 {
                // The T bit reads as zero.
                rd_to_write = rd_to_write & 0xFEFF_FFFF;
            }
            if (special_idx & 0b100) == 0 {
                rd_to_write = (rd_to_write & 0x07FF_FFFF) | (self.special_registers[0] & 0xF800_0000);
            }
        } else if group == 0b00001 {
            if self.CurrentModeIsPrivileged() {
                if (special_idx & 0b111) == 0b000 {
                    rd_to_write = self.special_registers[8];
                } else {
                    rd_to_write = self.special_registers[9];
                }
            }
        } else {
            if (special_idx & 0b111) == 0b000 {
                rd_to_write = if self.CurrentModeIsPrivileged() {
                    self.special_registers[10] & 0b1
                } else {
                    0b0
                };
            } else {
                rd_to_write = self.special_registers[11] & 0b11;
            }
        }
        self.write_register(rd, rd_to_write);
    }

    /// BL: the link register gets the address of the next instruction with
    /// bit 0 set, and the program counter moves by the offset.
    fn do_bl(&mut self, imm32: u32)
        ensures
            Ok::<CpuState, Error>(final(self)@) == old(self)@.execute32(Thumb32::BlT1(imm32)),
    {
        reveal(CpuState::execute32);
        let next_instr_addr = self.read_register(Register::PC);
        proof {
            lemma_bits(next_instr_addr);
        }
        self.write_register(Register::LR, next_instr_addr | 0b1);
        self.add_with_carry_register_imm(Register::PC, Register::PC, imm32, false, false);
    }

    /// BX: branch to the address in `rm`.
    fn do_bx(&mut self, rm: Register)
        ensures
            Ok::<CpuState, Error>(final(self)@) == old(self)@.execute16(Thumb16::BxT1(rm)),
    {
        reveal(CpuState::execute16);
        let addr = self.read_register(rm);
        self.write_register(Register::PC, addr);
    }

    /// B with a condition: branch by the offset if the condition holds.
    fn do_bt1(&mut self, cond: Cond, imm32: u32)
        ensures
            Ok::<CpuState, Error>(final(self)@) == old(self)@.execute16(Thumb16::BImmT1(cond, imm32)),
    {
        reveal(CpuState::execute16);
        if self.condition_passed(cond) {
            let pc = self.read_register(Register::PC);
            self.write_register(Register::PC, pc.wrapping_add(imm32));
        }
    }

    /// Whether a word at `addr` lies within the memory.
    fn word_in_bounds(&self, addr: u32) -> (within: bool)
        ensures
            within == self@.word_in_bounds(addr as int),
            within == (addr + 4 <= 0x1_0000_0000),
    {
        proof {
            self.memmory.lemma_len();
        }
        addr <= 0xFFFF_FFFC
    }

    /// LDR from the literal pool: `rt` becomes the word at the offset from
    /// the program counter, rounded down to a word boundary.
    fn do_ldr_imm(&mut self, rt: Register, imm32: u32) -> (r: Result<(), Error>)
        ensures
            match old(self)@.execute16(Thumb16::LdrImmT1(rt, imm32)) {
                Ok(s) => r is Ok && final(self)@ == s,
                Err(e) => r == Err::<(), Error>(e) && final(self)@ == old(self)@,
            },
    {
        reveal(CpuState::execute16);
        let pc = self.read_register(Register::PC);
        let base = align(pc, 4);
        let addr = base.wrapping_add(imm32);
        if !self.word_in_bounds(addr) {
            return Err(Error::OutOfBounds);
        }
        let value = self.memmory.read_u32(addr);
        self.write_register(rt, value);
        Ok(())
    }

    /// Stores the value of `rt` as a word at `addr`.
    fn write_register_to_memmory(&mut self, rt: Register, addr: u32) -> (r: Result<(), Error>)
        ensures
            r is Ok <==> old(self)@.word_in_bounds(addr as int),
            r is Ok ==> final(self)@ == old(self)@.store_word(addr as int, old(self)@.read(rt)),
            r is Err ==> r == Err::<(), Error>(Error::OutOfBounds) && final(self)@ == old(self)@,
    {
        if !self.word_in_bounds(addr) {
            return Err(Error::OutOfBounds);
        }
        let value = self.read_register(rt);
        self.memmory.write_u32(addr, value);
        Ok(())
    }

    /// Stores the value of `rt` as a word at the address in `rn` plus `offset`.
    fn write_register_to_memmory_offset(&mut self, rt: Register, rn: Register, offset: u32) -> (r: Result<
        (),
        Error,
    >)
        ensures
            ({
                let addr = state::wrap(old(self)@.read(rn) + offset) as int;
                &&& r is Ok <==> old(self)@.word_in_bounds(addr)
                &&& r is Ok ==> final(self)@ == old(self)@.store_word(addr, old(self)@.read(rt))
                &&& r is Err ==> r == Err::<(), Error>(Error::OutOfBounds) && final(self)@ == old(self)@
            }),
    {
        let rn_val = self.read_register(rn);
        let (addr, _, _) = Self::add_with_carry(rn_val, offset, false);
        self.write_register_to_memmory(rt, addr)
    }

    /// Stores the values of the registers of `list` as consecutive words from
    /// `addr` on.
    fn store_registers(&mut self, addr: u32, list: &Vec<Register>)
        requires
            list.len() <= 16,
            addr + 4 * list.len() <= 0x1_0000_0000,
        ensures
            final(self)@ == old(self)@.store_registers(addr as int, list@),
    {
        proof {
            self.memmory.lemma_len();
            assert(self@.memory =~= written(self@.memory, addr as int, self@.register_bytes(list@.take(0))));
        }
        let mut i: usize = 0;
        while i < list.len()
            invariant
                i <= list.len() <= 16,
                addr + 4 * list.len() <= 0x1_0000_0000,
                self@ == old(self)@.store_registers(addr as int, list@.take(i as int)),
            decreases list.len() - i,
        {
            let value = self.read_register(list[i]);
            let at: u32 = addr + 4 * (i as u32);
            let ghost before = self@;
            self.memmory.write_u32(at, value);
            proof {
                let base = old(self)@;
                let regs = list@;
                let lower = base.register_bytes(regs.take(i as int));
                let upper = base.register_bytes(regs.take(i + 1));
                assert(before.read(regs[i as int]) == base.read(regs[i as int]));
                assert forall|j: int| 0 <= j < upper.len() implies upper[j] == (if j < 4 * i {
                    lower[j]
                } else {
                    le_bytes(value)[j - 4 * i]
                }) by {
                    if j < 4 * i {
                        assert(regs.take(i + 1)[j / 4] == regs.take(i as int)[j / 4]);
                    } else {
                        assert(j / 4 == i);
                        assert(j % 4 == j - 4 * i);
                    }
                }
                assert(self@.memory =~= written(base.memory, addr as int, upper));
            }
            i = i + 1;
        }
        assert(list@.take(list.len() as int) == list@);
    }

    /// PUSH.
    fn do_push(&mut self, register_list: RegisterList) -> (r: Result<(), Error>)
        ensures
            match old(self)@.push(register_list) {
                Ok(s) => r is Ok && final(self)@ == s,
                Err(e) => r == Err::<(), Error>(e) && final(self)@ == old(self)@,
            },
    {
        let list = register_list.to_vec();
        proof {
            register_list.lemma_below(16);
            self.memmory.lemma_len();
        }
        let len: u32 = list.len() as u32;
        let sp = self.read_register(Register::MSP);
        if len > 0 && sp < 4 * len {
            return Err(Error::OutOfBounds);
        }
        let addr: u32 = if len > 0 { sp - 4 * len } else { sp };
        if len > 0 {
            self.store_registers(addr, &list);
        } else {
            assert(self@.memory =~= written(self@.memory, addr as int, self@.register_bytes(list@)));
        }
        self.write_register(Register::MSP, addr);
        Ok(())
    }

    /// STM.
    fn do_stm(&mut self, rn: Register, register_list: RegisterList) -> (r: Result<(), Error>)
        ensures
            match old(self)@.store_multiple(rn, register_list) {
                Ok(s) => r is Ok && final(self)@ == s,
                Err(e) => r == Err::<(), Error>(e) && final(self)@ == old(self)@,
            },
    {
        let n: u8 = rn.into();
        if (register_list.0 >> n) & 1 == 1 {
            // The base register is not allowed in its own list.
            return Err(Error::DeprecatedOperand);
        }
        let addr = self.read_register(rn);
        let list = register_list.to_vec();
        proof {
            register_list.lemma_below(16);
            self.memmory.lemma_len();
        }
        let len: u32 = list.len() as u32;
        if len > 0 && addr as u64 + 4 * (len as u64) > 0x1_0000_0000 {
            return Err(Error::OutOfBounds);
        }
        if len > 0 {
            self.store_registers(addr, &list);
        } else {
            assert(self@.memory =~= written(self@.memory, addr as int, self@.register_bytes(list@)));
        }
        self.write_register(rn, addr.wrapping_add(4 * len));
        Ok(())
    }

    /// ADDS of a register and an immediate.
    fn do_adds_imm(&mut self, imm32: u32, rn: Register, rd: Register)
        ensures
            Ok::<CpuState, Error>(final(self)@) == old(self)@.execute16(Thumb16::AddsImmT1(imm32, rn, rd)),
    {
        reveal(CpuState::execute16);
        self.add_with_carry_register_imm(rd, rn, imm32, false, true);
    }

    /// ADDS of two registers.
    fn do_adds_reg(&mut self, rm: Register, rn: Register, rd: Register)
        ensures
            Ok::<CpuState, Error>(final(self)@) == old(self)@.execute16(Thumb16::AddsRegT1(rm, rn, rd)),
    {
        reveal(CpuState::execute16);
        self.add_with_carry_register_register(rd, rm, rn, false, true);
    }

    /// MOV between registers.
    fn do_mov(&mut self, rm: Register, rd: Register)
        ensures
            Ok::<CpuState, Error>(final(self)@) == old(self)@.execute16(Thumb16::MovT1(rm, rd)),
    {
        reveal(CpuState::execute16);
        let result = self.read_register(rm);
        self.write_register(rd, result);
    }

    /// B without a condition.
    fn do_bt2(&mut self, imm32: u32)
        ensures
            Ok::<CpuState, Error>(final(self)@) == old(self)@.execute16(Thumb16::BT2(imm32)),
    {
        reveal(CpuState::execute16);
        let pc = self.read_register(Register::PC);
        self.write_register(Register::PC, pc.wrapping_add(imm32));
    }

    /// ADD of the stack pointer and an immediate. Sets no flags.
    fn do_add_sp_imm(&mut self, rd: Register, imm32: u32)
        ensures
            Ok::<CpuState, Error>(final(self)@) == old(self)@.execute16(Thumb16::AddSpImmT1(rd, imm32)),
    {
        reveal(CpuState::execute16);
        self.add_with_carry_register_imm(rd, Register::MSP, imm32, false, false);
    }

    /// SUB of an immediate from the stack pointer, as the sum of the stack
    /// pointer, the complement of the immediate and a carry. Sets no flags.
    fn do_sub_sp_imm(&mut self, imm32: u32)
        ensures
            Ok::<CpuState, Error>(final(self)@) == old(self)@.execute16(Thumb16::SubSpSpImmT1(imm32)),
    {
        proof {
            reveal(CpuState::execute16);
            lemma_bits(imm32);
            let sp = self@.read(Register::MSP);
            assert(state::wrap(sp + (0xFFFF_FFFF - imm32) + 1) == state::wrap(sp - imm32));
        }
        self.add_with_carry_register_imm(Register::MSP, Register::MSP, !imm32, true, false);
    }

    /// STR relative to the stack pointer.
    fn do_str_sp(&mut self, rt: Register, imm32: u32) -> (r: Result<(), Error>)
        ensures
            match old(self)@.execute16(Thumb16::STRImmT2(rt, imm32)) {
                Ok(s) => r is Ok && final(self)@ == s,
                Err(e) => r == Err::<(), Error>(e) && final(self)@ == old(self)@,
            },
    {
        reveal(CpuState::execute16);
        self.write_register_to_memmory_offset(rt, Register::MSP, imm32)
    }

    /// Executes one 16-bit instruction.
    fn execute16(&mut self, inst16: &Thumb16) -> (r: Result<(), Error>)
        ensures
            match old(self)@.execute16(*inst16) {
                Ok(s) => r is Ok && final(self)@ == s,
                Err(e) => r == Err::<(), Error>(e) && final(self)@ == old(self)@,
            },
    {
        match inst16 {
            Thumb16::AddsImmT1(imm32, rn, rd) => {
                self.do_adds_imm(*imm32, *rn, *rd);
                Ok(())
            },
            Thumb16::BxT1(rm) => {
                self.do_bx(*rm);
                Ok(())
            },
            Thumb16::CmpImmT1(rn, imm32) => {
                self.do_cmp_imm(*rn, *imm32);
                Ok(())
            },
            Thumb16::BImmT1(cond, imm32) => {
                self.do_bt1(*cond, *imm32);
                Ok(())
            },
            Thumb16::MovsImmT1(rd, imm32) => {
                self.do_movs_imm(*rd, *imm32);
                Ok(())
            },
            Thumb16::AddsRegT1(rm, rn, rd) => {
                self.do_adds_reg(*rm, *rn, *rd);
                Ok(())
            },
            Thumb16::DataProc(dp_op_code, r1, r2) => {
                proof {
                    reveal(CpuState::execute16);
                }
                self.do_data_proc(*dp_op_code, *r1, *r2)
            },
            Thumb16::MovT1(rm, rd) => {
                self.do_mov(*rm, *rd);
                Ok(())
            },
            Thumb16::LdrImmT1(rt, imm32) => self.do_ldr_imm(*rt, *imm32),
            Thumb16::Stm(rn, reg_list) => {
                proof {
                    reveal(CpuState::execute16);
                }
                self.do_stm(*rn, *reg_list)
            },
            Thumb16::BT2(imm32) => {
                self.do_bt2(*imm32);
                Ok(())
            },
            Thumb16::Push(reg_list) => {
                proof {
                    reveal(CpuState::execute16);
                }
                self.do_push(*reg_list)
            },
            Thumb16::AddSpImmT1(rd, imm32) => {
                self.do_add_sp_imm(*rd, *imm32);
                Ok(())
            },
            Thumb16::SubSpSpImmT1(imm32) => {
                self.do_sub_sp_imm(*imm32);
                Ok(())
            },
            Thumb16::STRImmT2(rt, imm32) => self.do_str_sp(*rt, *imm32),
            Thumb16::Ldm(_, _) | Thumb16::UdfT1(_) | Thumb16::Bkpt(_) => {
                proof {
                    reveal(CpuState::execute16);
                }
                Err(Error::NotImplemented)
            },
        }
    }

    /// Executes one 32-bit instruction.
    fn execute32(&mut self, inst32: &Thumb32) -> (r: Result<(), Error>)
        ensures
            match old(self)@.execute32(*inst32) {
                Ok(s) => r is Ok && final(self)@ == s,
                Err(e) => r == Err::<(), Error>(e) && final(self)@ == old(self)@,
            },
    {
        match inst32 {
            Thumb32::BlT1(imm32) => {
                self.do_bl(*imm32);
                Ok(())
            },
            Thumb32::MsrT1(_, _) => {
                proof {
                    reveal(CpuState::execute32);
                }
                Err(Error::NotImplemented)
            },
            Thumb32::MrsT1(rd, sr) => {
                self.do_mrs(*rd, *sr);
                Ok(())
            },
        }
    }

    /// Executes one decoded instruction. The program counter is not advanced
    /// here: the instruction either redirects it, which marks the cycle as a
    /// branch, or leaves it alone. An instruction that cannot be executed
    /// leaves the state as it was.
    pub fn execute(&mut self, instruction: &Thumb) -> (r: Result<(), Error>)
        ensures
            match old(self)@.execute(*instruction) {
                Ok(s) => r is Ok && final(self)@ == s,
                Err(e) => r == Err::<(), Error>(e) && final(self)@ == old(self)@,
            },
            old(self)@.wf() ==> final(self)@.wf(),
    {
        proof {
            if self@.wf() {
                state::lemma_execute_wf(self@, *instruction);
            }
        }
        match instruction {
            Thumb::Thumb16(inst16) => self.execute16(inst16),
            Thumb::Thumb32(inst32) => self.execute32(inst32),
        }
    }
}

/// Truncation to 32 bits and sign extension to 64 bits, in arithmetic.
proof fn lemma_widen(x: u32, wide: u64)
    by (bit_vector)
    ensures
        (x as i32) as i64 == (if x >= 0x8000_0000u32 { x - 0x1_0000_0000 } else { x as int }),
        wide as u32 == wide % 0x1_0000_0000,
{
}

/// `x` rounded down to a multiple of `y`.
fn align(x: u32, y: u32) -> (r: u32)
    requires
        y > 0,
    ensures
        r == state::aligned(x, y),
{
    assert(y * (x / y) == x - x % y) by (nonlinear_arith)
        requires
            y > 0,
    ;
    y * (x / y)
}

/// Inversion, and setting and clearing bit 0, in arithmetic.
proof fn lemma_bits(x: u32)
    by (bit_vector)
    ensures
        !x == 0xFFFF_FFFF - x,
        x | 1 == x - x % 2 + 1,
        x & 0xFFFF_FFFE == x - x % 2,
{
}

/// The bits of SYSm that MRS tests, in arithmetic.
proof fn lemma_sysm(sysm: u8)
    by (bit_vector)
    ensures
        sysm >> 3 == sysm / 8,
        sysm & 1 == sysm % 2,
        sysm & 2 == 2 <==> sysm / 2 % 2 == 1,
        sysm & 4 == 0 <==> sysm / 4 % 2 == 0,
        sysm & 7 == sysm % 8,
{
}

/// What the composition of the status bits comes to.
proof fn lemma_status_bits(apsr: u32, ipsr: u32)
    by (bit_vector)
    ensures
        (0u32 & 0xFF00) | (ipsr & 0xFF) == ipsr & 0xFF,
        (ipsr & 0xFF) & 0xFEFF_FFFF == ipsr & 0xFF,
        0u32 & 0xFEFF_FFFF == 0,
        ((ipsr & 0xFF) & 0x07FF_FFFF) | (apsr & 0xF800_0000) == (ipsr & 0xFF) | (apsr & 0xF800_0000),
        (0u32 & 0x07FF_FFFF) | (apsr & 0xF800_0000) == apsr & 0xF800_0000,
{
}

} // verus!
