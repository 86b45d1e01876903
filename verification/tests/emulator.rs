use disarm::arm_cpu::{build, Cpu, Flags};
use disarm::ast::{Cond, DpOpcode, Register, RegisterList, SpecialRegister, Thumb, Thumb16, Thumb32};
use disarm::{Error, Program};

const NO_FLAGS: Flags = Flags { n: false, z: false, c: false, v: false };

fn loaded(code: &[u8], addr: u32) -> Cpu {
    let mut cpu = build();
    cpu.load_program(&Program::build(code, addr, 0x2000_0000)).unwrap();
    cpu
}

fn short(instruction: Thumb16) -> Thumb {
    Thumb::Thumb16(instruction)
}

#[test]
fn demo_test() {
    let chunk: &[u8] = &[
        0x0f, 0x20, // movs r0, #15
        0x0a, 0x28, // cmp	r0, #10
        0x02, 0xd8, // bhi	0x10e <cond_function+0xa> @ imm = #4
        0x01, 0x21, // movs	r1, #1
        0x08, 0x18, // adds	r0, r1, r0
        0x70, 0x47, // bx	lr
        0x00, 0x21, // movs	r1, #0
        0xc9, 0x43, // mvns	r1, r1
        0x08, 0x18, // adds	r0, r1, r0
        0x00, 0xbe, // bkpt 0
    ];
    let program = Program::build(chunk, 0x104, 0x20000000);
    let mut cpu = build();
    cpu.load_program(&program).unwrap();

    let halted = cpu.start(0x104, 1_000).unwrap();
    assert!(halted);
}

#[test]
fn a_processor_starts_from_zero() {
    let cpu = build();
    assert_eq!(cpu.registers(), [0u32; 16]);
    assert_eq!(cpu.flags(), NO_FLAGS);
    assert_eq!(cpu.memory().read_u32(0), 0);
    assert_eq!(cpu.memory().read_u32(0xFFFF_FFFC), 0);
    assert_eq!(cpu.read_special_register(SpecialRegister::CONTROL), 0);
    assert_eq!(cpu.read_register(Register::PC), 4);
}

#[test]
fn run_takes_the_branch_and_wraps_the_sum() {
    let chunk: &[u8] = &[
        0x0f, 0x20, 0x0a, 0x28, 0x02, 0xd8, 0x01, 0x21, 0x08, 0x18, 0x70, 0x47, 0x00, 0x21, 0xc9, 0x43, 0x08,
        0x18, 0x00, 0xbe,
    ];
    let mut cpu = loaded(chunk, 0x104);
    assert_eq!(cpu.start(0x104, 1_000), Ok(true));

    let registers = cpu.registers();
    // r0 = 15 is above 10, so the branch skips the increment; r1 = !0, and
    // 15 + 0xFFFFFFFF wraps to 14 with a carry.
    assert_eq!(registers[0], 14);
    assert_eq!(registers[1], 0xFFFF_FFFF);
    assert_eq!(registers[13], 0x2000_0000);
    assert_eq!(registers[15], 0x116);
    assert_eq!(cpu.flags(), Flags { n: false, z: false, c: true, v: false });
}

#[test]
fn run_falls_through_when_the_condition_fails() {
    // movs r0, #9; cmp r0, #10; bhi +4; movs r1, #1; adds r0, r1, r0; bkpt
    let chunk: &[u8] = &[0x09, 0x20, 0x0a, 0x28, 0x02, 0xd8, 0x01, 0x21, 0x08, 0x18, 0x00, 0xbe];
    let mut cpu = loaded(chunk, 0x104);
    assert_eq!(cpu.start(0x104, 1_000), Ok(true));
    let registers = cpu.registers();
    assert_eq!(registers[0], 10);
    assert_eq!(registers[1], 1);
    assert_eq!(registers[15], 0x10e);
    assert_eq!(cpu.flags(), NO_FLAGS);
}

#[test]
fn movs_then_breakpoint() {
    let mut cpu = loaded(&[0x09, 0x20, 0x00, 0xbe], 0x104);
    assert_eq!(cpu.start(0x104, 10), Ok(true));
    assert_eq!(cpu.registers()[0], 9);
    assert!(!cpu.flags().z);
    assert!(!cpu.flags().n);
    assert_eq!(cpu.registers()[15], 0x106);
}

#[test]
fn stm_with_base_in_list_is_deprecated() {
    let mut cpu = build();
    cpu.write_register(Register::R0, 0x1000);
    cpu.write_register(Register::R2, 7);
    let before = cpu.registers();
    let stm = short(Thumb16::Stm(Register::R0, RegisterList(0b0000_0101)));
    assert_eq!(cpu.execute(&stm), Err(Error::DeprecatedOperand));
    assert_eq!(cpu.registers(), before);
    assert_eq!(cpu.memory().read_u32(0x1000), 0);
    assert_eq!(cpu.memory().read_u32(0x1004), 0);

    // The same from the instruction stream: stm r0!, {r0}
    let mut cpu = loaded(&[0x01, 0xc0, 0x00, 0xbe], 0x200);
    assert_eq!(cpu.start(0x200, 10), Err(Error::DeprecatedOperand));
    assert_eq!(cpu.registers()[15], 0x200);
}

#[test]
fn the_program_counter_is_stored_even_and_reads_four_ahead() {
    let mut cpu = build();
    for value in [0u32, 1, 2, 3, 0x1000, 0x1234_5679, 0xFFFF_FFFE, 0xFFFF_FFFF] {
        cpu.write_register(Register::PC, value);
        assert_eq!(cpu.registers()[15], value & !1);
        assert_eq!(cpu.registers()[15] & 1, 0);
    }
    cpu.write_register(Register::PC, 0x1000);
    assert_eq!(cpu.read_register(Register::PC), 0x1004);
    cpu.write_register(Register::PC, 0xFFFF_FFFA);
    assert_eq!(cpu.read_register(Register::PC), 0xFFFF_FFFE);
    // The sum is reduced to 32 bits.
    cpu.write_register(Register::PC, 0xFFFF_FFFE);
    assert_eq!(cpu.read_register(Register::PC), 2);
    // Any other register gives back what was written to it.
    cpu.write_register(Register::LR, 0x1235);
    assert_eq!(cpu.read_register(Register::LR), 0x1235);
    assert_eq!(cpu.registers()[14], 0x1235);
}

#[test]
fn adds_set_all_four_flags() {
    let mut cpu = build();
    cpu.write_register(Register::R1, 0x7FFF_FFFF);
    assert_eq!(cpu.execute(&short(Thumb16::AddsImmT1(1, Register::R1, Register::R2))), Ok(()));
    assert_eq!(cpu.registers()[2], 0x8000_0000);
    assert_eq!(cpu.flags(), Flags { n: true, z: false, c: false, v: true });

    cpu.write_register(Register::R3, 0xFFFF_FFFF);
    cpu.write_register(Register::R4, 1);
    assert_eq!(cpu.execute(&short(Thumb16::AddsRegT1(Register::R3, Register::R4, Register::R5))), Ok(()));
    assert_eq!(cpu.registers()[5], 0);
    assert_eq!(cpu.flags(), Flags { n: false, z: true, c: true, v: false });
}

#[test]
fn compare_sets_flags_and_writes_nothing() {
    let mut cpu = build();
    cpu.write_register(Register::R5, 3);
    cpu.write_register(Register::R4, 5);
    let before = cpu.registers();
    // cmp r5, r4
    assert_eq!(cpu.execute(&short(Thumb16::DataProc(DpOpcode::CMP, Register::R4, Register::R5))), Ok(()));
    assert_eq!(cpu.flags(), Flags { n: true, z: false, c: false, v: false });
    // cmp r4, r5
    assert_eq!(cpu.execute(&short(Thumb16::DataProc(DpOpcode::CMP, Register::R5, Register::R4))), Ok(()));
    assert_eq!(cpu.flags(), Flags { n: false, z: false, c: true, v: false });
    assert_eq!(cpu.execute(&short(Thumb16::CmpImmT1(Register::R4, 5))), Ok(()));
    assert_eq!(cpu.flags(), Flags { n: false, z: true, c: true, v: false });
    assert_eq!(cpu.execute(&short(Thumb16::CmpImmT1(Register::R0, 1))), Ok(()));
    assert_eq!(cpu.flags(), Flags { n: true, z: false, c: false, v: false });
    assert_eq!(cpu.registers(), before);
}

#[test]
fn mvn_inverts_and_clears_the_carry() {
    let mut cpu = build();
    cpu.write_register(Register::R3, 0xFFFF_FFFF);
    cpu.write_register(Register::R4, 1);
    // Leaves C and V set.
    cpu.execute(&short(Thumb16::AddsRegT1(Register::R3, Register::R4, Register::R5))).unwrap();
    cpu.write_register(Register::R6, 0x8000_0000);
    cpu.execute(&short(Thumb16::AddsRegT1(Register::R6, Register::R6, Register::R7))).unwrap();
    assert_eq!(cpu.flags(), Flags { n: false, z: true, c: true, v: true });

    cpu.write_register(Register::R1, 0x0F0F_0F0F);
    // mvns r2, r1
    assert_eq!(cpu.execute(&short(Thumb16::DataProc(DpOpcode::MVN, Register::R1, Register::R2))), Ok(()));
    assert_eq!(cpu.registers()[2], 0xF0F0_F0F0);
    assert_eq!(cpu.registers()[1], 0x0F0F_0F0F);
    assert_eq!(cpu.flags(), Flags { n: true, z: false, c: false, v: true });

    // mvns r3, r3
    assert_eq!(cpu.execute(&short(Thumb16::DataProc(DpOpcode::MVN, Register::R3, Register::R3))), Ok(()));
    assert_eq!(cpu.registers()[3], 0);
    assert_eq!(cpu.flags(), Flags { n: false, z: true, c: false, v: true });
}

#[test]
fn moves_transfer_values() {
    let mut cpu = build();
    assert_eq!(cpu.execute(&short(Thumb16::MovsImmT1(Register::R3, 0))), Ok(()));
    assert_eq!(cpu.flags(), Flags { n: false, z: true, c: false, v: false });
    assert_eq!(cpu.execute(&short(Thumb16::MovsImmT1(Register::R3, 200))), Ok(()));
    assert_eq!(cpu.registers()[3], 200);
    assert_eq!(cpu.flags(), NO_FLAGS);
    assert_eq!(cpu.execute(&short(Thumb16::MovT1(Register::R3, Register::R9))), Ok(()));
    assert_eq!(cpu.registers()[9], 200);
    assert_eq!(cpu.flags(), NO_FLAGS);
    // A move of the program counter reads it four ahead.
    cpu.write_register(Register::PC, 0x300);
    assert_eq!(cpu.execute(&short(Thumb16::MovT1(Register::PC, Register::R0))), Ok(()));
    assert_eq!(cpu.registers()[0], 0x304);
}

#[test]
fn stack_pointer_arithmetic_sets_no_flags() {
    let mut cpu = build();
    cpu.write_register(Register::MSP, 0x1000);
    assert_eq!(cpu.execute(&short(Thumb16::AddSpImmT1(Register::R7, 8))), Ok(()));
    assert_eq!(cpu.registers()[7], 0x1008);
    assert_eq!(cpu.execute(&short(Thumb16::SubSpSpImmT1(16))), Ok(()));
    assert_eq!(cpu.registers()[13], 0xFF0);
    assert_eq!(cpu.execute(&short(Thumb16::AddSpImmT1(Register::MSP, 0x20))), Ok(()));
    assert_eq!(cpu.registers()[13], 0x1010);
    // Below zero the stack pointer wraps.
    cpu.write_register(Register::MSP, 8);
    assert_eq!(cpu.execute(&short(Thumb16::SubSpSpImmT1(16))), Ok(()));
    assert_eq!(cpu.registers()[13], 0xFFFF_FFF8);
    assert_eq!(cpu.flags(), NO_FLAGS);
}

#[test]
fn branches_move_the_program_counter() {
    let mut cpu = build();
    cpu.write_register(Register::PC, 0x108);
    // bhi with C clear is not taken.
    assert_eq!(cpu.execute(&short(Thumb16::BImmT1(Cond::HI, 4))), Ok(()));
    assert_eq!(cpu.registers()[15], 0x108);
    assert_eq!(cpu.execute(&short(Thumb16::BImmT1(Cond::LS, 4))), Ok(()));
    assert_eq!(cpu.registers()[15], 0x110);
    // Backwards by 4 from the program counter as read.
    assert_eq!(cpu.execute(&short(Thumb16::BT2(0xFFFF_FFFC))), Ok(()));
    assert_eq!(cpu.registers()[15], 0x110);
    assert_eq!(cpu.execute(&short(Thumb16::BT2(0x7FE))), Ok(()));
    assert_eq!(cpu.registers()[15], 0x912);
    cpu.write_register(Register::R2, 0x201);
    assert_eq!(cpu.execute(&short(Thumb16::BxT1(Register::R2))), Ok(()));
    assert_eq!(cpu.registers()[15], 0x200);
}

#[test]
fn branch_with_link_keeps_the_return_address() {
    let mut cpu = build();
    cpu.write_register(Register::PC, 0x120);
    assert_eq!(cpu.execute(&Thumb::Thumb32(Thumb32::BlT1(2000))), Ok(()));
    assert_eq!(cpu.registers()[14], 0x125);
    assert_eq!(cpu.registers()[15], 0x8f4);
    assert_eq!(cpu.execute(&Thumb::Thumb32(Thumb32::BlT1(0xFFFF_FFFC))), Ok(()));
    assert_eq!(cpu.registers()[14], 0x8f9);
    assert_eq!(cpu.registers()[15], 0x8f4);
}

#[test]
fn a_call_returns_through_the_link_register() {
    // 0x100: bl 0x108; 0x104: bkpt; 0x106: bkpt; 0x108: movs r0, #7; 0x10a: bx lr
    let code: &[u8] = &[0x00, 0xf0, 0x02, 0xf8, 0x00, 0xbe, 0x00, 0xbe, 0x07, 0x20, 0x70, 0x47];
    let mut cpu = loaded(code, 0x100);
    cpu.write_register(Register::PC, 0x100);
    assert_eq!(cpu.tick(), Ok(true));
    assert_eq!(cpu.registers()[15], 0x108);
    assert_eq!(cpu.registers()[14], 0x105);
    assert_eq!(cpu.start(0x100, 100), Ok(true));
    assert_eq!(cpu.registers()[0], 7);
    assert_eq!(cpu.registers()[15], 0x104);
}

#[test]
fn literal_load_reads_from_the_aligned_program_counter() {
    let mut cpu = loaded(&[0x78, 0x56, 0x34, 0x12, 0xEF, 0xCD, 0xAB, 0x89], 0x10C);
    cpu.write_register(Register::PC, 0x100);
    assert_eq!(cpu.execute(&short(Thumb16::LdrImmT1(Register::R3, 8))), Ok(()));
    assert_eq!(cpu.registers()[3], 0x1234_5678);
    // From 0x102 the counter reads 0x106, which rounds down to 0x104.
    cpu.write_register(Register::PC, 0x102);
    assert_eq!(cpu.execute(&short(Thumb16::LdrImmT1(Register::R4, 12))), Ok(()));
    assert_eq!(cpu.registers()[4], 0x89AB_CDEF);
    assert_eq!(cpu.flags(), NO_FLAGS);
}

#[test]
fn store_writes_the_word_at_the_stack_offset() {
    let mut cpu = build();
    cpu.write_register(Register::MSP, 0x3000);
    cpu.write_register(Register::R3, 0xDEAD_BEEF);
    assert_eq!(cpu.execute(&short(Thumb16::STRImmT2(Register::R3, 8))), Ok(()));
    assert_eq!(cpu.memory().read_4B(0x3008), [0xEF, 0xBE, 0xAD, 0xDE]);
    assert_eq!(cpu.memory().read_u32(0x3004), 0);
    assert_eq!(cpu.memory().read_u32(0x300C), 0);
    assert_eq!(cpu.registers()[13], 0x3000);
}

#[test]
fn push_stores_below_the_stack_pointer_in_ascending_order() {
    let mut cpu = build();
    cpu.write_register(Register::MSP, 0x2000_0000);
    cpu.write_register(Register::R4, 0x4444_4444);
    cpu.write_register(Register::R5, 0x5555_5555);
    cpu.write_register(Register::R7, 0x7777_7777);
    cpu.write_register(Register::LR, 0x0000_0125);
    assert_eq!(cpu.execute(&short(Thumb16::Push(RegisterList(0x40b0)))), Ok(()));
    assert_eq!(cpu.registers()[13], 0x1FFF_FFF0);
    assert_eq!(cpu.memory().read_u32(0x1FFF_FFF0), 0x4444_4444);
    assert_eq!(cpu.memory().read_u32(0x1FFF_FFF4), 0x5555_5555);
    assert_eq!(cpu.memory().read_u32(0x1FFF_FFF8), 0x7777_7777);
    assert_eq!(cpu.memory().read_u32(0x1FFF_FFFC), 0x0000_0125);
    assert_eq!(cpu.memory().read_u32(0x1FFF_FFEC), 0);
    assert_eq!(cpu.flags(), NO_FLAGS);

    // An empty list stores nothing and leaves the stack pointer.
    assert_eq!(cpu.execute(&short(Thumb16::Push(RegisterList(0)))), Ok(()));
    assert_eq!(cpu.registers()[13], 0x1FFF_FFF0);
}

#[test]
fn store_multiple_writes_upwards_and_moves_the_base() {
    let mut cpu = build();
    cpu.write_register(Register::R0, 0x2000);
    cpu.write_register(Register::R1, 0x1111_1111);
    cpu.write_register(Register::R2, 0x2222_2222);
    cpu.write_register(Register::R6, 0x6666_6666);
    assert_eq!(cpu.execute(&short(Thumb16::Stm(Register::R0, RegisterList(0b0100_0110)))), Ok(()));
    assert_eq!(cpu.memory().read_u32(0x2000), 0x1111_1111);
    assert_eq!(cpu.memory().read_u32(0x2004), 0x2222_2222);
    assert_eq!(cpu.memory().read_u32(0x2008), 0x6666_6666);
    assert_eq!(cpu.memory().read_u32(0x200C), 0);
    assert_eq!(cpu.registers()[0], 0x200C);

    // Up to the last word of the address space, after which the base wraps.
    cpu.write_register(Register::R0, 0xFFFF_FFF8);
    assert_eq!(cpu.execute(&short(Thumb16::Stm(Register::R0, RegisterList(0b0000_0110)))), Ok(()));
    assert_eq!(cpu.memory().read_u32(0xFFFF_FFFC), 0x2222_2222);
    assert_eq!(cpu.registers()[0], 0);
}

#[test]
fn mrs_composes_the_bits_that_a_special_register_owns() {
    let mut cpu = build();
    cpu.write_special_register(SpecialRegister::APSR, 0xFFFF_FFFF);
    cpu.write_special_register(SpecialRegister::IPSR, 0x1234);
    cpu.write_special_register(SpecialRegister::EPSR, 0xFFFF_FFFF);
    cpu.write_special_register(SpecialRegister::MSP, 0x2000_0000);
    cpu.write_special_register(SpecialRegister::PSP, 0x1000_0000);
    cpu.write_special_register(SpecialRegister::PRIMASK, 0xFF);
    cpu.write_special_register(SpecialRegister::CONTROL, 0xFF);
    assert_eq!(cpu.read_special_register(SpecialRegister::IPSR), 0x1234);
    assert_eq!(cpu.read_special_register(SpecialRegister::CONTROL), 0xFF);
    assert_eq!(cpu.read_special_register(SpecialRegister::XPSR), 0);

    let cases = [
        (SpecialRegister::APSR, 0xF800_0000u32),
        (SpecialRegister::IAPSR, 0xF800_0034),
        (SpecialRegister::EAPSR, 0xF800_0000),
        (SpecialRegister::XPSR, 0xF800_0034),
        (SpecialRegister::IPSR, 0x34),
        (SpecialRegister::EPSR, 0),
        (SpecialRegister::IEPSR, 0x34),
        (SpecialRegister::MSP, 0x2000_0000),
        (SpecialRegister::PSP, 0x1000_0000),
        (SpecialRegister::PRIMASK, 1),
        (SpecialRegister::CONTROL, 3),
    ];
    for (sr, want) in cases {
        assert_eq!(cpu.execute(&Thumb::Thumb32(Thumb32::MrsT1(Register::R0, sr))), Ok(()));
        assert_eq!(cpu.registers()[0], want, "{:?}", sr);
    }
    assert_eq!(cpu.flags(), NO_FLAGS);
}

#[test]
fn what_is_not_modelled_is_refused() {
    let mut cpu = build();
    cpu.write_register(Register::R1, 5);
    let before = cpu.registers();
    let gaps = [
        short(Thumb16::Ldm(Register::R0, RegisterList(2))),
        short(Thumb16::UdfT1(0)),
        short(Thumb16::Bkpt(0)),
        short(Thumb16::DataProc(DpOpcode::AND, Register::R1, Register::R0)),
        short(Thumb16::DataProc(DpOpcode::OR, Register::R1, Register::R0)),
        short(Thumb16::DataProc(DpOpcode::LSL, Register::R1, Register::R0)),
        short(Thumb16::DataProc(DpOpcode::LSR, Register::R1, Register::R0)),
        short(Thumb16::DataProc(DpOpcode::ASR, Register::R1, Register::R0)),
        short(Thumb16::DataProc(DpOpcode::ADC, Register::R1, Register::R0)),
        short(Thumb16::DataProc(DpOpcode::SBC, Register::R1, Register::R0)),
        short(Thumb16::DataProc(DpOpcode::ROR, Register::R1, Register::R0)),
        short(Thumb16::DataProc(DpOpcode::TST, Register::R1, Register::R0)),
        short(Thumb16::DataProc(DpOpcode::RSB, Register::R1, Register::R0)),
        short(Thumb16::DataProc(DpOpcode::CMN, Register::R1, Register::R0)),
        short(Thumb16::DataProc(DpOpcode::ORR, Register::R1, Register::R0)),
        short(Thumb16::DataProc(DpOpcode::MUL, Register::R1, Register::R0)),
        short(Thumb16::DataProc(DpOpcode::BIC, Register::R1, Register::R0)),
        Thumb::Thumb32(Thumb32::MsrT1(Register::R1, SpecialRegister::MSP)),
    ];
    for instruction in gaps.iter() {
        assert_eq!(cpu.execute(instruction), Err(Error::NotImplemented), "{:?}", instruction);
        assert_eq!(cpu.registers(), before);
        assert_eq!(cpu.flags(), NO_FLAGS);
    }
    // From the instruction stream: udf #0
    let mut cpu = loaded(&[0x00, 0xde], 0x40);
    assert_eq!(cpu.start(0x40, 5), Err(Error::NotImplemented));
}

#[test]
fn accesses_beyond_the_address_space_are_refused() {
    let mut cpu = build();
    cpu.write_register(Register::MSP, 0xFFFF_FFFD);
    cpu.write_register(Register::R1, 0x1111_1111);
    cpu.write_register(Register::R2, 0x2222_2222);
    let before = cpu.registers();
    assert_eq!(cpu.execute(&short(Thumb16::STRImmT2(Register::R1, 0))), Err(Error::OutOfBounds));
    // The address of a store wraps before it is checked.
    assert_eq!(cpu.execute(&short(Thumb16::STRImmT2(Register::R1, 3))), Ok(()));
    assert_eq!(cpu.memory().read_u32(0), 0x1111_1111);

    cpu.write_register(Register::MSP, 4);
    assert_eq!(cpu.execute(&short(Thumb16::Push(RegisterList(0b110)))), Err(Error::OutOfBounds));
    assert_eq!(cpu.registers()[13], 4);
    assert_eq!(cpu.execute(&short(Thumb16::Push(RegisterList(0b010)))), Ok(()));
    assert_eq!(cpu.registers()[13], 0);
    assert_eq!(cpu.memory().read_u32(0), 0x1111_1111);

    cpu.write_register(Register::R0, 0xFFFF_FFFC);
    assert_eq!(cpu.execute(&short(Thumb16::Stm(Register::R0, RegisterList(0b110)))), Err(Error::OutOfBounds));
    assert_eq!(cpu.registers()[0], 0xFFFF_FFFC);
    assert_eq!(cpu.memory().read_u32(0xFFFF_FFFC), 0);

    cpu.write_register(Register::PC, 0xFFFF_FFF8);
    assert_eq!(cpu.execute(&short(Thumb16::LdrImmT1(Register::R3, 1))), Err(Error::OutOfBounds));
    assert_eq!(cpu.registers()[3], before[3]);

    let program = Program::build(&[1, 2], 0xFFFF_FFFF, 0x100);
    assert_eq!(cpu.load_program(&program), Err(Error::OutOfBounds));
    assert_eq!(cpu.registers()[13], 0);
    assert_eq!(cpu.memory().read_byte(0xFFFF_FFFF), 0);
    let program = Program::build(&[1, 2], 0xFFFF_FFFE, 0x100);
    assert_eq!(cpu.load_program(&program), Ok(()));
    assert_eq!(cpu.registers()[13], 0x100);
    assert_eq!(cpu.memory().read_byte(0xFFFF_FFFF), 2);
}

#[test]
fn a_cycle_advances_by_the_width_of_the_instruction() {
    // mrs r0, msp; movs r1, #1; bkpt
    let mut cpu = loaded(&[0xef, 0xf3, 0x08, 0x80, 0x01, 0x21, 0x00, 0xbe], 0x80);
    cpu.write_register(Register::PC, 0x80);
    assert_eq!(cpu.tick(), Ok(true));
    assert_eq!(cpu.registers()[15], 0x84);
    assert_eq!(cpu.tick(), Ok(true));
    assert_eq!(cpu.registers()[15], 0x86);
    assert_eq!(cpu.registers()[1], 1);
    // The breakpoint ends the run and stays where it is.
    assert_eq!(cpu.tick(), Ok(false));
    assert_eq!(cpu.registers()[15], 0x86);
    assert_eq!(cpu.tick(), Ok(false));
}

#[test]
fn a_run_ends_with_its_budget() {
    // b .
    let mut cpu = loaded(&[0xfe, 0xe7], 0x500);
    assert_eq!(cpu.start(0x500, 50), Ok(false));
    assert_eq!(cpu.registers()[15], 0x500);
    assert_eq!(cpu.start(0x500, 0), Ok(false));
    // movs r0, #1; adds r0, r0, #1; bkpt: three cycles are needed to see the breakpoint.
    let mut cpu = loaded(&[0x01, 0x20, 0x40, 0x1c, 0x00, 0xbe], 0x500);
    assert_eq!(cpu.start(0x500, 2), Ok(false));
    assert_eq!(cpu.registers()[0], 2);
    assert_eq!(cpu.registers()[15], 0x504);
    assert_eq!(cpu.start(0x500, 3), Ok(true));
    // Wherever a run is entered, the program counter is even afterwards.
    let mut cpu = loaded(&[0x01, 0x20, 0x00, 0xbe], 0x700);
    assert_eq!(cpu.start(0x701, 5), Ok(true));
    assert_eq!(cpu.registers()[0], 1);
    assert_eq!(cpu.registers()[15], 0x702);
}

#[test]
fn a_run_stops_at_what_does_not_decode() {
    // Zeroed memory holds lsls r0, r0, #0, which is not modelled.
    let mut cpu = build();
    assert_eq!(cpu.start(0x1000, 10), Err(Error::IllegalEncoding));
    assert_eq!(cpu.registers()[15], 0x1000);
    // movs r0, #1 and then the first half of a 32-bit instruction at the end of the memory.
    let mut cpu = loaded(&[0x01, 0x20, 0x00, 0xf0], 0xFFFF_FFFC);
    assert_eq!(cpu.start(0xFFFF_FFFC, 10), Err(Error::ChunkNotLongEnough));
    assert_eq!(cpu.registers()[0], 1);
    assert_eq!(cpu.registers()[15], 0xFFFF_FFFE);
}

#[test]
fn an_instruction_can_be_inspected_without_being_executed() {
    let cpu = loaded(&[0x09, 0x20, 0x00, 0xf0, 0xe8, 0xfb], 0x104);
    assert_eq!(cpu.instruction_at(0x104), Ok(short(Thumb16::MovsImmT1(Register::R0, 9))));
    assert_eq!(cpu.instruction_at(0x106), Ok(Thumb::Thumb32(Thumb32::BlT1(2000))));
    assert_eq!(cpu.instruction_at(0x10a), Err(Error::IllegalEncoding));
    assert_eq!(cpu.instruction_at(0xFFFF_FFFF), Err(Error::ChunkNotLongEnough));
    assert_eq!(cpu.registers(), {
        let mut fresh = [0u32; 16];
        fresh[13] = 0x2000_0000;
        fresh
    });
}

#[test]
fn conditions_are_read_from_the_current_flags() {
    let mut cpu = build();
    cpu.write_register(Register::R0, 5);
    cpu.execute(&short(Thumb16::CmpImmT1(Register::R0, 5))).unwrap();
    assert!(cpu.condition_passed(Cond::EQ));
    assert!(!cpu.condition_passed(Cond::NE));
    assert!(cpu.condition_passed(Cond::CS));
    assert!(!cpu.condition_passed(Cond::HI));
    assert!(cpu.condition_passed(Cond::LS));
    assert!(cpu.condition_passed(Cond::GE));
    assert!(!cpu.condition_passed(Cond::GT));
    assert!(cpu.condition_passed(Cond::AL));
}
