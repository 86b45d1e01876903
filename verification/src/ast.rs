//! Structured form of the Thumb instructions that the decoder produces.

use vstd::prelude::*;
use vstd::std_specs::convert::{FromSpecImpl, TryFromSpecImpl};

verus! {

/// A number that names no member of the enumeration it was to be converted to.
#[derive(Copy, Clone, Debug, PartialEq, Eq, Structural)]
pub struct UnknownCode(pub u8);

/// Condition under which a conditional instruction takes effect. The last
/// member stands for "always".
#[derive(Copy, Clone, Debug, PartialEq, Eq, Structural)]
pub enum Cond {
    EQ,
    NE,
    CS,
    CC,
    MI,
    PL,
    VS,
    VC,
    HI,
    LS,
    GE,
    LT,
    GT,
    LE,
    AL,
}

impl Cond {
    /// The number that the instruction encodings use for this value.
    pub open spec fn code(self) -> u8 {
        match self {
            Cond::EQ => 0,
            Cond::NE => 1,
            Cond::CS => 2,
            Cond::CC => 3,
            Cond::MI => 4,
            Cond::PL => 5,
            Cond::VS => 6,
            Cond::VC => 7,
            Cond::HI => 8,
            Cond::LS => 9,
            Cond::GE => 10,
            Cond::LT => 11,
            Cond::GT => 12,
            Cond::LE => 13,
            Cond::AL => 14,
        }
    }

    /// The condition with the given number, if there is one.
    pub open spec fn from_code(code: u8) -> Option<Cond> {
        match code {
            0 => Some(Cond::EQ),
            1 => Some(Cond::NE),
            2 => Some(Cond::CS),
            3 => Some(Cond::CC),
            4 => Some(Cond::MI),
            5 => Some(Cond::PL),
            6 => Some(Cond::VS),
            7 => Some(Cond::VC),
            8 => Some(Cond::HI),
            9 => Some(Cond::LS),
            10 => Some(Cond::GE),
            11 => Some(Cond::LT),
            12 => Some(Cond::GT),
            13 => Some(Cond::LE),
            14 => Some(Cond::AL),
            _ => None,
        }
    }
}

impl TryFrom<u8> for Cond {
    type Error = UnknownCode;

    fn try_from(code: u8) -> (r: Result<Cond, UnknownCode>) {
        match code {
            0 => Ok(Cond::EQ),
            1 => Ok(Cond::NE),
            2 => Ok(Cond::CS),
            3 => Ok(Cond::CC),
            4 => Ok(Cond::MI),
            5 => Ok(Cond::PL),
            6 => Ok(Cond::VS),
            7 => Ok(Cond::VC),
            8 => Ok(Cond::HI),
            9 => Ok(Cond::LS),
            10 => Ok(Cond::GE),
            11 => Ok(Cond::LT),
            12 => Ok(Cond::GT),
            13 => Ok(Cond::LE),
            14 => Ok(Cond::AL),
            _ => Err(UnknownCode(code)),
        }
    }
}

impl TryFromSpecImpl<u8> for Cond {
    open spec fn obeys_try_from_spec() -> bool {
        true
    }

    open spec fn try_from_spec(code: u8) -> Result<Cond, UnknownCode> {
        match Cond::from_code(code) {
            Some(v) => Ok(v),
            None => Err(UnknownCode(code)),
        }
    }
}

impl From<Cond> for u8 {
    fn from(v: Cond) -> (code: u8) {
        match v {
            Cond::EQ => 0,
            Cond::NE => 1,
            Cond::CS => 2,
            Cond::CC => 3,
            Cond::MI => 4,
            Cond::PL => 5,
            Cond::VS => 6,
            Cond::VC => 7,
            Cond::HI => 8,
            Cond::LS => 9,
            Cond::GE => 10,
            Cond::LT => 11,
            Cond::GT => 12,
            Cond::LE => 13,
            Cond::AL => 14,
        }
    }
}

impl FromSpecImpl<Cond> for u8 {
    open spec fn obeys_from_spec() -> bool {
        true
    }

    open spec fn from_spec(v: Cond) -> u8 {
        v.code()
    }
}

/// Operation selected by the 4-bit opcode field of a 16-bit data-processing
/// instruction.
#[derive(Copy, Clone, Debug, PartialEq, Eq, Structural)]
pub enum DpOpcode {
    AND,
    OR,
    LSL,
    LSR,
    ASR,
    ADC,
    SBC,
    ROR,
    TST,
    RSB,
    CMP,
    CMN,
    ORR,
    MUL,
    BIC,
    MVN,
}

impl DpOpcode {
    /// The number that the instruction encodings use for this value.
    pub open spec fn code(self) -> u8 {
        match self {
            DpOpcode::AND => 0,
            DpOpcode::OR => 1,
            DpOpcode::LSL => 2,
            DpOpcode::LSR => 3,
            DpOpcode::ASR => 4,
            DpOpcode::ADC => 5,
            DpOpcode::SBC => 6,
            DpOpcode::ROR => 7,
            DpOpcode::TST => 8,
            DpOpcode::RSB => 9,
            DpOpcode::CMP => 10,
            DpOpcode::CMN => 11,
            DpOpcode::ORR => 12,
            DpOpcode::MUL => 13,
            DpOpcode::BIC => 14,
            DpOpcode::MVN => 15,
        }
    }

    /// The operation with the given number, if there is one.
    pub open spec fn from_code(code: u8) -> Option<DpOpcode> {
        match code {
            0 => Some(DpOpcode::AND),
            1 => Some(DpOpcode::OR),
            2 => Some(DpOpcode::LSL),
            3 => Some(DpOpcode::LSR),
            4 => Some(DpOpcode::ASR),
            5 => Some(DpOpcode::ADC),
            6 => Some(DpOpcode::SBC),
            7 => Some(DpOpcode::ROR),
            8 => Some(DpOpcode::TST),
            9 => Some(DpOpcode::RSB),
            10 => Some(DpOpcode::CMP),
            11 => Some(DpOpcode::CMN),
            12 => Some(DpOpcode::ORR),
            13 => Some(DpOpcode::MUL),
            14 => Some(DpOpcode::BIC),
            15 => Some(DpOpcode::MVN),
            _ => None,
        }
    }
}

impl TryFrom<u8> for DpOpcode {
    type Error = UnknownCode;

    fn try_from(code: u8) -> (r: Result<DpOpcode, UnknownCode>) {
        match code {
            0 => Ok(DpOpcode::AND),
            1 => Ok(DpOpcode::OR),
            2 => Ok(DpOpcode::LSL),
            3 => Ok(DpOpcode::LSR),
            4 => Ok(DpOpcode::ASR),
            5 => Ok(DpOpcode::ADC),
            6 => Ok(DpOpcode::SBC),
            7 => Ok(DpOpcode::ROR),
            8 => Ok(DpOpcode::TST),
            9 => Ok(DpOpcode::RSB),
            10 => Ok(DpOpcode::CMP),
            11 => Ok(DpOpcode::CMN),
            12 => Ok(DpOpcode::ORR),
            13 => Ok(DpOpcode::MUL),
            14 => Ok(DpOpcode::BIC),
            15 => Ok(DpOpcode::MVN),
            _ => Err(UnknownCode(code)),
        }
    }
}

impl TryFromSpecImpl<u8> for DpOpcode {
    open spec fn obeys_try_from_spec() -> bool {
        true
    }

    open spec fn try_from_spec(code: u8) -> Result<DpOpcode, UnknownCode> {
        match DpOpcode::from_code(code) {
            Some(v) => Ok(v),
            None => Err(UnknownCode(code)),
        }
    }
}

impl From<DpOpcode> for u8 {
    fn from(v: DpOpcode) -> (code: u8) {
        match v {
            DpOpcode::AND => 0,
            DpOpcode::OR => 1,
            DpOpcode::LSL => 2,
            DpOpcode::LSR => 3,
            DpOpcode::ASR => 4,
            DpOpcode::ADC => 5,
            DpOpcode::SBC => 6,
            DpOpcode::ROR => 7,
            DpOpcode::TST => 8,
            DpOpcode::RSB => 9,
            DpOpcode::CMP => 10,
            DpOpcode::CMN => 11,
            DpOpcode::ORR => 12,
            DpOpcode::MUL => 13,
            DpOpcode::BIC => 14,
            DpOpcode::MVN => 15,
        }
    }
}

impl FromSpecImpl<DpOpcode> for u8 {
    open spec fn obeys_from_spec() -> bool {
        true
    }

    open spec fn from_spec(v: DpOpcode) -> u8 {
        v.code()
    }
}

/// Names of the register-to-register data-processing operations.
#[derive(Copy, Clone, Debug, PartialEq, Eq, Structural)]
pub enum Instruction {
    And,
    Or,
    Lsl,
    Lsr,
    Asr,
    Adc,
    Sbc,
    Ror,
    Tst,
    Rsb,
    Cmp,
    Orr,
    Mul,
    Bic,
    Mvn,
}

/// One of the sixteen architectural register slots: thirteen general-purpose
/// registers, the main stack pointer, the link register and the program counter.
#[derive(Copy, Clone, Debug, PartialEq, Eq, Structural)]
pub enum Register {
    R0,
    R1,
    R2,
    R3,
    R4,
    R5,
    R6,
    R7,
    R8,
    R9,
    R10,
    R11,
    R12,
    MSP,
    LR,
    PC,
}

impl Register {
    /// The number that the instruction encodings use for this value.
    pub open spec fn code(self) -> u8 {
        match self {
            Register::R0 => 0,
            Register::R1 => 1,
            Register::R2 => 2,
            Register::R3 => 3,
            Register::R4 => 4,
            Register::R5 => 5,
            Register::R6 => 6,
            Register::R7 => 7,
            Register::R8 => 8,
            Register::R9 => 9,
            Register::R10 => 10,
            Register::R11 => 11,
            Register::R12 => 12,
            Register::MSP => 13,
            Register::LR => 14,
            Register::PC => 15,
        }
    }

    /// The register with the given number, if there is one.
    pub open spec fn from_code(code: u8) -> Option<Register> {
        match code {
            0 => Some(Register::R0),
            1 => Some(Register::R1),
            2 => Some(Register::R2),
            3 => Some(Register::R3),
            4 => Some(Register::R4),
            5 => Some(Register::R5),
            6 => Some(Register::R6),
            7 => Some(Register::R7),
            8 => Some(Register::R8),
            9 => Some(Register::R9),
            10 => Some(Register::R10),
            11 => Some(Register::R11),
            12 => Some(Register::R12),
            13 => Some(Register::MSP),
            14 => Some(Register::LR),
            15 => Some(Register::PC),
            _ => None,
        }
    }
}

impl TryFrom<u8> for Register {
    type Error = UnknownCode;

    fn try_from(code: u8) -> (r: Result<Register, UnknownCode>) {
        match code {
            0 => Ok(Register::R0),
            1 => Ok(Register::R1),
            2 => Ok(Register::R2),
            3 => Ok(Register::R3),
            4 => Ok(Register::R4),
            5 => Ok(Register::R5),
            6 => Ok(Register::R6),
            7 => Ok(Register::R7),
            8 => Ok(Register::R8),
            9 => Ok(Register::R9),
            10 => Ok(Register::R10),
            11 => Ok(Register::R11),
            12 => Ok(Register::R12),
            13 => Ok(Register::MSP),
            14 => Ok(Register::LR),
            15 => Ok(Register::PC),
            _ => Err(UnknownCode(code)),
        }
    }
}

impl TryFromSpecImpl<u8> for Register {
    open spec fn obeys_try_from_spec() -> bool {
        true
    }

    open spec fn try_from_spec(code: u8) -> Result<Register, UnknownCode> {
        match Register::from_code(code) {
            Some(v) => Ok(v),
            None => Err(UnknownCode(code)),
        }
    }
}

impl From<Register> for u8 {
    fn from(v: Register) -> (code: u8) {
        match v {
            Register::R0 => 0,
            Register::R1 => 1,
            Register::R2 => 2,
            Register::R3 => 3,
            Register::R4 => 4,
            Register::R5 => 5,
            Register::R6 => 6,
            Register::R7 => 7,
            Register::R8 => 8,
            Register::R9 => 9,
            Register::R10 => 10,
            Register::R11 => 11,
            Register::R12 => 12,
            Register::MSP => 13,
            Register::LR => 14,
            Register::PC => 15,
        }
    }
}

impl FromSpecImpl<Register> for u8 {
    open spec fn obeys_from_spec() -> bool {
        true
    }

    open spec fn from_spec(v: Register) -> u8 {
        v.code()
    }
}

/// Special register named by the SYSm field of the MRS and MSR instructions.
#[derive(Copy, Clone, Debug, PartialEq, Eq, Structural)]
pub enum SpecialRegister {
    APSR,
    IAPSR,
    EAPSR,
    XPSR,
    IPSR,
    EPSR,
    IEPSR,
    MSP,
    PSP,
    PRIMASK,
    CONTROL,
}

impl SpecialRegister {
    /// The number that the instruction encodings use for this value.
    pub open spec fn code(self) -> u8 {
        match self {
            SpecialRegister::APSR => 0,
            SpecialRegister::IAPSR => 1,
            SpecialRegister::EAPSR => 2,
            SpecialRegister::XPSR => 3,
            SpecialRegister::IPSR => 5,
            SpecialRegister::EPSR => 6,
            SpecialRegister::IEPSR => 7,
            SpecialRegister::MSP => 8,
            SpecialRegister::PSP => 9,
            SpecialRegister::PRIMASK => 16,
            SpecialRegister::CONTROL => 20,
        }
    }

    /// The special register with the given number, if there is one.
    pub open spec fn from_code(code: u8) -> Option<SpecialRegister> {
        match code {
            0 => Some(SpecialRegister::APSR),
            1 => Some(SpecialRegister::IAPSR),
            2 => Some(SpecialRegister::EAPSR),
            3 => Some(SpecialRegister::XPSR),
            5 => Some(SpecialRegister::IPSR),
            6 => Some(SpecialRegister::EPSR),
            7 => Some(SpecialRegister::IEPSR),
            8 => Some(SpecialRegister::MSP),
            9 => Some(SpecialRegister::PSP),
            16 => Some(SpecialRegister::PRIMASK),
            20 => Some(SpecialRegister::CONTROL),
            _ => None,
        }
    }
}

impl TryFrom<u8> for SpecialRegister {
    type Error = UnknownCode;

    fn try_from(code: u8) -> (r: Result<SpecialRegister, UnknownCode>) {
        match code {
            0 => Ok(SpecialRegister::APSR),
            1 => Ok(SpecialRegister::IAPSR),
            2 => Ok(SpecialRegister::EAPSR),
            3 => Ok(SpecialRegister::XPSR),
            5 => Ok(SpecialRegister::IPSR),
            6 => Ok(SpecialRegister::EPSR),
            7 => Ok(SpecialRegister::IEPSR),
            8 => Ok(SpecialRegister::MSP),
            9 => Ok(SpecialRegister::PSP),
            16 => Ok(SpecialRegister::PRIMASK),
            20 => Ok(SpecialRegister::CONTROL),
            _ => Err(UnknownCode(code)),
        }
    }
}

impl TryFromSpecImpl<u8> for SpecialRegister {
    open spec fn obeys_try_from_spec() -> bool {
        true
    }

    open spec fn try_from_spec(code: u8) -> Result<SpecialRegister, UnknownCode> {
        match SpecialRegister::from_code(code) {
            Some(v) => Ok(v),
            None => Err(UnknownCode(code)),
        }
    }
}

impl From<SpecialRegister> for u8 {
    fn from(v: SpecialRegister) -> (code: u8) {
        match v {
            SpecialRegister::APSR => 0,
            SpecialRegister::IAPSR => 1,
            SpecialRegister::EAPSR => 2,
            SpecialRegister::XPSR => 3,
            SpecialRegister::IPSR => 5,
            SpecialRegister::EPSR => 6,
            SpecialRegister::IEPSR => 7,
            SpecialRegister::MSP => 8,
            SpecialRegister::PSP => 9,
            SpecialRegister::PRIMASK => 16,
            SpecialRegister::CONTROL => 20,
        }
    }
}

impl FromSpecImpl<SpecialRegister> for u8 {
    open spec fn obeys_from_spec() -> bool {
        true
    }

    open spec fn from_spec(v: SpecialRegister) -> u8 {
        v.code()
    }
}

pub type Imm32 = u32;

pub type Rn = Register;

pub type Rd = Register;

pub type Rm = Register;

pub type Rt = Register;

/// Set of registers as a bitmask: bit `i` stands for the register numbered `i`.
#[derive(Copy, Clone, Debug, PartialEq, Eq, Structural)]
pub struct RegisterList(pub u16);

impl RegisterList {
    /// Whether the register is in the list.
    pub open spec fn has(self, r: Register) -> bool {
        (self.0 >> r.code()) & 1 == 1
    }

    /// The registers of the list numbered below `n`, in ascending order.
    pub open spec fn below(self, n: nat) -> Seq<Register>
        decreases n,
    {
        if n == 0 {
            Seq::empty()
        } else {
            let lower = self.below((n - 1) as nat);
            match Register::from_code((n - 1) as u8) {
                Some(r) => if self.has(r) {
                    lower.push(r)
                } else {
                    lower
                },
                None => lower,
            }
        }
    }

    /// The registers of the list numbered below `n` are exactly those, each
    /// once, in strictly ascending order of their numbers.
    pub proof fn lemma_below(self, n: nat)
        requires
            n <= 16,
        ensures
            self.below(n).len() <= n,
            forall|r: Register|
                #![trigger self.below(n).contains(r)]
                #![trigger self.has(r)]
                self.below(n).contains(r) <==> (self.has(r) && r.code() < n),
            forall|i: int, j: int|
                #![trigger self.below(n)[i], self.below(n)[j]]
                0 <= i < j < self.below(n).len() ==> self.below(n)[i].code() < self.below(n)[j].code(),
        decreases n,
    {
        if n > 0 {
            let lower = self.below((n - 1) as nat);
            let full = self.below(n);
            self.lemma_below((n - 1) as nat);
            let top = Register::from_code((n - 1) as u8);
            assert(top is Some && top->Some_0.code() == n - 1);
            let r0 = top->Some_0;
            assert forall|r: Register| r.code() == n - 1 implies r == r0 by {
                assert(Register::from_code(r.code()) == Some(r));
            }
            if self.has(r0) {
                assert(full == lower.push(r0));
                assert forall|r: Register| full.contains(r) <==> (self.has(r) && r.code() < n) by {
                    if full.contains(r) {
                        let k = choose|k: int| 0 <= k < full.len() && full[k] == r;
                        if k < lower.len() {
                            assert(lower[k] == r);
                            assert(lower.contains(r));
                        } else {
                            assert(r == r0);
                        }
                    }
                    if self.has(r) && r.code() < n {
                        if r.code() < n - 1 {
                            assert(lower.contains(r));
                            let k = choose|k: int| 0 <= k < lower.len() && lower[k] == r;
                            assert(full[k] == r);
                        } else {
                            assert(full[lower.len() as int] == r);
                        }
                    }
                }
                assert forall|i: int, j: int| 0 <= i < j < full.len() implies full[i].code() < full[j].code() by {
                    assert(full[i] == lower[i]);
                    if j == lower.len() {
                        assert(lower.contains(lower[i]));
                        assert(full[j] == r0);
                    } else {
                        assert(full[j] == lower[j]);
                    }
                }
            } else {
                assert(full == lower);
            }
        }
    }

    /// The view of a list holds exactly the registers of the list, each
    /// once, in strictly ascending order of their numbers.
    pub proof fn lemma_view(self)
        ensures
            self@.len() <= 16,
            forall|r: Register| #![trigger self@.contains(r)] #![trigger self.has(r)] self@.contains(r) <==> self.has(r),
            forall|i: int, j: int|
                #![trigger self@[i], self@[j]]
                0 <= i < j < self@.len() ==> self@[i].code() < self@[j].code(),
    {
        self.lemma_below(16);
    }

    /// The registers of the list in ascending order.
    pub fn to_vec(&self) -> (ret: Vec<Register>)
        ensures
            ret@ == self@,
    {
        let mut ret: Vec<Register> = Vec::new();
        let mut i: u8 = 0;
        while i < 16
            invariant
                i <= 16,
                ret@ == self.below(i as nat),
            decreases 16 - i,
        {
            if (self.0 >> i) & 1 == 1 {
                let r = Register::try_from(i);
                ret.push(r.unwrap());
            }
            i = i + 1;
        }
        ret
    }
}

impl View for RegisterList {
    type V = Seq<Register>;

    open spec fn view(&self) -> Seq<Register> {
        self.below(16)
    }
}

/// A 16-bit instruction.
#[derive(Copy, Clone, Debug, PartialEq, Eq, Structural)]
pub enum Thumb16 {
    AddsImmT1(Imm32, Rn, Rd),
    BxT1(Rm),
    CmpImmT1(Rn, Imm32),
    BImmT1(Cond, Imm32),
    MovsImmT1(Rd, Imm32),
    AddsRegT1(Rm, Rn, Rd),
    DataProc(DpOpcode, Register, Register),
    MovT1(Rm, Rd),
    LdrImmT1(Rt, Imm32),
    Stm(Rn, RegisterList),
    BT2(Imm32),
    Ldm(Rn, RegisterList),
    Push(RegisterList),
    UdfT1(Imm32),
    AddSpImmT1(Rd, Imm32),
    SubSpSpImmT1(Imm32),
    STRImmT2(Rt, Imm32),
    Bkpt(Imm32),
}

/// A 32-bit instruction.
#[derive(Copy, Clone, Debug, PartialEq, Eq, Structural)]
pub enum Thumb32 {
    BlT1(Imm32),
    MsrT1(Rn, SpecialRegister),
    MrsT1(Rd, SpecialRegister),
}

/// A decoded instruction of either width.
#[derive(Copy, Clone, Debug, PartialEq, Eq, Structural)]
pub enum Thumb {
    Thumb16(Thumb16),
    Thumb32(Thumb32),
}

} // verus!
