//! The instruction table and the bit-level projection between a 32-bit
//! machine word and its structured view.
//!
//! Each RV32 encoding format is a struct whose fields hold the already-masked
//! field values; `Kind::to_u32` assembles the word and `Kind::to_op` is the
//! reverse projection.

use vstd::prelude::*;

use crate::text::str_eq;

verus! {

broadcast use vstd::string::group_string_axioms;

/// A mnemonic with no direct encoding; the assembler expands it.
#[derive(Debug, Clone, Copy, PartialEq, Eq, Structural)]
pub enum PseudoOp {
    Nop,
    Li,
    Beqz,
    Bnez,
    J,
}

/// Will be converted by the engine to real instructions.
#[derive(Debug, Clone, Copy, PartialEq, Eq, Structural)]
pub struct Pseudo(pub PseudoOp);

/// R format: register-register operations.
#[derive(Debug, Clone, Copy, PartialEq, Eq, Structural)]
pub struct R {
    pub funct7: u32,
    pub rb: u32,
    pub ra: u32,
    pub funct3: u32,
    pub rd: u32,
    pub opcode: u32,
}

/// R4 format: three source registers (fused multiply-add).
#[derive(Debug, Clone, Copy, PartialEq, Eq, Structural)]
pub struct R4 {
    pub rc: u32,
    pub funct2: u32,
    pub rb: u32,
    pub ra: u32,
    pub funct3: u32,
    pub rd: u32,
    pub opcode: u32,
}

/// I format: register-immediate operations.
#[derive(Debug, Clone, Copy, PartialEq, Eq, Structural)]
pub struct I {
    pub imm: u32,
    pub ra: u32,
    pub funct3: u32,
    pub rd: u32,
    pub opcode: u32,
}

/// I2 format: shifts with a six-bit immediate.
#[derive(Debug, Clone, Copy, PartialEq, Eq, Structural)]
pub struct I2 {
    pub funct6: u32,
    pub imm: u32,
    pub ra: u32,
    pub funct3: u32,
    pub rd: u32,
    pub opcode: u32,
}

/// S format: stores; the immediate is split around the source registers.
#[derive(Debug, Clone, Copy, PartialEq, Eq, Structural)]
pub struct S {
    pub imm_11_5: u32,
    pub rb: u32,
    pub ra: u32,
    pub funct3: u32,
    pub imm_4_0: u32,
    pub opcode: u32,
}

/// B format: branches; the immediate is scattered, bit 0 implicit zero.
#[derive(Debug, Clone, Copy, PartialEq, Eq, Structural)]
pub struct B {
    pub imm_12: u32,
    pub imm_10_5: u32,
    pub rb: u32,
    pub ra: u32,
    pub funct3: u32,
    pub imm_4_1: u32,
    pub imm_11: u32,
    pub opcode: u32,
}

/// U format: upper-immediate operations.
#[derive(Debug, Clone, Copy, PartialEq, Eq, Structural)]
pub struct U {
    pub imm31_12: u32,
    pub rd: u32,
    pub opcode: u32,
}

/// J format: jumps; the immediate is scattered, bit 0 implicit zero.
#[derive(Debug, Clone, Copy, PartialEq, Eq, Structural)]
pub struct J {
    pub imm_20: u32,
    pub imm_10_1: u32,
    pub imm_11: u32,
    pub imm_19_12: u32,
    pub rd: u32,
    pub opcode: u32,
}

/// One instruction encoding format, carrying its field values.
#[derive(Debug, Clone, Copy, PartialEq, Eq, Structural)]
pub enum Kind {
    Pseudo(Pseudo),
    R(R),
    R4(R4),
    I(I),
    I2(I2),
    S(S),
    B(B),
    U(U),
    J(J),
}

impl Kind {
    /// All fields within the bit widths of their format slots.
    pub open spec fn wf(self) -> bool {
        match self {
            Kind::Pseudo(_) => true,
            Kind::R(r) => r.funct7 < 0x80 && r.rb < 32 && r.ra < 32 && r.funct3 < 8 && r.rd < 32
                && r.opcode < 0x80,
            Kind::R4(r4) => r4.rc < 32 && r4.funct2 < 4 && r4.rb < 32 && r4.ra < 32 && r4.funct3
                < 8 && r4.rd < 32 && r4.opcode < 0x80,
            Kind::I(i) => i.imm < 0x1000 && i.ra < 32 && i.funct3 < 8 && i.rd < 32 && i.opcode
                < 0x80,
            Kind::I2(i2) => i2.funct6 < 0x40 && i2.imm < 0x40 && i2.ra < 32 && i2.funct3 < 8
                && i2.rd < 32 && i2.opcode < 0x80,
            Kind::S(s) => s.imm_11_5 < 0x80 && s.rb < 32 && s.ra < 32 && s.funct3 < 8 && s.imm_4_0
                < 32 && s.opcode < 0x80,
            Kind::B(b) => b.imm_12 < 2 && b.imm_10_5 < 0x40 && b.rb < 32 && b.ra < 32 && b.funct3
                < 8 && b.imm_4_1 < 0x10 && b.imm_11 < 2 && b.opcode < 0x80,
            Kind::U(u) => u.imm31_12 < 0x100000 && u.rd < 32 && u.opcode < 0x80,
            Kind::J(j) => j.imm_20 < 2 && j.imm_10_1 < 0x400 && j.imm_11 < 2 && j.imm_19_12 < 0x100
                && j.rd < 32 && j.opcode < 0x80,
        }
    }

    /// The 32-bit word that the fields assemble into.
    pub open spec fn word_spec(self) -> u32 {
        match self {
            Kind::Pseudo(_) => 0,
            Kind::R(r) => (r.funct7 << 25) | (r.rb << 20) | (r.ra << 15) | (r.funct3 << 12) | (
            r.rd << 7) | r.opcode,
            Kind::R4(r4) => (r4.rc << 27) | (r4.funct2 << 25) | (r4.rb << 20) | (r4.ra << 15) | (
            r4.funct3 << 12) | (r4.rd << 7) | r4.opcode,
            Kind::I(i) => (i.imm << 20) | (i.ra << 15) | (i.funct3 << 12) | (i.rd << 7) | i.opcode,
            Kind::I2(i2) => (i2.funct6 << 26) | (i2.imm << 20) | (i2.ra << 15) | (i2.funct3 << 12)
                | (i2.rd << 7) | i2.opcode,
            Kind::S(s) => (s.imm_11_5 << 25) | (s.rb << 20) | (s.ra << 15) | (s.funct3 << 12) | (
            s.imm_4_0 << 7) | s.opcode,
            Kind::B(b) => (b.imm_12 << 31) | (b.imm_10_5 << 25) | (b.rb << 20) | (b.ra << 15) | (
            b.funct3 << 12) | (b.imm_4_1 << 8) | (b.imm_11 << 7) | b.opcode,
            Kind::U(u) => (u.imm31_12 << 12) | (u.rd << 7) | u.opcode,
            Kind::J(j) => (j.imm_20 << 31) | (j.imm_10_1 << 21) | (j.imm_11 << 20) | (j.imm_19_12
                << 12) | (j.rd << 7) | j.opcode,
        }
    }

    /// Assembles the 32-bit machine word from the format fields.
    pub fn to_u32(&self) -> (w: u32)
        ensures
            w == self.word_spec(),
    {
        match self {
            Kind::Pseudo(_) => 0,
            Kind::R(r) => (r.funct7 << 25u32) | (r.rb << 20u32) | (r.ra << 15u32) | (r.funct3
                << 12u32) | (r.rd << 7u32) | r.opcode,
            Kind::R4(r4) => (r4.rc << 27u32) | (r4.funct2 << 25u32) | (r4.rb << 20u32) | (r4.ra
                << 15u32) | (r4.funct3 << 12u32) | (r4.rd << 7u32) | r4.opcode,
            Kind::I(i) => (i.imm << 20u32) | (i.ra << 15u32) | (i.funct3 << 12u32) | (i.rd << 7u32)
                | i.opcode,
            Kind::I2(i2) => (i2.funct6 << 26u32) | (i2.imm << 20u32) | (i2.ra << 15u32) | (
            i2.funct3 << 12u32) | (i2.rd << 7u32) | i2.opcode,
            Kind::S(s) => (s.imm_11_5 << 25u32) | (s.rb << 20u32) | (s.ra << 15u32) | (s.funct3
                << 12u32) | (s.imm_4_0 << 7u32) | s.opcode,
            Kind::B(b) => (b.imm_12 << 31u32) | (b.imm_10_5 << 25u32) | (b.rb << 20u32) | (b.ra
                << 15u32) | (b.funct3 << 12u32) | (b.imm_4_1 << 8u32) | (b.imm_11 << 7u32)
                | b.opcode,
            Kind::U(u) => (u.imm31_12 << 12u32) | (u.rd << 7u32) | u.opcode,
            Kind::J(j) => (j.imm_20 << 31u32) | (j.imm_10_1 << 21u32) | (j.imm_11 << 20u32) | (
            j.imm_19_12 << 12u32) | (j.rd << 7u32) | j.opcode,
        }
    }
}

/// Typed slot of an argument signature. Register slots: 0 = rd, 1 = ra,
/// 2 = rb, 3 = rc. A `Memory` argument always fills the ra slot.
#[derive(Debug, Clone, Copy, PartialEq, Eq, Structural)]
pub enum Arg {
    Register(usize),
    Immediate,
    Memory,
    Symbol,
}

impl Arg {
    /// The kind name used in diagnostics.
    pub open spec fn kind_spec(self) -> Seq<char> {
        match self {
            Arg::Register(_) => "register"@,
            Arg::Immediate => "immediate"@,
            Arg::Memory => "memory"@,
            Arg::Symbol => "symbol"@,
        }
    }

    /// The kind name of this argument slot, for diagnostics.
    pub fn kind(&self) -> (r: String)
        ensures
            r@ == self.kind_spec(),
    {
        match self {
            Arg::Register(_) => String::from_str("register"),
            Arg::Immediate => String::from_str("immediate"),
            Arg::Memory => String::from_str("memory"),
            Arg::Symbol => String::from_str("symbol"),
        }
    }
}

// Format templates of the table: fixed function bits set, the rest zero.
pub open spec fn lui_template() -> U {
    U { imm31_12: 0, rd: 0, opcode: 0b0110111 }
}

pub open spec fn sb_template() -> S {
    S { imm_11_5: 0, rb: 0, ra: 0, funct3: 0b000, imm_4_0: 0, opcode: 0b0100011 }
}

pub open spec fn add_template() -> R {
    R { funct7: 0b0000000, rb: 0, ra: 0, funct3: 0b000, rd: 0, opcode: 0b0110011 }
}

pub open spec fn addi_template() -> I {
    I { imm: 0, ra: 0, funct3: 0b000, rd: 0, opcode: 0b0010011 }
}

pub open spec fn mul_template() -> R {
    R { funct7: 0b0000001, rb: 0, ra: 0, funct3: 0b000, rd: 0, opcode: 0b0110011 }
}

pub open spec fn div_template() -> R {
    R { funct7: 0b0000001, rb: 0, ra: 0, funct3: 0b100, rd: 0, opcode: 0b0110011 }
}

pub open spec fn beq_template() -> B {
    B {
        imm_12: 0,
        imm_10_5: 0,
        rb: 0,
        ra: 0,
        funct3: 0b000,
        imm_4_1: 0,
        imm_11: 0,
        opcode: 0b1100011,
    }
}

pub open spec fn bne_template() -> B {
    B {
        imm_12: 0,
        imm_10_5: 0,
        rb: 0,
        ra: 0,
        funct3: 0b001,
        imm_4_1: 0,
        imm_11: 0,
        opcode: 0b1100011,
    }
}

pub open spec fn jal_template() -> J {
    J { imm_20: 0, imm_10_1: 0, imm_11: 0, imm_19_12: 0, rd: 0, opcode: 0b1101111 }
}

pub open spec fn fadd_template() -> R {
    R { funct7: 0b0000000, rb: 0, ra: 0, funct3: 0b000, rd: 0, opcode: 0b1010011 }
}

pub open spec fn fdiv_template() -> R {
    R { funct7: 0b0001100, rb: 0, ra: 0, funct3: 0b000, rd: 0, opcode: 0b1010011 }
}

pub open spec fn fmadd_template() -> R4 {
    R4 { rc: 0, funct2: 0b00, rb: 0, ra: 0, funct3: 0b000, rd: 0, opcode: 0b1000011 }
}

pub open spec fn fcvt_s_w_template() -> R {
    R { funct7: 0b1101000, rb: 0, ra: 0, funct3: 0b000, rd: 0, opcode: 0b1010011 }
}

pub open spec fn fmv_w_x_template() -> R {
    R { funct7: 0b1111000, rb: 0, ra: 0, funct3: 0b000, rd: 0, opcode: 0b1010011 }
}

// Argument signatures shared by several table entries.
pub open spec fn sig_rrr() -> Seq<Arg> {
    seq![Arg::Register(0), Arg::Register(1), Arg::Register(2)]
}

pub open spec fn sig_rri() -> Seq<Arg> {
    seq![Arg::Register(0), Arg::Register(1), Arg::Immediate]
}

pub open spec fn sig_branch() -> Seq<Arg> {
    seq![Arg::Register(1), Arg::Register(2), Arg::Immediate]
}

pub open spec fn sig_reg_imm() -> Seq<Arg> {
    seq![Arg::Register(0), Arg::Immediate]
}

/// The static instruction table: mnemonic to format template and argument
/// signature.
pub open spec fn instruction_spec(op: Seq<char>) -> Option<(Kind, Seq<Arg>)> {
    if op == "nop"@ {
        Some((Kind::Pseudo(Pseudo(PseudoOp::Nop)), Seq::<Arg>::empty()))
    } else if op == "li"@ {
        Some((Kind::Pseudo(Pseudo(PseudoOp::Li)), sig_reg_imm()))
    } else if op == "lui"@ {
        Some((Kind::U(lui_template()), sig_reg_imm()))
    } else if op == "sb"@ {
        Some((Kind::S(sb_template()), seq![Arg::Register(2), Arg::Memory]))
    } else if op == "add"@ {
        Some((Kind::R(add_template()), sig_rrr()))
    } else if op == "addi"@ {
        Some((Kind::I(addi_template()), sig_rri()))
    } else if op == "mul"@ {
        Some((Kind::R(mul_template()), sig_rrr()))
    } else if op == "div"@ {
        Some((Kind::R(div_template()), sig_rrr()))
    } else if op == "beq"@ {
        Some((Kind::B(beq_template()), sig_branch()))
    } else if op == "bne"@ {
        Some((Kind::B(bne_template()), sig_branch()))
    } else if op == "beqz"@ {
        Some((Kind::Pseudo(Pseudo(PseudoOp::Beqz)), seq![Arg::Register(1), Arg::Symbol]))
    } else if op == "bnez"@ {
        Some((Kind::Pseudo(Pseudo(PseudoOp::Bnez)), seq![Arg::Register(1), Arg::Symbol]))
    } else if op == "j"@ {
        Some((Kind::Pseudo(Pseudo(PseudoOp::J)), seq![Arg::Symbol]))
    } else if op == "jal"@ {
        Some((Kind::J(jal_template()), seq![Arg::Register(0), Arg::Symbol]))
    } else if op == "fadd.s"@ {
        Some((Kind::R(fadd_template()), sig_rrr()))
    } else if op == "fdiv.s"@ {
        Some((Kind::R(fdiv_template()), sig_rrr()))
    } else if op == "fmadd.s"@ {
        Some(
            (
                Kind::R4(fmadd_template()),
                seq![Arg::Register(0), Arg::Register(1), Arg::Register(2), Arg::Register(3)],
            ),
        )
    } else if op == "fcvt.s.w"@ {
        Some((Kind::R(fcvt_s_w_template()), seq![Arg::Register(0), Arg::Register(1)]))
    } else if op == "fmv.w.x"@ {
        Some((Kind::R(fmv_w_x_template()), seq![Arg::Register(0), Arg::Register(1)]))
    } else {
        None
    }
}

/// Looks a mnemonic up in the instruction table.
pub fn instruction(op: &str) -> (r: Option<(Kind, Vec<Arg>)>)
    ensures
        r is Some <==> instruction_spec(op@) is Some,
        r is Some ==> {
            let (k, sig) = instruction_spec(op@).unwrap();
            r.unwrap().0 == k && r.unwrap().1@ == sig
        },
{
    let entry: Option<(Kind, Vec<Arg>)> = if str_eq(op, "nop") {
        Some((Kind::Pseudo(Pseudo(PseudoOp::Nop)), vec![]))
    } else if str_eq(op, "li") {
        Some((Kind::Pseudo(Pseudo(PseudoOp::Li)), vec![Arg::Register(0), Arg::Immediate]))
    } else if str_eq(op, "lui") {
        Some(
            (
                Kind::U(U { imm31_12: 0, rd: 0, opcode: 0b0110111 }),
                vec![Arg::Register(0), Arg::Immediate],
            ),
        )
    } else if str_eq(op, "sb") {
        Some(
            (
                Kind::S(S { imm_11_5: 0, rb: 0, ra: 0, funct3: 0b000, imm_4_0: 0, opcode: 0b0100011 }),
                vec![Arg::Register(2), Arg::Memory],
            ),
        )
    } else if str_eq(op, "add") {
        Some(
            (
                Kind::R(R { funct7: 0b0000000, rb: 0, ra: 0, funct3: 0b000, rd: 0, opcode: 0b0110011 }),
                vec![Arg::Register(0), Arg::Register(1), Arg::Register(2)],
            ),
        )
    } else if str_eq(op, "addi") {
        Some(
            (
                Kind::I(I { imm: 0, ra: 0, funct3: 0b000, rd: 0, opcode: 0b0010011 }),
                vec![Arg::Register(0), Arg::Register(1), Arg::Immediate],
            ),
        )
    } else if str_eq(op, "mul") {
        Some(
            (
                Kind::R(R { funct7: 0b0000001, rb: 0, ra: 0, funct3: 0b000, rd: 0, opcode: 0b0110011 }),
                vec![Arg::Register(0), Arg::Register(1), Arg::Register(2)],
            ),
        )
    } else if str_eq(op, "div") {
        Some(
            (
                Kind::R(R { funct7: 0b0000001, rb: 0, ra: 0, funct3: 0b100, rd: 0, opcode: 0b0110011 }),
                vec![Arg::Register(0), Arg::Register(1), Arg::Register(2)],
            ),
        )
    } else if str_eq(op, "beq") {
        Some(
            (
                Kind::B(
                    B {
                        imm_12: 0,
                        imm_10_5: 0,
                        rb: 0,
                        ra: 0,
                        funct3: 0b000,
                        imm_4_1: 0,
                        imm_11: 0,
                        opcode: 0b1100011,
                    },
                ),
                vec![Arg::Register(1), Arg::Register(2), Arg::Immediate],
            ),
        )
    } else if str_eq(op, "bne") {
        Some(
            (
                Kind::B(
                    B {
                        imm_12: 0,
                        imm_10_5: 0,
                        rb: 0,
                        ra: 0,
                        funct3: 0b001,
                        imm_4_1: 0,
                        imm_11: 0,
                        opcode: 0b1100011,
                    },
                ),
                vec![Arg::Register(1), Arg::Register(2), Arg::Immediate],
            ),
        )
    } else if str_eq(op, "beqz") {
        Some((Kind::Pseudo(Pseudo(PseudoOp::Beqz)), vec![Arg::Register(1), Arg::Symbol]))
    } else if str_eq(op, "bnez") {
        Some((Kind::Pseudo(Pseudo(PseudoOp::Bnez)), vec![Arg::Register(1), Arg::Symbol]))
    } else if str_eq(op, "j") {
        Some((Kind::Pseudo(Pseudo(PseudoOp::J)), vec![Arg::Symbol]))
    } else if str_eq(op, "jal") {
        Some(
            (
                Kind::J(J { imm_20: 0, imm_10_1: 0, imm_11: 0, imm_19_12: 0, rd: 0, opcode: 0b1101111 }),
                vec![Arg::Register(0), Arg::Symbol],
            ),
        )
    } else if str_eq(op, "fadd.s") {
        Some(
            (
                Kind::R(R { funct7: 0b0000000, rb: 0, ra: 0, funct3: 0b000, rd: 0, opcode: 0b1010011 }),
                vec![Arg::Register(0), Arg::Register(1), Arg::Register(2)],
            ),
        )
    } else if str_eq(op, "fdiv.s") {
        Some(
            (
                Kind::R(R { funct7: 0b0001100, rb: 0, ra: 0, funct3: 0b000, rd: 0, opcode: 0b1010011 }),
                vec![Arg::Register(0), Arg::Register(1), Arg::Register(2)],
            ),
        )
    } else if str_eq(op, "fmadd.s") {
        Some(
            (
                Kind::R4(
                    R4 { rc: 0, funct2: 0b00, rb: 0, ra: 0, funct3: 0b000, rd: 0, opcode: 0b1000011 },
                ),
                vec![Arg::Register(0), Arg::Register(1), Arg::Register(2), Arg::Register(3)],
            ),
        )
    } else if str_eq(op, "fcvt.s.w") {
        Some(
            (
                Kind::R(R { funct7: 0b1101000, rb: 0, ra: 0, funct3: 0b000, rd: 0, opcode: 0b1010011 }),
                vec![Arg::Register(0), Arg::Register(1)],
            ),
        )
    } else if str_eq(op, "fmv.w.x") {
        Some(
            (
                Kind::R(R { funct7: 0b1111000, rb: 0, ra: 0, funct3: 0b000, rd: 0, opcode: 0b1010011 }),
                vec![Arg::Register(0), Arg::Register(1)],
            ),
        )
    } else {
        None
    };
    entry
}

/// Looks a mnemonic up that is known to be in the table.
pub fn get_instruction(op: &str) -> (r: (Kind, Vec<Arg>))
    requires
        instruction_spec(op@) is Some,
    ensures
        r.0 == instruction_spec(op@).unwrap().0,
        r.1@ == instruction_spec(op@).unwrap().1,
{
    instruction(op).unwrap()
}

/// How many leading entries of the `[rd, ra, rb, rc]` register vector a
/// format reads when operands are placed into it.
pub open spec fn slots_needed(kind: Kind) -> int {
    match kind {
        Kind::Pseudo(_) => 0,
        Kind::R(_) => 3,
        Kind::R4(_) => 4,
        Kind::I(_) => 2,
        Kind::I2(_) => 2,
        Kind::S(_) => 3,
        Kind::B(_) => 3,
        Kind::U(_) => 1,
        Kind::J(_) => 1,
    }
}

/// The format template with the immediate and the registers injected into
/// their format-specific positions; values are masked to their field widths.
pub open spec fn with_kind_spec(kind: Kind, imm: u32, regs: Seq<usize>) -> Kind {
    match kind {
        Kind::Pseudo(_) => kind,
        Kind::R(r) => Kind::R(
            R {
                rd: (regs[0] & 0x1f) as u32,
                ra: (regs[1] & 0x1f) as u32,
                rb: (regs[2] & 0x1f) as u32,
                ..r
            },
        ),
        Kind::R4(r4) => Kind::R4(
            R4 {
                rd: (regs[0] & 0x1f) as u32,
                ra: (regs[1] & 0x1f) as u32,
                rb: (regs[2] & 0x1f) as u32,
                rc: (regs[3] & 0x1f) as u32,
                ..r4
            },
        ),
        Kind::I(i) => Kind::I(
            I {
                rd: (regs[0] & 0x1f) as u32,
                ra: (regs[1] & 0x1f) as u32,
                imm: imm & 0xfff,
                ..i
            },
        ),
        Kind::I2(i2) => Kind::I2(
            I2 {
                rd: (regs[0] & 0x1f) as u32,
                ra: (regs[1] & 0x1f) as u32,
                imm: imm & 0x3f,
                ..i2
            },
        ),
        Kind::S(s) => Kind::S(
            S {
                ra: (regs[1] & 0x1f) as u32,
                rb: (regs[2] & 0x1f) as u32,
                imm_11_5: (imm >> 5) & 0x7f,
                imm_4_0: imm & 0x1f,
                ..s
            },
        ),
        Kind::B(b) => Kind::B(
            B {
                ra: (regs[1] & 0x1f) as u32,
                rb: (regs[2] & 0x1f) as u32,
                imm_12: (imm >> 12) & 1,
                imm_11: (imm >> 11) & 1,
                imm_10_5: (imm >> 5) & 0x3f,
                imm_4_1: (imm >> 1) & 0xf,
                ..b
            },
        ),
        Kind::U(u) => Kind::U(
            U { rd: (regs[0] & 0x1f) as u32, imm31_12: (imm >> 12) & 0xfffff, ..u },
        ),
        Kind::J(j) => Kind::J(
            J {
                rd: (regs[0] & 0x1f) as u32,
                imm_20: (imm >> 20) & 1,
                imm_19_12: (imm >> 12) & 0xff,
                imm_11: (imm >> 11) & 1,
                imm_10_1: (imm >> 1) & 0x3ff,
                ..j
            },
        ),
    }
}

/// Injects the immediate and the register vector (order: rd, ra, rb, rc)
/// into a format template; the argument signature is passed through.
pub fn with(i: (Kind, Vec<Arg>), imm: u32, regs: Vec<usize>) -> (r: (Kind, Vec<Arg>))
    requires
        regs@.len() >= slots_needed(i.0),
    ensures
        r.0 == with_kind_spec(i.0, imm, regs@),
        r.1 == i.1,
{
    let (kind, args) = i;
    let kind = match kind {
        Kind::Pseudo(p) => Kind::Pseudo(p),
        Kind::R(r) => Kind::R(
            R {
                rd: (regs[0] & 0x1f) as u32,
                ra: (regs[1] & 0x1f) as u32,
                rb: (regs[2] & 0x1f) as u32,
                ..r
            },
        ),
        Kind::R4(r4) => Kind::R4(
            R4 {
                rd: (regs[0] & 0x1f) as u32,
                ra: (regs[1] & 0x1f) as u32,
                rb: (regs[2] & 0x1f) as u32,
                rc: (regs[3] & 0x1f) as u32,
                ..r4
            },
        ),
        Kind::I(i) => Kind::I(
            I {
                rd: (regs[0] & 0x1f) as u32,
                ra: (regs[1] & 0x1f) as u32,
                imm: imm & 0xfff,
                ..i
            },
        ),
        Kind::I2(i2) => Kind::I2(
            I2 {
                rd: (regs[0] & 0x1f) as u32,
                ra: (regs[1] & 0x1f) as u32,
                imm: imm & 0x3f,
                ..i2
            },
        ),
        Kind::S(s) => Kind::S(
            S {
                ra: (regs[1] & 0x1f) as u32,
                rb: (regs[2] & 0x1f) as u32,
                imm_11_5: (imm >> 5u32) & 0x7f,
                imm_4_0: imm & 0x1f,
                ..s
            },
        ),
        Kind::B(b) => Kind::B(
            B {
                ra: (regs[1] & 0x1f) as u32,
                rb: (regs[2] & 0x1f) as u32,
                imm_12: (imm >> 12u32) & 1,
                imm_11: (imm >> 11u32) & 1,
                imm_10_5: (imm >> 5u32) & 0x3f,
                imm_4_1: (imm >> 1u32) & 0xf,
                ..b
            },
        ),
        Kind::U(u) => Kind::U(
            U { rd: (regs[0] & 0x1f) as u32, imm31_12: (imm >> 12u32) & 0xfffff, ..u },
        ),
        Kind::J(j) => Kind::J(
            J {
                rd: (regs[0] & 0x1f) as u32,
                imm_20: (imm >> 20u32) & 1,
                imm_19_12: (imm >> 12u32) & 0xff,
                imm_11: (imm >> 11u32) & 1,
                imm_10_1: (imm >> 1u32) & 0x3ff,
                ..j
            },
        ),
    };
    (kind, args)
}

impl Kind {
    /// The opcode field, absent for pseudo-instructions.
    pub open spec fn opcode_spec(self) -> Option<u32> {
        match self {
            Kind::Pseudo(_) => None,
            Kind::R(r) => Some(r.opcode),
            Kind::R4(r4) => Some(r4.opcode),
            Kind::I(i) => Some(i.opcode),
            Kind::I2(i2) => Some(i2.opcode),
            Kind::S(s) => Some(s.opcode),
            Kind::B(b) => Some(b.opcode),
            Kind::U(u) => Some(u.opcode),
            Kind::J(j) => Some(j.opcode),
        }
    }

    pub fn get_opcode(&self) -> (r: Option<u32>)
        ensures
            r == self.opcode_spec(),
    {
        match self {
            Kind::Pseudo(_) => None,
            Kind::R(r) => Some(r.opcode),
            Kind::R4(r4) => Some(r4.opcode),
            Kind::I(i) => Some(i.opcode),
            Kind::I2(i2) => Some(i2.opcode),
            Kind::S(s) => Some(s.opcode),
            Kind::B(b) => Some(b.opcode),
            Kind::U(u) => Some(u.opcode),
            Kind::J(j) => Some(j.opcode),
        }
    }

    /// The immediate reassembled from the format's scattered fields, absent
    /// for formats without an immediate.
    pub open spec fn imm_spec(self) -> Option<u32> {
        match self {
            Kind::Pseudo(_) => None,
            Kind::R(_) => None,
            Kind::R4(_) => None,
            Kind::I(i) => Some(i.imm),
            Kind::I2(i2) => Some(i2.imm),
            Kind::S(s) => Some((s.imm_11_5 << 5) | s.imm_4_0),
            Kind::B(b) => Some(
                (b.imm_12 << 12) | (b.imm_11 << 11) | (b.imm_10_5 << 5) | (b.imm_4_1 << 1),
            ),
            Kind::U(u) => Some(u.imm31_12 << 12),
            Kind::J(j) => Some(
                (j.imm_20 << 20) | (j.imm_19_12 << 12) | (j.imm_11 << 11) | (j.imm_10_1 << 1),
            ),
        }
    }

    pub fn get_imm(&self) -> (r: Option<u32>)
        ensures
            r == self.imm_spec(),
    {
        match self {
            Kind::Pseudo(_) => None,
            Kind::R(_) => None,
            Kind::R4(_) => None,
            Kind::I(i) => Some(i.imm),
            Kind::I2(i2) => Some(i2.imm),
            Kind::S(s) => Some((s.imm_11_5 << 5u32) | s.imm_4_0),
            Kind::B(b) => Some(
                (b.imm_12 << 12u32) | (b.imm_11 << 11u32) | (b.imm_10_5 << 5u32) | (b.imm_4_1
                    << 1u32),
            ),
            Kind::U(u) => Some(u.imm31_12 << 12u32),
            Kind::J(j) => Some(
                (j.imm_20 << 20u32) | (j.imm_19_12 << 12u32) | (j.imm_11 << 11u32) | (j.imm_10_1
                    << 1u32),
            ),
        }
    }

    /// The register fields in the order rd, ra, rb, rc; slots a format does
    /// not carry are zero. Absent for pseudo-instructions.
    pub open spec fn regs_spec(self) -> Option<Seq<usize>> {
        match self {
            Kind::Pseudo(_) => None,
            Kind::R(r) => Some(seq![r.rd as usize, r.ra as usize, r.rb as usize, 0usize]),
            Kind::R4(r4) => Some(
                seq![r4.rd as usize, r4.ra as usize, r4.rb as usize, r4.rc as usize],
            ),
            Kind::I(i) => Some(seq![i.rd as usize, i.ra as usize, 0usize, 0usize]),
            Kind::I2(i2) => Some(seq![i2.rd as usize, i2.ra as usize, 0usize, 0usize]),
            Kind::S(s) => Some(seq![0usize, s.ra as usize, s.rb as usize, 0usize]),
            Kind::B(b) => Some(seq![0usize, b.ra as usize, b.rb as usize, 0usize]),
            Kind::U(u) => Some(seq![u.rd as usize, 0usize, 0usize, 0usize]),
            Kind::J(j) => Some(seq![j.rd as usize, 0usize, 0usize, 0usize]),
        }
    }

    pub fn get_regs(&self) -> (r: Option<Vec<usize>>)
        ensures
            r is Some <==> self.regs_spec() is Some,
            r is Some ==> r.unwrap()@ == self.regs_spec().unwrap(),
    {
        let v: Option<Vec<usize>> = match self {
            Kind::Pseudo(_) => None,
            Kind::R(r) => Some(vec![r.rd as usize, r.ra as usize, r.rb as usize, 0]),
            Kind::R4(r4) => Some(
                vec![r4.rd as usize, r4.ra as usize, r4.rb as usize, r4.rc as usize],
            ),
            Kind::I(i) => Some(vec![i.rd as usize, i.ra as usize, 0, 0]),
            Kind::I2(i2) => Some(vec![i2.rd as usize, i2.ra as usize, 0, 0]),
            Kind::S(s) => Some(vec![0, s.ra as usize, s.rb as usize, 0]),
            Kind::B(b) => Some(vec![0, b.ra as usize, b.rb as usize, 0]),
            Kind::U(u) => Some(vec![u.rd as usize, 0, 0, 0]),
            Kind::J(j) => Some(vec![j.rd as usize, 0, 0, 0]),
        };
        proof {
            if self.regs_spec() is Some {
                assert(v.unwrap()@ =~= self.regs_spec().unwrap());
            }
        }
        v
    }
}

pub open spec fn funct3_of(w: u32) -> u32 {
    (w >> 12) & 0x7
}

pub open spec fn funct7_of(w: u32) -> u32 {
    (w >> 25) & 0x7f
}

pub open spec fn decode_r(w: u32) -> R {
    R {
        funct7: (w >> 25) & 0x7f,
        rb: (w >> 20) & 0x1f,
        ra: (w >> 15) & 0x1f,
        funct3: (w >> 12) & 0x7,
        rd: (w >> 7) & 0x1f,
        opcode: w & 0x7f,
    }
}

pub open spec fn decode_r4(w: u32) -> R4 {
    R4 {
        rc: (w >> 27) & 0x1f,
        funct2: (w >> 25) & 0x3,
        rb: (w >> 20) & 0x1f,
        ra: (w >> 15) & 0x1f,
        funct3: (w >> 12) & 0x7,
        rd: (w >> 7) & 0x1f,
        opcode: w & 0x7f,
    }
}

pub open spec fn decode_i(w: u32) -> I {
    I {
        imm: (w >> 20) & 0xfff,
        ra: (w >> 15) & 0x1f,
        funct3: (w >> 12) & 0x7,
        rd: (w >> 7) & 0x1f,
        opcode: w & 0x7f,
    }
}

pub open spec fn decode_s(w: u32) -> S {
    S {
        imm_11_5: (w >> 25) & 0x7f,
        rb: (w >> 20) & 0x1f,
        ra: (w >> 15) & 0x1f,
        funct3: (w >> 12) & 0x7,
        imm_4_0: (w >> 7) & 0x1f,
        opcode: w & 0x7f,
    }
}

pub open spec fn decode_b(w: u32) -> B {
    B {
        imm_12: (w >> 31) & 0x1,
        imm_10_5: (w >> 25) & 0x3f,
        rb: (w >> 20) & 0x1f,
        ra: (w >> 15) & 0x1f,
        funct3: (w >> 12) & 0x7,
        imm_4_1: (w >> 8) & 0xf,
        imm_11: (w >> 7) & 0x1,
        opcode: w & 0x7f,
    }
}

pub open spec fn decode_u(w: u32) -> U {
    U { imm31_12: (w >> 12) & 0xfffff, rd: (w >> 7) & 0x1f, opcode: w & 0x7f }
}

pub open spec fn decode_j(w: u32) -> J {
    J {
        imm_20: (w >> 31) & 0x1,
        imm_10_1: (w >> 21) & 0x3ff,
        imm_11: (w >> 20) & 0x1,
        imm_19_12: (w >> 12) & 0xff,
        rd: (w >> 7) & 0x1f,
        opcode: w & 0x7f,
    }
}

/// Decode: chooses the format by opcode (and the mnemonic by the function
/// bits) and reverse-projects the word into the format's fields.
pub open spec fn to_op_spec(w: u32) -> Option<(Kind, Seq<char>)> {
    let opcode = w & 0x7f;
    let f3 = funct3_of(w);
    let f7 = funct7_of(w);
    if opcode == 0b0110111 {
        Some((Kind::U(decode_u(w)), "lui"@))
    } else if opcode == 0b0010011 {
        if f3 == 0b000 {
            Some((Kind::I(decode_i(w)), "addi"@))
        } else {
            None
        }
    } else if opcode == 0b0110011 {
        if f3 == 0b000 && f7 == 0b0000000 {
            Some((Kind::R(decode_r(w)), "add"@))
        } else if f3 == 0b100 && f7 == 0b0000000 {
            Some((Kind::R(decode_r(w)), "xor"@))
        } else if f3 == 0b000 && f7 == 0b0000001 {
            Some((Kind::R(decode_r(w)), "mul"@))
        } else if f3 == 0b001 && f7 == 0b0000001 {
            Some((Kind::R(decode_r(w)), "mulh"@))
        } else if f3 == 0b010 && f7 == 0b0000001 {
            Some((Kind::R(decode_r(w)), "mulhsu"@))
        } else if f3 == 0b011 && f7 == 0b0000001 {
            Some((Kind::R(decode_r(w)), "mulhu"@))
        } else if f3 == 0b100 && f7 == 0b0000001 {
            Some((Kind::R(decode_r(w)), "div"@))
        } else {
            None
        }
    } else if opcode == 0b0100011 {
        if f3 == 0b000 {
            Some((Kind::S(decode_s(w)), "sb"@))
        } else {
            None
        }
    } else if opcode == 0b1100011 {
        if f3 == 0b000 {
            Some((Kind::B(decode_b(w)), "beq"@))
        } else if f3 == 0b001 {
            Some((Kind::B(decode_b(w)), "bne"@))
        } else {
            None
        }
    } else if opcode == 0b1101111 {
        Some((Kind::J(decode_j(w)), "jal"@))
    } else if opcode == 0b1010011 {
        if f7 == 0b0000000 {
            Some((Kind::R(decode_r(w)), "fadd.s"@))
        } else if f7 == 0b0001100 {
            Some((Kind::R(decode_r(w)), "fdiv.s"@))
        } else if f7 == 0b1101000 {
            Some((Kind::R(decode_r(w)), "fcvt.s.w"@))
        } else if f7 == 0b1111000 {
            Some((Kind::R(decode_r(w)), "fmv.w.x"@))
        } else {
            None
        }
    } else if opcode == 0b1000011 {
        Some((Kind::R4(decode_r4(w)), "fmadd.s"@))
    } else {
        None
    }
}

impl Kind {
    /// Decodes a 32-bit word into its format view and mnemonic; `None` for
    /// an encoding outside the supported set.
    pub fn to_op(instruction: u32) -> (r: Option<(Kind, String)>)
        ensures
            r is Some <==> to_op_spec(instruction) is Some,
            r is Some ==> {
                let (k, n) = to_op_spec(instruction).unwrap();
                r.unwrap().0 == k && r.unwrap().1@ == n
            },
    {
        let w = instruction;
        let opcode = w & 0x7f;
        let f3 = (w >> 12u32) & 0x7;
        let f7 = (w >> 25u32) & 0x7f;
        let dr = Kind::R(
            R {
                funct7: (w >> 25u32) & 0x7f,
                rb: (w >> 20u32) & 0x1f,
                ra: (w >> 15u32) & 0x1f,
                funct3: (w >> 12u32) & 0x7,
                rd: (w >> 7u32) & 0x1f,
                opcode: w & 0x7f,
            },
        );
        if opcode == 0b0110111 {
            Some(
                (
                    Kind::U(
                        U { imm31_12: (w >> 12u32) & 0xfffff, rd: (w >> 7u32) & 0x1f, opcode: w & 0x7f },
                    ),
                    String::from_str("lui"),
                ),
            )
        } else if opcode == 0b0010011 && f3 == 0b000 {
            Some(
                (
                    Kind::I(
                        I {
                            imm: (w >> 20u32) & 0xfff,
                            ra: (w >> 15u32) & 0x1f,
                            funct3: (w >> 12u32) & 0x7,
                            rd: (w >> 7u32) & 0x1f,
                            opcode: w & 0x7f,
                        },
                    ),
                    String::from_str("addi"),
                ),
            )
        } else if opcode == 0b0110011 {
            if f3 == 0b000 && f7 == 0b0000000 {
                Some((dr, String::from_str("add")))
            } else if f3 == 0b100 && f7 == 0b0000000 {
                Some((dr, String::from_str("xor")))
            } else if f3 == 0b000 && f7 == 0b0000001 {
                Some((dr, String::from_str("mul")))
            } else if f3 == 0b001 && f7 == 0b0000001 {
                Some((dr, String::from_str("mulh")))
            } else if f3 == 0b010 && f7 == 0b0000001 {
                Some((dr, String::from_str("mulhsu")))
            } else if f3 == 0b011 && f7 == 0b0000001 {
                Some((dr, String::from_str("mulhu")))
            } else if f3 == 0b100 && f7 == 0b0000001 {
                Some((dr, String::from_str("div")))
            } else {
                None
            }
        } else if opcode == 0b0100011 && f3 == 0b000 {
            Some(
                (
                    Kind::S(
                        S {
                            imm_11_5: (w >> 25u32) & 0x7f,
                            rb: (w >> 20u32) & 0x1f,
                            ra: (w >> 15u32) & 0x1f,
                            funct3: (w >> 12u32) & 0x7,
                            imm_4_0: (w >> 7u32) & 0x1f,
                            opcode: w & 0x7f,
                        },
                    ),
                    String::from_str("sb"),
                ),
            )
        } else if opcode == 0b1100011 && (f3 == 0b000 || f3 == 0b001) {
            let b = Kind::B(
                B {
                    imm_12: (w >> 31u32) & 0x1,
                    imm_10_5: (w >> 25u32) & 0x3f,
                    rb: (w >> 20u32) & 0x1f,
                    ra: (w >> 15u32) & 0x1f,
                    funct3: (w >> 12u32) & 0x7,
                    imm_4_1: (w >> 8u32) & 0xf,
                    imm_11: (w >> 7u32) & 0x1,
                    opcode: w & 0x7f,
                },
            );
            if f3 == 0b000 {
                Some((b, String::from_str("beq")))
            } else {
                Some((b, String::from_str("bne")))
            }
        } else if opcode == 0b1101111 {
            Some(
                (
                    Kind::J(
                        J {
                            imm_20: (w >> 31u32) & 0x1,
                            imm_10_1: (w >> 21u32) & 0x3ff,
                            imm_11: (w >> 20u32) & 0x1,
                            imm_19_12: (w >> 12u32) & 0xff,
                            rd: (w >> 7u32) & 0x1f,
                            opcode: w & 0x7f,
                        },
                    ),
                    String::from_str("jal"),
                ),
            )
        } else if opcode == 0b1010011 {
            if f7 == 0b0000000 {
                Some((dr, String::from_str("fadd.s")))
            } else if f7 == 0b0001100 {
                Some((dr, String::from_str("fdiv.s")))
            } else if f7 == 0b1101000 {
                Some((dr, String::from_str("fcvt.s.w")))
            } else if f7 == 0b1111000 {
                Some((dr, String::from_str("fmv.w.x")))
            } else {
                None
            }
        } else if opcode == 0b1000011 {
            Some(
                (
                    Kind::R4(
                        R4 {
                            rc: (w >> 27u32) & 0x1f,
                            funct2: (w >> 25u32) & 0x3,
                            rb: (w >> 20u32) & 0x1f,
                            ra: (w >> 15u32) & 0x1f,
                            funct3: (w >> 12u32) & 0x7,
                            rd: (w >> 7u32) & 0x1f,
                            opcode: w & 0x7f,
                        },
                    ),
                    String::from_str("fmadd.s"),
                ),
            )
        } else {
            None
        }
    }
}

/// Register-count precondition of the expansion of each pseudo-instruction.
pub open spec fn pseudo_regs_ok(kind: Kind, imm: u32, n: int) -> bool {
    match kind {
        Kind::Pseudo(Pseudo(p)) => match p {
            PseudoOp::Nop => true,
            PseudoOp::Li => if imm >> 12 == 0 {
                n >= 2
            } else {
                n >= 1
            },
            PseudoOp::Beqz => n >= 3,
            PseudoOp::Bnez => n >= 3,
            PseudoOp::J => n >= 1,
        },
        _ => true,
    }
}

/// The real instructions a pseudo-instruction expands into; a real
/// instruction passes through unchanged.
pub open spec fn handle_pseudo_spec(kind: Kind, args: Seq<Arg>, imm: u32, regs: Seq<usize>) -> Seq<
    (Kind, Seq<Arg>),
> {
    match kind {
        Kind::Pseudo(Pseudo(p)) => match p {
            PseudoOp::Nop => seq![
                (with_kind_spec(Kind::I(addi_template()), 0, seq![0usize, 0usize]), sig_rri()),
            ],
            PseudoOp::Li => {
                if imm >> 12 == 0 {
                    seq![(with_kind_spec(Kind::I(addi_template()), imm, regs), sig_rri())]
                } else if imm & 0xfff == 0 {
                    seq![(with_kind_spec(Kind::U(lui_template()), imm, regs), sig_reg_imm())]
                } else {
                    seq![
                        (
                            with_kind_spec(Kind::U(lui_template()), imm & 0xfffff000, regs),
                            sig_reg_imm(),
                        ),
                        (
                            with_kind_spec(
                                Kind::I(addi_template()),
                                imm & 0xfff,
                                seq![regs[0], regs[0]],
                            ),
                            sig_rri(),
                        ),
                    ]
                }
            },
            PseudoOp::Beqz => seq![
                (with_kind_spec(Kind::B(beq_template()), imm, regs), sig_branch()),
            ],
            PseudoOp::Bnez => seq![
                (with_kind_spec(Kind::B(bne_template()), imm, regs), sig_branch()),
            ],
            PseudoOp::J => seq![
                (
                    with_kind_spec(Kind::J(jal_template()), imm, regs),
                    seq![Arg::Register(0), Arg::Symbol],
                ),
            ],
        },
        _ => seq![(kind, args)],
    }
}

/// Relates an executable expansion result to its mathematical form.
pub open spec fn ops_match(r: Seq<(Kind, Vec<Arg>)>, s: Seq<(Kind, Seq<Arg>)>) -> bool {
    r.len() == s.len() && forall|i: int|
        0 <= i < r.len() ==> (#[trigger] r[i]).0 == s[i].0 && r[i].1@ == s[i].1
}

/// The table entries that pseudo-instruction expansion relies on.
pub proof fn lemma_expansion_table()
    ensures
        instruction_spec("addi"@) == Some((Kind::I(addi_template()), sig_rri())),
        instruction_spec("lui"@) == Some((Kind::U(lui_template()), sig_reg_imm())),
        instruction_spec("beq"@) == Some((Kind::B(beq_template()), sig_branch())),
        instruction_spec("bne"@) == Some((Kind::B(bne_template()), sig_branch())),
        instruction_spec("jal"@) == Some(
            (Kind::J(jal_template()), seq![Arg::Register(0), Arg::Symbol]),
        ),
{
    reveal_strlit("nop");
    assert("nop"@ =~= seq!['n', 'o', 'p']);
    reveal_strlit("li");
    assert("li"@ =~= seq!['l', 'i']);
    reveal_strlit("lui");
    assert("lui"@ =~= seq!['l', 'u', 'i']);
    reveal_strlit("sb");
    assert("sb"@ =~= seq!['s', 'b']);
    reveal_strlit("add");
    assert("add"@ =~= seq!['a', 'd', 'd']);
    reveal_strlit("addi");
    assert("addi"@ =~= seq!['a', 'd', 'd', 'i']);
    reveal_strlit("mul");
    assert("mul"@ =~= seq!['m', 'u', 'l']);
    reveal_strlit("div");
    assert("div"@ =~= seq!['d', 'i', 'v']);
    reveal_strlit("beq");
    assert("beq"@ =~= seq!['b', 'e', 'q']);
    reveal_strlit("bne");
    assert("bne"@ =~= seq!['b', 'n', 'e']);
    reveal_strlit("beqz");
    assert("beqz"@ =~= seq!['b', 'e', 'q', 'z']);
    reveal_strlit("bnez");
    assert("bnez"@ =~= seq!['b', 'n', 'e', 'z']);
    reveal_strlit("j");
    assert("j"@ =~= seq!['j']);
    reveal_strlit("jal");
    assert("jal"@ =~= seq!['j', 'a', 'l']);

}

/// Expands a pseudo-instruction into its real instructions (each found by a
/// further table lookup); a real instruction is passed through unchanged.
/// The register vector order is rd, ra, rb, rc.
pub fn handle_pseudo(i: (Kind, Vec<Arg>), imm: u32, regs: Vec<usize>) -> (r: Vec<(Kind, Vec<Arg>)>)
    requires
        pseudo_regs_ok(i.0, imm, regs@.len() as int),
    ensures
        ops_match(r@, handle_pseudo_spec(i.0, i.1@, imm, regs@)),
{
    proof {
        lemma_expansion_table();
    }
    let (kind, args) = i;
    let p = match kind {
        Kind::Pseudo(Pseudo(p)) => p,
        _ => {
            let r = vec![(kind, args)];
            proof {
                assert(r@[0].1@ == i.1@);
            }
            return r;
        },
    };

    match p {
        PseudoOp::Nop => vec![with(get_instruction("addi"), 0, vec![0, 0])],
        PseudoOp::Li => {
            if imm >> 12u32 == 0 {
                vec![with(get_instruction("addi"), imm, regs)]
            } else if imm & 0xfff == 0 {
                vec![with(get_instruction("lui"), imm, regs)]
            } else {
                let rd = regs[0];
                vec![
                    with(get_instruction("lui"), imm & 0xfffff000, regs),
                    with(get_instruction("addi"), imm & 0xfff, vec![rd, rd]),
                ]
            }
        },
        PseudoOp::Beqz => vec![with(get_instruction("beq"), imm, regs)],
        PseudoOp::Bnez => vec![with(get_instruction("bne"), imm, regs)],
        PseudoOp::J => vec![with(get_instruction("jal"), imm, regs)],
    }
}

} // verus!
