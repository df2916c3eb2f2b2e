//! The executor: decodes a 32-bit word and mutates the environment.
//!
//! Integer instructions are executed here in full. The four float-arithmetic
//! instructions only have their operands fetched here; the result is computed
//! by the host layer's float unit and written back through
//! `Env::set_fregister` (float arithmetic has no place in the verified core).
//! `fmv.w.x` is a pure bit move and is executed here. Loads and stores
//! decode but do not execute: the core has no data memory yet, so the
//! executor reports them as an unknown encoding.
//!
//! Branch and jump offsets are sign-extended from their encoded bits, so a
//! label behind the instruction branches backward.
//!
//! Division follows the RISC-V convention: division by zero yields -1, and
//! the one overflowing quotient (the most negative value divided by -1)
//! yields the dividend.

use vstd::prelude::*;

use crate::env::Env;
use crate::err::{RuntimeErr, RuntimeErrV};
use crate::instructions::{to_op_spec, Kind};
use crate::text::neg_u32_spec;

verus! {

/// A float operation whose result the host layer's float unit computes.
#[derive(Debug, Clone, Copy, PartialEq, Eq, Structural)]
pub enum FloatFn {
    /// fd <- a + b
    FaddS,
    /// fd <- a / b
    FdivS,
    /// fd <- a * b + c
    FmaddS,
    /// fd <- (float)(signed)a
    FcvtSW,
}

/// A request to the float unit: the operation, the destination float
/// register, and the operand bit patterns already fetched.
#[derive(Debug, Clone, Copy, PartialEq, Eq, Structural)]
pub struct FloatReq {
    pub op: FloatFn,
    pub fd: usize,
    pub a: u32,
    pub b: u32,
    pub c: u32,
}

/// What one step did: either the instruction ran (saying whether it already
/// updated the program counter), or it is a float operation whose result the
/// caller must compute and write back before advancing.
#[derive(Debug, Clone, Copy, PartialEq, Eq, Structural)]
pub enum StepOutcome {
    Ran(bool),
    Float(FloatReq),
}

/// The mutable core of the environment: both register files and the
/// program counter.
pub struct EnvV {
    pub regs: Seq<u32>,
    pub fregs: Seq<u32>,
    pub pc: u32,
}

impl Env {
    /// The mutable core of this environment.
    pub open spec fn core_v(self) -> EnvV {
        EnvV { regs: self.registers@, fregs: self.fregisters@, pc: self.pc }
    }
}

/// What one step yields mathematically.
pub enum StepResV {
    /// The word decodes to no executable instruction.
    Unknown,
    /// The new core state, and whether the program counter was updated.
    Ran(EnvV, bool),
    /// A float operation left to the float unit; the state is unchanged.
    Float(FloatFn, usize, u32, u32, u32),
}

/// A register file write: x0 stays zero.
pub open spec fn set_reg(regs: Seq<u32>, rd: int, value: u32) -> Seq<u32> {
    if rd == 0 {
        regs
    } else {
        regs.update(rd, value)
    }
}

/// 32-bit wrapping addition.
pub open spec fn wadd(x: u32, y: u32) -> u32 {
    vstd::wrapping::u32_specs::wrapping_add(x, y)
}

/// The low 32 bits of the product.
pub open spec fn wmul(x: u32, y: u32) -> u32 {
    vstd::wrapping::u32_specs::wrapping_mul(x, y)
}

/// The value sign-extended to 64 bits, as a bit pattern.
pub open spec fn sext64(a: u32) -> u64 {
    if a >= 0x8000_0000 {
        (a as u64) | 0xffff_ffff_0000_0000u64
    } else {
        a as u64
    }
}

/// The high 32 bits of the signed product.
pub open spec fn mulh_spec(a: u32, b: u32) -> u32 {
    (vstd::wrapping::u64_specs::wrapping_mul(sext64(a), sext64(b)) >> 32) as u32
}

/// The high 32 bits of the signed-by-unsigned product.
pub open spec fn mulhsu_spec(a: u32, b: u32) -> u32 {
    (vstd::wrapping::u64_specs::wrapping_mul(sext64(a), b as u64) >> 32) as u32
}

/// The high 32 bits of the unsigned product.
pub open spec fn mulhu_spec(a: u32, b: u32) -> u32 {
    (((a as nat * b as nat) % 0x1_0000_0000_0000_0000) as u64 >> 32) as u32
}

/// A branch offset sign-extended from its thirteen encoded bits.
pub open spec fn sext13(imm: u32) -> u32 {
    if imm & 0x1000 != 0 {
        imm | 0xffff_e000
    } else {
        imm
    }
}

/// A jump offset sign-extended from its twenty-one encoded bits.
pub open spec fn sext21(imm: u32) -> u32 {
    if imm & 0x10_0000 != 0 {
        imm | 0xffe0_0000
    } else {
        imm
    }
}

/// The magnitude of a two's-complement pattern.
pub open spec fn abs_u32(a: u32) -> u32 {
    if a >= 0x8000_0000 {
        neg_u32_spec(a)
    } else {
        a
    }
}

/// Signed division per the RISC-V convention: toward zero; by zero, -1; the
/// overflowing quotient wraps back to the dividend.
pub open spec fn div_spec(a: u32, b: u32) -> u32 {
    if b == 0 {
        0xffff_ffffu32
    } else {
        let q = abs_u32(a) / abs_u32(b);
        if (a >= 0x8000_0000) != (b >= 0x8000_0000) {
            neg_u32_spec(q)
        } else {
            q
        }
    }
}

/// One decode-and-dispatch step over the core state.
pub open spec fn step_spec(s: EnvV, w: u32) -> StepResV {
    match to_op_spec(w) {
        None => StepResV::Unknown,
        Some((kind, _name)) => match kind {
            Kind::U(u) => StepResV::Ran(
                EnvV { regs: set_reg(s.regs, u.rd as int, u.imm31_12 << 12), ..s },
                false,
            ),
            Kind::I(i) => StepResV::Ran(
                EnvV { regs: set_reg(s.regs, i.rd as int, wadd(s.regs[i.ra as int], i.imm)), ..s },
                false,
            ),
            Kind::R(r) => {
                let a = s.regs[r.ra as int];
                let b = s.regs[r.rb as int];
                if r.opcode == 0b0110011 {
                    let value = if r.funct3 == 0b000 && r.funct7 == 0b0000000 {
                        wadd(a, b)
                    } else if r.funct3 == 0b100 && r.funct7 == 0b0000000 {
                        a ^ b
                    } else if r.funct3 == 0b000 && r.funct7 == 0b0000001 {
                        wmul(a, b)
                    } else if r.funct3 == 0b001 && r.funct7 == 0b0000001 {
                        mulh_spec(a, b)
                    } else if r.funct3 == 0b010 && r.funct7 == 0b0000001 {
                        mulhsu_spec(a, b)
                    } else if r.funct3 == 0b011 && r.funct7 == 0b0000001 {
                        mulhu_spec(a, b)
                    } else {
                        div_spec(a, b)
                    };
                    StepResV::Ran(EnvV { regs: set_reg(s.regs, r.rd as int, value), ..s }, false)
                } else {
                    let fa = s.fregs[r.ra as int];
                    let fb = s.fregs[r.rb as int];
                    if r.funct7 == 0b0000000 {
                        StepResV::Float(FloatFn::FaddS, r.rd as usize, fa, fb, 0)
                    } else if r.funct7 == 0b0001100 {
                        StepResV::Float(FloatFn::FdivS, r.rd as usize, fa, fb, 0)
                    } else if r.funct7 == 0b1101000 {
                        StepResV::Float(FloatFn::FcvtSW, r.rd as usize, s.regs[r.ra as int], 0, 0)
                    } else {
                        StepResV::Ran(
                            EnvV {
                                fregs: s.fregs.update(r.rd as int, s.regs[r.ra as int]),
                                ..s
                            },
                            false,
                        )
                    }
                }
            },
            Kind::R4(r4) => StepResV::Float(
                FloatFn::FmaddS,
                r4.rd as usize,
                s.fregs[r4.ra as int],
                s.fregs[r4.rb as int],
                s.fregs[r4.rc as int],
            ),
            Kind::B(b) => {
                let taken = if b.funct3 == 0b000 {
                    s.regs[b.ra as int] == s.regs[b.rb as int]
                } else {
                    s.regs[b.ra as int] != s.regs[b.rb as int]
                };
                let imm = (b.imm_12 << 12) | (b.imm_11 << 11) | (b.imm_10_5 << 5) | (b.imm_4_1
                    << 1);
                if taken {
                    StepResV::Ran(EnvV { pc: wadd(s.pc, sext13(imm)), ..s }, true)
                } else {
                    StepResV::Ran(s, false)
                }
            },
            Kind::J(j) => {
                let imm = (j.imm_20 << 20) | (j.imm_19_12 << 12) | (j.imm_11 << 11) | (j.imm_10_1
                    << 1);
                StepResV::Ran(
                    EnvV {
                        regs: set_reg(s.regs, j.rd as int, wadd(s.pc, 4)),
                        pc: wadd(s.pc, sext21(imm)),
                        ..s
                    },
                    true,
                )
            },
            // Stores decode but the core defers data memory.
            Kind::S(_) => StepResV::Unknown,
            _ => StepResV::Unknown,
        },
    }
}

/// Every field a decoded word can put in a register slot is below 32, and
/// the function fields are within their widths.
pub proof fn lemma_decode_field_bounds(w: u32)
    by (bit_vector)
    ensures
        w & 0x7f < 0x80,
        (w >> 7) & 0x1f < 32,
        (w >> 12) & 0x7 < 8,
        (w >> 15) & 0x1f < 32,
        (w >> 20) & 0x1f < 32,
        (w >> 20) & 0xfff < 0x1000,
        (w >> 25) & 0x7f < 0x80,
        (w >> 25) & 0x3 < 4,
        (w >> 27) & 0x1f < 32,
        (w >> 31) & 0x1 < 2,
        (w >> 8) & 0xf < 0x10,
        (w >> 21) & 0x3ff < 0x400,
        (w >> 12) & 0xff < 0x100,
        (w >> 12) & 0xfffff < 0x100000,
{
}

/// lui rd, imm
fn lui(env: &mut Env, rd: usize, imm: u32)
    requires
        old(env).wf(),
        rd < 32,
    ensures
        final(env).wf(),
        final(env).registers@ == set_reg(old(env).registers@, rd as int, imm),
        old(env).frame_registers(*final(env)),
{
    env.set_register(rd, imm);
}

/// add rd, ra, rb
fn add(env: &mut Env, rd: usize, ra: usize, rb: usize)
    requires
        old(env).wf(),
        rd < 32,
        ra < 32,
        rb < 32,
    ensures
        final(env).wf(),
        final(env).registers@ == set_reg(
            old(env).registers@,
            rd as int,
            wadd(old(env).registers@[ra as int], old(env).registers@[rb as int]),
        ),
        old(env).frame_registers(*final(env)),
{
    let value = env.get_register(ra).wrapping_add(env.get_register(rb));
    env.set_register(rd, value);
}

/// addi rd, ra, imm
fn addi(env: &mut Env, rd: usize, ra: usize, imm: u32)
    requires
        old(env).wf(),
        rd < 32,
        ra < 32,
    ensures
        final(env).wf(),
        final(env).registers@ == set_reg(
            old(env).registers@,
            rd as int,
            wadd(old(env).registers@[ra as int], imm),
        ),
        old(env).frame_registers(*final(env)),
{
    let value = env.get_register(ra).wrapping_add(imm);
    env.set_register(rd, value);
}

/// xor rd, ra, rb
fn xor(env: &mut Env, rd: usize, ra: usize, rb: usize)
    requires
        old(env).wf(),
        rd < 32,
        ra < 32,
        rb < 32,
    ensures
        final(env).wf(),
        final(env).registers@ == set_reg(
            old(env).registers@,
            rd as int,
            old(env).registers@[ra as int] ^ old(env).registers@[rb as int],
        ),
        old(env).frame_registers(*final(env)),
{
    let value = env.get_register(ra) ^ env.get_register(rb);
    env.set_register(rd, value);
}

/// mul rd, ra, rb
fn mul(env: &mut Env, rd: usize, ra: usize, rb: usize)
    requires
        old(env).wf(),
        rd < 32,
        ra < 32,
        rb < 32,
    ensures
        final(env).wf(),
        final(env).registers@ == set_reg(
            old(env).registers@,
            rd as int,
            wmul(old(env).registers@[ra as int], old(env).registers@[rb as int]),
        ),
        old(env).frame_registers(*final(env)),
{
    let value = env.get_register(ra).wrapping_mul(env.get_register(rb));
    env.set_register(rd, value);
}

/// Sign-extends a register value to a 64-bit pattern.
fn sext64_exec(a: u32) -> (r: u64)
    ensures
        r == sext64(a),
{
    if a >= 0x8000_0000 {
        (a as u64) | 0xffff_ffff_0000_0000u64
    } else {
        a as u64
    }
}

/// mulh rd, ra, rb (signed x signed, high 32)
fn mulh(env: &mut Env, rd: usize, ra: usize, rb: usize)
    requires
        old(env).wf(),
        rd < 32,
        ra < 32,
        rb < 32,
    ensures
        final(env).wf(),
        final(env).registers@ == set_reg(
            old(env).registers@,
            rd as int,
            mulh_spec(old(env).registers@[ra as int], old(env).registers@[rb as int]),
        ),
        old(env).frame_registers(*final(env)),
{
    let a = sext64_exec(env.get_register(ra));
    let b = sext64_exec(env.get_register(rb));
    let p = a.wrapping_mul(b);
    env.set_register(rd, (p >> 32u64) as u32);
}

/// mulhsu rd, ra, rb (signed x unsigned, high 32)
fn mulhsu(env: &mut Env, rd: usize, ra: usize, rb: usize)
    requires
        old(env).wf(),
        rd < 32,
        ra < 32,
        rb < 32,
    ensures
        final(env).wf(),
        final(env).registers@ == set_reg(
            old(env).registers@,
            rd as int,
            mulhsu_spec(old(env).registers@[ra as int], old(env).registers@[rb as int]),
        ),
        old(env).frame_registers(*final(env)),
{
    let a = sext64_exec(env.get_register(ra));
    let b = env.get_register(rb) as u64;
    let p = a.wrapping_mul(b);
    env.set_register(rd, (p >> 32u64) as u32);
}

/// mulhu rd, ra, rb (unsigned x unsigned, high 32)
fn mulu(env: &mut Env, rd: usize, ra: usize, rb: usize)
    requires
        old(env).wf(),
        rd < 32,
        ra < 32,
        rb < 32,
    ensures
        final(env).wf(),
        final(env).registers@ == set_reg(
            old(env).registers@,
            rd as int,
            mulhu_spec(old(env).registers@[ra as int], old(env).registers@[rb as int]),
        ),
        old(env).frame_registers(*final(env)),
{
    let a = env.get_register(ra) as u64;
    let b = env.get_register(rb) as u64;
    proof {
        assert(a * b <= 0xffff_ffffu64 * 0xffff_ffffu64) by (nonlinear_arith)
            requires
                a <= 0xffff_ffffu64,
                b <= 0xffff_ffffu64,
        ;
        vstd::arithmetic::mul::lemma_mul_nonnegative(a as int, b as int);
    }
    let p = a * b;
    proof {
        assert(p as nat == (a as nat * b as nat) % 0x1_0000_0000_0000_0000);
    }
    env.set_register(rd, (p >> 32u64) as u32);
}

/// div rd, ra, rb (signed, toward zero; by zero -1)
fn div(env: &mut Env, rd: usize, ra: usize, rb: usize)
    requires
        old(env).wf(),
        rd < 32,
        ra < 32,
        rb < 32,
    ensures
        final(env).wf(),
        final(env).registers@ == set_reg(
            old(env).registers@,
            rd as int,
            div_spec(old(env).registers@[ra as int], old(env).registers@[rb as int]),
        ),
        old(env).frame_registers(*final(env)),
{
    let a = env.get_register(ra);
    let b = env.get_register(rb);
    if b == 0 {
        env.set_register(rd, 0xffff_ffff);
        return;
    }
    let na = if a >= 0x8000_0000 {
        crate::text::neg_u32(a)
    } else {
        a
    };
    let nb = if b >= 0x8000_0000 {
        crate::text::neg_u32(b)
    } else {
        b
    };
    let q = na / nb;
    let value = if (a >= 0x8000_0000) != (b >= 0x8000_0000) {
        crate::text::neg_u32(q)
    } else {
        q
    };
    env.set_register(rd, value);
}

/// beq/bne ra, rb, imm; answers whether the branch was taken.
fn branch(env: &mut Env, ra: usize, rb: usize, imm: u32, on_equal: bool) -> (jumped: bool)
    requires
        old(env).wf(),
        ra < 32,
        rb < 32,
    ensures
        final(env).wf(),
        final(env).registers == old(env).registers,
        final(env).fregisters == old(env).fregisters,
        final(env).label_map() == old(env).label_map(),
        final(env).instructions == old(env).instructions,
        final(env).stack == old(env).stack,
        final(env).prev_stacks == old(env).prev_stacks,
        jumped == if on_equal {
            old(env).registers@[ra as int] == old(env).registers@[rb as int]
        } else {
            old(env).registers@[ra as int] != old(env).registers@[rb as int]
        },
        final(env).pc == if jumped {
            wadd(old(env).pc, imm)
        } else {
            old(env).pc
        },
{
    let taken = if on_equal {
        env.get_register(ra) == env.get_register(rb)
    } else {
        env.get_register(ra) != env.get_register(rb)
    };
    if taken {
        env.pc = env.pc.wrapping_add(imm);
        return true;
    }
    false
}

/// jal rd, imm
fn jal(env: &mut Env, rd: usize, imm: u32)
    requires
        old(env).wf(),
        rd < 32,
    ensures
        final(env).wf(),
        final(env).registers@ == set_reg(old(env).registers@, rd as int, wadd(old(env).pc, 4)),
        final(env).pc == wadd(old(env).pc, imm),
        final(env).fregisters == old(env).fregisters,
        final(env).label_map() == old(env).label_map(),
        final(env).instructions == old(env).instructions,
        final(env).stack == old(env).stack,
        final(env).prev_stacks == old(env).prev_stacks,
{
    let ret = env.pc.wrapping_add(4);
    env.set_register(rd, ret);
    env.pc = env.pc.wrapping_add(imm);
}

/// fmv.w.x fd, ra: moves the raw bits of an integer register into a float
/// register.
fn fmv_w_x(env: &mut Env, fd: usize, ra: usize)
    requires
        old(env).wf(),
        fd < 32,
        ra < 32,
    ensures
        final(env).wf(),
        final(env).fregisters@ == old(env).fregisters@.update(
            fd as int,
            old(env).registers@[ra as int],
        ),
        old(env).frame_fregisters(*final(env)),
{
    let bits = env.get_register(ra);
    env.set_fregister(fd, bits);
}

/// Executes one instruction word against the environment.
///
/// `Ok(StepOutcome::Ran(jumped))` says the word ran and whether it updated
/// the program counter itself; `Ok(StepOutcome::Float(req))` hands a float
/// operation to the caller's float unit with the state untouched; an
/// unrecognized word is a fatal `UnknownEncoding` and changes nothing.
/// Register x0 still reads zero afterwards, whatever the word was.
pub fn run_instruction(env: &mut Env, instruction: u32) -> (r: Result<StepOutcome, RuntimeErr>)
    requires
        old(env).wf(),
    ensures
        final(env).wf(),
        final(env).registers@[0] == 0,
        final(env).label_map() == old(env).label_map(),
        final(env).instructions == old(env).instructions,
        final(env).stack == old(env).stack,
        final(env).prev_stacks == old(env).prev_stacks,
        match step_spec(old(env).core_v(), instruction) {
            StepResV::Unknown => r matches Err(e) && e@ == RuntimeErrV::UnknownEncoding
                && final(env).core_v() == old(env).core_v(),
            StepResV::Ran(s2, j) => r matches Ok(o) && o == StepOutcome::Ran(j)
                && final(env).core_v() == s2,
            StepResV::Float(op, fd, a, b, c) => r matches Ok(o) && o == StepOutcome::Float(
                FloatReq { op, fd, a, b, c },
            ) && final(env).core_v() == old(env).core_v(),
        },
{
    proof {
        lemma_decode_field_bounds(instruction);
    }
    let decoded = Kind::to_op(instruction);
    let (kind, _name) = match decoded {
        Some(d) => d,
        None => {
            return Err(RuntimeErr::UnknownEncoding);
        },
    };
    match kind {
        Kind::U(u) => {
            lui(env, u.rd as usize, u.imm31_12 << 12u32);
            Ok(StepOutcome::Ran(false))
        },
        Kind::I(i) => {
            addi(env, i.rd as usize, i.ra as usize, i.imm);
            Ok(StepOutcome::Ran(false))
        },
        Kind::R(r) => {
            let rd = r.rd as usize;
            let ra = r.ra as usize;
            let rb = r.rb as usize;
            if r.opcode == 0b0110011 {
                if r.funct3 == 0b000 && r.funct7 == 0b0000000 {
                    crate::execution::add(env, rd, ra, rb);
                } else if r.funct3 == 0b100 && r.funct7 == 0b0000000 {
                    xor(env, rd, ra, rb);
                } else if r.funct3 == 0b000 && r.funct7 == 0b0000001 {
                    crate::execution::mul(env, rd, ra, rb);
                } else if r.funct3 == 0b001 && r.funct7 == 0b0000001 {
                    mulh(env, rd, ra, rb);
                } else if r.funct3 == 0b010 && r.funct7 == 0b0000001 {
                    mulhsu(env, rd, ra, rb);
                } else if r.funct3 == 0b011 && r.funct7 == 0b0000001 {
                    mulu(env, rd, ra, rb);
                } else {
                    div(env, rd, ra, rb);
                }
                Ok(StepOutcome::Ran(false))
            } else {
                if r.funct7 == 0b0000000 {
                    let a = env.get_fregister(ra);
                    let b = env.get_fregister(rb);
                    Ok(StepOutcome::Float(FloatReq { op: FloatFn::FaddS, fd: rd, a, b, c: 0 }))
                } else if r.funct7 == 0b0001100 {
                    let a = env.get_fregister(ra);
                    let b = env.get_fregister(rb);
                    Ok(StepOutcome::Float(FloatReq { op: FloatFn::FdivS, fd: rd, a, b, c: 0 }))
                } else if r.funct7 == 0b1101000 {
                    let a = env.get_register(ra);
                    Ok(StepOutcome::Float(FloatReq { op: FloatFn::FcvtSW, fd: rd, a, b: 0, c: 0 }))
                } else {
                    fmv_w_x(env, rd, ra);
                    Ok(StepOutcome::Ran(false))
                }
            }
        },
        Kind::R4(r4) => {
            let a = env.get_fregister(r4.ra as usize);
            let b = env.get_fregister(r4.rb as usize);
            let c = env.get_fregister(r4.rc as usize);
            Ok(StepOutcome::Float(FloatReq { op: FloatFn::FmaddS, fd: r4.rd as usize, a, b, c }))
        },
        Kind::B(b) => {
            let imm = (b.imm_12 << 12u32) | (b.imm_11 << 11u32) | (b.imm_10_5 << 5u32) | (b.imm_4_1
                << 1u32);
            let imm = if imm & 0x1000 != 0 {
                imm | 0xffff_e000
            } else {
                imm
            };
            let jumped = branch(env, b.ra as usize, b.rb as usize, imm, b.funct3 == 0b000);
            Ok(StepOutcome::Ran(jumped))
        },
        Kind::J(j) => {
            let imm = (j.imm_20 << 20u32) | (j.imm_19_12 << 12u32) | (j.imm_11 << 11u32) | (
            j.imm_10_1 << 1u32);
            let imm = if imm & 0x10_0000 != 0 {
                imm | 0xffe0_0000
            } else {
                imm
            };
            jal(env, j.rd as usize, imm);
            Ok(StepOutcome::Ran(true))
        },
        _ => Err(RuntimeErr::UnknownEncoding),
    }
}

} // verus!
