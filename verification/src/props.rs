//! The laws the library states about itself: the encode/decode round trip
//! of every real instruction format, the single assignment of each label by
//! the assembler's first pass, the determinism of parsing and assembling,
//! and the exactness of the `li` expansion under execution.

use vstd::prelude::*;

use crate::env::pass1_spec;
use crate::execution::{step_spec, EnvV, StepResV};
use crate::instructions::{
    add_template, addi_template, beq_template, bne_template, div_template, handle_pseudo_spec,
    jal_template, lui_template, mul_template, sb_template, sig_reg_imm, to_op_spec,
    with_kind_spec, Kind, Pseudo, PseudoOp,
};
use crate::parser::{parse_spec, Loc, TokenV};

verus! {

/// A register index below 32 survives the five-bit masking and the casts of
/// operand placement.
proof fn lemma_reg_cast(x: usize)
    by (bit_vector)
    requires
        x < 32,
    ensures
        x & 0x1f == x,
        ((x & 0x1f) as u32) < 32,
        (((x & 0x1f) as u32) as usize) == x,
{
}

/// Bit-exactness of the R format: every field comes back out of the word.
proof fn lemma_r_bits(f7: u32, rb: u32, ra: u32, f3: u32, rd: u32, op: u32)
    by (bit_vector)
    requires
        f7 < 0x80,
        rb < 32,
        ra < 32,
        f3 < 8,
        rd < 32,
        op < 0x80,
    ensures
        ({
            let w = (f7 << 25) | (rb << 20) | (ra << 15) | (f3 << 12) | (rd << 7) | op;
            &&& w & 0x7f == op
            &&& (w >> 7) & 0x1f == rd
            &&& (w >> 12) & 0x7 == f3
            &&& (w >> 15) & 0x1f == ra
            &&& (w >> 20) & 0x1f == rb
            &&& (w >> 25) & 0x7f == f7
        }),
{
}

/// Bit-exactness of the R4 format.
proof fn lemma_r4_bits(rc: u32, f2: u32, rb: u32, ra: u32, f3: u32, rd: u32, op: u32)
    by (bit_vector)
    requires
        rc < 32,
        f2 < 4,
        rb < 32,
        ra < 32,
        f3 < 8,
        rd < 32,
        op < 0x80,
    ensures
        ({
            let w = (rc << 27) | (f2 << 25) | (rb << 20) | (ra << 15) | (f3 << 12) | (rd << 7)
                | op;
            &&& w & 0x7f == op
            &&& (w >> 7) & 0x1f == rd
            &&& (w >> 12) & 0x7 == f3
            &&& (w >> 15) & 0x1f == ra
            &&& (w >> 20) & 0x1f == rb
            &&& (w >> 25) & 0x3 == f2
            &&& (w >> 27) & 0x1f == rc
        }),
{
}

/// Bit-exactness of the I format: the immediate keeps its low twelve bits.
proof fn lemma_i_bits(imm: u32, ra: u32, f3: u32, rd: u32, op: u32)
    by (bit_vector)
    requires
        ra < 32,
        f3 < 8,
        rd < 32,
        op < 0x80,
    ensures
        ({
            let w = ((imm & 0xfff) << 20) | (ra << 15) | (f3 << 12) | (rd << 7) | op;
            &&& w & 0x7f == op
            &&& (w >> 7) & 0x1f == rd
            &&& (w >> 12) & 0x7 == f3
            &&& (w >> 15) & 0x1f == ra
            &&& (w >> 20) & 0xfff == imm & 0xfff
        }),
{
}

/// Bit-exactness of the S format: the split immediate reassembles to its
/// low twelve bits.
proof fn lemma_s_bits(imm: u32, rb: u32, ra: u32, f3: u32, op: u32)
    by (bit_vector)
    requires
        rb < 32,
        ra < 32,
        f3 < 8,
        op < 0x80,
    ensures
        ({
            let w = (((imm >> 5) & 0x7f) << 25) | (rb << 20) | (ra << 15) | (f3 << 12) | ((imm
                & 0x1f) << 7) | op;
            &&& w & 0x7f == op
            &&& (w >> 12) & 0x7 == f3
            &&& (w >> 15) & 0x1f == ra
            &&& (w >> 20) & 0x1f == rb
            &&& (w >> 25) & 0x7f == (imm >> 5) & 0x7f
            &&& (w >> 7) & 0x1f == imm & 0x1f
            &&& (((w >> 25) & 0x7f) << 5) | ((w >> 7) & 0x1f) == imm & 0xfff
        }),
{
}

/// Bit-exactness of the B format: the scattered immediate reassembles to
/// bits 12 down to 1, bit 0 being implicitly zero.
proof fn lemma_b_bits(imm: u32, rb: u32, ra: u32, f3: u32, op: u32)
    by (bit_vector)
    requires
        rb < 32,
        ra < 32,
        f3 < 8,
        op < 0x80,
    ensures
        ({
            let w = (((imm >> 12) & 1) << 31) | (((imm >> 5) & 0x3f) << 25) | (rb << 20) | (ra
                << 15) | (f3 << 12) | (((imm >> 1) & 0xf) << 8) | (((imm >> 11) & 1) << 7) | op;
            &&& w & 0x7f == op
            &&& (w >> 12) & 0x7 == f3
            &&& (w >> 15) & 0x1f == ra
            &&& (w >> 20) & 0x1f == rb
            &&& (w >> 31) & 1 == (imm >> 12) & 1
            &&& (w >> 25) & 0x3f == (imm >> 5) & 0x3f
            &&& (w >> 8) & 0xf == (imm >> 1) & 0xf
            &&& (w >> 7) & 1 == (imm >> 11) & 1
            &&& ((((w >> 31) & 1) << 12) | (((w >> 7) & 1) << 11) | (((w >> 25) & 0x3f) << 5) | ((
            (w >> 8) & 0xf) << 1)) == imm & 0x1ffe
        }),
{
}

/// Bit-exactness of the U format: the immediate keeps its upper twenty bits.
proof fn lemma_u_bits(imm: u32, rd: u32, op: u32)
    by (bit_vector)
    requires
        rd < 32,
        op < 0x80,
    ensures
        ({
            let w = (((imm >> 12) & 0xfffff) << 12) | (rd << 7) | op;
            &&& w & 0x7f == op
            &&& (w >> 7) & 0x1f == rd
            &&& (w >> 12) & 0xfffff == (imm >> 12) & 0xfffff
            &&& ((w >> 12) & 0xfffff) << 12 == imm & 0xfffff000
        }),
{
}

/// Bit-exactness of the J format: the scattered immediate reassembles to
/// bits 20 down to 1, bit 0 being implicitly zero.
proof fn lemma_j_bits(imm: u32, rd: u32, op: u32)
    by (bit_vector)
    requires
        rd < 32,
        op < 0x80,
    ensures
        ({
            let w = (((imm >> 20) & 1) << 31) | (((imm >> 1) & 0x3ff) << 21) | (((imm >> 11) & 1)
                << 20) | (((imm >> 12) & 0xff) << 12) | (rd << 7) | op;
            &&& w & 0x7f == op
            &&& (w >> 7) & 0x1f == rd
            &&& (w >> 31) & 1 == (imm >> 20) & 1
            &&& (w >> 21) & 0x3ff == (imm >> 1) & 0x3ff
            &&& (w >> 20) & 1 == (imm >> 11) & 1
            &&& (w >> 12) & 0xff == (imm >> 12) & 0xff
            &&& ((((w >> 31) & 1) << 20) | (((w >> 12) & 0xff) << 12) | (((w >> 20) & 1) << 11) | (
            ((w >> 21) & 0x3ff) << 1)) == imm & 0x1ffffe
        }),
{
}

/// Round trip of `addi`: placing operands, encoding and decoding returns the
/// same registers and the immediate masked to the format's twelve bits.
pub proof fn lemma_round_trip_addi(imm: u32, rd: usize, ra: usize)
    requires
        rd < 32,
        ra < 32,
    ensures
        ({
            let k = with_kind_spec(Kind::I(addi_template()), imm, seq![rd, ra, 0usize, 0usize]);
            let w = k.word_spec();
            &&& to_op_spec(w) == Some((k, "addi"@))
            &&& k.regs_spec() == Some(seq![rd, ra, 0usize, 0usize])
            &&& k.imm_spec() == Some(imm & 0xfff)
        }),
{
    lemma_reg_cast(rd);
    lemma_reg_cast(ra);
    lemma_i_bits(imm, (ra & 0x1f) as u32, 0, (rd & 0x1f) as u32, 0b0010011);
}

/// Round trip of `lui`: the immediate comes back with its low twelve bits
/// cleared.
pub proof fn lemma_round_trip_lui(imm: u32, rd: usize)
    requires
        rd < 32,
    ensures
        ({
            let k = with_kind_spec(Kind::U(lui_template()), imm, seq![rd]);
            let w = k.word_spec();
            &&& to_op_spec(w) == Some((k, "lui"@))
            &&& k.regs_spec() == Some(seq![rd, 0usize, 0usize, 0usize])
            &&& k.imm_spec() == Some(imm & 0xffff_f000)
        }),
{
    lemma_reg_cast(rd);
    lemma_u_bits(imm, (rd & 0x1f) as u32, 0b0110111);
}

/// Round trip of `sb`: registers return exactly, the immediate masked to
/// twelve bits.
pub proof fn lemma_round_trip_sb(imm: u32, ra: usize, rb: usize)
    requires
        ra < 32,
        rb < 32,
    ensures
        ({
            let k = with_kind_spec(Kind::S(sb_template()), imm, seq![0usize, ra, rb]);
            let w = k.word_spec();
            &&& to_op_spec(w) == Some((k, "sb"@))
            &&& k.regs_spec() == Some(seq![0usize, ra, rb, 0usize])
            &&& k.imm_spec() == Some(imm & 0xfff)
        }),
{
    lemma_reg_cast(ra);
    lemma_reg_cast(rb);
    lemma_s_bits(imm, (rb & 0x1f) as u32, (ra & 0x1f) as u32, 0, 0b0100011);
}

/// Round trip of the three-register arithmetic instructions sharing the R
/// format: `add`, `mul` and `div` come back with their registers and their
/// own mnemonics.
pub proof fn lemma_round_trip_r(rd: usize, ra: usize, rb: usize)
    requires
        rd < 32,
        ra < 32,
        rb < 32,
    ensures
        ({
            let k = with_kind_spec(Kind::R(add_template()), 0, seq![rd, ra, rb]);
            &&& to_op_spec(k.word_spec()) == Some((k, "add"@))
            &&& k.regs_spec() == Some(seq![rd, ra, rb, 0usize])
        }),
        ({
            let k = with_kind_spec(Kind::R(mul_template()), 0, seq![rd, ra, rb]);
            &&& to_op_spec(k.word_spec()) == Some((k, "mul"@))
            &&& k.regs_spec() == Some(seq![rd, ra, rb, 0usize])
        }),
        ({
            let k = with_kind_spec(Kind::R(div_template()), 0, seq![rd, ra, rb]);
            &&& to_op_spec(k.word_spec()) == Some((k, "div"@))
            &&& k.regs_spec() == Some(seq![rd, ra, rb, 0usize])
        }),
{
    lemma_reg_cast(rd);
    lemma_reg_cast(ra);
    lemma_reg_cast(rb);
    lemma_r_bits((rb & 0x1f) as u32, 0, 0, 0, 0, 0);
    lemma_r_bits(0b0000000, (rb & 0x1f) as u32, (ra & 0x1f) as u32, 0b000, (rd & 0x1f) as u32, 0b0110011);
    lemma_r_bits(0b0000001, (rb & 0x1f) as u32, (ra & 0x1f) as u32, 0b000, (rd & 0x1f) as u32, 0b0110011);
    lemma_r_bits(0b0000001, (rb & 0x1f) as u32, (ra & 0x1f) as u32, 0b100, (rd & 0x1f) as u32, 0b0110011);
}

/// Round trip of the branches: `beq` and `bne` come back with their
/// registers and the immediate masked to the format's thirteen bits with a
/// zero low bit.
pub proof fn lemma_round_trip_branch(imm: u32, ra: usize, rb: usize)
    requires
        ra < 32,
        rb < 32,
    ensures
        ({
            let k = with_kind_spec(Kind::B(beq_template()), imm, seq![0usize, ra, rb]);
            &&& to_op_spec(k.word_spec()) == Some((k, "beq"@))
            &&& k.regs_spec() == Some(seq![0usize, ra, rb, 0usize])
            &&& k.imm_spec() == Some(imm & 0x1ffe)
        }),
        ({
            let k = with_kind_spec(Kind::B(bne_template()), imm, seq![0usize, ra, rb]);
            &&& to_op_spec(k.word_spec()) == Some((k, "bne"@))
            &&& k.regs_spec() == Some(seq![0usize, ra, rb, 0usize])
            &&& k.imm_spec() == Some(imm & 0x1ffe)
        }),
{
    lemma_reg_cast(ra);
    lemma_reg_cast(rb);
    lemma_b_bits(imm, (rb & 0x1f) as u32, (ra & 0x1f) as u32, 0b000, 0b1100011);
    lemma_b_bits(imm, (rb & 0x1f) as u32, (ra & 0x1f) as u32, 0b001, 0b1100011);
}

/// Round trip of the single-precision float instructions sharing the R
/// format: registers return exactly and the function bits pick the mnemonic.
pub proof fn lemma_round_trip_float_r(rd: usize, ra: usize, rb: usize)
    requires
        rd < 32,
        ra < 32,
        rb < 32,
    ensures
        ({
            let k = with_kind_spec(
                Kind::R(crate::instructions::fadd_template()),
                0,
                seq![rd, ra, rb],
            );
            &&& to_op_spec(k.word_spec()) == Some((k, "fadd.s"@))
            &&& k.regs_spec() == Some(seq![rd, ra, rb, 0usize])
        }),
        ({
            let k = with_kind_spec(
                Kind::R(crate::instructions::fdiv_template()),
                0,
                seq![rd, ra, rb],
            );
            &&& to_op_spec(k.word_spec()) == Some((k, "fdiv.s"@))
            &&& k.regs_spec() == Some(seq![rd, ra, rb, 0usize])
        }),
        ({
            let k = with_kind_spec(
                Kind::R(crate::instructions::fcvt_s_w_template()),
                0,
                seq![rd, ra, rb],
            );
            &&& to_op_spec(k.word_spec()) == Some((k, "fcvt.s.w"@))
            &&& k.regs_spec() == Some(seq![rd, ra, rb, 0usize])
        }),
        ({
            let k = with_kind_spec(
                Kind::R(crate::instructions::fmv_w_x_template()),
                0,
                seq![rd, ra, rb],
            );
            &&& to_op_spec(k.word_spec()) == Some((k, "fmv.w.x"@))
            &&& k.regs_spec() == Some(seq![rd, ra, rb, 0usize])
        }),
{
    lemma_reg_cast(rd);
    lemma_reg_cast(ra);
    lemma_reg_cast(rb);
    lemma_r_bits(0b0000000, (rb & 0x1f) as u32, (ra & 0x1f) as u32, 0b000, (rd & 0x1f) as u32, 0b1010011);
    lemma_r_bits(0b0001100, (rb & 0x1f) as u32, (ra & 0x1f) as u32, 0b000, (rd & 0x1f) as u32, 0b1010011);
    lemma_r_bits(0b1101000, (rb & 0x1f) as u32, (ra & 0x1f) as u32, 0b000, (rd & 0x1f) as u32, 0b1010011);
    lemma_r_bits(0b1111000, (rb & 0x1f) as u32, (ra & 0x1f) as u32, 0b000, (rd & 0x1f) as u32, 0b1010011);
}

/// Round trip of the fused multiply-add: all four registers return exactly.
pub proof fn lemma_round_trip_fmadd(rd: usize, ra: usize, rb: usize, rc: usize)
    requires
        rd < 32,
        ra < 32,
        rb < 32,
        rc < 32,
    ensures
        ({
            let k = with_kind_spec(
                Kind::R4(crate::instructions::fmadd_template()),
                0,
                seq![rd, ra, rb, rc],
            );
            &&& to_op_spec(k.word_spec()) == Some((k, "fmadd.s"@))
            &&& k.regs_spec() == Some(seq![rd, ra, rb, rc])
        }),
{
    lemma_reg_cast(rd);
    lemma_reg_cast(ra);
    lemma_reg_cast(rb);
    lemma_reg_cast(rc);
    lemma_r4_bits(
        (rc & 0x1f) as u32,
        0b00,
        (rb & 0x1f) as u32,
        (ra & 0x1f) as u32,
        0b000,
        (rd & 0x1f) as u32,
        0b1000011,
    );
}

/// Round trip of `jal`: the register returns, the immediate masked to the
/// format's twenty-one bits with a zero low bit.
pub proof fn lemma_round_trip_jal(imm: u32, rd: usize)
    requires
        rd < 32,
    ensures
        ({
            let k = with_kind_spec(Kind::J(jal_template()), imm, seq![rd]);
            &&& to_op_spec(k.word_spec()) == Some((k, "jal"@))
            &&& k.regs_spec() == Some(seq![rd, 0usize, 0usize, 0usize])
            &&& k.imm_spec() == Some(imm & 0x1f_fffe)
        }),
{
    lemma_reg_cast(rd);
    lemma_j_bits(imm, (rd & 0x1f) as u32, 0b1101111);
}

/// Every decoded word re-encodes to itself: the format fields of each real
/// encoding cover all thirty-two bits exactly once.
pub proof fn lemma_word_round_trip(w: u32)
    ensures
        to_op_spec(w) matches Some(entry) ==> entry.0.word_spec() == w,
{
    if to_op_spec(w) is Some {
        let k = to_op_spec(w).unwrap().0;
        match k {
            Kind::R(_) => {
                assert((((w >> 25) & 0x7f) << 25) | (((w >> 20) & 0x1f) << 20) | (((w >> 15)
                    & 0x1f) << 15) | (((w >> 12) & 0x7) << 12) | (((w >> 7) & 0x1f) << 7) | (w
                    & 0x7f) == w) by (bit_vector);
            },
            Kind::R4(_) => {
                assert((((w >> 27) & 0x1f) << 27) | (((w >> 25) & 0x3) << 25) | (((w >> 20) & 0x1f)
                    << 20) | (((w >> 15) & 0x1f) << 15) | (((w >> 12) & 0x7) << 12) | (((w >> 7)
                    & 0x1f) << 7) | (w & 0x7f) == w) by (bit_vector);
            },
            Kind::I(_) => {
                assert((((w >> 20) & 0xfff) << 20) | (((w >> 15) & 0x1f) << 15) | (((w >> 12)
                    & 0x7) << 12) | (((w >> 7) & 0x1f) << 7) | (w & 0x7f) == w) by (bit_vector);
            },
            Kind::S(_) => {
                assert((((w >> 25) & 0x7f) << 25) | (((w >> 20) & 0x1f) << 20) | (((w >> 15)
                    & 0x1f) << 15) | (((w >> 12) & 0x7) << 12) | (((w >> 7) & 0x1f) << 7) | (w
                    & 0x7f) == w) by (bit_vector);
            },
            Kind::B(_) => {
                assert((((w >> 31) & 0x1) << 31) | (((w >> 25) & 0x3f) << 25) | (((w >> 20) & 0x1f)
                    << 20) | (((w >> 15) & 0x1f) << 15) | (((w >> 12) & 0x7) << 12) | (((w >> 8)
                    & 0xf) << 8) | (((w >> 7) & 0x1) << 7) | (w & 0x7f) == w) by (bit_vector);
            },
            Kind::U(_) => {
                assert((((w >> 12) & 0xfffff) << 12) | (((w >> 7) & 0x1f) << 7) | (w & 0x7f) == w)
                    by (bit_vector);
            },
            Kind::J(_) => {
                assert((((w >> 31) & 0x1) << 31) | (((w >> 21) & 0x3ff) << 21) | (((w >> 20) & 0x1)
                    << 20) | (((w >> 12) & 0xff) << 12) | (((w >> 7) & 0x1f) << 7) | (w & 0x7f)
                    == w) by (bit_vector);
            },
            _ => {},
        }
    }
}

/// How far one token advances the first pass's byte offset.
pub open spec fn advance1(t: TokenV, i: int) -> int {
    match t {
        TokenV::Mnemonic(name, _args) => match crate::instructions::instruction_spec(name) {
            Some(entry) => if entry.0 is Pseudo {
                i + 4 * crate::env::pseudo_count(entry.0, entry.1)
            } else {
                i + 4
            },
            None => i,
        },
        _ => i,
    }
}

/// The first pass's byte offset just before token `k`.
pub open spec fn pass1_off(tokens: Seq<(TokenV, Loc)>, i: int, k: int) -> int
    decreases k,
{
    if k <= 0 {
        i
    } else {
        pass1_off(tokens.drop_first(), advance1(tokens[0].0, i), k - 1)
    }
}

/// A stream without a label of the given name leaves that name's binding
/// alone.
proof fn lemma_pass1_no_label(
    tokens: Seq<(TokenV, Loc)>,
    i: int,
    labels: Map<Seq<char>, u32>,
    nm: Seq<char>,
)
    requires
        forall|j: int|
            0 <= j < tokens.len() ==> ((#[trigger] tokens[j].0) matches TokenV::Label(m) ==> m
                != nm),
    ensures
        pass1_spec(tokens, i, labels).1.contains_key(nm) == labels.contains_key(nm),
        labels.contains_key(nm) ==> pass1_spec(tokens, i, labels).1[nm] == labels[nm],
    decreases tokens.len(),
{
    if tokens.len() > 0 {
        assert(tokens[0].0 matches TokenV::Label(m) ==> m != nm);
        assert forall|j: int| 0 <= j < tokens.drop_first().len() implies ((#[trigger] tokens.drop_first()[j].0)
            matches TokenV::Label(m) ==> m != nm) by {
            assert(tokens.drop_first()[j] == tokens[j + 1]);
        }
        match tokens[0].0 {
            TokenV::Label(m) => {
                lemma_pass1_no_label(tokens.drop_first(), i, labels.insert(m, i as u32), nm);
            },
            _ => {
                lemma_pass1_no_label(tokens.drop_first(), advance1(tokens[0].0, i), labels, nm);
            },
        }
    }
}

/// The label table is assigned once per name and pass: the first pass gives
/// a label the byte offset at its last definition — so a name defined once
/// gets exactly its definition's offset — and nothing after the pass changes
/// it (`assemble_op` and `run_instruction` state in their own contracts that
/// they leave the label table as it stands).
pub proof fn lemma_pass1_label_once(
    tokens: Seq<(TokenV, Loc)>,
    i: int,
    labels: Map<Seq<char>, u32>,
    k: int,
    nm: Seq<char>,
)
    requires
        0 <= k < tokens.len(),
        tokens[k].0 == TokenV::Label(nm),
        forall|j: int|
            k < j < tokens.len() ==> ((#[trigger] tokens[j].0) matches TokenV::Label(m) ==> m
                != nm),
    ensures
        pass1_spec(tokens, i, labels).1.contains_key(nm),
        pass1_spec(tokens, i, labels).1[nm] == pass1_off(tokens, i, k) as u32,
    decreases k,
{
    assert forall|j: int| k - 1 < j < tokens.drop_first().len() implies ((
    #[trigger] tokens.drop_first()[j].0) matches TokenV::Label(m) ==> m != nm) by {
        assert(tokens.drop_first()[j] == tokens[j + 1]);
    }
    if k == 0 {
        assert forall|j: int| 0 <= j < tokens.drop_first().len() implies ((
        #[trigger] tokens.drop_first()[j].0) matches TokenV::Label(m) ==> m != nm) by {
            assert(tokens.drop_first()[j] == tokens[j + 1]);
        }
        lemma_pass1_no_label(tokens.drop_first(), i, labels.insert(nm, i as u32), nm);
    } else {
        assert(tokens.drop_first()[k - 1] == tokens[k]);
        match tokens[0].0 {
            TokenV::Label(m) => {
                lemma_pass1_label_once(
                    tokens.drop_first(),
                    i,
                    labels.insert(m, i as u32),
                    k - 1,
                    nm,
                );
            },
            _ => {
                lemma_pass1_label_once(
                    tokens.drop_first(),
                    advance1(tokens[0].0, i),
                    labels,
                    k - 1,
                    nm,
                );
            },
        }
    }
}

/// A token the parser hands on meets what both assembler passes ask of it:
/// it is a label or a mnemonic, and a mnemonic's arguments satisfy the
/// assembler's argument condition for any signature. Together with
/// `lemma_parse_output_wf`, everything `parse` returns can be fed to
/// `handle_mem_offsets` and `assemble_op`.
pub proof fn lemma_parsed_token_assembles(t: TokenV)
    requires
        crate::parser::top_level_wf(t),
    ensures
        crate::env::top_level_token(t),
        t matches TokenV::Mnemonic(name, args) ==> crate::env::mnemonic_args_ok(name, args),
{
    match t {
        TokenV::Mnemonic(name, args) => {
            match crate::instructions::instruction_spec(name) {
                Some(entry) => {
                    assert forall|k: int|
                        0 <= k < args.len() && k < entry.1.len() implies crate::env::arg_resolvable(
                        entry.1[k],
                        (#[trigger] args[k]).0,
                    ) by {
                        assert(crate::parser::arg_token_wf(args[k].0));
                    }
                },
                None => {},
            }
        },
        _ => {},
    }
}

/// The parser is deterministic: byte-identical inputs yield the same token
/// stream or the same errors. The executable `parse` is pinned to
/// `parse_spec` by its contract, so this extends to it.
pub proof fn lemma_parse_deterministic(a: Seq<char>, b: Seq<char>)
    requires
        a == b,
    ensures
        parse_spec(a) == parse_spec(b),
{
}

/// The assembler is deterministic: the same label table, mnemonic, arguments
/// and location yield the same words or the same error. The executable
/// `assemble_op` is pinned to `assemble_mnemonic_spec` by its contract.
pub proof fn lemma_assemble_deterministic(
    labels: Map<Seq<char>, u32>,
    name: Seq<char>,
    args: Seq<(TokenV, Loc)>,
    loc: Loc,
)
    ensures
        crate::env::assemble_mnemonic_spec(labels, name, args, loc)
            == crate::env::assemble_mnemonic_spec(labels, name, args, loc),
{
}

/// `li rd, imm` expands into at most two instructions, and executing them in
/// order reproduces `imm` exactly in `rd`, for every 32-bit `imm`. Register
/// x0 is hardwired to zero, so the law asks for a destination other than x0.
pub proof fn lemma_li_exact(s: EnvV, rd: usize, imm: u32)
    requires
        1 <= rd < 32,
        s.regs.len() == 32,
        s.regs[0] == 0,
    ensures
        ({
            let ws = handle_pseudo_spec(
                Kind::Pseudo(Pseudo(PseudoOp::Li)),
                sig_reg_imm(),
                imm,
                seq![rd, 0usize, 0usize, 0usize],
            );
            &&& 1 <= ws.len() <= 2
            &&& match step_spec(s, ws[0].0.word_spec()) {
                StepResV::Ran(s1, j0) => !j0 && if ws.len() == 1 {
                    s1.regs[rd as int] == imm
                } else {
                    match step_spec(s1, ws[1].0.word_spec()) {
                        StepResV::Ran(s2, j1) => !j1 && s2.regs[rd as int] == imm,
                        _ => false,
                    }
                },
                _ => false,
            }
        }),
{
    lemma_reg_cast(rd);
    lemma_reg_cast(0);
    let rdm = (rd & 0x1f) as u32;
    if imm >> 12 == 0 {
        lemma_i_bits(imm, 0, 0, rdm, 0b0010011);
        assert(imm & 0xfff == imm) by (bit_vector)
            requires
                imm >> 12 == 0,
        ;
    } else if imm & 0xfff == 0 {
        lemma_u_bits(imm, rdm, 0b0110111);
        assert(((imm >> 12) & 0xfffff) << 12 == imm) by (bit_vector)
            requires
                imm & 0xfff == 0,
        ;
    } else {
        let hi = imm & 0xffff_f000;
        let lo = imm & 0xfff;
        lemma_u_bits(hi, rdm, 0b0110111);
        lemma_i_bits(lo, rdm, 0, rdm, 0b0010011);
        assert(((hi >> 12) & 0xfffff) << 12 == hi && lo & 0xfff == lo && hi + lo == imm)
            by (bit_vector)
            requires
                hi == imm & 0xffff_f000,
                lo == imm & 0xfff,
        ;
    }
}

} // verus!
