//! End-to-end behavior: parsing, the two assembler passes, execution, the
//! explainer, and the error taxonomy.

use rizz_v::env::Env;
use rizz_v::err::{RuntimeErr, SyntaxErr};
use rizz_v::execution::{run_instruction, FloatFn, StepOutcome};
use rizz_v::info::info;
use rizz_v::instructions::{get_instruction, with, Kind};
use rizz_v::parser::{parse, Token};

fn assemble(src: &str) -> (Env, Vec<u32>) {
    let mut env = Env::new();
    let toks = parse(&env, src).expect("parse should succeed");
    let toks = env.handle_mem_offsets(toks);
    let mut words = Vec::new();
    for t in toks {
        if matches!(t.0, Token::Mnemonic(..)) {
            words.extend(env.assemble_op(t).expect("assemble should succeed"));
        }
    }
    (env, words)
}

fn run(env: &mut Env, words: &[u32]) {
    while (env.pc / 4) < words.len() as u32 {
        match run_instruction(env, words[(env.pc / 4) as usize]).expect("step should succeed") {
            StepOutcome::Ran(true) => {}
            _ => env.pc += 4,
        }
    }
}

#[test]
fn li_add_program() {
    let (mut env, words) = assemble("li a0 5\nli a1 7\nadd a2 a0 a1");
    run(&mut env, &words);
    assert_eq!(env.get_register(10), 5);
    assert_eq!(env.get_register(11), 7);
    assert_eq!(env.get_register(12), 12);
    for i in 0..32 {
        if i != 10 && i != 11 && i != 12 {
            assert_eq!(env.get_register(i), 0);
        }
    }
}

#[test]
fn branch_not_taken_program() {
    let (mut env, words) = assemble("addi a0 x0 1\nbeq a0 x0 8\naddi a1 x0 42");
    run(&mut env, &words);
    assert_eq!(env.get_register(10), 1);
    assert_eq!(env.get_register(11), 42);
}

#[test]
fn jal_skips_program() {
    let (mut env, words) = assemble("jal ra L\naddi a0 x0 1\nL: addi a1 x0 2");
    run(&mut env, &words);
    assert_eq!(env.get_register(10), 0);
    assert_eq!(env.get_register(11), 2);
    assert_eq!(env.get_register(1), 4);
}

#[test]
fn branch_taken_skips() {
    let (mut env, words) = assemble("beq x0 x0 8\naddi a0 x0 1\naddi a1 x0 2");
    run(&mut env, &words);
    assert_eq!(env.get_register(10), 0);
    assert_eq!(env.get_register(11), 2);
}

#[test]
fn li_small_is_one_addi() {
    let (_, words) = assemble("li a0 5");
    assert_eq!(words, vec![0b00000000010100000000010100010011]);
}

#[test]
fn li_page_is_one_lui() {
    let (_, words) = assemble("li a0 53248");
    // 53248 == 0xD000: a lui with the field 13.
    assert_eq!(words, vec![0b00000000000000001101010100110111]);
}

#[test]
fn li_split_pipeline() {
    let (_, words) = assemble("li a0 53289");
    assert_eq!(
        words,
        vec![
            0b00000000000000001101010100110111,
            0b00000010100101010000010100010011
        ]
    );
}

#[test]
fn li_negative_round_trips() {
    let (mut env, words) = assemble("li a0 -8");
    run(&mut env, &words);
    assert_eq!(env.get_register(10), (-8i32) as u32);
}

#[test]
fn x0_write_is_discarded() {
    let (mut env, words) = assemble("addi x0 x0 5");
    run(&mut env, &words);
    assert_eq!(env.get_register(0), 0);
}

#[test]
fn mul_div_program() {
    let (mut env, words) = assemble("li a0 6\nli a1 7\nmul a2 a0 a1\ndiv a3 a2 a1");
    run(&mut env, &words);
    assert_eq!(env.get_register(12), 42);
    assert_eq!(env.get_register(13), 6);
}

#[test]
fn div_by_zero_gives_minus_one() {
    let (mut env, words) = assemble("li a0 9\ndiv a2 a0 x0");
    run(&mut env, &words);
    assert_eq!(env.get_register(12), u32::MAX);
}

#[test]
fn div_signed_truncates() {
    let (mut env, words) = assemble("li a0 -9\nli a1 2\ndiv a2 a0 a1");
    run(&mut env, &words);
    assert_eq!(env.get_register(12), (-4i32) as u32);
}

#[test]
fn fmv_moves_bits() {
    let (mut env, words) = assemble("li a0 1078530011\nfmv.w.x fa0 a0");
    run(&mut env, &words);
    assert_eq!(env.get_fregister(10), 1078530011);
}

#[test]
fn fadd_is_handed_to_the_float_unit() {
    let mut env = Env::new();
    env.set_fregister(11, 2.5f32.to_bits());
    env.set_fregister(12, 0.25f32.to_bits());
    let (_, words) = assemble("fadd.s fa0 fa1 fa2");
    match run_instruction(&mut env, words[0]).unwrap() {
        StepOutcome::Float(req) => {
            assert!(matches!(req.op, FloatFn::FaddS));
            assert_eq!(req.fd, 10);
            assert_eq!(req.a, 2.5f32.to_bits());
            assert_eq!(req.b, 0.25f32.to_bits());
            let result = (f32::from_bits(req.a) + f32::from_bits(req.b)).to_bits();
            env.set_fregister(req.fd, result);
        }
        _ => panic!("expected a float request"),
    }
    assert_eq!(f32::from_bits(env.get_fregister(10)), 2.75);
}

#[test]
fn unknown_encoding_is_fatal() {
    let mut env = Env::new();
    assert!(matches!(
        run_instruction(&mut env, 0),
        Err(RuntimeErr::UnknownEncoding)
    ));
}

#[test]
fn decode_add_word() {
    let (kind, name) = Kind::to_op(0b00000000101101010000010100110011).unwrap();
    assert_eq!(name, "add");
    assert_eq!(kind.get_opcode(), Some(0b0110011));
    assert_eq!(kind.get_regs().unwrap(), vec![10, 10, 11, 0]);
    assert_eq!(kind.get_imm(), None);
}

#[test]
fn decode_branch_word() {
    // beq a0, a1, 4
    let (kind, name) = Kind::to_op(0b00000000101101010000001001100011).unwrap();
    assert_eq!(name, "beq");
    assert_eq!(kind.get_imm(), Some(4));
    assert_eq!(kind.get_regs().unwrap(), vec![0, 10, 11, 0]);
}

#[test]
fn register_names_resolve() {
    let env = Env::new();
    assert_eq!(env.str_to_register("x0"), Some(0));
    assert_eq!(env.str_to_register("x31"), Some(31));
    assert_eq!(env.str_to_register("x32"), None);
    assert_eq!(env.str_to_register("x01"), None);
    assert_eq!(env.str_to_register("zero"), Some(0));
    assert_eq!(env.str_to_register("fp"), Some(8));
    assert_eq!(env.str_to_register("s0"), Some(8));
    assert_eq!(env.str_to_register("t6"), Some(31));
    assert_eq!(env.str_to_register("nonsense"), None);
    assert_eq!(env.str_to_fregister("f0"), Some(0));
    assert_eq!(env.str_to_fregister("f3"), Some(3));
    assert_eq!(env.str_to_fregister("f31"), Some(31));
    assert_eq!(env.str_to_fregister("f32"), None);
    assert_eq!(env.str_to_fregister("f03"), None);
    assert_eq!(env.str_to_fregister("fa3"), Some(13));
    assert_eq!(env.str_to_fregister("fs0"), Some(8));
    assert_eq!(env.str_to_fregister("ft11"), Some(31));
    assert_eq!(env.str_to_register("fa3"), Some(13));
    assert_eq!(env.str_to_fregister("a3"), Some(13));
}

#[test]
fn labels_store_and_overwrite() {
    let mut env = Env::new();
    assert_eq!(env.get_label("loop"), None);
    env.add_label("loop", 8);
    assert_eq!(env.get_label("loop"), Some(8));
    env.add_label("loop", 16);
    assert_eq!(env.get_label("loop"), Some(16));
}

#[test]
fn parse_rejects_stray_character() {
    let env = Env::new();
    let errs = parse(&env, "add $ a0").unwrap_err();
    assert_eq!(errs.len(), 1);
    assert!(matches!(errs[0].0, SyntaxErr::UnexpectedChar));
    assert_eq!(errs[0].1.line, 1);
    assert_eq!(errs[0].1.start, 4);
}

#[test]
fn parse_rejects_unmatched_parens() {
    let env = Env::new();
    let errs = parse(&env, "sb t5 4(sp").unwrap_err();
    assert!(matches!(errs[0].0, SyntaxErr::UnmatchedParen(false)));
    let errs = parse(&env, "sb t5 )").unwrap_err();
    assert!(matches!(errs[0].0, SyntaxErr::UnmatchedParen(true)));
}

#[test]
fn parse_rejects_leading_operand() {
    let env = Env::new();
    let errs = parse(&env, "5 5").unwrap_err();
    match &errs[0].0 {
        SyntaxErr::OutsideMnemonic(kind) => assert_eq!(kind.as_str(), "immediate"),
        other => panic!("wrong error: {:?}", other),
    }
    let errs = parse(&env, "a0 a1").unwrap_err();
    match &errs[0].0 {
        SyntaxErr::OutsideMnemonic(kind) => assert_eq!(kind.as_str(), "register"),
        other => panic!("wrong error: {:?}", other),
    }
}

#[test]
fn parse_rejects_bad_memory_register() {
    let env = Env::new();
    let errs = parse(&env, "sb t5 4(qq)").unwrap_err();
    assert!(matches!(errs[0].0, SyntaxErr::InvalidRegister));
}

#[test]
fn parse_accepts_bases_and_comments() {
    let (mut env, words) = assemble("# a comment line\nli a0 0x10\nli a1 0b101\nli a2 0o17");
    run(&mut env, &words);
    assert_eq!(env.get_register(10), 16);
    assert_eq!(env.get_register(11), 5);
    assert_eq!(env.get_register(12), 15);
}

#[test]
fn assemble_rejects_unknown_mnemonic() {
    let mut env = Env::new();
    let toks = parse(&env, "frobnicate a0").unwrap();
    let toks = env.handle_mem_offsets(toks);
    let mut it = toks.into_iter();
    let err = env.assemble_op(it.next().unwrap()).unwrap_err();
    assert!(matches!(err.0, RuntimeErr::InvalidMnemonic));
    assert_eq!(err.2.as_deref(), Some("no implementation exists"));
    assert_eq!(err.0.message(), "invalid mnemonic");
}

#[test]
fn assemble_rejects_wrong_arity() {
    let mut env = Env::new();
    let toks = parse(&env, "add a0 a0").unwrap();
    let toks = env.handle_mem_offsets(toks);
    let mut it = toks.into_iter();
    let err = env.assemble_op(it.next().unwrap()).unwrap_err();
    match &err.0 {
        RuntimeErr::InvalidOpArity(op, actual, expected) => {
            assert_eq!(op.as_str(), "add");
            assert_eq!(*actual, 2);
            assert_eq!(*expected, 3);
        }
        other => panic!("wrong error: {:?}", other),
    }
    assert_eq!(err.0.message(), "expected 3 args, got 2");
    assert_eq!(err.0.note(), "add the extra 'register' argument");
}

#[test]
fn assemble_rejects_wrong_argument_kind() {
    let mut env = Env::new();
    let toks = parse(&env, "add a0 a0 5").unwrap();
    let toks = env.handle_mem_offsets(toks);
    let mut it = toks.into_iter();
    let err = env.assemble_op(it.next().unwrap()).unwrap_err();
    match &err.0 {
        RuntimeErr::TypeMismatch(actual, expected) => {
            assert_eq!(actual.as_str(), "immediate");
            assert_eq!(expected.as_str(), "register");
        }
        other => panic!("wrong error: {:?}", other),
    }
    assert_eq!(err.0.message(), "expected 'register', got 'immediate'");
}

#[test]
fn assemble_rejects_missing_label() {
    let mut env = Env::new();
    let toks = parse(&env, "beqz a0 nowhere").unwrap();
    let toks = env.handle_mem_offsets(toks);
    let mut it = toks.into_iter();
    let err = env.assemble_op(it.next().unwrap()).unwrap_err();
    assert!(matches!(err.0, RuntimeErr::LabelNotFound));
    assert_eq!(err.0.note(), "ensure the label is spelled correctly");
}

#[test]
fn pipeline_is_deterministic() {
    let src = "start: li a0 53289\nbeqz a0 start\nj start";
    let (_, w1) = assemble(src);
    let (_, w2) = assemble(src);
    assert_eq!(w1, w2);
}

#[test]
fn syntax_error_text() {
    assert_eq!(SyntaxErr::UnexpectedChar.message(), "unexpected character");
    assert_eq!(
        SyntaxErr::UnmatchedParen(false).note(),
        "add `)` after the register"
    );
    assert_eq!(
        SyntaxErr::OutsideMnemonic(String::from("register")).message(),
        "unexpected 'register'"
    );
}

#[test]
fn info_add_message_and_tags() {
    let env = Env::new();
    let (msg, (itags, ftags)) = info(
        &env,
        "add",
        vec![String::from("a2"), String::from("a0"), String::from("a1")],
        's',
    );
    assert_eq!(
        msg,
        "add the values of a0 and a1 and store the result in a2\na2 \u{2190} a0 + a1"
    );
    assert_eq!(itags, vec![10, 11]);
    assert!(ftags.is_empty());
}

#[test]
fn info_li_formats_by_mode() {
    let env = Env::new();
    let (msg, _) = info(
        &env,
        "li",
        vec![String::from("a0"), String::from("5")],
        's',
    );
    assert_eq!(msg, "load 5 into a0");
    let (msg, _) = info(
        &env,
        "li",
        vec![String::from("a0"), String::from("5")],
        'b',
    );
    assert_eq!(msg, "load 00000000000000000000000000000101 into a0");
    let (msg, _) = info(
        &env,
        "li",
        vec![String::from("a0"), String::from("5")],
        'h',
    );
    assert_eq!(msg, "load 00000005 into a0");
}

#[test]
fn info_falls_back_for_unknown_mnemonics() {
    let env = Env::new();
    let (msg, (itags, ftags)) = info(&env, "xor", vec![], 's');
    assert_eq!(msg, "execute `xor`");
    assert!(itags.is_empty());
    assert!(ftags.is_empty());
}

#[test]
fn mem_offsets_and_labels() {
    let mut env = Env::new();
    let toks = parse(&env, "addi a0 x0 1\nmid: li a1 53289\nend: nop").unwrap();
    let _ = env.handle_mem_offsets(toks);
    assert_eq!(env.get_label("mid"), Some(4));
    // The first pass counts `li` by its zero-operand expansion: one word.
    assert_eq!(env.get_label("end"), Some(8));
}

#[test]
fn hex_rendering() {
    assert_eq!(rizz_v::text::hex8(0x1234abcd), "1234abcd");
    assert_eq!(rizz_v::text::hex8(0x13), "00000013");
}

#[test]
fn pseudo_branches_and_jump() {
    // beqz and j expand to beq and jal; the branch back is not taken, the
    // jump lands on the final addi.
    let (mut env, words) =
        assemble("start: addi a0 x0 1\nbeqz a0 start\nj done\naddi a1 x0 9\ndone: addi a2 x0 3");
    run(&mut env, &words);
    assert_eq!(env.get_register(10), 1);
    assert_eq!(env.get_register(11), 0);
    assert_eq!(env.get_register(12), 3);
}

#[test]
fn bnez_taken() {
    let (mut env, words) = assemble("addi a0 x0 1\nbnez a0 skip\naddi a1 x0 9\nskip: nop");
    run(&mut env, &words);
    assert_eq!(env.get_register(11), 0);
}

#[test]
fn xor_and_high_multiplies_execute() {
    let mut env = Env::new();
    env.set_register(10, 0xf0f0_1234);
    env.set_register(11, 0x0ff0_4321);
    // xor a2, a0, a1
    let xor_word = 0b0000000_01011_01010_100_01100_0110011;
    assert!(matches!(
        run_instruction(&mut env, xor_word),
        Ok(StepOutcome::Ran(false))
    ));
    assert_eq!(env.get_register(12), 0xf0f0_1234 ^ 0x0ff0_4321);

    env.set_register(10, (-3i32) as u32);
    env.set_register(11, 5);
    // mulh a2, a0, a1: the high word of -15 is all ones.
    let mulh_word = 0b0000001_01011_01010_001_01100_0110011;
    run_instruction(&mut env, mulh_word).unwrap();
    assert_eq!(env.get_register(12), u32::MAX);

    // mulhu a2, a0, a1: high word of the unsigned product.
    env.set_register(10, 0x8000_0000);
    env.set_register(11, 4);
    let mulhu_word = 0b0000001_01011_01010_011_01100_0110011;
    run_instruction(&mut env, mulhu_word).unwrap();
    assert_eq!(env.get_register(12), 2);
}

#[test]
fn encode_decode_round_trip_words() {
    let env = Env::new();
    let a0 = env.str_to_register("a0").unwrap();
    let a1 = env.str_to_register("a1").unwrap();
    let word = with(get_instruction("add"), 0, vec![a0, a0, a1]).0.to_u32();
    let (kind, name) = Kind::to_op(word).unwrap();
    assert_eq!(name, "add");
    assert_eq!(kind.to_u32(), word);
    assert_eq!(kind.get_regs().unwrap(), vec![10, 10, 11, 0]);

    let word = with(get_instruction("jal"), 0x0007fe, vec![1]).0.to_u32();
    let (kind, name) = Kind::to_op(word).unwrap();
    assert_eq!(name, "jal");
    assert_eq!(kind.get_imm(), Some(0x0007fe));
}

#[test]
fn parse_rejects_bad_literal_boundary() {
    let env = Env::new();
    // A digit string followed by a letter is not a literal.
    let errs = parse(&env, "li a0 0x1g").unwrap_err();
    assert!(matches!(errs[0].0, SyntaxErr::UnexpectedChar));
    // An empty or overflowing literal fails at the same spot.
    let errs = parse(&env, "li a0 4294967296").unwrap_err();
    assert!(matches!(errs[0].0, SyntaxErr::UnexpectedChar));
}

#[test]
fn arity_note_for_extra_argument() {
    let mut env = Env::new();
    let toks = parse(&env, "nop 5").unwrap();
    let toks = env.handle_mem_offsets(toks);
    let mut it = toks.into_iter();
    let err = env.assemble_op(it.next().unwrap()).unwrap_err();
    match &err.0 {
        RuntimeErr::InvalidOpArity(_, actual, expected) => {
            assert_eq!(*actual, 1);
            assert_eq!(*expected, 0);
        }
        other => panic!("wrong error: {:?}", other),
    }
    assert_eq!(err.0.note(), "remove the extra argument");
}

#[test]
fn memory_operand_assembles() {
    let (_, words) = assemble("sb t5 -4(sp)");
    assert_eq!(words, vec![0b11111111111000010000111000100011]);
}

#[test]
fn info_lui_bit_breakdown() {
    let env = Env::new();
    let (msg, _) = info(
        &env,
        "lui",
        vec![String::from("a0"), String::from("13609")],
        's',
    );
    assert_eq!(
        msg,
        "load the upper 20 bits of 13609 into a0\n13609 = 11000000000000000000100101001010\n   a0 \u{2190} 11000000000000000000 << 12"
    );
}

#[test]
fn parse_handles_crlf_and_blank_lines() {
    let env = Env::new();
    let toks = parse(&env, "li a0 1\r\n\r\nli a1 2\n").unwrap();
    assert_eq!(toks.len(), 2);
    assert!(matches!(toks[0].0, Token::Mnemonic(..)));
    assert_eq!(toks[1].1.line, 3);
}

#[test]
fn labels_may_be_used_before_definition() {
    let (mut env, words) = assemble("j end\naddi a0 x0 1\nend: addi a1 x0 2");
    run(&mut env, &words);
    assert_eq!(env.get_register(10), 0);
    assert_eq!(env.get_register(11), 2);
}

#[test]
fn backward_branch_offset_wraps() {
    // A label behind the mnemonic gives a negative, wrapping offset.
    let mut env = Env::new();
    let toks = parse(&env, "top: nop\nj top").unwrap();
    let toks = env.handle_mem_offsets(toks);
    let mut words = Vec::new();
    for t in toks {
        if matches!(t.0, Token::Mnemonic(..)) {
            words.extend(env.assemble_op(t).unwrap());
        }
    }
    // The jal at byte 4 targets byte 0: offset -4.
    let (kind, name) = Kind::to_op(words[1]).unwrap();
    assert_eq!(name, "jal");
    assert_eq!(kind.get_imm(), Some((-4i32 as u32) & 0x001f_fffe));
}

#[test]
fn backward_branch_loops() {
    // bne branches backward until a1 reaches 3; offsets behind the
    // instruction are sign-extended at execution.
    let (mut env, words) =
        assemble("li a2 3\nloop: addi a0 a0 1\naddi a1 a1 1\nbne a1 a2 loop");
    run(&mut env, &words);
    assert_eq!(env.get_register(10), 3);
    assert_eq!(env.get_register(11), 3);
}

#[test]
fn backward_jump_executes() {
    // A jump with its label behind it goes backward; control bounces to
    // `back`, runs the addi, and leaves through `end`.
    let (mut env, words) = assemble("j fwd\nback: addi a0 x0 7\nj end\nfwd: j back\nend: nop");
    run(&mut env, &words);
    assert_eq!(env.get_register(10), 7);
}

#[test]
fn negative_literal_needs_a_boundary() {
    let env = Env::new();
    let errs = parse(&env, "li a0 -5x").unwrap_err();
    assert!(matches!(errs[0].0, SyntaxErr::UnexpectedChar));
    assert_eq!(errs[0].1.start, 8);
    // A negative memory offset still parses.
    assert!(parse(&env, "sb t5 -4(sp)").is_ok());
}

#[test]
fn info_addi_highlights_the_register_read() {
    let env = Env::new();
    let (_, (itags, ftags)) = info(
        &env,
        "addi",
        vec![String::from("a0"), String::from("x0"), String::from("5")],
        's',
    );
    assert_eq!(itags, vec![0]);
    assert!(ftags.is_empty());
}

#[test]
fn info_mul_highlights_integer_registers() {
    let env = Env::new();
    let (_, (itags, ftags)) = info(
        &env,
        "mul",
        vec![String::from("a2"), String::from("a0"), String::from("a1")],
        's',
    );
    assert_eq!(itags, vec![10, 11]);
    assert!(ftags.is_empty());
}

#[test]
fn info_branch_message_and_tags() {
    let env = Env::new();
    let (msg, (itags, ftags)) = info(
        &env,
        "beq",
        vec![String::from("a0"), String::from("a1"), String::from("8")],
        's',
    );
    assert_eq!(
        msg,
        "branch by 8 if a0 and a1 are equal\npc \u{2190} pc + 8 if a0 == a1"
    );
    assert_eq!(itags, vec![10, 11]);
    assert!(ftags.is_empty());
    let (msg, _) = info(
        &env,
        "bne",
        vec![String::from("a0"), String::from("a1"), String::from("8")],
        's',
    );
    assert_eq!(
        msg,
        "branch by 8 if a0 and a1 differ\npc \u{2190} pc + 8 if a0 != a1"
    );
}

#[test]
fn info_fadd_highlights_float_registers() {
    let env = Env::new();
    let (_, (itags, ftags)) = info(
        &env,
        "fadd.s",
        vec![String::from("fa0"), String::from("fa1"), String::from("fa2")],
        's',
    );
    assert!(itags.is_empty());
    assert_eq!(ftags, vec![11, 12]);
}
