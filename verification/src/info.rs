//! The explainer: a short, human-readable description of an instruction and
//! the registers it reads.
//!
//! The message is plain text; any coloring is the display layer's business.

use vstd::prelude::*;

use crate::env::{freg_index_spec, reg_index_spec, resolve_register_name, Env};
use crate::text::{
    bin32, bin32_spec, chars_to_string, dec_spec, dec_u64, digits_val, digits_val_spec, hex8,
    hex8_spec, neg_u32_spec, sdec_spec, sdec_u32, str_chars, str_eq,
};

verus! {

broadcast use vstd::string::group_string_axioms;

/// An argument rendered in the user-selected base: a decimal literal is
/// reformatted per the display mode ('d' decimal, 's' signed, 'b' binary,
/// 'h' hexadecimal); anything else is shown as written.
pub open spec fn fmt_arg(a: Seq<char>, mode: char) -> Seq<char> {
    match digits_val_spec(a, 10) {
        Some(v) => if mode == 'd' {
            dec_spec(v as nat)
        } else if mode == 's' {
            sdec_spec(v)
        } else if mode == 'b' {
            bin32_spec(v)
        } else {
            hex8_spec(v)
        },
        None => a,
    }
}

/// The 32-bit pattern a signed decimal literal denotes, if it fits.
pub open spec fn i32_literal_val(s: Seq<char>) -> Option<u32> {
    if s.len() > 0 && s[0] == '-' {
        match digits_val_spec(s.skip(1), 10) {
            Some(d) => if d <= 0x8000_0000 {
                Some(neg_u32_spec(d))
            } else {
                None
            },
            None => None,
        }
    } else {
        match digits_val_spec(s, 10) {
            Some(d) => if d <= 0x7fff_ffff {
                Some(d)
            } else {
                None
            },
            None => None,
        }
    }
}

/// `n` spaces.
pub open spec fn spaces(n: int) -> Seq<char>
    decreases n,
{
    if n <= 0 {
        Seq::empty()
    } else {
        spaces(n - 1).push(' ')
    }
}

/// `s` right-aligned in a field of width `w`.
pub open spec fn pad_left(s: Seq<char>, w: int) -> Seq<char> {
    if s.len() >= w {
        s
    } else {
        spaces(w - s.len()) + s
    }
}

/// What `info` asks of its arguments, mnemonic by mnemonic: enough of them,
/// and names that resolve where a register is highlighted.
pub open spec fn info_args_ok(op: Seq<char>, args: Seq<String>, mode: char) -> bool {
    &&& (mode == 'd' || mode == 's' || mode == 'b' || mode == 'h')
    &&& (op == "li"@ ==> args.len() >= 2)
    &&& (op == "lui"@ ==> args.len() >= 2 && i32_literal_val(fmt_arg(args[1]@, mode)) is Some)
    &&& ((op == "add"@ || op == "mul"@) ==> args.len() >= 3 && reg_index_spec(
        fmt_arg(args[1]@, mode),
    ) is Some && reg_index_spec(fmt_arg(args[2]@, mode)) is Some)
    &&& (op == "addi"@ ==> args.len() >= 3 && reg_index_spec(fmt_arg(args[1]@, mode)) is Some)
    &&& (op == "sub"@ ==> args.len() >= 3)
    &&& ((op == "fadd.s"@ || op == "fdiv.s"@) ==> args.len() >= 3 && freg_index_spec(
        fmt_arg(args[1]@, mode),
    ) is Some && freg_index_spec(fmt_arg(args[2]@, mode)) is Some)
    &&& ((op == "beq"@ || op == "bne"@) ==> args.len() >= 3 && reg_index_spec(
        fmt_arg(args[0]@, mode),
    ) is Some && reg_index_spec(fmt_arg(args[1]@, mode)) is Some)
    &&& ((op == "fcvt.s.w"@ || op == "fmv.w.x"@) ==> args.len() >= 2 && reg_index_spec(
        fmt_arg(args[1]@, mode),
    ) is Some)
}

/// The explainer's message for a mnemonic, over the reformatted arguments.
pub open spec fn info_msg_spec(op: Seq<char>, args: Seq<String>, mode: char) -> Seq<char> {
    let a0 = if args.len() > 0 {
        fmt_arg(args[0]@, mode)
    } else {
        Seq::empty()
    };
    let a1 = if args.len() > 1 {
        fmt_arg(args[1]@, mode)
    } else {
        Seq::empty()
    };
    let a2 = if args.len() > 2 {
        fmt_arg(args[2]@, mode)
    } else {
        Seq::empty()
    };
    if op == "nop"@ {
        "do nothing"@
    } else if op == "li"@ {
        "load "@ + a1 + " into "@ + a0
    } else if op == "lui"@ {
        let bits = bin32_spec(i32_literal_val(a1).unwrap()).reverse();
        "load the upper 20 bits of "@ + a1 + " into "@ + a0 + "\n"@ + a1 + " = "@ + bits.subrange(
            12,
            32,
        ) + bits.subrange(0, 12) + "\n"@ + pad_left(a0, a1.len() as int) + " \u{2190} "@
            + bits.subrange(12, 32) + " << 12"@
    } else if op == "add"@ {
        "add the values of "@ + a1 + " and "@ + a2 + " and store the result in "@ + a0 + "\n"@ + a0
            + " \u{2190} "@ + a1 + " + "@ + a2
    } else if op == "addi"@ {
        "add the values of "@ + a2 + " and "@ + a1 + " and store the result in "@ + a0 + "\n"@ + a0
            + " \u{2190} "@ + a2 + " + "@ + a1
    } else if op == "sub"@ {
        "subtract the value of "@ + a1 + " from the value of "@ + a2 + " and store the result in "@
            + a0
    } else if op == "mul"@ {
        "multiply the values of "@ + a1 + " and "@ + a2 + " and store the result in "@ + a0 + "\n"@
            + a0 + " \u{2190} "@ + a1 + " \u{2715} "@ + a2
    } else if op == "fadd.s"@ {
        "add the values of "@ + a1 + " and "@ + a2 + " and store the result in "@ + a0 + "\n"@ + a0
            + " \u{2190} "@ + a1 + " + "@ + a2
    } else if op == "fdiv.s"@ {
        "divide the value of "@ + a1 + " by the value of "@ + a2 + " and store the result in "@
            + a0 + "\n"@ + a0 + " \u{2190} "@ + a1 + " \u{00f7} "@ + a2
    } else if op == "fcvt.s.w"@ {
        "convert the value of "@ + a1 + " to a float and store it in "@ + a0
    } else if op == "fmv.w.x"@ {
        "interpret the value of "@ + a1 + " as a float and store it in "@ + a0 + "\n"@ + a0
            + " \u{2190} "@ + a1
    } else if op == "beq"@ {
        "branch by "@ + a2 + " if "@ + a0 + " and "@ + a1 + " are equal\n"@
            + "pc \u{2190} pc + "@ + a2 + " if "@ + a0 + " == "@ + a1
    } else if op == "bne"@ {
        "branch by "@ + a2 + " if "@ + a0 + " and "@ + a1 + " differ\n"@ + "pc \u{2190} pc + "@
            + a2 + " if "@ + a0 + " != "@ + a1
    } else {
        "execute `"@ + op + "`"@
    }
}

/// The registers the instruction reads, to be highlighted: integer indices,
/// then float indices.
pub open spec fn info_tag_spec(op: Seq<char>, args: Seq<String>, mode: char) -> (
    Seq<usize>,
    Seq<usize>,
) {
    let a0 = if args.len() > 0 {
        fmt_arg(args[0]@, mode)
    } else {
        Seq::empty()
    };
    let a1 = if args.len() > 1 {
        fmt_arg(args[1]@, mode)
    } else {
        Seq::empty()
    };
    let a2 = if args.len() > 2 {
        fmt_arg(args[2]@, mode)
    } else {
        Seq::empty()
    };
    if op == "add"@ || op == "mul"@ {
        (seq![reg_index_spec(a1).unwrap(), reg_index_spec(a2).unwrap()], Seq::empty())
    } else if op == "addi"@ {
        (seq![reg_index_spec(a1).unwrap()], Seq::empty())
    } else if op == "fadd.s"@ || op == "fdiv.s"@ {
        (Seq::empty(), seq![freg_index_spec(a1).unwrap(), freg_index_spec(a2).unwrap()])
    } else if op == "beq"@ || op == "bne"@ {
        (seq![reg_index_spec(a0).unwrap(), reg_index_spec(a1).unwrap()], Seq::empty())
    } else if op == "fcvt.s.w"@ || op == "fmv.w.x"@ {
        (seq![reg_index_spec(a1).unwrap()], Seq::empty())
    } else {
        (Seq::empty(), Seq::empty())
    }
}

/// The character sequences of the mnemonics the explainer knows.
proof fn lemma_info_literals()
    ensures
        "nop"@ == seq!['n', 'o', 'p'],
        "li"@ == seq!['l', 'i'],
        "lui"@ == seq!['l', 'u', 'i'],
        "add"@ == seq!['a', 'd', 'd'],
        "addi"@ == seq!['a', 'd', 'd', 'i'],
        "sub"@ == seq!['s', 'u', 'b'],
        "mul"@ == seq!['m', 'u', 'l'],
        "fadd.s"@ == seq!['f', 'a', 'd', 'd', '.', 's'],
        "fdiv.s"@ == seq!['f', 'd', 'i', 'v', '.', 's'],
        "fcvt.s.w"@ == seq!['f', 'c', 'v', 't', '.', 's', '.', 'w'],
        "fmv.w.x"@ == seq!['f', 'm', 'v', '.', 'w', '.', 'x'],
        "beq"@ == seq!['b', 'e', 'q'],
        "bne"@ == seq!['b', 'n', 'e'],
{
    reveal_strlit("nop");
    assert("nop"@ =~= seq!['n', 'o', 'p']);
    reveal_strlit("li");
    assert("li"@ =~= seq!['l', 'i']);
    reveal_strlit("lui");
    assert("lui"@ =~= seq!['l', 'u', 'i']);
    reveal_strlit("add");
    assert("add"@ =~= seq!['a', 'd', 'd']);
    reveal_strlit("addi");
    assert("addi"@ =~= seq!['a', 'd', 'd', 'i']);
    reveal_strlit("sub");
    assert("sub"@ =~= seq!['s', 'u', 'b']);
    reveal_strlit("mul");
    assert("mul"@ =~= seq!['m', 'u', 'l']);
    reveal_strlit("fadd.s");
    assert("fadd.s"@ =~= seq!['f', 'a', 'd', 'd', '.', 's']);
    reveal_strlit("fdiv.s");
    assert("fdiv.s"@ =~= seq!['f', 'd', 'i', 'v', '.', 's']);
    reveal_strlit("fcvt.s.w");
    assert("fcvt.s.w"@ =~= seq!['f', 'c', 'v', 't', '.', 's', '.', 'w']);
    reveal_strlit("fmv.w.x");
    assert("fmv.w.x"@ =~= seq!['f', 'm', 'v', '.', 'w', '.', 'x']);
    reveal_strlit("beq");
    assert("beq"@ =~= seq!['b', 'e', 'q']);
    reveal_strlit("bne");
    assert("bne"@ =~= seq!['b', 'n', 'e']);
}

/// Renders one argument in the display base.
fn fmt_arg_exec(a: &String, mode: char) -> (r: String)
    requires
        mode == 'd' || mode == 's' || mode == 'b' || mode == 'h',
    ensures
        r@ == fmt_arg(a@, mode),
{
    let chars = str_chars(a.as_str());
    match digits_val(&chars, 10) {
        Some(v) => {
            if mode == 'd' {
                dec_u64(v as u64)
            } else if mode == 's' {
                sdec_u32(v)
            } else if mode == 'b' {
                bin32(v)
            } else {
                hex8(v)
            }
        },
        None => {
            let mut s = String::new();
            s.append(a.as_str());
            s
        },
    }
}

/// Parses a signed decimal literal into its 32-bit pattern.
fn i32_literal_exec(s: &String) -> (r: Option<u32>)
    ensures
        r == i32_literal_val(s@),
{
    let chars = str_chars(s.as_str());
    if chars.len() > 0 && chars[0] == '-' {
        let tail = crate::text::subrange_vec(&chars, 1, chars.len());
        proof {
            assert(tail@ =~= s@.skip(1));
        }
        match digits_val(&tail, 10) {
            Some(d) => if d <= 0x8000_0000 {
                Some(crate::text::neg_u32(d))
            } else {
                None
            },
            None => None,
        }
    } else {
        match digits_val(&chars, 10) {
            Some(d) => if d <= 0x7fff_ffff {
                Some(d)
            } else {
                None
            },
            None => None,
        }
    }
}

/// The bits of `v`, least significant first, as binary digits.
fn rev_bits(v: u32) -> (r: Vec<char>)
    ensures
        r@ == bin32_spec(v).reverse(),
{
    let mut r: Vec<char> = Vec::new();
    let mut i: usize = 0;
    while i < 32
        invariant
            i <= 32,
            r@.len() == i,
            forall|j: int| 0 <= j < i ==> r@[j] == bin32_spec(v)[31 - j],
        decreases 32 - i,
    {
        let bit = (v >> i as u32) & 1;
        proof {
            let sh: u32 = i as u32;
            assert((v >> sh) & 1 < 2) by (bit_vector);
            assert((v >> sh) & 1 == (v >> (31 - (31 - sh))) & 1);
        }
        if bit == 1 {
            r.push('1');
        } else {
            r.push('0');
        }
        proof {
            assert(bin32_spec(v)[31 - (i as int)] == crate::text::digit_char(
                ((v >> (31 - (31 - i as int)) as u32) & 1) as int,
            ));
        }
        i += 1;
    }
    proof {
        assert(r@ =~= bin32_spec(v).reverse());
    }
    r
}

/// Pads `s` on the left with spaces to width `w`.
fn pad_left_exec(s: &String, w: usize) -> (r: String)
    ensures
        r@ == pad_left(s@, w as int),
{
    let n = s.as_str().unicode_len();
    if n >= w {
        let mut r = String::new();
        r.append(s.as_str());
        return r;
    }
    let mut r = String::new();
    let mut i: usize = 0;
    while i < w - n
        invariant
            n == s@.len(),
            n < w,
            i <= w - n,
            r@ =~= spaces(i as int),
        decreases w - n - i,
    {
        r.append(" ");
        proof {
            reveal_strlit(" ");
            assert(" "@ =~= seq![' ']);
            assert(r@ =~= spaces(i + 1));
        }
        i += 1;
    }
    r.append(s.as_str());
    proof {
        assert(r@ =~= pad_left(s@, w as int));
    }
    r
}

/// Displays a helpful message about an instruction.
///
/// Returns the message and the registers to highlight as read by the
/// instruction: integer register indices, then float register indices.
/// A mnemonic without a bespoke description gets the generic fallback.
pub fn info(env: &Env, op: &str, args: Vec<String>, display_mode: char) -> (r: (
    String,
    (Vec<usize>, Vec<usize>),
))
    requires
        info_args_ok(op@, args@, display_mode),
    ensures
        r.0@ == info_msg_spec(op@, args@, display_mode),
        r.1.0@ == info_tag_spec(op@, args@, display_mode).0,
        r.1.1@ == info_tag_spec(op@, args@, display_mode).1,
{
    proof {
        lemma_info_literals();
    }
    let mut itags: Vec<usize> = Vec::new();
    let mut ftags: Vec<usize> = Vec::new();
    let msg: String = if str_eq(op, "nop") {
        String::from_str("do nothing")
    } else if str_eq(op, "li") {
        let a0 = fmt_arg_exec(&args[0], display_mode);
        let a1 = fmt_arg_exec(&args[1], display_mode);
        let mut s = String::from_str("load ");
        s.append(a1.as_str());
        s.append(" into ");
        s.append(a0.as_str());
        s
    } else if str_eq(op, "lui") {
        let a0 = fmt_arg_exec(&args[0], display_mode);
        let a1 = fmt_arg_exec(&args[1], display_mode);
        let v = match i32_literal_exec(&a1) {
            Some(v) => v,
            None => vstd::pervasive::unreached(),
        };
        let bits = rev_bits(v);
        let upper = chars_to_string(&bits, 12, 32);
        let lower = chars_to_string(&bits, 0, 12);
        let pad = pad_left_exec(&a0, a1.as_str().unicode_len());
        let mut s = String::from_str("load the upper 20 bits of ");
        s.append(a1.as_str());
        s.append(" into ");
        s.append(a0.as_str());
        s.append("\n");
        s.append(a1.as_str());
        s.append(" = ");
        s.append(upper.as_str());
        s.append(lower.as_str());
        s.append("\n");
        s.append(pad.as_str());
        s.append(" \u{2190} ");
        s.append(upper.as_str());
        s.append(" << 12");
        s
    } else if str_eq(op, "add") || str_eq(op, "addi") {
        let a0 = fmt_arg_exec(&args[0], display_mode);
        let a1 = fmt_arg_exec(&args[1], display_mode);
        let a2 = fmt_arg_exec(&args[2], display_mode);
        let r1 = match resolve_register_name(a1.as_str()) {
            Some(n) => n,
            None => vstd::pervasive::unreached(),
        };
        itags.push(r1);
        if str_eq(op, "add") {
            let r2 = match resolve_register_name(a2.as_str()) {
                Some(n) => n,
                None => vstd::pervasive::unreached(),
            };
            itags.push(r2);
        }
        let (x, y) = if str_eq(op, "add") {
            (a1, a2)
        } else {
            (a2, a1)
        };
        let mut s = String::from_str("add the values of ");
        s.append(x.as_str());
        s.append(" and ");
        s.append(y.as_str());
        s.append(" and store the result in ");
        s.append(a0.as_str());
        s.append("\n");
        s.append(a0.as_str());
        s.append(" \u{2190} ");
        s.append(x.as_str());
        s.append(" + ");
        s.append(y.as_str());
        s
    } else if str_eq(op, "sub") {
        let a0 = fmt_arg_exec(&args[0], display_mode);
        let a1 = fmt_arg_exec(&args[1], display_mode);
        let a2 = fmt_arg_exec(&args[2], display_mode);
        let mut s = String::from_str("subtract the value of ");
        s.append(a1.as_str());
        s.append(" from the value of ");
        s.append(a2.as_str());
        s.append(" and store the result in ");
        s.append(a0.as_str());
        s
    } else if str_eq(op, "mul") {
        let a0 = fmt_arg_exec(&args[0], display_mode);
        let a1 = fmt_arg_exec(&args[1], display_mode);
        let a2 = fmt_arg_exec(&args[2], display_mode);
        let r1 = match resolve_register_name(a1.as_str()) {
            Some(n) => n,
            None => vstd::pervasive::unreached(),
        };
        let r2 = match resolve_register_name(a2.as_str()) {
            Some(n) => n,
            None => vstd::pervasive::unreached(),
        };
        itags.push(r1);
        itags.push(r2);
        let mut s = String::from_str("multiply the values of ");
        s.append(a1.as_str());
        s.append(" and ");
        s.append(a2.as_str());
        s.append(" and store the result in ");
        s.append(a0.as_str());
        s.append("\n");
        s.append(a0.as_str());
        s.append(" \u{2190} ");
        s.append(a1.as_str());
        s.append(" \u{2715} ");
        s.append(a2.as_str());
        s
    } else if str_eq(op, "fadd.s") || str_eq(op, "fdiv.s") {
        let a0 = fmt_arg_exec(&args[0], display_mode);
        let a1 = fmt_arg_exec(&args[1], display_mode);
        let a2 = fmt_arg_exec(&args[2], display_mode);
        let f1 = match env.str_to_fregister(a1.as_str()) {
            Some(n) => n,
            None => vstd::pervasive::unreached(),
        };
        let f2 = match env.str_to_fregister(a2.as_str()) {
            Some(n) => n,
            None => vstd::pervasive::unreached(),
        };
        ftags.push(f1);
        ftags.push(f2);
        if str_eq(op, "fadd.s") {
            let mut s = String::from_str("add the values of ");
            s.append(a1.as_str());
            s.append(" and ");
            s.append(a2.as_str());
            s.append(" and store the result in ");
            s.append(a0.as_str());
            s.append("\n");
            s.append(a0.as_str());
            s.append(" \u{2190} ");
            s.append(a1.as_str());
            s.append(" + ");
            s.append(a2.as_str());
            s
        } else {
            let mut s = String::from_str("divide the value of ");
            s.append(a1.as_str());
            s.append(" by the value of ");
            s.append(a2.as_str());
            s.append(" and store the result in ");
            s.append(a0.as_str());
            s.append("\n");
            s.append(a0.as_str());
            s.append(" \u{2190} ");
            s.append(a1.as_str());
            s.append(" \u{00f7} ");
            s.append(a2.as_str());
            s
        }
    } else if str_eq(op, "fcvt.s.w") || str_eq(op, "fmv.w.x") {
        let a0 = fmt_arg_exec(&args[0], display_mode);
        let a1 = fmt_arg_exec(&args[1], display_mode);
        let r1 = match resolve_register_name(a1.as_str()) {
            Some(n) => n,
            None => vstd::pervasive::unreached(),
        };
        itags.push(r1);
        if str_eq(op, "fcvt.s.w") {
            let mut s = String::from_str("convert the value of ");
            s.append(a1.as_str());
            s.append(" to a float and store it in ");
            s.append(a0.as_str());
            s
        } else {
            let mut s = String::from_str("interpret the value of ");
            s.append(a1.as_str());
            s.append(" as a float and store it in ");
            s.append(a0.as_str());
            s.append("\n");
            s.append(a0.as_str());
            s.append(" \u{2190} ");
            s.append(a1.as_str());
            s
        }
    } else if str_eq(op, "beq") || str_eq(op, "bne") {
        let a0 = fmt_arg_exec(&args[0], display_mode);
        let a1 = fmt_arg_exec(&args[1], display_mode);
        let a2 = fmt_arg_exec(&args[2], display_mode);
        let r0 = match resolve_register_name(a0.as_str()) {
            Some(n) => n,
            None => vstd::pervasive::unreached(),
        };
        let r1 = match resolve_register_name(a1.as_str()) {
            Some(n) => n,
            None => vstd::pervasive::unreached(),
        };
        itags.push(r0);
        itags.push(r1);
        let is_beq = str_eq(op, "beq");
        let mut s = String::from_str("branch by ");
        s.append(a2.as_str());
        s.append(" if ");
        s.append(a0.as_str());
        s.append(" and ");
        s.append(a1.as_str());
        if is_beq {
            s.append(" are equal\n");
        } else {
            s.append(" differ\n");
        }
        s.append("pc \u{2190} pc + ");
        s.append(a2.as_str());
        s.append(" if ");
        s.append(a0.as_str());
        if is_beq {
            s.append(" == ");
        } else {
            s.append(" != ");
        }
        s.append(a1.as_str());
        s
    } else {
        let mut s = String::from_str("execute `");
        s.append(op);
        s.append("`");
        s
    };
    proof {
        assert(itags@ =~= info_tag_spec(op@, args@, display_mode).0);
        assert(ftags@ =~= info_tag_spec(op@, args@, display_mode).1);
    }
    (msg, (itags, ftags))
}

} // verus!
