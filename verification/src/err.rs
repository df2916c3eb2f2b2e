//! Error taxonomy: syntax errors produced by the parser, and runtime errors
//! produced by the assembler and the executor. Each error renders a short
//! message and a remedial note for the diagnostics layer.

use vstd::prelude::*;

use crate::instructions::{instruction, instruction_spec, Arg};

verus! {

/// An error found while tokenizing or grouping a source line.
#[derive(Debug)]
pub enum SyntaxErr {
    UnexpectedChar,
    /// `false` for a missing `)`, `true` for a stray `)`.
    UnmatchedParen(bool),
    /// A line starts with something that is not a mnemonic; carries the
    /// kind name of the offending token.
    OutsideMnemonic(String),
    InvalidRegister,
    InvalidType,
    InvalidVarName,
    MalformedData,
}

/// The mathematical form of a syntax error.
pub enum SyntaxErrV {
    UnexpectedChar,
    UnmatchedParen(bool),
    OutsideMnemonic(Seq<char>),
    InvalidRegister,
    InvalidType,
    InvalidVarName,
    MalformedData,
}

impl SyntaxErr {
    pub open spec fn view(self) -> SyntaxErrV {
        match self {
            SyntaxErr::UnexpectedChar => SyntaxErrV::UnexpectedChar,
            SyntaxErr::UnmatchedParen(c) => SyntaxErrV::UnmatchedParen(c),
            SyntaxErr::OutsideMnemonic(k) => SyntaxErrV::OutsideMnemonic(k@),
            SyntaxErr::InvalidRegister => SyntaxErrV::InvalidRegister,
            SyntaxErr::InvalidType => SyntaxErrV::InvalidType,
            SyntaxErr::InvalidVarName => SyntaxErrV::InvalidVarName,
            SyntaxErr::MalformedData => SyntaxErrV::MalformedData,
        }
    }

    /// The short message shown above the source caret.
    pub open spec fn message_spec(self) -> Seq<char> {
        match self.view() {
            SyntaxErrV::UnexpectedChar => "unexpected character"@,
            SyntaxErrV::UnmatchedParen(_) => "unmatched parenthesis"@,
            SyntaxErrV::OutsideMnemonic(kind) => "unexpected '"@ + kind + "'"@,
            SyntaxErrV::InvalidRegister => "invalid register"@,
            SyntaxErrV::InvalidType => "invalid type"@,
            SyntaxErrV::InvalidVarName => "invalid variable name"@,
            SyntaxErrV::MalformedData => "malformed global definition"@,
        }
    }

    /// Renders the short message.
    pub fn message(&self) -> (r: String)
        ensures
            r@ == self.message_spec(),
    {
        match self {
            SyntaxErr::UnexpectedChar => String::from_str("unexpected character"),
            SyntaxErr::UnmatchedParen(_) => String::from_str("unmatched parenthesis"),
            SyntaxErr::OutsideMnemonic(kind) => {
                let mut s = String::from_str("unexpected '");
                s.append(kind.as_str());
                s.append("'");
                s
            },
            SyntaxErr::InvalidRegister => String::from_str("invalid register"),
            SyntaxErr::InvalidType => String::from_str("invalid type"),
            SyntaxErr::InvalidVarName => String::from_str("invalid variable name"),
            SyntaxErr::MalformedData => String::from_str("malformed global definition"),
        }
    }

    /// The remedial note attached to the diagnostic.
    pub open spec fn note_spec(self) -> Seq<char> {
        match self.view() {
            SyntaxErrV::UnexpectedChar => "ensure the input is well-formed"@,
            SyntaxErrV::UnmatchedParen(c) => {
                if !c {
                    "add `)` after the register"@
                } else {
                    "add `(` before the register"@
                }
            },
            SyntaxErrV::OutsideMnemonic(_) => "only add arguments after the mnemonic"@,
            SyntaxErrV::InvalidRegister =>
                "registers are either (x|f)N, for N < 32 with no leading 0, or an alias"@,
            SyntaxErrV::InvalidType => "check the spec for proper types"@,
            SyntaxErrV::InvalidVarName => "variable names must be alphanumeric"@,
            SyntaxErrV::MalformedData => "ensure the global definition is well-formed"@,
        }
    }

    /// Renders the remedial note.
    pub fn note(&self) -> (r: String)
        ensures
            r@ == self.note_spec(),
    {
        match self {
            SyntaxErr::UnexpectedChar => String::from_str("ensure the input is well-formed"),
            SyntaxErr::UnmatchedParen(c) => {
                if !*c {
                    String::from_str("add `)` after the register")
                } else {
                    String::from_str("add `(` before the register")
                }
            },
            SyntaxErr::OutsideMnemonic(_) => String::from_str(
                "only add arguments after the mnemonic",
            ),
            SyntaxErr::InvalidRegister => String::from_str(
                "registers are either (x|f)N, for N < 32 with no leading 0, or an alias",
            ),
            SyntaxErr::InvalidType => String::from_str("check the spec for proper types"),
            SyntaxErr::InvalidVarName => String::from_str("variable names must be alphanumeric"),
            SyntaxErr::MalformedData => String::from_str(
                "ensure the global definition is well-formed",
            ),
        }
    }
}

/// An error found while assembling or executing.
#[derive(Debug)]
pub enum RuntimeErr {
    InvalidMnemonic,
    /// Mnemonic, actual argument count, expected argument count.
    InvalidOpArity(String, usize, usize),
    /// Actual kind, expected kind.
    TypeMismatch(String, String),
    LabelNotFound,
    /// The executor met a word outside the supported encodings.
    UnknownEncoding,
}

/// The mathematical form of a runtime error.
pub enum RuntimeErrV {
    InvalidMnemonic,
    InvalidOpArity(Seq<char>, int, int),
    TypeMismatch(Seq<char>, Seq<char>),
    LabelNotFound,
    UnknownEncoding,
}

/// The argument kind names of a signature tail, joined with `', '`.
pub open spec fn join_kinds(s: Seq<Arg>) -> Seq<char>
    decreases s.len(),
{
    if s.len() == 0 {
        Seq::empty()
    } else if s.len() == 1 {
        s[0].kind_spec()
    } else {
        s[0].kind_spec() + "', '"@ + join_kinds(s.drop_first())
    }
}

/// Renders the kind names of `sig` from index `i` on, joined with `', '`.
fn join_kinds_from(sig: &Vec<Arg>, i: usize) -> (r: String)
    requires
        i <= sig@.len(),
    ensures
        r@ == join_kinds(sig@.skip(i as int)),
    decreases sig@.len() - i,
{
    if i >= sig.len() {
        proof {
            assert(sig@.skip(i as int).len() == 0);
        }
        return String::new();
    }
    let mut s = sig[i].kind();
    if i < sig.len() - 1 {
        s.append("', '");
        let rest = join_kinds_from(sig, i + 1);
        s.append(rest.as_str());
        proof {
            assert(sig@.skip(i as int).drop_first() =~= sig@.skip(i + 1 as int));
            assert(sig@.skip(i as int)[0] == sig@[i as int]);
        }
    } else {
        proof {
            assert(sig@.skip(i as int).len() == 1);
            assert(sig@.skip(i as int)[0] == sig@[i as int]);
        }
    }
    s
}

/// What the arity note assumes of an `InvalidOpArity` record: a table
/// mnemonic, counts that differ, and — when arguments are missing — at least
/// one given and a signature long enough to name the ones owed.
pub open spec fn arity_note_wf(op: Seq<char>, actual: int, expected: int) -> bool {
    &&& instruction_spec(op) is Some
    &&& actual != expected
    &&& actual < expected ==> 1 <= actual && (if expected - actual == 1 {
        instruction_spec(op).unwrap().1.len() >= 1
    } else {
        actual - 1 <= instruction_spec(op).unwrap().1.len()
    })
}

impl RuntimeErr {
    pub open spec fn view(self) -> RuntimeErrV {
        match self {
            RuntimeErr::InvalidMnemonic => RuntimeErrV::InvalidMnemonic,
            RuntimeErr::InvalidOpArity(op, a, e) => RuntimeErrV::InvalidOpArity(
                op@,
                a as int,
                e as int,
            ),
            RuntimeErr::TypeMismatch(a, e) => RuntimeErrV::TypeMismatch(a@, e@),
            RuntimeErr::LabelNotFound => RuntimeErrV::LabelNotFound,
            RuntimeErr::UnknownEncoding => RuntimeErrV::UnknownEncoding,
        }
    }

    /// The short message shown above the source caret.
    pub open spec fn message_spec(self) -> Seq<char> {
        match self.view() {
            RuntimeErrV::InvalidMnemonic => "invalid mnemonic"@,
            RuntimeErrV::InvalidOpArity(_, a, e) => "expected "@ + crate::text::dec_spec(
                e as nat,
            ) + " args, got "@ + crate::text::dec_spec(a as nat),
            RuntimeErrV::TypeMismatch(a, e) => "expected '"@ + e + "', got '"@ + a + "'"@,
            RuntimeErrV::LabelNotFound => "label not found"@,
            RuntimeErrV::UnknownEncoding => "unknown encoding"@,
        }
    }

    /// Renders the short message.
    pub fn message(&self) -> (r: String)
        ensures
            r@ == self.message_spec(),
    {
        match self {
            RuntimeErr::InvalidMnemonic => String::from_str("invalid mnemonic"),
            RuntimeErr::InvalidOpArity(_, a, e) => {
                let mut s = String::from_str("expected ");
                s.append(crate::text::dec_u64(*e as u64).as_str());
                s.append(" args, got ");
                s.append(crate::text::dec_u64(*a as u64).as_str());
                s
            },
            RuntimeErr::TypeMismatch(a, e) => {
                let mut s = String::from_str("expected '");
                s.append(e.as_str());
                s.append("', got '");
                s.append(a.as_str());
                s.append("'");
                s
            },
            RuntimeErr::LabelNotFound => String::from_str("label not found"),
            RuntimeErr::UnknownEncoding => String::from_str("unknown encoding"),
        }
    }

    /// The remedial note attached to the diagnostic. For a wrong arity it
    /// names the argument kinds still owed, read from the instruction table.
    pub open spec fn note_spec(self) -> Seq<char> {
        match self.view() {
            RuntimeErrV::InvalidMnemonic => "check the ref sheet for the avaliable mnemonics"@,
            RuntimeErrV::InvalidOpArity(op, a, e) => {
                let sig = instruction_spec(op).unwrap().1;
                if a > e {
                    if a - e == 1 {
                        "remove the extra argument"@
                    } else {
                        "remove the extra arguments"@
                    }
                } else {
                    if e - a == 1 {
                        "add the extra '"@ + sig.last().kind_spec() + "' argument"@
                    } else {
                        "add the extra `"@ + join_kinds(sig.skip(a - 1)) + "` arguments"@
                    }
                }
            },
            RuntimeErrV::TypeMismatch(_, _) =>
                "ensure the instruction is getting the right arguments"@,
            RuntimeErrV::LabelNotFound => "ensure the label is spelled correctly"@,
            RuntimeErrV::UnknownEncoding =>
                "the word does not decode to a supported instruction"@,
        }
    }

    /// Renders the remedial note.
    pub fn note(&self) -> (r: String)
        requires
            self@ matches RuntimeErrV::InvalidOpArity(op, a, e) ==> arity_note_wf(op, a, e),
        ensures
            r@ == self.note_spec(),
    {
        match self {
            RuntimeErr::InvalidMnemonic => String::from_str(
                "check the ref sheet for the avaliable mnemonics",
            ),
            RuntimeErr::InvalidOpArity(op, a, e) => {
                if *a > *e {
                    if *a - *e == 1 {
                        String::from_str("remove the extra argument")
                    } else {
                        String::from_str("remove the extra arguments")
                    }
                } else {
                    let sig = instruction(op.as_str()).unwrap().1;
                    if *e - *a == 1 {
                        let mut s = String::from_str("add the extra '");
                        s.append(sig[sig.len() - 1].kind().as_str());
                        s.append("' argument");
                        proof {
                            assert(sig@[sig@.len() - 1] == instruction_spec(
                                op@,
                            ).unwrap().1.last());
                        }
                        s
                    } else {
                        let mut s = String::from_str("add the extra `");
                        s.append(join_kinds_from(&sig, *a - 1).as_str());
                        s.append("` arguments");
                        s
                    }
                }
            },
            RuntimeErr::TypeMismatch(_, _) => String::from_str(
                "ensure the instruction is getting the right arguments",
            ),
            RuntimeErr::LabelNotFound => String::from_str(
                "ensure the label is spelled correctly",
            ),
            RuntimeErr::UnknownEncoding => String::from_str(
                "the word does not decode to a supported instruction",
            ),
        }
    }
}

} // verus!
