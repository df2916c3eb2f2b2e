//! The lexer/parser: assembly text to a tagged token stream with source
//! locations.
//!
//! Parsing is line-oriented. Each line is first tokenized left to right,
//! then grouped so that the first operand-carrying token becomes the
//! mnemonic and the rest become its arguments.

use vstd::prelude::*;

use crate::env::Env;
use crate::err::{SyntaxErr, SyntaxErrV};

verus! {

broadcast use vstd::string::group_string_axioms;

/// A source location: 1-based line, 0-based start and end character columns
/// of the token within its line, and the byte address of the instruction the
/// token belongs to (written by the assembler's first pass, not the parser).
#[derive(Debug, Clone, Copy, PartialEq, Eq, Structural)]
pub struct Loc {
    pub line: usize,
    pub start: usize,
    pub end: usize,
    pub mem_offset: usize,
}

impl Default for Loc {
    fn default() -> (r: Self)
        ensures
            r == (Loc { line: 0, start: 0, end: 0, mem_offset: 0 }),
    {
        Loc { line: 0, start: 0, end: 0, mem_offset: 0 }
    }
}

/// One parsed token.
#[derive(Debug)]
pub enum Token {
    /// Whitespace or a comment; discarded by the grouping pass.
    Spacing,
    /// A numeric literal, stored as a 32-bit two's-complement pattern.
    Immediate(u32),
    /// An identifier, tentatively a register; the grouping pass reclassifies
    /// it as a mnemonic or a symbol.
    Register(String),
    /// A mnemonic with its ordered arguments.
    Mnemonic(String, Vec<(Token, Loc)>),
    /// A label definition `name:`.
    Label(String),
    /// The `imm(reg)` memory operand form.
    Memory(Box<Token>, Option<Box<Token>>),
    /// A bareword resolved against the label table by the assembler.
    Symbol(String),
}

/// The mathematical form of a token.
pub enum TokenV {
    Spacing,
    Immediate(u32),
    Register(Seq<char>),
    Mnemonic(Seq<char>, Seq<(TokenV, Loc)>),
    Label(Seq<char>),
    Memory(Box<TokenV>, Option<Box<TokenV>>),
    Symbol(Seq<char>),
}

impl TokenV {
    /// The kind name used in diagnostics.
    pub open spec fn kind_spec(self) -> Seq<char> {
        match self {
            TokenV::Spacing => "spacing"@,
            TokenV::Immediate(_) => "immediate"@,
            TokenV::Register(_) => "register"@,
            TokenV::Mnemonic(_, _) => "mnemonic"@,
            TokenV::Label(_) => "label"@,
            TokenV::Memory(_, _) => "memory"@,
            TokenV::Symbol(_) => "symbol"@,
        }
    }
}

impl Token {
    /// The mathematical form of this token.
    pub open spec fn view(self) -> TokenV
        decreases self,
    {
        match self {
            Token::Spacing => TokenV::Spacing,
            Token::Immediate(v) => TokenV::Immediate(v),
            Token::Register(s) => TokenV::Register(s@),
            Token::Mnemonic(s, args) => TokenV::Mnemonic(s@, tokens_view(args@)),
            Token::Label(s) => TokenV::Label(s@),
            Token::Memory(imm, reg) => TokenV::Memory(
                Box::new((*imm).view()),
                match reg {
                    Some(t) => Some(Box::new((*t).view())),
                    None => None,
                },
            ),
            Token::Symbol(s) => TokenV::Symbol(s@),
        }
    }

    /// The kind name used in diagnostics.
    pub open spec fn kind_spec(self) -> Seq<char> {
        self.view().kind_spec()
    }

    /// The kind name of this token, for diagnostics.
    pub fn kind(&self) -> (r: &'static str)
        ensures
            r@ == self.kind_spec(),
    {
        match self {
            Token::Spacing => "spacing",
            Token::Immediate(_) => "immediate",
            Token::Register(_) => "register",
            Token::Mnemonic(_, _) => "mnemonic",
            Token::Label(_) => "label",
            Token::Memory(_, _) => "memory",
            Token::Symbol(_) => "symbol",
        }
    }
}

/// The mathematical form of a token-location sequence.
pub open spec fn tokens_view(ts: Seq<(Token, Loc)>) -> Seq<(TokenV, Loc)>
    decreases ts,
{
    if ts.len() == 0 {
        Seq::empty()
    } else {
        seq![(ts[0].0.view(), ts[0].1)] + tokens_view(ts.drop_first())
    }
}

/// `tokens_view` maps the sequence element by element.
pub proof fn lemma_tokens_view(ts: Seq<(Token, Loc)>)
    ensures
        tokens_view(ts).len() == ts.len(),
        forall|i: int|
            0 <= i < ts.len() ==> tokens_view(ts)[i] == ((#[trigger] ts[i]).0.view(), ts[i].1),
    decreases ts.len(),
{
    if ts.len() > 0 {
        lemma_tokens_view(ts.drop_first());
        assert forall|i: int| 0 <= i < ts.len() implies tokens_view(ts)[i] == (
        (#[trigger] ts[i]).0.view(),
        ts[i].1,
        ) by {
            if i > 0 {
                assert(ts.drop_first()[i - 1] == ts[i]);
            }
        }
    }
}

/// An error record: the error, its location, the tokens parsed so far on
/// the line, and an optional extra note.
pub type ParseErr = (SyntaxErr, Loc, Vec<(Token, Loc)>, Option<String>);

/// The mathematical form of an error record.
pub type ParseErrV = (SyntaxErrV, Loc, Seq<(TokenV, Loc)>, Option<Seq<char>>);

/// The mathematical form of an optional note.
pub open spec fn note_view(n: Option<String>) -> Option<Seq<char>> {
    match n {
        Some(s) => Some(s@),
        None => None,
    }
}

/// The mathematical form of an error record.
pub open spec fn parse_err_view(e: ParseErr) -> ParseErrV {
    (e.0.view(), e.1, tokens_view(e.2@), note_view(e.3))
}

/// The view of a pushed token stream is the view plus the new pair.
pub proof fn lemma_tokens_view_push(ts: Seq<(Token, Loc)>, x: (Token, Loc))
    ensures
        tokens_view(ts.push(x)) == tokens_view(ts).push((x.0.view(), x.1)),
{
    lemma_tokens_view(ts.push(x));
    lemma_tokens_view(ts);
    assert forall|k: int| 0 <= k < ts.len() + 1 implies tokens_view(ts.push(x))[k] == (tokens_view(
        ts,
    ) + seq![(x.0.view(), x.1)])[k] by {
        if k < ts.len() {
            assert(ts.push(x)[k] == ts[k]);
        } else {
            assert(ts.push(x)[k] == x);
        }
    }
    assert(tokens_view(ts.push(x)) =~= tokens_view(ts) + seq![(x.0.view(), x.1)]);
    assert(tokens_view(ts) + seq![(x.0.view(), x.1)] =~= tokens_view(ts).push((x.0.view(), x.1)));
}

/// A character class the tokenizer scans over.
#[derive(Debug, Clone, Copy, PartialEq, Eq, Structural)]
pub enum CharClass {
    /// Hexadecimal digits.
    Hex,
    /// Binary digits.
    Bin,
    /// Octal digits.
    Oct,
    /// Decimal digits.
    Dec,
    /// What may stand between the parentheses of a memory operand.
    RegName,
    /// What may continue an identifier.
    Ident,
}

pub open spec fn in_class(c: char, k: CharClass) -> bool {
    match k {
        CharClass::Hex => ('0' <= c && c <= '9') || ('a' <= c && c <= 'f') || ('A' <= c && c
            <= 'F'),
        CharClass::Bin => c == '0' || c == '1',
        CharClass::Oct => '0' <= c && c <= '7',
        CharClass::Dec => '0' <= c && c <= '9',
        CharClass::RegName => c == ' ' || ('0' <= c && c <= '9') || ('a' <= c && c <= 'z') || ('A'
            <= c && c <= 'Z'),
        CharClass::Ident => ('a' <= c && c <= 'z') || ('A' <= c && c <= 'Z') || c == '_' || ('0'
            <= c && c <= '9') || c == '.',
    }
}

/// The first position at or after `q` whose character leaves the class.
pub open spec fn scan_end(line: Seq<char>, q: int, k: CharClass) -> int
    decreases line.len() - q,
{
    if q >= line.len() {
        line.len() as int
    } else if !in_class(line[q], k) {
        q
    } else {
        scan_end(line, q + 1, k)
    }
}

pub proof fn lemma_scan_end(line: Seq<char>, q0: int, k: CharClass)
    requires
        0 <= q0 <= line.len(),
    ensures
        q0 <= scan_end(line, q0, k) <= line.len(),
        forall|j: int| q0 <= j < scan_end(line, q0, k) ==> in_class(#[trigger] line[j], k),
        scan_end(line, q0, k) < line.len() ==> !in_class(line[scan_end(line, q0, k)], k),
    decreases line.len() - q0,
{
    if q0 < line.len() && in_class(line[q0], k) {
        lemma_scan_end(line, q0 + 1, k);
    }
}

fn in_class_exec(c: char, k: CharClass) -> (r: bool)
    ensures
        r == in_class(c, k),
{
    match k {
        CharClass::Hex => ('0' <= c && c <= '9') || ('a' <= c && c <= 'f') || ('A' <= c && c
            <= 'F'),
        CharClass::Bin => c == '0' || c == '1',
        CharClass::Oct => '0' <= c && c <= '7',
        CharClass::Dec => '0' <= c && c <= '9',
        CharClass::RegName => c == ' ' || ('0' <= c && c <= '9') || ('a' <= c && c <= 'z') || ('A'
            <= c && c <= 'Z'),
        CharClass::Ident => ('a' <= c && c <= 'z') || ('A' <= c && c <= 'Z') || c == '_' || ('0'
            <= c && c <= '9') || c == '.',
    }
}

fn scan_end_exec(line: &Vec<char>, q: usize, k: CharClass) -> (r: usize)
    requires
        q <= line@.len(),
    ensures
        r == scan_end(line@, q as int, k),
        q <= r <= line@.len(),
    decreases line@.len() - q,
{
    if q < line.len() && in_class_exec(line[q], k) {
        scan_end_exec(line, q + 1, k)
    } else {
        if q >= line.len() {
            line.len()
        } else {
            q
        }
    }
}

/// The sequence with leading and trailing spaces removed.
pub open spec fn trim_spaces(s: Seq<char>) -> Seq<char>
    decreases s.len(),
{
    if s.len() == 0 {
        s
    } else if s[0] == ' ' {
        trim_spaces(s.drop_first())
    } else if s.last() == ' ' {
        trim_spaces(s.drop_last())
    } else {
        s
    }
}

/// Narrows the window `[a, b)` of `v` past its leading and trailing spaces.
fn trim_range(v: &Vec<char>, a: usize, b: usize) -> (r: (usize, usize))
    requires
        a <= b <= v@.len(),
    ensures
        a <= r.0 <= r.1 <= b,
        v@.subrange(r.0 as int, r.1 as int) == trim_spaces(v@.subrange(a as int, b as int)),
{
    let mut lo = a;
    let mut hi = b;
    while lo < hi && v[lo] == ' '
        invariant
            a <= lo <= hi <= b <= v@.len(),
            hi == b,
            trim_spaces(v@.subrange(a as int, b as int)) == trim_spaces(
                v@.subrange(lo as int, hi as int),
            ),
        decreases hi - lo,
    {
        proof {
            assert(v@.subrange(lo as int, hi as int).drop_first() =~= v@.subrange(
                lo + 1 as int,
                hi as int,
            ));
        }
        lo += 1;
    }
    while hi > lo && v[hi - 1] == ' '
        invariant
            a <= lo <= hi <= b <= v@.len(),
            lo < hi ==> v@[lo as int] != ' ',
            trim_spaces(v@.subrange(a as int, b as int)) == trim_spaces(
                v@.subrange(lo as int, hi as int),
            ),
        decreases hi - lo,
    {
        proof {
            assert(v@.subrange(lo as int, hi as int).drop_last() =~= v@.subrange(
                lo as int,
                hi - 1 as int,
            ));
        }
        hi -= 1;
    }
    proof {
        let s = v@.subrange(lo as int, hi as int);
        if s.len() > 0 {
            assert(s[0] == v@[lo as int]);
            assert(s.last() == v@[hi - 1 as int]);
        }
        assert(trim_spaces(s) == s);
    }
    (lo, hi)
}

/// A token-column location within line `n`: start column `s`, end column `e`.
pub open spec fn col_loc(n: int, s: int, e: int) -> Loc {
    Loc { line: n as usize, start: s as usize, end: e as usize, mem_offset: 0 }
}

/// Whether the character after a numeric literal may follow one: the opening
/// parenthesis of a memory operand, a space, or the end of the line.
pub open spec fn num_boundary(line: Seq<char>, q: int) -> bool {
    q >= line.len() || line[q] == '(' || line[q] == ' '
}

/// Tokenizes line `n` from column `p` on, with the tokens already read.
/// Columns are 0-based character positions within the line. A malformed or
/// overflowing numeric literal is an unexpected-character error at the
/// column that follows its digits.
pub open spec fn tok_line(line: Seq<char>, p: int, tokens: Seq<(TokenV, Loc)>, n: int) -> Result<
    Seq<(TokenV, Loc)>,
    ParseErrV,
>
    decreases line.len() - p,
    via tok_line_decreases
{
    if p < 0 || p >= line.len() {
        Ok(tokens)
    } else {
        let c = line[p];
        if c == ' ' || c == '\t' {
            tok_line(line, p + 1, tokens.push((TokenV::Spacing, col_loc(n, p, p))), n)
        } else if c == '#' {
            Ok(tokens.push((TokenV::Spacing, col_loc(n, p, line.len() - 1))))
        } else if c == '0' && p + 1 < line.len() && (line[p + 1] == 'x' || line[p + 1] == 'b'
            || line[p + 1] == 'o') {
            let (class, base): (CharClass, u32) = if line[p + 1] == 'x' {
                (CharClass::Hex, 16)
            } else if line[p + 1] == 'b' {
                (CharClass::Bin, 2)
            } else {
                (CharClass::Oct, 8)
            };
            let q = scan_end(line, p + 2, class);
            if !num_boundary(line, q) {
                Err((SyntaxErrV::UnexpectedChar, col_loc(n, q, q), tokens, None))
            } else {
                match crate::text::digits_val_spec(line.subrange(p + 2, q), base) {
                    Some(v) => tok_line(
                        line,
                        q,
                        tokens.push((TokenV::Immediate(v), col_loc(n, p, q - 1))),
                        n,
                    ),
                    None => Err((SyntaxErrV::UnexpectedChar, col_loc(n, q, q), tokens, None)),
                }
            }
        } else if '0' <= c && c <= '9' {
            let q = scan_end(line, p + 1, CharClass::Dec);
            if !num_boundary(line, q) {
                Err((SyntaxErrV::UnexpectedChar, col_loc(n, q, q), tokens, None))
            } else {
                match crate::text::digits_val_spec(line.subrange(p, q), 10) {
                    Some(v) => tok_line(
                        line,
                        q,
                        tokens.push((TokenV::Immediate(v), col_loc(n, p, q - 1))),
                        n,
                    ),
                    None => Err((SyntaxErrV::UnexpectedChar, col_loc(n, q, q), tokens, None)),
                }
            }
        } else if c == '-' {
            let q = scan_end(line, p + 1, CharClass::Dec);
            if !num_boundary(line, q) {
                Err((SyntaxErrV::UnexpectedChar, col_loc(n, q, q), tokens, None))
            } else {
                match crate::text::digits_val_spec(line.subrange(p + 1, q), 10) {
                    Some(d) => if d <= 0x8000_0000 {
                        tok_line(
                            line,
                            q,
                            tokens.push(
                                (
                                    TokenV::Immediate(crate::text::neg_u32_spec(d)),
                                    col_loc(n, p, q - 1),
                                ),
                            ),
                            n,
                        )
                    } else {
                        Err((SyntaxErrV::UnexpectedChar, col_loc(n, q, q), tokens, None))
                    },
                    None => Err((SyntaxErrV::UnexpectedChar, col_loc(n, q, q), tokens, None)),
                }
            }
        } else if c == '(' {
            if tokens.len() > 0 && tokens.last().0 is Immediate {
                let imm = tokens.last();
                let popped = tokens.drop_last();
                let q = scan_end(line, p + 1, CharClass::RegName);
                let rname = trim_spaces(line.subrange(p + 1, q));
                if crate::env::reg_index_spec(rname) is None {
                    Err((SyntaxErrV::InvalidRegister, col_loc(n, p + 2, q), popped, None))
                } else if q >= line.len() || line[q] != ')' {
                    Err(
                        (
                            SyntaxErrV::UnmatchedParen(false),
                            col_loc(n, imm.1.start as int, q - 1),
                            popped,
                            None,
                        ),
                    )
                } else {
                    tok_line(
                        line,
                        q + 1,
                        popped.push(
                            (
                                TokenV::Memory(
                                    Box::new(imm.0),
                                    Some(Box::new(TokenV::Register(rname))),
                                ),
                                col_loc(n, imm.1.start as int, q),
                            ),
                        ),
                        n,
                    )
                }
            } else {
                Err(
                    (
                        SyntaxErrV::UnexpectedChar,
                        col_loc(n, p, p),
                        tokens,
                        Some("a memory index must be of the form imm(reg) or imm"@),
                    ),
                )
            }
        } else if c == ')' {
            Err((SyntaxErrV::UnmatchedParen(true), col_loc(n, p, p), tokens, None))
        } else if ('a' <= c && c <= 'z') || ('A' <= c && c <= 'Z') || c == '_' {
            let q = scan_end(line, p + 1, CharClass::Ident);
            let name = line.subrange(p, q);
            if q < line.len() && line[q] == ':' {
                tok_line(line, q + 1, tokens.push((TokenV::Label(name), col_loc(n, p, q))), n)
            } else {
                tok_line(line, q, tokens.push((TokenV::Register(name), col_loc(n, p, q - 1))), n)
            }
        } else {
            Err((SyntaxErrV::UnexpectedChar, col_loc(n, p, p), tokens, None))
        }
    }
}

#[via_fn]
proof fn tok_line_decreases(line: Seq<char>, p: int, tokens: Seq<(TokenV, Loc)>, n: int) {
    if 0 <= p < line.len() {
        if p + 2 <= line.len() {
            lemma_scan_end(line, p + 2, CharClass::Hex);
            lemma_scan_end(line, p + 2, CharClass::Bin);
            lemma_scan_end(line, p + 2, CharClass::Oct);
        }
        lemma_scan_end(line, p + 1, CharClass::Dec);
        lemma_scan_end(line, p + 1, CharClass::RegName);
        lemma_scan_end(line, p + 1, CharClass::Ident);
    }
}

/// Relates an executable tokenizer or grouping result to its mathematical
/// form.
pub open spec fn line_res_matches(
    r: Result<Vec<(Token, Loc)>, ParseErr>,
    s: Result<Seq<(TokenV, Loc)>, ParseErrV>,
) -> bool {
    match r {
        Ok(v) => s matches Ok(ts) && tokens_view(v@) == ts,
        Err(e) => s matches Err(ev) && parse_err_view(e) == ev,
    }
}

/// Tokenizes one line, from column `p`, with the tokens read so far.
#[verifier::rlimit(100)]
fn tok_line_exec(line: &Vec<char>, p: usize, tokens: Vec<(Token, Loc)>, n: usize) -> (r: Result<
    Vec<(Token, Loc)>,
    ParseErr,
>)
    requires
        p <= line@.len(),
        line@.len() < 0x1000_0000,
        n < 0x1000_0000,
    ensures
        line_res_matches(r, tok_line(line@, p as int, tokens_view(tokens@), n as int)),
    decreases line@.len() - p,
{
    let ghost toks0 = tokens_view(tokens@);
    if p >= line.len() {
        return Ok(tokens);
    }
    let c = line[p];
    if c == ' ' || c == '\t' {
        let loc = Loc { line: n, start: p, end: p, mem_offset: 0 };
        let mut tokens = tokens;
        proof {
            lemma_tokens_view_push(tokens@, (Token::Spacing, loc));
        }
        tokens.push((Token::Spacing, loc));
        proof {
            assert(tok_line(line@, p as int, toks0, n as int) == tok_line(
                line@,
                p + 1,
                tokens_view(tokens@),
                n as int,
            ));
        }
        tok_line_exec(line, p + 1, tokens, n)
    } else if c == '#' {
        let loc = Loc { line: n, start: p, end: line.len() - 1, mem_offset: 0 };
        let mut tokens = tokens;
        proof {
            lemma_tokens_view_push(tokens@, (Token::Spacing, loc));
        }
        tokens.push((Token::Spacing, loc));
        proof {
            assert(tok_line(line@, p as int, toks0, n as int) == Ok::<_, ParseErrV>(
                tokens_view(tokens@),
            ));
        }
        Ok(tokens)
    } else if c == '0' && p + 1 < line.len() && (line[p + 1] == 'x' || line[p + 1] == 'b' || line[p
        + 1] == 'o') {
        let (class, base): (CharClass, u32) = if line[p + 1] == 'x' {
            (CharClass::Hex, 16)
        } else if line[p + 1] == 'b' {
            (CharClass::Bin, 2)
        } else {
            (CharClass::Oct, 8)
        };
        let q = scan_end_exec(line, p + 2, class);
        let boundary = q >= line.len() || line[q] == '(' || line[q] == ' ';
        if !boundary {
            return Err(
                (
                    SyntaxErr::UnexpectedChar,
                    Loc { line: n, start: q, end: q, mem_offset: 0 },
                    tokens,
                    None,
                ),
            );
        }
        let digits = crate::text::subrange_vec(line, p + 2, q);
        match crate::text::digits_val(&digits, base) {
            Some(v) => {
                let loc = Loc { line: n, start: p, end: q - 1, mem_offset: 0 };
                let mut tokens = tokens;
                proof {
                    lemma_tokens_view_push(tokens@, (Token::Immediate(v), loc));
                }
                tokens.push((Token::Immediate(v), loc));
                proof {
                    assert(tok_line(line@, p as int, toks0, n as int) == tok_line(
                        line@,
                        q as int,
                        tokens_view(tokens@),
                        n as int,
                    ));
                }
                tok_line_exec(line, q, tokens, n)
            },
            None => Err(
                (
                    SyntaxErr::UnexpectedChar,
                    Loc { line: n, start: q, end: q, mem_offset: 0 },
                    tokens,
                    None,
                ),
            ),
        }
    } else if '0' <= c && c <= '9' {
        let q = scan_end_exec(line, p + 1, CharClass::Dec);
        let boundary = q >= line.len() || line[q] == '(' || line[q] == ' ';
        if !boundary {
            return Err(
                (
                    SyntaxErr::UnexpectedChar,
                    Loc { line: n, start: q, end: q, mem_offset: 0 },
                    tokens,
                    None,
                ),
            );
        }
        let digits = crate::text::subrange_vec(line, p, q);
        match crate::text::digits_val(&digits, 10) {
            Some(v) => {
                let loc = Loc { line: n, start: p, end: q - 1, mem_offset: 0 };
                let mut tokens = tokens;
                proof {
                    lemma_tokens_view_push(tokens@, (Token::Immediate(v), loc));
                }
                tokens.push((Token::Immediate(v), loc));
                proof {
                    assert(tok_line(line@, p as int, toks0, n as int) == tok_line(
                        line@,
                        q as int,
                        tokens_view(tokens@),
                        n as int,
                    ));
                }
                tok_line_exec(line, q, tokens, n)
            },
            None => Err(
                (
                    SyntaxErr::UnexpectedChar,
                    Loc { line: n, start: q, end: q, mem_offset: 0 },
                    tokens,
                    None,
                ),
            ),
        }
    } else if c == '-' {
        let q = scan_end_exec(line, p + 1, CharClass::Dec);
        let boundary = q >= line.len() || line[q] == '(' || line[q] == ' ';
        if !boundary {
            return Err(
                (
                    SyntaxErr::UnexpectedChar,
                    Loc { line: n, start: q, end: q, mem_offset: 0 },
                    tokens,
                    None,
                ),
            );
        }
        let digits = crate::text::subrange_vec(line, p + 1, q);
        match crate::text::digits_val(&digits, 10) {
            Some(d) => {
                if d <= 0x8000_0000 {
                    let loc = Loc { line: n, start: p, end: q - 1, mem_offset: 0 };
                    let v = crate::text::neg_u32(d);
                    let mut tokens = tokens;
                    proof {
                        lemma_tokens_view_push(tokens@, (Token::Immediate(v), loc));
                    }
                    tokens.push((Token::Immediate(v), loc));
                    proof {
                        assert(tok_line(line@, p as int, toks0, n as int) == tok_line(
                            line@,
                            q as int,
                            tokens_view(tokens@),
                            n as int,
                        ));
                    }
                    tok_line_exec(line, q, tokens, n)
                } else {
                    Err(
                        (
                            SyntaxErr::UnexpectedChar,
                            Loc { line: n, start: q, end: q, mem_offset: 0 },
                            tokens,
                            None,
                        ),
                    )
                }
            },
            None => Err(
                (
                    SyntaxErr::UnexpectedChar,
                    Loc { line: n, start: q, end: q, mem_offset: 0 },
                    tokens,
                    None,
                ),
            ),
        }
    } else if c == '(' {
        proof {
            lemma_tokens_view(tokens@);
            if tokens@.len() > 0 {
                assert(tokens_view(tokens@).last() == (
                    tokens@[tokens@.len() - 1].0.view(),
                    tokens@[tokens@.len() - 1].1,
                ));
            }
        }
        let is_imm_last = tokens.len() > 0 && match &tokens[tokens.len() - 1].0 {
            Token::Immediate(_) => true,
            _ => false,
        };
        if !is_imm_last {
            return Err(
                (
                    SyntaxErr::UnexpectedChar,
                    Loc { line: n, start: p, end: p, mem_offset: 0 },
                    tokens,
                    Some(String::from_str("a memory index must be of the form imm(reg) or imm")),
                ),
            );
        }
        let mut tokens = tokens;
        let ghost pre_pop = tokens@;
        let imm = match tokens.pop() {
            Some(x) => x,
            None => vstd::pervasive::unreached(),
        };
        proof {
            assert(pre_pop.drop_last() =~= tokens@);
            lemma_tokens_view(pre_pop);
            lemma_tokens_view(tokens@);
            assert forall|j: int| 0 <= j < tokens@.len() implies tokens_view(tokens@)[j]
                == tokens_view(pre_pop)[j] by {
                assert(pre_pop[j] == tokens@[j]);
            }
            assert(tokens_view(tokens@) =~= tokens_view(pre_pop).drop_last());
            assert(tokens_view(pre_pop).last() == (imm.0.view(), imm.1));
        }
        let q = scan_end_exec(line, p + 1, CharClass::RegName);
        let (lo, hi) = trim_range(line, p + 1, q);
        let rname = crate::text::chars_to_string(line, lo, hi);
        let resolvable = crate::env::resolve_register_name(rname.as_str());
        if resolvable.is_none() {
            return Err(
                (
                    SyntaxErr::InvalidRegister,
                    Loc { line: n, start: p + 2, end: q, mem_offset: 0 },
                    tokens,
                    None,
                ),
            );
        }
        if q >= line.len() || line[q] != ')' {
            return Err(
                (
                    SyntaxErr::UnmatchedParen(false),
                    Loc { line: n, start: imm.1.start, end: q - 1, mem_offset: 0 },
                    tokens,
                    None,
                ),
            );
        }
        let loc = Loc { line: n, start: imm.1.start, end: q, mem_offset: 0 };
        proof {
            let lv = line@;
            let pi = p as int;
            assert(toks0.len() > 0 && toks0.last().0 is Immediate);
            let imms = toks0.last();
            let popped_s = toks0.drop_last();
            let qs = scan_end(lv, pi + 1, CharClass::RegName);
            assert(qs == q as int);
            let rns = trim_spaces(lv.subrange(pi + 1, qs));
            assert(rns == rname@);
            assert(crate::env::reg_index_spec(rns) is Some);
            assert(qs < lv.len() && lv[qs] == ')');
            assert(imms.0 == imm.0.view());
            assert(imms.1 == imm.1);
            assert(popped_s == tokens_view(tokens@));
            assert(col_loc(n as int, imms.1.start as int, qs) == loc);
        }
        let bi = Box::new(imm.0);
        let br = Box::new(Token::Register(rname));
        proof {
            assert((*bi).view() == toks0.last().0);
            assert((*br).view() == TokenV::Register(trim_spaces(line@.subrange(p + 1, q as int))));
        }
        let mem = Token::Memory(bi, Some(br));
        proof {
            assert(mem.view() == TokenV::Memory(
                Box::new(toks0.last().0),
                Some(Box::new(TokenV::Register(trim_spaces(line@.subrange(p + 1, q as int))))),
            ));
            lemma_tokens_view_push(tokens@, (mem, loc));
        }
        tokens.push((mem, loc));
        proof {
            assert(tok_line(line@, p as int, toks0, n as int) == tok_line(
                line@,
                q + 1,
                tokens_view(tokens@),
                n as int,
            ));
        }
        tok_line_exec(line, q + 1, tokens, n)
    } else if c == ')' {
        Err(
            (
                SyntaxErr::UnmatchedParen(true),
                Loc { line: n, start: p, end: p, mem_offset: 0 },
                tokens,
                None,
            ),
        )
    } else if ('a' <= c && c <= 'z') || ('A' <= c && c <= 'Z') || c == '_' {
        let q = scan_end_exec(line, p + 1, CharClass::Ident);
        let name = crate::text::chars_to_string(line, p, q);
        if q < line.len() && line[q] == ':' {
            let loc = Loc { line: n, start: p, end: q, mem_offset: 0 };
            let mut tokens = tokens;
            proof {
                lemma_tokens_view_push(tokens@, (Token::Label(name), loc));
            }
            tokens.push((Token::Label(name), loc));
            proof {
                assert(tok_line(line@, p as int, toks0, n as int) == tok_line(
                    line@,
                    q + 1,
                    tokens_view(tokens@),
                    n as int,
                ));
            }
            tok_line_exec(line, q + 1, tokens, n)
        } else {
            let loc = Loc { line: n, start: p, end: q - 1, mem_offset: 0 };
            let mut tokens = tokens;
            proof {
                lemma_tokens_view_push(tokens@, (Token::Register(name), loc));
            }
            tokens.push((Token::Register(name), loc));
            proof {
                assert(tok_line(line@, p as int, toks0, n as int) == tok_line(
                    line@,
                    q as int,
                    tokens_view(tokens@),
                    n as int,
                ));
            }
            tok_line_exec(line, q, tokens, n)
        }
    } else {
        Err(
            (
                SyntaxErr::UnexpectedChar,
                Loc { line: n, start: p, end: p, mem_offset: 0 },
                tokens,
                None,
            ),
        )
    }
}

/// A token that can stand as a mnemonic's argument.
pub open spec fn is_operand_tok(t: TokenV) -> bool {
    t is Immediate || t is Register || t is Memory || t is Symbol
}

/// The token stream without its spacing tokens.
pub open spec fn drop_spacing(ts: Seq<(TokenV, Loc)>) -> Seq<(TokenV, Loc)>
    decreases ts.len(),
{
    if ts.len() == 0 {
        Seq::empty()
    } else if ts[0].0 is Spacing {
        drop_spacing(ts.drop_first())
    } else {
        seq![ts[0]] + drop_spacing(ts.drop_first())
    }
}

/// The end of the run of operand tokens that starts at `q`.
pub open spec fn run_end(ts: Seq<(TokenV, Loc)>, q: int) -> int
    decreases ts.len() - q,
{
    if q >= ts.len() {
        ts.len() as int
    } else if !is_operand_tok(ts[q].0) {
        q
    } else {
        run_end(ts, q + 1)
    }
}

pub proof fn lemma_run_end(ts: Seq<(TokenV, Loc)>, q0: int)
    requires
        0 <= q0 <= ts.len(),
    ensures
        q0 <= run_end(ts, q0) <= ts.len(),
        forall|j: int| q0 <= j < run_end(ts, q0) ==> is_operand_tok(#[trigger] ts[j].0),
        run_end(ts, q0) < ts.len() ==> !is_operand_tok(ts[run_end(ts, q0)].0),
    decreases ts.len() - q0,
{
    if q0 < ts.len() && is_operand_tok(ts[q0].0) {
        lemma_run_end(ts, q0 + 1);
    }
}

/// Each bare identifier among a mnemonic's arguments, reconsidered: one that
/// resolves as a register stays a register, any other becomes a symbol.
pub open spec fn classify_args(run: Seq<(TokenV, Loc)>) -> Seq<(TokenV, Loc)>
    decreases run.len(),
{
    if run.len() == 0 {
        Seq::empty()
    } else {
        let h = run[0];
        let h2 = match h.0 {
            TokenV::Register(nm) => if crate::env::reg_index_spec(nm) is Some {
                TokenV::Register(nm)
            } else {
                TokenV::Symbol(nm)
            },
            _ => h.0,
        };
        seq![(h2, h.1)] + classify_args(run.drop_first())
    }
}

/// Groups a spacing-free token line: each run of operand tokens becomes one
/// mnemonic with arguments, labels pass through. A run that does not begin
/// with an unresolvable bare identifier is an error: its first token is
/// either a register name or not an identifier at all.
pub open spec fn group_line(ts: Seq<(TokenV, Loc)>, acc: Seq<(TokenV, Loc)>) -> Result<
    Seq<(TokenV, Loc)>,
    ParseErrV,
>
    decreases ts.len(),
    via group_line_decreases
{
    if ts.len() == 0 {
        Ok(acc)
    } else if !is_operand_tok(ts[0].0) {
        group_line(ts.drop_first(), acc.push(ts[0]))
    } else {
        let q = run_end(ts, 0);
        let run = ts.subrange(0, q);
        match ts[0].0 {
            TokenV::Register(nm) => if crate::env::reg_index_spec(nm) is Some {
                Err((SyntaxErrV::OutsideMnemonic("register"@), ts[0].1, run, None))
            } else {
                group_line(
                    ts.subrange(q, ts.len() as int),
                    acc.push((TokenV::Mnemonic(nm, classify_args(run.drop_first())), ts[0].1)),
                )
            },
            _ => Err((SyntaxErrV::OutsideMnemonic(ts[0].0.kind_spec()), ts[0].1, run, None)),
        }
    }
}

#[via_fn]
proof fn group_line_decreases(ts: Seq<(TokenV, Loc)>, acc: Seq<(TokenV, Loc)>) {
    if ts.len() > 0 {
        lemma_run_end(ts, 0);
        if is_operand_tok(ts[0].0) {
            assert(run_end(ts, 0) >= 1);
        }
    }
}

/// What parsing one line yields: its mnemonic and label tokens, or its
/// first error.
pub open spec fn parse_line_spec(line: Seq<char>, n: int) -> Result<
    Seq<(TokenV, Loc)>,
    ParseErrV,
> {
    match tok_line(line, 0, Seq::empty(), n) {
        Err(e) => Err(e),
        Ok(ts) => group_line(drop_spacing(ts), Seq::empty()),
    }
}

/// Removes the spacing tokens.
fn drop_spacing_exec(ts: Vec<(Token, Loc)>) -> (r: Vec<(Token, Loc)>)
    ensures
        tokens_view(r@) == drop_spacing(tokens_view(ts@)),
    decreases ts@.len(),
{
    let mut ts = ts;
    let ghost ts0 = ts@;
    if ts.len() == 0 {
        proof {
            assert(tokens_view(ts@) =~= Seq::<(TokenV, Loc)>::empty());
        }
        return ts;
    }
    let head = ts.remove(0);
    proof {
        lemma_tokens_view(ts0);
        lemma_tokens_view(ts@);
        assert(ts@ =~= ts0.drop_first());
        assert(tokens_view(ts0)[0] == (head.0.view(), head.1));
        assert(tokens_view(ts0).drop_first() =~= tokens_view(ts@));
    }
    let rest = drop_spacing_exec(ts);
    match &head.0 {
        Token::Spacing => rest,
        _ => {
            let mut out: Vec<(Token, Loc)> = Vec::new();
            out.push(head);
            let mut rest = rest;
            let ghost out_pre = out@;
            let ghost rest_pre = rest@;
            out.append(&mut rest);
            proof {
                lemma_tokens_view(out@);
                lemma_tokens_view(out_pre);
                lemma_tokens_view(rest_pre);
                assert(out@ =~= out_pre + rest_pre);
                assert forall|j: int| 0 <= j < out@.len() implies tokens_view(out@)[j] == (
                tokens_view(out_pre) + tokens_view(rest_pre))[j] by {
                    if j < out_pre.len() {
                        assert(out@[j] == out_pre[j]);
                    } else {
                        assert(out@[j] == rest_pre[j - out_pre.len()]);
                    }
                }
                assert(tokens_view(out@) =~= tokens_view(out_pre) + tokens_view(rest_pre));
                assert(tokens_view(out_pre) =~= seq![(head.0.view(), head.1)]);
                assert(tokens_view(out@) =~= drop_spacing(tokens_view(ts0)));
            }
            out
        },
    }
}

/// Reconsiders each bare identifier among a mnemonic's arguments.
fn classify_args_exec(run: Vec<(Token, Loc)>) -> (r: Vec<(Token, Loc)>)
    ensures
        tokens_view(r@) == classify_args(tokens_view(run@)),
    decreases run@.len(),
{
    let mut run = run;
    let ghost run0 = run@;
    if run.len() == 0 {
        let out: Vec<(Token, Loc)> = Vec::new();
        proof {
            assert(tokens_view(out@) =~= classify_args(tokens_view(run0)));
        }
        return out;
    }
    let head = run.remove(0);
    proof {
        lemma_tokens_view(run0);
        lemma_tokens_view(run@);
        assert(run@ =~= run0.drop_first());
        assert(tokens_view(run0)[0] == (head.0.view(), head.1));
        assert(tokens_view(run0).drop_first() =~= tokens_view(run@));
    }
    let (tok, loc) = head;
    let tok2: Token = match tok {
        Token::Register(nm) => {
            if crate::env::resolve_register_name(nm.as_str()).is_some() {
                Token::Register(nm)
            } else {
                Token::Symbol(nm)
            }
        },
        other => other,
    };
    let rest = classify_args_exec(run);
    let mut out: Vec<(Token, Loc)> = Vec::new();
    out.push((tok2, loc));
    let mut rest = rest;
    let ghost out_pre = out@;
    let ghost rest_pre = rest@;
    out.append(&mut rest);
    proof {
        lemma_tokens_view(out@);
        lemma_tokens_view(out_pre);
        lemma_tokens_view(rest_pre);
        assert(out@ =~= out_pre + rest_pre);
        assert forall|j: int| 0 <= j < out@.len() implies tokens_view(out@)[j] == (tokens_view(
            out_pre,
        ) + tokens_view(rest_pre))[j] by {
            if j < out_pre.len() {
                assert(out@[j] == out_pre[j]);
            } else {
                assert(out@[j] == rest_pre[j - out_pre.len()]);
            }
        }
        assert(tokens_view(out@) =~= tokens_view(out_pre) + tokens_view(rest_pre));
        assert(tokens_view(out@) =~= classify_args(tokens_view(run0)));
    }
    out
}

/// Whether the token can stand as a mnemonic's argument.
fn is_operand_exec(t: &Token) -> (r: bool)
    ensures
        r == is_operand_tok(t.view()),
{
    match t {
        Token::Immediate(_) => true,
        Token::Register(_) => true,
        Token::Memory(_, _) => true,
        Token::Symbol(_) => true,
        _ => false,
    }
}

/// Groups a spacing-free line into mnemonics and labels.
fn group_line_exec(ts: Vec<(Token, Loc)>, acc: Vec<(Token, Loc)>) -> (r: Result<
    Vec<(Token, Loc)>,
    ParseErr,
>)
    ensures
        line_res_matches(r, group_line(tokens_view(ts@), tokens_view(acc@))),
    decreases ts@.len(),
{
    let mut ts = ts;
    let mut acc = acc;
    let ghost ts0 = tokens_view(ts@);
    let ghost acc0 = tokens_view(acc@);
    if ts.len() == 0 {
        return Ok(acc);
    }
    proof {
        lemma_tokens_view(ts@);
    }
    let first_is_operand = is_operand_exec(&ts[0].0);
    if !first_is_operand {
        let ghost ts_pre = ts@;
        let head = ts.remove(0);
        proof {
            assert(ts@ =~= ts_pre.drop_first());
            lemma_tokens_view(ts_pre);
            assert(tokens_view(ts_pre).drop_first() =~= tokens_view(ts@));
            assert(ts0.drop_first() =~= tokens_view(ts@));
            lemma_tokens_view_push(acc@, head);
        }
        acc.push(head);
        return group_line_exec(ts, acc);
    }
    // Find the end of the operand run.
    let mut q: usize = 0;
    while q < ts.len() && is_operand_exec(&ts[q].0)
        invariant
            q <= ts@.len(),
            ts0 == tokens_view(ts@),
            ts0.len() == ts@.len(),
            forall|i: int|
                0 <= i < ts@.len() ==> ts0[i] == ((#[trigger] ts@[i]).0.view(), ts@[i].1),
            run_end(ts0, 0) == run_end(ts0, q as int),
        decreases ts@.len() - q,
    {
        q += 1;
    }
    proof {
        assert(run_end(ts0, 0) == q as int);
        lemma_run_end(ts0, 0);
    }
    let ghost ts_pre = ts@;
    let rest = ts.split_off(q);
    let run = ts;
    proof {
        lemma_tokens_view(run@);
        lemma_tokens_view(rest@);
        assert forall|j: int| 0 <= j < run@.len() implies tokens_view(run@)[j] == ts0.subrange(
            0,
            q as int,
        )[j] by {
            assert(run@[j] == ts_pre[j]);
            assert(ts0[j] == (ts_pre[j].0.view(), ts_pre[j].1));
        }
        assert(tokens_view(run@) =~= ts0.subrange(0, q as int));
        assert forall|j: int| 0 <= j < rest@.len() implies tokens_view(rest@)[j] == ts0.subrange(
            q as int,
            ts0.len() as int,
        )[j] by {
            assert(rest@[j] == ts_pre[j + q]);
            assert(ts0[j + q] == (ts_pre[j + q].0.view(), ts_pre[j + q].1));
        }
        assert(tokens_view(rest@) =~= ts0.subrange(q as int, ts0.len() as int));
    }
    let is_reg_name = match &run[0].0 {
        Token::Register(_) => true,
        _ => false,
    };
    if !is_reg_name {
        let kind = String::from_str(run[0].0.kind());
        let loc = run[0].1;
        return Err((SyntaxErr::OutsideMnemonic(kind), loc, run, None));
    }
    let resolvable = {
        let name_ref = match &run[0].0 {
            Token::Register(nm) => nm,
            _ => vstd::pervasive::unreached(),
        };
        crate::env::resolve_register_name(name_ref.as_str()).is_some()
    };
    if resolvable {
        let loc = run[0].1;
        return Err((SyntaxErr::OutsideMnemonic(String::from_str("register")), loc, run, None));
    }
    let mut run2 = run;
    let ghost run_pre = run2@;
    let head = run2.remove(0);
    proof {
        assert(run2@ =~= run_pre.drop_first());
        lemma_tokens_view(run_pre);
        assert(tokens_view(run_pre).drop_first() =~= tokens_view(run2@));
    }
    let (first_tok, first_loc) = head;
    let name = match first_tok {
        Token::Register(nm) => nm,
        _ => vstd::pervasive::unreached(),
    };
    let args = classify_args_exec(run2);
    let mnemonic = Token::Mnemonic(name, args);
    proof {
        lemma_tokens_view_push(acc@, (mnemonic, first_loc));
    }
    acc.push((mnemonic, first_loc));
    group_line_exec(rest, acc)
}

/// Parses one line: tokenize, drop spacing, group.
fn parse_line(line: &Vec<char>, n: usize) -> (r: Result<Vec<(Token, Loc)>, ParseErr>)
    requires
        line@.len() < 0x1000_0000,
        n < 0x1000_0000,
    ensures
        line_res_matches(r, parse_line_spec(line@, n as int)),
{
    proof {
        assert(tokens_view(Seq::<(Token, Loc)>::empty()) =~= Seq::<(TokenV, Loc)>::empty());
    }
    match tok_line_exec(line, 0, Vec::new(), n) {
        Err(e) => Err(e),
        Ok(ts) => group_line_exec(drop_spacing_exec(ts), Vec::new()),
    }
}

/// The position of the first line break at or after `q`.
pub open spec fn find_nl(input: Seq<char>, q: int) -> int
    decreases input.len() - q,
{
    if q >= input.len() {
        input.len() as int
    } else if input[q] == '\n' {
        q
    } else {
        find_nl(input, q + 1)
    }
}

pub proof fn lemma_find_nl(input: Seq<char>, q0: int)
    requires
        0 <= q0 <= input.len(),
    ensures
        q0 <= find_nl(input, q0) <= input.len(),
    decreases input.len() - q0,
{
    if q0 < input.len() && input[q0] != '\n' {
        lemma_find_nl(input, q0 + 1);
    }
}

fn find_nl_exec(input: &Vec<char>, q: usize) -> (r: usize)
    requires
        q <= input@.len(),
    ensures
        r == find_nl(input@, q as int),
        q <= r <= input@.len(),
    decreases input@.len() - q,
{
    if q < input.len() && input[q] != '\n' {
        find_nl_exec(input, q + 1)
    } else {
        if q >= input.len() {
            input.len()
        } else {
            q
        }
    }
}

/// Parses the lines of `input` from position `start` on, numbering them from
/// `n`: yields the tokens of the error-free lines in order, and the errors
/// of the others in order. A line ends at a line break; a carriage return
/// before the break is dropped.
pub open spec fn parse_lines_spec(input: Seq<char>, start: int, n: int) -> (
    Seq<(TokenV, Loc)>,
    Seq<ParseErrV>,
)
    decreases input.len() - start,
    via parse_lines_decreases
{
    if start < 0 || start >= input.len() {
        (Seq::empty(), Seq::empty())
    } else {
        let k = find_nl(input, start);
        let line = if k > start && input[k - 1] == '\r' {
            input.subrange(start, k - 1)
        } else {
            input.subrange(start, k)
        };
        let head = parse_line_spec(line, n);
        let rest = if k < input.len() {
            parse_lines_spec(input, k + 1, n + 1)
        } else {
            (Seq::<(TokenV, Loc)>::empty(), Seq::<ParseErrV>::empty())
        };
        match head {
            Ok(ts) => (ts + rest.0, rest.1),
            Err(e) => (rest.0, seq![e] + rest.1),
        }
    }
}

#[via_fn]
proof fn parse_lines_decreases(input: Seq<char>, start: int, n: int) {
    if 0 <= start < input.len() {
        lemma_find_nl(input, start);
    }
}

/// What parsing yields: the token stream, or every line's error.
pub open spec fn parse_spec(input: Seq<char>) -> Result<Seq<(TokenV, Loc)>, Seq<ParseErrV>> {
    let r = parse_lines_spec(input, 0, 1);
    if r.1.len() == 0 {
        Ok(r.0)
    } else {
        Err(r.1)
    }
}

/// Relates executable error records to their mathematical form.
pub open spec fn errs_match(v: Seq<ParseErr>, s: Seq<ParseErrV>) -> bool {
    v.len() == s.len() && forall|i: int|
        0 <= i < v.len() ==> parse_err_view(#[trigger] v[i]) == s[i]
}

fn parse_lines_exec(chars: &Vec<char>, start: usize, n: usize) -> (r: (
    Vec<(Token, Loc)>,
    Vec<ParseErr>,
))
    requires
        start <= chars@.len(),
        chars@.len() < 0x0800_0000,
        n <= start + 1,
    ensures
        tokens_view(r.0@) == parse_lines_spec(chars@, start as int, n as int).0,
        errs_match(r.1@, parse_lines_spec(chars@, start as int, n as int).1),
    decreases chars@.len() - start,
{
    if start >= chars.len() {
        let toks: Vec<(Token, Loc)> = Vec::new();
        let errs: Vec<ParseErr> = Vec::new();
        proof {
            assert(tokens_view(toks@) =~= Seq::<(TokenV, Loc)>::empty());
        }
        return (toks, errs);
    }
    let k = find_nl_exec(chars, start);
    let line_end = if k > start && chars[k - 1] == '\r' {
        k - 1
    } else {
        k
    };
    let line = crate::text::subrange_vec(chars, start, line_end);
    let head = parse_line(&line, n);
    let (mut toks, mut errs) = if k < chars.len() {
        parse_lines_exec(chars, k + 1, n + 1)
    } else {
        (Vec::new(), Vec::new())
    };
    proof {
        if k >= chars@.len() {
            assert(tokens_view(Seq::<(Token, Loc)>::empty()) =~= Seq::<(TokenV, Loc)>::empty());
        }
    }
    match head {
        Ok(ts) => {
            let mut out = ts;
            let ghost out_pre = out@;
            let ghost rest_pre = toks@;
            out.append(&mut toks);
            proof {
                lemma_tokens_view(out@);
                lemma_tokens_view(out_pre);
                lemma_tokens_view(rest_pre);
                assert(out@ =~= out_pre + rest_pre);
                assert forall|j: int| 0 <= j < out@.len() implies tokens_view(out@)[j] == (
                tokens_view(out_pre) + tokens_view(rest_pre))[j] by {
                    if j < out_pre.len() {
                        assert(out@[j] == out_pre[j]);
                    } else {
                        assert(out@[j] == rest_pre[j - out_pre.len()]);
                    }
                }
                assert(tokens_view(out@) =~= tokens_view(out_pre) + tokens_view(rest_pre));
            }
            (out, errs)
        },
        Err(e) => {
            let mut es: Vec<ParseErr> = Vec::new();
            es.push(e);
            let ghost es_pre = es@;
            let ghost rest_pre = errs@;
            es.append(&mut errs);
            proof {
                assert(es@ =~= es_pre + rest_pre);
                let spec_errs = parse_lines_spec(chars@, start as int, n as int).1;
                assert forall|i: int| 0 <= i < es@.len() implies parse_err_view(#[trigger] es@[i])
                    == spec_errs[i] by {
                    if i > 0 {
                        assert(es@[i] == rest_pre[i - 1]);
                    }
                }
            }
            (toks, es)
        },
    }
}

/// A token as the tokenizer emits it: one of the lexical shapes, a memory
/// operand being an immediate with a resolvable register.
pub open spec fn lex_token_wf(t: TokenV) -> bool {
    match t {
        TokenV::Spacing => true,
        TokenV::Immediate(_) => true,
        TokenV::Register(_) => true,
        TokenV::Label(_) => true,
        TokenV::Memory(i, r) => {
            &&& (*i) is Immediate
            &&& (r matches Some(b) ==> ((*b) matches TokenV::Register(nm)
                && crate::env::reg_index_spec(nm) is Some))
        },
        _ => false,
    }
}

/// A token as the grouping pass leaves it among a mnemonic's arguments:
/// an operand whose register names resolve.
pub open spec fn arg_token_wf(t: TokenV) -> bool {
    match t {
        TokenV::Immediate(_) => true,
        TokenV::Symbol(_) => true,
        TokenV::Register(nm) => crate::env::reg_index_spec(nm) is Some,
        TokenV::Memory(i, r) => {
            &&& (*i) is Immediate
            &&& (r matches Some(b) ==> ((*b) matches TokenV::Register(nm)
                && crate::env::reg_index_spec(nm) is Some))
        },
        _ => false,
    }
}

/// A token as the parser returns it: a label, or a mnemonic whose arguments
/// are well-formed operands.
pub open spec fn top_level_wf(t: TokenV) -> bool {
    match t {
        TokenV::Label(_) => true,
        TokenV::Mnemonic(_, args) => forall|j: int|
            0 <= j < args.len() ==> arg_token_wf((#[trigger] args[j]).0),
        _ => false,
    }
}

/// The tokenizer only emits lexical token shapes.
proof fn lemma_tok_line_wf(line: Seq<char>, p: int, tokens: Seq<(TokenV, Loc)>, n: int)
    requires
        forall|k: int| 0 <= k < tokens.len() ==> lex_token_wf((#[trigger] tokens[k]).0),
    ensures
        tok_line(line, p, tokens, n) matches Ok(ts) ==> forall|k: int|
            0 <= k < ts.len() ==> lex_token_wf((#[trigger] ts[k]).0),
    decreases line.len() - p,
{
    if 0 <= p < line.len() {
        if p + 2 <= line.len() {
            lemma_scan_end(line, p + 2, CharClass::Hex);
            lemma_scan_end(line, p + 2, CharClass::Bin);
            lemma_scan_end(line, p + 2, CharClass::Oct);
        }
        lemma_scan_end(line, p + 1, CharClass::Dec);
        lemma_scan_end(line, p + 1, CharClass::RegName);
        lemma_scan_end(line, p + 1, CharClass::Ident);
        let c = line[p];
        if c == ' ' || c == '\t' {
            lemma_tok_line_wf(line, p + 1, tokens.push((TokenV::Spacing, col_loc(n, p, p))), n);
        } else if c == '#' {
        } else if c == '0' && p + 1 < line.len() && (line[p + 1] == 'x' || line[p + 1] == 'b'
            || line[p + 1] == 'o') {
            let (class, base): (CharClass, u32) = if line[p + 1] == 'x' {
                (CharClass::Hex, 16)
            } else if line[p + 1] == 'b' {
                (CharClass::Bin, 2)
            } else {
                (CharClass::Oct, 8)
            };
            let q = scan_end(line, p + 2, class);
            if num_boundary(line, q) {
                match crate::text::digits_val_spec(line.subrange(p + 2, q), base) {
                    Some(v) => {
                        lemma_tok_line_wf(
                            line,
                            q,
                            tokens.push((TokenV::Immediate(v), col_loc(n, p, q - 1))),
                            n,
                        );
                    },
                    None => {},
                }
            }
        } else if '0' <= c && c <= '9' {
            let q = scan_end(line, p + 1, CharClass::Dec);
            if num_boundary(line, q) {
                match crate::text::digits_val_spec(line.subrange(p, q), 10) {
                    Some(v) => {
                        lemma_tok_line_wf(
                            line,
                            q,
                            tokens.push((TokenV::Immediate(v), col_loc(n, p, q - 1))),
                            n,
                        );
                    },
                    None => {},
                }
            }
        } else if c == '-' {
            let q = scan_end(line, p + 1, CharClass::Dec);
            if num_boundary(line, q) {
                match crate::text::digits_val_spec(line.subrange(p + 1, q), 10) {
                    Some(d) => if d <= 0x8000_0000 {
                        lemma_tok_line_wf(
                            line,
                            q,
                            tokens.push(
                                (
                                    TokenV::Immediate(crate::text::neg_u32_spec(d)),
                                    col_loc(n, p, q - 1),
                                ),
                            ),
                            n,
                        );
                    },
                    None => {},
                }
            }
        } else if c == '(' {
            if tokens.len() > 0 && tokens.last().0 is Immediate {
                let imm = tokens.last();
                let popped = tokens.drop_last();
                let q = scan_end(line, p + 1, CharClass::RegName);
                let rname = trim_spaces(line.subrange(p + 1, q));
                if crate::env::reg_index_spec(rname) is Some && q < line.len() && line[q] == ')' {
                    assert forall|k: int| 0 <= k < popped.len() implies lex_token_wf(
                        (#[trigger] popped[k]).0,
                    ) by {
                        assert(popped[k] == tokens[k]);
                    }
                    lemma_tok_line_wf(
                        line,
                        q + 1,
                        popped.push(
                            (
                                TokenV::Memory(
                                    Box::new(imm.0),
                                    Some(Box::new(TokenV::Register(rname))),
                                ),
                                col_loc(n, imm.1.start as int, q),
                            ),
                        ),
                        n,
                    );
                }
            }
        } else if c == ')' {
        } else if ('a' <= c && c <= 'z') || ('A' <= c && c <= 'Z') || c == '_' {
            let q = scan_end(line, p + 1, CharClass::Ident);
            let name = line.subrange(p, q);
            if q < line.len() && line[q] == ':' {
                lemma_tok_line_wf(
                    line,
                    q + 1,
                    tokens.push((TokenV::Label(name), col_loc(n, p, q))),
                    n,
                );
            } else {
                lemma_tok_line_wf(
                    line,
                    q,
                    tokens.push((TokenV::Register(name), col_loc(n, p, q - 1))),
                    n,
                );
            }
        }
    }
}

/// Dropping spacing keeps the lexical shapes and leaves no spacing behind.
proof fn lemma_drop_spacing_wf(ts: Seq<(TokenV, Loc)>)
    requires
        forall|k: int| 0 <= k < ts.len() ==> lex_token_wf((#[trigger] ts[k]).0),
    ensures
        forall|k: int|
            0 <= k < drop_spacing(ts).len() ==> lex_token_wf((#[trigger] drop_spacing(ts)[k]).0)
                && !(drop_spacing(ts)[k].0 is Spacing),
    decreases ts.len(),
{
    if ts.len() > 0 {
        assert forall|k: int| 0 <= k < ts.drop_first().len() implies lex_token_wf(
            (#[trigger] ts.drop_first()[k]).0,
        ) by {
            assert(ts.drop_first()[k] == ts[k + 1]);
        }
        lemma_drop_spacing_wf(ts.drop_first());
    }
}

/// Reclassification turns well-formed operands into well-formed arguments.
proof fn lemma_classify_args_wf(run: Seq<(TokenV, Loc)>)
    requires
        forall|k: int|
            0 <= k < run.len() ==> lex_token_wf((#[trigger] run[k]).0) && is_operand_tok(run[k].0),
    ensures
        classify_args(run).len() == run.len(),
        forall|k: int|
            0 <= k < run.len() ==> arg_token_wf((#[trigger] classify_args(run)[k]).0),
    decreases run.len(),
{
    if run.len() > 0 {
        assert forall|k: int| 0 <= k < run.drop_first().len() implies lex_token_wf(
            (#[trigger] run.drop_first()[k]).0,
        ) && is_operand_tok(run.drop_first()[k].0) by {
            assert(run.drop_first()[k] == run[k + 1]);
        }
        lemma_classify_args_wf(run.drop_first());
        assert forall|k: int| 0 <= k < run.len() implies arg_token_wf(
            (#[trigger] classify_args(run)[k]).0,
        ) by {
            if k > 0 {
                assert(classify_args(run)[k] == classify_args(run.drop_first())[k - 1]);
            }
        }
    }
}

/// Grouping a spacing-free line of lexical tokens yields labels and
/// mnemonics with well-formed arguments.
proof fn lemma_group_line_wf(ts: Seq<(TokenV, Loc)>, acc: Seq<(TokenV, Loc)>)
    requires
        forall|k: int|
            0 <= k < ts.len() ==> lex_token_wf((#[trigger] ts[k]).0) && !(ts[k].0 is Spacing),
        forall|k: int| 0 <= k < acc.len() ==> top_level_wf((#[trigger] acc[k]).0),
    ensures
        group_line(ts, acc) matches Ok(out) ==> forall|k: int|
            0 <= k < out.len() ==> top_level_wf((#[trigger] out[k]).0),
    decreases ts.len(),
{
    if ts.len() > 0 {
        lemma_run_end(ts, 0);
        if !is_operand_tok(ts[0].0) {
            assert(ts[0].0 is Label);
            assert forall|k: int| 0 <= k < ts.drop_first().len() implies lex_token_wf(
                (#[trigger] ts.drop_first()[k]).0,
            ) && !(ts.drop_first()[k].0 is Spacing) by {
                assert(ts.drop_first()[k] == ts[k + 1]);
            }
            lemma_group_line_wf(ts.drop_first(), acc.push(ts[0]));
        } else {
            let q = run_end(ts, 0);
            let run = ts.subrange(0, q);
            match ts[0].0 {
                TokenV::Register(nm) => {
                    if !(crate::env::reg_index_spec(nm) is Some) {
                        assert forall|k: int| 0 <= k < run.drop_first().len() implies lex_token_wf(
                            (#[trigger] run.drop_first()[k]).0,
                        ) && is_operand_tok(run.drop_first()[k].0) by {
                            assert(run.drop_first()[k] == ts[k + 1]);
                        }
                        lemma_classify_args_wf(run.drop_first());
                        let rest = ts.subrange(q, ts.len() as int);
                        assert forall|k: int| 0 <= k < rest.len() implies lex_token_wf(
                            (#[trigger] rest[k]).0,
                        ) && !(rest[k].0 is Spacing) by {
                            assert(rest[k] == ts[k + q]);
                        }
                        lemma_group_line_wf(
                            rest,
                            acc.push(
                                (
                                    TokenV::Mnemonic(nm, classify_args(run.drop_first())),
                                    ts[0].1,
                                ),
                            ),
                        );
                    }
                },
                _ => {},
            }
        }
    }
}

/// A line's parse yields only labels and mnemonics with well-formed
/// arguments.
proof fn lemma_parse_line_wf(line: Seq<char>, n: int)
    ensures
        parse_line_spec(line, n) matches Ok(ts) ==> forall|k: int|
            0 <= k < ts.len() ==> top_level_wf((#[trigger] ts[k]).0),
{
    lemma_tok_line_wf(line, 0, Seq::empty(), n);
    match tok_line(line, 0, Seq::empty(), n) {
        Ok(ts) => {
            lemma_drop_spacing_wf(ts);
            lemma_group_line_wf(drop_spacing(ts), Seq::empty());
        },
        Err(_) => {},
    }
}

proof fn lemma_parse_lines_wf(input: Seq<char>, start: int, n: int)
    ensures
        forall|k: int|
            0 <= k < parse_lines_spec(input, start, n).0.len() ==> top_level_wf(
                (#[trigger] parse_lines_spec(input, start, n).0[k]).0,
            ),
    decreases input.len() - start,
{
    if 0 <= start < input.len() {
        lemma_find_nl(input, start);
        let k = find_nl(input, start);
        let line = if k > start && input[k - 1] == '\r' {
            input.subrange(start, k - 1)
        } else {
            input.subrange(start, k)
        };
        lemma_parse_line_wf(line, n);
        if k < input.len() {
            lemma_parse_lines_wf(input, k + 1, n + 1);
        }
        let rest = if k < input.len() {
            parse_lines_spec(input, k + 1, n + 1)
        } else {
            (Seq::<(TokenV, Loc)>::empty(), Seq::<ParseErrV>::empty())
        };
        match parse_line_spec(line, n) {
            Ok(ts) => {
                assert forall|j: int|
                    0 <= j < parse_lines_spec(input, start, n).0.len() implies top_level_wf(
                    (#[trigger] parse_lines_spec(input, start, n).0[j]).0,
                ) by {
                    if j < ts.len() {
                        assert(parse_lines_spec(input, start, n).0[j] == ts[j]);
                    } else {
                        assert(parse_lines_spec(input, start, n).0[j] == rest.0[j - ts.len()]);
                    }
                }
            },
            Err(_) => {},
        }
    }
}

/// What the parser hands on is ready for both assembler passes: every token
/// is a label or a mnemonic, and every mnemonic's arguments are well-formed
/// operands whose register names resolve.
pub proof fn lemma_parse_output_wf(input: Seq<char>)
    ensures
        parse_spec(input) matches Ok(ts) ==> forall|k: int|
            0 <= k < ts.len() ==> top_level_wf((#[trigger] ts[k]).0),
{
    lemma_parse_lines_wf(input, 0, 1);
}

/// Parses the input.
///
/// Returns the tokens with their locations if every line parses, or one
/// error record per failing line: the error, its location, the tokens read
/// on that line up to the error, and an optional note to show the user.
pub fn parse(env: &Env, input: &str) -> (r: Result<Vec<(Token, Loc)>, Vec<ParseErr>>)
    requires
        input@.len() < 0x0800_0000,
    ensures
        match r {
            Ok(v) => parse_spec(input@) matches Ok(ts) && tokens_view(v@) == ts,
            Err(es) => parse_spec(input@) matches Err(ss) && errs_match(es@, ss),
        },
{
    let chars = crate::text::str_chars(input);
    let (toks, errs) = parse_lines_exec(&chars, 0, 1);
    if errs.len() == 0 {
        proof {
            assert(errs@ =~= Seq::<ParseErr>::empty());
            assert(parse_lines_spec(input@, 0, 1).1 =~= Seq::<ParseErrV>::empty());
        }
        Ok(toks)
    } else {
        Err(errs)
    }
}

} // verus!
