//! The execution environment: integer and float register files, program
//! counter, stack, label table and instruction memory.
//!
//! Register x0 is hardwired to zero: writes to it are silently discarded,
//! and that is enforced in one place, the setter. Float registers are held
//! as their raw 32-bit patterns; the arithmetic on them is done by the
//! host layer, which reads and writes them through the accessors here.

use vstd::prelude::*;

use crate::err::{RuntimeErr, RuntimeErrV};
use crate::instructions::{
    handle_pseudo, handle_pseudo_spec, instruction, instruction_spec, with,
    with_kind_spec, Arg, Kind,
};
use crate::parser::{lemma_tokens_view, lemma_tokens_view_push, tokens_view, Loc, Token, TokenV};
use crate::text::{digits_val, digits_val_spec, str_chars, str_eq};

verus! {

broadcast use vstd::string::group_string_axioms;

/// A datum of a global definition.
#[derive(Debug)]
pub enum Variables {
    Byte(u8),
    Half(u16),
    Word(u32),
    DWord(u64),
    Str(String),
}

/// The simulated machine state.
#[derive(Debug)]
pub struct Env {
    /// The label records in insertion order; read through `label_map`.
    pub labels: Vec<(String, u32)>,
    pub registers: Vec<u32>,
    pub fregisters: Vec<u32>,
    pub prev_stacks: Vec<Vec<u32>>,
    pub stack: Vec<u32>,
    pub instructions: Vec<u32>,
    pub pc: u32,
}

/// The label table as a map from name to byte address; a later insertion of
/// the same name wins.
pub open spec fn labels_map_of(s: Seq<(String, u32)>) -> Map<Seq<char>, u32>
    decreases s.len(),
{
    if s.len() == 0 {
        Map::empty()
    } else {
        labels_map_of(s.drop_last()).insert(s.last().0@, s.last().1)
    }
}

/// The standard ABI register aliases, integer and float names sharing the
/// 0..31 index space.
pub open spec fn alias_spec(name: Seq<char>) -> Option<usize> {
    if name == "zero"@ {
        Some(0usize)
    } else if name == "ra"@ {
        Some(1usize)
    } else if name == "sp"@ {
        Some(2usize)
    } else if name == "gp"@ {
        Some(3usize)
    } else if name == "tp"@ {
        Some(4usize)
    } else if name == "t0"@ {
        Some(5usize)
    } else if name == "t1"@ {
        Some(6usize)
    } else if name == "t2"@ {
        Some(7usize)
    } else if name == "s0"@ {
        Some(8usize)
    } else if name == "fp"@ {
        Some(8usize)
    } else if name == "s1"@ {
        Some(9usize)
    } else if name == "a0"@ {
        Some(10usize)
    } else if name == "a1"@ {
        Some(11usize)
    } else if name == "a2"@ {
        Some(12usize)
    } else if name == "a3"@ {
        Some(13usize)
    } else if name == "a4"@ {
        Some(14usize)
    } else if name == "a5"@ {
        Some(15usize)
    } else if name == "a6"@ {
        Some(16usize)
    } else if name == "a7"@ {
        Some(17usize)
    } else if name == "s2"@ {
        Some(18usize)
    } else if name == "s3"@ {
        Some(19usize)
    } else if name == "s4"@ {
        Some(20usize)
    } else if name == "s5"@ {
        Some(21usize)
    } else if name == "s6"@ {
        Some(22usize)
    } else if name == "s7"@ {
        Some(23usize)
    } else if name == "s8"@ {
        Some(24usize)
    } else if name == "s9"@ {
        Some(25usize)
    } else if name == "s10"@ {
        Some(26usize)
    } else if name == "s11"@ {
        Some(27usize)
    } else if name == "t3"@ {
        Some(28usize)
    } else if name == "t4"@ {
        Some(29usize)
    } else if name == "t5"@ {
        Some(30usize)
    } else if name == "t6"@ {
        Some(31usize)
    } else if name == "ft0"@ {
        Some(0usize)
    } else if name == "ft1"@ {
        Some(1usize)
    } else if name == "ft2"@ {
        Some(2usize)
    } else if name == "ft3"@ {
        Some(3usize)
    } else if name == "ft4"@ {
        Some(4usize)
    } else if name == "ft5"@ {
        Some(5usize)
    } else if name == "ft6"@ {
        Some(6usize)
    } else if name == "ft7"@ {
        Some(7usize)
    } else if name == "fs0"@ {
        Some(8usize)
    } else if name == "fs1"@ {
        Some(9usize)
    } else if name == "fa0"@ {
        Some(10usize)
    } else if name == "fa1"@ {
        Some(11usize)
    } else if name == "fa2"@ {
        Some(12usize)
    } else if name == "fa3"@ {
        Some(13usize)
    } else if name == "fa4"@ {
        Some(14usize)
    } else if name == "fa5"@ {
        Some(15usize)
    } else if name == "fa6"@ {
        Some(16usize)
    } else if name == "fa7"@ {
        Some(17usize)
    } else if name == "fs2"@ {
        Some(18usize)
    } else if name == "fs3"@ {
        Some(19usize)
    } else if name == "fs4"@ {
        Some(20usize)
    } else if name == "fs5"@ {
        Some(21usize)
    } else if name == "fs6"@ {
        Some(22usize)
    } else if name == "fs7"@ {
        Some(23usize)
    } else if name == "fs8"@ {
        Some(24usize)
    } else if name == "fs9"@ {
        Some(25usize)
    } else if name == "fs10"@ {
        Some(26usize)
    } else if name == "fs11"@ {
        Some(27usize)
    } else if name == "ft8"@ {
        Some(28usize)
    } else if name == "ft9"@ {
        Some(29usize)
    } else if name == "ft10"@ {
        Some(30usize)
    } else if name == "ft11"@ {
        Some(31usize)
    } else {
        None
    }
}

/// Looks a register alias up.
fn alias_lookup(name: &str) -> (r: Option<usize>)
    ensures
        r == alias_spec(name@),
{
    if str_eq(name, "zero") {
        Some(0)
    } else if str_eq(name, "ra") {
        Some(1)
    } else if str_eq(name, "sp") {
        Some(2)
    } else if str_eq(name, "gp") {
        Some(3)
    } else if str_eq(name, "tp") {
        Some(4)
    } else if str_eq(name, "t0") {
        Some(5)
    } else if str_eq(name, "t1") {
        Some(6)
    } else if str_eq(name, "t2") {
        Some(7)
    } else if str_eq(name, "s0") {
        Some(8)
    } else if str_eq(name, "fp") {
        Some(8)
    } else if str_eq(name, "s1") {
        Some(9)
    } else if str_eq(name, "a0") {
        Some(10)
    } else if str_eq(name, "a1") {
        Some(11)
    } else if str_eq(name, "a2") {
        Some(12)
    } else if str_eq(name, "a3") {
        Some(13)
    } else if str_eq(name, "a4") {
        Some(14)
    } else if str_eq(name, "a5") {
        Some(15)
    } else if str_eq(name, "a6") {
        Some(16)
    } else if str_eq(name, "a7") {
        Some(17)
    } else if str_eq(name, "s2") {
        Some(18)
    } else if str_eq(name, "s3") {
        Some(19)
    } else if str_eq(name, "s4") {
        Some(20)
    } else if str_eq(name, "s5") {
        Some(21)
    } else if str_eq(name, "s6") {
        Some(22)
    } else if str_eq(name, "s7") {
        Some(23)
    } else if str_eq(name, "s8") {
        Some(24)
    } else if str_eq(name, "s9") {
        Some(25)
    } else if str_eq(name, "s10") {
        Some(26)
    } else if str_eq(name, "s11") {
        Some(27)
    } else if str_eq(name, "t3") {
        Some(28)
    } else if str_eq(name, "t4") {
        Some(29)
    } else if str_eq(name, "t5") {
        Some(30)
    } else if str_eq(name, "t6") {
        Some(31)
    } else if str_eq(name, "ft0") {
        Some(0)
    } else if str_eq(name, "ft1") {
        Some(1)
    } else if str_eq(name, "ft2") {
        Some(2)
    } else if str_eq(name, "ft3") {
        Some(3)
    } else if str_eq(name, "ft4") {
        Some(4)
    } else if str_eq(name, "ft5") {
        Some(5)
    } else if str_eq(name, "ft6") {
        Some(6)
    } else if str_eq(name, "ft7") {
        Some(7)
    } else if str_eq(name, "fs0") {
        Some(8)
    } else if str_eq(name, "fs1") {
        Some(9)
    } else if str_eq(name, "fa0") {
        Some(10)
    } else if str_eq(name, "fa1") {
        Some(11)
    } else if str_eq(name, "fa2") {
        Some(12)
    } else if str_eq(name, "fa3") {
        Some(13)
    } else if str_eq(name, "fa4") {
        Some(14)
    } else if str_eq(name, "fa5") {
        Some(15)
    } else if str_eq(name, "fa6") {
        Some(16)
    } else if str_eq(name, "fa7") {
        Some(17)
    } else if str_eq(name, "fs2") {
        Some(18)
    } else if str_eq(name, "fs3") {
        Some(19)
    } else if str_eq(name, "fs4") {
        Some(20)
    } else if str_eq(name, "fs5") {
        Some(21)
    } else if str_eq(name, "fs6") {
        Some(22)
    } else if str_eq(name, "fs7") {
        Some(23)
    } else if str_eq(name, "fs8") {
        Some(24)
    } else if str_eq(name, "fs9") {
        Some(25)
    } else if str_eq(name, "fs10") {
        Some(26)
    } else if str_eq(name, "fs11") {
        Some(27)
    } else if str_eq(name, "ft8") {
        Some(28)
    } else if str_eq(name, "ft9") {
        Some(29)
    } else if str_eq(name, "ft10") {
        Some(30)
    } else if str_eq(name, "ft11") {
        Some(31)
    } else {
        None
    }
}

/// The register index a name resolves to: `x0`, `xN` for N below 32 without
/// a leading zero, or an alias.
pub open spec fn reg_index_spec(name: Seq<char>) -> Option<usize> {
    if name == "x0"@ {
        Some(0usize)
    } else if name.len() >= 1 && name[0] == 'x' && !(name.len() >= 2 && name[1] == '0') {
        match digits_val_spec(name.skip(1), 10) {
            Some(n) => if n < 32 {
                Some(n as usize)
            } else {
                None
            },
            None => None,
        }
    } else {
        alias_spec(name)
    }
}

/// The float register index a name resolves to: `f0`, `fN` for N below 32
/// without a leading zero, or an alias (the float names ft0..ft11, fs0..fs11
/// and fa0..fa7 among them).
pub open spec fn freg_index_spec(name: Seq<char>) -> Option<usize> {
    let d = digits_val_spec(name.skip(1), 10);
    if name == "f0"@ {
        Some(0usize)
    } else if name.len() >= 1 && name[0] == 'f' && !(name.len() >= 2 && name[1] == '0') && d
        is Some && d.unwrap() < 32 {
        Some(d.unwrap() as usize)
    } else {
        alias_spec(name)
    }
}

/// Parses the digits after a one-letter register prefix into an index
/// below 32.
fn numbered_index(chars: &Vec<char>) -> (r: Option<usize>)
    requires
        chars@.len() >= 1,
    ensures
        r == (match digits_val_spec(chars@.skip(1), 10) {
            Some(n) => if n < 32 {
                Some(n as usize)
            } else {
                None::<usize>
            },
            None => None::<usize>,
        }),
{
    let mut tail: Vec<char> = Vec::new();
    let mut i: usize = 1;
    while i < chars.len()
        invariant
            1 <= i <= chars@.len(),
            tail@ == chars@.subrange(1, i as int),
        decreases chars@.len() - i,
    {
        tail.push(chars[i]);
        i += 1;
        proof {
            assert(tail@ =~= chars@.subrange(1, i as int));
        }
    }
    proof {
        assert(tail@ =~= chars@.skip(1));
    }
    match digits_val(&tail, 10) {
        Some(n) => if n < 32 {
            Some(n as usize)
        } else {
            None
        },
        None => None,
    }
}

/// Resolves an integer register name of the form `xN`; any other name goes
/// to the alias table.
fn resolve_numbered(name: &str, first: char) -> (r: Option<usize>)
    ensures
        r == if name@.len() >= 1 && name@[0] == first && !(name@.len() >= 2 && name@[1] == '0') {
            match digits_val_spec(name@.skip(1), 10) {
                Some(n) => if n < 32 {
                    Some(n as usize)
                } else {
                    None
                },
                None => None,
            }
        } else {
            alias_spec(name@)
        },
{
    let chars = str_chars(name);
    if chars.len() >= 1 && chars[0] == first && !(chars.len() >= 2 && chars[1] == '0') {
        numbered_index(&chars)
    } else {
        alias_lookup(name)
    }
}

/// Resolves an integer register name: `x0`, `xN`, or an alias.
pub fn resolve_register_name(reg: &str) -> (r: Option<usize>)
    ensures
        r == reg_index_spec(reg@),
        r is Some ==> r.unwrap() < 32,
{
    if str_eq(reg, "x0") {
        Some(0)
    } else {
        let r = resolve_numbered(reg, 'x');
        proof {
            lemma_alias_spec_bound(reg@);
        }
        r
    }
}

impl Env {
    /// Basic shape of the machine state: 32 registers in each file, and x0
    /// reads as zero.
    pub open spec fn wf(self) -> bool {
        &&& self.registers@.len() == 32
        &&& self.registers@[0] == 0
        &&& self.fregisters@.len() == 32
    }

    /// The label table as a map from name to byte address.
    pub open spec fn label_map(self) -> Map<Seq<char>, u32> {
        labels_map_of(self.labels@)
    }

    /// All fields but the integer register file unchanged.
    pub open spec fn frame_registers(self, new: Env) -> bool {
        &&& new.fregisters == self.fregisters
        &&& new.prev_stacks == self.prev_stacks
        &&& new.stack == self.stack
        &&& new.instructions == self.instructions
        &&& new.pc == self.pc
        &&& new.label_map() == self.label_map()
    }

    /// All fields but the float register file unchanged.
    pub open spec fn frame_fregisters(self, new: Env) -> bool {
        &&& new.registers == self.registers
        &&& new.prev_stacks == self.prev_stacks
        &&& new.stack == self.stack
        &&& new.instructions == self.instructions
        &&& new.pc == self.pc
        &&& new.label_map() == self.label_map()
    }

    /// All fields but the label table unchanged.
    pub open spec fn frame_labels(self, new: Env) -> bool {
        &&& new.registers == self.registers
        &&& new.fregisters == self.fregisters
        &&& new.prev_stacks == self.prev_stacks
        &&& new.stack == self.stack
        &&& new.instructions == self.instructions
        &&& new.pc == self.pc
    }

    /// A fresh environment: everything zeroed, the stack one thousand
    /// twenty-four words deep, no labels, no instructions.
    pub fn new() -> (r: Self)
        ensures
            r.wf(),
            forall|i: int| 0 <= i < 32 ==> r.registers@[i] == 0,
            forall|i: int| 0 <= i < 32 ==> r.fregisters@[i] == 0,
            r.pc == 0,
            r.label_map() == Map::<Seq<char>, u32>::empty(),
            r.instructions@.len() == 0,
            r.stack@.len() == 1024,
            forall|i: int| 0 <= i < 1024 ==> r.stack@[i] == 0,
            r.prev_stacks@.len() == 0,
    {
        let registers = zero_words(32);
        let fregisters = zero_words(32);
        let stack = zero_words(1024);
        Env {
            labels: Vec::new(),
            registers,
            fregisters,
            prev_stacks: Vec::new(),
            stack,
            instructions: Vec::new(),
            pc: 0,
        }
    }

    /// Writes an integer register; a write to x0 is discarded.
    pub fn set_register(&mut self, reg: usize, value: u32)
        requires
            old(self).wf(),
            reg < 32,
        ensures
            final(self).wf(),
            final(self).registers@ == if reg == 0 {
                old(self).registers@
            } else {
                old(self).registers@.update(reg as int, value)
            },
            old(self).frame_registers(*final(self)),
    {
        if reg == 0 {
            return;
        }
        self.registers[reg] = value;
    }

    /// Reads an integer register.
    pub fn get_register(&self, reg: usize) -> (r: u32)
        requires
            self.wf(),
            reg < 32,
        ensures
            r == self.registers@[reg as int],
    {
        self.registers[reg]
    }

    /// Writes a float register, as a raw 32-bit pattern.
    pub fn set_fregister(&mut self, reg: usize, value: u32)
        requires
            old(self).wf(),
            reg < 32,
        ensures
            final(self).wf(),
            final(self).fregisters@ == old(self).fregisters@.update(reg as int, value),
            old(self).frame_fregisters(*final(self)),
    {
        self.fregisters[reg] = value;
    }

    /// Reads a float register, as a raw 32-bit pattern.
    pub fn get_fregister(&self, reg: usize) -> (r: u32)
        requires
            self.wf(),
            reg < 32,
        ensures
            r == self.fregisters@[reg as int],
    {
        self.fregisters[reg]
    }

    /// Resolves an integer register name.
    pub fn str_to_register(&self, reg: &str) -> (r: Option<usize>)
        ensures
            r == reg_index_spec(reg@),
            r is Some ==> r.unwrap() < 32,
    {
        resolve_register_name(reg)
    }

    /// Resolves a float register name: `f0`, `fN`, or an alias.
    pub fn str_to_fregister(&self, reg: &str) -> (r: Option<usize>)
        ensures
            r == freg_index_spec(reg@),
            r is Some ==> r.unwrap() < 32,
    {
        if str_eq(reg, "f0") {
            return Some(0);
        }
        let chars = str_chars(reg);
        if chars.len() >= 1 && chars[0] == 'f' && !(chars.len() >= 2 && chars[1] == '0') {
            match numbered_index(&chars) {
                Some(n) => {
                    return Some(n);
                },
                None => {},
            }
        }
        let r = alias_lookup(reg);
        proof {
            lemma_alias_spec_bound(reg@);
        }
        r
    }

    /// Records a label's byte address; a repeated name takes the new value.
    pub fn add_label(&mut self, label: &str, value: u32)
        requires
            old(self).wf(),
        ensures
            final(self).wf(),
            final(self).label_map() == old(self).label_map().insert(label@, value),
            old(self).frame_labels(*final(self)),
    {
        let owned: String = label.to_owned();
        self.labels.push((owned, value));
        proof {
            assert(self.labels@.drop_last() =~= old(self).labels@);
        }
    }

    /// Looks a label's byte address up.
    pub fn get_label(&self, label: &str) -> (r: Option<u32>)
        ensures
            r == if self.label_map().dom().contains(label@) {
                Some(self.label_map()[label@])
            } else {
                None::<u32>
            },
    {
        let n = self.labels.len();
        proof {
            assert(self.labels@.subrange(0, n as int) =~= self.labels@);
        }
        label_lookup(&self.labels, n, label)
    }
}

/// Searches the newest `n` label records, newest first.
fn label_lookup(labels: &Vec<(String, u32)>, n: usize, label: &str) -> (r: Option<u32>)
    requires
        n <= labels@.len(),
    ensures
        r == if labels_map_of(labels@.subrange(0, n as int)).dom().contains(label@) {
            Some(labels_map_of(labels@.subrange(0, n as int))[label@])
        } else {
            None::<u32>
        },
    decreases n,
{
    if n == 0 {
        None
    } else {
        let entry = &labels[n - 1];
        proof {
            assert(labels@.subrange(0, n as int).drop_last() =~= labels@.subrange(0, n - 1 as int));
            assert(labels@.subrange(0, n as int).last() == labels@[n - 1]);
        }
        if str_eq(entry.0.as_str(), label) {
            Some(entry.1)
        } else {
            label_lookup(labels, n - 1, label)
        }
    }
}

/// Every alias resolves below 32.
proof fn lemma_alias_spec_bound(name: Seq<char>)
    ensures
        alias_spec(name) is Some ==> alias_spec(name).unwrap() < 32,
{
}

/// A vector of `n` zero words.
fn zero_words(n: usize) -> (r: Vec<u32>)
    ensures
        r@.len() == n,
        forall|i: int| 0 <= i < n ==> r@[i] == 0,
{
    let mut r: Vec<u32> = Vec::new();
    let mut i: usize = 0;
    while i < n
        invariant
            i <= n,
            r@.len() == i,
            forall|j: int| 0 <= j < i ==> r@[j] == 0,
        decreases n - i,
    {
        r.push(0);
        i += 1;
    }
    r
}

/// An assembly error: the error, the location it points at, and an optional
/// extra note.
pub type AsmErr = (RuntimeErr, Loc, Option<String>);

/// The mathematical form of an assembly error.
pub type AsmErrV = (RuntimeErrV, Loc, Option<Seq<char>>);

/// 32-bit wrapping subtraction, for PC-relative label offsets.
pub open spec fn wsub(x: u32, y: u32) -> u32 {
    vstd::wrapping::u32_specs::wrapping_sub(x, y)
}

/// The register names inside an argument resolve, and a memory operand is
/// built from an immediate and a register. The parser's grouping pass
/// guarantees this of every mnemonic it emits.
pub open spec fn arg_resolvable(a: Arg, t: TokenV) -> bool {
    match a {
        Arg::Register(_) => t matches TokenV::Register(r) ==> reg_index_spec(r) is Some,
        Arg::Memory => t matches TokenV::Memory(i, reg) ==> {
            &&& (*i) is Immediate
            &&& reg matches Some(b) ==> ((*b) matches TokenV::Register(r2) && reg_index_spec(r2)
                is Some)
        },
        _ => true,
    }
}

/// What `assemble_op` asks of a mnemonic's arguments.
pub open spec fn mnemonic_args_ok(name: Seq<char>, args: Seq<(TokenV, Loc)>) -> bool {
    instruction_spec(name) matches Some(entry) ==> forall|k: int|
        0 <= k < args.len() && k < entry.1.len() ==> arg_resolvable(
            entry.1[k],
            (#[trigger] args[k]).0,
        )
}

/// Every register slot of a table signature is one of rd, ra, rb, rc.
pub open spec fn sig_ids_ok(sig: Seq<Arg>) -> bool {
    forall|k: int|
        0 <= k < sig.len() ==> ((#[trigger] sig[k]) matches Arg::Register(id) ==> id < 4)
}

/// The table only places arguments into the four register slots.
pub proof fn lemma_table_sig_ids(name: Seq<char>)
    ensures
        instruction_spec(name) matches Some(entry) ==> sig_ids_ok(entry.1),
{
}

/// Walks the signature from slot `k` with the accumulated immediate and
/// register vector, and yields the final immediate and registers, or the
/// first error: an unresolved symbol is `LabelNotFound`, a token of the
/// wrong kind a `TypeMismatch`.
pub open spec fn resolve_args_from(
    sig: Seq<Arg>,
    args: Seq<(TokenV, Loc)>,
    labels: Map<Seq<char>, u32>,
    mem_offset: u32,
    k: int,
    imm: u32,
    regs: Seq<usize>,
) -> Result<(u32, Seq<usize>), AsmErrV>
    decreases sig.len() - k,
{
    if k < 0 || k >= sig.len() || k >= args.len() {
        Ok((imm, regs))
    } else {
        let t = args[k].0;
        let l = args[k].1;
        match sig[k] {
            Arg::Immediate => match t {
                TokenV::Immediate(i) => resolve_args_from(
                    sig,
                    args,
                    labels,
                    mem_offset,
                    k + 1,
                    i,
                    regs,
                ),
                TokenV::Symbol(s) => if labels.dom().contains(s) {
                    resolve_args_from(
                        sig,
                        args,
                        labels,
                        mem_offset,
                        k + 1,
                        wsub(labels[s], mem_offset),
                        regs,
                    )
                } else {
                    Err((RuntimeErrV::LabelNotFound, l, None))
                },
                _ => Err((RuntimeErrV::TypeMismatch(t.kind_spec(), "immediate"@), l, None)),
            },
            Arg::Register(id) => match t {
                TokenV::Register(r) => resolve_args_from(
                    sig,
                    args,
                    labels,
                    mem_offset,
                    k + 1,
                    imm,
                    regs.update(id as int, reg_index_spec(r).unwrap()),
                ),
                _ => Err((RuntimeErrV::TypeMismatch(t.kind_spec(), "register"@), l, None)),
            },
            Arg::Memory => match t {
                TokenV::Memory(i, reg) => {
                    let regs2 = match reg {
                        Some(b) => regs.update(
                            1,
                            reg_index_spec((*b)->Register_0).unwrap(),
                        ),
                        None => regs,
                    };
                    resolve_args_from(
                        sig,
                        args,
                        labels,
                        mem_offset,
                        k + 1,
                        (*i)->Immediate_0,
                        regs2,
                    )
                },
                _ => Err((RuntimeErrV::TypeMismatch(t.kind_spec(), "memory"@), l, None)),
            },
            Arg::Symbol => match t {
                TokenV::Symbol(s) => if labels.dom().contains(s) {
                    resolve_args_from(
                        sig,
                        args,
                        labels,
                        mem_offset,
                        k + 1,
                        wsub(labels[s], mem_offset),
                        regs,
                    )
                } else {
                    Err((RuntimeErrV::LabelNotFound, l, None))
                },
                TokenV::Immediate(i) => resolve_args_from(
                    sig,
                    args,
                    labels,
                    mem_offset,
                    k + 1,
                    i,
                    regs,
                ),
                _ => Err((RuntimeErrV::TypeMismatch(t.kind_spec(), "symbol"@), l, None)),
            },
        }
    }
}

/// What assembling one mnemonic yields: the emitted words, or the first
/// error. Label references resolve PC-relative, as the label's address
/// minus the mnemonic's own byte offset, wrapping.
pub open spec fn assemble_mnemonic_spec(
    labels: Map<Seq<char>, u32>,
    name: Seq<char>,
    args: Seq<(TokenV, Loc)>,
    loc: Loc,
) -> Result<Seq<u32>, AsmErrV> {
    match instruction_spec(name) {
        None => Err(
            (RuntimeErrV::InvalidMnemonic, loc, Some("no implementation exists"@)),
        ),
        Some(entry) => {
            let (kind, sig) = entry;
            if args.len() != sig.len() {
                Err(
                    (
                        RuntimeErrV::InvalidOpArity(name, args.len() as int, sig.len() as int),
                        loc,
                        None,
                    ),
                )
            } else {
                match resolve_args_from(
                    sig,
                    args,
                    labels,
                    loc.mem_offset as u32,
                    0,
                    0,
                    seq![0usize, 0usize, 0usize, 0usize],
                ) {
                    Err(e) => Err(e),
                    Ok((imm, regs)) => if kind is Pseudo {
                        Ok(
                            handle_pseudo_spec(kind, sig, imm, regs).map_values(
                                |p: (Kind, Seq<Arg>)| p.0.word_spec(),
                            ),
                        )
                    } else {
                        Ok(seq![with_kind_spec(kind, imm, regs).word_spec()])
                    },
                }
            }
        },
    }
}

/// How many real instructions a table entry stands for when expanded with
/// zero operands (the speculative count of the first pass).
pub open spec fn pseudo_count(kind: Kind, sig: Seq<Arg>) -> int {
    handle_pseudo_spec(kind, sig, 0, seq![0usize, 0usize, 0usize, 0usize]).len() as int
}

/// Every expansion yields one or two instructions.
pub proof fn lemma_expansion_len(kind: Kind, sig: Seq<Arg>, imm: u32, regs: Seq<usize>)
    ensures
        1 <= handle_pseudo_spec(kind, sig, imm, regs).len() <= 2,
{
}

/// A token the first pass accepts: a mnemonic or a label definition.
pub open spec fn top_level_token(t: TokenV) -> bool {
    t is Mnemonic || t is Label
}

/// The first pass over a token stream, with the running byte offset and the
/// label table so far: each mnemonic's location receives the byte offset of
/// its first word (a pseudo-instruction is counted by its zero-operand
/// expansion), and each label is recorded at the current offset.
pub open spec fn pass1_spec(
    tokens: Seq<(TokenV, Loc)>,
    i: int,
    labels: Map<Seq<char>, u32>,
) -> (Seq<(TokenV, Loc)>, Map<Seq<char>, u32>)
    decreases tokens.len(),
{
    if tokens.len() == 0 {
        (Seq::empty(), labels)
    } else {
        let t = tokens[0].0;
        let loc = tokens[0].1;
        match t {
            TokenV::Mnemonic(name, _args) => match instruction_spec(name) {
                Some(entry) => {
                    let n = if entry.0 is Pseudo {
                        pseudo_count(entry.0, entry.1)
                    } else {
                        1
                    };
                    let loc2 = Loc { mem_offset: i as usize, ..loc };
                    let rest = pass1_spec(tokens.drop_first(), i + 4 * n, labels);
                    (seq![(t, loc2)] + rest.0, rest.1)
                },
                None => {
                    let rest = pass1_spec(tokens.drop_first(), i, labels);
                    (seq![(t, loc)] + rest.0, rest.1)
                },
            },
            TokenV::Label(name) => {
                let rest = pass1_spec(tokens.drop_first(), i, labels.insert(name, i as u32));
                (seq![(t, loc)] + rest.0, rest.1)
            },
            _ => {
                let rest = pass1_spec(tokens.drop_first(), i, labels);
                (seq![(t, loc)] + rest.0, rest.1)
            },
        }
    }
}

impl Env {
    /// The first pass: walks the tokens with a running byte offset, writes
    /// each mnemonic's offset into its location, and records each label at
    /// the offset of the instruction that follows it. A pseudo-instruction
    /// advances the offset by its zero-operand expansion count.
    pub fn handle_mem_offsets(&mut self, tokens: Vec<(Token, Loc)>) -> (r: Vec<(Token, Loc)>)
        requires
            old(self).wf(),
            tokens@.len() <= 0x0100_0000,
            forall|k: int|
                0 <= k < tokens@.len() ==> top_level_token(
                    #[trigger] tokens_view(tokens@)[k].0,
                ),
        ensures
            final(self).wf(),
            old(self).frame_labels(*final(self)),
            final(self).label_map() == pass1_spec(
                tokens_view(tokens@),
                0,
                old(self).label_map(),
            ).1,
            tokens_view(r@) == pass1_spec(tokens_view(tokens@), 0, old(self).label_map()).0,
    {
        let ghost tokens0 = tokens_view(tokens@);
        let ghost labels0 = old(self).label_map();
        let total = tokens.len();
        let mut rem = tokens;
        let mut out: Vec<(Token, Loc)> = Vec::new();
        let mut i: usize = 0;
        proof {
            lemma_tokens_view(rem@);
            assert(tokens_view(out@) =~= Seq::<(TokenV, Loc)>::empty());
            assert(tokens_view(out@) + pass1_spec(tokens0, 0, labels0).0 =~= pass1_spec(
                tokens0,
                0,
                labels0,
            ).0);
        }
        while rem.len() > 0
            invariant
                self.wf(),
                self.registers == old(self).registers,
                self.fregisters == old(self).fregisters,
                self.prev_stacks == old(self).prev_stacks,
                self.stack == old(self).stack,
                self.instructions == old(self).instructions,
                self.pc == old(self).pc,
                tokens0.len() <= 0x0100_0000,
                rem@.len() <= tokens0.len(),
                i <= 8 * (tokens0.len() - rem@.len()),
                forall|k: int|
                    0 <= k < rem@.len() ==> top_level_token(#[trigger] tokens_view(rem@)[k].0),
                pass1_spec(tokens0, 0, labels0).1 == pass1_spec(
                    tokens_view(rem@),
                    i as int,
                    self.label_map(),
                ).1,
                pass1_spec(tokens0, 0, labels0).0 == tokens_view(out@) + pass1_spec(
                    tokens_view(rem@),
                    i as int,
                    self.label_map(),
                ).0,
            decreases rem@.len(),
        {
            let ghost rem_pre = rem@;
            let ghost i_pre = i as int;
            let ghost labels_pre = self.label_map();
            let (t, loc) = rem.remove(0);
            proof {
                lemma_tokens_view(rem_pre);
                lemma_tokens_view(rem@);
                assert(rem@ =~= rem_pre.drop_first());
                assert(tokens_view(rem_pre)[0] == (t.view(), loc));
                assert(tokens_view(rem_pre).drop_first() =~= tokens_view(rem@));
                assert(top_level_token(tokens_view(rem_pre)[0].0));
                assert forall|k: int| 0 <= k < rem@.len() implies top_level_token(
                    #[trigger] tokens_view(rem@)[k].0,
                ) by {
                    assert(tokens_view(rem@)[k] == tokens_view(rem_pre)[k + 1]);
                }
            }
            let new_loc: Loc = match &t {
                Token::Mnemonic(name, _args) => {
                    match instruction(name.as_str()) {
                        Some(entry) => {
                            let ghost kind = entry.0;
                            let ghost sig = instruction_spec(name@).unwrap().1;
                            let is_pseudo = match &entry.0 {
                                Kind::Pseudo(_) => true,
                                _ => false,
                            };
                            let n: usize = if is_pseudo {
                                let expansion = handle_pseudo(entry, 0, vec![0, 0, 0, 0]);
                                proof {
                                    lemma_expansion_len(kind, sig, 0, seq![0usize, 0usize, 0usize, 0usize]);
                                }
                                expansion.len()
                            } else {
                                1
                            };
                            let new_loc = Loc { mem_offset: i, ..loc };
                            i = i + 4 * n;
                            new_loc
                        },
                        None => loc,
                    }
                },
                Token::Label(name) => {
                    self.add_label(name.as_str(), i as u32);
                    loc
                },
                _ => vstd::pervasive::unreached(),
            };
            proof {
                lemma_tokens_view_push(out@, (t, new_loc));
            }
            out.push((t, new_loc));
            proof {
                assert(pass1_spec(tokens0, 0, labels0).0 =~= tokens_view(out@) + pass1_spec(
                    tokens_view(rem@),
                    i as int,
                    self.label_map(),
                ).0);
            }
        }
        proof {
            assert(tokens_view(rem@).len() == 0);
            assert(tokens_view(out@) + pass1_spec(tokens_view(rem@), i as int, self.label_map()).0
                =~= tokens_view(out@));
        }
        out
    }

    /// Assembles one mnemonic token into its 32-bit words. Reads the label
    /// table and changes nothing.
    pub fn assemble_op(&mut self, op: (Token, Loc)) -> (r: Result<Vec<u32>, AsmErr>)
        requires
            old(self).wf(),
            op.0 is Mnemonic,
            op.0.view() matches TokenV::Mnemonic(name, vargs) ==> mnemonic_args_ok(name, vargs),
        ensures
            *final(self) == *old(self),
            ({
                let spec_r = assemble_mnemonic_spec(
                    old(self).label_map(),
                    op.0.view()->Mnemonic_0,
                    op.0.view()->Mnemonic_1,
                    op.1,
                );
                match r {
                    Ok(words) => spec_r matches Ok(ws) && words@ == ws,
                    Err(e) => spec_r matches Err(ev) && ev == (
                        e.0.view(),
                        e.1,
                        crate::parser::note_view(e.2),
                    ),
                }
            }),
    {
        let (tok, loc) = op;
        let (name, args) = match tok {
            Token::Mnemonic(name, args) => (name, args),
            _ => vstd::pervasive::unreached(),
        };
        proof {
            lemma_tokens_view(args@);
        }
        let ghost vargs = tokens_view(args@);
        let entry = match instruction(name.as_str()) {
            Some(entry) => entry,
            None => {
                return Err(
                    (
                        RuntimeErr::InvalidMnemonic,
                        loc,
                        Some(String::from_str("no implementation exists")),
                    ),
                );
            },
        };
        if args.len() != entry.1.len() {
            let expected = entry.1.len();
            return Err((RuntimeErr::InvalidOpArity(name, args.len(), expected), loc, None));
        }
        proof {
            lemma_table_sig_ids(name@);
        }
        let sig = &entry.1;
        let mem_offset = loc.mem_offset as u32;
        let mut imm: u32 = 0;
        let mut regs: Vec<usize> = vec![0, 0, 0, 0];
        let mut k: usize = 0;
        while k < sig.len()
            invariant
                self.wf(),
                *self == *old(self),
                op.0.view() == TokenV::Mnemonic(name@, vargs),
                op.1 == loc,
                instruction_spec(name@) is Some,
                sig@ == instruction_spec(name@).unwrap().1,
                vargs == tokens_view(args@),
                mnemonic_args_ok(name@, vargs),
                sig_ids_ok(sig@),
                args@.len() == sig@.len(),
                vargs.len() == args@.len(),
                forall|i: int|
                    0 <= i < args@.len() ==> vargs[i] == (
                        (#[trigger] args@[i]).0.view(),
                        args@[i].1,
                    ),
                k <= sig@.len(),
                regs@.len() == 4,
                mem_offset == loc.mem_offset as u32,
                resolve_args_from(
                    sig@,
                    vargs,
                    self.label_map(),
                    mem_offset,
                    0,
                    0,
                    seq![0usize, 0usize, 0usize, 0usize],
                ) == resolve_args_from(
                    sig@,
                    vargs,
                    self.label_map(),
                    mem_offset,
                    k as int,
                    imm,
                    regs@,
                ),
            decreases sig@.len() - k,
        {
            let l = args[k].1;
            proof {
                assert(vargs[k as int] == (args@[k as int].0.view(), args@[k as int].1));
                assert(arg_resolvable(sig@[k as int], vargs[k as int].0));
            }
            match (&sig[k], &args[k].0) {
                (Arg::Immediate, Token::Immediate(i)) => {
                    imm = *i;
                },
                (Arg::Immediate, Token::Symbol(s)) => {
                    match self.get_label(s.as_str()) {
                        Some(v) => {
                            imm = v.wrapping_sub(mem_offset);
                        },
                        None => {
                            return Err((RuntimeErr::LabelNotFound, l, None));
                        },
                    }
                },
                (Arg::Register(id), Token::Register(rname)) => {
                    let idx = match self.str_to_register(rname.as_str()) {
                        Some(n) => n,
                        None => vstd::pervasive::unreached(),
                    };
                    let id = *id;
                    regs[id] = idx;
                },
                (Arg::Memory, Token::Memory(imm_tok, reg_opt)) => {
                    proof {
                        let t0 = args@[k as int].0;
                        assert(t0.view() == vargs[k as int].0);
                        assert(arg_resolvable(sig@[k as int], t0.view()));
                        assert(t0 matches Token::Memory(bi, br) && bi == *imm_tok && br
                            == *reg_opt);
                        assert(t0.view() matches TokenV::Memory(vi, vr) && *vi == (
                        **imm_tok).view() && vr == (match *reg_opt {
                            Some(t) => Some(Box::new((*t).view())),
                            None => None,
                        }));
                    }
                    match reg_opt {
                        Some(rbox) => {
                            proof {
                                assert((**rbox).view() matches TokenV::Register(rn)
                                    && reg_index_spec(rn) is Some);
                            }
                            let rname = match &**rbox {
                                Token::Register(rname) => rname,
                                _ => vstd::pervasive::unreached(),
                            };
                            let idx = match self.str_to_register(rname.as_str()) {
                                Some(n) => n,
                                None => vstd::pervasive::unreached(),
                            };
                            regs[1] = idx;
                        },
                        None => {},
                    }
                    proof {
                        assert((**imm_tok).view() is Immediate);
                    }
                    match &**imm_tok {
                        Token::Immediate(i) => {
                            imm = *i;
                        },
                        _ => {
                            vstd::pervasive::unreached::<()>();
                        },
                    }
                },
                (Arg::Symbol, Token::Symbol(s)) => {
                    match self.get_label(s.as_str()) {
                        Some(v) => {
                            imm = v.wrapping_sub(mem_offset);
                        },
                        None => {
                            return Err((RuntimeErr::LabelNotFound, l, None));
                        },
                    }
                },
                (Arg::Symbol, Token::Immediate(i)) => {
                    imm = *i;
                },
                (expected, actual) => {
                    let actual_kind = String::from_str(actual.kind());
                    return Err((RuntimeErr::TypeMismatch(actual_kind, expected.kind()), l, None));
                },
            }
            k += 1;
        }
        let ghost resolved = resolve_args_from(
            sig@,
            vargs,
            self.label_map(),
            mem_offset,
            0,
            0,
            seq![0usize, 0usize, 0usize, 0usize],
        );
        proof {
            assert(resolved == Ok::<_, AsmErrV>((imm, regs@)));
        }
        let is_pseudo = match &entry.0 {
            Kind::Pseudo(_) => true,
            _ => false,
        };
        if is_pseudo {
            let expansion = handle_pseudo(entry, imm, regs);
            let mut words: Vec<u32> = Vec::new();
            let ghost hp = handle_pseudo_spec(
                instruction_spec(name@).unwrap().0,
                instruction_spec(name@).unwrap().1,
                imm,
                regs@,
            );
            let mut j: usize = 0;
            while j < expansion.len()
                invariant
                    crate::instructions::ops_match(expansion@, hp),
                    j <= expansion@.len(),
                    words@.len() == j,
                    forall|m: int| 0 <= m < j ==> words@[m] == hp[m].0.word_spec(),
                decreases expansion@.len() - j,
            {
                words.push(expansion[j].0.to_u32());
                j += 1;
            }
            proof {
                assert(words@ =~= hp.map_values(|p: (Kind, Seq<Arg>)| p.0.word_spec()));
            }
            Ok(words)
        } else {
            let placed = with(entry, imm, regs);
            let word = placed.0.to_u32();
            let words = vec![word];
            proof {
                assert(words@ =~= seq![
                    with_kind_spec(instruction_spec(name@).unwrap().0, imm, regs@).word_spec(),
                ]);
            }
            Ok(words)
        }
    }
}

} // verus!
