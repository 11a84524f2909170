//! Rendering of instructions as assembly text.

use vstd::prelude::*;
use crate::codegen::{Arg, Inst, Reg};
use crate::compiler_context::CompilerContext;
use crate::interner::{Symbol, symbol_text};
use crate::text::{bytes_of, push_bytes, push_signed_decimal, push_str, signed_decimal_text};

verus! {

pub open spec fn reg_text(reg: Reg) -> Seq<u8> {
    match reg {
        Reg::Eax => bytes_of("eax"),
        Reg::Rbp => bytes_of("rbp"),
        Reg::Rsp => bytes_of("rsp"),
    }
}

/// An operand: a register by its name, an immediate in decimal, a stack slot
/// as a sized pointer dereference of the base register and a signed offset.
pub open spec fn arg_text(arg: Arg) -> Seq<u8> {
    match arg {
        Arg::Imm(value) => signed_decimal_text(value),
        Arg::Reg(reg) => reg_text(reg),
        Arg::MemOffset { base, offset } => bytes_of("DWORD PTR [") + reg_text(base) + (if offset
            >= 0 {
            bytes_of("+")
        } else {
            Seq::empty()
        }) + signed_decimal_text(offset) + bytes_of("]"),
    }
}

/// A line for two operands: the mnemonic, the target, a comma, the source.
pub open spec fn two_operand_text(mnemonic: Seq<u8>, target: Arg, source: Arg) -> Seq<u8> {
    mnemonic + arg_text(target) + bytes_of(", ") + arg_text(source)
}

/// The line of an instruction, without its line end: a label stands at the
/// margin with a colon after it, every other instruction is indented.
pub open spec fn inst_text(inst: Inst, names: Seq<Seq<u8>>) -> Seq<u8> {
    match inst {
        Inst::Label { name } => symbol_text(names, name) + bytes_of(":"),
        Inst::Mov { target, source } => two_operand_text(bytes_of("    mov "), target, source),
        Inst::Cmp { reg, value } => bytes_of("    cmp ") + reg_text(reg) + bytes_of(", ")
            + signed_decimal_text(value),
        Inst::Je { label } => bytes_of("    je ") + symbol_text(names, label),
        Inst::Jg { label } => bytes_of("    jg ") + symbol_text(names, label),
        Inst::Jge { label } => bytes_of("    jge ") + symbol_text(names, label),
        Inst::Jmp { label } => bytes_of("    jmp ") + symbol_text(names, label),
        Inst::Ret => bytes_of("    ret"),
        Inst::Push { source } => bytes_of("    push ") + reg_text(source),
        Inst::Pop { target } => bytes_of("    pop ") + reg_text(target),
        Inst::Sub { target, source } => two_operand_text(bytes_of("    sub "), target, source),
        Inst::Add { target, source } => two_operand_text(bytes_of("    add "), target, source),
        Inst::Call { label } => bytes_of("    call ") + symbol_text(names, label),
    }
}

/// The text of a list of instructions: one line each, each ended by a line
/// feed.
pub open spec fn program_text(insts: Seq<Inst>, names: Seq<Seq<u8>>) -> Seq<u8>
    decreases insts.len(),
{
    if insts.len() == 0 {
        Seq::empty()
    } else {
        program_text(insts.drop_last(), names) + inst_text(insts.last(), names) + bytes_of("\n")
    }
}

/// Appends the name of `reg`.
pub fn push_reg(out: &mut Vec<u8>, reg: Reg)
    ensures
        final(out)@ == old(out)@ + reg_text(reg),
{
    match reg {
        Reg::Eax => push_str(out, "eax"),
        Reg::Rbp => push_str(out, "rbp"),
        Reg::Rsp => push_str(out, "rsp"),
    }
}

/// Appends the text of the operand `arg`.
pub fn push_arg(out: &mut Vec<u8>, arg: Arg)
    ensures
        final(out)@ == old(out)@ + arg_text(arg),
{
    match arg {
        Arg::Imm(value) => push_signed_decimal(out, value),
        Arg::Reg(reg) => push_reg(out, reg),
        Arg::MemOffset { base, offset } => {
            push_str(out, "DWORD PTR [");
            push_reg(out, base);
            if offset >= 0 {
                push_str(out, "+");
            }
            push_signed_decimal(out, offset);
            push_str(out, "]");
            assert(out@ =~= old(out)@ + arg_text(arg));
        },
    }
}

/// Appends the text that `symbol` stands for.
pub fn push_symbol(out: &mut Vec<u8>, ctx: &CompilerContext, symbol: Symbol)
    ensures
        final(out)@ == old(out)@ + symbol_text(ctx.names(), symbol),
{
    match ctx.resolve_symbol(symbol) {
        Some(text) => push_bytes(out, text),
        None => {
            assert(out@ =~= old(out)@ + Seq::<u8>::empty());
        },
    }
}

/// Appends a mnemonic and the label that it jumps to or calls.
fn push_jump(out: &mut Vec<u8>, mnemonic: &str, ctx: &CompilerContext, label: Symbol)
    ensures
        final(out)@ == old(out)@ + (bytes_of(mnemonic) + symbol_text(ctx.names(), label)),
{
    push_str(out, mnemonic);
    push_symbol(out, ctx, label);
    assert(out@ =~= old(out)@ + (bytes_of(mnemonic) + symbol_text(ctx.names(), label)));
}

/// Appends a mnemonic and its two operands.
fn push_two_operands(out: &mut Vec<u8>, mnemonic: &str, target: Arg, source: Arg)
    ensures
        final(out)@ == old(out)@ + two_operand_text(bytes_of(mnemonic), target, source),
{
    push_str(out, mnemonic);
    push_arg(out, target);
    push_str(out, ", ");
    push_arg(out, source);
    assert(out@ =~= old(out)@ + two_operand_text(bytes_of(mnemonic), target, source));
}

/// Appends the line of `inst`, without its line end.
pub fn push_inst(out: &mut Vec<u8>, inst: Inst, ctx: &CompilerContext)
    ensures
        final(out)@ == old(out)@ + inst_text(inst, ctx.names()),
{
    match inst {
        Inst::Label { name } => {
            push_symbol(out, ctx, name);
            push_str(out, ":");
            assert(out@ =~= old(out)@ + inst_text(inst, ctx.names()));
        },
        Inst::Mov { target, source } => push_two_operands(out, "    mov ", target, source),
        Inst::Cmp { reg, value } => {
            push_str(out, "    cmp ");
            push_reg(out, reg);
            push_str(out, ", ");
            push_signed_decimal(out, value);
            assert(out@ =~= old(out)@ + inst_text(inst, ctx.names()));
        },
        Inst::Je { label } => push_jump(out, "    je ", ctx, label),
        Inst::Jg { label } => push_jump(out, "    jg ", ctx, label),
        Inst::Jge { label } => push_jump(out, "    jge ", ctx, label),
        Inst::Jmp { label } => push_jump(out, "    jmp ", ctx, label),
        Inst::Ret => push_str(out, "    ret"),
        Inst::Push { source } => {
            push_str(out, "    push ");
            push_reg(out, source);
            assert(out@ =~= old(out)@ + inst_text(inst, ctx.names()));
        },
        Inst::Pop { target } => {
            push_str(out, "    pop ");
            push_reg(out, target);
            assert(out@ =~= old(out)@ + inst_text(inst, ctx.names()));
        },
        Inst::Sub { target, source } => push_two_operands(out, "    sub ", target, source),
        Inst::Add { target, source } => push_two_operands(out, "    add ", target, source),
        Inst::Call { label } => push_jump(out, "    call ", ctx, label),
    }
}

/// The instructions of a compiled program, with the names of its symbols.
pub struct X86Program<'a> {
    pub ctx: CompilerContext<'a>,
    pub instructions: Vec<Inst>,
}

impl<'a> X86Program<'a> {
    /// The assembly text of the program.
    pub fn render(&self) -> (text: Vec<u8>)
        ensures
            text@ == program_text(self.instructions@, self.ctx.names()),
    {
        let mut text: Vec<u8> = Vec::new();
        let mut i: usize = 0;
        assert(self.instructions@.subrange(0, 0) =~= Seq::<Inst>::empty());
        while i < self.instructions.len()
            invariant
                i <= self.instructions@.len(),
                text@ == program_text(
                    self.instructions@.subrange(0, i as int),
                    self.ctx.names(),
                ),
            decreases self.instructions@.len() - i,
        {
            let ghost before = text@;
            push_inst(&mut text, self.instructions[i], &self.ctx);
            push_str(&mut text, "\n");
            proof {
                let upto = self.instructions@.subrange(0, i + 1);
                assert(upto.drop_last() =~= self.instructions@.subrange(0, i as int));
                assert(text@ =~= before + inst_text(upto.last(), self.ctx.names())
                    + bytes_of("\n"));
            }
            i += 1;
        }
        assert(self.instructions@.subrange(0, i as int) =~= self.instructions@);
        text
    }
}

} // verus!
