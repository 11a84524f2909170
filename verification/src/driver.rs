//! The pipeline from source text to assembly text.

use vstd::prelude::*;
use vstd::utf8::{decode_utf8, valid_utf8};
use crate::assembly::{X86Program, program_text};
use crate::codegen::{CodeGen, initial_state, lower_program};
use crate::error::{CompileError, Diagnostic, diagnostic_text};
use crate::compiler_context::CompilerContext;
use crate::parser::{Input, Parser, parse_program};
use crate::scanner::{Scanner, scan_tokens};
use crate::text::bytes_of;

verus! {

/// The text of `bytes`, with each part that is not UTF-8 replaced by the
/// replacement character.
pub uninterp spec fn lossy_text(bytes: Seq<u8>) -> Seq<char>;

/// Makes an empty arena with `Bump::new`.
#[verifier::external_body]
fn new_arena() -> (arena: bumpalo::Bump) {
    bumpalo::Bump::new()
}

/// Turns bytes into text with `String::from_utf8_lossy`: the text that the
/// bytes encode where they are UTF-8, else that text with each ill-formed
/// part replaced.
#[verifier::external_body]
fn text_of_bytes(bytes: Vec<u8>) -> (text: String)
    ensures
        text@ == lossy_text(bytes@),
        valid_utf8(bytes@) ==> text@ == decode_utf8(bytes@),
{
    String::from_utf8_lossy(&bytes).into_owned()
}

/// What compiling the source `src` gives: the assembly text of its program,
/// or the first error found while scanning, parsing or generating code.
/// Every compilation starts with no name interned and numbers its labels
/// from zero.
pub open spec fn compile_result(src: Seq<u8>) -> Result<Seq<u8>, CompileError> {
    match scan_tokens(src) {
        Err(e) => Err(e),
        Ok(tokens) => match parse_program(Input { src, tokens }, Seq::empty()) {
            Err(e) => Err(e),
            Ok(program) => match lower_program(program.value, initial_state(program.names)) {
                Err(e) => Err(e),
                Ok(lowered) => Ok(program_text(lowered.insts, lowered.state.names)),
            },
        },
    }
}

/// The text that compiling `src` gives: the assembly, or else the message
/// for the error. Never both: an error leaves no assembly.
pub open spec fn compile_text(src: Seq<u8>) -> Seq<u8> {
    match compile_result(src) {
        Ok(assembly) => assembly,
        Err(e) => diagnostic_text(seq![e], src),
    }
}

/// Compiles the source `src` to assembly text, or to a diagnostic that
/// holds the first error.
pub fn compile_program(src: &[u8]) -> (out: Result<Vec<u8>, Diagnostic>)
    ensures
        match compile_result(src@) {
            Ok(assembly) => match out {
                Ok(text) => text@ == assembly,
                Err(_) => false,
            },
            Err(e) => match out {
                Ok(_) => false,
                Err(diagnostic) => diagnostic.compile_errors@ == seq![e],
            },
        },
{
    let arena = new_arena();
    let context = CompilerContext::new(src, &arena);
    let tokens = {
        let mut scanner = Scanner::new(context.get_source_code());
        scanner.scan_all_tokens()
    };
    let tokens = match tokens {
        Ok(tokens) => tokens,
        Err(e) => {
            return Err(Diagnostic::of(e));
        },
    };
    let mut parser = Parser::new(tokens, context);
    match parser.parse_program() {
        Ok(program) => {
            let mut codegen = CodeGen::new(parser.into_context());
            match codegen.gen_program(&program) {
                Ok(instructions) => {
                    let x86_program = X86Program { ctx: codegen.into_context(), instructions };
                    Ok(x86_program.render())
                },
                Err(e) => Err(Diagnostic::of(e)),
            }
        },
        Err(diagnostic) => Err(diagnostic),
    }
}

/// Compiles the source `src` to assembly text, or to the message for the
/// first error.
pub fn compile_bytes(src: &[u8]) -> (out: Vec<u8>)
    ensures
        out@ == compile_text(src@),
{
    match compile_program(src) {
        Ok(assembly) => assembly,
        Err(diagnostic) => diagnostic.render(src),
    }
}

/// Compiles the source text to assembly text, or to the message for the
/// first error.
pub fn compile(source_code: &str) -> (out: String)
    ensures
        out@ == lossy_text(compile_text(bytes_of(source_code))),
        valid_utf8(compile_text(bytes_of(source_code))) ==> out@ == decode_utf8(
            compile_text(bytes_of(source_code)),
        ),
{
    text_of_bytes(compile_bytes(source_code.as_bytes()))
}

} // verus!
