use exprlang::assembly::{push_arg, X86Program};
use exprlang::ast::{Const, Expr, ForIteration, Program, RangeKind, Type};
use exprlang::codegen::{Arg, CodeGen, Inst, Reg};
use exprlang::compiler_context::CompilerContext;
use exprlang::driver::{compile, compile_bytes};
use exprlang::error::{push_token, push_token_kind, CompileError, Diagnostic};
use exprlang::interner::{StringInterner, Symbol};
use exprlang::parser::{constant_of, Parser};
use exprlang::scanner::{Delim, Keyword, Scanner, Token, TokenKind};
use exprlang::scope::{
    claim_slot, frame_size, lookup_exit_label, lookup_offset, lookup_start_label, Scope,
};
use exprlang::span::{BytePos, Span};
use exprlang::text::{bytes_equal, label_bytes, push_decimal, push_signed_decimal};

fn lines(text: &[&str]) -> String {
    let mut joined = String::new();
    for line in text {
        joined.push_str(line);
        joined.push('\n');
    }
    joined
}

fn kinds(source: &str) -> Vec<TokenKind> {
    let mut scanner = Scanner::new(source.as_bytes());
    let tokens = scanner.scan_all_tokens().unwrap();
    tokens.iter().map(|t| t.kind).collect()
}

#[test]
fn dummy_positions_stand_for_nowhere() {
    assert_eq!(BytePos::dummy(), BytePos(usize::MAX));
    assert_eq!(
        Span::dummy(),
        Span { start: BytePos(usize::MAX), end: BytePos(usize::MAX) }
    );
    assert_eq!(Token::eof(), Token { kind: TokenKind::Eof, span: Span::dummy() });
}

#[test]
fn interner_hands_out_one_symbol_per_text() {
    let arena = bumpalo::Bump::new();
    let mut interner = StringInterner::new(&arena);
    let foo = interner.get_or_intern(b"foo");
    let bar = interner.get_or_intern(b"bar");
    let foo_again = interner.get_or_intern(b"foo");
    assert_eq!(foo, Symbol(0));
    assert_eq!(bar, Symbol(1));
    assert_eq!(foo_again, foo);
    assert_eq!(interner.resolve(foo), Some(&b"foo"[..]));
    assert_eq!(interner.resolve(bar), Some(&b"bar"[..]));
    assert_eq!(interner.resolve(Symbol(2)), None);
}

#[test]
fn interner_takes_the_empty_text() {
    let arena = bumpalo::Bump::new();
    let mut interner = StringInterner::new(&arena);
    let first = interner.get_or_intern(b"x");
    let empty = interner.get_or_intern(b"");
    assert_eq!(first, Symbol(0));
    assert_eq!(empty, Symbol(1));
    assert_eq!(interner.get_or_intern(b""), empty);
    assert_eq!(interner.resolve(empty), Some(&b""[..]));
}

#[test]
fn interner_keeps_its_own_copy_of_the_text() {
    let arena = bumpalo::Bump::new();
    let mut interner = StringInterner::new(&arena);
    let symbol = {
        let mut text = vec![b'a', b'b'];
        let symbol = interner.get_or_intern(&text);
        text[0] = b'z';
        symbol
    };
    assert_eq!(interner.resolve(symbol), Some(&b"ab"[..]));
}

#[test]
fn decimal_text_of_numbers() {
    let mut out = Vec::new();
    push_decimal(&mut out, 0);
    out.push(b' ');
    push_decimal(&mut out, 7);
    out.push(b' ');
    push_decimal(&mut out, 1234567890);
    out.push(b' ');
    push_signed_decimal(&mut out, -16);
    out.push(b' ');
    push_signed_decimal(&mut out, i32::MIN);
    out.push(b' ');
    push_signed_decimal(&mut out, i32::MAX);
    assert_eq!(out, b"0 7 1234567890 -16 -2147483648 2147483647".to_vec());
}

#[test]
fn label_names_count_up() {
    assert_eq!(label_bytes(0), b".L0".to_vec());
    assert_eq!(label_bytes(12), b".L12".to_vec());
}

#[test]
fn bytes_equal_compares_contents() {
    assert!(bytes_equal(b"", b""));
    assert!(bytes_equal(b"for", b"for"));
    assert!(!bytes_equal(b"for", b"fo"));
    assert!(!bytes_equal(b"for", b"fog"));
}

#[test]
fn constants_up_to_the_largest_fit() {
    assert_eq!(constant_of(b"0"), Some(0));
    assert_eq!(constant_of(b"007"), Some(7));
    assert_eq!(constant_of(b"2147483647"), Some(2147483647));
    assert_eq!(constant_of(b"2147483648"), None);
    assert_eq!(constant_of(b"99999999999999999999999999"), None);
}

#[test]
fn scanner_takes_the_longest_punctuation() {
    assert_eq!(
        kinds(": :: := -> .. ..= ; ( ) { }"),
        vec![
            TokenKind::Colon,
            TokenKind::ColonColon,
            TokenKind::ColonEqual,
            TokenKind::DashGreater,
            TokenKind::PeriodPeriod,
            TokenKind::PeriodPeriodEqual,
            TokenKind::Semi,
            TokenKind::Open(Delim::Paren),
            TokenKind::Closed(Delim::Paren),
            TokenKind::Open(Delim::Curly),
            TokenKind::Closed(Delim::Curly),
        ]
    );
    assert_eq!(
        kinds(":::=..=..:"),
        vec![
            TokenKind::ColonColon,
            TokenKind::ColonEqual,
            TokenKind::PeriodPeriodEqual,
            TokenKind::PeriodPeriod,
            TokenKind::Colon,
        ]
    );
}

#[test]
fn scanner_tells_keywords_from_identifiers() {
    assert_eq!(
        kinds("i32 if else for break continue iff _for For x1 42"),
        vec![
            TokenKind::Keyword(Keyword::I32),
            TokenKind::Keyword(Keyword::If),
            TokenKind::Keyword(Keyword::Else),
            TokenKind::Keyword(Keyword::For),
            TokenKind::Keyword(Keyword::Break),
            TokenKind::Keyword(Keyword::Continue),
            TokenKind::Identifier,
            TokenKind::Identifier,
            TokenKind::Identifier,
            TokenKind::Identifier,
            TokenKind::IntegerConstant,
        ]
    );
}

#[test]
fn scanner_records_byte_spans() {
    let mut scanner = Scanner::new(b"  foo :=\n 314");
    let tokens = scanner.scan_all_tokens().unwrap();
    assert_eq!(
        tokens,
        vec![
            Token {
                kind: TokenKind::Identifier,
                span: Span { start: BytePos(2), end: BytePos(5) }
            },
            Token {
                kind: TokenKind::ColonEqual,
                span: Span { start: BytePos(6), end: BytePos(8) }
            },
            Token {
                kind: TokenKind::IntegerConstant,
                span: Span { start: BytePos(10), end: BytePos(13) }
            },
        ]
    );
}

#[test]
fn scanner_yields_tokens_one_by_one() {
    let mut scanner = Scanner::new(b"a 1");
    assert_eq!(
        scanner.scan_next_token(),
        Ok(Some(Token {
            kind: TokenKind::Identifier,
            span: Span { start: BytePos(0), end: BytePos(1) }
        }))
    );
    assert_eq!(
        scanner.scan_next_token(),
        Ok(Some(Token {
            kind: TokenKind::IntegerConstant,
            span: Span { start: BytePos(2), end: BytePos(3) }
        }))
    );
    assert_eq!(scanner.scan_next_token(), Ok(None));
    assert_eq!(scanner.scan_next_token(), Ok(None));
}

#[test]
fn scanner_stops_at_an_unrecognized_character() {
    let mut scanner = Scanner::new(b"foo $ bar");
    assert_eq!(
        scanner.scan_all_tokens(),
        Err(CompileError::UnrecognizedCharacter { at: BytePos(4) })
    );
    let mut lone_dash = Scanner::new(b"-");
    assert_eq!(
        lone_dash.scan_all_tokens(),
        Err(CompileError::UnrecognizedCharacter { at: BytePos(0) })
    );
    let mut lone_period = Scanner::new(b"1.2");
    assert_eq!(
        lone_period.scan_all_tokens(),
        Err(CompileError::UnrecognizedCharacter { at: BytePos(1) })
    );
}

#[test]
fn unrecognized_character_is_reported_where_it_stands() {
    assert_eq!(
        compile("main :: () {\n    foo $\n}"),
        lines(&[
            "error: unrecognized character",
            " >>> <source>:2:9",
            "  |",
            "2 |     foo $",
            "  |         ^ unrecognized character",
        ])
    );
}

#[test]
fn empty_source_compiles_to_nothing() {
    assert_eq!(compile(""), "");
    assert_eq!(compile(" \n\t "), "");
    assert_eq!(compile_bytes(b""), Vec::<u8>::new());
}

#[test]
fn any_function_with_an_empty_body_is_prologue_and_epilogue() {
    for name in ["main", "f", "_start", "a_longer_name_1"] {
        assert_eq!(
            compile(&format!("{} :: () {{}}", name)),
            format!("{}:\n    push rbp\n    mov rbp, rsp\n    pop rbp\n    ret\n", name)
        );
        assert_eq!(
            compile(&format!("{}::()->i32{{}}", name)),
            format!("{}:\n    push rbp\n    mov rbp, rsp\n    pop rbp\n    ret\n", name)
        );
    }
}

#[test]
fn a_sole_integer_literal_is_loaded_once() {
    for n in [0, 1, 42, 314, 2147483647] {
        let text = compile(&format!("main :: () -> i32 {{ {} }}", n));
        assert_eq!(
            text,
            format!(
                "main:\n    push rbp\n    mov rbp, rsp\n    mov eax, {}\n    pop rbp\n    ret\n",
                n
            )
        );
        assert_eq!(text.matches("mov eax").count(), 1);
    }
}

#[test]
fn sibling_compounds_do_not_share_slots() {
    assert_eq!(
        compile("main :: () { { a := 1; b := 2; } { c := 3; d := 4; } }"),
        lines(&[
            "main:",
            "    push rbp",
            "    mov rbp, rsp",
            "    sub rsp, 16",
            "    mov eax, 1",
            "    mov DWORD PTR [rbp-4], eax",
            "    mov eax, 2",
            "    mov DWORD PTR [rbp-8], eax",
            "    mov eax, 3",
            "    mov DWORD PTR [rbp-12], eax",
            "    mov eax, 4",
            "    mov DWORD PTR [rbp-16], eax",
            "    add rsp, 16",
            "    pop rbp",
            "    ret",
        ])
    );
}

#[test]
fn inner_binding_shadows_and_is_forgotten_on_exit() {
    assert_eq!(
        compile("main :: () -> i32 { x := 1; { x := 2; x }; x }"),
        lines(&[
            "main:",
            "    push rbp",
            "    mov rbp, rsp",
            "    sub rsp, 8",
            "    mov eax, 1",
            "    mov DWORD PTR [rbp-4], eax",
            "    mov eax, 2",
            "    mov DWORD PTR [rbp-8], eax",
            "    mov eax, DWORD PTR [rbp-8]",
            "    mov eax, DWORD PTR [rbp-4]",
            "    add rsp, 8",
            "    pop rbp",
            "    ret",
        ])
    );
}

#[test]
fn a_binding_is_not_visible_to_a_sibling_compound() {
    assert_eq!(
        compile("main :: () { { a := 1; } { a } }"),
        "error: internal error: binding does not exist\n"
    );
}

#[test]
fn labels_are_never_reused_across_functions() {
    assert_eq!(
        compile("f :: () { if 1 { } }\ng :: () { if 2 { } }"),
        lines(&[
            "f:",
            "    push rbp",
            "    mov rbp, rsp",
            "    mov eax, 1",
            "    cmp eax, 0",
            "    je .L0",
            ".L0:",
            "    pop rbp",
            "    ret",
            "g:",
            "    push rbp",
            "    mov rbp, rsp",
            "    mov eax, 2",
            "    cmp eax, 0",
            "    je .L1",
            ".L1:",
            "    pop rbp",
            "    ret",
        ])
    );
}

#[test]
fn a_lone_if_has_one_jump_on_zero_and_no_jump_around() {
    let text = compile("main :: () -> i32 { if 1 { 1 }; 0 }");
    assert_eq!(text.matches("    je ").count(), 1);
    assert_eq!(text.matches("    jmp ").count(), 0);
    assert_eq!(text.matches(".L0:").count(), 1);
    assert_eq!(text.matches(".L1").count(), 0);
}

#[test]
fn while_loop_with_break_and_continue() {
    assert_eq!(
        compile("main :: () { for 1 { continue; break } }"),
        lines(&[
            "main:",
            "    push rbp",
            "    mov rbp, rsp",
            ".L0:",
            "    mov eax, 1",
            "    cmp eax, 0",
            "    je .L1",
            "    jmp .L0",
            "    jmp .L1",
            "    jmp .L0",
            ".L1:",
            "    pop rbp",
            "    ret",
        ])
    );
}

#[test]
fn break_after_an_inner_loop_leaves_the_outer_loop() {
    let text = compile("main :: () { for { for { break } break } }");
    assert_eq!(
        text,
        lines(&[
            "main:",
            "    push rbp",
            "    mov rbp, rsp",
            ".L0:",
            ".L2:",
            "    jmp .L3",
            "    jmp .L2",
            ".L3:",
            "    jmp .L1",
            "    jmp .L0",
            ".L1:",
            "    pop rbp",
            "    ret",
        ])
    );
}

#[test]
fn break_and_continue_need_a_loop() {
    assert_eq!(
        compile("main :: () { break }"),
        "error: internal error: `break` outside of a loop\n"
    );
    assert_eq!(
        compile("main :: () { continue }"),
        "error: internal error: `continue` outside of a loop\n"
    );
    assert_eq!(
        compile("main :: () { for { } break }"),
        "error: internal error: `break` outside of a loop\n"
    );
}

#[test]
fn unresolved_reference_fails_the_compilation() {
    assert_eq!(
        compile("main :: () -> i32 { foo }"),
        "error: internal error: binding does not exist\n"
    );
}

#[test]
fn only_functions_stand_at_the_top_level() {
    assert_eq!(
        compile("x :: 42"),
        "error: internal error: only a function can be declared at the top level\n"
    );
    assert_eq!(
        compile("main :: () { f := () { } }"),
        "error: internal error: a function cannot be defined inside a function\n"
    );
}

#[test]
fn the_end_of_a_range_is_a_constant() {
    assert_eq!(
        compile("main :: () { n := 3; for i : 0..n { } }"),
        "error: internal error: the end of a range must be an integer constant\n"
    );
}

#[test]
fn expected_expression_is_reported_after_the_previous_token() {
    assert_eq!(
        compile("main :: ;"),
        lines(&[
            "error: expected expression, found `;`",
            " >>> <source>:1:6",
            "  |",
            "1 | main :: ;",
            "  |      ^^ expected expression after this",
        ])
    );
    assert_eq!(
        compile("main ::"),
        lines(&[
            "error: expected expression, found `<end of file>`",
            " >>> <source>:1:6",
            "  |",
            "1 | main ::",
            "  |      ^^ expected expression after this",
        ])
    );
}

#[test]
fn expected_token_names_what_was_found() {
    assert_eq!(
        compile("main :: ( {}"),
        lines(&[
            "error: expected `)`, found `{`",
            " >>> <source>:1:9",
            "  |",
            "1 | main :: ( {}",
            "  |         ^ expected `)` after this",
        ])
    );
    assert_eq!(
        compile("main :: () -> if {}"),
        lines(&[
            "error: expected `keyword i32`, found `keyword if`",
            " >>> <source>:1:12",
            "  |",
            "1 | main :: () -> if {}",
            "  |            ^^ expected `keyword i32` after this",
        ])
    );
    assert_eq!(
        compile("main :: () {\n    foo := 1;\n"),
        lines(&[
            "error: expected `}`, found `<end of file>`",
            " >>> <source>:2:13",
            "  |",
            "2 |     foo := 1;",
            "  |             ^ expected `}` after this",
        ])
    );
    assert_eq!(
        compile("main :: () { for i : 0 10 { } }"),
        lines(&[
            "error: expected `..`, found `10`",
            " >>> <source>:1:22",
            "  |",
            "1 | main :: () { for i : 0 10 { } }",
            "  |                      ^ expected `..` after this",
        ])
    );
}

#[test]
fn a_constant_past_32_bits_is_an_error() {
    assert_eq!(
        compile("main :: () -> i32 {\n  2147483648\n}"),
        lines(&[
            "error: integer constant out of range, found `2147483648`",
            " >>> <source>:2:3",
            "  |",
            "2 |   2147483648",
            "  |   ^^^^^^^^^^ integer constant out of range",
        ])
    );
}

#[test]
fn a_second_declaration_must_start_with_a_name() {
    assert_eq!(
        compile("main :: () {}\n}"),
        lines(&[
            "error: expected declaration, found `}`",
            " >>> <source>:2:1",
            "  |",
            "2 | }",
            "  | ^ expected declaration",
        ])
    );
}

#[test]
fn diagnostic_renders_its_errors_in_order() {
    let diagnostic = Diagnostic {
        compile_errors: vec![CompileError::BreakOutsideLoop, CompileError::TooManyLabels],
    };
    assert_eq!(
        diagnostic.render(b""),
        b"error: internal error: `break` outside of a loop\nerror: internal error: too many labels\n"
            .to_vec()
    );
    assert_eq!(
        Diagnostic::of(CompileError::FrameTooLarge).render(b"x"),
        b"error: internal error: stack frame too large\n".to_vec()
    );
}

#[test]
fn compiling_twice_gives_the_same_text() {
    let source = "main :: () -> i32 {\n  x := 1;\n  for i : 0..=3 { if i { break } else if x { continue } }\n  x\n}\nf :: () { main() }";
    let first = compile(source);
    let second = compile(source);
    assert_eq!(first, second);
    assert!(first.starts_with("main:\n"));
    assert_eq!(compile_bytes(source.as_bytes()), first.into_bytes());
}

#[test]
fn text_outside_ascii_is_reported_intact() {
    assert_eq!(
        compile("é"),
        lines(&[
            "error: unrecognized character",
            " >>> <source>:1:1",
            "  |",
            "1 | é",
            "  | ^ unrecognized character",
        ])
    );
}

fn parse(source: &[u8], arena: &bumpalo::Bump) -> Result<Program, Diagnostic> {
    let context = CompilerContext::new(source, arena);
    let tokens = Scanner::new(context.get_source_code()).scan_all_tokens().unwrap();
    Parser::new(tokens, context).parse_program()
}

#[test]
fn context_interns_and_resolves_names() {
    let arena = bumpalo::Bump::new();
    let mut context = CompilerContext::new(b"foo := bar", &arena);
    assert_eq!(context.get_source_code(), b"foo := bar");
    let span = Span { start: BytePos(7), end: BytePos(10) };
    assert_eq!(context.get_text_snippet(span), b"bar");
    assert_eq!(context.get_text_snippet(Span { start: BytePos(0), end: BytePos(3) }), b"foo");
    assert_eq!(context.get_text_snippet(Span { start: BytePos(7), end: BytePos(11) }), b"");
    assert_eq!(context.get_text_snippet(Span::dummy()), b"");
    let bar = context.get_or_intern_str(b"bar");
    assert_eq!(bar, Symbol(0));
    assert_eq!(context.get_or_intern_str(b"foo"), Symbol(1));
    assert_eq!(context.get_or_intern_str(b"bar"), bar);
    assert_eq!(context.resolve_symbol(bar), Some(&b"bar"[..]));
    assert_eq!(context.resolve_symbol(Symbol(7)), None);
}

#[test]
fn parser_builds_the_tree_of_a_program() {
    let arena = bumpalo::Bump::new();
    let program =
        parse(b"main :: () -> i32 { x := 1; for i : 0..=3 { f() } if x { } else { x } }", &arena)
            .ok()
            .unwrap();
    assert_eq!(program.decls.len(), 1);
    let function = match &program.decls[0].value {
        Expr::Function(function) => function,
        _ => panic!("expected a function"),
    };
    assert_eq!(function.return_type, Type::I32);
    assert!(function.parameters.is_empty());
    assert_eq!(function.body.exprs.len(), 3);
    match &function.body.exprs[0] {
        Expr::Semi(inner) => match &**inner {
            Expr::BindDef(def) => {
                assert!(matches!(*def.value, Expr::Const(Const::IntegerConstant { value: 1 })));
            }
            _ => panic!("expected a binding"),
        },
        _ => panic!("expected a discarded value"),
    }
    match &function.body.exprs[1] {
        Expr::For(for_expr) => {
            match &for_expr.iteration {
                Some(ForIteration::Iterative { start_expr, end_expr, range_kind, .. }) => {
                    assert!(matches!(
                        **start_expr,
                        Expr::Const(Const::IntegerConstant { value: 0 })
                    ));
                    assert!(matches!(
                        **end_expr,
                        Expr::Const(Const::IntegerConstant { value: 3 })
                    ));
                    assert_eq!(*range_kind, RangeKind::Inclusive);
                }
                _ => panic!("expected a counted loop"),
            }
            assert!(matches!(for_expr.body.exprs[0], Expr::FnCall(_)));
        }
        _ => panic!("expected a loop"),
    }
    match &function.body.exprs[2] {
        Expr::If(if_expr) => {
            assert!(matches!(*if_expr.cond_expr, Expr::BindRef(_)));
            assert!(if_expr.true_branch.exprs.is_empty());
            assert!(if_expr.else_if_branches.is_empty());
            assert_eq!(if_expr.final_branch.as_ref().unwrap().exprs.len(), 1);
        }
        _ => panic!("expected a conditional"),
    }
}

#[test]
fn parser_reports_the_first_error_only() {
    let arena = bumpalo::Bump::new();
    let diagnostic = parse(b"main :: () { ; } 42", &arena).err().unwrap();
    assert_eq!(
        diagnostic.compile_errors,
        vec![CompileError::ExpectedExpression {
            found: Token {
                kind: TokenKind::Semi,
                span: Span { start: BytePos(13), end: BytePos(14) }
            },
            after: Span { start: BytePos(11), end: BytePos(12) },
        }]
    );
}

#[test]
fn code_generator_emits_instructions_in_source_order() {
    let arena = bumpalo::Bump::new();
    let source = b"f :: () { x := 5; x }\ng :: () { f() }";
    let context = CompilerContext::new(source, &arena);
    let tokens = Scanner::new(source).scan_all_tokens().unwrap();
    let mut parser = Parser::new(tokens, context);
    let program = parser.parse_program().ok().unwrap();
    let mut codegen = CodeGen::new(parser.into_context());
    let insts = codegen.gen_program(&program).unwrap();
    let f = Symbol(1);
    let g = Symbol(2);
    assert_eq!(
        insts,
        vec![
            Inst::Label { name: f },
            Inst::Push { source: Reg::Rbp },
            Inst::Mov { target: Arg::Reg(Reg::Rbp), source: Arg::Reg(Reg::Rsp) },
            Inst::Sub { target: Arg::Reg(Reg::Rsp), source: Arg::Imm(4) },
            Inst::Mov { target: Arg::Reg(Reg::Eax), source: Arg::Imm(5) },
            Inst::Mov {
                target: Arg::MemOffset { base: Reg::Rbp, offset: -4 },
                source: Arg::Reg(Reg::Eax)
            },
            Inst::Mov {
                target: Arg::Reg(Reg::Eax),
                source: Arg::MemOffset { base: Reg::Rbp, offset: -4 }
            },
            Inst::Add { target: Arg::Reg(Reg::Rsp), source: Arg::Imm(4) },
            Inst::Pop { target: Reg::Rbp },
            Inst::Ret,
            Inst::Label { name: g },
            Inst::Push { source: Reg::Rbp },
            Inst::Mov { target: Arg::Reg(Reg::Rbp), source: Arg::Reg(Reg::Rsp) },
            Inst::Call { label: f },
            Inst::Pop { target: Reg::Rbp },
            Inst::Ret,
        ]
    );
    let context = codegen.into_context();
    assert_eq!(context.resolve_symbol(f), Some(&b"f"[..]));
    let program = X86Program { ctx: context, instructions: insts };
    assert!(program.render().starts_with(b"f:\n    push rbp\n"));
}

#[test]
fn operands_render_through_one_table() {
    let mut out = Vec::new();
    push_arg(&mut out, Arg::Imm(-7));
    out.push(b'|');
    push_arg(&mut out, Arg::Reg(Reg::Eax));
    out.push(b'|');
    push_arg(&mut out, Arg::MemOffset { base: Reg::Rbp, offset: -12 });
    out.push(b'|');
    push_arg(&mut out, Arg::MemOffset { base: Reg::Rsp, offset: 8 });
    out.push(b'|');
    push_arg(&mut out, Arg::MemOffset { base: Reg::Rbp, offset: 0 });
    assert_eq!(
        out,
        b"-7|eax|DWORD PTR [rbp-12]|DWORD PTR [rsp+8]|DWORD PTR [rbp+0]".to_vec()
    );
}

#[test]
fn stack_slots_are_claimed_four_bytes_apart() {
    assert_eq!(claim_slot(0), Some((4, -4)));
    assert_eq!(claim_slot(4), Some((8, -8)));
    assert_eq!(claim_slot(2147483640), Some((2147483644, -2147483644)));
    assert_eq!(claim_slot(2147483643), Some((2147483647, -2147483647)));
    assert_eq!(claim_slot(2147483644), None);
    assert_eq!(frame_size(16), Some(16));
    assert_eq!(frame_size(2147483647), Some(2147483647));
    assert_eq!(frame_size(2147483648), None);
}

#[test]
fn innermost_scope_is_searched_first() {
    let x = Symbol(0);
    let y = Symbol(1);
    let mut outer = Scope::new();
    outer.insert(x, -4);
    outer.insert(y, -8);
    outer.set_loop_labels(Symbol(10), Symbol(11));
    let mut inner = Scope::new();
    inner.insert(x, -12);
    let scopes = vec![outer, inner];
    assert_eq!(lookup_offset(&scopes, x), Some(-12));
    assert_eq!(lookup_offset(&scopes, y), Some(-8));
    assert_eq!(lookup_offset(&scopes, Symbol(2)), None);
    assert_eq!(lookup_start_label(&scopes), Some(Symbol(10)));
    assert_eq!(lookup_exit_label(&scopes), Some(Symbol(11)));
    assert_eq!(lookup_exit_label(&Vec::new()), None);
    assert_eq!(scopes[1].get(y), None);
    assert_eq!(scopes[1].exit_label(), None);
    assert_eq!(scopes[0].start_label(), Some(Symbol(10)));
}

#[test]
fn token_kinds_have_names_in_messages() {
    let mut out = Vec::new();
    for kind in [
        TokenKind::Eof,
        TokenKind::UnitConstant,
        TokenKind::IntegerConstant,
        TokenKind::Identifier,
        TokenKind::Comma,
        TokenKind::Excla,
        TokenKind::Star,
        TokenKind::Slash,
        TokenKind::Plus,
        TokenKind::Dash,
        TokenKind::Less,
        TokenKind::Greater,
        TokenKind::LessLess,
        TokenKind::GreaterGreater,
        TokenKind::LessEqual,
        TokenKind::GreaterEqual,
        TokenKind::Colon,
        TokenKind::ColonColon,
        TokenKind::ColonEqual,
        TokenKind::Semi,
        TokenKind::DashGreater,
        TokenKind::PeriodPeriod,
        TokenKind::PeriodPeriodEqual,
        TokenKind::Keyword(Keyword::Continue),
        TokenKind::Open(Delim::Paren),
        TokenKind::Open(Delim::Curly),
        TokenKind::Closed(Delim::Paren),
        TokenKind::Closed(Delim::Curly),
    ] {
        push_token_kind(&mut out, kind);
        out.push(b' ');
    }
    assert_eq!(
        String::from_utf8(out).unwrap(),
        "<end of file> () <integer constant> <identifier> , ! * / + - < > << >> <= >= : :: := ; -> .. ..= keyword continue ( { ) } "
    );
    let mut shown = Vec::new();
    let token = Token {
        kind: TokenKind::Identifier,
        span: Span { start: BytePos(1), end: BytePos(4) },
    };
    push_token(&mut shown, b" abc ", token);
    assert_eq!(shown, b"abc".to_vec());
}

#[test]
fn error_knows_the_place_it_points_to() {
    let span = Span { start: BytePos(3), end: BytePos(5) };
    let found = Token { kind: TokenKind::Semi, span };
    assert_eq!(CompileError::ExpectedDeclaration { found }.location(), Some(span));
    assert_eq!(
        CompileError::UnrecognizedCharacter { at: BytePos(9) }.location(),
        Some(Span { start: BytePos(9), end: BytePos(9) })
    );
    assert_eq!(CompileError::BreakOutsideLoop.location(), None);
    let mut out = Vec::new();
    CompileError::ExpectedButFound {
        expected: TokenKind::Closed(Delim::Curly),
        found: Token::eof(),
        after: Span { start: BytePos(5), end: BytePos(6) },
    }
    .render(&mut out, b"a\nb {x\n");
    assert_eq!(
        String::from_utf8(out).unwrap(),
        lines(&[
            "error: expected `}`, found `<end of file>`",
            " >>> <source>:2:4",
            "  |",
            "2 | b {x",
            "  |    ^ expected `}` after this",
        ])
    );
}
