use exprlang::driver;

fn compile(source_code: &str) -> String {
    driver::compile(&strip_margin(source_code))
}

fn check<S: AsRef<str>>(program: S, expected_program: &str) {
    assert_eq!(
        program.as_ref().trim(),
        remove_assembly_comments(strip_margin(expected_program)).trim()
    );
}

fn check_error<S: AsRef<str>>(output: S, expected_output: &str) {
    assert_eq!(output.as_ref().trim(), strip_margin(expected_output).trim());
}

fn strip_margin(text: &str) -> String {
    text.split('\n')
        .map(|line| {
            let mut stripped_line = line.chars().skip_while(|&c| c != '|');
            stripped_line.next();

            stripped_line.collect::<String>()
        })
        .filter(|line| !line.is_empty())
        .collect::<Vec<_>>()
        .join("\n")
}

fn remove_assembly_comments(text: String) -> String {
    text.split('\n')
        .map(|line| {
            line.chars()
                .take_while(|&c| c != ';')
                .collect::<String>()
                .trim_end()
                .to_owned()
        })
        .filter(|line| !line.is_empty())
        .collect::<Vec<_>>()
        .join("\n")
}

#[test]
fn test_main_empty_function_returns_0() {
    let program = compile(
        r#"
        |main :: () {}
        |"#,
    );

    check(
        program,
        r#"
        |main:
        |    push rbp
        |    mov rbp, rsp
        |    pop rbp
        |    ret
        |"#,
    );
}

#[test]
fn test_main_function_explicitly_returns_0() {
    let program = compile(
        r#"
        |main :: () -> i32 {
        |    0
        |}
        |"#,
    );

    check(
        program,
        r#"
        |main:
        |    push rbp
        |    mov rbp, rsp
        |    mov eax, 0
        |    pop rbp
        |    ret
        |"#,
    );
}

#[test]
fn test_main_function_explicitly_returns_1() {
    let program = compile(
        r#"
        |main :: () -> i32 {
        |    1
        |}
        |"#,
    );

    check(
        program,
        r#"
        |main:
        |    push rbp
        |    mov rbp, rsp
        |    mov eax, 1
        |    pop rbp
        |    ret
        |"#,
    );
}

#[test]
fn test_main_function_explicitly_returns_42() {
    let program = compile(
        r#"
        |main :: () -> i32 {
        |    42
        |}
        |"#,
    );

    check(
        program,
        r#"
        |main:
        |    push rbp
        |    mov rbp, rsp
        |    mov eax, 42
        |    pop rbp
        |    ret
        |"#,
    );
}

#[test]
fn test_error_expected_declaration() {
    let output = compile(
        r#"
        |42
        |"#,
    );

    check_error(
        output,
        r#"
        |error: expected declaration, found `42`
        | >>> <source>:1:1
        |  |
        |1 | 42
        |  | ^^ expected declaration
        "#,
    );
}

#[test]
fn test_error_expected_colon_colon_after_identifier() {
    let output = compile(
        r#"
        |foo
        |"#,
    );

    check_error(
        output,
        r#"
        |error: expected `::`, found `<end of file>`
        | >>> <source>:1:1
        |  |
        |1 | foo
        |  | ^^^ expected `::` after this
        "#,
    );
}

#[test]
fn test_bind_to_primary_expr_and_return_from_function() {
    let program = compile(
        r#"
        |main :: () -> i32 {
        |    foo := 42;
        |    foo
        |}
        |"#,
    );

    check(
        program,
        r#"
        |main:
        |    push rbp
        |    mov rbp, rsp
        |    sub rsp, 4
        |
        |    mov eax, 42
        |    mov DWORD PTR [rbp-4], eax
        |
        |    mov eax, DWORD PTR [rbp-4]
        |
        |    add rsp, 4
        |    pop rbp
        |    ret
        |"#,
    );
}

#[test]
fn test_allocate_stack_according_to_how_many_bindings_there_are_and_ref_then_back() {
    let program = compile(
        r#"
        |main :: () -> i32 {
        |    foo := 42;
        |    bar := 314;
        |    baz := 1;
        |    quxx := 0;
        |
        |    bar
        |}
        |"#,
    );

    check(
        program,
        r#"
        |main:
        |    push rbp
        |    mov rbp, rsp
        |    sub rsp, 16
        |
        |    mov eax, 42
        |    mov DWORD PTR [rbp-4], eax
        |
        |    mov eax, 314
        |    mov DWORD PTR [rbp-8], eax
        |
        |    mov eax, 1
        |    mov DWORD PTR [rbp-12], eax
        |
        |    mov eax, 0
        |    mov DWORD PTR [rbp-16], eax
        |
        |    mov eax, DWORD PTR [rbp-8]
        |
        |    add rsp, 16
        |    pop rbp
        |    ret
        |"#,
    );
}

#[test]
fn test_allocate_stack_for_many_functions() {
    let program = compile(
        r#"
        |func1 :: () -> i32 {
        |    foo := 42;
        |    quxx := 314;
        |
        |    foo
        |}
        |
        |func2 :: () -> i32 {
        |    quxx := 1;
        |    baz := 2;
        |    bar := 3;
        |
        |    quxx
        |}
        |"#,
    );

    check(
        program,
        r#"
        |func1:
        |    push rbp
        |    mov rbp, rsp
        |    sub rsp, 8
        |    mov eax, 42
        |    mov DWORD PTR [rbp-4], eax
        |    mov eax, 314
        |    mov DWORD PTR [rbp-8], eax
        |    mov eax, DWORD PTR [rbp-4]
        |    add rsp, 8
        |    pop rbp
        |    ret
        |
        |func2:
        |    push rbp
        |    mov rbp, rsp
        |    sub rsp, 12
        |    mov eax, 1
        |    mov DWORD PTR [rbp-4], eax
        |    mov eax, 2
        |    mov DWORD PTR [rbp-8], eax
        |    mov eax, 3
        |    mov DWORD PTR [rbp-12], eax
        |    mov eax, DWORD PTR [rbp-4]
        |    add rsp, 12
        |    pop rbp
        |    ret
        |"#,
    );
}

#[test]
fn test_empty_infinite_for_loop() {
    let program = compile(
        r#"
        |main :: () {
        |    for {
        |    }
        |}
        |"#,
    );

    check(
        program,
        r#"
        |main:
        |    push rbp
        |    mov rbp, rsp
        |.L0:
        |    jmp .L0
        |.L1:
        |    pop rbp
        |    ret
        |"#,
    );
}

#[test]
fn test_infinite_for_loop() {
    let program = compile(
        r#"
        |main :: () {
        |    for {
        |        x := 42;
        |        foo();
        |    }
        |}
        |
        |foo :: () {}
        |"#,
    );

    check(
        program,
        r#"
        |main:
        |    push rbp
        |    mov rbp, rsp
        |    sub rsp, 4
        |
        |.L0:
        |    mov eax, 42
        |    mov DWORD PTR [rbp-4], eax
        |    call foo
        |    jmp .L0
        |
        |.L1:
        |    add rsp, 4
        |    pop rbp
        |    ret
        |
        |foo:
        |    push rbp
        |    mov rbp, rsp
        |    pop rbp
        |    ret
        |"#,
    );
}

#[test]
fn test_conditional_empty_infinite_for_loop() {
    let program = compile(
        r#"
        |main :: () {
        |    for 1 {
        |    }
        |}
        |"#,
    );

    check(
        program,
        r#"
        |main:
        |    push rbp
        |    mov rbp, rsp
        |.L0:
        |    mov eax, 1
        |    cmp eax, 0
        |    je .L1
        |    jmp .L0
        |.L1:
        |    pop rbp
        |    ret
        |"#,
    );
}

#[test]
fn test_conditional_for_loop() {
    let program = compile(
        r#"
        |main :: () {
        |    for 1 {
        |        foo();
        |    }
        |}
        |
        |foo :: () {}
        |"#,
    );

    check(
        program,
        r#"
        |main:
        |    push rbp
        |    mov rbp, rsp
        |
        |.L0:
        |    mov eax, 1
        |    cmp eax, 0
        |    je .L1
        |
        |    call foo
        |
        |    jmp .L0
        |
        |.L1:
        |    pop rbp
        |    ret
        |
        |foo:
        |    push rbp
        |    mov rbp, rsp
        |    pop rbp
        |    ret
        |"#,
    );
}

#[test]
fn test_iteration_for_loop_exclusive_range() {
    let program = compile(
        r#"
        |main :: () {
        |    for i : 3..10 {
        |        i;
        |    }
        |}
        |"#,
    );

    check(
        program,
        r#"
        |main:
        |    push rbp
        |    mov rbp, rsp
        |    sub rsp, 4
        |
        |    mov eax, 3
        |    mov DWORD PTR [rbp-4], eax
        |
        |.L0:
        |    mov eax, DWORD PTR [rbp-4]
        |    cmp eax, 10
        |    jge .L1
        |
        |    mov eax, DWORD PTR [rbp-4]
        |
        |    mov eax, DWORD PTR [rbp-4]
        |    add eax, 1
        |    mov DWORD PTR [rbp-4], eax
        |    jmp .L0
        |
        |.L1:
        |    add rsp, 4
        |    pop rbp
        |    ret
        |"#,
    );
}

#[test]
fn test_iteration_for_loop_inclusive_range() {
    let program = compile(
        r#"
        |main :: () {
        |    for i : 3..=10 {
        |        i;
        |    }
        |}
        |"#,
    );

    check(
        program,
        r#"
        |main:
        |    push rbp
        |    mov rbp, rsp
        |    sub rsp, 4
        |
        |    mov eax, 3
        |    mov DWORD PTR [rbp-4], eax
        |
        |.L0:
        |    mov eax, DWORD PTR [rbp-4]
        |    cmp eax, 10
        |    jg .L1
        |
        |    mov eax, DWORD PTR [rbp-4]
        |
        |    mov eax, DWORD PTR [rbp-4]
        |    add eax, 1
        |    mov DWORD PTR [rbp-4], eax
        |    jmp .L0
        |
        |.L1:
        |    add rsp, 4
        |    pop rbp
        |    ret
        |"#,
    );
}

#[test]
fn test_break_infinite_for_loop() {
    let program = compile(
        r#"
        |main :: () {
        |    for {
        |        break
        |    }
        |}
        |"#,
    );

    check(
        program,
        r#"
        |main:
        |    push rbp
        |    mov rbp, rsp
        |.L0:
        |    jmp .L1
        |    jmp .L0
        |.L1:
        |    pop rbp
        |    ret
        |"#,
    );
}

#[test]
fn test_break_innermost_for_loop() {
    let program = compile(
        r#"
        |main :: () {
        |    for {
        |        for {
        |            break
        |        }
        |        break
        |    }
        |}
        |"#,
    );

    check(
        program,
        r#"
        |main:
        |    push rbp
        |    mov rbp, rsp
        |.L0:               ; start of outermost for-loop
        |
        |.L2:               ; start of innermost for-loop
        |    jmp .L3        ; break out of innermost for-loop
        |    jmp .L2
        |.L3:               ; exit of innermost for-loop
        |
        |    jmp .L1        ; break out of outermost for-loop
        |    jmp .L0
        |
        |.L1:               ; exit of outermost for-loop
        |    pop rbp
        |    ret
        |"#,
    );
}

#[test]
fn test_many_breaks_in_infinite_for_loop() {
    let program = compile(
        r#"
        |main :: () {
        |    for {
        |        break;
        |        break;
        |        break;
        |        break;
        |    }
        |}
        |"#,
    );

    check(
        program,
        r#"
        |main:
        |    push rbp
        |    mov rbp, rsp
        |.L0:
        |    jmp .L1
        |    jmp .L1
        |    jmp .L1
        |    jmp .L1
        |    jmp .L0
        |.L1:
        |    pop rbp
        |    ret
        |"#,
    );
}

#[test]
fn test_breaks_iterative_for_loop() {
    let program = compile(
        r#"
        |main :: () {
        |    for i : 0..10 {
        |        break
        |    }
        |}
        |"#,
    );

    check(
        program,
        r#"
        |main:
        |    push rbp
        |    mov rbp, rsp
        |    sub rsp, 4
        |    mov eax, 0
        |    mov DWORD PTR [rbp-4], eax
        |.L0:
        |    mov eax, DWORD PTR [rbp-4]
        |    cmp eax, 10
        |    jge .L1
        |
        |    jmp .L1  ; break
        |
        |    mov eax, DWORD PTR [rbp-4]
        |    add eax, 1
        |    mov DWORD PTR [rbp-4], eax
        |    jmp .L0
        |.L1:
        |    add rsp, 4
        |    pop rbp
        |    ret
        |"#,
    );
}

#[test]
fn test_continue_infinite_for_loop() {
    let program = compile(
        r#"
        |main :: () {
        |    for {
        |        continue
        |    }
        |}
        |"#,
    );

    check(
        program,
        r#"
        |main:
        |    push rbp
        |    mov rbp, rsp
        |.L0:
        |    jmp .L0
        |    jmp .L0
        |.L1:
        |    pop rbp
        |    ret
        |"#,
    );
}

#[test]
fn test_continue_innermost_for_loop() {
    let program = compile(
        r#"
        |main :: () {
        |    for {
        |        for {
        |            continue
        |        }
        |        continue
        |    }
        |}
        |"#,
    );

    check(
        program,
        r#"
        |main:
        |    push rbp
        |    mov rbp, rsp
        |.L0:               ; start of outermost for-loop
        |
        |.L2:               ; start of innermost for-loop
        |    jmp .L2        ; continue innermost for-loop
        |    jmp .L2
        |.L3:               ; exit of innermost for-loop
        |
        |    jmp .L0        ; continue outermost for-loop
        |    jmp .L0
        |
        |.L1:               ; exit of outermost for-loop
        |    pop rbp
        |    ret
        |"#,
    );
}

#[test]
fn test_many_continues_in_infinite_for_loop() {
    let program = compile(
        r#"
        |main :: () {
        |    for {
        |        continue;
        |        continue;
        |        continue;
        |        continue;
        |    }
        |}
        |"#,
    );

    check(
        program,
        r#"
        |main:
        |    push rbp
        |    mov rbp, rsp
        |.L0:
        |    jmp .L0
        |    jmp .L0
        |    jmp .L0
        |    jmp .L0
        |
        |    jmp .L0 ; for-loop's jump
        |.L1:
        |    pop rbp
        |    ret
        |"#,
    );
}

#[test]
fn test_continue_iterative_for_loop() {
    let program = compile(
        r#"
        |main :: () {
        |    for i : 0..10 {
        |        continue
        |    }
        |}
        |"#,
    );

    check(
        program,
        r#"
        |main:
        |    push rbp
        |    mov rbp, rsp
        |    sub rsp, 4
        |    mov eax, 0
        |    mov DWORD PTR [rbp-4], eax
        |.L0:
        |    mov eax, DWORD PTR [rbp-4]
        |    cmp eax, 10
        |    jge .L1
        |
        |    jmp .L0  ; continue
        |
        |    mov eax, DWORD PTR [rbp-4]
        |    add eax, 1
        |    mov DWORD PTR [rbp-4], eax
        |    jmp .L0
        |.L1:
        |    add rsp, 4
        |    pop rbp
        |    ret
        |"#,
    );
}

#[test]
fn test_break_and_continue_under_conditionals() {
    let program = compile(
        r#"
        |main :: () {
        |    for i : 0..10 {
        |        if i {
        |            break
        |        } else {
        |            continue
        |        }
        |    }
        |}
        |"#,
    );

    check(
        program,
        r#"
        |main:
        |    push rbp
        |    mov rbp, rsp
        |    sub rsp, 4
        |
        |    ; initialize i
        |    mov eax, 0
        |    mov DWORD PTR [rbp-4], eax
        |
        |.L0:
        |    ; loop's condition check
        |    mov eax, DWORD PTR [rbp-4]
        |    cmp eax, 10
        |    jge .L1
        |
        |    mov eax, DWORD PTR [rbp-4]
        |    cmp eax, 0
        |    je .L2     ; if zero, then go to false-branch
        |
        |    jmp .L1    ; true-branch, do a break
        |
        |    jmp .L3    ; exit of true-branch, this is obviously unreachable
        |
        |.L2:
        |    jmp .L0    ; false-branch, do a continue
        |
        |.L3:
        |    ; loop's iteration
        |    mov eax, DWORD PTR [rbp-4]
        |    add eax, 1
        |    mov DWORD PTR [rbp-4], eax
        |    jmp .L0
        |
        |.L1:
        |    add rsp, 4
        |    pop rbp
        |    ret
        |"#,
    );
}

#[test]
fn test_call_previously_defined_function() {
    let program = compile(
        r#"
        |foo :: () {}
        |
        |bar :: () {
        |    foo()
        |}
        |"#,
    );

    check(
        program,
        r#"
        |foo:
        |    push rbp
        |    mov rbp, rsp
        |    pop rbp
        |    ret
        |
        |bar:
        |    push rbp
        |    mov rbp, rsp
        |    call foo
        |    pop rbp
        |    ret
        |"#,
    );
}

#[test]
fn test_call_later_defined_function() {
    let program = compile(
        r#"
        |foo :: () {
        |    bar()
        |}
        |
        |bar :: () {}
        |"#,
    );

    check(
        program,
        r#"
        |foo:
        |    push rbp
        |    mov rbp, rsp
        |    call bar
        |    pop rbp
        |    ret
        |
        |bar:
        |    push rbp
        |    mov rbp, rsp
        |    pop rbp
        |    ret
        |"#,
    );
}

#[test]
fn test_if_else_with_basic_expressions() {
    let program = compile(
        r#"
        |main :: () -> i32 {
        |    if 1 {
        |        1
        |    } else {
        |        0
        |    }
        |}
        |"#,
    );

    check(
        program,
        r#"
        |main:
        |    push rbp
        |    mov rbp, rsp
        |    mov eax, 1
        |    cmp eax, 0
        |    je .L0
        |    mov eax, 1
        |    jmp .L1
        |
        |.L0:
        |    mov eax, 0
        |
        |.L1:
        |    pop rbp
        |    ret
        |"#,
    );
}

#[test]
fn test_if_else_inside_another() {
    let program = compile(
        r#"
        |main :: () -> i32 {
        |    if 1 {
        |        if 2 { 3 } else { 4 }
        |    } else {
        |        0
        |    }
        |}
        |"#,
    );

    check(
        program,
        r#"
        |main:
        |    push rbp
        |    mov rbp, rsp
        |    mov eax, 1
        |    cmp eax, 0
        |    je .L0
        |    mov eax, 2
        |    cmp eax, 0
        |    je .L1
        |    mov eax, 3
        |    jmp .L2
        |.L1:
        |    mov eax, 4
        |.L2:
        |    jmp .L3
        |.L0:
        |    mov eax, 0
        |.L3:
        |    pop rbp
        |    ret
        |"#,
    );
}

#[test]
fn test_if_without_else() {
    let program = compile(
        r#"
        |main :: () -> i32 {
        |    if 1 {
        |        1
        |    };
        |
        |    0
        |}
        |"#,
    );

    check(
        program,
        r#"
        |main:
        |    push rbp
        |    mov rbp, rsp
        |    mov eax, 1
        |    cmp eax, 0
        |    je .L0
        |    mov eax, 1
        |.L0:
        |    mov eax, 0
        |    pop rbp
        |    ret
        |"#,
    );
}

#[test]
fn test_multi_exprs_inside_if_body() {
    let program = compile(
        r#"
        |main :: () -> i32 {
        |    if 1 {
        |        1;
        |        2;
        |        3
        |    } else {
        |        4;
        |        5
        |    }
        |}
        |"#,
    );

    check(
        program,
        r#"
        |main:
        |    push rbp
        |    mov rbp, rsp
        |    mov eax, 1
        |    cmp eax, 0
        |    je .L0
        |    mov eax, 1
        |    mov eax, 2
        |    mov eax, 3
        |    jmp .L1
        |.L0:
        |    mov eax, 4
        |    mov eax, 5
        |.L1:
        |    pop rbp
        |    ret
        |"#,
    );
}

#[test]
fn test_chained_if_else() {
    let program = compile(
        r#"
        |main :: () -> i32 {
        |    if 10 {
        |        1
        |    } else if 20 {
        |        2
        |    } else if 30 {
        |        3
        |    } else {
        |        4
        |    }
        |}
        |"#,
    );

    check(
        program,
        r#"
        |main:
        |    push rbp
        |    mov rbp, rsp
        |    mov eax, 10
        |    cmp eax, 0
        |    je .L0
        |    mov eax, 1
        |    jmp .L3
        |
        |.L0:
        |    mov eax, 20
        |    cmp eax, 0
        |    je .L1
        |    mov eax, 2
        |    jmp .L3
        |
        |.L1:
        |    mov eax, 30
        |    cmp eax, 0
        |    je .L2
        |    mov eax, 3
        |    jmp .L3
        |
        |.L2:
        |    mov eax, 4
        |.L3:
        |    pop rbp
        |    ret
        |"#,
    );
}

#[test]
fn test_chained_if_else_without_final_else() {
    let program = compile(
        r#"
        |main :: () -> i32 {
        |    if 10 {
        |        1
        |    } else if 20 {
        |        2
        |    } else if 30 {
        |        3
        |    }
        |}
        |"#,
    );

    check(
        program,
        r#"
        |main:
        |    push rbp
        |    mov rbp, rsp
        |    mov eax, 10
        |    cmp eax, 0
        |    je .L0
        |    mov eax, 1
        |    jmp .L2
        |
        |.L0:
        |    mov eax, 20
        |    cmp eax, 0
        |    je .L1
        |    mov eax, 2
        |    jmp .L2
        |
        |.L1:
        |    mov eax, 30
        |    cmp eax, 0
        |    je .L2
        |    mov eax, 3
        |    jmp .L2
        |
        |.L2:
        |    pop rbp
        |    ret
        |"#,
    );
}
