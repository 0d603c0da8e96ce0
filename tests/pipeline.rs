use minicc::codegen::expr::CodegenError;
use minicc::lexer::LexError;
use minicc::parser::ParseError;
use minicc::{compile, CompileError};

const HEADER: &str = "    .intel_syntax noprefix\n    .text\n    .globl main\n";

// Runs generated text on a model of the few x86-64 instructions it uses, starting at
// `main`, and returns `rax` when `main` returns.
fn run(text: &str) -> i64 {
    let lines: Vec<&str> = text.lines().collect();
    let find = |label: &str| -> usize {
        lines
            .iter()
            .position(|l| l.strip_suffix(':') == Some(label))
            .unwrap_or_else(|| panic!("no label {}", label))
    };
    let (mut rax, mut rdi, mut rdx, mut zero) = (0i64, 0i64, 0i64, false);
    let mut stack: Vec<i64> = Vec::new();
    let mut calls: Vec<usize> = Vec::new();
    let mut pc = find("main");
    for _ in 0..100_000 {
        pc += 1;
        let line = lines[pc].trim();
        if lines[pc].ends_with(':') || line.starts_with('.') {
            continue;
        }
        let (op, arg) = line.split_once(' ').unwrap_or((line, ""));
        match (op, arg) {
            ("push", "rax") => stack.push(rax),
            ("push", n) => stack.push(n.parse::<u64>().unwrap() as i64),
            ("pop", "rax") => rax = stack.pop().unwrap(),
            ("pop", "rdi") => rdi = stack.pop().unwrap(),
            ("add", "rax, rdi") => rax = rax.wrapping_add(rdi),
            ("sub", "rax, rdi") => rax = rax.wrapping_sub(rdi),
            ("imul", "rax, rdi") => rax = rax.wrapping_mul(rdi),
            ("xor", "rdx, rdx") => rdx = 0,
            ("idiv", "rdi") => {
                assert_eq!(rdx, 0);
                rax /= rdi;
            }
            ("cmp", "rax, 0") => zero = rax == 0,
            ("je", label) => {
                if zero {
                    pc = find(label);
                }
            }
            ("jmp", label) => pc = find(label),
            ("call", f) => {
                calls.push(pc);
                pc = find(f);
            }
            ("ret", "") => match calls.pop() {
                Some(back) => pc = back,
                None => return rax,
            },
            _ => panic!("unexpected line {:?}", line),
        }
    }
    panic!("program did not return")
}

#[test]
fn compile_multiplication_binds_tighter() {
    let actual = compile("int main(){ return 1+2*3; }").unwrap();
    let expected = format!(
        "{}main:
    push 1
    push 2
    push 3
    pop rdi
    pop rax
    imul rax, rdi
    push rax
    pop rdi
    pop rax
    add rax, rdi
    push rax
    pop rax
    jmp .d.main.return
.d.main.return:
    ret
",
        HEADER
    );
    assert_eq!(expected, actual);
    assert_eq!(run(&actual), 7);
}

#[test]
fn compile_parentheses_override_precedence() {
    let actual = compile("int main(){ return (1+2)*3; }").unwrap();
    let expected = format!(
        "{}main:
    push 1
    push 2
    pop rdi
    pop rax
    add rax, rdi
    push rax
    push 3
    pop rdi
    pop rax
    imul rax, rdi
    push rax
    pop rax
    jmp .d.main.return
.d.main.return:
    ret
",
        HEADER
    );
    assert_eq!(expected, actual);
    assert_eq!(run(&actual), 9);
}

#[test]
fn compile_ifs_in_two_functions_get_distinct_labels() {
    let actual = compile("int f() { if (1) return 2; } int main() { if (0) return 3; return f(); }")
        .unwrap();
    assert!(actual.contains("    je .d.if.else.0\n"));
    assert!(actual.contains("    je .d.if.else.1\n"));
    assert_eq!(actual.matches(".d.if.else.0:\n").count(), 1);
    assert_eq!(actual.matches(".d.if.else.1:\n").count(), 1);
    assert!(actual.contains("    call f\n"));
    assert_eq!(run(&actual), 2);
}

#[test]
fn compile_runs_arithmetic_and_calls() {
    let cases = [
        ("int main() { return 1-2-3; }", -4),
        ("int main() { return 7/2; }", 3),
        ("int main() { return 2*3+4*5; }", 26),
        ("int seven() { return 7; } int main() { return seven()*seven()-1; }", 48),
        ("int main() { if (0) return 1; if (1) { ; return 5; } return 6; }", 5),
        ("int main() { if (1-1) return 1; return 2; }", 2),
    ];
    for (source, value) in cases {
        assert_eq!(run(&compile(source).unwrap()), value, "{}", source);
    }
}

#[test]
fn compile_empty_block_adds_nothing() {
    let with_block = compile("int main() { 1; {} 2; { { } } }").unwrap();
    let without = compile("int main() { 1; 2; }").unwrap();
    assert_eq!(with_block, without);
}

#[test]
fn compile_returns_go_through_one_exit() {
    let actual = compile("int main() { if (1) return 2; return 3; }").unwrap();
    assert_eq!(actual.matches("    ret\n").count(), 1);
    assert_eq!(actual.matches("    jmp .d.main.return\n").count(), 2);
    assert!(actual.ends_with(".d.main.return:\n    ret\n"));
    assert_eq!(run(&actual), 2);
}

#[test]
fn compile_rejects_call_of_non_name() {
    assert_eq!(
        compile("int main() { return (1+2)(); }"),
        Err(CompileError::Codegen(CodegenError::CallTargetNotFunctionName))
    );
    assert_eq!(
        compile("int main() { return 3(); }"),
        Err(CompileError::Codegen(CodegenError::CallTargetNotFunctionName))
    );
    assert_eq!(
        compile("int main() { return f; }"),
        Err(CompileError::Codegen(CodegenError::BareFunctionName))
    );
}

#[test]
fn compile_reports_each_stage() {
    assert_eq!(compile("int main() { return 1 % 2; }"), Err(CompileError::Lex(LexError::UnknownCharacter('%'))));
    assert_eq!(compile("main() { return 1; }"), Err(CompileError::Parse(ParseError::TypeExpected)));
    assert_eq!(compile("int main() { return 1; "), Err(CompileError::Parse(ParseError::UnterminatedBlock)));
}
