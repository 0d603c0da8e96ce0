use vstd::prelude::*;
use vstd::string::*;
use crate::parser::func::{Function, SpecFunction};
use crate::parser::functions_view;
use expr::CodegenError;
use crate::parser::expr::SpecExpr;
use crate::parser::stmt::SpecStmt;
use expr::spec_gen_expr;
use stmt::{
    consecutive, gen_stmts, generated, lemma_stmts_labels_consecutive, prepend_code,
    spec_gen_stmt, spec_gen_stmts, LabelIndex, SpecCode,
};

pub mod expr;
pub mod stmt;

verus! {

broadcast use vstd::seq::group_seq_axioms;

/// The directives that open every generated file.
pub open spec fn header() -> Seq<char> {
    "    .intel_syntax noprefix\n    .text\n    .globl main\n"@
}

/// The label of a function's single exit, which every `return` jumps to.
pub open spec fn return_label(name: Seq<char>) -> Seq<char> {
    ".d."@ + name + ".return"@
}

/// The code of a function: its label, its body, then its return label and `ret`.
pub open spec fn spec_gen_function(f: SpecFunction, k: nat) -> SpecCode {
    match spec_gen_stmts(f.body, return_label(f.name), k) {
        Ok((t, m)) => Ok(
            (f.name + ":\n"@ + t + return_label(f.name) + ":\n"@ + "    ret\n"@, m),
        ),
        Err(e) => Err(e),
    }
}

/// The code of functions in order; one counter numbers the conditionals of all of them.
pub open spec fn spec_gen_functions(fs: Seq<SpecFunction>, k: nat) -> SpecCode
    decreases fs.len(),
{
    if fs.len() == 0 {
        Ok((Seq::empty(), Seq::empty()))
    } else {
        match spec_gen_function(fs[0], k) {
            Ok((t, m)) => prepend_code(t, m, spec_gen_functions(fs.drop_first(), k + m.len())),
            Err(e) => Err(e),
        }
    }
}

/// The assembly text of a program.
pub open spec fn spec_gen(fs: Seq<SpecFunction>) -> Result<Seq<char>, CodegenError> {
    match spec_gen_functions(fs, 0) {
        Ok((t, _)) => Ok(header() + t),
        Err(e) => Err(e),
    }
}

fn return_label_string(name: &str) -> (r: String)
    ensures
        r@ == return_label(name@),
{
    let mut s = String::from_str(".d.");
    s.append(name);
    s.append(".return");
    s
}

fn gen_function(f: &Function, label_index: &mut LabelIndex) -> (r: Result<String, CodegenError>)
    ensures
        generated(
            r,
            spec_gen_function(f@, old(label_index).next as nat),
            old(label_index).next,
            final(label_index).next,
        ),
{
    let label = return_label_string(f.name.as_str());
    let body = gen_stmts(&f.body, label.as_str(), label_index)?;
    let mut code = f.name.clone();
    code.append(":\n");
    code.append(body.as_str());
    code.append(label.as_str());
    code.append(":\n");
    code.append("    ret\n");
    proof {
        let (t, m) = spec_gen_stmts(f@.body, return_label(f@.name), old(label_index).next as nat)->Ok_0;
        assert(code@ =~= f@.name + ":\n"@ + t + return_label(f@.name) + ":\n"@ + "    ret\n"@);
    }
    Ok(code)
}

/// Generates the assembly text of a program.
pub fn gen(ast: &[Function]) -> (r: Result<String, CodegenError>)
    ensures
        spec_gen(functions_view(ast@)) == match r {
            Ok(s) => Ok(s@),
            Err(e) => Err(e),
        },
{
    let mut label_index = LabelIndex::new();
    let ghost all = functions_view(ast@);
    let ghost mut taken: Seq<nat> = Seq::empty();
    let mut code = String::new();
    let n = ast.len();
    let mut i: usize = 0;
    proof {
        assert(all.skip(0) =~= all);
        if let Ok((t, m)) = spec_gen_functions(all, 0) {
            assert(Seq::<char>::empty() + t =~= t);
            assert(Seq::<nat>::empty() + m =~= m);
        }
    }
    while i < n
        invariant
            n == ast@.len(),
            all == functions_view(ast@),
            i <= n,
            label_index.next == taken.len(),
            spec_gen_functions(all, 0) == prepend_code(
                code@,
                taken,
                spec_gen_functions(all.skip(i as int), label_index.next as nat),
            ),
        decreases n - i,
    {
        let ghost k = label_index.next;
        let ghost before = code@;
        assert(all.skip(i as int)[0] == ast@[i as int]@);
        assert(all.skip(i as int).drop_first() =~= all.skip(i + 1));
        let piece = match gen_function(&ast[i], &mut label_index) {
            Ok(piece) => piece,
            Err(e) => {
                assert(spec_gen_functions(all, 0) == Err::<(Seq<char>, Seq<nat>), CodegenError>(e));
                return Err(e);
            },
        };
        proof {
            let (t, m) = spec_gen_function(ast@[i as int]@, k as nat)->Ok_0;
            let r = spec_gen_functions(all.skip(i + 1), label_index.next as nat);
            if let Ok((t2, m2)) = r {
                assert(before + (t + t2) =~= (before + t) + t2);
                assert(taken + (m + m2) =~= (taken + m) + m2);
            }
            taken = taken + m;
        }
        code.append(piece.as_str());
        i = i + 1;
    }
    let mut text = String::from_str("    .intel_syntax noprefix\n    .text\n    .globl main\n");
    text.append(code.as_str());
    proof {
        assert(code@ + Seq::<char>::empty() =~= code@);
        assert(taken + Seq::<nat>::empty() =~= taken);
    }
    Ok(text)
}

proof fn lemma_functions_labels_consecutive(fs: Seq<SpecFunction>, k: nat)
    ensures
        spec_gen_functions(fs, k) matches Ok((_, m)) ==> consecutive(m, k),
    decreases fs.len(),
{
    if fs.len() > 0 {
        let f = fs[0];
        lemma_stmts_labels_consecutive(f.body, return_label(f.name), k);
        if let Ok((_, m1)) = spec_gen_function(f, k) {
            lemma_functions_labels_consecutive(fs.drop_first(), k + m1.len());
            if let Ok((_, m)) = spec_gen_functions(fs, k) {
                let m2 = spec_gen_functions(fs.drop_first(), k + m1.len())->Ok_0.1;
                assert(m == m1 + m2);
                assert forall|i: int| 0 <= i < m.len() implies m[i] == k + i by {
                    if i >= m1.len() {
                        assert(m[i] == m2[i - m1.len()]);
                    }
                }
            }
        }
    }
}

/// Every conditional of a program gets its own else-label: the label numbers taken over
/// all its functions, in order, are 0, 1, 2, ..., so no two are equal.
pub proof fn lemma_else_labels_distinct(fs: Seq<SpecFunction>)
    ensures
        spec_gen_functions(fs, 0) matches Ok((_, m)) ==> {
            &&& forall|i: int| 0 <= i < m.len() ==> m[i] == i
            &&& forall|i: int, j: int| 0 <= i < j < m.len() ==> m[i] != m[j]
        },
{
    lemma_functions_labels_consecutive(fs, 0);
}

/// Every call in `e` names the function it calls.
pub open spec fn calls_named(e: SpecExpr) -> bool
    decreases e,
{
    match e {
        SpecExpr::Add(l, r) => calls_named(*l) && calls_named(*r),
        SpecExpr::Sub(l, r) => calls_named(*l) && calls_named(*r),
        SpecExpr::Mul(l, r) => calls_named(*l) && calls_named(*r),
        SpecExpr::Div(l, r) => calls_named(*l) && calls_named(*r),
        SpecExpr::FnCall(target) => *target is FnName,
        _ => true,
    }
}

/// Every call in the statement `s` names the function it calls.
pub open spec fn stmt_calls_named(s: SpecStmt) -> bool
    decreases s,
{
    match s {
        SpecStmt::ExprStmt(e) => calls_named(e),
        SpecStmt::ReturnStmt(e) => calls_named(e),
        SpecStmt::IfStmt(c, b) => calls_named(c) && stmt_calls_named(*b),
        SpecStmt::CompStmt(ss) => forall|i: int|
            0 <= i < ss.len() ==> stmt_calls_named(#[trigger] ss[i]),
        SpecStmt::NullStmt => true,
    }
}

proof fn lemma_expr_ok_calls_named(e: SpecExpr)
    ensures
        spec_gen_expr(e) is Ok ==> calls_named(e),
    decreases e,
{
    match e {
        SpecExpr::Add(l, r) => {
            lemma_expr_ok_calls_named(*l);
            lemma_expr_ok_calls_named(*r);
        },
        SpecExpr::Sub(l, r) => {
            lemma_expr_ok_calls_named(*l);
            lemma_expr_ok_calls_named(*r);
        },
        SpecExpr::Mul(l, r) => {
            lemma_expr_ok_calls_named(*l);
            lemma_expr_ok_calls_named(*r);
        },
        SpecExpr::Div(l, r) => {
            lemma_expr_ok_calls_named(*l);
            lemma_expr_ok_calls_named(*r);
        },
        _ => {},
    }
}

proof fn lemma_stmt_ok_calls_named(s: SpecStmt, ret: Seq<char>, k: nat)
    ensures
        spec_gen_stmt(s, ret, k) is Ok ==> stmt_calls_named(s),
    decreases s,
{
    match s {
        SpecStmt::ExprStmt(e) => lemma_expr_ok_calls_named(e),
        SpecStmt::ReturnStmt(e) => lemma_expr_ok_calls_named(e),
        SpecStmt::IfStmt(c, b) => {
            lemma_expr_ok_calls_named(c);
            lemma_stmt_ok_calls_named(*b, ret, k + 1);
        },
        SpecStmt::CompStmt(ss) => lemma_stmts_ok_calls_named(ss, ret, k),
        SpecStmt::NullStmt => {},
    }
}

proof fn lemma_stmts_ok_calls_named(ss: Seq<SpecStmt>, ret: Seq<char>, k: nat)
    ensures
        spec_gen_stmts(ss, ret, k) is Ok ==> forall|i: int|
            0 <= i < ss.len() ==> stmt_calls_named(#[trigger] ss[i]),
    decreases ss,
{
    if ss.len() > 0 {
        lemma_stmt_ok_calls_named(ss[0], ret, k);
        if let Ok((_, m)) = spec_gen_stmt(ss[0], ret, k) {
            lemma_stmts_ok_calls_named(ss.drop_first(), ret, k + m.len());
            if spec_gen_stmts(ss, ret, k) is Ok {
                assert forall|i: int| 0 <= i < ss.len() implies stmt_calls_named(
                    #[trigger] ss[i],
                ) by {
                    if i > 0 {
                        assert(ss[i] == ss.drop_first()[i - 1]);
                    }
                }
            }
        }
    }
}

proof fn lemma_functions_ok_calls_named(fs: Seq<SpecFunction>, k: nat)
    ensures
        spec_gen_functions(fs, k) is Ok ==> forall|i: int, j: int|
            0 <= i < fs.len() && 0 <= j < fs[i].body.len() ==> stmt_calls_named(
                #[trigger] fs[i].body[j],
            ),
    decreases fs.len(),
{
    if fs.len() > 0 {
        lemma_stmts_ok_calls_named(fs[0].body, return_label(fs[0].name), k);
        if let Ok((_, m)) = spec_gen_function(fs[0], k) {
            lemma_functions_ok_calls_named(fs.drop_first(), k + m.len());
            if spec_gen_functions(fs, k) is Ok {
                assert forall|i: int, j: int|
                    0 <= i < fs.len() && 0 <= j < fs[i].body.len() implies stmt_calls_named(
                    #[trigger] fs[i].body[j],
                ) by {
                    if i > 0 {
                        assert(fs[i] == fs.drop_first()[i - 1]);
                    }
                }
            }
        }
    }
}

/// A call whose target is not a function name is never accepted: generating it fails,
/// and a program that code is generated for holds no such call anywhere.
pub proof fn lemma_call_of_non_name_rejected(e: SpecExpr, fs: Seq<SpecFunction>)
    ensures
        !(e is FnName) ==> spec_gen_expr(SpecExpr::FnCall(Box::new(e))) == Err::<
            Seq<char>,
            CodegenError,
        >(CodegenError::CallTargetNotFunctionName),
        spec_gen(fs) is Ok ==> forall|i: int, j: int|
            0 <= i < fs.len() && 0 <= j < fs[i].body.len() ==> stmt_calls_named(
                #[trigger] fs[i].body[j],
            ),
{
    lemma_functions_ok_calls_named(fs, 0);
}

} // verus!
