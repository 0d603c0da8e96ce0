use vstd::prelude::*;
use vstd::string::*;
use crate::parser::expr::{Binary, Expr, SpecExpr};
use crate::text::{decimal, decimal_string};

verus! {

/// Why code generation failed.
#[derive(Debug, Clone, Copy, PartialEq, Eq, Structural)]
pub enum CodegenError {
    /// A function name used as a value rather than called.
    BareFunctionName,
    /// A call whose target is not a function name.
    CallTargetNotFunctionName,
    /// The counter that numbers jump labels has no fresh value left.
    LabelsExhausted,
}

/// The code of a binary operator: both operands, then `op` on them.
pub open spec fn binary_code(
    lhs: Result<Seq<char>, CodegenError>,
    rhs: Result<Seq<char>, CodegenError>,
    op: Seq<char>,
) -> Result<Seq<char>, CodegenError> {
    match lhs {
        Ok(l) => match rhs {
            Ok(r) => Ok(l + r + "    pop rdi\n"@ + "    pop rax\n"@ + op + "    push rax\n"@),
            Err(e) => Err(e),
        },
        Err(e) => Err(e),
    }
}

/// The stack-machine code of an expression: it leaves the expression's value pushed.
pub open spec fn spec_gen_expr(e: SpecExpr) -> Result<Seq<char>, CodegenError>
    decreases e,
{
    match e {
        SpecExpr::Num(n) => Ok("    push "@ + decimal(n as nat) + "\n"@),
        SpecExpr::Add(l, r) => binary_code(
            spec_gen_expr(*l),
            spec_gen_expr(*r),
            "    add rax, rdi\n"@,
        ),
        SpecExpr::Sub(l, r) => binary_code(
            spec_gen_expr(*l),
            spec_gen_expr(*r),
            "    sub rax, rdi\n"@,
        ),
        SpecExpr::Mul(l, r) => binary_code(
            spec_gen_expr(*l),
            spec_gen_expr(*r),
            "    imul rax, rdi\n"@,
        ),
        SpecExpr::Div(l, r) => binary_code(
            spec_gen_expr(*l),
            spec_gen_expr(*r),
            "    xor rdx, rdx\n    idiv rdi\n"@,
        ),
        SpecExpr::FnName(_) => Err(CodegenError::BareFunctionName),
        SpecExpr::FnCall(target) => match *target {
            SpecExpr::FnName(f) => Ok("    call "@ + f + "\n"@ + "    push rax\n"@),
            _ => Err(CodegenError::CallTargetNotFunctionName),
        },
    }
}

fn gen_binary(bin: &Binary, op: &str) -> (r: Result<String, CodegenError>)
    ensures
        binary_code(spec_gen_expr(bin.lhs@), spec_gen_expr(bin.rhs@), op@) == match r {
            Ok(s) => Ok(s@),
            Err(e) => Err(e),
        },
    decreases bin, 0nat,
{
    let mut s = gen_expr(&bin.lhs)?;
    let t = gen_expr(&bin.rhs)?;
    let ghost l = s@;
    s.append(t.as_str());
    s.append("    pop rdi\n");
    s.append("    pop rax\n");
    s.append(op);
    s.append("    push rax\n");
    assert(s@ =~= l + t@ + "    pop rdi\n"@ + "    pop rax\n"@ + op@ + "    push rax\n"@);
    Ok(s)
}

/// Generates the code of an expression, which leaves its value on the stack.
pub fn gen_expr(expr: &Expr) -> (r: Result<String, CodegenError>)
    ensures
        spec_gen_expr(expr@) == match r {
            Ok(s) => Ok(s@),
            Err(e) => Err(e),
        },
    decreases expr, 1nat,
{
    match expr {
        Expr::Num(n) => {
            let mut s = String::from_str("    push ");
            s.append(decimal_string(*n).as_str());
            s.append("\n");
            assert(s@ =~= "    push "@ + decimal(*n as nat) + "\n"@);
            Ok(s)
        },
        Expr::Add(bin) => gen_binary(bin, "    add rax, rdi\n"),
        Expr::Sub(bin) => gen_binary(bin, "    sub rax, rdi\n"),
        Expr::Mul(bin) => gen_binary(bin, "    imul rax, rdi\n"),
        Expr::Div(bin) => gen_binary(bin, "    xor rdx, rdx\n    idiv rdi\n"),
        Expr::FnName(_) => Err(CodegenError::BareFunctionName),
        Expr::FnCall(target) => match &**target {
            Expr::FnName(f) => {
                let mut s = String::from_str("    call ");
                s.append(f.as_str());
                s.append("\n");
                s.append("    push rax\n");
                assert(s@ =~= "    call "@ + f@ + "\n"@ + "    push rax\n"@);
                Ok(s)
            },
            _ => {
                assert(!(target@ is FnName));
                Err(CodegenError::CallTargetNotFunctionName)
            },
        },
    }
}

} // verus!
