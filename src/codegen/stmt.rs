use vstd::prelude::*;
use vstd::string::*;
use super::expr::{gen_expr, spec_gen_expr, CodegenError};
use crate::parser::stmt::{lemma_comp_view, stmts_view, IfStruct, SpecStmt, Stmt};
use crate::text::{decimal, decimal_string};

verus! {

broadcast use {vstd::seq::group_seq_axioms, vstd::std_specs::vec::group_vec_axioms};

/// Hands out label numbers, each one once.
pub struct LabelIndex {
    /// The number the next request receives.
    pub next: u64,
}

impl LabelIndex {
    /// A counter that has handed out nothing yet.
    pub fn new() -> (r: Self)
        ensures
            r.next == 0,
    {
        LabelIndex { next: 0 }
    }

    /// Takes a fresh number; `None` once every 64-bit number has been handed out.
    pub fn get(&mut self) -> (r: Option<u64>)
        ensures
            old(self).next < u64::MAX ==> r == Some(old(self).next) && final(self).next == old(
                self,
            ).next + 1,
            old(self).next == u64::MAX ==> r is None && final(self).next == old(self).next,
    {
        if self.next == u64::MAX {
            None
        } else {
            let prev = self.next;
            self.next = prev + 1;
            Some(prev)
        }
    }
}

/// The label that closes the conditional numbered `k`.
pub open spec fn else_label(k: nat) -> Seq<char> {
    ".d.if.else."@ + decimal(k)
}

/// What generating a statement yields: its code and the label numbers it took, in order.
pub type SpecCode = Result<(Seq<char>, Seq<nat>), CodegenError>;

/// `pre` in front of the code of `r`, and `taken` in front of its labels.
pub open spec fn prepend_code(pre: Seq<char>, taken: Seq<nat>, r: SpecCode) -> SpecCode {
    match r {
        Ok((t, m)) => Ok((pre + t, taken + m)),
        Err(e) => Err(e),
    }
}

/// The code of a statement in a function whose return label is `ret`, numbering its
/// conditionals from `k` on.
pub open spec fn spec_gen_stmt(s: SpecStmt, ret: Seq<char>, k: nat) -> SpecCode
    decreases s,
{
    match s {
        SpecStmt::ExprStmt(e) => match spec_gen_expr(e) {
            Ok(t) => Ok((t + "    pop rax\n"@, Seq::empty())),
            Err(err) => Err(err),
        },
        SpecStmt::ReturnStmt(e) => match spec_gen_expr(e) {
            Ok(t) => Ok((t + "    pop rax\n"@ + "    jmp "@ + ret + "\n"@, Seq::empty())),
            Err(err) => Err(err),
        },
        SpecStmt::IfStmt(cond, body) => if k >= u64::MAX {
            Err(CodegenError::LabelsExhausted)
        } else {
            match spec_gen_expr(cond) {
                Ok(c) => prepend_code(
                    c + "    pop rax\n"@ + "    cmp rax, 0\n"@ + "    je "@ + else_label(k)
                        + "\n"@,
                    seq![k],
                    match spec_gen_stmt(*body, ret, k + 1) {
                        Ok((b, m)) => Ok((b + else_label(k) + ":\n"@, m)),
                        Err(err) => Err(err),
                    },
                ),
                Err(err) => Err(err),
            }
        },
        SpecStmt::CompStmt(ss) => spec_gen_stmts(ss, ret, k),
        SpecStmt::NullStmt => Ok((Seq::empty(), Seq::empty())),
    }
}

/// The code of statements in order, numbering conditionals from `k` on.
pub open spec fn spec_gen_stmts(ss: Seq<SpecStmt>, ret: Seq<char>, k: nat) -> SpecCode
    decreases ss,
{
    if ss.len() == 0 {
        Ok((Seq::empty(), Seq::empty()))
    } else {
        match spec_gen_stmt(ss[0], ret, k) {
            Ok((t, m)) => prepend_code(t, m, spec_gen_stmts(ss.drop_first(), ret, k + m.len())),
            Err(err) => Err(err),
        }
    }
}

/// The executable outcome of generating code agrees with the spec outcome `s`, taken with
/// the counter at `k`; `k2` is the counter afterwards.
pub open spec fn generated(r: Result<String, CodegenError>, s: SpecCode, k: u64, k2: u64) -> bool {
    match s {
        Ok((t, m)) => r matches Ok(code) && code@ == t && k2 == k + m.len(),
        Err(e) => r == Err::<String, CodegenError>(e),
    }
}

proof fn lemma_prepend_code_assoc(a: Seq<char>, ma: Seq<nat>, b: Seq<char>, mb: Seq<nat>, r: SpecCode)
    ensures
        prepend_code(a, ma, prepend_code(b, mb, r)) == prepend_code(a + b, ma + mb, r),
{
    if let Ok((t, m)) = r {
        assert(a + (b + t) =~= (a + b) + t);
        assert(ma + (mb + m) =~= (ma + mb) + m);
    }
}

/// The text of the label that closes the conditional numbered `k`.
fn else_label_string(k: u64) -> (r: String)
    ensures
        r@ == else_label(k as nat),
{
    let mut s = String::from_str(".d.if.else.");
    s.append(decimal_string(k).as_str());
    s
}

/// Generates the code of a statement in a function whose return label is `return_label`,
/// numbering its conditionals from `label_index`.
pub fn gen_stmt(stmt: &Stmt, return_label: &str, label_index: &mut LabelIndex) -> (r: Result<
    String,
    CodegenError,
>)
    ensures
        generated(
            r,
            spec_gen_stmt(stmt@, return_label@, old(label_index).next as nat),
            old(label_index).next,
            final(label_index).next,
        ),
    decreases stmt, 1nat,
{
    match stmt {
        Stmt::ExprStmt(e) => {
            let mut code = gen_expr(e)?;
            code.append("    pop rax\n");
            Ok(code)
        },
        Stmt::ReturnStmt(e) => {
            let mut code = gen_expr(e)?;
            let ghost t = code@;
            code.append("    pop rax\n");
            code.append("    jmp ");
            code.append(return_label);
            code.append("\n");
            assert(code@ =~= t + "    pop rax\n"@ + "    jmp "@ + return_label@ + "\n"@);
            Ok(code)
        },
        Stmt::IfStmt(if_struct) => {
            let IfStruct { cond, body } = &**if_struct;
            let k = match label_index.get() {
                Some(k) => k,
                None => {
                    return Err(CodegenError::LabelsExhausted);
                },
            };
            let else_label = else_label_string(k);
            let mut code = gen_expr(cond)?;
            let ghost c = code@;
            code.append("    pop rax\n");
            code.append("    cmp rax, 0\n");
            code.append("    je ");
            code.append(else_label.as_str());
            code.append("\n");
            let ghost head = code@;
            assert(head =~= c + "    pop rax\n"@ + "    cmp rax, 0\n"@ + "    je "@ + else_label@
                + "\n"@);
            let b = gen_stmt(body, return_label, label_index)?;
            code.append(b.as_str());
            code.append(else_label.as_str());
            code.append(":\n");
            proof {
                let (bt, m) = spec_gen_stmt(body@, return_label@, k as nat + 1)->Ok_0;
                assert(code@ =~= head + (bt + else_label@ + ":\n"@));
            }
            Ok(code)
        },
        Stmt::CompStmt(stmts) => {
            proof {
                lemma_comp_view(*stmts);
            }
            gen_stmts(stmts, return_label, label_index)
        },
        Stmt::NullStmt => Ok(String::new()),
    }
}

/// Generates the code of statements in order.
pub fn gen_stmts(stmts: &Vec<Stmt>, return_label: &str, label_index: &mut LabelIndex) -> (r:
    Result<String, CodegenError>)
    ensures
        generated(
            r,
            spec_gen_stmts(stmts_view(stmts@), return_label@, old(label_index).next as nat),
            old(label_index).next,
            final(label_index).next,
        ),
    decreases stmts, 0nat,
{
    let ghost k0 = label_index.next;
    let ghost all = stmts_view(stmts@);
    let ghost ret = return_label@;
    let ghost mut taken: Seq<nat> = Seq::empty();
    let mut code = String::new();
    let n = stmts.len();
    let mut i: usize = 0;
    proof {
        assert(all.skip(0) =~= all);
        if let Ok((t, m)) = spec_gen_stmts(all, ret, k0 as nat) {
            assert(Seq::<char>::empty() + t =~= t);
            assert(Seq::<nat>::empty() + m =~= m);
        }
    }
    while i < n
        invariant
            n == stmts@.len(),
            all == stmts_view(stmts@),
            ret == return_label@,
            k0 == old(label_index).next,
            i <= n,
            label_index.next == k0 + taken.len(),
            spec_gen_stmts(all, ret, k0 as nat) == prepend_code(
                code@,
                taken,
                spec_gen_stmts(all.skip(i as int), ret, label_index.next as nat),
            ),
        decreases n - i,
    {
        let ghost k = label_index.next;
        let ghost before = code@;
        assert(all.skip(i as int)[0] == stmts@[i as int]@);
        assert(all.skip(i as int).drop_first() =~= all.skip(i + 1));
        let piece = match gen_stmt(&stmts[i], return_label, label_index) {
            Ok(piece) => piece,
            Err(e) => {
                assert(spec_gen_stmts(all.skip(i as int), ret, k as nat) == Err::<
                    (Seq<char>, Seq<nat>),
                    CodegenError,
                >(e));
                assert(spec_gen_stmts(all, ret, k0 as nat) == Err::<
                    (Seq<char>, Seq<nat>),
                    CodegenError,
                >(e));
                return Err(e);
            },
        };
        proof {
            let (t, m) = spec_gen_stmt(stmts@[i as int]@, ret, k as nat)->Ok_0;
            lemma_prepend_code_assoc(
                before,
                taken,
                t,
                m,
                spec_gen_stmts(all.skip(i + 1), ret, label_index.next as nat),
            );
            taken = taken + m;
        }
        code.append(piece.as_str());
        i = i + 1;
    }
    proof {
        assert(code@ + Seq::<char>::empty() =~= code@);
        assert(taken + Seq::<nat>::empty() =~= taken);
    }
    Ok(code)
}

/// `m` counts up by one from `k`.
pub open spec fn consecutive(m: Seq<nat>, k: nat) -> bool {
    forall|i: int| 0 <= i < m.len() ==> m[i] == k + i
}

/// The labels a statement takes are the next ones of the counter, in order.
pub proof fn lemma_stmt_labels_consecutive(s: SpecStmt, ret: Seq<char>, k: nat)
    ensures
        spec_gen_stmt(s, ret, k) matches Ok((_, m)) ==> consecutive(m, k),
    decreases s,
{
    match s {
        SpecStmt::IfStmt(cond, body) => {
            lemma_stmt_labels_consecutive(*body, ret, k + 1);
            if let Ok((_, m)) = spec_gen_stmt(s, ret, k) {
                let mb = spec_gen_stmt(*body, ret, k + 1)->Ok_0.1;
                assert(m == seq![k] + mb);
                assert forall|i: int| 0 <= i < m.len() implies m[i] == k + i by {
                    if i > 0 {
                        assert(m[i] == mb[i - 1]);
                    }
                }
            }
        },
        SpecStmt::CompStmt(ss) => {
            lemma_stmts_labels_consecutive(ss, ret, k);
        },
        _ => {},
    }
}

/// The labels a run of statements takes are the next ones of the counter, in order.
pub proof fn lemma_stmts_labels_consecutive(ss: Seq<SpecStmt>, ret: Seq<char>, k: nat)
    ensures
        spec_gen_stmts(ss, ret, k) matches Ok((_, m)) ==> consecutive(m, k),
    decreases ss,
{
    if ss.len() > 0 {
        lemma_stmt_labels_consecutive(ss[0], ret, k);
        if let Ok((_, m1)) = spec_gen_stmt(ss[0], ret, k) {
            lemma_stmts_labels_consecutive(ss.drop_first(), ret, k + m1.len());
            if let Ok((_, m)) = spec_gen_stmts(ss, ret, k) {
                let m2 = spec_gen_stmts(ss.drop_first(), ret, k + m1.len())->Ok_0.1;
                assert(m == m1 + m2);
                assert forall|i: int| 0 <= i < m.len() implies m[i] == k + i by {
                    if i >= m1.len() {
                        assert(m[i] == m2[i - m1.len()]);
                    }
                }
            }
        }
    }
}

/// An empty block generates no code and takes no label, and one placed anywhere among
/// other statements leaves their code unchanged.
pub proof fn lemma_empty_block_adds_nothing(
    a: Seq<SpecStmt>,
    b: Seq<SpecStmt>,
    ret: Seq<char>,
    k: nat,
)
    ensures
        spec_gen_stmt(SpecStmt::CompStmt(Seq::empty()), ret, k) == Ok::<
            (Seq<char>, Seq<nat>),
            CodegenError,
        >((Seq::empty(), Seq::empty())),
        spec_gen_stmts(a + seq![SpecStmt::CompStmt(Seq::empty())] + b, ret, k) == spec_gen_stmts(
            a + b,
            ret,
            k,
        ),
    decreases a.len(),
{
    let empty = SpecStmt::CompStmt(Seq::empty());
    let x = a + seq![empty] + b;
    let y = a + b;
    assert(spec_gen_stmts(Seq::empty(), ret, k) == Ok::<(Seq<char>, Seq<nat>), CodegenError>(
        (Seq::empty(), Seq::empty()),
    ));
    if a.len() == 0 {
        assert(x[0] == empty);
        assert(x.drop_first() =~= b);
        assert(y =~= b);
        if let Ok((t, m)) = spec_gen_stmts(b, ret, k) {
            assert(Seq::<char>::empty() + t =~= t);
            assert(Seq::<nat>::empty() + m =~= m);
        }
    } else {
        assert(x[0] == a[0]);
        assert(y[0] == a[0]);
        assert(x.drop_first() =~= a.drop_first() + seq![empty] + b);
        assert(y.drop_first() =~= a.drop_first() + b);
        if let Ok((_, m)) = spec_gen_stmt(a[0], ret, k) {
            lemma_empty_block_adds_nothing(a.drop_first(), b, ret, k + m.len());
        }
    }
}

} // verus!
