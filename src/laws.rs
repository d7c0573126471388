use vstd::prelude::*;
use crate::cfg::{CgState, emit, fresh_state, next_index};
use crate::codegen::{
    CodegenError, FnView, decl_view, def_view, int_op_of, int_signed, is_i32, lower, lower_seq, run_spec,
};
use crate::ir::{apply_op, defined_in, eval_value, lemma_eval_extend, wrap32};
use crate::types::{Sign, Type, int_bits};
use crate::ir::{Inst, IntOp, Value};
use crate::node::AST;

verus! {

broadcast use vstd::std_specs::vec::group_vec_axioms;

/// All instructions of a sequence of blocks, block after block.
pub open spec fn flat(bs: Seq<Seq<Inst>>) -> Seq<Inst>
    decreases bs.len(),
{
    if bs.len() == 0 {
        Seq::empty()
    } else {
        flat(bs.drop_last()) + bs.last()
    }
}

/// A proper basic block: it ends in a terminator, and holds no other.
pub open spec fn proper_block(b: Seq<Inst>) -> bool {
    &&& b.len() > 0
    &&& b.last().is_terminator()
    &&& forall|j: int| 0 <= j < b.len() - 1 ==> !(#[trigger] b[j]).is_terminator()
}

/// Code under construction is well formed: every block but the last is proper,
/// the last holds a terminator at most at its end, and the state knows whether
/// it does.
pub open spec fn code_wf(st: CgState) -> bool {
    &&& st.blocks.len() >= 1
    &&& forall|i: int| 0 <= i < st.blocks.len() - 1 ==> proper_block(#[trigger] st.blocks[i])
    &&& forall|j: int|
        0 <= j < st.blocks.last().len() - 1 ==> !(#[trigger] st.blocks.last()[j]).is_terminator()
    &&& st.terminated <==> (st.blocks.last().len() > 0 && st.blocks.last().last().is_terminator())
}

proof fn lemma_emit(st: CgState, i: Inst)
    requires
        code_wf(st),
        !st.terminated,
    ensures
        code_wf(emit(st, i)),
        flat(emit(st, i).blocks) == flat(st.blocks).push(i),
{
    let ns = emit(st, i);
    assert(ns.blocks.drop_last() =~= st.blocks.drop_last());
    assert(flat(st.blocks) == flat(st.blocks.drop_last()) + st.blocks.last());
    assert(flat(ns.blocks.drop_last()) + st.blocks.last().push(i) =~= (flat(st.blocks.drop_last())
        + st.blocks.last()).push(i));
    assert forall|k: int| 0 <= k < ns.blocks.len() - 1 implies proper_block(#[trigger] ns.blocks[k]) by {
        assert(ns.blocks[k] == st.blocks[k]);
    }
    assert forall|j: int| 0 <= j < ns.blocks.last().len() - 1 implies !(
    #[trigger] ns.blocks.last()[j]).is_terminator() by {
        assert(ns.blocks.last()[j] == st.blocks.last()[j]);
    }
}

/// Whether a node holds a `Return` anywhere.
pub open spec fn has_return(ast: AST) -> bool
    decreases ast, 0nat,
{
    match ast {
        AST::Return(_) => true,
        AST::Block(v) => seq_has_return(v@),
        AST::BinaryOp(l, r, _) => has_return(*l) || has_return(*r),
        _ => false,
    }
}

/// Whether a statement of the sequence holds a `Return` anywhere.
pub open spec fn seq_has_return(s: Seq<AST>) -> bool
    decreases s, 1nat,
{
    if s.len() == 0 {
        false
    } else {
        has_return(s[0]) || seq_has_return(s.subrange(1, s.len() as int))
    }
}

/// Lowering keeps the code well formed and only ever appends instructions;
/// without a `Return`, it never leaves the cursor in a terminated block.
pub proof fn lemma_lower(ast: AST, st: CgState)
    requires
        code_wf(st),
    ensures
        lower(ast, st) matches Ok((_, _, s)) ==> {
            &&& code_wf(s)
            &&& flat(st.blocks).len() <= flat(s.blocks).len()
            &&& flat(s.blocks).take(flat(st.blocks).len() as int) == flat(st.blocks)
            &&& (!has_return(ast) && s.terminated) ==> st.terminated
        },
    decreases ast, 0nat,
{
    match ast {
        AST::Block(v) => {
            lemma_lower_seq(v@, st);
        },
        AST::BinaryOp(l, r, op) => {
            lemma_lower(*l, st);
            if let Ok((_, _, s1)) = lower(*l, st) {
                lemma_lower(*r, s1);
                if let Ok((rv, _, s2)) = lower(*r, s1) {
                    if let Ok((_, _, s3)) = lower(ast, st) {
                        let iop = crate::codegen::int_op_of(op)->0;
                        lemma_emit(s2, Inst::Bin(iop, lower(*l, st)->Ok_0.0, rv));
                        assert(flat(s3.blocks).take(flat(s2.blocks).len() as int) =~= flat(s2.blocks));
                        lemma_prefix_trans(flat(st.blocks), flat(s1.blocks), flat(s2.blocks));
                        lemma_prefix_trans(flat(st.blocks), flat(s2.blocks), flat(s3.blocks));
                    }
                }
            }
        },
        AST::Return(e) => {
            lemma_lower(*e, st);
            if let Ok((v, _, s1)) = lower(*e, st) {
                if let Ok((_, _, s2)) = lower(ast, st) {
                    lemma_emit(s1, Inst::Ret(v));
                    assert(flat(s2.blocks).take(flat(s1.blocks).len() as int) =~= flat(s1.blocks));
                    lemma_prefix_trans(flat(st.blocks), flat(s1.blocks), flat(s2.blocks));
                }
            }
        },
        _ => {},
    }
}

/// `lemma_lower` for a sequence of statements.
pub proof fn lemma_lower_seq(s: Seq<AST>, st: CgState)
    requires
        code_wf(st),
    ensures
        lower_seq(s, st) matches Ok(s2) ==> {
            &&& code_wf(s2)
            &&& flat(st.blocks).len() <= flat(s2.blocks).len()
            &&& flat(s2.blocks).take(flat(st.blocks).len() as int) == flat(st.blocks)
            &&& (!seq_has_return(s) && s2.terminated) ==> st.terminated
        },
    decreases s, 1nat,
{
    if s.len() > 0 {
        lemma_lower(s[0], st);
        if let Ok((_, _, s1)) = lower(s[0], st) {
            let rest = s.subrange(1, s.len() as int);
            lemma_lower_seq(rest, s1);
            if let Ok(s2) = lower_seq(rest, s1) {
                lemma_prefix_trans(flat(st.blocks), flat(s1.blocks), flat(s2.blocks));
            }
        }
    } else {
        assert(flat(st.blocks).take(flat(st.blocks).len() as int) =~= flat(st.blocks));
    }
}

proof fn lemma_prefix_trans(a: Seq<Inst>, b: Seq<Inst>, c: Seq<Inst>)
    requires
        a.len() <= b.len(),
        b.take(a.len() as int) == a,
        b.len() <= c.len(),
        c.take(b.len() as int) == b,
    ensures
        a.len() <= c.len(),
        c.take(a.len() as int) == a,
{
    assert(c.take(a.len() as int) =~= b.take(a.len() as int));
}

/// An expression of integer literals under `+`, `-` and `*`.
pub open spec fn is_arith_expr(e: AST) -> bool
    decreases e,
{
    match e {
        AST::Int(_) => true,
        AST::BinaryOp(l, r, op) => (op is Add || op is Sub || op is Mul) && is_arith_expr(*l)
            && is_arith_expr(*r),
        _ => false,
    }
}

/// The number of operators in an expression.
pub open spec fn op_count(e: AST) -> nat
    decreases e,
{
    match e {
        AST::BinaryOp(l, r, _) => op_count(*l) + op_count(*r) + 1,
        _ => 0,
    }
}

/// The value of an integer expression in 32-bit two's-complement arithmetic.
pub open spec fn eval_expr(e: AST) -> int
    decreases e,
{
    match e {
        AST::Int(n) => (n as i32) as int,
        AST::BinaryOp(l, r, op) => match int_op_of(op) {
            Some(iop) => apply_op(iop, eval_expr(*l), eval_expr(*r)),
            None => 0,
        },
        _ => 0,
    }
}

/// The value that a block returns, where it ends in a return of a value.
pub open spec fn returned(b: Seq<Inst>) -> Option<int> {
    if b.len() > 0 && b.last() is Ret {
        Some(eval_value(b.drop_last(), b.last()->Ret_0))
    } else {
        None
    }
}

/// An arithmetic expression lowers into the block under the cursor, after the
/// instructions already there, to a value that evaluates to the expression's value.
proof fn lemma_arith(e: AST, st: CgState)
    requires
        code_wf(st),
        !st.terminated,
        is_arith_expr(e),
        st.blocks.last().len() + op_count(e) <= usize::MAX,
    ensures
        lower(e, st) matches Ok((v, t, s)) && {
            &&& t == int_signed()
            &&& code_wf(s)
            &&& !s.terminated
            &&& s.returns_i32 == st.returns_i32
            &&& s.blocks.drop_last() == st.blocks.drop_last()
            &&& s.blocks.last().len() == st.blocks.last().len() + op_count(e)
            &&& s.blocks.last().take(st.blocks.last().len() as int) == st.blocks.last()
            &&& defined_in(v, s.blocks.last().len())
            &&& eval_value(s.blocks.last(), v) == eval_expr(e)
        },
    decreases e,
{
    if let AST::BinaryOp(l, r, op) = e {
        lemma_arith(*l, st);
        let (lv, _, s1) = lower(*l, st)->Ok_0;
        lemma_arith(*r, s1);
        let (rv, _, s2) = lower(*r, s1)->Ok_0;
        let iop = int_op_of(op)->0;
        let i = Inst::Bin(iop, lv, rv);
        let s3 = emit(s2, i);
        lemma_emit(s2, i);
        let b1 = s1.blocks.last();
        let b2 = s2.blocks.last();
        let b3 = s3.blocks.last();
        assert(b2 =~= b1 + b2.skip(b1.len() as int));
        lemma_eval_extend(b1, b2.skip(b1.len() as int), lv);
        assert(b3.take(b2.len() as int) =~= b2);
        assert(b3.take(st.blocks.last().len() as int) =~= st.blocks.last());
        assert(s3.blocks.drop_last() =~= s2.blocks.drop_last());
        assert(b3[b2.len() as int] == i);
    }
}

/// A literal lowers, without any instruction, to a constant that holds its value.
pub proof fn law_int_literal(n: i64, st: CgState)
    requires
        i32::MIN <= n <= i32::MAX,
    ensures
        lower(AST::Int(n), st) == Ok::<(Value, Option<Type>, CgState), CodegenError>(
            (Value::ConstInt(n as i32), Some(Type::Int(Sign::Signed)), st),
        ),
        (n as i32) as int == n,
{
}

/// An addition of two integer expressions lowers to a value that evaluates to
/// their sum, wrapped to 32 bits.
pub proof fn law_add_wraps(a: AST, b: AST, st: CgState)
    requires
        code_wf(st),
        !st.terminated,
        is_arith_expr(a),
        is_arith_expr(b),
        st.blocks.last().len() + op_count(a) + op_count(b) + 1 <= usize::MAX,
    ensures
        lower(AST::BinaryOp(Box::new(a), Box::new(b), crate::node::CBinOps::Add), st) matches Ok((v, t, s))
            && t == Some(Type::Int(Sign::Signed))
            && eval_value(s.blocks.last(), v) == wrap32(eval_expr(a) + eval_expr(b)),
{
    let e = AST::BinaryOp(Box::new(a), Box::new(b), crate::node::CBinOps::Add);
    lemma_arith(e, st);
}

/// A function returning `int` or `long` whose body returns an integer
/// expression has a single block, which returns the expression's value.
pub proof fn law_return_arith(functy: Type, ps: Seq<String>, name: Seq<char>, e: AST)
    requires
        functy matches Type::Func(ret, pts, _) && (*ret is Int || *ret is Long) && pts@.len() == ps.len(),
        is_arith_expr(e),
        op_count(e) <= usize::MAX,
    ensures
        def_view(functy, ps, name, AST::Return(Box::new(e))) matches Ok(f)
            && f.blocks.len() == 1
            && returned(f.blocks[0]) == Some(eval_expr(e)),
{
    let st = fresh_state(true);
    let ret = *functy->Func_0;
    assert(int_bits(ret) == 32);
    assert(is_i32(ret));
    assert(code_wf(st));
    lemma_arith(e, st);
    let (v, _, s1) = lower(e, st)->Ok_0;
    let s2 = emit(s1, Inst::Ret(v));
    assert(s1.blocks.len() == 1) by {
        assert(s1.blocks.drop_last().len() == st.blocks.drop_last().len());
    }
    assert(s2.blocks[0] == s1.blocks.last().push(Inst::Ret(v)));
    assert(s2.blocks[0].drop_last() =~= s1.blocks.last());
}

/// Every block of a function that lowering produces is a proper basic block:
/// it ends in a terminator and holds no other.
pub proof fn law_blocks_terminated(functy: Type, ps: Seq<String>, name: Seq<char>, body: AST)
    ensures
        def_view(functy, ps, name, body) matches Ok(f) ==> forall|i: int|
            0 <= i < f.blocks.len() ==> proper_block(#[trigger] f.blocks[i]),
{
    if let Type::Func(ret, _, _) = functy {
        let st = fresh_state(is_i32(*ret));
        assert(code_wf(st));
        lemma_lower(body, st);
        if let Ok((_, _, s)) = lower(body, st) {
            if !s.terminated {
                lemma_emit(s, Inst::RetVoid);
            }
        }
    }
}

/// A function with a non-void return type whose body holds no `Return` fails
/// to generate: with `MissingReturn` where the body itself lowers.
pub proof fn law_missing_return(functy: Type, ps: Seq<String>, name: Seq<char>, body: AST)
    requires
        functy matches Type::Func(ret, pts, _) && !(*ret is Void) && pts@.len() == ps.len(),
        !has_return(body),
    ensures
        def_view(functy, ps, name, body) is Err,
        lower(body, fresh_state(is_i32(*functy->Func_0))) is Ok ==> def_view(functy, ps, name, body)
            == Err::<FnView, CodegenError>(CodegenError::MissingReturn),
{
    let st = fresh_state(is_i32(*functy->Func_0));
    assert(code_wf(st));
    lemma_lower(body, st);
}

/// Lowering a block of two statements lowers the first, then the second from
/// where the first left the code; the first one's instructions all come
/// before the second one's.
pub proof fn law_block_order(v: Vec<AST>, st: CgState)
    requires
        v@.len() == 2,
        code_wf(st),
    ensures
        lower(AST::Block(v), st) == match lower(v@[0], st) {
            Err(e) => Err(e),
            Ok((_, _, s1)) => match lower(v@[1], s1) {
                Err(e) => Err(e),
                Ok((_, _, s2)) => Ok::<(Value, Option<Type>, CgState), CodegenError>((Value::Empty, None, s2)),
            },
        },
        lower(AST::Block(v), st) matches Ok((_, _, s2)) ==> lower(v@[0], st) matches Ok((_, _, s1)) && {
            &&& flat(st.blocks).len() <= flat(s1.blocks).len() <= flat(s2.blocks).len()
            &&& flat(s1.blocks).take(flat(st.blocks).len() as int) == flat(st.blocks)
            &&& flat(s2.blocks).take(flat(s1.blocks).len() as int) == flat(s1.blocks)
        },
{
    let s = v@;
    let t = s.subrange(1, 2);
    assert(t[0] == s[1]);
    assert(t.subrange(1, 1) =~= Seq::<AST>::empty());
    lemma_lower(s[0], st);
    if let Ok((_, _, s1)) = lower(s[0], st) {
        lemma_lower(s[1], s1);
        if let Ok((_, _, s2)) = lower(s[1], s1) {
            assert(lower_seq(t.subrange(1, 1), s2) == Ok::<CgState, CodegenError>(s2));
            assert(lower_seq(t, s1) == Ok::<CgState, CodegenError>(s2));
            assert(lower_seq(s, st) == Ok::<CgState, CodegenError>(s2));
        }
    }
}

/// Statements in sequence: lowering `a` followed by `b` is lowering `a`, then
/// `b` from where `a` left the code, and `a`'s instructions all come before
/// `b`'s.
pub proof fn law_seq_order(a: Seq<AST>, b: Seq<AST>, st: CgState)
    requires
        code_wf(st),
    ensures
        lower_seq(a + b, st) == match lower_seq(a, st) {
            Ok(s1) => lower_seq(b, s1),
            Err(e) => Err(e),
        },
        lower_seq(a + b, st) matches Ok(s2) ==> lower_seq(a, st) matches Ok(s1) && {
            &&& flat(st.blocks).len() <= flat(s1.blocks).len() <= flat(s2.blocks).len()
            &&& flat(s1.blocks).take(flat(st.blocks).len() as int) == flat(st.blocks)
            &&& flat(s2.blocks).take(flat(s1.blocks).len() as int) == flat(s1.blocks)
        },
    decreases a.len(),
{
    lemma_lower_seq(a, st);
    if a.len() == 0 {
        assert(a + b =~= b);
        assert(flat(st.blocks).take(flat(st.blocks).len() as int) =~= flat(st.blocks));
        lemma_lower_seq(b, st);
    } else {
        let ab = a + b;
        let rest = a.subrange(1, a.len() as int);
        assert(ab[0] == a[0]);
        assert(ab.subrange(1, ab.len() as int) =~= rest + b);
        lemma_lower(a[0], st);
        if let Ok((_, _, s0)) = lower(a[0], st) {
            law_seq_order(rest, b, s0);
            if let Ok(s1) = lower_seq(rest, s0) {
                lemma_lower_seq(b, s1);
            }
        }
    }
}

/// An `add` instruction evaluates to the sum of its operands, wrapped to 32 bits.
pub proof fn law_add_instruction(b: Seq<Inst>, l: Value, r: Value)
    requires
        defined_in(l, b.len()),
        defined_in(r, b.len()),
        b.len() <= usize::MAX,
    ensures
        eval_value(b.push(Inst::Bin(IntOp::Add, l, r)), Value::Reg(b.len() as usize)) == wrap32(
            eval_value(b, l) + eval_value(b, r),
        ),
    {
    let nb = b.push(Inst::Bin(IntOp::Add, l, r));
    assert(nb.take(b.len() as int) =~= b);
}

/// Lowering is deterministic: what the declarations add to a module, and the
/// outcome, depend on the declarations alone and not on what the module held.
/// Two fresh sessions given the same declarations end with the same module
/// and the same outcome, failure included.
pub proof fn law_deterministic(s: Seq<AST>, m: Seq<FnView>)
    ensures
        run_spec(s, m).0 == m + run_spec(s, Seq::empty()).0,
        run_spec(s, m).1 == run_spec(s, Seq::empty()).1,
{
    lemma_run_prefix(s, m, Seq::empty());
    assert(m + Seq::<FnView>::empty() =~= m);
}

proof fn lemma_run_prefix(s: Seq<AST>, m: Seq<FnView>, k: Seq<FnView>)
    ensures
        run_spec(s, m + k).0 == m + run_spec(s, k).0,
        run_spec(s, m + k).1 == run_spec(s, k).1,
    decreases s.len(),
{
    if s.len() > 0 && s[0] is Int {
        lemma_run_prefix(s.subrange(1, s.len() as int), m, k);
    } else if s.len() > 0 {
        if let Ok(f) = decl_view(s[0]) {
            assert((m + k).push(f) =~= m + k.push(f));
            lemma_run_prefix(s.subrange(1, s.len() as int), m, k.push(f));
        }
    }
}

} // verus!
