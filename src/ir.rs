use vstd::prelude::*;
use vstd::math::abs;

verus! {

/// The integer instruction families that the backend is asked to build.
#[derive(Clone, Copy, Debug, PartialEq, Eq, Structural)]
pub enum IntOp {
    Add,
    Sub,
    Mul,
    SDiv,
    SRem,
}

/// An operand of an instruction.
#[derive(Clone, Copy, Debug, PartialEq, Eq, Structural)]
pub enum Value {
    /// No value: what statements produce.
    Empty,
    /// A constant of the 32-bit integer type.
    ConstInt(i32),
    /// The result of the instruction at this index of the current basic block.
    Reg(usize),
    /// The function at this index of the module.
    Func(usize),
}

/// One instruction of a basic block.
#[derive(Clone, Copy, Debug, PartialEq, Eq, Structural)]
pub enum Inst {
    Bin(IntOp, Value, Value),
    Ret(Value),
    RetVoid,
}

impl Inst {
    pub open spec fn is_terminator(self) -> bool {
        self is Ret || self is RetVoid
    }

    pub fn terminates(&self) -> (r: bool)
        ensures
            r == self.is_terminator(),
    {
        match self {
            Inst::Bin(_, _, _) => false,
            _ => true,
        }
    }
}

/// A basic block: its instructions in order.
#[derive(Debug)]
pub struct Block {
    pub insts: Vec<Inst>,
}

/// The blocks of a function, as sequences of instructions.
pub open spec fn blocks_view(bs: Seq<Block>) -> Seq<Seq<Inst>> {
    Seq::new(bs.len(), |i: int| bs[i].insts@)
}

/// The signed 32-bit value that an integer takes when truncated to 32 bits.
pub open spec fn wrap32(x: int) -> int {
    let m = x % 0x1_0000_0000;
    if m >= 0x8000_0000 { m - 0x1_0000_0000 } else { m }
}

/// Division rounding toward zero.
pub open spec fn tdiv(a: int, b: int) -> int {
    let q: int = (abs(a) / abs(b)) as int;
    if (a < 0) != (b < 0) { -q } else { q }
}

/// The result of an integer instruction on two 32-bit values. The backend
/// leaves a division by zero, and `i32::MIN / -1`, undefined; this model gives
/// them a value by convention only (zero, and the wrapped quotient), and no
/// law here rests on it.
pub open spec fn apply_op(op: IntOp, a: int, b: int) -> int {
    match op {
        IntOp::Add => wrap32(a + b),
        IntOp::Sub => wrap32(a - b),
        IntOp::Mul => wrap32(a * b),
        IntOp::SDiv => if b == 0 { 0 } else { wrap32(tdiv(a, b)) },
        IntOp::SRem => if b == 0 { 0 } else { wrap32(a - b * tdiv(a, b)) },
    }
}

/// Whether `v` names only instructions among the first `n`.
pub open spec fn defined_in(v: Value, n: nat) -> bool {
    match v {
        Value::Reg(i) => i < n,
        _ => true,
    }
}

/// The integer that an operand evaluates to, given the instructions before it
/// in its block.
pub open spec fn eval_value(insts: Seq<Inst>, v: Value) -> int
    decreases insts.len(),
{
    match v {
        Value::ConstInt(c) => c as int,
        Value::Reg(i) => if i < insts.len() {
            match insts[i as int] {
                Inst::Bin(op, l, r) => apply_op(
                    op,
                    eval_value(insts.take(i as int), l),
                    eval_value(insts.take(i as int), r),
                ),
                _ => 0,
            }
        } else {
            0
        },
        _ => 0,
    }
}

/// Appending instructions leaves the value of an operand defined before them.
pub proof fn lemma_eval_extend(insts: Seq<Inst>, more: Seq<Inst>, v: Value)
    requires
        defined_in(v, insts.len()),
    ensures
        eval_value(insts + more, v) == eval_value(insts, v),
{
    if let Value::Reg(i) = v {
        assert((insts + more).take(i as int) =~= insts.take(i as int));
        assert((insts + more)[i as int] == insts[i as int]);
    }
}

} // verus!
