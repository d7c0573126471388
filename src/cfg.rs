use vstd::prelude::*;
use crate::ir::{Block, Inst, Value};

verus! {

/// The shape of a function's code while it is being built: its basic blocks
/// in order (the cursor stands at the end of the last), whether the last one
/// ends in a terminator, and whether the function returns a 32-bit integer.
pub struct CgState {
    pub blocks: Seq<Seq<Inst>>,
    pub terminated: bool,
    pub returns_i32: bool,
}

/// The state of a fresh function: one empty entry block.
pub open spec fn fresh_state(returns_i32: bool) -> CgState {
    CgState { blocks: seq![Seq::empty()], terminated: false, returns_i32 }
}

/// The state after one instruction is built at the cursor, at the end of the
/// last block. Lowering never builds past a terminator: code that would follow
/// one is refused as unreachable.
pub open spec fn emit(st: CgState, i: Inst) -> CgState {
    CgState {
        blocks: st.blocks.update(st.blocks.len() - 1, st.blocks.last().push(i)),
        terminated: i.is_terminator(),
        returns_i32: st.returns_i32,
    }
}

/// The index in its block that the next instruction built will have.
pub open spec fn next_index(st: CgState) -> nat {
    st.blocks.last().len()
}

/// The control-flow builder: the block under the cursor of the current function.
pub struct Builder {
    current: Vec<Inst>,
    terminated: bool,
    returns_i32: bool,
}

impl Builder {
    pub closed spec fn state(&self) -> CgState {
        CgState { blocks: seq![self.current@], terminated: self.terminated, returns_i32: self.returns_i32 }
    }

    /// The builder holds one block.
    pub proof fn lemma_one_block(&self)
        ensures
            self.state().blocks.len() == 1,
    {
    }

    /// A builder positioned at the end of a fresh entry block.
    pub fn new(returns_i32: bool) -> (r: Builder)
        ensures
            r.state() == fresh_state(returns_i32),
    {
        let r = Builder { current: Vec::new(), terminated: false, returns_i32 };
        assert(r.state().blocks =~= fresh_state(returns_i32).blocks);
        r
    }

    /// Whether the block under the cursor ends in a terminator.
    pub fn is_terminated(&self) -> (r: bool)
        ensures
            r == self.state().terminated,
    {
        self.terminated
    }

    /// Whether the function being built returns a 32-bit integer.
    pub fn returns_i32(&self) -> (r: bool)
        ensures
            r == self.state().returns_i32,
    {
        self.returns_i32
    }

    /// Builds an instruction at the cursor and returns the value it defines.
    pub fn append(&mut self, i: Inst) -> (r: Value)
        requires
            !old(self).state().terminated,
        ensures
            final(self).state() == emit(old(self).state(), i),
            r == Value::Reg(next_index(old(self).state()) as usize),
    {
        let ghost st = self.state();
        let idx = self.current.len();
        self.current.push(i);
        self.terminated = i.terminates();
        proof {
            assert(self.state().blocks =~= emit(st, i).blocks);
        }
        Value::Reg(idx)
    }

    /// The blocks built, the cursor's last.
    pub fn finish(self) -> (r: Vec<Block>)
        ensures
            crate::ir::blocks_view(r@) == self.state().blocks,
    {
        let Builder { current, terminated: _, returns_i32: _ } = self;
        let mut done: Vec<Block> = Vec::new();
        done.push(Block { insts: current });
        assert(crate::ir::blocks_view(done@) =~= self.state().blocks);
        done
    }
}

} // verus!
