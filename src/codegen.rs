use vstd::prelude::*;
use crate::cfg::{Builder, CgState, emit, fresh_state, next_index};
use crate::ir::{Block, Inst, IntOp, Value, blocks_view};
use crate::node::{AST, CBinOps};
use crate::types::{
    BType, LlvmType, Sign, Type, lemma_llvm_views_index, lemma_lower_types_index, llvm_view, llvm_views,
    lower_type, lower_types,
};

verus! {

broadcast use vstd::std_specs::vec::group_vec_axioms;

/// A construct that has no lowering rule.
#[derive(Clone, Copy, Debug, PartialEq, Eq, Structural)]
pub enum Construct {
    /// A reference to a variable.
    Variable,
    /// A function definition inside a function.
    NestedFunction,
    /// A function signature that is not a function type.
    Signature,
    /// A binary operator outside integer arithmetic.
    Operator(CBinOps),
}

/// Why code generation stopped.
#[derive(Clone, Copy, Debug, PartialEq, Eq, Structural)]
pub enum CodegenError {
    /// A construct with no lowering rule.
    UnsupportedConstruct(Construct),
    /// Operands, or a returned value, of a type that no instruction takes, or a
    /// returned value that is not of the function's return type.
    TypeMismatch,
    /// A function with a non-void return type whose code can end without a return.
    MissingReturn,
    /// Code to be placed while the builder stands in no function.
    NoInsertionPoint,
    /// An instruction after a return in the same block, which can never run.
    UnreachableCode,
    /// A function definition whose parameter names do not match its parameter
    /// types in number.
    ParamCountMismatch,
}

/// Whether a lowered value has a type of the integer family.
pub open spec fn is_int_type(t: Option<Type>) -> bool {
    match t {
        Some(Type::Char(_)) | Some(Type::Short(_)) | Some(Type::Int(_)) | Some(Type::Long(_)) | Some(
            Type::LLong(_),
        ) => true,
        _ => false,
    }
}

/// The integer instruction for an operator, where it has one.
pub open spec fn int_op_of(op: CBinOps) -> Option<IntOp> {
    match op {
        CBinOps::Add => Some(IntOp::Add),
        CBinOps::Sub => Some(IntOp::Sub),
        CBinOps::Mul => Some(IntOp::Mul),
        CBinOps::Div => Some(IntOp::SDiv),
        CBinOps::Rem => Some(IntOp::SRem),
        _ => None,
    }
}

/// A copy of a list of names.
fn clone_names(v: &Vec<String>) -> (r: Vec<String>)
    ensures
        r@ == v@,
{
    let mut r: Vec<String> = Vec::new();
    let mut i: usize = 0;
    while i < v.len()
        invariant
            i <= v.len(),
            r@ == v@.subrange(0, i as int),
        decreases v.len() - i,
    {
        r.push(v[i].clone());
        i = i + 1;
        assert(r@ =~= v@.subrange(0, i as int));
    }
    assert(v@.subrange(0, i as int) =~= v@);
    r
}

/// Whether an operator has an integer instruction.
pub fn is_arith(op: CBinOps) -> (r: bool)
    ensures
        r == (int_op_of(op) is Some),
{
    match op {
        CBinOps::Add | CBinOps::Sub | CBinOps::Mul | CBinOps::Div | CBinOps::Rem => true,
        _ => false,
    }
}

/// Whether a lowered value's type is of the integer family.
pub fn is_int(t: &Option<Type>) -> (r: bool)
    ensures
        r == is_int_type(*t),
{
    match t {
        Some(Type::Char(_)) | Some(Type::Short(_)) | Some(Type::Int(_)) | Some(Type::Long(_)) | Some(
            Type::LLong(_),
        ) => true,
        _ => false,
    }
}

/// Building the integer instruction of an operator at the cursor: the value it
/// defines and the code after it.
pub open spec fn int_binary(op: CBinOps, lhs: Value, rhs: Value, st: CgState) -> Result<(Value, CgState), CodegenError> {
    match int_op_of(op) {
        None => Err(CodegenError::UnsupportedConstruct(Construct::Operator(op))),
        Some(iop) => if st.terminated {
            Err(CodegenError::UnreachableCode)
        } else {
            Ok((Value::Reg(next_index(st) as usize), emit(st, Inst::Bin(iop, lhs, rhs))))
        },
    }
}

/// The signed 32-bit integer type, the type of every value that lowering produces.
pub open spec fn int_signed() -> Option<Type> {
    Some(Type::Int(Sign::Signed))
}

/// Lowering a node inside a function, from the code built so far: the value it
/// produces, its source type, and the code after it; or why it cannot be lowered.
/// A statement that would build an instruction after a return is refused with
/// `UnreachableCode`; a literal builds nothing and is accepted anywhere.
pub open spec fn lower(ast: AST, st: CgState) -> Result<(Value, Option<Type>, CgState), CodegenError>
    decreases ast, 0nat,
{
    match ast {
        AST::Int(n) => Ok((Value::ConstInt(n as i32), int_signed(), st)),
        AST::Block(v) => match lower_seq(v@, st) {
            Ok(s) => Ok((Value::Empty, None, s)),
            Err(e) => Err(e),
        },
        AST::BinaryOp(l, r, op) => match int_op_of(op) {
            None => Err(CodegenError::UnsupportedConstruct(Construct::Operator(op))),
            Some(iop) => match lower(*l, st) {
                Err(e) => Err(e),
                Ok((lv, lt, s1)) => match lower(*r, s1) {
                    Err(e) => Err(e),
                    Ok((rv, rt, s2)) => if !(is_int_type(lt) && is_int_type(rt)) {
                        Err(CodegenError::TypeMismatch)
                    } else if s2.terminated {
                        Err(CodegenError::UnreachableCode)
                    } else {
                        Ok(
                            (
                                Value::Reg(next_index(s2) as usize),
                                int_signed(),
                                emit(s2, Inst::Bin(iop, lv, rv)),
                            ),
                        )
                    },
                },
            },
        },
        AST::Return(e) => match lower(*e, st) {
            Err(x) => Err(x),
            Ok((v, t, s1)) => if t is None || !s1.returns_i32 {
                Err(CodegenError::TypeMismatch)
            } else if s1.terminated {
                Err(CodegenError::UnreachableCode)
            } else {
                Ok((Value::Empty, None, emit(s1, Inst::Ret(v))))
            },
        },
        AST::FuncDef(..) => Err(CodegenError::UnsupportedConstruct(Construct::NestedFunction)),
        AST::Variable(_) => Err(CodegenError::UnsupportedConstruct(Construct::Variable)),
    }
}

/// Lowering statements one after the other, in order, stopping at the first error.
pub open spec fn lower_seq(s: Seq<AST>, st: CgState) -> Result<CgState, CodegenError>
    decreases s, 1nat,
{
    if s.len() == 0 {
        Ok(st)
    } else {
        match lower(s[0], st) {
            Err(e) => Err(e),
            Ok((_, _, s1)) => lower_seq(s.subrange(1, s.len() as int), s1),
        }
    }
}

/// Whether values of a type are 32-bit integers in the backend.
pub open spec fn is_i32(t: Type) -> bool {
    lower_type(t) == BType::Int(32)
}

/// The blocks of a function with this signature, number of parameter names
/// and body; a body whose code can run off its end gets `ret void` where the
/// function returns nothing.
pub open spec fn func_blocks(functy: Type, n_params: nat, body: AST) -> Result<Seq<Seq<Inst>>, CodegenError> {
    match functy {
        Type::Func(ret, ps, _) => if n_params != ps.len() {
            Err(CodegenError::ParamCountMismatch)
        } else {
            match lower(body, fresh_state(is_i32(*ret))) {
            Err(e) => Err(e),
            Ok((_, _, s)) => if s.terminated {
                Ok(s.blocks)
            } else if *ret is Void {
                Ok(emit(s, Inst::RetVoid).blocks)
            } else {
                Err(CodegenError::MissingReturn)
            },
            }
        },
        _ => Err(CodegenError::UnsupportedConstruct(Construct::Signature)),
    }
}

/// A function of the module, as plain values.
pub struct FnView {
    pub name: Seq<char>,
    pub ty: BType,
    pub params: Seq<Seq<char>>,
    pub blocks: Seq<Seq<Inst>>,
}

pub open spec fn strs_view(s: Seq<String>) -> Seq<Seq<char>> {
    Seq::new(s.len(), |i: int| s[i]@)
}

/// The function that a top-level definition adds to the module.
pub open spec fn def_view(functy: Type, params: Seq<String>, name: Seq<char>, body: AST) -> Result<FnView, CodegenError> {
    match func_blocks(functy, params.len(), body) {
        Ok(bs) => Ok(FnView { name, ty: lower_type(functy), params: strs_view(params), blocks: bs }),
        Err(e) => Err(e),
    }
}

/// Why a node other than a definition or a literal cannot stand outside a
/// function: a construct with no lowering rule is named as such; any other
/// would build code where there is no block to hold it.
pub open spec fn top_level_error(ast: AST) -> CodegenError {
    match ast {
        AST::Variable(_) => CodegenError::UnsupportedConstruct(Construct::Variable),
        AST::BinaryOp(_, _, op) => match int_op_of(op) {
            None => CodegenError::UnsupportedConstruct(Construct::Operator(op)),
            Some(_) => CodegenError::NoInsertionPoint,
        },
        _ => CodegenError::NoInsertionPoint,
    }
}

/// The function that a top-level declaration adds, or why it adds none.
pub open spec fn decl_view(d: AST) -> Result<FnView, CodegenError> {
    match d {
        AST::FuncDef(ty, ps, n, body) => def_view(ty, ps@, n@, *body),
        _ => Err(top_level_error(d)),
    }
}

/// The functions of a module after the given top-level declarations are
/// lowered in order, and the outcome: lowering stops at the first declaration
/// that fails, and the functions added before it stay. A literal adds nothing.
pub open spec fn run_spec(s: Seq<AST>, m: Seq<FnView>) -> (Seq<FnView>, Result<(), CodegenError>)
    decreases s.len(),
{
    if s.len() == 0 {
        (m, Ok(()))
    } else {
        if s[0] is Int {
            run_spec(s.subrange(1, s.len() as int), m)
        } else {
            match decl_view(s[0]) {
                Ok(f) => run_spec(s.subrange(1, s.len() as int), m.push(f)),
                Err(e) => (m, Err(e)),
            }
        }
    }
}

/// A function emitted into the module.
#[derive(Debug)]
pub struct Function {
    pub name: String,
    pub ty: LlvmType,
    pub params: Vec<String>,
    pub blocks: Vec<Block>,
}

pub open spec fn fn_view(f: Function) -> FnView {
    FnView { name: f.name@, ty: llvm_view(f.ty), params: strs_view(f.params@), blocks: blocks_view(f.blocks@) }
}

/// A code generation session: the module being filled, and the builder's cursor.
pub struct Codegen {
    name: String,
    functions: Vec<Function>,
    builder: Builder,
    in_function: bool,
}

impl Codegen {
    /// The module's name.
    pub closed spec fn module_name(&self) -> Seq<char> {
        self.name@
    }

    /// The functions of the module, in the order they were added.
    pub closed spec fn module(&self) -> Seq<FnView> {
        Seq::new(self.functions.len() as nat, |i: int| fn_view(self.functions@[i]))
    }

    /// Whether the cursor stands in a function being lowered.
    pub closed spec fn positioned(&self) -> bool {
        self.in_function
    }

    /// The code of the function being lowered.
    pub closed spec fn cursor(&self) -> CgState {
        self.builder.state()
    }

    /// The cursor always stands in a function's one block.
    pub proof fn lemma_cursor_one_block(&self)
        ensures
            self.cursor().blocks.len() == 1,
    {
        self.builder.lemma_one_block();
    }

    /// A session with an empty module of the given name.
    pub fn new(mod_name: &str) -> (r: Codegen)
        ensures
            r.module_name() == mod_name@,
            r.module() == Seq::<FnView>::empty(),
            !r.positioned(),
    {
        let r = Codegen {
            name: mod_name.to_owned(),
            functions: Vec::new(),
            builder: Builder::new(false),
            in_function: false,
        };
        assert(r.module() =~= Seq::<FnView>::empty());
        r
    }

    /// The module's name.
    pub fn name(&self) -> (r: &String)
        ensures
            r@ == self.module_name(),
    {
        &self.name
    }

    /// The functions of the module, in the order they were added.
    pub fn functions(&self) -> (r: &Vec<Function>)
        ensures
            r@.len() == self.module().len(),
            forall|i: int| 0 <= i < r@.len() ==> fn_view(#[trigger] r@[i]) == self.module()[i],
    {
        &self.functions
    }

    /// The backend type descriptor of a source type.
    pub fn type_to_llvmty(&self, ty: &Type) -> (r: LlvmType)
        ensures
            llvm_view(r) == lower_type(*ty),
        decreases ty,
    {
        match ty {
            Type::Void => LlvmType::Void,
            Type::Char(_) => LlvmType::Int(8),
            Type::Short(_) => LlvmType::Int(16),
            Type::Int(_) => LlvmType::Int(32),
            Type::Long(_) => LlvmType::Int(32),
            Type::LLong(_) => LlvmType::Int(64),
            Type::Float => LlvmType::Float,
            Type::Double => LlvmType::Double,
            Type::Ptr(elemty) => LlvmType::Pointer(Box::new(self.type_to_llvmty(elemty))),
            Type::Array(elemty, size) => LlvmType::Array(Box::new(self.type_to_llvmty(elemty)), *size as u64),
            Type::Func(ret_type, param_types, is_vararg) => {
                let ret = self.type_to_llvmty(ret_type);
                let mut params: Vec<LlvmType> = Vec::new();
                let mut i: usize = 0;
                assert(decreases_to!(*ty => (*ty)->Func_1));
                while i < param_types.len()
                    invariant
                        decreases_to!(*ty => *param_types),
                        i <= param_types.len(),
                        params.len() == i,
                        forall|j: int| 0 <= j < i ==> llvm_view(#[trigger] params@[j]) == lower_type(param_types@[j]),
                    decreases param_types.len() - i,
                {
                    proof {
                        assert(decreases_to!(param_types => param_types[i as int]));
                    }
                    let p = self.type_to_llvmty(&param_types[i]);
                    params.push(p);
                    i = i + 1;
                }
                proof {
                    lemma_lower_types_index(param_types@);
                    lemma_llvm_views_index(params@);
                    assert(llvm_views(params@) =~= lower_types(param_types@));
                }
                LlvmType::Function(Box::new(ret), params, *is_vararg)
            },
        }
    }

    /// Lowers the top-level declarations in order into the module, stopping at
    /// the first that fails; the functions added before it stay.
    pub fn run(&mut self, node: Vec<AST>) -> (r: Result<(), CodegenError>)
        requires
            !old(self).positioned(),
        ensures
            final(self).module_name() == old(self).module_name(),
            !final(self).positioned(),
            final(self).module() == run_spec(node@, old(self).module()).0,
            r == run_spec(node@, old(self).module()).1,
    {
        let mut i: usize = 0;
        assert(node@.subrange(0, node.len() as int) =~= node@);
        while i < node.len()
            invariant
                i <= node.len(),
                self.module_name() == old(self).module_name(),
                !self.positioned(),
                run_spec(node@, old(self).module()) == run_spec(node@.subrange(i as int, node.len() as int), self.module()),
            decreases node.len() - i,
        {
            proof {
                let rest = node@.subrange(i as int, node.len() as int);
                assert(rest[0] == node@[i as int]);
                assert(rest.subrange(1, rest.len() as int) =~= node@.subrange(i + 1, node.len() as int));
            }
            match self.gen(&node[i]) {
                Ok(_) => {},
                Err(e) => return Err(e),
            }
            i = i + 1;
        }
        proof {
            assert(node@.subrange(i as int, node.len() as int) =~= Seq::<AST>::empty());
        }
        Ok(())
    }

    /// Lowers a node. Inside a function, it goes by `lower`, from the code
    /// built so far; outside, a function definition adds one function to the
    /// module, and a literal, which builds no instruction, gives its constant.
    pub fn gen(&mut self, ast: &AST) -> (r: Result<(Value, Option<Type>), CodegenError>)
        ensures
            final(self).module_name() == old(self).module_name(),
            final(self).positioned() == old(self).positioned(),
            old(self).positioned() ==> final(self).module() == old(self).module() && match lower(
                *ast,
                old(self).cursor(),
            ) {
                Ok((v, t, st)) => r == Ok::<(Value, Option<Type>), CodegenError>((v, t)) && final(self).cursor() == st,
                Err(e) => r == Err::<(Value, Option<Type>), CodegenError>(e),
            },
            !old(self).positioned() ==> match *ast {
                AST::FuncDef(ty, ps, n, body) => match def_view(ty, ps@, n@, *body) {
                    Ok(f) => r == Ok::<(Value, Option<Type>), CodegenError>(
                        (Value::Func(old(self).module().len() as usize), None),
                    ) && final(self).module() == old(self).module().push(f),
                    Err(e) => r == Err::<(Value, Option<Type>), CodegenError>(e) && final(self).module()
                        == old(self).module(),
                },
                AST::Int(n) => r == Ok::<(Value, Option<Type>), CodegenError>(
                    (Value::ConstInt(n as i32), int_signed()),
                ) && final(self).module() == old(self).module() && final(self).cursor() == old(self).cursor(),
                _ => r == Err::<(Value, Option<Type>), CodegenError>(top_level_error(*ast))
                    && final(self).module() == old(self).module(),
            },
        decreases ast, 0nat,
    {
        if let AST::Int(n) = ast {
            let n: i64 = *n;
            proof {
                assert(((n as u64) as i32) == (n as i32)) by (bit_vector);
            }
            return Ok(self.make_int(#[verifier::truncate] (n as u64), false));
        }
        match ast {
            AST::FuncDef(functy, param_names, name, body) => {
                if self.in_function {
                    return Err(CodegenError::UnsupportedConstruct(Construct::NestedFunction));
                }
                self.gen_func_def(functy, param_names, name, body)
            },
            _ => {
                if !self.in_function {
                    return match ast {
                        AST::Variable(_) => Err(CodegenError::UnsupportedConstruct(Construct::Variable)),
                        AST::BinaryOp(_, _, op) => if is_arith(*op) {
                            Err(CodegenError::NoInsertionPoint)
                        } else {
                            Err(CodegenError::UnsupportedConstruct(Construct::Operator(*op)))
                        },
                        _ => Err(CodegenError::NoInsertionPoint),
                    };
                }
                match ast {
                    AST::Block(block) => self.gen_block(block),
                    AST::BinaryOp(lhs, rhs, op) => {
                        if !is_arith(*op) {
                            return Err(CodegenError::UnsupportedConstruct(Construct::Operator(*op)));
                        }
                        let (lv, lt) = match self.gen(lhs) {
                            Ok(x) => x,
                            Err(e) => return Err(e),
                        };
                        let (rv, rt) = match self.gen(rhs) {
                            Ok(x) => x,
                            Err(e) => return Err(e),
                        };
                        self.gen_binary_op(lv, &lt, rv, &rt, *op)
                    },
                    AST::Return(ret) => {
                        let (retval, retty) = match self.gen(ret) {
                            Ok(x) => x,
                            Err(e) => return Err(e),
                        };
                        if retty.is_none() {
                            return Err(CodegenError::TypeMismatch);
                        }
                        self.gen_return(retval)
                    },
                    _ => Err(CodegenError::UnsupportedConstruct(Construct::Variable)),
                }
            },
        }
    }

    /// Adds a function with this signature, name and parameter names to the
    /// module, and lowers its body into a fresh entry block.
    pub fn gen_func_def(&mut self, functy: &Type, param_names: &Vec<String>, name: &String, body: &AST) -> (r: Result<(Value, Option<Type>), CodegenError>)
        requires
            !old(self).positioned(),
        ensures
            final(self).module_name() == old(self).module_name(),
            !final(self).positioned(),
            match def_view(*functy, param_names@, name@, *body) {
                Ok(f) => r == Ok::<(Value, Option<Type>), CodegenError>(
                    (Value::Func(old(self).module().len() as usize), None),
                ) && final(self).module() == old(self).module().push(f),
                Err(e) => r == Err::<(Value, Option<Type>), CodegenError>(e) && final(self).module()
                    == old(self).module(),
            },
        decreases body, 1nat,
    {
        let (ret_void, returns_i32) = match functy {
            Type::Func(ret, ps, _) => {
                if param_names.len() != ps.len() {
                    return Err(CodegenError::ParamCountMismatch);
                }
                match **ret {
                    Type::Void => (true, false),
                    Type::Int(_) | Type::Long(_) => (false, true),
                    _ => (false, false),
                }
            },
            _ => return Err(CodegenError::UnsupportedConstruct(Construct::Signature)),
        };
        let func_t = self.type_to_llvmty(functy);
        self.builder = Builder::new(returns_i32);
        self.in_function = true;
        let res = self.gen(body);
        self.in_function = false;
        if let Err(e) = res {
            return Err(e);
        }
        if !self.builder.is_terminated() {
            if ret_void {
                self.builder.append(Inst::RetVoid);
            } else {
                return Err(CodegenError::MissingReturn);
            }
        }
        let mut b = Builder::new(false);
        std::mem::swap(&mut b, &mut self.builder);
        let blocks = b.finish();
        let idx = self.functions.len();
        let f = Function { name: name.clone(), ty: func_t, params: clone_names(param_names), blocks };
        self.functions.push(f);
        proof {
            assert(self.module() =~= old(self).module().push(fn_view(f)));
        }
        Ok((Value::Func(idx), None))
    }

    /// Lowers the statements of a block in order.
    fn gen_block(&mut self, block: &Vec<AST>) -> (r: Result<(Value, Option<Type>), CodegenError>)
        requires
            old(self).positioned(),
        ensures
            final(self).module_name() == old(self).module_name(),
            final(self).positioned(),
            final(self).module() == old(self).module(),
            match lower_seq(block@, old(self).cursor()) {
                Ok(st) => r == Ok::<(Value, Option<Type>), CodegenError>((Value::Empty, None)) && final(self).cursor() == st,
                Err(e) => r == Err::<(Value, Option<Type>), CodegenError>(e),
            },
        decreases block, 0nat,
    {
        let mut i: usize = 0;
        assert(block@.subrange(0, block.len() as int) =~= block@);
        while i < block.len()
            invariant
                i <= block.len(),
                self.module_name() == old(self).module_name(),
                self.positioned(),
                self.module() == old(self).module(),
                lower_seq(block@, old(self).cursor()) == lower_seq(block@.subrange(i as int, block.len() as int), self.cursor()),
            decreases block.len() - i,
        {
            proof {
                assert(decreases_to!(block => block[i as int]));
                let rest = block@.subrange(i as int, block.len() as int);
                assert(rest[0] == block@[i as int]);
                assert(rest.subrange(1, rest.len() as int) =~= block@.subrange(i + 1, block.len() as int));
            }
            match self.gen(&block[i]) {
                Ok(_) => {},
                Err(e) => return Err(e),
            }
            i = i + 1;
        }
        proof {
            assert(block@.subrange(i as int, block.len() as int) =~= Seq::<AST>::empty());
        }
        Ok((Value::Empty, None))
    }

    /// Builds the instruction for a binary operator on two lowered operands,
    /// chosen by the operands' source types.
    fn gen_binary_op(&mut self, lhs: Value, lhsty: &Option<Type>, rhs: Value, rhsty: &Option<Type>, op: CBinOps) -> (r: Result<(Value, Option<Type>), CodegenError>)
        ensures
            final(self).module_name() == old(self).module_name(),
            final(self).positioned() == old(self).positioned(),
            final(self).module() == old(self).module(),
            if !(is_int_type(*lhsty) && is_int_type(*rhsty)) {
                r == Err::<(Value, Option<Type>), CodegenError>(CodegenError::TypeMismatch)
            } else {
                match int_binary(op, lhs, rhs, old(self).cursor()) {
                    Ok((v, st)) => r == Ok::<(Value, Option<Type>), CodegenError>((v, int_signed()))
                        && final(self).cursor() == st,
                    Err(e) => r == Err::<(Value, Option<Type>), CodegenError>(e),
                }
            },
    {
        if is_int(lhsty) && is_int(rhsty) {
            match self.gen_int_binary_op(lhs, rhs, op) {
                Ok(v) => Ok((v, Some(Type::Int(Sign::Signed)))),
                Err(e) => Err(e),
            }
        } else {
            Err(CodegenError::TypeMismatch)
        }
    }

    /// Builds the integer instruction for an arithmetic operator.
    fn gen_int_binary_op(&mut self, lhs: Value, rhs: Value, op: CBinOps) -> (r: Result<Value, CodegenError>)
        ensures
            final(self).module_name() == old(self).module_name(),
            final(self).positioned() == old(self).positioned(),
            final(self).module() == old(self).module(),
            match int_binary(op, lhs, rhs, old(self).cursor()) {
                Ok((v, st)) => r == Ok::<Value, CodegenError>(v) && final(self).cursor() == st,
                Err(e) => r == Err::<Value, CodegenError>(e),
            },
    {
        let iop = match op {
            CBinOps::Add => IntOp::Add,
            CBinOps::Sub => IntOp::Sub,
            CBinOps::Mul => IntOp::Mul,
            CBinOps::Div => IntOp::SDiv,
            CBinOps::Rem => IntOp::SRem,
            _ => return Err(CodegenError::UnsupportedConstruct(Construct::Operator(op))),
        };
        if self.builder.is_terminated() {
            return Err(CodegenError::UnreachableCode);
        }
        Ok(self.builder.append(Inst::Bin(iop, lhs, rhs)))
    }

    /// Builds a return of a 32-bit integer value.
    fn gen_return(&mut self, retval: Value) -> (r: Result<(Value, Option<Type>), CodegenError>)
        ensures
            final(self).module_name() == old(self).module_name(),
            final(self).positioned() == old(self).positioned(),
            final(self).module() == old(self).module(),
            if !old(self).cursor().returns_i32 {
                r == Err::<(Value, Option<Type>), CodegenError>(CodegenError::TypeMismatch)
            } else if old(self).cursor().terminated {
                r == Err::<(Value, Option<Type>), CodegenError>(CodegenError::UnreachableCode)
            } else {
                r == Ok::<(Value, Option<Type>), CodegenError>((Value::Empty, None))
                    && final(self).cursor() == emit(old(self).cursor(), Inst::Ret(retval))
            },
    {
        if !self.builder.returns_i32() {
            return Err(CodegenError::TypeMismatch);
        }
        if self.builder.is_terminated() {
            return Err(CodegenError::UnreachableCode);
        }
        self.builder.append(Inst::Ret(retval));
        Ok((Value::Empty, None))
    }

    /// A constant of the 32-bit integer type, truncated from `n`. Whether `n`
    /// is read as unsigned makes no difference at this width.
    pub fn make_int(&mut self, n: u64, is_unsigned: bool) -> (r: (Value, Option<Type>))
        ensures
            *final(self) == *old(self),
            r == (Value::ConstInt(n as i32), int_signed()),
    {
        (Value::ConstInt(n as i32), Some(Type::Int(Sign::Signed)))
    }
}

} // verus!
