use ccodegen::codegen::{Codegen, CodegenError, Construct, Function};
use ccodegen::ir::{Inst, IntOp, Value};
use ccodegen::node::{CBinOps, AST};
use ccodegen::types::{LlvmType, Sign, Type};

fn int_ty() -> Type {
    Type::Int(Sign::Signed)
}

fn int_fn_ty() -> Type {
    Type::Func(Box::new(int_ty()), Vec::new(), false)
}

fn void_fn_ty() -> Type {
    Type::Func(Box::new(Type::Void), Vec::new(), false)
}

fn lit(n: i64) -> AST {
    AST::Int(n)
}

fn bin(l: AST, r: AST, op: CBinOps) -> AST {
    AST::BinaryOp(Box::new(l), Box::new(r), op)
}

fn ret(e: AST) -> AST {
    AST::Return(Box::new(e))
}

fn def(ty: Type, name: &str, body: AST) -> AST {
    AST::FuncDef(ty, Vec::new(), name.to_string(), Box::new(body))
}

fn blocks_of(f: &Function) -> Vec<Vec<Inst>> {
    f.blocks.iter().map(|b| b.insts.clone()).collect()
}

fn eval_value(insts: &[Inst], v: Value) -> i64 {
    match v {
        Value::ConstInt(c) => c as i64,
        Value::Reg(i) => match insts[i] {
            Inst::Bin(op, l, r) => {
                let a = eval_value(insts, l) as i32;
                let b = eval_value(insts, r) as i32;
                (match op {
                    IntOp::Add => a.wrapping_add(b),
                    IntOp::Sub => a.wrapping_sub(b),
                    IntOp::Mul => a.wrapping_mul(b),
                    IntOp::SDiv => a.wrapping_div(b),
                    IntOp::SRem => a.wrapping_rem(b),
                }) as i64
            }
            _ => panic!("not a value"),
        },
        _ => panic!("not a value"),
    }
}

fn returned(block: &[Inst]) -> i64 {
    match block.last() {
        Some(Inst::Ret(v)) => eval_value(block, *v),
        _ => panic!("block does not return a value"),
    }
}

fn lower_one(ty: Type, body: AST) -> Result<Vec<Vec<Inst>>, CodegenError> {
    let mut cg = Codegen::new("m");
    cg.gen(&def(ty, "f", body))?;
    Ok(blocks_of(&cg.functions()[0]))
}

#[test]
fn literal_is_signed_int_constant() {
    let mut cg = Codegen::new("m");
    let (v, t) = cg.make_int(42, false);
    assert_eq!(v, Value::ConstInt(42));
    assert!(matches!(t, Some(Type::Int(Sign::Signed))));
    let blocks = lower_one(int_fn_ty(), ret(lit(-7))).unwrap();
    assert_eq!(blocks, vec![vec![Inst::Ret(Value::ConstInt(-7))]]);
}

#[test]
fn literal_truncates_to_32_bits() {
    let mut cg = Codegen::new("m");
    let (v, _) = cg.make_int(0x1_0000_0005, false);
    assert_eq!(v, Value::ConstInt(5));
}

#[test]
fn add_of_two_and_three_returns_five() {
    let blocks = lower_one(int_fn_ty(), ret(bin(lit(2), lit(3), CBinOps::Add))).unwrap();
    assert_eq!(blocks.len(), 1);
    assert_eq!(returned(&blocks[0]), 5);
}

#[test]
fn add_wraps_at_32_bits() {
    let blocks = lower_one(int_fn_ty(), ret(bin(lit(i32::MAX as i64), lit(1), CBinOps::Add))).unwrap();
    assert_eq!(returned(&blocks[0]), i32::MIN as i64);
}

#[test]
fn sub_uses_subtract_instruction() {
    let blocks = lower_one(int_fn_ty(), ret(bin(lit(5), lit(3), CBinOps::Sub))).unwrap();
    assert_eq!(
        blocks,
        vec![vec![
            Inst::Bin(IntOp::Sub, Value::ConstInt(5), Value::ConstInt(3)),
            Inst::Ret(Value::Reg(0)),
        ]]
    );
    assert_eq!(returned(&blocks[0]), 2);
}

#[test]
fn mul_div_rem_select_signed_instructions() {
    let e = bin(bin(lit(7), lit(6), CBinOps::Mul), bin(lit(-9), lit(4), CBinOps::Rem), CBinOps::Div);
    let blocks = lower_one(int_fn_ty(), ret(e)).unwrap();
    assert_eq!(
        blocks,
        vec![vec![
            Inst::Bin(IntOp::Mul, Value::ConstInt(7), Value::ConstInt(6)),
            Inst::Bin(IntOp::SRem, Value::ConstInt(-9), Value::ConstInt(4)),
            Inst::Bin(IntOp::SDiv, Value::Reg(0), Value::Reg(1)),
            Inst::Ret(Value::Reg(2)),
        ]]
    );
    assert_eq!(returned(&blocks[0]), -42);
}

#[test]
fn code_after_return_is_rejected() {
    let body = AST::Block(vec![ret(lit(1)), ret(lit(2))]);
    assert_eq!(lower_one(int_fn_ty(), body), Err(CodegenError::UnreachableCode));
    let body = AST::Block(vec![ret(lit(1)), bin(lit(2), lit(3), CBinOps::Add)]);
    assert_eq!(lower_one(int_fn_ty(), body), Err(CodegenError::UnreachableCode));
}

#[test]
fn literal_after_return_builds_nothing() {
    let body = AST::Block(vec![ret(lit(1)), lit(2)]);
    assert_eq!(lower_one(int_fn_ty(), body).unwrap(), vec![vec![Inst::Ret(Value::ConstInt(1))]]);
}

#[test]
fn literal_outside_function_is_constant() {
    let mut cg = Codegen::new("m");
    let (v, t) = cg.gen(&lit(42)).unwrap();
    assert_eq!(v, Value::ConstInt(42));
    assert!(matches!(t, Some(Type::Int(Sign::Signed))));
    let (v, _) = cg.gen(&lit(2147483647)).unwrap();
    assert_eq!(v, Value::ConstInt(2147483647));
    assert_eq!(cg.functions().len(), 0);
}

#[test]
fn return_must_match_declared_type() {
    let r = lower_one(void_fn_ty(), ret(lit(1)));
    assert_eq!(r, Err(CodegenError::TypeMismatch));
    let char_fn = Type::Func(Box::new(Type::Char(Sign::Signed)), Vec::new(), false);
    assert_eq!(lower_one(char_fn, ret(lit(1))), Err(CodegenError::TypeMismatch));
    let long_fn = Type::Func(Box::new(Type::Long(Sign::Signed)), Vec::new(), false);
    assert_eq!(lower_one(long_fn, ret(lit(1))).unwrap(), vec![vec![Inst::Ret(Value::ConstInt(1))]]);
}

#[test]
fn parameter_count_must_match() {
    let mut cg = Codegen::new("m");
    let d = AST::FuncDef(int_fn_ty(), vec!["x".to_string()], "f".to_string(), Box::new(ret(lit(0))));
    assert_eq!(cg.gen(&d).err(), Some(CodegenError::ParamCountMismatch));
    assert_eq!(cg.functions().len(), 0);
}

#[test]
fn block_operands_before_operation() {
    let body = AST::Block(vec![bin(lit(1), lit(1), CBinOps::Add), ret(bin(lit(2), lit(2), CBinOps::Mul))]);
    let blocks = lower_one(int_fn_ty(), body).unwrap();
    assert_eq!(
        blocks,
        vec![vec![
            Inst::Bin(IntOp::Add, Value::ConstInt(1), Value::ConstInt(1)),
            Inst::Bin(IntOp::Mul, Value::ConstInt(2), Value::ConstInt(2)),
            Inst::Ret(Value::Reg(1)),
        ]]
    );
}

#[test]
fn two_sessions_give_identical_modules() {
    let prog = || vec![def(int_fn_ty(), "f", ret(bin(lit(1), lit(2), CBinOps::Add))), def(void_fn_ty(), "g", AST::Block(vec![]))];
    let mut a = Codegen::new("m");
    let mut b = Codegen::new("m");
    a.run(prog()).unwrap();
    b.run(prog()).unwrap();
    assert_eq!(format!("{:?}", a.functions()), format!("{:?}", b.functions()));
    let failing = || vec![def(int_fn_ty(), "f", ret(lit(1))), def(int_fn_ty(), "g", AST::Block(vec![]))];
    let mut c = Codegen::new("m");
    let mut d = Codegen::new("m");
    assert_eq!(c.run(failing()), d.run(failing()));
    assert_eq!(format!("{:?}", c.functions()), format!("{:?}", d.functions()));
}

#[test]
fn non_void_without_return_fails() {
    let r = lower_one(int_fn_ty(), AST::Block(vec![bin(lit(1), lit(2), CBinOps::Add)]));
    assert_eq!(r, Err(CodegenError::MissingReturn));
    let mut cg = Codegen::new("m");
    assert_eq!(cg.gen(&def(int_fn_ty(), "f", AST::Block(vec![]))).err(), Some(CodegenError::MissingReturn));
    assert_eq!(cg.functions().len(), 0);
}

#[test]
fn void_function_gets_implicit_return() {
    let blocks = lower_one(void_fn_ty(), AST::Block(vec![])).unwrap();
    assert_eq!(blocks, vec![vec![Inst::RetVoid]]);
}

#[test]
fn end_to_end_one_plus_two() {
    let mut cg = Codegen::new("m");
    let r = cg.run(vec![def(int_fn_ty(), "f", AST::Block(vec![ret(bin(lit(1), lit(2), CBinOps::Add))]))]);
    assert_eq!(r, Ok(()));
    let fs = cg.functions();
    assert_eq!(fs.len(), 1);
    assert_eq!(fs[0].name, "f");
    assert_eq!(format!("{:?}", fs[0].ty), format!("{:?}", LlvmType::Function(Box::new(LlvmType::Int(32)), vec![], false)));
    let blocks = blocks_of(&fs[0]);
    assert_eq!(
        blocks,
        vec![vec![
            Inst::Bin(IntOp::Add, Value::ConstInt(1), Value::ConstInt(2)),
            Inst::Ret(Value::Reg(0)),
        ]]
    );
    assert_eq!(returned(&blocks[0]), 3);
}

#[test]
fn logical_operators_are_unsupported() {
    let r = lower_one(int_fn_ty(), ret(bin(lit(1), lit(0), CBinOps::LAnd)));
    assert_eq!(r, Err(CodegenError::UnsupportedConstruct(Construct::Operator(CBinOps::LAnd))));
    let r = lower_one(int_fn_ty(), ret(bin(lit(1), lit(0), CBinOps::LOr)));
    assert_eq!(r, Err(CodegenError::UnsupportedConstruct(Construct::Operator(CBinOps::LOr))));
}

#[test]
fn variable_is_unsupported() {
    let r = lower_one(int_fn_ty(), ret(AST::Variable("x".to_string())));
    assert_eq!(r, Err(CodegenError::UnsupportedConstruct(Construct::Variable)));
}

#[test]
fn nested_definition_is_unsupported() {
    let r = lower_one(int_fn_ty(), AST::Block(vec![def(int_fn_ty(), "g", ret(lit(0)))]));
    assert_eq!(r, Err(CodegenError::UnsupportedConstruct(Construct::NestedFunction)));
}

#[test]
fn non_function_signature_is_unsupported() {
    let r = lower_one(int_ty(), ret(lit(0)));
    assert_eq!(r, Err(CodegenError::UnsupportedConstruct(Construct::Signature)));
}

#[test]
fn statement_operand_is_type_mismatch() {
    let r = lower_one(int_fn_ty(), ret(bin(AST::Block(vec![]), lit(1), CBinOps::Add)));
    assert_eq!(r, Err(CodegenError::TypeMismatch));
    let r = lower_one(int_fn_ty(), ret(AST::Block(vec![])));
    assert_eq!(r, Err(CodegenError::TypeMismatch));
}

#[test]
fn code_outside_function_has_no_insertion_point() {
    let mut cg = Codegen::new("m");
    assert_eq!(cg.gen(&ret(lit(1))).err(), Some(CodegenError::NoInsertionPoint));
    assert_eq!(cg.run(vec![ret(lit(3))]), Err(CodegenError::NoInsertionPoint));
    assert_eq!(cg.run(vec![lit(3)]), Ok(()));
    assert_eq!(cg.functions().len(), 0);
}

#[test]
fn run_stops_at_first_error() {
    let mut cg = Codegen::new("m");
    let r = cg.run(vec![
        def(int_fn_ty(), "a", ret(lit(1))),
        def(int_fn_ty(), "b", AST::Block(vec![])),
        def(int_fn_ty(), "c", ret(lit(3))),
    ]);
    assert_eq!(r, Err(CodegenError::MissingReturn));
    assert_eq!(cg.functions().len(), 1);
    assert_eq!(cg.functions()[0].name, "a");
}

#[test]
fn function_value_is_its_index() {
    let mut cg = Codegen::new("mod");
    assert_eq!(cg.name(), "mod");
    let (v, t) = cg.gen(&def(int_fn_ty(), "a", ret(lit(1)))).unwrap();
    assert_eq!(v, Value::Func(0));
    assert!(t.is_none());
    let (v, _) = cg.gen(&def(int_fn_ty(), "b", ret(lit(2)))).unwrap();
    assert_eq!(v, Value::Func(1));
}

#[test]
fn parameter_names_are_kept() {
    let mut cg = Codegen::new("m");
    let ty = Type::Func(Box::new(int_ty()), vec![int_ty(), Type::Char(Sign::Unsigned)], false);
    let d = AST::FuncDef(ty, vec!["x".to_string(), "c".to_string()], "f".to_string(), Box::new(ret(lit(0))));
    cg.gen(&d).unwrap();
    assert_eq!(cg.functions()[0].params, vec!["x".to_string(), "c".to_string()]);
}

#[test]
fn types_lower_by_bit_width() {
    let cg = Codegen::new("m");
    let show = |t: &Type| format!("{:?}", cg.type_to_llvmty(t));
    assert_eq!(show(&Type::Void), format!("{:?}", LlvmType::Void));
    assert_eq!(show(&Type::Char(Sign::Signed)), format!("{:?}", LlvmType::Int(8)));
    assert_eq!(show(&Type::Short(Sign::Unsigned)), format!("{:?}", LlvmType::Int(16)));
    assert_eq!(show(&Type::Int(Sign::Unsigned)), format!("{:?}", LlvmType::Int(32)));
    assert_eq!(show(&Type::Long(Sign::Signed)), format!("{:?}", LlvmType::Int(32)));
    assert_eq!(show(&Type::LLong(Sign::Signed)), format!("{:?}", LlvmType::Int(64)));
    assert_eq!(show(&Type::Float), format!("{:?}", LlvmType::Float));
    assert_eq!(show(&Type::Double), format!("{:?}", LlvmType::Double));
}

#[test]
fn composite_types_lower_recursively() {
    let cg = Codegen::new("m");
    let t = Type::Func(
        Box::new(Type::Ptr(Box::new(Type::Char(Sign::Signed)))),
        vec![Type::Array(Box::new(int_ty()), 4), Type::Double],
        true,
    );
    let expected = LlvmType::Function(
        Box::new(LlvmType::Pointer(Box::new(LlvmType::Int(8)))),
        vec![LlvmType::Array(Box::new(LlvmType::Int(32)), 4), LlvmType::Double],
        true,
    );
    assert_eq!(format!("{:?}", cg.type_to_llvmty(&t)), format!("{:?}", expected));
}

#[test]
fn top_level_unsupported_construct_is_named() {
    let mut cg = Codegen::new("m");
    assert_eq!(
        cg.gen(&AST::Variable("x".to_string())).err(),
        Some(CodegenError::UnsupportedConstruct(Construct::Variable))
    );
    assert_eq!(
        cg.gen(&bin(lit(1), lit(2), CBinOps::Shl)).err(),
        Some(CodegenError::UnsupportedConstruct(Construct::Operator(CBinOps::Shl)))
    );
    assert_eq!(cg.gen(&bin(lit(1), lit(2), CBinOps::Add)).err(), Some(CodegenError::NoInsertionPoint));
    assert_eq!(
        cg.run(vec![AST::Variable("x".to_string())]),
        Err(CodegenError::UnsupportedConstruct(Construct::Variable))
    );
    assert_eq!(cg.functions().len(), 0);
}
