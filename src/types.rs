use vstd::prelude::*;

verus! {

broadcast use vstd::std_specs::vec::group_vec_axioms;

/// Signedness of a source integer type.
#[derive(Clone, Copy, Debug, PartialEq, Eq, Structural)]
pub enum Sign {
    Signed,
    Unsigned,
}

/// A type of the source language.
#[derive(Debug)]
pub enum Type {
    Void,
    Char(Sign),
    Short(Sign),
    Int(Sign),
    Long(Sign),
    LLong(Sign),
    Float,
    Double,
    Ptr(Box<Type>),
    Array(Box<Type>, usize),
    /// Return type, parameter types, and whether the function is variadic.
    Func(Box<Type>, Vec<Type>, bool),
}

/// A backend type, as the mathematical value that a descriptor stands for.
pub enum BType {
    Void,
    Int(nat),
    Float,
    Double,
    Pointer(Box<BType>),
    Array(Box<BType>, nat),
    Function(Box<BType>, Seq<BType>, bool),
}

/// A backend type descriptor, handed to the backend to build the real type.
#[derive(Debug)]
pub enum LlvmType {
    Void,
    /// An integer type of the given bit width.
    Int(u32),
    Float,
    Double,
    /// A pointer in address space zero.
    Pointer(Box<LlvmType>),
    Array(Box<LlvmType>, u64),
    Function(Box<LlvmType>, Vec<LlvmType>, bool),
}

/// The bit width that the backend gives to an integer type; zero for the others.
pub open spec fn int_bits(t: Type) -> nat {
    match t {
        Type::Char(_) => 8,
        Type::Short(_) => 16,
        Type::Int(_) => 32,
        Type::Long(_) => 32,
        Type::LLong(_) => 64,
        _ => 0,
    }
}

/// The backend type that a source type lowers to.
pub open spec fn lower_type(t: Type) -> BType
    decreases t, 0nat,
{
    match t {
        Type::Void => BType::Void,
        Type::Char(_) | Type::Short(_) | Type::Int(_) | Type::Long(_) | Type::LLong(_) => BType::Int(
            int_bits(t),
        ),
        Type::Float => BType::Float,
        Type::Double => BType::Double,
        Type::Ptr(e) => BType::Pointer(Box::new(lower_type(*e))),
        Type::Array(e, n) => BType::Array(Box::new(lower_type(*e)), n as nat),
        Type::Func(r, ps, va) => BType::Function(Box::new(lower_type(*r)), lower_types(ps@), va),
    }
}

/// The backend types of a sequence of source types, element by element.
pub open spec fn lower_types(s: Seq<Type>) -> Seq<BType>
    decreases s, 1nat,
{
    if s.len() == 0 {
        Seq::empty()
    } else {
        seq![lower_type(s[0])] + lower_types(s.subrange(1, s.len() as int))
    }
}

/// What a descriptor stands for.
pub open spec fn llvm_view(l: LlvmType) -> BType
    decreases l, 0nat,
{
    match l {
        LlvmType::Void => BType::Void,
        LlvmType::Int(b) => BType::Int(b as nat),
        LlvmType::Float => BType::Float,
        LlvmType::Double => BType::Double,
        LlvmType::Pointer(e) => BType::Pointer(Box::new(llvm_view(*e))),
        LlvmType::Array(e, n) => BType::Array(Box::new(llvm_view(*e)), n as nat),
        LlvmType::Function(r, ps, va) => BType::Function(Box::new(llvm_view(*r)), llvm_views(ps@), va),
    }
}

/// What a sequence of descriptors stands for, element by element.
pub open spec fn llvm_views(s: Seq<LlvmType>) -> Seq<BType>
    decreases s, 1nat,
{
    if s.len() == 0 {
        Seq::empty()
    } else {
        seq![llvm_view(s[0])] + llvm_views(s.subrange(1, s.len() as int))
    }
}

/// `lower_types` works element by element.
pub proof fn lemma_lower_types_index(s: Seq<Type>)
    ensures
        lower_types(s).len() == s.len(),
        forall|i: int| 0 <= i < s.len() ==> #[trigger] lower_types(s)[i] == lower_type(s[i]),
    decreases s.len(),
{
    if s.len() > 0 {
        let rest = s.subrange(1, s.len() as int);
        lemma_lower_types_index(rest);
        assert forall|i: int| 0 <= i < s.len() implies #[trigger] lower_types(s)[i] == lower_type(s[i]) by {
            if i > 0 {
                assert(rest[i - 1] == s[i]);
            }
        }
    }
}

/// `llvm_views` works element by element.
pub proof fn lemma_llvm_views_index(s: Seq<LlvmType>)
    ensures
        llvm_views(s).len() == s.len(),
        forall|i: int| 0 <= i < s.len() ==> #[trigger] llvm_views(s)[i] == llvm_view(s[i]),
    decreases s.len(),
{
    if s.len() > 0 {
        let rest = s.subrange(1, s.len() as int);
        lemma_llvm_views_index(rest);
        assert forall|i: int| 0 <= i < s.len() implies #[trigger] llvm_views(s)[i] == llvm_view(s[i]) by {
            if i > 0 {
                assert(rest[i - 1] == s[i]);
            }
        }
    }
}

} // verus!
