//! What the code generator emits: the steps that build native functions.
use vstd::prelude::*;
use super::ir::Ty;

verus! {

/// A value of the backend, named by the number of the step that made it,
/// counted within one function from 0.
pub type Value = u64;

/// The types of the backend that generated code uses.
#[derive(Clone, Copy, PartialEq, Eq, Debug, Structural)]
pub enum LlTy {
    /// No value.
    Void,
    /// 1 bit.
    I1,
    /// 32 bits.
    I32,
    /// 64 bits: integers.
    I64,
    /// 128 bits: strings.
    I128,
    /// As wide as a pointer.
    Usize,
    /// A double: floats.
    F64,
    /// A pointer to nothing in particular: maps, and the runtime.
    VoidPtr,
    /// A pointer to a value of the type.
    Ptr(Ty),
    /// An array of `I32`.
    ArrayI32(usize),
    /// An array of `Usize`.
    ArrayUsize(usize),
}

/// The type of the values of `ty`. Iterators have no type of their own.
pub open spec fn spec_base_ty(ty: Ty) -> LlTy {
    match ty {
        Ty::Int | Ty::Null => LlTy::I64,
        Ty::Float => LlTy::F64,
        Ty::Str => LlTy::I128,
        Ty::IterInt | Ty::IterStr => LlTy::Void,
        _ => LlTy::VoidPtr,
    }
}

#[verifier::when_used_as_spec(spec_base_ty)]
pub fn base_ty(ty: Ty) -> (r: LlTy)
    ensures
        r == spec_base_ty(ty),
{
    match ty {
        Ty::Int | Ty::Null => LlTy::I64,
        Ty::Float => LlTy::F64,
        Ty::Str => LlTy::I128,
        Ty::IterInt | Ty::IterStr => LlTy::Void,
        _ => LlTy::VoidPtr,
    }
}

/// The type in which a value of `ty` is handed to a function: strings go
/// by pointer, everything else by value.
pub open spec fn spec_llvm_ty(ty: Ty) -> LlTy {
    if ty is Str {
        LlTy::Ptr(ty)
    } else {
        spec_base_ty(ty)
    }
}

#[verifier::when_used_as_spec(spec_llvm_ty)]
pub fn llvm_ty(ty: Ty) -> (r: LlTy)
    ensures
        r == spec_llvm_ty(ty),
{
    match ty {
        Ty::Str => LlTy::Ptr(ty),
        _ => base_ty(ty),
    }
}

/// Integer comparisons.
#[derive(Clone, Copy, PartialEq, Eq, Debug, Structural)]
pub enum Pred {
    EQ,
    NE,
    ULT,
    SLT,
    SGT,
    SLE,
    SGE,
}

/// Float comparisons; all of them ordered.
#[derive(Clone, Copy, PartialEq, Eq, Debug, Structural)]
pub enum FPred {
    OEQ,
    OLT,
    OGT,
    OLE,
    OGE,
}

/// Arithmetic on two operands.
#[derive(Clone, Copy, PartialEq, Eq, Debug, Structural)]
pub enum BinOp {
    Add,
    FAdd,
    Sub,
    FSub,
    Mul,
    FMul,
    SRem,
    FRem,
    FDiv,
}

/// Bitwise operations on integers.
#[derive(Clone, Copy, PartialEq, Eq, Debug, Structural)]
pub enum Bitwise {
    Complement,
    And,
    Or,
    LogicalRightShift,
    ArithmeticRightShift,
    LeftShift,
    Xor,
}

/// Functions that the generator builds itself rather than taking them from
/// the runtime.
#[derive(Clone, Copy, PartialEq, Eq, Debug, Structural)]
pub enum BuiltinFunc {
    Pow,
    Cos,
    Sin,
    Atan,
    Atan2,
    Log,
    Log2,
    Log10,
    Sqrt,
    Exp,
}

/// The state of an iteration over the keys of a map: the keys, the index
/// of the next key, and the number of keys.
#[derive(Clone, Copy, PartialEq, Eq, Debug, Structural)]
pub struct IterState {
    /// A pointer to the keys.
    pub iter_ptr: Value,
    /// A pointer to the index of the next key.
    pub cur_index: Value,
    /// The number of keys.
    pub len: Value,
}

/// What a call calls.
#[derive(Clone, Copy, PartialEq, Eq, Debug)]
pub enum Callee {
    /// A function of the runtime, by its name in the table of intrinsics.
    Intrinsic(&'static str),
    /// A function that the generator builds.
    Builtin(BuiltinFunc),
    /// The function generated for a function of the program.
    Udf(usize),
    /// A printf wrapper, by the order in which the wrappers were made.
    Printf(usize),
    /// The function that drops a string.
    DropStr,
}

/// A basic block of a function under construction.
#[derive(Clone, Copy, PartialEq, Eq, Debug, Structural)]
pub enum Block {
    /// The block that is entered first. It holds the stack slots, and
    /// jumps to the first block of the body.
    Entry,
    /// A block of the body.
    Body(usize),
}

/// One request to the backend. Requests of the first group make a value
/// without adding an instruction. Those of the second group add an
/// instruction to the end of a block; where an instruction takes a list of
/// operands, the list is made of the `Arg` requests just before it. The
/// last group wires a phi.
#[derive(Clone, Copy, PartialEq, Eq, Debug)]
pub enum Op {
    /// The parameter with this index.
    Param(u64),
    /// An integer constant of a type, given as 64 bits that are extended
    /// with or without sign.
    ConstInt { ty: LlTy, bits: u64, sign_extend: bool },
    /// A float constant, by its bits.
    ConstReal { bits: u64 },
    /// A string constant, by the 128 bits of its representation.
    ConstStr { repr: u128 },
    /// One operand of the list that the next instruction takes.
    Arg(Value),
    Alloca(LlTy),
    Store { val: Value, ptr: Value },
    /// The value of type `ty` that `ptr` points to.
    Load { ptr: Value, ty: LlTy },
    /// A call with the last `args` operands.
    Call { callee: Callee, args: usize },
    Binary(BinOp, Value, Value),
    FNeg(Value),
    Bits1(Bitwise, Value),
    Bits2(Bitwise, Value, Value),
    ICmp(Pred, Value, Value),
    FCmp(FPred, Value, Value),
    ZExt(Value, LlTy),
    FPToSI(Value, LlTy),
    SIToFP(Value, LlTy),
    PtrToInt(Value, LlTy),
    BitCast(Value, LlTy),
    /// The address of an element: `ptr`, which points to a value of
    /// type `ty`, offset by the last `indices` operands.
    Gep { ptr: Value, ty: LlTy, indices: usize },
    /// A phi of a type, without incoming values yet.
    Phi(LlTy),
    Br(usize),
    CondBr { cond: Value, then_block: usize, else_block: usize },
    Ret(Value),
    RetVoid,
    /// One incoming value of a phi, with the block that it comes from, for
    /// the next `AddIncoming`.
    Incoming { value: Value, block: usize },
    /// Gives a phi the last `count` incoming values.
    AddIncoming { phi: Value, count: usize },
}

/// A step in building a function: a request, and the block at whose end
/// it adds its instruction, if it adds one.
#[derive(Clone, Copy, PartialEq, Eq, Debug)]
pub struct Step {
    pub block: Block,
    pub op: Op,
}

/// The functions that are generated.
#[derive(Clone, Copy, PartialEq, Eq, Debug, Hash, Structural)]
pub enum FuncName {
    /// The function of the program with this number.
    Udf(usize),
    /// The printf wrapper with this number.
    Printf(usize),
    /// The entry point of a serial run.
    Main,
    /// The entry points of the three phases of a parallel run.
    Begin,
    MainLoop,
    EndLoop,
}

impl FuncName {
    /// The name under which an entry point is found in the module; `None`
    /// for the functions that are private to it.
    pub open spec fn spec_entry_symbol(self) -> Option<&'static str> {
        match self {
            FuncName::Main => Some("__frawk_main"),
            FuncName::Begin => Some("__frawk_begin"),
            FuncName::MainLoop => Some("__frawk_main_loop"),
            FuncName::EndLoop => Some("__frawk_end_loop"),
            _ => None,
        }
    }

    #[verifier::when_used_as_spec(spec_entry_symbol)]
    pub fn entry_symbol(self) -> (r: Option<&'static str>)
        ensures
            r == self.spec_entry_symbol(),
    {
        match self {
            FuncName::Main => Some("__frawk_main"),
            FuncName::Begin => Some("__frawk_begin"),
            FuncName::MainLoop => Some("__frawk_main_loop"),
            FuncName::EndLoop => Some("__frawk_end_loop"),
            _ => None,
        }
    }
}

/// A generated function: its signature, and the steps that build its
/// body.
#[derive(Clone, PartialEq, Eq, Debug)]
pub struct FunctionCode {
    pub name: FuncName,
    /// The types of the parameters.
    pub params: Vec<LlTy>,
    /// The type of the result.
    pub ret: LlTy,
    /// Whether the function is private to the module.
    pub private: bool,
    /// Whether the function has an entry block before its body.
    pub has_entry: bool,
    /// The number of blocks of the body.
    pub blocks: usize,
    pub steps: Vec<Step>,
}

/// A generated function, with sequences in the place of its vectors.
pub struct Code {
    pub name: FuncName,
    pub params: Seq<LlTy>,
    pub ret: LlTy,
    pub private: bool,
    pub has_entry: bool,
    pub blocks: nat,
    pub steps: Seq<Step>,
}

impl View for FunctionCode {
    type V = Code;

    open spec fn view(&self) -> Code {
        Code {
            name: self.name,
            params: self.params@,
            ret: self.ret,
            private: self.private,
            has_entry: self.has_entry,
            blocks: self.blocks as nat,
            steps: self.steps@,
        }
    }
}

} // verus!
