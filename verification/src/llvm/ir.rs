//! The typed SSA form that the code generator consumes.
use vstd::prelude::*;
use super::ops::{Bitwise, BuiltinFunc};

verus! {

/// The number of a register.
pub type NumTy = u32;

/// The types of values. Their order is that of the tags handed to the
/// runtime.
#[derive(Clone, Copy, PartialEq, Eq, Debug, Hash, Structural)]
pub enum Ty {
    Int,
    Float,
    Str,
    MapIntInt,
    MapIntFloat,
    MapIntStr,
    MapStrInt,
    MapStrFloat,
    MapStrStr,
    IterInt,
    IterStr,
    Null,
}

/// A typed register.
pub type Reg = (NumTy, Ty);

/// What went wrong in generating code.
#[derive(Clone, Copy, PartialEq, Eq, Debug, Structural)]
pub enum CompileError {
    /// An iterator was to be given a default value.
    DefaultIterator,
    /// A register is read that nothing has bound.
    UnboundVariable(NumTy, Ty),
    /// An iterator is used that nothing has begun.
    UnboundIterator(NumTy, Ty),
    /// An iteration over something that is no map.
    NotAMap(Ty),
    /// Something that is no iterator is used as one.
    NotAnIterator(Ty),
    /// An explicit push or pop.
    PushPop,
    /// An explicit allocation of a map.
    AllocMap,
    /// Control flow of the bytecode level.
    BytecodeControlFlow,
    /// An optimization level above 3.
    OptLevel(usize),
    /// A value of a type that has no slots is kept in one.
    NoSlot(Ty),
}

impl Ty {
    /// The tag of the type.
    pub open spec fn spec_tag(self) -> u32 {
        match self {
            Ty::Int => 0,
            Ty::Float => 1,
            Ty::Str => 2,
            Ty::MapIntInt => 3,
            Ty::MapIntFloat => 4,
            Ty::MapIntStr => 5,
            Ty::MapStrInt => 6,
            Ty::MapStrFloat => 7,
            Ty::MapStrStr => 8,
            Ty::IterInt => 9,
            Ty::IterStr => 10,
            Ty::Null => 11,
        }
    }

    #[verifier::when_used_as_spec(spec_tag)]
    pub fn tag(self) -> (r: u32)
        ensures
            r == self.spec_tag(),
    {
        match self {
            Ty::Int => 0,
            Ty::Float => 1,
            Ty::Str => 2,
            Ty::MapIntInt => 3,
            Ty::MapIntFloat => 4,
            Ty::MapIntStr => 5,
            Ty::MapStrInt => 6,
            Ty::MapStrFloat => 7,
            Ty::MapStrStr => 8,
            Ty::IterInt => 9,
            Ty::IterStr => 10,
            Ty::Null => 11,
        }
    }

    /// Whether the type is one of the six map types.
    pub open spec fn spec_is_map(self) -> bool {
        self is MapIntInt || self is MapIntFloat || self is MapIntStr || self is MapStrInt
            || self is MapStrFloat || self is MapStrStr
    }

    #[verifier::when_used_as_spec(spec_is_map)]
    pub fn is_map(self) -> (r: bool)
        ensures
            r == self.spec_is_map(),
    {
        match self {
            Ty::MapIntInt | Ty::MapIntFloat | Ty::MapIntStr | Ty::MapStrInt | Ty::MapStrFloat
            | Ty::MapStrStr => true,
            _ => false,
        }
    }

    /// Whether values of the type are counted references, which must be
    /// dropped: strings and maps.
    pub open spec fn spec_is_counted(self) -> bool {
        self is Str || self.spec_is_map()
    }

    #[verifier::when_used_as_spec(spec_is_counted)]
    pub fn is_counted(self) -> (r: bool)
        ensures
            r == self.spec_is_counted(),
    {
        match self {
            Ty::Str => true,
            _ => self.is_map(),
        }
    }

    /// The type of the keys of a map type.
    pub open spec fn spec_key(self) -> Result<Ty, CompileError> {
        match self {
            Ty::MapIntInt | Ty::MapIntFloat | Ty::MapIntStr => Ok(Ty::Int),
            Ty::MapStrInt | Ty::MapStrFloat | Ty::MapStrStr => Ok(Ty::Str),
            _ => Err(CompileError::NotAMap(self)),
        }
    }

    #[verifier::when_used_as_spec(spec_key)]
    pub fn key(self) -> (r: Result<Ty, CompileError>)
        ensures
            r == self.spec_key(),
    {
        match self {
            Ty::MapIntInt | Ty::MapIntFloat | Ty::MapIntStr => Ok(Ty::Int),
            Ty::MapStrInt | Ty::MapStrFloat | Ty::MapStrStr => Ok(Ty::Str),
            _ => Err(CompileError::NotAMap(self)),
        }
    }

    /// The type of the values of a map type.
    pub open spec fn spec_val(self) -> Result<Ty, CompileError> {
        match self {
            Ty::MapIntInt | Ty::MapStrInt => Ok(Ty::Int),
            Ty::MapIntFloat | Ty::MapStrFloat => Ok(Ty::Float),
            Ty::MapIntStr | Ty::MapStrStr => Ok(Ty::Str),
            _ => Err(CompileError::NotAMap(self)),
        }
    }

    #[verifier::when_used_as_spec(spec_val)]
    pub fn val(self) -> (r: Result<Ty, CompileError>)
        ensures
            r == self.spec_val(),
    {
        match self {
            Ty::MapIntInt | Ty::MapStrInt => Ok(Ty::Int),
            Ty::MapIntFloat | Ty::MapStrFloat => Ok(Ty::Float),
            Ty::MapIntStr | Ty::MapStrStr => Ok(Ty::Str),
            _ => Err(CompileError::NotAMap(self)),
        }
    }

    /// The type of the iterators over the keys of a map type.
    pub open spec fn spec_key_iter(self) -> Result<Ty, CompileError> {
        match self {
            Ty::MapIntInt | Ty::MapIntFloat | Ty::MapIntStr => Ok(Ty::IterInt),
            Ty::MapStrInt | Ty::MapStrFloat | Ty::MapStrStr => Ok(Ty::IterStr),
            _ => Err(CompileError::NotAMap(self)),
        }
    }

    #[verifier::when_used_as_spec(spec_key_iter)]
    pub fn key_iter(self) -> (r: Result<Ty, CompileError>)
        ensures
            r == self.spec_key_iter(),
    {
        match self {
            Ty::MapIntInt | Ty::MapIntFloat | Ty::MapIntStr => Ok(Ty::IterInt),
            Ty::MapStrInt | Ty::MapStrFloat | Ty::MapStrStr => Ok(Ty::IterStr),
            _ => Err(CompileError::NotAMap(self)),
        }
    }

    /// The type of what an iterator type hands out.
    pub open spec fn spec_iter(self) -> Result<Ty, CompileError> {
        match self {
            Ty::IterInt => Ok(Ty::Int),
            Ty::IterStr => Ok(Ty::Str),
            _ => Err(CompileError::NotAnIterator(self)),
        }
    }

    #[verifier::when_used_as_spec(spec_iter)]
    pub fn iter(self) -> (r: Result<Ty, CompileError>)
        ensures
            r == self.spec_iter(),
    {
        match self {
            Ty::IterInt => Ok(Ty::Int),
            Ty::IterStr => Ok(Ty::Str),
            _ => Err(CompileError::NotAnIterator(self)),
        }
    }
}

impl CompileError {
    /// A description of the error.
    pub open spec fn spec_desc(&self) -> &'static str {
        match self {
            CompileError::DefaultIterator => "we should not be default-allocating any iterators",
            CompileError::UnboundVariable(_, _) => "unbound variable (must call bind_val on it before)",
            CompileError::UnboundIterator(_, _) => "unbound iterator",
            CompileError::NotAMap(_) => "iterating over non-map type",
            CompileError::NotAnIterator(_) => "can only drop iterators",
            CompileError::PushPop => "unexpected explicit push/pop in llvm",
            CompileError::AllocMap => "unexpected AllocMap (allocs are handled differently in LLVM)",
            CompileError::BytecodeControlFlow => "unexpected bytecode-level control flow",
            CompileError::OptLevel(_) => "unrecognized opt level",
            CompileError::NoSlot(_) => "no slots for values of this type",
        }
    }

    #[verifier::when_used_as_spec(spec_desc)]
    pub fn desc(&self) -> (r: &'static str)
        ensures
            r == self.spec_desc(),
    {
        match self {
            CompileError::DefaultIterator => "we should not be default-allocating any iterators",
            CompileError::UnboundVariable(_, _) => "unbound variable (must call bind_val on it before)",
            CompileError::UnboundIterator(_, _) => "unbound iterator",
            CompileError::NotAMap(_) => "iterating over non-map type",
            CompileError::NotAnIterator(_) => "can only drop iterators",
            CompileError::PushPop => "unexpected explicit push/pop in llvm",
            CompileError::AllocMap => "unexpected AllocMap (allocs are handled differently in LLVM)",
            CompileError::BytecodeControlFlow => "unexpected bytecode-level control flow",
            CompileError::OptLevel(_) => "unrecognized opt level",
            CompileError::NoSlot(_) => "no slots for values of this type",
        }
    }
}

/// A function on floats: one of the runtime, by its name in the table of
/// intrinsics, or one that the generator builds.
#[derive(Clone, Copy, PartialEq, Eq, Debug)]
pub enum FloatFunc {
    Intrinsic(&'static str),
    Builtin(BuiltinFunc),
}

/// The low-level instructions. Where an instruction has a destination, it
/// comes first; the types of the registers follow from the instruction
/// unless they are given.
#[derive(Clone, PartialEq, Eq, Debug)]
pub enum Instr {
    /// A string constant, by the 128 bits of its representation; dropping
    /// it must be trivial.
    StoreConstStr(NumTy, u128),
    StoreConstInt(NumTy, i64),
    /// A float constant, by its bits.
    StoreConstFloat(NumTy, u64),
    IntToStr(NumTy, NumTy),
    FloatToStr(NumTy, NumTy),
    StrToInt(NumTy, NumTy),
    HexStrToInt(NumTy, NumTy),
    StrToFloat(NumTy, NumTy),
    FloatToInt(NumTy, NumTy),
    IntToFloat(NumTy, NumTy),
    AddInt(NumTy, NumTy, NumTy),
    AddFloat(NumTy, NumTy, NumTy),
    MulInt(NumTy, NumTy, NumTy),
    MulFloat(NumTy, NumTy, NumTy),
    MinusInt(NumTy, NumTy, NumTy),
    MinusFloat(NumTy, NumTy, NumTy),
    ModInt(NumTy, NumTy, NumTy),
    ModFloat(NumTy, NumTy, NumTy),
    Div(NumTy, NumTy, NumTy),
    Pow(NumTy, NumTy, NumTy),
    Not(NumTy, NumTy),
    NotStr(NumTy, NumTy),
    NegInt(NumTy, NumTy),
    NegFloat(NumTy, NumTy),
    Float1(FloatFunc, NumTy, NumTy),
    Float2(FloatFunc, NumTy, NumTy, NumTy),
    Int1(Bitwise, NumTy, NumTy),
    Int2(Bitwise, NumTy, NumTy, NumTy),
    Rand(NumTy),
    Srand(NumTy, NumTy),
    ReseedRng(NumTy),
    Concat(NumTy, NumTy, NumTy),
    Match(NumTy, NumTy, NumTy),
    IsMatch(NumTy, NumTy, NumTy),
    SubstrIndex(NumTy, NumTy, NumTy),
    LenStr(NumTy, NumTy),
    Sub(NumTy, NumTy, NumTy, NumTy),
    GSub(NumTy, NumTy, NumTy, NumTy),
    EscapeCSV(NumTy, NumTy),
    EscapeTSV(NumTy, NumTy),
    Substr(NumTy, NumTy, NumTy, NumTy),
    LTFloat(NumTy, NumTy, NumTy),
    LTInt(NumTy, NumTy, NumTy),
    LTStr(NumTy, NumTy, NumTy),
    GTFloat(NumTy, NumTy, NumTy),
    GTInt(NumTy, NumTy, NumTy),
    GTStr(NumTy, NumTy, NumTy),
    LTEFloat(NumTy, NumTy, NumTy),
    LTEInt(NumTy, NumTy, NumTy),
    LTEStr(NumTy, NumTy, NumTy),
    GTEFloat(NumTy, NumTy, NumTy),
    GTEInt(NumTy, NumTy, NumTy),
    GTEStr(NumTy, NumTy, NumTy),
    EQFloat(NumTy, NumTy, NumTy),
    EQInt(NumTy, NumTy, NumTy),
    EQStr(NumTy, NumTy, NumTy),
    /// Sets the column whose number is in the first register.
    SetColumn(NumTy, NumTy),
    GetColumn(NumTy, NumTy),
    JoinCSV(NumTy, NumTy, NumTy),
    JoinTSV(NumTy, NumTy, NumTy),
    JoinColumns(NumTy, NumTy, NumTy, NumTy),
    /// Splits the second register into the map in the third, by the
    /// pattern in the fourth.
    SplitInt(NumTy, NumTy, NumTy, NumTy),
    SplitStr(NumTy, NumTy, NumTy, NumTy),
    Sprintf { dst: NumTy, fmt: NumTy, args: Vec<Reg> },
    /// Prints to the file named in the register of `output`, appending if
    /// its flag is set, or to standard output.
    Printf { output: Option<(NumTy, bool)>, fmt: NumTy, args: Vec<Reg> },
    PrintStdout(NumTy),
    Close(NumTy),
    /// Prints the first register to the file named in the second.
    Print(NumTy, NumTy, bool),
    ReadErr(NumTy, NumTy),
    NextLine(NumTy, NumTy),
    ReadErrStdin(NumTy),
    NextLineStdin(NumTy),
    NextLineStdinFused,
    NextFile,
    Lookup { map_ty: Ty, dst: NumTy, map: NumTy, key: NumTy },
    Contains { map_ty: Ty, dst: NumTy, map: NumTy, key: NumTy },
    Delete { map_ty: Ty, map: NumTy, key: NumTy },
    Len { map_ty: Ty, map: NumTy, dst: NumTy },
    Store { map_ty: Ty, map: NumTy, key: NumTy, val: NumTy },
    /// Loads the special variable with the number given second.
    LoadVarStr(NumTy, u32),
    /// Stores into the special variable with the number given first.
    StoreVarStr(u32, NumTy),
    LoadVarInt(NumTy, u32),
    StoreVarInt(u32, NumTy),
    LoadVarIntMap(NumTy, u32),
    StoreVarIntMap(u32, NumTy),
    LoadSlot { ty: Ty, dst: NumTy, slot: i64 },
    StoreSlot { ty: Ty, src: NumTy, slot: i64 },
    Mov(Ty, NumTy, NumTy),
    IterBegin { map_ty: Ty, map: NumTy, dst: NumTy },
    IterHasNext { iter_ty: Ty, dst: NumTy, iter: NumTy },
    IterGetNext { iter_ty: Ty, dst: NumTy, iter: NumTy },
    Push(Ty, NumTy),
    Pop(Ty, NumTy),
    AllocMap(Ty, NumTy),
    Ret,
    Halt,
    Jmp(usize),
    JmpIf(NumTy, usize),
    Call(usize),
}

/// The high-level instructions.
#[derive(Clone, PartialEq, Eq, Debug)]
pub enum HighLevel {
    /// A call of the function `func_id` of the program.
    Call { func_id: NumTy, dst_reg: NumTy, dst_ty: Ty, args: Vec<Reg> },
    Ret(NumTy, Ty),
    /// A register that takes the value of one of `preds`, each of them a
    /// block and a register of the same type: the one of the block that
    /// control came from.
    Phi(NumTy, Ty, Vec<(usize, NumTy)>),
    DropIter(NumTy, Ty),
}

/// An instruction of a basic block.
#[derive(Clone, PartialEq, Eq, Debug)]
pub enum Node {
    Low(Instr),
    High(HighLevel),
}

/// An edge of a control-flow graph. With a register, the edge is taken if
/// the register is not zero; without, it is taken otherwise.
#[derive(Clone, Copy, PartialEq, Eq, Debug, Structural)]
pub struct Edge {
    pub from: u32,
    pub to: u32,
    pub cond: Option<NumTy>,
}

/// A function of the program.
#[derive(Clone, PartialEq, Eq, Debug)]
pub struct Frame {
    /// Whether anything calls the function. No code is generated for one
    /// that nothing calls.
    pub is_called: bool,
    /// The registers of the arguments, with their types.
    pub args: Vec<Reg>,
    /// The type of the result.
    pub ret_ty: Ty,
    /// The registers that are live on entry without being arguments.
    pub locals: Vec<Reg>,
    /// The global registers that the function refers to.
    pub globals: Vec<Reg>,
    /// The basic blocks; control enters at the first.
    pub blocks: Vec<Vec<Node>>,
    /// The edges between the blocks.
    pub edges: Vec<Edge>,
}

/// The entry points of a program: one function, or one for each of the
/// three phases of a parallel run.
#[derive(Clone, Copy, PartialEq, Eq, Debug, Structural)]
pub enum Stage<T> {
    Main(T),
    Par { begin: Option<T>, main_loop: Option<T>, end: Option<T> },
}

} // verus!
