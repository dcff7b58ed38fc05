//! How the simple instructions are lowered: most instructions load their
//! operands, carry out one operation on them, and bind its result.
use vstd::prelude::*;
use super::ir::{FloatFunc, Instr, Reg, Ty};
use super::ops::{BinOp, Bitwise, BuiltinFunc, Callee, FPred, LlTy, Pred};

verus! {

/// The operation of a simple instruction.
#[derive(Clone, Copy, PartialEq, Eq, Debug)]
pub enum Act {
    /// A call with the operands as arguments.
    Call(Callee),
    Binary(BinOp),
    Bits1(Bitwise),
    Bits2(Bitwise),
    /// A comparison of integers, widened to an integer.
    ICmp(Pred),
    /// A comparison of floats, widened to an integer.
    FCmp(FPred),
    FNeg,
    /// From float to integer, with sign.
    FPToSI,
    /// From integer to float, with sign.
    SIToFP,
    /// Whether an integer is zero.
    NotInt,
    /// Whether a string is empty.
    NotStr,
    /// Zero minus an integer.
    NegInt,
}

/// An integer constant among the arguments of a call: behind the runtime
/// and before the operands, or behind them all (`last`).
#[derive(Clone, Copy, PartialEq, Eq, Debug, Structural)]
pub struct Konst {
    pub ty: LlTy,
    pub bits: u64,
    pub sign_extend: bool,
    pub last: bool,
}

/// How a simple instruction is lowered.
#[derive(Clone, Copy, PartialEq, Eq, Debug)]
pub struct Plan {
    pub act: Act,
    /// Whether the runtime is the first argument of the call.
    pub rt: bool,
    pub konst: Option<Konst>,
    /// The operands, in order.
    pub a: Option<Reg>,
    pub b: Option<Reg>,
    pub c: Option<Reg>,
    /// The register that the result is bound to.
    pub dst: Option<Reg>,
    /// Whether the result comes with a reference of its own, which is
    /// given up again where the destination is a global.
    pub redrop: bool,
}

/// A flag as an integer.
pub open spec fn spec_flag(b: bool) -> u64 {
    if b {
        1
    } else {
        0
    }
}

#[verifier::when_used_as_spec(spec_flag)]
pub fn flag(b: bool) -> (r: u64)
    ensures
        r == spec_flag(b),
{
    if b {
        1
    } else {
        0
    }
}

/// What a function on floats calls.
pub open spec fn spec_float_callee(ff: FloatFunc) -> Callee {
    match ff {
        FloatFunc::Intrinsic(name) => Callee::Intrinsic(name),
        FloatFunc::Builtin(f) => Callee::Builtin(f),
    }
}

#[verifier::when_used_as_spec(spec_float_callee)]
pub fn float_callee(ff: FloatFunc) -> (r: Callee)
    ensures
        r == spec_float_callee(ff),
{
    match ff {
        FloatFunc::Intrinsic(name) => Callee::Intrinsic(name),
        FloatFunc::Builtin(f) => Callee::Builtin(f),
    }
}

/// The plan of a simple instruction; `None` for the instructions that are
/// lowered in ways of their own.
pub open spec fn spec_plan(inst: Instr) -> Option<Plan> {
    match inst {
        Instr::IntToStr(d, s) => Some(
            Plan {
                act: Act::Call(Callee::Intrinsic("int_to_str")),
                rt: false,
                konst: None,
                a: Some((s, Ty::Int)),
                b: None,
                c: None,
                dst: Some((d, Ty::Str)),
                redrop: false,
            },
        ),
        Instr::FloatToStr(d, s) => Some(
            Plan {
                act: Act::Call(Callee::Intrinsic("float_to_str")),
                rt: false,
                konst: None,
                a: Some((s, Ty::Float)),
                b: None,
                c: None,
                dst: Some((d, Ty::Str)),
                redrop: false,
            },
        ),
        Instr::StrToInt(d, s) => Some(
            Plan {
                act: Act::Call(Callee::Intrinsic("str_to_int")),
                rt: false,
                konst: None,
                a: Some((s, Ty::Str)),
                b: None,
                c: None,
                dst: Some((d, Ty::Int)),
                redrop: false,
            },
        ),
        Instr::HexStrToInt(d, s) => Some(
            Plan {
                act: Act::Call(Callee::Intrinsic("hex_str_to_int")),
                rt: false,
                konst: None,
                a: Some((s, Ty::Str)),
                b: None,
                c: None,
                dst: Some((d, Ty::Int)),
                redrop: false,
            },
        ),
        Instr::StrToFloat(d, s) => Some(
            Plan {
                act: Act::Call(Callee::Intrinsic("str_to_float")),
                rt: false,
                konst: None,
                a: Some((s, Ty::Str)),
                b: None,
                c: None,
                dst: Some((d, Ty::Float)),
                redrop: false,
            },
        ),
        Instr::FloatToInt(d, s) => Some(
            Plan {
                act: Act::FPToSI,
                rt: false,
                konst: None,
                a: Some((s, Ty::Float)),
                b: None,
                c: None,
                dst: Some((d, Ty::Int)),
                redrop: false,
            },
        ),
        Instr::IntToFloat(d, s) => Some(
            Plan {
                act: Act::SIToFP,
                rt: false,
                konst: None,
                a: Some((s, Ty::Int)),
                b: None,
                c: None,
                dst: Some((d, Ty::Float)),
                redrop: false,
            },
        ),
        Instr::AddInt(d, l, r) => Some(
            Plan {
                act: Act::Binary(BinOp::Add),
                rt: false,
                konst: None,
                a: Some((l, Ty::Int)),
                b: Some((r, Ty::Int)),
                c: None,
                dst: Some((d, Ty::Int)),
                redrop: false,
            },
        ),
        Instr::AddFloat(d, l, r) => Some(
            Plan {
                act: Act::Binary(BinOp::FAdd),
                rt: false,
                konst: None,
                a: Some((l, Ty::Float)),
                b: Some((r, Ty::Float)),
                c: None,
                dst: Some((d, Ty::Float)),
                redrop: false,
            },
        ),
        Instr::MulInt(d, l, r) => Some(
            Plan {
                act: Act::Binary(BinOp::Mul),
                rt: false,
                konst: None,
                a: Some((l, Ty::Int)),
                b: Some((r, Ty::Int)),
                c: None,
                dst: Some((d, Ty::Int)),
                redrop: false,
            },
        ),
        Instr::MulFloat(d, l, r) => Some(
            Plan {
                act: Act::Binary(BinOp::FMul),
                rt: false,
                konst: None,
                a: Some((l, Ty::Float)),
                b: Some((r, Ty::Float)),
                c: None,
                dst: Some((d, Ty::Float)),
                redrop: false,
            },
        ),
        Instr::MinusInt(d, l, r) => Some(
            Plan {
                act: Act::Binary(BinOp::Sub),
                rt: false,
                konst: None,
                a: Some((l, Ty::Int)),
                b: Some((r, Ty::Int)),
                c: None,
                dst: Some((d, Ty::Int)),
                redrop: false,
            },
        ),
        Instr::MinusFloat(d, l, r) => Some(
            Plan {
                act: Act::Binary(BinOp::FSub),
                rt: false,
                konst: None,
                a: Some((l, Ty::Float)),
                b: Some((r, Ty::Float)),
                c: None,
                dst: Some((d, Ty::Float)),
                redrop: false,
            },
        ),
        Instr::ModInt(d, l, r) => Some(
            Plan {
                act: Act::Binary(BinOp::SRem),
                rt: false,
                konst: None,
                a: Some((l, Ty::Int)),
                b: Some((r, Ty::Int)),
                c: None,
                dst: Some((d, Ty::Int)),
                redrop: false,
            },
        ),
        Instr::ModFloat(d, l, r) => Some(
            Plan {
                act: Act::Binary(BinOp::FRem),
                rt: false,
                konst: None,
                a: Some((l, Ty::Float)),
                b: Some((r, Ty::Float)),
                c: None,
                dst: Some((d, Ty::Float)),
                redrop: false,
            },
        ),
        Instr::Div(d, l, r) => Some(
            Plan {
                act: Act::Binary(BinOp::FDiv),
                rt: false,
                konst: None,
                a: Some((l, Ty::Float)),
                b: Some((r, Ty::Float)),
                c: None,
                dst: Some((d, Ty::Float)),
                redrop: false,
            },
        ),
        Instr::Pow(d, l, r) => Some(
            Plan {
                act: Act::Call(Callee::Builtin(BuiltinFunc::Pow)),
                rt: false,
                konst: None,
                a: Some((l, Ty::Float)),
                b: Some((r, Ty::Float)),
                c: None,
                dst: Some((d, Ty::Float)),
                redrop: false,
            },
        ),
        Instr::Not(d, s) => Some(
            Plan {
                act: Act::NotInt,
                rt: false,
                konst: None,
                a: Some((s, Ty::Int)),
                b: None,
                c: None,
                dst: Some((d, Ty::Int)),
                redrop: false,
            },
        ),
        Instr::NotStr(d, s) => Some(
            Plan {
                act: Act::NotStr,
                rt: false,
                konst: None,
                a: Some((s, Ty::Str)),
                b: None,
                c: None,
                dst: Some((d, Ty::Int)),
                redrop: false,
            },
        ),
        Instr::NegInt(d, s) => Some(
            Plan {
                act: Act::NegInt,
                rt: false,
                konst: None,
                a: Some((s, Ty::Int)),
                b: None,
                c: None,
                dst: Some((d, Ty::Int)),
                redrop: false,
            },
        ),
        Instr::NegFloat(d, s) => Some(
            Plan {
                act: Act::FNeg,
                rt: false,
                konst: None,
                a: Some((s, Ty::Float)),
                b: None,
                c: None,
                dst: Some((d, Ty::Float)),
                redrop: false,
            },
        ),
        Instr::Float1(ff, d, s) => Some(
            Plan {
                act: Act::Call(float_callee(ff)),
                rt: false,
                konst: None,
                a: Some((s, Ty::Float)),
                b: None,
                c: None,
                dst: Some((d, Ty::Float)),
                redrop: false,
            },
        ),
        Instr::Float2(ff, d, x, y) => Some(
            Plan {
                act: Act::Call(float_callee(ff)),
                rt: false,
                konst: None,
                a: Some((x, Ty::Float)),
                b: Some((y, Ty::Float)),
                c: None,
                dst: Some((d, Ty::Float)),
                redrop: false,
            },
        ),
        Instr::Int1(bw, d, s) => Some(
            Plan {
                act: Act::Bits1(bw),
                rt: false,
                konst: None,
                a: Some((s, Ty::Int)),
                b: None,
                c: None,
                dst: Some((d, Ty::Int)),
                redrop: false,
            },
        ),
        Instr::Int2(bw, d, x, y) => Some(
            Plan {
                act: Act::Bits2(bw),
                rt: false,
                konst: None,
                a: Some((x, Ty::Int)),
                b: Some((y, Ty::Int)),
                c: None,
                dst: Some((d, Ty::Int)),
                redrop: false,
            },
        ),
        Instr::Rand(d) => Some(
            Plan {
                act: Act::Call(Callee::Intrinsic("rand_float")),
                rt: true,
                konst: None,
                a: None,
                b: None,
                c: None,
                dst: Some((d, Ty::Float)),
                redrop: false,
            },
        ),
        Instr::Srand(d, seed) => Some(
            Plan {
                act: Act::Call(Callee::Intrinsic("seed_rng")),
                rt: true,
                konst: None,
                a: Some((seed, Ty::Int)),
                b: None,
                c: None,
                dst: Some((d, Ty::Int)),
                redrop: false,
            },
        ),
        Instr::ReseedRng(d) => Some(
            Plan {
                act: Act::Call(Callee::Intrinsic("reseed_rng")),
                rt: true,
                konst: None,
                a: None,
                b: None,
                c: None,
                dst: Some((d, Ty::Int)),
                redrop: false,
            },
        ),
        Instr::Concat(d, l, r) => Some(
            Plan {
                act: Act::Call(Callee::Intrinsic("concat")),
                rt: false,
                konst: None,
                a: Some((l, Ty::Str)),
                b: Some((r, Ty::Str)),
                c: None,
                dst: Some((d, Ty::Str)),
                redrop: false,
            },
        ),
        Instr::Match(d, l, r) => Some(
            Plan {
                act: Act::Call(Callee::Intrinsic("match_pat_loc")),
                rt: true,
                konst: None,
                a: Some((l, Ty::Str)),
                b: Some((r, Ty::Str)),
                c: None,
                dst: Some((d, Ty::Int)),
                redrop: false,
            },
        ),
        Instr::IsMatch(d, l, r) => Some(
            Plan {
                act: Act::Call(Callee::Intrinsic("match_pat")),
                rt: true,
                konst: None,
                a: Some((l, Ty::Str)),
                b: Some((r, Ty::Str)),
                c: None,
                dst: Some((d, Ty::Int)),
                redrop: false,
            },
        ),
        Instr::SubstrIndex(d, s, t) => Some(
            Plan {
                act: Act::Call(Callee::Intrinsic("substr_index")),
                rt: false,
                konst: None,
                a: Some((s, Ty::Str)),
                b: Some((t, Ty::Str)),
                c: None,
                dst: Some((d, Ty::Int)),
                redrop: false,
            },
        ),
        Instr::LenStr(d, s) => Some(
            Plan {
                act: Act::Call(Callee::Intrinsic("str_len")),
                rt: false,
                konst: None,
                a: Some((s, Ty::Str)),
                b: None,
                c: None,
                dst: Some((d, Ty::Int)),
                redrop: false,
            },
        ),
        Instr::Sub(d, pat, s, in_s) => Some(
            Plan {
                act: Act::Call(Callee::Intrinsic("subst_first")),
                rt: true,
                konst: None,
                a: Some((pat, Ty::Str)),
                b: Some((s, Ty::Str)),
                c: Some((in_s, Ty::Str)),
                dst: Some((d, Ty::Int)),
                redrop: false,
            },
        ),
        Instr::GSub(d, pat, s, in_s) => Some(
            Plan {
                act: Act::Call(Callee::Intrinsic("subst_all")),
                rt: true,
                konst: None,
                a: Some((pat, Ty::Str)),
                b: Some((s, Ty::Str)),
                c: Some((in_s, Ty::Str)),
                dst: Some((d, Ty::Int)),
                redrop: false,
            },
        ),
        Instr::EscapeCSV(d, s) => Some(
            Plan {
                act: Act::Call(Callee::Intrinsic("escape_csv")),
                rt: false,
                konst: None,
                a: Some((s, Ty::Str)),
                b: None,
                c: None,
                dst: Some((d, Ty::Str)),
                redrop: false,
            },
        ),
        Instr::EscapeTSV(d, s) => Some(
            Plan {
                act: Act::Call(Callee::Intrinsic("escape_tsv")),
                rt: false,
                konst: None,
                a: Some((s, Ty::Str)),
                b: None,
                c: None,
                dst: Some((d, Ty::Str)),
                redrop: false,
            },
        ),
        Instr::Substr(d, base, l, r) => Some(
            Plan {
                act: Act::Call(Callee::Intrinsic("substr")),
                rt: false,
                konst: None,
                a: Some((base, Ty::Str)),
                b: Some((l, Ty::Int)),
                c: Some((r, Ty::Int)),
                dst: Some((d, Ty::Str)),
                redrop: false,
            },
        ),
        Instr::LTFloat(d, l, r) => Some(
            Plan {
                act: Act::FCmp(FPred::OLT),
                rt: false,
                konst: None,
                a: Some((l, Ty::Float)),
                b: Some((r, Ty::Float)),
                c: None,
                dst: Some((d, Ty::Int)),
                redrop: false,
            },
        ),
        Instr::LTInt(d, l, r) => Some(
            Plan {
                act: Act::ICmp(Pred::SLT),
                rt: false,
                konst: None,
                a: Some((l, Ty::Int)),
                b: Some((r, Ty::Int)),
                c: None,
                dst: Some((d, Ty::Int)),
                redrop: false,
            },
        ),
        Instr::LTStr(d, l, r) => Some(
            Plan {
                act: Act::Call(Callee::Intrinsic("str_lt")),
                rt: false,
                konst: None,
                a: Some((l, Ty::Str)),
                b: Some((r, Ty::Str)),
                c: None,
                dst: Some((d, Ty::Int)),
                redrop: false,
            },
        ),
        Instr::GTFloat(d, l, r) => Some(
            Plan {
                act: Act::FCmp(FPred::OGT),
                rt: false,
                konst: None,
                a: Some((l, Ty::Float)),
                b: Some((r, Ty::Float)),
                c: None,
                dst: Some((d, Ty::Int)),
                redrop: false,
            },
        ),
        Instr::GTInt(d, l, r) => Some(
            Plan {
                act: Act::ICmp(Pred::SGT),
                rt: false,
                konst: None,
                a: Some((l, Ty::Int)),
                b: Some((r, Ty::Int)),
                c: None,
                dst: Some((d, Ty::Int)),
                redrop: false,
            },
        ),
        Instr::GTStr(d, l, r) => Some(
            Plan {
                act: Act::Call(Callee::Intrinsic("str_gt")),
                rt: false,
                konst: None,
                a: Some((l, Ty::Str)),
                b: Some((r, Ty::Str)),
                c: None,
                dst: Some((d, Ty::Int)),
                redrop: false,
            },
        ),
        Instr::LTEFloat(d, l, r) => Some(
            Plan {
                act: Act::FCmp(FPred::OLE),
                rt: false,
                konst: None,
                a: Some((l, Ty::Float)),
                b: Some((r, Ty::Float)),
                c: None,
                dst: Some((d, Ty::Int)),
                redrop: false,
            },
        ),
        Instr::LTEInt(d, l, r) => Some(
            Plan {
                act: Act::ICmp(Pred::SLE),
                rt: false,
                konst: None,
                a: Some((l, Ty::Int)),
                b: Some((r, Ty::Int)),
                c: None,
                dst: Some((d, Ty::Int)),
                redrop: false,
            },
        ),
        Instr::LTEStr(d, l, r) => Some(
            Plan {
                act: Act::Call(Callee::Intrinsic("str_lte")),
                rt: false,
                konst: None,
                a: Some((l, Ty::Str)),
                b: Some((r, Ty::Str)),
                c: None,
                dst: Some((d, Ty::Int)),
                redrop: false,
            },
        ),
        Instr::GTEFloat(d, l, r) => Some(
            Plan {
                act: Act::FCmp(FPred::OGE),
                rt: false,
                konst: None,
                a: Some((l, Ty::Float)),
                b: Some((r, Ty::Float)),
                c: None,
                dst: Some((d, Ty::Int)),
                redrop: false,
            },
        ),
        Instr::GTEInt(d, l, r) => Some(
            Plan {
                act: Act::ICmp(Pred::SGE),
                rt: false,
                konst: None,
                a: Some((l, Ty::Int)),
                b: Some((r, Ty::Int)),
                c: None,
                dst: Some((d, Ty::Int)),
                redrop: false,
            },
        ),
        Instr::GTEStr(d, l, r) => Some(
            Plan {
                act: Act::Call(Callee::Intrinsic("str_gte")),
                rt: false,
                konst: None,
                a: Some((l, Ty::Str)),
                b: Some((r, Ty::Str)),
                c: None,
                dst: Some((d, Ty::Int)),
                redrop: false,
            },
        ),
        Instr::EQFloat(d, l, r) => Some(
            Plan {
                act: Act::FCmp(FPred::OEQ),
                rt: false,
                konst: None,
                a: Some((l, Ty::Float)),
                b: Some((r, Ty::Float)),
                c: None,
                dst: Some((d, Ty::Int)),
                redrop: false,
            },
        ),
        Instr::EQInt(d, l, r) => Some(
            Plan {
                act: Act::ICmp(Pred::EQ),
                rt: false,
                konst: None,
                a: Some((l, Ty::Int)),
                b: Some((r, Ty::Int)),
                c: None,
                dst: Some((d, Ty::Int)),
                redrop: false,
            },
        ),
        Instr::EQStr(d, l, r) => Some(
            Plan {
                act: Act::Call(Callee::Intrinsic("str_eq")),
                rt: false,
                konst: None,
                a: Some((l, Ty::Str)),
                b: Some((r, Ty::Str)),
                c: None,
                dst: Some((d, Ty::Int)),
                redrop: false,
            },
        ),
        Instr::SetColumn(col, s) => Some(
            Plan {
                act: Act::Call(Callee::Intrinsic("set_col")),
                rt: true,
                konst: None,
                a: Some((col, Ty::Int)),
                b: Some((s, Ty::Str)),
                c: None,
                dst: None,
                redrop: false,
            },
        ),
        Instr::GetColumn(d, col) => Some(
            Plan {
                act: Act::Call(Callee::Intrinsic("get_col")),
                rt: true,
                konst: None,
                a: Some((col, Ty::Int)),
                b: None,
                c: None,
                dst: Some((d, Ty::Str)),
                redrop: false,
            },
        ),
        Instr::JoinCSV(d, start, end) => Some(
            Plan {
                act: Act::Call(Callee::Intrinsic("join_csv")),
                rt: true,
                konst: None,
                a: Some((start, Ty::Int)),
                b: Some((end, Ty::Int)),
                c: None,
                dst: Some((d, Ty::Str)),
                redrop: false,
            },
        ),
        Instr::JoinTSV(d, start, end) => Some(
            Plan {
                act: Act::Call(Callee::Intrinsic("join_tsv")),
                rt: true,
                konst: None,
                a: Some((start, Ty::Int)),
                b: Some((end, Ty::Int)),
                c: None,
                dst: Some((d, Ty::Str)),
                redrop: false,
            },
        ),
        Instr::JoinColumns(d, start, end, sep) => Some(
            Plan {
                act: Act::Call(Callee::Intrinsic("join_cols")),
                rt: true,
                konst: None,
                a: Some((start, Ty::Int)),
                b: Some((end, Ty::Int)),
                c: Some((sep, Ty::Str)),
                dst: Some((d, Ty::Str)),
                redrop: false,
            },
        ),
        Instr::SplitInt(d, s, arr, pat) => Some(
            Plan {
                act: Act::Call(Callee::Intrinsic("split_int")),
                rt: true,
                konst: None,
                a: Some((s, Ty::Str)),
                b: Some((arr, Ty::MapIntStr)),
                c: Some((pat, Ty::Str)),
                dst: Some((d, Ty::Int)),
                redrop: false,
            },
        ),
        Instr::SplitStr(d, s, arr, pat) => Some(
            Plan {
                act: Act::Call(Callee::Intrinsic("split_str")),
                rt: true,
                konst: None,
                a: Some((s, Ty::Str)),
                b: Some((arr, Ty::MapStrStr)),
                c: Some((pat, Ty::Str)),
                dst: Some((d, Ty::Int)),
                redrop: false,
            },
        ),
        Instr::PrintStdout(txt) => Some(
            Plan {
                act: Act::Call(Callee::Intrinsic("print_stdout")),
                rt: true,
                konst: None,
                a: Some((txt, Ty::Str)),
                b: None,
                c: None,
                dst: None,
                redrop: false,
            },
        ),
        Instr::Close(file) => Some(
            Plan {
                act: Act::Call(Callee::Intrinsic("close_file")),
                rt: true,
                konst: None,
                a: Some((file, Ty::Str)),
                b: None,
                c: None,
                dst: None,
                redrop: false,
            },
        ),
        Instr::Print(txt, out, append) => Some(
            Plan {
                act: Act::Call(Callee::Intrinsic("print")),
                rt: true,
                konst: Some(Konst { ty: LlTy::I64, bits: flag(append), sign_extend: true, last: true }),
                a: Some((txt, Ty::Str)),
                b: Some((out, Ty::Str)),
                c: None,
                dst: None,
                redrop: false,
            },
        ),
        Instr::ReadErr(d, file) => Some(
            Plan {
                act: Act::Call(Callee::Intrinsic("read_err")),
                rt: true,
                konst: None,
                a: Some((file, Ty::Str)),
                b: None,
                c: None,
                dst: Some((d, Ty::Int)),
                redrop: false,
            },
        ),
        Instr::NextLine(d, file) => Some(
            Plan {
                act: Act::Call(Callee::Intrinsic("next_line")),
                rt: true,
                konst: None,
                a: Some((file, Ty::Str)),
                b: None,
                c: None,
                dst: Some((d, Ty::Str)),
                redrop: false,
            },
        ),
        Instr::ReadErrStdin(d) => Some(
            Plan {
                act: Act::Call(Callee::Intrinsic("read_err_stdin")),
                rt: true,
                konst: None,
                a: None,
                b: None,
                c: None,
                dst: Some((d, Ty::Int)),
                redrop: false,
            },
        ),
        Instr::NextLineStdin(d) => Some(
            Plan {
                act: Act::Call(Callee::Intrinsic("next_line_stdin")),
                rt: true,
                konst: None,
                a: None,
                b: None,
                c: None,
                dst: Some((d, Ty::Str)),
                redrop: false,
            },
        ),
        Instr::NextLineStdinFused => Some(
            Plan {
                act: Act::Call(Callee::Intrinsic("next_line_stdin_fused")),
                rt: true,
                konst: None,
                a: None,
                b: None,
                c: None,
                dst: None,
                redrop: false,
            },
        ),
        Instr::NextFile => Some(
            Plan {
                act: Act::Call(Callee::Intrinsic("next_file")),
                rt: true,
                konst: None,
                a: None,
                b: None,
                c: None,
                dst: None,
                redrop: false,
            },
        ),
        Instr::LoadVarStr(d, var) => Some(
            Plan {
                act: Act::Call(Callee::Intrinsic("load_var_str")),
                rt: true,
                konst: Some(Konst { ty: LlTy::Usize, bits: var as u64, sign_extend: false, last: false }),
                a: None,
                b: None,
                c: None,
                dst: Some((d, Ty::Str)),
                redrop: true,
            },
        ),
        Instr::StoreVarStr(var, s) => Some(
            Plan {
                act: Act::Call(Callee::Intrinsic("store_var_str")),
                rt: true,
                konst: Some(Konst { ty: LlTy::Usize, bits: var as u64, sign_extend: false, last: false }),
                a: Some((s, Ty::Str)),
                b: None,
                c: None,
                dst: None,
                redrop: false,
            },
        ),
        Instr::LoadVarInt(d, var) => Some(
            Plan {
                act: Act::Call(Callee::Intrinsic("load_var_int")),
                rt: true,
                konst: Some(Konst { ty: LlTy::Usize, bits: var as u64, sign_extend: false, last: false }),
                a: None,
                b: None,
                c: None,
                dst: Some((d, Ty::Int)),
                redrop: false,
            },
        ),
        Instr::StoreVarInt(var, s) => Some(
            Plan {
                act: Act::Call(Callee::Intrinsic("store_var_int")),
                rt: true,
                konst: Some(Konst { ty: LlTy::Usize, bits: var as u64, sign_extend: false, last: false }),
                a: Some((s, Ty::Int)),
                b: None,
                c: None,
                dst: None,
                redrop: false,
            },
        ),
        Instr::LoadVarIntMap(d, var) => Some(
            Plan {
                act: Act::Call(Callee::Intrinsic("load_var_intmap")),
                rt: true,
                konst: Some(Konst { ty: LlTy::Usize, bits: var as u64, sign_extend: false, last: false }),
                a: None,
                b: None,
                c: None,
                dst: Some((d, Ty::MapIntStr)),
                redrop: true,
            },
        ),
        Instr::StoreVarIntMap(var, s) => Some(
            Plan {
                act: Act::Call(Callee::Intrinsic("store_var_intmap")),
                rt: true,
                konst: Some(Konst { ty: LlTy::Usize, bits: var as u64, sign_extend: false, last: false }),
                a: Some((s, Ty::MapIntStr)),
                b: None,
                c: None,
                dst: None,
                redrop: false,
            },
        ),
        _ => None,
    }
}

/// The plan of a simple instruction.
pub fn plan(inst: &Instr) -> (r: Option<Plan>)
    ensures
        r == spec_plan(*inst),
{
    match inst {
        Instr::IntToStr(d, s) => Some(
            Plan {
                act: Act::Call(Callee::Intrinsic("int_to_str")),
                rt: false,
                konst: None,
                a: Some((*s, Ty::Int)),
                b: None,
                c: None,
                dst: Some((*d, Ty::Str)),
                redrop: false,
            },
        ),
        Instr::FloatToStr(d, s) => Some(
            Plan {
                act: Act::Call(Callee::Intrinsic("float_to_str")),
                rt: false,
                konst: None,
                a: Some((*s, Ty::Float)),
                b: None,
                c: None,
                dst: Some((*d, Ty::Str)),
                redrop: false,
            },
        ),
        Instr::StrToInt(d, s) => Some(
            Plan {
                act: Act::Call(Callee::Intrinsic("str_to_int")),
                rt: false,
                konst: None,
                a: Some((*s, Ty::Str)),
                b: None,
                c: None,
                dst: Some((*d, Ty::Int)),
                redrop: false,
            },
        ),
        Instr::HexStrToInt(d, s) => Some(
            Plan {
                act: Act::Call(Callee::Intrinsic("hex_str_to_int")),
                rt: false,
                konst: None,
                a: Some((*s, Ty::Str)),
                b: None,
                c: None,
                dst: Some((*d, Ty::Int)),
                redrop: false,
            },
        ),
        Instr::StrToFloat(d, s) => Some(
            Plan {
                act: Act::Call(Callee::Intrinsic("str_to_float")),
                rt: false,
                konst: None,
                a: Some((*s, Ty::Str)),
                b: None,
                c: None,
                dst: Some((*d, Ty::Float)),
                redrop: false,
            },
        ),
        Instr::FloatToInt(d, s) => Some(
            Plan {
                act: Act::FPToSI,
                rt: false,
                konst: None,
                a: Some((*s, Ty::Float)),
                b: None,
                c: None,
                dst: Some((*d, Ty::Int)),
                redrop: false,
            },
        ),
        Instr::IntToFloat(d, s) => Some(
            Plan {
                act: Act::SIToFP,
                rt: false,
                konst: None,
                a: Some((*s, Ty::Int)),
                b: None,
                c: None,
                dst: Some((*d, Ty::Float)),
                redrop: false,
            },
        ),
        Instr::AddInt(d, l, r) => Some(
            Plan {
                act: Act::Binary(BinOp::Add),
                rt: false,
                konst: None,
                a: Some((*l, Ty::Int)),
                b: Some((*r, Ty::Int)),
                c: None,
                dst: Some((*d, Ty::Int)),
                redrop: false,
            },
        ),
        Instr::AddFloat(d, l, r) => Some(
            Plan {
                act: Act::Binary(BinOp::FAdd),
                rt: false,
                konst: None,
                a: Some((*l, Ty::Float)),
                b: Some((*r, Ty::Float)),
                c: None,
                dst: Some((*d, Ty::Float)),
                redrop: false,
            },
        ),
        Instr::MulInt(d, l, r) => Some(
            Plan {
                act: Act::Binary(BinOp::Mul),
                rt: false,
                konst: None,
                a: Some((*l, Ty::Int)),
                b: Some((*r, Ty::Int)),
                c: None,
                dst: Some((*d, Ty::Int)),
                redrop: false,
            },
        ),
        Instr::MulFloat(d, l, r) => Some(
            Plan {
                act: Act::Binary(BinOp::FMul),
                rt: false,
                konst: None,
                a: Some((*l, Ty::Float)),
                b: Some((*r, Ty::Float)),
                c: None,
                dst: Some((*d, Ty::Float)),
                redrop: false,
            },
        ),
        Instr::MinusInt(d, l, r) => Some(
            Plan {
                act: Act::Binary(BinOp::Sub),
                rt: false,
                konst: None,
                a: Some((*l, Ty::Int)),
                b: Some((*r, Ty::Int)),
                c: None,
                dst: Some((*d, Ty::Int)),
                redrop: false,
            },
        ),
        Instr::MinusFloat(d, l, r) => Some(
            Plan {
                act: Act::Binary(BinOp::FSub),
                rt: false,
                konst: None,
                a: Some((*l, Ty::Float)),
                b: Some((*r, Ty::Float)),
                c: None,
                dst: Some((*d, Ty::Float)),
                redrop: false,
            },
        ),
        Instr::ModInt(d, l, r) => Some(
            Plan {
                act: Act::Binary(BinOp::SRem),
                rt: false,
                konst: None,
                a: Some((*l, Ty::Int)),
                b: Some((*r, Ty::Int)),
                c: None,
                dst: Some((*d, Ty::Int)),
                redrop: false,
            },
        ),
        Instr::ModFloat(d, l, r) => Some(
            Plan {
                act: Act::Binary(BinOp::FRem),
                rt: false,
                konst: None,
                a: Some((*l, Ty::Float)),
                b: Some((*r, Ty::Float)),
                c: None,
                dst: Some((*d, Ty::Float)),
                redrop: false,
            },
        ),
        Instr::Div(d, l, r) => Some(
            Plan {
                act: Act::Binary(BinOp::FDiv),
                rt: false,
                konst: None,
                a: Some((*l, Ty::Float)),
                b: Some((*r, Ty::Float)),
                c: None,
                dst: Some((*d, Ty::Float)),
                redrop: false,
            },
        ),
        Instr::Pow(d, l, r) => Some(
            Plan {
                act: Act::Call(Callee::Builtin(BuiltinFunc::Pow)),
                rt: false,
                konst: None,
                a: Some((*l, Ty::Float)),
                b: Some((*r, Ty::Float)),
                c: None,
                dst: Some((*d, Ty::Float)),
                redrop: false,
            },
        ),
        Instr::Not(d, s) => Some(
            Plan {
                act: Act::NotInt,
                rt: false,
                konst: None,
                a: Some((*s, Ty::Int)),
                b: None,
                c: None,
                dst: Some((*d, Ty::Int)),
                redrop: false,
            },
        ),
        Instr::NotStr(d, s) => Some(
            Plan {
                act: Act::NotStr,
                rt: false,
                konst: None,
                a: Some((*s, Ty::Str)),
                b: None,
                c: None,
                dst: Some((*d, Ty::Int)),
                redrop: false,
            },
        ),
        Instr::NegInt(d, s) => Some(
            Plan {
                act: Act::NegInt,
                rt: false,
                konst: None,
                a: Some((*s, Ty::Int)),
                b: None,
                c: None,
                dst: Some((*d, Ty::Int)),
                redrop: false,
            },
        ),
        Instr::NegFloat(d, s) => Some(
            Plan {
                act: Act::FNeg,
                rt: false,
                konst: None,
                a: Some((*s, Ty::Float)),
                b: None,
                c: None,
                dst: Some((*d, Ty::Float)),
                redrop: false,
            },
        ),
        Instr::Float1(ff, d, s) => Some(
            Plan {
                act: Act::Call(float_callee(*ff)),
                rt: false,
                konst: None,
                a: Some((*s, Ty::Float)),
                b: None,
                c: None,
                dst: Some((*d, Ty::Float)),
                redrop: false,
            },
        ),
        Instr::Float2(ff, d, x, y) => Some(
            Plan {
                act: Act::Call(float_callee(*ff)),
                rt: false,
                konst: None,
                a: Some((*x, Ty::Float)),
                b: Some((*y, Ty::Float)),
                c: None,
                dst: Some((*d, Ty::Float)),
                redrop: false,
            },
        ),
        Instr::Int1(bw, d, s) => Some(
            Plan {
                act: Act::Bits1(*bw),
                rt: false,
                konst: None,
                a: Some((*s, Ty::Int)),
                b: None,
                c: None,
                dst: Some((*d, Ty::Int)),
                redrop: false,
            },
        ),
        Instr::Int2(bw, d, x, y) => Some(
            Plan {
                act: Act::Bits2(*bw),
                rt: false,
                konst: None,
                a: Some((*x, Ty::Int)),
                b: Some((*y, Ty::Int)),
                c: None,
                dst: Some((*d, Ty::Int)),
                redrop: false,
            },
        ),
        Instr::Rand(d) => Some(
            Plan {
                act: Act::Call(Callee::Intrinsic("rand_float")),
                rt: true,
                konst: None,
                a: None,
                b: None,
                c: None,
                dst: Some((*d, Ty::Float)),
                redrop: false,
            },
        ),
        Instr::Srand(d, seed) => Some(
            Plan {
                act: Act::Call(Callee::Intrinsic("seed_rng")),
                rt: true,
                konst: None,
                a: Some((*seed, Ty::Int)),
                b: None,
                c: None,
                dst: Some((*d, Ty::Int)),
                redrop: false,
            },
        ),
        Instr::ReseedRng(d) => Some(
            Plan {
                act: Act::Call(Callee::Intrinsic("reseed_rng")),
                rt: true,
                konst: None,
                a: None,
                b: None,
                c: None,
                dst: Some((*d, Ty::Int)),
                redrop: false,
            },
        ),
        Instr::Concat(d, l, r) => Some(
            Plan {
                act: Act::Call(Callee::Intrinsic("concat")),
                rt: false,
                konst: None,
                a: Some((*l, Ty::Str)),
                b: Some((*r, Ty::Str)),
                c: None,
                dst: Some((*d, Ty::Str)),
                redrop: false,
            },
        ),
        Instr::Match(d, l, r) => Some(
            Plan {
                act: Act::Call(Callee::Intrinsic("match_pat_loc")),
                rt: true,
                konst: None,
                a: Some((*l, Ty::Str)),
                b: Some((*r, Ty::Str)),
                c: None,
                dst: Some((*d, Ty::Int)),
                redrop: false,
            },
        ),
        Instr::IsMatch(d, l, r) => Some(
            Plan {
                act: Act::Call(Callee::Intrinsic("match_pat")),
                rt: true,
                konst: None,
                a: Some((*l, Ty::Str)),
                b: Some((*r, Ty::Str)),
                c: None,
                dst: Some((*d, Ty::Int)),
                redrop: false,
            },
        ),
        Instr::SubstrIndex(d, s, t) => Some(
            Plan {
                act: Act::Call(Callee::Intrinsic("substr_index")),
                rt: false,
                konst: None,
                a: Some((*s, Ty::Str)),
                b: Some((*t, Ty::Str)),
                c: None,
                dst: Some((*d, Ty::Int)),
                redrop: false,
            },
        ),
        Instr::LenStr(d, s) => Some(
            Plan {
                act: Act::Call(Callee::Intrinsic("str_len")),
                rt: false,
                konst: None,
                a: Some((*s, Ty::Str)),
                b: None,
                c: None,
                dst: Some((*d, Ty::Int)),
                redrop: false,
            },
        ),
        Instr::Sub(d, pat, s, in_s) => Some(
            Plan {
                act: Act::Call(Callee::Intrinsic("subst_first")),
                rt: true,
                konst: None,
                a: Some((*pat, Ty::Str)),
                b: Some((*s, Ty::Str)),
                c: Some((*in_s, Ty::Str)),
                dst: Some((*d, Ty::Int)),
                redrop: false,
            },
        ),
        Instr::GSub(d, pat, s, in_s) => Some(
            Plan {
                act: Act::Call(Callee::Intrinsic("subst_all")),
                rt: true,
                konst: None,
                a: Some((*pat, Ty::Str)),
                b: Some((*s, Ty::Str)),
                c: Some((*in_s, Ty::Str)),
                dst: Some((*d, Ty::Int)),
                redrop: false,
            },
        ),
        Instr::EscapeCSV(d, s) => Some(
            Plan {
                act: Act::Call(Callee::Intrinsic("escape_csv")),
                rt: false,
                konst: None,
                a: Some((*s, Ty::Str)),
                b: None,
                c: None,
                dst: Some((*d, Ty::Str)),
                redrop: false,
            },
        ),
        Instr::EscapeTSV(d, s) => Some(
            Plan {
                act: Act::Call(Callee::Intrinsic("escape_tsv")),
                rt: false,
                konst: None,
                a: Some((*s, Ty::Str)),
                b: None,
                c: None,
                dst: Some((*d, Ty::Str)),
                redrop: false,
            },
        ),
        Instr::Substr(d, base, l, r) => Some(
            Plan {
                act: Act::Call(Callee::Intrinsic("substr")),
                rt: false,
                konst: None,
                a: Some((*base, Ty::Str)),
                b: Some((*l, Ty::Int)),
                c: Some((*r, Ty::Int)),
                dst: Some((*d, Ty::Str)),
                redrop: false,
            },
        ),
        Instr::LTFloat(d, l, r) => Some(
            Plan {
                act: Act::FCmp(FPred::OLT),
                rt: false,
                konst: None,
                a: Some((*l, Ty::Float)),
                b: Some((*r, Ty::Float)),
                c: None,
                dst: Some((*d, Ty::Int)),
                redrop: false,
            },
        ),
        Instr::LTInt(d, l, r) => Some(
            Plan {
                act: Act::ICmp(Pred::SLT),
                rt: false,
                konst: None,
                a: Some((*l, Ty::Int)),
                b: Some((*r, Ty::Int)),
                c: None,
                dst: Some((*d, Ty::Int)),
                redrop: false,
            },
        ),
        Instr::LTStr(d, l, r) => Some(
            Plan {
                act: Act::Call(Callee::Intrinsic("str_lt")),
                rt: false,
                konst: None,
                a: Some((*l, Ty::Str)),
                b: Some((*r, Ty::Str)),
                c: None,
                dst: Some((*d, Ty::Int)),
                redrop: false,
            },
        ),
        Instr::GTFloat(d, l, r) => Some(
            Plan {
                act: Act::FCmp(FPred::OGT),
                rt: false,
                konst: None,
                a: Some((*l, Ty::Float)),
                b: Some((*r, Ty::Float)),
                c: None,
                dst: Some((*d, Ty::Int)),
                redrop: false,
            },
        ),
        Instr::GTInt(d, l, r) => Some(
            Plan {
                act: Act::ICmp(Pred::SGT),
                rt: false,
                konst: None,
                a: Some((*l, Ty::Int)),
                b: Some((*r, Ty::Int)),
                c: None,
                dst: Some((*d, Ty::Int)),
                redrop: false,
            },
        ),
        Instr::GTStr(d, l, r) => Some(
            Plan {
                act: Act::Call(Callee::Intrinsic("str_gt")),
                rt: false,
                konst: None,
                a: Some((*l, Ty::Str)),
                b: Some((*r, Ty::Str)),
                c: None,
                dst: Some((*d, Ty::Int)),
                redrop: false,
            },
        ),
        Instr::LTEFloat(d, l, r) => Some(
            Plan {
                act: Act::FCmp(FPred::OLE),
                rt: false,
                konst: None,
                a: Some((*l, Ty::Float)),
                b: Some((*r, Ty::Float)),
                c: None,
                dst: Some((*d, Ty::Int)),
                redrop: false,
            },
        ),
        Instr::LTEInt(d, l, r) => Some(
            Plan {
                act: Act::ICmp(Pred::SLE),
                rt: false,
                konst: None,
                a: Some((*l, Ty::Int)),
                b: Some((*r, Ty::Int)),
                c: None,
                dst: Some((*d, Ty::Int)),
                redrop: false,
            },
        ),
        Instr::LTEStr(d, l, r) => Some(
            Plan {
                act: Act::Call(Callee::Intrinsic("str_lte")),
                rt: false,
                konst: None,
                a: Some((*l, Ty::Str)),
                b: Some((*r, Ty::Str)),
                c: None,
                dst: Some((*d, Ty::Int)),
                redrop: false,
            },
        ),
        Instr::GTEFloat(d, l, r) => Some(
            Plan {
                act: Act::FCmp(FPred::OGE),
                rt: false,
                konst: None,
                a: Some((*l, Ty::Float)),
                b: Some((*r, Ty::Float)),
                c: None,
                dst: Some((*d, Ty::Int)),
                redrop: false,
            },
        ),
        Instr::GTEInt(d, l, r) => Some(
            Plan {
                act: Act::ICmp(Pred::SGE),
                rt: false,
                konst: None,
                a: Some((*l, Ty::Int)),
                b: Some((*r, Ty::Int)),
                c: None,
                dst: Some((*d, Ty::Int)),
                redrop: false,
            },
        ),
        Instr::GTEStr(d, l, r) => Some(
            Plan {
                act: Act::Call(Callee::Intrinsic("str_gte")),
                rt: false,
                konst: None,
                a: Some((*l, Ty::Str)),
                b: Some((*r, Ty::Str)),
                c: None,
                dst: Some((*d, Ty::Int)),
                redrop: false,
            },
        ),
        Instr::EQFloat(d, l, r) => Some(
            Plan {
                act: Act::FCmp(FPred::OEQ),
                rt: false,
                konst: None,
                a: Some((*l, Ty::Float)),
                b: Some((*r, Ty::Float)),
                c: None,
                dst: Some((*d, Ty::Int)),
                redrop: false,
            },
        ),
        Instr::EQInt(d, l, r) => Some(
            Plan {
                act: Act::ICmp(Pred::EQ),
                rt: false,
                konst: None,
                a: Some((*l, Ty::Int)),
                b: Some((*r, Ty::Int)),
                c: None,
                dst: Some((*d, Ty::Int)),
                redrop: false,
            },
        ),
        Instr::EQStr(d, l, r) => Some(
            Plan {
                act: Act::Call(Callee::Intrinsic("str_eq")),
                rt: false,
                konst: None,
                a: Some((*l, Ty::Str)),
                b: Some((*r, Ty::Str)),
                c: None,
                dst: Some((*d, Ty::Int)),
                redrop: false,
            },
        ),
        Instr::SetColumn(col, s) => Some(
            Plan {
                act: Act::Call(Callee::Intrinsic("set_col")),
                rt: true,
                konst: None,
                a: Some((*col, Ty::Int)),
                b: Some((*s, Ty::Str)),
                c: None,
                dst: None,
                redrop: false,
            },
        ),
        Instr::GetColumn(d, col) => Some(
            Plan {
                act: Act::Call(Callee::Intrinsic("get_col")),
                rt: true,
                konst: None,
                a: Some((*col, Ty::Int)),
                b: None,
                c: None,
                dst: Some((*d, Ty::Str)),
                redrop: false,
            },
        ),
        Instr::JoinCSV(d, start, end) => Some(
            Plan {
                act: Act::Call(Callee::Intrinsic("join_csv")),
                rt: true,
                konst: None,
                a: Some((*start, Ty::Int)),
                b: Some((*end, Ty::Int)),
                c: None,
                dst: Some((*d, Ty::Str)),
                redrop: false,
            },
        ),
        Instr::JoinTSV(d, start, end) => Some(
            Plan {
                act: Act::Call(Callee::Intrinsic("join_tsv")),
                rt: true,
                konst: None,
                a: Some((*start, Ty::Int)),
                b: Some((*end, Ty::Int)),
                c: None,
                dst: Some((*d, Ty::Str)),
                redrop: false,
            },
        ),
        Instr::JoinColumns(d, start, end, sep) => Some(
            Plan {
                act: Act::Call(Callee::Intrinsic("join_cols")),
                rt: true,
                konst: None,
                a: Some((*start, Ty::Int)),
                b: Some((*end, Ty::Int)),
                c: Some((*sep, Ty::Str)),
                dst: Some((*d, Ty::Str)),
                redrop: false,
            },
        ),
        Instr::SplitInt(d, s, arr, pat) => Some(
            Plan {
                act: Act::Call(Callee::Intrinsic("split_int")),
                rt: true,
                konst: None,
                a: Some((*s, Ty::Str)),
                b: Some((*arr, Ty::MapIntStr)),
                c: Some((*pat, Ty::Str)),
                dst: Some((*d, Ty::Int)),
                redrop: false,
            },
        ),
        Instr::SplitStr(d, s, arr, pat) => Some(
            Plan {
                act: Act::Call(Callee::Intrinsic("split_str")),
                rt: true,
                konst: None,
                a: Some((*s, Ty::Str)),
                b: Some((*arr, Ty::MapStrStr)),
                c: Some((*pat, Ty::Str)),
                dst: Some((*d, Ty::Int)),
                redrop: false,
            },
        ),
        Instr::PrintStdout(txt) => Some(
            Plan {
                act: Act::Call(Callee::Intrinsic("print_stdout")),
                rt: true,
                konst: None,
                a: Some((*txt, Ty::Str)),
                b: None,
                c: None,
                dst: None,
                redrop: false,
            },
        ),
        Instr::Close(file) => Some(
            Plan {
                act: Act::Call(Callee::Intrinsic("close_file")),
                rt: true,
                konst: None,
                a: Some((*file, Ty::Str)),
                b: None,
                c: None,
                dst: None,
                redrop: false,
            },
        ),
        Instr::Print(txt, out, append) => Some(
            Plan {
                act: Act::Call(Callee::Intrinsic("print")),
                rt: true,
                konst: Some(Konst { ty: LlTy::I64, bits: flag(*append), sign_extend: true, last: true }),
                a: Some((*txt, Ty::Str)),
                b: Some((*out, Ty::Str)),
                c: None,
                dst: None,
                redrop: false,
            },
        ),
        Instr::ReadErr(d, file) => Some(
            Plan {
                act: Act::Call(Callee::Intrinsic("read_err")),
                rt: true,
                konst: None,
                a: Some((*file, Ty::Str)),
                b: None,
                c: None,
                dst: Some((*d, Ty::Int)),
                redrop: false,
            },
        ),
        Instr::NextLine(d, file) => Some(
            Plan {
                act: Act::Call(Callee::Intrinsic("next_line")),
                rt: true,
                konst: None,
                a: Some((*file, Ty::Str)),
                b: None,
                c: None,
                dst: Some((*d, Ty::Str)),
                redrop: false,
            },
        ),
        Instr::ReadErrStdin(d) => Some(
            Plan {
                act: Act::Call(Callee::Intrinsic("read_err_stdin")),
                rt: true,
                konst: None,
                a: None,
                b: None,
                c: None,
                dst: Some((*d, Ty::Int)),
                redrop: false,
            },
        ),
        Instr::NextLineStdin(d) => Some(
            Plan {
                act: Act::Call(Callee::Intrinsic("next_line_stdin")),
                rt: true,
                konst: None,
                a: None,
                b: None,
                c: None,
                dst: Some((*d, Ty::Str)),
                redrop: false,
            },
        ),
        Instr::NextLineStdinFused => Some(
            Plan {
                act: Act::Call(Callee::Intrinsic("next_line_stdin_fused")),
                rt: true,
                konst: None,
                a: None,
                b: None,
                c: None,
                dst: None,
                redrop: false,
            },
        ),
        Instr::NextFile => Some(
            Plan {
                act: Act::Call(Callee::Intrinsic("next_file")),
                rt: true,
                konst: None,
                a: None,
                b: None,
                c: None,
                dst: None,
                redrop: false,
            },
        ),
        Instr::LoadVarStr(d, var) => Some(
            Plan {
                act: Act::Call(Callee::Intrinsic("load_var_str")),
                rt: true,
                konst: Some(Konst { ty: LlTy::Usize, bits: *var as u64, sign_extend: false, last: false }),
                a: None,
                b: None,
                c: None,
                dst: Some((*d, Ty::Str)),
                redrop: true,
            },
        ),
        Instr::StoreVarStr(var, s) => Some(
            Plan {
                act: Act::Call(Callee::Intrinsic("store_var_str")),
                rt: true,
                konst: Some(Konst { ty: LlTy::Usize, bits: *var as u64, sign_extend: false, last: false }),
                a: Some((*s, Ty::Str)),
                b: None,
                c: None,
                dst: None,
                redrop: false,
            },
        ),
        Instr::LoadVarInt(d, var) => Some(
            Plan {
                act: Act::Call(Callee::Intrinsic("load_var_int")),
                rt: true,
                konst: Some(Konst { ty: LlTy::Usize, bits: *var as u64, sign_extend: false, last: false }),
                a: None,
                b: None,
                c: None,
                dst: Some((*d, Ty::Int)),
                redrop: false,
            },
        ),
        Instr::StoreVarInt(var, s) => Some(
            Plan {
                act: Act::Call(Callee::Intrinsic("store_var_int")),
                rt: true,
                konst: Some(Konst { ty: LlTy::Usize, bits: *var as u64, sign_extend: false, last: false }),
                a: Some((*s, Ty::Int)),
                b: None,
                c: None,
                dst: None,
                redrop: false,
            },
        ),
        Instr::LoadVarIntMap(d, var) => Some(
            Plan {
                act: Act::Call(Callee::Intrinsic("load_var_intmap")),
                rt: true,
                konst: Some(Konst { ty: LlTy::Usize, bits: *var as u64, sign_extend: false, last: false }),
                a: None,
                b: None,
                c: None,
                dst: Some((*d, Ty::MapIntStr)),
                redrop: true,
            },
        ),
        Instr::StoreVarIntMap(var, s) => Some(
            Plan {
                act: Act::Call(Callee::Intrinsic("store_var_intmap")),
                rt: true,
                konst: Some(Konst { ty: LlTy::Usize, bits: *var as u64, sign_extend: false, last: false }),
                a: Some((*s, Ty::MapIntStr)),
                b: None,
                c: None,
                dst: None,
                redrop: false,
            },
        ),
        _ => None,
    }
}

} // verus!
