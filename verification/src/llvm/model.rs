//! What the code generator emits, stated as functions on the state of a
//! function under construction.
//!
//! Each function here takes the state before a piece of code is lowered
//! and gives the state after it; where lowering yields a value, the value
//! comes with the state.
use vstd::prelude::*;
use super::ir::{CompileError, Edge, Frame, HighLevel, Instr, Node, NumTy, Reg, Stage, Ty};
use super::names::{
    spec_alloc_name, spec_contains_name, spec_delete_name, spec_drop_iter_name, spec_drop_name,
    spec_insert_name, spec_iter_name, spec_len_name, spec_load_slot_name, spec_lookup_name,
    spec_store_slot_name,
};
use super::graph::dfs_preorder;
use super::ops::{
    spec_base_ty, BinOp, Block, Callee, Code, FuncName, LlTy, Op, Pred, Step, Value,
};
use super::plan::{spec_flag, spec_plan, Act, Konst, Plan};

verus! {

/// Where the output of a printf goes.
#[derive(Clone, Copy, PartialEq, Eq, Debug, Structural)]
pub enum PrintfKind {
    Stdout,
    File,
    Sprintf,
}

/// The signature of a printf wrapper: the types of its arguments, and its
/// kind.
pub type Sig = (Seq<Ty>, PrintfKind);

/// The state of a function under construction.
pub struct FnState {
    /// The steps emitted so far.
    pub steps: Seq<Step>,
    /// The block at whose end instructions are added.
    pub block: Block,
    /// The values of the local registers that are bound. For a string it
    /// is the slot that holds the string.
    pub locals: Map<Reg, Value>,
    /// The local registers in the order in which they were bound.
    pub order: Seq<Reg>,
    /// The local registers that a return does not drop.
    pub skip_drop: Set<Reg>,
    /// Of the iterators that were begun: the pointer to the keys,
    pub iter_ptr: Map<Reg, Value>,
    /// the slot of the index of the next key,
    pub iter_cur: Map<Reg, Value>,
    /// and the number of keys.
    pub iter_len: Map<Reg, Value>,
    /// The signatures of the printf wrappers made so far, for all
    /// functions, in the order in which they were made.
    pub printfs: Seq<Sig>,
}

/// What is known of a function of the program before code is generated
/// for any of them.
pub struct Decl {
    /// Whether the function is generated at all.
    pub called: bool,
    /// The parameter through which each global comes.
    pub globals: Map<Reg, Value>,
    /// The globals in the order of their parameters.
    pub global_order: Seq<Reg>,
    /// The number of parameters: the arguments, the globals, and the
    /// runtime.
    pub num_args: nat,
}

/// What surrounds a function under construction: all declarations, and
/// which of them is its own.
pub struct Env {
    pub decls: Seq<Decl>,
    pub id: int,
}

impl Env {
    /// The declaration of the function under construction.
    pub open spec fn me(self) -> Decl {
        self.decls[self.id]
    }

    /// Whether `reg` is a global of the function under construction.
    pub open spec fn is_global(self, reg: Reg) -> bool {
        self.me().globals.contains_key(reg)
    }
}

/// Whether `r` and the state `after` are what the model `m` says of a
/// piece of code that yields a value.
pub open spec fn yields<T>(
    m: Result<(FnState, T), CompileError>,
    r: Result<T, CompileError>,
    after: FnState,
) -> bool {
    match m {
        Ok((s, v)) => r == Ok::<T, CompileError>(v) && after == s,
        Err(e) => r == Err::<T, CompileError>(e),
    }
}

/// Whether `r` and the state `after` are what the model `m` says of a
/// piece of code that yields no value.
pub open spec fn follows(
    m: Result<FnState, CompileError>,
    r: Result<(), CompileError>,
    after: FnState,
) -> bool {
    match m {
        Ok(s) => r is Ok && after == s,
        Err(e) => r == Err::<(), CompileError>(e),
    }
}

/// The value that the next step makes.
pub open spec fn next(s: FnState) -> Value {
    s.steps.len() as u64
}

/// `s` with one more step at the end of the current block.
pub open spec fn emit(s: FnState, op: Op) -> FnState {
    FnState { steps: s.steps.push(Step { block: s.block, op }), ..s }
}

/// `s` with one more step at the end of the entry block.
pub open spec fn emit_entry(s: FnState, op: Op) -> FnState {
    FnState { steps: s.steps.push(Step { block: Block::Entry, op }), ..s }
}

/// An integer constant.
pub open spec fn const_int(s: FnState, ty: LlTy, bits: u64, sign_extend: bool) -> (FnState, Value) {
    (emit(s, Op::ConstInt { ty, bits, sign_extend }), next(s))
}

/// The operands `args`, for the instruction that follows.
pub open spec fn push_args(s: FnState, args: Seq<Value>) -> FnState
    decreases args.len(),
{
    if args.len() == 0 {
        s
    } else {
        emit(push_args(s, args.drop_last()), Op::Arg(args.last()))
    }
}

/// A call of `callee` with `args`.
pub open spec fn call(s: FnState, callee: Callee, args: Seq<Value>) -> (FnState, Value) {
    let s1 = push_args(s, args);
    (emit(s1, Op::Call { callee, args: args.len() as usize }), next(s1))
}

/// A call of the intrinsic `name` with `args`.
pub open spec fn intrinsic(s: FnState, name: &'static str, args: Seq<Value>) -> (FnState, Value) {
    call(s, Callee::Intrinsic(name), args)
}

/// The default value of a type: zero for numbers, a slot holding the empty
/// string for strings, a new map for maps. Iterators have none.
pub open spec fn alloc_local(s: FnState, ty: Ty) -> Result<(FnState, Value), CompileError> {
    match ty {
        Ty::Null | Ty::Int => Ok(const_int(s, LlTy::I64, 0, true)),
        Ty::Float => Ok((emit(s, Op::ConstReal { bits: 0 }), next(s))),
        Ty::Str => {
            let (s1, v) = const_int(s, LlTy::I128, 0, false);
            let loc = next(s1);
            let s2 = emit(s1, Op::Alloca(LlTy::I128));
            Ok((emit(s2, Op::Store { val: v, ptr: loc }), loc))
        },
        Ty::IterInt | Ty::IterStr => Err(CompileError::DefaultIterator),
        _ => match spec_alloc_name(ty) {
            Ok(name) => Ok(intrinsic(s, name, Seq::empty())),
            Err(e) => Err(e),
        },
    }
}

/// Drops a value of type `ty`: a call for strings and maps, nothing for
/// the rest.
pub open spec fn drop_val(s: FnState, val: Value, ty: Ty) -> FnState {
    if ty is Str {
        call(s, Callee::DropStr, seq![val]).0
    } else {
        match spec_drop_name(ty) {
            Ok(name) => intrinsic(s, name, seq![val]).0,
            Err(_) => s,
        }
    }
}

/// A stack slot for a value of type `ty`, holding zero. The slot is made
/// in the entry block, wherever the code that needs it stands.
pub open spec fn alloca(s: FnState, ty: Ty) -> (FnState, Value) {
    let res = next(s);
    let s1 = emit_entry(s, Op::Alloca(spec_base_ty(ty)));
    let (s2, v) = const_int(s1, spec_base_ty(ty), 0, false);
    (emit_entry(s2, Op::Store { val: v, ptr: res }), res)
}

/// The value of a register, if it has one: zero for a null register, the
/// value bound for a local, the parameter for a global string, and what
/// the parameter points to for any other global.
pub open spec fn get_local_inner(s: FnState, env: Env, reg: Reg) -> (FnState, Option<Value>) {
    if reg.1 is Null {
        let (s1, v) = const_int(s, LlTy::I64, 0, false);
        (s1, Some(v))
    } else if s.locals.contains_key(reg) {
        (s, Some(s.locals[reg]))
    } else if env.is_global(reg) {
        let gv = next(s);
        let s1 = emit(s, Op::Param(env.me().globals[reg]));
        if reg.1 is Str {
            (s1, Some(gv))
        } else {
            (emit(s1, Op::Load { ptr: gv, ty: spec_base_ty(reg.1) }), Some(next(s1)))
        }
    } else {
        (s, None)
    }
}

/// The value of a register that must have one.
pub open spec fn get_local(s: FnState, env: Env, reg: Reg) -> Result<(FnState, Value), CompileError> {
    match get_local_inner(s, env, reg) {
        (s1, Some(v)) => Ok((s1, v)),
        (_, None) => Err(CompileError::UnboundVariable(reg.0, reg.1)),
    }
}

/// Whether a register has a value.
pub open spec fn has_var(s: FnState, env: Env, reg: Reg) -> bool {
    s.locals.contains_key(reg) || env.is_global(reg)
}

/// `s` with `v` as the value of the local `reg`.
pub open spec fn insert_local(s: FnState, reg: Reg, v: Value) -> FnState {
    FnState {
        locals: s.locals.insert(reg, v),
        order: if s.locals.contains_key(reg) {
            s.order
        } else {
            s.order.push(reg)
        },
        ..s
    }
}

/// Binds the value `to` to a register.
///
/// For a global, the value goes to where the parameter points. A string
/// there is dropped before, and the new one is counted after; a map there
/// is dropped and the new one is counted before it is stored.
///
/// For a local, a string is stored in a new slot, which becomes the value
/// of the register; a map is counted; any other value is bound as it is.
pub open spec fn bind_val(s: FnState, env: Env, reg: Reg, to: Value) -> FnState {
    if reg.1 is Null {
        s
    } else if env.is_global(reg) {
        let param = next(s);
        let s1 = emit(s, Op::Param(env.me().globals[reg]));
        if reg.1.spec_is_map() {
            let prev = next(s1);
            let s2 = emit(s1, Op::Load { ptr: param, ty: spec_base_ty(reg.1) });
            let s3 = drop_val(s2, prev, reg.1);
            let s4 = intrinsic(s3, "ref_map", seq![to]).0;
            emit(s4, Op::Store { val: to, ptr: param })
        } else if reg.1 is Str {
            let s2 = drop_val(s1, param, Ty::Str);
            let s3 = emit(s2, Op::Store { val: to, ptr: param });
            intrinsic(s3, "ref_str", seq![param]).0
        } else {
            emit(s1, Op::Store { val: to, ptr: param })
        }
    } else if reg.1.spec_is_map() {
        insert_local(intrinsic(s, "ref_map", seq![to]).0, reg, to)
    } else if reg.1 is Str {
        let (s1, loc) = alloca(s, Ty::Str);
        let s2 = drop_val(s1, loc, Ty::Str);
        let s3 = emit(s2, Op::Store { val: to, ptr: loc });
        insert_local(s3, reg, loc)
    } else {
        insert_local(s, reg, to)
    }
}

/// The value of an argument of a call. An argument that nothing has bound
/// is bound to a default value first.
pub open spec fn get_param(s: FnState, env: Env, reg: Reg) -> Result<(FnState, Value), CompileError> {
    match get_local_inner(s, env, reg) {
        (s1, Some(v)) => Ok((s1, v)),
        (s1, None) => {
            let made = if reg.1 is Int || reg.1 is Str {
                Ok(const_int(s1, spec_base_ty(reg.1), 0, false))
            } else {
                alloc_local(s1, reg.1)
            };
            match made {
                Ok((s2, v)) => Ok((bind_val(s2, env, reg, v), v)),
                Err(e) => Err(e),
            }
        },
    }
}

/// The runtime: the last parameter.
pub open spec fn runtime_val(s: FnState, env: Env) -> (FnState, Value) {
    (emit(s, Op::Param((env.me().num_args - 1) as u64)), next(s))
}

/// A comparison of integers, widened to an integer.
pub open spec fn compare_int(s: FnState, pred: Pred, l: Value, r: Value) -> (FnState, Value) {
    let res = next(s);
    let s1 = emit(s, Op::ICmp(pred, l, r));
    (emit(s1, Op::ZExt(res, LlTy::I64)), next(s1))
}

/// A comparison of floats, widened to an integer.
pub open spec fn compare_float(s: FnState, pred: super::ops::FPred, l: Value, r: Value) -> (
    FnState,
    Value,
) {
    let res = next(s);
    let s1 = emit(s, Op::FCmp(pred, l, r));
    (emit(s1, Op::ZExt(res, LlTy::I64)), next(s1))
}

/// The end of a block: a branch on the register of `tcase` being not
/// zero, or a jump where there is none.
pub open spec fn branch(s: FnState, env: Env, tcase: Option<(NumTy, usize)>, fcase: usize) -> Result<
    FnState,
    CompileError,
> {
    match tcase {
        Some((reg, t_bb)) => match get_local(s, env, (reg, Ty::Int)) {
            Ok((s1, val)) => {
                let (s2, zero) = const_int(s1, LlTy::I64, 0, true);
                let cond = next(s2);
                let s3 = emit(s2, Op::ICmp(Pred::NE, val, zero));
                Ok(emit(s3, Op::CondBr { cond, then_block: t_bb, else_block: fcase }))
            },
            Err(e) => Err(e),
        },
        None => Ok(emit(s, Op::Br(fcase))),
    }
}

/// The value of an operand of a plan; nothing is loaded where there is no
/// operand.
pub open spec fn load_operand(s: FnState, env: Env, r: Option<Reg>) -> Result<
    (FnState, Seq<Value>),
    CompileError,
> {
    match r {
        Some(reg) => match get_local(s, env, reg) {
            Ok((s1, v)) => Ok((s1, seq![v])),
            Err(e) => Err(e),
        },
        None => Ok((s, Seq::empty())),
    }
}

/// The arguments of the call of a plan whose operands have the values
/// `vs`: the runtime if the plan asks for it, then the operands, with the
/// constant of the plan before or behind them.
pub open spec fn call_args(s: FnState, env: Env, p: Plan, vs: Seq<Value>) -> (FnState, Seq<Value>) {
    let (s1, pre) = if p.rt {
        let (s1, rt) = runtime_val(s, env);
        (s1, seq![rt])
    } else {
        (s, Seq::empty())
    };
    match p.konst {
        Some(k) => {
            let (s2, kv) = const_int(s1, k.ty, k.bits, k.sign_extend);
            if k.last {
                (s2, pre + vs + seq![kv])
            } else {
                (s2, pre + seq![kv] + vs)
            }
        },
        None => (s1, pre + vs),
    }
}

/// The operation of a plan on operands with the values `vs`.
pub open spec fn act(s: FnState, env: Env, p: Plan, vs: Seq<Value>) -> (FnState, Value) {
    match p.act {
        Act::Call(callee) => {
            let (s1, args) = call_args(s, env, p, vs);
            call(s1, callee, args)
        },
        Act::Binary(op) => (emit(s, Op::Binary(op, vs[0], vs[1])), next(s)),
        Act::Bits1(bw) => (emit(s, Op::Bits1(bw, vs[0])), next(s)),
        Act::Bits2(bw) => (emit(s, Op::Bits2(bw, vs[0], vs[1])), next(s)),
        Act::ICmp(pred) => compare_int(s, pred, vs[0], vs[1]),
        Act::FCmp(pred) => compare_float(s, pred, vs[0], vs[1]),
        Act::FNeg => (emit(s, Op::FNeg(vs[0])), next(s)),
        Act::FPToSI => (emit(s, Op::FPToSI(vs[0], LlTy::I64)), next(s)),
        Act::SIToFP => (emit(s, Op::SIToFP(vs[0], LlTy::F64)), next(s)),
        Act::NotInt => {
            let (s1, zero) = const_int(s, LlTy::I64, 0, true);
            compare_int(s1, Pred::EQ, vs[0], zero)
        },
        Act::NotStr => {
            let (s1, len) = intrinsic(s, "str_len", seq![vs[0]]);
            let (s2, zero) = const_int(s1, LlTy::I64, 0, true);
            compare_int(s2, Pred::EQ, len, zero)
        },
        Act::NegInt => {
            let (s1, zero) = const_int(s, LlTy::I64, 0, true);
            (emit(s1, Op::Binary(BinOp::Sub, zero, vs[0])), next(s1))
        },
    }
}

/// Whether a plan has the operands that its operation takes.
pub open spec fn plan_fits(p: Plan) -> bool {
    match p.act {
        Act::Call(_) => true,
        Act::Binary(_) | Act::Bits2(_) | Act::ICmp(_) | Act::FCmp(_) => p.a is Some && p.b is Some,
        _ => p.a is Some,
    }
}

/// Binds the result `v` of a plan to its destination. A result that came
/// with a reference of its own is dropped once where it went to a global,
/// which was counted in binding.
pub open spec fn bind_result(s: FnState, env: Env, p: Plan, v: Value) -> Result<
    FnState,
    CompileError,
> {
    match p.dst {
        Some(d) => {
            let s1 = bind_val(s, env, d, v);
            if p.redrop && env.is_global(d) {
                match get_local(s1, env, d) {
                    Ok((s2, val)) => Ok(drop_val(s2, val, d.1)),
                    Err(e) => Err(e),
                }
            } else {
                Ok(s1)
            }
        },
        None => Ok(s),
    }
}

/// Every plan of the table has the operands that its operation takes.
pub proof fn lemma_plan_fits(inst: Instr)
    ensures
        spec_plan(inst) matches Some(p) ==> plan_fits(p),
{
}

/// A simple instruction: its operands are loaded in order, its operation
/// is carried out, and the result is bound.
pub open spec fn run_plan(s: FnState, env: Env, p: Plan) -> Result<FnState, CompileError> {
    match load_operand(s, env, p.a) {
        Err(e) => Err(e),
        Ok((s1, va)) => match load_operand(s1, env, p.b) {
            Err(e) => Err(e),
            Ok((s2, vb)) => match load_operand(s2, env, p.c) {
                Err(e) => Err(e),
                Ok((s3, vc)) => {
                    let (s4, v) = act(s3, env, p, va + vb + vc);
                    bind_result(s4, env, p, v)
                },
            },
        },
    }
}

/// Both results, or the first error of the two.
pub open spec fn both(a: Result<Ty, CompileError>, b: Result<Ty, CompileError>) -> Result<
    (Ty, Ty),
    CompileError,
> {
    match a {
        Err(e) => Err(e),
        Ok(x) => match b {
            Err(e) => Err(e),
            Ok(y) => Ok((x, y)),
        },
    }
}

/// How an instruction on a map or on a slot is lowered: as a call of the
/// function that the runtime has for the type. `None` for all other
/// instructions.
pub open spec fn typed_plan(inst: Instr) -> Option<Result<Plan, CompileError>> {
    match inst {
        Instr::Lookup { map_ty, dst, map, key } => Some(
            match both(map_ty.spec_key(), map_ty.spec_val()) {
                Err(e) => Err(e),
                Ok((k, v)) => match spec_lookup_name(map_ty) {
                    Err(e) => Err(e),
                    Ok(name) => Ok(
                        Plan {
                            act: Act::Call(Callee::Intrinsic(name)),
                            rt: false,
                            konst: None,
                            a: Some((map, map_ty)),
                            b: Some((key, k)),
                            c: None,
                            dst: Some((dst, v)),
                            redrop: false,
                        },
                    ),
                },
            },
        ),
        Instr::Contains { map_ty, dst, map, key } => Some(
            match map_ty.spec_key() {
                Err(e) => Err(e),
                Ok(k) => match spec_contains_name(map_ty) {
                    Err(e) => Err(e),
                    Ok(name) => Ok(
                        Plan {
                            act: Act::Call(Callee::Intrinsic(name)),
                            rt: false,
                            konst: None,
                            a: Some((map, map_ty)),
                            b: Some((key, k)),
                            c: None,
                            dst: Some((dst, Ty::Int)),
                            redrop: false,
                        },
                    ),
                },
            },
        ),
        Instr::Delete { map_ty, map, key } => Some(
            match map_ty.spec_key() {
                Err(e) => Err(e),
                Ok(k) => match spec_delete_name(map_ty) {
                    Err(e) => Err(e),
                    Ok(name) => Ok(
                        Plan {
                            act: Act::Call(Callee::Intrinsic(name)),
                            rt: false,
                            konst: None,
                            a: Some((map, map_ty)),
                            b: Some((key, k)),
                            c: None,
                            dst: None,
                            redrop: false,
                        },
                    ),
                },
            },
        ),
        Instr::Len { map_ty, map, dst } => Some(
            match spec_len_name(map_ty) {
                Err(e) => Err(e),
                Ok(name) => Ok(
                    Plan {
                        act: Act::Call(Callee::Intrinsic(name)),
                        rt: false,
                        konst: None,
                        a: Some((map, map_ty)),
                        b: None,
                        c: None,
                        dst: Some((dst, Ty::Int)),
                        redrop: false,
                    },
                ),
            },
        ),
        Instr::Store { map_ty, map, key, val } => Some(
            match both(map_ty.spec_key(), map_ty.spec_val()) {
                Err(e) => Err(e),
                Ok((k, v)) => match spec_insert_name(map_ty) {
                    Err(e) => Err(e),
                    Ok(name) => Ok(
                        Plan {
                            act: Act::Call(Callee::Intrinsic(name)),
                            rt: false,
                            konst: None,
                            a: Some((map, map_ty)),
                            b: Some((key, k)),
                            c: Some((val, v)),
                            dst: None,
                            redrop: false,
                        },
                    ),
                },
            },
        ),
        Instr::LoadSlot { ty, dst, slot } => Some(
            match spec_load_slot_name(ty) {
                Err(e) => Err(e),
                Ok(name) => Ok(
                    Plan {
                        act: Act::Call(Callee::Intrinsic(name)),
                        rt: true,
                        konst: Some(
                            Konst { ty: LlTy::I64, bits: slot as u64, sign_extend: false, last: false },
                        ),
                        a: None,
                        b: None,
                        c: None,
                        dst: Some((dst, ty)),
                        redrop: false,
                    },
                ),
            },
        ),
        Instr::StoreSlot { ty, src, slot } => Some(
            match spec_store_slot_name(ty) {
                Err(e) => Err(e),
                Ok(name) => Ok(
                    Plan {
                        act: Act::Call(Callee::Intrinsic(name)),
                        rt: true,
                        konst: Some(
                            Konst { ty: LlTy::I64, bits: slot as u64, sign_extend: false, last: false },
                        ),
                        a: Some((src, ty)),
                        b: None,
                        c: None,
                        dst: None,
                        redrop: false,
                    },
                ),
            },
        ),
        _ => None,
    }
}

/// The iterator of a register, which must have been begun.
pub open spec fn get_iter(s: FnState, iter: Reg) -> Result<super::ops::IterState, CompileError> {
    if s.iter_ptr.contains_key(iter) && s.iter_cur.contains_key(iter) && s.iter_len.contains_key(
        iter,
    ) {
        Ok(
            super::ops::IterState {
                iter_ptr: s.iter_ptr[iter],
                cur_index: s.iter_cur[iter],
                len: s.iter_len[iter],
            },
        )
    } else {
        Err(CompileError::UnboundIterator(iter.0, iter.1))
    }
}

/// Begins the iteration `dst` over the keys of the map `arr`: the keys
/// are listed and counted, and a slot holds the index of the next key.
pub open spec fn iter_begin(s: FnState, env: Env, dst: Reg, arr: Reg) -> Result<
    FnState,
    CompileError,
> {
    match get_local(s, env, arr) {
        Err(e) => Err(e),
        Ok((s1, arrv)) => match (spec_iter_name(arr.1), spec_len_name(arr.1)) {
            (Ok(begin_fn), Ok(len_fn)) => {
                let (s2, iter_ptr) = intrinsic(s1, begin_fn, seq![arrv]);
                let (s3, cur_index) = alloca(s2, Ty::Int);
                let (s4, len) = intrinsic(s3, len_fn, seq![arrv]);
                Ok(
                    FnState {
                        iter_ptr: s4.iter_ptr.insert(dst, iter_ptr),
                        iter_cur: s4.iter_cur.insert(dst, cur_index),
                        iter_len: s4.iter_len.insert(dst, len),
                        ..s4
                    },
                )
            },
            _ => Err(CompileError::NotAMap(arr.1)),
        },
    }
}

/// Whether the iteration `iter` has a key left: its index is below the
/// number of keys, both taken without sign.
pub open spec fn iter_hasnext(s: FnState, env: Env, iter: Reg, dst: Reg) -> Result<
    FnState,
    CompileError,
> {
    match get_iter(s, iter) {
        Err(e) => Err(e),
        Ok(istate) => {
            let cur = next(s);
            let s1 = emit(s, Op::Load { ptr: istate.cur_index, ty: LlTy::I64 });
            let (s2, hasnext) = compare_int(s1, Pred::ULT, cur, istate.len);
            Ok(bind_val(s2, env, dst, hasnext))
        },
    }
}

/// The next key of the iteration `iter`: the key at the index is loaded,
/// the index goes up by one, and the key, counted if it is a string, is
/// bound to `dst`.
pub open spec fn iter_getnext(s: FnState, env: Env, iter: Reg, dst: Reg) -> Result<
    FnState,
    CompileError,
> {
    match get_iter(s, iter) {
        Err(e) => Err(e),
        Ok(istate) => {
            let cur = next(s);
            let s1 = emit(s, Op::Load { ptr: istate.cur_index, ty: LlTy::I64 });
            let s2 = emit(s1, Op::Arg(cur));
            let res_loc = next(s2);
            let s3 = emit(
                s2,
                Op::Gep { ptr: istate.iter_ptr, ty: spec_base_ty(dst.1), indices: 1 },
            );
            let res = next(s3);
            let s4 = emit(s3, Op::Load { ptr: res_loc, ty: spec_base_ty(dst.1) });
            let (s5, one) = const_int(s4, LlTy::I64, 1, true);
            let next_ix = next(s5);
            let s6 = emit(s5, Op::Binary(BinOp::Add, cur, one));
            let s7 = emit(s6, Op::Store { val: next_ix, ptr: istate.cur_index });
            let s8 = if dst.1 is Str {
                intrinsic(s7, "ref_str", seq![res_loc]).0
            } else {
                s7
            };
            Ok(bind_val(s8, env, dst, res))
        },
    }
}

/// The values of the registers `regs`, in order.
pub open spec fn get_locals(s: FnState, env: Env, regs: Seq<Reg>) -> Result<
    (FnState, Seq<Value>),
    CompileError,
>
    decreases regs.len(),
{
    if regs.len() == 0 {
        Ok((s, Seq::empty()))
    } else {
        match get_locals(s, env, regs.drop_last()) {
            Err(e) => Err(e),
            Ok((s1, vs)) => match get_local(s1, env, regs.last()) {
                Err(e) => Err(e),
                Ok((s2, v)) => Ok((s2, vs.push(v))),
            },
        }
    }
}

/// The types of the registers `regs`.
pub open spec fn types_of(regs: Seq<Reg>) -> Seq<Ty> {
    Seq::new(regs.len(), |i: int| regs[i].1)
}

/// The index of the first of `printfs` that is `sig`.
pub open spec fn find_sig(printfs: Seq<Sig>, sig: Sig) -> Option<int>
    decreases printfs.len(),
{
    if printfs.len() == 0 {
        None
    } else {
        match find_sig(printfs.drop_last(), sig) {
            Some(i) => Some(i),
            None => if printfs.last() == sig {
                Some(printfs.len() - 1)
            } else {
                None
            },
        }
    }
}

/// The printf wrapper for a signature: the one that was made for it, or a
/// new one. There is one wrapper for each signature.
pub open spec fn wrapped_printf(s: FnState, sig: Sig) -> (FnState, int) {
    match find_sig(s.printfs, sig) {
        Some(i) => (s, i),
        None => (FnState { printfs: s.printfs.push(sig), ..s }, s.printfs.len() as int),
    }
}

/// A printf: a call of the wrapper for the types of `args` and for the
/// kind, with the runtime, the format, the arguments, and, for a file, its
/// name and whether to append. The result of the wrapper comes with the
/// state.
pub open spec fn printf(
    s: FnState,
    env: Env,
    kind: PrintfKind,
    fmt: NumTy,
    args: Seq<Reg>,
    output: Option<(NumTy, bool)>,
) -> Result<(FnState, Value), CompileError> {
    let (s1, f) = wrapped_printf(s, (types_of(args), kind));
    let (s2, rt) = runtime_val(s1, env);
    match get_local(s2, env, (fmt, Ty::Str)) {
        Err(e) => Err(e),
        Ok((s3, fmtv)) => match get_locals(s3, env, args) {
            Err(e) => Err(e),
            Ok((s4, vs)) => match output {
                Some((path, append)) => match get_local(s4, env, (path, Ty::Str)) {
                    Err(e) => Err(e),
                    Ok((s5, pathv)) => {
                        let (s6, appv) = const_int(s5, LlTy::I64, spec_flag(append), false);
                        Ok(
                            call(
                                s6,
                                Callee::Printf(f as usize),
                                seq![rt, fmtv] + vs + seq![pathv, appv],
                            ),
                        )
                    },
                },
                None => Ok(call(s4, Callee::Printf(f as usize), seq![rt, fmtv] + vs)),
            },
        },
    }
}

/// A move: a string is counted and loaded from its slot, and bound as a
/// new string; any other value is bound as it is.
pub open spec fn mov(s: FnState, env: Env, ty: Ty, dst: NumTy, src: NumTy) -> Result<
    FnState,
    CompileError,
> {
    match get_local(s, env, (src, ty)) {
        Err(e) => Err(e),
        Ok((s1, sv)) => if ty is Str {
            let s2 = intrinsic(s1, "ref_str", seq![sv]).0;
            let loaded = next(s2);
            let s3 = emit(s2, Op::Load { ptr: sv, ty: LlTy::I128 });
            Ok(bind_val(s3, env, (dst, Ty::Str), loaded))
        } else {
            Ok(bind_val(s1, env, (dst, ty), sv))
        },
    }
}

/// The error with which an instruction is refused before any code is
/// emitted for it: explicit stack traffic, the allocation of a map and the
/// control flow of the bytecode have no place here, and an operation on a
/// map or an iterator needs a type that has it.
pub open spec fn refusal(inst: Instr) -> Option<CompileError> {
    if spec_plan(inst) is Some {
        None
    } else if let Some(r) = typed_plan(inst) {
        match r {
            Ok(_) => None,
            Err(e) => Some(e),
        }
    } else {
        match inst {
            Instr::IterBegin { map_ty, .. } => match map_ty.spec_key_iter() {
                Ok(_) => None,
                Err(e) => Some(e),
            },
            Instr::IterGetNext { iter_ty, .. } => match iter_ty.spec_iter() {
                Ok(_) => None,
                Err(e) => Some(e),
            },
            Instr::Push(_, _) | Instr::Pop(_, _) => Some(CompileError::PushPop),
            Instr::AllocMap(_, _) => Some(CompileError::AllocMap),
            Instr::Ret | Instr::Halt | Instr::Jmp(_) | Instr::JmpIf(_, _) | Instr::Call(_) => Some(
                CompileError::BytecodeControlFlow,
            ),
            _ => None,
        }
    }
}

/// The code for a low-level instruction.
pub open spec fn gen_ll_inst(s: FnState, env: Env, inst: Instr) -> Result<FnState, CompileError> {
    if let Some(p) = spec_plan(inst) {
        run_plan(s, env, p)
    } else if let Some(r) = typed_plan(inst) {
        match r {
            Ok(p) => run_plan(s, env, p),
            Err(e) => Err(e),
        }
    } else {
        match inst {
            Instr::StoreConstStr(sr, repr) => {
                let v = next(s);
                Ok(bind_val(emit(s, Op::ConstStr { repr }), env, (sr, Ty::Str), v))
            },
            Instr::StoreConstInt(ir, i) => {
                let (s1, v) = const_int(s, LlTy::I64, i as u64, true);
                Ok(bind_val(s1, env, (ir, Ty::Int), v))
            },
            Instr::StoreConstFloat(fr, bits) => {
                let v = next(s);
                Ok(bind_val(emit(s, Op::ConstReal { bits }), env, (fr, Ty::Float), v))
            },
            Instr::Sprintf { dst, fmt, args } => match printf(
                s,
                env,
                PrintfKind::Sprintf,
                fmt,
                args@,
                None,
            ) {
                Err(e) => Err(e),
                Ok((s1, v)) => Ok(bind_val(s1, env, (dst, Ty::Str), v)),
            },
            Instr::Printf { output, fmt, args } => match printf(
                s,
                env,
                if output is Some {
                    PrintfKind::File
                } else {
                    PrintfKind::Stdout
                },
                fmt,
                args@,
                output,
            ) {
                Err(e) => Err(e),
                Ok((s1, _)) => Ok(s1),
            },
            Instr::Mov(ty, dst, src) => mov(s, env, ty, dst, src),
            Instr::IterBegin { map_ty, map, dst } => match map_ty.spec_key_iter() {
                Err(e) => Err(e),
                Ok(iter_ty) => iter_begin(s, env, (dst, iter_ty), (map, map_ty)),
            },
            Instr::IterHasNext { iter_ty, dst, iter } => iter_hasnext(
                s,
                env,
                (iter, iter_ty),
                (dst, Ty::Int),
            ),
            Instr::IterGetNext { iter_ty, dst, iter } => match iter_ty.spec_iter() {
                Err(e) => Err(e),
                Ok(ty) => iter_getnext(s, env, (iter, iter_ty), (dst, ty)),
            },
            Instr::Push(_, _) | Instr::Pop(_, _) => Err(CompileError::PushPop),
            Instr::AllocMap(_, _) => Err(CompileError::AllocMap),
            _ => Err(CompileError::BytecodeControlFlow),
        }
    }
}

/// Drops the values of the registers `regs`, in order, but for those that
/// are not to be dropped and those whose value is `keep`.
pub open spec fn drop_locals(s: FnState, regs: Seq<Reg>, keep: Value) -> FnState
    decreases regs.len(),
{
    if regs.len() == 0 {
        s
    } else {
        let s1 = drop_locals(s, regs.drop_last(), keep);
        let r = regs.last();
        if s.skip_drop.contains(r) || !s.locals.contains_key(r) || s.locals[r] == keep {
            s1
        } else {
            drop_val(s1, s.locals[r], r.1)
        }
    }
}

/// A return of the value `to_return` of type `ty`: every local is dropped
/// but those that are not to be dropped and the one that is returned; a
/// string is loaded from its slot, and the value is returned.
pub open spec fn ret_val(s: FnState, to_return: Value, ty: Ty) -> FnState {
    let s1 = drop_locals(s, s.order, to_return);
    if ty is Str {
        let loaded = next(s1);
        emit(emit(s1, Op::Load { ptr: to_return, ty: LlTy::I128 }), Op::Ret(loaded))
    } else {
        emit(s1, Op::Ret(to_return))
    }
}

/// The parameters of the function under construction through which the
/// globals `globals` of a callee come, in order.
pub open spec fn pass_globals(s: FnState, env: Env, globals: Seq<Reg>) -> (FnState, Seq<Value>)
    decreases globals.len(),
{
    if globals.len() == 0 {
        (s, Seq::empty())
    } else {
        let (s1, vs) = pass_globals(s, env, globals.drop_last());
        (emit(s1, Op::Param(env.me().globals[globals.last()])), vs.push(next(s1)))
    }
}

/// The values of the arguments `args` of a call, in order.
pub open spec fn get_params(s: FnState, env: Env, args: Seq<Reg>) -> Result<
    (FnState, Seq<Value>),
    CompileError,
>
    decreases args.len(),
{
    if args.len() == 0 {
        Ok((s, Seq::empty()))
    } else {
        match get_params(s, env, args.drop_last()) {
            Err(e) => Err(e),
            Ok((s1, vs)) => match get_param(s1, env, args.last()) {
                Err(e) => Err(e),
                Ok((s2, v)) => Ok((s2, vs.push(v))),
            },
        }
    }
}

/// Whether every global of the function `callee` is a global of the
/// function under construction, as a call of it needs.
pub open spec fn can_call(env: Env, callee: int) -> bool {
    &&& 0 <= callee < env.decls.len()
    &&& forall|i: int|
        0 <= i < env.decls[callee].global_order.len() ==> env.is_global(
            #[trigger] env.decls[callee].global_order[i],
        )
}

/// The code for a high-level instruction. A return emits nothing here: it
/// is lowered once all blocks are laid out, and so is the wiring of a
/// phi.
pub open spec fn gen_hl_inst(s: FnState, env: Env, inst: HighLevel) -> Result<
    FnState,
    CompileError,
> {
    match inst {
        HighLevel::Call { func_id, dst_reg, dst_ty, args } => match get_params(s, env, args@) {
            Err(e) => Err(e),
            Ok((s1, vs)) => {
                let (s2, gs) = pass_globals(s1, env, env.decls[func_id as int].global_order);
                let (s3, rt) = runtime_val(s2, env);
                let (s4, resv) = call(s3, Callee::Udf(func_id as usize), vs + gs + seq![rt]);
                Ok(bind_val(s4, env, (dst_reg, dst_ty), resv))
            },
        },
        HighLevel::Phi(reg, ty, _) => {
            let res = next(s);
            let s1 = emit(
                s,
                Op::Phi(
                    if ty is Str {
                        LlTy::Ptr(ty)
                    } else {
                        spec_base_ty(ty)
                    },
                ),
            );
            Ok(
                FnState {
                    skip_drop: s1.skip_drop.insert((reg, ty)),
                    ..insert_local(s1, (reg, ty), res)
                },
            )
        },
        HighLevel::Ret(_, _) => Ok(s),
        HighLevel::DropIter(reg, ty) => match spec_drop_iter_name(ty) {
            Err(e) => Err(e),
            Ok(name) => match get_iter(s, (reg, ty)) {
                Err(e) => Err(e),
                Ok(istate) => Ok(intrinsic(s, name, seq![istate.iter_ptr, istate.len]).0),
            },
        },
    }
}

/// An error in loading the first `n` registers is the error of loading
/// them all.
pub proof fn lemma_get_locals_err(s: FnState, env: Env, regs: Seq<Reg>, n: int)
    requires
        0 <= n <= regs.len(),
        get_locals(s, env, regs.take(n)) is Err,
    ensures
        get_locals(s, env, regs) == get_locals(s, env, regs.take(n)),
    decreases regs.len() - n,
{
    if n < regs.len() {
        assert(regs.take(n + 1).drop_last() =~= regs.take(n));
        lemma_get_locals_err(s, env, regs, n + 1);
    } else {
        assert(regs.take(n) =~= regs);
    }
}

/// An error in loading the first `n` arguments is the error of loading
/// them all.
pub proof fn lemma_get_params_err(s: FnState, env: Env, regs: Seq<Reg>, n: int)
    requires
        0 <= n <= regs.len(),
        get_params(s, env, regs.take(n)) is Err,
    ensures
        get_params(s, env, regs) == get_params(s, env, regs.take(n)),
    decreases regs.len() - n,
{
    if n < regs.len() {
        assert(regs.take(n + 1).drop_last() =~= regs.take(n));
        lemma_get_params_err(s, env, regs, n + 1);
    } else {
        assert(regs.take(n) =~= regs);
    }
}

/// Whether two states differ in their steps at most.
pub open spec fn same_tables(a: FnState, b: FnState) -> bool {
    a == (FnState { steps: a.steps, ..b })
}

/// Operands change nothing but the steps.
pub proof fn lemma_push_args_tables(s: FnState, args: Seq<Value>)
    ensures
        same_tables(push_args(s, args), s),
    decreases args.len(),
{
    if args.len() > 0 {
        lemma_push_args_tables(s, args.drop_last());
    }
}

/// Dropping a value changes nothing but the steps.
pub proof fn lemma_drop_val_tables(s: FnState, val: Value, ty: Ty)
    ensures
        same_tables(drop_val(s, val, ty), s),
{
    lemma_push_args_tables(s, seq![val]);
}

/// Dropping locals changes nothing but the steps.
pub proof fn lemma_drop_locals_tables(s: FnState, regs: Seq<Reg>, keep: Value)
    ensures
        same_tables(drop_locals(s, regs, keep), s),
    decreases regs.len(),
{
    if regs.len() > 0 {
        lemma_drop_locals_tables(s, regs.drop_last(), keep);
        let s1 = drop_locals(s, regs.drop_last(), keep);
        lemma_drop_val_tables(s1, s.locals[regs.last()], regs.last().1);
    }
}

/// The state at the start of a function: nothing emitted, nothing bound,
/// and instructions going to the first block of the body.
pub open spec fn start(printfs: Seq<Sig>) -> FnState {
    FnState {
        steps: Seq::empty(),
        block: Block::Body(0),
        locals: Map::empty(),
        order: Seq::empty(),
        skip_drop: Set::empty(),
        iter_ptr: Map::empty(),
        iter_cur: Map::empty(),
        iter_len: Map::empty(),
        printfs,
    }
}

/// Gives each of `regs`, the registers that are live on entry, its
/// default value.
pub open spec fn init_locals(s: FnState, regs: Seq<Reg>) -> Result<FnState, CompileError>
    decreases regs.len(),
{
    if regs.len() == 0 {
        Ok(s)
    } else {
        match alloc_local(s, regs[0].1) {
            Err(e) => Err(e),
            Ok((s1, v)) => init_locals(insert_local(s1, regs[0], v), regs.drop_first()),
        }
    }
}

/// Binds the arguments `args` to the parameters from `at` on. The caller
/// keeps the references of its arguments, so a return does not drop them.
pub open spec fn bind_args(s: FnState, args: Seq<Reg>, at: nat) -> FnState
    decreases args.len(),
{
    if args.len() == 0 {
        s
    } else {
        let v = next(s);
        let s1 = insert_local(emit(s, Op::Param(at as u64)), args[0], v);
        bind_args(
            FnState { skip_drop: s1.skip_drop.insert(args[0]), ..s1 },
            args.drop_first(),
            at + 1,
        )
    }
}

/// The code for the instructions of a block, in order.
pub open spec fn gen_block(s: FnState, env: Env, nodes: Seq<Node>) -> Result<FnState, CompileError>
    decreases nodes.len(),
{
    if nodes.len() == 0 {
        Ok(s)
    } else {
        match match nodes[0] {
            Node::Low(ll) => gen_ll_inst(s, env, ll),
            Node::High(hl) => gen_hl_inst(s, env, hl),
        } {
            Err(e) => Err(e),
            Ok(s1) => gen_block(s1, env, nodes.drop_first()),
        }
    }
}

/// The first edge of `edges` that leaves `from` on a condition: its
/// register and where it goes.
pub open spec fn cond_edge(edges: Seq<Edge>, from: int) -> Option<(NumTy, usize)>
    decreases edges.len(),
{
    if edges.len() == 0 {
        None
    } else {
        match edges[0].cond {
            Some(reg) if edges[0].from == from => Some((reg, edges[0].to as usize)),
            _ => cond_edge(edges.drop_first(), from),
        }
    }
}

/// Where the first edge of `edges` goes that leaves `from` without
/// condition.
pub open spec fn plain_edge(edges: Seq<Edge>, from: int) -> Option<usize>
    decreases edges.len(),
{
    if edges.len() == 0 {
        None
    } else if edges[0].cond is None && edges[0].from == from {
        Some(edges[0].to as usize)
    } else {
        plain_edge(edges.drop_first(), from)
    }
}

/// The code of the block `i`: its instructions at the end of its own
/// block, then its branch. A block without an unconditional edge gets no
/// branch: it ends in a return.
pub open spec fn gen_node(s: FnState, env: Env, frame: Frame, i: int) -> Result<
    FnState,
    CompileError,
> {
    match gen_block(FnState { block: Block::Body(i as usize), ..s }, env, frame.blocks@[i]@) {
        Err(e) => Err(e),
        Ok(s1) => match plain_edge(frame.edges@, i) {
            Some(ecase) => branch(s1, env, cond_edge(frame.edges@, i), ecase),
            None => Ok(s1),
        },
    }
}

/// The code of the blocks `order`, in that order.
pub open spec fn gen_nodes(s: FnState, env: Env, frame: Frame, order: Seq<usize>) -> Result<
    FnState,
    CompileError,
>
    decreases order.len(),
{
    if order.len() == 0 {
        Ok(s)
    } else {
        match gen_node(s, env, frame, order[0] as int) {
            Err(e) => Err(e),
            Ok(s1) => gen_nodes(s1, env, frame, order.drop_first()),
        }
    }
}

/// The return of the register `var`, at the end of the current block. A
/// register that nothing has bound is given the default value of its
/// type.
pub open spec fn gen_ret(s: FnState, env: Env, var: Reg) -> Result<FnState, CompileError> {
    if has_var(s, env, var) {
        match get_local(s, env, var) {
            Err(e) => Err(e),
            Ok((s1, v)) => Ok(ret_val(s1, v, var.1)),
        }
    } else {
        match alloc_local(s, var.1) {
            Err(e) => Err(e),
            Ok((s1, v)) => Ok(ret_val(s1, v, var.1)),
        }
    }
}

/// The returns among the instructions `nodes` of the block `i`.
pub open spec fn gen_rets(s: FnState, env: Env, nodes: Seq<Node>, i: int) -> Result<
    FnState,
    CompileError,
>
    decreases nodes.len(),
{
    if nodes.len() == 0 {
        Ok(s)
    } else {
        match nodes[0] {
            Node::High(HighLevel::Ret(reg, ty)) => match gen_ret(
                FnState { block: Block::Body(i as usize), ..s },
                env,
                (reg, ty),
            ) {
                Err(e) => Err(e),
                Ok(s1) => gen_rets(s1, env, nodes.drop_first(), i),
            },
            _ => gen_rets(s, env, nodes.drop_first(), i),
        }
    }
}

/// The returns of the blocks `order`. They are lowered after all blocks,
/// as a return drops every local that the function has bound.
pub open spec fn gen_exits(s: FnState, env: Env, frame: Frame, order: Seq<usize>) -> Result<
    FnState,
    CompileError,
>
    decreases order.len(),
{
    if order.len() == 0 {
        Ok(s)
    } else {
        match gen_rets(s, env, frame.blocks@[order[0] as int]@, order[0] as int) {
            Err(e) => Err(e),
            Ok(s1) => gen_exits(s1, env, frame, order.drop_first()),
        }
    }
}

/// The incoming values `preds` of a phi of type `ty`, each a block and a
/// register.
pub open spec fn incoming(s: FnState, env: Env, ty: Ty, preds: Seq<(usize, NumTy)>) -> Result<
    FnState,
    CompileError,
>
    decreases preds.len(),
{
    if preds.len() == 0 {
        Ok(s)
    } else {
        match get_local(s, env, (preds[0].1, ty)) {
            Err(e) => Err(e),
            Ok((s1, v)) => incoming(
                emit(s1, Op::Incoming { value: v, block: preds[0].0 }),
                env,
                ty,
                preds.drop_first(),
            ),
        }
    }
}

/// The wiring of the phis among the instructions `nodes`: each phi gets
/// the values of its registers, with the blocks that they come from.
pub open spec fn wire_block(s: FnState, env: Env, nodes: Seq<Node>) -> Result<FnState, CompileError>
    decreases nodes.len(),
{
    if nodes.len() == 0 {
        Ok(s)
    } else {
        match nodes[0] {
            Node::High(HighLevel::Phi(reg, ty, preds)) => match get_local(s, env, (reg, ty)) {
                Err(e) => Err(e),
                Ok((s1, phi)) => match incoming(s1, env, ty, preds@) {
                    Err(e) => Err(e),
                    Ok(s2) => wire_block(
                        emit(s2, Op::AddIncoming { phi, count: preds@.len() as usize }),
                        env,
                        nodes.drop_first(),
                    ),
                },
            },
            _ => wire_block(s, env, nodes.drop_first()),
        }
    }
}

/// The wiring of the phis of the blocks `order`. Phis are wired after all
/// blocks, when every register has its value.
pub open spec fn wire_phis(s: FnState, env: Env, frame: Frame, order: Seq<usize>) -> Result<
    FnState,
    CompileError,
>
    decreases order.len(),
{
    if order.len() == 0 {
        Ok(s)
    } else {
        match wire_block(s, env, frame.blocks@[order[0] as int]@) {
            Err(e) => Err(e),
            Ok(s1) => wire_phis(s1, env, frame, order.drop_first()),
        }
    }
}

/// The code of the function `frame`, whose blocks are lowered in the
/// order `order`.
///
/// The registers that are live on entry get their default values, and the
/// arguments are bound to the parameters. The blocks follow. Then come the
/// returns and the wiring of the phis, and at last the jump from the entry
/// block to the first block of the body.
pub open spec fn gen_function(
    env: Env,
    frame: Frame,
    order: Seq<usize>,
    printfs: Seq<Sig>,
) -> Result<FnState, CompileError> {
    match init_locals(start(printfs), frame.locals@) {
        Err(e) => Err(e),
        Ok(s1) => match gen_nodes(bind_args(s1, frame.args@, 0), env, frame, order) {
            Err(e) => Err(e),
            Ok(s2) => match gen_exits(s2, env, frame, order) {
                Err(e) => Err(e),
                Ok(s3) => match wire_phis(s3, env, frame, order) {
                    Err(e) => Err(e),
                    Ok(s4) => Ok(emit_entry(s4, Op::Br(0))),
                },
            },
        },
    }
}

/// Whether the instructions `nodes` call only functions that the function
/// under construction can call.
pub open spec fn calls_fit(env: Env, nodes: Seq<Node>) -> bool {
    forall|j: int|
        0 <= j < nodes.len() ==> (#[trigger] nodes[j] matches Node::High(
            HighLevel::Call { func_id, .. },
        ) ==> can_call(env, func_id as int))
}

/// Whether the function `frame` can be lowered in the order `order`: the
/// order names blocks of the function, and every call in them is of a
/// function whose globals the function has.
pub open spec fn frame_fits(env: Env, frame: Frame, order: Seq<usize>) -> bool {
    forall|k: int|
        0 <= k < order.len() ==> (#[trigger] order[k]) < frame.blocks@.len() && calls_fit(
            env,
            frame.blocks@[order[k] as int]@,
        )
}

/// The types of the parameters of a printf wrapper: the runtime, the
/// format, the arguments, strings by pointer, and, for a file, its name
/// and whether to append.
pub open spec fn wrapper_params(sig: Sig) -> Seq<LlTy> {
    seq![LlTy::VoidPtr, LlTy::Ptr(Ty::Str)] + Seq::new(
        sig.0.len(),
        |i: int| super::ops::spec_llvm_ty(sig.0[i]),
    ) + (if sig.1 is File {
        seq![LlTy::Ptr(Ty::Str), LlTy::I64]
    } else {
        Seq::empty()
    })
}

/// The type of the result of a printf wrapper: a string for a sprintf,
/// nothing for the others.
pub open spec fn wrapper_ret(sig: Sig) -> LlTy {
    if sig.1 is Sprintf {
        LlTy::I128
    } else {
        LlTy::Void
    }
}

/// The element `index` of the array `array` of type `ty`; `zero` is the
/// constant 0.
pub open spec fn element(s: FnState, array: Value, ty: LlTy, zero: Value, index: Value) -> (
    FnState,
    Value,
) {
    let s1 = emit(emit(s, Op::Arg(zero)), Op::Arg(index));
    (emit(s1, Op::Gep { ptr: array, ty, indices: 2 }), next(s1))
}

/// The arguments `tys` of a printf wrapper, from the argument `at` on: of
/// each, the tag of its type goes into the array of types, and its value,
/// as wide as a pointer, into the array of values.
pub open spec fn wrapper_args(
    s: FnState,
    tys: Seq<Ty>,
    at: nat,
    n: usize,
    types_array: Value,
    args_array: Value,
    zero: Value,
) -> FnState
    decreases tys.len(),
{
    if tys.len() == 0 {
        s
    } else {
        let (s1, index) = const_int(s, LlTy::I32, at as u64, false);
        let (s2, ty_ptr) = element(s1, types_array, LlTy::ArrayI32(n), zero, index);
        let (s3, tval) = const_int(s2, LlTy::I32, tys[0].spec_tag() as u64, false);
        let s4 = emit(s3, Op::Store { val: tval, ptr: ty_ptr });
        let (s5, arg_ptr) = element(s4, args_array, LlTy::ArrayUsize(n), zero, index);
        let argval = next(s5);
        let s6 = emit(s5, Op::Param((at + 2) as u64));
        let cast_val = next(s6);
        let s7 = emit(
            s6,
            if tys[0] is Str {
                Op::PtrToInt(argval, LlTy::Usize)
            } else {
                Op::BitCast(argval, LlTy::Usize)
            },
        );
        let s8 = emit(s7, Op::Store { val: cast_val, ptr: arg_ptr });
        wrapper_args(s8, tys.drop_first(), at + 1, n, types_array, args_array, zero)
    }
}

/// The body of the printf wrapper for a signature: two arrays on the
/// stack take the tags of the types and the values of the arguments, and
/// the function of the runtime for the kind is called with the runtime,
/// the format, the two arrays and their length, and, for a file, its name
/// and whether to append.
pub open spec fn wrapper(sig: Sig) -> FnState {
    let n = sig.0.len();
    let s0 = start(Seq::empty());
    let types_array = next(s0);
    let s1 = emit(s0, Op::Alloca(LlTy::ArrayI32(n as usize)));
    let args_array = next(s1);
    let s2 = emit(s1, Op::Alloca(LlTy::ArrayUsize(n as usize)));
    let (s3, zero) = const_int(s2, LlTy::I32, 0, false);
    let s4 = wrapper_args(s3, sig.0, 0, n as usize, types_array, args_array, zero);
    let (s5, args_ptr) = element(s4, args_array, LlTy::ArrayUsize(n as usize), zero, zero);
    let (s6, tys_ptr) = element(s5, types_array, LlTy::ArrayI32(n as usize), zero, zero);
    let (s7, len_v) = const_int(s6, LlTy::I64, n as u64, false);
    let rt = next(s7);
    let s8 = emit(s7, Op::Param(0));
    let spec = next(s8);
    let s9 = emit(s8, Op::Param(1));
    let five = seq![rt, spec, args_ptr, tys_ptr, len_v];
    match sig.1 {
        PrintfKind::File => {
            let output = next(s9);
            let s10 = emit(s9, Op::Param((n + 2) as u64));
            let append = next(s10);
            let s11 = emit(s10, Op::Param((n + 3) as u64));
            let s12 = intrinsic(s11, "printf_impl_file", five + seq![output, append]).0;
            emit(s12, Op::RetVoid)
        },
        PrintfKind::Stdout => emit(intrinsic(s9, "printf_impl_stdout", five).0, Op::RetVoid),
        PrintfKind::Sprintf => {
            let (s10, resv) = intrinsic(s9, "sprintf_impl", five);
            emit(s10, Op::Ret(resv))
        },
    }
}

/// What is known of the function `frame` before code is generated: its
/// globals come through the parameters behind its arguments, in their
/// order, and the runtime comes last.
pub open spec fn decl_of(frame: Frame) -> Decl {
    Decl {
        called: frame.is_called,
        globals: global_params(frame.globals@, frame.args@.len()),
        global_order: frame.globals@,
        num_args: frame.args@.len() + frame.globals@.len() + 1,
    }
}

/// The parameters of the globals `globals`, of which the first comes
/// through the parameter `at`.
pub open spec fn global_params(globals: Seq<Reg>, at: nat) -> Map<Reg, Value>
    decreases globals.len(),
{
    if globals.len() == 0 {
        Map::empty()
    } else {
        global_params(globals.drop_last(), at).insert(
            globals.last(),
            (at + globals.len() - 1) as u64,
        )
    }
}

/// The types of the parameters of the function `frame`: the arguments,
/// strings by pointer; a pointer for each global; the runtime.
pub open spec fn frame_params(frame: Frame) -> Seq<LlTy> {
    Seq::new(frame.args@.len(), |i: int| super::ops::spec_llvm_ty(frame.args@[i].1)) + Seq::new(
        frame.globals@.len(),
        |i: int| LlTy::Ptr(frame.globals@[i].1),
    ) + seq![LlTy::VoidPtr]
}

/// The globals `globals` of a main function, each with a default value
/// behind a pointer; the pointers come with the state.
pub open spec fn main_globals(s: FnState, globals: Seq<Reg>, sofar: Seq<Value>) -> Result<
    (FnState, Seq<Value>),
    CompileError,
>
    decreases globals.len(),
{
    if globals.len() == 0 {
        Ok((s, sofar))
    } else {
        match alloc_local(s, globals[0].1) {
            Err(e) => Err(e),
            Ok((s1, local)) => if globals[0].1 is Str {
                // A string is behind a pointer from the start.
                main_globals(s1, globals.drop_first(), sofar.push(local))
            } else {
                let loc = next(s1);
                let s2 = emit(s1, Op::Alloca(super::ops::spec_llvm_ty(globals[0].1)));
                let s3 = emit(s2, Op::Store { val: local, ptr: loc });
                main_globals(s3, globals.drop_first(), sofar.push(loc))
            },
        }
    }
}

/// The body of an entry point of the program, which takes the runtime and
/// runs the function `main`, whose globals are `globals`: each global gets
/// its default value, and the function is called with pointers to them
/// and with the runtime.
pub open spec fn main_function(main: int, globals: Seq<Reg>) -> Result<FnState, CompileError> {
    match main_globals(start(Seq::empty()), globals, Seq::empty()) {
        Err(e) => Err(e),
        Ok((s1, ptrs)) => {
            let rt = next(s1);
            let s2 = emit(s1, Op::Param(0));
            let s3 = call(s2, Callee::Udf(main as usize), ptrs.push(rt)).0;
            Ok(emit(s3, Op::RetVoid))
        },
    }
}

/// The order in which the blocks of the function `frame` are lowered: that
/// of a depth-first search from the first block. Any reference to a
/// register is dominated by its definition, so this order comes to the
/// definition of every local before it comes to a use.
pub open spec fn block_order(frame: Frame) -> Seq<usize> {
    if frame.edges@.len() == 0 {
        seq![0usize]
    } else {
        dfs_preorder(frame.edges@)
    }
}

/// The function generated for the function `id` of the program, which is
/// `frame`, with the steps `steps`. It is private to the module, as it is
/// only called from the entry points.
pub open spec fn udf_code(id: int, frame: Frame, steps: Seq<Step>) -> Code {
    Code {
        name: FuncName::Udf(id as usize),
        params: frame_params(frame),
        ret: spec_base_ty(frame.ret_ty),
        private: true,
        has_entry: true,
        blocks: frame.blocks@.len(),
        steps,
    }
}

/// The declarations of the functions `frames`.
pub open spec fn decls_of(frames: Seq<Frame>) -> Seq<Decl> {
    Seq::new(frames.len(), |i: int| decl_of(frames[i]))
}

/// The code of the function `id` of `frames`, and the printf wrappers
/// after it. A function that nothing calls has no code.
pub open spec fn gen_frame(frames: Seq<Frame>, id: int, printfs: Seq<Sig>) -> Result<
    (Option<Code>, Seq<Sig>),
    CompileError,
> {
    if !frames[id].is_called {
        Ok((None, printfs))
    } else {
        match gen_function(
            Env { decls: decls_of(frames), id },
            frames[id],
            block_order(frames[id]),
            printfs,
        ) {
            Err(e) => Err(e),
            Ok(s) => Ok((Some(udf_code(id, frames[id], s.steps)), s.printfs)),
        }
    }
}

/// The code of the functions of `frames` from `from` on, behind the code
/// `sofar` of those before, and the printf wrappers after them all.
pub open spec fn gen_frames(
    frames: Seq<Frame>,
    from: int,
    sofar: Seq<Option<Code>>,
    printfs: Seq<Sig>,
) -> Result<(Seq<Option<Code>>, Seq<Sig>), CompileError>
    decreases frames.len() - from,
{
    if from < 0 || from >= frames.len() {
        Ok((sofar, printfs))
    } else {
        match gen_frame(frames, from, printfs) {
            Err(e) => Err(e),
            Ok((code, next)) => gen_frames(frames, from + 1, sofar.push(code), next),
        }
    }
}

/// Whether code can be generated for the function `id` of `frames`: its
/// parameters and its edges can be counted, it has a first block, its
/// edges join blocks that it has, and it calls only functions of the
/// program whose globals are among its own.
pub open spec fn frame_ok(frames: Seq<Frame>, id: int) -> bool {
    let frame = frames[id];
    &&& frame.args@.len() + frame.globals@.len() < usize::MAX
    &&& frame.is_called ==> {
        &&& frame.blocks@.len() > 0
        &&& frame.edges@.len() < u32::MAX
        &&& forall|j: int|
            0 <= j < frame.edges@.len() ==> (#[trigger] frame.edges@[j]).from
                < frame.blocks@.len() && frame.edges@[j].to < frame.blocks@.len()
                && frame.edges@[j].from < u32::MAX && frame.edges@[j].to < u32::MAX
        &&& forall|b: int|
            0 <= b < frame.blocks@.len() ==> calls_fit(
                Env { decls: decls_of(frames), id },
                #[trigger] frame.blocks@[b]@,
            )
    }
}

/// Whether code can be generated for the program `frames`.
pub open spec fn program_ok(frames: Seq<Frame>) -> bool {
    forall|id: int| 0 <= id < frames.len() ==> frame_ok(frames, id)
}

/// An entry point of the program: it takes the runtime and returns
/// nothing, and can be found from outside the module.
pub open spec fn main_code(name: FuncName, steps: Seq<Step>) -> Code {
    Code {
        name,
        params: seq![LlTy::VoidPtr],
        ret: LlTy::Void,
        private: false,
        has_entry: false,
        blocks: 1,
        steps,
    }
}

/// The entry point `name` that runs the function `main` of `frames`.
pub open spec fn gen_main_function(frames: Seq<Frame>, main: int, name: FuncName) -> Result<
    Code,
    CompileError,
> {
    match main_function(main, frames[main].globals@) {
        Err(e) => Err(e),
        Ok(s) => Ok(main_code(name, s.steps)),
    }
}

/// The entry point `name` for the function `main`, if there is one.
pub open spec fn gen_main_option(frames: Seq<Frame>, main: Option<usize>, name: FuncName) -> Result<
    Option<Code>,
    CompileError,
> {
    match main {
        None => Ok(None),
        Some(off) => match gen_main_function(frames, off as int, name) {
            Err(e) => Err(e),
            Ok(c) => Ok(Some(c)),
        },
    }
}

/// The entry points of the program: one for a serial run, or one for each
/// phase of a parallel run that the program has.
pub open spec fn gen_main(frames: Seq<Frame>, stage: Stage<usize>) -> Result<
    Stage<Code>,
    CompileError,
> {
    match stage {
        Stage::Main(main) => match gen_main_function(frames, main as int, FuncName::Main) {
            Err(e) => Err(e),
            Ok(c) => Ok(Stage::Main(c)),
        },
        Stage::Par { begin, main_loop, end } => match gen_main_option(
            frames,
            begin,
            FuncName::Begin,
        ) {
            Err(e) => Err(e),
            Ok(b) => match gen_main_option(frames, main_loop, FuncName::MainLoop) {
                Err(e) => Err(e),
                Ok(m) => match gen_main_option(frames, end, FuncName::EndLoop) {
                    Err(e) => Err(e),
                    Ok(e) => Ok(Stage::Par { begin: b, main_loop: m, end: e }),
                },
            },
        },
    }
}

/// Whether the entry points of `stage` are functions of a program of `n`
/// functions.
pub open spec fn stage_ok(stage: Stage<usize>, n: nat) -> bool {
    match stage {
        Stage::Main(main) => main < n,
        Stage::Par { begin, main_loop, end } => (begin matches Some(off) ==> off < n) && (
        main_loop matches Some(off) ==> off < n) && (end matches Some(off) ==> off < n),
    }
}

/// How much the inliner may inline at an optimization level: nothing at
/// level 0, and more with each level up to 3. There are no other levels.
pub open spec fn inline_threshold(opt_level: usize) -> Result<Option<u32>, CompileError> {
    if opt_level == 0 {
        Ok(None)
    } else if opt_level == 1 {
        Ok(Some(50u32))
    } else if opt_level == 2 {
        Ok(Some(100u32))
    } else if opt_level == 3 {
        Ok(Some(250u32))
    } else {
        Err(CompileError::OptLevel(opt_level))
    }
}

/// The names of the functions among the first `n` of `codes` that have
/// code.
pub open spec fn generated(codes: Seq<Option<Code>>, n: int) -> Seq<FuncName>
    decreases n,
{
    if n <= 0 {
        Seq::empty()
    } else if codes[n - 1] is Some {
        generated(codes, n - 1).push(FuncName::Udf((n - 1) as usize))
    } else {
        generated(codes, n - 1)
    }
}

/// The names of the first `n` printf wrappers.
pub open spec fn wrapper_names(n: nat) -> Seq<FuncName> {
    Seq::new(n, |i: int| FuncName::Printf(i as usize))
}

/// The names of the entry points `stage`.
pub open spec fn stage_names<T>(stage: Stage<T>) -> Seq<FuncName> {
    match stage {
        Stage::Main(_) => seq![FuncName::Main],
        Stage::Par { begin, main_loop, end } => (if begin is Some {
            seq![FuncName::Begin]
        } else {
            Seq::empty()
        }) + (if main_loop is Some {
            seq![FuncName::MainLoop]
        } else {
            Seq::empty()
        }) + (if end is Some {
            seq![FuncName::EndLoop]
        } else {
            Seq::empty()
        }),
    }
}

/// How a program is run.
pub enum Run {
    /// The entry points run one after the other, on one thread.
    Serial(Seq<FuncName>),
    /// The first phase runs if the program has one (`begin`); then the
    /// main loop runs once on each of `workers` threads, numbered from 2,
    /// and once on the main thread, numbered 1; their results are combined
    /// as they arrive; then the last phase runs if the program has one
    /// (`end`).
    Parallel { begin: bool, workers: nat, end: bool },
}

/// The number under which worker `i` of a parallel run runs the main
/// loop: the main thread has the number 1 there, and the workers are
/// numbered from 2 in the order of their parts of the input.
pub open spec fn worker_pid(i: nat) -> int {
    i as int + 2
}

/// How the entry points `stage` are run with `num_workers` workers, where
/// the input was split into `shards` parts for the workers besides the
/// main thread. A run is parallel only if it has a main loop, more than
/// one worker, and a part of the input for a second thread.
pub open spec fn run_of<T>(stage: Stage<T>, num_workers: usize, shards: usize) -> Run {
    match stage {
        Stage::Main(_) => Run::Serial(seq![FuncName::Main]),
        Stage::Par { begin, main_loop, end } => if num_workers <= 1 || shards == 0
            || main_loop is None {
            Run::Serial(stage_names(stage))
        } else {
            Run::Parallel { begin: begin is Some, workers: shards as nat, end: end is Some }
        },
    }
}

/// The functions among the first `n` of `codes` that have code.
pub open spec fn present(codes: Seq<Option<Code>>, n: int) -> Seq<Code>
    decreases n,
{
    if n <= 0 {
        Seq::empty()
    } else {
        match codes[n - 1] {
            Some(c) => present(codes, n - 1).push(c),
            None => present(codes, n - 1),
        }
    }
}

/// The printf wrappers for the signatures `sigs`.
pub open spec fn wrappers(sigs: Seq<Sig>) -> Seq<Code> {
    Seq::new(
        sigs.len(),
        |i: int|
            Code {
                name: FuncName::Printf(i as usize),
                params: wrapper_params(sigs[i]),
                ret: wrapper_ret(sigs[i]),
                private: true,
                has_entry: false,
                blocks: 1,
                steps: wrapper(sigs[i]).steps,
            },
    )
}

/// The entry points `stage`, in order.
pub open spec fn stage_codes(stage: Stage<Code>) -> Seq<Code> {
    match stage {
        Stage::Main(c) => seq![c],
        Stage::Par { begin, main_loop, end } => (match begin {
            Some(c) => seq![c],
            None => Seq::empty(),
        }) + (match main_loop {
            Some(c) => seq![c],
            None => Seq::empty(),
        }) + (match end {
            Some(c) => seq![c],
            None => Seq::empty(),
        }),
    }
}

/// A signature is found where it is the last to have been added, unless it
/// was there before.
pub proof fn lemma_find_sig_push(printfs: Seq<Sig>, sig: Sig)
    ensures
        find_sig(printfs.push(sig), sig) == match find_sig(printfs, sig) {
            Some(i) => Some(i),
            None => Some(printfs.len() as int),
        },
{
    assert(printfs.push(sig).drop_last() =~= printfs);
}

/// There is one printf wrapper for each signature: a second printf with
/// the types and the kind of a first is lowered to the wrapper of the
/// first, and makes no wrapper.
pub proof fn lemma_one_wrapper_per_signature(s: FnState, sig: Sig)
    ensures
        wrapped_printf(wrapped_printf(s, sig).0, sig) == wrapped_printf(s, sig),
        wrapped_printf(s, sig).0.printfs.len() <= s.printfs.len() + 1,
        0 <= wrapped_printf(s, sig).1 < wrapped_printf(s, sig).0.printfs.len(),
        wrapped_printf(s, sig).0.printfs[wrapped_printf(s, sig).1] == sig,
{
    lemma_find_sig_push(s.printfs, sig);
    lemma_find_sig_found(s.printfs, sig);
}

/// A signature that is found is the one at the index.
pub proof fn lemma_find_sig_found(printfs: Seq<Sig>, sig: Sig)
    ensures
        find_sig(printfs, sig) matches Some(i) ==> 0 <= i < printfs.len() && printfs[i] == sig,
    decreases printfs.len(),
{
    if printfs.len() > 0 {
        lemma_find_sig_found(printfs.drop_last(), sig);
    }
}

/// The globals that come through parameters are the globals that were
/// listed.
pub proof fn lemma_global_params(globals: Seq<Reg>, at: nat, g: Reg)
    ensures
        global_params(globals, at).contains_key(g) <==> globals.contains(g),
    decreases globals.len(),
{
    if globals.len() > 0 {
        let front = globals.drop_last();
        lemma_global_params(front, at, g);
        if globals.contains(g) {
            let i = choose|i: int| 0 <= i < globals.len() && globals[i] == g;
            if i < front.len() {
                assert(front[i] == g);
            }
        }
        if front.contains(g) {
            let i = choose|i: int| 0 <= i < front.len() && front[i] == g;
            assert(globals[i] == g);
        }
        if globals.last() == g {
            assert(globals[globals.len() - 1] == g);
        }
    }
}

} // verus!
