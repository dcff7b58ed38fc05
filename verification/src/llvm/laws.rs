//! What holds of the code that the generator emits, whatever the program.
use vstd::prelude::*;
use super::ir::{CompileError, HighLevel, Instr, NumTy, Reg, Ty};
use super::model::{
    act, alloca, bind_result, bind_val, call, call_args, compare_float, compare_int, const_int,
    drop_locals, drop_val, emit, emit_entry, gen_hl_inst, gen_ll_inst, get_iter, get_local,
    get_local_inner, has_var, incoming,
    get_locals, insert_local, intrinsic, iter_begin, iter_getnext, iter_hasnext, load_operand,
    mov, next, printf, push_args, refusal, ret_val, run_plan, runtime_val, typed_plan,
    wrapped_printf, Env,
    FnState, PrintfKind,
};
use super::names::spec_drop_name;
use super::ops::{Callee, Op, Step, Value};
use super::plan::{spec_plan, Plan};

verus! {

/// The function that drops a value of type `ty`, where values of the type
/// are counted.
pub open spec fn dropper(ty: Ty) -> Option<Callee> {
    if ty is Str {
        Some(Callee::DropStr)
    } else {
        match spec_drop_name(ty) {
            Ok(name) => Some(Callee::Intrinsic(name)),
            Err(_) => None,
        }
    }
}

/// Whether the steps `steps` drop the value `v` with `callee` at `i`.
pub open spec fn drops_at(steps: Seq<Step>, i: int, v: Value, callee: Callee) -> bool {
    &&& 0 <= i
    &&& i + 1 < steps.len()
    &&& steps[i].op == Op::Arg(v)
    &&& steps[i + 1].op == Op::Call { callee, args: 1 }
}

/// Whether `b` has the steps of `a`, and then some.
pub open spec fn extends(a: FnState, b: FnState) -> bool {
    a.steps.len() <= b.steps.len() && b.steps.take(a.steps.len() as int) == a.steps
}

/// Dropping locals adds steps, and takes none away.
pub proof fn lemma_drop_locals_extends(s: FnState, regs: Seq<Reg>, keep: Value)
    ensures
        extends(s, drop_locals(s, regs, keep)),
    decreases regs.len(),
{
    if regs.len() > 0 {
        lemma_drop_locals_extends(s, regs.drop_last(), keep);
        let s1 = drop_locals(s, regs.drop_last(), keep);
        let s2 = drop_locals(s, regs, keep);
        lemma_drop_val_extends(s1, s.locals[regs.last()], regs.last().1);
        assert(s2.steps.take(s.steps.len() as int) =~= s1.steps.take(s.steps.len() as int)) by {
            assert(s2.steps.take(s1.steps.len() as int) == s1.steps);
        }
    } else {
        assert(s.steps.take(s.steps.len() as int) =~= s.steps);
    }
}

/// Dropping a value adds steps, and takes none away; where values of the
/// type are counted, the steps added are the call that drops the value.
pub proof fn lemma_drop_val_extends(s: FnState, v: Value, ty: Ty)
    ensures
        extends(s, drop_val(s, v, ty)),
        dropper(ty) matches Some(callee) ==> drop_val(s, v, ty).steps.len() == s.steps.len() + 2
            && drops_at(drop_val(s, v, ty).steps, s.steps.len() as int, v, callee),
        dropper(ty) is None ==> drop_val(s, v, ty) == s,
{
    let one = seq![v];
    assert(one.drop_last() =~= Seq::<Value>::empty());
    assert(one.last() == v);
    assert(push_args(s, one.drop_last()) == s);
    assert(push_args(s, one) == emit(s, Op::Arg(v)));
    let s1 = drop_val(s, v, ty);
    assert(s1.steps.take(s.steps.len() as int) =~= s.steps);
}

/// A return drops every local that it is to drop: one that is bound,
/// whose values are counted, that is not kept out of dropping, and whose
/// value is not the one returned. The call that drops it is among the
/// steps of the return.
pub proof fn lemma_return_drops(s: FnState, to_return: Value, ty: Ty, k: int)
    requires
        0 <= k < s.order.len(),
        s.locals.contains_key(s.order[k]),
        !s.skip_drop.contains(s.order[k]),
        s.locals[s.order[k]] != to_return,
        dropper(s.order[k].1) is Some,
    ensures
        exists|i: int|
            s.steps.len() <= i && #[trigger] drops_at(
                ret_val(s, to_return, ty).steps,
                i,
                s.locals[s.order[k]],
                dropper(s.order[k].1)->Some_0,
            ),
{
    let r = s.order[k];
    let s1 = drop_locals(s, s.order, to_return);
    lemma_dropped(s, s.order, to_return, k);
    let i = choose|i: int|
        s.steps.len() <= i && #[trigger] drops_at(s1.steps, i, s.locals[r], dropper(r.1)->Some_0);
    let s2 = ret_val(s, to_return, ty);
    assert(s2.steps[i] == s1.steps[i]);
    assert(s2.steps[i + 1] == s1.steps[i + 1]);
    assert(drops_at(s2.steps, i, s.locals[r], dropper(r.1)->Some_0));
}

proof fn lemma_dropped(s: FnState, regs: Seq<Reg>, keep: Value, k: int)
    requires
        0 <= k < regs.len(),
        s.locals.contains_key(regs[k]),
        !s.skip_drop.contains(regs[k]),
        s.locals[regs[k]] != keep,
        dropper(regs[k].1) is Some,
    ensures
        exists|i: int|
            s.steps.len() <= i && #[trigger] drops_at(
                drop_locals(s, regs, keep).steps,
                i,
                s.locals[regs[k]],
                dropper(regs[k].1)->Some_0,
            ),
    decreases regs.len(),
{
    let front = regs.drop_last();
    let s1 = drop_locals(s, front, keep);
    let s2 = drop_locals(s, regs, keep);
    let v = s.locals[regs[k]];
    let callee = dropper(regs[k].1)->Some_0;
    lemma_drop_locals_extends(s, front, keep);
    lemma_drop_val_extends(s1, s.locals[regs.last()], regs.last().1);
    if k == regs.len() - 1 {
        assert(regs.last() == regs[k]);
        assert(drops_at(s2.steps, s1.steps.len() as int, v, callee));
    } else {
        assert(front[k] == regs[k]);
        lemma_dropped(s, front, keep, k);
        let i = choose|i: int| s.steps.len() <= i && #[trigger] drops_at(s1.steps, i, v, callee);
        assert(s2.steps.take(s1.steps.len() as int) == s1.steps);
        assert(s2.steps[i] == s2.steps.take(s1.steps.len() as int)[i]);
        assert(s2.steps[i + 1] == s2.steps.take(s1.steps.len() as int)[i + 1]);
        assert(drops_at(s2.steps, i, v, callee));
    }
}

/// Whether a return that gives back `keep` is to drop the local `r`: it is
/// bound, its values are counted, it is not kept out of dropping (as the
/// parameters and the results of phis are), and its value is not the one
/// returned.
pub open spec fn owed(s: FnState, r: Reg, keep: Value) -> bool {
    &&& s.locals.contains_key(r)
    &&& !s.skip_drop.contains(r)
    &&& s.locals[r] != keep
    &&& dropper(r.1) is Some
}

/// Whether step `i` of `steps` belongs to the drop of one of the locals
/// `regs` that a return is to drop: it hands the value to the call, or is
/// the call.
pub open spec fn drop_of(steps: Seq<Step>, i: int, s: FnState, regs: Seq<Reg>, keep: Value) -> bool {
    exists|k: int|
        0 <= k < regs.len() && #[trigger] owed(s, regs[k], keep) && (drops_at(
            steps,
            i,
            s.locals[regs[k]],
            dropper(regs[k].1)->Some_0,
        ) || drops_at(steps, i - 1, s.locals[regs[k]], dropper(regs[k].1)->Some_0))
}

proof fn lemma_drops_only(s: FnState, regs: Seq<Reg>, keep: Value, i: int)
    requires
        s.steps.len() <= i < drop_locals(s, regs, keep).steps.len(),
    ensures
        drop_of(drop_locals(s, regs, keep).steps, i, s, regs, keep),
    decreases regs.len(),
{
    if regs.len() > 0 {
        let front = regs.drop_last();
        let r = regs.last();
        let s1 = drop_locals(s, front, keep);
        let s2 = drop_locals(s, regs, keep);
        lemma_drop_locals_extends(s, front, keep);
        lemma_drop_val_extends(s1, s.locals[r], r.1);
        if i < s1.steps.len() {
            lemma_drops_only(s, front, keep, i);
            let k = choose|k: int|
                0 <= k < front.len() && #[trigger] owed(s, front[k], keep) && (drops_at(
                    s1.steps,
                    i,
                    s.locals[front[k]],
                    dropper(front[k].1)->Some_0,
                ) || drops_at(s1.steps, i - 1, s.locals[front[k]], dropper(front[k].1)->Some_0));
            assert(front[k] == regs[k]);
            assert(s2.steps.take(s1.steps.len() as int) == s1.steps || s2 == s1);
            if s2 != s1 {
                let t = s2.steps.take(s1.steps.len() as int);
                assert(s2.steps[i] == t[i]);
                if i >= 1 {
                    assert(s2.steps[i - 1] == t[i - 1]);
                }
                if i + 1 < s1.steps.len() {
                    assert(s2.steps[i + 1] == t[i + 1]);
                }
            }
            assert(owed(s, regs[k], keep));
        } else {
            assert(s2 != s1);
            assert(owed(s, regs[regs.len() - 1], keep));
        }
    }
}

/// A return drops nothing but the locals that it is to drop: each of its
/// steps but the last, and the load of a string that is returned, belongs
/// to the drop of a local that is bound, counted, not kept out of dropping
/// and not returned. Parameters and the results of phis, which are kept
/// out, are never dropped.
pub proof fn lemma_return_drops_only(s: FnState, to_return: Value, ty: Ty, i: int)
    requires
        s.steps.len() <= i < ret_val(s, to_return, ty).steps.len(),
        ret_val(s, to_return, ty).steps[i].op is Arg || ret_val(s, to_return, ty).steps[i].op
            is Call,
    ensures
        drop_of(ret_val(s, to_return, ty).steps, i, s, s.order, to_return),
{
    let s1 = drop_locals(s, s.order, to_return);
    let s2 = ret_val(s, to_return, ty);
    lemma_drop_locals_extends(s, s.order, to_return);
    assert(i < s1.steps.len());
    lemma_drops_only(s, s.order, to_return, i);
    let k = choose|k: int|
        0 <= k < s.order.len() && #[trigger] owed(s, s.order[k], to_return) && (drops_at(
            s1.steps,
            i,
            s.locals[s.order[k]],
            dropper(s.order[k].1)->Some_0,
        ) || drops_at(s1.steps, i - 1, s.locals[s.order[k]], dropper(s.order[k].1)->Some_0));
    assert(s2.steps.take(s1.steps.len() as int) =~= s1.steps);
    let t = s2.steps.take(s1.steps.len() as int);
    assert(s2.steps[i] == t[i]);
    if i >= 1 {
        assert(s2.steps[i - 1] == t[i - 1]);
    }
    if i + 1 < s1.steps.len() {
        assert(s2.steps[i + 1] == t[i + 1]);
    }
    assert(owed(s, s.order[k], to_return));
}

/// A return ends in the instruction that returns.
pub proof fn lemma_return_ends(s: FnState, to_return: Value, ty: Ty)
    ensures
        ret_val(s, to_return, ty).steps.len() > s.steps.len(),
        ret_val(s, to_return, ty).steps.last().op is Ret,
        extends(s, ret_val(s, to_return, ty)),
{
    lemma_drop_locals_extends(s, s.order, to_return);
    let s1 = drop_locals(s, s.order, to_return);
    let s2 = ret_val(s, to_return, ty);
    assert(s2.steps.take(s.steps.len() as int) =~= s1.steps.take(s.steps.len() as int));
}

/// Whether `b` has the steps of `a` and then some, of which every stack
/// slot is made in the entry block.
pub open spec fn hoists(a: FnState, b: FnState) -> bool {
    &&& extends(a, b)
    &&& forall|i: int|
        a.steps.len() <= i < b.steps.len() ==> ((#[trigger] b.steps[i]).op is Alloca
            ==> b.steps[i].block is Entry)
}

proof fn lemma_hoists_trans(a: FnState, b: FnState, c: FnState)
    requires
        hoists(a, b),
        hoists(b, c),
    ensures
        hoists(a, c),
{
    assert(c.steps.take(a.steps.len() as int) =~= a.steps) by {
        assert forall|i: int| 0 <= i < a.steps.len() implies c.steps[i] == a.steps[i] by {
            assert(c.steps.take(b.steps.len() as int)[i] == b.steps[i]);
            assert(b.steps.take(a.steps.len() as int)[i] == a.steps[i]);
        }
    }
    assert forall|i: int| a.steps.len() <= i < c.steps.len() && (#[trigger] c.steps[i]).op
        is Alloca implies c.steps[i].block is Entry by {
        if i < b.steps.len() {
            assert(c.steps.take(b.steps.len() as int)[i] == b.steps[i]);
        }
    }
}

proof fn lemma_same_steps(a: FnState, b: FnState)
    requires
        a.steps == b.steps,
    ensures
        hoists(a, b),
{
    assert(b.steps.take(a.steps.len() as int) =~= a.steps);
}

proof fn lemma_emit_hoists(s: FnState, op: Op)
    requires
        !(op is Alloca),
    ensures
        hoists(s, emit(s, op)),
{
    assert(emit(s, op).steps.take(s.steps.len() as int) =~= s.steps);
}

proof fn lemma_emit_entry_hoists(s: FnState, op: Op)
    ensures
        hoists(s, emit_entry(s, op)),
{
    assert(emit_entry(s, op).steps.take(s.steps.len() as int) =~= s.steps);
}

proof fn lemma_push_args_hoists(s: FnState, args: Seq<Value>)
    ensures
        hoists(s, push_args(s, args)),
    decreases args.len(),
{
    if args.len() == 0 {
        lemma_same_steps(s, s);
    } else {
        let s1 = push_args(s, args.drop_last());
        lemma_push_args_hoists(s, args.drop_last());
        lemma_emit_hoists(s1, Op::Arg(args.last()));
        lemma_hoists_trans(s, s1, push_args(s, args));
    }
}

proof fn lemma_call_hoists(s: FnState, callee: Callee, args: Seq<Value>)
    ensures
        hoists(s, call(s, callee, args).0),
{
    let s1 = push_args(s, args);
    lemma_push_args_hoists(s, args);
    lemma_emit_hoists(s1, Op::Call { callee, args: args.len() as usize });
    lemma_hoists_trans(s, s1, call(s, callee, args).0);
}

proof fn lemma_alloca_hoists(s: FnState, ty: Ty)
    ensures
        hoists(s, alloca(s, ty).0),
{
    let s1 = emit_entry(s, Op::Alloca(super::ops::spec_base_ty(ty)));
    let (s2, v) = const_int(s1, super::ops::spec_base_ty(ty), 0, false);
    let s3 = alloca(s, ty).0;
    lemma_emit_entry_hoists(s, Op::Alloca(super::ops::spec_base_ty(ty)));
    lemma_emit_hoists(
        s1,
        Op::ConstInt { ty: super::ops::spec_base_ty(ty), bits: 0, sign_extend: false },
    );
    lemma_emit_entry_hoists(s2, Op::Store { val: v, ptr: next(s) });
    lemma_hoists_trans(s, s1, s2);
    lemma_hoists_trans(s, s2, s3);
}

proof fn lemma_drop_val_hoists(s: FnState, v: Value, ty: Ty)
    ensures
        hoists(s, drop_val(s, v, ty)),
{
    lemma_call_hoists(s, Callee::DropStr, seq![v]);
    if let Ok(name) = spec_drop_name(ty) {
        lemma_call_hoists(s, Callee::Intrinsic(name), seq![v]);
    }
    lemma_same_steps(s, s);
}

proof fn lemma_get_local_hoists(s: FnState, env: Env, reg: Reg)
    ensures
        hoists(s, get_local_inner(s, env, reg).0),
        get_local(s, env, reg) matches Ok(r) ==> hoists(s, r.0),
{
    lemma_same_steps(s, s);
    lemma_emit_hoists(s, Op::ConstInt { ty: super::ops::LlTy::I64, bits: 0, sign_extend: false });
    let s1 = emit(s, Op::Param(env.me().globals[reg]));
    lemma_emit_hoists(s, Op::Param(env.me().globals[reg]));
    lemma_emit_hoists(s1, Op::Load { ptr: next(s), ty: super::ops::spec_base_ty(reg.1) });
    lemma_hoists_trans(
        s,
        s1,
        emit(s1, Op::Load { ptr: next(s), ty: super::ops::spec_base_ty(reg.1) }),
    );
}

proof fn lemma_insert_local_hoists(s: FnState, reg: Reg, v: Value)
    ensures
        hoists(s, insert_local(s, reg, v)),
{
    lemma_same_steps(s, insert_local(s, reg, v));
}

proof fn lemma_bind_val_hoists(s: FnState, env: Env, reg: Reg, to: Value)
    ensures
        hoists(s, bind_val(s, env, reg, to)),
{
    let result = bind_val(s, env, reg, to);
    if reg.1 is Null {
        lemma_same_steps(s, s);
    } else if env.is_global(reg) {
        let param = next(s);
        let s1 = emit(s, Op::Param(env.me().globals[reg]));
        lemma_emit_hoists(s, Op::Param(env.me().globals[reg]));
        if reg.1.spec_is_map() {
            let prev = next(s1);
            let s2 = emit(s1, Op::Load { ptr: param, ty: super::ops::spec_base_ty(reg.1) });
            let s3 = drop_val(s2, prev, reg.1);
            let s4 = intrinsic(s3, "ref_map", seq![to]).0;
            lemma_emit_hoists(s1, Op::Load { ptr: param, ty: super::ops::spec_base_ty(reg.1) });
            lemma_drop_val_hoists(s2, prev, reg.1);
            lemma_call_hoists(s3, Callee::Intrinsic("ref_map"), seq![to]);
            lemma_emit_hoists(s4, Op::Store { val: to, ptr: param });
            lemma_hoists_trans(s, s1, s2);
            lemma_hoists_trans(s, s2, s3);
            lemma_hoists_trans(s, s3, s4);
            lemma_hoists_trans(s, s4, result);
        } else if reg.1 is Str {
            let s2 = drop_val(s1, param, Ty::Str);
            let s3 = emit(s2, Op::Store { val: to, ptr: param });
            lemma_drop_val_hoists(s1, param, Ty::Str);
            lemma_emit_hoists(s2, Op::Store { val: to, ptr: param });
            lemma_call_hoists(s3, Callee::Intrinsic("ref_str"), seq![param]);
            lemma_hoists_trans(s, s1, s2);
            lemma_hoists_trans(s, s2, s3);
            lemma_hoists_trans(s, s3, result);
        } else {
            lemma_emit_hoists(s1, Op::Store { val: to, ptr: param });
            lemma_hoists_trans(s, s1, result);
        }
    } else if reg.1.spec_is_map() {
        let s1 = intrinsic(s, "ref_map", seq![to]).0;
        lemma_call_hoists(s, Callee::Intrinsic("ref_map"), seq![to]);
        lemma_insert_local_hoists(s1, reg, to);
        lemma_hoists_trans(s, s1, result);
    } else if reg.1 is Str {
        let (s1, loc) = alloca(s, Ty::Str);
        let s2 = drop_val(s1, loc, Ty::Str);
        let s3 = emit(s2, Op::Store { val: to, ptr: loc });
        lemma_alloca_hoists(s, Ty::Str);
        lemma_drop_val_hoists(s1, loc, Ty::Str);
        lemma_emit_hoists(s2, Op::Store { val: to, ptr: loc });
        lemma_insert_local_hoists(s3, reg, loc);
        lemma_hoists_trans(s, s1, s2);
        lemma_hoists_trans(s, s2, s3);
        lemma_hoists_trans(s, s3, result);
    } else {
        lemma_insert_local_hoists(s, reg, to);
    }
}

proof fn lemma_compare_hoists(s: FnState, l: Value, r: Value)
    ensures
        forall|pred: super::ops::Pred| hoists(s, #[trigger] compare_int(s, pred, l, r).0),
        forall|pred: super::ops::FPred| hoists(s, #[trigger] compare_float(s, pred, l, r).0),
{
    assert forall|pred: super::ops::Pred| hoists(s, #[trigger] compare_int(s, pred, l, r).0) by {
        let s1 = emit(s, Op::ICmp(pred, l, r));
        lemma_emit_hoists(s, Op::ICmp(pred, l, r));
        lemma_emit_hoists(s1, Op::ZExt(next(s), super::ops::LlTy::I64));
        lemma_hoists_trans(s, s1, compare_int(s, pred, l, r).0);
    }
    assert forall|pred: super::ops::FPred| hoists(s, #[trigger] compare_float(s, pred, l, r).0) by {
        let s1 = emit(s, Op::FCmp(pred, l, r));
        lemma_emit_hoists(s, Op::FCmp(pred, l, r));
        lemma_emit_hoists(s1, Op::ZExt(next(s), super::ops::LlTy::I64));
        lemma_hoists_trans(s, s1, compare_float(s, pred, l, r).0);
    }
}

proof fn lemma_const_hoists(s: FnState)
    ensures
        forall|ty: super::ops::LlTy, bits: u64, sign_extend: bool|
            hoists(s, #[trigger] const_int(s, ty, bits, sign_extend).0),
{
    assert forall|ty: super::ops::LlTy, bits: u64, sign_extend: bool|
        hoists(s, #[trigger] const_int(s, ty, bits, sign_extend).0) by {
        lemma_emit_hoists(s, Op::ConstInt { ty, bits, sign_extend });
    }
}

proof fn lemma_load_operand_hoists(s: FnState, env: Env, r: Option<Reg>)
    ensures
        load_operand(s, env, r) matches Ok(x) ==> hoists(s, x.0),
{
    lemma_same_steps(s, s);
    if let Some(reg) = r {
        lemma_get_local_hoists(s, env, reg);
    }
}

proof fn lemma_call_args_hoists(s: FnState, env: Env, p: Plan, vs: Seq<Value>)
    ensures
        hoists(s, call_args(s, env, p, vs).0),
{
    lemma_same_steps(s, s);
    let s1 = if p.rt {
        runtime_val(s, env).0
    } else {
        s
    };
    lemma_emit_hoists(s, Op::Param((env.me().num_args - 1) as u64));
    lemma_const_hoists(s1);
    if let Some(k) = p.konst {
        lemma_hoists_trans(s, s1, const_int(s1, k.ty, k.bits, k.sign_extend).0);
    }
}

proof fn lemma_act_hoists(s: FnState, env: Env, p: Plan, vs: Seq<Value>)
    ensures
        hoists(s, act(s, env, p, vs).0),
{
    let result = act(s, env, p, vs).0;
    lemma_const_hoists(s);
    lemma_compare_hoists(s, vs[0], vs[1]);
    match p.act {
        super::plan::Act::Call(callee) => {
            let (s1, args) = call_args(s, env, p, vs);
            lemma_call_args_hoists(s, env, p, vs);
            lemma_call_hoists(s1, callee, args);
            lemma_hoists_trans(s, s1, result);
        },
        super::plan::Act::Binary(op) => {
            lemma_emit_hoists(s, Op::Binary(op, vs[0], vs[1]));
        },
        super::plan::Act::Bits1(bw) => {
            lemma_emit_hoists(s, Op::Bits1(bw, vs[0]));
        },
        super::plan::Act::Bits2(bw) => {
            lemma_emit_hoists(s, Op::Bits2(bw, vs[0], vs[1]));
        },
        super::plan::Act::ICmp(_) => {},
        super::plan::Act::FCmp(_) => {},
        super::plan::Act::FNeg => {
            lemma_emit_hoists(s, Op::FNeg(vs[0]));
        },
        super::plan::Act::FPToSI => {
            lemma_emit_hoists(s, Op::FPToSI(vs[0], super::ops::LlTy::I64));
        },
        super::plan::Act::SIToFP => {
            lemma_emit_hoists(s, Op::SIToFP(vs[0], super::ops::LlTy::F64));
        },
        super::plan::Act::NotInt => {
            let (s1, zero) = const_int(s, super::ops::LlTy::I64, 0, true);
            lemma_compare_hoists(s1, vs[0], zero);
            lemma_hoists_trans(s, s1, result);
        },
        super::plan::Act::NotStr => {
            let (s1, len) = intrinsic(s, "str_len", seq![vs[0]]);
            let (s2, zero) = const_int(s1, super::ops::LlTy::I64, 0, true);
            lemma_call_hoists(s, Callee::Intrinsic("str_len"), seq![vs[0]]);
            lemma_const_hoists(s1);
            lemma_compare_hoists(s2, len, zero);
            lemma_hoists_trans(s, s1, s2);
            lemma_hoists_trans(s, s2, result);
        },
        super::plan::Act::NegInt => {
            let (s1, zero) = const_int(s, super::ops::LlTy::I64, 0, true);
            lemma_emit_hoists(s1, Op::Binary(super::ops::BinOp::Sub, zero, vs[0]));
            lemma_hoists_trans(s, s1, result);
        },
    }
}

proof fn lemma_bind_result_hoists(s: FnState, env: Env, p: Plan, v: Value)
    ensures
        bind_result(s, env, p, v) matches Ok(x) ==> hoists(s, x),
{
    lemma_same_steps(s, s);
    if let Some(d) = p.dst {
        let s1 = bind_val(s, env, d, v);
        lemma_bind_val_hoists(s, env, d, v);
        lemma_get_local_hoists(s1, env, d);
        if let Ok((s2, val)) = get_local(s1, env, d) {
            lemma_drop_val_hoists(s2, val, d.1);
            lemma_hoists_trans(s, s1, s2);
            lemma_hoists_trans(s, s2, drop_val(s2, val, d.1));
        }
    }
}

proof fn lemma_run_plan_hoists(s: FnState, env: Env, p: Plan)
    ensures
        run_plan(s, env, p) matches Ok(x) ==> hoists(s, x),
{
    lemma_load_operand_hoists(s, env, p.a);
    if let Ok((s1, va)) = load_operand(s, env, p.a) {
        lemma_load_operand_hoists(s1, env, p.b);
        if let Ok((s2, vb)) = load_operand(s1, env, p.b) {
            lemma_load_operand_hoists(s2, env, p.c);
            if let Ok((s3, vc)) = load_operand(s2, env, p.c) {
                let (s4, v) = act(s3, env, p, va + vb + vc);
                lemma_act_hoists(s3, env, p, va + vb + vc);
                lemma_bind_result_hoists(s4, env, p, v);
                lemma_hoists_trans(s, s1, s2);
                lemma_hoists_trans(s, s2, s3);
                lemma_hoists_trans(s, s3, s4);
                if let Ok(s5) = bind_result(s4, env, p, v) {
                    lemma_hoists_trans(s, s4, s5);
                }
            }
        }
    }
}

proof fn lemma_get_locals_hoists(s: FnState, env: Env, regs: Seq<Reg>)
    ensures
        get_locals(s, env, regs) matches Ok(x) ==> hoists(s, x.0),
    decreases regs.len(),
{
    if regs.len() == 0 {
        lemma_same_steps(s, s);
    } else {
        lemma_get_locals_hoists(s, env, regs.drop_last());
        if let Ok((s1, vs)) = get_locals(s, env, regs.drop_last()) {
            lemma_get_local_hoists(s1, env, regs.last());
            if let Ok((s2, v)) = get_local(s1, env, regs.last()) {
                lemma_hoists_trans(s, s1, s2);
            }
        }
    }
}

proof fn lemma_printf_hoists(
    s: FnState,
    env: Env,
    kind: PrintfKind,
    fmt: super::ir::NumTy,
    args: Seq<Reg>,
    output: Option<(super::ir::NumTy, bool)>,
)
    ensures
        printf(s, env, kind, fmt, args, output) matches Ok(x) ==> hoists(s, x.0),
{
    let (s1, f) = wrapped_printf(s, (super::model::types_of(args), kind));
    lemma_same_steps(s, s1);
    let (s2, rt) = runtime_val(s1, env);
    lemma_emit_hoists(s1, Op::Param((env.me().num_args - 1) as u64));
    lemma_hoists_trans(s, s1, s2);
    lemma_get_local_hoists(s2, env, (fmt, Ty::Str));
    if let Ok((s3, fmtv)) = get_local(s2, env, (fmt, Ty::Str)) {
        lemma_hoists_trans(s, s2, s3);
        lemma_get_locals_hoists(s3, env, args);
        if let Ok((s4, vs)) = get_locals(s3, env, args) {
            lemma_hoists_trans(s, s3, s4);
            match output {
                Some((path, append)) => {
                    lemma_get_local_hoists(s4, env, (path, Ty::Str));
                    if let Ok((s5, pathv)) = get_local(s4, env, (path, Ty::Str)) {
                        let (s6, appv) = const_int(
                            s5,
                            super::ops::LlTy::I64,
                            super::plan::spec_flag(append),
                            false,
                        );
                        lemma_const_hoists(s5);
                        lemma_call_hoists(
                            s6,
                            Callee::Printf(f as usize),
                            seq![rt, fmtv] + vs + seq![pathv, appv],
                        );
                        lemma_hoists_trans(s, s4, s5);
                        lemma_hoists_trans(s, s5, s6);
                        lemma_hoists_trans(
                            s,
                            s6,
                            call(
                                s6,
                                Callee::Printf(f as usize),
                                seq![rt, fmtv] + vs + seq![pathv, appv],
                            ).0,
                        );
                    }
                },
                None => {
                    lemma_call_hoists(s4, Callee::Printf(f as usize), seq![rt, fmtv] + vs);
                    lemma_hoists_trans(
                        s,
                        s4,
                        call(s4, Callee::Printf(f as usize), seq![rt, fmtv] + vs).0,
                    );
                },
            }
        }
    }
}

proof fn lemma_iter_hoists(s: FnState, env: Env, a: Reg, b: Reg)
    ensures
        iter_begin(s, env, a, b) matches Ok(x) ==> hoists(s, x),
        iter_hasnext(s, env, a, b) matches Ok(x) ==> hoists(s, x),
        iter_getnext(s, env, a, b) matches Ok(x) ==> hoists(s, x),
{
    // begin: `a` is the iterator and `b` the map.
    lemma_get_local_hoists(s, env, b);
    if let Ok((s1, arrv)) = get_local(s, env, b) {
        if let (Ok(begin_fn), Ok(len_fn)) = (
            super::names::spec_iter_name(b.1),
            super::names::spec_len_name(b.1),
        ) {
            let (s2, iter_ptr) = intrinsic(s1, begin_fn, seq![arrv]);
            let (s3, cur_index) = alloca(s2, Ty::Int);
            let (s4, len) = intrinsic(s3, len_fn, seq![arrv]);
            lemma_call_hoists(s1, Callee::Intrinsic(begin_fn), seq![arrv]);
            lemma_alloca_hoists(s2, Ty::Int);
            lemma_call_hoists(s3, Callee::Intrinsic(len_fn), seq![arrv]);
            lemma_hoists_trans(s, s1, s2);
            lemma_hoists_trans(s, s2, s3);
            lemma_hoists_trans(s, s3, s4);
            lemma_same_steps(s4, iter_begin(s, env, a, b)->Ok_0);
            lemma_hoists_trans(s, s4, iter_begin(s, env, a, b)->Ok_0);
        }
    }
    // has next and get next: `a` is the iterator and `b` the destination.
    if let Ok(istate) = get_iter(s, a) {
        let cur = next(s);
        let load = Op::Load { ptr: istate.cur_index, ty: super::ops::LlTy::I64 };
        let s1 = emit(s, load);
        lemma_emit_hoists(s, load);
        {
            let (s2, hasnext) = compare_int(s1, super::ops::Pred::ULT, cur, istate.len);
            lemma_compare_hoists(s1, cur, istate.len);
            lemma_bind_val_hoists(s2, env, b, hasnext);
            lemma_hoists_trans(s, s1, s2);
            lemma_hoists_trans(s, s2, bind_val(s2, env, b, hasnext));
        }
        {
            let s2 = emit(s1, Op::Arg(cur));
            let res_loc = next(s2);
            let gep = Op::Gep {
                ptr: istate.iter_ptr,
                ty: super::ops::spec_base_ty(b.1),
                indices: 1,
            };
            let s3 = emit(s2, gep);
            let res = next(s3);
            let s4 = emit(s3, Op::Load { ptr: res_loc, ty: super::ops::spec_base_ty(b.1) });
            let (s5, one) = const_int(s4, super::ops::LlTy::I64, 1, true);
            let next_ix = next(s5);
            let s6 = emit(s5, Op::Binary(super::ops::BinOp::Add, cur, one));
            let s7 = emit(s6, Op::Store { val: next_ix, ptr: istate.cur_index });
            let s8 = if b.1 is Str {
                intrinsic(s7, "ref_str", seq![res_loc]).0
            } else {
                s7
            };
            lemma_emit_hoists(s1, Op::Arg(cur));
            lemma_emit_hoists(s2, gep);
            lemma_emit_hoists(s3, Op::Load { ptr: res_loc, ty: super::ops::spec_base_ty(b.1) });
            lemma_const_hoists(s4);
            lemma_emit_hoists(s5, Op::Binary(super::ops::BinOp::Add, cur, one));
            lemma_emit_hoists(s6, Op::Store { val: next_ix, ptr: istate.cur_index });
            lemma_call_hoists(s7, Callee::Intrinsic("ref_str"), seq![res_loc]);
            lemma_same_steps(s7, s7);
            lemma_bind_val_hoists(s8, env, b, res);
            lemma_hoists_trans(s, s1, s2);
            lemma_hoists_trans(s, s2, s3);
            lemma_hoists_trans(s, s3, s4);
            lemma_hoists_trans(s, s4, s5);
            lemma_hoists_trans(s, s5, s6);
            lemma_hoists_trans(s, s6, s7);
            lemma_hoists_trans(s, s7, s8);
            lemma_hoists_trans(s, s8, bind_val(s8, env, b, res));
        }
    }
}

proof fn lemma_mov_hoists(s: FnState, env: Env, ty: Ty, dst: super::ir::NumTy, src: super::ir::NumTy)
    ensures
        mov(s, env, ty, dst, src) matches Ok(x) ==> hoists(s, x),
{
    lemma_get_local_hoists(s, env, (src, ty));
    if let Ok((s1, sv)) = get_local(s, env, (src, ty)) {
        if ty is Str {
            let s2 = intrinsic(s1, "ref_str", seq![sv]).0;
            let loaded = next(s2);
            let s3 = emit(s2, Op::Load { ptr: sv, ty: super::ops::LlTy::I128 });
            lemma_call_hoists(s1, Callee::Intrinsic("ref_str"), seq![sv]);
            lemma_emit_hoists(s2, Op::Load { ptr: sv, ty: super::ops::LlTy::I128 });
            lemma_bind_val_hoists(s3, env, (dst, Ty::Str), loaded);
            lemma_hoists_trans(s, s1, s2);
            lemma_hoists_trans(s, s2, s3);
            lemma_hoists_trans(s, s3, bind_val(s3, env, (dst, Ty::Str), loaded));
        } else {
            lemma_bind_val_hoists(s1, env, (dst, ty), sv);
            lemma_hoists_trans(s, s1, bind_val(s1, env, (dst, ty), sv));
        }
    }
}

/// The code for a low-level instruction makes its stack slots in the entry
/// block, wherever the instruction stands: a slot that an instruction in a
/// loop needs is made once, and not once for every turn of the loop. The
/// code leaves the steps before it as they are.
pub proof fn lemma_stack_slots_are_hoisted(s: FnState, env: Env, inst: Instr)
    ensures
        gen_ll_inst(s, env, inst) matches Ok(after) ==> hoists(s, after),
{
    if let Some(p) = spec_plan(inst) {
        lemma_run_plan_hoists(s, env, p);
    } else if let Some(r) = typed_plan(inst) {
        if let Ok(p) = r {
            lemma_run_plan_hoists(s, env, p);
        }
    } else {
        match inst {
            Instr::StoreConstStr(sr, repr) => {
                let s1 = emit(s, Op::ConstStr { repr });
                lemma_emit_hoists(s, Op::ConstStr { repr });
                lemma_bind_val_hoists(s1, env, (sr, Ty::Str), next(s));
                lemma_hoists_trans(s, s1, bind_val(s1, env, (sr, Ty::Str), next(s)));
            },
            Instr::StoreConstInt(ir, i) => {
                let (s1, v) = const_int(s, super::ops::LlTy::I64, i as u64, true);
                lemma_const_hoists(s);
                lemma_bind_val_hoists(s1, env, (ir, Ty::Int), v);
                lemma_hoists_trans(s, s1, bind_val(s1, env, (ir, Ty::Int), v));
            },
            Instr::StoreConstFloat(fr, bits) => {
                let s1 = emit(s, Op::ConstReal { bits });
                lemma_emit_hoists(s, Op::ConstReal { bits });
                lemma_bind_val_hoists(s1, env, (fr, Ty::Float), next(s));
                lemma_hoists_trans(s, s1, bind_val(s1, env, (fr, Ty::Float), next(s)));
            },
            Instr::Sprintf { dst, fmt, args } => {
                lemma_printf_hoists(s, env, PrintfKind::Sprintf, fmt, args@, None);
                if let Ok((s1, v)) = printf(s, env, PrintfKind::Sprintf, fmt, args@, None) {
                    lemma_bind_val_hoists(s1, env, (dst, Ty::Str), v);
                    lemma_hoists_trans(s, s1, bind_val(s1, env, (dst, Ty::Str), v));
                }
            },
            Instr::Printf { output, fmt, args } => {
                lemma_printf_hoists(s, env, PrintfKind::File, fmt, args@, output);
                lemma_printf_hoists(s, env, PrintfKind::Stdout, fmt, args@, output);
            },
            Instr::Mov(ty, dst, src) => {
                lemma_mov_hoists(s, env, ty, dst, src);
            },
            Instr::IterBegin { map_ty, map, dst } => {
                if let Ok(iter_ty) = map_ty.spec_key_iter() {
                    lemma_iter_hoists(s, env, (dst, iter_ty), (map, map_ty));
                }
            },
            Instr::IterHasNext { iter_ty, dst, iter } => {
                lemma_iter_hoists(s, env, (iter, iter_ty), (dst, Ty::Int));
            },
            Instr::IterGetNext { iter_ty, dst, iter } => {
                if let Ok(ty) = iter_ty.spec_iter() {
                    lemma_iter_hoists(s, env, (iter, iter_ty), (dst, ty));
                }
            },
            _ => {},
        }
    }
}

/// Explicit stack traffic, the allocation of a map and the control flow
/// of the bytecode are refused, each with its own error, and so is no
/// instruction whose code the model gives.
pub proof fn lemma_refused(s: FnState, env: Env, inst: Instr)
    ensures
        inst is Push || inst is Pop ==> refusal(inst) == Some(CompileError::PushPop),
        inst is AllocMap ==> refusal(inst) == Some(CompileError::AllocMap),
        inst is Ret || inst is Halt || inst is Jmp || inst is JmpIf || inst is Call ==> refusal(inst)
            == Some(CompileError::BytecodeControlFlow),
        refusal(inst) matches Some(e) ==> gen_ll_inst(s, env, inst) == Err::<FnState, CompileError>(e),
{
}

/// The incoming pairs among `steps`, in order: a value, and the block
/// that it comes from.
pub open spec fn incomings(steps: Seq<Step>) -> Seq<(Value, usize)>
    decreases steps.len(),
{
    if steps.len() == 0 {
        Seq::empty()
    } else {
        match steps.last().op {
            Op::Incoming { value, block } => incomings(steps.drop_last()).push((value, block)),
            _ => incomings(steps.drop_last()),
        }
    }
}

proof fn lemma_incomings_emit(s: FnState, op: Op)
    ensures
        incomings(emit(s, op).steps) == match op {
            Op::Incoming { value, block } => incomings(s.steps).push((value, block)),
            _ => incomings(s.steps),
        },
{
    assert(emit(s, op).steps.drop_last() =~= s.steps);
}

proof fn lemma_get_local_incomings(s: FnState, env: Env, reg: Reg)
    ensures
        incomings(get_local_inner(s, env, reg).0.steps) == incomings(s.steps),
        get_local_inner(s, env, reg).0.locals == s.locals,
        get_local_inner(s, env, reg).1 is Some <==> reg.1 is Null || has_var(s, env, reg),
        s.locals.contains_key(reg) && !(reg.1 is Null) ==> get_local_inner(s, env, reg).1 == Some(
            s.locals[reg],
        ),
{
    lemma_incomings_emit(s, Op::ConstInt { ty: super::ops::LlTy::I64, bits: 0, sign_extend: false });
    let s1 = emit(s, Op::Param(env.me().globals[reg]));
    lemma_incomings_emit(s, Op::Param(env.me().globals[reg]));
    lemma_incomings_emit(s1, Op::Load { ptr: next(s), ty: super::ops::spec_base_ty(reg.1) });
}

/// A phi gets one incoming pair for each of its predecessors, in their
/// order: the block of the predecessor, with the value of its register,
/// which for a local is the value bound to it. No register is bound on the
/// way. A predecessor whose register has no value refuses the phi; where
/// each has one, the phi is wired.
pub proof fn lemma_phi_incoming(s: FnState, env: Env, ty: Ty, preds: Seq<(usize, u32)>)
    ensures
        match incoming(s, env, ty, preds) {
            Ok(done) => {
                &&& done.locals == s.locals
                &&& incomings(done.steps).len() == incomings(s.steps).len() + preds.len()
                &&& incomings(done.steps).take(incomings(s.steps).len() as int) == incomings(s.steps)
                &&& forall|k: int|
                    0 <= k < preds.len() ==> (#[trigger] incomings(done.steps)[incomings(s.steps).len() + k]).1 == preds[k].0 && (s.locals.contains_key((preds[k].1, ty)) && !(
                    ty is Null) ==> incomings(done.steps)[incomings(s.steps).len() + k].0
                        == s.locals[(preds[k].1, ty)])
            },
            Err(e) => exists|k: int|
                0 <= k < preds.len() && !(ty is Null) && !has_var(s, env, (#[trigger] preds[k].1, ty))
                    && e == CompileError::UnboundVariable(preds[k].1, ty),
        },
        (forall|k: int| 0 <= k < preds.len() ==> has_var(s, env, (#[trigger] preds[k].1, ty)))
            ==> incoming(s, env, ty, preds) is Ok,
    decreases preds.len(),
{
    let n = incomings(s.steps).len() as int;
    if preds.len() == 0 {
        assert(incomings(s.steps).take(n) =~= incomings(s.steps));
    } else {
        let reg = (preds[0].1, ty);
        lemma_get_local_incomings(s, env, reg);
        match get_local(s, env, reg) {
            Err(e) => {
                assert(!has_var(s, env, (preds[0].1, ty)));
            },
            Ok((s1, v)) => {
                let op = Op::Incoming { value: v, block: preds[0].0 };
                let s2 = emit(s1, op);
                let rest = preds.drop_first();
                lemma_incomings_emit(s1, op);
                lemma_phi_incoming(s2, env, ty, rest);
                assert(forall|k: int| 0 <= k < rest.len() ==> rest[k] == preds[k + 1]);
                assert(forall|r: Reg| has_var(s2, env, r) == has_var(s, env, r));
                match incoming(s2, env, ty, rest) {
                    Ok(done) => {
                        let all = incomings(done.steps);
                        assert(all.take(n + 1) == incomings(s.steps).push((v, preds[0].0)));
                        assert(all.take(n) =~= all.take(n + 1).take(n));
                        assert(all.take(n) =~= incomings(s.steps));
                        assert forall|k: int| 0 <= k < preds.len() implies (#[trigger] all[n + k]).1
                            == preds[k].0 && (s.locals.contains_key((preds[k].1, ty)) && !(
                        ty is Null) ==> all[n + k].0 == s.locals[(preds[k].1, ty)]) by {
                            if k == 0 {
                                assert(all[n] == all.take(n + 1)[n]);
                            } else {
                                assert(all[n + 1 + (k - 1)].1 == rest[k - 1].0);
                            }
                        }
                    },
                    Err(e) => {
                        let k = choose|k: int|
                            0 <= k < rest.len() && !(ty is Null) && !has_var(
                                s2,
                                env,
                                (#[trigger] rest[k].1, ty),
                            ) && e == CompileError::UnboundVariable(rest[k].1, ty);
                        assert(rest[k] == preds[k + 1]);
                        assert(!has_var(s, env, (preds[k + 1].1, ty)));
                    },
                }
                if forall|k: int| 0 <= k < preds.len() ==> has_var(s, env, (#[trigger] preds[k].1, ty)) {
                    assert forall|k: int| 0 <= k < rest.len() implies has_var(
                        s2,
                        env,
                        (#[trigger] rest[k].1, ty),
                    ) by {
                        assert(rest[k] == preds[k + 1]);
                        assert(has_var(s, env, (preds[k + 1].1, ty)));
                    }
                }
            },
        }
        if forall|k: int| 0 <= k < preds.len() ==> has_var(s, env, (#[trigger] preds[k].1, ty)) {
            assert(has_var(s, env, (preds[0].1, ty)));
        }
    }
}

/// A phi is one step: it has the type of the values that it joins, which
/// for strings is that of their slots. Its result is bound to its
/// register, and a return does not drop it.
pub proof fn lemma_phi_made(s: FnState, env: Env, reg: NumTy, ty: Ty, preds: Vec<(usize, NumTy)>)
    ensures
        gen_hl_inst(s, env, HighLevel::Phi(reg, ty, preds)) matches Ok(made) && made.steps
            == s.steps.push(Step { block: s.block, op: Op::Phi(super::ops::spec_llvm_ty(ty)) })
            && made.locals.contains_key((reg, ty)) && made.locals[(reg, ty)] == next(s)
            && made.skip_drop.contains((reg, ty)),
{
}

} // verus!
