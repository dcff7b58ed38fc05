use frawk::llvm::generator::{
    build_decls, gen_function, plan_run, program_ok, shards_wanted, stage_ok, worker_pid,
    wrapped_printf, MAIN_PID,
    Config, Generator, RunPlan,
};
use frawk::llvm::ir::{CompileError, Edge, FloatFunc, Frame, HighLevel, Instr, Node, Stage, Ty};
use frawk::llvm::model::PrintfKind;
use frawk::llvm::ops::{
    base_ty, llvm_ty, BinOp, Bitwise, Block, BuiltinFunc, Callee, FPred, FuncName, LlTy, Op, Pred,
    Step,
};
use frawk::llvm::plan::plan;
use frawk::llvm::tables::RegMap;
use frawk::llvm::view::{out_edges, typed_plan, FuncInfo, FunctionView, Printfs};

fn frame(blocks: Vec<Vec<Node>>, edges: Vec<Edge>) -> Frame {
    Frame {
        is_called: true,
        args: vec![],
        ret_ty: Ty::Int,
        locals: vec![],
        globals: vec![],
        blocks,
        edges,
    }
}

fn edge(from: u32, to: u32, cond: Option<u32>) -> Edge {
    Edge { from, to, cond }
}

fn body(i: usize, op: Op) -> Step {
    Step {
        block: Block::Body(i),
        op,
    }
}

fn entry(op: Op) -> Step {
    Step {
        block: Block::Entry,
        op,
    }
}

fn zero(ty: LlTy, sign_extend: bool) -> Op {
    Op::ConstInt {
        ty,
        bits: 0,
        sign_extend,
    }
}

fn call(name: &'static str, args: usize) -> Op {
    Op::Call {
        callee: Callee::Intrinsic(name),
        args,
    }
}

/// The steps of the only function of a program.
fn steps_of(f: Frame) -> Vec<Step> {
    let g = Generator::init(vec![f], Stage::Main(0), Config { opt_level: 0, num_workers: 1 })
        .unwrap();
    g.function(0).unwrap().steps.clone()
}

fn error_of(f: Frame) -> CompileError {
    match Generator::init(vec![f], Stage::Main(0), Config { opt_level: 0, num_workers: 1 }) {
        Ok(_) => panic!("expected an error"),
        Err(e) => e,
    }
}

/// A generator at work on a function with the given globals and one
/// argument less than parameters.
fn with_view<R>(globals: Vec<(u32, Ty)>, run: impl FnOnce(&mut FunctionView) -> R) -> (R, Vec<Step>) {
    let mut f = frame(vec![vec![]], vec![]);
    f.globals = globals;
    let decls: Vec<FuncInfo> = build_decls(&vec![f]);
    let mut view = FunctionView::new(&decls, 0, Printfs::new());
    let r = run(&mut view);
    (r, view.finish().0)
}

#[test]
fn type_tags_follow_the_order_of_the_types() {
    let all = [
        Ty::Int,
        Ty::Float,
        Ty::Str,
        Ty::MapIntInt,
        Ty::MapIntFloat,
        Ty::MapIntStr,
        Ty::MapStrInt,
        Ty::MapStrFloat,
        Ty::MapStrStr,
        Ty::IterInt,
        Ty::IterStr,
        Ty::Null,
    ];
    for (i, ty) in all.iter().enumerate() {
        assert_eq!(ty.tag() as usize, i);
    }
}

#[test]
fn types_of_the_backend() {
    assert_eq!(base_ty(Ty::Int), LlTy::I64);
    assert_eq!(base_ty(Ty::Null), LlTy::I64);
    assert_eq!(base_ty(Ty::Float), LlTy::F64);
    assert_eq!(base_ty(Ty::Str), LlTy::I128);
    assert_eq!(base_ty(Ty::MapStrFloat), LlTy::VoidPtr);
    assert_eq!(llvm_ty(Ty::Str), LlTy::Ptr(Ty::Str));
    assert_eq!(llvm_ty(Ty::Int), LlTy::I64);
    assert_eq!(llvm_ty(Ty::MapIntInt), LlTy::VoidPtr);
}

#[test]
fn map_types_have_keys_and_values() {
    assert_eq!(Ty::MapIntStr.key(), Ok(Ty::Int));
    assert_eq!(Ty::MapIntStr.val(), Ok(Ty::Str));
    assert_eq!(Ty::MapStrFloat.key(), Ok(Ty::Str));
    assert_eq!(Ty::MapStrFloat.val(), Ok(Ty::Float));
    assert_eq!(Ty::MapStrInt.key_iter(), Ok(Ty::IterStr));
    assert_eq!(Ty::MapIntInt.key_iter(), Ok(Ty::IterInt));
    assert_eq!(Ty::IterStr.iter(), Ok(Ty::Str));
    assert_eq!(Ty::Int.key(), Err(CompileError::NotAMap(Ty::Int)));
    assert_eq!(Ty::Str.val(), Err(CompileError::NotAMap(Ty::Str)));
    assert_eq!(Ty::Str.iter(), Err(CompileError::NotAnIterator(Ty::Str)));
    assert!(Ty::MapStrStr.is_map() && !Ty::Str.is_map());
    assert!(Ty::Str.is_counted() && Ty::MapIntInt.is_counted() && !Ty::Int.is_counted());
}

#[test]
fn register_tables_keep_what_was_put_in() {
    let mut m = RegMap::new();
    assert_eq!(m.get((1, Ty::Int)), None);
    assert_eq!(m.insert((1, Ty::Int), 10), None);
    assert_eq!(m.insert((1, Ty::Str), 11), None);
    assert_eq!(m.insert((2, Ty::Int), 12), None);
    assert_eq!(m.get((1, Ty::Int)), Some(10));
    assert_eq!(m.get((1, Ty::Str)), Some(11));
    assert_eq!(m.get((2, Ty::Int)), Some(12));
    assert_eq!(m.get((2, Ty::Str)), None);
    assert_eq!(m.insert((1, Ty::Int), 13), Some(10));
    assert_eq!(m.get((1, Ty::Int)), Some(13));
    assert!(m.contains((2, Ty::Int)) && !m.contains((3, Ty::Int)));
}

#[test]
fn constant_return() {
    let f = frame(
        vec![vec![
            Node::Low(Instr::StoreConstInt(1, 5)),
            Node::High(HighLevel::Ret(1, Ty::Int)),
        ]],
        vec![],
    );
    assert_eq!(
        steps_of(f),
        vec![
            body(0, Op::ConstInt { ty: LlTy::I64, bits: 5, sign_extend: true }),
            body(0, Op::Ret(0)),
            entry(Op::Br(0)),
        ]
    );
}

#[test]
fn negative_constants_keep_their_bits() {
    let f = frame(vec![vec![Node::Low(Instr::StoreConstInt(1, -2))]], vec![]);
    assert_eq!(
        steps_of(f)[0],
        body(0, Op::ConstInt { ty: LlTy::I64, bits: u64::MAX - 1, sign_extend: true })
    );
}

#[test]
fn local_string_gets_a_slot_in_the_entry_block() {
    let ((), steps) = with_view(vec![], |v| {
        v.position_at_end(Block::Body(3));
        let s = v.emit(Op::ConstStr { repr: 77 });
        v.bind_val((4, Ty::Str), s);
        assert_eq!(v.get_local((4, Ty::Str)), Ok(1));
        assert!(v.has_var((4, Ty::Str)));
        assert!(!v.is_global((4, Ty::Str)));
    });
    assert_eq!(
        steps,
        vec![
            body(3, Op::ConstStr { repr: 77 }),
            entry(Op::Alloca(LlTy::I128)),
            body(3, zero(LlTy::I128, false)),
            entry(Op::Store { val: 2, ptr: 1 }),
            body(3, Op::Arg(1)),
            body(3, Op::Call { callee: Callee::DropStr, args: 1 }),
            body(3, Op::Store { val: 0, ptr: 1 }),
        ]
    );
}

#[test]
fn global_string_is_dropped_stored_and_counted() {
    let ((), steps) = with_view(vec![(9, Ty::Str)], |v| {
        assert!(v.is_global((9, Ty::Str)));
        v.bind_val((9, Ty::Str), 100);
    });
    assert_eq!(
        steps,
        vec![
            body(0, Op::Param(0)),
            body(0, Op::Arg(0)),
            body(0, Op::Call { callee: Callee::DropStr, args: 1 }),
            body(0, Op::Store { val: 100, ptr: 0 }),
            body(0, Op::Arg(0)),
            body(0, call("ref_str", 1)),
        ]
    );
}

#[test]
fn global_map_is_dropped_and_the_new_one_counted_before_the_store() {
    let ((), steps) = with_view(vec![(1, Ty::Int), (9, Ty::MapStrInt)], |v| {
        v.bind_val((9, Ty::MapStrInt), 100);
    });
    assert_eq!(
        steps,
        vec![
            body(0, Op::Param(1)),
            body(0, Op::Load { ptr: 0, ty: LlTy::VoidPtr }),
            body(0, Op::Arg(1)),
            body(0, call("drop_strint", 1)),
            body(0, Op::Arg(100)),
            body(0, call("ref_map", 1)),
            body(0, Op::Store { val: 100, ptr: 0 }),
        ]
    );
}

#[test]
fn other_globals_are_stored_and_loaded() {
    let (v0, steps) = with_view(vec![(9, Ty::Float)], |v| {
        v.bind_val((9, Ty::Float), 100);
        v.get_local((9, Ty::Float))
    });
    assert_eq!(v0, Ok(3));
    assert_eq!(
        steps,
        vec![
            body(0, Op::Param(0)),
            body(0, Op::Store { val: 100, ptr: 0 }),
            body(0, Op::Param(0)),
            body(0, Op::Load { ptr: 2, ty: LlTy::F64 }),
        ]
    );
}

#[test]
fn local_map_is_counted_and_null_is_not_stored() {
    let ((), steps) = with_view(vec![], |v| {
        v.bind_val((1, Ty::MapIntInt), 50);
        v.bind_val((2, Ty::Null), 60);
        v.bind_val((3, Ty::Int), 70);
        assert_eq!(v.get_local((1, Ty::MapIntInt)), Ok(50));
        assert_eq!(v.get_local((3, Ty::Int)), Ok(70));
        assert!(!v.has_var((2, Ty::Null)));
        assert_eq!(v.get_local((2, Ty::Null)), Ok(2));
        assert_eq!(
            v.get_local((8, Ty::Int)),
            Err(CompileError::UnboundVariable(8, Ty::Int))
        );
    });
    assert_eq!(
        steps,
        vec![
            body(0, Op::Arg(50)),
            body(0, call("ref_map", 1)),
            body(0, zero(LlTy::I64, false)),
        ]
    );
}

#[test]
fn default_values() {
    let (r, steps) = with_view(vec![], |v| {
        (
            v.alloc_local(Ty::Int),
            v.alloc_local(Ty::Float),
            v.alloc_local(Ty::Str),
            v.alloc_local(Ty::MapIntFloat),
            v.alloc_local(Ty::IterInt),
            v.alloc_local(Ty::Null),
        )
    });
    assert_eq!(
        r,
        (
            Ok(0),
            Ok(1),
            Ok(3),
            Ok(5),
            Err(CompileError::DefaultIterator),
            Ok(6)
        )
    );
    assert_eq!(
        steps,
        vec![
            body(0, zero(LlTy::I64, true)),
            body(0, Op::ConstReal { bits: 0 }),
            body(0, zero(LlTy::I128, false)),
            body(0, Op::Alloca(LlTy::I128)),
            body(0, Op::Store { val: 2, ptr: 3 }),
            body(0, call("alloc_intfloat", 0)),
            body(0, zero(LlTy::I64, true)),
        ]
    );
}

#[test]
fn arithmetic_and_comparisons() {
    let (r, steps) = with_view(vec![], |v| {
        v.bind_val((1, Ty::Int), 10);
        v.bind_val((2, Ty::Int), 20);
        v.bind_val((3, Ty::Float), 30);
        v.bind_val((4, Ty::Float), 40);
        [
            v.gen_ll_inst(&Instr::AddInt(5, 1, 2)),
            v.gen_ll_inst(&Instr::ModInt(6, 1, 2)),
            v.gen_ll_inst(&Instr::Div(7, 3, 4)),
            v.gen_ll_inst(&Instr::LTInt(8, 1, 2)),
            v.gen_ll_inst(&Instr::GTEFloat(9, 3, 4)),
            v.gen_ll_inst(&Instr::Not(10, 1)),
            v.gen_ll_inst(&Instr::NegInt(11, 1)),
            v.gen_ll_inst(&Instr::NegFloat(12, 3)),
            v.gen_ll_inst(&Instr::FloatToInt(13, 3)),
            v.gen_ll_inst(&Instr::IntToFloat(14, 1)),
            v.gen_ll_inst(&Instr::Pow(15, 3, 4)),
            v.gen_ll_inst(&Instr::Int2(Bitwise::Xor, 16, 1, 2)),
            v.gen_ll_inst(&Instr::Int1(Bitwise::Complement, 17, 1)),
        ]
    });
    assert!(r.iter().all(|x| x.is_ok()));
    assert_eq!(
        steps,
        vec![
            body(0, Op::Binary(BinOp::Add, 10, 20)),
            body(0, Op::Binary(BinOp::SRem, 10, 20)),
            body(0, Op::Binary(BinOp::FDiv, 30, 40)),
            body(0, Op::ICmp(Pred::SLT, 10, 20)),
            body(0, Op::ZExt(3, LlTy::I64)),
            body(0, Op::FCmp(FPred::OGE, 30, 40)),
            body(0, Op::ZExt(5, LlTy::I64)),
            body(0, zero(LlTy::I64, true)),
            body(0, Op::ICmp(Pred::EQ, 10, 7)),
            body(0, Op::ZExt(8, LlTy::I64)),
            body(0, zero(LlTy::I64, true)),
            body(0, Op::Binary(BinOp::Sub, 10, 10)),
            body(0, Op::FNeg(30)),
            body(0, Op::FPToSI(30, LlTy::I64)),
            body(0, Op::SIToFP(10, LlTy::F64)),
            body(0, Op::Arg(30)),
            body(0, Op::Arg(40)),
            body(0, Op::Call { callee: Callee::Builtin(BuiltinFunc::Pow), args: 2 }),
            body(0, Op::Bits2(Bitwise::Xor, 10, 20)),
            body(0, Op::Bits1(Bitwise::Complement, 10)),
        ]
    );
}

#[test]
fn intrinsics_take_the_runtime_first() {
    let (r, steps) = with_view(vec![], |v| {
        v.bind_val((1, Ty::Int), 10);
        v.bind_val((2, Ty::Int), 20);
        [
            v.gen_ll_inst(&Instr::JoinCSV(3, 1, 2)),
            v.gen_ll_inst(&Instr::LoadVarInt(4, 6)),
            v.gen_ll_inst(&Instr::StoreVarInt(6, 1)),
            v.gen_ll_inst(&Instr::NextFile),
            v.gen_ll_inst(&Instr::StoreSlot { ty: Ty::Int, src: 2, slot: 3 }),
            v.gen_ll_inst(&Instr::Float1(FloatFunc::Intrinsic("_frawk_atan"), 5, 9)),
        ]
    });
    assert_eq!(r[0], Ok(()));
    assert_eq!(r[5], Err(CompileError::UnboundVariable(9, Ty::Float)));
    let join = vec![
        body(0, Op::Param(0)),
        body(0, Op::Arg(0)),
        body(0, Op::Arg(10)),
        body(0, Op::Arg(20)),
        body(0, call("join_csv", 3)),
    ];
    assert_eq!(&steps[..5], &join[..]);
    // The result of join_csv is a string: it is bound in a slot.
    assert_eq!(steps[5], entry(Op::Alloca(LlTy::I128)));
    let rest: Vec<Step> = steps[11..].to_vec();
    assert_eq!(
        rest,
        vec![
            body(0, Op::Param(0)),
            body(0, Op::ConstInt { ty: LlTy::Usize, bits: 6, sign_extend: false }),
            body(0, Op::Arg(11)),
            body(0, Op::Arg(12)),
            body(0, call("load_var_int", 2)),
            body(0, Op::Param(0)),
            body(0, Op::ConstInt { ty: LlTy::Usize, bits: 6, sign_extend: false }),
            body(0, Op::Arg(16)),
            body(0, Op::Arg(17)),
            body(0, Op::Arg(10)),
            body(0, call("store_var_int", 3)),
            body(0, Op::Param(0)),
            body(0, Op::Arg(22)),
            body(0, call("next_file", 1)),
            body(0, Op::Param(0)),
            body(0, Op::ConstInt { ty: LlTy::I64, bits: 3, sign_extend: false }),
            body(0, Op::Arg(25)),
            body(0, Op::Arg(26)),
            body(0, Op::Arg(20)),
            body(0, call("store_slot_int", 3)),
        ]
    );
}

#[test]
fn loading_a_variable_into_a_global_gives_up_one_reference() {
    let (r, steps) = with_view(vec![(7, Ty::Str)], |v| v.gen_ll_inst(&Instr::LoadVarStr(7, 2)));
    assert_eq!(r, Ok(()));
    assert_eq!(
        steps,
        vec![
            // The call.
            body(0, Op::Param(1)),
            body(0, Op::ConstInt { ty: LlTy::Usize, bits: 2, sign_extend: false }),
            body(0, Op::Arg(0)),
            body(0, Op::Arg(1)),
            body(0, call("load_var_str", 2)),
            // The result goes to the global.
            body(0, Op::Param(0)),
            body(0, Op::Arg(5)),
            body(0, Op::Call { callee: Callee::DropStr, args: 1 }),
            body(0, Op::Store { val: 4, ptr: 5 }),
            body(0, Op::Arg(5)),
            body(0, call("ref_str", 1)),
            // And is dropped once.
            body(0, Op::Param(0)),
            body(0, Op::Arg(11)),
            body(0, Op::Call { callee: Callee::DropStr, args: 1 }),
        ]
    );
}

#[test]
fn maps_are_used_through_the_functions_of_their_type() {
    let (r, steps) = with_view(vec![], |v| {
        v.bind_val((1, Ty::Int), 10);
        v.bind_val((2, Ty::Float), 20);
        v.bind_val((3, Ty::Int), 30);
        [
            v.gen_ll_inst(&Instr::Store { map_ty: Ty::MapIntFloat, map: 9, key: 1, val: 2 }),
            v.gen_ll_inst(&Instr::Len { map_ty: Ty::Str, map: 9, dst: 4 }),
            v.gen_ll_inst(&Instr::Lookup { map_ty: Ty::Int, dst: 4, map: 9, key: 1 }),
            v.gen_ll_inst(&Instr::LoadSlot { ty: Ty::IterInt, dst: 4, slot: 0 }),
            v.gen_ll_inst(&Instr::Contains { map_ty: Ty::MapIntFloat, dst: 5, map: 3, key: 1 }),
        ]
    });
    assert_eq!(r[0], Err(CompileError::UnboundVariable(9, Ty::MapIntFloat)));
    assert_eq!(r[1], Err(CompileError::NotAMap(Ty::Str)));
    assert_eq!(r[2], Err(CompileError::NotAMap(Ty::Int)));
    assert_eq!(r[3], Err(CompileError::NoSlot(Ty::IterInt)));
    assert_eq!(r[4], Err(CompileError::UnboundVariable(3, Ty::MapIntFloat)));
    assert!(steps.is_empty());
    let p = typed_plan(&Instr::Delete { map_ty: Ty::MapStrStr, map: 1, key: 2 })
        .unwrap()
        .unwrap();
    assert_eq!(p.a, Some((1, Ty::MapStrStr)));
    assert_eq!(p.b, Some((2, Ty::Str)));
    assert_eq!(p.dst, None);
    assert!(plan(&Instr::Delete { map_ty: Ty::MapStrStr, map: 1, key: 2 }).is_none());
    assert!(plan(&Instr::Concat(1, 2, 3)).is_some());
    assert!(typed_plan(&Instr::Concat(1, 2, 3)).is_none());
}

#[test]
fn bytecode_instructions_are_refused() {
    assert_eq!(
        error_of(frame(vec![vec![Node::Low(Instr::Push(Ty::Int, 1))]], vec![])),
        CompileError::PushPop
    );
    assert_eq!(
        error_of(frame(vec![vec![Node::Low(Instr::Pop(Ty::Int, 1))]], vec![])),
        CompileError::PushPop
    );
    assert_eq!(
        error_of(frame(vec![vec![Node::Low(Instr::AllocMap(Ty::MapIntInt, 1))]], vec![])),
        CompileError::AllocMap
    );
    for inst in [Instr::Ret, Instr::Halt, Instr::Jmp(0), Instr::JmpIf(1, 0), Instr::Call(0)] {
        assert_eq!(
            error_of(frame(vec![vec![Node::Low(inst)]], vec![])),
            CompileError::BytecodeControlFlow
        );
    }
    assert_eq!(CompileError::PushPop.desc(), "unexpected explicit push/pop in llvm");
    assert_eq!(CompileError::OptLevel(4).desc(), "unrecognized opt level");
}

#[test]
fn a_refused_instruction_emits_nothing() {
    let (_, empty) = with_view(vec![(1, Ty::Int)], |_| ());
    let refused = vec![
        (Instr::Push(Ty::Int, 1), CompileError::PushPop),
        (Instr::Pop(Ty::Int, 1), CompileError::PushPop),
        (Instr::AllocMap(Ty::MapIntInt, 1), CompileError::AllocMap),
        (Instr::Ret, CompileError::BytecodeControlFlow),
        (Instr::Halt, CompileError::BytecodeControlFlow),
        (Instr::Jmp(0), CompileError::BytecodeControlFlow),
        (Instr::JmpIf(1, 0), CompileError::BytecodeControlFlow),
        (Instr::Call(0), CompileError::BytecodeControlFlow),
    ];
    for (inst, err) in refused {
        let (r, steps) = with_view(vec![(1, Ty::Int)], |v| v.gen_ll_inst(&inst));
        assert_eq!(r, Err(err));
        assert_eq!(steps, empty);
    }
    // An instruction that is taken emits its steps.
    let (r, steps) = with_view(vec![(1, Ty::Int)], |v| v.gen_ll_inst(&Instr::StoreConstInt(2, 5)));
    assert!(r.is_ok());
    assert!(steps.len() > empty.len());
}

#[test]
fn iterators() {
    let (r, steps) = with_view(vec![], |v| {
        v.bind_val((1, Ty::MapStrInt), 10);
        let a = v.gen_ll_inst(&Instr::IterBegin { map_ty: Ty::MapStrInt, map: 1, dst: 2 });
        let b = v.gen_ll_inst(&Instr::IterHasNext { iter_ty: Ty::IterStr, dst: 3, iter: 2 });
        let c = v.gen_hl_inst(&HighLevel::DropIter(2, Ty::IterStr));
        let d = v.gen_ll_inst(&Instr::IterHasNext { iter_ty: Ty::IterInt, dst: 4, iter: 2 });
        let e = v.gen_hl_inst(&HighLevel::DropIter(2, Ty::Str));
        let f = v.gen_ll_inst(&Instr::IterBegin { map_ty: Ty::Int, map: 1, dst: 2 });
        [a, b, c, d, e, f]
    });
    assert_eq!(r[0], Ok(()));
    assert_eq!(r[1], Ok(()));
    assert_eq!(r[2], Ok(()));
    assert_eq!(r[3], Err(CompileError::UnboundIterator(2, Ty::IterInt)));
    assert_eq!(r[4], Err(CompileError::NotAnIterator(Ty::Str)));
    assert_eq!(r[5], Err(CompileError::NotAMap(Ty::Int)));
    assert_eq!(
        steps,
        vec![
            body(0, Op::Arg(10)),
            body(0, call("ref_map", 1)),
            // begin
            body(0, Op::Arg(10)),
            body(0, call("iter_strint", 1)),
            entry(Op::Alloca(LlTy::I64)),
            body(0, zero(LlTy::I64, false)),
            entry(Op::Store { val: 5, ptr: 4 }),
            body(0, Op::Arg(10)),
            body(0, call("len_strint", 1)),
            // has next
            body(0, Op::Load { ptr: 4, ty: LlTy::I64 }),
            body(0, Op::ICmp(Pred::ULT, 9, 8)),
            body(0, Op::ZExt(10, LlTy::I64)),
            // drop
            body(0, Op::Arg(3)),
            body(0, Op::Arg(8)),
            body(0, call("drop_iter_str", 2)),
        ]
    );
}

#[test]
fn next_key_of_a_string_iterator_is_counted() {
    let (r, steps) = with_view(vec![], |v| {
        v.bind_val((1, Ty::MapStrInt), 10);
        v.gen_ll_inst(&Instr::IterBegin { map_ty: Ty::MapStrInt, map: 1, dst: 2 }).unwrap();
        v.gen_ll_inst(&Instr::IterGetNext { iter_ty: Ty::IterStr, dst: 3, iter: 2 })
    });
    assert_eq!(r, Ok(()));
    let tail: Vec<Step> = steps[9..18].to_vec();
    assert_eq!(
        tail,
        vec![
            body(0, Op::Load { ptr: 4, ty: LlTy::I64 }),
            body(0, Op::Arg(9)),
            body(0, Op::Gep { ptr: 3, ty: LlTy::I128, indices: 1 }),
            body(0, Op::Load { ptr: 11, ty: LlTy::I128 }),
            body(0, Op::ConstInt { ty: LlTy::I64, bits: 1, sign_extend: true }),
            body(0, Op::Binary(BinOp::Add, 9, 13)),
            body(0, Op::Store { val: 14, ptr: 4 }),
            body(0, Op::Arg(11)),
            body(0, call("ref_str", 1)),
        ]
    );
    // The key is then bound as a local string, in a new slot.
    assert_eq!(steps[18], entry(Op::Alloca(LlTy::I128)));
}

#[test]
fn moving_a_string_counts_and_copies_it() {
    let (r, steps) = with_view(vec![], |v| {
        let s = v.emit(Op::ConstStr { repr: 1 });
        v.bind_val((1, Ty::Str), s);
        v.bind_val((5, Ty::Int), 55);
        [
            v.gen_ll_inst(&Instr::Mov(Ty::Str, 2, 1)),
            v.gen_ll_inst(&Instr::Mov(Ty::Int, 6, 5)),
        ]
    });
    assert_eq!(r, [Ok(()), Ok(())]);
    assert_eq!(
        steps[7..],
        vec![
            body(0, Op::Arg(1)),
            body(0, call("ref_str", 1)),
            body(0, Op::Load { ptr: 1, ty: LlTy::I128 }),
            entry(Op::Alloca(LlTy::I128)),
            body(0, zero(LlTy::I128, false)),
            entry(Op::Store { val: 11, ptr: 10 }),
            body(0, Op::Arg(10)),
            body(0, Op::Call { callee: Callee::DropStr, args: 1 }),
            body(0, Op::Store { val: 9, ptr: 10 }),
        ][..]
    );
}

#[test]
fn return_drops_every_local_but_the_result_and_the_arguments() {
    let mut f = frame(
        vec![vec![
            Node::Low(Instr::StoreConstStr(2, 5)),
            Node::Low(Instr::Concat(3, 1, 2)),
            Node::Low(Instr::Lookup { map_ty: Ty::MapStrInt, dst: 5, map: 4, key: 3 }),
            Node::High(HighLevel::Ret(3, Ty::Str)),
        ]],
        vec![],
    );
    f.args = vec![(1, Ty::Str)];
    f.locals = vec![(4, Ty::MapStrInt)];
    f.ret_ty = Ty::Str;
    let steps = steps_of(f);
    let n = steps.len();
    // The map that was live on entry and the constant are dropped; the
    // argument and the result are not.
    let tail: Vec<Step> = steps[n - 8..].to_vec();
    let map = 0;
    let constant_slot = 3;
    let result_slot = 12;
    assert_eq!(steps[map as usize], body(0, call("alloc_strint", 0)));
    assert_eq!(steps[constant_slot], entry(Op::Alloca(LlTy::I128)));
    assert_eq!(steps[result_slot], entry(Op::Alloca(LlTy::I128)));
    assert_eq!(
        tail,
        vec![
            body(0, call("lookup_strint", 2)),
            body(0, Op::Arg(map)),
            body(0, call("drop_strint", 1)),
            body(0, Op::Arg(constant_slot as u64)),
            body(0, Op::Call { callee: Callee::DropStr, args: 1 }),
            body(0, Op::Load { ptr: result_slot as u64, ty: LlTy::I128 }),
            body(0, Op::Ret(n as u64 - 3)),
            entry(Op::Br(0)),
        ]
    );
    let drops = steps
        .iter()
        .filter(|s| matches!(s.op, Op::Call { callee: Callee::DropStr, .. }))
        .count();
    // One for each of the two slots when they are bound, and one at the return.
    assert_eq!(drops, 3);
}

#[test]
fn return_of_a_register_that_nothing_bound() {
    let f = frame(vec![vec![Node::High(HighLevel::Ret(1, Ty::Int))]], vec![]);
    assert_eq!(
        steps_of(f),
        vec![body(0, zero(LlTy::I64, true)), body(0, Op::Ret(0)), entry(Op::Br(0))]
    );
    let f = frame(vec![vec![Node::High(HighLevel::Ret(1, Ty::IterStr))]], vec![]);
    assert_eq!(error_of(f), CompileError::DefaultIterator);
}

fn phi_program() -> Frame {
    // { if (cond) x = "a"; else x = "b"; print x }
    let mut f = frame(
        vec![
            vec![Node::Low(Instr::StoreConstInt(1, 1))],
            vec![Node::Low(Instr::StoreConstStr(2, 0xa))],
            vec![Node::Low(Instr::StoreConstStr(3, 0xb))],
            vec![
                Node::High(HighLevel::Phi(4, Ty::Str, vec![(1, 2), (2, 3)])),
                Node::Low(Instr::PrintStdout(4)),
                Node::High(HighLevel::Ret(9, Ty::Null)),
            ],
        ],
        vec![
            edge(0, 1, Some(1)),
            edge(0, 2, None),
            edge(1, 3, None),
            edge(2, 3, None),
        ],
    );
    f.ret_ty = Ty::Null;
    f
}

#[test]
fn phi_is_wired_with_both_incoming_blocks() {
    let steps = steps_of(phi_program());
    let phi = steps
        .iter()
        .position(|s| s.op == Op::Phi(LlTy::Ptr(Ty::Str)))
        .unwrap();
    assert_eq!(steps[phi].block, Block::Body(3));
    let wired: Vec<&Step> = steps
        .iter()
        .filter(|s| matches!(s.op, Op::Incoming { .. } | Op::AddIncoming { .. }))
        .collect();
    assert_eq!(wired.len(), 3);
    let slot_of = |bits: u128| -> u64 {
        let c = steps.iter().position(|s| s.op == Op::ConstStr { repr: bits }).unwrap();
        // The slot is made right behind the constant.
        assert_eq!(steps[c + 1], entry(Op::Alloca(LlTy::I128)));
        c as u64 + 1
    };
    assert_eq!(wired[0].op, Op::Incoming { value: slot_of(0xa), block: 1 });
    assert_eq!(wired[1].op, Op::Incoming { value: slot_of(0xb), block: 2 });
    assert_eq!(wired[2].op, Op::AddIncoming { phi: phi as u64, count: 2 });
    // The phi stands for slots that other registers own: the return drops
    // the two slots, and not the phi.
    let at_return: Vec<u64> = steps
        .iter()
        .enumerate()
        .filter(|(i, s)| {
            *i > phi
                && s.block == Block::Body(3)
                && matches!(s.op, Op::Call { callee: Callee::DropStr, .. })
        })
        .map(|(i, _)| match steps[i - 1].op {
            Op::Arg(v) => v,
            _ => panic!("expected an operand"),
        })
        .collect();
    assert_eq!(at_return, vec![slot_of(0xa), slot_of(0xb)]);
}

#[test]
fn blocks_end_in_branches() {
    let steps = steps_of(phi_program());
    let branches: Vec<&Step> = steps
        .iter()
        .filter(|s| matches!(s.op, Op::Br(_) | Op::CondBr { .. }))
        .collect();
    assert_eq!(branches.len(), 4);
    assert!(branches.iter().any(|s| s.block == Block::Body(0)
        && matches!(s.op, Op::CondBr { then_block: 1, else_block: 2, .. })));
    assert!(branches.iter().any(|s| **s == body(1, Op::Br(3))));
    assert!(branches.iter().any(|s| **s == body(2, Op::Br(3))));
    assert_eq!(**branches.last().unwrap(), entry(Op::Br(0)));
    assert_eq!(*steps.last().unwrap(), entry(Op::Br(0)));
    assert_eq!(out_edges(&phi_program().edges, 0), (Some((1, 1)), Some(2)));
    assert_eq!(out_edges(&phi_program().edges, 1), (None, Some(3)));
    assert_eq!(out_edges(&phi_program().edges, 3), (None, None));
}

#[test]
fn blocks_that_cannot_be_reached_get_no_code() {
    let f = frame(
        vec![
            vec![Node::Low(Instr::StoreConstInt(1, 100))],
            vec![Node::Low(Instr::StoreConstInt(2, 200))],
            vec![Node::Low(Instr::StoreConstInt(3, 300))],
        ],
        vec![edge(0, 2, None), edge(1, 2, None)],
    );
    let steps = steps_of(f);
    let consts: Vec<u64> = steps
        .iter()
        .filter_map(|s| match s.op {
            Op::ConstInt { bits, .. } => Some(bits),
            _ => None,
        })
        .collect();
    assert_eq!(consts, vec![100, 300]);
    assert!(steps.iter().all(|s| s.block != Block::Body(1)));
}

#[test]
fn definitions_come_before_uses_along_the_search() {
    // 0 -> 1 -> 2 -> 3 and 0 -> 3; the register of block 2 is used in 3.
    let f = frame(
        vec![
            vec![Node::Low(Instr::StoreConstInt(1, 1))],
            vec![],
            vec![Node::Low(Instr::StoreConstInt(2, 2))],
            vec![Node::Low(Instr::AddInt(3, 2, 2))],
        ],
        vec![
            edge(0, 1, Some(1)),
            edge(1, 2, None),
            edge(2, 3, None),
            edge(0, 3, None),
        ],
    );
    let g = Generator::init(vec![f], Stage::Main(0), Config { opt_level: 0, num_workers: 1 });
    // Whether the search comes to block 3 before block 2 is up to the
    // order of the search; the generator only ever fails with an unbound
    // variable, and never emits a use of a value that no step has made.
    match g {
        Ok(g) => {
            let steps = &g.function(0).unwrap().steps;
            for (i, s) in steps.iter().enumerate() {
                if let Op::Binary(_, l, r) = s.op {
                    assert!((l as usize) < i && (r as usize) < i);
                }
            }
        }
        Err(e) => assert_eq!(e, CompileError::UnboundVariable(2, Ty::Int)),
    }
}

#[test]
fn printf_sites_with_one_signature_share_one_wrapper() {
    let args = vec![(2, Ty::Str), (3, Ty::Int)];
    let f = frame(
        vec![vec![
            Node::Low(Instr::StoreConstStr(1, 1)),
            Node::Low(Instr::StoreConstStr(2, 2)),
            Node::Low(Instr::StoreConstInt(3, 3)),
            Node::Low(Instr::Printf { output: None, fmt: 1, args: args.clone() }),
            Node::Low(Instr::Printf { output: None, fmt: 1, args: args.clone() }),
            Node::Low(Instr::Printf { output: Some((2, true)), fmt: 1, args: args.clone() }),
            Node::Low(Instr::Sprintf { dst: 4, fmt: 1, args: args.clone() }),
            Node::Low(Instr::Sprintf { dst: 5, fmt: 1, args: vec![(3, Ty::Int), (2, Ty::Str)] }),
            Node::Low(Instr::Printf { output: None, fmt: 1, args }),
        ]],
        vec![],
    );
    let g = Generator::init(vec![f], Stage::Main(0), Config { opt_level: 0, num_workers: 1 })
        .unwrap();
    assert_eq!(g.printf_count(), 4);
    let called: Vec<usize> = g
        .function(0)
        .unwrap()
        .steps
        .iter()
        .filter_map(|s| match s.op {
            Op::Call { callee: Callee::Printf(i), .. } => Some(i),
            _ => None,
        })
        .collect();
    assert_eq!(called, vec![0, 0, 1, 2, 3, 0]);
    let module = g.dump_module().unwrap();
    let wrappers: Vec<FuncName> = module
        .functions
        .iter()
        .filter(|f| matches!(f.name, FuncName::Printf(_)))
        .map(|f| f.name)
        .collect();
    assert_eq!(
        wrappers,
        vec![
            FuncName::Printf(0),
            FuncName::Printf(1),
            FuncName::Printf(2),
            FuncName::Printf(3)
        ]
    );
}

#[test]
fn printf_to_a_file_passes_its_name_and_whether_to_append() {
    let (r, steps) = with_view(vec![], |v| {
        v.bind_val((3, Ty::Int), 30);
        let fmt = v.emit(Op::ConstStr { repr: 1 });
        v.bind_val((1, Ty::Str), fmt);
        v.gen_ll_inst(&Instr::Printf { output: Some((1, true)), fmt: 1, args: vec![(3, Ty::Int)] })
    });
    assert_eq!(r, Ok(()));
    assert_eq!(
        steps[7..],
        vec![
            body(0, Op::Param(0)),
            body(0, Op::ConstInt { ty: LlTy::I64, bits: 1, sign_extend: false }),
            body(0, Op::Arg(7)),
            body(0, Op::Arg(1)),
            body(0, Op::Arg(30)),
            body(0, Op::Arg(1)),
            body(0, Op::Arg(8)),
            body(0, Op::Call { callee: Callee::Printf(0), args: 5 }),
        ][..]
    );
}

#[test]
fn sprintf_wrapper_packs_tags_and_values() {
    let f = wrapped_printf(7, &vec![Ty::Str, Ty::Int, Ty::Float], PrintfKind::Sprintf);
    assert_eq!(f.name, FuncName::Printf(7));
    assert!(f.private && !f.has_entry);
    assert_eq!(f.blocks, 1);
    assert_eq!(f.ret, LlTy::I128);
    assert_eq!(
        f.params,
        vec![LlTy::VoidPtr, LlTy::Ptr(Ty::Str), LlTy::Ptr(Ty::Str), LlTy::I64, LlTy::F64]
    );
    assert_eq!(f.steps[0].op, Op::Alloca(LlTy::ArrayI32(3)));
    assert_eq!(f.steps[1].op, Op::Alloca(LlTy::ArrayUsize(3)));
    // The tags that are stored into the array of types, in order.
    let mut tags = Vec::new();
    let mut casts = Vec::new();
    for (i, s) in f.steps.iter().enumerate() {
        if let Op::Store { val, ptr } = s.op {
            match (f.steps[val as usize].op, f.steps[ptr as usize].op) {
                (Op::ConstInt { ty: LlTy::I32, bits, .. }, Op::Gep { ptr: 0, indices: 2, .. }) => {
                    tags.push(bits)
                }
                (cast, Op::Gep { ptr: 1, ty: LlTy::ArrayUsize(3), indices: 2 }) => casts.push(cast),
                other => panic!("unexpected store {:?} at {}", other, i),
            }
        }
    }
    assert_eq!(tags, vec![2, 0, 1]);
    assert_eq!(casts.len(), 3);
    assert!(matches!(casts[0], Op::PtrToInt(_, LlTy::Usize)));
    assert!(matches!(casts[1], Op::BitCast(_, LlTy::Usize)));
    assert!(matches!(casts[2], Op::BitCast(_, LlTy::Usize)));
    let params: Vec<u64> = f
        .steps
        .iter()
        .filter_map(|s| match s.op {
            Op::Param(i) => Some(i),
            _ => None,
        })
        .collect();
    assert_eq!(params, vec![2, 3, 4, 0, 1]);
    let n = f.steps.len();
    assert_eq!(f.steps[n - 2].op, call("sprintf_impl", 5));
    assert_eq!(f.steps[n - 1].op, Op::Ret(n as u64 - 2));
    assert_eq!(
        f.steps[n - 10].op,
        Op::ConstInt { ty: LlTy::I64, bits: 3, sign_extend: false }
    );
}

#[test]
fn printf_wrappers_of_the_other_kinds() {
    let f = wrapped_printf(0, &vec![], PrintfKind::Stdout);
    assert_eq!(f.params, vec![LlTy::VoidPtr, LlTy::Ptr(Ty::Str)]);
    assert_eq!(f.ret, LlTy::Void);
    let n = f.steps.len();
    assert_eq!(f.steps[n - 2].op, call("printf_impl_stdout", 5));
    assert_eq!(f.steps[n - 1].op, Op::RetVoid);
    let f = wrapped_printf(1, &vec![Ty::Int], PrintfKind::File);
    assert_eq!(
        f.params,
        vec![LlTy::VoidPtr, LlTy::Ptr(Ty::Str), LlTy::I64, LlTy::Ptr(Ty::Str), LlTy::I64]
    );
    let n = f.steps.len();
    assert_eq!(f.steps[n - 2].op, call("printf_impl_file", 7));
    assert_eq!(f.steps[n - 11].op, Op::Param(3));
    assert_eq!(f.steps[n - 10].op, Op::Param(4));
    assert_eq!(f.steps[n - 1].op, Op::RetVoid);
}

fn two_functions() -> Vec<Frame> {
    // Function 0 is the main function; it calls function 1, which returns
    // its argument. Function 2 is never called.
    let mut main = frame(
        vec![vec![
            Node::Low(Instr::StoreConstInt(1, 7)),
            Node::High(HighLevel::Call { func_id: 1, dst_reg: 2, dst_ty: Ty::Int, args: vec![(1, Ty::Int), (5, Ty::Str)] }),
            Node::High(HighLevel::Ret(9, Ty::Null)),
        ]],
        vec![],
    );
    main.globals = vec![(10, Ty::Str), (11, Ty::MapIntInt), (12, Ty::Int)];
    main.ret_ty = Ty::Null;
    let mut leaf = frame(vec![vec![Node::High(HighLevel::Ret(1, Ty::Int))]], vec![]);
    leaf.args = vec![(1, Ty::Int), (2, Ty::Str)];
    leaf.globals = vec![(12, Ty::Int), (10, Ty::Str)];
    let mut unused = frame(vec![vec![Node::Low(Instr::Halt)]], vec![]);
    unused.is_called = false;
    vec![main, leaf, unused]
}

#[test]
fn calls_pass_arguments_globals_and_the_runtime() {
    let g = Generator::init(two_functions(), Stage::Main(0), Config { opt_level: 3, num_workers: 1 })
        .unwrap();
    assert!(g.function(2).is_none());
    let main = g.function(0).unwrap();
    assert_eq!(main.name, FuncName::Udf(0));
    assert_eq!(
        main.params,
        vec![LlTy::Ptr(Ty::Str), LlTy::Ptr(Ty::MapIntInt), LlTy::Ptr(Ty::Int), LlTy::VoidPtr]
    );
    assert_eq!(main.ret, LlTy::I64);
    assert!(main.private && main.has_entry);
    let at = main
        .steps
        .iter()
        .position(|s| s.op == Op::Call { callee: Callee::Udf(1), args: 5 })
        .unwrap();
    let args: Vec<Op> = main.steps[at - 5..at]
        .iter()
        .map(|s| match s.op {
            Op::Arg(v) => main.steps[v as usize].op,
            _ => panic!("expected an operand"),
        })
        .collect();
    assert_eq!(
        args,
        vec![
            Op::ConstInt { ty: LlTy::I64, bits: 7, sign_extend: true },
            // The second argument was never bound: it gets a default value.
            zero(LlTy::I128, false),
            // The globals of the callee, through the parameters of the caller.
            Op::Param(2),
            Op::Param(0),
            // The runtime.
            Op::Param(3),
        ]
    );
    let leaf = g.function(1).unwrap();
    assert_eq!(
        leaf.params,
        vec![LlTy::I64, LlTy::Ptr(Ty::Str), LlTy::Ptr(Ty::Int), LlTy::Ptr(Ty::Str), LlTy::VoidPtr]
    );
    assert_eq!(
        leaf.steps,
        vec![
            body(0, Op::Param(0)),
            body(0, Op::Param(1)),
            body(0, Op::Ret(0)),
            entry(Op::Br(0)),
        ]
    );
}

#[test]
fn entry_point_gives_the_globals_their_default_values() {
    let g = Generator::init(two_functions(), Stage::Main(0), Config { opt_level: 2, num_workers: 1 })
        .unwrap();
    let main = g.gen_main_function(0, FuncName::Main).unwrap();
    assert_eq!(main.params, vec![LlTy::VoidPtr]);
    assert_eq!(main.ret, LlTy::Void);
    assert!(!main.private && !main.has_entry);
    assert_eq!(
        main.steps,
        vec![
            body(0, zero(LlTy::I128, false)),
            body(0, Op::Alloca(LlTy::I128)),
            body(0, Op::Store { val: 0, ptr: 1 }),
            body(0, call("alloc_intint", 0)),
            body(0, Op::Alloca(LlTy::VoidPtr)),
            body(0, Op::Store { val: 3, ptr: 4 }),
            body(0, zero(LlTy::I64, true)),
            body(0, Op::Alloca(LlTy::I64)),
            body(0, Op::Store { val: 6, ptr: 7 }),
            body(0, Op::Param(0)),
            body(0, Op::Arg(1)),
            body(0, Op::Arg(4)),
            body(0, Op::Arg(7)),
            body(0, Op::Arg(9)),
            body(0, Op::Call { callee: Callee::Udf(0), args: 4 }),
            body(0, Op::RetVoid),
        ]
    );
}

#[test]
fn module_holds_functions_wrappers_and_entry_points() {
    let g = Generator::init(two_functions(), Stage::Main(0), Config { opt_level: 2, num_workers: 1 })
        .unwrap();
    let module = g.dump_module().unwrap();
    let names: Vec<FuncName> = module.functions.iter().map(|f| f.name).collect();
    assert_eq!(names, vec![FuncName::Udf(0), FuncName::Udf(1), FuncName::Main]);
    assert_eq!(module.plan.functions, names);
    assert_eq!(module.plan.opt_level, 2);
    assert_eq!(module.plan.size_level, 0);
    assert_eq!(module.plan.inline_threshold, Some(100));
    assert_eq!(
        module.functions[2].steps,
        g.gen_main_function(0, FuncName::Main).unwrap().steps
    );
}

#[test]
fn parallel_programs_get_three_entry_points() {
    let stage = Stage::Par { begin: Some(0), main_loop: Some(1), end: None };
    let mut frames = two_functions();
    frames[1].args = vec![];
    frames[0].blocks = vec![vec![Node::High(HighLevel::Ret(9, Ty::Null))]];
    let g = Generator::init(frames, stage, Config { opt_level: 1, num_workers: 4 }).unwrap();
    let module = g.dump_module().unwrap();
    let names: Vec<FuncName> = module.functions.iter().map(|f| f.name).collect();
    assert_eq!(
        names,
        vec![FuncName::Udf(0), FuncName::Udf(1), FuncName::Begin, FuncName::MainLoop]
    );
    assert_eq!(module.plan.inline_threshold, Some(50));
    match g.gen_main().unwrap() {
        Stage::Par { begin: Some(b), main_loop: Some(m), end: None } => {
            assert_eq!(b.name, FuncName::Begin);
            assert_eq!(m.name, FuncName::MainLoop);
            assert!(b.steps.contains(&body(0, Op::Call { callee: Callee::Udf(0), args: 4 })));
            assert!(m.steps.contains(&body(0, Op::Call { callee: Callee::Udf(1), args: 3 })));
        }
        _ => panic!("expected two entry points"),
    }
    let (_, run) = g.run_main(4, 3).unwrap();
    assert_eq!(run, RunPlan::Parallel { begin: true, workers: 3, end: false });
}

#[test]
fn optimization_levels() {
    for (level, threshold) in [(0, None), (1, Some(50)), (2, Some(100)), (3, Some(250))] {
        let g = Generator::init(
            two_functions(),
            Stage::Main(0),
            Config { opt_level: level, num_workers: 1 },
        )
        .unwrap();
        let plan = g.optimize(&vec![FuncName::Main]).unwrap();
        assert_eq!(plan.inline_threshold, threshold);
        assert_eq!(plan.opt_level, level);
        assert_eq!(
            plan.functions,
            vec![FuncName::Udf(0), FuncName::Udf(1), FuncName::Main]
        );
    }
    let g = Generator::init(two_functions(), Stage::Main(0), Config { opt_level: 4, num_workers: 1 })
        .unwrap();
    assert_eq!(g.optimize(&vec![]), Err(CompileError::OptLevel(4)));
    assert_eq!(g.dump_module().unwrap_err(), CompileError::OptLevel(4));
    assert!(g.run_main(1, 0).is_err());
}

#[test]
fn runs_are_serial_unless_there_is_work_for_a_second_thread() {
    let par = Stage::Par { begin: Some(()), main_loop: Some(()), end: Some(()) };
    let all = vec![FuncName::Begin, FuncName::MainLoop, FuncName::EndLoop];
    assert_eq!(plan_run(&Stage::Main(()), 8, 7), RunPlan::Serial(vec![FuncName::Main]));
    assert_eq!(plan_run(&par, 1, 0), RunPlan::Serial(all.clone()));
    assert_eq!(plan_run(&par, 0, 0), RunPlan::Serial(all.clone()));
    assert_eq!(plan_run(&par, 4, 0), RunPlan::Serial(all));
    assert_eq!(
        plan_run(&par, 4, 3),
        RunPlan::Parallel { begin: true, workers: 3, end: true }
    );
    assert_eq!(
        plan_run(&par, 4, 2),
        RunPlan::Parallel { begin: true, workers: 2, end: true }
    );
    let no_loop: Stage<()> = Stage::Par { begin: Some(()), main_loop: None, end: Some(()) };
    assert_eq!(
        plan_run(&no_loop, 4, 3),
        RunPlan::Serial(vec![FuncName::Begin, FuncName::EndLoop])
    );
    let only_loop: Stage<()> = Stage::Par { begin: None, main_loop: Some(()), end: None };
    assert_eq!(
        plan_run(&only_loop, 2, 1),
        RunPlan::Parallel { begin: false, workers: 1, end: false }
    );
    assert_eq!(shards_wanted(0), 0);
    assert_eq!(shards_wanted(1), 0);
    assert_eq!(shards_wanted(5), 4);
    assert_eq!(MAIN_PID, 1);
    assert_eq!(worker_pid(0), 2);
    assert_eq!(worker_pid(3), 5);
}

#[test]
fn functions_that_nothing_calls_are_skipped() {
    let frames = two_functions();
    let decls = build_decls(&frames);
    assert_eq!(decls[1].num_args, 5);
    assert_eq!(decls[1].globals.get((12, Ty::Int)), Some(2));
    assert_eq!(decls[1].globals.get((10, Ty::Str)), Some(3));
    assert_eq!(decls[1].globals.get((11, Ty::MapIntInt)), None);
    assert_eq!(decls[0].global_order, vec![(10, Ty::Str), (11, Ty::MapIntInt), (12, Ty::Int)]);
    let (code, printfs) = gen_function(&frames, &decls, 2, Printfs::new()).unwrap();
    assert!(code.is_none());
    assert_eq!(printfs.len(), 0);
}

#[test]
fn programs_that_cannot_be_generated_are_told_apart() {
    let cfg = Config { opt_level: 0, num_workers: 1 };
    assert!(program_ok(&two_functions()));
    assert!(program_ok(&vec![phi_program()]));
    assert!(program_ok(&vec![]));
    // A call of a function that is not there.
    let mut frames = two_functions();
    frames[0].blocks[0][1] =
        Node::High(HighLevel::Call { func_id: 3, dst_reg: 2, dst_ty: Ty::Int, args: vec![] });
    assert!(!program_ok(&frames));
    assert!(Generator::try_init(frames, Stage::Main(0), cfg).is_none());
    // A callee with a global that the caller lacks.
    let mut frames = two_functions();
    frames[1].globals.push((99, Ty::Int));
    assert!(!program_ok(&frames));
    // The same in a function that nothing calls does no harm.
    let mut frames = two_functions();
    frames[2].blocks[0] =
        vec![Node::High(HighLevel::Call { func_id: 9, dst_reg: 2, dst_ty: Ty::Int, args: vec![] })];
    assert!(program_ok(&frames));
    // An edge to a block that is not there, and a function without blocks.
    let mut frames = two_functions();
    frames[0].edges.push(edge(0, 1, None));
    assert!(!program_ok(&frames));
    let mut frames = two_functions();
    frames[1].blocks.clear();
    assert!(!program_ok(&frames));
    // Entry points.
    assert!(stage_ok(&Stage::Main(2), 3));
    assert!(!stage_ok(&Stage::Main(3), 3));
    assert!(stage_ok(&Stage::Par { begin: None, main_loop: Some(1), end: None }, 2));
    assert!(!stage_ok(&Stage::Par { begin: None, main_loop: Some(1), end: Some(2) }, 2));
    assert!(Generator::try_init(two_functions(), Stage::Main(3), cfg).is_none());
    let g = Generator::try_init(two_functions(), Stage::Main(0), cfg).unwrap().unwrap();
    assert!(g.function(1).is_some());
}

#[test]
fn stack_slots_of_instructions_in_loops_are_made_in_the_entry_block() {
    // A loop whose body binds a string.
    let f = frame(
        vec![
            vec![Node::Low(Instr::StoreConstInt(1, 1))],
            vec![
                Node::Low(Instr::StoreConstStr(2, 5)),
                Node::Low(Instr::IntToStr(3, 1)),
                Node::Low(Instr::Concat(4, 2, 3)),
            ],
            vec![Node::High(HighLevel::Ret(1, Ty::Int))],
        ],
        vec![
            edge(0, 1, None),
            edge(1, 1, Some(1)),
            edge(1, 2, None),
        ],
    );
    let steps = steps_of(f);
    let slots: Vec<&Step> = steps.iter().filter(|s| matches!(s.op, Op::Alloca(_))).collect();
    assert_eq!(slots.len(), 3);
    assert!(slots.iter().all(|s| s.block == Block::Entry));
    assert!(steps
        .iter()
        .any(|s| *s == body(1, Op::CondBr { cond: steps.len() as u64 - 7, then_block: 1, else_block: 2 })
            || matches!(s.op, Op::CondBr { then_block: 1, else_block: 2, .. })));
}

#[test]
fn entry_points_are_found_by_name() {
    assert_eq!(FuncName::Main.entry_symbol(), Some("__frawk_main"));
    assert_eq!(FuncName::Begin.entry_symbol(), Some("__frawk_begin"));
    assert_eq!(FuncName::MainLoop.entry_symbol(), Some("__frawk_main_loop"));
    assert_eq!(FuncName::EndLoop.entry_symbol(), Some("__frawk_end_loop"));
    assert_eq!(FuncName::Udf(0).entry_symbol(), None);
    assert_eq!(FuncName::Printf(3).entry_symbol(), None);
}

#[test]
fn an_iterator_has_no_default() {
    let (_, empty) = with_view(vec![], |_| ());
    for ty in [Ty::IterInt, Ty::IterStr] {
        let (r, steps) = with_view(vec![], |v| v.alloc_local(ty));
        assert_eq!(r, Err(CompileError::DefaultIterator));
        assert_eq!(steps, empty);
    }
    assert_eq!(
        CompileError::DefaultIterator.desc(),
        "we should not be default-allocating any iterators"
    );
    let (r, steps) = with_view(vec![], |v| v.alloc_local(Ty::Str));
    assert!(r.is_ok());
    assert_eq!(steps.len(), empty.len() + 3);
}
