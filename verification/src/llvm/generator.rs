//! The code generator for a whole program.
use vstd::prelude::*;
use super::graph::dfs_walk;
use super::ir::{CompileError, Frame, HighLevel, Node, Reg, Stage, Ty};
use super::model;
use super::model::{Env, PrintfKind, Sig};
use super::ops::{
    base_ty, llvm_ty, Callee, Code, FuncName, FunctionCode, LlTy, Op, Step, Value,
};
use super::tables::RegMap;
use super::view::{decls_view, gen_function_in, FuncInfo, FunctionView, Printfs};

verus! {

/// The element `index` of the array `array` of type `ty`.
fn element(view: &mut FunctionView, array: Value, ty: LlTy, zero: Value, index: Value) -> (v:
    Value)
    ensures
        final(view).env() == old(view).env(),
        (final(view).state(), v) == model::element(old(view).state(), array, ty, zero, index),
{
    view.emit(Op::Arg(zero));
    view.emit(Op::Arg(index));
    view.emit(Op::Gep { ptr: array, ty, indices: 2 })
}

/// The printf wrapper with the number `ix`, for arguments of the types
/// `tys` and for the kind `kind`.
///
/// A call with arguments of many types is packed for the runtime: the
/// wrapper puts the tags of the types and the values of the arguments into
/// two arrays on its stack, and hands these to the one function that the
/// runtime has for the kind.
pub fn wrapped_printf(ix: usize, tys: &Vec<Ty>, kind: PrintfKind) -> (f: FunctionCode)
    ensures
        f.name == FuncName::Printf(ix),
        f.params@ == model::wrapper_params((tys@, kind)),
        f.ret == model::wrapper_ret((tys@, kind)),
        f.private,
        !f.has_entry,
        f.blocks == 1,
        f.steps@ == model::wrapper((tys@, kind)).steps,
{
    let n = tys.len();
    // The signature: the runtime, the format, the arguments, and for a
    // file its name and whether to append.
    let mut params: Vec<LlTy> = Vec::new();
    params.push(LlTy::VoidPtr);
    params.push(LlTy::Ptr(Ty::Str));
    let ghost head = params@;
    let mut i: usize = 0;
    while i < n
        invariant
            i <= n,
            n == tys@.len(),
            head == seq![LlTy::VoidPtr, LlTy::Ptr(Ty::Str)],
            params@ == head + Seq::new(i as nat, |k: int| super::ops::spec_llvm_ty(tys@[k])),
        decreases n - i,
    {
        params.push(llvm_ty(tys[i]));
        assert(params@ =~= head + Seq::new(
            (i + 1) as nat,
            |k: int| super::ops::spec_llvm_ty(tys@[k]),
        ));
        i += 1;
    }
    if let PrintfKind::File = kind {
        params.push(LlTy::Ptr(Ty::Str));
        params.push(LlTy::I64);
    }
    proof {
        assert(params@ =~= model::wrapper_params((tys@, kind)));
    }
    let arity = params.len();
    assert(arity >= n + 2 && (kind is File ==> arity == n + 4));
    let ret = match kind {
        PrintfKind::File | PrintfKind::Stdout => LlTy::Void,
        PrintfKind::Sprintf => LlTy::I128,
    };
    let none: Vec<FuncInfo> = Vec::new();
    let mut view = FunctionView::bare(&none);
    // The arrays for the types of the arguments and for their values.
    let types_array = view.emit(Op::Alloca(LlTy::ArrayI32(n)));
    let args_array = view.emit(Op::Alloca(LlTy::ArrayUsize(n)));
    let zero = view.const_int(LlTy::I32, 0, false);
    let mut i: usize = 0;
    proof {
        assert(tys@.skip(0) =~= tys@);
    }
    let ghost s3 = view.state();
    while i < n
        invariant
            i <= n,
            n == tys@.len(),
            n + 2 <= usize::MAX,
            model::wrapper_args(s3, tys@, 0, n, types_array, args_array, zero)
                == model::wrapper_args(
                view.state(),
                tys@.skip(i as int),
                i as nat,
                n,
                types_array,
                args_array,
                zero,
            ),
        decreases n - i,
    {
        proof {
            assert(tys@.skip(i as int).drop_first() =~= tys@.skip(i + 1));
            assert(tys@.skip(i as int)[0] == tys@[i as int]);
        }
        let t = tys[i];
        let index = view.const_int(LlTy::I32, i as u64, false);
        // The tag of the type.
        let ty_ptr = element(&mut view, types_array, LlTy::ArrayI32(n), zero, index);
        let tval = view.const_int(LlTy::I32, t.tag() as u64, false);
        view.emit(Op::Store { val: tval, ptr: ty_ptr });
        // The value, as wide as a pointer.
        let arg_ptr = element(&mut view, args_array, LlTy::ArrayUsize(n), zero, index);
        let argval = view.emit(Op::Param((i + 2) as u64));
        let cast_val = if let Ty::Str = t {
            view.emit(Op::PtrToInt(argval, LlTy::Usize))
        } else {
            view.emit(Op::BitCast(argval, LlTy::Usize))
        };
        view.emit(Op::Store { val: cast_val, ptr: arg_ptr });
        i += 1;
    }
    let args_ptr = element(&mut view, args_array, LlTy::ArrayUsize(n), zero, zero);
    let tys_ptr = element(&mut view, types_array, LlTy::ArrayI32(n), zero, zero);
    let len_v = view.const_int(LlTy::I64, n as u64, false);
    let rt = view.emit(Op::Param(0));
    let spec = view.emit(Op::Param(1));
    let mut args: Vec<Value> = Vec::new();
    args.push(rt);
    args.push(spec);
    args.push(args_ptr);
    args.push(tys_ptr);
    args.push(len_v);
    let ghost five = seq![rt, spec, args_ptr, tys_ptr, len_v];
    proof {
        assert(args@ =~= five);
    }
    match kind {
        PrintfKind::File => {
            let output = view.emit(Op::Param((n + 2) as u64));
            let append = view.emit(Op::Param((n + 3) as u64));
            args.push(output);
            args.push(append);
            proof {
                assert(args@ =~= five + seq![output, append]);
            }
            view.call("printf_impl_file", &args);
            view.emit(Op::RetVoid);
        },
        PrintfKind::Stdout => {
            view.call("printf_impl_stdout", &args);
            view.emit(Op::RetVoid);
        },
        PrintfKind::Sprintf => {
            let resv = view.call("sprintf_impl", &args);
            view.emit(Op::Ret(resv));
        },
    }
    let (steps, _) = view.finish();
    FunctionCode {
        name: FuncName::Printf(ix),
        params,
        ret,
        private: true,
        has_entry: false,
        blocks: 1,
        steps,
    }
}

/// What is known of the function `frame` before code is generated.
fn build_decl(frame: &Frame) -> (info: FuncInfo)
    requires
        frame.args@.len() + frame.globals@.len() < usize::MAX,
    ensures
        info@ == model::decl_of(*frame),
{
    let n_args = frame.args.len();
    let mut globals = RegMap::new();
    let mut order: Vec<Reg> = Vec::new();
    let mut j: usize = 0;
    proof {
        assert(frame.globals@.take(0) =~= Seq::<Reg>::empty());
    }
    while j < frame.globals.len()
        invariant
            j <= frame.globals@.len(),
            n_args == frame.args@.len(),
            frame.args@.len() + frame.globals@.len() < usize::MAX,
            order@ == frame.globals@.take(j as int),
            globals@ == model::global_params(frame.globals@.take(j as int), n_args as nat),
        decreases frame.globals@.len() - j,
    {
        proof {
            assert(frame.globals@.take(j + 1).drop_last() =~= frame.globals@.take(j as int));
            assert(frame.globals@.take(j + 1).last() == frame.globals@[j as int]);
        }
        // The globals come behind the arguments.
        globals.insert(frame.globals[j], (n_args + j) as u64);
        order.push(frame.globals[j]);
        assert(order@ =~= frame.globals@.take(j + 1));
        j += 1;
    }
    proof {
        assert(frame.globals@.take(j as int) =~= frame.globals@);
    }
    // The runtime comes last.
    FuncInfo {
        called: frame.is_called,
        globals,
        global_order: order,
        num_args: n_args + frame.globals.len() + 1,
    }
}

/// What is known of each function of the program before code is generated
/// for any of them: through which parameter each of its globals comes, and
/// how many parameters it has.
pub fn build_decls(frames: &Vec<Frame>) -> (decls: Vec<FuncInfo>)
    requires
        forall|i: int|
            0 <= i < frames@.len() ==> (#[trigger] frames@[i]).args@.len()
                + frames@[i].globals@.len() < usize::MAX,
    ensures
        decls_view(decls@) == model::decls_of(frames@),
{
    let mut decls: Vec<FuncInfo> = Vec::new();
    let mut i: usize = 0;
    while i < frames.len()
        invariant
            i <= frames@.len(),
            forall|i: int|
                0 <= i < frames@.len() ==> (#[trigger] frames@[i]).args@.len()
                    + frames@[i].globals@.len() < usize::MAX,
            decls@.len() == i,
            forall|k: int| 0 <= k < i ==> (#[trigger] decls@[k])@ == model::decl_of(frames@[k]),
        decreases frames@.len() - i,
    {
        decls.push(build_decl(&frames[i]));
        i += 1;
    }
    proof {
        assert(decls_view(decls@) =~= model::decls_of(frames@));
    }
    decls
}

/// The types of the parameters of the function `frame`.
fn frame_params(frame: &Frame) -> (params: Vec<LlTy>)
    ensures
        params@ == model::frame_params(*frame),
{
    let mut params: Vec<LlTy> = Vec::new();
    let mut i: usize = 0;
    while i < frame.args.len()
        invariant
            i <= frame.args@.len(),
            params@ == Seq::new(i as nat, |k: int| super::ops::spec_llvm_ty(frame.args@[k].1)),
        decreases frame.args@.len() - i,
    {
        params.push(llvm_ty(frame.args[i].1));
        assert(params@ =~= Seq::new(
            (i + 1) as nat,
            |k: int| super::ops::spec_llvm_ty(frame.args@[k].1),
        ));
        i += 1;
    }
    let ghost head = params@;
    let mut j: usize = 0;
    proof {
        assert(params@ =~= head + Seq::new(0, |k: int| LlTy::Ptr(frame.globals@[k].1)));
    }
    while j < frame.globals.len()
        invariant
            j <= frame.globals@.len(),
            params@ == head + Seq::new(j as nat, |k: int| LlTy::Ptr(frame.globals@[k].1)),
        decreases frame.globals@.len() - j,
    {
        params.push(LlTy::Ptr(frame.globals[j].1));
        assert(params@ =~= head + Seq::new(
            (j + 1) as nat,
            |k: int| LlTy::Ptr(frame.globals@[k].1),
        ));
        j += 1;
    }
    let ghost mid = params@;
    params.push(LlTy::VoidPtr);
    proof {
        assert(params@ =~= mid + seq![LlTy::VoidPtr]);
    }
    params
}

/// The code of the function `id` of the program `frames`, and the printf
/// wrappers after it. The blocks are lowered in the order in which a
/// depth-first search comes to them.
pub fn gen_function(frames: &Vec<Frame>, decls: &Vec<FuncInfo>, id: usize, printfs: Printfs) -> (r:
    Result<(Option<FunctionCode>, Printfs), CompileError>)
    requires
        id < frames@.len(),
        decls_view(decls@) == model::decls_of(frames@),
        model::frame_ok(frames@, id as int),
    ensures
        match model::gen_frame(frames@, id as int, printfs@) {
            Ok((code, sigs)) => r matches Ok(done) && done.1@ == sigs && match (done.0, code) {
                (Some(f), Some(c)) => f@ == c,
                (None, None) => true,
                _ => false,
            },
            Err(e) => r matches Err(err) && err == e,
        },
{
    let frame = &frames[id];
    if !frame.is_called {
        return Ok((None, printfs));
    }
    let order = if frame.edges.len() == 0 {
        let mut order: Vec<usize> = Vec::new();
        order.push(0);
        assert(order@ =~= seq![0usize]);
        order
    } else {
        dfs_walk(&frame.edges)
    };
    proof {
        assert(decls_view(decls@).len() == frames@.len());
        assert(decls@[id as int]@ == model::decl_of(*frame));
        let env = Env { decls: decls_view(decls@), id: id as int };
        assert forall|k: int| 0 <= k < order@.len() implies (#[trigger] order@[k])
            < frame.blocks@.len() && model::calls_fit(env, frame.blocks@[order@[k] as int]@) by {
            if frame.edges@.len() > 0 && order@[k] != 0 {
                let j = choose|j: int|
                    0 <= j < frame.edges@.len() && order@[k] == (#[trigger] frame.edges@[j]).to;
                assert(frame.edges@[j].to < frame.blocks@.len());
            }
        }
    }
    match gen_function_in(decls, id, frame, &order, printfs) {
        Ok((steps, printfs)) => Ok(
            (
                Some(
                    FunctionCode {
                        name: FuncName::Udf(id),
                        params: frame_params(frame),
                        ret: base_ty(frame.ret_ty),
                        private: true,
                        has_entry: true,
                        blocks: frame.blocks.len(),
                        steps,
                    },
                ),
                printfs,
            ),
        ),
        Err(e) => Err(e),
    }
}

/// What the generator is asked for.
#[derive(Clone, Copy, PartialEq, Eq, Debug, Structural)]
pub struct Config {
    /// The optimization level, from 0 to 3.
    pub opt_level: usize,
    /// The number of threads to run the main loop on.
    pub num_workers: usize,
}

/// What the optimizer is to do.
#[derive(Clone, PartialEq, Eq, Debug)]
pub struct OptPlan {
    pub opt_level: usize,
    pub size_level: usize,
    /// How much the inliner may inline, if it runs at all.
    pub inline_threshold: Option<u32>,
    /// The functions to run the function passes on, in order; the module
    /// passes follow.
    pub functions: Vec<FuncName>,
}

/// How a program is run.
#[derive(Clone, PartialEq, Eq, Debug)]
pub enum RunPlan {
    /// The entry points run one after the other, on one thread.
    Serial(Vec<FuncName>),
    /// The first phase runs if the program has one (`begin`); then the
    /// main loop runs once on each of `workers` threads, numbered as
    /// `worker_pid` says, and once on the main thread, numbered
    /// `MAIN_PID`; their results are combined as they arrive; then the last
    /// phase runs if the program has one (`end`).
    Parallel { begin: bool, workers: usize, end: bool },
}

impl View for RunPlan {
    type V = model::Run;

    open spec fn view(&self) -> model::Run {
        match self {
            RunPlan::Serial(names) => model::Run::Serial(names@),
            RunPlan::Parallel { begin, workers, end } => model::Run::Parallel {
                begin: *begin,
                workers: *workers as nat,
                end: *end,
            },
        }
    }
}

/// The number under which the main thread runs the main loop of a
/// parallel run.
pub const MAIN_PID: i64 = 1;

/// The number under which worker `i` of a parallel run runs the main
/// loop.
pub fn worker_pid(i: usize) -> (r: i64)
    requires
        i <= i64::MAX - 2,
    ensures
        r == model::worker_pid(i as nat),
        r > MAIN_PID,
{
    (i as i64) + 2
}

/// The number of parts into which the input is split for the threads
/// besides the main one.
pub fn shards_wanted(num_workers: usize) -> (r: usize)
    ensures
        r == if num_workers == 0 {
            0
        } else {
            num_workers - 1
        },
{
    if num_workers == 0 {
        0
    } else {
        num_workers - 1
    }
}

/// How the entry points `stage` are run with `num_workers` workers, where
/// the input was split into `shards` parts.
pub fn plan_run<T>(stage: &Stage<T>, num_workers: usize, shards: usize) -> (r: RunPlan)
    ensures
        r@ == model::run_of(*stage, num_workers, shards),
{
    match stage {
        Stage::Main(_) => {
            let mut names: Vec<FuncName> = Vec::new();
            names.push(FuncName::Main);
            assert(names@ =~= seq![FuncName::Main]);
            RunPlan::Serial(names)
        },
        Stage::Par { begin, main_loop, end } => {
            if num_workers <= 1 || shards == 0 || main_loop.is_none() {
                // Run the phases one after the other.
                let mut names: Vec<FuncName> = Vec::new();
                if begin.is_some() {
                    names.push(FuncName::Begin);
                }
                if main_loop.is_some() {
                    names.push(FuncName::MainLoop);
                }
                if end.is_some() {
                    names.push(FuncName::EndLoop);
                }
                assert(names@ =~= model::stage_names(*stage));
                RunPlan::Serial(names)
            } else {
                RunPlan::Parallel { begin: begin.is_some(), workers: shards, end: end.is_some() }
            }
        },
    }
}

/// The generated code of a program, ready for the backend.
#[derive(Clone, PartialEq, Eq, Debug)]
pub struct Module {
    /// The functions of the program that are called, the printf wrappers,
    /// and the entry points, in this order.
    pub functions: Vec<FunctionCode>,
    /// What the optimizer is to do.
    pub plan: OptPlan,
}

/// The code generator for a program.
pub struct Generator {
    frames: Vec<Frame>,
    stage: Stage<usize>,
    decls: Vec<FuncInfo>,
    funcs: Vec<Option<FunctionCode>>,
    printfs: Printfs,
    cfg: Config,
}

/// The code of the functions `funcs`, with sequences in the place of
/// vectors.
pub open spec fn codes_of(funcs: Seq<Option<FunctionCode>>) -> Seq<Option<Code>> {
    Seq::new(
        funcs.len(),
        |i: int|
            match funcs[i] {
                Some(f) => Some(f@),
                None => None,
            },
    )
}

impl Generator {
    /// The functions of the program.
    pub closed spec fn frames(&self) -> Seq<Frame> {
        self.frames@
    }

    /// The entry points of the program.
    pub closed spec fn stage(&self) -> Stage<usize> {
        self.stage
    }

    /// The code of each function of the program that is called.
    pub closed spec fn codes(&self) -> Seq<Option<Code>> {
        codes_of(self.funcs@)
    }

    /// The signatures of the printf wrappers.
    pub closed spec fn sigs(&self) -> Seq<Sig> {
        self.printfs@
    }

    /// What the generator was asked for.
    pub closed spec fn cfg(&self) -> Config {
        self.cfg
    }

    /// The generator knows of each function what its declaration says, and
    /// the entry points are functions of the program.
    pub closed spec fn wf(&self) -> bool {
        &&& decls_view(self.decls@) == model::decls_of(self.frames@)
        &&& self.funcs@.len() == self.frames@.len()
        &&& model::stage_ok(self.stage, self.frames@.len())
    }

    /// Generates the code of all functions of the program `frames`, in
    /// order. Generation stops at the first error.
    pub fn init(frames: Vec<Frame>, stage: Stage<usize>, cfg: Config) -> (r: Result<
        Generator,
        CompileError,
    >)
        requires
            model::program_ok(frames@),
            model::stage_ok(stage, frames@.len()),
        ensures
            match model::gen_frames(frames@, 0, Seq::empty(), Seq::empty()) {
                Ok((codes, sigs)) => r matches Ok(g) && g.wf() && g.frames() == frames@
                    && g.stage() == stage && g.cfg() == cfg && g.codes() == codes && g.sigs()
                    == sigs,
                Err(e) => r matches Err(err) && err == e,
            },
    {
        proof {
            assert forall|i: int| 0 <= i < frames@.len() implies (#[trigger] frames@[i]).args@.len()
                + frames@[i].globals@.len() < usize::MAX by {
                assert(model::frame_ok(frames@, i));
            }
        }
        let decls = build_decls(&frames);
        let mut funcs: Vec<Option<FunctionCode>> = Vec::new();
        let mut printfs = Printfs::new();
        let mut i: usize = 0;
        proof {
            assert(codes_of(funcs@) =~= Seq::<Option<Code>>::empty());
        }
        while i < frames.len()
            invariant
                i <= frames@.len(),
                funcs@.len() == i,
                model::program_ok(frames@),
                decls_view(decls@) == model::decls_of(frames@),
                model::gen_frames(frames@, 0, Seq::empty(), Seq::empty()) == model::gen_frames(
                    frames@,
                    i as int,
                    codes_of(funcs@),
                    printfs@,
                ),
            decreases frames@.len() - i,
        {
            proof {
                assert(model::frame_ok(frames@, i as int));
            }
            let ghost before = codes_of(funcs@);
            let ghost sigs = printfs@;
            match gen_function(&frames, &decls, i, printfs) {
                Ok((code, next)) => {
                    funcs.push(code);
                    printfs = next;
                    proof {
                        let c = model::gen_frame(frames@, i as int, sigs)->Ok_0.0;
                        assert(codes_of(funcs@) =~= before.push(c));
                    }
                },
                Err(e) => {
                    return Err(e);
                },
            }
            i += 1;
        }
        Ok(Generator { frames, stage, decls, funcs, printfs, cfg })
    }
}

/// A function with the same signature and the same steps.
fn copy_code(f: &FunctionCode) -> (r: FunctionCode)
    ensures
        r@ == f@,
{
    let mut params: Vec<LlTy> = Vec::new();
    let mut i: usize = 0;
    while i < f.params.len()
        invariant
            i <= f.params@.len(),
            params@ == f.params@.take(i as int),
        decreases f.params@.len() - i,
    {
        params.push(f.params[i]);
        assert(params@ =~= f.params@.take(i + 1));
        i += 1;
    }
    let mut steps: Vec<Step> = Vec::new();
    let mut j: usize = 0;
    while j < f.steps.len()
        invariant
            j <= f.steps@.len(),
            steps@ == f.steps@.take(j as int),
        decreases f.steps@.len() - j,
    {
        steps.push(f.steps[j]);
        assert(steps@ =~= f.steps@.take(j + 1));
        j += 1;
    }
    proof {
        assert(f.params@.take(i as int) =~= f.params@);
        assert(f.steps@.take(j as int) =~= f.steps@);
    }
    FunctionCode {
        name: f.name,
        params,
        ret: f.ret,
        private: f.private,
        has_entry: f.has_entry,
        blocks: f.blocks,
        steps,
    }
}

/// The views of the functions `fs`.
pub open spec fn views_of(fs: Seq<FunctionCode>) -> Seq<Code> {
    Seq::new(fs.len(), |i: int| fs[i]@)
}

/// The entry points `stage`, with sequences in the place of vectors.
pub open spec fn stage_view(stage: Stage<FunctionCode>) -> Stage<Code> {
    match stage {
        Stage::Main(f) => Stage::Main(f@),
        Stage::Par { begin, main_loop, end } => Stage::Par {
            begin: match begin {
                Some(f) => Some(f@),
                None => None,
            },
            main_loop: match main_loop {
                Some(f) => Some(f@),
                None => None,
            },
            end: match end {
                Some(f) => Some(f@),
                None => None,
            },
        },
    }
}

impl Generator {
    /// Generates the code of the program `frames` if code can be generated
    /// for it at all; `None` where it cannot, because `program_ok` or
    /// `stage_ok` says so.
    pub fn try_init(frames: Vec<Frame>, stage: Stage<usize>, cfg: Config) -> (r: Option<
        Result<Generator, CompileError>,
    >)
        ensures
            r is Some <==> model::program_ok(frames@) && model::stage_ok(stage, frames@.len()),
            r matches Some(done) ==> match model::gen_frames(
                frames@,
                0,
                Seq::empty(),
                Seq::empty(),
            ) {
                Ok((codes, sigs)) => done matches Ok(g) && g.wf() && g.frames() == frames@
                    && g.stage() == stage && g.cfg() == cfg && g.codes() == codes && g.sigs()
                    == sigs,
                Err(e) => done matches Err(err) && err == e,
            },
    {
        if program_ok(&frames) && stage_ok(&stage, frames.len()) {
            Some(Generator::init(frames, stage, cfg))
        } else {
            None
        }
    }

    /// The code of the function `i` of the program, if it is called.
    pub fn function(&self, i: usize) -> (r: Option<&FunctionCode>)
        requires
            self.wf(),
            i < self.frames().len(),
        ensures
            match (r, self.codes()[i as int]) {
                (Some(f), Some(c)) => f@ == c,
                (None, None) => true,
                _ => false,
            },
    {
        self.funcs[i].as_ref()
    }

    /// The number of printf wrappers.
    pub fn printf_count(&self) -> (r: usize)
        ensures
            r == self.sigs().len(),
    {
        self.printfs.len()
    }

    /// The entry point `name` of the program, which takes the runtime,
    /// gives every global of the function `main_offset` its default
    /// value, and calls that function.
    pub fn gen_main_function(&self, main_offset: usize, name: FuncName) -> (r: Result<
        FunctionCode,
        CompileError,
    >)
        requires
            self.wf(),
            main_offset < self.frames().len(),
        ensures
            match model::gen_main_function(self.frames(), main_offset as int, name) {
                Ok(c) => r matches Ok(f) && f@ == c,
                Err(e) => r matches Err(err) && err == e,
            },
    {
        let globals = &self.frames[main_offset].globals;
        let mut view = FunctionView::bare(&self.decls);
        let mut args: Vec<Value> = Vec::new();
        let ghost s0 = view.state();
        let mut k: usize = 0;
        proof {
            assert(globals@.skip(0) =~= globals@);
            assert(args@ =~= Seq::<Value>::empty());
        }
        while k < globals.len()
            invariant
                k <= globals@.len(),
                s0 == model::start(Seq::empty()),
                globals@ == self.frames()[main_offset as int].globals@,
                model::main_globals(s0, globals@, Seq::empty()) == model::main_globals(
                    view.state(),
                    globals@.skip(k as int),
                    args@,
                ),
            decreases globals@.len() - k,
        {
            proof {
                assert(globals@.skip(k as int).drop_first() =~= globals@.skip(k + 1));
                assert(globals@.skip(k as int)[0] == globals@[k as int]);
            }
            let ty = globals[k].1;
            let local = match view.alloc_local(ty) {
                Ok(local) => local,
                Err(e) => {
                    return Err(e);
                },
            };
            let param = if let Ty::Str = ty {
                // A string is behind a pointer already.
                local
            } else {
                let loc = view.emit(Op::Alloca(llvm_ty(ty)));
                view.emit(Op::Store { val: local, ptr: loc });
                loc
            };
            args.push(param);
            k += 1;
        }
        // The runtime goes last.
        let rt = view.emit(Op::Param(0));
        args.push(rt);
        view.call_value(Callee::Udf(main_offset), &args);
        view.emit(Op::RetVoid);
        let (steps, _) = view.finish();
        let mut params: Vec<LlTy> = Vec::new();
        params.push(LlTy::VoidPtr);
        assert(params@ =~= seq![LlTy::VoidPtr]);
        Ok(
            FunctionCode {
                name,
                params,
                ret: LlTy::Void,
                private: false,
                has_entry: false,
                blocks: 1,
                steps,
            },
        )
    }

    fn gen_main_option(&self, main: Option<usize>, name: FuncName) -> (r: Result<
        Option<FunctionCode>,
        CompileError,
    >)
        requires
            self.wf(),
            main matches Some(off) ==> off < self.frames().len(),
        ensures
            match model::gen_main_option(self.frames(), main, name) {
                Ok(c) => r matches Ok(f) && match (f, c) {
                    (Some(f), Some(c)) => f@ == c,
                    (None, None) => true,
                    _ => false,
                },
                Err(e) => r matches Err(err) && err == e,
            },
    {
        match main {
            None => Ok(None),
            Some(off) => match self.gen_main_function(off, name) {
                Ok(f) => Ok(Some(f)),
                Err(e) => Err(e),
            },
        }
    }

    /// The entry points of the program.
    pub fn gen_main(&self) -> (r: Result<Stage<FunctionCode>, CompileError>)
        requires
            self.wf(),
        ensures
            match model::gen_main(self.frames(), self.stage()) {
                Ok(c) => r matches Ok(f) && stage_view(f) == c,
                Err(e) => r matches Err(err) && err == e,
            },
    {
        match self.stage {
            Stage::Main(main) => match self.gen_main_function(main, FuncName::Main) {
                Ok(f) => Ok(Stage::Main(f)),
                Err(e) => Err(e),
            },
            Stage::Par { begin, main_loop, end } => {
                let begin = match self.gen_main_option(begin, FuncName::Begin) {
                    Ok(f) => f,
                    Err(e) => {
                        return Err(e);
                    },
                };
                let main_loop = match self.gen_main_option(main_loop, FuncName::MainLoop) {
                    Ok(f) => f,
                    Err(e) => {
                        return Err(e);
                    },
                };
                let end = match self.gen_main_option(end, FuncName::EndLoop) {
                    Ok(f) => f,
                    Err(e) => {
                        return Err(e);
                    },
                };
                Ok(Stage::Par { begin, main_loop, end })
            },
        }
    }

    /// What the optimizer is to do: the function passes run on every
    /// function that was generated, on the printf wrappers, and on the
    /// entry points `mains`; the inliner gets the threshold of the level.
    /// A level above 3 is refused.
    pub fn optimize(&self, mains: &Vec<FuncName>) -> (r: Result<OptPlan, CompileError>)
        requires
            self.wf(),
        ensures
            match model::inline_threshold(self.cfg().opt_level) {
                Ok(t) => r matches Ok(p) && p.opt_level == self.cfg().opt_level && p.size_level
                    == 0 && p.inline_threshold == t && p.functions@ == model::generated(
                    self.codes(),
                    self.codes().len() as int,
                ) + model::wrapper_names(self.sigs().len()) + mains@,
                Err(e) => r matches Err(err) && err == e,
            },
    {
        let inline_threshold = match self.cfg.opt_level {
            0 => None,
            1 => Some(50u32),
            2 => Some(100u32),
            3 => Some(250u32),
            level => {
                return Err(CompileError::OptLevel(level));
            },
        };
        let mut functions: Vec<FuncName> = Vec::new();
        let mut i: usize = 0;
        while i < self.funcs.len()
            invariant
                i <= self.funcs@.len(),
                functions@ == model::generated(self.codes(), i as int),
            decreases self.funcs@.len() - i,
        {
            // Functions that nothing calls have no code.
            if self.funcs[i].is_some() {
                functions.push(FuncName::Udf(i));
            }
            i += 1;
        }
        let ghost udfs = functions@;
        let n = self.printfs.len();
        let mut k: usize = 0;
        proof {
            assert(functions@ =~= udfs + model::wrapper_names(0));
        }
        while k < n
            invariant
                k <= n,
                functions@ == udfs + model::wrapper_names(k as nat),
            decreases n - k,
        {
            functions.push(FuncName::Printf(k));
            assert(functions@ =~= udfs + model::wrapper_names((k + 1) as nat));
            k += 1;
        }
        let ghost inner = functions@;
        let mut m: usize = 0;
        proof {
            assert(functions@ =~= inner + mains@.take(0));
        }
        while m < mains.len()
            invariant
                m <= mains@.len(),
                functions@ == inner + mains@.take(m as int),
            decreases mains@.len() - m,
        {
            functions.push(mains[m]);
            assert(functions@ =~= inner + mains@.take(m + 1));
            m += 1;
        }
        proof {
            assert(mains@.take(m as int) =~= mains@);
        }
        Ok(OptPlan { opt_level: self.cfg.opt_level, size_level: 0, inline_threshold, functions })
    }

    /// Whether `r` is what `dump_module` returns.
    pub open spec fn dumped(&self, r: Result<Module, CompileError>) -> bool {
        match model::gen_main(self.frames(), self.stage()) {
            Err(e) => r matches Err(err) && err == e,
            Ok(mains) => match model::inline_threshold(self.cfg().opt_level) {
                Err(e) => r matches Err(err) && err == e,
                Ok(t) => {
                    &&& r matches Ok(m)
                    &&& views_of(m.functions@) == model::present(
                        self.codes(),
                        self.codes().len() as int,
                    ) + model::wrappers(self.sigs()) + model::stage_codes(mains)
                    &&& m.plan.opt_level == self.cfg().opt_level
                    &&& m.plan.size_level == 0
                    &&& m.plan.inline_threshold == t
                    &&& m.plan.functions@ == model::generated(
                        self.codes(),
                        self.codes().len() as int,
                    ) + model::wrapper_names(self.sigs().len()) + model::stage_names(mains)
                },
            },
        }
    }

    /// The generated code of the program: the functions of the program
    /// that are called, the printf wrappers, and the entry points, with
    /// what the optimizer is to do. The entry points are generated first
    /// and the optimizer is planned next; the first of the two to fail
    /// gives the error.
    pub fn dump_module(&self) -> (r: Result<Module, CompileError>)
        requires
            self.wf(),
        ensures
            self.dumped(r),
    {
        let mains = match self.gen_main() {
            Ok(mains) => mains,
            Err(e) => {
                return Err(e);
            },
        };
        let ghost spec_mains = stage_view(mains);
        let mut names: Vec<FuncName> = Vec::new();
        let mut entries: Vec<FunctionCode> = Vec::new();
        match mains {
            Stage::Main(f) => {
                names.push(FuncName::Main);
                entries.push(f);
            },
            Stage::Par { begin, main_loop, end } => {
                if let Some(f) = begin {
                    names.push(FuncName::Begin);
                    entries.push(f);
                }
                if let Some(f) = main_loop {
                    names.push(FuncName::MainLoop);
                    entries.push(f);
                }
                if let Some(f) = end {
                    names.push(FuncName::EndLoop);
                    entries.push(f);
                }
            },
        }
        proof {
            assert(names@ =~= model::stage_names(spec_mains));
            assert(views_of(entries@) =~= model::stage_codes(spec_mains));
        }
        let plan = match self.optimize(&names) {
            Ok(plan) => plan,
            Err(e) => {
                return Err(e);
            },
        };
        let mut functions: Vec<FunctionCode> = Vec::new();
        let mut i: usize = 0;
        proof {
            assert(views_of(functions@) =~= model::present(self.codes(), 0));
        }
        while i < self.funcs.len()
            invariant
                i <= self.funcs@.len(),
                views_of(functions@) == model::present(self.codes(), i as int),
            decreases self.funcs@.len() - i,
        {
            let ghost before = views_of(functions@);
            match &self.funcs[i] {
                Some(f) => {
                    functions.push(copy_code(f));
                    assert(views_of(functions@) =~= before.push(f@));
                },
                None => {},
            }
            i += 1;
        }
        let ghost udfs = views_of(functions@);
        let n = self.printfs.len();
        let mut k: usize = 0;
        proof {
            assert(views_of(functions@) =~= udfs + model::wrappers(self.sigs()).take(0));
        }
        while k < n
            invariant
                k <= n,
                n == self.sigs().len(),
                views_of(functions@) == udfs + model::wrappers(self.sigs()).take(k as int),
            decreases n - k,
        {
            let ghost before = views_of(functions@);
            let (tys, kind) = self.printfs.get(k);
            let w = wrapped_printf(k, tys, kind);
            proof {
                assert(w@ == model::wrappers(self.sigs())[k as int]);
            }
            functions.push(w);
            proof {
                assert(views_of(functions@) =~= before.push(w@));
                assert(model::wrappers(self.sigs()).take(k + 1) =~= model::wrappers(
                    self.sigs(),
                ).take(k as int).push(w@));
            }
            k += 1;
        }
        let ghost inner = views_of(functions@);
        proof {
            assert(model::wrappers(self.sigs()).take(k as int) =~= model::wrappers(self.sigs()));
        }
        let mut m: usize = 0;
        proof {
            assert(views_of(functions@) =~= inner + views_of(entries@).take(0));
        }
        while m < entries.len()
            invariant
                m <= entries@.len(),
                views_of(functions@) == inner + views_of(entries@).take(m as int),
            decreases entries@.len() - m,
        {
            let ghost before = views_of(functions@);
            let f = copy_code(&entries[m]);
            functions.push(f);
            proof {
                assert(views_of(functions@) =~= before.push(f@));
                assert(views_of(entries@).take(m + 1) =~= views_of(entries@).take(m as int).push(
                    f@,
                ));
            }
            m += 1;
        }
        proof {
            assert(views_of(entries@).take(m as int) =~= views_of(entries@));
        }
        Ok(Module { functions, plan })
    }

    /// The generated code of the program, and how it is run with
    /// `num_workers` workers where the input was split into `shards`
    /// parts.
    pub fn run_main(&self, num_workers: usize, shards: usize) -> (r: Result<
        (Module, RunPlan),
        CompileError,
    >)
        requires
            self.wf(),
        ensures
            match r {
                Ok(done) => self.dumped(Ok(done.0)) && done.1@ == model::run_of(
                    self.stage(),
                    num_workers,
                    shards,
                ),
                Err(e) => self.dumped(Err(e)),
            },
    {
        match self.dump_module() {
            Ok(module) => Ok((module, plan_run(&self.stage, num_workers, shards))),
            Err(e) => Err(e),
        }
    }
}

/// Whether `g` is among `globals`.
fn has_global(globals: &Vec<Reg>, g: Reg) -> (r: bool)
    ensures
        r == globals@.contains(g),
{
    let mut i: usize = 0;
    while i < globals.len()
        invariant
            i <= globals@.len(),
            forall|j: int| 0 <= j < i ==> globals@[j] != g,
        decreases globals@.len() - i,
    {
        if globals[i].0 == g.0 && globals[i].1 == g.1 {
            assert(globals@[i as int] == g);
            return true;
        }
        i += 1;
    }
    false
}

/// Whether the function `id` of `frames` can call the function `callee`.
fn can_call(frames: &Vec<Frame>, id: usize, callee: u32) -> (r: bool)
    requires
        id < frames@.len(),
    ensures
        r == model::can_call(Env { decls: model::decls_of(frames@), id: id as int }, callee as int),
{
    let ghost env = Env { decls: model::decls_of(frames@), id: id as int };
    if callee as usize >= frames.len() {
        return false;
    }
    let mine = &frames[id].globals;
    let theirs = &frames[callee as usize].globals;
    proof {
        assert(env.decls[callee as int].global_order == theirs@);
        assert forall|g: Reg| env.is_global(g) <==> mine@.contains(g) by {
            model::lemma_global_params(mine@, frames@[id as int].args@.len(), g);
        }
    }
    let mut i: usize = 0;
    while i < theirs.len()
        invariant
            i <= theirs@.len(),
            callee < frames@.len(),
            id < frames@.len(),
            env == (Env { decls: model::decls_of(frames@), id: id as int }),
            env.decls[callee as int].global_order == theirs@,
            forall|g: Reg| env.is_global(g) <==> mine@.contains(g),
            forall|j: int| 0 <= j < i ==> env.is_global(#[trigger] theirs@[j]),
        decreases theirs@.len() - i,
    {
        if !has_global(mine, theirs[i]) {
            assert(!env.is_global(env.decls[callee as int].global_order[i as int]));
            return false;
        }
        i += 1;
    }
    true
}

/// Whether every call among the instructions `nodes` of the function `id`
/// of `frames` is one that the function can make.
fn calls_fit(frames: &Vec<Frame>, id: usize, nodes: &Vec<Node>) -> (r: bool)
    requires
        id < frames@.len(),
    ensures
        r == model::calls_fit(Env { decls: model::decls_of(frames@), id: id as int }, nodes@),
{
    let ghost env = Env { decls: model::decls_of(frames@), id: id as int };
    let mut j: usize = 0;
    while j < nodes.len()
        invariant
            j <= nodes@.len(),
            id < frames@.len(),
            env == (Env { decls: model::decls_of(frames@), id: id as int }),
            forall|k: int|
                0 <= k < j ==> (#[trigger] nodes@[k] matches Node::High(
                    HighLevel::Call { func_id, .. },
                ) ==> model::can_call(env, func_id as int)),
        decreases nodes@.len() - j,
    {
        if let Node::High(HighLevel::Call { func_id, .. }) = &nodes[j] {
            if !can_call(frames, id, *func_id) {
                assert(nodes@[j as int] matches Node::High(HighLevel::Call { func_id, .. })
                    && !model::can_call(env, func_id as int));
                return false;
            }
        }
        j += 1;
    }
    true
}

/// Whether code can be generated for the function `id` of `frames`.
fn frame_ok(frames: &Vec<Frame>, id: usize) -> (r: bool)
    requires
        id < frames@.len(),
    ensures
        r == model::frame_ok(frames@, id as int),
{
    let frame = &frames[id];
    let ghost env = Env { decls: model::decls_of(frames@), id: id as int };
    if frame.globals.len() >= usize::MAX - frame.args.len() {
        return false;
    }
    if !frame.is_called {
        return true;
    }
    if frame.blocks.len() == 0 || frame.edges.len() >= u32::MAX as usize {
        return false;
    }
    let n = frame.blocks.len();
    let mut j: usize = 0;
    while j < frame.edges.len()
        invariant
            j <= frame.edges@.len(),
            n == frame.blocks@.len(),
            id < frames@.len(),
            frame == &frames@[id as int],
            frame.is_called,
            n > 0,
            frame.edges@.len() < u32::MAX,
            frame.args@.len() + frame.globals@.len() < usize::MAX,
            forall|k: int|
                0 <= k < j ==> (#[trigger] frame.edges@[k]).from < n && frame.edges@[k].to < n
                    && frame.edges@[k].from < u32::MAX && frame.edges@[k].to < u32::MAX,
        decreases frame.edges@.len() - j,
    {
        let e = &frame.edges[j];
        if e.from as usize >= n || e.to as usize >= n || e.from == u32::MAX || e.to == u32::MAX {
            assert(!(frame.edges@[j as int].from < n && frame.edges@[j as int].to < n
                && frame.edges@[j as int].from < u32::MAX && frame.edges@[j as int].to
                < u32::MAX));
            return false;
        }
        j += 1;
    }
    let mut b: usize = 0;
    while b < n
        invariant
            b <= n,
            n == frame.blocks@.len(),
            id < frames@.len(),
            frame == &frames@[id as int],
            frame.is_called,
            n > 0,
            frame.edges@.len() < u32::MAX,
            frame.args@.len() + frame.globals@.len() < usize::MAX,
            forall|k: int|
                0 <= k < frame.edges@.len() ==> (#[trigger] frame.edges@[k]).from < n
                    && frame.edges@[k].to < n && frame.edges@[k].from < u32::MAX
                    && frame.edges@[k].to < u32::MAX,
            env == (Env { decls: model::decls_of(frames@), id: id as int }),
            forall|k: int| 0 <= k < b ==> model::calls_fit(env, #[trigger] frame.blocks@[k]@),
        decreases n - b,
    {
        if !calls_fit(frames, id, &frame.blocks[b]) {
            assert(!model::calls_fit(env, frame.blocks@[b as int]@));
            return false;
        }
        b += 1;
    }
    true
}

/// Whether code can be generated for the program `frames`: whether
/// `Generator::init` takes it.
pub fn program_ok(frames: &Vec<Frame>) -> (r: bool)
    ensures
        r == model::program_ok(frames@),
{
    let mut id: usize = 0;
    while id < frames.len()
        invariant
            id <= frames@.len(),
            forall|k: int| 0 <= k < id ==> model::frame_ok(frames@, k),
        decreases frames@.len() - id,
    {
        if !frame_ok(frames, id) {
            assert(!model::frame_ok(frames@, id as int));
            return false;
        }
        id += 1;
    }
    true
}

/// Whether the entry points of `stage` are among `n` functions.
pub fn stage_ok(stage: &Stage<usize>, n: usize) -> (r: bool)
    ensures
        r == model::stage_ok(*stage, n as nat),
{
    match stage {
        Stage::Main(main) => *main < n,
        Stage::Par { begin, main_loop, end } => {
            let b = match begin {
                Some(off) => *off < n,
                None => true,
            };
            let m = match main_loop {
                Some(off) => *off < n,
                None => true,
            };
            let e = match end {
                Some(off) => *off < n,
                None => true,
            };
            b && m && e
        },
    }
}

} // verus!
