//! The code generator at work on one function.
use vstd::prelude::*;
use super::ir::{CompileError, Edge, Frame, HighLevel, Instr, Node, NumTy, Reg, Ty};
use super::model;
use super::model::{Decl, Env, FnState, PrintfKind, Sig};
use super::names::{
    alloc_name, contains_name, delete_name, drop_iter_name, drop_name, insert_name, iter_name,
    len_name, load_slot_name, lookup_name, store_slot_name,
};
use super::ops::{base_ty, BinOp, Block, Callee, FPred, IterState, LlTy, Op, Pred, Step, Value};
use super::plan::{flag, plan, Act, Konst, Plan};
use super::tables::{list_entries, ListTable, RegMap};

verus! {

/// What is known of a function of the program before code is generated
/// for any of them.
pub struct FuncInfo {
    /// Whether the function is generated at all.
    pub called: bool,
    /// The parameter through which each global comes.
    pub globals: RegMap,
    /// The globals in the order of their parameters.
    pub global_order: Vec<Reg>,
    /// The number of parameters: the arguments, the globals, and the
    /// runtime.
    pub num_args: usize,
}

impl View for FuncInfo {
    type V = Decl;

    open spec fn view(&self) -> Decl {
        Decl {
            called: self.called,
            globals: self.globals@,
            global_order: self.global_order@,
            num_args: self.num_args as nat,
        }
    }
}

/// The declarations `decls`, with sequences and maps in the place of
/// vectors and tables.
pub open spec fn decls_view(decls: Seq<FuncInfo>) -> Seq<Decl> {
    Seq::new(decls.len(), |i: int| decls[i]@)
}

/// The number that stands for a kind of printf in the key of a wrapper.
pub open spec fn kind_tag(kind: PrintfKind) -> u32 {
    match kind {
        PrintfKind::Stdout => 0,
        PrintfKind::File => 1,
        PrintfKind::Sprintf => 2,
    }
}

/// The key of a signature: the number of its kind, and then the tags of
/// its types.
pub open spec fn sig_code(sig: Sig) -> Seq<u32> {
    Seq::new(
        sig.0.len() + 1,
        |i: int|
            if i == 0 {
                kind_tag(sig.1)
            } else {
                sig.0[i - 1].spec_tag()
            },
    )
}

/// Two types with one tag are the same type.
pub proof fn lemma_tag(a: Ty, b: Ty)
    ensures
        a.spec_tag() == b.spec_tag() <==> a == b,
{
}

/// Two signatures with one key are the same signature.
pub proof fn lemma_sig_code(a: Sig, b: Sig)
    requires
        sig_code(a) == sig_code(b),
    ensures
        a == b,
{
    assert(sig_code(a).len() == a.0.len() + 1);
    assert(sig_code(b).len() == b.0.len() + 1);
    assert(sig_code(a)[0] == kind_tag(a.1));
    assert(sig_code(b)[0] == kind_tag(b.1));
    assert forall|i: int| 0 <= i < a.0.len() implies a.0[i] == b.0[i] by {
        assert(sig_code(a)[i + 1] == a.0[i].spec_tag());
        assert(sig_code(b)[i + 1] == b.0[i].spec_tag());
        lemma_tag(a.0[i], b.0[i]);
    }
    assert(a.0 =~= b.0);
}

/// The key of the signature with the types `tys` and the kind `kind`.
fn encode(tys: &Vec<Ty>, kind: PrintfKind) -> (r: Vec<u32>)
    ensures
        r@ == sig_code((tys@, kind)),
{
    let mut key: Vec<u32> = Vec::new();
    key.push(
        match kind {
            PrintfKind::Stdout => 0,
            PrintfKind::File => 1,
            PrintfKind::Sprintf => 2,
        },
    );
    let mut i: usize = 0;
    while i < tys.len()
        invariant
            i <= tys.len(),
            key@.len() == i + 1,
            key@[0] == kind_tag(kind),
            forall|j: int| 0 <= j < i ==> key@[j + 1] == tys@[j].spec_tag(),
        decreases tys.len() - i,
    {
        key.push(tys[i].tag());
        i += 1;
    }
    assert(key@ =~= sig_code((tys@, kind)));
    key
}

/// The printf wrappers that were asked for, in the order in which they
/// were made, with a table that finds each by the key of its signature.
pub struct Printfs {
    sigs: Vec<(Vec<Ty>, PrintfKind)>,
    index: ListTable,
}

/// The signatures of `sigs`, with sequences in the place of vectors.
pub open spec fn sigs_view(sigs: Seq<(Vec<Ty>, PrintfKind)>) -> Seq<Sig> {
    Seq::new(sigs.len(), |i: int| (sigs[i].0@, sigs[i].1))
}

/// Whether the table `held` holds, under the key of each of `sigs`, its
/// place, and nothing else.
pub open spec fn indexed(sigs: Seq<Sig>, held: Map<Seq<u32>, u64>) -> bool {
    &&& forall|i: int|
        0 <= i < sigs.len() ==> held.contains_key(#[trigger] sig_code(sigs[i])) && held[sig_code(sigs[i])] == i
    &&& forall|c: Seq<u32>| #[trigger]
        held.contains_key(c) ==> held[c] < sigs.len() && sig_code(sigs[held[c] as int]) == c
}

impl View for Printfs {
    type V = Seq<Sig>;

    closed spec fn view(&self) -> Seq<Sig> {
        sigs_view(self.sigs@)
    }
}

/// A signature that stands at `i` and nowhere before is found at `i`.
proof fn lemma_find_sig_at(printfs: Seq<Sig>, sig: Sig, i: int)
    requires
        0 <= i < printfs.len(),
        printfs[i] == sig,
        forall|j: int| 0 <= j < i ==> printfs[j] != sig,
    ensures
        model::find_sig(printfs, sig) == Some(i),
    decreases printfs.len(),
{
    let front = printfs.drop_last();
    if i < front.len() {
        assert(front[i] == sig);
        assert forall|j: int| 0 <= j < i implies front[j] != sig by {
            assert(front[j] == printfs[j]);
        }
        lemma_find_sig_at(front, sig, i);
    } else {
        assert forall|j: int| 0 <= j < front.len() implies front[j] != sig by {
            assert(front[j] == printfs[j]);
        }
        lemma_find_sig_none(front, sig);
    }
}

/// A signature that stands nowhere is not found.
proof fn lemma_find_sig_none(printfs: Seq<Sig>, sig: Sig)
    requires
        forall|j: int| 0 <= j < printfs.len() ==> printfs[j] != sig,
    ensures
        model::find_sig(printfs, sig) is None,
    decreases printfs.len(),
{
    if printfs.len() > 0 {
        let front = printfs.drop_last();
        assert forall|j: int| 0 <= j < front.len() implies front[j] != sig by {
            assert(front[j] == printfs[j]);
        }
        lemma_find_sig_none(front, sig);
        assert(printfs.last() == printfs[printfs.len() - 1]);
    }
}

impl Printfs {
    /// The table holds, under the key of each wrapper's signature, the
    /// place of the wrapper, and nothing else; so no signature has two
    /// wrappers.
    #[verifier::type_invariant]
    closed spec fn inv(&self) -> bool {
        indexed(self@, list_entries(self.index))
    }

    /// No wrapper.
    pub fn new() -> (r: Printfs)
        ensures
            r@ == Seq::<Sig>::empty(),
    {
        let r = Printfs { sigs: Vec::new(), index: ListTable::new() };
        assert(r@ =~= Seq::<Sig>::empty());
        r
    }

    /// The number of wrappers.
    pub fn len(&self) -> (r: usize)
        ensures
            r == self@.len(),
    {
        self.sigs.len()
    }

    /// The types of the arguments of the wrapper `i`, and its kind.
    pub fn get(&self, i: usize) -> (r: (&Vec<Ty>, PrintfKind))
        requires
            i < self@.len(),
        ensures
            (r.0@, r.1) == self@[i as int],
    {
        (&self.sigs[i].0, self.sigs[i].1)
    }

    /// The wrapper for a signature: the one that was made for it, or a new
    /// one.
    pub fn wrapped_printf(&mut self, tys: Vec<Ty>, kind: PrintfKind) -> (r: usize)
        ensures
            r < final(self)@.len(),
            model::find_sig(old(self)@, (tys@, kind)) matches Some(i) ==> r == i && final(self)@
                == old(self)@,
            model::find_sig(old(self)@, (tys@, kind)) is None ==> r == old(self)@.len()
                && final(self)@ == old(self)@.push((tys@, kind)),
    {
        let ghost sig = (tys@, kind);
        let ghost before = self@;
        let key = encode(&tys, kind);
        let n = self.sigs.len();
        proof {
            use_type_invariant(&*self);
        }
        match self.index.get(&key) {
            Some(at) => {
                proof {
                    let held = list_entries(self.index);
                    assert(held.contains_key(key@));
                    assert(at < n);
                    lemma_sig_code(before[at as int], sig);
                    assert forall|j: int| 0 <= j < at implies before[j] != sig by {
                        if before[j] == sig {
                            assert(held[sig_code(before[j])] == j);
                        }
                    }
                    lemma_find_sig_at(before, sig, at as int);
                }
                at as usize
            },
            None => {
                proof {
                    assert forall|j: int| 0 <= j < before.len() implies before[j] != sig by {
                        if before[j] == sig {
                            assert(list_entries(self.index).contains_key(sig_code(before[j])));
                        }
                    }
                    lemma_find_sig_none(before, sig);
                }
                let mut made = Printfs::new();
                std::mem::swap(self, &mut made);
                let (next, at) = made.add(tys, kind, key);
                *self = next;
                at
            },
        }
    }

    /// The wrappers with one more, for a signature that has none.
    fn add(self, tys: Vec<Ty>, kind: PrintfKind, key: Vec<u32>) -> (r: (Printfs, usize))
        requires
            key@ == sig_code((tys@, kind)),
            model::find_sig(self@, (tys@, kind)) is None,
        ensures
            r.0@ == self@.push((tys@, kind)),
            r.1 == self@.len(),
    {
        let ghost sig = (tys@, kind);
        let ghost before = self@;
        proof {
            use_type_invariant(&self);
        }
        let ghost held = list_entries(self.index);
        let Printfs { sigs, index } = self;
        let mut sigs = sigs;
        let mut index = index;
        let at = sigs.len();
        sigs.push((tys, kind));
        let _ = index.insert(key, at as u64);
        proof {
            let after = sigs_view(sigs@);
            let table = list_entries(index);
            assert(after =~= before.push(sig));
            assert forall|i: int| 0 <= i < after.len() implies table.contains_key(
                #[trigger] sig_code(after[i]),
            ) && table[sig_code(after[i])] == i by {
                if i < before.len() {
                    assert(after[i] == before[i]);
                    assert(held.contains_key(sig_code(before[i])));
                    if sig_code(before[i]) == sig_code(sig) {
                        lemma_sig_code(before[i], sig);
                        lemma_find_sig_none_at(before, sig, i);
                    }
                }
            }
            assert forall|c: Seq<u32>| #[trigger] table.contains_key(c) implies table[c]
                < after.len() && sig_code(after[table[c] as int]) == c by {
                if c != sig_code(sig) {
                    assert(held.contains_key(c));
                    assert(after[held[c] as int] == before[held[c] as int]);
                }
            }
            assert(indexed(after, table));
        }
        let next = Printfs { sigs, index };
        (next, at)
    }
}

/// A signature that is not found stands nowhere.
proof fn lemma_find_sig_none_at(printfs: Seq<Sig>, sig: Sig, i: int)
    requires
        model::find_sig(printfs, sig) is None,
        0 <= i < printfs.len(),
    ensures
        printfs[i] != sig,
    decreases printfs.len(),
{
    let front = printfs.drop_last();
    if i < front.len() {
        assert(front[i] == printfs[i]);
        lemma_find_sig_none_at(front, sig, i);
    }
}

/// The list of one value.
fn one(a: Value) -> (r: Vec<Value>)
    ensures
        r@ == seq![a],
{
    let mut r = Vec::new();
    r.push(a);
    assert(r@ =~= seq![a]);
    r
}

/// The list of two values.
fn two(a: Value, b: Value) -> (r: Vec<Value>)
    ensures
        r@ == seq![a, b],
{
    let mut r = Vec::new();
    r.push(a);
    r.push(b);
    assert(r@ =~= seq![a, b]);
    r
}

/// A function under construction.
pub struct Function {
    steps: Vec<Step>,
    block: Block,
    locals: RegMap,
    order: Vec<Reg>,
    skip_drop: RegMap,
    iter_ptr: RegMap,
    iter_cur: RegMap,
    iter_len: RegMap,
    id: usize,
}

/// The code generator at work on one function: the function, what is
/// known of all functions, and the printf wrappers of the program.
pub struct FunctionView<'a> {
    f: Function,
    decls: &'a Vec<FuncInfo>,
    printfs: Printfs,
}

impl<'a> FunctionView<'a> {
    /// The state of the function under construction.
    pub closed spec fn state(&self) -> FnState {
        FnState {
            steps: self.f.steps@,
            block: self.f.block,
            locals: self.f.locals@,
            order: self.f.order@,
            skip_drop: self.f.skip_drop@.dom(),
            iter_ptr: self.f.iter_ptr@,
            iter_cur: self.f.iter_cur@,
            iter_len: self.f.iter_len@,
            printfs: self.printfs@,
        }
    }

    /// What surrounds the function under construction.
    pub closed spec fn env(&self) -> Env {
        Env { decls: decls_view(self.decls@), id: self.f.id as int }
    }

    /// The function has a declaration, with the runtime among its
    /// parameters.
    pub open spec fn wf(&self) -> bool {
        &&& 0 <= self.env().id < self.env().decls.len()
        &&& self.env().me().num_args >= 1
    }

    /// The generator at the start of the function `id`, with nothing
    /// emitted and nothing bound, and with instructions going to the first
    /// block of the body.
    pub fn new(decls: &'a Vec<FuncInfo>, id: usize, printfs: Printfs) -> (r: FunctionView<'a>)
        requires
            id < decls.len(),
            decls[id as int].num_args >= 1,
        ensures
            r.wf(),
            r.env() == (Env { decls: decls_view(decls@), id: id as int }),
            r.state() == (FnState {
                steps: Seq::empty(),
                block: Block::Body(0),
                locals: Map::empty(),
                order: Seq::empty(),
                skip_drop: Set::empty(),
                iter_ptr: Map::empty(),
                iter_cur: Map::empty(),
                iter_len: Map::empty(),
                printfs: printfs@,
            }),
    {
        let r = FunctionView {
            f: Function {
                steps: Vec::new(),
                block: Block::Body(0),
                locals: RegMap::new(),
                order: Vec::new(),
                skip_drop: RegMap::new(),
                iter_ptr: RegMap::new(),
                iter_cur: RegMap::new(),
                iter_len: RegMap::new(),
                id,
            },
            decls,
            printfs,
        };
        proof {
            assert(r.f.skip_drop@.dom() =~= Set::<Reg>::empty());
            assert(r.env().me() == decls[id as int]@);
        }
        r
    }

    /// A generator for a function that is none of the program: it has no
    /// globals, and nothing but the steps to emit.
    pub fn bare(decls: &'a Vec<FuncInfo>) -> (r: FunctionView<'a>)
        ensures
            r.state() == model::start(Seq::empty()),
    {
        let r = FunctionView {
            f: Function {
                steps: Vec::new(),
                block: Block::Body(0),
                locals: RegMap::new(),
                order: Vec::new(),
                skip_drop: RegMap::new(),
                iter_ptr: RegMap::new(),
                iter_cur: RegMap::new(),
                iter_len: RegMap::new(),
                id: 0,
            },
            decls,
            printfs: Printfs::new(),
        };
        proof {
            assert(r.f.skip_drop@.dom() =~= Set::<Reg>::empty());
        }
        r
    }

    /// Gives up the generator for the steps that it has emitted and the
    /// printf wrappers of the program.
    pub fn finish(self) -> (r: (Vec<Step>, Printfs))
        ensures
            r.0@ == self.state().steps,
            r.1@ == self.state().printfs,
    {
        (self.f.steps, self.printfs)
    }

    /// Makes instructions go to the end of `block`.
    pub fn position_at_end(&mut self, block: Block)
        ensures
            final(self).env() == old(self).env(),
            final(self).state() == (FnState { block, ..old(self).state() }),
    {
        self.f.block = block;
    }

    /// Adds a step at the end of the current block.
    pub fn emit(&mut self, op: Op) -> (v: Value)
        ensures
            final(self).env() == old(self).env(),
            final(self).state() == model::emit(old(self).state(), op),
            v == model::next(old(self).state()),
    {
        let v = self.f.steps.len() as u64;
        self.f.steps.push(Step { block: self.f.block, op });
        v
    }

    /// Adds a step at the end of the entry block.
    pub fn emit_entry(&mut self, op: Op) -> (v: Value)
        ensures
            final(self).env() == old(self).env(),
            final(self).state() == model::emit_entry(old(self).state(), op),
            v == model::next(old(self).state()),
    {
        let v = self.f.steps.len() as u64;
        self.f.steps.push(Step { block: Block::Entry, op });
        v
    }

    /// An integer constant.
    pub fn const_int(&mut self, ty: LlTy, bits: u64, sign_extend: bool) -> (v: Value)
        ensures
            final(self).env() == old(self).env(),
            (final(self).state(), v) == model::const_int(old(self).state(), ty, bits, sign_extend),
    {
        self.emit(Op::ConstInt { ty, bits, sign_extend })
    }

    fn push_args(&mut self, args: &Vec<Value>)
        ensures
            final(self).env() == old(self).env(),
            final(self).state() == model::push_args(old(self).state(), args@),
    {
        let mut i: usize = 0;
        while i < args.len()
            invariant
                i <= args.len(),
                self.env() == old(self).env(),
                self.state() == model::push_args(old(self).state(), args@.take(i as int)),
            decreases args.len() - i,
        {
            proof {
                assert(args@.take(i + 1).drop_last() =~= args@.take(i as int));
                assert(args@.take(i + 1).last() == args@[i as int]);
            }
            self.emit(Op::Arg(args[i]));
            i += 1;
        }
        proof {
            assert(args@.take(i as int) =~= args@);
        }
    }

    /// A call of `callee` with `args`.
    pub fn call_value(&mut self, callee: Callee, args: &Vec<Value>) -> (v: Value)
        ensures
            final(self).env() == old(self).env(),
            (final(self).state(), v) == model::call(old(self).state(), callee, args@),
    {
        self.push_args(args);
        self.emit(Op::Call { callee, args: args.len() })
    }

    /// A call of the intrinsic `func` with `args`.
    pub fn call(&mut self, func: &'static str, args: &Vec<Value>) -> (v: Value)
        ensures
            final(self).env() == old(self).env(),
            (final(self).state(), v) == model::intrinsic(old(self).state(), func, args@),
    {
        self.call_value(Callee::Intrinsic(func), args)
    }
}

impl<'a> FunctionView<'a> {
    /// The default value of a type. An iterator has none: it is refused,
    /// and nothing is emitted.
    pub fn alloc_local(&mut self, ty: Ty) -> (r: Result<Value, CompileError>)
        ensures
            final(self).env() == old(self).env(),
            model::yields(model::alloc_local(old(self).state(), ty), r, final(self).state()),
            model::alloc_local(old(self).state(), ty) is Err ==> final(self).state() == old(self).state(),
            ty is IterInt || ty is IterStr ==> r == Err::<Value, CompileError>(
                CompileError::DefaultIterator,
            ),
    {
        match ty {
            Ty::Null | Ty::Int => Ok(self.const_int(LlTy::I64, 0, true)),
            Ty::Float => Ok(self.emit(Op::ConstReal { bits: 0 })),
            Ty::Str => {
                let v = self.const_int(LlTy::I128, 0, false);
                let v_loc = self.emit(Op::Alloca(LlTy::I128));
                self.emit(Op::Store { val: v, ptr: v_loc });
                Ok(v_loc)
            },
            Ty::IterInt | Ty::IterStr => Err(CompileError::DefaultIterator),
            _ => match alloc_name(ty) {
                Ok(name) => Ok(self.call(name, &Vec::new())),
                Err(e) => Err(e),
            },
        }
    }

    /// Drops a value of type `ty`.
    pub fn drop_val(&mut self, val: Value, ty: Ty)
        ensures
            final(self).env() == old(self).env(),
            final(self).state() == model::drop_val(old(self).state(), val, ty),
    {
        match ty {
            Ty::Str => {
                self.call_value(Callee::DropStr, &one(val));
            },
            _ => match drop_name(ty) {
                Ok(name) => {
                    self.call(name, &one(val));
                },
                Err(_) => {},
            },
        }
    }

    /// A stack slot in the entry block for a value of type `ty`, holding
    /// zero.
    pub fn alloca(&mut self, ty: Ty) -> (v: Value)
        ensures
            final(self).env() == old(self).env(),
            (final(self).state(), v) == model::alloca(old(self).state(), ty),
    {
        let ty = base_ty(ty);
        let res = self.emit_entry(Op::Alloca(ty));
        let v = self.const_int(ty, 0, false);
        self.emit_entry(Op::Store { val: v, ptr: res });
        res
    }

    /// Whether `reg` is a global of the function.
    pub fn is_global(&self, reg: Reg) -> (r: bool)
        requires
            self.wf(),
        ensures
            r == self.env().is_global(reg),
    {
        self.decls[self.f.id].globals.contains(reg)
    }

    /// Whether `reg` has a value.
    pub fn has_var(&self, var: Reg) -> (r: bool)
        requires
            self.wf(),
        ensures
            r == model::has_var(self.state(), self.env(), var),
    {
        self.f.locals.contains(var) || self.decls[self.f.id].globals.contains(var)
    }

    /// The value of a register, if it has one.
    pub fn get_local_inner(&mut self, local: Reg) -> (r: Option<Value>)
        requires
            old(self).wf(),
        ensures
            final(self).env() == old(self).env(),
            (final(self).state(), r) == model::get_local_inner(
                old(self).state(),
                old(self).env(),
                local,
            ),
    {
        if let Ty::Null = local.1 {
            return Some(self.const_int(LlTy::I64, 0, false));
        }
        if let Some(v) = self.f.locals.get(local) {
            return Some(v);
        }
        if let Some(ix) = self.decls[self.f.id].globals.get(local) {
            let gv = self.emit(Op::Param(ix));
            if let Ty::Str = local.1 {
                // Strings are handled through pointers; there is nothing to load.
                Some(gv)
            } else {
                Some(self.emit(Op::Load { ptr: gv, ty: base_ty(local.1) }))
            }
        } else {
            None
        }
    }

    /// The value of a register that must have one.
    pub fn get_local(&mut self, local: Reg) -> (r: Result<Value, CompileError>)
        requires
            old(self).wf(),
        ensures
            final(self).env() == old(self).env(),
            model::yields(
                model::get_local(old(self).state(), old(self).env(), local),
                r,
                final(self).state(),
            ),
    {
        match self.get_local_inner(local) {
            Some(v) => Ok(v),
            None => Err(CompileError::UnboundVariable(local.0, local.1)),
        }
    }

    fn insert_local(&mut self, reg: Reg, v: Value)
        ensures
            final(self).env() == old(self).env(),
            final(self).state() == model::insert_local(old(self).state(), reg, v),
    {
        if self.f.locals.insert(reg, v).is_none() {
            self.f.order.push(reg);
        }
    }

    /// Binds the value `to` to the register `val`.
    pub fn bind_val(&mut self, val: Reg, to: Value)
        requires
            old(self).wf(),
        ensures
            final(self).env() == old(self).env(),
            final(self).state() == model::bind_val(old(self).state(), old(self).env(), val, to),
    {
        if let Ty::Null = val.1 {
            // Null values are not stored.
            return ;
        }
        if let Some(ix) = self.decls[self.f.id].globals.get(val) {
            let param = self.emit(Op::Param(ix));
            if val.1.is_map() {
                let prev_global = self.emit(Op::Load { ptr: param, ty: base_ty(val.1) });
                self.drop_val(prev_global, val.1);
                self.call("ref_map", &one(to));
                self.emit(Op::Store { val: to, ptr: param });
            } else if let Ty::Str = val.1 {
                self.drop_val(param, Ty::Str);
                self.emit(Op::Store { val: to, ptr: param });
                self.call("ref_str", &one(param));
            } else {
                self.emit(Op::Store { val: to, ptr: param });
            }
            return ;
        }
        if val.1.is_map() {
            self.call("ref_map", &one(to));
            self.insert_local(val, to);
        } else if let Ty::Str = val.1 {
            let loc = self.alloca(Ty::Str);
            self.drop_val(loc, Ty::Str);
            self.emit(Op::Store { val: to, ptr: loc });
            self.insert_local(val, loc);
        } else {
            self.insert_local(val, to);
        }
    }

    /// The value of an argument of a call.
    pub fn get_param(&mut self, local: Reg) -> (r: Result<Value, CompileError>)
        requires
            old(self).wf(),
        ensures
            final(self).env() == old(self).env(),
            model::yields(
                model::get_param(old(self).state(), old(self).env(), local),
                r,
                final(self).state(),
            ),
    {
        if let Some(v) = self.get_local_inner(local) {
            return Ok(v);
        }
        // A parameter that the program never mentions has no value yet.
        let made = match local.1 {
            Ty::Int | Ty::Str => Ok(self.const_int(base_ty(local.1), 0, false)),
            _ => self.alloc_local(local.1),
        };
        match made {
            Ok(v) => {
                self.bind_val(local, v);
                Ok(v)
            },
            Err(e) => Err(e),
        }
    }

    /// The runtime.
    pub fn runtime_val(&mut self) -> (v: Value)
        requires
            old(self).wf(),
        ensures
            final(self).env() == old(self).env(),
            (final(self).state(), v) == model::runtime_val(old(self).state(), old(self).env()),
    {
        let n = self.decls[self.f.id].num_args;
        self.emit(Op::Param((n - 1) as u64))
    }

    /// A comparison of integers, widened to an integer.
    pub fn compare_int(&mut self, pred: Pred, l: Value, r: Value) -> (v: Value)
        ensures
            final(self).env() == old(self).env(),
            (final(self).state(), v) == model::compare_int(old(self).state(), pred, l, r),
    {
        let res = self.emit(Op::ICmp(pred, l, r));
        // A comparison yields one bit; it is widened back to an integer.
        self.emit(Op::ZExt(res, LlTy::I64))
    }

    /// A comparison of floats, widened to an integer.
    pub fn compare_float(&mut self, pred: FPred, l: Value, r: Value) -> (v: Value)
        ensures
            final(self).env() == old(self).env(),
            (final(self).state(), v) == model::compare_float(old(self).state(), pred, l, r),
    {
        let res = self.emit(Op::FCmp(pred, l, r));
        self.emit(Op::ZExt(res, LlTy::I64))
    }

    /// The end of a block.
    pub fn branch(&mut self, tcase: Option<(NumTy, usize)>, fcase: usize) -> (r: Result<
        (),
        CompileError,
    >)
        requires
            old(self).wf(),
        ensures
            final(self).env() == old(self).env(),
            model::follows(
                model::branch(old(self).state(), old(self).env(), tcase, fcase),
                r,
                final(self).state(),
            ),
    {
        if let Some((reg, t_bb)) = tcase {
            let val = match self.get_local((reg, Ty::Int)) {
                Ok(val) => val,
                Err(e) => {
                    return Err(e);
                },
            };
            let zero = self.const_int(LlTy::I64, 0, true);
            let val_bool = self.emit(Op::ICmp(Pred::NE, val, zero));
            self.emit(Op::CondBr { cond: val_bool, then_block: t_bb, else_block: fcase });
        } else {
            self.emit(Op::Br(fcase));
        }
        Ok(())
    }
}

/// The plan of an instruction on a map or on a slot.
pub fn typed_plan(inst: &Instr) -> (r: Option<Result<Plan, CompileError>>)
    ensures
        r == model::typed_plan(*inst),
        forall|p: Plan| r == Some(Ok::<Plan, CompileError>(p)) ==> model::plan_fits(p),
{
    match inst {
        Instr::Lookup { map_ty, dst, map, key } => {
            let k = match map_ty.key() {
                Ok(k) => k,
                Err(e) => {
                    return Some(Err(e));
                },
            };
            let v = match map_ty.val() {
                Ok(v) => v,
                Err(e) => {
                    return Some(Err(e));
                },
            };
            let name = match lookup_name(*map_ty) {
                Ok(name) => name,
                Err(e) => {
                    return Some(Err(e));
                },
            };
            Some(
                Ok(
                    Plan {
                        act: Act::Call(Callee::Intrinsic(name)),
                        rt: false,
                        konst: None,
                        a: Some((*map, *map_ty)),
                        b: Some((*key, k)),
                        c: None,
                        dst: Some((*dst, v)),
                        redrop: false,
                    },
                ),
            )
        },
        Instr::Contains { map_ty, dst, map, key } => {
            let k = match map_ty.key() {
                Ok(k) => k,
                Err(e) => {
                    return Some(Err(e));
                },
            };
            let name = match contains_name(*map_ty) {
                Ok(name) => name,
                Err(e) => {
                    return Some(Err(e));
                },
            };
            Some(
                Ok(
                    Plan {
                        act: Act::Call(Callee::Intrinsic(name)),
                        rt: false,
                        konst: None,
                        a: Some((*map, *map_ty)),
                        b: Some((*key, k)),
                        c: None,
                        dst: Some((*dst, Ty::Int)),
                        redrop: false,
                    },
                ),
            )
        },
        Instr::Delete { map_ty, map, key } => {
            let k = match map_ty.key() {
                Ok(k) => k,
                Err(e) => {
                    return Some(Err(e));
                },
            };
            let name = match delete_name(*map_ty) {
                Ok(name) => name,
                Err(e) => {
                    return Some(Err(e));
                },
            };
            Some(
                Ok(
                    Plan {
                        act: Act::Call(Callee::Intrinsic(name)),
                        rt: false,
                        konst: None,
                        a: Some((*map, *map_ty)),
                        b: Some((*key, k)),
                        c: None,
                        dst: None,
                        redrop: false,
                    },
                ),
            )
        },
        Instr::Len { map_ty, map, dst } => {
            let name = match len_name(*map_ty) {
                Ok(name) => name,
                Err(e) => {
                    return Some(Err(e));
                },
            };
            Some(
                Ok(
                    Plan {
                        act: Act::Call(Callee::Intrinsic(name)),
                        rt: false,
                        konst: None,
                        a: Some((*map, *map_ty)),
                        b: None,
                        c: None,
                        dst: Some((*dst, Ty::Int)),
                        redrop: false,
                    },
                ),
            )
        },
        Instr::Store { map_ty, map, key, val } => {
            let k = match map_ty.key() {
                Ok(k) => k,
                Err(e) => {
                    return Some(Err(e));
                },
            };
            let v = match map_ty.val() {
                Ok(v) => v,
                Err(e) => {
                    return Some(Err(e));
                },
            };
            let name = match insert_name(*map_ty) {
                Ok(name) => name,
                Err(e) => {
                    return Some(Err(e));
                },
            };
            Some(
                Ok(
                    Plan {
                        act: Act::Call(Callee::Intrinsic(name)),
                        rt: false,
                        konst: None,
                        a: Some((*map, *map_ty)),
                        b: Some((*key, k)),
                        c: Some((*val, v)),
                        dst: None,
                        redrop: false,
                    },
                ),
            )
        },
        Instr::LoadSlot { ty, dst, slot } => {
            let name = match load_slot_name(*ty) {
                Ok(name) => name,
                Err(e) => {
                    return Some(Err(e));
                },
            };
            Some(
                Ok(
                    Plan {
                        act: Act::Call(Callee::Intrinsic(name)),
                        rt: true,
                        konst: Some(
                            Konst {
                                ty: LlTy::I64,
                                bits: #[verifier::truncate]
                                (*slot as u64),
                                sign_extend: false,
                                last: false,
                            },
                        ),
                        a: None,
                        b: None,
                        c: None,
                        dst: Some((*dst, *ty)),
                        redrop: false,
                    },
                ),
            )
        },
        Instr::StoreSlot { ty, src, slot } => {
            let name = match store_slot_name(*ty) {
                Ok(name) => name,
                Err(e) => {
                    return Some(Err(e));
                },
            };
            Some(
                Ok(
                    Plan {
                        act: Act::Call(Callee::Intrinsic(name)),
                        rt: true,
                        konst: Some(
                            Konst {
                                ty: LlTy::I64,
                                bits: #[verifier::truncate]
                                (*slot as u64),
                                sign_extend: false,
                                last: false,
                            },
                        ),
                        a: Some((*src, *ty)),
                        b: None,
                        c: None,
                        dst: None,
                        redrop: false,
                    },
                ),
            )
        },
        _ => None,
    }
}

impl<'a> FunctionView<'a> {
    /// Loads an operand of a plan, if there is one, and puts its value
    /// behind `vs`.
    fn load_operand(&mut self, r: Option<Reg>, vs: &mut Vec<Value>) -> (res: Result<
        (),
        CompileError,
    >)
        requires
            old(self).wf(),
        ensures
            final(self).env() == old(self).env(),
            match model::load_operand(old(self).state(), old(self).env(), r) {
                Ok((s, v)) => res is Ok && final(self).state() == s && final(vs)@ == old(vs)@ + v,
                Err(e) => res == Err::<(), CompileError>(e),
            },
    {
        match r {
            Some(reg) => match self.get_local(reg) {
                Ok(v) => {
                    vs.push(v);
                    assert(vs@ =~= old(vs)@ + seq![v]);
                    Ok(())
                },
                Err(e) => Err(e),
            },
            None => {
                assert(vs@ =~= old(vs)@ + Seq::<Value>::empty());
                Ok(())
            },
        }
    }

    /// The arguments of the call of a plan.
    fn call_args(&mut self, p: &Plan, vs: &Vec<Value>) -> (args: Vec<Value>)
        requires
            old(self).wf(),
        ensures
            final(self).env() == old(self).env(),
            (final(self).state(), args@) == model::call_args(
                old(self).state(),
                old(self).env(),
                *p,
                vs@,
            ),
    {
        let mut args: Vec<Value> = Vec::new();
        if p.rt {
            let rt = self.runtime_val();
            args.push(rt);
        }
        let ghost pre = args@;
        proof {
            if p.rt {
                assert(pre =~= seq![args@[0]]);
            } else {
                assert(pre =~= Seq::<Value>::empty());
            }
        }
        match p.konst {
            Some(k) => {
                let kv = self.const_int(k.ty, k.bits, k.sign_extend);
                if !k.last {
                    args.push(kv);
                }
                let mut i: usize = 0;
                let ghost base = args@;
                while i < vs.len()
                    invariant
                        i <= vs.len(),
                        args@ == base + vs@.take(i as int),
                    decreases vs.len() - i,
                {
                    args.push(vs[i]);
                    assert(args@ =~= base + vs@.take(i + 1));
                    i += 1;
                }
                proof {
                    assert(vs@.take(i as int) =~= vs@);
                }
                if k.last {
                    args.push(kv);
                    assert(args@ =~= pre + vs@ + seq![kv]);
                } else {
                    assert(args@ =~= pre + seq![kv] + vs@);
                }
            },
            None => {
                let mut i: usize = 0;
                while i < vs.len()
                    invariant
                        i <= vs.len(),
                        args@ == pre + vs@.take(i as int),
                    decreases vs.len() - i,
                {
                    args.push(vs[i]);
                    assert(args@ =~= pre + vs@.take(i + 1));
                    i += 1;
                }
                proof {
                    assert(vs@.take(i as int) =~= vs@);
                }
            },
        }
        args
    }

    /// The operation of a plan on operands with the values `vs`.
    fn act(&mut self, p: &Plan, vs: &Vec<Value>) -> (v: Value)
        requires
            old(self).wf(),
            model::plan_fits(*p),
            p.a is Some ==> vs@.len() >= 1,
            p.a is Some && p.b is Some ==> vs@.len() >= 2,
        ensures
            final(self).env() == old(self).env(),
            (final(self).state(), v) == model::act(old(self).state(), old(self).env(), *p, vs@),
    {
        match p.act {
            Act::Call(callee) => {
                let args = self.call_args(p, vs);
                self.call_value(callee, &args)
            },
            Act::Binary(op) => self.emit(Op::Binary(op, vs[0], vs[1])),
            Act::Bits1(bw) => self.emit(Op::Bits1(bw, vs[0])),
            Act::Bits2(bw) => self.emit(Op::Bits2(bw, vs[0], vs[1])),
            Act::ICmp(pred) => self.compare_int(pred, vs[0], vs[1]),
            Act::FCmp(pred) => self.compare_float(pred, vs[0], vs[1]),
            Act::FNeg => self.emit(Op::FNeg(vs[0])),
            Act::FPToSI => self.emit(Op::FPToSI(vs[0], LlTy::I64)),
            Act::SIToFP => self.emit(Op::SIToFP(vs[0], LlTy::F64)),
            Act::NotInt => {
                let zero = self.const_int(LlTy::I64, 0, true);
                self.compare_int(Pred::EQ, vs[0], zero)
            },
            Act::NotStr => {
                let len = self.call("str_len", &one(vs[0]));
                let zero = self.const_int(LlTy::I64, 0, true);
                self.compare_int(Pred::EQ, len, zero)
            },
            Act::NegInt => {
                let zero = self.const_int(LlTy::I64, 0, true);
                self.emit(Op::Binary(BinOp::Sub, zero, vs[0]))
            },
        }
    }

    /// Drops the value of a register.
    pub fn drop_reg(&mut self, reg: Reg) -> (r: Result<(), CompileError>)
        requires
            old(self).wf(),
        ensures
            final(self).env() == old(self).env(),
            match model::get_local(old(self).state(), old(self).env(), reg) {
                Ok((s, v)) => r is Ok && final(self).state() == model::drop_val(s, v, reg.1),
                Err(e) => r == Err::<(), CompileError>(e),
            },
    {
        match self.get_local(reg) {
            Ok(val) => {
                self.drop_val(val, reg.1);
                Ok(())
            },
            Err(e) => Err(e),
        }
    }

    /// Lowers a simple instruction by its plan.
    pub fn run_plan(&mut self, p: &Plan) -> (r: Result<(), CompileError>)
        requires
            old(self).wf(),
            model::plan_fits(*p),
        ensures
            final(self).env() == old(self).env(),
            model::follows(
                model::run_plan(old(self).state(), old(self).env(), *p),
                r,
                final(self).state(),
            ),
    {
        let mut vs: Vec<Value> = Vec::new();
        match self.load_operand(p.a, &mut vs) {
            Ok(()) => {},
            Err(e) => {
                return Err(e);
            },
        }
        match self.load_operand(p.b, &mut vs) {
            Ok(()) => {},
            Err(e) => {
                return Err(e);
            },
        }
        match self.load_operand(p.c, &mut vs) {
            Ok(()) => {},
            Err(e) => {
                return Err(e);
            },
        }
        let v = self.act(p, &vs);
        match p.dst {
            Some(d) => {
                self.bind_val(d, v);
                if p.redrop && self.is_global(d) {
                    // The value came counted, and binding it to a global
                    // has counted it again.
                    return self.drop_reg(d);
                }
            },
            None => {},
        }
        Ok(())
    }
}

impl<'a> FunctionView<'a> {
    /// The iterator of a register.
    pub fn get_iter(&self, iter: Reg) -> (r: Result<IterState, CompileError>)
        ensures
            r == model::get_iter(self.state(), iter),
    {
        match (self.f.iter_ptr.get(iter), self.f.iter_cur.get(iter), self.f.iter_len.get(iter)) {
            (Some(iter_ptr), Some(cur_index), Some(len)) => Ok(
                IterState { iter_ptr, cur_index, len },
            ),
            _ => Err(CompileError::UnboundIterator(iter.0, iter.1)),
        }
    }

    /// Begins the iteration `dst` over the keys of the map `arr`.
    pub fn iter_begin(&mut self, dst: Reg, arr: Reg) -> (r: Result<(), CompileError>)
        requires
            old(self).wf(),
        ensures
            final(self).env() == old(self).env(),
            model::follows(
                model::iter_begin(old(self).state(), old(self).env(), dst, arr),
                r,
                final(self).state(),
            ),
    {
        let arrv = match self.get_local(arr) {
            Ok(v) => v,
            Err(e) => {
                return Err(e);
            },
        };
        let (begin_fn, len_fn) = match (iter_name(arr.1), len_name(arr.1)) {
            (Ok(begin_fn), Ok(len_fn)) => (begin_fn, len_fn),
            _ => {
                return Err(CompileError::NotAMap(arr.1));
            },
        };
        let iter_ptr = self.call(begin_fn, &one(arrv));
        let cur_index = self.alloca(Ty::Int);
        let len = self.call(len_fn, &one(arrv));
        self.f.iter_ptr.insert(dst, iter_ptr);
        self.f.iter_cur.insert(dst, cur_index);
        self.f.iter_len.insert(dst, len);
        Ok(())
    }

    /// Whether the iteration `iter` has a key left.
    pub fn iter_hasnext(&mut self, iter: Reg, dst: Reg) -> (r: Result<(), CompileError>)
        requires
            old(self).wf(),
        ensures
            final(self).env() == old(self).env(),
            model::follows(
                model::iter_hasnext(old(self).state(), old(self).env(), iter, dst),
                r,
                final(self).state(),
            ),
    {
        let istate = match self.get_iter(iter) {
            Ok(istate) => istate,
            Err(e) => {
                return Err(e);
            },
        };
        let cur = self.emit(Op::Load { ptr: istate.cur_index, ty: LlTy::I64 });
        let hasnext = self.compare_int(Pred::ULT, cur, istate.len);
        self.bind_val(dst, hasnext);
        Ok(())
    }

    /// The next key of the iteration `iter`.
    pub fn iter_getnext(&mut self, iter: Reg, dst: Reg) -> (r: Result<(), CompileError>)
        requires
            old(self).wf(),
        ensures
            final(self).env() == old(self).env(),
            model::follows(
                model::iter_getnext(old(self).state(), old(self).env(), iter, dst),
                r,
                final(self).state(),
            ),
    {
        let istate = match self.get_iter(iter) {
            Ok(istate) => istate,
            Err(e) => {
                return Err(e);
            },
        };
        let cur = self.emit(Op::Load { ptr: istate.cur_index, ty: LlTy::I64 });
        self.emit(Op::Arg(cur));
        let res_loc = self.emit(
            Op::Gep { ptr: istate.iter_ptr, ty: base_ty(dst.1), indices: 1 },
        );
        let res = self.emit(Op::Load { ptr: res_loc, ty: base_ty(dst.1) });
        let one_v = self.const_int(LlTy::I64, 1, true);
        let next_ix = self.emit(Op::Binary(BinOp::Add, cur, one_v));
        self.emit(Op::Store { val: next_ix, ptr: istate.cur_index });
        if let Ty::Str = dst.1 {
            self.call("ref_str", &one(res_loc));
        }
        self.bind_val(dst, res);
        Ok(())
    }

    /// Loads the registers `regs` in order and puts their values behind
    /// `out`.
    fn get_locals(&mut self, regs: &Vec<Reg>, out: &mut Vec<Value>) -> (r: Result<
        (),
        CompileError,
    >)
        requires
            old(self).wf(),
        ensures
            final(self).env() == old(self).env(),
            match model::get_locals(old(self).state(), old(self).env(), regs@) {
                Ok((s, vs)) => r is Ok && final(self).state() == s && final(out)@ == old(out)@ + vs,
                Err(e) => r == Err::<(), CompileError>(e),
            },
    {
        let ghost s0 = self.state();
        let ghost env = self.env();
        let mut i: usize = 0;
        proof {
            assert(out@ =~= old(out)@ + Seq::<Value>::empty());
            assert(regs@.take(0) =~= Seq::<Reg>::empty());
        }
        while i < regs.len()
            invariant
                i <= regs.len(),
                self.wf(),
                self.env() == env,
                env == old(self).env(),
                s0 == old(self).state(),
                model::get_locals(s0, env, regs@.take(i as int)) matches Ok((s, vs)) && s
                    == self.state() && out@ == old(out)@ + vs,
            decreases regs.len() - i,
        {
            proof {
                assert(regs@.take(i + 1).drop_last() =~= regs@.take(i as int));
                assert(regs@.take(i + 1).last() == regs@[i as int]);
            }
            let ghost before = model::get_locals(s0, env, regs@.take(i as int))->Ok_0.1;
            match self.get_local(regs[i]) {
                Ok(v) => {
                    out.push(v);
                    proof {
                        assert(out@ =~= old(out)@ + before.push(v));
                    }
                },
                Err(e) => {
                    proof {
                        model::lemma_get_locals_err(s0, env, regs@, i + 1);
                    }
                    return Err(e);
                },
            }
            i += 1;
        }
        proof {
            assert(regs@.take(i as int) =~= regs@);
        }
        Ok(())
    }

    /// A printf of the kind `kind`; the value is the result of the
    /// wrapper.
    pub fn printf(
        &mut self,
        kind: PrintfKind,
        fmt: NumTy,
        args: &Vec<Reg>,
        output: Option<(NumTy, bool)>,
    ) -> (r: Result<Value, CompileError>)
        requires
            old(self).wf(),
        ensures
            final(self).env() == old(self).env(),
            model::yields(
                model::printf(old(self).state(), old(self).env(), kind, fmt, args@, output),
                r,
                final(self).state(),
            ),
    {
        // The types of the arguments and the kind say which wrapper to call.
        let mut arg_tys: Vec<Ty> = Vec::new();
        let mut i: usize = 0;
        while i < args.len()
            invariant
                i <= args.len(),
                arg_tys@ == model::types_of(args@.take(i as int)),
            decreases args.len() - i,
        {
            arg_tys.push(args[i].1);
            assert(arg_tys@ =~= model::types_of(args@.take(i + 1)));
            i += 1;
        }
        proof {
            assert(args@.take(i as int) =~= args@);
        }
        let printf_fn = self.printfs.wrapped_printf(arg_tys, kind);
        let mut arg_vs: Vec<Value> = Vec::new();
        let rt = self.runtime_val();
        arg_vs.push(rt);
        match self.get_local((fmt, Ty::Str)) {
            Ok(fmtv) => {
                arg_vs.push(fmtv);
            },
            Err(e) => {
                return Err(e);
            },
        }
        let ghost head = arg_vs@;
        match self.get_locals(args, &mut arg_vs) {
            Ok(()) => {},
            Err(e) => {
                return Err(e);
            },
        }
        let ghost vs = arg_vs@.skip(2);
        proof {
            assert(head =~= seq![rt, head[1]]);
            assert(arg_vs@ =~= seq![rt, head[1]] + vs);
        }
        if let Some((path, append)) = output {
            match self.get_local((path, Ty::Str)) {
                Ok(pathv) => {
                    arg_vs.push(pathv);
                    let appv = self.const_int(LlTy::I64, flag(append), false);
                    arg_vs.push(appv);
                    proof {
                        assert(arg_vs@ =~= seq![rt, head[1]] + vs + seq![pathv, appv]);
                    }
                },
                Err(e) => {
                    return Err(e);
                },
            }
        }
        Ok(self.call_value(Callee::Printf(printf_fn), &arg_vs))
    }

    /// A move.
    pub fn mov(&mut self, ty: Ty, dst: NumTy, src: NumTy) -> (r: Result<(), CompileError>)
        requires
            old(self).wf(),
        ensures
            final(self).env() == old(self).env(),
            model::follows(
                model::mov(old(self).state(), old(self).env(), ty, dst, src),
                r,
                final(self).state(),
            ),
    {
        let sv = match self.get_local((src, ty)) {
            Ok(sv) => sv,
            Err(e) => {
                return Err(e);
            },
        };
        if let Ty::Str = ty {
            self.call("ref_str", &one(sv));
            let loaded = self.emit(Op::Load { ptr: sv, ty: LlTy::I128 });
            self.bind_val((dst, Ty::Str), loaded);
        } else {
            self.bind_val((dst, ty), sv);
        }
        Ok(())
    }

    /// Emits the code for a low-level instruction. An instruction that is
    /// refused leaves the function as it was: nothing is emitted and
    /// nothing bound.
    pub fn gen_ll_inst(&mut self, inst: &Instr) -> (r: Result<(), CompileError>)
        requires
            old(self).wf(),
        ensures
            final(self).env() == old(self).env(),
            model::follows(
                model::gen_ll_inst(old(self).state(), old(self).env(), *inst),
                r,
                final(self).state(),
            ),
            model::refusal(*inst) matches Some(e) ==> r == Err::<(), CompileError>(e)
                && final(self).state() == old(self).state(),
    {
        if let Some(p) = plan(inst) {
            proof {
                model::lemma_plan_fits(*inst);
            }
            return self.run_plan(&p);
        }
        if let Some(r) = typed_plan(inst) {
            return match r {
                Ok(p) => self.run_plan(&p),
                Err(e) => Err(e),
            };
        }
        match inst {
            Instr::StoreConstStr(sr, repr) => {
                let v = self.emit(Op::ConstStr { repr: *repr });
                self.bind_val((*sr, Ty::Str), v);
            },
            Instr::StoreConstInt(ir, i) => {
                let v = self.const_int(LlTy::I64, #[verifier::truncate] (*i as u64), true);
                self.bind_val((*ir, Ty::Int), v);
            },
            Instr::StoreConstFloat(fr, bits) => {
                let v = self.emit(Op::ConstReal { bits: *bits });
                self.bind_val((*fr, Ty::Float), v);
            },
            Instr::Sprintf { dst, fmt, args } => {
                match self.printf(PrintfKind::Sprintf, *fmt, args, None) {
                    Ok(resv) => {
                        self.bind_val((*dst, Ty::Str), resv);
                    },
                    Err(e) => {
                        return Err(e);
                    },
                }
            },
            Instr::Printf { output, fmt, args } => {
                let kind = if output.is_some() {
                    PrintfKind::File
                } else {
                    PrintfKind::Stdout
                };
                match self.printf(kind, *fmt, args, *output) {
                    Ok(_) => {},
                    Err(e) => {
                        return Err(e);
                    },
                }
            },
            Instr::Mov(ty, dst, src) => {
                return self.mov(*ty, *dst, *src);
            },
            Instr::IterBegin { map_ty, map, dst } => {
                return match map_ty.key_iter() {
                    Ok(iter_ty) => self.iter_begin((*dst, iter_ty), (*map, *map_ty)),
                    Err(e) => Err(e),
                };
            },
            Instr::IterHasNext { iter_ty, dst, iter } => {
                return self.iter_hasnext((*iter, *iter_ty), (*dst, Ty::Int));
            },
            Instr::IterGetNext { iter_ty, dst, iter } => {
                return match iter_ty.iter() {
                    Ok(ty) => self.iter_getnext((*iter, *iter_ty), (*dst, ty)),
                    Err(e) => Err(e),
                };
            },
            Instr::Push(_, _) | Instr::Pop(_, _) => {
                return Err(CompileError::PushPop);
            },
            Instr::AllocMap(_, _) => {
                return Err(CompileError::AllocMap);
            },
            _ => {
                return Err(CompileError::BytecodeControlFlow);
            },
        }
        Ok(())
    }

    /// A return of the value of the register `val`.
    pub fn ret(&mut self, val: Reg) -> (r: Result<(), CompileError>)
        requires
            old(self).wf(),
        ensures
            final(self).env() == old(self).env(),
            match model::get_local(old(self).state(), old(self).env(), val) {
                Ok((s, v)) => r is Ok && final(self).state() == model::ret_val(s, v, val.1),
                Err(e) => r == Err::<(), CompileError>(e),
            },
    {
        match self.get_local(val) {
            Ok(v) => {
                self.ret_val(v, val.1);
                Ok(())
            },
            Err(e) => Err(e),
        }
    }

    /// A return of the value `to_return` of type `ty`.
    pub fn ret_val(&mut self, to_return: Value, ty: Ty)
        ensures
            final(self).env() == old(self).env(),
            final(self).state() == model::ret_val(old(self).state(), to_return, ty),
    {
        let ghost s0 = self.state();
        let n = self.f.order.len();
        let mut i: usize = 0;
        proof {
            assert(s0.order.take(0) =~= Seq::<Reg>::empty());
        }
        while i < n
            invariant
                i <= n,
                n == s0.order.len(),
                self.env() == old(self).env(),
                self.state() == model::drop_locals(s0, s0.order.take(i as int), to_return),
                model::same_tables(self.state(), s0),
            decreases n - i,
        {
            let reg = self.f.order[i];
            proof {
                assert(s0.order.take(i + 1).drop_last() =~= s0.order.take(i as int));
                assert(s0.order.take(i + 1).last() == reg);
                model::lemma_drop_locals_tables(s0, s0.order.take(i + 1), to_return);
            }
            if !self.f.skip_drop.contains(reg) {
                match self.f.locals.get(reg) {
                    Some(llval) => {
                        if llval != to_return {
                            self.drop_val(llval, reg.1);
                        }
                    },
                    None => {},
                }
            }
            i += 1;
        }
        proof {
            assert(s0.order.take(i as int) =~= s0.order);
        }
        if let Ty::Str = ty {
            let loaded = self.emit(Op::Load { ptr: to_return, ty: LlTy::I128 });
            self.emit(Op::Ret(loaded));
        } else {
            self.emit(Op::Ret(to_return));
        }
    }
}

impl<'a> FunctionView<'a> {
    /// Loads the arguments `args` of a call in order and puts their
    /// values behind `out`.
    fn get_params(&mut self, args: &Vec<Reg>, out: &mut Vec<Value>) -> (r: Result<
        (),
        CompileError,
    >)
        requires
            old(self).wf(),
        ensures
            final(self).env() == old(self).env(),
            match model::get_params(old(self).state(), old(self).env(), args@) {
                Ok((s, vs)) => r is Ok && final(self).state() == s && final(out)@ == old(out)@ + vs,
                Err(e) => r == Err::<(), CompileError>(e),
            },
    {
        let ghost s0 = self.state();
        let ghost env = self.env();
        let mut i: usize = 0;
        proof {
            assert(out@ =~= old(out)@ + Seq::<Value>::empty());
            assert(args@.take(0) =~= Seq::<Reg>::empty());
        }
        while i < args.len()
            invariant
                i <= args.len(),
                self.wf(),
                self.env() == env,
                env == old(self).env(),
                s0 == old(self).state(),
                model::get_params(s0, env, args@.take(i as int)) matches Ok((s, vs)) && s
                    == self.state() && out@ == old(out)@ + vs,
            decreases args.len() - i,
        {
            proof {
                assert(args@.take(i + 1).drop_last() =~= args@.take(i as int));
                assert(args@.take(i + 1).last() == args@[i as int]);
            }
            let ghost before = model::get_params(s0, env, args@.take(i as int))->Ok_0.1;
            match self.get_param(args[i]) {
                Ok(v) => {
                    out.push(v);
                    proof {
                        assert(out@ =~= old(out)@ + before.push(v));
                    }
                },
                Err(e) => {
                    proof {
                        model::lemma_get_params_err(s0, env, args@, i + 1);
                    }
                    return Err(e);
                },
            }
            i += 1;
        }
        proof {
            assert(args@.take(i as int) =~= args@);
        }
        Ok(())
    }

    /// Puts behind `out` the parameters through which the globals
    /// `globals` of a callee come.
    fn pass_globals(&mut self, globals: &Vec<Reg>, out: &mut Vec<Value>)
        requires
            old(self).wf(),
            forall|i: int| 0 <= i < globals@.len() ==> old(self).env().is_global(globals@[i]),
        ensures
            final(self).env() == old(self).env(),
            final(self).state() == model::pass_globals(
                old(self).state(),
                old(self).env(),
                globals@,
            ).0,
            final(out)@ == old(out)@ + model::pass_globals(
                old(self).state(),
                old(self).env(),
                globals@,
            ).1,
    {
        let ghost s0 = self.state();
        let ghost env = self.env();
        let decls: &'a Vec<FuncInfo> = self.decls;
        let mine: &'a RegMap = &decls[self.f.id].globals;
        let mut i: usize = 0;
        proof {
            assert(out@ =~= old(out)@ + Seq::<Value>::empty());
            assert(globals@.take(0) =~= Seq::<Reg>::empty());
            assert(mine@ == env.me().globals);
        }
        while i < globals.len()
            invariant
                i <= globals.len(),
                self.wf(),
                mine@ == env.me().globals,
                self.env() == env,
                env == old(self).env(),
                s0 == old(self).state(),
                forall|i: int| 0 <= i < globals@.len() ==> env.is_global(globals@[i]),
                self.state() == model::pass_globals(s0, env, globals@.take(i as int)).0,
                out@ == old(out)@ + model::pass_globals(s0, env, globals@.take(i as int)).1,
            decreases globals.len() - i,
        {
            proof {
                assert(globals@.take(i + 1).drop_last() =~= globals@.take(i as int));
                assert(globals@.take(i + 1).last() == globals@[i as int]);
            }
            let ghost before = model::pass_globals(s0, env, globals@.take(i as int)).1;
            let ix = match mine.get(globals[i]) {
                Some(ix) => ix,
                None => vstd::pervasive::unreached(),
            };
            let v = self.emit(Op::Param(ix));
            out.push(v);
            proof {
                assert(out@ =~= old(out)@ + before.push(v));
            }
            i += 1;
        }
        proof {
            assert(globals@.take(i as int) =~= globals@);
        }
    }

    /// Emits the code for a high-level instruction.
    pub fn gen_hl_inst(&mut self, inst: &HighLevel) -> (r: Result<(), CompileError>)
        requires
            old(self).wf(),
            inst matches HighLevel::Call { func_id, .. } ==> model::can_call(
                old(self).env(),
                func_id as int,
            ),
        ensures
            final(self).env() == old(self).env(),
            model::follows(
                model::gen_hl_inst(old(self).state(), old(self).env(), *inst),
                r,
                final(self).state(),
            ),
    {
        match inst {
            HighLevel::Call { func_id, dst_reg, dst_ty, args } => {
                let decls: &'a Vec<FuncInfo> = self.decls;
                let target = &decls[*func_id as usize];
                // The arguments come first, then the globals of the callee,
                // and the runtime comes last.
                let ghost s0 = self.state();
                let ghost env = self.env();
                let mut argvs: Vec<Value> = Vec::new();
                match self.get_params(args, &mut argvs) {
                    Ok(()) => {},
                    Err(e) => {
                        return Err(e);
                    },
                }
                let ghost s1 = self.state();
                let ghost vs = argvs@;
                let ghost order = env.decls[*func_id as int].global_order;
                proof {
                    assert(model::get_params(s0, env, args@) == Ok::<
                        (FnState, Seq<Value>),
                        CompileError,
                    >((s1, vs))) by {
                        assert(Seq::<Value>::empty() + model::get_params(s0, env, args@)->Ok_0.1
                            =~= model::get_params(s0, env, args@)->Ok_0.1);
                    }
                    assert(order == target.global_order@);
                    assert forall|i: int| 0 <= i < order.len() implies env.is_global(order[i]) by {
                        assert(env.is_global(env.decls[*func_id as int].global_order[i]));
                    }
                }
                self.pass_globals(&target.global_order, &mut argvs);
                let ghost gs = model::pass_globals(s1, env, order).1;
                let rt = self.runtime_val();
                argvs.push(rt);
                proof {
                    assert(argvs@ =~= vs + gs + seq![rt]);
                }
                let resv = self.call_value(Callee::Udf(*func_id as usize), &argvs);
                self.bind_val((*dst_reg, *dst_ty), resv);
            },
            HighLevel::Phi(reg, ty, _preds) => {
                self.f.skip_drop.insert((*reg, *ty), 1);
                let llty = match ty {
                    Ty::Str => LlTy::Ptr(*ty),
                    _ => base_ty(*ty),
                };
                let res = self.emit(Op::Phi(llty));
                // A phi is always local, and it stands for values that
                // other registers own: it is bound as it is.
                self.insert_local((*reg, *ty), res);
                proof {
                    assert(self.f.skip_drop@.dom() =~= old(self).f.skip_drop@.dom().insert(
                        (*reg, *ty),
                    ));
                }
            },
            // Returns are lowered once all blocks are laid out.
            HighLevel::Ret(_reg, _ty) => {},
            HighLevel::DropIter(reg, ty) => {
                let drop_fn = match drop_iter_name(*ty) {
                    Ok(name) => name,
                    Err(e) => {
                        return Err(e);
                    },
                };
                let istate = match self.get_iter((*reg, *ty)) {
                    Ok(istate) => istate,
                    Err(e) => {
                        return Err(e);
                    },
                };
                self.call(drop_fn, &two(istate.iter_ptr, istate.len));
            },
        }
        Ok(())
    }

    /// Gives each of the registers that are live on entry its default
    /// value.
    fn init_locals(&mut self, regs: &Vec<Reg>) -> (r: Result<(), CompileError>)
        ensures
            final(self).env() == old(self).env(),
            model::follows(
                model::init_locals(old(self).state(), regs@),
                r,
                final(self).state(),
            ),
    {
        let mut i: usize = 0;
        proof {
            assert(regs@.skip(0) =~= regs@);
        }
        while i < regs.len()
            invariant
                i <= regs.len(),
                self.env() == old(self).env(),
                model::init_locals(old(self).state(), regs@) == model::init_locals(
                    self.state(),
                    regs@.skip(i as int),
                ),
            decreases regs.len() - i,
        {
            proof {
                assert(regs@.skip(i as int).drop_first() =~= regs@.skip(i + 1));
            }
            match self.alloc_local(regs[i].1) {
                Ok(val) => {
                    self.insert_local(regs[i], val);
                },
                Err(e) => {
                    return Err(e);
                },
            }
            i += 1;
        }
        Ok(())
    }

    /// Binds the arguments to the first parameters.
    fn bind_args(&mut self, args: &Vec<Reg>)
        ensures
            final(self).env() == old(self).env(),
            final(self).state() == model::bind_args(old(self).state(), args@, 0),
    {
        let mut i: usize = 0;
        proof {
            assert(args@.skip(0) =~= args@);
        }
        while i < args.len()
            invariant
                i <= args.len(),
                self.env() == old(self).env(),
                model::bind_args(old(self).state(), args@, 0) == model::bind_args(
                    self.state(),
                    args@.skip(i as int),
                    i as nat,
                ),
            decreases args.len() - i,
        {
            proof {
                assert(args@.skip(i as int).drop_first() =~= args@.skip(i + 1));
            }
            let ghost before = self.f.skip_drop@.dom();
            let argv = self.emit(Op::Param(i as u64));
            // The caller keeps the references of its arguments.
            self.insert_local(args[i], argv);
            self.f.skip_drop.insert(args[i], 1);
            proof {
                assert(self.f.skip_drop@.dom() =~= before.insert(args@[i as int]));
            }
            i += 1;
        }
    }

    /// Emits the code for the instructions of a block.
    fn gen_block(&mut self, nodes: &Vec<Node>) -> (r: Result<(), CompileError>)
        requires
            old(self).wf(),
            model::calls_fit(old(self).env(), nodes@),
        ensures
            final(self).env() == old(self).env(),
            model::follows(
                model::gen_block(old(self).state(), old(self).env(), nodes@),
                r,
                final(self).state(),
            ),
    {
        let mut j: usize = 0;
        proof {
            assert(nodes@.skip(0) =~= nodes@);
        }
        while j < nodes.len()
            invariant
                j <= nodes.len(),
                self.wf(),
                self.env() == old(self).env(),
                model::calls_fit(old(self).env(), nodes@),
                model::gen_block(old(self).state(), old(self).env(), nodes@) == model::gen_block(
                    self.state(),
                    self.env(),
                    nodes@.skip(j as int),
                ),
            decreases nodes.len() - j,
        {
            proof {
                assert(nodes@.skip(j as int).drop_first() =~= nodes@.skip(j + 1));
                assert(nodes@.skip(j as int)[0] == nodes@[j as int]);
            }
            let done = match &nodes[j] {
                Node::Low(ll) => self.gen_ll_inst(ll),
                Node::High(hl) => self.gen_hl_inst(hl),
            };
            match done {
                Ok(()) => {},
                Err(e) => {
                    return Err(e);
                },
            }
            j += 1;
        }
        Ok(())
    }
}

/// The edges that leave the block `from`: the first with a condition, and
/// the first without.
pub fn out_edges(edges: &Vec<Edge>, from: usize) -> (r: (Option<(NumTy, usize)>, Option<usize>))
    ensures
        r.0 == model::cond_edge(edges@, from as int),
        r.1 == model::plain_edge(edges@, from as int),
{
    let mut tcase: Option<(NumTy, usize)> = None;
    let mut ecase: Option<usize> = None;
    let mut k: usize = 0;
    proof {
        assert(edges@.skip(0) =~= edges@);
    }
    while k < edges.len()
        invariant
            k <= edges.len(),
            model::cond_edge(edges@, from as int) == (if tcase is Some {
                tcase
            } else {
                model::cond_edge(edges@.skip(k as int), from as int)
            }),
            model::plain_edge(edges@, from as int) == (if ecase is Some {
                ecase
            } else {
                model::plain_edge(edges@.skip(k as int), from as int)
            }),
        decreases edges.len() - k,
    {
        proof {
            assert(edges@.skip(k as int).drop_first() =~= edges@.skip(k + 1));
            assert(edges@.skip(k as int)[0] == edges@[k as int]);
        }
        let e = &edges[k];
        if e.from as usize == from {
            match e.cond {
                Some(reg) => {
                    if tcase.is_none() {
                        tcase = Some((reg, e.to as usize));
                    }
                },
                None => {
                    if ecase.is_none() {
                        ecase = Some(e.to as usize);
                    }
                },
            }
        }
        k += 1;
    }
    (tcase, ecase)
}

impl<'a> FunctionView<'a> {
    /// Emits the code of the block `i` of `frame`: its instructions, then
    /// its branch.
    fn gen_node(&mut self, frame: &Frame, i: usize) -> (r: Result<(), CompileError>)
        requires
            old(self).wf(),
            i < frame.blocks@.len(),
            model::calls_fit(old(self).env(), frame.blocks@[i as int]@),
        ensures
            final(self).env() == old(self).env(),
            model::follows(
                model::gen_node(old(self).state(), old(self).env(), *frame, i as int),
                r,
                final(self).state(),
            ),
    {
        self.position_at_end(Block::Body(i));
        match self.gen_block(&frame.blocks[i]) {
            Ok(()) => {},
            Err(e) => {
                return Err(e);
            },
        }
        let (tcase, ecase) = out_edges(&frame.edges, i);
        // Not every block has an edge that leaves it: some end in a return.
        match ecase {
            Some(ecase) => self.branch(tcase, ecase),
            None => Ok(()),
        }
    }

    /// Emits the code of the blocks `order` of `frame`.
    fn gen_nodes(&mut self, frame: &Frame, order: &Vec<usize>) -> (r: Result<(), CompileError>)
        requires
            old(self).wf(),
            model::frame_fits(old(self).env(), *frame, order@),
        ensures
            final(self).env() == old(self).env(),
            model::follows(
                model::gen_nodes(old(self).state(), old(self).env(), *frame, order@),
                r,
                final(self).state(),
            ),
    {
        let mut k: usize = 0;
        proof {
            assert(order@.skip(0) =~= order@);
        }
        while k < order.len()
            invariant
                k <= order.len(),
                self.wf(),
                self.env() == old(self).env(),
                model::frame_fits(old(self).env(), *frame, order@),
                model::gen_nodes(old(self).state(), old(self).env(), *frame, order@)
                    == model::gen_nodes(self.state(), self.env(), *frame, order@.skip(k as int)),
            decreases order.len() - k,
        {
            proof {
                assert(order@.skip(k as int).drop_first() =~= order@.skip(k + 1));
                assert(order@.skip(k as int)[0] == order@[k as int]);
            }
            match self.gen_node(frame, order[k]) {
                Ok(()) => {},
                Err(e) => {
                    return Err(e);
                },
            }
            k += 1;
        }
        Ok(())
    }

    /// Emits the return of the register `var`.
    fn gen_ret(&mut self, var: Reg) -> (r: Result<(), CompileError>)
        requires
            old(self).wf(),
        ensures
            final(self).env() == old(self).env(),
            model::follows(
                model::gen_ret(old(self).state(), old(self).env(), var),
                r,
                final(self).state(),
            ),
    {
        if self.has_var(var) {
            self.ret(var)
        } else {
            // Nothing has bound the register: the function returns nothing
            // in the program, but its result may be used.
            match self.alloc_local(var.1) {
                Ok(val) => {
                    self.ret_val(val, var.1);
                    Ok(())
                },
                Err(e) => Err(e),
            }
        }
    }

    /// Emits the returns of the block `i`, whose instructions are `nodes`.
    fn gen_rets(&mut self, nodes: &Vec<Node>, i: usize) -> (r: Result<(), CompileError>)
        requires
            old(self).wf(),
        ensures
            final(self).env() == old(self).env(),
            model::follows(
                model::gen_rets(old(self).state(), old(self).env(), nodes@, i as int),
                r,
                final(self).state(),
            ),
    {
        let mut j: usize = 0;
        proof {
            assert(nodes@.skip(0) =~= nodes@);
        }
        while j < nodes.len()
            invariant
                j <= nodes.len(),
                self.wf(),
                self.env() == old(self).env(),
                model::gen_rets(old(self).state(), old(self).env(), nodes@, i as int)
                    == model::gen_rets(self.state(), self.env(), nodes@.skip(j as int), i as int),
            decreases nodes.len() - j,
        {
            proof {
                assert(nodes@.skip(j as int).drop_first() =~= nodes@.skip(j + 1));
                assert(nodes@.skip(j as int)[0] == nodes@[j as int]);
            }
            if let Node::High(HighLevel::Ret(reg, ty)) = &nodes[j] {
                self.position_at_end(Block::Body(i));
                match self.gen_ret((*reg, *ty)) {
                    Ok(()) => {},
                    Err(e) => {
                        return Err(e);
                    },
                }
            }
            j += 1;
        }
        Ok(())
    }

    /// Emits the returns of the blocks `order` of `frame`.
    fn gen_exits(&mut self, frame: &Frame, order: &Vec<usize>) -> (r: Result<(), CompileError>)
        requires
            old(self).wf(),
            forall|k: int| 0 <= k < order@.len() ==> order@[k] < frame.blocks@.len(),
        ensures
            final(self).env() == old(self).env(),
            model::follows(
                model::gen_exits(old(self).state(), old(self).env(), *frame, order@),
                r,
                final(self).state(),
            ),
    {
        let mut k: usize = 0;
        proof {
            assert(order@.skip(0) =~= order@);
        }
        while k < order.len()
            invariant
                k <= order.len(),
                self.wf(),
                self.env() == old(self).env(),
                forall|k: int| 0 <= k < order@.len() ==> order@[k] < frame.blocks@.len(),
                model::gen_exits(old(self).state(), old(self).env(), *frame, order@)
                    == model::gen_exits(self.state(), self.env(), *frame, order@.skip(k as int)),
            decreases order.len() - k,
        {
            proof {
                assert(order@.skip(k as int).drop_first() =~= order@.skip(k + 1));
                assert(order@.skip(k as int)[0] == order@[k as int]);
            }
            match self.gen_rets(&frame.blocks[order[k]], order[k]) {
                Ok(()) => {},
                Err(e) => {
                    return Err(e);
                },
            }
            k += 1;
        }
        Ok(())
    }

    /// Emits the incoming values `preds` of a phi of type `ty`.
    fn incoming(&mut self, ty: Ty, preds: &Vec<(usize, NumTy)>) -> (r: Result<(), CompileError>)
        requires
            old(self).wf(),
        ensures
            final(self).env() == old(self).env(),
            model::follows(
                model::incoming(old(self).state(), old(self).env(), ty, preds@),
                r,
                final(self).state(),
            ),
    {
        let mut k: usize = 0;
        proof {
            assert(preds@.skip(0) =~= preds@);
        }
        while k < preds.len()
            invariant
                k <= preds.len(),
                self.wf(),
                self.env() == old(self).env(),
                model::incoming(old(self).state(), old(self).env(), ty, preds@) == model::incoming(
                    self.state(),
                    self.env(),
                    ty,
                    preds@.skip(k as int),
                ),
            decreases preds.len() - k,
        {
            proof {
                assert(preds@.skip(k as int).drop_first() =~= preds@.skip(k + 1));
                assert(preds@.skip(k as int)[0] == preds@[k as int]);
            }
            match self.get_local((preds[k].1, ty)) {
                Ok(v) => {
                    self.emit(Op::Incoming { value: v, block: preds[k].0 });
                },
                Err(e) => {
                    return Err(e);
                },
            }
            k += 1;
        }
        Ok(())
    }

    /// Wires the phis among the instructions `nodes`.
    fn wire_block(&mut self, nodes: &Vec<Node>) -> (r: Result<(), CompileError>)
        requires
            old(self).wf(),
        ensures
            final(self).env() == old(self).env(),
            model::follows(
                model::wire_block(old(self).state(), old(self).env(), nodes@),
                r,
                final(self).state(),
            ),
    {
        let mut j: usize = 0;
        proof {
            assert(nodes@.skip(0) =~= nodes@);
        }
        while j < nodes.len()
            invariant
                j <= nodes.len(),
                self.wf(),
                self.env() == old(self).env(),
                model::wire_block(old(self).state(), old(self).env(), nodes@) == model::wire_block(
                    self.state(),
                    self.env(),
                    nodes@.skip(j as int),
                ),
            decreases nodes.len() - j,
        {
            proof {
                assert(nodes@.skip(j as int).drop_first() =~= nodes@.skip(j + 1));
                assert(nodes@.skip(j as int)[0] == nodes@[j as int]);
            }
            if let Node::High(HighLevel::Phi(reg, ty, ps)) = &nodes[j] {
                let phi_node = match self.get_local((*reg, *ty)) {
                    Ok(v) => v,
                    Err(e) => {
                        return Err(e);
                    },
                };
                match self.incoming(*ty, ps) {
                    Ok(()) => {},
                    Err(e) => {
                        return Err(e);
                    },
                }
                self.emit(Op::AddIncoming { phi: phi_node, count: ps.len() });
            }
            j += 1;
        }
        Ok(())
    }

    /// Wires the phis of the blocks `order` of `frame`.
    fn wire_phis(&mut self, frame: &Frame, order: &Vec<usize>) -> (r: Result<(), CompileError>)
        requires
            old(self).wf(),
            forall|k: int| 0 <= k < order@.len() ==> order@[k] < frame.blocks@.len(),
        ensures
            final(self).env() == old(self).env(),
            model::follows(
                model::wire_phis(old(self).state(), old(self).env(), *frame, order@),
                r,
                final(self).state(),
            ),
    {
        let mut k: usize = 0;
        proof {
            assert(order@.skip(0) =~= order@);
        }
        while k < order.len()
            invariant
                k <= order.len(),
                self.wf(),
                self.env() == old(self).env(),
                forall|k: int| 0 <= k < order@.len() ==> order@[k] < frame.blocks@.len(),
                model::wire_phis(old(self).state(), old(self).env(), *frame, order@)
                    == model::wire_phis(self.state(), self.env(), *frame, order@.skip(k as int)),
            decreases order.len() - k,
        {
            proof {
                assert(order@.skip(k as int).drop_first() =~= order@.skip(k + 1));
                assert(order@.skip(k as int)[0] == order@[k as int]);
            }
            match self.wire_block(&frame.blocks[order[k]]) {
                Ok(()) => {},
                Err(e) => {
                    return Err(e);
                },
            }
            k += 1;
        }
        Ok(())
    }
}

/// The code of the function `id`, which is `frame`, with its blocks
/// lowered in the order `order`: the steps that build it, and the printf
/// wrappers of the program, to which it may have added.
pub fn gen_function_in(
    decls: &Vec<FuncInfo>,
    id: usize,
    frame: &Frame,
    order: &Vec<usize>,
    printfs: Printfs,
) -> (r: Result<(Vec<Step>, Printfs), CompileError>)
    requires
        id < decls.len(),
        decls[id as int].num_args >= 1,
        model::frame_fits(Env { decls: decls_view(decls@), id: id as int }, *frame, order@),
    ensures
        match model::gen_function(
            Env { decls: decls_view(decls@), id: id as int },
            *frame,
            order@,
            printfs@,
        ) {
            Ok(s) => r matches Ok(code) && code.0@ == s.steps && code.1@ == s.printfs,
            Err(e) => r matches Err(err) && err == e,
        },
{
    let mut view = FunctionView::new(decls, id, printfs);
    match view.init_locals(&frame.locals) {
        Ok(()) => {},
        Err(e) => {
            return Err(e);
        },
    }
    view.bind_args(&frame.args);
    match view.gen_nodes(frame, order) {
        Ok(()) => {},
        Err(e) => {
            return Err(e);
        },
    }
    // Returns drop every local, and the traversal need not come to the
    // returning block last: they are lowered now.
    match view.gen_exits(frame, order) {
        Ok(()) => {},
        Err(e) => {
            return Err(e);
        },
    }
    // Now that every register has its value, the phis can be wired.
    match view.wire_phis(frame, order) {
        Ok(()) => {},
        Err(e) => {
            return Err(e);
        },
    }
    view.emit_entry(Op::Br(0));
    Ok(view.finish())
}

} // verus!
