//! A file system in memory, for tests of the writers.
use vstd::prelude::*;
use vstd::string::*;
use vstd::utf8::*;
use super::{concat, views, CompileError, FileFactory};
use crate::llvm::tables::{list_entries, ListTable};

verus! {

/// What is answered for a file that was never made.
pub const MISSING: &'static str = "no such fake file";

/// What a poisoned file answers.
pub const POISONED: &'static str = "poisoned fake file!";

/// A file of a [`FakeFs`]: its bytes, and whether writing to it fails.
#[derive(Debug)]
pub struct FakeFile {
    data: Vec<u8>,
    poison: bool,
    /// The number of bytes of each vectored write that the file took.
    vectored: Vec<usize>,
    /// How the file was opened, each time that it was: whether to append.
    opened: Vec<bool>,
    /// The number of bytes that the file held at each flush.
    flushed: Vec<usize>,
}

impl FakeFile {
    /// The bytes of the file.
    pub closed spec fn bytes(&self) -> Seq<u8> {
        self.data@
    }

    /// Whether writing to the file fails.
    pub closed spec fn poisoned(&self) -> bool {
        self.poison
    }

    /// The number of bytes of each vectored write that the file took, in
    /// order.
    pub closed spec fn writes(&self) -> Seq<usize> {
        self.vectored@
    }

    /// How the file was opened, each time that it was: whether to append.
    pub closed spec fn opens(&self) -> Seq<bool> {
        self.opened@
    }

    /// The number of bytes that the file held at each flush, in order.
    pub closed spec fn flushes(&self) -> Seq<usize> {
        self.flushed@
    }

    /// An empty file that was never opened.
    pub fn new() -> (r: FakeFile)
        ensures
            r.bytes() == Seq::<u8>::empty(),
            !r.poisoned(),
            r.writes() == Seq::<usize>::empty(),
            r.opens() == Seq::<bool>::empty(),
            r.flushes() == Seq::<usize>::empty(),
    {
        FakeFile {
            data: Vec::new(),
            poison: false,
            vectored: Vec::new(),
            opened: Vec::new(),
            flushed: Vec::new(),
        }
    }

    /// The number of times that the file was flushed.
    pub fn flush_count(&self) -> (r: usize)
        ensures
            r == self.flushes().len(),
    {
        self.flushed.len()
    }

    /// A file with the same bytes, the same poison, and the same writes
    /// and openings behind it.
    pub fn copy(&self) -> (r: FakeFile)
        ensures
            r.bytes() == self.bytes(),
            r.poisoned() == self.poisoned(),
            r.writes() == self.writes(),
            r.opens() == self.opens(),
            r.flushes() == self.flushes(),
    {
        FakeFile {
            data: self.data.clone(),
            poison: self.poison,
            vectored: self.vectored.clone(),
            opened: self.opened.clone(),
            flushed: self.flushed.clone(),
        }
    }

    /// How the file was opened, each time that it was.
    pub fn openings(&self) -> (r: Vec<bool>)
        ensures
            r@ == self.opens(),
    {
        self.opened.clone()
    }

    /// The number of vectored writes that the file took.
    pub fn vectored_writes(&self) -> (r: usize)
        ensures
            r == self.writes().len(),
    {
        self.vectored.len()
    }

    pub fn set_poison(&mut self, p: bool)
        ensures
            final(self).poisoned() == p,
            final(self).bytes() == old(self).bytes(),
            final(self).writes() == old(self).writes(),
            final(self).opens() == old(self).opens(),
            final(self).flushes() == old(self).flushes(),
    {
        self.poison = p;
    }

    pub fn read_data(&self) -> (r: Vec<u8>)
        ensures
            r@ == self.bytes(),
    {
        self.data.clone()
    }

    /// Opens the file: empties it unless `append` is set.
    pub fn reopen(&mut self, append: bool)
        ensures
            final(self).poisoned() == old(self).poisoned(),
            final(self).writes() == old(self).writes(),
            final(self).opens() == old(self).opens().push(append),
            final(self).flushes() == old(self).flushes(),
            final(self).bytes() == (if append {
                old(self).bytes()
            } else {
                Seq::empty()
            }),
    {
        if !append {
            self.clear();
        }
        self.opened.push(append);
    }

    pub fn clear(&mut self)
        ensures
            final(self).poisoned() == old(self).poisoned(),
            final(self).writes() == old(self).writes(),
            final(self).opens() == old(self).opens(),
            final(self).flushes() == old(self).flushes(),
            final(self).bytes() == Seq::<u8>::empty(),
    {
        self.data.clear();
    }

    /// Whether the file takes writes: an error if it is poisoned.
    pub fn result(&self) -> (r: Result<(), CompileError>)
        ensures
            r is Err <==> self.poisoned(),
            r matches Err(e) ==> e.message() == POISONED@,
    {
        if self.poison {
            Err(CompileError(POISONED.to_string()))
        } else {
            Ok(())
        }
    }

    /// Appends `bytes`, unless the file is poisoned.
    pub fn write(&mut self, bytes: &[u8]) -> (r: Result<usize, CompileError>)
        ensures
            final(self).poisoned() == old(self).poisoned(),
            final(self).writes() == old(self).writes(),
            final(self).opens() == old(self).opens(),
            final(self).flushes() == old(self).flushes(),
            match r {
                Ok(n) => !old(self).poisoned() && n == bytes@.len() && final(self).bytes()
                    == old(self).bytes() + bytes@,
                Err(e) => old(self).poisoned() && e.message() == POISONED@ && final(self).bytes()
                    == old(self).bytes(),
            },
    {
        match self.result() {
            Err(e) => Err(e),
            Ok(()) => {
                self.data.extend_from_slice(bytes);
                Ok(bytes.len())
            },
        }
    }

    /// Notes the flush, unless the file is poisoned.
    pub fn flush(&mut self) -> (r: Result<(), CompileError>)
        ensures
            final(self).poisoned() == old(self).poisoned(),
            final(self).bytes() == old(self).bytes(),
            final(self).writes() == old(self).writes(),
            final(self).opens() == old(self).opens(),
            r is Err <==> old(self).poisoned(),
            match r {
                Ok(_) => final(self).flushes() == old(self).flushes().push(
                    old(self).bytes().len() as usize,
                ),
                Err(e) => e.message() == POISONED@ && *final(self) == *old(self),
            },
    {
        match self.result() {
            Err(e) => Err(e),
            Ok(()) => {
                self.flushed.push(self.data.len());
                Ok(())
            },
        }
    }

    /// Appends all of `bufs`, unless the file is poisoned.
    pub fn write_vectored(&mut self, bufs: &Vec<Vec<u8>>) -> (r: Result<usize, CompileError>)
        ensures
            final(self).poisoned() == old(self).poisoned(),
            final(self).opens() == old(self).opens(),
            final(self).flushes() == old(self).flushes(),
            match r {
                Ok(n) => !old(self).poisoned() && n == concat(views(bufs@)).len()
                    && final(self).bytes() == old(self).bytes() + concat(views(bufs@))
                    && final(self).writes() == old(self).writes().push(n),
                Err(e) => old(self).poisoned() && e.message() == POISONED@ && final(self).bytes()
                    == old(self).bytes() && final(self).writes() == old(self).writes(),
            },
    {
        match self.result() {
            Err(e) => Err(e),
            Ok(()) => {
                let start = self.data.len();
                let mut k: usize = 0;
                while k < bufs.len()
                    invariant
                        k <= bufs.len(),
                        self.poison == old(self).poison,
                        self.vectored == old(self).vectored,
                        self.opened == old(self).opened,
                        self.flushed == old(self).flushed,
                        start == old(self).data@.len(),
                        self.data@ == old(self).data@ + concat(views(bufs@).take(k as int)),
                    decreases bufs.len() - k,
                {
                    proof {
                        let all = views(bufs@);
                        assert(all.take(k + 1).drop_last() =~= all.take(k as int));
                        assert(all.take(k + 1).last() == bufs@[k as int]@);
                    }
                    self.data.extend_from_slice(bufs[k].as_slice());
                    k += 1;
                }
                proof {
                    assert(views(bufs@).take(k as int) =~= views(bufs@));
                }
                let written = self.data.len() - start;
                self.vectored.push(written);
                Ok(written)
            },
        }
    }
}

/// An open file of a [`FakeFs`]: the name of the file, or `None` for
/// standard output.
#[derive(Debug)]
pub struct FakeOutput {
    pub path: Option<String>,
}

/// The index of the first of `named` whose name is `path`.
pub open spec fn position(named: Seq<(String, FakeFile)>, path: Seq<char>) -> Option<int>
    decreases named.len(),
{
    if named.len() == 0 {
        None
    } else if named[0].0@ == path {
        Some(0int)
    } else {
        match position(named.drop_first(), path) {
            Some(i) => Some(i + 1),
            None => None,
        }
    }
}

/// The first file of `named` whose name is `path`.
pub open spec fn lookup(named: Seq<(String, FakeFile)>, path: Seq<char>) -> Option<FakeFile> {
    match position(named, path) {
        Some(i) => Some(named[i].1),
        None => None,
    }
}

proof fn lemma_position_is(named: Seq<(String, FakeFile)>, path: Seq<char>, i: int)
    requires
        0 <= i < named.len(),
        named[i].0@ == path,
        forall|j: int| 0 <= j < i ==> named[j].0@ != path,
    ensures
        position(named, path) == Some(i),
    decreases named.len(),
{
    if i > 0 {
        let rest = named.drop_first();
        assert forall|j: int| 0 <= j < i - 1 implies rest[j].0@ != path by {
            assert(rest[j] == named[j + 1]);
        }
        lemma_position_is(rest, path, i - 1);
    }
}

proof fn lemma_position_none(named: Seq<(String, FakeFile)>, path: Seq<char>)
    requires
        forall|j: int| 0 <= j < named.len() ==> named[j].0@ != path,
    ensures
        position(named, path) is None,
    decreases named.len(),
{
    if named.len() > 0 {
        let rest = named.drop_first();
        assert forall|j: int| 0 <= j < rest.len() implies rest[j].0@ != path by {
            assert(rest[j] == named[j + 1]);
        }
        lemma_position_none(rest, path);
    }
}

/// The first file named `path` is found wherever a file is named so.
proof fn lemma_position_first(named: Seq<(String, FakeFile)>, path: Seq<char>)
    ensures
        match position(named, path) {
            Some(i) => 0 <= i < named.len() && named[i].0@ == path && forall|j: int|
                0 <= j < i ==> named[j].0@ != path,
            None => forall|j: int| 0 <= j < named.len() ==> named[j].0@ != path,
        },
    decreases named.len(),
{
    if named.len() > 0 && named[0].0@ != path {
        let rest = named.drop_first();
        lemma_position_first(rest, path);
        match position(rest, path) {
            Some(i) => {
                assert forall|j: int| 0 <= j < i + 1 implies named[j].0@ != path by {
                    if j > 0 {
                        assert(named[j] == rest[j - 1]);
                    }
                }
            },
            None => {
                assert forall|j: int| 0 <= j < named.len() implies named[j].0@ != path by {
                    if j > 0 {
                        assert(named[j] == rest[j - 1]);
                    }
                }
            },
        }
    }
}

/// The key of a name: the bytes of its UTF-8 encoding.
pub open spec fn name_code(path: Seq<char>) -> Seq<u32> {
    Seq::new(encode_utf8(path).len(), |i: int| encode_utf8(path)[i] as u32)
}

/// Two names with one key are the same name.
pub proof fn lemma_name_code(a: Seq<char>, b: Seq<char>)
    requires
        name_code(a) == name_code(b),
    ensures
        a == b,
{
    broadcast use encode_utf8_decode_utf8;

    assert(encode_utf8(a).len() == name_code(a).len());
    assert(encode_utf8(b).len() == name_code(b).len());
    assert forall|i: int| 0 <= i < encode_utf8(a).len() implies encode_utf8(a)[i] == encode_utf8(b)[i] by {
        assert(name_code(a)[i] == encode_utf8(a)[i] as u32);
        assert(name_code(b)[i] == encode_utf8(b)[i] as u32);
    }
    assert(encode_utf8(a) =~= encode_utf8(b));
    assert(decode_utf8(encode_utf8(a)) == a);
    assert(decode_utf8(encode_utf8(b)) == b);
}

/// The key of the name `path`.
fn encode_name(path: &str) -> (r: Vec<u32>)
    ensures
        r@ == name_code(path@),
{
    let bytes = path.as_bytes();
    let mut key: Vec<u32> = Vec::new();
    let mut i: usize = 0;
    while i < bytes.len()
        invariant
            i <= bytes@.len(),
            bytes@ == encode_utf8(path@),
            key@.len() == i,
            forall|j: int| 0 <= j < i ==> key@[j] == bytes@[j] as u32,
        decreases bytes@.len() - i,
    {
        key.push(bytes[i] as u32);
        i += 1;
    }
    assert(key@ =~= name_code(path@));
    key
}

/// Whether the table `held` holds, under the key of the name of each of
/// `named`, its place, and nothing else.
pub open spec fn listed(named: Seq<(String, FakeFile)>, held: Map<Seq<u32>, u64>) -> bool {
    &&& forall|i: int|
        0 <= i < named.len() ==> held.contains_key(#[trigger] name_code(named[i].0@))
            && held[name_code(named[i].0@)] == i
    &&& forall|c: Seq<u32>| #[trigger]
        held.contains_key(c) ==> held[c] < named.len() && name_code(named[held[c] as int].0@) == c
}

/// A file factory that keeps all data in memory: the files in the order in
/// which they were made, and a table that finds each by its name.
pub struct FakeFs {
    pub stdout: FakeFile,
    named: Vec<(String, FakeFile)>,
    index: ListTable,
}

impl FakeFs {
    /// What went to standard output.
    pub closed spec fn standard(&self) -> FakeFile {
        self.stdout
    }

    /// The files with their names, in the order in which they were made.
    pub closed spec fn named(&self) -> Seq<(String, FakeFile)> {
        self.named@
    }

    /// What went to standard output.
    pub fn get_stdout(&self) -> (r: &FakeFile)
        ensures
            *r == self.standard(),
    {
        &self.stdout
    }

    /// The file named `path`, if there is one.
    pub open spec fn file(&self, path: Seq<char>) -> Option<FakeFile> {
        lookup(self.named(), path)
    }

    /// Whether the sink `sink` takes writes: it is there, and not
    /// poisoned.
    pub open spec fn takes(&self, sink: Option<Seq<char>>) -> bool {
        match sink {
            None => !self.standard().poisoned(),
            Some(path) => self.file(path) matches Some(f) && !f.poisoned(),
        }
    }

    /// No two files have one name: the table holds the place of each
    /// under the key of its name, and nothing else.
    #[verifier::type_invariant]
    closed spec fn inv(&self) -> bool {
        listed(self.named@, list_entries(self.index))
    }

    /// A file system with no file, and nothing on standard output.
    pub fn new() -> (r: FakeFs)
        ensures
            r.named().len() == 0,
            r.standard().bytes() == Seq::<u8>::empty(),
            !r.standard().poisoned(),
    {
        FakeFs { stdout: FakeFile::new(), named: Vec::new(), index: ListTable::new() }
    }

    /// The index of the file named `path`.
    fn find(&self, path: &str) -> (r: Option<usize>)
        ensures
            match r {
                Some(i) => position(self.named(), path@) == Some(i as int) && i
                    < self.named().len(),
                None => position(self.named(), path@) is None,
            },
    {
        let key = encode_name(path);
        let n = self.named.len();
        proof {
            use_type_invariant(self);
        }
        let ghost held = list_entries(self.index);
        match self.index.get(&key) {
            Some(at) => {
                proof {
                    assert(held.contains_key(key@));
                    assert(at < n);
                    lemma_name_code(self.named@[at as int].0@, path@);
                    assert forall|j: int| 0 <= j < at implies self.named@[j].0@ != path@ by {
                        if self.named@[j].0@ == path@ {
                            assert(held[name_code(self.named@[j].0@)] == j);
                        }
                    }
                    lemma_position_is(self.named@, path@, at as int);
                }
                Some(at as usize)
            },
            None => {
                proof {
                    assert forall|j: int| 0 <= j < self.named@.len() implies self.named@[j].0@
                        != path@ by {
                        if self.named@[j].0@ == path@ {
                            assert(held.contains_key(name_code(self.named@[j].0@)));
                        }
                    }
                    lemma_position_none(self.named@, path@);
                }
                None
            },
        }
    }

    /// What the file named `path` holds now, if there is such a file.
    pub fn get_handle(&self, path: &str) -> (r: Option<FakeFile>)
        ensures
            match (r, self.file(path@)) {
                (Some(f), Some(g)) => f.bytes() == g.bytes() && f.poisoned() == g.poisoned()
                    && f.writes() == g.writes() && f.opens() == g.opens() && f.flushes()
                    == g.flushes(),
                (None, None) => true,
                _ => false,
            },
    {
        match self.find(path) {
            Some(i) => Some(self.named[i].1.copy()),
            None => None,
        }
    }

    /// Makes writing to the file named `path` fail from now on, or work
    /// again. The result tells whether there is such a file; where there
    /// is none, nothing changes.
    pub fn set_poison(&mut self, path: &str, p: bool) -> (r: bool)
        ensures
            r == (old(self).file(path@) is Some),
            final(self).standard() == old(self).standard(),
            forall|s: Option<Seq<char>>| #[trigger] final(self).holds(s) == old(self).holds(s),
            r ==> (final(self).file(path@) matches Some(f) && f.poisoned() == p),
            !r ==> *final(self) == *old(self),
    {
        match self.find(path) {
            Some(i) => {
                let mut file = self.named[i].1.copy();
                file.set_poison(p);
                self.put(i, file);
                proof {
                    lemma_position_first(old(self).named(), path@);
                    assert forall|s: Option<Seq<char>>| #[trigger]
                        self.holds(s) == old(self).holds(s) by {
                        if let Some(q) = s {
                            lemma_lookup_update(old(self).named(), i as int, file, q);
                        }
                    }
                    lemma_lookup_update(old(self).named(), i as int, file, path@);
                }
                true
            },
            None => false,
        }
    }

    /// Puts `file` in the place of the file at `i`, under its name.
    fn put(&mut self, i: usize, file: FakeFile)
        requires
            i < old(self).named().len(),
        ensures
            final(self).standard() == old(self).standard(),
            final(self).named() == old(self).named().update(
                i as int,
                (old(self).named()[i as int].0, file),
            ),
    {
        proof {
            use_type_invariant(&*self);
        }
        let mut taken = FakeFs::new();
        std::mem::swap(self, &mut taken);
        let FakeFs { stdout, named, index } = taken;
        let mut named = named;
        let ghost before = named@;
        let (name, _) = named.remove(i);
        named.insert(i, (name, file));
        proof {
            assert(named@ =~= before.update(i as int, (before[i as int].0, file)));
            assert(listed(named@, list_entries(index)));
        }
        *self = FakeFs { stdout, named, index };
    }

    /// Adds the file `file` under the name `path`, which no file has.
    fn add(&mut self, path: &str, file: FakeFile)
        requires
            old(self).file(path@) is None,
        ensures
            final(self).standard() == old(self).standard(),
            final(self).named() == old(self).named().push(final(self).named().last()),
            final(self).named().last().0@ == path@,
            final(self).named().last().1 == file,
    {
        proof {
            use_type_invariant(&*self);
            lemma_position_first(self.named@, path@);
        }
        let key = encode_name(path);
        let mut taken = FakeFs::new();
        std::mem::swap(self, &mut taken);
        let FakeFs { stdout, named, index } = taken;
        let mut named = named;
        let mut index = index;
        let ghost before = named@;
        let ghost held = list_entries(index);
        let at = named.len();
        named.push((path.to_string(), file));
        let _ = index.insert(key, at as u64);
        proof {
            let table = list_entries(index);
            assert forall|i: int| 0 <= i < named@.len() implies table.contains_key(
                #[trigger] name_code(named@[i].0@),
            ) && table[name_code(named@[i].0@)] == i by {
                if i < before.len() {
                    assert(named@[i] == before[i]);
                    assert(held.contains_key(name_code(before[i].0@)));
                    if name_code(before[i].0@) == name_code(path@) {
                        lemma_name_code(before[i].0@, path@);
                    }
                }
            }
            assert forall|c: Seq<u32>| #[trigger] table.contains_key(c) implies table[c]
                < named@.len() && name_code(named@[table[c] as int].0@) == c by {
                if c != name_code(path@) {
                    assert(held.contains_key(c));
                    assert(named@[held[c] as int] == before[held[c] as int]);
                }
            }
        }
        proof {
            assert(named@ =~= before.push(named@.last()));
        }
        *self = FakeFs { stdout, named, index };
    }
}

/// Where the first file has another name, the search goes on behind it.
proof fn lemma_lookup_rest(named: Seq<(String, FakeFile)>, path: Seq<char>)
    requires
        named.len() > 0,
        named[0].0@ != path,
    ensures
        lookup(named, path) == lookup(named.drop_first(), path),
        position(named, path) == match position(named.drop_first(), path) {
            Some(i) => Some(i + 1),
            None => None,
        },
{
    let rest = named.drop_first();
    lemma_position_first(rest, path);
    if let Some(i) = position(rest, path) {
        assert(named[i + 1] == rest[i]);
    }
}

/// Replacing the first file of a name changes what is found under that
/// name, and nothing else.
proof fn lemma_lookup_update(
    named: Seq<(String, FakeFile)>,
    i: int,
    file: FakeFile,
    path: Seq<char>,
)
    requires
        0 <= i < named.len(),
        position(named, named[i].0@) == Some(i),
    ensures
        lookup(named.update(i, (named[i].0, file)), path) == (if path == named[i].0@ {
            Some(file)
        } else {
            lookup(named, path)
        }),
    decreases named.len(),
{
    let next = named.update(i, (named[i].0, file));
    let rest = named.drop_first();
    if i == 0 {
        assert(next.drop_first() =~= rest);
        if path != named[0].0@ {
            lemma_lookup_rest(named, path);
            lemma_lookup_rest(next, path);
        }
    } else {
        assert(rest[i - 1] == named[i]);
        assert(next.drop_first() =~= rest.update(i - 1, (rest[i - 1].0, file)));
        assert(next[0] == named[0]);
        assert(named[0].0@ != named[i].0@);
        lemma_lookup_rest(named, named[i].0@);
        lemma_lookup_update(rest, i - 1, file, path);
        if path != named[0].0@ {
            lemma_lookup_rest(named, path);
            lemma_lookup_rest(next, path);
        }
    }
}

/// A new file at the end is found under its name if no file had that name,
/// and leaves every other name as it is.
proof fn lemma_lookup_push(
    named: Seq<(String, FakeFile)>,
    entry: (String, FakeFile),
    path: Seq<char>,
)
    ensures
        lookup(named.push(entry), path) == match lookup(named, path) {
            Some(f) => Some(f),
            None => if entry.0@ == path {
                Some(entry.1)
            } else {
                None
            },
        },
    decreases named.len(),
{
    let all = named.push(entry);
    if named.len() > 0 {
        let rest = named.drop_first();
        assert(all.drop_first() =~= rest.push(entry));
        assert(all[0] == named[0]);
        lemma_lookup_push(rest, entry, path);
        lemma_position_first(rest.push(entry), path);
        lemma_position_first(rest, path);
        if named[0].0@ != path {
            if let Some(i) = position(rest.push(entry), path) {
                assert(all[i + 1] == rest.push(entry)[i]);
            }
            if let Some(i) = position(rest, path) {
                assert(named[i + 1] == rest[i]);
            }
        }
    } else {
        assert(all.drop_first() =~= named);
        assert(all[0] == entry);
    }
}

impl FileFactory for FakeFs {
    type Output = FakeOutput;

    open spec fn holds(&self, sink: Option<Seq<char>>) -> Seq<u8> {
        match sink {
            None => self.standard().bytes(),
            Some(path) => match self.file(path) {
                Some(f) => f.bytes(),
                None => Seq::empty(),
            },
        }
    }

    open spec fn sink(out: &FakeOutput) -> Option<Seq<char>> {
        match out.path {
            Some(path) => Some(path@),
            None => None,
        }
    }

    open spec fn issued(&self, sink: Option<Seq<char>>) -> nat {
        match sink {
            None => self.standard().writes().len(),
            Some(path) => match self.file(path) {
                Some(f) => f.writes().len(),
                None => 0,
            },
        }
    }

    open spec fn opens(&self, sink: Option<Seq<char>>) -> Seq<bool> {
        match sink {
            None => Seq::empty(),
            Some(path) => match self.file(path) {
                Some(f) => f.opens(),
                None => Seq::empty(),
            },
        }
    }

    open spec fn flushes(&self, sink: Option<Seq<char>>) -> nat {
        match sink {
            None => self.standard().flushes().len(),
            Some(path) => match self.file(path) {
                Some(f) => f.flushes().len(),
                None => 0,
            },
        }
    }

    /// A poisoned file answers every call with the same failure, and so
    /// does a file that was never made.
    open spec fn fault(&self, sink: Option<Seq<char>>) -> Option<Seq<char>> {
        match sink {
            None => if self.standard().poisoned() {
                Some(POISONED@)
            } else {
                None
            },
            Some(path) => match self.file(path) {
                Some(f) => if f.poisoned() {
                    Some(POISONED@)
                } else {
                    None
                },
                None => Some(MISSING@),
            },
        }
    }

    /// The file named `path`, made if there is none, emptied unless
    /// `append` is set. This never fails.
    fn build(&mut self, path: &str, append: bool) -> (r: Result<FakeOutput, CompileError>)
        ensures
            r is Ok,
            final(self).standard() == old(self).standard(),
            forall|s: Option<Seq<char>>|
                #[trigger] final(self).takes(s) == (old(self).takes(s) || (s == Some(path@)
                    && old(self).file(path@) is None)),
    {
        match self.find(path) {
            Some(i) => {
                let mut file = self.named[i].1.copy();
                file.reopen(append);
                self.put(i, file);
                proof {
                    lemma_position_first(old(self).named(), path@);
                    assert forall|s: Option<Seq<char>>| s != Some(path@) implies #[trigger] self.holds(
                        s,
                    ) == old(self).holds(s) by {
                        if let Some(p) = s {
                            lemma_lookup_update(old(self).named(), i as int, file, p);
                        }
                    }
                    assert forall|s: Option<Seq<char>>| #[trigger]
                        self.issued(s) == old(self).issued(s) by {
                        if let Some(p) = s {
                            lemma_lookup_update(old(self).named(), i as int, file, p);
                        }
                    }
                    assert forall|s: Option<Seq<char>>| #[trigger]
                        self.flushes(s) == old(self).flushes(s) by {
                        if let Some(p) = s {
                            lemma_lookup_update(old(self).named(), i as int, file, p);
                        }
                    }
                    assert forall|s: Option<Seq<char>>| #[trigger]
                        self.takes(s) == old(self).takes(s) by {
                        if let Some(p) = s {
                            lemma_lookup_update(old(self).named(), i as int, file, p);
                        }
                    }
                    assert forall|s: Option<Seq<char>>| s != Some(path@) implies #[trigger] self.opens(
                        s,
                    ) == old(self).opens(s) by {
                        if let Some(p) = s {
                            lemma_lookup_update(old(self).named(), i as int, file, p);
                        }
                    }
                    lemma_lookup_update(old(self).named(), i as int, file, path@);
                }
            },
            None => {
                let mut file = FakeFile::new();
                file.reopen(append);
                self.add(path, file);
                let ghost name = self.named().last().0;
                proof {
                    assert forall|s: Option<Seq<char>>| s != Some(path@) implies #[trigger] self.holds(
                        s,
                    ) == old(self).holds(s) by {
                        if let Some(p) = s {
                            lemma_lookup_push(old(self).named(), (name, file), p);
                        }
                    }
                    assert forall|s: Option<Seq<char>>| #[trigger]
                        self.issued(s) == old(self).issued(s) by {
                        if let Some(p) = s {
                            lemma_lookup_push(old(self).named(), (name, file), p);
                        }
                    }
                    assert forall|s: Option<Seq<char>>| #[trigger]
                        self.flushes(s) == old(self).flushes(s) by {
                        if let Some(p) = s {
                            lemma_lookup_push(old(self).named(), (name, file), p);
                        }
                    }
                    assert forall|s: Option<Seq<char>>| #[trigger]
                        self.takes(s) == (old(self).takes(s) || s == Some(path@)) by {
                        if let Some(p) = s {
                            lemma_lookup_push(old(self).named(), (name, file), p);
                        }
                    }
                    assert forall|s: Option<Seq<char>>| s != Some(path@) implies #[trigger] self.opens(
                        s,
                    ) == old(self).opens(s) by {
                        if let Some(p) = s {
                            lemma_lookup_push(old(self).named(), (name, file), p);
                        }
                    }
                    lemma_lookup_push(old(self).named(), (name, file), path@);
                }
            },
        }
        Ok(FakeOutput { path: Some(path.to_string()) })
    }

    fn stdout(&mut self) -> (out: FakeOutput)
        ensures
            *final(self) == *old(self),
    {
        FakeOutput { path: None }
    }

    /// Fails where the file is poisoned, and where `out` names no file;
    /// then nothing changes.
    fn write_all_vectored(&mut self, out: &mut FakeOutput, bufs: &Vec<Vec<u8>>) -> (r: Result<
        (),
        CompileError,
    >)
        ensures
            r is Ok <==> old(self).takes(Self::sink(old(out))),
            r is Err ==> forall|s: Option<Seq<char>>|
                #[trigger] final(self).holds(s) == old(self).holds(s),
    {
        proof {
            use_type_invariant(&*self);
        }
        match &out.path {
            None => {
                let mut file = self.stdout.copy();
                match file.write_vectored(bufs) {
                    Ok(_) => {
                        self.stdout = file;
                        Ok(())
                    },
                    Err(e) => Err(e),
                }
            },
            Some(path) => match self.find(path.as_str()) {
                Some(i) => {
                    let mut file = self.named[i].1.copy();
                    match file.write_vectored(bufs) {
                        Ok(_) => {
                            self.put(i, file);
                            proof {
                                lemma_position_first(old(self).named(), path@);
                                assert forall|s: Option<Seq<char>>|
                                    s != Self::sink(old(out)) implies #[trigger] self.holds(s)
                                    == old(self).holds(s) by {
                                    if let Some(p) = s {
                                        lemma_lookup_update(old(self).named(), i as int, file, p);
                                    }
                                }
                                assert forall|s: Option<Seq<char>>|
                                    s != Self::sink(old(out)) implies #[trigger] self.issued(s)
                                    == old(self).issued(s) by {
                                    if let Some(p) = s {
                                        lemma_lookup_update(old(self).named(), i as int, file, p);
                                    }
                                }
                                assert forall|s: Option<Seq<char>>| #[trigger]
                                    self.opens(s) == old(self).opens(s) by {
                                    if let Some(p) = s {
                                        lemma_lookup_update(old(self).named(), i as int, file, p);
                                    }
                                }
                                assert forall|s: Option<Seq<char>>| #[trigger]
                                    self.flushes(s) == old(self).flushes(s) by {
                                    if let Some(p) = s {
                                        lemma_lookup_update(old(self).named(), i as int, file, p);
                                    }
                                }
                                lemma_lookup_update(old(self).named(), i as int, file, path@);
                            }
                            Ok(())
                        },
                        Err(e) => Err(e),
                    }
                },
                None => Err(CompileError(MISSING.to_string())),
            },
        }
    }

    /// Fails where the file is poisoned, and where `out` names no file;
    /// then nothing changes.
    fn flush(&mut self, out: &mut FakeOutput) -> (r: Result<(), CompileError>)
        ensures
            r is Ok <==> old(self).takes(Self::sink(old(out))),
            r is Err ==> *final(self) == *old(self),
            forall|s: Option<Seq<char>>| #[trigger] final(self).takes(s) == old(self).takes(s),
    {
        proof {
            use_type_invariant(&*self);
        }
        match &out.path {
            None => {
                let mut file = self.stdout.copy();
                match file.flush() {
                    Ok(_) => {
                        self.stdout = file;
                        Ok(())
                    },
                    Err(e) => Err(e),
                }
            },
            Some(path) => match self.find(path.as_str()) {
                Some(i) => {
                    let mut file = self.named[i].1.copy();
                    match file.flush() {
                        Ok(_) => {
                            self.put(i, file);
                            proof {
                                lemma_position_first(old(self).named(), path@);
                                assert forall|s: Option<Seq<char>>| #[trigger]
                                    self.holds(s) == old(self).holds(s) by {
                                    if let Some(p) = s {
                                        lemma_lookup_update(old(self).named(), i as int, file, p);
                                    }
                                }
                                assert forall|s: Option<Seq<char>>| #[trigger]
                                    self.issued(s) == old(self).issued(s) by {
                                    if let Some(p) = s {
                                        lemma_lookup_update(old(self).named(), i as int, file, p);
                                    }
                                }
                                assert forall|s: Option<Seq<char>>| #[trigger]
                                    self.opens(s) == old(self).opens(s) by {
                                    if let Some(p) = s {
                                        lemma_lookup_update(old(self).named(), i as int, file, p);
                                    }
                                }
                                assert forall|s: Option<Seq<char>>| #[trigger]
                                    self.takes(s) == old(self).takes(s) by {
                                    if let Some(p) = s {
                                        lemma_lookup_update(old(self).named(), i as int, file, p);
                                    }
                                }
                                assert forall|s: Option<Seq<char>>|
                                    s != Self::sink(old(out)) implies #[trigger] self.flushes(s)
                                    == old(self).flushes(s) by {
                                    if let Some(p) = s {
                                        lemma_lookup_update(old(self).named(), i as int, file, p);
                                    }
                                }
                                lemma_lookup_update(old(self).named(), i as int, file, path@);
                            }
                            Ok(())
                        },
                        Err(e) => Err(e),
                    }
                },
                None => Err(CompileError(MISSING.to_string())),
            },
        }
    }
}

} // verus!
