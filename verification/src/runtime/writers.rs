//! Writing data to output files.
//!
//! Each output file has one owner that issues all writes to it. Clients
//! gather their writes in batches and hand each full batch to the owner as
//! a request; the owner answers each request with a status. Neighbouring
//! write requests are issued to the file in one vectored write.
//!
//! This module holds the two ends of that protocol as plain state: the
//! client's batching in [`FileHandle`], and the owner's loop over a queue
//! of requests in [`Owner`]. What carries requests and statuses between
//! threads is not part of it.
use crate::lexer::literals::string_from_utf8;
use std::collections::VecDeque;
use vstd::prelude::*;
use vstd::utf8::*;

pub mod testing;

verus! {

/// The maximum number of pending requests of one file.
pub const IO_CHAN_SIZE: usize = 16;

/// The size of client-side batches.
pub const BUFFER_SIZE: usize = 8192;

/// The number of bytes from which on an owner stops gathering a batch.
pub const MAX_BATCH_BYTES: usize = 1048576;

/// The number of writes from which on an owner stops gathering a batch.
pub const MAX_BATCH_SIZE: usize = 1024;

/// An error of the output subsystem, with its message.
#[derive(Debug)]
pub struct CompileError(pub String);

impl CompileError {
    /// The message of the error.
    pub open spec fn message(&self) -> Seq<char> {
        self.0@
    }
}

/// The state of a request.
#[derive(PartialEq, Eq, Clone, Copy, Debug, Structural)]
pub enum RequestStatus {
    ONGOING,
    OK,
    ERROR,
}

/// The status word of a request:
///
/// * 0 => "ONGOING"
/// * 1 => "OK"
/// * 2 => "ERROR"
///
/// An ERROR carries no further information; the error itself is kept by
/// the owner of the file.
#[derive(Debug)]
pub struct ErrorCode {
    code: usize,
}

impl ErrorCode {
    #[verifier::type_invariant]
    spec fn in_range(&self) -> bool {
        self.code <= 2
    }

    /// The status that the word holds.
    pub closed spec fn status(&self) -> RequestStatus {
        if self.code == 0 {
            RequestStatus::ONGOING
        } else if self.code == 1 {
            RequestStatus::OK
        } else {
            RequestStatus::ERROR
        }
    }

    /// A status word for a request that is under way.
    pub fn new() -> (r: ErrorCode)
        ensures
            r.status() == RequestStatus::ONGOING,
    {
        ErrorCode { code: 0 }
    }

    pub fn read(&self) -> (r: RequestStatus)
        ensures
            r == self.status(),
    {
        proof {
            use_type_invariant(self);
        }
        if self.code == 0 {
            RequestStatus::ONGOING
        } else if self.code == 1 {
            RequestStatus::OK
        } else {
            RequestStatus::ERROR
        }
    }

    pub fn set_ok(&mut self)
        ensures
            final(self).status() == RequestStatus::OK,
    {
        self.code = 1;
    }

    pub fn set_error(&mut self)
        ensures
            final(self).status() == RequestStatus::ERROR,
    {
        self.code = 2;
    }
}

/// What a client asks of the owner of a file.
#[derive(Debug)]
pub enum Request {
    /// Write `data`. `append` counts only for the first write after the
    /// file was closed, or the first of all: it tells how to open the file.
    Write { data: Vec<u8>, append: bool },
    /// Flush what was written.
    Flush,
    /// Flush and close the file; the next write opens it again.
    Close,
}

impl Request {
    /// A request to flush.
    pub fn flush() -> (r: Request)
        ensures
            r == Request::Flush,
    {
        Request::Flush
    }

    /// The number of bytes that the request asks to write.
    pub open spec fn spec_size(&self) -> nat {
        match self {
            Request::Write { data, .. } => data@.len(),
            _ => 0,
        }
    }

    pub fn size(&self) -> (r: usize)
        ensures
            r == self.spec_size(),
    {
        match self {
            Request::Write { data, .. } => data.len(),
            Request::Flush | Request::Close => 0,
        }
    }
}

/// The parts of a file system that output goes through: files that are
/// opened by name, and standard output. A sink is named by its path, or by
/// `None` for standard output.
pub trait FileFactory: Sized {
    /// An open sink.
    type Output;

    /// The bytes that the sink `sink` holds.
    spec fn holds(&self, sink: Option<Seq<char>>) -> Seq<u8>;

    /// The sink that `out` writes to.
    spec fn sink(out: &Self::Output) -> Option<Seq<char>>;

    /// The number of vectored writes that the sink `sink` has taken.
    spec fn issued(&self, sink: Option<Seq<char>>) -> nat;

    /// How the file `sink` was opened, each time that it was: whether to
    /// append. Standard output is not opened by name.
    spec fn opens(&self, sink: Option<Seq<char>>) -> Seq<bool>;

    /// The number of times that the sink `sink` was flushed.
    spec fn flushes(&self, sink: Option<Seq<char>>) -> nat;

    /// The failure of the sink `sink`: once a call on it has failed, the
    /// message that the call failed with.
    spec fn fault(&self, sink: Option<Seq<char>>) -> Option<Seq<char>>;

    /// Opens the file at `path`; it is emptied first unless `append` is
    /// set. No other sink changes.
    fn build(&mut self, path: &str, append: bool) -> (r: Result<Self::Output, CompileError>)
        ensures
            forall|s: Option<Seq<char>>|
                s != Some(path@) ==> #[trigger] final(self).holds(s) == old(self).holds(s),
            forall|s: Option<Seq<char>>| #[trigger] final(self).issued(s) == old(self).issued(s),
            forall|s: Option<Seq<char>>|
                s != Some(path@) ==> #[trigger] final(self).opens(s) == old(self).opens(s),
            match r {
                Ok(out) => Self::sink(&out) == Some(path@) && final(self).holds(Some(path@)) == (
                if append {
                    old(self).holds(Some(path@))
                } else {
                    Seq::empty()
                }) && final(self).opens(Some(path@)) == old(self).opens(Some(path@)).push(append),
                Err(e) => final(self).opens(Some(path@)) == old(self).opens(Some(path@))
                    && final(self).fault(Some(path@)) == Some(e.message()),
            },
            forall|s: Option<Seq<char>>| #[trigger] final(self).flushes(s) == old(self).flushes(s),
    ;

    /// Opens standard output. No sink changes.
    fn stdout(&mut self) -> (out: Self::Output)
        ensures
            Self::sink(&out) == None::<Seq<char>>,
            forall|s: Option<Seq<char>>| #[trigger] final(self).holds(s) == old(self).holds(s),
            forall|s: Option<Seq<char>>| #[trigger] final(self).issued(s) == old(self).issued(s),
            forall|s: Option<Seq<char>>| #[trigger] final(self).opens(s) == old(self).opens(s),
            forall|s: Option<Seq<char>>| #[trigger] final(self).flushes(s) == old(self).flushes(s),
    ;

    /// Writes all of `bufs`, one behind the other, to `out`, in one
    /// vectored write. No other sink changes; where the write fails, it is
    /// not counted, and nothing is said of what `out` holds.
    fn write_all_vectored(&mut self, out: &mut Self::Output, bufs: &Vec<Vec<u8>>) -> (r: Result<
        (),
        CompileError,
    >)
        ensures
            Self::sink(final(out)) == Self::sink(old(out)),
            forall|s: Option<Seq<char>>|
                s != Self::sink(old(out)) ==> #[trigger] final(self).holds(s) == old(self).holds(s),
            r is Ok ==> final(self).holds(Self::sink(old(out))) == old(self).holds(
                Self::sink(old(out)),
            ) + concat(views(bufs@)),
            forall|s: Option<Seq<char>>|
                #[trigger] final(self).issued(s) == old(self).issued(s) + if r is Ok && s
                    == Self::sink(old(out)) {
                    1nat
                } else {
                    0nat
                },
            forall|s: Option<Seq<char>>| #[trigger] final(self).opens(s) == old(self).opens(s),
            forall|s: Option<Seq<char>>| #[trigger] final(self).flushes(s) == old(self).flushes(s),
            r matches Err(e) ==> final(self).fault(Self::sink(old(out))) == Some(e.message()),
    ;

    /// Flushes `out`. No sink changes what it holds; a flush that fails
    /// is not counted.
    fn flush(&mut self, out: &mut Self::Output) -> (r: Result<(), CompileError>)
        ensures
            Self::sink(final(out)) == Self::sink(old(out)),
            forall|s: Option<Seq<char>>| #[trigger] final(self).holds(s) == old(self).holds(s),
            forall|s: Option<Seq<char>>| #[trigger] final(self).issued(s) == old(self).issued(s),
            forall|s: Option<Seq<char>>| #[trigger] final(self).opens(s) == old(self).opens(s),
            forall|s: Option<Seq<char>>|
                #[trigger] final(self).flushes(s) == old(self).flushes(s) + if r is Ok && s
                    == Self::sink(old(out)) {
                    1nat
                } else {
                    0nat
                },
            r matches Err(e) ==> final(self).fault(Self::sink(old(out))) == Some(e.message()),
    ;
}

/// What each of `bufs` holds.
pub open spec fn views(bufs: Seq<Vec<u8>>) -> Seq<Seq<u8>> {
    Seq::new(bufs.len(), |i: int| bufs[i]@)
}

/// The buffers of `bufs`, one behind the other.
pub open spec fn concat(bufs: Seq<Seq<u8>>) -> Seq<u8>
    decreases bufs.len(),
{
    if bufs.len() == 0 {
        Seq::empty()
    } else {
        concat(bufs.drop_last()) + bufs.last()
    }
}

/// The data of the write requests among `reqs`, in order.
pub open spec fn payloads(reqs: Seq<Request>) -> Seq<Seq<u8>>
    decreases reqs.len(),
{
    if reqs.len() == 0 {
        Seq::empty()
    } else {
        match reqs.last() {
            Request::Write { data, .. } => payloads(reqs.drop_last()).push(data@),
            _ => payloads(reqs.drop_last()),
        }
    }
}

/// What a sink holds, and whether it is open, after its owner has served
/// one request: a write opens a closed sink first, and empties a file
/// (`file`; standard output is none) unless the write asks to append; a
/// close leaves the sink closed.
pub open spec fn served(held: Seq<u8>, open: bool, file: bool, req: Request) -> (Seq<u8>, bool) {
    match req {
        Request::Write { data, append } => (
            (if open || append || !file {
                held
            } else {
                Seq::empty()
            }) + data@,
            true,
        ),
        Request::Flush => (held, open),
        Request::Close => (held, false),
    }
}

/// What a sink holds, and whether it is open, after its owner has served
/// `reqs` in order without a failure.
pub open spec fn replay(reqs: Seq<Request>, held: Seq<u8>, open: bool, file: bool) -> (
    Seq<u8>,
    bool,
)
    decreases reqs.len(),
{
    if reqs.len() == 0 {
        (held, open)
    } else {
        let before = replay(reqs.drop_last(), held, open, file);
        served(before.0, before.1, file, reqs.last())
    }
}

/// Whether every request of `reqs` is a write.
pub open spec fn all_writes(reqs: Seq<Request>) -> bool {
    forall|i: int| 0 <= i < reqs.len() ==> (#[trigger] reqs[i]) is Write
}

/// `n` statuses `code`.
pub open spec fn repeated(code: RequestStatus, n: nat) -> Seq<RequestStatus> {
    Seq::new(n, |i: int| code)
}

/// Serving two runs of requests one after the other is serving their
/// concatenation.
pub proof fn lemma_replay_concat(
    a: Seq<Request>,
    b: Seq<Request>,
    held: Seq<u8>,
    open: bool,
    file: bool,
)
    ensures
        replay(a + b, held, open, file) == replay(
            b,
            replay(a, held, open, file).0,
            replay(a, held, open, file).1,
            file,
        ),
    decreases b.len(),
{
    if b.len() == 0 {
        assert(a + b =~= a);
    } else {
        assert((a + b).drop_last() =~= a + b.drop_last());
        assert((a + b).last() == b.last());
        lemma_replay_concat(a, b.drop_last(), held, open, file);
    }
}

/// A run of writes on a sink: it is opened by the first of them if it was
/// closed, and then holds the data of all of them at its end.
pub proof fn lemma_replay_writes(reqs: Seq<Request>, held: Seq<u8>, open: bool, file: bool)
    requires
        all_writes(reqs),
        reqs.len() > 0,
    ensures
        replay(reqs, held, open, file) == (
            (if open || reqs[0]->Write_append || !file {
                held
            } else {
                Seq::empty()
            }) + concat(payloads(reqs)),
            true,
        ),
    decreases reqs.len(),
{
    let front = reqs.drop_last();
    assert(reqs.last() is Write);
    let d = reqs.last()->Write_data@;
    let p = payloads(reqs);
    assert(p == payloads(front).push(d));
    assert(p.drop_last() =~= payloads(front));
    assert(concat(p) == concat(payloads(front)) + d);
    let base = if open || reqs[0]->Write_append || !file {
        held
    } else {
        Seq::empty()
    };
    let before = replay(front, held, open, file);
    let after = replay(reqs, held, open, file);
    assert(after == served(before.0, before.1, file, reqs.last()));
    if front.len() > 0 {
        assert(all_writes(front)) by {
            assert forall|i: int| 0 <= i < front.len() implies (#[trigger] front[i]) is Write by {
                assert(front[i] == reqs[i]);
            }
        }
        assert(front[0] == reqs[0]);
        lemma_replay_writes(front, held, open, file);
        assert(after.0 =~= base + concat(p));
    } else {
        assert(reqs[0] == reqs.last());
        assert(concat(payloads(front)) =~= Seq::<u8>::empty());
        assert(after.0 =~= base + concat(p));
    }
}

/// Whether a batch is full once it has taken `req` and holds `writes`
/// writes of `bytes` bytes in all: a request to flush or to close ends a
/// batch, and so do `MAX_BATCH_SIZE` writes and `MAX_BATCH_BYTES` bytes.
pub open spec fn is_full(req: Request, writes: nat, bytes: nat) -> bool {
    !(req is Write) || writes >= MAX_BATCH_SIZE || bytes >= MAX_BATCH_BYTES
}

/// Where the batch ends that holds the first `k` requests of `reqs`,
/// among them `writes` writes of `bytes` bytes in all, and is not full: it
/// takes requests until it is full, or until there is none left.
pub open spec fn batch_end(reqs: Seq<Request>, k: int, writes: nat, bytes: nat) -> int
    decreases reqs.len() - k,
{
    if k < 0 || k >= reqs.len() {
        reqs.len() as int
    } else {
        let w = writes + if reqs[k] is Write {
            1nat
        } else {
            0nat
        };
        let b = bytes + reqs[k].spec_size();
        if is_full(reqs[k], w, b) {
            k + 1
        } else {
            batch_end(reqs, k + 1, w, b)
        }
    }
}

/// The number of requests at the front of the queue `reqs` that make the
/// next batch. The first request is always taken, whatever its size; a
/// write is followed by more requests as `batch_end` says.
pub open spec fn first_batch(reqs: Seq<Request>) -> int {
    if reqs.len() == 0 {
        0
    } else if !(reqs[0] is Write) {
        1
    } else {
        batch_end(reqs, 1, 1, reqs[0].spec_size())
    }
}

/// The number of vectored writes that serving the queue `reqs` takes: one
/// for each batch, but for a batch without a write that finds the sink
/// closed.
pub open spec fn issues(reqs: Seq<Request>, open: bool) -> nat
    decreases reqs.len(),
{
    let k = first_batch(reqs);
    if reqs.len() == 0 || k <= 0 || k > reqs.len() {
        0
    } else {
        let writes = payloads(reqs.take(k)).len() > 0;
        (if open || writes {
            1nat
        } else {
            0nat
        }) + issues(reqs.skip(k), (open || writes) && !(reqs[k - 1] is Close))
    }
}

/// How serving the queue `reqs` opens its file, each time that it does:
/// once for each batch with a write that finds the file closed, and as the
/// first write of that batch asks. While the file is open it is not opened
/// again, and standard output (not a `file`) is not opened by name.
pub open spec fn openings(reqs: Seq<Request>, open: bool, file: bool) -> Seq<bool>
    decreases reqs.len(),
{
    let k = first_batch(reqs);
    if reqs.len() == 0 || k <= 0 || k > reqs.len() {
        Seq::empty()
    } else {
        let writes = payloads(reqs.take(k)).len() > 0;
        (if file && !open && writes {
            seq![first_append(reqs.take(k))]
        } else {
            Seq::empty()
        }) + openings(reqs.skip(k), (open || writes) && !(reqs[k - 1] is Close), file)
    }
}

/// Whether one of `reqs` asks to flush or to close.
pub open spec fn stops(reqs: Seq<Request>) -> bool {
    exists|i: int| 0 <= i < reqs.len() && !((#[trigger] reqs[i]) is Write)
}

/// The number of flushes that serving the queue `reqs` takes: one for each
/// batch that holds a request to flush or to close, but for a batch
/// without a write that finds the sink closed.
pub open spec fn flushings(reqs: Seq<Request>, open: bool) -> nat
    decreases reqs.len(),
{
    let k = first_batch(reqs);
    if reqs.len() == 0 || k <= 0 || k > reqs.len() {
        0
    } else {
        let writes = payloads(reqs.take(k)).len() > 0;
        (if (open || writes) && stops(reqs.take(k)) {
            1nat
        } else {
            0nat
        }) + flushings(reqs.skip(k), (open || writes) && !(reqs[k - 1] is Close))
    }
}

/// A batch that is not full ends behind where it stands, within the
/// queue, and holds nothing but writes before its last request.
pub proof fn lemma_batch_end(reqs: Seq<Request>, k: int, writes: nat, bytes: nat)
    requires
        1 <= k <= reqs.len(),
        all_writes(reqs.take(k)),
    ensures
        k <= batch_end(reqs, k, writes, bytes) <= reqs.len(),
        all_writes(reqs.take(batch_end(reqs, k, writes, bytes)).drop_last()),
    decreases reqs.len() - k,
{
    if k < reqs.len() {
        let w = writes + if reqs[k] is Write {
            1nat
        } else {
            0nat
        };
        let b = bytes + reqs[k].spec_size();
        assert(reqs.take(k + 1).drop_last() =~= reqs.take(k));
        if !is_full(reqs[k], w, b) {
            assert forall|i: int| 0 <= i < k + 1 implies (#[trigger] reqs.take(k + 1)[i])
                is Write by {
                if i < k {
                    assert(reqs.take(k)[i] is Write);
                }
            }
            lemma_batch_end(reqs, k + 1, w, b);
        }
    } else {
        assert forall|i: int| 0 <= i < k - 1 implies (#[trigger] reqs.take(k).drop_last()[i])
            is Write by {
            assert(reqs.take(k)[i] is Write);
        }
    }
}

/// The next batch of a queue that is not empty takes a request at least,
/// and holds nothing but writes before its last request.
pub proof fn lemma_first_batch(reqs: Seq<Request>)
    requires
        reqs.len() > 0,
    ensures
        1 <= first_batch(reqs) <= reqs.len(),
        all_writes(reqs.take(first_batch(reqs)).drop_last()),
{
    if reqs[0] is Write {
        assert forall|i: int| 0 <= i < 1 implies (#[trigger] reqs.take(1)[i]) is Write by {}
        lemma_batch_end(reqs, 1, 1, reqs[0].spec_size());
    } else {
        assert(reqs.take(1).drop_last() =~= Seq::<Request>::empty());
    }
}

/// The requests that an owner has taken from its queue and not yet issued.
#[derive(Debug)]
pub struct WriteBatch {
    requests: Vec<Request>,
    n_writes: usize,
    flush: bool,
    close: bool,
}

impl WriteBatch {
    /// The requests of the batch, in the order in which they came.
    pub closed spec fn requests(&self) -> Seq<Request> {
        self.requests@
    }

    /// Whether the batch holds a request to flush.
    pub closed spec fn wants_flush(&self) -> bool {
        self.flush
    }

    /// Whether the batch holds a request to close.
    pub closed spec fn wants_close(&self) -> bool {
        self.close
    }

    /// The number of writes that the batch counts.
    pub closed spec fn counted(&self) -> nat {
        self.n_writes as nat
    }

    /// The count and the two flags say what the requests are.
    pub open spec fn wf(&self) -> bool {
        &&& self.counted() == payloads(self.requests()).len()
        &&& self.wants_flush() == (exists|i: int|
            0 <= i < self.requests().len() && (#[trigger] self.requests()[i]) is Flush)
        &&& self.wants_close() == (exists|i: int|
            0 <= i < self.requests().len() && (#[trigger] self.requests()[i]) is Close)
    }

    /// An empty batch.
    pub fn new() -> (r: WriteBatch)
        ensures
            r.wf(),
            r.requests().len() == 0,
    {
        WriteBatch { requests: Vec::new(), n_writes: 0, flush: false, close: false }
    }

    pub fn n_writes(&self) -> (r: usize)
        ensures
            r == self.counted(),
    {
        self.n_writes
    }

    /// How to open the file for this batch: as its first write asks, and
    /// without appending if it holds no write.
    pub fn is_append(&self) -> (r: bool)
        ensures
            r == first_append(self.requests()),
    {
        let mut i: usize = 0;
        while i < self.requests.len()
            invariant
                i <= self.requests.len(),
                forall|j: int| 0 <= j < i ==> !((#[trigger] self.requests@[j]) is Write),
            decreases self.requests.len() - i,
        {
            if let Request::Write { append, .. } = &self.requests[i] {
                proof {
                    lemma_first_append(self.requests@, i as int);
                }
                return *append;
            }
            i += 1;
        }
        proof {
            lemma_no_append(self.requests@);
        }
        false
    }

    /// Takes `req` into the batch. The result tells whether the batch must
    /// be issued now, as it holds a request to flush or to close.
    pub fn push(&mut self, req: Request) -> (r: bool)
        requires
            old(self).wf(),
            old(self).counted() < usize::MAX,
        ensures
            final(self).wf(),
            final(self).requests() == old(self).requests().push(req),
            r == (final(self).wants_flush() || final(self).wants_close()),
            final(self).wants_flush() == (old(self).wants_flush() || req is Flush),
            final(self).wants_close() == (old(self).wants_close() || req is Close),
    {
        let ghost before = self.requests@;
        match &req {
            Request::Write { .. } => {
                self.n_writes += 1;
            },
            Request::Flush => {
                self.flush = true;
            },
            Request::Close => {
                self.close = true;
            },
        }
        self.requests.push(req);
        proof {
            let after = self.requests@;
            assert(after.drop_last() =~= before);
            assert(after.last() == req);
            assert forall|i: int| 0 <= i < before.len() implies after[i] == before[i] by {}
            if old(self).wants_flush() {
                let i = choose|i: int| 0 <= i < before.len() && (#[trigger] before[i]) is Flush;
                assert(after[i] is Flush);
            }
            if old(self).wants_close() {
                let i = choose|i: int| 0 <= i < before.len() && (#[trigger] before[i]) is Close;
                assert(after[i] is Close);
            }
            if req is Flush {
                assert(after[before.len() as int] is Flush);
            }
            if req is Close {
                assert(after[before.len() as int] is Close);
            }
        }
        self.flush || self.close
    }

    /// Takes the next batch from the front of `queue`: as many requests as
    /// `first_batch` says.
    pub fn fill(&mut self, queue: &mut VecDeque<Request>)
        requires
            old(self).wf(),
            old(self).requests().len() == 0,
        ensures
            final(self).wf(),
            final(self).requests() == old(queue)@.take(first_batch(old(queue)@)),
            final(queue)@ == old(queue)@.skip(first_batch(old(queue)@)),
    {
        let ghost all = queue@;
        let req = match queue.pop_front() {
            Some(req) => req,
            None => {
                proof {
                    assert(self.requests() =~= all.take(0));
                    assert(queue@ =~= all.skip(0));
                }
                return ;
            },
        };
        let mut batch_bytes = req.size();
        let mut full = self.push(req);
        let ghost mut taken: int = 1;
        proof {
            assert(self.requests() =~= all.take(1));
            assert(queue@ =~= all.skip(1));
            if !full {
                assert(self.requests()[0] is Write);
                lemma_payloads_len(self.requests());
            }
        }
        while !full
            invariant
                self.wf(),
                all == old(queue)@,
                1 <= taken <= all.len(),
                self.requests() == all.take(taken),
                queue@ == all.skip(taken),
                full ==> first_batch(all) == taken,
                !full ==> all_writes(self.requests()) && self.counted() < MAX_BATCH_SIZE
                    && first_batch(all) == batch_end(
                    all,
                    taken,
                    self.counted(),
                    batch_bytes as nat,
                ),
            ensures
                self.wf(),
                self.requests() == all.take(first_batch(all)),
                queue@ == all.skip(first_batch(all)),
            decreases queue@.len(),
        {
            let req = match queue.pop_front() {
                Some(req) => req,
                None => {
                    break ;
                },
            };
            let size = req.size();
            let ghost bytes = batch_bytes + size;
            batch_bytes = if size > usize::MAX - batch_bytes {
                usize::MAX
            } else {
                batch_bytes + size
            };
            let ghost prior = self.requests();
            let stop = self.push(req);
            proof {
                assert(all.skip(taken)[0] == all[taken]);
                assert(req == all[taken]);
                assert(self.requests() =~= all.take(taken + 1));
                assert(queue@ =~= all.skip(taken + 1));
                assert(self.requests().drop_last() =~= prior);
                lemma_payloads_len(prior);
                if req is Write {
                    assert forall|i: int| 0 <= i < self.requests().len() implies (
                    #[trigger] self.requests()[i]) is Write by {
                        if i < prior.len() {
                            assert(self.requests()[i] == prior[i]);
                        }
                    }
                    lemma_payloads_len(self.requests());
                }
                taken = taken + 1;
            }
            full = stop || self.n_writes() >= MAX_BATCH_SIZE || batch_bytes >= MAX_BATCH_BYTES;
            proof {
                assert(full == is_full(req, self.counted(), bytes as nat));
            }
        }
    }

    /// Empties the batch and answers each of its requests with `code`.
    pub fn clear_batch(&mut self, code: RequestStatus) -> (replies: Vec<RequestStatus>)
        ensures
            final(self).wf(),
            final(self).requests().len() == 0,
            replies@ == repeated(code, old(self).requests().len()),
    {
        let n = self.requests.len();
        let mut replies: Vec<RequestStatus> = Vec::new();
        let mut i: usize = 0;
        while i < n
            invariant
                i <= n,
                replies@ == repeated(code, i as nat),
            decreases n - i,
        {
            replies.push(code);
            assert(replies@ =~= repeated(code, (i + 1) as nat));
            i += 1;
        }
        self.requests.clear();
        self.close = false;
        self.flush = false;
        self.n_writes = 0;
        replies
    }

    /// Empties the batch after a failure.
    pub fn clear_error(&mut self) -> (replies: Vec<RequestStatus>)
        ensures
            final(self).wf(),
            final(self).requests().len() == 0,
            replies@ == repeated(RequestStatus::ERROR, old(self).requests().len()),
    {
        self.clear_batch(RequestStatus::ERROR)
    }

    /// Empties the batch after it was issued.
    pub fn clear(&mut self) -> (replies: Vec<RequestStatus>)
        ensures
            final(self).wf(),
            final(self).requests().len() == 0,
            replies@ == repeated(RequestStatus::OK, old(self).requests().len()),
    {
        self.clear_batch(RequestStatus::OK)
    }

    /// The data of the writes of the batch.
    fn payload(&self) -> (bufs: Vec<Vec<u8>>)
        ensures
            views(bufs@) == payloads(self.requests()),
    {
        let mut bufs: Vec<Vec<u8>> = Vec::new();
        let mut i: usize = 0;
        while i < self.requests.len()
            invariant
                i <= self.requests.len(),
                views(bufs@) == payloads(self.requests@.take(i as int)),
            decreases self.requests.len() - i,
        {
            proof {
                let next = self.requests@.take(i + 1);
                assert(next.drop_last() =~= self.requests@.take(i as int));
                assert(next.last() == self.requests@[i as int]);
            }
            let ghost before = views(bufs@);
            if let Request::Write { data, .. } = &self.requests[i] {
                bufs.push(data.clone());
                assert(views(bufs@) =~= before.push(data@));
            }
            i += 1;
        }
        proof {
            assert(self.requests@.take(i as int) =~= self.requests@);
        }
        bufs
    }

    /// What issuing the batch comes to once the sink has answered `outcome`
    /// to its write and flush. Where that is a success the batch is emptied
    /// and each of its requests answered with OK; the flag that comes with
    /// the answers tells whether to close the sink. Where it is a failure,
    /// the same failure is returned and the batch is as it was.
    pub fn settle(&mut self, outcome: Result<(), CompileError>) -> (r: Result<
        (bool, Vec<RequestStatus>),
        CompileError,
    >)
        requires
            old(self).wf(),
        ensures
            final(self).wf(),
            match outcome {
                Ok(_) => {
                    &&& r matches Ok(done) && done.0 == old(self).wants_close() && done.1@
                        == repeated(RequestStatus::OK, old(self).requests().len())
                    &&& final(self).requests().len() == 0
                },
                Err(e) => {
                    &&& r matches Err(f) && f == e
                    &&& *final(self) == *old(self)
                },
            },
    {
        match outcome {
            Err(e) => Err(e),
            Ok(()) => {
                let close = self.close;
                let replies = self.clear();
                Ok((close, replies))
            },
        }
    }

    /// Issues the batch to `w`: all its data in one vectored write, then a
    /// flush if it holds a request to flush or to close. On success the
    /// batch is emptied and each of its requests answered with OK; the
    /// flag that comes with the answers tells whether to close `w`. On
    /// failure the batch is as it was, no flush is counted, and the
    /// failure is the one that the sink gave. Whether the write and the
    /// flush succeed is for the sink to say; `settle` does the rest.
    pub fn issue<F: FileFactory>(&mut self, fs: &mut F, w: &mut F::Output) -> (r: Result<
        (bool, Vec<RequestStatus>),
        CompileError,
    >)
        requires
            old(self).wf(),
        ensures
            final(self).wf(),
            F::sink(final(w)) == F::sink(old(w)),
            forall|s: Option<Seq<char>>|
                s != F::sink(old(w)) ==> #[trigger] final(fs).holds(s) == old(fs).holds(s),
            forall|s: Option<Seq<char>>|
                s != F::sink(old(w)) ==> #[trigger] final(fs).issued(s) == old(fs).issued(s),
            r is Ok ==> final(fs).issued(F::sink(old(w))) == old(fs).issued(F::sink(old(w))) + 1,
            old(fs).issued(F::sink(old(w))) <= final(fs).issued(F::sink(old(w))) <= old(fs).issued(
                F::sink(old(w)),
            ) + 1,
            forall|s: Option<Seq<char>>| #[trigger] final(fs).opens(s) == old(fs).opens(s),
            forall|s: Option<Seq<char>>|
                #[trigger] final(fs).flushes(s) == old(fs).flushes(s) + if r is Ok && s == F::sink(
                    old(w),
                ) && (old(self).wants_flush() || old(self).wants_close()) {
                    1nat
                } else {
                    0nat
                },
            r matches Err(e) ==> final(fs).fault(F::sink(old(w))) == Some(e.message()),
            match r {
                Ok(done) => {
                    &&& final(fs).holds(F::sink(old(w))) == old(fs).holds(F::sink(old(w)))
                        + concat(payloads(old(self).requests()))
                    &&& done.0 == old(self).wants_close()
                    &&& done.1@ == repeated(RequestStatus::OK, old(self).requests().len())
                    &&& final(self).requests().len() == 0
                },
                Err(_) => final(self).requests() == old(self).requests(),
            },
    {
        let bufs = self.payload();
        let outcome = match fs.write_all_vectored(w, &bufs) {
            Err(e) => Err(e),
            Ok(()) => if self.flush || self.close {
                fs.flush(w)
            } else {
                Ok(())
            },
        };
        self.settle(outcome)
    }
}

/// How the first write of `reqs` asks to open the file; `false` where
/// there is no write.
pub open spec fn first_append(reqs: Seq<Request>) -> bool
    decreases reqs.len(),
{
    if reqs.len() == 0 {
        false
    } else {
        match reqs[0] {
            Request::Write { append, .. } => append,
            _ => first_append(reqs.drop_first()),
        }
    }
}

proof fn lemma_first_append(reqs: Seq<Request>, i: int)
    requires
        0 <= i < reqs.len(),
        reqs[i] is Write,
        forall|j: int| 0 <= j < i ==> !((#[trigger] reqs[j]) is Write),
    ensures
        first_append(reqs) == reqs[i]->Write_append,
    decreases i,
{
    if i > 0 {
        let rest = reqs.drop_first();
        assert(!(reqs[0] is Write));
        assert forall|j: int| 0 <= j < i - 1 implies !((#[trigger] rest[j]) is Write) by {
            assert(rest[j] == reqs[j + 1]);
        }
        lemma_first_append(rest, i - 1);
    }
}

proof fn lemma_no_append(reqs: Seq<Request>)
    requires
        forall|j: int| 0 <= j < reqs.len() ==> !((#[trigger] reqs[j]) is Write),
    ensures
        !first_append(reqs),
    decreases reqs.len(),
{
    if reqs.len() > 0 {
        let rest = reqs.drop_first();
        assert(!(reqs[0] is Write));
        assert forall|j: int| 0 <= j < rest.len() implies !((#[trigger] rest[j]) is Write) by {
            assert(rest[j] == reqs[j + 1]);
        }
        lemma_no_append(rest);
    }
}

/// What serving a batch does to its sink. A batch is a run of writes with
/// at most one other request at its end.
pub proof fn lemma_replay_batch(reqs: Seq<Request>, held: Seq<u8>, open: bool, file: bool)
    requires
        reqs.len() > 0,
        all_writes(reqs.drop_last()),
    ensures
        payloads(reqs).len() == 0 ==> reqs.len() == 1 && !(reqs[0] is Write),
        payloads(reqs).len() > 0 ==> reqs[0] is Write && first_append(reqs)
            == reqs[0]->Write_append,
        replay(reqs, held, open, file) == (if payloads(reqs).len() == 0 {
            (held, open && !(reqs.last() is Close))
        } else {
            (
                (if open || first_append(reqs) || !file {
                    held
                } else {
                    Seq::empty()
                }) + concat(payloads(reqs)),
                !(reqs.last() is Close),
            )
        }),
{
    let front = reqs.drop_last();
    let before = replay(front, held, open, file);
    assert(replay(reqs, held, open, file) == served(before.0, before.1, file, reqs.last()));
    if front.len() > 0 {
        assert(front[0] is Write);
        assert(front[0] == reqs[0]);
        lemma_replay_writes(front, held, open, file);
        lemma_payloads_len(front);
        if reqs.last() is Write {
            assert(all_writes(reqs)) by {
                assert forall|i: int| 0 <= i < reqs.len() implies (#[trigger] reqs[i]) is Write by {
                    if i < front.len() {
                        assert(front[i] is Write);
                        assert(front[i] == reqs[i]);
                    }
                }
            }
            lemma_replay_writes(reqs, held, open, file);
        } else {
            assert(payloads(reqs) == payloads(front));
        }
    } else {
        assert(reqs[0] == reqs.last());
        assert(payloads(front).len() == 0);
        if reqs.last() is Write {
            assert(all_writes(reqs)) by {
                assert forall|i: int| 0 <= i < reqs.len() implies (#[trigger] reqs[i]) is Write by {}
            }
            lemma_replay_writes(reqs, held, open, file);
        }
    }
}

/// Requests have no payload exactly where none of them is a write.
pub proof fn lemma_no_payload(reqs: Seq<Request>)
    ensures
        payloads(reqs).len() == 0 <==> forall|i: int|
            0 <= i < reqs.len() ==> !((#[trigger] reqs[i]) is Write),
    decreases reqs.len(),
{
    if reqs.len() > 0 {
        let front = reqs.drop_last();
        lemma_no_payload(front);
        if payloads(reqs).len() == 0 {
            assert(!(reqs.last() is Write));
            assert forall|i: int| 0 <= i < reqs.len() implies !((#[trigger] reqs[i]) is Write) by {
                if i < front.len() {
                    assert(front[i] == reqs[i]);
                }
            }
        }
        if forall|i: int| 0 <= i < reqs.len() ==> !((#[trigger] reqs[i]) is Write) {
            assert(!(reqs[reqs.len() - 1] is Write));
            assert forall|i: int| 0 <= i < front.len() implies !((#[trigger] front[i]) is Write) by {
                assert(front[i] == reqs[i]);
            }
        }
    }
}

/// A run of writes has as many payloads as requests.
pub proof fn lemma_payloads_len(reqs: Seq<Request>)
    requires
        all_writes(reqs),
    ensures
        payloads(reqs).len() == reqs.len(),
    decreases reqs.len(),
{
    if reqs.len() > 0 {
        let front = reqs.drop_last();
        assert(reqs.last() is Write);
        assert forall|i: int| 0 <= i < front.len() implies (#[trigger] front[i]) is Write by {
            assert(front[i] == reqs[i]);
        }
        lemma_payloads_len(front);
    }
}

/// The owner of one sink: the only one to write to it. It serves the
/// requests of its queue in order, and keeps the first failure; from then
/// on it fails every request.
pub struct Owner<F: FileFactory> {
    path: Option<String>,
    batch: WriteBatch,
    writer: Option<F::Output>,
    error: Option<CompileError>,
}

impl<F: FileFactory> Owner<F> {
    /// The sink of the owner: the path of its file, or `None` for standard
    /// output.
    pub closed spec fn sink(&self) -> Option<Seq<char>> {
        match self.path {
            Some(p) => Some(p@),
            None => None,
        }
    }

    /// Whether the sink is open.
    pub closed spec fn is_open(&self) -> bool {
        self.writer is Some
    }

    /// The message of the failure that the owner keeps.
    pub closed spec fn failure(&self) -> Option<Seq<char>> {
        match self.error {
            Some(e) => Some(e.message()),
            None => None,
        }
    }

    /// The requests that were taken from the queue and not yet answered.
    pub closed spec fn pending(&self) -> Seq<Request> {
        self.batch.requests()
    }

    /// The open sink is the owner's own, and the batch is in order.
    pub closed spec fn wf(&self) -> bool {
        &&& self.batch.wf()
        &&& self.writer matches Some(w) ==> F::sink(&w) == self.sink()
    }

    /// The owner of the file at `path`, or of standard output. The sink is
    /// opened by the first write.
    pub fn new(path: Option<String>) -> (r: Owner<F>)
        ensures
            r.wf(),
            r.sink() == match path {
                Some(p) => Some(p@),
                None => None,
            },
            !r.is_open(),
            r.failure() is None,
            r.pending().len() == 0,
    {
        Owner { path, batch: WriteBatch::new(), writer: None, error: None }
    }

    /// The message of the failure that the owner keeps, for the clients to
    /// report.
    pub fn error(&self) -> (r: Option<String>)
        ensures
            match (r, self.failure()) {
                (Some(m), Some(f)) => m@ == f,
                (None, None) => true,
                _ => false,
            },
    {
        match &self.error {
            Some(e) => Some(e.0.clone()),
            None => None,
        }
    }

    /// Serves the requests of `queue` in order, in batches: a batch ends
    /// with a request to flush or to close, or once it holds
    /// `MAX_BATCH_SIZE` writes or `MAX_BATCH_BYTES` bytes. The data of a
    /// batch goes to the sink in one vectored write. Each request that was
    /// served adds an OK to `replies`.
    ///
    /// On success the sink holds what `replay` says. On failure the
    /// requests of the batch that failed stay pending, and those behind
    /// them stay in the queue. Only the sink fails, and the failure is the
    /// one that it gave: a batch without a write is answered without it
    /// where it is closed, so requests without a write are all served where
    /// the sink is closed to begin with.
    ///
    /// Whatever the outcome, the sink was opened and flushed as often as
    /// serving the whole queue takes, less what serving the requests that
    /// are left would take from where the sink stands; the same holds of
    /// its vectored writes, but for the write of a batch whose flush then
    /// failed.
    #[verifier::rlimit(60)]
    pub fn receive_loop(
        &mut self,
        queue: &mut VecDeque<Request>,
        fs: &mut F,
        replies: &mut Vec<RequestStatus>,
    ) -> (r: Result<(), CompileError>)
        requires
            old(self).wf(),
            old(self).pending().len() == 0,
        ensures
            final(self).wf(),
            final(self).sink() == old(self).sink(),
            final(self).failure() == old(self).failure(),
            forall|s: Option<Seq<char>>|
                s != old(self).sink() ==> #[trigger] final(fs).holds(s) == old(fs).holds(s),
            forall|s: Option<Seq<char>>|
                s != old(self).sink() ==> #[trigger] final(fs).issued(s) == old(fs).issued(s),
            r is Ok ==> final(fs).issued(old(self).sink()) == old(fs).issued(old(self).sink())
                + issues(old(queue)@, old(self).is_open()),
            forall|s: Option<Seq<char>>|
                s != old(self).sink() ==> #[trigger] final(fs).opens(s) == old(fs).opens(s),
            r is Ok ==> final(fs).opens(old(self).sink()) == old(fs).opens(old(self).sink())
                + openings(old(queue)@, old(self).is_open(), old(self).sink() is Some),
            forall|s: Option<Seq<char>>|
                s != old(self).sink() ==> #[trigger] final(fs).flushes(s) == old(fs).flushes(s),
            r is Ok ==> final(fs).flushes(old(self).sink()) == old(fs).flushes(old(self).sink())
                + flushings(old(queue)@, old(self).is_open()),
            final(fs).opens(old(self).sink()) + openings(
                final(self).pending() + final(queue)@,
                final(self).is_open(),
                old(self).sink() is Some,
            ) == old(fs).opens(old(self).sink()) + openings(
                old(queue)@,
                old(self).is_open(),
                old(self).sink() is Some,
            ),
            final(fs).flushes(old(self).sink()) + flushings(
                final(self).pending() + final(queue)@,
                final(self).is_open(),
            ) == old(fs).flushes(old(self).sink()) + flushings(old(queue)@, old(self).is_open()),
            old(fs).issued(old(self).sink()) + issues(old(queue)@, old(self).is_open()) <= final(fs).issued(old(self).sink()) + issues(
                final(self).pending() + final(queue)@,
                final(self).is_open(),
            ) <= old(fs).issued(old(self).sink()) + issues(old(queue)@, old(self).is_open()) + 1,
            r matches Err(e) ==> final(fs).fault(old(self).sink()) == Some(e.message()),
            final(replies)@ == old(replies)@ + repeated(
                RequestStatus::OK,
                (old(queue)@.len() - final(self).pending().len() - final(queue)@.len()) as nat,
            ),
            old(queue)@ == old(queue)@.take(
                old(queue)@.len() - final(self).pending().len() - final(queue)@.len(),
            ) + final(self).pending() + final(queue)@,
            r is Err ==> final(self).pending().len() > 0 && (final(self).is_open() || payloads(
                final(self).pending(),
            ).len() > 0),
            !old(self).is_open() && payloads(old(queue)@).len() == 0 ==> r is Ok,
            r is Ok ==> final(queue)@.len() == 0 && final(self).pending().len() == 0 && (
                final(fs).holds(old(self).sink()),
                final(self).is_open(),
            ) == replay(
                old(queue)@,
                old(fs).holds(old(self).sink()),
                old(self).is_open(),
                old(self).sink() is Some,
            ),
    {
        let ghost all = queue@;
        let ghost held = fs.holds(self.sink());
        let ghost open = self.is_open();
        let ghost file = self.sink() is Some;
        let ghost before = replies@;
        let ghost mut done: int = 0;
        proof {
            assert(all.skip(0) =~= all);
            assert(before + repeated(RequestStatus::OK, 0) =~= before);
            assert(all.take(0) =~= Seq::<Request>::empty());
        }
        loop
            invariant
                self.wf(),
                self.sink() == old(self).sink(),
                self.failure() == old(self).failure(),
                self.pending().len() == 0,
                0 <= done <= all.len(),
                all == old(queue)@,
                before == old(replies)@,
                file == (old(self).sink() is Some),
                queue@ == all.skip(done),
                replies@ == before + repeated(RequestStatus::OK, done as nat),
                forall|s: Option<Seq<char>>|
                    s != old(self).sink() ==> #[trigger] fs.holds(s) == old(fs).holds(s),
                forall|s: Option<Seq<char>>|
                    s != old(self).sink() ==> #[trigger] fs.issued(s) == old(fs).issued(s),
                held == old(fs).holds(old(self).sink()),
                open == old(self).is_open(),
                fs.issued(self.sink()) + issues(all.skip(done), self.is_open()) == old(fs).issued(
                    old(self).sink(),
                ) + issues(all, open),
                forall|s: Option<Seq<char>>|
                    s != old(self).sink() ==> #[trigger] fs.opens(s) == old(fs).opens(s),
                fs.opens(self.sink()) + openings(all.skip(done), self.is_open(), file) == old(fs).opens(old(self).sink()) + openings(all, open, file),
                forall|s: Option<Seq<char>>|
                    s != old(self).sink() ==> #[trigger] fs.flushes(s) == old(fs).flushes(s),
                fs.flushes(self.sink()) + flushings(all.skip(done), self.is_open()) == old(fs).flushes(old(self).sink()) + flushings(all, open),
                (fs.holds(self.sink()), self.is_open()) == replay(all.take(done), held, open, file),
                !open && payloads(all).len() == 0 ==> !self.is_open(),
            ensures
                self.wf(),
                self.sink() == old(self).sink(),
                self.failure() == old(self).failure(),
                self.pending().len() == 0,
                queue@.len() == 0,
                done == all.len(),
                all == old(queue)@,
                before == old(replies)@,
                file == (old(self).sink() is Some),
                replies@ == before + repeated(RequestStatus::OK, done as nat),
                forall|s: Option<Seq<char>>|
                    s != old(self).sink() ==> #[trigger] fs.holds(s) == old(fs).holds(s),
                forall|s: Option<Seq<char>>|
                    s != old(self).sink() ==> #[trigger] fs.issued(s) == old(fs).issued(s),
                held == old(fs).holds(old(self).sink()),
                open == old(self).is_open(),
                fs.issued(self.sink()) + issues(all.skip(done), self.is_open()) == old(fs).issued(
                    old(self).sink(),
                ) + issues(all, open),
                forall|s: Option<Seq<char>>|
                    s != old(self).sink() ==> #[trigger] fs.opens(s) == old(fs).opens(s),
                fs.opens(self.sink()) + openings(all.skip(done), self.is_open(), file) == old(fs).opens(old(self).sink()) + openings(all, open, file),
                forall|s: Option<Seq<char>>|
                    s != old(self).sink() ==> #[trigger] fs.flushes(s) == old(fs).flushes(s),
                fs.flushes(self.sink()) + flushings(all.skip(done), self.is_open()) == old(fs).flushes(old(self).sink()) + flushings(all, open),
                (fs.holds(self.sink()), self.is_open()) == replay(all.take(done), held, open, file),
            decreases queue@.len(),
        {
            if queue.len() == 0 {
                break ;
            }
            let ghost rest = queue@;
            self.batch.fill(queue);
            let ghost taken: int = first_batch(rest);
            let ghost batch = self.pending();
            proof {
                lemma_first_batch(rest);
                assert(batch =~= all.subrange(done, done + taken));
                assert(queue@ =~= all.skip(done + taken));
                assert(rest.skip(taken) =~= all.skip(done + taken));
                assert(rest[taken - 1] == batch.last());
                assert(all.take(done + taken) =~= all.take(done) + batch);
                lemma_replay_concat(all.take(done), batch, held, open, file);
                lemma_replay_batch(batch, fs.holds(self.sink()), self.is_open(), file);
                lemma_close_is_last(batch);
                lemma_no_payload(all);
                lemma_no_payload(batch);
                assert(rest.take(taken) =~= batch);
                assert(batch + queue@ =~= rest);
                assert(stops(batch) == (self.batch.wants_flush() || self.batch.wants_close()));
                assert(concat(Seq::<Seq<u8>>::empty()) =~= Seq::<u8>::empty());
                assert(fs.holds(self.sink()) + Seq::<u8>::empty() =~= fs.holds(self.sink()));
            }
            let ghost was_open = self.is_open();
            let ghost opens = fs.opens(self.sink());
            if self.writer.is_none() {
                if self.batch.n_writes() == 0 {
                    let mut answers = self.batch.clear();
                    replies.append(&mut answers);
                    proof {
                        assert(replies@ =~= before + repeated(
                            RequestStatus::OK,
                            (done + taken) as nat,
                        ));
                        done = done + taken;
                    }
                    continue ;
                }
                let append = self.batch.is_append();
                let opened = match &self.path {
                    Some(p) => fs.build(p.as_str(), append),
                    None => Ok(fs.stdout()),
                };
                match opened {
                    Ok(w) => {
                        self.writer = Some(w);
                    },
                    Err(e) => {
                        proof {
                            assert(all =~= all.take(done) + batch + queue@);
                            assert(queue@.len() == all.len() - done - taken);
                            assert(self.pending().len() == taken);
                        }
                        return Err(e);
                    },
                }
            }
            let mut w = match self.writer.take() {
                Some(w) => w,
                None => vstd::pervasive::unreached(),
            };
            match self.batch.issue(fs, &mut w) {
                Ok((close, mut answers)) => {
                    replies.append(&mut answers);
                    if !close {
                        self.writer = Some(w);
                    }
                    proof {
                        assert(replies@ =~= before + repeated(
                            RequestStatus::OK,
                            (done + taken) as nat,
                        ));
                        done = done + taken;
                    }
                },
                Err(e) => {
                    self.writer = Some(w);
                    proof {
                        assert(all =~= all.take(done) + batch + queue@);
                        assert(queue@.len() == all.len() - done - taken);
                        assert(self.pending().len() == taken);
                        let next = openings(
                            rest.skip(taken),
                            !(rest[taken - 1] is Close),
                            file,
                        );
                        if !was_open && file {
                            assert(fs.opens(self.sink()) == opens.push(first_append(batch)));
                            assert(opens.push(first_append(batch)) + next =~= opens + (
                            seq![first_append(batch)] + next));
                        } else {
                            assert(Seq::<bool>::empty() + next =~= next);
                        }
                    }
                    return Err(e);
                },
            }
        }
        proof {
            assert(all.take(done) =~= all);
            assert(all =~= all.take(done) + self.pending() + queue@);
        }
        Ok(())
    }

    /// Answers every request of `queue` with ERROR.
    pub fn fail_all(queue: &mut VecDeque<Request>, replies: &mut Vec<RequestStatus>)
        ensures
            final(queue)@.len() == 0,
            final(replies)@ == old(replies)@ + repeated(RequestStatus::ERROR, old(queue)@.len()),
    {
        let ghost n = queue@.len();
        let ghost before = replies@;
        let ghost mut bad: nat = 0;
        proof {
            assert(before + repeated(RequestStatus::ERROR, 0) =~= before);
        }
        while queue.len() > 0
            invariant
                bad + queue@.len() == n,
                replies@ == before + repeated(RequestStatus::ERROR, bad),
            decreases queue@.len(),
        {
            let _ = queue.pop_front();
            replies.push(RequestStatus::ERROR);
            proof {
                assert(replies@ =~= before + repeated(RequestStatus::ERROR, bad + 1));
                bad = bad + 1;
            }
        }
    }

    /// What serving a queue comes to once the loop has ended in `outcome`.
    /// Where it has served the whole queue, nothing is left to do. Where
    /// the sink has failed, its failure is kept for the clients to report,
    /// and the requests of the batch that failed and all those still in
    /// the queue are answered with ERROR.
    pub fn conclude(
        &mut self,
        outcome: Result<(), CompileError>,
        queue: &mut VecDeque<Request>,
        replies: &mut Vec<RequestStatus>,
    )
        requires
            old(self).wf(),
            old(self).failure() is None,
        ensures
            final(self).wf(),
            final(self).sink() == old(self).sink(),
            final(self).is_open() == old(self).is_open(),
            match outcome {
                Ok(_) => *final(self) == *old(self) && final(replies)@ == old(replies)@ && final(queue)@ == old(queue)@,
                Err(e) => final(self).failure() == Some(e.message()) && final(replies)@ == old(replies)@ + repeated(
                    RequestStatus::ERROR,
                    old(self).pending().len() + old(queue)@.len(),
                ) && final(self).pending().len() == 0 && final(queue)@.len() == 0,
            },
    {
        match outcome {
            Ok(()) => {},
            Err(e) => {
                self.error = Some(e);
                let ghost before = replies@;
                let ghost failed = self.pending().len();
                let ghost left = queue@.len();
                let mut answers = self.batch.clear_error();
                replies.append(&mut answers);
                Self::fail_all(queue, replies);
                proof {
                    assert(replies@ =~= before + repeated(RequestStatus::ERROR, failed + left));
                }
            },
        }
    }

    /// Serves the requests of `queue` and answers each of them, in order.
    /// Requests without a write do not fail where the sink is closed to
    /// begin with. Once a request has failed, that one and every request
    /// behind it, now and in later calls, is answered with ERROR; the
    /// failure that is kept is the one that the sink gave, and stays the
    /// first one.
    pub fn receive_thread(&mut self, queue: &mut VecDeque<Request>, fs: &mut F) -> (replies: Vec<
        RequestStatus,
    >)
        requires
            old(self).wf(),
            old(self).pending().len() == 0,
        ensures
            final(self).wf(),
            final(self).pending().len() == 0,
            final(self).sink() == old(self).sink(),
            final(queue)@.len() == 0,
            replies@.len() == old(queue)@.len(),
            forall|s: Option<Seq<char>>|
                s != old(self).sink() ==> #[trigger] final(fs).holds(s) == old(fs).holds(s),
            forall|s: Option<Seq<char>>|
                s != old(self).sink() ==> #[trigger] final(fs).issued(s) == old(fs).issued(s),
            old(self).failure() is None && final(self).failure() is None ==> final(fs).issued(
                old(self).sink(),
            ) == old(fs).issued(old(self).sink()) + issues(old(queue)@, old(self).is_open()),
            old(self).failure() is Some ==> final(fs).issued(old(self).sink()) == old(fs).issued(
                old(self).sink(),
            ),
            forall|s: Option<Seq<char>>|
                s != old(self).sink() ==> #[trigger] final(fs).opens(s) == old(fs).opens(s),
            old(self).failure() is None && final(self).failure() is None ==> final(fs).opens(
                old(self).sink(),
            ) == old(fs).opens(old(self).sink()) + openings(
                old(queue)@,
                old(self).is_open(),
                old(self).sink() is Some,
            ),
            old(self).failure() is Some ==> final(fs).opens(old(self).sink()) == old(fs).opens(
                old(self).sink(),
            ),
            forall|s: Option<Seq<char>>|
                s != old(self).sink() ==> #[trigger] final(fs).flushes(s) == old(fs).flushes(s),
            old(self).failure() is None && final(self).failure() is None ==> final(fs).flushes(
                old(self).sink(),
            ) == old(fs).flushes(old(self).sink()) + flushings(old(queue)@, old(self).is_open()),
            old(self).failure() is Some ==> final(fs).flushes(old(self).sink()) == old(fs).flushes(
                old(self).sink(),
            ),
            old(self).failure() is Some ==> final(self).failure() == old(self).failure()
                && replies@ == repeated(RequestStatus::ERROR, old(queue)@.len()),
            old(self).failure() is Some ==> final(fs).holds(old(self).sink()) == old(fs).holds(
                old(self).sink(),
            ),
            old(self).failure() is None && final(self).failure() is None ==> replies@ == repeated(
                RequestStatus::OK,
                old(queue)@.len(),
            ) && (final(fs).holds(old(self).sink()), final(self).is_open()) == replay(
                old(queue)@,
                old(fs).holds(old(self).sink()),
                old(self).is_open(),
                old(self).sink() is Some,
            ),
            old(self).failure() is None && !old(self).is_open() && payloads(old(queue)@).len() == 0
                ==> final(self).failure() is None,
            old(self).failure() is None && final(self).failure() is Some ==> final(self).failure()
                == final(fs).fault(old(self).sink()),
            old(self).failure() is None && final(self).failure() is Some ==> exists|k: nat|
                k < old(queue)@.len() && replies@ == repeated(RequestStatus::OK, k) + repeated(
                    RequestStatus::ERROR,
                    (old(queue)@.len() - k) as nat,
                ) && final(fs).opens(old(self).sink()) + openings(
                    old(queue)@.skip(k as int),
                    final(self).is_open(),
                    old(self).sink() is Some,
                ) == old(fs).opens(old(self).sink()) + openings(
                    old(queue)@,
                    old(self).is_open(),
                    old(self).sink() is Some,
                ) && final(fs).flushes(old(self).sink()) + flushings(
                    old(queue)@.skip(k as int),
                    final(self).is_open(),
                ) == old(fs).flushes(old(self).sink()) + flushings(
                    old(queue)@,
                    old(self).is_open(),
                ),
    {
        let ghost n = queue@.len();
        let ghost all = queue@;
        let mut replies: Vec<RequestStatus> = Vec::new();
        if self.error.is_none() {
            let outcome = self.receive_loop(queue, fs, &mut replies);
            let ghost failed = self.pending();
            let ghost left = queue@;
            let ghost ok = (n - failed.len() - left.len()) as nat;
            proof {
                assert(replies@ =~= repeated(RequestStatus::OK, ok));
                assert(all.skip(ok as int) =~= failed + left);
            }
            self.conclude(outcome, queue, &mut replies);
            proof {
                if outcome is Ok {
                    assert(replies@ =~= repeated(RequestStatus::OK, n));
                } else {
                    assert(replies@ == repeated(RequestStatus::OK, ok) + repeated(
                        RequestStatus::ERROR,
                        (n - ok) as nat,
                    ));
                }
            }
        } else {
            Self::fail_all(queue, &mut replies);
            proof {
                assert(replies@ =~= repeated(RequestStatus::ERROR, n));
            }
        }
        replies
    }
}

/// In a batch, the request to close, if there is one, is the last.
proof fn lemma_close_is_last(reqs: Seq<Request>)
    requires
        reqs.len() > 0,
        all_writes(reqs.drop_last()),
    ensures
        (exists|i: int| 0 <= i < reqs.len() && (#[trigger] reqs[i]) is Close) == (
        reqs.last() is Close),
{
    if exists|i: int| 0 <= i < reqs.len() && (#[trigger] reqs[i]) is Close {
        let i = choose|i: int| 0 <= i < reqs.len() && (#[trigger] reqs[i]) is Close;
        if i < reqs.len() - 1 {
            assert(reqs.drop_last()[i] is Write);
            assert(reqs.drop_last()[i] == reqs[i]);
        }
    }
    if reqs.last() is Close {
        assert(reqs[reqs.len() - 1] is Close);
    }
}

/// What a client reports where a request failed and its owner kept no
/// error.
pub const BAD_SHUTDOWN_MSG: &'static str =
    "internal error: (writer?) thread did not shut down cleanly";

/// A batch of a client: its data, how to open the file for it, and the
/// status of the request that carries it.
#[derive(Debug)]
pub struct WriteGuard {
    data: Vec<u8>,
    status: ErrorCode,
    append: bool,
}

impl WriteGuard {
    /// The data of the batch.
    pub closed spec fn bytes(&self) -> Seq<u8> {
        self.data@
    }

    /// The status of the request of the batch.
    pub closed spec fn spec_status(&self) -> RequestStatus {
        self.status.status()
    }

    /// How the batch asks to open the file.
    pub closed spec fn appends(&self) -> bool {
        self.append
    }

    /// An empty batch, under way.
    pub fn new() -> (r: WriteGuard)
        ensures
            r.bytes() == Seq::<u8>::empty(),
            r.spec_status() == RequestStatus::ONGOING,
            !r.appends(),
    {
        WriteGuard { data: Vec::new(), status: ErrorCode::new(), append: false }
    }

    pub fn extend(&mut self, bs: &[u8], append: bool)
        ensures
            final(self).bytes() == old(self).bytes() + bs@,
            final(self).appends() == append,
            final(self).spec_status() == old(self).spec_status(),
    {
        self.data.extend_from_slice(bs);
        self.append = append;
    }

    /// The request that carries the batch.
    pub fn request(&self) -> (r: Request)
        ensures
            r matches Request::Write { data, append } && data@ == self.bytes() && append
                == self.appends(),
    {
        Request::Write { data: self.data.clone(), append: self.append }
    }

    pub fn status(&self) -> (r: RequestStatus)
        ensures
            r == self.spec_status(),
    {
        self.status.read()
    }

    /// Makes the guard an empty batch again.
    pub fn activate(&mut self)
        ensures
            final(self).bytes() == Seq::<u8>::empty(),
            final(self).spec_status() == RequestStatus::ONGOING,
            !final(self).appends(),
    {
        self.status = ErrorCode::new();
        self.append = false;
        self.data.clear();
    }

    /// Records the answer of the owner.
    pub fn answer(&mut self, code: RequestStatus)
        ensures
            final(self).bytes() == old(self).bytes(),
            final(self).appends() == old(self).appends(),
            final(self).spec_status() == code,
    {
        match code {
            RequestStatus::ONGOING => {
                self.status = ErrorCode::new();
            },
            RequestStatus::OK => {
                self.status.set_ok();
            },
            RequestStatus::ERROR => {
                self.status.set_error();
            },
        }
    }
}

/// The statuses of `guards`, in order.
pub open spec fn statuses(guards: Seq<WriteGuard>) -> Seq<RequestStatus> {
    Seq::new(guards.len(), |i: int| guards[i].spec_status())
}

/// The number of statuses at the front of `st` that are OK.
pub open spec fn leading_ok(st: Seq<RequestStatus>) -> nat
    decreases st.len(),
{
    if st.len() > 0 && st[0] == RequestStatus::OK {
        1 + leading_ok(st.drop_first())
    } else {
        0
    }
}

/// The size of a pool of `pool` guards after `gone` guards were offered to
/// it: it takes them while it holds fewer than `IO_CHAN_SIZE`.
pub open spec fn pooled(pool: nat, gone: nat) -> nat {
    if pool + gone <= IO_CHAN_SIZE {
        pool + gone
    } else if pool <= IO_CHAN_SIZE {
        IO_CHAN_SIZE as nat
    } else {
        pool
    }
}

/// Whether the first request of `st` that is not OK has failed.
pub open spec fn failed(st: Seq<RequestStatus>) -> bool {
    leading_ok(st) < st.len() && st[leading_ok(st) as int] == RequestStatus::ERROR
}

proof fn lemma_leading_ok(st: Seq<RequestStatus>, k: int)
    requires
        0 <= k <= st.len(),
        forall|j: int| 0 <= j < k ==> st[j] == RequestStatus::OK,
        k < st.len() ==> st[k] != RequestStatus::OK,
    ensures
        leading_ok(st) == k,
    decreases st.len(),
{
    if k > 0 {
        let rest = st.drop_first();
        assert(st[0] == RequestStatus::OK);
        assert forall|j: int| 0 <= j < k - 1 implies rest[j] == RequestStatus::OK by {
            assert(rest[j] == st[j + 1]);
        }
        if k - 1 < rest.len() {
            assert(rest[k - 1] == st[k]);
        }
        lemma_leading_ok(rest, k - 1);
    }
}

/// The client end of the protocol, for one file and one thread: the batch
/// that is being filled, the batches that are with the owner, and a pool of
/// guards to use again.
#[derive(Debug)]
pub struct FileHandle {
    old_guards: Vec<WriteGuard>,
    guards: VecDeque<WriteGuard>,
    cur_batch: WriteGuard,
}

impl FileHandle {
    /// The batch that is being filled has no answer yet.
    pub closed spec fn wf(&self) -> bool {
        self.cur_batch.spec_status() == RequestStatus::ONGOING
    }

    /// The data of the batch that is being filled.
    pub closed spec fn batch(&self) -> Seq<u8> {
        self.cur_batch.bytes()
    }

    /// How the batch that is being filled asks to open the file.
    pub closed spec fn appends(&self) -> bool {
        self.cur_batch.appends()
    }

    /// The statuses of the requests that are with the owner, oldest first.
    pub closed spec fn in_flight(&self) -> Seq<RequestStatus> {
        statuses(self.guards@)
    }

    /// The number of guards in the pool.
    pub closed spec fn pool(&self) -> nat {
        self.old_guards@.len()
    }

    /// The number of requests that are with the owner.
    pub fn in_flight_count(&self) -> (r: usize)
        ensures
            r == self.in_flight().len(),
    {
        self.guards.len()
    }

    /// A client with nothing written.
    pub fn new() -> (r: FileHandle)
        ensures
            r.wf(),
            r.batch() == Seq::<u8>::empty(),
            r.in_flight() == Seq::<RequestStatus>::empty(),
            r.pool() == 0,
    {
        let r = FileHandle {
            old_guards: Vec::new(),
            guards: VecDeque::new(),
            cur_batch: WriteGuard::new(),
        };
        assert(r.in_flight() =~= Seq::<RequestStatus>::empty());
        r
    }

    /// The error to report for a request that failed: the one that the
    /// owner kept in `slot`, or a bad shutdown where it kept none.
    pub fn read_error(slot: &Option<String>) -> (e: CompileError)
        ensures
            e.message() == match slot {
                Some(m) => m@,
                None => BAD_SHUTDOWN_MSG@,
            },
    {
        match slot {
            Some(m) => CompileError(m.clone()),
            None => CompileError(BAD_SHUTDOWN_MSG.to_string()),
        }
    }

    /// Records the answer `code` of the owner to the oldest request that
    /// has none yet.
    pub fn acknowledge(&mut self, code: RequestStatus)
        requires
            old(self).wf(),
            exists|i: int|
                0 <= i < old(self).in_flight().len() && old(self).in_flight()[i]
                    == RequestStatus::ONGOING,
        ensures
            final(self).wf(),
            final(self).batch() == old(self).batch(),
            final(self).appends() == old(self).appends(),
            final(self).pool() == old(self).pool(),
            exists|i: int|
                0 <= i < old(self).in_flight().len() && old(self).in_flight()[i]
                    == RequestStatus::ONGOING && (forall|j: int|
                    0 <= j < i ==> old(self).in_flight()[j] != RequestStatus::ONGOING)
                    && final(self).in_flight() == old(self).in_flight().update(i, code),
    {
        let ghost st = self.in_flight();
        let mut i: usize = 0;
        while i < self.guards.len()
            invariant
                i <= self.guards@.len(),
                *self == *old(self),
                st == statuses(self.guards@),
                exists|k: int| 0 <= k < st.len() && st[k] == RequestStatus::ONGOING,
                forall|j: int| 0 <= j < i ==> st[j] != RequestStatus::ONGOING,
            ensures
                *self == *old(self),
                i < st.len(),
                st[i as int] == RequestStatus::ONGOING,
                forall|j: int| 0 <= j < i ==> st[j] != RequestStatus::ONGOING,
            decreases self.guards@.len() - i,
        {
            if let RequestStatus::ONGOING = self.guards[i].status() {
                break ;
            }
            i += 1;
        }
        let taken = self.guards.remove(i);
        match taken {
            Some(mut g) => {
                g.answer(code);
                self.guards.insert(i, g);
                proof {
                    assert(self.in_flight() =~= st.update(i as int, code));
                }
            },
            None => {},
        }
    }

    /// Retires the requests at the front of the queue that are done, so
    /// that the queue is then empty or starts with a request under way.
    /// Their guards go to the pool while it holds fewer than
    /// `IO_CHAN_SIZE`. Fails, and changes nothing, where the
    /// first request that is not done has failed.
    pub fn clear_guards(&mut self, slot: &Option<String>) -> (r: Result<(), CompileError>)
        requires
            old(self).wf(),
        ensures
            final(self).wf(),
            final(self).batch() == old(self).batch(),
            final(self).appends() == old(self).appends(),
            match r {
                Ok(()) => !failed(old(self).in_flight()) && final(self).in_flight()
                    == old(self).in_flight().skip(leading_ok(old(self).in_flight()) as int)
                    && final(self).pool() == pooled(
                    old(self).pool(),
                    leading_ok(old(self).in_flight()),
                ),
                Err(e) => failed(old(self).in_flight()) && *final(self) == *old(self) && e.message()
                    == match slot {
                    Some(m) => m@,
                    None => BAD_SHUTDOWN_MSG@,
                },
            },
    {
        let ghost st = self.in_flight();
        let mut done_count: usize = 0;
        let mut i: usize = 0;
        proof {
            if self.guards@.len() == 0 {
                lemma_leading_ok(st, 0);
            }
        }
        while i < self.guards.len()
            invariant
                self.wf(),
                *self == *old(self),
                i <= self.guards@.len(),
                i == self.guards@.len() ==> leading_ok(st) == i,
                self.guards@ == old(self).guards@,
                self.old_guards@ == old(self).old_guards@,
                self.cur_batch == old(self).cur_batch,
                st == statuses(self.guards@),
                forall|j: int| 0 <= j < i ==> st[j] == RequestStatus::OK,
                done_count == i,
            ensures
                self.guards@ == old(self).guards@,
                self.old_guards@ == old(self).old_guards@,
                self.cur_batch == old(self).cur_batch,
                done_count == leading_ok(st),
                done_count <= self.guards@.len(),
                !failed(st),
            decreases self.guards@.len() - i,
        {
            match self.guards[i].status() {
                RequestStatus::ONGOING => {
                    proof {
                        lemma_leading_ok(st, i as int);
                    }
                    break ;
                },
                RequestStatus::OK => {
                    done_count = i + 1;
                },
                RequestStatus::ERROR => {
                    proof {
                        lemma_leading_ok(st, i as int);
                    }
                    return Err(Self::read_error(slot));
                },
            }
            i += 1;
            proof {
                if i == self.guards@.len() {
                    lemma_leading_ok(st, i as int);
                }
            }
        }
        let mut k: usize = 0;
        while k < done_count
            invariant
                self.wf(),
                k <= done_count <= old(self).guards@.len(),
                self.cur_batch == old(self).cur_batch,
                self.guards@ == old(self).guards@.skip(k as int),
                self.old_guards@.len() == pooled(old(self).pool(), k as nat),
            decreases done_count - k,
        {
            match self.guards.pop_front() {
                Some(old_guard) => {
                    if self.old_guards.len() < IO_CHAN_SIZE {
                        self.old_guards.push(old_guard);
                    }
                },
                None => {},
            }
            proof {
                assert(self.guards@ =~= old(self).guards@.skip(k + 1));
            }
            k += 1;
        }
        proof {
            assert(old(self).guards@.skip(0) =~= old(self).guards@);
            assert(self.in_flight() =~= st.skip(done_count as int));
        }
        Ok(())
    }

    /// A guard for the next batch: one of the pool, made empty, or a new
    /// one.
    fn guard(&mut self) -> (g: WriteGuard)
        requires
            old(self).wf(),
        ensures
            final(self).wf(),
            g.bytes() == Seq::<u8>::empty(),
            g.spec_status() == RequestStatus::ONGOING,
            !g.appends(),
            final(self).batch() == old(self).batch(),
            final(self).appends() == old(self).appends(),
            final(self).in_flight() == old(self).in_flight(),
            final(self).pool() == if old(self).pool() > 0 {
                (old(self).pool() - 1) as nat
            } else {
                0
            },
    {
        match self.old_guards.pop() {
            Some(mut g) => {
                g.activate();
                g
            },
            None => WriteGuard::new(),
        }
    }

    /// Seals the batch that is being filled, if it holds anything: the
    /// request that carries it is returned to be sent to the owner, and an
    /// empty batch takes its place. Before that, requests that are done are
    /// retired as `clear_guards` says; where that fails, nothing changes.
    pub fn clear_batch(&mut self, slot: &Option<String>) -> (r: Result<
        Option<Request>,
        CompileError,
    >)
        requires
            old(self).wf(),
        ensures
            final(self).wf(),
            sealed(*old(self), *final(self), slot, r),
    {
        if self.cur_batch.data.len() == 0 {
            return Ok(None);
        }
        match self.clear_guards(slot) {
            Err(e) => {
                return Err(e);
            },
            Ok(()) => {},
        }
        let mut next_batch = self.guard();
        let req = self.cur_batch.request();
        std::mem::swap(&mut next_batch, &mut self.cur_batch);
        self.guards.push_back(next_batch);
        proof {
            assert(self.in_flight() =~= old(self).in_flight().skip(
                leading_ok(old(self).in_flight()) as int,
            ).push(RequestStatus::ONGOING));
        }
        Ok(Some(req))
    }

    /// Takes `bs` into the batch that is being filled. Where they do not
    /// fit into `BUFFER_SIZE` bytes together with what it holds, the batch
    /// is sealed first, as `clear_batch` says, and the request for it is
    /// returned. Where sealing fails, nothing changes.
    pub fn write(&mut self, bs: &[u8], append: bool, slot: &Option<String>) -> (r: Result<
        Option<Request>,
        CompileError,
    >)
        requires
            old(self).wf(),
        ensures
            final(self).wf(),
            match r {
                Err(e) => old(self).batch().len() + bs@.len() > BUFFER_SIZE && sealed(
                    *old(self),
                    *final(self),
                    slot,
                    Err(e),
                ),
                Ok(req) => exists|mid: FileHandle|
                    {
                        &&& if old(self).batch().len() + bs@.len() > BUFFER_SIZE {
                            sealed(*old(self), mid, slot, Ok(req))
                        } else {
                            mid == *old(self) && req is None
                        }
                        &&& final(self).batch() == mid.batch() + bs@
                        &&& final(self).appends() == append
                        &&& final(self).in_flight() == mid.in_flight()
                        &&& final(self).pool() == mid.pool()
                    },
            },
    {
        let mut sent: Option<Request> = None;
        if bs.len() > BUFFER_SIZE || self.cur_batch.data.len() > BUFFER_SIZE - bs.len() {
            match self.clear_batch(slot) {
                Err(e) => {
                    return Err(e);
                },
                Ok(req) => {
                    sent = req;
                },
            }
        }
        let ghost mid = *self;
        self.cur_batch.extend(bs, append);
        proof {
            assert(if old(self).batch().len() + bs@.len() > BUFFER_SIZE {
                sealed(*old(self), mid, slot, Ok(sent))
            } else {
                mid == *old(self) && sent is None
            });
        }
        Ok(sent)
    }

    /// Seals the batch as `clear_batch` says and asks the owner to flush:
    /// the requests to send are returned in order. Once the owner has
    /// answered the request to flush, `flushed` takes its status.
    pub fn flush(&mut self, slot: &Option<String>) -> (r: Result<
        (Option<Request>, Request),
        CompileError,
    >)
        requires
            old(self).wf(),
        ensures
            final(self).wf(),
            match r {
                Ok(reqs) => sealed(*old(self), *final(self), slot, Ok(reqs.0)) && reqs.1
                    == Request::Flush,
                Err(e) => sealed(*old(self), *final(self), slot, Err(e)),
            },
    {
        match self.clear_batch(slot) {
            Err(e) => Err(e),
            Ok(req) => Ok((req, Request::flush())),
        }
    }

    /// Ends a flush that the owner has answered with `status`: no request
    /// is in flight any more. Fails where the flush has failed, with the
    /// error that the owner kept in `slot`.
    pub fn flushed(&mut self, status: RequestStatus, slot: &Option<String>) -> (r: Result<
        (),
        CompileError,
    >)
        requires
            old(self).wf(),
        ensures
            final(self).wf(),
            final(self).batch() == old(self).batch(),
            final(self).appends() == old(self).appends(),
            final(self).pool() == old(self).pool(),
            final(self).in_flight() == Seq::<RequestStatus>::empty(),
            r is Err <==> status == RequestStatus::ERROR,
            r matches Err(e) ==> e.message() == match slot {
                Some(m) => m@,
                None => BAD_SHUTDOWN_MSG@,
            },
    {
        self.guards.clear();
        proof {
            assert(self.in_flight() =~= Seq::<RequestStatus>::empty());
        }
        if let RequestStatus::ERROR = status {
            Err(Self::read_error(slot))
        } else {
            Ok(())
        }
    }

    /// Seals the batch as `clear_batch` says and asks the owner to close
    /// the file: the requests to send are returned in order.
    pub fn close(&mut self, slot: &Option<String>) -> (r: Result<
        (Option<Request>, Request),
        CompileError,
    >)
        requires
            old(self).wf(),
        ensures
            final(self).wf(),
            match r {
                Ok(reqs) => sealed(*old(self), *final(self), slot, Ok(reqs.0)) && reqs.1
                    == Request::Close,
                Err(e) => sealed(*old(self), *final(self), slot, Err(e)),
            },
    {
        match self.clear_batch(slot) {
            Err(e) => Err(e),
            Ok(req) => Ok((req, Request::Close)),
        }
    }
}

/// What sealing the batch of the client `before` comes to, where it
/// leaves the client `after` and returns `r`.
pub open spec fn sealed(
    before: FileHandle,
    after: FileHandle,
    slot: &Option<String>,
    r: Result<Option<Request>, CompileError>,
) -> bool {
    if before.batch().len() == 0 {
        r == Ok::<Option<Request>, CompileError>(None) && after == before
    } else if failed(before.in_flight()) {
        &&& after == before
        &&& r matches Err(e)
        &&& e.message() == match slot {
            Some(m) => m@,
            None => BAD_SHUTDOWN_MSG@,
        }
    } else {
        let gone = leading_ok(before.in_flight());
        let pool = pooled(before.pool(), gone);
        &&& r matches Ok(Some(Request::Write { data, append }))
        &&& data@ == before.batch()
        &&& append == before.appends()
        &&& after.batch() == Seq::<u8>::empty()
        &&& !after.appends()
        &&& after.in_flight() == before.in_flight().skip(gone as int).push(RequestStatus::ONGOING)
        &&& after.pool() == if pool > 0 {
            (pool - 1) as nat
        } else {
            0
        }
    }
}

/// The number of bytes that the requests `reqs` ask to write.
pub open spec fn total_size(reqs: Seq<Request>) -> nat
    decreases reqs.len(),
{
    if reqs.len() == 0 {
        0
    } else {
        total_size(reqs.drop_last()) + reqs.last().spec_size()
    }
}

/// Where no request closes an open sink, the sink grows by what the
/// requests ask to write, in whatever order they come.
pub proof fn lemma_aggregate_length(reqs: Seq<Request>, held: Seq<u8>, file: bool)
    requires
        forall|i: int| 0 <= i < reqs.len() ==> !((#[trigger] reqs[i]) is Close),
    ensures
        replay(reqs, held, true, file).1,
        replay(reqs, held, true, file).0.len() == held.len() + total_size(reqs),
    decreases reqs.len(),
{
    if reqs.len() > 0 {
        let front = reqs.drop_last();
        assert forall|i: int| 0 <= i < front.len() implies !((#[trigger] front[i]) is Close) by {
            assert(front[i] == reqs[i]);
        }
        lemma_aggregate_length(front, held, file);
        assert(!(reqs[reqs.len() - 1] is Close));
    }
}

/// Writes of `k` bytes each, `n` of them in all, make an open sink grow by
/// `n` times `k` bytes, however the writes of different clients are
/// interleaved, and whatever flushes come between them.
pub proof fn lemma_equal_writes(reqs: Seq<Request>, held: Seq<u8>, file: bool, k: nat)
    requires
        forall|i: int|
            0 <= i < reqs.len() ==> !((#[trigger] reqs[i]) is Close) && (reqs[i] is Write
                ==> reqs[i].spec_size() == k),
    ensures
        replay(reqs, held, true, file).0.len() == held.len() + payloads(reqs).len() * k,
    decreases reqs.len(),
{
    lemma_aggregate_length(reqs, held, file);
    lemma_total_of_equal(reqs, k);
}

proof fn lemma_total_of_equal(reqs: Seq<Request>, k: nat)
    requires
        forall|i: int|
            0 <= i < reqs.len() ==> ((#[trigger] reqs[i]) is Write ==> reqs[i].spec_size() == k),
    ensures
        total_size(reqs) == payloads(reqs).len() * k,
    decreases reqs.len(),
{
    if reqs.len() > 0 {
        let front = reqs.drop_last();
        assert forall|i: int|
            0 <= i < front.len() && (#[trigger] front[i]) is Write implies front[i].spec_size()
            == k by {
            assert(front[i] == reqs[i]);
        }
        lemma_total_of_equal(front, k);
        assert(reqs[reqs.len() - 1] == reqs.last());
        if reqs.last() is Write {
            assert(payloads(reqs).len() == payloads(front).len() + 1);
            assert((payloads(front).len() + 1) * k == payloads(front).len() * k + k)
                by (nonlinear_arith);
        }
    }
}

/// Whether `queue` is an interleaving of what the clients `parts` have
/// sent: every request of every client, those of one client in the order
/// in which it sent them.
pub open spec fn interleaves(parts: Seq<Seq<Request>>, queue: Seq<Request>) -> bool
    decreases queue.len(),
{
    if queue.len() == 0 {
        forall|t: int| 0 <= t < parts.len() ==> (#[trigger] parts[t]).len() == 0
    } else {
        exists|t: int|
            0 <= t < parts.len() && (#[trigger] parts[t]).len() > 0 && parts[t].last()
                == queue.last() && interleaves(
                parts.update(t, parts[t].drop_last()),
                queue.drop_last(),
            )
    }
}

/// Whether each write among `reqs` appends, and holds bytes `a` and no
/// others. Requests to flush and to close may stand anywhere.
pub open spec fn appends_only(reqs: Seq<Request>, a: u8) -> bool {
    forall|i: int|
        0 <= i < reqs.len() ==> match #[trigger] reqs[i] {
            Request::Write { data, append } => append && data@ == Seq::new(data@.len(), |j: int| a),
            _ => true,
        }
}

/// The number of bytes that the clients `parts` ask to write, all
/// together.
pub open spec fn grand_total(parts: Seq<Seq<Request>>) -> nat
    decreases parts.len(),
{
    if parts.len() == 0 {
        0
    } else {
        grand_total(parts.drop_last()) + total_size(parts.last())
    }
}

proof fn lemma_grand_total_less(parts: Seq<Seq<Request>>, t: int)
    requires
        0 <= t < parts.len(),
        parts[t].len() > 0,
    ensures
        grand_total(parts) == grand_total(parts.update(t, parts[t].drop_last()))
            + parts[t].last().spec_size(),
    decreases parts.len(),
{
    let less = parts.update(t, parts[t].drop_last());
    if t == parts.len() - 1 {
        assert(less.drop_last() =~= parts.drop_last());
        assert(less.last() == parts[t].drop_last());
    } else {
        assert(less.drop_last() =~= parts.drop_last().update(t, parts[t].drop_last()));
        assert(less.last() == parts.last());
        assert(parts.drop_last()[t] == parts[t]);
        lemma_grand_total_less(parts.drop_last(), t);
    }
}

proof fn lemma_grand_total_none(parts: Seq<Seq<Request>>)
    requires
        forall|t: int| 0 <= t < parts.len() ==> (#[trigger] parts[t]).len() == 0,
    ensures
        grand_total(parts) == 0,
    decreases parts.len(),
{
    if parts.len() > 0 {
        assert forall|t: int| 0 <= t < parts.drop_last().len() implies (
        #[trigger] parts.drop_last()[t]).len() == 0 by {
            assert(parts.drop_last()[t] == parts[t]);
        }
        lemma_grand_total_none(parts.drop_last());
        assert(parts.last() == parts[parts.len() - 1]);
    }
}

proof fn lemma_grand_total_equal(parts: Seq<Seq<Request>>, k: nat)
    requires
        forall|t: int| 0 <= t < parts.len() ==> total_size(#[trigger] parts[t]) == k,
    ensures
        grand_total(parts) == parts.len() * k,
    decreases parts.len(),
{
    if parts.len() > 0 {
        let front = parts.drop_last();
        assert forall|t: int| 0 <= t < front.len() implies total_size(#[trigger] front[t]) == k by {
            assert(front[t] == parts[t]);
        }
        lemma_grand_total_equal(front, k);
        assert(parts.last() == parts[parts.len() - 1]);
        assert((front.len() + 1) * k == front.len() * k + k) by (nonlinear_arith);
    } else {
        assert(0 * k == 0) by (nonlinear_arith);
    }
}

/// An interleaving asks to write as many bytes as the clients together,
/// and holds only requests of the kind that they send.
proof fn lemma_interleaves(parts: Seq<Seq<Request>>, queue: Seq<Request>, a: u8)
    requires
        interleaves(parts, queue),
        forall|t: int| 0 <= t < parts.len() ==> appends_only(#[trigger] parts[t], a),
    ensures
        total_size(queue) == grand_total(parts),
        appends_only(queue, a),
    decreases queue.len(),
{
    if queue.len() == 0 {
        lemma_grand_total_none(parts);
    } else {
        let t = choose|t: int|
            0 <= t < parts.len() && (#[trigger] parts[t]).len() > 0 && parts[t].last()
                == queue.last() && interleaves(
                parts.update(t, parts[t].drop_last()),
                queue.drop_last(),
            );
        let less = parts.update(t, parts[t].drop_last());
        let front = queue.drop_last();
        assert forall|u: int| 0 <= u < less.len() implies appends_only(#[trigger] less[u], a) by {
            if u == t {
                assert forall|i: int| 0 <= i < less[u].len() implies match #[trigger] less[u][i] {
                    Request::Write { data, append } => append && data@ == Seq::new(
                        data@.len(),
                        |j: int| a,
                    ),
                    _ => true,
                } by {
                    assert(less[u][i] == parts[t][i]);
                }
            } else {
                assert(less[u] == parts[u]);
            }
        }
        lemma_interleaves(less, front, a);
        lemma_grand_total_less(parts, t);
        assert(parts[t].last() == parts[t][parts[t].len() - 1]);
        assert forall|i: int| 0 <= i < queue.len() implies match #[trigger] queue[i] {
            Request::Write { data, append } => append && data@ == Seq::new(data@.len(), |j: int| a),
            _ => true,
        } by {
            if i < front.len() {
                assert(queue[i] == front[i]);
            } else {
                assert(queue[i] == queue.last());
            }
        }
    }
}

/// Requests whose writes all append bytes `a` leave them in the sink
/// behind what it held, as many as they ask to write, whether it is closed
/// and opened again between them or not.
proof fn lemma_appends_only(reqs: Seq<Request>, held: Seq<u8>, open: bool, file: bool, a: u8)
    requires
        appends_only(reqs, a),
    ensures
        replay(reqs, held, open, file).0 == held + Seq::new(total_size(reqs), |j: int| a),
    decreases reqs.len(),
{
    if reqs.len() == 0 {
        assert(held + Seq::new(0, |j: int| a) =~= held);
    } else {
        let front = reqs.drop_last();
        assert forall|i: int| 0 <= i < front.len() implies match #[trigger] front[i] {
            Request::Write { data, append } => append && data@ == Seq::new(data@.len(), |j: int| a),
            _ => true,
        } by {
            assert(front[i] == reqs[i]);
        }
        lemma_appends_only(front, held, open, file, a);
        assert(reqs.last() == reqs[reqs.len() - 1]);
        let before = replay(front, held, open, file);
        match reqs.last() {
            Request::Write { data, append } => {
                assert(replay(reqs, held, open, file).0 == before.0 + data@);
                assert(before.0 + data@ =~= held + Seq::new(total_size(reqs), |j: int| a));
            },
            _ => {},
        }
    }
}

/// Clients that each append `k` bytes `a` to one sink, in as many writes
/// as they like and with flushes and closes between them, leave in it `k`
/// bytes `a` for each client behind what it held: no byte is lost, doubled
/// or changed, however the requests of the clients are interleaved.
pub proof fn lemma_many_clients(
    parts: Seq<Seq<Request>>,
    queue: Seq<Request>,
    held: Seq<u8>,
    open: bool,
    file: bool,
    a: u8,
    k: nat,
)
    requires
        interleaves(parts, queue),
        forall|t: int|
            0 <= t < parts.len() ==> appends_only(#[trigger] parts[t], a) && total_size(parts[t])
                == k,
    ensures
        replay(queue, held, open, file).0 == held + Seq::new(parts.len() * k, |j: int| a),
{
    lemma_interleaves(parts, queue, a);
    lemma_grand_total_equal(parts, k);
    lemma_appends_only(queue, held, open, file, a);
}

/// After a close, writes of which the first does not ask to append leave
/// in the file what they wrote, and nothing of what it held before.
pub proof fn lemma_close_then_rewrite(writes: Seq<Request>, held: Seq<u8>, open: bool)
    requires
        writes.len() > 0,
        all_writes(writes),
        !writes[0]->Write_append,
    ensures
        replay(seq![Request::Close] + writes, held, open, true) == (concat(payloads(writes)), true),
{
    let close = seq![Request::Close];
    lemma_replay_concat(close, writes, held, open, true);
    assert(close.drop_last() =~= Seq::<Request>::empty());
    assert(close.last() == Request::Close);
    assert(replay(close.drop_last(), held, open, true) == (held, open));
    assert(replay(close, held, open, true) == served(held, open, true, Request::Close));
    lemma_replay_writes(writes, held, false, true);
    assert(Seq::<u8>::empty() + concat(payloads(writes)) =~= concat(payloads(writes)));
}

/// After a close, writes of which the first does not ask to append, and
/// then a flush, leave in the file what the writes wrote, in their order,
/// and nothing of what it held before; the file is open.
pub proof fn lemma_close_rewrite_flush(writes: Seq<Request>, held: Seq<u8>, open: bool)
    requires
        writes.len() > 0,
        all_writes(writes),
        !writes[0]->Write_append,
    ensures
        replay(seq![Request::Close] + writes + seq![Request::Flush], held, open, true) == (
            concat(payloads(writes)),
            true,
        ),
{
    let front = seq![Request::Close] + writes;
    let all = front + seq![Request::Flush];
    lemma_close_then_rewrite(writes, held, open);
    assert(all.drop_last() =~= front);
    assert(all.last() == Request::Flush);
}

/// Writes that all append leave in a sink what it held and then the data
/// of every one of them, in order, whatever requests to flush or to close
/// stand between them.
pub proof fn lemma_appends_keep(reqs: Seq<Request>, held: Seq<u8>, open: bool, file: bool)
    requires
        forall|i: int| 0 <= i < reqs.len() && (#[trigger] reqs[i]) is Write ==> reqs[i]->Write_append,
    ensures
        replay(reqs, held, open, file).0 == held + concat(payloads(reqs)),
    decreases reqs.len(),
{
    if reqs.len() == 0 {
        assert(held + concat(payloads(reqs)) =~= held);
    } else {
        let front = reqs.drop_last();
        assert forall|i: int| 0 <= i < front.len() && (#[trigger] front[i]) is Write implies front[i]->Write_append by {
            assert(front[i] == reqs[i]);
        }
        lemma_appends_keep(front, held, open, file);
        assert(reqs.last() == reqs[reqs.len() - 1]);
        match reqs.last() {
            Request::Write { data, append } => {
                let p = payloads(reqs);
                assert(p == payloads(front).push(data@));
                assert(p.drop_last() =~= payloads(front));
                assert(held + concat(payloads(front)) + data@ =~= held + concat(p));
            },
            _ => {},
        }
    }
}

/// The operations on files that the writers need, as the machine offers
/// them. Nothing is asked of them here; see [`Journal`].
pub trait Files {
    /// An open file, or standard output.
    type File;

    /// Opens the file at `path` for writing, at its end if `append` is
    /// set, and emptied if not.
    fn open(&mut self, path: &str, append: bool) -> Result<Self::File, CompileError>;

    /// Opens standard output.
    fn stdout(&mut self) -> Self::File;

    /// Writes all of `bufs`, one behind the other.
    fn write_all_vectored(&mut self, file: &mut Self::File, bufs: &Vec<Vec<u8>>) -> Result<
        (),
        CompileError,
    >;

    /// Flushes what was written.
    fn flush(&mut self, file: &mut Self::File) -> Result<(), CompileError>;
}

/// An open file of a [`Journal`].
pub struct Entry<T> {
    pub file: T,
    sink: Ghost<Option<Seq<char>>>,
}

impl<T> Entry<T> {
    /// The open file.
    pub closed spec fn handle(&self) -> T {
        self.file
    }
}

/// Files of the machine, together with the record of what went into each
/// of them through this value: what a sink holds is what was written to
/// it with success since it was last emptied.
pub struct Journal<R: Files> {
    pub files: R,
    written: Ghost<Map<Option<Seq<char>>, Seq<u8>>>,
    counts: Ghost<Map<Option<Seq<char>>, nat>>,
    flags: Ghost<Map<Option<Seq<char>>, Seq<bool>>>,
    flushed: Ghost<Map<Option<Seq<char>>, nat>>,
    faults: Ghost<Map<Option<Seq<char>>, Seq<char>>>,
}

impl<R: Files> Journal<R> {
    /// What was written to each sink.
    pub closed spec fn written(&self) -> Map<Option<Seq<char>>, Seq<u8>> {
        self.written@
    }

    /// The files that the record is kept of.
    pub closed spec fn machine(&self) -> R {
        self.files
    }

    /// How many vectored writes each sink took.
    pub closed spec fn counts(&self) -> Map<Option<Seq<char>>, nat> {
        self.counts@
    }

    /// How each file was opened, each time that it was.
    pub closed spec fn flags(&self) -> Map<Option<Seq<char>>, Seq<bool>> {
        self.flags@
    }

    /// How often each sink was flushed.
    pub closed spec fn flush_counts(&self) -> Map<Option<Seq<char>>, nat> {
        self.flushed@
    }

    /// The message of the last failure of each sink that has failed.
    pub closed spec fn faults(&self) -> Map<Option<Seq<char>>, Seq<char>> {
        self.faults@
    }

    /// The files `files`, with nothing written yet.
    pub fn new(files: R) -> (r: Journal<R>)
        ensures
            r.machine() == files,
            forall|s: Option<Seq<char>>| (#[trigger] r.holds(s)).len() == 0,
            forall|s: Option<Seq<char>>| #[trigger] r.issued(s) == 0,
            forall|s: Option<Seq<char>>| (#[trigger] r.opens(s)).len() == 0,
            forall|s: Option<Seq<char>>| #[trigger] r.flushes(s) == 0,
            forall|s: Option<Seq<char>>| (#[trigger] r.fault(s)) is None,
    {
        Journal {
            files,
            written: Ghost(Map::empty()),
            counts: Ghost(Map::empty()),
            flags: Ghost(Map::empty()),
            flushed: Ghost(Map::empty()),
            faults: Ghost(Map::empty()),
        }
    }

    /// What opening the file at `path` comes to once the machine has
    /// answered `opened`. A file that was opened is recorded under `path`,
    /// holding what it held where `append` is set and nothing where it is
    /// not; a failure is handed on and kept as the fault of the file.
    pub fn opened(&mut self, path: &str, append: bool, opened: Result<R::File, CompileError>) -> (r:
        Result<Entry<R::File>, CompileError>)
        ensures
            final(self).machine() == old(self).machine(),
            final(self).counts() == old(self).counts(),
            final(self).flush_counts() == old(self).flush_counts(),
            match opened {
                Ok(file) => {
                    &&& r matches Ok(out) && out.handle() == file && Self::sink(&out) == Some(path@)
                    &&& final(self).written() == old(self).written().insert(
                        Some(path@),
                        if append {
                            old(self).holds(Some(path@))
                        } else {
                            Seq::empty()
                        },
                    )
                    &&& final(self).flags() == old(self).flags().insert(
                        Some(path@),
                        old(self).opens(Some(path@)).push(append),
                    )
                    &&& final(self).faults() == old(self).faults()
                },
                Err(e) => {
                    &&& r matches Err(f) && f == e
                    &&& final(self).written() == old(self).written()
                    &&& final(self).flags() == old(self).flags()
                    &&& final(self).faults() == old(self).faults().insert(Some(path@), e.message())
                },
            },
    {
        proof {
            if opened is Err {
                self.faults = Ghost(self.faults@.insert(Some(path@), opened->Err_0.message()));
            }
        }
        match opened {
            Ok(file) => {
                proof {
                    let kept = if append {
                        self.holds(Some(path@))
                    } else {
                        Seq::empty()
                    };
                    let opens = self.opens(Some(path@)).push(append);
                    self.written = Ghost(self.written@.insert(Some(path@), kept));
                    self.flags = Ghost(self.flags@.insert(Some(path@), opens));
                }
                Ok(Entry { file, sink: Ghost(Some(path@)) })
            },
            Err(e) => Err(e),
        }
    }

    /// What a vectored write of `bufs` to `out` comes to once the machine
    /// has answered `wrote`. A write that was made is recorded: the sink of
    /// `out` holds the buffers' bytes, in their order, after what it held,
    /// and has taken one write more. A failure is handed on and kept as
    /// the fault of the sink.
    pub fn wrote(
        &mut self,
        out: &Entry<R::File>,
        bufs: &Vec<Vec<u8>>,
        wrote: Result<(), CompileError>,
    ) -> (r: Result<(), CompileError>)
        ensures
            r == wrote,
            final(self).machine() == old(self).machine(),
            final(self).flags() == old(self).flags(),
            final(self).flush_counts() == old(self).flush_counts(),
            match wrote {
                Ok(_) => {
                    &&& final(self).written() == old(self).written().insert(
                        Self::sink(out),
                        old(self).holds(Self::sink(out)) + concat(views(bufs@)),
                    )
                    &&& final(self).counts() == old(self).counts().insert(
                        Self::sink(out),
                        old(self).issued(Self::sink(out)) + 1,
                    )
                    &&& final(self).faults() == old(self).faults()
                },
                Err(e) => {
                    &&& final(self).written() == old(self).written()
                    &&& final(self).counts() == old(self).counts()
                    &&& final(self).faults() == old(self).faults().insert(
                        Self::sink(out),
                        e.message(),
                    )
                },
            },
    {
        proof {
            if wrote is Ok {
                let held = self.holds(out.sink@);
                let count = self.issued(out.sink@);
                self.written = Ghost(self.written@.insert(out.sink@, held + concat(views(bufs@))));
                self.counts = Ghost(self.counts@.insert(out.sink@, count + 1));
            } else {
                self.faults = Ghost(self.faults@.insert(out.sink@, wrote->Err_0.message()));
            }
        }
        wrote
    }

    /// What a flush of `out` comes to once the machine has answered
    /// `flushed`. A flush that was made is counted; a failure is handed on
    /// and kept as the fault of the sink. Nothing else changes.
    pub fn flushed(&mut self, out: &Entry<R::File>, flushed: Result<(), CompileError>) -> (r:
        Result<(), CompileError>)
        ensures
            r == flushed,
            final(self).machine() == old(self).machine(),
            final(self).written() == old(self).written(),
            final(self).counts() == old(self).counts(),
            final(self).flags() == old(self).flags(),
            match flushed {
                Ok(_) => {
                    &&& final(self).flush_counts() == old(self).flush_counts().insert(
                        Self::sink(out),
                        old(self).flushes(Self::sink(out)) + 1,
                    )
                    &&& final(self).faults() == old(self).faults()
                },
                Err(e) => {
                    &&& final(self).flush_counts() == old(self).flush_counts()
                    &&& final(self).faults() == old(self).faults().insert(
                        Self::sink(out),
                        e.message(),
                    )
                },
            },
    {
        proof {
            if flushed is Ok {
                let count = self.flushes(out.sink@);
                self.flushed = Ghost(self.flushed@.insert(out.sink@, count + 1));
            } else {
                self.faults = Ghost(self.faults@.insert(out.sink@, flushed->Err_0.message()));
            }
        }
        flushed
    }
}

impl<R: Files> FileFactory for Journal<R> {
    type Output = Entry<R::File>;

    closed spec fn holds(&self, sink: Option<Seq<char>>) -> Seq<u8> {
        if self.written@.contains_key(sink) {
            self.written@[sink]
        } else {
            Seq::empty()
        }
    }

    closed spec fn sink(out: &Entry<R::File>) -> Option<Seq<char>> {
        out.sink@
    }

    closed spec fn issued(&self, sink: Option<Seq<char>>) -> nat {
        if self.counts@.contains_key(sink) {
            self.counts@[sink]
        } else {
            0
        }
    }

    closed spec fn opens(&self, sink: Option<Seq<char>>) -> Seq<bool> {
        if self.flags@.contains_key(sink) {
            self.flags@[sink]
        } else {
            Seq::empty()
        }
    }

    closed spec fn flushes(&self, sink: Option<Seq<char>>) -> nat {
        if self.flushed@.contains_key(sink) {
            self.flushed@[sink]
        } else {
            0
        }
    }

    closed spec fn fault(&self, sink: Option<Seq<char>>) -> Option<Seq<char>> {
        if self.faults@.contains_key(sink) {
            Some(self.faults@[sink])
        } else {
            None
        }
    }

    /// Opens the file at `path` and records it where it was opened; whether
    /// it is opened is for the files to say.
    fn build(&mut self, path: &str, append: bool) -> (r: Result<Entry<R::File>, CompileError>) {
        let opened = self.files.open(path, append);
        self.opened(path, append, opened)
    }

    fn stdout(&mut self) -> (out: Entry<R::File>) {
        Entry { file: self.files.stdout(), sink: Ghost(None) }
    }

    /// Writes `bufs` to the file of `out` and records the write where it
    /// was made; whether it is made is for the files to say.
    fn write_all_vectored(&mut self, out: &mut Entry<R::File>, bufs: &Vec<Vec<u8>>) -> (r: Result<
        (),
        CompileError,
    >) {
        let wrote = self.files.write_all_vectored(&mut out.file, bufs);
        self.wrote(out, bufs, wrote)
    }

    /// Flushes the file of `out` and counts the flush where it was made;
    /// whether it is made is for the files to say.
    fn flush(&mut self, out: &mut Entry<R::File>) -> (r: Result<(), CompileError>) {
        let flushed = self.files.flush(&mut out.file);
        self.flushed(out, flushed)
    }
}

/// What is reported for the name of a file that is not UTF-8.
pub const INVALID_NAME: &'static str = "invalid UTF8 in filename";

/// The name of the file that the bytes `path` name: they must be UTF-8.
pub fn file_name(path: Vec<u8>) -> (r: Result<String, CompileError>)
    ensures
        match r {
            Ok(name) => valid_utf8(path@) && name@ == decode_utf8(path@),
            Err(e) => !valid_utf8(path@) && e.message() == INVALID_NAME@,
        },
{
    match string_from_utf8(path) {
        Some(name) => Ok(name),
        None => Err(CompileError(INVALID_NAME.to_string())),
    }
}

/// The index of the last of `results` that is an error.
pub open spec fn last_failure(results: Seq<Result<(), CompileError>>) -> Option<int>
    decreases results.len(),
{
    if results.len() == 0 {
        None
    } else if results.last() is Err {
        Some(results.len() - 1)
    } else {
        last_failure(results.drop_last())
    }
}

/// What flushing all files of a thread comes to, where flushing each of
/// them has given `results`: the last error, if there is one.
pub fn last_error(results: Vec<Result<(), CompileError>>) -> (r: Result<(), CompileError>)
    ensures
        match last_failure(results@) {
            Some(i) => r == results@[i],
            None => r is Ok,
        },
{
    let ghost all = results@;
    let mut rest = results;
    proof {
        assert(rest@ =~= all.take(rest@.len() as int));
    }
    loop
        invariant
            all == results@,
            rest@.len() <= all.len(),
            rest@ == all.take(rest@.len() as int),
            last_failure(all) == last_failure(rest@),
        decreases rest@.len(),
    {
        let ghost before = rest@;
        match rest.pop() {
            None => {
                return Ok(());
            },
            Some(res) => {
                proof {
                    assert(before.drop_last() =~= rest@);
                    assert(before.last() == res);
                    assert(rest@ =~= all.take(rest@.len() as int));
                }
                if res.is_err() {
                    proof {
                        assert(all[before.len() - 1] == res);
                    }
                    return res;
                }
            },
        }
    }
}

} // verus!
