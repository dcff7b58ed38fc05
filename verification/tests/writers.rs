use frawk::runtime::writers::testing::{FakeFile, FakeFs};
use frawk::runtime::writers::{
    file_name, last_error, CompileError, ErrorCode, FileFactory, FileHandle, Files, Journal, Owner, Request,
    RequestStatus, WriteBatch, WriteGuard, BUFFER_SIZE, IO_CHAN_SIZE, MAX_BATCH_BYTES,
    MAX_BATCH_SIZE,
};
use std::collections::VecDeque;

/// One client of one sink, with the owner of the sink at the other end.
struct Pipe {
    handle: FileHandle,
    owner: Owner<FakeFs>,
}

impl Pipe {
    fn new(path: Option<&str>) -> Pipe {
        Pipe {
            handle: FileHandle::new(),
            owner: Owner::new(path.map(String::from)),
        }
    }

    fn slot(&self) -> Option<String> {
        self.owner.error()
    }

    /// Hands `reqs` to the owner and brings the answers back.
    fn send(&mut self, fs: &mut FakeFs, reqs: Vec<Request>) -> Vec<RequestStatus> {
        let writes = reqs
            .iter()
            .filter(|r| matches!(r, Request::Write { .. }))
            .count();
        let mut queue: VecDeque<Request> = reqs.into();
        let replies = self.owner.receive_thread(&mut queue, fs);
        assert!(queue.is_empty());
        let mut seen = 0;
        for r in replies.iter() {
            if seen < writes {
                self.handle.acknowledge(*r);
                seen += 1;
            }
        }
        replies
    }

    fn write(&mut self, fs: &mut FakeFs, bs: &[u8], append: bool) -> Result<(), CompileError> {
        let slot = self.slot();
        if let Some(req) = self.handle.write(bs, append, &slot)? {
            self.send(fs, vec![req]);
        }
        Ok(())
    }

    fn flush(&mut self, fs: &mut FakeFs) -> Result<(), CompileError> {
        let slot = self.slot();
        let (w, f) = self.handle.flush(&slot)?;
        let mut reqs = Vec::new();
        reqs.extend(w);
        reqs.push(f);
        let replies = self.send(fs, reqs);
        let slot = self.slot();
        self.handle.flushed(*replies.last().unwrap(), &slot)
    }

    fn close(&mut self, fs: &mut FakeFs) -> Result<(), CompileError> {
        let slot = self.slot();
        let (w, c) = self.handle.close(&slot)?;
        let mut reqs = Vec::new();
        reqs.extend(w);
        reqs.push(c);
        self.send(fs, reqs);
        Ok(())
    }
}

#[test]
fn basic_writing() {
    let s1 = "hello".as_bytes();
    let s2 = " there".as_bytes();
    let mut fs = FakeFs::new();
    let mut pipe = Pipe::new(/*stdout*/ None);
    {
        pipe.write(&mut fs, s1, /*append=*/ true).unwrap();
        pipe.write(&mut fs, s2, /*append=*/ true).unwrap();
        pipe.flush(&mut fs).unwrap();
        pipe.write(&mut fs, s1, /*append=*/ true).unwrap();
        pipe.write(&mut fs, s2, /*append=*/ true).unwrap();
        pipe.flush(&mut fs).unwrap();
    }
    let data = fs.stdout.read_data();
    assert_eq!(&data[..], "hello therehello there".as_bytes());
}

#[test]
fn reopen_named_file() {
    let fname_str = "/fake";
    let s1 = "hello".as_bytes();
    let s2 = " there".as_bytes();
    let mut fs = FakeFs::new();
    let mut pipe = Pipe::new(Some(fname_str));
    {
        pipe.write(&mut fs, s1, /*append=*/ true).unwrap();
        pipe.write(&mut fs, s2, /*append=*/ true).unwrap();
        pipe.flush(&mut fs).unwrap();
        pipe.write(&mut fs, s1, /*append=*/ true).unwrap();
        pipe.write(&mut fs, s2, /*append=*/ true).unwrap();
    }
    {
        pipe.close(&mut fs).unwrap();
        pipe.write(&mut fs, s1, /*append=*/ false).unwrap();
        pipe.write(&mut fs, s2, /*append=*/ false).unwrap();
        pipe.flush(&mut fs).unwrap();
    }
    let data = fs.get_handle(fname_str).unwrap().read_data();
    assert_eq!(&data[..], "hello there".as_bytes());
}

#[test]
fn interleaved_clients_write_everything() {
    const N_CLIENTS: usize = 100;
    const WRITES_PER_CLIENT: usize = 1000;
    let mut fs = FakeFs::new();
    fs.build("/fake/BAD", false).unwrap();
    assert!(fs.set_poison("/fake/BAD", true));
    assert!(!fs.set_poison("/fake/NONE", true));
    let mut owner_bad: Owner<FakeFs> = Owner::new(Some("/fake/BAD".to_string()));
    let mut clients_bad: Vec<FileHandle> = (0..N_CLIENTS).map(|_| FileHandle::new()).collect();
    let mut owner_a: Owner<FakeFs> = Owner::new(Some("/fake/A".to_string()));
    let mut owner_b: Owner<FakeFs> = Owner::new(Some("/fake/B".to_string()));
    let mut clients_a: Vec<FileHandle> = (0..N_CLIENTS).map(|_| FileHandle::new()).collect();
    let mut clients_b: Vec<FileHandle> = (0..N_CLIENTS).map(|_| FileHandle::new()).collect();
    let pump = |owner: &mut Owner<FakeFs>,
                fs: &mut FakeFs,
                handle: &mut FileHandle,
                reqs: Vec<Request>|
     -> RequestStatus {
        let writes = reqs
            .iter()
            .filter(|r| matches!(r, Request::Write { .. }))
            .count();
        let mut queue: VecDeque<Request> = reqs.into();
        let replies = owner.receive_thread(&mut queue, fs);
        for r in replies.iter().take(writes) {
            handle.acknowledge(*r);
        }
        *replies.last().unwrap()
    };
    for i in 0..WRITES_PER_CLIENT {
        for t in 0..N_CLIENTS {
            {
                let h1 = &mut clients_a[t];
                if let Some(req) = h1.write(b"A", true, &None).unwrap() {
                    pump(&mut owner_a, &mut fs, h1, vec![req]);
                }
                if (t + i) % 100 == 0 {
                    let (w, c) = h1.close(&None).unwrap();
                    let mut reqs: Vec<Request> = w.into_iter().collect();
                    reqs.push(c);
                    pump(&mut owner_a, &mut fs, h1, reqs);
                }
            }
            {
                let h2 = &mut clients_b[t];
                if let Some(req) = h2.write(b"B", false, &None).unwrap() {
                    pump(&mut owner_b, &mut fs, h2, vec![req]);
                }
                if (t + i) % 105 == 0 {
                    let (w, f) = h2.flush(&None).unwrap();
                    let mut reqs: Vec<Request> = w.into_iter().collect();
                    reqs.push(f);
                    let status = pump(&mut owner_b, &mut fs, h2, reqs);
                    h2.flushed(status, &None).unwrap();
                }
            }
            {
                let h3 = &mut clients_bad[t];
                let slot = owner_bad.error();
                // These won't all be errors.
                if let Ok(Some(req)) = h3.write(b"A", true, &slot) {
                    pump(&mut owner_bad, &mut fs, h3, vec![req]);
                }
                if (t + i) % 103 == 0 {
                    // But all of these will be.
                    let slot = owner_bad.error();
                    let flushed = match h3.flush(&slot) {
                        Err(e) => Err(e),
                        Ok((w, f)) => {
                            let mut reqs: Vec<Request> = w.into_iter().collect();
                            reqs.push(f);
                            let status = pump(&mut owner_bad, &mut fs, h3, reqs);
                            let slot = owner_bad.error();
                            h3.flushed(status, &slot)
                        }
                    };
                    assert_eq!(flushed.unwrap_err().0, "poisoned fake file!");
                }
            }
        }
    }
    for t in 0..N_CLIENTS {
        let (w, f) = clients_a[t].flush(&None).unwrap();
        let mut reqs: Vec<Request> = w.into_iter().collect();
        reqs.push(f);
        let status = pump(&mut owner_a, &mut fs, &mut clients_a[t], reqs);
        clients_a[t].flushed(status, &None).unwrap();
        let (w, f) = clients_b[t].flush(&None).unwrap();
        let mut reqs: Vec<Request> = w.into_iter().collect();
        reqs.push(f);
        let status = pump(&mut owner_b, &mut fs, &mut clients_b[t], reqs);
        clients_b[t].flushed(status, &None).unwrap();
    }
    let expected_a = vec![b'A'; N_CLIENTS * WRITES_PER_CLIENT];
    let expected_b = vec![b'B'; N_CLIENTS * WRITES_PER_CLIENT];
    assert_eq!(fs.get_handle("/fake/A").unwrap().read_data(), expected_a);
    assert_eq!(fs.get_handle("/fake/B").unwrap().read_data(), expected_b);
    assert_eq!(fs.get_handle("/fake/BAD").unwrap().read_data(), Vec::<u8>::new());
}

#[test]
fn poisoned_file_fails_every_flush_with_one_message() {
    let mut fs = FakeFs::new();
    fs.build("/fake/BAD", false).unwrap();
    let mut poisoned = FakeFile::new();
    poisoned.set_poison(true);
    assert!(poisoned.write(b"x").is_err());
    // Poison the file inside the file system through a first failing owner.
    let mut pipe = Pipe::new(None);
    fs.stdout.set_poison(true);
    pipe.write(&mut fs, b"A", true).unwrap();
    let first = pipe.flush(&mut fs).unwrap_err();
    assert_eq!(first.0, "poisoned fake file!");
    fs.stdout.set_poison(false);
    for _ in 0..5 {
        pipe.write(&mut fs, b"A", true).unwrap();
        let again = pipe.flush(&mut fs).unwrap_err();
        assert_eq!(again.0, first.0);
    }
    assert_eq!(fs.stdout.read_data(), Vec::<u8>::new());
}

#[test]
fn fake_file_basics() {
    let mut f = FakeFile::new();
    assert_eq!(f.write(b"abc").unwrap(), 3);
    assert_eq!(f.vectored_writes(), 0);
    assert_eq!(f.write_vectored(&vec![b"de".to_vec(), vec![], b"f".to_vec()]).unwrap(), 3);
    assert_eq!(f.read_data(), b"abcdef".to_vec());
    assert_eq!(f.vectored_writes(), 1);
    assert_eq!(f.copy().read_data(), b"abcdef".to_vec());
    f.reopen(true);
    assert_eq!(f.read_data(), b"abcdef".to_vec());
    f.set_poison(true);
    assert_eq!(f.write(b"x").unwrap_err().0, "poisoned fake file!");
    assert_eq!(f.write_vectored(&vec![b"x".to_vec()]).unwrap_err().0, "poisoned fake file!");
    assert!(f.flush().is_err());
    assert!(f.result().is_err());
    assert_eq!(f.read_data(), b"abcdef".to_vec());
    f.set_poison(false);
    assert!(f.flush().is_ok());
    f.reopen(false);
    assert_eq!(f.read_data(), Vec::<u8>::new());
    f.write(b"xy").unwrap();
    f.clear();
    assert_eq!(f.read_data(), Vec::<u8>::new());
}

#[test]
fn fake_fs_files() {
    let mut fs = FakeFs::new();
    assert!(fs.get_handle("/a").is_none());
    let mut a = fs.build("/a", false).unwrap();
    fs.write_all_vectored(&mut a, &vec![b"one".to_vec(), b"two".to_vec()]).unwrap();
    let mut b = fs.build("/b", true).unwrap();
    fs.write_all_vectored(&mut b, &vec![b"bee".to_vec()]).unwrap();
    assert_eq!(fs.get_handle("/a").unwrap().read_data(), b"onetwo".to_vec());
    assert_eq!(fs.get_handle("/b").unwrap().read_data(), b"bee".to_vec());
    let mut a2 = fs.build("/a", true).unwrap();
    fs.write_all_vectored(&mut a2, &vec![b"!".to_vec()]).unwrap();
    assert_eq!(fs.get_handle("/a").unwrap().read_data(), b"onetwo!".to_vec());
    let mut a3 = fs.build("/a", false).unwrap();
    assert_eq!(fs.get_handle("/a").unwrap().read_data(), Vec::<u8>::new());
    fs.flush(&mut a3).unwrap();
    let mut out = fs.stdout();
    fs.write_all_vectored(&mut out, &vec![b"hi".to_vec()]).unwrap();
    assert_eq!(fs.stdout.read_data(), b"hi".to_vec());
    assert_eq!(fs.get_handle("/b").unwrap().read_data(), b"bee".to_vec());
}

#[test]
fn error_code_states() {
    let mut c = ErrorCode::new();
    assert_eq!(c.read(), RequestStatus::ONGOING);
    c.set_ok();
    assert_eq!(c.read(), RequestStatus::OK);
    c.set_error();
    assert_eq!(c.read(), RequestStatus::ERROR);
}

#[test]
fn write_guard_life() {
    let mut g = WriteGuard::new();
    assert_eq!(g.status(), RequestStatus::ONGOING);
    g.extend(b"ab", true);
    g.extend(b"c", false);
    match g.request() {
        Request::Write { data, append } => {
            assert_eq!(data, b"abc".to_vec());
            assert!(!append);
        }
        _ => panic!("expected a write"),
    }
    g.answer(RequestStatus::OK);
    assert_eq!(g.status(), RequestStatus::OK);
    g.activate();
    assert_eq!(g.status(), RequestStatus::ONGOING);
    match g.request() {
        Request::Write { data, append } => {
            assert!(data.is_empty());
            assert!(!append);
        }
        _ => panic!("expected a write"),
    }
}

#[test]
fn request_sizes() {
    assert_eq!(Request::Write { data: vec![1, 2, 3], append: false }.size(), 3);
    assert_eq!(Request::flush().size(), 0);
    assert_eq!(Request::Close.size(), 0);
    assert!(matches!(Request::flush(), Request::Flush));
}

#[test]
fn batch_flags_and_answers() {
    let mut batch = WriteBatch::new();
    assert_eq!(batch.n_writes(), 0);
    assert!(!batch.is_append());
    assert!(!batch.push(Request::Write { data: b"a".to_vec(), append: true }));
    assert!(!batch.push(Request::Write { data: b"b".to_vec(), append: false }));
    assert!(batch.is_append());
    assert_eq!(batch.n_writes(), 2);
    assert!(batch.push(Request::Flush));
    assert_eq!(batch.clear_error(), vec![RequestStatus::ERROR; 3]);
    assert_eq!(batch.n_writes(), 0);
    assert!(batch.push(Request::Close));
    assert_eq!(batch.clear(), vec![RequestStatus::OK]);
    assert!(!batch.push(Request::Write { data: b"c".to_vec(), append: false }));
    assert!(!batch.is_append());
}

#[test]
fn batch_issue_writes_in_one_go() {
    let mut fs = FakeFs::new();
    let mut out = fs.build("/f", false).unwrap();
    let mut batch = WriteBatch::new();
    batch.push(Request::Write { data: b"ab".to_vec(), append: true });
    batch.push(Request::Write { data: b"cd".to_vec(), append: true });
    batch.push(Request::Close);
    let (close, replies) = batch.issue(&mut fs, &mut out).unwrap();
    assert!(close);
    assert_eq!(replies, vec![RequestStatus::OK; 3]);
    assert_eq!(batch.n_writes(), 0);
    assert_eq!(fs.get_handle("/f").unwrap().read_data(), b"abcd".to_vec());
}

#[test]
fn owner_truncates_on_reopen_without_append() {
    let mut fs = FakeFs::new();
    let mut owner: Owner<FakeFs> = Owner::new(Some("/f".to_string()));
    let mut queue: VecDeque<Request> = vec![
        Request::Write { data: b"old".to_vec(), append: true },
        Request::Close,
        Request::Write { data: b"new".to_vec(), append: false },
        Request::Write { data: b"er".to_vec(), append: true },
        Request::Flush,
    ]
    .into();
    let replies = owner.receive_thread(&mut queue, &mut fs);
    assert_eq!(replies, vec![RequestStatus::OK; 5]);
    assert!(owner.error().is_none());
    assert_eq!(fs.get_handle("/f").unwrap().read_data(), b"newer".to_vec());
    let mut queue: VecDeque<Request> = vec![
        Request::Close,
        Request::Flush,
        Request::Write { data: b"+".to_vec(), append: true },
    ]
    .into();
    assert_eq!(owner.receive_thread(&mut queue, &mut fs), vec![RequestStatus::OK; 3]);
    assert_eq!(fs.get_handle("/f").unwrap().read_data(), b"newer+".to_vec());
}

#[test]
fn owner_never_truncates_stdout() {
    let mut fs = FakeFs::new();
    let mut owner: Owner<FakeFs> = Owner::new(None);
    let mut queue: VecDeque<Request> = vec![
        Request::Write { data: b"a".to_vec(), append: false },
        Request::Close,
        Request::Write { data: b"b".to_vec(), append: false },
    ]
    .into();
    assert_eq!(owner.receive_thread(&mut queue, &mut fs), vec![RequestStatus::OK; 3]);
    assert_eq!(fs.stdout.read_data(), b"ab".to_vec());
}

#[test]
fn owner_latches_the_first_error() {
    let mut fs = FakeFs::new();
    let mut owner: Owner<FakeFs> = Owner::new(None);
    let mut queue: VecDeque<Request> =
        vec![Request::Write { data: b"a".to_vec(), append: true }, Request::Flush].into();
    assert_eq!(owner.receive_thread(&mut queue, &mut fs), vec![RequestStatus::OK; 2]);
    fs.stdout.set_poison(true);
    let mut queue: VecDeque<Request> = vec![
        Request::Write { data: b"b".to_vec(), append: true },
        Request::Flush,
        Request::Write { data: b"c".to_vec(), append: true },
    ]
    .into();
    assert_eq!(owner.receive_thread(&mut queue, &mut fs), vec![RequestStatus::ERROR; 3]);
    assert_eq!(owner.error().unwrap(), "poisoned fake file!");
    fs.stdout.set_poison(false);
    let mut queue: VecDeque<Request> =
        vec![Request::Write { data: b"d".to_vec(), append: true }, Request::Flush].into();
    assert_eq!(owner.receive_thread(&mut queue, &mut fs), vec![RequestStatus::ERROR; 2]);
    assert_eq!(owner.error().unwrap(), "poisoned fake file!");
    assert_eq!(fs.stdout.read_data(), b"a".to_vec());
}

#[test]
fn client_seals_at_the_threshold() {
    let mut h = FileHandle::new();
    let chunk = vec![7u8; BUFFER_SIZE / 2];
    assert!(h.write(&chunk, true, &None).unwrap().is_none());
    assert!(h.write(&chunk, true, &None).unwrap().is_none());
    match h.write(b"x", false, &None).unwrap() {
        Some(Request::Write { data, append }) => {
            assert_eq!(data.len(), BUFFER_SIZE);
            assert!(append);
        }
        _ => panic!("expected the sealed batch"),
    }
    match h.flush(&None).unwrap() {
        (Some(Request::Write { data, append }), Request::Flush) => {
            assert_eq!(data, b"x".to_vec());
            assert!(!append);
        }
        _ => panic!("expected a write and a flush"),
    }
    assert!(matches!(h.flush(&None).unwrap(), (None, Request::Flush)));
    assert!(matches!(h.close(&None).unwrap(), (None, Request::Close)));
}

#[test]
fn client_reports_the_owners_error() {
    let mut h = FileHandle::new();
    h.write(b"a", true, &None).unwrap();
    let (w, _) = h.flush(&None).unwrap();
    assert!(w.is_some());
    h.acknowledge(RequestStatus::ERROR);
    h.write(b"b", true, &None).unwrap();
    let slot = Some("disk full".to_string());
    assert_eq!(h.flush(&slot).unwrap_err().0, "disk full");
    assert_eq!(
        h.flush(&None).unwrap_err().0,
        "internal error: (writer?) thread did not shut down cleanly"
    );
    assert_eq!(h.flushed(RequestStatus::ERROR, &slot).unwrap_err().0, "disk full");
    assert!(h.flushed(RequestStatus::OK, &slot).is_ok());
    assert!(matches!(h.flush(&slot).unwrap(), (Some(_), Request::Flush)));
    assert_eq!(FileHandle::read_error(&slot).0, "disk full");
    assert!(IO_CHAN_SIZE == 16);
}

/// Files that are kept in vectors, by the order in which they were opened.
struct Plain {
    files: Vec<(String, Vec<u8>)>,
    out: Vec<u8>,
    fail: bool,
}

impl Files for Plain {
    type File = Option<usize>;

    fn open(&mut self, path: &str, append: bool) -> Result<Option<usize>, CompileError> {
        let at = match self.files.iter().position(|f| f.0 == path) {
            Some(at) => at,
            None => {
                self.files.push((path.to_string(), Vec::new()));
                self.files.len() - 1
            }
        };
        if !append {
            self.files[at].1.clear();
        }
        Ok(Some(at))
    }

    fn stdout(&mut self) -> Option<usize> {
        None
    }

    fn write_all_vectored(
        &mut self,
        file: &mut Option<usize>,
        bufs: &Vec<Vec<u8>>,
    ) -> Result<(), CompileError> {
        if self.fail {
            return Err(CompileError("disk full".to_string()));
        }
        for b in bufs {
            match file {
                Some(at) => self.files[*at].1.extend_from_slice(b),
                None => self.out.extend_from_slice(b),
            }
        }
        Ok(())
    }

    fn flush(&mut self, _file: &mut Option<usize>) -> Result<(), CompileError> {
        Ok(())
    }
}

#[test]
fn owner_writes_through_plain_files() {
    let mut fs = Journal::new(Plain {
        files: vec![("/f".to_string(), b"stale".to_vec())],
        out: vec![],
        fail: false,
    });
    let mut owner = Owner::new(Some("/f".to_string()));
    let mut queue: VecDeque<Request> = vec![
        Request::Write { data: b"ab".to_vec(), append: false },
        Request::Write { data: b"cd".to_vec(), append: false },
        Request::Close,
        Request::Write { data: b"ef".to_vec(), append: true },
        Request::Flush,
    ]
    .into();
    assert_eq!(owner.receive_thread(&mut queue, &mut fs), vec![RequestStatus::OK; 5]);
    assert_eq!(fs.files.files[0].1, b"abcdef".to_vec());
    let mut out = Owner::new(None);
    let mut queue: VecDeque<Request> =
        vec![Request::Write { data: b"hi".to_vec(), append: false }].into();
    assert_eq!(out.receive_thread(&mut queue, &mut fs), vec![RequestStatus::OK]);
    assert_eq!(fs.files.out, b"hi".to_vec());
    fs.files.fail = true;
    let mut queue: VecDeque<Request> = vec![
        Request::Write { data: b"x".to_vec(), append: true },
        Request::Flush,
    ]
    .into();
    assert_eq!(owner.receive_thread(&mut queue, &mut fs), vec![RequestStatus::ERROR; 2]);
    assert_eq!(owner.error().unwrap(), "disk full");
    assert_eq!(fs.files.files[0].1, b"abcdef".to_vec());
}

#[test]
fn batches_end_at_their_limits() {
    // More writes than one batch takes, and more bytes than one batch takes:
    // everything is written, in order.
    let mut fs = FakeFs::new();
    let mut owner: Owner<FakeFs> = Owner::new(Some("/many".to_string()));
    let mut queue: VecDeque<Request> = VecDeque::new();
    let mut expected = Vec::new();
    for i in 0..(2 * MAX_BATCH_SIZE + 3) {
        let byte = (i % 251) as u8;
        queue.push_back(Request::Write { data: vec![byte], append: true });
        expected.push(byte);
    }
    let n = queue.len();
    assert_eq!(owner.receive_thread(&mut queue, &mut fs), vec![RequestStatus::OK; n]);
    assert_eq!(fs.get_handle("/many").unwrap().read_data(), expected);
    // Two full batches, and one with the rest.
    assert_eq!(fs.get_handle("/many").unwrap().vectored_writes(), 3);
    let mut owner: Owner<FakeFs> = Owner::new(Some("/big".to_string()));
    let chunk = vec![9u8; MAX_BATCH_BYTES / 2 + 1];
    let mut queue: VecDeque<Request> = (0..3)
        .map(|_| Request::Write { data: chunk.clone(), append: true })
        .collect();
    assert_eq!(owner.receive_thread(&mut queue, &mut fs), vec![RequestStatus::OK; 3]);
    assert_eq!(
        fs.get_handle("/big").unwrap().read_data().len(),
        3 * (MAX_BATCH_BYTES / 2 + 1)
    );
    // The second write fills the first batch.
    assert_eq!(fs.get_handle("/big").unwrap().vectored_writes(), 2);
}

#[test]
fn a_batch_takes_requests_until_it_is_full() {
    let write = |n: usize| Request::Write { data: vec![0; n], append: true };
    let mut batch = WriteBatch::new();
    let mut queue: VecDeque<Request> = VecDeque::new();
    batch.fill(&mut queue);
    assert!(batch.clear().is_empty());
    // A flush ends a batch, and is a batch of its own after one.
    let mut queue: VecDeque<Request> =
        vec![write(1), write(2), Request::Flush, Request::Flush, write(3), Request::Close, write(4)]
            .into();
    batch.fill(&mut queue);
    assert_eq!(batch.n_writes(), 2);
    assert_eq!(batch.clear().len(), 3);
    batch.fill(&mut queue);
    assert_eq!(batch.n_writes(), 0);
    assert_eq!(batch.clear().len(), 1);
    batch.fill(&mut queue);
    assert_eq!(batch.clear().len(), 2);
    batch.fill(&mut queue);
    assert_eq!(batch.clear().len(), 1);
    assert!(queue.is_empty());
    // The first request is taken whatever its size; the next fills the batch.
    let mut queue: VecDeque<Request> =
        vec![write(2 * MAX_BATCH_BYTES), write(0), write(1)].into();
    batch.fill(&mut queue);
    assert_eq!(batch.clear().len(), 2);
    assert_eq!(queue.len(), 1);
    // A batch with every flush and close: each is answered where the sink is closed.
    let mut fs = FakeFs::new();
    let mut owner: Owner<FakeFs> = Owner::new(Some("/none".to_string()));
    let mut queue: VecDeque<Request> = vec![Request::Flush, Request::Close, Request::Flush].into();
    assert_eq!(owner.receive_thread(&mut queue, &mut fs), vec![RequestStatus::OK; 3]);
    // Nothing was written, so the file was never made.
    assert!(fs.get_handle("/none").is_none());
}

#[test]
fn done_requests_are_retired() {
    let mut h = FileHandle::new();
    let chunk = vec![1u8; BUFFER_SIZE];
    // Each write seals the batch before it.
    for _ in 0..4 {
        h.write(&chunk, true, &None).unwrap();
    }
    assert_eq!(h.in_flight_count(), 3);
    // The first two are done: both leave, and the one under way is the head.
    h.acknowledge(RequestStatus::OK);
    h.acknowledge(RequestStatus::OK);
    assert!(h.clear_guards(&None).is_ok());
    assert_eq!(h.in_flight_count(), 1);
    assert!(h.write(&chunk, true, &None).unwrap().is_some());
    assert_eq!(h.in_flight_count(), 2);
    // A request that failed behind one that is done is reported.
    h.acknowledge(RequestStatus::OK);
    h.acknowledge(RequestStatus::ERROR);
    let slot = Some("late".to_string());
    assert_eq!(h.write(&chunk, true, &slot).unwrap_err().0, "late");
    assert!(h.clear_guards(&slot).is_err());
    assert_eq!(h.in_flight_count(), 2);
    // A single request that is done leaves the queue empty.
    let mut h = FileHandle::new();
    h.write(&chunk, true, &None).unwrap();
    h.write(&chunk, true, &None).unwrap();
    assert_eq!(h.in_flight_count(), 1);
    h.acknowledge(RequestStatus::OK);
    assert!(h.clear_guards(&None).is_ok());
    assert_eq!(h.in_flight_count(), 0);
}

#[test]
fn file_names_must_be_utf8() {
    assert_eq!(file_name(b"/tmp/out".to_vec()).unwrap(), "/tmp/out");
    assert_eq!(file_name("重庆".as_bytes().to_vec()).unwrap(), "重庆");
    assert_eq!(file_name(vec![]).unwrap(), "");
    assert_eq!(
        file_name(vec![b'a', 0xff, b'b']).unwrap_err().0,
        "invalid UTF8 in filename"
    );
    assert!(file_name(vec![0xe9, 0x87]).is_err());
}

#[test]
fn the_last_error_is_reported() {
    let err = |m: &str| Err(CompileError(m.to_string()));
    assert!(last_error(vec![]).is_ok());
    assert!(last_error(vec![Ok(()), Ok(())]).is_ok());
    assert_eq!(last_error(vec![err("a"), Ok(()), err("b"), Ok(())]).unwrap_err().0, "b");
    assert_eq!(last_error(vec![err("a"), Ok(())]).unwrap_err().0, "a");
}

#[test]
fn a_batch_settles_by_the_sinks_answer() {
    let mut batch = WriteBatch::new();
    batch.push(Request::Write { data: b"ab".to_vec(), append: true });
    batch.push(Request::Flush);
    // A failure is handed on, and the batch keeps its requests.
    let failed = batch.settle(Err(CompileError("disk full".to_string())));
    assert_eq!(failed.unwrap_err().0, "disk full");
    assert_eq!(batch.n_writes(), 1);
    // A success answers each request, and the batch is empty.
    let (close, replies) = batch.settle(Ok(())).unwrap();
    assert!(!close);
    assert_eq!(replies, vec![RequestStatus::OK; 2]);
    assert_eq!(batch.n_writes(), 0);
    batch.push(Request::Close);
    let (close, replies) = batch.settle(Ok(())).unwrap();
    assert!(close);
    assert_eq!(replies, vec![RequestStatus::OK]);
}

#[test]
fn a_failed_issue_keeps_the_batch() {
    let mut fs = FakeFs::new();
    let mut out = fs.build("/f", false).unwrap();
    fs.set_poison("/f", true);
    let mut batch = WriteBatch::new();
    batch.push(Request::Write { data: b"ab".to_vec(), append: true });
    batch.push(Request::Close);
    assert!(batch.issue(&mut fs, &mut out).is_err());
    assert_eq!(batch.n_writes(), 1);
    assert_eq!(batch.clear_error(), vec![RequestStatus::ERROR; 2]);
    assert_eq!(fs.get_handle("/f").unwrap().read_data(), Vec::<u8>::new());
}

#[test]
fn a_journal_hands_on_what_the_files_answer() {
    let mut fs = Journal::new(Plain { files: vec![], out: vec![], fail: false });
    // An opened file comes back as it was given; a failure comes back as it is.
    let entry = fs.opened("/f", false, Ok(Some(7))).unwrap();
    assert_eq!(entry.file, Some(7));
    let failed = fs.opened("/g", true, Err(CompileError("no such directory".to_string())));
    assert_eq!(failed.err().unwrap().0, "no such directory");
    let bufs = vec![b"ab".to_vec()];
    assert!(fs.wrote(&entry, &bufs, Ok(())).is_ok());
    let failed = fs.wrote(&entry, &bufs, Err(CompileError("disk full".to_string())));
    assert_eq!(failed.unwrap_err().0, "disk full");
    // Through the journal the files do the work.
    let mut entry = fs.build("/f", false).unwrap();
    assert_eq!(entry.file, Some(0));
    assert!(fs.write_all_vectored(&mut entry, &bufs).is_ok());
    assert!(fs.flush(&mut entry).is_ok());
    assert_eq!(fs.files.files[0], ("/f".to_string(), b"ab".to_vec()));
    fs.files.fail = true;
    assert_eq!(fs.write_all_vectored(&mut entry, &bufs).unwrap_err().0, "disk full");
    assert_eq!(fs.files.files[0].1, b"ab".to_vec());
}

#[test]
fn a_file_is_opened_once_for_each_time_it_was_closed() {
    let mut fs = FakeFs::new();
    let mut owner: Owner<FakeFs> = Owner::new(Some("/f".to_string()));
    let mut queue: VecDeque<Request> = vec![
        Request::Write { data: b"old".to_vec(), append: true },
        Request::Write { data: b"er".to_vec(), append: false },
        Request::Close,
        Request::Write { data: b"new".to_vec(), append: false },
        Request::Write { data: b"er".to_vec(), append: true },
        Request::Flush,
        Request::Write { data: b"!".to_vec(), append: false },
    ]
    .into();
    assert_eq!(owner.receive_thread(&mut queue, &mut fs), vec![RequestStatus::OK; 7]);
    // Opened as the first write asks, and again after the close; the writes
    // that find the file open do not open it, whatever they ask.
    assert_eq!(fs.get_handle("/f").unwrap().openings(), vec![true, false]);
    assert_eq!(fs.get_handle("/f").unwrap().read_data(), b"newer!".to_vec());
    let mut queue: VecDeque<Request> = vec![
        Request::Close,
        Request::Flush,
        Request::Close,
        Request::Write { data: b"+".to_vec(), append: true },
    ]
    .into();
    assert_eq!(owner.receive_thread(&mut queue, &mut fs), vec![RequestStatus::OK; 4]);
    assert_eq!(fs.get_handle("/f").unwrap().openings(), vec![true, false, true]);
    // Standard output is not opened by name.
    let mut out: Owner<FakeFs> = Owner::new(None);
    let mut queue: VecDeque<Request> =
        vec![Request::Write { data: b"hi".to_vec(), append: false }, Request::Close].into();
    assert_eq!(out.receive_thread(&mut queue, &mut fs), vec![RequestStatus::OK; 2]);
    assert_eq!(fs.stdout.openings(), Vec::<bool>::new());
    assert_eq!(fs.stdout.read_data(), b"hi".to_vec());
}

#[test]
fn clients_that_append_lose_no_byte() {
    // Three clients append four bytes each, in writes of different sizes
    // and with flushes between them; their requests are interleaved.
    let write = |n: usize| Request::Write { data: vec![b'A'; n], append: true };
    let mut fs = FakeFs::new();
    let mut owner: Owner<FakeFs> = Owner::new(Some("/f".to_string()));
    let mut queue: VecDeque<Request> = vec![
        write(1),
        write(4),
        write(2),
        Request::Flush,
        write(3),
        write(2),
        Request::Flush,
        Request::Flush,
    ]
    .into();
    assert_eq!(owner.receive_thread(&mut queue, &mut fs), vec![RequestStatus::OK; 8]);
    assert_eq!(fs.get_handle("/f").unwrap().read_data(), vec![b'A'; 12]);
}

#[test]
fn requests_without_a_write_do_not_reach_a_closed_sink() {
    // Files that fail every write: nothing is asked of them.
    let mut fs = Journal::new(Plain { files: vec![], out: vec![], fail: true });
    let mut owner = Owner::new(Some("/f".to_string()));
    let mut queue: VecDeque<Request> =
        vec![Request::Flush, Request::Close, Request::Close, Request::Flush].into();
    let mut replies = Vec::new();
    assert!(owner.receive_loop(&mut queue, &mut fs, &mut replies).is_ok());
    assert_eq!(replies, vec![RequestStatus::OK; 4]);
    assert!(queue.is_empty());
    assert!(fs.files.files.is_empty());
    let mut queue: VecDeque<Request> = vec![Request::Close, Request::Flush].into();
    assert_eq!(owner.receive_thread(&mut queue, &mut fs), vec![RequestStatus::OK; 2]);
    assert!(owner.error().is_none());
    // The first write reaches them, and fails.
    let mut queue: VecDeque<Request> =
        vec![Request::Flush, Request::Write { data: b"x".to_vec(), append: true }].into();
    assert_eq!(
        owner.receive_thread(&mut queue, &mut fs),
        vec![RequestStatus::OK, RequestStatus::ERROR]
    );
    assert_eq!(owner.error().unwrap(), "disk full");
}

#[test]
fn a_batch_with_a_flush_or_a_close_flushes_the_sink() {
    let mut fs = FakeFs::new();
    let mut out = fs.build("/f", false).unwrap();
    let mut batch = WriteBatch::new();
    batch.push(Request::Write { data: b"ab".to_vec(), append: true });
    // Writes alone do not flush.
    assert!(batch.issue(&mut fs, &mut out).is_ok());
    assert_eq!(fs.get_handle("/f").unwrap().flush_count(), 0);
    assert_eq!(fs.get_handle("/f").unwrap().vectored_writes(), 1);
    batch.push(Request::Write { data: b"cd".to_vec(), append: true });
    batch.push(Request::Flush);
    assert_eq!(batch.issue(&mut fs, &mut out).unwrap().0, false);
    assert_eq!(fs.get_handle("/f").unwrap().flush_count(), 1);
    batch.push(Request::Close);
    assert_eq!(batch.issue(&mut fs, &mut out).unwrap().0, true);
    assert_eq!(fs.get_handle("/f").unwrap().flush_count(), 2);
    assert_eq!(fs.get_handle("/f").unwrap().read_data(), b"abcd".to_vec());
    // A poisoned sink is not flushed, and its failure is handed on.
    fs.set_poison("/f", true);
    batch.push(Request::Flush);
    assert_eq!(batch.issue(&mut fs, &mut out).unwrap_err().0, "poisoned fake file!");
    assert_eq!(fs.get_handle("/f").unwrap().flush_count(), 2);
}

#[test]
fn the_owner_flushes_once_for_each_batch_that_asks() {
    let mut fs = FakeFs::new();
    let mut owner: Owner<FakeFs> = Owner::new(Some("/f".to_string()));
    let mut queue: VecDeque<Request> = vec![
        Request::Flush,
        Request::Write { data: b"a".to_vec(), append: true },
        Request::Write { data: b"b".to_vec(), append: true },
        Request::Flush,
        Request::Flush,
        Request::Write { data: b"c".to_vec(), append: true },
        Request::Close,
        Request::Flush,
        Request::Write { data: b"d".to_vec(), append: true },
    ]
    .into();
    assert_eq!(owner.receive_thread(&mut queue, &mut fs), vec![RequestStatus::OK; 9]);
    // The flush before the first write and the flush after the close find
    // the file closed; the others, and the close, flush it.
    assert_eq!(fs.get_handle("/f").unwrap().flush_count(), 3);
    assert_eq!(fs.get_handle("/f").unwrap().vectored_writes(), 4);
    assert_eq!(fs.get_handle("/f").unwrap().read_data(), b"abcd".to_vec());
    assert_eq!(fs.get_stdout().flush_count(), 0);
}

#[test]
fn the_owner_keeps_the_failure_of_its_sink() {
    let mut fs = FakeFs::new();
    let mut owner: Owner<FakeFs> = Owner::new(Some("/f".to_string()));
    let mut queue: VecDeque<Request> =
        vec![Request::Write { data: b"a".to_vec(), append: true }, Request::Flush].into();
    assert_eq!(owner.receive_thread(&mut queue, &mut fs), vec![RequestStatus::OK; 2]);
    fs.set_poison("/f", true);
    let mut queue: VecDeque<Request> = vec![
        Request::Write { data: b"b".to_vec(), append: true },
        Request::Flush,
        Request::Write { data: b"c".to_vec(), append: true },
    ]
    .into();
    assert_eq!(owner.receive_thread(&mut queue, &mut fs), vec![RequestStatus::ERROR; 3]);
    assert_eq!(owner.error().unwrap(), "poisoned fake file!");
    // The first failure stays, whatever comes later.
    fs.set_poison("/f", false);
    let mut queue: VecDeque<Request> =
        vec![Request::Write { data: b"d".to_vec(), append: true }].into();
    assert_eq!(owner.receive_thread(&mut queue, &mut fs), vec![RequestStatus::ERROR]);
    assert_eq!(owner.error().unwrap(), "poisoned fake file!");
    assert_eq!(fs.get_handle("/f").unwrap().read_data(), b"a".to_vec());
    assert_eq!(fs.get_handle("/f").unwrap().openings(), vec![true]);
    assert_eq!(fs.get_handle("/f").unwrap().flush_count(), 1);
}

#[test]
fn a_loop_is_concluded_by_its_outcome() {
    // A loop that served its queue leaves nothing to do.
    let mut owner: Owner<FakeFs> = Owner::new(None);
    let mut queue: VecDeque<Request> = VecDeque::new();
    let mut replies = vec![RequestStatus::OK];
    owner.conclude(Ok(()), &mut queue, &mut replies);
    assert!(owner.error().is_none());
    assert_eq!(replies, vec![RequestStatus::OK]);
    // A failure is kept, and what is left is answered with ERROR.
    let mut queue: VecDeque<Request> = vec![Request::Flush, Request::Close].into();
    owner.conclude(Err(CompileError("disk full".to_string())), &mut queue, &mut replies);
    assert_eq!(owner.error().unwrap(), "disk full");
    assert!(queue.is_empty());
    assert_eq!(
        replies,
        vec![RequestStatus::OK, RequestStatus::ERROR, RequestStatus::ERROR]
    );
    let mut queue: VecDeque<Request> = (0..3).map(|_| Request::Flush).collect();
    let mut replies = Vec::new();
    Owner::<FakeFs>::fail_all(&mut queue, &mut replies);
    assert!(queue.is_empty());
    assert_eq!(replies, vec![RequestStatus::ERROR; 3]);
}

#[test]
fn appending_clients_may_close_between_their_writes() {
    let write = |n: usize| Request::Write { data: vec![b'A'; n], append: true };
    let mut fs = FakeFs::new();
    let mut owner: Owner<FakeFs> = Owner::new(Some("/f".to_string()));
    let mut queue: VecDeque<Request> = vec![
        write(2),
        Request::Close,
        write(3),
        Request::Flush,
        Request::Close,
        Request::Close,
        write(1),
        write(4),
        Request::Flush,
    ]
    .into();
    assert_eq!(owner.receive_thread(&mut queue, &mut fs), vec![RequestStatus::OK; 9]);
    assert_eq!(fs.get_handle("/f").unwrap().read_data(), vec![b'A'; 10]);
    assert_eq!(fs.get_handle("/f").unwrap().openings(), vec![true; 3]);
}
