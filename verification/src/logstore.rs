//! The in-memory log store behind the dashboard's log page: recent lines sit in a
//! bounded buffer; when the buffer is full, the next line first moves the whole
//! buffer to the archive (and, where a log file is configured, to that file).

use std::collections::VecDeque;
use vstd::prelude::*;

verus! {

/// The abstract state of a [`LogStore`]: the archived lines, the buffered lines, the
/// buffer's capacity and the log file, if any.
pub ghost struct LogStoreView {
    pub archive: Seq<String>,
    pub buffer: Seq<String>,
    pub capacity: nat,
    pub log_path: Option<Seq<char>>,
}

impl LogStoreView {
    /// Every line in the order it was pushed: the archive, then the buffer.
    pub open spec fn all(self) -> Seq<String> {
        self.archive + self.buffer
    }

    /// The lines that a push moves out of the buffer: all of them when the buffer is full.
    pub open spec fn flushed_by_push(self) -> Seq<String> {
        if self.buffer.len() >= self.capacity {
            self.buffer
        } else {
            Seq::empty()
        }
    }

    /// The state after pushing `line`.
    pub open spec fn push(self, line: String) -> LogStoreView {
        if self.buffer.len() >= self.capacity {
            LogStoreView { archive: self.archive + self.buffer, buffer: seq![line], ..self }
        } else {
            LogStoreView { buffer: self.buffer.push(line), ..self }
        }
    }
}

/// A store of log lines with a bounded buffer of recent lines and an archive of older ones.
pub struct LogStore {
    buffer: VecDeque<String>,
    inner: Vec<String>,
    capacity: usize,
    log_path: Option<String>,
}

fn copy_lines(v: &Vec<String>) -> (r: Vec<String>)
    ensures
        r@ == v@,
{
    let mut r: Vec<String> = Vec::new();
    for i in 0..v.len()
        invariant
            r@ == v@.take(i as int),
    {
        r.push(v[i].clone());
        assert(v@.take(i + 1) == v@.take(i as int).push(v@[i as int]));
    }
    assert(v@.take(v.len() as int) == v@);
    r
}

fn copy_buffer(v: &VecDeque<String>) -> (r: Vec<String>)
    ensures
        r@ == v@,
{
    let mut r: Vec<String> = Vec::new();
    for i in 0..v.len()
        invariant
            r@ == v@.take(i as int),
    {
        r.push(v[i].clone());
        assert(v@.take(i + 1) == v@.take(i as int).push(v@[i as int]));
    }
    assert(v@.take(v.len() as int) == v@);
    r
}

impl View for LogStore {
    type V = LogStoreView;

    closed spec fn view(&self) -> LogStoreView {
        LogStoreView {
            archive: self.inner@,
            buffer: self.buffer@,
            capacity: self.capacity as nat,
            log_path: match &self.log_path {
                Some(p) => Some(p@),
                None => None,
            },
        }
    }
}

impl LogStore {
    /// An empty store whose buffer holds `capacity` lines.
    pub fn new(capacity: usize) -> (r: Self)
        ensures
            r@.archive == Seq::<String>::empty(),
            r@.buffer == Seq::<String>::empty(),
            r@.capacity == capacity,
            r.log_path_spec() is None,
    {
        LogStore { buffer: VecDeque::new(), inner: Vec::new(), capacity, log_path: None }
    }

    /// An empty store whose buffer holds `capacity` lines and whose flushed lines are
    /// meant for the file at `log_path`.
    pub fn with_log_path(capacity: usize, log_path: String) -> (r: Self)
        ensures
            r@.archive == Seq::<String>::empty(),
            r@.buffer == Seq::<String>::empty(),
            r@.capacity == capacity,
            r.log_path_spec() == Some(log_path@),
    {
        LogStore { buffer: VecDeque::new(), inner: Vec::new(), capacity, log_path: Some(log_path) }
    }

    /// The file that flushed lines are written to, if any.
    pub open spec fn log_path_spec(&self) -> Option<Seq<char>> {
        self@.log_path
    }

    /// The file that flushed lines are written to, if any.
    pub fn log_path(&self) -> (r: Option<String>)
        ensures
            r matches Some(p) ==> self.log_path_spec() == Some(p@),
            r is None ==> self.log_path_spec() is None,
    {
        match &self.log_path {
            Some(p) => Some(p.clone()),
            None => None,
        }
    }

    /// Appends `line`. When the buffer already holds `capacity` lines, they are first
    /// moved to the archive; those lines are returned, for the log file.
    pub fn push(&mut self, line: String) -> (flushed: Vec<String>)
        ensures
            final(self)@ == old(self)@.push(line),
            flushed@ == old(self)@.flushed_by_push(),
            final(self).log_path_spec() == old(self).log_path_spec(),
    {
        let mut flushed: Vec<String> = Vec::new();
        if self.buffer.len() >= self.capacity {
            flushed = copy_buffer(&self.buffer);
            let mut moved = copy_buffer(&self.buffer);
            self.inner.append(&mut moved);
            self.buffer = VecDeque::new();
        }
        self.buffer.push_back(line);
        proof {
            assert(self.buffer@ =~= old(self)@.push(line).buffer);
        }
        flushed
    }

    /// The last `n` buffered lines, newest first.
    pub fn buf_tail(&self, n: usize) -> (r: Vec<String>)
        ensures
            r@.len() == if n < self@.buffer.len() { n as nat } else { self@.buffer.len() },
            forall|i: int| 0 <= i < r@.len() ==> r@[i] == self@.buffer[self@.buffer.len() - 1 - i],
    {
        let len = self.buffer.len();
        let mut r: Vec<String> = Vec::new();
        let mut i: usize = 0;
        while i < n && i < len
            invariant
                len == self@.buffer.len(),
                i <= len,
                i <= n,
                r@.len() == i,
                forall|k: int| 0 <= k < i ==> r@[k] == self@.buffer[len - 1 - k],
            decreases len - i,
        {
            r.push(self.buffer[len - 1 - i].clone());
            i = i + 1;
        }
        r
    }

    /// Every buffered line, oldest first.
    pub fn buf_all(&self) -> (r: Vec<String>)
        ensures
            r@ == self@.buffer,
    {
        copy_buffer(&self.buffer)
    }

    /// Drops every buffered line; the archive is kept.
    pub fn buf_clear(&mut self)
        ensures
            final(self)@.buffer == Seq::<String>::empty(),
            final(self)@.archive == old(self)@.archive,
            final(self)@.capacity == old(self)@.capacity,
            final(self)@.log_path == old(self)@.log_path,
    {
        self.buffer = VecDeque::new();
    }

    /// The archived lines from position `len - n` up to position `len + 1`. That range
    /// always ends one past the archive, so no input satisfies the precondition.
    pub fn tail(&self, n: usize) -> (r: Vec<String>)
        requires
            n <= self@.archive.len(),
            self@.archive.len() + 1 <= self@.archive.len(),
        ensures
            r@ == self@.archive.subrange(self@.archive.len() - n, self@.archive.len() + 1int),
    {
        let len = self.inner.len();
        let mut r: Vec<String> = Vec::new();
        let mut k = len - n;
        while k < len
            invariant
                len == self@.archive.len(),
                n <= len,
                len - n <= k <= len,
                r@ == self@.archive.subrange(len - n, k as int),
            decreases len - k,
        {
            r.push(self.inner[k].clone());
            proof {
                assert(self@.archive.subrange(len - n, k + 1) == self@.archive.subrange(len - n, k as int).push(self@.archive[k as int]));
            }
            k = k + 1;
        }
        r
    }

    /// The archived lines, oldest first.
    pub fn get_inner(&self) -> (r: Vec<String>)
        ensures
            r@ == self@.archive,
    {
        copy_lines(&self.inner)
    }

    /// Every line, oldest first: the archive followed by the buffer.
    pub fn all(&self) -> (r: Vec<String>)
        ensures
            r@ == self@.all(),
    {
        let mut r = copy_lines(&self.inner);
        let mut b = copy_buffer(&self.buffer);
        r.append(&mut b);
        r
    }

    /// The number of lines held, archived and buffered.
    pub fn all_len(&self) -> (r: usize)
        requires
            self@.archive.len() + self@.buffer.len() <= usize::MAX,
        ensures
            r == self@.all().len(),
    {
        self.buffer.len() + self.inner.len()
    }

    /// The lines that go to the log file when the store is dropped: the buffer, unless
    /// it is full (a full buffer is written by the next push instead).
    pub fn lines_to_export_on_drop(&self) -> (r: Vec<String>)
        ensures
            r@ == if self@.buffer.len() < self@.capacity { self@.buffer } else { Seq::<String>::empty() },
    {
        if self.buffer.len() < self.capacity {
            copy_buffer(&self.buffer)
        } else {
            Vec::new()
        }
    }
}

/// Pushing a line keeps every earlier line and adds the new one at the end.
pub proof fn law_push_keeps_every_line(store: LogStoreView, line: String)
    ensures
        store.push(line).all() == store.all().push(line),
        store.push(line).archive == store.archive + store.flushed_by_push(),
{
    if store.buffer.len() >= store.capacity {
        assert(store.archive + store.buffer + seq![line] == (store.archive + store.buffer).push(line));
    } else {
        assert(store.archive + store.buffer.push(line) == (store.archive + store.buffer).push(line));
    }
    assert(store.archive + Seq::<String>::empty() == store.archive);
}

/// Every line held is an archived (flushed) line or a buffered one: the number of all
/// lines, which `all_len` gives, is the archived count plus the buffered count, and
/// `all` lists the archive followed by the buffer that `buf_all` gives.
pub proof fn law_all_counts_flushed_and_buffered(store: LogStoreView)
    ensures
        store.all().len() == store.archive.len() + store.buffer.len(),
        store.all().subrange(0, store.archive.len() as int) == store.archive,
        store.all().subrange(store.archive.len() as int, store.all().len() as int) == store.buffer,
{
    assert(store.all().subrange(0, store.archive.len() as int) =~= store.archive);
    assert(store.all().subrange(store.archive.len() as int, store.all().len() as int) =~= store.buffer);
}

/// The state after pushing `lines`, in order.
pub open spec fn push_all(store: LogStoreView, lines: Seq<String>) -> LogStoreView
    decreases lines.len(),
{
    if lines.len() == 0 {
        store
    } else {
        push_all(store.push(lines[0]), lines.drop_first())
    }
}

/// Reading every line after any number of pushes gives back the earlier lines followed
/// by the pushed ones, in the order they were pushed.
pub proof fn law_pushes_read_back_in_order(store: LogStoreView, lines: Seq<String>)
    ensures
        push_all(store, lines).all() == store.all() + lines,
    decreases lines.len(),
{
    if lines.len() > 0 {
        law_push_keeps_every_line(store, lines[0]);
        law_pushes_read_back_in_order(store.push(lines[0]), lines.drop_first());
        assert(store.all().push(lines[0]) + lines.drop_first() == store.all() + lines);
    } else {
        assert(store.all() + lines == store.all());
    }
}

/// After a push the buffer holds at most `capacity` lines (at least the new line).
pub proof fn law_buffer_bounded(store: LogStoreView, line: String)
    requires
        store.buffer.len() <= store.capacity,
    ensures
        store.push(line).buffer.len() <= if store.capacity == 0 { 1 } else { store.capacity },
        store.push(line).buffer.last() == line,
{
}

/// Clearing the buffer loses exactly the buffered lines.
pub proof fn law_clear_keeps_archive(store: LogStoreView)
    ensures
        (LogStoreView { buffer: Seq::empty(), ..store }).all() == store.archive,
{
    assert(store.archive + Seq::<String>::empty() == store.archive);
}

} // verus!
