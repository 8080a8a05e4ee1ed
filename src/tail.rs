//! The read cursor of a growing file: when to read, from where, and which
//! complete lines the bytes read hold. The reads themselves are the caller's.
use vstd::prelude::*;

verus! {

/// The line terminator.
pub const NEWLINE: u8 = 10;

/// Where the current line starts once the first `k` bytes of `s` are seen.
pub open spec fn line_start(s: Seq<u8>, k: int) -> int
    decreases k,
{
    if k <= 0 {
        0
    } else if s[k - 1] == NEWLINE {
        k
    } else {
        line_start(s, k - 1)
    }
}

/// The complete lines among the first `k` bytes of `s`, without their
/// terminators; a trailing partial line is left out.
pub open spec fn lines_in(s: Seq<u8>, k: int) -> Seq<Seq<u8>>
    decreases k,
{
    if k <= 0 {
        Seq::empty()
    } else if s[k - 1] == NEWLINE {
        lines_in(s, k - 1).push(s.subrange(line_start(s, k - 1), k - 1))
    } else {
        lines_in(s, k - 1)
    }
}

/// `offset`: bytes already turned into lines; `last_size`: the file length
/// last observed. The bytes between are a partial line held back.
#[derive(Clone, Copy, PartialEq, Eq, Structural, Debug)]
pub struct TailCursor {
    pub offset: u64,
    pub last_size: u64,
}

/// What a poll asks of the caller.
#[derive(Clone, Copy, PartialEq, Eq, Structural, Debug)]
pub enum PollStep {
    /// The file did not change.
    Idle,
    /// The file shrank: the cursor is back at its start.
    Truncated,
    /// The file grew: read the bytes from `from` up to `to` and hand them to
    /// `consume`.
    Read { from: u64, to: u64 },
}

pub open spec fn poll_spec(c: TailCursor, current: u64) -> (TailCursor, PollStep) {
    if current > c.last_size {
        (c, PollStep::Read { from: c.offset, to: current })
    } else if current < c.last_size {
        (TailCursor { offset: 0, last_size: 0 }, PollStep::Truncated)
    } else {
        (c, PollStep::Idle)
    }
}

pub open spec fn consume_spec(c: TailCursor, chunk: Seq<u8>) -> (TailCursor, Seq<Seq<u8>>) {
    (
        TailCursor {
            offset: (c.offset + line_start(chunk, chunk.len() as int)) as u64,
            last_size: (c.offset + chunk.len()) as u64,
        },
        lines_in(chunk, chunk.len() as int),
    )
}

/// One poll of a file whose whole content is `file`: the cursor after it and
/// the lines it yields.
pub open spec fn poll_file(c: TailCursor, file: Seq<u8>) -> (TailCursor, Seq<Seq<u8>>) {
    let (c1, step) = poll_spec(c, file.len() as u64);
    match step {
        PollStep::Read { from, to } => consume_spec(c1, file.subrange(from as int, to as int)),
        _ => (c1, Seq::empty()),
    }
}

pub open spec fn byte_lines(v: Seq<Vec<u8>>) -> Seq<Seq<u8>> {
    v.map_values(|l: Vec<u8>| l@)
}

impl TailCursor {
    pub open spec fn wf(&self) -> bool {
        self.offset <= self.last_size
    }

    /// Starts at the end of a file of length `len`: what it holds already is
    /// not replayed.
    pub fn open(len: u64) -> (r: TailCursor)
        ensures
            r.wf(),
            r.offset == len,
            r.last_size == len,
    {
        TailCursor { offset: len, last_size: len }
    }

    /// Compares the file's current length with the last one observed.
    pub fn poll(&mut self, current: u64) -> (r: PollStep)
        requires
            old(self).wf(),
        ensures
            final(self).wf(),
            (*final(self), r) == poll_spec(*old(self), current),
    {
        if current > self.last_size {
            PollStep::Read { from: self.offset, to: current }
        } else if current < self.last_size {
            self.offset = 0;
            self.last_size = 0;
            PollStep::Truncated
        } else {
            PollStep::Idle
        }
    }

    /// Takes the bytes read from `offset` on, returns the complete lines
    /// among them, and moves the cursor past the last of those.
    pub fn consume(&mut self, chunk: &[u8]) -> (r: Vec<Vec<u8>>)
        requires
            old(self).offset + chunk@.len() <= u64::MAX,
        ensures
            final(self).wf(),
            (*final(self), byte_lines(r@)) == consume_spec(*old(self), chunk@),
    {
        let n = chunk.len();
        let mut lines: Vec<Vec<u8>> = Vec::new();
        let mut cur: Vec<u8> = Vec::new();
        let mut i: usize = 0;
        while i < n
            invariant
                n == chunk@.len(),
                i <= n,
                0 <= line_start(chunk@, i as int) <= i,
                cur@ == chunk@.subrange(line_start(chunk@, i as int), i as int),
                byte_lines(lines@) == lines_in(chunk@, i as int),
            decreases n - i,
        {
            let b = chunk[i];
            if b == NEWLINE {
                let ghost before = byte_lines(lines@);
                let done = cur;
                lines.push(done);
                assert(byte_lines(lines@) =~= before.push(done@));
                cur = Vec::new();
                assert(cur@ =~= chunk@.subrange(i + 1, i + 1));
            } else {
                cur.push(b);
                assert(cur@ =~= chunk@.subrange(line_start(chunk@, i + 1), i + 1));
            }
            i = i + 1;
        }
        self.last_size = self.offset + n as u64;
        self.offset = self.offset + (n - cur.len()) as u64;
        lines
    }
}

proof fn lemma_no_newline(s: Seq<u8>, k: int)
    requires
        0 <= k <= s.len(),
        forall|j: int| 0 <= j < k ==> s[j] != NEWLINE,
    ensures
        line_start(s, k) == 0,
        lines_in(s, k) == Seq::<Seq<u8>>::empty(),
    decreases k,
{
    if k > 0 {
        lemma_no_newline(s, k - 1);
    }
}

/// After a truncation that the poll observes (the file is now shorter than
/// it was), a line `l` written to the emptied file is yielded exactly once:
/// not by the poll that sees the shrink, by the next one, and never again
/// while the file stays as it is.
pub proof fn lemma_truncation_yields_once(c: TailCursor, l: Seq<u8>)
    requires
        c.wf(),
        forall|j: int| 0 <= j < l.len() ==> l[j] != NEWLINE,
        l.len() + 1 < c.last_size,
    ensures
        ({
            let file = l.push(NEWLINE);
            let (c1, out1) = poll_file(c, file);
            let (c2, out2) = poll_file(c1, file);
            let (c3, out3) = poll_file(c2, file);
            out1.len() == 0 && out2 == seq![l] && out3.len() == 0 && c3 == c2
        }),
{
    let file = l.push(NEWLINE);
    let n = file.len() as int;
    assert(file.subrange(0, n) =~= file);
    lemma_no_newline(file, n - 1);
    assert(file.subrange(0, n - 1) =~= l);
    assert(lines_in(file, n) == Seq::<Seq<u8>>::empty().push(l));
    assert(seq![l] =~= Seq::<Seq<u8>>::empty().push(l));
}

} // verus!
