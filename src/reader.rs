//! The key decoder: a state machine from terminal bytes to keypresses.
//!
//! The decoder does no I/O itself. `TermReader::read` starts the decoding of
//! one keypress; whenever it answers `ReadStep::NeedByte(timeout)` the caller
//! reads one byte with that timeout (in microseconds, `-1` for no limit) and
//! hands the outcome to `TermReader::feed`, until a `ReadStep::Done` comes.
use vstd::prelude::*;
use vstd::slice::slice_subrange;

use crate::keys::Keypress;
use crate::table::{has_longer_in, PrefixTable};

verus! {

/// Timeout of the read that waits for the first byte of a keypress: none.
pub const WAIT_FOREVER: i64 = -1;

/// Timeout, in microseconds, of a read that waits for the continuation of a
/// sequence that some longer key sequence starts with.
pub const CONTINUATION_TIMEOUT: i64 = 1000000;

/// Outcome of one timed single-byte read from the terminal.
#[derive(Clone, Copy, Debug, PartialEq, Eq, Structural)]
pub enum ByteRead {
    Byte(u8),
    TimedOut,
    Ended,
}

/// What the decoder asks for next.
#[derive(Clone, Copy, Debug, PartialEq, Eq, Structural)]
pub enum ReadStep {
    /// Read one byte, waiting at most this many microseconds (`-1`: no limit).
    NeedByte(i64),
    /// The read is over: a keypress, or `None` when the input has ended.
    Done(Option<Keypress>),
}

/// Where the decoder stands within one read.
#[derive(Clone, Copy, Debug, PartialEq, Eq, Structural)]
pub enum Mode {
    /// No read in progress.
    Idle,
    /// Waiting for the first byte of a keypress.
    First,
    /// Waiting for a byte that may continue the candidate sequence.
    More,
}

/// The abstract state of a decoder: its mode, the candidate sequence being
/// accumulated, and the bytes read but not yet turned into keypresses.
pub struct ReaderState {
    pub mode: Mode,
    pub cand: Seq<u8>,
    pub pending: Seq<u8>,
}

/// The first length `n` or more at which a prefix of `buf` is a stored sequence.
pub open spec fn first_match(m: Map<Seq<u8>, Keypress>, buf: Seq<u8>, n: nat) -> Option<nat>
    decreases buf.len() + 1 - n,
{
    if n > buf.len() {
        None
    } else if m.contains_key(buf.take(n as int)) {
        Some(n)
    } else {
        first_match(m, buf, n + 1)
    }
}

/// A match found from `n` on lies between `n` and the length of `buf`, and is stored.
pub proof fn lemma_first_match_bounds(m: Map<Seq<u8>, Keypress>, buf: Seq<u8>, n: nat)
    ensures
        match first_match(m, buf, n) {
            Some(k) => n <= k <= buf.len() && m.contains_key(buf.take(k as int)),
            None => true,
        },
    decreases buf.len() + 1 - n,
{
    if n <= buf.len() && !m.contains_key(buf.take(n as int)) {
        lemma_first_match_bounds(m, buf, n + 1);
    }
}

/// The keypress at the front of a non-empty `buf`, and how many bytes it takes:
/// the shortest non-empty prefix that is stored, or else the first byte as a
/// plain character.
pub open spec fn front_key(m: Map<Seq<u8>, Keypress>, buf: Seq<u8>) -> (Keypress, nat) {
    match first_match(m, buf, 1) {
        Some(n) => (m[buf.take(n as int)], n),
        None => (Keypress::KeyCharacter(buf[0] as char), 1),
    }
}

/// The idle state with `pending` bytes waiting to be decoded.
pub open spec fn idle_with(pending: Seq<u8>) -> ReaderState {
    ReaderState { mode: Mode::Idle, cand: Seq::empty(), pending }
}

/// Take the keypress at the front of `buf`, keeping the rest pending.
pub open spec fn resolve(m: Map<Seq<u8>, Keypress>, buf: Seq<u8>) -> (ReaderState, ReadStep) {
    let (k, n) = front_key(m, buf);
    (idle_with(buf.skip(n as int)), ReadStep::Done(Some(k)))
}

/// Decide on a candidate sequence: wait for more while a longer stored
/// sequence starts with it; else take it whole if it is stored; else resolve it
/// from its front.
pub open spec fn settle(m: Map<Seq<u8>, Keypress>, cand: Seq<u8>) -> (ReaderState, ReadStep) {
    if has_longer_in(m, cand) {
        (
            ReaderState { mode: Mode::More, cand, pending: Seq::empty() },
            ReadStep::NeedByte(CONTINUATION_TIMEOUT),
        )
    } else if m.contains_key(cand) {
        (idle_with(Seq::empty()), ReadStep::Done(Some(m[cand])))
    } else {
        resolve(m, cand)
    }
}

/// The start of a read from an idle state.
pub open spec fn start_step(m: Map<Seq<u8>, Keypress>, s: ReaderState) -> (ReaderState, ReadStep) {
    if s.pending.len() > 0 {
        resolve(m, s.pending)
    } else {
        (
            ReaderState { mode: Mode::First, cand: Seq::empty(), pending: Seq::empty() },
            ReadStep::NeedByte(WAIT_FOREVER),
        )
    }
}

/// The answer to the outcome of a requested read.
pub open spec fn feed_step(m: Map<Seq<u8>, Keypress>, s: ReaderState, input: ByteRead) -> (
    ReaderState,
    ReadStep,
) {
    if s.mode == Mode::First {
        match input {
            ByteRead::Byte(b) => settle(m, seq![b]),
            ByteRead::TimedOut => (s, ReadStep::NeedByte(WAIT_FOREVER)),
            ByteRead::Ended => (idle_with(Seq::empty()), ReadStep::Done(None)),
        }
    } else {
        match input {
            ByteRead::Byte(b) => settle(m, s.cand.push(b)),
            _ => resolve(m, s.cand),
        }
    }
}

/// The outcome of a read with `timeout` when `input` is all that is left of a
/// stream that then ends: its next byte; once none is left, the end of the
/// stream for a read without limit and a timeout for a bounded one.
pub open spec fn scripted(input: Seq<u8>, timeout: i64) -> ByteRead {
    if input.len() > 0 {
        ByteRead::Byte(input[0])
    } else if timeout == WAIT_FOREVER {
        ByteRead::Ended
    } else {
        ByteRead::TimedOut
    }
}

/// The keypress of a finished step.
pub open spec fn step_key(step: ReadStep) -> Option<Keypress> {
    match step {
        ReadStep::Done(k) => k,
        ReadStep::NeedByte(_) => None,
    }
}

/// Answers the decoder's requests from `input` until the read is over: the
/// keypress, the decoder's state and what is left of `input`.
pub open spec fn drive(
    m: Map<Seq<u8>, Keypress>,
    s: ReaderState,
    step: ReadStep,
    input: Seq<u8>,
) -> (Option<Keypress>, ReaderState, Seq<u8>)
    decreases input.len(),
{
    match step {
        ReadStep::Done(k) => (k, s, input),
        ReadStep::NeedByte(t) => {
            let (s2, step2) = feed_step(m, s, scripted(input, t));
            if input.len() == 0 {
                (step_key(step2), s2, input)
            } else {
                drive(m, s2, step2, input.drop_first())
            }
        },
    }
}

/// One whole `read` from the idle state `s`, its requests answered from `input`.
pub open spec fn read_scripted(m: Map<Seq<u8>, Keypress>, s: ReaderState, input: Seq<u8>) -> (
    Option<Keypress>,
    ReaderState,
    Seq<u8>,
) {
    let (s1, step1) = start_step(m, s);
    drive(m, s1, step1, input)
}

/// Resolving a non-empty buffer takes at least one byte from it.
proof fn lemma_resolve_shrinks(m: Map<Seq<u8>, Keypress>, buf: Seq<u8>)
    requires
        buf.len() > 0,
    ensures
        resolve(m, buf).0.mode == Mode::Idle,
        resolve(m, buf).0.cand.len() == 0,
        resolve(m, buf).0.pending.len() < buf.len(),
        resolve(m, buf).1 is Done,
        step_key(resolve(m, buf).1) is Some,
{
    lemma_first_match_bounds(m, buf, 1);
}

/// The states the decoder is in while it waits for a byte.
spec fn waiting_in(s: ReaderState, t: i64) -> bool {
    &&& s.pending.len() == 0
    &&& (s.mode == Mode::First && s.cand.len() == 0 && t == WAIT_FOREVER) || (s.mode == Mode::More
        && s.cand.len() > 0 && t == CONTINUATION_TIMEOUT)
}

/// Settling a non-empty candidate either waits for more or ends the read with
/// a keypress that takes at least one of its bytes.
proof fn lemma_settle(m: Map<Seq<u8>, Keypress>, cand: Seq<u8>)
    requires
        cand.len() > 0,
    ensures
        match settle(m, cand).1 {
            ReadStep::NeedByte(t) => waiting_in(settle(m, cand).0, t) && settle(m, cand).0.cand
                == cand,
            ReadStep::Done(k) => {
                &&& k is Some
                &&& settle(m, cand).0.mode == Mode::Idle
                &&& settle(m, cand).0.cand.len() == 0
                &&& settle(m, cand).0.pending.len() < cand.len()
            },
        },
{
    if !has_longer_in(m, cand) && !m.contains_key(cand) {
        lemma_resolve_shrinks(m, cand);
    }
}

/// Driving a waiting decoder from a finite input ends the read with the decoder
/// idle; it ends without a keypress only when nothing was left to decode, and
/// otherwise with fewer bytes left, pending or unread, than before.
proof fn lemma_drive(m: Map<Seq<u8>, Keypress>, s: ReaderState, t: i64, input: Seq<u8>)
    requires
        waiting_in(s, t),
    ensures
        ({
            let (k, s2, rest) = drive(m, s, ReadStep::NeedByte(t), input);
            &&& s2.mode == Mode::Idle
            &&& s2.cand.len() == 0
            &&& k is None <==> (s.cand.len() == 0 && input.len() == 0)
            &&& k is None ==> s2.pending.len() == 0 && rest.len() == 0
            &&& k is Some ==> s2.pending.len() + rest.len() < s.cand.len() + input.len()
        }),
    decreases input.len(),
{
    if input.len() == 0 {
        if s.mode == Mode::More {
            lemma_resolve_shrinks(m, s.cand);
        }
    } else {
        let b = input[0];
        let cand = if s.mode == Mode::First {
            seq![b]
        } else {
            s.cand.push(b)
        };
        lemma_settle(m, cand);
        assert(feed_step(m, s, scripted(input, t)) == settle(m, cand));
        assert(drive(m, s, ReadStep::NeedByte(t), input) == drive(
            m,
            settle(m, cand).0,
            settle(m, cand).1,
            input.drop_first(),
        ));
        match settle(m, cand).1 {
            ReadStep::NeedByte(t2) => {
                lemma_drive(m, settle(m, cand).0, t2, input.drop_first());
            },
            ReadStep::Done(_) => {},
        }
    }
}

/// Every read from an idle decoder over a finite input that then ends is over
/// after finitely many requests, and leaves the decoder idle. It returns `None`
/// exactly when no byte was left, pending or unread; otherwise it returns a
/// keypress and strictly fewer bytes are left. Repeated reads therefore come to
/// `None` once everything decodable has been returned.
pub proof fn lemma_read_progress(m: Map<Seq<u8>, Keypress>, pending: Seq<u8>, input: Seq<u8>)
    ensures
        ({
            let (k, s2, rest) = read_scripted(m, idle_with(pending), input);
            &&& s2.mode == Mode::Idle
            &&& s2.cand.len() == 0
            &&& k is None <==> (pending.len() == 0 && input.len() == 0)
            &&& k is Some ==> s2.pending.len() + rest.len() < pending.len() + input.len()
            &&& k is None ==> s2 == idle_with(Seq::empty()) && rest.len() == 0
        }),
{
    if pending.len() > 0 {
        lemma_resolve_shrinks(m, pending);
    } else {
        let s1 = ReaderState { mode: Mode::First, cand: Seq::empty(), pending: Seq::empty() };
        lemma_drive(m, s1, WAIT_FOREVER, input);
        let (k, s2, rest) = read_scripted(m, idle_with(pending), input);
        if k is None {
            assert(s2.cand =~= Seq::<u8>::empty());
            assert(s2.pending =~= Seq::<u8>::empty());
        }
    }
}

/// A read that finds bytes pending answers from them without asking for
/// input: it returns a keypress and removes a non-empty prefix of them.
pub proof fn lemma_pending_read_needs_no_input(m: Map<Seq<u8>, Keypress>, pending: Seq<u8>)
    requires
        pending.len() > 0,
    ensures
        step_key(start_step(m, idle_with(pending)).1) is Some,
        start_step(m, idle_with(pending)).1 is Done,
        start_step(m, idle_with(pending)).0.mode == Mode::Idle,
        exists|n: int|
            1 <= n <= pending.len() && #[trigger] start_step(m, idle_with(pending)).0.pending
                == pending.skip(n),
{
    lemma_first_match_bounds(m, pending, 1);
    let n = front_key(m, pending).1 as int;
    assert(start_step(m, idle_with(pending)).0.pending == pending.skip(n));
}

/// `n` reads in a row from the idle state with `pending` bytes, each answered
/// from `input`: their results, and the pending bytes and input left after.
pub open spec fn read_n(m: Map<Seq<u8>, Keypress>, pending: Seq<u8>, input: Seq<u8>, n: nat) -> (
    Seq<Option<Keypress>>,
    Seq<u8>,
    Seq<u8>,
)
    decreases n,
{
    if n == 0 {
        (Seq::empty(), pending, input)
    } else {
        let (k, s2, rest) = read_scripted(m, idle_with(pending), input);
        let (ks, p3, r3) = read_n(m, s2.pending, rest, (n - 1) as nat);
        (seq![k] + ks, p3, r3)
    }
}

/// Repeated reads over a finite input that then ends: once `None` comes, only
/// `None` follows; at most as many keypresses come as there were bytes,
/// pending or unread; and more reads than that end with `None`, everything
/// consumed.
pub proof fn lemma_reads_end(m: Map<Seq<u8>, Keypress>, pending: Seq<u8>, input: Seq<u8>, n: nat)
    requires
        n > pending.len() + input.len(),
    ensures
        ({
            let (ks, p3, r3) = read_n(m, pending, input, n);
            &&& ks.len() == n
            &&& ks[n - 1] is None
            &&& p3.len() == 0
            &&& r3.len() == 0
            &&& forall|i: int, j: int|
                0 <= i < j < n && #[trigger] ks[i] is None ==> #[trigger] ks[j] is None
            &&& forall|i: int|
                0 <= i < n && #[trigger] ks[i] is Some ==> i < pending.len() + input.len()
        }),
    decreases n,
{
    lemma_read_progress(m, pending, input);
    let (k, s2, rest) = read_scripted(m, idle_with(pending), input);
    let total = pending.len() + input.len();
    if k is None {
        assert(s2.pending.len() == 0 && rest.len() == 0);
        lemma_reads_stay_none(m, s2.pending, rest, (n - 1) as nat);
    } else {
        lemma_reads_end(m, s2.pending, rest, (n - 1) as nat);
    }
    let (ks, p3, r3) = read_n(m, pending, input, n);
    let (ks1, p1, r1) = read_n(m, s2.pending, rest, (n - 1) as nat);
    assert(ks == seq![k] + ks1);
    assert(forall|i: int| 0 < i < n ==> ks[i] == ks1[i - 1]);
}

/// With nothing left, every read returns `None` and leaves nothing.
proof fn lemma_reads_stay_none(m: Map<Seq<u8>, Keypress>, pending: Seq<u8>, input: Seq<u8>, n: nat)
    requires
        pending.len() == 0,
        input.len() == 0,
    ensures
        ({
            let (ks, p3, r3) = read_n(m, pending, input, n);
            &&& ks.len() == n
            &&& p3.len() == 0
            &&& r3.len() == 0
            &&& forall|i: int| 0 <= i < n ==> #[trigger] ks[i] is None
        }),
    decreases n,
{
    if n > 0 {
        lemma_read_progress(m, pending, input);
        let (k, s2, rest) = read_scripted(m, idle_with(pending), input);
        lemma_reads_stay_none(m, s2.pending, rest, (n - 1) as nat);
        let (ks, p3, r3) = read_n(m, pending, input, n);
        let (ks1, p1, r1) = read_n(m, s2.pending, rest, (n - 1) as nat);
        assert(ks == seq![k] + ks1);
        assert(forall|i: int| 0 < i < n ==> ks[i] == ks1[i - 1]);
    }
}

/// The key decoder.
pub struct TermReader {
    escapes: PrefixTable,
    buf: Vec<u8>,
    head: usize,
    cand: Vec<u8>,
    mode: Mode,
}

impl TermReader {
    /// The table of key sequences the decoder recognises.
    pub closed spec fn table(&self) -> Map<Seq<u8>, Keypress> {
        self.escapes@
    }

    /// The decoder's abstract state.
    pub closed spec fn state(&self) -> ReaderState {
        ReaderState {
            mode: self.mode,
            cand: self.cand@,
            pending: self.buf@.subrange(self.head as int, self.buf@.len() as int),
        }
    }

    /// The table is well formed; bytes are pending only between reads; a
    /// candidate exists exactly while waiting for its continuation.
    pub closed spec fn wf(&self) -> bool {
        &&& self.escapes.wf()
        &&& self.head <= self.buf@.len()
        &&& self.mode != Mode::Idle ==> self.head == self.buf@.len()
        &&& self.mode == Mode::More ==> self.cand@.len() > 0
        &&& self.mode != Mode::More ==> self.cand@.len() == 0
    }

    /// A decoder over `escapes`, with nothing pending.
    pub fn new(escapes: PrefixTable) -> (r: TermReader)
        requires
            escapes.wf(),
        ensures
            r.wf(),
            r.table() == escapes@,
            r.state() == idle_with(Seq::empty()),
    {
        let r = TermReader { escapes, buf: Vec::new(), head: 0, cand: Vec::new(), mode: Mode::Idle };
        assert(r.state().pending =~= Seq::<u8>::empty());
        assert(r.state().cand =~= Seq::<u8>::empty());
        r
    }

    /// Whether a read is in progress, waiting for `feed`.
    pub fn waiting(&self) -> (r: bool)
        ensures
            r == (self.state().mode != Mode::Idle),
    {
        match self.mode {
            Mode::Idle => false,
            _ => true,
        }
    }

    /// Starts reading one keypress: answers at once from pending bytes, or asks
    /// for a byte with no time limit.
    pub fn read(&mut self) -> (r: ReadStep)
        requires
            old(self).wf(),
            old(self).state().mode == Mode::Idle,
        ensures
            final(self).wf(),
            final(self).table() == old(self).table(),
            final(self).state() == start_step(old(self).table(), old(self).state()).0,
            r == start_step(old(self).table(), old(self).state()).1,
    {
        if self.head < self.buf.len() {
            let k = self.next_key();
            ReadStep::Done(Some(k))
        } else {
            self.mode = Mode::First;
            proof {
                assert(self.state().pending =~= Seq::<u8>::empty());
                assert(self.state().cand =~= Seq::<u8>::empty());
            }
            ReadStep::NeedByte(WAIT_FOREVER)
        }
    }

    /// Continues the read in progress with the outcome of the requested read.
    pub fn feed(&mut self, input: ByteRead) -> (r: ReadStep)
        requires
            old(self).wf(),
            old(self).state().mode != Mode::Idle,
        ensures
            final(self).wf(),
            final(self).table() == old(self).table(),
            final(self).state() == feed_step(old(self).table(), old(self).state(), input).0,
            r == feed_step(old(self).table(), old(self).state(), input).1,
    {
        match self.mode {
            Mode::More => match input {
                ByteRead::Byte(b) => {
                    self.cand.push(b);
                    self.settle()
                },
                _ => {
                    self.unget_candidate();
                    assert(self.state().pending =~= old(self).cand@);
                    let k = self.next_key();
                    ReadStep::Done(Some(k))
                },
            },
            _ => match input {
                ByteRead::Byte(b) => {
                    self.cand = vec![b];
                    proof {
                        assert(self.cand@ =~= seq![b]);
                    }
                    self.settle()
                },
                ByteRead::TimedOut => ReadStep::NeedByte(WAIT_FOREVER),
                ByteRead::Ended => {
                    self.mode = Mode::Idle;
                    proof {
                        assert(self.state().pending =~= Seq::<u8>::empty());
                        assert(self.state().cand =~= Seq::<u8>::empty());
                    }
                    ReadStep::Done(None)
                },
            },
        }
    }

    /// Decides on the candidate sequence (see `settle`).
    fn settle(&mut self) -> (r: ReadStep)
        requires
            old(self).escapes.wf(),
            old(self).head == old(self).buf@.len(),
            old(self).cand@.len() > 0,
        ensures
            final(self).wf(),
            final(self).table() == old(self).table(),
            final(self).state() == settle(old(self).table(), old(self).cand@).0,
            r == settle(old(self).table(), old(self).cand@).1,
    {
        proof {
            assert(self.state().pending =~= Seq::<u8>::empty());
        }
        if self.escapes.has_longer(self.cand.as_slice()) {
            self.mode = Mode::More;
            return ReadStep::NeedByte(CONTINUATION_TIMEOUT);
        }
        match self.escapes.find(self.cand.as_slice()) {
            Some(k) => {
                self.cand = Vec::new();
                self.mode = Mode::Idle;
                proof {
                    assert(self.state().cand =~= Seq::<u8>::empty());
                }
                ReadStep::Done(Some(k))
            },
            None => {
                self.mode = Mode::More;
                self.unget_candidate();
                assert(self.state().pending =~= old(self).cand@);
                let k = self.next_key();
                ReadStep::Done(Some(k))
            },
        }
    }

    /// Puts `bytes` back after the pending bytes, in order.
    fn unget(&mut self, bytes: &[u8])
        requires
            old(self).head <= old(self).buf@.len(),
        ensures
            final(self).escapes == old(self).escapes,
            final(self).mode == old(self).mode,
            final(self).cand == old(self).cand,
            final(self).head <= final(self).buf@.len(),
            final(self).state().pending == old(self).state().pending + bytes@,
    {
        let ghost p = self.state().pending;
        let mut i: usize = 0;
        while i < bytes.len()
            invariant
                self.escapes == old(self).escapes,
                self.mode == old(self).mode,
                self.cand == old(self).cand,
                self.head <= self.buf@.len(),
                i <= bytes@.len(),
                self.state().pending == p + bytes@.take(i as int),
            decreases bytes@.len() - i,
        {
            let ghost before = self.state().pending;
            self.buf.push(bytes[i]);
            assert(self.state().pending =~= before.push(bytes@[i as int]));
            assert(bytes@.take(i + 1) =~= bytes@.take(i as int).push(bytes@[i as int]));
            assert(self.state().pending =~= p + bytes@.take(i + 1));
            i = i + 1;
        }
        assert(bytes@.take(i as int) =~= bytes@);
    }

    /// Ends the read in progress, putting the candidate back after the
    /// pending bytes.
    fn unget_candidate(&mut self)
        requires
            old(self).escapes.wf(),
            old(self).head <= old(self).buf@.len(),
        ensures
            final(self).wf(),
            final(self).escapes == old(self).escapes,
            final(self).state() == idle_with(old(self).state().pending + old(self).cand@),
    {
        let mut c = Vec::new();
        core::mem::swap(&mut c, &mut self.cand);
        self.mode = Mode::Idle;
        self.unget(c.as_slice());
        proof {
            assert(self.state().cand =~= Seq::<u8>::empty());
        }
    }

    /// The shortest non-empty prefix of the pending bytes that is stored,
    /// with its length and keypress.
    fn shortest_match(&self) -> (r: Option<(usize, Keypress)>)
        requires
            self.wf(),
        ensures
            match r {
                Some((n, k)) => first_match(self.table(), self.state().pending, 1) == Some(n as nat)
                    && k == self.table()[self.state().pending.take(n as int)],
                None => first_match(self.table(), self.state().pending, 1) == None::<nat>,
            },
    {
        let ghost m = self.table();
        let ghost p = self.state().pending;
        let h = self.head;
        let len = self.buf.len() - h;
        let mut i: usize = 0;
        while i < len
            invariant
                self.wf(),
                m == self.escapes@,
                h == self.head,
                len == p.len(),
                h + len == self.buf@.len(),
                h + len <= usize::MAX,
                p == self.buf@.subrange(h as int, self.buf@.len() as int),
                i <= len,
                first_match(m, p, 1) == first_match(m, p, (i + 1) as nat),
            decreases len - i,
        {
            let n = i + 1;
            let front = slice_subrange(self.buf.as_slice(), h, h + n);
            assert(front@ =~= p.take(n as int));
            match self.escapes.find(front) {
                Some(k) => {
                    assert(first_match(m, p, n as nat) == Some(n as nat));
                    return Some((n, k));
                },
                None => {},
            }
            i = n;
        }
        assert(first_match(m, p, (i + 1) as nat) == None::<nat>);
        None
    }

    /// Removes the keypress at the front of the pending bytes (see `front_key`).
    fn next_key(&mut self) -> (k: Keypress)
        requires
            old(self).wf(),
            old(self).state().mode == Mode::Idle,
            old(self).state().pending.len() > 0,
        ensures
            final(self).wf(),
            final(self).escapes == old(self).escapes,
            (final(self).state(), ReadStep::Done(Some(k))) == resolve(
                old(self).table(),
                old(self).state().pending,
            ),
    {
        let ghost p = self.state().pending;
        proof {
            lemma_first_match_bounds(self.table(), p, 1);
        }
        match self.shortest_match() {
            Some((n, k)) => {
                self.drop_front(n);
                assert(self.state().pending =~= p.skip(n as int));
                k
            },
            None => {
                let b = self.buf[self.head];
                self.drop_front(1);
                assert(self.state().pending =~= p.skip(1));
                Keypress::KeyCharacter(b as char)
            },
        }
    }

    /// Drops `n` pending bytes, releasing the buffer once it is used up.
    fn drop_front(&mut self, n: usize)
        requires
            old(self).wf(),
            old(self).state().mode == Mode::Idle,
            n <= old(self).buf@.len() - old(self).head,
        ensures
            final(self).wf(),
            final(self).escapes == old(self).escapes,
            final(self).state() == idle_with(old(self).state().pending.skip(n as int)),
    {
        let total = self.buf.len();
        self.head = self.head + n;
        if self.head == total {
            self.buf = Vec::new();
            self.head = 0;
        }
        proof {
            assert(self.state().pending =~= old(self).state().pending.skip(n as int));
            assert(self.state().cand =~= Seq::<u8>::empty());
        }
    }
}

} // verus!
