//! Logging: per-CPU in-memory ring buffers that keep the newest bytes, and
//! the run-time level above which messages are kept but not printed.

use vstd::prelude::*;

verus! {

/// Severity of a message (lower is more severe).
#[derive(Clone, Copy, Debug, PartialEq, Eq, Structural)]
pub enum LogLevel {
    Error,
    Warn,
    Info,
    Debug,
}

/// Numeric value of a level.
pub open spec fn level_value(l: LogLevel) -> u8 {
    match l {
        LogLevel::Error => 0,
        LogLevel::Warn => 1,
        LogLevel::Info => 2,
        LogLevel::Debug => 3,
    }
}

impl LogLevel {
    /// Numeric value of the level.
    pub fn as_u8(&self) -> (r: u8)
        ensures
            r == level_value(*self),
    {
        match self {
            LogLevel::Error => 0,
            LogLevel::Warn => 1,
            LogLevel::Info => 2,
            LogLevel::Debug => 3,
        }
    }
}

/// Bytes in a log ring (one slot stays free).
pub const LOG_BUF_SIZE: usize = 8192;
/// Bytes a log ring keeps.
pub open spec fn log_keep() -> nat {
    8191
}

/// A ring of the newest logged bytes.
pub struct LogBuffer {
    buf: Vec<u8>,
    head: usize,
    tail: usize,
}

/// The last `n` elements of `s` (all of them when it is shorter).
pub open spec fn keep_last(s: Seq<u8>, n: nat) -> Seq<u8> {
    if s.len() <= n { s } else { s.subrange(s.len() - n, s.len() as int) }
}

impl View for LogBuffer {
    type V = Seq<u8>;

    /// Unread bytes, oldest first.
    closed spec fn view(&self) -> Seq<u8> {
        Seq::new(((self.tail + 8192 - self.head) % 8192) as nat, |i: int| self.buf@[(self.head + i) % 8192])
    }
}

impl LogBuffer {
    pub closed spec fn wf(&self) -> bool {
        &&& self.buf@.len() == LOG_BUF_SIZE
        &&& self.head < LOG_BUF_SIZE
        &&& self.tail < LOG_BUF_SIZE
    }

    /// An empty ring.
    pub fn new() -> (r: Self)
        ensures
            r.wf(),
            r@ == Seq::<u8>::empty(),
    {
        let mut buf: Vec<u8> = Vec::new();
        let mut i: usize = 0;
        while i < LOG_BUF_SIZE
            invariant
                i <= LOG_BUF_SIZE,
                buf@.len() == i,
            decreases LOG_BUF_SIZE - i,
        {
            buf.push(0);
            i = i + 1;
        }
        let r = LogBuffer { buf, head: 0, tail: 0 };
        assert(r@ =~= Seq::<u8>::empty());
        r
    }

    /// Append one byte, dropping the oldest when the ring is full.
    #[verifier::rlimit(60)]
    fn push_byte(&mut self, byte: u8)
        requires
            old(self).wf(),
        ensures
            final(self).wf(),
            final(self)@ == keep_last(old(self)@.push(byte), log_keep()),
    {
        let ghost before = self@;
        let tail = self.tail;
        self.buf.set(tail, byte);
        let new_tail = (tail + 1) % LOG_BUF_SIZE;
        self.tail = new_tail;
        if new_tail == self.head {
            self.head = (self.head + 1) % LOG_BUF_SIZE;
            assert(before.len() == 8191);
            assert(self@ =~= before.push(byte).subrange(1, 8192));
        } else {
            assert(self@ =~= before.push(byte));
        }
    }

    /// Append `data`, keeping only the newest bytes that fit.
    pub fn write(&mut self, data: &[u8])
        requires
            old(self).wf(),
        ensures
            final(self).wf(),
            final(self)@ == keep_last(old(self)@ + data@, log_keep()),
    {
        let mut i: usize = 0;
        while i < data.len()
            invariant
                self.wf(),
                i <= data@.len(),
                self@ == keep_last(old(self)@ + data@.take(i as int), log_keep()),
            decreases data@.len() - i,
        {
            let ghost prev = old(self)@ + data@.take(i as int);
            self.push_byte(data[i]);
            proof {
                let next = old(self)@ + data@.take(i + 1);
                assert(next =~= prev.push(data@[i as int]));
                lemma_keep_last_push(prev, data@[i as int], log_keep());
            }
            i = i + 1;
        }
        assert(data@.take(data@.len() as int) =~= data@);
    }

    /// Move up to `out.len()` of the oldest unread bytes into `out`;
    /// returns how many were moved.
    pub fn read(&mut self, out: &mut Vec<u8>) -> (r: usize)
        requires
            old(self).wf(),
        ensures
            final(self).wf(),
            r == if old(self)@.len() < old(out)@.len() { old(self)@.len() } else { old(out)@.len() as nat },
            final(out)@.len() == old(out)@.len(),
            final(out)@.take(r as int) == old(self)@.take(r as int),
            final(out)@.skip(r as int) == old(out)@.skip(r as int),
            final(self)@ == old(self)@.skip(r as int),
    {
        let mut count: usize = 0;
        let ghost s0 = self@;
        while self.head != self.tail && count < out.len()
            invariant
                self.wf(),
                count <= out@.len(),
                out@.len() == old(out)@.len(),
                count <= s0.len(),
                self@ == s0.skip(count as int),
                out@.take(count as int) == s0.take(count as int),
                out@.skip(count as int) == old(out)@.skip(count as int),
            decreases out@.len() - count,
        {
            let ghost before = self@;
            let ghost o = out@;
            assert(before.len() > 0);
            let b = self.buf[self.head];
            assert(before[0] == b);
            assert(b == s0[count as int]);
            out.set(count, b);
            assert forall|k: int| 0 <= k < out@.len() - (count + 1) implies
                #[trigger] out@.skip(count + 1)[k] == old(out)@.skip(count + 1)[k] by {
                assert(o.skip(count as int)[k + 1] == old(out)@.skip(count as int)[k + 1]);
            }
            self.head = (self.head + 1) % LOG_BUF_SIZE;
            assert(self@ =~= before.drop_first());
            assert(self@ =~= s0.skip(count + 1));
            assert(out@.take(count + 1) =~= s0.take(count + 1));
            assert(out@.skip(count + 1) =~= old(out)@.skip(count + 1));
            count = count + 1;
        }
        count
    }

    /// Number of unread bytes.
    pub fn available(&self) -> (r: usize)
        requires
            self.wf(),
        ensures
            r == self@.len(),
    {
        if self.tail >= self.head {
            self.tail - self.head
        } else {
            LOG_BUF_SIZE - self.head + self.tail
        }
    }

    /// Drop every unread byte.
    pub fn clear(&mut self)
        requires
            old(self).wf(),
        ensures
            final(self).wf(),
            final(self)@ == Seq::<u8>::empty(),
    {
        self.head = 0;
        self.tail = 0;
        assert(self@ =~= Seq::<u8>::empty());
    }
}

/// Keeping the last `n` of a sequence and then of it with one more element
/// is keeping the last `n` of the longer sequence.
proof fn lemma_keep_last_push(s: Seq<u8>, b: u8, n: nat)
    requires
        n > 0,
    ensures
        keep_last(keep_last(s, n).push(b), n) == keep_last(s.push(b), n),
{
    assert(keep_last(keep_last(s, n).push(b), n) =~= keep_last(s.push(b), n));
}

/// Log state of the hypervisor: per-CPU rings, the level up to which
/// messages are printed, and whether logging was set up.
pub struct LogState {
    pub buffers: Vec<LogBuffer>,
    pub uart_level: u8,
    pub initialized: bool,
}

/// CPUs with a log ring.
pub const LOG_CPUS: usize = 8;

/// Print messages up to `level`.
pub fn set_uart_log_level(st: &mut LogState, level: LogLevel)
    ensures
        final(st).uart_level == level_value(level),
        final(st).buffers == old(st).buffers,
        final(st).initialized == old(st).initialized,
{
    st.uart_level = level.as_u8();
}

/// The level up to which messages are printed.
pub fn uart_log_level(st: &LogState) -> (r: u8)
    ensures
        r == st.uart_level,
{
    st.uart_level
}

/// The ring of CPU `cpu_id`.
pub fn log_buffer(st: &LogState, cpu_id: usize) -> (r: &LogBuffer)
    requires
        cpu_id < st.buffers@.len(),
    ensures
        *r == st.buffers@[cpu_id as int],
{
    &st.buffers[cpu_id]
}

/// The ring of the boot CPU (the current CPU on a single-CPU build).
pub fn current_log_buffer(st: &LogState) -> (r: &LogBuffer)
    requires
        st.buffers@.len() > 0,
    ensures
        *r == st.buffers@[0],
{
    &st.buffers[0]
}

/// Mark logging as set up.
pub fn init(st: &mut LogState)
    ensures
        final(st).initialized,
        final(st).buffers == old(st).buffers,
        final(st).uart_level == old(st).uart_level,
{
    st.initialized = true;
}

/// Whether logging was set up.
pub fn is_initialized(st: &LogState) -> (r: bool)
    ensures
        r == st.initialized,
{
    st.initialized
}

/// Formats messages of one level.
#[derive(Clone, Copy, Debug)]
pub struct LogWriter {
    pub level: LogLevel,
}

impl LogWriter {
    /// A writer for messages of `level`.
    pub fn new(level: LogLevel) -> (r: Self)
        ensures
            r.level == level,
    {
        LogWriter { level }
    }

    /// Whether text of this writer's level goes to the UART as well as to
    /// the ring.
    pub fn prints(&self, st: &LogState) -> (r: bool)
        ensures
            r == (level_value(self.level) <= st.uart_level),
    {
        self.level.as_u8() <= st.uart_level
    }
}

} // verus!
