//! The transfer loop's bookkeeping: what is read, what is written, how far
//! the progress counter has come, and what each outcome of a read or a write
//! leads to.
use vstd::prelude::*;

use crate::counting::count_byte;
use crate::counting::count_delimiters;

verus! {

/// The unit in which progress is counted.
#[derive(Debug, Clone, Copy, PartialEq, Eq, Structural)]
pub enum CountMode {
    /// Every byte written counts.
    Bytes,
    /// Every delimiter byte written counts.
    Lines(u8),
}

/// The progress units that the bytes `data` are worth.
pub open spec fn units_of(mode: CountMode, data: Seq<u8>) -> nat {
    match mode {
        CountMode::Bytes => data.len(),
        CountMode::Lines(d) => count_byte(data, d),
    }
}

/// What to do after a read failed.
#[derive(Debug, Clone, Copy, PartialEq, Eq, Structural)]
pub enum ReadFailure {
    /// Read again, as if nothing had happened.
    Retry,
    /// Go on to the next read; the failed chunk produces nothing.
    Skip,
    /// End the transfer with the error.
    Fail,
}

/// What to do after a write failed.
#[derive(Debug, Clone, Copy, PartialEq, Eq, Structural)]
pub enum WriteFailure {
    /// Go on to the next read; the chunk is lost and not counted.
    Skip,
    /// End the transfer with the error.
    Fail,
}

/// The state of one transfer.
pub struct Transfer {
    pub mode: CountMode,
    /// Most bytes to write, if a cap is set.
    pub cap: Option<u64>,
    pub skip_input_errors: bool,
    pub skip_output_errors: bool,
    /// Bytes read so far.
    pub received: u64,
    /// Bytes written so far.
    pub written: u64,
    /// Progress units written so far.
    pub position: u64,
    /// The bytes read so far, in order.
    pub input: Ghost<Seq<u8>>,
    /// The bytes written so far, in order.
    pub output: Ghost<Seq<u8>>,
    /// Whether a chunk was lost to a skipped write failure.
    pub dropped: Ghost<bool>,
}

/// How many bytes of a chunk of `len` bytes may still be written.
pub open spec fn budget_for(cap: Option<u64>, written: u64, len: nat) -> nat {
    match cap {
        Some(c) => if len <= c - written {
            len
        } else {
            (c - written) as nat
        },
        None => len,
    }
}

proof fn lemma_count_le(s: Seq<u8>, d: u8)
    ensures
        count_byte(s, d) <= s.len(),
    decreases s.len(),
{
    if s.len() > 0 {
        lemma_count_le(s.drop_last(), d);
    }
}

proof fn lemma_count_append(a: Seq<u8>, b: Seq<u8>, d: u8)
    ensures
        count_byte(a + b, d) == count_byte(a, d) + count_byte(b, d),
    decreases b.len(),
{
    if b.len() == 0 {
        assert(a + b =~= a);
    } else {
        lemma_count_append(a, b.drop_last(), d);
        assert((a + b).drop_last() =~= a + b.drop_last());
    }
}

proof fn lemma_units_append(mode: CountMode, a: Seq<u8>, b: Seq<u8>)
    ensures
        units_of(mode, a + b) == units_of(mode, a) + units_of(mode, b),
        units_of(mode, a) <= a.len(),
        units_of(mode, b) <= b.len(),
{
    match mode {
        CountMode::Bytes => {},
        CountMode::Lines(d) => {
            lemma_count_append(a, b, d);
            lemma_count_le(a, d);
            lemma_count_le(b, d);
        },
    }
}

impl Transfer {
    /// The invariant of a transfer.
    pub open spec fn wf(&self) -> bool {
        &&& self.input@.len() == self.received
        &&& self.output@.len() == self.written
        &&& self.written <= self.received
        &&& self.position == units_of(self.mode, self.output@)
        &&& (self.cap matches Some(c) ==> self.written <= c)
        &&& (!self.dropped@ ==> self.output@ == self.input@.take(self.written as int))
        &&& (!self.dropped@ && !self.cap_reached() ==> self.written == self.received)
    }

    /// Whether the cap, if any, has been reached.
    pub open spec fn cap_reached(&self) -> bool {
        self.cap matches Some(c) && self.written >= c
    }

    /// Starts a transfer: nothing read, nothing written.
    pub fn new(
        mode: CountMode,
        cap: Option<u64>,
        skip_input_errors: bool,
        skip_output_errors: bool,
    ) -> (t: Transfer)
        ensures
            t.wf(),
            t.mode == mode,
            t.cap == cap,
            t.skip_input_errors == skip_input_errors,
            t.skip_output_errors == skip_output_errors,
            t.received == 0,
            t.written == 0,
            t.position == 0,
            !t.dropped@,
    {
        let t = Transfer {
            mode,
            cap,
            skip_input_errors,
            skip_output_errors,
            received: 0,
            written: 0,
            position: 0,
            input: Ghost(Seq::empty()),
            output: Ghost(Seq::empty()),
            dropped: Ghost(false),
        };
        assert(t.input@.take(0) =~= t.output@);
        t
    }

    /// Whether the cap has been reached: the transfer stops at size and reads no more.
    pub fn stopped_at_size(&self) -> (r: bool)
        ensures
            r == self.cap_reached(),
    {
        match self.cap {
            Some(c) => self.written >= c,
            None => false,
        }
    }

    /// How many bytes of a chunk of `len` bytes that was just read are to be
    /// written: all of them, or as many as the cap still allows.
    pub fn budget(&self, len: usize) -> (n: usize)
        requires
            self.wf(),
        ensures
            n == budget_for(self.cap, self.written, len as nat),
            n <= len,
    {
        match self.cap {
            Some(c) => {
                let left = c - self.written;
                if (len as u64) <= left {
                    len
                } else {
                    left as usize
                }
            },
            None => len,
        }
    }

    /// Records that the first `n` bytes of `chunk`, the budget for it, were
    /// written; returns the progress units that they are worth.
    pub fn record_written(&mut self, chunk: &[u8], n: usize) -> (units: u64)
        requires
            old(self).wf(),
            n == budget_for(old(self).cap, old(self).written, chunk@.len()),
            old(self).received + chunk@.len() <= u64::MAX,
        ensures
            final(self).wf(),
            units == units_of(old(self).mode, chunk@.take(n as int)),
            final(self).input@ == old(self).input@ + chunk@,
            final(self).output@ == old(self).output@ + chunk@.take(n as int),
            final(self).received == old(self).received + chunk@.len(),
            final(self).written == old(self).written + n,
            final(self).position == old(self).position + units,
            final(self).dropped@ == old(self).dropped@,
            final(self).mode == old(self).mode,
            final(self).cap == old(self).cap,
            final(self).skip_input_errors == old(self).skip_input_errors,
            final(self).skip_output_errors == old(self).skip_output_errors,
    {
        let ghost part = chunk@.take(n as int);
        let units: u64 = match self.mode {
            CountMode::Bytes => n as u64,
            CountMode::Lines(d) => {
                let (head, _) = chunk.split_at(n);
                assert(head@ == part);
                count_delimiters(head, d)
            },
        };
        proof {
            lemma_units_append(self.mode, self.output@, part);
        }
        let ghost before_in = self.input@;
        let ghost before_out = self.output@;
        self.received = self.received + chunk.len() as u64;
        self.written = self.written + n as u64;
        self.position = self.position + units;
        self.input = Ghost(self.input@ + chunk@);
        self.output = Ghost(self.output@ + part);
        proof {
            if !self.dropped@ {
                let w = old(self).written as int;
                if old(self).cap_reached() {
                    assert(n == 0);
                    assert(part =~= Seq::<u8>::empty());
                    assert(self.output@ =~= before_out);
                    assert(self.input@.take(self.written as int) =~= before_in.take(w));
                } else {
                    assert(w == before_in.len());
                    assert(before_out =~= before_in);
                    assert(self.output@ =~= before_in + part);
                    assert(self.input@.take(self.written as int) =~= before_in + part);
                }
            }
        }
        units
    }

    /// Records that a write of `chunk` failed and was skipped: the chunk is
    /// read but neither written nor counted.
    pub fn record_dropped(&mut self, chunk: &[u8])
        requires
            old(self).wf(),
            old(self).received + chunk@.len() <= u64::MAX,
        ensures
            final(self).wf(),
            final(self).input@ == old(self).input@ + chunk@,
            final(self).output@ == old(self).output@,
            final(self).received == old(self).received + chunk@.len(),
            final(self).written == old(self).written,
            final(self).position == old(self).position,
            final(self).dropped@,
            final(self).mode == old(self).mode,
            final(self).cap == old(self).cap,
            final(self).skip_input_errors == old(self).skip_input_errors,
            final(self).skip_output_errors == old(self).skip_output_errors,
    {
        self.received = self.received + chunk.len() as u64;
        self.input = Ghost(self.input@ + chunk@);
        self.dropped = Ghost(true);
    }

    /// What a failed read leads to: an interruption is always retried; any
    /// other failure is skipped when input errors are tolerated, else fatal.
    pub fn on_read_failure(&self, interrupted: bool) -> (r: ReadFailure)
        ensures
            r == if interrupted {
                ReadFailure::Retry
            } else if self.skip_input_errors {
                ReadFailure::Skip
            } else {
                ReadFailure::Fail
            },
    {
        if interrupted {
            ReadFailure::Retry
        } else if self.skip_input_errors {
            ReadFailure::Skip
        } else {
            ReadFailure::Fail
        }
    }

    /// What a failed write leads to: skipped when output errors are
    /// tolerated, else fatal.
    pub fn on_write_failure(&self) -> (r: WriteFailure)
        ensures
            r == if self.skip_output_errors {
                WriteFailure::Skip
            } else {
                WriteFailure::Fail
            },
    {
        if self.skip_output_errors {
            WriteFailure::Skip
        } else {
            WriteFailure::Fail
        }
    }
}

/// Without a cap, and with no write failure skipped, the bytes written are
/// exactly the bytes read, in the same order.
pub proof fn law_pass_through(t: Transfer)
    requires
        t.wf(),
        t.cap is None,
        !t.dropped@,
    ensures
        t.output@ == t.input@,
{
    assert(t.input@.take(t.written as int) =~= t.input@);
}

/// With a cap of `n` bytes, and with no write failure skipped, the bytes
/// written are the first min(n, bytes read) bytes of the input.
pub proof fn law_stop_at_size(t: Transfer, n: u64)
    requires
        t.wf(),
        t.cap == Some(n),
        !t.dropped@,
    ensures
        t.written == if n <= t.received {
            n
        } else {
            t.received
        },
        t.output@ == t.input@.take(t.written as int),
{
}

/// In line mode, the position is the number of delimiters among the bytes
/// written.
pub proof fn law_line_position(t: Transfer, d: u8)
    requires
        t.wf(),
        t.mode == CountMode::Lines(d),
    ensures
        t.position == count_byte(t.output@, d),
{
}

} // verus!
