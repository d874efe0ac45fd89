//! One request's conversation with a child: the accumulator for the bytes
//! the child writes back, and the quiet-period rule that decides when the
//! reply is over.
//!
//! The surrounding event loop races three sources — a read from the
//! child's standard output, a read from its standard error, and a periodic
//! tick — and reports each outcome here. The session only accumulates and
//! decides; it performs no I/O itself.

use vstd::prelude::*;

verus! {

/// The accumulated output of one in-flight request, together with the
/// bookkeeping for the quiet-period rule. Times are milliseconds on the
/// caller's monotonic clock.
pub struct OutputSession {
    /// The child's bytes so far, standard output and standard error
    /// interleaved in arrival order.
    pub out: Vec<u8>,
    /// When the most recent read arrived, if any has.
    pub last_read_at_ms: Option<u64>,
    /// The silence window treated as end-of-reply.
    pub quiet_period_ms: u64,
}

impl OutputSession {
    /// Whether a tick at `now_ms` ends the reply: some bytes have arrived,
    /// and none for at least the quiet period.
    pub open spec fn quiet_elapsed(self, now_ms: u64) -> bool {
        match self.last_read_at_ms {
            Some(t) => now_ms >= t && now_ms - t >= self.quiet_period_ms,
            None => false,
        }
    }

    /// A fresh session: nothing read yet.
    pub fn new(quiet_period_ms: u64) -> (r: Self)
        ensures
            r.out@ == Seq::<u8>::empty(),
            r.last_read_at_ms is None,
            r.quiet_period_ms == quiet_period_ms,
    {
        OutputSession { out: Vec::new(), last_read_at_ms: None, quiet_period_ms }
    }

    /// A successful read of `chunk` at `now_ms`: the bytes are appended to
    /// the accumulator, nothing already collected changes, and the quiet
    /// clock restarts.
    pub fn on_read(&mut self, chunk: &[u8], now_ms: u64)
        ensures
            final(self).out@ == old(self).out@ + chunk@,
            final(self).last_read_at_ms == Some(now_ms),
            final(self).quiet_period_ms == old(self).quiet_period_ms,
    {
        let mut i: usize = 0;
        while i < chunk.len()
            invariant
                i <= chunk@.len(),
                self.out@ == old(self).out@ + chunk@.take(i as int),
                self.last_read_at_ms == old(self).last_read_at_ms,
                self.quiet_period_ms == old(self).quiet_period_ms,
            decreases chunk@.len() - i,
        {
            let b = chunk[i];
            self.out.push(b);
            proof {
                assert(old(self).out@ + chunk@.take(i + 1) =~= (old(self).out@ + chunk@.take(
                    i as int,
                )).push(b));
            }
            i += 1;
        }
        proof {
            assert(chunk@.take(chunk@.len() as int) =~= chunk@);
        }
        self.last_read_at_ms = Some(now_ms);
    }

    /// A tick at `now_ms`: true exactly when the quiet period has elapsed
    /// since the last read. The accumulator is untouched.
    pub fn on_tick(&self, now_ms: u64) -> (done: bool)
        ensures
            done == self.quiet_elapsed(now_ms),
    {
        match self.last_read_at_ms {
            Some(t) => now_ms >= t && now_ms - t >= self.quiet_period_ms,
            None => false,
        }
    }

    /// Finish the session: exactly the accumulated bytes, in arrival
    /// order.
    pub fn into_output(self) -> (r: Vec<u8>)
        ensures
            r@ == self.out@,
    {
        self.out
    }
}

/// The accumulator a session holds after reads of `chunks`, in that order,
/// starting from `start`.
pub open spec fn out_after_reads(start: Seq<u8>, chunks: Seq<Seq<u8>>) -> Seq<u8>
    decreases chunks.len(),
{
    if chunks.len() == 0 {
        start
    } else {
        out_after_reads(start, chunks.drop_last()) + chunks.last()
    }
}

/// A session that starts empty and sees the reads `chunks` holds exactly
/// their concatenation, in arrival order: what one request returns is what
/// the child wrote between the request's start and the observed quiet
/// period, and nothing else.
pub proof fn lemma_output_is_arrival_order(chunks: Seq<Seq<u8>>)
    ensures
        out_after_reads(Seq::<u8>::empty(), chunks) == chunks.flatten(),
    decreases chunks.len(),
{
    chunks.lemma_flatten_and_flatten_alt_are_equivalent();
    if chunks.len() == 0 {
        assert(out_after_reads(Seq::<u8>::empty(), chunks) =~= chunks.flatten_alt());
    } else {
        lemma_output_is_arrival_order(chunks.drop_last());
        chunks.drop_last().lemma_flatten_and_flatten_alt_are_equivalent();
    }
}

} // verus!
