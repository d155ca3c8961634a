//! The bus port: the driver's connection to the physical SPI bus, and the
//! ghost trace of every transaction that crosses it.
//!
//! The driver is generic over a caller-supplied [`BusPort`], just as it is
//! generic over a caller-supplied [`ReadyPin`] for the packet-ready line.
//! A port records each transaction it performs in a ghost trace
//! (`Seq<TraceOp>`), oldest first, and every driver operation's contract
//! states exactly which transactions it appends to that trace. The
//! [`RecordingBus`] and [`ScriptedPin`] doubles implement the two traits in
//! full, so the contracts are known to be satisfiable and can be exercised
//! by ordinary tests.

use vstd::prelude::*;

verus! {

/// One physical bus transaction, as seen on the wire.
///
/// `Exchange` is a full-duplex transfer: `sent` is what the driver put on
/// the bus and `rcvd` what the chip answered, byte for byte. `Write` is a
/// write-only transfer with no readback. The burst variants are a single
/// header byte followed by a data phase within the same transaction.
#[verifier::ext_equal]
pub enum TraceOp {
    Write { sent: Seq<u8> },
    Exchange { sent: Seq<u8>, rcvd: Seq<u8> },
    BurstRead { header: u8, data: Seq<u8> },
    BurstWrite { header: u8, data: Seq<u8> },
}

/// The trace a recorded event log denotes.
pub open spec fn events_view(log: Seq<BusEvent>) -> Seq<TraceOp> {
    log.map_values(|e: BusEvent| e@)
}

/// A trace is a prefix of itself extended by one transaction.
pub broadcast proof fn lemma_prefix_push<T>(s: Seq<T>, x: T)
    ensures
        s.is_prefix_of(#[trigger] s.push(x)),
{
    assert(s =~= s.push(x).subrange(0, s.len() as int));
}

/// Being an earlier state of the same trace is transitive.
pub broadcast proof fn lemma_prefix_transitive<T>(a: Seq<T>, b: Seq<T>, c: Seq<T>)
    requires
        a.is_prefix_of(b),
        b.is_prefix_of(c),
    ensures
        #![trigger a.is_prefix_of(b), b.is_prefix_of(c)]
        a.is_prefix_of(c),
{
    assert(a =~= c.subrange(0, a.len() as int));
}

/// A bus error aborts the operation in flight: the trace keeps everything
/// completed before the failure and gains at most the aborted transaction.
pub open spec fn aborts(pre: Seq<TraceOp>, post: Seq<TraceOp>) -> bool {
    &&& pre.is_prefix_of(post)
    &&& post.len() <= pre.len() + 1
}

/// The physical bus. Implementations perform one transaction per call and
/// append it to their trace; on an error the operation is aborted and
/// nothing further is transferred.
pub trait BusPort: Sized {
    /// The platform's transport error.
    type Fault;

    /// All transactions this port has performed, oldest first. The
    /// default (an empty trace, as if nothing could ever be observed)
    /// is what an unverified port outside this crate gets; a verified
    /// port overrides it with its real history.
    open spec fn trace(&self) -> Seq<TraceOp> {
        Seq::empty()
    }

    /// Full-duplex one-byte exchange; returns the byte the chip answered.
    fn exchange1(&mut self, tx: u8) -> (r: Result<u8, Self::Fault>)
        ensures
            aborts(old(self).trace(), final(self).trace()),
            r matches Ok(v) ==> final(self).trace() == old(self).trace().push(
                TraceOp::Exchange { sent: seq![tx], rcvd: seq![v] },
            ),
    ;

    /// Full-duplex two-byte exchange: sends `tx` then one zero byte;
    /// returns both received bytes in order.
    fn exchange2(&mut self, tx: u8) -> (r: Result<(u8, u8), Self::Fault>)
        ensures
            aborts(old(self).trace(), final(self).trace()),
            r matches Ok(v) ==> final(self).trace() == old(self).trace().push(
                TraceOp::Exchange { sent: seq![tx, 0u8], rcvd: seq![v.0, v.1] },
            ),
    ;

    /// Write-only one-byte transfer.
    fn write1(&mut self, tx: u8) -> (r: Result<(), Self::Fault>)
        ensures
            aborts(old(self).trace(), final(self).trace()),
            r is Ok ==> final(self).trace() == old(self).trace().push(
                TraceOp::Write { sent: seq![tx] },
            ),
    ;

    /// Write-only two-byte transfer.
    fn write2(&mut self, tx0: u8, tx1: u8) -> (r: Result<(), Self::Fault>)
        ensures
            aborts(old(self).trace(), final(self).trace()),
            r is Ok ==> final(self).trace() == old(self).trace().push(
                TraceOp::Write { sent: seq![tx0, tx1] },
            ),
    ;

    /// Burst read: one header byte, then `n` bytes read in the same
    /// transaction.
    fn read_burst(&mut self, header: u8, n: usize) -> (r: Result<Vec<u8>, Self::Fault>)
        ensures
            aborts(old(self).trace(), final(self).trace()),
            r matches Ok(v) ==> v@.len() == n && final(self).trace() == old(self).trace().push(
                TraceOp::BurstRead { header, data: v@ },
            ),
    ;

    /// Burst write: one header byte, then the payload written in the same
    /// transaction.
    fn write_burst(&mut self, header: u8, data: &[u8]) -> (r: Result<(), Self::Fault>)
        ensures
            aborts(old(self).trace(), final(self).trace()),
            r is Ok ==> final(self).trace() == old(self).trace().push(
                TraceOp::BurstWrite { header, data: data@ },
            ),
    ;
}

/// The packet-ready input line. The chip raises it when a complete,
/// CRC-valid packet is buffered. `sampled` is the history of levels the
/// driver has read from the pin, oldest first.
pub trait ReadyPin: Sized {
    /// All levels sampled so far, oldest first. The default (an empty
    /// history) is what an unverified pin outside this crate gets; a
    /// verified pin overrides it.
    open spec fn sampled(&self) -> Seq<bool> {
        Seq::empty()
    }

    /// Samples the current level of the pin.
    fn is_high(&mut self) -> (r: bool)
        ensures
            final(self).sampled() == old(self).sampled().push(r),
    ;
}

/// Exec mirror of [`TraceOp`]: what a [`RecordingBus`] stores per
/// transaction.
#[derive(Debug, PartialEq, Eq)]
pub enum BusEvent {
    Write { sent: Vec<u8> },
    Exchange { sent: Vec<u8>, rcvd: Vec<u8> },
    BurstRead { header: u8, data: Vec<u8> },
    BurstWrite { header: u8, data: Vec<u8> },
}

impl View for BusEvent {
    type V = TraceOp;

    open spec fn view(&self) -> TraceOp {
        match self {
            BusEvent::Write { sent } => TraceOp::Write { sent: sent@ },
            BusEvent::Exchange { sent, rcvd } => TraceOp::Exchange { sent: sent@, rcvd: rcvd@ },
            BusEvent::BurstRead { header, data } => TraceOp::BurstRead {
                header: *header,
                data: data@,
            },
            BusEvent::BurstWrite { header, data } => TraceOp::BurstWrite {
                header: *header,
                data: data@,
            },
        }
    }
}

/// A bus double that performs no I/O: it logs every transaction and
/// answers reads from a scripted list of response bytes, handing back zero
/// once the script is exhausted. It never fails.
pub struct RecordingBus {
    /// Every transaction performed, oldest first.
    pub log: Vec<BusEvent>,
    /// Bytes the "chip" answers, consumed front to back.
    pub responses: Vec<u8>,
    /// How many scripted bytes have been consumed.
    pub cursor: usize,
}

/// Error type of a port that never fails: no value of it is ever returned.
#[derive(Debug)]
pub struct NoFault;

impl RecordingBus {
    /// A fresh bus that will answer reads with the given bytes.
    pub fn new(responses: Vec<u8>) -> (r: RecordingBus)
        ensures
            r.trace() == Seq::<TraceOp>::empty(),
    {
        let r = RecordingBus { log: Vec::new(), responses, cursor: 0 };
        proof {
            assert(events_view(r.log@) =~= Seq::<TraceOp>::empty());
        }
        r
    }

    /// Next scripted response byte, or zero once the script is spent.
    fn next_response(&mut self) -> (r: u8)
        ensures
            final(self).log == old(self).log,
    {
        if self.cursor < self.responses.len() {
            let b = self.responses[self.cursor];
            self.cursor = self.cursor + 1;
            b
        } else {
            0
        }
    }

    proof fn log_push_commutes(pre: Seq<BusEvent>, e: BusEvent)
        ensures
            events_view(pre.push(e)) == events_view(pre).push(e@),
            events_view(pre).is_prefix_of(events_view(pre.push(e))),
    {
        assert(events_view(pre.push(e)) =~= events_view(pre).push(e@));
        assert(events_view(pre) =~= events_view(pre.push(e)).subrange(
            0,
            events_view(pre).len() as int,
        ));
    }
}

impl BusPort for RecordingBus {
    type Fault = NoFault;

    open spec fn trace(&self) -> Seq<TraceOp> {
        events_view(self.log@)
    }

    fn exchange1(&mut self, tx: u8) -> (r: Result<u8, NoFault>) {
        let v = self.next_response();
        let e = BusEvent::Exchange { sent: vec![tx], rcvd: vec![v] };
        proof {
            Self::log_push_commutes(self.log@, e);
            assert(e@ =~= (TraceOp::Exchange { sent: seq![tx], rcvd: seq![v] }));
        }
        self.log.push(e);
        Ok(v)
    }

    fn exchange2(&mut self, tx: u8) -> (r: Result<(u8, u8), NoFault>) {
        let v0 = self.next_response();
        let v1 = self.next_response();
        let e = BusEvent::Exchange { sent: vec![tx, 0u8], rcvd: vec![v0, v1] };
        proof {
            Self::log_push_commutes(self.log@, e);
            assert(e@ =~= (TraceOp::Exchange { sent: seq![tx, 0u8], rcvd: seq![v0, v1] }));
        }
        self.log.push(e);
        Ok((v0, v1))
    }

    fn write1(&mut self, tx: u8) -> (r: Result<(), NoFault>) {
        let e = BusEvent::Write { sent: vec![tx] };
        proof {
            Self::log_push_commutes(self.log@, e);
            assert(e@ =~= (TraceOp::Write { sent: seq![tx] }));
        }
        self.log.push(e);
        Ok(())
    }

    fn write2(&mut self, tx0: u8, tx1: u8) -> (r: Result<(), NoFault>) {
        let e = BusEvent::Write { sent: vec![tx0, tx1] };
        proof {
            Self::log_push_commutes(self.log@, e);
            assert(e@ =~= (TraceOp::Write { sent: seq![tx0, tx1] }));
        }
        self.log.push(e);
        Ok(())
    }

    fn read_burst(&mut self, header: u8, n: usize) -> (r: Result<Vec<u8>, NoFault>) {
        let mut data: Vec<u8> = Vec::new();
        let mut i: usize = 0;
        let ghost pre_log = self.log@;
        while i < n
            invariant
                data@.len() == i,
                i <= n,
                self.log@ == pre_log,
            decreases n - i,
        {
            let b = self.next_response();
            data.push(b);
            i = i + 1;
        }
        let copy_for_log = clone_bytes(&data);
        let e = BusEvent::BurstRead { header, data: copy_for_log };
        proof {
            Self::log_push_commutes(self.log@, e);
            assert(e@ =~= (TraceOp::BurstRead { header, data: data@ }));
        }
        self.log.push(e);
        Ok(data)
    }

    fn write_burst(&mut self, header: u8, data: &[u8]) -> (r: Result<(), NoFault>) {
        let copy_for_log = slice_bytes(data);
        let e = BusEvent::BurstWrite { header, data: copy_for_log };
        proof {
            Self::log_push_commutes(self.log@, e);
            assert(e@ =~= (TraceOp::BurstWrite { header, data: data@ }));
        }
        self.log.push(e);
        Ok(())
    }
}

/// Copies a byte vector.
fn clone_bytes(v: &Vec<u8>) -> (r: Vec<u8>)
    ensures
        r@ == v@,
{
    let mut out: Vec<u8> = Vec::new();
    let mut i: usize = 0;
    while i < v.len()
        invariant
            i <= v.len(),
            out@ == v@.subrange(0, i as int),
        decreases v.len() - i,
    {
        out.push(v[i]);
        i = i + 1;
        proof {
            assert(out@ =~= v@.subrange(0, i as int));
        }
    }
    proof {
        assert(out@ =~= v@);
    }
    out
}

/// Copies a byte slice into a vector.
fn slice_bytes(s: &[u8]) -> (r: Vec<u8>)
    ensures
        r@ == s@,
{
    let mut out: Vec<u8> = Vec::new();
    let mut i: usize = 0;
    while i < s.len()
        invariant
            i <= s@.len(),
            out@ == s@.subrange(0, i as int),
        decreases s@.len() - i,
    {
        out.push(*vstd::slice::slice_index_get(s, i));
        i = i + 1;
        proof {
            assert(out@ =~= s@.subrange(0, i as int));
        }
    }
    proof {
        assert(out@ =~= s@);
    }
    out
}

/// A pin double: hands out a scripted list of levels, then reads low once
/// the script is spent.
pub struct ScriptedPin {
    /// Levels already handed out, oldest first.
    pub taken: Vec<bool>,
    /// Levels still to hand out, next one first.
    pub pending: Vec<bool>,
}

impl ScriptedPin {
    /// A pin that will read the given levels in order.
    pub fn new(pending: Vec<bool>) -> (r: ScriptedPin)
        ensures
            r.sampled() == Seq::<bool>::empty(),
            r.pending@ == pending@,
    {
        ScriptedPin { taken: Vec::new(), pending }
    }
}

impl ReadyPin for ScriptedPin {
    open spec fn sampled(&self) -> Seq<bool> {
        self.taken@
    }

    fn is_high(&mut self) -> (r: bool) {
        let level = if self.pending.len() > 0 {
            self.pending.remove(0)
        } else {
            false
        };
        self.taken.push(level);
        level
    }
}

} // verus!
