//! Low level access to the radio chip: the bus framer.
//!
//! This layer builds correctly-addressed single, burst and strobe
//! transactions and executes them on the bus port. Each operation's
//! contract states the exact transaction it appends to the port's trace;
//! on a bus error the operation aborts and the error propagates with no
//! retry.

use vstd::prelude::*;

use crate::port::{aborts, BusPort, TraceOp};

pub mod convert;
pub mod registers;
pub mod types;

use registers::{burst_read_header, burst_write_header, Command, Config, Register};

verus! {

/// The chip's crystal oscillator frequency, in Hertz.
pub const FXOSC: u64 = 27_000_000;

/// The transaction of a single-register write: address header, then the
/// data byte, in one write-only transfer.
pub open spec fn op_reg_write(reg: Config, v: u8) -> TraceOp {
    TraceOp::Write { sent: seq![reg.spec_addr(), v] }
}

/// The transaction of a strobe: the bare command address, write-only,
/// with no data phase.
pub open spec fn op_strobe(cmd: Command) -> TraceOp {
    TraceOp::Write { sent: seq![cmd.spec_addr()] }
}

/// The transaction of a burst write to the six-bit address `addr`.
pub open spec fn op_burst_write(addr: u8, data: Seq<u8>) -> TraceOp {
    TraceOp::BurstWrite { header: burst_write_header(addr), data }
}

/// The transaction of a burst read from the six-bit address `addr`.
pub open spec fn op_burst_read(addr: u8, data: Seq<u8>) -> TraceOp {
    TraceOp::BurstRead { header: burst_read_header(addr), data }
}

/// Does `op` read the single register `reg`: a two-byte full-duplex
/// exchange of the read header and one padding byte?
pub open spec fn is_reg_read(op: TraceOp, reg: Register) -> bool {
    match op {
        TraceOp::Exchange { sent, rcvd } => {
            &&& sent == seq![reg.spec_read_header(), 0u8]
            &&& rcvd.len() == 2
        },
        _ => false,
    }
}

/// The register value a single-register read returned: the second
/// received byte of the exchange.
pub open spec fn read_value(op: TraceOp) -> u8 {
    match op {
        TraceOp::Exchange { rcvd, .. } => rcvd[1],
        _ => 0,
    }
}

/// Does `op` issue the no-op strobe as a one-byte exchange, reading back
/// the chip status byte?
pub open spec fn is_status_exchange(op: TraceOp) -> bool {
    match op {
        TraceOp::Exchange { sent, rcvd } => {
            &&& sent == seq![Command::SNOP.spec_addr()]
            &&& rcvd.len() == 1
        },
        _ => false,
    }
}

/// The chip status byte a no-op exchange returned.
pub open spec fn status_byte(op: TraceOp) -> u8 {
    match op {
        TraceOp::Exchange { rcvd, .. } => rcvd[0],
        _ => 0,
    }
}

/// `post` extends `pre` by exactly one read of `reg` that returned `v`.
pub open spec fn reg_read_step(pre: Seq<TraceOp>, post: Seq<TraceOp>, reg: Register, v: u8) -> bool {
    &&& post.len() == pre.len() + 1
    &&& post.drop_last() == pre
    &&& is_reg_read(post.last(), reg)
    &&& read_value(post.last()) == v
}

/// `post` extends `pre` by one read of `reg` followed by one write of
/// `w` to it, where `w` is determined from the byte the read returned.
pub open spec fn reg_rmw_step(
    pre: Seq<TraceOp>,
    post: Seq<TraceOp>,
    reg: Config,
    f: spec_fn(u8) -> u8,
) -> bool {
    &&& post.len() == pre.len() + 2
    &&& post.subrange(0, pre.len() as int) == pre
    &&& is_reg_read(post[pre.len() as int], Register::Config(reg))
    &&& post.last() == op_reg_write(reg, f(read_value(post[pre.len() as int])))
}

/// Low level handle on the radio chip, owning the bus port.
pub struct Cc1101<B> {
    /// The bus port all transactions go through.
    pub spi: B,
}

impl<B: BusPort> Cc1101<B> {
    /// All bus transactions performed through this handle, oldest first.
    pub closed spec fn trace(&self) -> Seq<TraceOp> {
        self.spi.trace()
    }

    /// Wraps a bus port.
    pub fn new(spi: B) -> (r: Result<Self, B::Fault>)
        ensures
            r matches Ok(c) ==> c.trace() == spi.trace(),
    {
        Ok(Cc1101 { spi })
    }

    /// Reads one register: a two-byte exchange of the read header and a
    /// padding byte; the value arrives in the second received byte.
    pub fn read_register(&mut self, reg: Register) -> (r: Result<u8, B::Fault>)
        ensures
            aborts(old(self).trace(), final(self).trace()),
            r matches Ok(v) ==> reg_read_step(old(self).trace(), final(self).trace(), reg, v),
    {
        let header = reg.read_header();
        match self.spi.exchange2(header) {
            Ok((_, v)) => {
                proof {
                    assert(self.trace().drop_last() =~= old(self).trace());
                }
                Ok(v)
            },
            Err(e) => Err(e),
        }
    }

    /// Writes one config register: the bare address header, then the
    /// data byte, write-only.
    pub fn write_register(&mut self, reg: Config, byte: u8) -> (r: Result<(), B::Fault>)
        ensures
            aborts(old(self).trace(), final(self).trace()),
            r is Ok ==> final(self).trace() == old(self).trace().push(op_reg_write(reg, byte)),
    {
        let addr = reg.addr();
        match self.spi.write2(addr, byte) {
            Ok(()) => Ok(()),
            Err(e) => Err(e),
        }
    }

    /// Reads a config register, applies `f` to the value, and writes the
    /// result back. Not atomic against concurrent bus access: the caller
    /// must hold exclusive ownership of the bus for the whole call.
    pub fn modify_register<F: Fn(u8) -> u8>(&mut self, reg: Config, f: F) -> (r: Result<
        (),
        B::Fault,
    >)
        requires
            forall|b: u8| call_requires(f, (b,)),
        ensures
            old(self).trace().is_prefix_of(final(self).trace()),
            final(self).trace().len() <= old(self).trace().len() + 2,
            r is Ok ==> exists|g: spec_fn(u8) -> u8|
                reg_rmw_step(old(self).trace(), final(self).trace(), reg, g) && call_ensures(
                    f,
                    (read_value(final(self).trace()[old(self).trace().len() as int]),),
                    g(read_value(final(self).trace()[old(self).trace().len() as int])),
                ),
    {
        let v = match self.read_register(Register::Config(reg)) {
            Ok(v) => v,
            Err(e) => {
                return Err(e);
            },
        };
        let w = f(v);
        match self.write_register(reg, w) {
            Ok(()) => {
                proof {
                    let pre = old(self).trace();
                    let post = self.trace();
                    let g: spec_fn(u8) -> u8 = |b: u8| w;
                    assert(post.subrange(0, pre.len() as int) =~= pre);
                    assert(read_value(post[pre.len() as int]) == v);
                    assert(reg_rmw_step(pre, post, reg, g));
                    assert(pre.is_prefix_of(post));
                }
                Ok(())
            },
            Err(e) => {
                proof {
                    let pre = old(self).trace();
                    let post = self.trace();
                    assert(pre =~= post.subrange(0, pre.len() as int));
                }
                Err(e)
            },
        }
    }

    /// Burst-reads `n` bytes from the FIFO. The FIFO is 64 bytes long.
    pub fn read_fifo(&mut self, n: usize) -> (r: Result<Vec<u8>, B::Fault>)
        requires
            n <= 64,
        ensures
            aborts(old(self).trace(), final(self).trace()),
            r matches Ok(v) ==> v@.len() == n && final(self).trace() == old(self).trace().push(
                op_burst_read(Command::FIFO.spec_addr(), v@),
            ),
    {
        let header = Command::FIFO.addr() | 0xC0;
        self.spi.read_burst(header, n)
    }

    /// Burst-writes the payload into the FIFO. The FIFO is 64 bytes long.
    pub fn write_fifo(&mut self, buf: &[u8]) -> (r: Result<(), B::Fault>)
        requires
            buf@.len() <= 64,
        ensures
            aborts(old(self).trace(), final(self).trace()),
            r is Ok ==> final(self).trace() == old(self).trace().push(
                op_burst_write(Command::FIFO.spec_addr(), buf@),
            ),
    {
        let header = Command::FIFO.addr() | 0x40;
        self.spi.write_burst(header, buf)
    }

    /// Burst-reads `n` bytes of the power amplifier table. The table is
    /// 8 bytes long.
    pub fn read_patable(&mut self, n: usize) -> (r: Result<Vec<u8>, B::Fault>)
        requires
            n <= 8,
        ensures
            aborts(old(self).trace(), final(self).trace()),
            r matches Ok(v) ==> v@.len() == n && final(self).trace() == old(self).trace().push(
                op_burst_read(Command::PATABLE.spec_addr(), v@),
            ),
    {
        let header = Command::PATABLE.addr() | 0xC0;
        self.spi.read_burst(header, n)
    }

    /// Burst-writes the power amplifier table. The table is 8 bytes
    /// long and is lost on power-down.
    pub fn write_patable(&mut self, buf: &[u8]) -> (r: Result<(), B::Fault>)
        requires
            buf@.len() <= 8,
        ensures
            aborts(old(self).trace(), final(self).trace()),
            r is Ok ==> final(self).trace() == old(self).trace().push(
                op_burst_write(Command::PATABLE.spec_addr(), buf@),
            ),
    {
        let header = Command::PATABLE.addr() | 0x40;
        self.spi.write_burst(header, buf)
    }

    /// Issues a strobe: a one-byte, write-only transaction that triggers
    /// an immediate chip action.
    pub fn write_strobe(&mut self, com: Command) -> (r: Result<(), B::Fault>)
        ensures
            aborts(old(self).trace(), final(self).trace()),
            r is Ok ==> final(self).trace() == old(self).trace().push(op_strobe(com)),
    {
        let addr = com.addr();
        self.spi.write1(addr)
    }

    /// Issues the no-op strobe as a one-byte exchange and reads back the
    /// chip status byte. Returns whether the chip is ready to accept
    /// commands: the top status bit is low when it is.
    pub fn chip_rdyn(&mut self) -> (r: Result<bool, B::Fault>)
        ensures
            aborts(old(self).trace(), final(self).trace()),
            r matches Ok(b) ==> {
                &&& final(self).trace().len() == old(self).trace().len() + 1
                &&& final(self).trace().drop_last() == old(self).trace()
                &&& is_status_exchange(final(self).trace().last())
                &&& b == (status_byte(final(self).trace().last()) & 0x80 == 0)
            },
    {
        let addr = Command::SNOP.addr();
        match self.spi.exchange1(addr) {
            Ok(s) => {
                proof {
                    assert(self.trace().drop_last() =~= old(self).trace());
                }
                Ok(s & 0x80 == 0)
            },
            Err(e) => Err(e),
        }
    }
}

} // verus!
