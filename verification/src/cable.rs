//! The capability surface a JTAG adapter backend offers, and the factory
//! that selects a backend by name.
//!
//! A cable clocks TMS sequences to move the TAP between states, shifts
//! data through the instruction and data registers, and may queue read
//! requests so that several operations are in flight before any result
//! is retrieved.  The TAP state itself is the caller's to track: the
//! contract of each operation says how the state moves along the fixed
//! TAP graph, and the `tap` model records that walk.

use vstd::prelude::*;

use crate::bits::{bytes_for, tail_zeroed, total_bits};
use crate::tap::{shift_tms, tap_walk, tms_bools, TapState};

verus! {

/// One JTAG adapter backend.
///
/// `wf` is the backend's own well-formedness invariant; every operation
/// preserves it.  `pending` is the FIFO of bit counts of reads issued but
/// not yet retrieved, `queued` the matching FIFO of their (packed,
/// tail-zeroed) result buffers, and `capacity` the queue depth at which
/// further queue calls are refused.
pub trait Cable: Sized {
    /// Backend invariant, established by its constructor.
    spec fn wf(&self) -> bool;

    /// The TAP state the backend's operations have walked to.
    spec fn tap(&self) -> TapState;

    /// Bit counts of queued reads, oldest first.
    spec fn pending(&self) -> Seq<usize>;

    /// Result buffers of queued reads, oldest first.
    spec fn queued(&self) -> Seq<Seq<u8>>;

    /// Queue depth at which `queue_read`/`queue_read_write` report full.
    spec fn capacity(&self) -> nat;

    /// Clock out a series of TMS values to change the state of the JTAG
    /// chain.  Each element of `tms` drives the TMS line on one TCK edge,
    /// zero for low and any other value for high; `tdo` is the value held
    /// on TDI throughout.  The TAP walks the fixed graph along the
    /// sequence; TDO data captured during the walk is discarded.
    fn change_mode(&mut self, tms: &[usize], tdo: bool)
        requires
            old(self).wf(),
        ensures
            final(self).wf(),
            final(self).tap() == tap_walk(old(self).tap(), tms_bools(tms@)),
            final(self).pending() == old(self).pending(),
            final(self).queued() == old(self).queued(),
            final(self).capacity() == old(self).capacity(),
    ;

    /// Shift `bits` bits in from TDO with TDI held high, the TAP resting
    /// in its current Shift state throughout.  The result is packed
    /// least-significant-bit-first, `bytes_for(bits)` bytes long, with the
    /// unused high bits of the final byte zero.
    fn read_data(&mut self, bits: usize) -> (r: Vec<u8>)
        requires
            old(self).wf(),
            bits > 0,
        ensures
            final(self).wf(),
            r@.len() == bytes_for(bits as nat),
            tail_zeroed(r@, bits as nat),
            final(self).tap() == old(self).tap(),
            final(self).pending() == old(self).pending(),
            final(self).queued() == old(self).queued(),
            final(self).capacity() == old(self).capacity(),
    ;

    /// Shift out all of `data` on TDI, `bits` giving how many bits of the
    /// final byte to send.  The very last bit is delivered on the edge
    /// that leaves the Shift state, so the TAP walks
    /// `shift_tms(total_bits(..), pause_after)`: from a Shift state it
    /// ends in the matching Exit1 state, or in the matching Pause state
    /// when `pause_after` is set.
    fn write_data(&mut self, data: &[u8], bits: u8, pause_after: bool)
        requires
            old(self).wf(),
            data@.len() >= 1,
            1 <= bits <= 8,
        ensures
            final(self).wf(),
            final(self).tap() == tap_walk(
                old(self).tap(),
                shift_tms(total_bits(data@.len(), bits), pause_after),
            ),
            final(self).pending() == old(self).pending(),
            final(self).queued() == old(self).queued(),
            final(self).capacity() == old(self).capacity(),
    ;

    /// As `write_data`, but every edge also captures TDO; the captured
    /// bits come back in the same packed layout as `read_data`, the bit
    /// captured on the final (mode-change) edge included at its position.
    fn read_write_data(&mut self, data: &[u8], bits: u8, pause_after: bool) -> (r: Vec<u8>)
        requires
            old(self).wf(),
            data@.len() >= 1,
            1 <= bits <= 8,
        ensures
            final(self).wf(),
            r@.len() == data@.len(),
            tail_zeroed(r@, total_bits(data@.len(), bits)),
            final(self).tap() == tap_walk(
                old(self).tap(),
                shift_tms(total_bits(data@.len(), bits), pause_after),
            ),
            final(self).pending() == old(self).pending(),
            final(self).queued() == old(self).queued(),
            final(self).capacity() == old(self).capacity(),
    ;

    /// Force any buffered commands out to the hardware.  Safe to call at
    /// any time; a backend that does not buffer does nothing.
    fn flush(&mut self)
        requires
            old(self).wf(),
        ensures
            final(self).wf(),
            final(self).tap() == old(self).tap(),
            final(self).pending() == old(self).pending(),
            final(self).queued() == old(self).queued(),
            final(self).capacity() == old(self).capacity(),
    {
    }

    /// Request that `bits` bits be read without returning them yet.
    /// Refused, with nothing clocked and nothing queued, exactly when the
    /// queue already holds `capacity()` requests.
    fn queue_read(&mut self, bits: usize) -> (r: bool)
        requires
            old(self).wf(),
            bits > 0,
        ensures
            final(self).wf(),
            r == (old(self).pending().len() < old(self).capacity()),
            final(self).tap() == old(self).tap(),
            final(self).capacity() == old(self).capacity(),
            r ==> final(self).pending() == old(self).pending().push(bits),
            r ==> final(self).queued().len() == old(self).queued().len() + 1
                && final(self).queued().take(old(self).queued().len() as int) == old(
                self,
            ).queued(),
            !r ==> final(self).pending() == old(self).pending() && final(self).queued() == old(
                self,
            ).queued(),
    ;

    /// As `read_write_data`, but the captured bits are queued for a later
    /// `finish_read` instead of returned.  Refused, with nothing clocked
    /// and nothing queued, exactly when the queue is full; on success the
    /// TAP walks as for `write_data` and the queued entry records
    /// `total_bits(..)` bits.
    fn queue_read_write(&mut self, data: &[u8], bits: u8, pause_after: bool) -> (r: bool)
        requires
            old(self).wf(),
            data@.len() >= 1,
            1 <= bits <= 8,
            8 * data@.len() <= usize::MAX,
        ensures
            final(self).wf(),
            r == (old(self).pending().len() < old(self).capacity()),
            final(self).capacity() == old(self).capacity(),
            r ==> final(self).tap() == tap_walk(
                old(self).tap(),
                shift_tms(total_bits(data@.len(), bits), pause_after),
            ),
            r ==> final(self).pending() == old(self).pending().push(
                ((data@.len() - 1) * 8 + bits) as usize,
            ),
            r ==> final(self).queued().len() == old(self).queued().len() + 1
                && final(self).queued().take(old(self).queued().len() as int) == old(
                self,
            ).queued(),
            !r ==> final(self).tap() == old(self).tap() && final(self).pending() == old(
                self,
            ).pending() && final(self).queued() == old(self).queued(),
    ;

    /// Return the result of the oldest queued read.  `bits` must equal
    /// the bit count recorded when that read was queued; retrieval is
    /// strictly first-in, first-out.
    fn finish_read(&mut self, bits: usize) -> (r: Vec<u8>)
        requires
            old(self).wf(),
            old(self).pending().len() > 0,
            old(self).pending()[0] == bits,
        ensures
            final(self).wf(),
            r@ == old(self).queued()[0],
            r@.len() == bytes_for(bits as nat),
            tail_zeroed(r@, bits as nat),
            final(self).pending() == old(self).pending().drop_first(),
            final(self).queued() == old(self).queued().drop_first(),
            final(self).tap() == old(self).tap(),
            final(self).capacity() == old(self).capacity(),
    ;
}

/// Relies on `str`'s `==` (slice equality): true exactly when the two
/// strings hold the same characters.
#[verifier::external_body]
fn str_eq(a: &str, b: &str) -> (r: bool)
    ensures
        r == (a@ == b@),
{
    a == b
}

/// Relies on the `format!` macro: the message names the cable that was
/// not recognized.
#[verifier::external_body]
fn unknown_cable_message(name: &str) -> (r: String)
    ensures
        r@ == "unknown cable type: "@ + name@,
{
    format!("unknown cable type: {}", name)
}

/// The adapter family a cable name selects, fixed for the session's
/// lifetime.
///
/// Every family needs a claimed device handle, which is I/O outside
/// this library: each variant carries the plain construction
/// parameters the dispatch decided on, for the hardware layer to act
/// on.  (The software loopback is a test bench, not an adapter family:
/// it is built directly with `LoopbackCable::new`, never by name.)
#[derive(Clone, Copy, Debug, PartialEq, Eq, Structural)]
pub enum CableKind {
    /// A "jtagkey" compatible FT2232-based adapter.
    JtagKey { clock: u32 },
    /// An EasyFlash 3 cartridge, driven through an FT232R.
    EasyFlash3 { clock: u32 },
    /// An Altera USB-Blaster adapter, which sets its own clock rate.
    UsbBlaster,
    /// A SEGGER J-Link probe.
    JLink { clock: u32 },
}

/// Construct a cable from a name, as a command-line front end would.
/// `clock` is the requested TCK rate in hertz.  Each recognized name
/// maps to exactly one adapter family; every other name is refused
/// with a descriptive lookup error.
pub fn new_from_string(name: &str, clock: u32) -> (r: Result<CableKind, String>)
    ensures
        name@ == "jtagkey"@ ==> r == Ok::<CableKind, String>(CableKind::JtagKey { clock }),
        name@ == "ef3"@ ==> r == Ok::<CableKind, String>(CableKind::EasyFlash3 { clock }),
        name@ == "usbblaster"@ ==> r == Ok::<CableKind, String>(CableKind::UsbBlaster),
        name@ == "jlink"@ ==> r == Ok::<CableKind, String>(CableKind::JLink { clock }),
        name@ != "jtagkey"@ && name@ != "ef3"@ && name@ != "usbblaster"@ && name@ != "jlink"@
            ==> r is Err && r->Err_0@ == "unknown cable type: "@ + name@,
{
    proof {
        reveal_strlit("jtagkey");
        reveal_strlit("ef3");
        reveal_strlit("usbblaster");
        reveal_strlit("jlink");
        assert("jtagkey"@.len() == 7);
        assert("ef3"@.len() == 3);
        assert("usbblaster"@.len() == 10);
        assert("jlink"@.len() == 5);
    }
    if str_eq(name, "jtagkey") {
        Ok(CableKind::JtagKey { clock })
    } else if str_eq(name, "ef3") {
        Ok(CableKind::EasyFlash3 { clock })
    } else if str_eq(name, "usbblaster") {
        Ok(CableKind::UsbBlaster)
    } else if str_eq(name, "jlink") {
        Ok(CableKind::JLink { clock })
    } else {
        Err(unknown_cable_message(name))
    }
}

/// Queue ordering law (pipelined reads).  `c0` is a backend with an
/// empty queue; the next three states are what the contracts of
/// `queue_read`/`queue_read_write` and `finish_read` leave behind when
/// a read of `a` bits and then one of `b` bits are queued successfully
/// and the oldest is then retrieved, returning `first`.  Then the first
/// retrieval is admitted only for `a` — `finish_read`'s precondition
/// refuses `b` while `a` is still queued, flagging the mismatch — it
/// returns the buffer queued first, and afterwards `b` alone stands at
/// the head: results come back strictly in issue order.
pub proof fn lemma_queue_fifo_order<C: Cable>(
    c0: C,
    c1: C,
    c2: C,
    c3: C,
    a: usize,
    b: usize,
    first: Seq<u8>,
)
    requires
        c0.pending().len() == 0,
        c1.pending() == c0.pending().push(a),
        c1.queued().len() == c0.queued().len() + 1,
        c2.pending() == c1.pending().push(b),
        c2.queued().len() == c1.queued().len() + 1,
        c2.queued().take(c1.queued().len() as int) == c1.queued(),
        first == c2.queued()[0],
        c3.pending() == c2.pending().drop_first(),
        c3.queued() == c2.queued().drop_first(),
    ensures
        c2.pending() =~= seq![a, b],
        c2.pending()[0] == a,
        a != b ==> c2.pending()[0] != b,
        first == c1.queued()[0],
        c3.pending() =~= seq![b],
        c3.pending()[0] == b,
        c3.queued()[0] == c2.queued()[1],
{
    assert(c1.queued()[0] == c2.queued().take(c1.queued().len() as int)[0]);
}

/// A `flush` between queuing and retrieval changes nothing of the
/// ordering law: its contract leaves `pending` and `queued` untouched,
/// so the head bit count and head buffer after the flush are those
/// before it, and a `finish_read` whose bit count differs from that
/// head is still refused by its precondition.
pub proof fn lemma_flush_keeps_queue<C: Cable>(pre: C, post: C)
    requires
        post.pending() == pre.pending(),
        post.queued() == pre.queued(),
    ensures
        post.pending().len() == pre.pending().len(),
        pre.pending().len() > 0 ==> post.pending()[0] == pre.pending()[0],
        pre.queued().len() > 0 ==> post.queued()[0] == pre.queued()[0],
{
}

} // verus!
