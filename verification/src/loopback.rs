//! A software cable with TDI tied to TDO.
//!
//! The loopback backend drives no hardware: it walks the TAP graph
//! exactly as the contract of each operation prescribes and captures on
//! every edge the bit it clocks out.  A read therefore returns all ones
//! (TDI is held high), and a read-write returns the written pattern,
//! bit for bit, in the packed layout.  It serves as the reference model
//! of the cable contract and as the test bench for the shift encodings.

use vstd::prelude::*;

use crate::bits::{
    bytes_for, normalize_buffer, ones_buffer, seq_bits, tail_zeroed, total_bits,
};
use crate::cable::Cable;
use crate::queue::{ReadQueue, QUEUE_CAPACITY};
use crate::tap::{
    low_run, shift_tms, step_state, tap_walk, walk_states, TapState,
};

verus! {

/// The loopback cable: the TAP state it has walked to and its FIFO of
/// queued read results.
pub struct LoopbackCable {
    state: TapState,
    counts: ReadQueue,
    results: Vec<Vec<u8>>,
}

impl LoopbackCable {
    /// A fresh loopback cable, with the TAP in Test-Logic-Reset and the
    /// read queue empty.
    pub fn new() -> (r: Self)
        ensures
            r.wf(),
            r.tap() == TapState::TestLogicReset,
            r.pending() == Seq::<usize>::empty(),
            r.queued() == Seq::<Seq<u8>>::empty(),
            r.capacity() == QUEUE_CAPACITY as nat,
    {
        let r = LoopbackCable { state: TapState::TestLogicReset, counts: ReadQueue::new(), results: Vec::new() };
        proof {
            assert(r.queued() =~= Seq::<Seq<u8>>::empty());
        }
        r
    }

    /// The TAP state the operations so far have walked to.
    pub fn tap_state(&self) -> (r: TapState)
        ensures
            r == self.tap(),
    {
        self.state
    }

    /// Walk the TAP along the TMS sequence of a register shift of a
    /// `data_len`-byte buffer whose final byte contributes `bits` bits:
    /// `total_bits(..) - 1` low edges, one high edge, and one more low
    /// edge when pausing.  The edge count is tracked as a ghost number,
    /// so buffers of any length walk without overflow.
    fn walk_shift_bits(&mut self, data_len: usize, bits: u8, pause_after: bool)
        requires
            data_len >= 1,
            1 <= bits <= 8,
        ensures
            final(self).state == tap_walk(
                old(self).state,
                shift_tms(total_bits(data_len as nat, bits), pause_after),
            ),
            final(self).counts == old(self).counts,
            final(self).results == old(self).results,
    {
        let ghost s0 = self.state;
        let ghost total = total_bits(data_len as nat, bits);
        let ghost n = (total - 1) as nat;
        let mut cur = self.state;
        let mut k: usize = 0;
        while k < data_len - 1
            invariant
                k <= data_len - 1,
                cur == tap_walk(s0, low_run((8 * k) as nat)),
            decreases data_len - 1 - k,
        {
            let mut j: u8 = 0;
            while j < 8
                invariant
                    j <= 8,
                    cur == tap_walk(s0, low_run((8 * k + j) as nat)),
                decreases 8 - j,
            {
                proof {
                    crate::tap::lemma_low_run_snoc(s0, (8 * k + j) as nat);
                }
                cur = step_state(cur, false);
                j = j + 1;
            }
            k = k + 1;
        }
        let mut m: u8 = 1;
        while m < bits
            invariant
                1 <= m <= bits,
                data_len >= 1,
                cur == tap_walk(s0, low_run((8 * (data_len - 1) + (m - 1)) as nat)),
            decreases bits - m,
        {
            proof {
                crate::tap::lemma_low_run_snoc(s0, (8 * (data_len - 1) + (m - 1)) as nat);
            }
            cur = step_state(cur, false);
            m = m + 1;
        }
        proof {
            assert(8 * (data_len - 1) + (bits - 1) == n);
        }
        let ghost held = tap_walk(s0, low_run(n));
        cur = step_state(cur, true);
        proof {
            assert(low_run(n).push(true) =~= low_run(n) + seq![true]);
            crate::tap::lemma_walk_append(s0, low_run(n), seq![true]);
            crate::tap::lemma_walk_one(held, true);
        }
        let ghost exited = tap_walk(s0, low_run(n).push(true));
        if pause_after {
            cur = step_state(cur, false);
            proof {
                assert(shift_tms(total, pause_after) =~= low_run(n).push(true) + seq![false]);
                crate::tap::lemma_walk_append(s0, low_run(n).push(true), seq![false]);
                crate::tap::lemma_walk_one(exited, false);
            }
        }
        self.state = cur;
    }

    /// As `read_write_data`, with the loopback's full guarantee: the
    /// returned buffer holds exactly the bits that were written, in the
    /// same packed layout, right-aligned with unused high bits zero.
    pub fn shift_exchange(&mut self, data: &[u8], bits: u8, pause_after: bool) -> (r: Vec<u8>)
        requires
            old(self).wf(),
            data@.len() >= 1,
            1 <= bits <= 8,
        ensures
            final(self).wf(),
            r@.len() == data@.len(),
            tail_zeroed(r@, total_bits(data@.len(), bits)),
            seq_bits(r@, total_bits(data@.len(), bits)) == seq_bits(
                data@,
                total_bits(data@.len(), bits),
            ),
            final(self).tap() == tap_walk(
                old(self).tap(),
                shift_tms(total_bits(data@.len(), bits), pause_after),
            ),
            final(self).pending() == old(self).pending(),
            final(self).queued() == old(self).queued(),
            final(self).capacity() == old(self).capacity(),
    {
        let r = normalize_buffer(data, bits);
        self.walk_shift_bits(data.len(), bits, pause_after);
        proof {
            assert(self.queued() =~= old(self).queued());
        }
        r
    }

    /// As `read_data`, with the loopback's full guarantee: TDI is held
    /// high and TDO is tied to it, so every one of the `bits` captured
    /// bits is one.
    pub fn shift_capture(&mut self, bits: usize) -> (r: Vec<u8>)
        requires
            old(self).wf(),
            bits > 0,
        ensures
            final(self).wf(),
            r@.len() == bytes_for(bits as nat),
            tail_zeroed(r@, bits as nat),
            forall|i: int| 0 <= i < bits ==> seq_bits(r@, bits as nat)[i],
            final(self).tap() == old(self).tap(),
            final(self).pending() == old(self).pending(),
            final(self).queued() == old(self).queued(),
            final(self).capacity() == old(self).capacity(),
    {
        let r = ones_buffer(bits);
        proof {
            assert(self.queued() =~= old(self).queued());
        }
        r
    }
}

impl Cable for LoopbackCable {
    closed spec fn wf(&self) -> bool {
        &&& self.counts.pending().len() == self.results@.len()
        &&& forall|i: int|
            0 <= i < self.results@.len() ==> #[trigger] self.counts.pending()[i] > 0
        &&& forall|i: int|
            0 <= i < self.results@.len() ==> (#[trigger] self.results@[i])@.len() == bytes_for(
                self.counts.pending()[i] as nat,
            )
        &&& forall|i: int|
            0 <= i < self.results@.len() ==> tail_zeroed(
                (#[trigger] self.results@[i])@,
                self.counts.pending()[i] as nat,
            )
    }

    closed spec fn tap(&self) -> TapState {
        self.state
    }

    closed spec fn pending(&self) -> Seq<usize> {
        self.counts.pending()
    }

    closed spec fn queued(&self) -> Seq<Seq<u8>> {
        Seq::new(self.results@.len(), |i: int| self.results@[i]@)
    }

    closed spec fn capacity(&self) -> nat {
        QUEUE_CAPACITY as nat
    }

    fn change_mode(&mut self, tms: &[usize], tdo: bool) {
        // TDO data captured during mode changes is discarded, so the
        // held TDI value does not reach the model.
        let _ = tdo;
        self.state = walk_states(self.state, tms);
        proof {
            assert(self.queued() =~= old(self).queued());
        }
    }

    fn read_data(&mut self, bits: usize) -> (r: Vec<u8>) {
        self.shift_capture(bits)
    }

    fn write_data(&mut self, data: &[u8], bits: u8, pause_after: bool) {
        self.walk_shift_bits(data.len(), bits, pause_after);
        proof {
            assert(self.queued() =~= old(self).queued());
        }
    }

    fn read_write_data(&mut self, data: &[u8], bits: u8, pause_after: bool) -> (r: Vec<u8>) {
        self.shift_exchange(data, bits, pause_after)
    }

    fn queue_read(&mut self, bits: usize) -> (r: bool) {
        let ok = self.counts.try_push(bits);
        if ok {
            let buf = ones_buffer(bits);
            self.results.push(buf);
            proof {
                assert(self.queued().take(old(self).queued().len() as int) =~= old(
                    self,
                ).queued());
            }
        } else {
            proof {
                assert(self.queued() =~= old(self).queued());
            }
        }
        ok
    }

    fn queue_read_write(&mut self, data: &[u8], bits: u8, pause_after: bool) -> (r: bool) {
        let total = (data.len() - 1) * 8 + bits as usize;
        let ok = self.counts.try_push(total);
        if ok {
            let buf = normalize_buffer(data, bits);
            self.results.push(buf);
            self.walk_shift_bits(data.len(), bits, pause_after);
            proof {
                assert(self.queued().take(old(self).queued().len() as int) =~= old(
                    self,
                ).queued());
            }
        } else {
            proof {
                assert(self.queued() =~= old(self).queued());
            }
        }
        ok
    }

    fn finish_read(&mut self, bits: usize) -> (r: Vec<u8>) {
        let _ = self.counts.pop_front();
        let r = self.results.remove(0);
        proof {
            assert(self.queued() =~= old(self).queued().drop_first());
        }
        r
    }
}

} // verus!
