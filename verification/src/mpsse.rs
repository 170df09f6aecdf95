//! Encoding of cable operations into MPSSE-style batched commands.
//!
//! An MPSSE-capable adapter chip takes a byte stream of clocking
//! commands.  This module proves the command streams the cable
//! operations need: TMS sequences split into chunks of at most
//! `TMS_CHUNK_BITS` bits, register shifts as full-byte clocking followed
//! by sub-byte clocking, and the last data bit of a shift delivered as
//! the TDI value of the TMS command that leaves the Shift state.  The
//! command builder of the `ftdi_mpsse` crate does the byte-level
//! encoding; its calls are the trusted boundary, each stated exactly
//! from that crate's source.

use vstd::prelude::*;

use ftdi_mpsse::{
    ClockBits, ClockBitsOut, ClockData, ClockDataOut, ClockTMS, ClockTMSOut, MpsseCmdBuilder,
};

use crate::bits::{bit_at, bytes_for, tail_zeroed, total_bits};
use crate::tap::tms_bools;

verus! {

/// Most TMS bits one MPSSE TMS command can clock.
pub const TMS_CHUNK_BITS: u8 = 7;

/// Most bytes one MPSSE data-clocking command can move.
pub const DATA_CHUNK_BYTES: usize = 65536;

#[verifier::external_type_specification]
#[verifier::external_body]
pub struct ExMpsseCmdBuilder(MpsseCmdBuilder);

/// The command bytes an `MpsseCmdBuilder` has accumulated.
pub uninterp spec fn cmd_bytes(b: MpsseCmdBuilder) -> Seq<u8>;

/// Relies on `MpsseCmdBuilder::new`: a fresh builder holds no bytes.
#[verifier::external_body]
fn builder_new() -> (r: MpsseCmdBuilder)
    ensures
        cmd_bytes(r) == Seq::<u8>::empty(),
{
    MpsseCmdBuilder::new()
}

/// Relies on `MpsseCmdBuilder::clock_tms_out` (opcode 0x4B, TMS out on
/// the negative edge): appends the opcode, the bit count less one, and
/// the TMS pattern with the held TDI value in bit 7; appends nothing
/// when `len` is zero; panics when `len` exceeds 7.
#[verifier::external_body]
fn builder_clock_tms_out(b: MpsseCmdBuilder, pattern: u8, tdi: bool, len: u8) -> (r:
    MpsseCmdBuilder)
    requires
        len <= 7,
        pattern < 0x80,
    ensures
        cmd_bytes(r) == if len == 0 {
            cmd_bytes(b)
        } else {
            cmd_bytes(b) + seq![
                0x4Bu8,
                (len - 1) as u8,
                if tdi {
                    pattern | 0x80
                } else {
                    pattern
                },
            ]
        },
{
    b.clock_tms_out(ClockTMSOut::NegEdge, pattern, tdi, len)
}

/// Relies on `MpsseCmdBuilder::clock_tms` (opcode 0x6B, TMS out on the
/// negative edge, TDO in on the positive edge): encoded as
/// `clock_tms_out`, with TDO captured on every clock.
#[verifier::external_body]
fn builder_clock_tms(b: MpsseCmdBuilder, pattern: u8, tdi: bool, len: u8) -> (r: MpsseCmdBuilder)
    requires
        len <= 7,
        pattern < 0x80,
    ensures
        cmd_bytes(r) == if len == 0 {
            cmd_bytes(b)
        } else {
            cmd_bytes(b) + seq![
                0x6Bu8,
                (len - 1) as u8,
                if tdi {
                    pattern | 0x80
                } else {
                    pattern
                },
            ]
        },
{
    b.clock_tms(ClockTMS::NegTMSPosTDO, pattern, tdi, len)
}

/// Header of an MPSSE byte-clocking command: the opcode and the byte
/// count less one, low byte first.
pub open spec fn len_header(op: u8, n: nat) -> Seq<u8>
    recommends
        1 <= n <= 65536,
{
    seq![op, (((n - 1) as nat) % 256) as u8, ((((n - 1) as nat) / 256) % 256) as u8]
}

/// Relies on `MpsseCmdBuilder::clock_data_out` (opcode 0x19, bytes out
/// on the negative edge, LSB first): appends the header and the first
/// `upto` data bytes; appends nothing when `upto` is zero; panics when
/// `upto` exceeds 65536.
#[verifier::external_body]
fn builder_clock_data_out(b: MpsseCmdBuilder, data: &[u8], upto: usize) -> (r: MpsseCmdBuilder)
    requires
        upto <= data@.len(),
        upto <= 65536,
    ensures
        cmd_bytes(r) == if upto == 0 {
            cmd_bytes(b)
        } else {
            cmd_bytes(b) + len_header(0x19, upto as nat) + data@.take(upto as int)
        },
{
    b.clock_data_out(ClockDataOut::LsbNeg, &data[..upto])
}

/// Relies on `MpsseCmdBuilder::clock_data` (opcode 0x39, bytes out on
/// the negative edge and in on the positive edge, LSB first): appends
/// the header and the first `upto` data bytes; appends nothing when
/// `upto` is zero; panics when `upto` exceeds 65536.
#[verifier::external_body]
fn builder_clock_data(b: MpsseCmdBuilder, data: &[u8], upto: usize) -> (r: MpsseCmdBuilder)
    requires
        upto <= data@.len(),
        upto <= 65536,
    ensures
        cmd_bytes(r) == if upto == 0 {
            cmd_bytes(b)
        } else {
            cmd_bytes(b) + len_header(0x39, upto as nat) + data@.take(upto as int)
        },
{
    b.clock_data(ClockData::LsbPosIn, &data[..upto])
}

/// Relies on `MpsseCmdBuilder::clock_bits_out` (opcode 0x1B, bits out
/// on the negative edge, LSB first): appends the opcode, the bit count
/// less one, and the data byte; appends nothing when `len` is zero;
/// panics when `len` exceeds 8.
#[verifier::external_body]
fn builder_clock_bits_out(b: MpsseCmdBuilder, data: u8, len: u8) -> (r: MpsseCmdBuilder)
    requires
        len <= 8,
    ensures
        cmd_bytes(r) == if len == 0 {
            cmd_bytes(b)
        } else {
            cmd_bytes(b) + seq![0x1Bu8, (len - 1) as u8, data]
        },
{
    b.clock_bits_out(ClockBitsOut::LsbNeg, data, len)
}

/// Relies on `MpsseCmdBuilder::clock_bits` (opcode 0x3B, bits out on
/// the negative edge and in on the positive edge, LSB first): encoded
/// as `clock_bits_out`, with TDO captured on every clock.
#[verifier::external_body]
fn builder_clock_bits(b: MpsseCmdBuilder, data: u8, len: u8) -> (r: MpsseCmdBuilder)
    requires
        len <= 8,
    ensures
        cmd_bytes(r) == if len == 0 {
            cmd_bytes(b)
        } else {
            cmd_bytes(b) + seq![0x3Bu8, (len - 1) as u8, data]
        },
{
    b.clock_bits(ClockBits::LsbPosIn, data, len)
}

/// One hardware-sized piece of a TMS sequence: `len` TMS bits, in
/// 1..=`TMS_CHUNK_BITS`, packed least-significant-bit-first in `pattern`.
#[derive(Clone, Copy, Debug, PartialEq, Eq, Structural)]
pub struct TmsChunk {
    pub pattern: u8,
    pub len: u8,
}

/// A well-formed chunk: nonempty, within the per-command bit limit, and
/// with no bits above its length.
pub open spec fn chunk_wf(c: TmsChunk) -> bool {
    &&& 1 <= c.len <= TMS_CHUNK_BITS
    &&& c.pattern < (1u8 << c.len)
}

/// The TMS bits a chunk clocks, in order.
pub open spec fn chunk_bits(c: TmsChunk) -> Seq<bool> {
    Seq::new(c.len as nat, |i: int| bit_at(c.pattern, i as u8))
}

/// The TMS bits a chunk list clocks, in order.
pub open spec fn chunks_bits(cs: Seq<TmsChunk>) -> Seq<bool>
    decreases cs.len(),
{
    if cs.len() == 0 {
        Seq::empty()
    } else {
        chunk_bits(cs[0]) + chunks_bits(cs.drop_first())
    }
}

/// Appending a chunk appends its bits.
pub proof fn lemma_chunks_bits_push(cs: Seq<TmsChunk>, c: TmsChunk)
    ensures
        chunks_bits(cs.push(c)) == chunks_bits(cs) + chunk_bits(c),
    decreases cs.len(),
{
    if cs.len() == 0 {
        assert(cs.push(c)[0] == c);
        assert(cs.push(c).drop_first() =~= Seq::<TmsChunk>::empty());
        assert(chunks_bits(Seq::<TmsChunk>::empty()) == Seq::<bool>::empty());
        assert(chunks_bits(cs) == Seq::<bool>::empty());
        assert(chunk_bits(c) + Seq::<bool>::empty() =~= chunk_bits(c));
        assert(Seq::<bool>::empty() + chunk_bits(c) =~= chunk_bits(c));
    } else {
        assert(cs.push(c).drop_first() =~= cs.drop_first().push(c));
        lemma_chunks_bits_push(cs.drop_first(), c);
        assert(cs.push(c)[0] == cs[0]);
        assert(chunk_bits(cs[0]) + (chunks_bits(cs.drop_first()) + chunk_bits(c)) =~= (chunk_bits(
            cs[0],
        ) + chunks_bits(cs.drop_first())) + chunk_bits(c));
    }
}

/// Split a TMS sequence into hardware-sized chunks, zero meaning low
/// and any other value high.  The chunks clock exactly the given
/// sequence: splitting changes nothing the target sees.
pub fn chunk_tms(tms: &[usize]) -> (r: Vec<TmsChunk>)
    ensures
        forall|i: int| 0 <= i < r@.len() ==> chunk_wf(#[trigger] r@[i]),
        chunks_bits(r@) == tms_bools(tms@),
        r@.len() == (tms@.len() + 6) / 7,
        forall|i: int| 0 <= i < r@.len() - 1 ==> (#[trigger] r@[i]).len == 7,
{
    let ghost all = tms_bools(tms@);
    let mut chunks: Vec<TmsChunk> = Vec::new();
    let mut buf: u8 = 0;
    let mut count: u8 = 0;
    let mut i: usize = 0;
    proof {
        assert(0u8 < (1u8 << 0u8)) by (bit_vector);
        assert(chunks_bits(chunks@) + Seq::new(0, |j: int| bit_at(0u8, j as u8)) =~= all.take(
            0,
        ));
    }
    while i < tms.len()
        invariant
            i <= tms@.len(),
            all == tms_bools(tms@),
            count < 7,
            buf < (1u8 << count),
            chunks@.len() * 7 + count == i,
            forall|j: int| 0 <= j < chunks@.len() ==> chunk_wf(#[trigger] chunks@[j]),
            forall|j: int| 0 <= j < chunks@.len() ==> (#[trigger] chunks@[j]).len == 7,
            chunks_bits(chunks@) + Seq::new(count as nat, |j: int| bit_at(buf, j as u8))
                =~= all.take(i as int),
        decreases tms@.len() - i,
    {
        let ghost part = Seq::new(count as nat, |j: int| bit_at(buf, j as u8));
        let high = tms[i] != 0;
        let newbuf: u8 = if high {
            buf | (1u8 << count)
        } else {
            buf
        };
        proof {
            let c = count;
            let b0 = buf;
            assert((1u8 << c) >= 1 && (b0 | (1u8 << c)) < (1u8 << (c + 1)) && (1u8 << (c + 1))
                <= (1u8 << 7) && b0 < (1u8 << (c + 1))) by (bit_vector)
                requires
                    c < 7,
                    b0 < (1u8 << c),
            ;
            assert(forall|j: u8| j < c ==> bit_at(b0 | (1u8 << c), j) == bit_at(b0, j))
                by (bit_vector)
                requires
                    c < 7,
            ;
            assert(bit_at(b0 | (1u8 << c), c)) by (bit_vector)
                requires
                    c < 7,
            ;
            assert(!bit_at(b0, c)) by (bit_vector)
                requires
                    c < 7,
                    b0 < (1u8 << c),
            ;
            assert(Seq::new((c + 1) as nat, |j: int| bit_at(newbuf, j as u8)) =~= part.push(
                high,
            ));
            assert(all.take(i + 1) =~= all.take(i as int).push(all[i as int]));
            assert(chunks_bits(chunks@) + part.push(high) =~= (chunks_bits(chunks@)
                + part).push(high));
        }
        buf = newbuf;
        count = count + 1;
        if count == 7 {
            let c = TmsChunk { pattern: buf, len: count };
            proof {
                lemma_chunks_bits_push(chunks@, c);
                assert(chunk_bits(c) =~= Seq::new(7, |j: int| bit_at(buf, j as u8)));
                assert(chunks_bits(chunks@.push(c)) + Seq::new(0, |j: int| bit_at(0u8, j as u8))
                    =~= chunks_bits(chunks@) + Seq::new(7, |j: int| bit_at(buf, j as u8)));
            }
            chunks.push(c);
            buf = 0;
            count = 0;
            proof {
                assert(0u8 < (1u8 << 0u8)) by (bit_vector);
            }
        }
        i = i + 1;
    }
    proof {
        assert(all.take(tms@.len() as int) =~= all);
        let nn = tms@.len() as int;
        let ll = chunks@.len() as int;
        let cc = count as int;
        assert((nn + 6) / 7 == if cc > 0 {
            ll + 1
        } else {
            ll
        }) by (nonlinear_arith)
            requires
                ll * 7 + cc == nn,
                0 <= cc < 7,
                ll >= 0,
        ;
    }
    if count > 0 {
        let c = TmsChunk { pattern: buf, len: count };
        proof {
            lemma_chunks_bits_push(chunks@, c);
            assert(chunk_bits(c) =~= Seq::new(count as nat, |j: int| bit_at(buf, j as u8)));
            assert(chunks_bits(chunks@.push(c)) =~= chunks_bits(chunks@) + Seq::new(
                count as nat,
                |j: int| bit_at(buf, j as u8),
            ));
        }
        chunks.push(c);
    } else {
        proof {
            assert(chunks_bits(chunks@) + Seq::new(0, |j: int| bit_at(0u8, j as u8))
                =~= chunks_bits(chunks@));
        }
    }
    chunks
}

/// The three command bytes that clock one TMS chunk with TDI held at
/// `tdo`.
pub open spec fn chunk_cmd_bytes(c: TmsChunk, tdo: bool) -> Seq<u8>
    recommends
        chunk_wf(c),
{
    seq![
        0x4Bu8,
        (c.len - 1) as u8,
        if tdo {
            c.pattern | 0x80
        } else {
            c.pattern
        },
    ]
}

/// The command bytes that clock a whole chunk list, in order.
pub open spec fn chunks_cmd_bytes(cs: Seq<TmsChunk>, tdo: bool) -> Seq<u8>
    decreases cs.len(),
{
    if cs.len() == 0 {
        Seq::empty()
    } else {
        chunk_cmd_bytes(cs[0], tdo) + chunks_cmd_bytes(cs.drop_first(), tdo)
    }
}

/// Appending a chunk appends its command bytes.
pub proof fn lemma_chunks_cmd_bytes_push(cs: Seq<TmsChunk>, c: TmsChunk, tdo: bool)
    ensures
        chunks_cmd_bytes(cs.push(c), tdo) == chunks_cmd_bytes(cs, tdo) + chunk_cmd_bytes(c, tdo),
    decreases cs.len(),
{
    if cs.len() == 0 {
        assert(cs.push(c)[0] == c);
        assert(cs.push(c).drop_first() =~= Seq::<TmsChunk>::empty());
        assert(chunks_cmd_bytes(Seq::<TmsChunk>::empty(), tdo) == Seq::<u8>::empty());
        assert(chunks_cmd_bytes(cs, tdo) == Seq::<u8>::empty());
        assert(chunk_cmd_bytes(c, tdo) + Seq::<u8>::empty() =~= chunk_cmd_bytes(c, tdo));
        assert(Seq::<u8>::empty() + chunk_cmd_bytes(c, tdo) =~= chunk_cmd_bytes(c, tdo));
    } else {
        assert(cs.push(c).drop_first() =~= cs.drop_first().push(c));
        lemma_chunks_cmd_bytes_push(cs.drop_first(), c, tdo);
        assert(cs.push(c)[0] == cs[0]);
        assert(chunk_cmd_bytes(cs[0], tdo) + (chunks_cmd_bytes(cs.drop_first(), tdo)
            + chunk_cmd_bytes(c, tdo)) =~= (chunk_cmd_bytes(cs[0], tdo) + chunks_cmd_bytes(
            cs.drop_first(),
            tdo,
        )) + chunk_cmd_bytes(c, tdo));
    }
}

/// Encode a chunk list as MPSSE TMS commands, TDI held at `tdo`
/// throughout.
pub fn tms_commands(chunks: &Vec<TmsChunk>, tdo: bool) -> (r: MpsseCmdBuilder)
    requires
        forall|i: int| 0 <= i < chunks@.len() ==> chunk_wf(#[trigger] chunks@[i]),
    ensures
        cmd_bytes(r) == chunks_cmd_bytes(chunks@, tdo),
{
    let mut b = builder_new();
    proof {
        assert(chunks_cmd_bytes(chunks@.take(0), tdo) =~= Seq::<u8>::empty());
    }
    let mut i: usize = 0;
    while i < chunks.len()
        invariant
            i <= chunks@.len(),
            forall|j: int| 0 <= j < chunks@.len() ==> chunk_wf(#[trigger] chunks@[j]),
            cmd_bytes(b) == chunks_cmd_bytes(chunks@.take(i as int), tdo),
        decreases chunks@.len() - i,
    {
        let c = chunks[i];
        proof {
            let l = c.len;
            assert((1u8 << l) <= 0x80) by (bit_vector)
                requires
                    l <= 7,
            ;
            assert(chunks@.take(i + 1) =~= chunks@.take(i as int).push(c));
            lemma_chunks_cmd_bytes_push(chunks@.take(i as int), c, tdo);
        }
        b = builder_clock_tms_out(b, c.pattern, tdo, c.len);
        i = i + 1;
    }
    proof {
        assert(chunks@.take(chunks@.len() as int) =~= chunks@);
    }
    b
}

/// Encode a whole `change_mode` call: split the TMS sequence into
/// hardware-sized chunks and encode each as one TMS command.  The
/// returned chunks clock exactly the given sequence, and the builder
/// holds exactly their commands.
pub fn change_mode_commands(tms: &[usize], tdo: bool) -> (r: (Vec<TmsChunk>, MpsseCmdBuilder))
    ensures
        forall|i: int| 0 <= i < r.0@.len() ==> chunk_wf(#[trigger] r.0@[i]),
        chunks_bits(r.0@) == tms_bools(tms@),
        r.0@.len() == (tms@.len() + 6) / 7,
        forall|i: int| 0 <= i < r.0@.len() - 1 ==> (#[trigger] r.0@[i]).len == 7,
        cmd_bytes(r.1) == chunks_cmd_bytes(r.0@, tdo),
{
    let chunks = chunk_tms(tms);
    let b = tms_commands(&chunks, tdo);
    (chunks, b)
}

/// The TAP state reached by clocking each chunk of a list in turn, as
/// the hardware does.
pub open spec fn walk_chunks(s: crate::tap::TapState, cs: Seq<TmsChunk>) -> crate::tap::TapState
    decreases cs.len(),
{
    if cs.len() == 0 {
        s
    } else {
        walk_chunks(crate::tap::tap_walk(s, chunk_bits(cs[0])), cs.drop_first())
    }
}

/// Chunk boundaries are transparent: clocking a chunk list leaves the
/// TAP exactly where clocking its bits in one unlimited command would.
/// With the bits equality `chunk_tms` ensures, the chunked encoding of
/// a TMS sequence reaches the same final state as the single-shot
/// reference model.
pub proof fn lemma_chunks_walk(s: crate::tap::TapState, cs: Seq<TmsChunk>)
    ensures
        walk_chunks(s, cs) == crate::tap::tap_walk(s, chunks_bits(cs)),
    decreases cs.len(),
{
    if cs.len() == 0 {
        assert(chunks_bits(cs) =~= Seq::<bool>::empty());
    } else {
        crate::tap::lemma_walk_append(s, chunk_bits(cs[0]), chunks_bits(cs.drop_first()));
        lemma_chunks_walk(crate::tap::tap_walk(s, chunk_bits(cs[0])), cs.drop_first());
    }
}

/// The last data bit of a shift buffer: bit `bits - 1` of its final
/// byte, the one delivered on the TMS command that leaves Shift.
pub open spec fn last_data_bit(data: Seq<u8>, bits: u8) -> bool
    recommends
        data.len() >= 1,
        1 <= bits <= 8,
{
    bit_at(data.last(), (bits - 1) as u8)
}

/// The TMS command bytes that deliver the last data bit while leaving
/// the Shift state: one TMS-high edge to Exit1, and a further TMS-low
/// edge to Pause when `pause_after` is set, TDI holding the data bit.
pub open spec fn exit_cmd_bytes(op: u8, last_bit: bool, pause_after: bool) -> Seq<u8> {
    seq![
        op,
        if pause_after {
            1u8
        } else {
            0u8
        },
        if last_bit {
            0x81u8
        } else {
            0x01u8
        },
    ]
}

/// The TMS bits the exit command of a shift clocks: one high edge that
/// leaves the Shift state, and a further low edge into Pause when
/// `pause_after` is set.
pub open spec fn exit_tms_bits(pause_after: bool) -> Seq<bool> {
    if pause_after {
        seq![true, false]
    } else {
        seq![true]
    }
}

/// The exit command of `write_cmd_bytes` and `read_write_cmd_bytes`
/// carries TMS pattern 0x01 over one or two clocks: those bits are
/// exactly the tail of `shift_tms`, and from a Shift state they walk
/// the TAP to the matching Exit1 state, or to the matching Pause state
/// when `pause_after` is set.
pub proof fn lemma_exit_command_walk(s: crate::tap::TapState, pause_after: bool)
    requires
        s == crate::tap::TapState::ShiftDR || s == crate::tap::TapState::ShiftIR,
    ensures
        exit_tms_bits(pause_after) == chunk_bits(
            TmsChunk {
                pattern: 0x01,
                len: if pause_after {
                    2
                } else {
                    1
                },
            },
        ),
        crate::tap::tap_walk(s, exit_tms_bits(pause_after)) == if s
            == crate::tap::TapState::ShiftDR {
            if pause_after {
                crate::tap::TapState::PauseDR
            } else {
                crate::tap::TapState::Exit1DR
            }
        } else {
            if pause_after {
                crate::tap::TapState::PauseIR
            } else {
                crate::tap::TapState::Exit1IR
            }
        },
{
    assert(bit_at(0x01u8, 0u8) && !bit_at(0x01u8, 1u8)) by (bit_vector);
    let c = TmsChunk {
        pattern: 0x01,
        len: if pause_after {
            2
        } else {
            1
        },
    };
    assert(exit_tms_bits(pause_after) =~= chunk_bits(c));
    crate::tap::lemma_walk_one(s, true);
    if pause_after {
        assert(exit_tms_bits(pause_after) =~= seq![true] + seq![false]);
        crate::tap::lemma_walk_append(s, seq![true], seq![false]);
        crate::tap::lemma_walk_one(crate::tap::tap_next(s, true), false);
    }
}

/// The command bytes of a `write_data` call: all bytes but the last as
/// one byte-clocking command, the first `bits - 1` bits of the last
/// byte as one bit-clocking command, and the final bit on the TMS
/// command that leaves Shift.
pub open spec fn write_cmd_bytes(data: Seq<u8>, bits: u8, pause_after: bool) -> Seq<u8>
    recommends
        data.len() >= 1,
        1 <= bits <= 8,
{
    let n = data.len();
    (if n > 1 {
        len_header(0x19, (n - 1) as nat) + data.take(n - 1)
    } else {
        Seq::<u8>::empty()
    }) + (if bits > 1 {
        seq![0x1Bu8, (bits - 2) as u8, data.last()]
    } else {
        Seq::<u8>::empty()
    }) + exit_cmd_bytes(0x4B, last_data_bit(data, bits), pause_after)
}

/// As `write_cmd_bytes`, with the capturing forms of each command, so
/// that every edge also reads TDO.
pub open spec fn read_write_cmd_bytes(data: Seq<u8>, bits: u8, pause_after: bool) -> Seq<u8>
    recommends
        data.len() >= 1,
        1 <= bits <= 8,
{
    let n = data.len();
    (if n > 1 {
        len_header(0x39, (n - 1) as nat) + data.take(n - 1)
    } else {
        Seq::<u8>::empty()
    }) + (if bits > 1 {
        seq![0x3Bu8, (bits - 2) as u8, data.last()]
    } else {
        Seq::<u8>::empty()
    }) + exit_cmd_bytes(0x6B, last_data_bit(data, bits), pause_after)
}

/// The command bytes of a `read_data` call: full bytes as one
/// byte-clocking command over ones, and any remainder as one
/// bit-clocking command over ones.
pub open spec fn read_cmd_bytes(bits: nat) -> Seq<u8>
    recommends
        1 <= bits <= 8 * 65536,
{
    (if bits / 8 > 0 {
        len_header(0x39, bits / 8) + Seq::new(bits / 8, |i: int| 0xffu8)
    } else {
        Seq::<u8>::empty()
    }) + (if bits % 8 > 0 {
        seq![0x3Bu8, ((bits % 8) - 1) as u8, 0xffu8]
    } else {
        Seq::<u8>::empty()
    })
}

/// Response bytes the adapter returns for a capturing shift: one per
/// full byte clocked, one for the sub-byte command when there is one,
/// and one for the TMS command.
pub open spec fn response_len(data_len: nat, bits: u8) -> nat
    recommends
        data_len >= 1,
        1 <= bits <= 8,
{
    (data_len - 1) as nat + (if bits > 1 {
        1nat
    } else {
        0nat
    }) + 1
}

/// Encode a `write_data` call.  The returned builder holds exactly
/// `write_cmd_bytes(..)`: in particular the last data bit travels as
/// the TDI value of the final TMS command, whose pattern walks the TAP
/// to Exit1, or on to Pause when `pause_after` is set.
pub fn write_commands(data: &[u8], bits: u8, pause_after: bool) -> (r: MpsseCmdBuilder)
    requires
        1 <= data@.len() <= DATA_CHUNK_BYTES,
        1 <= bits <= 8,
    ensures
        cmd_bytes(r) == write_cmd_bytes(data@, bits, pause_after),
{
    let n = data.len();
    let mut b = builder_new();
    b = builder_clock_data_out(b, data, n - 1);
    let last = data[n - 1];
    if bits > 1 {
        b = builder_clock_bits_out(b, last, bits - 1);
    }
    let kb = bits - 1;
    let last_bit = (last >> kb) & 1 != 0;
    let tms_len: u8 = if pause_after {
        2
    } else {
        1
    };
    b = builder_clock_tms_out(b, 0x01, last_bit, tms_len);
    proof {
        let lastv = last;
        let kbb = kb;
        assert(((lastv >> kbb) & 1 != 0) == bit_at(lastv, kbb)) by (bit_vector);
        assert(data@.last() == data@[data@.len() - 1]);
        assert(last_bit == last_data_bit(data@, bits));
        assert(0x01u8 | 0x80u8 == 0x81u8) by (bit_vector);
        assert(cmd_bytes(b) =~= write_cmd_bytes(data@, bits, pause_after));
    }
    b
}

/// Encode a `read_data` call and give the number of response bytes the
/// adapter will return, one per byte of the packed result.
pub fn read_commands(bits: usize) -> (r: (MpsseCmdBuilder, usize))
    requires
        1 <= bits <= 8 * DATA_CHUNK_BYTES,
    ensures
        r.1 == bytes_for(bits as nat),
        cmd_bytes(r.0) == read_cmd_bytes(bits as nat),
{
    let full = bits / 8;
    let k = bits % 8;
    let mut b = builder_new();
    let mut expected = full;
    let ones = crate::bits::ones_vec(full);
    b = builder_clock_data(b, ones.as_slice(), full);
    if k > 0 {
        b = builder_clock_bits(b, 0xff, k as u8);
        expected = expected + 1;
    }
    proof {
        assert(ones@.take(full as int) =~= Seq::new(bits as nat / 8, |i: int| 0xffu8));
        assert(cmd_bytes(b) =~= read_cmd_bytes(bits as nat));
    }
    (b, expected)
}

/// Encode a `read_write_data` call and give the number of raw response
/// bytes to expect before decoding.
pub fn read_write_commands(data: &[u8], bits: u8, pause_after: bool) -> (r: (
    MpsseCmdBuilder,
    usize,
))
    requires
        1 <= data@.len() <= DATA_CHUNK_BYTES,
        1 <= bits <= 8,
    ensures
        cmd_bytes(r.0) == read_write_cmd_bytes(data@, bits, pause_after),
        r.1 == response_len(data@.len(), bits),
{
    let n = data.len();
    let mut b = builder_new();
    b = builder_clock_data(b, data, n - 1);
    let mut expected = n - 1;
    let last = data[n - 1];
    if bits > 1 {
        b = builder_clock_bits(b, last, bits - 1);
        expected = expected + 1;
    }
    let kb = bits - 1;
    let last_bit = (last >> kb) & 1 != 0;
    let tms_len: u8 = if pause_after {
        2
    } else {
        1
    };
    b = builder_clock_tms(b, 0x01, last_bit, tms_len);
    expected = expected + 1;
    proof {
        let lastv = last;
        let kbb = kb;
        assert(((lastv >> kbb) & 1 != 0) == bit_at(lastv, kbb)) by (bit_vector);
        assert(data@.last() == data@[data@.len() - 1]);
        assert(last_bit == last_data_bit(data@, bits));
        assert(0x01u8 | 0x80u8 == 0x81u8) by (bit_vector);
        assert(cmd_bytes(b) =~= read_write_cmd_bytes(data@, bits, pause_after));
    }
    (b, expected)
}

/// The final byte of a decoded capturing shift: the `bits - 1` bits the
/// sub-byte command captured, moved down from the top of their response
/// byte, with the bit the TMS command captured placed above them.  The
/// TMS response byte holds its first captured bit at bit 7 after one
/// clock, or at bit 6 after the two clocks of a pause.
pub open spec fn assembled_last_byte(resp: Seq<u8>, data_len: nat, bits: u8, pause_after: bool)
    -> u8
    recommends
        data_len >= 1,
        1 <= bits <= 8,
        resp.len() == response_len(data_len, bits),
{
    let part = if bits > 1 {
        resp[data_len - 1] >> ((9 - bits) as u8)
    } else {
        0u8
    };
    let tms_byte = resp.last();
    let tms_bit = if pause_after {
        (tms_byte >> 6) & 1
    } else {
        (tms_byte >> 7) & 1
    };
    part | (tms_bit << ((bits - 1) as u8))
}

/// Decode the raw response of a capturing shift into the packed result
/// buffer: the full bytes unchanged, then the assembled final byte,
/// with the unused high bits zero.
pub fn decode_shift_response(resp: &[u8], data_len: usize, bits: u8, pause_after: bool) -> (r: Vec<
    u8,
>)
    requires
        data_len >= 1,
        1 <= bits <= 8,
        resp@.len() == response_len(data_len as nat, bits),
    ensures
        r@.len() == data_len,
        forall|j: int| 0 <= j < data_len - 1 ==> r@[j] == resp@[j],
        r@[data_len - 1] == assembled_last_byte(resp@, data_len as nat, bits, pause_after),
        tail_zeroed(r@, total_bits(data_len as nat, bits)),
{
    let mut v: Vec<u8> = Vec::new();
    let mut i: usize = 0;
    while i < data_len - 1
        invariant
            data_len >= 1,
            data_len - 1 < resp@.len(),
            i <= data_len - 1,
            v@.len() == i,
            forall|j: int| 0 <= j < i ==> v@[j] == resp@[j],
        decreases data_len - 1 - i,
    {
        v.push(resp[i]);
        i = i + 1;
    }
    let part: u8 = if bits > 1 {
        resp[data_len - 1] >> (9 - bits)
    } else {
        0
    };
    let tms_byte = resp[resp.len() - 1];
    let tms_bit: u8 = if pause_after {
        (tms_byte >> 6) & 1
    } else {
        (tms_byte >> 7) & 1
    };
    let lastb: u8 = part | (tms_bit << (bits - 1));
    v.push(lastb);
    proof {
        let bb = bits;
        let p0 = resp@[data_len - 1];
        let tb = tms_byte;
        let t0 = tms_bit;
        assert(((tb >> 6) & 1) <= 1 && ((tb >> 7) & 1) <= 1) by (bit_vector);
        assert(t0 <= 1);
        if bits < 8 {
            let lb = lastb;
            assert(lb >> bb == 0) by (bit_vector)
                requires
                    1 <= bb < 8,
                    lb == (if bb > 1 {
                        p0 >> ((9 - bb) as u8)
                    } else {
                        0u8
                    }) | (t0 << ((bb - 1) as u8)),
                    t0 <= 1,
            ;
            let nn = data_len as int;
            let total = total_bits(data_len as nat, bits) as int;
            assert(total / 8 == nn - 1 && total % 8 == bb as int) by (nonlinear_arith)
                requires
                    total == 8 * (nn - 1) + bb,
                    nn >= 1,
                    1 <= bb < 8,
            ;
        } else {
            let nn = data_len as int;
            let total = total_bits(data_len as nat, bits) as int;
            assert(total % 8 == 0) by (nonlinear_arith)
                requires
                    total == 8 * (nn - 1) + 8,
                    nn >= 1,
            ;
        }
    }
    v
}

} // verus!
