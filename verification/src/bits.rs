//! Packing and unpacking of variable-length bit sequences in byte-aligned
//! storage, least-significant-bit-first, with explicit handling of the
//! final partial byte.

use vstd::prelude::*;

verus! {

/// Bit `i` of a byte, counting from the least significant bit.
pub open spec fn bit_at(b: u8, i: u8) -> bool
    recommends
        i < 8,
{
    (b >> i) & 1 == 1
}

/// The first `n` bits held by a byte buffer, least-significant-bit-first
/// within each byte, first byte first.
pub open spec fn seq_bits(bytes: Seq<u8>, n: nat) -> Seq<bool>
    recommends
        n <= 8 * bytes.len(),
{
    Seq::new(n, |i: int| bit_at(bytes[i / 8], (i % 8) as u8))
}

/// Data bits clocked by a register shift of a `data_len`-byte buffer whose
/// final byte contributes `bits` bits.
pub open spec fn total_bits(data_len: nat, bits: u8) -> nat
    recommends
        data_len >= 1,
{
    ((data_len - 1) * 8 + bits) as nat
}

/// Number of bytes needed to hold `bits` bits.
pub open spec fn bytes_for(bits: nat) -> nat {
    if bits % 8 == 0 {
        bits / 8
    } else {
        bits / 8 + 1
    }
}

/// Holds when the unused high-order bits of the final byte of an
/// `n`-bit buffer are all zero.
pub open spec fn tail_zeroed(bytes: Seq<u8>, n: nat) -> bool
    recommends
        bytes.len() == bytes_for(n),
{
    n % 8 == 0 || bytes[(n / 8) as int] >> ((n % 8) as u8) == 0
}

/// Executable form of `bytes_for`.
pub fn byte_len(bits: usize) -> (r: usize)
    ensures
        r == bytes_for(bits as nat),
{
    if bits % 8 == 0 {
        bits / 8
    } else {
        bits / 8 + 1
    }
}

/// A buffer of `n` bytes with every bit set, as clocked out on TDI
/// during a read.
pub fn ones_vec(n: usize) -> (r: Vec<u8>)
    ensures
        r@.len() == n,
        forall|j: int| 0 <= j < n ==> r@[j] == 0xffu8,
{
    let mut v: Vec<u8> = Vec::new();
    let mut i: usize = 0;
    while i < n
        invariant
            i <= n,
            v@.len() == i,
            forall|j: int| 0 <= j < i ==> v@[j] == 0xffu8,
        decreases n - i,
    {
        v.push(0xff);
        i = i + 1;
    }
    v
}

/// Normalize a raw captured buffer in place.  The adapter shifts captured
/// bits in from the top of each byte, so after a read of `bits` bits whose
/// final byte is partial, the valid bits of that byte sit in its high end:
/// they are moved down so that the result is right-aligned with its unused
/// high bits zero.
pub fn align_last_byte(raw: &mut Vec<u8>, bits: usize)
    requires
        bits > 0,
        old(raw)@.len() == bytes_for(bits as nat),
    ensures
        final(raw)@.len() == old(raw)@.len(),
        forall|j: int| 0 <= j < bits / 8 ==> final(raw)@[j] == old(raw)@[j],
        bits % 8 != 0 ==> final(raw)@[bits as int / 8] == old(raw)@[bits as int / 8] >> (
        (8 - bits % 8) as u8),
        tail_zeroed(final(raw)@, bits as nat),
{
    let k = bits % 8;
    if k != 0 {
        let last = raw.len() - 1;
        let v = raw[last];
        let shifted = v >> ((8 - k) as u8);
        raw.set(last, shifted);
        proof {
            let kk = k as u8;
            assert(shifted >> kk == 0) by (bit_vector)
                requires
                    1 <= kk < 8,
                    shifted == v >> ((8 - kk) as u8),
            ;
        }
    }
}

/// The packed buffer a read of `bits` bits yields when every captured bit
/// is one, as on a loopback with TDI held high: full bytes of ones and a
/// right-aligned partial final byte with its unused high bits zero.
pub fn ones_buffer(bits: usize) -> (r: Vec<u8>)
    requires
        bits > 0,
    ensures
        r@.len() == bytes_for(bits as nat),
        tail_zeroed(r@, bits as nat),
        forall|i: int| 0 <= i < bits ==> seq_bits(r@, bits as nat)[i],
{
    let k = bits % 8;
    let full = bits / 8;
    let mut v = ones_vec(full);
    if k != 0 {
        v.push(mask_low_bits(0xff, k as u8));
    }
    proof {
        assert(forall|j: u8| j < 8 ==> bit_at(0xffu8, j)) by (bit_vector);
        assert forall|i: int| 0 <= i < bits implies seq_bits(v@, bits as nat)[i] by {
            let j = i / 8;
            let m = i % 8;
            assert(0 <= m < 8);
            if j < full {
                assert(v@[j] == 0xffu8);
            } else {
                assert(j == full && m < k) by (nonlinear_arith)
                    requires
                        0 <= i < bits,
                        bits == 8 * full + k,
                        j == i / 8,
                        m == i % 8,
                        j >= full,
                        0 <= k < 8,
                ;
            }
        }
    }
    v
}

/// Copy a shift buffer, clearing the bits of the final byte that are not
/// among its `bits` significant bits.  The copy carries the same
/// `total_bits(..)` data bits as the original, right-aligned, with the
/// unused high bits of the final byte zero.
pub fn normalize_buffer(data: &[u8], bits: u8) -> (r: Vec<u8>)
    requires
        data@.len() >= 1,
        1 <= bits <= 8,
    ensures
        r@.len() == data@.len(),
        forall|j: int| 0 <= j < data@.len() - 1 ==> r@[j] == data@[j],
        tail_zeroed(r@, total_bits(data@.len(), bits)),
        seq_bits(r@, total_bits(data@.len(), bits)) == seq_bits(
            data@,
            total_bits(data@.len(), bits),
        ),
{
    let n = data.len();
    let mut v: Vec<u8> = Vec::new();
    let mut i: usize = 0;
    while i < n - 1
        invariant
            n == data@.len(),
            n >= 1,
            i <= n - 1,
            v@.len() == i,
            forall|j: int| 0 <= j < i ==> v@[j] == data@[j],
        decreases n - 1 - i,
    {
        v.push(data[i]);
        i = i + 1;
    }
    v.push(mask_low_bits(data[n - 1], bits));
    proof {
        let nn = n as int;
        let total = total_bits(data@.len(), bits) as int;
        assert(total == 8 * (nn - 1) + bits);
        if bits < 8 {
            assert(total / 8 == nn - 1 && total % 8 == bits as int) by (nonlinear_arith)
                requires
                    total == 8 * (nn - 1) + bits,
                    nn >= 1,
                    1 <= bits < 8,
            ;
        } else {
            assert(total % 8 == 0) by (nonlinear_arith)
                requires
                    total == 8 * (nn - 1) + 8,
                    nn >= 1,
            ;
        }
        assert forall|i2: int| 0 <= i2 < total implies #[trigger] seq_bits(v@, total as nat)[i2]
            == seq_bits(data@, total as nat)[i2] by {
            let j = i2 / 8;
            let m = i2 % 8;
            assert(0 <= m < 8 && j >= 0);
            assert(j < nn - 1 || (j == nn - 1 && m < bits)) by (nonlinear_arith)
                requires
                    0 <= i2 < total,
                    total == 8 * (nn - 1) + bits,
                    bits <= 8,
                    j == i2 / 8,
                    m == i2 % 8,
            ;
            if j < nn - 1 {
                assert(v@[j] == data@[j]);
            } else {
                assert(bit_at(v@[j], m as u8) == bit_at(data@[j], m as u8));
            }
        }
        assert(seq_bits(v@, total as nat) =~= seq_bits(data@, total as nat));
    }
    v
}

/// The low `bits` bits of a byte, with the rest cleared; `bits` is in 1..=8.
pub fn mask_low_bits(b: u8, bits: u8) -> (r: u8)
    requires
        1 <= bits <= 8,
    ensures
        forall|i: u8| i < bits ==> bit_at(r, i) == bit_at(b, i),
        bits < 8 ==> r >> bits == 0,
        bits == 8 ==> r == b,
{
    if bits == 8 {
        b
    } else {
        proof {
            let bb = bits;
            assert(1u16 << bb >= 1) by (bit_vector)
                requires
                    1 <= bb < 8,
            ;
        }
        let mask: u8 = ((1u16 << bits) - 1) as u8;
        let r = b & mask;
        proof {
            let bb = bits;
            assert(forall|i: u8|
                i < bb ==> ((b & (((1u16 << bb) - 1) as u8)) >> i) & 1 == (b >> i) & 1)
                by (bit_vector)
                requires
                    1 <= bb < 8,
            ;
            assert((b & (((1u16 << bb) - 1) as u8)) >> bb == 0) by (bit_vector)
                requires
                    1 <= bb < 8,
            ;
        }
        r
    }
}

} // verus!
