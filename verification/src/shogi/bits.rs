//! LSB-first bit reading and writing over a byte buffer.

use vstd::prelude::*;

verus! {

/// Bit `i` of `data`, least significant bit of each byte first; bits past the
/// end read as `false`.
pub open spec fn spec_bit(data: Seq<u8>, i: int) -> bool {
    if 0 <= i && i < data.len() * 8 {
        (data[i / 8] >> ((i % 8) as u8)) & 1u8 == 1u8
    } else {
        false
    }
}

/// `2^n`.
pub open spec fn spec_pow2(n: nat) -> nat
    decreases n,
{
    if n == 0 {
        1
    } else {
        2 * spec_pow2((n - 1) as nat)
    }
}

/// Unsigned value of the `n` bits at `p`, first bit least significant.
pub open spec fn spec_bits(data: Seq<u8>, p: int, n: nat) -> nat
    decreases n,
{
    if n == 0 {
        0
    } else {
        spec_bits(data, p, (n - 1) as nat) + if spec_bit(data, p + n - 1) {
            spec_pow2((n - 1) as nat)
        } else {
            0
        }
    }
}

pub proof fn lemma_bits_bound(data: Seq<u8>, p: int, n: nat)
    ensures
        spec_bits(data, p, n) < spec_pow2(n),
    decreases n,
{
    if n > 0 {
        lemma_bits_bound(data, p, (n - 1) as nat);
    }
}

/// Reader over a byte buffer with a bit cursor.
pub struct BitReader<'a> {
    pub data: &'a [u8],
    pub cursor: usize,
}

impl<'a> BitReader<'a> {
    pub fn new(data: &'a [u8]) -> (r: BitReader<'a>)
        ensures
            r.data@ == data@,
            r.cursor == 0,
    {
        BitReader { data, cursor: 0 }
    }

    /// Reads the bit under the cursor (`false` past the end) and advances.
    pub fn read_bit(&mut self) -> (r: bool)
        requires
            old(self).cursor < usize::MAX,
        ensures
            r == spec_bit(old(self).data@, old(self).cursor as int),
            final(self).cursor == old(self).cursor + 1,
            final(self).data@ == old(self).data@,
    {
        let byte_idx = self.cursor / 8;
        let bit_idx = (self.cursor % 8) as u8;
        let r = if byte_idx < self.data.len() {
            (self.data[byte_idx] >> bit_idx) & 1u8 == 1u8
        } else {
            false
        };
        self.cursor = self.cursor + 1;
        r
    }

    /// Reads `n` bits, first bit least significant.
    pub fn read_bits(&mut self, n: usize) -> (r: u32)
        requires
            n <= 8,
            old(self).cursor + n < usize::MAX,
        ensures
            r == spec_bits(old(self).data@, old(self).cursor as int, n as nat),
            final(self).cursor == old(self).cursor + n,
            final(self).data@ == old(self).data@,
    {
        let ghost start = self.cursor as int;
        let mut value: u32 = 0;
        let mut weight: u32 = 1;
        let mut i: usize = 0;
        while i < n
            invariant
                i <= n,
                n <= 8,
                self.cursor == start + i,
                start + n < usize::MAX,
                self.data@ == old(self).data@,
                value == spec_bits(self.data@, start, i as nat),
                weight == spec_pow2(i as nat),
                weight <= 256,
                value < weight,
            decreases n - i,
        {
            proof {
                lemma_bits_bound(self.data@, start, i as nat);
            }
            let b = self.read_bit();
            if b {
                value = value + weight;
            }
            assert(spec_pow2((i + 1) as nat) == 2 * spec_pow2(i as nat));
            proof {
                lemma_pow2_le(i as nat + 1, 8);
                lemma_pow2_8();
            }
            weight = weight * 2;
            i = i + 1;
            assert(value == spec_bits(self.data@, start, i as nat));
            assert(value < weight) by {
                lemma_bits_bound(self.data@, start, i as nat);
            }
        }
        value
    }
}

pub proof fn lemma_pow2_8()
    ensures
        spec_pow2(8) == 256,
{
    reveal_with_fuel(spec_pow2, 9);
}

pub proof fn lemma_pow2_le(a: nat, b: nat)
    requires
        a <= b,
    ensures
        spec_pow2(a) <= spec_pow2(b),
    decreases b,
{
    if a < b {
        lemma_pow2_le(a, (b - 1) as nat);
    }
}


proof fn lemma_or_bit(x: u8, s: u8, t: u8)
    requires
        s < 8,
        t < 8,
    ensures
        ((x | (1u8 << s)) >> t) & 1u8 == 1u8 <==> (t == s || (x >> t) & 1u8 == 1u8),
{
    assert(((x | (1u8 << s)) >> t) & 1u8 == 1u8 <==> (t == s || (x >> t) & 1u8 == 1u8)) by (bit_vector)
        requires
            s < 8,
            t < 8,
    ;
}

/// Setting bit `k` of `data` sets that bit and leaves every other bit alone.
pub proof fn lemma_set_bit(data: Seq<u8>, k: int)
    requires
        0 <= k < data.len() * 8,
    ensures
        forall|i: int|
            #![trigger spec_bit(data.update(k / 8, data[k / 8] | (1u8 << ((k % 8) as u8))), i)]
            spec_bit(data.update(k / 8, data[k / 8] | (1u8 << ((k % 8) as u8))), i) == (i == k || spec_bit(data, i)),
{
    let nd = data.update(k / 8, data[k / 8] | (1u8 << ((k % 8) as u8)));
    assert forall|i: int| #[trigger] spec_bit(nd, i) == (i == k || spec_bit(data, i)) by {
        if 0 <= i < data.len() * 8 {
            if i / 8 == k / 8 {
                lemma_or_bit(data[k / 8], (k % 8) as u8, (i % 8) as u8);
                assert(i == k <==> i % 8 == k % 8);
            }
        }
    }
}

/// Writer of up to 256 bits into 32 bytes; bits past the 256th are dropped.
pub struct BitWriter {
    pub data: [u8; 32],
    pub cursor: usize,
}

/// `wr` holds the first 256 of the bits `w`: its cursor is past them, they
/// are its first bits, and every later bit is clear.
pub open spec fn spec_writer_holds(wr: BitWriter, w: Seq<bool>) -> bool {
    &&& wr.cursor == if w.len() < 256 {
        w.len() as int
    } else {
        256
    }
    &&& forall|i: int| 0 <= i < wr.cursor ==> spec_bit(wr.data@, i) == w[i]
    &&& forall|i: int| wr.cursor <= i < 256 ==> !spec_bit(wr.data@, i)
}

/// The low `n` bits of `v`, least significant first.
pub open spec fn spec_low_bits(v: u32, n: nat) -> Seq<bool> {
    Seq::new(n, |i: int| (v >> (i as u32)) & 1u32 == 1u32)
}

impl BitWriter {
    pub fn new() -> (r: BitWriter)
        ensures
            spec_writer_holds(r, Seq::empty()),
    {
        let r = BitWriter { data: [0u8; 32], cursor: 0 };
        assert(forall|t: u8| (0u8 >> t) & 1u8 == 0u8) by (bit_vector);
        assert forall|i: int| 0 <= i < 256 implies !spec_bit(r.data@, i) by {
            assert(r.data@[i / 8] == 0u8);
        }
        r
    }

    /// Appends bit `b` (dropped once 256 bits are written).
    pub fn write_bit(&mut self, b: bool, Ghost(w): Ghost<Seq<bool>>)
        requires
            spec_writer_holds(*old(self), w),
        ensures
            spec_writer_holds(*final(self), w.push(b)),
    {
        if self.cursor < 256 {
            let byte_idx = self.cursor / 8;
            let bit_idx = (self.cursor % 8) as u8;
            let ghost k = self.cursor as int;
            let ghost before = self.data@;
            if b {
                self.data[byte_idx] = self.data[byte_idx] | (1u8 << bit_idx);
                proof {
                    lemma_set_bit(before, k);
                    assert(self.data@ == before.update(k / 8, before[k / 8] | (1u8 << ((k % 8) as u8))));
                }
            }
            self.cursor = self.cursor + 1;
            assert forall|i: int| 0 <= i < self.cursor implies spec_bit(self.data@, i) == w.push(b)[i] by {
                if i < k {
                    assert(spec_bit(self.data@, i) == spec_bit(before, i));
                }
            }
            assert forall|i: int| self.cursor <= i < 256 implies !spec_bit(self.data@, i) by {
                assert(spec_bit(self.data@, i) == spec_bit(before, i));
            }
        }
    }

    /// Appends the low `n` bits of `v`, least significant first.
    pub fn write_bits(&mut self, v: u32, n: usize, Ghost(w): Ghost<Seq<bool>>)
        requires
            spec_writer_holds(*old(self), w),
            n <= 32,
        ensures
            spec_writer_holds(*final(self), w + spec_low_bits(v, n as nat)),
    {
        let mut i: usize = 0;
        while i < n
            invariant
                i <= n,
                n <= 32,
                spec_writer_holds(*self, w + spec_low_bits(v, i as nat)),
            decreases n - i,
        {
            let bit = (v >> (i as u32)) & 1u32 == 1u32;
            self.write_bit(bit, Ghost(w + spec_low_bits(v, i as nat)));
            assert((w + spec_low_bits(v, i as nat)).push(bit) =~= w + spec_low_bits(v, (i + 1) as nat));
            i = i + 1;
        }
    }

    pub fn bit_position(&self) -> (r: usize)
        ensures
            r == self.cursor,
    {
        self.cursor
    }
}

} // verus!
