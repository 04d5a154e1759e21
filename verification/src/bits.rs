//! The bit cursor: exposes a byte stream as an addressable sequence of bits,
//! most significant bit of each byte first. Supports peeking a window of up
//! to 16 bits without consuming, consuming, and expecting an exact pattern.
use vstd::prelude::*;

verus! {

/// The `i`-th bit of one byte, counting the most significant bit as bit 0.
pub open spec fn byte_bit(b: u8, i: int) -> bool {
    (b >> ((7 - i) as u8)) & 1 == 1
}

/// Number of bits a byte stream holds.
pub open spec fn stream_len(data: Seq<u8>) -> int {
    data.len() * 8int
}

/// The `i`-th bit of a byte stream, most significant bit of each byte first.
pub open spec fn stream_bit(data: Seq<u8>, i: int) -> bool {
    byte_bit(data[i / 8], i % 8)
}

/// The value of the `n` bits starting at `pos`, read most significant first.
pub open spec fn bits_val(data: Seq<u8>, pos: int, n: nat) -> nat
    decreases n,
{
    if n == 0 {
        0
    } else {
        2 * bits_val(data, pos, (n - 1) as nat) + (if stream_bit(data, pos + n - 1) {
            1nat
        } else {
            0nat
        })
    }
}

pub open spec fn two_pow(n: nat) -> nat
    decreases n,
{
    if n == 0 {
        1
    } else {
        2 * two_pow((n - 1) as nat)
    }
}

pub proof fn lemma_two_pow_mono(a: nat, b: nat)
    requires
        a <= b,
    ensures
        two_pow(a) <= two_pow(b),
    decreases b,
{
    if a < b {
        lemma_two_pow_mono(a, (b - 1) as nat);
    }
}

/// An `n`-bit window always holds a value below 2^n.
pub proof fn lemma_bits_val_bound(data: Seq<u8>, pos: int, n: nat)
    ensures
        bits_val(data, pos, n) < two_pow(n),
    decreases n,
{
    if n > 0 {
        lemma_bits_val_bound(data, pos, (n - 1) as nat);
    }
}

pub proof fn lemma_two_pow_16()
    ensures
        two_pow(16) == 65536,
{
    reveal_with_fuel(two_pow, 17);
}

/// A window of at most 16 bits holds a value that fits in a `u16`.
pub proof fn lemma_bits_val_fits_u16(data: Seq<u8>, pos: int, n: nat)
    requires
        n <= 16,
    ensures
        bits_val(data, pos, n) < 65536,
{
    lemma_bits_val_bound(data, pos, n);
    lemma_two_pow_mono(n, 16);
    lemma_two_pow_16();
}

/// Two streams that agree on the bits of a window agree on its value.
pub proof fn lemma_bits_val_frame(d1: Seq<u8>, d2: Seq<u8>, pos: int, n: nat)
    requires
        forall|i: int| pos <= i < pos + n ==> stream_bit(d1, i) == stream_bit(d2, i),
    ensures
        bits_val(d1, pos, n) == bits_val(d2, pos, n),
    decreases n,
{
    if n > 0 {
        lemma_bits_val_frame(d1, d2, pos, (n - 1) as nat);
    }
}

/// A cursor over a byte stream, addressing it bit by bit.
pub struct BitCursor {
    pub data: Vec<u8>,
    pub pos: usize,
}

impl BitCursor {
    /// The cursor position never runs past the end of the stream, and the
    /// stream's bit count fits in a `usize`.
    pub open spec fn wf(&self) -> bool {
        &&& 8 * self.data@.len() <= usize::MAX
        &&& self.pos <= 8 * self.data@.len()
    }

    pub open spec fn bit_len(&self) -> int {
        stream_len(self.data@)
    }

    pub fn new(data: Vec<u8>) -> (r: BitCursor)
        requires
            8 * data@.len() <= usize::MAX,
        ensures
            r.wf(),
            r.data@ == data@,
            r.pos == 0,
    {
        BitCursor { data, pos: 0 }
    }

    /// Return the next `n` bits as a right-aligned integer without advancing,
    /// or nothing when fewer than `n` bits remain.
    pub fn peek(&self, n: u16) -> (r: Option<u16>)
        requires
            self.wf(),
            n <= 16,
        ensures
            self.pos + n <= self.bit_len() ==> r == Some(
                (bits_val(self.data@, self.pos as int, n as nat) as u16),
            ),
            self.pos + n > self.bit_len() ==> r == None::<u16>,
    {
        let total: usize = 8 * self.data.len();
        if n as usize > total - self.pos {
            return None;
        }
        let mut v: u16 = 0;
        let mut i: usize = 0;
        while i < n as usize
            invariant
                self.wf(),
                i <= n,
                n <= 16,
                self.pos + n <= 8 * self.data@.len(),
                v as nat == bits_val(self.data@, self.pos as int, i as nat),
            decreases n as int - i,
        {
            proof {
                lemma_bits_val_bound(self.data@, self.pos as int, i as nat);
                lemma_two_pow_mono(i as nat, 15);
                reveal_with_fuel(two_pow, 17);
            }
            let bitpos: usize = self.pos + i;
            let byte: u8 = self.data[bitpos / 8];
            let shift: u8 = (7 - (bitpos % 8)) as u8;
            let bit: u8 = (byte >> shift) & 1;
            proof {
                assert((byte >> shift) & 1 == 0 || (byte >> shift) & 1 == 1) by (bit_vector);
                assert(byte_bit(self.data@[bitpos as int / 8], bitpos as int % 8) == (bit == 1));
            }
            v = 2 * v + bit as u16;
            i = i + 1;
        }
        proof {
            lemma_bits_val_fits_u16(self.data@, self.pos as int, n as nat);
        }
        Some(v)
    }

    /// Advance the cursor by `n` bits.
    pub fn consume(&mut self, n: u16)
        requires
            old(self).wf(),
            old(self).pos + n <= old(self).bit_len(),
        ensures
            final(self).wf(),
            final(self).data@ == old(self).data@,
            final(self).pos == old(self).pos + n,
    {
        self.pos = self.pos + n as usize;
    }

    /// Peek `len` bits; when they equal `pattern`, consume them and report
    /// the match, otherwise leave the cursor where it was.
    pub fn expect(&mut self, pattern: u16, len: u16) -> (r: bool)
        requires
            old(self).wf(),
            len <= 16,
        ensures
            final(self).wf(),
            final(self).data@ == old(self).data@,
            r == (old(self).pos + len <= old(self).bit_len() && bits_val(
                old(self).data@,
                old(self).pos as int,
                len as nat,
            ) == pattern),
            r ==> final(self).pos == old(self).pos + len,
            !r ==> final(self).pos == old(self).pos,
    {
        proof {
            lemma_bits_val_fits_u16(self.data@, self.pos as int, len as nat);
        }
        match self.peek(len) {
            Some(v) => {
                if v == pattern {
                    self.consume(len);
                    true
                } else {
                    false
                }
            },
            None => false,
        }
    }
}

} // verus!
