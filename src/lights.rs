//! The frame buffer: eight one-byte banks, one per shift-register stage,
//! holding one bit for each of 64 addressable lights.
use vstd::prelude::*;

use crate::bus::{BusOp, Line};

verus! {

/// Number of one-byte banks in the frame buffer.
pub const BANKS: usize = 8;

/// Number of addressable light positions (eight bits per bank).
pub const ADDRESSABLE: usize = 64;

/// Bank that holds light `i`: the last bank of the chain holds lights 0 to 7.
pub open spec fn bank_of(i: int) -> int {
    7 - i / 8
}

/// Bit within its bank that holds light `i`.
pub open spec fn bit_of(i: int) -> int {
    i % 8
}

/// Whether bit `k` of byte `x` is one.
pub open spec fn bit_is_set(x: u8, k: u8) -> bool {
    (x >> k) & 1u8 == 1u8
}

/// Whether light `i` is lit in the banks `banks`.
pub open spec fn is_lit(banks: Seq<u8>, i: int) -> bool {
    bit_is_set(banks[bank_of(i)], bit_of(i) as u8)
}

/// The banks after lighting `i`: its bit is or-ed in, nothing else changes.
pub open spec fn with_light(banks: Seq<u8>, i: int) -> Seq<u8> {
    banks.update(bank_of(i), banks[bank_of(i)] | (1u8 << (bit_of(i) as u8)))
}

/// Eight banks that are all zero.
pub open spec fn dark() -> Seq<u8> {
    Seq::new(8, |b: int| 0u8)
}

/// The frame buffer of the display.
pub struct Lights {
    buffer: [u8; 8],
}

impl View for Lights {
    type V = Seq<u8>;

    closed spec fn view(&self) -> Seq<u8> {
        self.buffer@
    }
}

impl Lights {
    /// A buffer with every light off.
    pub fn new() -> (r: Lights)
        ensures
            r@ == dark(),
    {
        let r = Lights { buffer: [0u8; 8] };
        assert(r@ =~= dark());
        r
    }

    /// Lights `i` by or-ing its bit into bank `7 - i / 8`.
    pub fn set_light(&mut self, i: usize)
        requires
            i < ADDRESSABLE,
        ensures
            final(self)@ == with_light(old(self)@, i as int),
    {
        let bank: usize = 7 - i / 8;
        let bit: u8 = (i % 8) as u8;
        let v: u8 = self.buffer[bank] | (1u8 << bit);
        self.buffer[bank] = v;
        assert(final(self)@ =~= with_light(old(self)@, i as int));
    }

    /// Turns every light off.
    pub fn clear(&mut self)
        ensures
            final(self)@ == dark(),
    {
        let mut b: usize = 0;
        while b < BANKS
            invariant
                self@.len() == 8,
                forall|j: int| 0 <= j < b ==> self@[j] == 0u8,
            decreases BANKS - b,
        {
            self.buffer[b] = 0u8;
            b = b + 1;
        }
        assert(self@ =~= dark());
    }

    /// The flush: the eight banks in one write, then a low-to-high pulse on
    /// the light latch, which makes them visible on the driver outputs.
    pub fn draw(&self) -> (r: [BusOp; 3])
        ensures
            r@.len() == 3,
            r@[0] is Write,
            r@[0]->Write_0@ == self@,
            r@[1] == BusOp::SetLow(Line::LedLatch),
            r@[2] == BusOp::SetHigh(Line::LedLatch),
    {
        let r = [BusOp::Write(self.buffer), BusOp::SetLow(Line::LedLatch), BusOp::SetHigh(Line::LedLatch)];
        assert(r@.len() == 3);
        r
    }

    /// Every buffer has eight banks.
    pub proof fn lemma_eight_banks(&self)
        ensures
            self@.len() == 8,
    {
    }

    /// The eight banks, in the order in which they are shifted out.
    pub fn banks(&self) -> (r: [u8; 8])
        ensures
            r@ == self@,
    {
        self.buffer
    }
}

proof fn lemma_or_bit(x: u8, j: u8, k: u8)
    requires
        j < 8,
        k < 8,
    ensures
        bit_is_set(x | (1u8 << j), k) <==> (k == j || bit_is_set(x, k)),
        !bit_is_set(0u8, k),
        (x | (1u8 << j)) | (1u8 << j) == x | (1u8 << j),
{
    assert(bit_is_set(x | (1u8 << j), k) <==> (k == j || bit_is_set(x, k))) by (bit_vector)
        requires
            j < 8,
            k < 8,
    ;
    assert(!bit_is_set(0u8, k)) by (bit_vector);
    assert((x | (1u8 << j)) | (1u8 << j) == x | (1u8 << j)) by (bit_vector);
}

/// Lighting position `i` of a dark buffer sets exactly one bit, bit `i % 8`
/// of bank `7 - i / 8`: every other bit of every bank stays zero, so `i` is
/// the only lit position.
pub proof fn lemma_single_light(i: int)
    requires
        0 <= i < 64,
    ensures
        with_light(dark(), i).len() == 8,
        forall|b: int, k: u8|
            0 <= b < 8 && k < 8 ==> (#[trigger] bit_is_set(with_light(dark(), i)[b], k) <==> (b
                == bank_of(i) && k == bit_of(i) as u8)),
        forall|j: int| 0 <= j < 64 ==> (#[trigger] is_lit(with_light(dark(), i), j) <==> j == i),
{
    let s = with_light(dark(), i);
    assert forall|b: int, k: u8| 0 <= b < 8 && k < 8 implies (#[trigger] bit_is_set(s[b], k) <==> (b
        == bank_of(i) && k == bit_of(i) as u8)) by {
        lemma_or_bit(0u8, bit_of(i) as u8, k);
    }
    assert forall|j: int| 0 <= j < 64 implies (#[trigger] is_lit(s, j) <==> j == i) by {
        lemma_or_bit(0u8, bit_of(i) as u8, bit_of(j) as u8);
        if bank_of(j) == bank_of(i) && bit_of(j) == bit_of(i) {
            assert(j == i);
        }
    }
}

/// Lighting `i` leaves every other position as it was.
pub proof fn lemma_with_light_lit(banks: Seq<u8>, i: int, j: int)
    requires
        banks.len() == 8,
        0 <= i < 64,
        0 <= j < 64,
    ensures
        with_light(banks, i).len() == 8,
        is_lit(with_light(banks, i), j) <==> (j == i || is_lit(banks, j)),
{
    lemma_or_bit(banks[bank_of(i)], bit_of(i) as u8, bit_of(j) as u8);
    if bank_of(j) == bank_of(i) && bit_of(j) == bit_of(i) {
        assert(j == i);
    }
}

/// No position of a dark buffer is lit.
pub proof fn lemma_dark_unlit(j: int)
    requires
        0 <= j < 64,
    ensures
        !is_lit(dark(), j),
{
    lemma_or_bit(0u8, 0u8, bit_of(j) as u8);
}

/// Lighting the same position twice leaves the buffer as lighting it once.
pub proof fn lemma_set_light_idempotent(banks: Seq<u8>, i: int)
    requires
        banks.len() == 8,
        0 <= i < 64,
    ensures
        with_light(with_light(banks, i), i) == with_light(banks, i),
{
    lemma_or_bit(banks[bank_of(i)], bit_of(i) as u8, 0u8);
    assert(with_light(with_light(banks, i), i) =~= with_light(banks, i));
}

} // verus!
