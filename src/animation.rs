//! The per-frame decisions of the animation: which lights a frame shows, and
//! how the scan index moves on.
use vstd::prelude::*;

use crate::bus::{button_sample, sample_of};
use crate::geometry::{are_neighbors, neighbors, lemma_self_neighbor, LIGHT_COUNT};
use crate::lights::{dark, is_lit, lemma_dark_unlit, lemma_with_light_lit, Lights, ADDRESSABLE};

verus! {

/// The scan index that follows `s`.
pub open spec fn next_index(s: int) -> int {
    (s + 1) % (LIGHT_COUNT as int)
}

/// Whether a button byte selects the proximity burst: bit 0 alone decides.
pub open spec fn burst(sample: u8) -> bool {
    sample & 1u8 == 1u8
}

/// Whether light `i` is part of the frame for scan index `scan` and button
/// byte `sample`: the scan light alone, or in a burst every light within the
/// neighbour radius of it.
pub open spec fn in_frame(scan: int, sample: u8, i: int) -> bool {
    if burst(sample) {
        0 <= i < LIGHT_COUNT && neighbors(scan, i)
    } else {
        i == scan
    }
}

/// The scan index after `n` frames, starting from `start`.
pub open spec fn scan_after(start: int, n: nat) -> int
    decreases n,
{
    if n == 0 {
        start
    } else {
        next_index(scan_after(start, (n - 1) as nat))
    }
}

/// Whether a button byte selects the proximity burst.
pub fn burst_mode(sample: u8) -> (r: bool)
    ensures
        r == burst(sample),
{
    sample & 1u8 == 1u8
}

/// The scan index that follows `s`.
pub fn next_scan(s: usize) -> (r: usize)
    requires
        s < LIGHT_COUNT,
    ensures
        r == next_index(s as int),
{
    (s + 1) % LIGHT_COUNT
}

/// The state of the animation between and during frames: the scan index and
/// the frame buffer.
pub struct AnimationLoop {
    scan: usize,
    lights: Lights,
}

impl AnimationLoop {
    /// The scan index.
    pub closed spec fn scan_index(&self) -> int {
        self.scan as int
    }

    /// The banks of the frame buffer.
    pub closed spec fn frame(&self) -> Seq<u8> {
        self.lights@
    }

    /// The scan index names a light of the sphere, and the buffer has eight
    /// banks.
    pub open spec fn wf(&self) -> bool {
        &&& 0 <= self.scan_index() < LIGHT_COUNT
        &&& self.frame().len() == 8
    }

    /// The state at start-up: scan index 0, every light off.
    pub fn new() -> (r: AnimationLoop)
        ensures
            r.wf(),
            r.scan_index() == 0,
            r.frame() == dark(),
    {
        AnimationLoop { scan: 0, lights: Lights::new() }
    }

    /// The scan index.
    pub fn scan(&self) -> (r: usize)
        ensures
            r == self.scan_index(),
    {
        self.scan
    }

    /// The frame buffer.
    pub fn lights(&self) -> (r: &Lights)
        ensures
            r@ == self.frame(),
    {
        &self.lights
    }

    /// Fills the frame from the outcome of the button read: lights the scan
    /// light, or, where bit 0 of the button byte is set, every light within
    /// the neighbour radius of it. A failed read counts as no button pressed.
    /// Lights already on stay on.
    pub fn compose(&mut self, read: Option<u8>)
        requires
            old(self).wf(),
        ensures
            final(self).wf(),
            final(self).scan_index() == old(self).scan_index(),
            forall|i: int|
                0 <= i < ADDRESSABLE ==> (#[trigger] is_lit(final(self).frame(), i) <==> (is_lit(
                    old(self).frame(),
                    i,
                ) || in_frame(old(self).scan_index(), sample_of(read), i))),
    {
        let sample = button_sample(read);
        let scan = self.scan;
        if burst_mode(sample) {
            let mut i: usize = 0;
            while i < LIGHT_COUNT
                invariant
                    self.wf(),
                    self.scan == scan,
                    burst(sample),
                    sample == sample_of(read),
                    i <= LIGHT_COUNT,
                    forall|j: int|
                        0 <= j < ADDRESSABLE ==> (#[trigger] is_lit(self.frame(), j) <==> (is_lit(
                            old(self).frame(),
                            j,
                        ) || (j < i && in_frame(scan as int, sample, j)))),
                decreases LIGHT_COUNT - i,
            {
                let ghost before = self.frame();
                let near = are_neighbors(scan, i);
                if near {
                    self.lights.set_light(i);
                    assert forall|j: int| 0 <= j < ADDRESSABLE implies is_lit(self.frame(), j)
                        <==> (is_lit(before, j) || j == i) by {
                        lemma_with_light_lit(before, i as int, j);
                    }
                }
                assert(in_frame(scan as int, sample, i as int) == near);
                assert forall|j: int| 0 <= j < ADDRESSABLE implies #[trigger] is_lit(self.frame(), j)
                    <==> (is_lit(old(self).frame(), j) || (j < i + 1 && in_frame(scan as int, sample, j))) by {
                    assert(is_lit(before, j) <==> (is_lit(old(self).frame(), j) || (j < i
                        && in_frame(scan as int, sample, j))));
                    assert(is_lit(self.frame(), j) <==> (is_lit(before, j) || (near && j == i)));
                }
                i = i + 1;
            }
        } else {
            let ghost before = self.frame();
            self.lights.set_light(scan);
            assert forall|j: int| 0 <= j < ADDRESSABLE implies is_lit(self.frame(), j) <==> (is_lit(
                before,
                j,
            ) || j == scan) by {
                lemma_with_light_lit(before, scan as int, j);
            }
        }
        proof {
            self.lights.lemma_eight_banks();
        }
    }

    /// Ends a frame after its flush: every light off, the scan index moved
    /// on. The outcome of the flush is not looked at: a failed write costs
    /// one frame, and the next frame is drawn as usual.
    pub fn finish_frame(&mut self, flushed: bool)
        requires
            old(self).wf(),
        ensures
            final(self).wf(),
            final(self).scan_index() == next_index(old(self).scan_index()),
            final(self).frame() == dark(),
    {
        self.lights.clear();
        self.scan = next_scan(self.scan);
    }
}

/// The scan light is always part of its own frame: in a burst because every
/// point is at distance zero from itself.
pub proof fn lemma_scan_in_own_frame(scan: int, sample: u8)
    requires
        0 <= scan < LIGHT_COUNT,
    ensures
        in_frame(scan, sample, scan),
{
    lemma_self_neighbor(scan);
}

proof fn lemma_scan_after_mod(start: int, n: nat)
    requires
        0 <= start < LIGHT_COUNT,
    ensures
        scan_after(start, n) == (start + n) % (LIGHT_COUNT as int),
    decreases n,
{
    if n > 0 {
        lemma_scan_after_mod(start, (n - 1) as nat);
        let m = LIGHT_COUNT as int;
        let k = start + n - 1;
        assert(((k % m) + 1) % m == (k + 1) % m) by {
            vstd::arithmetic::div_mod::lemma_add_mod_noop(k, 1, m);
            vstd::arithmetic::div_mod::lemma_small_mod(1nat, m as nat);
        }
    }
}

/// The scan index is periodic with period 61: from any index, 61 frames
/// later it is back where it started; from 0 it returns to 0.
pub proof fn lemma_scan_period(start: int)
    requires
        0 <= start < LIGHT_COUNT,
    ensures
        scan_after(start, LIGHT_COUNT as nat) == start,
        scan_after(0, LIGHT_COUNT as nat) == 0,
{
    lemma_scan_after_mod(start, LIGHT_COUNT as nat);
    lemma_scan_after_mod(0, LIGHT_COUNT as nat);
    vstd::arithmetic::div_mod::lemma_mod_add_multiples_vanish(start, LIGHT_COUNT as int);
    vstd::arithmetic::div_mod::lemma_small_mod(start as nat, LIGHT_COUNT as nat);
}

/// The frame is decided by bit 0 of the button byte alone: two bytes that
/// agree on bit 0 give the same frame for every scan index.
pub proof fn lemma_branch_by_low_bit(scan: int, a: u8, b: u8)
    requires
        a & 1u8 == b & 1u8,
    ensures
        burst(a) == burst(b),
        forall|i: int| #[trigger] in_frame(scan, a, i) == in_frame(scan, b, i),
{
}

/// A frame keeps no memory of earlier ones: composed on a buffer that the
/// previous frame left dark, the lit lights are exactly those of the frame
/// for the current scan index and button byte.
pub proof fn lemma_frame_is_fresh(before: Seq<u8>, after: Seq<u8>, scan: int, sample: u8)
    requires
        before == dark(),
        forall|i: int|
            0 <= i < ADDRESSABLE ==> (#[trigger] is_lit(after, i) <==> (is_lit(before, i) || in_frame(
                scan,
                sample,
                i,
            ))),
    ensures
        forall|i: int| 0 <= i < ADDRESSABLE ==> (#[trigger] is_lit(after, i) <==> in_frame(scan, sample, i)),
{
    assert forall|i: int| 0 <= i < ADDRESSABLE implies (#[trigger] is_lit(after, i) <==> in_frame(
        scan,
        sample,
        i,
    )) by {
        lemma_dark_unlit(i);
    }
}

/// A failed button read is read as 0x00: the frame shows the scan light
/// alone.
pub proof fn lemma_failed_read_is_base(scan: int)
    ensures
        sample_of(None) == 0u8,
        forall|i: int| #[trigger] in_frame(scan, sample_of(None), i) <==> i == scan,
{
    assert(!burst(0u8)) by (bit_vector);
}

} // verus!
