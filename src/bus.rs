//! Bus transactions as sequences of operations. The library decides what goes
//! on the bus and in which order; whoever owns the hardware carries the
//! operations out and reports what a transfer returned.
use vstd::prelude::*;

verus! {

/// The two latch lines that share the bus.
#[derive(Clone, Copy, Debug, PartialEq, Eq, Structural)]
pub enum Line {
    /// Commits the shifted bits to the outputs of the light driver stages.
    LedLatch,
    /// Makes the button shift register load the current button states.
    ButtonLatch,
}

/// One step of a bus transaction.
#[derive(Clone, Copy, Debug, PartialEq, Eq)]
pub enum BusOp {
    /// Write the eight banks of the frame buffer, in order.
    Write([u8; 8]),
    /// Exchange one byte: send the given byte, receive the button byte.
    Transfer(u8),
    /// Drive a latch line low.
    SetLow(Line),
    /// Drive a latch line high.
    SetHigh(Line),
}

/// The button read: latch low, one-byte exchange while it is held low, latch
/// high again.
pub open spec fn button_read_ops() -> Seq<BusOp> {
    seq![BusOp::SetLow(Line::ButtonLatch), BusOp::Transfer(0u8), BusOp::SetHigh(Line::ButtonLatch)]
}

/// The operations that read the button register.
pub fn read_buttons() -> (r: [BusOp; 3])
    ensures
        r@ == button_read_ops(),
{
    let r = [BusOp::SetLow(Line::ButtonLatch), BusOp::Transfer(0u8), BusOp::SetHigh(Line::ButtonLatch)];
    assert(r@ =~= button_read_ops());
    r
}

/// The button byte a read stands for: what the transfer returned, or no
/// button pressed where the transfer failed.
pub open spec fn sample_of(read: Option<u8>) -> u8 {
    match read {
        Some(b) => b,
        None => 0u8,
    }
}

/// The button byte of a read; a failed transfer counts as no button pressed.
pub fn button_sample(read: Option<u8>) -> (r: u8)
    ensures
        r == sample_of(read),
{
    match read {
        Some(b) => b,
        None => 0u8,
    }
}

/// Levels of the (light latch, button latch) lines after `op`, high being
/// `true`.
pub open spec fn step_levels(levels: (bool, bool), op: BusOp) -> (bool, bool) {
    match op {
        BusOp::SetLow(Line::LedLatch) => (false, levels.1),
        BusOp::SetHigh(Line::LedLatch) => (true, levels.1),
        BusOp::SetLow(Line::ButtonLatch) => (levels.0, false),
        BusOp::SetHigh(Line::ButtonLatch) => (levels.0, true),
        _ => levels,
    }
}

/// Levels of the two latch lines after carrying out `ops` from `levels`.
pub open spec fn levels_after(levels: (bool, bool), ops: Seq<BusOp>) -> (bool, bool)
    decreases ops.len(),
{
    if ops.len() == 0 {
        levels
    } else {
        levels_after(step_levels(levels, ops[0]), ops.drop_first())
    }
}

/// Whether, carrying out `ops` from `levels`, at no point are both latch
/// lines low.
pub open spec fn latches_exclusive(levels: (bool, bool), ops: Seq<BusOp>) -> bool
    decreases ops.len(),
{
    &&& (levels.0 || levels.1)
    &&& (ops.len() > 0 ==> latches_exclusive(step_levels(levels, ops[0]), ops.drop_first()))
}

/// The flush of some frame buffer.
pub open spec fn is_flush(t: Seq<BusOp>) -> bool {
    &&& t.len() == 3
    &&& t[0] is Write
    &&& t[1] == BusOp::SetLow(Line::LedLatch)
    &&& t[2] == BusOp::SetHigh(Line::LedLatch)
}

/// A flush or a button read.
pub open spec fn is_transaction(t: Seq<BusOp>) -> bool {
    is_flush(t) || t == button_read_ops()
}

proof fn lemma_levels_concat(levels: (bool, bool), a: Seq<BusOp>, b: Seq<BusOp>)
    ensures
        levels_after(levels, a + b) == levels_after(levels_after(levels, a), b),
        latches_exclusive(levels, a + b) == (latches_exclusive(levels, a) && latches_exclusive(
            levels_after(levels, a),
            b,
        )),
    decreases a.len(),
{
    if a.len() > 0 {
        assert((a + b).drop_first() =~= a.drop_first() + b);
        lemma_levels_concat(step_levels(levels, a[0]), a.drop_first(), b);
    } else {
        assert(a + b =~= b);
    }
}

proof fn lemma_transaction_levels(t: Seq<BusOp>)
    requires
        is_transaction(t),
    ensures
        latches_exclusive((true, true), t),
        levels_after((true, true), t) == (true, true),
{
    let t1 = t.drop_first();
    let t2 = t1.drop_first();
    let t3 = t2.drop_first();
    assert(t1[0] == t[1] && t2[0] == t[2] && t3.len() == 0);
    reveal_with_fuel(levels_after, 4);
    reveal_with_fuel(latches_exclusive, 4);
}

/// Flushes and button reads never overlap on the bus: starting with both
/// latch lines high, any sequence of these transactions never has both
/// lines low at once, and leaves both high again.
pub proof fn lemma_latches_never_both_low(ts: Seq<Seq<BusOp>>)
    requires
        forall|k: int| 0 <= k < ts.len() ==> is_transaction(#[trigger] ts[k]),
    ensures
        latches_exclusive((true, true), ts.flatten()),
        levels_after((true, true), ts.flatten()) == (true, true),
    decreases ts.len(),
{
    if ts.len() == 0 {
        reveal_with_fuel(latches_exclusive, 1);
    } else {
        let rest = ts.drop_first();
        assert forall|k: int| 0 <= k < rest.len() implies is_transaction(#[trigger] rest[k]) by {
            assert(rest[k] == ts[k + 1]);
        }
        lemma_latches_never_both_low(rest);
        lemma_transaction_levels(ts[0]);
        lemma_levels_concat((true, true), ts[0], rest.flatten());
    }
}

} // verus!
