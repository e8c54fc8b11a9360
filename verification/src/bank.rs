//! The encoder bank: four ring values mirrored from device-parameter
//! notifications. It carries no button logic and emits no commands; each
//! tick re-renders all four values.

use vstd::prelude::*;
use crate::message::{BitwigMessage, DeviceMessage};

verus! {

/// One device-parameter notification applied to the four ring values:
/// parameter ids 0 through 3 set their ring, every other id is ignored, as
/// is a value outside the ring range of 0 through 255.
pub open spec fn spec_bank_apply(vals: Seq<u8>, m: DeviceMessage) -> Seq<u8> {
    if m.param < 4 && 0 <= m.value <= 255 {
        vals.update(m.param as int, m.value as u8)
    } else {
        vals
    }
}

/// One inbound notification applied to the bank: only device-parameter
/// notifications touch it.
pub open spec fn spec_bank_step(vals: Seq<u8>, m: BitwigMessage) -> Seq<u8> {
    match m {
        BitwigMessage::Primary(d) => spec_bank_apply(vals, d),
        _ => vals,
    }
}

/// A queue of notifications applied in arrival order.
pub open spec fn spec_bank_steps(vals: Seq<u8>, msgs: Seq<BitwigMessage>) -> Seq<u8>
    decreases msgs.len(),
{
    if msgs.len() == 0 {
        vals
    } else {
        spec_bank_step(spec_bank_steps(vals, msgs.drop_last()), msgs.last())
    }
}

/// Four rotary-encoder ring values, each 0 through 255.
pub struct EncoderBank {
    values: Vec<u8>,
}

impl View for EncoderBank {
    type V = Seq<u8>;

    closed spec fn view(&self) -> Seq<u8> {
        self.values@
    }
}

impl EncoderBank {
    /// A bank holds exactly four ring values.
    pub open spec fn wf(&self) -> bool {
        self@.len() == 4
    }

    /// All four rings start at zero.
    pub fn new() -> (r: Self)
        ensures
            r.wf(),
            r@ == seq![0u8, 0u8, 0u8, 0u8],
    {
        let mut values: Vec<u8> = Vec::new();
        values.push(0);
        values.push(0);
        values.push(0);
        values.push(0);
        proof {
            assert(values@ =~= seq![0u8, 0u8, 0u8, 0u8]);
        }
        EncoderBank { values }
    }

    /// Apply one inbound notification.
    pub fn apply(&mut self, msg: &BitwigMessage)
        requires
            old(self).wf(),
        ensures
            final(self).wf(),
            final(self)@ == spec_bank_step(old(self)@, *msg),
    {
        match msg {
            BitwigMessage::Primary(d) => {
                if d.param < 4 && d.value >= 0 && d.value <= 255 {
                    self.values[d.param as usize] = d.value as u8;
                }
            },
            _ => {},
        }
    }

    /// One tick: drain the queued notifications in arrival order, then hand
    /// back all four ring values to re-render.
    pub fn tick(&mut self, msgs: &Vec<BitwigMessage>) -> (r: Vec<u8>)
        requires
            old(self).wf(),
        ensures
            final(self).wf(),
            final(self)@ == spec_bank_steps(old(self)@, msgs@),
            r@ == final(self)@,
    {
        let n = msgs.len();
        let mut i: usize = 0;
        while i < n
            invariant
                i <= n,
                n == msgs@.len(),
                self.wf(),
                self@ == spec_bank_steps(old(self)@, msgs@.take(i as int)),
            decreases n - i,
        {
            proof {
                lemma_bank_steps_step(old(self)@, msgs@, i as int);
            }
            let msg = msgs[i];
            self.apply(&msg);
            i = i + 1;
        }
        proof {
            assert(msgs@.take(n as int) =~= msgs@);
        }
        self.ring_values()
    }

    /// The four ring values in ring order.
    pub fn ring_values(&self) -> (r: Vec<u8>)
        ensures
            r@ == self@,
    {
        let mut r: Vec<u8> = Vec::new();
        let n = self.values.len();
        let mut i: usize = 0;
        while i < n
            invariant
                i <= n,
                n == self@.len(),
                r@ =~= self@.take(i as int),
            decreases n - i,
        {
            r.push(self.values[i]);
            i = i + 1;
        }
        proof {
            assert(self@.take(n as int) =~= self@);
        }
        r
    }
}

/// Applying a queue one notification longer is applying the queue, then its
/// last notification.
proof fn lemma_bank_steps_step(vals: Seq<u8>, msgs: Seq<BitwigMessage>, i: int)
    requires
        0 <= i < msgs.len(),
    ensures
        spec_bank_steps(vals, msgs.take(i + 1)) == spec_bank_step(
            spec_bank_steps(vals, msgs.take(i)),
            msgs[i],
        ),
{
    assert(msgs.take(i + 1).drop_last() =~= msgs.take(i));
    assert(msgs.take(i + 1).last() == msgs[i]);
}

} // verus!
