//! Single-shot handoff of the call's stream identifier between the two
//! per-call tasks. The inbound leg learns the identifier from the provider's
//! start event and offers it exactly once; the dialogue leg takes it exactly
//! once. A second offer or a second take is a guarded no-op, never a panic.

use vstd::prelude::*;

verus! {

/// A write-once, read-once slot for one call's stream identifier.
pub struct StreamIdSlot {
    value: Option<String>,
    offered: bool,
    taken: bool,
}

/// The slot's state: what it holds (if anything not yet taken), and whether
/// the one offer and the one take have happened.
#[verifier::ext_equal]
pub struct SlotView {
    pub value: Option<Seq<char>>,
    pub offered: bool,
    pub taken: bool,
}

impl View for StreamIdSlot {
    type V = SlotView;

    closed spec fn view(&self) -> SlotView {
        SlotView {
            value: match self.value {
                Some(ref s) => Some(s@),
                None => None,
            },
            offered: self.offered,
            taken: self.taken,
        }
    }
}

impl StreamIdSlot {
    /// A fresh slot: nothing offered, nothing taken.
    pub fn new() -> (r: Self)
        ensures
            r@ == (SlotView { value: None, offered: false, taken: false }),
    {
        StreamIdSlot { value: None, offered: false, taken: false }
    }

    /// Offers the stream identifier. Only the first offer lands; later ones
    /// change nothing and report that they were ignored.
    pub fn offer(&mut self, stream_sid: String) -> (accepted: bool)
        ensures
            accepted == !old(self)@.offered,
            final(self)@.offered,
            final(self)@.taken == old(self)@.taken,
            accepted ==> final(self)@.value == Some(stream_sid@),
            !accepted ==> final(self)@.value == old(self)@.value,
    {
        if self.offered {
            return false;
        }
        self.offered = true;
        self.value = Some(stream_sid);
        true
    }

    /// Takes the identifier. Only the first take after an offer yields it;
    /// before the offer, or on a second take, nothing comes out and nothing
    /// is disturbed.
    pub fn take(&mut self) -> (r: Option<String>)
        ensures
            final(self)@.offered == old(self)@.offered,
            (r is Some) == (old(self)@.value is Some && !old(self)@.taken),
            r matches Some(s) ==> (old(self)@.value == Some(s@) && final(self)@.taken && final(self)@.value is None),
            r is None ==> (final(self)@.taken == old(self)@.taken && final(self)@.value == old(self)@.value),
    {
        if self.taken {
            return None;
        }
        let mut v: Option<String> = None;
        core::mem::swap(&mut v, &mut self.value);
        match v {
            Some(s) => {
                self.taken = true;
                Some(s)
            },
            None => None,
        }
    }
}

} // verus!
