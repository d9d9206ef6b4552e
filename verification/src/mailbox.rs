//! A mailbox with a single slot, in which the latest value wins: each
//! publication replaces what has not been taken yet, and the consumer takes
//! each publication at most once.
//!
//! The slot is the state that a producer and a consumer share; whoever shares
//! it guards it with a lock. `take_latest` never waits by itself: it says
//! whether the consumer must wait for the next publication.

use vstd::prelude::*;

verus! {

/// The slot as a mathematical value.
pub struct SlotView<T> {
    /// The value that was published last, until it is taken.
    pub pending: Option<T>,
    /// How many values have been published.
    pub version: nat,
    /// The version of the value that was taken last; 0 before the first.
    pub consumed: nat,
    /// Whether the producer is gone.
    pub closed: bool,
}

/// What the consumer gets when it asks for the latest value, as a
/// mathematical value.
pub enum Delivery<T> {
    /// The latest value, with its version.
    Ready { value: T, version: nat },
    /// Nothing new yet: the consumer must wait for a publication.
    Wait,
    /// Nothing new, and nothing will come.
    Closed,
}

impl<T> SlotView<T> {
    /// Nothing is taken before it is published, and what is pending was
    /// published after the last value that was taken.
    pub open spec fn wf(self) -> bool {
        &&& self.consumed <= self.version
        &&& self.pending is Some ==> self.consumed < self.version
    }

    /// The slot before the first publication.
    pub open spec fn fresh() -> SlotView<T> {
        SlotView { pending: None, version: 0, consumed: 0, closed: false }
    }

    /// The slot after `value` is published.
    pub open spec fn publish(self, value: T) -> SlotView<T> {
        SlotView { pending: Some(value), version: self.version + 1, ..self }
    }

    /// The slot after each of `values` is published, in order.
    pub open spec fn publish_all(self, values: Seq<T>) -> SlotView<T>
        decreases values.len(),
    {
        if values.len() == 0 {
            self
        } else {
            self.publish(values[0]).publish_all(values.drop_first())
        }
    }

    /// The slot after the producer is gone.
    pub open spec fn close(self) -> SlotView<T> {
        SlotView { closed: true, ..self }
    }

    /// What the consumer gets when it asks now.
    pub open spec fn delivery(self) -> Delivery<T> {
        if self.pending is Some {
            Delivery::Ready { value: self.pending->0, version: self.version }
        } else if self.closed {
            Delivery::Closed
        } else {
            Delivery::Wait
        }
    }

    /// The slot after the consumer has asked.
    pub open spec fn after_take(self) -> SlotView<T> {
        SlotView { pending: None, consumed: self.version, ..self }
    }
}

/// What the consumer gets when it asks for the latest value.
#[derive(Debug, PartialEq, Eq)]
pub enum Taken<T> {
    /// The latest value, with its version.
    Ready { value: T, version: u64 },
    /// Nothing new yet: the consumer must wait for a publication.
    Wait,
    /// Nothing new, and nothing will come.
    Closed,
}

impl<T> View for Taken<T> {
    type V = Delivery<T>;

    open spec fn view(&self) -> Delivery<T> {
        match *self {
            Taken::Ready { value, version } => Delivery::Ready { value, version: version as nat },
            Taken::Wait => Delivery::Wait,
            Taken::Closed => Delivery::Closed,
        }
    }
}

/// The slot that one producer and one consumer share.
pub struct MailboxSlot<T> {
    pending: Option<T>,
    version: u64,
    consumed: u64,
    closed: bool,
}

impl<T> View for MailboxSlot<T> {
    type V = SlotView<T>;

    closed spec fn view(&self) -> SlotView<T> {
        SlotView {
            pending: self.pending,
            version: self.version as nat,
            consumed: self.consumed as nat,
            closed: self.closed,
        }
    }
}

impl<T> MailboxSlot<T> {
    #[verifier::type_invariant]
    spec fn consistent(self) -> bool {
        self@.wf()
    }

    /// An empty slot: nothing published, nothing taken, not closed.
    pub fn new() -> (slot: MailboxSlot<T>)
        ensures
            slot@ == SlotView::<T>::fresh(),
    {
        MailboxSlot { pending: None, version: 0, consumed: 0, closed: false }
    }

    /// How many values have been published.
    pub fn version(&self) -> (version: u64)
        ensures
            version == self@.version,
            self@.wf(),
    {
        proof {
            use_type_invariant(self);
        }
        self.version
    }

    /// Whether the producer is gone.
    pub fn is_closed(&self) -> (closed: bool)
        ensures
            closed == self@.closed,
    {
        self.closed
    }

    /// Puts `value` into the slot as the next version. Whatever was there and
    /// had not been taken is displaced and handed back. Never waits.
    pub fn publish(&mut self, value: T) -> (displaced: Option<T>)
        requires
            old(self)@.version < u64::MAX,
        ensures
            old(self)@.wf(),
            final(self)@ == old(self)@.publish(value),
            final(self)@.wf(),
            displaced == old(self)@.pending,
    {
        proof {
            use_type_invariant(&*self);
        }
        let mut filled = Some(value);
        self.version = self.version + 1;
        core::mem::swap(&mut self.pending, &mut filled);
        filled
    }

    /// Marks the slot as closed: what is pending can still be taken, and
    /// after it nothing will come.
    pub fn close(&mut self)
        ensures
            final(self)@ == old(self)@.close(),
            final(self)@.wf(),
    {
        proof {
            use_type_invariant(&*self);
        }
        self.closed = true;
    }

    /// Takes the latest value, if one was published since the last take.
    /// Otherwise says whether to wait for one or that none will come.
    pub fn take_latest(&mut self) -> (taken: Taken<T>)
        ensures
            old(self)@.wf(),
            taken@ == old(self)@.delivery(),
            final(self)@ == (if taken is Wait || taken is Closed {
                old(self)@
            } else {
                old(self)@.after_take()
            }),
            final(self)@.wf(),
    {
        proof {
            use_type_invariant(&*self);
        }
        let mut taken = None;
        core::mem::swap(&mut self.pending, &mut taken);
        match taken {
            Some(value) => {
                self.consumed = self.version;
                Taken::Ready { value, version: self.version }
            },
            None => {
                if self.closed {
                    Taken::Closed
                } else {
                    Taken::Wait
                }
            },
        }
    }
}

/// Publishing keeps the slot consistent, and so does taking.
pub proof fn lemma_slot_stays_consistent<T>(slot: SlotView<T>, value: T)
    requires
        slot.wf(),
    ensures
        slot.publish(value).wf(),
        slot.close().wf(),
        slot.after_take().wf(),
        SlotView::<T>::fresh().wf(),
{
}

/// After a run of publications the slot holds the last of them, under the
/// version that counts them all.
pub proof fn lemma_publish_all<T>(slot: SlotView<T>, values: Seq<T>)
    requires
        slot.wf(),
    ensures
        slot.publish_all(values).wf(),
        slot.publish_all(values).version == slot.version + values.len(),
        slot.publish_all(values).consumed == slot.consumed,
        slot.publish_all(values).closed == slot.closed,
        slot.publish_all(values).pending == (if values.len() == 0 {
            slot.pending
        } else {
            Some(values.last())
        }),
    decreases values.len(),
{
    if values.len() > 0 {
        let rest = values.drop_first();
        lemma_publish_all(slot.publish(values[0]), rest);
        if rest.len() > 0 {
            assert(rest.last() == values.last());
        }
    }
}

/// The latest value wins: however many values are published while the
/// consumer is away, what it takes next is the last of them, under the
/// highest version, and none of the earlier ones.
pub proof fn lemma_latest_wins<T>(slot: SlotView<T>, values: Seq<T>)
    requires
        slot.wf(),
        values.len() >= 1,
    ensures
        slot.publish_all(values).delivery() == (Delivery::Ready {
            value: values.last(),
            version: slot.version + values.len(),
        }),
        slot.publish_all(values).after_take().consumed == slot.version + values.len(),
{
    lemma_publish_all(slot, values);
}

/// Published from an empty slot, the versions count from 1: after `n`
/// publications the consumer gets the version `n`.
pub proof fn lemma_versions_count_from_one<T>(values: Seq<T>)
    requires
        values.len() >= 1,
    ensures
        SlotView::<T>::fresh().publish_all(values).delivery() == (Delivery::Ready {
            value: values.last(),
            version: values.len(),
        }),
{
    lemma_latest_wins(SlotView::<T>::fresh(), values);
}

/// No value is taken twice: right after a value was taken the consumer has
/// to wait (or learns that the slot is closed), asking again changes nothing,
/// and the next publication is what it gets then.
pub proof fn lemma_second_take_waits<T>(slot: SlotView<T>, next: T)
    requires
        slot.wf(),
        slot.delivery() is Ready,
    ensures
        slot.after_take().delivery() == (if slot.closed {
            Delivery::<T>::Closed
        } else {
            Delivery::<T>::Wait
        }),
        slot.after_take().publish(next).delivery() == (Delivery::Ready {
            value: next,
            version: slot.version + 1,
        }),
{
}

/// The consumer never sees a version again: what it gets is newer than
/// anything it has taken before.
pub proof fn lemma_taken_versions_grow<T>(slot: SlotView<T>)
    requires
        slot.wf(),
    ensures
        slot.delivery() matches Delivery::Ready { version, .. } ==> version > slot.consumed
            && version == slot.version && slot.after_take().consumed == version,
{
}

} // verus!
