//! The record of what an event channel has handed to its subscribers.
//! The record grows only through [`DeliveryLog::deliver`], which makes the
//! delivery it records, so it lists the handler calls actually made.
use vstd::prelude::*;
use crate::event::Subscriber;

verus! {

/// Every delivery made so far: an event with the index of the subscriber
/// it was handed to, in the order they were made.
#[verifier::reject_recursive_types(E)]
pub struct DeliveryLog<E> {
    entries: Ghost<Seq<(E, nat)>>,
}

impl<E> View for DeliveryLog<E> {
    type V = Seq<(E, nat)>;

    closed spec fn view(&self) -> Seq<(E, nat)> {
        self.entries@
    }
}

impl<E> DeliveryLog<E> {
    /// A record of no delivery.
    pub fn new() -> (l: Self)
        ensures
            l@.len() == 0,
    {
        DeliveryLog { entries: Ghost(Seq::empty()) }
    }

    /// Hands `event` to subscriber `j` of `subscribers` and records that
    /// delivery.
    pub fn deliver(&mut self, subscribers: &Vec<Subscriber<E>>, j: usize, event: &E)
        requires
            j < subscribers@.len(),
        ensures
            final(self)@ == old(self)@.push((*event, j as nat)),
            subscribers@[j as int].handler.handled(*event),
    {
        subscribers[j].handler.handle(event);
        proof {
            self.entries = Ghost(self.entries@.push((*event, j as nat)));
        }
    }
}

} // verus!
