//! A simple observer pattern: listeners subscribe to events and are called
//! when the event is published.
//!
//! The subscriptions are kept as a list of events, each with its
//! listeners in subscription order. What the contracts say of event and
//! listener equality holds for types whose `==` is plain equality of
//! values (`obeys_concrete_eq`), such as enums that derive `PartialEq`.
//! Function pointers (`fn(&T)`, the usual listener type) cannot be shown to
//! have such an `==` in the specifications, so for them the contracts state
//! nothing.

use vstd::prelude::*;
use vstd::laws_eq::obeys_concrete_eq;

verus! {

/// Subscriptions to events of type `T` by listeners of type `L`.
///
/// The subscriptions are a list of (event, listeners) pairs in which each
/// event appears once (`wf`), which is what a map keyed by the event holds.
#[derive(Debug)]
pub struct Publisher<T, L> {
    events: Vec<(T, Vec<L>)>,
}

impl<T, L> Default for Publisher<T, L> {
    fn default() -> (p: Self)
        ensures
            p.entries() == Seq::<(T, Seq<L>)>::empty(),
    {
        Publisher { events: Vec::new() }
    }
}

/// The position of `event` in `entries`, if it is there.
pub open spec fn position_of<T, L>(entries: Seq<(T, Seq<L>)>, event: T) -> Option<int> {
    if exists|i: int| 0 <= i < entries.len() && #[trigger] entries[i].0 == event {
        Some(choose|i: int| 0 <= i < entries.len() && #[trigger] entries[i].0 == event)
    } else {
        None
    }
}

/// The listeners of `event`, in subscription order.
pub open spec fn listeners_of<T, L>(entries: Seq<(T, Seq<L>)>, event: T) -> Seq<L> {
    match position_of(entries, event) {
        Some(i) => entries[i].1,
        None => Seq::empty(),
    }
}

impl<T, L> Publisher<T, L> {
    /// The events and their listeners.
    pub closed spec fn entries(&self) -> Seq<(T, Seq<L>)> {
        Seq::new(self.events@.len(), |i: int| (self.events@[i].0, self.events@[i].1@))
    }

    /// Every event appears once.
    pub open spec fn wf(&self) -> bool {
        forall|i: int, j: int| 0 <= i < j < self.entries().len() ==> #[trigger] self.entries()[i].0 != #[trigger] self.entries()[j].0
    }

    /// The listeners of an event, in subscription order.
    pub open spec fn listeners(&self, event: T) -> Seq<L> {
        listeners_of(self.entries(), event)
    }

    /// Whether an event has an entry (it has been subscribed to).
    pub open spec fn has_event(&self, event: T) -> bool {
        position_of(self.entries(), event) is Some
    }
}

/// In a list where every event appears once, the entry found for an event
/// is at the position where it is.
proof fn lemma_position<T, L>(entries: Seq<(T, Seq<L>)>, event: T, i: int)
    requires
        0 <= i < entries.len(),
        entries[i].0 == event,
        forall|a: int, b: int| 0 <= a < b < entries.len() ==> #[trigger] entries[a].0 != #[trigger] entries[b].0,
    ensures
        position_of(entries, event) == Some(i),
{
    let j = choose|j: int| 0 <= j < entries.len() && #[trigger] entries[j].0 == event;
    if j != i {
        if j < i {
            assert(entries[j].0 != entries[i].0);
        } else {
            assert(entries[i].0 != entries[j].0);
        }
    }
}

impl<T: PartialEq + Copy, L: PartialEq + Copy + Fn(&T)> Publisher<T, L> {
    /// Where `event` is in the list, found with `==`.
    fn find(&self, event: &T) -> (i: Option<usize>)
        ensures
            i matches Some(p) ==> p < self.entries().len() && (obeys_concrete_eq::<T>() ==> self.entries()[p as int].0 == *event),
            i is None && obeys_concrete_eq::<T>() ==> forall|j: int| 0 <= j < self.entries().len() ==> #[trigger] self.entries()[j].0 != *event,
    {
        proof { reveal(obeys_concrete_eq); }
        let mut k: usize = 0;
        while k < self.events.len()
            invariant
                k <= self.events@.len(),
                obeys_concrete_eq::<T>() ==> forall|j: int| 0 <= j < k ==> #[trigger] self.entries()[j].0 != *event,
            decreases self.events@.len() - k,
        {
            proof { reveal(obeys_concrete_eq); }
            if self.events[k].0 == *event {
                return Some(k);
            }
            k += 1;
        }
        None
    }

    /// Subscribe to an event: the listener is added at the end of the
    /// event's listeners, twice (so that it is called twice per notice
    /// until it is unsubscribed, which removes every copy).
    pub fn subscribe(&mut self, event: T, listener: L)
        ensures
            obeys_concrete_eq::<T>() && old(self).wf() ==> {
                &&& final(self).wf()
                &&& final(self).listeners(event) == old(self).listeners(event).push(listener).push(listener)
                &&& forall|e: T| e != event ==> #[trigger] final(self).listeners(e) == old(self).listeners(e)
            },
    {
        let ghost old_entries = self.entries();
        match self.find(&event) {
            Some(i) => {
                self.events[i].1.push(listener);
                self.events[i].1.push(listener);
                proof {
                    if obeys_concrete_eq::<T>() && old(self).wf() {
                        let ne = self.entries();
                        assert(ne =~= old_entries.update(i as int, (event, old_entries[i as int].1.push(listener).push(listener))));
                        lemma_position(old_entries, event, i as int);
                        lemma_position(ne, event, i as int);
                        assert forall|e: T| e != event implies #[trigger] listeners_of(ne, e) == listeners_of(old_entries, e) by {
                            if position_of(old_entries, e) is Some {
                                let j = position_of(old_entries, e)->0;
                                lemma_position(ne, e, j);
                            } else {
                                assert forall|j: int| 0 <= j < ne.len() implies #[trigger] ne[j].0 != e by {
                                    if ne[j].0 == e {
                                        assert(old_entries[j].0 == e);
                                    }
                                }
                            }
                        }
                    }
                }
            },
            None => {
                let mut listeners: Vec<L> = Vec::new();
                listeners.push(listener);
                listeners.push(listener);
                let ghost lv = listeners@;
                assert(lv =~= Seq::<L>::empty().push(listener).push(listener));
                self.events.push((event, listeners));
                proof {
                    if obeys_concrete_eq::<T>() && old(self).wf() {
                        let ne = self.entries();
                        let n = old_entries.len() as int;
                        assert(ne =~= old_entries.push((event, lv)));
                        lemma_position(ne, event, n);
                        assert(position_of(old_entries, event) is None);
                        assert forall|e: T| e != event implies #[trigger] listeners_of(ne, e) == listeners_of(old_entries, e) by {
                            if position_of(old_entries, e) is Some {
                                let j = position_of(old_entries, e)->0;
                                lemma_position(ne, e, j);
                            } else {
                                assert forall|j: int| 0 <= j < ne.len() implies #[trigger] ne[j].0 != e by {
                                    if j < n {
                                        assert(old_entries[j].0 != e);
                                    }
                                }
                            }
                        }
                    }
                }
            },
        }
    }

    /// Unsubscribe from an event: every copy of the listener is removed from
    /// the event's listeners. The event must have been subscribed to.
    pub fn unsubscribe(&mut self, event: T, listener: L)
        requires
            obeys_concrete_eq::<T>() ==> old(self).has_event(event),
        ensures
            obeys_concrete_eq::<T>() && obeys_concrete_eq::<L>() && old(self).wf() ==> {
                &&& final(self).wf()
                &&& final(self).listeners(event) == old(self).listeners(event).filter(|l: L| l != listener)
                &&& forall|e: T| e != event ==> #[trigger] final(self).listeners(e) == old(self).listeners(e)
            },
    {
        proof { reveal(obeys_concrete_eq); }
        let ghost old_entries = self.entries();
        let ghost pred = |l: L| l != listener;
        match self.find(&event) {
            Some(i) => {
                let list = &self.events[i].1;
                let mut kept: Vec<L> = Vec::new();
                let mut k: usize = 0;
                while k < list.len()
                    invariant
                        k <= list@.len(),
                        pred == (|l: L| l != listener),
                        obeys_concrete_eq::<L>() ==> kept@ == list@.take(k as int).filter(pred),
                    decreases list@.len() - k,
                {
                    proof { reveal(obeys_concrete_eq); }
                    let l = list[k];
                    if l != listener {
                        kept.push(l);
                    }
                    proof {
                        reveal_with_fuel(Seq::<_>::filter, 1);
                        assert(list@.take(k as int + 1).drop_last() =~= list@.take(k as int));
                    }
                    k += 1;
                }
                proof {
                    assert(list@.take(list@.len() as int) =~= list@);
                }
                let ghost new_list = kept@;
                self.events[i].1 = kept;
                proof {
                    if obeys_concrete_eq::<T>() && obeys_concrete_eq::<L>() && old(self).wf() {
                        let ne = self.entries();
                        assert(ne =~= old_entries.update(i as int, (event, new_list)));
                        lemma_position(old_entries, event, i as int);
                        lemma_position(ne, event, i as int);
                        assert forall|e: T| e != event implies #[trigger] listeners_of(ne, e) == listeners_of(old_entries, e) by {
                            if position_of(old_entries, e) is Some {
                                let j = position_of(old_entries, e)->0;
                                lemma_position(ne, e, j);
                            } else {
                                assert forall|j: int| 0 <= j < ne.len() implies #[trigger] ne[j].0 != e by {
                                    if ne[j].0 == e {
                                        assert(old_entries[j].0 == e);
                                    }
                                }
                            }
                        }
                    }
                }
            },
            None => {},
        }
    }

    /// Notify subscribers of an event: each listener of the event is called
    /// with it, in subscription order.
    pub fn notify(&self, event: T)
        requires
            forall|i: int, j: int| 0 <= i < self.entries().len() && 0 <= j < self.entries()[i].1.len()
                ==> call_requires(#[trigger] self.entries()[i].1[j], (&event,)),
    {
        match self.find(&event) {
            Some(i) => {
                let listeners = &self.events[i].1;
                let mut k: usize = 0;
                while k < listeners.len()
                    invariant
                        i < self.entries().len(),
                        listeners@ == self.entries()[i as int].1,
                        k <= listeners@.len(),
                        forall|i: int, j: int| 0 <= i < self.entries().len() && 0 <= j < self.entries()[i].1.len()
                            ==> call_requires(#[trigger] self.entries()[i].1[j], (&event,)),
                    decreases listeners@.len() - k,
                {
                    let listener = listeners[k];
                    listener(&event);
                    k += 1;
                }
            },
            None => {},
        }
    }
}

} // verus!
