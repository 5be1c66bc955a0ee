//! The registry of computations in flight.
//!
//! When several callers miss the same key at once, one of them computes the
//! value and the others wait for it.  The registry holds, for each store key
//! that is being computed, the signal on which the waiters wait.  Whoever
//! enters a key that is not in the registry leads; whoever finds it there
//! waits on the signal found; the leader clears the key when the computation
//! has ended, however it ended, and tells the waiters through the signal.
//! The registry neither waits nor wakes: it only keeps the books, and is
//! meant to be used under one lock.
use vstd::prelude::*;
use vstd::slice::slice_to_vec;
use crate::wire::equal;

verus! {

/// The keys in flight, each with its signal.
pub struct Flights<S> {
    slots: Vec<(Vec<u8>, S)>,
}

/// What a caller is after entering a key.
pub enum Role<S> {
    /// The key was not in flight; it is now, with the caller's signal.  The
    /// caller runs the computation and clears the key afterwards.
    Leader,
    /// The key is in flight already.  The caller's signal comes back unused;
    /// the caller waits on the signal that the registry holds for the key.
    Waiter(S),
}

/// Whether a caller that enters `key` leads: nobody computes under that key yet.
pub open spec fn leads<S>(flights: Map<Seq<u8>, S>, key: Seq<u8>) -> bool {
    !flights.contains_key(key)
}

/// The registry after a caller has entered `key` with `signal`: a leader is
/// registered, a waiter changes nothing.
pub open spec fn entered<S>(flights: Map<Seq<u8>, S>, key: Seq<u8>, signal: S) -> Map<Seq<u8>, S> {
    if leads(flights, key) {
        flights.insert(key, signal)
    } else {
        flights
    }
}

/// How many callers lead, of those that enter `key` one after another with
/// the signals `signals` while nobody clears the key.
pub open spec fn leaders<S>(flights: Map<Seq<u8>, S>, key: Seq<u8>, signals: Seq<S>) -> nat
    decreases signals.len(),
{
    if signals.len() == 0 {
        0
    } else {
        let rest = leaders(entered(flights, key, signals[0]), key, signals.drop_first());
        if leads(flights, key) {
            1 + rest
        } else {
            rest
        }
    }
}

/// The signals that the callers go on with, of those that enter `key` one
/// after another with the signals `signals` while nobody clears the key: a
/// leader goes on with its own signal, a waiter with the one that the
/// registry holds for the key.
pub open spec fn signals_held<S>(flights: Map<Seq<u8>, S>, key: Seq<u8>, signals: Seq<S>) -> Seq<S>
    decreases signals.len(),
{
    if signals.len() == 0 {
        Seq::empty()
    } else {
        let next = entered(flights, key, signals[0]);
        seq![next[key]] + signals_held(next, key, signals.drop_first())
    }
}

impl<S> Flights<S> {
    /// The registry is in order: no key is held twice.
    pub closed spec fn wf(&self) -> bool {
        forall|i: int, j: int|
            0 <= i < j < self.slots@.len() ==> (#[trigger] self.slots@[i]).0@ != (
            #[trigger] self.slots@[j]).0@
    }

    /// Whether `key` is at position `i`.
    closed spec fn at(&self, key: Seq<u8>, i: int) -> bool {
        0 <= i < self.slots@.len() && self.slots@[i].0@ == key
    }

    /// Whether `key` is in flight.
    pub closed spec fn in_flight(&self, key: Seq<u8>) -> bool {
        exists|i: int| self.at(key, i)
    }

    /// The signal held for a key in flight.
    pub closed spec fn signal_of(&self, key: Seq<u8>) -> S {
        self.slots@[choose|i: int| self.at(key, i)].1
    }

    /// The registry as a map from the keys in flight to their signals.
    pub open spec fn view(&self) -> Map<Seq<u8>, S> {
        Map::new(|key: Seq<u8>| self.in_flight(key), |key: Seq<u8>| self.signal_of(key))
    }

    /// A registry with nothing in flight.
    pub fn new() -> (r: Self)
        ensures
            r.wf(),
            r@ == Map::<Seq<u8>, S>::empty(),
    {
        let r = Flights { slots: Vec::new() };
        assert(forall|key: Seq<u8>| !r.in_flight(key)) by {
            assert forall|key: Seq<u8>| !r.in_flight(key) by {
                assert(forall|i: int| !r.at(key, i));
            }
        }
        assert(r@ =~= Map::<Seq<u8>, S>::empty());
        r
    }

    /// Whether nothing is in flight.
    pub fn is_empty(&self) -> (r: bool)
        ensures
            r == (self@ == Map::<Seq<u8>, S>::empty()),
    {
        let r = self.slots.len() == 0;
        proof {
            if r {
                assert forall|key: Seq<u8>| !self.in_flight(key) by {
                    assert(forall|i: int| !self.at(key, i));
                }
                assert(self@ =~= Map::<Seq<u8>, S>::empty());
            } else {
                assert(self.at(self.slots@[0].0@, 0));
                assert(self@.contains_key(self.slots@[0].0@));
            }
        }
        r
    }

    /// The position of `key` among the slots.
    fn position(&self, key: &[u8]) -> (r: Option<usize>)
        ensures
            match r {
                Some(i) => self.at(key@, i as int),
                None => !self.in_flight(key@),
            },
    {
        let mut i: usize = 0;
        while i < self.slots.len()
            invariant
                i <= self.slots@.len(),
                forall|j: int| 0 <= j < i ==> !self.at(key@, j),
            decreases self.slots.len() - i,
        {
            if equal(self.slots[i].0.as_slice(), key) {
                return Some(i);
            }
            i += 1;
        }
        assert(forall|j: int| !self.at(key@, j));
        None
    }

    /// The signal of `key`, if `key` is in flight.
    pub fn signal(&self, key: &[u8]) -> (r: Option<&S>)
        requires
            self.wf(),
        ensures
            match r {
                Some(signal) => self@.contains_key(key@) && *signal == self@[key@],
                None => !self@.contains_key(key@),
            },
    {
        match self.position(key) {
            Some(i) => {
                proof {
                    let c = choose|c: int| self.at(key@, c);
                    assert(self.at(key@, c));
                    assert(c == i);
                }
                Some(&self.slots[i].1)
            },
            None => None,
        }
    }

    /// Enters `key`.  Where it is not in flight, it is registered with
    /// `signal` and the caller leads; where it is, nothing changes, and the
    /// caller gets `signal` back and waits.
    pub fn enter(&mut self, key: &[u8], signal: S) -> (r: Role<S>)
        requires
            old(self).wf(),
        ensures
            final(self).wf(),
            final(self)@ == entered(old(self)@, key@, signal),
            r == if leads(old(self)@, key@) {
                Role::Leader
            } else {
                Role::Waiter(signal)
            },
    {
        match self.position(key) {
            Some(_) => Role::Waiter(signal),
            None => {
                let ghost before = *self;
                let ghost n = self.slots@.len() as int;
                assert(forall|i: int| !before.at(key@, i));
                self.slots.push((slice_to_vec(key), signal));
                proof {
                    assert(self.at(key@, n));
                    assert forall|i: int, j: int| 0 <= i < j < self.slots@.len() implies (
                    #[trigger] self.slots@[i]).0@ != (#[trigger] self.slots@[j]).0@ by {
                        assert(self.slots@[i] == before.slots@[i]);
                        if j == n {
                            assert(!before.at(key@, i));
                        } else {
                            assert(self.slots@[j] == before.slots@[j]);
                        }
                    }
                    assert forall|k: Seq<u8>| self.in_flight(k) == (k == key@ || before.in_flight(
                        k,
                    )) by {
                        if before.in_flight(k) {
                            let i = choose|i: int| before.at(k, i);
                            assert(self.at(k, i));
                        }
                        if self.in_flight(k) && k != key@ {
                            let i = choose|i: int| self.at(k, i);
                            assert(before.at(k, i));
                        }
                    }
                    assert forall|k: Seq<u8>| self.in_flight(k) implies self.signal_of(k) == (if k
                        == key@ {
                        signal
                    } else {
                        before.signal_of(k)
                    }) by {
                        let i = choose|i: int| self.at(k, i);
                        if k == key@ {
                            assert(!before.at(key@, i));
                            assert(i == n);
                        } else {
                            assert(before.at(k, i));
                            let j = choose|j: int| before.at(k, j);
                            assert(i == j);
                        }
                    }
                    assert(self@ =~= before@.insert(key@, signal));
                }
                Role::Leader
            },
        }
    }

    /// Clears `key` and hands back its signal, so that the waiters can be
    /// told.  Where `key` is not in flight, nothing changes.
    pub fn clear(&mut self, key: &[u8]) -> (r: Option<S>)
        requires
            old(self).wf(),
        ensures
            final(self).wf(),
            match r {
                Some(signal) => {
                    &&& old(self)@.contains_key(key@)
                    &&& signal == old(self)@[key@]
                    &&& final(self)@ == old(self)@.remove(key@)
                },
                None => {
                    &&& !old(self)@.contains_key(key@)
                    &&& final(self)@ == old(self)@
                },
            },
    {
        match self.position(key) {
            None => None,
            Some(at) => {
                let ghost before = *self;
                proof {
                    let c = choose|c: int| before.at(key@, c);
                    assert(before.at(key@, c));
                    assert(c == at);
                }
                let slot: (Vec<u8>, S) = self.slots.remove(at);
                proof {
                    assert forall|k: Seq<u8>| self.in_flight(k) == (k != key@ && before.in_flight(
                        k,
                    )) by {
                        if before.in_flight(k) && k != key@ {
                            let i = choose|i: int| before.at(k, i);
                            if i < at {
                                assert(self.at(k, i));
                            } else {
                                assert(self.at(k, i - 1));
                            }
                        }
                        if self.in_flight(k) {
                            let i = choose|i: int| self.at(k, i);
                            if i < at {
                                assert(before.at(k, i));
                            } else {
                                assert(before.at(k, i + 1));
                            }
                        }
                    }
                    assert forall|k: Seq<u8>| self.in_flight(k) implies self.signal_of(k)
                        == before.signal_of(k) by {
                        let i = choose|i: int| self.at(k, i);
                        let j = choose|j: int| before.at(k, j);
                        if i < at {
                            assert(before.at(k, i));
                            assert(i == j);
                        } else {
                            assert(before.at(k, i + 1));
                            assert(i + 1 == j);
                        }
                    }
                    assert(self@ =~= before@.remove(key@));
                }
                Some(slot.1)
            },
        }
    }
}

} // verus!
