//! A registry of event listeners, keyed by event kind.

use vstd::prelude::*;

use std::collections::HashMap;

verus! {

broadcast use vstd::std_specs::hash::group_hash_axioms;

/// Something that reacts to events of type `E`.
pub trait Listener<E>: Sized {
    /// What reacting does, as the implementation defines it: whether
    /// notifying `self` of `event` may leave the listener as `after` and the
    /// event as `event_after`. An implementation that does not define it
    /// promises nothing about what reacting does.
    open spec fn notified(self, event: E, after: Self, event_after: E) -> bool {
        true
    }

    /// Reacts to `event`, which it may change.
    fn notify(&mut self, event: &mut E)
        ensures
            old(self).notified(*old(event), *final(self), *final(event)),
    ;
}

/// `after` is `before` with every listener notified once, in order, the
/// event passing from one to the next: listener `i` got `events[i]` and
/// handed on `events[i + 1]`.
pub open spec fn notified_in_turn<E, L: Listener<E>>(before: Seq<L>, after: Seq<L>, events: Seq<E>) -> bool {
    &&& after.len() == before.len()
    &&& events.len() == before.len() + 1
    &&& forall|i: int|
        0 <= i < before.len() ==> #[trigger] before[i].notified(events[i], after[i], events[i + 1])
}

/// The listeners registered for each event kind, in registration order.
pub open spec fn lists_of<L>(m: Map<u64, Vec<L>>) -> Map<u64, Seq<L>> {
    Map::new(|k: u64| m.contains_key(k), |k: u64| m[k]@)
}

/// The listener lists after `listener` is appended to those of `event`.
pub open spec fn with_listener<L>(lists: Map<u64, Seq<L>>, event: u64, listener: L) -> Map<u64, Seq<L>> {
    lists.insert(
        event,
        if lists.contains_key(event) {
            lists[event].push(listener)
        } else {
            seq![listener]
        },
    )
}

/// The kinds among the first `i + 1` of `s` are those among the first `i`,
/// and `s[i]`.
proof fn lemma_take_one_more(s: Seq<u64>, i: int)
    requires
        0 <= i < s.len(),
    ensures
        s.take(i + 1).to_set() == s.take(i).to_set().insert(s[i]),
{
    assert forall|k: u64| s.take(i + 1).to_set().contains(k) <==> s.take(i).to_set().insert(s[i]).contains(k) by {
        if s.take(i + 1).contains(k) {
            let j = choose|j: int| 0 <= j < s.take(i + 1).len() && #[trigger] s.take(i + 1)[j] == k;
            if j < i {
                assert(s.take(i)[j] == k);
            }
        }
        if s.take(i).contains(k) {
            let j = choose|j: int| 0 <= j < s.take(i).len() && #[trigger] s.take(i)[j] == k;
            assert(s.take(i + 1)[j] == k);
        }
        if k == s[i] {
            assert(s.take(i + 1)[i] == k);
        }
    }
    assert(s.take(i + 1).to_set() =~= s.take(i).to_set().insert(s[i]));
}

/// Listeners registered per event kind. Event kinds are numbered by the
/// caller; the listeners of one kind are kept in registration order.
pub struct EventRegistry<L> {
    pub events: HashMap<u64, Vec<L>>,
}

impl<L> EventRegistry<L> {
    /// The listeners of every event kind that has any entry.
    pub open spec fn lists(&self) -> Map<u64, Seq<L>> {
        lists_of(self.events@)
    }

    /// A registry with no entries.
    pub fn new() -> (r: Self)
        ensures
            r.lists() == Map::<u64, Seq<L>>::empty(),
    {
        let r = Self { events: HashMap::new() };
        assert(r.lists() =~= Map::<u64, Seq<L>>::empty());
        r
    }

    /// Appends `listener` to the listeners of `event`, creating the entry if
    /// there is none.
    pub fn register(&mut self, event: u64, listener: L)
        ensures
            final(self).lists() == with_listener(old(self).lists(), event, listener),
    {
        match self.events.remove(&event) {
            Some(mut list) => {
                list.push(listener);
                self.events.insert(event, list);
            },
            None => {
                let mut list = Vec::new();
                list.push(listener);
                self.events.insert(event, list);
            },
        }
        assert(self.lists() =~= with_listener(old(self).lists(), event, listener));
    }

    /// Hands `event` to every listener of kind `key`, in registration order.
    pub fn fire<E>(&mut self, key: u64, event: E)
        where L: Listener<E>,
        ensures
            final(self).lists().dom() == old(self).lists().dom(),
            forall|k: u64|
                k != key && #[trigger] old(self).lists().contains_key(k) ==> final(self).lists()[k]
                    == old(self).lists()[k],
            old(self).lists().contains_key(key) ==> exists|events: Seq<E>|
                events.len() > 0 && events[0] == event && #[trigger] notified_in_turn(
                    old(self).lists()[key],
                    final(self).lists()[key],
                    events,
                ),
    {
        let ghost first = event;
        let mut event = event;
        match self.events.remove(&key) {
            Some(mut list) => {
                let ghost orig = list@;
                let ghost mut events: Seq<E> = seq![first];
                let n = list.len();
                let mut i: usize = 0;
                while i < n
                    invariant
                        n == list@.len(),
                        n == orig.len(),
                        0 <= i <= n,
                        events.len() == i + 1,
                        events[0] == first,
                        events[i as int] == event,
                        forall|j: int| i <= j < n ==> list@[j] == orig[j],
                        forall|j: int|
                            0 <= j < i ==> #[trigger] orig[j].notified(events[j], list@[j], events[j + 1]),
                    decreases n - i,
                {
                    let ghost before_list = list@;
                    let ghost before_event = event;
                    list[i].notify(&mut event);
                    proof {
                        events = events.push(event);
                        assert(before_list[i as int] == orig[i as int]);
                    }
                    i = i + 1;
                }
                proof {
                    assert(notified_in_turn(orig, list@, events));
                }
                self.events.insert(key, list);
                assert(self.lists()[key] == list@);
                assert(orig == old(self).lists()[key]);
                assert(notified_in_turn(old(self).lists()[key], self.lists()[key], events));
                assert(events.len() > 0 && events[0] == first);
            },
            None => {},
        }
        assert(final(self).lists().dom() =~= old(self).lists().dom());
    }

    /// Removes every entry.
    pub fn clear_all(&mut self)
        ensures
            final(self).lists() == Map::<u64, Seq<L>>::empty(),
    {
        self.events.clear();
        assert(self.lists() =~= Map::<u64, Seq<L>>::empty());
    }

    /// Removes the entries of the kinds in `list`.
    pub fn clear_list(&mut self, list: &[u64])
        ensures
            final(self).lists() == old(self).lists().remove_keys(list@.to_set()),
    {
        let mut i: usize = 0;
        while i < list.len()
            invariant
                0 <= i <= list@.len(),
                self.lists() == old(self).lists().remove_keys(list@.take(i as int).to_set()),
            decreases list@.len() - i,
        {
            let ghost before = self.lists();
            self.events.remove(&list[i]);
            proof { lemma_take_one_more(list@, i as int); }
            assert(self.lists() =~= before.remove(list@[i as int]));
            assert(self.lists() =~= old(self).lists().remove_keys(list@.take(i + 1).to_set()));
            i = i + 1;
        }
        assert(list@.take(list@.len() as int) =~= list@);
    }

    /// Keeps only the entries of the kinds in `list`.
    pub fn clear_exclude(&mut self, list: &[u64])
        ensures
            final(self).lists() == old(self).lists().restrict(list@.to_set()),
    {
        let mut kept: HashMap<u64, Vec<L>> = HashMap::new();
        let mut i: usize = 0;
        while i < list.len()
            invariant
                0 <= i <= list@.len(),
                self.lists() == old(self).lists().remove_keys(list@.take(i as int).to_set()),
                lists_of(kept@) == old(self).lists().restrict(list@.take(i as int).to_set()),
            decreases list@.len() - i,
        {
            let key = list[i];
            let ghost before = self.lists();
            let ghost kept_before = lists_of(kept@);
            proof { lemma_take_one_more(list@, i as int); }
            match self.events.remove(&key) {
                Some(entry) => {
                    kept.insert(key, entry);
                    assert(lists_of(kept@) =~= kept_before.insert(key, before[key]));
                    assert(before.contains_key(key));
                    assert(!list@.take(i as int).to_set().contains(key));
                    assert(before[key] == old(self).lists()[key]);
                    assert(lists_of(kept@) =~= old(self).lists().restrict(list@.take(i + 1).to_set()));
                },
                None => {
                    assert(!before.contains_key(key));
                    assert(lists_of(kept@) =~= old(self).lists().restrict(list@.take(i + 1).to_set()));
                },
            }
            assert(self.lists() =~= before.remove(key));
            assert(self.lists() =~= old(self).lists().remove_keys(list@.take(i + 1).to_set()));
            assert(lists_of(kept@) =~= old(self).lists().restrict(list@.take(i + 1).to_set()));
            i = i + 1;
        }
        assert(list@.take(list@.len() as int) =~= list@);
        self.events = kept;
    }
}

/// Listeners registered one after another for a kind are kept in the order
/// of registration, after those already there; other kinds are untouched.
pub proof fn law_registration_order<L>(lists: Map<u64, Seq<L>>, event: u64, first: L, second: L)
    ensures
        with_listener(with_listener(lists, event, first), event, second)[event] == (if lists.contains_key(event) {
            lists[event]
        } else {
            Seq::<L>::empty()
        }) + seq![first, second],
        forall|k: u64|
            k != event ==> #[trigger] with_listener(with_listener(lists, event, first), event, second).contains_key(k)
                == lists.contains_key(k),
{
    let once = with_listener(lists, event, first);
    let twice = with_listener(once, event, second);
    let base = if lists.contains_key(event) { lists[event] } else { Seq::<L>::empty() };
    assert(once[event] =~= base.push(first));
    assert(twice[event] =~= base + seq![first, second]);
}

/// Keeping only the kinds in a list and then removing the kinds in the same
/// list leaves no entry.
pub proof fn law_exclude_then_list_empties<L>(lists: Map<u64, Seq<L>>, kinds: Set<u64>)
    ensures
        lists.restrict(kinds).remove_keys(kinds) == Map::<u64, Seq<L>>::empty(),
{
    assert(lists.restrict(kinds).remove_keys(kinds) =~= Map::<u64, Seq<L>>::empty());
}

/// Removing the kinds in a list and keeping only those in the same list
/// split the entries: every kind ends up in exactly one of the two results,
/// with its listeners unchanged.
pub proof fn law_clear_list_and_exclude_partition<L>(lists: Map<u64, Seq<L>>, kinds: Set<u64>)
    ensures
        lists.remove_keys(kinds).union_prefer_right(lists.restrict(kinds)) == lists,
        lists.remove_keys(kinds).dom().disjoint(lists.restrict(kinds).dom()),
{
    assert(lists.remove_keys(kinds).union_prefer_right(lists.restrict(kinds)) =~= lists);
}

} // verus!
