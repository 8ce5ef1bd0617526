//! Queues: bounded ones, and ones whose items are due at some time.

use crate::time::Instant;
use std::collections::VecDeque;
use vstd::prelude::*;

verus! {

/// A queue that drops its oldest item when it is full.
pub struct BoundedDeque<T> {
    items: VecDeque<T>,
    capacity: usize,
}

impl<T> View for BoundedDeque<T> {
    type V = Seq<T>;

    closed spec fn view(&self) -> Seq<T> {
        self.items@
    }
}

impl<T> BoundedDeque<T> {
    pub closed spec fn room(self) -> usize {
        self.capacity
    }

    pub fn new(capacity: usize) -> (queue: Self)
        ensures
            queue@ == Seq::<T>::empty(),
            queue.room() == capacity,
    {
        BoundedDeque { items: VecDeque::new(), capacity }
    }

    pub fn pop_front(&mut self) -> (item: Option<T>)
        ensures
            final(self).room() == old(self).room(),
            match item {
                Some(item) => old(self)@.len() > 0 && item == old(self)@[0] && final(self)@
                    == old(self)@.drop_first(),
                None => old(self)@.len() == 0 && final(self)@ == old(self)@,
            },
    {
        let item = self.items.pop_front();
        assert(item is Some ==> self.items@ =~= old(self).items@.drop_first());
        item
    }

    /// Adds an item. Where the queue is full the oldest one is dropped, and returned.
    pub fn push_back(&mut self, item: T) -> (dropped: Option<T>)
        ensures
            final(self).room() == old(self).room(),
            if old(self)@.len() >= old(self).room() && old(self)@.len() > 0 {
                dropped == Some(old(self)@[0]) && final(self)@ == old(self)@.drop_first().push(item)
            } else {
                dropped is None && final(self)@ == old(self)@.push(item)
            },
    {
        let dropped = if self.items.len() >= self.capacity {
            self.items.pop_front()
        } else {
            None
        };
        assert(dropped is Some ==> self.items@ =~= old(self).items@.drop_first());
        self.items.push_back(item);
        dropped
    }

    pub fn len(&self) -> (len: usize)
        ensures
            len == self@.len(),
    {
        self.items.len()
    }

    pub fn has_capacity(&self) -> (answer: bool)
        ensures
            answer == (self@.len() < self.room()),
    {
        self.items.len() < self.capacity
    }

    /// Takes every item.
    pub fn take_all(&mut self) -> (items: VecDeque<T>)
        ensures
            items@ == old(self)@,
            final(self)@ == Seq::<T>::empty(),
            final(self).room() == old(self).room(),
    {
        let mut items: VecDeque<T> = VecDeque::new();
        std::mem::swap(&mut self.items, &mut items);
        items
    }

    /// Holds these items and no others.
    pub fn replace_all(&mut self, items: VecDeque<T>)
        ensures
            final(self)@ == items@,
            final(self).room() == old(self).room(),
    {
        self.items = items;
    }
}

/// Items in the order in which they are due, those due at one time in the order in which
/// they came.
pub struct DeadlineQueue<T> {
    items: VecDeque<(Instant, T)>,
}

/// The items with their deadlines.
impl<T> View for DeadlineQueue<T> {
    type V = Seq<(Instant, T)>;

    closed spec fn view(&self) -> Seq<(Instant, T)> {
        self.items@
    }
}

pub open spec fn by_deadline<T>(items: Seq<(Instant, T)>) -> bool {
    forall|i: int, j: int|
        0 <= i < j < items.len() ==> (#[trigger] items[i]).0.nanos <= (#[trigger] items[j]).0.nanos
}

/// How many items are due at `deadline` or before.
pub open spec fn due_by<T>(items: Seq<(Instant, T)>, deadline: Instant) -> int
    decreases items.len(),
{
    if items.len() == 0 {
        0
    } else if items.last().0.nanos <= deadline.nanos {
        items.len() as int
    } else {
        due_by(items.drop_last(), deadline)
    }
}

proof fn lemma_due_by<T>(items: Seq<(Instant, T)>, deadline: Instant, count: int)
    requires
        0 <= count <= items.len(),
        count > 0 ==> items[count - 1].0.nanos <= deadline.nanos,
        forall|i: int| count <= i < items.len() ==> (#[trigger] items[i]).0.nanos > deadline.nanos,
    ensures
        due_by(items, deadline) == count,
    decreases items.len(),
{
    if items.len() > count {
        assert(items[items.len() - 1].0.nanos > deadline.nanos);
        lemma_due_by(items.drop_last(), deadline, count);
    }
}

proof fn lemma_inserted_by_deadline<T>(items: Seq<(Instant, T)>, value: T, deadline: Instant)
    requires
        by_deadline(items),
    ensures
        0 <= due_by(items, deadline) <= items.len(),
        by_deadline(items.insert(due_by(items, deadline), (deadline, value))),
    decreases items.len(),
{
    lemma_due_by_splits(items, deadline);
    let at = due_by(items, deadline);
    let after = items.insert(at, (deadline, value));
    assert forall|i: int, j: int| 0 <= i < j < after.len() implies (#[trigger] after[i]).0.nanos
        <= (#[trigger] after[j]).0.nanos by {
        if i < at && j < at {
            assert(items[i].0.nanos <= items[j].0.nanos);
        } else if i < at && j > at {
            assert(items[i].0.nanos <= items[j - 1].0.nanos);
        } else if i > at {
            assert(items[i - 1].0.nanos <= items[j - 1].0.nanos);
        }
    }
}

pub proof fn lemma_due_by_splits<T>(items: Seq<(Instant, T)>, deadline: Instant)
    requires
        by_deadline(items),
    ensures
        0 <= due_by(items, deadline) <= items.len(),
        forall|i: int|
            0 <= i < due_by(items, deadline) ==> (#[trigger] items[i]).0.nanos <= deadline.nanos,
        forall|i: int|
            due_by(items, deadline) <= i < items.len() ==> (#[trigger] items[i]).0.nanos
                > deadline.nanos,
    decreases items.len(),
{
    if items.len() > 0 {
        let last = items.len() - 1;
        if items[last].0.nanos <= deadline.nanos {
            assert forall|i: int| 0 <= i < items.len() implies (#[trigger] items[i]).0.nanos
                <= deadline.nanos by {
                if i < last {
                    assert(items[i].0.nanos <= items[last].0.nanos);
                }
            }
        } else {
            let before = items.drop_last();
            assert forall|i: int, j: int| 0 <= i < j < before.len() implies (
            #[trigger] before[i]).0.nanos <= (#[trigger] before[j]).0.nanos by {
                assert(items[i].0.nanos <= items[j].0.nanos);
            }
            lemma_due_by_splits(before, deadline);
            assert forall|i: int| 0 <= i < due_by(items, deadline) implies (
            #[trigger] items[i]).0.nanos <= deadline.nanos by {
                assert(before[i] == items[i]);
            }
            assert forall|i: int| due_by(items, deadline) <= i < items.len() implies (
            #[trigger] items[i]).0.nanos > deadline.nanos by {
                if i < last {
                    assert(before[i] == items[i]);
                }
            }
        }
    }
}

impl<T> DeadlineQueue<T> {
    #[verifier::type_invariant]
    spec fn valid(self) -> bool {
        by_deadline(self.items@)
    }

    pub fn new() -> (queue: Self)
        ensures
            queue@ == Seq::<(Instant, T)>::empty(),
    {
        DeadlineQueue { items: VecDeque::new() }
    }

    fn take(&mut self) -> (items: VecDeque<(Instant, T)>)
        ensures
            items@ == old(self)@,
            by_deadline(items@),
    {
        proof {
            use_type_invariant(&*self);
        }
        let mut items: VecDeque<(Instant, T)> = VecDeque::new();
        std::mem::swap(&mut self.items, &mut items);
        items
    }

    /// Adds an item, behind everything that is due no later.
    pub fn push(&mut self, value: T, deadline: Instant)
        ensures
            final(self)@ == old(self)@.insert(due_by(old(self)@, deadline), (deadline, value)),
            0 <= due_by(old(self)@, deadline) <= old(self)@.len(),
            by_deadline(final(self)@),
    {
        let mut items = self.take();
        let len = items.len();
        let mut at: usize = len;
        while at > 0 && items[at - 1].0.nanos > deadline.nanos
            invariant
                len == items@.len(),
                at <= len,
                forall|i: int|
                    at <= i < len ==> (#[trigger] items@[i]).0.nanos > deadline.nanos,
            decreases at,
        {
            at = at - 1;
        }
        proof {
            lemma_due_by(items@, deadline, at as int);
            lemma_inserted_by_deadline(items@, value, deadline);
        }
        items.insert(at, (deadline, value));
        self.items = items;
    }

    /// When the first item is due.
    pub fn next_deadline(&self) -> (deadline: Option<Instant>)
        ensures
            deadline == (if self@.len() == 0 {
                None
            } else {
                Some(self@[0].0)
            }),
            by_deadline(self@),
    {
        proof {
            use_type_invariant(self);
        }
        if self.items.len() == 0 {
            None
        } else {
            Some(self.items[0].0)
        }
    }

    /// Takes the first item, if it is due.
    pub fn pop_expired(&mut self, now: Instant) -> (value: Option<T>)
        ensures
            if old(self)@.len() > 0 && old(self)@[0].0.nanos <= now.nanos {
                value == Some(old(self)@[0].1) && final(self)@ == old(self)@.drop_first()
            } else {
                value is None && final(self)@ == old(self)@
            },
    {
        if let Some(deadline) = self.next_deadline() {
            if now.reached(deadline) {
                return self.pop_front();
            }
        }
        None
    }

    /// Takes the first item, due or not.
    pub fn pop_front(&mut self) -> (value: Option<T>)
        ensures
            if old(self)@.len() > 0 {
                value == Some(old(self)@[0].1) && final(self)@ == old(self)@.drop_first()
            } else {
                value is None && final(self)@ == old(self)@
            },
    {
        let mut items = self.take();
        let ghost before = items@;
        let value = match items.pop_front() {
            Some((_, value)) => Some(value),
            None => None,
        };
        proof {
            if before.len() > 0 {
                assert(items@ =~= before.drop_first());
                assert forall|i: int, j: int| 0 <= i < j < items@.len() implies (
                #[trigger] items@[i]).0.nanos <= (#[trigger] items@[j]).0.nanos by {
                    assert(before[i + 1].0.nanos <= before[j + 1].0.nanos);
                }
            }
        }
        self.items = items;
        value
    }

    /// Takes the first item with its deadline, due or not.
    pub fn pop_entry(&mut self) -> (entry: Option<(Instant, T)>)
        ensures
            if old(self)@.len() > 0 {
                entry == Some(old(self)@[0]) && final(self)@ == old(self)@.drop_first()
            } else {
                entry is None && final(self)@ == old(self)@
            },
    {
        match self.next_deadline() {
            Some(deadline) => match self.pop_front() {
                Some(value) => Some((deadline, value)),
                None => None,
            },
            None => None,
        }
    }

    /// Takes every item, in the order in which they are due.
    pub fn drain_all(&mut self) -> (values: Vec<T>)
        ensures
            values@ == old(self)@.map_values(|item: (Instant, T)| item.1),
            final(self)@.len() == 0,
    {
        let mut items = self.take();
        let ghost all = items@;
        let mut values: Vec<T> = Vec::new();
        while items.len() > 0
            invariant
                values@.len() <= all.len(),
                items@ == all.skip(values@.len() as int),
                values@ == all.take(values@.len() as int).map_values(
                    |item: (Instant, T)| item.1,
                ),
            decreases items@.len(),
        {
            let ghost seen = values@.len() as int;
            if let Some((_, value)) = items.pop_front() {
                values.push(value);
            }
            assert(items@ =~= all.skip(seen + 1));
            assert(values@ =~= all.take(seen + 1).map_values(|item: (Instant, T)| item.1));
        }
        assert(all.take(values@.len() as int) =~= all);
        self.items = items;
        values
    }

    /// Takes every item that is due, in the order in which they are due.
    pub fn drain_expired(&mut self, now: Instant) -> (values: Vec<T>)
        ensures
            ({
                let due = due_by(old(self)@, now);
                &&& 0 <= due <= old(self)@.len()
                &&& values@ == old(self)@.take(due).map_values(|item: (Instant, T)| item.1)
                &&& final(self)@ == old(self)@.skip(due)
            }),
    {
        proof {
            use_type_invariant(&*self);
            lemma_due_by_splits(self.items@, now);
        }
        let ghost all = self@;
        let ghost due = due_by(all, now);
        let mut values: Vec<T> = Vec::new();
        assert(self@ =~= all.skip(0));
        assert(values@ =~= all.take(0).map_values(|item: (Instant, T)| item.1));
        loop
            invariant_except_break
                values@.len() <= due,
            invariant
                0 <= due <= all.len(),
                values@.len() <= all.len(),
                self@ == all.skip(values@.len() as int),
                values@ == all.take(values@.len() as int).map_values(
                    |item: (Instant, T)| item.1,
                ),
                forall|i: int| 0 <= i < due ==> (#[trigger] all[i]).0.nanos <= now.nanos,
                forall|i: int| due <= i < all.len() ==> (#[trigger] all[i]).0.nanos > now.nanos,
            ensures
                values@.len() == due,
            decreases all.len() - values@.len(),
        {
            let ghost seen = values@.len() as int;
            assert(seen < all.len() ==> self@[0] == all[seen]);
            match self.pop_expired(now) {
                Some(value) => {
                    values.push(value);
                    assert(self@ =~= all.skip(seen + 1));
                    assert(values@ =~= all.take(seen + 1).map_values(
                        |item: (Instant, T)| item.1,
                    ));
                },
                None => {
                    break;
                },
            }
        }
        values
    }

    pub fn len(&self) -> (len: usize)
        ensures
            len == self@.len(),
    {
        self.items.len()
    }

    /// The item at a place in the order.
    pub fn get(&self, index: usize) -> (value: Option<&T>)
        ensures
            match value {
                Some(value) => index < self@.len() && *value == self@[index as int].1,
                None => index >= self@.len(),
            },
    {
        if index < self.items.len() {
            Some(&self.items[index].1)
        } else {
            None
        }
    }
}

/// What is due first comes first: whatever is pushed, nothing in the queue is due before
/// its first item, and what was there stays in its order.
pub proof fn law_first_due_comes_first<T>(items: Seq<(Instant, T)>, value: T, deadline: Instant)
    requires
        by_deadline(items),
    ensures
        ({
            let at = due_by(items, deadline);
            let after = items.insert(at, (deadline, value));
            &&& by_deadline(after)
            &&& after.remove(at) == items
            &&& forall|i: int|
                0 <= i < after.len() ==> after[0].0.nanos <= (#[trigger] after[i]).0.nanos
        }),
{
    lemma_inserted_by_deadline(items, value, deadline);
    let at = due_by(items, deadline);
    let after = items.insert(at, (deadline, value));
    assert(after.remove(at) =~= items);
}

/// What a row of keys with deadlines is as a map.
pub open spec fn deadlines_of(entries: Seq<(Instant, u64)>) -> Map<u64, Instant> {
    Map::new(
        |key: u64| exists|i: int| 0 <= i < entries.len() && (#[trigger] entries[i]).1 == key,
        |key: u64|
            entries[choose|i: int| 0 <= i < entries.len() && (#[trigger] entries[i]).1 == key].0,
    )
}

pub open spec fn distinct_keys(entries: Seq<(Instant, u64)>) -> bool {
    forall|i: int, j: int|
        0 <= i < j < entries.len() ==> (#[trigger] entries[i]).1 != (#[trigger] entries[j]).1
}

proof fn lemma_deadline_of(entries: Seq<(Instant, u64)>, at: int)
    requires
        distinct_keys(entries),
        0 <= at < entries.len(),
    ensures
        deadlines_of(entries).dom().contains(entries[at].1),
        deadlines_of(entries)[entries[at].1] == entries[at].0,
{
    let key = entries[at].1;
    let i = choose|i: int| 0 <= i < entries.len() && (#[trigger] entries[i]).1 == key;
    assert(i == at) by {
        if i < at {
            assert(entries[i].1 != entries[at].1);
        } else if at < i {
            assert(entries[at].1 != entries[i].1);
        }
    }
}

proof fn lemma_key_at(entries: Seq<(Instant, u64)>, key: u64) -> (at: int)
    requires
        distinct_keys(entries),
        deadlines_of(entries).dom().contains(key),
    ensures
        0 <= at < entries.len(),
        entries[at].1 == key,
        entries[at].0 == deadlines_of(entries)[key],
{
    let at = choose|i: int| 0 <= i < entries.len() && (#[trigger] entries[i]).1 == key;
    lemma_deadline_of(entries, at);
    at
}

proof fn lemma_entry_removed(entries: Seq<(Instant, u64)>, at: int)
    requires
        distinct_keys(entries),
        by_deadline(entries),
        0 <= at < entries.len(),
    ensures
        distinct_keys(entries.remove(at)),
        by_deadline(entries.remove(at)),
        deadlines_of(entries.remove(at)) == deadlines_of(entries).remove(entries[at].1),
{
    let after = entries.remove(at);
    let key = entries[at].1;
    assert forall|i: int, j: int| 0 <= i < j < after.len() implies (#[trigger] after[i]).1 != (
    #[trigger] after[j]).1 && after[i].0.nanos <= after[j].0.nanos by {
        let a = if i < at {
            i
        } else {
            i + 1
        };
        let b = if j < at {
            j
        } else {
            j + 1
        };
        assert(entries[a].1 != entries[b].1);
        assert(entries[a].0.nanos <= entries[b].0.nanos);
    }
    let left = deadlines_of(after);
    let right = deadlines_of(entries).remove(key);
    assert forall|k: u64| left.dom().contains(k) <==> right.dom().contains(k) by {
        if left.dom().contains(k) {
            let i = lemma_key_at(after, k);
            let a = if i < at {
                i
            } else {
                i + 1
            };
            lemma_deadline_of(entries, a);
            if a < at {
                assert(entries[a].1 != entries[at].1);
            } else {
                assert(entries[at].1 != entries[a].1);
            }
        }
        if right.dom().contains(k) {
            let a = lemma_key_at(entries, k);
            let i = if a < at {
                a
            } else {
                a - 1
            };
            assert(after[i] == entries[a]);
            lemma_deadline_of(after, i);
        }
    }
    assert forall|k: u64| left.dom().contains(k) implies left[k] == right[k] by {
        let i = lemma_key_at(after, k);
        let a = if i < at {
            i
        } else {
            i + 1
        };
        assert(after[i] == entries[a]);
        lemma_deadline_of(entries, a);
    }
    assert(left =~= right);
}

proof fn lemma_entry_inserted(entries: Seq<(Instant, u64)>, at: int, key: u64, deadline: Instant)
    requires
        distinct_keys(entries),
        0 <= at <= entries.len(),
        !deadlines_of(entries).dom().contains(key),
    ensures
        distinct_keys(entries.insert(at, (deadline, key))),
        deadlines_of(entries.insert(at, (deadline, key))) == deadlines_of(entries).insert(
            key,
            deadline,
        ),
{
    let after = entries.insert(at, (deadline, key));
    assert forall|i: int| 0 <= i < entries.len() implies (#[trigger] entries[i]).1 != key by {
        if entries[i].1 == key {
            lemma_deadline_of(entries, i);
        }
    }
    assert forall|i: int, j: int| 0 <= i < j < after.len() implies (#[trigger] after[i]).1 != (
    #[trigger] after[j]).1 by {
        if i < at && j < at {
            assert(entries[i].1 != entries[j].1);
        } else if i < at && j > at {
            assert(entries[i].1 != entries[j - 1].1);
        } else if i > at {
            assert(entries[i - 1].1 != entries[j - 1].1);
        } else if i == at {
            assert(entries[j - 1].1 != key);
        } else {
            assert(entries[i].1 != key);
        }
    }
    let left = deadlines_of(after);
    let right = deadlines_of(entries).insert(key, deadline);
    assert(after[at] == (deadline, key));
    lemma_deadline_of(after, at);
    assert forall|k: u64| left.dom().contains(k) <==> right.dom().contains(k) by {
        if left.dom().contains(k) && k != key {
            let i = lemma_key_at(after, k);
            let a = if i < at {
                i
            } else {
                i - 1
            };
            assert(after[i] == entries[a]);
            lemma_deadline_of(entries, a);
        }
        if right.dom().contains(k) && k != key {
            let a = lemma_key_at(entries, k);
            let i = if a < at {
                a
            } else {
                a + 1
            };
            assert(after[i] == entries[a]);
            lemma_deadline_of(after, i);
        }
    }
    assert forall|k: u64| left.dom().contains(k) implies left[k] == right[k] by {
        if k != key {
            let i = lemma_key_at(after, k);
            let a = if i < at {
                i
            } else {
                i - 1
            };
            assert(after[i] == entries[a]);
            lemma_deadline_of(entries, a);
        }
    }
    assert(left =~= right);
}

/// Keys, each with the time at which it is due.
pub struct DeadlineSet {
    entries: Vec<(Instant, u64)>,
}

impl View for DeadlineSet {
    type V = Map<u64, Instant>;

    closed spec fn view(&self) -> Map<u64, Instant> {
        deadlines_of(self.entries@)
    }
}

/// Whether nothing in a map is due before `deadline`.
pub open spec fn none_before(deadlines: Map<u64, Instant>, deadline: Instant) -> bool {
    forall|key: u64|
        deadlines.dom().contains(key) ==> deadline.nanos <= (#[trigger] deadlines[key]).nanos
}

impl DeadlineSet {
    #[verifier::type_invariant]
    spec fn valid(self) -> bool {
        by_deadline(self.entries@) && distinct_keys(self.entries@)
    }

    /// How many keys there are.
    pub closed spec fn count(self) -> nat {
        self.entries@.len()
    }

    pub fn new() -> (set: Self)
        ensures
            set@ == Map::<u64, Instant>::empty(),
            set.count() == 0,
    {
        let set = DeadlineSet { entries: Vec::new() };
        assert(deadlines_of(set.entries@) =~= Map::<u64, Instant>::empty());
        set
    }

    fn take(&mut self) -> (entries: Vec<(Instant, u64)>)
        ensures
            deadlines_of(entries@) == old(self)@,
            entries@.len() == old(self).count(),
            by_deadline(entries@),
            distinct_keys(entries@),
    {
        proof {
            use_type_invariant(&*self);
        }
        let mut entries: Vec<(Instant, u64)> = Vec::new();
        std::mem::swap(&mut self.entries, &mut entries);
        entries
    }

    /// Sets when a key is due, whatever was said of it before.
    pub fn insert(&mut self, key: u64, deadline: Instant)
        ensures
            final(self)@ == old(self)@.insert(key, deadline),
    {
        let _ = self.remove(key);
        let ghost without = self@;
        let mut entries = self.take();
        let len = entries.len();
        let mut at: usize = len;
        while at > 0 && entries[at - 1].0.nanos > deadline.nanos
            invariant
                len == entries@.len(),
                at <= len,
                forall|i: int|
                    at <= i < len ==> (#[trigger] entries@[i]).0.nanos > deadline.nanos,
            decreases at,
        {
            at = at - 1;
        }
        proof {
            lemma_due_by(entries@, deadline, at as int);
            lemma_inserted_by_deadline(entries@, key, deadline);
            lemma_entry_inserted(entries@, at as int, key, deadline);
            assert(old(self)@.remove(key).insert(key, deadline) =~= old(self)@.insert(
                key,
                deadline,
            ));
        }
        entries.insert(at, (deadline, key));
        self.entries = entries;
    }

    /// Forgets a key, and says whether it was there.
    pub fn remove(&mut self, key: u64) -> (removed: bool)
        ensures
            removed == old(self)@.dom().contains(key),
            final(self)@ == old(self)@.remove(key),
    {
        let mut entries = self.take();
        let len = entries.len();
        let mut at: usize = 0;
        while at < len
            invariant
                len == entries@.len(),
                at <= len,
                deadlines_of(entries@) == old(self)@,
                by_deadline(entries@),
                distinct_keys(entries@),
                forall|i: int| 0 <= i < at ==> (#[trigger] entries@[i]).1 != key,
            decreases len - at,
        {
            if entries[at].1 == key {
                proof {
                    lemma_deadline_of(entries@, at as int);
                    lemma_entry_removed(entries@, at as int);
                }
                let _ = entries.remove(at);
                self.entries = entries;
                return true;
            }
            at = at + 1;
        }
        assert(old(self)@.remove(key) =~= old(self)@);
        self.entries = entries;
        false
    }

    /// When the first key is due.
    pub fn next_deadline(&self) -> (deadline: Option<Instant>)
        ensures
            match deadline {
                None => self@ == Map::<u64, Instant>::empty(),
                Some(deadline) => none_before(self@, deadline) && exists|key: u64|
                    self@.dom().contains(key) && #[trigger] self@[key] == deadline,
            },
    {
        proof {
            use_type_invariant(self);
        }
        if self.entries.len() == 0 {
            assert(deadlines_of(self.entries@) =~= Map::<u64, Instant>::empty());
            None
        } else {
            proof {
                let entries = self.entries@;
                lemma_deadline_of(entries, 0);
                assert forall|key: u64| self@.dom().contains(key) implies entries[0].0.nanos <= (
                #[trigger] self@[key]).nanos by {
                    let at = lemma_key_at(entries, key);
                    if at > 0 {
                        assert(entries[0].0.nanos <= entries[at].0.nanos);
                    }
                }
            }
            Some(self.entries[0].0)
        }
    }

    /// Takes a key that is due, one of those that are due first.
    pub fn pop_expired(&mut self, now: Instant) -> (key: Option<u64>)
        ensures
            match key {
                Some(key) => {
                    &&& old(self)@.dom().contains(key)
                    &&& old(self)@[key].nanos <= now.nanos
                    &&& none_before(old(self)@, old(self)@[key])
                    &&& final(self)@ == old(self)@.remove(key)
                    &&& final(self).count() < old(self).count()
                },
                None => {
                    &&& final(self)@ == old(self)@
                    &&& forall|key: u64|
                        old(self)@.dom().contains(key) ==> (#[trigger] old(self)@[key]).nanos
                            > now.nanos
                },
            },
    {
        let mut entries = self.take();
        let ghost before = entries@;
        if entries.len() > 0 && now.reached(entries[0].0) {
            proof {
                lemma_deadline_of(before, 0);
                lemma_entry_removed(before, 0);
                assert forall|key: u64| old(self)@.dom().contains(key) implies before[0].0.nanos
                    <= (#[trigger] old(self)@[key]).nanos by {
                    let at = lemma_key_at(before, key);
                    if at > 0 {
                        assert(before[0].0.nanos <= before[at].0.nanos);
                    }
                }
            }
            let (_, key) = entries.remove(0);
            self.entries = entries;
            return Some(key);
        }
        proof {
            assert forall|key: u64| old(self)@.dom().contains(key) implies (
            #[trigger] old(self)@[key]).nanos > now.nanos by {
                let at = lemma_key_at(before, key);
                if at > 0 {
                    assert(before[0].0.nanos <= before[at].0.nanos);
                }
            }
        }
        self.entries = entries;
        None
    }

    pub fn clear(&mut self)
        ensures
            final(self)@ == Map::<u64, Instant>::empty(),
    {
        *self = Self::new();
    }
}

/// Requests in the order in which they are served, by their ids, some of them with a
/// time by which they have to be.
pub struct PendingRequestQueue {
    order: VecDeque<u64>,
    deadlines: DeadlineSet,
}

impl PendingRequestQueue {
    /// The ids in the order in which they are served.
    pub closed spec fn waiting(self) -> Seq<u64> {
        self.order@
    }

    /// The times by which requests have to be served.
    pub closed spec fn times(self) -> Map<u64, Instant> {
        self.deadlines@
    }

    pub fn new() -> (queue: Self)
        ensures
            queue.waiting() == Seq::<u64>::empty(),
            queue.times() == Map::<u64, Instant>::empty(),
    {
        PendingRequestQueue { order: VecDeque::new(), deadlines: DeadlineSet::new() }
    }

    pub fn is_empty(&self) -> (empty: bool)
        ensures
            empty == (self.waiting().len() == 0),
    {
        self.order.len() == 0
    }

    /// Adds a request behind the others.
    pub fn push_back(&mut self, id: u64, deadline: Option<Instant>)
        ensures
            final(self).waiting() == old(self).waiting().push(id),
            final(self).times() == (match deadline {
                Some(deadline) => old(self).times().insert(id, deadline),
                None => old(self).times(),
            }),
    {
        if let Some(deadline) = deadline {
            self.deadlines.insert(id, deadline);
        }
        self.order.push_back(id);
    }

    /// Puts a request back in front of the others.
    pub fn push_front(&mut self, id: u64, deadline: Option<Instant>)
        ensures
            final(self).waiting() == seq![id] + old(self).waiting(),
            final(self).times() == (match deadline {
                Some(deadline) => old(self).times().insert(id, deadline),
                None => old(self).times(),
            }),
    {
        if let Some(deadline) = deadline {
            self.deadlines.insert(id, deadline);
        }
        self.order.push_front(id);
        assert(self.order@ =~= seq![id] + old(self).order@);
    }

    /// Takes the request that is served next.
    pub fn pop_front(&mut self) -> (id: Option<u64>)
        ensures
            match id {
                Some(id) => {
                    &&& old(self).waiting().len() > 0
                    &&& id == old(self).waiting()[0]
                    &&& final(self).waiting() == old(self).waiting().drop_first()
                    &&& final(self).times() == old(self).times().remove(id)
                },
                None => {
                    &&& old(self).waiting().len() == 0
                    &&& final(self).waiting() == old(self).waiting()
                    &&& final(self).times() == old(self).times()
                },
            },
    {
        match self.order.pop_front() {
            Some(id) => {
                assert(self.order@ =~= old(self).order@.drop_first());
                let _ = self.deadlines.remove(id);
                Some(id)
            },
            None => None,
        }
    }

    /// Forgets a request that nobody waits for any more.
    pub fn discard(&mut self, id: u64)
        ensures
            final(self).waiting() == without(old(self).waiting(), id),
            final(self).times() == old(self).times().remove(id),
    {
        let _ = self.deadlines.remove(id);
        let mut order: VecDeque<u64> = VecDeque::new();
        std::mem::swap(&mut self.order, &mut order);
        let ghost all = order@;
        let len = order.len();
        let mut kept: VecDeque<u64> = VecDeque::new();
        let mut i: usize = 0;
        assert(kept@ =~= without(all.take(0), id));
        while i < len
            invariant
                len == order@.len(),
                order@ == all,
                i <= len,
                kept@ == without(all.take(i as int), id),
            decreases len - i,
        {
            assert(all.take(i + 1).drop_last() =~= all.take(i as int));
            if order[i] != id {
                kept.push_back(order[i]);
            }
            i = i + 1;
        }
        assert(all.take(i as int) =~= all);
        self.order = kept;
    }

    /// Takes a request whose time is up, one of those whose time was up first.
    pub fn pop_expired(&mut self, now: Instant) -> (id: Option<u64>)
        ensures
            match id {
                Some(id) => {
                    &&& old(self).times().dom().contains(id)
                    &&& old(self).times()[id].nanos <= now.nanos
                    &&& none_before(old(self).times(), old(self).times()[id])
                    &&& final(self).times() == old(self).times().remove(id)
                    &&& final(self).waiting() == without(old(self).waiting(), id)
                },
                None => {
                    &&& final(self).times() == old(self).times()
                    &&& final(self).waiting() == old(self).waiting()
                    &&& forall|id: u64|
                        old(self).times().dom().contains(id) ==> (
                        #[trigger] old(self).times()[id]).nanos > now.nanos
                },
            },
    {
        match self.deadlines.pop_expired(now) {
            Some(id) => {
                let ghost times = self.deadlines@;
                self.discard(id);
                assert(self.deadlines@ =~= times);
                Some(id)
            },
            None => None,
        }
    }

    /// Takes every request, in the order in which they would be served.
    pub fn take_all(&mut self) -> (ids: Vec<u64>)
        ensures
            ids@ == old(self).waiting(),
            final(self).waiting().len() == 0,
            final(self).times() == Map::<u64, Instant>::empty(),
    {
        let ghost all = self.order@;
        let mut ids: Vec<u64> = Vec::new();
        let len = self.order.len();
        let mut i: usize = 0;
        while i < len
            invariant
                len == self.order@.len(),
                self.order@ == all,
                i <= len,
                ids@ == all.take(i as int),
            decreases len - i,
        {
            ids.push(self.order[i]);
            i = i + 1;
            assert(ids@ =~= all.take(i as int));
        }
        assert(ids@ =~= all);
        self.order.clear();
        self.deadlines.clear();
        ids
    }

    pub fn next_deadline(&self) -> (deadline: Option<Instant>)
        ensures
            match deadline {
                None => self.times() == Map::<u64, Instant>::empty(),
                Some(deadline) => none_before(self.times(), deadline) && exists|id: u64|
                    self.times().dom().contains(id) && #[trigger] self.times()[id] == deadline,
            },
    {
        let deadline = self.deadlines.next_deadline();
        assert(self.times() == self.deadlines@);
        deadline
    }
}

/// A row of ids without one of them.
pub open spec fn without(ids: Seq<u64>, id: u64) -> Seq<u64>
    decreases ids.len(),
{
    if ids.len() == 0 {
        seq![]
    } else if ids.last() == id {
        without(ids.drop_last(), id)
    } else {
        without(ids.drop_last(), id).push(ids.last())
    }
}

/// What is due at the same time comes in the order in which it was pushed: an item is put
/// behind all that is due no later, and before all that is due later.
pub proof fn law_equals_stay_in_order<T>(items: Seq<(Instant, T)>, deadline: Instant, i: int)
    requires
        by_deadline(items),
        0 <= i < items.len(),
    ensures
        i < due_by(items, deadline) <==> items[i].0.nanos <= deadline.nanos,
    decreases items.len(),
{
    if items.last().0.nanos > deadline.nanos {
        let rest = items.drop_last();
        assert forall|a: int, b: int| 0 <= a < b < rest.len() implies (
        #[trigger] rest[a]).0.nanos <= (#[trigger] rest[b]).0.nanos by {
            assert(items[a].0.nanos <= items[b].0.nanos);
        }
        if i < rest.len() {
            law_equals_stay_in_order(rest, deadline, i);
            assert(rest[i] == items[i]);
        } else {
            lemma_due_by_is_within(rest, deadline);
        }
    }
}

proof fn lemma_due_by_is_within<T>(items: Seq<(Instant, T)>, deadline: Instant)
    ensures
        0 <= due_by(items, deadline) <= items.len(),
    decreases items.len(),
{
    if items.len() > 0 {
        lemma_due_by_is_within(items.drop_last(), deadline);
    }
}

/// A request that is taken out is gone, and the others keep their order.
pub proof fn law_the_others_keep_their_order(ids: Seq<u64>, id: u64)
    ensures
        without(ids, id) == ids.filter(|other: u64| other != id),
        !without(ids, id).contains(id),
        forall|other: u64|
            other != id ==> without(ids, id).contains(other) == #[trigger] ids.contains(other),
    decreases ids.len(),
{
    let wanted = |other: u64| other != id;
    reveal(Seq::filter);
    if ids.len() > 0 {
        law_the_others_keep_their_order(ids.drop_last(), id);
        let rest = ids.drop_last();
        let last = ids.last();
        let kept = without(rest, id);
        assert(ids =~= rest.push(last));
        assert forall|other: u64| other != id implies without(ids, id).contains(other)
            == #[trigger] ids.contains(other) by {
            if ids.contains(other) {
                let i = choose|i: int| 0 <= i < ids.len() && ids[i] == other;
                if i < rest.len() {
                    assert(rest[i] == other);
                    assert(rest.contains(other));
                    let j = choose|j: int| 0 <= j < kept.len() && kept[j] == other;
                    assert(kept.push(last)[j] == other);
                } else {
                    assert(kept.push(last)[kept.len() as int] == other);
                }
            }
            if without(ids, id).contains(other) {
                let i = choose|i: int|
                    0 <= i < without(ids, id).len() && without(ids, id)[i] == other;
                if i < kept.len() {
                    assert(kept[i] == other);
                    assert(kept.contains(other));
                    assert(rest.contains(other));
                    let j = choose|j: int| 0 <= j < rest.len() && rest[j] == other;
                    assert(ids[j] == other);
                } else {
                    assert(ids[ids.len() - 1] == other);
                }
            }
        }
        if without(ids, id).contains(id) {
            let i = choose|i: int| 0 <= i < without(ids, id).len() && without(ids, id)[i] == id;
            if i < kept.len() {
                assert(kept[i] == id);
                assert(kept.contains(id));
            }
        }
    }
}

} // verus!
