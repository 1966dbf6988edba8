//! Messages that arrived for a height the node has not reached yet.
//!
//! The cache is an ordered mapping from a height to the messages received for
//! it, in the order of their arrival. Its model is the list of its entries,
//! smallest height first.

use vstd::prelude::*;

verus! {

/// The model of a cache: the pairs of a height and its messages.
pub type Entries<M> = Seq<(u64, Seq<M>)>;

/// The heights are strictly ascending.
pub open spec fn ascending<M>(entries: Entries<M>) -> bool {
    forall|i: int, j: int| 0 <= i < j < entries.len() ==> entries[i].0 < entries[j].0
}

/// No height is kept without a message.
pub open spec fn inhabited<M>(entries: Entries<M>) -> bool {
    forall|i: int| 0 <= i < entries.len() ==> (#[trigger] entries[i]).1.len() > 0
}

/// Every entry is for a height above `height`.
pub open spec fn all_above<M>(entries: Entries<M>, height: u64) -> bool {
    forall|i: int| 0 <= i < entries.len() ==> (#[trigger] entries[i]).0 > height
}

/// The number of messages in all entries together.
pub open spec fn total<M>(entries: Entries<M>) -> nat
    decreases entries.len(),
{
    if entries.len() == 0 {
        0
    } else {
        entries[0].1.len() + total(entries.drop_first())
    }
}

/// The messages kept for `height`, in the order of their arrival; none where
/// the height has no entry.
pub open spec fn lookup<M>(entries: Entries<M>, height: u64) -> Seq<M>
    decreases entries.len(),
{
    if entries.len() == 0 {
        Seq::empty()
    } else if entries[0].0 == height {
        entries[0].1
    } else {
        lookup(entries.drop_first(), height)
    }
}

/// The entries with one more message for `height`, behind those that the
/// height already has.
pub open spec fn with_message<M>(entries: Entries<M>, height: u64, message: M) -> Entries<M>
    decreases entries.len(),
{
    if entries.len() == 0 || entries[0].0 > height {
        seq![(height, seq![message])] + entries
    } else if entries[0].0 == height {
        seq![(height, entries[0].1.push(message))] + entries.drop_first()
    } else {
        seq![entries[0]] + with_message(entries.drop_first(), height, message)
    }
}

/// What is left when the entry of the smallest height is taken away again and
/// again for as long as that height is at most `current`.
pub open spec fn above<M>(entries: Entries<M>, current: u64) -> Entries<M>
    decreases entries.len(),
{
    if entries.len() == 0 || entries[0].0 > current {
        entries
    } else {
        above(entries.drop_first(), current)
    }
}

/// Where no entry has the height, nothing is found for it.
pub proof fn lemma_lookup_absent<M>(entries: Entries<M>, height: u64)
    requires
        forall|i: int| 0 <= i < entries.len() ==> (#[trigger] entries[i]).0 != height,
    ensures
        lookup(entries, height) == Seq::<M>::empty(),
    decreases entries.len(),
{
    if entries.len() > 0 {
        let rest = entries.drop_first();
        assert forall|i: int| 0 <= i < rest.len() implies (#[trigger] rest[i]).0 != height by {
            assert(rest[i] == entries[i + 1]);
        }
        lemma_lookup_absent(rest, height);
    }
}

/// In an ascending list the entry that has the height is the one found.
pub proof fn lemma_lookup_at<M>(entries: Entries<M>, at: int)
    requires
        ascending(entries),
        0 <= at < entries.len(),
    ensures
        lookup(entries, entries[at].0) == entries[at].1,
    decreases at,
{
    if at > 0 {
        let rest = entries.drop_first();
        assert(rest[at - 1] == entries[at]);
        assert(ascending(rest)) by {
            assert forall|i: int, j: int| 0 <= i < j < rest.len() implies rest[i].0 < rest[j].0 by {
                assert(rest[i] == entries[i + 1]);
                assert(rest[j] == entries[j + 1]);
            }
        }
        lemma_lookup_at(rest, at - 1);
    }
}

/// One more message where the height has an entry already.
proof fn lemma_with_message_known<M>(entries: Entries<M>, height: u64, message: M, at: int)
    requires
        0 <= at < entries.len(),
        forall|i: int| 0 <= i < at ==> (#[trigger] entries[i]).0 < height,
        entries[at].0 == height,
    ensures
        with_message(entries, height, message) == entries.update(
            at,
            (height, entries[at].1.push(message)),
        ),
    decreases at,
{
    if at == 0 {
        assert(seq![(height, entries[0].1.push(message))] + entries.drop_first()
            == entries.update(0, (height, entries[0].1.push(message))));
    } else {
        let rest = entries.drop_first();
        assert(entries[0].0 < height);
        assert forall|i: int| 0 <= i < at - 1 implies (#[trigger] rest[i]).0 < height by {
            assert(rest[i] == entries[i + 1]);
        }
        assert(rest[at - 1] == entries[at]);
        lemma_with_message_known(rest, height, message, at - 1);
        assert(seq![entries[0]] + rest.update(at - 1, (height, entries[at].1.push(message)))
            == entries.update(at, (height, entries[at].1.push(message))));
    }
}

/// One more message where the height has no entry yet.
proof fn lemma_with_message_new<M>(entries: Entries<M>, height: u64, message: M, at: int)
    requires
        0 <= at <= entries.len(),
        forall|i: int| 0 <= i < at ==> (#[trigger] entries[i]).0 < height,
        at < entries.len() ==> entries[at].0 > height,
    ensures
        with_message(entries, height, message) == entries.insert(at, (height, seq![message])),
    decreases at,
{
    if at == 0 {
        assert(seq![(height, seq![message])] + entries == entries.insert(
            0,
            (height, seq![message]),
        ));
    } else {
        let rest = entries.drop_first();
        assert(entries[0].0 < height);
        assert forall|i: int| 0 <= i < at - 1 implies (#[trigger] rest[i]).0 < height by {
            assert(rest[i] == entries[i + 1]);
        }
        if at < entries.len() {
            assert(rest[at - 1] == entries[at]);
        }
        lemma_with_message_new(rest, height, message, at - 1);
        assert(seq![entries[0]] + rest.insert(at - 1, (height, seq![message])) == entries.insert(
            at,
            (height, seq![message]),
        ));
    }
}

/// One more message is one more in the count.
pub proof fn lemma_with_message_total<M>(entries: Entries<M>, height: u64, message: M)
    ensures
        total(with_message(entries, height, message)) == total(entries) + 1,
    decreases entries.len(),
{
    let after = with_message(entries, height, message);
    if entries.len() == 0 || entries[0].0 > height {
        assert(after.drop_first() == entries);
        assert(after[0].1.len() == 1);
    } else if entries[0].0 == height {
        assert(after.drop_first() == entries.drop_first());
    } else {
        lemma_with_message_total(entries.drop_first(), height, message);
        assert(after.drop_first() == with_message(entries.drop_first(), height, message));
    }
}

/// Every entry stands at `floor` or above.
pub open spec fn from_floor<M>(entries: Entries<M>, floor: u64) -> bool {
    forall|i: int| 0 <= i < entries.len() ==> floor <= (#[trigger] entries[i]).0
}

/// A later part of an ascending list is ascending.
proof fn lemma_rest_ascending<M>(entries: Entries<M>)
    requires
        ascending(entries),
        entries.len() > 0,
    ensures
        ascending(entries.drop_first()),
        forall|i: int|
            0 <= i < entries.drop_first().len() ==> entries[0].0 < (
            #[trigger] entries.drop_first()[i]).0,
{
    let rest = entries.drop_first();
    assert forall|i: int, j: int| 0 <= i < j < rest.len() implies rest[i].0 < rest[j].0 by {
        assert(rest[i] == entries[i + 1]);
        assert(rest[j] == entries[j + 1]);
    }
    assert forall|i: int| 0 <= i < rest.len() implies entries[0].0 < (#[trigger] rest[i]).0 by {
        assert(rest[i] == entries[i + 1]);
    }
}

/// One more message leaves the list ascending and without an empty entry,
/// and no entry comes to stand below the lowest of before and the new one.
pub proof fn lemma_with_message_ascending<M>(
    entries: Entries<M>,
    height: u64,
    message: M,
    floor: u64,
)
    requires
        ascending(entries),
        inhabited(entries),
        from_floor(entries, floor),
        floor <= height,
    ensures
        ascending(with_message(entries, height, message)),
        inhabited(with_message(entries, height, message)),
        from_floor(with_message(entries, height, message), floor),
    decreases entries.len(),
{
    let after = with_message(entries, height, message);
    if entries.len() == 0 || entries[0].0 > height {
        assert forall|i: int| 0 <= i < after.len() implies floor <= (#[trigger] after[i]).0
            && after[i].1.len() > 0 by {
            if i > 0 {
                assert(after[i] == entries[i - 1]);
            }
        }
        assert forall|i: int, j: int| 0 <= i < j < after.len() implies after[i].0 < after[j].0 by {
            assert(after[j] == entries[j - 1]);
            if i > 0 {
                assert(after[i] == entries[i - 1]);
            } else if j > 1 {
                assert(entries[0].0 < entries[j - 1].0);
            }
        }
    } else if entries[0].0 == height {
        assert forall|i: int| 0 <= i < after.len() implies floor <= (#[trigger] after[i]).0
            && after[i].1.len() > 0 by {
            if i > 0 {
                assert(after[i] == entries[i]);
            }
        }
        assert forall|i: int, j: int| 0 <= i < j < after.len() implies after[i].0 < after[j].0 by {
            assert(after[j] == entries[j]);
            assert(after[i].0 == entries[i].0);
        }
    } else {
        let rest = entries.drop_first();
        lemma_rest_ascending(entries);
        assert(inhabited(rest)) by {
            assert forall|i: int| 0 <= i < rest.len() implies (#[trigger] rest[i]).1.len() > 0 by {
                assert(rest[i] == entries[i + 1]);
            }
        }
        let least: u64 = (entries[0].0 + 1) as u64;
        assert(from_floor(rest, least));
        lemma_with_message_ascending(rest, height, message, least);
        let tail = with_message(rest, height, message);
        assert forall|i: int| 0 <= i < after.len() implies floor <= (#[trigger] after[i]).0
            && after[i].1.len() > 0 by {
            if i > 0 {
                assert(after[i] == tail[i - 1]);
            } else {
                assert(after[0] == entries[0]);
            }
        }
        assert forall|i: int, j: int| 0 <= i < j < after.len() implies after[i].0 < after[j].0 by {
            assert(after[j] == tail[j - 1]);
            if i > 0 {
                assert(after[i] == tail[i - 1]);
            } else {
                assert(after[0] == entries[0]);
            }
        }
    }
}

/// One more message for a height is found behind the others of that height,
/// and changes nothing for any other height.
pub proof fn lemma_lookup_with_message<M>(entries: Entries<M>, height: u64, message: M, other: u64)
    requires
        ascending(entries),
    ensures
        lookup(with_message(entries, height, message), other) == if other == height {
            lookup(entries, height).push(message)
        } else {
            lookup(entries, other)
        },
    decreases entries.len(),
{
    let after = with_message(entries, height, message);
    if entries.len() == 0 || entries[0].0 > height {
        assert(after.drop_first() == entries);
        if other == height {
            assert forall|i: int| 0 <= i < entries.len() implies (#[trigger] entries[i]).0
                != height by {
                if i > 0 {
                    assert(entries[0].0 < entries[i].0);
                }
            }
            lemma_lookup_absent(entries, height);
            assert(seq![message] == Seq::<M>::empty().push(message));
        }
    } else if entries[0].0 == height {
        assert(after.drop_first() == entries.drop_first());
    } else {
        lemma_rest_ascending(entries);
        lemma_lookup_with_message(entries.drop_first(), height, message, other);
        assert(after.drop_first() == with_message(entries.drop_first(), height, message));
    }
}

/// The entries that are left above `current` are those whose height is
/// above it, all of them, as they were.
pub proof fn lemma_above_keeps<M>(entries: Entries<M>, current: u64)
    requires
        ascending(entries),
    ensures
        ascending(above(entries, current)),
        inhabited(entries) ==> inhabited(above(entries, current)),
        total(above(entries, current)) <= total(entries),
        all_above(above(entries, current), current),
        forall|height: u64|
            height > current ==> lookup(above(entries, current), height) == lookup(entries, height),
        forall|height: u64|
            height <= current ==> lookup(above(entries, current), height) == Seq::<M>::empty(),
    decreases entries.len(),
{
    let left = above(entries, current);
    if entries.len() == 0 {
    } else if entries[0].0 > current {
        assert forall|i: int| 0 <= i < entries.len() implies (#[trigger] entries[i]).0
            > current by {
            if i > 0 {
                assert(entries[0].0 < entries[i].0);
            }
        }
        assert forall|height: u64| height <= current implies lookup(left, height) == Seq::<
            M,
        >::empty() by {
            lemma_lookup_absent(entries, height);
        }
    } else {
        lemma_rest_ascending(entries);
        if inhabited(entries) {
            assert forall|i: int| 0 <= i < entries.drop_first().len() implies (
            #[trigger] entries.drop_first()[i]).1.len() > 0 by {
                assert(entries.drop_first()[i] == entries[i + 1]);
            }
        }
        lemma_above_keeps(entries.drop_first(), current);
        assert forall|height: u64| height > current implies lookup(left, height) == lookup(
            entries,
            height,
        ) by {
            assert(lookup(entries, height) == lookup(entries.drop_first(), height));
        }
    }
}

/// A list of messages, each with the height that it was inserted for.
pub type Insertions<M> = Seq<(u64, M)>;

/// The entries after each of `log` was inserted, in the order of the list.
pub open spec fn inserted<M>(entries: Entries<M>, log: Insertions<M>) -> Entries<M>
    decreases log.len(),
{
    if log.len() == 0 {
        entries
    } else {
        with_message(inserted(entries, log.drop_last()), log.last().0, log.last().1)
    }
}

/// The messages of `log` that were inserted for `height`, in the order of the
/// list.
pub open spec fn inserted_for<M>(log: Insertions<M>, height: u64) -> Seq<M>
    decreases log.len(),
{
    if log.len() == 0 {
        Seq::empty()
    } else if log.last().0 == height {
        inserted_for(log.drop_last(), height).push(log.last().1)
    } else {
        inserted_for(log.drop_last(), height)
    }
}

/// Insertions leave the list ascending and without an empty entry, and add
/// one to the count for each of them.
pub proof fn lemma_inserted<M>(entries: Entries<M>, log: Insertions<M>)
    requires
        ascending(entries),
        inhabited(entries),
    ensures
        ascending(inserted(entries, log)),
        inhabited(inserted(entries, log)),
        total(inserted(entries, log)) == total(entries) + log.len(),
    decreases log.len(),
{
    if log.len() > 0 {
        let before = inserted(entries, log.drop_last());
        lemma_inserted(entries, log.drop_last());
        lemma_with_message_ascending(before, log.last().0, log.last().1, 0);
        lemma_with_message_total(before, log.last().0, log.last().1);
    }
}

/// What the cache holds for a height is what it held before, followed by
/// what was inserted for that height since, in the order of insertion.
pub proof fn lemma_lookup_inserted<M>(entries: Entries<M>, log: Insertions<M>, height: u64)
    requires
        ascending(entries),
        inhabited(entries),
    ensures
        lookup(inserted(entries, log), height) == lookup(entries, height) + inserted_for(
            log,
            height,
        ),
    decreases log.len(),
{
    if log.len() == 0 {
        assert(lookup(entries, height) + Seq::<M>::empty() == lookup(entries, height));
    } else {
        let before = inserted(entries, log.drop_last());
        lemma_inserted(entries, log.drop_last());
        lemma_lookup_inserted(entries, log.drop_last(), height);
        lemma_lookup_with_message(before, log.last().0, log.last().1, height);
        if log.last().0 == height {
            assert((lookup(entries, height) + inserted_for(log.drop_last(), height)).push(
                log.last().1,
            ) == lookup(entries, height) + inserted_for(log, height));
        }
    }
}

/// The cache gives back for a height what was put into it for that height.
///
/// Take what an empty cache becomes when the messages of `log` are inserted
/// one by one, and drain it at `current`. What comes out are the messages
/// that were inserted for `current`, in the order of insertion. Afterwards
/// no entry is left for `current` or a lower height, and every higher height
/// has what it had.
pub proof fn lemma_drain_returns_insertions<M>(log: Insertions<M>, current: u64)
    ensures
        lookup(inserted(Entries::<M>::empty(), log), current) == inserted_for(log, current),
        all_above(above(inserted(Entries::<M>::empty(), log), current), current),
        forall|height: u64|
            height > current ==> lookup(
                above(inserted(Entries::<M>::empty(), log), current),
                height,
            ) == inserted_for(log, height),
        forall|height: u64|
            height <= current ==> lookup(
                above(inserted(Entries::<M>::empty(), log), current),
                height,
            ) == Seq::<M>::empty(),
{
    let empty = Entries::<M>::empty();
    let held = inserted(empty, log);
    lemma_inserted(empty, log);
    lemma_above_keeps(held, current);
    lemma_lookup_inserted(empty, log, current);
    assert(Seq::<M>::empty() + inserted_for(log, current) == inserted_for(log, current));
    assert forall|height: u64| height > current implies lookup(above(held, current), height)
        == inserted_for(log, height) by {
        lemma_lookup_inserted(empty, log, height);
        assert(Seq::<M>::empty() + inserted_for(log, height) == inserted_for(log, height));
    }
}

/// An entry of the cache as it is stored.
#[derive(Debug)]
struct CacheEntry<M> {
    height: u64,
    messages: Vec<M>,
}

/// An ordered, bounded store of early messages.
#[derive(Debug)]
pub struct HeightCache<M> {
    entries: Vec<CacheEntry<M>>,
    count: usize,
    limit: usize,
}

impl<M> View for HeightCache<M> {
    type V = Entries<M>;

    closed spec fn view(&self) -> Entries<M> {
        Seq::new(
            self.entries@.len(),
            |i: int| (self.entries@[i].height, self.entries@[i].messages@),
        )
    }
}

impl<M> HeightCache<M> {
    /// The largest number of messages that the cache keeps.
    pub closed spec fn spec_limit(&self) -> nat {
        self.limit as nat
    }

    /// The entries are ascending, none is empty, and the messages are no more
    /// than the limit.
    pub closed spec fn wf(&self) -> bool {
        &&& ascending(self@)
        &&& inhabited(self@)
        &&& self.count == total(self@)
        &&& self.count <= self.limit
    }

    /// What `wf` says, for callers.
    pub proof fn lemma_wf(&self)
        requires
            self.wf(),
        ensures
            ascending(self@),
            inhabited(self@),
            total(self@) <= self.spec_limit(),
    {
    }

    /// An empty cache that keeps at most `limit` messages.
    pub fn new(limit: usize) -> (cache: HeightCache<M>)
        ensures
            cache.wf(),
            cache@ == Entries::<M>::empty(),
            cache.spec_limit() == limit,
    {
        let cache = HeightCache { entries: Vec::new(), count: 0, limit };
        assert(cache@ == Entries::<M>::empty());
        cache
    }

    /// The largest number of messages that the cache keeps.
    pub fn limit(&self) -> (limit: usize)
        ensures
            limit == self.spec_limit(),
    {
        self.limit
    }

    /// The number of messages in the cache.
    pub fn len(&self) -> (count: usize)
        requires
            self.wf(),
        ensures
            count == total(self@),
    {
        self.count
    }

    /// The number of messages kept for `height`.
    pub fn count_at(&self, height: u64) -> (count: usize)
        requires
            self.wf(),
        ensures
            count == lookup(self@, height).len(),
    {
        let mut at: usize = 0;
        while at < self.entries.len()
            invariant
                self.wf(),
                at <= self.entries.len(),
                forall|i: int| 0 <= i < at ==> (#[trigger] self@[i]).0 != height,
            decreases self.entries.len() - at,
        {
            if self.entries[at].height == height {
                proof {
                    lemma_lookup_at(self@, at as int);
                }
                return self.entries[at].messages.len();
            }
            at += 1;
        }
        proof {
            lemma_lookup_absent(self@, height);
        }
        0
    }

    /// Keeps `message` for `height`, behind the messages that the height
    /// already has, unless the cache is full. Says whether it was kept.
    pub fn insert(&mut self, height: u64, message: M) -> (kept: bool)
        requires
            old(self).wf(),
        ensures
            final(self).wf(),
            final(self).spec_limit() == old(self).spec_limit(),
            kept == (total(old(self)@) < old(self).spec_limit()),
            kept ==> final(self)@ == with_message(old(self)@, height, message),
            !kept ==> final(self)@ == old(self)@,
    {
        if self.count >= self.limit {
            return false;
        }
        let ghost before = self@;
        let mut at: usize = 0;
        while at < self.entries.len() && self.entries[at].height < height
            invariant
                at <= self.entries.len(),
                self@ == before,
                forall|i: int| 0 <= i < at ==> (#[trigger] self@[i]).0 < height,
            decreases self.entries.len() - at,
        {
            at += 1;
        }
        if at < self.entries.len() && self.entries[at].height == height {
            self.entries[at].messages.push(message);
            proof {
                let grown = (height, before[at as int].1.push(message));
                assert(self@ == before.update(at as int, grown));
                lemma_with_message_known(before, height, message, at as int);
            }
        } else {
            let mut messages: Vec<M> = Vec::new();
            messages.push(message);
            self.entries.insert(at, CacheEntry { height, messages });
            proof {
                assert(self@ == before.insert(at as int, (height, seq![message])));
                lemma_with_message_new(before, height, message, at as int);
            }
        }
        proof {
            lemma_with_message_total(before, height, message);
        }
        self.count = self.count + 1;
        true
    }

    /// Takes out the messages kept for `current`, in the order of their
    /// arrival, and drops every entry of a height up to `current`.
    pub fn drain_equal(&mut self, current: u64) -> (drained: Vec<M>)
        requires
            old(self).wf(),
        ensures
            final(self).wf(),
            final(self).spec_limit() == old(self).spec_limit(),
            drained@ == lookup(old(self)@, current),
            final(self)@ == above(old(self)@, current),
            all_above(final(self)@, current),
    {
        proof {
            lemma_above_keeps(self@, current);
        }
        loop
            invariant
                self.wf(),
                self.spec_limit() == old(self).spec_limit(),
                lookup(self@, current) == lookup(old(self)@, current),
                above(self@, current) == above(old(self)@, current),
            decreases self.entries.len(),
        {
            if self.entries.len() == 0 {
                return Vec::new();
            }
            let smallest: u64 = self.entries[0].height;
            if smallest > current {
                proof {
                    lemma_lookup_absent(self@, current);
                }
                return Vec::new();
            }
            let ghost before = self@;
            let entry = self.entries.remove(0);
            proof {
                assert(self@ == before.drop_first());
                assert(entry.messages@ == before[0].1);
            }
            self.count = self.count - entry.messages.len();
            if smallest == current {
                proof {
                    if self@.len() > 0 {
                        assert(self@[0] == before[1]);
                        assert(before[0].0 < before[1].0);
                    }
                    assert(above(before, current) == above(self@, current));
                    assert(above(self@, current) == self@);
                }
                return entry.messages;
            }
        }
    }
}

} // verus!
