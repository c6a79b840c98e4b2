use vstd::prelude::*;

verus! {

/// The channel that `address` resolves to in `entries`, if any (first match).
pub open spec fn resolve(entries: Seq<(Seq<char>, usize)>, address: Seq<char>) -> Option<usize>
    decreases entries.len(),
{
    if entries.len() == 0 {
        None
    } else if entries[0].0 == address {
        Some(entries[0].1)
    } else {
        resolve(entries.drop_first(), address)
    }
}

proof fn lemma_resolve_push(entries: Seq<(Seq<char>, usize)>, e: (Seq<char>, usize), a: Seq<char>)
    requires
        resolve(entries, e.0) is None,
    ensures
        resolve(entries.push(e), a) == if a == e.0 {
            Some(e.1)
        } else {
            resolve(entries, a)
        },
    decreases entries.len(),
{
    if entries.len() > 0 {
        assert(entries.push(e).drop_first() =~= entries.drop_first().push(e));
        assert(entries.push(e)[0] == entries[0]);
        lemma_resolve_push(entries.drop_first(), e, a);
    } else {
        assert(entries.push(e).drop_first() =~= Seq::<(Seq<char>, usize)>::empty());
        reveal_with_fuel(resolve, 2);
    }
}

proof fn lemma_resolve_bound(entries: Seq<(Seq<char>, usize)>, a: Seq<char>, bound: usize)
    requires
        forall|k: int| 0 <= k < entries.len() ==> #[trigger] entries[k].1 < bound,
    ensures
        resolve(entries, a) matches Some(c) ==> c < bound,
    decreases entries.len(),
{
    if entries.len() > 0 {
        let rest = entries.drop_first();
        assert forall|k: int| 0 <= k < rest.len() implies #[trigger] rest[k].1 < bound by {
            assert(rest[k] == entries[k + 1]);
        }
        lemma_resolve_bound(rest, a, bound);
    }
}

/// Why an entry was not added to an [`AddressMap`].
#[derive(Clone, Copy, Debug, PartialEq, Eq, Structural)]
pub enum MapError {
    /// The address already resolves to a channel.
    Duplicate,
    /// The channel is not below the map's channel count.
    OutOfRange,
}

/// An immutable-after-setup table from control-surface addresses to channel
/// indices, each below the channel count fixed at construction.
pub struct AddressMap {
    entries: Vec<(String, usize)>,
    channel_count: usize,
}

impl AddressMap {
    pub closed spec fn entries_view(&self) -> Seq<(Seq<char>, usize)> {
        self.entries@.map_values(|e: (String, usize)| (e.0@, e.1))
    }

    /// The channel that `address` resolves to.
    pub open spec fn spec_lookup(&self, address: Seq<char>) -> Option<usize> {
        resolve(self.entries_view(), address)
    }

    pub closed spec fn spec_channel_count(&self) -> usize {
        self.channel_count
    }

    /// Every entry names a channel below the channel count.
    pub closed spec fn wf(&self) -> bool {
        forall|k: int| 0 <= k < self.entries@.len() ==> #[trigger] self.entries@[k].1 < self.channel_count
    }

    /// An empty map for `channel_count` channels.
    pub fn new(channel_count: usize) -> (r: AddressMap)
        ensures
            r.wf(),
            r.spec_channel_count() == channel_count,
            forall|a: Seq<char>| #[trigger] r.spec_lookup(a) is None,
    {
        let r = AddressMap { entries: Vec::new(), channel_count };
        assert(r.entries_view() =~= Seq::<(Seq<char>, usize)>::empty());
        r
    }

    pub fn channel_count(&self) -> (r: usize)
        ensures
            r == self.spec_channel_count(),
    {
        self.channel_count
    }

    /// Adds `address -> channel`. Fails, leaving the map unchanged, when the
    /// address is already present or the channel is out of range.
    pub fn insert(&mut self, address: String, channel: usize) -> (r: Result<(), MapError>)
        requires
            old(self).wf(),
        ensures
            final(self).wf(),
            final(self).spec_channel_count() == old(self).spec_channel_count(),
            old(self).spec_lookup(address@) is Some ==> r == Err::<(), MapError>(MapError::Duplicate),
            old(self).spec_lookup(address@) is None && channel >= old(self).spec_channel_count()
                ==> r == Err::<(), MapError>(MapError::OutOfRange),
            old(self).spec_lookup(address@) is None && channel < old(self).spec_channel_count()
                ==> r is Ok,
            r is Err ==> final(self).entries_view() == old(self).entries_view(),
            r is Ok ==> forall|a: Seq<char>|
                #[trigger] final(self).spec_lookup(a) == if a == address@ {
                    Some(channel)
                } else {
                    old(self).spec_lookup(a)
                },
    {
        if self.lookup(&address).is_some() {
            return Err(MapError::Duplicate);
        }
        if channel >= self.channel_count {
            return Err(MapError::OutOfRange);
        }
        let ghost before = self.entries_view();
        let ghost key = address@;
        self.entries.push((address, channel));
        proof {
            assert(self.entries_view() =~= before.push((key, channel)));
            assert forall|a: Seq<char>|
                #[trigger] self.spec_lookup(a) == if a == key {
                    Some(channel)
                } else {
                    resolve(before, a)
                } by {
                lemma_resolve_push(before, (key, channel), a);
            }
            assert forall|k: int| 0 <= k < self.entries@.len() implies #[trigger] self.entries@[k].1
                < self.channel_count by {
                if k < self.entries@.len() - 1 {
                    assert(self.entries@[k] == old(self).entries@[k]);
                }
            }
        }
        Ok(())
    }

    /// The channel that `address` resolves to, or `None` when it is unknown.
    pub fn lookup(&self, address: &String) -> (r: Option<usize>)
        requires
            self.wf(),
        ensures
            r == self.spec_lookup(address@),
            r matches Some(c) ==> c < self.spec_channel_count(),
    {
        let ghost es = self.entries_view();
        proof {
            assert forall|k: int| 0 <= k < es.len() implies #[trigger] es[k].1 < self.channel_count by {
                assert(es[k].1 == self.entries@[k].1);
            }
            lemma_resolve_bound(es, address@, self.channel_count);
            assert(es.subrange(0, es.len() as int) =~= es);
        }
        let mut i: usize = 0;
        while i < self.entries.len()
            invariant
                i <= self.entries@.len(),
                es == self.entries_view(),
                es.len() == self.entries@.len(),
                resolve(es, address@) == resolve(es.subrange(i as int, es.len() as int), address@),
                resolve(es, address@) matches Some(c) ==> c < self.channel_count,
            decreases self.entries@.len() - i,
        {
            let ghost rest = es.subrange(i as int, es.len() as int);
            assert(rest[0] == es[i as int]);
            if self.entries[i].0 == *address {
                return Some(self.entries[i].1);
            }
            assert(rest.drop_first() =~= es.subrange(i + 1, es.len() as int));
            i = i + 1;
        }
        None
    }
}

} // verus!
