use vstd::prelude::*;

verus! {

/// Sample word of silence: the bit pattern of `0.0`.
pub const NEUTRAL: u32 = 0;

/// The current value of every channel, as sample words (single-precision
/// bit patterns). Its length is fixed at construction.
pub struct ChannelStore {
    values: Vec<u32>,
}

impl View for ChannelStore {
    type V = Seq<u32>;

    closed spec fn view(&self) -> Seq<u32> {
        self.values@
    }
}

/// A store of `n` channels that were never written.
pub open spec fn neutral(n: nat) -> Seq<u32> {
    Seq::new(n, |_i: int| NEUTRAL)
}

/// The store `s` after the writes `ws`, in order; each write is a
/// `(channel, sample)` pair that overwrites one slot.
pub open spec fn replay(s: Seq<u32>, ws: Seq<(usize, u32)>) -> Seq<u32>
    decreases ws.len(),
{
    if ws.len() == 0 {
        s
    } else {
        replay(s, ws.drop_last()).update(ws.last().0 as int, ws.last().1)
    }
}

/// The samples written to `channel` by `ws`, in order.
pub open spec fn writes_to(ws: Seq<(usize, u32)>, channel: usize) -> Seq<u32>
    decreases ws.len(),
{
    if ws.len() == 0 {
        Seq::empty()
    } else if ws.last().0 == channel {
        writes_to(ws.drop_last(), channel).push(ws.last().1)
    } else {
        writes_to(ws.drop_last(), channel)
    }
}

/// The last sample written to `channel` by `ws`, or `initial` when none was.
pub open spec fn latest(ws: Seq<(usize, u32)>, channel: usize, initial: u32) -> u32 {
    let w = writes_to(ws, channel);
    if w.len() == 0 {
        initial
    } else {
        w.last()
    }
}

pub open spec fn in_range(ws: Seq<(usize, u32)>, n: nat) -> bool {
    forall|k: int| 0 <= k < ws.len() ==> #[trigger] ws[k].0 < n
}

/// Last write wins: after a sequence of in-range writes, each channel holds
/// the last sample written to it, and its initial value when none was.
pub proof fn lemma_last_write_wins(s: Seq<u32>, ws: Seq<(usize, u32)>)
    requires
        in_range(ws, s.len()),
    ensures
        replay(s, ws).len() == s.len(),
        forall|i: usize| i < s.len() ==> #[trigger] replay(s, ws)[i as int] == latest(ws, i, s[i as int]),
    decreases ws.len(),
{
    if ws.len() > 0 {
        let rest = ws.drop_last();
        assert forall|k: int| 0 <= k < rest.len() implies #[trigger] rest[k].0 < s.len() by {
            assert(rest[k] == ws[k]);
        }
        assert(ws[ws.len() - 1].0 < s.len());
        lemma_last_write_wins(s, rest);
    }
}

/// A snapshot taken after writes to a fresh store holds, for every channel,
/// the last sample written to it, and the neutral sample for every channel
/// that was never written.
pub proof fn lemma_fresh_store_after_writes(n: nat, ws: Seq<(usize, u32)>)
    requires
        in_range(ws, n),
    ensures
        replay(neutral(n), ws).len() == n,
        forall|i: usize| i < n ==> #[trigger] replay(neutral(n), ws)[i as int] == (if writes_to(ws, i).len() == 0 {
            NEUTRAL
        } else {
            writes_to(ws, i).last()
        }),
{
    lemma_last_write_wins(neutral(n), ws);
}

/// The final store does not depend on how writes to distinct channels are
/// interleaved: two sequences that write the same samples to each channel,
/// in the same order per channel, leave the same store.
pub proof fn lemma_interleaving_irrelevant(
    s: Seq<u32>,
    ws1: Seq<(usize, u32)>,
    ws2: Seq<(usize, u32)>,
)
    requires
        s.len() <= usize::MAX,
        in_range(ws1, s.len()),
        in_range(ws2, s.len()),
        forall|i: usize| #[trigger] writes_to(ws1, i) == writes_to(ws2, i),
    ensures
        replay(s, ws1) == replay(s, ws2),
{
    lemma_last_write_wins(s, ws1);
    lemma_last_write_wins(s, ws2);
    assert forall|k: int| 0 <= k < s.len() implies replay(s, ws1)[k] == replay(s, ws2)[k] by {
        let i = k as usize;
        assert(writes_to(ws1, i) == writes_to(ws2, i));
        assert(replay(s, ws1)[i as int] == latest(ws1, i, s[i as int]));
    }
    assert(replay(s, ws1) =~= replay(s, ws2));
}

impl ChannelStore {
    /// A store of `channel_count` channels, each holding the neutral sample.
    pub fn new(channel_count: usize) -> (r: ChannelStore)
        ensures
            r@ == neutral(channel_count as nat),
    {
        let mut values: Vec<u32> = Vec::new();
        let mut i: usize = 0;
        while i < channel_count
            invariant
                i <= channel_count,
                values@ == neutral(i as nat),
            decreases channel_count - i,
        {
            values.push(NEUTRAL);
            i = i + 1;
            assert(values@ =~= neutral(i as nat));
        }
        ChannelStore { values }
    }

    pub fn len(&self) -> (r: usize)
        ensures
            r == self@.len(),
    {
        self.values.len()
    }

    /// Overwrites the sample of one channel; every other channel keeps its value.
    pub fn write(&mut self, channel: usize, sample: u32)
        requires
            channel < old(self)@.len(),
        ensures
            final(self)@ == old(self)@.update(channel as int, sample),
    {
        self.values.set(channel, sample);
    }

    /// A consistent copy of every channel's current sample.
    pub fn snapshot(&self) -> (r: Vec<u32>)
        ensures
            r@ == self@,
    {
        self.values.clone()
    }

    /// Fills an interleaved output buffer: every frame gets the current value
    /// of each channel, so slot `k` holds channel `k % channel_count`. A final
    /// partial frame gets the first channels.
    pub fn render(&self, buffer: &mut Vec<u32>)
        requires
            self@.len() > 0,
        ensures
            final(buffer)@.len() == old(buffer)@.len(),
            forall|k: int|
                0 <= k < final(buffer)@.len() ==> #[trigger] final(buffer)@[k] == self@[k % (self@.len() as int)],
    {
        let n = self.values.len();
        let mut i: usize = 0;
        while i < buffer.len()
            invariant
                n == self@.len(),
                n > 0,
                i <= buffer@.len(),
                buffer@.len() == old(buffer)@.len(),
                forall|k: int| 0 <= k < i ==> #[trigger] buffer@[k] == self@[k % (n as int)],
            decreases buffer@.len() - i,
        {
            buffer.set(i, self.values[i % n]);
            i = i + 1;
        }
    }
}

} // verus!
