//! Batching of streamed tokens.
//!
//! Moments are nanoseconds of a clock that does not run backwards.
use std::collections::VecDeque;
use vstd::prelude::*;

use crate::text::{concat, lemma_concat_add};

verus! {

/// The age in nanoseconds from which the oldest waiting token is due.
pub const MAX_AGE_NANOS: u64 = 80_000_000;

/// The number of waiting tokens that are due whatever their age.
pub const MAX_LEN: usize = 16;

/// Per-frame token batching: queue arrivals with timestamps, drain when the
/// oldest is too old or the queue is too long. Keeps redraws to ~10/s during
/// fast streams without visible delay.
pub struct StreamState {
    pending: VecDeque<(u64, String)>,
}

/// A waiting token: when it came, and its text.
pub type WaitingView = (u64, Seq<char>);

/// The waiting tokens, the oldest first.
impl View for StreamState {
    type V = Seq<WaitingView>;

    closed spec fn view(&self) -> Seq<WaitingView> {
        self.pending@.map_values(|p: (u64, String)| (p.0, p.1@))
    }
}

/// The texts of waiting tokens.
pub open spec fn texts(pending: Seq<WaitingView>) -> Seq<Seq<char>> {
    pending.map_values(|p: WaitingView| p.1)
}

/// Waiting tokens are due: there are some, and either many of them or the oldest has
/// waited long enough.
pub open spec fn due(pending: Seq<WaitingView>, now: u64) -> bool {
    pending.len() > 0 && (pending.len() >= MAX_LEN || now - pending[0].0 >= MAX_AGE_NANOS)
}

impl StreamState {
    /// Nothing waits.
    pub fn new() -> (r: Self)
        ensures
            r@ == Seq::<WaitingView>::empty(),
    {
        let r = StreamState { pending: VecDeque::new() };
        assert(r@ == Seq::<WaitingView>::empty());
        r
    }

    /// Adds a token that arrives at a moment.
    pub fn enqueue(&mut self, t: String, at: u64)
        ensures
            final(self)@ == old(self)@.push((at, t@)),
    {
        self.pending.push_back((at, t));
        assert(self@ == old(self)@.push((at, t@)));
    }

    /// Whether the waiting tokens are due.
    pub fn ready(&self, now: u64) -> (r: bool)
        ensures
            r == due(self@, now),
    {
        if self.pending.len() == 0 {
            return false;
        }
        if self.pending.len() >= MAX_LEN {
            return true;
        }
        let at = self.pending[0].0;
        assert(self@[0].0 == at);
        now >= at && now - at >= MAX_AGE_NANOS
    }

    /// Takes the waiting tokens that are due.
    pub fn drain_pending(&mut self) -> (r: String)
        ensures
            r@ == concat(texts(old(self)@)),
            final(self)@ == Seq::<WaitingView>::empty(),
    {
        self.drain_all()
    }

    /// Takes all waiting tokens, one after the other.
    pub fn drain_all(&mut self) -> (r: String)
        ensures
            r@ == concat(texts(old(self)@)),
            final(self)@ == Seq::<WaitingView>::empty(),
    {
        let ghost start = self@;
        let ghost all = texts(start);
        let mut s = String::new();
        let ghost mut k: int = 0;
        assert(start.skip(0) == start);
        assert(s@ == concat(all.take(0)));
        while self.pending.len() > 0
            invariant
                0 <= k <= start.len(),
                all == texts(start),
                self@ == start.skip(k),
                s@ == concat(all.take(k)),
            decreases self.pending@.len(),
        {
            let ghost waiting = self@;
            assert(waiting.len() == self.pending@.len());
            assert(waiting[0] == (self.pending@[0].0, self.pending@[0].1@));
            match self.pending.pop_front() {
                Some((_, t)) => {
                    s.append(t.as_str());
                    proof {
                        assert(t@ == all[k]);
                        assert(all.take(k + 1).drop_last() == all.take(k));
                        assert(self@ == waiting.drop_first());
                        assert(start.skip(k).drop_first() == start.skip(k + 1));
                        k = k + 1;
                    }
                },
                None => {},
            }
        }
        assert(self@.len() == 0);
        assert(self@ == Seq::<WaitingView>::empty());
        assert(all.take(k) == all);
        s
    }

    /// Whether any token waits.
    pub fn has_pending(&self) -> (r: bool)
        ensures
            r == (self@.len() > 0),
    {
        self.pending.len() > 0
    }
}

/// Batching keeps the text: what is drained is the tokens in the order in which
/// they came, whether drained at once or in two batches.
pub proof fn law_draining_keeps_order(first: Seq<WaitingView>, second: Seq<WaitingView>)
    ensures
        concat(texts(first + second)) == concat(texts(first)) + concat(texts(second)),
{
    assert(texts(first + second) == texts(first) + texts(second));
    lemma_concat_add(texts(first), texts(second));
}

/// Tokens that are due stay due as time passes and as more arrive.
pub proof fn law_due_stays_due(pending: Seq<WaitingView>, more: Seq<WaitingView>, now: u64, later: u64)
    requires
        due(pending, now),
        now <= later,
    ensures
        due(pending + more, later),
{
    assert((pending + more)[0] == pending[0]);
}

/// Tokens are due where sixteen wait, or where the oldest has waited eighty
/// milliseconds; none are where none wait.
pub proof fn law_due(pending: Seq<WaitingView>, now: u64)
    ensures
        pending.len() == 0 ==> !due(pending, now),
        pending.len() >= 16 ==> due(pending, now),
        0 < pending.len() < 16 ==> (due(pending, now) <==> pending[0].0 + 80_000_000 <= now),
{
}

/// The texts of waiting tokens are their texts, one for each and in order.
pub proof fn law_texts(pending: Seq<WaitingView>, i: int)
    requires
        0 <= i < pending.len(),
    ensures
        texts(pending).len() == pending.len(),
        texts(pending)[i] == pending[i].1,
{
}

} // verus!
