//! The stake ledger of one controller: what is active, what is cooling down, and the total.

use crate::primitives::{AccountId, Balance, EraIndex};
use vstd::prelude::*;

verus! {

/// Stake that has left the active balance and can be withdrawn once `era` is reached.
#[derive(Clone, Copy, Debug, PartialEq, Eq, Structural)]
pub struct UnlockChunk {
    pub value: Balance,
    pub era: EraIndex,
}

/// The sum of the values of the chunks.
pub open spec fn chunks_total(chunks: Seq<UnlockChunk>) -> nat
    decreases chunks.len(),
{
    if chunks.len() == 0 {
        0
    } else {
        chunks_total(chunks.drop_last()) + chunks.last().value as nat
    }
}

/// The chunks come in the order of their eras and no era occurs twice.
pub open spec fn eras_increasing(chunks: Seq<UnlockChunk>) -> bool {
    forall|i: int, j: int| 0 <= i < j < chunks.len() ==> chunks[i].era < chunks[j].era
}

/// The chunks that can be withdrawn at `era`.
pub open spec fn is_due(era: EraIndex) -> spec_fn(UnlockChunk) -> bool {
    |chunk: UnlockChunk| chunk.era <= era
}

/// The chunks that still have to wait at `era`.
pub open spec fn is_pending(era: EraIndex) -> spec_fn(UnlockChunk) -> bool {
    |chunk: UnlockChunk| chunk.era > era
}

/// The chunks that unlock at `era`.
pub open spec fn has_era(era: EraIndex) -> spec_fn(UnlockChunk) -> bool {
    |chunk: UnlockChunk| chunk.era == era
}

/// What unlocks at `era`.
pub open spec fn unlocking_at(chunks: Seq<UnlockChunk>, era: EraIndex) -> nat {
    chunks_total(chunks.filter(has_era(era)))
}

/// The chunks with one more: `value` unlocks at `era`. It is added to the chunk of that era
/// if there is one, and else takes its place in the order of the eras.
pub open spec fn with_chunk(chunks: Seq<UnlockChunk>, value: Balance, era: EraIndex) -> Seq<
    UnlockChunk,
>
    decreases chunks.len(),
{
    if chunks.len() == 0 || chunks.last().era < era {
        chunks.push(UnlockChunk { value, era })
    } else if chunks.last().era == era {
        chunks.drop_last().push(UnlockChunk { value: (chunks.last().value + value) as Balance, era })
    } else {
        with_chunk(chunks.drop_last(), value, era).push(chunks.last())
    }
}

/// A ledger as plain values.
pub struct LedgerView {
    pub stash: AccountId,
    pub total: nat,
    pub active: nat,
    pub unlocking: Seq<UnlockChunk>,
}

impl LedgerView {
    /// The total is the active stake plus all that is unlocking, and the chunks are in order.
    pub open spec fn balanced(self) -> bool {
        &&& self.total == self.active + chunks_total(self.unlocking)
        &&& self.total <= Balance::MAX
        &&& eras_increasing(self.unlocking)
    }

    /// The ledger of a stash that has just bonded `amount`.
    pub open spec fn bonded(stash: AccountId, amount: Balance) -> LedgerView {
        LedgerView { stash, total: amount as nat, active: amount as nat, unlocking: Seq::empty() }
    }

    /// What can leave the active stake when `amount` is asked for.
    pub open spec fn unbondable(self, amount: Balance) -> nat {
        if amount <= self.active {
            amount as nat
        } else {
            self.active
        }
    }

    /// The ledger after `amount` is asked to unbond with the unlocking due at `era`: as much
    /// as is active moves to a chunk of that era; the total stays.
    pub open spec fn unbond(self, amount: Balance, era: EraIndex) -> LedgerView {
        let moved = self.unbondable(amount);
        if moved == 0 {
            self
        } else {
            LedgerView {
                active: (self.active - moved) as nat,
                unlocking: with_chunk(self.unlocking, moved as Balance, era),
                ..self
            }
        }
    }

    /// What can be withdrawn at `era`.
    pub open spec fn withdrawable(self, era: EraIndex) -> nat {
        chunks_total(self.unlocking.filter(is_due(era)))
    }

    /// The ledger after all that is due at `era` has been withdrawn.
    pub open spec fn withdraw(self, era: EraIndex) -> LedgerView {
        LedgerView {
            total: (self.total - self.withdrawable(era)) as nat,
            unlocking: self.unlocking.filter(is_pending(era)),
            ..self
        }
    }
}

proof fn lemma_total_push(chunks: Seq<UnlockChunk>, chunk: UnlockChunk)
    ensures
        chunks_total(chunks.push(chunk)) == chunks_total(chunks) + chunk.value,
{
    assert(chunks.push(chunk).drop_last() =~= chunks);
}

/// Every chunk unlocks before `bound`.
spec fn eras_below(chunks: Seq<UnlockChunk>, bound: int) -> bool {
    forall|i: int| 0 <= i < chunks.len() ==> (#[trigger] chunks[i]).era < bound
}

proof fn lemma_below_push(chunks: Seq<UnlockChunk>, chunk: UnlockChunk, bound: int)
    requires
        eras_below(chunks, bound),
        chunk.era < bound,
    ensures
        eras_below(chunks.push(chunk), bound),
{
    assert forall|i: int| 0 <= i < chunks.push(chunk).len() implies (#[trigger] chunks.push(
        chunk,
    )[i]).era < bound by {
        if i < chunks.len() {
            assert(chunks.push(chunk)[i] == chunks[i]);
        }
    }
}

proof fn lemma_increasing_push(chunks: Seq<UnlockChunk>, chunk: UnlockChunk)
    requires
        eras_increasing(chunks),
        eras_below(chunks, chunk.era as int),
    ensures
        eras_increasing(chunks.push(chunk)),
{
    let s = chunks.push(chunk);
    assert forall|i: int, j: int| 0 <= i < j < s.len() implies s[i].era < s[j].era by {
        assert(s[i] == chunks[i]);
        if j < chunks.len() {
            assert(s[j] == chunks[j]);
        }
    }
}

proof fn lemma_front(chunks: Seq<UnlockChunk>)
    requires
        eras_increasing(chunks),
        chunks.len() > 0,
    ensures
        eras_increasing(chunks.drop_last()),
        eras_below(chunks.drop_last(), chunks.last().era as int),
{
    let front = chunks.drop_last();
    assert forall|i: int| 0 <= i < front.len() implies (#[trigger] front[i]).era
        < chunks.last().era by {
        assert(front[i] == chunks[i]);
    }
}

proof fn lemma_with_chunk_bound(chunks: Seq<UnlockChunk>, value: Balance, era: EraIndex, bound: int)
    requires
        era < bound,
        eras_below(chunks, bound),
    ensures
        eras_below(with_chunk(chunks, value, era), bound),
    decreases chunks.len(),
{
    if chunks.len() == 0 || chunks.last().era < era {
        lemma_below_push(chunks, UnlockChunk { value, era }, bound);
    } else if chunks.last().era == era {
        let front = chunks.drop_last();
        assert forall|i: int| 0 <= i < front.len() implies (#[trigger] front[i]).era < bound by {
            assert(front[i] == chunks[i]);
        }
        lemma_below_push(
            front,
            UnlockChunk { value: (chunks.last().value + value) as Balance, era },
            bound,
        );
    } else {
        let front = chunks.drop_last();
        assert forall|i: int| 0 <= i < front.len() implies (#[trigger] front[i]).era < bound by {
            assert(front[i] == chunks[i]);
        }
        lemma_with_chunk_bound(front, value, era, bound);
        lemma_below_push(with_chunk(front, value, era), chunks.last(), bound);
    }
}

/// Adding a chunk adds its value to the sum and keeps the eras in order.
pub proof fn lemma_with_chunk(chunks: Seq<UnlockChunk>, value: Balance, era: EraIndex)
    requires
        chunks_total(chunks) + value <= Balance::MAX,
    ensures
        chunks_total(with_chunk(chunks, value, era)) == chunks_total(chunks) + value,
        eras_increasing(chunks) ==> eras_increasing(with_chunk(chunks, value, era)),
    decreases chunks.len(),
{
    let chunk = UnlockChunk { value, era };
    if chunks.len() == 0 {
        lemma_total_push(chunks, chunk);
        assert(eras_increasing(chunks.push(chunk)));
    } else if chunks.last().era < era {
        lemma_total_push(chunks, chunk);
        if eras_increasing(chunks) {
            lemma_front(chunks);
            assert(eras_below(chunks, era as int)) by {
                assert forall|i: int| 0 <= i < chunks.len() implies (#[trigger] chunks[i]).era
                    < era by {
                    if i < chunks.len() - 1 {
                        assert(chunks[i].era < chunks[chunks.len() - 1].era);
                    }
                }
            }
            lemma_increasing_push(chunks, chunk);
        }
    } else if chunks.last().era == era {
        let merged = UnlockChunk { value: (chunks.last().value + value) as Balance, era };
        lemma_total_push(chunks.drop_last(), merged);
        if eras_increasing(chunks) {
            lemma_front(chunks);
            lemma_increasing_push(chunks.drop_last(), merged);
        }
    } else {
        let front = chunks.drop_last();
        lemma_with_chunk(front, value, era);
        lemma_total_push(with_chunk(front, value, era), chunks.last());
        if eras_increasing(chunks) {
            lemma_front(chunks);
            lemma_with_chunk_bound(front, value, era, chunks.last().era as int);
            lemma_increasing_push(with_chunk(front, value, era), chunks.last());
        }
    }
}

proof fn lemma_unlocking_at_push(chunks: Seq<UnlockChunk>, chunk: UnlockChunk, era: EraIndex)
    ensures
        unlocking_at(chunks.push(chunk), era) == unlocking_at(chunks, era) + (if chunk.era == era {
            chunk.value as nat
        } else {
            0
        }),
{
    reveal(Seq::filter);
    assert(chunks.push(chunk).drop_last() =~= chunks);
    if chunk.era == era {
        lemma_total_push(chunks.filter(has_era(era)), chunk);
    }
}

/// Adding a chunk adds its value to what unlocks at its era and leaves every other era as
/// it was.
pub proof fn lemma_with_chunk_at(
    chunks: Seq<UnlockChunk>,
    value: Balance,
    era: EraIndex,
    other: EraIndex,
)
    requires
        chunks_total(chunks) + value <= Balance::MAX,
    ensures
        unlocking_at(with_chunk(chunks, value, era), other) == unlocking_at(chunks, other) + (if other
            == era {
            value as nat
        } else {
            0
        }),
    decreases chunks.len(),
{
    if chunks.len() == 0 || chunks.last().era < era {
        lemma_unlocking_at_push(chunks, UnlockChunk { value, era }, other);
    } else {
        let front = chunks.drop_last();
        assert(front.push(chunks.last()) =~= chunks);
        lemma_unlocking_at_push(front, chunks.last(), other);
        if chunks.last().era == era {
            let merged = UnlockChunk { value: (chunks.last().value + value) as Balance, era };
            lemma_unlocking_at_push(front, merged, other);
        } else {
            lemma_with_chunk_at(front, value, era, other);
            lemma_unlocking_at_push(with_chunk(front, value, era), chunks.last(), other);
        }
    }
}

proof fn lemma_filter_bound(chunks: Seq<UnlockChunk>, pred: spec_fn(UnlockChunk) -> bool, bound: int)
    requires
        eras_below(chunks, bound),
    ensures
        eras_below(chunks.filter(pred), bound),
    decreases chunks.len(),
{
    reveal(Seq::filter);
    if chunks.len() > 0 {
        let front = chunks.drop_last();
        assert forall|i: int| 0 <= i < front.len() implies (#[trigger] front[i]).era < bound by {
            assert(front[i] == chunks[i]);
        }
        lemma_filter_bound(front, pred, bound);
        if pred(chunks.last()) {
            assert(chunks[chunks.len() - 1].era < bound);
            lemma_below_push(front.filter(pred), chunks.last(), bound);
        }
    }
}

/// Taking chunks out keeps the others in order.
pub proof fn lemma_filter_increasing(chunks: Seq<UnlockChunk>, pred: spec_fn(UnlockChunk) -> bool)
    requires
        eras_increasing(chunks),
    ensures
        eras_increasing(chunks.filter(pred)),
    decreases chunks.len(),
{
    reveal(Seq::filter);
    if chunks.len() > 0 {
        let front = chunks.drop_last();
        lemma_front(chunks);
        lemma_filter_increasing(front, pred);
        lemma_filter_bound(front, pred, chunks.last().era as int);
        if pred(chunks.last()) {
            lemma_increasing_push(front.filter(pred), chunks.last());
        }
    }
}

/// What is due and what is pending at an era make up all the chunks.
pub proof fn lemma_due_and_pending(chunks: Seq<UnlockChunk>, era: EraIndex)
    ensures
        chunks_total(chunks) == chunks_total(chunks.filter(is_due(era))) + chunks_total(
            chunks.filter(is_pending(era)),
        ),
    decreases chunks.len(),
{
    reveal(Seq::filter);
    if chunks.len() > 0 {
        let front = chunks.drop_last();
        lemma_due_and_pending(front, era);
        if is_due(era)(chunks.last()) {
            lemma_total_push(front.filter(is_due(era)), chunks.last());
        } else {
            lemma_total_push(front.filter(is_pending(era)), chunks.last());
        }
    }
}

/// Unbonding keeps a ledger balanced and does not change its total.
pub proof fn lemma_unbond_balanced(ledger: LedgerView, amount: Balance, era: EraIndex)
    requires
        ledger.balanced(),
    ensures
        ledger.unbond(amount, era).balanced(),
        ledger.unbond(amount, era).total == ledger.total,
{
    let moved = ledger.unbondable(amount);
    if moved != 0 {
        lemma_with_chunk(ledger.unlocking, moved as Balance, era);
    }
}

/// Withdrawing keeps a ledger balanced and does not touch the active stake.
pub proof fn lemma_withdraw_balanced(ledger: LedgerView, era: EraIndex)
    requires
        ledger.balanced(),
    ensures
        ledger.withdraw(era).balanced(),
        ledger.withdraw(era).active == ledger.active,
        ledger.withdraw(era).total + ledger.withdrawable(era) == ledger.total,
{
    lemma_due_and_pending(ledger.unlocking, era);
    lemma_filter_increasing(ledger.unlocking, is_pending(era));
}

/// The ledger that a controller keeps for a stash.
#[derive(Debug, PartialEq, Eq)]
pub struct StakingLedger {
    pub stash: AccountId,
    pub total: Balance,
    pub active: Balance,
    pub unlocking: Vec<UnlockChunk>,
}

impl View for StakingLedger {
    type V = LedgerView;

    open spec fn view(&self) -> LedgerView {
        LedgerView {
            stash: self.stash,
            total: self.total as nat,
            active: self.active as nat,
            unlocking: self.unlocking@,
        }
    }
}

impl Clone for StakingLedger {
    fn clone(&self) -> (r: Self)
        ensures
            r@ == self@,
    {
        let mut unlocking: Vec<UnlockChunk> = Vec::new();
        let mut i: usize = 0;
        while i < self.unlocking.len()
            invariant
                i <= self.unlocking@.len(),
                unlocking@ == self.unlocking@.take(i as int),
            decreases self.unlocking@.len() - i,
        {
            unlocking.push(self.unlocking[i]);
            assert(unlocking@ =~= self.unlocking@.take(i + 1));
            i = i + 1;
        }
        assert(unlocking@ =~= self.unlocking@);
        StakingLedger { stash: self.stash, total: self.total, active: self.active, unlocking }
    }
}

fn insert_chunk(chunks: &mut Vec<UnlockChunk>, value: Balance, era: EraIndex)
    requires
        chunks_total(old(chunks)@) + value <= Balance::MAX,
    ensures
        final(chunks)@ == with_chunk(old(chunks)@, value, era),
    decreases old(chunks)@.len(),
{
    let n = chunks.len();
    if n == 0 {
        chunks.push(UnlockChunk { value, era });
        return ;
    }
    let last = chunks[n - 1];
    if last.era < era {
        chunks.push(UnlockChunk { value, era });
    } else if last.era == era {
        chunks.pop();
        chunks.push(UnlockChunk { value: last.value + value, era });
    } else {
        chunks.pop();
        insert_chunk(chunks, value, era);
        chunks.push(last);
    }
}

impl StakingLedger {
    /// The ledger of a stash that has just bonded `amount`.
    pub fn new(stash: AccountId, amount: Balance) -> (ledger: Self)
        ensures
            ledger@ == LedgerView::bonded(stash, amount),
            ledger@.balanced(),
    {
        let ledger = StakingLedger { stash, total: amount, active: amount, unlocking: Vec::new() };
        assert(ledger@.unlocking =~= Seq::empty());
        ledger
    }

    /// Moves up to `amount` of the active stake to a chunk that unlocks at `era`.
    pub fn unbond(&mut self, amount: Balance, era: EraIndex)
        requires
            old(self)@.balanced(),
        ensures
            final(self)@ == old(self)@.unbond(amount, era),
            final(self)@.balanced(),
    {
        proof {
            lemma_unbond_balanced(self@, amount, era);
        }
        let moved = if amount <= self.active {
            amount
        } else {
            self.active
        };
        if moved != 0 {
            self.active = self.active - moved;
            insert_chunk(&mut self.unlocking, moved, era);
        }
    }

    /// Takes out every chunk that is due at `era` and lowers the total by their sum.
    pub fn withdraw(&mut self, era: EraIndex)
        requires
            old(self)@.balanced(),
        ensures
            final(self)@ == old(self)@.withdraw(era),
            final(self)@.balanced(),
    {
        proof {
            lemma_withdraw_balanced(self@, era);
        }
        let ghost all = self.unlocking@;
        let mut pending: Vec<UnlockChunk> = Vec::new();
        let mut released: Balance = 0;
        let mut i: usize = 0;
        while i < self.unlocking.len()
            invariant
                self.unlocking@ == all,
                i <= all.len(),
                pending@ == all.take(i as int).filter(is_pending(era)),
                released == chunks_total(all.take(i as int).filter(is_due(era))),
                chunks_total(all) <= Balance::MAX,
            decreases all.len() - i,
        {
            let chunk = self.unlocking[i];
            proof {
                reveal(Seq::filter);
                let next = all.take(i + 1);
                assert(next.drop_last() =~= all.take(i as int));
                assert(next.last() == chunk);
                lemma_due_and_pending(next, era);
                lemma_take_total(all, i + 1);
                if chunk.era <= era {
                    lemma_total_push(all.take(i as int).filter(is_due(era)), chunk);
                }
            }
            if chunk.era <= era {
                released = released + chunk.value;
            } else {
                pending.push(chunk);
            }
            i = i + 1;
        }
        assert(all.take(i as int) =~= all);
        self.total = self.total - released;
        self.unlocking = pending;
    }
}

proof fn lemma_take_total(chunks: Seq<UnlockChunk>, n: int)
    requires
        0 <= n <= chunks.len(),
    ensures
        chunks_total(chunks.take(n)) <= chunks_total(chunks),
    decreases chunks.len(),
{
    if n < chunks.len() {
        assert(chunks.drop_last().take(n) =~= chunks.take(n));
        lemma_take_total(chunks.drop_last(), n);
    } else {
        assert(chunks.take(n) =~= chunks);
    }
}

} // verus!
