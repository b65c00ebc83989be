//! What holds of every crawl: how filters compose, that a rule reads one shape of
//! instruction only, and that a batch can be crawled in parts.

use crate::accounts::CrawledAccounts;
use crate::crawler::{all_accept_ix, rules_yield, Crawler};
use crate::filters::{IxFilter, TxFilter};
use crate::flatten::flattened;
use crate::transaction::{Instruction, TransactionRecord};
use vstd::prelude::*;

verus! {

impl<T: TxFilter, I: IxFilter> Crawler<T, I> {
    /// Required filters are joined by "and": where one of them accepts no instruction, no
    /// instruction qualifies, whatever the others accept.
    pub proof fn lemma_required_filters_conjoin(&self, rejecting: int)
        requires
            0 <= rejecting < self.ix_filters@.len(),
            forall|ix: &Instruction| !self.ix_filters@[rejecting].accepts(ix),
        ensures
            forall|ix: &Instruction| !self.ix_qualifies(ix),
    {
        assert forall|ix: &Instruction| !self.ix_qualifies(ix) by {
            assert(!self.ix_filters@[rejecting].accepts(ix));
        }
    }

    /// Alternative filters are joined by "or": where every required filter accepts every
    /// instruction and one alternative does, every instruction qualifies, whatever the other
    /// alternatives accept.
    pub proof fn lemma_alternative_filters_disjoin(&self, accepting: int)
        requires
            forall|i: int, ix: &Instruction|
                0 <= i < self.ix_filters@.len() ==> (#[trigger] self.ix_filters@[i].accepts(ix)),
            0 <= accepting < self.ix_or_filters@.len(),
            forall|ix: &Instruction| self.ix_or_filters@[accepting].accepts(ix),
        ensures
            forall|ix: &Instruction| self.ix_qualifies(ix),
    {
        assert forall|ix: &Instruction| self.ix_qualifies(ix) by {
            assert(self.ix_or_filters@[accepting].accepts(ix));
            assert forall|i: int| 0 <= i < self.ix_filters@.len() implies (
            #[trigger] self.ix_filters@[i]).accepts(ix) by {}
        }
    }

    /// An empty group of alternatives rejects nothing: an instruction then qualifies exactly
    /// when it passes every required filter. With no filter at all every instruction
    /// qualifies.
    pub proof fn lemma_no_alternatives(&self)
        requires
            self.ix_or_filters@.len() == 0,
        ensures
            forall|ix: &Instruction| self.ix_qualifies(ix) <==> all_accept_ix(self.ix_filters@, ix),
            self.ix_filters@.len() == 0 ==> forall|ix: &Instruction| self.ix_qualifies(ix),
    {
    }

    /// Transaction filters are joined by "and": where one of them accepts no transaction,
    /// none passes and the crawl finds nothing.
    pub proof fn lemma_tx_filters_conjoin(&self, rejecting: int, batch: Seq<TransactionRecord>)
        requires
            0 <= rejecting < self.tx_filters@.len(),
            forall|tx: &TransactionRecord| !self.tx_filters@[rejecting].accepts(tx),
        ensures
            forall|tx: &TransactionRecord| !self.tx_passes(tx),
            forall|l: Seq<char>, a: Seq<char>| !self.finds(batch, l, a),
    {
        assert forall|tx: &TransactionRecord| !self.tx_passes(tx) by {
            assert(!self.tx_filters@[rejecting].accepts(tx));
        }
    }

    /// Rules that read by position take nothing from structured instructions: where every
    /// rule has a position and every instruction of the batch is structured, the crawl finds
    /// nothing.
    pub proof fn lemma_positional_rules_skip_structured(&self, batch: Seq<TransactionRecord>)
        requires
            forall|r: int|
                0 <= r < self.account_indices@.len() ==> (
                #[trigger] self.account_indices@[r]).index is Some,
            forall|t: int, k: int|
                0 <= t < batch.len() && flattened(&batch[t]) is Ok && 0 <= k < flattened(
                    &batch[t],
                )->Ok_0.len() ==> (#[trigger] flattened(&batch[t])->Ok_0[k]) is Structured,
        ensures
            forall|l: Seq<char>, a: Seq<char>| !self.finds(batch, l, a),
    {
        assert forall|l: Seq<char>, a: Seq<char>| !self.finds(batch, l, a) by {
            if self.finds(batch, l, a) {
                let t = choose|t: int|
                    0 <= t < batch.len() && self.finds_in(&#[trigger] batch[t], l, a);
                let list = flattened(&batch[t])->Ok_0;
                let k = choose|k: int|
                    0 <= k < list.len() && self.ix_qualifies(&#[trigger] list[k]) && rules_yield(
                        self.account_indices@,
                        &list[k],
                        l,
                        a,
                    );
                assert(flattened(&batch[t])->Ok_0[k] is Structured);
                assert(false);
            }
        }
    }

    /// Rules that read a field take nothing from positional instructions: where no rule has
    /// a position and every instruction of the batch is positional, the crawl finds nothing.
    pub proof fn lemma_field_rules_skip_positional(&self, batch: Seq<TransactionRecord>)
        requires
            forall|r: int|
                0 <= r < self.account_indices@.len() ==> (
                #[trigger] self.account_indices@[r]).index is None,
            forall|t: int, k: int|
                0 <= t < batch.len() && flattened(&batch[t]) is Ok && 0 <= k < flattened(
                    &batch[t],
                )->Ok_0.len() ==> (#[trigger] flattened(&batch[t])->Ok_0[k]) is Positional,
        ensures
            forall|l: Seq<char>, a: Seq<char>| !self.finds(batch, l, a),
    {
        assert forall|l: Seq<char>, a: Seq<char>| !self.finds(batch, l, a) by {
            if self.finds(batch, l, a) {
                let t = choose|t: int|
                    0 <= t < batch.len() && self.finds_in(&#[trigger] batch[t], l, a);
                let list = flattened(&batch[t])->Ok_0;
                let k = choose|k: int|
                    0 <= k < list.len() && self.ix_qualifies(&#[trigger] list[k]) && rules_yield(
                        self.account_indices@,
                        &list[k],
                        l,
                        a,
                    );
                assert(flattened(&batch[t])->Ok_0[k] is Positional);
                assert(false);
            }
        }
    }

    /// A result that gathers a batch in which the crawl finds nothing is empty.
    pub proof fn lemma_nothing_found(&self, batch: Seq<TransactionRecord>, accounts: &CrawledAccounts)
        requires
            self.gathers(batch, accounts),
            forall|l: Seq<char>, a: Seq<char>| !self.finds(batch, l, a),
        ensures
            accounts@ == Map::<Seq<char>, Set<Seq<char>>>::empty(),
    {
        accounts.lemma_labels();
        assert forall|l: Seq<char>| !accounts@.contains_key(l) by {
            if accounts@.contains_key(l) {
                let a = accounts@[l].choose();
                assert(accounts.holds(l, a));
            }
        }
        assert(accounts@ =~= Map::<Seq<char>, Set<Seq<char>>>::empty());
    }

    /// The crawl finds in a batch what it finds in its parts: the order of the transactions
    /// makes no difference, and a batch can be crawled in parts whose results are merged.
    pub proof fn lemma_finds_in_parts(
        &self,
        first: Seq<TransactionRecord>,
        second: Seq<TransactionRecord>,
    )
        ensures
            forall|l: Seq<char>, a: Seq<char>|
                self.finds(first + second, l, a) <==> self.finds(first, l, a) || self.finds(
                    second,
                    l,
                    a,
                ),
    {
        let whole = first + second;
        assert forall|l: Seq<char>, a: Seq<char>|
            self.finds(whole, l, a) <==> self.finds(first, l, a) || self.finds(second, l, a) by {
            if self.finds(whole, l, a) {
                let t = choose|t: int|
                    0 <= t < whole.len() && self.finds_in(&#[trigger] whole[t], l, a);
                if t < first.len() {
                    assert(first[t] == whole[t]);
                } else {
                    assert(second[t - first.len()] == whole[t]);
                }
            }
            if self.finds(first, l, a) {
                let t = choose|t: int|
                    0 <= t < first.len() && self.finds_in(&#[trigger] first[t], l, a);
                assert(whole[t] == first[t]);
            }
            if self.finds(second, l, a) {
                let t = choose|t: int|
                    0 <= t < second.len() && self.finds_in(&#[trigger] second[t], l, a);
                assert(whole[first.len() + t] == second[t]);
            }
        }
    }
}

} // verus!
