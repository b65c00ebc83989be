//! The crawl engine: filters, extraction rules, and what they take from one transaction.

use crate::accounts::CrawledAccounts;
use crate::constants::DEFAULT_CONCURRENCY_LIMIT;
use crate::errors::{CrawlError, DecodeError};
use crate::filters::{IxFilter, TxFilter};
use crate::flatten::{flatten, flattened, referents};
use crate::json::{json_pointer, json_text, value_pointer, value_text};
use crate::text::{trim_wrapping, trimmed};
use crate::transaction::{Instruction, TransactionRecord};
use solana_sdk::pubkey::Pubkey;
use vstd::prelude::*;
use vstd::string::StringExecFns;

verus! {

/// An extraction rule: the account to take from a qualifying instruction, and the label to
/// put it under.
///
/// A rule with a position reads the account list of a positional instruction. A rule without
/// one reads the field of its name under `info` in a structured instruction. A rule never
/// applies to the other shape, and yields nothing where the position or the field is absent.
pub struct IxAccount {
    pub name: String,
    pub index: Option<usize>,
}

impl IxAccount {
    /// A rule for positional instructions: the account at `index`, under the label `name`.
    pub fn unparsed(name: &str, index: usize) -> (rule: Self)
        ensures
            rule.name@ == name@,
            rule.index == Some(index),
    {
        IxAccount { name: String::from_str(name), index: Some(index) }
    }

    /// A rule for structured instructions: the field `name` of the decoded call, under the
    /// label `name`.
    pub fn parsed(name: &str) -> (rule: Self)
        ensures
            rule.name@ == name@,
            rule.index is None,
    {
        IxAccount { name: String::from_str(name), index: None }
    }

    /// The JSON pointer to the field that a rule for structured instructions reads.
    pub open spec fn field_pointer(&self) -> Seq<char> {
        "/info/"@ + self.name@
    }

    /// The characters that may wrap the text of a field and are no part of the address: the
    /// double quote and the backslash.
    pub open spec fn wrapping() -> Set<char> {
        set!['"', '\\']
    }

    /// The address that the rule takes from `ix`, if it takes one.
    ///
    /// A field that is there but holds no text names no address.
    pub open spec fn target(&self, ix: &Instruction) -> Option<Seq<char>> {
        match (self.index, ix) {
            (Some(index), Instruction::Positional(ix)) => if index < ix.accounts@.len() {
                Some(ix.accounts@[index as int]@)
            } else {
                None
            },
            (None, Instruction::Structured(ix)) => match json_pointer(
                ix.parsed,
                self.field_pointer(),
            ) {
                Some(value) => match json_text(value) {
                    Some(text) => Some(trimmed(text, Self::wrapping())),
                    None => None,
                },
                None => None,
            },
            _ => None,
        }
    }

    /// Applies the rule to one instruction.
    pub fn extract(&self, ix: &Instruction) -> (found: Option<String>)
        ensures
            match found {
                Some(address) => self.target(ix) == Some(address@),
                None => self.target(ix) is None,
            },
    {
        match ix {
            Instruction::Positional(ix) => match self.index {
                Some(index) => if index < ix.accounts.len() {
                    Some(ix.accounts[index].clone())
                } else {
                    None
                },
                None => None,
            },
            Instruction::Structured(ix) => match self.index {
                Some(_) => None,
                None => {
                    let mut pointer = String::from_str("/info/");
                    pointer.append(self.name.as_str());
                    match value_pointer(&ix.parsed, pointer.as_str()) {
                        Some(value) => match value_text(value) {
                            Some(text) => Some(String::from_str(trim_wrapping(text, '"', '\\'))),
                            None => None,
                        },
                        None => None,
                    }
                },
            },
        }
    }
}

/// What to do with a transaction that holds more than one qualifying instruction. Such a
/// transaction is a sign of filters that select too little; it does not spoil the result.
#[derive(Copy, Clone, Debug, PartialEq, Eq, Structural)]
pub enum MatchPolicy {
    /// The crawl fails with [`CrawlError::AmbiguousMatch`].
    Reject,
    /// Every qualifying instruction is processed, and the transaction is reported. This is
    /// the policy of a new crawler.
    Report,
    /// Every qualifying instruction is processed, and nothing is reported.
    Allow,
}

/// What became of one transaction of a batch.
#[derive(Copy, Clone, Debug, PartialEq, Eq, Structural)]
pub enum TransactionOutcome {
    /// A transaction filter rejected it.
    Filtered,
    /// It passed the filters but its instructions could not be read. It is skipped.
    Undecodable(DecodeError),
    /// It was read; the payload is the number of its qualifying instructions.
    Matched(usize),
}

/// The result of a crawl with what there is to report about the batch.
pub struct CrawlReport {
    /// The accounts found.
    pub accounts: CrawledAccounts,
    /// The positions in the batch of the transactions that passed the filters but could not
    /// be read, in rising order.
    pub undecodable: Vec<usize>,
    /// Under [`MatchPolicy::Report`], the positions in the batch of the transactions with
    /// more than one qualifying instruction, in rising order; empty under the other
    /// policies.
    pub ambiguous: Vec<usize>,
}

/// Whether every filter of `filters` lets `tx` pass.
pub open spec fn all_accept_tx<T: TxFilter>(filters: Seq<T>, tx: &TransactionRecord) -> bool {
    forall|i: int| 0 <= i < filters.len() ==> (#[trigger] filters[i]).accepts(tx)
}

/// Whether every filter of `filters` lets `ix` pass.
pub open spec fn all_accept_ix<I: IxFilter>(filters: Seq<I>, ix: &Instruction) -> bool {
    forall|i: int| 0 <= i < filters.len() ==> (#[trigger] filters[i]).accepts(ix)
}

/// Whether some filter of `filters` lets `ix` pass.
pub open spec fn any_accepts_ix<I: IxFilter>(filters: Seq<I>, ix: &Instruction) -> bool {
    exists|i: int| 0 <= i < filters.len() && (#[trigger] filters[i]).accepts(ix)
}

/// Whether a rule of `rules` with the label `label` takes `address` from `ix`.
pub open spec fn rules_yield(
    rules: Seq<IxAccount>,
    ix: &Instruction,
    label: Seq<char>,
    address: Seq<char>,
) -> bool {
    exists|r: int|
        0 <= r < rules.len() && (#[trigger] rules[r]).name@ == label && rules[r].target(ix)
            == Some(address)
}

/// Whether the sequence rises strictly.
pub open spec fn rising(list: Seq<usize>) -> bool {
    forall|i: int, j: int| 0 <= i < j < list.len() ==> list[i] < list[j]
}

/// A crawler for the history of one account: the filters that a transaction and an
/// instruction have to pass, the rules that take accounts from the instructions that
/// qualify, and the settings of the crawl.
///
/// A list of filters holds filters of one type. [`crate::filters::AnyTxFilter`] and
/// [`crate::filters::AnyIxFilter`] hold any filter of this crate.
pub struct Crawler<T: TxFilter, I: IxFilter> {
    /// The account whose history is crawled.
    pub address: Pubkey,
    /// A transaction has to pass all of these.
    pub tx_filters: Vec<T>,
    /// An instruction has to pass all of these.
    pub ix_filters: Vec<I>,
    /// Unless this list is empty, an instruction has to pass one of these.
    pub ix_or_filters: Vec<I>,
    /// The extraction rules.
    pub account_indices: Vec<IxAccount>,
    /// How many transactions are fetched at once, at most.
    pub concurrency_limit: usize,
    /// What to do with a transaction that holds more than one qualifying instruction.
    pub match_policy: MatchPolicy,
}

impl<T: TxFilter, I: IxFilter> Crawler<T, I> {
    /// Whether `tx` passes the transaction filters: all of them.
    pub open spec fn tx_passes(&self, tx: &TransactionRecord) -> bool {
        all_accept_tx(self.tx_filters@, tx)
    }

    /// Whether `ix` qualifies: it passes all required filters and, unless there are none,
    /// one of the alternative filters.
    pub open spec fn ix_qualifies(&self, ix: &Instruction) -> bool {
        all_accept_ix(self.ix_filters@, ix) && (self.ix_or_filters@.len() == 0 || any_accepts_ix(
            self.ix_or_filters@,
            ix,
        ))
    }

    /// The number of qualifying instructions among `list`.
    pub open spec fn qualifying(&self, list: Seq<Instruction>) -> nat
        decreases list.len(),
    {
        if list.len() == 0 {
            0
        } else {
            self.qualifying(list.drop_last()) + if self.ix_qualifies(&list.last()) {
                1nat
            } else {
                0nat
            }
        }
    }

    /// Whether a rule with the label `label` takes `address` from a qualifying instruction
    /// of `list`.
    pub open spec fn finds_among(
        &self,
        list: Seq<Instruction>,
        label: Seq<char>,
        address: Seq<char>,
    ) -> bool {
        exists|k: int|
            0 <= k < list.len() && self.ix_qualifies(&#[trigger] list[k]) && rules_yield(
                self.account_indices@,
                &list[k],
                label,
                address,
            )
    }

    /// Whether the crawl finds `address` under `label` in `tx`: the transaction passes the
    /// filters and can be read, and a rule with that label takes the address from one of its
    /// qualifying instructions.
    pub open spec fn finds_in(
        &self,
        tx: &TransactionRecord,
        label: Seq<char>,
        address: Seq<char>,
    ) -> bool {
        &&& self.tx_passes(tx)
        &&& flattened(tx) is Ok
        &&& self.finds_among(flattened(tx)->Ok_0, label, address)
    }

    /// Whether the crawl finds `address` under `label` in some transaction of the batch.
    pub open spec fn finds(
        &self,
        batch: Seq<TransactionRecord>,
        label: Seq<char>,
        address: Seq<char>,
    ) -> bool {
        exists|t: int| 0 <= t < batch.len() && self.finds_in(&#[trigger] batch[t], label, address)
    }

    /// What becomes of `tx` in a crawl.
    pub open spec fn outcome_of(&self, tx: &TransactionRecord) -> TransactionOutcome {
        if !self.tx_passes(tx) {
            TransactionOutcome::Filtered
        } else {
            match flattened(tx) {
                Ok(list) => TransactionOutcome::Matched(self.qualifying(list) as usize),
                Err(error) => TransactionOutcome::Undecodable(error),
            }
        }
    }

    /// Whether `tx` passes the filters and holds more than one qualifying instruction.
    pub open spec fn is_ambiguous(&self, tx: &TransactionRecord) -> bool {
        self.tx_passes(tx) && flattened(tx) is Ok && self.qualifying(flattened(tx)->Ok_0) > 1
    }

    /// Whether `tx` passes the filters but cannot be read.
    pub open spec fn is_undecodable(&self, tx: &TransactionRecord) -> bool {
        self.tx_passes(tx) && flattened(tx) is Err
    }

    /// Whether `t` is the place of the first transaction of the batch that
    /// [is ambiguous](Self::is_ambiguous).
    pub open spec fn first_ambiguous(&self, batch: Seq<TransactionRecord>, t: int) -> bool {
        &&& 0 <= t < batch.len()
        &&& self.is_ambiguous(&batch[t])
        &&& forall|u: int| 0 <= u < t ==> !self.is_ambiguous(&#[trigger] batch[u])
    }

    /// Whether `accounts` is the result of the crawl over the batch: it holds an address
    /// under a label exactly where the crawl [finds](Self::finds) it there.
    pub open spec fn gathers(&self, batch: Seq<TransactionRecord>, accounts: &CrawledAccounts) -> bool {
        &&& accounts.wf()
        &&& forall|l: Seq<char>, a: Seq<char>| #[trigger]
            accounts.holds(l, a) <==> self.finds(batch, l, a)
    }

    /// Whether `report` is the report of the crawl over the batch.
    pub open spec fn reports(&self, batch: Seq<TransactionRecord>, report: &CrawlReport) -> bool {
        &&& self.gathers(batch, &report.accounts)
        &&& rising(report.undecodable@)
        &&& forall|t: usize| #[trigger]
            report.undecodable@.contains(t) <==> t < batch.len() && self.is_undecodable(
                &batch[t as int],
            )
        &&& rising(report.ambiguous@)
        &&& forall|t: usize| #[trigger]
            report.ambiguous@.contains(t) <==> self.match_policy == MatchPolicy::Report && t
                < batch.len() && self.is_ambiguous(&batch[t as int])
    }

    /// Whether the crawl over the batch fails, and with `error`: the policy is
    /// [`MatchPolicy::Reject`], and the error names the first ambiguous transaction of the
    /// batch and the number of its qualifying instructions.
    pub open spec fn rejects(&self, batch: Seq<TransactionRecord>, error: CrawlError) -> bool {
        &&& self.match_policy == MatchPolicy::Reject
        &&& exists|t: int| #[trigger]
            self.first_ambiguous(batch, t) && error == CrawlError::AmbiguousMatch(
                t as usize,
                self.qualifying(flattened(&batch[t])->Ok_0) as usize,
            )
    }

    /// Whether the crawl over the batch succeeds: it does unless the policy is
    /// [`MatchPolicy::Reject`] and a transaction of the batch is ambiguous.
    pub open spec fn succeeds(&self, batch: Seq<TransactionRecord>) -> bool {
        self.match_policy == MatchPolicy::Reject ==> forall|t: int|
            0 <= t < batch.len() ==> !self.is_ambiguous(&#[trigger] batch[t])
    }

    /// Whether the two crawlers have the same address, concurrency limit and policy.
    pub open spec fn same_settings(&self, other: &Self) -> bool {
        &&& self.address == other.address
        &&& self.concurrency_limit == other.concurrency_limit
        &&& self.match_policy == other.match_policy
    }

    /// Whether the two crawlers have the same filters and rules.
    pub open spec fn same_lists(&self, other: &Self) -> bool {
        &&& self.tx_filters == other.tx_filters
        &&& self.ix_filters == other.ix_filters
        &&& self.ix_or_filters == other.ix_or_filters
        &&& self.account_indices == other.account_indices
    }

    /// The number of qualifying instructions is at most the number of instructions.
    pub proof fn lemma_qualifying_bound(&self, list: Seq<Instruction>)
        ensures
            self.qualifying(list) <= list.len(),
        decreases list.len(),
    {
        if list.len() > 0 {
            self.lemma_qualifying_bound(list.drop_last());
        }
    }

    /// A crawler for the history of `address`, with no filter and no rule, the default
    /// concurrency limit and the policy [`MatchPolicy::Report`].
    pub fn new(address: Pubkey) -> (crawler: Self)
        ensures
            crawler.address == address,
            crawler.tx_filters@.len() == 0,
            crawler.ix_filters@.len() == 0,
            crawler.ix_or_filters@.len() == 0,
            crawler.account_indices@.len() == 0,
            crawler.concurrency_limit == DEFAULT_CONCURRENCY_LIMIT,
            crawler.match_policy == MatchPolicy::Report,
    {
        Crawler {
            address,
            tx_filters: Vec::new(),
            ix_filters: Vec::new(),
            ix_or_filters: Vec::new(),
            account_indices: Vec::new(),
            concurrency_limit: DEFAULT_CONCURRENCY_LIMIT,
            match_policy: MatchPolicy::Report,
        }
    }

    /// Adds a transaction filter. A transaction has to pass every filter added.
    pub fn add_tx_filter(&mut self, filter: T) -> (crawler: &mut Self)
        ensures
            crawler.tx_filters@ == old(self).tx_filters@.push(filter),
            crawler.ix_filters == old(self).ix_filters,
            crawler.ix_or_filters == old(self).ix_or_filters,
            crawler.account_indices == old(self).account_indices,
            crawler.same_settings(old(self)),
            *final(self) == *final(crawler),
    {
        self.tx_filters.push(filter);
        self
    }

    /// Adds a required instruction filter. An instruction has to pass every filter added.
    pub fn add_ix_filter(&mut self, filter: I) -> (crawler: &mut Self)
        ensures
            crawler.ix_filters@ == old(self).ix_filters@.push(filter),
            crawler.tx_filters == old(self).tx_filters,
            crawler.ix_or_filters == old(self).ix_or_filters,
            crawler.account_indices == old(self).account_indices,
            crawler.same_settings(old(self)),
            *final(self) == *final(crawler),
    {
        self.ix_filters.push(filter);
        self
    }

    /// Adds alternative instruction filters. Once there is an alternative filter, an
    /// instruction has to pass one of them.
    pub fn add_ix_or_filters(&mut self, filters: Vec<I>) -> (crawler: &mut Self)
        ensures
            crawler.ix_or_filters@ == old(self).ix_or_filters@ + filters@,
            crawler.tx_filters == old(self).tx_filters,
            crawler.ix_filters == old(self).ix_filters,
            crawler.account_indices == old(self).account_indices,
            crawler.same_settings(old(self)),
            *final(self) == *final(crawler),
    {
        let mut filters = filters;
        self.ix_or_filters.append(&mut filters);
        self
    }

    /// Adds an extraction rule.
    pub fn add_account_index(&mut self, index: IxAccount) -> (crawler: &mut Self)
        ensures
            crawler.account_indices@ == old(self).account_indices@.push(index),
            crawler.tx_filters == old(self).tx_filters,
            crawler.ix_filters == old(self).ix_filters,
            crawler.ix_or_filters == old(self).ix_or_filters,
            crawler.same_settings(old(self)),
            *final(self) == *final(crawler),
    {
        self.account_indices.push(index);
        self
    }

    /// Replaces the extraction rules.
    pub fn account_indices(&mut self, indices: Vec<IxAccount>) -> (crawler: &mut Self)
        ensures
            crawler.account_indices == indices,
            crawler.tx_filters == old(self).tx_filters,
            crawler.ix_filters == old(self).ix_filters,
            crawler.ix_or_filters == old(self).ix_or_filters,
            crawler.same_settings(old(self)),
            *final(self) == *final(crawler),
    {
        self.account_indices = indices;
        self
    }

    /// Sets how many transactions are fetched at once, at most.
    pub fn set_concurrency_limit(&mut self, limit: usize) -> (crawler: &mut Self)
        ensures
            crawler.concurrency_limit == limit,
            crawler.address == old(self).address,
            crawler.match_policy == old(self).match_policy,
            crawler.same_lists(old(self)),
            *final(self) == *final(crawler),
    {
        self.concurrency_limit = limit;
        self
    }

    /// Sets what to do with a transaction that holds more than one qualifying instruction.
    pub fn set_match_policy(&mut self, policy: MatchPolicy) -> (crawler: &mut Self)
        ensures
            crawler.match_policy == policy,
            crawler.address == old(self).address,
            crawler.concurrency_limit == old(self).concurrency_limit,
            crawler.same_lists(old(self)),
            *final(self) == *final(crawler),
    {
        self.match_policy = policy;
        self
    }

    /// Whether `tx` passes the transaction filters.
    pub fn filter_transaction(&self, tx: &TransactionRecord) -> (passes: bool)
        ensures
            passes == self.tx_passes(tx),
    {
        let mut i: usize = 0;
        while i < self.tx_filters.len()
            invariant
                i <= self.tx_filters.len(),
                forall|j: int| 0 <= j < i ==> (#[trigger] self.tx_filters@[j]).accepts(tx),
            decreases self.tx_filters.len() - i,
        {
            if !self.tx_filters[i].filter(tx) {
                return false;
            }
            i = i + 1;
        }
        true
    }

    /// Whether `ix` qualifies.
    pub fn filter_instruction(&self, ix: &Instruction) -> (qualifies: bool)
        ensures
            qualifies == self.ix_qualifies(ix),
    {
        let mut i: usize = 0;
        while i < self.ix_filters.len()
            invariant
                i <= self.ix_filters.len(),
                forall|j: int| 0 <= j < i ==> (#[trigger] self.ix_filters@[j]).accepts(ix),
            decreases self.ix_filters.len() - i,
        {
            if !self.ix_filters[i].filter(ix) {
                return false;
            }
            i = i + 1;
        }
        if self.ix_or_filters.len() == 0 {
            return true;
        }
        let mut k: usize = 0;
        while k < self.ix_or_filters.len()
            invariant
                k <= self.ix_or_filters.len(),
                all_accept_ix(self.ix_filters@, ix),
                forall|j: int| 0 <= j < k ==> !(#[trigger] self.ix_or_filters@[j]).accepts(ix),
            decreases self.ix_or_filters.len() - k,
        {
            if self.ix_or_filters[k].filter(ix) {
                return true;
            }
            k = k + 1;
        }
        false
    }

    /// Applies every rule to `ix` and puts what the rules take into `accounts`.
    pub fn extract_into(&self, ix: &Instruction, accounts: &mut CrawledAccounts)
        requires
            old(accounts).wf(),
        ensures
            final(accounts).wf(),
            forall|l: Seq<char>, a: Seq<char>| #[trigger]
                final(accounts).holds(l, a) <==> old(accounts).holds(l, a) || rules_yield(
                    self.account_indices@,
                    ix,
                    l,
                    a,
                ),
    {
        let ghost rules = self.account_indices@;
        let mut r: usize = 0;
        while r < self.account_indices.len()
            invariant
                r <= self.account_indices.len(),
                rules == self.account_indices@,
                accounts.wf(),
                forall|l: Seq<char>, a: Seq<char>| #[trigger]
                    accounts.holds(l, a) <==> old(accounts).holds(l, a) || rules_yield(
                        rules.take(r as int),
                        ix,
                        l,
                        a,
                    ),
            decreases self.account_indices.len() - r,
        {
            let rule = &self.account_indices[r];
            let found = rule.extract(ix);
            match found {
                Some(address) => {
                    accounts.insert(rule.name.as_str(), address.as_str());
                },
                None => {},
            }
            proof {
                assert forall|l: Seq<char>, a: Seq<char>| #[trigger]
                    accounts.holds(l, a) <==> old(accounts).holds(l, a) || rules_yield(
                        rules.take(r + 1),
                        ix,
                        l,
                        a,
                    ) by {
                    let here = rules[r as int].name@ == l && rules[r as int].target(ix) == Some(
                        a,
                    );
                    if here {
                        assert(rules.take(r + 1)[r as int] == rules[r as int]);
                    }
                }
            }
            r = r + 1;
        }
        assert(rules.take(r as int) == rules);
    }

    /// Processes one transaction: where it passes the filters and can be read, applies the
    /// rules to each of its qualifying instructions and puts what they take into `accounts`.
    /// Says what became of the transaction.
    pub fn collect_transaction(
        &self,
        tx: &TransactionRecord,
        accounts: &mut CrawledAccounts,
    ) -> (outcome: TransactionOutcome)
        requires
            old(accounts).wf(),
        ensures
            final(accounts).wf(),
            outcome == self.outcome_of(tx),
            outcome matches TransactionOutcome::Matched(count) ==> count == self.qualifying(
                flattened(tx)->Ok_0,
            ),
            forall|l: Seq<char>, a: Seq<char>| #[trigger]
                final(accounts).holds(l, a) <==> old(accounts).holds(l, a) || self.finds_in(
                    tx,
                    l,
                    a,
                ),
    {
        if !self.filter_transaction(tx) {
            return TransactionOutcome::Filtered;
        }
        match flatten(tx) {
            Err(error) => TransactionOutcome::Undecodable(error),
            Ok(list) => {
                let ghost all = referents(list@);
                let mut count: usize = 0;
                let mut k: usize = 0;
                while k < list.len()
                    invariant
                        k <= list.len(),
                        all == referents(list@),
                        count == self.qualifying(all.take(k as int)),
                        accounts.wf(),
                        forall|l: Seq<char>, a: Seq<char>| #[trigger]
                            accounts.holds(l, a) <==> old(accounts).holds(l, a)
                                || self.finds_among(all.take(k as int), l, a),
                    decreases list.len() - k,
                {
                    let ix: &Instruction = list[k];
                    let ghost done = all.take(k as int);
                    let ghost next = all.take(k + 1);
                    proof {
                        assert(next.drop_last() =~= done);
                        self.lemma_qualifying_bound(done);
                    }
                    let qualifies = self.filter_instruction(ix);
                    if qualifies {
                        self.extract_into(ix, accounts);
                        count = count + 1;
                    }
                    proof {
                        assert forall|l: Seq<char>, a: Seq<char>| #[trigger]
                            accounts.holds(l, a) <==> old(accounts).holds(l, a)
                                || self.finds_among(next, l, a) by {
                            let here = qualifies && rules_yield(self.account_indices@, ix, l, a);
                            if here {
                                assert(next[k as int] == *ix);
                            }
                        }
                    }
                    k = k + 1;
                }
                assert(all.take(k as int) == all);
                TransactionOutcome::Matched(count)
            },
        }
    }
}

/// A rising list of marked places below `t` becomes one of the marked places below `t + 1`
/// when `t` is pushed if it is marked, and nothing is otherwise.
pub(crate) proof fn lemma_marks(before: Seq<usize>, after: Seq<usize>, t: usize, marked: bool)
    requires
        rising(before),
        forall|u: usize| #[trigger] before.contains(u) ==> u < t,
        after == if marked {
            before.push(t)
        } else {
            before
        },
    ensures
        rising(after),
        forall|u: usize| #[trigger] after.contains(u) <==> before.contains(u) || (marked && u == t),
{
    if marked {
        assert forall|i: int, j: int| 0 <= i < j < after.len() implies after[i] < after[j] by {
            if j >= before.len() {
                assert(before.contains(before[i]));
            }
        }
        assert forall|u: usize| #[trigger] after.contains(u) <==> before.contains(u) || u == t by {
            if before.contains(u) {
                let i = choose|i: int| 0 <= i < before.len() && before[i] == u;
                assert(after[i] == u);
            }
            if u == t {
                assert(after[before.len() as int] == t);
            }
        }
    }
}

} // verus!
