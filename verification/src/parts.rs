//! The crawl over a batch: each transaction is crawled on its own, and what was found is
//! joined.
//!
//! [`Crawler::crawl_part`] processes one transaction. [`Crawler::assemble`] joins the parts
//! of a batch, in the order of the batch. [`Crawler::crawl`] does the one after the other;
//! a caller with several workers shares out the first step among them.

use crate::accounts::CrawledAccounts;
use crate::crawler::{
    lemma_marks, rising, CrawlReport, Crawler, MatchPolicy, TransactionOutcome,
};
use crate::errors::CrawlError;
use crate::filters::{IxFilter, TxFilter};
use crate::flatten::flattened;
use crate::transaction::TransactionRecord;
use vstd::prelude::*;

verus! {

/// What the crawl of one transaction gave.
pub struct TransactionPart {
    /// The accounts found in the transaction.
    pub accounts: CrawledAccounts,
    /// What became of the transaction.
    pub outcome: TransactionOutcome,
}

impl TransactionPart {
    /// Whether the transaction held more than one qualifying instruction.
    pub open spec fn is_ambiguous(&self) -> bool {
        self.outcome matches TransactionOutcome::Matched(count) && count > 1
    }
}

/// Whether some part among `parts` holds `address` under `label`.
pub open spec fn some_part_holds(
    parts: Seq<TransactionPart>,
    label: Seq<char>,
    address: Seq<char>,
) -> bool {
    exists|i: int| 0 <= i < parts.len() && (#[trigger] parts[i]).accounts.holds(label, address)
}

/// Whether `t` is the place of the first ambiguous part.
pub open spec fn first_ambiguous_part(parts: Seq<TransactionPart>, t: int) -> bool {
    &&& 0 <= t < parts.len()
    &&& parts[t].is_ambiguous()
    &&& forall|u: int| 0 <= u < t ==> !(#[trigger] parts[u]).is_ambiguous()
}

impl<T: TxFilter, I: IxFilter> Crawler<T, I> {
    /// Whether `part` is what the crawl of `tx` alone gives.
    pub open spec fn part_of(&self, tx: &TransactionRecord, part: &TransactionPart) -> bool {
        &&& part.accounts.wf()
        &&& part.outcome == self.outcome_of(tx)
        &&& part.outcome matches TransactionOutcome::Matched(count) ==> count == self.qualifying(
            flattened(tx)->Ok_0,
        )
        &&& forall|l: Seq<char>, a: Seq<char>| #[trigger]
            part.accounts.holds(l, a) <==> self.finds_in(tx, l, a)
    }

    /// Whether `report` joins the parts: it holds what the parts hold, and lists the parts
    /// that could not be read and, under [`MatchPolicy::Report`], the ambiguous ones.
    pub open spec fn joins(&self, parts: Seq<TransactionPart>, report: &CrawlReport) -> bool {
        &&& report.accounts.wf()
        &&& forall|l: Seq<char>, a: Seq<char>| #[trigger]
            report.accounts.holds(l, a) <==> some_part_holds(parts, l, a)
        &&& rising(report.undecodable@)
        &&& forall|t: usize| #[trigger]
            report.undecodable@.contains(t) <==> t < parts.len()
                && parts[t as int].outcome is Undecodable
        &&& rising(report.ambiguous@)
        &&& forall|t: usize| #[trigger]
            report.ambiguous@.contains(t) <==> self.match_policy == MatchPolicy::Report && t
                < parts.len() && parts[t as int].is_ambiguous()
        &&& self.match_policy == MatchPolicy::Reject ==> forall|t: int|
            0 <= t < parts.len() ==> !(#[trigger] parts[t]).is_ambiguous()
    }

    /// Whether joining the parts fails, and with `error`: the policy is
    /// [`MatchPolicy::Reject`], and the error names the first ambiguous part and the number
    /// of its qualifying instructions.
    pub open spec fn refuses(&self, parts: Seq<TransactionPart>, error: CrawlError) -> bool {
        &&& self.match_policy == MatchPolicy::Reject
        &&& exists|t: int| #[trigger]
            first_ambiguous_part(parts, t) && error == CrawlError::AmbiguousMatch(
                t as usize,
                parts[t].outcome->Matched_0,
            )
    }

    /// Crawls one transaction on its own.
    pub fn crawl_part(&self, tx: &TransactionRecord) -> (part: TransactionPart)
        ensures
            self.part_of(tx, &part),
    {
        let mut accounts = CrawledAccounts::new();
        let outcome = self.collect_transaction(tx, &mut accounts);
        TransactionPart { accounts, outcome }
    }

    /// Joins the parts of a batch, given in the order of the batch.
    pub fn assemble(&self, parts: &Vec<TransactionPart>) -> (result: Result<
        CrawlReport,
        CrawlError,
    >)
        requires
            forall|i: int| 0 <= i < parts@.len() ==> (#[trigger] parts@[i]).accounts.wf(),
        ensures
            match result {
                Ok(report) => self.joins(parts@, &report),
                Err(error) => self.refuses(parts@, error),
            },
    {
        let mut accounts = CrawledAccounts::new();
        let mut undecodable: Vec<usize> = Vec::new();
        let mut ambiguous: Vec<usize> = Vec::new();
        let mut t: usize = 0;
        while t < parts.len()
            invariant
                t <= parts.len(),
                forall|i: int| 0 <= i < parts@.len() ==> (#[trigger] parts@[i]).accounts.wf(),
                accounts.wf(),
                forall|l: Seq<char>, a: Seq<char>| #[trigger]
                    accounts.holds(l, a) <==> some_part_holds(parts@.take(t as int), l, a),
                rising(undecodable@),
                forall|u: usize| #[trigger]
                    undecodable@.contains(u) <==> u < t && parts@[u as int].outcome is Undecodable,
                rising(ambiguous@),
                forall|u: usize| #[trigger]
                    ambiguous@.contains(u) <==> self.match_policy == MatchPolicy::Report && u < t
                        && parts@[u as int].is_ambiguous(),
                self.match_policy == MatchPolicy::Reject ==> forall|u: int|
                    0 <= u < t ==> !(#[trigger] parts@[u]).is_ambiguous(),
            decreases parts.len() - t,
        {
            let part = &parts[t];
            let ghost next = parts@.take(t + 1);
            let ghost seen_undecodable = undecodable@;
            let ghost seen_ambiguous = ambiguous@;
            match part.outcome {
                TransactionOutcome::Filtered => {},
                TransactionOutcome::Undecodable(_) => {
                    undecodable.push(t);
                },
                TransactionOutcome::Matched(count) => {
                    if count > 1 {
                        match self.match_policy {
                            MatchPolicy::Reject => {
                                assert(first_ambiguous_part(parts@, t as int));
                                return Err(CrawlError::AmbiguousMatch(t, count));
                            },
                            MatchPolicy::Report => {
                                ambiguous.push(t);
                            },
                            MatchPolicy::Allow => {},
                        }
                    }
                },
            }
            accounts.merge(&part.accounts);
            proof {
                assert forall|l: Seq<char>, a: Seq<char>| #[trigger]
                    accounts.holds(l, a) <==> some_part_holds(next, l, a) by {
                    if part.accounts.holds(l, a) {
                        assert(next[t as int] == *part);
                    }
                }
                lemma_marks(seen_undecodable, undecodable@, t, part.outcome is Undecodable);
                lemma_marks(
                    seen_ambiguous,
                    ambiguous@,
                    t,
                    self.match_policy == MatchPolicy::Report && part.is_ambiguous(),
                );
            }
            t = t + 1;
        }
        assert(parts@.take(t as int) == parts@);
        Ok(CrawlReport { accounts, undecodable, ambiguous })
    }

    /// Joining the parts of a batch gives the report of the crawl over the batch: the work
    /// can be shared among workers, transaction by transaction, without a change in the
    /// result.
    pub proof fn lemma_parts_make_the_crawl(
        &self,
        batch: Seq<TransactionRecord>,
        parts: Seq<TransactionPart>,
        report: &CrawlReport,
    )
        requires
            parts.len() == batch.len(),
            forall|i: int| 0 <= i < batch.len() ==> self.part_of(&batch[i], &#[trigger] parts[i]),
            self.joins(parts, report),
        ensures
            self.succeeds(batch),
            self.reports(batch, report),
    {
    }

    /// Where joining the parts of a batch fails, so does the crawl over the batch, and with
    /// the same error.
    pub proof fn lemma_parts_fail_the_crawl(
        &self,
        batch: Seq<TransactionRecord>,
        parts: Seq<TransactionPart>,
        error: CrawlError,
    )
        requires
            parts.len() == batch.len(),
            forall|i: int| 0 <= i < batch.len() ==> self.part_of(&batch[i], &#[trigger] parts[i]),
            self.refuses(parts, error),
        ensures
            self.rejects(batch, error),
    {
        let t = choose|t: int| #[trigger]
            first_ambiguous_part(parts, t) && error == CrawlError::AmbiguousMatch(
                t as usize,
                parts[t].outcome->Matched_0,
            );
        assert(self.first_ambiguous(batch, t));
    }

    /// Crawls a batch of fetched transactions and reports on it.
    ///
    /// Each transaction that passes the transaction filters is flattened; one that cannot be
    /// read is skipped and reported. The rules are applied to every instruction that
    /// qualifies. A transaction with more than one qualifying instruction is treated as the
    /// [policy](MatchPolicy) says.
    pub fn crawl(&self, transactions: &Vec<TransactionRecord>) -> (result: Result<
        CrawlReport,
        CrawlError,
    >)
        ensures
            match result {
                Ok(report) => self.succeeds(transactions@) && self.reports(transactions@, &report),
                Err(error) => self.rejects(transactions@, error),
            },
    {
        let mut parts: Vec<TransactionPart> = Vec::new();
        let mut t: usize = 0;
        while t < transactions.len()
            invariant
                t <= transactions.len(),
                parts@.len() == t,
                forall|i: int|
                    0 <= i < t ==> self.part_of(&transactions@[i], &#[trigger] parts@[i]),
            decreases transactions.len() - t,
        {
            parts.push(self.crawl_part(&transactions[t]));
            t = t + 1;
        }
        match self.assemble(&parts) {
            Ok(report) => {
                proof {
                    self.lemma_parts_make_the_crawl(transactions@, parts@, &report);
                }
                Ok(report)
            },
            Err(error) => {
                proof {
                    self.lemma_parts_fail_the_crawl(transactions@, parts@, error);
                }
                Err(error)
            },
        }
    }

    /// Crawls a batch of fetched transactions: the accounts that the rules take from the
    /// qualifying instructions of the transactions that pass the filters.
    ///
    /// Nothing is returned of a crawl that fails.
    pub fn run(&self, transactions: &Vec<TransactionRecord>) -> (result: Result<
        CrawledAccounts,
        CrawlError,
    >)
        ensures
            match result {
                Ok(accounts) => self.succeeds(transactions@) && self.gathers(
                    transactions@,
                    &accounts,
                ),
                Err(error) => self.rejects(transactions@, error),
            },
    {
        match self.crawl(transactions) {
            Ok(report) => Ok(report.accounts),
            Err(error) => Err(error),
        }
    }
}

} // verus!
