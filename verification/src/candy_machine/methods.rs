//! The mints of a Candy Machine, read from transactions in the raw form.

use crate::accounts::AddressSet;
use crate::candy_machine::filters::{
    cmv1_tx_filter, cmv2_tx_filter, raw_refers_to, successful_txs_filter,
};
use crate::constants::{CMV1_PROGRAM_ID, CMV2_PROGRAM_ID};
use crate::crawler::{lemma_marks, rising, MatchPolicy};
use crate::errors::CrawlError;
use crate::filters::tx::succeeded;
use crate::solana::{pubkey_text, pubkey_to_string};
use crate::transaction::{
    CompiledInstruction, EncodedTransaction, Message, RawMessage, TransactionRecord,
};
use solana_sdk::pubkey::Pubkey;
use vstd::prelude::*;
use vstd::string::StringExecFns;

verus! {

/// The mint accounts and the metadata accounts that a Candy Machine made.
pub struct CrawledAccounts {
    pub mint_addresses: AddressSet,
    pub metadata_addresses: AddressSet,
}

impl CrawledAccounts {
    /// The invariant of the type: that of its two sets.
    pub open spec fn wf(&self) -> bool {
        self.mint_addresses.wf() && self.metadata_addresses.wf()
    }
}

/// The result of a crawl for mints with what there is to report about the batch.
pub struct MintReport {
    /// The accounts found.
    pub accounts: CrawledAccounts,
    /// Under [`MatchPolicy::Report`], the positions in the batch of the transactions with
    /// more than one mint, in rising order; empty under the other policies.
    pub ambiguous: Vec<usize>,
}

/// The version of the Candy Machine program.
#[derive(Copy, Clone, Debug, PartialEq, Eq, Structural)]
pub enum MachineVersion {
    V1,
    V2,
}

/// The place of the metadata account among the accounts of a mint.
pub const METADATA_ACCOUNT: usize = 4;

/// The place of the mint account among the accounts of a mint.
pub const MINT_ACCOUNT: usize = 5;

impl MachineVersion {
    /// The program of this version.
    pub open spec fn program(&self) -> Seq<char> {
        match self {
            MachineVersion::V1 => CMV1_PROGRAM_ID@,
            MachineVersion::V2 => CMV2_PROGRAM_ID@,
        }
    }

    /// Whether `ix` is a mint by the program of this version, where `keys` are the account
    /// keys of its message.
    ///
    /// A mint of the first version has 14 accounts, the second of which is the machine. A
    /// mint of the second version has at least 16 accounts, and any machine may have made
    /// it. An instruction that names its program or the machine by a position that the
    /// keys do not have is no mint.
    pub open spec fn is_mint(
        &self,
        keys: Seq<String>,
        ix: &CompiledInstruction,
        machine: Seq<char>,
    ) -> bool {
        match self {
            MachineVersion::V1 => resolved(keys, ix.program_id_index) == Some(CMV1_PROGRAM_ID@)
                && ix.accounts@.len() == 14 && resolved(keys, ix.accounts@[1]) == Some(machine),
            MachineVersion::V2 => resolved(keys, ix.program_id_index) == Some(CMV2_PROGRAM_ID@)
                && ix.accounts@.len() >= 16,
        }
    }

    /// The number of mints among `list`.
    pub open spec fn mints(
        &self,
        keys: Seq<String>,
        list: Seq<CompiledInstruction>,
        machine: Seq<char>,
    ) -> nat
        decreases list.len(),
    {
        if list.len() == 0 {
            0
        } else {
            self.mints(keys, list.drop_last(), machine) + if self.is_mint(
                keys,
                &list.last(),
                machine,
            ) {
                1nat
            } else {
                0nat
            }
        }
    }

    /// Whether the crawl reads `tx`: it has a raw message that refers to the program, and it
    /// succeeded.
    pub open spec fn reads(&self, tx: &TransactionRecord) -> bool {
        raw_refers_to(tx, self.program()) && succeeded(tx)
    }

    /// Whether the crawl reads `tx` and finds more than one mint in it.
    pub open spec fn is_ambiguous(&self, tx: &TransactionRecord, machine: Seq<char>) -> bool {
        self.reads(tx) && self.mints(
            raw_message(tx).account_keys@,
            raw_message(tx).instructions@,
            machine,
        ) > 1
    }

    /// Whether `t` is the place of the first transaction of the batch that
    /// [is ambiguous](Self::is_ambiguous).
    pub open spec fn first_ambiguous(
        &self,
        batch: Seq<TransactionRecord>,
        machine: Seq<char>,
        t: int,
    ) -> bool {
        &&& 0 <= t < batch.len()
        &&& self.is_ambiguous(&batch[t], machine)
        &&& forall|u: int| 0 <= u < t ==> !self.is_ambiguous(&#[trigger] batch[u], machine)
    }

    /// Whether a mint among `list` has `address` as its account at `place`, where `keys` are
    /// the account keys of the message.
    pub open spec fn finds_among(
        &self,
        keys: Seq<String>,
        list: Seq<CompiledInstruction>,
        machine: Seq<char>,
        place: int,
        address: Seq<char>,
    ) -> bool {
        exists|k: int|
            0 <= k < list.len() && self.is_mint(keys, &#[trigger] list[k], machine) && resolved(
                keys,
                list[k].accounts@[place],
            ) == Some(address)
    }

    /// Whether the crawl reads `tx` and a mint in it has `address` as its account at `place`.
    pub open spec fn finds_in(
        &self,
        tx: &TransactionRecord,
        machine: Seq<char>,
        place: int,
        address: Seq<char>,
    ) -> bool {
        &&& self.reads(tx)
        &&& self.finds_among(
            raw_message(tx).account_keys@,
            raw_message(tx).instructions@,
            machine,
            place,
            address,
        )
    }

    /// Whether the crawl finds `address` at `place` of a mint in some transaction of the
    /// batch.
    pub open spec fn finds(
        &self,
        batch: Seq<TransactionRecord>,
        machine: Seq<char>,
        place: int,
        address: Seq<char>,
    ) -> bool {
        exists|t: int|
            0 <= t < batch.len() && self.finds_in(&#[trigger] batch[t], machine, place, address)
    }

    /// Whether `accounts` is what the crawl over the batch gathers: the metadata and mint
    /// accounts of every mint in the transactions that it reads.
    pub open spec fn gathers(
        &self,
        batch: Seq<TransactionRecord>,
        machine: Seq<char>,
        accounts: &CrawledAccounts,
    ) -> bool {
        &&& accounts.wf()
        &&& forall|a: Seq<char>| #[trigger]
            accounts.metadata_addresses@.contains(a) <==> self.finds(
                batch,
                machine,
                METADATA_ACCOUNT as int,
                a,
            )
        &&& forall|a: Seq<char>| #[trigger]
            accounts.mint_addresses@.contains(a) <==> self.finds(
                batch,
                machine,
                MINT_ACCOUNT as int,
                a,
            )
    }

    /// Whether `report` is the report of the crawl over the batch under `policy`.
    pub open spec fn reports(
        &self,
        batch: Seq<TransactionRecord>,
        machine: Seq<char>,
        policy: MatchPolicy,
        report: &MintReport,
    ) -> bool {
        &&& self.gathers(batch, machine, &report.accounts)
        &&& rising(report.ambiguous@)
        &&& forall|t: usize| #[trigger]
            report.ambiguous@.contains(t) <==> policy == MatchPolicy::Report && t < batch.len()
                && self.is_ambiguous(&batch[t as int], machine)
    }

    /// Whether the crawl over the batch succeeds under `policy`: it does unless the policy
    /// is [`MatchPolicy::Reject`] and a transaction of the batch holds more than one mint.
    pub open spec fn succeeds(
        &self,
        batch: Seq<TransactionRecord>,
        machine: Seq<char>,
        policy: MatchPolicy,
    ) -> bool {
        policy == MatchPolicy::Reject ==> forall|t: int|
            0 <= t < batch.len() ==> !self.is_ambiguous(&#[trigger] batch[t], machine)
    }

    /// Whether the crawl over the batch fails under `policy`, and with `error`: the policy
    /// is [`MatchPolicy::Reject`], and the error names the first transaction with more than
    /// one mint, and the number of its mints.
    pub open spec fn rejects(
        &self,
        batch: Seq<TransactionRecord>,
        machine: Seq<char>,
        policy: MatchPolicy,
        error: CrawlError,
    ) -> bool {
        &&& policy == MatchPolicy::Reject
        &&& exists|t: int| #[trigger]
            self.first_ambiguous(batch, machine, t) && error == CrawlError::AmbiguousMatch(
                t as usize,
                self.mints(
                    raw_message(&batch[t]).account_keys@,
                    raw_message(&batch[t]).instructions@,
                    machine,
                ) as usize,
            )
    }

    /// The number of mints is at most the number of instructions.
    pub proof fn lemma_mints_bound(
        &self,
        keys: Seq<String>,
        list: Seq<CompiledInstruction>,
        machine: Seq<char>,
    )
        ensures
            self.mints(keys, list, machine) <= list.len(),
        decreases list.len(),
    {
        if list.len() > 0 {
            self.lemma_mints_bound(keys, list.drop_last(), machine);
        }
    }

    /// Whether `ix` is a mint.
    fn test(&self, keys: &Vec<String>, ix: &CompiledInstruction, machine: &String) -> (mint: bool)
        ensures
            mint == self.is_mint(keys@, ix, machine@),
    {
        let program = match resolve(keys, ix.program_id_index) {
            Some(program) => program,
            None => {
                return false;
            },
        };
        match self {
            MachineVersion::V1 => {
                if !(*program == String::from_str(CMV1_PROGRAM_ID)) || ix.accounts.len() != 14 {
                    return false;
                }
                match resolve(keys, ix.accounts[1]) {
                    Some(found) => *found == *machine,
                    None => false,
                }
            },
            MachineVersion::V2 => *program == String::from_str(CMV2_PROGRAM_ID)
                && ix.accounts.len() >= 16,
        }
    }

    /// Puts the metadata and mint accounts of every mint of a message into `accounts`. An
    /// account that a mint names by a position that the keys do not have is skipped. Returns
    /// the number of mints.
    fn collect_mints(
        &self,
        message: &RawMessage,
        machine: &String,
        accounts: &mut CrawledAccounts,
    ) -> (count: usize)
        requires
            old(accounts).wf(),
        ensures
            final(accounts).wf(),
            count == self.mints(message.account_keys@, message.instructions@, machine@),
            forall|a: Seq<char>| #[trigger]
                final(accounts).metadata_addresses@.contains(a) <==> old(
                    accounts,
                ).metadata_addresses@.contains(a) || self.finds_among(
                    message.account_keys@,
                    message.instructions@,
                    machine@,
                    METADATA_ACCOUNT as int,
                    a,
                ),
            forall|a: Seq<char>| #[trigger]
                final(accounts).mint_addresses@.contains(a) <==> old(
                    accounts,
                ).mint_addresses@.contains(a) || self.finds_among(
                    message.account_keys@,
                    message.instructions@,
                    machine@,
                    MINT_ACCOUNT as int,
                    a,
                ),
    {
        let keys = &message.account_keys;
        let list = &message.instructions;
        let mut count: usize = 0;
        let mut i: usize = 0;
        assert(list@.take(0) =~= Seq::<CompiledInstruction>::empty());
        while i < list.len()
            invariant
                i <= list.len(),
                keys == &message.account_keys,
                list == &message.instructions,
                accounts.wf(),
                count == self.mints(keys@, list@.take(i as int), machine@),
                forall|a: Seq<char>| #[trigger]
                    accounts.metadata_addresses@.contains(a) <==> old(
                        accounts,
                    ).metadata_addresses@.contains(a) || self.finds_among(
                        keys@,
                        list@.take(i as int),
                        machine@,
                        METADATA_ACCOUNT as int,
                        a,
                    ),
                forall|a: Seq<char>| #[trigger]
                    accounts.mint_addresses@.contains(a) <==> old(
                        accounts,
                    ).mint_addresses@.contains(a) || self.finds_among(
                        keys@,
                        list@.take(i as int),
                        machine@,
                        MINT_ACCOUNT as int,
                        a,
                    ),
            decreases list.len() - i,
        {
            let ix = &list[i];
            proof {
                assert(list@.take(i + 1).drop_last() =~= list@.take(i as int));
                assert(list@.take(i + 1).last() == list@[i as int]);
                self.lemma_mints_bound(keys@, list@.take(i as int), machine@);
                self.lemma_finds_among_next(keys@, list@, machine@, METADATA_ACCOUNT as int, i as int);
                self.lemma_finds_among_next(keys@, list@, machine@, MINT_ACCOUNT as int, i as int);
            }
            if self.test(keys, ix, machine) {
                match resolve(keys, ix.accounts[METADATA_ACCOUNT]) {
                    Some(address) => {
                        accounts.metadata_addresses.insert(address.as_str());
                    },
                    None => {},
                }
                match resolve(keys, ix.accounts[MINT_ACCOUNT]) {
                    Some(address) => {
                        accounts.mint_addresses.insert(address.as_str());
                    },
                    None => {},
                }
                count = count + 1;
            }
            i = i + 1;
        }
        assert(list@.take(i as int) == list@);
        count
    }

    /// Processes one transaction: where the crawl reads it, puts the accounts of its mints
    /// into `accounts`. Returns the number of mints that the crawl read.
    fn collect(
        &self,
        tx: &TransactionRecord,
        machine: &String,
        accounts: &mut CrawledAccounts,
    ) -> (count: usize)
        requires
            old(accounts).wf(),
        ensures
            final(accounts).wf(),
            count > 1 <==> self.is_ambiguous(tx, machine@),
            self.reads(tx) ==> count == self.mints(
                raw_message(tx).account_keys@,
                raw_message(tx).instructions@,
                machine@,
            ),
            forall|a: Seq<char>| #[trigger]
                final(accounts).metadata_addresses@.contains(a) <==> old(
                    accounts,
                ).metadata_addresses@.contains(a) || self.finds_in(
                    tx,
                    machine@,
                    METADATA_ACCOUNT as int,
                    a,
                ),
            forall|a: Seq<char>| #[trigger]
                final(accounts).mint_addresses@.contains(a) <==> old(
                    accounts,
                ).mint_addresses@.contains(a) || self.finds_in(
                    tx,
                    machine@,
                    MINT_ACCOUNT as int,
                    a,
                ),
    {
        let read = match self {
            MachineVersion::V1 => cmv1_tx_filter(tx),
            MachineVersion::V2 => cmv2_tx_filter(tx),
        };
        if !read || !successful_txs_filter(tx) {
            return 0;
        }
        match &tx.transaction {
            EncodedTransaction::Json(message) => match message {
                Message::Raw(message) => {
                    assert(*message == raw_message(tx));
                    self.collect_mints(message, machine, accounts)
                },
                Message::Parsed(_) => 0,
            },
            EncodedTransaction::Binary => 0,
        }
    }

    /// Crawls the batch for the mints of `machine`.
    fn crawl(
        &self,
        transactions: &Vec<TransactionRecord>,
        machine: &String,
        policy: MatchPolicy,
    ) -> (result: Result<MintReport, CrawlError>)
        ensures
            match result {
                Ok(report) => self.succeeds(transactions@, machine@, policy) && self.reports(
                    transactions@,
                    machine@,
                    policy,
                    &report,
                ),
                Err(error) => self.rejects(transactions@, machine@, policy, error),
            },
    {
        let ghost batch = transactions@;
        let mut accounts = CrawledAccounts {
            mint_addresses: AddressSet::new(),
            metadata_addresses: AddressSet::new(),
        };
        let mut ambiguous: Vec<usize> = Vec::new();
        let mut t: usize = 0;
        while t < transactions.len()
            invariant
                t <= transactions.len(),
                batch == transactions@,
                accounts.wf(),
                policy == MatchPolicy::Reject ==> forall|u: int|
                    0 <= u < t ==> !self.is_ambiguous(&#[trigger] batch[u], machine@),
                rising(ambiguous@),
                forall|u: usize| #[trigger]
                    ambiguous@.contains(u) <==> policy == MatchPolicy::Report && u < t
                        && self.is_ambiguous(&batch[u as int], machine@),
                forall|a: Seq<char>| #[trigger]
                    accounts.metadata_addresses@.contains(a) <==> self.finds(
                        batch.take(t as int),
                        machine@,
                        METADATA_ACCOUNT as int,
                        a,
                    ),
                forall|a: Seq<char>| #[trigger]
                    accounts.mint_addresses@.contains(a) <==> self.finds(
                        batch.take(t as int),
                        machine@,
                        MINT_ACCOUNT as int,
                        a,
                    ),
            decreases transactions.len() - t,
        {
            let tx = &transactions[t];
            let ghost seen = ambiguous@;
            let count = self.collect(tx, machine, &mut accounts);
            if count > 1 {
                match policy {
                    MatchPolicy::Reject => {
                        assert(self.first_ambiguous(batch, machine@, t as int));
                        return Err(CrawlError::AmbiguousMatch(t, count));
                    },
                    MatchPolicy::Report => {
                        ambiguous.push(t);
                    },
                    MatchPolicy::Allow => {},
                }
            }
            proof {
                self.lemma_finds_next(batch, machine@, METADATA_ACCOUNT as int, t as int);
                self.lemma_finds_next(batch, machine@, MINT_ACCOUNT as int, t as int);
                lemma_marks(
                    seen,
                    ambiguous@,
                    t,
                    policy == MatchPolicy::Report && self.is_ambiguous(tx, machine@),
                );
            }
            t = t + 1;
        }
        assert(batch.take(t as int) == batch);
        Ok(MintReport { accounts, ambiguous })
    }

    /// What is found among the first `i + 1` instructions is what is found among the first
    /// `i` and in the next one.
    proof fn lemma_finds_among_next(
        &self,
        keys: Seq<String>,
        list: Seq<CompiledInstruction>,
        machine: Seq<char>,
        place: int,
        i: int,
    )
        requires
            0 <= i < list.len(),
        ensures
            forall|a: Seq<char>|
                self.finds_among(keys, list.take(i + 1), machine, place, a) <==> self.finds_among(
                    keys,
                    list.take(i),
                    machine,
                    place,
                    a,
                ) || (self.is_mint(keys, &list[i], machine) && resolved(
                    keys,
                    list[i].accounts@[place],
                ) == Some(a)),
    {
        let done = list.take(i);
        let next = list.take(i + 1);
        assert forall|a: Seq<char>|
            self.finds_among(keys, next, machine, place, a) <==> self.finds_among(
                keys,
                done,
                machine,
                place,
                a,
            ) || (self.is_mint(keys, &list[i], machine) && resolved(
                keys,
                list[i].accounts@[place],
            ) == Some(a)) by {
            if self.finds_among(keys, next, machine, place, a) {
                let w = choose|w: int|
                    0 <= w < next.len() && self.is_mint(keys, &#[trigger] next[w], machine)
                        && resolved(keys, next[w].accounts@[place]) == Some(a);
                if w < i {
                    assert(done[w] == next[w]);
                }
            }
            if self.finds_among(keys, done, machine, place, a) {
                let w = choose|w: int|
                    0 <= w < done.len() && self.is_mint(keys, &#[trigger] done[w], machine)
                        && resolved(keys, done[w].accounts@[place]) == Some(a);
                assert(next[w] == done[w]);
            }
            if self.is_mint(keys, &list[i], machine) && resolved(keys, list[i].accounts@[place])
                == Some(a) {
                assert(next[i] == list[i]);
            }
        }
    }

    /// What the crawl finds in the first `t + 1` transactions is what it finds in the first
    /// `t` and in the next one.
    proof fn lemma_finds_next(
        &self,
        batch: Seq<TransactionRecord>,
        machine: Seq<char>,
        place: int,
        t: int,
    )
        requires
            0 <= t < batch.len(),
        ensures
            forall|a: Seq<char>|
                self.finds(batch.take(t + 1), machine, place, a) <==> self.finds(
                    batch.take(t),
                    machine,
                    place,
                    a,
                ) || self.finds_in(&batch[t], machine, place, a),
    {
        let done = batch.take(t);
        let next = batch.take(t + 1);
        assert forall|a: Seq<char>|
            self.finds(next, machine, place, a) <==> self.finds(done, machine, place, a)
                || self.finds_in(&batch[t], machine, place, a) by {
            if self.finds_in(&batch[t], machine, place, a) {
                assert(next[t] == batch[t]);
            }
        }
    }
}

/// The raw message of `tx`, where it has one.
pub open spec fn raw_message(tx: &TransactionRecord) -> RawMessage {
    tx.transaction->Json_0->Raw_0
}

/// The address at a position among the account keys of a message; none where the keys are
/// fewer.
pub open spec fn resolved(keys: Seq<String>, position: u8) -> Option<Seq<char>> {
    if position < keys.len() {
        Some(keys[position as int]@)
    } else {
        None
    }
}

/// The address at a position among the account keys of a message.
fn resolve(keys: &Vec<String>, position: u8) -> (address: Option<&String>)
    ensures
        match address {
            Some(address) => resolved(keys@, position) == Some(address@),
            None => resolved(keys@, position) is None,
        },
{
    let place: usize = position.into();
    if place < keys.len() {
        Some(&keys[place])
    } else {
        None
    }
}

/// The mint and metadata accounts of the mints that the first Candy Machine program made
/// for the machine `candy_machine_id`, out of a batch of transactions in the raw form.
///
/// A transaction that does not refer to the program, failed or has no raw message is not
/// read. Every mint of a transaction is processed; a transaction with more than one is
/// treated as `policy` says.
pub fn get_cmv1_mints(
    transactions: &Vec<TransactionRecord>,
    candy_machine_id: &Pubkey,
    policy: MatchPolicy,
) -> (result: Result<MintReport, CrawlError>)
    ensures
        match result {
            Ok(report) => MachineVersion::V1.succeeds(
                transactions@,
                pubkey_text(*candy_machine_id),
                policy,
            ) && MachineVersion::V1.reports(
                transactions@,
                pubkey_text(*candy_machine_id),
                policy,
                &report,
            ),
            Err(error) => MachineVersion::V1.rejects(
                transactions@,
                pubkey_text(*candy_machine_id),
                policy,
                error,
            ),
        },
{
    let machine = pubkey_to_string(candy_machine_id);
    MachineVersion::V1.crawl(transactions, &machine, policy)
}

/// The mint and metadata accounts of the mints that the second Candy Machine program made,
/// out of a batch of transactions in the raw form. Every mint by the program counts,
/// whichever machine made it.
///
/// A transaction that does not refer to the program, failed or has no raw message is not
/// read. Every mint of a transaction is processed; a transaction with more than one is
/// treated as `policy` says.
pub fn get_cmv2_mints(
    transactions: &Vec<TransactionRecord>,
    candy_machine_id: &Pubkey,
    policy: MatchPolicy,
) -> (result: Result<MintReport, CrawlError>)
    ensures
        match result {
            Ok(report) => MachineVersion::V2.succeeds(
                transactions@,
                pubkey_text(*candy_machine_id),
                policy,
            ) && MachineVersion::V2.reports(
                transactions@,
                pubkey_text(*candy_machine_id),
                policy,
                &report,
            ),
            Err(error) => MachineVersion::V2.rejects(
                transactions@,
                pubkey_text(*candy_machine_id),
                policy,
                error,
            ),
        },
{
    let machine = pubkey_to_string(candy_machine_id);
    MachineVersion::V2.crawl(transactions, &machine, policy)
}

} // verus!
