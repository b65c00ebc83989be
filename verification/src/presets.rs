//! Crawlers for common patterns: the mints of a Candy Machine, and the mints that an update
//! authority made.

use crate::constants::{
    CMV1_PROGRAM_ID, CMV2_PROGRAM_ID, CREATE_MASTER_EDITION_DATA, CREATE_MASTER_EDITION_V3_DATA,
    DEFAULT_CONCURRENCY_LIMIT, TOKEN_METADATA_PROGAM_ID,
};
use crate::crawler::{Crawler, IxAccount, MatchPolicy};
use crate::filters::ix::{
    IxDataFilter, IxHasAccountAtIndexFilter, IxNumberAccounts, IxProgramIdFilter,
};
use crate::filters::tx::{
    bot_taxed, refers_to, succeeded, CmV2BotTaxTxFilter, SuccessfulTxFilter, TxHasProgramId,
};
use crate::filters::{AnyIxFilter, AnyTxFilter, IxFilter, TxFilter};
use crate::solana::{pubkey_text, pubkey_to_string};
use crate::transaction::{Instruction, TransactionRecord};
use solana_sdk::pubkey::Pubkey;
use vstd::prelude::*;

verus! {

/// The transactions that every preset reads: those that refer to `program`, succeeded and
/// were not taxed as a bot.
pub open spec fn preset_transaction(tx: &TransactionRecord, program: Seq<char>) -> bool {
    refers_to(tx, program) && succeeded(tx) && !bot_taxed(tx)
}

/// What qualifies as a mint by the second Candy Machine program: a positional instruction
/// of that program with at least 16 accounts, the first or the second of which is `machine`.
/// The filters on the account list let a structured instruction pass, so one of that program
/// qualifies too; the rules, which read by position, take nothing from it.
pub open spec fn cmv2_mint(ix: &Instruction, machine: Seq<char>) -> bool {
    match ix {
        Instruction::Positional(ix) => ix.program_id@ == CMV2_PROGRAM_ID@ && ix.accounts@.len()
            >= 16 && (ix.accounts@[0]@ == machine || ix.accounts@[1]@ == machine),
        Instruction::Structured(ix) => ix.program_id@ == CMV2_PROGRAM_ID@,
    }
}

/// What qualifies as a mint by the first Candy Machine program: a positional instruction of
/// that program with exactly 14 accounts, the second of which is `machine`. The filters on
/// the account list let a structured instruction pass, so one of that program qualifies too;
/// the rules, which read by position, take nothing from it.
pub open spec fn cmv1_mint(ix: &Instruction, machine: Seq<char>) -> bool {
    match ix {
        Instruction::Positional(ix) => ix.program_id@ == CMV1_PROGRAM_ID@ && ix.accounts@.len()
            == 14 && ix.accounts@[1]@ == machine,
        Instruction::Structured(ix) => ix.program_id@ == CMV1_PROGRAM_ID@,
    }
}

/// The creation of a master edition without prints: a positional instruction of the token
/// metadata program with one of the two payloads of that call, whose fourth account is
/// `authority`. A structured instruction has no payload, so none qualifies.
pub open spec fn master_edition_creation(ix: &Instruction, authority: Seq<char>) -> bool {
    match ix {
        Instruction::Positional(ix) => ix.program_id@ == TOKEN_METADATA_PROGAM_ID@
            && ix.accounts@.len() > 3 && ix.accounts@[3]@ == authority && (ix.data@
            == CREATE_MASTER_EDITION_DATA@ || ix.data@ == CREATE_MASTER_EDITION_V3_DATA@),
        Instruction::Structured(_) => false,
    }
}

/// Whether `rules` are the two rules of a Candy Machine mint: the fifth account under
/// `metadata`, the sixth under `mint`.
pub open spec fn mint_rules(rules: Seq<IxAccount>) -> bool {
    &&& rules.len() == 2
    &&& rules[0].name@ == "metadata"@
    &&& rules[0].index == Some(4usize)
    &&& rules[1].name@ == "mint"@
    &&& rules[1].index == Some(5usize)
}

impl Crawler<AnyTxFilter, AnyIxFilter> {
    /// Whether the crawler has no setting of its own: the default concurrency limit and the
    /// policy [`MatchPolicy::Report`].
    pub open spec fn default_settings(&self) -> bool {
        self.concurrency_limit == DEFAULT_CONCURRENCY_LIMIT && self.match_policy
            == MatchPolicy::Report
    }

    /// A crawler for the mint and metadata accounts of a Candy Machine of the second
    /// version, given the address of the machine or of its creator. It reads the mints that
    /// the Candy Machine program itself made.
    pub fn create_cmv2_mints(candy_machine_pubkey: Pubkey) -> (crawler: Self)
        ensures
            crawler.address == candy_machine_pubkey,
            crawler.default_settings(),
            forall|tx: &TransactionRecord| #[trigger]
                crawler.tx_passes(tx) <==> preset_transaction(tx, CMV2_PROGRAM_ID@),
            forall|ix: &Instruction| #[trigger]
                crawler.ix_qualifies(ix) <==> cmv2_mint(ix, pubkey_text(candy_machine_pubkey)),
            mint_rules(crawler.account_indices@),
    {
        let machine = pubkey_to_string(&candy_machine_pubkey);
        let mut crawler = Crawler::new(candy_machine_pubkey);
        crawler.add_tx_filter(AnyTxFilter::HasProgramId(TxHasProgramId::new(CMV2_PROGRAM_ID)));
        crawler.add_tx_filter(AnyTxFilter::Successful(SuccessfulTxFilter));
        crawler.add_tx_filter(AnyTxFilter::BotTax(CmV2BotTaxTxFilter));
        crawler.add_ix_filter(AnyIxFilter::ProgramId(IxProgramIdFilter::new(CMV2_PROGRAM_ID)));
        crawler.add_ix_filter(
            AnyIxFilter::NumberAccounts(IxNumberAccounts::GreaterThanOrEqual(16)),
        );
        let mut alternatives: Vec<AnyIxFilter> = Vec::new();
        alternatives.push(
            AnyIxFilter::HasAccountAtIndex(IxHasAccountAtIndexFilter::new(machine.as_str(), 0)),
        );
        alternatives.push(
            AnyIxFilter::HasAccountAtIndex(IxHasAccountAtIndexFilter::new(machine.as_str(), 1)),
        );
        crawler.add_ix_or_filters(alternatives);
        crawler.add_account_index(IxAccount::unparsed("metadata", 4));
        crawler.add_account_index(IxAccount::unparsed("mint", 5));
        proof {
            let filters = crawler.tx_filters@;
            assert forall|tx: &TransactionRecord| #[trigger]
                crawler.tx_passes(tx) <==> preset_transaction(tx, CMV2_PROGRAM_ID@) by {
                assert(filters[0].accepts(tx) == refers_to(tx, CMV2_PROGRAM_ID@));
                assert(filters[1].accepts(tx) == succeeded(tx));
                assert(filters[2].accepts(tx) == !bot_taxed(tx));
            }
            let required = crawler.ix_filters@;
            let either = crawler.ix_or_filters@;
            assert forall|ix: &Instruction| #[trigger]
                crawler.ix_qualifies(ix) <==> cmv2_mint(ix, pubkey_text(candy_machine_pubkey)) by {
                let _ = required[0].accepts(ix);
                let _ = required[1].accepts(ix);
                let _ = either[0].accepts(ix);
                let _ = either[1].accepts(ix);
            }
        }
        crawler
    }

    /// A crawler for the mint and metadata accounts of a Candy Machine of the first
    /// version, given the address of the machine.
    pub fn create_cmv1_mints(candy_machine_pubkey: Pubkey) -> (crawler: Self)
        ensures
            crawler.address == candy_machine_pubkey,
            crawler.default_settings(),
            forall|tx: &TransactionRecord| #[trigger]
                crawler.tx_passes(tx) <==> preset_transaction(tx, CMV1_PROGRAM_ID@),
            forall|ix: &Instruction| #[trigger]
                crawler.ix_qualifies(ix) <==> cmv1_mint(ix, pubkey_text(candy_machine_pubkey)),
            mint_rules(crawler.account_indices@),
    {
        let machine = pubkey_to_string(&candy_machine_pubkey);
        let mut crawler = Crawler::new(candy_machine_pubkey);
        crawler.add_tx_filter(AnyTxFilter::HasProgramId(TxHasProgramId::new(CMV1_PROGRAM_ID)));
        crawler.add_tx_filter(AnyTxFilter::Successful(SuccessfulTxFilter));
        crawler.add_tx_filter(AnyTxFilter::BotTax(CmV2BotTaxTxFilter));
        crawler.add_ix_filter(AnyIxFilter::ProgramId(IxProgramIdFilter::new(CMV1_PROGRAM_ID)));
        crawler.add_ix_filter(AnyIxFilter::NumberAccounts(IxNumberAccounts::EqualTo(14)));
        crawler.add_ix_filter(
            AnyIxFilter::HasAccountAtIndex(IxHasAccountAtIndexFilter::new(machine.as_str(), 1)),
        );
        crawler.add_account_index(IxAccount::unparsed("metadata", 4));
        crawler.add_account_index(IxAccount::unparsed("mint", 5));
        proof {
            let filters = crawler.tx_filters@;
            assert forall|tx: &TransactionRecord| #[trigger]
                crawler.tx_passes(tx) <==> preset_transaction(tx, CMV1_PROGRAM_ID@) by {
                assert(filters[0].accepts(tx) == refers_to(tx, CMV1_PROGRAM_ID@));
                assert(filters[1].accepts(tx) == succeeded(tx));
                assert(filters[2].accepts(tx) == !bot_taxed(tx));
            }
            let required = crawler.ix_filters@;
            assert forall|ix: &Instruction| #[trigger]
                crawler.ix_qualifies(ix) <==> cmv1_mint(ix, pubkey_text(candy_machine_pubkey)) by {
                let _ = required[0].accepts(ix);
                let _ = required[1].accepts(ix);
                let _ = required[2].accepts(ix);
            }
        }
        crawler
    }

    /// A crawler for the mint accounts that an update authority made: it reads the calls of
    /// the token metadata program that create a master edition without prints. It is more
    /// general than the Candy Machine presets, since it also finds what no Candy Machine
    /// minted.
    pub fn create_mints_by_update_authority(authority: Pubkey) -> (crawler: Self)
        ensures
            crawler.address == authority,
            crawler.default_settings(),
            forall|tx: &TransactionRecord| #[trigger]
                crawler.tx_passes(tx) <==> preset_transaction(tx, TOKEN_METADATA_PROGAM_ID@),
            forall|ix: &Instruction| #[trigger]
                crawler.ix_qualifies(ix) <==> master_edition_creation(
                    ix,
                    pubkey_text(authority),
                ),
            crawler.account_indices@.len() == 1,
            crawler.account_indices@[0].name@ == "mint"@,
            crawler.account_indices@[0].index == Some(1usize),
    {
        let owner = pubkey_to_string(&authority);
        let mut crawler = Crawler::new(authority);
        crawler.add_tx_filter(
            AnyTxFilter::HasProgramId(TxHasProgramId::new(TOKEN_METADATA_PROGAM_ID)),
        );
        crawler.add_tx_filter(AnyTxFilter::Successful(SuccessfulTxFilter));
        crawler.add_tx_filter(AnyTxFilter::BotTax(CmV2BotTaxTxFilter));
        crawler.add_ix_filter(
            AnyIxFilter::ProgramId(IxProgramIdFilter::new(TOKEN_METADATA_PROGAM_ID)),
        );
        crawler.add_ix_filter(
            AnyIxFilter::HasAccountAtIndex(IxHasAccountAtIndexFilter::new(owner.as_str(), 3)),
        );
        let mut alternatives: Vec<AnyIxFilter> = Vec::new();
        alternatives.push(AnyIxFilter::Data(IxDataFilter::new(CREATE_MASTER_EDITION_DATA)));
        alternatives.push(AnyIxFilter::Data(IxDataFilter::new(CREATE_MASTER_EDITION_V3_DATA)));
        crawler.add_ix_or_filters(alternatives);
        crawler.add_account_index(IxAccount::unparsed("mint", 1));
        proof {
            let filters = crawler.tx_filters@;
            assert forall|tx: &TransactionRecord| #[trigger]
                crawler.tx_passes(tx) <==> preset_transaction(tx, TOKEN_METADATA_PROGAM_ID@) by {
                assert(filters[0].accepts(tx) == refers_to(tx, TOKEN_METADATA_PROGAM_ID@));
                assert(filters[1].accepts(tx) == succeeded(tx));
                assert(filters[2].accepts(tx) == !bot_taxed(tx));
            }
            let required = crawler.ix_filters@;
            let either = crawler.ix_or_filters@;
            assert forall|ix: &Instruction| #[trigger]
                crawler.ix_qualifies(ix) <==> master_edition_creation(
                    ix,
                    pubkey_text(authority),
                ) by {
                let _ = required[0].accepts(ix);
                let _ = required[1].accepts(ix);
                let _ = either[0].accepts(ix);
                let _ = either[1].accepts(ix);
            }
        }
        crawler
    }
}

} // verus!
