//! Filters over instructions.

use crate::filters::IxFilter;
use crate::json::{json_member, json_text, value_member, value_text};
use crate::text::{contains_text, lists_text};
use crate::transaction::Instruction;
use vstd::prelude::*;
use vstd::string::StringExecFns;

verus! {

/// Compares the number of accounts of a positional instruction with a bound. A structured
/// instruction has no account list and passes.
pub enum IxNumberAccounts {
    LessThan(usize),
    LessThanOrEqual(usize),
    EqualTo(usize),
    GreaterThan(usize),
    GreaterThanOrEqual(usize),
}

impl IxNumberAccounts {
    /// Whether a list of `count` accounts meets the bound.
    pub open spec fn admits(&self, count: nat) -> bool {
        match self {
            IxNumberAccounts::LessThan(n) => count < *n,
            IxNumberAccounts::LessThanOrEqual(n) => count <= *n,
            IxNumberAccounts::EqualTo(n) => count == *n,
            IxNumberAccounts::GreaterThan(n) => count > *n,
            IxNumberAccounts::GreaterThanOrEqual(n) => count >= *n,
        }
    }
}

impl IxFilter for IxNumberAccounts {
    open spec fn accepts(&self, ix: &Instruction) -> bool {
        match ix {
            Instruction::Positional(ix) => self.admits(ix.accounts@.len()),
            Instruction::Structured(_) => true,
        }
    }

    fn filter(&self, ix: &Instruction) -> (accepted: bool) {
        match ix {
            Instruction::Positional(ix) => match self {
                IxNumberAccounts::LessThan(n) => ix.accounts.len() < *n,
                IxNumberAccounts::LessThanOrEqual(n) => ix.accounts.len() <= *n,
                IxNumberAccounts::EqualTo(n) => ix.accounts.len() == *n,
                IxNumberAccounts::GreaterThan(n) => ix.accounts.len() > *n,
                IxNumberAccounts::GreaterThanOrEqual(n) => ix.accounts.len() >= *n,
            },
            Instruction::Structured(_) => true,
        }
    }
}

/// Lets every instruction pass that calls a given program, whatever its shape.
pub struct IxProgramIdFilter {
    pub program_id: String,
}

impl IxProgramIdFilter {
    pub fn new(program_id: &str) -> (filter: Self)
        ensures
            filter.program_id@ == program_id@,
    {
        IxProgramIdFilter { program_id: String::from_str(program_id) }
    }
}

impl IxFilter for IxProgramIdFilter {
    open spec fn accepts(&self, ix: &Instruction) -> bool {
        match ix {
            Instruction::Structured(ix) => ix.program_id@ == self.program_id@,
            Instruction::Positional(ix) => ix.program_id@ == self.program_id@,
        }
    }

    fn filter(&self, ix: &Instruction) -> (accepted: bool) {
        match ix {
            Instruction::Structured(ix) => ix.program_id == self.program_id,
            Instruction::Positional(ix) => ix.program_id == self.program_id,
        }
    }
}

/// Selects the positional instructions with a given payload, in base 58. A structured
/// instruction has no payload and does not pass.
pub struct IxDataFilter {
    pub data: String,
}

impl IxDataFilter {
    pub fn new(data: &str) -> (filter: Self)
        ensures
            filter.data@ == data@,
    {
        IxDataFilter { data: String::from_str(data) }
    }
}

impl IxFilter for IxDataFilter {
    open spec fn accepts(&self, ix: &Instruction) -> bool {
        match ix {
            Instruction::Positional(ix) => ix.data@ == self.data@,
            Instruction::Structured(_) => false,
        }
    }

    fn filter(&self, ix: &Instruction) -> (accepted: bool) {
        match ix {
            Instruction::Positional(ix) => ix.data == self.data,
            Instruction::Structured(_) => false,
        }
    }
}

/// Selects the structured instructions whose field `type` is the text `mintTo`: the call of
/// the token program that mints. A positional instruction does not pass.
pub struct IxMintToFilter;

impl IxFilter for IxMintToFilter {
    open spec fn accepts(&self, ix: &Instruction) -> bool {
        match ix {
            Instruction::Structured(ix) => match json_member(ix.parsed, "type"@) {
                Some(kind) => json_text(kind) == Some("mintTo"@),
                None => false,
            },
            Instruction::Positional(_) => false,
        }
    }

    fn filter(&self, ix: &Instruction) -> (accepted: bool) {
        match ix {
            Instruction::Structured(ix) => match value_member(&ix.parsed, "type") {
                Some(kind) => match value_text(kind) {
                    Some(text) => String::from_str(text) == String::from_str("mintTo"),
                    None => false,
                },
                None => false,
            },
            Instruction::Positional(_) => false,
        }
    }
}

/// Lets every positional instruction pass that refers to a given account, at any position.
/// A structured instruction has no account list and passes.
pub struct IxHasAccountFilter {
    pub account: String,
}

impl IxHasAccountFilter {
    pub fn new(account: &str) -> (filter: Self)
        ensures
            filter.account@ == account@,
    {
        IxHasAccountFilter { account: String::from_str(account) }
    }
}

impl IxFilter for IxHasAccountFilter {
    open spec fn accepts(&self, ix: &Instruction) -> bool {
        match ix {
            Instruction::Structured(_) => true,
            Instruction::Positional(ix) => lists_text(ix.accounts@, self.account@),
        }
    }

    fn filter(&self, ix: &Instruction) -> (accepted: bool) {
        match ix {
            Instruction::Structured(_) => true,
            Instruction::Positional(ix) => contains_text(&ix.accounts, &self.account),
        }
    }
}

/// Lets every positional instruction pass that refers to a given account at a given
/// position; one with too few accounts does not pass. A structured instruction has no
/// account list and passes.
pub struct IxHasAccountAtIndexFilter {
    pub account: String,
    pub index: usize,
}

impl IxHasAccountAtIndexFilter {
    pub fn new(account: &str, index: usize) -> (filter: Self)
        ensures
            filter.account@ == account@,
            filter.index == index,
    {
        IxHasAccountAtIndexFilter { account: String::from_str(account), index }
    }
}

impl IxFilter for IxHasAccountAtIndexFilter {
    open spec fn accepts(&self, ix: &Instruction) -> bool {
        match ix {
            Instruction::Structured(_) => true,
            Instruction::Positional(ix) => self.index < ix.accounts@.len()
                && ix.accounts@[self.index as int]@ == self.account@,
        }
    }

    fn filter(&self, ix: &Instruction) -> (accepted: bool) {
        match ix {
            Instruction::Structured(_) => true,
            Instruction::Positional(ix) => self.index < ix.accounts.len()
                && ix.accounts[self.index] == self.account,
        }
    }
}

} // verus!
