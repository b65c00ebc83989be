use account_crawler::constants::{CMV2_BOT_TAX_MSG, CMV2_PROGRAM_ID};
use account_crawler::{
    AccountKey, AnyIxFilter, AnyTxFilter, CmV2BotTaxTxFilter, Cmv2TxFilter, CompiledInstruction,
    EncodedTransaction, Instruction, IxDataFilter, IxFilter, IxHasAccountAtIndexFilter,
    IxHasAccountFilter, IxMintToFilter, IxNumberAccounts, IxProgramIdFilter, Message,
    ParsedMessage, PositionalInstruction, RawMessage, StructuredInstruction, SuccessfulTxFilter,
    TransactionMeta, TransactionRecord, TxFilter, TxHasProgramId, TxHasSigner,
};

fn positional(program_id: &str, accounts: &[&str], data: &str) -> Instruction {
    Instruction::Positional(PositionalInstruction {
        program_id: program_id.to_string(),
        accounts: accounts.iter().map(|a| a.to_string()).collect(),
        data: data.to_string(),
    })
}

fn structured(program_id: &str, parsed: &str) -> Instruction {
    Instruction::Structured(StructuredInstruction {
        program: "spl-token".to_string(),
        program_id: program_id.to_string(),
        parsed: serde_json::from_str(parsed).unwrap(),
    })
}

fn meta(err: Option<&str>, logs: Option<Vec<&str>>) -> Option<TransactionMeta> {
    Some(TransactionMeta {
        err: err.map(|e| e.to_string()),
        log_messages: logs.map(|lines| lines.iter().map(|l| l.to_string()).collect()),
        inner_instructions: None,
    })
}

fn parsed_tx(keys: &[(&str, bool)], meta: Option<TransactionMeta>) -> TransactionRecord {
    TransactionRecord {
        transaction: EncodedTransaction::Json(Message::Parsed(ParsedMessage {
            account_keys: keys
                .iter()
                .map(|(pubkey, signer)| AccountKey {
                    pubkey: pubkey.to_string(),
                    writable: false,
                    signer: *signer,
                })
                .collect(),
            instructions: Vec::new(),
        })),
        meta,
    }
}

fn raw_tx(keys: &[&str], meta: Option<TransactionMeta>) -> TransactionRecord {
    TransactionRecord {
        transaction: EncodedTransaction::Json(Message::Raw(RawMessage {
            account_keys: keys.iter().map(|k| k.to_string()).collect(),
            instructions: vec![CompiledInstruction {
                program_id_index: 0,
                accounts: vec![0],
                data: String::new(),
            }],
        })),
        meta,
    }
}

fn binary_tx(meta: Option<TransactionMeta>) -> TransactionRecord {
    TransactionRecord { transaction: EncodedTransaction::Binary, meta }
}

#[test]
fn successful_filter_passes_a_transaction_without_error() {
    assert!(SuccessfulTxFilter.filter(&parsed_tx(&[], meta(None, None))));
}

#[test]
fn successful_filter_rejects_a_failed_transaction() {
    assert!(!SuccessfulTxFilter.filter(&parsed_tx(&[], meta(Some("InstructionError"), None))));
}

#[test]
fn successful_filter_rejects_a_transaction_without_meta() {
    assert!(!SuccessfulTxFilter.filter(&parsed_tx(&[], None)));
    assert!(!SuccessfulTxFilter.filter(&binary_tx(None)));
}

#[test]
fn bot_tax_filter_rejects_a_taxed_transaction() {
    let line = format!("Program log: CandyMachineEmpty, {} 10000000 lamports", CMV2_BOT_TAX_MSG);
    let tx = parsed_tx(&[], meta(None, Some(vec!["Program log: start", line.as_str()])));
    assert!(!CmV2BotTaxTxFilter.filter(&tx));
}

#[test]
fn bot_tax_filter_passes_other_logs() {
    let tx = parsed_tx(&[], meta(None, Some(vec!["Program log: start", "Candy Machine Botting"])));
    assert!(CmV2BotTaxTxFilter.filter(&tx));
    assert!(CmV2BotTaxTxFilter.filter(&parsed_tx(&[], meta(None, Some(vec![])))));
}

#[test]
fn bot_tax_filter_passes_a_transaction_without_logs_or_meta() {
    assert!(CmV2BotTaxTxFilter.filter(&parsed_tx(&[], meta(None, None))));
    assert!(CmV2BotTaxTxFilter.filter(&parsed_tx(&[], None)));
}

#[test]
fn bot_tax_message_is_the_logged_text() {
    assert_eq!(CMV2_BOT_TAX_MSG, "Candy Machine Botting is taxed at");
}

#[test]
fn cmv2_filter_reads_parsed_and_raw_messages() {
    assert!(Cmv2TxFilter.filter(&parsed_tx(&[("payer", true), (CMV2_PROGRAM_ID, false)], None)));
    assert!(Cmv2TxFilter.filter(&raw_tx(&["payer", CMV2_PROGRAM_ID], None)));
    assert!(!Cmv2TxFilter.filter(&parsed_tx(&[("payer", true)], None)));
    assert!(!Cmv2TxFilter.filter(&raw_tx(&["payer"], None)));
}

#[test]
fn program_filters_reject_a_binary_transaction() {
    assert!(!Cmv2TxFilter.filter(&binary_tx(None)));
    assert!(!TxHasProgramId::new("program").filter(&binary_tx(None)));
    assert!(!TxHasSigner::new("payer").filter(&binary_tx(None)));
}

#[test]
fn has_program_id_looks_for_the_given_program() {
    let filter = TxHasProgramId::new("program");
    assert_eq!(filter.program_id, "program");
    assert!(filter.filter(&parsed_tx(&[("payer", true), ("program", false)], None)));
    assert!(filter.filter(&raw_tx(&["program"], None)));
    assert!(!filter.filter(&parsed_tx(&[("payer", true), ("programs", false)], None)));
    assert!(!filter.filter(&raw_tx(&[], None)));
}

#[test]
fn has_signer_wants_the_address_to_sign() {
    let filter = TxHasSigner::new("payer");
    assert_eq!(filter.address, "payer");
    assert!(filter.filter(&parsed_tx(&[("other", true), ("payer", true)], None)));
    assert!(!filter.filter(&parsed_tx(&[("other", true), ("payer", false)], None)));
    assert!(!filter.filter(&parsed_tx(&[("other", true)], None)));
}

#[test]
fn has_signer_rejects_a_raw_message() {
    assert!(!TxHasSigner::new("payer").filter(&raw_tx(&["payer"], None)));
}

#[test]
fn any_tx_filter_behaves_as_the_filter_it_holds() {
    let ok = parsed_tx(&[("program", false)], meta(None, None));
    let failed = parsed_tx(&[("program", false)], meta(Some("err"), None));
    assert!(AnyTxFilter::Successful(SuccessfulTxFilter).filter(&ok));
    assert!(!AnyTxFilter::Successful(SuccessfulTxFilter).filter(&failed));
    assert!(AnyTxFilter::BotTax(CmV2BotTaxTxFilter).filter(&ok));
    assert!(!AnyTxFilter::Cmv2(Cmv2TxFilter).filter(&ok));
    assert!(AnyTxFilter::HasProgramId(TxHasProgramId::new("program")).filter(&ok));
    assert!(!AnyTxFilter::HasSigner(TxHasSigner::new("program")).filter(&ok));
}

#[test]
fn number_of_accounts_compares_with_the_bound() {
    let three = positional("p", &["a", "b", "c"], "");
    assert!(IxNumberAccounts::LessThan(4).filter(&three));
    assert!(!IxNumberAccounts::LessThan(3).filter(&three));
    assert!(IxNumberAccounts::LessThanOrEqual(3).filter(&three));
    assert!(!IxNumberAccounts::LessThanOrEqual(2).filter(&three));
    assert!(IxNumberAccounts::EqualTo(3).filter(&three));
    assert!(!IxNumberAccounts::EqualTo(2).filter(&three));
    assert!(IxNumberAccounts::GreaterThan(2).filter(&three));
    assert!(!IxNumberAccounts::GreaterThan(3).filter(&three));
    assert!(IxNumberAccounts::GreaterThanOrEqual(3).filter(&three));
    assert!(!IxNumberAccounts::GreaterThanOrEqual(4).filter(&three));
}

#[test]
fn number_of_accounts_lets_structured_instructions_pass() {
    let ix = structured("p", r#"{"type":"mintTo"}"#);
    assert!(IxNumberAccounts::EqualTo(14).filter(&ix));
    assert!(IxNumberAccounts::LessThan(0).filter(&ix));
    assert!(IxNumberAccounts::GreaterThan(usize::MAX).filter(&ix));
}

#[test]
fn program_id_filter_reads_both_shapes() {
    let filter = IxProgramIdFilter::new("p");
    assert_eq!(filter.program_id, "p");
    assert!(filter.filter(&positional("p", &[], "")));
    assert!(filter.filter(&structured("p", "{}")));
    assert!(!filter.filter(&positional("q", &[], "")));
    assert!(!filter.filter(&structured("q", "{}")));
}

#[test]
fn data_filter_selects_positional_instructions_by_payload() {
    let filter = IxDataFilter::new("ZbhHTZcMWdXcj");
    assert_eq!(filter.data, "ZbhHTZcMWdXcj");
    assert!(filter.filter(&positional("p", &[], "ZbhHTZcMWdXcj")));
    assert!(!filter.filter(&positional("p", &[], "ZbhHTZcMWdXc")));
    assert!(!filter.filter(&structured("p", r#"{"data":"ZbhHTZcMWdXcj"}"#)));
}

#[test]
fn mint_to_filter_selects_structured_mints() {
    assert!(IxMintToFilter.filter(&structured("p", r#"{"type":"mintTo","info":{}}"#)));
    assert!(!IxMintToFilter.filter(&structured("p", r#"{"type":"transfer"}"#)));
    assert!(!IxMintToFilter.filter(&structured("p", r#"{"info":{"type":"mintTo"}}"#)));
    assert!(!IxMintToFilter.filter(&structured("p", r#"{"type":["mintTo"]}"#)));
    assert!(!IxMintToFilter.filter(&structured("p", r#"["type","mintTo"]"#)));
    assert!(!IxMintToFilter.filter(&positional("p", &["mintTo"], "mintTo")));
}

#[test]
fn has_account_filter_looks_at_every_position() {
    let filter = IxHasAccountFilter::new("c");
    assert_eq!(filter.account, "c");
    assert!(filter.filter(&positional("p", &["a", "b", "c"], "")));
    assert!(!filter.filter(&positional("p", &["a", "b"], "")));
    assert!(!filter.filter(&positional("p", &[], "")));
    assert!(filter.filter(&structured("p", "{}")));
}

#[test]
fn has_account_at_index_looks_at_one_position() {
    let filter = IxHasAccountAtIndexFilter::new("b", 1);
    assert_eq!(filter.account, "b");
    assert_eq!(filter.index, 1);
    assert!(filter.filter(&positional("p", &["a", "b", "c"], "")));
    assert!(!filter.filter(&positional("p", &["b", "a"], "")));
    assert!(!filter.filter(&positional("p", &["b"], "")));
    assert!(!filter.filter(&positional("p", &[], "")));
}

#[test]
fn has_account_at_index_lets_structured_instructions_pass() {
    let filter = IxHasAccountAtIndexFilter::new("b", 1);
    assert!(filter.filter(&structured("p", r#"{"info":{"b":"b"}}"#)));
    assert!(filter.filter(&structured("p", "{}")));
    assert!(IxHasAccountAtIndexFilter::new("b", usize::MAX).filter(&structured("p", "[]")));
}

#[test]
fn any_ix_filter_behaves_as_the_filter_it_holds() {
    let ix = positional("p", &["a", "b"], "data");
    assert!(AnyIxFilter::NumberAccounts(IxNumberAccounts::EqualTo(2)).filter(&ix));
    assert!(AnyIxFilter::ProgramId(IxProgramIdFilter::new("p")).filter(&ix));
    assert!(AnyIxFilter::Data(IxDataFilter::new("data")).filter(&ix));
    assert!(!AnyIxFilter::MintTo(IxMintToFilter).filter(&ix));
    assert!(AnyIxFilter::HasAccount(IxHasAccountFilter::new("b")).filter(&ix));
    assert!(!AnyIxFilter::HasAccountAtIndex(IxHasAccountAtIndexFilter::new("b", 0)).filter(&ix));
    let decoded = structured("p", "{}");
    assert!(AnyIxFilter::HasAccountAtIndex(IxHasAccountAtIndexFilter::new("b", 0)).filter(&decoded));
    assert!(!AnyIxFilter::Data(IxDataFilter::new("data")).filter(&decoded));
}
