use account_crawler::candy_machine::filters::{
    cmv1_ix_len, cmv1_tx_filter, cmv2_ix_len, cmv2_tx_filter, ix_contains_data,
    successful_txs_filter,
};
use account_crawler::candy_machine::methods::{get_cmv1_mints, get_cmv2_mints, CrawledAccounts};
use account_crawler::MatchPolicy;
use account_crawler::constants::{CMV1_PROGRAM_ID, CMV2_PROGRAM_ID};
use account_crawler::{
    CompiledInstruction, CrawlError, EncodedTransaction, Message, ParsedMessage, RawMessage,
    TransactionMeta, TransactionRecord,
};
use solana_sdk::pubkey::Pubkey;

fn machine() -> Pubkey {
    Pubkey::new_from_array([3u8; 32])
}

fn compiled(program_id_index: u8, accounts: Vec<u8>) -> CompiledInstruction {
    CompiledInstruction { program_id_index, accounts, data: "data".to_string() }
}

fn raw(keys: Vec<String>, instructions: Vec<CompiledInstruction>, err: Option<&str>) -> TransactionRecord {
    TransactionRecord {
        transaction: EncodedTransaction::Json(Message::Raw(RawMessage {
            account_keys: keys,
            instructions,
        })),
        meta: Some(TransactionMeta {
            err: err.map(|e| e.to_string()),
            log_messages: None,
            inner_instructions: None,
        }),
    }
}

/// Twenty keys: the program at 0, the machine at 1, then `<tag>2` to `<tag>19`.
fn keys(program: &str, tag: &str) -> Vec<String> {
    let mut keys = vec![program.to_string(), machine().to_string()];
    for i in 2..20 {
        keys.push(format!("{tag}{i}"));
    }
    keys
}

/// A mint of the first version: 14 accounts, the machine second, the metadata account at
/// key `metadata` and the mint account at key `mint`.
fn v1_mint(metadata: u8, mint: u8) -> CompiledInstruction {
    compiled(0, vec![2, 1, 3, 4, metadata, mint, 5, 6, 7, 8, 9, 10, 11, 12])
}

fn v2_mint(metadata: u8, mint: u8) -> CompiledInstruction {
    compiled(0, vec![2, 3, 4, 5, metadata, mint, 6, 7, 8, 9, 10, 11, 12, 13, 14, 15])
}

fn listed(accounts: &CrawledAccounts) -> (Vec<String>, Vec<String>) {
    (accounts.metadata_addresses.addresses().clone(), accounts.mint_addresses.addresses().clone())
}

#[test]
fn raw_transaction_filters_look_for_their_program() {
    let v1 = raw(keys(CMV1_PROGRAM_ID, "k"), vec![], None);
    let v2 = raw(keys(CMV2_PROGRAM_ID, "k"), vec![], None);
    assert!(cmv1_tx_filter(&v1));
    assert!(!cmv1_tx_filter(&v2));
    assert!(cmv2_tx_filter(&v2));
    assert!(!cmv2_tx_filter(&v1));
}

#[test]
fn raw_transaction_filters_reject_what_is_not_raw() {
    let parsed = TransactionRecord {
        transaction: EncodedTransaction::Json(Message::Parsed(ParsedMessage {
            account_keys: vec![],
            instructions: vec![],
        })),
        meta: None,
    };
    let binary = TransactionRecord { transaction: EncodedTransaction::Binary, meta: None };
    assert!(!cmv1_tx_filter(&parsed));
    assert!(!cmv2_tx_filter(&parsed));
    assert!(!cmv1_tx_filter(&binary));
    assert!(!cmv2_tx_filter(&binary));
}

#[test]
fn successful_transactions_have_no_error_on_record() {
    assert!(successful_txs_filter(&raw(vec![], vec![], None)));
    assert!(!successful_txs_filter(&raw(vec![], vec![], Some("failed"))));
    let without_meta = TransactionRecord { transaction: EncodedTransaction::Binary, meta: None };
    assert!(!successful_txs_filter(&without_meta));
}

#[test]
fn instruction_length_filters() {
    let fourteen = compiled(0, vec![0; 14]);
    let sixteen = compiled(0, vec![0; 16]);
    let twenty = compiled(0, vec![0; 20]);
    assert!(cmv1_ix_len(&&fourteen));
    assert!(!cmv1_ix_len(&&sixteen));
    assert!(!cmv1_ix_len(&&compiled(0, vec![0; 13])));
    assert!(cmv2_ix_len(&&sixteen));
    assert!(cmv2_ix_len(&&twenty));
    assert!(!cmv2_ix_len(&&compiled(0, vec![0; 15])));
}

#[test]
fn instruction_data_filter() {
    assert!(ix_contains_data(&&compiled(0, vec![])));
    let empty = CompiledInstruction { program_id_index: 0, accounts: vec![], data: String::new() };
    assert!(!ix_contains_data(&&empty));
}

#[test]
fn cmv1_crawl_takes_metadata_and_mint_of_each_mint() {
    let batch = vec![
        raw(keys(CMV1_PROGRAM_ID, "a"), vec![compiled(0, vec![1, 2]), v1_mint(16, 17)], None),
        raw(keys(CMV1_PROGRAM_ID, "b"), vec![v1_mint(18, 19)], None),
        raw(keys(CMV1_PROGRAM_ID, "a"), vec![v1_mint(16, 17)], None),
    ];
    let accounts = get_cmv1_mints(&batch, &machine(), MatchPolicy::Report).unwrap().accounts;
    let (metadata, mints) = listed(&accounts);
    assert_eq!(metadata, vec!["a16".to_string(), "b18".to_string()]);
    assert_eq!(mints, vec!["a17".to_string(), "b19".to_string()]);
}

#[test]
fn cmv1_crawl_skips_transactions_it_does_not_read() {
    let parsed = TransactionRecord {
        transaction: EncodedTransaction::Json(Message::Parsed(ParsedMessage {
            account_keys: vec![],
            instructions: vec![],
        })),
        meta: None,
    };
    let batch = vec![
        raw(keys(CMV1_PROGRAM_ID, "a"), vec![v1_mint(16, 17)], Some("failed")),
        raw(keys(CMV2_PROGRAM_ID, "b"), vec![v1_mint(16, 17)], None),
        parsed,
        TransactionRecord { transaction: EncodedTransaction::Binary, meta: None },
    ];
    let accounts = get_cmv1_mints(&batch, &machine(), MatchPolicy::Report).unwrap().accounts;
    assert_eq!(accounts.metadata_addresses.len(), 0);
    assert_eq!(accounts.mint_addresses.len(), 0);
}

#[test]
fn cmv1_crawl_wants_the_program_the_length_and_the_machine() {
    let mut other_machine = v1_mint(16, 17);
    other_machine.accounts[1] = 2;
    let mut other_program = v1_mint(16, 17);
    other_program.program_id_index = 5;
    let mut no_program = v1_mint(16, 17);
    no_program.program_id_index = 200;
    let mut no_machine = v1_mint(16, 17);
    no_machine.accounts[1] = 200;
    let mut long = v1_mint(16, 17);
    long.accounts.push(3);
    let batch = vec![raw(
        keys(CMV1_PROGRAM_ID, "a"),
        vec![other_machine, other_program, no_program, no_machine, long],
        None,
    )];
    let accounts = get_cmv1_mints(&batch, &machine(), MatchPolicy::Report).unwrap().accounts;
    assert_eq!(accounts.metadata_addresses.len(), 0);
    assert_eq!(accounts.mint_addresses.len(), 0);
}

fn three_transactions() -> Vec<TransactionRecord> {
    vec![
        raw(keys(CMV1_PROGRAM_ID, "a"), vec![v1_mint(16, 17)], None),
        raw(
            keys(CMV1_PROGRAM_ID, "b"),
            vec![v1_mint(16, 17), v1_mint(18, 19), v1_mint(18, 19)],
            None,
        ),
        raw(keys(CMV1_PROGRAM_ID, "c"), vec![v1_mint(16, 17), v1_mint(18, 19)], None),
    ]
}

#[test]
fn cmv1_crawl_processes_and_reports_a_transaction_with_several_mints() {
    let report = get_cmv1_mints(&three_transactions(), &machine(), MatchPolicy::Report).unwrap();
    assert_eq!(report.ambiguous, vec![1, 2]);
    let (metadata, mints) = listed(&report.accounts);
    assert_eq!(metadata, vec!["a16", "b16", "b18", "c16", "c18"]);
    assert_eq!(mints, vec!["a17", "b17", "b19", "c17", "c19"]);
}

#[test]
fn cmv1_crawl_under_allow_processes_every_mint_and_reports_nothing() {
    let report = get_cmv1_mints(&three_transactions(), &machine(), MatchPolicy::Allow).unwrap();
    assert!(report.ambiguous.is_empty());
    let (metadata, mints) = listed(&report.accounts);
    assert_eq!(metadata, vec!["a16", "b16", "b18", "c16", "c18"]);
    assert_eq!(mints, vec!["a17", "b17", "b19", "c17", "c19"]);
}

#[test]
fn cmv1_crawl_under_reject_fails_on_a_second_mint_in_a_transaction() {
    assert_eq!(
        get_cmv1_mints(&three_transactions(), &machine(), MatchPolicy::Reject).err(),
        Some(CrawlError::AmbiguousMatch(1, 3))
    );
    let single = vec![raw(keys(CMV1_PROGRAM_ID, "a"), vec![v1_mint(16, 17)], None)];
    let report = get_cmv1_mints(&single, &machine(), MatchPolicy::Reject).unwrap();
    assert!(report.ambiguous.is_empty());
    assert_eq!(report.accounts.mint_addresses.len(), 1);
}

#[test]
fn crawl_does_not_count_mints_in_a_transaction_that_it_does_not_read() {
    let failed = raw(
        keys(CMV1_PROGRAM_ID, "a"),
        vec![v1_mint(16, 17), v1_mint(18, 19)],
        Some("failed"),
    );
    for policy in [MatchPolicy::Reject, MatchPolicy::Report, MatchPolicy::Allow] {
        let report = get_cmv1_mints(&vec![failed.clone()], &machine(), policy).unwrap();
        assert!(report.ambiguous.is_empty());
        assert_eq!(report.accounts.mint_addresses.len(), 0);
    }
}

#[test]
fn crawl_skips_an_account_whose_position_the_keys_do_not_have() {
    let batch = vec![raw(keys(CMV1_PROGRAM_ID, "a"), vec![v1_mint(16, 20)], None)];
    let accounts = get_cmv1_mints(&batch, &machine(), MatchPolicy::Report).unwrap().accounts;
    let (metadata, mints) = listed(&accounts);
    assert_eq!(metadata, vec!["a16".to_string()]);
    assert!(mints.is_empty());
}

#[test]
fn cmv2_crawl_takes_every_mint_of_the_program() {
    let mut long = v2_mint(18, 19);
    long.accounts.push(2);
    let batch = vec![
        raw(keys(CMV2_PROGRAM_ID, "a"), vec![v2_mint(16, 17)], None),
        raw(keys(CMV2_PROGRAM_ID, "b"), vec![long], None),
        raw(keys(CMV2_PROGRAM_ID, "c"), vec![v1_mint(16, 17)], None),
        raw(keys(CMV1_PROGRAM_ID, "d"), vec![v2_mint(16, 17)], None),
        raw(keys(CMV2_PROGRAM_ID, "e"), vec![v2_mint(16, 17)], Some("failed")),
    ];
    let accounts = get_cmv2_mints(&batch, &machine(), MatchPolicy::Report).unwrap().accounts;
    let (metadata, mints) = listed(&accounts);
    assert_eq!(metadata, vec!["a16".to_string(), "b18".to_string()]);
    assert_eq!(mints, vec!["a17".to_string(), "b19".to_string()]);
}

#[test]
fn cmv2_crawl_treats_a_second_mint_as_the_policy_says() {
    let batch = vec![raw(keys(CMV2_PROGRAM_ID, "a"), vec![v2_mint(16, 17), v2_mint(18, 19)], None)];
    let report = get_cmv2_mints(&batch, &machine(), MatchPolicy::Report).unwrap();
    assert_eq!(report.ambiguous, vec![0]);
    let (metadata, mints) = listed(&report.accounts);
    assert_eq!(metadata, vec!["a16", "a18"]);
    assert_eq!(mints, vec!["a17", "a19"]);
    assert_eq!(
        get_cmv2_mints(&batch, &machine(), MatchPolicy::Reject).err(),
        Some(CrawlError::AmbiguousMatch(0, 2))
    );
}

#[test]
fn crawl_of_an_empty_batch_gives_empty_sets() {
    let accounts = get_cmv2_mints(&Vec::new(), &machine(), MatchPolicy::Report).unwrap().accounts;
    assert_eq!(accounts.metadata_addresses.len(), 0);
    assert_eq!(accounts.mint_addresses.len(), 0);
}
