use account_crawler::{
    flatten, AccountKey, CompiledInstruction, DecodeError, EncodedTransaction, InnerInstructions,
    Instruction, IxAccount, Message, MessageInstruction, ParsedMessage, PositionalInstruction,
    RawMessage, StructuredInstruction, TransactionMeta, TransactionRecord,
};

fn positional(program_id: &str, accounts: &[&str]) -> Instruction {
    Instruction::Positional(PositionalInstruction {
        program_id: program_id.to_string(),
        accounts: accounts.iter().map(|a| a.to_string()).collect(),
        data: String::new(),
    })
}

fn structured(parsed: &str) -> Instruction {
    Instruction::Structured(StructuredInstruction {
        program: "spl-token".to_string(),
        program_id: "token".to_string(),
        parsed: serde_json::from_str(parsed).unwrap(),
    })
}

fn compiled() -> MessageInstruction {
    MessageInstruction::Compiled(CompiledInstruction {
        program_id_index: 0,
        accounts: vec![1, 2],
        data: String::new(),
    })
}

fn named(name: &str) -> MessageInstruction {
    MessageInstruction::Decoded(positional(name, &[]))
}

fn group(index: u8, instructions: Vec<MessageInstruction>) -> InnerInstructions {
    InnerInstructions { index, instructions }
}

fn transaction(
    top: Vec<MessageInstruction>,
    inner: Option<Vec<InnerInstructions>>,
) -> TransactionRecord {
    TransactionRecord {
        transaction: EncodedTransaction::Json(Message::Parsed(ParsedMessage {
            account_keys: vec![AccountKey {
                pubkey: "payer".to_string(),
                writable: true,
                signer: true,
            }],
            instructions: top,
        })),
        meta: Some(TransactionMeta { err: None, log_messages: None, inner_instructions: inner }),
    }
}

fn programs(list: &[&Instruction]) -> Vec<String> {
    list.iter()
        .map(|ix| match ix {
            Instruction::Positional(ix) => ix.program_id.clone(),
            Instruction::Structured(ix) => ix.program_id.clone(),
        })
        .collect()
}

#[test]
fn flatten_lists_top_level_then_inner_instructions() {
    let tx = transaction(
        vec![named("t0"), named("t1")],
        Some(vec![
            group(1, vec![named("i1a"), named("i1b")]),
            group(0, vec![named("i0a")]),
        ]),
    );
    let list = flatten(&tx).unwrap();
    assert_eq!(programs(&list), vec!["t0", "t1", "i1a", "i1b", "i0a"]);
}

#[test]
fn flatten_without_inner_groups_gives_the_top_level() {
    let tx = transaction(vec![named("t0"), named("t1")], None);
    assert_eq!(programs(&flatten(&tx).unwrap()), vec!["t0", "t1"]);
    let tx = transaction(vec![named("t0")], Some(vec![]));
    assert_eq!(programs(&flatten(&tx).unwrap()), vec!["t0"]);
}

#[test]
fn flatten_without_meta_gives_the_top_level() {
    let mut tx = transaction(vec![named("t0")], Some(vec![group(0, vec![named("i0")])]));
    tx.meta = None;
    assert_eq!(programs(&flatten(&tx).unwrap()), vec!["t0"]);
}

#[test]
fn flatten_of_an_empty_transaction_is_empty() {
    let tx = transaction(vec![], Some(vec![group(0, vec![])]));
    assert!(flatten(&tx).unwrap().is_empty());
}

#[test]
fn flatten_keeps_the_instructions_themselves() {
    let ix = structured(r#"{"type":"mintTo","info":{"mint":"N1"}}"#);
    let tx = transaction(vec![MessageInstruction::Decoded(ix.clone())], None);
    let list = flatten(&tx).unwrap();
    assert_eq!(list.len(), 1);
    assert_eq!(list[0], &ix);
}

#[test]
fn flatten_rejects_a_binary_transaction() {
    let tx = TransactionRecord { transaction: EncodedTransaction::Binary, meta: None };
    assert_eq!(flatten(&tx), Err(DecodeError::NotJson));
}

#[test]
fn flatten_rejects_a_raw_message() {
    let tx = TransactionRecord {
        transaction: EncodedTransaction::Json(Message::Raw(RawMessage {
            account_keys: vec!["payer".to_string()],
            instructions: vec![],
        })),
        meta: None,
    };
    assert_eq!(flatten(&tx), Err(DecodeError::RawMessage));
}

#[test]
fn flatten_rejects_a_compiled_top_level_instruction() {
    let tx = transaction(vec![named("t0"), compiled()], None);
    assert_eq!(flatten(&tx), Err(DecodeError::CompiledInstruction));
}

#[test]
fn flatten_rejects_a_compiled_inner_instruction() {
    let tx = transaction(
        vec![named("t0")],
        Some(vec![group(0, vec![named("i0")]), group(1, vec![named("i1"), compiled()])]),
    );
    assert_eq!(flatten(&tx), Err(DecodeError::CompiledInstruction));
}

#[test]
fn rule_constructors_set_name_and_position() {
    let rule = IxAccount::unparsed("mint", 5);
    assert_eq!(rule.name, "mint");
    assert_eq!(rule.index, Some(5));
    let rule = IxAccount::parsed("mint");
    assert_eq!(rule.name, "mint");
    assert_eq!(rule.index, None);
}

#[test]
fn positional_rule_reads_the_account_at_its_position() {
    let ix = positional("p", &["P", "C", "X", "Y", "M1", "N1"]);
    assert_eq!(IxAccount::unparsed("metadata", 4).extract(&ix), Some("M1".to_string()));
    assert_eq!(IxAccount::unparsed("mint", 5).extract(&ix), Some("N1".to_string()));
    assert_eq!(IxAccount::unparsed("first", 0).extract(&ix), Some("P".to_string()));
}

#[test]
fn positional_rule_past_the_end_yields_nothing() {
    let ix = positional("p", &["P", "C"]);
    assert_eq!(IxAccount::unparsed("mint", 2).extract(&ix), None);
    assert_eq!(IxAccount::unparsed("mint", usize::MAX).extract(&ix), None);
    assert_eq!(IxAccount::unparsed("mint", 0).extract(&positional("p", &[])), None);
}

#[test]
fn positional_rule_yields_nothing_from_structured_instructions() {
    let ix = structured(r#"{"info":{"mint":"N1","0":"zero"},"type":"mintTo"}"#);
    assert_eq!(IxAccount::unparsed("mint", 0).extract(&ix), None);
    assert_eq!(IxAccount::unparsed("0", 0).extract(&ix), None);
}

#[test]
fn field_rule_yields_nothing_from_positional_instructions() {
    let ix = positional("p", &["mint", "info"]);
    assert_eq!(IxAccount::parsed("mint").extract(&ix), None);
    assert_eq!(IxAccount::parsed("").extract(&ix), None);
}

#[test]
fn field_rule_reads_the_field_under_info() {
    let ix = structured(r#"{"info":{"mint":"N1","account":"A1"},"type":"mintTo"}"#);
    assert_eq!(IxAccount::parsed("mint").extract(&ix), Some("N1".to_string()));
    assert_eq!(IxAccount::parsed("account").extract(&ix), Some("A1".to_string()));
}

#[test]
fn field_rule_yields_nothing_where_the_field_is_absent() {
    let ix = structured(r#"{"info":{"mint":"N1"},"mintAuthority":"X"}"#);
    assert_eq!(IxAccount::parsed("mintAuthority").extract(&ix), None);
    assert_eq!(IxAccount::parsed("mint").extract(&structured(r#"{"mint":"N1"}"#)), None);
    assert_eq!(IxAccount::parsed("mint").extract(&structured(r#""info""#)), None);
}

#[test]
fn field_rule_follows_a_path_below_info() {
    let ix = structured(r#"{"info":{"multisig":{"signers":["S0","S1"]},"a/b":"slash"}}"#);
    assert_eq!(IxAccount::parsed("multisig/signers/1").extract(&ix), Some("S1".to_string()));
    assert_eq!(IxAccount::parsed("a~1b").extract(&ix), Some("slash".to_string()));
    assert_eq!(IxAccount::parsed("multisig/signers/2").extract(&ix), None);
}

#[test]
fn field_rule_trims_wrapping_quotes_and_backslashes() {
    let ix = structured(r#"{"info":{"a":"\\N1\\","b":"\"N2\"","c":"\\\"N3\"\\","d":"N\\4"}}"#);
    assert_eq!(IxAccount::parsed("a").extract(&ix), Some("N1".to_string()));
    assert_eq!(IxAccount::parsed("b").extract(&ix), Some("N2".to_string()));
    assert_eq!(IxAccount::parsed("c").extract(&ix), Some("N3".to_string()));
    assert_eq!(IxAccount::parsed("d").extract(&ix), Some("N\\4".to_string()));
}

#[test]
fn field_rule_on_text_of_wrapping_characters_only_gives_the_empty_text() {
    let ix = structured(r#"{"info":{"a":"\\\\\"","b":""}}"#);
    assert_eq!(IxAccount::parsed("a").extract(&ix), Some(String::new()));
    assert_eq!(IxAccount::parsed("b").extract(&ix), Some(String::new()));
}

#[test]
fn field_rule_yields_nothing_from_a_field_that_is_no_text() {
    let ix = structured(r#"{"info":{"amount":5,"flag":true,"none":null,"list":["a"],"map":{}}}"#);
    for name in ["amount", "flag", "none", "list", "map"] {
        assert_eq!(IxAccount::parsed(name).extract(&ix), None);
    }
}

#[test]
fn field_rule_with_an_odd_name_follows_the_pointer() {
    let ix = structured(r#"{"info":{"":"empty","~":"tilde","a":{"":"deep"}}}"#);
    assert_eq!(IxAccount::parsed("").extract(&ix), Some("empty".to_string()));
    assert_eq!(IxAccount::parsed("~0").extract(&ix), Some("tilde".to_string()));
    assert_eq!(IxAccount::parsed("a/").extract(&ix), Some("deep".to_string()));
    assert_eq!(IxAccount::parsed("~").extract(&ix), Some("tilde".to_string()));
    assert_eq!(IxAccount::parsed("~1").extract(&ix), None);
    assert_eq!(IxAccount::parsed("é").extract(&ix), None);
}
