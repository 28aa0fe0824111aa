use solana_monitor::decoder::{
    DecodedField, DecodedInstruction, DecodedPayload, Decoder, FieldValue, InstructionDecoder,
    InstructionType,
};
use solana_monitor::filter::{SolanaBlockFilter, SolanaFilterHelpers};
use solana_monitor::jupiter::JupiterDca;
use solana_monitor::model::{
    AccountMeta, CommitmentLevel, CompiledInstruction, InnerInstructions, Instruction,
    LoadedAddresses, Message, MessageHeader, Pubkey, Signature, SolanaBlock, SolanaTransaction,
    TransactionStatusMeta, UiCompiledInstruction, VersionedMessage, VersionedTransaction,
};
use solana_monitor::monitor::{
    AddressWithSpec, FunctionCondition, MatchConditions, Monitor, SolanaMatchArguments,
    TransactionCondition, TransactionStatus,
};
use solana_monitor::nested::NestedInstructions;
use solana_monitor::resolve::{
    extract_instructions_with_metadata, transaction_metadata, InstructionMetadata,
    ResolutionError,
};

fn key(b: u8) -> Pubkey {
    Pubkey([b; 32])
}

fn text(k: &Pubkey) -> String {
    solana_pubkey::Pubkey::new_from_array(k.0).to_string()
}

fn dca_program() -> Pubkey {
    let bytes = bs58::decode("DCA265Vj8a9CEuX1eb1LWRnDT7uK6q1xMipnNyatn23M").into_vec().unwrap();
    let mut a = [0u8; 32];
    a.copy_from_slice(&bytes);
    Pubkey(a)
}

fn meta(inner: Option<Vec<InnerInstructions>>, loaded: Option<LoadedAddresses>) -> TransactionStatusMeta {
    TransactionStatusMeta {
        succeeded: true,
        fee: 5000,
        pre_balances: vec![],
        post_balances: vec![],
        inner_instructions: inner,
        log_messages: None,
        loaded_addresses: loaded,
        compute_units_consumed: None,
    }
}

fn transaction(message: VersionedMessage, meta: TransactionStatusMeta) -> SolanaTransaction {
    SolanaTransaction {
        signature: Signature([5; 64]),
        transaction: VersionedTransaction { signatures: vec![Signature([5; 64])], message },
        meta,
        slot: 12345,
        block_time: Some(1678901234),
    }
}

fn header(signed: u8, ro_signed: u8, ro_unsigned: u8) -> MessageHeader {
    MessageHeader {
        num_required_signatures: signed,
        num_readonly_signed_accounts: ro_signed,
        num_readonly_unsigned_accounts: ro_unsigned,
    }
}

/// Fee payer, two accounts, and a program that the single instruction calls.
fn create_test_transaction() -> SolanaTransaction {
    let message = Message {
        header: header(2, 0, 1),
        account_keys: vec![key(1), key(2), key(3), key(4)],
        recent_blockhash: key(9),
        instructions: vec![CompiledInstruction { program_id_index: 3, accounts: vec![1, 2], data: vec![1, 2, 3, 4] }],
    };
    transaction(VersionedMessage::Legacy(message), meta(None, None))
}

fn ui(program_id_index: u8, accounts: Vec<u8>, data: &[u8], stack_height: Option<u32>) -> UiCompiledInstruction {
    UiCompiledInstruction {
        program_id_index,
        accounts,
        data: bs58::encode(data).into_string(),
        stack_height,
    }
}

fn flatten(tx: &SolanaTransaction) -> Result<Vec<(InstructionMetadata, Instruction)>, ResolutionError> {
    let tm = transaction_metadata(tx).unwrap();
    extract_instructions_with_metadata(&tm, tx)
}

fn create_test_monitor(
    functions: Vec<FunctionCondition>,
    transactions: Vec<TransactionCondition>,
    addresses: Vec<String>,
) -> Monitor {
    Monitor {
        name: "test".to_string(),
        networks: vec!["solana_mainnet".to_string()],
        paused: false,
        addresses: addresses
            .into_iter()
            .map(|address| AddressWithSpec { address, contract_spec: None })
            .collect(),
        match_conditions: MatchConditions { functions, events: vec![], transactions },
        trigger_conditions: vec![],
        triggers: vec![],
    }
}

const OPEN_DCA_TAG: [u8; 8] = [0x24, 0x41, 0xb9, 0x36, 0x01, 0xd2, 0x64, 0xa3];

fn create_test_filter() -> SolanaBlockFilter<JupiterDca> {
    SolanaBlockFilter::new(Decoder::with_known_programs())
}

/// The data of an `OpenDca` instruction: its tag, then its fields in borsh.
fn open_dca_data(in_amount: u64) -> Vec<u8> {
    let mut data = OPEN_DCA_TAG.to_vec();
    data.extend_from_slice(&1739688565u64.to_le_bytes());
    data.extend_from_slice(&in_amount.to_le_bytes());
    data.extend_from_slice(&100000u64.to_le_bytes());
    data.extend_from_slice(&60i64.to_le_bytes());
    data.push(1);
    data.extend_from_slice(&0u64.to_le_bytes());
    data.push(0);
    data.push(1);
    data.extend_from_slice(&(-5i64).to_le_bytes());
    data.push(1);
    data.push(0);
    data
}

fn open_dca_transaction(in_amount: u64) -> SolanaTransaction {
    let data = open_dca_data(in_amount);
    let message = Message {
        header: header(1, 0, 1),
        account_keys: vec![key(1), key(2), dca_program()],
        recent_blockhash: key(9),
        instructions: vec![CompiledInstruction { program_id_index: 2, accounts: vec![1, 0], data }],
    };
    transaction(VersionedMessage::Legacy(message), meta(None, None))
}

fn open_dca_monitor() -> Monitor {
    create_test_monitor(
        vec![FunctionCondition { signature: "OpenDca".to_string(), expression: Some("in_amount > 0".to_string()) }],
        vec![],
        vec!["DCA265Vj8a9CEuX1eb1LWRnDT7uK6q1xMipnNyatn23M".to_string()],
    )
}

#[test]
fn flattens_top_level_then_inner_instructions() {
    let message = Message {
        header: header(1, 0, 1),
        account_keys: vec![key(1), key(2), key(3), key(4)],
        recent_blockhash: key(9),
        instructions: vec![
            CompiledInstruction { program_id_index: 3, accounts: vec![0, 1], data: vec![7] },
            CompiledInstruction { program_id_index: 3, accounts: vec![2], data: vec![8] },
        ],
    };
    let inner = vec![InnerInstructions { index: 0, instructions: vec![ui(2, vec![1], &[9, 9], Some(2)), ui(2, vec![], b"not base58 0OIl", None)] }];
    let tx = transaction(VersionedMessage::Legacy(message), meta(Some(inner), None));
    let flat = flatten(&tx).unwrap();
    let shape: Vec<(u32, u32, Vec<u8>)> = flat.iter().map(|(m, i)| (m.stack_height, m.index, i.data.clone())).collect();
    assert_eq!(shape, vec![(1, 0, vec![7]), (2, 0, vec![9, 9]), (1, 0, b"not base58 0OIl".to_vec()), (1, 1, vec![8])]);
    let accounts = &flat[0].1.accounts;
    assert_eq!(accounts[0], AccountMeta { pubkey: key(1), is_signer: true, is_writable: true });
    assert_eq!(accounts[1], AccountMeta { pubkey: key(2), is_signer: false, is_writable: true });
    assert_eq!(flat[1].0.transaction_metadata.fee_payer, key(1));
}

#[test]
fn undecodable_inner_data_is_empty() {
    let message = Message {
        header: header(1, 0, 0),
        account_keys: vec![key(1)],
        recent_blockhash: key(9),
        instructions: vec![CompiledInstruction { program_id_index: 0, accounts: vec![], data: vec![] }],
    };
    let inner = vec![InnerInstructions { index: 0, instructions: vec![UiCompiledInstruction { program_id_index: 0, accounts: vec![], data: "0OIl".to_string(), stack_height: Some(2) }] }];
    let tx = transaction(VersionedMessage::Legacy(message), meta(Some(inner), None));
    let flat = flatten(&tx).unwrap();
    assert_eq!(flat.len(), 2);
    assert!(flat[1].1.data.is_empty());
}

#[test]
fn signer_and_writable_flags_follow_the_header() {
    let message = Message {
        header: header(2, 1, 1),
        account_keys: vec![key(1), key(2), key(3), key(4)],
        recent_blockhash: key(9),
        instructions: vec![CompiledInstruction { program_id_index: 3, accounts: vec![0, 1, 2, 3], data: vec![] }],
    };
    let tx = transaction(VersionedMessage::Legacy(message), meta(None, None));
    let flat = flatten(&tx).unwrap();
    let flags: Vec<(bool, bool)> = flat[0].1.accounts.iter().map(|a| (a.is_signer, a.is_writable)).collect();
    assert_eq!(flags, vec![(true, true), (true, false), (false, true), (false, false)]);
}

#[test]
fn loaded_accounts_resolve_after_static_ones() {
    let message = Message {
        header: header(1, 0, 0),
        account_keys: vec![key(1), key(2)],
        recent_blockhash: key(9),
        instructions: vec![CompiledInstruction { program_id_index: 1, accounts: vec![2, 3], data: vec![] }],
    };
    let loaded = LoadedAddresses { writable: vec![key(20)], readonly: vec![key(30)] };
    let tx = transaction(VersionedMessage::V0(message), meta(None, Some(loaded)));
    let flat = flatten(&tx).unwrap();
    assert_eq!(flat[0].1.program_id, key(2));
    assert_eq!(flat[0].1.accounts[0], AccountMeta { pubkey: key(20), is_signer: false, is_writable: true });
    assert_eq!(flat[0].1.accounts[1], AccountMeta { pubkey: key(30), is_signer: false, is_writable: false });
}

#[test]
fn index_beyond_the_account_table_fails_the_transaction() {
    let message = Message {
        header: header(1, 0, 0),
        account_keys: vec![key(1), key(2)],
        recent_blockhash: key(9),
        instructions: vec![CompiledInstruction { program_id_index: 1, accounts: vec![2], data: vec![] }],
    };
    let legacy = transaction(VersionedMessage::Legacy(message.clone()), meta(None, None));
    assert_eq!(flatten(&legacy).unwrap_err(), ResolutionError::AccountIndexOutOfRange);
    let v0 = transaction(VersionedMessage::V0(message.clone()), meta(None, None));
    assert_eq!(flatten(&v0).unwrap_err(), ResolutionError::AccountIndexOutOfRange);
    let mut bad_program = message;
    bad_program.instructions[0] = CompiledInstruction { program_id_index: 5, accounts: vec![], data: vec![] };
    let tx = transaction(VersionedMessage::Legacy(bad_program), meta(None, None));
    assert!(flatten(&tx).is_err());
    let inner = vec![InnerInstructions { index: 0, instructions: vec![ui(0, vec![7], &[], Some(2))] }];
    let ok_top = Message {
        header: header(1, 0, 0),
        account_keys: vec![key(1)],
        recent_blockhash: key(9),
        instructions: vec![CompiledInstruction { program_id_index: 0, accounts: vec![], data: vec![] }],
    };
    let tx = transaction(VersionedMessage::Legacy(ok_top), meta(Some(inner), None));
    assert_eq!(flatten(&tx).unwrap_err(), ResolutionError::AccountIndexOutOfRange);
}

#[test]
fn message_without_accounts_has_no_fee_payer() {
    let message = Message { header: header(0, 0, 0), account_keys: vec![], recent_blockhash: key(9), instructions: vec![] };
    let tx = transaction(VersionedMessage::Legacy(message), meta(None, None));
    assert_eq!(transaction_metadata(&tx).unwrap_err(), ResolutionError::MissingFeePayer);
}

#[test]
fn one_top_level_and_one_inner_instruction_make_one_root_with_one_child() {
    let message = Message {
        header: header(1, 0, 1),
        account_keys: vec![key(1), key(2)],
        recent_blockhash: key(9),
        instructions: vec![CompiledInstruction { program_id_index: 1, accounts: vec![0], data: vec![1] }],
    };
    let inner = vec![InnerInstructions { index: 0, instructions: vec![ui(1, vec![0], &[2], Some(2))] }];
    let tx = transaction(VersionedMessage::Legacy(message), meta(Some(inner), None));
    let forest = NestedInstructions::from(flatten(&tx).unwrap());
    assert_eq!(forest.len(), 1);
    assert_eq!(forest.0[0].inner_instructions.len(), 1);
    assert_eq!(forest.0[0].inner_instructions[0].instruction.data, vec![2]);
    assert!(forest.0[0].inner_instructions[0].inner_instructions.is_empty());
}

fn md(stack_height: u32, index: u32) -> InstructionMetadata {
    let tx = create_test_transaction();
    InstructionMetadata { transaction_metadata: transaction_metadata(&tx).unwrap(), stack_height, index }
}

fn ix(tag: u8) -> Instruction {
    Instruction { program_id: key(tag), accounts: vec![], data: vec![tag] }
}

#[test]
fn tree_keeps_order_and_nests_by_height() {
    let flat = vec![
        (md(1, 0), ix(1)),
        (md(2, 0), ix(2)),
        (md(3, 0), ix(3)),
        (md(2, 0), ix(4)),
        (md(1, 1), ix(5)),
        (md(3, 1), ix(6)),
    ];
    let count = flat.len();
    let forest = NestedInstructions::from(flat);
    assert_eq!(forest.len(), 3);
    let first = &forest.0[0];
    assert_eq!(first.inner_instructions.len(), 2);
    assert_eq!(first.inner_instructions[0].inner_instructions[0].instruction.data, vec![3]);
    assert_eq!(first.inner_instructions[1].instruction.data, vec![4]);
    assert_eq!(forest.0[2].instruction.data, vec![6]);
    let order: Vec<u8> = forest.preorder().iter().map(|(_, i)| i.data[0]).collect();
    assert_eq!(order, vec![1, 2, 3, 4, 5, 6]);
    assert_eq!(forest.preorder().len(), count);
    let indices: Vec<u32> = forest.preorder().iter().map(|(m, _)| m.index).collect();
    assert!(indices.windows(2).all(|w| w[0] <= w[1]));
}

#[test]
fn inner_instruction_of_first_top_level_nests_under_it() {
    let forest = NestedInstructions::from(vec![(md(2, 0), ix(1)), (md(1, 0), ix(2)), (md(2, 0), ix(3)), (md(0, 0), ix(4))]);
    assert_eq!(forest.len(), 3);
    assert_eq!(forest.0[1].inner_instructions.len(), 1);
    assert_eq!(forest.0[2].instruction.data, vec![4]);
}

#[test]
fn reflattening_a_resolved_transaction_gives_the_same_instructions() {
    let tx = create_test_transaction();
    let first = flatten(&tx).unwrap();
    let keys = match tx.message() {
        VersionedMessage::Legacy(m) => m.account_keys.clone(),
        VersionedMessage::V0(m) => m.account_keys.clone(),
    };
    let position = |k: &Pubkey| keys.iter().position(|x| x == k).unwrap() as u8;
    let recompiled: Vec<CompiledInstruction> = first
        .iter()
        .map(|(_, i)| CompiledInstruction {
            program_id_index: position(&i.program_id),
            accounts: i.accounts.iter().map(|a| position(&a.pubkey)).collect(),
            data: i.data.clone(),
        })
        .collect();
    let mut again = tx.clone();
    match &mut again.transaction.message {
        VersionedMessage::Legacy(m) => m.instructions = recompiled,
        VersionedMessage::V0(m) => m.instructions = recompiled,
    }
    let second = flatten(&again).unwrap();
    let tuples = |v: &Vec<(InstructionMetadata, Instruction)>| v.iter().map(|(_, i)| i.clone()).collect::<Vec<_>>();
    assert_eq!(tuples(&first), tuples(&second));
}

#[test]
fn test_find_matching_transaction_empty_conditions_matches_all() {
    let filter = create_test_filter();
    let mut matched = Vec::new();
    let monitor = create_test_monitor(vec![], vec![], vec![]);
    let transaction = create_test_transaction();

    filter.find_matching_transaction(&transaction, &monitor, &mut matched);

    assert_eq!(matched.len(), 1);
    assert_eq!(matched[0].expression, None);
    assert_eq!(matched[0].status, TransactionStatus::Any);
}

fn single_condition(expression: &str) -> Vec<TransactionCondition> {
    vec![TransactionCondition { expression: Some(expression.to_string()), status: TransactionStatus::Any }]
}

#[test]
fn test_find_matching_transaction_with_signature_expression() {
    let filter = create_test_filter();
    let mut matched = Vec::new();
    let transaction = create_test_transaction();
    let monitor = create_test_monitor(vec![], single_condition("block_time > 0"), vec![]);

    filter.find_matching_transaction(&transaction, &monitor, &mut matched);

    assert_eq!(matched.len(), 1);
    assert_eq!(matched[0].expression, Some("block_time > 0".to_string()));
    assert_eq!(matched[0].status, TransactionStatus::Any);
}

#[test]
fn test_find_matching_transaction_with_fee_payer_expression() {
    let filter = create_test_filter();
    let mut matched = Vec::new();
    let transaction = create_test_transaction();
    let monitor = create_test_monitor(vec![], single_condition("block_time > 0"), vec![]);

    filter.find_matching_transaction(&transaction, &monitor, &mut matched);

    assert_eq!(matched.len(), 1);
    assert_eq!(matched[0].expression, Some("block_time > 0".to_string()));
    assert_eq!(matched[0].status, TransactionStatus::Any);
}

#[test]
fn test_find_matching_transaction_with_complex_expression() {
    let filter = create_test_filter();
    let mut matched = Vec::new();
    let transaction = create_test_transaction();
    let monitor = create_test_monitor(vec![], single_condition("block_time > 0 AND slot > 0"), vec![]);

    filter.find_matching_transaction(&transaction, &monitor, &mut matched);

    assert_eq!(matched.len(), 1);
    assert_eq!(matched[0].expression, Some("block_time > 0 AND slot > 0".to_string()));
    assert_eq!(matched[0].status, TransactionStatus::Any);
}

#[test]
fn test_find_matching_transaction_no_match() {
    let filter = create_test_filter();
    let mut matched = Vec::new();
    let transaction = create_test_transaction();
    let monitor = create_test_monitor(vec![], single_condition("block_time < 0"), vec![]);

    filter.find_matching_transaction(&transaction, &monitor, &mut matched);

    assert_eq!(matched.len(), 0);
}

#[test]
fn test_find_matching_transaction_with_system_transfer() {
    let filter = create_test_filter();
    let mut matched = Vec::new();
    let transaction = create_test_transaction();
    let monitor = create_test_monitor(vec![], single_condition("block_time > 0"), vec![]);

    filter.find_matching_transaction(&transaction, &monitor, &mut matched);

    assert_eq!(matched.len(), 1);
    assert_eq!(matched[0].expression, Some("block_time > 0".to_string()));
    assert_eq!(matched[0].status, TransactionStatus::Any);
}

#[test]
fn transaction_parameters_include_slot_signature_and_fee_payer() {
    let filter = create_test_filter();
    let transaction = create_test_transaction();
    let sig = solana_signature::Signature::from([5u8; 64]).to_string();
    let conditions = vec![
        TransactionCondition { expression: Some("slot == 1".to_string()), status: TransactionStatus::Any },
        TransactionCondition { expression: Some(format!("signature == {}", sig)), status: TransactionStatus::Any },
        TransactionCondition { expression: None, status: TransactionStatus::Any },
    ];
    let mut matched = Vec::new();
    filter.find_matching_transaction(&transaction, &create_test_monitor(vec![], conditions, vec![]), &mut matched);
    assert_eq!(matched.len(), 1);
    assert_eq!(matched[0].expression, Some(format!("signature == {}", sig)));
    let payer = vec![TransactionCondition { expression: Some(format!("fee_payer == {}", text(&key(1)))), status: TransactionStatus::Any }];
    let mut matched = Vec::new();
    filter.find_matching_transaction(&transaction, &create_test_monitor(vec![], payer, vec![]), &mut matched);
    assert_eq!(matched.len(), 1);
    let unknown_time = SolanaTransaction { block_time: None, ..transaction };
    let mut matched = Vec::new();
    filter.find_matching_transaction(&unknown_time, &create_test_monitor(vec![], single_condition("block_time == 0"), vec![]), &mut matched);
    assert_eq!(matched.len(), 1);
}

#[test]
fn test_find_matching_functions_for_transaction() {
    let filter = create_test_filter();
    let mut matched_functions = Vec::new();
    let mut matched_on_args = SolanaMatchArguments { instructions: Some(Vec::new()), accounts: Some(Vec::new()) };
    let transaction = open_dca_transaction(5000000);
    let monitor = open_dca_monitor();

    filter.find_matching_instruction_for_transaction(&transaction, &monitor, &mut matched_functions, &mut matched_on_args);

    assert_eq!(matched_functions.len(), 1);
    assert_eq!(matched_functions[0].signature, "OpenDca");
    assert_eq!(matched_functions[0].expression, Some("in_amount > 0".to_string()));
    let args = matched_on_args.instructions.unwrap();
    assert_eq!(args.len(), 1);
    let params = args[0].args.as_ref().unwrap();
    let amount = params.iter().find(|p| p.name == "in_amount").unwrap();
    assert_eq!(amount.value, "5000000");
    assert_eq!(amount.kind, "u64");
    assert!(params.iter().any(|p| p.name == "account_0" && p.value == text(&key(2))));
}

#[test]
fn instruction_condition_with_failing_expression_does_not_match() {
    let filter = create_test_filter();
    let mut matched_functions = Vec::new();
    let mut matched_on_args = SolanaMatchArguments { instructions: None, accounts: None };
    filter.find_matching_instruction_for_transaction(&open_dca_transaction(0), &open_dca_monitor(), &mut matched_functions, &mut matched_on_args);
    assert!(matched_functions.is_empty());
    assert!(matched_on_args.instructions.is_none());
}

#[test]
fn monitor_watching_the_program_matches_open_dca() {
    let filter = create_test_filter();
    let block = SolanaBlock::new(12345, "h".to_string(), 12344, Some(1678901234), None, vec![open_dca_transaction(5_000_000)], None, CommitmentLevel::Confirmed);
    let monitors = vec![open_dca_monitor()];
    let matches = filter.filter_block(&"solana_mainnet".to_string(), &block, &monitors);
    assert_eq!(matches.len(), 1);
    let m = &matches[0];
    assert_eq!(m.matched_on.instructions.len(), 1);
    assert_eq!(m.matched_on.instructions[0].signature, "OpenDca");
    assert!(m.matched_on.transactions.is_empty());
    assert_eq!(m.network_slug, "solana_mainnet");
    assert_eq!(m.transaction, block.transactions[0]);
    assert!(m.monitor.addresses.iter().all(|a| a.contract_spec.is_none()));
}

#[test]
fn unrelated_program_yields_no_match() {
    let filter = create_test_filter();
    let block = SolanaBlock::new(12345, "h".to_string(), 12344, Some(1678901234), None, vec![create_test_transaction()], None, CommitmentLevel::Confirmed);
    let matches = filter.filter_block(&"solana_mainnet".to_string(), &block, &vec![open_dca_monitor()]);
    assert!(matches.is_empty());
}

#[test]
fn combination_rules() {
    let filter = create_test_filter();
    let dca = "DCA265Vj8a9CEuX1eb1LWRnDT7uK6q1xMipnNyatn23M".to_string();
    let block = SolanaBlock::new(1, "h".to_string(), 0, Some(10), None, vec![open_dca_transaction(5)], None, CommitmentLevel::Confirmed);
    let slug = "solana_mainnet".to_string();
    let none = create_test_monitor(vec![], vec![], vec![dca.clone()]);
    let only_tx = create_test_monitor(vec![], single_condition("slot > 0"), vec![dca.clone()]);
    let only_tx_fails = create_test_monitor(vec![], single_condition("slot > 20000"), vec![dca.clone()]);
    let both = create_test_monitor(open_dca_monitor().match_conditions.functions, single_condition("slot > 0"), vec![dca.clone()]);
    let both_tx_fails = create_test_monitor(open_dca_monitor().match_conditions.functions, single_condition("slot > 20000"), vec![dca.clone()]);
    let matches = filter.filter_block(&slug, &block, &vec![none, only_tx, only_tx_fails, both, both_tx_fails]);
    assert_eq!(matches.len(), 3);
    assert!(matches[0].matched_on.transactions.is_empty() && matches[0].matched_on.instructions.is_empty());
    assert_eq!(matches[1].matched_on.transactions.len(), 1);
    assert_eq!(matches[2].matched_on.transactions.len(), 1);
    assert_eq!(matches[2].matched_on.instructions.len(), 1);
    assert_eq!(matches[2].matched_on_args.as_ref().unwrap().instructions.as_ref().unwrap().len(), 1);
}

#[test]
fn running_twice_gives_identical_matches() {
    let filter = create_test_filter();
    let block = SolanaBlock::new(12345, "h".to_string(), 12344, Some(1678901234), None, vec![open_dca_transaction(5_000_000), create_test_transaction(), open_dca_transaction(0)], None, CommitmentLevel::Confirmed);
    let monitors = vec![open_dca_monitor(), create_test_monitor(vec![], vec![], vec![text(&key(4))])];
    let slug = "solana_mainnet".to_string();
    let a = filter.filter_block(&slug, &block, &monitors);
    let b = filter.filter_block(&slug, &block, &monitors);
    assert_eq!(format!("{:?}", a), format!("{:?}", b));
    assert_eq!(a.len(), 2);
}

#[test]
fn helpers_match_accounts_and_data() {
    let helpers = SolanaFilterHelpers::new();
    let tx = create_test_transaction();
    assert!(helpers.matches_program_id(&tx, &text(&key(4))));
    assert!(helpers.matches_account(&tx, &text(&key(2))));
    assert!(!helpers.matches_account(&tx, &text(&key(8))));
    assert!(helpers.matches_instruction_data(&tx, &vec![1, 2, 3, 4]));
    assert!(!helpers.matches_instruction_data(&tx, &vec![1, 2, 3]));
}

#[test]
fn evaluate_expression_without_parameters_is_false() {
    let filter = create_test_filter();
    assert!(!filter.evaluate_expression("a > 0", &None));
}

#[test]
fn unresolvable_transaction_is_skipped() {
    let filter = create_test_filter();
    let message = Message {
        header: header(1, 0, 0),
        account_keys: vec![key(1), key(2)],
        recent_blockhash: key(9),
        instructions: vec![CompiledInstruction { program_id_index: 1, accounts: vec![9], data: vec![] }],
    };
    let broken = transaction(VersionedMessage::Legacy(message), meta(None, None));
    let block = SolanaBlock::new(1, "h".to_string(), 0, None, None, vec![broken, create_test_transaction()], None, CommitmentLevel::Confirmed);
    let monitor = create_test_monitor(vec![], vec![], vec![text(&key(1))]);
    let matches = filter.filter_block(&"solana_mainnet".to_string(), &block, &vec![monitor]);
    assert_eq!(matches.len(), 1);
    assert_eq!(matches[0].transaction, block.transactions[1]);
}

#[test]
fn jupiter_dca_decodes_open_dca_fields() {
    let ix = Instruction { program_id: dca_program(), accounts: vec![], data: open_dca_data(5_000_000) };
    let decoded = JupiterDca.decode_instruction(&ix).unwrap();
    assert_eq!(decoded.program_id, dca_program());
    let payload = match decoded.data {
        InstructionType::Decoded(p) => p,
        InstructionType::Unknown => panic!("expected a decoded payload"),
    };
    assert_eq!(payload.operation, "OpenDca");
    let fields: Vec<(String, FieldValue)> = payload.fields.into_iter().map(|f| (f.name, f.value)).collect();
    assert_eq!(
        fields,
        vec![
            ("application_idx".to_string(), FieldValue::U64(1739688565)),
            ("in_amount".to_string(), FieldValue::U64(5_000_000)),
            ("in_amount_per_cycle".to_string(), FieldValue::U64(100000)),
            ("cycle_frequency".to_string(), FieldValue::U64(60)),
            ("min_out_amount".to_string(), FieldValue::U64(0)),
            ("start_at".to_string(), FieldValue::I64(-5)),
            ("close_wsol_in_ata".to_string(), FieldValue::Bool(false)),
        ]
    );
}

#[test]
fn jupiter_dca_declines_other_programs_and_data() {
    let other = Instruction { program_id: key(3), accounts: vec![], data: open_dca_data(1) };
    assert!(JupiterDca.decode_instruction(&other).is_none());
    let garbage = Instruction { program_id: dca_program(), accounts: vec![], data: vec![1, 2, 3] };
    assert!(JupiterDca.decode_instruction(&garbage).is_none());
}
