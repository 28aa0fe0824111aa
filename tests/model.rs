use solana_monitor::model::{
    CommitmentLevel, CompiledInstruction, Message, MessageHeader, Pubkey, Signature, SolanaBlock,
    SolanaReward, SolanaTransaction, TransactionStatusMeta, VersionedMessage, VersionedTransaction,
};
use solana_monitor::monitor::{
    MatchConditions, Monitor, SolanaMatchConditions, SolanaMonitorMatch,
};
use solana_monitor::nested::{NestedInstruction, NestedInstructions};
use solana_monitor::resolve::{InstructionMetadata, TransactionMetadata};

fn key(b: u8) -> Pubkey {
    Pubkey([b; 32])
}

fn empty_meta() -> TransactionStatusMeta {
    solana_monitor::model::default_ui_transaction_status_meta()
}

fn create_test_transaction() -> SolanaTransaction {
    let message = Message {
        header: MessageHeader {
            num_required_signatures: 2,
            num_readonly_signed_accounts: 0,
            num_readonly_unsigned_accounts: 1,
        },
        account_keys: vec![key(1), key(2), key(3), key(4)],
        recent_blockhash: key(9),
        instructions: vec![CompiledInstruction { program_id_index: 3, accounts: vec![1, 2], data: vec![1, 2, 3, 4] }],
    };
    SolanaTransaction {
        signature: Signature([5; 64]),
        transaction: VersionedTransaction { signatures: vec![Signature([5; 64])], message: VersionedMessage::Legacy(message) },
        meta: empty_meta(),
        slot: 12345,
        block_time: Some(1678901234),
    }
}

fn create_test_reward() -> SolanaReward {
    SolanaReward {
        pubkey: "TestPubkey".to_string(),
        lamports: 1000,
        reward_type: "TestReward".to_string(),
        commission: Some(5),
    }
}

#[test]
fn test_solana_reward_creation() {
    let reward = create_test_reward();

    assert_eq!(reward.pubkey, "TestPubkey");
    assert_eq!(reward.lamports, 1000);
    assert_eq!(reward.reward_type, "TestReward");
    assert_eq!(reward.commission, Some(5));
}

#[test]
fn test_solana_block_creation() {
    let slot = 12345;
    let blockhash = "test_blockhash".to_string();
    let parent_slot = 12344;
    let block_time = Some(1678901234);
    let block_height = Some(12345);
    let transactions = vec![create_test_transaction()];
    let rewards = Some(vec![create_test_reward()]);
    let commitment = CommitmentLevel::Confirmed;

    let block = SolanaBlock::new(
        slot,
        blockhash.clone(),
        parent_slot,
        block_time,
        block_height,
        transactions.clone(),
        rewards.clone(),
        commitment,
    );

    assert_eq!(block.slot(), slot);
    assert_eq!(block.blockhash(), blockhash);
    assert_eq!(block.parent_slot(), parent_slot);
    assert_eq!(block.block_time(), block_time);
    assert_eq!(block.block_height(), block_height);
    assert_eq!(block.transactions(), transactions.as_slice());
    assert_eq!(block.rewards(), rewards.as_ref());
    assert_eq!(block.commitment(), commitment);
}

#[test]
fn test_solana_block_default_values() {
    let block = SolanaBlock::new(0, "".to_string(), 0, None, None, vec![], None, CommitmentLevel::Finalized);

    assert_eq!(block.slot(), 0);
    assert_eq!(block.blockhash(), "");
    assert_eq!(block.parent_slot(), 0);
    assert_eq!(block.block_time(), None);
    assert_eq!(block.block_height(), None);
    assert!(block.transactions().is_empty());
    assert!(block.rewards().is_none());
}

#[test]
fn test_solana_block_with_multiple_transactions() {
    let transactions = vec![create_test_transaction(), create_test_transaction(), create_test_transaction()];

    let block = SolanaBlock::new(
        12345,
        "test_blockhash".to_string(),
        12344,
        Some(1678901234),
        Some(12345),
        transactions.clone(),
        None,
        CommitmentLevel::Confirmed,
    );

    assert_eq!(block.transactions().len(), 3);
    assert_eq!(block.transactions(), transactions.as_slice());
}

#[test]
fn test_solana_block_with_multiple_rewards() {
    let rewards = Some(vec![create_test_reward(), create_test_reward(), create_test_reward()]);

    let block = SolanaBlock::new(
        12345,
        "test_blockhash".to_string(),
        12344,
        Some(1678901234),
        Some(12345),
        vec![],
        rewards.clone(),
        CommitmentLevel::Confirmed,
    );

    assert_eq!(block.rewards().unwrap().len(), 3);
    assert_eq!(block.rewards(), rewards.as_ref());
}

#[test]
fn test_signature() {
    let tx = create_test_transaction();
    assert_eq!(tx.signature(), &tx.signature);
}

#[test]
fn test_slot() {
    let tx = create_test_transaction();
    assert_eq!(tx.slot(), 12345);
}

#[test]
fn test_meta() {
    let tx = create_test_transaction();
    assert_eq!(tx.meta(), &tx.meta);
}

#[test]
fn test_message() {
    let tx = create_test_transaction();
    assert_eq!(tx.message(), &tx.transaction.message);
}

#[test]
fn test_block_time() {
    let tx = create_test_transaction();
    assert_eq!(tx.block_time(), Some(1678901234));
}

#[test]
fn test_transaction_creation_from_block() {
    let tx = create_test_transaction();
    let block = SolanaBlock::new(
        12345,
        "hash".to_string(),
        12344,
        Some(1678901234),
        Some(12345),
        vec![tx.clone()],
        None,
        CommitmentLevel::Confirmed,
    );
    let from_block = SolanaTransaction::new(&block, 0).unwrap();
    assert_eq!(from_block.signature, tx.signature);
    assert_eq!(from_block.slot, block.slot);
    assert_eq!(from_block.block_time, block.block_time);
    assert_eq!(from_block.transaction, tx.transaction);
    assert!(SolanaTransaction::new(&block, 1).is_none());
}

fn create_test_monitor() -> Monitor {
    Monitor {
        name: "KaminoLendMonitor".to_string(),
        networks: vec!["solana_mainnet".to_string()],
        paused: false,
        addresses: vec![],
        match_conditions: MatchConditions { functions: vec![], events: vec![], transactions: vec![] },
        trigger_conditions: vec![],
        triggers: vec![],
    }
}

#[test]
fn test_solana_monitor_match_creation() {
    let monitor = create_test_monitor();
    let transaction = create_test_transaction();
    let matched_on = SolanaMatchConditions { instructions: vec![], accounts: vec![], transactions: vec![] };

    let monitor_match = SolanaMonitorMatch::new(
        monitor.clone(),
        "solana_mainnet".to_string(),
        matched_on.clone(),
        None,
        transaction.clone(),
    );

    assert_eq!(monitor_match.monitor.name, "KaminoLendMonitor");
    assert_eq!(monitor_match.slot(), 12345);
    assert_eq!(monitor_match.signature(), &transaction.signature);
    assert_eq!(monitor_match.program_id(), Some(key(1)));
    assert_eq!(monitor_match.data(), Some(&vec![1, 2, 3, 4]));
    assert_eq!(monitor_match.instruction_index(), 0);
    assert_eq!(monitor_match.stack_height(), 0);
    assert_eq!(monitor_match.network_slug(), "solana_mainnet");
    assert_eq!(monitor_match.matched_on(), &matched_on);
    assert!(monitor_match.matched_on_args().is_none());
    assert_eq!(monitor_match.transaction(), &transaction);
}

#[test]
fn test_nested_instruction_handling() {
    let metadata = InstructionMetadata {
        transaction_metadata: TransactionMetadata { slot: 12345, signature: Signature([5; 64]), fee_payer: key(1), block_time: Some(1678901234) },
        stack_height: 1,
        index: 0,
    };
    let nested = NestedInstruction {
        metadata,
        instruction: solana_monitor::model::Instruction { program_id: key(4), accounts: vec![], data: vec![2, 0, 0, 0] },
        inner_instructions: vec![],
    };
    let mut forest = NestedInstructions(vec![]);
    assert!(forest.is_empty());
    forest.push(nested);
    assert_eq!(forest.len(), 1);
    assert_eq!(forest.iter()[0].instruction.data, vec![2, 0, 0, 0]);
    let tx = create_test_transaction();
    let m = SolanaMonitorMatch::new(
        create_test_monitor(),
        "solana_mainnet".to_string(),
        SolanaMatchConditions { instructions: vec![], accounts: vec![], transactions: vec![] },
        None,
        tx,
    );
    let body = match m.transaction.message() {
        VersionedMessage::Legacy(msg) => msg,
        VersionedMessage::V0(msg) => msg,
    };
    assert_eq!(body.instructions.len(), 1);
    assert_eq!(body.instructions[0].accounts.len(), 2);
}

#[test]
fn fetched_block_drops_failed_transactions() {
    let ok = create_test_transaction();
    let mut failed = create_test_transaction();
    failed.meta.succeeded = false;
    failed.slot = 1;
    let block = SolanaBlock::from_fetched(7, "h".to_string(), 6, None, Some(3), &vec![failed, ok.clone(), ok.clone()], None);
    assert_eq!(block.transactions, vec![ok.clone(), ok]);
    assert_eq!(block.commitment, CommitmentLevel::Confirmed);
    assert_eq!(block.block_height, Some(3));
}

#[test]
fn legacy_form_keeps_message_and_signature() {
    let tx = create_test_transaction();
    let legacy = tx.to_legacy();
    assert_eq!(legacy.signatures, vec![tx.signature]);
    assert_eq!(legacy.message, tx.transaction.message);
    let mut v0 = tx.clone();
    if let VersionedMessage::Legacy(m) = v0.transaction.message.clone() {
        v0.transaction.message = VersionedMessage::V0(m);
    }
    match v0.to_legacy().message {
        VersionedMessage::Legacy(m) => {
            assert!(m.account_keys.is_empty());
            assert!(m.instructions.is_empty());
        }
        VersionedMessage::V0(_) => panic!("expected a legacy message"),
    }
}

#[test]
fn decoder_type_defaults_to_nothing() {
    let d = solana_monitor::monitor::DecoderType::default();
    assert!(d.account.is_none() && d.instruction.is_none());
}
