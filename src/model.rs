//! The chain data that the matcher reads: keys, signatures, compiled
//! messages with their status metadata, transactions and blocks.
use vstd::prelude::*;

verus! {

/// A 32-byte account address.
#[derive(Clone, Copy, Debug, PartialEq, Eq, Hash)]
pub struct Pubkey(pub [u8; 32]);

/// A 64-byte transaction signature.
#[derive(Clone, Copy, Debug, PartialEq, Eq)]
pub struct Signature(pub [u8; 64]);

/// An account that an instruction reads, with its signer and writable flags.
#[derive(Clone, Copy, Debug, PartialEq, Eq)]
pub struct AccountMeta {
    pub pubkey: Pubkey,
    pub is_signer: bool,
    pub is_writable: bool,
}

/// An instruction with every account reference resolved.
#[derive(Clone, Debug, PartialEq)]
pub struct Instruction {
    pub program_id: Pubkey,
    pub accounts: Vec<AccountMeta>,
    pub data: Vec<u8>,
}

impl View for Instruction {
    type V = (Pubkey, Seq<AccountMeta>, Seq<u8>);

    open spec fn view(&self) -> (Pubkey, Seq<AccountMeta>, Seq<u8>) {
        (self.program_id, self.accounts@, self.data@)
    }
}

/// A copy of every element of `v`.
pub fn copy_vec<T: Copy>(v: &Vec<T>) -> (r: Vec<T>)
    ensures
        r@ == v@,
{
    let mut r: Vec<T> = Vec::new();
    let mut i: usize = 0;
    while i < v.len()
        invariant
            i <= v.len(),
            r@ == v@.take(i as int),
        decreases v.len() - i,
    {
        r.push(v[i]);
        i = i + 1;
        assert(r@ =~= v@.take(i as int));
    }
    assert(v@.take(i as int) =~= v@);
    r
}

/// A copy of a list of strings.
pub fn copy_strings(v: &Vec<String>) -> (r: Vec<String>)
    ensures
        r@ == v@,
{
    let mut r: Vec<String> = Vec::new();
    let mut i: usize = 0;
    while i < v.len()
        invariant
            i <= v.len(),
            r@ == v@.take(i as int),
        decreases v.len() - i,
    {
        r.push(v[i].clone());
        i = i + 1;
        assert(r@ =~= v@.take(i as int));
    }
    assert(v@.take(i as int) =~= v@);
    r
}

impl Instruction {
    /// A copy of this instruction.
    pub fn duplicate(&self) -> (r: Instruction)
        ensures
            r@ == self@,
    {
        Instruction {
            program_id: self.program_id,
            accounts: copy_vec(&self.accounts),
            data: copy_vec(&self.data),
        }
    }
}

/// The counts at the head of a message that fix each account's flags.
#[derive(Clone, Copy, Debug, PartialEq, Eq)]
pub struct MessageHeader {
    pub num_required_signatures: u8,
    pub num_readonly_signed_accounts: u8,
    pub num_readonly_unsigned_accounts: u8,
}

/// An instruction whose program and accounts are indices into the
/// transaction's account table.
#[derive(Clone, Debug, PartialEq)]
pub struct CompiledInstruction {
    pub program_id_index: u8,
    pub accounts: Vec<u8>,
    pub data: Vec<u8>,
}

/// A compiled inner instruction as the status metadata reports it: its data
/// is base58 text, and it may carry its call-stack height.
#[derive(Clone, Debug, PartialEq)]
pub struct UiCompiledInstruction {
    pub program_id_index: u8,
    pub accounts: Vec<u8>,
    pub data: String,
    pub stack_height: Option<u32>,
}

/// The inner instructions that the top-level instruction at `index` invoked.
#[derive(Clone, Debug, PartialEq)]
pub struct InnerInstructions {
    pub index: u8,
    pub instructions: Vec<UiCompiledInstruction>,
}

/// Accounts that a versioned message loaded from address tables.
#[derive(Clone, Debug, PartialEq)]
pub struct LoadedAddresses {
    pub writable: Vec<Pubkey>,
    pub readonly: Vec<Pubkey>,
}

/// The account table and instructions of a message.
#[derive(Clone, Debug, PartialEq)]
pub struct Message {
    pub header: MessageHeader,
    pub account_keys: Vec<Pubkey>,
    pub recent_blockhash: Pubkey,
    pub instructions: Vec<CompiledInstruction>,
}

/// A compiled instruction seen as plain values.
pub open spec fn compiled_view(c: CompiledInstruction) -> (u8, Seq<u8>, Seq<u8>) {
    (c.program_id_index, c.accounts@, c.data@)
}

/// A message seen as plain values.
pub open spec fn message_view(m: Message) -> (MessageHeader, Seq<Pubkey>, Pubkey, Seq<(u8, Seq<u8>, Seq<u8>)>) {
    (m.header, m.account_keys@, m.recent_blockhash, m.instructions@.map_values(|c: CompiledInstruction| compiled_view(c)))
}

impl CompiledInstruction {
    /// A copy of this instruction.
    pub fn duplicate(&self) -> (r: CompiledInstruction)
        ensures
            compiled_view(r) == compiled_view(*self),
    {
        CompiledInstruction { program_id_index: self.program_id_index, accounts: copy_vec(&self.accounts), data: copy_vec(&self.data) }
    }
}

impl Message {
    /// A copy of this message.
    pub fn duplicate(&self) -> (r: Message)
        ensures
            message_view(r) == message_view(*self),
    {
        let mut instructions: Vec<CompiledInstruction> = Vec::new();
        let mut i: usize = 0;
        while i < self.instructions.len()
            invariant
                i <= self.instructions.len(),
                instructions@.map_values(|c: CompiledInstruction| compiled_view(c)) == self.instructions@.take(i as int).map_values(|c: CompiledInstruction| compiled_view(c)),
            decreases self.instructions.len() - i,
        {
            let c = self.instructions[i].duplicate();
            proof {
                assert(instructions@.push(c).map_values(|c: CompiledInstruction| compiled_view(c)) =~= instructions@.map_values(|c: CompiledInstruction| compiled_view(c)).push(compiled_view(c)));
                assert(self.instructions@.take(i + 1).map_values(|c: CompiledInstruction| compiled_view(c)) =~= self.instructions@.take(i as int).map_values(|c: CompiledInstruction| compiled_view(c)).push(compiled_view(self.instructions@[i as int])));
            }
            instructions.push(c);
            i = i + 1;
        }
        assert(self.instructions@.take(i as int) =~= self.instructions@);
        Message {
            header: self.header,
            account_keys: copy_vec(&self.account_keys),
            recent_blockhash: self.recent_blockhash,
            instructions,
        }
    }
}

/// A legacy message, or a versioned one that may load accounts from address
/// tables.
#[derive(Clone, Debug, PartialEq)]
pub enum VersionedMessage {
    Legacy(Message),
    V0(Message),
}

impl VersionedMessage {
    /// The message's own part, whichever its version.
    pub fn body(&self) -> (r: &Message)
        ensures
            r == self.spec_body(),
    {
        match self {
            VersionedMessage::Legacy(m) => m,
            VersionedMessage::V0(m) => m,
        }
    }

    pub open spec fn spec_body(&self) -> Message {
        match self {
            VersionedMessage::Legacy(m) => *m,
            VersionedMessage::V0(m) => *m,
        }
    }
}

/// A versioned message seen as plain values: whether it is versioned, and
/// its body.
pub open spec fn versioned_view(m: VersionedMessage) -> (bool, (MessageHeader, Seq<Pubkey>, Pubkey, Seq<(u8, Seq<u8>, Seq<u8>)>)) {
    match m {
        VersionedMessage::Legacy(b) => (false, message_view(b)),
        VersionedMessage::V0(b) => (true, message_view(b)),
    }
}

/// A signed message.
#[derive(Clone, Debug, PartialEq)]
pub struct VersionedTransaction {
    pub signatures: Vec<Signature>,
    pub message: VersionedMessage,
}

/// An inner instruction seen as plain values.
pub open spec fn ui_view(u: UiCompiledInstruction) -> (u8, Seq<u8>, Seq<char>, Option<u32>) {
    (u.program_id_index, u.accounts@, u.data@, u.stack_height)
}

/// An inner-instruction group seen as plain values.
pub open spec fn group_view(g: InnerInstructions) -> (u8, Seq<(u8, Seq<u8>, Seq<char>, Option<u32>)>) {
    (g.index, g.instructions@.map_values(|u: UiCompiledInstruction| ui_view(u)))
}

impl InnerInstructions {
    /// A copy of this group.
    pub fn duplicate(&self) -> (r: InnerInstructions)
        ensures
            group_view(r) == group_view(*self),
    {
        let mut v: Vec<UiCompiledInstruction> = Vec::new();
        let mut i: usize = 0;
        while i < self.instructions.len()
            invariant
                i <= self.instructions.len(),
                v@.map_values(|u: UiCompiledInstruction| ui_view(u)) == self.instructions@.take(i as int).map_values(|u: UiCompiledInstruction| ui_view(u)),
            decreases self.instructions.len() - i,
        {
            let u = &self.instructions[i];
            let c = UiCompiledInstruction { program_id_index: u.program_id_index, accounts: copy_vec(&u.accounts), data: u.data.clone(), stack_height: u.stack_height };
            proof {
                assert(v@.push(c).map_values(|u: UiCompiledInstruction| ui_view(u)) =~= v@.map_values(|u: UiCompiledInstruction| ui_view(u)).push(ui_view(c)));
                assert(self.instructions@.take(i + 1).map_values(|u: UiCompiledInstruction| ui_view(u)) =~= self.instructions@.take(i as int).map_values(|u: UiCompiledInstruction| ui_view(u)).push(ui_view(*u)));
            }
            v.push(c);
            i = i + 1;
        }
        assert(self.instructions@.take(i as int) =~= self.instructions@);
        InnerInstructions { index: self.index, instructions: v }
    }
}

/// Status metadata seen as plain values.
pub open spec fn meta_view(m: TransactionStatusMeta) -> (
    bool,
    u64,
    Seq<u64>,
    Seq<u64>,
    Option<Seq<(u8, Seq<(u8, Seq<u8>, Seq<char>, Option<u32>)>)>>,
    Option<Seq<String>>,
    Option<(Seq<Pubkey>, Seq<Pubkey>)>,
    Option<u64>,
) {
    (
        m.succeeded,
        m.fee,
        m.pre_balances@,
        m.post_balances@,
        match m.inner_instructions {
            Some(v) => Some(v@.map_values(|g: InnerInstructions| group_view(g))),
            None => None,
        },
        match m.log_messages {
            Some(v) => Some(v@),
            None => None,
        },
        match m.loaded_addresses {
            Some(l) => Some((l.writable@, l.readonly@)),
            None => None,
        },
        m.compute_units_consumed,
    )
}

impl TransactionStatusMeta {
    /// A copy of this metadata.
    pub fn duplicate(&self) -> (r: TransactionStatusMeta)
        ensures
            meta_view(r) == meta_view(*self),
    {
        let inner = match &self.inner_instructions {
            Some(groups) => {
                let mut v: Vec<InnerInstructions> = Vec::new();
                let mut i: usize = 0;
                while i < groups.len()
                    invariant
                        i <= groups.len(),
                        v@.map_values(|g: InnerInstructions| group_view(g)) == groups@.take(i as int).map_values(|g: InnerInstructions| group_view(g)),
                    decreases groups.len() - i,
                {
                    let c = groups[i].duplicate();
                    proof {
                        assert(v@.push(c).map_values(|g: InnerInstructions| group_view(g)) =~= v@.map_values(|g: InnerInstructions| group_view(g)).push(group_view(c)));
                        assert(groups@.take(i + 1).map_values(|g: InnerInstructions| group_view(g)) =~= groups@.take(i as int).map_values(|g: InnerInstructions| group_view(g)).push(group_view(groups@[i as int])));
                    }
                    v.push(c);
                    i = i + 1;
                }
                assert(groups@.take(i as int) =~= groups@);
                Some(v)
            },
            None => None,
        };
        let logs = match &self.log_messages {
            Some(v) => Some(copy_strings(v)),
            None => None,
        };
        let loaded = match &self.loaded_addresses {
            Some(l) => Some(LoadedAddresses { writable: copy_vec(&l.writable), readonly: copy_vec(&l.readonly) }),
            None => None,
        };
        TransactionStatusMeta {
            succeeded: self.succeeded,
            fee: self.fee,
            pre_balances: copy_vec(&self.pre_balances),
            post_balances: copy_vec(&self.post_balances),
            inner_instructions: inner,
            log_messages: logs,
            loaded_addresses: loaded,
            compute_units_consumed: self.compute_units_consumed,
        }
    }
}

/// What the chain reports of a transaction's execution.
#[derive(Clone, Debug, PartialEq)]
pub struct TransactionStatusMeta {
    /// Whether the transaction succeeded
    pub succeeded: bool,
    /// Fee paid for the transaction
    pub fee: u64,
    /// Account balances before the transaction
    pub pre_balances: Vec<u64>,
    /// Account balances after the transaction
    pub post_balances: Vec<u64>,
    /// Inner instructions, grouped by the top-level instruction that invoked them
    pub inner_instructions: Option<Vec<InnerInstructions>>,
    /// Log messages
    pub log_messages: Option<Vec<String>>,
    /// Accounts loaded from address tables
    pub loaded_addresses: Option<LoadedAddresses>,
    /// Compute units consumed
    pub compute_units_consumed: Option<u64>,
}

/// Status metadata that reports nothing: success, no fee, no balances, no
/// inner instructions, logs or loaded accounts.
pub open spec fn is_empty_meta(m: TransactionStatusMeta) -> bool {
    &&& m.succeeded
    &&& m.fee == 0
    &&& m.pre_balances@.len() == 0
    &&& m.post_balances@.len() == 0
    &&& m.inner_instructions is None
    &&& m.log_messages is None
    &&& m.loaded_addresses is None
    &&& m.compute_units_consumed is None
}

/// Status metadata that reports nothing.
pub fn default_ui_transaction_status_meta() -> (r: TransactionStatusMeta)
    ensures
        is_empty_meta(r),
{
    TransactionStatusMeta {
        succeeded: true,
        fee: 0,
        pre_balances: Vec::new(),
        post_balances: Vec::new(),
        inner_instructions: None,
        log_messages: None,
        loaded_addresses: None,
        compute_units_consumed: None,
    }
}

/// A transaction as a block holds it.
#[derive(Clone, Debug, PartialEq)]
pub struct SolanaTransaction {
    /// The unique signature of this transaction
    pub signature: Signature,
    /// The signed message
    pub transaction: VersionedTransaction,
    /// Its status metadata
    pub meta: TransactionStatusMeta,
    /// The slot in which it was processed
    pub slot: u64,
    /// The Unix time at which it was processed
    pub block_time: Option<i64>,
}

impl View for SolanaTransaction {
    type V = (
        Signature,
        Seq<Signature>,
        (bool, (MessageHeader, Seq<Pubkey>, Pubkey, Seq<(u8, Seq<u8>, Seq<u8>)>)),
        (
            bool,
            u64,
            Seq<u64>,
            Seq<u64>,
            Option<Seq<(u8, Seq<(u8, Seq<u8>, Seq<char>, Option<u32>)>)>>,
            Option<Seq<String>>,
            Option<(Seq<Pubkey>, Seq<Pubkey>)>,
            Option<u64>,
        ),
        u64,
        Option<i64>,
    );

    open spec fn view(&self) -> Self::V {
        (
            self.signature,
            self.transaction.signatures@,
            versioned_view(self.transaction.message),
            meta_view(self.meta),
            self.slot,
            self.block_time,
        )
    }
}

impl SolanaTransaction {
    /// The transaction at `tx_index` of the block, with the block's slot and
    /// time and empty status metadata; `None` past the last transaction.
    pub fn new(block: &SolanaBlock, tx_index: usize) -> (r: Option<SolanaTransaction>)
        ensures
            r is Some <==> tx_index < block.transactions@.len(),
            r matches Some(t) ==> {
                let src = block.transactions@[tx_index as int];
                &&& t.signature == src.signature
                &&& t.transaction.signatures@ == src.transaction.signatures@
                &&& versioned_view(t.transaction.message) == versioned_view(src.transaction.message)
                &&& is_empty_meta(t.meta)
                &&& t.slot == block.slot
                &&& t.block_time == block.block_time
            },
    {
        if tx_index >= block.transactions.len() {
            return None;
        }
        let tx = &block.transactions[tx_index];
        let message = match &tx.transaction.message {
            VersionedMessage::Legacy(m) => VersionedMessage::Legacy(m.duplicate()),
            VersionedMessage::V0(m) => VersionedMessage::V0(m.duplicate()),
        };
        Some(SolanaTransaction {
            signature: tx.signature,
            transaction: VersionedTransaction { signatures: copy_vec(&tx.transaction.signatures), message },
            meta: default_ui_transaction_status_meta(),
            slot: block.slot,
            block_time: block.block_time,
        })
    }

    /// The transaction as a legacy one signed by its own signature: a legacy
    /// message is kept, a versioned one gives way to an empty message.
    pub fn to_legacy(&self) -> (r: VersionedTransaction)
        ensures
            r.signatures@ == seq![self.signature],
            r.message matches VersionedMessage::Legacy(m) && match self.transaction.message {
                VersionedMessage::Legacy(src) => message_view(m) == message_view(src),
                VersionedMessage::V0(_) => m.account_keys@.len() == 0 && m.instructions@.len() == 0,
            },
    {
        let message = match &self.transaction.message {
            VersionedMessage::Legacy(m) => m.duplicate(),
            VersionedMessage::V0(_) => Message {
                header: MessageHeader { num_required_signatures: 0, num_readonly_signed_accounts: 0, num_readonly_unsigned_accounts: 0 },
                account_keys: Vec::new(),
                recent_blockhash: Pubkey([0u8; 32]),
                instructions: Vec::new(),
            },
        };
        let mut signatures: Vec<Signature> = Vec::new();
        signatures.push(self.signature);
        assert(signatures@ =~= seq![self.signature]);
        VersionedTransaction { signatures, message: VersionedMessage::Legacy(message) }
    }

    /// A copy of this transaction.
    pub fn duplicate(&self) -> (r: SolanaTransaction)
        ensures
            r@ == self@,
    {
        let message = match &self.transaction.message {
            VersionedMessage::Legacy(m) => VersionedMessage::Legacy(m.duplicate()),
            VersionedMessage::V0(m) => VersionedMessage::V0(m.duplicate()),
        };
        SolanaTransaction {
            signature: self.signature,
            transaction: VersionedTransaction { signatures: copy_vec(&self.transaction.signatures), message },
            meta: self.meta.duplicate(),
            slot: self.slot,
            block_time: self.block_time,
        }
    }

    /// The transaction's signature.
    pub fn signature(&self) -> (r: &Signature)
        ensures
            *r == self.signature,
    {
        &self.signature
    }

    /// The slot in which the transaction was processed.
    pub fn slot(&self) -> (r: u64)
        ensures
            r == self.slot,
    {
        self.slot
    }

    /// The transaction's status metadata.
    pub fn meta(&self) -> (r: &TransactionStatusMeta)
        ensures
            *r == self.meta,
    {
        &self.meta
    }

    /// The transaction's message.
    pub fn message(&self) -> (r: &VersionedMessage)
        ensures
            *r == self.transaction.message,
    {
        &self.transaction.message
    }

    /// The time at which the transaction was processed, if known.
    pub fn block_time(&self) -> (r: Option<i64>)
        ensures
            r == self.block_time,
    {
        self.block_time
    }
}

/// A reward paid in a block.
#[derive(Clone, Debug, PartialEq)]
pub struct SolanaReward {
    /// The account that received the reward
    pub pubkey: String,
    /// The amount in lamports
    pub lamports: i64,
    /// The kind of reward
    pub reward_type: String,
    /// The commission, if any
    pub commission: Option<u8>,
}

/// How final a fetched block is.
#[derive(Clone, Copy, Debug, PartialEq, Eq)]
pub enum CommitmentLevel {
    Processed,
    Confirmed,
    Finalized,
}

/// A block with its transactions.
#[derive(Clone, Debug)]
pub struct SolanaBlock {
    /// The slot of this block
    pub slot: u64,
    /// The block hash
    pub blockhash: String,
    /// The slot of the parent block
    pub parent_slot: u64,
    /// The Unix time at which the block was processed
    pub block_time: Option<i64>,
    /// The block height
    pub block_height: Option<u64>,
    /// The transactions, in order
    pub transactions: Vec<SolanaTransaction>,
    /// The rewards, if reported
    pub rewards: Option<Vec<SolanaReward>>,
    /// How final the block is
    pub commitment: CommitmentLevel,
}

/// A transaction seen as plain values.
pub open spec fn transaction_views(s: Seq<SolanaTransaction>) -> Seq<<SolanaTransaction as View>::V> {
    s.map_values(|t: SolanaTransaction| t@)
}

impl SolanaBlock {
    /// A confirmed block from what was fetched for a slot: the transactions
    /// that failed are left out, the others kept in order.
    pub fn from_fetched(
        slot: u64,
        blockhash: String,
        parent_slot: u64,
        block_time: Option<i64>,
        block_height: Option<u64>,
        fetched: &Vec<SolanaTransaction>,
        rewards: Option<Vec<SolanaReward>>,
    ) -> (r: SolanaBlock)
        ensures
            r.slot == slot,
            r.blockhash == blockhash,
            r.parent_slot == parent_slot,
            r.block_time == block_time,
            r.block_height == block_height,
            transaction_views(r.transactions@) == transaction_views(fetched@.filter(|t: SolanaTransaction| t.meta.succeeded)),
            r.rewards == rewards,
            r.commitment == CommitmentLevel::Confirmed,
    {
        broadcast use vstd::seq_lib::group_filter_ensures;
        let ghost pred = |t: SolanaTransaction| t.meta.succeeded;
        let mut kept: Vec<SolanaTransaction> = Vec::new();
        let mut i: usize = 0;
        while i < fetched.len()
            invariant
                i <= fetched.len(),
                pred == (|t: SolanaTransaction| t.meta.succeeded),
                transaction_views(kept@) == transaction_views(fetched@.take(i as int).filter(pred)),
            decreases fetched.len() - i,
        {
            let t = &fetched[i];
            proof {
                fetched@.take(i as int).lemma_filter_push(*t, pred);
                assert(fetched@.take(i + 1) =~= fetched@.take(i as int).push(*t));
            }
            if t.meta.succeeded {
                let c = t.duplicate();
                proof {
                    let f = fetched@.take(i as int).filter(pred);
                    assert(transaction_views(kept@.push(c)) =~= transaction_views(kept@).push(c@));
                    assert(transaction_views(f.push(*t)) =~= transaction_views(f).push(t@));
                }
                kept.push(c);
            }
            i = i + 1;
        }
        assert(fetched@.take(i as int) =~= fetched@);
        SolanaBlock {
            slot,
            blockhash,
            parent_slot,
            block_time,
            block_height,
            transactions: kept,
            rewards,
            commitment: CommitmentLevel::Confirmed,
        }
    }

    /// A block from its parts.
    pub fn new(
        slot: u64,
        blockhash: String,
        parent_slot: u64,
        block_time: Option<i64>,
        block_height: Option<u64>,
        transactions: Vec<SolanaTransaction>,
        rewards: Option<Vec<SolanaReward>>,
        commitment: CommitmentLevel,
    ) -> (r: SolanaBlock)
        ensures
            r.slot == slot,
            r.blockhash == blockhash,
            r.parent_slot == parent_slot,
            r.block_time == block_time,
            r.block_height == block_height,
            r.transactions == transactions,
            r.rewards == rewards,
            r.commitment == commitment,
    {
        SolanaBlock {
            slot,
            blockhash,
            parent_slot,
            block_time,
            block_height,
            transactions,
            rewards,
            commitment,
        }
    }

    /// The block's slot.
    pub fn slot(&self) -> (r: u64)
        ensures
            r == self.slot,
    {
        self.slot
    }

    /// The block's hash.
    pub fn blockhash(&self) -> (r: &str)
        ensures
            r@ == self.blockhash@,
    {
        self.blockhash.as_str()
    }

    /// The parent block's slot.
    pub fn parent_slot(&self) -> (r: u64)
        ensures
            r == self.parent_slot,
    {
        self.parent_slot
    }

    /// The block's time, if known.
    pub fn block_time(&self) -> (r: Option<i64>)
        ensures
            r == self.block_time,
    {
        self.block_time
    }

    /// The block's height, if known.
    pub fn block_height(&self) -> (r: Option<u64>)
        ensures
            r == self.block_height,
    {
        self.block_height
    }

    /// The block's transactions.
    pub fn transactions(&self) -> (r: &[SolanaTransaction])
        ensures
            r@ == self.transactions@,
    {
        self.transactions.as_slice()
    }

    /// The block's rewards, if reported.
    pub fn rewards(&self) -> (r: Option<&Vec<SolanaReward>>)
        ensures
            r == match &self.rewards {
                Some(v) => Some(v),
                None => None::<&Vec<SolanaReward>>,
            },
    {
        match &self.rewards {
            Some(v) => Some(v),
            None => None,
        }
    }

    /// The block's commitment level.
    pub fn commitment(&self) -> (r: CommitmentLevel)
        ensures
            r == self.commitment,
    {
        self.commitment
    }
}

} // verus!
