//! Account resolution and instruction flattening: every compiled instruction
//! of a transaction, top-level and inner, becomes an instruction whose
//! accounts are concrete keys with signer and writable flags, tagged with its
//! call-stack height and the index of the top-level instruction it belongs to.
use vstd::prelude::*;
use crate::model::{
    AccountMeta, CompiledInstruction, InnerInstructions, Instruction, MessageHeader, Pubkey,
    Signature, SolanaTransaction, TransactionStatusMeta, UiCompiledInstruction, VersionedMessage,
};

verus! {

/// The bytes that base58 text stands for, or `None` where it is not base58.
pub uninterp spec fn base58_bytes(s: Seq<char>) -> Option<Seq<u8>>;

/// Relies on `bs58::decode(..).into_vec()`: the bytes that base58 text
/// stands for, or an error where a character is not of the alphabet.
#[verifier::external_body]
fn decode_base58(s: &str) -> (r: Option<Vec<u8>>)
    ensures
        r matches Some(v) ==> base58_bytes(s@) == Some(v@),
        r is None ==> base58_bytes(s@) is None,
{
    bs58::decode(s).into_vec().ok()
}

/// Transaction-level facts attached to every instruction.
#[derive(Clone, Copy, Debug, PartialEq, Eq)]
pub struct TransactionMetadata {
    pub slot: u64,
    pub signature: Signature,
    pub fee_payer: Pubkey,
    pub block_time: Option<i64>,
}

/// Where an instruction stands: its transaction, call-stack height (1 is
/// top-level) and the index of the top-level instruction it belongs to.
#[derive(Clone, Copy, Debug, PartialEq, Eq)]
pub struct InstructionMetadata {
    pub transaction_metadata: TransactionMetadata,
    pub stack_height: u32,
    pub index: u32,
}

/// Why a transaction could not be resolved.
#[derive(Clone, Copy, Debug, PartialEq, Eq)]
pub enum ResolutionError {
    /// The message lists no account, so it has no fee payer.
    MissingFeePayer,
    /// An instruction refers to an account index beyond the account table.
    AccountIndexOutOfRange,
}

/// The transaction-level facts of `tx`, when its message has a fee payer.
pub open spec fn spec_transaction_metadata(tx: SolanaTransaction) -> Option<TransactionMetadata> {
    let keys = tx.transaction.message.spec_body().account_keys@;
    if keys.len() > 0 {
        Some(
            TransactionMetadata {
                slot: tx.slot,
                signature: tx.signature,
                fee_payer: keys[0],
                block_time: tx.block_time,
            },
        )
    } else {
        None
    }
}

/// The transaction-level facts of a transaction; the fee payer is the first
/// account of its message.
pub fn transaction_metadata(tx: &SolanaTransaction) -> (r: Result<TransactionMetadata, ResolutionError>)
    ensures
        r matches Ok(m) ==> spec_transaction_metadata(*tx) == Some(m),
        r matches Err(e) ==> spec_transaction_metadata(*tx) is None && e
            == ResolutionError::MissingFeePayer,
{
    let keys = &tx.transaction.message.body().account_keys;
    if keys.len() == 0 {
        return Err(ResolutionError::MissingFeePayer);
    }
    Ok(
        TransactionMetadata {
            slot: tx.slot,
            signature: tx.signature,
            fee_payer: keys[0],
            block_time: tx.block_time,
        },
    )
}

/// The accounts that the status metadata says were loaded from address
/// tables (writable ones, read-only ones).
pub open spec fn loaded_of(meta: TransactionStatusMeta) -> (Seq<Pubkey>, Seq<Pubkey>) {
    match meta.loaded_addresses {
        Some(l) => (l.writable@, l.readonly@),
        None => (Seq::empty(), Seq::empty()),
    }
}

/// The accounts loaded for `tx`: none for a legacy message.
pub open spec fn loaded_for(tx: SolanaTransaction) -> (Seq<Pubkey>, Seq<Pubkey>) {
    match tx.transaction.message {
        VersionedMessage::Legacy(_) => (Seq::empty(), Seq::empty()),
        VersionedMessage::V0(_) => loaded_of(tx.meta),
    }
}

/// The account table of `tx`: its static keys, then the writable loaded
/// accounts, then the read-only loaded ones.
pub open spec fn account_table(tx: SolanaTransaction) -> Seq<Pubkey> {
    tx.transaction.message.spec_body().account_keys@ + loaded_for(tx).0 + loaded_for(tx).1
}

/// Whether the static account at `i` must sign.
pub open spec fn is_signer_index(h: MessageHeader, i: int) -> bool {
    i < h.num_required_signatures as int
}

/// Whether the static account at `i` (of `n` static accounts) is writable:
/// signers come first and unsigned accounts after them, and in each group
/// the read-only accounts come last.
pub open spec fn is_writable_index(h: MessageHeader, n: int, i: int) -> bool {
    let signed = h.num_required_signatures as int;
    if i < signed {
        i < signed - h.num_readonly_signed_accounts as int
    } else {
        i - signed < (n - signed) - h.num_readonly_unsigned_accounts as int
    }
}

/// The account at index `i` of the table of `tx`, with its flags. A loaded
/// account never signs, and is writable when it was loaded as writable.
pub open spec fn account_at(tx: SolanaTransaction, i: int) -> AccountMeta {
    let msg = tx.transaction.message.spec_body();
    let n = msg.account_keys@.len() as int;
    if i < n {
        AccountMeta {
            pubkey: account_table(tx)[i],
            is_signer: is_signer_index(msg.header, i),
            is_writable: is_writable_index(msg.header, n, i),
        }
    } else {
        AccountMeta {
            pubkey: account_table(tx)[i],
            is_signer: false,
            is_writable: i < n + loaded_for(tx).0.len(),
        }
    }
}

/// A compiled instruction waiting to be resolved: its metadata, program
/// index, account indices and data.
pub type PlannedInstruction = (InstructionMetadata, u8, Seq<u8>, Seq<u8>);

/// Whether every index of a planned instruction falls in the table of `tx`.
pub open spec fn resolves(tx: SolanaTransaction, e: PlannedInstruction) -> bool {
    let n = account_table(tx).len();
    &&& (e.1 as int) < n
    &&& forall|k: int| 0 <= k < e.2.len() ==> (#[trigger] e.2[k] as int) < n
}

/// A planned instruction with its indices replaced by the accounts they name.
pub open spec fn resolve_entry(tx: SolanaTransaction, e: PlannedInstruction) -> (
    InstructionMetadata,
    (Pubkey, Seq<AccountMeta>, Seq<u8>),
) {
    (e.0, (account_table(tx)[e.1 as int], e.2.map_values(|x: u8| account_at(tx, x as int)), e.3))
}

/// The inner-instruction groups of the status metadata.
pub open spec fn groups_of(meta: TransactionStatusMeta) -> Seq<InnerInstructions> {
    match meta.inner_instructions {
        Some(v) => v@,
        None => Seq::empty(),
    }
}

/// The data of an inner instruction: its base58 text decoded, or nothing
/// where the text is not base58.
pub open spec fn inner_data(u: UiCompiledInstruction) -> Seq<u8> {
    match base58_bytes(u.data@) {
        Some(b) => b,
        None => Seq::empty(),
    }
}

/// The top-level instruction at position `i`.
pub open spec fn top_entry(tm: TransactionMetadata, ci: CompiledInstruction, i: int) -> PlannedInstruction {
    (InstructionMetadata { transaction_metadata: tm, stack_height: 1, index: i as u32 }, ci.program_id_index, ci.accounts@, ci.data@)
}

/// An inner instruction of the group for top-level instruction `index`; a
/// missing height counts as 1.
pub open spec fn inner_entry(tm: TransactionMetadata, index: u8, u: UiCompiledInstruction) -> PlannedInstruction {
    (
        InstructionMetadata {
            transaction_metadata: tm,
            stack_height: match u.stack_height {
                Some(h) => h,
                None => 1,
            },
            index: index as u32,
        },
        u.program_id_index,
        u.accounts@,
        inner_data(u),
    )
}

/// The instructions of one inner-instruction group, in order.
pub open spec fn group_plan(tm: TransactionMetadata, g: InnerInstructions) -> Seq<PlannedInstruction> {
    g.instructions@.map_values(|u: UiCompiledInstruction| inner_entry(tm, g.index, u))
}

/// The inner instructions of the first `m` groups that belong to top-level
/// instruction `i`.
pub open spec fn inner_plan(tm: TransactionMetadata, groups: Seq<InnerInstructions>, i: int, m: int) -> Seq<PlannedInstruction>
    decreases m,
{
    if m <= 0 || m > groups.len() {
        Seq::empty()
    } else {
        inner_plan(tm, groups, i, m - 1) + if groups[m - 1].index as int == i {
            group_plan(tm, groups[m - 1])
        } else {
            Seq::empty()
        }
    }
}

/// The first `n` top-level instructions, each followed by its inner ones.
pub open spec fn plan_upto(tm: TransactionMetadata, tx: SolanaTransaction, n: int) -> Seq<PlannedInstruction>
    decreases n,
{
    let instrs = tx.transaction.message.spec_body().instructions@;
    let groups = groups_of(tx.meta);
    if n <= 0 || n > instrs.len() {
        Seq::empty()
    } else {
        plan_upto(tm, tx, n - 1) + seq![top_entry(tm, instrs[n - 1], n - 1)] + inner_plan(
            tm,
            groups,
            n - 1,
            groups.len() as int,
        )
    }
}

/// Every instruction of `tx`, in emission order, before resolution.
pub open spec fn plan(tm: TransactionMetadata, tx: SolanaTransaction) -> Seq<PlannedInstruction> {
    plan_upto(tm, tx, tx.transaction.message.spec_body().instructions@.len() as int)
}

/// Whether every instruction of `tx` resolves.
pub open spec fn plan_resolves(tm: TransactionMetadata, tx: SolanaTransaction) -> bool {
    forall|k: int| 0 <= k < plan(tm, tx).len() ==> resolves(tx, #[trigger] plan(tm, tx)[k])
}

/// The flattened instructions of `tx`, each with its metadata.
pub open spec fn flattened(tm: TransactionMetadata, tx: SolanaTransaction) -> Seq<
    (InstructionMetadata, (Pubkey, Seq<AccountMeta>, Seq<u8>)),
> {
    plan(tm, tx).map_values(|e: PlannedInstruction| resolve_entry(tx, e))
}

/// The view of a flat list of instructions with their metadata.
pub open spec fn flat_view(v: Seq<(InstructionMetadata, Instruction)>) -> Seq<
    (InstructionMetadata, (Pubkey, Seq<AccountMeta>, Seq<u8>)),
> {
    v.map_values(|p: (InstructionMetadata, Instruction)| (p.0, p.1@))
}

proof fn lemma_push_map<A, B>(s: Seq<A>, x: A, f: spec_fn(A) -> B)
    ensures
        s.push(x).map_values(f) == s.map_values(f).push(f(x)),
{
    assert(s.push(x).map_values(f) =~= s.map_values(f).push(f(x)));
}

/// The table of accounts that instructions of `tx` index into.
pub(crate) fn build_table(tx: &SolanaTransaction) -> (r: Vec<Pubkey>)
    ensures
        r@ == account_table(*tx),
{
    let msg = tx.transaction.message.body();
    let mut t: Vec<Pubkey> = Vec::new();
    let mut i: usize = 0;
    while i < msg.account_keys.len()
        invariant
            i <= msg.account_keys.len(),
            t@ == msg.account_keys@.take(i as int),
        decreases msg.account_keys.len() - i,
    {
        t.push(msg.account_keys[i]);
        i = i + 1;
        assert(t@ =~= msg.account_keys@.take(i as int));
    }
    assert(msg.account_keys@.take(i as int) =~= msg.account_keys@);
    match (&tx.transaction.message, &tx.meta.loaded_addresses) {
        (VersionedMessage::V0(_), Some(l)) => {
            let ghost base = t@;
            let mut j: usize = 0;
            while j < l.writable.len()
                invariant
                    j <= l.writable.len(),
                    t@ == base + l.writable@.take(j as int),
                decreases l.writable.len() - j,
            {
                t.push(l.writable[j]);
                j = j + 1;
                assert(t@ =~= base + l.writable@.take(j as int));
            }
            assert(l.writable@.take(j as int) =~= l.writable@);
            let ghost mid = t@;
            let mut k: usize = 0;
            while k < l.readonly.len()
                invariant
                    k <= l.readonly.len(),
                    t@ == mid + l.readonly@.take(k as int),
                decreases l.readonly.len() - k,
            {
                t.push(l.readonly[k]);
                k = k + 1;
                assert(t@ =~= mid + l.readonly@.take(k as int));
            }
            assert(l.readonly@.take(k as int) =~= l.readonly@);
        },
        _ => {
            assert(t@ =~= t@ + Seq::<Pubkey>::empty() + Seq::<Pubkey>::empty());
        },
    }
    t
}

/// The account of `tx` at table index `i`, with its flags.
fn account_meta(tx: &SolanaTransaction, table: &Vec<Pubkey>, i: u8) -> (r: AccountMeta)
    requires
        table@ == account_table(*tx),
        (i as int) < table.len(),
    ensures
        r == account_at(*tx, i as int),
{
    let msg = tx.transaction.message.body();
    let n = msg.account_keys.len();
    let idx = i as usize;
    if idx < n {
        let signed = msg.header.num_required_signatures as usize;
        let is_writable = if idx < signed {
            idx + (msg.header.num_readonly_signed_accounts as usize) < signed
        } else {
            (idx - signed) + (msg.header.num_readonly_unsigned_accounts as usize) < n - signed
        };
        AccountMeta { pubkey: table[idx], is_signer: idx < signed, is_writable }
    } else {
        let writable: usize = match (&tx.transaction.message, &tx.meta.loaded_addresses) {
            (VersionedMessage::V0(_), Some(l)) => l.writable.len(),
            _ => 0,
        };
        AccountMeta { pubkey: table[idx], is_signer: false, is_writable: idx - n < writable }
    }
}

/// Resolves one compiled instruction against the table of `tx`.
fn resolve_one(
    tx: &SolanaTransaction,
    table: &Vec<Pubkey>,
    program_id_index: u8,
    accounts: &Vec<u8>,
    data: Vec<u8>,
) -> (r: Option<Instruction>)
    requires
        table@ == account_table(*tx),
    ensures
        r matches Some(ix) ==> ix@ == (
            account_table(*tx)[program_id_index as int],
            accounts@.map_values(|x: u8| account_at(*tx, x as int)),
            data@,
        ),
        r is Some <==> ((program_id_index as int) < account_table(*tx).len() && forall|k: int|
            0 <= k < accounts@.len() ==> (#[trigger] accounts@[k] as int) < account_table(
                *tx,
            ).len()),
{
    if program_id_index as usize >= table.len() {
        return None;
    }
    let mut metas: Vec<AccountMeta> = Vec::new();
    let mut k: usize = 0;
    while k < accounts.len()
        invariant
            table@ == account_table(*tx),
            k <= accounts.len(),
            forall|t: int| 0 <= t < k ==> (#[trigger] accounts@[t] as int) < table.len(),
            metas@ == accounts@.take(k as int).map_values(|x: u8| account_at(*tx, x as int)),
        decreases accounts.len() - k,
    {
        let a = accounts[k];
        if a as usize >= table.len() {
            return None;
        }
        let m = account_meta(tx, table, a);
        proof {
            lemma_push_map(accounts@.take(k as int), a, |x: u8| account_at(*tx, x as int));
            assert(accounts@.take(k + 1) =~= accounts@.take(k as int).push(a));
        }
        metas.push(m);
        k = k + 1;
    }
    assert(accounts@.take(k as int) =~= accounts@);
    Some(Instruction { program_id: table[program_id_index as usize], accounts: metas, data })
}

/// Flattens `transaction` into its instructions in emission order: each
/// top-level instruction (height 1, its own position as index), followed by
/// the inner instructions of every group that names that position (their
/// own heights, the group's index). Fails when any index falls outside the
/// account table.
pub fn extract_instructions_with_metadata(
    transaction_metadata: &TransactionMetadata,
    transaction: &SolanaTransaction,
) -> (r: Result<Vec<(InstructionMetadata, Instruction)>, ResolutionError>)
    ensures
        r matches Ok(v) ==> plan_resolves(*transaction_metadata, *transaction) && flat_view(v@)
            == flattened(*transaction_metadata, *transaction),
        r matches Err(e) ==> !plan_resolves(*transaction_metadata, *transaction) && e
            == ResolutionError::AccountIndexOutOfRange,
{
    let ghost tm = *transaction_metadata;
    let ghost tx = *transaction;
    let tmv = *transaction_metadata;
    let table = build_table(transaction);
    let msg = transaction.transaction.message.body();
    let empty: Vec<InnerInstructions> = Vec::new();
    let groups: &Vec<InnerInstructions> = match &transaction.meta.inner_instructions {
        Some(v) => v,
        None => &empty,
    };
    assert(groups@ == groups_of(tx.meta));
    let mut out: Vec<(InstructionMetadata, Instruction)> = Vec::new();
    let mut i: usize = 0;
    while i < msg.instructions.len()
        invariant
            tm == *transaction_metadata,
            tx == *transaction,
            tmv == tm,
            table@ == account_table(tx),
            msg == tx.transaction.message.spec_body(),
            groups@ == groups_of(tx.meta),
            i <= msg.instructions.len(),
            flat_view(out@) == plan_upto(tm, tx, i as int).map_values(
                |e: PlannedInstruction| resolve_entry(tx, e),
            ),
            forall|k: int|
                0 <= k < plan_upto(tm, tx, i as int).len() ==> resolves(
                    tx,
                    #[trigger] plan_upto(tm, tx, i as int)[k],
                ),
        decreases msg.instructions.len() - i,
    {
        let ghost before = plan_upto(tm, tx, i as int);
        let ci = &msg.instructions[i];
        let md = InstructionMetadata {
            transaction_metadata: tmv,
            stack_height: 1,
            index: #[verifier::truncate] (i as u32),
        };
        let ghost top = top_entry(tm, *ci, i as int);
        assert(md == top.0);
        match resolve_one(transaction, &table, ci.program_id_index, &ci.accounts, crate::model::copy_vec(&ci.data)) {
            Some(ix) => {
                proof {
                    lemma_push_map(out@, (md, ix), |p: (InstructionMetadata, Instruction)| (p.0, p.1@));
                    lemma_push_map(before, top, |e: PlannedInstruction| resolve_entry(tx, e));
                    assert(resolves(tx, top));
                }
                out.push((md, ix));
            },
            None => {
                proof {
                    let all = plan_upto(tm, tx, i + 1);
                    assert(all == before + seq![top] + inner_plan(tm, groups_of(tx.meta), i as int, groups@.len() as int));
                    assert(all[before.len() as int] == top);
                    lemma_plan_prefix(tm, tx, i + 1, msg.instructions@.len() as int);
                    assert(plan(tm, tx)[before.len() as int] == top);
                }
                return Err(ResolutionError::AccountIndexOutOfRange);
            },
        }
        let ghost with_top = before.push(top);
        let mut m: usize = 0;
        while m < groups.len()
            invariant
                tm == *transaction_metadata,
                tx == *transaction,
                tmv == tm,
                table@ == account_table(tx),
                msg == tx.transaction.message.spec_body(),
                groups@ == groups_of(tx.meta),
                i < msg.instructions.len(),
                m <= groups.len(),
                with_top == plan_upto(tm, tx, i as int).push(top_entry(tm, msg.instructions@[i as int], i as int)),
                flat_view(out@) == (with_top + inner_plan(tm, groups@, i as int, m as int)).map_values(
                    |e: PlannedInstruction| resolve_entry(tx, e),
                ),
                forall|k: int|
                    0 <= k < (with_top + inner_plan(tm, groups@, i as int, m as int)).len() ==> resolves(
                        tx,
                        #[trigger] (with_top + inner_plan(tm, groups@, i as int, m as int))[k],
                    ),
            decreases groups.len() - m,
        {
            let g = &groups[m];
            let ghost done = with_top + inner_plan(tm, groups@, i as int, m as int);
            if g.index as usize == i {
                let mut j: usize = 0;
                while j < g.instructions.len()
                    invariant
                        tm == *transaction_metadata,
                        tx == *transaction,
                        tmv == tm,
                        table@ == account_table(tx),
                        groups@ == groups_of(tx.meta),
                        m < groups.len(),
                        *g == groups@[m as int],
                        g.index as int == i as int,
                        i < msg.instructions.len(),
                        msg == tx.transaction.message.spec_body(),
                        with_top == plan_upto(tm, tx, i as int).push(top_entry(tm, msg.instructions@[i as int], i as int)),
                        j <= g.instructions.len(),
                        done == with_top + inner_plan(tm, groups@, i as int, m as int),
                        flat_view(out@) == (done + group_plan(tm, *g).take(j as int)).map_values(
                            |e: PlannedInstruction| resolve_entry(tx, e),
                        ),
                        forall|k: int|
                            0 <= k < (done + group_plan(tm, *g).take(j as int)).len() ==> resolves(
                                tx,
                                #[trigger] (done + group_plan(tm, *g).take(j as int))[k],
                            ),
                    decreases g.instructions.len() - j,
                {
                    let u = &g.instructions[j];
                    let data = match decode_base58(u.data.as_str()) {
                        Some(b) => b,
                        None => Vec::new(),
                    };
                    let md = InstructionMetadata {
                        transaction_metadata: tmv,
                        stack_height: match u.stack_height {
                            Some(h) => h,
                            None => 1,
                        },
                        index: g.index as u32,
                    };
                    let ghost e = inner_entry(tm, g.index, *u);
                    assert(group_plan(tm, *g)[j as int] == e);
                    assert(md == e.0);
                    assert(data@ == e.3);
                    assert(group_plan(tm, *g).take(j + 1) =~= group_plan(tm, *g).take(j as int).push(e));
                    assert(done + group_plan(tm, *g).take(j + 1) =~= (done + group_plan(tm, *g).take(j as int)).push(e));
                    match resolve_one(transaction, &table, u.program_id_index, &u.accounts, data) {
                        Some(ix) => {
                            proof {
                                lemma_push_map(out@, (md, ix), |p: (InstructionMetadata, Instruction)| (p.0, p.1@));
                                lemma_push_map(done + group_plan(tm, *g).take(j as int), e, |e: PlannedInstruction| resolve_entry(tx, e));
                            }
                            out.push((md, ix));
                        },
                        None => {
                            proof {
                                let pre = done + group_plan(tm, *g).take(j as int);
                                lemma_inner_plan_member(tm, groups@, i as int, m as int, j as int);
                                assert(e.1 == u.program_id_index && e.2 == u.accounts@);
                                assert(!resolves(tx, e));
                                lemma_plan_prefix(tm, tx, i + 1, msg.instructions@.len() as int);
                                let whole = with_top + inner_plan(tm, groups@, i as int, groups@.len() as int);
                                assert(plan_upto(tm, tx, i + 1) == whole);
                                assert(pre.len() == with_top.len() + inner_plan(tm, groups@, i as int, m as int).len() + j);
                                assert(whole[pre.len() as int] == e);
                                assert(plan(tm, tx)[pre.len() as int] == e);
                            }
                            return Err(ResolutionError::AccountIndexOutOfRange);
                        },
                    }
                    j = j + 1;
                }
                proof {
                    assert(group_plan(tm, *g).take(j as int) =~= group_plan(tm, *g));
                    assert(inner_plan(tm, groups@, i as int, m + 1) == inner_plan(tm, groups@, i as int, m as int) + group_plan(tm, groups@[m as int]));
                    assert(with_top + inner_plan(tm, groups@, i as int, m + 1) =~= done + group_plan(tm, *g));
                }
            } else {
                proof {
                    assert(inner_plan(tm, groups@, i as int, m + 1) =~= inner_plan(tm, groups@, i as int, m as int));
                }
            }
            m = m + 1;
        }
        proof {
            assert(plan_upto(tm, tx, i + 1) =~= with_top + inner_plan(tm, groups@, i as int, groups@.len() as int));
        }
        i = i + 1;
    }
    Ok(out)
}

/// The instructions planned for the first `n` top-level ones lead those
/// planned for the first `m`.
proof fn lemma_plan_prefix(tm: TransactionMetadata, tx: SolanaTransaction, n: int, m: int)
    requires
        0 <= n <= m <= tx.transaction.message.spec_body().instructions@.len(),
    ensures
        plan_upto(tm, tx, n).len() <= plan_upto(tm, tx, m).len(),
        forall|k: int| 0 <= k < plan_upto(tm, tx, n).len() ==> plan_upto(tm, tx, m)[k] == plan_upto(tm, tx, n)[k],
    decreases m - n,
{
    if n < m {
        lemma_plan_prefix(tm, tx, n, m - 1);
    }
}

/// The `j`-th instruction of group `m`, when that group belongs to
/// top-level instruction `i`, stands in the inner plan right after the
/// groups before it.
proof fn lemma_inner_plan_member(tm: TransactionMetadata, groups: Seq<InnerInstructions>, i: int, m: int, j: int)
    requires
        0 <= m < groups.len(),
        groups[m].index as int == i,
        0 <= j < groups[m].instructions@.len(),
    ensures
        inner_plan(tm, groups, i, groups.len() as int).len() > inner_plan(tm, groups, i, m).len() + j,
        inner_plan(tm, groups, i, groups.len() as int)[inner_plan(tm, groups, i, m).len() + j]
            == group_plan(tm, groups[m])[j],
{
    lemma_inner_plan_prefix(tm, groups, i, m + 1, groups.len() as int);
    assert(inner_plan(tm, groups, i, m + 1) == inner_plan(tm, groups, i, m) + group_plan(tm, groups[m]));
}

proof fn lemma_inner_plan_prefix(tm: TransactionMetadata, groups: Seq<InnerInstructions>, i: int, n: int, m: int)
    requires
        0 <= n <= m <= groups.len(),
    ensures
        inner_plan(tm, groups, i, n).len() <= inner_plan(tm, groups, i, m).len(),
        forall|k: int| 0 <= k < inner_plan(tm, groups, i, n).len() ==> inner_plan(tm, groups, i, m)[k] == inner_plan(tm, groups, i, n)[k],
    decreases m - n,
{
    if n < m {
        lemma_inner_plan_prefix(tm, groups, i, n, m - 1);
    }
}

} // verus!
