//! The monitor matcher: per (monitor, transaction) pair it evaluates the
//! transaction-level conditions, the instruction-level conditions over the
//! transaction's call tree, and whether a watched address takes part, and
//! combines them into a match record.
use vstd::prelude::*;
use crate::decoder::{
    base58_key, base58_signature, extract_params, instruction_params, pubkey_text,
    signature_text, first_decoded, decoding_view, operation_of, DecodedInstruction, Decoder, InstructionDecoder,
    InstructionType,
};
use crate::expression::{evaluate, expression_holds, params_view, ParamView};
use crate::model::{AccountMeta, Instruction, Pubkey, SolanaBlock, SolanaTransaction};
use crate::monitor::{
    Duplicate, FunctionCondition, InstructionCondition, Monitor, SolanaMatchArguments, SolanaMatchConditions,
    SolanaMatchParamEntry, SolanaMatchParamsMap, SolanaMonitorMatch, TransactionCondition,
    TransactionStatus,
};
use crate::nested::{FlatEntry, NestedInstructions};
use crate::number::{decimal, render_i64, render_u64, signed_decimal};
use crate::resolve::{
    account_table, build_table, extract_instructions_with_metadata, flat_view, flattened,
    plan_resolves, spec_transaction_metadata, transaction_metadata, InstructionMetadata,
    ResolutionError, TransactionMetadata,
};

verus! {

broadcast use vstd::seq_lib::group_filter_ensures;

/// The parameters that transaction-level expressions can test: the
/// signature, block time (0 when unknown), slot, and fee payer (when the
/// message has one).
pub open spec fn transaction_params(tx: SolanaTransaction) -> Seq<ParamView> {
    let keys = tx.transaction.message.spec_body().account_keys@;
    let bt: int = match tx.block_time {
        Some(t) => t as int,
        None => 0,
    };
    seq![
        ("signature"@, base58_signature(tx.signature.0@), "string"@),
        ("block_time"@, signed_decimal(bt), "i64"@),
        ("slot"@, decimal(tx.slot as nat), "u64"@),
    ] + if keys.len() > 0 {
        seq![("fee_payer"@, base58_key(keys[0].0@), "pubkey"@)]
    } else {
        Seq::empty()
    }
}

/// Whether a transaction condition holds: it has no expression, or its
/// expression holds of the transaction's parameters.
pub open spec fn transaction_condition_holds(tx: SolanaTransaction, c: TransactionCondition) -> bool {
    match c.expression {
        Some(e) => expression_holds(e@, transaction_params(tx)),
        None => true,
    }
}

/// The first condition at or after `i` that holds.
pub open spec fn first_transaction_condition(tx: SolanaTransaction, conds: Seq<TransactionCondition>, i: int) -> Option<int>
    decreases conds.len() - i,
{
    if i < 0 || i >= conds.len() {
        None
    } else if transaction_condition_holds(tx, conds[i]) {
        Some(i)
    } else {
        first_transaction_condition(tx, conds, i + 1)
    }
}

/// The transaction-level records for a monitor: one unconditional record
/// when it has no transaction condition, else the first condition that
/// holds, if any.
pub open spec fn transaction_matches(tx: SolanaTransaction, m: Monitor) -> Seq<TransactionCondition> {
    let conds = m.match_conditions.transactions@;
    if conds.len() == 0 {
        seq![TransactionCondition { status: TransactionStatus::Any, expression: None }]
    } else {
        match first_transaction_condition(tx, conds, 0) {
            Some(k) => seq![TransactionCondition { status: TransactionStatus::Any, expression: conds[k].expression }],
            None => Seq::empty(),
        }
    }
}

/// Whether the monitor watches the address whose base58 text is `text`.
pub open spec fn watches_text(m: Monitor, text: Seq<char>) -> bool {
    exists|a: int| 0 <= a < m.addresses@.len() && (#[trigger] m.addresses@[a]).address@ == text
}

/// Whether the monitor watches `key`.
pub open spec fn watches(m: Monitor, key: Pubkey) -> bool {
    watches_text(m, base58_key(key.0@))
}

/// Whether some account of the transaction's table is watched by the monitor.
pub open spec fn involved(m: Monitor, tx: SolanaTransaction) -> bool {
    exists|k: int| 0 <= k < account_table(tx).len() && watches(m, #[trigger] account_table(tx)[k])
}

/// Whether the transaction resolves: it has a fee payer and every account
/// index of its instructions falls in its account table.
pub open spec fn resolvable(tx: SolanaTransaction) -> bool {
    match spec_transaction_metadata(tx) {
        Some(tm) => plan_resolves(tm, tx),
        None => false,
    }
}

/// The instructions of the transaction's call tree in pre-order; none when
/// the transaction cannot be resolved.
pub open spec fn instruction_nodes(tx: SolanaTransaction) -> Seq<FlatEntry> {
    match spec_transaction_metadata(tx) {
        Some(tm) => if plan_resolves(tm, tx) {
            flattened(tm, tx)
        } else {
            Seq::empty()
        },
        None => Seq::empty(),
    }
}

/// The decoded payload counted for instruction `k`: what the decoders gave
/// for it, where its program is watched.
pub open spec fn node_decoded(m: Monitor, nodes: Seq<FlatEntry>, decoded: Seq<Option<DecodedInstruction>>, k: int) -> Option<DecodedInstruction> {
    if 0 <= k < decoded.len() && 0 <= k < nodes.len() && watches(m, nodes[k].1.0) {
        decoded[k]
    } else {
        None
    }
}

/// Whether instruction `k` meets the condition: its program is watched, it
/// decoded to the operation the condition names, and the condition's
/// expression, if any, holds of its parameters.
pub open spec fn condition_met(m: Monitor, nodes: Seq<FlatEntry>, decoded: Seq<Option<DecodedInstruction>>, k: int, c: FunctionCondition) -> bool {
    match node_decoded(m, nodes, decoded, k) {
        Some(d) => operation_of(d) == Some(c.signature@) && match c.expression {
            Some(x) => expression_holds(x@, instruction_params(d)),
            None => true,
        },
        None => false,
    }
}

/// The first instruction at or after `i` that meets the condition.
pub open spec fn first_met(m: Monitor, nodes: Seq<FlatEntry>, decoded: Seq<Option<DecodedInstruction>>, c: FunctionCondition, i: int) -> Option<int>
    decreases nodes.len() - i,
{
    if i < 0 || i >= nodes.len() {
        None
    } else if condition_met(m, nodes, decoded, i, c) {
        Some(i)
    } else {
        first_met(m, nodes, decoded, c, i + 1)
    }
}

proof fn lemma_first_met(m: Monitor, nodes: Seq<FlatEntry>, decoded: Seq<Option<DecodedInstruction>>, c: FunctionCondition, i: int)
    ensures
        first_met(m, nodes, decoded, c, i) matches Some(f) ==> i <= f < nodes.len() && condition_met(m, nodes, decoded, f, c),
    decreases nodes.len() - i,
{
    if i < 0 || i >= nodes.len() {
    } else if condition_met(m, nodes, decoded, i, c) {
    } else {
        lemma_first_met(m, nodes, decoded, c, i + 1);
    }
}

/// Whether some instruction meets the condition.
pub open spec fn condition_matched(m: Monitor, nodes: Seq<FlatEntry>, decoded: Seq<Option<DecodedInstruction>>, c: FunctionCondition) -> bool {
    first_met(m, nodes, decoded, c, 0) is Some
}

/// The instruction-level records: the monitor's instruction conditions, in
/// their order, that some instruction meets.
pub open spec fn instruction_matches(m: Monitor, nodes: Seq<FlatEntry>, decoded: Seq<Option<DecodedInstruction>>) -> Seq<FunctionCondition> {
    m.match_conditions.functions@.filter(|c: FunctionCondition| condition_matched(m, nodes, decoded, c))
}

/// A recorded parameter seen as plain values: name, value, kind and
/// whether it is indexed.
pub type RecordedParam = (Seq<char>, Seq<char>, Seq<char>, bool);

/// A parameter map seen as plain values.
pub type ParamsMapView = (Seq<char>, Option<Seq<RecordedParam>>, Option<String>);

/// Recorded parameters seen as plain values.
pub open spec fn recorded_params(a: Seq<SolanaMatchParamEntry>) -> Seq<RecordedParam> {
    a.map_values(|e: SolanaMatchParamEntry| (e.name@, e.value@, e.kind@, e.indexed))
}

/// Parameters as they are recorded: none of them indexed.
pub open spec fn unindexed(ps: Seq<ParamView>) -> Seq<RecordedParam> {
    ps.map_values(|p: ParamView| (p.0, p.1, p.2, false))
}

/// A parameter map seen as plain values.
pub open spec fn params_map_view(p: SolanaMatchParamsMap) -> ParamsMapView {
    (
        p.signature@,
        match p.args {
            Some(a) => Some(recorded_params(a@)),
            None => None,
        },
        p.hex_signature,
    )
}

/// The parameters recorded for a matched condition: those of the first
/// instruction that meets it, where the condition has an expression.
pub open spec fn condition_args(m: Monitor, nodes: Seq<FlatEntry>, decoded: Seq<Option<DecodedInstruction>>, c: FunctionCondition) -> ParamsMapView {
    (
        c.signature@,
        match c.expression {
            Some(_) => match first_met(m, nodes, decoded, c, 0) {
                Some(k) => match node_decoded(m, nodes, decoded, k) {
                    Some(d) => Some(unindexed(instruction_params(d))),
                    None => None,
                },
                None => None,
            },
            None => None,
        },
        None,
    )
}

/// The parameter maps recorded for the instruction-level records.
pub open spec fn instruction_args(m: Monitor, nodes: Seq<FlatEntry>, decoded: Seq<Option<DecodedInstruction>>) -> Seq<ParamsMapView> {
    instruction_matches(m, nodes, decoded).map_values(|c: FunctionCondition| condition_args(m, nodes, decoded, c))
}

/// Whether the instruction category produced a record that counts.
pub open spec fn has_instruction_match(m: Monitor, tx: SolanaTransaction, decoded: Seq<Option<DecodedInstruction>>) -> bool {
    m.match_conditions.functions@.len() > 0 && instruction_matches(m, instruction_nodes(tx), decoded).len() > 0
}

/// Whether the transaction category produced a record that counts.
pub open spec fn has_transaction_match(m: Monitor, tx: SolanaTransaction) -> bool {
    m.match_conditions.transactions@.len() > 0 && transaction_matches(tx, m).len() > 0
}

/// Whether the monitor's combination rule is met: the transaction resolves,
/// a watched address takes part, and each condition category the monitor
/// defines produced a record (any involved transaction matches a monitor
/// that defines neither).
pub open spec fn should_match(m: Monitor, tx: SolanaTransaction, decoded: Seq<Option<DecodedInstruction>>) -> bool {
    let has_instruction = has_instruction_match(m, tx, decoded);
    let has_transaction = has_transaction_match(m, tx);
    resolvable(tx) && involved(m, tx) && if m.match_conditions.functions@.len() == 0 && m.match_conditions.transactions@.len() == 0 {
        true
    } else if m.match_conditions.functions@.len() == 0 {
        has_transaction
    } else if m.match_conditions.transactions@.len() == 0 {
        has_instruction
    } else {
        has_instruction && has_transaction
    }
}

/// Whether `x` is a copy of the monitor without decoder descriptions.
pub open spec fn is_redacted_copy(x: Monitor, m: Monitor) -> bool {
    &&& x.name == m.name
    &&& x.networks@ == m.networks@
    &&& x.paused == m.paused
    &&& x.addresses@ == crate::monitor::redacted_addresses(m.addresses@)
    &&& x.match_conditions.functions@ == m.match_conditions.functions@
    &&& x.match_conditions.events@ == m.match_conditions.events@
    &&& x.match_conditions.transactions@ == m.match_conditions.transactions@
    &&& x.trigger_conditions@.map_values(|t: crate::monitor::TriggerConditions| crate::monitor::trigger_view(t))
        == m.trigger_conditions@.map_values(|t: crate::monitor::TriggerConditions| crate::monitor::trigger_view(t))
    &&& x.triggers@ == m.triggers@
}

/// What the match record for a matching (monitor, transaction) pair holds:
/// the redacted monitor, the network, the records of the categories that
/// gate the match (the others are left out), and the transaction.
pub open spec fn record_holds(slug: Seq<char>, m: Monitor, tx: SolanaTransaction, decoded: Seq<Option<DecodedInstruction>>, x: SolanaMonitorMatch) -> bool {
    let has_ix = has_instruction_match(m, tx, decoded);
    let has_tx = has_transaction_match(m, tx);
    &&& is_redacted_copy(x.monitor, m)
    &&& x.network_slug@ == slug
    &&& x.matched_on.instructions@ == if has_ix { instruction_matches(m, instruction_nodes(tx), decoded) } else { Seq::empty() }
    &&& x.matched_on.transactions@ == if has_tx { transaction_matches(tx, m) } else { Seq::empty() }
    &&& x.matched_on.accounts@.len() == 0
    &&& x.matched_on_args matches Some(a) && (match a.instructions {
            Some(v) => has_ix && v@.map_values(|p: SolanaMatchParamsMap| params_map_view(p)) == instruction_args(m, instruction_nodes(tx), decoded),
            None => !has_ix,
        }) && (a.accounts matches Some(v) && v@.len() == 0)
    &&& x.transaction@ == tx@
}

/// The (monitor, transaction) index pairs, among the first `n`
/// transactions, for which monitor `i` matches.
pub open spec fn monitor_pairs(m: Monitor, i: int, txs: Seq<SolanaTransaction>, decs: Seq<Seq<Option<DecodedInstruction>>>, n: int) -> Seq<(int, int)>
    decreases n,
{
    if n <= 0 || n > txs.len() || n > decs.len() {
        Seq::empty()
    } else {
        monitor_pairs(m, i, txs, decs, n - 1) + if should_match(m, txs[n - 1], decs[n - 1]) {
            seq![(i, n - 1)]
        } else {
            Seq::empty()
        }
    }
}

/// The matching (monitor, transaction) index pairs of the first `n`
/// monitors, monitor by monitor, transactions in block order.
pub open spec fn block_pairs(monitors: Seq<Monitor>, txs: Seq<SolanaTransaction>, decs: Seq<Seq<Option<DecodedInstruction>>>, n: int) -> Seq<(int, int)>
    decreases n,
{
    if n <= 0 || n > monitors.len() {
        Seq::empty()
    } else {
        block_pairs(monitors, txs, decs, n - 1) + monitor_pairs(monitors[n - 1], n - 1, txs, decs, txs.len() as int)
    }
}

/// What the registry gives for each instruction of a list, in order.
pub open spec fn registry_decodings<D: InstructionDecoder>(
    decoders: Seq<D>,
    nodes: Seq<(InstructionMetadata, Instruction)>,
) -> Seq<Option<DecodedInstruction>> {
    nodes.map_values(|p: (InstructionMetadata, Instruction)| first_decoded(decoders, p.1, 0))
}

/// Whether two lists of decoding results agree, entry by entry, on what
/// matching reads of them.
pub open spec fn same_decodings(a: Seq<Option<DecodedInstruction>>, b: Seq<Option<DecodedInstruction>>) -> bool {
    a.len() == b.len() && forall|k: int| 0 <= k < a.len() ==> decoding_view(#[trigger] a[k]) == decoding_view(b[k])
}

/// Whether `decs` holds, for each transaction, one decoding result per
/// instruction of its call tree.
pub open spec fn decodings_fit(txs: Seq<SolanaTransaction>, decs: Seq<Seq<Option<DecodedInstruction>>>) -> bool {
    decs.len() == txs.len() && forall|j: int| 0 <= j < txs.len() ==> (#[trigger] decs[j]).len() == instruction_nodes(txs[j]).len()
}

/// Whether `lists` holds each transaction's call-tree instructions and
/// `decs` what the registry gives for them, up to what matching reads.
pub open spec fn registry_fits<D: InstructionDecoder>(
    decoders: Seq<D>,
    txs: Seq<SolanaTransaction>,
    lists: Seq<Seq<(InstructionMetadata, Instruction)>>,
    decs: Seq<Seq<Option<DecodedInstruction>>>,
) -> bool {
    &&& lists.len() == txs.len()
    &&& decs.len() == txs.len()
    &&& forall|j: int| 0 <= j < txs.len() ==> flat_view(#[trigger] lists[j]) == instruction_nodes(txs[j])
    &&& forall|j: int| 0 <= j < txs.len() ==> same_decodings(#[trigger] decs[j], registry_decodings(decoders, lists[j]))
}

/// The match records of a block for the given decoding results.
pub open spec fn block_records_hold(slug: Seq<char>, monitors: Seq<Monitor>, txs: Seq<SolanaTransaction>, decs: Seq<Seq<Option<DecodedInstruction>>>, r: Seq<SolanaMonitorMatch>) -> bool {
    &&& r.len() == block_pairs(monitors, txs, decs, monitors.len() as int).len()
    &&& forall|k: int| 0 <= k < r.len() ==> {
        let p = #[trigger] block_pairs(monitors, txs, decs, monitors.len() as int)[k];
        record_holds(slug, monitors[p.0], txs[p.1], decs[p.1], r[k])
    }
}

/// Helper functions for Solana matching.
pub struct SolanaFilterHelpers;

impl SolanaFilterHelpers {
    /// The helpers.
    pub fn new() -> (r: SolanaFilterHelpers) {
        SolanaFilterHelpers
    }

    /// The variant name inside the outermost parentheses of a debug
    /// rendering such as `JupiterDCA(OpenDca(...))`: the text between the
    /// first and second `(`, or nothing where there is no `(`.
    pub fn discriminator(debug_str: &str) -> (r: String)
        ensures
            r@ == (if crate::text::split_by(debug_str@, "("@).len() > 1 {
                crate::text::split_by(debug_str@, "("@)[1]
            } else {
                Seq::<char>::empty()
            }),
    {
        let s = crate::text::chars_of(debug_str);
        let sep = crate::text::chars_of("(");
        proof {
            reveal_strlit("(");
        }
        let parts = crate::text::split_chars(&s, &sep);
        let ghost pv = parts@.map_values(|p: Vec<char>| p@);
        if parts.len() > 1 {
            assert(pv[1] == parts@[1]@);
            crate::text::string_of(&parts[1])
        } else {
            String::new()
        }
    }

    /// Whether the decoded instruction names the operation `signature`.
    pub fn matches_instruction_type(decoded_instruction: &DecodedInstruction, signature: &str) -> (r: bool)
        ensures
            r == (operation_of(*decoded_instruction) == Some(signature@)),
    {
        match &decoded_instruction.data {
            InstructionType::Decoded(p) => crate::text::str_is(p.operation.as_str(), signature),
            InstructionType::Unknown => false,
        }
    }

    /// Whether some static account of the transaction has the base58 text
    /// `program_id`.
    pub fn matches_program_id(&self, tx: &SolanaTransaction, program_id: &str) -> (r: bool)
        ensures
            r == exists|k: int|
                0 <= k < tx.transaction.message.spec_body().account_keys@.len() && base58_key(
                    (#[trigger] tx.transaction.message.spec_body().account_keys@[k]).0@,
                ) == program_id@,
    {
        let keys = &tx.message().body().account_keys;
        let mut i: usize = 0;
        while i < keys.len()
            invariant
                i <= keys.len(),
                *keys == tx.transaction.message.spec_body().account_keys,
                forall|k: int| 0 <= k < i ==> base58_key((#[trigger] keys@[k]).0@) != program_id@,
            decreases keys.len() - i,
        {
            let t = pubkey_text(&keys[i]);
            if crate::text::str_is(t.as_str(), program_id) {
                return true;
            }
            i = i + 1;
        }
        false
    }

    /// Whether some static account of the transaction has the base58 text
    /// `account`.
    pub fn matches_account(&self, tx: &SolanaTransaction, account: &str) -> (r: bool)
        ensures
            r == exists|k: int|
                0 <= k < tx.transaction.message.spec_body().account_keys@.len() && base58_key(
                    (#[trigger] tx.transaction.message.spec_body().account_keys@[k]).0@,
                ) == account@,
    {
        self.matches_program_id(tx, account)
    }

    /// Whether some top-level instruction of the transaction carries exactly
    /// `data`.
    pub fn matches_instruction_data(&self, tx: &SolanaTransaction, data: &Vec<u8>) -> (r: bool)
        ensures
            r == exists|k: int|
                0 <= k < tx.transaction.message.spec_body().instructions@.len()
                    && (#[trigger] tx.transaction.message.spec_body().instructions@[k]).data@ == data@,
    {
        let ixs = &tx.message().body().instructions;
        let mut i: usize = 0;
        while i < ixs.len()
            invariant
                i <= ixs.len(),
                *ixs == tx.transaction.message.spec_body().instructions,
                forall|k: int| 0 <= k < i ==> (#[trigger] ixs@[k]).data@ != data@,
            decreases ixs.len() - i,
        {
            if same_bytes(&ixs[i].data, data) {
                return true;
            }
            i = i + 1;
        }
        false
    }

    /// The instructions of the transaction, flattened with their metadata.
    pub fn extract_instructions_with_metadata(
        transaction_metadata: &TransactionMetadata,
        transaction: &SolanaTransaction,
    ) -> (r: Result<Vec<(InstructionMetadata, Instruction)>, ResolutionError>)
        ensures
            r matches Ok(v) ==> plan_resolves(*transaction_metadata, *transaction) && flat_view(v@)
                == flattened(*transaction_metadata, *transaction),
            r matches Err(e) ==> !plan_resolves(*transaction_metadata, *transaction) && e
                == ResolutionError::AccountIndexOutOfRange,
    {
        extract_instructions_with_metadata(transaction_metadata, transaction)
    }
}

/// Whether two byte vectors are equal.
fn same_bytes(a: &Vec<u8>, b: &Vec<u8>) -> (r: bool)
    ensures
        r == (a@ == b@),
{
    if a.len() != b.len() {
        return false;
    }
    let mut i: usize = 0;
    while i < a.len()
        invariant
            a.len() == b.len(),
            i <= a.len(),
            forall|k: int| 0 <= k < i ==> a@[k] == b@[k],
        decreases a.len() - i,
    {
        if a[i] != b[i] {
            return false;
        }
        i = i + 1;
    }
    assert(a@ =~= b@);
    true
}

/// Whether the monitor watches the address whose base58 text is `text`.
fn watches_exec(monitor: &Monitor, text: &String) -> (r: bool)
    ensures
        r == watches_text(*monitor, text@),
{
    let mut a: usize = 0;
    while a < monitor.addresses.len()
        invariant
            a <= monitor.addresses.len(),
            forall|k: int| 0 <= k < a ==> (#[trigger] monitor.addresses@[k]).address@ != text@,
        decreases monitor.addresses.len() - a,
    {
        if monitor.addresses[a].address == *text {
            return true;
        }
        a = a + 1;
    }
    false
}

/// The transaction's parameters for transaction-level expressions.
fn transaction_params_exec(tx: &SolanaTransaction) -> (r: Vec<SolanaMatchParamEntry>)
    ensures
        params_view(r@) == transaction_params(*tx),
{
    let bt: i64 = match tx.block_time {
        Some(t) => t,
        None => 0,
    };
    let mut v: Vec<SolanaMatchParamEntry> = Vec::new();
    v.push(SolanaMatchParamEntry { name: "signature".to_owned(), value: signature_text(&tx.signature), kind: "string".to_owned(), indexed: false });
    v.push(SolanaMatchParamEntry { name: "block_time".to_owned(), value: render_i64(bt), kind: "i64".to_owned(), indexed: false });
    v.push(SolanaMatchParamEntry { name: "slot".to_owned(), value: render_u64(tx.slot), kind: "u64".to_owned(), indexed: false });
    let keys = &tx.message().body().account_keys;
    if keys.len() > 0 {
        v.push(SolanaMatchParamEntry { name: "fee_payer".to_owned(), value: pubkey_text(&keys[0]), kind: "pubkey".to_owned(), indexed: false });
    }
    assert(params_view(v@) =~= transaction_params(*tx));
    v
}

/// The instructions of the transaction's call tree in pre-order, or `None`
/// when the transaction cannot be resolved.
pub fn instruction_tree(transaction: &SolanaTransaction) -> (r: Option<Vec<(InstructionMetadata, Instruction)>>)
    ensures
        r is Some <==> resolvable(*transaction),
        r matches Some(v) ==> flat_view(v@) == instruction_nodes(*transaction),
        r is None ==> instruction_nodes(*transaction).len() == 0,
{
    match transaction_metadata(transaction) {
        Ok(tm) => match extract_instructions_with_metadata(&tm, transaction) {
            Ok(flat) => {
                let tree = NestedInstructions::from(flat);
                Some(tree.preorder())
            },
            Err(_) => None,
        },
        Err(_) => None,
    }
}

/// The instructions of the transaction's call tree in pre-order; none when
/// the transaction cannot be resolved.
fn instruction_nodes_exec(transaction: &SolanaTransaction) -> (r: Vec<(InstructionMetadata, Instruction)>)
    ensures
        flat_view(r@) == instruction_nodes(*transaction),
{
    match instruction_tree(transaction) {
        Some(v) => v,
        None => {
            assert(flat_view(Seq::<(InstructionMetadata, Instruction)>::empty()) =~= Seq::<FlatEntry>::empty());
            Vec::new()
        },
    }
}

/// Appends the instruction-level records of `monitor`, given the call-tree
/// instructions `nodes` in pre-order and what the decoders gave for each,
/// and, where `matched_on_args` collects instructions, their parameters.
pub fn find_matching_instruction_conditions(
    monitor: &Monitor,
    nodes: &Vec<(InstructionMetadata, Instruction)>,
    decoded: &Vec<Option<DecodedInstruction>>,
    matched_functions: &mut Vec<InstructionCondition>,
    matched_on_args: &mut SolanaMatchArguments,
)
    requires
        decoded@.len() == nodes@.len(),
    ensures
        final(matched_functions)@ == old(matched_functions)@ + instruction_matches(*monitor, flat_view(nodes@), decoded@),
        final(matched_on_args).accounts == old(matched_on_args).accounts,
        final(matched_on_args).instructions is Some <==> old(matched_on_args).instructions is Some,
        old(matched_on_args).instructions matches Some(a0) ==> final(matched_on_args).instructions matches Some(a1)
            && a1@.map_values(|p: SolanaMatchParamsMap| params_map_view(p))
                == a0@.map_values(|p: SolanaMatchParamsMap| params_map_view(p)) + instruction_args(*monitor, flat_view(nodes@), decoded@),        monitor.match_conditions.functions@.len() == 0 ==> *final(matched_on_args) == *old(matched_on_args)
            && *final(matched_functions) == *old(matched_functions),
{
    let ghost nv = flat_view(nodes@);
    let ghost dv = decoded@;
    // The decoded payload and parameters that count for each instruction.
    let mut counted: Vec<Option<&DecodedInstruction>> = Vec::new();
    let mut params: Vec<Vec<SolanaMatchParamEntry>> = Vec::new();
    let mut k: usize = 0;
    while k < nodes.len()
        invariant
            nv == flat_view(nodes@),
            dv == decoded@,
            decoded@.len() == nodes@.len(),
            k <= nodes.len(),
            counted@.len() == k,
            params@.len() == k,
            forall|t: int| 0 <= t < k ==> (match #[trigger] counted@[t] {
                Some(d) => node_decoded(*monitor, nv, dv, t) == Some(*d),
                None => node_decoded(*monitor, nv, dv, t) is None,
            }),
            forall|t: int| 0 <= t < k ==> (#[trigger] counted@[t] matches Some(d) ==> params_view(params@[t]@) == instruction_params(*d) && forall|e: int| 0 <= e < params@[t]@.len() ==> !params@[t]@[e].indexed),
        decreases nodes.len() - k,
    {
        let ix = &nodes[k].1;
        assert(nv[k as int] == (nodes@[k as int].0, nodes@[k as int].1@));
        let text = pubkey_text(&ix.program_id);
        let d: Option<&DecodedInstruction> = if watches_exec(monitor, &text) {
            match &decoded[k] {
                Some(x) => Some(x),
                None => None,
            }
        } else {
            None
        };
        let p = match d {
            Some(x) => extract_params(x),
            None => Vec::new(),
        };
        counted.push(d);
        params.push(p);
        k = k + 1;
    }
    let conds = &monitor.match_conditions.functions;
    let ghost start_f = matched_functions@;
    let ghost start_a = matched_on_args.instructions;
    let ghost pred = |c: FunctionCondition| condition_matched(*monitor, nv, dv, c);
    let ghost argf = |c: FunctionCondition| condition_args(*monitor, nv, dv, c);
    let mut j: usize = 0;
    while j < conds.len()
        invariant
            nv == flat_view(nodes@),
            dv == decoded@,
            *conds == monitor.match_conditions.functions,
            counted@.len() == nodes@.len(),
            params@.len() == nodes@.len(),
            forall|t: int| 0 <= t < nodes@.len() ==> (match #[trigger] counted@[t] {
                Some(d) => node_decoded(*monitor, nv, dv, t) == Some(*d),
                None => node_decoded(*monitor, nv, dv, t) is None,
            }),
            forall|t: int| 0 <= t < nodes@.len() ==> (#[trigger] counted@[t] matches Some(d) ==> params_view(params@[t]@) == instruction_params(*d) && forall|e: int| 0 <= e < params@[t]@.len() ==> !params@[t]@[e].indexed),
            j <= conds.len(),
            pred == (|c: FunctionCondition| condition_matched(*monitor, nv, dv, c)),
            argf == (|c: FunctionCondition| condition_args(*monitor, nv, dv, c)),
            matched_functions@ == start_f + conds@.take(j as int).filter(pred),
            start_f == old(matched_functions)@,
            conds@.len() == 0 ==> *matched_on_args == *old(matched_on_args) && *matched_functions == *old(matched_functions),
            matched_on_args.accounts == old(matched_on_args).accounts,
            start_a == old(matched_on_args).instructions,
            matched_on_args.instructions is Some <==> start_a is Some,
            start_a matches Some(a0) ==> matched_on_args.instructions matches Some(a1)
                && a1@.map_values(|p: SolanaMatchParamsMap| params_map_view(p))
                    == a0@.map_values(|p: SolanaMatchParamsMap| params_map_view(p)) + conds@.take(j as int).filter(pred).map_values(argf),
        decreases conds.len() - j,
    {
        let c = &conds[j];
        // The first instruction that meets the condition.
        let mut found: Option<usize> = None;
        let mut t: usize = 0;
        while t < nodes.len()
            invariant
                t <= nodes.len(),
                nv == flat_view(nodes@),
                counted@.len() == nodes@.len(),
                params@.len() == nodes@.len(),
                forall|u: int| 0 <= u < nodes@.len() ==> (match #[trigger] counted@[u] {
                    Some(d) => node_decoded(*monitor, nv, dv, u) == Some(*d),
                    None => node_decoded(*monitor, nv, dv, u) is None,
                }),
                forall|u: int| 0 <= u < nodes@.len() ==> (#[trigger] counted@[u] matches Some(d) ==> params_view(params@[u]@) == instruction_params(*d) && forall|e: int| 0 <= e < params@[u]@.len() ==> !params@[u]@[e].indexed),
                found is None ==> first_met(*monitor, nv, dv, *c, t as int) == first_met(*monitor, nv, dv, *c, 0),
                found matches Some(f) ==> f < nodes@.len() && first_met(*monitor, nv, dv, *c, 0) == Some(f as int),
            decreases nodes.len() - t,
        {
            if found.is_none() {
                let met = match counted[t] {
                    Some(d) => {
                        if SolanaFilterHelpers::matches_instruction_type(d, c.signature.as_str()) {
                            match &c.expression {
                                Some(x) => evaluate(x.as_str(), &params[t]),
                                None => true,
                            }
                        } else {
                            false
                        }
                    },
                    None => false,
                };
                assert(met == condition_met(*monitor, nv, dv, t as int, *c));
                if met {
                    found = Some(t);
                }
            }
            t = t + 1;
        }
        proof {
            conds@.take(j as int).lemma_filter_push(*c, pred);
            assert(conds@.take(j + 1) =~= conds@.take(j as int).push(*c));
        }
        match found {
            Some(f) => {
                let rec = c.duplicate();
                matched_functions.push(rec);
                let args = match &c.expression {
                    Some(_) => Some(crate::monitor::copy_all(&params[f])),
                    None => None,
                };
                let entry = SolanaMatchParamsMap { signature: c.signature.clone(), args, hex_signature: None };
                proof {
                    assert(pred(*c));
                    lemma_first_met(*monitor, nv, dv, *c, 0);
                    assert(condition_met(*monitor, nv, dv, f as int, *c));
                    if c.expression is Some {
                        let pf = params@[f as int]@;
                        assert(params_view(pf) == instruction_params(*(counted@[f as int]->0)));
                        assert(recorded_params(pf) =~= unindexed(params_view(pf)));
                    }
                    assert(params_map_view(entry) == condition_args(*monitor, nv, dv, *c));
                    assert(params_map_view(entry) == argf(*c));
                    let filtered = conds@.take(j as int).filter(pred);
                    assert(filtered.push(*c).map_values(argf) =~= filtered.map_values(argf).push(argf(*c)));
                }
                match &mut matched_on_args.instructions {
                    Some(list) => {
                        let ghost before = list@;
                        list.push(entry);
                        proof {
                            assert(list@.map_values(|p: SolanaMatchParamsMap| params_map_view(p)) =~= before.map_values(|p: SolanaMatchParamsMap| params_map_view(p)).push(params_map_view(entry)));
                        }
                    },
                    None => {},
                }
            },
            None => {
                assert(!pred(*c));
            },
        }
        j = j + 1;
    }
    proof {
        assert(conds@.take(j as int) =~= conds@);
    }
}

/// Whether some account of the transaction's table is watched.
fn involved_exec(monitor: &Monitor, transaction: &SolanaTransaction) -> (r: bool)
    ensures
        r == involved(*monitor, *transaction),
{
    let table = build_table(transaction);
    let mut k: usize = 0;
    while k < table.len()
        invariant
            k <= table.len(),
            table@ == account_table(*transaction),
            forall|t: int| 0 <= t < k ==> !watches(*monitor, #[trigger] table@[t]),
        decreases table.len() - k,
    {
        let text = pubkey_text(&table[k]);
        if watches_exec(monitor, &text) {
            assert(watches(*monitor, table@[k as int]));
            return true;
        }
        k = k + 1;
    }
    false
}

/// The match record of `monitor` for `transaction`, given what the decoders
/// gave for each instruction of its call tree, when the monitor's
/// combination rule is met.
pub fn match_transaction(
    network_slug: &String,
    monitor: &Monitor,
    transaction: &SolanaTransaction,
    decoded: &Vec<Option<DecodedInstruction>>,
) -> (r: Option<SolanaMonitorMatch>)
    requires
        decoded@.len() == instruction_nodes(*transaction).len(),
    ensures
        r is Some <==> should_match(*monitor, *transaction, decoded@),
        r matches Some(x) ==> record_holds(network_slug@, *monitor, *transaction, decoded@, x),
{
    let mut matched_on_args = SolanaMatchArguments { instructions: Some(Vec::new()), accounts: Some(Vec::new()) };
    let mut matched_instructions: Vec<InstructionCondition> = Vec::new();
    let mut matched_transactions: Vec<TransactionCondition> = Vec::new();
    find_matching_transaction_conditions(transaction, monitor, &mut matched_transactions);
    let tree = instruction_tree(transaction);
    let nodes = match tree {
        Some(v) => v,
        None => {
            return None;
        },
    };
    find_matching_instruction_conditions(monitor, &nodes, decoded, &mut matched_instructions, &mut matched_on_args);
    assert(matched_transactions@ =~= transaction_matches(*transaction, *monitor));
    assert(matched_instructions@ =~= instruction_matches(*monitor, instruction_nodes(*transaction), decoded@));
    if !involved_exec(monitor, transaction) {
        return None;
    }
    let conditions = &monitor.match_conditions;
    let has_instruction_match = conditions.functions.len() > 0 && matched_instructions.len() > 0;
    let has_transaction_match = conditions.transactions.len() > 0 && matched_transactions.len() > 0;
    let should = if conditions.functions.len() == 0 && conditions.transactions.len() == 0 {
        true
    } else if conditions.functions.len() == 0 {
        has_transaction_match
    } else if conditions.transactions.len() == 0 {
        has_instruction_match
    } else {
        has_instruction_match && has_transaction_match
    };
    if !should {
        return None;
    }
    let instructions = if has_instruction_match {
        matched_instructions
    } else {
        Vec::new()
    };
    let transactions = if has_transaction_match {
        matched_transactions
    } else {
        Vec::new()
    };
    let args_instructions = if has_instruction_match {
        matched_on_args.instructions
    } else {
        None
    };
    proof {
        if has_instruction_match {
            assert(Seq::<SolanaMatchParamsMap>::empty().map_values(|p: SolanaMatchParamsMap| params_map_view(p)) =~= Seq::empty());
        }
    }
    let accounts: Vec<AccountMeta> = Vec::new();
    Some(SolanaMonitorMatch {
        monitor: monitor.redact(),
        network_slug: network_slug.clone(),
        matched_on: SolanaMatchConditions { instructions, accounts: Vec::new(), transactions },
        matched_on_args: Some(SolanaMatchArguments { instructions: args_instructions, accounts: Some(accounts) }),
        transaction: transaction.duplicate(),
    })
}

/// The match records of a block, given what the decoders gave for each
/// instruction of each transaction: for each monitor in order, for each
/// transaction in block order, the record of every pair that matches.
pub fn filter_block_decoded(
    network_slug: &String,
    block: &SolanaBlock,
    monitors: &Vec<Monitor>,
    decodings: &Vec<Vec<Option<DecodedInstruction>>>,
) -> (r: Vec<SolanaMonitorMatch>)
    requires
        decodings@.len() == block.transactions@.len(),
        forall|j: int| 0 <= j < block.transactions@.len() ==> (#[trigger] decodings@[j])@.len() == instruction_nodes(block.transactions@[j]).len(),
    ensures
        block_records_hold(network_slug@, monitors@, block.transactions@, decodings@.map_values(|d: Vec<Option<DecodedInstruction>>| d@), r@),
{
    let ghost decs = decodings@.map_values(|d: Vec<Option<DecodedInstruction>>| d@);
    let txs = &block.transactions;
    let mut out: Vec<SolanaMonitorMatch> = Vec::new();
    let mut i: usize = 0;
    while i < monitors.len()
        invariant
            *txs == block.transactions,
            decs == decodings@.map_values(|d: Vec<Option<DecodedInstruction>>| d@),
            decodings@.len() == txs@.len(),
            forall|j: int| 0 <= j < txs@.len() ==> (#[trigger] decodings@[j])@.len() == instruction_nodes(txs@[j]).len(),
            i <= monitors.len(),
            out@.len() == block_pairs(monitors@, txs@, decs, i as int).len(),
            forall|k: int| 0 <= k < out@.len() ==> {
                let p = #[trigger] block_pairs(monitors@, txs@, decs, i as int)[k];
                0 <= p.0 < monitors@.len() && 0 <= p.1 < txs@.len() && record_holds(network_slug@, monitors@[p.0], txs@[p.1], decs[p.1], out@[k])
            },
        decreases monitors.len() - i,
    {
        let m = &monitors[i];
        let ghost base = block_pairs(monitors@, txs@, decs, i as int);
        let mut j: usize = 0;
        while j < txs.len()
            invariant
                *txs == block.transactions,
                decs == decodings@.map_values(|d: Vec<Option<DecodedInstruction>>| d@),
                decodings@.len() == txs@.len(),
                forall|j: int| 0 <= j < txs@.len() ==> (#[trigger] decodings@[j])@.len() == instruction_nodes(txs@[j]).len(),
                i < monitors.len(),
                *m == monitors@[i as int],
                j <= txs.len(),
                base == block_pairs(monitors@, txs@, decs, i as int),
                out@.len() == (base + monitor_pairs(*m, i as int, txs@, decs, j as int)).len(),
                forall|k: int| 0 <= k < out@.len() ==> {
                    let p = #[trigger] (base + monitor_pairs(*m, i as int, txs@, decs, j as int))[k];
                    0 <= p.0 < monitors@.len() && 0 <= p.1 < txs@.len() && record_holds(network_slug@, monitors@[p.0], txs@[p.1], decs[p.1], out@[k])
                },
            decreases txs.len() - j,
        {
            let ghost prev = base + monitor_pairs(*m, i as int, txs@, decs, j as int);
            assert(decs[j as int] == decodings@[j as int]@);
            match match_transaction(network_slug, m, &txs[j], &decodings[j]) {
                Some(x) => {
                    proof {
                        assert(base + monitor_pairs(*m, i as int, txs@, decs, j + 1) =~= prev.push((i as int, j as int)));
                    }
                    out.push(x);
                },
                None => {
                    proof {
                        assert(base + monitor_pairs(*m, i as int, txs@, decs, j + 1) =~= prev);
                    }
                },
            }
            j = j + 1;
        }
        proof {
            assert(block_pairs(monitors@, txs@, decs, i + 1) =~= base + monitor_pairs(*m, i as int, txs@, decs, txs@.len() as int));
        }
        i = i + 1;
    }
    out
}

/// Appends the transaction-level records of `monitor` for `transaction`.
pub fn find_matching_transaction_conditions(
    transaction: &SolanaTransaction,
    monitor: &Monitor,
    matched_transactions: &mut Vec<TransactionCondition>,
)
    ensures
        final(matched_transactions)@ == old(matched_transactions)@ + transaction_matches(*transaction, *monitor),
{
    let conds = &monitor.match_conditions.transactions;
    let ghost start = matched_transactions@;
    if conds.len() == 0 {
        matched_transactions.push(TransactionCondition { status: TransactionStatus::Any, expression: None });
        assert(matched_transactions@ =~= start + transaction_matches(*transaction, *monitor));
        return;
    }
    let params = transaction_params_exec(transaction);
    let mut i: usize = 0;
    while i < conds.len()
        invariant
            i <= conds.len(),
            conds.len() > 0,
            *conds == monitor.match_conditions.transactions,
            matched_transactions@ == start,
            start == old(matched_transactions)@,
            params_view(params@) == transaction_params(*transaction),
            first_transaction_condition(*transaction, conds@, i as int) == first_transaction_condition(*transaction, conds@, 0),
        decreases conds.len() - i,
    {
        let c = &conds[i];
        let holds = match &c.expression {
            Some(e) => evaluate(e.as_str(), &params),
            None => true,
        };
        assert(holds == transaction_condition_holds(*transaction, conds@[i as int]));
        if holds {
            assert(first_transaction_condition(*transaction, conds@, i as int) == Some(i as int));
            let expression = match &c.expression {
                Some(e) => Some(e.clone()),
                None => None,
            };
            matched_transactions.push(TransactionCondition { status: TransactionStatus::Any, expression });
            assert(matched_transactions@ =~= start + transaction_matches(*transaction, *monitor));
            return;
        }
        i = i + 1;
    }
    assert(matched_transactions@ =~= start + transaction_matches(*transaction, *monitor));
}

/// Matches transactions against monitors, decoding instructions with an
/// ordered registry of program decoders.
pub struct SolanaBlockFilter<D> {
    pub helpers: SolanaFilterHelpers,
    pub decoder: Decoder<D>,
}

impl<D: InstructionDecoder> SolanaBlockFilter<D> {
    /// A filter that decodes with `decoder`.
    pub fn new(decoder: Decoder<D>) -> (r: SolanaBlockFilter<D>)
        ensures
            r.decoder.decoders@ == decoder.decoders@,
    {
        SolanaBlockFilter { helpers: SolanaFilterHelpers::new(), decoder }
    }

    /// What the registry gives for each instruction, in order.
    pub fn decode_all(&self, nodes: &Vec<(InstructionMetadata, Instruction)>) -> (r: Vec<Option<DecodedInstruction>>)
        ensures
            same_decodings(r@, registry_decodings(self.decoder.decoders@, nodes@)),
    {
        let mut r: Vec<Option<DecodedInstruction>> = Vec::new();
        let mut k: usize = 0;
        while k < nodes.len()
            invariant
                k <= nodes.len(),
                r@.len() == k,
                forall|t: int| 0 <= t < k ==> decoding_view(#[trigger] r@[t]) == decoding_view(
                    first_decoded(self.decoder.decoders@, nodes@[t].1, 0),
                ),
            decreases nodes.len() - k,
        {
            r.push(self.decoder.decode_instruction(&nodes[k].1));
            k = k + 1;
        }
        r
    }

    /// Evaluates `expression` against `args`; false when there are none.
    pub fn evaluate_expression(&self, expression: &str, args: &Option<Vec<SolanaMatchParamEntry>>) -> (r: bool)
        ensures
            r == match args {
                Some(a) => expression_holds(expression@, params_view(a@)),
                None => false,
            },
    {
        match args {
            Some(a) => evaluate(expression, a),
            None => false,
        }
    }

    /// Appends the transaction-level records of `monitor` for `transaction`.
    pub fn find_matching_transaction(
        &self,
        transaction: &SolanaTransaction,
        monitor: &Monitor,
        matched_transactions: &mut Vec<TransactionCondition>,
    )
        ensures
            final(matched_transactions)@ == old(matched_transactions)@ + transaction_matches(*transaction, *monitor),
    {
        find_matching_transaction_conditions(transaction, monitor, matched_transactions)
    }

    /// The parameters of a decoded instruction.
    pub fn extract_fields(&self, decoded: &DecodedInstruction) -> (r: Vec<SolanaMatchParamEntry>)
        ensures
            params_view(r@) == instruction_params(*decoded),
    {
        extract_params(decoded)
    }

    /// Appends the instruction-level records of `monitor` for `transaction`
    /// and, where `matched_on_args` collects instructions, their parameters:
    /// the instructions of its call tree, in pre-order, are decoded by the
    /// registry and matched as `find_matching_instruction_conditions` says.
    pub fn find_matching_instruction_for_transaction(
        &self,
        transaction: &SolanaTransaction,
        monitor: &Monitor,
        matched_functions: &mut Vec<InstructionCondition>,
        matched_on_args: &mut SolanaMatchArguments,
    )
        ensures
            exists|nodes: Seq<(InstructionMetadata, Instruction)>, decoded: Seq<Option<DecodedInstruction>>| {
                &&& #[trigger] same_decodings(decoded, registry_decodings(self.decoder.decoders@, nodes))
                &&& flat_view(nodes) == instruction_nodes(*transaction)
                &&& final(matched_functions)@ == old(matched_functions)@ + instruction_matches(*monitor, instruction_nodes(*transaction), decoded)
                &&& (old(matched_on_args).instructions matches Some(a0) ==> final(matched_on_args).instructions matches Some(a1)
                    && a1@.map_values(|p: SolanaMatchParamsMap| params_map_view(p))
                        == a0@.map_values(|p: SolanaMatchParamsMap| params_map_view(p)) + instruction_args(*monitor, instruction_nodes(*transaction), decoded))
            },
            final(matched_on_args).accounts == old(matched_on_args).accounts,
            final(matched_on_args).instructions is Some <==> old(matched_on_args).instructions is Some,
            monitor.match_conditions.functions@.len() == 0 ==> *final(matched_on_args) == *old(matched_on_args)
                && *final(matched_functions) == *old(matched_functions),
    {
        let nodes = instruction_nodes_exec(transaction);
        let decoded = self.decode_all(&nodes);
        find_matching_instruction_conditions(monitor, &nodes, &decoded, matched_functions, matched_on_args);
        let ghost w = nodes@;
        let ghost dw = decoded@;
        assert(flat_view(w) == instruction_nodes(*transaction));
        assert(same_decodings(dw, registry_decodings(self.decoder.decoders@, w)));
    }

    /// The match records of a block: for each monitor in order, for each
    /// transaction in block order, the record of every pair that matches,
    /// where each transaction's call-tree instructions are decoded by the
    /// registry.
    pub fn filter_block(&self, network_slug: &String, block: &SolanaBlock, monitors: &Vec<Monitor>) -> (r: Vec<SolanaMonitorMatch>)
        ensures
            exists|lists: Seq<Seq<(InstructionMetadata, Instruction)>>, decs: Seq<Seq<Option<DecodedInstruction>>>|
                #[trigger] registry_fits(self.decoder.decoders@, block.transactions@, lists, decs)
                && block_records_hold(network_slug@, monitors@, block.transactions@, decs, r@),
    {
        let ghost ds = self.decoder.decoders@;
        let mut lists: Vec<Vec<(InstructionMetadata, Instruction)>> = Vec::new();
        let mut decodings: Vec<Vec<Option<DecodedInstruction>>> = Vec::new();
        let mut j: usize = 0;
        while j < block.transactions.len()
            invariant
                ds == self.decoder.decoders@,
                j <= block.transactions.len(),
                decodings@.len() == j,
                lists@.len() == j,
                forall|t: int| 0 <= t < j ==> flat_view((#[trigger] lists@[t])@) == instruction_nodes(block.transactions@[t]),
                forall|t: int| 0 <= t < j ==> same_decodings((#[trigger] decodings@[t])@, registry_decodings(ds, lists@[t]@)),
            decreases block.transactions.len() - j,
        {
            let nodes = instruction_nodes_exec(&block.transactions[j]);
            let d = self.decode_all(&nodes);
            decodings.push(d);
            lists.push(nodes);
            j = j + 1;
        }
        let r = filter_block_decoded(network_slug, block, monitors, &decodings);
        let ghost lv = lists@.map_values(|l: Vec<(InstructionMetadata, Instruction)>| l@);
        let ghost decs = decodings@.map_values(|d: Vec<Option<DecodedInstruction>>| d@);
        assert(registry_fits(ds, block.transactions@, lv, decs));
        r
    }
}

} // verus!
