//! Properties that relate several functions of the library.
use vstd::prelude::*;
use crate::decoder::{instruction_params, decoding_view, first_decoded, DecodedInstruction, InstructionDecoder};
use crate::filter::{
    block_pairs, condition_args, condition_matched, condition_met, first_met, instruction_args,
    instruction_matches, instruction_nodes, monitor_pairs, node_decoded, registry_decodings,
    registry_fits, same_decodings,
};
use crate::monitor::Monitor;
use crate::nested::FlatEntry;
use crate::model::Instruction;
use crate::resolve::{flat_view, InstructionMetadata};
use crate::expression::{atom_holds, expression_holds, group_holds, param_index, ParamView};
use crate::filter::{block_records_hold, params_map_view, record_holds};
use crate::model::{AccountMeta, Pubkey, SolanaTransaction};
use crate::monitor::{
    AddressWithSpec, EventCondition, FunctionCondition, SolanaMatchParamsMap, SolanaMonitorMatch,
    TransactionCondition, TriggerConditions, trigger_view,
};
use crate::nested::{forest_preorder, node_count, NestedInstruction};
use crate::resolve::{
    account_at, account_table, flattened, group_plan, inner_entry, inner_plan, plan, plan_resolves,
    plan_upto, resolve_entry, resolves, top_entry, PlannedInstruction, TransactionMetadata,
};
use crate::text::{split_by, trim, words};

verus! {

proof fn lemma_inner_plan_index(
    tm: TransactionMetadata,
    groups: Seq<crate::model::InnerInstructions>,
    i: int,
    m: int,
)
    ensures
        forall|k: int| 0 <= k < inner_plan(tm, groups, i, m).len() ==> (#[trigger] inner_plan(tm, groups, i, m)[k]).0.index as int == i,
    decreases m,
{
    if m <= 0 || m > groups.len() {
    } else {
        lemma_inner_plan_index(tm, groups, i, m - 1);
        let g = groups[m - 1];
        let before = inner_plan(tm, groups, i, m - 1);
        if g.index as int == i {
            assert forall|k: int| 0 <= k < inner_plan(tm, groups, i, m).len() implies (#[trigger] inner_plan(tm, groups, i, m)[k]).0.index as int == i by {
                if k >= before.len() {
                    assert(inner_plan(tm, groups, i, m)[k] == group_plan(tm, g)[k - before.len()]);
                    assert(group_plan(tm, g)[k - before.len()] == inner_entry(tm, g.index, g.instructions@[k - before.len()]));
                } else {
                    assert(inner_plan(tm, groups, i, m)[k] == before[k]);
                }
            }
        } else {
            assert(inner_plan(tm, groups, i, m) =~= before);
        }
    }
}

proof fn lemma_plan_index(tm: TransactionMetadata, tx: SolanaTransaction, n: int)
    requires
        0 <= n <= tx.transaction.message.spec_body().instructions@.len(),
        tx.transaction.message.spec_body().instructions@.len() <= 0x1_0000_0000,
    ensures
        forall|k: int| 0 <= k < plan_upto(tm, tx, n).len() ==> (#[trigger] plan_upto(tm, tx, n)[k]).0.index as int <= n - 1,
        forall|a: int, b: int|
            0 <= a <= b < plan_upto(tm, tx, n).len() ==> (#[trigger] plan_upto(tm, tx, n)[a]).0.index <= (#[trigger] plan_upto(tm, tx, n)[b]).0.index,
    decreases n,
{
    if n > 0 {
        lemma_plan_index(tm, tx, n - 1);
        let instrs = tx.transaction.message.spec_body().instructions@;
        let groups = crate::resolve::groups_of(tx.meta);
        let s = plan_upto(tm, tx, n - 1);
        let top = top_entry(tm, instrs[n - 1], n - 1);
        let inner = inner_plan(tm, groups, n - 1, groups.len() as int);
        lemma_inner_plan_index(tm, groups, n - 1, groups.len() as int);
        let all = plan_upto(tm, tx, n);
        assert(all == s + seq![top] + inner);
        assert(top.0.index as int == n - 1);
        assert forall|k: int| 0 <= k < all.len() implies (#[trigger] all[k]).0.index as int <= n - 1 && (k >= s.len() ==> all[k].0.index as int == n - 1) by {
            if k < s.len() {
                assert(all[k] == s[k]);
            } else if k == s.len() {
                assert(all[k] == top);
            } else {
                assert(all[k] == inner[k - s.len() - 1]);
            }
        }
        assert forall|a: int, b: int| 0 <= a <= b < all.len() implies (#[trigger] all[a]).0.index <= (#[trigger] all[b]).0.index by {
            if b < s.len() {
                assert(all[a] == s[a] && all[b] == s[b]);
            } else if a < s.len() {
                assert(all[a] == s[a]);
                assert(all[a].0.index as int <= n - 2);
            }
        }
    }
}

/// For a transaction whose instructions all resolve (and number at most
/// 2^32), the forest built from its flattened instructions has exactly one
/// node per instruction, and its pre-order traversal lists the
/// instructions' top-level indices in non-decreasing order.
pub proof fn lemma_forest_of_transaction(tm: TransactionMetadata, tx: SolanaTransaction, forest: Seq<NestedInstruction>)
    requires
        plan_resolves(tm, tx),
        tx.transaction.message.spec_body().instructions@.len() <= 0x1_0000_0000,
        forest_preorder(forest) == flattened(tm, tx),
    ensures
        node_count(forest) == plan(tm, tx).len(),
        forall|a: int, b: int|
            0 <= a <= b < node_count(forest) ==> (#[trigger] forest_preorder(forest)[a]).0.index
                <= (#[trigger] forest_preorder(forest)[b]).0.index,
{
    let n = tx.transaction.message.spec_body().instructions@.len() as int;
    lemma_plan_index(tm, tx, n);
    let p = plan(tm, tx);
    assert forall|a: int, b: int| 0 <= a <= b < node_count(forest) implies (#[trigger] forest_preorder(forest)[a]).0.index
        <= (#[trigger] forest_preorder(forest)[b]).0.index by {
        assert(forest_preorder(forest)[a] == resolve_entry(tx, p[a]));
        assert(forest_preorder(forest)[b] == resolve_entry(tx, p[b]));
        assert(p[a] == plan_upto(tm, tx, n)[a]);
    }
}

/// The position of `k` in `table`, where it occurs.
pub open spec fn position_of(table: Seq<Pubkey>, k: Pubkey) -> int {
    choose|i: int| 0 <= i < table.len() && table[i] == k
}

/// Whether no key occurs twice in the table.
pub open spec fn distinct_keys(table: Seq<Pubkey>) -> bool {
    forall|a: int, b: int| 0 <= a < table.len() && 0 <= b < table.len() && table[a] == table[b] ==> a == b
}

/// An instruction compiled back against the account table of `tx`: each
/// key replaced by its position in the table.
pub open spec fn recompile(tx: SolanaTransaction, metadata: crate::resolve::InstructionMetadata, ix: (Pubkey, Seq<AccountMeta>, Seq<u8>)) -> PlannedInstruction {
    (
        metadata,
        position_of(account_table(tx), ix.0) as u8,
        ix.1.map_values(|a: AccountMeta| position_of(account_table(tx), a.pubkey) as u8),
        ix.2,
    )
}

/// Where the account table of `tx` holds each key once, compiling a resolved
/// instruction back against that table and resolving it again gives the
/// same program, accounts (with their flags) and data.
pub proof fn lemma_recompile_resolve_round_trip(tx: SolanaTransaction, e: PlannedInstruction)
    requires
        resolves(tx, e),
        distinct_keys(account_table(tx)),
    ensures
        resolves(tx, recompile(tx, e.0, resolve_entry(tx, e).1)),
        resolve_entry(tx, recompile(tx, e.0, resolve_entry(tx, e).1)) == resolve_entry(tx, e),
{
    let table = account_table(tx);
    let r = resolve_entry(tx, e).1;
    let e2 = recompile(tx, e.0, r);
    assert(table[e.1 as int] == table[e.1 as int]);
    let p = position_of(table, table[e.1 as int]);
    assert(0 <= p < table.len() && table[p] == table[e.1 as int]);
    assert(p == e.1 as int);
    assert(e2.1 == e.1);
    assert forall|k: int| 0 <= k < e.2.len() implies (#[trigger] e2.2[k]) == e.2[k] by {
        let x = e.2[k] as int;
        assert(r.1[k] == account_at(tx, x));
        assert(account_at(tx, x).pubkey == table[x]);
        let q = position_of(table, table[x]);
        assert(0 <= q < table.len() && table[q] == table[x]);
    }
    assert(e2.2 =~= e.2);
    assert(e2 == (e.0, e.1, e.2, e.3));
}

/// Where the account table of `tx` holds each key once and every
/// instruction of `tx` resolves, compiling each flattened instruction back
/// against that table and resolving it again gives the flattened
/// instructions themselves.
pub proof fn lemma_reflatten_round_trip(tm: TransactionMetadata, tx: SolanaTransaction)
    requires
        plan_resolves(tm, tx),
        distinct_keys(account_table(tx)),
    ensures
        forall|k: int| 0 <= k < flattened(tm, tx).len() ==> resolve_entry(
            tx,
            recompile(tx, (#[trigger] flattened(tm, tx)[k]).0, flattened(tm, tx)[k].1),
        ) == flattened(tm, tx)[k],
{
    assert forall|k: int| 0 <= k < flattened(tm, tx).len() implies resolve_entry(
        tx,
        recompile(tx, (#[trigger] flattened(tm, tx)[k]).0, flattened(tm, tx)[k].1),
    ) == flattened(tm, tx)[k] by {
        let e = plan(tm, tx)[k];
        assert(resolves(tx, e));
        assert(flattened(tm, tx)[k] == resolve_entry(tx, e));
        lemma_recompile_resolve_round_trip(tx, e);
    }
}

/// Whether the atom `cond` names a parameter that `args` lacks.
pub open spec fn names_absent(cond: Seq<char>, args: Seq<ParamView>) -> bool {
    let parts = words(trim(trim(cond, false), true));
    parts.len() > 0 && param_index(args, parts[0]) is None
}

/// The atoms of the `AND` group `g`.
pub open spec fn group_atoms(g: Seq<char>) -> Seq<Seq<char>> {
    split_by(trim(g, false), " AND "@)
}

/// Whether some atom of the `AND` group `g` names a parameter absent from
/// `args`.
pub open spec fn has_absent_atom(g: Seq<char>, args: Seq<ParamView>) -> bool {
    exists|j: int| 0 <= j < group_atoms(g).len() && #[trigger] names_absent(group_atoms(g)[j], args)
}

/// The `OR` groups of the expression `e`.
pub open spec fn or_groups(e: Seq<char>) -> Seq<Seq<char>> {
    split_by(e, " OR "@)
}

/// An expression is false wherever each of its `OR` groups holds an atom
/// that names a parameter absent from the list.
pub proof fn lemma_absent_names_are_false(e: Seq<char>, args: Seq<ParamView>)
    requires
        forall|i: int| 0 <= i < or_groups(e).len() ==> has_absent_atom(#[trigger] or_groups(e)[i], args),
    ensures
        !expression_holds(e, args),
{
    let groups = split_by(e, " OR "@);
    assert forall|i: int| 0 <= i < groups.len() implies !#[trigger] group_holds(groups[i], args) by {
        assert(has_absent_atom(or_groups(e)[i], args));
        let atoms = split_by(trim(groups[i], false), " AND "@);
        let j = choose|j: int| 0 <= j < group_atoms(groups[i]).len() && #[trigger] names_absent(group_atoms(groups[i])[j], args);
        assert(!atom_holds(atoms[j], args));
    }
}

/// An expression whose single `OR` group has an atom naming an absent
/// parameter is false.
pub proof fn lemma_absent_name_in_single_group(e: Seq<char>, args: Seq<ParamView>, j: int)
    requires
        or_groups(e).len() == 1,
        0 <= j < group_atoms(or_groups(e)[0]).len(),
        names_absent(group_atoms(or_groups(e)[0])[j], args),
    ensures
        !expression_holds(e, args),
{
    assert(has_absent_atom(or_groups(e)[0], args));
    lemma_absent_names_are_false(e, args);
}

/// A monitor seen as plain values.
pub open spec fn monitor_view(m: crate::monitor::Monitor) -> (
    String,
    Seq<String>,
    bool,
    Seq<AddressWithSpec>,
    Seq<FunctionCondition>,
    Seq<EventCondition>,
    Seq<TransactionCondition>,
    Seq<(String, String, Option<Seq<String>>, u32)>,
    Seq<String>,
) {
    (
        m.name,
        m.networks@,
        m.paused,
        m.addresses@,
        m.match_conditions.functions@,
        m.match_conditions.events@,
        m.match_conditions.transactions@,
        m.trigger_conditions@.map_values(|t: TriggerConditions| trigger_view(t)),
        m.triggers@,
    )
}

/// A match record seen as plain values.
pub open spec fn match_view(x: SolanaMonitorMatch) -> (
    (
        String,
        Seq<String>,
        bool,
        Seq<AddressWithSpec>,
        Seq<FunctionCondition>,
        Seq<EventCondition>,
        Seq<TransactionCondition>,
        Seq<(String, String, Option<Seq<String>>, u32)>,
        Seq<String>,
    ),
    Seq<char>,
    (Seq<FunctionCondition>, Seq<String>, Seq<TransactionCondition>),
    Option<(Option<Seq<crate::filter::ParamsMapView>>, Option<Seq<AccountMeta>>)>,
    <SolanaTransaction as View>::V,
) {
    (
        monitor_view(x.monitor),
        x.network_slug@,
        (x.matched_on.instructions@, x.matched_on.accounts@, x.matched_on.transactions@),
        match x.matched_on_args {
            Some(a) => Some(
                (
                    match a.instructions {
                        Some(v) => Some(v@.map_values(|p: SolanaMatchParamsMap| params_map_view(p))),
                        None => None,
                    },
                    match a.accounts {
                        Some(v) => Some(v@),
                        None => None,
                    },
                ),
            ),
            None => None,
        },
        x.transaction@,
    )
}

proof fn lemma_record_determined(
    slug: Seq<char>,
    m: crate::monitor::Monitor,
    tx: SolanaTransaction,
    decoded: Seq<Option<DecodedInstruction>>,
    x: SolanaMonitorMatch,
    y: SolanaMonitorMatch,
)
    requires
        record_holds(slug, m, tx, decoded, x),
        record_holds(slug, m, tx, decoded, y),
    ensures
        match_view(x) == match_view(y),
{
    assert(x.matched_on.accounts@ =~= y.matched_on.accounts@);
    let ax = x.matched_on_args->0;
    let ay = y.matched_on_args->0;
    assert(ax.accounts->0@ =~= ay.accounts->0@);
}

/// For the same block, monitors and decoding results, every two runs of the
/// matching pass give the same match records, in the same order.
pub proof fn lemma_matching_is_deterministic(
    slug: Seq<char>,
    monitors: Seq<crate::monitor::Monitor>,
    txs: Seq<SolanaTransaction>,
    decs: Seq<Seq<Option<DecodedInstruction>>>,
    r1: Seq<SolanaMonitorMatch>,
    r2: Seq<SolanaMonitorMatch>,
)
    requires
        block_records_hold(slug, monitors, txs, decs, r1),
        block_records_hold(slug, monitors, txs, decs, r2),
    ensures
        r1.map_values(|x: SolanaMonitorMatch| match_view(x)) == r2.map_values(|x: SolanaMonitorMatch| match_view(x)),
{
    let pairs = crate::filter::block_pairs(monitors, txs, decs, monitors.len() as int);
    assert forall|k: int| 0 <= k < r1.len() implies #[trigger] match_view(r1[k]) == match_view(r2[k]) by {
        let p = pairs[k];
        lemma_record_determined(slug, monitors[p.0], txs[p.1], decs[p.1], r1[k], r2[k]);
    }
    assert(r1.map_values(|x: SolanaMonitorMatch| match_view(x)) =~= r2.map_values(|x: SolanaMonitorMatch| match_view(x)));
}

/// Whether each decoder's answer, as matching reads it, depends only on the
/// instruction's program, accounts and data.
pub open spec fn view_determined<D: InstructionDecoder>(decoders: Seq<D>) -> bool {
    forall|i: int, a: Instruction, b: Instruction|
        0 <= i < decoders.len() && a@ == b@ ==> decoding_view(#[trigger] decoders[i].decoded(a))
            == decoding_view(#[trigger] decoders[i].decoded(b))
}

proof fn lemma_first_decoded_view<D: InstructionDecoder>(decoders: Seq<D>, a: Instruction, b: Instruction, i: int)
    requires
        view_determined(decoders),
        a@ == b@,
    ensures
        decoding_view(first_decoded(decoders, a, i)) == decoding_view(first_decoded(decoders, b, i)),
    decreases decoders.len() - i,
{
    if 0 <= i < decoders.len() {
        assert(decoding_view(decoders[i].decoded(a)) == decoding_view(decoders[i].decoded(b)));
        lemma_first_decoded_view(decoders, a, b, i + 1);
    }
}

proof fn lemma_first_met_views(m: Monitor, nodes: Seq<FlatEntry>, d1: Seq<Option<DecodedInstruction>>, d2: Seq<Option<DecodedInstruction>>, c: FunctionCondition, i: int)
    requires
        same_decodings(d1, d2),
    ensures
        first_met(m, nodes, d1, c, i) == first_met(m, nodes, d2, c, i),
        forall|k: int| #[trigger] node_decoded(m, nodes, d1, k) is Some <==> node_decoded(m, nodes, d2, k) is Some,
    decreases nodes.len() - i,
{
    assert forall|k: int| #[trigger] node_decoded(m, nodes, d1, k) is Some <==> node_decoded(m, nodes, d2, k) is Some by {
        if 0 <= k < d1.len() {
            assert(decoding_view(d1[k]) == decoding_view(d2[k]));
        }
    }
    if 0 <= i < nodes.len() {
        if 0 <= i < d1.len() {
            assert(decoding_view(d1[i]) == decoding_view(d2[i]));
        }
        assert(condition_met(m, nodes, d1, i, c) == condition_met(m, nodes, d2, i, c));
        lemma_first_met_views(m, nodes, d1, d2, c, i + 1);
    }
}

/// Matching reads decoding results only through what `decoding_view` keeps.
proof fn lemma_matching_reads_views(m: Monitor, nodes: Seq<FlatEntry>, d1: Seq<Option<DecodedInstruction>>, d2: Seq<Option<DecodedInstruction>>)
    requires
        same_decodings(d1, d2),
    ensures
        instruction_matches(m, nodes, d1) == instruction_matches(m, nodes, d2),
        instruction_args(m, nodes, d1) == instruction_args(m, nodes, d2),
{
    let p1 = |c: FunctionCondition| condition_matched(m, nodes, d1, c);
    let p2 = |c: FunctionCondition| condition_matched(m, nodes, d2, c);
    let a1 = |c: FunctionCondition| condition_args(m, nodes, d1, c);
    let a2 = |c: FunctionCondition| condition_args(m, nodes, d2, c);
    assert forall|c: FunctionCondition| #[trigger] p1(c) == p2(c) && a1(c) == a2(c) by {
        lemma_first_met_views(m, nodes, d1, d2, c, 0);
        match first_met(m, nodes, d1, c, 0) {
            Some(k) => {
                if 0 <= k < d1.len() {
                    assert(decoding_view(d1[k]) == decoding_view(d2[k]));
                }
                match (node_decoded(m, nodes, d1, k), node_decoded(m, nodes, d2, k)) {
                    (Some(x), Some(y)) => {
                        assert(instruction_params(x) == instruction_params(y));
                    },
                    _ => {},
                }
                assert(condition_args(m, nodes, d1, c) == condition_args(m, nodes, d2, c));
            },
            None => {},
        }
    }
    assert(p1 =~= p2);
    assert(instruction_args(m, nodes, d1) =~= instruction_args(m, nodes, d2));
}

proof fn lemma_pairs_views(monitors: Seq<Monitor>, txs: Seq<SolanaTransaction>, d1: Seq<Seq<Option<DecodedInstruction>>>, d2: Seq<Seq<Option<DecodedInstruction>>>, n: int)
    requires
        d1.len() == txs.len(),
        d2.len() == txs.len(),
        forall|j: int| 0 <= j < txs.len() ==> same_decodings(#[trigger] d1[j], d2[j]),
    ensures
        block_pairs(monitors, txs, d1, n) == block_pairs(monitors, txs, d2, n),
    decreases n,
{
    if 0 < n <= monitors.len() {
        lemma_pairs_views(monitors, txs, d1, d2, n - 1);
        lemma_monitor_pairs_views(monitors[n - 1], n - 1, txs, d1, d2, txs.len() as int);
    }
}

proof fn lemma_monitor_pairs_views(m: Monitor, i: int, txs: Seq<SolanaTransaction>, d1: Seq<Seq<Option<DecodedInstruction>>>, d2: Seq<Seq<Option<DecodedInstruction>>>, n: int)
    requires
        d1.len() == txs.len(),
        d2.len() == txs.len(),
        forall|j: int| 0 <= j < txs.len() ==> same_decodings(#[trigger] d1[j], d2[j]),
    ensures
        monitor_pairs(m, i, txs, d1, n) == monitor_pairs(m, i, txs, d2, n),
    decreases n,
{
    if 0 < n <= txs.len() {
        lemma_monitor_pairs_views(m, i, txs, d1, d2, n - 1);
        assert(same_decodings(d1[n - 1], d2[n - 1]));
        lemma_matching_reads_views(m, instruction_nodes(txs[n - 1]), d1[n - 1], d2[n - 1]);
    }
}

proof fn lemma_monitor_pairs_range(m: Monitor, i: int, txs: Seq<SolanaTransaction>, d: Seq<Seq<Option<DecodedInstruction>>>, n: int)
    ensures
        forall|k: int| 0 <= k < monitor_pairs(m, i, txs, d, n).len() ==> (#[trigger] monitor_pairs(m, i, txs, d, n)[k]).0 == i
            && 0 <= monitor_pairs(m, i, txs, d, n)[k].1 < txs.len(),
    decreases n,
{
    if 0 < n <= txs.len() && n <= d.len() {
        lemma_monitor_pairs_range(m, i, txs, d, n - 1);
        let a = monitor_pairs(m, i, txs, d, n - 1);
        assert forall|k: int| 0 <= k < monitor_pairs(m, i, txs, d, n).len() implies (#[trigger] monitor_pairs(m, i, txs, d, n)[k]).0 == i
            && 0 <= monitor_pairs(m, i, txs, d, n)[k].1 < txs.len() by {
            if k < a.len() {
                assert(monitor_pairs(m, i, txs, d, n)[k] == a[k]);
            }
        }
    }
}

proof fn lemma_pairs_range(monitors: Seq<Monitor>, txs: Seq<SolanaTransaction>, d: Seq<Seq<Option<DecodedInstruction>>>, n: int)
    ensures
        forall|k: int| 0 <= k < block_pairs(monitors, txs, d, n).len() ==> 0 <= (#[trigger] block_pairs(monitors, txs, d, n)[k]).0 < monitors.len()
            && 0 <= block_pairs(monitors, txs, d, n)[k].1 < txs.len(),
    decreases n,
{
    if 0 < n <= monitors.len() {
        lemma_pairs_range(monitors, txs, d, n - 1);
        lemma_monitor_pairs_range(monitors[n - 1], n - 1, txs, d, txs.len() as int);
        let a = block_pairs(monitors, txs, d, n - 1);
        let b = monitor_pairs(monitors[n - 1], n - 1, txs, d, txs.len() as int);
        assert forall|k: int| 0 <= k < block_pairs(monitors, txs, d, n).len() implies 0 <= (#[trigger] block_pairs(monitors, txs, d, n)[k]).0 < monitors.len()
            && 0 <= block_pairs(monitors, txs, d, n)[k].1 < txs.len() by {
            if k < a.len() {
                assert(block_pairs(monitors, txs, d, n)[k] == a[k]);
            } else {
                assert(block_pairs(monitors, txs, d, n)[k] == b[k - a.len()]);
            }
        }
    }
}

/// Running the block pass twice on the same block with the same monitors
/// and decoders gives the same match records in the same order, where each
/// decoder's answer depends only on the instruction's program, accounts and
/// data.
pub proof fn lemma_pipeline_is_idempotent<D: InstructionDecoder>(
    slug: Seq<char>,
    monitors: Seq<Monitor>,
    txs: Seq<SolanaTransaction>,
    decoders: Seq<D>,
    lists1: Seq<Seq<(InstructionMetadata, Instruction)>>,
    decs1: Seq<Seq<Option<DecodedInstruction>>>,
    lists2: Seq<Seq<(InstructionMetadata, Instruction)>>,
    decs2: Seq<Seq<Option<DecodedInstruction>>>,
    r1: Seq<SolanaMonitorMatch>,
    r2: Seq<SolanaMonitorMatch>,
)
    requires
        view_determined(decoders),
        registry_fits(decoders, txs, lists1, decs1),
        registry_fits(decoders, txs, lists2, decs2),
        block_records_hold(slug, monitors, txs, decs1, r1),
        block_records_hold(slug, monitors, txs, decs2, r2),
    ensures
        r1.map_values(|x: SolanaMonitorMatch| match_view(x)) == r2.map_values(|x: SolanaMonitorMatch| match_view(x)),
{
    assert forall|j: int| 0 <= j < txs.len() implies same_decodings(#[trigger] decs1[j], decs2[j]) by {
        let l1 = lists1[j];
        let l2 = lists2[j];
        assert(flat_view(l1) == instruction_nodes(txs[j]) && flat_view(l2) == instruction_nodes(txs[j]));
        assert(same_decodings(decs1[j], registry_decodings(decoders, l1)));
        assert(same_decodings(decs2[j], registry_decodings(decoders, l2)));
        assert(flat_view(l1).len() == l1.len() && flat_view(l2).len() == l2.len());
        assert(decs1[j].len() == l1.len() && decs2[j].len() == l2.len());
        assert forall|k: int| 0 <= k < decs1[j].len() implies decoding_view(#[trigger] decs1[j][k]) == decoding_view(decs2[j][k]) by {
            assert(flat_view(l1)[k] == flat_view(l2)[k]);
            assert(flat_view(l1)[k] == (l1[k].0, l1[k].1@));
            assert(flat_view(l2)[k] == (l2[k].0, l2[k].1@));
            lemma_first_decoded_view(decoders, l1[k].1, l2[k].1, 0);
            assert(decoding_view(decs1[j][k]) == decoding_view(registry_decodings(decoders, l1)[k]));
            assert(decoding_view(decs2[j][k]) == decoding_view(registry_decodings(decoders, l2)[k]));
        }
    }
    let pairs = block_pairs(monitors, txs, decs1, monitors.len() as int);
    lemma_pairs_views(monitors, txs, decs1, decs2, monitors.len() as int);
    lemma_pairs_range(monitors, txs, decs1, monitors.len() as int);
    assert forall|k: int| 0 <= k < r2.len() implies record_holds(slug, monitors[pairs[k].0], txs[pairs[k].1], decs1[pairs[k].1], #[trigger] r2[k]) by {
        let p = pairs[k];
        assert(record_holds(slug, monitors[p.0], txs[p.1], decs2[p.1], r2[k]));
        assert(same_decodings(decs1[p.1], decs2[p.1]));
        lemma_matching_reads_views(monitors[p.0], instruction_nodes(txs[p.1]), decs1[p.1], decs2[p.1]);
    }
    assert(block_records_hold(slug, monitors, txs, decs1, r2));
    lemma_matching_is_deterministic(slug, monitors, txs, decs1, r1, r2);
}

/// The Jupiter DCA decoder answers by the instruction's program, accounts
/// and data alone, so the idempotence of the block pass holds for it
/// without further assumption.
pub proof fn lemma_jupiter_dca_view_determined(decoders: Seq<crate::jupiter::JupiterDca>)
    ensures
        view_determined(decoders),
{
    assert forall|i: int, a: Instruction, b: Instruction|
        0 <= i < decoders.len() && a@ == b@ implies decoding_view(#[trigger] decoders[i].decoded(a))
            == decoding_view(#[trigger] decoders[i].decoded(b)) by {
        assert(crate::jupiter::dca_view(a) == crate::jupiter::dca_view(b));
    }
}

} // verus!
