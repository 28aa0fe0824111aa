//! The call tree of a transaction: the flat, height-tagged instruction list
//! folded into a forest with one tree per top-level instruction.
use vstd::prelude::*;
use crate::model::{AccountMeta, Instruction, Pubkey};
use crate::resolve::{flat_view, InstructionMetadata};

verus! {

broadcast use {
    vstd::seq::axiom_seq_subrange_decreases,
    vstd::seq::axiom_seq_index_decreases,
    vstd::std_specs::vec::axiom_vec_decreases_to_view,
};

/// An instruction with its metadata and the instructions it invoked.
#[derive(Debug)]
pub struct NestedInstruction {
    pub metadata: InstructionMetadata,
    pub instruction: Instruction,
    pub inner_instructions: Vec<NestedInstruction>,
}

/// A forest of nested instructions, in execution order.
#[derive(Debug)]
pub struct NestedInstructions(pub Vec<NestedInstruction>);

/// One instruction of a flat list, seen as plain values.
pub type FlatEntry = (InstructionMetadata, (Pubkey, Seq<AccountMeta>, Seq<u8>));

/// The instruction at a node, with its metadata.
pub open spec fn entry_of(n: NestedInstruction) -> FlatEntry {
    (n.metadata, n.instruction@)
}

/// The instructions of a forest in pre-order: each node before its
/// children, siblings in order.
pub open spec fn forest_preorder(f: Seq<NestedInstruction>) -> Seq<FlatEntry>
    decreases f,
    via preorder_decreases
{
    if f.len() == 0 {
        Seq::empty()
    } else {
        forest_preorder(f.drop_last()) + seq![entry_of(f.last())] + forest_preorder(
            f.last().inner_instructions@,
        )
    }
}

/// Whether every child in the forest stands one call-stack level below its
/// parent, at a height above 1.
pub open spec fn well_nested(f: Seq<NestedInstruction>) -> bool
    decreases f,
    via nesting_decreases
{
    if f.len() == 0 {
        true
    } else {
        let kids = f.last().inner_instructions@;
        &&& well_nested(f.drop_last())
        &&& well_nested(kids)
        &&& forall|k: int|
            0 <= k < kids.len() ==> (#[trigger] kids[k]).metadata.stack_height as int
                == f.last().metadata.stack_height as int + 1 && kids[k].metadata.stack_height > 1
    }
}

/// The heights of the nodes on the forest's rightmost path, from its last
/// root down: the nodes still open to new children.
pub open spec fn open_path(f: Seq<NestedInstruction>) -> Seq<u32>
    decreases f,
    via path_decreases
{
    if f.len() == 0 {
        Seq::empty()
    } else {
        seq![f.last().metadata.stack_height] + open_path(f.last().inner_instructions@)
    }
}

/// For each node of the forest in pre-order, the pre-order position of its
/// parent, counting positions from `offset` and giving the roots `parent`.
pub open spec fn forest_parents(f: Seq<NestedInstruction>, offset: int, parent: Option<int>) -> Seq<Option<int>>
    decreases f,
    via parents_decreases
{
    if f.len() == 0 {
        Seq::empty()
    } else {
        let pos = offset + forest_preorder(f.drop_last()).len();
        forest_parents(f.drop_last(), offset, parent) + seq![parent] + forest_parents(
            f.last().inner_instructions@,
            pos + 1,
            Some(pos),
        )
    }
}

/// The pre-order positions (counted from `offset`) of the nodes on the
/// forest's rightmost path, from its last root down.
pub open spec fn path_positions(f: Seq<NestedInstruction>, offset: int) -> Seq<int>
    decreases f,
    via positions_decreases
{
    if f.len() == 0 {
        Seq::empty()
    } else {
        let pos = offset + forest_preorder(f.drop_last()).len();
        seq![pos] + path_positions(f.last().inner_instructions@, pos + 1)
    }
}

/// Among the first `m` open positions, the deepest whose entry has height `h`.
pub open spec fn deepest_open(es: Seq<FlatEntry>, open: Seq<int>, h: int, m: int) -> Option<int>
    decreases m,
{
    if m <= 0 || m > open.len() {
        None
    } else if es[open[m - 1]].0.stack_height as int == h {
        Some(m - 1)
    } else {
        deepest_open(es, open, h, m - 1)
    }
}

/// The depth on the open path `open` where entry `p` attaches: the deepest
/// open node one level above it, when its height is above 1.
pub open spec fn attach_depth(es: Seq<FlatEntry>, open: Seq<int>, p: int) -> Option<int> {
    if es[p].0.stack_height > 1 {
        deepest_open(es, open, es[p].0.stack_height as int - 1, open.len() as int)
    } else {
        None
    }
}

/// The positions of the open nodes, root first, after the first `n`
/// entries: an entry that attaches closes every open node below its parent
/// and opens itself; one that does not starts a new tree.
pub open spec fn open_after(es: Seq<FlatEntry>, n: int) -> Seq<int>
    decreases n,
{
    if n <= 0 {
        Seq::empty()
    } else {
        let open = open_after(es, n - 1);
        match attach_depth(es, open, n - 1) {
            Some(d) => open.take(d + 1).push(n - 1),
            None => seq![n - 1],
        }
    }
}

/// The position of the parent of entry `p`: the open node it attaches to,
/// or `None` where it starts a new tree.
pub open spec fn parent_position(es: Seq<FlatEntry>, p: int) -> Option<int> {
    match attach_depth(es, open_after(es, p), p) {
        Some(d) => Some(open_after(es, p)[d]),
        None => None,
    }
}

/// The parent position of every entry of a flat list.
pub open spec fn nesting(es: Seq<FlatEntry>) -> Seq<Option<int>> {
    Seq::new(es.len(), |p: int| parent_position(es, p))
}

/// The number of nodes in the forest.
pub open spec fn node_count(f: Seq<NestedInstruction>) -> nat {
    forest_preorder(f).len()
}

#[via_fn]
proof fn preorder_decreases(f: Seq<NestedInstruction>) {
    lemma_forest_decreases(f);
}

#[via_fn]
proof fn nesting_decreases(f: Seq<NestedInstruction>) {
    lemma_forest_decreases(f);
}

#[via_fn]
proof fn path_decreases(f: Seq<NestedInstruction>) {
    lemma_forest_decreases(f);
}

#[via_fn]
proof fn parents_decreases(f: Seq<NestedInstruction>, offset: int, parent: Option<int>) {
    lemma_forest_decreases(f);
}

#[via_fn]
proof fn positions_decreases(f: Seq<NestedInstruction>, offset: int) {
    lemma_forest_decreases(f);
}

proof fn lemma_forest_decreases(f: Seq<NestedInstruction>)
    ensures
        f.len() > 0 ==> decreases_to!(f => f.drop_last()),
        f.len() > 0 ==> decreases_to!(f => f.last().inner_instructions@),
{
    if f.len() > 0 {
        assert(f.drop_last() == f.subrange(0, f.len() - 1));
        assert(decreases_to!(f => f.drop_last()));
        let last = f[f.len() - 1];
        assert(decreases_to!(f => last));
        assert(decreases_to!(last => last.inner_instructions));
        assert(decreases_to!(last.inner_instructions => last.inner_instructions@));
    }
}

proof fn lemma_counts(f: Seq<NestedInstruction>, offset: int, parent: Option<int>)
    ensures
        forest_parents(f, offset, parent).len() == forest_preorder(f).len(),
        forest_preorder(f).len() >= f.len(),
    decreases f,
{
    if f.len() > 0 {
        lemma_forest_decreases(f);
        let pos = offset + forest_preorder(f.drop_last()).len();
        lemma_counts(f.drop_last(), offset, parent);
        lemma_counts(f.last().inner_instructions@, pos + 1, Some(pos));
    }
}

/// A call (height 1) followed by one instruction it invoked (height 2) gives
/// one tree: the call as its root, with that instruction as its only child.
pub proof fn lemma_one_call_with_one_inner(es: Seq<FlatEntry>, f: Seq<NestedInstruction>)
    requires
        es.len() == 2,
        es[0].0.stack_height == 1,
        es[1].0.stack_height == 2,
        forest_preorder(f) == es,
        forest_parents(f, 0, None) == nesting(es),
    ensures
        f.len() == 1,
        f[0].inner_instructions@.len() == 1,
        entry_of(f[0]) == es[0],
        entry_of(f[0].inner_instructions@[0]) == es[1],
{
    assert(open_after(es, 1) == seq![0int]);
    assert(deepest_open(es, seq![0int], 1, 1) == Some(0int));
    assert(nesting(es)[1] == Some(0int));
    assert(nesting(es)[0] is None);
    lemma_counts(f, 0, None);
    let rest = f.drop_last();
    let last = f.last();
    let kids = last.inner_instructions@;
    let pos = forest_preorder(rest).len() as int;
    lemma_counts(rest, 0, None);
    lemma_counts(kids, pos + 1, Some(pos));
    assert(forest_parents(f, 0, None) == forest_parents(rest, 0, None) + seq![None::<int>] + forest_parents(kids, pos + 1, Some(pos)));
    assert(forest_parents(f, 0, None)[pos] is None);
    assert(pos == 0);
    assert(rest.len() == 0);
    assert(f.len() == 1);
    assert(f[0] == last);
    assert(forest_preorder(f) == forest_preorder(rest) + seq![entry_of(last)] + forest_preorder(kids));
    assert(forest_preorder(kids).len() == 1);
    assert(kids.len() >= 1);
    let krest = kids.drop_last();
    let klast = kids.last();
    lemma_counts(krest, 1, Some(0));
    assert(forest_preorder(kids) == forest_preorder(krest) + seq![entry_of(klast)] + forest_preorder(klast.inner_instructions@));
    assert(krest.len() == 0);
    assert(kids[0] == klast);
}

proof fn lemma_path_lengths(f: Seq<NestedInstruction>, offset: int)
    ensures
        path_positions(f, offset).len() == open_path(f).len(),
    decreases f,
{
    if f.len() > 0 {
        lemma_forest_decreases(f);
        let pos = offset + forest_preorder(f.drop_last()).len();
        lemma_path_lengths(f.last().inner_instructions@, pos + 1);
    }
}

proof fn lemma_push_tree(f: Seq<NestedInstruction>, x: NestedInstruction)
    ensures
        forest_preorder(f.push(x)) == forest_preorder(f) + seq![entry_of(x)] + forest_preorder(
            x.inner_instructions@,
        ),
        open_path(f.push(x)) == seq![x.metadata.stack_height] + open_path(x.inner_instructions@),
        forall|offset: int, parent: Option<int>| #[trigger] forest_parents(f.push(x), offset, parent)
            == forest_parents(f, offset, parent) + seq![parent] + forest_parents(
                x.inner_instructions@,
                offset + forest_preorder(f).len() + 1,
                Some(offset + forest_preorder(f).len()),
            ),
        forall|offset: int| #[trigger] path_positions(f.push(x), offset)
            == seq![offset + forest_preorder(f).len()] + path_positions(x.inner_instructions@, offset + forest_preorder(f).len() + 1),
        well_nested(f.push(x)) == (well_nested(f) && well_nested(x.inner_instructions@) && forall|k: int|
            0 <= k < x.inner_instructions@.len() ==> (#[trigger] x.inner_instructions@[k]).metadata.stack_height as int
                == x.metadata.stack_height as int + 1 && x.inner_instructions@[k].metadata.stack_height > 1),
{
    assert(f.push(x).drop_last() =~= f);
    assert(f.push(x).last() == x);
}

/// Adds `node` as the last child of the node at `depth` on the rightmost
/// path (0 is the last root).
fn push_at_depth(forest: &mut Vec<NestedInstruction>, depth: usize, node: NestedInstruction)
    requires
        depth < open_path(old(forest)@).len(),
        node.inner_instructions@.len() == 0,
    ensures
        forest_preorder(final(forest)@) == forest_preorder(old(forest)@).push(entry_of(node)),
        open_path(final(forest)@) == open_path(old(forest)@).take(depth + 1).push(
            node.metadata.stack_height,
        ),
        well_nested(old(forest)@) && node.metadata.stack_height as int == open_path(old(forest)@)[depth as int] as int + 1
            && node.metadata.stack_height > 1 ==> well_nested(final(forest)@),
        final(forest)@.len() == old(forest)@.len(),
        forall|k: int| 0 <= k < old(forest)@.len() ==> (#[trigger] final(forest)@[k]).metadata == old(forest)@[k].metadata,
        forall|offset: int, parent: Option<int>| #[trigger] forest_parents(final(forest)@, offset, parent)
            == forest_parents(old(forest)@, offset, parent).push(Some(path_positions(old(forest)@, offset)[depth as int])),
        forall|offset: int| #[trigger] path_positions(final(forest)@, offset)
            == path_positions(old(forest)@, offset).take(depth + 1).push(offset + forest_preorder(old(forest)@).len()),
    decreases depth,
{
    let ghost f0 = forest@;
    let ghost nh = node.metadata.stack_height;
    let mut last = forest.pop().unwrap();
    let ghost rest = forest@;
    let ghost kids0 = last.inner_instructions@;
    proof {
        assert(f0 =~= rest.push(last));
        lemma_push_tree(rest, last);
        assert(forest_preorder(Seq::<NestedInstruction>::empty()) == Seq::<FlatEntry>::empty());
        assert(open_path(Seq::<NestedInstruction>::empty()) == Seq::<u32>::empty());
    }
    if depth == 0 {
        last.inner_instructions.push(node);
        proof {
            lemma_push_tree(kids0, node);
            assert(forest_preorder(node.inner_instructions@) =~= Seq::<FlatEntry>::empty());
            assert(open_path(node.inner_instructions@) =~= Seq::<u32>::empty());
            assert(well_nested(node.inner_instructions@));
            assert(well_nested(kids0.push(node)) ==> well_nested(kids0));
        }
    } else {
        push_at_depth(&mut last.inner_instructions, depth - 1, node);
    }
    let ghost kids1 = last.inner_instructions@;
    proof {
        lemma_push_tree(rest, last);
        assert(forest_preorder(rest.push(last)) == forest_preorder(rest) + seq![entry_of(last)]
            + forest_preorder(kids1));
        assert(forest_preorder(rest.push(last)) =~= forest_preorder(f0).push(entry_of(node)));
        assert(open_path(rest.push(last)) =~= open_path(f0).take(depth + 1).push(
            node.metadata.stack_height,
        ));
        if well_nested(f0) && nh as int == open_path(f0)[depth as int] as int + 1 && nh > 1 {
            if depth == 0 {
                assert forall|k: int| 0 <= k < kids1.len() implies (#[trigger] kids1[k]).metadata.stack_height as int
                    == last.metadata.stack_height as int + 1 && kids1[k].metadata.stack_height > 1 by {
                    if k < kids0.len() {
                        assert(kids1[k] == kids0[k]);
                    }
                }
            } else {
                assert(open_path(f0)[depth as int] == open_path(kids0)[depth - 1]);
                assert forall|k: int| 0 <= k < kids1.len() implies (#[trigger] kids1[k]).metadata.stack_height as int
                    == last.metadata.stack_height as int + 1 && kids1[k].metadata.stack_height > 1 by {
                    assert(kids1[k].metadata == kids0[k].metadata);
                }
            }
        }
        if depth == 0 {
            lemma_push_tree(kids0, node);
            assert(forall|o: int, p: Option<int>| #[trigger] forest_parents(node.inner_instructions@, o, p) =~= Seq::<Option<int>>::empty());
            assert(forall|o: int| #[trigger] path_positions(node.inner_instructions@, o) =~= Seq::<int>::empty());
        }
        assert forall|offset: int, parent: Option<int>| #[trigger] forest_parents(rest.push(last), offset, parent)
            == forest_parents(f0, offset, parent).push(Some(path_positions(f0, offset)[depth as int])) by {
            let pos = offset + forest_preorder(rest).len();
            lemma_path_lengths(kids0, pos + 1);
            lemma_path_lengths(f0, offset);
            assert(path_positions(f0, offset) == seq![pos] + path_positions(kids0, pos + 1));
            assert(forest_parents(f0, offset, parent) == forest_parents(rest, offset, parent) + seq![parent]
                + forest_parents(kids0, pos + 1, Some(pos)));
            assert(forest_parents(rest.push(last), offset, parent) == forest_parents(rest, offset, parent) + seq![parent]
                + forest_parents(kids1, pos + 1, Some(pos)));
            if depth == 0 {
                assert(forest_parents(kids1, pos + 1, Some(pos)) =~= forest_parents(kids0, pos + 1, Some(pos)).push(Some(pos)));
            } else {
                assert(path_positions(f0, offset)[depth as int] == path_positions(kids0, pos + 1)[depth - 1]);
            }
            assert(forest_parents(rest.push(last), offset, parent)
                =~= forest_parents(f0, offset, parent).push(Some(path_positions(f0, offset)[depth as int])));
        }
        assert forall|offset: int| #[trigger] path_positions(rest.push(last), offset)
            == path_positions(f0, offset).take(depth + 1).push(offset + forest_preorder(f0).len()) by {
            let pos = offset + forest_preorder(rest).len();
            lemma_path_lengths(kids0, pos + 1);
            lemma_path_lengths(f0, offset);
            assert(path_positions(f0, offset) == seq![pos] + path_positions(kids0, pos + 1));
            assert(path_positions(rest.push(last), offset) == seq![pos] + path_positions(kids1, pos + 1));
            assert(forest_preorder(f0).len() == forest_preorder(rest).len() + 1 + forest_preorder(kids0).len());
            if depth == 0 {
                assert(path_positions(kids1, pos + 1) =~= seq![pos + 1 + forest_preorder(kids0).len()]);
            }
            assert(path_positions(rest.push(last), offset)
                =~= path_positions(f0, offset).take(depth + 1).push(offset + forest_preorder(f0).len()));
        }
    }
    forest.push(last);
    assert(forest@ =~= rest.push(last));
}

/// Appends the instructions of the forest `f` to `out`, in pre-order.
fn collect_preorder(f: &Vec<NestedInstruction>, out: &mut Vec<(InstructionMetadata, Instruction)>)
    ensures
        flat_view(final(out)@) == flat_view(old(out)@) + forest_preorder(f@),
    decreases f@,
{
    let ghost start = out@;
    let mut i: usize = 0;
    assert(f@.take(0) =~= Seq::<NestedInstruction>::empty());
    while i < f.len()
        invariant
            i <= f.len(),
            flat_view(out@) == flat_view(start) + forest_preorder(f@.take(i as int)),
        decreases f.len() - i,
    {
        let n = &f[i];
        let ghost before = out@;
        proof {
            lemma_push_tree(f@.take(i as int), *n);
            assert(f@.take(i + 1) =~= f@.take(i as int).push(*n));
            assert(flat_view(before.push((n.metadata, n.instruction))) =~= flat_view(before).push(entry_of(*n)));
            assert(decreases_to!(f@ => f@[i as int]));
        }
        out.push((n.metadata, n.instruction.duplicate()));
        assert(flat_view(out@) =~= flat_view(before).push(entry_of(*n)));
        collect_preorder(&n.inner_instructions, out);
        i = i + 1;
        assert(flat_view(out@) =~= flat_view(start) + forest_preorder(f@.take(i as int)));
    }
    assert(f@.take(i as int) =~= f@);
}

impl NestedInstructions {
    /// The instructions of the forest in pre-order, each with its metadata.
    pub fn preorder(&self) -> (r: Vec<(InstructionMetadata, Instruction)>)
        ensures
            flat_view(r@) == forest_preorder(self.0@),
    {
        let mut out: Vec<(InstructionMetadata, Instruction)> = Vec::new();
        collect_preorder(&self.0, &mut out);
        assert(flat_view(Seq::<(InstructionMetadata, Instruction)>::empty()) =~= Seq::<FlatEntry>::empty());
        assert(flat_view(out@) =~= forest_preorder(self.0@));
        out
    }

    /// The trees of the forest.
    pub fn iter(&self) -> (r: &[NestedInstruction])
        ensures
            r@ == self.0@,
    {
        self.0.as_slice()
    }

    /// The number of trees.
    pub fn len(&self) -> (r: usize)
        ensures
            r == self.0@.len(),
    {
        self.0.len()
    }

    /// Whether the forest has no tree.
    pub fn is_empty(&self) -> (r: bool)
        ensures
            r == (self.0@.len() == 0),
    {
        self.len() == 0
    }

    /// Adds a tree at the end.
    pub fn push(&mut self, nested_instruction: NestedInstruction)
        ensures
            final(self).0@ == old(self).0@.push(nested_instruction),
    {
        self.0.push(nested_instruction);
    }

    /// Folds a flat, height-tagged instruction list (in emission order) into
    /// a forest. An instruction of height 1 starts a new tree; one of height
    /// `h > 1` becomes the last child of the nearest open node of height
    /// `h - 1`, and where no such node is open it starts a new tree. The
    /// result lists the instructions in pre-order, and each node's parent is
    /// the one that `nesting` gives.
    pub fn from(instructions: Vec<(InstructionMetadata, Instruction)>) -> (r: NestedInstructions)
        ensures
            forest_preorder(r.0@) == flat_view(instructions@),
            forest_parents(r.0@, 0, None) == nesting(flat_view(instructions@)),
            well_nested(r.0@),
    {
        let ghost es = flat_view(instructions@);
        let ghost mut st: Seq<int> = Seq::empty();
        let mut forest: Vec<NestedInstruction> = Vec::new();
        let mut open: Vec<u32> = Vec::new();
        let mut i: usize = 0;
        assert(forest_parents(forest@, 0, None) =~= Seq::new(0, |p: int| parent_position(es, p)));
        assert(path_positions(forest@, 0) =~= st);
        while i < instructions.len()
            invariant
                i <= instructions.len(),
                es == flat_view(instructions@),
                open@ == open_path(forest@),
                forest_preorder(forest@) == flat_view(instructions@.take(i as int)),
                well_nested(forest@),
                st == open_after(es, i as int),
                path_positions(forest@, 0) == st,
                open@.len() == st.len(),
                forall|d: int| 0 <= d < st.len() ==> 0 <= #[trigger] st[d] < i && open@[d] as int == es[st[d]].0.stack_height as int,
                forest_parents(forest@, 0, None) == Seq::new(i as nat, |p: int| parent_position(es, p)),
            decreases instructions.len() - i,
        {
            let md = instructions[i].0;
            let ix = instructions[i].1.duplicate();
            let h = md.stack_height;
            let node = NestedInstruction { metadata: md, instruction: ix, inner_instructions: Vec::new() };
            proof {
                assert(instructions@.take(i + 1) =~= instructions@.take(i as int).push(instructions@[i as int]));
                assert(flat_view(instructions@.take(i + 1)) =~= flat_view(instructions@.take(i as int)).push(entry_of(node)));
            }
            assert(es[i as int].0 == md);
            let ghost count: int = forest_preorder(forest@).len() as int;
            assert(count == i);
            let mut parent: Option<usize> = None;
            if h > 1 {
                let mut k: usize = open.len();
                while k > 0
                    invariant
                        k <= open.len(),
                        h > 1,
                        open@.len() == st.len(),
                        forall|d: int| 0 <= d < st.len() ==> 0 <= #[trigger] st[d] < i && open@[d] as int == es[st[d]].0.stack_height as int,
                        parent is None ==> deepest_open(es, st, h as int - 1, k as int) == deepest_open(es, st, h as int - 1, st.len() as int),
                        parent matches Some(d) ==> d < open.len() && open@[d as int] as int == h as int - 1
                            && deepest_open(es, st, h as int - 1, st.len() as int) == Some(d as int),
                    decreases k,
                {
                    if parent.is_none() && open[k - 1] == h - 1 {
                        parent = Some(k - 1);
                    }
                    k = k - 1;
                }
            }
            let ghost next_st = open_after(es, i + 1);
            assert(attach_depth(es, st, i as int) == match parent {
                Some(d) => Some(d as int),
                None => None::<int>,
            });
            let ghost old_forest = forest@;
            match parent {
                Some(d) => {
                    push_at_depth(&mut forest, d, node);
                    open.truncate(d + 1);
                    open.push(h);
                    proof {
                        assert(next_st == st.take(d + 1).push(i as int));
                        assert(path_positions(forest@, 0) == path_positions(old_forest, 0).take(d + 1).push(0 + count));
                        assert(forest_parents(forest@, 0, None) == forest_parents(old_forest, 0, None).push(Some(path_positions(old_forest, 0)[d as int])));
                    }
                },
                None => {
                    proof {
                        lemma_push_tree(forest@, node);
                        assert(forest_preorder(node.inner_instructions@) =~= Seq::<FlatEntry>::empty());
                        assert(open_path(node.inner_instructions@) =~= Seq::<u32>::empty());
                        assert(forest_parents(node.inner_instructions@, count + 1, Some(count as int)) =~= Seq::<Option<int>>::empty());
                        assert(path_positions(node.inner_instructions@, count + 1) =~= Seq::<int>::empty());
                        assert(next_st == seq![i as int]);
                    }
                    forest.push(node);
                    open = Vec::new();
                    open.push(h);
                    assert(open@ =~= seq![h]);
                },
            }
            proof {
                assert(path_positions(forest@, 0) =~= next_st);
                assert(forest_parents(forest@, 0, None) =~= Seq::new((i + 1) as nat, |p: int| parent_position(es, p)));
                st = next_st;
            }
            i = i + 1;
        }
        assert(instructions@.take(i as int) =~= instructions@);
        assert(forest_parents(forest@, 0, None) =~= nesting(es));
        NestedInstructions(forest)
    }
}

} // verus!
