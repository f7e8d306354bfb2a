//! What holds of every model built from a layout tree.
use vstd::prelude::*;

use crate::node::{forest_size, Node, NodeType};
use crate::tree::{
    boundary_nodes, is_internal_output, lemma_forest_size_concat, lemma_forest_size_front,
    snapshot_model, snapshot_workspace_nodes, visible_workspaces, workspace_view_of, Tree,
    WorkspaceView,
};

verus! {

/// Whether the tree rooted at `n` holds a workspace container, `n` included.
pub open spec fn contains_workspace(n: Node) -> bool
    decreases n,
{
    n.node_type == NodeType::Workspace || forest_contains_workspace(n.nodes@)
}

/// Whether one of the trees of `s` holds a workspace container.
pub open spec fn forest_contains_workspace(s: Seq<Node>) -> bool
    decreases s,
{
    s.len() > 0 && (forest_contains_workspace(s.subrange(0, s.len() - 1)) || contains_workspace(
        s[s.len() - 1],
    ))
}

proof fn lemma_forest_contains_workspace(s: Seq<Node>)
    ensures
        !forest_contains_workspace(s) <==> forall|i: int|
            0 <= i < s.len() ==> !#[trigger] contains_workspace(s[i]),
    decreases s.len(),
{
    if s.len() > 0 {
        let prefix = s.subrange(0, s.len() - 1);
        lemma_forest_contains_workspace(prefix);
        if forall|i: int| 0 <= i < s.len() ==> !#[trigger] contains_workspace(s[i]) {
            assert forall|i: int| 0 <= i < prefix.len() implies !#[trigger] contains_workspace(
                prefix[i],
            ) by {
                assert(prefix[i] == s[i]);
            }
            assert(!contains_workspace(s[s.len() - 1]));
        }
        if !forest_contains_workspace(s) {
            assert forall|i: int| 0 <= i < s.len() implies !#[trigger] contains_workspace(s[i]) by {
                if i < prefix.len() {
                    assert(prefix[i] == s[i]);
                }
            }
        }
    }
}

proof fn lemma_boundary_nodes_empty(queue: Seq<Node>)
    requires
        forall|i: int| 0 <= i < queue.len() ==> !#[trigger] contains_workspace(queue[i]),
    ensures
        boundary_nodes(queue) == Seq::<Node>::empty(),
    decreases forest_size(queue),
{
    if queue.len() > 0 {
        let n = queue[0];
        let rest = queue.subrange(1, queue.len() as int);
        lemma_forest_size_front(queue);
        lemma_forest_size_concat(rest, n.nodes@);
        assert(!contains_workspace(n));
        lemma_forest_contains_workspace(n.nodes@);
        let next = rest + n.nodes@;
        assert forall|i: int| 0 <= i < next.len() implies !#[trigger] contains_workspace(next[i]) by {
            if i < rest.len() {
                assert(next[i] == queue[i + 1]);
            } else {
                let j = i - rest.len();
                assert(next[i] == n.nodes@[j]);
            }
        }
        lemma_boundary_nodes_empty(next);
    }
}

/// A tree that holds no workspace container gives a model without workspaces.
pub proof fn lemma_no_workspace_container_empty_model(root: Node)
    requires
        !contains_workspace(root),
    ensures
        snapshot_model(root) == Seq::<WorkspaceView>::empty(),
{
    lemma_forest_contains_workspace(root.nodes@);
    lemma_boundary_nodes_empty(root.nodes@);
}

proof fn lemma_visible_is_filtered(s: Seq<Node>)
    ensures
        visible_workspaces(s) == s.filter(|n: Node| !is_internal_output(n.output->0@)).map_values(
            |n: Node| workspace_view_of(n),
        ),
    decreases s.len(),
{
    reveal(Seq::filter);
    if s.len() > 0 {
        lemma_visible_is_filtered(s.subrange(0, s.len() - 1));
        assert(s.drop_last() =~= s.subrange(0, s.len() - 1));
        let f = s.drop_last().filter(|n: Node| !is_internal_output(n.output->0@));
        assert(f.push(s.last()).map_values(|n: Node| workspace_view_of(n)) =~= f.map_values(
            |n: Node| workspace_view_of(n),
        ).push(workspace_view_of(s.last())));
    }
}

/// The model keeps exactly the workspace containers that are not on the
/// internal output, in breadth-first order: none of its workspaces is on that
/// output, and no other container is left out.
pub proof fn lemma_model_excludes_internal_output(root: Node)
    ensures
        snapshot_model(root) == snapshot_workspace_nodes(root).filter(
            |n: Node| !is_internal_output(n.output->0@),
        ).map_values(|n: Node| workspace_view_of(n)),
        forall|i: int|
            0 <= i < snapshot_model(root).len() ==> !is_internal_output(
                #[trigger] snapshot_model(root)[i].output,
            ),
{
    let s = snapshot_workspace_nodes(root);
    let pred = |n: Node| !is_internal_output(n.output->0@);
    lemma_visible_is_filtered(s);
    assert forall|i: int| 0 <= i < snapshot_model(root).len() implies !is_internal_output(
        #[trigger] snapshot_model(root)[i].output,
    ) by {
        s.lemma_filter_pred(pred, i);
    }
}

/// Two models built from the same unchanged tree are the same: same
/// workspaces, with the same numbers, names, outputs and windows, in the same order.
pub proof fn lemma_rebuild_gives_same_model(root: Node, first: Tree, second: Tree)
    requires
        first@ == snapshot_model(root),
        second@ == snapshot_model(root),
    ensures
        first@ == second@,
{
}

} // verus!
