//! The flattened model of a layout tree: its workspaces, found breadth-first,
//! each with its windows, and the lookups over them.
use std::collections::VecDeque;
use vstd::prelude::*;

use crate::node::{forest_size, node_size, windows_in, Node, NodeType, Window};

verus! {

/// The output that holds the window manager's internal workspaces.
pub const INTERNAL_OUTPUT: &'static str = "__i3";

/// A workspace, borrowing its name and output from the tree it was read from.
#[derive(Debug)]
pub struct Workspace<'a> {
    pub num: i32,
    pub name: &'a String,
    pub output: &'a String,
    pub windows: Vec<Window>,
}

/// What a workspace shows: its number, name, output and windows.
pub struct WorkspaceView {
    pub num: i32,
    pub name: Seq<char>,
    pub output: Seq<char>,
    pub windows: Seq<Window>,
}

impl<'a> View for Workspace<'a> {
    type V = WorkspaceView;

    open spec fn view(&self) -> WorkspaceView {
        WorkspaceView {
            num: self.num,
            name: self.name@,
            output: self.output@,
            windows: self.windows@,
        }
    }
}

/// The workspaces of one layout tree, in breadth-first order.
#[derive(Debug)]
pub struct Tree<'a> {
    pub workspaces: Vec<Workspace<'a>>,
}

impl<'a> View for Tree<'a> {
    type V = Seq<WorkspaceView>;

    open spec fn view(&self) -> Seq<WorkspaceView> {
        self.workspaces@.map_values(|w: Workspace<'a>| w@)
    }
}

/// Whether `output` names the internal output.
pub open spec fn is_internal_output(output: Seq<char>) -> bool {
    output == seq!['_', '_', 'i', '3']
}

/// A workspace container carries a number, a name and an output.
pub open spec fn has_workspace_fields(n: Node) -> bool {
    n.num is Some && n.name is Some && n.output is Some
}

pub open spec fn workspace_view_of(n: Node) -> WorkspaceView {
    WorkspaceView {
        num: n.num->0,
        name: n.name->0@,
        output: n.output->0@,
        windows: windows_in(n),
    }
}

/// The workspace that container `n` yields: none when it is on the internal output.
pub open spec fn workspace_candidate(n: Node) -> Option<WorkspaceView> {
    if is_internal_output(n.output->0@) {
        None
    } else {
        Some(workspace_view_of(n))
    }
}

/// Reads a workspace out of a container of the layout tree.
pub trait WorkspaceExtractor {
    spec fn workspace_fields_present(&self) -> bool;

    spec fn extracted_workspace(&self) -> Option<WorkspaceView>;

    /// The workspace that this container yields, if it is not internal.
    fn extract_workspace(&self) -> (r: Option<Workspace<'_>>)
        requires
            self.workspace_fields_present(),
        ensures
            match r {
                Some(w) => self.extracted_workspace() == Some(w@),
                None => self.extracted_workspace() is None,
            },
    ;
}

impl WorkspaceExtractor for Node {
    open spec fn workspace_fields_present(&self) -> bool {
        has_workspace_fields(*self)
    }

    open spec fn extracted_workspace(&self) -> Option<WorkspaceView> {
        workspace_candidate(*self)
    }

    fn extract_workspace(&self) -> (r: Option<Workspace<'_>>) {
        let workspace = Workspace {
            num: self.num.unwrap(),
            name: self.name.as_ref().unwrap(),
            output: self.output.as_ref().unwrap(),
            windows: self.extract_windows(),
        };
        let internal: String = INTERNAL_OUTPUT.to_owned();
        proof {
            reveal_strlit("__i3");
            assert(internal@ =~= seq!['_', '_', 'i', '3']);
        }
        if !workspace.output.eq(&internal) {
            Some(workspace)
        } else {
            None
        }
    }
}

/// The size of a concatenation of forests is the sum of their sizes.
pub proof fn lemma_forest_size_concat(a: Seq<Node>, b: Seq<Node>)
    ensures
        forest_size(a + b) == forest_size(a) + forest_size(b),
    decreases b.len(),
{
    if b.len() == 0 {
        assert(a + b =~= a);
    } else {
        let b0 = b.subrange(0, b.len() - 1);
        lemma_forest_size_concat(a, b0);
        assert((a + b).subrange(0, (a + b).len() - 1) =~= a + b0);
        assert((a + b)[(a + b).len() - 1] == b[b.len() - 1]);
    }
}

/// A forest's size is that of its first tree plus that of the others.
pub proof fn lemma_forest_size_front(s: Seq<Node>)
    requires
        s.len() > 0,
    ensures
        forest_size(s) == node_size(s[0]) + forest_size(s.subrange(1, s.len() as int)),
{
    let head = seq![s[0]];
    lemma_forest_size_concat(head, s.subrange(1, s.len() as int));
    assert(head + s.subrange(1, s.len() as int) =~= s);
    assert(head.subrange(0, 0) =~= Seq::<Node>::empty());
    assert(forest_size(head.subrange(0, 0)) == 0);
    assert(forest_size(head) == forest_size(head.subrange(0, 0)) + node_size(head[0]));
}

/// The workspace containers met by a breadth-first walk that starts from
/// `queue` and does not descend below a workspace container, in the order met.
pub open spec fn boundary_nodes(queue: Seq<Node>) -> Seq<Node>
    decreases forest_size(queue),
{
    if queue.len() == 0 {
        seq![]
    } else {
        let n = queue[0];
        let rest = queue.subrange(1, queue.len() as int);
        proof {
            lemma_forest_size_front(queue);
            lemma_forest_size_concat(rest, n.nodes@);
        }
        if n.node_type == NodeType::Workspace {
            seq![n] + boundary_nodes(rest)
        } else {
            boundary_nodes(rest + n.nodes@)
        }
    }
}

/// The workspace containers of the tree under `root`, breadth-first.
pub open spec fn snapshot_workspace_nodes(root: Node) -> Seq<Node> {
    boundary_nodes(root.nodes@)
}

/// Every workspace container of the tree carries a number, a name and an output.
pub open spec fn snapshot_well_formed(root: Node) -> bool {
    forall|i: int|
        0 <= i < snapshot_workspace_nodes(root).len() ==> #[trigger] has_workspace_fields(
            snapshot_workspace_nodes(root)[i],
        )
}

/// Workspace `w` holds a window whose identifier is `window_id`.
pub open spec fn holds_window(w: WorkspaceView, window_id: usize) -> bool {
    exists|k: int| 0 <= k < w.windows.len() && (#[trigger] w.windows[k]).id == window_id
}

/// Index `i` is the first of `s` whose workspace holds the window `window_id`.
pub open spec fn first_holding_window(s: Seq<WorkspaceView>, window_id: usize, i: int) -> bool {
    &&& 0 <= i < s.len()
    &&& holds_window(s[i], window_id)
    &&& forall|j: int| 0 <= j < i ==> !holds_window(#[trigger] s[j], window_id)
}

/// Index `i` is the first of `s` whose workspace has the number `num`.
pub open spec fn first_numbered(s: Seq<WorkspaceView>, num: i32, i: int) -> bool {
    &&& 0 <= i < s.len()
    &&& s[i].num == num
    &&& forall|j: int| 0 <= j < i ==> (#[trigger] s[j]).num != num
}

/// The workspaces that the containers of `s` yield, in order.
pub open spec fn visible_workspaces(s: Seq<Node>) -> Seq<WorkspaceView>
    decreases s.len(),
{
    if s.len() == 0 {
        seq![]
    } else {
        let prefix = visible_workspaces(s.subrange(0, s.len() - 1));
        match workspace_candidate(s[s.len() - 1]) {
            Some(w) => prefix.push(w),
            None => prefix,
        }
    }
}

/// The model of the tree under `root`.
pub open spec fn snapshot_model(root: Node) -> Seq<WorkspaceView> {
    visible_workspaces(snapshot_workspace_nodes(root))
}

/// The containers that a queue of references points to.
pub open spec fn queued_nodes<'a>(q: Seq<&'a Node>) -> Seq<Node> {
    q.map_values(|r: &'a Node| *r)
}

fn enqueue_children<'a>(queue: &mut VecDeque<&'a Node>, n: &'a Node)
    ensures
        queued_nodes(final(queue)@) == queued_nodes(old(queue)@) + n.nodes@,
{
    let ghost start = queued_nodes(queue@);
    let mut i: usize = 0;
    while i < n.nodes.len()
        invariant
            i <= n.nodes@.len(),
            queued_nodes(queue@) =~= start + n.nodes@.subrange(0, i as int),
        decreases n.nodes@.len() - i,
    {
        let ghost before = queue@;
        queue.push_back(&n.nodes[i]);
        assert(queued_nodes(queue@) =~= queued_nodes(before).push(n.nodes@[i as int]));
        assert(n.nodes@.subrange(0, i + 1) =~= n.nodes@.subrange(0, i as int).push(n.nodes@[i as int]));
        i += 1;
    }
    assert(n.nodes@.subrange(0, i as int) =~= n.nodes@);
}

/// Whether every workspace container of the tree under `root_node` carries a
/// number, a name and an output, as building a `Tree` from it requires.
pub fn snapshot_is_well_formed(root_node: &Node) -> (r: bool)
    ensures
        r == snapshot_well_formed(*root_node),
{
    let mut queue: VecDeque<&Node> = VecDeque::new();
    enqueue_children(&mut queue, root_node);
    assert(queued_nodes(queue@) =~= root_node.nodes@);
    let ghost all = snapshot_workspace_nodes(*root_node);
    let ghost mut seen: Seq<Node> = seq![];
    while queue.len() > 0
        invariant
            seen + boundary_nodes(queued_nodes(queue@)) == all,
            all == snapshot_workspace_nodes(*root_node),
            forall|i: int| 0 <= i < seen.len() ==> #[trigger] has_workspace_fields(seen[i]),
        decreases forest_size(queued_nodes(queue@)),
    {
        let ghost q = queued_nodes(queue@);
        let node = queue.pop_front().unwrap();
        let ghost rest = q.subrange(1, q.len() as int);
        proof {
            lemma_forest_size_front(q);
            assert(queued_nodes(queue@) =~= rest);
        }
        if node.node_type == NodeType::Workspace {
            assert(seen + (seq![*node] + boundary_nodes(rest)) =~= seen.push(*node) + boundary_nodes(rest));
            assert(all[seen.len() as int] == *node);
            if node.num.is_none() || node.name.is_none() || node.output.is_none() {
                assert(!has_workspace_fields(all[seen.len() as int]));
                return false;
            }
            proof {
                seen = seen.push(*node);
            }
        } else {
            enqueue_children(&mut queue, node);
            proof {
                lemma_forest_size_concat(rest, node.nodes@);
            }
        }
    }
    assert(seen =~= all);
    true
}

impl<'a> Tree<'a> {
    /// Builds the model of the tree under `root_node`, whose workspace
    /// containers must all carry a number, a name and an output.
    pub fn new(root_node: &'a Node) -> (t: Self)
        requires
            snapshot_well_formed(*root_node),
        ensures
            t@ == snapshot_model(*root_node),
    {
        Self { workspaces: Self::extract_workspaces(root_node) }
    }

    fn extract_workspaces(root_node: &'a Node) -> (r: Vec<Workspace<'a>>)
        requires
            snapshot_well_formed(*root_node),
        ensures
            r@.map_values(|w: Workspace<'a>| w@) == snapshot_model(*root_node),
    {
        let mut queue: VecDeque<&'a Node> = VecDeque::new();
        enqueue_children(&mut queue, root_node);
        assert(queued_nodes(queue@) =~= root_node.nodes@);
        let ghost all = snapshot_workspace_nodes(*root_node);
        let ghost mut seen: Seq<Node> = seq![];
        let mut workspaces: Vec<Workspace<'a>> = Vec::new();
        assert(workspaces@.map_values(|w: Workspace<'a>| w@) =~= visible_workspaces(seen));
        while queue.len() > 0
            invariant
                seen + boundary_nodes(queued_nodes(queue@)) == all,
                all == snapshot_workspace_nodes(*root_node),
                snapshot_well_formed(*root_node),
                workspaces@.map_values(|w: Workspace<'a>| w@) == visible_workspaces(seen),
            decreases forest_size(queued_nodes(queue@)),
        {
            let ghost q = queued_nodes(queue@);
            let node = queue.pop_front().unwrap();
            let ghost rest = q.subrange(1, q.len() as int);
            proof {
                lemma_forest_size_front(q);
                assert(queued_nodes(queue@) =~= rest);
            }
            if node.node_type == NodeType::Workspace {
                assert(seen + (seq![*node] + boundary_nodes(rest)) =~= seen.push(*node) + boundary_nodes(rest));
                assert(all[seen.len() as int] == *node);
                assert(has_workspace_fields(all[seen.len() as int]));
                let ghost before = workspaces@;
                let candidate = node.extract_workspace();
                let ghost next = seen.push(*node);
                assert(next.subrange(0, next.len() - 1) =~= seen);
                match candidate {
                    Some(w) => {
                        workspaces.push(w);
                        assert(workspaces@.map_values(|w: Workspace<'a>| w@) =~= before.map_values(
                            |w: Workspace<'a>| w@,
                        ).push(w@));
                    },
                    None => {},
                }
                proof {
                    seen = next;
                }
            } else {
                enqueue_children(&mut queue, node);
                proof {
                    lemma_forest_size_concat(rest, node.nodes@);
                }
            }
        }
        assert(seen =~= all);
        workspaces
    }

    /// The first workspace, in model order, that holds the window `window_id`.
    pub fn find_workspace_for_window(&self, window_id: usize) -> (r: Option<&Workspace<'a>>)
        ensures
            r is None <==> forall|i: int| 0 <= i < self@.len() ==> !holds_window(#[trigger] self@[i], window_id),
            r matches Some(w) ==> exists|i: int|
                first_holding_window(self@, window_id, i) && *w == #[trigger] self.workspaces@[i],
    {
        let mut i: usize = 0;
        while i < self.workspaces.len()
            invariant
                i <= self@.len(),
                self@.len() == self.workspaces@.len(),
                forall|j: int| 0 <= j < i ==> !holds_window(#[trigger] self@[j], window_id),
            decreases self.workspaces@.len() - i,
        {
            let ws = &self.workspaces[i];
            let ghost v = self@[i as int];
            let mut k: usize = 0;
            while k < ws.windows.len()
                invariant
                    k <= v.windows.len(),
                    i < self@.len(),
                    self@.len() == self.workspaces@.len(),
                    *ws == self.workspaces@[i as int],
                    v == self@[i as int],
                    v == ws@,
                    forall|j: int| 0 <= j < i ==> !holds_window(#[trigger] self@[j], window_id),
                    forall|m: int| 0 <= m < k ==> (#[trigger] v.windows[m]).id != window_id,
                decreases v.windows.len() - k,
            {
                if ws.windows[k].id == window_id {
                    assert(holds_window(v, window_id));
                    assert(first_holding_window(self@, window_id, i as int));
                    return Some(ws);
                }
                k += 1;
            }
            i += 1;
        }
        None
    }

    /// The first workspace, in model order, whose number is `workspace_num`.
    pub fn find_workspace(&self, workspace_num: i32) -> (r: Option<&Workspace<'a>>)
        ensures
            r is None <==> forall|i: int| 0 <= i < self@.len() ==> (#[trigger] self@[i]).num != workspace_num,
            r matches Some(w) ==> exists|i: int|
                first_numbered(self@, workspace_num, i) && *w == #[trigger] self.workspaces@[i],
    {
        let mut i: usize = 0;
        while i < self.workspaces.len()
            invariant
                i <= self@.len(),
                self@.len() == self.workspaces@.len(),
                forall|j: int| 0 <= j < i ==> (#[trigger] self@[j]).num != workspace_num,
            decreases self.workspaces@.len() - i,
        {
            if self.workspaces[i].num == workspace_num {
                assert(first_numbered(self@, workspace_num, i as int));
                return Some(&self.workspaces[i]);
            }
            i += 1;
        }
        None
    }
}

} // verus!
