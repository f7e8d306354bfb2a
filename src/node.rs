//! A window manager's layout tree, as plain values: the part of each
//! container that workspace and window extraction read.
use vstd::prelude::*;

verus! {

/// The kind of a container in the layout tree.
#[derive(Clone, Copy, Debug, PartialEq, Eq, Structural)]
pub enum NodeType {
    Root,
    Output,
    Con,
    FloatingCon,
    Workspace,
    Dockarea,
}

/// One container of the layout tree, with its children in layout order.
#[derive(Debug)]
pub struct Node {
    /// The container's own identifier.
    pub id: usize,
    pub name: Option<String>,
    /// The workspace number, on workspace containers.
    pub num: Option<i32>,
    pub node_type: NodeType,
    /// The output (display) that the container is on.
    pub output: Option<String>,
    /// The client window that the container holds, if any.
    pub window: Option<usize>,
    pub nodes: Vec<Node>,
}

/// A client window, known by the identifier of the container that holds it.
#[derive(Clone, Copy, Debug, PartialEq, Eq, Structural)]
pub struct Window {
    pub id: usize,
}

/// Number of containers in the tree rooted at `n`.
pub open spec fn node_size(n: Node) -> nat
    decreases n,
{
    1 + forest_size(n.nodes@)
}

/// Number of containers in all the trees of `s`.
pub open spec fn forest_size(s: Seq<Node>) -> nat
    decreases s,
{
    if s.len() == 0 {
        0
    } else {
        forest_size(s.subrange(0, s.len() - 1)) + node_size(s[s.len() - 1])
    }
}

/// The window that container `n` holds itself, if any.
pub open spec fn own_window(n: Node) -> Seq<Window> {
    match n.window {
        Some(_) => seq![Window { id: n.id }],
        None => seq![],
    }
}

/// The windows of the tree rooted at `n`, in pre-order.
pub open spec fn windows_in(n: Node) -> Seq<Window>
    decreases n,
{
    own_window(n) + windows_in_forest(n.nodes@)
}

/// The windows of all the trees of `s`, tree after tree.
pub open spec fn windows_in_forest(s: Seq<Node>) -> Seq<Window>
    decreases s,
{
    if s.len() == 0 {
        seq![]
    } else {
        windows_in_forest(s.subrange(0, s.len() - 1)) + windows_in(s[s.len() - 1])
    }
}

impl Node {
    /// Collects the windows under this container, in pre-order.
    pub fn extract_windows(&self) -> (r: Vec<Window>)
        ensures
            r@ == windows_in(*self),
    {
        let mut out: Vec<Window> = Vec::new();
        collect_windows(self, &mut out);
        assert(out@ =~= windows_in(*self));
        out
    }
}

fn collect_windows(n: &Node, out: &mut Vec<Window>)
    ensures
        final(out)@ == old(out)@ + windows_in(*n),
    decreases n,
{
    if n.window.is_some() {
        out.push(Window { id: n.id });
    }
    let ghost start = old(out)@ + own_window(*n);
    assert(out@ =~= start + windows_in_forest(n.nodes@.subrange(0, 0)));
    let mut i: usize = 0;
    while i < n.nodes.len()
        invariant
            i <= n.nodes@.len(),
            out@ =~= start + windows_in_forest(n.nodes@.subrange(0, i as int)),
        decreases n.nodes@.len() - i,
    {
        assert(decreases_to!(n => n.nodes@[i as int]));
        collect_windows(&n.nodes[i], out);
        assert(n.nodes@.subrange(0, i + 1).subrange(0, i as int) =~= n.nodes@.subrange(0, i as int));
        i += 1;
    }
    assert(n.nodes@.subrange(0, i as int) =~= n.nodes@);
}

} // verus!
