//! The project outline: a tree of notes flattened into buffer lines.
//!
//! An outline is a tree of nodes, each with its own line of text and a list
//! of children. Filling a buffer from a project walks the tree in pre-order
//! and emits one line per node.

use vstd::prelude::*;

verus! {

/// Extra content a node may carry besides its text.
pub enum Accessory {
    Text,
    Header,
    Todo { checked: bool },
    Table { data: Vec<Vec<String>> },
}

/// One outline node: its own text and its subtree.
pub struct Node {
    pub text: String,
    pub children: Vec<Node>,
    pub accessory: Accessory,
}

/// A project outline: one root node.
pub struct Project {
    pub parent_node: Node,
}

/// The lines of a subtree: the node's own text, then each child's lines, in
/// pre-order.
pub open spec fn node_lines(n: Node) -> Seq<Seq<char>>
    decreases n,
{
    seq![n.text@] + children_lines(n.children, 0)
}

/// The lines of the children from index `i` on.
pub open spec fn children_lines(cs: Vec<Node>, i: int) -> Seq<Seq<char>>
    decreases cs, cs@.len() - i,
{
    if i < 0 || i >= cs@.len() {
        Seq::empty()
    } else {
        node_lines(cs[i]) + children_lines(cs, i + 1)
    }
}

/// The lines of a whole project: its root's subtree in pre-order.
pub fn fill_buffer(project: &Project) -> (buf: Vec<String>)
    ensures
        buf.deep_view() == node_lines(project.parent_node),
{
    let mut buf: Vec<String> = Vec::new();
    fill_buffer_recursive(&project.parent_node, &mut buf);
    proof {
        assert(buf.deep_view() =~~= node_lines(project.parent_node));
    }
    buf
}

/// Appends the subtree under `node` onto `buf`, one line per node, the
/// node's own text first.
#[verifier::loop_isolation(false)]
pub fn fill_buffer_recursive(node: &Node, buf: &mut Vec<String>)
    ensures
        final(buf).deep_view() == old(buf).deep_view() + node_lines(*node),
    decreases *node,
{
    let ghost prev = buf.deep_view();
    buf.push(node.text.clone());
    proof {
        assert(buf.deep_view() =~~= prev + seq![node.text@]);
        assert(prev + seq![node.text@] + children_lines(node.children, 0) =~~= prev + node_lines(
            *node,
        ));
    }
    let mut i: usize = 0;
    while i < node.children.len()
        invariant
            i <= node.children@.len(),
            buf.deep_view() + children_lines(node.children, i as int) == old(buf).deep_view()
                + node_lines(*node),
        decreases node.children@.len() - i,
    {
        let ghost mid = buf.deep_view();
        fill_buffer_recursive(&node.children[i], buf);
        proof {
            assert(mid + node_lines(node.children[i as int]) + children_lines(
                node.children,
                i + 1,
            ) =~~= mid + children_lines(node.children, i as int));
        }
        i += 1;
    }
    proof {
        assert(children_lines(node.children, node.children@.len() as int)
            =~~= Seq::<Seq<char>>::empty());
        assert(buf.deep_view() + Seq::<Seq<char>>::empty() =~~= buf.deep_view());
    }
}

} // verus!
