//! The directory-tree data model: one [`Node`] per filesystem entry, with
//! spec-level measures (well-formedness, height, descendant count) that the
//! renderers' contracts are stated over.

use vstd::prelude::*;

verus! {

/// One entry of an in-memory directory tree.
///
/// `path` is the entry's path from the traversal root, with forward-slash
/// separators; `children` is the ordered list of entries directly inside a
/// directory, owned exclusively by their parent.
#[derive(Debug)]
pub struct Node {
    pub is_dir: bool,
    pub path: String,
    pub children: Vec<Node>,
}

/// Well-formedness of a tree: a file never has children.
pub open spec fn wf(n: Node) -> bool
    decreases n,
{
    &&& (!n.is_dir ==> n.children@.len() == 0)
    &&& (forall|i: int| 0 <= i < n.children@.len() ==> wf(#[trigger] n.children@[i]))
}

/// Height of the subtree from just past index `i` of `n`'s children:
/// 0 for a childless node, otherwise one more than the tallest child.
pub open spec fn height_from(n: Node, i: int) -> nat
    decreases n, n.children@.len() - i,
{
    if i < 0 || i >= n.children@.len() {
        0
    } else {
        let c = height_from(n.children@[i], 0) + 1;
        let rest = height_from(n, i + 1);
        if c >= rest {
            c
        } else {
            rest
        }
    }
}

/// Height of a tree: the number of edges on the longest downward path.
pub open spec fn height(n: Node) -> nat {
    height_from(n, 0)
}

/// Every child's subtree is strictly lower than the parent's.
pub proof fn lemma_height_child(n: Node, i: int, j: int)
    requires
        0 <= i <= j < n.children@.len(),
    ensures
        height_from(n, i) >= height(n.children@[j]) + 1,
    decreases j - i,
{
    if i < j {
        lemma_height_child(n, i + 1, j);
    }
}

/// Number of descendants past index `i` of `n`'s children: each child counts
/// itself plus its own descendants.
pub open spec fn count_from(n: Node, i: int) -> nat
    decreases n, n.children@.len() - i,
{
    if i < 0 || i >= n.children@.len() {
        0
    } else {
        1 + count_from(n.children@[i], 0) + count_from(n, i + 1)
    }
}

/// Total number of descendant nodes (directories and files), the root itself
/// excluded.
pub open spec fn descendant_count(n: Node) -> nat {
    count_from(n, 0)
}

} // verus!
