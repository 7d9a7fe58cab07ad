//! The ancestor-chain resolver: a pre-order depth-first search for the first
//! entry whose path equals a target, collecting every directory strictly
//! between the root and that entry, innermost first.
//!
//! Rule pinned here: the matched entry itself and the root are never part of
//! the chain, so an exact match of the root's path or of one of its direct
//! children yields an empty chain, as does a target absent from the tree.

use vstd::prelude::*;

use crate::tree::Node;

verus! {

/// Whether some child of `n` from index `i` on has `p` in its subtree.
pub open spec fn contains_from(n: Node, i: int, p: Seq<char>) -> bool
    decreases n, n.children@.len() - i,
{
    if i < 0 || i >= n.children@.len() {
        false
    } else {
        subtree_contains(n.children@[i], p) || contains_from(n, i + 1, p)
    }
}

/// Whether the subtree rooted at `n` holds an entry whose path is exactly
/// `p`.
pub open spec fn subtree_contains(n: Node, p: Seq<char>) -> bool
    decreases n, n.children@.len() + 1,
{
    n.path@ == p || contains_from(n, 0, p)
}

/// The ancestor chain of the first match of `p` among `n`'s children from
/// index `i` on: the directories strictly between `n` and the match,
/// innermost first, and empty when no child's subtree holds `p`.
pub open spec fn chain_from(n: Node, i: int, p: Seq<char>) -> Seq<Seq<char>>
    decreases n, n.children@.len() - i,
{
    if i < 0 || i >= n.children@.len() {
        Seq::empty()
    } else {
        let c = n.children@[i];
        if subtree_contains(c, p) {
            if c.path@ == p {
                Seq::empty()
            } else {
                chain_from(c, 0, p) + (if c.is_dir {
                    seq![c.path@]
                } else {
                    Seq::<Seq<char>>::empty()
                })
            }
        } else {
            chain_from(n, i + 1, p)
        }
    }
}

/// The ancestor chain of `p` in the tree rooted at `n`: the directories
/// strictly between `n` and the first pre-order entry whose path is `p`,
/// innermost first; empty when `p` is `n`'s own path or absent.
pub open spec fn ancestor_chain(n: Node, p: Seq<char>) -> Seq<Seq<char>> {
    if n.path@ == p {
        Seq::empty()
    } else {
        chain_from(n, 0, p)
    }
}

proof fn lemma_chain_absent(n: Node, i: int, p: Seq<char>)
    requires
        !contains_from(n, i, p),
    ensures
        chain_from(n, i, p) == Seq::<Seq<char>>::empty(),
    decreases n.children@.len() - i,
{
    if 0 <= i < n.children@.len() {
        lemma_chain_absent(n, i + 1, p);
    }
}

/// An exact match of the root's own path yields an empty ancestor list.
pub proof fn lemma_root_match_no_ancestors(n: Node, p: Seq<char>)
    requires
        n.path@ == p,
    ensures
        ancestor_chain(n, p) == Seq::<Seq<char>>::empty(),
{
}

/// A target absent from the whole tree yields an empty ancestor list.
pub proof fn lemma_absent_no_ancestors(n: Node, p: Seq<char>)
    requires
        !subtree_contains(n, p),
    ensures
        ancestor_chain(n, p) == Seq::<Seq<char>>::empty(),
{
    lemma_chain_absent(n, 0, p);
}

/// Depth-first search below `n`; appends the ancestor chain of the first
/// match to `dirs` and reports whether `n`'s subtree holds `target`.
fn chain_exec(n: &Node, target: &String, dirs: &mut Vec<String>) -> (found: bool)
    ensures
        found == subtree_contains(*n, target@),
        !found ==> final(dirs)@ == old(dirs)@,
        found ==> final(dirs)@.map_values(|s: String| s@) == old(dirs)@.map_values(
            |s: String| s@,
        ) + ancestor_chain(*n, target@),
    decreases *n,
{
    if n.path.eq(target) {
        proof {
            assert(dirs@.map_values(|s: String| s@) =~= dirs@.map_values(|s: String| s@)
                + ancestor_chain(*n, target@));
        }
        return true;
    }
    let mut i: usize = 0;
    while i < n.children.len()
        invariant
            i <= n.children@.len(),
            n.path@ != target@,
            dirs@ == old(dirs)@,
            contains_from(*n, 0, target@) == contains_from(*n, i as int, target@),
            chain_from(*n, 0, target@) == chain_from(*n, i as int, target@),
        decreases n.children@.len() - i,
    {
        let c = &n.children[i];
        let hit = chain_exec(c, target, dirs);
        if hit {
            if c.is_dir && !c.path.eq(target) {
                dirs.push(c.path.clone());
                proof {
                    assert(dirs@.map_values(|s: String| s@) =~= old(dirs)@.map_values(
                        |s: String| s@,
                    ) + ancestor_chain(n.children@[i as int], target@) + seq![
                        n.children@[i as int].path@,
                    ]);
                }
            }
            proof {
                assert(dirs@.map_values(|s: String| s@) =~= old(dirs)@.map_values(|s: String| s@)
                    + ancestor_chain(*n, target@));
            }
            return true;
        }
        i += 1;
    }
    false
}

/// Returns the paths of the directories strictly between `node` and the
/// first pre-order entry whose path equals `path`, innermost first; empty
/// when `path` is the root's own path or matches nothing.
pub fn dir_till_path(node: &Node, path: &str) -> (r: Vec<String>)
    ensures
        r@.map_values(|s: String| s@) == ancestor_chain(*node, path@),
{
    let target: String = path.to_owned();
    let mut dirs: Vec<String> = Vec::new();
    let found = chain_exec(node, &target, &mut dirs);
    proof {
        if !found {
            lemma_absent_no_ancestors(*node, path@);
        }
        assert(dirs@.map_values(|s: String| s@) =~= ancestor_chain(*node, path@));
    }
    dirs
}

} // verus!
