//! The plain-text outline renderer: every entry of the tree becomes a header
//! line (`- ` plus its display path) and a name line (its final path segment
//! in backticks, with a trailing `/` for directories), indented two spaces
//! per depth level.

use vstd::prelude::*;

use crate::paths::{join_display, join_path, last_segment, last_segment_str};
use crate::tree::{height, lemma_height_child, Node};

verus! {

/// A run of `n` spaces.
pub open spec fn spaces(n: nat) -> Seq<char> {
    Seq::new(n, |i: int| ' ')
}

/// The two outline lines of one entry at depth `d`: its display path after
/// `- `, then its final segment in backticks (directories with a trailing
/// `/`), indented two further spaces.
pub open spec fn toc_line_pair(n: Node, d: nat, cid: Seq<char>) -> Seq<char> {
    let dp = join_display(cid, n.path@);
    spaces(2 * d) + seq!['-', ' '] + dp + seq!['\n'] + spaces(2 * d + 2) + seq!['`']
        + last_segment(dp) + (if n.is_dir {
        seq!['/', '`', '\n']
    } else {
        seq!['`', '\n']
    })
}

/// The outline of the subtree rooted at `n`, rendered at depth `d`: `n`'s own
/// line pair, then (for directories) the outline of every child one level
/// deeper.
pub open spec fn toc_subtree(n: Node, d: nat, cid: Seq<char>) -> Seq<char>
    decreases n, n.children@.len() + 1,
{
    toc_line_pair(n, d, cid) + (if n.is_dir {
        toc_children_from(n, 0, d + 1, cid)
    } else {
        Seq::empty()
    })
}

/// The outlines of `n`'s children from index `i` on, each at depth `d`, in
/// order.
pub open spec fn toc_children_from(n: Node, i: int, d: nat, cid: Seq<char>) -> Seq<char>
    decreases n, n.children@.len() - i,
{
    if i < 0 || i >= n.children@.len() {
        Seq::empty()
    } else {
        toc_subtree(n.children@[i], d, cid) + toc_children_from(n, i + 1, d, cid)
    }
}

/// The whole outline under `root`: its children at depth 0, the root itself
/// never emitted.
pub open spec fn toc_text(root: Node, cid: Seq<char>) -> Seq<char> {
    toc_children_from(root, 0, 0, cid)
}

/// A linear chain: a node with exactly one child at every level, ending in a
/// childless file.
pub open spec fn is_chain(n: Node) -> bool
    decreases n,
{
    n.children@.len() == 1 && {
        let c = n.children@[0];
        if c.is_dir {
            is_chain(c)
        } else {
            c.children@.len() == 0
        }
    }
}

/// The outline of a linear chain written out level by level: the line pair
/// of the single child at depth `d`, then the rest of the chain one level
/// deeper.
pub open spec fn chain_toc_form(n: Node, d: nat, cid: Seq<char>) -> Seq<char>
    decreases n,
{
    if n.children@.len() != 1 {
        Seq::empty()
    } else {
        let c = n.children@[0];
        let dp = join_display(cid, c.path@);
        if c.is_dir {
            spaces(2 * d) + seq!['-', ' '] + dp + seq!['\n'] + spaces(2 * d + 2) + seq!['`']
                + last_segment(dp) + seq!['/', '`', '\n'] + chain_toc_form(c, d + 1, cid)
        } else {
            spaces(2 * d) + seq!['-', ' '] + dp + seq!['\n'] + spaces(2 * d + 2) + seq!['`']
                + last_segment(dp) + seq!['`', '\n']
        }
    }
}

/// Law: on a linear chain of single-child directories ending in one file,
/// the outline is exactly one line pair per level, indented two more spaces
/// at each level down, and the leaf file's name line is its segment in bare
/// backticks with no trailing slash — the closed form [`chain_toc_form`].
pub proof fn lemma_chain_toc(n: Node, d: nat, cid: Seq<char>)
    requires
        is_chain(n),
    ensures
        toc_children_from(n, 0, d, cid) == chain_toc_form(n, d, cid),
    decreases n,
{
    let c = n.children@[0];
    if c.is_dir {
        lemma_chain_toc(c, d + 1, cid);
    }
    assert(toc_children_from(n, 1, d, cid) =~= Seq::<char>::empty());
    assert(toc_children_from(n, 0, d, cid) =~= toc_subtree(c, d, cid));
    assert(toc_children_from(n, 0, d, cid) =~= chain_toc_form(n, d, cid));
}

/// Law: the outline is a function of the tree and the prefix alone, so
/// rendering the same tree twice yields byte-identical output.
pub proof fn lemma_toc_deterministic(n: Node, cid: Seq<char>, a: Seq<char>, b: Seq<char>)
    requires
        a == toc_text(n, cid),
        b == toc_text(n, cid),
    ensures
        a == b,
{
}

/// Law: a directory with no entries still contributes its own line pair when
/// its parent is rendered, and nothing nested beneath it.
pub proof fn lemma_empty_dir_header_only(n: Node, d: nat, cid: Seq<char>)
    requires
        n.is_dir,
        n.children@.len() == 0,
    ensures
        toc_subtree(n, d, cid) == toc_line_pair(n, d, cid),
{
    assert(toc_subtree(n, d, cid) =~= toc_line_pair(n, d, cid));
}

/// Appends `2 * d` spaces.
fn push_spaces(out: &mut String, d: usize)
    ensures
        final(out)@ == old(out)@ + spaces(2 * d as nat),
{
    proof {
        assert(out@ =~= out@ + spaces(0));
    }
    let mut k: usize = 0;
    while k < d
        invariant
            k <= d,
            out@ == old(out)@ + spaces(2 * k as nat),
        decreases d - k,
    {
        out.append("  ");
        proof {
            reveal_strlit("  ");
            assert(out@ =~= old(out)@ + spaces(2 * (k + 1) as nat));
        }
        k += 1;
    }
}

/// Appends the line pair of one entry at depth `d`.
fn push_line_pair(out: &mut String, n: &Node, d: usize, cid: &str)
    ensures
        final(out)@ == old(out)@ + toc_line_pair(*n, d as nat, cid@),
{
    let dp = join_path(cid, n.path.as_str());
    let seg = last_segment_str(dp.as_str());
    push_spaces(out, d);
    out.append("- ");
    out.append(dp.as_str());
    out.append("\n");
    push_spaces(out, d);
    out.append("  ");
    out.append("`");
    out.append(seg.as_str());
    if n.is_dir {
        out.append("/`\n");
    } else {
        out.append("`\n");
    }
    proof {
        reveal_strlit("- ");
        reveal_strlit("\n");
        reveal_strlit("  ");
        reveal_strlit("`");
        reveal_strlit("/`\n");
        reveal_strlit("`\n");
        assert(spaces(2 * d as nat) + "  "@ =~= spaces(2 * d as nat + 2));
        assert(out@ =~= old(out)@ + toc_line_pair(*n, d as nat, cid@));
    }
}

/// Appends the outlines of all of `n`'s children at depth `d`.
fn toc_children_exec(n: &Node, d: usize, cid: &str, out: &mut String)
    requires
        d + height(*n) <= usize::MAX,
    ensures
        final(out)@ == old(out)@ + toc_children_from(*n, 0, d as nat, cid@),
    decreases *n,
{
    proof {
        assert(out@ =~= out@ + Seq::<char>::empty());
    }
    let mut i: usize = 0;
    while i < n.children.len()
        invariant
            i <= n.children@.len(),
            d + height(*n) <= usize::MAX,
            out@ + toc_children_from(*n, i as int, d as nat, cid@) == old(out)@
                + toc_children_from(*n, 0, d as nat, cid@),
        decreases n.children@.len() - i,
    {
        let ghost out_entry = out@;
        let c = &n.children[i];
        push_line_pair(out, c, d, cid);
        if c.is_dir {
            proof {
                lemma_height_child(*n, 0, i as int);
            }
            toc_children_exec(c, d + 1, cid, out);
        }
        proof {
            assert(out@ =~= out_entry + toc_subtree(n.children@[i as int], d as nat, cid@));
            assert(out@ + toc_children_from(*n, i + 1, d as nat, cid@) =~= out_entry
                + toc_children_from(*n, i as int, d as nat, cid@));
        }
        i += 1;
    }
    proof {
        assert(out@ =~= out@ + toc_children_from(*n, n.children@.len() as int, d as nat, cid@));
    }
}

/// Renders the tree under `node` as an indented plain-text outline with
/// `collection_id` as the display-path prefix: for each entry, in pre-order
/// and with the root itself excluded, a `- ` header line at two spaces per
/// depth level and a backticked name line two spaces further in.
pub fn collection_toc(node: &Node, collection_id: &str) -> (r: String)
    requires
        height(*node) <= usize::MAX,
    ensures
        r@ == toc_text(*node, collection_id@),
{
    let mut toc = String::new();
    toc_children_exec(node, 0, collection_id, &mut toc);
    proof {
        assert(toc@ =~= toc_text(*node, collection_id@));
    }
    toc
}

} // verus!
