//! The markdown renderer: every entry of the tree becomes one bullet line
//! linking its backticked final segment to its display path, indented two
//! spaces per depth level.

use vstd::prelude::*;

use crate::paths::{
    join_display, join_path, last_segment, last_segment_str, lemma_seg_start_bounds, seg_start,
};
use crate::toc::spaces;
use crate::tree::{count_from, descendant_count, height, lemma_height_child, wf, Node};

verus! {

/// The single markdown line of one entry at depth `d`: a bullet whose link
/// text is the entry's final segment in backticks and whose target is its
/// display path.
pub open spec fn md_line(n: Node, d: nat, cid: Seq<char>) -> Seq<char> {
    let dp = join_display(cid, n.path@);
    spaces(2 * d) + seq!['-', ' ', '[', '`'] + last_segment(dp) + seq!['`', ']', '('] + dp + seq![
        ')',
        '\n',
    ]
}

/// The markdown of the subtree rooted at `n`, rendered at depth `d`: `n`'s
/// own line, then (for directories) the markdown of every child one level
/// deeper.
pub open spec fn md_subtree(n: Node, d: nat, cid: Seq<char>) -> Seq<char>
    decreases n, n.children@.len() + 1,
{
    md_line(n, d, cid) + (if n.is_dir {
        md_children_from(n, 0, d + 1, cid)
    } else {
        Seq::empty()
    })
}

/// The markdown of `n`'s children from index `i` on, each at depth `d`, in
/// order.
pub open spec fn md_children_from(n: Node, i: int, d: nat, cid: Seq<char>) -> Seq<char>
    decreases n, n.children@.len() - i,
{
    if i < 0 || i >= n.children@.len() {
        Seq::empty()
    } else {
        md_subtree(n.children@[i], d, cid) + md_children_from(n, i + 1, d, cid)
    }
}

/// The whole markdown list under `root`: its children at depth 0, the root
/// itself never emitted.
pub open spec fn markdown_text(root: Node, cid: Seq<char>) -> Seq<char> {
    md_children_from(root, 0, 0, cid)
}

/// No character of `s` is a newline.
pub open spec fn newline_free(s: Seq<char>) -> bool {
    forall|i: int| 0 <= i < s.len() ==> s[i] != '\n'
}

/// No path anywhere in the tree contains a newline.
pub open spec fn tree_newline_free(n: Node) -> bool
    decreases n,
{
    &&& newline_free(n.path@)
    &&& (forall|i: int|
        0 <= i < n.children@.len() ==> tree_newline_free(#[trigger] n.children@[i]))
}

/// The number of newline characters in `s`: with every rendered entry
/// newline-terminated, the number of output lines.
pub open spec fn count_newlines(s: Seq<char>) -> nat
    decreases s.len(),
{
    if s.len() == 0 {
        0
    } else {
        count_newlines(s.drop_last()) + (if s.last() == '\n' {
            1nat
        } else {
            0nat
        })
    }
}

proof fn lemma_count_concat(a: Seq<char>, b: Seq<char>)
    ensures
        count_newlines(a + b) == count_newlines(a) + count_newlines(b),
    decreases b.len(),
{
    if b.len() == 0 {
        assert(a + b =~= a);
    } else {
        lemma_count_concat(a, b.drop_last());
        assert((a + b).drop_last() =~= a + b.drop_last());
    }
}

proof fn lemma_count_zero(s: Seq<char>)
    requires
        newline_free(s),
    ensures
        count_newlines(s) == 0,
    decreases s.len(),
{
    if s.len() > 0 {
        assert(forall|i: int| 0 <= i < s.drop_last().len() ==> s.drop_last()[i] == s[i]);
        lemma_count_zero(s.drop_last());
    }
}

proof fn lemma_md_line_count(n: Node, d: nat, cid: Seq<char>)
    requires
        newline_free(n.path@),
        newline_free(cid),
    ensures
        count_newlines(md_line(n, d, cid)) == 1,
{
    let dp = join_display(cid, n.path@);
    assert(newline_free(dp));
    let seg = last_segment(dp);
    lemma_seg_start_bounds(dp, dp.len() as int);
    assert forall|j: int| 0 <= j < seg.len() implies seg[j] != '\n' by {
        assert(seg[j] == dp[seg_start(dp, dp.len() as int) + j]);
    }
    let sp = spaces(2 * d);
    assert(newline_free(sp));
    let a = seq!['-', ' ', '[', '`'];
    let b = seq!['`', ']', '('];
    let c = seq![')', '\n'];
    lemma_count_zero(sp);
    lemma_count_zero(a);
    lemma_count_zero(seg);
    lemma_count_zero(b);
    lemma_count_zero(dp);
    assert(c.drop_last() =~= seq![')']);
    assert(seq![')'].drop_last() =~= Seq::<char>::empty());
    assert(count_newlines(Seq::<char>::empty()) == 0);
    assert(count_newlines(seq![')']) == 0);
    assert(count_newlines(c) == 1);
    lemma_count_concat(sp, a);
    lemma_count_concat(sp + a, seg);
    lemma_count_concat(sp + a + seg, b);
    lemma_count_concat(sp + a + seg + b, dp);
    lemma_count_concat(sp + a + seg + b + dp, c);
}

proof fn lemma_md_count_from(n: Node, i: int, d: nat, cid: Seq<char>)
    requires
        wf(n),
        tree_newline_free(n),
        newline_free(cid),
        0 <= i,
    ensures
        count_newlines(md_children_from(n, i, d, cid)) == count_from(n, i),
    decreases n, n.children@.len() - i,
{
    if i < n.children@.len() {
        let c = n.children@[i];
        assert(wf(n.children@[i]));
        assert(tree_newline_free(n.children@[i]));
        lemma_md_line_count(c, d, cid);
        if c.is_dir {
            lemma_md_count_from(c, 0, d + 1, cid);
            lemma_count_concat(md_line(c, d, cid), md_children_from(c, 0, d + 1, cid));
            assert(count_newlines(md_subtree(c, d, cid)) == 1 + count_from(c, 0));
        } else {
            assert(md_subtree(c, d, cid) =~= md_line(c, d, cid));
            assert(count_newlines(md_subtree(c, d, cid)) == 1);
            assert(count_from(c, 0) == 0);
        }
        lemma_count_concat(md_subtree(c, d, cid), md_children_from(n, i + 1, d, cid));
        lemma_md_count_from(n, i + 1, d, cid);
        assert(md_children_from(n, i, d, cid) == md_subtree(c, d, cid) + md_children_from(
            n,
            i + 1,
            d,
            cid,
        ));
        assert(count_from(n, i) == 1 + count_from(c, 0) + count_from(n, i + 1));
    }
}

/// Law: the markdown output holds exactly one line — one newline — per
/// descendant of the root, directories and files alike, the root excluded;
/// stated for trees and prefixes whose paths contain no newline themselves.
pub proof fn lemma_markdown_line_count(n: Node, cid: Seq<char>)
    requires
        wf(n),
        tree_newline_free(n),
        newline_free(cid),
    ensures
        count_newlines(markdown_text(n, cid)) == descendant_count(n),
{
    lemma_md_count_from(n, 0, 0, cid);
}

/// Law: the markdown list is a function of the tree and the prefix alone, so
/// rendering the same tree twice yields byte-identical output.
pub proof fn lemma_markdown_deterministic(n: Node, cid: Seq<char>, a: Seq<char>, b: Seq<char>)
    requires
        a == markdown_text(n, cid),
        b == markdown_text(n, cid),
    ensures
        a == b,
{
}

/// Law: a directory with no entries still contributes its own line when its
/// parent is rendered, and nothing nested beneath it.
pub proof fn lemma_empty_dir_single_line(n: Node, d: nat, cid: Seq<char>)
    requires
        n.is_dir,
        n.children@.len() == 0,
    ensures
        md_subtree(n, d, cid) == md_line(n, d, cid),
{
    assert(md_subtree(n, d, cid) =~= md_line(n, d, cid));
}

/// Appends `2 * d` spaces.
fn md_push_spaces(out: &mut String, d: usize)
    ensures
        final(out)@ == old(out)@ + spaces(2 * d as nat),
{
    proof {
        assert(out@ =~= out@ + spaces(0));
    }
    let mut k: usize = 0;
    while k < d
        invariant
            k <= d,
            out@ == old(out)@ + spaces(2 * k as nat),
        decreases d - k,
    {
        out.append("  ");
        proof {
            reveal_strlit("  ");
            assert(out@ =~= old(out)@ + spaces(2 * (k + 1) as nat));
        }
        k += 1;
    }
}

/// Appends the markdown line of one entry at depth `d`.
fn push_md_line(out: &mut String, n: &Node, d: usize, cid: &str)
    ensures
        final(out)@ == old(out)@ + md_line(*n, d as nat, cid@),
{
    let dp = join_path(cid, n.path.as_str());
    let seg = last_segment_str(dp.as_str());
    md_push_spaces(out, d);
    out.append("- [`");
    out.append(seg.as_str());
    out.append("`](");
    out.append(dp.as_str());
    out.append(")\n");
    proof {
        reveal_strlit("- [`");
        reveal_strlit("`](");
        reveal_strlit(")\n");
        assert(out@ =~= old(out)@ + md_line(*n, d as nat, cid@));
    }
}

/// Appends the markdown of all of `n`'s children at depth `d`.
fn md_children_exec(n: &Node, d: usize, cid: &str, out: &mut String)
    requires
        d + height(*n) <= usize::MAX,
    ensures
        final(out)@ == old(out)@ + md_children_from(*n, 0, d as nat, cid@),
    decreases *n,
{
    proof {
        assert(out@ =~= out@ + Seq::<char>::empty());
    }
    let mut i: usize = 0;
    while i < n.children.len()
        invariant
            i <= n.children@.len(),
            d + height(*n) <= usize::MAX,
            out@ + md_children_from(*n, i as int, d as nat, cid@) == old(out)@
                + md_children_from(*n, 0, d as nat, cid@),
        decreases n.children@.len() - i,
    {
        let ghost out_entry = out@;
        let c = &n.children[i];
        push_md_line(out, c, d, cid);
        if c.is_dir {
            proof {
                lemma_height_child(*n, 0, i as int);
            }
            md_children_exec(c, d + 1, cid, out);
        }
        proof {
            assert(out@ =~= out_entry + md_subtree(n.children@[i as int], d as nat, cid@));
            assert(out@ + md_children_from(*n, i + 1, d as nat, cid@) =~= out_entry
                + md_children_from(*n, i as int, d as nat, cid@));
        }
        i += 1;
    }
    proof {
        assert(out@ =~= out@ + md_children_from(*n, n.children@.len() as int, d as nat, cid@));
    }
}

/// Renders the tree under `node` as a markdown bullet list with
/// `collection_id` as the display-path prefix: one line per entry, in
/// pre-order and with the root itself excluded, indented two spaces per
/// depth level.
pub fn to_markdown(node: &Node, collection_id: &str) -> (r: String)
    requires
        height(*node) <= usize::MAX,
    ensures
        r@ == markdown_text(*node, collection_id@),
{
    let mut markdown = String::new();
    md_children_exec(node, 0, collection_id, &mut markdown);
    proof {
        assert(markdown@ =~= markdown_text(*node, collection_id@));
    }
    markdown
}

} // verus!
