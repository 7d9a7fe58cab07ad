//! Display-path construction: joining the namespace prefix to a node's path
//! with a single separator, and extracting a path's final segment.

use vstd::prelude::*;

verus! {

/// The display path of an entry: `path` if it is absolute, otherwise
/// `cid` and `path` joined by exactly one `/` (none added when `cid` is empty
/// or already ends in `/`).
pub open spec fn join_display(cid: Seq<char>, path: Seq<char>) -> Seq<char> {
    if path.len() > 0 && path[0] == '/' {
        path
    } else if cid.len() == 0 {
        path
    } else if cid[cid.len() - 1] == '/' {
        cid + path
    } else {
        cid + seq!['/'] + path
    }
}

/// Start index of the final segment of `s`, looking only at `s[..i]`:
/// just past the last `/` there, or 0 when there is none.
pub open spec fn seg_start(s: Seq<char>, i: int) -> int
    decreases i,
{
    if i <= 0 {
        0
    } else if s[i - 1] == '/' {
        i
    } else {
        seg_start(s, i - 1)
    }
}

pub proof fn lemma_seg_start_bounds(s: Seq<char>, i: int)
    requires
        0 <= i,
    ensures
        0 <= seg_start(s, i) <= i,
    decreases i,
{
    if i > 0 && s[i - 1] != '/' {
        lemma_seg_start_bounds(s, i - 1);
    }
}

/// The final segment of a path: everything after the last `/`, the whole
/// path when it has no `/`, and empty when it ends in `/`.
pub open spec fn last_segment(s: Seq<char>) -> Seq<char> {
    s.subrange(seg_start(s, s.len() as int), s.len() as int)
}

/// Joins the namespace prefix and an entry path into the entry's display
/// path, with a single `/` separator and no duplication.
pub fn join_path(cid: &str, path: &str) -> (r: String)
    ensures
        r@ == join_display(cid@, path@),
{
    let plen = path.unicode_len();
    if plen > 0 && path.get_char(0) == '/' {
        return path.to_owned();
    }
    let clen = cid.unicode_len();
    if clen == 0 {
        return path.to_owned();
    }
    let mut r = cid.to_owned();
    if cid.get_char(clen - 1) != '/' {
        r.append("/");
        proof {
            reveal_strlit("/");
            assert(r@ =~= cid@ + seq!['/']);
        }
    }
    r.append(path);
    proof {
        if cid@[clen - 1] == '/' {
            assert(r@ =~= cid@ + path@);
        } else {
            assert(r@ =~= cid@ + seq!['/'] + path@);
        }
    }
    r
}

/// Returns the final segment of `s` as an owned string.
pub fn last_segment_str(s: &str) -> (r: String)
    ensures
        r@ == last_segment(s@),
{
    let n = s.unicode_len();
    let mut start: usize = 0;
    let mut i: usize = 0;
    while i < n
        invariant
            i <= n,
            n == s@.len(),
            start as int == seg_start(s@, i as int),
            start <= i,
        decreases n - i,
    {
        if s.get_char(i) == '/' {
            start = i + 1;
        }
        i += 1;
    }
    s.substring_char(start, n).to_owned()
}

} // verus!
