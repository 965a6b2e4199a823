//! The folder tree of the library: built from flat folder paths, with
//! "Inbox" first and the other folders in name order at every level.

use vstd::prelude::*;
use crate::text::{chars_of, str_eq, string_of_range};
use crate::ttl::strs;

verus! {

/// A folder of the tree.
#[derive(Debug)]
pub struct FolderNode {
    /// the folder's own name, such as "书信集"
    pub name: String,
    /// the full path, such as "/曾国藩专题/书信集"
    pub path: String,
    /// the sub-folders, in order
    pub children: Vec<FolderNode>,
}

// ════════════════════════════════════════════════════════════════
// Name order
// ════════════════════════════════════════════════════════════════

/// Lexicographic order of texts by code point (the order of `str`, since
/// UTF-8 keeps code point order).
pub open spec fn lex_lt(a: Seq<char>, b: Seq<char>) -> bool
    decreases a.len(),
{
    if a.len() == 0 {
        b.len() > 0
    } else if b.len() == 0 {
        false
    } else if (a[0] as u32) < (b[0] as u32) {
        true
    } else if (a[0] as u32) > (b[0] as u32) {
        false
    } else {
        lex_lt(a.drop_first(), b.drop_first())
    }
}

pub open spec fn inbox() -> Seq<char> {
    "Inbox"@
}

/// The order of sibling folders: "Inbox" before every other name, the others
/// by name.
pub open spec fn name_before(a: Seq<char>, b: Seq<char>) -> bool {
    if a == inbox() {
        b != inbox()
    } else if b == inbox() {
        false
    } else {
        lex_lt(a, b)
    }
}

pub proof fn lemma_lex_irreflexive(a: Seq<char>)
    ensures
        !lex_lt(a, a),
    decreases a.len(),
{
    if a.len() > 0 {
        lemma_lex_irreflexive(a.drop_first());
    }
}

pub proof fn lemma_lex_asymmetric(a: Seq<char>, b: Seq<char>)
    requires
        lex_lt(a, b),
    ensures
        !lex_lt(b, a),
    decreases a.len(),
{
    if a.len() > 0 && b.len() > 0 && (a[0] as u32) == (b[0] as u32) {
        lemma_lex_asymmetric(a.drop_first(), b.drop_first());
    }
}

pub proof fn lemma_lex_transitive(a: Seq<char>, b: Seq<char>, c: Seq<char>)
    requires
        lex_lt(a, b),
        lex_lt(b, c),
    ensures
        lex_lt(a, c),
    decreases a.len(),
{
    if a.len() > 0 && b.len() > 0 && c.len() > 0 && (a[0] as u32) == (b[0] as u32) && (b[0] as u32)
        == (c[0] as u32) {
        lemma_lex_transitive(a.drop_first(), b.drop_first(), c.drop_first());
    }
}

pub proof fn lemma_lex_total(a: Seq<char>, b: Seq<char>)
    requires
        a != b,
    ensures
        lex_lt(a, b) || lex_lt(b, a),
    decreases a.len(),
{
    if a.len() > 0 && b.len() > 0 && (a[0] as u32) == (b[0] as u32) {
        vstd::utf8::char_u32_cast(a[0], a[0] as u32);
        vstd::utf8::char_u32_cast(b[0], b[0] as u32);
        assert(a[0] == b[0]);
        if a.drop_first() == b.drop_first() {
            assert(a =~= seq![a[0]] + a.drop_first());
            assert(b =~= seq![b[0]] + b.drop_first());
        }
        lemma_lex_total(a.drop_first(), b.drop_first());
    } else if a.len() == 0 && b.len() == 0 {
        assert(a =~= b);
    }
}

/// The empty text comes before every other text and after none.
pub proof fn law_lex_empty_first(b: Seq<char>)
    ensures
        lex_lt(Seq::empty(), b) <==> b.len() > 0,
        !lex_lt(b, Seq::empty()),
{
}

/// A text comes before every longer text that it begins: `2023` before
/// `2023-old`, never after.
pub proof fn law_lex_prefix_first(a: Seq<char>, s: Seq<char>)
    requires
        s.len() > 0,
    ensures
        lex_lt(a, a + s),
        !lex_lt(a + s, a),
    decreases a.len(),
{
    if a.len() > 0 {
        assert((a + s).drop_first() =~= a.drop_first() + s);
        assert((a + s)[0] == a[0]);
        law_lex_prefix_first(a.drop_first(), s);
    }
}

/// Two texts that agree up to a point are ordered by the first character in
/// which they differ, by code point.
pub proof fn law_lex_first_difference(p: Seq<char>, x: char, q: Seq<char>, y: char, r: Seq<char>)
    requires
        (x as u32) < (y as u32),
    ensures
        lex_lt(p + seq![x] + q, p + seq![y] + r),
        !lex_lt(p + seq![y] + r, p + seq![x] + q),
    decreases p.len(),
{
    let a = p + seq![x] + q;
    let b = p + seq![y] + r;
    if p.len() == 0 {
        assert(a[0] == x);
        assert(b[0] == y);
    } else {
        assert(a[0] == p[0]);
        assert(b[0] == p[0]);
        assert(a.drop_first() =~= p.drop_first() + seq![x] + q);
        assert(b.drop_first() =~= p.drop_first() + seq![y] + r);
        law_lex_first_difference(p.drop_first(), x, q, y, r);
    }
}

/// Among names other than "Inbox", siblings come in the order of `str`: a
/// name before every longer name that it begins.
pub proof fn law_name_before_prefix(a: Seq<char>, s: Seq<char>)
    requires
        s.len() > 0,
        a != inbox(),
        a + s != inbox(),
    ensures
        name_before(a, a + s),
        !name_before(a + s, a),
{
    law_lex_prefix_first(a, s);
}

/// The sibling order is a strict total order on distinct names.
pub proof fn lemma_name_order(a: Seq<char>, b: Seq<char>, c: Seq<char>)
    ensures
        !name_before(a, a),
        name_before(a, b) ==> !name_before(b, a),
        name_before(a, b) && name_before(b, c) ==> name_before(a, c),
        a != b ==> name_before(a, b) || name_before(b, a),
{
    lemma_lex_irreflexive(a);
    if lex_lt(a, b) {
        lemma_lex_asymmetric(a, b);
    }
    if lex_lt(a, b) && lex_lt(b, c) {
        lemma_lex_transitive(a, b, c);
    }
    if a != b {
        lemma_lex_total(a, b);
    }
}

fn lex_less(a: &[char], b: &[char]) -> (r: bool)
    ensures
        r == lex_lt(a@, b@),
{
    let n = a.len();
    let m = b.len();
    let mut i: usize = 0;
    assert(a@.skip(0) =~= a@);
    assert(b@.skip(0) =~= b@);
    while i < n && i < m
        invariant
            n == a@.len(),
            m == b@.len(),
            i <= n,
            i <= m,
            lex_lt(a@, b@) == lex_lt(a@.skip(i as int), b@.skip(i as int)),
        decreases n - i,
    {
        let x = a[i] as u32;
        let y = b[i] as u32;
        assert(a@.skip(i as int)[0] == a@[i as int]);
        assert(b@.skip(i as int)[0] == b@[i as int]);
        if x < y {
            return true;
        }
        if x > y {
            return false;
        }
        assert(a@.skip(i as int).drop_first() =~= a@.skip(i + 1));
        assert(b@.skip(i as int).drop_first() =~= b@.skip(i + 1));
        i = i + 1;
    }
    i == n && i < m
}

/// Whether folder `a` comes before folder `b` among siblings.
fn comes_before(a: &String, b: &String) -> (r: bool)
    ensures
        r == name_before(a@, b@),
{
    let a_inbox = str_eq(a.as_str(), "Inbox");
    let b_inbox = str_eq(b.as_str(), "Inbox");
    if a_inbox {
        !b_inbox
    } else if b_inbox {
        false
    } else {
        let ac = chars_of(a.as_str());
        let bc = chars_of(b.as_str());
        lex_less(ac.as_slice(), bc.as_slice())
    }
}

// ════════════════════════════════════════════════════════════════
// Trees
// ════════════════════════════════════════════════════════════════

/// The tree holds a folder at the name sequence `s` (from the top).
pub open spec fn has_node(nodes: Seq<FolderNode>, s: Seq<Seq<char>>) -> bool
    decreases s.len(),
{
    s.len() > 0 && exists|i: int|
        0 <= i < nodes.len() && (#[trigger] nodes[i]).name@ == s[0] && (s.len() == 1 || has_node(
            nodes[i].children@,
            s.drop_first(),
        ))
}

/// Siblings are in order: "Inbox" first, then by name; no folder comes
/// before one that it should follow.
pub open spec fn level_sorted(nodes: Seq<FolderNode>) -> bool {
    forall|i: int, j: int|
        0 <= i < j < nodes.len() ==> !name_before(
            (#[trigger] nodes[j]).name@,
            (#[trigger] nodes[i]).name@,
        )
}

/// Siblings have distinct names.
pub open spec fn level_distinct(nodes: Seq<FolderNode>) -> bool {
    forall|i: int, j: int|
        0 <= i < j < nodes.len() ==> (#[trigger] nodes[i]).name@ != (#[trigger] nodes[j]).name@
}

/// Every level of the tree is in order.
pub open spec fn tree_sorted(nodes: Seq<FolderNode>) -> bool
    decreases nodes,
{
    &&& level_sorted(nodes)
    &&& forall|i: int| 0 <= i < nodes.len() ==> tree_sorted(#[trigger] nodes[i].children@)
}

/// No level of the tree holds a name twice.
pub open spec fn tree_distinct(nodes: Seq<FolderNode>) -> bool
    decreases nodes,
{
    &&& level_distinct(nodes)
    &&& forall|i: int| 0 <= i < nodes.len() ==> tree_distinct(#[trigger] nodes[i].children@)
}

/// Every folder's path is its parent's path, "/" and its name (the top
/// level's parent path being `base`).
pub open spec fn tree_paths(nodes: Seq<FolderNode>, base: Seq<char>) -> bool
    decreases nodes,
{
    forall|i: int|
        0 <= i < nodes.len() ==> (#[trigger] nodes[i]).path@ == base + "/"@ + nodes[i].name@
            && tree_paths(nodes[i].children@, nodes[i].path@)
}

/// `b` holds the same folders as `a`, each with the same name and path, and
/// with sub-trees that hold the same folders.
pub open spec fn same_folders(a: Seq<FolderNode>, b: Seq<FolderNode>) -> bool {
    forall|s: Seq<Seq<char>>| #[trigger] has_node(a, s) == has_node(b, s)
}

/// The facts of one node that sorting keeps: name, path, and a sub-tree that
/// is sorted, distinct, holds the same folders and has the same paths.
pub open spec fn sorted_copy(orig: FolderNode, n: FolderNode) -> bool {
    &&& n.name@ == orig.name@
    &&& n.path@ == orig.path@
    &&& tree_sorted(n.children@)
    &&& tree_distinct(orig.children@) ==> tree_distinct(n.children@)
    &&& same_folders(orig.children@, n.children@)
    &&& forall|b: Seq<char>| tree_paths(orig.children@, b) ==> tree_paths(n.children@, b)
}

/// In a sorted level, an "Inbox" folder comes first.
pub proof fn law_inbox_first(nodes: Seq<FolderNode>, i: int)
    requires
        level_sorted(nodes),
        0 <= i < nodes.len(),
        nodes[i].name@ == inbox(),
    ensures
        nodes[0].name@ == inbox(),
{
    if i > 0 {
        assert(!name_before(nodes[i].name@, nodes[0].name@));
    }
}

/// Sorts the folders of every level: "Inbox" first, then by name.
pub fn sort_folder_nodes(nodes: &mut Vec<FolderNode>)
    ensures
        tree_sorted(final(nodes)@),
        tree_distinct(old(nodes)@) ==> tree_distinct(final(nodes)@),
        same_folders(old(nodes)@, final(nodes)@),
        forall|b: Seq<char>| tree_paths(old(nodes)@, b) ==> tree_paths(final(nodes)@, b),
    decreases old(nodes)@,
{
    let ghost orig = old(nodes)@;
    // 1. sort below every folder
    let mut taken: Vec<FolderNode> = Vec::new();
    std::mem::swap(&mut taken, nodes);
    let n = taken.len();
    let mut mid: Vec<FolderNode> = Vec::new();
    let mut k: usize = 0;
    while k < n
        invariant
            orig == old(nodes)@,
            n == orig.len(),
            taken@ == orig.skip(k as int),
            k <= n,
            mid@.len() == k,
            forall|j: int| 0 <= j < k ==> sorted_copy(orig[j], #[trigger] mid@[j]),
        decreases n - k,
    {
        let mut node = taken.remove(0);
        assert(node == orig[k as int]);
        assert(taken@ =~= orig.skip(k + 1));
        proof {
            assert(decreases_to!(orig => orig[k as int]));
        }
        sort_children(&mut node);
        mid.push(node);
        k = k + 1;
    }
    assert(forall|j: int| 0 <= j < n ==> mid@[j].name@ == orig[j].name@);
    // 2. order this level
    let ghost midv = mid@;
    let mut rest = mid;
    let mut out: Vec<FolderNode> = Vec::new();
    proof {
        assert(level_distinct(orig) ==> level_distinct(midv)) by {
            if level_distinct(orig) {
                assert forall|i: int, j: int| 0 <= i < j < midv.len() implies (#[trigger] midv[i]).name@
                    != (#[trigger] midv[j]).name@ by {
                    assert(orig[i].name@ != orig[j].name@);
                }
            }
        }
        lemma_selection_start(midv);
    }
    while rest.len() > 0
        invariant
            selection_inv(midv, out@, rest@),
        decreases rest@.len(),
    {
        let m = min_position(&rest);
        let ghost before_rest = rest@;
        let ghost before_out = out@;
        let x = rest.remove(m);
        out.push(x);
        proof {
            lemma_selection_step(midv, before_out, before_rest, m as int);
            assert(out@ == before_out.push(before_rest[m as int]));
        }
    }
    proof {
        assert forall|j: int| 0 <= j < midv.len() implies in_seq(out@, #[trigger] midv[j]) by {
            assert(in_seq(out@, midv[j]) || in_seq(rest@, midv[j]));
        }
        lemma_permuted_level(orig, midv, out@);
    }
    *nodes = out;
}

/// `x` occurs in `s`.
pub open spec fn in_seq(s: Seq<FolderNode>, x: FolderNode) -> bool {
    exists|i: int| 0 <= i < s.len() && s[i] == x
}

/// Selection sort so far: `out` is ordered and nothing in `rest` should
/// come before it, `out` with `rest` hold exactly `all`, and where `all` has
/// distinct names so have `out` and `rest` together.
pub open spec fn selection_inv(all: Seq<FolderNode>, out: Seq<FolderNode>, rest: Seq<FolderNode>) -> bool {
    &&& level_distinct(all) ==> {
        &&& level_distinct(rest)
        &&& level_distinct(out)
        &&& forall|i: int, r: int|
            0 <= i < out.len() && 0 <= r < rest.len() ==> (#[trigger] out[i]).name@
                != (#[trigger] rest[r]).name@
    }
    &&& level_sorted(out)
    &&& forall|i: int, r: int|
        0 <= i < out.len() && 0 <= r < rest.len() ==> !name_before(
            (#[trigger] rest[r]).name@,
            (#[trigger] out[i]).name@,
        )
    &&& forall|i: int| 0 <= i < out.len() ==> in_seq(all, #[trigger] out[i])
    &&& forall|r: int| 0 <= r < rest.len() ==> in_seq(all, #[trigger] rest[r])
    &&& forall|j: int| 0 <= j < all.len() ==> in_seq(out, #[trigger] all[j]) || in_seq(rest, all[j])
}

proof fn lemma_selection_start(all: Seq<FolderNode>)
    ensures
        selection_inv(all, Seq::empty(), all),
{
    assert forall|r: int| 0 <= r < all.len() implies in_seq(all, #[trigger] all[r]) by {
        assert(all[r] == all[r]);
    }
}

proof fn lemma_selection_step(all: Seq<FolderNode>, out: Seq<FolderNode>, rest: Seq<FolderNode>, m: int)
    requires
        selection_inv(all, out, rest),
        0 <= m < rest.len(),
        forall|r: int| 0 <= r < rest.len() ==> !name_before((#[trigger] rest[r]).name@, rest[m].name@),
    ensures
        selection_inv(all, out.push(rest[m]), rest.remove(m)),
{
    let x = rest[m];
    let out2 = out.push(x);
    let rest2 = rest.remove(m);
    assert forall|r: int| 0 <= r < rest2.len() implies rest2[r] == rest[if r < m {
        r
    } else {
        r + 1
    }] by {}
    if level_distinct(all) {
        assert forall|a: int, b: int| 0 <= a < b < rest2.len() implies (#[trigger] rest2[a]).name@
            != (#[trigger] rest2[b]).name@ by {
            let a0 = if a < m {
                a
            } else {
                a + 1
            };
            let b0 = if b < m {
                b
            } else {
                b + 1
            };
            assert(rest2[a] == rest[a0]);
            assert(rest2[b] == rest[b0]);
        }
        assert forall|a: int, b: int| 0 <= a < b < out2.len() implies (#[trigger] out2[a]).name@
            != (#[trigger] out2[b]).name@ by {
            assert(out2[a] == out[a]);
            if b < out2.len() - 1 {
                assert(out2[b] == out[b]);
            }
        }
        assert forall|i: int, r: int|
            0 <= i < out2.len() && 0 <= r < rest2.len() implies (#[trigger] out2[i]).name@
            != (#[trigger] rest2[r]).name@ by {
            let r0 = if r < m {
                r
            } else {
                r + 1
            };
            assert(rest2[r] == rest[r0]);
            if i < out2.len() - 1 {
                assert(out2[i] == out[i]);
            }
        }
    }
    assert forall|i: int, j: int| 0 <= i < j < out2.len() implies !name_before(
        (#[trigger] out2[j]).name@,
        (#[trigger] out2[i]).name@,
    ) by {
        if j == out2.len() - 1 {
            assert(out2[i] == out[i]);
        } else {
            assert(out2[i] == out[i]);
            assert(out2[j] == out[j]);
        }
    }
    assert forall|i: int, r: int|
        0 <= i < out2.len() && 0 <= r < rest2.len() implies !name_before(
        (#[trigger] rest2[r]).name@,
        (#[trigger] out2[i]).name@,
    ) by {
        let r0 = if r < m {
            r
        } else {
            r + 1
        };
        assert(rest2[r] == rest[r0]);
        if i < out2.len() - 1 {
            assert(out2[i] == out[i]);
        }
    }
    assert forall|i: int| 0 <= i < out2.len() implies in_seq(all, #[trigger] out2[i]) by {
        if i < out2.len() - 1 {
            assert(out2[i] == out[i]);
        } else {
            assert(in_seq(all, rest[m]));
        }
    }
    assert forall|r: int| 0 <= r < rest2.len() implies in_seq(all, #[trigger] rest2[r]) by {
        let r0 = if r < m {
            r
        } else {
            r + 1
        };
        assert(rest2[r] == rest[r0]);
        assert(in_seq(all, rest[r0]));
    }
    assert forall|j: int| 0 <= j < all.len() implies in_seq(out2, #[trigger] all[j]) || in_seq(
        rest2,
        all[j],
    ) by {
        if in_seq(out, all[j]) {
            let i = choose|i: int| 0 <= i < out.len() && out[i] == all[j];
            assert(out2[i] == out[i]);
        } else {
            assert(in_seq(rest, all[j]));
            let r = choose|r: int| 0 <= r < rest.len() && rest[r] == all[j];
            if r == m {
                assert(out2[out2.len() - 1] == x);
            } else if r < m {
                assert(rest2[r] == rest[r]);
            } else {
                assert(rest2[r - 1] == rest[r]);
            }
        }
    }
}

/// The position of the first folder in sibling order.
fn min_position(v: &Vec<FolderNode>) -> (m: usize)
    requires
        v@.len() > 0,
    ensures
        m < v@.len(),
        forall|r: int| 0 <= r < v@.len() ==> !name_before((#[trigger] v@[r]).name@, v@[m as int].name@),
{
    let n = v.len();
    let mut best: usize = 0;
    let mut k: usize = 1;
    while k < n
        invariant
            n == v@.len(),
            1 <= k <= n,
            best < k,
            forall|r: int| 0 <= r < k && r != best ==> !name_before((#[trigger] v@[r]).name@, v@[best as int].name@),
        decreases n - k,
    {
        if comes_before(&v[k].name, &v[best].name) {
            assert forall|r: int| 0 <= r < k + 1 && r != k implies !name_before((#[trigger] v@[r]).name@, v@[k as int].name@) by {
                lemma_name_order(v@[r].name@, v@[k as int].name@, v@[best as int].name@);
                lemma_name_order(v@[best as int].name@, v@[k as int].name@, v@[r].name@);
            }
            best = k;
        }
        k = k + 1;
    }
    assert forall|r: int| 0 <= r < n implies !name_before((#[trigger] v@[r]).name@, v@[best as int].name@) by {
        lemma_name_order(v@[best as int].name@, v@[r].name@, v@[r].name@);
    }
    best
}

/// A level whose folders are, in some order, sorted copies of the given
/// folders: sorted, distinct, the same folders, the same paths.
proof fn lemma_permuted_level(orig: Seq<FolderNode>, midv: Seq<FolderNode>, out: Seq<FolderNode>)
    requires
        midv.len() == orig.len(),
        forall|j: int| 0 <= j < orig.len() ==> sorted_copy(orig[j], #[trigger] midv[j]),
        forall|i: int| 0 <= i < out.len() ==> in_seq(midv, #[trigger] out[i]),
        forall|j: int| 0 <= j < midv.len() ==> in_seq(out, #[trigger] midv[j]),
        level_sorted(out),
        level_distinct(orig) ==> level_distinct(out),
    ensures
        tree_sorted(out),
        tree_distinct(orig) ==> tree_distinct(out),
        same_folders(orig, out),
        forall|b: Seq<char>| tree_paths(orig, b) ==> tree_paths(out, b),
{
    assert forall|i: int| 0 <= i < out.len() implies tree_sorted(#[trigger] out[i].children@)
        && (tree_distinct(orig) ==> tree_distinct(out[i].children@)) by {
        let j = choose|j: int| 0 <= j < midv.len() && out[i] == midv[j];
        assert(sorted_copy(orig[j], midv[j]));
        if tree_distinct(orig) {
            assert(tree_distinct(orig[j].children@));
        }
    }
    assert forall|s: Seq<Seq<char>>| #[trigger] has_node(orig, s) == has_node(out, s) by {
        if has_node(orig, s) {
            let i = choose|i: int|
                0 <= i < orig.len() && (#[trigger] orig[i]).name@ == s[0] && (s.len() == 1
                    || has_node(orig[i].children@, s.drop_first()));
            assert(sorted_copy(orig[i], midv[i]));
            assert(has_node(orig[i].children@, s.drop_first()) == has_node(midv[i].children@, s.drop_first()));
            let o = choose|o: int| 0 <= o < out.len() && out[o] == midv[i];
            assert(out[o].name@ == s[0]);
            assert(has_node(out, s));
        }
        if has_node(out, s) {
            let o = choose|o: int|
                0 <= o < out.len() && (#[trigger] out[o]).name@ == s[0] && (s.len() == 1
                    || has_node(out[o].children@, s.drop_first()));
            let j = choose|j: int| 0 <= j < midv.len() && out[o] == midv[j];
            assert(sorted_copy(orig[j], midv[j]));
            assert(has_node(orig[j].children@, s.drop_first()) == has_node(midv[j].children@, s.drop_first()));
            assert(orig[j].name@ == s[0]);
            assert(has_node(orig, s));
        }
    }
    assert forall|b: Seq<char>| tree_paths(orig, b) implies tree_paths(out, b) by {
        assert forall|i: int| 0 <= i < out.len() implies (#[trigger] out[i]).path@ == b + "/"@
            + out[i].name@ && tree_paths(out[i].children@, out[i].path@) by {
            let j = choose|j: int| 0 <= j < midv.len() && out[i] == midv[j];
            assert(sorted_copy(orig[j], midv[j]));
            assert(orig[j].path@ == b + "/"@ + orig[j].name@ && tree_paths(orig[j].children@, orig[j].path@));
        }
    }
}

/// Sorts the sub-folders of one folder.
fn sort_children(node: &mut FolderNode)
    ensures
        sorted_copy(*old(node), *final(node)),
    decreases *old(node),
{
    let mut kids: Vec<FolderNode> = Vec::new();
    std::mem::swap(&mut kids, &mut node.children);
    proof {
        assert(decreases_to!(*old(node) => old(node).children@));
    }
    sort_folder_nodes(&mut kids);
    node.children = kids;
}

// ════════════════════════════════════════════════════════════════
// Building the tree
// ════════════════════════════════════════════════════════════════

/// The segments of `p` between slashes, empty ones dropped, the current
/// segment so far being `cur`.
pub open spec fn seg_scan(p: Seq<char>, cur: Seq<char>) -> Seq<Seq<char>>
    decreases p.len(),
{
    if p.len() == 0 {
        if cur.len() > 0 {
            seq![cur]
        } else {
            Seq::empty()
        }
    } else if p[0] == '/' {
        (if cur.len() > 0 {
            seq![cur]
        } else {
            Seq::empty()
        }) + seg_scan(p.drop_first(), Seq::empty())
    } else {
        seg_scan(p.drop_first(), cur.push(p[0]))
    }
}

/// The folder names along a path: "/A//B/" → ["A", "B"].
pub open spec fn path_segments(p: Seq<char>) -> Seq<Seq<char>> {
    seg_scan(p, Seq::empty())
}

/// The folder names along a path.
pub fn segments_of(p: &str) -> (r: Vec<String>)
    ensures
        strs(r@) == path_segments(p@),
{
    let cs = chars_of(p);
    let n = cs.len();
    let mut out: Vec<String> = Vec::new();
    let mut from: usize = 0;
    let mut i: usize = 0;
    assert(p@.skip(0) =~= p@);
    assert(p@.subrange(0, 0) =~= Seq::<char>::empty());
    assert(strs(out@) =~= Seq::<Seq<char>>::empty());
    while i < n
        invariant
            cs@ == p@,
            n == p@.len(),
            from <= i <= n,
            strs(out@) + seg_scan(p@.skip(i as int), p@.subrange(from as int, i as int))
                == path_segments(p@),
        decreases n - i,
    {
        let ghost before = strs(out@);
        let ghost cur = p@.subrange(from as int, i as int);
        assert(p@.skip(i as int)[0] == p@[i as int]);
        assert(p@.skip(i as int).drop_first() =~= p@.skip(i + 1));
        if cs[i] == '/' {
            if i > from {
                let seg = string_of_range(cs.as_slice(), from, i);
                out.push(seg);
                assert(strs(out@) =~= before.push(cur));
                assert(before.push(cur) + seg_scan(p@.skip(i + 1), Seq::empty()) =~= before + (
                seq![cur] + seg_scan(p@.skip(i + 1), Seq::empty())));
            } else {
                assert(cur =~= Seq::<char>::empty());
                assert(Seq::<Seq<char>>::empty() + seg_scan(p@.skip(i + 1), Seq::empty()) =~= seg_scan(
                    p@.skip(i + 1),
                    Seq::empty(),
                ));
            }
            assert(p@.subrange(i + 1, i + 1) =~= Seq::<char>::empty());
            from = i + 1;
        } else {
            assert(cur.push(p@[i as int]) =~= p@.subrange(from as int, i + 1));
        }
        i = i + 1;
    }
    let ghost before = strs(out@);
    assert(p@.skip(n as int) =~= Seq::<char>::empty());
    if from < n {
        let seg = string_of_range(cs.as_slice(), from, n);
        out.push(seg);
        assert(strs(out@) =~= before + seq![p@.subrange(from as int, n as int)]);
    } else {
        assert(p@.subrange(from as int, n as int) =~= Seq::<char>::empty());
        assert(strs(out@) =~= before + Seq::<Seq<char>>::empty());
    }
    out
}

/// `s` starts `l`.
pub open spec fn is_prefix(s: Seq<Seq<char>>, l: Seq<Seq<char>>) -> bool {
    s.len() <= l.len() && l.take(s.len() as int) == s
}

/// Some list starts with `s`.
pub open spec fn covered(lv: Seq<Seq<Seq<char>>>, s: Seq<Seq<char>>) -> bool {
    exists|k: int| 0 <= k < lv.len() && is_prefix(s, #[trigger] lv[k])
}

/// Some list starts with `x` and continues with `t`.
pub open spec fn covered_under(lv: Seq<Seq<Seq<char>>>, x: Seq<char>, t: Seq<Seq<char>>) -> bool {
    exists|k: int|
        0 <= k < lv.len() && (#[trigger] lv[k]).len() > 0 && lv[k][0] == x && is_prefix(
            t,
            lv[k].drop_first(),
        )
}

pub open spec fn lists_v(lists: Seq<Vec<String>>) -> Seq<Seq<Seq<char>>> {
    lists.map_values(|l: Vec<String>| strs(l@))
}

/// Some non-empty list starts with `x`.
pub open spec fn first_of_some(lv: Seq<Seq<Seq<char>>>, x: Seq<char>) -> bool {
    exists|q: int| 0 <= q < lv.len() && (#[trigger] lv[q]).len() > 0 && lv[q][0] == x
}

/// Some list starts with `x` and continues with `t`.
pub open spec fn tail_of_some(lv: Seq<Seq<Seq<char>>>, x: Seq<char>, t: Seq<Seq<char>>) -> bool {
    exists|q: int|
        0 <= q < lv.len() && (#[trigger] lv[q]).len() > 0 && lv[q][0] == x && lv[q].drop_first() == t
}

/// `t` is one of the lists.
pub open spec fn one_of(lv: Seq<Seq<Seq<char>>>, t: Seq<Seq<char>>) -> bool {
    exists|j: int| 0 <= j < lv.len() && #[trigger] lv[j] == t
}

/// The distinct first names of the non-empty lists, in order of appearance.
fn first_names(lists: &Vec<Vec<String>>) -> (names: Vec<String>)
    ensures
        forall|i: int, j: int|
            0 <= i < j < names@.len() ==> (#[trigger] names@[i])@ != (#[trigger] names@[j])@,
        forall|i: int| 0 <= i < names@.len() ==> first_of_some(lists_v(lists@), (#[trigger] names@[i])@),
        forall|k: int|
            0 <= k < lists@.len() && (#[trigger] lists_v(lists@)[k]).len() > 0 ==> strs(
                names@,
            ).contains(lists_v(lists@)[k][0]),
{
    let ghost lv = lists_v(lists@);
    let n = lists.len();
    let mut names: Vec<String> = Vec::new();
    let mut k: usize = 0;
    while k < n
        invariant
            n == lists@.len(),
            lv == lists_v(lists@),
            k <= n,
            forall|i: int, j: int|
                0 <= i < j < names@.len() ==> (#[trigger] names@[i])@ != (#[trigger] names@[j])@,
            forall|i: int| 0 <= i < names@.len() ==> first_of_some(lv, (#[trigger] names@[i])@),
            forall|q: int|
                0 <= q < k && (#[trigger] lv[q]).len() > 0 ==> strs(names@).contains(lv[q][0]),
        decreases n - k,
    {
        assert(lv[k as int] == strs(lists@[k as int]@));
        if lists[k].len() > 0 {
            let first = &lists[k][0];
            if !crate::store::contains_string(&names, first) {
                let ghost before = names@;
                names.push(first.clone());
                assert(strs(names@) =~= strs(before).push(first@));
                assert forall|q: int|
                    0 <= q < k + 1 && (#[trigger] lv[q]).len() > 0 implies strs(names@).contains(
                    lv[q][0],
                ) by {
                    if q < k {
                        assert(strs(before).contains(lv[q][0]));
                        let w = choose|w: int| 0 <= w < strs(before).len() && strs(before)[w] == lv[q][0];
                        assert(strs(names@)[w] == lv[q][0]);
                    } else {
                        assert(strs(names@)[names@.len() - 1] == lv[q][0]);
                    }
                }
                assert forall|i: int, j: int|
                    0 <= i < j < names@.len() implies (#[trigger] names@[i])@ != (
                    #[trigger] names@[j])@ by {
                    if j == names@.len() - 1 {
                        assert(strs(before)[i] == names@[i]@);
                    } else {
                        assert(names@[i] == before[i]);
                        assert(names@[j] == before[j]);
                    }
                }
                assert forall|i: int| 0 <= i < names@.len() implies first_of_some(
                    lv,
                    (#[trigger] names@[i])@,
                ) by {
                    if i < names@.len() - 1 {
                        assert(names@[i] == before[i]);
                    } else {
                        assert(lv[k as int].len() > 0 && lv[k as int][0] == names@[i]@);
                    }
                }
            }
        }
        k = k + 1;
    }
    names
}

/// The rests of the lists that start with `x`.
fn tails_for(lists: &Vec<Vec<String>>, x: &String) -> (sub: Vec<Vec<String>>)
    ensures
        forall|j: int|
            0 <= j < sub@.len() ==> tail_of_some(lists_v(lists@), x@, #[trigger] lists_v(sub@)[j]),
        forall|k: int|
            0 <= k < lists@.len() && (#[trigger] lists_v(lists@)[k]).len() > 0 && lists_v(
                lists@,
            )[k][0] == x@ ==> one_of(lists_v(sub@), lists_v(lists@)[k].drop_first()),
{
    let ghost lv = lists_v(lists@);
    let n = lists.len();
    let mut sub: Vec<Vec<String>> = Vec::new();
    let mut k: usize = 0;
    while k < n
        invariant
            n == lists@.len(),
            lv == lists_v(lists@),
            k <= n,
            forall|j: int| 0 <= j < sub@.len() ==> tail_of_some(lv, x@, #[trigger] lists_v(sub@)[j]),
            forall|q: int|
                0 <= q < k && (#[trigger] lv[q]).len() > 0 && lv[q][0] == x@ ==> one_of(
                    lists_v(sub@),
                    lv[q].drop_first(),
                ),
        decreases n - k,
    {
        let l = &lists[k];
        assert(lv[k as int] == strs(l@));
        if l.len() > 0 && l[0] == *x {
            let m = l.len();
            let mut t: Vec<String> = Vec::new();
            let mut i: usize = 1;
            while i < m
                invariant
                    m == l@.len(),
                    1 <= i <= m,
                    strs(t@) == strs(l@).subrange(1, i as int),
                decreases m - i,
            {
                let ghost tb = strs(t@);
                t.push(l[i].clone());
                assert(strs(t@) =~= tb.push(l@[i as int]@));
                assert(strs(l@).subrange(1, i + 1) =~= strs(l@).subrange(1, i as int).push(
                    l@[i as int]@,
                ));
                i = i + 1;
            }
            assert(strs(t@) =~= lv[k as int].drop_first());
            let ghost before = sub@;
            sub.push(t);
            assert(lists_v(sub@)[sub@.len() - 1] == lv[k as int].drop_first());
            assert forall|j: int| 0 <= j < sub@.len() implies tail_of_some(
                lv,
                x@,
                #[trigger] lists_v(sub@)[j],
            ) by {
                if j < before.len() {
                    assert(lists_v(sub@)[j] == lists_v(before)[j]);
                } else {
                    assert(lv[k as int].len() > 0 && lv[k as int][0] == x@);
                }
            }
            assert forall|q: int|
                0 <= q < k + 1 && (#[trigger] lv[q]).len() > 0 && lv[q][0] == x@ implies one_of(
                lists_v(sub@),
                lv[q].drop_first(),
            ) by {
                if q < k {
                    let j = choose|j: int|
                        0 <= j < lists_v(before).len() && #[trigger] lists_v(before)[j]
                            == lv[q].drop_first();
                    assert(lists_v(sub@)[j] == lists_v(before)[j]);
                } else {
                    assert(lists_v(sub@)[sub@.len() - 1] == lv[q].drop_first());
                }
            }
        } else {
            assert forall|q: int|
                0 <= q < k + 1 && (#[trigger] lv[q]).len() > 0 && lv[q][0] == x@ implies one_of(
                lists_v(sub@),
                lv[q].drop_first(),
            ) by {
                if q == k {
                    assert(l@[0]@ == lv[q][0]);
                }
            }
        }
        k = k + 1;
    }
    sub
}

proof fn lemma_tails_coverage(lv: Seq<Seq<Seq<char>>>, sv: Seq<Seq<Seq<char>>>, x: Seq<char>, t: Seq<Seq<char>>)
    requires
        forall|j: int| 0 <= j < sv.len() ==> tail_of_some(lv, x, #[trigger] sv[j]),
        forall|k: int|
            0 <= k < lv.len() && (#[trigger] lv[k]).len() > 0 && lv[k][0] == x ==> one_of(
                sv,
                lv[k].drop_first(),
            ),
    ensures
        covered(sv, t) == covered_under(lv, x, t),
{
    if covered(sv, t) {
        let j = choose|j: int| 0 <= j < sv.len() && is_prefix(t, #[trigger] sv[j]);
        assert(tail_of_some(lv, x, sv[j]));
        let q = choose|q: int|
            0 <= q < lv.len() && (#[trigger] lv[q]).len() > 0 && lv[q][0] == x && lv[q].drop_first()
                == sv[j];
        assert(covered_under(lv, x, t));
    }
    if covered_under(lv, x, t) {
        let q = choose|q: int|
            0 <= q < lv.len() && (#[trigger] lv[q]).len() > 0 && lv[q][0] == x && is_prefix(
                t,
                lv[q].drop_first(),
            );
        assert(one_of(sv, lv[q].drop_first()));
        let j = choose|j: int| 0 <= j < sv.len() && #[trigger] sv[j] == lv[q].drop_first();
        assert(is_prefix(t, sv[j]));
    }
}

proof fn lemma_level_coverage(
    lv: Seq<Seq<Seq<char>>>,
    names: Seq<Seq<char>>,
    out: Seq<FolderNode>,
    s: Seq<Seq<char>>,
)
    requires
        out.len() == names.len(),
        forall|j: int| 0 <= j < out.len() ==> (#[trigger] out[j]).name@ == names[j],
        forall|j: int, t: Seq<Seq<char>>|
            0 <= j < out.len() && t.len() > 0 ==> (#[trigger] has_node(out[j].children@, t)
                == covered_under(lv, names[j], t)),
        forall|j: int| 0 <= j < names.len() ==> first_of_some(lv, #[trigger] names[j]),
        forall|k: int| 0 <= k < lv.len() && (#[trigger] lv[k]).len() > 0 ==> names.contains(lv[k][0]),
        s.len() > 0,
    ensures
        has_node(out, s) == covered(lv, s),
{
    if has_node(out, s) {
        let i = choose|i: int|
            0 <= i < out.len() && (#[trigger] out[i]).name@ == s[0] && (s.len() == 1 || has_node(
                out[i].children@,
                s.drop_first(),
            ));
        if s.len() == 1 {
            assert(first_of_some(lv, names[i]));
            let q = choose|q: int| 0 <= q < lv.len() && (#[trigger] lv[q]).len() > 0 && lv[q][0] == names[i];
            assert(lv[q].take(1) =~= s);
            assert(is_prefix(s, lv[q]));
        } else {
            assert(has_node(out[i].children@, s.drop_first()) == covered_under(lv, names[i], s.drop_first()));
            let q = choose|q: int|
                0 <= q < lv.len() && (#[trigger] lv[q]).len() > 0 && lv[q][0] == names[i] && is_prefix(
                    s.drop_first(),
                    lv[q].drop_first(),
                );
            assert forall|m: int| 0 <= m < s.len() implies lv[q].take(s.len() as int)[m] == s[m] by {
                if m > 0 {
                    assert(lv[q].drop_first().take(s.drop_first().len() as int)[m - 1] == s.drop_first()[m - 1]);
                }
            }
            assert(lv[q].take(s.len() as int) =~= s);
            assert(is_prefix(s, lv[q]));
        }
    }
    if covered(lv, s) {
        let q = choose|q: int| 0 <= q < lv.len() && is_prefix(s, #[trigger] lv[q]);
        assert(lv[q].take(s.len() as int)[0] == s[0]);
        assert(lv[q].len() > 0 && lv[q][0] == s[0]);
        assert(names.contains(s[0]));
        let i = choose|i: int| 0 <= i < names.len() && names[i] == s[0];
        assert(out[i].name@ == s[0]);
        if s.len() > 1 {
            assert(lv[q].drop_first().take(s.drop_first().len() as int) =~= s.drop_first()) by {
                assert forall|m: int| 0 <= m < s.drop_first().len() implies lv[q].drop_first().take(
                    s.drop_first().len() as int,
                )[m] == s.drop_first()[m] by {
                    assert(lv[q].take(s.len() as int)[m + 1] == s[m + 1]);
                }
            }
            assert(covered_under(lv, names[i], s.drop_first()));
            assert(has_node(out[i].children@, s.drop_first()));
        }
        assert(has_node(out, s));
    }
}

/// The folders of one level for the name lists below `base`: one folder per
/// distinct first name (in order of appearance), holding the folders of the
/// rests of the lists that start with it.
fn build_level(lists: &Vec<Vec<String>>, base: &String, depth: usize) -> (r: Vec<FolderNode>)
    requires
        forall|k: int| 0 <= k < lists@.len() ==> (#[trigger] lists@[k])@.len() <= depth,
    ensures
        tree_distinct(r@),
        tree_paths(r@, base@),
        forall|s: Seq<Seq<char>>| s.len() > 0 ==> (#[trigger] has_node(r@, s) == covered(lists_v(lists@), s)),
    decreases depth,
{
    let ghost lv = lists_v(lists@);
    let names = first_names(lists);
    let n = names.len();
    let mut out: Vec<FolderNode> = Vec::new();
    let mut i: usize = 0;
    while i < n
        invariant
            lv == lists_v(lists@),
            forall|k: int| 0 <= k < lists@.len() ==> (#[trigger] lists@[k])@.len() <= depth,
            n == names@.len(),
            forall|a: int, b: int|
                0 <= a < b < names@.len() ==> (#[trigger] names@[a])@ != (#[trigger] names@[b])@,
            forall|a: int| 0 <= a < names@.len() ==> first_of_some(lv, (#[trigger] names@[a])@),
            i <= n,
            out@.len() == i,
            forall|j: int| 0 <= j < i ==> (#[trigger] out@[j]).name@ == names@[j]@,
            forall|j: int|
                0 <= j < i ==> (#[trigger] out@[j]).path@ == base@ + "/"@ + out@[j].name@
                    && tree_distinct(out@[j].children@) && tree_paths(
                    out@[j].children@,
                    out@[j].path@,
                ),
            forall|j: int, t: Seq<Seq<char>>|
                0 <= j < i && t.len() > 0 ==> (#[trigger] has_node(out@[j].children@, t)
                    == covered_under(lv, names@[j]@, t)),
        decreases n - i,
    {
        let x = &names[i];
        let sub = tails_for(lists, x);
        proof {
            assert(first_of_some(lv, x@));
            let q = choose|q: int| 0 <= q < lv.len() && (#[trigger] lv[q]).len() > 0 && lv[q][0] == x@;
            assert(lists@[q]@.len() == lv[q].len());
            assert(depth >= 1);
            assert forall|k: int| 0 <= k < sub@.len() implies (#[trigger] sub@[k])@.len() <= depth - 1 by {
                assert(tail_of_some(lv, x@, lists_v(sub@)[k]));
                let p = choose|p: int|
                    0 <= p < lv.len() && (#[trigger] lv[p]).len() > 0 && lv[p][0] == x@
                        && lv[p].drop_first() == lists_v(sub@)[k];
                assert(lists@[p]@.len() == lv[p].len());
                assert(lists_v(sub@)[k].len() == sub@[k]@.len());
            }
        }
        let path = crate::text::concat3(base.as_str(), "/", x.as_str());
        let children = build_level(&sub, &path, depth - 1);
        proof {
            assert forall|t: Seq<Seq<char>>| t.len() > 0 implies (has_node(children@, t)
                == covered_under(lv, x@, t)) by {
                lemma_tails_coverage(lv, lists_v(sub@), x@, t);
            }
        }
        let node = FolderNode { name: x.clone(), path, children };
        out.push(node);
        i = i + 1;
    }
    proof {
        let nv = strs(names@);
        assert forall|j: int| 0 <= j < out@.len() implies (#[trigger] out@[j]).name@ == nv[j] by {}
        assert forall|j: int| 0 <= j < nv.len() implies first_of_some(lv, #[trigger] nv[j]) by {
            assert(first_of_some(lv, names@[j]@));
        }
        assert forall|j: int, t: Seq<Seq<char>>|
            0 <= j < out@.len() && t.len() > 0 implies (#[trigger] has_node(out@[j].children@, t)
            == covered_under(lv, nv[j], t)) by {}
        assert forall|s: Seq<Seq<char>>| s.len() > 0 implies (#[trigger] has_node(out@, s) == covered(lv, s)) by {
            lemma_level_coverage(lv, nv, out@, s);
        }
        assert(level_distinct(out@)) by {
            assert forall|a: int, b: int| 0 <= a < b < out@.len() implies (#[trigger] out@[a]).name@
                != (#[trigger] out@[b]).name@ by {
                assert(names@[a]@ != names@[b]@);
            }
        }
    }
    out
}

/// The folder tree of a list of folder paths: a folder for every prefix of
/// every path, "Inbox" first and the rest by name at every level, each with
/// its full path.
pub fn build_folder_tree(paths: &Vec<String>) -> (r: Vec<FolderNode>)
    ensures
        tree_sorted(r@),
        tree_distinct(r@),
        tree_paths(r@, Seq::empty()),
        forall|s: Seq<Seq<char>>|
            s.len() > 0 ==> (#[trigger] has_node(r@, s) == exists|k: int|
                0 <= k < paths@.len() && is_prefix(s, path_segments(#[trigger] paths@[k]@))),
{
    let n = paths.len();
    let mut lists: Vec<Vec<String>> = Vec::new();
    let mut depth: usize = 0;
    let mut k: usize = 0;
    while k < n
        invariant
            n == paths@.len(),
            k <= n,
            lists@.len() == k,
            forall|j: int| 0 <= j < k ==> strs((#[trigger] lists@[j])@) == path_segments(paths@[j]@),
            forall|j: int| 0 <= j < k ==> (#[trigger] lists@[j])@.len() <= depth,
        decreases n - k,
    {
        let segs = segments_of(paths[k].as_str());
        if segs.len() > depth {
            depth = segs.len();
        }
        lists.push(segs);
        k = k + 1;
    }
    let base = String::new();
    let mut nodes = build_level(&lists, &base, depth);
    proof {
        assert(base@ =~= Seq::<char>::empty());
    }
    let ghost built = nodes@;
    sort_folder_nodes(&mut nodes);
    proof {
        let lv = lists_v(lists@);
        assert forall|s: Seq<Seq<char>>| s.len() > 0 implies (#[trigger] has_node(nodes@, s) == exists|k: int|
            0 <= k < paths@.len() && is_prefix(s, path_segments(#[trigger] paths@[k]@))) by {
            assert(has_node(built, s) == has_node(nodes@, s));
            assert(has_node(built, s) == covered(lv, s));
            if covered(lv, s) {
                let q = choose|q: int| 0 <= q < lv.len() && is_prefix(s, #[trigger] lv[q]);
                assert(lv[q] == path_segments(paths@[q]@));
            }
            if exists|k: int| 0 <= k < paths@.len() && is_prefix(s, path_segments(#[trigger] paths@[k]@)) {
                let q = choose|k: int| 0 <= k < paths@.len() && is_prefix(s, path_segments(#[trigger] paths@[k]@));
                assert(lv[q] == path_segments(paths@[q]@));
            }
        }
    }
    nodes
}

} // verus!
