//! Acyclicity of the menu forest: with distinct ids, following "parent of"
//! from any node walks strictly up and reaches a top-level root in exactly
//! `depth_of` steps, which is less than the forest's height. In particular
//! no entry is its own ancestor.

use vstd::prelude::*;
use crate::model::MenuEntry;
use crate::tree::depth_of;
use crate::tree::entry_has;
use crate::tree::entry_height;
use crate::tree::forest_has;
use crate::tree::forest_height;
use crate::tree::forest_wf;
use crate::tree::group_has;
use crate::tree::id_seq;
use crate::tree::id_seq_entry;
use crate::tree::ids_unique;
use crate::tree::lemma_forest_has_iff;
use crate::tree::no_dups;
use crate::tree::parent_in;
use crate::tree::parent_of;

verus! {

/// A value sits in a concatenation exactly when it sits in one of the parts.
proof fn lemma_concat_contains(x: Seq<usize>, y: Seq<usize>, v: usize)
    ensures
        (x + y).contains(v) <==> x.contains(v) || y.contains(v),
{
    if (x + y).contains(v) {
        let i = choose|i: int| 0 <= i < (x + y).len() && (x + y)[i] == v;
        if i < x.len() {
            assert(x[i] == v);
        } else {
            assert(y[i - x.len()] == v);
        }
    }
    if x.contains(v) {
        let i = choose|i: int| 0 <= i < x.len() && x[i] == v;
        assert((x + y)[i] == v);
    }
    if y.contains(v) {
        let i = choose|i: int| 0 <= i < y.len() && y[i] == v;
        assert((x + y)[x.len() + i] == v);
    }
}

/// Without duplicates in a concatenation, neither part repeats a value and
/// no value sits in both parts.
proof fn lemma_no_dups_split(x: Seq<usize>, y: Seq<usize>)
    requires
        no_dups(x + y),
    ensures
        no_dups(x),
        no_dups(y),
        forall|v: usize| !(x.contains(v) && #[trigger] y.contains(v)),
{
    assert forall|i: int, j: int| 0 <= i < j < x.len() implies x[i] != x[j] by {
        assert((x + y)[i] == x[i]);
        assert((x + y)[j] == x[j]);
    }
    assert forall|i: int, j: int| 0 <= i < j < y.len() implies y[i] != y[j] by {
        assert((x + y)[x.len() + i] == y[i]);
        assert((x + y)[x.len() + j] == y[j]);
    }
    assert forall|v: usize| !(x.contains(v) && #[trigger] y.contains(v)) by {
        if x.contains(v) && y.contains(v) {
            let i = choose|i: int| 0 <= i < x.len() && x[i] == v;
            let j = choose|j: int| 0 <= j < y.len() && y[j] == v;
            assert((x + y)[i] == v);
            assert((x + y)[x.len() + j] == v);
        }
    }
}

/// Membership in a subtree is membership in its preorder id sequence.
proof fn lemma_entry_has_id_seq(e: MenuEntry, id: usize)
    ensures
        entry_has(e, id) <==> id_seq_entry(e).contains(id),
    decreases e,
{
    lemma_concat_contains(seq![e.id], id_seq(e.children@), id);
    lemma_forest_has_id_seq(e.children@, id);
    if e.id == id {
        assert(seq![e.id][0] == id);
    }
    if seq![e.id].contains(id) {
        assert(seq![e.id][0] == e.id);
    }
}

/// Membership in a forest is membership in its preorder id sequence.
proof fn lemma_forest_has_id_seq(s: Seq<MenuEntry>, id: usize)
    ensures
        forest_has(s, id) <==> id_seq(s).contains(id),
    decreases s,
{
    if s.len() != 0 {
        let t = s.subrange(1, s.len() as int);
        lemma_concat_contains(id_seq_entry(s[0]), id_seq(t), id);
        lemma_entry_has_id_seq(s[0], id);
        lemma_forest_has_id_seq(t, id);
    }
}

/// With no id repeated, the head tree and the remaining forest share none.
proof fn lemma_unique_head_tail(s: Seq<MenuEntry>, id: usize)
    requires
        ids_unique(s),
        s.len() > 0,
    ensures
        ids_unique(s[0].children@),
        ids_unique(s.subrange(1, s.len() as int)),
        !(entry_has(s[0], id) && forest_has(s.subrange(1, s.len() as int), id)),
        !(s[0].id == id && forest_has(s[0].children@, id)),
    decreases s,
{
    let t = s.subrange(1, s.len() as int);
    lemma_no_dups_split(id_seq_entry(s[0]), id_seq(t));
    lemma_no_dups_split(seq![s[0].id], id_seq(s[0].children@));
    lemma_entry_has_id_seq(s[0], id);
    lemma_forest_has_id_seq(t, id);
    lemma_forest_has_id_seq(s[0].children@, id);
    assert(seq![s[0].id][0] == s[0].id);
    if s[0].id == id && forest_has(s[0].children@, id) {
        assert(seq![s[0].id].contains(id));
    }
}

/// The accumulator does not matter below the group that holds `id`.
proof fn lemma_parent_in_cur(s: Seq<MenuEntry>, id: usize, a: Option<usize>, b: Option<usize>)
    requires
        !group_has(s, id),
    ensures
        parent_in(s, id, a) == parent_in(s, id, b),
    decreases s,
{
    if s.len() != 0 {
        let t = s.subrange(1, s.len() as int);
        assert(!group_has(t, id)) by {
            if group_has(t, id) {
                let i = choose|i: int| 0 <= i < t.len() && t[i].id == id;
                assert(s[i + 1].id == id);
            }
        }
        if !entry_has(s[0], id) {
            lemma_parent_in_cur(t, id, a, b);
        }
    }
}

/// A node that is no direct member of the top group sits at depth one or
/// more.
proof fn lemma_depth_pos(s: Seq<MenuEntry>, id: usize)
    requires
        forest_has(s, id),
        !group_has(s, id),
    ensures
        depth_of(s, id) >= 1,
    decreases s,
{
    let t = s.subrange(1, s.len() as int);
    assert(!group_has(t, id)) by {
        if group_has(t, id) {
            let i = choose|i: int| 0 <= i < t.len() && t[i].id == id;
            assert(s[i + 1].id == id);
        }
    }
    if !entry_has(s[0], id) {
        lemma_depth_pos(t, id);
    }
}

/// Following "parent of" one step from any node either reaches a top-level
/// root (exactly when the node's depth is zero) or moves to a present node
/// whose depth is one less.
pub proof fn lemma_parent_depth(s: Seq<MenuEntry>, id: usize)
    requires
        ids_unique(s),
        forest_has(s, id),
    ensures
        parent_of(s, id) is None ==> depth_of(s, id) == 0,
        parent_of(s, id) is Some ==> forest_has(s, parent_of(s, id)->Some_0) && depth_of(
            s,
            parent_of(s, id)->Some_0,
        ) + 1 == depth_of(s, id),
    decreases s,
{
    let t = s.subrange(1, s.len() as int);
    lemma_unique_head_tail(s, id);
    if group_has(s, id) {
        // parent_of is the root accumulator `None`; depth is zero.
    } else if entry_has(s[0], id) {
        let ch = s[0].children@;
        assert(s[0].id != id);
        assert(forest_has(ch, id));
        lemma_parent_in_cur(s, id, None, None);
        if group_has(ch, id) {
            // the parent is s[0] itself
            assert(parent_in(ch, id, Some(s[0].id)) == Some(s[0].id));
            assert(entry_has(s[0], s[0].id));
            lemma_forest_has_iff(s, s[0].id);
            assert(group_has(s, s[0].id));
            assert(depth_of(s, s[0].id) == 0);
            assert(depth_of(ch, id) == 0);
        } else {
            lemma_parent_in_cur(ch, id, Some(s[0].id), None);
            lemma_parent_depth(ch, id);
            lemma_depth_pos(ch, id);
            assert(parent_of(ch, id) is Some);
            let p = parent_of(ch, id)->Some_0;
            assert(parent_of(s, id) == Some(p));
            // p sits inside the head tree; distinct ids keep it out of the
            // top group and out of the remaining forest
            assert(forest_has(ch, p));
            assert(entry_has(s[0], p));
            lemma_forest_has_iff(s, p);
            assert(forest_has(s, p));
            lemma_unique_head_tail(s, p);
            assert(s[0].id != p);
            assert(!group_has(s, p)) by {
                if group_has(s, p) {
                    let i = choose|i: int| 0 <= i < s.len() && s[i].id == p;
                    if i == 0 {
                    } else {
                        assert(t[i - 1].id == p);
                        assert(entry_has(t[i - 1], p));
                        lemma_forest_has_iff(t, p);
                    }
                }
            }
            assert(depth_of(s, p) == 1 + depth_of(ch, p));
            assert(depth_of(s, id) == 1 + depth_of(ch, id));
        }
    } else {
        assert(forest_has(t, id));
        assert(!group_has(t, id)) by {
            if group_has(t, id) {
                let i = choose|i: int| 0 <= i < t.len() && t[i].id == id;
                assert(s[i + 1].id == id);
            }
        }
        lemma_parent_depth(t, id);
        assert(parent_of(s, id) == parent_of(t, id));
        assert(depth_of(s, id) == depth_of(t, id));
        if parent_of(t, id) is Some {
            let p = parent_of(t, id)->Some_0;
            lemma_unique_head_tail(s, p);
            assert(forest_has(t, p));
            lemma_forest_has_iff(t, p);
            let i = choose|i: int| 0 <= i < t.len() && entry_has(#[trigger] t[i], p);
            assert(s[i + 1] == t[i]);
            lemma_forest_has_iff(s, p);
            assert(forest_has(s, p));
            assert(!entry_has(s[0], p));
            if group_has(t, p) {
                let m = choose|m: int| 0 <= m < t.len() && t[m].id == p;
                assert(s[m + 1].id == p);
                assert(group_has(s, p));
                assert(depth_of(s, p) == 0);
                assert(depth_of(t, p) == 0);
            } else {
                assert(!group_has(s, p)) by {
                    if group_has(s, p) {
                        let m = choose|m: int| 0 <= m < s.len() && s[m].id == p;
                        if m == 0 {
                            assert(entry_has(s[0], p));
                        } else {
                            assert(t[m - 1].id == p);
                        }
                    }
                }
                assert(depth_of(s, p) == depth_of(t, p));
            }
        }
    }
}

/// The depth of every present node lies strictly below the forest's height.
pub proof fn lemma_depth_lt_height(s: Seq<MenuEntry>, id: usize)
    requires
        forest_has(s, id),
    ensures
        depth_of(s, id) < forest_height(s),
    decreases s,
{
    let t = s.subrange(1, s.len() as int);
    if group_has(s, id) {
        assert(forest_height(s) >= entry_height(s[0]));
    } else if entry_has(s[0], id) {
        assert(s[0].id != id);
        lemma_depth_lt_height(s[0].children@, id);
        assert(entry_height(s[0]) == 1 + forest_height(s[0].children@));
        assert(forest_height(s) >= entry_height(s[0]));
    } else {
        lemma_depth_lt_height(t, id);
        assert(forest_height(s) >= forest_height(t));
    }
}

/// The parent chain from `id`, walked with at most `fuel` steps of "parent
/// of": the number of steps to a top-level root, `None` if the fuel runs out
/// first (or the id is absent).
pub open spec fn steps_to_root(s: Seq<MenuEntry>, id: usize, fuel: nat) -> Option<nat>
    decreases fuel,
{
    if !forest_has(s, id) {
        None
    } else {
        match parent_of(s, id) {
            None => Some(0),
            Some(p) => if fuel == 0 {
                None
            } else {
                match steps_to_root(s, p, (fuel - 1) as nat) {
                    None => None,
                    Some(k) => Some(k + 1),
                }
            },
        }
    }
}

/// With distinct ids the parent chain from any node reaches a top-level
/// root in exactly `depth_of` steps: fuel covering the depth never runs out.
pub proof fn lemma_chain_reaches_root(s: Seq<MenuEntry>, id: usize, fuel: nat)
    requires
        ids_unique(s),
        forest_has(s, id),
        depth_of(s, id) <= fuel,
    ensures
        steps_to_root(s, id, fuel) == Some(depth_of(s, id)),
    decreases fuel,
{
    lemma_parent_depth(s, id);
    match parent_of(s, id) {
        None => {},
        Some(p) => {
            lemma_chain_reaches_root(s, p, (fuel - 1) as nat);
        },
    }
}

/// Acyclicity of a well-formed forest: from every node, repeatedly
/// following "parent of" terminates at a top-level root within the node's
/// depth, which is bounded by the forest's height. No entry is its own
/// ancestor: each step strictly decreases the depth.
pub proof fn lemma_acyclic(s: Seq<MenuEntry>, id: usize)
    requires
        forest_wf(s),
        forest_has(s, id),
    ensures
        depth_of(s, id) < forest_height(s),
        steps_to_root(s, id, forest_height(s)) == Some(depth_of(s, id)),
        parent_of(s, id) != Some(id),
{
    lemma_depth_lt_height(s, id);
    lemma_chain_reaches_root(s, id, forest_height(s));
    lemma_parent_depth(s, id);
}

} // verus!
