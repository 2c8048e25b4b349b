//! Structural queries over the menu forest: membership, sibling groups,
//! parents, depth and height, and the well-formedness invariant that every
//! loaded tree satisfies.

use vstd::prelude::*;
use crate::model::MenuEntry;

verus! {

/// The ids of the subtree rooted at `e`, in preorder.
pub open spec fn id_seq_entry(e: MenuEntry) -> Seq<usize>
    decreases e,
{
    seq![e.id] + id_seq(e.children@)
}

/// The ids of every node of the forest `s`, in preorder.
pub open spec fn id_seq(s: Seq<MenuEntry>) -> Seq<usize>
    decreases s,
{
    if s.len() == 0 {
        Seq::empty()
    } else {
        id_seq_entry(s[0]) + id_seq(s.subrange(1, s.len() as int))
    }
}

/// No value occurs twice in `q`.
pub open spec fn no_dups(q: Seq<usize>) -> bool {
    forall|i: int, j: int| 0 <= i < j < q.len() ==> q[i] != q[j]
}

/// Every node of the forest carries a distinct id.
pub open spec fn ids_unique(s: Seq<MenuEntry>) -> bool {
    no_dups(id_seq(s))
}

/// `id` names a node of the subtree rooted at `e` (possibly `e` itself).
pub open spec fn entry_has(e: MenuEntry, id: usize) -> bool
    decreases e,
{
    e.id == id || forest_has(e.children@, id)
}

/// `id` names a node somewhere in the forest `s`.
pub open spec fn forest_has(s: Seq<MenuEntry>, id: usize) -> bool
    decreases s,
{
    s.len() != 0 && (entry_has(s[0], id) || forest_has(s.subrange(1, s.len() as int), id))
}

/// `id` names a direct member of the sibling group `s`.
pub open spec fn group_has(s: Seq<MenuEntry>, id: usize) -> bool {
    exists|i: int| 0 <= i < s.len() && s[i].id == id
}

/// Sibling positions are strictly ascending, hence unique, in group order.
pub open spec fn group_sorted(s: Seq<MenuEntry>) -> bool {
    forall|i: int, j: int| 0 <= i < j < s.len() ==> s[i].position < s[j].position
}

/// The subtree rooted at `e` is well formed: positions leave room for an
/// insertion after them (a machine limit: a drop computes `position + 1`),
/// and every sibling group is strictly sorted by position.
pub open spec fn entry_wf(e: MenuEntry) -> bool
    decreases e,
{
    &&& e.position < usize::MAX
    &&& group_sorted(e.children@)
    &&& forall|i: int| 0 <= i < e.children@.len() ==> entry_wf(#[trigger] e.children@[i])
}

/// The whole forest is well formed: every sibling group strictly sorted by
/// position, every position below the machine bound, and all ids distinct.
pub open spec fn forest_wf(s: Seq<MenuEntry>) -> bool {
    &&& group_sorted(s)
    &&& (forall|i: int| 0 <= i < s.len() ==> entry_wf(#[trigger] s[i]))
    &&& ids_unique(s)
}

/// The sibling group of which `id` is a direct member: `s` itself if `id` is
/// a direct member of `s`, else the group found inside the first subtree that
/// holds `id`. Empty if `id` is absent.
pub open spec fn group_of(s: Seq<MenuEntry>, id: usize) -> Seq<MenuEntry>
    decreases s,
{
    if s.len() == 0 {
        s
    } else if group_has(s, id) {
        s
    } else if entry_has(s[0], id) {
        group_of(s[0].children@, id)
    } else {
        group_of(s.subrange(1, s.len() as int), id)
    }
}

/// The id of the parent of the node named `id`, or `None` for a node of the
/// top-level group (and for an absent id). `cur` carries the id of the node
/// whose children the current group is.
pub open spec fn parent_in(s: Seq<MenuEntry>, id: usize, cur: Option<usize>) -> Option<usize>
    decreases s,
{
    if s.len() == 0 {
        None
    } else if group_has(s, id) {
        cur
    } else if entry_has(s[0], id) {
        parent_in(s[0].children@, id, Some(s[0].id))
    } else {
        parent_in(s.subrange(1, s.len() as int), id, cur)
    }
}

/// The id of the parent of the node named `id` in the forest `s`, or `None`
/// when the node sits in the top-level group.
pub open spec fn parent_of(s: Seq<MenuEntry>, id: usize) -> Option<usize> {
    parent_in(s, id, None)
}

/// The entry named `id`, when the forest holds one.
pub open spec fn entry_of(s: Seq<MenuEntry>, id: usize) -> MenuEntry
    decreases s,
{
    if s.len() == 0 {
        arbitrary()
    } else if s[0].id == id {
        s[0]
    } else if entry_has(s[0], id) {
        entry_of(s[0].children@, id)
    } else {
        entry_of(s.subrange(1, s.len() as int), id)
    }
}

/// How many levels below its top-level ancestor the node named `id` sits:
/// zero for a direct member of the top-level group.
pub open spec fn depth_of(s: Seq<MenuEntry>, id: usize) -> nat
    decreases s,
{
    if s.len() == 0 {
        0
    } else if group_has(s, id) {
        0
    } else if entry_has(s[0], id) {
        1 + depth_of(s[0].children@, id)
    } else {
        depth_of(s.subrange(1, s.len() as int), id)
    }
}

/// The height of the subtree rooted at `e`: one more than its tallest child.
pub open spec fn entry_height(e: MenuEntry) -> nat
    decreases e,
{
    1 + forest_height(e.children@)
}

/// The height of the forest: the height of its tallest tree, zero if empty.
pub open spec fn forest_height(s: Seq<MenuEntry>) -> nat
    decreases s,
{
    if s.len() == 0 {
        0
    } else if entry_height(s[0]) > forest_height(s.subrange(1, s.len() as int)) {
        entry_height(s[0])
    } else {
        forest_height(s.subrange(1, s.len() as int))
    }
}

/// `g` is a sibling group somewhere inside the subtree rooted at `e`.
pub open spec fn subgroup_of_entry(e: MenuEntry, g: Seq<MenuEntry>) -> bool
    decreases e,
{
    g == e.children@ || exists|i: int|
        0 <= i < e.children@.len() && subgroup_of_entry(#[trigger] e.children@[i], g)
}

/// `g` is one of the forest's sibling groups: the top-level group or the
/// children of some node.
pub open spec fn group_in_forest(s: Seq<MenuEntry>, g: Seq<MenuEntry>) -> bool {
    g == s || exists|i: int| 0 <= i < s.len() && subgroup_of_entry(#[trigger] s[i], g)
}

/// Every sibling group inside a well-shaped subtree is strictly sorted.
proof fn lemma_subgroup_sorted(e: MenuEntry, g: Seq<MenuEntry>)
    requires
        entry_wf(e),
        subgroup_of_entry(e, g),
    ensures
        group_sorted(g),
    decreases e,
{
    if g != e.children@ {
        let i = choose|i: int|
            0 <= i < e.children@.len() && subgroup_of_entry(#[trigger] e.children@[i], g);
        lemma_subgroup_sorted(e.children@[i], g);
    }
}

/// Position uniqueness: in a well-formed forest no two siblings of any
/// sibling group share a position. The designer only ever replaces its tree
/// by a freshly loaded well-formed one, so this holds of every tree it
/// renders, after every settled mutation.
pub proof fn lemma_position_uniqueness(s: Seq<MenuEntry>, g: Seq<MenuEntry>, i: int, j: int)
    requires
        forest_wf(s),
        group_in_forest(s, g),
        0 <= i < j < g.len(),
    ensures
        g[i].position != g[j].position,
{
    if g != s {
        let k = choose|k: int| 0 <= k < s.len() && subgroup_of_entry(#[trigger] s[k], g);
        lemma_subgroup_sorted(s[k], g);
    }
}

/// A forest holds `id` exactly when one of its trees does.
pub proof fn lemma_forest_has_iff(s: Seq<MenuEntry>, id: usize)
    ensures
        forest_has(s, id) <==> exists|k: int| 0 <= k < s.len() && entry_has(#[trigger] s[k], id),
    decreases s.len(),
{
    if s.len() != 0 {
        let t = s.subrange(1, s.len() as int);
        lemma_forest_has_iff(t, id);
        assert(forall|k: int| 0 <= k < t.len() ==> t[k] == s[k + 1]);
        if forest_has(s, id) && !entry_has(s[0], id) {
            let k = choose|k: int| 0 <= k < t.len() && entry_has(#[trigger] t[k], id);
            assert(entry_has(s[k + 1], id));
        }
        if exists|k: int| 0 <= k < s.len() && entry_has(#[trigger] s[k], id) {
            let k = choose|k: int| 0 <= k < s.len() && entry_has(#[trigger] s[k], id);
            if k > 0 {
                assert(entry_has(t[k - 1], id));
            }
        }
    }
}

/// Whether the subtree rooted at `e` holds a node named `id`.
pub fn entry_subtree_contains(e: &MenuEntry, id: usize) -> (r: bool)
    ensures
        r == entry_has(*e, id),
    decreases *e,
{
    if e.id == id {
        return true;
    }
    let n: usize = e.children.len();
    let mut k: usize = 0;
    while k < n
        invariant
            n == e.children@.len(),
            forall|j: int| 0 <= j < k ==> !entry_has(#[trigger] e.children@[j], id),
            e.id != id,
        decreases n - k,
    {
        if entry_subtree_contains(&e.children[k], id) {
            proof {
                lemma_forest_has_iff(e.children@, id);
            }
            return true;
        }
        k += 1;
    }
    proof {
        lemma_forest_has_iff(e.children@, id);
    }
    false
}

/// Whether the forest holds a node named `id`, at any depth.
pub fn forest_contains(forest: &Vec<MenuEntry>, id: usize) -> (r: bool)
    ensures
        r == forest_has(forest@, id),
{
    let n: usize = forest.len();
    let mut k: usize = 0;
    while k < n
        invariant
            n == forest@.len(),
            forall|j: int| 0 <= j < k ==> !entry_has(#[trigger] forest@[j], id),
        decreases n - k,
    {
        if entry_subtree_contains(&forest[k], id) {
            proof {
                lemma_forest_has_iff(forest@, id);
            }
            return true;
        }
        k += 1;
    }
    proof {
        lemma_forest_has_iff(forest@, id);
    }
    false
}

/// The index of the direct member of `group` named `id`: the first such
/// index, and with distinct ids the only one.
pub fn index_of_id(group: &Vec<MenuEntry>, id: usize) -> (r: Option<usize>)
    ensures
        match r {
            Some(i) => i < group@.len() && group@[i as int].id == id && (forall|j: int|
                0 <= j < i ==> group@[j].id != id),
            None => !group_has(group@, id),
        },
{
    let n: usize = group.len();
    let mut k: usize = 0;
    while k < n
        invariant
            n == group@.len(),
            forall|j: int| 0 <= j < k ==> group@[j].id != id,
        decreases n - k,
    {
        if group[k].id == id {
            return Some(k);
        }
        k += 1;
    }
    None
}

/// Whether the direct member of `group` named `id` stands first in it.
pub fn is_first_of(group: &Vec<MenuEntry>, id: usize) -> (r: bool)
    ensures
        r == (group@.len() > 0 && group@[0].id == id),
{
    group.len() > 0 && group[0].id == id
}

/// Whether the direct member of `group` named `id` stands last in it.
pub fn is_last_of(group: &Vec<MenuEntry>, id: usize) -> (r: bool)
    ensures
        r == (group@.len() > 0 && group@[group@.len() - 1].id == id),
{
    group.len() > 0 && group[group.len() - 1].id == id
}

/// The sibling immediately before the member named `id`, if the member is
/// present and not first.
pub fn previous_sibling<'a>(group: &'a Vec<MenuEntry>, id: usize) -> (r: Option<&'a MenuEntry>)
    ensures
        match r {
            Some(p) => exists|i: int|
                1 <= i < group@.len() && group@[i].id == id && *p == group@[i - 1],
            None => group@.len() == 0 || group@[0].id == id || !group_has(group@, id),
        },
{
    let idx = index_of_id(group, id);
    match idx {
        Some(i) => {
            if i == 0 {
                None
            } else {
                Some(&group[i - 1])
            }
        },
        None => None,
    }
}

/// In a strictly position-sorted sibling group the member at index zero has
/// the least position and the member at the last index the greatest: only
/// they report first respectively last.
pub proof fn lemma_first_last_of_group(s: Seq<MenuEntry>, i: int)
    requires
        group_sorted(s),
        0 <= i < s.len(),
    ensures
        i != 0 ==> s[0].position < s[i].position,
        i != s.len() - 1 ==> s[i].position < s[s.len() - 1].position,
{
}

/// Stepping `group_of` into the first subtree that holds `id`, when `id` is
/// no direct member of the group.
proof fn lemma_group_of_descend(s: Seq<MenuEntry>, id: usize, k: int)
    requires
        !group_has(s, id),
        0 <= k < s.len(),
        entry_has(s[k], id),
        forall|j: int| 0 <= j < k ==> !entry_has(#[trigger] s[j], id),
    ensures
        group_of(s, id) == group_of(s[k].children@, id),
    decreases s.len(),
{
    assert(s[k].id != id);
    if k == 0 {
    } else {
        let t = s.subrange(1, s.len() as int);
        assert(forall|j: int| 0 <= j < t.len() ==> t[j] == s[j + 1]);
        assert(!group_has(t, id)) by {
            if group_has(t, id) {
                let i = choose|i: int| 0 <= i < t.len() && t[i].id == id;
                assert(s[i + 1].id == id);
            }
        }
        lemma_group_of_descend(t, id, k - 1);
        assert(t[k - 1] == s[k]);
    }
}

/// Stepping `parent_in` the same way.
proof fn lemma_parent_in_descend(s: Seq<MenuEntry>, id: usize, cur: Option<usize>, k: int)
    requires
        !group_has(s, id),
        0 <= k < s.len(),
        entry_has(s[k], id),
        forall|j: int| 0 <= j < k ==> !entry_has(#[trigger] s[j], id),
    ensures
        parent_in(s, id, cur) == parent_in(s[k].children@, id, Some(s[k].id)),
    decreases s.len(),
{
    assert(s[k].id != id);
    if k == 0 {
    } else {
        let t = s.subrange(1, s.len() as int);
        assert(forall|j: int| 0 <= j < t.len() ==> t[j] == s[j + 1]);
        assert(!group_has(t, id)) by {
            if group_has(t, id) {
                let i = choose|i: int| 0 <= i < t.len() && t[i].id == id;
                assert(s[i + 1].id == id);
            }
        }
        lemma_parent_in_descend(t, id, cur, k - 1);
        assert(t[k - 1] == s[k]);
    }
}

/// Stepping `entry_of` to the first tree whose subtree holds `id`.
proof fn lemma_entry_of_descend(s: Seq<MenuEntry>, id: usize, k: int)
    requires
        0 <= k < s.len(),
        entry_has(s[k], id),
        forall|j: int| 0 <= j < k ==> !entry_has(#[trigger] s[j], id),
    ensures
        entry_of(s, id) == if s[k].id == id {
            s[k]
        } else {
            entry_of(s[k].children@, id)
        },
    decreases s.len(),
{
    if k == 0 {
    } else {
        let t = s.subrange(1, s.len() as int);
        assert(forall|j: int| 0 <= j < t.len() ==> t[j] == s[j + 1]);
        lemma_entry_of_descend(t, id, k - 1);
        assert(t[k - 1] == s[k]);
    }
}

/// The sibling group that `group_of` finds holds `id` as a direct member.
pub proof fn lemma_group_of_has(s: Seq<MenuEntry>, id: usize)
    requires
        forest_has(s, id),
    ensures
        group_has(group_of(s, id), id),
    decreases s,
{
    if !group_has(s, id) {
        let t = s.subrange(1, s.len() as int);
        if entry_has(s[0], id) {
            assert(s[0].id != id);
            lemma_group_of_has(s[0].children@, id);
        } else {
            lemma_group_of_has(t, id);
        }
    }
}

/// The sibling group that `group_of` finds in a well-shaped forest is itself
/// strictly sorted by position and holds well-shaped entries.
pub proof fn lemma_group_of_shape(s: Seq<MenuEntry>, id: usize)
    requires
        group_sorted(s),
        forall|i: int| 0 <= i < s.len() ==> entry_wf(#[trigger] s[i]),
        forest_has(s, id),
    ensures
        group_sorted(group_of(s, id)),
        forall|i: int| 0 <= i < group_of(s, id).len() ==> entry_wf(#[trigger] group_of(s, id)[i]),
    decreases s,
{
    if !group_has(s, id) {
        let t = s.subrange(1, s.len() as int);
        if entry_has(s[0], id) {
            assert(s[0].id != id);
            assert(entry_wf(s[0]));
            lemma_group_of_shape(s[0].children@, id);
        } else {
            assert(forall|j: int| 0 <= j < t.len() ==> t[j] == s[j + 1]);
            lemma_group_of_shape(t, id);
        }
    }
}

/// A parent id that `parent_in` reports either is the accumulator or names a
/// node of the forest.
proof fn lemma_parent_in_present(s: Seq<MenuEntry>, id: usize, cur: Option<usize>)
    ensures
        parent_in(s, id, cur) is Some ==> parent_in(s, id, cur) == cur || forest_has(
            s,
            parent_in(s, id, cur)->Some_0,
        ),
    decreases s,
{
    if s.len() != 0 {
        let t = s.subrange(1, s.len() as int);
        if group_has(s, id) {
        } else if entry_has(s[0], id) {
            lemma_parent_in_present(s[0].children@, id, Some(s[0].id));
            if parent_in(s, id, cur) is Some {
                let p = parent_in(s, id, cur)->Some_0;
                if parent_in(s[0].children@, id, Some(s[0].id)) == Some(s[0].id) {
                    assert(entry_has(s[0], p));
                } else {
                    assert(forest_has(s[0].children@, p));
                    assert(entry_has(s[0], p));
                }
            }
        } else {
            lemma_parent_in_present(t, id, cur);
            if parent_in(t, id, cur) is Some && parent_in(t, id, cur) != cur {
                let p = parent_in(t, id, cur)->Some_0;
                lemma_forest_has_iff(t, p);
                let k = choose|k: int| 0 <= k < t.len() && entry_has(#[trigger] t[k], p);
                assert(t[k] == s[k + 1]);
                lemma_forest_has_iff(s, p);
            }
        }
    }
}

/// The entry that `entry_of` finds in a well-shaped forest is well shaped.
pub proof fn lemma_entry_of_wf(s: Seq<MenuEntry>, id: usize)
    requires
        forall|i: int| 0 <= i < s.len() ==> entry_wf(#[trigger] s[i]),
        forest_has(s, id),
    ensures
        entry_wf(entry_of(s, id)),
    decreases s,
{
    if s[0].id == id {
    } else if entry_has(s[0], id) {
        assert(entry_wf(s[0]));
        lemma_entry_of_wf(s[0].children@, id);
    } else {
        let t = s.subrange(1, s.len() as int);
        assert(forall|j: int| 0 <= j < t.len() ==> t[j] == s[j + 1]);
        lemma_entry_of_wf(t, id);
    }
}

/// An absent id has no parent, whatever the accumulator.
proof fn lemma_parent_in_absent(s: Seq<MenuEntry>, id: usize, cur: Option<usize>)
    requires
        !forest_has(s, id),
    ensures
        parent_in(s, id, cur) is None,
    decreases s.len(),
{
    if s.len() != 0 {
        let t = s.subrange(1, s.len() as int);
        assert(!group_has(s, id)) by {
            if group_has(s, id) {
                let i = choose|i: int| 0 <= i < s.len() && s[i].id == id;
                assert(entry_has(s[i], id));
                lemma_forest_has_iff(s, id);
            }
        }
        lemma_parent_in_absent(t, id, cur);
    }
}

/// The parent that `parent_of` reports names a node of the forest.
pub proof fn lemma_parent_of_present(s: Seq<MenuEntry>, id: usize)
    ensures
        parent_of(s, id) is Some ==> forest_has(s, parent_of(s, id)->Some_0),
{
    lemma_parent_in_present(s, id, None);
}

/// The sibling group of which `id` is a direct member, or `None` when the
/// forest holds no node named `id`.
pub fn locate_group<'a>(forest: &'a Vec<MenuEntry>, id: usize) -> (r: Option<&'a Vec<MenuEntry>>)
    ensures
        match r {
            Some(g) => forest_has(forest@, id) && g@ == group_of(forest@, id),
            None => !forest_has(forest@, id),
        },
    decreases forest@,
{
    let n: usize = forest.len();
    let mut i: usize = 0;
    while i < n
        invariant
            n == forest@.len(),
            forall|j: int| 0 <= j < i ==> forest@[j].id != id,
        decreases n - i,
    {
        if forest[i].id == id {
            proof {
                lemma_forest_has_iff(forest@, id);
            }
            return Some(forest);
        }
        i += 1;
    }
    assert(!group_has(forest@, id));
    let mut k: usize = 0;
    while k < n
        invariant
            n == forest@.len(),
            !group_has(forest@, id),
            forall|j: int| 0 <= j < k ==> !entry_has(#[trigger] forest@[j], id),
        decreases n - k,
    {
        if entry_subtree_contains(&forest[k], id) {
            proof {
                lemma_forest_has_iff(forest@, id);
                lemma_group_of_descend(forest@, id, k as int);
            }
            let r = locate_group(&forest[k].children, id);
            proof {
                assert(forest@[k as int].id != id);
                assert(forest_has(forest@[k as int].children@, id));
            }
            return r;
        }
        k += 1;
    }
    proof {
        lemma_forest_has_iff(forest@, id);
    }
    None
}

/// The id of the parent of the node named `id`, `None` when that node sits in
/// the top-level group or is absent; `cur` is the id of the node whose
/// children `forest` is, `None` at the root.
fn find_parent_in(forest: &Vec<MenuEntry>, id: usize, cur: Option<usize>) -> (r: Option<usize>)
    ensures
        r == parent_in(forest@, id, cur),
    decreases forest@,
{
    let n: usize = forest.len();
    let mut i: usize = 0;
    while i < n
        invariant
            n == forest@.len(),
            forall|j: int| 0 <= j < i ==> forest@[j].id != id,
        decreases n - i,
    {
        if forest[i].id == id {
            proof {
                assert(group_has(forest@, id));
            }
            return cur;
        }
        i += 1;
    }
    assert(!group_has(forest@, id));
    let mut k: usize = 0;
    while k < n
        invariant
            n == forest@.len(),
            !group_has(forest@, id),
            forall|j: int| 0 <= j < k ==> !entry_has(#[trigger] forest@[j], id),
        decreases n - k,
    {
        if entry_subtree_contains(&forest[k], id) {
            proof {
                lemma_parent_in_descend(forest@, id, cur, k as int);
            }
            let below = find_parent_in(&forest[k].children, id, Some(forest[k].id));
            return below;
        }
        k += 1;
    }
    proof {
        lemma_forest_has_iff(forest@, id);
        lemma_parent_in_absent(forest@, id, cur);
    }
    None
}

/// The id of the parent of the node named `id`, or `None` when the node sits
/// in the top-level group or the forest holds no such node.
pub fn find_parent(forest: &Vec<MenuEntry>, id: usize) -> (r: Option<usize>)
    ensures
        r == parent_of(forest@, id),
{
    find_parent_in(forest, id, None)
}

/// The entry named `id`, or `None` when the forest holds no such node.
pub fn find_entry<'a>(forest: &'a Vec<MenuEntry>, id: usize) -> (r: Option<&'a MenuEntry>)
    ensures
        match r {
            Some(e) => forest_has(forest@, id) && *e == entry_of(forest@, id),
            None => !forest_has(forest@, id),
        },
    decreases forest@,
{
    let n: usize = forest.len();
    let mut k: usize = 0;
    while k < n
        invariant
            n == forest@.len(),
            forall|j: int| 0 <= j < k ==> !entry_has(#[trigger] forest@[j], id),
        decreases n - k,
    {
        if forest[k].id == id {
            proof {
                lemma_entry_of_descend(forest@, id, k as int);
                lemma_forest_has_iff(forest@, id);
            }
            return Some(&forest[k]);
        }
        if entry_subtree_contains(&forest[k], id) {
            proof {
                lemma_entry_of_descend(forest@, id, k as int);
                lemma_forest_has_iff(forest@, id);
            }
            let r = find_entry(&forest[k].children, id);
            return r;
        }
        k += 1;
    }
    proof {
        lemma_forest_has_iff(forest@, id);
    }
    None
}

/// Preorder ids distribute over concatenation of forests.
pub proof fn lemma_id_seq_concat(a: Seq<MenuEntry>, b: Seq<MenuEntry>)
    ensures
        id_seq(a + b) == id_seq(a) + id_seq(b),
    decreases a.len(),
{
    if a.len() == 0 {
        assert(a + b =~= b);
        assert(id_seq(a) + id_seq(b) =~= id_seq(b));
    } else {
        let t = a.subrange(1, a.len() as int);
        assert((a + b).subrange(1, (a + b).len() as int) =~= t + b);
        assert((a + b)[0] == a[0]);
        lemma_id_seq_concat(t, b);
        assert(id_seq_entry(a[0]) + (id_seq(t) + id_seq(b)) =~= (id_seq_entry(a[0]) + id_seq(t))
            + id_seq(b));
    }
}

/// The preorder ids of a single tree.
proof fn lemma_id_seq_single(e: MenuEntry)
    ensures
        id_seq(seq![e]) == id_seq_entry(e),
{
    let s = seq![e];
    assert(s.len() == 1 && s[0] == e);
    assert(s.subrange(1, 1) =~= Seq::<MenuEntry>::empty());
    assert(id_seq(Seq::<MenuEntry>::empty()) == Seq::<usize>::empty());
    assert(id_seq_entry(s[0]) + Seq::<usize>::empty() =~= id_seq_entry(e));
}

/// Whether the group's positions are strictly ascending.
fn check_group_sorted(v: &Vec<MenuEntry>) -> (r: bool)
    ensures
        r == group_sorted(v@),
{
    let n: usize = v.len();
    if n == 0 {
        return true;
    }
    let mut k: usize = 1;
    while k < n
        invariant
            1 <= k <= n,
            n == v@.len(),
            forall|a: int, b: int| 0 <= a < b < k ==> v@[a].position < v@[b].position,
        decreases n - k,
    {
        if v[k - 1].position >= v[k].position {
            return false;
        }
        assert forall|a: int, b: int| 0 <= a < b < k + 1 implies v@[a].position < v@[b].position by {
            if b == k && a < k - 1 {
                assert(v@[a].position < v@[k - 1].position);
            }
        }
        k += 1;
    }
    true
}

/// Whether the subtree rooted at `e` is well shaped: positions below the
/// machine bound and every sibling group strictly sorted.
fn entry_is_shape_wf(e: &MenuEntry) -> (r: bool)
    ensures
        r == entry_wf(*e),
    decreases *e,
{
    if e.position == usize::MAX {
        return false;
    }
    if !check_group_sorted(&e.children) {
        return false;
    }
    let n: usize = e.children.len();
    let mut k: usize = 0;
    while k < n
        invariant
            n == e.children@.len(),
            forall|j: int| 0 <= j < k ==> entry_wf(#[trigger] e.children@[j]),
        decreases n - k,
    {
        if !entry_is_shape_wf(&e.children[k]) {
            return false;
        }
        k += 1;
    }
    true
}

/// Appends the preorder ids of the subtree rooted at `e`.
fn push_ids_entry(e: &MenuEntry, out: &mut Vec<usize>)
    ensures
        final(out)@ == old(out)@ + id_seq_entry(*e),
    decreases *e,
{
    let ghost base = out@;
    out.push(e.id);
    proof {
        assert(e.children@.subrange(0, 0) =~= Seq::<MenuEntry>::empty());
        assert(id_seq(Seq::<MenuEntry>::empty()) == Seq::<usize>::empty());
        assert(out@ =~= base + seq![e.id] + id_seq(e.children@.subrange(0, 0)));
    }
    let n: usize = e.children.len();
    let mut k: usize = 0;
    while k < n
        invariant
            k <= n,
            n == e.children@.len(),
            out@ == base + seq![e.id] + id_seq(e.children@.subrange(0, k as int)),
        decreases n - k,
    {
        let ghost pre = e.children@.subrange(0, k as int);
        push_ids_entry(&e.children[k], out);
        proof {
            let stepped = e.children@.subrange(0, k + 1int);
            assert(stepped =~= pre + seq![e.children@[k as int]]);
            lemma_id_seq_concat(pre, seq![e.children@[k as int]]);
            lemma_id_seq_single(e.children@[k as int]);
            assert(base + seq![e.id] + (id_seq(pre) + id_seq_entry(e.children@[k as int])) =~= base
                + seq![e.id] + id_seq(pre) + id_seq_entry(e.children@[k as int]));
        }
        k += 1;
    }
    proof {
        assert(e.children@.subrange(0, n as int) =~= e.children@);
        assert(base + seq![e.id] + id_seq(e.children@) =~= base + (seq![e.id] + id_seq(
            e.children@,
        )));
    }
}

/// Appends the preorder ids of the whole forest.
fn push_ids(forest: &Vec<MenuEntry>, out: &mut Vec<usize>)
    ensures
        final(out)@ == old(out)@ + id_seq(forest@),
{
    let ghost base = out@;
    proof {
        assert(forest@.subrange(0, 0) =~= Seq::<MenuEntry>::empty());
        assert(id_seq(Seq::<MenuEntry>::empty()) == Seq::<usize>::empty());
        assert(out@ =~= base + id_seq(forest@.subrange(0, 0)));
    }
    let n: usize = forest.len();
    let mut k: usize = 0;
    while k < n
        invariant
            k <= n,
            n == forest@.len(),
            out@ == base + id_seq(forest@.subrange(0, k as int)),
        decreases n - k,
    {
        let ghost pre = forest@.subrange(0, k as int);
        proof {
            assert(base + id_seq(pre) =~= out@);
        }
        push_ids_entry(&forest[k], out);
        proof {
            let stepped = forest@.subrange(0, k + 1int);
            assert(stepped =~= pre + seq![forest@[k as int]]);
            lemma_id_seq_concat(pre, seq![forest@[k as int]]);
            lemma_id_seq_single(forest@[k as int]);
            assert(base + (id_seq(pre) + id_seq_entry(forest@[k as int])) =~= base + id_seq(pre)
                + id_seq_entry(forest@[k as int]));
        }
        k += 1;
    }
    proof {
        assert(forest@.subrange(0, n as int) =~= forest@);
        assert(base + id_seq(forest@) == out@);
    }
}

/// Whether some id occurs twice in `v`.
fn ids_have_dup(v: &Vec<usize>) -> (r: bool)
    ensures
        r == !no_dups(v@),
{
    let n: usize = v.len();
    let mut i: usize = 0;
    while i < n
        invariant
            n == v@.len(),
            forall|a: int, b: int| 0 <= a < b < n && a < i ==> v@[a] != v@[b],
        decreases n - i,
    {
        let mut j: usize = i + 1;
        while j < n
            invariant
                i < n,
                i < j,
                n == v@.len(),
                forall|b: int| i < b < j ==> v@[i as int] != v@[b],
            decreases n - j,
        {
            if v[i] == v[j] {
                proof {
                    assert(!no_dups(v@)) by {
                        if no_dups(v@) {
                            assert(v@[i as int] != v@[j as int]);
                        }
                    }
                }
                return true;
            }
            j += 1;
        }
        i += 1;
    }
    false
}

/// Whether the forest satisfies the full well-formedness invariant: every
/// sibling group strictly sorted by position, every position below the
/// machine bound, and no id repeated anywhere. A host checks a freshly
/// received tree with this before handing it to the designer.
pub fn forest_is_wf(forest: &Vec<MenuEntry>) -> (r: bool)
    ensures
        r == forest_wf(forest@),
{
    if !check_group_sorted(forest) {
        return false;
    }
    let n: usize = forest.len();
    let mut k: usize = 0;
    while k < n
        invariant
            n == forest@.len(),
            forall|j: int| 0 <= j < k ==> entry_wf(#[trigger] forest@[j]),
        decreases n - k,
    {
        if !entry_is_shape_wf(&forest[k]) {
            return false;
        }
        k += 1;
    }
    let mut ids: Vec<usize> = Vec::new();
    push_ids(forest, &mut ids);
    let dup = ids_have_dup(&ids);
    !dup
}

} // verus!
