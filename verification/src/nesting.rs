//! The nesting rules: when an entry may be promoted under its preceding
//! sibling or demoted beside its former parent, and the concrete reparent
//! move either operation asks the remote store for. Also the ancestry check
//! that keeps a drag-initiated reparent from making an entry its own
//! descendant.

use vstd::prelude::*;
use crate::model::MenuEntry;
use crate::tree::entry_has;
use crate::tree::entry_of;
use crate::tree::entry_subtree_contains;
use crate::tree::entry_wf;
use crate::tree::find_entry;
use crate::tree::find_parent;
use crate::tree::forest_has;
use crate::tree::forest_wf;
use crate::tree::group_has;
use crate::tree::group_of;
use crate::tree::index_of_id;
use crate::tree::lemma_entry_of_wf;
use crate::tree::lemma_group_of_has;
use crate::tree::lemma_group_of_shape;
use crate::tree::lemma_parent_of_present;
use crate::tree::locate_group;
use crate::tree::parent_of;

verus! {

/// The index at which `id` first stands in the sibling group `g`.
pub open spec fn index_in_group(g: Seq<MenuEntry>, id: usize) -> int
    decreases g.len(),
{
    if g.len() == 0 {
        0
    } else if g[0].id == id {
        0
    } else {
        1 + index_in_group(g.subrange(1, g.len() as int), id)
    }
}

/// When `id` is a direct member, `index_in_group` is its first index.
pub proof fn lemma_index_in_group(g: Seq<MenuEntry>, id: usize)
    requires
        group_has(g, id),
    ensures
        0 <= index_in_group(g, id) < g.len(),
        g[index_in_group(g, id)].id == id,
        forall|j: int| 0 <= j < index_in_group(g, id) ==> g[j].id != id,
    decreases g.len(),
{
    if g[0].id == id {
    } else {
        let t = g.subrange(1, g.len() as int);
        assert(forall|j: int| 0 <= j < t.len() ==> t[j] == g[j + 1]);
        assert(group_has(t, id)) by {
            let i = choose|i: int| 0 <= i < g.len() && g[i].id == id;
            assert(t[i - 1] == g[i]);
        }
        lemma_index_in_group(t, id);
        assert forall|j: int| 0 <= j < index_in_group(g, id) implies g[j].id != id by {
            if j > 0 {
                assert(t[j - 1].id != id);
            }
        }
    }
}

/// An entry may be promoted when it is present and not first in its sibling
/// group: it then becomes the last child of its preceding sibling.
pub open spec fn can_promote(s: Seq<MenuEntry>, id: usize) -> bool {
    forest_has(s, id) && group_of(s, id)[0].id != id
}

/// The preceding sibling, which a promote makes the entry's new parent.
pub open spec fn promote_parent_of(s: Seq<MenuEntry>, id: usize) -> usize {
    group_of(s, id)[index_in_group(group_of(s, id), id) - 1].id
}

/// The position a promote asks for: one past the last of the new parent's
/// current children, or zero if it has none.
pub open spec fn position_after_children(e: MenuEntry) -> int {
    if e.children@.len() == 0 {
        0
    } else {
        e.children@[e.children@.len() - 1].position + 1
    }
}

/// The position a promote requests for the moved entry.
pub open spec fn promote_position_of(s: Seq<MenuEntry>, id: usize) -> int {
    position_after_children(group_of(s, id)[index_in_group(group_of(s, id), id) - 1])
}

/// An entry may be demoted when it has a parent and no children of its own:
/// it then becomes a sibling of its former parent, placed just after it.
pub open spec fn can_demote(s: Seq<MenuEntry>, id: usize) -> bool {
    forest_has(s, id) && parent_of(s, id) is Some && entry_of(s, id).children@.len() == 0
}

/// The parent a demote asks for: the moved entry's former grandparent, or
/// the root when the former parent was top-level.
pub open spec fn demote_parent_of(s: Seq<MenuEntry>, id: usize) -> Option<usize> {
    parent_of(s, parent_of(s, id)->Some_0)
}

/// The position a demote requests: one past the former parent's position.
pub open spec fn demote_position_of(s: Seq<MenuEntry>, id: usize) -> int {
    entry_of(s, parent_of(s, id)->Some_0).position + 1
}

/// A reparent of `src` under `new_parent` keeps the forest a forest: the new
/// parent is not `src` itself nor any node of `src`'s subtree. Reparenting
/// to the root is always sound.
pub open spec fn reparent_allowed(s: Seq<MenuEntry>, src: usize, new_parent: Option<
    usize,
>) -> bool {
    match new_parent {
        None => true,
        Some(p) => p != src && !(forest_has(s, src) && entry_has(entry_of(s, src), p)),
    }
}

/// The reparent move a promote of `id` submits: the new parent's id and the
/// requested position, or `None` when the entry may not be promoted.
pub fn promote_move(forest: &Vec<MenuEntry>, id: usize) -> (r: Option<(usize, usize)>)
    requires
        forest_wf(forest@),
    ensures
        (r is Some) == can_promote(forest@, id),
        match r {
            Some(t) => t.0 == promote_parent_of(forest@, id) && t.1 as int == promote_position_of(
                forest@,
                id,
            ),
            None => true,
        },
{
    let located = locate_group(forest, id);
    match located {
        None => None,
        Some(g) => {
            proof {
                lemma_group_of_has(forest@, id);
                lemma_group_of_shape(forest@, id);
                lemma_index_in_group(g@, id);
            }
            let idx = index_of_id(g, id);
            match idx {
                None => {
                    // not reachable: the located group lists `id`
                    proof {
                        assert(false);
                    }
                    None
                },
                Some(i) => {
                    proof {
                        let si = index_in_group(g@, id);
                        if i < si {
                            assert(g@[i as int].id == id);
                        }
                        if si < i {
                            assert(g@[si].id == id);
                        }
                        assert(i as int == si);
                    }
                    if i == 0 {
                        None
                    } else {
                        let prev = &g[i - 1];
                        proof {
                            assert(entry_wf(g@[i - 1]));
                        }
                        let m: usize = prev.children.len();
                        if m == 0 {
                            Some((prev.id, 0))
                        } else {
                            proof {
                                assert(entry_wf(prev.children@[m - 1]));
                            }
                            Some((prev.id, prev.children[m - 1].position + 1))
                        }
                    }
                },
            }
        },
    }
}

/// The reparent move a demote of `id` submits: the new parent (or the root)
/// and the requested position, or `None` when the entry may not be demoted.
pub fn demote_move(forest: &Vec<MenuEntry>, id: usize) -> (r: Option<(Option<usize>, usize)>)
    requires
        forest_wf(forest@),
    ensures
        (r is Some) == can_demote(forest@, id),
        match r {
            Some(t) => t.0 == demote_parent_of(forest@, id) && t.1 as int == demote_position_of(
                forest@,
                id,
            ),
            None => true,
        },
{
    let found = find_entry(forest, id);
    match found {
        None => None,
        Some(e) => {
            if e.children.len() > 0 {
                return None;
            }
            let parent = find_parent(forest, id);
            match parent {
                None => None,
                Some(p) => {
                    proof {
                        lemma_parent_of_present(forest@, id);
                        lemma_entry_of_wf(forest@, p);
                    }
                    let parent_entry = find_entry(forest, p);
                    match parent_entry {
                        None => {
                            // not reachable: a reported parent names a node
                            // of the forest
                            proof {
                                assert(false);
                            }
                            None
                        },
                        Some(pe) => {
                            let grandparent = find_parent(forest, p);
                            Some((grandparent, pe.position + 1))
                        },
                    }
                },
            }
        },
    }
}

/// Whether a reparent of `src` under `new_parent` is free of cycles: rejects
/// the move that would hang an entry below itself or below one of its own
/// descendants.
pub fn reparent_is_allowed(forest: &Vec<MenuEntry>, src: usize, new_parent: Option<usize>) -> (r:
    bool)
    ensures
        r == reparent_allowed(forest@, src, new_parent),
{
    match new_parent {
        None => true,
        Some(p) => {
            if p == src {
                return false;
            }
            let found = find_entry(forest, src);
            match found {
                None => true,
                Some(e) => !entry_subtree_contains(e, p),
            }
        },
    }
}

} // verus!
