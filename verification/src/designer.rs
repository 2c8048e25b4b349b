//! The menu designer: the editor's state and its transition function. Every
//! gesture, dialog event and request completion is an `Event`; the designer
//! updates its state and returns the `Action`s the host must perform — start
//! a remote request, or surface an error. The host performs each action and
//! later hands the completion back as another event, carrying the request's
//! token; a completion whose token is no longer live changes nothing.

use vstd::prelude::*;
use crate::flight::Category;
use crate::flight::Flights;
use crate::flight::bump;
use crate::flight::gen_of;
use crate::model::DialogKind;
use crate::model::EntryPayload;
use crate::model::MenuEntry;
use crate::model::dialog_kind_for;
use crate::model::dialog_kind_of;
use crate::nesting::can_demote;
use crate::nesting::can_promote;
use crate::nesting::demote_move;
use crate::nesting::demote_parent_of;
use crate::nesting::demote_position_of;
use crate::nesting::promote_move;
use crate::nesting::promote_parent_of;
use crate::nesting::promote_position_of;
use crate::nesting::reparent_allowed;
use crate::nesting::reparent_is_allowed;
use crate::tree::entry_of;
use crate::tree::find_entry;
use crate::tree::forest_has;
use crate::tree::forest_wf;

verus! {

/// The entry a drop zone hangs below: the zone inserts just after it.
#[derive(Clone, Copy, Debug, PartialEq, Eq, Structural)]
pub struct Anchor {
    pub entry_id: usize,
    pub position: usize,
}

/// One insertion point of the rendered tree: the sibling group it belongs to
/// (`parent_id`, `None` for the root group) and the entry it sits below
/// (`anchor`, `None` for the top-of-group zone).
#[derive(Clone, Copy, Debug, PartialEq, Eq, Structural)]
pub struct DropZone {
    pub parent_id: Option<usize>,
    pub anchor: Option<Anchor>,
}

/// What is being dragged: an existing entry, or a template tile for a new
/// entry of the given kind.
#[derive(Clone, Copy, Debug, PartialEq, Eq, Structural)]
pub enum DragSource {
    ExistingEntry(usize),
    NewEntry(DialogKind),
}

/// The load sub-flow's state.
#[derive(Clone, Copy, Debug, PartialEq, Eq, Structural)]
pub enum LoadState {
    NotLoaded,
    Loading,
    Loaded,
    LoadFailed,
}

/// The entry an open settings dialog edits, and the dialog form shown.
#[derive(Clone, Copy, Debug, PartialEq, Eq, Structural)]
pub struct PendingEdit {
    pub entry_id: usize,
    pub kind: DialogKind,
}

/// The failures the host is asked to surface to the user.
#[derive(Clone, Copy, Debug, PartialEq, Eq, Structural)]
pub enum ErrorKind {
    LoadFailed,
    DeleteFailed,
    SaveFailed,
}

/// Everything that can happen to the designer: lifecycle, request
/// completions (each carrying its request's token), dialog events and drag
/// gestures.
pub enum Event {
    Mounted,
    MenuChanged(usize),
    LoadCompleted(u64, Option<Vec<MenuEntry>>),
    PromoteClicked(usize),
    DemoteClicked(usize),
    ReparentCompleted(u64, bool),
    DeleteClicked(usize),
    DeleteApproved,
    DeleteDeclined,
    DeleteCompleted(u64, bool),
    EditClicked(usize),
    EditSaved(EntryPayload),
    EditDiscarded,
    UpdateCompleted(u64, bool),
    AddSaved(EntryPayload),
    AddDiscarded,
    CreateCompleted(u64, bool),
    TemplateDragStarted(DialogKind),
    EntryDragStarted(usize),
    ZoneHovered(DropZone),
    Dropped,
    DragCancelled,
}

/// What the designer asks the host to do. Every `Start...` action carries
/// the token the host must hand back with the completion event.
pub enum Action {
    SetChromeTitle,
    HideChromeSearch,
    StartLoad { token: u64, menu_id: usize },
    StartDelete { token: u64, entry_id: usize },
    StartUpdate { token: u64, entry_id: usize, payload: EntryPayload },
    StartCreate {
        token: u64,
        menu_id: usize,
        parent_id: Option<usize>,
        position: usize,
        payload: EntryPayload,
    },
    StartReparent { token: u64, entry_id: usize, new_parent_id: Option<usize>, position: usize },
    NotifyError(ErrorKind),
}

/// The position a drop on this zone resolves to: one past the anchor, or
/// zero for a top-of-group zone.
pub open spec fn zone_position(z: DropZone) -> int {
    match z.anchor {
        Some(a) => a.position + 1,
        None => 0,
    }
}

/// An anchored zone leaves room for the position after it (machine limit).
pub open spec fn zone_wf(z: DropZone) -> bool {
    match z.anchor {
        Some(a) => a.position < usize::MAX,
        None => true,
    }
}

/// Resolves the position a drop on `z` targets: `anchor.position + 1` below
/// an anchor entry, `0` at the top of a group.
pub fn resolve_drop_position(z: &DropZone) -> (p: usize)
    requires
        zone_wf(*z),
    ensures
        p as int == zone_position(*z),
{
    match z.anchor {
        Some(a) => a.position + 1,
        None => 0,
    }
}

/// The editor's whole state: the authoritative tree as last loaded, the
/// transient dialog and drag state, and the live request generations.
pub struct MenuDesigner {
    pub menu_id: usize,
    pub entries: Vec<MenuEntry>,
    pub load_state: LoadState,
    pub pending_delete: Option<usize>,
    pub pending_edit: Option<PendingEdit>,
    pub pending_add: Option<DialogKind>,
    pub drag_source: Option<DragSource>,
    pub hover: Option<DropZone>,
    pub flights: Flights,
}

/// `d` with a tree reload begun: the load generation stepped and the load
/// sub-flow marked in flight.
pub open spec fn with_load_begun(d: MenuDesigner) -> MenuDesigner {
    MenuDesigner { load_state: LoadState::Loading, flights: bump(d.flights, Category::Load), ..d }
}

/// The load request that `with_load_begun` owes the host, spoken of the
/// post-state (its load generation is the request's token).
pub open spec fn load_action(d: MenuDesigner) -> Action {
    Action::StartLoad { token: gen_of(d.flights, Category::Load), menu_id: d.menu_id }
}

/// `d` with every transient dialog and drag reference cleared, as when a
/// save (update or create) settles.
pub open spec fn cleared_after_save(d: MenuDesigner) -> MenuDesigner {
    MenuDesigner { pending_edit: None, pending_add: None, drag_source: None, hover: None, ..d }
}

/// The placement a saved add dialog targets: the hovered zone's group and
/// resolved position; the root group at position zero if no zone was hovered.
pub open spec fn add_parent_of(d: MenuDesigner) -> Option<usize> {
    match d.hover {
        Some(z) => z.parent_id,
        None => None,
    }
}

/// The position a saved add dialog targets.
pub open spec fn add_position_of(d: MenuDesigner) -> int {
    match d.hover {
        Some(z) => zone_position(z),
        None => 0,
    }
}

impl MenuDesigner {
    /// The state invariant: the loaded tree is well formed and a hovered
    /// zone leaves room for its resolved position.
    pub open spec fn wf(self) -> bool {
        &&& forest_wf(self.entries@)
        &&& match self.hover {
            Some(z) => zone_wf(z),
            None => true,
        }
    }
}

/// Which events the designer accepts in a given state. Completions whose
/// dialog has to be open (a save needs its dialog) demand it; a load may
/// only hand over a well-formed tree; a hovered zone must leave room for
/// the position after its anchor (machine limit).
pub open spec fn event_allowed(pre: MenuDesigner, ev: Event) -> bool {
    match ev {
        Event::LoadCompleted(_, outcome) => match outcome {
            Some(entries) => forest_wf(entries@),
            None => true,
        },
        Event::DeleteApproved => pre.pending_delete is Some,
        Event::EditSaved(_) => pre.pending_edit is Some,
        Event::AddSaved(_) => pre.pending_add is Some,
        Event::ZoneHovered(z) => zone_wf(z),
        _ => true,
    }
}

/// The transition relation of the designer: what one event does to the
/// state, and which actions it owes the host. `update` is proved to satisfy
/// it; every arm pins the post-state and the actions exactly.
pub open spec fn step(pre: MenuDesigner, ev: Event, post: MenuDesigner, acts: Seq<Action>) -> bool {
    match ev {
        Event::Mounted => {
            &&& post == with_load_begun(pre)
            &&& acts == seq![Action::SetChromeTitle, Action::HideChromeSearch, load_action(post)]
        },
        Event::MenuChanged(mid) => {
            &&& post == (MenuDesigner { menu_id: mid, ..pre })
            &&& acts == Seq::<Action>::empty()
        },
        Event::LoadCompleted(token, outcome) => {
            if token != pre.flights.load {
                post == pre && acts == Seq::<Action>::empty()
            } else {
                match outcome {
                    Some(entries) => {
                        &&& post == (MenuDesigner {
                            entries,
                            load_state: LoadState::Loaded,
                            ..pre
                        })
                        &&& acts == Seq::<Action>::empty()
                    },
                    None => {
                        &&& post == (MenuDesigner { load_state: LoadState::LoadFailed, ..pre })
                        &&& acts == seq![Action::NotifyError(ErrorKind::LoadFailed)]
                    },
                }
            }
        },
        Event::PromoteClicked(id) => {
            if can_promote(pre.entries@, id) {
                &&& post == (MenuDesigner { flights: bump(pre.flights, Category::Reparent), ..pre })
                &&& acts == seq![
                    Action::StartReparent {
                        token: gen_of(post.flights, Category::Reparent),
                        entry_id: id,
                        new_parent_id: Some(promote_parent_of(pre.entries@, id)),
                        position: promote_position_of(pre.entries@, id) as usize,
                    },
                ]
            } else {
                post == pre && acts == Seq::<Action>::empty()
            }
        },
        Event::DemoteClicked(id) => {
            if can_demote(pre.entries@, id) {
                &&& post == (MenuDesigner { flights: bump(pre.flights, Category::Reparent), ..pre })
                &&& acts == seq![
                    Action::StartReparent {
                        token: gen_of(post.flights, Category::Reparent),
                        entry_id: id,
                        new_parent_id: demote_parent_of(pre.entries@, id),
                        position: demote_position_of(pre.entries@, id) as usize,
                    },
                ]
            } else {
                post == pre && acts == Seq::<Action>::empty()
            }
        },
        Event::ReparentCompleted(token, _ok) => {
            if token != pre.flights.reparent {
                post == pre && acts == Seq::<Action>::empty()
            } else {
                &&& post == with_load_begun(
                    MenuDesigner { drag_source: None, hover: None, ..pre },
                )
                &&& acts == seq![load_action(post)]
            }
        },
        Event::DeleteClicked(id) => {
            &&& post == (MenuDesigner { pending_delete: Some(id), ..pre })
            &&& acts == Seq::<Action>::empty()
        },
        Event::DeleteApproved => {
            &&& post == (MenuDesigner { flights: bump(pre.flights, Category::Delete), ..pre })
            &&& acts == seq![
                Action::StartDelete {
                    token: gen_of(post.flights, Category::Delete),
                    entry_id: pre.pending_delete->Some_0,
                },
            ]
        },
        Event::DeleteDeclined => {
            &&& post == (MenuDesigner { pending_delete: None, ..pre })
            &&& acts == Seq::<Action>::empty()
        },
        Event::DeleteCompleted(token, ok) => {
            if token != pre.flights.delete {
                post == pre && acts == Seq::<Action>::empty()
            } else if ok {
                &&& post == with_load_begun(MenuDesigner { pending_delete: None, ..pre })
                &&& acts == seq![load_action(post)]
            } else {
                &&& post == (MenuDesigner { pending_delete: None, ..pre })
                &&& acts == seq![Action::NotifyError(ErrorKind::DeleteFailed)]
            }
        },
        Event::EditClicked(id) => {
            if forest_has(pre.entries@, id) {
                &&& post == (MenuDesigner {
                    pending_edit: Some(
                        PendingEdit {
                            entry_id: id,
                            kind: dialog_kind_of(entry_of(pre.entries@, id).content),
                        },
                    ),
                    ..pre
                })
                &&& acts == Seq::<Action>::empty()
            } else {
                post == pre && acts == Seq::<Action>::empty()
            }
        },
        Event::EditSaved(payload) => {
            &&& post == (MenuDesigner { flights: bump(pre.flights, Category::Update), ..pre })
            &&& acts == seq![
                Action::StartUpdate {
                    token: gen_of(post.flights, Category::Update),
                    entry_id: pre.pending_edit->Some_0.entry_id,
                    payload,
                },
            ]
        },
        Event::EditDiscarded => {
            &&& post == (MenuDesigner { pending_edit: None, ..pre })
            &&& acts == Seq::<Action>::empty()
        },
        Event::UpdateCompleted(token, ok) => {
            if token != pre.flights.update {
                post == pre && acts == Seq::<Action>::empty()
            } else if ok {
                &&& post == with_load_begun(cleared_after_save(pre))
                &&& acts == seq![load_action(post)]
            } else {
                &&& post == cleared_after_save(pre)
                &&& acts == seq![Action::NotifyError(ErrorKind::SaveFailed)]
            }
        },
        Event::AddSaved(payload) => {
            &&& post == (MenuDesigner { flights: bump(pre.flights, Category::Create), ..pre })
            &&& acts == seq![
                Action::StartCreate {
                    token: gen_of(post.flights, Category::Create),
                    menu_id: pre.menu_id,
                    parent_id: add_parent_of(pre),
                    position: add_position_of(pre) as usize,
                    payload,
                },
            ]
        },
        Event::AddDiscarded => {
            &&& post == (MenuDesigner {
                pending_add: None,
                drag_source: None,
                hover: None,
                ..pre
            })
            &&& acts == Seq::<Action>::empty()
        },
        Event::CreateCompleted(token, ok) => {
            if token != pre.flights.create {
                post == pre && acts == Seq::<Action>::empty()
            } else if ok {
                &&& post == with_load_begun(cleared_after_save(pre))
                &&& acts == seq![load_action(post)]
            } else {
                &&& post == cleared_after_save(pre)
                &&& acts == seq![Action::NotifyError(ErrorKind::SaveFailed)]
            }
        },
        Event::TemplateDragStarted(kind) => {
            &&& post == (MenuDesigner { drag_source: Some(DragSource::NewEntry(kind)), ..pre })
            &&& acts == Seq::<Action>::empty()
        },
        Event::EntryDragStarted(id) => {
            &&& post == (MenuDesigner {
                drag_source: Some(DragSource::ExistingEntry(id)),
                ..pre
            })
            &&& acts == Seq::<Action>::empty()
        },
        Event::ZoneHovered(z) => {
            &&& post == (MenuDesigner { hover: Some(z), ..pre })
            &&& acts == Seq::<Action>::empty()
        },
        Event::Dropped => {
            match pre.hover {
                None => {
                    &&& post == (MenuDesigner { drag_source: None, ..pre })
                    &&& acts == Seq::<Action>::empty()
                },
                Some(z) => {
                    match pre.drag_source {
                        None => {
                            &&& post == (MenuDesigner { hover: None, ..pre })
                            &&& acts == Seq::<Action>::empty()
                        },
                        Some(DragSource::NewEntry(kind)) => {
                            &&& post == (MenuDesigner { pending_add: Some(kind), ..pre })
                            &&& acts == Seq::<Action>::empty()
                        },
                        Some(DragSource::ExistingEntry(src)) => {
                            if reparent_allowed(pre.entries@, src, z.parent_id) {
                                &&& post == (MenuDesigner {
                                    flights: bump(pre.flights, Category::Reparent),
                                    ..pre
                                })
                                &&& acts == seq![
                                    Action::StartReparent {
                                        token: gen_of(post.flights, Category::Reparent),
                                        entry_id: src,
                                        new_parent_id: z.parent_id,
                                        position: zone_position(z) as usize,
                                    },
                                ]
                            } else {
                                &&& post == (MenuDesigner {
                                    drag_source: None,
                                    hover: None,
                                    ..pre
                                })
                                &&& acts == Seq::<Action>::empty()
                            }
                        },
                    }
                },
            }
        },
        Event::DragCancelled => {
            &&& post == (MenuDesigner { drag_source: None, hover: None, ..pre })
            &&& acts == Seq::<Action>::empty()
        },
    }
}

impl MenuDesigner {
    /// A fresh designer for the given menu: empty tree, nothing pending, no
    /// request begun.
    pub fn new(menu_id: usize) -> (d: MenuDesigner)
        ensures
            d.wf(),
            d.menu_id == menu_id,
            d.entries@.len() == 0,
            d.load_state == LoadState::NotLoaded,
            d.pending_delete is None,
            d.pending_edit is None,
            d.pending_add is None,
            d.drag_source is None,
            d.hover is None,
            d.flights == (Flights { load: 0, create: 0, update: 0, delete: 0, reparent: 0 }),
    {
        MenuDesigner {
            menu_id,
            entries: Vec::new(),
            load_state: LoadState::NotLoaded,
            pending_delete: None,
            pending_edit: None,
            pending_add: None,
            drag_source: None,
            hover: None,
            flights: Flights::new(),
        }
    }

    /// Applies one event: moves to the post-state that `step` prescribes and
    /// returns exactly the actions it owes the host.
    pub fn update(&mut self, ev: Event) -> (acts: Vec<Action>)
        requires
            old(self).wf(),
            event_allowed(*old(self), ev),
        ensures
            final(self).wf(),
            step(*old(self), ev, *final(self), acts@),
    {
        let mut acts: Vec<Action> = Vec::new();
        match ev {
            Event::Mounted => {
                self.load_state = LoadState::Loading;
                let token = self.flights.begin(Category::Load);
                acts.push(Action::SetChromeTitle);
                acts.push(Action::HideChromeSearch);
                acts.push(Action::StartLoad { token, menu_id: self.menu_id });
                proof {
                    assert(acts@ == seq![
                        Action::SetChromeTitle,
                        Action::HideChromeSearch,
                        load_action(*self),
                    ]);
                }
            },
            Event::MenuChanged(mid) => {
                self.menu_id = mid;
                proof {
                    assert(acts@ == Seq::<Action>::empty());
                }
            },
            Event::LoadCompleted(token, outcome) => {
                if self.flights.is_live(Category::Load, token) {
                    match outcome {
                        Some(entries) => {
                            self.entries = entries;
                            self.load_state = LoadState::Loaded;
                        },
                        None => {
                            self.load_state = LoadState::LoadFailed;
                            acts.push(Action::NotifyError(ErrorKind::LoadFailed));
                            proof {
                                assert(acts@ == seq![Action::NotifyError(ErrorKind::LoadFailed)]);
                            }
                        },
                    }
                }
            },
            Event::PromoteClicked(id) => {
                let mv = promote_move(&self.entries, id);
                match mv {
                    Some(target) => {
                        let token = self.flights.begin(Category::Reparent);
                        acts.push(
                            Action::StartReparent {
                                token,
                                entry_id: id,
                                new_parent_id: Some(target.0),
                                position: target.1,
                            },
                        );
                        proof {
                            assert(acts@ == seq![
                                Action::StartReparent {
                                    token,
                                    entry_id: id,
                                    new_parent_id: Some(target.0),
                                    position: target.1,
                                },
                            ]);
                        }
                    },
                    None => {},
                }
            },
            Event::DemoteClicked(id) => {
                let mv = demote_move(&self.entries, id);
                match mv {
                    Some(target) => {
                        let token = self.flights.begin(Category::Reparent);
                        acts.push(
                            Action::StartReparent {
                                token,
                                entry_id: id,
                                new_parent_id: target.0,
                                position: target.1,
                            },
                        );
                        proof {
                            assert(acts@ == seq![
                                Action::StartReparent {
                                    token,
                                    entry_id: id,
                                    new_parent_id: target.0,
                                    position: target.1,
                                },
                            ]);
                        }
                    },
                    None => {},
                }
            },
            Event::ReparentCompleted(token, _ok) => {
                if self.flights.is_live(Category::Reparent, token) {
                    self.drag_source = None;
                    self.hover = None;
                    self.load_state = LoadState::Loading;
                    let load_token = self.flights.begin(Category::Load);
                    acts.push(Action::StartLoad { token: load_token, menu_id: self.menu_id });
                    proof {
                        assert(acts@ == seq![load_action(*self)]);
                    }
                }
            },
            Event::DeleteClicked(id) => {
                self.pending_delete = Some(id);
            },
            Event::DeleteApproved => {
                let entry_id = match self.pending_delete {
                    Some(id) => id,
                    // not reachable: the dialog only approves while a
                    // delete is pending (`event_allowed`)
                    None => 0,
                };
                let token = self.flights.begin(Category::Delete);
                acts.push(Action::StartDelete { token, entry_id });
                proof {
                    assert(acts@ == seq![Action::StartDelete { token, entry_id }]);
                }
            },
            Event::DeleteDeclined => {
                self.pending_delete = None;
            },
            Event::DeleteCompleted(token, ok) => {
                if self.flights.is_live(Category::Delete, token) {
                    self.pending_delete = None;
                    if ok {
                        self.load_state = LoadState::Loading;
                        let load_token = self.flights.begin(Category::Load);
                        acts.push(Action::StartLoad { token: load_token, menu_id: self.menu_id });
                        proof {
                            assert(acts@ == seq![load_action(*self)]);
                        }
                    } else {
                        acts.push(Action::NotifyError(ErrorKind::DeleteFailed));
                        proof {
                            assert(acts@ == seq![Action::NotifyError(ErrorKind::DeleteFailed)]);
                        }
                    }
                }
            },
            Event::EditClicked(id) => {
                let kind = match find_entry(&self.entries, id) {
                    Some(e) => Some(dialog_kind_for(&e.content)),
                    None => None,
                };
                match kind {
                    Some(k) => {
                        self.pending_edit = Some(PendingEdit { entry_id: id, kind: k });
                    },
                    None => {},
                }
            },
            Event::EditSaved(payload) => {
                let entry_id = match self.pending_edit {
                    Some(pe) => pe.entry_id,
                    // not reachable: the dialog only saves while an edit is
                    // pending (`event_allowed`)
                    None => 0,
                };
                let token = self.flights.begin(Category::Update);
                acts.push(Action::StartUpdate { token, entry_id, payload });
                proof {
                    assert(acts@.len() == 1);
                }
            },
            Event::EditDiscarded => {
                self.pending_edit = None;
            },
            Event::UpdateCompleted(token, ok) => {
                if self.flights.is_live(Category::Update, token) {
                    self.pending_edit = None;
                    self.pending_add = None;
                    self.drag_source = None;
                    self.hover = None;
                    if ok {
                        self.load_state = LoadState::Loading;
                        let load_token = self.flights.begin(Category::Load);
                        acts.push(Action::StartLoad { token: load_token, menu_id: self.menu_id });
                        proof {
                            assert(acts@ == seq![load_action(*self)]);
                        }
                    } else {
                        acts.push(Action::NotifyError(ErrorKind::SaveFailed));
                        proof {
                            assert(acts@ == seq![Action::NotifyError(ErrorKind::SaveFailed)]);
                        }
                    }
                }
            },
            Event::AddSaved(payload) => {
                let parent_id = match self.hover {
                    Some(z) => z.parent_id,
                    None => None,
                };
                let position = match self.hover {
                    Some(z) => resolve_drop_position(&z),
                    None => 0,
                };
                let token = self.flights.begin(Category::Create);
                acts.push(
                    Action::StartCreate {
                        token,
                        menu_id: self.menu_id,
                        parent_id,
                        position,
                        payload,
                    },
                );
                proof {
                    assert(acts@.len() == 1);
                }
            },
            Event::AddDiscarded => {
                self.pending_add = None;
                self.drag_source = None;
                self.hover = None;
            },
            Event::CreateCompleted(token, ok) => {
                if self.flights.is_live(Category::Create, token) {
                    self.pending_edit = None;
                    self.pending_add = None;
                    self.drag_source = None;
                    self.hover = None;
                    if ok {
                        self.load_state = LoadState::Loading;
                        let load_token = self.flights.begin(Category::Load);
                        acts.push(Action::StartLoad { token: load_token, menu_id: self.menu_id });
                        proof {
                            assert(acts@ == seq![load_action(*self)]);
                        }
                    } else {
                        acts.push(Action::NotifyError(ErrorKind::SaveFailed));
                        proof {
                            assert(acts@ == seq![Action::NotifyError(ErrorKind::SaveFailed)]);
                        }
                    }
                }
            },
            Event::TemplateDragStarted(kind) => {
                self.drag_source = Some(DragSource::NewEntry(kind));
            },
            Event::EntryDragStarted(id) => {
                self.drag_source = Some(DragSource::ExistingEntry(id));
            },
            Event::ZoneHovered(z) => {
                self.hover = Some(z);
            },
            Event::Dropped => {
                match self.hover {
                    None => {
                        self.drag_source = None;
                    },
                    Some(z) => {
                        match self.drag_source {
                            None => {
                                self.hover = None;
                            },
                            Some(DragSource::NewEntry(kind)) => {
                                self.pending_add = Some(kind);
                            },
                            Some(DragSource::ExistingEntry(src)) => {
                                if reparent_is_allowed(&self.entries, src, z.parent_id) {
                                    let position = resolve_drop_position(&z);
                                    let token = self.flights.begin(Category::Reparent);
                                    acts.push(
                                        Action::StartReparent {
                                            token,
                                            entry_id: src,
                                            new_parent_id: z.parent_id,
                                            position,
                                        },
                                    );
                                    proof {
                                        assert(acts@.len() == 1);
                                    }
                                } else {
                                    self.drag_source = None;
                                    self.hover = None;
                                }
                            },
                        }
                    },
                }
            },
            Event::DragCancelled => {
                self.drag_source = None;
                self.hover = None;
            },
        }
        acts
    }
}

/// A completion whose token is no longer the live generation of its
/// category — its request was superseded — changes no state and triggers no
/// action, whatever category it belongs to and whatever outcome it carries.
pub proof fn lemma_stale_completion_ignored(
    pre: MenuDesigner,
    ev: Event,
    post: MenuDesigner,
    acts: Seq<Action>,
)
    requires
        step(pre, ev, post, acts),
        match ev {
            Event::LoadCompleted(t, _) => t != pre.flights.load,
            Event::ReparentCompleted(t, _) => t != pre.flights.reparent,
            Event::DeleteCompleted(t, _) => t != pre.flights.delete,
            Event::UpdateCompleted(t, _) => t != pre.flights.update,
            Event::CreateCompleted(t, _) => t != pre.flights.create,
            _ => false,
        },
    ensures
        post == pre,
        acts == Seq::<Action>::empty(),
{
}

/// Single-flight supersede: approving a delete twice in quick succession,
/// before either resolves, leaves exactly one live request. The first
/// request's token is dead the moment the second is begun, so its
/// completion — whenever and however it fires — changes no state and
/// triggers no action; only the second request's outcome is ever observed.
pub proof fn lemma_delete_supersede(
    s0: MenuDesigner,
    s1: MenuDesigner,
    a1: Seq<Action>,
    s2: MenuDesigner,
    a2: Seq<Action>,
    s3: MenuDesigner,
    a3: Seq<Action>,
    first_token: u64,
    ok: bool,
)
    requires
        step(s0, Event::DeleteApproved, s1, a1),
        step(s1, Event::DeleteApproved, s2, a2),
        first_token == s1.flights.delete,
        step(s2, Event::DeleteCompleted(first_token, ok), s3, a3),
    ensures
        a1 == seq![
            Action::StartDelete { token: first_token, entry_id: s0.pending_delete->Some_0 },
        ],
        first_token != s2.flights.delete,
        s3 == s2,
        a3 == Seq::<Action>::empty(),
{
    crate::flight::lemma_supersede(s0.flights, Category::Delete);
}

} // verus!
