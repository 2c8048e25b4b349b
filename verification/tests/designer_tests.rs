use menu_designer::designer::Action;
use menu_designer::designer::Anchor;
use menu_designer::designer::DropZone;
use menu_designer::designer::ErrorKind;
use menu_designer::designer::Event;
use menu_designer::designer::LoadState;
use menu_designer::designer::MenuDesigner;
use menu_designer::model::DialogKind;
use menu_designer::model::EntryContent;
use menu_designer::model::EntryPayload;
use menu_designer::model::MenuEntry;

fn entry(id: usize, position: usize, children: Vec<MenuEntry>) -> MenuEntry {
    MenuEntry {
        id,
        title: format!("entry {}", id),
        position,
        highlighted: false,
        content: EntryContent::Page,
        children,
    }
}

fn payload(title: &str) -> EntryPayload {
    EntryPayload { title: title.to_string(), highlighted: false, content: EntryContent::Page }
}

fn start_load_token(acts: &[Action]) -> u64 {
    for a in acts {
        if let Action::StartLoad { token, .. } = a {
            return *token;
        }
    }
    panic!("no load was started");
}

/// A designer with the given tree freshly loaded.
fn loaded(forest: Vec<MenuEntry>) -> MenuDesigner {
    let mut d = MenuDesigner::new(7);
    let acts = d.update(Event::Mounted);
    let token = start_load_token(&acts);
    let acts = d.update(Event::LoadCompleted(token, Some(forest)));
    assert!(acts.is_empty());
    assert!(matches!(d.load_state, LoadState::Loaded));
    d
}

#[test]
fn mount_sets_chrome_and_starts_the_load() {
    let mut d = MenuDesigner::new(7);
    let acts = d.update(Event::Mounted);
    assert_eq!(acts.len(), 3);
    assert!(matches!(acts[0], Action::SetChromeTitle));
    assert!(matches!(acts[1], Action::HideChromeSearch));
    assert!(matches!(acts[2], Action::StartLoad { menu_id: 7, .. }));
    assert!(matches!(d.load_state, LoadState::Loading));
}

#[test]
fn failed_load_keeps_the_tree_and_notifies() {
    let mut d = loaded(vec![entry(1, 0, vec![])]);
    let acts = d.update(Event::Mounted);
    let token = start_load_token(&acts);
    let acts = d.update(Event::LoadCompleted(token, None));
    assert_eq!(acts.len(), 1);
    assert!(matches!(acts[0], Action::NotifyError(ErrorKind::LoadFailed)));
    assert!(matches!(d.load_state, LoadState::LoadFailed));
    assert_eq!(d.entries.len(), 1);
}

#[test]
fn stale_load_completion_changes_nothing() {
    let mut d = MenuDesigner::new(7);
    let acts = d.update(Event::Mounted);
    let first = start_load_token(&acts);
    // a second mount supersedes the first load
    let acts = d.update(Event::Mounted);
    let second = start_load_token(&acts);
    assert_ne!(first, second);
    let acts = d.update(Event::LoadCompleted(first, Some(vec![entry(1, 0, vec![])])));
    assert!(acts.is_empty());
    assert!(d.entries.is_empty());
    assert!(matches!(d.load_state, LoadState::Loading));
}

#[test]
fn delete_flow_confirms_then_reloads() {
    let mut d = loaded(vec![entry(1, 0, vec![])]);
    let acts = d.update(Event::DeleteClicked(1));
    assert!(acts.is_empty());
    assert_eq!(d.pending_delete, Some(1));
    let acts = d.update(Event::DeleteApproved);
    assert_eq!(acts.len(), 1);
    let token = match acts[0] {
        Action::StartDelete { token, entry_id } => {
            assert_eq!(entry_id, 1);
            token
        },
        _ => panic!("expected a delete request"),
    };
    let acts = d.update(Event::DeleteCompleted(token, true));
    assert_eq!(d.pending_delete, None);
    assert_eq!(acts.len(), 1);
    assert!(matches!(acts[0], Action::StartLoad { .. }));
}

#[test]
fn declined_delete_issues_nothing() {
    let mut d = loaded(vec![entry(1, 0, vec![])]);
    d.update(Event::DeleteClicked(1));
    let acts = d.update(Event::DeleteDeclined);
    assert!(acts.is_empty());
    assert_eq!(d.pending_delete, None);
}

#[test]
fn failed_delete_notifies_without_reload() {
    let mut d = loaded(vec![entry(1, 0, vec![])]);
    d.update(Event::DeleteClicked(1));
    let acts = d.update(Event::DeleteApproved);
    let token = match acts[0] {
        Action::StartDelete { token, .. } => token,
        _ => panic!("expected a delete request"),
    };
    let acts = d.update(Event::DeleteCompleted(token, false));
    assert_eq!(acts.len(), 1);
    assert!(matches!(acts[0], Action::NotifyError(ErrorKind::DeleteFailed)));
    assert_eq!(d.pending_delete, None);
}

#[test]
fn two_quick_deletes_leave_one_effective_outcome() {
    // Single-flight supersede: the second approve replaces the first
    // request; the first completion, whenever it fires, changes nothing.
    let mut d = loaded(vec![entry(1, 0, vec![]), entry(2, 1, vec![])]);
    d.update(Event::DeleteClicked(1));
    let acts = d.update(Event::DeleteApproved);
    let first = match acts[0] {
        Action::StartDelete { token, .. } => token,
        _ => panic!("expected a delete request"),
    };
    let acts = d.update(Event::DeleteApproved);
    let second = match acts[0] {
        Action::StartDelete { token, .. } => token,
        _ => panic!("expected a delete request"),
    };
    assert_ne!(first, second);
    // the superseded completion is ignored entirely
    let acts = d.update(Event::DeleteCompleted(first, true));
    assert!(acts.is_empty());
    assert_eq!(d.pending_delete, Some(1));
    assert!(matches!(d.load_state, LoadState::Loaded));
    // only the live request's completion takes effect
    let acts = d.update(Event::DeleteCompleted(second, true));
    assert_eq!(d.pending_delete, None);
    assert_eq!(acts.len(), 1);
    assert!(matches!(acts[0], Action::StartLoad { .. }));
}

#[test]
fn edit_click_on_link_opens_link_dialog() {
    let mut link = entry(4, 0, vec![]);
    link.content = EntryContent::Link(Some("about".to_string()));
    let mut d = loaded(vec![link]);
    let acts = d.update(Event::EditClicked(4));
    assert!(acts.is_empty());
    let pe = d.pending_edit.expect("edit dialog open");
    assert_eq!(pe.entry_id, 4);
    assert_eq!(pe.kind, DialogKind::Link);
}

#[test]
fn edit_discard_leaves_tree_and_store_untouched() {
    let mut link = entry(4, 0, vec![]);
    link.content = EntryContent::Link(None);
    let mut d = loaded(vec![link]);
    d.update(Event::EditClicked(4));
    let acts = d.update(Event::EditDiscarded);
    assert!(acts.is_empty());
    assert_eq!(d.pending_edit, None);
    assert_eq!(d.entries.len(), 1);
    assert_eq!(d.entries[0].id, 4);
}

#[test]
fn edit_click_chooses_dialog_by_content() {
    let mut gallery = entry(1, 0, vec![]);
    gallery.content = EntryContent::Gallery;
    let mut group = entry(2, 1, vec![]);
    group.content = EntryContent::Group;
    let mut d = loaded(vec![gallery, group]);
    d.update(Event::EditClicked(1));
    assert_eq!(d.pending_edit.unwrap().kind, DialogKind::Gallery);
    d.update(Event::EditClicked(2));
    assert_eq!(d.pending_edit.unwrap().kind, DialogKind::Group);
}

#[test]
fn edit_save_submits_update_for_the_entry() {
    let mut d = loaded(vec![entry(9, 0, vec![])]);
    d.update(Event::EditClicked(9));
    let acts = d.update(Event::EditSaved(payload("renamed")));
    assert_eq!(acts.len(), 1);
    match &acts[0] {
        Action::StartUpdate { entry_id, payload, .. } => {
            assert_eq!(*entry_id, 9);
            assert_eq!(payload.title, "renamed");
        },
        _ => panic!("expected an update request"),
    }
}

#[test]
fn failed_edit_save_notifies_and_closes_the_dialog() {
    let mut d = loaded(vec![entry(9, 0, vec![])]);
    d.update(Event::EditClicked(9));
    let acts = d.update(Event::EditSaved(payload("renamed")));
    let token = match acts[0] {
        Action::StartUpdate { token, .. } => token,
        _ => panic!("expected an update request"),
    };
    let acts = d.update(Event::UpdateCompleted(token, false));
    assert_eq!(acts.len(), 1);
    assert!(matches!(acts[0], Action::NotifyError(ErrorKind::SaveFailed)));
    assert_eq!(d.pending_edit, None);
    // no reload: the store did not change
    assert!(matches!(d.load_state, LoadState::Loaded));
}

#[test]
fn drop_below_anchor_resolves_position_after_it() {
    // Dropping an existing entry on the zone anchored at position 3 under
    // parent 2 asks for position 4 under parent 2.
    let forest = vec![entry(1, 0, vec![]), entry(2, 1, vec![entry(3, 3, vec![])])];
    let mut d = loaded(forest);
    d.update(Event::EntryDragStarted(1));
    let zone = DropZone {
        parent_id: Some(2),
        anchor: Some(Anchor { entry_id: 3, position: 3 }),
    };
    d.update(Event::ZoneHovered(zone));
    let acts = d.update(Event::Dropped);
    assert_eq!(acts.len(), 1);
    let token = match acts[0] {
        Action::StartReparent { entry_id, new_parent_id, position, token } => {
            assert_eq!(entry_id, 1);
            assert_eq!(new_parent_id, Some(2));
            assert_eq!(position, 4);
            token
        },
        _ => panic!("expected a reparent request"),
    };
    // transient drag state lives until the mutation settles
    assert!(d.drag_source.is_some());
    assert!(d.hover.is_some());
    d.update(Event::ReparentCompleted(token, true));
    assert_eq!(d.drag_source, None);
    assert_eq!(d.hover, None);
}

#[test]
fn drop_on_top_zone_resolves_position_zero() {
    let mut d = loaded(vec![entry(1, 0, vec![]), entry(2, 1, vec![])]);
    d.update(Event::EntryDragStarted(2));
    d.update(Event::ZoneHovered(DropZone { parent_id: None, anchor: None }));
    let acts = d.update(Event::Dropped);
    assert_eq!(acts.len(), 1);
    match acts[0] {
        Action::StartReparent { entry_id, new_parent_id, position, .. } => {
            assert_eq!(entry_id, 2);
            assert_eq!(new_parent_id, None);
            assert_eq!(position, 0);
        },
        _ => panic!("expected a reparent request"),
    }
}

#[test]
fn template_drop_opens_add_dialog_and_save_creates_there() {
    // A new-entry template dropped on the zone anchored at position 3 seeds
    // the add dialog; its save submits a create at position 4 under the
    // zone's parent.
    let forest = vec![entry(2, 1, vec![entry(3, 3, vec![])])];
    let mut d = loaded(forest);
    d.update(Event::TemplateDragStarted(DialogKind::Link));
    let zone = DropZone {
        parent_id: Some(2),
        anchor: Some(Anchor { entry_id: 3, position: 3 }),
    };
    d.update(Event::ZoneHovered(zone));
    let acts = d.update(Event::Dropped);
    assert!(acts.is_empty());
    assert_eq!(d.pending_add, Some(DialogKind::Link));
    let acts = d.update(Event::AddSaved(payload("fresh")));
    assert_eq!(acts.len(), 1);
    match &acts[0] {
        Action::StartCreate { menu_id, parent_id, position, payload, .. } => {
            assert_eq!(*menu_id, 7);
            assert_eq!(*parent_id, Some(2));
            assert_eq!(*position, 4);
            assert_eq!(payload.title, "fresh");
        },
        _ => panic!("expected a create request"),
    }
}

#[test]
fn template_drop_on_top_zone_creates_at_root_position_zero() {
    let mut d = loaded(vec![entry(1, 0, vec![])]);
    d.update(Event::TemplateDragStarted(DialogKind::Page));
    d.update(Event::ZoneHovered(DropZone { parent_id: None, anchor: None }));
    d.update(Event::Dropped);
    let acts = d.update(Event::AddSaved(payload("top")));
    match &acts[0] {
        Action::StartCreate { parent_id, position, .. } => {
            assert_eq!(*parent_id, None);
            assert_eq!(*position, 0);
        },
        _ => panic!("expected a create request"),
    }
}

#[test]
fn add_discard_clears_transient_state_without_a_call() {
    let mut d = loaded(vec![entry(1, 0, vec![])]);
    d.update(Event::TemplateDragStarted(DialogKind::Group));
    d.update(Event::ZoneHovered(DropZone { parent_id: None, anchor: None }));
    d.update(Event::Dropped);
    let acts = d.update(Event::AddDiscarded);
    assert!(acts.is_empty());
    assert_eq!(d.pending_add, None);
    assert_eq!(d.drag_source, None);
    assert_eq!(d.hover, None);
}

#[test]
fn drop_without_hover_is_a_noop_that_clears_drag_state() {
    let mut d = loaded(vec![entry(1, 0, vec![])]);
    d.update(Event::EntryDragStarted(1));
    let acts = d.update(Event::Dropped);
    assert!(acts.is_empty());
    assert_eq!(d.drag_source, None);
}

#[test]
fn drag_cancel_clears_the_highlighted_zone() {
    let mut d = loaded(vec![entry(1, 0, vec![])]);
    d.update(Event::EntryDragStarted(1));
    d.update(Event::ZoneHovered(DropZone { parent_id: None, anchor: None }));
    let acts = d.update(Event::DragCancelled);
    assert!(acts.is_empty());
    assert_eq!(d.drag_source, None);
    assert_eq!(d.hover, None);
}

#[test]
fn cycle_forming_drop_is_rejected_silently() {
    let forest = vec![entry(1, 0, vec![entry(2, 0, vec![])]), entry(4, 1, vec![])];
    let mut d = loaded(forest);
    d.update(Event::EntryDragStarted(1));
    let zone = DropZone {
        parent_id: Some(2),
        anchor: None,
    };
    d.update(Event::ZoneHovered(zone));
    let acts = d.update(Event::Dropped);
    assert!(acts.is_empty());
    assert_eq!(d.drag_source, None);
    assert_eq!(d.hover, None);
}

#[test]
fn hover_overwrites_previous_zone() {
    let mut d = loaded(vec![entry(1, 0, vec![]), entry(2, 1, vec![])]);
    d.update(Event::EntryDragStarted(1));
    d.update(Event::ZoneHovered(DropZone {
        parent_id: None,
        anchor: Some(Anchor { entry_id: 1, position: 0 }),
    }));
    d.update(Event::ZoneHovered(DropZone {
        parent_id: None,
        anchor: Some(Anchor { entry_id: 2, position: 1 }),
    }));
    let acts = d.update(Event::Dropped);
    match acts[0] {
        Action::StartReparent { position, .. } => assert_eq!(position, 2),
        _ => panic!("expected a reparent request"),
    }
}

#[test]
fn promote_and_demote_clicks_submit_reparent() {
    // A (entry 1, with a child at position 0) precedes B (entry 2).
    let forest = vec![entry(1, 0, vec![entry(3, 0, vec![])]), entry(2, 1, vec![])];
    let mut d = loaded(forest);
    // A is first: promote is a no-op
    let acts = d.update(Event::PromoteClicked(1));
    assert!(acts.is_empty());
    // B goes under A, after A's existing child at position 0
    let acts = d.update(Event::PromoteClicked(2));
    assert_eq!(acts.len(), 1);
    match acts[0] {
        Action::StartReparent { entry_id, new_parent_id, position, token } => {
            assert_eq!(entry_id, 2);
            assert_eq!(new_parent_id, Some(1));
            assert_eq!(position, 1);
            // completion reloads the tree whatever the outcome
            let reload = d.update(Event::ReparentCompleted(token, true));
            assert_eq!(reload.len(), 1);
            assert!(matches!(reload[0], Action::StartLoad { .. }));
        },
        _ => panic!("expected a reparent request"),
    }
}

#[test]
fn demote_click_submits_reparent_beside_former_parent() {
    let forest = vec![entry(1, 0, vec![]), entry(2, 1, vec![entry(3, 0, vec![])])];
    let mut d = loaded(forest);
    let acts = d.update(Event::DemoteClicked(3));
    assert_eq!(acts.len(), 1);
    match acts[0] {
        Action::StartReparent { entry_id, new_parent_id, position, .. } => {
            assert_eq!(entry_id, 3);
            assert_eq!(new_parent_id, None);
            assert_eq!(position, 2);
        },
        _ => panic!("expected a reparent request"),
    }
    // C's demote button exists because C has a parent and no children;
    // top-level A never demotes
    let acts = d.update(Event::DemoteClicked(1));
    assert!(acts.is_empty());
}

#[test]
fn menu_change_only_retargets() {
    let mut d = MenuDesigner::new(7);
    let acts = d.update(Event::MenuChanged(9));
    assert!(acts.is_empty());
    assert_eq!(d.menu_id, 9);
}
