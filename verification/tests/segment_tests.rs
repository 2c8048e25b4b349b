use menu_designer::segment::FileRef;
use menu_designer::segment::GalleryRef;
use menu_designer::segment::Segment;
use menu_designer::segment::SegmentAction;
use menu_designer::segment::SegmentContent;
use menu_designer::segment::SegmentDesigner;
use menu_designer::segment::SegmentError;
use menu_designer::segment::SegmentEvent;

fn gallery_segment(id: usize, position: usize, gallery_id: usize) -> Segment {
    Segment {
        id,
        position,
        content: SegmentContent::Gallery(GalleryRef {
            id: gallery_id,
            name: format!("gallery {}", gallery_id),
        }),
    }
}

fn html_segment(id: usize, position: usize) -> Segment {
    Segment { id, position, content: SegmentContent::Html("<p>block</p>".to_string()) }
}

fn file_segment(id: usize, position: usize) -> Segment {
    Segment {
        id,
        position,
        content: SegmentContent::File {
            file: FileRef { id: 40, path: "/img/a.png".to_string() },
            action: Some("link".to_string()),
            target: None,
            script: None,
        },
    }
}

fn loaded() -> SegmentDesigner {
    let mut d = SegmentDesigner::new(3);
    let acts = d.update(SegmentEvent::Mounted);
    let token = match acts[0] {
        SegmentAction::StartLoadSegments { token, page_id } => {
            assert_eq!(page_id, 3);
            token
        },
        _ => panic!("expected a segment load"),
    };
    let segments = vec![gallery_segment(1, 0, 10), file_segment(2, 1), html_segment(5, 2)];
    let acts = d.update(SegmentEvent::SegmentsLoaded(token, Some(segments)));
    assert!(acts.is_empty());
    d
}

#[test]
fn mount_loads_the_segments() {
    let d = loaded();
    assert_eq!(d.segments.len(), 3);
}

#[test]
fn stale_segment_load_is_ignored() {
    let mut d = loaded();
    let acts = d.update(SegmentEvent::SegmentsLoaded(99, None));
    assert!(acts.is_empty());
    assert_eq!(d.segments.len(), 3);
}

#[test]
fn failed_segment_load_notifies() {
    let mut d = SegmentDesigner::new(3);
    let acts = d.update(SegmentEvent::Mounted);
    let token = match acts[0] {
        SegmentAction::StartLoadSegments { token, .. } => token,
        _ => panic!("expected a segment load"),
    };
    let acts = d.update(SegmentEvent::SegmentsLoaded(token, None));
    assert_eq!(acts.len(), 1);
    assert!(matches!(
        acts[0],
        SegmentAction::NotifySegmentError(SegmentError::LoadSegmentsFailed)
    ));
}

#[test]
fn delete_goes_by_the_segment_position() {
    let mut d = loaded();
    let acts = d.update(SegmentEvent::DeleteClicked(1));
    assert!(acts.is_empty());
    assert_eq!(d.pending_delete, Some(1));
    let acts = d.update(SegmentEvent::DeleteApproved);
    let token = match acts[0] {
        SegmentAction::StartDeleteSegment { token, page_id, position } => {
            assert_eq!(page_id, 3);
            assert_eq!(position, 1);
            token
        },
        _ => panic!("expected a delete request"),
    };
    let acts = d.update(SegmentEvent::DeleteCompleted(token, true));
    assert_eq!(d.pending_delete, None);
    assert!(matches!(acts[0], SegmentAction::StartLoadSegments { .. }));
}

#[test]
fn failed_segment_delete_notifies_without_reload() {
    let mut d = loaded();
    d.update(SegmentEvent::DeleteClicked(0));
    let acts = d.update(SegmentEvent::DeleteApproved);
    let token = match acts[0] {
        SegmentAction::StartDeleteSegment { token, .. } => token,
        _ => panic!("expected a delete request"),
    };
    let acts = d.update(SegmentEvent::DeleteCompleted(token, false));
    assert_eq!(acts.len(), 1);
    assert!(matches!(
        acts[0],
        SegmentAction::NotifySegmentError(SegmentError::DeleteFailed)
    ));
}

#[test]
fn edit_click_on_gallery_segment_fetches_galleries() {
    let mut d = loaded();
    let acts = d.update(SegmentEvent::EditClicked(0));
    assert_eq!(acts.len(), 1);
    assert!(matches!(acts[0], SegmentAction::StartLoadGalleries { .. }));
    let pe = d.pending_edit.expect("edit open");
    assert_eq!(pe.segment_id, 1);
    assert_eq!(pe.position, 0);
    assert_eq!(d.selected_gallery, Some(10));
}

#[test]
fn edit_click_on_other_segments_is_a_noop() {
    let mut d = loaded();
    let acts = d.update(SegmentEvent::EditClicked(1));
    assert!(acts.is_empty());
    assert_eq!(d.pending_edit, None);
    let acts = d.update(SegmentEvent::EditClicked(2));
    assert!(acts.is_empty());
    assert_eq!(d.pending_edit, None);
}

#[test]
fn gallery_save_submits_only_a_fetched_gallery() {
    let mut d = loaded();
    let acts = d.update(SegmentEvent::EditClicked(0));
    let gtoken = match acts[0] {
        SegmentAction::StartLoadGalleries { token } => token,
        _ => panic!("expected a gallery load"),
    };
    let galleries = vec![
        GalleryRef { id: 10, name: "old".to_string() },
        GalleryRef { id: 11, name: "new".to_string() },
    ];
    d.update(SegmentEvent::GalleriesLoaded(gtoken, Some(galleries)));
    // a selection outside the fetched list never submits
    d.update(SegmentEvent::GallerySelected(99));
    let acts = d.update(SegmentEvent::GallerySaveClicked);
    assert!(acts.is_empty());
    // a fetched gallery does
    d.update(SegmentEvent::GallerySelected(11));
    let acts = d.update(SegmentEvent::GallerySaveClicked);
    assert_eq!(acts.len(), 1);
    let token = match acts[0] {
        SegmentAction::StartUpdateGallerySegment { token, page_id, position, gallery_id } => {
            assert_eq!(page_id, 3);
            assert_eq!(position, 0);
            assert_eq!(gallery_id, 11);
            token
        },
        _ => panic!("expected a gallery update"),
    };
    let acts = d.update(SegmentEvent::UpdateGalleryCompleted(token, true));
    assert_eq!(d.pending_edit, None);
    assert_eq!(d.selected_gallery, None);
    assert!(matches!(acts[0], SegmentAction::StartLoadSegments { .. }));
}

#[test]
fn gallery_save_discard_keeps_everything() {
    let mut d = loaded();
    d.update(SegmentEvent::EditClicked(0));
    let acts = d.update(SegmentEvent::GallerySaveDiscarded);
    assert!(acts.is_empty());
    assert_eq!(d.pending_edit, None);
    assert_eq!(d.segments.len(), 3);
}

#[test]
fn failed_gallery_update_keeps_the_dialog_open() {
    let mut d = loaded();
    let acts = d.update(SegmentEvent::EditClicked(0));
    let gtoken = match acts[0] {
        SegmentAction::StartLoadGalleries { token } => token,
        _ => panic!("expected a gallery load"),
    };
    d.update(SegmentEvent::GalleriesLoaded(
        gtoken,
        Some(vec![GalleryRef { id: 10, name: "old".to_string() }]),
    ));
    let acts = d.update(SegmentEvent::GallerySaveClicked);
    let token = match acts[0] {
        SegmentAction::StartUpdateGallerySegment { token, .. } => token,
        _ => panic!("expected a gallery update"),
    };
    let acts = d.update(SegmentEvent::UpdateGalleryCompleted(token, false));
    assert!(matches!(
        acts[0],
        SegmentAction::NotifySegmentError(SegmentError::UpdateGalleryFailed)
    ));
    assert!(d.pending_edit.is_some());
}

#[test]
fn failed_gallery_load_notifies() {
    let mut d = loaded();
    let acts = d.update(SegmentEvent::EditClicked(0));
    let gtoken = match acts[0] {
        SegmentAction::StartLoadGalleries { token } => token,
        _ => panic!("expected a gallery load"),
    };
    let acts = d.update(SegmentEvent::GalleriesLoaded(gtoken, None));
    assert_eq!(acts.len(), 1);
    assert!(matches!(
        acts[0],
        SegmentAction::NotifySegmentError(SegmentError::LoadGalleriesFailed)
    ));
}

#[test]
fn failed_file_load_notifies() {
    let mut d = loaded();
    // the live files generation starts at zero: no request was begun
    let acts = d.update(SegmentEvent::FilesLoaded(0, None));
    assert_eq!(acts.len(), 1);
    assert!(matches!(
        acts[0],
        SegmentAction::NotifySegmentError(SegmentError::LoadFilesFailed)
    ));
    let acts = d.update(SegmentEvent::FilesLoaded(9, None));
    assert!(acts.is_empty());
}

#[test]
fn page_change_only_retargets() {
    let mut d = SegmentDesigner::new(3);
    let acts = d.update(SegmentEvent::PageChanged(8));
    assert!(acts.is_empty());
    assert_eq!(d.page_id, 8);
}
