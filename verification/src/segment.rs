//! The segment-page designer: a flat list editor for page segments with its
//! own delete flow and a gallery-segment edit flow. Like the menu designer
//! it is reload-driven and single-flight per request category: a completion
//! whose token is no longer live changes nothing.

use vstd::prelude::*;
use crate::flight::next_gen;

verus! {

/// A gallery as listed for the edit dropdown.
pub struct GalleryRef {
    pub id: usize,
    pub name: String,
}

/// A stored file as a segment shows it.
pub struct FileRef {
    pub id: usize,
    pub path: String,
}

/// The content of one segment: a gallery, a file with its optional action,
/// target and script, or raw markup.
pub enum SegmentContent {
    Gallery(GalleryRef),
    File { file: FileRef, action: Option<String>, target: Option<String>, script: Option<String> },
    Html(String),
}

/// One segment of a segment page, ordered by `position`.
pub struct Segment {
    pub id: usize,
    pub position: usize,
    pub content: SegmentContent,
}

/// The segment an open gallery edit targets.
#[derive(Clone, Copy, Debug, PartialEq, Eq, Structural)]
pub struct SegmentEdit {
    pub segment_id: usize,
    pub position: usize,
}

/// The failures the host surfaces for this editor.
#[derive(Clone, Copy, Debug, PartialEq, Eq, Structural)]
pub enum SegmentError {
    LoadSegmentsFailed,
    LoadFilesFailed,
    LoadGalleriesFailed,
    DeleteFailed,
    UpdateGalleryFailed,
}

/// Everything that can happen to the segment-page designer.
pub enum SegmentEvent {
    Mounted,
    PageChanged(usize),
    SegmentsLoaded(u64, Option<Vec<Segment>>),
    FilesLoaded(u64, Option<Vec<FileRef>>),
    GalleriesLoaded(u64, Option<Vec<GalleryRef>>),
    DeleteClicked(usize),
    DeleteApproved,
    DeleteDeclined,
    DeleteCompleted(u64, bool),
    EditClicked(usize),
    GallerySelected(usize),
    GallerySaveClicked,
    GallerySaveDiscarded,
    UpdateGalleryCompleted(u64, bool),
}

/// What the segment-page designer asks the host to do.
pub enum SegmentAction {
    StartLoadSegments { token: u64, page_id: usize },
    StartLoadGalleries { token: u64 },
    StartDeleteSegment { token: u64, page_id: usize, position: usize },
    StartUpdateGallerySegment { token: u64, page_id: usize, position: usize, gallery_id: usize },
    NotifySegmentError(SegmentError),
}

/// The editor's state: the list as last loaded, the galleries fetched for
/// the edit dropdown, the transient delete and edit references, and one
/// request generation per category.
pub struct SegmentDesigner {
    pub page_id: usize,
    pub segments: Vec<Segment>,
    pub files: Vec<FileRef>,
    pub galleries: Vec<GalleryRef>,
    pub pending_delete: Option<usize>,
    pub pending_edit: Option<SegmentEdit>,
    pub selected_gallery: Option<usize>,
    pub segments_gen: u64,
    pub files_gen: u64,
    pub galleries_gen: u64,
    pub delete_gen: u64,
    pub update_gen: u64,
}

/// Whether some listed gallery carries the id.
pub open spec fn has_gallery(gs: Seq<GalleryRef>, id: usize) -> bool {
    exists|i: int| 0 <= i < gs.len() && gs[i].id == id
}

/// Whether the given index names a segment whose content is a gallery.
pub open spec fn is_gallery_at(segs: Seq<Segment>, idx: int) -> bool {
    0 <= idx < segs.len() && segs[idx].content is Gallery
}

/// `d` with a reload of the segment list begun.
pub open spec fn with_segments_load_begun(d: SegmentDesigner) -> SegmentDesigner {
    SegmentDesigner { segments_gen: next_gen(d.segments_gen), ..d }
}

/// The load request that a reload owes the host, spoken of the post-state.
pub open spec fn segments_load_action(d: SegmentDesigner) -> SegmentAction {
    SegmentAction::StartLoadSegments { token: d.segments_gen, page_id: d.page_id }
}

/// Which events the editor accepts in a given state: approving a delete or
/// saving a gallery edit needs its dialog open.
pub open spec fn segment_event_allowed(pre: SegmentDesigner, ev: SegmentEvent) -> bool {
    match ev {
        SegmentEvent::DeleteApproved => pre.pending_delete is Some,
        SegmentEvent::GallerySaveClicked => pre.pending_edit is Some,
        _ => true,
    }
}

/// The transition relation of the segment-page designer; `update` is proved
/// to satisfy it.
pub open spec fn segment_step(
    pre: SegmentDesigner,
    ev: SegmentEvent,
    post: SegmentDesigner,
    acts: Seq<SegmentAction>,
) -> bool {
    match ev {
        SegmentEvent::Mounted => {
            &&& post == with_segments_load_begun(pre)
            &&& acts == seq![segments_load_action(post)]
        },
        SegmentEvent::PageChanged(pid) => {
            &&& post == (SegmentDesigner { page_id: pid, ..pre })
            &&& acts == Seq::<SegmentAction>::empty()
        },
        SegmentEvent::SegmentsLoaded(token, outcome) => {
            if token != pre.segments_gen {
                post == pre && acts == Seq::<SegmentAction>::empty()
            } else {
                match outcome {
                    Some(segments) => {
                        &&& post == (SegmentDesigner { segments, ..pre })
                        &&& acts == Seq::<SegmentAction>::empty()
                    },
                    None => {
                        &&& post == pre
                        &&& acts == seq![
                            SegmentAction::NotifySegmentError(SegmentError::LoadSegmentsFailed),
                        ]
                    },
                }
            }
        },
        SegmentEvent::FilesLoaded(token, outcome) => {
            if token != pre.files_gen {
                post == pre && acts == Seq::<SegmentAction>::empty()
            } else {
                match outcome {
                    Some(files) => {
                        &&& post == (SegmentDesigner { files, ..pre })
                        &&& acts == Seq::<SegmentAction>::empty()
                    },
                    None => {
                        &&& post == pre
                        &&& acts == seq![
                            SegmentAction::NotifySegmentError(SegmentError::LoadFilesFailed),
                        ]
                    },
                }
            }
        },
        SegmentEvent::GalleriesLoaded(token, outcome) => {
            if token != pre.galleries_gen {
                post == pre && acts == Seq::<SegmentAction>::empty()
            } else {
                match outcome {
                    Some(galleries) => {
                        &&& post == (SegmentDesigner { galleries, ..pre })
                        &&& acts == Seq::<SegmentAction>::empty()
                    },
                    None => {
                        &&& post == pre
                        &&& acts == seq![
                            SegmentAction::NotifySegmentError(SegmentError::LoadGalleriesFailed),
                        ]
                    },
                }
            }
        },
        SegmentEvent::DeleteClicked(idx) => {
            if idx < pre.segments@.len() {
                &&& post == (SegmentDesigner {
                    pending_delete: Some(pre.segments@[idx as int].position),
                    ..pre
                })
                &&& acts == Seq::<SegmentAction>::empty()
            } else {
                post == pre && acts == Seq::<SegmentAction>::empty()
            }
        },
        SegmentEvent::DeleteApproved => {
            &&& post == (SegmentDesigner { delete_gen: next_gen(pre.delete_gen), ..pre })
            &&& acts == seq![
                SegmentAction::StartDeleteSegment {
                    token: post.delete_gen,
                    page_id: pre.page_id,
                    position: pre.pending_delete->Some_0,
                },
            ]
        },
        SegmentEvent::DeleteDeclined => {
            &&& post == (SegmentDesigner { pending_delete: None, ..pre })
            &&& acts == Seq::<SegmentAction>::empty()
        },
        SegmentEvent::DeleteCompleted(token, ok) => {
            if token != pre.delete_gen {
                post == pre && acts == Seq::<SegmentAction>::empty()
            } else if ok {
                &&& post == with_segments_load_begun(
                    SegmentDesigner { pending_delete: None, ..pre },
                )
                &&& acts == seq![segments_load_action(post)]
            } else {
                &&& post == (SegmentDesigner { pending_delete: None, ..pre })
                &&& acts == seq![SegmentAction::NotifySegmentError(SegmentError::DeleteFailed)]
            }
        },
        SegmentEvent::EditClicked(idx) => {
            if is_gallery_at(pre.segments@, idx as int) {
                &&& post == (SegmentDesigner {
                    pending_edit: Some(
                        SegmentEdit {
                            segment_id: pre.segments@[idx as int].id,
                            position: pre.segments@[idx as int].position,
                        },
                    ),
                    selected_gallery: Some(pre.segments@[idx as int].content->Gallery_0.id),
                    galleries_gen: next_gen(pre.galleries_gen),
                    ..pre
                })
                &&& acts == seq![SegmentAction::StartLoadGalleries { token: post.galleries_gen }]
            } else {
                post == pre && acts == Seq::<SegmentAction>::empty()
            }
        },
        SegmentEvent::GallerySelected(gid) => {
            &&& post == (SegmentDesigner { selected_gallery: Some(gid), ..pre })
            &&& acts == Seq::<SegmentAction>::empty()
        },
        SegmentEvent::GallerySaveClicked => {
            match pre.selected_gallery {
                Some(gid) => {
                    if has_gallery(pre.galleries@, gid) {
                        &&& post == (SegmentDesigner {
                            update_gen: next_gen(pre.update_gen),
                            ..pre
                        })
                        &&& acts == seq![
                            SegmentAction::StartUpdateGallerySegment {
                                token: post.update_gen,
                                page_id: pre.page_id,
                                position: pre.pending_edit->Some_0.position,
                                gallery_id: gid,
                            },
                        ]
                    } else {
                        post == pre && acts == Seq::<SegmentAction>::empty()
                    }
                },
                None => post == pre && acts == Seq::<SegmentAction>::empty(),
            }
        },
        SegmentEvent::GallerySaveDiscarded => {
            &&& post == (SegmentDesigner { pending_edit: None, ..pre })
            &&& acts == Seq::<SegmentAction>::empty()
        },
        SegmentEvent::UpdateGalleryCompleted(token, ok) => {
            if token != pre.update_gen {
                post == pre && acts == Seq::<SegmentAction>::empty()
            } else if ok {
                &&& post == with_segments_load_begun(
                    SegmentDesigner { pending_edit: None, selected_gallery: None, ..pre },
                )
                &&& acts == seq![segments_load_action(post)]
            } else {
                &&& post == pre
                &&& acts == seq![
                    SegmentAction::NotifySegmentError(SegmentError::UpdateGalleryFailed),
                ]
            }
        },
    }
}

/// A completion whose token is no longer the live generation of its
/// category changes no state and triggers no action here either.
pub proof fn lemma_stale_segment_completion_ignored(
    pre: SegmentDesigner,
    ev: SegmentEvent,
    post: SegmentDesigner,
    acts: Seq<SegmentAction>,
)
    requires
        segment_step(pre, ev, post, acts),
        match ev {
            SegmentEvent::SegmentsLoaded(t, _) => t != pre.segments_gen,
            SegmentEvent::FilesLoaded(t, _) => t != pre.files_gen,
            SegmentEvent::GalleriesLoaded(t, _) => t != pre.galleries_gen,
            SegmentEvent::DeleteCompleted(t, _) => t != pre.delete_gen,
            SegmentEvent::UpdateGalleryCompleted(t, _) => t != pre.update_gen,
            _ => false,
        },
    ensures
        post == pre,
        acts == Seq::<SegmentAction>::empty(),
{
}

impl SegmentDesigner {
    /// A fresh editor for the given page: empty lists, nothing pending, no
    /// request begun.
    pub fn new(page_id: usize) -> (d: SegmentDesigner)
        ensures
            d.page_id == page_id,
            d.segments@.len() == 0,
            d.files@.len() == 0,
            d.galleries@.len() == 0,
            d.pending_delete is None,
            d.pending_edit is None,
            d.selected_gallery is None,
            d.segments_gen == 0,
            d.files_gen == 0,
            d.galleries_gen == 0,
            d.delete_gen == 0,
            d.update_gen == 0,
    {
        SegmentDesigner {
            page_id,
            segments: Vec::new(),
            files: Vec::new(),
            galleries: Vec::new(),
            pending_delete: None,
            pending_edit: None,
            selected_gallery: None,
            segments_gen: 0,
            files_gen: 0,
            galleries_gen: 0,
            delete_gen: 0,
            update_gen: 0,
        }
    }

    /// Steps the editor's own generation counter for one category.
    fn bump_gen(g: u64) -> (r: u64)
        ensures
            r == next_gen(g),
    {
        if g == u64::MAX {
            0
        } else {
            g + 1
        }
    }

    /// Applies one event: moves to the post-state that `segment_step`
    /// prescribes and returns exactly the actions it owes the host.
    pub fn update(&mut self, ev: SegmentEvent) -> (acts: Vec<SegmentAction>)
        requires
            segment_event_allowed(*old(self), ev),
        ensures
            segment_step(*old(self), ev, *final(self), acts@),
    {
        let mut acts: Vec<SegmentAction> = Vec::new();
        match ev {
            SegmentEvent::Mounted => {
                self.segments_gen = Self::bump_gen(self.segments_gen);
                acts.push(
                    SegmentAction::StartLoadSegments {
                        token: self.segments_gen,
                        page_id: self.page_id,
                    },
                );
            },
            SegmentEvent::PageChanged(pid) => {
                self.page_id = pid;
            },
            SegmentEvent::SegmentsLoaded(token, outcome) => {
                if token == self.segments_gen {
                    match outcome {
                        Some(segments) => {
                            self.segments = segments;
                        },
                        None => {
                            acts.push(
                                SegmentAction::NotifySegmentError(SegmentError::LoadSegmentsFailed),
                            );
                        },
                    }
                }
            },
            SegmentEvent::FilesLoaded(token, outcome) => {
                if token == self.files_gen {
                    match outcome {
                        Some(files) => {
                            self.files = files;
                        },
                        None => {
                            acts.push(
                                SegmentAction::NotifySegmentError(SegmentError::LoadFilesFailed),
                            );
                        },
                    }
                }
            },
            SegmentEvent::GalleriesLoaded(token, outcome) => {
                if token == self.galleries_gen {
                    match outcome {
                        Some(galleries) => {
                            self.galleries = galleries;
                        },
                        None => {
                            acts.push(
                                SegmentAction::NotifySegmentError(
                                    SegmentError::LoadGalleriesFailed,
                                ),
                            );
                        },
                    }
                }
            },
            SegmentEvent::DeleteClicked(idx) => {
                if idx < self.segments.len() {
                    self.pending_delete = Some(self.segments[idx].position);
                }
            },
            SegmentEvent::DeleteApproved => {
                let position = match self.pending_delete {
                    Some(p) => p,
                    None => 0,
                };
                self.delete_gen = Self::bump_gen(self.delete_gen);
                acts.push(
                    SegmentAction::StartDeleteSegment {
                        token: self.delete_gen,
                        page_id: self.page_id,
                        position,
                    },
                );
            },
            SegmentEvent::DeleteDeclined => {
                self.pending_delete = None;
            },
            SegmentEvent::DeleteCompleted(token, ok) => {
                if token == self.delete_gen {
                    self.pending_delete = None;
                    if ok {
                        self.segments_gen = Self::bump_gen(self.segments_gen);
                        acts.push(
                            SegmentAction::StartLoadSegments {
                                token: self.segments_gen,
                                page_id: self.page_id,
                            },
                        );
                    } else {
                        acts.push(SegmentAction::NotifySegmentError(SegmentError::DeleteFailed));
                    }
                }
            },
            SegmentEvent::EditClicked(idx) => {
                if idx < self.segments.len() {
                    let seg = &self.segments[idx];
                    match &seg.content {
                        SegmentContent::Gallery(g) => {
                            self.pending_edit = Some(
                                SegmentEdit { segment_id: seg.id, position: seg.position },
                            );
                            self.selected_gallery = Some(g.id);
                            self.galleries_gen = Self::bump_gen(self.galleries_gen);
                            acts.push(
                                SegmentAction::StartLoadGalleries { token: self.galleries_gen },
                            );
                        },
                        _ => {},
                    }
                }
            },
            SegmentEvent::GallerySelected(gid) => {
                self.selected_gallery = Some(gid);
            },
            SegmentEvent::GallerySaveClicked => {
                match self.selected_gallery {
                    Some(gid) => {
                        let n: usize = self.galleries.len();
                        let mut k: usize = 0;
                        let mut found: bool = false;
                        while k < n
                            invariant
                                k <= n,
                                n == self.galleries@.len(),
                                found == exists|i: int|
                                    0 <= i < k && self.galleries@[i].id == gid,
                            decreases n - k,
                        {
                            if self.galleries[k].id == gid {
                                found = true;
                            }
                            k += 1;
                        }
                        if found {
                            let position = match self.pending_edit {
                                Some(pe) => pe.position,
                                None => 0,
                            };
                            self.update_gen = Self::bump_gen(self.update_gen);
                            acts.push(
                                SegmentAction::StartUpdateGallerySegment {
                                    token: self.update_gen,
                                    page_id: self.page_id,
                                    position,
                                    gallery_id: gid,
                                },
                            );
                        }
                    },
                    None => {},
                }
            },
            SegmentEvent::GallerySaveDiscarded => {
                self.pending_edit = None;
            },
            SegmentEvent::UpdateGalleryCompleted(token, ok) => {
                if token == self.update_gen {
                    if ok {
                        self.pending_edit = None;
                        self.selected_gallery = None;
                        self.segments_gen = Self::bump_gen(self.segments_gen);
                        acts.push(
                            SegmentAction::StartLoadSegments {
                                token: self.segments_gen,
                                page_id: self.page_id,
                            },
                        );
                    } else {
                        acts.push(
                            SegmentAction::NotifySegmentError(SegmentError::UpdateGalleryFailed),
                        );
                    }
                }
            },
        }
        acts
    }
}

} // verus!
