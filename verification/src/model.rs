//! The data model: menus, menu entries, entry content, and the payload a
//! settings dialog hands back on save.

use vstd::prelude::*;

verus! {

/// A menu as the remote store lists it: an id, a display name, and an
/// optional logo reference.
#[derive(Clone)]
pub struct Menu {
    pub id: usize,
    pub name: String,
    pub logo: Option<MenuLogo>,
}

/// The logo attached to a menu: a stored file's id and name.
#[derive(Clone)]
pub struct MenuLogo {
    pub id: usize,
    pub name: String,
}

/// The content carried by one menu entry. Exactly one variant is set per
/// entry; it decides which settings dialog applies and which nesting
/// affordances the entry offers. A link carries an optional route shown as a
/// path.
#[derive(Clone)]
pub enum EntryContent {
    Gallery,
    Page,
    SegmentPage,
    ArtistProfile,
    Link(Option<String>),
    Group,
}

/// Which settings dialog form applies: one per content kind.
#[derive(Clone, Copy, Debug, PartialEq, Eq, Structural)]
pub enum DialogKind {
    Gallery,
    Page,
    SegmentPage,
    ArtistProfile,
    Link,
    Group,
}

/// One node of the menu forest. `position` is the order key among siblings:
/// unique within a sibling group and ascending in render order, not
/// necessarily contiguous. `children` is the entry's own sibling group,
/// ordered by position.
pub struct MenuEntry {
    pub id: usize,
    pub title: String,
    pub position: usize,
    pub highlighted: bool,
    pub content: EntryContent,
    pub children: Vec<MenuEntry>,
}

/// What a settings dialog hands back on save: the fields of an entry that the
/// editor may set. Placement (parent and position) is resolved separately by
/// the drop gesture.
#[derive(Clone)]
pub struct EntryPayload {
    pub title: String,
    pub highlighted: bool,
    pub content: EntryContent,
}

/// The settings dialog kind that edits the given content.
pub open spec fn dialog_kind_of(c: EntryContent) -> DialogKind {
    match c {
        EntryContent::Gallery => DialogKind::Gallery,
        EntryContent::Page => DialogKind::Page,
        EntryContent::SegmentPage => DialogKind::SegmentPage,
        EntryContent::ArtistProfile => DialogKind::ArtistProfile,
        EntryContent::Link(_) => DialogKind::Link,
        EntryContent::Group => DialogKind::Group,
    }
}

/// Picks the settings dialog that edits this content, as an edit click does.
pub fn dialog_kind_for(c: &EntryContent) -> (k: DialogKind)
    ensures
        k == dialog_kind_of(*c),
{
    match c {
        EntryContent::Gallery => DialogKind::Gallery,
        EntryContent::Page => DialogKind::Page,
        EntryContent::SegmentPage => DialogKind::SegmentPage,
        EntryContent::ArtistProfile => DialogKind::ArtistProfile,
        EntryContent::Link(_) => DialogKind::Link,
        EntryContent::Group => DialogKind::Group,
    }
}

} // verus!
