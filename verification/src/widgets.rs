//! The legacy dialog record of the terminal interface, kept alongside the
//! newer field-based dialogs.

use vstd::prelude::*;

use crate::models::PasswordEntry;

verus! {

/// What the legacy dialog does.
pub enum ModalType {
    Edit,
    Create,
    Delete,
}

/// A legacy dialog: its kind, texts, and the entry it concerns.
pub struct Modal {
    pub typ: ModalType,
    pub title: String,
    pub content: String,
    pub entry: Option<PasswordEntry>,
}

impl Modal {
    /// Bundles the dialog's parts.
    pub fn new(
        typ: ModalType,
        title: String,
        content: String,
        entry: Option<PasswordEntry>,
    ) -> (r: Modal)
        ensures
            r.typ == typ,
            r.title@ == title@,
            r.content@ == content@,
            r.entry == entry,
    {
        Modal { typ, title, content, entry }
    }
}

} // verus!
