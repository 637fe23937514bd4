//! The input and confirmation dialogs of the terminal interface: field
//! navigation, text editing, and conversion back to an entry.
//!
//! Rendering is not the library's business; the state the dialogs carry
//! and the edits applied to it are, and they are verified here.

use vstd::prelude::*;

use crate::models::{Metadata, PasswordEntry};
use crate::text::string_of_chars;

verus! {

/// Which dialog is open.
pub enum ModalType {
    Confirm(ConfirmationType),
    Input(InputType),
}

/// What a confirmation dialog confirms.
pub enum ConfirmationType {
    Delete,
    BulkDelete,
}

/// What an input dialog edits.
pub enum InputType {
    Edit,
    Create,
}

/// One labelled text field of an input dialog.
pub struct InputField {
    pub label: String,
    pub value: String,
    pub is_password: bool,
}

/// A dialog: its kind, title and text, the entry it concerns, and its
/// input fields with the index of the active one.
pub struct Modal {
    pub typ: ModalType,
    pub title: String,
    pub content: String,
    pub entry: Option<PasswordEntry>,
    pub input_fields: Vec<InputField>,
    pub active_field: usize,
}

impl Modal {
    /// A confirmation dialog: no input fields.
    pub fn new_confirmation(
        typ: ConfirmationType,
        title: String,
        content: String,
        entry: Option<PasswordEntry>,
    ) -> (r: Modal)
        ensures
            r.typ matches ModalType::Confirm(t) && t == typ,
            r.title@ == title@,
            r.content@ == content@,
            r.input_fields@.len() == 0,
            r.active_field == 0,
            r.entry == entry,
    {
        Modal {
            typ: ModalType::Confirm(typ),
            title,
            content,
            entry,
            input_fields: Vec::new(),
            active_field: 0,
        }
    }

    /// An input dialog: five fields (name, id, password, URL, notes),
    /// primed from the entry when one is given, empty otherwise; only
    /// the password field is masked.
    pub fn new_input(typ: InputType, title: String, entry: Option<PasswordEntry>) -> (r: Modal)
        ensures
            r.typ matches ModalType::Input(t) && t == typ,
            r.title@ == title@,
            r.content@.len() == 0,
            r.active_field == 0,
            r.input_fields@.len() == 5,
            r.input_fields@[2].is_password && !r.input_fields@[0].is_password
                && !r.input_fields@[1].is_password && !r.input_fields@[3].is_password
                && !r.input_fields@[4].is_password,
            r.input_fields@[0].label@ == "Name"@ && r.input_fields@[1].label@ == "ID"@
                && r.input_fields@[2].label@ == "Password"@ && r.input_fields@[3].label@
                == "URL"@ && r.input_fields@[4].label@ == "Notes"@,
            r.entry == entry,
            match entry {
                Some(e) => {
                    &&& r.input_fields@[0].value@ == e@.name
                    &&& r.input_fields@[1].value@ == e@.id
                    &&& r.input_fields@[2].value@ == e@.password
                    &&& r.input_fields@[3].value@ == (match e@.metadata.url {
                        Some(u) => u,
                        None => Seq::<char>::empty(),
                    })
                    &&& r.input_fields@[4].value@ == (match e@.metadata.notes {
                        Some(n) => n,
                        None => Seq::<char>::empty(),
                    })
                },
                None => forall|i: int| 0 <= i < 5 ==> r.input_fields@[i].value@.len() == 0,
            },
    {
        let mut input_fields: Vec<InputField> = Vec::new();
        match &entry {
            Some(e) => {
                let url = match &e.metadata.url {
                    Some(u) => u.clone(),
                    None => String::new(),
                };
                let notes = match &e.metadata.notes {
                    Some(n) => n.clone(),
                    None => String::new(),
                };
                input_fields.push(
                    InputField { label: label_text("Name"), value: e.name.clone(), is_password: false },
                );
                input_fields.push(
                    InputField { label: label_text("ID"), value: e.id.clone(), is_password: false },
                );
                input_fields.push(
                    InputField {
                        label: label_text("Password"),
                        value: e.password.clone(),
                        is_password: true,
                    },
                );
                input_fields.push(
                    InputField { label: label_text("URL"), value: url, is_password: false },
                );
                input_fields.push(
                    InputField { label: label_text("Notes"), value: notes, is_password: false },
                );
            },
            None => {
                input_fields.push(
                    InputField { label: label_text("Name"), value: String::new(), is_password: false },
                );
                input_fields.push(
                    InputField { label: label_text("ID"), value: String::new(), is_password: false },
                );
                input_fields.push(
                    InputField {
                        label: label_text("Password"),
                        value: String::new(),
                        is_password: true,
                    },
                );
                input_fields.push(
                    InputField { label: label_text("URL"), value: String::new(), is_password: false },
                );
                input_fields.push(
                    InputField { label: label_text("Notes"), value: String::new(), is_password: false },
                );
            },
        }
        Modal {
            typ: ModalType::Input(typ),
            title,
            content: String::new(),
            entry,
            input_fields,
            active_field: 0,
        }
    }

    /// Moves to the next field, wrapping around.
    pub fn next_field(&mut self)
        requires
            old(self).active_field < old(self).input_fields@.len(),
        ensures
            final(self).active_field == (old(self).active_field + 1) % old(
                self,
            ).input_fields@.len() as int,
            final(self).input_fields == old(self).input_fields,
            final(self).typ == old(self).typ,
    {
        let n = self.input_fields.len();
        self.active_field = (self.active_field + 1) % n;
    }

    /// Moves to the previous field, wrapping around.
    pub fn prev_field(&mut self)
        requires
            old(self).input_fields@.len() > 0,
        ensures
            final(self).active_field == if old(self).active_field == 0 {
                old(self).input_fields@.len() - 1
            } else {
                old(self).active_field - 1
            },
            final(self).input_fields == old(self).input_fields,
            final(self).typ == old(self).typ,
    {
        self.active_field = if self.active_field == 0 {
            self.input_fields.len() - 1
        } else {
            self.active_field - 1
        };
    }

    /// Appends a typed character to the active field; out-of-range
    /// active indices type nowhere.
    pub fn handle_input(&mut self, c: char)
        ensures
            old(self).active_field < old(self).input_fields@.len() ==> {
                let i = old(self).active_field as int;
                &&& final(self).input_fields@.len() == old(self).input_fields@.len()
                &&& final(self).input_fields@[i].value@ == old(
                    self,
                ).input_fields@[i].value@.push(c)
                &&& final(self).input_fields@[i].label == old(self).input_fields@[i].label
                &&& final(self).input_fields@[i].is_password == old(
                    self,
                ).input_fields@[i].is_password
                &&& forall|j: int|
                    0 <= j < old(self).input_fields@.len() && j != i
                        ==> final(self).input_fields@[j] == old(self).input_fields@[j]
            },
            old(self).active_field >= old(self).input_fields@.len() ==> *final(self) == *old(
                self,
            ),
            final(self).active_field == old(self).active_field,
    {
        if self.active_field < self.input_fields.len() {
            let i = self.active_field;
            let mut field = self.input_fields.remove(i);
            string_push(&mut field.value, c);
            self.input_fields.insert(i, field);
            proof {
                assert(self.input_fields@ =~= old(self).input_fields@.update(
                    i as int,
                    self.input_fields@[i as int],
                ));
            }
        }
    }

    /// Removes the last character of the active field, if any.
    pub fn handle_backspace(&mut self)
        ensures
            old(self).active_field < old(self).input_fields@.len() ==> {
                let i = old(self).active_field as int;
                &&& final(self).input_fields@.len() == old(self).input_fields@.len()
                &&& final(self).input_fields@[i].value@ == (if old(
                    self,
                ).input_fields@[i].value@.len() == 0 {
                    old(self).input_fields@[i].value@
                } else {
                    old(self).input_fields@[i].value@.drop_last()
                })
                &&& final(self).input_fields@[i].label == old(self).input_fields@[i].label
                &&& final(self).input_fields@[i].is_password == old(
                    self,
                ).input_fields@[i].is_password
                &&& forall|j: int|
                    0 <= j < old(self).input_fields@.len() && j != i
                        ==> final(self).input_fields@[j] == old(self).input_fields@[j]
            },
            old(self).active_field >= old(self).input_fields@.len() ==> *final(self) == *old(
                self,
            ),
            final(self).active_field == old(self).active_field,
    {
        if self.active_field < self.input_fields.len() {
            let i = self.active_field;
            let mut field = self.input_fields.remove(i);
            string_pop(&mut field.value);
            self.input_fields.insert(i, field);
            proof {
                assert(self.input_fields@ =~= old(self).input_fields@.update(
                    i as int,
                    self.input_fields@[i as int],
                ));
            }
        }
    }

    /// Reads the edited entry back out of the five fields; the URL and
    /// notes come back as present-but-possibly-empty metadata.
    pub fn to_password_entry(&self) -> (r: Option<PasswordEntry>)
        ensures
            r is Some <==> self.input_fields@.len() >= 5,
            r matches Some(e) ==> {
                &&& e@.name == self.input_fields@[0].value@
                &&& e@.id == self.input_fields@[1].value@
                &&& e@.password == self.input_fields@[2].value@
                &&& e@.metadata.url == Some(self.input_fields@[3].value@)
                &&& e@.metadata.notes == Some(self.input_fields@[4].value@)
            },
    {
        if self.input_fields.len() < 5 {
            return None;
        }
        Some(
            PasswordEntry {
                name: self.input_fields[0].value.clone(),
                id: self.input_fields[1].value.clone(),
                password: self.input_fields[2].value.clone(),
                metadata: Metadata {
                    url: Some(self.input_fields[3].value.clone()),
                    notes: Some(self.input_fields[4].value.clone()),
                },
            },
        )
    }
}

/// An owned field label.
fn label_text(s: &str) -> (r: String)
    ensures
        r@ == s@,
{
    s.to_owned()
}

/// Appends one character to a string.
fn string_push(s: &mut String, c: char)
    ensures
        final(s)@ == old(s)@.push(c),
{
    let mut cs = crate::text::chars_of(s.as_str());
    cs.push(c);
    let r = string_of_chars(&cs);
    *s = r;
}

/// Removes the last character of a string, if any.
fn string_pop(s: &mut String)
    ensures
        final(s)@ == (if old(s)@.len() == 0 {
            old(s)@
        } else {
            old(s)@.drop_last()
        }),
{
    let mut cs = crate::text::chars_of(s.as_str());
    if cs.len() > 0 {
        let _ = cs.pop();
        proof {
            assert(cs@ =~= old(s)@.drop_last());
        }
    }
    let r = string_of_chars(&cs);
    *s = r;
}

} // verus!
