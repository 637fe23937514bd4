//! Data model: credential entries, their metadata, the parsed form of the
//! vault file, and the error classes of the library.

use vstd::prelude::*;

verus! {

/// Optional descriptive data attached to a credential entry.
#[derive(Debug)]
pub struct Metadata {
    pub url: Option<String>,
    pub notes: Option<String>,
}

/// One credential entry of the vault.
#[derive(Debug)]
pub struct PasswordEntry {
    pub name: String,
    pub id: String,
    pub password: String,
    pub metadata: Metadata,
}

/// The three base64-encoded fields of the vault file.
#[derive(Debug)]
pub struct EncryptedFile {
    pub salt: String,
    pub nonce: String,
    pub encrypted_data: String,
}

/// Mathematical model of a [`Metadata`] value.
pub ghost struct MetadataView {
    pub url: Option<Seq<char>>,
    pub notes: Option<Seq<char>>,
}

/// Mathematical model of a [`PasswordEntry`] value.
pub ghost struct EntryView {
    pub name: Seq<char>,
    pub id: Seq<char>,
    pub password: Seq<char>,
    pub metadata: MetadataView,
}

impl View for Metadata {
    type V = MetadataView;

    open spec fn view(&self) -> MetadataView {
        MetadataView { url: self.url.deep_view(), notes: self.notes.deep_view() }
    }
}

impl DeepView for Metadata {
    type V = MetadataView;

    open spec fn deep_view(&self) -> MetadataView {
        self.view()
    }
}

impl View for PasswordEntry {
    type V = EntryView;

    open spec fn view(&self) -> EntryView {
        EntryView {
            name: self.name@,
            id: self.id@,
            password: self.password@,
            metadata: self.metadata@,
        }
    }
}

impl DeepView for PasswordEntry {
    type V = EntryView;

    open spec fn deep_view(&self) -> EntryView {
        self.view()
    }
}

impl Default for Metadata {
    fn default() -> (r: Metadata)
        ensures
            r@.url is None,
            r@.notes is None,
    {
        Metadata { url: None, notes: None }
    }
}

impl Clone for Metadata {
    fn clone(&self) -> (r: Metadata)
        ensures
            r@ == self@,
    {
        Metadata {
            url: match &self.url {
                Some(u) => Some(u.clone()),
                None => None,
            },
            notes: match &self.notes {
                Some(n) => Some(n.clone()),
                None => None,
            },
        }
    }
}

impl Clone for PasswordEntry {
    fn clone(&self) -> (r: PasswordEntry)
        ensures
            r@ == self@,
    {
        PasswordEntry {
            name: self.name.clone(),
            id: self.id.clone(),
            password: self.password.clone(),
            metadata: self.metadata.clone(),
        }
    }
}

/// The entry list without the entries named `name`.
pub open spec fn spec_remove_named(es: Seq<EntryView>, name: Seq<char>) -> Seq<EntryView>
    decreases es.len(),
{
    if es.len() == 0 {
        Seq::empty()
    } else if es[0].name == name {
        spec_remove_named(es.drop_first(), name)
    } else {
        seq![es[0]] + spec_remove_named(es.drop_first(), name)
    }
}

/// Whether some entry carries the name.
pub open spec fn spec_has_named(es: Seq<EntryView>, name: Seq<char>) -> bool {
    exists|i: int| 0 <= i < es.len() && (#[trigger] es[i]).name == name
}

/// Removes every entry named `name`; yields nothing when no entry
/// carries that name, so the caller can report it.
pub fn remove_by_name(entries: Vec<PasswordEntry>, name: &str) -> (r: Option<Vec<PasswordEntry>>)
    ensures
        r is Some <==> spec_has_named(entries.deep_view(), name@),
        r matches Some(kept) ==> kept.deep_view() == spec_remove_named(
            entries.deep_view(),
            name@,
        ),
{
    let ghost ev = entries.deep_view();
    let mut kept: Vec<PasswordEntry> = Vec::new();
    let mut removed: bool = false;
    let mut i: usize = 0;
    proof {
        assert(ev.skip(0) =~= ev);
        assert(kept.deep_view() =~= Seq::<EntryView>::empty());
    }
    while i < entries.len()
        invariant
            i <= entries@.len(),
            ev == entries.deep_view(),
            ev.len() == entries@.len(),
            kept.deep_view() + spec_remove_named(ev.skip(i as int), name@) =~= spec_remove_named(
                ev,
                name@,
            ),
            removed == spec_has_named(ev.take(i as int), name@),
        decreases entries@.len() - i,
    {
        proof {
            assert(ev.skip(i as int)[0] == ev[i as int]);
            assert(ev.skip(i as int).drop_first() =~= ev.skip(i + 1));
            assert(ev.take(i + 1) =~= ev.take(i as int).push(ev[i as int]));
        }
        let e = &entries[i];
        if crate::text::str_is(e.name.as_str(), name) {
            removed = true;
            proof {
                assert(ev.take(i + 1)[i as int].name == name@);
            }
        } else {
            let ghost kv = kept.deep_view();
            kept.push(e.clone());
            proof {
                assert(kept.deep_view() =~= kv.push(ev[i as int]));
                assert(kv.push(ev[i as int]) + spec_remove_named(ev.skip(i + 1), name@) =~= kv + (
                seq![ev[i as int]] + spec_remove_named(ev.skip(i + 1), name@)));
            }
        }
        proof {
            if removed {
                if spec_has_named(ev.take(i as int), name@) {
                    let j = choose|j: int|
                        0 <= j < ev.take(i as int).len() && (#[trigger] ev.take(i as int)[j]).name
                            == name@;
                    assert(ev.take(i + 1)[j].name == name@);
                } else {
                    assert(ev.take(i + 1)[i as int].name == name@);
                }
                assert(spec_has_named(ev.take(i + 1), name@));
            } else {
                assert forall|j: int| 0 <= j < i + 1 implies (#[trigger] ev.take(i + 1)[j]).name
                    != name@ by {
                    if j < i {
                        assert(ev.take(i as int)[j] == ev.take(i + 1)[j]);
                        assert(!spec_has_named(ev.take(i as int), name@));
                    }
                }
            }
        }
        i = i + 1;
    }
    proof {
        assert(ev.skip(i as int).len() == 0);
        assert(spec_remove_named(ev.skip(i as int), name@) =~= Seq::<EntryView>::empty());
        assert(kept.deep_view() =~= spec_remove_named(ev, name@));
        assert(ev.take(i as int) =~= ev);
    }
    if removed {
        Some(kept)
    } else {
        None
    }
}

/// The error classes of the library.
///
/// `Decryption` doubles as the signal for "wrong password or corrupted
/// vault"; the two cases are deliberately not distinguished.
#[derive(Clone, Copy, Debug, PartialEq, Eq, Structural)]
pub enum VaultError {
    /// Key derivation failed (bad salt length or a KDF-level failure).
    KeyDerivation,
    /// The authenticated cipher refused to encrypt.
    Encryption,
    /// Authentication failed on decrypt, or the file is malformed.
    Decryption,
    /// The backing file could not be read or written.
    Io,
    /// The daemon was unreachable or answered with a malformed message.
    Ipc,
    /// Local state claims unlocked but the backing vault is unusable.
    StateInconsistent,
}

/// The description `message` returns for each error class.
pub open spec fn spec_message(e: VaultError) -> Seq<char> {
    match e {
        VaultError::KeyDerivation => "key derivation failed"@,
        VaultError::Encryption => "encryption failed"@,
        VaultError::Decryption => "invalid password or corrupt file"@,
        VaultError::Io => "file could not be read or written"@,
        VaultError::Ipc => "daemon unreachable or answered badly"@,
        VaultError::StateInconsistent => "state is inconsistent; unlock again"@,
    }
}

impl VaultError {
    /// A short human-readable description of the error class.
    pub fn message(&self) -> (r: &'static str)
        ensures
            r@ == spec_message(*self),
    {
        match self {
            VaultError::KeyDerivation => "key derivation failed",
            VaultError::Encryption => "encryption failed",
            VaultError::Decryption => "invalid password or corrupt file",
            VaultError::Io => "file could not be read or written",
            VaultError::Ipc => "daemon unreachable or answered badly",
            VaultError::StateInconsistent => "state is inconsistent; unlock again",
        }
    }
}

} // verus!
