//! The state manager used without a daemon: it reconciles the in-memory
//! state with the encrypted session-state mirror and key cache on disk.
//!
//! File reading, password prompting and file writing stay outside the
//! library; each operation takes the relevant file images and hands back
//! the images to write.

use vstd::prelude::*;

use crate::codec::{load_passwords, load_vault_spec};
use crate::models::{EntryView, PasswordEntry, VaultError};
use crate::store::{load_key, load_key_spec, load_state, load_state_spec};

verus! {

/// The in-memory unlock state of this process.
pub struct AppState {
    pub unlocked: bool,
    pub passwords: Vec<PasswordEntry>,
    pub encryption_key: [u8; 32],
    pub salt: Vec<u8>,
}

/// Mathematical model of an [`AppState`].
pub ghost struct AppStateView {
    pub unlocked: bool,
    pub passwords: Seq<EntryView>,
    pub encryption_key: Seq<u8>,
    pub salt: Seq<u8>,
}

impl View for AppState {
    type V = AppStateView;

    open spec fn view(&self) -> AppStateView {
        AppStateView {
            unlocked: self.unlocked,
            passwords: self.passwords.deep_view(),
            encryption_key: self.encryption_key@,
            salt: self.salt@,
        }
    }
}

/// The state an unlock with this vault and password reaches.
pub open spec fn unlocked_view(file: Seq<u8>, password: Seq<char>) -> AppStateView {
    let ok = load_vault_spec(file, password)->Ok_0;
    AppStateView { unlocked: true, passwords: ok.0, encryption_key: ok.1, salt: ok.2 }
}

/// The per-process state manager backed by the on-disk mirror.
pub struct StateManager {
    pub state: Option<AppState>,
}

impl StateManager {
    /// Whether the in-memory state is unlocked.
    pub open spec fn local_unlocked(&self) -> bool {
        match self.state {
            Some(st) => st.unlocked,
            None => false,
        }
    }

    /// A fresh manager holds no state.
    pub fn new() -> (r: StateManager)
        ensures
            r.state is None,
    {
        StateManager { state: None }
    }

    /// Whether the store counts as unlocked: an unlocked in-memory state
    /// counts; otherwise the session-state mirror decides, and a missing
    /// or unreadable mirror counts as locked.
    pub fn is_unlocked(&self, state_file: Option<&[u8]>) -> (r: bool)
        ensures
            r == (self.local_unlocked() || (match state_file {
                Some(f) => load_state_spec(f@) == Ok::<bool, VaultError>(true),
                None => false,
            })),
    {
        match &self.state {
            Some(st) => {
                if st.unlocked {
                    return true;
                }
            },
            None => {},
        }
        match state_file {
            Some(f) => {
                match load_state(f) {
                    Ok(b) => b,
                    Err(_) => false,
                }
            },
            None => false,
        }
    }

    /// Verifies the password by decrypting the vault and, on success,
    /// holds the unlocked state in memory. The caller then writes the
    /// session-state mirror (unlocked) and the key cache.
    pub fn unlock(&mut self, vault_file: &[u8], password: &str) -> (r: Result<(), VaultError>)
        ensures
            r is Ok <==> load_vault_spec(vault_file@, password@) is Ok,
            r is Ok ==> (final(self).state matches Some(st) && st@ == unlocked_view(
                vault_file@,
                password@,
            )),
            r matches Err(e) ==> load_vault_spec(vault_file@, password@) == Err::<
                (Seq<EntryView>, Seq<u8>, Seq<u8>),
                VaultError,
            >(e) && final(self).state == old(self).state,
    {
        match load_passwords(vault_file, password) {
            Ok((passwords, key, salt)) => {
                self.state = Some(
                    AppState { unlocked: true, passwords, encryption_key: key, salt },
                );
                Ok(())
            },
            Err(e) => Err(e),
        }
    }

    /// The current state. An unlocked in-memory state is returned as it
    /// is. Otherwise, when the mirror says unlocked, the cached master
    /// password recovers the vault; when it says locked or is missing,
    /// the caller must unlock first (`StateInconsistent`).
    pub fn get_state(
        &mut self,
        state_file: Option<&[u8]>,
        key_file: Option<&[u8]>,
        vault_file: &[u8],
    ) -> (r: Result<&AppState, VaultError>)
        ensures
            old(self).local_unlocked() ==> (r matches Ok(st) && old(self).state matches Some(s)
                && st@ == s@) && final(self).state == old(self).state,
            !old(self).local_unlocked() ==> match spec_mirror_unlock(
                opt_bytes_view(state_file),
                opt_bytes_view(key_file),
                vault_file@,
            ) {
                Ok(v) => (r matches Ok(st) && st@ == v) && (final(self).state matches Some(s)
                    && s@ == v),
                Err(e) => r == Err::<&AppState, VaultError>(e) && final(self).state == old(
                    self,
                ).state,
            },
    {
        let local = match &self.state {
            Some(st) => st.unlocked,
            None => false,
        };
        if !local {
            let mirror_unlocked = match state_file {
                Some(f) => match load_state(f) {
                    Ok(b) => b,
                    Err(_) => {
                        return Err(VaultError::StateInconsistent);
                    },
                },
                None => {
                    return Err(VaultError::StateInconsistent);
                },
            };
            if !mirror_unlocked {
                return Err(VaultError::StateInconsistent);
            }
            let password = match key_file {
                Some(f) => match load_key(f) {
                    Ok(p) => p,
                    Err(_) => {
                        return Err(VaultError::StateInconsistent);
                    },
                },
                None => {
                    return Err(VaultError::StateInconsistent);
                },
            };
            match load_passwords(vault_file, password.as_str()) {
                Ok((passwords, key, salt)) => {
                    self.state = Some(
                        AppState { unlocked: true, passwords, encryption_key: key, salt },
                    );
                },
                Err(e) => {
                    return Err(e);
                },
            }
        }
        match &self.state {
            Some(st) => Ok(st),
            None => Err(VaultError::StateInconsistent),
        }
    }

    /// Verifies the password against the vault, then drops the in-memory
    /// state. The caller writes the mirror (locked) and deletes the key
    /// cache.
    pub fn lock(&mut self, vault_file: &[u8], password: &str) -> (r: Result<(), VaultError>)
        ensures
            r is Ok <==> load_vault_spec(vault_file@, password@) is Ok,
            r is Ok ==> final(self).state is None,
            r matches Err(e) ==> load_vault_spec(vault_file@, password@) == Err::<
                (Seq<EntryView>, Seq<u8>, Seq<u8>),
                VaultError,
            >(e) && final(self).state == old(self).state,
    {
        match load_passwords(vault_file, password) {
            Ok(_) => {
                self.state = None;
                Ok(())
            },
            Err(e) => Err(e),
        }
    }
}

/// The views of optional file images.
pub open spec fn opt_bytes_view(o: Option<&[u8]>) -> Option<Seq<u8>> {
    match o {
        Some(b) => Some(b@),
        None => None,
    }
}

/// What recovering the state through the mirror and key cache yields: the
/// mirror must read back unlocked, the key cache must hold the password,
/// and the vault must decrypt with it. A locked or unusable mirror or
/// cache forces a fresh unlock.
pub open spec fn spec_mirror_unlock(
    state_file: Option<Seq<u8>>,
    key_file: Option<Seq<u8>>,
    vault_file: Seq<u8>,
) -> Result<AppStateView, VaultError> {
    match state_file {
        None => Err(VaultError::StateInconsistent),
        Some(sf) => {
            if load_state_spec(sf) != Ok::<bool, VaultError>(true) {
                Err(VaultError::StateInconsistent)
            } else {
                match key_file {
                    None => Err(VaultError::StateInconsistent),
                    Some(kf) => match load_key_spec(kf) {
                        Err(_) => Err(VaultError::StateInconsistent),
                        Ok(password) => match load_vault_spec(vault_file, password) {
                            Ok(_) => Ok(unlocked_view(vault_file, password)),
                            Err(e) => Err(e),
                        },
                    },
                }
            }
        },
    }
}

} // verus!
