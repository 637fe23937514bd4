//! The client-side state manager used when a session daemon may be
//! running: it arbitrates between the local cached unlock state and the
//! daemon's canonical state.
//!
//! The daemon is only ever consulted through a bounded probe whose
//! outcome is handed in as a [`DaemonProbe`]; the socket work, the worker
//! thread and the timeout live outside the library. The decision taken
//! for every probe outcome is fixed here, so "no daemon reachable means
//! locked" is a proved property, not a convention.

use vstd::prelude::*;

use crate::codec::{load_passwords_with_key, load_with_key_spec};
use crate::ipc::DaemonState;
use crate::models::{EntryView, PasswordEntry, VaultError};

verus! {

/// The locally cached unlock state of one client process: a best-effort
/// copy, never the source of truth while a daemon is reachable.
pub struct AppState {
    pub unlocked: bool,
    pub passwords: Vec<PasswordEntry>,
    pub encryption_key: [u8; 32],
    pub salt: Vec<u8>,
}

/// Mathematical model of an [`AppState`].
pub ghost struct AppStateView {
    pub unlocked: bool,
    pub passwords: Seq<EntryView>,
    pub encryption_key: Seq<u8>,
    pub salt: Seq<u8>,
}

impl View for AppState {
    type V = AppStateView;

    open spec fn view(&self) -> AppStateView {
        AppStateView {
            unlocked: self.unlocked,
            passwords: self.passwords.deep_view(),
            encryption_key: self.encryption_key@,
            salt: self.salt@,
        }
    }
}

/// What probing the daemon yielded. The probe is bounded by a short
/// timeout; when it passes without an answer the daemon counts as
/// unreachable.
pub enum DaemonProbe {
    /// The socket file does not exist: no daemon is running.
    NoSocket,
    /// The socket exists but connecting or asking timed out or failed.
    Unreachable,
    /// The daemon answered with its state.
    Replied(DaemonState),
}

/// Whether a probe outcome reports an unlocked daemon.
pub open spec fn probe_unlocked(p: &DaemonProbe) -> bool {
    match p {
        DaemonProbe::Replied(d) => d@.unlocked,
        _ => false,
    }
}

/// Whether a probe outcome positively reports a locked daemon (an
/// unreachable daemon reports nothing).
pub open spec fn probe_locked(p: &DaemonProbe) -> bool {
    match p {
        DaemonProbe::Replied(d) => !d@.unlocked,
        _ => false,
    }
}

/// The decision `is_unlocked` takes: a local unlocked cache is trusted
/// unless the daemon positively reports locked; without a local cache
/// only a daemon that positively reports unlocked counts. No daemon and
/// no cache means locked.
pub open spec fn spec_is_unlocked(local_unlocked: bool, p: &DaemonProbe) -> bool {
    if local_unlocked {
        !probe_locked(p)
    } else {
        probe_unlocked(p)
    }
}

/// The per-process arbiter of unlock state.
pub struct StateManager {
    pub state: Option<AppState>,
}

impl StateManager {
    /// Whether the local cache holds an unlocked state.
    pub open spec fn local_unlocked(&self) -> bool {
        match self.state {
            Some(st) => st.unlocked,
            None => false,
        }
    }

    /// A fresh manager holds no state.
    pub fn new() -> (r: StateManager)
        ensures
            r.state is None,
    {
        StateManager { state: None }
    }

    /// Decides whether the store counts as unlocked, given the probe's
    /// outcome, and invalidates the local cache when the daemon
    /// positively reports locked (a daemon-side auto-lock). With no
    /// daemon reachable and no local cache this is always `false`.
    pub fn is_unlocked(&mut self, probe: &DaemonProbe) -> (r: bool)
        ensures
            r == spec_is_unlocked(old(self).local_unlocked(), probe),
            old(self).local_unlocked() && probe_locked(probe) ==> final(self).state is None,
            !(old(self).local_unlocked() && probe_locked(probe)) ==> final(self).state == old(
                self,
            ).state,
    {
        let local = match &self.state {
            Some(st) => st.unlocked,
            None => false,
        };
        if local {
            match probe {
                DaemonProbe::Replied(d) => {
                    if !d.unlocked {
                        self.state = None;
                        false
                    } else {
                        true
                    }
                },
                _ => true,
            }
        } else {
            match probe {
                DaemonProbe::Replied(d) => d.unlocked,
                _ => false,
            }
        }
    }

    /// Adopts the daemon's unlocked state: takes the daemon's key and
    /// salt and re-reads the vault file image locally (each client
    /// decrypts for itself; the entry list never crosses the channel).
    /// Fails with `Ipc` when the daemon state carries no usable key, and
    /// with the decoder's error when the vault cannot be read with it.
    pub fn sync_from_daemon(&mut self, daemon_state: &DaemonState, vault_file: &[u8]) -> (r:
        Result<(), VaultError>)
        ensures
            !(daemon_state@.unlocked && (daemon_state@.encryption_key matches Some(k) && k.len()
                == 32) && daemon_state@.salt is Some) ==> r == Err::<(), VaultError>(
                VaultError::Ipc,
            ) && final(self).state == old(self).state,
            (daemon_state@.unlocked && (daemon_state@.encryption_key matches Some(k) && k.len()
                == 32) && daemon_state@.salt is Some) ==> match load_with_key_spec(
                vault_file@,
                daemon_state@.encryption_key->0,
            ) {
                Ok(es) => r is Ok && (final(self).state matches Some(st) && st@ == (AppStateView {
                    unlocked: true,
                    passwords: es,
                    encryption_key: daemon_state@.encryption_key->0,
                    salt: daemon_state@.salt->0,
                })),
                Err(e) => r == Err::<(), VaultError>(e) && final(self).state == old(self).state,
            },
    {
        if !daemon_state.unlocked {
            return Err(VaultError::Ipc);
        }
        let key_vec = match &daemon_state.encryption_key {
            Some(k) => k,
            None => {
                return Err(VaultError::Ipc);
            },
        };
        let salt = match &daemon_state.salt {
            Some(s) => s,
            None => {
                return Err(VaultError::Ipc);
            },
        };
        if key_vec.len() != 32 {
            return Err(VaultError::Ipc);
        }
        let mut key = [0u8; 32];
        let mut i: usize = 0;
        while i < 32
            invariant
                i <= 32,
                key_vec@.len() == 32,
                forall|j: int| 0 <= j < i ==> key@[j] == key_vec@[j],
            decreases 32 - i,
        {
            key[i] = key_vec[i];
            i = i + 1;
        }
        proof {
            assert(key@ =~= key_vec@);
            assert(key_vec.deep_view() =~= key_vec@);
        }
        match load_passwords_with_key(vault_file, &key, salt.as_slice()) {
            Ok(passwords) => {
                self.state = Some(
                    AppState {
                        unlocked: true,
                        passwords,
                        encryption_key: key,
                        salt: salt.clone(),
                    },
                );
                proof {
                    assert(daemon_state@.salt->0 =~= salt@);
                }
                Ok(())
            },
            Err(e) => Err(e),
        }
    }

    /// Writes the unlocked state through to the local cache. The caller
    /// pushes the password to a running daemon separately
    /// (fire-and-forget: a failed push must not fail the local unlock,
    /// so this function cannot fail).
    pub fn unlock(
        &mut self,
        passwords: Vec<PasswordEntry>,
        key: [u8; 32],
        salt: Vec<u8>,
        password_opt: Option<&str>,
    ) -> (r: Result<(), VaultError>)
        ensures
            r is Ok,
            (final(self).state matches Some(st) && st@ == (AppStateView {
                unlocked: true,
                passwords: passwords.deep_view(),
                encryption_key: key@,
                salt: salt@,
            })),
    {
        let _ = password_opt;
        self.state = Some(AppState { unlocked: true, passwords, encryption_key: key, salt });
        Ok(())
    }

    /// The current state, when one is cached. `Err` is the "state not
    /// initialized" signal; the caller syncs from the daemon first when
    /// it can.
    pub fn get_state(&self) -> (r: Result<&AppState, VaultError>)
        ensures
            r is Ok <==> self.state is Some,
            r matches Ok(st) ==> (self.state matches Some(s) && st@ == s@),
            r matches Err(e) ==> e == VaultError::StateInconsistent,
    {
        match &self.state {
            Some(st) => Ok(st),
            None => Err(VaultError::StateInconsistent),
        }
    }

    /// Drops the local cache. Always succeeds: local denial of secret
    /// access takes precedence over remote consistency, so the caller's
    /// best-effort daemon lock may fail without failing this.
    pub fn lock(&mut self) -> (r: Result<(), VaultError>)
        ensures
            r is Ok,
            final(self).state is None,
    {
        self.state = None;
        Ok(())
    }
}

/// With no daemon process reachable (no socket, or no answer within the
/// timeout) and no local cache, the store reports locked.
pub proof fn lemma_no_daemon_means_locked(p: &DaemonProbe)
    requires
        !(p is Replied),
    ensures
        !spec_is_unlocked(false, p),
{
}

} // verus!
