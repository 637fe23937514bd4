//! The session daemon's state machine: the canonical in-memory unlock
//! state, the per-connection request handling, and the session-monitor
//! transitions.
//!
//! The daemon's process plumbing (the socket, the threads, daemonizing)
//! lives outside the library; every decision the daemon takes is here,
//! as a function from its state and the incoming event to its next state
//! and answer.

use vstd::prelude::*;

use crate::codec::{load_vault_spec, load_passwords};
use crate::ipc::{
    encode_response, locked_state, parse_command, ser_response, sp_command, state_consistent,
    CommandView, DaemonCommand, DaemonResponse, DaemonState, DaemonStateView, ResponseView,
};
use crate::models::{spec_message, EntryView, VaultError};
use crate::text::chars_of;

verus! {

/// Whether the user's desktop session is active or has gone away (locked
/// screen, logout). Best-effort signal, not a security boundary.
#[derive(Clone, Copy, Debug, PartialEq, Eq, Structural)]
pub enum SessionStatus {
    Active,
    Inactive,
}

/// The state after a session-status report: inactivity locks, activity
/// alone never restores secrets.
pub open spec fn session_step(s: DaemonStateView, status: SessionStatus) -> DaemonStateView {
    match status {
        SessionStatus::Inactive => locked_state(),
        SessionStatus::Active => s,
    }
}

/// The monitor reports only transitions, not every poll.
pub fn should_report(last: &SessionStatus, current: &SessionStatus) -> (r: bool)
    ensures
        r == (last != current),
{
    match (last, current) {
        (SessionStatus::Active, SessionStatus::Active) => false,
        (SessionStatus::Inactive, SessionStatus::Inactive) => false,
        _ => true,
    }
}

/// Reads the platform session report: the session counts as active
/// exactly when the report contains the word "active".
pub fn session_status_of_report(report: &str) -> (r: SessionStatus)
    ensures
        r == SessionStatus::Active <==> contains_at_some(report@, "active"@),
{
    let cs = chars_of(report);
    let needle = chars_of("active");
    if cs.len() < needle.len() {
        proof {
            assert forall|k: int| !candidate_at(report@, "active"@, k) by {
                if 0 <= k && k + "active"@.len() <= report@.len() {
                    assert(report@.len() >= "active"@.len());
                }
            }
        }
        return SessionStatus::Inactive;
    }
    let mut i: usize = 0;
    while i <= cs.len() - needle.len()
        invariant
            cs@ == report@,
            needle@ == "active"@,
            needle@.len() <= cs@.len(),
            i <= cs@.len(),
            forall|k: int| 0 <= k < i ==> !candidate_at(report@, "active"@, k),
        decreases cs@.len() - i,
    {
        let mut j: usize = 0;
        let mut hit: bool = true;
        while j < needle.len()
            invariant
                cs@ == report@,
                needle@ == "active"@,
                i + needle@.len() <= cs@.len(),
                cs@.len() <= usize::MAX,
                j <= needle@.len(),
                hit ==> (forall|t: int| 0 <= t < j ==> report@[i + t] == "active"@[t]),
                !hit ==> !candidate_at(report@, "active"@, i as int),
            decreases needle@.len() - j,
        {
            if cs[i + j] != needle[j] {
                proof {
                    assert(report@[i + j] != "active"@[j as int]);
                }
                hit = false;
                j = needle.len();
            } else {
                proof {
                    if hit {
                        assert(cs@[i + j] == needle@[j as int]);
                        assert(forall|t: int|
                            0 <= t < j + 1 ==> report@[i + t] == "active"@[t]);
                    }
                }
                j = j + 1;
            }
        }
        if hit {
            proof {
                assert(candidate_at(report@, "active"@, i as int));
            }
            return SessionStatus::Active;
        }
        i = i + 1;
    }
    proof {
        assert forall|k: int| !candidate_at(report@, "active"@, k) by {
            if 0 <= k && k + "active"@.len() <= report@.len() {
                assert(k < i);
            }
        }
    }
    SessionStatus::Inactive
}

/// `needle` occurs in `hay` at position `k`.
pub open spec fn candidate_at(hay: Seq<char>, needle: Seq<char>, k: int) -> bool {
    0 <= k && k + needle.len() <= hay.len() && (forall|t: int|
        0 <= t < needle.len() ==> hay[k + t] == needle[t])
}

/// `needle` occurs somewhere in `hay`.
pub open spec fn contains_at_some(hay: Seq<char>, needle: Seq<char>) -> bool {
    exists|k: int| candidate_at(hay, needle, k)
}

/// The long-lived daemon: the canonical unlock state and the accept
/// loop's run flag.
pub struct DaemonService {
    pub state: DaemonState,
    pub running: bool,
}

impl DaemonService {
    /// Starts from the persisted state mirror when one was readable,
    /// locked otherwise.
    pub fn new(loaded: Option<DaemonState>) -> (r: DaemonService)
        ensures
            r.running == true,
            match loaded {
                Some(s) => r.state@ == s@,
                None => r.state@ == locked_state(),
            },
    {
        let state = match loaded {
            Some(s) => s,
            None => DaemonState::default(),
        };
        DaemonService { state, running: true }
    }

    /// Asks the accept loop to wind down; connections in flight finish.
    pub fn stop(&mut self)
        ensures
            final(self).running == false,
            final(self).state == old(self).state,
    {
        self.running = false;
    }

    /// Attempts an unlock against the vault file image: on success the
    /// key and salt are held in memory and the state is unlocked; on
    /// failure nothing changes.
    pub fn perform_unlock(&mut self, vault_file: &[u8], password: &str) -> (r: Result<
        (),
        VaultError,
    >)
        ensures
            r is Ok <==> load_vault_spec(vault_file@, password@) is Ok,
            r is Ok ==> {
                let ok = load_vault_spec(vault_file@, password@)->Ok_0;
                &&& final(self).state@ == (DaemonStateView {
                    unlocked: true,
                    encryption_key: Some(ok.1),
                    salt: Some(ok.2),
                })
                &&& final(self).running == old(self).running
            },
            r is Err ==> *final(self) == *old(self),
            r matches Err(e) ==> load_vault_spec(vault_file@, password@) == Err::<
                (Seq<EntryView>, Seq<u8>, Seq<u8>),
                VaultError,
            >(e),
            r is Ok ==> state_consistent(final(self).state@),
    {
        match load_passwords(vault_file, password) {
            Ok((_, key, salt)) => {
                let kv = vstd::slice::slice_to_vec(key.as_slice());
                self.state = DaemonState {
                    unlocked: true,
                    encryption_key: Some(kv),
                    salt: Some(salt),
                };
                proof {
                    let ok = load_vault_spec(vault_file@, password@)->Ok_0;
                    assert(self.state@.encryption_key =~~= Some(ok.1));
                    assert(self.state@.salt =~~= Some(ok.2));
                }
                Ok(())
            },
            Err(e) => Err(e),
        }
    }

    /// Clears the key material and records the locked state.
    pub fn lock(&mut self)
        ensures
            final(self).state@ == locked_state(),
            final(self).running == old(self).running,
    {
        self.state = DaemonState::default();
    }

    /// Applies one session-status report: an inactive session locks and
    /// wipes; an active one changes nothing (activity alone never
    /// restores secrets).
    pub fn handle_session_change(&mut self, status: SessionStatus)
        ensures
            final(self).state@ == session_step(old(self).state@, status),
            final(self).running == old(self).running,
    {
        match status {
            SessionStatus::Inactive => {
                self.lock();
            },
            SessionStatus::Active => {},
        }
    }

    /// Answers one parsed command, as [`spec_respond`] says: `GetState`
    /// never mutates; `Lock` always answers `Success` and leaves the
    /// locked state; `Exit` only flips the run flag; `Unlock` consults
    /// the vault file image.
    pub fn respond(&mut self, cmd: &DaemonCommand, vault_file: &[u8]) -> (r: DaemonResponse)
        ensures
            ({
                let (st, running, resp) = spec_respond(
                    old(self).state@,
                    old(self).running,
                    cmd@,
                    vault_file@,
                );
                &&& final(self).state@ == st
                &&& final(self).running == running
                &&& r@ == resp
            }),
    {
        match cmd {
            DaemonCommand::GetState => DaemonResponse::StateInfo(self.state.clone()),
            DaemonCommand::Lock => {
                self.lock();
                DaemonResponse::Success
            },
            DaemonCommand::Exit => {
                self.running = false;
                DaemonResponse::Success
            },
            DaemonCommand::Unlock { password } => {
                match self.perform_unlock(vault_file, password.as_str()) {
                    Ok(()) => DaemonResponse::Success,
                    Err(e) => DaemonResponse::Error(e.message().to_owned()),
                }
            },
        }
    }

    /// Handles one raw request text: parses it, answers it as
    /// [`spec_respond`] says, and encodes the reply. A request that does
    /// not parse gets an error answer and changes nothing; it never
    /// brings the daemon down.
    pub fn handle_request(&mut self, request: &str, vault_file: &[u8]) -> (r: String)
        ensures
            match sp_command(request@) {
                Some(c) => {
                    let (st, running, resp) = spec_respond(
                        old(self).state@,
                        old(self).running,
                        c,
                        vault_file@,
                    );
                    &&& final(self).state@ == st
                    &&& final(self).running == running
                    &&& r@ == ser_response(resp)
                },
                None => *final(self) == *old(self) && r@ == ser_response(
                    ResponseView::Error("Invalid command"@),
                ),
            },
    {
        match parse_command(request) {
            Some(cmd) => {
                let resp = self.respond(&cmd, vault_file);
                encode_response(&resp)
            },
            None => {
                let resp = DaemonResponse::Error(invalid_command_text());
                encode_response(&resp)
            },
        }
    }
}

/// The answer to a request that does not parse.
fn invalid_command_text() -> (r: String)
    ensures
        r@ == "Invalid command"@,
{
    "Invalid command".to_owned()
}

// ---------------------------------------------------------------------------
// The protocol's step function and its laws.
// ---------------------------------------------------------------------------

/// The state after a successful unlock against a vault file.
pub open spec fn unlocked_from(vault: Seq<u8>, password: Seq<char>) -> DaemonStateView {
    let ok = load_vault_spec(vault, password)->Ok_0;
    DaemonStateView { unlocked: true, encryption_key: Some(ok.1), salt: Some(ok.2) }
}

/// What one command does to the daemon: the next state, the next run
/// flag, and the answer.
pub open spec fn spec_respond(
    st: DaemonStateView,
    running: bool,
    cmd: CommandView,
    vault: Seq<u8>,
) -> (DaemonStateView, bool, ResponseView) {
    match cmd {
        CommandView::GetState => (st, running, ResponseView::StateInfo(st)),
        CommandView::Lock => (locked_state(), running, ResponseView::Success),
        CommandView::Exit => (st, false, ResponseView::Success),
        CommandView::Unlock(password) => match load_vault_spec(vault, password) {
            Ok(_) => (unlocked_from(vault, password), running, ResponseView::Success),
            Err(e) => (st, running, ResponseView::Error(spec_message(e))),
        },
    }
}

/// `Lock` is idempotent: sent twice in a row, both times it answers
/// `Success`, and the state after each is the locked state with the key
/// material gone.
pub proof fn lemma_lock_idempotent(st: DaemonStateView, running: bool, vault: Seq<u8>)
    ensures
        spec_respond(st, running, CommandView::Lock, vault) == (
            locked_state(),
            running,
            ResponseView::Success,
        ),
        spec_respond(
            spec_respond(st, running, CommandView::Lock, vault).0,
            running,
            CommandView::Lock,
            vault,
        ) == (locked_state(), running, ResponseView::Success),
        state_consistent(locked_state()),
{
}

/// `GetState` never mutates: the state and the run flag come through
/// unchanged, and the answer is a snapshot of that same state.
pub proof fn lemma_get_state_pure(st: DaemonStateView, running: bool, vault: Seq<u8>)
    ensures
        spec_respond(st, running, CommandView::GetState, vault) == (
            st,
            running,
            ResponseView::StateInfo(st),
        ),
{
}

/// Every command and every session report preserves the state record's
/// invariant: key material is held exactly while unlocked.
pub proof fn lemma_steps_preserve_consistency(
    st: DaemonStateView,
    running: bool,
    cmd: CommandView,
    vault: Seq<u8>,
    status: SessionStatus,
)
    requires
        state_consistent(st),
    ensures
        state_consistent(spec_respond(st, running, cmd, vault).0),
        state_consistent(session_step(st, status)),
{
}

/// A simulated inactivity report drives any state to locked and clears
/// the key and salt; a following activity report leaves it locked: there
/// is no auto-unlock.
pub proof fn lemma_session_auto_lock(s: DaemonStateView)
    ensures
        session_step(s, SessionStatus::Inactive) == locked_state(),
        session_step(session_step(s, SessionStatus::Inactive), SessionStatus::Active)
            == locked_state(),
        state_consistent(session_step(s, SessionStatus::Inactive)),
{
}

} // verus!
