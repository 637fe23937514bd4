//! A local secret store: credential entries are kept encrypted at rest in a
//! single vault file and are exposed only while an authenticated session is
//! unlocked.
//!
//! The core pieces are the vault codec (password -> key -> encrypt/decrypt of
//! the entry list), the session daemon state machine (a long-lived process
//! owns the unlocked key and answers requests over a local channel), and the
//! state managers that reconcile local and daemon-held unlock state.
//!
//! All file and socket input/output lives outside this crate; the functions
//! here compute file images and protocol messages as plain byte and character
//! data, with contracts over their mathematical models.

use vstd::prelude::*;

pub mod cli;
pub mod codec;
pub mod crypto;
pub mod daemon;
pub mod fuzzy;
pub mod ipc;
pub mod jsontext;
pub mod manager;
pub mod modal;
pub mod models;
pub mod state;
pub mod store;
pub mod text;
pub mod transform;
pub mod widgets;

verus! {

/// The default location of the vault file, relative to the working directory.
pub const PASSWORD_FILE_PATH: &'static str = "./passwords.json";

} // verus!
