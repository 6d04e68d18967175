//! The command line as data: the global flags and the commands.

use vstd::prelude::*;

verus! {

/// The backend that is used where none is named.
pub const DEFAULT_BACKEND: &'static str = "sqlite";

/// The database that is used where none is named.
pub const DEFAULT_DATABASE_URL: &'static str = "sqlite://chacrab.db?mode=rwc";

/// The idle timeout that is used where none is named, in seconds.
pub const DEFAULT_SESSION_TIMEOUT_SECS: u64 = 900;

/// How an update names its item: by identifier or by label.
#[derive(Debug)]
pub struct UpdateSelector {
    pub id: Option<String>,
    pub label: Option<String>,
}

/// What an update changes.
#[derive(Debug)]
pub enum UpdateCommands {
    Password(UpdateSelector),
    SecretNotes(UpdateSelector),
}

/// The commands of the front end.
#[derive(Debug)]
pub enum Commands {
    Init,
    Login,
    Logout,
    AddPassword,
    AddNote,
    List,
    Show { id: String },
    Delete { id: String },
    Update { target: UpdateCommands },
    BackupExport { path: String },
    BackupImport { path: String },
    Sync,
    Config,
}

/// A parsed command line.
#[derive(Debug)]
pub struct Cli {
    pub command: Commands,
    pub backend: String,
    pub database_url: String,
    pub json: bool,
    pub quiet: bool,
    pub no_color: bool,
    pub session_timeout_secs: u64,
}

impl UpdateSelector {
    /// An update names its item in exactly one way.
    pub open spec fn well_formed(self) -> bool {
        self.id is Some != self.label is Some
    }

    /// Whether the selector names its item in exactly one way.
    pub fn is_well_formed(&self) -> (ok: bool)
        ensures
            ok == self.well_formed(),
    {
        self.id.is_some() != self.label.is_some()
    }
}

} // verus!
