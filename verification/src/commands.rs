//! The decisions of the front end that need no terminal: how an error is
//! told to the user, which item an identifier or a prefix names, and
//! whether a remote replica is configured safely.

use vstd::prelude::*;
use crate::display::UiOptions;
use crate::errors::{ChacrabError, ErrorKind};
use crate::ids::{id_from_text, id_to_text, uuid_text, uuid_value};
use crate::models::{same_str, text_view, VaultItem};
use crate::parser::Cli;
use crate::storage::{backend_named, BackendKind};
use crate::text::{
    begins_with, chars_of, contains, lowercased, occurs_in, same_chars, starts_with,
    to_ascii_lowercase, trim, trimmed,
};

verus! {

/// The options of the front end that the command line asks for.
pub fn ui_options(cli: &Cli) -> (options: UiOptions)
    ensures
        options == (UiOptions { json: cli.json, quiet: cli.quiet, color: !cli.no_color }),
{
    UiOptions { json: cli.json, quiet: cli.quiet, color: !cli.no_color }
}

/// The sentence that tells the user of an error. It names the kind of the
/// error and, for a few known reasons, the reason; it never carries what a
/// driver or a cipher reported.
pub open spec fn user_message(kind: ErrorKind) -> Seq<char> {
    match kind {
        ErrorKind::InvalidCredentials => "Invalid master password."@,
        ErrorKind::NoActiveSession => "No active session. Run login first."@,
        ErrorKind::SessionExpired => "Session timed out. Please login again."@,
        ErrorKind::NotFound => "Item not found."@,
        ErrorKind::UnsupportedBackend(_) => "Unsupported backend configuration."@,
        ErrorKind::Config(reason) => if reason == "operation cancelled"@ {
            "Operation cancelled."@
        } else if reason == "ambiguous item id prefix"@ {
            "Ambiguous ID. Use a longer ID prefix."@
        } else if begins_with(reason, "weak master password"@) {
            "Weak master password. Use at least 12 chars and 3 of upper/lower/digit/symbol."@
        } else if reason == "confirmation text did not match title"@ {
            "Confirmation text did not match title."@
        } else {
            "Invalid configuration or input."@
        },
        ErrorKind::KeyringLocked => "Secure keyring is locked. Unlock your keyring and retry."@,
        ErrorKind::KeyringUnavailable => "Secure keyring unavailable. Unlock keyring and retry."@,
        ErrorKind::Crypto => "Security operation failed."@,
        ErrorKind::Serialization => "Data format error."@,
        ErrorKind::Storage => "Storage operation failed."@,
    }
}

/// The sentence that tells the user of `err`.
pub fn map_user_error(err: &ChacrabError) -> (message: &'static str)
    ensures
        message@ == user_message(err@),
{
    match err {
        ChacrabError::InvalidCredentials => "Invalid master password.",
        ChacrabError::NoActiveSession => "No active session. Run login first.",
        ChacrabError::SessionExpired => "Session timed out. Please login again.",
        ChacrabError::NotFound => "Item not found.",
        ChacrabError::UnsupportedBackend(_) => "Unsupported backend configuration.",
        ChacrabError::Config(reason) => {
            let text = chars_of(reason.as_str());
            let weak = chars_of("weak master password");
            if same_str(reason.as_str(), "operation cancelled") {
                "Operation cancelled."
            } else if same_str(reason.as_str(), "ambiguous item id prefix") {
                "Ambiguous ID. Use a longer ID prefix."
            } else if starts_with(text.as_slice(), weak.as_slice()) {
                "Weak master password. Use at least 12 chars and 3 of upper/lower/digit/symbol."
            } else if same_str(reason.as_str(), "confirmation text did not match title") {
                "Confirmation text did not match title."
            } else {
                "Invalid configuration or input."
            }
        },
        ChacrabError::KeyringLocked => "Secure keyring is locked. Unlock your keyring and retry.",
        ChacrabError::KeyringUnavailable => "Secure keyring unavailable. Unlock keyring and retry.",
        ChacrabError::Crypto => "Security operation failed.",
        ChacrabError::Serialization => "Data format error.",
        ChacrabError::Storage => "Storage operation failed.",
    }
}

/// The name under which a backend is shown.
pub open spec fn backend_label(backend: Seq<char>) -> Seq<char> {
    match backend_named(backend) {
        Some(BackendKind::Sqlite) => "SQLite (local)"@,
        Some(BackendKind::Postgres) => "PostgreSQL"@,
        Some(BackendKind::Mongo) => "MongoDB"@,
        None => "Unsupported"@,
    }
}

/// The name under which `backend` is shown.
pub fn backend_display(backend: &str) -> (label: &'static str)
    ensures
        label@ == backend_label(backend@),
{
    if same_str(backend, "sqlite") {
        "SQLite (local)"
    } else if same_str(backend, "postgres") {
        "PostgreSQL"
    } else if same_str(backend, "mongo") {
        "MongoDB"
    } else {
        "Unsupported"
    }
}

/// The identifiers among the first `count` of `items` whose text begins
/// with `prefix`, in order.
pub open spec fn ids_with_prefix(items: Seq<VaultItem>, prefix: Seq<char>, count: nat) -> Seq<u128>
    decreases count,
{
    if count == 0 || count > items.len() {
        Seq::empty()
    } else if begins_with(uuid_text(items[count - 1].id), prefix) {
        ids_with_prefix(items, prefix, (count - 1) as nat).push(items[count - 1].id)
    } else {
        ids_with_prefix(items, prefix, (count - 1) as nat)
    }
}

/// The item that an input names: the identifier that the input spells, or
/// else the one item whose identifier begins with the input.
pub open spec fn resolved_id(input: Seq<char>, items: Seq<VaultItem>) -> Result<u128, ErrorKind> {
    match uuid_value(input) {
        Some(id) => Ok(id),
        None => {
            let matching = ids_with_prefix(items, input, items.len());
            if matching.len() == 0 {
                Err(ErrorKind::NotFound)
            } else if matching.len() > 1 {
                Err(ErrorKind::Config("ambiguous item id prefix"@))
            } else {
                Ok(matching[0])
            }
        },
    }
}

/// The identifiers among the first `count` of `items` whose title is
/// `label`, in order.
pub open spec fn ids_with_title(items: Seq<VaultItem>, label: Seq<char>, count: nat) -> Seq<u128>
    decreases count,
{
    if count == 0 || count > items.len() {
        Seq::empty()
    } else if items[count - 1].title@ == label {
        ids_with_title(items, label, (count - 1) as nat).push(items[count - 1].id)
    } else {
        ids_with_title(items, label, (count - 1) as nat)
    }
}

/// The item that a label names: the one item whose title is the label.
pub open spec fn labelled_id(label: Seq<char>, items: Seq<VaultItem>) -> Result<u128, ErrorKind> {
    let matching = ids_with_title(items, label, items.len());
    if matching.len() == 0 {
        Err(ErrorKind::NotFound)
    } else if matching.len() > 1 {
        Err(ErrorKind::Config("ambiguous item label"@))
    } else {
        Ok(matching[0])
    }
}

/// Finds the item whose title is `label` among `items`.
///
/// Titles are compared whole and with their case. Fails with `NotFound`
/// where no item has the title and with `Config` where more than one has.
pub fn resolve_label(label: &str, items: &Vec<VaultItem>) -> (r: Result<u128, ChacrabError>)
    ensures
        match r {
            Ok(id) => labelled_id(label@, items@) == Ok::<u128, ErrorKind>(id),
            Err(e) => labelled_id(label@, items@) == Err::<u128, ErrorKind>(e@),
        },
{
    let mut matching: Vec<u128> = Vec::new();
    let mut i: usize = 0;
    while i < items.len()
        invariant
            i <= items.len(),
            matching@ == ids_with_title(items@, label@, i as nat),
        decreases items.len() - i,
    {
        if same_str(items[i].title.as_str(), label) {
            matching.push(items[i].id);
        }
        i += 1;
    }
    if matching.len() == 0 {
        Err(ChacrabError::NotFound)
    } else if matching.len() > 1 {
        Err(ChacrabError::config("ambiguous item label"))
    } else {
        Ok(matching[0])
    }
}

/// One of the first `count` of `items` has the identifier `id` and the
/// title `label`.
pub open spec fn is_titled(items: Seq<VaultItem>, label: Seq<char>, count: nat, id: u128) -> bool {
    exists|i: int|
        0 <= i < count && i < items.len() && (#[trigger] items[i]).id == id && items[i].title@
            == label
}

/// A label names only an item that has it for its title, and names
/// nothing where no item has.
pub proof fn lemma_label_names_its_item(label: Seq<char>, items: Seq<VaultItem>)
    ensures
        labelled_id(label, items) matches Ok(id) ==> is_titled(items, label, items.len(), id),
        (forall|i: int| 0 <= i < items.len() ==> (#[trigger] items[i]).title@ != label)
            ==> labelled_id(label, items) == Err::<u128, ErrorKind>(ErrorKind::NotFound),
{
    lemma_titled_ids(label, items, items.len());
}

proof fn lemma_titled_ids(label: Seq<char>, items: Seq<VaultItem>, count: nat)
    requires
        count <= items.len(),
    ensures
        forall|k: int|
            0 <= k < ids_with_title(items, label, count).len() ==> is_titled(
                items,
                label,
                count,
                #[trigger] ids_with_title(items, label, count)[k],
            ),
        (forall|i: int| 0 <= i < count ==> (#[trigger] items[i]).title@ != label)
            ==> ids_with_title(items, label, count).len() == 0,
    decreases count,
{
    if count > 0 {
        lemma_titled_ids(label, items, (count - 1) as nat);
        let earlier = ids_with_title(items, label, (count - 1) as nat);
        let all = ids_with_title(items, label, count);
        assert forall|k: int| 0 <= k < all.len() implies is_titled(
            items,
            label,
            count,
            #[trigger] all[k],
        ) by {
            if k < earlier.len() {
                assert(all[k] == earlier[k]);
                assert(is_titled(items, label, (count - 1) as nat, earlier[k]));
                let i = choose|i: int|
                    0 <= i < count - 1 && i < items.len() && (#[trigger] items[i]).id == earlier[k]
                        && items[i].title@ == label;
                assert(items[i].id == all[k] && items[i].title@ == label);
            } else {
                assert(items[count - 1].id == all[k] && items[count - 1].title@ == label);
            }
        }
        if forall|i: int| 0 <= i < count ==> (#[trigger] items[i]).title@ != label {
            assert(items[count - 1].title@ != label);
        }
    }
}

/// Finds the item that `id_input` names among `items`.
///
/// An input that spells an identifier names that identifier, stored or
/// not. Any other input is taken as the beginning of an identifier: it
/// fails with `NotFound` where no item matches and with `Config` where
/// more than one does.
pub fn parse_or_resolve_id(id_input: &str, items: &Vec<VaultItem>) -> (r: Result<u128, ChacrabError>)
    ensures
        match r {
            Ok(id) => resolved_id(id_input@, items@) == Ok::<u128, ErrorKind>(id),
            Err(e) => resolved_id(id_input@, items@) == Err::<u128, ErrorKind>(e@),
        },
{
    match id_from_text(id_input) {
        Some(id) => {
            return Ok(id);
        },
        None => {},
    }
    let prefix = chars_of(id_input);
    let mut matching: Vec<u128> = Vec::new();
    let mut i: usize = 0;
    while i < items.len()
        invariant
            i <= items.len(),
            prefix@ == id_input@,
            matching@ == ids_with_prefix(items@, id_input@, i as nat),
        decreases items.len() - i,
    {
        let text = id_to_text(items[i].id);
        let chars = chars_of(text.as_str());
        if starts_with(chars.as_slice(), prefix.as_slice()) {
            matching.push(items[i].id);
        }
        i += 1;
    }
    if matching.len() == 0 {
        Err(ChacrabError::NotFound)
    } else if matching.len() > 1 {
        Err(ChacrabError::config("ambiguous item id prefix"))
    } else {
        Ok(matching[0])
    }
}

/// Whether the check for transport security is in force: it is unless the
/// setting is `0` or `false`, in any case of letters.
pub open spec fn tls_is_required(setting: Option<Seq<char>>) -> bool {
    match setting {
        Some(value) => value != "0"@ && lowercased(value) != "false"@,
        None => true,
    }
}

/// A PostgreSQL address that asks for an encrypted connection.
pub open spec fn postgres_asks_for_tls(url: Seq<char>) -> bool {
    ||| occurs_in(url, "sslmode=require"@)
    ||| occurs_in(url, "sslmode=verify-ca"@)
    ||| occurs_in(url, "sslmode=verify-full"@)
}

/// A MongoDB address that asks for an encrypted connection: one of the
/// scheme `mongodb+srv://`, or one that sets `tls=true`.
pub open spec fn mongo_asks_for_tls(url: Seq<char>) -> bool {
    ||| !begins_with(url, "mongodb://"@)
    ||| occurs_in(url, "tls=true"@)
}

/// What is wrong with the address of a remote replica, if anything is.
pub open spec fn address_fault(backend: Seq<char>, url: Seq<char>, require_tls: bool) -> Option<
    Seq<char>,
> {
    if backend == "sqlite"@ {
        None
    } else if backend == "postgres"@ {
        if !(begins_with(url, "postgres://"@) || begins_with(url, "postgresql://"@)) {
            Some("sync postgres URL must start with postgres:// or postgresql://"@)
        } else if require_tls && !postgres_asks_for_tls(url) {
            Some("sync postgres URL must enable TLS (sslmode=require|verify-ca|verify-full)"@)
        } else {
            None
        }
    } else if backend == "mongo"@ {
        if !(begins_with(url, "mongodb://"@) || begins_with(url, "mongodb+srv://"@)) {
            Some("sync mongo URL must start with mongodb:// or mongodb+srv://"@)
        } else if require_tls && !mongo_asks_for_tls(url) {
            Some("sync mongo URL must enable TLS (tls=true)"@)
        } else {
            None
        }
    } else {
        Some("sync backend must be sqlite, postgres, or mongo"@)
    }
}

/// What is wrong with the authentication token of a remote replica, if
/// anything is. A local backend needs none.
pub open spec fn token_fault(backend: Seq<char>, token: Option<Seq<char>>) -> Option<Seq<char>> {
    if backend == "sqlite"@ {
        None
    } else {
        match token {
            None => Some("set CHACRAB_SYNC_AUTH_TOKEN for remote sync auth"@),
            Some(value) => if trimmed(value).len() < 16 {
                Some("CHACRAB_SYNC_AUTH_TOKEN must be at least 16 characters"@)
            } else {
                None
            },
        }
    }
}

/// The reason for which the configuration of a remote replica is turned
/// away, if it is. The backend is taken without surrounding white space
/// and in lowercase, the address in lowercase; the address is judged
/// before the token.
pub open spec fn sync_config_fault(
    backend: Seq<char>,
    database_url: Seq<char>,
    require_tls_setting: Option<Seq<char>>,
    auth_token: Option<Seq<char>>,
) -> Option<Seq<char>> {
    let normalized = lowercased(trimmed(backend));
    match address_fault(normalized, lowercased(database_url), tls_is_required(require_tls_setting)) {
        Some(reason) => Some(reason),
        None => token_fault(normalized, auth_token),
    }
}

fn judge_address(backend: &[char], url: &[char], require_tls: bool) -> (fault: Option<&'static str>)
    ensures
        match fault {
            Some(reason) => address_fault(backend@, url@, require_tls) == Some(reason@),
            None => address_fault(backend@, url@, require_tls) is None,
        },
{
    if same_chars(backend, chars_of("sqlite").as_slice()) {
        None
    } else if same_chars(backend, chars_of("postgres").as_slice()) {
        if !(starts_with(url, chars_of("postgres://").as_slice()) || starts_with(
            url,
            chars_of("postgresql://").as_slice(),
        )) {
            return Some("sync postgres URL must start with postgres:// or postgresql://");
        }
        if require_tls && !(contains(url, chars_of("sslmode=require").as_slice()) || contains(
            url,
            chars_of("sslmode=verify-ca").as_slice(),
        ) || contains(url, chars_of("sslmode=verify-full").as_slice())) {
            return Some(
                "sync postgres URL must enable TLS (sslmode=require|verify-ca|verify-full)",
            );
        }
        None
    } else if same_chars(backend, chars_of("mongo").as_slice()) {
        if !(starts_with(url, chars_of("mongodb://").as_slice()) || starts_with(
            url,
            chars_of("mongodb+srv://").as_slice(),
        )) {
            return Some("sync mongo URL must start with mongodb:// or mongodb+srv://");
        }
        if require_tls && starts_with(url, chars_of("mongodb://").as_slice()) && !contains(
            url,
            chars_of("tls=true").as_slice(),
        ) {
            return Some("sync mongo URL must enable TLS (tls=true)");
        }
        None
    } else {
        Some("sync backend must be sqlite, postgres, or mongo")
    }
}

/// Checks the configuration of the remote replica of a sync run.
///
/// `require_tls_setting` and `auth_token` are the values of the settings
/// `CHACRAB_SYNC_REQUIRE_TLS` and `CHACRAB_SYNC_AUTH_TOKEN`, where they are
/// set. A backend that is not local must ask for an encrypted connection,
/// unless the check is switched off, and needs a token of at least 16
/// characters. Every fault is a `Config` error with the reason that
/// [`sync_config_fault`] gives.
pub fn validate_sync_remote_config(
    backend: &str,
    database_url: &str,
    require_tls_setting: &Option<String>,
    auth_token: &Option<String>,
) -> (r: Result<(), ChacrabError>)
    ensures
        match r {
            Ok(_) => sync_config_fault(
                backend@,
                database_url@,
                text_view(*require_tls_setting),
                text_view(*auth_token),
            ) is None,
            Err(e) => sync_config_fault(
                backend@,
                database_url@,
                text_view(*require_tls_setting),
                text_view(*auth_token),
            ) matches Some(reason) && e@ == ErrorKind::Config(reason),
        },
{
    let backend_chars = chars_of(backend);
    let trimmed_backend = trim(backend_chars.as_slice());
    let normalized = to_ascii_lowercase(trimmed_backend.as_slice());
    let url_chars = chars_of(database_url);
    let lowered = to_ascii_lowercase(url_chars.as_slice());
    let require_tls: bool = match require_tls_setting {
        Some(value) => {
            let chars = chars_of(value.as_str());
            let lower = to_ascii_lowercase(chars.as_slice());
            !same_chars(chars.as_slice(), chars_of("0").as_slice()) && !same_chars(
                lower.as_slice(),
                chars_of("false").as_slice(),
            )
        },
        None => true,
    };
    match judge_address(normalized.as_slice(), lowered.as_slice(), require_tls) {
        Some(reason) => {
            return Err(ChacrabError::config(reason));
        },
        None => {},
    }
    if same_chars(normalized.as_slice(), chars_of("sqlite").as_slice()) {
        return Ok(());
    }
    match auth_token {
        None => Err(ChacrabError::config("set CHACRAB_SYNC_AUTH_TOKEN for remote sync auth")),
        Some(value) => {
            let chars = chars_of(value.as_str());
            let kept = trim(chars.as_slice());
            if kept.len() < 16 {
                Err(ChacrabError::config("CHACRAB_SYNC_AUTH_TOKEN must be at least 16 characters"))
            } else {
                Ok(())
            }
        },
    }
}

} // verus!
