use chacrab::commands::{
    backend_display, map_user_error, parse_or_resolve_id, resolve_label, ui_options,
    validate_sync_remote_config,
};
use chacrab::display::{short_id, take_chars, SessionIndicator, UiOptions};
use chacrab::errors::ChacrabError;
use chacrab::models::{Timestamp, VaultItem, VaultItemType};
use chacrab::parser::{Cli, Commands, UpdateCommands, UpdateSelector};
use chacrab::runtime_config::{cli_flag_present, RuntimeConfig};
use chacrab::table::truncate;

fn item(id: u128) -> VaultItem {
    VaultItem {
        id,
        item_type: VaultItemType::Note,
        title: "t".to_owned(),
        username: None,
        url: None,
        encrypted_data: vec![1],
        nonce: [0u8; 12],
        sync_version: 1,
        created_at: Timestamp::new(0, 0).expect("in range"),
        updated_at: Timestamp::new(0, 0).expect("in range"),
    }
}

fn config_error(result: Result<(), ChacrabError>) -> String {
    match result {
        Err(ChacrabError::Config(reason)) => reason,
        other => panic!("expected a configuration error, got {:?}", other),
    }
}

#[test]
fn every_error_has_its_sentence() {
    assert_eq!(map_user_error(&ChacrabError::InvalidCredentials), "Invalid master password.");
    assert_eq!(map_user_error(&ChacrabError::NoActiveSession), "No active session. Run login first.");
    assert_eq!(map_user_error(&ChacrabError::SessionExpired), "Session timed out. Please login again.");
    assert_eq!(map_user_error(&ChacrabError::NotFound), "Item not found.");
    assert_eq!(
        map_user_error(&ChacrabError::UnsupportedBackend("x".to_owned())),
        "Unsupported backend configuration."
    );
    assert_eq!(
        map_user_error(&ChacrabError::KeyringLocked),
        "Secure keyring is locked. Unlock your keyring and retry."
    );
    assert_eq!(
        map_user_error(&ChacrabError::KeyringUnavailable),
        "Secure keyring unavailable. Unlock keyring and retry."
    );
    assert_eq!(map_user_error(&ChacrabError::Crypto), "Security operation failed.");
    assert_eq!(map_user_error(&ChacrabError::Serialization), "Data format error.");
    assert_eq!(map_user_error(&ChacrabError::Storage), "Storage operation failed.");
}

#[test]
fn known_reasons_get_their_own_sentence() {
    let say = |reason: &str| map_user_error(&ChacrabError::Config(reason.to_owned()));
    assert_eq!(say("operation cancelled"), "Operation cancelled.");
    assert_eq!(say("ambiguous item id prefix"), "Ambiguous ID. Use a longer ID prefix.");
    assert_eq!(
        say("weak master password: use at least 12 characters"),
        "Weak master password. Use at least 12 chars and 3 of upper/lower/digit/symbol."
    );
    assert_eq!(say("confirmation text did not match title"), "Confirmation text did not match title.");
    assert_eq!(say("anything else"), "Invalid configuration or input.");
    assert_eq!(say("a weak master password"), "Invalid configuration or input.");
    assert_eq!(say(""), "Invalid configuration or input.");
}

#[test]
fn errors_describe_themselves() {
    assert_eq!(ChacrabError::InvalidCredentials.message(), "invalid credentials");
    assert_eq!(ChacrabError::NoActiveSession.message(), "no active session");
    assert_eq!(ChacrabError::SessionExpired.message(), "session expired");
    assert_eq!(ChacrabError::KeyringUnavailable.message(), "keyring unavailable");
    assert_eq!(ChacrabError::KeyringLocked.message(), "keyring locked");
    assert_eq!(ChacrabError::NotFound.message(), "item not found");
    assert_eq!(
        ChacrabError::UnsupportedBackend("redis".to_owned()).message(),
        "unsupported backend: redis"
    );
    assert_eq!(ChacrabError::Config("why".to_owned()).message(), "configuration error: why");
    assert_eq!(ChacrabError::Crypto.message(), "crypto operation failed");
    assert_eq!(ChacrabError::Serialization.message(), "serialization failed");
    assert_eq!(ChacrabError::Storage.message(), "storage operation failed");
    assert_eq!(ChacrabError::config("x").message(), "configuration error: x");
}

#[test]
fn outside_errors_are_mapped_by_kind() {
    let parse_failure = serde_json::from_str::<serde_json::Value>("{").expect_err("fails");
    assert!(matches!(ChacrabError::from(parse_failure), ChacrabError::Serialization));
    assert!(matches!(ChacrabError::from(chacha20poly1305::aead::Error), ChacrabError::Crypto));
    assert!(matches!(
        ChacrabError::from(argon2::password_hash::Error::Password),
        ChacrabError::Crypto
    ));
}

#[test]
fn backends_are_shown_by_name() {
    assert_eq!(backend_display("sqlite"), "SQLite (local)");
    assert_eq!(backend_display("postgres"), "PostgreSQL");
    assert_eq!(backend_display("mongo"), "MongoDB");
    assert_eq!(backend_display("Mongo"), "Unsupported");
    assert_eq!(backend_display(""), "Unsupported");
}

#[test]
fn full_identifier_names_itself() {
    let items = vec![item(1)];
    assert_eq!(
        parse_or_resolve_id("123e4567-e89b-12d3-a456-426614174000", &items).expect("parses"),
        0x123e4567_e89b_12d3_a456_426614174000
    );
    assert_eq!(
        parse_or_resolve_id("123E4567E89B12D3A456426614174000", &Vec::new()).expect("parses"),
        0x123e4567_e89b_12d3_a456_426614174000
    );
}

#[test]
fn prefix_names_the_one_item_that_begins_with_it() {
    let items = vec![
        item(0xabcd0000_0000_0000_0000_000000000001),
        item(0xabce0000_0000_0000_0000_000000000002),
        item(0x12340000_0000_0000_0000_000000000003),
    ];
    assert_eq!(
        parse_or_resolve_id("abcd", &items).expect("resolves"),
        0xabcd0000_0000_0000_0000_000000000001
    );
    assert_eq!(
        parse_or_resolve_id("12340000-00", &items).expect("resolves"),
        0x12340000_0000_0000_0000_000000000003
    );
    assert!(matches!(parse_or_resolve_id("ffff", &items), Err(ChacrabError::NotFound)));
    assert!(matches!(parse_or_resolve_id("ABCD", &items), Err(ChacrabError::NotFound)));
    match parse_or_resolve_id("abc", &items) {
        Err(ChacrabError::Config(reason)) => assert_eq!(reason, "ambiguous item id prefix"),
        other => panic!("expected an ambiguity, got {:?}", other),
    }
    assert!(matches!(parse_or_resolve_id("", &items), Err(ChacrabError::Config(_))));
    assert!(matches!(parse_or_resolve_id("", &Vec::new()), Err(ChacrabError::NotFound)));
    assert_eq!(parse_or_resolve_id("", &items[..1].to_vec()).expect("resolves"), items[0].id);
}

#[test]
fn local_replica_needs_neither_tls_nor_token() {
    assert!(validate_sync_remote_config("sqlite", "anything", &None, &None).is_ok());
    assert!(validate_sync_remote_config("  SQLite\n", "anything", &None, &None).is_ok());
}

#[test]
fn postgres_replica_needs_scheme_tls_and_token() {
    let token = Some("0123456789abcdef".to_owned());
    assert!(validate_sync_remote_config(
        "postgres",
        "postgres://host/db?sslmode=require",
        &None,
        &token
    )
    .is_ok());
    assert!(validate_sync_remote_config(
        "Postgres",
        "POSTGRESQL://host/db?SSLMODE=VERIFY-FULL",
        &None,
        &token
    )
    .is_ok());
    assert!(validate_sync_remote_config(
        "postgres",
        "postgres://host/db?sslmode=verify-ca",
        &Some("1".to_owned()),
        &token
    )
    .is_ok());
    assert_eq!(
        config_error(validate_sync_remote_config("postgres", "mysql://host/db", &None, &token)),
        "sync postgres URL must start with postgres:// or postgresql://"
    );
    assert_eq!(
        config_error(validate_sync_remote_config("postgres", "postgres://host/db", &None, &token)),
        "sync postgres URL must enable TLS (sslmode=require|verify-ca|verify-full)"
    );
    assert_eq!(
        config_error(validate_sync_remote_config(
            "postgres",
            "postgres://host/db?sslmode=disable",
            &Some("true".to_owned()),
            &token
        )),
        "sync postgres URL must enable TLS (sslmode=require|verify-ca|verify-full)"
    );
}

#[test]
fn tls_check_can_be_switched_off() {
    let token = Some("0123456789abcdef".to_owned());
    for setting in ["0", "false", "FALSE", "False"] {
        assert!(validate_sync_remote_config(
            "postgres",
            "postgres://host/db",
            &Some(setting.to_owned()),
            &token
        )
        .is_ok());
        assert!(validate_sync_remote_config(
            "mongo",
            "mongodb://host/db",
            &Some(setting.to_owned()),
            &token
        )
        .is_ok());
    }
    for setting in ["", "no", "00", " false"] {
        assert!(validate_sync_remote_config(
            "postgres",
            "postgres://host/db",
            &Some(setting.to_owned()),
            &token
        )
        .is_err());
    }
}

#[test]
fn mongo_replica_needs_scheme_tls_and_token() {
    let token = Some("0123456789abcdef".to_owned());
    assert!(validate_sync_remote_config("mongo", "mongodb://host/db?tls=true", &None, &token).is_ok());
    assert_eq!(
        config_error(validate_sync_remote_config("mongo", "mongodb://host/db?ssl=true", &None, &token)),
        "sync mongo URL must enable TLS (tls=true)"
    );
    assert!(validate_sync_remote_config("mongo", "mongodb+srv://host/db", &None, &token).is_ok());
    assert_eq!(
        config_error(validate_sync_remote_config("mongo", "http://host/db", &None, &token)),
        "sync mongo URL must start with mongodb:// or mongodb+srv://"
    );
    assert_eq!(
        config_error(validate_sync_remote_config("mongo", "mongodb://host/db", &None, &token)),
        "sync mongo URL must enable TLS (tls=true)"
    );
}

#[test]
fn remote_replica_needs_a_token_of_sixteen_characters() {
    let url = "postgres://host/db?sslmode=require";
    assert_eq!(
        config_error(validate_sync_remote_config("postgres", url, &None, &None)),
        "set CHACRAB_SYNC_AUTH_TOKEN for remote sync auth"
    );
    assert_eq!(
        config_error(validate_sync_remote_config(
            "postgres",
            url,
            &None,
            &Some("  0123456789abcde  ".to_owned())
        )),
        "CHACRAB_SYNC_AUTH_TOKEN must be at least 16 characters"
    );
    assert!(validate_sync_remote_config(
        "postgres",
        url,
        &None,
        &Some(" 0123456789abcdef\t".to_owned())
    )
    .is_ok());
    assert_eq!(
        config_error(validate_sync_remote_config("postgres", "x", &None, &None)),
        "sync postgres URL must start with postgres:// or postgresql://"
    );
}

#[test]
fn unknown_backend_is_no_replica() {
    assert_eq!(
        config_error(validate_sync_remote_config("redis", "redis://host", &None, &None)),
        "sync backend must be sqlite, postgres, or mongo"
    );
    assert_eq!(
        config_error(validate_sync_remote_config("", "", &Some("0".to_owned()), &None)),
        "sync backend must be sqlite, postgres, or mongo"
    );
}

#[test]
fn flags_are_found_alone_or_with_a_value() {
    let args: Vec<String> = ["chacrab", "--backend=postgres", "list", "--database-url", "x"]
        .iter()
        .map(|arg| arg.to_string())
        .collect();
    assert!(cli_flag_present(&args, "--backend"));
    assert!(cli_flag_present(&args, "--database-url"));
    assert!(!cli_flag_present(&args, "--json"));
    assert!(!cli_flag_present(&args, "--back"));
    assert!(!cli_flag_present(&args, "--database"));
    assert!(!cli_flag_present(&Vec::new(), "--backend"));
    assert!(cli_flag_present(&vec!["--backend=".to_owned()], "--backend"));
    assert!(!cli_flag_present(&vec!["--backends".to_owned()], "--backend"));
}

#[test]
fn short_id_is_the_first_eight_characters() {
    assert_eq!(short_id("123e4567-e89b-12d3-a456-426614174000"), "123e4567");
    assert_eq!(short_id("abc"), "abc");
    assert_eq!(short_id(""), "");
    assert_eq!(short_id("\u{00e4}\u{00f6}\u{00fc}\u{00df}12345"), "\u{00e4}\u{00f6}\u{00fc}\u{00df}1234");
    assert_eq!(take_chars("hello", 0), "");
    assert_eq!(take_chars("hello", 5), "hello");
}

#[test]
fn long_cells_end_in_an_ellipsis() {
    assert_eq!(truncate("short", 20), "short");
    assert_eq!(truncate("exactly twenty chars", 20), "exactly twenty chars");
    assert_eq!(truncate("a title of twenty-one", 20), "a title of twenty-o\u{2026}");
    assert_eq!(truncate("abc", 1), "\u{2026}");
    assert_eq!(truncate("abc", 0), "\u{2026}");
    assert_eq!(truncate("", 0), "");
    assert_eq!(truncate("\u{00e4}\u{00f6}\u{00fc}", 2), "\u{00e4}\u{2026}");
}

#[test]
fn options_follow_the_command_line() {
    let cli = Cli {
        command: Commands::Update {
            target: UpdateCommands::Password(UpdateSelector {
                id: Some("abc123".to_owned()),
                label: None,
            }),
        },
        backend: "sqlite".to_owned(),
        database_url: "sqlite://chacrab.db?mode=rwc".to_owned(),
        json: true,
        quiet: false,
        no_color: true,
        session_timeout_secs: 900,
    };
    assert_eq!(ui_options(&cli), UiOptions { json: true, quiet: false, color: false });
    assert_ne!(SessionIndicator::Active, SessionIndicator::Locked);
    let config = RuntimeConfig { backend: cli.backend.clone(), database_url: cli.database_url.clone() };
    assert_eq!(config.backend, "sqlite");
}

#[test]
fn selector_names_its_item_in_one_way() {
    assert!(UpdateSelector { id: Some("a".to_owned()), label: None }.is_well_formed());
    assert!(UpdateSelector { id: None, label: Some("b".to_owned()) }.is_well_formed());
    assert!(!UpdateSelector { id: None, label: None }.is_well_formed());
    assert!(!UpdateSelector { id: Some("a".to_owned()), label: Some("b".to_owned()) }.is_well_formed());
}

fn titled(id: u128, title: &str) -> VaultItem {
    let mut entry = item(id);
    entry.title = title.to_owned();
    entry
}

#[test]
fn label_names_the_one_item_with_that_title() {
    let items = vec![titled(1, "Mail"), titled(2, "Bank"), titled(3, "mail")];
    assert_eq!(resolve_label("Bank", &items).expect("resolves"), 2);
    assert_eq!(resolve_label("Mail", &items).expect("resolves"), 1);
    assert_eq!(resolve_label("mail", &items).expect("resolves"), 3);
}

#[test]
fn label_without_an_item_is_not_found() {
    let items = vec![titled(1, "Mail"), titled(2, "Bank")];
    assert!(matches!(resolve_label("Ban", &items), Err(ChacrabError::NotFound)));
    assert!(matches!(resolve_label("", &items), Err(ChacrabError::NotFound)));
    assert!(matches!(resolve_label("Bank", &Vec::new()), Err(ChacrabError::NotFound)));
}

#[test]
fn label_of_two_items_is_ambiguous() {
    let items = vec![titled(1, "Mail"), titled(2, "Bank"), titled(3, "Mail")];
    match resolve_label("Mail", &items) {
        Err(ChacrabError::Config(reason)) => assert_eq!(reason, "ambiguous item label"),
        other => panic!("expected a configuration error, got {:?}", other),
    }
    assert_eq!(resolve_label("Bank", &items).expect("resolves"), 2);
}
