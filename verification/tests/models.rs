use chacrab::ids::{id_from_text, id_to_text};
use chacrab::memory::MemoryRepository;
use chacrab::models::{
    clone_text, default_sync_version, same_bytes, same_str, same_text, AuthRecord, SyncTombstone,
    Timestamp, VaultItem, VaultItemType,
};
use chacrab::password_policy::{classes_of, validate_master_password};
use chacrab::repository::VaultRepository;
use chacrab::errors::ChacrabError;
use chacrab::text::{
    char_is_whitespace, chars_of, contains, starts_with, string_of, to_ascii_lowercase, trim,
};

fn item(id: u128, title: &str, updated: i64) -> VaultItem {
    VaultItem {
        id,
        item_type: VaultItemType::Password,
        title: title.to_owned(),
        username: None,
        url: None,
        encrypted_data: vec![1],
        nonce: [0u8; 12],
        sync_version: 1,
        created_at: Timestamp::new(0, 0).expect("in range"),
        updated_at: Timestamp::new(updated, 0).expect("in range"),
    }
}

#[test]
fn instants_lie_within_the_years_0000_to_9999() {
    assert!(Timestamp::new(-62_167_219_200, 0).is_some());
    assert!(Timestamp::new(-62_167_219_201, 0).is_none());
    assert!(Timestamp::new(253_402_300_799, 999_999_999).is_some());
    assert!(Timestamp::new(253_402_300_800, 0).is_none());
    assert!(Timestamp::new(0, 1_000_000_000).is_none());
    assert!(Timestamp::new(59, 1_000_000_000).is_some());
    assert!(Timestamp::new(-1, 1_999_999_999).is_some());
    assert!(Timestamp::new(-2, 1_000_000_000).is_none());
    assert!(Timestamp::new(59, 2_000_000_000).is_none());
    let t = Timestamp::new(12, 34).expect("in range");
    assert_eq!(t.secs(), 12);
    assert_eq!(t.subsec_nanos(), 34);
}

#[test]
fn instants_are_ordered_by_seconds_then_nanoseconds() {
    let early = Timestamp::new(10, 5).expect("in range");
    let later = Timestamp::new(10, 6).expect("in range");
    let latest = Timestamp::new(11, 0).expect("in range");
    assert!(later.later_than(&early));
    assert!(latest.later_than(&later));
    assert!(!early.later_than(&later));
    assert!(!early.later_than(&early));
    assert!(Timestamp::new(-5, 0).expect("in range").later_than(&Timestamp::new(-6, 999).expect("in range")));
}

#[test]
fn out_of_range_seconds_are_brought_to_the_nearest_bound() {
    assert_eq!(Timestamp::from_secs_saturating(5).secs(), 5);
    assert_eq!(Timestamp::from_secs_saturating(i64::MAX).secs(), 253_402_300_799);
    assert_eq!(Timestamp::from_secs_saturating(i64::MIN).secs(), -62_167_219_200);
    assert_eq!(Timestamp::from_secs_saturating(5).subsec_nanos(), 0);
    let now = Timestamp::now();
    assert!(now.secs() > 1_600_000_000);
}

#[test]
fn instants_are_written_and_read_in_rfc_3339() {
    let t = Timestamp::new(1_700_000_000, 250_000_000).expect("in range");
    assert_eq!(t.to_rfc3339(), "2023-11-14T22:13:20.250+00:00");
    assert_eq!(Timestamp::parse_from_rfc3339(&t.to_rfc3339()), Some(t));
    assert_eq!(
        Timestamp::parse_from_rfc3339("2023-11-14T23:13:20.25+01:00"),
        Some(t)
    );
    assert_eq!(
        Timestamp::new(-62_167_219_200, 0).expect("in range").to_rfc3339(),
        "0000-01-01T00:00:00+00:00"
    );
    assert!(Timestamp::parse_from_rfc3339("2023-11-14 22:13:20").is_none());
    assert!(Timestamp::parse_from_rfc3339("").is_none());
    assert!(Timestamp::parse_from_rfc3339("9999-12-31T23:59:59-01:00").is_none());
}

#[test]
fn identifiers_are_written_hyphenated_in_lowercase() {
    assert_eq!(id_to_text(0), "00000000-0000-0000-0000-000000000000");
    assert_eq!(id_to_text(u128::MAX), "ffffffff-ffff-ffff-ffff-ffffffffffff");
    assert_eq!(
        id_to_text(0x0123_4567_89ab_cdef_0123_4567_89ab_cdef),
        "01234567-89ab-cdef-0123-456789abcdef"
    );
    assert_eq!(id_from_text("01234567-89ab-cdef-0123-456789abcdef"), Some(0x0123_4567_89ab_cdef_0123_4567_89ab_cdef));
    assert_eq!(id_from_text("0123456789ABCDEF0123456789ABCDEF"), Some(0x0123_4567_89ab_cdef_0123_4567_89ab_cdef));
    assert_eq!(id_from_text("0123"), None);
    assert_eq!(id_from_text(""), None);
}

#[test]
fn instants_go_to_milliseconds_and_back() {
    let t = Timestamp::new(1_700_000_000, 123_456_789).expect("in range");
    assert_eq!(t.millis(), 1_700_000_000_123);
    assert_eq!(
        Timestamp::from_millis(1_700_000_000_123),
        Timestamp::new(1_700_000_000, 123_000_000)
    );
    assert_eq!(Timestamp::from_millis(-1), Timestamp::new(-1, 999_000_000));
    assert_eq!(Timestamp::from_millis(-1).expect("in range").millis(), -1);
    assert_eq!(Timestamp::from_millis(-62_167_219_200_000), Timestamp::new(-62_167_219_200, 0));
    assert!(Timestamp::from_millis(-62_167_219_200_001).is_none());
    assert!(Timestamp::from_millis(253_402_300_799_999).is_some());
    assert!(Timestamp::from_millis(253_402_300_800_000).is_none());
    assert!(Timestamp::from_millis(i64::MAX).is_none());
    assert!(Timestamp::from_millis(i64::MIN).is_none());
}

#[test]
fn first_version_is_one() {
    assert_eq!(default_sync_version(), 1);
}

#[test]
fn items_are_compared_field_by_field() {
    let a = item(1, "a", 5);
    assert!(a.same_as(&a.clone()));
    let mut b = a.clone();
    b.url = Some(String::new());
    assert!(!a.same_as(&b));
    let mut c = a.clone();
    c.nonce[11] = 1;
    assert!(!a.same_as(&c));
    let mut d = a.clone();
    d.encrypted_data.push(0);
    assert!(!a.same_as(&d));
    assert!(same_text(&None, &None));
    assert!(!same_text(&None, &Some(String::new())));
    assert!(same_text(&Some("x".to_owned()), &clone_text(&Some("x".to_owned()))));
    assert!(same_bytes(&[1, 2], &[1, 2]));
    assert!(!same_bytes(&[1, 2], &[1, 3]));
    assert!(!same_bytes(&[1, 2], &[1]));
    assert!(same_str("a\u{00e4}", "a\u{00e4}"));
    assert!(!same_str("a", "A"));
}

#[test]
fn memory_repository_lists_the_latest_update_first() {
    let mut repo = MemoryRepository::new();
    repo.init().expect("initializes");
    repo.upsert_item(&item(1, "old", 10)).expect("stores");
    repo.upsert_item(&item(2, "new", 30)).expect("stores");
    repo.upsert_item(&item(3, "mid", 20)).expect("stores");
    let listed: Vec<u128> = repo.list_items().expect("lists").iter().map(|item| item.id).collect();
    assert_eq!(listed, vec![2, 3, 1]);
    repo.upsert_item(&item(1, "newest", 40)).expect("replaces");
    let listed = repo.list_items().expect("lists");
    assert_eq!(listed.len(), 3);
    assert_eq!(listed[0].title, "newest");
    assert_eq!(listed[2].id, 3);
}

#[test]
fn memory_repository_reports_absent_records() {
    let mut repo = MemoryRepository::new();
    assert!(matches!(repo.get_item(1), Err(ChacrabError::NotFound)));
    assert!(matches!(repo.delete_item(1), Err(ChacrabError::NotFound)));
    assert!(repo.delete_tombstone(1).is_ok());
    repo.upsert_item(&item(1, "a", 10)).expect("stores");
    assert_eq!(repo.get_item(1).expect("stored").title, "a");
    repo.delete_item(1).expect("deletes");
    assert!(repo.list_items().expect("lists").is_empty());
    let tombstone = SyncTombstone { id: 1, deleted_at: Timestamp::new(5, 0).expect("in range"), sync_version: 2 };
    repo.upsert_tombstone(&tombstone).expect("stores");
    repo.upsert_tombstone(&SyncTombstone { sync_version: 3, ..tombstone }).expect("replaces");
    assert_eq!(repo.list_tombstones().expect("lists"), vec![SyncTombstone { sync_version: 3, ..tombstone }]);
    repo.delete_tombstone(1).expect("deletes");
    assert!(repo.list_tombstones().expect("lists").is_empty());
}

#[test]
fn memory_repository_keeps_one_auth_record() {
    let mut repo = MemoryRepository::new();
    assert!(repo.get_auth_record().expect("reads").is_none());
    let record = AuthRecord {
        salt: "salt".to_owned(),
        verifier: "verifier".to_owned(),
        argon2_m_cost: 1,
        argon2_t_cost: 2,
        argon2_p_cost: 3,
    };
    repo.set_auth_record(&record).expect("stores");
    repo.set_auth_record(&AuthRecord { salt: "other".to_owned(), ..record.clone() }).expect("replaces");
    let read = repo.get_auth_record().expect("reads").expect("stored");
    assert_eq!(read.salt, "other");
    assert_eq!(read.argon2_p_cost, 3);
}

#[test]
fn policy_names_the_reason() {
    match validate_master_password("Aa1!short") {
        Err(ChacrabError::Config(reason)) => {
            assert_eq!(reason, "weak master password: use at least 12 characters")
        }
        other => panic!("expected a configuration error, got {:?}", other),
    }
    match validate_master_password("alllowercase12") {
        Err(ChacrabError::Config(reason)) => {
            assert_eq!(reason, "weak master password: use at least 3 of upper/lower/digit/symbol")
        }
        other => panic!("expected a configuration error, got {:?}", other),
    }
    assert!(validate_master_password("aaaaaaaaaaaA").is_err());
    assert!(validate_master_password("aaaaaaaaaaA1").is_ok());
    assert!(validate_master_password("aaaaaaaaaa1!").is_ok());
    assert!(validate_master_password("AAAAAAAAAA1\u{00e4}").is_ok());
    assert!(validate_master_password("aaaaaaaaaaA ").is_err());
    assert!(validate_master_password("aaaaaaaaaaA\u{00a0}").is_err());
    assert!(validate_master_password("\u{00e4}\u{00e4}\u{00e4}\u{00e4}\u{00e4}\u{00e4}\u{00e4}\u{00e4}\u{00e4}\u{00e4}a1").is_ok());
    assert!(validate_master_password("\u{00e4}\u{00e4}\u{00e4}\u{00e4}\u{00e4}a1").is_err());
}

#[test]
fn classes_are_found_one_by_one() {
    let found = classes_of("aB3$");
    assert!(found.lower && found.upper && found.digit && found.symbol);
    let found = classes_of("abc def\t");
    assert!(found.lower && !found.upper && !found.digit && !found.symbol);
    let found = classes_of("");
    assert!(!found.lower && !found.upper && !found.digit && !found.symbol);
    let found = classes_of("\u{3000}\u{2028}\u{0085}");
    assert!(!found.symbol);
    let found = classes_of("\u{200b}");
    assert!(found.symbol);
}

#[test]
fn white_space_is_the_unicode_property() {
    for code in 0u32..=0x3100 {
        if let Some(c) = char::from_u32(code) {
            assert_eq!(char_is_whitespace(c), c.is_whitespace());
        }
    }
    assert!(!char_is_whitespace('\u{feff}'));
}

#[test]
fn text_helpers_work_on_characters() {
    let text = chars_of("  H\u{00e4}llo W\u{00d6}RLD\u{2003}\n");
    assert_eq!(text.len(), 15);
    assert_eq!(string_of(&trim(&text)), "H\u{00e4}llo W\u{00d6}RLD");
    assert_eq!(string_of(&to_ascii_lowercase(&text)), "  h\u{00e4}llo w\u{00d6}rld\u{2003}\n");
    assert_eq!(string_of(&trim(&chars_of(" \t "))), "");
    assert_eq!(string_of(&trim(&chars_of(""))), "");
    assert_eq!(string_of(&trim(&chars_of("x"))), "x");
    assert!(starts_with(&chars_of("abc"), &chars_of("ab")));
    assert!(starts_with(&chars_of("abc"), &chars_of("")));
    assert!(!starts_with(&chars_of("ab"), &chars_of("abc")));
    assert!(contains(&chars_of("abc"), &chars_of("bc")));
    assert!(contains(&chars_of("abc"), &chars_of("")));
    assert!(contains(&chars_of(""), &chars_of("")));
    assert!(!contains(&chars_of("abc"), &chars_of("cb")));
    assert!(!contains(&chars_of("ab"), &chars_of("abc")));
    assert!(contains(&chars_of("aab"), &chars_of("ab")));
}

#[test]
fn listing_is_arranged_with_the_latest_update_first() {
    let arranged = chacrab::repository::arrange_newest_first(vec![
        item(1, "a", 10),
        item(2, "b", 30),
        item(3, "c", 20),
        item(4, "d", 30),
        item(5, "e", 5),
    ]);
    let times: Vec<i64> = arranged.iter().map(|entry| entry.updated_at.secs()).collect();
    assert_eq!(times, vec![30, 30, 20, 10, 5]);
    let mut ids: Vec<u128> = arranged.iter().map(|entry| entry.id).collect();
    ids.sort();
    assert_eq!(ids, vec![1, 2, 3, 4, 5]);
    assert_eq!(arranged[2].title, "c");
    assert!(chacrab::repository::arrange_newest_first(Vec::new()).is_empty());
}

#[test]
fn arranging_tells_instants_within_one_second_apart() {
    let mut early = item(1, "early", 10);
    early.updated_at = Timestamp::new(10, 1).expect("in range");
    let mut late = item(2, "late", 10);
    late.updated_at = Timestamp::new(10, 2).expect("in range");
    let arranged = chacrab::repository::arrange_newest_first(vec![early, late]);
    assert_eq!(arranged[0].id, 2);
    assert_eq!(arranged[1].id, 1);
}
