use pg_cdc::source::{
    check_replica_identity, clean_replication_url, create_slot_query, replica_identity_of,
    replica_identity_query, slot_exists_already, split_table_name, start_replication_query,
    IdentityVerdict, ReplicaIdentity,
};
use pg_cdc::wire::{
    build_standby_status_update, format_lsn, pg_timestamp, pg_timestamp_at,
    standby_status_update_at, PG_EPOCH_OFFSET_USEC,
};

#[test]
fn lsn_is_formatted() {
    assert_eq!(format_lsn(0), "0/0");
    assert_eq!(format_lsn((0x16 << 32) | 0xB374D848), "16/B374D848");
}

#[test]
fn lsn_is_written_as_two_hexadecimal_halves() {
    assert_eq!(format_lsn(1), "0/1");
    assert_eq!(format_lsn(0xF), "0/F");
    assert_eq!(format_lsn(0x10), "0/10");
    assert_eq!(format_lsn(0xFFFF_FFFF), "0/FFFFFFFF");
    assert_eq!(format_lsn(0x1_0000_0000), "1/0");
    assert_eq!(format_lsn(0xABCDEF01_00000A0B), "ABCDEF01/A0B");
    assert_eq!(format_lsn(u64::MAX), "FFFFFFFF/FFFFFFFF");
    for lsn in [0u64, 9, 10, 255, 4096, 0x1234_5678_9ABC_DEF0, u64::MAX - 1] {
        assert_eq!(format_lsn(lsn), format!("{:X}/{:X}", lsn >> 32, lsn & 0xFFFF_FFFF));
    }
}

#[test]
fn standby_status_update_has_its_fixed_shape() {
    for lsn in [0u64, 1, 0x16_B374_D848, 0x0102_0304_0506_0708, u64::MAX] {
        let frame = build_standby_status_update(lsn);
        assert_eq!(frame.len(), 34);
        assert_eq!(frame[0], 0x72);
        assert_eq!(frame[0], b'r');
        assert_eq!(&frame[1..9], &lsn.to_be_bytes());
        assert_eq!(&frame[1..9], &frame[9..17]);
        assert_eq!(&frame[1..9], &frame[17..25]);
        assert_eq!(frame[33], 0);
    }
}

#[test]
fn standby_status_update_carries_the_timestamp() {
    let frame = standby_status_update_at(0x0102_0304_0506_0708, 0x1122_3344_5566_7788);
    let expected: Vec<u8> = vec![
        0x72, 1, 2, 3, 4, 5, 6, 7, 8, 1, 2, 3, 4, 5, 6, 7, 8, 1, 2, 3, 4, 5, 6, 7, 8, 0x11, 0x22,
        0x33, 0x44, 0x55, 0x66, 0x77, 0x88, 0,
    ];
    assert_eq!(frame.to_vec(), expected);

    let frame = standby_status_update_at(u64::MAX, -2);
    let mut expected = vec![0x72u8];
    expected.extend_from_slice(&[0xff; 24]);
    expected.extend_from_slice(&[0xff, 0xff, 0xff, 0xff, 0xff, 0xff, 0xff, 0xfe]);
    expected.push(0);
    assert_eq!(frame.to_vec(), expected);

    let frame = standby_status_update_at(0, i64::MIN);
    assert_eq!(&frame[25..33], &i64::MIN.to_be_bytes());
    assert_eq!(&frame[1..25], &[0u8; 24]);
}

#[test]
fn standby_status_update_is_stamped_with_the_clock() {
    let before = pg_timestamp();
    let frame = build_standby_status_update(7);
    let after = pg_timestamp();
    let mut stamp = [0u8; 8];
    stamp.copy_from_slice(&frame[25..33]);
    let stamp = i64::from_be_bytes(stamp);
    assert!(before <= stamp && stamp <= after);
}

#[test]
fn pg_timestamp_counts_from_the_year_2000() {
    assert_eq!(PG_EPOCH_OFFSET_USEC, 946_684_800_000_000);
    assert_eq!(pg_timestamp_at(946_684_800_000_000), 0);
    assert_eq!(pg_timestamp_at(946_684_800_000_001), 1);
    assert_eq!(pg_timestamp_at(0), -946_684_800_000_000);
    assert_eq!(pg_timestamp_at(1_718_452_800_000_000), 771_768_000_000_000);
    assert_eq!(pg_timestamp_at(i64::MAX as u128), i64::MAX - 946_684_800_000_000);
    // Beyond 64 bits the count is cut down and the difference wraps around.
    assert_eq!(pg_timestamp_at(1u128 << 64), -946_684_800_000_000);
    assert_eq!(pg_timestamp_at(u128::MAX), -946_684_800_000_001);
    assert_eq!(pg_timestamp_at(i64::MAX as u128 + 1), i64::MAX - 946_684_799_999_999);
    let unix_now = std::time::SystemTime::now()
        .duration_since(std::time::UNIX_EPOCH)
        .unwrap()
        .as_micros() as i64;
    let now = pg_timestamp();
    // After 2024, and within a minute of the system clock.
    assert!(now > 757_382_400_000_000);
    assert!((now - (unix_now - 946_684_800_000_000)).abs() < 60_000_000);
}

#[test]
fn replication_parameter_is_removed_from_the_url() {
    assert_eq!(
        clean_replication_url("postgres://u:p@h:5432/db?replication=database"),
        "postgres://u:p@h:5432/db"
    );
    assert_eq!(
        clean_replication_url("postgres://h/db?sslmode=require&replication=database"),
        "postgres://h/db?sslmode=require"
    );
    assert_eq!(
        clean_replication_url("postgres://h/db?a=1&replication=database&b=2"),
        "postgres://h/db?a=1&b=2"
    );
    // At the head of the query string the question mark stays for what follows.
    assert_eq!(
        clean_replication_url("postgres://u@h/db?replication=database&sslmode=disable"),
        "postgres://u@h/db?sslmode=disable"
    );
    assert_eq!(
        clean_replication_url("postgres://h/db?replication=database&a=1&b=2"),
        "postgres://h/db?a=1&b=2"
    );
    // Every such pair goes.
    assert_eq!(
        clean_replication_url("db?replication=database&replication=database&x=1"),
        "db?x=1"
    );
    assert_eq!(clean_replication_url("db?replication=database&replication=database"), "db");
    assert_eq!(
        clean_replication_url("db?a=1&replication=database&replication=database"),
        "db?a=1"
    );
}

#[test]
fn urls_without_the_replication_pair_are_kept() {
    for url in [
        "",
        "postgres://h/db",
        "postgres://h/db?",
        "postgres://h/db?sslmode=require",
        "postgres://h/db?a=1&b=2",
        "postgres://h/db?a=1&&b=2&",
        // Other pairs that only look alike.
        "postgres://h/db?replication=true",
        "postgres://h/db?replication=database2",
        "postgres://h/db?xreplication=database",
        "postgres://h/db?replication=databasereplication=database",
        "postgres://h/db?REPLICATION=DATABASE",
        // No query string: nothing to take a pair from.
        "replication=database",
        "replication=database&x=1",
        "postgres://h/db&replication=database",
        // A second question mark belongs to a pair.
        "db?a?replication=database",
    ] {
        assert_eq!(clean_replication_url(url), url);
    }
    assert_eq!(clean_replication_url("db?a&replication=database?"), "db?a&replication=database?");
    assert_eq!(clean_replication_url("?replication=database"), "");
    assert_eq!(clean_replication_url("?replication=database&"), "?");
    assert_eq!(clean_replication_url("?&replication=database"), "?");
}

#[test]
fn only_an_existing_slot_is_passed_over() {
    assert!(slot_exists_already(Some("42710")));
    assert!(!slot_exists_already(None));
    for state in ["", "42P01", "42501", "4271", "427100", "08006", "55006", "42710 "] {
        assert!(!slot_exists_already(Some(state)), "{:?}", state);
    }
}

#[test]
fn commands_are_spelled_out() {
    assert_eq!(
        create_slot_query("cdc_slot"),
        "SELECT pg_create_logical_replication_slot('cdc_slot', 'pgoutput')"
    );
    assert_eq!(
        start_replication_query("cdc_slot", 0, "cdc_pub"),
        "START_REPLICATION SLOT cdc_slot LOGICAL 0/0 (proto_version '1', publication_names 'cdc_pub')"
    );
    assert_eq!(
        start_replication_query("s", (0x16 << 32) | 0xB374D848, "p"),
        "START_REPLICATION SLOT s LOGICAL 16/B374D848 (proto_version '1', publication_names 'p')"
    );
    assert_eq!(
        start_replication_query("", u64::MAX, ""),
        "START_REPLICATION SLOT  LOGICAL FFFFFFFF/FFFFFFFF (proto_version '1', publication_names '')"
    );
}

#[test]
fn replica_identity_is_asked_of_the_catalog() {
    assert_eq!(
        replica_identity_query(),
        "SELECT c.relreplident, c.relname FROM pg_class c \
         JOIN pg_namespace n ON c.relnamespace = n.oid \
         WHERE c.relname = $1 AND n.nspname = COALESCE($2, 'public')"
    );
}

#[test]
fn table_names_are_split_at_the_schema() {
    let parts = |t: &str| {
        let name = split_table_name(t);
        (name.schema, name.name)
    };
    assert_eq!(parts("orders"), ("public".to_string(), "orders".to_string()));
    assert_eq!(parts("sales.orders"), ("sales".to_string(), "orders".to_string()));
    assert_eq!(parts("a.b.c"), ("a".to_string(), "b".to_string()));
    assert_eq!(parts(".orders"), ("".to_string(), "orders".to_string()));
    assert_eq!(parts("sales."), ("sales".to_string(), "".to_string()));
    assert_eq!(parts("."), ("".to_string(), "".to_string()));
    assert_eq!(parts(""), ("public".to_string(), "".to_string()));
    assert_eq!(parts("schéma.täble"), ("schéma".to_string(), "täble".to_string()));
}

#[test]
fn replica_identity_codes_are_read() {
    assert_eq!(replica_identity_of(b'f' as i8), ReplicaIdentity::Full);
    assert_eq!(replica_identity_of(b'd' as i8), ReplicaIdentity::Default);
    assert_eq!(replica_identity_of(b'i' as i8), ReplicaIdentity::Index);
    assert_eq!(replica_identity_of(b'n' as i8), ReplicaIdentity::Nothing);
    assert_eq!(replica_identity_of(b'x' as i8), ReplicaIdentity::Unknown(b'x'));
    assert_eq!(replica_identity_of(b'F' as i8), ReplicaIdentity::Unknown(b'F'));
    assert_eq!(replica_identity_of(0), ReplicaIdentity::Unknown(0));
    assert_eq!(replica_identity_of(-1), ReplicaIdentity::Unknown(255));
    assert_eq!(replica_identity_of(i8::MIN), ReplicaIdentity::Unknown(128));
    for code in i8::MIN..=i8::MAX {
        let expected = match code as u8 as char {
            'f' => ReplicaIdentity::Full,
            'd' => ReplicaIdentity::Default,
            'i' => ReplicaIdentity::Index,
            'n' => ReplicaIdentity::Nothing,
            _ => ReplicaIdentity::Unknown(code as u8),
        };
        assert_eq!(replica_identity_of(code), expected);
    }
}

#[test]
fn only_replica_identity_nothing_is_fatal() {
    assert_eq!(ReplicaIdentity::Full.verdict(), IdentityVerdict::Accepted);
    assert_eq!(ReplicaIdentity::Default.verdict(), IdentityVerdict::Warning);
    assert_eq!(ReplicaIdentity::Index.verdict(), IdentityVerdict::Notice);
    assert_eq!(ReplicaIdentity::Nothing.verdict(), IdentityVerdict::Fatal);
    assert_eq!(ReplicaIdentity::Unknown(b'?').verdict(), IdentityVerdict::Warning);

    assert_eq!(check_replica_identity(b'f' as i8, "orders", "public.orders"), Ok(ReplicaIdentity::Full));
    assert_eq!(check_replica_identity(b'd' as i8, "orders", "public.orders"), Ok(ReplicaIdentity::Default));
    assert_eq!(check_replica_identity(b'i' as i8, "orders", "public.orders"), Ok(ReplicaIdentity::Index));
    assert_eq!(check_replica_identity(b'z' as i8, "orders", "public.orders"), Ok(ReplicaIdentity::Unknown(b'z')));
    assert_eq!(
        check_replica_identity(b'n' as i8, "orders", "public.orders"),
        Err("Table 'orders' has REPLICA IDENTITY NOTHING. This is not supported for CDC. \
             Run: ALTER TABLE public.orders REPLICA IDENTITY FULL;"
            .to_string())
    );
    for code in i8::MIN..=i8::MAX {
        assert_eq!(check_replica_identity(code, "t", "t").is_err(), code == b'n' as i8);
    }
}
