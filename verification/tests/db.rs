use p2p_app::db::{
    db_candidate, db_number, lock_claim, lock_content, lock_path, max_db_number, parse_u32,
    reset_db_url, set_db_url, LockClaim, LockContent,
};
use p2p_app::nickname::DisplayNameCache;

#[test]
fn parse_u32_like_str_parse() {
    assert_eq!(parse_u32("0"), Some(0));
    assert_eq!(parse_u32("+42"), Some(42));
    assert_eq!(parse_u32("4294967295"), Some(u32::MAX));
    assert_eq!(parse_u32("4294967296"), None);
    assert_eq!(parse_u32("99999999999"), None);
    assert_eq!(parse_u32(""), None);
    assert_eq!(parse_u32("+"), None);
    assert_eq!(parse_u32("-1"), None);
    assert_eq!(parse_u32(" 1"), None);
    assert_eq!(parse_u32("1a"), None);
    for s in ["7", "+7", "007", "-0", "x", "123456"] {
        assert_eq!(parse_u32(s), s.parse::<u32>().ok(), "{s}");
    }
}

#[test]
fn lock_file_contents() {
    assert_eq!(lock_content(" 1234\n"), LockContent::Pid(1234));
    assert_eq!(lock_content("0"), LockContent::Zero);
    assert_eq!(lock_content("garbage"), LockContent::Invalid);
    assert_eq!(lock_content(""), LockContent::Invalid);
    assert_eq!(lock_claim("77", 77), LockClaim::Ours);
    assert_eq!(lock_claim("78", 77), LockClaim::CheckAlive(78));
    assert_eq!(lock_claim("0", 77), LockClaim::Reclaim);
    assert_eq!(lock_claim("??", 77), LockClaim::Reclaim);
    assert_eq!(lock_path("/tmp/p2p.db"), "/tmp/p2p.db.lock");
}

#[test]
fn database_numbers() {
    assert_eq!(db_number("sqlite_3.db"), Some(3));
    assert_eq!(db_number("sqlite_sqlite_4.db.db"), Some(4));
    assert_eq!(db_number("12.db"), Some(12));
    assert_eq!(db_number("sqlite_.db"), None);
    assert_eq!(db_number("notes.db"), None);
    assert_eq!(db_number("sqlite_x.db"), None);
    let names: Vec<String> = ["sqlite_2.db", "other.db", "sqlite_10.db", "sqlite_9.db"]
        .iter()
        .map(|s| s.to_string())
        .collect();
    assert_eq!(max_db_number(&names), 10);
    assert_eq!(max_db_number(&Vec::new()), 0);
}

#[test]
fn database_candidates() {
    assert_eq!(db_candidate(10, 0).as_deref(), Some("sqlite_11.db"));
    // The first retry asks for the same name again, later ones step up.
    assert_eq!(db_candidate(10, 1).as_deref(), Some("sqlite_11.db"));
    assert_eq!(db_candidate(10, 2).as_deref(), Some("sqlite_12.db"));
    assert_eq!(db_candidate(u32::MAX, 3).as_deref(), Some("sqlite_4294967295.db"));
    assert_eq!(db_candidate(0, 1000).as_deref(), Some("sqlite_1000.db"));
    assert!(db_candidate(0, 1001).is_none());
}

#[test]
fn database_url_slot() {
    let mut slot: Option<String> = None;
    let mut names = DisplayNameCache::new();
    names.remember("peer-1".to_string(), "Ann (r-1)".to_string());
    set_db_url(&mut slot, &mut names, "/tmp/a.db");
    assert_eq!(slot.as_deref(), Some("/tmp/a.db"));
    assert!(names.get("peer-1").is_none());
    names.remember("peer-2".to_string(), "Bo (r-2)".to_string());
    reset_db_url(&mut slot, &mut names);
    assert!(slot.is_none());
    assert!(names.get("peer-2").is_none());
}

#[test]
fn display_name_cache_remembers_and_forgets() {
    let mut names = DisplayNameCache::new();
    assert!(names.get("p").is_none());
    names.remember("p".to_string(), "Ann (p)".to_string());
    names.remember("q".to_string(), "Bo (q)".to_string());
    assert_eq!(names.get("p").as_deref(), Some("Ann (p)"));
    names.remember("p".to_string(), "Anna (p)".to_string());
    assert_eq!(names.get("p").as_deref(), Some("Anna (p)"));
    names.invalidate("p");
    assert!(names.get("p").is_none());
    assert_eq!(names.get("q").as_deref(), Some("Bo (q)"));
    names.clear();
    assert!(names.get("q").is_none());
}
