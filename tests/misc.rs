use customer_tracker::migrator::DatabaseMigrator;
use customer_tracker::pagination::{default_limit, default_page, page_range};
use customer_tracker::validation::{
    phone_verdict, username_verdict, validate_name, validate_password, validate_phone, validate_rate,
    validate_username,
};

#[test]
fn sqlite_url_names_its_file() {
    let m = DatabaseMigrator::new("sqlite://./data/customer_tracker.db".to_string());
    assert_eq!(m.database_file(), Some("./data/customer_tracker.db".to_string()));
    assert_eq!(m.url(), "sqlite://./data/customer_tracker.db");
}

#[test]
fn other_urls_have_no_file() {
    assert_eq!(DatabaseMigrator::new("postgres://localhost/db".to_string()).database_file(), None);
    assert_eq!(DatabaseMigrator::new("sqlite:".to_string()).database_file(), None);
    assert_eq!(DatabaseMigrator::new("sqlite:/x.db".to_string()).database_file(), None);
    assert_eq!(DatabaseMigrator::new("sqlite://".to_string()).database_file(), Some(String::new()));
}

#[test]
fn usernames() {
    assert!(validate_username("alice_01"));
    assert!(!validate_username("al"));
    assert!(!validate_username("has space"));
    assert!(!validate_username("名字名字"));
    assert!(!validate_username(&"a".repeat(51)));
    assert!(validate_username(&"a".repeat(50)));
    assert!(username_verdict("abc", true));
    assert!(!username_verdict("abc", false));
    assert!(!username_verdict("ab", true));
}

#[test]
fn phones() {
    assert!(validate_phone(""));
    assert!(validate_phone("+86 (010) 1234-5678"));
    assert!(!validate_phone("12345"));
    assert!(!validate_phone("call me maybe"));
    assert!(phone_verdict("", false));
    assert!(!phone_verdict("123", false));
}

#[test]
fn passwords() {
    assert!(validate_password("secret"));
    assert!(!validate_password("12345"));
    assert!(validate_password("密码"));
}

#[test]
fn names() {
    assert!(validate_name("张三"));
    assert!(!validate_name("   "));
    assert!(!validate_name(""));
    assert!(validate_name(&"n".repeat(100)));
    assert!(!validate_name(&"n".repeat(101)));
}

#[test]
fn rates() {
    assert!(validate_rate(0));
    assert!(validate_rate(5));
    assert!(!validate_rate(-1));
    assert!(!validate_rate(6));
}

#[test]
fn default_paging() {
    assert_eq!(default_page(), 1);
    assert_eq!(default_limit(), 20);
}

#[test]
fn page_windows() {
    assert_eq!(page_range(45, 1, 20), (0, 20));
    assert_eq!(page_range(45, 3, 20), (40, 45));
    let (a, b) = page_range(45, 4, 20);
    assert_eq!(a, b);
    let (c, d) = page_range(10, u64::MAX, u64::MAX);
    assert_eq!(c, d);
    assert_eq!(page_range(0, 1, 0), (0, 0));
}
