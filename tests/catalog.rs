use customer_tracker::catalog::{definition_for, order_catalog, MigrationDefinition};

fn def(version: &str) -> MigrationDefinition {
    MigrationDefinition { version: version.to_string(), location: format!("migrations/{}.sql", version) }
}

#[test]
fn sql_file_gives_its_stem() {
    let d = definition_for("001_init.sql", "migrations/001_init.sql".to_string()).unwrap();
    assert_eq!(d.version, "001_init");
    assert_eq!(d.location, "migrations/001_init.sql");
}

#[test]
fn only_the_last_extension_counts() {
    let d = definition_for("002.seed.sql", "m/002.seed.sql".to_string()).unwrap();
    assert_eq!(d.version, "002.seed");
    assert!(definition_for("003.sql.bak", "m/003.sql.bak".to_string()).is_none());
}

#[test]
fn other_files_are_not_migrations() {
    assert!(definition_for("README.md", "m/README.md".to_string()).is_none());
    assert!(definition_for("noextension", "m/noextension".to_string()).is_none());
    assert!(definition_for("upper.SQL", "m/upper.SQL".to_string()).is_none());
    assert!(definition_for("trailing.", "m/trailing.".to_string()).is_none());
}

#[test]
fn hidden_file_named_sql_has_no_extension() {
    assert!(definition_for(".sql", "m/.sql".to_string()).is_none());
}

#[test]
fn reverse_listing_is_ordered_by_version() {
    let got = order_catalog(vec![def("002_seed"), def("001_init")]);
    let versions: Vec<&str> = got.iter().map(|d| d.version.as_str()).collect();
    assert_eq!(versions, vec!["001_init", "002_seed"]);
    assert_eq!(got[0].location, "migrations/001_init.sql");
}

#[test]
fn any_listing_order_gives_the_same_catalog() {
    let a = order_catalog(vec![def("20240102"), def("20240101"), def("20231231"), def("20240101a")]);
    let b = order_catalog(vec![def("20240101a"), def("20231231"), def("20240102"), def("20240101")]);
    assert_eq!(a, b);
    let versions: Vec<&str> = a.iter().map(|d| d.version.as_str()).collect();
    assert_eq!(versions, vec!["20231231", "20240101", "20240101a", "20240102"]);
}

#[test]
fn order_is_lexicographic_not_numeric() {
    let got = order_catalog(vec![def("10_b"), def("9_a"), def("100_c")]);
    let versions: Vec<&str> = got.iter().map(|d| d.version.as_str()).collect();
    assert_eq!(versions, vec!["100_c", "10_b", "9_a"]);
}

#[test]
fn empty_catalog_stays_empty() {
    assert!(order_catalog(Vec::new()).is_empty());
}
