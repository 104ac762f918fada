use customer_tracker::splitter::split_statements;

fn split(text: &str) -> Vec<String> {
    split_statements(text)
}

#[test]
fn comment_and_blank_lines_are_dropped() {
    let got = split("-- note\nCREATE TABLE a (id INT);\n\nCREATE TABLE b (id INT);");
    assert_eq!(got, vec!["CREATE TABLE a (id INT)".to_string(), "CREATE TABLE b (id INT)".to_string()]);
}

#[test]
fn unterminated_tail_is_one_statement() {
    let got = split("CREATE TABLE c (id INT)");
    assert_eq!(got, vec!["CREATE TABLE c (id INT)".to_string()]);
}

#[test]
fn unterminated_tail_is_trimmed() {
    let got = split("   CREATE TABLE c (id INT)   \n\n");
    assert_eq!(got, vec!["CREATE TABLE c (id INT)".to_string()]);
}

#[test]
fn lines_are_joined_with_single_spaces() {
    let got = split("CREATE TABLE t (\n    id INT,\n    name TEXT\n);\n");
    assert_eq!(got, vec!["CREATE TABLE t ( id INT, name TEXT )".to_string()]);
}

#[test]
fn comment_inside_statement_is_dropped() {
    let got = split("INSERT INTO t\n  -- the values\nVALUES (1);");
    assert_eq!(got, vec!["INSERT INTO t VALUES (1)".to_string()]);
}

#[test]
fn empty_and_blank_inputs_yield_nothing() {
    assert!(split("").is_empty());
    assert!(split("\n \n\t\n").is_empty());
    assert!(split("-- only a comment\n--another").is_empty());
}

#[test]
fn lone_terminators_yield_no_statement() {
    assert!(split(";\n  ;  \n").is_empty());
}

#[test]
fn trailing_terminators_are_all_stripped() {
    let got = split("DROP TABLE x;;\nSELECT 1 ;");
    assert_eq!(got, vec!["DROP TABLE x".to_string(), "SELECT 1".to_string()]);
}

#[test]
fn terminator_only_counts_at_line_end() {
    let got = split("SELECT 1; SELECT 2\nSELECT 3;");
    assert_eq!(got, vec!["SELECT 1; SELECT 2 SELECT 3".to_string()]);
}

#[test]
fn crlf_line_endings() {
    let got = split("CREATE TABLE a (id INT);\r\nCREATE TABLE b (id INT);\r\n");
    assert_eq!(got, vec!["CREATE TABLE a (id INT)".to_string(), "CREATE TABLE b (id INT)".to_string()]);
}

#[test]
fn unicode_text_is_kept() {
    let got = split("INSERT INTO t VALUES ('继续跟进');\u{3000}\n");
    assert_eq!(got, vec!["INSERT INTO t VALUES ('继续跟进')".to_string()]);
}

#[test]
fn dash_not_at_line_start_is_not_a_comment() {
    let got = split("SELECT 1 - -1;");
    assert_eq!(got, vec!["SELECT 1 - -1".to_string()]);
}
