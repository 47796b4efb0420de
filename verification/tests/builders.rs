//! The query-text builders and small string helpers.

use tg::utils;

fn strings(v: &[&str]) -> Vec<String> {
    v.iter().map(|s| s.to_string()).collect()
}

#[test]
fn values_marks_empty() {
    assert_eq!(utils::list_to_values(&Vec::new()), "");
}

#[test]
fn values_marks_one() {
    assert_eq!(utils::list_to_values(&strings(&["red"])), "(?)");
}

#[test]
fn values_marks_three() {
    assert_eq!(utils::list_to_values(&strings(&["a", "b", "c"])), "(?),(?),(?)");
}

#[test]
fn tuple_marks_empty() {
    assert_eq!(utils::list_to_sql(&Vec::new()), "()");
}

#[test]
fn tuple_marks_two() {
    assert_eq!(utils::list_to_sql(&strings(&["a", "b"])), "(?,?)");
}

#[test]
fn root_list_to_sql_reports_len() {
    let (n, marks) = tg::list_to_sql(&strings(&["a", "b", "c"]));
    assert_eq!(n, 3);
    assert_eq!(marks, "(?,?,?)");
}

#[test]
fn root_list_to_sql_empty() {
    let (n, marks) = tg::list_to_sql(&Vec::new());
    assert_eq!(n, 0);
    assert_eq!(marks, "()");
}

#[test]
fn keyed_marks_two() {
    assert_eq!(utils::list_to_values_and_key(7, &strings(&["a", "b"])), "(7,?),(7,?)");
}

#[test]
fn keyed_marks_empty() {
    assert_eq!(utils::list_to_values_and_key(7, &Vec::new()), "");
}

#[test]
fn root_list_to_values_matches_keyed() {
    assert_eq!(tg::list_to_values(12, &strings(&["x"])), "(12,?)");
}

#[test]
fn decimal_rendering() {
    assert_eq!(utils::u64_to_dec(0), "0");
    assert_eq!(utils::u64_to_dec(9), "9");
    assert_eq!(utils::u64_to_dec(10), "10");
    assert_eq!(utils::u64_to_dec(90217), "90217");
    assert_eq!(utils::u64_to_dec(u64::MAX), "18446744073709551615");
}

#[test]
fn record_line_shape() {
    assert_eq!(utils::format_record("tg", "INFO", "mounted"), "tg: INFO: mounted");
}

#[test]
fn console_logger_accepts_everything() {
    let logger = utils::ConsoleLogger;
    assert!(logger.enabled());
}

#[test]
fn listing_query_embeds_one_mark_per_tag() {
    let q = tg::sql::matching_tags_files(&strings(&["red", "big"]));
    assert!(q.starts_with("WITH TargetTags(tag) AS ( VALUES (?),(?) ),"));
    assert_eq!(q.matches("(?)").count(), 2);
    assert!(q.contains("HAVING COUNT(DISTINCT t.tag) = (SELECT len FROM TagsLen)"));
    assert!(q.contains("UNION ALL"));
}

#[test]
fn fixed_statements() {
    assert_eq!(tg::sql::tag_exists_sql(), "SELECT 1 FROM Tags WHERE tag = ?1 LIMIT 1");
    assert_eq!(tg::sql::file_exists_sql(), "SELECT 1 FROM Files WHERE path = ?1 LIMIT 1");
    assert!(tg::sql::used_tags_sql().contains("WHERE EXISTS"));
    assert!(tg::sql::insert_file_sql().starts_with("INSERT OR IGNORE INTO Files"));
    assert!(tg::sql::insert_tag_sql().starts_with("INSERT OR IGNORE INTO Tags"));
    assert!(tg::sql::insert_filetag_sql().starts_with("INSERT OR IGNORE INTO FileTags"));
}
