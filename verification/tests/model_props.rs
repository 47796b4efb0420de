//! The reference listing semantics, on concrete stores, and its agreement
//! with what the composed SQLite query computes.

use tg::model::matching_files_model;
use tg::model::next_tags_model;
use tg::model::used_tags_model;

fn pairs(v: &[(&str, &str)]) -> Vec<(String, String)> {
    v.iter().map(|(f, t)| (f.to_string(), t.to_string())).collect()
}

fn strings(v: &[&str]) -> Vec<String> {
    v.iter().map(|s| s.to_string()).collect()
}

fn sorted(mut v: Vec<String>) -> Vec<String> {
    v.sort();
    v
}

const STORE: &[(&str, &str)] = &[
    ("/a.txt", "red"),
    ("/a.txt", "big"),
    ("/b.txt", "red"),
    ("/c.txt", "big"),
    ("/c.txt", "red"),
    ("/c.txt", "old"),
];

#[test]
fn intersection_exactness_on_a_concrete_store() {
    let a = pairs(STORE);
    // Every file carrying all of {red, big} — and only those.
    let files = sorted(matching_files_model(&a, &strings(&["red", "big"])));
    assert_eq!(files, vec!["/a.txt".to_string(), "/c.txt".to_string()]);
    // A superset of the selection still qualifies (/c.txt also has old).
    assert!(files.contains(&"/c.txt".to_string()));
    // A file missing one selected tag does not.
    assert!(!files.contains(&"/b.txt".to_string()));
}

#[test]
fn order_and_duplicates_do_not_matter() {
    let a = pairs(STORE);
    let one = sorted(matching_files_model(&a, &strings(&["red", "big"])));
    let two = sorted(matching_files_model(&a, &strings(&["big", "red"])));
    let three = sorted(matching_files_model(&a, &strings(&["big", "red", "big"])));
    assert_eq!(one, two);
    assert_eq!(one, three);
    let next_one = sorted(next_tags_model(&a, &strings(&["red", "big"])));
    let next_two = sorted(next_tags_model(&a, &strings(&["big", "red"])));
    assert_eq!(next_one, next_two);
}

#[test]
fn narrowing_is_monotonic() {
    let a = pairs(STORE);
    let broad = matching_files_model(&a, &strings(&["red"]));
    let narrow = matching_files_model(&a, &strings(&["red", "big"]));
    for f in &narrow {
        assert!(broad.contains(f), "{f} should be in the broader listing too");
    }
}

#[test]
fn next_tags_exclude_the_selection() {
    let a = pairs(STORE);
    let next = sorted(next_tags_model(&a, &strings(&["red", "big"])));
    // /a.txt and /c.txt match; their remaining tag is old (from /c.txt).
    assert_eq!(next, vec!["old".to_string()]);
}

#[test]
fn root_tags_are_the_used_ones() {
    let a = pairs(STORE);
    let used = sorted(used_tags_model(&a));
    assert_eq!(used, vec!["big".to_string(), "old".to_string(), "red".to_string()]);
    // A tag attached to no file never shows up: it has no pair at all.
    assert!(!used.contains(&"orphan".to_string()));
}

#[test]
fn model_agrees_with_the_store_query() {
    let db = "/tmp/tg_test_model_diff.sqlite";
    let conn = rusqlite::Connection::open(db).expect("store creation failed");
    conn.execute_batch(
        "DROP TABLE IF EXISTS FileTags; \
         DROP TABLE IF EXISTS Files; \
         DROP TABLE IF EXISTS Tags; \
         CREATE TABLE Files (id INTEGER PRIMARY KEY, path TEXT UNIQUE NOT NULL); \
         CREATE TABLE Tags (id INTEGER PRIMARY KEY, tag TEXT UNIQUE NOT NULL); \
         CREATE TABLE FileTags ( \
             fileId INTEGER NOT NULL REFERENCES Files(id), \
             tagId INTEGER NOT NULL REFERENCES Tags(id), \
             UNIQUE(fileId, tagId))",
    )
    .expect("schema creation failed");
    for (file, tag) in STORE {
        conn.execute(tg::sql::insert_file_sql(), [*file]).unwrap();
        conn.execute(tg::sql::insert_tag_sql(), [*tag]).unwrap();
        conn.execute(tg::sql::insert_filetag_sql(), [*file, *tag]).unwrap();
    }

    let a = pairs(STORE);
    for selection in [
        vec!["red"],
        vec!["big"],
        vec!["old"],
        vec!["red", "big"],
        vec!["big", "red"],
        vec!["red", "old"],
        vec!["red", "big", "old"],
        vec!["red", "nosuch"],
    ] {
        let tags = strings(&selection);
        let sql = tg::sql::matching_tags_files(&tags);
        let mut stmt = conn.prepare(&sql).unwrap();
        let rows: Vec<(Option<String>, Option<String>)> = stmt
            .query_map(rusqlite::params_from_iter(tags.iter()), |r| {
                Ok((r.get(0)?, r.get(1)?))
            })
            .unwrap()
            .collect::<Result<_, _>>()
            .unwrap();
        let mut sql_files: Vec<String> = rows.iter().filter_map(|r| r.1.clone()).collect();
        let mut sql_tags: Vec<String> = rows.iter().filter_map(|r| r.0.clone()).collect();
        sql_files.sort();
        sql_tags.sort();
        assert_eq!(
            sql_files,
            sorted(matching_files_model(&a, &tags)),
            "file sets differ for {selection:?}"
        );
        assert_eq!(
            sql_tags,
            sorted(next_tags_model(&a, &tags)),
            "tag sets differ for {selection:?}"
        );
    }
}
