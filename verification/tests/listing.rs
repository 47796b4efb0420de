//! End-to-end listing scenarios against a real SQLite store.

use tg::config::Config;
use tg::entries::EntryKind;
use tg::fuse::Fuse;
use tg::ops::FsError;
use tg::ops::MutatingOp;

fn setup_store(path: &str, files: &[(&str, &[&str])], extra_tags: &[&str]) {
    let conn = rusqlite::Connection::open(path).expect("store creation failed");
    conn.execute_batch(
        "DROP TABLE IF EXISTS FileTags; \
         DROP TABLE IF EXISTS Files; \
         DROP TABLE IF EXISTS Tags; \
         CREATE TABLE Files (id INTEGER PRIMARY KEY, path TEXT UNIQUE NOT NULL); \
         CREATE TABLE Tags (id INTEGER PRIMARY KEY, tag TEXT UNIQUE NOT NULL); \
         CREATE TABLE FileTags ( \
             fileId INTEGER NOT NULL REFERENCES Files(id), \
             tagId INTEGER NOT NULL REFERENCES Tags(id), \
             UNIQUE(fileId, tagId))",
    )
    .expect("schema creation failed");
    for (file, tags) in files {
        conn.execute(tg::sql::insert_file_sql(), [*file]).expect("file insert failed");
        for tag in *tags {
            conn.execute(tg::sql::insert_tag_sql(), [*tag]).expect("tag insert failed");
            conn.execute(tg::sql::insert_filetag_sql(), [*file, *tag])
                .expect("association insert failed");
        }
    }
    for tag in extra_tags {
        conn.execute(tg::sql::insert_tag_sql(), [*tag]).expect("tag insert failed");
    }
}

fn names(entries: &[tg::entries::DirectoryEntry]) -> Vec<String> {
    entries.iter().map(|e| e.name.clone()).collect()
}

fn sorted_names(entries: &[tg::entries::DirectoryEntry]) -> Vec<String> {
    let mut v = names(entries);
    v.sort();
    v
}

#[test]
fn one_tag_listing_shows_files_and_narrowing_tag() {
    let db = "/tmp/tg_test_one_tag.sqlite";
    setup_store(db, &[("/a.txt", &["red", "big"]), ("/b.txt", &["red"])], &[]);
    let fs = Fuse::new(db.to_string(), Config::default());

    let entries = fs.readdir("/:red").expect("listing should succeed");
    assert_eq!(
        sorted_names(&entries),
        vec![".", "..", ":big", "_a.txt", "_b.txt"]
            .into_iter()
            .map(String::from)
            .collect::<Vec<_>>()
    );
    for e in &entries {
        if e.name.starts_with(':') {
            assert_eq!(e.kind, EntryKind::Directory);
        }
        if e.name.starts_with('_') {
            assert_eq!(e.kind, EntryKind::Symlink);
        }
    }
}

#[test]
fn two_tag_listing_is_exact_intersection() {
    let db = "/tmp/tg_test_two_tags.sqlite";
    setup_store(db, &[("/a.txt", &["red", "big"]), ("/b.txt", &["red"])], &[]);
    let fs = Fuse::new(db.to_string(), Config::default());

    let entries = fs.readdir("/:red/:big").expect("listing should succeed");
    assert_eq!(
        sorted_names(&entries),
        vec![".", "..", "_a.txt"].into_iter().map(String::from).collect::<Vec<_>>()
    );
}

#[test]
fn order_independence_of_tag_selection() {
    let db = "/tmp/tg_test_order.sqlite";
    setup_store(
        db,
        &[("/a.txt", &["red", "big"]), ("/b.txt", &["red"]), ("/c.txt", &["big", "red", "old"])],
        &[],
    );
    let fs = Fuse::new(db.to_string(), Config::default());

    let one = fs.readdir("/:red/:big").expect("listing should succeed");
    let two = fs.readdir("/:big/:red").expect("listing should succeed");
    assert_eq!(sorted_names(&one), sorted_names(&two));
}

#[test]
fn narrowing_shrinks_the_file_set() {
    let db = "/tmp/tg_test_narrow.sqlite";
    setup_store(
        db,
        &[("/a.txt", &["red", "big"]), ("/b.txt", &["red"]), ("/c.txt", &["big"])],
        &[],
    );
    let fs = Fuse::new(db.to_string(), Config::default());

    let broad = fs.readdir("/:red").expect("listing should succeed");
    let narrow = fs.readdir("/:red/:big").expect("listing should succeed");
    let broad_files: Vec<String> =
        names(&broad).into_iter().filter(|n| n.starts_with('_')).collect();
    let narrow_files: Vec<String> =
        names(&narrow).into_iter().filter(|n| n.starts_with('_')).collect();
    for f in &narrow_files {
        assert!(broad_files.contains(f), "{f} should also be in the broader listing");
    }
    assert!(narrow_files.len() < broad_files.len());
}

#[test]
fn empty_intersection_lists_nothing() {
    let db = "/tmp/tg_test_empty.sqlite";
    setup_store(db, &[("/a.txt", &["red"]), ("/c.txt", &["green"])], &[]);
    let fs = Fuse::new(db.to_string(), Config::default());

    let entries = fs.readdir("/:red/:green").expect("listing should succeed");
    assert_eq!(
        sorted_names(&entries),
        vec![".", ".."].into_iter().map(String::from).collect::<Vec<_>>()
    );
}

#[test]
fn root_listing_excludes_orphan_tags() {
    let db = "/tmp/tg_test_root.sqlite";
    setup_store(db, &[("/a.txt", &["red", "big"]), ("/b.txt", &["red"])], &["orphan"]);
    let fs = Fuse::new(db.to_string(), Config::default());

    let entries = fs.readdir("/").expect("root listing should succeed");
    assert_eq!(
        sorted_names(&entries),
        vec![".", "..", ":big", ":red"].into_iter().map(String::from).collect::<Vec<_>>()
    );
}

#[test]
fn duplicate_base_names_stay_distinct() {
    let db = "/tmp/tg_test_dup.sqlite";
    setup_store(db, &[("/x/a.txt", &["red"]), ("/y/a.txt", &["red"])], &[]);
    let fs = Fuse::new(db.to_string(), Config::default());

    let entries = fs.readdir("/:red").expect("listing should succeed");
    let mut file_names: Vec<String> =
        names(&entries).into_iter().filter(|n| n.starts_with('_')).collect();
    file_names.sort();
    assert_eq!(file_names, vec!["_a.txt".to_string(), "_a.txt~1".to_string()]);
}

#[test]
fn tilde_in_base_names_is_escaped() {
    // A literal `~` in a base name is doubled on display, so it can never
    // be mistaken for a duplicate-rank suffix.
    let db = "/tmp/tg_test_tilde.sqlite";
    setup_store(db, &[("/z/a~1.txt", &["red"]), ("/x/a.txt", &["red"]), ("/y/a.txt", &["red"])], &[]);
    let fs = Fuse::new(db.to_string(), Config::default());

    let entries = fs.readdir("/:red").expect("listing should succeed");
    let mut file_names: Vec<String> =
        names(&entries).into_iter().filter(|n| n.starts_with('_')).collect();
    file_names.sort();
    assert_eq!(
        file_names,
        vec!["_a.txt".to_string(), "_a.txt~1".to_string(), "_a~~1.txt".to_string()]
    );
}

#[test]
fn getattr_classifies_paths() {
    let db = "/tmp/tg_test_getattr.sqlite";
    setup_store(db, &[("/a.txt", &["red"])], &[]);
    let fs = Fuse::new(db.to_string(), Config::default());

    let root = fs.getattr("/").expect("root should exist");
    assert_eq!(root.kind, EntryKind::Directory);
    let tag = fs.getattr("/:red").expect("tag should exist");
    assert_eq!(tag.kind, EntryKind::Directory);
    let file = fs.getattr("/:red/_a.txt").expect("file should exist");
    assert_eq!(file.kind, EntryKind::Symlink);

    assert_eq!(fs.getattr("/:red/_missing.txt"), Err(FsError::NotFound));
    assert_eq!(fs.getattr("/:nosuch"), Err(FsError::NotFound));
    assert_eq!(fs.getattr("/plain"), Err(FsError::NotFound));
    assert_eq!(FsError::NotFound.errno(), tg::ops::ENOENT);
}

#[test]
fn readdir_refuses_files_and_unknowns() {
    let db = "/tmp/tg_test_refuse.sqlite";
    setup_store(db, &[("/a.txt", &["red"])], &[]);
    let fs = Fuse::new(db.to_string(), Config::default());

    assert!(matches!(fs.readdir("/:red/_a.txt"), Err(FsError::NotADirectory)));
    assert_eq!(FsError::NotADirectory.errno(), tg::ops::ENOTDIR);
    assert!(matches!(fs.readdir("/:nosuch"), Err(FsError::NotFound)));
}

#[test]
fn opendir_handles_are_deterministic() {
    let db = "/tmp/tg_test_opendir.sqlite";
    setup_store(db, &[("/a.txt", &["red"])], &[]);
    let fs = Fuse::new(db.to_string(), Config::default());

    let (h1, f1) = fs.opendir("/:red");
    let (h2, f2) = fs.opendir("/:red");
    assert_eq!(h1, h2);
    assert_eq!(f1, 0);
    assert_eq!(f2, 0);
    let (h3, _) = fs.opendir("/:big");
    assert_ne!(h1, h3);
}

#[test]
fn unavailable_store_is_reported() {
    let fs = Fuse::new("/tmp/tg_test_does_not_exist.sqlite".to_string(), Config::default());
    assert!(matches!(fs.readdir("/:red"), Err(FsError::StoreUnavailable)));
}

#[test]
fn unsupported_operations_change_nothing() {
    let db = "/tmp/tg_test_enosys.sqlite";
    setup_store(db, &[("/a.txt", &["red"])], &[]);

    let count_rows = |conn: &rusqlite::Connection| -> (i64, i64, i64) {
        let files: i64 =
            conn.query_row("SELECT COUNT(*) FROM Files", (), |r| r.get(0)).unwrap();
        let tags: i64 = conn.query_row("SELECT COUNT(*) FROM Tags", (), |r| r.get(0)).unwrap();
        let assocs: i64 =
            conn.query_row("SELECT COUNT(*) FROM FileTags", (), |r| r.get(0)).unwrap();
        (files, tags, assocs)
    };
    let conn = rusqlite::Connection::open(db).unwrap();
    let before = count_rows(&conn);

    let ops = [
        MutatingOp::Unlink,
        MutatingOp::Mkdir,
        MutatingOp::Write,
        MutatingOp::Rename,
        MutatingOp::Truncate,
        MutatingOp::Chmod,
        MutatingOp::Setxattr,
        MutatingOp::Create,
    ];
    for op in &ops {
        assert_eq!(tg::ops::unsupported_reply(op), tg::ops::ENOSYS);
    }

    let after = count_rows(&conn);
    assert_eq!(before, after);
}
