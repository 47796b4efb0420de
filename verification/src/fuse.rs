//! The filesystem callbacks: attribute lookup, directory handles, and
//! directory listings, each serving one kernel request against its own
//! short-lived read-only store connection.
//!
//! A store answer is never trusted blindly: every callback's contract
//! states what is replied for *every* possible answer, and the pure
//! decision functions ([`crate::resolve::validate_segment`],
//! [`getattr_reply`], [`crate::entries::assemble`]) are verified for all
//! inputs. A connection or query failure is the fatal
//! [`FsError::StoreUnavailable`] condition: the process is expected to
//! stop rather than serve wrong listings.

use vstd::prelude::*;

use crate::config::Config;
use crate::entries::DirectoryEntry;
use crate::entries::EntryKind;
use crate::entries::RowItem;
use crate::entries::assemble;
use crate::entries::base_name;
use crate::entries::base_name_spec;
use crate::entries::entry_kind;
use crate::entries::entry_name;
use crate::entries::normalize_rows;
use crate::ops::FsError;
use crate::resolve::PathSegment;
use crate::resolve::SegView;
use crate::resolve::classify;
use crate::resolve::decode_tags;
use crate::resolve::segment_spec;
use crate::resolve::validate_segment;

verus! {

/// Time-to-live, in seconds, of every attribute record handed to the
/// kernel transport.
pub const TTL_SECS: u64 = 1;

/// A fixed attribute record. Sizes and timestamps are synthetic: every
/// timestamp is the epoch, and the size is zero.
#[derive(Clone, Copy, Debug, PartialEq, Eq, Structural)]
pub struct FileAttr {
    /// Directory or symlink.
    pub kind: EntryKind,
    /// POSIX permission bits.
    pub perm: u32,
    /// Hard-link count.
    pub nlink: u32,
    /// Owning user id.
    pub uid: u32,
    /// Owning group id.
    pub gid: u32,
    /// Reported size in bytes.
    pub size: u64,
}

/// The attribute record of the root and of every tag directory.
pub open spec fn dir_attr_spec() -> FileAttr {
    FileAttr {
        kind: EntryKind::Directory,
        perm: 0o755,
        nlink: 2,
        uid: 1000,
        gid: 100,
        size: 0,
    }
}

/// The attribute record of every file entry (a symlink).
pub open spec fn link_attr_spec() -> FileAttr {
    FileAttr { kind: EntryKind::Symlink, perm: 0o755, nlink: 2, uid: 1000, gid: 100, size: 0 }
}

/// Builds the directory attribute record.
pub fn dir_attr() -> (r: FileAttr)
    ensures
        r == dir_attr_spec(),
{
    FileAttr { kind: EntryKind::Directory, perm: 0o755, nlink: 2, uid: 1000, gid: 100, size: 0 }
}

/// Builds the symlink attribute record.
pub fn link_attr() -> (r: FileAttr)
    ensures
        r == link_attr_spec(),
{
    FileAttr { kind: EntryKind::Symlink, perm: 0o755, nlink: 2, uid: 1000, gid: 100, size: 0 }
}

/// The attribute reply for a resolved segment: directories for the root
/// and tags, a symlink for files, "no such entry" for unknown paths.
pub fn getattr_reply(seg: &PathSegment) -> (r: Result<FileAttr, FsError>)
    ensures
        r == match seg@ {
            SegView::Root => Ok::<FileAttr, FsError>(dir_attr_spec()),
            SegView::Tag(_) => Ok::<FileAttr, FsError>(dir_attr_spec()),
            SegView::File(_) => Ok::<FileAttr, FsError>(link_attr_spec()),
            SegView::Unknown => Err::<FileAttr, FsError>(FsError::NotFound),
        },
{
    match seg {
        PathSegment::Root => Ok(dir_attr()),
        PathSegment::Tag(_) => Ok(dir_attr()),
        PathSegment::File(_) => Ok(link_attr()),
        PathSegment::Unknown => Err(FsError::NotFound),
    }
}

/// Whether any file row of a listing has base name `name`.
pub fn listing_has_base(items: &Vec<RowItem>, name: &String) -> (r: bool)
    ensures
        r == exists|k: int|
            0 <= k < items@.len() && (#[trigger] items@[k]) is FileRow && base_name_spec(
                items@[k]->FileRow_0@,
            ) == name@,
{
    let mut i: usize = 0;
    while i < items.len()
        invariant
            0 <= i <= items@.len(),
            forall|k: int| 0 <= k < i ==> !((#[trigger] items@[k]) is FileRow && base_name_spec(
                items@[k]->FileRow_0@,
            ) == name@),
        decreases items@.len() - i,
    {
        match &items[i] {
            RowItem::FileRow(p) => {
                let b = base_name(p.as_str());
                if b.eq(name) {
                    proof {
                        assert((items@[i as int]) is FileRow && base_name_spec(
                            items@[i as int]->FileRow_0@,
                        ) == name@);
                    }
                    return true;
                }
            },
            RowItem::TagRow(_) => {},
        }
        i = i + 1;
    }
    false
}

/// The opaque handle of an opened directory: a deterministic accumulation
/// of the path's characters. It serves only to correlate log lines, never
/// as a cache key.
pub open spec fn path_handle(s: Seq<char>) -> int
    decreases s.len(),
{
    if s.len() == 0 {
        0
    } else {
        (path_handle(s.drop_last()) * 31 + s.last() as int) % 0x10000000000000000
    }
}

/// The shape [`assemble`] gives a listing: `.` and `..`, then one entry
/// per row item, named and kinded by the assembly rules.
pub open spec fn assembled_listing(
    items: Seq<RowItem>,
    entries: Seq<DirectoryEntry>,
    config: Config,
) -> bool {
    &&& entries.len() == 2 + items.len()
    &&& entries[0].name@ == "."@
    &&& entries[0].kind == EntryKind::Directory
    &&& entries[1].name@ == ".."@
    &&& entries[1].kind == EntryKind::Directory
    &&& forall|k: int|
        0 <= k < items.len() ==> (#[trigger] entries[k + 2]).name@ == entry_name(items, k, config)
            && entries[k + 2].kind == entry_kind(items, k)
}

/// In an assembled listing whose tag rows are distinct (as the composed
/// query guarantees with its `DISTINCT` selections), no two row entries
/// share a display name.
pub proof fn lemma_listing_names_unique(
    items: Seq<RowItem>,
    entries: Seq<DirectoryEntry>,
    config: Config,
    k1: int,
    k2: int,
)
    requires
        config.wf(),
        assembled_listing(items, entries, config),
        2 <= k1 < k2 < entries.len(),
        forall|i: int, j: int|
            0 <= i < j < items.len() && items[i] is TagRow && items[j] is TagRow
                ==> items[i]->TagRow_0@ != items[j]->TagRow_0@,
    ensures
        entries[k1].name@ != entries[k2].name@,
{
    crate::entries::lemma_entry_names_unique(items, k1 - 2, k2 - 2, config);
    assert(entries[(k1 - 2) + 2].name@ == entry_name(items, k1 - 2, config));
    assert(entries[(k2 - 2) + 2].name@ == entry_name(items, k2 - 2, config));
}

/// Whether a listing is the assembly of some row-item sequence.
pub open spec fn some_assembly(entries: Seq<DirectoryEntry>, config: Config) -> bool {
    exists|items: Seq<RowItem>| #[trigger] assembled_listing(items, entries, config)
}

/// The filesystem: where the store lives, and the prefix configuration
/// shared by every request.
pub struct Fuse {
    /// The store's database location.
    pub db_path: String,
    /// The process-wide configuration, read-shared across requests.
    pub config: Config,
}

impl Fuse {
    /// Builds the filesystem over the given store location and
    /// configuration.
    pub fn new(db_path: String, config: Config) -> (r: Fuse)
        ensures
            r.db_path == db_path,
            r.config == config,
    {
        Fuse { db_path, config }
    }

    /// Opens this request's own read-only store connection; failure is
    /// the fatal store-unavailable condition.
    fn connect_db(&self) -> (r: Result<rusqlite::Connection, FsError>)
        ensures
            r matches Err(e) ==> e == FsError::StoreUnavailable,
    {
        match crate::store::open_read_only(self.db_path.as_str()) {
            Ok(c) => Ok(c),
            Err(_) => Err(FsError::StoreUnavailable),
        }
    }

    /// Resolves a path against the store: classifies it by shape, then
    /// lets the store confirm that a tag exists, or that a file's base
    /// name is reachable under the tag selection of its parent path. A
    /// segment the store does not confirm degrades to unknown.
    pub fn name_exists(&self, path: &str) -> (r: Result<PathSegment, FsError>)
        requires
            self.config.wf(),
        ensures
            segment_spec(path@, self.config) is Root ==> r == Ok::<PathSegment, FsError>(
                PathSegment::Root,
            ),
            segment_spec(path@, self.config) is Unknown ==> r == Ok::<PathSegment, FsError>(
                PathSegment::Unknown,
            ),
            r matches Ok(seg) ==> (seg@ == segment_spec(path@, self.config) || (seg@ is Unknown
                && (segment_spec(path@, self.config) is Tag || segment_spec(
                path@,
                self.config,
            ) is File))),
            r matches Err(e) ==> e == FsError::StoreUnavailable,
    {
        let seg = classify(path, &self.config);
        match seg {
            PathSegment::Root => Ok(PathSegment::Root),
            PathSegment::Unknown => Ok(PathSegment::Unknown),
            PathSegment::Tag(t) => {
                let conn = match self.connect_db() {
                    Ok(c) => c,
                    Err(e) => {
                        return Err(e);
                    },
                };
                let found = match crate::store::query_exists(
                    &conn,
                    crate::sql::tag_exists_sql(),
                    t.as_str(),
                ) {
                    Ok(b) => b,
                    Err(_) => {
                        return Err(FsError::StoreUnavailable);
                    },
                };
                Ok(validate_segment(PathSegment::Tag(t), found))
            },
            PathSegment::File(n) => {
                let mut tags = decode_tags(path);
                let _last = tags.pop();
                if tags.len() == 0 {
                    return Ok(PathSegment::Unknown);
                }
                let conn = match self.connect_db() {
                    Ok(c) => c,
                    Err(e) => {
                        return Err(e);
                    },
                };
                let sql_text = crate::sql::matching_tags_files(&tags);
                let rows = match crate::store::query_rows(&conn, sql_text.as_str(), &tags) {
                    Ok(rs) => rs,
                    Err(_) => {
                        return Err(FsError::StoreUnavailable);
                    },
                };
                let items = normalize_rows(&rows);
                let found = listing_has_base(&items, &n);
                Ok(validate_segment(PathSegment::File(n), found))
            },
        }
    }

    /// The attribute of a path: directories for the root and for tags,
    /// a symlink record for files, "no such entry" otherwise.
    pub fn getattr(&self, path: &str) -> (r: Result<FileAttr, FsError>)
        requires
            self.config.wf(),
        ensures
            segment_spec(path@, self.config) is Root ==> r == Ok::<FileAttr, FsError>(
                dir_attr_spec(),
            ),
            segment_spec(path@, self.config) is Unknown ==> r == Err::<FileAttr, FsError>(
                FsError::NotFound,
            ),
            r matches Ok(a) ==> ((a == dir_attr_spec() && (segment_spec(path@, self.config) is Root
                || segment_spec(path@, self.config) is Tag)) || (a == link_attr_spec()
                && segment_spec(path@, self.config) is File)),
            r matches Err(e) ==> (e == FsError::NotFound || e == FsError::StoreUnavailable),
    {
        let seg = match self.name_exists(path) {
            Ok(s) => s,
            Err(e) => {
                return Err(e);
            },
        };
        getattr_reply(&seg)
    }

    /// Opens a directory: always succeeds, handing out the deterministic
    /// path handle and empty flags.
    pub fn opendir(&self, path: &str) -> (r: (u64, u32))
        ensures
            r.0 as int == path_handle(path@),
            r.1 == 0,
    {
        let n = path.unicode_len();
        let mut h: u64 = 0;
        let mut i: usize = 0;
        while i < n
            invariant
                0 <= i <= n,
                n == path@.len(),
                h as int == path_handle(path@.take(i as int)),
            decreases n - i,
        {
            let c = path.get_char(i);
            let wide: u128 = (h as u128) * 31 + (c as u128);
            proof {
                assert(path@.take(i + 1).drop_last() =~= path@.take(i as int));
                assert(path@.take(i + 1).last() == path@[i as int]);
            }
            h = (wide % 0x10000000000000000u128) as u64;
            i = i + 1;
        }
        proof {
            assert(path@.take(n as int) =~= path@);
        }
        (h, 0)
    }

    /// Lists a directory: the root listing for the root, the intersection
    /// listing for a tag path; descending into a file is refused, and an
    /// unknown path does not exist. Every successful listing is the
    /// assembly of the store's rows: `.` and `..` first, then the rows.
    pub fn readdir(&self, path: &str) -> (r: Result<Vec<DirectoryEntry>, FsError>)
        requires
            self.config.wf(),
        ensures
            segment_spec(path@, self.config) is Unknown ==> r == Err::<
                Vec<DirectoryEntry>,
                FsError,
            >(FsError::NotFound),
            r matches Ok(entries) ==> (segment_spec(path@, self.config) is Root || segment_spec(
                path@,
                self.config,
            ) is Tag),
            r matches Ok(entries) ==> some_assembly(entries@, self.config),
            r matches Err(e) ==> ((e == FsError::NotFound && !(segment_spec(
                path@,
                self.config,
            ) is Root)) || (e == FsError::NotADirectory && segment_spec(path@, self.config) is File)
                || e == FsError::StoreUnavailable),
    {
        let seg = match self.name_exists(path) {
            Ok(s) => s,
            Err(e) => {
                return Err(e);
            },
        };
        match seg {
            PathSegment::Root => {
                let conn = match self.connect_db() {
                    Ok(c) => c,
                    Err(e) => {
                        return Err(e);
                    },
                };
                let params: Vec<String> = Vec::new();
                let rows = match crate::store::query_rows(
                    &conn,
                    crate::sql::used_tags_sql(),
                    &params,
                ) {
                    Ok(rs) => rs,
                    Err(_) => {
                        return Err(FsError::StoreUnavailable);
                    },
                };
                let items = normalize_rows(&rows);
                let entries = assemble(&items, &self.config);
                proof {
                    assert(assembled_listing(items@, entries@, self.config));
                    assert(some_assembly(entries@, self.config));
                }
                Ok(entries)
            },
            PathSegment::Tag(_) => {
                let tags = decode_tags(path);
                proof {
                    assert(tags@.len() == tags.deep_view().len());
                    assert(tags.deep_view().len() == crate::resolve::split_slash(path@).len());
                }
                let conn = match self.connect_db() {
                    Ok(c) => c,
                    Err(e) => {
                        return Err(e);
                    },
                };
                let sql_text = crate::sql::matching_tags_files(&tags);
                let rows = match crate::store::query_rows(&conn, sql_text.as_str(), &tags) {
                    Ok(rs) => rs,
                    Err(_) => {
                        return Err(FsError::StoreUnavailable);
                    },
                };
                let items = normalize_rows(&rows);
                let entries = assemble(&items, &self.config);
                proof {
                    assert(assembled_listing(items@, entries@, self.config));
                    assert(some_assembly(entries@, self.config));
                }
                Ok(entries)
            },
            PathSegment::File(_) => Err(FsError::NotADirectory),
            PathSegment::Unknown => Err(FsError::NotFound),
        }
    }
}

} // verus!
