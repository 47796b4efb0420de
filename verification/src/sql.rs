//! The fixed query texts issued against the store, and the synthesizer for
//! the one composed query: given the tags selected so far, find the files
//! carrying *all* of them and the tags that can still narrow that set.
//!
//! Values never appear in the query text; every query takes them as bound
//! parameters (`?` marks), so the text depends only on how many tags were
//! selected.

use vstd::prelude::*;

use crate::utils::values_marks;

verus! {

/// Probe for a file row by its full path; one bound parameter.
pub fn file_exists_sql() -> (r: &'static str)
    ensures
        r@ == "SELECT 1 FROM Files WHERE path = ?1 LIMIT 1"@,
{
    "SELECT 1 FROM Files WHERE path = ?1 LIMIT 1"
}

/// Probe for a tag row by its label; one bound parameter.
pub fn tag_exists_sql() -> (r: &'static str)
    ensures
        r@ == "SELECT 1 FROM Tags WHERE tag = ?1 LIMIT 1"@,
{
    "SELECT 1 FROM Tags WHERE tag = ?1 LIMIT 1"
}

/// Registers a file path, keeping an existing row; one bound parameter.
pub fn insert_file_sql() -> (r: &'static str)
    ensures
        r@ == "INSERT OR IGNORE INTO Files (path) VALUES (?1)"@,
{
    "INSERT OR IGNORE INTO Files (path) VALUES (?1)"
}

/// Registers a tag label, keeping an existing row; one bound parameter.
pub fn insert_tag_sql() -> (r: &'static str)
    ensures
        r@ == "INSERT OR IGNORE INTO Tags (tag) VALUES (?1)"@,
{
    "INSERT OR IGNORE INTO Tags (tag) VALUES (?1)"
}

/// Associates a file (by path) with a tag (by label), keeping an existing
/// association; two bound parameters.
pub fn insert_filetag_sql() -> (r: &'static str)
    ensures
        r@
            == "INSERT OR IGNORE INTO FileTags (fileId, tagId) VALUES ((SELECT id FROM Files WHERE path = ?1), (SELECT id FROM Tags WHERE tag = ?2))"@,
{
    "INSERT OR IGNORE INTO FileTags (fileId, tagId) VALUES ((SELECT id FROM Files WHERE path = ?1), (SELECT id FROM Tags WHERE tag = ?2))"
}

/// The root listing: every tag with at least one associated file, shaped
/// as `(tag, NULL)` rows so that it can share the listing row decoder.
/// Tags with no association are left out.
pub fn used_tags_sql() -> (r: &'static str)
    ensures
        r@
            == "SELECT t.tag AS tag, NULL AS file FROM Tags t WHERE EXISTS (SELECT 1 FROM FileTags ft WHERE ft.tagId = t.id)"@,
{
    "SELECT t.tag AS tag, NULL AS file FROM Tags t WHERE EXISTS (SELECT 1 FROM FileTags ft WHERE ft.tagId = t.id)"
}

/// The opening of the composed listing query, up to the `VALUES` rows that
/// receive the selected tags as bound parameters.
pub open spec fn listing_sql_prefix() -> Seq<char> {
    "WITH TargetTags(tag) AS ( VALUES "@
}

/// The remainder of the composed listing query.
///
/// `FoundFiles` keeps the files whose distinct matched tags number exactly
/// the distinct selected tags (exact intersection, duplicate-safe);
/// `FoundTags` keeps the tags still co-occurring with those files but not
/// selected. Tag rows come out as `(tag, NULL)`, file rows as
/// `(NULL, path)`.
pub open spec fn listing_sql_suffix() -> Seq<char> {
    " ), TagsLen AS ( SELECT COUNT(DISTINCT tag) AS len FROM TargetTags ), FoundFiles AS MATERIALIZED ( SELECT ft.fileId AS id FROM FileTags ft JOIN Tags t ON t.id = ft.tagId WHERE t.tag IN TargetTags GROUP BY ft.fileId HAVING COUNT(DISTINCT t.tag) = (SELECT len FROM TagsLen) ), FoundTags AS MATERIALIZED ( SELECT DISTINCT t.tag AS tag FROM FileTags ft JOIN Tags t ON t.id = ft.tagId WHERE ft.fileId IN FoundFiles AND t.tag NOT IN TargetTags ) SELECT tag AS tag, NULL AS file FROM FoundTags UNION ALL SELECT NULL AS tag, f.path AS file FROM FoundFiles ff JOIN Files f ON f.id = ff.id"@
}

/// The composed listing query for `n` selected tags: the fixed text around
/// one `VALUES` placeholder row per tag.
pub open spec fn listing_sql(n: nat) -> Seq<char> {
    listing_sql_prefix() + values_marks(n) + listing_sql_suffix()
}

/// Synthesizes the composed listing query for the given tags. The tags are
/// not written into the text: the caller binds them, in the same order, to
/// the `VALUES` placeholders. The empty selection is served by
/// [`used_tags_sql`] instead.
pub fn matching_tags_files(tags: &Vec<String>) -> (r: String)
    requires
        tags@.len() > 0,
    ensures
        r@ == listing_sql(tags@.len()),
{
    let marks = crate::utils::list_to_values(tags);
    let mut r = String::from_str("WITH TargetTags(tag) AS ( VALUES ");
    r.append(marks.as_str());
    r.append(
        " ), TagsLen AS ( SELECT COUNT(DISTINCT tag) AS len FROM TargetTags ), FoundFiles AS MATERIALIZED ( SELECT ft.fileId AS id FROM FileTags ft JOIN Tags t ON t.id = ft.tagId WHERE t.tag IN TargetTags GROUP BY ft.fileId HAVING COUNT(DISTINCT t.tag) = (SELECT len FROM TagsLen) ), FoundTags AS MATERIALIZED ( SELECT DISTINCT t.tag AS tag FROM FileTags ft JOIN Tags t ON t.id = ft.tagId WHERE ft.fileId IN FoundFiles AND t.tag NOT IN TargetTags ) SELECT tag AS tag, NULL AS file FROM FoundTags UNION ALL SELECT NULL AS tag, f.path AS file FROM FoundFiles ff JOIN Files f ON f.id = ff.id",
    );
    proof {
        assert(r@ =~= listing_sql(tags@.len()));
    }
    r
}

} // verus!
