//! Shaping query results into directory entries.
//!
//! A listing row is either a tag (shown as a prefixed subdirectory) or a
//! file (shown as a prefixed symlink named by the file's base name). Two
//! distinct files may share a base name within one listing; the assembler
//! disambiguates deterministically and losslessly: every `~` in a base
//! name is doubled, and the second and every later occurrence of a base
//! name carries a lone `~` and its occurrence rank (`name`, `name~1`,
//! `name~2`, ... in row order). No file is ever collapsed away, and no
//! two entries of one listing share a display name
//! ([`lemma_entry_names_unique`]).

use vstd::prelude::*;

use crate::config::Config;
use crate::utils::dec_rep;

verus! {

/// What a directory entry is shown as.
#[derive(Clone, Copy, Debug, PartialEq, Eq, Structural)]
pub enum EntryKind {
    /// A tag subdirectory (also used for `.` and `..`).
    Directory,
    /// A tagged file, shown as a symbolic link.
    Symlink,
}

/// One entry of a directory listing.
#[derive(Clone, Debug)]
pub struct DirectoryEntry {
    /// The displayed name, prefix marker included.
    pub name: String,
    /// Directory for tags, symlink for files.
    pub kind: EntryKind,
}

/// One row of a listing query, as handed back by the store: a tag label
/// or a full file path.
#[derive(Clone, Debug)]
pub enum RowItem {
    /// A tag that can narrow the listing further.
    TagRow(String),
    /// The full path of a file in the listing.
    FileRow(String),
}

/// One raw row of the composed listing query: `(tag, NULL)` for tag rows,
/// `(NULL, path)` for file rows.
#[derive(Clone, Debug)]
pub struct ListingRow {
    /// The tag column; set on tag rows.
    pub tag: Option<String>,
    /// The file column; set on file rows.
    pub file: Option<String>,
}

/// The items described by a raw row: the tag if the tag column is set,
/// else the file if the file column is set, else nothing.
pub open spec fn row_item_of(row: ListingRow) -> Seq<RowItem> {
    match row.tag {
        Some(t) => seq![RowItem::TagRow(t)],
        None => match row.file {
            Some(p) => seq![RowItem::FileRow(p)],
            None => Seq::empty(),
        },
    }
}

/// The items described by a sequence of raw rows, in row order.
pub open spec fn row_items(rows: Seq<ListingRow>) -> Seq<RowItem>
    decreases rows.len(),
{
    if rows.len() == 0 {
        Seq::empty()
    } else {
        row_items(rows.drop_last()) + row_item_of(rows.last())
    }
}

/// Decodes raw query rows into row items, keeping row order and dropping
/// rows with neither column set (the composed query produces none).
pub fn normalize_rows(rows: &Vec<ListingRow>) -> (out: Vec<RowItem>)
    ensures
        out@ == row_items(rows@),
{
    let mut out: Vec<RowItem> = Vec::new();
    let mut i: usize = 0;
    while i < rows.len()
        invariant
            0 <= i <= rows@.len(),
            out@ == row_items(rows@.take(i as int)),
        decreases rows@.len() - i,
    {
        let row = &rows[i];
        if let Some(t) = &row.tag {
            out.push(RowItem::TagRow(t.clone()));
        } else if let Some(p) = &row.file {
            out.push(RowItem::FileRow(p.clone()));
        }
        proof {
            assert(rows@.take(i + 1).drop_last() =~= rows@.take(i as int));
            assert(rows@.take(i + 1).last() == rows@[i as int]);
            assert(out@ =~= row_items(rows@.take(i + 1)));
        }
        i = i + 1;
    }
    proof {
        assert(rows@.take(rows@.len() as int) =~= rows@);
    }
    out
}

/// The base name of a path: everything after the last `/`, or the whole
/// path if it has none.
pub open spec fn base_name_spec(s: Seq<char>) -> Seq<char>
    decreases s.len(),
{
    if s.len() == 0 {
        Seq::empty()
    } else if s[s.len() - 1] == '/' {
        Seq::empty()
    } else {
        base_name_spec(s.drop_last()).push(s[s.len() - 1])
    }
}

/// The base name is the suffix that starts right after the last slash.
proof fn lemma_base_name_suffix(s: Seq<char>, j: int)
    requires
        0 <= j <= s.len(),
        forall|k: int| j <= k < s.len() ==> s[k] != '/',
        j > 0 ==> s[j - 1] == '/',
    ensures
        base_name_spec(s) == s.subrange(j, s.len() as int),
    decreases s.len(),
{
    if s.len() == 0 {
        assert(base_name_spec(s) =~= s.subrange(j, s.len() as int));
    } else if j == s.len() {
        assert(s[s.len() - 1] == '/');
        assert(base_name_spec(s) =~= s.subrange(j, s.len() as int));
    } else {
        assert(s[s.len() - 1] != '/');
        lemma_base_name_suffix(s.drop_last(), j);
        assert(s.drop_last().subrange(j, s.drop_last().len() as int) =~= s.subrange(
            j,
            s.len() - 1,
        ));
        assert(base_name_spec(s) =~= s.subrange(j, s.len() as int));
    }
}

/// Extracts the base name of a path.
pub fn base_name(path: &str) -> (r: String)
    ensures
        r@ == base_name_spec(path@),
{
    let n = path.unicode_len();
    let mut j: usize = 0;
    let mut k: usize = 0;
    while k < n
        invariant
            0 <= j <= k <= n,
            n == path@.len(),
            forall|m: int| j <= m < k ==> path@[m] != '/',
            j > 0 ==> path@[j - 1] == '/',
        decreases n - k,
    {
        if path.get_char(k) == '/' {
            j = k + 1;
        }
        k = k + 1;
    }
    let sub = path.substring_char(j, n);
    proof {
        lemma_base_name_suffix(path@, j as int);
    }
    String::from_str(sub)
}

/// A base name with every `~` doubled. Escaping keeps display names
/// decodable even though the duplicate-rank suffix also uses `~`: in an
/// escaped name every maximal run of `~` is of even length, so the odd
/// `~` introduced by a suffix can never be mistaken for part of a name.
pub open spec fn tilde_escape(s: Seq<char>) -> Seq<char>
    decreases s.len(),
{
    if s.len() == 0 {
        Seq::empty()
    } else {
        tilde_escape(s.drop_last()) + (if s.last() == '~' {
            seq!['~', '~']
        } else {
            seq![s.last()]
        })
    }
}

/// The inverse reading of [`tilde_escape`], from the right: a lone `~`
/// (one not closed into a pair) makes the string undecodable.
pub open spec fn tilde_unescape(s: Seq<char>) -> Option<Seq<char>>
    decreases s.len(),
{
    if s.len() == 0 {
        Some(Seq::empty())
    } else if s.last() != '~' {
        match tilde_unescape(s.drop_last()) {
            Some(t) => Some(t.push(s.last())),
            None => None,
        }
    } else if s.len() >= 2 && s[s.len() - 2] == '~' {
        match tilde_unescape(s.subrange(0, s.len() - 2)) {
            Some(t) => Some(t.push('~')),
            None => None,
        }
    } else {
        None
    }
}

/// Escaping loses nothing: unescaping gives the base name back.
pub proof fn lemma_unescape_escape(x: Seq<char>)
    ensures
        tilde_unescape(tilde_escape(x)) == Some(x),
    decreases x.len(),
{
    if x.len() == 0 {
    } else {
        lemma_unescape_escape(x.drop_last());
        let e = tilde_escape(x);
        if x.last() == '~' {
            assert(e =~= tilde_escape(x.drop_last()) + seq!['~', '~']);
            assert(e.len() >= 2);
            assert(e.last() == '~');
            assert(e[e.len() - 2] == '~');
            assert(e.subrange(0, e.len() - 2) =~= tilde_escape(x.drop_last()));
            assert(x.drop_last().push('~') =~= x);
        } else {
            assert(e =~= tilde_escape(x.drop_last()) + seq![x.last()]);
            assert(e.last() == x.last());
            assert(e.drop_last() =~= tilde_escape(x.drop_last()));
            assert(x.drop_last().push(x.last()) =~= x);
        }
    }
}

/// An escaped name followed by a lone `~` is undecodable: the `~` that
/// opens a duplicate-rank suffix can never complete an escaped name.
pub proof fn lemma_unescape_escape_tilde(y: Seq<char>)
    ensures
        tilde_unescape(tilde_escape(y).push('~')) is None,
    decreases y.len(),
{
    let s = tilde_escape(y).push('~');
    if y.len() == 0 {
        assert(s.len() == 1);
        assert(s.last() == '~');
    } else if y.last() == '~' {
        lemma_unescape_escape_tilde(y.drop_last());
        assert(tilde_escape(y) =~= tilde_escape(y.drop_last()) + seq!['~', '~']);
        assert(s.len() >= 3);
        assert(s.last() == '~');
        assert(s[s.len() - 2] == '~');
        assert(s.subrange(0, s.len() - 2) =~= tilde_escape(y.drop_last()).push('~'));
    } else {
        assert(tilde_escape(y) =~= tilde_escape(y.drop_last()) + seq![y.last()]);
        assert(s.last() == '~');
        assert(s.len() >= 2);
        assert(s[s.len() - 2] == y.last());
        assert(s[s.len() - 2] != '~');
    }
}

/// Appending `~`-free characters cannot make an undecodable string
/// decodable.
pub proof fn lemma_unescape_none_append(s: Seq<char>, d: Seq<char>)
    requires
        tilde_unescape(s) is None,
        forall|i: int| 0 <= i < d.len() ==> d[i] != '~',
    ensures
        tilde_unescape(s + d) is None,
    decreases d.len(),
{
    if d.len() == 0 {
        assert(s + d =~= s);
    } else {
        lemma_unescape_none_append(s, d.drop_last());
        let t = s + d;
        assert(t.last() == d.last());
        assert(t.last() != '~');
        assert(t.drop_last() =~= s + d.drop_last());
    }
}

/// Escapes a base name for display.
pub fn escape_base(s: &str) -> (r: String)
    ensures
        r@ == tilde_escape(s@),
{
    let n = s.unicode_len();
    let mut r = String::new();
    let mut i: usize = 0;
    while i < n
        invariant
            0 <= i <= n,
            n == s@.len(),
            r@ == tilde_escape(s@.take(i as int)),
        decreases n - i,
    {
        let c = s.get_char(i);
        proof {
            assert(s@.take(i + 1).drop_last() =~= s@.take(i as int));
            assert(s@.take(i + 1).last() == s@[i as int]);
        }
        if c == '~' {
            r.append("~~");
            proof {
                reveal_strlit("~~");
                assert(r@ =~= tilde_escape(s@.take(i + 1)));
            }
        } else {
            let piece = s.substring_char(i, i + 1);
            r.append(piece);
            proof {
                assert(piece@ =~= seq![s@[i as int]]);
                assert(r@ =~= tilde_escape(s@.take(i + 1)));
            }
        }
        i = i + 1;
    }
    proof {
        assert(s@.take(n as int) =~= s@);
    }
    r
}

/// How many of the first `k` items are file rows whose base name is `b`.
pub open spec fn base_count(items: Seq<RowItem>, b: Seq<char>, k: int) -> nat
    decreases k,
{
    if k <= 0 {
        0
    } else {
        base_count(items, b, k - 1) + match items[k - 1] {
            RowItem::FileRow(p) => if base_name_spec(p@) == b {
                1nat
            } else {
                0nat
            },
            RowItem::TagRow(_) => 0nat,
        }
    }
}

/// The displayed label of a file row: the escaped base name, and — from
/// the second occurrence of a base name on — a `~` and the occurrence
/// rank.
pub open spec fn file_display(b: Seq<char>, c: nat) -> Seq<char> {
    if c == 0 {
        tilde_escape(b)
    } else {
        tilde_escape(b) + "~"@ + dec_rep(c)
    }
}

/// The displayed name of item `k`: tags carry the tag prefix; files carry
/// the file prefix and their file display label.
pub open spec fn entry_name(items: Seq<RowItem>, k: int, config: Config) -> Seq<char> {
    match items[k] {
        RowItem::TagRow(t) => config.tag_prefix@ + t@,
        RowItem::FileRow(p) => {
            let b = base_name_spec(p@);
            config.file_prefix@ + file_display(b, base_count(items, b, k))
        },
    }
}

/// The kind of item `k`: tags are directories, files are symlinks.
pub open spec fn entry_kind(items: Seq<RowItem>, k: int) -> EntryKind {
    match items[k] {
        RowItem::TagRow(_) => EntryKind::Directory,
        RowItem::FileRow(_) => EntryKind::Symlink,
    }
}

/// Assembles a directory listing from decoded row items: `.` and `..`
/// first, then one entry per item, named and kinded by [`entry_name`] and
/// [`entry_kind`] — deterministic, and lossless even among files sharing
/// a base name.
pub fn assemble(items: &Vec<RowItem>, config: &Config) -> (entries: Vec<DirectoryEntry>)
    ensures
        entries@.len() == 2 + items@.len(),
        entries@[0].name@ == "."@,
        entries@[0].kind == EntryKind::Directory,
        entries@[1].name@ == ".."@,
        entries@[1].kind == EntryKind::Directory,
        forall|k: int| 0 <= k < items@.len() ==> (#[trigger] entries@[k + 2]).name@ == entry_name(
            items@,
            k,
            *config,
        ) && entries@[k + 2].kind == entry_kind(items@, k),
{
    let mut entries: Vec<DirectoryEntry> = Vec::new();
    entries.push(DirectoryEntry { name: String::from_str("."), kind: EntryKind::Directory });
    entries.push(DirectoryEntry { name: String::from_str(".."), kind: EntryKind::Directory });
    let mut k: usize = 0;
    while k < items.len()
        invariant
            0 <= k <= items@.len(),
            entries@.len() == 2 + k,
            entries@[0].name@ == "."@,
            entries@[0].kind == EntryKind::Directory,
            entries@[1].name@ == ".."@,
            entries@[1].kind == EntryKind::Directory,
            forall|kk: int| 0 <= kk < k ==> (#[trigger] entries@[kk + 2]).name@ == entry_name(
                items@,
                kk,
                *config,
            ) && entries@[kk + 2].kind == entry_kind(items@, kk),
        decreases items@.len() - k,
    {
        let entry: DirectoryEntry = match &items[k] {
            RowItem::TagRow(t) => {
                let mut name = String::from_str(config.tag_prefix());
                name.append(t.as_str());
                proof {
                    assert(name@ =~= entry_name(items@, k as int, *config));
                }
                DirectoryEntry { name, kind: EntryKind::Directory }
            },
            RowItem::FileRow(p) => {
                let b = base_name(p.as_str());
                let ghost bb = base_name_spec(items@[k as int]->FileRow_0@);
                let mut c: u64 = 0;
                let mut m: usize = 0;
                while m < k
                    invariant
                        0 <= m <= k <= items@.len(),
                        b@ == bb,
                        items@[k as int] is FileRow,
                        bb == base_name_spec(items@[k as int]->FileRow_0@),
                        c <= m,
                        c as nat == base_count(items@, bb, m as int),
                    decreases k - m,
                {
                    match &items[m] {
                        RowItem::FileRow(q) => {
                            let qb = base_name(q.as_str());
                            if qb.eq(&b) {
                                c = c + 1;
                            }
                        },
                        RowItem::TagRow(_) => {},
                    }
                    m = m + 1;
                }
                let mut name = String::from_str(config.file_prefix());
                let escaped = escape_base(b.as_str());
                name.append(escaped.as_str());
                if c > 0 {
                    name.append("~");
                    let rank = crate::utils::u64_to_dec(c);
                    name.append(rank.as_str());
                }
                proof {
                    assert(name@ =~= entry_name(items@, k as int, *config));
                }
                DirectoryEntry { name, kind: EntryKind::Symlink }
            },
        };
        let ghost ge = entry;
        let ghost pre = entries@;
        proof {
            assert(ge.name@ == entry_name(items@, k as int, *config));
            assert(ge.kind == entry_kind(items@, k as int));
        }
        entries.push(entry);
        proof {
            assert forall|kk: int| 0 <= kk < k + 1 implies (#[trigger] entries@[kk + 2]).name@
                == entry_name(items@, kk, *config) && entries@[kk + 2].kind == entry_kind(
                items@,
                kk,
            ) by {
                if kk < k {
                    assert(entries@[kk + 2] == pre[kk + 2]);
                    assert(entries@[kk + 2].name@ =~= entry_name(items@, kk, *config));
                } else {
                    assert(entries@[kk + 2] == ge);
                    assert(entries@[kk + 2].name@ =~= entry_name(items@, kk, *config));
                }
            }
        }
        k = k + 1;
    }
    entries
}

/// Two file display labels agree only on the same base name and the same
/// occurrence rank: the disambiguation rule is lossless.
pub proof fn lemma_file_display_injective(b1: Seq<char>, c1: nat, b2: Seq<char>, c2: nat)
    requires
        file_display(b1, c1) == file_display(b2, c2),
    ensures
        b1 == b2,
        c1 == c2,
{
    reveal_strlit("~");
    assert("~"@.len() == 1);
    assert("~"@[0] == '~');
    lemma_unescape_escape(b1);
    lemma_unescape_escape(b2);
    if c1 == 0 && c2 == 0 {
        assert(Some(b1) == Some(b2));
    } else if c1 == 0 && c2 != 0 {
        crate::utils::lemma_dec_rep_no_tilde(c2);
        lemma_unescape_escape_tilde(b2);
        assert(tilde_escape(b2) + "~"@ + dec_rep(c2) =~= (tilde_escape(b2).push('~')) + dec_rep(
            c2,
        ));
        lemma_unescape_none_append(tilde_escape(b2).push('~'), dec_rep(c2));
        assert(false);
    } else if c1 != 0 && c2 == 0 {
        crate::utils::lemma_dec_rep_no_tilde(c1);
        lemma_unescape_escape_tilde(b1);
        assert(tilde_escape(b1) + "~"@ + dec_rep(c1) =~= (tilde_escape(b1).push('~')) + dec_rep(
            c1,
        ));
        lemma_unescape_none_append(tilde_escape(b1).push('~'), dec_rep(c1));
        assert(false);
    } else {
        let e1 = tilde_escape(b1);
        let e2 = tilde_escape(b2);
        let s = file_display(b1, c1);
        crate::utils::lemma_dec_rep_len(c1);
        crate::utils::lemma_dec_rep_len(c2);
        if e1.len() == e2.len() {
            assert(e1 =~= s.subrange(0, e1.len() as int));
            assert(e2 =~= file_display(b2, c2).subrange(0, e2.len() as int));
            assert(e1 == e2);
            assert(Some(b1) == Some(b2));
            assert(dec_rep(c1) =~= s.subrange(e1.len() as int + 1, s.len() as int));
            assert(dec_rep(c2) =~= file_display(b2, c2).subrange(
                e2.len() as int + 1,
                file_display(b2, c2).len() as int,
            ));
            crate::utils::lemma_dec_rep_injective(c1, c2);
        } else if e1.len() < e2.len() {
            lemma_file_display_mixed(b1, c1, b2, c2);
        } else {
            lemma_file_display_mixed(b2, c2, b1, c1);
        }
    }
}

/// Helper: with both ranks set and a strictly shorter first escape part,
/// the two display labels cannot agree — the separator `~` of the longer
/// one would land inside the digits of the shorter one.
proof fn lemma_file_display_mixed(b1: Seq<char>, c1: nat, b2: Seq<char>, c2: nat)
    requires
        c1 != 0,
        c2 != 0,
        tilde_escape(b1).len() < tilde_escape(b2).len(),
    ensures
        file_display(b1, c1) != file_display(b2, c2),
{
    reveal_strlit("~");
    assert("~"@.len() == 1);
    assert("~"@[0] == '~');
    if file_display(b1, c1) == file_display(b2, c2) {
        let e1 = tilde_escape(b1);
        let e2 = tilde_escape(b2);
        let s = file_display(b1, c1);
        crate::utils::lemma_dec_rep_len(c1);
        crate::utils::lemma_dec_rep_len(c2);
        crate::utils::lemma_dec_rep_no_tilde(c1);
        let p = e2.len() as int;
        assert(file_display(b2, c2)[p] == '~');
        assert(s.len() == e1.len() + 1 + dec_rep(c1).len());
        assert(s.len() == e2.len() + 1 + dec_rep(c2).len());
        assert(p <= s.len() - 2);
        assert(p >= e1.len() + 1);
        assert(s[p] == dec_rep(c1)[p - e1.len() - 1]);
        assert(s[p] != '~');
    }
}

/// Occurrence counts never decrease along the listing.
proof fn lemma_base_count_monotone(items: Seq<RowItem>, b: Seq<char>, k1: int, k2: int)
    requires
        0 <= k1 <= k2 <= items.len(),
    ensures
        base_count(items, b, k1) <= base_count(items, b, k2),
    decreases k2 - k1,
{
    if k1 < k2 {
        lemma_base_count_monotone(items, b, k1, k2 - 1);
    }
}

/// Past a file row with base name `b`, the occurrence count of `b` has
/// strictly grown.
proof fn lemma_base_count_strict(items: Seq<RowItem>, b: Seq<char>, k1: int, k2: int)
    requires
        0 <= k1 < k2 <= items.len(),
        items[k1] is FileRow,
        base_name_spec(items[k1]->FileRow_0@) == b,
    ensures
        base_count(items, b, k1) < base_count(items, b, k2),
{
    assert(base_count(items, b, k1 + 1) == base_count(items, b, k1) + 1);
    lemma_base_count_monotone(items, b, k1 + 1, k2);
}

/// No two entries of one listing share a display name: tag names are
/// distinct because the store reports each tag once; file names are
/// distinct by the escape-and-rank rule; and a tag name can never equal
/// a file name because the two prefix markers differ.
pub proof fn lemma_entry_names_unique(items: Seq<RowItem>, k1: int, k2: int, config: Config)
    requires
        config.wf(),
        0 <= k1 < k2 < items.len(),
        forall|i: int, j: int|
            0 <= i < j < items.len() && items[i] is TagRow && items[j] is TagRow
                ==> items[i]->TagRow_0@ != items[j]->TagRow_0@,
    ensures
        entry_name(items, k1, config) != entry_name(items, k2, config),
{
    let n1 = entry_name(items, k1, config);
    let n2 = entry_name(items, k2, config);
    if n1 == n2 {
        if items[k1] is TagRow && items[k2] is TagRow {
            let t1 = items[k1]->TagRow_0@;
            let t2 = items[k2]->TagRow_0@;
            assert(t1 =~= n1.subrange(1, n1.len() as int));
            assert(t2 =~= n2.subrange(1, n2.len() as int));
            assert(t1 != t2);
        } else if items[k1] is FileRow && items[k2] is FileRow {
            let b1 = base_name_spec(items[k1]->FileRow_0@);
            let b2 = base_name_spec(items[k2]->FileRow_0@);
            let c1 = base_count(items, b1, k1);
            let c2 = base_count(items, b2, k2);
            assert(file_display(b1, c1) =~= n1.subrange(1, n1.len() as int));
            assert(file_display(b2, c2) =~= n2.subrange(1, n2.len() as int));
            lemma_file_display_injective(b1, c1, b2, c2);
            lemma_base_count_strict(items, b1, k1, k2);
        } else {
            let tag_first: bool = items[k1] is TagRow;
            if tag_first {
                assert(n1[0] == config.tag_prefix@[0]);
                assert(n2[0] == config.file_prefix@[0]);
            } else {
                assert(n1[0] == config.file_prefix@[0]);
                assert(n2[0] == config.tag_prefix@[0]);
            }
            assert(config.tag_prefix@ =~= config.file_prefix@);
        }
    }
}

} // verus!
