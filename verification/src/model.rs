//! The reference semantics of the listing computation.
//!
//! The store is modelled as a set of (file path, tag) associations; the
//! composed query of [`crate::sql`] asks the store for exactly what the
//! spec functions here describe: the files carrying *all* selected tags,
//! the tags that can still narrow that set, and the root listing of tags
//! in use. The executable functions compute the same answers from a plain
//! association list and are proved against the spec functions, so the
//! intended meaning of the query is itself checked, not only written down.

use vstd::prelude::*;

verus! {

/// The association set described by a list of (file path, tag) pairs.
pub open spec fn assoc_set(pairs: Seq<(String, String)>) -> Set<(Seq<char>, Seq<char>)> {
    Set::new(
        |p: (Seq<char>, Seq<char>)|
            exists|i: int| 0 <= i < pairs.len() && pairs[i].0@ == p.0 && pairs[i].1@ == p.1,
    )
}

/// The tags associated with file `f`.
pub open spec fn tags_of(a: Set<(Seq<char>, Seq<char>)>, f: Seq<char>) -> Set<Seq<char>> {
    Set::new(|t: Seq<char>| a.contains((f, t)))
}

/// Whether file `f` carries every tag in `tags`.
pub open spec fn has_all_tags(
    a: Set<(Seq<char>, Seq<char>)>,
    tags: Seq<Seq<char>>,
    f: Seq<char>,
) -> bool {
    forall|j: int| 0 <= j < tags.len() ==> a.contains((f, #[trigger] tags[j]))
}

/// The intersection listing for a non-empty selection: the files carrying
/// every selected tag (they may carry more).
pub open spec fn matching_files(
    a: Set<(Seq<char>, Seq<char>)>,
    tags: Seq<Seq<char>>,
) -> Set<Seq<char>> {
    Set::new(|f: Seq<char>| has_all_tags(a, tags, f))
}

/// The next applicable tags: tags of some file in the intersection
/// listing that are not themselves selected yet.
pub open spec fn next_tags(
    a: Set<(Seq<char>, Seq<char>)>,
    tags: Seq<Seq<char>>,
) -> Set<Seq<char>> {
    Set::new(
        |t: Seq<char>|
            !tags.contains(t) && exists|f: Seq<char>|
                matching_files(a, tags).contains(f) && #[trigger] a.contains((f, t)),
    )
}

/// The root listing: tags with at least one associated file.
pub open spec fn used_tags(a: Set<(Seq<char>, Seq<char>)>) -> Set<Seq<char>> {
    Set::new(|t: Seq<char>| exists|f: Seq<char>| #[trigger] a.contains((f, t)))
}

/// Order-independence: two selections of the same tags — in any order,
/// with any duplication — have the same intersection listing and the same
/// next applicable tags.
pub proof fn lemma_listing_order_independent(
    a: Set<(Seq<char>, Seq<char>)>,
    tags1: Seq<Seq<char>>,
    tags2: Seq<Seq<char>>,
)
    requires
        tags1.to_set() == tags2.to_set(),
    ensures
        matching_files(a, tags1) == matching_files(a, tags2),
        next_tags(a, tags1) == next_tags(a, tags2),
{
    assert forall|f: Seq<char>| has_all_tags(a, tags1, f) == has_all_tags(a, tags2, f) by {
        lemma_has_all_tags_set(a, tags1, tags2, f);
    }
    assert(matching_files(a, tags1) =~= matching_files(a, tags2));
    assert forall|t: Seq<char>|
        next_tags(a, tags1).contains(t) == next_tags(a, tags2).contains(t) by {
        assert(tags1.contains(t) == tags1.to_set().contains(t));
        assert(tags2.contains(t) == tags2.to_set().contains(t));
    }
    assert(next_tags(a, tags1) =~= next_tags(a, tags2));
}

/// Helper for order-independence: carrying every tag of a selection only
/// depends on the selection's set of tags.
proof fn lemma_has_all_tags_set(
    a: Set<(Seq<char>, Seq<char>)>,
    tags1: Seq<Seq<char>>,
    tags2: Seq<Seq<char>>,
    f: Seq<char>,
)
    requires
        tags1.to_set() == tags2.to_set(),
    ensures
        has_all_tags(a, tags1, f) == has_all_tags(a, tags2, f),
{
    if has_all_tags(a, tags1, f) {
        assert forall|j: int| 0 <= j < tags2.len() implies a.contains(
            (f, #[trigger] tags2[j]),
        ) by {
            assert(tags2.contains(tags2[j]));
            assert(tags1.to_set().contains(tags2[j]));
            let i = choose|i: int| 0 <= i < tags1.len() && tags1[i] == tags2[j];
            assert(a.contains((f, tags1[i])));
        }
    }
    if has_all_tags(a, tags2, f) {
        assert forall|j: int| 0 <= j < tags1.len() implies a.contains(
            (f, #[trigger] tags1[j]),
        ) by {
            assert(tags1.contains(tags1[j]));
            assert(tags2.to_set().contains(tags1[j]));
            let i = choose|i: int| 0 <= i < tags2.len() && tags2[i] == tags1[j];
            assert(a.contains((f, tags2[i])));
        }
    }
}

/// Intersection exactness: a file is in the listing for a selection iff
/// its own tag set is a superset of the selected tags.
pub proof fn lemma_intersection_exact(
    a: Set<(Seq<char>, Seq<char>)>,
    tags: Seq<Seq<char>>,
    f: Seq<char>,
)
    ensures
        matching_files(a, tags).contains(f) <==> tags.to_set().subset_of(tags_of(a, f)),
{
    if matching_files(a, tags).contains(f) {
        assert forall|t: Seq<char>| tags.to_set().contains(t) implies tags_of(
            a,
            f,
        ).contains(t) by {
            let j = choose|j: int| 0 <= j < tags.len() && tags[j] == t;
            assert(a.contains((f, tags[j])));
        }
    }
    if tags.to_set().subset_of(tags_of(a, f)) {
        assert forall|j: int| 0 <= j < tags.len() implies a.contains(
            (f, #[trigger] tags[j]),
        ) by {
            assert(tags.contains(tags[j]));
            assert(tags.to_set().contains(tags[j]));
            assert(tags_of(a, f).contains(tags[j]));
        }
    }
}

/// Monotonic narrowing: selecting one more tag can only shrink the
/// intersection listing.
pub proof fn lemma_monotonic_narrowing(
    a: Set<(Seq<char>, Seq<char>)>,
    tags: Seq<Seq<char>>,
    t: Seq<char>,
)
    ensures
        matching_files(a, tags.push(t)).subset_of(matching_files(a, tags)),
{
    assert forall|f: Seq<char>| matching_files(a, tags.push(t)).contains(f)
        implies matching_files(a, tags).contains(f) by {
        assert forall|j: int| 0 <= j < tags.len() implies a.contains(
            (f, #[trigger] tags[j]),
        ) by {
            assert(tags.push(t)[j] == tags[j]);
            assert(a.contains((f, tags.push(t)[j])));
        }
    }
}

/// Root listing correctness, negative half: a tag with no associated file
/// is excluded from the root listing.
pub proof fn lemma_root_excludes_orphans(a: Set<(Seq<char>, Seq<char>)>, t: Seq<char>)
    requires
        forall|f: Seq<char>| !#[trigger] a.contains((f, t)),
    ensures
        !used_tags(a).contains(t),
{
}

/// Whether `list` holds a string whose characters equal `x`'s.
fn contains_str(list: &Vec<String>, x: &String) -> (r: bool)
    ensures
        r == list.deep_view().contains(x@),
{
    let mut i: usize = 0;
    while i < list.len()
        invariant
            0 <= i <= list@.len(),
            forall|k: int| 0 <= k < i ==> list.deep_view()[k] != x@,
        decreases list@.len() - i,
    {
        if list[i].eq(x) {
            assert(list.deep_view()[i as int] == x@);
            return true;
        }
        i = i + 1;
    }
    false
}

/// Whether the pair list associates file `f` with tag `t`.
fn has_assoc(pairs: &Vec<(String, String)>, f: &String, t: &String) -> (r: bool)
    ensures
        r == assoc_set(pairs@).contains((f@, t@)),
{
    let mut i: usize = 0;
    while i < pairs.len()
        invariant
            0 <= i <= pairs@.len(),
            forall|k: int| 0 <= k < i ==> !(pairs@[k].0@ == f@ && pairs@[k].1@ == t@),
        decreases pairs@.len() - i,
    {
        if pairs[i].0.eq(f) && pairs[i].1.eq(t) {
            assert(assoc_set(pairs@).contains((f@, t@)));
            return true;
        }
        i = i + 1;
    }
    false
}

/// Whether file `f` carries every tag in `tags`, per the pair list.
fn file_matches(pairs: &Vec<(String, String)>, tags: &Vec<String>, f: &String) -> (r: bool)
    ensures
        r == has_all_tags(assoc_set(pairs@), tags.deep_view(), f@),
{
    let mut i: usize = 0;
    while i < tags.len()
        invariant
            0 <= i <= tags@.len(),
            forall|j: int| 0 <= j < i ==> assoc_set(pairs@).contains(
                (f@, #[trigger] tags.deep_view()[j]),
            ),
        decreases tags@.len() - i,
    {
        if !has_assoc(pairs, f, &tags[i]) {
            assert(tags.deep_view()[i as int] == tags@[i as int]@);
            return false;
        }
        i = i + 1;
    }
    true
}

/// The intersection listing computed from a plain association list: the
/// files carrying every tag in `tags`, each reported once, in first-seen
/// order. This is the reference against which the composed store query is
/// meant; intersection exactness is its contract.
pub fn matching_files_model(pairs: &Vec<(String, String)>, tags: &Vec<String>) -> (r: Vec<String>)
    requires
        tags@.len() > 0,
    ensures
        forall|k: int| 0 <= k < r@.len() ==> matching_files(
            assoc_set(pairs@),
            tags.deep_view(),
        ).contains(#[trigger] r.deep_view()[k]),
        forall|f: Seq<char>| #[trigger] matching_files(
            assoc_set(pairs@),
            tags.deep_view(),
        ).contains(f) ==> r.deep_view().contains(f),
        forall|k1: int, k2: int| 0 <= k1 < k2 < r@.len() ==> r.deep_view()[k1]
            != r.deep_view()[k2],
{
    let ghost a = assoc_set(pairs@);
    let ghost tgv = tags.deep_view();
    let mut r: Vec<String> = Vec::new();
    let mut i: usize = 0;
    while i < pairs.len()
        invariant
            0 <= i <= pairs@.len(),
            tgv == tags.deep_view(),
            a == assoc_set(pairs@),
            tgv.len() > 0,
            forall|k: int| 0 <= k < r@.len() ==> matching_files(a, tgv).contains(
                #[trigger] r.deep_view()[k],
            ),
            forall|j: int| 0 <= j < i && matching_files(a, tgv).contains(
                #[trigger] pairs@[j].0@,
            ) ==> r.deep_view().contains(pairs@[j].0@),
            forall|k1: int, k2: int| 0 <= k1 < k2 < r@.len() ==> r.deep_view()[k1]
                != r.deep_view()[k2],
        decreases pairs@.len() - i,
    {
        let cand = &pairs[i].0;
        if contains_str(&r, cand) {
            proof {
                assert(r.deep_view().contains(pairs@[i as int].0@));
            }
        } else if file_matches(pairs, tags, cand) {
            let ghost r_old = r.deep_view();
            r.push(cand.clone());
            proof {
                assert(r.deep_view() =~= r_old.push(cand@));
                assert(r.deep_view()[r.deep_view().len() - 1] == pairs@[i as int].0@);
                assert(r.deep_view().contains(pairs@[i as int].0@));
                assert forall|x: Seq<char>| r_old.contains(x) implies r.deep_view().contains(
                    x,
                ) by {
                    let k = choose|k: int| 0 <= k < r_old.len() && r_old[k] == x;
                    assert(r.deep_view()[k] == x);
                }
            }
        } else {
            proof {
                assert(!has_all_tags(a, tgv, pairs@[i as int].0@));
                assert(!matching_files(a, tgv).contains(pairs@[i as int].0@));
            }
        }
        i = i + 1;
    }
    proof {
        assert forall|f: Seq<char>| #[trigger] matching_files(a, tgv).contains(
            f,
        ) implies r.deep_view().contains(f) by {
            assert(a.contains((f, tgv[0])));
            let j = choose|j: int|
                0 <= j < pairs@.len() && pairs@[j].0@ == f && pairs@[j].1@ == tgv[0];
            assert(matching_files(a, tgv).contains(pairs@[j].0@));
        }
    }
    r
}

/// The next applicable tags computed from a plain association list: tags
/// of some file in the intersection listing that are not selected yet,
/// each reported once, in first-seen order.
pub fn next_tags_model(pairs: &Vec<(String, String)>, tags: &Vec<String>) -> (r: Vec<String>)
    requires
        tags@.len() > 0,
    ensures
        forall|k: int| 0 <= k < r@.len() ==> next_tags(assoc_set(pairs@), tags.deep_view()).contains(
            #[trigger] r.deep_view()[k],
        ),
        forall|t: Seq<char>| #[trigger] next_tags(assoc_set(pairs@), tags.deep_view()).contains(t)
            ==> r.deep_view().contains(t),
        forall|k1: int, k2: int| 0 <= k1 < k2 < r@.len() ==> r.deep_view()[k1]
            != r.deep_view()[k2],
{
    let ghost a = assoc_set(pairs@);
    let ghost tgv = tags.deep_view();
    let mut r: Vec<String> = Vec::new();
    let mut i: usize = 0;
    while i < pairs.len()
        invariant
            0 <= i <= pairs@.len(),
            tgv == tags.deep_view(),
            a == assoc_set(pairs@),
            tgv.len() > 0,
            forall|k: int| 0 <= k < r@.len() ==> next_tags(a, tgv).contains(
                #[trigger] r.deep_view()[k],
            ),
            forall|j: int| 0 <= j < i && matching_files(a, tgv).contains(#[trigger] pairs@[j].0@)
                && !tgv.contains(pairs@[j].1@) ==> r.deep_view().contains(pairs@[j].1@),
            forall|k1: int, k2: int| 0 <= k1 < k2 < r@.len() ==> r.deep_view()[k1]
                != r.deep_view()[k2],
        decreases pairs@.len() - i,
    {
        let file = &pairs[i].0;
        let tag = &pairs[i].1;
        if contains_str(tags, tag) {
            proof {
                assert(tgv.contains(pairs@[i as int].1@));
            }
        } else if contains_str(&r, tag) {
            proof {
                assert(r.deep_view().contains(pairs@[i as int].1@));
            }
        } else if file_matches(pairs, tags, file) {
            let ghost r_old = r.deep_view();
            proof {
                assert(a.contains((pairs@[i as int].0@, pairs@[i as int].1@)));
                assert(matching_files(a, tgv).contains(pairs@[i as int].0@));
                assert(next_tags(a, tgv).contains(tag@));
            }
            r.push(tag.clone());
            proof {
                assert(r.deep_view() =~= r_old.push(tag@));
                assert(r.deep_view()[r.deep_view().len() - 1] == pairs@[i as int].1@);
                assert(r.deep_view().contains(pairs@[i as int].1@));
                assert forall|x: Seq<char>| r_old.contains(x) implies r.deep_view().contains(
                    x,
                ) by {
                    let k = choose|k: int| 0 <= k < r_old.len() && r_old[k] == x;
                    assert(r.deep_view()[k] == x);
                }
            }
        } else {
            proof {
                assert(!has_all_tags(a, tgv, pairs@[i as int].0@));
                assert(!matching_files(a, tgv).contains(pairs@[i as int].0@));
            }
        }
        i = i + 1;
    }
    proof {
        assert forall|t: Seq<char>| #[trigger] next_tags(a, tgv).contains(
            t,
        ) implies r.deep_view().contains(t) by {
            let f = choose|f: Seq<char>|
                matching_files(a, tgv).contains(f) && #[trigger] a.contains((f, t));
            let j = choose|j: int| 0 <= j < pairs@.len() && pairs@[j].0@ == f && pairs@[j].1@ == t;
            assert(matching_files(a, tgv).contains(pairs@[j].0@));
        }
    }
    r
}

/// Root listing correctness: the tags carried by at least one file, each
/// reported once, in first-seen order — exactly the root listing; orphan
/// tags (those that appear on no file) never appear in the pair list, so
/// they are excluded.
pub fn used_tags_model(pairs: &Vec<(String, String)>) -> (r: Vec<String>)
    ensures
        forall|k: int| 0 <= k < r@.len() ==> used_tags(assoc_set(pairs@)).contains(
            #[trigger] r.deep_view()[k],
        ),
        forall|t: Seq<char>| #[trigger] used_tags(assoc_set(pairs@)).contains(t)
            ==> r.deep_view().contains(t),
        forall|k1: int, k2: int| 0 <= k1 < k2 < r@.len() ==> r.deep_view()[k1]
            != r.deep_view()[k2],
{
    let ghost a = assoc_set(pairs@);
    let mut r: Vec<String> = Vec::new();
    let mut i: usize = 0;
    while i < pairs.len()
        invariant
            0 <= i <= pairs@.len(),
            a == assoc_set(pairs@),
            forall|k: int| 0 <= k < r@.len() ==> used_tags(a).contains(#[trigger] r.deep_view()[k]),
            forall|j: int| 0 <= j < i ==> r.deep_view().contains(#[trigger] pairs@[j].1@),
            forall|k1: int, k2: int| 0 <= k1 < k2 < r@.len() ==> r.deep_view()[k1]
                != r.deep_view()[k2],
        decreases pairs@.len() - i,
    {
        let tag = &pairs[i].1;
        if contains_str(&r, tag) {
            proof {
                assert(r.deep_view().contains(pairs@[i as int].1@));
            }
        } else {
            let ghost r_old = r.deep_view();
            proof {
                assert(a.contains((pairs@[i as int].0@, pairs@[i as int].1@)));
                assert(used_tags(a).contains(tag@));
            }
            r.push(tag.clone());
            proof {
                assert(r.deep_view() =~= r_old.push(tag@));
                assert(r.deep_view()[r.deep_view().len() - 1] == pairs@[i as int].1@);
                assert(r.deep_view().contains(pairs@[i as int].1@));
                assert forall|x: Seq<char>| r_old.contains(x) implies r.deep_view().contains(
                    x,
                ) by {
                    let k = choose|k: int| 0 <= k < r_old.len() && r_old[k] == x;
                    assert(r.deep_view()[k] == x);
                }
            }
        }
        i = i + 1;
    }
    proof {
        assert forall|t: Seq<char>| #[trigger] used_tags(a).contains(t) implies r.deep_view()
            .contains(t) by {
            let f = choose|f: Seq<char>| #[trigger] a.contains((f, t));
            let j = choose|j: int| 0 <= j < pairs@.len() && pairs@[j].0@ == f && pairs@[j].1@ == t;
            assert(r.deep_view().contains(pairs@[j].1@));
        }
    }
    r
}

} // verus!
