//! Path classification.
//!
//! A request path below the mount root is a run of components, each of
//! which must carry one of the two configured prefix markers: the marker
//! names the component a tag or a file, and the rest of the component is
//! the tag label or the file's base name. The root itself is its own
//! class; anything else is unknown. Store validation (does the tag exist,
//! is the file reachable) is layered on top by [`crate::fuse`]; this
//! module is the pure part.

use vstd::prelude::*;

use crate::config::Config;
use crate::entries::base_name_spec;
use crate::entries::base_name;

verus! {

/// A classified path, at the specification level.
pub enum SegView {
    /// The mount root.
    Root,
    /// A tag component; the label, marker stripped.
    Tag(Seq<char>),
    /// A file component; the base name, marker stripped.
    File(Seq<char>),
    /// Anything else.
    Unknown,
}

/// A classified path: the mount root, a tag, a file, or neither.
#[derive(Clone, Debug, PartialEq)]
pub enum PathSegment {
    /// The mount root.
    Root,
    /// A tag component; the label, marker stripped.
    Tag(String),
    /// A file component; the base name, marker stripped.
    File(String),
    /// Anything else.
    Unknown,
}

impl View for PathSegment {
    type V = SegView;

    open spec fn view(&self) -> SegView {
        match *self {
            PathSegment::Root => SegView::Root,
            PathSegment::Tag(ref t) => SegView::Tag(t@),
            PathSegment::File(ref n) => SegView::File(n@),
            PathSegment::Unknown => SegView::Unknown,
        }
    }
}

/// A base name is never longer than the path it came from.
pub proof fn lemma_base_name_le(s: Seq<char>)
    ensures
        base_name_spec(s).len() <= s.len(),
    decreases s.len(),
{
    if s.len() == 0 {
    } else if s[s.len() - 1] == '/' {
    } else {
        lemma_base_name_le(s.drop_last());
    }
}

/// The components of a path: the runs of characters between slashes,
/// in order, empty runs dropped.
pub open spec fn split_slash(s: Seq<char>) -> Seq<Seq<char>>
    decreases s.len(),
    via split_slash_decreases
{
    if s.len() == 0 {
        Seq::empty()
    } else if s[s.len() - 1] == '/' {
        split_slash(s.drop_last())
    } else {
        split_slash(s.subrange(0, s.len() - base_name_spec(s).len())).push(base_name_spec(s))
    }
}

#[via_fn]
proof fn split_slash_decreases(s: Seq<char>) {
    if s.len() != 0 && s[s.len() - 1] != '/' {
        lemma_base_name_le(s);
        assert(base_name_spec(s).len() >= 1);
    }
}

/// A component stripped of its one-character prefix marker.
pub open spec fn strip_mark(c: Seq<char>) -> Seq<char> {
    if c.len() >= 1 {
        c.subrange(1, c.len() as int)
    } else {
        c
    }
}

/// Prefix-stripping round trip, one direction: re-prefixing a stripped
/// component with the marker it carried reproduces the display name.
pub proof fn lemma_prefix_round_trip(name: Seq<char>, prefix: Seq<char>)
    requires
        prefix.len() == 1,
        name.len() >= 1,
        name[0] == prefix[0],
    ensures
        prefix + strip_mark(name) == name,
{
    assert(prefix + strip_mark(name) =~= name);
}

/// Prefix-stripping round trip, other direction: stripping a freshly
/// prefixed name gives the name back.
pub proof fn lemma_decode_display(name: Seq<char>, prefix: Seq<char>)
    requires
        prefix.len() == 1,
    ensures
        strip_mark(prefix + name) == name,
{
    assert(strip_mark(prefix + name) =~= name);
}

/// Splits a path into its components.
pub fn split_components(path: &str) -> (r: Vec<String>)
    ensures
        r.deep_view() == split_slash(path@),
    decreases path@.len(),
{
    let n = path.unicode_len();
    if n == 0 {
        let r: Vec<String> = Vec::new();
        proof {
            assert(r.deep_view() =~= split_slash(path@));
        }
        r
    } else if path.get_char(n - 1) == '/' {
        let rest = path.substring_char(0, n - 1);
        proof {
            assert(rest@ =~= path@.drop_last());
        }
        split_components(rest)
    } else {
        let b = base_name(path);
        let blen = b.as_str().unicode_len();
        proof {
            lemma_base_name_le(path@);
        }
        let prefix = path.substring_char(0, n - blen);
        proof {
            assert(prefix@ =~= path@.subrange(0, path@.len() - base_name_spec(path@).len()));
        }
        let mut r = split_components(prefix);
        let ghost pre = r.deep_view();
        r.push(b);
        proof {
            assert(r.deep_view() =~= pre.push(base_name_spec(path@)));
            assert(r.deep_view() =~= split_slash(path@));
        }
        r
    }
}

/// Decodes the tag selection of a directory path: every component below
/// the root, its prefix marker stripped. Tag and file components share
/// this decoding; which marker each component carried is checked
/// separately by classification.
pub fn decode_tags(path: &str) -> (r: Vec<String>)
    ensures
        r.deep_view() == split_slash(path@).map_values(|c: Seq<char>| strip_mark(c)),
{
    let comps = split_components(path);
    let mut r: Vec<String> = Vec::new();
    let mut i: usize = 0;
    while i < comps.len()
        invariant
            0 <= i <= comps@.len(),
            comps.deep_view() == split_slash(path@),
            r.deep_view() =~= comps.deep_view().take(i as int).map_values(
                |c: Seq<char>| strip_mark(c),
            ),
        decreases comps@.len() - i,
    {
        let c = &comps[i];
        let clen = c.as_str().unicode_len();
        let ghost pre = r.deep_view();
        if clen >= 1 {
            let stripped = c.as_str().substring_char(1, clen);
            proof {
                assert(stripped@ =~= strip_mark(comps.deep_view()[i as int]));
            }
            r.push(String::from_str(stripped));
        } else {
            r.push(c.clone());
        }
        proof {
            assert(r.deep_view() =~= pre.push(strip_mark(comps.deep_view()[i as int])));
            assert(r.deep_view() =~= comps.deep_view().take(i + 1).map_values(
                |c: Seq<char>| strip_mark(c),
            ));
        }
        i = i + 1;
    }
    proof {
        assert(comps.deep_view().take(comps.deep_view().len() as int) =~= comps.deep_view());
    }
    r
}

/// The classification of a path, at the specification level: the root if
/// it has no components; otherwise its final component decides — the file
/// marker makes it a file, the tag marker a tag, anything else unknown.
pub open spec fn segment_spec(path: Seq<char>, config: Config) -> SegView {
    let comps = split_slash(path);
    if comps.len() == 0 {
        SegView::Root
    } else {
        let last = comps.last();
        if last.len() == 0 {
            SegView::Unknown
        } else if last[0] == config.file_prefix@[0] {
            SegView::File(strip_mark(last))
        } else if last[0] == config.tag_prefix@[0] {
            SegView::Tag(strip_mark(last))
        } else {
            SegView::Unknown
        }
    }
}

/// Classifies a path by shape alone (no store round trip): the root, a
/// prefixed tag, a prefixed file, or unknown.
pub fn classify(path: &str, config: &Config) -> (r: PathSegment)
    requires
        config.wf(),
    ensures
        r@ == segment_spec(path@, *config),
{
    let comps = split_components(path);
    if comps.len() == 0 {
        return PathSegment::Root;
    }
    let last = &comps[comps.len() - 1];
    let llen = last.as_str().unicode_len();
    proof {
        assert(comps.deep_view().last() == last@);
    }
    if llen == 0 {
        return PathSegment::Unknown;
    }
    let first = last.as_str().get_char(0);
    let rest = last.as_str().substring_char(1, llen);
    proof {
        assert(rest@ =~= strip_mark(split_slash(path@).last()));
    }
    if first == config.file_prefix().get_char(0) {
        PathSegment::File(String::from_str(rest))
    } else if first == config.tag_prefix().get_char(0) {
        PathSegment::Tag(String::from_str(rest))
    } else {
        PathSegment::Unknown
    }
}

/// Applies a store answer to a shape-classified segment: a tag or file
/// segment whose name the store does not know degrades to unknown; the
/// root needs no store answer, and unknown stays unknown.
pub fn validate_segment(seg: PathSegment, exists: bool) -> (r: PathSegment)
    ensures
        r@ == match seg@ {
            SegView::Root => SegView::Root,
            SegView::Unknown => SegView::Unknown,
            SegView::Tag(t) => if exists {
                SegView::Tag(t)
            } else {
                SegView::Unknown
            },
            SegView::File(n) => if exists {
                SegView::File(n)
            } else {
                SegView::Unknown
            },
        },
{
    match seg {
        PathSegment::Root => PathSegment::Root,
        PathSegment::Unknown => PathSegment::Unknown,
        PathSegment::Tag(t) => if exists {
            PathSegment::Tag(t)
        } else {
            PathSegment::Unknown
        },
        PathSegment::File(n) => if exists {
            PathSegment::File(n)
        } else {
            PathSegment::Unknown
        },
    }
}

} // verus!
