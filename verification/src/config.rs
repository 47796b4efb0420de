//! Process-wide configuration: the two prefix markers, the optional
//! mountpoint, and the locations of the configuration file and the store.
//!
//! The configuration is loaded once at startup and read-shared by every
//! request; persistence (loading and storing the file on disk) happens
//! outside the library, which only validates and mutates the in-memory
//! value.

use vstd::prelude::*;

verus! {

/// The configuration record.
///
/// A well-formed configuration (see [`Config::wf`]) has two *distinct*
/// single-character prefix markers: one leading character marks a tag
/// segment, the other a file segment. Every path-classification and
/// entry-assembly function in this crate requires well-formedness.
#[derive(Clone, Debug)]
pub struct Config {
    /// Where the filesystem was last mounted, if ever.
    pub mountpoint: Option<String>,
    /// The leading character of a displayed tag name.
    pub tag_prefix: String,
    /// The leading character of a displayed file name.
    pub file_prefix: String,
    /// Where the configuration itself is persisted.
    pub config_path: String,
    /// Where the store's database lives.
    pub db_path: String,
}

impl Config {
    /// Both prefix markers are a single character and they differ, so that
    /// a path component is unambiguously a tag, a file, or neither.
    pub open spec fn wf(&self) -> bool {
        &&& self.tag_prefix@.len() == 1
        &&& self.file_prefix@.len() == 1
        &&& self.tag_prefix@ != self.file_prefix@
    }

    /// The mountpoint recorded by the last successful `mount`, if any.
    pub fn mountpoint(&self) -> (r: Option<&String>)
        ensures
            r == match self.mountpoint {
                Some(ref m) => Some(m),
                None => None::<&String>,
            },
    {
        self.mountpoint.as_ref()
    }

    /// Records a new mountpoint; the caller persists the change.
    pub fn set_mountpoint(&mut self, mountpoint: String)
        ensures
            final(self).mountpoint == Some(mountpoint),
            final(self).tag_prefix == old(self).tag_prefix,
            final(self).file_prefix == old(self).file_prefix,
            final(self).config_path == old(self).config_path,
            final(self).db_path == old(self).db_path,
    {
        self.mountpoint = Some(mountpoint);
    }

    /// The prefix marker of tag segments.
    pub fn tag_prefix(&self) -> (r: &str)
        ensures
            r@ == self.tag_prefix@,
    {
        self.tag_prefix.as_str()
    }

    /// Replaces the tag prefix; the caller persists the change.
    /// The new marker must be a single character distinct from the file
    /// marker, so that the configuration stays well formed.
    pub fn set_tag_prefix(&mut self, tag_prefix: String)
        requires
            tag_prefix@.len() == 1,
            tag_prefix@ != old(self).file_prefix@,
        ensures
            final(self).tag_prefix == tag_prefix,
            final(self).mountpoint == old(self).mountpoint,
            final(self).file_prefix == old(self).file_prefix,
            final(self).config_path == old(self).config_path,
            final(self).db_path == old(self).db_path,
            old(self).wf() ==> final(self).wf(),
    {
        self.tag_prefix = tag_prefix;
    }

    /// The prefix marker of file segments.
    pub fn file_prefix(&self) -> (r: &str)
        ensures
            r@ == self.file_prefix@,
    {
        self.file_prefix.as_str()
    }

    /// Replaces the file prefix; the caller persists the change.
    /// The new marker must be a single character distinct from the tag
    /// marker, so that the configuration stays well formed.
    pub fn set_file_prefix(&mut self, file_prefix: String)
        requires
            file_prefix@.len() == 1,
            file_prefix@ != old(self).tag_prefix@,
        ensures
            final(self).file_prefix == file_prefix,
            final(self).mountpoint == old(self).mountpoint,
            final(self).tag_prefix == old(self).tag_prefix,
            final(self).config_path == old(self).config_path,
            final(self).db_path == old(self).db_path,
            old(self).wf() ==> final(self).wf(),
    {
        self.file_prefix = file_prefix;
    }

    /// Where the configuration file lives.
    pub fn config_path(&self) -> (r: &str)
        ensures
            r@ == self.config_path@,
    {
        self.config_path.as_str()
    }

    /// Where the store's database lives.
    pub fn db_path(&self) -> (r: &str)
        ensures
            r@ == self.db_path@,
    {
        self.db_path.as_str()
    }
}

impl Default for Config {
    /// The stock configuration: no mountpoint, `:` marks tags, `_` marks
    /// files, and no paths chosen yet. The stock value is well formed.
    fn default() -> (r: Config)
        ensures
            r.mountpoint is None,
            r.tag_prefix@ == ":"@,
            r.file_prefix@ == "_"@,
            r.config_path@ == Seq::<char>::empty(),
            r.db_path@ == Seq::<char>::empty(),
            r.wf(),
    {
        proof {
            reveal_strlit(":");
            reveal_strlit("_");
            assert(":"@[0] == ':' && "_"@[0] == '_');
            assert(":"@ != "_"@);
        }
        Config {
            mountpoint: None,
            tag_prefix: String::from_str(":"),
            file_prefix: String::from_str("_"),
            config_path: String::new(),
            db_path: String::new(),
        }
    }
}

} // verus!
