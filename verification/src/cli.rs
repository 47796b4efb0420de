//! The command surface the core accepts: the data each action hands to
//! the library. Parsing the actual command line happens outside; only the
//! decisions are made here.

use vstd::prelude::*;

use crate::config::Config;

verus! {

/// One invocation of the tool.
#[derive(Clone, Debug)]
pub enum Cli {
    /// Associate tags with a file, creating tags that do not exist yet.
    Add {
        /// The file to tag.
        file: String,
        /// The tags to attach.
        tags: Vec<String>,
    },
    /// Mount the filesystem, at the given mountpoint or the remembered
    /// one.
    Mount {
        /// An explicit mountpoint, overriding the configured one.
        mountpoint: Option<String>,
    },
    /// Change one configuration value.
    Configure {
        /// Which value, and to what.
        set: SetAction,
    },
}

/// A configuration change.
#[derive(Clone, Debug)]
pub enum SetAction {
    /// Replace the tag prefix marker.
    TagPrefix {
        /// The new marker.
        value: String,
    },
    /// Replace the file prefix marker.
    FilePrefix {
        /// The new marker.
        value: String,
    },
}

/// Applies a configuration change in memory; the caller persists the
/// changed configuration. The new marker must be a single character
/// distinct from the other marker, so the configuration stays well
/// formed; the caller rejects anything else before coming here.
pub fn apply_set(config: &mut Config, set: SetAction)
    requires
        match set {
            SetAction::TagPrefix { ref value } => value@.len() == 1 && value@
                != old(config).file_prefix@,
            SetAction::FilePrefix { ref value } => value@.len() == 1 && value@
                != old(config).tag_prefix@,
        },
    ensures
        match set {
            SetAction::TagPrefix { ref value } => final(config).tag_prefix == *value
                && final(config).file_prefix == old(config).file_prefix,
            SetAction::FilePrefix { ref value } => final(config).file_prefix == *value
                && final(config).tag_prefix == old(config).tag_prefix,
        },
        final(config).mountpoint == old(config).mountpoint,
        final(config).config_path == old(config).config_path,
        final(config).db_path == old(config).db_path,
        old(config).wf() ==> final(config).wf(),
{
    match set {
        SetAction::TagPrefix { value } => config.set_tag_prefix(value),
        SetAction::FilePrefix { value } => config.set_file_prefix(value),
    }
}

} // verus!
