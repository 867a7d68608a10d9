//! The shapes of the command-line surface.
//!
//! Parsing the actual command line is the embedding program's work; these
//! are the values it hands over. Scalar options arrive as single-precision
//! bit patterns, paths as strings.

use vstd::prelude::*;

verus! {

/// Where geometry comes from.
#[derive(Debug, Clone)]
pub enum Source {
    /// Publish a single file or directory.
    File { name: String },
    /// Watch a directory; new files are loaded as soon as they appear.
    Watch(Directory),
    /// Listen on a websocket for geometry (not yet implemented).
    Websocket { port: String },
}

/// A directory watch request.
#[derive(Debug, Clone)]
pub struct Directory {
    /// Directory to watch for changes.
    pub dir: String,
    /// Load existing files in the directory first.
    pub load_existing: bool,
    /// When a new file shows up, discard previous objects before loading.
    pub latest_only: bool,
    /// New files may show up in subdirectories; combine with `latest_only`.
    pub organize_by_dir: bool,
}

/// The program's options.
#[derive(Debug, Clone)]
pub struct Arguments {
    pub source: Source,
    /// Host address to bind to.
    pub address: Option<String>,
    /// Port to listen on for clients.
    pub port: Option<u16>,
    /// Size in bytes of a large mesh; larger meshes are not sent inline.
    pub size_large_limit: u64,
    /// Rescale content by this factor.
    pub rescale: Option<u32>,
    /// Offset content by a vector, as provided by a string.
    pub offset: Option<String>,
}

} // verus!
