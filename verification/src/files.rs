//! The adapter of the project's files on the local file system.

use vstd::prelude::*;

verus! {

/// Reads and writes the Flutter project's files (`pubspec.yaml`, the entrypoint) on the
/// local file system; the reads and writes themselves are done by the transport layer.
#[derive(Debug, Clone, Copy, Default)]
pub struct LocalFileSystemAdapter;

impl LocalFileSystemAdapter {
    pub fn new() -> (r: Self)
        ensures
            r == LocalFileSystemAdapter,
    {
        LocalFileSystemAdapter
    }
}

} // verus!
