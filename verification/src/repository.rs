//! The persistence repository handle: a durable-storage location bound at
//! construction.
//!
//! The handle is stateless beyond that binding.  What a repository stores
//! and accepts is the verified byte layout of [`crate::codec`]; the reads
//! and writes themselves are I/O and live with the embedding program, which
//! encodes with [`crate::codec::encode_state`] before writing and decodes
//! with [`crate::codec::decode_state`] after reading.

use vstd::prelude::*;

verus! {

/// A model repository backed by a single file at a fixed path.
pub struct FileModelRepository {
    path: String,
}

impl View for FileModelRepository {
    type V = Seq<char>;

    closed spec fn view(&self) -> Seq<char> {
        self.path@
    }
}

impl FileModelRepository {
    /// Binds a repository to the file at `path`.
    pub fn new(path: String) -> (r: FileModelRepository)
        ensures
            r@ == path@,
    {
        FileModelRepository { path }
    }

    /// The bound file path.
    pub fn path(&self) -> (r: &String)
        ensures
            r@ == self@,
    {
        &self.path
    }
}

} // verus!
