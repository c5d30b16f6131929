use vstd::prelude::*;

verus! {

pub const MB: u64 = 1024 * 1024;

pub const GB: u64 = 1024 * 1024 * 1024;

/// The default part size of a multipart transfer.
pub const CHUNK_SIZE: u64 = 8 * 1024 * 1024;

/// The most parts one multipart session may hold.
pub const MAX_CHUNKS: u64 = 10000;

/// Whether a file takes the multipart path: anything larger than one
/// default part does; anything else is sent in a single call, and no
/// multipart session is created for it.
pub fn use_multipart(file_size: u64) -> (r: bool)
    ensures
        r == (file_size > CHUNK_SIZE),
{
    file_size > CHUNK_SIZE
}

} // verus!
