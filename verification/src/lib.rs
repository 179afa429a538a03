//! Content-addressable object hashing: a payload is framed with a
//! type-tagged length header `"<type> <length>\0"` and the SHA-1 digest of
//! the framed bytes is rendered as lowercase hexadecimal.

pub mod digest;
pub mod header;
pub mod object_type;
