//! Manifests, file descriptors, and the per-file fetch-and-verify step: the
//! part of a fetch that decides, from the retrieved bytes alone, whether the
//! file is written and where.

use vstd::prelude::*;

use crate::errors::PackError;
use crate::hashing::content_hash_hex;
use crate::hashing::spec_content_hash;
use crate::hashing::spec_hash_ok;

verus! {

/// One file entry of a manifest. Two descriptors with equal fields are
/// interchangeable; there is no identity beyond the fields.
#[derive(Clone, Debug, PartialEq, Eq)]
pub struct FileDescriptor {
    pub url: String,
    pub name: String,
    pub relative_path: String,
    /// Lowercase hex of the expected digest; empty means "skip verification".
    pub expected_hash: String,
}

/// An ordered sequence of descriptors plus the package id that fixes the
/// destination root subtree.
#[derive(Clone, Debug, PartialEq, Eq)]
pub struct Manifest {
    pub pack_id: String,
    pub files: Vec<FileDescriptor>,
}

/// A planned filesystem write: create `dir_path` (recursively), then write
/// `content` to `file_path`.
#[derive(Clone, Debug, PartialEq, Eq)]
pub struct FileWrite {
    pub dir_path: String,
    pub file_path: String,
    pub content: Vec<u8>,
}

/// The directory a descriptor's file lands in: `<root><id>/<relativePath>`.
/// The root carries its own trailing separator (the engine is handed `./`).
pub open spec fn spec_dest_dir(root: Seq<char>, id: Seq<char>, rel: Seq<char>) -> Seq<char> {
    root + id + "/"@ + rel
}

/// The file itself: the destination directory followed directly by the name
/// (relative paths in manifests end with their own separator).
pub open spec fn spec_dest_file(
    root: Seq<char>,
    id: Seq<char>,
    rel: Seq<char>,
    name: Seq<char>,
) -> Seq<char> {
    spec_dest_dir(root, id, rel) + name
}

/// Builds `<root><id>/<rel>`.
pub fn dest_dir(root: &str, id: &str, rel: &str) -> (r: String)
    ensures
        r@ == spec_dest_dir(root@, id@, rel@),
{
    let mut s = String::new();
    s.append(root);
    s.append(id);
    s.append("/");
    s.append(rel);
    proof {
        assert(s@ == root@ + id@ + "/"@ + rel@);
    }
    s
}

/// The write a successful fetch of `d` performs.
pub open spec fn spec_write_ok(
    w: FileWrite,
    d: FileDescriptor,
    root: Seq<char>,
    id: Seq<char>,
    body: Seq<u8>,
) -> bool {
    &&& w.dir_path@ == spec_dest_dir(root, id, d.relative_path@)
    &&& w.file_path@ == spec_dest_file(root, id, d.relative_path@, d.name@)
    &&& w.content@ == body
}

/// The fetch-and-verify step after the body has been retrieved: computes the
/// content hash, fails with `HashMismatch` (and plans no write) when a
/// non-empty expected hash differs, and otherwise plans the write of exactly
/// the retrieved bytes at the descriptor's destination.
pub fn plan_file_write(d: &FileDescriptor, body: Vec<u8>, root: &str, id: &str) -> (r: Result<
    FileWrite,
    PackError,
>)
    ensures
        spec_hash_ok(d.expected_hash@, body@) ==> (r matches Ok(w) && spec_write_ok(
            w,
            *d,
            root@,
            id@,
            body@,
        )),
        !spec_hash_ok(d.expected_hash@, body@) ==> (r matches Err(e) && e matches
            PackError::HashMismatch { expected, found } && expected@ == d.expected_hash@
            && found@ == spec_content_hash(body@)),
{
    let computed = content_hash_hex(&body);
    if !d.expected_hash.as_str().is_empty() && !(computed == d.expected_hash) {
        return Err(
            PackError::HashMismatch { expected: d.expected_hash.clone(), found: computed },
        );
    }
    let dir_path = dest_dir(root, id, d.relative_path.as_str());
    let mut file_path = dir_path.clone();
    file_path.append(d.name.as_str());
    Ok(FileWrite { dir_path, file_path, content: body })
}

} // verus!
