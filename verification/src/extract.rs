//! The archive override extractor: walks the entries of a downloaded
//! overrides archive in order and turns each into one filesystem action —
//! a directory to create, or a file to write — after the entry's stored path
//! has passed the anti-traversal classifier and the `overrides` remap.
//!
//! The archive itself is read by the `zip` crate behind the trusted items
//! below; everything decided about an entry is decided here, from its plain
//! name, kind and content.

use vstd::prelude::*;

use crate::errors::PackError;
use crate::paths::resolve_entry_path;
use crate::paths::spec_path_safe;
use crate::paths::spec_resolved_entry_path;

verus! {

#[verifier::external_type_specification]
#[verifier::external_body]
#[verifier::reject_recursive_types(T)]
pub struct ExCursor<T>(std::io::Cursor<T>);

#[verifier::external_type_specification]
#[verifier::external_body]
#[verifier::reject_recursive_types(R)]
pub struct ExZipArchive<R>(zip::read::ZipArchive<R>);

/// What the archive holds, entry by entry, in archive order: the stored name,
/// whether the entry is a directory, and its full decompressed content.
pub uninterp spec fn zip_entries(a: zip::read::ZipArchive<std::io::Cursor<Vec<u8>>>) -> Seq<
    (Seq<char>, bool, Seq<u8>),
>;

/// Whether the bytes parse as an archive: opening reads only the buffer, so
/// success is a function of the bytes alone.
pub uninterp spec fn zip_parses(bytes: Seq<u8>) -> bool;

/// Whether entry `i` of the archive can be handed out whole: over an
/// in-memory buffer, reading an entry succeeds or fails as a function of the
/// archive value and the index alone.
pub uninterp spec fn zip_entry_readable(
    a: zip::read::ZipArchive<std::io::Cursor<Vec<u8>>>,
    i: int,
) -> bool;

/// Relies on `zip::ZipArchive::new`: parses the central directory of the
/// archive held in the given bytes; exactly the bodies that parse as an
/// archive open, everything else is refused with the parser's message.
#[verifier::external_body]
fn zip_open(bytes: Vec<u8>) -> (r: Result<zip::read::ZipArchive<std::io::Cursor<Vec<u8>>>, String>)
    ensures
        r is Ok <==> zip_parses(bytes@),
{
    match zip::read::ZipArchive::new(std::io::Cursor::new(bytes)) {
        Ok(a) => Ok(a),
        Err(e) => Err(format!("{:?}", e)),
    }
}

/// Relies on `zip::ZipArchive::len`: the number of entries in the archive.
#[verifier::external_body]
fn zip_len(a: &zip::read::ZipArchive<std::io::Cursor<Vec<u8>>>) -> (n: usize)
    ensures
        n == zip_entries(*a).len(),
{
    a.len()
}

/// Relies on `zip::ZipArchive::by_index`, `ZipFile::name`, `ZipFile::is_dir`
/// and `std::io::Read::read_to_end`: hands out entry `i`'s stored name, kind
/// and full decompressed content; reading leaves the entry list as it is.
/// Exactly the readable entries come out whole; a damaged one fails with the
/// reader's message.
#[verifier::external_body]
fn zip_entry(a: &mut zip::read::ZipArchive<std::io::Cursor<Vec<u8>>>, i: usize) -> (r: Result<
    (String, bool, Vec<u8>),
    String,
>)
    requires
        i < zip_entries(*old(a)).len(),
    ensures
        zip_entries(*final(a)) == zip_entries(*old(a)),
        r is Ok <==> zip_entry_readable(*old(a), i as int),
        r matches Ok(t) ==> (t.0@, t.1, t.2@) == zip_entries(*old(a))[i as int],
{
    match a.by_index(i) {
        Ok(mut f) => {
            let name = f.name().to_string();
            let dir = f.is_dir();
            let mut content: Vec<u8> = Vec::new();
            match std::io::Read::read_to_end(&mut f, &mut content) {
                Ok(_) => Ok((name, dir, content)),
                Err(e) => Err(format!("{:?}", e)),
            }
        },
        Err(e) => Err(format!("{:?}", e)),
    }
}

/// One filesystem action an entry resolves to.
#[derive(Clone, Debug, PartialEq, Eq)]
pub enum EntryAction {
    /// Create this directory and its missing ancestors; write no file.
    MakeDir(String),
    /// Create the file's missing ancestor directories, then write the content
    /// to the path, overwriting any existing file there.
    WriteFile(String, Vec<u8>),
}

/// Decides an entry's action from its plain fields: classifies and remaps the
/// stored path, and pairs the resolved destination with the entry's kind and
/// content. Exactly the entries whose every path component is a plain name or
/// a `.` marker are accepted.
pub fn plan_entry(name: &str, is_dir: bool, content: Vec<u8>, root: &str, id: &str) -> (r: Result<
    EntryAction,
    PackError,
>)
    ensures
        spec_path_safe(name@) && is_dir ==> (r matches Ok(a) && a matches EntryAction::MakeDir(p)
            && p@ == spec_resolved_entry_path(root@, id@, name@)),
        spec_path_safe(name@) && !is_dir ==> (r matches Ok(a) && a matches EntryAction::WriteFile(
            p,
            c,
        ) && p@ == spec_resolved_entry_path(root@, id@, name@) && c@ == content@),
        !spec_path_safe(name@) ==> (r matches Err(e) && e matches PackError::InvalidArchiveEntry(m)
            && m@ == name@),
{
    let path = match resolve_entry_path(name, root, id) {
        Ok(p) => p,
        Err(e) => {
            return Err(e);
        },
    };
    if is_dir {
        Ok(EntryAction::MakeDir(path))
    } else {
        Ok(EntryAction::WriteFile(path, content))
    }
}

/// Walks one overrides archive, entry by entry, handing out the action each
/// entry resolves to. The caller performs each action before asking for the
/// next, so a failure leaves exactly the earlier entries' effects in place.
pub struct OverridesExtractor {
    archive: zip::read::ZipArchive<std::io::Cursor<Vec<u8>>>,
    next: usize,
    total: usize,
    root: String,
    pack_id: String,
}

impl OverridesExtractor {
    /// The archive's entries, as the trusted reader names them.
    pub closed spec fn entries(&self) -> Seq<(Seq<char>, bool, Seq<u8>)> {
        zip_entries(self.archive)
    }

    /// How many entries have been consumed.
    pub closed spec fn pos(&self) -> int {
        self.next as int
    }

    /// Whether entry `i` can be handed out whole by the archive reader.
    pub closed spec fn entry_readable(&self, i: int) -> bool {
        zip_entry_readable(self.archive, i)
    }

    pub closed spec fn root_view(&self) -> Seq<char> {
        self.root@
    }

    pub closed spec fn id_view(&self) -> Seq<char> {
        self.pack_id@
    }

    pub closed spec fn wf(&self) -> bool {
        self.next <= self.entries().len() && self.total == self.entries().len()
    }

    /// Opens the overrides archive over its raw bytes: exactly the bodies
    /// that parse as an archive open; everything else fails with `Extraction`.
    pub fn new(archive_bytes: Vec<u8>, root: String, pack_id: String) -> (r: Result<
        OverridesExtractor,
        PackError,
    >)
        ensures
            r is Ok <==> zip_parses(archive_bytes@),
            r matches Ok(x) ==> x.wf() && x.pos() == 0 && x.root_view() == root@ && x.id_view()
                == pack_id@,
            r matches Err(e) ==> e matches PackError::Extraction(_),
    {
        match zip_open(archive_bytes) {
            Ok(archive) => {
                let total = zip_len(&archive);
                Ok(OverridesExtractor { archive, next: 0, total, root, pack_id })
            },
            Err(m) => Err(PackError::Extraction(m)),
        }
    }

    /// The number of entries in the archive.
    pub fn total_entries(&self) -> (n: usize)
        requires
            self.wf(),
        ensures
            n == self.entries().len(),
    {
        self.total
    }

    /// The next entry's action, in archive order; `None` once every entry has
    /// been consumed. Every readable entry with an acceptable stored path
    /// yields its action; one whose path the classifier rejects fails with
    /// `InvalidArchiveEntry`, and only one the archive reader cannot hand out
    /// fails with `Extraction`. Either way the run moves past it, and the
    /// caller aborts.
    pub fn next_action(&mut self) -> (r: Result<Option<EntryAction>, PackError>)
        requires
            old(self).wf(),
        ensures
            final(self).wf(),
            final(self).entries() == old(self).entries(),
            final(self).root_view() == old(self).root_view(),
            final(self).id_view() == old(self).id_view(),
            old(self).pos() == old(self).entries().len() ==> (r matches Ok(o) && o is None
                && final(self).pos() == old(self).pos()),
            old(self).pos() < old(self).entries().len() ==> final(self).pos() == old(self).pos()
                + 1,
            old(self).pos() < old(self).entries().len() ==> ({
                let entry = old(self).entries()[old(self).pos()];
                &&& (r matches Ok(o) ==> o matches Some(a) && spec_path_safe(entry.0) && (entry.1
                    ==> (a matches EntryAction::MakeDir(p) && p@ == spec_resolved_entry_path(
                    old(self).root_view(),
                    old(self).id_view(),
                    entry.0,
                ))) && (!entry.1 ==> (a matches EntryAction::WriteFile(p, c) && p@
                    == spec_resolved_entry_path(old(self).root_view(), old(self).id_view(), entry.0)
                    && c@ == entry.2)))
                &&& (old(self).entry_readable(old(self).pos()) && spec_path_safe(entry.0) ==> (r
                    matches Ok(o) && o is Some))
                &&& (!spec_path_safe(entry.0) ==> r is Err)
                &&& (r matches Err(e) ==> ((e matches PackError::InvalidArchiveEntry(m) && m@
                    == entry.0 && !spec_path_safe(entry.0)) || (e matches PackError::Extraction(_)
                    && !old(self).entry_readable(old(self).pos()))))
            }),
    {
        if self.next == self.total {
            return Ok(None);
        }
        let i = self.next;
        self.next = i + 1;
        let entry = match zip_entry(&mut self.archive, i) {
            Ok(t) => t,
            Err(m) => {
                return Err(PackError::Extraction(m));
            },
        };
        let (name, dir, content) = entry;
        match plan_entry(name.as_str(), dir, content, self.root.as_str(), self.pack_id.as_str()) {
            Ok(a) => Ok(Some(a)),
            Err(e) => Err(e),
        }
    }
}

} // verus!
