//! The download dispatcher: runs the fetch-and-verify step for every
//! descriptor of a manifest and surfaces the first failure.
//!
//! The dispatcher is a step machine. The caller asks `next_fetch` which
//! descriptor to retrieve, performs the retrieval, and hands the outcome back
//! through `on_outcome`, which verifies the body and plans the write. After
//! the first failure the dispatcher is halted and `next_fetch` schedules
//! nothing further (fail-fast); there is no cancellation of work already
//! handed out, and no retry.

use vstd::prelude::*;

use crate::errors::PackError;
use crate::hashing::spec_content_hash;
use crate::hashing::spec_hash_ok;
use crate::manifest::FileDescriptor;
use crate::manifest::FileWrite;
use crate::manifest::Manifest;
use crate::manifest::plan_file_write;
use crate::manifest::spec_dest_file;
use crate::manifest::spec_write_ok;

verus! {

/// What one attempted retrieval came back with: the full response body, or
/// the failure message of the request.
pub enum FetchOutcome {
    Fetched(Vec<u8>),
    NetworkFailed(String),
}

/// Sequential dispatch state over one manifest.
pub struct Dispatcher {
    pub manifest: Manifest,
    pub root: String,
    /// Index of the next descriptor to attempt.
    pub next: usize,
    /// Set once any step has failed; nothing further is scheduled then.
    pub halted: bool,
}

impl Dispatcher {
    pub open spec fn wf(&self) -> bool {
        self.next <= self.manifest.files@.len()
    }

    pub open spec fn files(&self) -> Seq<FileDescriptor> {
        self.manifest.files@
    }

    pub fn new(manifest: Manifest, root: String) -> (d: Dispatcher)
        ensures
            d.wf(),
            d.manifest == manifest,
            d.root == root,
            d.next == 0,
            !d.halted,
    {
        Dispatcher { manifest, root, next: 0, halted: false }
    }

    /// The next retrieval to attempt: the next descriptor's index and URL, in
    /// manifest order. After a failure, or once every descriptor has been
    /// consumed, nothing is scheduled.
    pub fn next_fetch(&self) -> (r: Option<(usize, String)>)
        requires
            self.wf(),
        ensures
            self.halted ==> r is None,
            !self.halted && self.next < self.files().len() ==> (r matches Some(p) && p.0
                == self.next && p.1@ == self.files()[self.next as int].url@),
            !self.halted && self.next == self.files().len() ==> r is None,
    {
        if self.halted || self.next >= self.manifest.files.len() {
            None
        } else {
            Some((self.next, self.manifest.files[self.next].url.clone()))
        }
    }

    /// Consumes the outcome of the scheduled retrieval: a network failure
    /// halts the run with its message; a retrieved body is verified and, on a
    /// mismatch against a non-empty expected hash, halts the run with
    /// `HashMismatch` and plans no write; otherwise the write of exactly the
    /// retrieved bytes at the descriptor's destination is handed back.
    pub fn on_outcome(&mut self, outcome: FetchOutcome) -> (r: Result<FileWrite, PackError>)
        requires
            old(self).wf(),
            !old(self).halted,
            old(self).next < old(self).files().len(),
        ensures
            final(self).wf(),
            final(self).manifest == old(self).manifest,
            final(self).root == old(self).root,
            final(self).next == old(self).next + 1,
            match outcome {
                FetchOutcome::NetworkFailed(m) => r matches Err(e) && e == PackError::Network(m)
                    && final(self).halted,
                FetchOutcome::Fetched(body) => {
                    let d = old(self).files()[old(self).next as int];
                    if spec_hash_ok(d.expected_hash@, body@) {
                        r matches Ok(w) && spec_write_ok(
                            w,
                            d,
                            old(self).root@,
                            old(self).manifest.pack_id@,
                            body@,
                        ) && !final(self).halted
                    } else {
                        r matches Err(e) && e matches PackError::HashMismatch { expected, found }
                            && expected@ == d.expected_hash@ && found@ == spec_content_hash(body@)
                            && final(self).halted
                    }
                },
            },
    {
        let i = self.next;
        let n = self.manifest.files.len();
        assert(i < n);
        self.next = i + 1;
        match outcome {
            FetchOutcome::NetworkFailed(m) => {
                self.halted = true;
                Err(PackError::Network(m))
            },
            FetchOutcome::Fetched(body) => {
                let planned = plan_file_write(
                    &self.manifest.files[i],
                    body,
                    self.root.as_str(),
                    self.manifest.pack_id.as_str(),
                );
                match planned {
                    Ok(w) => Ok(w),
                    Err(e) => {
                        self.halted = true;
                        Err(e)
                    },
                }
            },
        }
    }

    /// Reports that performing a planned write failed on disk; the run halts
    /// and the failure is surfaced as an I/O error.
    pub fn on_write_failure(&mut self, msg: String) -> (e: PackError)
        requires
            old(self).wf(),
        ensures
            final(self).wf(),
            final(self).manifest == old(self).manifest,
            final(self).root == old(self).root,
            final(self).next == old(self).next,
            final(self).halted,
            e == PackError::Io(msg),
    {
        self.halted = true;
        PackError::Io(msg)
    }

    /// True once every descriptor has been consumed without a failure.
    pub fn finished(&self) -> (r: bool)
        requires
            self.wf(),
        ensures
            r == (!self.halted && self.next == self.files().len()),
    {
        !self.halted && self.next == self.manifest.files.len()
    }
}

} // verus!
