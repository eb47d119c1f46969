//! Entry snapshots: immutable, point-in-time descriptions of one
//! filesystem entry, and the resolver that assembles them.
//!
//! The caller performs the actual lookups (they are asynchronous, fallible
//! I/O) and hands their outcomes to the resolver here: the symlink-aware
//! base metadata, and — for symlinks only — the best-effort outcomes of the
//! follow-through metadata fetch and of reading the link's target. Only a
//! failed base lookup is fatal; a failed follow or target read merely
//! degrades the snapshot.

use vstd::prelude::*;

use crate::url::{Url, hidden_of, name_of, opt_bytes_view, opt_url_view, stem_of};

verus! {

/// What the resolver reads of OS metadata: classification and byte length.
#[derive(Clone, Copy, Debug, PartialEq, Eq, Structural)]
pub struct Metadata {
    pub is_file: bool,
    pub is_dir: bool,
    pub is_symlink: bool,
    pub size: u64,
}

/// The fatal failures of a resolution: the base metadata lookup failed.
#[derive(Clone, Copy, Debug, PartialEq, Eq, Structural)]
pub enum IoError {
    NotFound,
    PermissionDenied,
    Other,
}

/// An immutable snapshot of one filesystem entry.
#[derive(Clone, Debug, PartialEq, Eq)]
pub struct File {
    /// The path identity this snapshot describes.
    pub url: Url,
    /// The metadata of record: post-follow if following succeeded,
    /// the symlink-aware base metadata otherwise.
    pub meta: Metadata,
    /// Byte length of the final resolved target.
    pub length: u64,
    /// The link's target identity, when the entry is a symlink whose
    /// target was successfully read.
    pub link_to: Option<Url>,
    /// Whether the raw object at `url` is a symlink, decided from the
    /// un-followed metadata.
    pub is_link: bool,
    /// Whether the final path segment's name begins with a dot.
    pub is_hidden: bool,
}

/// The text that lossily decoding a byte sequence as UTF-8 yields.
pub uninterp spec fn lossy_of(b: Seq<u8>) -> Seq<char>;

/// Relies on String::from_utf8_lossy: the result depends on the bytes
/// alone, and valid UTF-8 — in particular ASCII — is decoded unchanged.
#[verifier::external_body]
fn utf8_lossy(b: &Vec<u8>) -> (r: String)
    ensures
        r@ == lossy_of(b@),
        (forall|i: int| 0 <= i < b@.len() ==> b@[i] < 128) ==> r@.len() == b@.len()
            && (forall|i: int| 0 <= i < b@.len() ==> r@[i] as u32 == b@[i] as u32),
{
    String::from_utf8_lossy(b.as_slice()).into_owned()
}

/// The metadata of record: the follow-through metadata when the entry is a
/// symlink and following succeeded, the base metadata otherwise.
pub open spec fn meta_of_record(base: Metadata, followed: Option<Metadata>) -> Metadata {
    match followed {
        Some(m) => if base.is_symlink {
            m
        } else {
            base
        },
        None => base,
    }
}

/// What a completed resolution promises of the snapshot it produced, given
/// the outcomes of the lookups it was handed.
pub open spec fn snapshot_of(
    f: File,
    url: Seq<u8>,
    base: Metadata,
    followed: Option<Metadata>,
    target: Option<Seq<u8>>,
) -> bool {
    &&& f.url@ == url
    &&& f.is_link == base.is_symlink
    &&& f.meta == meta_of_record(base, followed)
    &&& f.length == meta_of_record(base, followed).size
    &&& opt_url_view(f.link_to) == (if base.is_symlink {
        target
    } else {
        None::<Seq<u8>>
    })
    &&& f.is_hidden == hidden_of(url)
}

/// A snapshot of a non-symlink carries no link information: it is not
/// marked as a link, names no target, and its length is the direct
/// metadata's length, whatever the follow outcomes were.
pub proof fn lemma_plain_snapshot(
    f: File,
    url: Seq<u8>,
    base: Metadata,
    followed: Option<Metadata>,
    target: Option<Seq<u8>>,
)
    requires
        snapshot_of(f, url, base, followed, target),
        !base.is_symlink,
    ensures
        !f.is_link,
        f.link_to is None,
        f.meta == base,
        f.length == base.size,
{
}

/// A snapshot of a symlink whose target was followed and read describes
/// the target: its length is the target's length, not the link's own,
/// and the target identity is recorded.
pub proof fn lemma_followed_snapshot(
    f: File,
    url: Seq<u8>,
    base: Metadata,
    followed: Metadata,
    target: Seq<u8>,
)
    requires
        snapshot_of(f, url, base, Some(followed), Some(target)),
        base.is_symlink,
    ensures
        f.is_link,
        opt_url_view(f.link_to) == Some(target),
        f.meta == followed,
        f.length == followed.size,
{
}

/// A snapshot of a dangling or unreadable symlink still exists: it is
/// marked as a link, names no target, and falls back to the link's own
/// metadata and length.
pub proof fn lemma_dangling_snapshot(f: File, url: Seq<u8>, base: Metadata)
    requires
        snapshot_of(f, url, base, None, None),
        base.is_symlink,
    ensures
        f.is_link,
        f.link_to is None,
        f.meta == base,
        f.length == base.size,
{
}

impl File {
    /// Resolution from the outcome of the base metadata lookup. A failed
    /// base lookup is fatal and is returned unchanged; on success the
    /// snapshot is assembled from the best-effort follow outcomes.
    pub fn from(
        url: Url,
        base: Result<Metadata, IoError>,
        followed: Option<Metadata>,
        target: Option<Url>,
    ) -> (r: Result<File, IoError>)
        ensures
            match base {
                Ok(m) => match r {
                    Ok(f) => snapshot_of(f, url@, m, followed, opt_url_view(target)),
                    Err(_) => false,
                },
                Err(e) => r == Err::<File, IoError>(e),
            },
    {
        match base {
            Ok(m) => Ok(Self::from_meta(url, m, followed, target)),
            Err(e) => Err(e),
        }
    }

    /// Assembly of a snapshot from known base metadata and the best-effort
    /// outcomes of following the link and reading its target. For an entry
    /// that is not a symlink the follow outcomes are ignored; for a symlink,
    /// an absent outcome degrades the snapshot (base metadata retained,
    /// target left empty) instead of failing the resolution.
    pub fn from_meta(
        url: Url,
        meta: Metadata,
        followed: Option<Metadata>,
        target: Option<Url>,
    ) -> (f: File)
        ensures
            snapshot_of(f, url@, meta, followed, opt_url_view(target)),
    {
        let is_link = meta.is_symlink;
        let record = if is_link {
            match followed {
                Some(m) => m,
                None => meta,
            }
        } else {
            meta
        };
        let link_to = if is_link {
            target
        } else {
            None
        };
        let is_hidden = url.is_hidden_name();
        File { url, meta: record, length: record.size, link_to, is_link, is_hidden }
    }

    /// The snapshot's identity.
    pub fn url(&self) -> (r: Url)
        ensures
            r@ == self.url@,
    {
        self.url.clone()
    }

    /// The identity's file name.
    pub fn name(&self) -> (r: Option<Vec<u8>>)
        ensures
            opt_bytes_view(r) == name_of(self.url@),
    {
        self.url.file_name()
    }

    /// The identity's file name as displayable text, decoded lossily.
    pub fn name_display(&self) -> (r: Option<String>)
        ensures
            match (r, name_of(self.url@)) {
                (Some(s), Some(n)) => s@ == lossy_of(n),
                (None, None) => true,
                _ => false,
            },
    {
        match self.url.file_name() {
            Some(n) => Some(utf8_lossy(&n)),
            None => None,
        }
    }

    /// The identity's file stem.
    pub fn stem(&self) -> (r: Option<Vec<u8>>)
        ensures
            opt_bytes_view(r) == stem_of(self.url@),
    {
        self.url.file_stem()
    }

    /// The identity's parent, if it has one.
    pub fn parent(&self) -> (r: Option<Url>)
        ensures
            opt_url_view(r) == crate::url::parent_of(self.url@),
    {
        self.url.parent_url()
    }

    /// Whether the metadata of record describes a regular file.
    pub fn is_file(&self) -> (r: bool)
        ensures
            r == self.meta.is_file,
    {
        self.meta.is_file
    }

    /// Whether the metadata of record describes a directory.
    pub fn is_dir(&self) -> (r: bool)
        ensures
            r == self.meta.is_dir,
    {
        self.meta.is_dir
    }

    /// The link's target identity, when one was read.
    pub fn link_to(&self) -> (r: Option<&Url>)
        ensures
            match r {
                Some(u) => self.link_to is Some && u@ == self.link_to->0@,
                None => self.link_to is None,
            },
    {
        self.link_to.as_ref()
    }
}

} // verus!
