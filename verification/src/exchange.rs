//! What a walk asks of the filesystem, and what comes back.
//!
//! The library touches no file. It hands out one [`Request`] at a time; whoever
//! drives the walk performs it and answers with the matching [`Reply`].

use vstd::prelude::*;
use crate::error::{IoFailure, IoFailureView};

verus! {

/// The type of a filesystem entry.
#[derive(Clone, Copy, Debug, PartialEq, Eq, Structural)]
pub enum FileKind {
    /// A regular file.
    File,
    /// A directory.
    Directory,
    /// A symbolic link.
    Symlink,
    /// Anything else: a device, a socket, a fifo.
    Other,
}

/// What was found at a path: its type and its permission bits.
#[derive(Clone, Copy, Debug, PartialEq, Eq, Structural)]
pub struct Metadata {
    pub kind: FileKind,
    pub mode: u32,
}

/// One operation on the filesystem that the walk wants performed, together with
/// what the walk remembers of the entry while it waits for the answer.
#[derive(Clone, Debug, PartialEq, Eq)]
pub enum Request {
    /// Fetch the metadata of `path` itself; a symbolic link is not followed.
    Stat { path: String, top_level: bool },
    /// Resolve `path` to its absolute form.
    Canonicalize { path: String, top_level: bool, kind: FileKind, mode: u32 },
    /// Read exactly the first four bytes of the file at `path`.
    ReadPrefix { path: String, mode: u32 },
    /// List the entries of the directory at `path`, each by its full path.
    List { path: String },
    /// Set the permission bits of `path` to `mode`.
    SetMode { path: String, mode: u32 },
    /// Print `text`, which says why the file at `path` was left alone.
    Notice { path: String, text: String },
}

/// The mathematical value of a [`Request`].
pub enum RequestView {
    Stat { path: Seq<char>, top_level: bool },
    Canonicalize { path: Seq<char>, top_level: bool, kind: FileKind, mode: u32 },
    ReadPrefix { path: Seq<char>, mode: u32 },
    List { path: Seq<char> },
    SetMode { path: Seq<char>, mode: u32 },
    Notice { path: Seq<char>, text: Seq<char> },
}

impl View for Request {
    type V = RequestView;

    open spec fn view(&self) -> RequestView {
        match self {
            Request::Stat { path, top_level } => RequestView::Stat {
                path: path@,
                top_level: *top_level,
            },
            Request::Canonicalize { path, top_level, kind, mode } => RequestView::Canonicalize {
                path: path@,
                top_level: *top_level,
                kind: *kind,
                mode: *mode,
            },
            Request::ReadPrefix { path, mode } => RequestView::ReadPrefix {
                path: path@,
                mode: *mode,
            },
            Request::List { path } => RequestView::List { path: path@ },
            Request::SetMode { path, mode } => RequestView::SetMode { path: path@, mode: *mode },
            Request::Notice { path, text } => RequestView::Notice { path: path@, text: text@ },
        }
    }
}

impl RequestView {
    /// The path that the request is about.
    pub open spec fn path(self) -> Seq<char> {
        match self {
            RequestView::Stat { path, .. } => path,
            RequestView::Canonicalize { path, .. } => path,
            RequestView::ReadPrefix { path, .. } => path,
            RequestView::List { path } => path,
            RequestView::SetMode { path, .. } => path,
            RequestView::Notice { path, .. } => path,
        }
    }
}

/// The answer to a [`Request`], one variant for each.
#[derive(Debug, PartialEq, Eq)]
pub enum Reply {
    /// To `Stat`.
    Stat(Result<Metadata, IoFailure>),
    /// To `Canonicalize`: the resolved path.
    Canonical(Result<String, IoFailure>),
    /// To `ReadPrefix`: the four bytes.
    Prefix(Result<[u8; 4], IoFailure>),
    /// To `List`: the entries in the order the directory gave them, each one
    /// its full path or the failure to read it.
    Listing(Result<Vec<Result<String, IoFailure>>, IoFailure>),
    /// To `SetMode`.
    ModeSet(Result<(), IoFailure>),
    /// To `Notice`.
    Noticed,
}

/// The mathematical value of a [`Reply`].
pub enum ReplyView {
    Stat(Result<Metadata, IoFailureView>),
    Canonical(Result<Seq<char>, IoFailureView>),
    Prefix(Result<Seq<u8>, IoFailureView>),
    Listing(Result<Seq<Result<Seq<char>, IoFailureView>>, IoFailureView>),
    ModeSet(Result<(), IoFailureView>),
    Noticed,
}

/// The mathematical value of one entry of a listing.
pub open spec fn entry_view(entry: Result<String, IoFailure>) -> Result<Seq<char>, IoFailureView> {
    match entry {
        Ok(path) => Ok(path@),
        Err(failure) => Err(failure@),
    }
}

/// The mathematical value of a listing's entries.
pub open spec fn entries_view(entries: Seq<Result<String, IoFailure>>) -> Seq<
    Result<Seq<char>, IoFailureView>,
> {
    entries.map_values(|entry: Result<String, IoFailure>| entry_view(entry))
}

/// The mathematical value of what a listing gave.
pub open spec fn listing_view(listing: Result<Vec<Result<String, IoFailure>>, IoFailure>) -> Result<
    Seq<Result<Seq<char>, IoFailureView>>,
    IoFailureView,
> {
    match listing {
        Ok(entries) => Ok(entries_view(entries@)),
        Err(failure) => Err(failure@),
    }
}

/// The mathematical value of what the read of a file's first bytes gave.
pub open spec fn prefix_view(prefix: Result<[u8; 4], IoFailure>) -> Result<Seq<u8>, IoFailureView> {
    match prefix {
        Ok(bytes) => Ok(bytes@),
        Err(failure) => Err(failure@),
    }
}

impl View for Reply {
    type V = ReplyView;

    open spec fn view(&self) -> ReplyView {
        match self {
            Reply::Stat(Ok(metadata)) => ReplyView::Stat(Ok(*metadata)),
            Reply::Stat(Err(failure)) => ReplyView::Stat(Err(failure@)),
            Reply::Canonical(Ok(path)) => ReplyView::Canonical(Ok(path@)),
            Reply::Canonical(Err(failure)) => ReplyView::Canonical(Err(failure@)),
            Reply::Prefix(prefix) => ReplyView::Prefix(prefix_view(*prefix)),
            Reply::Listing(listing) => ReplyView::Listing(listing_view(*listing)),
            Reply::ModeSet(Ok(_)) => ReplyView::ModeSet(Ok(())),
            Reply::ModeSet(Err(failure)) => ReplyView::ModeSet(Err(failure@)),
            Reply::Noticed => ReplyView::Noticed,
        }
    }
}

} // verus!
