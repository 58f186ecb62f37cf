//! What a run does, told as the recursive walk that it is.
//!
//! A [`Scene`] holds what the filesystem answers about one entry and about
//! everything below it. [`visit`] follows the entry through such a scene and
//! gives the [`Course`] of the visit: the requests made with their replies,
//! and the error that ended the run there, if one did. That the machine of
//! [`crate::walk`] takes exactly this course is proved in [`crate::conduct`];
//! what holds of every such course is proved in [`crate::laws`].

use vstd::prelude::*;
use crate::error::{ErrorView, IoFailureView};
use crate::exchange::{FileKind, Metadata, ReplyView, RequestView};
use crate::settings::SettingsView;
use crate::walk::file_verdict;

verus! {

/// What the filesystem answers about one entry, whatever is asked of it, and
/// about the entries below it.
pub struct Scene {
    /// The entry's metadata.
    pub stat: Result<Metadata, IoFailureView>,
    /// The entry's canonical path.
    pub canonical: Result<Seq<char>, IoFailureView>,
    /// The first four bytes of the entry, read as a file.
    pub prefix: Result<Seq<u8>, IoFailureView>,
    /// What comes of setting the entry's permission bits.
    pub mode_set: Result<(), IoFailureView>,
    /// The entries of the entry, listed as a directory.
    pub listing: Result<Seq<Entry>, IoFailureView>,
}

/// One entry of a directory's listing.
pub enum Entry {
    /// The entry could not be read.
    Unreadable(IoFailureView),
    /// The entry at `path`, with what the filesystem answers about it.
    Found { path: Seq<char>, scene: Scene },
}

/// A request together with the reply that it got.
pub struct Exchange {
    pub request: RequestView,
    pub reply: ReplyView,
}

/// What happened during a part of a run.
pub struct Course {
    /// The requests that were made, in their order, each with its reply.
    pub exchanges: Seq<Exchange>,
    /// The error that ended the run during this part, if one did.
    pub error: Option<ErrorView>,
}

impl Course {
    /// The course that starts with `exchange` and goes on as `self`.
    pub open spec fn after(self, exchange: Exchange) -> Course {
        Course { exchanges: seq![exchange] + self.exchanges, error: self.error }
    }

    /// The course `self`, followed, unless it ended the run, by `next`.
    pub open spec fn followed_by(self, next: Course) -> Course {
        if self.error is Some {
            self
        } else {
            Course { exchanges: self.exchanges + next.exchanges, error: next.error }
        }
    }

    /// Whether `exchange` took place during the course.
    pub open spec fn holds(self, exchange: Exchange) -> bool {
        exists|i: int| 0 <= i < self.exchanges.len() && #[trigger] self.exchanges[i] == exchange
    }

    /// Whether the course left every file as it was: no request to set
    /// permission bits was made.
    pub open spec fn changes_nothing(self) -> bool {
        forall|i: int|
            0 <= i < self.exchanges.len() ==> !((#[trigger] self.exchanges[i]).request is SetMode)
    }
}

/// What a listing of `entries` shows of them.
pub open spec fn listed(entries: Seq<Entry>) -> Seq<Result<Seq<char>, IoFailureView>> {
    entries.map_values(
        |entry: Entry|
            match entry {
                Entry::Unreadable(failure) => Err(failure),
                Entry::Found { path, .. } => Ok(path),
            },
    )
}

/// The reply to the listing of a directory with this scene.
pub open spec fn listing_reply(scene: Scene) -> ReplyView {
    ReplyView::Listing(
        match scene.listing {
            Ok(entries) => Ok(listed(entries)),
            Err(failure) => Err(failure),
        },
    )
}

/// The course of dealing with the regular file at `path`, whose permission
/// bits are `mode`: its first bytes are read; then, as they say, its execute
/// bits are cleared, or it is left alone, with a notice when `verbose`.
pub open spec fn file_course(
    path: Seq<char>,
    mode: u32,
    scene: Scene,
    settings: SettingsView,
) -> Course {
    let read = Exchange {
        request: RequestView::ReadPrefix { path, mode },
        reply: ReplyView::Prefix(scene.prefix),
    };
    match file_verdict(path, mode, scene.prefix, settings.verbose) {
        Err(error) => Course { exchanges: seq![read], error: Some(error) },
        Ok(None) => Course { exchanges: seq![read], error: None },
        Ok(Some(request)) => match request {
            RequestView::SetMode { .. } => Course {
                exchanges: seq![
                    read,
                    Exchange { request, reply: ReplyView::ModeSet(scene.mode_set) },
                ],
                error: match scene.mode_set {
                    Ok(_) => None,
                    Err(failure) => Some(ErrorView::Io(failure)),
                },
            },
            _ => Course {
                exchanges: seq![read, Exchange { request, reply: ReplyView::Noticed }],
                error: None,
            },
        },
    }
}

/// The course of visiting the entry at `path`, which the user named if
/// `top_level`, when the filesystem answers as `scene` says.
pub open spec fn visit(
    path: Seq<char>,
    top_level: bool,
    scene: Scene,
    settings: SettingsView,
) -> Course
    decreases scene,
{
    let stat = Exchange {
        request: RequestView::Stat { path, top_level },
        reply: ReplyView::Stat(scene.stat),
    };
    match scene.stat {
        Err(failure) => Course {
            exchanges: seq![stat],
            error: if top_level && failure.not_found {
                Some(ErrorView::NotFound(path))
            } else if settings.force {
                None
            } else {
                Some(ErrorView::Io(failure))
            },
        },
        Ok(metadata) => if metadata.kind is Symlink {
            Course { exchanges: seq![stat], error: Some(ErrorView::SymlinkDenied(path)) }
        } else {
            let resolve = Exchange {
                request: RequestView::Canonicalize {
                    path,
                    top_level,
                    kind: metadata.kind,
                    mode: metadata.mode,
                },
                reply: ReplyView::Canonical(scene.canonical),
            };
            match scene.canonical {
                Err(failure) => Course {
                    exchanges: seq![stat, resolve],
                    error: Some(ErrorView::Io(failure)),
                },
                Ok(canonical) => match metadata.kind {
                    FileKind::File => file_course(canonical, metadata.mode, scene, settings).after(
                        resolve,
                    ).after(stat),
                    FileKind::Directory => if top_level && !settings.recursive {
                        Course {
                            exchanges: seq![stat, resolve],
                            error: Some(ErrorView::RecursionNotRequested(canonical)),
                        }
                    } else {
                        let list = Exchange {
                            request: RequestView::List { path: canonical },
                            reply: listing_reply(scene),
                        };
                        match scene.listing {
                            Err(failure) => Course {
                                exchanges: seq![stat, resolve, list],
                                error: if settings.force {
                                    None
                                } else {
                                    Some(ErrorView::Io(failure))
                                },
                            },
                            Ok(entries) => visit_all(entries, false, settings).after(list).after(
                                resolve,
                            ).after(stat),
                        }
                    },
                    _ => Course {
                        exchanges: seq![stat, resolve],
                        error: Some(ErrorView::InvariantViolation(canonical)),
                    },
                },
            }
        },
    }
}

/// The course of visiting `entries` one after the other. An entry that could
/// not be read is passed over under `force`, and ends the run without it.
pub open spec fn visit_all(entries: Seq<Entry>, top_level: bool, settings: SettingsView) -> Course
    decreases entries,
{
    if entries.len() == 0 {
        Course { exchanges: Seq::empty(), error: None }
    } else {
        match entries.first() {
            Entry::Unreadable(failure) => if settings.force {
                visit_all(entries.drop_first(), top_level, settings)
            } else {
                Course { exchanges: Seq::empty(), error: Some(ErrorView::Io(failure)) }
            },
            Entry::Found { path, scene } => visit(path, top_level, scene, settings).followed_by(
                visit_all(entries.drop_first(), top_level, settings),
            ),
        }
    }
}

/// The entries that the paths named by the user are, when the filesystem
/// answers about each as the scene of the same rank says.
pub open spec fn root_entries(paths: Seq<Seq<char>>, scenes: Seq<Scene>) -> Seq<Entry> {
    Seq::new(paths.len(), |i: int| Entry::Found { path: paths[i], scene: scenes[i] })
}

/// The course of a whole run with these settings, when the filesystem
/// answers about each path that the user named as the scene of the same rank
/// says.
pub open spec fn run_course(settings: SettingsView, scenes: Seq<Scene>) -> Course {
    visit_all(root_entries(settings.paths, scenes), true, settings)
}

/// The result of a run that took this course.
pub open spec fn run_result(course: Course) -> Result<bool, ErrorView> {
    match course.error {
        Some(error) => Err(error),
        None => Ok(true),
    }
}

} // verus!
