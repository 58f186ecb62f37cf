//! What holds of every run: laws of the recursive walk of [`crate::model`],
//! which by [`crate::conduct`] is what the machine does.

use vstd::prelude::*;
use crate::classify::classification;
use crate::error::ErrorView;
use crate::exchange::{FileKind, ReplyView, RequestView};
use crate::model::{
    file_course, listing_reply, root_entries, run_course, run_result, visit, visit_all, Course,
    Entry, Exchange, Scene,
};
use crate::perms::stripped;
use crate::settings::SettingsView;

verus! {

/// A symbolic link is never followed. A visit that finds one, named by the
/// user or listed in a directory, ends the run with `SymlinkDenied` whatever
/// the settings, after it has asked for the entry's metadata and for nothing
/// else; so no file is changed.
pub proof fn lemma_symlink_is_denied(
    path: Seq<char>,
    top_level: bool,
    scene: Scene,
    settings: SettingsView,
)
    requires
        scene.stat matches Ok(metadata) && metadata.kind is Symlink,
    ensures
        visit(path, top_level, scene, settings) == (Course {
            exchanges: seq![
                Exchange {
                    request: RequestView::Stat { path, top_level },
                    reply: ReplyView::Stat(scene.stat),
                },
            ],
            error: Some(ErrorView::SymlinkDenied(path)),
        }),
        visit(path, top_level, scene, settings).changes_nothing(),
{
}

/// A directory that the user named is entered only under `recursive`.
/// Without it the visit ends the run once the directory's path has been made
/// canonical, with `RecursionNotRequested` if that succeeded: the directory
/// is not listed, and no file is changed.
pub proof fn lemma_directory_needs_recursive(path: Seq<char>, scene: Scene, settings: SettingsView)
    requires
        scene.stat matches Ok(metadata) && metadata.kind is Directory,
        !settings.recursive,
    ensures
        visit(path, true, scene, settings).error == Some(
            match scene.canonical {
                Ok(canonical) => ErrorView::RecursionNotRequested(canonical),
                Err(failure) => ErrorView::Io(failure),
            },
        ),
        visit(path, true, scene, settings).exchanges.len() == 2,
        visit(path, true, scene, settings).exchanges[0].request is Stat,
        visit(path, true, scene, settings).exchanges[1].request is Canonicalize,
        visit(path, true, scene, settings).changes_nothing(),
{
}

/// A directory that was found in a listing is entered whether or not
/// `recursive` is set: the option bears on the paths that the user named and
/// on nothing below them.
pub proof fn lemma_recursive_gates_top_level_only(
    path: Seq<char>,
    scene: Scene,
    settings: SettingsView,
    other: SettingsView,
)
    requires
        other == (SettingsView { recursive: !settings.recursive, ..settings }),
    ensures
        visit(path, false, scene, settings) == visit(path, false, scene, other),
    decreases scene,
{
    if scene.listing is Ok {
        lemma_recursive_never_read_below(scene.listing->Ok_0, settings, other);
    }
}

proof fn lemma_recursive_never_read_below(
    entries: Seq<Entry>,
    settings: SettingsView,
    other: SettingsView,
)
    requires
        other == (SettingsView { recursive: !settings.recursive, ..settings }),
    ensures
        visit_all(entries, false, settings) == visit_all(entries, false, other),
    decreases entries,
{
    if entries.len() > 0 {
        lemma_recursive_never_read_below(entries.drop_first(), settings, other);
        if entries.first() is Found {
            lemma_recursive_gates_top_level_only(
                entries.first()->path,
                entries.first()->scene,
                settings,
                other,
            );
        }
    }
}

/// A binary or a script is left alone: dealing with such a file ends with
/// the read of its first bytes, or under `verbose` with the notice that
/// follows it; it does not end the run, and the file is not changed.
pub proof fn lemma_programs_are_left_alone(
    path: Seq<char>,
    mode: u32,
    scene: Scene,
    settings: SettingsView,
)
    requires
        scene.prefix matches Ok(bytes) && !(classification(bytes) is Plain),
    ensures
        file_course(path, mode, scene, settings).error is None,
        file_course(path, mode, scene, settings).changes_nothing(),
        file_course(path, mode, scene, settings).exchanges.len() == if settings.verbose {
            2nat
        } else {
            1nat
        },
{
}

/// Whether nothing in the scene ends the run when the entry is visited.
///
/// - An entry that cannot be inspected passes under `force`, unless the user
///   named it and it does not exist.
/// - An entry that can be inspected must be a regular file or a directory,
///   and its path must have a canonical form.
/// - A regular file must be readable; unless it is a binary or a script, its
///   permission bits must be settable.
/// - A directory that the user named passes under `recursive` only. A
///   directory that cannot be listed passes under `force`; the entries of one
///   that can must pass in their turn.
pub open spec fn passable(scene: Scene, top_level: bool, settings: SettingsView) -> bool
    decreases scene,
{
    match scene.stat {
        Err(failure) => settings.force && !(top_level && failure.not_found),
        Ok(metadata) => scene.canonical is Ok && match metadata.kind {
            FileKind::File => match scene.prefix {
                Err(_) => false,
                Ok(bytes) => classification(bytes) is Plain ==> scene.mode_set is Ok,
            },
            FileKind::Directory => (settings.recursive || !top_level) && match scene.listing {
                Err(_) => settings.force,
                Ok(entries) => all_passable(entries, false, settings),
            },
            _ => false,
        },
    }
}

/// Whether none of `entries` ends the run when they are visited: an entry
/// that could not be read passes under `force`, and any other if nothing in
/// its scene ends the run.
pub open spec fn all_passable(entries: Seq<Entry>, top_level: bool, settings: SettingsView) -> bool
    decreases entries,
{
    forall|i: int|
        0 <= i < entries.len() ==> match #[trigger] entries[i] {
            Entry::Unreadable(_) => settings.force,
            Entry::Found { scene, .. } => passable(scene, top_level, settings),
        }
}

/// A visit goes through without ending the run exactly if nothing in the
/// scene ends the run.
pub proof fn lemma_visit_succeeds_iff_passable(
    path: Seq<char>,
    top_level: bool,
    scene: Scene,
    settings: SettingsView,
)
    ensures
        visit(path, top_level, scene, settings).error is None <==> passable(
            scene,
            top_level,
            settings,
        ),
    decreases scene,
{
    if scene.stat is Ok && scene.canonical is Ok && scene.stat->Ok_0.kind is Directory
        && scene.listing is Ok {
        lemma_visits_succeed_iff_passable(scene.listing->Ok_0, false, settings);
    }
}

/// The visits of `entries` go through without ending the run exactly if
/// none of the entries ends the run.
pub proof fn lemma_visits_succeed_iff_passable(
    entries: Seq<Entry>,
    top_level: bool,
    settings: SettingsView,
)
    ensures
        visit_all(entries, top_level, settings).error is None <==> all_passable(
            entries,
            top_level,
            settings,
        ),
    decreases entries,
{
    if entries.len() > 0 {
        let rest = entries.drop_first();
        lemma_visits_succeed_iff_passable(rest, top_level, settings);
        if entries[0] is Found {
            lemma_visit_succeeds_iff_passable(
                entries[0]->path,
                top_level,
                entries[0]->scene,
                settings,
            );
        }
        let first_passes = match entries[0] {
            Entry::Unreadable(_) => settings.force,
            Entry::Found { scene, .. } => passable(scene, top_level, settings),
        };
        if all_passable(entries, top_level, settings) {
            assert(first_passes);
            assert forall|i: int| 0 <= i < rest.len() implies match #[trigger] rest[i] {
                Entry::Unreadable(_) => settings.force,
                Entry::Found { scene, .. } => passable(scene, top_level, settings),
            } by {
                assert(rest[i] == entries[i + 1]);
            }
        }
        if first_passes && all_passable(rest, top_level, settings) {
            assert forall|i: int| 0 <= i < entries.len() implies match #[trigger] entries[i] {
                Entry::Unreadable(_) => settings.force,
                Entry::Found { scene, .. } => passable(scene, top_level, settings),
            } by {
                if i > 0 {
                    assert(entries[i] == rest[i - 1]);
                }
            }
        }
    }
}

/// Whether `course` holds what the entry of `scene` and every entry below it
/// is owed: for a regular file that is neither a binary nor a script, the
/// exchange that clears its execute bits and leaves its other bits alone;
/// for a directory, the exchange that lists it.
pub open spec fn serves(course: Course, scene: Scene) -> bool
    decreases scene,
{
    match (scene.stat, scene.canonical) {
        (Ok(metadata), Ok(path)) => match metadata.kind {
            FileKind::File => scene.prefix matches Ok(bytes) && classification(bytes) is Plain
                ==> course.holds(
                Exchange {
                    request: RequestView::SetMode { path, mode: stripped(metadata.mode) },
                    reply: ReplyView::ModeSet(scene.mode_set),
                },
            ),
            FileKind::Directory => {
                &&& course.holds(
                    Exchange { request: RequestView::List { path }, reply: listing_reply(scene) },
                )
                &&& scene.listing is Ok ==> serves_all(course, scene.listing->Ok_0)
            },
            _ => true,
        },
        _ => true,
    }
}

/// Whether `course` holds what each of `entries` that could be read, and
/// every entry below it, is owed.
pub open spec fn serves_all(course: Course, entries: Seq<Entry>) -> bool
    decreases entries,
{
    forall|i: int|
        0 <= i < entries.len() && (#[trigger] entries[i]) is Found ==> serves(
            course,
            entries[i]->scene,
        )
}

proof fn lemma_serves_more(course: Course, more: Course, scene: Scene)
    requires
        serves(course, scene),
        forall|exchange: Exchange| course.holds(exchange) ==> more.holds(exchange),
    ensures
        serves(more, scene),
    decreases scene,
{
    if scene.stat is Ok && scene.canonical is Ok && scene.stat->Ok_0.kind is Directory
        && scene.listing is Ok {
        let entries = scene.listing->Ok_0;
        assert forall|i: int|
            0 <= i < entries.len() && (#[trigger] entries[i]) is Found implies serves(
            more,
            entries[i]->scene,
        ) by {
            lemma_serves_more(course, more, entries[i]->scene);
        }
    }
}

proof fn lemma_holds_after(course: Course, first: Exchange, exchange: Exchange)
    ensures
        course.after(first).holds(exchange) <==> first == exchange || course.holds(exchange),
{
    let longer = course.after(first);
    if course.holds(exchange) {
        let i = choose|i: int| 0 <= i < course.exchanges.len() && course.exchanges[i] == exchange;
        assert(longer.exchanges[i + 1] == exchange);
    }
    if first == exchange {
        assert(longer.exchanges[0] == exchange);
    }
    if longer.holds(exchange) {
        let i = choose|i: int| 0 <= i < longer.exchanges.len() && longer.exchanges[i] == exchange;
        if i > 0 {
            assert(course.exchanges[i - 1] == exchange);
        }
    }
}

proof fn lemma_holds_followed_by(first: Course, second: Course, exchange: Exchange)
    requires
        first.error is None,
    ensures
        first.followed_by(second).holds(exchange) <==> first.holds(exchange) || second.holds(
            exchange,
        ),
{
    let both = first.followed_by(second);
    let n = first.exchanges.len() as int;
    if first.holds(exchange) {
        let i = choose|i: int| 0 <= i < first.exchanges.len() && first.exchanges[i] == exchange;
        assert(both.exchanges[i] == exchange);
    }
    if second.holds(exchange) {
        let i = choose|i: int| 0 <= i < second.exchanges.len() && second.exchanges[i] == exchange;
        assert(both.exchanges[n + i] == exchange);
    }
    if both.holds(exchange) {
        let i = choose|i: int| 0 <= i < both.exchanges.len() && both.exchanges[i] == exchange;
        if i < n {
            assert(first.exchanges[i] == exchange);
        } else {
            assert(second.exchanges[i - n] == exchange);
        }
    }
}

/// A visit that goes through reaches everything: it clears the execute bits
/// of every regular file at or below the entry, at any depth, that is
/// neither a binary nor a script, and it lists every directory there, with
/// no regard to `recursive` below the entry that the user named.
pub proof fn lemma_visit_serves_all(
    path: Seq<char>,
    top_level: bool,
    scene: Scene,
    settings: SettingsView,
)
    requires
        passable(scene, top_level, settings),
    ensures
        visit(path, top_level, scene, settings).error is None,
        serves(visit(path, top_level, scene, settings), scene),
    decreases scene,
{
    lemma_visit_succeeds_iff_passable(path, top_level, scene, settings);
    if scene.stat is Ok {
        let metadata = scene.stat->Ok_0;
        let canonical = scene.canonical->Ok_0;
        let course = visit(path, top_level, scene, settings);
        let stat = Exchange {
            request: RequestView::Stat { path, top_level },
            reply: ReplyView::Stat(scene.stat),
        };
        let resolve = Exchange {
            request: RequestView::Canonicalize {
                path,
                top_level,
                kind: metadata.kind,
                mode: metadata.mode,
            },
            reply: ReplyView::Canonical(scene.canonical),
        };
        if metadata.kind is File {
            let inner = file_course(canonical, metadata.mode, scene, settings);
            if classification(scene.prefix->Ok_0) is Plain {
                let wanted = Exchange {
                    request: RequestView::SetMode {
                        path: canonical,
                        mode: stripped(metadata.mode),
                    },
                    reply: ReplyView::ModeSet(scene.mode_set),
                };
                assert(inner.exchanges[1] == wanted);
                lemma_holds_after(inner, resolve, wanted);
                lemma_holds_after(inner.after(resolve), stat, wanted);
            }
        } else {
            let list = Exchange {
                request: RequestView::List { path: canonical },
                reply: listing_reply(scene),
            };
            match scene.listing {
                Err(_) => {
                    assert(course.exchanges[2] == list);
                },
                Ok(entries) => {
                    let inner = visit_all(entries, false, settings);
                    lemma_visits_serve_all(entries, false, settings);
                    assert forall|exchange: Exchange|
                        exchange == list || inner.holds(exchange) implies course.holds(
                        exchange,
                    ) by {
                        lemma_holds_after(inner, list, exchange);
                        lemma_holds_after(inner.after(list), resolve, exchange);
                        lemma_holds_after(inner.after(list).after(resolve), stat, exchange);
                    }
                    assert forall|i: int|
                        0 <= i < entries.len() && (#[trigger] entries[i]) is Found implies serves(
                        course,
                        entries[i]->scene,
                    ) by {
                        lemma_serves_more(inner, course, entries[i]->scene);
                    }
                },
            }
        }
    }
}

/// Visits that go through reach everything at and below each of the
/// entries that could be read.
pub proof fn lemma_visits_serve_all(entries: Seq<Entry>, top_level: bool, settings: SettingsView)
    requires
        all_passable(entries, top_level, settings),
    ensures
        visit_all(entries, top_level, settings).error is None,
        serves_all(visit_all(entries, top_level, settings), entries),
    decreases entries,
{
    lemma_visits_succeed_iff_passable(entries, top_level, settings);
    if entries.len() > 0 {
        let rest = entries.drop_first();
        let others = visit_all(rest, top_level, settings);
        let all = visit_all(entries, top_level, settings);
        lemma_visits_succeed_iff_passable(rest, top_level, settings);
        assert(all_passable(rest, top_level, settings)) by {
            assert forall|i: int| 0 <= i < rest.len() implies match #[trigger] rest[i] {
                Entry::Unreadable(_) => settings.force,
                Entry::Found { scene, .. } => passable(scene, top_level, settings),
            } by {
                assert(rest[i] == entries[i + 1]);
            }
        }
        lemma_visits_serve_all(rest, top_level, settings);
        match entries[0] {
            Entry::Unreadable(_) => {
                assert(all == others);
                assert forall|i: int|
                    0 <= i < entries.len() && (#[trigger] entries[i]) is Found implies serves(
                    all,
                    entries[i]->scene,
                ) by {
                    assert(entries[i] == rest[i - 1]);
                }
            },
            Entry::Found { path, scene } => {
                let first = visit(path, top_level, scene, settings);
                lemma_visit_serves_all(path, top_level, scene, settings);
                assert forall|exchange: Exchange|
                    first.holds(exchange) || others.holds(exchange) implies all.holds(
                    exchange,
                ) by {
                    lemma_holds_followed_by(first, others, exchange);
                }
                assert forall|i: int|
                    0 <= i < entries.len() && (#[trigger] entries[i]) is Found implies serves(
                    all,
                    entries[i]->scene,
                ) by {
                    if i == 0 {
                        lemma_serves_more(first, all, scene);
                    } else {
                        assert(entries[i] == rest[i - 1]);
                        lemma_serves_more(others, all, rest[i - 1]->scene);
                    }
                }
            },
        }
    }
}

/// When a run succeeds. The run comes to its end with `Ok(true)` exactly if
/// nothing that it meets ends it; and then it has reached everything at and
/// below each of the paths that the user named.
pub proof fn lemma_run_succeeds_iff_passable(settings: SettingsView, scenes: Seq<Scene>)
    requires
        scenes.len() == settings.paths.len(),
    ensures
        run_result(run_course(settings, scenes)) == Ok::<bool, ErrorView>(true) <==> forall|i: int|
            0 <= i < scenes.len() ==> passable(#[trigger] scenes[i], true, settings),
        run_result(run_course(settings, scenes)) is Ok ==> forall|i: int|
            0 <= i < scenes.len() ==> serves(run_course(settings, scenes), #[trigger] scenes[i]),
{
    let entries = root_entries(settings.paths, scenes);
    lemma_visits_succeed_iff_passable(entries, true, settings);
    if forall|i: int| 0 <= i < scenes.len() ==> passable(#[trigger] scenes[i], true, settings) {
        assert forall|i: int| 0 <= i < entries.len() implies match #[trigger] entries[i] {
            Entry::Unreadable(_) => settings.force,
            Entry::Found { scene, .. } => passable(scene, true, settings),
        } by {
            assert(passable(scenes[i], true, settings));
        }
    }
    if all_passable(entries, true, settings) {
        assert forall|i: int| 0 <= i < scenes.len() implies passable(
            #[trigger] scenes[i],
            true,
            settings,
        ) by {
            assert(entries[i] == Entry::Found { path: settings.paths[i], scene: scenes[i] });
        }
        lemma_visits_serve_all(entries, true, settings);
        assert forall|i: int| 0 <= i < scenes.len() implies serves(
            run_course(settings, scenes),
            #[trigger] scenes[i],
        ) by {
            assert(entries[i] is Found && entries[i]->scene == scenes[i]);
        }
    }
}

/// A path named by the user that does not exist ends the run with
/// `NotFound`, under `force` as without it, after the request for its
/// metadata and no other.
pub proof fn lemma_missing_path_is_fatal(path: Seq<char>, scene: Scene, settings: SettingsView)
    requires
        scene.stat matches Err(failure) && failure.not_found,
    ensures
        visit(path, true, scene, settings) == (Course {
            exchanges: seq![
                Exchange {
                    request: RequestView::Stat { path, top_level: true },
                    reply: ReplyView::Stat(scene.stat),
                },
            ],
            error: Some(ErrorView::NotFound(path)),
        }),
{
}

/// A file that cannot be read, or whose permission bits cannot be set, ends
/// the run, under `force` as without it.
pub proof fn lemma_file_failures_are_fatal(
    path: Seq<char>,
    mode: u32,
    scene: Scene,
    settings: SettingsView,
)
    ensures
        scene.prefix matches Err(failure) ==> file_course(path, mode, scene, settings).error
            == Some(ErrorView::Io(failure)),
        scene.prefix matches Ok(bytes) && classification(bytes) is Plain ==> file_course(
            path,
            mode,
            scene,
            settings,
        ).error == match scene.mode_set {
            Ok(_) => None,
            Err(failure) => Some(ErrorView::Io(failure)),
        },
{
}

/// When the first path that the user named does not exist, the run ends
/// with `NotFound`, under `force` as without it. It asks for that path's
/// metadata and for nothing else: the paths named after it are left as they
/// were.
pub proof fn lemma_missing_path_ends_run(settings: SettingsView, scenes: Seq<Scene>)
    requires
        scenes.len() == settings.paths.len(),
        settings.paths.len() > 0,
        scenes[0].stat matches Err(failure) && failure.not_found,
    ensures
        run_course(settings, scenes) == (Course {
            exchanges: seq![
                Exchange {
                    request: RequestView::Stat { path: settings.paths[0], top_level: true },
                    reply: ReplyView::Stat(scenes[0].stat),
                },
            ],
            error: Some(ErrorView::NotFound(settings.paths[0])),
        }),
        run_course(settings, scenes).changes_nothing(),
        run_result(run_course(settings, scenes)) == Err::<bool, ErrorView>(
            ErrorView::NotFound(settings.paths[0]),
        ),
{
    let entries = root_entries(settings.paths, scenes);
    assert(entries.first() == Entry::Found { path: settings.paths[0], scene: scenes[0] });
    let first = visit(settings.paths[0], true, scenes[0], settings);
    assert(first.error is Some);
    assert(visit_all(entries, true, settings) == first);
}

/// Under `force`, an entry that cannot be inspected is passed over and the
/// run goes on, unless it is a path named by the user that does not exist:
/// the visit asks for the entry's metadata, for nothing else, and does not
/// end the run.
pub proof fn lemma_force_passes_over(
    path: Seq<char>,
    top_level: bool,
    scene: Scene,
    settings: SettingsView,
)
    requires
        settings.force,
        scene.stat matches Err(failure) && !(top_level && failure.not_found),
    ensures
        visit(path, top_level, scene, settings) == (Course {
            exchanges: seq![
                Exchange {
                    request: RequestView::Stat { path, top_level },
                    reply: ReplyView::Stat(scene.stat),
                },
            ],
            error: None,
        }),
{
}

} // verus!
