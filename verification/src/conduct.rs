//! The proof that the machine of [`crate::walk`] does what the recursive
//! walk of [`crate::model`] says.

use vstd::prelude::*;
use crate::error::ErrorView;
use crate::exchange::{ReplyView, RequestView};
use crate::model::{
    file_course, listed, listing_reply, root_entries, run_course, run_result, visit, visit_all,
    Entry, Exchange, Scene,
};
use crate::settings::SettingsView;
use crate::walk::{
    advance, entries_plan, file_verdict, resumed, roots, started, StepView, TaskView, WalkView,
};

verus! {

/// Whether a run that stands at `from` makes exactly the requests of
/// `exchanges`, in their order, when each is answered as it is there, and
/// stands at `to` after the last of them.
pub open spec fn conducts(from: StepView, exchanges: Seq<Exchange>, to: StepView) -> bool
    decreases exchanges.len(),
{
    if exchanges.len() == 0 {
        from == to
    } else {
        &&& from matches StepView::Next(walk)
        &&& walk.asked == exchanges.first().request
        &&& conducts(resumed(walk, exchanges.first().reply), exchanges.drop_first(), to)
    }
}

/// Where a run stands after a part that ended with `error`, if with any, and
/// left `pending` to do.
pub open spec fn standing(
    error: Option<ErrorView>,
    settings: SettingsView,
    pending: Seq<TaskView>,
) -> StepView {
    match error {
        Some(error) => StepView::Done(Err(error)),
        None => advance(settings, pending),
    }
}

/// The tasks that `entries` lead to, in their order.
pub open spec fn tasks_of(entries: Seq<Entry>, top_level: bool, force: bool) -> Seq<TaskView>
    decreases entries.len(),
{
    if entries.len() == 0 {
        Seq::empty()
    } else {
        match entries.first() {
            Entry::Found { path, .. } => seq![TaskView::Visit { path, top_level }] + tasks_of(
                entries.drop_first(),
                top_level,
                force,
            ),
            Entry::Unreadable(failure) => if force {
                tasks_of(entries.drop_first(), top_level, force)
            } else {
                seq![TaskView::Fail(ErrorView::Io(failure))]
            },
        }
    }
}

proof fn lemma_plan_of_listed(entries: Seq<Entry>, force: bool)
    ensures
        entries_plan(listed(entries), force) == tasks_of(entries, false, force),
    decreases entries.len(),
{
    if entries.len() > 0 {
        assert(listed(entries).drop_first() =~= listed(entries.drop_first()));
        lemma_plan_of_listed(entries.drop_first(), force);
    }
}

proof fn lemma_tasks_of_roots(paths: Seq<Seq<char>>, scenes: Seq<Scene>, force: bool)
    requires
        scenes.len() == paths.len(),
    ensures
        tasks_of(root_entries(paths, scenes), true, force) == roots(paths),
    decreases paths.len(),
{
    let entries = root_entries(paths, scenes);
    if paths.len() > 0 {
        assert(entries.drop_first() =~= root_entries(paths.drop_first(), scenes.drop_first()));
        lemma_tasks_of_roots(paths.drop_first(), scenes.drop_first(), force);
        assert(roots(paths) =~= seq![TaskView::Visit { path: paths[0], top_level: true }] + roots(
            paths.drop_first(),
        ));
    } else {
        assert(roots(paths) =~= Seq::empty());
    }
}

proof fn lemma_conducts_one(walk: WalkView, exchange: Exchange, rest: Seq<Exchange>, to: StepView)
    requires
        walk.asked == exchange.request,
        conducts(resumed(walk, exchange.reply), rest, to),
    ensures
        conducts(StepView::Next(walk), seq![exchange] + rest, to),
{
    let all = seq![exchange] + rest;
    assert(all.first() == exchange);
    assert(all.drop_first() =~= rest);
}

proof fn lemma_conducts_join(
    from: StepView,
    first: Seq<Exchange>,
    between: StepView,
    second: Seq<Exchange>,
    to: StepView,
)
    requires
        conducts(from, first, between),
        conducts(between, second, to),
    ensures
        conducts(from, first + second, to),
    decreases first.len(),
{
    if first.len() == 0 {
        assert(first + second =~= second);
    } else {
        let walk = from->Next_0;
        lemma_conducts_join(
            resumed(walk, first.first().reply),
            first.drop_first(),
            between,
            second,
            to,
        );
        assert((first + second).first() == first.first());
        assert((first + second).drop_first() =~= first.drop_first() + second);
    }
}

proof fn lemma_file_conducts(
    path: Seq<char>,
    mode: u32,
    scene: Scene,
    settings: SettingsView,
    pending: Seq<TaskView>,
)
    ensures
        conducts(
            StepView::Next(
                WalkView { settings, pending, asked: RequestView::ReadPrefix { path, mode } },
            ),
            file_course(path, mode, scene, settings).exchanges,
            standing(file_course(path, mode, scene, settings).error, settings, pending),
        ),
{
    let walk = WalkView { settings, pending, asked: RequestView::ReadPrefix { path, mode } };
    let course = file_course(path, mode, scene, settings);
    let to = standing(course.error, settings, pending);
    let read = Exchange {
        request: RequestView::ReadPrefix { path, mode },
        reply: ReplyView::Prefix(scene.prefix),
    };
    match file_verdict(path, mode, scene.prefix, settings.verbose) {
        Ok(Some(request)) => {
            let reply = if request is SetMode {
                ReplyView::ModeSet(scene.mode_set)
            } else {
                ReplyView::Noticed
            };
            let second = Exchange { request, reply };
            let asking = WalkView { settings, pending, asked: request };
            assert(resumed(walk, read.reply) == StepView::Next(asking));
            assert(conducts(resumed(asking, reply), Seq::empty(), to));
            lemma_conducts_one(asking, second, Seq::empty(), to);
            lemma_conducts_one(walk, read, seq![second] + Seq::empty(), to);
            assert(course.exchanges =~= seq![read] + (seq![second] + Seq::empty()));
        },
        _ => {
            assert(conducts(resumed(walk, read.reply), Seq::empty(), to));
            lemma_conducts_one(walk, read, Seq::empty(), to);
            assert(course.exchanges =~= seq![read] + Seq::empty());
        },
    }
}

proof fn lemma_visit_conducts(
    path: Seq<char>,
    top_level: bool,
    scene: Scene,
    settings: SettingsView,
    pending: Seq<TaskView>,
)
    ensures
        conducts(
            StepView::Next(
                WalkView { settings, pending, asked: RequestView::Stat { path, top_level } },
            ),
            visit(path, top_level, scene, settings).exchanges,
            standing(visit(path, top_level, scene, settings).error, settings, pending),
        ),
    decreases scene,
{
    let walk = WalkView { settings, pending, asked: RequestView::Stat { path, top_level } };
    let course = visit(path, top_level, scene, settings);
    let to = standing(course.error, settings, pending);
    let stat = Exchange {
        request: RequestView::Stat { path, top_level },
        reply: ReplyView::Stat(scene.stat),
    };
    let none = Seq::<Exchange>::empty();
    if scene.stat is Ok && !(scene.stat->Ok_0.kind is Symlink) {
        let metadata = scene.stat->Ok_0;
        let request = RequestView::Canonicalize {
            path,
            top_level,
            kind: metadata.kind,
            mode: metadata.mode,
        };
        let resolve = Exchange { request, reply: ReplyView::Canonical(scene.canonical) };
        let resolving = WalkView { settings, pending, asked: request };
        assert(resumed(walk, stat.reply) == StepView::Next(resolving));
        if scene.canonical is Ok && metadata.kind is File {
            let canonical = scene.canonical->Ok_0;
            let inner = file_course(canonical, metadata.mode, scene, settings);
            lemma_file_conducts(canonical, metadata.mode, scene, settings, pending);
            lemma_conducts_one(resolving, resolve, inner.exchanges, to);
            lemma_conducts_one(walk, stat, seq![resolve] + inner.exchanges, to);
        } else if scene.canonical is Ok && metadata.kind is Directory && !(top_level
            && !settings.recursive) {
            let canonical = scene.canonical->Ok_0;
            let list = Exchange {
                request: RequestView::List { path: canonical },
                reply: listing_reply(scene),
            };
            let listing = WalkView { settings, pending, asked: list.request };
            assert(resumed(resolving, resolve.reply) == StepView::Next(listing));
            match scene.listing {
                Ok(entries) => {
                    let inner = visit_all(entries, false, settings);
                    lemma_plan_of_listed(entries, settings.force);
                    lemma_all_conduct(entries, false, settings, pending);
                    lemma_conducts_one(listing, list, inner.exchanges, to);
                    lemma_conducts_one(resolving, resolve, seq![list] + inner.exchanges, to);
                    lemma_conducts_one(
                        walk,
                        stat,
                        seq![resolve] + (seq![list] + inner.exchanges),
                        to,
                    );
                },
                Err(_) => {
                    if settings.force {
                        assert(Seq::<TaskView>::empty() + pending =~= pending);
                    }
                    assert(conducts(resumed(listing, list.reply), none, to));
                    lemma_conducts_one(listing, list, none, to);
                    lemma_conducts_one(resolving, resolve, seq![list] + none, to);
                    lemma_conducts_one(walk, stat, seq![resolve] + (seq![list] + none), to);
                    assert(course.exchanges =~= seq![stat] + (seq![resolve] + (seq![list] + none)));
                },
            }
        } else {
            assert(conducts(resumed(resolving, resolve.reply), none, to));
            lemma_conducts_one(resolving, resolve, none, to);
            lemma_conducts_one(walk, stat, seq![resolve] + none, to);
            assert(course.exchanges =~= seq![stat] + (seq![resolve] + none));
        }
    } else {
        assert(conducts(resumed(walk, stat.reply), none, to));
        lemma_conducts_one(walk, stat, none, to);
        assert(course.exchanges =~= seq![stat] + none);
    }
}

proof fn lemma_all_conduct(
    entries: Seq<Entry>,
    top_level: bool,
    settings: SettingsView,
    pending: Seq<TaskView>,
)
    ensures
        conducts(
            advance(settings, tasks_of(entries, top_level, settings.force) + pending),
            visit_all(entries, top_level, settings).exchanges,
            standing(visit_all(entries, top_level, settings).error, settings, pending),
        ),
    decreases entries,
{
    let tasks = tasks_of(entries, top_level, settings.force);
    if entries.len() == 0 {
        assert(tasks + pending =~= pending);
    } else {
        let rest = entries.drop_first();
        let later = tasks_of(rest, top_level, settings.force);
        match entries.first() {
            Entry::Unreadable(_) => {
                if settings.force {
                    lemma_all_conduct(rest, top_level, settings, pending);
                }
            },
            Entry::Found { path, scene } => {
                let first = visit(path, top_level, scene, settings);
                let others = visit_all(rest, top_level, settings);
                assert((tasks + pending).drop_first() =~= later + pending);
                lemma_visit_conducts(path, top_level, scene, settings, later + pending);
                if first.error is None {
                    lemma_all_conduct(rest, top_level, settings, pending);
                    lemma_conducts_join(
                        advance(settings, tasks + pending),
                        first.exchanges,
                        advance(settings, later + pending),
                        others.exchanges,
                        standing(others.error, settings, pending),
                    );
                }
            },
        }
    }
}

/// A run does what [`run_course`] says: started with `settings` and answered
/// as `scenes` say, it makes the requests of that course and no other, in
/// that order, and then is over with the result of that course.
pub proof fn theorem_run_takes_its_course(settings: SettingsView, scenes: Seq<Scene>)
    requires
        scenes.len() == settings.paths.len(),
    ensures
        conducts(
            started(settings),
            run_course(settings, scenes).exchanges,
            StepView::Done(run_result(run_course(settings, scenes))),
        ),
{
    let entries = root_entries(settings.paths, scenes);
    lemma_tasks_of_roots(settings.paths, scenes, settings.force);
    lemma_all_conduct(entries, true, settings, Seq::empty());
    assert(roots(settings.paths) + Seq::<TaskView>::empty() =~= roots(settings.paths));
}

} // verus!
