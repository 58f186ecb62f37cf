//! The walk over the paths of a run, as a machine that asks and is answered.
//!
//! [`run`] starts a walk. While it lasts, the walk holds one [`Request`];
//! [`Walk::resume`] takes the [`Reply`] to it and gives the next step, until
//! the run is done. Entries are visited depth first, in the order in which
//! they were named or listed.

use vstd::prelude::*;
use vstd::string::*;
use crate::classify::{classification, classify, Classification};
use crate::error::{quote_path, Error, ErrorView, IoFailure, IoFailureView};
use crate::exchange::{
    entries_view, listing_view, prefix_view, FileKind, Reply, ReplyView, Request, RequestView,
};
use crate::perms::{strip_execute, stripped};
use crate::settings::{Settings, SettingsView};

verus! {

/// Something that the walk has still to do.
#[derive(Clone, Debug, PartialEq, Eq)]
pub enum Task {
    /// Visit the entry at `path`; `top_level` says that the user named it.
    Visit { path: String, top_level: bool },
    /// End the run with this error.
    Fail(Error),
}

/// The mathematical value of a [`Task`].
pub enum TaskView {
    Visit { path: Seq<char>, top_level: bool },
    Fail(ErrorView),
}

impl View for Task {
    type V = TaskView;

    open spec fn view(&self) -> TaskView {
        match self {
            Task::Visit { path, top_level } => TaskView::Visit {
                path: path@,
                top_level: *top_level,
            },
            Task::Fail(error) => TaskView::Fail(error@),
        }
    }
}

/// The tasks of a stack in the order in which they will be taken: the one
/// pushed last comes first.
pub open spec fn stack_view(stack: Seq<Task>) -> Seq<TaskView> {
    stack.map_values(|task: Task| task@).reverse()
}

/// A walk that waits for the answer to a request.
#[derive(Debug, PartialEq, Eq)]
pub struct Walk {
    settings: Settings,
    pending: Vec<Task>,
    asked: Request,
}

/// The mathematical value of a [`Walk`].
pub struct WalkView {
    /// The options of the run.
    pub settings: SettingsView,
    /// What is still to do after the entry at hand, the next task first.
    pub pending: Seq<TaskView>,
    /// The request that waits for its answer.
    pub asked: RequestView,
}

impl View for Walk {
    type V = WalkView;

    closed spec fn view(&self) -> WalkView {
        WalkView {
            settings: self.settings@,
            pending: stack_view(self.pending@),
            asked: self.asked@,
        }
    }
}

/// Where a run stands: it waits for an answer, or it is over.
#[derive(Debug, PartialEq, Eq)]
pub enum Step {
    /// The walk goes on once its request is answered.
    Next(Walk),
    /// The run is over: `Ok(true)` when it came to its end, else the error.
    Done(Result<bool, Error>),
}

/// The mathematical value of a [`Step`].
pub enum StepView {
    Next(WalkView),
    Done(Result<bool, ErrorView>),
}

impl View for Step {
    type V = StepView;

    open spec fn view(&self) -> StepView {
        match self {
            Step::Next(walk) => StepView::Next(walk@),
            Step::Done(Ok(complete)) => StepView::Done(Ok(*complete)),
            Step::Done(Err(error)) => StepView::Done(Err(error@)),
        }
    }
}

/// The notice for the binary at `path`.
pub open spec fn binary_notice(path: Seq<char>) -> Seq<char> {
    "'"@ + path + "' looks like an ELF file"@
}

/// The notice for the script at `path`.
pub open spec fn script_notice(path: Seq<char>) -> Seq<char> {
    "'"@ + path + "' looks like it has a shebang line"@
}

/// What is to be done about a file at `path` that is left alone: nothing,
/// or under `verbose` the printing of `text`.
pub open spec fn left_alone(path: Seq<char>, text: Seq<char>, verbose: bool) -> Option<
    RequestView,
> {
    if verbose {
        Some(RequestView::Notice { path, text })
    } else {
        None
    }
}

/// What is to be done about the regular file at `path` with permission bits
/// `mode`, once the read of its first bytes has given `prefix`.
/// A failed read ends the run. A binary or a script is left alone, with a
/// notice when `verbose`. Any other file gets its execute bits cleared.
pub open spec fn file_verdict(
    path: Seq<char>,
    mode: u32,
    prefix: Result<Seq<u8>, IoFailureView>,
    verbose: bool,
) -> Result<Option<RequestView>, ErrorView> {
    match prefix {
        Err(failure) => Err(ErrorView::Io(failure)),
        Ok(bytes) => match classification(bytes) {
            Classification::Binary => Ok(left_alone(path, binary_notice(path), verbose)),
            Classification::Script => Ok(left_alone(path, script_notice(path), verbose)),
            Classification::Plain => Ok(Some(RequestView::SetMode { path, mode: stripped(mode) })),
        },
    }
}

/// The tasks that the entries of a listing lead to, in their order. An entry
/// that could not be read is passed over under `force`; without it the run
/// fails there, after the entries before it.
pub open spec fn entries_plan(
    entries: Seq<Result<Seq<char>, IoFailureView>>,
    force: bool,
) -> Seq<TaskView>
    decreases entries.len(),
{
    if entries.len() == 0 {
        Seq::empty()
    } else {
        match entries.first() {
            Ok(path) => seq![TaskView::Visit { path, top_level: false }] + entries_plan(
                entries.drop_first(),
                force,
            ),
            Err(failure) => if force {
                entries_plan(entries.drop_first(), force)
            } else {
                seq![TaskView::Fail(ErrorView::Io(failure))]
            },
        }
    }
}

/// The tasks that a directory's listing leads to. A directory that could not
/// be listed at all is passed over under `force`, and ends the run without it.
pub open spec fn dir_plan(
    listing: Result<Seq<Result<Seq<char>, IoFailureView>>, IoFailureView>,
    force: bool,
) -> Seq<TaskView> {
    match listing {
        Ok(entries) => entries_plan(entries, force),
        Err(failure) => if force {
            Seq::empty()
        } else {
            seq![TaskView::Fail(ErrorView::Io(failure))]
        },
    }
}

/// The tasks that the paths named by the user lead to.
pub open spec fn roots(paths: Seq<Seq<char>>) -> Seq<TaskView> {
    paths.map_values(|path: Seq<char>| TaskView::Visit { path, top_level: true })
}

/// Where the run stands once the entry at hand is finished and `pending` is
/// left: the next task is taken, and a run with nothing left has succeeded.
pub open spec fn advance(settings: SettingsView, pending: Seq<TaskView>) -> StepView {
    if pending.len() == 0 {
        StepView::Done(Ok(true))
    } else {
        match pending.first() {
            TaskView::Visit { path, top_level } => StepView::Next(
                WalkView {
                    settings,
                    pending: pending.drop_first(),
                    asked: RequestView::Stat { path, top_level },
                },
            ),
            TaskView::Fail(error) => StepView::Done(Err(error)),
        }
    }
}

/// Where a run with these settings stands at its start.
pub open spec fn started(settings: SettingsView) -> StepView {
    advance(settings, roots(settings.paths))
}

/// Where the walk `walk` stands after `reply` has come in.
///
/// - A path that cannot be inspected: a path named by the user that does not
///   exist always ends the run; any other failure is passed over under
///   `force` and ends the run without it.
/// - A symbolic link always ends the run.
/// - The path is made canonical before anything else is done with it; a
///   failure to do so ends the run.
/// - A regular file has its first bytes read and is dealt with as
///   [`file_verdict`] says.
/// - A directory named by the user ends the run unless `recursive`; any
///   other directory is listed, and its entries come before what was pending.
/// - Any other type of entry ends the run, and so does a reply that does not
///   answer the request.
/// - A failure to set the permission bits ends the run.
pub open spec fn resumed(walk: WalkView, reply: ReplyView) -> StepView {
    let settings = walk.settings;
    let pending = walk.pending;
    match (walk.asked, reply) {
        (RequestView::Stat { path, top_level }, ReplyView::Stat(Err(failure))) => {
            if top_level && failure.not_found {
                StepView::Done(Err(ErrorView::NotFound(path)))
            } else if settings.force {
                advance(settings, pending)
            } else {
                StepView::Done(Err(ErrorView::Io(failure)))
            }
        },
        (RequestView::Stat { path, top_level }, ReplyView::Stat(Ok(metadata))) => {
            if metadata.kind is Symlink {
                StepView::Done(Err(ErrorView::SymlinkDenied(path)))
            } else {
                StepView::Next(
                    WalkView {
                        settings,
                        pending,
                        asked: RequestView::Canonicalize {
                            path,
                            top_level,
                            kind: metadata.kind,
                            mode: metadata.mode,
                        },
                    },
                )
            }
        },
        (RequestView::Canonicalize { .. }, ReplyView::Canonical(Err(failure))) => StepView::Done(
            Err(ErrorView::Io(failure)),
        ),
        (
            RequestView::Canonicalize { top_level, kind, mode, .. },
            ReplyView::Canonical(Ok(path)),
        ) => match kind {
            FileKind::File => StepView::Next(
                WalkView { settings, pending, asked: RequestView::ReadPrefix { path, mode } },
            ),
            FileKind::Directory => if top_level && !settings.recursive {
                StepView::Done(Err(ErrorView::RecursionNotRequested(path)))
            } else {
                StepView::Next(WalkView { settings, pending, asked: RequestView::List { path } })
            },
            _ => StepView::Done(Err(ErrorView::InvariantViolation(path))),
        },
        (RequestView::ReadPrefix { path, mode }, ReplyView::Prefix(prefix)) => match file_verdict(
            path,
            mode,
            prefix,
            settings.verbose,
        ) {
            Err(error) => StepView::Done(Err(error)),
            Ok(Some(asked)) => StepView::Next(WalkView { settings, pending, asked }),
            Ok(None) => advance(settings, pending),
        },
        (RequestView::List { .. }, ReplyView::Listing(listing)) => advance(
            settings,
            dir_plan(listing, settings.force) + pending,
        ),
        (RequestView::SetMode { .. }, ReplyView::ModeSet(Err(failure))) => StepView::Done(
            Err(ErrorView::Io(failure)),
        ),
        (RequestView::SetMode { .. }, ReplyView::ModeSet(Ok(_))) => advance(settings, pending),
        (RequestView::Notice { .. }, ReplyView::Noticed) => advance(settings, pending),
        (asked, _) => StepView::Done(Err(ErrorView::InvariantViolation(asked.path()))),
    }
}

proof fn lemma_stack_push(stack: Seq<Task>, task: Task)
    ensures
        stack_view(stack.push(task)) == seq![task@] + stack_view(stack),
{
    assert(stack_view(stack.push(task)) =~= seq![task@] + stack_view(stack));
}

proof fn lemma_stack_pop(stack: Seq<Task>)
    requires
        stack.len() > 0,
    ensures
        stack_view(stack).len() == stack.len(),
        stack_view(stack).first() == stack.last()@,
        stack_view(stack.drop_last()) == stack_view(stack).drop_first(),
{
    assert(stack_view(stack.drop_last()) =~= stack_view(stack).drop_first());
}

fn copy_failure(failure: &IoFailure) -> (copy: IoFailure)
    ensures
        copy@ == failure@,
{
    IoFailure { not_found: failure.not_found, detail: failure.detail.clone() }
}

/// Decides what is to be done about the regular file `file` with permission
/// bits `mode`, given what the read of its first four bytes gave: nothing, a
/// request to perform next, or the error that ends the run.
pub fn degreen_file(
    file: String,
    mode: u32,
    prefix: Result<[u8; 4], IoFailure>,
    settings: &Settings,
) -> (verdict: Result<Option<Request>, Error>)
    ensures
        verdict_view(verdict) == file_verdict(
            file@,
            mode,
            prefix_view(prefix),
            settings.verbose,
        ),
{
    match prefix {
        Err(failure) => Err(Error::Io(failure)),
        Ok(bytes) => {
            match classify(&bytes) {
                Classification::Binary => {
                    if settings.verbose {
                        let text = quote_path("'", file.as_str(), "' looks like an ELF file");
                        Ok(Some(Request::Notice { path: file, text }))
                    } else {
                        Ok(None)
                    }
                },
                Classification::Script => {
                    if settings.verbose {
                        let text = quote_path(
                            "'",
                            file.as_str(),
                            "' looks like it has a shebang line",
                        );
                        Ok(Some(Request::Notice { path: file, text }))
                    } else {
                        Ok(None)
                    }
                },
                Classification::Plain => Ok(
                    Some(Request::SetMode { path: file, mode: strip_execute(mode) }),
                ),
            }
        },
    }
}

/// The mathematical value of what [`degreen_file`] returns.
pub open spec fn verdict_view(verdict: Result<Option<Request>, Error>) -> Result<
    Option<RequestView>,
    ErrorView,
> {
    match verdict {
        Ok(Some(request)) => Ok(Some(request@)),
        Ok(None) => Ok(None),
        Err(error) => Err(error@),
    }
}

/// Puts what the listing of a directory leads to on the stack `pending`, so
/// that the directory's entries are taken in their order, before what was
/// pending already.
pub fn degreen_dir(
    listing: Result<Vec<Result<String, IoFailure>>, IoFailure>,
    settings: &Settings,
    pending: &mut Vec<Task>,
)
    ensures
        stack_view(final(pending)@) == dir_plan(listing_view(listing), settings.force) + stack_view(
            old(pending)@,
        ),
{
    let ghost below = stack_view(pending@);
    match listing {
        Err(failure) => {
            if !settings.force {
                proof {
                    lemma_stack_push(pending@, Task::Fail(Error::Io(failure)));
                }
                pending.push(Task::Fail(Error::Io(failure)));
            } else {
                assert(Seq::<TaskView>::empty() + below =~= below);
            }
        },
        Ok(entries) => {
            let ghost all = entries_view(entries@);
            let base: usize = pending.len();
            let mut at: usize = entries.len();
            assert(all.skip(at as int) =~= Seq::empty());
            assert(Seq::<TaskView>::empty() + below =~= below);
            while at > 0
                invariant
                    at <= entries.len(),
                    all == entries_view(entries@),
                    base <= pending.len(),
                    pending@.take(base as int) == old(pending)@,
                    below == stack_view(old(pending)@),
                    stack_view(pending@) == entries_plan(all.skip(at as int), settings.force)
                        + below,
                decreases at,
            {
                at = at - 1;
                let ghost rest = all.skip(at as int + 1);
                proof {
                    assert(all.skip(at as int).first() == all[at as int]);
                    assert(all.skip(at as int).drop_first() =~= rest);
                }
                match &entries[at] {
                    Ok(path) => {
                        let task = Task::Visit { path: path.clone(), top_level: false };
                        proof {
                            lemma_stack_push(pending@, task);
                            assert(seq![task@] + (entries_plan(rest, settings.force) + below) =~= (
                            seq![task@] + entries_plan(rest, settings.force)) + below);
                            assert(pending@.push(task).take(base as int) =~= pending@.take(
                                base as int,
                            ));
                        }
                        pending.push(task);
                    },
                    Err(failure) => {
                        if !settings.force {
                            let task = Task::Fail(Error::Io(copy_failure(failure)));
                            pending.truncate(base);
                            proof {
                                assert(pending@ =~= old(pending)@);
                                lemma_stack_push(pending@, task);
                                assert(pending@.push(task).take(base as int) =~= old(pending)@);
                            }
                            pending.push(task);
                        }
                    },
                }
            }
            assert(all.skip(0) =~= all);
        },
    }
}

/// Takes the next task from the stack `pending`.
fn take_next(settings: Settings, pending: Vec<Task>) -> (step: Step)
    ensures
        step@ == advance(settings@, stack_view(pending@)),
{
    let mut pending = pending;
    proof {
        if pending@.len() > 0 {
            lemma_stack_pop(pending@);
        }
    }
    match pending.pop() {
        None => Step::Done(Ok(true)),
        Some(Task::Visit { path, top_level }) => Step::Next(
            Walk { settings, pending, asked: Request::Stat { path, top_level } },
        ),
        Some(Task::Fail(error)) => Step::Done(Err(error)),
    }
}

/// Starts a run over the paths of `settings`, in their order: the walk with
/// its first request, or the end of a run that has nothing to do.
pub fn run(settings: Settings) -> (step: Step)
    ensures
        step@ == started(settings@),
{
    let mut pending: Vec<Task> = Vec::new();
    let mut at: usize = settings.paths.len();
    let ghost all = roots(settings@.paths);
    assert(stack_view(pending@) =~= all.skip(at as int));
    while at > 0
        invariant
            at <= settings.paths.len(),
            all == roots(settings@.paths),
            stack_view(pending@) == all.skip(at as int),
        decreases at,
    {
        at = at - 1;
        let task = Task::Visit { path: settings.paths[at].clone(), top_level: true };
        proof {
            lemma_stack_push(pending@, task);
            assert(seq![task@] + all.skip(at as int + 1) =~= all.skip(at as int));
        }
        pending.push(task);
    }
    assert(all.skip(0) =~= all);
    take_next(settings, pending)
}

impl Walk {
    /// The request that waits for its answer.
    pub fn request(&self) -> (asked: &Request)
        ensures
            asked@ == self@.asked,
    {
        &self.asked
    }

    /// Takes the answer to the walk's request and gives the next step.
    pub fn resume(self, reply: Reply) -> (step: Step)
        ensures
            step@ == resumed(self@, reply@),
    {
        let Walk { settings, pending, asked } = self;
        let mut pending = pending;
        match (asked, reply) {
            (Request::Stat { path, top_level }, Reply::Stat(Err(failure))) => {
                if top_level && failure.not_found {
                    Step::Done(Err(Error::NotFound(path)))
                } else if settings.force {
                    take_next(settings, pending)
                } else {
                    Step::Done(Err(Error::Io(failure)))
                }
            },
            (Request::Stat { path, top_level }, Reply::Stat(Ok(metadata))) => {
                match metadata.kind {
                    FileKind::Symlink => Step::Done(Err(Error::SymlinkDenied(path))),
                    _ => Step::Next(
                        Walk {
                            settings,
                            pending,
                            asked: Request::Canonicalize {
                                path,
                                top_level,
                                kind: metadata.kind,
                                mode: metadata.mode,
                            },
                        },
                    ),
                }
            },
            (Request::Canonicalize { .. }, Reply::Canonical(Err(failure))) => Step::Done(
                Err(Error::Io(failure)),
            ),
            (Request::Canonicalize { top_level, kind, mode, .. }, Reply::Canonical(Ok(path))) => {
                match kind {
                    FileKind::File => Step::Next(
                        Walk { settings, pending, asked: Request::ReadPrefix { path, mode } },
                    ),
                    FileKind::Directory => {
                        if top_level && !settings.recursive {
                            Step::Done(Err(Error::RecursionNotRequested(path)))
                        } else {
                            Step::Next(Walk { settings, pending, asked: Request::List { path } })
                        }
                    },
                    _ => Step::Done(Err(Error::InvariantViolation(path))),
                }
            },
            (Request::ReadPrefix { path, mode }, Reply::Prefix(prefix)) => {
                match degreen_file(path, mode, prefix, &settings) {
                    Err(error) => Step::Done(Err(error)),
                    Ok(Some(asked)) => Step::Next(Walk { settings, pending, asked }),
                    Ok(None) => take_next(settings, pending),
                }
            },
            (Request::List { .. }, Reply::Listing(listing)) => {
                degreen_dir(listing, &settings, &mut pending);
                take_next(settings, pending)
            },
            (Request::SetMode { .. }, Reply::ModeSet(Err(failure))) => Step::Done(
                Err(Error::Io(failure)),
            ),
            (Request::SetMode { .. }, Reply::ModeSet(Ok(_))) => take_next(settings, pending),
            (Request::Notice { .. }, Reply::Noticed) => take_next(settings, pending),
            (asked, _) => Step::Done(Err(Error::InvariantViolation(request_path(asked)))),
        }
    }
}

/// The path that `request` is about.
fn request_path(request: Request) -> (path: String)
    ensures
        path@ == request@.path(),
{
    match request {
        Request::Stat { path, .. } => path,
        Request::Canonicalize { path, .. } => path,
        Request::ReadPrefix { path, .. } => path,
        Request::List { path } => path,
        Request::SetMode { path, .. } => path,
        Request::Notice { path, .. } => path,
    }
}

} // verus!
