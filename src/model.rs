use crate::record::{default_record, is_relevant, RecordView};
use crate::status::StatusView;
use crate::types::{FetchError, MarkListView, MarkView, ResponseView, WorkListView};
use vstd::prelude::*;

verus! {

/// Builders keyed by package name.
pub type Builders = Map<Seq<char>, RecordView>;

/// The builder of `name`, or a fresh one when there is none yet.
pub open spec fn builder_of(m: Builders, name: Seq<char>) -> RecordView {
    if m.contains_key(name) {
        m[name]
    } else {
        default_record(name)
    }
}

/// Makes sure that `name` has a builder, leaving an existing one as it is.
pub open spec fn ensure_builder(m: Builders, name: Seq<char>) -> Builders {
    m.insert(name, builder_of(m, name))
}

/// Replaces the marks of `name`'s builder, creating the builder when needed.
pub open spec fn set_marks(m: Builders, name: Seq<char>, marks: Seq<MarkView>) -> Builders {
    m.insert(name, RecordView { marks, ..builder_of(m, name) })
}

/// Replaces the assignee of `name`'s builder, creating the builder when needed.
pub open spec fn set_assignee(m: Builders, name: Seq<char>, alias: Seq<char>) -> Builders {
    m.insert(name, RecordView { assignee: Some(alias), ..builder_of(m, name) })
}

/// Folds status entries: each only makes sure its package has a builder.
pub open spec fn fold_statuses(m: Builders, entries: Seq<StatusView>) -> Builders
    decreases entries.len(),
{
    if entries.len() == 0 {
        m
    } else {
        ensure_builder(fold_statuses(m, entries.drop_last()), entries.last().pkgname)
    }
}

/// Folds mark lists in order; a later list for the same package replaces an earlier one.
pub open spec fn fold_mark_lists(m: Builders, lists: Seq<MarkListView>) -> Builders
    decreases lists.len(),
{
    if lists.len() == 0 {
        m
    } else {
        let l = lists.last();
        set_marks(fold_mark_lists(m, lists.drop_last()), l.name, l.marks)
    }
}

/// Assigns each of `packages` to `alias`, in order.
pub open spec fn fold_packages(m: Builders, alias: Seq<char>, packages: Seq<Seq<char>>) -> Builders
    decreases packages.len(),
{
    if packages.len() == 0 {
        m
    } else {
        set_assignee(fold_packages(m, alias, packages.drop_last()), packages.last(), alias)
    }
}

/// Folds work lists in order; the last claim on a package wins.
pub open spec fn fold_work_lists(m: Builders, lists: Seq<WorkListView>) -> Builders
    decreases lists.len(),
{
    if lists.len() == 0 {
        m
    } else {
        let w = lists.last();
        fold_packages(fold_work_lists(m, lists.drop_last()), w.alias, w.packages)
    }
}

/// Folds an assignment feed: its mark lists, then its work lists.
pub open spec fn fold_feed(m: Builders, feed: ResponseView) -> Builders {
    fold_work_lists(fold_mark_lists(m, feed.marklist), feed.worklist)
}

/// The builders that become part of the result: those with an assignee, a process or marks.
pub open spec fn relevant_part(m: Builders) -> Builders {
    Map::new(|k: Seq<char>| m.contains_key(k) && is_relevant(m[k]), |k: Seq<char>| m[k])
}

/// The state of one reconciliation pass.
pub struct PassView {
    pub status_done: bool,
    pub assignment_done: bool,
    /// The first failure that a source reported.
    pub failure: Option<FetchError>,
    pub builders: Builders,
}

/// What one source reported.
pub enum MessageView {
    Status(Result<Seq<StatusView>, FetchError>),
    Assignment(Result<ResponseView, FetchError>),
}

/// A pass before any source has reported.
pub open spec fn initial_pass() -> PassView {
    PassView { status_done: false, assignment_done: false, failure: None, builders: Map::empty() }
}

/// Keeps the first failure.
pub open spec fn first_failure(prior: Option<FetchError>, e: FetchError) -> Option<FetchError> {
    match prior {
        Some(p) => Some(p),
        None => Some(e),
    }
}

/// Whether `msg` comes from a source that has not reported yet.
pub open spec fn is_expected(p: PassView, msg: MessageView) -> bool {
    match msg {
        MessageView::Status(_) => !p.status_done,
        MessageView::Assignment(_) => !p.assignment_done,
    }
}

/// The pass after one source reported.
pub open spec fn receive_step(p: PassView, msg: MessageView) -> PassView {
    match msg {
        MessageView::Status(Ok(entries)) => PassView {
            status_done: true,
            builders: fold_statuses(p.builders, entries),
            ..p
        },
        MessageView::Status(Err(e)) => PassView {
            status_done: true,
            failure: first_failure(p.failure, e),
            ..p
        },
        MessageView::Assignment(Ok(feed)) => PassView {
            assignment_done: true,
            builders: fold_feed(p.builders, feed),
            ..p
        },
        MessageView::Assignment(Err(e)) => PassView {
            assignment_done: true,
            failure: first_failure(p.failure, e),
            ..p
        },
    }
}

/// The outcome of a finished pass: the first failure, or the relevant records by name.
pub open spec fn pass_outcome(p: PassView) -> Result<Builders, FetchError> {
    match p.failure {
        Some(e) => Err(e),
        None => Ok(relevant_part(p.builders)),
    }
}

} // verus!
