use crate::model::{
    ensure_builder, fold_feed, fold_mark_lists, fold_packages, fold_statuses,
    fold_work_lists, initial_pass, pass_outcome, receive_step, set_assignee,
    set_marks, Builders, MessageView, PassView,
};
use crate::record::{is_relevant, RecordView};
use crate::store::{lemma_sorted_listing_unique, names_sorted, records_map};
use crate::status::StatusView;
use crate::types::{FetchError, MarkListView, MarkView, ResponseView, WorkListView};
use vstd::prelude::*;

verus! {

proof fn lemma_ensure_then_marks(m: Builders, k: Seq<char>, n: Seq<char>, ms: Seq<MarkView>)
    ensures
        ensure_builder(set_marks(m, n, ms), k) == set_marks(ensure_builder(m, k), n, ms),
{
    assert(ensure_builder(set_marks(m, n, ms), k) =~= set_marks(ensure_builder(m, k), n, ms));
}

proof fn lemma_ensure_then_assignee(m: Builders, k: Seq<char>, n: Seq<char>, a: Seq<char>)
    ensures
        ensure_builder(set_assignee(m, n, a), k) == set_assignee(ensure_builder(m, k), n, a),
{
    assert(ensure_builder(set_assignee(m, n, a), k) =~= set_assignee(ensure_builder(m, k), n, a));
}

proof fn lemma_statuses_then_marks(m: Builders, s: Seq<StatusView>, n: Seq<char>, ms: Seq<MarkView>)
    ensures
        fold_statuses(set_marks(m, n, ms), s) == set_marks(fold_statuses(m, s), n, ms),
    decreases s.len(),
{
    if s.len() > 0 {
        lemma_statuses_then_marks(m, s.drop_last(), n, ms);
        lemma_ensure_then_marks(fold_statuses(m, s.drop_last()), s.last().pkgname, n, ms);
    }
}

proof fn lemma_statuses_then_assignee(m: Builders, s: Seq<StatusView>, n: Seq<char>, a: Seq<char>)
    ensures
        fold_statuses(set_assignee(m, n, a), s) == set_assignee(fold_statuses(m, s), n, a),
    decreases s.len(),
{
    if s.len() > 0 {
        lemma_statuses_then_assignee(m, s.drop_last(), n, a);
        lemma_ensure_then_assignee(fold_statuses(m, s.drop_last()), s.last().pkgname, n, a);
    }
}

proof fn lemma_statuses_then_mark_lists(m: Builders, s: Seq<StatusView>, ls: Seq<MarkListView>)
    ensures
        fold_statuses(fold_mark_lists(m, ls), s) == fold_mark_lists(fold_statuses(m, s), ls),
    decreases ls.len(),
{
    if ls.len() > 0 {
        let l = ls.last();
        lemma_statuses_then_mark_lists(m, s, ls.drop_last());
        lemma_statuses_then_marks(fold_mark_lists(m, ls.drop_last()), s, l.name, l.marks);
    }
}

proof fn lemma_statuses_then_packages(
    m: Builders,
    s: Seq<StatusView>,
    alias: Seq<char>,
    ps: Seq<Seq<char>>,
)
    ensures
        fold_statuses(fold_packages(m, alias, ps), s) == fold_packages(
            fold_statuses(m, s),
            alias,
            ps,
        ),
    decreases ps.len(),
{
    if ps.len() > 0 {
        lemma_statuses_then_packages(m, s, alias, ps.drop_last());
        lemma_statuses_then_assignee(fold_packages(m, alias, ps.drop_last()), s, ps.last(), alias);
    }
}

proof fn lemma_statuses_then_work_lists(m: Builders, s: Seq<StatusView>, ws: Seq<WorkListView>)
    ensures
        fold_statuses(fold_work_lists(m, ws), s) == fold_work_lists(fold_statuses(m, s), ws),
    decreases ws.len(),
{
    if ws.len() > 0 {
        let w = ws.last();
        lemma_statuses_then_work_lists(m, s, ws.drop_last());
        lemma_statuses_then_packages(fold_work_lists(m, ws.drop_last()), s, w.alias, w.packages);
    }
}

/// Folding status entries and folding an assignment feed commute.
pub proof fn lemma_statuses_commute_with_feed(m: Builders, s: Seq<StatusView>, f: ResponseView)
    ensures
        fold_statuses(fold_feed(m, f), s) == fold_feed(fold_statuses(m, s), f),
{
    lemma_statuses_then_mark_lists(m, s, f.marklist);
    lemma_statuses_then_work_lists(fold_mark_lists(m, f.marklist), s, f.worklist);
}

/// The order in which the two sources report does not change the outcome of a pass,
/// provided that at least one of them succeeded.
pub proof fn lemma_arrival_order_irrelevant(
    p: PassView,
    s: Result<Seq<StatusView>, FetchError>,
    a: Result<ResponseView, FetchError>,
)
    requires
        s is Ok || a is Ok,
    ensures
        pass_outcome(
            receive_step(receive_step(p, MessageView::Status(s)), MessageView::Assignment(a)),
        ) == pass_outcome(
            receive_step(receive_step(p, MessageView::Assignment(a)), MessageView::Status(s)),
        ),
{
    if let (Ok(entries), Ok(feed)) = (s, a) {
        lemma_statuses_commute_with_feed(p.builders, entries, feed);
    }
}

/// Two passes that got the same two successful reports in opposite orders list the same
/// records in the same order, when each listing is in increasing order of name.
pub proof fn lemma_arrival_order_same_listing(
    s: Result<Seq<StatusView>, FetchError>,
    a: Result<ResponseView, FetchError>,
    first: Seq<RecordView>,
    second: Seq<RecordView>,
)
    requires
        s is Ok || a is Ok,
        names_sorted(first),
        names_sorted(second),
        pass_outcome(
            receive_step(
                receive_step(initial_pass(), MessageView::Status(s)),
                MessageView::Assignment(a),
            ),
        ) == Ok::<_, FetchError>(records_map(first)),
        pass_outcome(
            receive_step(
                receive_step(initial_pass(), MessageView::Assignment(a)),
                MessageView::Status(s),
            ),
        ) == Ok::<_, FetchError>(records_map(second)),
    ensures
        first == second,
{
    lemma_arrival_order_irrelevant(initial_pass(), s, a);
    lemma_sorted_listing_unique(first, second);
}

/// A failed source fails the whole pass, whichever source reports first; when the
/// other source succeeded, the pass reports that failure.
pub proof fn lemma_failure_is_fatal(
    s: Result<Seq<StatusView>, FetchError>,
    a: Result<ResponseView, FetchError>,
)
    requires
        s is Err || a is Err,
    ensures
        pass_outcome(
            receive_step(
                receive_step(initial_pass(), MessageView::Status(s)),
                MessageView::Assignment(a),
            ),
        ) is Err,
        pass_outcome(
            receive_step(
                receive_step(initial_pass(), MessageView::Assignment(a)),
                MessageView::Status(s),
            ),
        ) is Err,
        s is Err && a is Ok ==> pass_outcome(
            receive_step(
                receive_step(initial_pass(), MessageView::Assignment(a)),
                MessageView::Status(s),
            ),
        ) == Err::<Builders, _>(s->Err_0),
        a is Err && s is Ok ==> pass_outcome(
            receive_step(
                receive_step(initial_pass(), MessageView::Status(s)),
                MessageView::Assignment(a),
            ),
        ) == Err::<Builders, _>(a->Err_0),
{
}

/// The outcome of a successful pass holds exactly the builders that have an assignee,
/// a process or marks.
pub proof fn lemma_outcome_is_relevant_builders(p: PassView, k: Seq<char>)
    requires
        p.failure is None,
    ensures
        pass_outcome(p) is Ok,
        pass_outcome(p)->Ok_0.contains_key(k) <==> (p.builders.contains_key(k) && is_relevant(
            p.builders[k],
        )),
        pass_outcome(p)->Ok_0.contains_key(k) ==> pass_outcome(p)->Ok_0[k] == p.builders[k],
{
}

proof fn lemma_claimed_package(m: Builders, alias: Seq<char>, ps: Seq<Seq<char>>, p: Seq<char>)
    requires
        ps.contains(p),
    ensures
        fold_packages(m, alias, ps).contains_key(p),
        fold_packages(m, alias, ps)[p].assignee == Some(alias),
    decreases ps.len(),
{
    if ps.last() != p {
        let i = choose|i: int| 0 <= i < ps.len() && ps[i] == p;
        assert(ps.drop_last()[i] == p);
        lemma_claimed_package(m, alias, ps.drop_last(), p);
    }
}

proof fn lemma_unclaimed_package(m: Builders, alias: Seq<char>, ps: Seq<Seq<char>>, p: Seq<char>)
    requires
        !ps.contains(p),
    ensures
        fold_packages(m, alias, ps).contains_key(p) == m.contains_key(p),
        m.contains_key(p) ==> fold_packages(m, alias, ps)[p] == m[p],
    decreases ps.len(),
{
    if ps.len() > 0 {
        assert(!ps.drop_last().contains(p)) by {
            if ps.drop_last().contains(p) {
                let i = choose|i: int| 0 <= i < ps.len() - 1 && ps.drop_last()[i] == p;
                assert(ps[i] == p);
            }
        }
        assert(ps[ps.len() - 1] != p);
        lemma_unclaimed_package(m, alias, ps.drop_last(), p);
    }
}

/// The last work list that claims a package decides its assignee.
pub proof fn lemma_last_claim_wins(m: Builders, ws: Seq<WorkListView>, j: int, p: Seq<char>)
    requires
        0 <= j < ws.len(),
        ws[j].packages.contains(p),
        forall|k: int| j < k < ws.len() ==> !(#[trigger] ws[k].packages.contains(p)),
    ensures
        fold_work_lists(m, ws).contains_key(p),
        fold_work_lists(m, ws)[p].assignee == Some(ws[j].alias),
    decreases ws.len(),
{
    let w = ws.last();
    if j == ws.len() - 1 {
        lemma_claimed_package(fold_work_lists(m, ws.drop_last()), w.alias, w.packages, p);
    } else {
        assert(!ws[ws.len() - 1].packages.contains(p));
        lemma_last_claim_wins(m, ws.drop_last(), j, p);
        lemma_unclaimed_package(fold_work_lists(m, ws.drop_last()), w.alias, w.packages, p);
    }
}

/// When two work lists of a feed claim the same package, the later one decides its
/// assignee, provided no work list after it claims the package again.
pub proof fn lemma_later_claim_wins(m: Builders, f: ResponseView, i: int, j: int, p: Seq<char>)
    requires
        0 <= i < j < f.worklist.len(),
        f.worklist[i].packages.contains(p),
        f.worklist[j].packages.contains(p),
        forall|k: int| j < k < f.worklist.len() ==> !(#[trigger] f.worklist[k].packages.contains(p)),
    ensures
        fold_feed(m, f).contains_key(p),
        fold_feed(m, f)[p].assignee == Some(f.worklist[j].alias),
{
    lemma_last_claim_wins(fold_mark_lists(m, f.marklist), f.worklist, j, p);
}

} // verus!
