use crate::model::{
    ensure_builder, fold_feed, fold_mark_lists, fold_packages, fold_statuses,
    fold_work_lists, initial_pass, is_expected, pass_outcome, receive_step, relevant_part,
    set_assignee, set_marks, MessageView, PassView,
};
use crate::record::{PkgInfo, RecordView};
use crate::status::{statuses_view, PackageStatus};
use crate::store::{
    find_record, lemma_records_map_at, lemma_records_map_keys, lemma_records_map_update,
    names_sorted, names_unique, records_map, records_view, sort_by_name,
};
use crate::types::{copy_marks, marks_view, strings_view, FetchError, Mark, Response};
use vstd::prelude::*;

verus! {

/// Gives `name` a fresh record unless it has one.
fn ensure_record(records: &mut Vec<PkgInfo>, name: &String)
    requires
        names_unique(records_view(old(records)@)),
    ensures
        names_unique(records_view(final(records)@)),
        records_map(records_view(final(records)@)) == ensure_builder(
            records_map(records_view(old(records)@)),
            name@,
        ),
{
    let ghost s = records_view(records@);
    match find_record(records, name) {
        Some(i) => {
            proof {
                lemma_records_map_at(s, i as int);
                assert(records_map(s) =~= ensure_builder(records_map(s), name@));
            }
        },
        None => {
            let rec = PkgInfo::new(name.clone());
            let ghost rv = rec@;
            records.push(rec);
            proof {
                assert(records_view(records@) =~= s.push(rv));
                assert(s.push(rv).drop_last() =~= s);
                lemma_records_map_keys(s, name@);
            }
        },
    }
}

/// Replaces the marks of `name`'s record, creating the record when needed.
fn set_record_marks(records: &mut Vec<PkgInfo>, name: &String, marks: &Vec<Mark>)
    requires
        names_unique(records_view(old(records)@)),
    ensures
        names_unique(records_view(final(records)@)),
        records_map(records_view(final(records)@)) == set_marks(
            records_map(records_view(old(records)@)),
            name@,
            marks_view(marks@),
        ),
{
    let ghost s = records_view(records@);
    match find_record(records, name) {
        Some(i) => {
            records[i].marks = copy_marks(marks);
            proof {
                lemma_records_map_at(s, i as int);
                assert(records_view(records@) =~= s.update(i as int, records@[i as int]@));
                lemma_records_map_update(s, i as int, records@[i as int]@);
            }
        },
        None => {
            let mut rec = PkgInfo::new(name.clone());
            rec.marks = copy_marks(marks);
            let ghost rv = rec@;
            records.push(rec);
            proof {
                assert(records_view(records@) =~= s.push(rv));
                assert(s.push(rv).drop_last() =~= s);
                lemma_records_map_keys(s, name@);
            }
        },
    }
}

/// Sets the assignee of `name`'s record, creating the record when needed.
fn set_record_assignee(records: &mut Vec<PkgInfo>, name: &String, alias: &String)
    requires
        names_unique(records_view(old(records)@)),
    ensures
        names_unique(records_view(final(records)@)),
        records_map(records_view(final(records)@)) == set_assignee(
            records_map(records_view(old(records)@)),
            name@,
            alias@,
        ),
{
    let ghost s = records_view(records@);
    match find_record(records, name) {
        Some(i) => {
            records[i].assignee = Some(alias.clone());
            proof {
                lemma_records_map_at(s, i as int);
                assert(records_view(records@) =~= s.update(i as int, records@[i as int]@));
                lemma_records_map_update(s, i as int, records@[i as int]@);
            }
        },
        None => {
            let mut rec = PkgInfo::new(name.clone());
            rec.assignee = Some(alias.clone());
            let ghost rv = rec@;
            records.push(rec);
            proof {
                assert(records_view(records@) =~= s.push(rv));
                assert(s.push(rv).drop_last() =~= s);
                lemma_records_map_keys(s, name@);
            }
        },
    }
}

/// Folds status entries: each makes sure that its package has a record.
fn fold_status_entries(records: &mut Vec<PkgInfo>, entries: &Vec<PackageStatus>)
    requires
        names_unique(records_view(old(records)@)),
    ensures
        names_unique(records_view(final(records)@)),
        records_map(records_view(final(records)@)) == fold_statuses(
            records_map(records_view(old(records)@)),
            statuses_view(entries@),
        ),
{
    let ghost m0 = records_map(records_view(records@));
    let ghost ev = statuses_view(entries@);
    let mut i: usize = 0;
    assert(ev.subrange(0, 0) =~= Seq::<crate::status::StatusView>::empty());
    while i < entries.len()
        invariant
            ev == statuses_view(entries@),
            i <= entries@.len(),
            names_unique(records_view(records@)),
            records_map(records_view(records@)) == fold_statuses(m0, ev.subrange(0, i as int)),
        decreases entries@.len() - i,
    {
        ensure_record(records, &entries[i].pkgname);
        assert(ev.subrange(0, i + 1).drop_last() =~= ev.subrange(0, i as int));
        i += 1;
    }
    assert(ev.subrange(0, i as int) =~= ev);
}

/// Folds an assignment feed: its mark lists, then its work lists, each in order.
fn fold_assignments(records: &mut Vec<PkgInfo>, feed: &Response)
    requires
        names_unique(records_view(old(records)@)),
    ensures
        names_unique(records_view(final(records)@)),
        records_map(records_view(final(records)@)) == fold_feed(
            records_map(records_view(old(records)@)),
            feed@,
        ),
{
    let ghost m0 = records_map(records_view(records@));
    let ghost fv = feed@;
    let mut i: usize = 0;
    assert(fv.marklist.subrange(0, 0) =~= Seq::<crate::types::MarkListView>::empty());
    while i < feed.marklist.len()
        invariant
            fv == feed@,
            i <= feed.marklist@.len(),
            names_unique(records_view(records@)),
            records_map(records_view(records@)) == fold_mark_lists(
                m0,
                fv.marklist.subrange(0, i as int),
            ),
        decreases feed.marklist@.len() - i,
    {
        let list = &feed.marklist[i];
        set_record_marks(records, &list.name, &list.marks);
        assert(fv.marklist.subrange(0, i + 1).drop_last() =~= fv.marklist.subrange(0, i as int));
        i += 1;
    }
    assert(fv.marklist.subrange(0, i as int) =~= fv.marklist);
    let ghost m1 = records_map(records_view(records@));
    let mut j: usize = 0;
    assert(fv.worklist.subrange(0, 0) =~= Seq::<crate::types::WorkListView>::empty());
    while j < feed.worklist.len()
        invariant
            fv == feed@,
            j <= feed.worklist@.len(),
            names_unique(records_view(records@)),
            records_map(records_view(records@)) == fold_work_lists(
                m1,
                fv.worklist.subrange(0, j as int),
            ),
        decreases feed.worklist@.len() - j,
    {
        let work = &feed.worklist[j];
        let ghost before = records_map(records_view(records@));
        let ghost pv = strings_view(work.packages@);
        let mut k: usize = 0;
        assert(pv.subrange(0, 0) =~= Seq::<Seq<char>>::empty());
        while k < work.packages.len()
            invariant
                pv == strings_view(work.packages@),
                k <= work.packages@.len(),
                names_unique(records_view(records@)),
                records_map(records_view(records@)) == fold_packages(
                    before,
                    work.alias@,
                    pv.subrange(0, k as int),
                ),
            decreases work.packages@.len() - k,
        {
            set_record_assignee(records, &work.packages[k], &work.alias);
            assert(pv.subrange(0, k + 1).drop_last() =~= pv.subrange(0, k as int));
            k += 1;
        }
        assert(pv.subrange(0, k as int) =~= pv);
        assert(fv.worklist.subrange(0, j + 1).drop_last() =~= fv.worklist.subrange(0, j as int));
        j += 1;
    }
    assert(fv.worklist.subrange(0, j as int) =~= fv.worklist);
}

/// Keeps the relevant records, in order.
fn relevant_records(records: Vec<PkgInfo>) -> (r: Vec<PkgInfo>)
    requires
        names_unique(records_view(records@)),
    ensures
        names_unique(records_view(r@)),
        records_map(records_view(r@)) == relevant_part(records_map(records_view(records@))),
{
    let ghost s = records_view(records@);
    let mut out: Vec<PkgInfo> = Vec::new();
    let mut pending = records;
    let mut rest: Vec<PkgInfo> = Vec::new();
    while pending.len() > 0
        invariant
            pending@.len() + rest@.len() == s.len(),
            forall|k: int| 0 <= k < pending@.len() ==> #[trigger] pending@[k]@ == s[k],
            forall|k: int|
                0 <= k < rest@.len() ==> #[trigger] rest@[k]@ == s[s.len() - 1 - k],
        decreases pending@.len(),
    {
        let rec = pending.pop().unwrap();
        rest.push(rec);
    }
    assert(s.subrange(0, 0) =~= Seq::<RecordView>::empty());
    assert(records_map(records_view(out@)) =~= relevant_part(records_map(s.subrange(0, 0))));
    while rest.len() > 0
        invariant
            rest@.len() <= s.len(),
            forall|k: int|
                0 <= k < rest@.len() ==> #[trigger] rest@[k]@ == s[s.len() - 1 - k],
            names_unique(s),
            names_unique(records_view(out@)),
            records_map(records_view(out@)) == relevant_part(
                records_map(s.subrange(0, s.len() - rest@.len())),
            ),
            forall|k: int|
                0 <= k < out@.len() ==> records_map(s.subrange(0, s.len() - rest@.len())).contains_key(
                    #[trigger] out@[k]@.name,
                ),
        decreases rest@.len(),
    {
        let ghost i = s.len() - rest@.len();
        let ghost pre = s.subrange(0, i);
        let rec = rest.pop().unwrap();
        assert(rec@ == s[i]);
        assert(s.subrange(0, i + 1).drop_last() =~= pre);
        proof {
            lemma_records_map_keys(pre, rec@.name);
            if records_map(pre).contains_key(rec@.name) {
                let j = choose|j: int| 0 <= j < pre.len() && pre[j].name == rec@.name;
                assert(s[j].name == s[i].name);
            }
            assert forall|k: int| 0 <= k < out@.len() implies records_map(
                s.subrange(0, i + 1),
            ).contains_key(#[trigger] out@[k]@.name) by {}
        }
        if rec.has_assignee() || rec.has_process() || rec.has_marks() {
            let ghost before = out@;
            out.push(rec);
            proof {
                assert(records_view(out@) =~= records_view(before).push(s[i]));
                assert(records_view(before).push(s[i]).drop_last() =~= records_view(before));
                assert(records_map(records_view(out@)) =~= relevant_part(
                    records_map(s.subrange(0, i + 1)),
                ));
            }
        } else {
            proof {
                assert(records_map(records_view(out@)) =~= relevant_part(
                    records_map(s.subrange(0, i + 1)),
                ));
            }
        }
    }
    assert(s.subrange(0, s.len() as int) =~= s);
    out
}

/// What one source reported.
pub enum Message {
    Status(Result<Vec<PackageStatus>, FetchError>),
    Assignment(Result<Response, FetchError>),
}

impl View for Message {
    type V = MessageView;

    open spec fn view(&self) -> MessageView {
        match self {
            Message::Status(Ok(v)) => MessageView::Status(Ok(statuses_view(v@))),
            Message::Status(Err(e)) => MessageView::Status(Err(*e)),
            Message::Assignment(Ok(f)) => MessageView::Assignment(Ok(f@)),
            Message::Assignment(Err(e)) => MessageView::Assignment(Err(*e)),
        }
    }
}

/// One reconciliation pass: takes one report from each source, in either order, and
/// folds them into one record per package.
pub struct Reconciler {
    status_done: bool,
    assignment_done: bool,
    failure: Option<FetchError>,
    records: Vec<PkgInfo>,
}

impl View for Reconciler {
    type V = PassView;

    closed spec fn view(&self) -> PassView {
        PassView {
            status_done: self.status_done,
            assignment_done: self.assignment_done,
            failure: self.failure,
            builders: records_map(records_view(self.records@)),
        }
    }
}

impl Reconciler {
    #[verifier::type_invariant]
    spec fn inv(&self) -> bool {
        names_unique(records_view(self.records@))
    }

    /// A pass that no source has reported to yet.
    pub fn new() -> (r: Reconciler)
        ensures
            r@ == initial_pass(),
    {
        let r = Reconciler {
            status_done: false,
            assignment_done: false,
            failure: None,
            records: Vec::new(),
        };
        assert(r@.builders =~= initial_pass().builders);
        r
    }

    /// Whether both sources have reported.
    pub fn is_done(&self) -> (r: bool)
        ensures
            r == (self@.status_done && self@.assignment_done),
    {
        self.status_done && self.assignment_done
    }

    /// Whether `msg`'s source has yet to report.
    pub fn expects(&self, msg: &Message) -> (r: bool)
        ensures
            r == is_expected(self@, msg@),
    {
        match msg {
            Message::Status(_) => !self.status_done,
            Message::Assignment(_) => !self.assignment_done,
        }
    }

    /// Takes one source's report. A failure is kept if it is the first; a success is
    /// folded into the records.
    pub fn receive(&mut self, msg: Message)
        requires
            is_expected(old(self)@, msg@),
        ensures
            final(self)@ == receive_step(old(self)@, msg@),
    {
        proof {
            use_type_invariant(&*self);
        }
        match msg {
            Message::Status(Ok(entries)) => {
                self.status_done = true;
                let mut records: Vec<PkgInfo> = Vec::new();
                std::mem::swap(&mut records, &mut self.records);
                fold_status_entries(&mut records, &entries);
                self.records = records;
            },
            Message::Status(Err(e)) => {
                self.status_done = true;
                if self.failure.is_none() {
                    self.failure = Some(e);
                }
            },
            Message::Assignment(Ok(feed)) => {
                self.assignment_done = true;
                let mut records: Vec<PkgInfo> = Vec::new();
                std::mem::swap(&mut records, &mut self.records);
                fold_assignments(&mut records, &feed);
                self.records = records;
            },
            Message::Assignment(Err(e)) => {
                self.assignment_done = true;
                if self.failure.is_none() {
                    self.failure = Some(e);
                }
            },
        }
    }

    /// Ends the pass once both sources have reported: the first failure, or else the
    /// records that have an assignee, a process or marks, one per package, in increasing
    /// order of name.
    pub fn finish(self) -> (r: Result<Vec<PkgInfo>, FetchError>)
        requires
            self@.status_done,
            self@.assignment_done,
        ensures
            match r {
                Ok(v) => names_sorted(records_view(v@)) && pass_outcome(self@) == Ok::<_, FetchError>(
                    records_map(records_view(v@)),
                ),
                Err(e) => pass_outcome(self@) == Err::<crate::model::Builders, _>(e),
            },
    {
        proof {
            use_type_invariant(&self);
        }
        match self.failure {
            Some(e) => Err(e),
            None => Ok(sort_by_name(relevant_records(self.records))),
        }
    }
}

/// One report from each of the two sources.
pub open spec fn from_both_sources(first: MessageView, second: MessageView) -> bool {
    match (first, second) {
        (MessageView::Status(_), MessageView::Assignment(_)) => true,
        (MessageView::Assignment(_), MessageView::Status(_)) => true,
        _ => false,
    }
}

/// Runs one pass over the two sources' reports, in the order in which they arrived.
pub fn reconcile(first: Message, second: Message) -> (r: Result<Vec<PkgInfo>, FetchError>)
    requires
        from_both_sources(first@, second@),
    ensures
        match r {
            Ok(v) => names_sorted(records_view(v@)) && pass_outcome(
                receive_step(receive_step(initial_pass(), first@), second@),
            ) == Ok::<_, FetchError>(records_map(records_view(v@))),
            Err(e) => pass_outcome(receive_step(receive_step(initial_pass(), first@), second@))
                == Err::<crate::model::Builders, _>(e),
        },
{
    let mut pass = Reconciler::new();
    pass.receive(first);
    pass.receive(second);
    pass.finish()
}

} // verus!
