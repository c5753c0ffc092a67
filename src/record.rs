use crate::types::{marks_view, Mark, MarkView};
use vstd::prelude::*;

verus! {

/// The reconciled state of one package.
pub struct PkgInfo {
    pub name: String,
    /// Alias of the maintainer who claimed the package.
    pub assignee: Option<String>,
    pub marks: Vec<Mark>,
    pub rotten: bool,
    /// Workflow the package is currently in.
    pub process: Option<String>,
}

pub struct RecordView {
    pub name: Seq<char>,
    pub assignee: Option<Seq<char>>,
    pub marks: Seq<MarkView>,
    pub rotten: bool,
    pub process: Option<Seq<char>>,
}

/// The view of an optional string.
pub open spec fn opt_view(o: Option<String>) -> Option<Seq<char>> {
    match o {
        Some(s) => Some(s@),
        None => None,
    }
}

impl View for PkgInfo {
    type V = RecordView;

    open spec fn view(&self) -> RecordView {
        RecordView {
            name: self.name@,
            assignee: opt_view(self.assignee),
            marks: marks_view(self.marks@),
            rotten: self.rotten,
            process: opt_view(self.process),
        }
    }
}

/// A fresh record: nobody assigned, no marks, no process, not rotten.
pub open spec fn default_record(name: Seq<char>) -> RecordView {
    RecordView { name, assignee: None, marks: Seq::empty(), rotten: false, process: None }
}

/// A record is worth showing when somebody claimed it, it is in a process, or it is marked.
pub open spec fn is_relevant(r: RecordView) -> bool {
    r.assignee is Some || r.process is Some || r.marks.len() > 0
}

impl PkgInfo {
    /// A fresh record for the package `name`.
    pub fn new(name: String) -> (r: PkgInfo)
        ensures
            r@ == default_record(name@),
    {
        let r = PkgInfo { name, assignee: None, marks: Vec::new(), rotten: false, process: None };
        assert(r@.marks =~= Seq::<MarkView>::empty());
        r
    }

    pub fn name(&self) -> (r: &str)
        ensures
            r@ == self.name@,
    {
        self.name.as_str()
    }

    pub fn has_assignee(&self) -> (r: bool)
        ensures
            r == (self.assignee is Some),
    {
        self.assignee.is_some()
    }

    pub fn has_process(&self) -> (r: bool)
        ensures
            r == (self.process is Some),
    {
        self.process.is_some()
    }

    pub fn has_marks(&self) -> (r: bool)
        ensures
            r == (self.marks@.len() > 0),
    {
        !self.marks.is_empty()
    }

    /// The assignee's alias, or the empty string when nobody claimed the package.
    pub fn assignee(&self) -> (r: &str)
        ensures
            r@ == match self.assignee {
                Some(a) => a@,
                None => Seq::<char>::empty(),
            },
    {
        match &self.assignee {
            Some(a) => a.as_str(),
            None => {
                let e = "";
                proof {
                    reveal_strlit("");
                }
                e
            },
        }
    }

    /// The names of the marks, in order.
    pub fn marks(&self) -> (r: Vec<&str>)
        ensures
            r@.len() == self.marks@.len(),
            forall|i: int| 0 <= i < r@.len() ==> #[trigger] r@[i]@ == self.marks@[i].name@,
    {
        let mut r: Vec<&str> = Vec::new();
        let mut i: usize = 0;
        while i < self.marks.len()
            invariant
                i <= self.marks@.len(),
                r@.len() == i,
                forall|k: int| 0 <= k < i ==> #[trigger] r@[k]@ == self.marks@[k].name@,
            decreases self.marks@.len() - i,
        {
            r.push(self.marks[i].name.as_str());
            i += 1;
        }
        r
    }

    pub fn is_rotten(&self) -> (r: bool)
        ensures
            r == self.rotten,
    {
        self.rotten
    }

    /// The current process, or the empty string when there is none.
    pub fn current_process(&self) -> (r: &str)
        ensures
            r@ == match self.process {
                Some(p) => p@,
                None => Seq::<char>::empty(),
            },
    {
        match &self.process {
            Some(p) => p.as_str(),
            None => {
                let e = "";
                proof {
                    reveal_strlit("");
                }
                e
            },
        }
    }
}

} // verus!
