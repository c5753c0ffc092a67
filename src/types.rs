use vstd::prelude::*;

verus! {

/// Why one fetch of a source yielded no result.
#[derive(Clone, Copy, Debug, PartialEq, Eq, Structural)]
pub enum FetchError {
    /// The request failed: connection, timeout, bad status, or a body that is not UTF-8.
    Transport,
    /// The assignment feed is not valid JSON or does not have the expected shape.
    Decode,
    /// A status-page row has fewer than three text segments.
    MalformedRow,
}

impl FetchError {
    /// A sentence for the operator.
    pub fn describe(&self) -> (r: &'static str)
        ensures
            r@ == match self {
                FetchError::Transport => "the request failed"@,
                FetchError::Decode => "the assignment feed could not be decoded"@,
                FetchError::MalformedRow => "a status page row has fewer than three cells"@,
            },
    {
        match self {
            FetchError::Transport => "the request failed",
            FetchError::Decode => "the assignment feed could not be decoded",
            FetchError::MalformedRow => "a status page row has fewer than three cells",
        }
    }
}

/// A flag that a maintainer placed on a package.
pub struct Mark {
    pub name: String,
    /// Alias of the maintainer who placed the mark.
    pub by: String,
    pub comment: String,
}

pub struct MarkView {
    pub name: Seq<char>,
    pub by: Seq<char>,
    pub comment: Seq<char>,
}

impl View for Mark {
    type V = MarkView;

    open spec fn view(&self) -> MarkView {
        MarkView { name: self.name@, by: self.by@, comment: self.comment@ }
    }
}

/// The views of a sequence of marks.
pub open spec fn marks_view(marks: Seq<Mark>) -> Seq<MarkView> {
    marks.map_values(|m: Mark| m@)
}

/// The views of a sequence of strings.
pub open spec fn strings_view(s: Seq<String>) -> Seq<Seq<char>> {
    s.map_values(|x: String| x@)
}

/// The marks placed on one package.
pub struct MarkList {
    pub name: String,
    pub marks: Vec<Mark>,
}

pub struct MarkListView {
    pub name: Seq<char>,
    pub marks: Seq<MarkView>,
}

impl View for MarkList {
    type V = MarkListView;

    open spec fn view(&self) -> MarkListView {
        MarkListView { name: self.name@, marks: marks_view(self.marks@) }
    }
}

/// The packages that one maintainer has claimed.
pub struct WorkList {
    pub alias: String,
    pub packages: Vec<String>,
}

pub struct WorkListView {
    pub alias: Seq<char>,
    pub packages: Seq<Seq<char>>,
}

impl View for WorkList {
    type V = WorkListView;

    open spec fn view(&self) -> WorkListView {
        WorkListView { alias: self.alias@, packages: strings_view(self.packages@) }
    }
}

/// The assignment feed: who works on what, and which marks stand on which package.
pub struct Response {
    pub worklist: Vec<WorkList>,
    pub marklist: Vec<MarkList>,
}

pub struct ResponseView {
    pub worklist: Seq<WorkListView>,
    pub marklist: Seq<MarkListView>,
}

impl View for Response {
    type V = ResponseView;

    open spec fn view(&self) -> ResponseView {
        ResponseView {
            worklist: self.worklist@.map_values(|w: WorkList| w@),
            marklist: self.marklist@.map_values(|m: MarkList| m@),
        }
    }
}

impl Mark {
    /// A copy of this mark.
    pub fn duplicate(&self) -> (r: Mark)
        ensures
            r@ == self@,
    {
        Mark { name: self.name.clone(), by: self.by.clone(), comment: self.comment.clone() }
    }
}

/// A copy of a sequence of marks.
pub fn copy_marks(marks: &Vec<Mark>) -> (r: Vec<Mark>)
    ensures
        marks_view(r@) == marks_view(marks@),
{
    let mut r: Vec<Mark> = Vec::new();
    let mut i: usize = 0;
    while i < marks.len()
        invariant
            i <= marks@.len(),
            r@.len() == i,
            forall|k: int| 0 <= k < i ==> #[trigger] r@[k]@ == marks@[k]@,
        decreases marks@.len() - i,
    {
        r.push(marks[i].duplicate());
        i += 1;
    }
    assert(marks_view(r@) =~= marks_view(marks@));
    r
}

} // verus!
