use crate::text::{contains_text, has_infix};
use crate::types::{strings_view, FetchError};
use vstd::prelude::*;

verus! {

/// One row of the build status page.
pub struct PackageStatus {
    pub repo: String,
    pub pkgname: String,
    pub status: String,
}

pub struct StatusView {
    pub repo: Seq<char>,
    pub pkgname: Seq<char>,
    pub status: Seq<char>,
}

impl View for PackageStatus {
    type V = StatusView;

    open spec fn view(&self) -> StatusView {
        StatusView { repo: self.repo@, pkgname: self.pkgname@, status: self.status@ }
    }
}

/// The views of a sequence of status rows.
pub open spec fn statuses_view(s: Seq<PackageStatus>) -> Seq<StatusView> {
    s.map_values(|p: PackageStatus| p@)
}

/// The views of the text segments of a sequence of table rows.
pub open spec fn rows_view(rows: Seq<Vec<String>>) -> Seq<Seq<Seq<char>>> {
    rows.map_values(|r: Vec<String>| strings_view(r@))
}

/// The text segments of every table row of an HTML page, as the HTML parser yields them.
pub uninterp spec fn row_texts_of(html: Seq<char>) -> Seq<Seq<Seq<char>>>;

/// The entry that a row of at least three segments stands for.
pub open spec fn row_entry(row: Seq<Seq<char>>) -> StatusView {
    StatusView { repo: row[0], pkgname: row[1], status: row[2] }
}

/// A status worth tracking: a build failure or a leaf package.
pub open spec fn is_tracked_status(status: Seq<char>) -> bool {
    has_infix(status, "FTBFS"@) || has_infix(status, "Leaf package"@)
}

/// The tracked entries of a page's rows, in order; a row with fewer than three
/// segments makes the whole page malformed.
pub open spec fn status_entries(rows: Seq<Seq<Seq<char>>>) -> Result<Seq<StatusView>, FetchError>
    decreases rows.len(),
{
    if rows.len() == 0 {
        Ok(Seq::empty())
    } else {
        let row = rows.last();
        match status_entries(rows.drop_last()) {
            Err(e) => Err(e),
            Ok(prev) => if row.len() < 3 {
                Err(FetchError::MalformedRow)
            } else if is_tracked_status(row[2]) {
                Ok(prev.push(row_entry(row)))
            } else {
                Ok(prev)
            },
        }
    }
}

/// Once a prefix of the rows is malformed, so is every longer prefix.
proof fn lemma_malformed_prefix(rows: Seq<Seq<Seq<char>>>, n: int)
    requires
        0 <= n <= rows.len(),
        status_entries(rows.subrange(0, n)) is Err,
    ensures
        status_entries(rows) == status_entries(rows.subrange(0, n)),
    decreases rows.len() - n,
{
    if n == rows.len() {
        assert(rows.subrange(0, n) =~= rows);
    } else {
        let next = rows.subrange(0, n + 1);
        assert(next.drop_last() =~= rows.subrange(0, n));
        assert(next.subrange(0, n) =~= rows.subrange(0, n));
        lemma_malformed_prefix(rows, n + 1);
    }
}

/// The entries of the rows whose status is tracked, in order.
pub open spec fn tracked_entries(rows: Seq<Seq<Seq<char>>>) -> Seq<StatusView> {
    rows.filter(|r: Seq<Seq<char>>| is_tracked_status(r[2])).map_values(
        |r: Seq<Seq<char>>| row_entry(r),
    )
}

/// When every row has at least three segments, a page yields exactly the rows whose status
/// reports a build failure or a leaf package, in order; all other rows are left out.
pub proof fn lemma_status_filtering(rows: Seq<Seq<Seq<char>>>)
    requires
        forall|i: int| 0 <= i < rows.len() ==> #[trigger] rows[i].len() >= 3,
    ensures
        status_entries(rows) == Ok::<_, FetchError>(tracked_entries(rows)),
    decreases rows.len(),
{
    reveal(Seq::filter);
    if rows.len() == 0 {
        assert(tracked_entries(rows) =~= Seq::<StatusView>::empty());
    } else {
        let t = rows.drop_last();
        assert forall|i: int| 0 <= i < t.len() implies #[trigger] t[i].len() >= 3 by {
            assert(t[i] == rows[i]);
        }
        lemma_status_filtering(t);
        assert(rows[rows.len() - 1].len() >= 3);
        let keep = |r: Seq<Seq<char>>| is_tracked_status(r[2]);
        let entry = |r: Seq<Seq<char>>| row_entry(r);
        if keep(rows.last()) {
            assert(rows.filter(keep) == t.filter(keep).push(rows.last()));
            assert(t.filter(keep).push(rows.last()).map_values(entry) =~= t.filter(keep).map_values(
                entry,
            ).push(row_entry(rows.last())));
            assert(tracked_entries(rows) == tracked_entries(t).push(row_entry(rows.last())));
        } else {
            assert(rows.filter(keep) == t.filter(keep));
            assert(tracked_entries(rows) == tracked_entries(t));
        }
    }
}

/// A page is malformed exactly when one of its rows has fewer than three segments.
pub proof fn lemma_malformed_iff_short_row(rows: Seq<Seq<Seq<char>>>)
    ensures
        status_entries(rows) is Err <==> exists|i: int| 0 <= i < rows.len() && #[trigger] rows[i].len() < 3,
        status_entries(rows) is Err ==> status_entries(rows) == Err::<Seq<StatusView>, _>(
            FetchError::MalformedRow,
        ),
    decreases rows.len(),
{
    if rows.len() > 0 {
        let t = rows.drop_last();
        lemma_malformed_iff_short_row(t);
        if exists|i: int| 0 <= i < t.len() && #[trigger] t[i].len() < 3 {
            let i = choose|i: int| 0 <= i < t.len() && #[trigger] t[i].len() < 3;
            assert(rows[i].len() < 3);
        }
        if exists|i: int| 0 <= i < rows.len() && #[trigger] rows[i].len() < 3 {
            let i = choose|i: int| 0 <= i < rows.len() && #[trigger] rows[i].len() < 3;
            if i < rows.len() - 1 {
                assert(t[i].len() < 3);
            }
        }
    }
}

/// Relies on scraper: `Html::parse_fragment` parses the page, `Selector::parse("tr")` with
/// `Html::select` picks its table rows in the order of the parsed tree, and `ElementRef::text` yields the
/// text nodes of each row in order. The result is a function of the page text. The fixed
/// selector `tr` is valid CSS, so `Selector::parse` does not fail on it.
#[verifier::external_body]
fn table_row_texts(html: &str) -> (r: Vec<Vec<String>>)
    ensures
        rows_view(r@) == row_texts_of(html@),
{
    let fragment = scraper::Html::parse_fragment(html);
    let selector = scraper::Selector::parse("tr").unwrap();
    fragment.select(&selector).map(|row| row.text().map(|t| t.to_string()).collect()).collect()
}

impl PackageStatus {
    /// The entry of a row from its first three text segments: repository, package, status.
    pub fn from(html_elems: &[&str]) -> (r: PackageStatus)
        requires
            html_elems@.len() >= 3,
        ensures
            r@ == (StatusView {
                repo: html_elems@[0]@,
                pkgname: html_elems@[1]@,
                status: html_elems@[2]@,
            }),
    {
        PackageStatus {
            repo: html_elems[0].to_owned(),
            pkgname: html_elems[1].to_owned(),
            status: html_elems[2].to_owned(),
        }
    }

    /// Keeps the rows whose status reports a build failure or a leaf package, in order.
    /// Fails with `MalformedRow` when any row has fewer than three text segments.
    pub fn parse_rows(rows: &Vec<Vec<String>>) -> (r: Result<Vec<PackageStatus>, FetchError>)
        ensures
            match r {
                Ok(v) => status_entries(rows_view(rows@)) == Ok::<_, FetchError>(
                    statuses_view(v@),
                ),
                Err(e) => status_entries(rows_view(rows@)) == Err::<Seq<StatusView>, _>(e),
            },
    {
        let ghost rv = rows_view(rows@);
        let mut out: Vec<PackageStatus> = Vec::new();
        let mut i: usize = 0;
        assert(rv.subrange(0, 0) =~= Seq::<Seq<Seq<char>>>::empty());
        assert(statuses_view(out@) =~= Seq::<StatusView>::empty());
        while i < rows.len()
            invariant
                rv == rows_view(rows@),
                i <= rows@.len(),
                status_entries(rv.subrange(0, i as int)) == Ok::<_, FetchError>(
                    statuses_view(out@),
                ),
            decreases rows@.len() - i,
        {
            let row = &rows[i];
            let ghost pre = rv.subrange(0, i as int);
            assert(rv.subrange(0, i + 1).drop_last() =~= pre);
            assert(rv[i as int] == strings_view(row@));
            if row.len() < 3 {
                proof {
                    lemma_malformed_prefix(rv, i + 1);
                }
                return Err(FetchError::MalformedRow);
            }
            let status = row[2].as_str();
            if contains_text(status, "FTBFS") || contains_text(status, "Leaf package") {
                let mut parts: Vec<&str> = Vec::new();
                parts.push(row[0].as_str());
                parts.push(row[1].as_str());
                parts.push(status);
                let entry = PackageStatus::from(parts.as_slice());
                let ghost before = out@;
                out.push(entry);
                assert(statuses_view(out@) =~= statuses_view(before).push(entry@));
            }
            i += 1;
        }
        assert(rv.subrange(0, i as int) =~= rv);
        Ok(out)
    }

    /// The tracked entries of a status page, in the order of its table rows.
    pub fn parse_page(html: &str) -> (r: Result<Vec<PackageStatus>, FetchError>)
        ensures
            match r {
                Ok(v) => status_entries(row_texts_of(html@)) == Ok::<_, FetchError>(
                    statuses_view(v@),
                ),
                Err(e) => status_entries(row_texts_of(html@)) == Err::<Seq<StatusView>, _>(e),
            },
    {
        let rows = table_row_texts(html);
        PackageStatus::parse_rows(&rows)
    }
}

} // verus!
