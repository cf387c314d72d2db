//! Reconciliation: merge a freshly fetched, bounded page of provider
//! repositories with the session's stored enablement marker into the view
//! model to render. Every page entry is kept, in provider order, and marked
//! enabled exactly when its full name equals the marker.

use vstd::prelude::*;

verus! {

/// How many repositories one listing shows, pending real pagination.
pub const PAGE_CAP: usize = 5;

/// The minimal projection of a provider repository: its full name
/// (owner/name), globally unique in the provider's namespace.
pub struct RepoSummary {
    pub full_name: String,
}

impl View for RepoSummary {
    type V = Seq<char>;

    open spec fn view(&self) -> Seq<char> {
        self.full_name@
    }
}

/// One row of the view model: a repository and whether it is the one the
/// session has enabled.
pub struct RepoRow {
    pub full_name: String,
    pub enabled: bool,
}

impl View for RepoRow {
    type V = (Seq<char>, bool);

    open spec fn view(&self) -> (Seq<char>, bool) {
        (self.full_name@, self.enabled)
    }
}

/// The full names of a listing, in order.
pub open spec fn summaries_view(s: Seq<RepoSummary>) -> Seq<Seq<char>> {
    s.map(|i: int, r: RepoSummary| r.full_name@)
}

/// The rows of a view model, in order.
pub open spec fn rows_view(s: Seq<RepoRow>) -> Seq<(Seq<char>, bool)> {
    s.map(|i: int, r: RepoRow| (r.full_name@, r.enabled))
}

/// The model of an optional stored marker.
pub open spec fn marker_view(o: Option<String>) -> Option<Seq<char>> {
    match o {
        Some(s) => Some(s@),
        None => None,
    }
}

/// The page a listing is capped to: its first `PAGE_CAP` names.
pub open spec fn spec_page(s: Seq<Seq<char>>) -> Seq<Seq<char>> {
    if s.len() <= PAGE_CAP {
        s
    } else {
        s.take(PAGE_CAP as int)
    }
}

/// What reconciliation yields: one row per page entry, in page order, marked
/// enabled exactly when the entry's full name equals the stored marker.
pub open spec fn spec_reconcile(page: Seq<Seq<char>>, marker: Option<Seq<char>>) -> Seq<
    (Seq<char>, bool),
> {
    Seq::new(page.len(), |i: int| (page[i], marker == Some(page[i])))
}

/// Reconciliation completeness: the view model has exactly as many rows as
/// the page, each row keeps its entry's name and place, and the mark is
/// computed by full-name equality alone — no entry is dropped, whether or
/// not the marker matches one of them.
pub proof fn lemma_reconcile_complete(page: Seq<Seq<char>>, marker: Option<Seq<char>>)
    ensures
        spec_reconcile(page, marker).len() == page.len(),
        forall|i: int|
            0 <= i < page.len() ==> spec_reconcile(page, marker)[i] == (
                page[i],
                marker == Some(page[i]),
            ),
{
}

/// Cap a fresh listing to one page: the first `PAGE_CAP` repositories, in
/// provider order, nothing reordered.
pub fn page_of(repos: Vec<RepoSummary>) -> (page: Vec<RepoSummary>)
    ensures
        summaries_view(page@) == spec_page(summaries_view(repos@)),
        forall|i: int| 0 <= i < page@.len() ==> page@[i] == repos@[i],
{
    let ghost orig = repos@;
    let mut page = repos;
    page.truncate(PAGE_CAP);
    proof {
        assert(summaries_view(page@) =~= spec_page(summaries_view(orig)));
    }
    page
}

/// Build the view model for a page and a stored marker.
pub fn reconcile(page: &Vec<RepoSummary>, enabled_repo: &Option<String>) -> (out: Vec<RepoRow>)
    ensures
        rows_view(out@) == spec_reconcile(summaries_view(page@), marker_view(*enabled_repo)),
{
    let ghost names = summaries_view(page@);
    let ghost marker = marker_view(*enabled_repo);
    let mut out: Vec<RepoRow> = Vec::new();
    let mut i: usize = 0;
    while i < page.len()
        invariant
            i <= page@.len(),
            names == summaries_view(page@),
            marker == marker_view(*enabled_repo),
            out@.len() == i,
            forall|j: int|
                0 <= j < i ==> rows_view(out@)[j] == (names[j], marker == Some(names[j])),
        decreases page@.len() - i,
    {
        let enabled = match enabled_repo {
            Some(e) => page[i].full_name == *e,
            None => false,
        };
        let row_name = page[i].full_name.clone();
        let ghost prev = out@;
        proof {
            assert(names[i as int] == page@[i as int].full_name@);
            assert(enabled == (marker == Some(names[i as int])));
        }
        out.push(RepoRow { full_name: row_name, enabled });
        proof {
            assert forall|j: int| 0 <= j < i + 1 implies rows_view(out@)[j] == (
                names[j],
                marker == Some(names[j]),
            ) by {
                if j < i {
                    assert(out@[j] == prev[j]);
                    assert(rows_view(prev)[j] == (names[j], marker == Some(names[j])));
                } else {
                    assert(out@[j].full_name@ == names[i as int]);
                    assert(out@[j].enabled == enabled);
                }
            }
        }
        i += 1;
    }
    proof {
        assert(rows_view(out@) =~= spec_reconcile(names, marker));
    }
    out
}

} // verus!
