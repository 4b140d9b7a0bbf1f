//! The table of a run: one row for each function found, the rows of the
//! functions that changed most often first.

use vstd::prelude::*;
use vstd::seq_lib::to_multiset_build;
use vstd::seq_lib::to_multiset_insert;
use crate::insight::Error;
use crate::parser::Element;
use crate::parser::ElementView;

verus! {

/// A row of the table: a function, and in how many commits it changed.
#[derive(Debug, PartialEq, Eq)]
pub struct ReportRow {
    /// Path of the file that holds the function.
    pub file: String,
    /// Line on which the function stands.
    pub line: u64,
    /// Name of the function.
    pub name: String,
    /// Number of commits in which the function changed.
    pub freq: usize,
}

/// The mathematical value of a [`ReportRow`].
pub struct RowView {
    pub file: Seq<char>,
    pub line: u64,
    pub name: Seq<char>,
    pub freq: usize,
}

impl View for ReportRow {
    type V = RowView;

    open spec fn view(&self) -> RowView {
        RowView { file: self.file@, line: self.line, name: self.name@, freq: self.freq }
    }
}

impl DeepView for ReportRow {
    type V = RowView;

    open spec fn deep_view(&self) -> RowView {
        self@
    }
}

/// The row of the function `e` with the history of `commits` commits.
pub open spec fn row_of(e: ElementView, commits: nat) -> RowView {
    RowView { file: e.file, line: e.line, name: e.name, freq: commits as usize }
}

/// Where a row with the frequency `freq` goes into the ordered rows `sorted`:
/// behind the last row that changed as often or more often.
pub open spec fn place(sorted: Seq<RowView>, freq: usize) -> int
    decreases sorted.len(),
{
    if sorted.len() == 0 {
        0
    } else if sorted.last().freq < freq {
        place(sorted.drop_last(), freq)
    } else {
        sorted.len() as int
    }
}

/// The rows in the order of the table: each row of `rows` in turn goes to its
/// place among those before it.
pub open spec fn ranked(rows: Seq<RowView>) -> Seq<RowView>
    decreases rows.len(),
{
    if rows.len() == 0 {
        Seq::empty()
    } else {
        let before = ranked(rows.drop_last());
        before.insert(place(before, rows.last().freq), rows.last())
    }
}

/// No row stands before one that changed more often.
pub open spec fn falling(rows: Seq<RowView>) -> bool {
    forall|i: int, j: int| 0 <= i < j < rows.len() ==> rows[i].freq >= rows[j].freq
}

/// The test that a row passes when it changed in `freq` commits.
pub open spec fn changed(freq: usize) -> spec_fn(RowView) -> bool {
    |row: RowView| row.freq == freq
}

/// The part of the table that is shown: behind the first `skip` rows, at most
/// `total` rows.
pub open spec fn window(rows: Seq<RowView>, skip: nat, total: nat) -> Seq<RowView> {
    let from = if skip <= rows.len() {
        skip as int
    } else {
        rows.len() as int
    };
    let to = if from + total <= rows.len() {
        from + total
    } else {
        rows.len() as int
    };
    rows.subrange(from, to)
}

/// The place of a row is inside the ordered rows; the rows from it on
/// changed less often, and the row before it as often or more often.
pub proof fn lemma_place(sorted: Seq<RowView>, freq: usize)
    ensures
        0 <= place(sorted, freq) <= sorted.len(),
        forall|k: int| place(sorted, freq) <= k < sorted.len() ==> sorted[k].freq < freq,
        place(sorted, freq) > 0 ==> sorted[place(sorted, freq) - 1].freq >= freq,
    decreases sorted.len(),
{
    if sorted.len() > 0 && sorted.last().freq < freq {
        let front = sorted.drop_last();
        lemma_place(front, freq);
        assert forall|k: int| place(sorted, freq) <= k < sorted.len() implies sorted[k].freq
            < freq by {
            if k < front.len() {
                assert(sorted[k] == front[k]);
            }
        }
    }
}

/// The table is ordered: no row stands before one that changed more often.
pub proof fn lemma_ranked_falls(rows: Seq<RowView>)
    ensures
        falling(ranked(rows)),
        ranked(rows).len() == rows.len(),
    decreases rows.len(),
{
    if rows.len() > 0 {
        let before = ranked(rows.drop_last());
        let row = rows.last();
        let at = place(before, row.freq);
        lemma_ranked_falls(rows.drop_last());
        lemma_place(before, row.freq);
        let after = before.insert(at, row);
        assert forall|i: int, j: int| 0 <= i < j < after.len() implies after[i].freq
            >= after[j].freq by {
            // Behind the new row stand rows that changed less often, before
            // it rows that changed as often or more often.
            if i < at && at <= j {
                assert(before[i].freq >= before[at - 1].freq);
            }
        }
    }
}

/// The table holds the rows that it was made of, each as often as it was
/// given.
pub proof fn lemma_ranked_permutes(rows: Seq<RowView>)
    ensures
        ranked(rows).to_multiset() == rows.to_multiset(),
    decreases rows.len(),
{
    if rows.len() > 0 {
        let before = ranked(rows.drop_last());
        let row = rows.last();
        lemma_ranked_permutes(rows.drop_last());
        lemma_place(before, row.freq);
        to_multiset_insert(before, place(before, row.freq), row);
        to_multiset_build(rows.drop_last(), row);
        assert(rows.drop_last().push(row) =~= rows);
    } else {
        assert(ranked(rows) =~= rows);
    }
}

/// Rows that changed equally often stand in the table in the order in which
/// they were given.
pub proof fn lemma_ranked_is_stable(rows: Seq<RowView>, freq: usize)
    ensures
        ranked(rows).filter(changed(freq)) == rows.filter(changed(freq)),
    decreases rows.len(),
{
    reveal(Seq::filter);
    if rows.len() > 0 {
        let before = ranked(rows.drop_last());
        let row = rows.last();
        let at = place(before, row.freq);
        let test = changed(freq);
        lemma_ranked_is_stable(rows.drop_last(), freq);
        lemma_place(before, row.freq);
        let head = before.take(at);
        let tail = before.skip(at);
        assert(before =~= head + tail);
        Seq::filter_distributes_over_add(head, tail, test);
        Seq::filter_distributes_over_add(head.push(row), tail, test);
        assert(head.push(row).drop_last() =~= head);
        if row.freq == freq {
            assert forall|k: int| 0 <= k < tail.len() implies !test(#[trigger] tail[k]) by {
                assert(tail[k] == before[at + k]);
            }
            lemma_filter_none(tail, test);
        }
    }
}

/// The part that is shown holds at most `total` rows: the rows of the table
/// from the place `skip` on, in their order.
pub proof fn lemma_window(rows: Seq<RowView>, skip: nat, total: nat)
    ensures
        window(rows, skip, total).len() <= total,
        skip + window(rows, skip, total).len() <= rows.len() || window(rows, skip, total).len()
            == 0,
        forall|k: int|
            0 <= k < window(rows, skip, total).len() ==> window(rows, skip, total)[k] == rows[skip
                + k],
        skip + total <= rows.len() ==> window(rows, skip, total).len() == total,
{
}

/// Where no row passes a test, the test leaves none.
proof fn lemma_filter_none(rows: Seq<RowView>, test: spec_fn(RowView) -> bool)
    requires
        forall|k: int| 0 <= k < rows.len() ==> !test(#[trigger] rows[k]),
    ensures
        rows.filter(test) == Seq::<RowView>::empty(),
    decreases rows.len(),
{
    reveal(Seq::filter);
    if rows.len() > 0 {
        lemma_filter_none(rows.drop_last(), test);
    }
}

/// The row of the function `e`, which changed in the commits of `history`.
pub fn report_row(e: &Element, history: &Vec<String>) -> (row: ReportRow)
    ensures
        row@ == row_of(e@, history@.len()),
{
    ReportRow { file: e.file.clone(), line: e.line, name: e.name.clone(), freq: history.len() }
}

/// The row of the function `e` where its history could be had: a function
/// whose history failed has no row, and the run goes on without it.
pub fn history_row(e: &Element, history: &Result<Vec<String>, Error>) -> (row: Option<ReportRow>)
    ensures
        row.deep_view() == match history {
            Ok(commits) => Some(row_of(e@, commits@.len())),
            Err(_) => None,
        },
{
    match history {
        Ok(commits) => Some(report_row(e, commits)),
        Err(_) => None,
    }
}

/// The number of commits in the history of the `i`-th function, where the
/// history could be had: `histories` holds the outcomes in the order of the
/// functions, and a function without an entry counts as one whose history
/// failed.
pub open spec fn commits_at(histories: Seq<Result<Vec<String>, Error>>, i: int) -> Option<nat> {
    if 0 <= i < histories.len() {
        match histories[i] {
            Ok(commits) => Some(commits@.len()),
            Err(_) => None,
        }
    } else {
        None
    }
}

/// The rows of the functions `elements` with the histories `histories`, in
/// the order of the functions; a function whose history failed has none.
pub open spec fn rows_of(
    elements: Seq<ElementView>,
    histories: Seq<Result<Vec<String>, Error>>,
) -> Seq<RowView>
    decreases elements.len(),
{
    if elements.len() == 0 {
        Seq::empty()
    } else {
        let before = rows_of(elements.drop_last(), histories);
        match commits_at(histories, elements.len() - 1) {
            Some(commits) => before.push(row_of(elements.last(), commits)),
            None => before,
        }
    }
}

/// The rows of the functions `elements`, each with its history: `histories`
/// holds the outcomes of the histories in the order of the functions. A
/// function whose history failed, or is not there, gets no row.
pub fn report_rows(elements: &Vec<Element>, histories: &Vec<Result<Vec<String>, Error>>) -> (rows:
    Vec<ReportRow>)
    ensures
        rows.deep_view() == rows_of(elements.deep_view(), histories@),
{
    let mut rows: Vec<ReportRow> = Vec::new();
    let mut i: usize = 0;
    while i < elements.len()
        invariant
            i <= elements.len(),
            rows.deep_view() == rows_of(elements.deep_view().take(i as int), histories@),
        decreases elements.len() - i,
    {
        assert(elements.deep_view().take(i + 1).drop_last() =~= elements.deep_view().take(
            i as int,
        ));
        if i < histories.len() {
            match history_row(&elements[i], &histories[i]) {
                Some(row) => {
                    rows.push(row);
                },
                None => {},
            }
        }
        i += 1;
    }
    assert(elements.deep_view().take(elements.len() as int) =~= elements.deep_view());
    rows
}

/// The rows in the order of the table: the rows that changed most often
/// first, rows that changed equally often in the order in which they came.
pub fn sort_rows(rows: Vec<ReportRow>) -> (sorted: Vec<ReportRow>)
    ensures
        sorted.deep_view() == ranked(rows.deep_view()),
{
    let ghost all = rows.deep_view();
    let mut sorted: Vec<ReportRow> = Vec::new();
    for row in it: rows
        invariant
            it.seq().len() == all.len(),
            forall|k: int| 0 <= k < all.len() ==> (#[trigger] it.seq()[k]).deep_view() == all[k],
            sorted.deep_view() == ranked(all.take(it.index())),
    {
        let ghost before = sorted.deep_view();
        assert(all.take(it.index() + 1).drop_last() =~= all.take(it.index()));
        let mut p: usize = sorted.len();
        assert(before.take(p as int) =~= before);
        while p > 0 && sorted[p - 1].freq < row.freq
            invariant
                p <= sorted.len(),
                before == sorted.deep_view(),
                place(before, row.freq) == place(before.take(p as int), row.freq),
            decreases p,
        {
            assert(before.take(p as int).drop_last() =~= before.take(p - 1));
            p -= 1;
        }
        sorted.insert(p, row);
    }
    assert(all.take(all.len() as int) =~= all);
    sorted
}

/// The part of the table that is shown: the rows in the order of the table,
/// without the first `skip` of them, and `total` of them at most.
pub fn rank(rows: Vec<ReportRow>, skip: usize, total: usize) -> (shown: Vec<ReportRow>)
    ensures
        shown.deep_view() == window(ranked(rows.deep_view()), skip as nat, total as nat),
{
    let sorted = sort_rows(rows);
    let ghost all = sorted.deep_view();
    let count = sorted.len();
    let from = if skip <= count {
        skip
    } else {
        count
    };
    let to = if total <= count - from {
        from + total
    } else {
        count
    };
    let mut shown: Vec<ReportRow> = Vec::new();
    let mut seen: usize = 0;
    for row in it: sorted
        invariant
            from <= to <= count == all.len() == it.seq().len(),
            forall|k: int| 0 <= k < all.len() ==> (#[trigger] it.seq()[k]).deep_view() == all[k],
            seen == it.index(),
            shown.deep_view() == all.subrange(
                from as int,
                if seen <= from {
                    from as int
                } else if seen <= to {
                    seen as int
                } else {
                    to as int
                },
            ),
    {
        if from <= seen && seen < to {
            shown.push(row);
            assert(all.subrange(from as int, seen + 1) =~= all.subrange(
                from as int,
                seen as int,
            ).push(all[seen as int]));
        }
        seen += 1;
    }
    shown
}

} // verus!
