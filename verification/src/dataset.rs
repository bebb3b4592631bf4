//! The in-memory tabular dataset: one row per (date, holding) observation,
//! and the inclusive date-range filter over its rows.

use vstd::prelude::*;
use crate::date::Date;

verus! {

/// One holdings observation. The two 64-bit binary fraction columns are
/// carried as their raw bit patterns: the filter never reads them, and the
/// transport layer renders them as numbers.
pub struct Row {
    /// The observation date; `None` stands for an isolated corrupt cell,
    /// which the filter treats as non-matching rather than as an error.
    pub date: Option<Date>,
    pub ticker: String,
    pub cusip: String,
    pub company: String,
    pub market_value: i64,
    pub shares: i64,
    pub share_price_bits: u64,
    pub weight_bits: u64,
}

impl Row {
    /// A row is well-formed when its date cell, if readable, is a real
    /// calendar date.
    pub open spec fn wf(self) -> bool {
        match self.date {
            Some(d) => d.wf(),
            None => true,
        }
    }
}

/// A full dataset for one ticker, in input order. Rows are not required
/// to be sorted by date.
pub struct Dataset {
    pub rows: Vec<Row>,
}

impl Dataset {
    /// All rows are well-formed.
    pub open spec fn wf(self) -> bool {
        forall|i: int| 0 <= i < self.rows@.len() ==> (#[trigger] self.rows@[i]).wf()
    }
}

/// An optional pair of inclusive calendar-date bounds. Absence of both
/// bounds means no filtering; a single bound is open-ended on the other
/// side.
#[derive(Clone, Copy)]
pub struct DateRange {
    pub start: Option<Date>,
    pub end: Option<Date>,
}

impl DateRange {
    /// Both bounds, where present, are real calendar dates.
    pub open spec fn wf(self) -> bool {
        (match self.start {
            Some(d) => d.wf(),
            None => true,
        }) && (match self.end {
            Some(d) => d.wf(),
            None => true,
        })
    }
}

/// Whether a row survives the filter: with no bounds every row survives;
/// otherwise the row's date must be readable and inside whichever bounds
/// are present.
pub open spec fn spec_row_in_range(range: DateRange, row: Row) -> bool {
    if range.start is None && range.end is None {
        true
    } else {
        match row.date {
            None => false,
            Some(d) => (match range.start {
                None => true,
                Some(s) => s.spec_le(d),
            }) && (match range.end {
                None => true,
                Some(e) => d.spec_le(e),
            }),
        }
    }
}

/// The subsequence of rows that survive the filter, in input order.
pub open spec fn spec_filter_rows(rows: Seq<Row>, range: DateRange) -> Seq<Row>
    decreases rows.len(),
{
    if rows.len() == 0 {
        Seq::empty()
    } else {
        let rest = spec_filter_rows(rows.drop_last(), range);
        if spec_row_in_range(range, rows.last()) {
            rest.push(rows.last())
        } else {
            rest
        }
    }
}

/// The input positions of the surviving rows, in increasing order.
pub open spec fn spec_kept_indices(rows: Seq<Row>, range: DateRange) -> Seq<int>
    decreases rows.len(),
{
    if rows.len() == 0 {
        Seq::empty()
    } else {
        let rest = spec_kept_indices(rows.drop_last(), range);
        if spec_row_in_range(range, rows.last()) {
            rest.push(rows.len() - 1)
        } else {
            rest
        }
    }
}

/// Decides whether a row survives the filter for this range.
pub fn row_in_range(range: &DateRange, row: &Row) -> (r: bool)
    ensures
        r == spec_row_in_range(*range, *row),
{
    if range.start.is_none() && range.end.is_none() {
        return true;
    }
    match row.date {
        None => false,
        Some(d) => {
            let ok_start = match range.start {
                None => true,
                Some(s) => s.le(&d),
            };
            let ok_end = match range.end {
                None => true,
                Some(e) => d.le(&e),
            };
            ok_start && ok_end
        },
    }
}

/// Filters a dataset by an inclusive date range in one linear pass,
/// keeping input order. With both bounds absent the dataset is returned
/// unchanged.
pub fn filter_date_range(d: Dataset, range: &DateRange) -> (out: Dataset)
    ensures
        out.rows@ == spec_filter_rows(d.rows@, *range),
        range.start is None && range.end is None ==> out.rows@ == d.rows@,
{
    let ghost orig: Seq<Row> = d.rows@;
    let mut rows = d.rows;
    let mut out: Vec<Row> = Vec::new();
    let ghost mut i: int = 0;
    while rows.len() > 0
        invariant
            0 <= i <= orig.len(),
            i == orig.len() - rows@.len(),
            rows@ =~= orig.subrange(i, orig.len() as int),
            out@ == spec_filter_rows(orig.subrange(0, i), *range),
        decreases rows@.len(),
    {
        let row = rows.remove(0);
        proof {
            assert(row == orig[i]);
            let prefix = orig.subrange(0, i);
            let next = orig.subrange(0, i + 1);
            assert(next =~= prefix.push(orig[i]));
            assert(next.drop_last() =~= prefix);
            assert(next.last() == orig[i]);
        }
        if row_in_range(range, &row) {
            out.push(row);
        }
        proof {
            i = i + 1;
            assert(rows@ =~= orig.subrange(i, orig.len() as int));
        }
    }
    proof {
        assert(orig.subrange(0, i) =~= orig);
        if range.start is None && range.end is None {
            lemma_filter_no_bounds_identity(orig, *range);
        }
    }
    Dataset { rows: out }
}

/// With both bounds absent, filtering is the identity.
pub proof fn lemma_filter_no_bounds_identity(rows: Seq<Row>, range: DateRange)
    requires
        range.start is None,
        range.end is None,
    ensures
        spec_filter_rows(rows, range) == rows,
    decreases rows.len(),
{
    if rows.len() > 0 {
        lemma_filter_no_bounds_identity(rows.drop_last(), range);
        assert(spec_filter_rows(rows, range) =~= rows);
    } else {
        assert(spec_filter_rows(rows, range) =~= rows);
    }
}

/// Soundness and completeness of the filter: every surviving row is in
/// range, and every in-range input row survives; so a row is excluded
/// exactly when it fails the range predicate.
pub proof fn lemma_filter_rows_membership(rows: Seq<Row>, range: DateRange)
    ensures
        forall|k: int|
            0 <= k < spec_filter_rows(rows, range).len() ==> spec_row_in_range(
                range,
                #[trigger] spec_filter_rows(rows, range)[k],
            ),
        forall|j: int|
            0 <= j < rows.len() && spec_row_in_range(range, #[trigger] rows[j])
                ==> spec_filter_rows(rows, range).contains(rows[j]),
        forall|j: int|
            0 <= j < rows.len() && !spec_row_in_range(range, #[trigger] rows[j])
                ==> !spec_filter_rows(rows, range).contains(rows[j]),
    decreases rows.len(),
{
    let out = spec_filter_rows(rows, range);
    if rows.len() > 0 {
        let sub = rows.drop_last();
        lemma_filter_rows_membership(sub, range);
        let rest = spec_filter_rows(sub, range);
        assert forall|j: int|
            0 <= j < rows.len() && spec_row_in_range(range, #[trigger] rows[j]) implies out.contains(
            rows[j],
        ) by {
            if j < rows.len() - 1 {
                assert(rows[j] == sub[j]);
                assert(rest.contains(sub[j]));
                let k = choose|k: int| 0 <= k < rest.len() && rest[k] == sub[j];
                assert(out[k] == rows[j]);
            } else {
                assert(out.last() == rows[j]);
            }
        }
        assert forall|j: int|
            0 <= j < rows.len() && !spec_row_in_range(range, #[trigger] rows[j])
            implies !out.contains(rows[j]) by {
            if out.contains(rows[j]) {
                let k = choose|k: int| 0 <= k < out.len() && out[k] == rows[j];
                assert(spec_row_in_range(range, out[k]));
            }
        }
    }
}

/// For a fully bounded range with `start <= end`: every surviving row's
/// date lies between the bounds inclusively, and every excluded input row
/// violates them. Bounds on the surviving rows come first.
pub proof fn lemma_filter_rows_in_bounds(rows: Seq<Row>, s: Date, e: Date)
    requires
        s.spec_le(e),
    ensures
        forall|k: int|
            0 <= k < spec_filter_rows(rows, DateRange { start: Some(s), end: Some(e) }).len()
                ==> {
                let row = #[trigger] spec_filter_rows(
                    rows,
                    DateRange { start: Some(s), end: Some(e) },
                )[k];
                &&& row.date is Some
                &&& s.spec_le(row.date->0)
                &&& row.date->0.spec_le(e)
            },
        forall|j: int|
            0 <= j < rows.len() && !(rows[j].date is Some && s.spec_le(#[trigger] rows[j].date->0)
                && rows[j].date->0.spec_le(e)) ==> !spec_filter_rows(
                rows,
                DateRange { start: Some(s), end: Some(e) },
            ).contains(rows[j]),
{
    let range = DateRange { start: Some(s), end: Some(e) };
    lemma_filter_rows_membership(rows, range);
}

/// Filtering preserves the input order of the surviving rows: the output
/// reads the input at a strictly increasing sequence of positions, and
/// that sequence covers every in-range position.
pub proof fn lemma_filter_rows_order_preserving(rows: Seq<Row>, range: DateRange)
    ensures
        ({
            let out = spec_filter_rows(rows, range);
            let idx = spec_kept_indices(rows, range);
            &&& idx.len() == out.len()
            &&& forall|k: int|
                0 <= k < idx.len() ==> 0 <= #[trigger] idx[k] < rows.len() && out[k]
                    == rows[idx[k]] && spec_row_in_range(range, rows[idx[k]])
            &&& forall|k1: int, k2: int| 0 <= k1 < k2 < idx.len() ==> idx[k1] < idx[k2]
            &&& forall|j: int|
                0 <= j < rows.len() && spec_row_in_range(range, #[trigger] rows[j])
                    ==> idx.contains(j)
        }),
    decreases rows.len(),
{
    let out = spec_filter_rows(rows, range);
    let idx = spec_kept_indices(rows, range);
    if rows.len() > 0 {
        let sub = rows.drop_last();
        lemma_filter_rows_order_preserving(sub, range);
        let out_sub = spec_filter_rows(sub, range);
        let idx_sub = spec_kept_indices(sub, range);
        assert forall|k: int|
            0 <= k < idx.len() implies 0 <= #[trigger] idx[k] < rows.len() && out[k]
            == rows[idx[k]] && spec_row_in_range(range, rows[idx[k]]) by {
            if k < idx_sub.len() {
                assert(idx[k] == idx_sub[k]);
                assert(sub[idx_sub[k]] == rows[idx_sub[k]]);
            }
        }
        assert forall|j: int|
            0 <= j < rows.len() && spec_row_in_range(range, #[trigger] rows[j]) implies idx.contains(
            j,
        ) by {
            if j < rows.len() - 1 {
                assert(rows[j] == sub[j]);
                assert(idx_sub.contains(j));
                let k = choose|k: int| 0 <= k < idx_sub.len() && idx_sub[k] == j;
                assert(idx[k] == j);
            } else {
                assert(spec_row_in_range(range, rows.last()));
                assert(idx.last() == j);
            }
        }
    }
}

} // verus!
