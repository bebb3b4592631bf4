//! Projection of a dataset into the transport representation: one record
//! per row, field names retained, dates rendered as ISO-8601 text. The
//! inverse direction is provided so losslessness is a theorem.

use vstd::prelude::*;
use crate::date::{spec_render_date, spec_parse_date, render_date, parse_date, lemma_render_parse_round_trip};
use crate::dataset::{Row, Dataset};

verus! {

/// One row in transport form. Numeric and string columns keep their typing;
/// the date column is ISO-8601 text (`None` for an unreadable source cell);
/// the two 64-bit binary fraction columns travel as raw bit patterns.
pub struct ProjectedRow {
    pub date: Option<String>,
    pub ticker: String,
    pub cusip: String,
    pub company: String,
    pub market_value: i64,
    pub shares: i64,
    pub share_price_bits: u64,
    pub weight_bits: u64,
}

/// The mathematical content of a transport row: what any encoding of it
/// would carry.
pub ghost struct ProjectedRowModel {
    pub date: Option<Seq<char>>,
    pub ticker: Seq<char>,
    pub cusip: Seq<char>,
    pub company: Seq<char>,
    pub market_value: i64,
    pub shares: i64,
    pub share_price_bits: u64,
    pub weight_bits: u64,
}

impl View for ProjectedRow {
    type V = ProjectedRowModel;

    open spec fn view(&self) -> ProjectedRowModel {
        ProjectedRowModel {
            date: match self.date {
                Some(s) => Some(s@),
                None => None,
            },
            ticker: self.ticker@,
            cusip: self.cusip@,
            company: self.company@,
            market_value: self.market_value,
            shares: self.shares,
            share_price_bits: self.share_price_bits,
            weight_bits: self.weight_bits,
        }
    }
}

/// `p` is the projection of `row`: same fields, date rendered as ISO-8601.
pub open spec fn spec_row_projects(row: Row, p: ProjectedRow) -> bool {
    &&& match (row.date, p.date) {
        (Some(d), Some(s)) => s@ == spec_render_date(d),
        (None, None) => true,
        _ => false,
    }
    &&& p.ticker == row.ticker
    &&& p.cusip == row.cusip
    &&& p.company == row.company
    &&& p.market_value == row.market_value
    &&& p.shares == row.shares
    &&& p.share_price_bits == row.share_price_bits
    &&& p.weight_bits == row.weight_bits
}

/// `row` is the reading of transport row `p`: same fields, date parsed
/// from its ISO-8601 text.
pub open spec fn spec_row_deserializes(p: ProjectedRow, row: Row) -> bool {
    &&& match (p.date, row.date) {
        (Some(s), Some(d)) => spec_parse_date(s@) == Some(d),
        (None, None) => true,
        _ => false,
    }
    &&& row.ticker == p.ticker
    &&& row.cusip == p.cusip
    &&& row.company == p.company
    &&& row.market_value == p.market_value
    &&& row.shares == p.shares
    &&& row.share_price_bits == p.share_price_bits
    &&& row.weight_bits == p.weight_bits
}

/// Projects a dataset into transport form, row for row and in order.
pub fn project(d: Dataset) -> (out: Vec<ProjectedRow>)
    requires
        d.wf(),
    ensures
        out@.len() == d.rows@.len(),
        forall|i: int| 0 <= i < out@.len() ==> spec_row_projects(d.rows@[i], #[trigger] out@[i]),
{
    let ghost orig: Seq<Row> = d.rows@;
    let mut rows = d.rows;
    let mut out: Vec<ProjectedRow> = Vec::new();
    let ghost mut i: int = 0;
    while rows.len() > 0
        invariant
            0 <= i <= orig.len(),
            i == orig.len() - rows@.len(),
            rows@ =~= orig.subrange(i, orig.len() as int),
            out@.len() == i,
            forall|j: int| 0 <= j < orig.len() ==> (#[trigger] orig[j]).wf(),
            forall|j: int| 0 <= j < i ==> spec_row_projects(orig[j], #[trigger] out@[j]),
        decreases rows@.len(),
    {
        let row = rows.remove(0);
        proof {
            assert(row == orig[i]);
        }
        let date = match row.date {
            Some(d) => Some(render_date(&d)),
            None => None,
        };
        out.push(
            ProjectedRow {
                date,
                ticker: row.ticker,
                cusip: row.cusip,
                company: row.company,
                market_value: row.market_value,
                shares: row.shares,
                share_price_bits: row.share_price_bits,
                weight_bits: row.weight_bits,
            },
        );
        proof {
            i = i + 1;
            assert(rows@ =~= orig.subrange(i, orig.len() as int));
        }
    }
    out
}

/// Reads transport rows back into a dataset. Returns `None` exactly when
/// some date text is not a well-formed ISO-8601 calendar date.
#[verifier::loop_isolation(false)]
pub fn deserialize(rows: Vec<ProjectedRow>) -> (r: Option<Dataset>)
    ensures
        match r {
            Some(d) => {
                &&& d.rows@.len() == rows@.len()
                &&& forall|i: int|
                    0 <= i < rows@.len() ==> spec_row_deserializes(
                        #[trigger] rows@[i],
                        d.rows@[i],
                    )
                &&& d.wf()
            },
            None => exists|i: int|
                0 <= i < rows@.len() && ((#[trigger] rows@[i]).date matches Some(s)
                    && spec_parse_date(s@) is None),
        },
{
    let ghost orig: Seq<ProjectedRow> = rows@;
    let mut rows = rows;
    let mut out: Vec<Row> = Vec::new();
    let ghost mut i: int = 0;
    while rows.len() > 0
        invariant
            0 <= i <= orig.len(),
            i == orig.len() - rows@.len(),
            rows@ =~= orig.subrange(i, orig.len() as int),
            out@.len() == i,
            forall|j: int| 0 <= j < i ==> spec_row_deserializes(#[trigger] orig[j], out@[j]),
            forall|j: int| 0 <= j < i ==> (#[trigger] out@[j]).wf(),
        decreases rows@.len(),
    {
        let p = rows.remove(0);
        proof {
            assert(p == orig[i]);
        }
        let date = match p.date {
            Some(s) => {
                match parse_date(s.as_str()) {
                    Some(d) => Some(d),
                    None => {
                        proof {
                            assert(orig[i].date matches Some(t) && spec_parse_date(t@) is None);
                            assert(exists|j: int|
                                0 <= j < orig.len() && ((#[trigger] orig[j]).date matches Some(t)
                                    && spec_parse_date(t@) is None));
                        }
                        return None;
                    },
                }
            },
            None => None,
        };
        out.push(
            Row {
                date,
                ticker: p.ticker,
                cusip: p.cusip,
                company: p.company,
                market_value: p.market_value,
                shares: p.shares,
                share_price_bits: p.share_price_bits,
                weight_bits: p.weight_bits,
            },
        );
        proof {
            i = i + 1;
            assert(rows@ =~= orig.subrange(i, orig.len() as int));
        }
    }
    Some(Dataset { rows: out })
}

/// Projection is lossless and idempotent for the declared schema: reading
/// a projection back gives the very dataset it came from, and projecting
/// again carries the identical transport content.
pub proof fn lemma_projection_round_trip(
    d: Dataset,
    p: Seq<ProjectedRow>,
    d2: Dataset,
    p2: Seq<ProjectedRow>,
)
    requires
        d.wf(),
        p.len() == d.rows@.len(),
        forall|i: int| 0 <= i < p.len() ==> spec_row_projects(d.rows@[i], #[trigger] p[i]),
        d2.rows@.len() == p.len(),
        forall|i: int| 0 <= i < p.len() ==> spec_row_deserializes(#[trigger] p[i], d2.rows@[i]),
        p2.len() == d2.rows@.len(),
        forall|i: int| 0 <= i < p2.len() ==> spec_row_projects(d2.rows@[i], #[trigger] p2[i]),
    ensures
        d2.rows@ == d.rows@,
        p2.len() == p.len(),
        forall|i: int| 0 <= i < p.len() ==> #[trigger] p2[i]@ == p[i]@,
{
    assert forall|i: int| 0 <= i < p.len() implies d2.rows@[i] == d.rows@[i] by {
        let row = d.rows@[i];
        let pi = p[i];
        let row2 = d2.rows@[i];
        assert(row.wf());
        assert(spec_row_projects(row, pi));
        assert(spec_row_deserializes(pi, row2));
        match row.date {
            Some(dt) => {
                lemma_render_parse_round_trip(dt);
            },
            None => {},
        }
    }
    assert(d2.rows@ =~= d.rows@);
    assert forall|i: int| 0 <= i < p.len() implies #[trigger] p2[i]@ == p[i]@ by {
        let row = d.rows@[i];
        assert(spec_row_projects(row, p[i]));
        assert(spec_row_projects(d2.rows@[i], p2[i]));
        assert(d2.rows@[i] == row);
        match row.date {
            Some(dt) => {
                assert(p[i].date matches Some(s) && s@ == spec_render_date(dt));
                assert(p2[i].date matches Some(s) && s@ == spec_render_date(dt));
            },
            None => {
                assert(p[i].date is None && p2[i].date is None);
            },
        }
    }
}

} // verus!
