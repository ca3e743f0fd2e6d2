//! Decoding bank statements into normalized transactions.
//!
//! Two source shapes exist: spreadsheet grids, whose header row the
//! [`ExcelBankStatement`] aligner injects before positional decoding, and
//! delimited-text exports, which [`RevolutBankStatement`] decodes against the
//! file's own header row. Both end in the same [`Transaction`] records, in
//! source row order, optionally reversed by [`normalize`].

use vstd::prelude::*;

use crate::amount::{parse_amount, spec_parse_amount_i64};
use crate::banks::{
    amount_name, description_name, op_date_name, spec_find_header, value_date_name, BankConfig,
};
use crate::date::{parse_date, spec_parse_date, Date};
use crate::grid::{cell_wf, row_wf, spec_cell_at, CellV, Grid, RawCell};
use crate::BetlError;

verus! {

/// A normalized transaction record.
///
/// Description and amount are always present after decoding; the dates fall
/// back to the run's default date where the source value cannot be read, so
/// a decoded record always carries `Some` date.
#[derive(Debug, Clone, PartialEq)]
pub struct Transaction {
    pub operation_date: Option<Date>,
    pub value_date: Option<Date>,
    pub description: String,
    pub amount: i64,
}

/// The mathematical value of a transaction.
#[verifier::ext_equal]
pub ghost struct TransactionV {
    pub operation_date: Option<Date>,
    pub value_date: Option<Date>,
    pub description: Seq<char>,
    pub amount: int,
}

impl View for Transaction {
    type V = TransactionV;

    open spec fn view(&self) -> TransactionV {
        TransactionV {
            operation_date: self.operation_date,
            value_date: self.value_date,
            description: self.description@,
            amount: self.amount as int,
        }
    }
}

impl DeepView for Transaction {
    type V = TransactionV;

    open spec fn deep_view(&self) -> TransactionV {
        self.view()
    }
}

impl TransactionV {
    /// Well-formedness: any date present is a valid calendar day.
    pub open spec fn wf(self) -> bool {
        &&& match self.operation_date {
            Some(d) => d.wf(),
            None => true,
        }
        &&& match self.value_date {
            Some(d) => d.wf(),
            None => true,
        }
    }
}

/// The date pattern of the grid-based bank exports.
pub open spec fn spec_grid_date_format() -> Seq<char> {
    "%d/%m/%Y"@
}

/// The date pattern of the grid-based bank exports.
pub fn grid_date_format() -> (r: &'static str)
    ensures
        r@ == spec_grid_date_format(),
{
    "%d/%m/%Y"
}

/// The date-time pattern of the delimited-text exports.
pub open spec fn spec_revolut_date_format() -> Seq<char> {
    "%Y-%m-%d %H:%M:%S"@
}

/// The date-time pattern of the delimited-text exports.
pub fn revolut_date_format() -> (r: &'static str)
    ensures
        r@ == spec_revolut_date_format(),
{
    "%Y-%m-%d %H:%M:%S"
}

/// The date a cell decodes to under the given pattern: a native date cell is
/// taken as it stands, a text cell is parsed with fallback to the default
/// date, and anything else is the default date.
pub open spec fn spec_decode_date(c: CellV, fmt: Seq<char>, default: Date) -> Date {
    match c {
        CellV::Date(d) => d,
        CellV::Text(s) => match spec_parse_date(s, fmt) {
            Some(d) => d,
            None => default,
        },
        _ => default,
    }
}

/// Decodes one date field of a grid row.
///
/// Never fails: the result is either the cell's own date, the date parsed
/// from its text under the bank's pattern, or the default date.
pub fn deserialize_date(cell: &RawCell, default: Date) -> (r: Date)
    requires
        cell_wf(cell@),
        default.wf(),
    ensures
        r == spec_decode_date(cell@, spec_grid_date_format(), default),
        r == default || cell@ == CellV::Date(r) || (cell@ matches CellV::Text(s) && spec_parse_date(
            s,
            spec_grid_date_format(),
        ) == Some(r)),
        r.wf(),
{
    match cell {
        RawCell::Date(d) => *d,
        RawCell::Text(s) => match parse_date(s.as_str(), grid_date_format()) {
            Some(d) => d,
            None => default,
        },
        _ => default,
    }
}

/// The normalized order: reversed where requested, unchanged otherwise.
pub open spec fn spec_normalize(ts: Seq<Transaction>, reverse: bool) -> Seq<Transaction> {
    if reverse {
        ts.reverse()
    } else {
        ts
    }
}

/// Reorders the decoded sequence: strict reversal where requested, the
/// source row order otherwise.
pub fn normalize(ts: Vec<Transaction>, should_reverse: bool) -> (r: Vec<Transaction>)
    ensures
        r@ == spec_normalize(ts@, should_reverse),
{
    if !should_reverse {
        return ts;
    }
    let ghost t0 = ts@;
    let mut src = ts;
    let mut out: Vec<Transaction> = Vec::new();
    while src.len() > 0
        invariant
            src@.len() <= t0.len(),
            src@ == t0.take(src@.len() as int),
            out@ == t0.skip(src@.len() as int).reverse(),
        decreases src@.len(),
    {
        let ghost k = src@.len() as int;
        let t = match src.pop() {
            Some(t) => t,
            None => {
                proof {
                    assert(false);
                }
                return out;
            },
        };
        out.push(t);
        proof {
            assert(src@ =~= t0.take(k - 1));
            assert(t == t0[k - 1]);
            assert(out@ =~= t0.skip(k - 1).reverse());
        }
    }
    proof {
        assert(out@ =~= t0.reverse());
    }
    out
}

/// A header list rendered as a row of text cells.
pub open spec fn spec_header_row(hs: Seq<Seq<char>>) -> Seq<CellV> {
    hs.map_values(|h: Seq<char>| CellV::Text(h))
}

/// Alignment of a raw grid against a profile: the first `skip` rows are
/// discarded, and the row that follows them is replaced by the profile's
/// canonical header row, whatever it held. The header row is always present,
/// even over a grid too short to supply data rows.
pub open spec fn spec_align(rows: Seq<Seq<CellV>>, hs: Seq<Seq<char>>, skip: int) -> Seq<
    Seq<CellV>,
> {
    seq![spec_header_row(hs)] + (if rows.len() > skip + 1 {
        rows.skip(skip + 1)
    } else {
        Seq::empty()
    })
}

/// The amount a cell decodes to: a numeric cell is already in cents, a text
/// cell is parsed, and anything else is rejected.
pub open spec fn spec_cell_amount(c: CellV) -> Option<i64> {
    match c {
        CellV::Number(n) => Some(n),
        CellV::Text(s) => spec_parse_amount_i64(s),
        _ => None,
    }
}

/// The description a cell decodes to: the text of a text cell, empty
/// otherwise.
pub open spec fn spec_cell_text(c: CellV) -> Seq<char> {
    match c {
        CellV::Text(s) => s,
        _ => Seq::empty(),
    }
}

/// One grid row decoded positionally against the four field columns; `None`
/// exactly where the amount cell cannot be read.
pub open spec fn spec_decode_row(
    row: Seq<CellV>,
    op: int,
    vd: int,
    de: int,
    am: int,
    default: Date,
) -> Option<TransactionV> {
    match spec_cell_amount(spec_cell_at(row, am)) {
        None => None,
        Some(cents) => Some(
            TransactionV {
                operation_date: Some(
                    spec_decode_date(spec_cell_at(row, op), spec_grid_date_format(), default),
                ),
                value_date: Some(
                    spec_decode_date(spec_cell_at(row, vd), spec_grid_date_format(), default),
                ),
                description: spec_cell_text(spec_cell_at(row, de)),
                amount: cents as int,
            },
        ),
    }
}

/// A sequence of grid rows decoded in order; the error is the index of the
/// first row whose amount cannot be read.
pub open spec fn spec_decode_rows(
    rows: Seq<Seq<CellV>>,
    op: int,
    vd: int,
    de: int,
    am: int,
    default: Date,
) -> Result<Seq<TransactionV>, int>
    decreases rows.len(),
{
    if rows.len() == 0 {
        Ok(Seq::empty())
    } else {
        match spec_decode_rows(rows.drop_last(), op, vd, de, am, default) {
            Err(i) => Err(i),
            Ok(pre) => match spec_decode_row(rows.last(), op, vd, de, am, default) {
                Some(t) => Ok(pre.push(t)),
                None => Err(rows.len() - 1),
            },
        }
    }
}

/// A decode that passes the first `k` rows and fails on row `k` fails on the
/// whole sequence with exactly that row.
pub proof fn lemma_decode_rows_first_err(
    rows: Seq<Seq<CellV>>,
    op: int,
    vd: int,
    de: int,
    am: int,
    default: Date,
    k: int,
)
    requires
        0 <= k < rows.len(),
        spec_decode_rows(rows.take(k), op, vd, de, am, default) is Ok,
        spec_decode_row(rows[k], op, vd, de, am, default) is None,
    ensures
        spec_decode_rows(rows, op, vd, de, am, default) == Err::<Seq<TransactionV>, int>(k),
    decreases rows.len(),
{
    if k == rows.len() - 1 {
        assert(rows.drop_last() =~= rows.take(k));
        assert(rows.last() == rows[k]);
    } else {
        let pre = rows.drop_last();
        assert(pre.take(k) =~= rows.take(k));
        assert(pre[k] == rows[k]);
        lemma_decode_rows_first_err(pre, op, vd, de, am, default, k);
    }
}

/// Decoding a row sequence fails exactly where some row's amount cell
/// cannot be read; only then is no transaction sequence produced.
pub proof fn lemma_decode_rows_err_iff(
    rows: Seq<Seq<CellV>>,
    op: int,
    vd: int,
    de: int,
    am: int,
    default: Date,
)
    ensures
        spec_decode_rows(rows, op, vd, de, am, default) is Err <==> exists|k: int|
            0 <= k < rows.len() && spec_decode_row(#[trigger] rows[k], op, vd, de, am, default)
                is None,
    decreases rows.len(),
{
    if rows.len() > 0 {
        let pre = rows.drop_last();
        lemma_decode_rows_err_iff(pre, op, vd, de, am, default);
        assert(forall|k: int| 0 <= k < pre.len() ==> #[trigger] rows[k] == pre[k]);
        if spec_decode_rows(rows, op, vd, de, am, default) is Err {
            if spec_decode_rows(pre, op, vd, de, am, default) is Err {
                let k = choose|k: int|
                    0 <= k < pre.len() && spec_decode_row(
                        #[trigger] pre[k],
                        op,
                        vd,
                        de,
                        am,
                        default,
                    ) is None;
                assert(spec_decode_row(rows[k], op, vd, de, am, default) is None);
            } else {
                assert(spec_decode_row(rows[rows.len() - 1], op, vd, de, am, default) is None);
            }
        }
    }
}

/// The whole grid pipeline: align, decode every data row, and normalize the
/// order. The error is the index of the first undecodable data row.
pub open spec fn spec_parse_grid(
    g: Seq<Seq<CellV>>,
    hs: Seq<Seq<char>>,
    skip: int,
    rev: bool,
    default: Date,
) -> Result<Seq<TransactionV>, int> {
    let aligned = spec_align(g, hs, skip);
    let op = spec_find_header(hs, op_date_name())->Some_0;
    let vd = spec_find_header(hs, value_date_name())->Some_0;
    let de = spec_find_header(hs, description_name())->Some_0;
    let am = spec_find_header(hs, amount_name())->Some_0;
    match spec_decode_rows(aligned.skip(1), op, vd, de, am, default) {
        Ok(ts) => Ok(
            if rev {
                ts.reverse()
            } else {
                ts
            },
        ),
        Err(i) => Err(i),
    }
}

/// Decodes one row against the four field columns. `None` exactly where the
/// amount cell cannot be read; the dates always decode, falling back to the
/// default date.
fn decode_row(
    row: &Vec<RawCell>,
    op: usize,
    vd: usize,
    de: usize,
    am: usize,
    default: Date,
) -> (r: Option<Transaction>)
    requires
        row_wf(row.deep_view()),
        default.wf(),
    ensures
        match spec_decode_row(
            row.deep_view(),
            op as int,
            vd as int,
            de as int,
            am as int,
            default,
        ) {
            Some(t) => r matches Some(x) && x@ == t && t.wf(),
            None => r is None,
        },
{
    proof {
        assert(forall|j: int|
            0 <= j < row@.len() ==> row.deep_view()[j] == (#[trigger] row@[j])@);
    }
    let a: Option<i64> = if am < row.len() {
        match &row[am] {
            RawCell::Number(n) => Some(*n),
            RawCell::Text(s) => parse_amount(s.as_str()),
            _ => None,
        }
    } else {
        None
    };
    let cents = match a {
        Some(c) => c,
        None => {
            return None;
        },
    };
    let op_date = if op < row.len() {
        deserialize_date(&row[op], default)
    } else {
        default
    };
    let vd_date = if vd < row.len() {
        deserialize_date(&row[vd], default)
    } else {
        default
    };
    let desc = if de < row.len() {
        match &row[de] {
            RawCell::Text(s) => s.clone(),
            _ => String::new(),
        }
    } else {
        String::new()
    };
    Some(
        Transaction {
            operation_date: Some(op_date),
            value_date: Some(vd_date),
            description: desc,
            amount: cents,
        },
    )
}

/// Decoder for spreadsheet-grid exports: leading rows are skipped, the
/// canonical header row is injected, and the data rows are decoded
/// positionally.
pub struct ExcelBankStatement {}

impl ExcelBankStatement {
    /// Discards the first `n` rows of a grid (all of them where the grid is
    /// shorter).
    pub fn skip_rows(grid: Grid, n: usize) -> (r: Grid)
        ensures
            r@ == (if n as int <= grid@.len() {
                grid@.skip(n as int)
            } else {
                Seq::<Seq<CellV>>::empty()
            }),
    {
        let ghost g0 = grid@;
        let mut rows = grid.rows;
        if n <= rows.len() {
            let tail = rows.split_off(n);
            let r = Grid { rows: tail };
            proof {
                assert(r@ =~= g0.skip(n as int));
            }
            r
        } else {
            let r = Grid { rows: Vec::new() };
            proof {
                assert(r@ =~= Seq::<Seq<CellV>>::empty());
            }
            r
        }
    }

    /// Aligns a raw grid against a profile: skips the profile's leading
    /// rows and replaces the row that follows them — treated purely as a
    /// header slot, never validated — by the canonical header row.
    ///
    /// The first row of the result is always the canonical header row,
    /// whatever the grid held.
    pub fn modify_headers(grid: Grid, config: &BankConfig) -> (r: Grid)
        ensures
            r@ == spec_align(grid@, config.headers.deep_view(), config.skip_row_num as int),
            r@[0] == spec_header_row(config.headers.deep_view()),
    {
        let mut hdr: Vec<RawCell> = Vec::new();
        proof {
            assert(hdr.deep_view() =~= spec_header_row(config.headers.deep_view().take(0)));
        }
        let mut i: usize = 0;
        while i < config.headers.len()
            invariant
                i <= config.headers@.len(),
                hdr.deep_view() == spec_header_row(config.headers.deep_view().take(i as int)),
            decreases config.headers@.len() - i,
        {
            proof {
                assert(spec_header_row(config.headers.deep_view().take(i as int)).len()
                    == i as int);
                assert(hdr@.len() == i as int);
            }
            hdr.push(RawCell::Text(config.headers[i].clone()));
            proof {
                let ghost k = i as int;
                assert(hdr@[k] == RawCell::Text(config.headers@[k]));
                assert(hdr.deep_view()[k] == CellV::Text(config.headers.deep_view()[k]));
                assert(forall|j: int|
                    0 <= j < k ==> hdr.deep_view()[j] == spec_header_row(
                        config.headers.deep_view().take(k),
                    )[j]);
                assert(hdr.deep_view() =~~= spec_header_row(
                    config.headers.deep_view().take(k + 1),
                ));
            }
            i += 1;
        }
        proof {
            assert(config.headers.deep_view().take(config.headers@.len() as int)
                =~= config.headers.deep_view());
            assert(hdr.deep_view() == spec_header_row(config.headers.deep_view()));
        }
        let mut g = Self::skip_rows(grid, config.skip_row_num);
        proof {
            assert(config.skip_row_num as int <= grid@.len() ==> g@.len() == grid@.len()
                - config.skip_row_num as int);
            assert(g@.len() == g.rows@.len());
        }
        let ghost pre_rows = g.rows@;
        let ghost pre_view = g@;
        if g.rows.len() == 0 {
            g.rows.push(hdr);
        } else {
            g.rows[0] = hdr;
        }
        proof {
            let ghost hs2 = config.headers.deep_view();
            let ghost n = config.skip_row_num as int;
            if n <= grid@.len() && grid@.len() > n + 1 {
                assert(g@.len() == grid@.len() - n);
                assert(g@[0] == spec_header_row(hs2));
                assert forall|j: int| 1 <= j < g@.len() implies g@[j] == grid@[n + j] by {
                    assert(g@[j] == g.rows@[j].deep_view());
                    assert(g.rows@[j] == pre_rows[j]);
                    assert(pre_rows[j].deep_view() == pre_view[j]);
                    assert(pre_view[j] == grid@.skip(n)[j]);
                }
                assert(forall|j: int|
                    1 <= j < g@.len() ==> spec_align(grid@, hs2, n)[j] == grid@[n + j]);
                assert(g@ =~~= spec_align(grid@, hs2, n));
            } else {
                assert(g@.len() == 1);
                assert(g@[0] == spec_header_row(hs2));
                assert(g@ =~~= seq![spec_header_row(hs2)]);
                assert(g@ =~~= spec_align(grid@, hs2, n));
            }
        }
        g
    }

    /// Decodes a whole grid export into normalized transactions.
    ///
    /// Succeeds if and only if every data row's amount cell reads as a
    /// number; the error names the first data row (zero-based, counted after
    /// the injected header row) whose amount cannot be read, and no sequence
    /// is produced in that case.
    pub fn parse_transactions(
        grid: Grid,
        config: &BankConfig,
        should_reverse: bool,
        default_date: Date,
    ) -> (r: Result<Vec<Transaction>, BetlError>)
        requires
            grid.wf(),
            config.wf(),
            default_date.wf(),
        ensures
            match spec_parse_grid(
                grid@,
                config.headers.deep_view(),
                config.skip_row_num as int,
                should_reverse,
                default_date,
            ) {
                Ok(ts) => r matches Ok(v) && v.deep_view() == ts && (forall|k: int|
                    0 <= k < ts.len() ==> (#[trigger] ts[k]).wf()),
                Err(i) => r == Err::<Vec<Transaction>, BetlError>(BetlError::Decode(i as usize)),
            },
    {
        let ghost g0 = grid@;
        let ghost hs = config.headers.deep_view();
        let aligned = Self::modify_headers(grid, config);
        proof {
            assert forall|j: int| 0 <= j < aligned@.len() implies row_wf(#[trigger] aligned@[j]) by {
                if j == 0 {
                    assert(forall|k: int|
                        0 <= k < hs.len() ==> cell_wf(#[trigger] spec_header_row(hs)[k]));
                } else {
                    assert(aligned@[j] == g0[config.skip_row_num as int + j]);
                }
            }
        }
        let op = match crate::banks::find_header(&config.headers, "operation_date") {
            Some(c) => c,
            None => {
                return Err(BetlError::Configuration);
            },
        };
        let vd = match crate::banks::find_header(&config.headers, "value_date") {
            Some(c) => c,
            None => {
                return Err(BetlError::Configuration);
            },
        };
        let de = match crate::banks::find_header(&config.headers, "description") {
            Some(c) => c,
            None => {
                return Err(BetlError::Configuration);
            },
        };
        let am = match crate::banks::find_header(&config.headers, "amount") {
            Some(c) => c,
            None => {
                return Err(BetlError::Configuration);
            },
        };
        let mut out: Vec<Transaction> = Vec::new();
        proof {
            assert(out.deep_view() =~= Seq::<TransactionV>::empty());
            assert(aligned@.skip(1).take(0) =~= Seq::<Seq<CellV>>::empty());
        }
        let mut i: usize = 1;
        while i < aligned.rows.len()
            invariant
                1 <= i,
                i <= aligned.rows@.len(),
                g0 == grid@,
                hs == config.headers.deep_view(),
                aligned@ == spec_align(g0, hs, config.skip_row_num as int),
                forall|j: int| 0 <= j < aligned@.len() ==> row_wf(#[trigger] aligned@[j]),
                op as int == spec_find_header(hs, op_date_name())->Some_0,
                vd as int == spec_find_header(hs, value_date_name())->Some_0,
                de as int == spec_find_header(hs, description_name())->Some_0,
                am as int == spec_find_header(hs, amount_name())->Some_0,
                default_date.wf(),
                spec_decode_rows(
                    aligned@.skip(1).take(i - 1),
                    op as int,
                    vd as int,
                    de as int,
                    am as int,
                    default_date,
                ) == Ok::<Seq<TransactionV>, int>(out.deep_view()),
                forall|k: int|
                    0 <= k < out.deep_view().len() ==> (#[trigger] out.deep_view()[k]).wf(),
            decreases aligned.rows@.len() - i,
        {
            let ghost skip1 = aligned@.skip(1);
            proof {
                assert(aligned.rows@[i as int].deep_view() == aligned@[i as int]);
                assert(aligned@[i as int] == skip1[i - 1]);
            }
            match decode_row(&aligned.rows[i], op, vd, de, am, default_date) {
                Some(t) => {
                    let ghost prev = out.deep_view();
                    out.push(t);
                    proof {
                        assert(skip1.take(i as int).drop_last() =~= skip1.take(i - 1));
                        assert(skip1.take(i as int).last() == skip1[i - 1]);
                        assert(out.deep_view() =~= prev.push(t@));
                    }
                },
                None => {
                    proof {
                        lemma_decode_rows_first_err(
                            skip1,
                            op as int,
                            vd as int,
                            de as int,
                            am as int,
                            default_date,
                            i - 1,
                        );
                        assert(spec_parse_grid(
                            g0,
                            hs,
                            config.skip_row_num as int,
                            should_reverse,
                            default_date,
                        ) == Err::<Seq<TransactionV>, int>(i - 1));
                    }
                    return Err(BetlError::Decode(i - 1));
                },
            }
            i += 1;
        }
        proof {
            assert(aligned@.skip(1).take(aligned@.len() - 1) =~= aligned@.skip(1));
        }
        let ghost outv = out.deep_view();
        let res = normalize(out, should_reverse);
        proof {
            if should_reverse {
                assert(res.deep_view() =~= outv.reverse());
            } else {
                assert(res.deep_view() =~= outv);
            }
        }
        Ok(res)
    }
}

/// One raw record of a delimited-text export, keyed by the file's own header
/// row. Every field is carried as text; [`RevolutBankStatement::convert`]
/// turns the four fields the pipeline keeps into a [`Transaction`].
#[derive(Debug, Clone, PartialEq)]
pub struct RevolutTransaction {
    pub transaction_type: String,
    pub product: String,
    pub operation_date: String,
    pub value_date: String,
    pub description: String,
    pub amount: String,
    pub fee: String,
    pub currency: String,
    pub state: String,
    pub balance: String,
}

/// The field of a row at a column, read as empty past the row's width.
pub open spec fn spec_str_at(row: Seq<Seq<char>>, j: int) -> Seq<char> {
    if 0 <= j < row.len() {
        row[j]
    } else {
        Seq::empty()
    }
}

/// Conversion of one delimited-text record: the amount must parse, the dates
/// fall back to the default date, the description is kept as it stands.
pub open spec fn spec_convert(
    op_s: Seq<char>,
    vd_s: Seq<char>,
    desc: Seq<char>,
    amt: Seq<char>,
    default: Date,
) -> Option<TransactionV> {
    match spec_parse_amount_i64(amt) {
        None => None,
        Some(c) => Some(
            TransactionV {
                operation_date: Some(
                    match spec_parse_date(op_s, spec_revolut_date_format()) {
                        Some(d) => d,
                        None => default,
                    },
                ),
                value_date: Some(
                    match spec_parse_date(vd_s, spec_revolut_date_format()) {
                        Some(d) => d,
                        None => default,
                    },
                ),
                description: desc,
                amount: c as int,
            },
        ),
    }
}

/// A sequence of delimited-text rows decoded in order; the error is the
/// index of the first row whose amount cannot be read.
pub open spec fn spec_decode_csv_rows(
    rows: Seq<Seq<Seq<char>>>,
    op: int,
    vd: int,
    de: int,
    am: int,
    default: Date,
) -> Result<Seq<TransactionV>, int>
    decreases rows.len(),
{
    if rows.len() == 0 {
        Ok(Seq::empty())
    } else {
        match spec_decode_csv_rows(rows.drop_last(), op, vd, de, am, default) {
            Err(i) => Err(i),
            Ok(pre) => match spec_convert(
                spec_str_at(rows.last(), op),
                spec_str_at(rows.last(), vd),
                spec_str_at(rows.last(), de),
                spec_str_at(rows.last(), am),
                default,
            ) {
                Some(t) => Ok(pre.push(t)),
                None => Err(rows.len() - 1),
            },
        }
    }
}

/// A decode that passes the first `k` delimited rows and fails on row `k`
/// fails on the whole sequence with exactly that row.
pub proof fn lemma_decode_csv_rows_first_err(
    rows: Seq<Seq<Seq<char>>>,
    op: int,
    vd: int,
    de: int,
    am: int,
    default: Date,
    k: int,
)
    requires
        0 <= k < rows.len(),
        spec_decode_csv_rows(rows.take(k), op, vd, de, am, default) is Ok,
        spec_convert(
            spec_str_at(rows[k], op),
            spec_str_at(rows[k], vd),
            spec_str_at(rows[k], de),
            spec_str_at(rows[k], am),
            default,
        ) is None,
    ensures
        spec_decode_csv_rows(rows, op, vd, de, am, default) == Err::<Seq<TransactionV>, int>(k),
    decreases rows.len(),
{
    if k == rows.len() - 1 {
        assert(rows.drop_last() =~= rows.take(k));
        assert(rows.last() == rows[k]);
    } else {
        let pre = rows.drop_last();
        assert(pre.take(k) =~= rows.take(k));
        assert(pre[k] == rows[k]);
        lemma_decode_csv_rows_first_err(pre, op, vd, de, am, default, k);
    }
}

/// Decoding a delimited row sequence fails exactly where some row's amount
/// field cannot be read; only then is no transaction sequence produced.
pub proof fn lemma_decode_csv_rows_err_iff(
    rows: Seq<Seq<Seq<char>>>,
    op: int,
    vd: int,
    de: int,
    am: int,
    default: Date,
)
    ensures
        spec_decode_csv_rows(rows, op, vd, de, am, default) is Err <==> exists|k: int|
            0 <= k < rows.len() && spec_convert(
                spec_str_at(#[trigger] rows[k], op),
                spec_str_at(rows[k], vd),
                spec_str_at(rows[k], de),
                spec_str_at(rows[k], am),
                default,
            ) is None,
    decreases rows.len(),
{
    if rows.len() > 0 {
        let pre = rows.drop_last();
        lemma_decode_csv_rows_err_iff(pre, op, vd, de, am, default);
        assert(forall|k: int| 0 <= k < pre.len() ==> #[trigger] rows[k] == pre[k]);
        if spec_decode_csv_rows(rows, op, vd, de, am, default) is Err {
            if spec_decode_csv_rows(pre, op, vd, de, am, default) is Err {
                let k = choose|k: int|
                    0 <= k < pre.len() && spec_convert(
                        spec_str_at(#[trigger] pre[k], op),
                        spec_str_at(pre[k], vd),
                        spec_str_at(pre[k], de),
                        spec_str_at(pre[k], am),
                        default,
                    ) is None;
                assert(spec_convert(
                    spec_str_at(rows[k], op),
                    spec_str_at(rows[k], vd),
                    spec_str_at(rows[k], de),
                    spec_str_at(rows[k], am),
                    default,
                ) is None);
            } else {
                assert(spec_convert(
                    spec_str_at(rows[rows.len() - 1], op),
                    spec_str_at(rows[rows.len() - 1], vd),
                    spec_str_at(rows[rows.len() - 1], de),
                    spec_str_at(rows[rows.len() - 1], am),
                    default,
                ) is None);
            }
        }
    }
}

/// The whole delimited-text pipeline: locate the four field columns in the
/// file's own header row, decode every data row, and normalize the order.
pub open spec fn spec_parse_csv(
    hs: Seq<Seq<char>>,
    rows: Seq<Seq<Seq<char>>>,
    rev: bool,
    default: Date,
) -> Result<Seq<TransactionV>, BetlError> {
    let op = spec_find_header(hs, "Started Date"@);
    let vd = spec_find_header(hs, "Completed Date"@);
    let de = spec_find_header(hs, "Description"@);
    let am = spec_find_header(hs, "Amount"@);
    if op is None || vd is None || de is None || am is None {
        Err(BetlError::SourceUnreadable)
    } else {
        match spec_decode_csv_rows(
            rows,
            op->Some_0,
            vd->Some_0,
            de->Some_0,
            am->Some_0,
            default,
        ) {
            Ok(ts) => Ok(
                if rev {
                    ts.reverse()
                } else {
                    ts
                },
            ),
            Err(i) => Err(BetlError::Decode(i as usize)),
        }
    }
}

/// The field of a row at a column, cloned out, or empty past the row's
/// width.
fn str_at(row: &Vec<String>, j: usize) -> (r: String)
    ensures
        r@ == spec_str_at(row.deep_view(), j as int),
{
    proof {
        assert(forall|k: int|
            0 <= k < row@.len() ==> row.deep_view()[k] == (#[trigger] row@[k])@);
    }
    if j < row.len() {
        row[j].clone()
    } else {
        String::new()
    }
}

/// The field of a row at an optional column: empty where the column is
/// absent from the header row.
fn str_at_opt(row: &Vec<String>, j: &Option<usize>) -> (r: String)
    ensures
        match j {
            Some(jj) => r@ == spec_str_at(row.deep_view(), *jj as int),
            None => r@ == Seq::<char>::empty(),
        },
{
    match j {
        Some(jj) => str_at(row, *jj),
        None => String::new(),
    }
}

/// Decoder for delimited-text exports, which carry their own header row and
/// are decoded by field name.
pub struct RevolutBankStatement {}

impl RevolutBankStatement {
    /// Converts one raw record into a normalized transaction. `None` exactly
    /// where the amount does not parse; the dates always decode, falling
    /// back to the default date.
    pub fn convert(transaction: &RevolutTransaction, default: Date) -> (r: Option<Transaction>)
        requires
            default.wf(),
        ensures
            match spec_convert(
                transaction.operation_date@,
                transaction.value_date@,
                transaction.description@,
                transaction.amount@,
                default,
            ) {
                Some(t) => r matches Some(x) && x@ == t && t.wf(),
                None => r is None,
            },
    {
        let cents = match parse_amount(transaction.amount.as_str()) {
            Some(c) => c,
            None => {
                return None;
            },
        };
        let od = match parse_date(transaction.operation_date.as_str(), revolut_date_format()) {
            Some(d) => d,
            None => default,
        };
        let vd = match parse_date(transaction.value_date.as_str(), revolut_date_format()) {
            Some(d) => d,
            None => default,
        };
        Some(
            Transaction {
                operation_date: Some(od),
                value_date: Some(vd),
                description: transaction.description.clone(),
                amount: cents,
            },
        )
    }

    /// Decodes a whole delimited-text export into normalized transactions.
    ///
    /// The header row must carry the four field names, else the source is
    /// not a recognized export. After that, the decode succeeds if and only
    /// if every row's amount parses; the error names the first data row
    /// (zero-based) whose amount cannot be read.
    pub fn parse_transactions(
        headers: &Vec<String>,
        rows: &Vec<Vec<String>>,
        should_reverse: bool,
        default_date: Date,
    ) -> (r: Result<Vec<Transaction>, BetlError>)
        requires
            default_date.wf(),
        ensures
            match spec_parse_csv(
                headers.deep_view(),
                rows.deep_view(),
                should_reverse,
                default_date,
            ) {
                Ok(ts) => r matches Ok(v) && v.deep_view() == ts && (forall|k: int|
                    0 <= k < ts.len() ==> (#[trigger] ts[k]).wf()),
                Err(e) => r == Err::<Vec<Transaction>, BetlError>(e),
            },
    {
        let ghost hs = headers.deep_view();
        let ghost rs = rows.deep_view();
        let op = match crate::banks::find_header(headers, "Started Date") {
            Some(c) => c,
            None => {
                return Err(BetlError::SourceUnreadable);
            },
        };
        let vd = match crate::banks::find_header(headers, "Completed Date") {
            Some(c) => c,
            None => {
                return Err(BetlError::SourceUnreadable);
            },
        };
        let de = match crate::banks::find_header(headers, "Description") {
            Some(c) => c,
            None => {
                return Err(BetlError::SourceUnreadable);
            },
        };
        let am = match crate::banks::find_header(headers, "Amount") {
            Some(c) => c,
            None => {
                return Err(BetlError::SourceUnreadable);
            },
        };
        let type_col = crate::banks::find_header(headers, "Type");
        let product_col = crate::banks::find_header(headers, "Product");
        let fee_col = crate::banks::find_header(headers, "Fee");
        let currency_col = crate::banks::find_header(headers, "Currency");
        let state_col = crate::banks::find_header(headers, "State");
        let balance_col = crate::banks::find_header(headers, "Balance");
        let mut out: Vec<Transaction> = Vec::new();
        proof {
            assert(out.deep_view() =~= Seq::<TransactionV>::empty());
            assert(rs.take(0) =~= Seq::<Seq<Seq<char>>>::empty());
        }
        let mut i: usize = 0;
        while i < rows.len()
            invariant
                i <= rows@.len(),
                rs == rows.deep_view(),
                default_date.wf(),
                spec_find_header(headers.deep_view(), "Started Date"@) == Some(op as int),
                spec_find_header(headers.deep_view(), "Completed Date"@) == Some(vd as int),
                spec_find_header(headers.deep_view(), "Description"@) == Some(de as int),
                spec_find_header(headers.deep_view(), "Amount"@) == Some(am as int),
                spec_decode_csv_rows(
                    rs.take(i as int),
                    op as int,
                    vd as int,
                    de as int,
                    am as int,
                    default_date,
                ) == Ok::<Seq<TransactionV>, int>(out.deep_view()),
                forall|k: int|
                    0 <= k < out.deep_view().len() ==> (#[trigger] out.deep_view()[k]).wf(),
            decreases rows@.len() - i,
        {
            proof {
                assert(rows@[i as int].deep_view() == rs[i as int]);
            }
            let rec = RevolutTransaction {
                transaction_type: str_at_opt(&rows[i], &type_col),
                product: str_at_opt(&rows[i], &product_col),
                operation_date: str_at(&rows[i], op),
                value_date: str_at(&rows[i], vd),
                description: str_at(&rows[i], de),
                amount: str_at(&rows[i], am),
                fee: str_at_opt(&rows[i], &fee_col),
                currency: str_at_opt(&rows[i], &currency_col),
                state: str_at_opt(&rows[i], &state_col),
                balance: str_at_opt(&rows[i], &balance_col),
            };
            match Self::convert(&rec, default_date) {
                Some(t) => {
                    let ghost prev = out.deep_view();
                    out.push(t);
                    proof {
                        assert(rs.take(i as int + 1).drop_last() =~= rs.take(i as int));
                        assert(rs.take(i as int + 1).last() == rs[i as int]);
                        assert(out.deep_view() =~= prev.push(t@));
                    }
                },
                None => {
                    proof {
                        lemma_decode_csv_rows_first_err(
                            rs,
                            op as int,
                            vd as int,
                            de as int,
                            am as int,
                            default_date,
                            i as int,
                        );
                    }
                    return Err(BetlError::Decode(i));
                },
            }
            i += 1;
        }
        proof {
            assert(rs.take(rows@.len() as int) =~= rs);
        }
        let ghost outv = out.deep_view();
        let res = normalize(out, should_reverse);
        proof {
            if should_reverse {
                assert(res.deep_view() =~= outv.reverse());
            } else {
                assert(res.deep_view() =~= outv);
            }
        }
        Ok(res)
    }
}

/// Reversing twice restores any transaction sequence.
///
/// Law: `normalize(normalize(ts, true), true) == ts`.
pub proof fn lemma_normalize_involution(ts: Seq<Transaction>)
    ensures
        spec_normalize(spec_normalize(ts, true), true) == ts,
{
    assert(ts.reverse().reverse() =~= ts);
}

} // verus!
