//! Type-directed projection of fetched rows into JSON-ready values.
//!
//! The datastore driver reports, per result column, a declared type
//! category, and per cell the outcome of one typed read attempt for each
//! supported type. The projector turns every cell into a JSON-compatible
//! value by its column's category, with a fixed fallback chain for columns
//! whose category the driver does not know.
use vstd::prelude::*;

use crate::hexcode::hex_encode;
use crate::hexcode::hex_of;
use crate::json::JsonModel;
use crate::json::JsonValue;

verus! {

/// The declared type category of one result column, as the driver reports it.
#[derive(PartialEq, Eq, Structural, Clone, Copy, Debug)]
pub enum ColumnKind {
    Bool,
    SmallInt,
    Integer,
    BigInt,
    Real,
    Double,
    Text,
    Blob,
    Null,
}

/// What the driver could read of one cell: one attempt per supported type,
/// `None` where the driver refused that conversion. A floating reading is
/// carried as its bit pattern.
#[derive(Debug)]
pub struct CellReads {
    pub as_bool: Option<bool>,
    pub as_int: Option<i64>,
    pub as_float: Option<u64>,
    pub as_text: Option<String>,
    pub as_blob: Option<Vec<u8>>,
}

/// The mathematical model of `CellReads`.
pub struct CellReadsModel {
    pub as_bool: Option<bool>,
    pub as_int: Option<int>,
    pub as_float: Option<u64>,
    pub as_text: Option<Seq<char>>,
    pub as_blob: Option<Seq<u8>>,
}

impl View for CellReads {
    type V = CellReadsModel;

    open spec fn view(&self) -> CellReadsModel {
        CellReadsModel {
            as_bool: self.as_bool,
            as_int: match self.as_int {
                Some(i) => Some(i as int),
                None => None,
            },
            as_float: self.as_float,
            as_text: match self.as_text {
                Some(s) => Some(s@),
                None => None,
            },
            as_blob: match self.as_blob {
                Some(b) => Some(b@),
                None => None,
            },
        }
    }
}

/// One cell of one fetched row: the column's name and declared category,
/// and the driver's readings of the stored value.
#[derive(Debug)]
pub struct QueryCell {
    pub name: String,
    pub kind: ColumnKind,
    pub reads: CellReads,
}

/// The mathematical model of `QueryCell`.
pub struct QueryCellModel {
    pub name: Seq<char>,
    pub kind: ColumnKind,
    pub reads: CellReadsModel,
}

impl View for QueryCell {
    type V = QueryCellModel;

    open spec fn view(&self) -> QueryCellModel {
        QueryCellModel { name: self.name@, kind: self.kind, reads: self.reads@ }
    }
}

/// The value of a cell in a column of unknown category: the first reading
/// that succeeded, tried as boolean, then text, then integer, then binary
/// rendered as hex; JSON null when every attempt failed.
pub open spec fn fallback_value(c: CellReadsModel) -> JsonModel {
    if c.as_bool is Some {
        JsonModel::Bool(c.as_bool->0)
    } else if c.as_text is Some {
        JsonModel::Str(c.as_text->0)
    } else if c.as_int is Some {
        JsonModel::Int(c.as_int->0)
    } else if c.as_blob is Some {
        JsonModel::Str(hex_of(c.as_blob->0))
    } else {
        JsonModel::Null
    }
}

/// The JSON value of one cell, directed by its column's declared category.
/// A failed reading of a typed column degrades that one cell to JSON null.
pub open spec fn cell_value(kind: ColumnKind, c: CellReadsModel) -> JsonModel {
    match kind {
        ColumnKind::Bool => match c.as_bool {
            Some(b) => JsonModel::Bool(b),
            None => JsonModel::Null,
        },
        ColumnKind::SmallInt | ColumnKind::Integer | ColumnKind::BigInt => match c.as_int {
            Some(i) => JsonModel::Int(i),
            None => JsonModel::Null,
        },
        ColumnKind::Real | ColumnKind::Double => match c.as_float {
            Some(bits) => JsonModel::Float(bits),
            None => JsonModel::Null,
        },
        ColumnKind::Text => match c.as_text {
            Some(s) => JsonModel::Str(s),
            None => JsonModel::Null,
        },
        ColumnKind::Blob => match c.as_blob {
            Some(b) => JsonModel::Str(hex_of(b)),
            None => JsonModel::Null,
        },
        ColumnKind::Null => fallback_value(c),
    }
}

/// Convert one cell by its column's declared category.
pub fn convert_cell(kind: ColumnKind, reads: &CellReads) -> (r: JsonValue)
    ensures
        r@ == cell_value(kind, reads@),
{
    match kind {
        ColumnKind::Bool => match reads.as_bool {
            Some(b) => JsonValue::Bool(b),
            None => JsonValue::Null,
        },
        ColumnKind::SmallInt | ColumnKind::Integer | ColumnKind::BigInt => match reads.as_int {
            Some(i) => JsonValue::Int(i),
            None => JsonValue::Null,
        },
        ColumnKind::Real | ColumnKind::Double => match reads.as_float {
            Some(bits) => JsonValue::Float(bits),
            None => JsonValue::Null,
        },
        ColumnKind::Text => match &reads.as_text {
            Some(s) => JsonValue::Str(s.clone()),
            None => JsonValue::Null,
        },
        ColumnKind::Blob => match &reads.as_blob {
            Some(b) => JsonValue::Str(hex_encode(b)),
            None => JsonValue::Null,
        },
        ColumnKind::Null => {
            if let Some(b) = reads.as_bool {
                JsonValue::Bool(b)
            } else if let Some(s) = &reads.as_text {
                JsonValue::Str(s.clone())
            } else if let Some(i) = reads.as_int {
                JsonValue::Int(i)
            } else if let Some(b) = &reads.as_blob {
                JsonValue::Str(hex_encode(b))
            } else {
                JsonValue::Null
            }
        },
    }
}

/// Column names with positionally aligned JSON rows.
#[derive(Debug)]
pub struct QueryResult {
    pub cols: Vec<String>,
    pub rows: Vec<Vec<JsonValue>>,
}

/// The mathematical model of a `QueryResult`.
pub struct QueryResultModel {
    pub cols: Seq<Seq<char>>,
    pub rows: Seq<Seq<JsonModel>>,
}

impl View for QueryResult {
    type V = QueryResultModel;

    open spec fn view(&self) -> QueryResultModel {
        QueryResultModel {
            cols: self.cols@.map_values(|s: String| s@),
            rows: self.rows@.map_values(|r: Vec<JsonValue>| r@.map_values(|v: JsonValue| v@)),
        }
    }
}

/// The models of fetched rows.
pub open spec fn rows_model(rows: Seq<Vec<QueryCell>>) -> Seq<Seq<QueryCellModel>> {
    rows.map_values(|r: Vec<QueryCell>| r@.map_values(|c: QueryCell| c@))
}

/// The column names a result carries: those of the first row, in declared
/// order; none at all when no row came back.
pub open spec fn projected_cols(rows: Seq<Seq<QueryCellModel>>) -> Seq<Seq<char>> {
    if rows.len() == 0 {
        Seq::empty()
    } else {
        rows[0].map_values(|c: QueryCellModel| c.name)
    }
}

/// Every row projected cell by cell through `cell_value`.
pub open spec fn projected_rows(rows: Seq<Seq<QueryCellModel>>) -> Seq<Seq<JsonModel>> {
    rows.map_values(
        |row: Seq<QueryCellModel>| row.map_values(|c: QueryCellModel| cell_value(c.kind, c.reads)),
    )
}

/// Project fetched rows into a JSON-ready result: the column names come from
/// the first row, every cell is converted by its column's declared category,
/// and an empty fetch yields empty column and row lists, never an error.
pub fn project_rows(rows: &Vec<Vec<QueryCell>>) -> (r: QueryResult)
    ensures
        r@.cols == projected_cols(rows_model(rows@)),
        r@.rows == projected_rows(rows_model(rows@)),
{
    let ghost m = rows_model(rows@);
    if rows.len() == 0 {
        let r = QueryResult { cols: Vec::new(), rows: Vec::new() };
        proof {
            assert(r@.cols =~= projected_cols(m));
            assert(r@.rows =~= projected_rows(m));
        }
        return r;
    }
    let first = &rows[0];
    let mut cols: Vec<String> = Vec::new();
    let mut j: usize = 0;
    while j < first.len()
        invariant
            0 < rows@.len(),
            m == rows_model(rows@),
            first@ == rows@[0]@,
            j <= first@.len(),
            cols@.len() == j,
            forall|jj: int| 0 <= jj < j ==> #[trigger] cols@[jj]@ == m[0][jj].name,
        decreases first@.len() - j,
    {
        cols.push(first[j].name.clone());
        j = j + 1;
    }
    let mut out_rows: Vec<Vec<JsonValue>> = Vec::new();
    let mut i: usize = 0;
    while i < rows.len()
        invariant
            m == rows_model(rows@),
            i <= rows@.len(),
            out_rows@.len() == i,
            forall|ii: int| 0 <= ii < i ==> #[trigger] out_rows@[ii]@.len() == m[ii].len(),
            forall|ii: int, kk: int|
                0 <= ii < i && 0 <= kk < m[ii].len() ==> #[trigger] out_rows@[ii]@[kk]@
                    == cell_value(m[ii][kk].kind, m[ii][kk].reads),
        decreases rows@.len() - i,
    {
        let row = &rows[i];
        let mut out_row: Vec<JsonValue> = Vec::new();
        let mut k: usize = 0;
        while k < row.len()
            invariant
                m == rows_model(rows@),
                i < rows@.len(),
                row@ == rows@[i as int]@,
                k <= row@.len(),
                out_row@.len() == k,
                forall|kk: int|
                    0 <= kk < k ==> #[trigger] out_row@[kk]@ == cell_value(
                        m[i as int][kk].kind,
                        m[i as int][kk].reads,
                    ),
            decreases row@.len() - k,
        {
            let cell = &row[k];
            let converted = convert_cell(cell.kind, &cell.reads);
            out_row.push(converted);
            k = k + 1;
        }
        out_rows.push(out_row);
        i = i + 1;
    }
    let r = QueryResult { cols, rows: out_rows };
    proof {
        assert(r@.cols =~= projected_cols(m));
        assert forall|ii: int| 0 <= ii < m.len() implies r@.rows[ii] =~= projected_rows(m)[ii] by {
            assert(r@.rows[ii] == out_rows@[ii]@.map_values(|v: JsonValue| v@));
        }
        assert(r@.rows =~~= projected_rows(m));
    }
    r
}

} // verus!
