//! The `cells` table of a relational backend: one row per cell, with the
//! columns `id` and `genes`. The `genes` column holds the cell's genes as one
//! blob, so that each repository operation stays one statement.
//!
//! This module builds the statement and reads what the backend answered; it
//! holds no connection.

use vstd::prelude::*;
use crate::cell::{cell_views, Cell, CellView};
use crate::error::PersistenceError;
use crate::gene::gene_views;
use crate::genes_blob::{
    blob_genes,
    decode_genes,
    encode_genes,
    genes_blob,
    is_genes_blob,
    law_blob_is_injective,
};
use crate::statement::{persisted, Param, ParamView, Statement, StatementView};

verus! {

/// Inserts one row: `$1` is the identity, `$2` the blob of the genes.
pub const INSERT_CELL: &'static str = "INSERT INTO cells (id, genes) VALUES ($1, $2)";

/// Selects the row with identity `$1`.
pub const SELECT_CELL: &'static str = "SELECT id, genes FROM cells WHERE id = $1";

/// Selects every row.
pub const SELECT_CELLS: &'static str = "SELECT id, genes FROM cells";

/// Deletes the row with identity `$1`.
pub const DELETE_CELL: &'static str = "DELETE FROM cells WHERE id = $1";

/// What is reported of a row whose `genes` column is no blob.
pub const MALFORMED_GENES: &'static str = "the genes column does not hold a collection of genes";

/// The cell that a row of the two columns `(id, genes)` holds, where the
/// second is a blob.
pub open spec fn row_cell(row: (i32, Vec<u8>)) -> CellView {
    CellView { id: row.0, genes: blob_genes(row.1@) }
}

/// The cells that a sequence of rows holds, in order.
pub open spec fn row_cells(rows: Seq<(i32, Vec<u8>)>) -> Seq<CellView> {
    rows.map_values(|row: (i32, Vec<u8>)| row_cell(row))
}

/// Whether the `genes` column of every row is a blob.
pub open spec fn all_well_formed(rows: Seq<(i32, Vec<u8>)>) -> bool {
    forall|i: int| 0 <= i < rows.len() ==> is_genes_blob((#[trigger] rows[i]).1@)
}

/// The statement that saves `cell`.
pub fn insert_cell(cell: &Cell) -> (statement: Statement)
    ensures
        statement@ == (StatementView {
            text: INSERT_CELL@,
            params: seq![ParamView::Int(cell.id), ParamView::Bytes(genes_blob(cell@.genes))],
        }),
{
    let statement = Statement::new(INSERT_CELL).bind(Param::Int(cell.id)).bind(
        Param::Bytes(encode_genes(&cell.genes)),
    );
    assert(statement@.params =~= seq![
        ParamView::Int(cell.id),
        ParamView::Bytes(genes_blob(cell@.genes)),
    ]);
    statement
}

/// The statement that looks up the cell under `id`.
pub fn select_cell(id: i32) -> (statement: Statement)
    ensures
        statement@ == (StatementView { text: SELECT_CELL@, params: seq![ParamView::Int(id)] }),
{
    Statement::new(SELECT_CELL).bind(Param::Int(id))
}

/// The statement that lists every cell.
pub fn select_cells() -> (statement: Statement)
    ensures
        statement@ == (StatementView { text: SELECT_CELLS@, params: Seq::empty() }),
{
    Statement::new(SELECT_CELLS)
}

/// The statement that deletes the cell under `id`. Where no row has that
/// identity it deletes none, which is no failure.
pub fn delete_cell(id: i32) -> (statement: Statement)
    ensures
        statement@ == (StatementView { text: DELETE_CELL@, params: seq![ParamView::Int(id)] }),
{
    Statement::new(DELETE_CELL).bind(Param::Int(id))
}

/// The error for a row whose `genes` column is no blob.
fn malformed_genes() -> (error: PersistenceError)
    ensures
        error.message@ == MALFORMED_GENES@,
{
    PersistenceError { message: MALFORMED_GENES.to_owned() }
}

/// The cell of a row: the first column is its identity, the second decodes
/// to its genes. A second column that is no blob is an error.
pub fn cell_from_row(row: &(i32, Vec<u8>)) -> (cell: Result<Cell, PersistenceError>)
    ensures
        if is_genes_blob(row.1@) {
            cell matches Ok(decoded) && decoded@ == row_cell(*row)
        } else {
            cell matches Err(error) && error.message@ == MALFORMED_GENES@
        },
{
    match decode_genes(row.1.as_slice()) {
        Some(genes) => {
            proof {
                law_blob_is_injective(gene_views(genes@), blob_genes(row.1@));
            }
            Ok(Cell::new(row.0, genes))
        },
        None => Err(malformed_genes()),
    }
}

/// Reads the answer to [`select_cell`]: the cell of the row, `None` where
/// no row came back; an error where the statement failed or the row is
/// malformed.
pub fn cell_found(outcome: Result<Option<(i32, Vec<u8>)>, String>) -> (found: Result<
    Option<Cell>,
    PersistenceError,
>)
    ensures
        match outcome {
            Ok(Some(row)) => if is_genes_blob(row.1@) {
                found matches Ok(Some(cell)) && cell@ == row_cell(row)
            } else {
                found matches Err(error) && error.message@ == MALFORMED_GENES@
            },
            Ok(None) => found == Ok::<Option<Cell>, PersistenceError>(None),
            Err(message) => found == Err::<Option<Cell>, PersistenceError>(
                PersistenceError { message },
            ),
        },
{
    match persisted(outcome) {
        Ok(Some(row)) => match cell_from_row(&row) {
            Ok(cell) => Ok(Some(cell)),
            Err(error) => Err(error),
        },
        Ok(None) => Ok(None),
        Err(error) => Err(error),
    }
}

/// Reads the answer to [`select_cells`]: the cells of the rows, in the order
/// of the rows; an error where the statement failed or a row is malformed.
pub fn cells_listed(outcome: Result<Vec<(i32, Vec<u8>)>, String>) -> (listed: Result<
    Vec<Cell>,
    PersistenceError,
>)
    ensures
        match outcome {
            Ok(rows) => if all_well_formed(rows@) {
                listed matches Ok(cells) && cell_views(cells@) == row_cells(rows@)
            } else {
                listed matches Err(error) && error.message@ == MALFORMED_GENES@
            },
            Err(message) => listed == Err::<Vec<Cell>, PersistenceError>(
                PersistenceError { message },
            ),
        },
{
    match persisted(outcome) {
        Ok(rows) => {
            let mut cells: Vec<Cell> = Vec::new();
            let mut at: usize = 0;
            while at < rows.len()
                invariant
                    outcome == Ok::<Vec<(i32, Vec<u8>)>, String>(rows),
                    at <= rows@.len(),
                    cells@.len() == at,
                    forall|i: int| 0 <= i < at ==> is_genes_blob((#[trigger] rows@[i]).1@),
                    forall|i: int| 0 <= i < at ==> (#[trigger] cells@[i])@ == row_cell(rows@[i]),
                decreases rows@.len() - at,
            {
                match cell_from_row(&rows[at]) {
                    Ok(cell) => cells.push(cell),
                    Err(error) => return Err(error),
                }
                at = at + 1;
            }
            Ok(cells)
        },
        Err(error) => Err(error),
    }
}

} // verus!
