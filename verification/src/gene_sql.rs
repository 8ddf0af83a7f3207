//! The `genes` table of a relational backend: one row per gene, with the
//! columns `id` and `sequence`, which map one for one to the gene's fields.
//!
//! Each repository operation is one statement. This module builds the
//! statement and reads what the backend answered; it holds no connection.

use vstd::prelude::*;
use crate::error::PersistenceError;
use crate::gene::{gene_views, Gene, GeneView};
use crate::statement::{persisted, Param, ParamView, Statement, StatementView};

verus! {

/// Inserts one row: `$1` is the identity, `$2` the sequence.
pub const INSERT_GENE: &'static str = "INSERT INTO genes (id, sequence) VALUES ($1, $2)";

/// Selects the row with identity `$1`.
pub const SELECT_GENE: &'static str = "SELECT id, sequence FROM genes WHERE id = $1";

/// Selects every row.
pub const SELECT_GENES: &'static str = "SELECT id, sequence FROM genes";

/// Deletes the row with identity `$1`.
pub const DELETE_GENE: &'static str = "DELETE FROM genes WHERE id = $1";

/// The gene that a row of the two columns `(id, sequence)` holds.
pub open spec fn row_gene(row: (i32, String)) -> GeneView {
    GeneView { id: row.0, sequence: row.1@ }
}

/// The genes that a sequence of rows holds, in order.
pub open spec fn row_genes(rows: Seq<(i32, String)>) -> Seq<GeneView> {
    rows.map_values(|row: (i32, String)| row_gene(row))
}

/// The statement that saves `gene`.
pub fn insert_gene(gene: &Gene) -> (statement: Statement)
    ensures
        statement@ == (StatementView {
            text: INSERT_GENE@,
            params: seq![ParamView::Int(gene.id), ParamView::Text(gene.sequence@)],
        }),
{
    let statement = Statement::new(INSERT_GENE).bind(Param::Int(gene.id)).bind(
        Param::Text(gene.sequence.clone()),
    );
    assert(statement@.params =~= seq![ParamView::Int(gene.id), ParamView::Text(gene.sequence@)]);
    statement
}

/// The statement that looks up the gene under `id`.
pub fn select_gene(id: i32) -> (statement: Statement)
    ensures
        statement@ == (StatementView { text: SELECT_GENE@, params: seq![ParamView::Int(id)] }),
{
    Statement::new(SELECT_GENE).bind(Param::Int(id))
}

/// The statement that lists every gene.
pub fn select_genes() -> (statement: Statement)
    ensures
        statement@ == (StatementView { text: SELECT_GENES@, params: Seq::empty() }),
{
    Statement::new(SELECT_GENES)
}

/// The statement that deletes the gene under `id`. Where no row has that
/// identity it deletes none, which is no failure.
pub fn delete_gene(id: i32) -> (statement: Statement)
    ensures
        statement@ == (StatementView { text: DELETE_GENE@, params: seq![ParamView::Int(id)] }),
{
    Statement::new(DELETE_GENE).bind(Param::Int(id))
}

/// The gene of a row: the first column is its identity, the second its
/// sequence.
pub fn gene_from_row(row: &(i32, String)) -> (gene: Gene)
    ensures
        gene@ == row_gene(*row),
{
    Gene::new(row.0, row.1.clone())
}

/// Reads the answer to [`select_gene`]: the gene of the row, `None` where
/// no row came back, the failure where the statement failed.
pub fn gene_found(outcome: Result<Option<(i32, String)>, String>) -> (found: Result<
    Option<Gene>,
    PersistenceError,
>)
    ensures
        match outcome {
            Ok(Some(row)) => found matches Ok(Some(gene)) && gene@ == row_gene(row),
            Ok(None) => found == Ok::<Option<Gene>, PersistenceError>(None),
            Err(message) => found == Err::<Option<Gene>, PersistenceError>(
                PersistenceError { message },
            ),
        },
{
    match persisted(outcome) {
        Ok(Some(row)) => Ok(Some(gene_from_row(&row))),
        Ok(None) => Ok(None),
        Err(error) => Err(error),
    }
}

/// Reads the answer to [`select_genes`]: the genes of the rows, in the order
/// of the rows, or the failure.
pub fn genes_listed(outcome: Result<Vec<(i32, String)>, String>) -> (listed: Result<
    Vec<Gene>,
    PersistenceError,
>)
    ensures
        match outcome {
            Ok(rows) => listed matches Ok(genes) && gene_views(genes@) == row_genes(rows@),
            Err(message) => listed == Err::<Vec<Gene>, PersistenceError>(
                PersistenceError { message },
            ),
        },
{
    match persisted(outcome) {
        Ok(rows) => {
            let mut genes: Vec<Gene> = Vec::new();
            let mut at: usize = 0;
            while at < rows.len()
                invariant
                    at <= rows@.len(),
                    genes@.len() == at,
                    forall|i: int| 0 <= i < at ==> (#[trigger] genes@[i])@ == row_gene(rows@[i]),
                decreases rows@.len() - at,
            {
                genes.push(gene_from_row(&rows[at]));
                at = at + 1;
            }
            Ok(genes)
        },
        Err(error) => Err(error),
    }
}

} // verus!
