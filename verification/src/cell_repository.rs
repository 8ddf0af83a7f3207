//! The contract of a cell repository, and the table it is stated over.
//!
//! A cell repository is modelled as a gene repository is: by the map from a
//! cell's identity to what is stored under it, here the cell's genes in
//! order.

use vstd::prelude::*;
use crate::cell::{cell_views, Cell, CellView};
use crate::error::PersistenceError;
use crate::gene::GeneView;

verus! {

/// The table of a cell repository: a cell's genes by its identity.
pub type CellRecords = Map<i32, Seq<GeneView>>;

/// What a lookup of `id` finds in `records`.
pub open spec fn stored_cell(records: CellRecords, id: i32) -> Option<CellView> {
    if records.dom().contains(id) {
        Some(CellView { id, genes: records[id] })
    } else {
        None
    }
}

/// `records` after `cell` was saved.
pub open spec fn with_cell(records: CellRecords, cell: CellView) -> CellRecords {
    records.insert(cell.id, cell.genes)
}

/// `records` after the entry under `id` was deleted.
pub open spec fn without_cell(records: CellRecords, id: i32) -> CellRecords {
    records.remove(id)
}

/// The cells that `records` holds, as a set.
pub open spec fn cell_set(records: CellRecords) -> Set<CellView> {
    Set::new(|cell: CellView| records.contains_pair(cell.id, cell.genes))
}

/// `listing` enumerates `records`: every stored cell occurs in it, once, and
/// nothing else does. The order is left open.
pub open spec fn lists_cells(records: CellRecords, listing: Seq<CellView>) -> bool {
    listing.no_duplicates() && listing.to_set() == cell_set(records)
}

/// The view of a lookup's result.
pub open spec fn found_cell_view(found: Option<Cell>) -> Option<CellView> {
    match found {
        Some(cell) => Some(cell@),
        None => None,
    }
}

/// Storage for cells, keyed by identity.
///
/// The contract has the shape of the gene repository's: it is stated over
/// [`CellRepository::records`], promises success only of a repository that
/// is [`CellRepository::infallible`], and keeps absence apart from failure.
/// An implementation that is not itself verified is taken at its word.
pub trait CellRepository: Sized {
    /// The table this repository stands for: a cell's genes by its identity.
    spec fn records(&self) -> CellRecords;

    /// Whether every operation on this repository succeeds.
    spec fn infallible(&self) -> bool;

    /// Stores `cell` under its identity, replacing what was there.
    fn save_cell(&mut self, cell: &Cell) -> (outcome: Result<(), PersistenceError>)
        ensures
            final(self).infallible() == old(self).infallible(),
            old(self).infallible() ==> outcome is Ok,
            outcome is Ok ==> final(self).records() == with_cell(old(self).records(), cell@),
            outcome is Err ==> final(self).records() == old(self).records(),
    ;

    /// Looks up the cell stored under `id`.
    fn find_cell_by_id(&self, id: i32) -> (outcome: Result<Option<Cell>, PersistenceError>)
        ensures
            self.infallible() ==> outcome is Ok,
            outcome matches Ok(found) ==> found_cell_view(found) == stored_cell(
                self.records(),
                id,
            ),
    ;

    /// Lists every stored cell, in no particular order.
    fn find_all_cells(&self) -> (outcome: Result<Vec<Cell>, PersistenceError>)
        ensures
            self.infallible() ==> outcome is Ok,
            outcome matches Ok(cells) ==> lists_cells(self.records(), cell_views(cells@)),
    ;

    /// Removes the cell stored under `id`. An identity that is not stored
    /// is deleted like any other: nothing changes, and that is no failure.
    fn delete_cell(&mut self, id: i32) -> (outcome: Result<(), PersistenceError>)
        ensures
            final(self).infallible() == old(self).infallible(),
            old(self).infallible() ==> outcome is Ok,
            outcome is Ok ==> final(self).records() == without_cell(old(self).records(), id),
            outcome is Err ==> final(self).records() == old(self).records(),
    ;
}

} // verus!
