//! The cell use case: simulate.

use vstd::prelude::*;
use crate::cell::{cell_views, Cell};
use crate::cell_repository::{lists_cells, CellRecords, CellRepository};
use crate::error::PersistenceError;

verus! {

/// The cell use case over any repository.
pub struct SimulateCells<R: CellRepository> {
    repository: R,
}

impl<R: CellRepository> SimulateCells<R> {
    /// The repository that the use case works on.
    pub closed spec fn repository(&self) -> R {
        self.repository
    }

    /// The table of the repository.
    pub open spec fn records(&self) -> CellRecords {
        self.repository().records()
    }

    /// Whether the repository never fails.
    pub open spec fn infallible(&self) -> bool {
        self.repository().infallible()
    }

    /// Puts the use case on top of `repository`.
    pub fn new(repository: R) -> (use_case: Self)
        ensures
            use_case.repository() == repository,
    {
        Self { repository }
    }

    /// Takes the use case off the repository and hands it back.
    pub fn into_repository(self) -> (repository: R)
        ensures
            repository == self.repository(),
    {
        self.repository
    }

    /// The cells of a simulation run: every stored cell, as stored, in no
    /// particular order. The outcome is the repository's own, untouched.
    pub fn simulate(&self) -> (outcome: Result<Vec<Cell>, PersistenceError>)
        ensures
            call_ensures(R::find_all_cells, (&self.repository(),), outcome),
            self.infallible() ==> outcome is Ok,
            outcome matches Ok(cells) ==> lists_cells(self.records(), cell_views(cells@)),
    {
        self.repository.find_all_cells()
    }
}

} // verus!
