//! The gene use cases: create, view, list, remove.

use vstd::prelude::*;
use crate::error::PersistenceError;
use crate::gene::{gene_views, Gene, GeneView};
use crate::gene_repository::{
    found_view,
    lists_genes,
    stored_gene,
    with_gene,
    without_gene,
    GeneRecords,
    GeneRepository,
};

verus! {

/// The gene use cases over any repository.
///
/// Each operation is one repository call; its outcome is handed back as it
/// came. Nothing is validated, retried or coordinated here.
pub struct ManageGenes<R: GeneRepository> {
    repository: R,
}

impl<R: GeneRepository> ManageGenes<R> {
    /// The repository that the use cases work on.
    pub closed spec fn repository(&self) -> R {
        self.repository
    }

    /// The table of the repository.
    pub open spec fn records(&self) -> GeneRecords {
        self.repository().records()
    }

    /// Whether the repository never fails.
    pub open spec fn infallible(&self) -> bool {
        self.repository().infallible()
    }

    /// Puts the use cases on top of `repository`.
    pub fn new(repository: R) -> (use_case: Self)
        ensures
            use_case.repository() == repository,
    {
        Self { repository }
    }

    /// Takes the use cases off the repository and hands it back.
    pub fn into_repository(self) -> (repository: R)
        ensures
            repository == self.repository(),
    {
        self.repository
    }

    /// Builds the gene `(id, sequence)` and saves it. The outcome is the
    /// repository's own, untouched.
    ///
    /// On success the table holds the gene under `id`, over what was there;
    /// on failure the table is as it was.
    pub fn create_gene(&mut self, id: i32, sequence: String) -> (outcome: Result<
        (),
        PersistenceError,
    >)
        ensures
            exists|target: &mut R|
                {
                    &&& *target == old(self).repository()
                    &&& *final(target) == final(self).repository()
                    &&& #[trigger] call_ensures(
                        R::save_gene,
                        (target, &Gene { id, sequence }),
                        outcome,
                    )
                },
            final(self).infallible() == old(self).infallible(),
            old(self).infallible() ==> outcome is Ok,
            outcome is Ok ==> final(self).records() == with_gene(
                old(self).records(),
                GeneView { id, sequence: sequence@ },
            ),
            outcome is Err ==> final(self).records() == old(self).records(),
    {
        let gene = Gene::new(id, sequence);
        self.repository.save_gene(&gene)
    }

    /// Looks up the gene stored under `id`: `Ok(None)` where there is none.
    /// The outcome is the repository's own, untouched.
    pub fn view_gene(&self, id: i32) -> (outcome: Result<Option<Gene>, PersistenceError>)
        ensures
            call_ensures(R::find_gene_by_id, (&self.repository(), id), outcome),
            self.infallible() ==> outcome is Ok,
            outcome matches Ok(found) ==> found_view(found) == stored_gene(self.records(), id),
    {
        self.repository.find_gene_by_id(id)
    }

    /// Lists every stored gene, in no particular order. The outcome is the
    /// repository's own, untouched.
    pub fn view_all_genes(&self) -> (outcome: Result<Vec<Gene>, PersistenceError>)
        ensures
            call_ensures(R::find_all_genes, (&self.repository(),), outcome),
            self.infallible() ==> outcome is Ok,
            outcome matches Ok(genes) ==> lists_genes(self.records(), gene_views(genes@)),
    {
        self.repository.find_all_genes()
    }

    /// Removes the gene stored under `id`. What is not stored is removed
    /// like anything else: nothing changes, and that is no failure. The
    /// outcome is the repository's own, untouched.
    pub fn remove_gene(&mut self, id: i32) -> (outcome: Result<(), PersistenceError>)
        ensures
            exists|target: &mut R|
                {
                    &&& *target == old(self).repository()
                    &&& *final(target) == final(self).repository()
                    &&& #[trigger] call_ensures(R::delete_gene, (target, id), outcome)
                },
            final(self).infallible() == old(self).infallible(),
            old(self).infallible() ==> outcome is Ok,
            outcome is Ok ==> final(self).records() == without_gene(old(self).records(), id),
            outcome is Err ==> final(self).records() == old(self).records(),
    {
        self.repository.delete_gene(id)
    }
}

} // verus!
