//! The contract of a gene repository, and the table it is stated over.
//!
//! A repository is modelled by the table it stands for: a map from a gene's
//! identity to its sequence. Saving writes one entry, deleting removes one,
//! a lookup reads one, and a listing enumerates them all. The laws at the end
//! of this file are consequences of that model; they hold of every repository
//! that meets the contract.

use vstd::prelude::*;
use crate::error::PersistenceError;
use crate::gene::{gene_views, Gene, GeneView};

verus! {

/// The table of a gene repository: sequence by identity.
pub type GeneRecords = Map<i32, Seq<char>>;

/// What a lookup of `id` finds in `records`.
pub open spec fn stored_gene(records: GeneRecords, id: i32) -> Option<GeneView> {
    if records.dom().contains(id) {
        Some(GeneView { id, sequence: records[id] })
    } else {
        None
    }
}

/// `records` after `gene` was saved: the entry under its identity is written,
/// whether or not there was one before.
pub open spec fn with_gene(records: GeneRecords, gene: GeneView) -> GeneRecords {
    records.insert(gene.id, gene.sequence)
}

/// `records` after the entry under `id` was deleted. Where there was none,
/// nothing changes.
pub open spec fn without_gene(records: GeneRecords, id: i32) -> GeneRecords {
    records.remove(id)
}

/// The genes that `records` holds, as a set.
pub open spec fn gene_set(records: GeneRecords) -> Set<GeneView> {
    Set::new(|gene: GeneView| records.contains_pair(gene.id, gene.sequence))
}

/// `listing` enumerates `records`: every stored gene occurs in it, once, and
/// nothing else does. The order is left open.
pub open spec fn lists_genes(records: GeneRecords, listing: Seq<GeneView>) -> bool {
    listing.no_duplicates() && listing.to_set() == gene_set(records)
}

/// The view of a lookup's result.
pub open spec fn found_view(found: Option<Gene>) -> Option<GeneView> {
    match found {
        Some(gene) => Some(gene@),
        None => None,
    }
}

/// Storage for genes, keyed by identity.
///
/// An implementation binds these four operations to one backend. The
/// contract is stated over [`GeneRepository::records`], the table that the
/// repository stands for. A backend may fail at any call, so no operation
/// promises success, except on a repository that declares itself
/// [`GeneRepository::infallible`]. A failed write leaves the table as it was.
/// A lookup that fails says so: an absent gene is `Ok(None)`, never an error,
/// and an error is never reported as absence.
///
/// What is proved of the use cases is proved from this contract. It holds of
/// an implementation as far as that implementation keeps the contract; one
/// that is not itself verified is taken at its word.
pub trait GeneRepository: Sized {
    /// The table this repository stands for: sequence by identity.
    spec fn records(&self) -> GeneRecords;

    /// Whether every operation on this repository succeeds. An in-memory
    /// store does; a store behind a network does not.
    spec fn infallible(&self) -> bool;

    /// Stores `gene` under its identity, replacing what was there.
    fn save_gene(&mut self, gene: &Gene) -> (outcome: Result<(), PersistenceError>)
        ensures
            final(self).infallible() == old(self).infallible(),
            old(self).infallible() ==> outcome is Ok,
            outcome is Ok ==> final(self).records() == with_gene(old(self).records(), gene@),
            outcome is Err ==> final(self).records() == old(self).records(),
    ;

    /// Looks up the gene stored under `id`.
    fn find_gene_by_id(&self, id: i32) -> (outcome: Result<Option<Gene>, PersistenceError>)
        ensures
            self.infallible() ==> outcome is Ok,
            outcome matches Ok(found) ==> found_view(found) == stored_gene(self.records(), id),
    ;

    /// Lists every stored gene, in no particular order.
    fn find_all_genes(&self) -> (outcome: Result<Vec<Gene>, PersistenceError>)
        ensures
            self.infallible() ==> outcome is Ok,
            outcome matches Ok(genes) ==> lists_genes(self.records(), gene_views(genes@)),
    ;

    /// Removes the gene stored under `id`. An identity that is not stored
    /// is deleted like any other: nothing changes, and that is no failure.
    fn delete_gene(&mut self, id: i32) -> (outcome: Result<(), PersistenceError>)
        ensures
            final(self).infallible() == old(self).infallible(),
            old(self).infallible() ==> outcome is Ok,
            outcome is Ok ==> final(self).records() == without_gene(old(self).records(), id),
            outcome is Err ==> final(self).records() == old(self).records(),
    ;
}

/// One change to a gene table.
pub enum GeneEdit {
    /// The gene was saved.
    Save(GeneView),
    /// The entry under the identity was deleted.
    Delete(i32),
}

/// `records` after one change.
pub open spec fn after_edit(records: GeneRecords, edit: GeneEdit) -> GeneRecords {
    match edit {
        GeneEdit::Save(gene) => with_gene(records, gene),
        GeneEdit::Delete(id) => without_gene(records, id),
    }
}

/// `records` after a history of changes, the first of them first.
pub open spec fn after_edits(records: GeneRecords, edits: Seq<GeneEdit>) -> GeneRecords
    decreases edits.len(),
{
    if edits.len() == 0 {
        records
    } else {
        after_edit(after_edits(records, edits.drop_last()), edits.last())
    }
}

/// The history that saves each of `genes`, the first of them first, and
/// does nothing else.
pub open spec fn saves(genes: Seq<GeneView>) -> Seq<GeneEdit> {
    genes.map_values(|gene: GeneView| GeneEdit::Save(gene))
}

/// No two of `genes` share an identity.
pub open spec fn distinct_ids(genes: Seq<GeneView>) -> bool {
    forall|i: int, j: int|
        0 <= i < j < genes.len() ==> (#[trigger] genes[i]).id != (#[trigger] genes[j]).id
}

/// A gene that was saved is found under its identity, with the sequence it
/// was saved with, whatever the table held before.
pub proof fn law_saved_gene_is_found(records: GeneRecords, gene: GeneView)
    ensures
        stored_gene(with_gene(records, gene), gene.id) == Some(gene),
{
}

/// An identity that no change of a history saved is absent after it,
/// starting from the empty table, whatever else was saved or deleted.
pub proof fn law_unsaved_gene_is_absent(edits: Seq<GeneEdit>, id: i32)
    requires
        forall|i: int|
            0 <= i < edits.len() ==> !(#[trigger] edits[i] matches GeneEdit::Save(gene)
                && gene.id == id),
    ensures
        stored_gene(after_edits(Map::empty(), edits), id) is None,
    decreases edits.len(),
{
    if edits.len() > 0 {
        let earlier = edits.drop_last();
        assert forall|i: int| 0 <= i < earlier.len() implies !(#[trigger] earlier[i] matches GeneEdit::Save(
            gene,
        ) && gene.id == id) by {
            assert(earlier[i] == edits[i]);
        }
        law_unsaved_gene_is_absent(earlier, id);
    }
}

/// A gene that was deleted is absent, whether or not it was stored.
pub proof fn law_deleted_gene_is_absent(records: GeneRecords, id: i32)
    ensures
        stored_gene(without_gene(records, id), id) is None,
{
}

/// Deleting twice is deleting once: the second deletion finds nothing and
/// changes nothing.
pub proof fn law_delete_is_idempotent(records: GeneRecords, id: i32)
    ensures
        without_gene(without_gene(records, id), id) == without_gene(records, id),
{
}

/// Saving genes with distinct identities into the empty table stores
/// exactly those genes.
pub proof fn lemma_saves_store_exactly(genes: Seq<GeneView>)
    requires
        distinct_ids(genes),
    ensures
        gene_set(after_edits(Map::empty(), saves(genes))) == genes.to_set(),
    decreases genes.len(),
{
    if genes.len() > 0 {
        let stored = gene_set(after_edits(Map::empty(), saves(genes)));
        let earlier = genes.drop_last();
        let before = gene_set(after_edits(Map::empty(), saves(earlier)));
        assert(saves(genes).drop_last() =~= saves(earlier));
        assert(distinct_ids(earlier)) by {
            assert forall|i: int, j: int| 0 <= i < j < earlier.len() implies (
            #[trigger] earlier[i]).id != (#[trigger] earlier[j]).id by {
                assert(genes[i].id != genes[j].id);
            }
        }
        lemma_saves_store_exactly(earlier);
        assert forall|gene: GeneView| stored.contains(gene) <==> genes.to_set().contains(gene) by {
            if stored.contains(gene) && gene != genes.last() {
                assert(before.contains(gene));
            }
            if genes.to_set().contains(gene) {
                let i = choose|i: int| 0 <= i < genes.len() && genes[i] == gene;
                if i < earlier.len() {
                    assert(earlier[i] == gene);
                    assert(before.contains(gene));
                }
            }
        }
    }
}

/// A listing taken after genes with distinct identities were saved into the
/// empty table holds exactly those genes: as many as were saved, and the
/// same set of identity and sequence.
pub proof fn law_listing_after_saves(genes: Seq<GeneView>, listing: Seq<GeneView>)
    requires
        distinct_ids(genes),
        lists_genes(after_edits(Map::empty(), saves(genes)), listing),
    ensures
        listing.len() == genes.len(),
        listing.to_set() == genes.to_set(),
{
    lemma_saves_store_exactly(genes);
    assert(genes.no_duplicates());
    genes.unique_seq_to_set();
    listing.unique_seq_to_set();
}

} // verus!
