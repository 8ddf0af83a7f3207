//! Repositories that keep their table in memory.
//!
//! They never fail, so every law of the repository contract can be observed
//! on them without a backend.

use vstd::prelude::*;
use crate::cell::{cell_views, clone_genes, Cell, CellView};
use crate::cell_repository::{
    cell_set,
    lists_cells,
    with_cell,
    without_cell,
    CellRecords,
    CellRepository,
};
use crate::error::PersistenceError;
use crate::gene::{gene_views, Gene, GeneView};
use crate::gene_repository::{
    gene_set,
    lists_genes,
    with_gene,
    without_gene,
    GeneRecords,
    GeneRepository,
};
use crate::memory_table::{
    distinct_keys,
    key_index,
    lemma_entry_is_mapped,
    map_of,
    MemoryTable,
};

verus! {

/// The gene table that a table of sequence texts stands for.
spec fn sequences(texts: Map<i32, String>) -> GeneRecords {
    texts.map_values(|text: String| text@)
}

/// The genes that a sequence of entries holds, in order.
spec fn entry_genes(entries: Seq<(i32, String)>) -> Seq<GeneView> {
    entries.map_values(|entry: (i32, String)| GeneView { id: entry.0, sequence: entry.1@ })
}

/// The genes of a well-formed sequence of entries enumerate its table.
proof fn lemma_entries_list_genes(entries: Seq<(i32, String)>)
    requires
        distinct_keys(entries),
    ensures
        lists_genes(sequences(map_of(entries)), entry_genes(entries)),
{
    let records = sequences(map_of(entries));
    let listing = entry_genes(entries);
    assert(listing.no_duplicates());
    assert forall|gene: GeneView| listing.to_set().contains(gene) <==> gene_set(records).contains(
        gene,
    ) by {
        if listing.to_set().contains(gene) {
            let i = choose|i: int| 0 <= i < listing.len() && listing[i] == gene;
            lemma_entry_is_mapped(entries, i);
        }
        if gene_set(records).contains(gene) {
            let i = key_index(entries, gene.id);
            lemma_entry_is_mapped(entries, i);
            assert(listing[i] == gene);
        }
    }
    assert(listing.to_set() =~= gene_set(records));
}

/// A gene repository in memory. It starts empty and never fails.
pub struct InMemoryGeneRepository {
    table: MemoryTable<String>,
}

impl InMemoryGeneRepository {
    #[verifier::type_invariant]
    spec fn table_is_well_formed(self) -> bool {
        self.table.wf()
    }

    /// An empty repository.
    pub fn new() -> (repository: Self)
        ensures
            repository.records() == GeneRecords::empty(),
            repository.infallible(),
    {
        InMemoryGeneRepository { table: MemoryTable::new() }
    }
}

impl GeneRepository for InMemoryGeneRepository {
    closed spec fn records(&self) -> GeneRecords {
        sequences(self.table@)
    }

    open spec fn infallible(&self) -> bool {
        true
    }

    fn save_gene(&mut self, gene: &Gene) -> (outcome: Result<(), PersistenceError>) {
        proof {
            use_type_invariant(&*self);
        }
        // The table is changed outside the repository and put back whole.
        let mut table = MemoryTable::new();
        std::mem::swap(&mut table, &mut self.table);
        table.put(gene.id, gene.sequence.clone());
        self.table = table;
        Ok(())
    }

    fn find_gene_by_id(&self, id: i32) -> (outcome: Result<Option<Gene>, PersistenceError>) {
        proof {
            use_type_invariant(self);
        }
        match self.table.get(id) {
            Some(sequence) => Ok(Some(Gene::new(id, sequence.clone()))),
            None => Ok(None),
        }
    }

    fn find_all_genes(&self) -> (outcome: Result<Vec<Gene>, PersistenceError>) {
        proof {
            use_type_invariant(self);
        }
        let mut genes: Vec<Gene> = Vec::new();
        let mut at: usize = 0;
        while at < self.table.len()
            invariant
                at <= self.table.entries().len(),
                genes@.len() == at,
                forall|i: int|
                    0 <= i < at ==> (#[trigger] genes@[i])@ == entry_genes(
                        self.table.entries(),
                    )[i],
            decreases self.table.entries().len() - at,
        {
            let entry = self.table.entry_at(at);
            genes.push(Gene::new(entry.0, entry.1.clone()));
            at = at + 1;
        }
        proof {
            assert(gene_views(genes@) =~= entry_genes(self.table.entries()));
            lemma_entries_list_genes(self.table.entries());
        }
        Ok(genes)
    }

    fn delete_gene(&mut self, id: i32) -> (outcome: Result<(), PersistenceError>) {
        proof {
            use_type_invariant(&*self);
        }
        // The table is changed outside the repository and put back whole.
        let mut table = MemoryTable::new();
        std::mem::swap(&mut table, &mut self.table);
        table.remove(id);
        self.table = table;
        Ok(())
    }
}

/// The cell table that a table of gene collections stands for.
spec fn gene_lists(collections: Map<i32, Vec<Gene>>) -> CellRecords {
    collections.map_values(|genes: Vec<Gene>| gene_views(genes@))
}

/// The cells that a sequence of entries holds, in order.
spec fn entry_cells(entries: Seq<(i32, Vec<Gene>)>) -> Seq<CellView> {
    entries.map_values(
        |entry: (i32, Vec<Gene>)| CellView { id: entry.0, genes: gene_views(entry.1@) },
    )
}

/// The cells of a well-formed sequence of entries enumerate its table.
proof fn lemma_entries_list_cells(entries: Seq<(i32, Vec<Gene>)>)
    requires
        distinct_keys(entries),
    ensures
        lists_cells(gene_lists(map_of(entries)), entry_cells(entries)),
{
    let records = gene_lists(map_of(entries));
    let listing = entry_cells(entries);
    assert(listing.no_duplicates());
    assert forall|cell: CellView| listing.to_set().contains(cell) <==> cell_set(records).contains(
        cell,
    ) by {
        if listing.to_set().contains(cell) {
            let i = choose|i: int| 0 <= i < listing.len() && listing[i] == cell;
            lemma_entry_is_mapped(entries, i);
        }
        if cell_set(records).contains(cell) {
            let i = key_index(entries, cell.id);
            lemma_entry_is_mapped(entries, i);
            assert(listing[i] == cell);
        }
    }
    assert(listing.to_set() =~= cell_set(records));
}

/// A cell repository in memory. It starts empty and never fails.
pub struct InMemoryCellRepository {
    table: MemoryTable<Vec<Gene>>,
}

impl InMemoryCellRepository {
    #[verifier::type_invariant]
    spec fn table_is_well_formed(self) -> bool {
        self.table.wf()
    }

    /// An empty repository.
    pub fn new() -> (repository: Self)
        ensures
            repository.records() == CellRecords::empty(),
            repository.infallible(),
    {
        InMemoryCellRepository { table: MemoryTable::new() }
    }
}

impl CellRepository for InMemoryCellRepository {
    closed spec fn records(&self) -> CellRecords {
        gene_lists(self.table@)
    }

    open spec fn infallible(&self) -> bool {
        true
    }

    fn save_cell(&mut self, cell: &Cell) -> (outcome: Result<(), PersistenceError>) {
        proof {
            use_type_invariant(&*self);
        }
        // The table is changed outside the repository and put back whole.
        let mut table = MemoryTable::new();
        std::mem::swap(&mut table, &mut self.table);
        table.put(cell.id, clone_genes(&cell.genes));
        self.table = table;
        Ok(())
    }

    fn find_cell_by_id(&self, id: i32) -> (outcome: Result<Option<Cell>, PersistenceError>) {
        proof {
            use_type_invariant(self);
        }
        match self.table.get(id) {
            Some(genes) => Ok(Some(Cell::new(id, clone_genes(genes)))),
            None => Ok(None),
        }
    }

    fn find_all_cells(&self) -> (outcome: Result<Vec<Cell>, PersistenceError>) {
        proof {
            use_type_invariant(self);
        }
        let mut cells: Vec<Cell> = Vec::new();
        let mut at: usize = 0;
        while at < self.table.len()
            invariant
                at <= self.table.entries().len(),
                cells@.len() == at,
                forall|i: int|
                    0 <= i < at ==> (#[trigger] cells@[i])@ == entry_cells(
                        self.table.entries(),
                    )[i],
            decreases self.table.entries().len() - at,
        {
            let entry = self.table.entry_at(at);
            cells.push(Cell::new(entry.0, clone_genes(&entry.1)));
            at = at + 1;
        }
        proof {
            assert(cell_views(cells@) =~= entry_cells(self.table.entries()));
            lemma_entries_list_cells(self.table.entries());
        }
        Ok(cells)
    }

    fn delete_cell(&mut self, id: i32) -> (outcome: Result<(), PersistenceError>) {
        proof {
            use_type_invariant(&*self);
        }
        // The table is changed outside the repository and put back whole.
        let mut table = MemoryTable::new();
        std::mem::swap(&mut table, &mut self.table);
        table.remove(id);
        self.table = table;
        Ok(())
    }
}

} // verus!
