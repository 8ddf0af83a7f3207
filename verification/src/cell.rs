//! The cell entity.

use vstd::prelude::*;
use crate::gene::{gene_views, Gene, GeneView};

verus! {

/// A cell as contracts speak of it: its identity and its genes, in order.
pub struct CellView {
    pub id: i32,
    pub genes: Seq<GeneView>,
}

/// A cell: a caller-assigned identity and the genes it owns, in order. The
/// collection may be empty.
#[derive(Debug)]
pub struct Cell {
    pub id: i32,
    pub genes: Vec<Gene>,
}

impl View for Cell {
    type V = CellView;

    open spec fn view(&self) -> CellView {
        CellView { id: self.id, genes: gene_views(self.genes@) }
    }
}

/// The views of a sequence of cells, in order.
pub open spec fn cell_views(cells: Seq<Cell>) -> Seq<CellView> {
    cells.map_values(|cell: Cell| cell@)
}

/// Copies a collection of genes, gene by gene.
pub fn clone_genes(genes: &Vec<Gene>) -> (copy: Vec<Gene>)
    ensures
        copy@ == genes@,
{
    let mut copy: Vec<Gene> = Vec::new();
    let mut at: usize = 0;
    while at < genes.len()
        invariant
            at <= genes@.len(),
            copy@ == genes@.take(at as int),
        decreases genes@.len() - at,
    {
        copy.push(genes[at].clone());
        at = at + 1;
    }
    copy
}

/// Whether two collections of genes hold equal genes in the same order.
pub fn same_genes(left: &Vec<Gene>, right: &Vec<Gene>) -> (same: bool)
    ensures
        same == (gene_views(left@) == gene_views(right@)),
{
    if left.len() != right.len() {
        return false;
    }
    let mut at: usize = 0;
    while at < left.len()
        invariant
            left@.len() == right@.len(),
            at <= left@.len(),
            forall|i: int| 0 <= i < at ==> (#[trigger] left@[i])@ == right@[i]@,
        decreases left@.len() - at,
    {
        if !(left[at] == right[at]) {
            assert(gene_views(left@)[at as int] != gene_views(right@)[at as int]);
            return false;
        }
        at = at + 1;
    }
    assert(gene_views(left@) =~= gene_views(right@));
    true
}

impl Cell {
    /// Builds a cell from its two fields.
    pub fn new(id: i32, genes: Vec<Gene>) -> (cell: Self)
        ensures
            cell.id == id,
            cell.genes == genes,
    {
        Self { id, genes }
    }
}

impl Clone for Cell {
    fn clone(&self) -> (copy: Self)
        ensures
            copy@ == self@,
    {
        Cell { id: self.id, genes: clone_genes(&self.genes) }
    }
}

impl PartialEq for Cell {
    fn eq(&self, other: &Self) -> (same: bool) {
        self.id == other.id && same_genes(&self.genes, &other.genes)
    }
}

impl vstd::std_specs::cmp::PartialEqSpecImpl for Cell {
    open spec fn obeys_eq_spec() -> bool {
        true
    }

    open spec fn eq_spec(&self, other: &Self) -> bool {
        self@ == other@
    }
}

} // verus!
