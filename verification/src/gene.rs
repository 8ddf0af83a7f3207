//! The gene entity.

use vstd::prelude::*;

verus! {

/// A gene as contracts speak of it: its identity and the characters of its
/// sequence.
pub struct GeneView {
    pub id: i32,
    pub sequence: Seq<char>,
}

/// A gene: a caller-assigned identity and a sequence text.
///
/// The identity is the key under which a repository stores the gene. Nothing
/// at this level keeps two genes from sharing an identity; that is the
/// repository's business.
#[derive(Debug)]
pub struct Gene {
    pub id: i32,
    pub sequence: String,
}

impl View for Gene {
    type V = GeneView;

    open spec fn view(&self) -> GeneView {
        GeneView { id: self.id, sequence: self.sequence@ }
    }
}

/// The views of a sequence of genes, in order.
pub open spec fn gene_views(genes: Seq<Gene>) -> Seq<GeneView> {
    genes.map_values(|gene: Gene| gene@)
}

impl Gene {
    /// Builds a gene from its two fields.
    pub fn new(id: i32, sequence: String) -> (gene: Self)
        ensures
            gene.id == id,
            gene.sequence == sequence,
    {
        Self { id, sequence }
    }
}

impl Clone for Gene {
    fn clone(&self) -> (copy: Self)
        ensures
            copy == *self,
    {
        Gene { id: self.id, sequence: self.sequence.clone() }
    }
}

impl PartialEq for Gene {
    fn eq(&self, other: &Self) -> (same: bool) {
        self.id == other.id && self.sequence == other.sequence
    }
}

impl vstd::std_specs::cmp::PartialEqSpecImpl for Gene {
    open spec fn obeys_eq_spec() -> bool {
        true
    }

    open spec fn eq_spec(&self, other: &Self) -> bool {
        self@ == other@
    }
}

} // verus!
