use bioengineer::error::PersistenceError;
use bioengineer::gene::Gene;
use bioengineer::gene_repository::GeneRepository;
use bioengineer::manage_genes::ManageGenes;
use bioengineer::memory::InMemoryGeneRepository;

fn fresh() -> ManageGenes<InMemoryGeneRepository> {
    ManageGenes::new(InMemoryGeneRepository::new())
}

fn by_id(mut genes: Vec<Gene>) -> Vec<Gene> {
    genes.sort_by_key(|gene| gene.id);
    genes
}

#[test]
fn gene_new_keeps_both_fields() {
    let gene = Gene::new(7, String::from("GATTACA"));
    assert_eq!(gene.id, 7);
    assert_eq!(gene.sequence, "GATTACA");
}

#[test]
fn gene_equality_is_by_fields() {
    assert_eq!(Gene::new(1, String::from("A")), Gene::new(1, String::from("A")));
    assert_ne!(Gene::new(1, String::from("A")), Gene::new(2, String::from("A")));
    assert_ne!(Gene::new(1, String::from("A")), Gene::new(1, String::from("C")));
}

#[test]
fn gene_clone_is_equal() {
    let gene = Gene::new(-3, String::from("ACGT"));
    assert_eq!(gene.clone(), gene);
}

#[test]
fn created_gene_is_viewed_with_its_fields() {
    let cases: Vec<(i32, &str)> = vec![
        (1, "ACGT"),
        (0, ""),
        (-1, "T"),
        (i32::MAX, "GGGG"),
        (i32::MIN, "séquence ü 基因"),
    ];
    let mut genes = fresh();
    for (id, sequence) in &cases {
        assert_eq!(genes.create_gene(*id, String::from(*sequence)), Ok(()));
        assert_eq!(genes.view_gene(*id), Ok(Some(Gene::new(*id, String::from(*sequence)))));
    }
    for (id, sequence) in &cases {
        assert_eq!(genes.view_gene(*id), Ok(Some(Gene::new(*id, String::from(*sequence)))));
    }
}

#[test]
fn unsaved_gene_is_absent_not_an_error() {
    let mut genes = fresh();
    assert_eq!(genes.view_gene(5), Ok(None));
    genes.create_gene(4, String::from("AC")).unwrap();
    genes.create_gene(6, String::from("GT")).unwrap();
    genes.remove_gene(4).unwrap();
    assert_eq!(genes.view_gene(5), Ok(None));
    assert_eq!(genes.view_gene(-5), Ok(None));
}

#[test]
fn removed_gene_is_absent() {
    let mut genes = fresh();
    genes.create_gene(9, String::from("ACGT")).unwrap();
    assert_eq!(genes.remove_gene(9), Ok(()));
    assert_eq!(genes.view_gene(9), Ok(None));
}

#[test]
fn removing_leaves_the_others() {
    let mut genes = fresh();
    genes.create_gene(1, String::from("A")).unwrap();
    genes.create_gene(2, String::from("C")).unwrap();
    genes.create_gene(3, String::from("G")).unwrap();
    genes.remove_gene(2).unwrap();
    assert_eq!(
        by_id(genes.view_all_genes().unwrap()),
        vec![Gene::new(1, String::from("A")), Gene::new(3, String::from("G"))]
    );
}

#[test]
fn listing_holds_exactly_what_was_saved() {
    for n in [0, 1, 2, 17] {
        let mut genes = fresh();
        let mut saved = Vec::new();
        for id in 0..n {
            let sequence = format!("SEQ{}", id * 3);
            genes.create_gene(id, sequence.clone()).unwrap();
            saved.push(Gene::new(id, sequence));
        }
        let listed = by_id(genes.view_all_genes().unwrap());
        assert_eq!(listed.len(), n as usize);
        assert_eq!(listed, saved);
    }
}

#[test]
fn listing_of_an_empty_repository_is_empty() {
    assert_eq!(fresh().view_all_genes(), Ok(Vec::new()));
}

#[test]
fn removing_twice_succeeds_twice() {
    let mut genes = fresh();
    genes.create_gene(1, String::from("ACGT")).unwrap();
    genes.create_gene(2, String::from("TTAA")).unwrap();
    assert_eq!(genes.remove_gene(1), Ok(()));
    assert_eq!(genes.remove_gene(1), Ok(()));
    assert_eq!(genes.view_all_genes(), Ok(vec![Gene::new(2, String::from("TTAA"))]));
}

#[test]
fn removing_what_was_never_saved_succeeds() {
    let mut genes = fresh();
    assert_eq!(genes.remove_gene(42), Ok(()));
    assert_eq!(genes.view_all_genes(), Ok(Vec::new()));
}

#[test]
fn saving_under_a_stored_identity_replaces_the_sequence() {
    let mut genes = fresh();
    genes.create_gene(1, String::from("ACGT")).unwrap();
    genes.create_gene(1, String::from("TTAA")).unwrap();
    assert_eq!(genes.view_gene(1), Ok(Some(Gene::new(1, String::from("TTAA")))));
    assert_eq!(genes.view_all_genes().unwrap().len(), 1);
}

#[test]
fn use_case_hands_its_repository_back() {
    let mut genes = fresh();
    genes.create_gene(3, String::from("CCC")).unwrap();
    let repository = genes.into_repository();
    assert_eq!(repository.find_gene_by_id(3), Ok(Some(Gene::new(3, String::from("CCC")))));
}

#[test]
fn in_memory_gene_repository_meets_each_operation() {
    let mut repository = InMemoryGeneRepository::new();
    assert_eq!(repository.find_all_genes(), Ok(Vec::new()));
    assert_eq!(repository.save_gene(&Gene::new(1, String::from("A"))), Ok(()));
    assert_eq!(repository.save_gene(&Gene::new(2, String::from("C"))), Ok(()));
    assert_eq!(repository.find_gene_by_id(2), Ok(Some(Gene::new(2, String::from("C")))));
    assert_eq!(repository.delete_gene(1), Ok(()));
    assert_eq!(repository.find_gene_by_id(1), Ok(None));
    assert_eq!(repository.find_all_genes(), Ok(vec![Gene::new(2, String::from("C"))]));
}

/// A repository whose backend is down: every call fails, nothing is stored.
struct Unreachable;

impl GeneRepository for Unreachable {
    fn save_gene(&mut self, _gene: &Gene) -> Result<(), PersistenceError> {
        Err(PersistenceError { message: String::from("connection refused") })
    }

    fn find_gene_by_id(&self, _id: i32) -> Result<Option<Gene>, PersistenceError> {
        Err(PersistenceError { message: String::from("connection refused") })
    }

    fn find_all_genes(&self) -> Result<Vec<Gene>, PersistenceError> {
        Err(PersistenceError { message: String::from("connection refused") })
    }

    fn delete_gene(&mut self, _id: i32) -> Result<(), PersistenceError> {
        Err(PersistenceError { message: String::from("connection refused") })
    }

    fn records(&self) -> bioengineer::gene_repository::GeneRecords {
        unreachable!()
    }

    fn infallible(&self) -> bool {
        false
    }
}

#[test]
fn use_cases_pass_a_failure_on_unchanged() {
    let refused = PersistenceError { message: String::from("connection refused") };
    let mut genes = ManageGenes::new(Unreachable);
    assert_eq!(genes.create_gene(1, String::from("ACGT")), Err(PersistenceError { message: String::from("connection refused") }));
    assert_eq!(genes.view_gene(1), Err(PersistenceError { message: String::from("connection refused") }));
    assert_eq!(genes.view_all_genes(), Err(PersistenceError { message: String::from("connection refused") }));
    assert_eq!(genes.remove_gene(1), Err(refused));
}
