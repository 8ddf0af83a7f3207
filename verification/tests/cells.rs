use bioengineer::cell::{clone_genes, same_genes, Cell};
use bioengineer::cell_repository::CellRepository;
use bioengineer::gene::Gene;
use bioengineer::memory::InMemoryCellRepository;
use bioengineer::simulate_cells::SimulateCells;

fn gene(id: i32, sequence: &str) -> Gene {
    Gene::new(id, String::from(sequence))
}

fn by_id(mut cells: Vec<Cell>) -> Vec<Cell> {
    cells.sort_by_key(|cell| cell.id);
    cells
}

#[test]
fn cell_new_keeps_both_fields() {
    let cell = Cell::new(4, vec![gene(1, "ACGT"), gene(2, "TTAA")]);
    assert_eq!(cell.id, 4);
    assert_eq!(cell.genes, vec![gene(1, "ACGT"), gene(2, "TTAA")]);
}

#[test]
fn cell_may_own_no_genes() {
    let cell = Cell::new(0, Vec::new());
    assert_eq!(cell.genes.len(), 0);
}

#[test]
fn cell_equality_is_by_identity_and_genes_in_order() {
    let cell = Cell::new(1, vec![gene(1, "A"), gene(2, "C")]);
    assert_eq!(cell, Cell::new(1, vec![gene(1, "A"), gene(2, "C")]));
    assert_ne!(cell, Cell::new(2, vec![gene(1, "A"), gene(2, "C")]));
    assert_ne!(cell, Cell::new(1, vec![gene(2, "C"), gene(1, "A")]));
    assert_ne!(cell, Cell::new(1, vec![gene(1, "A")]));
    assert_eq!(cell.clone(), cell);
}

#[test]
fn clone_genes_copies_in_order() {
    let genes = vec![gene(3, "G"), gene(1, "A"), gene(3, "G")];
    assert_eq!(clone_genes(&genes), genes);
    assert_eq!(clone_genes(&Vec::new()), Vec::new());
}

#[test]
fn same_genes_compares_gene_by_gene() {
    assert!(same_genes(&vec![gene(1, "A")], &vec![gene(1, "A")]));
    assert!(same_genes(&Vec::new(), &Vec::new()));
    assert!(!same_genes(&vec![gene(1, "A")], &vec![gene(1, "C")]));
    assert!(!same_genes(&vec![gene(1, "A")], &vec![gene(1, "A"), gene(1, "A")]));
}

#[test]
fn simulate_returns_every_stored_cell_as_stored() {
    let mut repository = InMemoryCellRepository::new();
    let first = Cell::new(1, vec![gene(1, "ACGT"), gene(2, "TTAA")]);
    let second = Cell::new(2, Vec::new());
    let third = Cell::new(-7, vec![gene(9, "")]);
    repository.save_cell(&first).unwrap();
    repository.save_cell(&second).unwrap();
    repository.save_cell(&third).unwrap();

    let simulation = SimulateCells::new(repository);
    assert_eq!(by_id(simulation.simulate().unwrap()), vec![third, first, second]);
}

#[test]
fn simulate_on_an_empty_repository_returns_nothing() {
    let simulation = SimulateCells::new(InMemoryCellRepository::new());
    assert_eq!(simulation.simulate(), Ok(Vec::new()));
}

#[test]
fn simulate_hands_its_repository_back() {
    let mut repository = InMemoryCellRepository::new();
    repository.save_cell(&Cell::new(1, Vec::new())).unwrap();
    let simulation = SimulateCells::new(repository);
    let repository = simulation.into_repository();
    assert_eq!(repository.find_cell_by_id(1), Ok(Some(Cell::new(1, Vec::new()))));
}

#[test]
fn in_memory_cell_repository_meets_each_operation() {
    let mut repository = InMemoryCellRepository::new();
    assert_eq!(repository.find_cell_by_id(1), Ok(None));
    assert_eq!(repository.save_cell(&Cell::new(1, vec![gene(5, "AC")])), Ok(()));
    assert_eq!(repository.find_cell_by_id(1), Ok(Some(Cell::new(1, vec![gene(5, "AC")]))));
    assert_eq!(repository.save_cell(&Cell::new(1, vec![gene(6, "GT")])), Ok(()));
    assert_eq!(repository.find_cell_by_id(1), Ok(Some(Cell::new(1, vec![gene(6, "GT")]))));
    assert_eq!(repository.find_all_cells().unwrap().len(), 1);
    assert_eq!(repository.delete_cell(1), Ok(()));
    assert_eq!(repository.delete_cell(1), Ok(()));
    assert_eq!(repository.find_cell_by_id(1), Ok(None));
    assert_eq!(repository.find_all_cells(), Ok(Vec::new()));
}
