use bioengineer::error::{ConstructionError, PersistenceError};
use bioengineer::gene::Gene;
use bioengineer::gene_controller::{create_gene_handler, view_gene_handler, HandlerError};
use bioengineer::gene_repository::{GeneRecords, GeneRepository};
use bioengineer::memory::InMemoryGeneRepository;

fn refused() -> ConstructionError {
    ConstructionError { message: String::from("connection refused") }
}

/// A repository that opens and then fails at every call.
struct Failing;

impl GeneRepository for Failing {
    fn save_gene(&mut self, _gene: &Gene) -> Result<(), PersistenceError> {
        Err(PersistenceError { message: String::from("timeout") })
    }

    fn find_gene_by_id(&self, _id: i32) -> Result<Option<Gene>, PersistenceError> {
        Err(PersistenceError { message: String::from("timeout") })
    }

    fn find_all_genes(&self) -> Result<Vec<Gene>, PersistenceError> {
        Err(PersistenceError { message: String::from("timeout") })
    }

    fn delete_gene(&mut self, _id: i32) -> Result<(), PersistenceError> {
        Err(PersistenceError { message: String::from("timeout") })
    }

    fn records(&self) -> GeneRecords {
        unreachable!()
    }

    fn infallible(&self) -> bool {
        false
    }
}

#[test]
fn create_handler_stores_the_gene() {
    let repository =
        create_gene_handler(Ok(InMemoryGeneRepository::new()), 1, String::from("ACGT")).ok().unwrap();
    assert_eq!(repository.find_gene_by_id(1), Ok(Some(Gene::new(1, String::from("ACGT")))));
    assert_eq!(repository.find_all_genes().unwrap().len(), 1);
}

#[test]
fn create_handler_reports_a_repository_that_did_not_open() {
    let outcome = create_gene_handler::<InMemoryGeneRepository>(Err(refused()), 1, String::from("ACGT"));
    assert!(matches!(outcome, Err(HandlerError::Construction(error)) if error == refused()));
}

#[test]
fn create_handler_reports_a_failed_save() {
    let outcome = create_gene_handler(Ok(Failing), 1, String::from("ACGT"));
    assert!(matches!(
        outcome,
        Err(HandlerError::Persistence(error)) if error.message == "timeout"
    ));
}

#[test]
fn view_handler_finds_what_was_created() {
    let repository =
        create_gene_handler(Ok(InMemoryGeneRepository::new()), 1, String::from("ACGT")).ok().unwrap();
    assert_eq!(view_gene_handler(Ok(repository), 1), Ok(Some(Gene::new(1, String::from("ACGT")))));
}

#[test]
fn view_handler_reports_absence_as_none() {
    assert_eq!(view_gene_handler(Ok(InMemoryGeneRepository::new()), 1), Ok(None));
}

#[test]
fn view_handler_reports_a_repository_that_did_not_open() {
    assert_eq!(
        view_gene_handler::<InMemoryGeneRepository>(Err(refused()), 1),
        Err(HandlerError::Construction(refused()))
    );
}

#[test]
fn view_handler_reports_a_failed_lookup_as_an_error() {
    assert_eq!(
        view_gene_handler(Ok(Failing), 1),
        Err(HandlerError::Persistence(PersistenceError { message: String::from("timeout") }))
    );
}

#[test]
fn handler_errors_compare_by_kind_and_message() {
    let construction = HandlerError::Construction(refused());
    let persistence =
        HandlerError::Persistence(PersistenceError { message: String::from("connection refused") });
    assert_ne!(construction, persistence);
    assert_eq!(construction, HandlerError::Construction(refused()));
    assert_ne!(
        construction,
        HandlerError::Construction(ConstructionError { message: String::from("no route to host") })
    );
}
