//! Entry points for genes: open a repository, run one use case on it, hand
//! back what came of it.
//!
//! Opening a repository may reach a backend, so it is done by the caller; the
//! handlers take what the attempt gave. A repository that could not be opened
//! is reported as such and nothing else is tried.

use vstd::prelude::*;
use crate::error::{ConstructionError, PersistenceError};
use crate::gene::{Gene, GeneView};
use crate::gene_repository::{found_view, stored_gene, with_gene, GeneRepository};
use crate::manage_genes::ManageGenes;

verus! {

/// Why a handler gave no result.
#[derive(Debug)]
pub enum HandlerError {
    /// The repository could not be opened.
    Construction(ConstructionError),
    /// The repository was opened and its backend failed.
    Persistence(PersistenceError),
}

impl PartialEq for HandlerError {
    fn eq(&self, other: &Self) -> (same: bool) {
        match (self, other) {
            (HandlerError::Construction(left), HandlerError::Construction(right)) => left == right,
            (HandlerError::Persistence(left), HandlerError::Persistence(right)) => left == right,
            _ => false,
        }
    }
}

impl vstd::std_specs::cmp::PartialEqSpecImpl for HandlerError {
    open spec fn obeys_eq_spec() -> bool {
        true
    }

    open spec fn eq_spec(&self, other: &Self) -> bool {
        match (self, other) {
            (HandlerError::Construction(left), HandlerError::Construction(right)) => left.message@
                == right.message@,
            (HandlerError::Persistence(left), HandlerError::Persistence(right)) => left.message@
                == right.message@,
            _ => false,
        }
    }
}

/// Creates the gene `(id, sequence)` in the repository that was opened, and
/// hands the repository back with the gene stored. Where the save fails, the
/// failure is handed on as the repository reported it.
pub fn create_gene_handler<R: GeneRepository>(
    opened: Result<R, ConstructionError>,
    id: i32,
    sequence: String,
) -> (outcome: Result<R, HandlerError>)
    ensures
        opened matches Err(error) ==> outcome == Err::<R, HandlerError>(
            HandlerError::Construction(error),
        ),
        opened matches Ok(repository) ==> outcome matches Ok(after) ==> {
            &&& exists|target: &mut R, saved: Result<(), PersistenceError>|
                {
                    &&& saved is Ok
                    &&& *target == repository
                    &&& *final(target) == after
                    &&& #[trigger] call_ensures(
                        R::save_gene,
                        (target, &Gene { id, sequence }),
                        saved,
                    )
                }
            &&& after.infallible() == repository.infallible()
            &&& after.records() == with_gene(
                repository.records(),
                GeneView { id, sequence: sequence@ },
            )
        },
        opened matches Ok(repository) ==> outcome matches Err(failure) ==> {
            &&& !repository.infallible()
            &&& failure matches HandlerError::Persistence(error)
            &&& exists|target: &mut R, saved: Result<(), PersistenceError>|
                {
                    &&& saved == Err::<(), PersistenceError>(error)
                    &&& *target == repository
                    &&& #[trigger] call_ensures(
                        R::save_gene,
                        (target, &Gene { id, sequence }),
                        saved,
                    )
                }
        },
{
    match opened {
        Err(error) => Err(HandlerError::Construction(error)),
        Ok(repository) => {
            let mut use_case = ManageGenes::new(repository);
            let saved = use_case.create_gene(id, sequence);
            match saved {
                Ok(_) => Ok(use_case.into_repository()),
                Err(error) => Err(HandlerError::Persistence(error)),
            }
        },
    }
}

/// Looks up the gene under `id` in the repository that was opened: `Ok(None)`
/// where there is none. What the repository found, or the failure it
/// reported, is handed on as it came.
pub fn view_gene_handler<R: GeneRepository>(opened: Result<R, ConstructionError>, id: i32) -> (outcome:
    Result<Option<Gene>, HandlerError>)
    ensures
        match opened {
            Err(error) => outcome == Err::<Option<Gene>, HandlerError>(
                HandlerError::Construction(error),
            ),
            Ok(repository) => match outcome {
                Ok(found) => call_ensures(
                    R::find_gene_by_id,
                    (&repository, id),
                    Ok::<Option<Gene>, PersistenceError>(found),
                ) && found_view(found) == stored_gene(repository.records(), id),
                Err(HandlerError::Persistence(error)) => call_ensures(
                    R::find_gene_by_id,
                    (&repository, id),
                    Err::<Option<Gene>, PersistenceError>(error),
                ) && !repository.infallible(),
                Err(HandlerError::Construction(_)) => false,
            },
        },
{
    match opened {
        Err(error) => Err(HandlerError::Construction(error)),
        Ok(repository) => {
            let use_case = ManageGenes::new(repository);
            match use_case.view_gene(id) {
                Ok(found) => Ok(found),
                Err(error) => Err(HandlerError::Persistence(error)),
            }
        },
    }
}

} // verus!
