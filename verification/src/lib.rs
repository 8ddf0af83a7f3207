//! Genes and cells behind storage-agnostic repositories.
//!
//! The entities ([`gene`], [`cell`]) are plain records. A repository
//! ([`gene_repository`], [`cell_repository`]) is a contract over a
//! mathematical table, a map from identity to payload. The use cases
//! ([`manage_genes`], [`simulate_cells`]) and the entry points
//! ([`gene_controller`]) sequence repository calls and are verified against
//! that contract alone, so what is proved of them holds for every repository
//! that honours it.
//!
//! Two kinds of repository are provided for. [`memory`] holds repositories
//! that keep their table in a [`memory_table`]; they are verified to meet the
//! contract. For a relational backend, [`gene_sql`] and [`cell_sql`] build
//! each operation's [`statement`] and read the backend's answer, with a
//! cell's genes stored as one [`genes_blob`]; running a statement is left to
//! whoever holds the connection.

pub mod cell;
pub mod cell_repository;
pub mod cell_sql;
pub mod error;
pub mod gene;
pub mod gene_controller;
pub mod gene_repository;
pub mod gene_sql;
pub mod genes_blob;
pub mod manage_genes;
pub mod memory;
pub mod memory_table;
pub mod simulate_cells;
pub mod statement;
