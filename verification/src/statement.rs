//! Statements for a relational backend, as plain values.
//!
//! A statement is its text, with `$1`, `$2`, ... where values go, and the
//! values in that order. Building a statement reaches no backend; running
//! one is left to whoever holds a connection.

use vstd::prelude::*;
use crate::error::{ConstructionError, PersistenceError};

verus! {

/// A value bound to a placeholder of a statement.
#[derive(Debug)]
pub enum Param {
    /// A 32-bit integer column.
    Int(i32),
    /// A text column.
    Text(String),
    /// A column of raw bytes.
    Bytes(Vec<u8>),
}

/// A bound value as contracts speak of it.
pub enum ParamView {
    Int(i32),
    Text(Seq<char>),
    Bytes(Seq<u8>),
}

impl View for Param {
    type V = ParamView;

    open spec fn view(&self) -> ParamView {
        match self {
            Param::Int(value) => ParamView::Int(*value),
            Param::Text(text) => ParamView::Text(text@),
            Param::Bytes(bytes) => ParamView::Bytes(bytes@),
        }
    }
}

/// The views of a sequence of bound values, in order.
pub open spec fn param_views(params: Seq<Param>) -> Seq<ParamView> {
    params.map_values(|param: Param| param@)
}

/// A statement and the values bound to its placeholders: `params[0]` goes
/// where the text says `$1`, and so on.
#[derive(Debug)]
pub struct Statement {
    pub text: &'static str,
    pub params: Vec<Param>,
}

/// A statement as contracts speak of it.
pub struct StatementView {
    pub text: Seq<char>,
    pub params: Seq<ParamView>,
}

impl View for Statement {
    type V = StatementView;

    open spec fn view(&self) -> StatementView {
        StatementView { text: self.text@, params: param_views(self.params@) }
    }
}

impl Statement {
    /// The statement `text` with nothing bound yet.
    pub fn new(text: &'static str) -> (statement: Statement)
        ensures
            statement@ == (StatementView { text: text@, params: Seq::empty() }),
    {
        let statement = Statement { text, params: Vec::new() };
        assert(statement@.params =~= Seq::<ParamView>::empty());
        statement
    }

    /// Binds `param` to the next placeholder.
    pub fn bind(self, param: Param) -> (statement: Statement)
        ensures
            statement@ == (StatementView {
                text: self@.text,
                params: self@.params.push(param@),
            }),
    {
        let mut params = self.params;
        params.push(param);
        let statement = Statement { text: self.text, params };
        assert(statement@.params =~= self@.params.push(param@));
        statement
    }
}

/// Reads the answer to a statement that changes rows: it was applied,
/// however many rows it touched, none included; or it failed, and the
/// failure is passed on.
pub fn applied(outcome: Result<u64, String>) -> (done: Result<(), PersistenceError>)
    ensures
        done == match outcome {
            Ok(_) => Ok::<(), PersistenceError>(()),
            Err(message) => Err(PersistenceError { message }),
        },
{
    match outcome {
        Ok(_) => Ok(()),
        Err(message) => Err(PersistenceError { message }),
    }
}

/// Types the failure of a statement: the backend's message becomes a
/// [`PersistenceError`], unchanged; what succeeded is passed on.
pub fn persisted<T>(outcome: Result<T, String>) -> (typed: Result<T, PersistenceError>)
    ensures
        typed == match outcome {
            Ok(value) => Ok::<T, PersistenceError>(value),
            Err(message) => Err(PersistenceError { message }),
        },
{
    match outcome {
        Ok(value) => Ok(value),
        Err(message) => Err(PersistenceError { message }),
    }
}

/// Types the failure to connect: the backend's message becomes a
/// [`ConstructionError`], unchanged; a connection that was made is passed on.
pub fn connected<T>(outcome: Result<T, String>) -> (typed: Result<T, ConstructionError>)
    ensures
        typed == match outcome {
            Ok(connection) => Ok::<T, ConstructionError>(connection),
            Err(message) => Err(ConstructionError { message }),
        },
{
    match outcome {
        Ok(connection) => Ok(connection),
        Err(message) => Err(ConstructionError { message }),
    }
}

} // verus!
