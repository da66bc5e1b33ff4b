//! The queries that a unit of declarations describes.
use vstd::prelude::*;
use crate::rewrite::views;

verus! {

/// The backend that a query is generated for.
#[derive(Clone, Copy, Debug, PartialEq, Eq, Structural)]
pub enum Kind {
    /// An embedded, file-backed store (`rusqlite`).
    Rusqlite,
    /// A network database server (`postgres`).
    PostgreSQL,
}

/// A declared parameter: its name and its type, as written.
#[derive(Debug)]
pub struct Param {
    pub name: Vec<char>,
    pub ty: Vec<char>,
}

/// A declared output column: its type, as written.
#[derive(Debug)]
pub struct Output {
    pub ty: Vec<char>,
}

/// One query declaration.
#[derive(Debug)]
pub struct Query {
    pub name: Vec<char>,
    pub kind: Kind,
    /// Whether the SQL text uses `:name` placeholders (network backend).
    pub named: bool,
    pub params: Vec<Param>,
    pub outputs: Vec<Output>,
    pub sql: Vec<char>,
    /// Present when a test is generated; lists the queries whose test setup
    /// must run first.
    pub test: Option<Vec<Vec<char>>>,
}

/// The mathematical form of a query.
pub struct QuerySpec {
    pub name: Seq<char>,
    pub kind: Kind,
    pub named: bool,
    pub params: Seq<(Seq<char>, Seq<char>)>,
    pub outputs: Seq<Seq<char>>,
    pub sql: Seq<char>,
    pub test: Option<Seq<Seq<char>>>,
}

impl Param {
    pub open spec fn view(&self) -> (Seq<char>, Seq<char>) {
        (self.name@, self.ty@)
    }
}

impl Output {
    pub open spec fn view(&self) -> Seq<char> {
        self.ty@
    }
}

pub open spec fn params_view(v: Seq<Param>) -> Seq<(Seq<char>, Seq<char>)> {
    v.map_values(|p: Param| p@)
}

pub open spec fn outputs_view(v: Seq<Output>) -> Seq<Seq<char>> {
    v.map_values(|o: Output| o@)
}

pub open spec fn test_view(t: Option<Vec<Vec<char>>>) -> Option<Seq<Seq<char>>> {
    match t {
        Some(v) => Some(views(v@)),
        None => None,
    }
}

impl Query {
    pub open spec fn view(&self) -> QuerySpec {
        QuerySpec {
            name: self.name@,
            kind: self.kind,
            named: self.named,
            params: params_view(self.params@),
            outputs: outputs_view(self.outputs@),
            sql: self.sql@,
            test: test_view(self.test),
        }
    }
}

pub open spec fn queries_view(v: Seq<Query>) -> Seq<QuerySpec> {
    v.map_values(|q: Query| q@)
}

/// The names of the parameters, in declaration order.
pub open spec fn param_names(ps: Seq<(Seq<char>, Seq<char>)>) -> Seq<Seq<char>> {
    ps.map_values(|p: (Seq<char>, Seq<char>)| p.0)
}

/// No name occurs twice.
pub open spec fn distinct(names: Seq<Seq<char>>) -> bool {
    forall|i: int, j: int| 0 <= i < j < names.len() ==> names[i] != names[j]
}

} // verus!
