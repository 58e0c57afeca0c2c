use vstd::prelude::*;

use crate::mutations::{after_delete, after_set, mutation_done};
use crate::errors::Error;
use crate::evaluator::{eval, result_view};
use crate::graph::{has_vertex, GraphModel};
use crate::identifiers::Identifier;
use crate::json::Json;
use crate::memory::MemoryDatastore;
use crate::models::{is_v4, BulkInsertItem, Edge, QueryOutputValue, Vertex};
use crate::queries::Query;

verus! {

/// A graph database over a datastore, which it owns.
pub struct Database {
    datastore: MemoryDatastore,
}

impl View for Database {
    type V = GraphModel;

    closed spec fn view(&self) -> GraphModel {
        self.datastore@
    }
}

impl Database {
    /// A database over the datastore.
    pub fn new(datastore: MemoryDatastore) -> (r: Database)
        requires
            datastore@.wf(),
        ensures
            r@ == datastore@,
    {
        Database { datastore }
    }

    /// The datastore underneath.
    pub fn datastore(&self) -> (r: &MemoryDatastore)
        ensures
            r@ == self@,
    {
        &self.datastore
    }

    /// Runs a query: its outputs in order (one for each `Include` stage,
    /// then the final one), or the error.
    pub fn get(&self, q: &Query) -> (r: Result<Vec<QueryOutputValue>, Error>)
        ensures
            result_view(r) == eval(self@, *q),
    {
        self.datastore.get(q)
    }

    /// Gives the datastore back.
    pub fn into_datastore(self) -> (r: MemoryDatastore)
        ensures
            r@ == self@,
    {
        self.datastore
    }

    /// Adds the vertex unless one with its id exists; `true` when added.
    pub fn create_vertex(&mut self, v: &Vertex) -> (r: bool)
        requires
            old(self)@.wf(),
        ensures
            final(self)@.wf(),
            r == !has_vertex(old(self)@.vertices, v.id),
            final(self)@ == old(self)@.with_vertex(v@),
    {
        self.datastore.create_vertex(v)
    }

    /// Creates a vertex of the type with the id and returns the id;
    /// `UuidTaken`, with nothing changed, if a vertex already has that id.
    pub fn create_vertex_with_id(&mut self, id: u128, t: Identifier) -> (r: Result<u128, Error>)
        requires
            old(self)@.wf(),
        ensures
            final(self)@.wf(),
            r == (if has_vertex(old(self)@.vertices, id) {
                Err::<u128, Error>(Error::UuidTaken)
            } else {
                Ok::<u128, Error>(id)
            }),
            final(self)@ == old(self)@.with_vertex((id, t@)),
    {
        self.datastore.create_vertex_with_id(id, t)
    }

    /// Creates a vertex of the type with a random version-4 id and returns
    /// the id; `UuidTaken` if a vertex already has that id, which cannot
    /// happen in an empty database.
    pub fn create_vertex_from_type(&mut self, t: Identifier) -> (r: Result<u128, Error>)
        requires
            old(self)@.wf(),
        ensures
            final(self)@.wf(),
            old(self)@.vertices.len() == 0 ==> r is Ok,
            match r {
                Ok(id) => is_v4(id) && !has_vertex(old(self)@.vertices, id) && final(self)@
                    == old(self)@.with_vertex((id, t@)),
                Err(e) => e == Error::UuidTaken && final(self)@ == old(self)@,
            },
    {
        self.datastore.create_vertex_from_type(t)
    }

    /// Adds the edge if both endpoints exist and it does not; `true` when
    /// added.
    pub fn create_edge(&mut self, e: &Edge) -> (r: bool)
        requires
            old(self)@.wf(),
        ensures
            final(self)@.wf(),
            r == (has_vertex(old(self)@.vertices, e.outbound_id) && has_vertex(
                old(self)@.vertices,
                e.inbound_id,
            ) && !old(self)@.edges.contains(e@)),
            final(self)@ == old(self)@.with_edge(e@),
    {
        self.datastore.create_edge(e)
    }

    /// Applies the items in turn, skipping those whose preconditions fail.
    pub fn bulk_insert(&mut self, items: &Vec<BulkInsertItem>)
        requires
            old(self)@.wf(),
        ensures
            final(self)@.wf(),
            final(self)@ == old(self)@.with_items(items@),
    {
        self.datastore.bulk_insert(items)
    }

    /// Deletes the items of the query's final output.
    pub fn delete(&mut self, q: &Query) -> (r: Result<(), Error>)
        requires
            old(self)@.wf(),
        ensures
            final(self)@.wf(),
            mutation_done(after_delete(old(self)@, *q), r, old(self)@, final(self)@),
    {
        self.datastore.delete(q)
    }

    /// Sets a property on the vertices or edges of the query's final output;
    /// a `null` value is refused.
    pub fn set_properties(&mut self, q: &Query, name: &Identifier, value: &Json) -> (r: Result<
        (),
        Error,
    >)
        requires
            old(self)@.wf(),
        ensures
            final(self)@.wf(),
            mutation_done(after_set(old(self)@, *q, name@, value@), r, old(self)@, final(self)@),
    {
        self.datastore.set_properties(q, name, value)
    }

    /// Marks a property name as indexed; a no-op where it already is.
    pub fn index_property(&mut self, name: &Identifier)
        requires
            old(self)@.wf(),
        ensures
            final(self)@.wf(),
            final(self)@ == old(self)@.with_index(name@),
    {
        self.datastore.index_property(name)
    }
}

} // verus!
