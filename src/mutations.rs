use vstd::prelude::*;

use crate::errors::{Error, ValidationError};
use crate::evaluator::{eval, result_view};
use crate::graph::{has_vertex, GraphModel};
use crate::identifiers::Identifier;
use crate::json::{null_text, Json};
use crate::memory::MemoryDatastore;
use crate::models::{
    edge_properties_view, edges_view, random_id, vertex_properties_view, vertices_view,
    is_v4, BulkInsertItem, EdgeModel, EdgeProperties, OutputModel, PropModel, QueryOutputValue, Vertex,
    VertexModel, VertexProperties,
};
use crate::queries::Query;

verus! {

/// The ids of the vertices.
pub open spec fn vertex_ids(vs: Seq<VertexModel>) -> Seq<u128> {
    vs.map_values(|v: VertexModel| v.0)
}

impl GraphModel {
    /// Removes the named properties of one vertex, in turn.
    pub open spec fn without_props_of_vertex(self, id: u128, props: Seq<PropModel>) -> GraphModel
        decreases props.len(),
    {
        if props.len() == 0 {
            self
        } else {
            self.without_props_of_vertex(id, props.drop_last()).without_vertex_prop(
                id,
                props.last().0,
            )
        }
    }

    /// Removes the listed properties of each listed vertex, in turn.
    pub open spec fn without_vertex_prop_sets(self, s: Seq<(VertexModel, Seq<PropModel>)>) -> GraphModel
        decreases s.len(),
    {
        if s.len() == 0 {
            self
        } else {
            self.without_vertex_prop_sets(s.drop_last()).without_props_of_vertex(
                s.last().0.0,
                s.last().1,
            )
        }
    }

    /// Removes the named properties of one edge, in turn.
    pub open spec fn without_props_of_edge(self, e: EdgeModel, props: Seq<PropModel>) -> GraphModel
        decreases props.len(),
    {
        if props.len() == 0 {
            self
        } else {
            self.without_props_of_edge(e, props.drop_last()).without_edge_prop(e, props.last().0)
        }
    }

    /// Removes the listed properties of each listed edge, in turn.
    pub open spec fn without_edge_prop_sets(self, s: Seq<(EdgeModel, Seq<PropModel>)>) -> GraphModel
        decreases s.len(),
    {
        if s.len() == 0 {
            self
        } else {
            self.without_edge_prop_sets(s.drop_last()).without_props_of_edge(s.last().0, s.last().1)
        }
    }

    /// Sets the property on each listed vertex, in turn.
    pub open spec fn with_vertex_props(self, ids: Seq<u128>, name: Seq<char>, value: Seq<char>) -> GraphModel
        decreases ids.len(),
    {
        if ids.len() == 0 {
            self
        } else {
            self.with_vertex_props(ids.drop_last(), name, value).with_vertex_prop(
                ids.last(),
                name,
                value,
            )
        }
    }

    /// Sets the property on each listed edge, in turn.
    pub open spec fn with_edge_props(self, es: Seq<EdgeModel>, name: Seq<char>, value: Seq<char>) -> GraphModel
        decreases es.len(),
    {
        if es.len() == 0 {
            self
        } else {
            self.with_edge_props(es.drop_last(), name, value).with_edge_prop(es.last(), name, value)
        }
    }

    /// One item of a bulk insert; an item whose owner or endpoints are
    /// missing, or whose vertex id is taken, changes nothing.
    pub open spec fn with_item(self, item: BulkInsertItem) -> GraphModel {
        match item {
            BulkInsertItem::Vertex(v) => self.with_vertex(v@),
            BulkInsertItem::Edge(e) => self.with_edge(e@),
            BulkInsertItem::VertexProperty(id, name, value) => self.with_vertex_prop(
                id,
                name@,
                value@,
            ),
            BulkInsertItem::EdgeProperty(e, name, value) => self.with_edge_prop(e@, name@, value@),
        }
    }

    /// The items of a bulk insert, in turn.
    pub open spec fn with_items(self, items: Seq<BulkInsertItem>) -> GraphModel
        decreases items.len(),
    {
        if items.len() == 0 {
            self
        } else {
            self.with_items(items.drop_last()).with_item(items.last())
        }
    }
}

/// What deleting the items of a query's final output does.
pub open spec fn delete_effect(m: GraphModel, o: OutputModel) -> Result<GraphModel, Error> {
    match o {
        OutputModel::Vertices(vs) => Ok(m.without_vertices(vertex_ids(vs))),
        OutputModel::Edges(es) => Ok(m.without_edges(es)),
        OutputModel::VertexProperties(s) => Ok(m.without_vertex_prop_sets(s)),
        OutputModel::EdgeProperties(s) => Ok(m.without_edge_prop_sets(s)),
        OutputModel::Count(_) => Err(Error::Unsupported),
    }
}

/// The database after `delete(q)`, or the error.
pub open spec fn after_delete(m: GraphModel, q: Query) -> Result<GraphModel, Error> {
    match eval(m, q) {
        Err(e) => Err(e),
        Ok(outs) => delete_effect(m, outs.last()),
    }
}

/// What setting a property on the items of a query's final output does.
pub open spec fn set_effect(m: GraphModel, o: OutputModel, name: Seq<char>, value: Seq<char>) -> Result<
    GraphModel,
    Error,
> {
    match o {
        OutputModel::Vertices(vs) => Ok(m.with_vertex_props(vertex_ids(vs), name, value)),
        OutputModel::Edges(es) => Ok(m.with_edge_props(es, name, value)),
        _ => Err(Error::Unsupported),
    }
}

/// The database after `set_properties(q, name, value)`, or the error; a
/// `null` value is refused before the query runs.
pub open spec fn after_set(m: GraphModel, q: Query, name: Seq<char>, value: Seq<char>) -> Result<
    GraphModel,
    Error,
> {
    if value == null_text() {
        Err(Error::Validation(ValidationError::NullValue))
    } else {
        match eval(m, q) {
            Err(e) => Err(e),
            Ok(outs) => set_effect(m, outs.last(), name, value),
        }
    }
}

/// The outcome of a mutation: on success the database becomes the new one;
/// on an error it is left as it was.
pub open spec fn mutation_done(
    expected: Result<GraphModel, Error>,
    r: Result<(), Error>,
    before: GraphModel,
    after: GraphModel,
) -> bool {
    match expected {
        Ok(m) => r is Ok && after == m,
        Err(e) => r == Err::<(), Error>(e) && after == before,
    }
}

impl MemoryDatastore {
    /// Removes the listed properties of each listed vertex.
    fn delete_vertex_prop_sets(&mut self, s: &Vec<VertexProperties>)
        requires
            old(self)@.wf(),
        ensures
            final(self)@.wf(),
            final(self)@ == old(self)@.without_vertex_prop_sets(vertex_properties_view(s@)),
            final(self).persist_path() == old(self).persist_path(),
    {
        let ghost sv = vertex_properties_view(s@);
        let mut i: usize = 0;
        while i < s.len()
            invariant
                self@.wf(),
                0 <= i <= s.len(),
                sv == vertex_properties_view(s@),
                self@ == old(self)@.without_vertex_prop_sets(sv.take(i as int)),
                self.persist_path() == old(self).persist_path(),
            decreases s.len() - i,
        {
            assert(sv.take(i + 1).drop_last() =~= sv.take(i as int));
            let id = s[i].vertex.id;
            let props = &s[i].props;
            let ghost pv = sv[i as int].1;
            let ghost base = self@;
            let mut j: usize = 0;
            while j < props.len()
                invariant
                self@.wf(),
                    0 <= j <= props.len(),
                    pv == crate::models::props_view(props@),
                    self@ == base.without_props_of_vertex(id, pv.take(j as int)),
                    self.persist_path() == old(self).persist_path(),
                decreases props.len() - j,
            {
                assert(pv.take(j + 1).drop_last() =~= pv.take(j as int));
                self.delete_vertex_property(id, &props[j].name);
                j += 1;
            }
            assert(pv.take(j as int) =~= pv);
            i += 1;
        }
        assert(sv.take(i as int) =~= sv);
    }

    /// Removes the listed properties of each listed edge.
    fn delete_edge_prop_sets(&mut self, s: &Vec<EdgeProperties>)
        requires
            old(self)@.wf(),
        ensures
            final(self)@.wf(),
            final(self)@ == old(self)@.without_edge_prop_sets(edge_properties_view(s@)),
            final(self).persist_path() == old(self).persist_path(),
    {
        let ghost sv = edge_properties_view(s@);
        let mut i: usize = 0;
        while i < s.len()
            invariant
                self@.wf(),
                0 <= i <= s.len(),
                sv == edge_properties_view(s@),
                self@ == old(self)@.without_edge_prop_sets(sv.take(i as int)),
                self.persist_path() == old(self).persist_path(),
            decreases s.len() - i,
        {
            assert(sv.take(i + 1).drop_last() =~= sv.take(i as int));
            let e = &s[i].edge;
            let props = &s[i].props;
            let ghost pv = sv[i as int].1;
            let ghost base = self@;
            let mut j: usize = 0;
            while j < props.len()
                invariant
                self@.wf(),
                    0 <= j <= props.len(),
                    pv == crate::models::props_view(props@),
                    self@ == base.without_props_of_edge(e@, pv.take(j as int)),
                    self.persist_path() == old(self).persist_path(),
                decreases props.len() - j,
            {
                assert(pv.take(j + 1).drop_last() =~= pv.take(j as int));
                self.delete_edge_property(e, &props[j].name);
                j += 1;
            }
            assert(pv.take(j as int) =~= pv);
            i += 1;
        }
        assert(sv.take(i as int) =~= sv);
    }

    /// Sets the property on each listed vertex.
    fn set_vertex_props(&mut self, vs: &Vec<Vertex>, name: &Identifier, value: &Json)
        requires
            old(self)@.wf(),
        ensures
            final(self)@.wf(),
            final(self)@ == old(self)@.with_vertex_props(vertex_ids(vertices_view(vs@)), name@, value@),
            final(self).persist_path() == old(self).persist_path(),
    {
        let ghost ids = vertex_ids(vertices_view(vs@));
        let mut i: usize = 0;
        while i < vs.len()
            invariant
                self@.wf(),
                0 <= i <= vs.len(),
                ids == vertex_ids(vertices_view(vs@)),
                self@ == old(self)@.with_vertex_props(ids.take(i as int), name@, value@),
                self.persist_path() == old(self).persist_path(),
            decreases vs.len() - i,
        {
            assert(ids.take(i + 1).drop_last() =~= ids.take(i as int));
            self.set_vertex_property(vs[i].id, name, value);
            i += 1;
        }
        assert(ids.take(i as int) =~= ids);
    }

    /// Sets the property on each listed edge.
    fn set_edge_props(&mut self, es: &Vec<crate::models::Edge>, name: &Identifier, value: &Json)
        requires
            old(self)@.wf(),
        ensures
            final(self)@.wf(),
            final(self)@ == old(self)@.with_edge_props(edges_view(es@), name@, value@),
            final(self).persist_path() == old(self).persist_path(),
    {
        let ghost ev = edges_view(es@);
        let mut i: usize = 0;
        while i < es.len()
            invariant
                self@.wf(),
                0 <= i <= es.len(),
                ev == edges_view(es@),
                self@ == old(self)@.with_edge_props(ev.take(i as int), name@, value@),
                self.persist_path() == old(self).persist_path(),
            decreases es.len() - i,
        {
            assert(ev.take(i + 1).drop_last() =~= ev.take(i as int));
            self.set_edge_property(&es[i], name, value);
            i += 1;
        }
        assert(ev.take(i as int) =~= ev);
    }

    /// Deletes the items of the query's final output: vertices (with their
    /// edges and properties), edges (with their properties), or properties.
    /// A count cannot be deleted (`Unsupported`); query errors pass through.
    pub fn delete(&mut self, q: &Query) -> (r: Result<(), Error>)
        requires
            old(self)@.wf(),
        ensures
            final(self)@.wf(),
            mutation_done(after_delete(old(self)@, *q), r, old(self)@, final(self)@),
            final(self).persist_path() == old(self).persist_path(),
    {
        let mut outs = match self.get(q) {
            Ok(o) => o,
            Err(e) => return Err(e),
        };
        let ghost ov = result_view(Ok::<Vec<QueryOutputValue>, Error>(outs));
        let last = match outs.pop() {
            Some(l) => l,
            None => return Err(Error::Unsupported),
        };
        assert(last@ == ov->Ok_0.last());
        match last {
            QueryOutputValue::Vertices(vs) => {
                let mut ids: Vec<u128> = Vec::new();
                let mut i: usize = 0;
                while i < vs.len()
                    invariant
                self@.wf(),
                        0 <= i <= vs.len(),
                        ids@ == vertex_ids(vertices_view(vs@)).take(i as int),
                    decreases vs.len() - i,
                {
                    ids.push(vs[i].id);
                    assert(ids@ =~= vertex_ids(vertices_view(vs@)).take(i + 1));
                    i += 1;
                }
                assert(ids@ =~= vertex_ids(vertices_view(vs@)));
                self.delete_vertices(&ids);
            },
            QueryOutputValue::Edges(es) => {
                self.delete_edges(&es);
            },
            QueryOutputValue::VertexProperties(s) => {
                self.delete_vertex_prop_sets(&s);
            },
            QueryOutputValue::EdgeProperties(s) => {
                self.delete_edge_prop_sets(&s);
            },
            QueryOutputValue::Count(_) => {
                return Err(Error::Unsupported);
            },
        }
        Ok(())
    }

    /// Sets a property on the vertices or edges of the query's final output.
    /// A `null` value is refused (`Validation`); other outputs are
    /// `Unsupported`; query errors pass through.
    pub fn set_properties(&mut self, q: &Query, name: &Identifier, value: &Json) -> (r: Result<(), Error>)
        requires
            old(self)@.wf(),
        ensures
            final(self)@.wf(),
            mutation_done(after_set(old(self)@, *q, name@, value@), r, old(self)@, final(self)@),
            final(self).persist_path() == old(self).persist_path(),
    {
        if value.is_null() {
            return Err(Error::Validation(ValidationError::NullValue));
        }
        let mut outs = match self.get(q) {
            Ok(o) => o,
            Err(e) => return Err(e),
        };
        let ghost ov = result_view(Ok::<Vec<QueryOutputValue>, Error>(outs));
        let last = match outs.pop() {
            Some(l) => l,
            None => return Err(Error::Unsupported),
        };
        assert(last@ == ov->Ok_0.last());
        match last {
            QueryOutputValue::Vertices(vs) => {
                self.set_vertex_props(&vs, name, value);
            },
            QueryOutputValue::Edges(es) => {
                self.set_edge_props(&es, name, value);
            },
            _ => {
                return Err(Error::Unsupported);
            },
        }
        Ok(())
    }

    /// Applies the items in turn; items whose owner or endpoints are
    /// missing, and vertices whose id is taken, are skipped. A property item
    /// on an existing owner sets the value, whatever it is.
    pub fn bulk_insert(&mut self, items: &Vec<BulkInsertItem>)
        requires
            old(self)@.wf(),
        ensures
            final(self)@.wf(),
            final(self)@ == old(self)@.with_items(items@),
            final(self).persist_path() == old(self).persist_path(),
    {
        let mut i: usize = 0;
        while i < items.len()
            invariant
                self@.wf(),
                0 <= i <= items.len(),
                self@ == old(self)@.with_items(items@.take(i as int)),
                self.persist_path() == old(self).persist_path(),
            decreases items.len() - i,
        {
            assert(items@.take(i + 1).drop_last() =~= items@.take(i as int));
            match &items[i] {
                BulkInsertItem::Vertex(v) => {
                    self.create_vertex(v);
                },
                BulkInsertItem::Edge(e) => {
                    self.create_edge(e);
                },
                BulkInsertItem::VertexProperty(id, name, value) => {
                    self.set_vertex_property(*id, name, value);
                },
                BulkInsertItem::EdgeProperty(e, name, value) => {
                    self.set_edge_property(e, name, value);
                },
            }
            i += 1;
        }
        assert(items@.take(i as int) =~= items@);
    }

    /// Creates a vertex of the type with the id and returns the id;
    /// `UuidTaken`, with nothing changed, if a vertex already has that id.
    pub fn create_vertex_with_id(&mut self, id: u128, t: Identifier) -> (r: Result<u128, Error>)
        requires
            old(self)@.wf(),
        ensures
            final(self)@.wf(),
            r == (if has_vertex(old(self)@.vertices, id) {
                Err::<u128, Error>(Error::UuidTaken)
            } else {
                Ok::<u128, Error>(id)
            }),
            final(self)@ == old(self)@.with_vertex((id, t@)),
            final(self).persist_path() == old(self).persist_path(),
    {
        let v = Vertex::with_id(id, t);
        if self.create_vertex(&v) {
            Ok(id)
        } else {
            Err(Error::UuidTaken)
        }
    }

    /// Creates a vertex of the type with a freshly drawn random version-4
    /// id, and returns the id; `UuidTaken` if a vertex already has that id,
    /// which cannot happen in an empty store.
    pub fn create_vertex_from_type(&mut self, t: Identifier) -> (r: Result<u128, Error>)
        requires
            old(self)@.wf(),
        ensures
            final(self)@.wf(),
            old(self)@.vertices.len() == 0 ==> r is Ok,
            match r {
                Ok(id) => is_v4(id) && !has_vertex(old(self)@.vertices, id) && final(self)@
                    == old(self)@.with_vertex((id, t@)),
                Err(e) => e == Error::UuidTaken && final(self)@ == old(self)@,
            },
            final(self).persist_path() == old(self).persist_path(),
    {
        let id = random_id();
        self.create_vertex_with_id(id, t)
    }
}

} // verus!
