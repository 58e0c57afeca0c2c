use vstd::prelude::*;

use crate::graph::{
    edge_away_from, edge_other_than, edge_prop, edge_prop_other_than, edge_prop_pair, edge_prop_update,
    edge_below, edge_lt, edge_position, vertex_prop_below, edge_prop_below, vertex_prop_set, edge_prop_set,
    vertex_prop_named_in, edge_prop_named_in, reverse, lemma_edge_lt_transitive, edge_props_of, find_vertex, has_vertex, id_below, lemma_filter_take_step, prop_away_from, prop_not_of_edge,
    prop_not_of_vertex, prop_of_edge, prop_of_vertex, vertex_other_than, vertex_prop, vertex_prop_other_than,
    vertex_prop_pair, vertex_prop_update, vertex_props_of, EdgePropModel, GraphModel, VertexPropModel,
};
use crate::identifiers::Identifier;
use crate::invariants::{
    lemma_wf_with_edge, lemma_wf_with_edge_prop, lemma_wf_with_index, lemma_wf_with_vertex,
    lemma_wf_with_vertex_prop, lemma_wf_without_edge, lemma_wf_without_edge_prop,
    lemma_wf_without_vertex, lemma_wf_without_vertex_prop, ascending, edges_ascending, edge_prop_key,
    name_key, unique_by, vertex_prop_key, sorted_by, lemma_index_filled, vertex_prop_order, edge_prop_order,
};
use crate::identifiers::lemma_chars_lt_transitive;
use crate::errors::{Error, ValidationError};
use crate::json::Json;
use crate::evaluator::{
    all_edge_props, all_vertex_props, entry_edge, entry_vertex, edge_entry, vertex_entry,
    indexed_edges, indexed_vertices, opt_json_view, edge_from, edges_of, swap_ends, edge_presence, edge_value, in_range, lookup_vertex,
    named_edge_prop, named_vertex_prop, of_type, opt_view, pipe_edges, specific_vertices, stored_edge,
    type_matches, vertex_presence, vertex_value, endpoint,
};
use crate::graph::{lemma_take_at_most_step, take_at_most};
use crate::models::{
    EdgeModel, PropModel, VertexModel, edge_properties_view, edges_view, props_view, vertex_properties_view, vertices_view, Edge,
    EdgeDirection, EdgeProperties, NamedProperty, Vertex, VertexProperties,
};

verus! {

/// A stored vertex property: its owner, name and value.
pub struct VertexPropertyRow {
    pub id: u128,
    pub name: Identifier,
    pub value: Json,
}

impl View for VertexPropertyRow {
    type V = VertexPropModel;

    open spec fn view(&self) -> VertexPropModel {
        (self.id, self.name@, self.value@)
    }
}

impl VertexPropertyRow {
    /// A copy of the row.
    pub fn cloned(&self) -> (r: VertexPropertyRow)
        ensures
            r@ == self@,
    {
        VertexPropertyRow { id: self.id, name: self.name.cloned(), value: self.value.cloned() }
    }
}

/// A stored edge property: its owner, name and value.
pub struct EdgePropertyRow {
    pub edge: Edge,
    pub name: Identifier,
    pub value: Json,
}

impl View for EdgePropertyRow {
    type V = EdgePropModel;

    open spec fn view(&self) -> EdgePropModel {
        (self.edge@, self.name@, self.value@)
    }
}

impl EdgePropertyRow {
    /// A copy of the row.
    pub fn cloned(&self) -> (r: EdgePropertyRow)
        ensures
            r@ == self@,
    {
        EdgePropertyRow { edge: self.edge.cloned(), name: self.name.cloned(), value: self.value.cloned() }
    }
}

/// The views of a sequence of vertex property rows.
pub open spec fn vertex_rows_view(s: Seq<VertexPropertyRow>) -> Seq<VertexPropModel> {
    s.map_values(|p: VertexPropertyRow| p@)
}

/// The views of a sequence of edge property rows.
pub open spec fn edge_rows_view(s: Seq<EdgePropertyRow>) -> Seq<EdgePropModel> {
    s.map_values(|p: EdgePropertyRow| p@)
}

/// The views of a sequence of names.
pub open spec fn names_view(s: Seq<Identifier>) -> Seq<Seq<char>> {
    s.map_values(|n: Identifier| n@)
}

/// The tables of a datastore as plain values, for writing and reading an
/// image of it. The property index is not among them: it is rebuilt from
/// the properties and the indexed names.
pub struct Tables {
    pub vertices: Vec<Vertex>,
    pub edges: Vec<Edge>,
    pub reversed_edges: Vec<Edge>,
    pub vertex_properties: Vec<VertexPropertyRow>,
    pub edge_properties: Vec<EdgePropertyRow>,
    pub indexed: Vec<Identifier>,
}

impl View for Tables {
    type V = GraphModel;

    open spec fn view(&self) -> GraphModel {
        GraphModel {
            vertices: vertices_view(self.vertices@),
            edges: edges_view(self.edges@),
            reversed_edges: edges_view(self.reversed_edges@),
            vertex_properties: vertex_rows_view(self.vertex_properties@),
            edge_properties: edge_rows_view(self.edge_properties@),
            indexed: names_view(self.indexed@),
            vertex_index: vertex_rows_view(self.vertex_properties@).filter(
                vertex_prop_named_in(names_view(self.indexed@)),
            ),
            edge_index: edge_rows_view(self.edge_properties@).filter(
                edge_prop_named_in(names_view(self.indexed@)),
            ),
        }
    }
}

/// The tables agree, but for the property index.
pub open spec fn same_tables(a: GraphModel, b: GraphModel) -> bool {
    &&& a.vertices == b.vertices
    &&& a.edges == b.edges
    &&& a.reversed_edges == b.reversed_edges
    &&& a.vertex_properties == b.vertex_properties
    &&& a.edge_properties == b.edge_properties
    &&& a.indexed == b.indexed
}

/// An in-memory datastore. Every table is a vector kept in key order:
/// vertices by id, edges by (outbound id, type, inbound id), reversed edges
/// by (inbound id, type, outbound id), properties by (owner, name). The
/// property index holds the rows of the properties whose name is in
/// `indexed`, in the same order; every mutation keeps it in step.
///
/// The vertex table is a sorted vector rather than a `BTreeMap` keyed by id:
/// range queries walk it from a starting id and take a prefix, and vstd
/// specifies neither `BTreeMap::range` nor positions within the map. Keeping
/// every table as one key-ordered sequence also lets every query and
/// mutation be stated over the same model, `GraphModel`.
pub struct MemoryDatastore {
    pub(crate) vertices: Vec<Vertex>,
    pub(crate) edges: Vec<Edge>,
    pub(crate) reversed_edges: Vec<Edge>,
    pub(crate) vertex_properties: Vec<VertexPropertyRow>,
    pub(crate) edge_properties: Vec<EdgePropertyRow>,
    pub(crate) indexed: Vec<Identifier>,
    pub(crate) vertex_index: Vec<VertexPropertyRow>,
    pub(crate) edge_index: Vec<EdgePropertyRow>,
    pub(crate) path: Option<String>,
}

impl View for MemoryDatastore {
    type V = GraphModel;

    closed spec fn view(&self) -> GraphModel {
        GraphModel {
            vertices: vertices_view(self.vertices@),
            edges: edges_view(self.edges@),
            reversed_edges: edges_view(self.reversed_edges@),
            vertex_properties: vertex_rows_view(self.vertex_properties@),
            edge_properties: edge_rows_view(self.edge_properties@),
            indexed: names_view(self.indexed@),
            vertex_index: vertex_rows_view(self.vertex_index@),
            edge_index: edge_rows_view(self.edge_index@),
        }
    }
}

impl MemoryDatastore {
    /// An empty datastore that is not persisted.
    pub fn new() -> (r: MemoryDatastore)
        ensures
            r@ == GraphModel::empty(),
            r@.wf(),
            r.persist_path() is None,
    {
        let r = MemoryDatastore {
            vertices: Vec::new(),
            edges: Vec::new(),
            reversed_edges: Vec::new(),
            vertex_properties: Vec::new(),
            edge_properties: Vec::new(),
            indexed: Vec::new(),
            vertex_index: Vec::new(),
            edge_index: Vec::new(),
            path: None,
        };
        proof {
            assert(r@.vertices =~= Seq::empty());
            assert(r@.edges =~= Seq::empty());
            assert(r@.reversed_edges =~= Seq::empty());
            assert(r@.vertex_properties =~= Seq::empty());
            assert(r@.edge_properties =~= Seq::empty());
            assert(r@.indexed =~= Seq::empty());
            assert(r@.vertex_index =~= Seq::empty());
            assert(r@.edge_index =~= Seq::empty());
        }
        r
    }

    /// An empty datastore that `sync` writes to `path`, without reading what
    /// is there first.
    pub fn create(path: String) -> (r: MemoryDatastore)
        ensures
            r@ == GraphModel::empty(),
            r@.wf(),
            r.persist_path() == Some(path@),
    {
        let mut r = MemoryDatastore::new();
        r.path = Some(path);
        r
    }

    /// Where the datastore is persisted, if anywhere.
    pub closed spec fn persist_path(&self) -> Option<Seq<char>> {
        match self.path {
            Some(p) => Some(p@),
            None => None,
        }
    }

    /// A copy of every table but the index.
    pub fn to_tables(&self) -> (r: Tables)
        ensures
            same_tables(r@, self@),
    {
        Tables {
            vertices: self.all_vertices(),
            edges: self.all_edges(),
            reversed_edges: copy_edges(&self.reversed_edges),
            vertex_properties: copy_vertex_rows(&self.vertex_properties),
            edge_properties: copy_edge_rows(&self.edge_properties),
            indexed: copy_names(&self.indexed),
        }
    }

    /// A datastore holding the tables, persisted to `path` if given;
    /// `InvalidValue` where the tables break the store's invariants.
    pub fn from_tables(tables: Tables, path: Option<String>) -> (r: Result<MemoryDatastore, Error>)
        ensures
            tables@.wf() ==> (r matches Ok(d) && d@ == tables@ && d.persist_path() == (match path {
                Some(p) => Some(p@),
                None => None::<Seq<char>>,
            })),
            !tables@.wf() ==> r == Err::<MemoryDatastore, Error>(
                Error::Validation(ValidationError::InvalidValue),
            ),
    {
        if !tables_wf(&tables) {
            return Err(Error::Validation(ValidationError::InvalidValue));
        }
        let vertex_index = vertex_rows_named_in(&tables.vertex_properties, &tables.indexed);
        let edge_index = edge_rows_named_in(&tables.edge_properties, &tables.indexed);
        Ok(
            MemoryDatastore {
                vertices: tables.vertices,
                edges: tables.edges,
                reversed_edges: tables.reversed_edges,
                vertex_properties: tables.vertex_properties,
                edge_properties: tables.edge_properties,
                indexed: tables.indexed,
                vertex_index,
                edge_index,
                path,
            },
        )
    }

    /// Where the datastore is persisted, if anywhere.
    pub fn path(&self) -> (r: Option<&str>)
        ensures
            match r {
                Some(p) => self.persist_path() == Some(p@),
                None => self.persist_path() is None,
            },
    {
        match &self.path {
            Some(p) => Some(p.as_str()),
            None => None,
        }
    }

    /// Whether a vertex with the id exists.
    pub fn has_vertex(&self, id: u128) -> (r: bool)
        ensures
            r == has_vertex(self@.vertices, id),
    {
        vertices_have(&self.vertices, id)
    }

    /// The vertex with the id, if it exists.
    pub fn find_vertex(&self, id: u128) -> (r: Option<Vertex>)
        ensures
            match r {
                Some(v) => find_vertex(self@.vertices, id) == Some(v@),
                None => find_vertex(self@.vertices, id) is None,
            },
    {
        let ghost vs = self@.vertices;
        let mut found: Option<Vertex> = None;
        let mut i: usize = 0;
        while i < self.vertices.len()
            invariant
                0 <= i <= self.vertices.len(),
                vs == vertices_view(self.vertices@),
                match found {
                    Some(v) => find_vertex(vs.take(i as int), id) == Some(v@),
                    None => find_vertex(vs.take(i as int), id) is None,
                },
            decreases self.vertices.len() - i,
        {
            assert(vs.take(i + 1).drop_last() =~= vs.take(i as int));
            if self.vertices[i].id == id {
                found = Some(self.vertices[i].cloned());
            }
            i += 1;
        }
        assert(vs.take(i as int) =~= vs);
        found
    }

    /// Whether the edge exists.
    pub fn has_edge(&self, e: &Edge) -> (r: bool)
        ensures
            r == self@.edges.contains(e@),
    {
        edges_have(&self.edges, e)
    }

    /// Whether the property name is indexed.
    pub fn is_indexed(&self, name: &Identifier) -> (r: bool)
        ensures
            r == self@.indexed.contains(name@),
    {
        let ghost ns = self@.indexed;
        let mut i: usize = 0;
        while i < self.indexed.len()
            invariant
                0 <= i <= self.indexed.len(),
                ns == names_view(self.indexed@),
                forall|j: int| 0 <= j < i ==> (#[trigger] ns[j]) != name@,
            decreases self.indexed.len() - i,
        {
            if self.indexed[i].same(name) {
                assert(ns[i as int] == name@);
                return true;
            }
            i += 1;
        }
        false
    }

    /// The value of a vertex's property, if it is set.
    pub fn vertex_property(&self, id: u128, name: &Identifier) -> (r: Option<Json>)
        ensures
            match r {
                Some(x) => vertex_prop(self@.vertex_properties, id, name@) == Some(x@),
                None => vertex_prop(self@.vertex_properties, id, name@) is None,
            },
    {
        vertex_row_value(&self.vertex_properties, id, name)
    }

    /// The value of an edge's property, if it is set.
    pub fn edge_property(&self, e: &Edge, name: &Identifier) -> (r: Option<Json>)
        ensures
            match r {
                Some(x) => edge_prop(self@.edge_properties, e@, name@) == Some(x@),
                None => edge_prop(self@.edge_properties, e@, name@) is None,
            },
    {
        edge_row_value(&self.edge_properties, e, name)
    }

    /// Every property of a vertex, by name.
    pub fn all_vertex_properties(&self, id: u128) -> (r: Vec<NamedProperty>)
        ensures
            props_view(r@) == vertex_props_of(self@.vertex_properties, id),
    {
        let ghost ps = self@.vertex_properties;
        let ghost pred = prop_of_vertex(id);
        let ghost f = vertex_prop_pair();
        let mut out: Vec<NamedProperty> = Vec::new();
        let mut i: usize = 0;
        while i < self.vertex_properties.len()
            invariant
                0 <= i <= self.vertex_properties.len(),
                ps == vertex_rows_view(self.vertex_properties@),
                pred == prop_of_vertex(id),
                f == vertex_prop_pair(),
                props_view(out@) == ps.take(i as int).filter(pred).map_values(f),
            decreases self.vertex_properties.len() - i,
        {
            assert(ps.take(i + 1).drop_last() =~= ps.take(i as int));
            let row = &self.vertex_properties[i];
            proof {
                lemma_filter_take_step(ps, pred, i as int);
            }
            let ghost before = out@;
            if row.id == id {
                out.push(NamedProperty::new(row.name.cloned(), row.value.cloned()));
                assert(props_view(out@) =~= props_view(before).push(f(ps[i as int])));
                assert(props_view(out@) =~= ps.take(i + 1).filter(pred).map_values(f));
            } else {
            }
            i += 1;
        }
        assert(ps.take(i as int) =~= ps);
        out
    }

    /// Every property of an edge, by name.
    pub fn all_edge_properties(&self, e: &Edge) -> (r: Vec<NamedProperty>)
        ensures
            props_view(r@) == edge_props_of(self@.edge_properties, e@),
    {
        let ghost ps = self@.edge_properties;
        let ghost pred = prop_of_edge(e@);
        let ghost f = edge_prop_pair();
        let mut out: Vec<NamedProperty> = Vec::new();
        let mut i: usize = 0;
        while i < self.edge_properties.len()
            invariant
                0 <= i <= self.edge_properties.len(),
                ps == edge_rows_view(self.edge_properties@),
                pred == prop_of_edge(e@),
                f == edge_prop_pair(),
                props_view(out@) == ps.take(i as int).filter(pred).map_values(f),
            decreases self.edge_properties.len() - i,
        {
            assert(ps.take(i + 1).drop_last() =~= ps.take(i as int));
            let row = &self.edge_properties[i];
            proof {
                lemma_filter_take_step(ps, pred, i as int);
            }
            let ghost before = out@;
            if row.edge.same(e) {
                out.push(NamedProperty::new(row.name.cloned(), row.value.cloned()));
                assert(props_view(out@) =~= props_view(before).push(f(ps[i as int])));
                assert(props_view(out@) =~= ps.take(i + 1).filter(pred).map_values(f));
            } else {
            }
            i += 1;
        }
        assert(ps.take(i as int) =~= ps);
        out
    }

    /// Every vertex, in ascending id order.
    pub fn all_vertices(&self) -> (r: Vec<Vertex>)
        ensures
            vertices_view(r@) == self@.vertices,
    {
        let ghost s = self@.vertices;
        let mut out: Vec<Vertex> = Vec::new();
        let mut i: usize = 0;
        while i < self.vertices.len()
            invariant
                0 <= i <= self.vertices.len(),
                s == vertices_view(self.vertices@),
                vertices_view(out@) == s.take(i as int),
            decreases self.vertices.len() - i,
        {
            let ghost before = out@;
            out.push(self.vertices[i].cloned());
            assert(vertices_view(out@) =~= vertices_view(before).push(s[i as int]));
            assert(s.take(i + 1) =~= s.take(i as int).push(s[i as int]));
            i += 1;
        }
        assert(s.take(i as int) =~= s);
        out
    }

    /// Every edge, in key order.
    pub fn all_edges(&self) -> (r: Vec<Edge>)
        ensures
            edges_view(r@) == self@.edges,
    {
        let ghost s = self@.edges;
        let mut out: Vec<Edge> = Vec::new();
        let mut i: usize = 0;
        while i < self.edges.len()
            invariant
                0 <= i <= self.edges.len(),
                s == edges_view(self.edges@),
                edges_view(out@) == s.take(i as int),
            decreases self.edges.len() - i,
        {
            let ghost before = out@;
            out.push(self.edges[i].cloned());
            assert(edges_view(out@) =~= edges_view(before).push(s[i as int]));
            assert(s.take(i + 1) =~= s.take(i as int).push(s[i as int]));
            i += 1;
        }
        assert(s.take(i as int) =~= s);
        out
    }

    /// The vertices from the starting id on, of the wanted type, in ascending
    /// id order; at most `limit` of them.
    pub fn range_vertices(&self, start: Option<u128>, t: &Option<Identifier>, limit: u32) -> (r: Vec<
        Vertex,
    >)
        ensures
            vertices_view(r@) == take_at_most(
                self@.vertices.filter(in_range(start, opt_view(*t))),
                limit as int,
            ),
    {
        let ghost s = self@.vertices;
        let ghost p = in_range(start, opt_view(*t));
        let mut out: Vec<Vertex> = Vec::new();
        let mut i: usize = 0;
        while i < self.vertices.len()
            invariant
                0 <= i <= self.vertices.len(),
                s == vertices_view(self.vertices@),
                p == in_range(start, opt_view(*t)),
                vertices_view(out@) == take_at_most(s.take(i as int).filter(p), limit as int),
            decreases self.vertices.len() - i,
        {
            proof {
                lemma_filter_take_step(s, p, i as int);
                lemma_take_at_most_step(s.take(i as int).filter(p), s[i as int], limit as int);
            }
            let v = &self.vertices[i];
            let from_start = match start {
                Some(st) => v.id >= st,
                None => true,
            };
            if from_start && type_ok(&v.t, t) && out.len() < limit as usize {
                let ghost before = out@;
                out.push(v.cloned());
                assert(vertices_view(out@) =~= vertices_view(before).push(s[i as int]));
            }
            i += 1;
        }
        assert(s.take(i as int) =~= s);
        out
    }

    /// The vertices with the ids, in the order of the ids, skipping ids that
    /// do not exist.
    pub fn specific_vertices(&self, ids: &Vec<u128>) -> (r: Vec<Vertex>)
        ensures
            vertices_view(r@) == specific_vertices(self@.vertices, ids@),
    {
        let ghost f = lookup_vertex(self@.vertices);
        let mut out: Vec<Vertex> = Vec::new();
        let mut i: usize = 0;
        while i < ids.len()
            invariant
                0 <= i <= ids.len(),
                f == lookup_vertex(self@.vertices),
                vertices_view(out@) == ids@.take(i as int).filter_map(f),
            decreases ids.len() - i,
        {
            proof {
                ids@.lemma_filter_map_take_succ(f, i as int);
            }
            let ghost before = out@;
            match self.find_vertex(ids[i]) {
                Some(v) => {
                    out.push(v);
                    assert(vertices_view(out@) =~= vertices_view(before) + seq![v@]);
                },
                None => {
                    assert(vertices_view(out@) =~= vertices_view(before) + Seq::<(u128, Seq<char>)>::empty());
                },
            }
            i += 1;
        }
        assert(ids@.take(i as int) =~= ids@);
        out
    }

    /// The edges of the list that are stored, in the order of the list.
    pub fn specific_edges(&self, es: &Vec<Edge>) -> (r: Vec<Edge>)
        ensures
            edges_view(r@) == edges_view(es@).filter(stored_edge(self@.edges)),
    {
        let ghost s = edges_view(es@);
        let ghost p = stored_edge(self@.edges);
        let mut out: Vec<Edge> = Vec::new();
        let mut i: usize = 0;
        while i < es.len()
            invariant
                0 <= i <= es.len(),
                s == edges_view(es@),
                p == stored_edge(self@.edges),
                edges_view(out@) == s.take(i as int).filter(p),
            decreases es.len() - i,
        {
            proof {
                lemma_filter_take_step(s, p, i as int);
            }
            if self.has_edge(&es[i]) {
                let ghost before = out@;
                out.push(es[i].cloned());
                assert(edges_view(out@) =~= edges_view(before).push(s[i as int]));
            }
            i += 1;
        }
        assert(s.take(i as int) =~= s);
        out
    }

    /// The vertices that the index lists under the name (and value, where
    /// one is given), in index order.
    pub fn vertices_from_index(&self, name: &Identifier, value: &Option<Json>) -> (r: Vec<Vertex>)
        ensures
            vertices_view(r@) == indexed_vertices(self@, name@, opt_json_view(*value)),
    {
        let ghost s = self@.vertex_index;
        let ghost p = vertex_entry(name@, opt_json_view(*value));
        let ghost f = entry_vertex();
        let mut ids: Vec<u128> = Vec::new();
        let mut i: usize = 0;
        while i < self.vertex_index.len()
            invariant
                0 <= i <= self.vertex_index.len(),
                s == vertex_rows_view(self.vertex_index@),
                p == vertex_entry(name@, opt_json_view(*value)),
                f == entry_vertex(),
                ids@ == s.take(i as int).filter(p).map_values(f),
            decreases self.vertex_index.len() - i,
        {
            proof {
                lemma_filter_take_step(s, p, i as int);
            }
            let row = &self.vertex_index[i];
            let matches = row.name.same(name) && match value {
                Some(x) => row.value.same(x),
                None => true,
            };
            if matches {
                let ghost before = ids@;
                ids.push(row.id);
                assert(ids@ =~= before.push(f(s[i as int])));
                assert(s.take(i as int).filter(p).push(s[i as int]).map_values(f) =~= s.take(
                    i as int,
                ).filter(p).map_values(f).push(f(s[i as int])));
            }
            i += 1;
        }
        assert(s.take(i as int) =~= s);
        self.specific_vertices(&ids)
    }

    /// The edges that the index lists under the name (and value, where one
    /// is given), in index order.
    pub fn edges_from_index(&self, name: &Identifier, value: &Option<Json>) -> (r: Vec<Edge>)
        ensures
            edges_view(r@) == indexed_edges(self@, name@, opt_json_view(*value)),
    {
        let ghost s = self@.edge_index;
        let ghost p = edge_entry(name@, opt_json_view(*value));
        let ghost f = entry_edge();
        let mut out: Vec<Edge> = Vec::new();
        let mut i: usize = 0;
        while i < self.edge_index.len()
            invariant
                0 <= i <= self.edge_index.len(),
                s == edge_rows_view(self.edge_index@),
                p == edge_entry(name@, opt_json_view(*value)),
                f == entry_edge(),
                edges_view(out@) == s.take(i as int).filter(p).map_values(f),
            decreases self.edge_index.len() - i,
        {
            proof {
                lemma_filter_take_step(s, p, i as int);
            }
            let row = &self.edge_index[i];
            let matches = row.name.same(name) && match value {
                Some(x) => row.value.same(x),
                None => true,
            };
            if matches {
                let ghost before = out@;
                out.push(row.edge.cloned());
                assert(edges_view(out@) =~= edges_view(before).push(f(s[i as int])));
                assert(s.take(i as int).filter(p).push(s[i as int]).map_values(f) =~= s.take(
                    i as int,
                ).filter(p).map_values(f).push(f(s[i as int])));
            }
            i += 1;
        }
        assert(s.take(i as int) =~= s);
        out
    }

    /// The vertices of the list that have (or lack) an entry for the
    /// property in the index.
    pub fn vertices_by_presence(&self, vs: &Vec<Vertex>, name: &Identifier, exists: bool) -> (r: Vec<
        Vertex,
    >)
        ensures
            vertices_view(r@) == vertices_view(vs@).filter(
                vertex_presence(self@.vertex_index, name@, exists),
            ),
    {
        let ghost s = vertices_view(vs@);
        let ghost p = vertex_presence(self@.vertex_index, name@, exists);
        let mut out: Vec<Vertex> = Vec::new();
        let mut i: usize = 0;
        while i < vs.len()
            invariant
                0 <= i <= vs.len(),
                s == vertices_view(vs@),
                p == vertex_presence(self@.vertex_index, name@, exists),
                vertices_view(out@) == s.take(i as int).filter(p),
            decreases vs.len() - i,
        {
            proof {
                lemma_filter_take_step(s, p, i as int);
            }
            if vertex_row_value(&self.vertex_index, vs[i].id, name).is_some() == exists {
                let ghost before = out@;
                out.push(vs[i].cloned());
                assert(vertices_view(out@) =~= vertices_view(before).push(s[i as int]));
            }
            i += 1;
        }
        assert(s.take(i as int) =~= s);
        out
    }

    /// The vertices of the list whose index entry for the property equals
    /// (or, with `equal` false, does not equal) the value.
    pub fn vertices_by_value(
        &self,
        vs: &Vec<Vertex>,
        name: &Identifier,
        value: &Json,
        equal: bool,
    ) -> (r: Vec<Vertex>)
        ensures
            vertices_view(r@) == vertices_view(vs@).filter(
                vertex_value(self@.vertex_index, name@, value@, equal),
            ),
    {
        let ghost s = vertices_view(vs@);
        let ghost p = vertex_value(self@.vertex_index, name@, value@, equal);
        let mut out: Vec<Vertex> = Vec::new();
        let mut i: usize = 0;
        while i < vs.len()
            invariant
                0 <= i <= vs.len(),
                s == vertices_view(vs@),
                p == vertex_value(self@.vertex_index, name@, value@, equal),
                vertices_view(out@) == s.take(i as int).filter(p),
            decreases vs.len() - i,
        {
            proof {
                lemma_filter_take_step(s, p, i as int);
            }
            let same = match vertex_row_value(&self.vertex_index, vs[i].id, name) {
                Some(x) => x.same(value),
                None => false,
            };
            if same == equal {
                let ghost before = out@;
                out.push(vs[i].cloned());
                assert(vertices_view(out@) =~= vertices_view(before).push(s[i as int]));
            }
            i += 1;
        }
        assert(s.take(i as int) =~= s);
        out
    }

    /// The edges of the list that have (or lack) an entry for the property in
    /// the index.
    pub fn edges_by_presence(&self, es: &Vec<Edge>, name: &Identifier, exists: bool) -> (r: Vec<
        Edge,
    >)
        ensures
            edges_view(r@) == edges_view(es@).filter(
                edge_presence(self@.edge_index, name@, exists),
            ),
    {
        let ghost s = edges_view(es@);
        let ghost p = edge_presence(self@.edge_index, name@, exists);
        let mut out: Vec<Edge> = Vec::new();
        let mut i: usize = 0;
        while i < es.len()
            invariant
                0 <= i <= es.len(),
                s == edges_view(es@),
                p == edge_presence(self@.edge_index, name@, exists),
                edges_view(out@) == s.take(i as int).filter(p),
            decreases es.len() - i,
        {
            proof {
                lemma_filter_take_step(s, p, i as int);
            }
            if edge_row_value(&self.edge_index, &es[i], name).is_some() == exists {
                let ghost before = out@;
                out.push(es[i].cloned());
                assert(edges_view(out@) =~= edges_view(before).push(s[i as int]));
            }
            i += 1;
        }
        assert(s.take(i as int) =~= s);
        out
    }

    /// The edges of the list whose index entry for the property equals (or,
    /// with `equal` false, does not equal) the value.
    pub fn edges_by_value(&self, es: &Vec<Edge>, name: &Identifier, value: &Json, equal: bool) -> (r:
        Vec<Edge>)
        ensures
            edges_view(r@) == edges_view(es@).filter(
                edge_value(self@.edge_index, name@, value@, equal),
            ),
    {
        let ghost s = edges_view(es@);
        let ghost p = edge_value(self@.edge_index, name@, value@, equal);
        let mut out: Vec<Edge> = Vec::new();
        let mut i: usize = 0;
        while i < es.len()
            invariant
                0 <= i <= es.len(),
                s == edges_view(es@),
                p == edge_value(self@.edge_index, name@, value@, equal),
                edges_view(out@) == s.take(i as int).filter(p),
            decreases es.len() - i,
        {
            proof {
                lemma_filter_take_step(s, p, i as int);
            }
            let same = match edge_row_value(&self.edge_index, &es[i], name) {
                Some(x) => x.same(value),
                None => false,
            };
            if same == equal {
                let ghost before = out@;
                out.push(es[i].cloned());
                assert(edges_view(out@) =~= edges_view(before).push(s[i as int]));
            }
            i += 1;
        }
        assert(s.take(i as int) =~= s);
        out
    }

    /// The edges of the vertex in the direction, of the wanted type: from
    /// the edge table going out, from the reversed table coming in.
    pub fn edges_of(&self, id: u128, dir: EdgeDirection, t: &Option<Identifier>) -> (r: Vec<Edge>)
        ensures
            edges_view(r@) == edges_of(self@, id, dir, opt_view(*t)),
    {
        let ghost p = edge_from(id, opt_view(*t));
        let mut out: Vec<Edge> = Vec::new();
        match dir {
            EdgeDirection::Outbound => {
                let ghost s = self@.edges;
                let mut i: usize = 0;
                while i < self.edges.len()
                    invariant
                        0 <= i <= self.edges.len(),
                        s == edges_view(self.edges@),
                        p == edge_from(id, opt_view(*t)),
                        edges_view(out@) == s.take(i as int).filter(p),
                    decreases self.edges.len() - i,
                {
                    proof {
                        lemma_filter_take_step(s, p, i as int);
                    }
                    let e = &self.edges[i];
                    if e.outbound_id == id && type_ok(&e.t, t) {
                        let ghost before = out@;
                        out.push(e.cloned());
                        assert(edges_view(out@) =~= edges_view(before).push(s[i as int]));
                    }
                    i += 1;
                }
                assert(s.take(i as int) =~= s);
            },
            EdgeDirection::Inbound => {
                let ghost s = self@.reversed_edges;
                let ghost g = swap_ends();
                let mut i: usize = 0;
                while i < self.reversed_edges.len()
                    invariant
                        0 <= i <= self.reversed_edges.len(),
                        s == edges_view(self.reversed_edges@),
                        p == edge_from(id, opt_view(*t)),
                        g == swap_ends(),
                        edges_view(out@) == s.take(i as int).filter(p).map_values(g),
                    decreases self.reversed_edges.len() - i,
                {
                    proof {
                        lemma_filter_take_step(s, p, i as int);
                    }
                    let e = &self.reversed_edges[i];
                    if e.outbound_id == id && type_ok(&e.t, t) {
                        let ghost before = out@;
                        out.push(e.reversed());
                        assert(edges_view(out@) =~= edges_view(before).push(g(s[i as int])));
                        assert(s.take(i as int).filter(p).push(s[i as int]).map_values(g)
                            =~= s.take(i as int).filter(p).map_values(g).push(g(s[i as int])));
                    }
                    i += 1;
                }
                assert(s.take(i as int) =~= s);
            },
        }
        out
    }

    /// For each vertex of the list in turn, its edges in the direction (of
    /// the wanted type); at most `limit` in all.
    pub fn pipe_vertex_edges(
        &self,
        vs: &Vec<Vertex>,
        dir: EdgeDirection,
        t: &Option<Identifier>,
        limit: u32,
    ) -> (r: Vec<Edge>)
        ensures
            edges_view(r@) == take_at_most(
                pipe_edges(self@, vertices_view(vs@), dir, opt_view(*t)),
                limit as int,
            ),
    {
        let ghost vsv = vertices_view(vs@);
        let ghost tv = opt_view(*t);
        let mut out: Vec<Edge> = Vec::new();
        let mut i: usize = 0;
        while i < vs.len()
            invariant
                0 <= i <= vs.len(),
                vsv == vertices_view(vs@),
                tv == opt_view(*t),
                edges_view(out@) == take_at_most(pipe_edges(self@, vsv.take(i as int), dir, tv), limit as int),
            decreases vs.len() - i,
        {
            let es = self.edges_of(vs[i].id, dir, t);
            let ghost ev = edges_view(es@);
            let ghost base = pipe_edges(self@, vsv.take(i as int), dir, tv);
            let mut j: usize = 0;
            while j < es.len()
                invariant
                    0 <= j <= es.len(),
                    ev == edges_view(es@),
                    edges_view(out@) == take_at_most(base + ev.take(j as int), limit as int),
                decreases es.len() - j,
            {
                proof {
                    lemma_take_at_most_step(base + ev.take(j as int), ev[j as int], limit as int);
                    assert((base + ev.take(j as int)).push(ev[j as int]) =~= base + ev.take(j + 1));
                }
                if out.len() < limit as usize {
                    let ghost before = out@;
                    out.push(es[j].cloned());
                    assert(edges_view(out@) =~= edges_view(before).push(ev[j as int]));
                }
                j += 1;
            }
            proof {
                assert(ev.take(j as int) =~= ev);
                assert(vsv.take(i + 1).drop_last() =~= vsv.take(i as int));
                assert(vsv.take(i + 1).last() == vsv[i as int]);
            }
            i += 1;
        }
        assert(vsv.take(i as int) =~= vsv);
        out
    }

    /// The vertices at the named end of each edge of the list, skipping
    /// missing ones, of the wanted type; at most `limit` of them.
    pub fn pipe_edge_vertices(
        &self,
        es: &Vec<Edge>,
        dir: EdgeDirection,
        t: &Option<Identifier>,
        limit: u32,
    ) -> (r: Vec<Vertex>)
        ensures
            vertices_view(r@) == take_at_most(
                specific_vertices(self@.vertices, edges_view(es@).map_values(endpoint(dir))).filter(
                    of_type(opt_view(*t)),
                ),
                limit as int,
            ),
    {
        let ghost f = endpoint(dir);
        let mut ids: Vec<u128> = Vec::new();
        let mut i: usize = 0;
        while i < es.len()
            invariant
                0 <= i <= es.len(),
                f == endpoint(dir),
                ids@ == edges_view(es@).take(i as int).map_values(f),
            decreases es.len() - i,
        {
            let id = match dir {
                EdgeDirection::Outbound => es[i].outbound_id,
                EdgeDirection::Inbound => es[i].inbound_id,
            };
            ids.push(id);
            assert(ids@ =~= edges_view(es@).take(i + 1).map_values(f));
            i += 1;
        }
        assert(edges_view(es@).take(i as int) =~= edges_view(es@));
        let found = self.specific_vertices(&ids);
        take_of_type(&found, t, limit)
    }

    /// Each vertex of the list with its property of that name, or, without a
    /// name, with all its properties; vertices without any are left out.
    pub fn vertex_properties_for(&self, vs: &Vec<Vertex>, name: &Option<Identifier>) -> (r: Vec<
        VertexProperties,
    >)
        ensures
            vertex_properties_view(r@) == (match opt_view(*name) {
                Some(n) => vertices_view(vs@).filter_map(named_vertex_prop(self@.vertex_properties, n)),
                None => vertices_view(vs@).filter_map(all_vertex_props(self@.vertex_properties)),
            }),
    {
        let ghost s = vertices_view(vs@);
        let ghost ps = self@.vertex_properties;
        let mut out: Vec<VertexProperties> = Vec::new();
        let mut i: usize = 0;
        while i < vs.len()
            invariant
                0 <= i <= vs.len(),
                s == vertices_view(vs@),
                ps == self@.vertex_properties,
                vertex_properties_view(out@) == (match opt_view(*name) {
                    Some(n) => s.take(i as int).filter_map(named_vertex_prop(ps, n)),
                    None => s.take(i as int).filter_map(all_vertex_props(ps)),
                }),
            decreases vs.len() - i,
        {
            let v = &vs[i];
            let ghost before = out@;
            match name {
                Some(n) => {
                    proof {
                        s.lemma_filter_map_take_succ(named_vertex_prop(ps, n@), i as int);
                    }
                    match self.vertex_property(v.id, n) {
                        Some(x) => {
                            let mut props: Vec<NamedProperty> = Vec::new();
                            props.push(NamedProperty::new(n.cloned(), x));
                            assert(props_view(props@) =~= seq![(n@, x@)]);
                            out.push(VertexProperties::new(v.cloned(), props));
                            assert(vertex_properties_view(out@) =~= vertex_properties_view(before)
                                + seq![(s[i as int], seq![(n@, x@)])]);
                        },
                        None => {
                            assert(vertex_properties_view(out@) =~= vertex_properties_view(before)
                                + Seq::<(VertexModel, Seq<PropModel>)>::empty());
                        },
                    }
                },
                None => {
                    let ghost g = all_vertex_props(ps);
                    proof {
                        s.lemma_filter_map_take_succ(g, i as int);
                    }
                    let props = self.all_vertex_properties(v.id);
                    if props.len() > 0 {
                        out.push(VertexProperties::new(v.cloned(), props));
                        assert(vertex_properties_view(out@) =~= vertex_properties_view(before) + seq![g(s[i as int])->Some_0]);
                    } else {
                        assert(vertex_properties_view(out@) =~= vertex_properties_view(before) + Seq::<(VertexModel, Seq<PropModel>)>::empty());
                    }
                },
            }
            i += 1;
        }
        assert(s.take(i as int) =~= s);
        out
    }

    /// Each edge of the list with its property of that name, or, without a
    /// name, with all its properties; edges without any are left out.
    pub fn edge_properties_for(&self, es: &Vec<Edge>, name: &Option<Identifier>) -> (r: Vec<
        EdgeProperties,
    >)
        ensures
            edge_properties_view(r@) == (match opt_view(*name) {
                Some(n) => edges_view(es@).filter_map(named_edge_prop(self@.edge_properties, n)),
                None => edges_view(es@).filter_map(all_edge_props(self@.edge_properties)),
            }),
    {
        let ghost s = edges_view(es@);
        let ghost ps = self@.edge_properties;
        let mut out: Vec<EdgeProperties> = Vec::new();
        let mut i: usize = 0;
        while i < es.len()
            invariant
                0 <= i <= es.len(),
                s == edges_view(es@),
                ps == self@.edge_properties,
                edge_properties_view(out@) == (match opt_view(*name) {
                    Some(n) => s.take(i as int).filter_map(named_edge_prop(ps, n)),
                    None => s.take(i as int).filter_map(all_edge_props(ps)),
                }),
            decreases es.len() - i,
        {
            let e = &es[i];
            let ghost before = out@;
            match name {
                Some(n) => {
                    proof {
                        s.lemma_filter_map_take_succ(named_edge_prop(ps, n@), i as int);
                    }
                    match self.edge_property(e, n) {
                        Some(x) => {
                            let mut props: Vec<NamedProperty> = Vec::new();
                            props.push(NamedProperty::new(n.cloned(), x));
                            assert(props_view(props@) =~= seq![(n@, x@)]);
                            out.push(EdgeProperties::new(e.cloned(), props));
                            assert(edge_properties_view(out@) =~= edge_properties_view(before)
                                + seq![(s[i as int], seq![(n@, x@)])]);
                        },
                        None => {
                            assert(edge_properties_view(out@) =~= edge_properties_view(before)
                                + Seq::<(EdgeModel, Seq<PropModel>)>::empty());
                        },
                    }
                },
                None => {
                    let ghost g = all_edge_props(ps);
                    proof {
                        s.lemma_filter_map_take_succ(g, i as int);
                    }
                    let props = self.all_edge_properties(e);
                    if props.len() > 0 {
                        out.push(EdgeProperties::new(e.cloned(), props));
                        assert(edge_properties_view(out@) =~= edge_properties_view(before) + seq![g(s[i as int])->Some_0]);
                    } else {
                        assert(edge_properties_view(out@) =~= edge_properties_view(before) + Seq::<(EdgeModel, Seq<PropModel>)>::empty());
                    }
                },
            }
            i += 1;
        }
        assert(s.take(i as int) =~= s);
        out
    }

    /// Adds the vertex unless one with its id exists; `true` when added.
    pub fn create_vertex(&mut self, v: &Vertex) -> (r: bool)
        requires
            old(self)@.wf(),
        ensures
            final(self)@.wf(),
            r == !has_vertex(old(self)@.vertices, v.id),
            final(self)@ == old(self)@.with_vertex(v@),
            final(self).persist_path() == old(self).persist_path(),
    {
        proof {
            lemma_wf_with_vertex(old(self)@, v@);
        }
        if self.has_vertex(v.id) {
            return false;
        }
        let ghost s = self@.vertices;
        let mut pos: usize = 0;
        let mut i: usize = 0;
        while i < self.vertices.len()
            invariant
                0 <= i <= self.vertices.len(),
                s == vertices_view(self.vertices@),
                pos == s.take(i as int).filter(id_below(v.id)).len(),
                pos <= i,
            decreases self.vertices.len() - i,
        {
            proof {
                lemma_filter_take_step(s, id_below(v.id), i as int);
            }
            if self.vertices[i].id < v.id {
                pos += 1;
            }
            i += 1;
        }
        assert(s.take(i as int) =~= s);
        self.vertices.insert(pos, v.cloned());
        assert(vertices_view(self.vertices@) =~= s.insert(pos as int, v@));
        true
    }

    /// Adds the edge if both endpoints exist and it does not; `true` when
    /// added.
    pub fn create_edge(&mut self, e: &Edge) -> (r: bool)
        requires
            old(self)@.wf(),
        ensures
            final(self)@.wf(),
            r == (has_vertex(old(self)@.vertices, e.outbound_id) && has_vertex(
                old(self)@.vertices,
                e.inbound_id,
            ) && !old(self)@.edges.contains(e@)),
            final(self)@ == old(self)@.with_edge(e@),
            final(self).persist_path() == old(self).persist_path(),
    {
        proof {
            lemma_wf_with_edge(old(self)@, e@);
        }
        if !(self.has_vertex(e.outbound_id) && self.has_vertex(e.inbound_id) && !self.has_edge(e)) {
            return false;
        }
        let rev = e.reversed();
        let pos = edge_insert_position(&self.edges, e);
        let rpos = edge_insert_position(&self.reversed_edges, &rev);
        let ghost es = self@.edges;
        let ghost rs = self@.reversed_edges;
        self.edges.insert(pos, e.cloned());
        self.reversed_edges.insert(rpos, rev);
        assert(edges_view(self.edges@) =~= es.insert(pos as int, e@));
        assert(edges_view(self.reversed_edges@) =~= rs.insert(rpos as int, reverse(e@)));
        true
    }

    /// Removes a vertex with its incident edges and all their properties.
    pub fn delete_vertex(&mut self, id: u128)
        requires
            old(self)@.wf(),
        ensures
            final(self)@.wf(),
            final(self)@ == old(self)@.without_vertex(id),
            final(self).persist_path() == old(self).persist_path(),
    {
        proof {
            lemma_wf_without_vertex(old(self)@, id);
        }
        self.vertices = vertices_other_than(&self.vertices, id);
        self.edges = edges_away_from(&self.edges, id);
        self.reversed_edges = edges_away_from(&self.reversed_edges, id);
        self.vertex_properties = vertex_rows_not_of(&self.vertex_properties, id);
        self.edge_properties = edge_rows_away_from(&self.edge_properties, id);
        self.vertex_index = vertex_rows_not_of(&self.vertex_index, id);
        self.edge_index = edge_rows_away_from(&self.edge_index, id);
    }

    /// Removes an edge and its properties.
    pub fn delete_edge(&mut self, e: &Edge)
        requires
            old(self)@.wf(),
        ensures
            final(self)@.wf(),
            final(self)@ == old(self)@.without_edge(e@),
            final(self).persist_path() == old(self).persist_path(),
    {
        proof {
            lemma_wf_without_edge(old(self)@, e@);
        }
        self.edges = edges_other_than(&self.edges, e);
        let rev = e.reversed();
        self.reversed_edges = edges_other_than(&self.reversed_edges, &rev);
        self.edge_properties = edge_rows_not_of(&self.edge_properties, e);
        self.edge_index = edge_rows_not_of(&self.edge_index, e);
    }

    /// Removes one property of a vertex.
    pub fn delete_vertex_property(&mut self, id: u128, name: &Identifier)
        requires
            old(self)@.wf(),
        ensures
            final(self)@.wf(),
            final(self)@ == old(self)@.without_vertex_prop(id, name@),
            final(self).persist_path() == old(self).persist_path(),
    {
        proof {
            lemma_wf_without_vertex_prop(old(self)@, id, name@);
        }
        self.vertex_properties = vertex_rows_other_than(&self.vertex_properties, id, name);
        self.vertex_index = vertex_rows_other_than(&self.vertex_index, id, name);
    }

    /// Removes one property of an edge.
    pub fn delete_edge_property(&mut self, e: &Edge, name: &Identifier)
        requires
            old(self)@.wf(),
        ensures
            final(self)@.wf(),
            final(self)@ == old(self)@.without_edge_prop(e@, name@),
            final(self).persist_path() == old(self).persist_path(),
    {
        proof {
            lemma_wf_without_edge_prop(old(self)@, e@, name@);
        }
        self.edge_properties = edge_rows_other_than(&self.edge_properties, e, name);
        self.edge_index = edge_rows_other_than(&self.edge_index, e, name);
    }

    /// Sets a property of a vertex, if the vertex exists, and its index
    /// entry if the name is indexed.
    pub fn set_vertex_property(&mut self, id: u128, name: &Identifier, value: &Json)
        requires
            old(self)@.wf(),
        ensures
            final(self)@.wf(),
            final(self)@ == old(self)@.with_vertex_prop(id, name@, value@),
            final(self).persist_path() == old(self).persist_path(),
    {
        proof {
            lemma_wf_with_vertex_prop(old(self)@, id, name@, value@);
        }
        if !self.has_vertex(id) {
            return;
        }
        set_vertex_row(&mut self.vertex_properties, id, name, value);
        if self.is_indexed(name) {
            set_vertex_row(&mut self.vertex_index, id, name, value);
        }
    }

    /// Sets a property of an edge, if the edge exists, and its index entry
    /// if the name is indexed.
    pub fn set_edge_property(&mut self, e: &Edge, name: &Identifier, value: &Json)
        requires
            old(self)@.wf(),
        ensures
            final(self)@.wf(),
            final(self)@ == old(self)@.with_edge_prop(e@, name@, value@),
            final(self).persist_path() == old(self).persist_path(),
    {
        proof {
            lemma_wf_with_edge_prop(old(self)@, e@, name@, value@);
        }
        if !self.has_edge(e) {
            return;
        }
        set_edge_row(&mut self.edge_properties, e, name, value);
        if self.is_indexed(name) {
            set_edge_row(&mut self.edge_index, e, name, value);
        }
    }

    /// Marks a property name as indexed and fills the index from the
    /// properties already set; a no-op where the name is indexed.
    pub fn index_property(&mut self, name: &Identifier)
        requires
            old(self)@.wf(),
        ensures
            final(self)@.wf(),
            final(self)@ == old(self)@.with_index(name@),
            final(self).persist_path() == old(self).persist_path(),
    {
        proof {
            lemma_wf_with_index(old(self)@, name@);
        }
        if !self.is_indexed(name) {
            self.indexed.push(name.cloned());
            assert(names_view(self.indexed@) =~= old(self)@.indexed.push(name@));
            self.vertex_index = vertex_rows_named_in(&self.vertex_properties, &self.indexed);
            self.edge_index = edge_rows_named_in(&self.edge_properties, &self.indexed);
        }
    }

    /// Removes each vertex of the list in turn.
    pub fn delete_vertices(&mut self, ids: &Vec<u128>)
        requires
            old(self)@.wf(),
        ensures
            final(self)@.wf(),
            final(self)@ == old(self)@.without_vertices(ids@),
            final(self).persist_path() == old(self).persist_path(),
    {
        let mut i: usize = 0;
        while i < ids.len()
            invariant
                self@.wf(),
                0 <= i <= ids.len(),
                self@ == old(self)@.without_vertices(ids@.take(i as int)),
                self.persist_path() == old(self).persist_path(),
            decreases ids.len() - i,
        {
            assert(ids@.take(i + 1).drop_last() =~= ids@.take(i as int));
            self.delete_vertex(ids[i]);
            i += 1;
        }
        assert(ids@.take(i as int) =~= ids@);
    }

    /// Removes each edge of the list in turn.
    pub fn delete_edges(&mut self, es: &Vec<Edge>)
        requires
            old(self)@.wf(),
        ensures
            final(self)@.wf(),
            final(self)@ == old(self)@.without_edges(edges_view(es@)),
            final(self).persist_path() == old(self).persist_path(),
    {
        let ghost ev = edges_view(es@);
        let mut i: usize = 0;
        while i < es.len()
            invariant
                self@.wf(),
                0 <= i <= es.len(),
                ev == edges_view(es@),
                self@ == old(self)@.without_edges(ev.take(i as int)),
                self.persist_path() == old(self).persist_path(),
            decreases es.len() - i,
        {
            assert(ev.take(i + 1).drop_last() =~= ev.take(i as int));
            self.delete_edge(&es[i]);
            i += 1;
        }
        assert(ev.take(i as int) =~= ev);
    }
}

impl Default for MemoryDatastore {
    /// An empty datastore that is not persisted.
    fn default() -> (r: MemoryDatastore)
        ensures
            r@ == GraphModel::empty(),
            r@.wf(),
            r.persist_path() is None,
    {
        MemoryDatastore::new()
    }
}

/// The value of the vertex's property among the rows, if it is set.
fn vertex_row_value(rows: &Vec<VertexPropertyRow>, id: u128, name: &Identifier) -> (r: Option<Json>)
    ensures
        match r {
            Some(x) => vertex_prop(vertex_rows_view(rows@), id, name@) == Some(x@),
            None => vertex_prop(vertex_rows_view(rows@), id, name@) is None,
        },
{
    let ghost ps = vertex_rows_view(rows@);
    let mut found: Option<Json> = None;
    let mut i: usize = 0;
    while i < rows.len()
        invariant
            0 <= i <= rows.len(),
            ps == vertex_rows_view(rows@),
            match found {
                Some(x) => vertex_prop(ps.take(i as int), id, name@) == Some(x@),
                None => vertex_prop(ps.take(i as int), id, name@) is None,
            },
        decreases rows.len() - i,
    {
        assert(ps.take(i + 1).drop_last() =~= ps.take(i as int));
        let row = &rows[i];
        if row.id == id && row.name.same(name) {
            found = Some(row.value.cloned());
        }
        i += 1;
    }
    assert(ps.take(i as int) =~= ps);
    found
}

/// The value of the edge's property among the rows, if it is set.
fn edge_row_value(rows: &Vec<EdgePropertyRow>, e: &Edge, name: &Identifier) -> (r: Option<Json>)
    ensures
        match r {
            Some(x) => edge_prop(edge_rows_view(rows@), e@, name@) == Some(x@),
            None => edge_prop(edge_rows_view(rows@), e@, name@) is None,
        },
{
    let ghost ps = edge_rows_view(rows@);
    let mut found: Option<Json> = None;
    let mut i: usize = 0;
    while i < rows.len()
        invariant
            0 <= i <= rows.len(),
            ps == edge_rows_view(rows@),
            match found {
                Some(x) => edge_prop(ps.take(i as int), e@, name@) == Some(x@),
                None => edge_prop(ps.take(i as int), e@, name@) is None,
            },
        decreases rows.len() - i,
    {
        assert(ps.take(i + 1).drop_last() =~= ps.take(i as int));
        let row = &rows[i];
        if row.edge.same(e) && row.name.same(name) {
            found = Some(row.value.cloned());
        }
        i += 1;
    }
    assert(ps.take(i as int) =~= ps);
    found
}

/// Sets the vertex's property among the key-ordered rows.
fn set_vertex_row(rows: &mut Vec<VertexPropertyRow>, id: u128, name: &Identifier, value: &Json)
    ensures
        vertex_rows_view(final(rows)@) == vertex_prop_set(vertex_rows_view(old(rows)@), id, name@, value@),
{
    if vertex_row_value(rows, id, name).is_some() {
        *rows = vertex_rows_updated(rows, id, name, value);
        return;
    }
    let ghost s = vertex_rows_view(rows@);
    let ghost below = vertex_prop_below(id, name@);
    let mut pos: usize = 0;
    let mut i: usize = 0;
    while i < rows.len()
        invariant
            0 <= i <= rows.len(),
            s == vertex_rows_view(rows@),
            below == vertex_prop_below(id, name@),
            pos == s.take(i as int).filter(below).len(),
            pos <= i,
        decreases rows.len() - i,
    {
        proof {
            lemma_filter_take_step(s, below, i as int);
        }
        let row = &rows[i];
        if row.id < id || (row.id == id && row.name.precedes(name)) {
            pos += 1;
        }
        i += 1;
    }
    assert(s.take(i as int) =~= s);
    rows.insert(pos, VertexPropertyRow { id, name: name.cloned(), value: value.cloned() });
    assert(vertex_rows_view(rows@) =~= s.insert(pos as int, (id, name@, value@)));
}

/// Sets the edge's property among the key-ordered rows.
fn set_edge_row(rows: &mut Vec<EdgePropertyRow>, e: &Edge, name: &Identifier, value: &Json)
    ensures
        edge_rows_view(final(rows)@) == edge_prop_set(edge_rows_view(old(rows)@), e@, name@, value@),
{
    if edge_row_value(rows, e, name).is_some() {
        *rows = edge_rows_updated(rows, e, name, value);
        return;
    }
    let ghost s = edge_rows_view(rows@);
    let ghost below = edge_prop_below(e@, name@);
    let mut pos: usize = 0;
    let mut i: usize = 0;
    while i < rows.len()
        invariant
            0 <= i <= rows.len(),
            s == edge_rows_view(rows@),
            below == edge_prop_below(e@, name@),
            pos == s.take(i as int).filter(below).len(),
            pos <= i,
        decreases rows.len() - i,
    {
        proof {
            lemma_filter_take_step(s, below, i as int);
        }
        let row = &rows[i];
        if row.edge.precedes(e) || (row.edge.same(e) && row.name.precedes(name)) {
            pos += 1;
        }
        i += 1;
    }
    assert(s.take(i as int) =~= s);
    rows.insert(pos, EdgePropertyRow { edge: e.cloned(), name: name.cloned(), value: value.cloned() });
    assert(edge_rows_view(rows@) =~= s.insert(pos as int, (e@, name@, value@)));
}

/// Whether the name is on the list.
fn names_have(ns: &Vec<Identifier>, name: &Identifier) -> (r: bool)
    ensures
        r == names_view(ns@).contains(name@),
{
    let ghost s = names_view(ns@);
    let mut i: usize = 0;
    while i < ns.len()
        invariant
            0 <= i <= ns.len(),
            s == names_view(ns@),
            forall|j: int| 0 <= j < i ==> (#[trigger] s[j]) != name@,
        decreases ns.len() - i,
    {
        if ns[i].same(name) {
            assert(s[i as int] == name@);
            return true;
        }
        i += 1;
    }
    false
}

/// The vertex property rows whose name is on the list, in order.
fn vertex_rows_named_in(rows: &Vec<VertexPropertyRow>, names: &Vec<Identifier>) -> (r: Vec<VertexPropertyRow>)
    ensures
        vertex_rows_view(r@) == vertex_rows_view(rows@).filter(vertex_prop_named_in(names_view(names@))),
{
    let ghost s = vertex_rows_view(rows@);
    let ghost p = vertex_prop_named_in(names_view(names@));
    let mut out: Vec<VertexPropertyRow> = Vec::new();
    let mut i: usize = 0;
    while i < rows.len()
        invariant
            0 <= i <= rows.len(),
            s == vertex_rows_view(rows@),
            p == vertex_prop_named_in(names_view(names@)),
            vertex_rows_view(out@) == s.take(i as int).filter(p),
        decreases rows.len() - i,
    {
        proof {
            lemma_filter_take_step(s, p, i as int);
        }
        if names_have(names, &rows[i].name) {
            let ghost before = out@;
            out.push(rows[i].cloned());
            assert(vertex_rows_view(out@) =~= vertex_rows_view(before).push(s[i as int]));
        }
        i += 1;
    }
    assert(s.take(i as int) =~= s);
    out
}

/// The edge property rows whose name is on the list, in order.
fn edge_rows_named_in(rows: &Vec<EdgePropertyRow>, names: &Vec<Identifier>) -> (r: Vec<EdgePropertyRow>)
    ensures
        edge_rows_view(r@) == edge_rows_view(rows@).filter(edge_prop_named_in(names_view(names@))),
{
    let ghost s = edge_rows_view(rows@);
    let ghost p = edge_prop_named_in(names_view(names@));
    let mut out: Vec<EdgePropertyRow> = Vec::new();
    let mut i: usize = 0;
    while i < rows.len()
        invariant
            0 <= i <= rows.len(),
            s == edge_rows_view(rows@),
            p == edge_prop_named_in(names_view(names@)),
            edge_rows_view(out@) == s.take(i as int).filter(p),
        decreases rows.len() - i,
    {
        proof {
            lemma_filter_take_step(s, p, i as int);
        }
        if names_have(names, &rows[i].name) {
            let ghost before = out@;
            out.push(rows[i].cloned());
            assert(edge_rows_view(out@) =~= edge_rows_view(before).push(s[i as int]));
        }
        i += 1;
    }
    assert(s.take(i as int) =~= s);
    out
}

/// Whether a vertex of the list has the id.
fn vertices_have(vs: &Vec<Vertex>, id: u128) -> (r: bool)
    ensures
        r == has_vertex(vertices_view(vs@), id),
{
    let ghost s = vertices_view(vs@);
    let mut i: usize = 0;
    while i < vs.len()
        invariant
            0 <= i <= vs.len(),
            s == vertices_view(vs@),
            forall|j: int| 0 <= j < i ==> (#[trigger] s[j]).0 != id,
        decreases vs.len() - i,
    {
        if vs[i].id == id {
            assert(s[i as int].0 == id);
            return true;
        }
        i += 1;
    }
    false
}

/// Whether the edge is in the list.
fn edges_have(es: &Vec<Edge>, e: &Edge) -> (r: bool)
    ensures
        r == edges_view(es@).contains(e@),
{
    let ghost s = edges_view(es@);
    let mut i: usize = 0;
    while i < es.len()
        invariant
            0 <= i <= es.len(),
            s == edges_view(es@),
            forall|j: int| 0 <= j < i ==> (#[trigger] s[j]) != e@,
        decreases es.len() - i,
    {
        if es[i].same(e) {
            assert(s[i as int] == e@);
            return true;
        }
        i += 1;
    }
    false
}

/// Whether the ids of the list ascend strictly.
fn ids_ascend(vs: &Vec<Vertex>) -> (r: bool)
    ensures
        r == ascending(vertices_view(vs@)),
{
    let ghost s = vertices_view(vs@);
    if vs.len() == 0 {
        return true;
    }
    let mut i: usize = 1;
    while i < vs.len()
        invariant
            1 <= i <= vs.len(),
            s == vertices_view(vs@),
            forall|a: int, b: int| 0 <= a < b < i ==> (#[trigger] s[a]).0 < (#[trigger] s[b]).0,
        decreases vs.len() - i,
    {
        if vs[i - 1].id >= vs[i].id {
            assert(!(s[i - 1].0 < s[i as int].0));
            return false;
        }
        assert forall|a: int, b: int| 0 <= a < b < i + 1 implies (#[trigger] s[a]).0 < (
        #[trigger] s[b]).0 by {
            if b == i && a < i - 1 {
                assert(s[a].0 < s[i - 1].0);
            }
        }
        i += 1;
    }
    true
}

/// Whether the edges of the list ascend strictly in key order.
fn edges_ascend(es: &Vec<Edge>) -> (r: bool)
    ensures
        r == edges_ascending(edges_view(es@)),
{
    let ghost s = edges_view(es@);
    if es.len() == 0 {
        return true;
    }
    let mut i: usize = 1;
    while i < es.len()
        invariant
            1 <= i <= es.len(),
            s == edges_view(es@),
            forall|a: int, b: int| 0 <= a < b < i ==> edge_lt(#[trigger] s[a], #[trigger] s[b]),
        decreases es.len() - i,
    {
        if !es[i - 1].precedes(&es[i]) {
            assert(!edge_lt(s[i - 1], s[i as int]));
            return false;
        }
        assert forall|a: int, b: int| 0 <= a < b < i + 1 implies edge_lt(
            #[trigger] s[a],
            #[trigger] s[b],
        ) by {
            if b == i && a < i - 1 {
                lemma_edge_lt_transitive(s[a], s[i - 1], s[b]);
            }
        }
        i += 1;
    }
    true
}

/// Whether no vertex property of the list is set twice.
fn vertex_rows_unique(ps: &Vec<VertexPropertyRow>) -> (r: bool)
    ensures
        r == unique_by(vertex_rows_view(ps@), vertex_prop_key()),
{
    let ghost s = vertex_rows_view(ps@);
    let ghost k = vertex_prop_key();
    let mut i: usize = 0;
    while i < ps.len()
        invariant
            0 <= i <= ps.len(),
            s == vertex_rows_view(ps@),
            k == vertex_prop_key(),
            forall|a: int, b: int|
                #![trigger k(s[a]), k(s[b])]
                0 <= a < i && 0 <= b < i && k(s[a]) == k(s[b]) ==> a == b,
        decreases ps.len() - i,
    {
        let mut j: usize = 0;
        while j < i
            invariant
                0 <= j <= i < ps.len(),
                s == vertex_rows_view(ps@),
                k == vertex_prop_key(),
                forall|b: int| 0 <= b < j ==> k(s[i as int]) != #[trigger] k(s[b]),
            decreases i - j,
        {
            if ps[i].id == ps[j].id && ps[i].name.same(&ps[j].name) {
                assert(k(s[i as int]) == k(s[j as int]));
                return false;
            }
            j += 1;
        }
        i += 1;
    }
    true
}

/// Whether no edge property of the list is set twice.
fn edge_rows_unique(ps: &Vec<EdgePropertyRow>) -> (r: bool)
    ensures
        r == unique_by(edge_rows_view(ps@), edge_prop_key()),
{
    let ghost s = edge_rows_view(ps@);
    let ghost k = edge_prop_key();
    let mut i: usize = 0;
    while i < ps.len()
        invariant
            0 <= i <= ps.len(),
            s == edge_rows_view(ps@),
            k == edge_prop_key(),
            forall|a: int, b: int|
                #![trigger k(s[a]), k(s[b])]
                0 <= a < i && 0 <= b < i && k(s[a]) == k(s[b]) ==> a == b,
        decreases ps.len() - i,
    {
        let mut j: usize = 0;
        while j < i
            invariant
                0 <= j <= i < ps.len(),
                s == edge_rows_view(ps@),
                k == edge_prop_key(),
                forall|b: int| 0 <= b < j ==> k(s[i as int]) != #[trigger] k(s[b]),
            decreases i - j,
        {
            if ps[i].edge.same(&ps[j].edge) && ps[i].name.same(&ps[j].name) {
                assert(k(s[i as int]) == k(s[j as int]));
                return false;
            }
            j += 1;
        }
        i += 1;
    }
    true
}

/// Whether no name of the list repeats.
fn names_unique(ns: &Vec<Identifier>) -> (r: bool)
    ensures
        r == unique_by(names_view(ns@), name_key()),
{
    let ghost s = names_view(ns@);
    let ghost k = name_key();
    let mut i: usize = 0;
    while i < ns.len()
        invariant
            0 <= i <= ns.len(),
            s == names_view(ns@),
            k == name_key(),
            forall|a: int, b: int|
                #![trigger k(s[a]), k(s[b])]
                0 <= a < i && 0 <= b < i && k(s[a]) == k(s[b]) ==> a == b,
        decreases ns.len() - i,
    {
        let mut j: usize = 0;
        while j < i
            invariant
                0 <= j <= i < ns.len(),
                s == names_view(ns@),
                k == name_key(),
                forall|b: int| 0 <= b < j ==> k(s[i as int]) != #[trigger] k(s[b]),
            decreases i - j,
        {
            if ns[i].same(&ns[j]) {
                assert(k(s[i as int]) == k(s[j as int]));
                return false;
            }
            j += 1;
        }
        i += 1;
    }
    true
}

/// Whether the vertex properties of the list are in key order.
fn vertex_rows_sorted(ps: &Vec<VertexPropertyRow>) -> (r: bool)
    ensures
        r == sorted_by(vertex_rows_view(ps@), vertex_prop_order()),
{
    let ghost s = vertex_rows_view(ps@);
    let ghost lt = vertex_prop_order();
    if ps.len() == 0 {
        return true;
    }
    let mut i: usize = 1;
    while i < ps.len()
        invariant
            1 <= i <= ps.len(),
            s == vertex_rows_view(ps@),
            lt == vertex_prop_order(),
            forall|a: int, b: int| 0 <= a < b < i ==> #[trigger] lt(s[a], s[b]),
        decreases ps.len() - i,
    {
        let x = &ps[i - 1];
        let y = &ps[i];
        if !(x.id < y.id || (x.id == y.id && x.name.precedes(&y.name))) {
            assert(!lt(s[i - 1], s[i as int]));
            return false;
        }
        assert forall|a: int, b: int| 0 <= a < b < i + 1 implies #[trigger] lt(s[a], s[b]) by {
            if b == i && a < i - 1 {
                assert(lt(s[a], s[i - 1]));
                if s[a].0 == s[i - 1].0 && s[i - 1].0 == s[b].0 {
                    lemma_chars_lt_transitive(s[a].1, s[i - 1].1, s[b].1);
                }
            }
        }
        i += 1;
    }
    true
}

/// Whether the edge properties of the list are in key order.
fn edge_rows_sorted(ps: &Vec<EdgePropertyRow>) -> (r: bool)
    ensures
        r == sorted_by(edge_rows_view(ps@), edge_prop_order()),
{
    let ghost s = edge_rows_view(ps@);
    let ghost lt = edge_prop_order();
    if ps.len() == 0 {
        return true;
    }
    let mut i: usize = 1;
    while i < ps.len()
        invariant
            1 <= i <= ps.len(),
            s == edge_rows_view(ps@),
            lt == edge_prop_order(),
            forall|a: int, b: int| 0 <= a < b < i ==> #[trigger] lt(s[a], s[b]),
        decreases ps.len() - i,
    {
        let x = &ps[i - 1];
        let y = &ps[i];
        if !(x.edge.precedes(&y.edge) || (x.edge.same(&y.edge) && x.name.precedes(&y.name))) {
            assert(!lt(s[i - 1], s[i as int]));
            return false;
        }
        assert forall|a: int, b: int| 0 <= a < b < i + 1 implies #[trigger] lt(s[a], s[b]) by {
            if b == i && a < i - 1 {
                assert(lt(s[a], s[i - 1]));
                let (p, q, w) = (s[a], s[i - 1], s[b]);
                if edge_lt(p.0, q.0) && edge_lt(q.0, w.0) {
                    lemma_edge_lt_transitive(p.0, q.0, w.0);
                }
                if p.0 == q.0 && q.0 == w.0 {
                    crate::graph::lemma_edge_lt_irreflexive(p.0);
                    lemma_chars_lt_transitive(p.1, q.1, w.1);
                }
            }
        }
        i += 1;
    }
    true
}

/// Whether the tables satisfy the store's invariants.
pub fn tables_wf(t: &Tables) -> (r: bool)
    ensures
        r == t@.wf(),
{
    let m = Ghost(t@);
    if !ids_ascend(&t.vertices) || !edges_ascend(&t.edges) || !edges_ascend(&t.reversed_edges) || !vertex_rows_unique(
        &t.vertex_properties,
    ) || !edge_rows_unique(&t.edge_properties) || !names_unique(&t.indexed)
        || !vertex_rows_sorted(&t.vertex_properties) || !edge_rows_sorted(&t.edge_properties) {
        return false;
    }
    let mut i: usize = 0;
    while i < t.edges.len()
        invariant
            0 <= i <= t.edges.len(),
            m@ == t@,
            forall|j: int|
                0 <= j < i ==> has_vertex(m@.vertices, (#[trigger] m@.edges[j]).0) && has_vertex(
                    m@.vertices,
                    m@.edges[j].2,
                ),
        decreases t.edges.len() - i,
    {
        let e = &t.edges[i];
        if !vertices_have(&t.vertices, e.outbound_id) || !vertices_have(&t.vertices, e.inbound_id) {
            assert(m@.edges[i as int] == e@);
            return false;
        }
        i += 1;
    }
    let mut i: usize = 0;
    while i < t.edges.len()
        invariant
            0 <= i <= t.edges.len(),
            m@ == t@,
            forall|j: int| 0 <= j < i ==> m@.reversed_edges.contains(reverse(#[trigger] m@.edges[j])),
        decreases t.edges.len() - i,
    {
        let rev = t.edges[i].reversed();
        if !edges_have(&t.reversed_edges, &rev) {
            assert(m@.edges.contains(m@.edges[i as int]));
            return false;
        }
        i += 1;
    }
    let mut i: usize = 0;
    while i < t.reversed_edges.len()
        invariant
            0 <= i <= t.reversed_edges.len(),
            m@ == t@,
            forall|j: int| 0 <= j < t.edges.len() ==> m@.reversed_edges.contains(reverse(#[trigger] m@.edges[j])),
            forall|j: int| 0 <= j < i ==> m@.edges.contains(reverse(#[trigger] m@.reversed_edges[j])),
        decreases t.reversed_edges.len() - i,
    {
        let back = t.reversed_edges[i].reversed();
        if !edges_have(&t.edges, &back) {
            let ghost x = back@;
            assert(m@.reversed_edges.contains(reverse(x))) by {
                assert(m@.reversed_edges[i as int] == reverse(x));
            }
            return false;
        }
        i += 1;
    }
    assert forall|x: EdgeModel| #![trigger m@.edges.contains(x)] #![trigger m@.reversed_edges.contains(reverse(x))]
        m@.edges.contains(x) <==> m@.reversed_edges.contains(reverse(x)) by {
        if m@.edges.contains(x) {
            let j = choose|j: int| 0 <= j < m@.edges.len() && m@.edges[j] == x;
        }
        if m@.reversed_edges.contains(reverse(x)) {
            let j = choose|j: int| 0 <= j < m@.reversed_edges.len() && m@.reversed_edges[j] == reverse(x);
            assert(reverse(reverse(x)) == x);
        }
    }
    let mut i: usize = 0;
    while i < t.vertex_properties.len()
        invariant
            0 <= i <= t.vertex_properties.len(),
            m@ == t@,
            forall|j: int|
                0 <= j < i ==> has_vertex(m@.vertices, (#[trigger] m@.vertex_properties[j]).0),
        decreases t.vertex_properties.len() - i,
    {
        if !vertices_have(&t.vertices, t.vertex_properties[i].id) {
            assert(m@.vertex_properties[i as int].0 == t.vertex_properties[i as int].id);
            return false;
        }
        i += 1;
    }
    let mut i: usize = 0;
    while i < t.edge_properties.len()
        invariant
            0 <= i <= t.edge_properties.len(),
            m@ == t@,
            forall|j: int|
                0 <= j < i ==> m@.edges.contains((#[trigger] m@.edge_properties[j]).0),
        decreases t.edge_properties.len() - i,
    {
        if !edges_have(&t.edges, &t.edge_properties[i].edge) {
            assert(m@.edge_properties[i as int].0 == t.edge_properties[i as int].edge@);
            return false;
        }
        i += 1;
    }
    proof {
        lemma_index_filled(m@);
    }
    true
}

/// A copy of the rows.
fn copy_edges(rows: &Vec<Edge>) -> (r: Vec<Edge>)
    ensures
        edges_view(r@) == edges_view(rows@),
{
    let ghost s = edges_view(rows@);
    let mut out: Vec<Edge> = Vec::new();
    let mut i: usize = 0;
    while i < rows.len()
        invariant
            0 <= i <= rows.len(),
            s == edges_view(rows@),
            edges_view(out@) == s.take(i as int),
        decreases rows.len() - i,
    {
        let ghost before = out@;
        out.push(rows[i].cloned());
        assert(edges_view(out@) =~= edges_view(before).push(s[i as int]));
        assert(s.take(i + 1) =~= s.take(i as int).push(s[i as int]));
        i += 1;
    }
    assert(s.take(i as int) =~= s);
    out
}

/// Where the edge goes in the list so that key order is kept.
fn edge_insert_position(es: &Vec<Edge>, e: &Edge) -> (r: usize)
    ensures
        r == edge_position(edges_view(es@), e@),
        r <= es.len(),
{
    let ghost s = edges_view(es@);
    let mut pos: usize = 0;
    let mut i: usize = 0;
    while i < es.len()
        invariant
            0 <= i <= es.len(),
            s == edges_view(es@),
            pos == s.take(i as int).filter(edge_below(e@)).len(),
            pos <= i,
        decreases es.len() - i,
    {
        proof {
            lemma_filter_take_step(s, edge_below(e@), i as int);
        }
        if es[i].precedes(e) {
            pos += 1;
        }
        i += 1;
    }
    assert(s.take(i as int) =~= s);
    pos
}

/// A copy of the rows.
fn copy_vertex_rows(rows: &Vec<VertexPropertyRow>) -> (r: Vec<VertexPropertyRow>)
    ensures
        vertex_rows_view(r@) == vertex_rows_view(rows@),
{
    let ghost s = vertex_rows_view(rows@);
    let mut out: Vec<VertexPropertyRow> = Vec::new();
    let mut i: usize = 0;
    while i < rows.len()
        invariant
            0 <= i <= rows.len(),
            s == vertex_rows_view(rows@),
            vertex_rows_view(out@) == s.take(i as int),
        decreases rows.len() - i,
    {
        let ghost before = out@;
        out.push(rows[i].cloned());
        assert(vertex_rows_view(out@) =~= vertex_rows_view(before).push(s[i as int]));
        assert(s.take(i + 1) =~= s.take(i as int).push(s[i as int]));
        i += 1;
    }
    assert(s.take(i as int) =~= s);
    out
}

/// A copy of the rows.
fn copy_edge_rows(rows: &Vec<EdgePropertyRow>) -> (r: Vec<EdgePropertyRow>)
    ensures
        edge_rows_view(r@) == edge_rows_view(rows@),
{
    let ghost s = edge_rows_view(rows@);
    let mut out: Vec<EdgePropertyRow> = Vec::new();
    let mut i: usize = 0;
    while i < rows.len()
        invariant
            0 <= i <= rows.len(),
            s == edge_rows_view(rows@),
            edge_rows_view(out@) == s.take(i as int),
        decreases rows.len() - i,
    {
        let ghost before = out@;
        out.push(rows[i].cloned());
        assert(edge_rows_view(out@) =~= edge_rows_view(before).push(s[i as int]));
        assert(s.take(i + 1) =~= s.take(i as int).push(s[i as int]));
        i += 1;
    }
    assert(s.take(i as int) =~= s);
    out
}

/// A copy of the rows.
fn copy_names(rows: &Vec<Identifier>) -> (r: Vec<Identifier>)
    ensures
        names_view(r@) == names_view(rows@),
{
    let ghost s = names_view(rows@);
    let mut out: Vec<Identifier> = Vec::new();
    let mut i: usize = 0;
    while i < rows.len()
        invariant
            0 <= i <= rows.len(),
            s == names_view(rows@),
            names_view(out@) == s.take(i as int),
        decreases rows.len() - i,
    {
        let ghost before = out@;
        out.push(rows[i].cloned());
        assert(names_view(out@) =~= names_view(before).push(s[i as int]));
        assert(s.take(i + 1) =~= s.take(i as int).push(s[i as int]));
        i += 1;
    }
    assert(s.take(i as int) =~= s);
    out
}

/// Whether the type passes the filter.
fn type_ok(t: &Identifier, want: &Option<Identifier>) -> (r: bool)
    ensures
        r == type_matches(t@, opt_view(*want)),
{
    match want {
        Some(w) => t.same(w),
        None => true,
    }
}

/// The vertices of the list of the wanted type, in order; at most `limit`.
fn take_of_type(vs: &Vec<Vertex>, t: &Option<Identifier>, limit: u32) -> (r: Vec<Vertex>)
    ensures
        vertices_view(r@) == take_at_most(vertices_view(vs@).filter(of_type(opt_view(*t))), limit as int),
{
    let ghost s = vertices_view(vs@);
    let ghost p = of_type(opt_view(*t));
    let mut out: Vec<Vertex> = Vec::new();
    let mut i: usize = 0;
    while i < vs.len()
        invariant
            0 <= i <= vs.len(),
            s == vertices_view(vs@),
            p == of_type(opt_view(*t)),
            vertices_view(out@) == take_at_most(s.take(i as int).filter(p), limit as int),
        decreases vs.len() - i,
    {
        proof {
            lemma_filter_take_step(s, p, i as int);
            lemma_take_at_most_step(s.take(i as int).filter(p), s[i as int], limit as int);
        }
        if type_ok(&vs[i].t, t) && out.len() < limit as usize {
            let ghost before = out@;
            out.push(vs[i].cloned());
            assert(vertices_view(out@) =~= vertices_view(before).push(s[i as int]));
        }
        i += 1;
    }
    assert(s.take(i as int) =~= s);
    out
}

/// The rows that pass the filter, in order.
fn vertices_other_than(rows: &Vec<Vertex>, id: u128) -> (r: Vec<Vertex>)
    ensures
        vertices_view(r@) == vertices_view(rows@).filter(vertex_other_than(id)),
{
    let ghost s = vertices_view(rows@);
    let mut out: Vec<Vertex> = Vec::new();
    let mut i: usize = 0;
    while i < rows.len()
        invariant
            0 <= i <= rows.len(),
            s == vertices_view(rows@),
            vertices_view(out@) == s.take(i as int).filter(vertex_other_than(id)),
        decreases rows.len() - i,
    {
        proof {
            lemma_filter_take_step(s, vertex_other_than(id), i as int);
        }
        let x = &rows[i];
        if x.id != id {
            let ghost before = out@;
            out.push(x.cloned());
            assert(vertices_view(out@) =~= vertices_view(before).push(s[i as int]));
        }
        i += 1;
    }
    assert(s.take(i as int) =~= s);
    out
}

/// The rows that pass the filter, in order.
fn edges_away_from(rows: &Vec<Edge>, id: u128) -> (r: Vec<Edge>)
    ensures
        edges_view(r@) == edges_view(rows@).filter(edge_away_from(id)),
{
    let ghost s = edges_view(rows@);
    let mut out: Vec<Edge> = Vec::new();
    let mut i: usize = 0;
    while i < rows.len()
        invariant
            0 <= i <= rows.len(),
            s == edges_view(rows@),
            edges_view(out@) == s.take(i as int).filter(edge_away_from(id)),
        decreases rows.len() - i,
    {
        proof {
            lemma_filter_take_step(s, edge_away_from(id), i as int);
        }
        let x = &rows[i];
        if x.outbound_id != id && x.inbound_id != id {
            let ghost before = out@;
            out.push(x.cloned());
            assert(edges_view(out@) =~= edges_view(before).push(s[i as int]));
        }
        i += 1;
    }
    assert(s.take(i as int) =~= s);
    out
}

/// The rows that pass the filter, in order.
fn vertex_rows_not_of(rows: &Vec<VertexPropertyRow>, id: u128) -> (r: Vec<VertexPropertyRow>)
    ensures
        vertex_rows_view(r@) == vertex_rows_view(rows@).filter(prop_not_of_vertex(id)),
{
    let ghost s = vertex_rows_view(rows@);
    let mut out: Vec<VertexPropertyRow> = Vec::new();
    let mut i: usize = 0;
    while i < rows.len()
        invariant
            0 <= i <= rows.len(),
            s == vertex_rows_view(rows@),
            vertex_rows_view(out@) == s.take(i as int).filter(prop_not_of_vertex(id)),
        decreases rows.len() - i,
    {
        proof {
            lemma_filter_take_step(s, prop_not_of_vertex(id), i as int);
        }
        let x = &rows[i];
        if x.id != id {
            let ghost before = out@;
            out.push(x.cloned());
            assert(vertex_rows_view(out@) =~= vertex_rows_view(before).push(s[i as int]));
        }
        i += 1;
    }
    assert(s.take(i as int) =~= s);
    out
}

/// The rows that pass the filter, in order.
fn edge_rows_away_from(rows: &Vec<EdgePropertyRow>, id: u128) -> (r: Vec<EdgePropertyRow>)
    ensures
        edge_rows_view(r@) == edge_rows_view(rows@).filter(prop_away_from(id)),
{
    let ghost s = edge_rows_view(rows@);
    let mut out: Vec<EdgePropertyRow> = Vec::new();
    let mut i: usize = 0;
    while i < rows.len()
        invariant
            0 <= i <= rows.len(),
            s == edge_rows_view(rows@),
            edge_rows_view(out@) == s.take(i as int).filter(prop_away_from(id)),
        decreases rows.len() - i,
    {
        proof {
            lemma_filter_take_step(s, prop_away_from(id), i as int);
        }
        let x = &rows[i];
        if x.edge.outbound_id != id && x.edge.inbound_id != id {
            let ghost before = out@;
            out.push(x.cloned());
            assert(edge_rows_view(out@) =~= edge_rows_view(before).push(s[i as int]));
        }
        i += 1;
    }
    assert(s.take(i as int) =~= s);
    out
}

/// The rows that pass the filter, in order.
fn edges_other_than(rows: &Vec<Edge>, e: &Edge) -> (r: Vec<Edge>)
    ensures
        edges_view(r@) == edges_view(rows@).filter(edge_other_than(e@)),
{
    let ghost s = edges_view(rows@);
    let mut out: Vec<Edge> = Vec::new();
    let mut i: usize = 0;
    while i < rows.len()
        invariant
            0 <= i <= rows.len(),
            s == edges_view(rows@),
            edges_view(out@) == s.take(i as int).filter(edge_other_than(e@)),
        decreases rows.len() - i,
    {
        proof {
            lemma_filter_take_step(s, edge_other_than(e@), i as int);
        }
        let x = &rows[i];
        if !x.same(e) {
            let ghost before = out@;
            out.push(x.cloned());
            assert(edges_view(out@) =~= edges_view(before).push(s[i as int]));
        }
        i += 1;
    }
    assert(s.take(i as int) =~= s);
    out
}

/// The rows that pass the filter, in order.
fn edge_rows_not_of(rows: &Vec<EdgePropertyRow>, e: &Edge) -> (r: Vec<EdgePropertyRow>)
    ensures
        edge_rows_view(r@) == edge_rows_view(rows@).filter(prop_not_of_edge(e@)),
{
    let ghost s = edge_rows_view(rows@);
    let mut out: Vec<EdgePropertyRow> = Vec::new();
    let mut i: usize = 0;
    while i < rows.len()
        invariant
            0 <= i <= rows.len(),
            s == edge_rows_view(rows@),
            edge_rows_view(out@) == s.take(i as int).filter(prop_not_of_edge(e@)),
        decreases rows.len() - i,
    {
        proof {
            lemma_filter_take_step(s, prop_not_of_edge(e@), i as int);
        }
        let x = &rows[i];
        if !x.edge.same(e) {
            let ghost before = out@;
            out.push(x.cloned());
            assert(edge_rows_view(out@) =~= edge_rows_view(before).push(s[i as int]));
        }
        i += 1;
    }
    assert(s.take(i as int) =~= s);
    out
}

/// The rows that pass the filter, in order.
fn vertex_rows_other_than(rows: &Vec<VertexPropertyRow>, id: u128, name: &Identifier) -> (r: Vec<VertexPropertyRow>)
    ensures
        vertex_rows_view(r@) == vertex_rows_view(rows@).filter(vertex_prop_other_than(id, name@)),
{
    let ghost s = vertex_rows_view(rows@);
    let mut out: Vec<VertexPropertyRow> = Vec::new();
    let mut i: usize = 0;
    while i < rows.len()
        invariant
            0 <= i <= rows.len(),
            s == vertex_rows_view(rows@),
            vertex_rows_view(out@) == s.take(i as int).filter(vertex_prop_other_than(id, name@)),
        decreases rows.len() - i,
    {
        proof {
            lemma_filter_take_step(s, vertex_prop_other_than(id, name@), i as int);
        }
        let x = &rows[i];
        if !(x.id == id && x.name.same(name)) {
            let ghost before = out@;
            out.push(x.cloned());
            assert(vertex_rows_view(out@) =~= vertex_rows_view(before).push(s[i as int]));
        }
        i += 1;
    }
    assert(s.take(i as int) =~= s);
    out
}

/// The rows that pass the filter, in order.
fn edge_rows_other_than(rows: &Vec<EdgePropertyRow>, e: &Edge, name: &Identifier) -> (r: Vec<EdgePropertyRow>)
    ensures
        edge_rows_view(r@) == edge_rows_view(rows@).filter(edge_prop_other_than(e@, name@)),
{
    let ghost s = edge_rows_view(rows@);
    let mut out: Vec<EdgePropertyRow> = Vec::new();
    let mut i: usize = 0;
    while i < rows.len()
        invariant
            0 <= i <= rows.len(),
            s == edge_rows_view(rows@),
            edge_rows_view(out@) == s.take(i as int).filter(edge_prop_other_than(e@, name@)),
        decreases rows.len() - i,
    {
        proof {
            lemma_filter_take_step(s, edge_prop_other_than(e@, name@), i as int);
        }
        let x = &rows[i];
        if !(x.edge.same(e) && x.name.same(name)) {
            let ghost before = out@;
            out.push(x.cloned());
            assert(edge_rows_view(out@) =~= edge_rows_view(before).push(s[i as int]));
        }
        i += 1;
    }
    assert(s.take(i as int) =~= s);
    out
}

/// The rows with the named property's value replaced.
fn vertex_rows_updated(rows: &Vec<VertexPropertyRow>, id: u128, name: &Identifier, value: &Json) -> (r: Vec<VertexPropertyRow>)
    ensures
        vertex_rows_view(r@) == vertex_rows_view(rows@).map_values(vertex_prop_update(id, name@, value@)),
{
    let ghost s = vertex_rows_view(rows@);
    let mut out: Vec<VertexPropertyRow> = Vec::new();
    let mut i: usize = 0;
    while i < rows.len()
        invariant
            0 <= i <= rows.len(),
            s == vertex_rows_view(rows@),
            vertex_rows_view(out@) == s.take(i as int).map_values(vertex_prop_update(id, name@, value@)),
        decreases rows.len() - i,
    {
        let x = &rows[i];
        let ghost before = out@;
        if x.id == id && x.name.same(name) {
            out.push(VertexPropertyRow { id, name: name.cloned(), value: value.cloned() });
        } else {
            out.push(x.cloned());
        }
        let ghost f = vertex_prop_update(id, name@, value@);
        assert(vertex_rows_view(out@) =~= vertex_rows_view(before).push(f(s[i as int])));
        assert(s.take(i + 1).map_values(f) =~= s.take(i as int).map_values(f).push(f(s[i as int])));
        i += 1;
    }
    assert(s.take(i as int) =~= s);
    out
}

/// The rows with the named property's value replaced.
fn edge_rows_updated(rows: &Vec<EdgePropertyRow>, e: &Edge, name: &Identifier, value: &Json) -> (r: Vec<EdgePropertyRow>)
    ensures
        edge_rows_view(r@) == edge_rows_view(rows@).map_values(edge_prop_update(e@, name@, value@)),
{
    let ghost s = edge_rows_view(rows@);
    let mut out: Vec<EdgePropertyRow> = Vec::new();
    let mut i: usize = 0;
    while i < rows.len()
        invariant
            0 <= i <= rows.len(),
            s == edge_rows_view(rows@),
            edge_rows_view(out@) == s.take(i as int).map_values(edge_prop_update(e@, name@, value@)),
        decreases rows.len() - i,
    {
        let x = &rows[i];
        let ghost before = out@;
        if x.edge.same(e) && x.name.same(name) {
            out.push(EdgePropertyRow { edge: e.cloned(), name: name.cloned(), value: value.cloned() });
        } else {
            out.push(x.cloned());
        }
        let ghost f = edge_prop_update(e@, name@, value@);
        assert(edge_rows_view(out@) =~= edge_rows_view(before).push(f(s[i as int])));
        assert(s.take(i + 1).map_values(f) =~= s.take(i as int).map_values(f).push(f(s[i as int])));
        i += 1;
    }
    assert(s.take(i as int) =~= s);
    out
}

} // verus!
