use vstd::prelude::*;

use crate::identifiers::{chars_lt, lemma_chars_lt_irreflexive, lemma_chars_lt_total, lemma_chars_lt_transitive};
use crate::models::{EdgeModel, PropModel, VertexModel};

verus! {

/// A vertex property as the contracts see it: owner id, name, value.
pub type VertexPropModel = (u128, Seq<char>, Seq<char>);

/// An edge property as the contracts see it: owner edge, name, value.
pub type EdgePropModel = (EdgeModel, Seq<char>, Seq<char>);

/// The whole database as the contracts see it: the vertices in ascending id
/// order, the edges in key order, `reversed_edges` holding each edge with its
/// ends swapped, `(inbound id, type, outbound id)`, in key order, the
/// properties in key order (owner, then name), the names of the indexed
/// properties, and the property index: the properties whose name is indexed,
/// also in key order.
pub struct GraphModel {
    pub vertices: Seq<VertexModel>,
    pub edges: Seq<EdgeModel>,
    pub reversed_edges: Seq<EdgeModel>,
    pub vertex_properties: Seq<VertexPropModel>,
    pub edge_properties: Seq<EdgePropModel>,
    pub indexed: Seq<Seq<char>>,
    pub vertex_index: Seq<VertexPropModel>,
    pub edge_index: Seq<EdgePropModel>,
}

/// Some vertex has the id.
pub open spec fn has_vertex(vs: Seq<VertexModel>, id: u128) -> bool {
    exists|i: int| 0 <= i < vs.len() && (#[trigger] vs[i]).0 == id
}

/// The vertex with the id (the last one stored, should there be several).
pub open spec fn find_vertex(vs: Seq<VertexModel>, id: u128) -> Option<VertexModel>
    decreases vs.len(),
{
    if vs.len() == 0 {
        None
    } else if vs.last().0 == id {
        Some(vs.last())
    } else {
        find_vertex(vs.drop_last(), id)
    }
}

/// Vertices whose id is below the id.
pub open spec fn id_below(id: u128) -> spec_fn(VertexModel) -> bool {
    |v: VertexModel| v.0 < id
}

/// Where a vertex with the id goes so that ids stay ascending: after every
/// vertex with a smaller id.
pub open spec fn insert_position(vs: Seq<VertexModel>, id: u128) -> int {
    vs.filter(id_below(id)).len() as int
}

/// The edge with its ends swapped.
pub open spec fn reverse(e: EdgeModel) -> EdgeModel {
    (e.2, e.1, e.0)
}

/// Edge key order: by outbound id, then type, then inbound id.
pub open spec fn edge_lt(a: EdgeModel, b: EdgeModel) -> bool {
    a.0 < b.0 || (a.0 == b.0 && (chars_lt(a.1, b.1) || (a.1 == b.1 && a.2 < b.2)))
}

/// No edge precedes itself.
pub proof fn lemma_edge_lt_irreflexive(a: EdgeModel)
    ensures
        !edge_lt(a, a),
{
    lemma_chars_lt_irreflexive(a.1);
}

/// Edge key order is transitive.
pub proof fn lemma_edge_lt_transitive(a: EdgeModel, b: EdgeModel, c: EdgeModel)
    requires
        edge_lt(a, b),
        edge_lt(b, c),
    ensures
        edge_lt(a, c),
{
    if a.0 == b.0 && b.0 == c.0 && chars_lt(a.1, b.1) && chars_lt(b.1, c.1) {
        lemma_chars_lt_transitive(a.1, b.1, c.1);
    }
}

/// Of two different edges, one precedes the other.
pub proof fn lemma_edge_lt_total(a: EdgeModel, b: EdgeModel)
    requires
        a != b,
    ensures
        edge_lt(a, b) || edge_lt(b, a),
{
    if a.1 != b.1 {
        lemma_chars_lt_total(a.1, b.1);
    }
}

/// Edges that precede the edge.
pub open spec fn edge_below(e: EdgeModel) -> spec_fn(EdgeModel) -> bool {
    |x: EdgeModel| edge_lt(x, e)
}

/// Where an edge goes so that the edges stay in key order: after every edge
/// that precedes it.
pub open spec fn edge_position(es: Seq<EdgeModel>, e: EdgeModel) -> int {
    es.filter(edge_below(e)).len() as int
}

/// Vertex property key order: by owner id, then name.
pub open spec fn vertex_prop_lt(a: VertexPropModel, b: VertexPropModel) -> bool {
    a.0 < b.0 || (a.0 == b.0 && chars_lt(a.1, b.1))
}

/// Edge property key order: by owner edge, then name.
pub open spec fn edge_prop_lt(a: EdgePropModel, b: EdgePropModel) -> bool {
    edge_lt(a.0, b.0) || (a.0 == b.0 && chars_lt(a.1, b.1))
}

/// Vertex properties whose key precedes the vertex's property of that name.
pub open spec fn vertex_prop_below(id: u128, name: Seq<char>) -> spec_fn(VertexPropModel) -> bool {
    |p: VertexPropModel| p.0 < id || (p.0 == id && chars_lt(p.1, name))
}

/// Edge properties whose key precedes the edge's property of that name.
pub open spec fn edge_prop_below(e: EdgeModel, name: Seq<char>) -> spec_fn(EdgePropModel) -> bool {
    |p: EdgePropModel| edge_lt(p.0, e) || (p.0 == e && chars_lt(p.1, name))
}

/// Where a new property of the vertex goes so that keys stay in order.
pub open spec fn vertex_prop_position(ps: Seq<VertexPropModel>, id: u128, name: Seq<char>) -> int {
    ps.filter(vertex_prop_below(id, name)).len() as int
}

/// Where a new property of the edge goes so that keys stay in order.
pub open spec fn edge_prop_position(ps: Seq<EdgePropModel>, e: EdgeModel, name: Seq<char>) -> int {
    ps.filter(edge_prop_below(e, name)).len() as int
}

/// The value of a vertex's property, if it is set.
pub open spec fn vertex_prop(ps: Seq<VertexPropModel>, id: u128, name: Seq<char>) -> Option<
    Seq<char>,
>
    decreases ps.len(),
{
    if ps.len() == 0 {
        None
    } else if ps.last().0 == id && ps.last().1 == name {
        Some(ps.last().2)
    } else {
        vertex_prop(ps.drop_last(), id, name)
    }
}

/// The value of an edge's property, if it is set.
pub open spec fn edge_prop(ps: Seq<EdgePropModel>, e: EdgeModel, name: Seq<char>) -> Option<
    Seq<char>,
>
    decreases ps.len(),
{
    if ps.len() == 0 {
        None
    } else if ps.last().0 == e && ps.last().1 == name {
        Some(ps.last().2)
    } else {
        edge_prop(ps.drop_last(), e, name)
    }
}

/// Vertex properties owned by the vertex.
pub open spec fn prop_of_vertex(id: u128) -> spec_fn(VertexPropModel) -> bool {
    |p: VertexPropModel| p.0 == id
}

/// Edge properties owned by the edge.
pub open spec fn prop_of_edge(e: EdgeModel) -> spec_fn(EdgePropModel) -> bool {
    |p: EdgePropModel| p.0 == e
}

/// A vertex property's name and value.
pub open spec fn vertex_prop_pair() -> spec_fn(VertexPropModel) -> PropModel {
    |p: VertexPropModel| (p.1, p.2)
}

/// An edge property's name and value.
pub open spec fn edge_prop_pair() -> spec_fn(EdgePropModel) -> PropModel {
    |p: EdgePropModel| (p.1, p.2)
}

/// Vertices with another id.
pub open spec fn vertex_other_than(id: u128) -> spec_fn(VertexModel) -> bool {
    |v: VertexModel| v.0 != id
}

/// Edges with neither end at the vertex.
pub open spec fn edge_away_from(id: u128) -> spec_fn(EdgeModel) -> bool {
    |e: EdgeModel| e.0 != id && e.2 != id
}

/// Vertex properties of other vertices.
pub open spec fn prop_not_of_vertex(id: u128) -> spec_fn(VertexPropModel) -> bool {
    |p: VertexPropModel| p.0 != id
}

/// Edge properties of edges with neither end at the vertex.
pub open spec fn prop_away_from(id: u128) -> spec_fn(EdgePropModel) -> bool {
    |p: EdgePropModel| p.0.0 != id && p.0.2 != id
}

/// Edges other than the edge.
pub open spec fn edge_other_than(e: EdgeModel) -> spec_fn(EdgeModel) -> bool {
    |x: EdgeModel| x != e
}

/// Edge properties of other edges.
pub open spec fn prop_not_of_edge(e: EdgeModel) -> spec_fn(EdgePropModel) -> bool {
    |p: EdgePropModel| p.0 != e
}

/// Vertex properties other than the vertex's property of that name.
pub open spec fn vertex_prop_other_than(id: u128, name: Seq<char>) -> spec_fn(VertexPropModel) -> bool {
    |p: VertexPropModel| !(p.0 == id && p.1 == name)
}

/// Edge properties other than the edge's property of that name.
pub open spec fn edge_prop_other_than(e: EdgeModel, name: Seq<char>) -> spec_fn(EdgePropModel) -> bool {
    |p: EdgePropModel| !(p.0 == e && p.1 == name)
}

/// Replaces the value of the vertex's property of that name.
pub open spec fn vertex_prop_update(id: u128, name: Seq<char>, value: Seq<char>) -> spec_fn(
    VertexPropModel,
) -> VertexPropModel {
    |p: VertexPropModel|
        if p.0 == id && p.1 == name {
            (id, name, value)
        } else {
            p
        }
}

/// Replaces the value of the edge's property of that name.
pub open spec fn edge_prop_update(e: EdgeModel, name: Seq<char>, value: Seq<char>) -> spec_fn(
    EdgePropModel,
) -> EdgePropModel {
    |p: EdgePropModel|
        if p.0 == e && p.1 == name {
            (e, name, value)
        } else {
            p
        }
}

/// Sets the vertex's property in a key-ordered table: in place where it is
/// set, else at its place in key order.
pub open spec fn vertex_prop_set(ps: Seq<VertexPropModel>, id: u128, name: Seq<char>, value: Seq<char>) -> Seq<
    VertexPropModel,
> {
    if vertex_prop(ps, id, name) is Some {
        ps.map_values(vertex_prop_update(id, name, value))
    } else {
        ps.insert(vertex_prop_position(ps, id, name), (id, name, value))
    }
}

/// Sets the edge's property in a key-ordered table: in place where it is
/// set, else at its place in key order.
pub open spec fn edge_prop_set(ps: Seq<EdgePropModel>, e: EdgeModel, name: Seq<char>, value: Seq<char>) -> Seq<
    EdgePropModel,
> {
    if edge_prop(ps, e, name) is Some {
        ps.map_values(edge_prop_update(e, name, value))
    } else {
        ps.insert(edge_prop_position(ps, e, name), (e, name, value))
    }
}

/// Vertex properties whose name is on the list.
pub open spec fn vertex_prop_named_in(names: Seq<Seq<char>>) -> spec_fn(VertexPropModel) -> bool {
    |p: VertexPropModel| names.contains(p.1)
}

/// Edge properties whose name is on the list.
pub open spec fn edge_prop_named_in(names: Seq<Seq<char>>) -> spec_fn(EdgePropModel) -> bool {
    |p: EdgePropModel| names.contains(p.1)
}

/// All properties of a vertex, in table order (by name, in a well-formed
/// store).
pub open spec fn vertex_props_of(ps: Seq<VertexPropModel>, id: u128) -> Seq<PropModel> {
    ps.filter(prop_of_vertex(id)).map_values(vertex_prop_pair())
}

/// All properties of an edge, in table order (by name, in a well-formed
/// store).
pub open spec fn edge_props_of(ps: Seq<EdgePropModel>, e: EdgeModel) -> Seq<PropModel> {
    ps.filter(prop_of_edge(e)).map_values(edge_prop_pair())
}

/// The first `n` items, or all of them where there are fewer.
pub open spec fn take_at_most<A>(s: Seq<A>, n: int) -> Seq<A> {
    if s.len() <= n {
        s
    } else {
        s.take(n)
    }
}

/// Filtering a prefix one item longer adds that item exactly when it passes.
pub proof fn lemma_filter_take_step<A>(s: Seq<A>, pred: spec_fn(A) -> bool, i: int)
    requires
        0 <= i < s.len(),
    ensures
        s.take(i + 1).filter(pred) == (if pred(s[i]) {
            s.take(i).filter(pred).push(s[i])
        } else {
            s.take(i).filter(pred)
        }),
{
    reveal(Seq::filter);
    assert(s.take(i + 1).drop_last() =~= s.take(i));
}

/// Appending to a sequence and then keeping at most `n` items.
pub proof fn lemma_take_at_most_step<A>(s: Seq<A>, a: A, n: int)
    requires
        n >= 0,
    ensures
        take_at_most(s.push(a), n) == (if take_at_most(s, n).len() < n {
            take_at_most(s, n).push(a)
        } else {
            take_at_most(s, n)
        }),
{
    if s.len() >= n {
        assert(s.push(a).take(n) =~= s.take(n));
        assert(s.len() == n ==> s =~= s.take(n));
    }
}

impl GraphModel {
    /// The empty database.
    pub open spec fn empty() -> GraphModel {
        GraphModel {
            vertices: Seq::empty(),
            edges: Seq::empty(),
            reversed_edges: Seq::empty(),
            vertex_properties: Seq::empty(),
            edge_properties: Seq::empty(),
            indexed: Seq::empty(),
            vertex_index: Seq::empty(),
            edge_index: Seq::empty(),
        }
    }

    /// Adds a vertex, in id order, unless one with its id exists.
    pub open spec fn with_vertex(self, v: VertexModel) -> GraphModel {
        if has_vertex(self.vertices, v.0) {
            self
        } else {
            GraphModel {
                vertices: self.vertices.insert(insert_position(self.vertices, v.0), v),
                ..self
            }
        }
    }

    /// Adds an edge, in key order, if both endpoints exist and it does not.
    pub open spec fn with_edge(self, e: EdgeModel) -> GraphModel {
        if has_vertex(self.vertices, e.0) && has_vertex(self.vertices, e.2) && !self.edges.contains(
            e,
        ) {
            GraphModel {
                edges: self.edges.insert(edge_position(self.edges, e), e),
                reversed_edges: self.reversed_edges.insert(
                    edge_position(self.reversed_edges, reverse(e)),
                    reverse(e),
                ),
                ..self
            }
        } else {
            self
        }
    }

    /// Sets a vertex's property, if the vertex exists, and its index entry
    /// if the name is indexed.
    pub open spec fn with_vertex_prop(self, id: u128, name: Seq<char>, value: Seq<char>) -> GraphModel {
        if !has_vertex(self.vertices, id) {
            self
        } else {
            GraphModel {
                vertex_properties: vertex_prop_set(self.vertex_properties, id, name, value),
                vertex_index: if self.indexed.contains(name) {
                    vertex_prop_set(self.vertex_index, id, name, value)
                } else {
                    self.vertex_index
                },
                ..self
            }
        }
    }

    /// Sets an edge's property, if the edge exists, and its index entry if
    /// the name is indexed.
    pub open spec fn with_edge_prop(self, e: EdgeModel, name: Seq<char>, value: Seq<char>) -> GraphModel {
        if !self.edges.contains(e) {
            self
        } else {
            GraphModel {
                edge_properties: edge_prop_set(self.edge_properties, e, name, value),
                edge_index: if self.indexed.contains(name) {
                    edge_prop_set(self.edge_index, e, name, value)
                } else {
                    self.edge_index
                },
                ..self
            }
        }
    }

    /// Removes a vertex, every edge incident to it, and every property owned
    /// by any of them.
    pub open spec fn without_vertex(self, id: u128) -> GraphModel {
        GraphModel {
            vertices: self.vertices.filter(vertex_other_than(id)),
            edges: self.edges.filter(edge_away_from(id)),
            reversed_edges: self.reversed_edges.filter(edge_away_from(id)),
            vertex_properties: self.vertex_properties.filter(prop_not_of_vertex(id)),
            edge_properties: self.edge_properties.filter(prop_away_from(id)),
            indexed: self.indexed,
            vertex_index: self.vertex_index.filter(prop_not_of_vertex(id)),
            edge_index: self.edge_index.filter(prop_away_from(id)),
        }
    }

    /// Removes an edge and every property owned by it.
    pub open spec fn without_edge(self, e: EdgeModel) -> GraphModel {
        GraphModel {
            edges: self.edges.filter(edge_other_than(e)),
            reversed_edges: self.reversed_edges.filter(edge_other_than(reverse(e))),
            edge_properties: self.edge_properties.filter(prop_not_of_edge(e)),
            edge_index: self.edge_index.filter(prop_not_of_edge(e)),
            ..self
        }
    }

    /// Removes one property of a vertex.
    pub open spec fn without_vertex_prop(self, id: u128, name: Seq<char>) -> GraphModel {
        GraphModel {
            vertex_properties: self.vertex_properties.filter(vertex_prop_other_than(id, name)),
            vertex_index: self.vertex_index.filter(vertex_prop_other_than(id, name)),
            ..self
        }
    }

    /// Removes one property of an edge.
    pub open spec fn without_edge_prop(self, e: EdgeModel, name: Seq<char>) -> GraphModel {
        GraphModel {
            edge_properties: self.edge_properties.filter(edge_prop_other_than(e, name)),
            edge_index: self.edge_index.filter(edge_prop_other_than(e, name)),
            ..self
        }
    }

    /// Marks a property name as indexed and fills the index from the
    /// properties already set; a no-op where the name is indexed.
    pub open spec fn with_index(self, name: Seq<char>) -> GraphModel {
        if self.indexed.contains(name) {
            self
        } else {
            GraphModel {
                indexed: self.indexed.push(name),
                vertex_index: self.vertex_properties.filter(
                    vertex_prop_named_in(self.indexed.push(name)),
                ),
                edge_index: self.edge_properties.filter(edge_prop_named_in(self.indexed.push(name))),
                ..self
            }
        }
    }

    /// Removes each vertex of the list in turn.
    pub open spec fn without_vertices(self, ids: Seq<u128>) -> GraphModel
        decreases ids.len(),
    {
        if ids.len() == 0 {
            self
        } else {
            self.without_vertices(ids.drop_last()).without_vertex(ids.last())
        }
    }

    /// Removes each edge of the list in turn.
    pub open spec fn without_edges(self, es: Seq<EdgeModel>) -> GraphModel
        decreases es.len(),
    {
        if es.len() == 0 {
            self
        } else {
            self.without_edges(es.drop_last()).without_edge(es.last())
        }
    }
}

} // verus!
