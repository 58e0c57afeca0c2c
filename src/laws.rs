use vstd::prelude::*;

use crate::mutations::{after_delete, after_set, vertex_ids};
use crate::errors::{Error, ValidationError};
use crate::evaluator::{
    edge_from, edge_value, edges_of, eval, in_range, lookup_vertex, pipe_edges, specific_vertices,
    stored_edge, swap_ends, vertex_value, vertex_entry, edge_entry, entry_vertex, indexed_vertices,
    indexed_edges,
};
use crate::graph::{
    EdgePropModel, VertexPropModel, reverse, edge_below, edge_position, edge_prop, find_vertex, has_vertex, id_below, insert_position, take_at_most, vertex_prop, GraphModel,
};
use crate::identifiers::chars_lt;
use crate::invariants::{
    edge_prop_key, edge_prop_order, lemma_wf_with_edge, unique_by, vertex_prop_key, vertex_prop_order,
};
use crate::memory::{same_tables, Tables};
use crate::json::null_text;
use crate::models::{BulkInsertItem, EdgeDirection, EdgeModel, OutputModel, VertexModel};
use crate::queries::Query;

verus! {

broadcast use {vstd::seq_lib::group_filter_ensures, vstd::seq::Seq::lemma_filter_contains_rev};

/// Looking up an id that some vertex has finds a vertex with that id.
pub proof fn lemma_find_existing(vs: Seq<VertexModel>, id: u128)
    requires
        has_vertex(vs, id),
    ensures
        find_vertex(vs, id) matches Some(v) && v.0 == id && vs.contains(v),
    decreases vs.len(),
{
    if vs.last().0 != id {
        let i = choose|i: int| 0 <= i < vs.len() && (#[trigger] vs[i]).0 == id;
        assert(vs.drop_last()[i] == vs[i]);
        lemma_find_existing(vs.drop_last(), id);
        let v = find_vertex(vs.drop_last(), id)->Some_0;
        let k = choose|k: int| 0 <= k < vs.drop_last().len() && vs.drop_last()[k] == v;
        assert(vs[k] == v);
    } else {
        assert(vs[vs.len() - 1] == vs.last());
    }
}

/// Looking up an id that exactly one vertex has finds that vertex.
pub proof fn lemma_find_unique(vs: Seq<VertexModel>, k: int)
    requires
        0 <= k < vs.len(),
        forall|j: int| 0 <= j < vs.len() && j != k ==> (#[trigger] vs[j]).0 != vs[k].0,
    ensures
        find_vertex(vs, vs[k].0) == Some(vs[k]),
    decreases vs.len(),
{
    if k != vs.len() - 1 {
        assert(vs[vs.len() - 1] == vs.last());
        let d = vs.drop_last();
        assert(d[k] == vs[k]);
        assert forall|j: int| 0 <= j < d.len() && j != k implies (#[trigger] d[j]).0 != d[k].0 by {
            assert(d[j] == vs[j]);
        }
        lemma_find_unique(d, k);
    }
}

/// A vertex added where its id was free sits at its insert position, and is
/// the only one with its id.
pub proof fn lemma_added_vertex(m: GraphModel, v: VertexModel)
    requires
        !has_vertex(m.vertices, v.0),
    ensures
        ({
            let vs = m.with_vertex(v).vertices;
            let k = insert_position(m.vertices, v.0);
            &&& 0 <= k < vs.len()
            &&& vs[k] == v
            &&& forall|j: int| 0 <= j < vs.len() && j != k ==> (#[trigger] vs[j]).0 != v.0
        }),
{
    let k = insert_position(m.vertices, v.0);
    m.vertices.lemma_filter_len(id_below(v.0));
    let vs = m.with_vertex(v).vertices;
    assert forall|j: int| 0 <= j < vs.len() && j != k implies (#[trigger] vs[j]).0 != v.0 by {
        if j < k {
            assert(vs[j] == m.vertices[j]);
        } else {
            assert(vs[j] == m.vertices[j - 1]);
        }
    }
}

/// Looking up an id that no vertex has finds nothing.
pub proof fn lemma_find_missing(vs: Seq<VertexModel>, id: u128)
    requires
        !has_vertex(vs, id),
    ensures
        find_vertex(vs, id) is None,
    decreases vs.len(),
{
    if vs.len() > 0 {
        assert(vs[vs.len() - 1] == vs.last());
        assert forall|i: int| 0 <= i < vs.drop_last().len() implies (
        #[trigger] vs.drop_last()[i]).0 != id by {
            assert(vs.drop_last()[i] == vs[i]);
        }
        lemma_find_missing(vs.drop_last(), id);
    }
}

/// The vertices with a list of one id.
pub proof fn lemma_specific_one(vs: Seq<VertexModel>, id: u128)
    ensures
        specific_vertices(vs, seq![id]) == (match find_vertex(vs, id) {
            Some(v) => seq![v],
            None => Seq::<VertexModel>::empty(),
        }),
{
    let ids = seq![id];
    assert(ids.drop_last() =~= Seq::<u128>::empty());
    assert(ids.last() == id);
    let f = lookup_vertex(vs);
    assert(f(id) == find_vertex(vs, id));
    assert(Seq::<u128>::empty().filter_map(f) =~= Seq::<VertexModel>::empty());
    assert(ids.filter_map(f) == (match f(ids.last()) {
        Some(s) => ids.drop_last().filter_map(f) + seq![s],
        None => ids.drop_last().filter_map(f),
    }));
    match find_vertex(vs, id) {
        Some(v) => {
            assert(Seq::<VertexModel>::empty() + seq![v] =~= seq![v]);
        },
        None => {},
    }
}

/// A created vertex is found by its id: after `create_vertex(v)` succeeds,
/// `SpecificVertex([v.id])` yields exactly `v`.
pub proof fn law_created_vertex_is_found(m: GraphModel, v: VertexModel, q: Query)
    requires
        !has_vertex(m.vertices, v.0),
        q matches Query::SpecificVertex(s) && s.ids@ == seq![v.0],
    ensures
        eval(m.with_vertex(v), q) == Ok::<Seq<OutputModel>, Error>(
            seq![OutputModel::Vertices(seq![v])],
        ),
{
    let m2 = m.with_vertex(v);
    lemma_added_vertex(m, v);
    lemma_find_unique(m2.vertices, insert_position(m.vertices, v.0));
    assert(find_vertex(m2.vertices, v.0) == Some(v));
    lemma_specific_one(m2.vertices, v.0);
}

/// The edges that a pipe from a single existing vertex yields contain every
/// stored edge at that end of the vertex, when the limit leaves room.
proof fn lemma_pipe_from_one(m: GraphModel, e: EdgeModel, id: u128, dir: EdgeDirection, q: Query)
    requires
        m.wf(),
        has_vertex(m.vertices, id),
        m.edges.contains(e),
        (match dir {
            EdgeDirection::Outbound => e.0,
            EdgeDirection::Inbound => e.2,
        }) == id,
        q matches Query::Pipe(p) && p.t is None && p.direction == dir && p.limit as int
            >= m.edges.len() && (*p.inner matches Query::SpecificVertex(s) && s.ids@ == seq![id]),
    ensures
        eval(m, q) matches Ok(outs) && outs.last() matches OutputModel::Edges(es) && es.contains(e),
{
    let p = q->Pipe_0;
    lemma_find_existing(m.vertices, id);
    let v = find_vertex(m.vertices, id)->Some_0;
    lemma_specific_one(m.vertices, id);
    let inner_outs = seq![OutputModel::Vertices(seq![v])];
    assert(eval(m, *p.inner) == Ok::<Seq<OutputModel>, Error>(inner_outs));
    let vs = seq![v];
    assert(vs.drop_last() =~= Seq::<VertexModel>::empty());
    let f = edges_of(m, id, dir, None);
    assert(pipe_edges(m, Seq::<VertexModel>::empty(), dir, None) == Seq::<EdgeModel>::empty());
    assert(vs.last() == v);
    assert(pipe_edges(m, vs, dir, None) =~= Seq::<EdgeModel>::empty() + f);
    match dir {
        EdgeDirection::Outbound => {
            let k = choose|k: int| 0 <= k < m.edges.len() && m.edges[k] == e;
            m.edges.lemma_filter_contains(edge_from(id, None), k);
        },
        EdgeDirection::Inbound => {
            assert(m.reversed_edges.contains(reverse(e)));
            let k = choose|k: int| 0 <= k < m.reversed_edges.len() && m.reversed_edges[k] == reverse(e);
            m.reversed_edges.lemma_filter_contains(edge_from(id, None), k);
            let g = m.reversed_edges.filter(edge_from(id, None));
            let i = choose|i: int| 0 <= i < g.len() && g[i] == reverse(e);
            assert(f[i] == swap_ends()(reverse(e)));
            assert(f[i] == e);
        },
    }
    m.edges.lemma_filter_len(edge_from(id, None));
    assert(f.len() <= m.edges.len()) by {
        if dir == EdgeDirection::Inbound {
            m.reversed_edges.lemma_filter_len(edge_from(id, None));
            lemma_reversed_len(m);
        }
    }
    assert(take_at_most(Seq::<EdgeModel>::empty() + f, p.limit as int) == f);
}

/// The reversed table is as long as the edge table.
proof fn lemma_reversed_len(m: GraphModel)
    requires
        m.wf(),
    ensures
        m.reversed_edges.len() == m.edges.len(),
{
    let rv = m.reversed_edges.map_values(swap_ends());
    assert forall|i: int, j: int| 0 <= i < j < rv.len() implies rv[i] != rv[j] by {
        assert(crate::graph::edge_lt(m.reversed_edges[i], m.reversed_edges[j]));
        crate::graph::lemma_edge_lt_irreflexive(m.reversed_edges[i]);
        assert(reverse(rv[i]) == m.reversed_edges[i]);
        assert(reverse(rv[j]) == m.reversed_edges[j]);
    }
    assert forall|i: int, j: int| 0 <= i < j < m.edges.len() implies m.edges[i] != m.edges[j] by {
        assert(crate::graph::edge_lt(m.edges[i], m.edges[j]));
        crate::graph::lemma_edge_lt_irreflexive(m.edges[i]);
    }
    assert forall|x: EdgeModel| rv.contains(x) <==> m.edges.contains(x) by {
        if rv.contains(x) {
            let i = choose|i: int| 0 <= i < rv.len() && rv[i] == x;
            assert(m.reversed_edges.contains(m.reversed_edges[i]));
            assert(reverse(x) == m.reversed_edges[i]);
        }
        if m.edges.contains(x) {
            assert(m.reversed_edges.contains(reverse(x)));
            let i = choose|i: int| 0 <= i < m.reversed_edges.len() && m.reversed_edges[i] == reverse(x);
            assert(rv[i] == x);
        }
    }
    lemma_same_items_same_len(rv, m.edges);
}

/// Two sequences without repeats that hold the same items are equally long.
proof fn lemma_same_items_same_len(a: Seq<EdgeModel>, b: Seq<EdgeModel>)
    requires
        forall|i: int, j: int| 0 <= i < j < a.len() ==> a[i] != a[j],
        forall|i: int, j: int| 0 <= i < j < b.len() ==> b[i] != b[j],
        forall|x: EdgeModel| a.contains(x) <==> b.contains(x),
    ensures
        a.len() == b.len(),
{
    assert(a.no_duplicates()) by {
        assert forall|i: int, j: int| 0 <= i < a.len() && 0 <= j < a.len() && i != j implies a[i] != a[j] by {
            if i > j {
                assert(a[j] != a[i]);
            }
        }
    }
    assert(b.no_duplicates()) by {
        assert forall|i: int, j: int| 0 <= i < b.len() && 0 <= j < b.len() && i != j implies b[i] != b[j] by {
            if i > j {
                assert(b[j] != b[i]);
            }
        }
    }
    a.unique_seq_to_set();
    b.unique_seq_to_set();
    assert(a.to_set() =~= b.to_set());
}

/// A created edge is seen: after `create_edge(e)` with both endpoints
/// present, `e` is among all edges, among the outbound edges of its
/// outbound vertex, and among the inbound edges of its inbound vertex.
pub proof fn law_created_edge_is_seen(m: GraphModel, e: EdgeModel, out_q: Query, in_q: Query)
    requires
        m.wf(),
        has_vertex(m.vertices, e.0),
        has_vertex(m.vertices, e.2),
        out_q matches Query::Pipe(p) && p.t is None && p.direction == EdgeDirection::Outbound
            && p.limit as int > m.edges.len() && (*p.inner matches Query::SpecificVertex(s)
            && s.ids@ == seq![e.0]),
        in_q matches Query::Pipe(p) && p.t is None && p.direction == EdgeDirection::Inbound
            && p.limit as int > m.edges.len() && (*p.inner matches Query::SpecificVertex(s)
            && s.ids@ == seq![e.2]),
    ensures
        eval(m.with_edge(e), Query::AllEdge) matches Ok(outs) && outs.last() matches OutputModel::Edges(
            es,
        ) && es.contains(e),
        eval(m.with_edge(e), out_q) matches Ok(outs) && outs.last() matches OutputModel::Edges(es)
            && es.contains(e),
        eval(m.with_edge(e), in_q) matches Ok(outs) && outs.last() matches OutputModel::Edges(es)
            && es.contains(e),
{
    let m2 = m.with_edge(e);
    if !m.edges.contains(e) {
        m.edges.lemma_filter_len(edge_below(e));
        assert(m2.edges[edge_position(m.edges, e)] == e);
    }
    assert(m2.edges.contains(e));
    lemma_wf_with_edge(m, e);
    assert(m2.edges.len() >= m.edges.len());
    assert(seq![OutputModel::Edges(m2.edges)].last() == OutputModel::Edges(m2.edges));
    lemma_pipe_from_one(m2, e, e.0, EdgeDirection::Outbound, out_q);
    lemma_pipe_from_one(m2, e, e.2, EdgeDirection::Inbound, in_q);
}

/// Deleting a vertex removes what hangs on it: after
/// `delete(SpecificVertex([v]))`, no edge touches `v` (in either edge
/// table), and no property of `v` or of an edge that touched it remains.
pub proof fn law_delete_vertex_cascades(m: GraphModel, id: u128, q: Query)
    requires
        has_vertex(m.vertices, id),
        q matches Query::SpecificVertex(s) && s.ids@ == seq![id],
    ensures
        after_delete(m, q) matches Ok(m2) && !has_vertex(m2.vertices, id) && (forall|i: int|
            0 <= i < m2.edges.len() ==> (#[trigger] m2.edges[i]).0 != id && m2.edges[i].2 != id)
            && (forall|i: int|
            0 <= i < m2.reversed_edges.len() ==> (#[trigger] m2.reversed_edges[i]).0 != id
                && m2.reversed_edges[i].2 != id) && (forall|i: int|
            0 <= i < m2.vertex_properties.len() ==> (#[trigger] m2.vertex_properties[i]).0 != id)
            && (forall|i: int|
            0 <= i < m2.edge_properties.len() ==> (#[trigger] m2.edge_properties[i]).0.0 != id
                && m2.edge_properties[i].0.2 != id),
{
    lemma_find_existing(m.vertices, id);
    let v = find_vertex(m.vertices, id)->Some_0;
    lemma_specific_one(m.vertices, id);
    let ids = seq![v].map_values(|x: VertexModel| x.0);
    assert(ids =~= seq![id]);
    assert(ids.drop_last() =~= Seq::<u128>::empty());
    let m2 = m.without_vertex(id);
    assert(m.without_vertices(Seq::<u128>::empty()) == m);
    assert(ids.last() == id);
    assert(m.without_vertices(ids) == m2);
    assert forall|i: int| 0 <= i < m2.vertices.len() implies (#[trigger] m2.vertices[i]).0 != id by {
        m.vertices.lemma_filter_pred(crate::graph::vertex_other_than(id), i);
    }
    assert forall|i: int| 0 <= i < m2.edges.len() implies (#[trigger] m2.edges[i]).0 != id
        && m2.edges[i].2 != id by {
        m.edges.lemma_filter_pred(crate::graph::edge_away_from(id), i);
    }
    assert forall|i: int| 0 <= i < m2.reversed_edges.len() implies (
    #[trigger] m2.reversed_edges[i]).0 != id && m2.reversed_edges[i].2 != id by {
        m.reversed_edges.lemma_filter_pred(crate::graph::edge_away_from(id), i);
    }
    assert forall|i: int| 0 <= i < m2.vertex_properties.len() implies (
    #[trigger] m2.vertex_properties[i]).0 != id by {
        m.vertex_properties.lemma_filter_pred(crate::graph::prop_not_of_vertex(id), i);
    }
    assert forall|i: int| 0 <= i < m2.edge_properties.len() implies (
    #[trigger] m2.edge_properties[i]).0.0 != id && m2.edge_properties[i].0.2 != id by {
        m.edge_properties.lemma_filter_pred(crate::graph::prop_away_from(id), i);
    }
}

/// An item that maps to something is kept by `filter_map`.
proof fn lemma_filter_map_keeps<A, B>(s: Seq<A>, f: spec_fn(A) -> Option<B>, t: A)
    requires
        s.contains(t),
        f(t) is Some,
    ensures
        s.filter_map(f).contains(f(t)->Some_0),
    decreases s.len(),
{
    let d = s.drop_last();
    let r = d.filter_map(f);
    if s.last() == t {
        let b = f(t)->Some_0;
        assert((r + seq![b])[r.len() as int] == b);
    } else {
        let i = choose|i: int| 0 <= i < s.len() && s[i] == t;
        assert(i < s.len() - 1) by {
            if i == s.len() - 1 {
                assert(s[i] == s.last());
            }
        }
        assert(d[i] == t);
        lemma_filter_map_keeps(d, f, t);
        let k = choose|k: int| 0 <= k < r.len() && r[k] == f(t)->Some_0;
        match f(s.last()) {
            Some(b) => {
                assert((r + seq![b])[k] == f(t)->Some_0);
            },
            None => {},
        }
    }
}

/// A vertex found by id has that id and is stored.
proof fn lemma_found_vertex(vs: Seq<VertexModel>, id: u128)
    requires
        find_vertex(vs, id) is Some,
    ensures
        find_vertex(vs, id)->Some_0.0 == id,
        vs.contains(find_vertex(vs, id)->Some_0),
    decreases vs.len(),
{
    if vs.last().0 == id {
        assert(vs[vs.len() - 1] == vs.last());
    } else {
        lemma_found_vertex(vs.drop_last(), id);
        let v = find_vertex(vs, id)->Some_0;
        let k = choose|k: int| 0 <= k < vs.drop_last().len() && vs.drop_last()[k] == v;
        assert(vs[k] == v);
    }
}

/// With unique keys, a row gives the property's value.
proof fn lemma_vertex_prop_of_row(ps: Seq<VertexPropModel>, id: u128, name: Seq<char>, x: Seq<char>)
    requires
        unique_by(ps, vertex_prop_key()),
        ps.contains((id, name, x)),
    ensures
        vertex_prop(ps, id, name) == Some(x),
    decreases ps.len(),
{
    let k = choose|k: int| 0 <= k < ps.len() && ps[k] == (id, name, x);
    assert(ps[ps.len() - 1] == ps.last());
    if k == ps.len() - 1 {
    } else if ps.last().0 == id && ps.last().1 == name {
        assert(vertex_prop_key()(ps[k]) == vertex_prop_key()(ps[ps.len() - 1]));
    } else {
        let d = ps.drop_last();
        assert(d[k] == ps[k]);
        assert forall|i: int, j: int|
            0 <= i < d.len() && 0 <= j < d.len() && vertex_prop_key()(d[i]) == vertex_prop_key()(
                d[j],
            ) implies i == j by {
            assert(d[i] == ps[i] && d[j] == ps[j]);
        }
        lemma_vertex_prop_of_row(d, id, name, x);
    }
}

/// With unique keys, a row gives the property's value.
proof fn lemma_edge_prop_of_row(ps: Seq<EdgePropModel>, e: EdgeModel, name: Seq<char>, x: Seq<char>)
    requires
        unique_by(ps, edge_prop_key()),
        ps.contains((e, name, x)),
    ensures
        edge_prop(ps, e, name) == Some(x),
    decreases ps.len(),
{
    let k = choose|k: int| 0 <= k < ps.len() && ps[k] == (e, name, x);
    assert(ps[ps.len() - 1] == ps.last());
    if k == ps.len() - 1 {
    } else if ps.last().0 == e && ps.last().1 == name {
        assert(edge_prop_key()(ps[k]) == edge_prop_key()(ps[ps.len() - 1]));
    } else {
        let d = ps.drop_last();
        assert(d[k] == ps[k]);
        assert forall|i: int, j: int|
            0 <= i < d.len() && 0 <= j < d.len() && edge_prop_key()(d[i]) == edge_prop_key()(
                d[j],
            ) implies i == j by {
            assert(d[i] == ps[i] && d[j] == ps[j]);
        }
        lemma_edge_prop_of_row(d, e, name, x);
    }
}

/// For an indexed name, a vertex's property equals a value exactly when the
/// vertex is among those that `VertexWithPropertyValue(name, value)` yields.
pub proof fn law_vertex_value_lookup(m: GraphModel, o: VertexModel, q: Query)
    requires
        m.wf(),
        m.vertices.contains(o),
        q matches Query::VertexWithPropertyValue(p) && m.indexed.contains(p.name@),
    ensures
        eval(m, q) matches Ok(outs) && outs.last() matches OutputModel::Vertices(vs) && (vs.contains(
            o,
        ) <==> vertex_prop(m.vertex_properties, o.0, q->VertexWithPropertyValue_0.name@) == Some(
            q->VertexWithPropertyValue_0.value@,
        )),
{
    let n = q->VertexWithPropertyValue_0.name@;
    let x = q->VertexWithPropertyValue_0.value@;
    let entries = m.vertex_index.filter(vertex_entry(n, Some(x)));
    let ids = entries.map_values(entry_vertex());
    let f = lookup_vertex(m.vertices);
    let vs = indexed_vertices(m, n, Some(x));
    assert(vs == ids.filter_map(f));
    assert(seq![OutputModel::Vertices(vs)].last() == OutputModel::Vertices(vs));
    let k = choose|k: int| 0 <= k < m.vertices.len() && m.vertices[k] == o;
    assert forall|j: int| 0 <= j < m.vertices.len() && j != k implies (#[trigger] m.vertices[j]).0
        != m.vertices[k].0 by {
        if j < k {
            assert(m.vertices[j].0 < m.vertices[k].0);
        } else {
            assert(m.vertices[k].0 < m.vertices[j].0);
        }
    }
    lemma_find_unique(m.vertices, k);
    if vertex_prop(m.vertex_properties, o.0, n) == Some(x) {
        crate::invariants::lemma_vertex_prop_some(m.vertex_properties, o.0, n);
        let row = (o.0, n, x);
        assert(m.vertex_index.contains(row));
        crate::invariants::lemma_filter_contains_iff(m.vertex_index, vertex_entry(n, Some(x)), row);
        let j = choose|j: int| 0 <= j < entries.len() && entries[j] == row;
        assert(ids[j] == o.0);
        assert(ids.contains(o.0));
        lemma_filter_map_keeps(ids, f, o.0);
    }
    if vs.contains(o) {
        ids.lemma_filter_map_contains(f, o);
        let id = choose|id: u128| #[trigger] ids.contains(id) && f(id) == Some(o);
        lemma_found_vertex(m.vertices, id);
        let j = choose|j: int| 0 <= j < ids.len() && ids[j] == id;
        let row = entries[j];
        crate::invariants::lemma_filter_member(m.vertex_index, vertex_entry(n, Some(x)), j);
        assert(row == (o.0, n, x));
        assert(m.vertex_properties.contains(row));
        lemma_vertex_prop_of_row(m.vertex_properties, o.0, n, x);
    }
}

/// For an indexed name, an edge's property equals a value exactly when the
/// edge is among those that `EdgeWithPropertyValue(name, value)` yields.
pub proof fn law_edge_value_lookup(m: GraphModel, o: EdgeModel, q: Query)
    requires
        m.wf(),
        q matches Query::EdgeWithPropertyValue(p) && m.indexed.contains(p.name@),
    ensures
        eval(m, q) matches Ok(outs) && outs.last() matches OutputModel::Edges(es) && (es.contains(o)
            <==> edge_prop(m.edge_properties, o, q->EdgeWithPropertyValue_0.name@) == Some(
            q->EdgeWithPropertyValue_0.value@,
        )),
{
    let n = q->EdgeWithPropertyValue_0.name@;
    let x = q->EdgeWithPropertyValue_0.value@;
    let entries = m.edge_index.filter(edge_entry(n, Some(x)));
    let es = indexed_edges(m, n, Some(x));
    assert(seq![OutputModel::Edges(es)].last() == OutputModel::Edges(es));
    if edge_prop(m.edge_properties, o, n) == Some(x) {
        crate::invariants::lemma_edge_prop_some(m.edge_properties, o, n);
        let row = (o, n, x);
        assert(m.edge_index.contains(row));
        crate::invariants::lemma_filter_contains_iff(m.edge_index, edge_entry(n, Some(x)), row);
        let j = choose|j: int| 0 <= j < entries.len() && entries[j] == row;
        assert(es[j] == o);
    }
    if es.contains(o) {
        let j = choose|j: int| 0 <= j < es.len() && es[j] == o;
        let row = entries[j];
        crate::invariants::lemma_filter_member(m.edge_index, edge_entry(n, Some(x)), j);
        assert(row == (o, n, x));
        assert(m.edge_properties.contains(row));
        lemma_edge_prop_of_row(m.edge_properties, o, n, x);
    }
}

/// Looking up distinct ids finds distinct vertices.
proof fn lemma_specific_distinct(vs: Seq<VertexModel>, ids: Seq<u128>)
    requires
        ids.no_duplicates(),
    ensures
        specific_vertices(vs, ids).no_duplicates(),
    decreases ids.len(),
{
    if ids.len() > 0 {
        let f = lookup_vertex(vs);
        let d = ids.drop_last();
        assert forall|i: int, j: int| 0 <= i < d.len() && 0 <= j < d.len() && i != j implies d[i] != d[j] by {
            assert(d[i] == ids[i] && d[j] == ids[j]);
        }
        lemma_specific_distinct(vs, d);
        let r = d.filter_map(f);
        assert(ids.filter_map(f) == (match f(ids.last()) {
            Some(s) => r + seq![s],
            None => r,
        }));
        match f(ids.last()) {
            Some(v) => {
                lemma_found_vertex(vs, ids.last());
                assert(!r.contains(v)) by {
                    if r.contains(v) {
                        d.lemma_filter_map_contains(f, v);
                        let t = choose|t: u128| #[trigger] d.contains(t) && f(t) == Some(v);
                        lemma_found_vertex(vs, t);
                        let k = choose|k: int| 0 <= k < d.len() && d[k] == t;
                        assert(ids[k] == ids[ids.len() - 1]);
                    }
                }
                let g = r + seq![v];
                assert forall|i: int, j: int| 0 <= i < g.len() && 0 <= j < g.len() && i != j implies g[i] != g[j] by {
                    if i < r.len() && j < r.len() {
                        assert(g[i] == r[i] && g[j] == r[j]);
                    } else if i < r.len() {
                        assert(g[i] == r[i] && r.contains(r[i]));
                    } else if j < r.len() {
                        assert(g[j] == r[j] && r.contains(r[j]));
                    }
                }
            },
            None => {},
        }
    }
}

/// An indexed value lookup lists each vertex at most once.
pub proof fn law_vertex_value_lookup_once(m: GraphModel, q: Query)
    requires
        m.wf(),
        q matches Query::VertexWithPropertyValue(p) && m.indexed.contains(p.name@),
    ensures
        eval(m, q) matches Ok(outs) && outs.last() matches OutputModel::Vertices(vs)
            && vs.no_duplicates(),
{
    let n = q->VertexWithPropertyValue_0.name@;
    let x = q->VertexWithPropertyValue_0.value@;
    let pred = vertex_entry(n, Some(x));
    let entries = m.vertex_index.filter(pred);
    let ids = entries.map_values(entry_vertex());
    crate::invariants::lemma_filter_unique(m.vertex_index, pred, vertex_prop_key());
    assert forall|i: int, j: int| 0 <= i < ids.len() && 0 <= j < ids.len() && i != j implies ids[i] != ids[j] by {
        m.vertex_index.lemma_filter_pred(pred, i);
        m.vertex_index.lemma_filter_pred(pred, j);
        if ids[i] == ids[j] {
            assert(vertex_prop_key()(entries[i]) == vertex_prop_key()(entries[j]));
        }
    }
    lemma_specific_distinct(m.vertices, ids);
    let vs = indexed_vertices(m, n, Some(x));
    assert(seq![OutputModel::Vertices(vs)].last() == OutputModel::Vertices(vs));
}

/// An indexed value lookup lists each edge at most once.
pub proof fn law_edge_value_lookup_once(m: GraphModel, q: Query)
    requires
        m.wf(),
        q matches Query::EdgeWithPropertyValue(p) && m.indexed.contains(p.name@),
    ensures
        eval(m, q) matches Ok(outs) && outs.last() matches OutputModel::Edges(es)
            && es.no_duplicates(),
{
    let n = q->EdgeWithPropertyValue_0.name@;
    let x = q->EdgeWithPropertyValue_0.value@;
    let pred = edge_entry(n, Some(x));
    let entries = m.edge_index.filter(pred);
    let es = indexed_edges(m, n, Some(x));
    crate::invariants::lemma_filter_unique(m.edge_index, pred, edge_prop_key());
    assert forall|i: int, j: int| 0 <= i < es.len() && 0 <= j < es.len() && i != j implies es[i] != es[j] by {
        m.edge_index.lemma_filter_pred(pred, i);
        m.edge_index.lemma_filter_pred(pred, j);
        if es[i] == es[j] {
            assert(edge_prop_key()(entries[i]) == edge_prop_key()(entries[j]));
        }
    }
    assert(seq![OutputModel::Edges(es)].last() == OutputModel::Edges(es));
}

/// Two sequences sorted by the same strict order, holding the same items,
/// are equal.
proof fn lemma_sorted_same_items<A>(a: Seq<A>, b: Seq<A>, lt: spec_fn(A, A) -> bool)
    requires
        crate::invariants::sorted_by(a, lt),
        crate::invariants::sorted_by(b, lt),
        forall|x: A| a.contains(x) <==> b.contains(x),
        forall|x: A| !#[trigger] lt(x, x),
        forall|x: A, y: A| #[trigger] lt(x, y) ==> !lt(y, x),
    ensures
        a == b,
    decreases a.len(),
{
    if a.len() == 0 {
        if b.len() > 0 {
            assert(b.contains(b[0]));
        }
        assert(a =~= b);
    } else {
        assert(a.contains(a[0]));
        assert(b.len() > 0);
        assert(b.contains(b[0]));
        let j = choose|j: int| 0 <= j < b.len() && b[j] == a[0];
        let i = choose|i: int| 0 <= i < a.len() && a[i] == b[0];
        if j > 0 {
            assert(lt(b[0], b[j]));
            if i > 0 {
                assert(lt(a[0], a[i]));
            }
        }
        assert(a[0] == b[0]);
        let a1 = a.drop_first();
        let b1 = b.drop_first();
        assert forall|p: int, q: int| 0 <= p < q < a1.len() implies #[trigger] lt(a1[p], a1[q]) by {
            assert(a1[p] == a[p + 1] && a1[q] == a[q + 1]);
        }
        assert forall|p: int, q: int| 0 <= p < q < b1.len() implies #[trigger] lt(b1[p], b1[q]) by {
            assert(b1[p] == b[p + 1] && b1[q] == b[q + 1]);
        }
        assert forall|x: A| a1.contains(x) <==> b1.contains(x) by {
            if a1.contains(x) {
                let k = choose|k: int| 0 <= k < a1.len() && a1[k] == x;
                assert(a[k + 1] == x && a.contains(x));
                assert(lt(a[0], a[k + 1]));
                let w = choose|w: int| 0 <= w < b.len() && b[w] == x;
                if w == 0 {
                    assert(lt(x, x));
                }
                assert(b1[w - 1] == x);
            }
            if b1.contains(x) {
                let k = choose|k: int| 0 <= k < b1.len() && b1[k] == x;
                assert(b[k + 1] == x && b.contains(x));
                assert(lt(b[0], b[k + 1]));
                let w = choose|w: int| 0 <= w < a.len() && a[w] == x;
                if w == 0 {
                    assert(lt(x, x));
                }
                assert(a1[w - 1] == x);
            }
        }
        lemma_sorted_same_items(a1, b1, lt);
        assert(a =~= seq![a[0]] + a1);
        assert(b =~= seq![b[0]] + b1);
    }
}

/// Reading back the tables of a well-formed database, with its index
/// rebuilt from the properties and indexed names (as `from_tables` does),
/// gives that database again: `from_tables(to_tables(d))` is `Ok` and holds
/// `d@`.
pub proof fn law_tables_round_trip(m: GraphModel, tables: Tables)
    requires
        m.wf(),
        same_tables(tables@, m),
    ensures
        tables@.wf(),
        tables@ == m,
{
    let t = tables@;
    crate::invariants::lemma_index_filled(t);
    assert forall|x: VertexPropModel| !#[trigger] vertex_prop_order()(x, x) by {
        crate::identifiers::lemma_chars_lt_irreflexive(x.1);
    }
    assert forall|x: VertexPropModel, y: VertexPropModel| #[trigger] vertex_prop_order()(x, y)
        implies !vertex_prop_order()(y, x) by {
        if x.0 == y.0 && chars_lt(x.1, y.1) && chars_lt(y.1, x.1) {
            crate::identifiers::lemma_chars_lt_transitive(x.1, y.1, x.1);
            crate::identifiers::lemma_chars_lt_irreflexive(x.1);
        }
    }
    assert forall|x: EdgePropModel| !#[trigger] edge_prop_order()(x, x) by {
        crate::identifiers::lemma_chars_lt_irreflexive(x.1);
        crate::graph::lemma_edge_lt_irreflexive(x.0);
    }
    assert forall|x: EdgePropModel, y: EdgePropModel| #[trigger] edge_prop_order()(x, y)
        implies !edge_prop_order()(y, x) by {
        crate::graph::lemma_edge_lt_irreflexive(x.0);
        crate::graph::lemma_edge_lt_irreflexive(y.0);
        if crate::graph::edge_lt(x.0, y.0) && crate::graph::edge_lt(y.0, x.0) {
            crate::graph::lemma_edge_lt_transitive(x.0, y.0, x.0);
        }
        if x.0 == y.0 && chars_lt(x.1, y.1) && chars_lt(y.1, x.1) {
            crate::identifiers::lemma_chars_lt_transitive(x.1, y.1, x.1);
            crate::identifiers::lemma_chars_lt_irreflexive(x.1);
        }
    }
    assert forall|x: VertexPropModel| t.vertex_index.contains(x) <==> m.vertex_index.contains(x) by {
        assert(m.vertex_index.contains(x) <==> m.vertex_properties.contains(x) && m.indexed.contains(x.1));
        assert(t.vertex_index.contains(x) <==> t.vertex_properties.contains(x) && t.indexed.contains(x.1));
    }
    assert forall|x: EdgePropModel| t.edge_index.contains(x) <==> m.edge_index.contains(x) by {
        assert(m.edge_index.contains(x) <==> m.edge_properties.contains(x) && m.indexed.contains(x.1));
        assert(t.edge_index.contains(x) <==> t.edge_properties.contains(x) && t.indexed.contains(x.1));
    }
    lemma_sorted_same_items(t.vertex_index, m.vertex_index, vertex_prop_order());
    lemma_sorted_same_items(t.edge_index, m.edge_index, edge_prop_order());
}

/// Setting a property on a list of vertices, in turn, keeps the store well
/// formed and leaves each listed vertex with the value.
proof fn lemma_with_vertex_props(m: GraphModel, ids: Seq<u128>, name: Seq<char>, x: Seq<char>)
    requires
        m.wf(),
    ensures
        m.with_vertex_props(ids, name, x).wf(),
        m.with_vertex_props(ids, name, x).vertices == m.vertices,
        m.with_vertex_props(ids, name, x).indexed == m.indexed,
        forall|id: u128|
            ids.contains(id) && has_vertex(m.vertices, id) ==> #[trigger] m.with_vertex_props(
                ids,
                name,
                x,
            ).vertex_properties.contains((id, name, x)),
    decreases ids.len(),
{
    if ids.len() > 0 {
        let d = ids.drop_last();
        lemma_with_vertex_props(m, d, name, x);
        let m0 = m.with_vertex_props(d, name, x);
        crate::invariants::lemma_wf_with_vertex_prop(m0, ids.last(), name, x);
        if has_vertex(m0.vertices, ids.last()) {
            crate::invariants::lemma_vertex_prop_set(m0.vertex_properties, ids.last(), name, x);
        }
        assert forall|id: u128| ids.contains(id) && has_vertex(m.vertices, id) implies #[trigger] m.with_vertex_props(
            ids,
            name,
            x,
        ).vertex_properties.contains((id, name, x)) by {
            if id != ids.last() {
                let j = choose|j: int| 0 <= j < ids.len() && ids[j] == id;
                if j == ids.len() - 1 {
                    assert(ids[j] == ids.last());
                }
                assert(d[j] == id);
                assert(m0.vertex_properties.contains((id, name, x)));
            }
        }
    }
}

/// Setting a property on the vertices a query yields gives each of them that
/// value, and an index entry with it where the name is indexed.
pub proof fn law_set_properties_on_vertices(m: GraphModel, q: Query, name: Seq<char>, x: Seq<char>)
    requires
        m.wf(),
        x != null_text(),
        eval(m, q) matches Ok(outs) && outs.last() is Vertices,
    ensures
        after_set(m, q, name, x) matches Ok(m2) && m2.wf() && (forall|v: VertexModel|
            #[trigger] eval(m, q)->Ok_0.last()->Vertices_0.contains(v) && has_vertex(m.vertices, v.0)
                ==> vertex_prop(m2.vertex_properties, v.0, name) == Some(x) && (m.indexed.contains(
                name,
            ) ==> m2.vertex_index.contains((v.0, name, x)))),
{
    let vs = eval(m, q)->Ok_0.last()->Vertices_0;
    let ids = vertex_ids(vs);
    let m2 = m.with_vertex_props(ids, name, x);
    lemma_with_vertex_props(m, ids, name, x);
    assert forall|v: VertexModel| #[trigger] vs.contains(v) && has_vertex(m.vertices, v.0) implies vertex_prop(
        m2.vertex_properties,
        v.0,
        name,
    ) == Some(x) && (m.indexed.contains(name) ==> m2.vertex_index.contains((v.0, name, x))) by {
        let k = choose|k: int| 0 <= k < vs.len() && vs[k] == v;
        assert(ids[k] == v.0);
        assert(ids.contains(v.0));
        assert(m2.vertex_properties.contains((v.0, name, x)));
        lemma_vertex_prop_of_row(m2.vertex_properties, v.0, name, x);
    }
}

/// Creating a vertex twice: afterwards its id is taken, so the second
/// `create_vertex` reports `false` and changes nothing.
pub proof fn law_create_vertex_twice(m: GraphModel, v: VertexModel)
    ensures
        has_vertex(m.with_vertex(v).vertices, v.0),
        m.with_vertex(v).with_vertex(v) == m.with_vertex(v),
{
    if !has_vertex(m.vertices, v.0) {
        lemma_added_vertex(m, v);
        let vs = m.with_vertex(v).vertices;
        assert(vs[insert_position(m.vertices, v.0)] == v);
    }
}

/// After removing a list of vertices, a vertex that is left was there before
/// and its id is not on the list.
proof fn lemma_without_vertices_removes(m: GraphModel, ids: Seq<u128>)
    ensures
        forall|x: u128|
            #[trigger] has_vertex(m.without_vertices(ids).vertices, x) ==> has_vertex(m.vertices, x)
                && !ids.contains(x),
    decreases ids.len(),
{
    if ids.len() > 0 {
        let d = ids.drop_last();
        lemma_without_vertices_removes(m, d);
        let m0 = m.without_vertices(d);
        let m1 = m.without_vertices(ids);
        assert(m1 == m0.without_vertex(ids.last()));
        assert forall|x: u128| #[trigger] has_vertex(m1.vertices, x) implies has_vertex(m.vertices, x)
            && !ids.contains(x) by {
            let i = choose|i: int| 0 <= i < m1.vertices.len() && (#[trigger] m1.vertices[i]).0 == x;
            crate::invariants::lemma_filter_member(m0.vertices, crate::graph::vertex_other_than(ids.last()), i);
            let w = m1.vertices[i];
            let k = choose|k: int| 0 <= k < m0.vertices.len() && m0.vertices[k] == w;
            assert(has_vertex(m0.vertices, x));
            if ids.contains(x) {
                let j = choose|j: int| 0 <= j < ids.len() && ids[j] == x;
                if j < ids.len() - 1 {
                    assert(d[j] == x);
                } else {
                    assert(ids[ids.len() - 1] == ids.last());
                }
            }
        }
    }
}

/// Looking up ids that no vertex has finds nothing.
proof fn lemma_specific_missing(vs: Seq<VertexModel>, ids: Seq<u128>)
    requires
        forall|x: u128| ids.contains(x) ==> !has_vertex(vs, x),
    ensures
        specific_vertices(vs, ids) == Seq::<VertexModel>::empty(),
    decreases ids.len(),
{
    if ids.len() > 0 {
        let d = ids.drop_last();
        assert forall|x: u128| d.contains(x) implies !has_vertex(vs, x) by {
            let j = choose|j: int| 0 <= j < d.len() && d[j] == x;
            assert(ids[j] == x);
        }
        lemma_specific_missing(vs, d);
        assert(ids.contains(ids[ids.len() - 1]));
        lemma_find_missing(vs, ids.last());
        assert(lookup_vertex(vs)(ids.last()) is None);
    }
}

/// A vertex whose id is looked up is among the vertices found.
proof fn lemma_specific_finds(vs: Seq<VertexModel>, ids: Seq<u128>, x: u128)
    requires
        ids.contains(x),
        has_vertex(vs, x),
    ensures
        vertex_ids(specific_vertices(vs, ids)).contains(x),
    decreases ids.len(),
{
    let f = lookup_vertex(vs);
    let j = choose|j: int| 0 <= j < ids.len() && ids[j] == x;
    let d = ids.drop_last();
    assert(ids.filter_map(f) == (match f(ids.last()) {
        Some(s) => d.filter_map(f) + seq![s],
        None => d.filter_map(f),
    }));
    if j == ids.len() - 1 {
        lemma_find_existing(vs, x);
        let v = find_vertex(vs, x)->Some_0;
        assert(ids.last() == x);
        let r = d.filter_map(f) + seq![v];
        assert(vertex_ids(r)[r.len() - 1] == x);
    } else {
        assert(d[j] == x);
        lemma_specific_finds(vs, d, x);
        let r0 = d.filter_map(f);
        let k = choose|k: int| 0 <= k < vertex_ids(r0).len() && vertex_ids(r0)[k] == x;
        match f(ids.last()) {
            Some(s) => {
                assert(vertex_ids(r0 + seq![s])[k] == x);
            },
            None => {},
        }
    }
}

/// Nothing in any table belongs to or touches the vertex.
pub open spec fn cleared(m: GraphModel, x: u128) -> bool {
    &&& forall|i: int| 0 <= i < m.vertices.len() ==> (#[trigger] m.vertices[i]).0 != x
    &&& forall|i: int|
        0 <= i < m.edges.len() ==> (#[trigger] m.edges[i]).0 != x && m.edges[i].2 != x
    &&& forall|i: int|
        0 <= i < m.reversed_edges.len() ==> (#[trigger] m.reversed_edges[i]).0 != x
            && m.reversed_edges[i].2 != x
    &&& forall|i: int| 0 <= i < m.vertex_properties.len() ==> (#[trigger] m.vertex_properties[i]).0 != x
    &&& forall|i: int|
        0 <= i < m.edge_properties.len() ==> (#[trigger] m.edge_properties[i]).0.0 != x
            && m.edge_properties[i].0.2 != x
    &&& forall|i: int| 0 <= i < m.vertex_index.len() ==> (#[trigger] m.vertex_index[i]).0 != x
    &&& forall|i: int|
        0 <= i < m.edge_index.len() ==> (#[trigger] m.edge_index[i]).0.0 != x
            && m.edge_index[i].0.2 != x
}

/// Filtering by a test that every item passes changes nothing.
proof fn lemma_filter_all<A>(s: Seq<A>, p: spec_fn(A) -> bool)
    requires
        forall|i: int| 0 <= i < s.len() ==> p(#[trigger] s[i]),
    ensures
        s.filter(p) == s,
    decreases s.len(),
{
    reveal(Seq::filter);
    if s.len() > 0 {
        let d = s.drop_last();
        assert forall|i: int| 0 <= i < d.len() implies p(#[trigger] d[i]) by {
            assert(d[i] == s[i]);
        }
        lemma_filter_all(d, p);
        assert(p(s[s.len() - 1]));
        assert(d.push(s.last()) =~= s);
    }
}

/// An item of a filtered sequence is an item of the sequence.
proof fn lemma_filter_from<A>(s: Seq<A>, p: spec_fn(A) -> bool, i: int) -> (k: int)
    requires
        0 <= i < s.filter(p).len(),
    ensures
        0 <= k < s.len(),
        s[k] == s.filter(p)[i],
        p(s.filter(p)[i]),
{
    crate::invariants::lemma_filter_member(s, p, i);
    choose|k: int| 0 <= k < s.len() && s[k] == s.filter(p)[i]
}

/// Removing a vertex clears it, and keeps any vertex that was cleared so.
pub proof fn lemma_without_vertex_cleared(m: GraphModel, y: u128, x: u128)
    requires
        x == y || cleared(m, x),
    ensures
        cleared(m.without_vertex(y), x),
{
    let m2 = m.without_vertex(y);
    assert forall|i: int| 0 <= i < m2.vertices.len() implies (#[trigger] m2.vertices[i]).0 != x by {
        let k = lemma_filter_from(m.vertices, crate::graph::vertex_other_than(y), i);
    }
    assert forall|i: int| 0 <= i < m2.edges.len() implies (#[trigger] m2.edges[i]).0 != x
        && m2.edges[i].2 != x by {
        let k = lemma_filter_from(m.edges, crate::graph::edge_away_from(y), i);
    }
    assert forall|i: int| 0 <= i < m2.reversed_edges.len() implies (
    #[trigger] m2.reversed_edges[i]).0 != x && m2.reversed_edges[i].2 != x by {
        let k = lemma_filter_from(m.reversed_edges, crate::graph::edge_away_from(y), i);
    }
    assert forall|i: int| 0 <= i < m2.vertex_properties.len() implies (
    #[trigger] m2.vertex_properties[i]).0 != x by {
        let k = lemma_filter_from(m.vertex_properties, crate::graph::prop_not_of_vertex(y), i);
    }
    assert forall|i: int| 0 <= i < m2.edge_properties.len() implies (
    #[trigger] m2.edge_properties[i]).0.0 != x && m2.edge_properties[i].0.2 != x by {
        let k = lemma_filter_from(m.edge_properties, crate::graph::prop_away_from(y), i);
    }
    assert forall|i: int| 0 <= i < m2.vertex_index.len() implies (
    #[trigger] m2.vertex_index[i]).0 != x by {
        let k = lemma_filter_from(m.vertex_index, crate::graph::prop_not_of_vertex(y), i);
    }
    assert forall|i: int| 0 <= i < m2.edge_index.len() implies (#[trigger] m2.edge_index[i]).0.0
        != x && m2.edge_index[i].0.2 != x by {
        let k = lemma_filter_from(m.edge_index, crate::graph::prop_away_from(y), i);
    }
}

/// Removing a vertex that is already cleared changes nothing.
proof fn lemma_without_cleared(m: GraphModel, x: u128)
    requires
        cleared(m, x),
    ensures
        m.without_vertex(x) == m,
{
    lemma_filter_all(m.vertices, crate::graph::vertex_other_than(x));
    lemma_filter_all(m.edges, crate::graph::edge_away_from(x));
    lemma_filter_all(m.reversed_edges, crate::graph::edge_away_from(x));
    lemma_filter_all(m.vertex_properties, crate::graph::prop_not_of_vertex(x));
    lemma_filter_all(m.edge_properties, crate::graph::prop_away_from(x));
    lemma_filter_all(m.vertex_index, crate::graph::prop_not_of_vertex(x));
    lemma_filter_all(m.edge_index, crate::graph::prop_away_from(x));
}

/// After removing a list of vertices, each of them is cleared.
proof fn lemma_without_vertices_cleared(m: GraphModel, ids: Seq<u128>)
    ensures
        forall|x: u128| ids.contains(x) ==> #[trigger] cleared(m.without_vertices(ids), x),
    decreases ids.len(),
{
    if ids.len() > 0 {
        let d = ids.drop_last();
        lemma_without_vertices_cleared(m, d);
        assert forall|x: u128| ids.contains(x) implies #[trigger] cleared(m.without_vertices(ids), x) by {
            let j = choose|j: int| 0 <= j < ids.len() && ids[j] == x;
            if j < ids.len() - 1 {
                assert(d[j] == x);
            } else {
                assert(ids[ids.len() - 1] == ids.last());
            }
            lemma_without_vertex_cleared(m.without_vertices(d), ids.last(), x);
        }
    }
}

/// Removing the same list of vertices twice does what removing it once
/// does, so `delete_vertices` called twice with one list equals calling it
/// once.
pub proof fn law_without_vertices_twice(m: GraphModel, ids: Seq<u128>)
    ensures
        m.without_vertices(ids).without_vertices(ids) == m.without_vertices(ids),
{
    let m1 = m.without_vertices(ids);
    lemma_without_vertices_cleared(m, ids);
    assert forall|k: int| 0 <= k <= ids.len() implies #[trigger] m1.without_vertices(ids.take(k)) == m1 by {
        lemma_prefix_fixed(m1, ids, k);
    }
    assert(ids.take(ids.len() as int) =~= ids);
    assert(m1.without_vertices(ids.take(ids.len() as int)) == m1);
}

/// Removing a prefix of vertices that are all cleared changes nothing.
proof fn lemma_prefix_fixed(m1: GraphModel, ids: Seq<u128>, k: int)
    requires
        0 <= k <= ids.len(),
        forall|x: u128| ids.contains(x) ==> #[trigger] cleared(m1, x),
    ensures
        m1.without_vertices(ids.take(k)) == m1,
    decreases k,
{
    if k > 0 {
        lemma_prefix_fixed(m1, ids, k - 1);
        assert(ids.take(k).drop_last() =~= ids.take(k - 1));
        assert(ids.take(k).last() == ids[k - 1]);
        assert(ids.contains(ids[k - 1]));
        lemma_without_cleared(m1, ids[k - 1]);
    }
}

/// Deleting a list of vertices twice leaves the database as deleting it
/// once does.
pub proof fn law_delete_vertices_twice(m: GraphModel, q: Query)
    requires
        q is SpecificVertex,
    ensures
        after_delete(m, q) matches Ok(m1) && after_delete(m1, q) == Ok::<GraphModel, Error>(m1),
{
    let ids = q->SpecificVertex_0.ids@;
    let found = specific_vertices(m.vertices, ids);
    assert(seq![OutputModel::Vertices(found)].last() == OutputModel::Vertices(found));
    let m1 = m.without_vertices(vertex_ids(found));
    assert(after_delete(m, q) == Ok::<GraphModel, Error>(m1));
    lemma_without_vertices_removes(m, vertex_ids(found));
    assert forall|x: u128| ids.contains(x) implies !has_vertex(m1.vertices, x) by {
        if has_vertex(m1.vertices, x) {
            lemma_specific_finds(m.vertices, ids, x);
        }
    }
    lemma_specific_missing(m1.vertices, ids);
    let again = specific_vertices(m1.vertices, ids);
    assert(seq![OutputModel::Vertices(again)].last() == OutputModel::Vertices(again));
    assert(vertex_ids(Seq::<VertexModel>::empty()) =~= Seq::<u128>::empty());
    assert(m1.without_vertices(Seq::<u128>::empty()) == m1);
}

/// After removing a list of edges, an edge that is left was there before and
/// is not on the list.
proof fn lemma_without_edges_removes(m: GraphModel, es: Seq<EdgeModel>)
    ensures
        forall|x: EdgeModel|
            #[trigger] m.without_edges(es).edges.contains(x) ==> m.edges.contains(x) && !es.contains(x),
    decreases es.len(),
{
    if es.len() > 0 {
        let d = es.drop_last();
        lemma_without_edges_removes(m, d);
        let m0 = m.without_edges(d);
        let m1 = m.without_edges(es);
        assert(m1 == m0.without_edge(es.last()));
        assert forall|x: EdgeModel| #[trigger] m1.edges.contains(x) implies m.edges.contains(x)
            && !es.contains(x) by {
            crate::invariants::lemma_filter_contains_iff(m0.edges, crate::graph::edge_other_than(es.last()), x);
            if es.contains(x) {
                let j = choose|j: int| 0 <= j < es.len() && es[j] == x;
                if j < es.len() - 1 {
                    assert(d[j] == x);
                } else {
                    assert(es[es.len() - 1] == es.last());
                }
            }
        }
    }
}

/// Deleting a list of edges twice leaves the database as deleting it once
/// does.
pub proof fn law_delete_edges_twice(m: GraphModel, q: Query)
    requires
        q is SpecificEdge,
    ensures
        after_delete(m, q) matches Ok(m1) && after_delete(m1, q) == Ok::<GraphModel, Error>(m1),
{
    let es = crate::models::edges_view(q->SpecificEdge_0.edges@);
    let found = es.filter(stored_edge(m.edges));
    assert(seq![OutputModel::Edges(found)].last() == OutputModel::Edges(found));
    let m1 = m.without_edges(found);
    assert(after_delete(m, q) == Ok::<GraphModel, Error>(m1));
    lemma_without_edges_removes(m, found);
    let again = es.filter(stored_edge(m1.edges));
    assert(again =~= Seq::<EdgeModel>::empty()) by {
        if again.len() > 0 {
            crate::invariants::lemma_filter_member(es, stored_edge(m1.edges), 0);
            let x = again[0];
            assert(m1.edges.contains(x));
            crate::invariants::lemma_filter_contains_iff(es, stored_edge(m.edges), x);
        }
    }
    assert(seq![OutputModel::Edges(again)].last() == OutputModel::Edges(again));
    assert(m1.without_edges(Seq::<EdgeModel>::empty()) == m1);
}

/// The state after a sequence of mutations depends on nothing but the
/// starting state and the sequence: two databases in the same state that
/// take the same bulk insert end in the same state.
pub proof fn law_mutations_are_deterministic(a: GraphModel, b: GraphModel, items: Seq<BulkInsertItem>)
    requires
        a == b,
    ensures
        a.with_items(items) == b.with_items(items),
{
}

/// A range starting at the largest UUID is not an error: it yields only a
/// vertex with that id, and nothing when there is none.
pub proof fn law_range_from_max_id(m: GraphModel, q: Query)
    requires
        q matches Query::RangeVertex(r) && r.start_id == Some(u128::MAX),
    ensures
        eval(m, q) matches Ok(outs) && outs.last() matches OutputModel::Vertices(vs) && (forall|i: int|
            0 <= i < vs.len() ==> (#[trigger] vs[i]).0 == u128::MAX) && (!has_vertex(
            m.vertices,
            u128::MAX,
        ) ==> vs.len() == 0),
{
    let r = q->RangeVertex_0;
    let pred = in_range(r.start_id, crate::evaluator::opt_view(r.t));
    let f = m.vertices.filter(pred);
    let vs = take_at_most(f, r.limit as int);
    assert(seq![OutputModel::Vertices(vs)].last() == OutputModel::Vertices(vs));
    assert forall|i: int| 0 <= i < vs.len() implies (#[trigger] vs[i]).0 == u128::MAX by {
        assert(vs[i] == f[i]);
        m.vertices.lemma_filter_pred(pred, i);
    }
    if !has_vertex(m.vertices, u128::MAX) && f.len() > 0 {
        m.vertices.lemma_filter_pred(pred, 0);
        assert(f.contains(f[0]));
        let k = choose|k: int| 0 <= k < m.vertices.len() && m.vertices[k] == f[0];
        assert(m.vertices[k].0 == u128::MAX);
    }
}

/// Setting a property to `null` is refused with `Validation`, whatever the
/// query, and (by the contract of `set_properties`) changes nothing.
pub proof fn law_null_value_refused(m: GraphModel, q: Query, name: Seq<char>)
    ensures
        after_set(m, q, name, null_text()) == Err::<GraphModel, Error>(
            Error::Validation(ValidationError::NullValue),
        ),
{
}

/// A range query with limit 0 yields no vertices.
pub proof fn law_zero_limit_range(m: GraphModel, q: Query)
    requires
        q matches Query::RangeVertex(r) && r.limit == 0,
    ensures
        eval(m, q) == Ok::<Seq<OutputModel>, Error>(
            seq![OutputModel::Vertices(Seq::<VertexModel>::empty())],
        ),
{
    let r = q->RangeVertex_0;
    let f = m.vertices.filter(in_range(r.start_id, crate::evaluator::opt_view(r.t)));
    assert(take_at_most(f, 0) =~= Seq::<VertexModel>::empty());
}

/// A pipe with limit 0 yields nothing, whether it goes from vertices to
/// edges or from edges to vertices.
pub proof fn law_zero_limit_pipe(m: GraphModel, q: Query)
    requires
        q matches Query::Pipe(p) && p.limit == 0 && (eval(m, *p.inner) matches Ok(outs) && (
        outs.last() is Vertices || outs.last() is Edges)),
    ensures
        eval(m, q) matches Ok(outs) && (outs.last() == OutputModel::Edges(Seq::<EdgeModel>::empty())
            || outs.last() == OutputModel::Vertices(Seq::<VertexModel>::empty())),
{
    let p = q->Pipe_0;
    let outs = eval(m, *p.inner)->Ok_0;
    match outs.last() {
        OutputModel::Vertices(vs) => {
            assert(take_at_most(pipe_edges(m, vs, p.direction, crate::evaluator::opt_view(p.t)), 0)
                =~= Seq::<EdgeModel>::empty());
        },
        OutputModel::Edges(es) => {
            let s = specific_vertices(m.vertices, es.map_values(crate::evaluator::endpoint(p.direction)));
            assert(take_at_most(s.filter(crate::evaluator::of_type(crate::evaluator::opt_view(p.t))), 0)
                =~= Seq::<VertexModel>::empty());
        },
        _ => {},
    }
}

} // verus!
