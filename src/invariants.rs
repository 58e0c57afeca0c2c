use vstd::prelude::*;

use crate::graph::{
    edge_prop_set, vertex_prop_set, vertex_prop_named_in, edge_prop_named_in, edge_prop_below, edge_prop_lt, edge_prop_position, vertex_prop_below, vertex_prop_lt,
    vertex_prop_position, reverse, edge_below, edge_lt, edge_position, lemma_edge_lt_total, lemma_edge_lt_transitive, edge_away_from, edge_other_than, edge_prop, edge_prop_other_than, edge_prop_update, has_vertex,
    id_below, insert_position, prop_away_from, prop_not_of_edge, prop_not_of_vertex, vertex_other_than,
    vertex_prop, vertex_prop_other_than, vertex_prop_update, EdgePropModel, GraphModel,
    VertexPropModel,
};
use crate::identifiers::{chars_lt, lemma_chars_lt_total, lemma_chars_lt_transitive};
use crate::models::{EdgeModel, VertexModel};

verus! {

broadcast use vstd::seq_lib::group_filter_ensures;

/// No two items of the sequence have the same key.
pub open spec fn unique_by<A, K>(s: Seq<A>, key: spec_fn(A) -> K) -> bool {
    forall|i: int, j: int|
        #![trigger key(s[i]), key(s[j])]
        0 <= i < s.len() && 0 <= j < s.len() && key(s[i]) == key(s[j]) ==> i == j
}

/// The ids of the vertices ascend strictly.
pub open spec fn ascending(vs: Seq<VertexModel>) -> bool {
    forall|i: int, j: int| 0 <= i < j < vs.len() ==> (#[trigger] vs[i]).0 < (#[trigger] vs[j]).0
}

/// The edges are in strictly ascending key order.
pub open spec fn edges_ascending(es: Seq<EdgeModel>) -> bool {
    forall|i: int, j: int| 0 <= i < j < es.len() ==> edge_lt(#[trigger] es[i], #[trigger] es[j])
}

/// A vertex property is keyed by owner and name.
pub open spec fn vertex_prop_key() -> spec_fn(VertexPropModel) -> (u128, Seq<char>) {
    |p: VertexPropModel| (p.0, p.1)
}

/// An edge property is keyed by owner and name.
pub open spec fn edge_prop_key() -> spec_fn(EdgePropModel) -> (EdgeModel, Seq<char>) {
    |p: EdgePropModel| (p.0, p.1)
}

/// A name is its own key.
pub open spec fn name_key() -> spec_fn(Seq<char>) -> Seq<char> {
    |n: Seq<char>| n
}

impl GraphModel {
    /// The invariants of the store: vertex ids ascend (so none repeats),
    /// edges ascend in key order (so none repeats), the reversed table holds
    /// exactly the edges with their ends swapped, also in key order, the
    /// properties are in key order, the index holds exactly the properties
    /// whose name is indexed (in key order), every edge's endpoints exist, every property's owner
    /// exists, no property is set twice, and no name is indexed twice.
    pub open spec fn wf(self) -> bool {
        &&& ascending(self.vertices)
        &&& edges_ascending(self.edges)
        &&& edges_ascending(self.reversed_edges)
        &&& forall|x: EdgeModel|
            #![trigger self.edges.contains(x)]
            #![trigger self.reversed_edges.contains(reverse(x))]
            self.edges.contains(x) <==> self.reversed_edges.contains(reverse(x))
        &&& forall|i: int|
            0 <= i < self.edges.len() ==> has_vertex(self.vertices, (#[trigger] self.edges[i]).0)
                && has_vertex(self.vertices, self.edges[i].2)
        &&& forall|i: int|
            0 <= i < self.vertex_properties.len() ==> has_vertex(
                self.vertices,
                (#[trigger] self.vertex_properties[i]).0,
            )
        &&& forall|i: int|
            0 <= i < self.edge_properties.len() ==> self.edges.contains(
                (#[trigger] self.edge_properties[i]).0,
            )
        &&& unique_by(self.vertex_properties, vertex_prop_key())
        &&& unique_by(self.edge_properties, edge_prop_key())
        &&& sorted_by(self.vertex_properties, vertex_prop_order())
        &&& sorted_by(self.edge_properties, edge_prop_order())
        &&& unique_by(self.vertex_index, vertex_prop_key())
        &&& unique_by(self.edge_index, edge_prop_key())
        &&& sorted_by(self.vertex_index, vertex_prop_order())
        &&& sorted_by(self.edge_index, edge_prop_order())
        &&& forall|p: VertexPropModel|
            #![trigger self.vertex_index.contains(p)]
            #![trigger self.vertex_properties.contains(p)]
            self.vertex_index.contains(p) <==> self.vertex_properties.contains(p)
                && self.indexed.contains(p.1)
        &&& forall|p: EdgePropModel|
            #![trigger self.edge_index.contains(p)]
            #![trigger self.edge_properties.contains(p)]
            self.edge_index.contains(p) <==> self.edge_properties.contains(p)
                && self.indexed.contains(p.1)
        &&& unique_by(self.indexed, name_key())
    }
}

/// Filtering keeps keys unique.
pub proof fn lemma_filter_unique<A, K>(s: Seq<A>, p: spec_fn(A) -> bool, key: spec_fn(A) -> K)
    requires
        unique_by(s, key),
    ensures
        unique_by(s.filter(p), key),
    decreases s.len(),
{
    reveal(Seq::filter);
    if s.len() > 0 {
        let d = s.drop_last();
        assert forall|i: int, j: int|
            0 <= i < d.len() && 0 <= j < d.len() && key(d[i]) == key(d[j]) implies i == j by {
            assert(d[i] == s[i] && d[j] == s[j]);
        }
        lemma_filter_unique(d, p, key);
        let f = d.filter(p);
        if p(s.last()) {
            let g = f.push(s.last());
            assert(s.filter(p) == g);
            assert forall|i: int, j: int|
                0 <= i < g.len() && 0 <= j < g.len() && key(g[i]) == key(g[j]) implies i == j by {
                if i < f.len() && j < f.len() {
                    assert(g[i] == f[i] && g[j] == f[j]);
                } else if i < f.len() || j < f.len() {
                    let k = if i < f.len() {
                        i
                    } else {
                        j
                    };
                    assert(g[k] == f[k]);
                    assert(f.contains(f[k]));
                    d.lemma_filter_contains_rev(p, f[k]);
                    let w = choose|w: int| 0 <= w < d.len() && d[w] == f[k];
                    assert(s[w] == d[w]);
                    assert(s[s.len() - 1] == s.last());
                    assert(key(s[w]) == key(s[s.len() - 1]));
                }
            }
        }
    }
}

/// Filtering keeps ids ascending.
pub proof fn lemma_filter_ascending(vs: Seq<VertexModel>, p: spec_fn(VertexModel) -> bool)
    requires
        ascending(vs),
    ensures
        ascending(vs.filter(p)),
    decreases vs.len(),
{
    reveal(Seq::filter);
    if vs.len() > 0 {
        let d = vs.drop_last();
        assert forall|i: int, j: int| 0 <= i < j < d.len() implies (#[trigger] d[i]).0 < (
        #[trigger] d[j]).0 by {
            assert(d[i] == vs[i] && d[j] == vs[j]);
        }
        lemma_filter_ascending(d, p);
        let f = d.filter(p);
        if p(vs.last()) {
            let g = f.push(vs.last());
            assert forall|i: int, j: int| 0 <= i < j < g.len() implies (#[trigger] g[i]).0 < (
            #[trigger] g[j]).0 by {
                assert(g[i] == f[i]);
                if j < f.len() {
                    assert(g[j] == f[j]);
                } else {
                    assert(f.contains(f[i]));
                    d.lemma_filter_contains_rev(p, f[i]);
                    let w = choose|w: int| 0 <= w < d.len() && d[w] == f[i];
                    assert(vs[w] == d[w]);
                    assert(vs[vs.len() - 1] == vs.last());
                }
            }
        }
    }
}

/// Filtering keeps edges in key order.
pub proof fn lemma_filter_edges_ascending(es: Seq<EdgeModel>, p: spec_fn(EdgeModel) -> bool)
    requires
        edges_ascending(es),
    ensures
        edges_ascending(es.filter(p)),
    decreases es.len(),
{
    reveal(Seq::filter);
    if es.len() > 0 {
        let d = es.drop_last();
        assert forall|i: int, j: int| 0 <= i < j < d.len() implies edge_lt(
            #[trigger] d[i],
            #[trigger] d[j],
        ) by {
            assert(d[i] == es[i] && d[j] == es[j]);
        }
        lemma_filter_edges_ascending(d, p);
        let f = d.filter(p);
        if p(es.last()) {
            let g = f.push(es.last());
            assert forall|i: int, j: int| 0 <= i < j < g.len() implies edge_lt(
                #[trigger] g[i],
                #[trigger] g[j],
            ) by {
                assert(g[i] == f[i]);
                if j < f.len() {
                    assert(g[j] == f[j]);
                } else {
                    assert(f.contains(f[i]));
                    d.lemma_filter_contains_rev(p, f[i]);
                    let w = choose|w: int| 0 <= w < d.len() && d[w] == f[i];
                    assert(es[w] == d[w]);
                    assert(es[es.len() - 1] == es.last());
                }
            }
        }
    }
}

/// In key order, the edges before the edge's position are exactly those
/// that precede it.
pub proof fn lemma_edge_position(es: Seq<EdgeModel>, e: EdgeModel)
    requires
        edges_ascending(es),
    ensures
        0 <= edge_position(es, e) <= es.len(),
        forall|j: int| 0 <= j < es.len() ==> (j < edge_position(es, e) <==> edge_lt(#[trigger] es[j], e)),
    decreases es.len(),
{
    reveal(Seq::filter);
    es.lemma_filter_len(edge_below(e));
    if es.len() > 0 {
        let d = es.drop_last();
        assert forall|i: int, j: int| 0 <= i < j < d.len() implies edge_lt(
            #[trigger] d[i],
            #[trigger] d[j],
        ) by {
            assert(d[i] == es[i] && d[j] == es[j]);
        }
        lemma_edge_position(d, e);
        assert(es[es.len() - 1] == es.last());
        if edge_lt(es.last(), e) && edge_position(d, e) < d.len() {
            let j = edge_position(d, e);
            assert(es[j] == d[j]);
            assert(edge_lt(es[j], es[es.len() - 1]));
            lemma_edge_lt_transitive(es[j], es.last(), e);
            assert(edge_lt(d[j], e));
        }
        assert forall|j: int| 0 <= j < es.len() implies (j < edge_position(es, e) <==> edge_lt(
            #[trigger] es[j],
            e,
        )) by {
            if j < es.len() - 1 {
                assert(es[j] == d[j]);
                if edge_lt(es.last(), e) {
                    assert(edge_lt(es[j], es[es.len() - 1]));
                    lemma_edge_lt_transitive(es[j], es.last(), e);
                }
            }
        }
    }
}

/// An item is in a filtered sequence exactly when it is in the sequence and
/// passes the filter.
pub proof fn lemma_filter_contains_iff<A>(s: Seq<A>, p: spec_fn(A) -> bool, x: A)
    ensures
        s.filter(p).contains(x) <==> s.contains(x) && p(x),
{
    if s.filter(p).contains(x) {
        s.lemma_filter_contains_rev(p, x);
        let i = choose|i: int| 0 <= i < s.filter(p).len() && s.filter(p)[i] == x;
        s.lemma_filter_pred(p, i);
    }
    if s.contains(x) && p(x) {
        let i = choose|i: int| 0 <= i < s.len() && s[i] == x;
        s.lemma_filter_contains(p, i);
    }
}

/// Inserting a new edge at its position keeps key order, and adds just it.
pub proof fn lemma_insert_edge(es: Seq<EdgeModel>, e: EdgeModel)
    requires
        edges_ascending(es),
        !es.contains(e),
    ensures
        edges_ascending(es.insert(edge_position(es, e), e)),
        forall|x: EdgeModel| #[trigger]
            es.insert(edge_position(es, e), e).contains(x) <==> es.contains(x) || x == e,
{
    let k = edge_position(es, e);
    lemma_edge_position(es, e);
    let ws = es.insert(k, e);
    assert forall|i: int, j: int| 0 <= i < j < ws.len() implies edge_lt(
        #[trigger] ws[i],
        #[trigger] ws[j],
    ) by {
        if i < k {
            assert(ws[i] == es[i]);
        } else if i > k {
            assert(ws[i] == es[i - 1]);
        }
        if j < k {
            assert(ws[j] == es[j]);
        } else if j > k {
            assert(ws[j] == es[j - 1]);
            if i == k {
                assert(es[j - 1] != e);
                lemma_edge_lt_total(e, es[j - 1]);
            }
        }
    }
    assert forall|x: EdgeModel| #[trigger] ws.contains(x) <==> es.contains(x) || x == e by {
        if es.contains(x) {
            let i = choose|i: int| 0 <= i < es.len() && es[i] == x;
            if i < k {
                assert(ws[i] == x);
            } else {
                assert(ws[i + 1] == x);
            }
        }
        if x == e {
            assert(ws[k] == e);
        }
        if ws.contains(x) {
            let i = choose|i: int| 0 <= i < ws.len() && ws[i] == x;
            if i < k {
                assert(ws[i] == es[i]);
            } else if i > k {
                assert(ws[i] == es[i - 1]);
            }
        }
    }
}

/// Each item precedes every later one.
pub open spec fn sorted_by<A>(s: Seq<A>, lt: spec_fn(A, A) -> bool) -> bool {
    forall|i: int, j: int| 0 <= i < j < s.len() ==> #[trigger] lt(s[i], s[j])
}

/// Vertex property key order, as a relation.
pub open spec fn vertex_prop_order() -> spec_fn(VertexPropModel, VertexPropModel) -> bool {
    |a: VertexPropModel, b: VertexPropModel| vertex_prop_lt(a, b)
}

/// Edge property key order, as a relation.
pub open spec fn edge_prop_order() -> spec_fn(EdgePropModel, EdgePropModel) -> bool {
    |a: EdgePropModel, b: EdgePropModel| edge_prop_lt(a, b)
}

/// Filtering keeps a sequence sorted.
pub proof fn lemma_filter_sorted<A>(s: Seq<A>, p: spec_fn(A) -> bool, lt: spec_fn(A, A) -> bool)
    requires
        sorted_by(s, lt),
    ensures
        sorted_by(s.filter(p), lt),
    decreases s.len(),
{
    reveal(Seq::filter);
    if s.len() > 0 {
        let d = s.drop_last();
        assert forall|i: int, j: int| 0 <= i < j < d.len() implies #[trigger] lt(d[i], d[j]) by {
            assert(d[i] == s[i] && d[j] == s[j]);
        }
        lemma_filter_sorted(d, p, lt);
        let f = d.filter(p);
        if p(s.last()) {
            let g = f.push(s.last());
            assert forall|i: int, j: int| 0 <= i < j < g.len() implies #[trigger] lt(g[i], g[j]) by {
                assert(g[i] == f[i]);
                if j < f.len() {
                    assert(g[j] == f[j]);
                } else {
                    assert(f.contains(f[i]));
                    d.lemma_filter_contains_rev(p, f[i]);
                    let w = choose|w: int| 0 <= w < d.len() && d[w] == f[i];
                    assert(s[w] == d[w]);
                    assert(s[s.len() - 1] == s.last());
                }
            }
        }
    }
}

/// In a sorted sequence, the items that lie below a point closed downwards
/// come first.
pub proof fn lemma_sorted_position<A>(s: Seq<A>, below: spec_fn(A) -> bool, lt: spec_fn(A, A) -> bool)
    requires
        sorted_by(s, lt),
        forall|a: A, b: A| #[trigger] lt(a, b) && below(b) ==> below(a),
    ensures
        0 <= s.filter(below).len() <= s.len(),
        forall|j: int| 0 <= j < s.len() ==> (j < s.filter(below).len() <==> below(#[trigger] s[j])),
    decreases s.len(),
{
    reveal(Seq::filter);
    s.lemma_filter_len(below);
    if s.len() > 0 {
        let d = s.drop_last();
        assert forall|i: int, j: int| 0 <= i < j < d.len() implies #[trigger] lt(d[i], d[j]) by {
            assert(d[i] == s[i] && d[j] == s[j]);
        }
        lemma_sorted_position(d, below, lt);
        assert(s[s.len() - 1] == s.last());
        if below(s.last()) && d.filter(below).len() < d.len() {
            let j = d.filter(below).len() as int;
            assert(s[j] == d[j]);
            assert(lt(s[j], s[s.len() - 1]));
        }
        assert forall|j: int| 0 <= j < s.len() implies (j < s.filter(below).len() <==> below(
            #[trigger] s[j],
        )) by {
            if j < s.len() - 1 {
                assert(s[j] == d[j]);
                if below(s.last()) {
                    assert(lt(s[j], s[s.len() - 1]));
                }
            }
        }
    }
}

/// Inserting an item where the items below it end keeps a sequence sorted,
/// when everything below precedes the item and the item precedes the rest.
pub proof fn lemma_insert_sorted<A>(s: Seq<A>, x: A, below: spec_fn(A) -> bool, lt: spec_fn(A, A) -> bool)
    requires
        sorted_by(s, lt),
        forall|a: A, b: A| #[trigger] lt(a, b) && below(b) ==> below(a),
        forall|j: int| 0 <= j < s.len() && below(#[trigger] s[j]) ==> lt(s[j], x),
        forall|j: int| 0 <= j < s.len() && !below(#[trigger] s[j]) ==> lt(x, s[j]),
    ensures
        sorted_by(s.insert(s.filter(below).len() as int, x), lt),
{
    let k = s.filter(below).len() as int;
    lemma_sorted_position(s, below, lt);
    let ws = s.insert(k, x);
    assert forall|i: int, j: int| 0 <= i < j < ws.len() implies #[trigger] lt(ws[i], ws[j]) by {
        if i < k {
            assert(ws[i] == s[i]);
        } else if i > k {
            assert(ws[i] == s[i - 1]);
        }
        if j < k {
            assert(ws[j] == s[j]);
        } else if j > k {
            assert(ws[j] == s[j - 1]);
        }
        if i == k {
            assert(!below(s[j - 1]));
        } else if j == k {
            assert(below(s[i]));
        }
    }
}

/// A vertex that passes the filter is still there after filtering.
pub proof fn lemma_has_vertex_filter(vs: Seq<VertexModel>, p: spec_fn(VertexModel) -> bool, id: u128)
    requires
        has_vertex(vs, id),
        forall|v: VertexModel| v.0 == id ==> #[trigger] p(v),
    ensures
        has_vertex(vs.filter(p), id),
{
    let i = choose|i: int| 0 <= i < vs.len() && (#[trigger] vs[i]).0 == id;
    vs.lemma_filter_contains(p, i);
    let f = vs.filter(p);
    let k = choose|k: int| 0 <= k < f.len() && f[k] == vs[i];
    assert(f[k].0 == id);
}

/// An item of a filtered sequence was in the sequence and passes the filter.
pub proof fn lemma_filter_member<A>(s: Seq<A>, p: spec_fn(A) -> bool, i: int)
    requires
        0 <= i < s.filter(p).len(),
    ensures
        s.contains(s.filter(p)[i]),
        p(s.filter(p)[i]),
{
    let f = s.filter(p);
    assert(f.contains(f[i]));
    s.lemma_filter_contains_rev(p, f[i]);
}

/// An unset property has no row.
pub proof fn lemma_vertex_prop_none(ps: Seq<VertexPropModel>, id: u128, name: Seq<char>)
    requires
        vertex_prop(ps, id, name) is None,
    ensures
        forall|i: int| 0 <= i < ps.len() ==> !((#[trigger] ps[i]).0 == id && ps[i].1 == name),
    decreases ps.len(),
{
    if ps.len() > 0 {
        lemma_vertex_prop_none(ps.drop_last(), id, name);
        assert forall|i: int| 0 <= i < ps.len() implies !((#[trigger] ps[i]).0 == id && ps[i].1
            == name) by {
            if i < ps.len() - 1 {
                assert(ps[i] == ps.drop_last()[i]);
            }
        }
    }
}

/// An unset property has no row.
pub proof fn lemma_edge_prop_none(ps: Seq<EdgePropModel>, e: EdgeModel, name: Seq<char>)
    requires
        edge_prop(ps, e, name) is None,
    ensures
        forall|i: int| 0 <= i < ps.len() ==> !((#[trigger] ps[i]).0 == e && ps[i].1 == name),
    decreases ps.len(),
{
    if ps.len() > 0 {
        lemma_edge_prop_none(ps.drop_last(), e, name);
        assert forall|i: int| 0 <= i < ps.len() implies !((#[trigger] ps[i]).0 == e && ps[i].1
            == name) by {
            if i < ps.len() - 1 {
                assert(ps[i] == ps.drop_last()[i]);
            }
        }
    }
}

/// In ascending ids, the vertices before the insert position are exactly
/// those with a smaller id.
pub proof fn lemma_insert_position(vs: Seq<VertexModel>, id: u128)
    requires
        ascending(vs),
    ensures
        0 <= insert_position(vs, id) <= vs.len(),
        forall|j: int| 0 <= j < vs.len() ==> (j < insert_position(vs, id) <==> (#[trigger] vs[j]).0 < id),
    decreases vs.len(),
{
    reveal(Seq::filter);
    vs.lemma_filter_len(id_below(id));
    if vs.len() > 0 {
        let d = vs.drop_last();
        assert forall|i: int, j: int| 0 <= i < j < d.len() implies (#[trigger] d[i]).0 < (
        #[trigger] d[j]).0 by {
            assert(d[i] == vs[i] && d[j] == vs[j]);
        }
        lemma_insert_position(d, id);
        assert(vs[vs.len() - 1] == vs.last());
        assert forall|j: int| 0 <= j < vs.len() implies (j < insert_position(vs, id) <==> (
        #[trigger] vs[j]).0 < id) by {
            if j < vs.len() - 1 {
                assert(vs[j] == d[j]);
                if vs.last().0 < id {
                    assert(vs[j].0 < vs[vs.len() - 1].0);
                }
            }
        }
    }
}

/// Adding a vertex keeps the store well formed.
pub proof fn lemma_wf_with_vertex(m: GraphModel, v: VertexModel)
    requires
        m.wf(),
    ensures
        m.with_vertex(v).wf(),
{
    if !has_vertex(m.vertices, v.0) {
        let k = insert_position(m.vertices, v.0);
        lemma_insert_position(m.vertices, v.0);
        let vs = m.vertices;
        let ws = vs.insert(k, v);
        assert forall|i: int, j: int| 0 <= i < j < ws.len() implies (#[trigger] ws[i]).0 < (
        #[trigger] ws[j]).0 by {
            if i < k {
                assert(ws[i] == vs[i]);
            } else if i > k {
                assert(ws[i] == vs[i - 1]);
            }
            if j < k {
                assert(ws[j] == vs[j]);
            } else if j > k {
                assert(ws[j] == vs[j - 1]);
                if i != k {
                } else {
                    assert(vs[j - 1].0 != v.0);
                }
            }
        }
        assert forall|id: u128| has_vertex(vs, id) implies has_vertex(ws, id) by {
            let i = choose|i: int| 0 <= i < vs.len() && (#[trigger] vs[i]).0 == id;
            if i < k {
                assert(ws[i] == vs[i]);
            } else {
                assert(ws[i + 1] == vs[i]);
            }
        }
    }
}

/// Adding an edge keeps the store well formed.
pub proof fn lemma_wf_with_edge(m: GraphModel, e: EdgeModel)
    requires
        m.wf(),
    ensures
        m.with_edge(e).wf(),
{
    let m2 = m.with_edge(e);
    if has_vertex(m.vertices, e.0) && has_vertex(m.vertices, e.2) && !m.edges.contains(e) {
        assert(!m.reversed_edges.contains(reverse(e)));
        lemma_insert_edge(m.edges, e);
        lemma_insert_edge(m.reversed_edges, reverse(e));
        let es = m.edges;
        let ws = m2.edges;
        assert forall|x: EdgeModel| #![trigger m2.edges.contains(x)] #![trigger m2.reversed_edges.contains(reverse(x))]
            m2.edges.contains(x) <==> m2.reversed_edges.contains(reverse(x)) by {
            assert(m.edges.contains(x) <==> m.reversed_edges.contains(reverse(x)));
            assert(reverse(x) == reverse(e) ==> x == e);
        }
        assert forall|i: int| 0 <= i < ws.len() implies has_vertex(m2.vertices, (
        #[trigger] ws[i]).0) && has_vertex(m2.vertices, ws[i].2) by {
            assert(ws.contains(ws[i]));
            if ws[i] != e {
                let k = choose|k: int| 0 <= k < es.len() && es[k] == ws[i];
                assert(has_vertex(m.vertices, es[k].0));
            }
        }
    }
}

/// A set property has its row in the table.
pub proof fn lemma_vertex_prop_some(ps: Seq<VertexPropModel>, id: u128, name: Seq<char>)
    requires
        vertex_prop(ps, id, name) is Some,
    ensures
        ps.contains((id, name, vertex_prop(ps, id, name)->Some_0)),
    decreases ps.len(),
{
    if ps.last().0 == id && ps.last().1 == name {
        assert(ps[ps.len() - 1] == ps.last());
    } else {
        lemma_vertex_prop_some(ps.drop_last(), id, name);
        let x = vertex_prop(ps, id, name)->Some_0;
        let i = choose|i: int| 0 <= i < ps.drop_last().len() && ps.drop_last()[i] == (id, name, x);
        assert(ps[i] == ps.drop_last()[i]);
    }
}

/// A set property has its row in the table.
pub proof fn lemma_edge_prop_some(ps: Seq<EdgePropModel>, e: EdgeModel, name: Seq<char>)
    requires
        edge_prop(ps, e, name) is Some,
    ensures
        ps.contains((e, name, edge_prop(ps, e, name)->Some_0)),
    decreases ps.len(),
{
    if ps.last().0 == e && ps.last().1 == name {
        assert(ps[ps.len() - 1] == ps.last());
    } else {
        lemma_edge_prop_some(ps.drop_last(), e, name);
        let x = edge_prop(ps, e, name)->Some_0;
        let i = choose|i: int| 0 <= i < ps.drop_last().len() && ps.drop_last()[i] == (e, name, x);
        assert(ps[i] == ps.drop_last()[i]);
    }
}

/// Setting a vertex property in a key-ordered table without repeated keys
/// keeps it so, and leaves exactly the new row in place of any row with
/// that key.
pub proof fn lemma_vertex_prop_set(ps: Seq<VertexPropModel>, id: u128, name: Seq<char>, value: Seq<char>)
    requires
        unique_by(ps, vertex_prop_key()),
        sorted_by(ps, vertex_prop_order()),
    ensures
        unique_by(vertex_prop_set(ps, id, name, value), vertex_prop_key()),
        sorted_by(vertex_prop_set(ps, id, name, value), vertex_prop_order()),
        forall|p: VertexPropModel| #[trigger]
            vertex_prop_set(ps, id, name, value).contains(p) <==> p == (id, name, value) || (
            ps.contains(p) && !(p.0 == id && p.1 == name)),
{
    let qs = vertex_prop_set(ps, id, name, value);
    let x = (id, name, value);
    if vertex_prop(ps, id, name) is Some {
        let f = vertex_prop_update(id, name, value);
        assert forall|i: int| 0 <= i < qs.len() implies vertex_prop_key()(#[trigger] qs[i])
            == vertex_prop_key()(ps[i]) && qs[i].0 == ps[i].0 && qs[i].1 == ps[i].1 by {
            assert(qs[i] == f(ps[i]));
        }
        assert forall|i: int, j: int|
            0 <= i < qs.len() && 0 <= j < qs.len() && vertex_prop_key()(qs[i])
                == vertex_prop_key()(qs[j]) implies i == j by {
            assert(vertex_prop_key()(qs[i]) == vertex_prop_key()(ps[i]));
            assert(vertex_prop_key()(qs[j]) == vertex_prop_key()(ps[j]));
        }
        assert forall|i: int, j: int| 0 <= i < j < qs.len() implies #[trigger] vertex_prop_order()(
            qs[i],
            qs[j],
        ) by {
            assert(vertex_prop_key()(qs[i]) == vertex_prop_key()(ps[i]));
            assert(vertex_prop_key()(qs[j]) == vertex_prop_key()(ps[j]));
            assert(vertex_prop_order()(ps[i], ps[j]));
        }
        lemma_vertex_prop_some(ps, id, name);
        let old_x = vertex_prop(ps, id, name)->Some_0;
        let k = choose|k: int| 0 <= k < ps.len() && ps[k] == (id, name, old_x);
        assert forall|p: VertexPropModel| #[trigger] qs.contains(p) <==> p == x || (ps.contains(p)
            && !(p.0 == id && p.1 == name)) by {
            if qs.contains(p) {
                let i = choose|i: int| 0 <= i < qs.len() && qs[i] == p;
                assert(qs[i] == f(ps[i]));
            }
            if p == x {
                assert(qs[k] == f(ps[k]));
            }
            if ps.contains(p) && !(p.0 == id && p.1 == name) {
                let i = choose|i: int| 0 <= i < ps.len() && ps[i] == p;
                assert(qs[i] == f(ps[i]));
            }
        }
    } else {
        lemma_vertex_prop_none(ps, id, name);
        let below = vertex_prop_below(id, name);
        let lt = vertex_prop_order();
        let k = vertex_prop_position(ps, id, name);
        assert forall|a: VertexPropModel, b: VertexPropModel| #[trigger] lt(a, b) && below(b)
            implies below(a) by {
            if a.0 == b.0 && b.0 == id && chars_lt(a.1, b.1) && chars_lt(b.1, name) {
                lemma_chars_lt_transitive(a.1, b.1, name);
            }
        }
        assert forall|j: int| 0 <= j < ps.len() && !below(#[trigger] ps[j]) implies lt(x, ps[j]) by {
            if ps[j].0 == id {
                assert(ps[j].1 != name);
                lemma_chars_lt_total(name, ps[j].1);
            }
        }
        lemma_sorted_position(ps, below, lt);
        lemma_insert_sorted(ps, x, below, lt);
        assert forall|i: int, j: int|
            0 <= i < qs.len() && 0 <= j < qs.len() && vertex_prop_key()(qs[i])
                == vertex_prop_key()(qs[j]) implies i == j by {
            if i != k && j != k {
                let a = if i < k { i } else { i - 1 };
                let b = if j < k { j } else { j - 1 };
                assert(qs[i] == ps[a] && qs[j] == ps[b]);
            } else if i != k {
                let a = if i < k { i } else { i - 1 };
                assert(qs[i] == ps[a]);
            } else if j != k {
                let b = if j < k { j } else { j - 1 };
                assert(qs[j] == ps[b]);
            }
        }
        assert forall|p: VertexPropModel| #[trigger] qs.contains(p) <==> p == x || (ps.contains(p)
            && !(p.0 == id && p.1 == name)) by {
            if qs.contains(p) {
                let i = choose|i: int| 0 <= i < qs.len() && qs[i] == p;
                if i != k {
                    let a = if i < k { i } else { i - 1 };
                    assert(qs[i] == ps[a]);
                }
            }
            if p == x {
                assert(qs[k] == x);
            }
            if ps.contains(p) {
                let i = choose|i: int| 0 <= i < ps.len() && ps[i] == p;
                if i < k {
                    assert(qs[i] == p);
                } else {
                    assert(qs[i + 1] == p);
                }
            }
        }
    }
}

/// Setting an edge property in a key-ordered table without repeated keys
/// keeps it so, and leaves exactly the new row in place of any row with
/// that key.
pub proof fn lemma_edge_prop_set(ps: Seq<EdgePropModel>, e: EdgeModel, name: Seq<char>, value: Seq<char>)
    requires
        unique_by(ps, edge_prop_key()),
        sorted_by(ps, edge_prop_order()),
    ensures
        unique_by(edge_prop_set(ps, e, name, value), edge_prop_key()),
        sorted_by(edge_prop_set(ps, e, name, value), edge_prop_order()),
        forall|p: EdgePropModel| #[trigger]
            edge_prop_set(ps, e, name, value).contains(p) <==> p == (e, name, value) || (
            ps.contains(p) && !(p.0 == e && p.1 == name)),
{
    let qs = edge_prop_set(ps, e, name, value);
    let x = (e, name, value);
    if edge_prop(ps, e, name) is Some {
        let f = edge_prop_update(e, name, value);
        assert forall|i: int| 0 <= i < qs.len() implies edge_prop_key()(#[trigger] qs[i])
            == edge_prop_key()(ps[i]) && qs[i].0 == ps[i].0 && qs[i].1 == ps[i].1 by {
            assert(qs[i] == f(ps[i]));
        }
        assert forall|i: int, j: int|
            0 <= i < qs.len() && 0 <= j < qs.len() && edge_prop_key()(qs[i])
                == edge_prop_key()(qs[j]) implies i == j by {
            assert(edge_prop_key()(qs[i]) == edge_prop_key()(ps[i]));
            assert(edge_prop_key()(qs[j]) == edge_prop_key()(ps[j]));
        }
        assert forall|i: int, j: int| 0 <= i < j < qs.len() implies #[trigger] edge_prop_order()(
            qs[i],
            qs[j],
        ) by {
            assert(edge_prop_key()(qs[i]) == edge_prop_key()(ps[i]));
            assert(edge_prop_key()(qs[j]) == edge_prop_key()(ps[j]));
            assert(edge_prop_order()(ps[i], ps[j]));
        }
        lemma_edge_prop_some(ps, e, name);
        let old_x = edge_prop(ps, e, name)->Some_0;
        let k = choose|k: int| 0 <= k < ps.len() && ps[k] == (e, name, old_x);
        assert forall|p: EdgePropModel| #[trigger] qs.contains(p) <==> p == x || (ps.contains(p)
            && !(p.0 == e && p.1 == name)) by {
            if qs.contains(p) {
                let i = choose|i: int| 0 <= i < qs.len() && qs[i] == p;
                assert(qs[i] == f(ps[i]));
            }
            if p == x {
                assert(qs[k] == f(ps[k]));
            }
            if ps.contains(p) && !(p.0 == e && p.1 == name) {
                let i = choose|i: int| 0 <= i < ps.len() && ps[i] == p;
                assert(qs[i] == f(ps[i]));
            }
        }
    } else {
        lemma_edge_prop_none(ps, e, name);
        let below = edge_prop_below(e, name);
        let lt = edge_prop_order();
        let k = edge_prop_position(ps, e, name);
        assert forall|a: EdgePropModel, b: EdgePropModel| #[trigger] lt(a, b) && below(b)
            implies below(a) by {
            if edge_lt(a.0, b.0) && edge_lt(b.0, e) {
                lemma_edge_lt_transitive(a.0, b.0, e);
            }
            if a.0 == b.0 && b.0 == e && chars_lt(a.1, b.1) && chars_lt(b.1, name) {
                lemma_chars_lt_transitive(a.1, b.1, name);
            }
        }
        assert forall|j: int| 0 <= j < ps.len() && !below(#[trigger] ps[j]) implies lt(x, ps[j]) by {
            if ps[j].0 == e {
                assert(ps[j].1 != name);
                lemma_chars_lt_total(name, ps[j].1);
            } else {
                lemma_edge_lt_total(e, ps[j].0);
            }
        }
        lemma_sorted_position(ps, below, lt);
        lemma_insert_sorted(ps, x, below, lt);
        assert forall|i: int, j: int|
            0 <= i < qs.len() && 0 <= j < qs.len() && edge_prop_key()(qs[i])
                == edge_prop_key()(qs[j]) implies i == j by {
            if i != k && j != k {
                let a = if i < k { i } else { i - 1 };
                let b = if j < k { j } else { j - 1 };
                assert(qs[i] == ps[a] && qs[j] == ps[b]);
            } else if i != k {
                let a = if i < k { i } else { i - 1 };
                assert(qs[i] == ps[a]);
            } else if j != k {
                let b = if j < k { j } else { j - 1 };
                assert(qs[j] == ps[b]);
            }
        }
        assert forall|p: EdgePropModel| #[trigger] qs.contains(p) <==> p == x || (ps.contains(p)
            && !(p.0 == e && p.1 == name)) by {
            if qs.contains(p) {
                let i = choose|i: int| 0 <= i < qs.len() && qs[i] == p;
                if i != k {
                    let a = if i < k { i } else { i - 1 };
                    assert(qs[i] == ps[a]);
                }
            }
            if p == x {
                assert(qs[k] == x);
            }
            if ps.contains(p) {
                let i = choose|i: int| 0 <= i < ps.len() && ps[i] == p;
                if i < k {
                    assert(qs[i] == p);
                } else {
                    assert(qs[i + 1] == p);
                }
            }
        }
    }
}

/// An index filled from the properties by the indexed names agrees with
/// them.
pub proof fn lemma_index_filled(m: GraphModel)
    requires
        m.vertex_index == m.vertex_properties.filter(vertex_prop_named_in(m.indexed)),
        m.edge_index == m.edge_properties.filter(edge_prop_named_in(m.indexed)),
        unique_by(m.vertex_properties, vertex_prop_key()),
        unique_by(m.edge_properties, edge_prop_key()),
        sorted_by(m.vertex_properties, vertex_prop_order()),
        sorted_by(m.edge_properties, edge_prop_order()),
    ensures
        unique_by(m.vertex_index, vertex_prop_key()),
        unique_by(m.edge_index, edge_prop_key()),
        sorted_by(m.vertex_index, vertex_prop_order()),
        sorted_by(m.edge_index, edge_prop_order()),
        forall|p: VertexPropModel|
            #![trigger m.vertex_index.contains(p)]
            #![trigger m.vertex_properties.contains(p)]
            m.vertex_index.contains(p) <==> m.vertex_properties.contains(p) && m.indexed.contains(p.1),
        forall|p: EdgePropModel|
            #![trigger m.edge_index.contains(p)]
            #![trigger m.edge_properties.contains(p)]
            m.edge_index.contains(p) <==> m.edge_properties.contains(p) && m.indexed.contains(p.1),
{
    lemma_filter_unique(m.vertex_properties, vertex_prop_named_in(m.indexed), vertex_prop_key());
    lemma_filter_unique(m.edge_properties, edge_prop_named_in(m.indexed), edge_prop_key());
    lemma_filter_sorted(m.vertex_properties, vertex_prop_named_in(m.indexed), vertex_prop_order());
    lemma_filter_sorted(m.edge_properties, edge_prop_named_in(m.indexed), edge_prop_order());
    assert forall|p: VertexPropModel|
        #![trigger m.vertex_index.contains(p)]
        #![trigger m.vertex_properties.contains(p)]
        m.vertex_index.contains(p) <==> m.vertex_properties.contains(p) && m.indexed.contains(p.1) by {
        lemma_filter_contains_iff(m.vertex_properties, vertex_prop_named_in(m.indexed), p);
    }
    assert forall|p: EdgePropModel|
        #![trigger m.edge_index.contains(p)]
        #![trigger m.edge_properties.contains(p)]
        m.edge_index.contains(p) <==> m.edge_properties.contains(p) && m.indexed.contains(p.1) by {
        lemma_filter_contains_iff(m.edge_properties, edge_prop_named_in(m.indexed), p);
    }
}

/// Setting a vertex property keeps the store well formed.
pub proof fn lemma_wf_with_vertex_prop(m: GraphModel, id: u128, name: Seq<char>, value: Seq<char>)
    requires
        m.wf(),
    ensures
        m.with_vertex_prop(id, name, value).wf(),
{
    let m2 = m.with_vertex_prop(id, name, value);
    if has_vertex(m.vertices, id) {
        lemma_vertex_prop_set(m.vertex_properties, id, name, value);
        if m.indexed.contains(name) {
            lemma_vertex_prop_set(m.vertex_index, id, name, value);
        }
        let qs = m2.vertex_properties;
        assert forall|i: int| 0 <= i < qs.len() implies has_vertex(m2.vertices, (#[trigger] qs[i]).0) by {
            assert(qs.contains(qs[i]));
            if qs[i] != (id, name, value) {
                let k = choose|k: int| 0 <= k < m.vertex_properties.len() && m.vertex_properties[k] == qs[i];
                assert(has_vertex(m.vertices, m.vertex_properties[k].0));
            }
        }
        assert forall|p: VertexPropModel| #![trigger m2.vertex_index.contains(p)] #![trigger m2.vertex_properties.contains(p)]
            m2.vertex_index.contains(p) <==> m2.vertex_properties.contains(p) && m2.indexed.contains(p.1) by {
            assert(m.vertex_index.contains(p) <==> m.vertex_properties.contains(p) && m.indexed.contains(p.1));
        }
    }
}

/// Setting an edge property keeps the store well formed.
pub proof fn lemma_wf_with_edge_prop(m: GraphModel, e: EdgeModel, name: Seq<char>, value: Seq<char>)
    requires
        m.wf(),
    ensures
        m.with_edge_prop(e, name, value).wf(),
{
    let m2 = m.with_edge_prop(e, name, value);
    if m.edges.contains(e) {
        lemma_edge_prop_set(m.edge_properties, e, name, value);
        if m.indexed.contains(name) {
            lemma_edge_prop_set(m.edge_index, e, name, value);
        }
        let qs = m2.edge_properties;
        assert forall|i: int| 0 <= i < qs.len() implies m2.edges.contains((#[trigger] qs[i]).0) by {
            assert(qs.contains(qs[i]));
            if qs[i] != (e, name, value) {
                let k = choose|k: int| 0 <= k < m.edge_properties.len() && m.edge_properties[k] == qs[i];
                assert(m.edges.contains(m.edge_properties[k].0));
            }
        }
        assert forall|p: EdgePropModel| #![trigger m2.edge_index.contains(p)] #![trigger m2.edge_properties.contains(p)]
            m2.edge_index.contains(p) <==> m2.edge_properties.contains(p) && m2.indexed.contains(p.1) by {
            assert(m.edge_index.contains(p) <==> m.edge_properties.contains(p) && m.indexed.contains(p.1));
        }
    }
}

/// Filtering the properties and their index alike keeps them in agreement.
pub proof fn lemma_vertex_index_filter(
    idx: Seq<VertexPropModel>,
    ps: Seq<VertexPropModel>,
    names: Seq<Seq<char>>,
    p: spec_fn(VertexPropModel) -> bool,
)
    requires
        unique_by(idx, vertex_prop_key()),
        sorted_by(idx, vertex_prop_order()),
        forall|x: VertexPropModel|
            #![trigger idx.contains(x)]
            #![trigger ps.contains(x)]
            idx.contains(x) <==> ps.contains(x) && names.contains(x.1),
    ensures
        unique_by(idx.filter(p), vertex_prop_key()),
        sorted_by(idx.filter(p), vertex_prop_order()),
        forall|x: VertexPropModel|
            #![trigger idx.filter(p).contains(x)]
            #![trigger ps.filter(p).contains(x)]
            idx.filter(p).contains(x) <==> ps.filter(p).contains(x) && names.contains(x.1),
{
    lemma_filter_unique(idx, p, vertex_prop_key());
    lemma_filter_sorted(idx, p, vertex_prop_order());
    assert forall|x: VertexPropModel|
        #![trigger idx.filter(p).contains(x)]
        #![trigger ps.filter(p).contains(x)]
        idx.filter(p).contains(x) <==> ps.filter(p).contains(x) && names.contains(x.1) by {
        lemma_filter_contains_iff(idx, p, x);
        lemma_filter_contains_iff(ps, p, x);
        assert(idx.contains(x) <==> ps.contains(x) && names.contains(x.1));
    }
}

/// Filtering the properties and their index alike keeps them in agreement.
pub proof fn lemma_edge_index_filter(
    idx: Seq<EdgePropModel>,
    ps: Seq<EdgePropModel>,
    names: Seq<Seq<char>>,
    p: spec_fn(EdgePropModel) -> bool,
)
    requires
        unique_by(idx, edge_prop_key()),
        sorted_by(idx, edge_prop_order()),
        forall|x: EdgePropModel|
            #![trigger idx.contains(x)]
            #![trigger ps.contains(x)]
            idx.contains(x) <==> ps.contains(x) && names.contains(x.1),
    ensures
        unique_by(idx.filter(p), edge_prop_key()),
        sorted_by(idx.filter(p), edge_prop_order()),
        forall|x: EdgePropModel|
            #![trigger idx.filter(p).contains(x)]
            #![trigger ps.filter(p).contains(x)]
            idx.filter(p).contains(x) <==> ps.filter(p).contains(x) && names.contains(x.1),
{
    lemma_filter_unique(idx, p, edge_prop_key());
    lemma_filter_sorted(idx, p, edge_prop_order());
    assert forall|x: EdgePropModel|
        #![trigger idx.filter(p).contains(x)]
        #![trigger ps.filter(p).contains(x)]
        idx.filter(p).contains(x) <==> ps.filter(p).contains(x) && names.contains(x.1) by {
        lemma_filter_contains_iff(idx, p, x);
        lemma_filter_contains_iff(ps, p, x);
        assert(idx.contains(x) <==> ps.contains(x) && names.contains(x.1));
    }
}

/// Removing a vertex keeps the store well formed.
pub proof fn lemma_wf_without_vertex(m: GraphModel, id: u128)
    requires
        m.wf(),
    ensures
        m.without_vertex(id).wf(),
{
    let m2 = m.without_vertex(id);
    lemma_filter_ascending(m.vertices, vertex_other_than(id));
    lemma_filter_edges_ascending(m.edges, edge_away_from(id));
    lemma_filter_edges_ascending(m.reversed_edges, edge_away_from(id));
    assert forall|x: EdgeModel| #![trigger m2.edges.contains(x)] #![trigger m2.reversed_edges.contains(reverse(x))]
        m2.edges.contains(x) <==> m2.reversed_edges.contains(reverse(x)) by {
        lemma_filter_contains_iff(m.edges, edge_away_from(id), x);
        lemma_filter_contains_iff(m.reversed_edges, edge_away_from(id), reverse(x));
        assert(m.edges.contains(x) <==> m.reversed_edges.contains(reverse(x)));
    }
    lemma_vertex_index_filter(m.vertex_index, m.vertex_properties, m.indexed, prop_not_of_vertex(id));
    lemma_edge_index_filter(m.edge_index, m.edge_properties, m.indexed, prop_away_from(id));
    lemma_filter_unique(m.vertex_properties, prop_not_of_vertex(id), vertex_prop_key());
    lemma_filter_sorted(m.vertex_properties, prop_not_of_vertex(id), vertex_prop_order());
    lemma_filter_unique(m.edge_properties, prop_away_from(id), edge_prop_key());
    lemma_filter_sorted(m.edge_properties, prop_away_from(id), edge_prop_order());
    assert forall|x: u128| x != id && has_vertex(m.vertices, x) implies has_vertex(m2.vertices, x) by {
        lemma_has_vertex_filter(m.vertices, vertex_other_than(id), x);
    }
    assert forall|i: int| 0 <= i < m2.edges.len() implies has_vertex(m2.vertices, (
    #[trigger] m2.edges[i]).0) && has_vertex(m2.vertices, m2.edges[i].2) by {
        lemma_filter_member(m.edges, edge_away_from(id), i);
        let k = choose|k: int| 0 <= k < m.edges.len() && m.edges[k] == m2.edges[i];
        assert(has_vertex(m.vertices, m.edges[k].0));
        assert(has_vertex(m.vertices, m.edges[k].2));
    }
    assert forall|i: int| 0 <= i < m2.vertex_properties.len() implies has_vertex(
        m2.vertices,
        (#[trigger] m2.vertex_properties[i]).0,
    ) by {
        lemma_filter_member(m.vertex_properties, prop_not_of_vertex(id), i);
        let k = choose|k: int|
            0 <= k < m.vertex_properties.len() && m.vertex_properties[k] == m2.vertex_properties[i];
        assert(has_vertex(m.vertices, m.vertex_properties[k].0));
    }
    assert forall|i: int| 0 <= i < m2.edge_properties.len() implies m2.edges.contains(
        (#[trigger] m2.edge_properties[i]).0,
    ) by {
        lemma_filter_member(m.edge_properties, prop_away_from(id), i);
        let k = choose|k: int|
            0 <= k < m.edge_properties.len() && m.edge_properties[k] == m2.edge_properties[i];
        assert(m.edges.contains(m.edge_properties[k].0));
        let w = choose|w: int| 0 <= w < m.edges.len() && m.edges[w] == m.edge_properties[k].0;
        m.edges.lemma_filter_contains(edge_away_from(id), w);
    }
}

/// Removing an edge keeps the store well formed.
pub proof fn lemma_wf_without_edge(m: GraphModel, e: EdgeModel)
    requires
        m.wf(),
    ensures
        m.without_edge(e).wf(),
{
    let m2 = m.without_edge(e);
    lemma_filter_edges_ascending(m.edges, edge_other_than(e));
    lemma_filter_edges_ascending(m.reversed_edges, edge_other_than(reverse(e)));
    assert forall|x: EdgeModel| #![trigger m2.edges.contains(x)] #![trigger m2.reversed_edges.contains(reverse(x))]
        m2.edges.contains(x) <==> m2.reversed_edges.contains(reverse(x)) by {
        lemma_filter_contains_iff(m.edges, edge_other_than(e), x);
        lemma_filter_contains_iff(m.reversed_edges, edge_other_than(reverse(e)), reverse(x));
        assert(m.edges.contains(x) <==> m.reversed_edges.contains(reverse(x)));
        assert(reverse(x) == reverse(e) ==> x == e);
    }
    lemma_edge_index_filter(m.edge_index, m.edge_properties, m.indexed, prop_not_of_edge(e));
    lemma_filter_unique(m.edge_properties, prop_not_of_edge(e), edge_prop_key());
    lemma_filter_sorted(m.edge_properties, prop_not_of_edge(e), edge_prop_order());
    assert forall|i: int| 0 <= i < m2.edges.len() implies has_vertex(m2.vertices, (
    #[trigger] m2.edges[i]).0) && has_vertex(m2.vertices, m2.edges[i].2) by {
        lemma_filter_member(m.edges, edge_other_than(e), i);
        let k = choose|k: int| 0 <= k < m.edges.len() && m.edges[k] == m2.edges[i];
        assert(has_vertex(m.vertices, m.edges[k].0));
    }
    assert forall|i: int| 0 <= i < m2.edge_properties.len() implies m2.edges.contains(
        (#[trigger] m2.edge_properties[i]).0,
    ) by {
        lemma_filter_member(m.edge_properties, prop_not_of_edge(e), i);
        let k = choose|k: int|
            0 <= k < m.edge_properties.len() && m.edge_properties[k] == m2.edge_properties[i];
        assert(m.edges.contains(m.edge_properties[k].0));
        let w = choose|w: int| 0 <= w < m.edges.len() && m.edges[w] == m.edge_properties[k].0;
        m.edges.lemma_filter_contains(edge_other_than(e), w);
    }
}

/// Removing a vertex property keeps the store well formed.
pub proof fn lemma_wf_without_vertex_prop(m: GraphModel, id: u128, name: Seq<char>)
    requires
        m.wf(),
    ensures
        m.without_vertex_prop(id, name).wf(),
{
    let m2 = m.without_vertex_prop(id, name);
    lemma_vertex_index_filter(m.vertex_index, m.vertex_properties, m.indexed, vertex_prop_other_than(id, name));
    lemma_filter_unique(m.vertex_properties, vertex_prop_other_than(id, name), vertex_prop_key());
    lemma_filter_sorted(m.vertex_properties, vertex_prop_other_than(id, name), vertex_prop_order());
    assert forall|i: int| 0 <= i < m2.vertex_properties.len() implies has_vertex(
        m2.vertices,
        (#[trigger] m2.vertex_properties[i]).0,
    ) by {
        lemma_filter_member(m.vertex_properties, vertex_prop_other_than(id, name), i);
        let k = choose|k: int|
            0 <= k < m.vertex_properties.len() && m.vertex_properties[k] == m2.vertex_properties[i];
        assert(has_vertex(m.vertices, m.vertex_properties[k].0));
    }
}

/// Removing an edge property keeps the store well formed.
pub proof fn lemma_wf_without_edge_prop(m: GraphModel, e: EdgeModel, name: Seq<char>)
    requires
        m.wf(),
    ensures
        m.without_edge_prop(e, name).wf(),
{
    let m2 = m.without_edge_prop(e, name);
    lemma_edge_index_filter(m.edge_index, m.edge_properties, m.indexed, edge_prop_other_than(e, name));
    lemma_filter_unique(m.edge_properties, edge_prop_other_than(e, name), edge_prop_key());
    lemma_filter_sorted(m.edge_properties, edge_prop_other_than(e, name), edge_prop_order());
    assert forall|i: int| 0 <= i < m2.edge_properties.len() implies m2.edges.contains(
        (#[trigger] m2.edge_properties[i]).0,
    ) by {
        lemma_filter_member(m.edge_properties, edge_prop_other_than(e, name), i);
        let k = choose|k: int|
            0 <= k < m.edge_properties.len() && m.edge_properties[k] == m2.edge_properties[i];
        assert(m.edges.contains(m.edge_properties[k].0));
    }
}

/// Indexing a name keeps the store well formed.
pub proof fn lemma_wf_with_index(m: GraphModel, name: Seq<char>)
    requires
        m.wf(),
    ensures
        m.with_index(name).wf(),
{
    let m2 = m.with_index(name);
    if !m.indexed.contains(name) {
        lemma_index_filled(m2);
        let ns = m2.indexed;
        assert forall|i: int, j: int|
            0 <= i < ns.len() && 0 <= j < ns.len() && name_key()(ns[i]) == name_key()(
                ns[j],
            ) implies i == j by {
            if i < m.indexed.len() {
                assert(ns[i] == m.indexed[i]);
            }
            if j < m.indexed.len() {
                assert(ns[j] == m.indexed[j]);
            }
        }
    }
}

} // verus!
