use vstd::prelude::*;

use crate::errors::Error;
use crate::evaluator::{
    all_edge_props, all_vertex_props, edge_entry, edges_of, entry_edge, entry_vertex, eval,
    indexed_edges, indexed_vertices, lookup_vertex, named_edge_prop, named_vertex_prop, pipe_edges,
    specific_vertices, staged, swap_ends, vertex_entry,
};
use crate::graph::{find_vertex, has_vertex, reverse, take_at_most, GraphModel};
use crate::invariants::{lemma_edge_prop_some, lemma_filter_member, lemma_vertex_prop_some};
use crate::models::{EdgeDirection, EdgeModel, OutputModel, VertexModel};
use crate::mutations::after_delete;
use crate::queries::Query;

verus! {

broadcast use vstd::seq_lib::group_filter_ensures;

/// Everything in the output is stored: its vertices, its edges, and the
/// owners and rows of its properties.
pub open spec fn output_stored(m: GraphModel, o: OutputModel) -> bool {
    match o {
        OutputModel::Vertices(vs) => forall|i: int| 0 <= i < vs.len() ==> m.vertices.contains(#[trigger] vs[i]),
        OutputModel::Edges(es) => forall|i: int| 0 <= i < es.len() ==> m.edges.contains(#[trigger] es[i]),
        OutputModel::VertexProperties(s) => forall|i: int|
            0 <= i < s.len() ==> m.vertices.contains((#[trigger] s[i]).0) && forall|j: int|
                0 <= j < s[i].1.len() ==> m.vertex_properties.contains(
                    (s[i].0.0, (#[trigger] s[i].1[j]).0, s[i].1[j].1),
                ),
        OutputModel::EdgeProperties(s) => forall|i: int|
            0 <= i < s.len() ==> m.edges.contains((#[trigger] s[i]).0) && forall|j: int|
                0 <= j < s[i].1.len() ==> m.edge_properties.contains(
                    (s[i].0, (#[trigger] s[i].1[j]).0, s[i].1[j].1),
                ),
        OutputModel::Count(_) => true,
    }
}

/// Every output of the list is stored.
pub open spec fn outputs_stored(m: GraphModel, outs: Seq<OutputModel>) -> bool {
    forall|k: int| 0 <= k < outs.len() ==> output_stored(m, #[trigger] outs[k])
}

/// A prefix keeps only items of the sequence.
proof fn lemma_take_at_most_member<A>(s: Seq<A>, n: int, i: int)
    requires
        n >= 0,
        0 <= i < take_at_most(s, n).len(),
    ensures
        s.contains(take_at_most(s, n)[i]),
{
    assert(take_at_most(s, n)[i] == s[i]);
}

/// The vertices found by id are stored.
proof fn lemma_specific_stored(vs: Seq<VertexModel>, ids: Seq<u128>, i: int)
    requires
        0 <= i < specific_vertices(vs, ids).len(),
    ensures
        vs.contains(specific_vertices(vs, ids)[i]),
{
    let r = specific_vertices(vs, ids);
    assert(r.contains(r[i]));
    ids.lemma_filter_map_contains(lookup_vertex(vs), r[i]);
    let t = choose|t: u128| #[trigger] ids.contains(t) && lookup_vertex(vs)(t) == Some(r[i]);
    lemma_found(vs, t);
}

/// A vertex found by id is stored.
proof fn lemma_found(vs: Seq<VertexModel>, id: u128)
    requires
        find_vertex(vs, id) is Some,
    ensures
        vs.contains(find_vertex(vs, id)->Some_0),
    decreases vs.len(),
{
    if vs.last().0 == id {
        assert(vs[vs.len() - 1] == vs.last());
    } else {
        lemma_found(vs.drop_last(), id);
        let v = find_vertex(vs, id)->Some_0;
        let k = choose|k: int| 0 <= k < vs.drop_last().len() && vs.drop_last()[k] == v;
        assert(vs[k] == v);
    }
}

/// The edges a pipe collects from vertices are stored.
proof fn lemma_pipe_edges_stored(m: GraphModel, vs: Seq<VertexModel>, dir: EdgeDirection, t: Option<Seq<char>>)
    requires
        m.wf(),
    ensures
        forall|i: int| 0 <= i < pipe_edges(m, vs, dir, t).len() ==> m.edges.contains(
            #[trigger] pipe_edges(m, vs, dir, t)[i],
        ),
    decreases vs.len(),
{
    if vs.len() > 0 {
        lemma_pipe_edges_stored(m, vs.drop_last(), dir, t);
        let a = pipe_edges(m, vs.drop_last(), dir, t);
        let b = edges_of(m, vs.last().0, dir, t);
        assert forall|i: int| 0 <= i < pipe_edges(m, vs, dir, t).len() implies m.edges.contains(
            #[trigger] pipe_edges(m, vs, dir, t)[i],
        ) by {
            if i < a.len() {
                assert(pipe_edges(m, vs, dir, t)[i] == a[i]);
            } else {
                let j = i - a.len();
                assert(pipe_edges(m, vs, dir, t)[i] == b[j]);
                match dir {
                    EdgeDirection::Outbound => {
                        lemma_filter_member(m.edges, crate::evaluator::edge_from(vs.last().0, t), j);
                    },
                    EdgeDirection::Inbound => {
                        let f = m.reversed_edges.filter(crate::evaluator::edge_from(vs.last().0, t));
                        lemma_filter_member(m.reversed_edges, crate::evaluator::edge_from(vs.last().0, t), j);
                        let row = f[j];
                        assert(b[j] == swap_ends()(row));
                        assert(reverse(b[j]) == row);
                        assert(m.edges.contains(b[j]) <==> m.reversed_edges.contains(reverse(b[j])));
                    },
                }
            }
        }
    }
}

/// What each stage makes of a stored output is stored.
proof fn lemma_stage_stored(m: GraphModel, q: Query, o: OutputModel)
    requires
        m.wf(),
        output_stored(m, o),
    ensures
        (match q {
            Query::Pipe(p) => crate::evaluator::pipe_output(m, o, p.direction, crate::evaluator::opt_view(p.t), p.limit),
            Query::PipeProperty(p) => crate::evaluator::property_output(m, o, crate::evaluator::opt_view(p.name)),
            Query::PipeWithPropertyPresence(p) => crate::evaluator::presence_output(m, o, p.name@, p.exists),
            Query::PipeWithPropertyValue(p) => crate::evaluator::value_output(m, o, p.name@, p.value@, p.equal),
            _ => crate::evaluator::count_output(o),
        }) matches Ok(v) ==> output_stored(m, v),
{
    match q {
        Query::Pipe(p) => {
            let t = crate::evaluator::opt_view(p.t);
            match o {
                OutputModel::Vertices(vs) => {
                    lemma_pipe_edges_stored(m, vs, p.direction, t);
                    let s = pipe_edges(m, vs, p.direction, t);
                    assert forall|i: int| 0 <= i < take_at_most(s, p.limit as int).len() implies m.edges.contains(
                        #[trigger] take_at_most(s, p.limit as int)[i],
                    ) by {
                        assert(take_at_most(s, p.limit as int)[i] == s[i]);
                    }
                },
                OutputModel::Edges(es) => {
                    let ids = es.map_values(crate::evaluator::endpoint(p.direction));
                    let sv = specific_vertices(m.vertices, ids);
                    let f = sv.filter(crate::evaluator::of_type(t));
                    assert forall|i: int| 0 <= i < take_at_most(f, p.limit as int).len() implies m.vertices.contains(
                        #[trigger] take_at_most(f, p.limit as int)[i],
                    ) by {
                        assert(take_at_most(f, p.limit as int)[i] == f[i]);
                        lemma_filter_member(sv, crate::evaluator::of_type(t), i);
                        let k = choose|k: int| 0 <= k < sv.len() && sv[k] == f[i];
                        lemma_specific_stored(m.vertices, ids, k);
                    }
                },
                _ => {},
            }
        },
        Query::PipeProperty(p) => {
            match o {
                OutputModel::Vertices(vs) => {
                    let ps = m.vertex_properties;
                    let r = match crate::evaluator::opt_view(p.name) {
                        Some(n) => vs.filter_map(named_vertex_prop(ps, n)),
                        None => vs.filter_map(all_vertex_props(ps)),
                    };
                    let g = match crate::evaluator::opt_view(p.name) {
                        Some(n) => named_vertex_prop(ps, n),
                        None => all_vertex_props(ps),
                    };
                    assert(r == vs.filter_map(g));
                    assert forall|i: int| 0 <= i < r.len() implies m.vertices.contains((#[trigger] r[i]).0)
                        && forall|j: int| 0 <= j < r[i].1.len() ==> m.vertex_properties.contains(
                            (r[i].0.0, (#[trigger] r[i].1[j]).0, r[i].1[j].1),
                        ) by {
                        assert(r.contains(r[i]));
                        vs.lemma_filter_map_contains(g, r[i]);
                        let v = choose|v: VertexModel| #[trigger] vs.contains(v) && g(v) == Some(r[i]);
                        let k = choose|k: int| 0 <= k < vs.len() && vs[k] == v;
                        assert(m.vertices.contains(vs[k]));
                        match crate::evaluator::opt_view(p.name) {
                            Some(n) => {
                                lemma_vertex_prop_some(ps, v.0, n);
                            },
                            None => {
                                assert forall|j: int| 0 <= j < r[i].1.len() implies m.vertex_properties.contains(
                                    (r[i].0.0, (#[trigger] r[i].1[j]).0, r[i].1[j].1),
                                ) by {
                                    let pf = crate::graph::prop_of_vertex(v.0);
                                    let fl = ps.filter(pf);
                                    assert(r[i].1 == fl.map_values(crate::graph::vertex_prop_pair()));
                                    lemma_filter_member(ps, pf, j);
                                    assert(fl[j] == (r[i].0.0, r[i].1[j].0, r[i].1[j].1));
                                }
                            },
                        }
                    }
                },
                OutputModel::Edges(es) => {
                    let ps = m.edge_properties;
                    let r = match crate::evaluator::opt_view(p.name) {
                        Some(n) => es.filter_map(named_edge_prop(ps, n)),
                        None => es.filter_map(all_edge_props(ps)),
                    };
                    let g = match crate::evaluator::opt_view(p.name) {
                        Some(n) => named_edge_prop(ps, n),
                        None => all_edge_props(ps),
                    };
                    assert(r == es.filter_map(g));
                    assert forall|i: int| 0 <= i < r.len() implies m.edges.contains((#[trigger] r[i]).0)
                        && forall|j: int| 0 <= j < r[i].1.len() ==> m.edge_properties.contains(
                            (r[i].0, (#[trigger] r[i].1[j]).0, r[i].1[j].1),
                        ) by {
                        assert(r.contains(r[i]));
                        es.lemma_filter_map_contains(g, r[i]);
                        let e = choose|e: EdgeModel| #[trigger] es.contains(e) && g(e) == Some(r[i]);
                        let k = choose|k: int| 0 <= k < es.len() && es[k] == e;
                        assert(m.edges.contains(es[k]));
                        match crate::evaluator::opt_view(p.name) {
                            Some(n) => {
                                lemma_edge_prop_some(ps, e, n);
                            },
                            None => {
                                assert forall|j: int| 0 <= j < r[i].1.len() implies m.edge_properties.contains(
                                    (r[i].0, (#[trigger] r[i].1[j]).0, r[i].1[j].1),
                                ) by {
                                    let pf = crate::graph::prop_of_edge(e);
                                    let fl = ps.filter(pf);
                                    assert(r[i].1 == fl.map_values(crate::graph::edge_prop_pair()));
                                    lemma_filter_member(ps, pf, j);
                                    assert(fl[j] == (r[i].0, r[i].1[j].0, r[i].1[j].1));
                                }
                            },
                        }
                    }
                },
                _ => {},
            }
        },
        Query::PipeWithPropertyPresence(p) => {
            match o {
                OutputModel::Vertices(vs) => {
                    let pr = crate::evaluator::vertex_presence(m.vertex_index, p.name@, p.exists);
                    assert forall|i: int| 0 <= i < vs.filter(pr).len() implies m.vertices.contains(
                        #[trigger] vs.filter(pr)[i],
                    ) by {
                        lemma_filter_member(vs, pr, i);
                    }
                },
                OutputModel::Edges(es) => {
                    let pr = crate::evaluator::edge_presence(m.edge_index, p.name@, p.exists);
                    assert forall|i: int| 0 <= i < es.filter(pr).len() implies m.edges.contains(
                        #[trigger] es.filter(pr)[i],
                    ) by {
                        lemma_filter_member(es, pr, i);
                    }
                },
                _ => {},
            }
        },
        Query::PipeWithPropertyValue(p) => {
            match o {
                OutputModel::Vertices(vs) => {
                    let pr = crate::evaluator::vertex_value(m.vertex_index, p.name@, p.value@, p.equal);
                    assert forall|i: int| 0 <= i < vs.filter(pr).len() implies m.vertices.contains(
                        #[trigger] vs.filter(pr)[i],
                    ) by {
                        lemma_filter_member(vs, pr, i);
                    }
                },
                OutputModel::Edges(es) => {
                    let pr = crate::evaluator::edge_value(m.edge_index, p.name@, p.value@, p.equal);
                    assert forall|i: int| 0 <= i < es.filter(pr).len() implies m.edges.contains(
                        #[trigger] es.filter(pr)[i],
                    ) by {
                        lemma_filter_member(es, pr, i);
                    }
                },
                _ => {},
            }
        },
        _ => {},
    }
}

/// A stage that keeps stored outputs and adds a stored one leaves every
/// output stored.
proof fn lemma_staged_stored(m: GraphModel, outs: Seq<OutputModel>, inner: Query, r: Result<OutputModel, Error>)
    requires
        outs.len() >= 1,
        outputs_stored(m, outs),
        r matches Ok(v) ==> output_stored(m, v),
    ensures
        staged(outs, inner, r) matches Ok(outs2) ==> outputs_stored(m, outs2),
{
    if r is Ok {
        let v = r->Ok_0;
        let base = if crate::evaluator::is_include(inner) { outs } else { outs.drop_last() };
        assert forall|k: int| 0 <= k < base.push(v).len() implies output_stored(m, #[trigger] base.push(v)[k]) by {
            if k < base.len() {
                assert(base.push(v)[k] == base[k]);
                assert(base[k] == outs[k]);
            }
        }
    }
}

/// Every output of every query consists of stored items only.
pub proof fn lemma_eval_stored(m: GraphModel, q: Query)
    requires
        m.wf(),
    ensures
        eval(m, q) matches Ok(outs) ==> outs.len() >= 1 && outputs_stored(m, outs),
    decreases q,
{
    match q {
        Query::Pipe(p) => {
            lemma_eval_stored(m, *p.inner);
            if eval(m, *p.inner) is Ok {
                let outs = eval(m, *p.inner)->Ok_0;
                assert(outs.contains(outs.last()) && outs[outs.len() - 1] == outs.last());
                lemma_stage_stored(m, q, outs.last());
                lemma_staged_stored(m, outs, *p.inner, crate::evaluator::pipe_output(m, outs.last(), p.direction, crate::evaluator::opt_view(p.t), p.limit));
            }
        },
        Query::PipeProperty(p) => {
            lemma_eval_stored(m, *p.inner);
            if eval(m, *p.inner) is Ok {
                let outs = eval(m, *p.inner)->Ok_0;
                assert(outs[outs.len() - 1] == outs.last());
                lemma_stage_stored(m, q, outs.last());
                lemma_staged_stored(m, outs, *p.inner, crate::evaluator::property_output(m, outs.last(), crate::evaluator::opt_view(p.name)));
            }
        },
        Query::PipeWithPropertyPresence(p) => {
            lemma_eval_stored(m, *p.inner);
            if eval(m, *p.inner) is Ok {
                let outs = eval(m, *p.inner)->Ok_0;
                assert(outs[outs.len() - 1] == outs.last());
                lemma_stage_stored(m, q, outs.last());
                lemma_staged_stored(m, outs, *p.inner, crate::evaluator::presence_output(m, outs.last(), p.name@, p.exists));
            }
        },
        Query::PipeWithPropertyValue(p) => {
            lemma_eval_stored(m, *p.inner);
            if eval(m, *p.inner) is Ok {
                let outs = eval(m, *p.inner)->Ok_0;
                assert(outs[outs.len() - 1] == outs.last());
                lemma_stage_stored(m, q, outs.last());
                lemma_staged_stored(m, outs, *p.inner, crate::evaluator::value_output(m, outs.last(), p.name@, p.value@, p.equal));
            }
        },
        Query::Include(i) => {
            lemma_eval_stored(m, *i.inner);
        },
        Query::Count(c) => {
            lemma_eval_stored(m, *c.inner);
            if eval(m, *c.inner) is Ok {
                let outs = eval(m, *c.inner)->Ok_0;
                assert(outs[outs.len() - 1] == outs.last());
                lemma_stage_stored(m, q, outs.last());
                lemma_staged_stored(m, outs, *c.inner, crate::evaluator::count_output(outs.last()));
            }
        },
        _ => {
            lemma_leaf_stored(m, q);
        },
    }
}

/// The output of a query that reads the tables directly is stored.
proof fn lemma_leaf_stored(m: GraphModel, q: Query)
    requires
        m.wf(),
        crate::evaluator::is_leaf(q),
    ensures
        eval(m, q) matches Ok(outs) ==> outs.len() >= 1 && outputs_stored(m, outs),
{
    match q {
        Query::RangeVertex(r) => {
            let p = crate::evaluator::in_range(r.start_id, crate::evaluator::opt_view(r.t));
            let f = m.vertices.filter(p);
            let s = take_at_most(f, r.limit as int);
            assert forall|i: int| 0 <= i < s.len() implies m.vertices.contains(#[trigger] s[i]) by {
                assert(s[i] == f[i]);
                lemma_filter_member(m.vertices, p, i);
            }
            assert(seq![OutputModel::Vertices(s)][0] == OutputModel::Vertices(s));
        },
        Query::SpecificVertex(sq) => {
            let s = specific_vertices(m.vertices, sq.ids@);
            assert forall|i: int| 0 <= i < s.len() implies m.vertices.contains(#[trigger] s[i]) by {
                lemma_specific_stored(m.vertices, sq.ids@, i);
            }
            assert(seq![OutputModel::Vertices(s)][0] == OutputModel::Vertices(s));
        },
        Query::VertexWithPropertyPresence(p) => {
            lemma_index_vertices_stored(m, p.name@, None);
        },
        Query::VertexWithPropertyValue(p) => {
            lemma_index_vertices_stored(m, p.name@, Some(p.value@));
        },
        Query::SpecificEdge(sq) => {
            let es = crate::models::edges_view(sq.edges@);
            let s = es.filter(crate::evaluator::stored_edge(m.edges));
            assert forall|i: int| 0 <= i < s.len() implies m.edges.contains(#[trigger] s[i]) by {
                lemma_filter_member(es, crate::evaluator::stored_edge(m.edges), i);
            }
            assert(seq![OutputModel::Edges(s)][0] == OutputModel::Edges(s));
        },
        Query::EdgeWithPropertyPresence(p) => {
            lemma_index_edges_stored(m, p.name@, None);
        },
        Query::EdgeWithPropertyValue(p) => {
            lemma_index_edges_stored(m, p.name@, Some(p.value@));
        },
        Query::AllVertex => {
            assert forall|i: int| 0 <= i < m.vertices.len() implies m.vertices.contains(#[trigger] m.vertices[i]) by {}
            assert(seq![OutputModel::Vertices(m.vertices)][0] == OutputModel::Vertices(m.vertices));
        },
        Query::AllEdge => {
            assert forall|i: int| 0 <= i < m.edges.len() implies m.edges.contains(#[trigger] m.edges[i]) by {}
            assert(seq![OutputModel::Edges(m.edges)][0] == OutputModel::Edges(m.edges));
        },
        _ => {},
    }
}

/// The vertices an index lookup lists are stored.
proof fn lemma_index_vertices_stored(m: GraphModel, n: Seq<char>, x: Option<Seq<char>>)
    requires
        m.wf(),
    ensures
        output_stored(m, OutputModel::Vertices(indexed_vertices(m, n, x))),
        seq![OutputModel::Vertices(indexed_vertices(m, n, x))][0] == OutputModel::Vertices(
            indexed_vertices(m, n, x),
        ),
{
    let ids = m.vertex_index.filter(vertex_entry(n, x)).map_values(entry_vertex());
    let s = indexed_vertices(m, n, x);
    assert forall|i: int| 0 <= i < s.len() implies m.vertices.contains(#[trigger] s[i]) by {
        lemma_specific_stored(m.vertices, ids, i);
    }
}

/// The edges an index lookup lists are stored.
proof fn lemma_index_edges_stored(m: GraphModel, n: Seq<char>, x: Option<Seq<char>>)
    requires
        m.wf(),
    ensures
        output_stored(m, OutputModel::Edges(indexed_edges(m, n, x))),
        seq![OutputModel::Edges(indexed_edges(m, n, x))][0] == OutputModel::Edges(
            indexed_edges(m, n, x),
        ),
{
    let f = m.edge_index.filter(edge_entry(n, x));
    let s = indexed_edges(m, n, x);
    assert forall|i: int| 0 <= i < s.len() implies m.edges.contains(#[trigger] s[i]) by {
        lemma_filter_member(m.edge_index, edge_entry(n, x), i);
        let row = f[i];
        assert(s[i] == row.0);
        assert(m.edge_properties.contains(row));
        let k = choose|k: int| 0 <= k < m.edge_properties.len() && m.edge_properties[k] == row;
        assert(m.edges.contains(m.edge_properties[k].0));
    }
}

/// The output lists the vertex, an edge with an end at it, or properties of
/// either.
pub open spec fn mentions(o: OutputModel, id: u128) -> bool {
    match o {
        OutputModel::Vertices(vs) => exists|i: int| 0 <= i < vs.len() && (#[trigger] vs[i]).0 == id,
        OutputModel::Edges(es) => exists|i: int|
            0 <= i < es.len() && ((#[trigger] es[i]).0 == id || es[i].2 == id),
        OutputModel::VertexProperties(s) => exists|i: int| 0 <= i < s.len() && (#[trigger] s[i]).0.0 == id,
        OutputModel::EdgeProperties(s) => exists|i: int|
            0 <= i < s.len() && ((#[trigger] s[i]).0.0 == id || s[i].0.2 == id),
        OutputModel::Count(_) => false,
    }
}

/// After `delete(SpecificVertex([v]))`, no query ever shows `v`, an edge
/// that touched it, or a property of either.
pub proof fn law_deleted_vertex_is_never_seen(m: GraphModel, id: u128, del: Query, q: Query)
    requires
        m.wf(),
        has_vertex(m.vertices, id),
        del matches Query::SpecificVertex(s) && s.ids@ == seq![id],
    ensures
        after_delete(m, del) matches Ok(m2) && m2.wf() && (eval(m2, q) matches Ok(outs) ==> forall|k: int|
            0 <= k < outs.len() ==> !mentions(#[trigger] outs[k], id)),
{
    crate::laws::lemma_find_existing(m.vertices, id);
    let v = find_vertex(m.vertices, id)->Some_0;
    crate::laws::lemma_specific_one(m.vertices, id);
    assert(crate::mutations::vertex_ids(seq![v]) =~= seq![id]);
    assert(seq![id].drop_last() =~= Seq::<u128>::empty());
    assert(m.without_vertices(Seq::<u128>::empty()) == m);
    let m2 = m.without_vertex(id);
    assert(after_delete(m, del) == Ok::<GraphModel, Error>(m2));
    crate::invariants::lemma_wf_without_vertex(m, id);
    crate::laws::lemma_without_vertex_cleared(m, id, id);
    lemma_eval_stored(m2, q);
    if eval(m2, q) is Ok {
        let outs = eval(m2, q)->Ok_0;
        assert forall|k: int| 0 <= k < outs.len() implies !mentions(#[trigger] outs[k], id) by {
            assert(output_stored(m2, outs[k]));
            match outs[k] {
                OutputModel::Vertices(vs) => {
                    if mentions(outs[k], id) {
                        let i = choose|i: int| 0 <= i < vs.len() && (#[trigger] vs[i]).0 == id;
                        let j = choose|j: int| 0 <= j < m2.vertices.len() && m2.vertices[j] == vs[i];
                        assert(m2.vertices[j].0 != id);
                    }
                },
                OutputModel::Edges(es) => {
                    if mentions(outs[k], id) {
                        let i = choose|i: int| 0 <= i < es.len() && ((#[trigger] es[i]).0 == id || es[i].2 == id);
                        let j = choose|j: int| 0 <= j < m2.edges.len() && m2.edges[j] == es[i];
                        assert(m2.edges[j].0 != id && m2.edges[j].2 != id);
                    }
                },
                OutputModel::VertexProperties(s) => {
                    if mentions(outs[k], id) {
                        let i = choose|i: int| 0 <= i < s.len() && (#[trigger] s[i]).0.0 == id;
                        let j = choose|j: int| 0 <= j < m2.vertices.len() && m2.vertices[j] == s[i].0;
                        assert(m2.vertices[j].0 != id);
                    }
                },
                OutputModel::EdgeProperties(s) => {
                    if mentions(outs[k], id) {
                        let i = choose|i: int| 0 <= i < s.len() && ((#[trigger] s[i]).0.0 == id || s[i].0.2 == id);
                        let j = choose|j: int| 0 <= j < m2.edges.len() && m2.edges[j] == s[i].0;
                        assert(m2.edges[j].0 != id && m2.edges[j].2 != id);
                    }
                },
                OutputModel::Count(_) => {},
            }
        }
    }
}

} // verus!
