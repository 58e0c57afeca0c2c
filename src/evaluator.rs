use vstd::prelude::*;

use crate::errors::Error;
use crate::graph::{
    reverse, edge_prop, edge_props_of, find_vertex, take_at_most, vertex_prop, vertex_props_of, EdgePropModel,
    GraphModel, VertexPropModel,
};
use crate::identifiers::Identifier;
use crate::json::Json;
use crate::memory::MemoryDatastore;
use crate::models::{
    edges_view, outputs_view, EdgeDirection, EdgeModel, OutputModel, PropModel, QueryOutputValue,
    VertexModel,
};
use crate::queries::Query;

verus! {

/// The view of an optional identifier.
pub open spec fn opt_view(t: Option<Identifier>) -> Option<Seq<char>> {
    match t {
        Some(x) => Some(x@),
        None => None,
    }
}

/// A type passes a filter that is either absent or names that type.
pub open spec fn type_matches(t: Seq<char>, want: Option<Seq<char>>) -> bool {
    match want {
        Some(w) => t == w,
        None => true,
    }
}

/// Vertices from the starting id on, of the wanted type.
pub open spec fn in_range(start: Option<u128>, t: Option<Seq<char>>) -> spec_fn(VertexModel) -> bool {
    |v: VertexModel|
        (match start {
            Some(s) => v.0 >= s,
            None => true,
        }) && type_matches(v.1, t)
}

/// Vertices of the wanted type.
pub open spec fn of_type(t: Option<Seq<char>>) -> spec_fn(VertexModel) -> bool {
    |v: VertexModel| type_matches(v.1, t)
}

/// Looks an id up among the vertices.
pub open spec fn lookup_vertex(vs: Seq<VertexModel>) -> spec_fn(u128) -> Option<VertexModel> {
    |id: u128| find_vertex(vs, id)
}

/// The vertices with the ids, in the order of the ids, skipping missing ones.
pub open spec fn specific_vertices(vs: Seq<VertexModel>, ids: Seq<u128>) -> Seq<VertexModel> {
    ids.filter_map(lookup_vertex(vs))
}

/// The view of an optional value.
pub open spec fn opt_json_view(v: Option<Json>) -> Option<Seq<char>> {
    match v {
        Some(x) => Some(x@),
        None => None,
    }
}

/// Index entries of the name (with the value, where one is given).
pub open spec fn vertex_entry(name: Seq<char>, value: Option<Seq<char>>) -> spec_fn(VertexPropModel) -> bool {
    |p: VertexPropModel|
        p.1 == name && match value {
            Some(x) => p.2 == x,
            None => true,
        }
}

/// Index entries of the name (with the value, where one is given).
pub open spec fn edge_entry(name: Seq<char>, value: Option<Seq<char>>) -> spec_fn(EdgePropModel) -> bool {
    |p: EdgePropModel|
        p.1 == name && match value {
            Some(x) => p.2 == x,
            None => true,
        }
}

/// The vertex an index entry belongs to.
pub open spec fn entry_vertex() -> spec_fn(VertexPropModel) -> u128 {
    |p: VertexPropModel| p.0
}

/// The edge an index entry belongs to.
pub open spec fn entry_edge() -> spec_fn(EdgePropModel) -> EdgeModel {
    |p: EdgePropModel| p.0
}

/// The vertices that the index lists under the name (and value), in index
/// order.
pub open spec fn indexed_vertices(m: GraphModel, name: Seq<char>, value: Option<Seq<char>>) -> Seq<
    VertexModel,
> {
    specific_vertices(
        m.vertices,
        m.vertex_index.filter(vertex_entry(name, value)).map_values(entry_vertex()),
    )
}

/// The edges that the index lists under the name (and value), in index
/// order.
pub open spec fn indexed_edges(m: GraphModel, name: Seq<char>, value: Option<Seq<char>>) -> Seq<
    EdgeModel,
> {
    m.edge_index.filter(edge_entry(name, value)).map_values(entry_edge())
}

/// Edges that are stored.
pub open spec fn stored_edge(es: Seq<EdgeModel>) -> spec_fn(EdgeModel) -> bool {
    |e: EdgeModel| es.contains(e)
}

/// Vertices that have (or, with `exists` false, lack) the property.
pub open spec fn vertex_presence(ps: Seq<VertexPropModel>, name: Seq<char>, exists: bool) -> spec_fn(
    VertexModel,
) -> bool {
    |v: VertexModel| (vertex_prop(ps, v.0, name) is Some) == exists
}

/// Vertices whose property equals (or, with `equal` false, does not equal)
/// the value.
pub open spec fn vertex_value(
    ps: Seq<VertexPropModel>,
    name: Seq<char>,
    value: Seq<char>,
    equal: bool,
) -> spec_fn(VertexModel) -> bool {
    |v: VertexModel| (vertex_prop(ps, v.0, name) == Some(value)) == equal
}

/// Edges that have (or lack) the property.
pub open spec fn edge_presence(ps: Seq<EdgePropModel>, name: Seq<char>, exists: bool) -> spec_fn(
    EdgeModel,
) -> bool {
    |e: EdgeModel| (edge_prop(ps, e, name) is Some) == exists
}

/// Edges whose property equals (or does not equal) the value.
pub open spec fn edge_value(
    ps: Seq<EdgePropModel>,
    name: Seq<char>,
    value: Seq<char>,
    equal: bool,
) -> spec_fn(EdgeModel) -> bool {
    |e: EdgeModel| (edge_prop(ps, e, name) == Some(value)) == equal
}

/// Edges that leave the vertex, of the wanted type.
pub open spec fn edge_from(id: u128, t: Option<Seq<char>>) -> spec_fn(EdgeModel) -> bool {
    |e: EdgeModel| e.0 == id && type_matches(e.1, t)
}

/// Swaps the ends of an edge.
pub open spec fn swap_ends() -> spec_fn(EdgeModel) -> EdgeModel {
    |e: EdgeModel| reverse(e)
}

/// The edges of the vertex in the direction, of the wanted type: outbound
/// edges in key order; inbound edges in the key order of the reversed table,
/// that is by type and then outbound id.
pub open spec fn edges_of(m: GraphModel, id: u128, dir: EdgeDirection, t: Option<Seq<char>>) -> Seq<
    EdgeModel,
> {
    match dir {
        EdgeDirection::Outbound => m.edges.filter(edge_from(id, t)),
        EdgeDirection::Inbound => m.reversed_edges.filter(edge_from(id, t)).map_values(swap_ends()),
    }
}

/// For each vertex in turn, its edges in the direction.
pub open spec fn pipe_edges(
    m: GraphModel,
    vs: Seq<VertexModel>,
    dir: EdgeDirection,
    t: Option<Seq<char>>,
) -> Seq<EdgeModel>
    decreases vs.len(),
{
    if vs.len() == 0 {
        Seq::empty()
    } else {
        pipe_edges(m, vs.drop_last(), dir, t) + edges_of(m, vs.last().0, dir, t)
    }
}

/// The id at the end of an edge that the direction names.
pub open spec fn endpoint(dir: EdgeDirection) -> spec_fn(EdgeModel) -> u128 {
    |e: EdgeModel|
        match dir {
            EdgeDirection::Outbound => e.0,
            EdgeDirection::Inbound => e.2,
        }
}

/// A vertex with its property of that name, where it is set.
pub open spec fn named_vertex_prop(ps: Seq<VertexPropModel>, name: Seq<char>) -> spec_fn(
    VertexModel,
) -> Option<(VertexModel, Seq<PropModel>)> {
    |v: VertexModel|
        match vertex_prop(ps, v.0, name) {
            Some(x) => Some((v, seq![(name, x)])),
            None => None,
        }
}

/// A vertex with all its properties, where it has any.
pub open spec fn all_vertex_props(ps: Seq<VertexPropModel>) -> spec_fn(VertexModel) -> Option<
    (VertexModel, Seq<PropModel>),
> {
    |v: VertexModel|
        if vertex_props_of(ps, v.0).len() > 0 {
            Some((v, vertex_props_of(ps, v.0)))
        } else {
            None
        }
}

/// An edge with its property of that name, where it is set.
pub open spec fn named_edge_prop(ps: Seq<EdgePropModel>, name: Seq<char>) -> spec_fn(
    EdgeModel,
) -> Option<(EdgeModel, Seq<PropModel>)> {
    |e: EdgeModel|
        match edge_prop(ps, e, name) {
            Some(x) => Some((e, seq![(name, x)])),
            None => None,
        }
}

/// An edge with all its properties, where it has any.
pub open spec fn all_edge_props(ps: Seq<EdgePropModel>) -> spec_fn(EdgeModel) -> Option<
    (EdgeModel, Seq<PropModel>),
> {
    |e: EdgeModel|
        if edge_props_of(ps, e).len() > 0 {
            Some((e, edge_props_of(ps, e)))
        } else {
            None
        }
}

/// What a pipe makes of the previous result: the edges of vertices, or the
/// vertices at one end of edges; at most `limit` of them.
pub open spec fn pipe_output(
    m: GraphModel,
    o: OutputModel,
    dir: EdgeDirection,
    t: Option<Seq<char>>,
    limit: u32,
) -> Result<OutputModel, Error> {
    match o {
        OutputModel::Vertices(vs) => Ok(
            OutputModel::Edges(take_at_most(pipe_edges(m, vs, dir, t), limit as int)),
        ),
        OutputModel::Edges(es) => Ok(
            OutputModel::Vertices(
                take_at_most(
                    specific_vertices(m.vertices, es.map_values(endpoint(dir))).filter(of_type(t)),
                    limit as int,
                ),
            ),
        ),
        _ => Err(Error::Unsupported),
    }
}

/// The properties of the previous result's vertices or edges: the one named,
/// or all of them; owners without any are left out.
pub open spec fn property_output(m: GraphModel, o: OutputModel, name: Option<Seq<char>>) -> Result<
    OutputModel,
    Error,
> {
    match o {
        OutputModel::Vertices(vs) => Ok(
            OutputModel::VertexProperties(
                match name {
                    Some(n) => vs.filter_map(named_vertex_prop(m.vertex_properties, n)),
                    None => vs.filter_map(all_vertex_props(m.vertex_properties)),
                },
            ),
        ),
        OutputModel::Edges(es) => Ok(
            OutputModel::EdgeProperties(
                match name {
                    Some(n) => es.filter_map(named_edge_prop(m.edge_properties, n)),
                    None => es.filter_map(all_edge_props(m.edge_properties)),
                },
            ),
        ),
        _ => Err(Error::Unsupported),
    }
}

/// The previous result's vertices or edges that have (or lack) the indexed
/// property.
pub open spec fn presence_output(m: GraphModel, o: OutputModel, name: Seq<char>, exists: bool) -> Result<
    OutputModel,
    Error,
> {
    match o {
        OutputModel::Vertices(vs) => if m.indexed.contains(name) {
            Ok(OutputModel::Vertices(vs.filter(vertex_presence(m.vertex_index, name, exists))))
        } else {
            Err(Error::NotIndexed)
        },
        OutputModel::Edges(es) => if m.indexed.contains(name) {
            Ok(OutputModel::Edges(es.filter(edge_presence(m.edge_index, name, exists))))
        } else {
            Err(Error::NotIndexed)
        },
        _ => Err(Error::Unsupported),
    }
}

/// The previous result's vertices or edges whose indexed property equals (or
/// does not equal) the value.
pub open spec fn value_output(
    m: GraphModel,
    o: OutputModel,
    name: Seq<char>,
    value: Seq<char>,
    equal: bool,
) -> Result<OutputModel, Error> {
    match o {
        OutputModel::Vertices(vs) => if m.indexed.contains(name) {
            Ok(
                OutputModel::Vertices(
                    vs.filter(vertex_value(m.vertex_index, name, value, equal)),
                ),
            )
        } else {
            Err(Error::NotIndexed)
        },
        OutputModel::Edges(es) => if m.indexed.contains(name) {
            Ok(OutputModel::Edges(es.filter(edge_value(m.edge_index, name, value, equal))))
        } else {
            Err(Error::NotIndexed)
        },
        _ => Err(Error::Unsupported),
    }
}

/// The number of items in the previous result.
pub open spec fn count_output(o: OutputModel) -> Result<OutputModel, Error> {
    match o {
        OutputModel::Vertices(s) => Ok(OutputModel::Count(s.len() as u64)),
        OutputModel::Edges(s) => Ok(OutputModel::Count(s.len() as u64)),
        OutputModel::VertexProperties(s) => Ok(OutputModel::Count(s.len() as u64)),
        OutputModel::EdgeProperties(s) => Ok(OutputModel::Count(s.len() as u64)),
        OutputModel::Count(_) => Err(Error::Unsupported),
    }
}

/// The query is an `Include` stage.
pub open spec fn is_include(q: Query) -> bool {
    q is Include
}

/// A stage that consumes the last output: the stage's result replaces it,
/// unless the inner query was an `Include` stage, which keeps it.
pub open spec fn staged(outs: Seq<OutputModel>, inner: Query, r: Result<OutputModel, Error>) -> Result<
    Seq<OutputModel>,
    Error,
> {
    match r {
        Err(e) => Err(e),
        Ok(v) => Ok(
            (if is_include(inner) {
                outs
            } else {
                outs.drop_last()
            }).push(v),
        ),
    }
}

/// A query whose result is one output.
pub open spec fn single(o: OutputModel) -> Result<Seq<OutputModel>, Error> {
    Ok(seq![o])
}

/// What a query yields on the database: its outputs in order (one for each
/// `Include` stage, then the final one), or the error.
pub open spec fn eval(m: GraphModel, q: Query) -> Result<Seq<OutputModel>, Error>
    decreases q,
{
    match q {
        Query::AllVertex => single(OutputModel::Vertices(m.vertices)),
        Query::RangeVertex(r) => single(
            OutputModel::Vertices(
                take_at_most(m.vertices.filter(in_range(r.start_id, opt_view(r.t))), r.limit as int),
            ),
        ),
        Query::SpecificVertex(s) => single(
            OutputModel::Vertices(specific_vertices(m.vertices, s.ids@)),
        ),
        Query::VertexWithPropertyPresence(p) => if m.indexed.contains(p.name@) {
            single(OutputModel::Vertices(indexed_vertices(m, p.name@, None)))
        } else {
            Err(Error::NotIndexed)
        },
        Query::VertexWithPropertyValue(p) => if m.indexed.contains(p.name@) {
            single(OutputModel::Vertices(indexed_vertices(m, p.name@, Some(p.value@))))
        } else {
            Err(Error::NotIndexed)
        },
        Query::AllEdge => single(OutputModel::Edges(m.edges)),
        Query::SpecificEdge(s) => single(
            OutputModel::Edges(edges_view(s.edges@).filter(stored_edge(m.edges))),
        ),
        Query::EdgeWithPropertyPresence(p) => if m.indexed.contains(p.name@) {
            single(OutputModel::Edges(indexed_edges(m, p.name@, None)))
        } else {
            Err(Error::NotIndexed)
        },
        Query::EdgeWithPropertyValue(p) => if m.indexed.contains(p.name@) {
            single(OutputModel::Edges(indexed_edges(m, p.name@, Some(p.value@))))
        } else {
            Err(Error::NotIndexed)
        },
        Query::Pipe(p) => match eval(m, *p.inner) {
            Err(e) => Err(e),
            Ok(outs) => staged(
                outs,
                *p.inner,
                pipe_output(m, outs.last(), p.direction, opt_view(p.t), p.limit),
            ),
        },
        Query::PipeProperty(p) => match eval(m, *p.inner) {
            Err(e) => Err(e),
            Ok(outs) => staged(outs, *p.inner, property_output(m, outs.last(), opt_view(p.name))),
        },
        Query::PipeWithPropertyPresence(p) => match eval(m, *p.inner) {
            Err(e) => Err(e),
            Ok(outs) => staged(outs, *p.inner, presence_output(m, outs.last(), p.name@, p.exists)),
        },
        Query::PipeWithPropertyValue(p) => match eval(m, *p.inner) {
            Err(e) => Err(e),
            Ok(outs) => staged(
                outs,
                *p.inner,
                value_output(m, outs.last(), p.name@, p.value@, p.equal),
            ),
        },
        Query::Include(i) => eval(m, *i.inner),
        Query::Count(c) => match eval(m, *c.inner) {
            Err(e) => Err(e),
            Ok(outs) => staged(outs, *c.inner, count_output(outs.last())),
        },
    }
}

/// The query reads the tables directly, with no inner query.
pub open spec fn is_leaf(q: Query) -> bool {
    !(q is Pipe || q is PipeProperty || q is PipeWithPropertyPresence || q is PipeWithPropertyValue
        || q is Include || q is Count)
}

/// The view of a query's result.
pub open spec fn result_view(r: Result<Vec<QueryOutputValue>, Error>) -> Result<Seq<OutputModel>, Error> {
    match r {
        Ok(v) => Ok(outputs_view(v@)),
        Err(e) => Err(e),
    }
}

/// The view of one output, or the error.
pub open spec fn value_view(r: Result<QueryOutputValue, Error>) -> Result<OutputModel, Error> {
    match r {
        Ok(v) => Ok(v@),
        Err(e) => Err(e),
    }
}

fn one(o: QueryOutputValue) -> (r: Result<Vec<QueryOutputValue>, Error>)
    ensures
        result_view(r) == single(o@),
        r is Ok ==> r->Ok_0@.len() >= 1,
{
    let mut v: Vec<QueryOutputValue> = Vec::new();
    v.push(o);
    assert(outputs_view(v@) =~= seq![o@]);
    Ok(v)
}

fn inner_is_include(q: &Query) -> (r: bool)
    ensures
        r == is_include(*q),
{
    matches!(q, Query::Include(_))
}

/// Takes the last output off the list.
fn pop_last(outs: &mut Vec<QueryOutputValue>) -> (r: QueryOutputValue)
    requires
        old(outs)@.len() >= 1,
    ensures
        outputs_view(final(outs)@) == outputs_view(old(outs)@).drop_last(),
        r@ == outputs_view(old(outs)@).last(),
        outputs_view(final(outs)@).push(r@) == outputs_view(old(outs)@),
{
    let r = outs.pop();
    assert(outputs_view(outs@) =~= outputs_view(old(outs)@).drop_last());
    assert(outputs_view(outs@).push(outputs_view(old(outs)@).last()) =~= outputs_view(old(outs)@));
    match r {
        Some(o) => o,
        None => {
            assert(false);
            QueryOutputValue::Count(0)
        },
    }
}

/// Ends a stage that consumed `last`: `last` goes back where the inner query
/// was an `Include` stage, then the stage's own output follows.
fn finish_stage(
    outs: Vec<QueryOutputValue>,
    last: QueryOutputValue,
    keep: bool,
    v: QueryOutputValue,
) -> (r: Vec<QueryOutputValue>)
    ensures
        outputs_view(r@) == (if keep {
            outputs_view(outs@).push(last@)
        } else {
            outputs_view(outs@)
        }).push(v@),
        r@.len() >= 1,
{
    let mut outs = outs;
    let ghost o0 = outputs_view(outs@);
    if keep {
        outs.push(last);
    }
    let ghost o1 = outputs_view(outs@);
    assert(keep ==> o1 =~= o0.push(last@));
    assert(!keep ==> o1 =~= o0);
    outs.push(v);
    assert(outputs_view(outs@) =~= o1.push(v@));
    outs
}

/// The number of items in an output, where it has items.
fn count_of(o: &QueryOutputValue) -> (r: Option<u64>)
    ensures
        match r {
            Some(n) => count_output(o@) == Ok::<OutputModel, Error>(OutputModel::Count(n)),
            None => count_output(o@) == Err::<OutputModel, Error>(Error::Unsupported),
        },
{
    match o {
        QueryOutputValue::Vertices(v) => Some(v.len() as u64),
        QueryOutputValue::Edges(v) => Some(v.len() as u64),
        QueryOutputValue::VertexProperties(v) => Some(v.len() as u64),
        QueryOutputValue::EdgeProperties(v) => Some(v.len() as u64),
        QueryOutputValue::Count(_) => None,
    }
}

impl MemoryDatastore {
    /// What a pipe makes of the last output.
    fn pipe_value(&self, last: &QueryOutputValue, dir: EdgeDirection, t: &Option<Identifier>, limit: u32) -> (r: Result<QueryOutputValue, Error>)
        ensures
            value_view(r) == pipe_output(self@, last@, dir, opt_view(*t), limit),
    {
        match last {
            QueryOutputValue::Vertices(vs) => Ok(
                QueryOutputValue::Edges(self.pipe_vertex_edges(vs, dir, t, limit)),
            ),
            QueryOutputValue::Edges(es) => Ok(
                QueryOutputValue::Vertices(self.pipe_edge_vertices(es, dir, t, limit)),
            ),
            _ => Err(Error::Unsupported),
        }
    }

    /// The properties of the last output's vertices or edges.
    fn property_value(&self, last: &QueryOutputValue, name: &Option<Identifier>) -> (r: Result<QueryOutputValue, Error>)
        ensures
            value_view(r) == property_output(self@, last@, opt_view(*name)),
    {
        match last {
            QueryOutputValue::Vertices(vs) => Ok(
                QueryOutputValue::VertexProperties(self.vertex_properties_for(vs, name)),
            ),
            QueryOutputValue::Edges(es) => Ok(
                QueryOutputValue::EdgeProperties(self.edge_properties_for(es, name)),
            ),
            _ => Err(Error::Unsupported),
        }
    }

    /// The last output's items that have (or lack) the indexed property.
    fn presence_value(&self, last: &QueryOutputValue, name: &Identifier, exists: bool) -> (r: Result<QueryOutputValue, Error>)
        ensures
            value_view(r) == presence_output(self@, last@, name@, exists),
    {
        match last {
            QueryOutputValue::Vertices(vs) => {
                if self.is_indexed(name) {
                    Ok(QueryOutputValue::Vertices(self.vertices_by_presence(vs, name, exists)))
                } else {
                    Err(Error::NotIndexed)
                }
            },
            QueryOutputValue::Edges(es) => {
                if self.is_indexed(name) {
                    Ok(QueryOutputValue::Edges(self.edges_by_presence(es, name, exists)))
                } else {
                    Err(Error::NotIndexed)
                }
            },
            _ => Err(Error::Unsupported),
        }
    }

    /// The last output's items whose indexed property equals (or does not
    /// equal) the value.
    fn value_value(&self, last: &QueryOutputValue, name: &Identifier, value: &Json, equal: bool) -> (r: Result<QueryOutputValue, Error>)
        ensures
            value_view(r) == value_output(self@, last@, name@, value@, equal),
    {
        match last {
            QueryOutputValue::Vertices(vs) => {
                if self.is_indexed(name) {
                    Ok(QueryOutputValue::Vertices(self.vertices_by_value(vs, name, value, equal)))
                } else {
                    Err(Error::NotIndexed)
                }
            },
            QueryOutputValue::Edges(es) => {
                if self.is_indexed(name) {
                    Ok(QueryOutputValue::Edges(self.edges_by_value(es, name, value, equal)))
                } else {
                    Err(Error::NotIndexed)
                }
            },
            _ => Err(Error::Unsupported),
        }
    }

    /// Runs a query that reads the tables directly.
    fn get_leaf(&self, q: &Query) -> (r: Result<Vec<QueryOutputValue>, Error>)
        requires
            is_leaf(*q),
        ensures
            result_view(r) == eval(self@, *q),
            r is Ok ==> r->Ok_0@.len() >= 1,
    {
        match q {
            Query::AllVertex => one(QueryOutputValue::Vertices(self.all_vertices())),
            Query::RangeVertex(r) => one(
                QueryOutputValue::Vertices(self.range_vertices(r.start_id, &r.t, r.limit)),
            ),
            Query::SpecificVertex(s) => one(QueryOutputValue::Vertices(self.specific_vertices(&s.ids))),
            Query::VertexWithPropertyPresence(p) => {
                if self.is_indexed(&p.name) {
                    one(QueryOutputValue::Vertices(self.vertices_from_index(&p.name, &None)))
                } else {
                    Err(Error::NotIndexed)
                }
            },
            Query::VertexWithPropertyValue(p) => {
                if self.is_indexed(&p.name) {
                    let value = Some(p.value.cloned());
                    one(QueryOutputValue::Vertices(self.vertices_from_index(&p.name, &value)))
                } else {
                    Err(Error::NotIndexed)
                }
            },
            Query::AllEdge => one(QueryOutputValue::Edges(self.all_edges())),
            Query::SpecificEdge(s) => one(QueryOutputValue::Edges(self.specific_edges(&s.edges))),
            Query::EdgeWithPropertyPresence(p) => {
                if self.is_indexed(&p.name) {
                    one(QueryOutputValue::Edges(self.edges_from_index(&p.name, &None)))
                } else {
                    Err(Error::NotIndexed)
                }
            },
            Query::EdgeWithPropertyValue(p) => {
                if self.is_indexed(&p.name) {
                    let value = Some(p.value.cloned());
                    one(QueryOutputValue::Edges(self.edges_from_index(&p.name, &value)))
                } else {
                    Err(Error::NotIndexed)
                }
            },
            _ => Err(Error::Unsupported),
        }
    }

    /// Runs a query: its outputs in order (one for each `Include` stage, then the
    /// final one), or the error.
    pub fn get(&self, q: &Query) -> (r: Result<Vec<QueryOutputValue>, Error>)
        ensures
            result_view(r) == eval(self@, *q),
            r is Ok ==> r->Ok_0@.len() >= 1,
        decreases q,
    {
        match q {
            Query::Pipe(p) => {
                let mut outs = match self.get(&p.inner) {
                    Ok(o) => o,
                    Err(e) => return Err(e),
                };
                let last = pop_last(&mut outs);
                let v = match self.pipe_value(&last, p.direction, &p.t, p.limit) {
                    Ok(v) => v,
                    Err(e) => return Err(e),
                };
                let keep = inner_is_include(&p.inner);
                Ok(finish_stage(outs, last, keep, v))
            },
            Query::PipeProperty(p) => {
                let mut outs = match self.get(&p.inner) {
                    Ok(o) => o,
                    Err(e) => return Err(e),
                };
                let last = pop_last(&mut outs);
                let v = match self.property_value(&last, &p.name) {
                    Ok(v) => v,
                    Err(e) => return Err(e),
                };
                let keep = inner_is_include(&p.inner);
                Ok(finish_stage(outs, last, keep, v))
            },
            Query::PipeWithPropertyPresence(p) => {
                let mut outs = match self.get(&p.inner) {
                    Ok(o) => o,
                    Err(e) => return Err(e),
                };
                let last = pop_last(&mut outs);
                let v = match self.presence_value(&last, &p.name, p.exists) {
                    Ok(v) => v,
                    Err(e) => return Err(e),
                };
                let keep = inner_is_include(&p.inner);
                Ok(finish_stage(outs, last, keep, v))
            },
            Query::PipeWithPropertyValue(p) => {
                let mut outs = match self.get(&p.inner) {
                    Ok(o) => o,
                    Err(e) => return Err(e),
                };
                let last = pop_last(&mut outs);
                let v = match self.value_value(&last, &p.name, &p.value, p.equal) {
                    Ok(v) => v,
                    Err(e) => return Err(e),
                };
                let keep = inner_is_include(&p.inner);
                Ok(finish_stage(outs, last, keep, v))
            },
            Query::Include(i) => self.get(&i.inner),
            Query::AllVertex
            | Query::RangeVertex(_)
            | Query::SpecificVertex(_)
            | Query::VertexWithPropertyPresence(_)
            | Query::VertexWithPropertyValue(_)
            | Query::AllEdge
            | Query::SpecificEdge(_)
            | Query::EdgeWithPropertyPresence(_)
            | Query::EdgeWithPropertyValue(_) => self.get_leaf(q),
            Query::Count(c) => {
                let mut outs = match self.get(&c.inner) {
                    Ok(o) => o,
                    Err(e) => return Err(e),
                };
                let last = pop_last(&mut outs);
                let n = match count_of(&last) {
                    Some(n) => n,
                    None => return Err(Error::Unsupported),
                };
                let keep = inner_is_include(&c.inner);
                Ok(finish_stage(outs, last, keep, QueryOutputValue::Count(n)))
            },
        }
    }
}

} // verus!
