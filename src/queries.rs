use vstd::prelude::*;

use crate::identifiers::Identifier;
use crate::json::Json;
use crate::errors::Error;
use crate::models::{Edge, EdgeDirection};

verus! {

/// Vertices in ascending id order, from a starting id (inclusive), optionally
/// of one type; at most `limit` of them.
#[derive(Debug, Clone, PartialEq, Eq)]
pub struct RangeVertexQuery {
    pub limit: u32,
    pub t: Option<Identifier>,
    pub start_id: Option<u128>,
}

/// A fixed list of vertices, skipping ids that do not exist.
#[derive(Debug, Clone, PartialEq, Eq)]
pub struct SpecificVertexQuery {
    pub ids: Vec<u128>,
}

/// Vertices that have a property set.
#[derive(Debug, Clone, PartialEq, Eq)]
pub struct VertexWithPropertyPresenceQuery {
    pub name: Identifier,
}

/// Vertices whose property equals a value.
#[derive(Debug, Clone, PartialEq, Eq)]
pub struct VertexWithPropertyValueQuery {
    pub name: Identifier,
    pub value: Json,
}

/// A fixed list of edges, skipping those that do not exist.
#[derive(Debug, Clone, PartialEq, Eq)]
pub struct SpecificEdgeQuery {
    pub edges: Vec<Edge>,
}

/// Edges that have a property set.
#[derive(Debug, Clone, PartialEq, Eq)]
pub struct EdgeWithPropertyPresenceQuery {
    pub name: Identifier,
}

/// Edges whose property equals a value.
#[derive(Debug, Clone, PartialEq, Eq)]
pub struct EdgeWithPropertyValueQuery {
    pub name: Identifier,
    pub value: Json,
}

/// From vertices to their edges in a direction, or from edges to the vertex
/// at one end.
#[derive(Debug, PartialEq, Eq)]
pub struct PipeQuery {
    pub inner: Box<Query>,
    pub direction: EdgeDirection,
    pub limit: u32,
    pub t: Option<Identifier>,
}

/// The properties of the inner query's vertices or edges: one, or all.
#[derive(Debug, PartialEq, Eq)]
pub struct PipePropertyQuery {
    pub inner: Box<Query>,
    pub name: Option<Identifier>,
}

/// The inner query's items that have (or lack) a property.
#[derive(Debug, PartialEq, Eq)]
pub struct PipeWithPropertyPresenceQuery {
    pub inner: Box<Query>,
    pub name: Identifier,
    pub exists: bool,
}

/// The inner query's items whose property equals (or differs from) a value.
#[derive(Debug, PartialEq, Eq)]
pub struct PipeWithPropertyValueQuery {
    pub inner: Box<Query>,
    pub name: Identifier,
    pub value: Json,
    pub equal: bool,
}

/// Keeps the inner query's result among the outputs.
#[derive(Debug, PartialEq, Eq)]
pub struct IncludeQuery {
    pub inner: Box<Query>,
}

/// The number of items in the inner query's result.
#[derive(Debug, PartialEq, Eq)]
pub struct CountQuery {
    pub inner: Box<Query>,
}

/// A query over the graph.
#[derive(Debug, PartialEq, Eq)]
pub enum Query {
    AllVertex,
    RangeVertex(RangeVertexQuery),
    SpecificVertex(SpecificVertexQuery),
    VertexWithPropertyPresence(VertexWithPropertyPresenceQuery),
    VertexWithPropertyValue(VertexWithPropertyValueQuery),
    AllEdge,
    SpecificEdge(SpecificEdgeQuery),
    EdgeWithPropertyPresence(EdgeWithPropertyPresenceQuery),
    EdgeWithPropertyValue(EdgeWithPropertyValueQuery),
    Pipe(PipeQuery),
    PipeProperty(PipePropertyQuery),
    PipeWithPropertyPresence(PipeWithPropertyPresenceQuery),
    PipeWithPropertyValue(PipeWithPropertyValueQuery),
    Include(IncludeQuery),
    Count(CountQuery),
}

/// What a query's final output holds.
#[derive(Debug, Clone, Copy, PartialEq, Eq, Structural)]
pub enum OutputKind {
    Vertices,
    Edges,
    VertexProperties,
    EdgeProperties,
    Count,
}

/// What the query's final output holds.
pub open spec fn kind_of(q: Query) -> OutputKind
    decreases q,
{
    match q {
        Query::AllVertex => OutputKind::Vertices,
        Query::RangeVertex(_) => OutputKind::Vertices,
        Query::SpecificVertex(_) => OutputKind::Vertices,
        Query::VertexWithPropertyPresence(_) => OutputKind::Vertices,
        Query::VertexWithPropertyValue(_) => OutputKind::Vertices,
        Query::AllEdge => OutputKind::Edges,
        Query::SpecificEdge(_) => OutputKind::Edges,
        Query::EdgeWithPropertyPresence(_) => OutputKind::Edges,
        Query::EdgeWithPropertyValue(_) => OutputKind::Edges,
        Query::Pipe(p) => if kind_of(*p.inner) == OutputKind::Vertices {
            OutputKind::Edges
        } else {
            OutputKind::Vertices
        },
        Query::PipeProperty(p) => if kind_of(*p.inner) == OutputKind::Edges {
            OutputKind::EdgeProperties
        } else {
            OutputKind::VertexProperties
        },
        Query::PipeWithPropertyPresence(p) => kind_of(*p.inner),
        Query::PipeWithPropertyValue(p) => kind_of(*p.inner),
        Query::Include(i) => kind_of(*i.inner),
        Query::Count(_) => OutputKind::Count,
    }
}

/// The final output holds vertices or edges, which the next stage can take.
pub open spec fn yields_items(q: Query) -> bool {
    kind_of(q) == OutputKind::Vertices || kind_of(q) == OutputKind::Edges
}

impl SpecificVertexQuery {
    /// A query for one vertex.
    pub fn single(id: u128) -> (r: SpecificVertexQuery)
        ensures
            r.ids@ == seq![id],
    {
        let mut ids: Vec<u128> = Vec::new();
        ids.push(id);
        assert(ids@ =~= seq![id]);
        SpecificVertexQuery { ids }
    }
}

impl SpecificEdgeQuery {
    /// A query for one edge.
    pub fn single(edge: Edge) -> (r: SpecificEdgeQuery)
        ensures
            r.edges@ == seq![edge],
    {
        let mut edges: Vec<Edge> = Vec::new();
        edges.push(edge);
        assert(edges@ =~= seq![edge]);
        SpecificEdgeQuery { edges }
    }
}

impl Query {
    /// What the query's final output holds.
    pub fn output_kind(&self) -> (r: OutputKind)
        ensures
            r == kind_of(*self),
        decreases self,
    {
        match self {
            Query::AllVertex => OutputKind::Vertices,
            Query::RangeVertex(_) => OutputKind::Vertices,
            Query::SpecificVertex(_) => OutputKind::Vertices,
            Query::VertexWithPropertyPresence(_) => OutputKind::Vertices,
            Query::VertexWithPropertyValue(_) => OutputKind::Vertices,
            Query::AllEdge => OutputKind::Edges,
            Query::SpecificEdge(_) => OutputKind::Edges,
            Query::EdgeWithPropertyPresence(_) => OutputKind::Edges,
            Query::EdgeWithPropertyValue(_) => OutputKind::Edges,
            Query::Pipe(p) => if p.inner.output_kind() == OutputKind::Vertices {
                OutputKind::Edges
            } else {
                OutputKind::Vertices
            },
            Query::PipeProperty(p) => if p.inner.output_kind() == OutputKind::Edges {
                OutputKind::EdgeProperties
            } else {
                OutputKind::VertexProperties
            },
            Query::PipeWithPropertyPresence(p) => p.inner.output_kind(),
            Query::PipeWithPropertyValue(p) => p.inner.output_kind(),
            Query::Include(i) => i.inner.output_kind(),
            Query::Count(_) => OutputKind::Count,
        }
    }

    fn takes_items(&self) -> (r: bool)
        ensures
            r == yields_items(*self),
    {
        let k = self.output_kind();
        k == OutputKind::Vertices || k == OutputKind::Edges
    }

    /// Pipes to the edges going out of the vertices, or to the outbound
    /// vertices of the edges; `Unsupported` unless the query yields vertices
    /// or edges.
    pub fn outbound(self) -> (r: Result<Query, Error>)
        ensures
            yields_items(self) ==> (r matches Ok(Query::Pipe(p)) && *p.inner == self && p.direction
                == EdgeDirection::Outbound && p.limit == u32::MAX && p.t is None),
            !yields_items(self) ==> r == Err::<Query, Error>(Error::Unsupported),
    {
        if self.takes_items() {
            Ok(
                Query::Pipe(
                    PipeQuery {
                        inner: Box::new(self),
                        direction: EdgeDirection::Outbound,
                        limit: u32::MAX,
                        t: None,
                    },
                ),
            )
        } else {
            Err(Error::Unsupported)
        }
    }

    /// Pipes to the edges coming into the vertices, or to the inbound
    /// vertices of the edges; `Unsupported` unless the query yields vertices
    /// or edges.
    pub fn inbound(self) -> (r: Result<Query, Error>)
        ensures
            yields_items(self) ==> (r matches Ok(Query::Pipe(p)) && *p.inner == self && p.direction
                == EdgeDirection::Inbound && p.limit == u32::MAX && p.t is None),
            !yields_items(self) ==> r == Err::<Query, Error>(Error::Unsupported),
    {
        if self.takes_items() {
            Ok(
                Query::Pipe(
                    PipeQuery {
                        inner: Box::new(self),
                        direction: EdgeDirection::Inbound,
                        limit: u32::MAX,
                        t: None,
                    },
                ),
            )
        } else {
            Err(Error::Unsupported)
        }
    }

    /// Keeps this query's output among the outputs of the enclosing one.
    pub fn included(self) -> (r: Query)
        ensures
            r matches Query::Include(i) && *i.inner == self,
    {
        Query::Include(IncludeQuery { inner: Box::new(self) })
    }

    /// Counts the items of the output; `Unsupported` on a count.
    pub fn count(self) -> (r: Result<Query, Error>)
        ensures
            kind_of(self) != OutputKind::Count ==> (r matches Ok(Query::Count(c)) && *c.inner
                == self),
            kind_of(self) == OutputKind::Count ==> r == Err::<Query, Error>(Error::Unsupported),
    {
        if self.output_kind() != OutputKind::Count {
            Ok(Query::Count(CountQuery { inner: Box::new(self) }))
        } else {
            Err(Error::Unsupported)
        }
    }

    /// All properties of the vertices or edges; `Unsupported` unless the
    /// query yields vertices or edges.
    pub fn properties(self) -> (r: Result<Query, Error>)
        ensures
            yields_items(self) ==> (r matches Ok(Query::PipeProperty(p)) && *p.inner == self
                && p.name is None),
            !yields_items(self) ==> r == Err::<Query, Error>(Error::Unsupported),
    {
        if self.takes_items() {
            Ok(Query::PipeProperty(PipePropertyQuery { inner: Box::new(self), name: None }))
        } else {
            Err(Error::Unsupported)
        }
    }

    /// One property of the vertices or edges; `Unsupported` unless the query
    /// yields vertices or edges.
    pub fn property(self, name: Identifier) -> (r: Result<Query, Error>)
        ensures
            yields_items(self) ==> (r matches Ok(Query::PipeProperty(p)) && *p.inner == self
                && p.name == Some(name)),
            !yields_items(self) ==> r == Err::<Query, Error>(Error::Unsupported),
    {
        if self.takes_items() {
            Ok(Query::PipeProperty(PipePropertyQuery { inner: Box::new(self), name: Some(name) }))
        } else {
            Err(Error::Unsupported)
        }
    }

    /// The items that have the property; `Unsupported` unless the query
    /// yields vertices or edges.
    pub fn with_property(self, name: Identifier) -> (r: Result<Query, Error>)
        ensures
            yields_items(self) ==> (r matches Ok(Query::PipeWithPropertyPresence(p)) && *p.inner
                == self && p.name == name && p.exists),
            !yields_items(self) ==> r == Err::<Query, Error>(Error::Unsupported),
    {
        if self.takes_items() {
            Ok(
                Query::PipeWithPropertyPresence(
                    PipeWithPropertyPresenceQuery { inner: Box::new(self), name, exists: true },
                ),
            )
        } else {
            Err(Error::Unsupported)
        }
    }

    /// The items that lack the property; `Unsupported` unless the query
    /// yields vertices or edges.
    pub fn without_property(self, name: Identifier) -> (r: Result<Query, Error>)
        ensures
            yields_items(self) ==> (r matches Ok(Query::PipeWithPropertyPresence(p)) && *p.inner
                == self && p.name == name && !p.exists),
            !yields_items(self) ==> r == Err::<Query, Error>(Error::Unsupported),
    {
        if self.takes_items() {
            Ok(
                Query::PipeWithPropertyPresence(
                    PipeWithPropertyPresenceQuery { inner: Box::new(self), name, exists: false },
                ),
            )
        } else {
            Err(Error::Unsupported)
        }
    }

    /// The items whose property equals the value; `Unsupported` unless the
    /// query yields vertices or edges.
    pub fn with_property_equal_to(self, name: Identifier, value: Json) -> (r: Result<Query, Error>)
        ensures
            yields_items(self) ==> (r matches Ok(Query::PipeWithPropertyValue(p)) && *p.inner
                == self && p.name == name && p.value == value && p.equal),
            !yields_items(self) ==> r == Err::<Query, Error>(Error::Unsupported),
    {
        if self.takes_items() {
            Ok(
                Query::PipeWithPropertyValue(
                    PipeWithPropertyValueQuery { inner: Box::new(self), name, value, equal: true },
                ),
            )
        } else {
            Err(Error::Unsupported)
        }
    }

    /// The items whose property is missing or differs from the value;
    /// `Unsupported` unless the query yields vertices or edges.
    pub fn with_property_not_equal_to(self, name: Identifier, value: Json) -> (r: Result<
        Query,
        Error,
    >)
        ensures
            yields_items(self) ==> (r matches Ok(Query::PipeWithPropertyValue(p)) && *p.inner
                == self && p.name == name && p.value == value && !p.equal),
            !yields_items(self) ==> r == Err::<Query, Error>(Error::Unsupported),
    {
        if self.takes_items() {
            Ok(
                Query::PipeWithPropertyValue(
                    PipeWithPropertyValueQuery { inner: Box::new(self), name, value, equal: false },
                ),
            )
        } else {
            Err(Error::Unsupported)
        }
    }
}

} // verus!
