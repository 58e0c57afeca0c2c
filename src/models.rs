use vstd::prelude::*;

use crate::identifiers::Identifier;
use crate::json::Json;

verus! {

/// A vertex as the contracts see it: its id and its type.
pub type VertexModel = (u128, Seq<char>);

/// An edge as the contracts see it: outbound id, type, inbound id.
pub type EdgeModel = (u128, Seq<char>, u128);

/// A named property as the contracts see it: its name and its value.
pub type PropModel = (Seq<char>, Seq<char>);

/// A version-4 UUID in its 128-bit form: version nibble 4 and variant bits
/// `10`.
pub open spec fn is_v4(id: u128) -> bool {
    (id >> 76u128) & 0xfu128 == 4 && (id >> 62u128) & 0x3u128 == 2
}

/// Draws a random version-4 UUID, as its 128-bit value.
///
/// Relies on `uuid::Uuid::new_v4`, which sets the version and variant bits
/// and draws the rest at random, and on `Uuid::as_u128` (big-endian).
#[verifier::external_body]
pub(crate) fn random_id() -> (r: u128)
    ensures
        is_v4(r),
{
    uuid::Uuid::new_v4().as_u128()
}

/// A node of the graph: a UUID (as its 128-bit value) and a type.
#[derive(Debug, Clone, Hash, PartialOrd, Ord)]
pub struct Vertex {
    pub id: u128,
    pub t: Identifier,
}

impl View for Vertex {
    type V = VertexModel;

    open spec fn view(&self) -> VertexModel {
        (self.id, self.t@)
    }
}

impl PartialEq for Vertex {
    fn eq(&self, other: &Vertex) -> (r: bool) {
        self.id == other.id && self.t.same(&other.t)
    }
}

impl vstd::std_specs::cmp::PartialEqSpecImpl for Vertex {
    open spec fn obeys_eq_spec() -> bool {
        true
    }

    open spec fn eq_spec(&self, other: &Vertex) -> bool {
        self@ == other@
    }
}

impl Eq for Vertex {
}

impl Vertex {
    /// A vertex with a freshly drawn random id.
    pub fn new(t: Identifier) -> (r: Vertex)
        ensures
            r.t@ == t@,
            is_v4(r.id),
    {
        Vertex { id: random_id(), t }
    }

    /// A vertex with the given id.
    pub fn with_id(id: u128, t: Identifier) -> (r: Vertex)
        ensures
            r@ == (id, t@),
    {
        Vertex { id, t }
    }

    /// A copy of the vertex.
    pub fn cloned(&self) -> (r: Vertex)
        ensures
            r@ == self@,
    {
        Vertex { id: self.id, t: self.t.cloned() }
    }
}

/// A directed edge, identified by its two endpoints and its type.
#[derive(Debug, Clone, Hash, PartialOrd, Ord)]
pub struct Edge {
    pub outbound_id: u128,
    pub t: Identifier,
    pub inbound_id: u128,
}

impl View for Edge {
    type V = EdgeModel;

    open spec fn view(&self) -> EdgeModel {
        (self.outbound_id, self.t@, self.inbound_id)
    }
}

impl PartialEq for Edge {
    fn eq(&self, other: &Edge) -> (r: bool) {
        self.same(other)
    }
}

impl vstd::std_specs::cmp::PartialEqSpecImpl for Edge {
    open spec fn obeys_eq_spec() -> bool {
        true
    }

    open spec fn eq_spec(&self, other: &Edge) -> bool {
        self@ == other@
    }
}

impl Eq for Edge {
}

impl Edge {
    /// Constructs an edge.
    pub fn new(outbound_id: u128, t: Identifier, inbound_id: u128) -> (r: Edge)
        ensures
            r@ == (outbound_id, t@, inbound_id),
    {
        Edge { outbound_id, t, inbound_id }
    }

    /// The edge with its endpoints swapped.
    pub fn reversed(&self) -> (r: Edge)
        ensures
            r@ == (self.inbound_id, self.t@, self.outbound_id),
    {
        Edge { outbound_id: self.inbound_id, t: self.t.cloned(), inbound_id: self.outbound_id }
    }

    /// Whether two edges have the same endpoints and type.
    pub fn same(&self, other: &Edge) -> (r: bool)
        ensures
            r == (self@ == other@),
    {
        self.outbound_id == other.outbound_id && self.inbound_id == other.inbound_id
            && self.t.same(&other.t)
    }

    /// Whether this edge precedes the other in key order.
    pub fn precedes(&self, other: &Edge) -> (r: bool)
        ensures
            r == crate::graph::edge_lt(self@, other@),
    {
        self.outbound_id < other.outbound_id || (self.outbound_id == other.outbound_id && (
        self.t.precedes(&other.t) || (self.t.same(&other.t) && self.inbound_id
            < other.inbound_id)))
    }

    /// A copy of the edge.
    pub fn cloned(&self) -> (r: Edge)
        ensures
            r@ == self@,
    {
        Edge { outbound_id: self.outbound_id, t: self.t.cloned(), inbound_id: self.inbound_id }
    }
}

/// Which end of an edge a pipe follows.
#[derive(Debug, Clone, Copy, PartialEq, Eq, Structural, Hash)]
pub enum EdgeDirection {
    Outbound,
    Inbound,
}

/// A property's name with its value.
#[derive(Debug, Clone, PartialEq, Eq)]
pub struct NamedProperty {
    pub name: Identifier,
    pub value: Json,
}

impl View for NamedProperty {
    type V = PropModel;

    open spec fn view(&self) -> PropModel {
        (self.name@, self.value@)
    }
}

impl NamedProperty {
    /// Constructs a named property.
    pub fn new(name: Identifier, value: Json) -> (r: NamedProperty)
        ensures
            r@ == (name@, value@),
    {
        NamedProperty { name, value }
    }
}

/// The views of a sequence of named properties.
pub open spec fn props_view(s: Seq<NamedProperty>) -> Seq<PropModel> {
    s.map_values(|p: NamedProperty| p@)
}

/// A vertex with some of its properties.
#[derive(Debug, Clone, PartialEq, Eq)]
pub struct VertexProperties {
    pub vertex: Vertex,
    pub props: Vec<NamedProperty>,
}

impl View for VertexProperties {
    type V = (VertexModel, Seq<PropModel>);

    open spec fn view(&self) -> (VertexModel, Seq<PropModel>) {
        (self.vertex@, props_view(self.props@))
    }
}

impl VertexProperties {
    /// Constructs a vertex with its properties.
    pub fn new(vertex: Vertex, props: Vec<NamedProperty>) -> (r: VertexProperties)
        ensures
            r@ == (vertex@, props_view(props@)),
    {
        VertexProperties { vertex, props }
    }
}

/// An edge with some of its properties.
#[derive(Debug, Clone, PartialEq, Eq)]
pub struct EdgeProperties {
    pub edge: Edge,
    pub props: Vec<NamedProperty>,
}

impl View for EdgeProperties {
    type V = (EdgeModel, Seq<PropModel>);

    open spec fn view(&self) -> (EdgeModel, Seq<PropModel>) {
        (self.edge@, props_view(self.props@))
    }
}

impl EdgeProperties {
    /// Constructs an edge with its properties.
    pub fn new(edge: Edge, props: Vec<NamedProperty>) -> (r: EdgeProperties)
        ensures
            r@ == (edge@, props_view(props@)),
    {
        EdgeProperties { edge, props }
    }
}

/// An item of a bulk insert.
#[derive(Debug, Clone, PartialEq, Eq)]
pub enum BulkInsertItem {
    Vertex(Vertex),
    Edge(Edge),
    VertexProperty(u128, Identifier, Json),
    EdgeProperty(Edge, Identifier, Json),
}

/// The views of a sequence of vertices.
pub open spec fn vertices_view(s: Seq<Vertex>) -> Seq<VertexModel> {
    s.map_values(|v: Vertex| v@)
}

/// The views of a sequence of edges.
pub open spec fn edges_view(s: Seq<Edge>) -> Seq<EdgeModel> {
    s.map_values(|e: Edge| e@)
}

/// The views of a sequence of vertices with properties.
pub open spec fn vertex_properties_view(s: Seq<VertexProperties>) -> Seq<(VertexModel, Seq<PropModel>)> {
    s.map_values(|x: VertexProperties| x@)
}

/// The views of a sequence of edges with properties.
pub open spec fn edge_properties_view(s: Seq<EdgeProperties>) -> Seq<(EdgeModel, Seq<PropModel>)> {
    s.map_values(|x: EdgeProperties| x@)
}

/// One result of a query, as the contracts see it.
pub enum OutputModel {
    Vertices(Seq<VertexModel>),
    Edges(Seq<EdgeModel>),
    VertexProperties(Seq<(VertexModel, Seq<PropModel>)>),
    EdgeProperties(Seq<(EdgeModel, Seq<PropModel>)>),
    Count(u64),
}

/// One result of a query.
#[derive(Debug, Clone, PartialEq, Eq)]
pub enum QueryOutputValue {
    Vertices(Vec<Vertex>),
    Edges(Vec<Edge>),
    VertexProperties(Vec<VertexProperties>),
    EdgeProperties(Vec<EdgeProperties>),
    Count(u64),
}

impl View for QueryOutputValue {
    type V = OutputModel;

    open spec fn view(&self) -> OutputModel {
        match self {
            QueryOutputValue::Vertices(v) => OutputModel::Vertices(vertices_view(v@)),
            QueryOutputValue::Edges(e) => OutputModel::Edges(edges_view(e@)),
            QueryOutputValue::VertexProperties(p) => OutputModel::VertexProperties(
                vertex_properties_view(p@),
            ),
            QueryOutputValue::EdgeProperties(p) => OutputModel::EdgeProperties(
                edge_properties_view(p@),
            ),
            QueryOutputValue::Count(n) => OutputModel::Count(*n),
        }
    }
}

/// The views of a sequence of query results.
pub open spec fn outputs_view(s: Seq<QueryOutputValue>) -> Seq<OutputModel> {
    s.map_values(|o: QueryOutputValue| o@)
}

} // verus!
