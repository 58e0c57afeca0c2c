use indradb_lib::{
    BulkInsertItem, Database, EdgeWithPropertyPresenceQuery, EdgeWithPropertyValueQuery, Edge, EdgeDirection, EdgeProperties, Error, Identifier, Json, MemoryDatastore,
    NamedProperty, PipeQuery, Query, QueryOutputValue, RangeVertexQuery, SpecificEdgeQuery,
    SpecificVertexQuery, ValidationError, Vertex, VertexProperties, VertexWithPropertyPresenceQuery,
    VertexWithPropertyValueQuery,
};

const A: u128 = 0x0000_0000_0000_4000_8000_0000_0000_000a;
const B: u128 = 0x0000_0000_0000_4000_8000_0000_0000_000b;
const C: u128 = 0x0000_0000_0000_4000_8000_0000_0000_000c;

fn vt() -> Identifier {
    Identifier::new_unchecked("test_vertex_type")
}

fn et() -> Identifier {
    Identifier::new_unchecked("test_edge_type")
}

fn name(s: &str) -> Identifier {
    Identifier::new_unchecked(s)
}

fn json(s: &str) -> Json {
    Json::parse(s).unwrap()
}

fn specific(id: u128) -> Query {
    Query::SpecificVertex(SpecificVertexQuery::single(id))
}

fn ab() -> Edge {
    Edge::new(A, et(), B)
}

/// Vertices `A(T)`, `B(T)` and the edge `A-E->B`.
fn two_vertices_one_edge() -> MemoryDatastore {
    let mut db = MemoryDatastore::new();
    assert!(db.create_vertex(&Vertex::with_id(A, vt())));
    assert!(db.create_vertex(&Vertex::with_id(B, vt())));
    assert!(db.create_edge(&ab()));
    db
}

fn last(db: &MemoryDatastore, q: &Query) -> QueryOutputValue {
    db.get(q).unwrap().pop().unwrap()
}

fn vertices(db: &MemoryDatastore, q: &Query) -> Vec<Vertex> {
    match last(db, q) {
        QueryOutputValue::Vertices(v) => v,
        other => panic!("expected vertices, got {:?}", other),
    }
}

fn edges(db: &MemoryDatastore, q: &Query) -> Vec<Edge> {
    match last(db, q) {
        QueryOutputValue::Edges(e) => e,
        other => panic!("expected edges, got {:?}", other),
    }
}

fn count(db: &MemoryDatastore, q: Query) -> u64 {
    match last(db, &q.count().unwrap()) {
        QueryOutputValue::Count(n) => n,
        other => panic!("expected a count, got {:?}", other),
    }
}

fn pipe(inner: Query, direction: EdgeDirection, limit: u32, t: Option<Identifier>) -> Query {
    Query::Pipe(PipeQuery { inner: Box::new(inner), direction, limit, t })
}

#[test]
fn create_and_count() {
    let db = two_vertices_one_edge();
    assert_eq!(count(&db, Query::AllVertex), 2);
    assert_eq!(count(&db, Query::AllEdge), 1);
}

#[test]
fn pipe_outbound() {
    let db = two_vertices_one_edge();
    assert_eq!(edges(&db, &specific(A).outbound().unwrap()), vec![ab()]);
}

#[test]
fn pipe_endpoint() {
    let db = two_vertices_one_edge();
    let q = Query::SpecificEdge(SpecificEdgeQuery::single(ab())).inbound().unwrap();
    assert_eq!(vertices(&db, &q), vec![Vertex::with_id(B, vt())]);
}

#[test]
fn property_index() {
    let mut db = two_vertices_one_edge();
    db.set_properties(&specific(A), &name("color"), &json("\"red\"")).unwrap();
    let q = Query::VertexWithPropertyValue(VertexWithPropertyValueQuery {
        name: name("color"),
        value: json("\"red\""),
    });
    assert_eq!(db.get(&q), Err(Error::NotIndexed));
    db.index_property(&name("color"));
    assert_eq!(vertices(&db, &q), vec![Vertex::with_id(A, vt())]);
}

#[test]
fn delete_cascade() {
    let mut db = two_vertices_one_edge();
    db.set_properties(&specific(A), &name("color"), &json("\"red\"")).unwrap();
    let edge_q = Query::SpecificEdge(SpecificEdgeQuery::single(ab()));
    db.set_properties(&edge_q, &name("weight"), &json("3")).unwrap();
    assert_eq!(
        last(&db, &Query::SpecificEdge(SpecificEdgeQuery::single(ab())).properties().unwrap()),
        QueryOutputValue::EdgeProperties(vec![EdgeProperties::new(
            ab(),
            vec![NamedProperty::new(name("weight"), json("3"))]
        )])
    );
    db.delete(&specific(A)).unwrap();
    assert_eq!(edges(&db, &Query::AllEdge), vec![]);
    assert_eq!(vertices(&db, &Query::AllVertex), vec![Vertex::with_id(B, vt())]);
    assert_eq!(last(&db, &specific(A).properties().unwrap()), QueryOutputValue::VertexProperties(vec![]));
    assert_eq!(last(&db, &edge_q.properties().unwrap()), QueryOutputValue::EdgeProperties(vec![]));
    // Re-creating the vertex shows that none of its properties survived: a
    // vertex without properties gets no entry.
    assert!(db.create_vertex(&Vertex::with_id(A, vt())));
    assert_eq!(last(&db, &specific(A).properties().unwrap()), QueryOutputValue::VertexProperties(vec![]));
}

#[test]
fn include_composition() {
    let mut db = MemoryDatastore::new();
    let vt_out = name("test_outbound_vertex_type");
    assert!(db.create_vertex(&Vertex::with_id(A, vt_out.clone())));
    let mut inbound = Vec::new();
    for i in 0..5u128 {
        let id = 0x1000 + i;
        assert!(db.create_vertex(&Vertex::with_id(id, name("test_inbound_vertex_type"))));
        assert!(db.create_edge(&Edge::new(A, et(), id)));
        inbound.push(id);
    }
    let q = specific(A).included().outbound().unwrap().included().count().unwrap();
    assert_eq!(
        db.get(&q).unwrap(),
        vec![
            QueryOutputValue::Vertices(vec![Vertex::with_id(A, vt_out)]),
            QueryOutputValue::Edges(inbound.iter().map(|id| Edge::new(A, et(), *id)).collect()),
            QueryOutputValue::Count(5),
        ]
    );
    // Without the second include the count takes the place of the edges.
    let q = specific(A).included().outbound().unwrap().count().unwrap();
    assert_eq!(db.get(&q).unwrap().len(), 2);
}

#[test]
fn created_vertex_is_found() {
    let mut db = MemoryDatastore::new();
    let v = Vertex::new(vt());
    assert!(db.create_vertex(&v));
    assert_eq!(db.get(&specific(v.id)).unwrap(), vec![QueryOutputValue::Vertices(vec![v])]);
}

#[test]
fn created_edge_is_seen_from_both_ends() {
    let db = two_vertices_one_edge();
    assert!(edges(&db, &Query::AllEdge).contains(&ab()));
    assert!(edges(&db, &specific(A).outbound().unwrap()).contains(&ab()));
    assert!(edges(&db, &specific(B).inbound().unwrap()).contains(&ab()));
    assert_eq!(edges(&db, &specific(B).outbound().unwrap()), vec![]);
}

#[test]
fn edge_needs_both_endpoints_and_is_unique() {
    let mut db = two_vertices_one_edge();
    assert!(!db.create_edge(&Edge::new(A, et(), C)));
    assert!(!db.create_edge(&ab()));
    assert_eq!(count(&db, Query::AllEdge), 1);
}

#[test]
fn property_value_lookup_matches_property() {
    let mut db = two_vertices_one_edge();
    db.index_property(&name("color"));
    db.set_properties(&specific(A), &name("color"), &json("\"red\"")).unwrap();
    db.set_properties(&specific(B), &name("color"), &json("\"blue\"")).unwrap();
    let red = Query::VertexWithPropertyValue(VertexWithPropertyValueQuery {
        name: name("color"),
        value: json(" \"red\" "),
    });
    assert_eq!(vertices(&db, &red), vec![Vertex::with_id(A, vt())]);
    // Overwriting moves the vertex to the other value.
    db.set_properties(&specific(A), &name("color"), &json("\"blue\"")).unwrap();
    assert_eq!(vertices(&db, &red), vec![]);
    let present = Query::VertexWithPropertyPresence(VertexWithPropertyPresenceQuery { name: name("color") });
    assert_eq!(vertices(&db, &present).len(), 2);
}

#[test]
fn index_follows_mutations() {
    let mut db = two_vertices_one_edge();
    db.index_property(&name("color"));
    db.set_properties(&specific(A), &name("color"), &json("\"red\"")).unwrap();
    db.set_properties(&specific(B), &name("color"), &json("\"red\"")).unwrap();
    db.set_properties(&Query::AllEdge, &name("color"), &json("\"red\"")).unwrap();
    let red = Query::VertexWithPropertyValue(VertexWithPropertyValueQuery {
        name: name("color"),
        value: json("\"red\""),
    });
    let red_edges = Query::EdgeWithPropertyValue(EdgeWithPropertyValueQuery {
        name: name("color"),
        value: json("\"red\""),
    });
    assert_eq!(vertices(&db, &red), vec![Vertex::with_id(A, vt()), Vertex::with_id(B, vt())]);
    assert_eq!(edges(&db, &red_edges), vec![ab()]);
    db.delete(&specific(B).property(name("color")).unwrap()).unwrap();
    assert_eq!(vertices(&db, &red), vec![Vertex::with_id(A, vt())]);
    db.delete(&specific(A)).unwrap();
    assert_eq!(vertices(&db, &red), vec![]);
    assert_eq!(edges(&db, &red_edges), vec![]);
    let present = Query::EdgeWithPropertyPresence(EdgeWithPropertyPresenceQuery { name: name("color") });
    assert_eq!(edges(&db, &present), vec![]);
}

#[test]
fn pipe_property_filters() {
    let mut db = two_vertices_one_edge();
    db.set_properties(&specific(A), &name("color"), &json("\"red\"")).unwrap();
    let q = Query::AllVertex.with_property(name("color")).unwrap();
    assert_eq!(db.get(&q), Err(Error::NotIndexed));
    db.index_property(&name("color"));
    assert_eq!(vertices(&db, &q), vec![Vertex::with_id(A, vt())]);
    let q = Query::AllVertex.without_property(name("color")).unwrap();
    assert_eq!(vertices(&db, &q), vec![Vertex::with_id(B, vt())]);
    let q = Query::AllVertex.with_property_not_equal_to(name("color"), json("\"red\"")).unwrap();
    assert_eq!(vertices(&db, &q), vec![Vertex::with_id(B, vt())]);
    let q = Query::AllVertex.with_property_equal_to(name("color"), json("\"red\"")).unwrap();
    assert_eq!(vertices(&db, &q), vec![Vertex::with_id(A, vt())]);
}

#[test]
fn create_vertex_twice() {
    let mut db = MemoryDatastore::new();
    let v = Vertex::with_id(A, vt());
    assert!(db.create_vertex(&v));
    assert!(!db.create_vertex(&v));
    assert!(!db.create_vertex(&Vertex::with_id(A, name("other"))));
    assert_eq!(vertices(&db, &Query::AllVertex), vec![v]);
}

#[test]
fn delete_twice_is_delete_once() {
    let mut db = two_vertices_one_edge();
    db.delete(&specific(A)).unwrap();
    let once = (vertices(&db, &Query::AllVertex), edges(&db, &Query::AllEdge));
    db.delete(&specific(A)).unwrap();
    assert_eq!((vertices(&db, &Query::AllVertex), edges(&db, &Query::AllEdge)), once);
    assert_eq!(once.0, vec![Vertex::with_id(B, vt())]);
}

#[test]
fn same_mutations_same_state() {
    let items = vec![
        BulkInsertItem::Vertex(Vertex::with_id(B, vt())),
        BulkInsertItem::Vertex(Vertex::with_id(A, vt())),
        BulkInsertItem::Edge(Edge::new(A, et(), B)),
        BulkInsertItem::Edge(Edge::new(A, et(), C)),
        BulkInsertItem::VertexProperty(A, name("n"), json("1")),
        BulkInsertItem::VertexProperty(C, name("n"), json("1")),
        BulkInsertItem::EdgeProperty(ab(), name("w"), json("[1,2]")),
        BulkInsertItem::EdgeProperty(ab(), name("x"), json("null")),
    ];
    let mut one = MemoryDatastore::new();
    let mut two = MemoryDatastore::new();
    one.bulk_insert(&items);
    two.bulk_insert(&items);
    let all = Query::AllVertex.properties().unwrap();
    assert_eq!(one.get(&all).unwrap(), two.get(&all).unwrap());
    assert_eq!(
        last(&one, &all),
        QueryOutputValue::VertexProperties(vec![
            VertexProperties::new(Vertex::with_id(A, vt()), vec![NamedProperty::new(name("n"), json("1"))]),
        ])
    );
    assert_eq!(edges(&one, &Query::AllEdge), vec![ab()]);
    assert_eq!(
        last(&one, &Query::AllEdge.properties().unwrap()),
        QueryOutputValue::EdgeProperties(vec![EdgeProperties::new(
            ab(),
            vec![
                NamedProperty::new(name("w"), json("[1, 2]")),
                NamedProperty::new(name("x"), Json::null()),
            ]
        )])
    );
}

#[test]
fn all_properties_leave_out_owners_without_any() {
    let mut db = MemoryDatastore::new();
    let t = name("a_vertex");
    for id in [A, B, C] {
        assert!(db.create_vertex(&Vertex::with_id(id, t.clone())));
    }
    db.set_properties(&specific(B), &name("a"), &json("false")).unwrap();
    db.set_properties(&specific(B), &name("b"), &json("true")).unwrap();
    assert_eq!(
        last(&db, &specific(B).properties().unwrap()),
        QueryOutputValue::VertexProperties(vec![VertexProperties::new(
            Vertex::with_id(B, t.clone()),
            vec![NamedProperty::new(name("a"), json("false")), NamedProperty::new(name("b"), json("true"))]
        )])
    );
    assert_eq!(last(&db, &specific(A).properties().unwrap()), QueryOutputValue::VertexProperties(vec![]));
    assert_eq!(last(&db, &Query::AllEdge.properties().unwrap()), QueryOutputValue::EdgeProperties(vec![]));
}

#[test]
fn bulk_insert_stores_null_values() {
    let mut db = two_vertices_one_edge();
    db.bulk_insert(&vec![
        BulkInsertItem::VertexProperty(A, name("p"), Json::null()),
        BulkInsertItem::VertexProperty(C, name("p"), Json::null()),
    ]);
    assert_eq!(
        last(&db, &Query::AllVertex.properties().unwrap()),
        QueryOutputValue::VertexProperties(vec![VertexProperties::new(
            Vertex::with_id(A, vt()),
            vec![NamedProperty::new(name("p"), Json::null())]
        )])
    );
}

#[test]
fn create_vertex_with_chosen_id() {
    let mut db = MemoryDatastore::new();
    assert_eq!(db.create_vertex_with_id(A, vt()), Ok(A));
    assert_eq!(db.create_vertex_with_id(A, name("other")), Err(Error::UuidTaken));
    assert_eq!(vertices(&db, &Query::AllVertex), vec![Vertex::with_id(A, vt())]);
}

#[test]
fn edges_are_listed_in_key_order() {
    let mut db = MemoryDatastore::new();
    for id in [A, B, C] {
        assert!(db.create_vertex(&Vertex::with_id(id, vt())));
    }
    assert!(db.create_edge(&Edge::new(B, name("b"), A)));
    assert!(db.create_edge(&Edge::new(A, name("b"), C)));
    assert!(db.create_edge(&Edge::new(A, name("b"), B)));
    assert!(db.create_edge(&Edge::new(A, name("a"), C)));
    assert!(db.create_edge(&Edge::new(A, name("ab"), A)));
    assert_eq!(
        edges(&db, &Query::AllEdge),
        vec![
            Edge::new(A, name("a"), C),
            Edge::new(A, name("ab"), A),
            Edge::new(A, name("b"), B),
            Edge::new(A, name("b"), C),
            Edge::new(B, name("b"), A),
        ]
    );
    assert_eq!(
        edges(&db, &pipe(specific(A), EdgeDirection::Outbound, 2, None)),
        vec![Edge::new(A, name("a"), C), Edge::new(A, name("ab"), A)]
    );
    // Coming in, the order is by type and then by outbound id.
    assert!(db.create_edge(&Edge::new(B, name("a"), C)));
    assert_eq!(
        edges(&db, &specific(C).inbound().unwrap()),
        vec![Edge::new(A, name("a"), C), Edge::new(B, name("a"), C), Edge::new(A, name("b"), C)]
    );
    let tables = db.to_tables();
    assert_eq!(tables.reversed_edges.len(), tables.edges.len());
    assert_eq!(tables.reversed_edges[0], Edge::new(A, name("ab"), A));
}

#[test]
fn database_facade() {
    let mut db = Database::new(MemoryDatastore::default());
    assert!(db.create_vertex(&Vertex::with_id(A, vt())));
    assert!(db.create_vertex(&Vertex::with_id(B, vt())));
    assert!(db.create_edge(&ab()));
    db.index_property(&name("w"));
    db.set_properties(&Query::AllEdge, &name("w"), &json("1")).unwrap();
    let q = Query::AllEdge.with_property_equal_to(name("w"), json("1")).unwrap();
    assert_eq!(db.get(&q).unwrap(), vec![QueryOutputValue::Edges(vec![ab()])]);
    db.delete(&Query::AllVertex).unwrap();
    assert_eq!(db.get(&Query::AllEdge).unwrap(), vec![QueryOutputValue::Edges(vec![])]);
    assert_eq!(db.into_datastore().to_tables().edge_properties.len(), 0);
}

#[test]
fn tables_round_trip() {
    let mut db = two_vertices_one_edge();
    db.index_property(&name("color"));
    db.set_properties(&specific(A), &name("color"), &json("\"red\"")).unwrap();
    db.set_properties(&Query::AllEdge, &name("w"), &json("2.5")).unwrap();
    let copy = MemoryDatastore::from_tables(db.to_tables(), Some("image".to_string())).unwrap();
    assert_eq!(copy.path(), Some("image"));
    for q in [Query::AllVertex.properties().unwrap(), Query::AllEdge.properties().unwrap()] {
        assert_eq!(copy.get(&q).unwrap(), db.get(&q).unwrap());
    }
    let red = Query::VertexWithPropertyValue(VertexWithPropertyValueQuery {
        name: name("color"),
        value: json("\"red\""),
    });
    assert_eq!(copy.get(&red).unwrap(), db.get(&red).unwrap());
}

#[test]
fn tables_breaking_invariants_are_refused() {
    let mut bad = two_vertices_one_edge().to_tables();
    bad.edges.push(Edge::new(A, et(), C));
    assert!(matches!(
        MemoryDatastore::from_tables(bad, None),
        Err(Error::Validation(ValidationError::InvalidValue))
    ));
    let mut unsorted = two_vertices_one_edge().to_tables();
    unsorted.vertices.reverse();
    assert!(MemoryDatastore::from_tables(unsorted, None).is_err());
    let mut lopsided = two_vertices_one_edge().to_tables();
    lopsided.reversed_edges.clear();
    assert!(MemoryDatastore::from_tables(lopsided, None).is_err());
    let mut twice = two_vertices_one_edge().to_tables();
    twice.indexed.push(name("x"));
    twice.indexed.push(name("x"));
    assert!(MemoryDatastore::from_tables(twice, None).is_err());
}

#[test]
fn vertices_are_listed_in_id_order() {
    let mut db = MemoryDatastore::new();
    for id in [C, A, B] {
        assert!(db.create_vertex(&Vertex::with_id(id, vt())));
    }
    let ids: Vec<u128> = vertices(&db, &Query::AllVertex).iter().map(|v| v.id).collect();
    assert_eq!(ids, vec![A, B, C]);
    let q = Query::RangeVertex(RangeVertexQuery { limit: 1, t: None, start_id: Some(A + 1) });
    assert_eq!(vertices(&db, &q), vec![Vertex::with_id(B, vt())]);
}

#[test]
fn range_from_max_id_is_empty() {
    let db = two_vertices_one_edge();
    let q = Query::RangeVertex(RangeVertexQuery { limit: 10, t: None, start_id: Some(u128::MAX) });
    assert_eq!(vertices(&db, &q), vec![]);
    let q = Query::RangeVertex(RangeVertexQuery { limit: 10, t: None, start_id: Some(B) });
    assert_eq!(vertices(&db, &q), vec![Vertex::with_id(B, vt())]);
}

#[test]
fn null_property_value_is_refused() {
    let mut db = two_vertices_one_edge();
    db.set_properties(&specific(A), &name("color"), &json("\"red\"")).unwrap();
    assert_eq!(
        db.set_properties(&specific(A), &name("color"), &Json::null()),
        Err(Error::Validation(ValidationError::NullValue))
    );
    assert_eq!(
        last(&db, &specific(A).property(name("color")).unwrap()),
        QueryOutputValue::VertexProperties(vec![VertexProperties::new(
            Vertex::with_id(A, vt()),
            vec![NamedProperty::new(name("color"), json("\"red\""))]
        )])
    );
}

#[test]
fn zero_limit_is_empty() {
    let db = two_vertices_one_edge();
    let q = Query::RangeVertex(RangeVertexQuery { limit: 0, t: None, start_id: None });
    assert_eq!(vertices(&db, &q), vec![]);
    assert_eq!(edges(&db, &pipe(specific(A), EdgeDirection::Outbound, 0, None)), vec![]);
    let q = pipe(Query::AllEdge, EdgeDirection::Outbound, 0, None);
    assert_eq!(vertices(&db, &q), vec![]);
}

#[test]
fn range_and_pipe_limits_and_types() {
    let mut db = two_vertices_one_edge();
    assert!(db.create_vertex(&Vertex::with_id(C, name("other"))));
    assert!(db.create_edge(&Edge::new(A, name("other_edge"), C)));
    let q = Query::RangeVertex(RangeVertexQuery { limit: 1, t: None, start_id: None });
    assert_eq!(vertices(&db, &q), vec![Vertex::with_id(A, vt())]);
    let q = Query::RangeVertex(RangeVertexQuery { limit: 10, t: Some(name("other")), start_id: None });
    assert_eq!(vertices(&db, &q), vec![Vertex::with_id(C, name("other"))]);
    let q = pipe(specific(A), EdgeDirection::Outbound, 10, Some(name("other_edge")));
    assert_eq!(edges(&db, &q), vec![Edge::new(A, name("other_edge"), C)]);
    // In key order "other_edge" comes before "test_edge_type".
    let q = pipe(specific(A), EdgeDirection::Outbound, 1, None);
    assert_eq!(edges(&db, &q), vec![Edge::new(A, name("other_edge"), C)]);
    let q = pipe(Query::AllEdge, EdgeDirection::Inbound, 10, Some(vt()));
    assert_eq!(vertices(&db, &q), vec![Vertex::with_id(B, vt())]);
}

#[test]
fn unsupported_shapes() {
    assert_eq!(Query::AllVertex.count().unwrap().outbound(), Err(Error::Unsupported));
    assert_eq!(Query::AllVertex.count().unwrap().count(), Err(Error::Unsupported));
    let mut db = two_vertices_one_edge();
    assert_eq!(db.delete(&Query::AllVertex.count().unwrap()), Err(Error::Unsupported));
    let props = Query::AllVertex.properties().unwrap();
    assert_eq!(db.set_properties(&props, &name("x"), &json("1")), Err(Error::Unsupported));
    assert_eq!(count(&db, Query::AllVertex), 2);
}

#[test]
fn delete_properties_by_query() {
    let mut db = two_vertices_one_edge();
    db.set_properties(&specific(A), &name("a"), &json("1")).unwrap();
    db.set_properties(&specific(A), &name("b"), &json("2")).unwrap();
    db.delete(&specific(A).property(name("a")).unwrap()).unwrap();
    assert_eq!(
        last(&db, &specific(A).properties().unwrap()),
        QueryOutputValue::VertexProperties(vec![VertexProperties::new(
            Vertex::with_id(A, vt()),
            vec![NamedProperty::new(name("b"), json("2"))]
        )])
    );
}

#[test]
fn properties_are_listed_by_name() {
    let mut db = two_vertices_one_edge();
    for n in ["b", "c", "a"] {
        db.set_properties(&specific(A), &name(n), &json("1")).unwrap();
        db.set_properties(&Query::AllEdge, &name(n), &json("2")).unwrap();
    }
    db.set_properties(&specific(A), &name("b"), &json("3")).unwrap();
    assert_eq!(
        last(&db, &specific(A).properties().unwrap()),
        QueryOutputValue::VertexProperties(vec![VertexProperties::new(
            Vertex::with_id(A, vt()),
            vec![
                NamedProperty::new(name("a"), json("1")),
                NamedProperty::new(name("b"), json("3")),
                NamedProperty::new(name("c"), json("1")),
            ]
        )])
    );
    let names: Vec<String> = match last(&db, &Query::AllEdge.properties().unwrap()) {
        QueryOutputValue::EdgeProperties(mut v) => v.remove(0).props.iter().map(|p| p.name.to_string()).collect(),
        other => panic!("expected edge properties, got {:?}", other),
    };
    assert_eq!(names, vec!["a", "b", "c"]);
}

#[test]
fn delete_edges_by_query() {
    let mut db = two_vertices_one_edge();
    db.delete(&Query::SpecificEdge(SpecificEdgeQuery::single(ab()))).unwrap();
    assert_eq!(edges(&db, &Query::AllEdge), vec![]);
    assert_eq!(count(&db, Query::AllVertex), 2);
}

#[test]
fn json_values_are_canonical() {
    assert_eq!(json("{ \"b\": 1, \"a\": [true, null] }").as_str(), "{\"a\":[true,null],\"b\":1}");
    assert_eq!(Json::parse("{"), Err(Error::Validation(ValidationError::InvalidValue)));
    assert!(json(" null ").is_null());
    assert!(!json("0").is_null());
    assert_eq!(Json::null().as_str(), "null");
}

#[test]
fn random_ids_differ() {
    let a = Vertex::new(vt());
    let b = Vertex::new(vt());
    assert_ne!(a.id, b.id);
    for id in [a.id, b.id] {
        assert_eq!((id >> 76) & 0xf, 4);
        assert_eq!((id >> 62) & 0x3, 2);
    }
    let mut db = MemoryDatastore::new();
    let id = db.create_vertex_from_type(vt()).unwrap();
    assert_eq!(vertices(&db, &specific(id)), vec![Vertex::with_id(id, vt())]);
}

#[test]
fn error_messages() {
    assert_eq!(Error::NotIndexed.message(), "property not indexed");
    assert_eq!(Error::UuidTaken.message(), "UUID already taken");
    assert_eq!(Error::Unsupported.message(), "query not supported");
    assert_eq!(Error::Validation(ValidationError::NullValue).message(), "null property value");
}
