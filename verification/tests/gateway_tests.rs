use graph_gateway::auth::{check_authorized, Authorizer, JWTSubAuthorizer, NoOpAuthorizer, Request};
use graph_gateway::config::{DtoConfig, DtoResolver, DtoSingleton, DtoVector};
use graph_gateway::dto::DTOFactory;
use graph_gateway::forwarder::{
    build_request_body, interpret_response, ForwardError, HttpForwarder,
};
use graph_gateway::query::{get_timestamp, process_query_template, Cond, Filter};
use graph_gateway::root::Root;
use graph_gateway::subgraph::{process_context, process_field_node, SelectionNode};
use graph_gateway::temporal::{singleton, vector, ResolveError};
use graph_gateway::value::{val_eq, Val};

fn obj(entries: Vec<(&str, Val)>) -> Val {
    Val::Obj(entries.into_iter().map(|(k, v)| (k.to_string(), v)).collect())
}

fn s(v: &str) -> Val {
    Val::Str(v.to_string())
}

fn doc(id: &str, created_at: i64) -> Val {
    obj(vec![("id", s(id)), ("createdAt", Val::Int(created_at))])
}

fn get<'a>(v: &'a Val, key: &str) -> &'a Val {
    v.get_field(key).expect("field missing")
}

fn as_str(v: &Val) -> &str {
    match v {
        Val::Str(x) => x.as_str(),
        _ => panic!("not a string"),
    }
}

fn as_int(v: &Val) -> i64 {
    match v {
        Val::Int(x) => *x,
        _ => panic!("not an integer"),
    }
}

fn bearer_request(token: &str) -> Request {
    Request::new(vec![("authorization".to_string(), format!("Bearer {}", token))])
}

const TOKEN_HS_ALICE: &str = "eyJhbGciOiJIUzI1NiIsInR5cCI6IkpXVCJ9.eyJzdWIiOiJhbGljZSJ9.AAAA";
const TOKEN_RS_ALICE: &str = "eyJhbGciOiJSUzI1NiIsInR5cCI6IkpXVCJ9.eyJzdWIiOiJhbGljZSJ9.BBBB";
const TOKEN_NO_SUB: &str = "eyJhbGciOiJIUzI1NiIsInR5cCI6IkpXVCJ9.eyJuYW1lIjoiYm9iIn0.AAAA";

#[test]
fn absent_readers_always_authorized() {
    let d = doc("e1", 10);
    assert!(check_authorized(&Some("anyone".to_string()), &d));
    assert!(check_authorized(&None, &d));
    let noop = NoOpAuthorizer;
    let req = Request::new(vec![]);
    assert!(noop.is_authorized(&req, &d));
}

#[test]
fn empty_readers_always_authorized() {
    let d = obj(vec![("id", s("e1")), ("authorized_readers", Val::Arr(vec![]))]);
    assert!(check_authorized(&Some("anyone".to_string()), &d));
    assert!(check_authorized(&None, &d));
}

#[test]
fn single_reader_authorization() {
    let d = obj(vec![
        ("id", s("e1")),
        ("authorized_readers", Val::Arr(vec![s("alice")])),
    ]);
    assert!(check_authorized(&Some("alice".to_string()), &d));
    assert!(!check_authorized(&Some("mallory".to_string()), &d));
    assert!(check_authorized(&None, &d));
}

#[test]
fn jwt_subject_extracted_without_signature_check() {
    let auth = JWTSubAuthorizer;
    let req = bearer_request(TOKEN_HS_ALICE);
    assert_eq!(auth.get_credential(&req), Some("alice".to_string()));
}

#[test]
fn jwt_subject_extracted_with_wrong_algorithm() {
    let auth = JWTSubAuthorizer;
    let req = bearer_request(TOKEN_RS_ALICE);
    assert_eq!(auth.get_credential(&req), Some("alice".to_string()));
}

#[test]
fn jwt_credential_absent_cases() {
    let auth = JWTSubAuthorizer;
    assert_eq!(auth.get_credential(&Request::new(vec![])), None);
    let req = Request::new(vec![("authorization".to_string(), "Basic zzz".to_string())]);
    assert_eq!(auth.get_credential(&req), None);
    assert_eq!(auth.get_credential(&bearer_request(TOKEN_NO_SUB)), None);
    assert_eq!(auth.get_credential(&bearer_request("not-a-token")), None);
}

#[test]
fn jwt_is_authorized_uses_subject() {
    let auth = JWTSubAuthorizer;
    let d = obj(vec![
        ("id", s("e1")),
        ("authorized_readers", Val::Arr(vec![s("alice")])),
    ]);
    assert!(auth.is_authorized(&bearer_request(TOKEN_HS_ALICE), &d));
    let d2 = obj(vec![
        ("id", s("e1")),
        ("authorized_readers", Val::Arr(vec![s("bob")])),
    ]);
    assert!(!auth.is_authorized(&bearer_request(TOKEN_HS_ALICE), &d2));
}

#[test]
fn secure_data_stamps_writer() {
    let auth = JWTSubAuthorizer;
    let req = bearer_request(TOKEN_HS_ALICE);
    let stamped = auth.secure_data(&req, doc("e1", 10));
    let readers = get(&stamped, "authorized_readers");
    match readers {
        Val::Arr(items) => {
            assert_eq!(items.len(), 1);
            assert_eq!(as_str(&items[0]), "alice");
        }
        _ => panic!("readers not an array"),
    }
    // Without a credential the document is unchanged.
    let noop = NoOpAuthorizer;
    let d = doc("e1", 10);
    let same = noop.secure_data(&Request::new(vec![]), doc("e1", 10));
    assert!(val_eq(&d, &same));
}

#[test]
fn secure_read_appends_membership_clause() {
    let auth = JWTSubAuthorizer;
    let req = bearer_request(TOKEN_HS_ALICE);
    let mut query = Filter { entries: vec![] };
    auth.secure_read(&req, &mut query);
    assert_eq!(query.entries.len(), 1);
    assert_eq!(query.entries[0].0, "authorized_readers");
    match &query.entries[0].1 {
        Cond::AnyOf(vs) => {
            assert_eq!(vs.len(), 1);
            assert_eq!(as_str(&vs[0]), "alice");
        }
        _ => panic!("unexpected condition"),
    }
    // No credential: the query is untouched.
    let mut query2 = Filter { entries: vec![] };
    NoOpAuthorizer.secure_read(&Request::new(vec![]), &mut query2);
    assert_eq!(query2.entries.len(), 0);
}

#[test]
fn request_header_lookup() {
    let req = Request::new(vec![
        ("accept".to_string(), "application/json".to_string()),
        ("authorization".to_string(), "Bearer x".to_string()),
    ]);
    assert_eq!(req.get_header("authorization"), Some(&"Bearer x".to_string()));
    assert_eq!(req.get_header("cookie"), None);
}

#[test]
fn template_expansion_builds_filter() {
    let args = obj(vec![("id", s("foo"))]);
    let filter = process_query_template(&args, "{\"id\": \"{{id}}\"}").expect("expansion failed");
    assert_eq!(filter.entries.len(), 1);
    assert_eq!(filter.entries[0].0, "id");
    match &filter.entries[0].1 {
        Cond::Eq(v) => assert_eq!(as_str(v), "foo"),
        _ => panic!("unexpected condition"),
    }
}

#[test]
fn template_expansion_reports_errors() {
    let args = obj(vec![]);
    assert!(process_query_template(&args, "{{#broken").is_err());
    assert!(process_query_template(&args, "not json at all").is_err());
}

#[test]
fn get_timestamp_prefers_at_argument() {
    let args = obj(vec![("at", Val::Int(15))]);
    assert_eq!(get_timestamp(&args, 999), 15);
    assert_eq!(get_timestamp(&obj(vec![]), 999), 999);
}

#[test]
fn vector_snapshot_scenario() {
    // Two versions of e1 (createdAt 10 and 20) and one of e2 (createdAt 5).
    let docs = vec![doc("e1", 10), doc("e1", 20), doc("e2", 5)];
    let args = obj(vec![("at", Val::Int(15))]);
    let out = vector(&docs, "{}", &args, 999, None, &NoOpAuthorizer).expect("vector failed");
    assert_eq!(out.len(), 2);
    assert_eq!(as_str(get(&out[0], "id")), "e1");
    assert_eq!(as_int(get(&out[0], "createdAt")), 10);
    assert_eq!(as_str(get(&out[1], "id")), "e2");
    assert_eq!(as_int(get(&out[1], "createdAt")), 5);
}

#[test]
fn vector_takes_latest_version_before_at() {
    let docs = vec![doc("e1", 10), doc("e1", 20), doc("e1", 30)];
    let args = obj(vec![("at", Val::Int(25))]);
    let out = vector(&docs, "{}", &args, 999, None, &NoOpAuthorizer).expect("vector failed");
    assert_eq!(out.len(), 1);
    assert_eq!(as_int(get(&out[0], "createdAt")), 20);
}

#[test]
fn vector_is_repeatable() {
    let docs = vec![doc("e1", 10), doc("e1", 20), doc("e2", 5), doc("e3", 40)];
    let args = obj(vec![("at", Val::Int(30))]);
    let a = vector(&docs, "{}", &args, 999, None, &NoOpAuthorizer).expect("vector failed");
    let b = vector(&docs, "{}", &args, 999, None, &NoOpAuthorizer).expect("vector failed");
    assert_eq!(a.len(), b.len());
    for i in 0..a.len() {
        assert!(val_eq(&a[i], &b[i]));
    }
}

#[test]
fn vector_filters_unauthorized_documents() {
    let mut d1 = doc("e1", 10);
    d1 = d1.set_field("authorized_readers", Val::Arr(vec![s("bob")]));
    let d2 = doc("e2", 10);
    let docs = vec![d1, d2];
    let args = obj(vec![("at", Val::Int(15))]);
    let req = bearer_request(TOKEN_HS_ALICE);
    let out = vector(&docs, "{}", &args, 999, Some(&req), &JWTSubAuthorizer)
        .expect("vector failed");
    assert_eq!(out.len(), 1);
    assert_eq!(as_str(get(&out[0], "id")), "e2");
}

#[test]
fn vector_reports_template_error() {
    let docs = vec![doc("e1", 10)];
    let args = obj(vec![]);
    let r = vector(&docs, "{{#broken", &args, 999, None, &NoOpAuthorizer);
    assert!(matches!(r, Err(ResolveError::TemplateExpansion(_))));
}

#[test]
fn singleton_finds_matching_document() {
    let docs = vec![
        obj(vec![("id", s("a")), ("payload", s("first"))]),
        obj(vec![("id", s("b")), ("payload", s("second"))]),
    ];
    let args = obj(vec![("id", s("b"))]);
    let found = singleton(&docs, "{\"id\": \"{{id}}\"}", &args, None, &NoOpAuthorizer)
        .expect("singleton failed");
    assert_eq!(as_str(get(&found, "payload")), "second");
}

#[test]
fn singleton_not_found_and_denied_look_alike() {
    let mut secret = obj(vec![("id", s("a")), ("payload", s("hidden"))]);
    secret = secret.set_field("authorized_readers", Val::Arr(vec![s("bob")]));
    let docs = vec![secret];
    let req = bearer_request(TOKEN_HS_ALICE);
    let args_a = obj(vec![("id", s("a"))]);
    let denied = singleton(&docs, "{\"id\": \"{{id}}\"}", &args_a, Some(&req), &JWTSubAuthorizer);
    assert!(matches!(denied, Err(ResolveError::NotFound)));
    let args_z = obj(vec![("id", s("z"))]);
    let missing = singleton(&docs, "{\"id\": \"{{id}}\"}", &args_z, Some(&req), &JWTSubAuthorizer);
    assert!(matches!(missing, Err(ResolveError::NotFound)));
}

#[test]
fn dto_factory_preserves_keys() {
    let factory = DTOFactory::new(vec![DtoResolver {
        name: "coop".to_string(),
        query_name: "getById".to_string(),
        url: "http://coop.example/graphql".to_string(),
        id: None,
    }]);
    let d = obj(vec![
        ("id", s("chuck")),
        ("eggs", Val::Int(6)),
        ("coop", s("c1")),
    ]);
    let resolved = vec![("coop".to_string(), s("mega"))];
    let filled = factory.fill_one(&d, &resolved);
    match &filled {
        Val::Obj(entries) => {
            assert_eq!(entries.len(), 3);
            assert_eq!(entries[0].0, "id");
            assert_eq!(entries[1].0, "eggs");
            assert_eq!(entries[2].0, "coop");
        }
        _ => panic!("not an object"),
    }
    assert_eq!(as_str(get(&filled, "id")), "chuck");
    assert_eq!(as_int(get(&filled, "eggs")), 6);
    assert_eq!(as_str(get(&filled, "coop")), "mega");
}

#[test]
fn dto_factory_degrades_unresolved_field_to_null() {
    let factory = DTOFactory::new(vec![DtoResolver {
        name: "coop".to_string(),
        query_name: "getById".to_string(),
        url: "http://coop.example/graphql".to_string(),
        id: None,
    }]);
    let d = obj(vec![("id", s("chuck")), ("coop", s("c1"))]);
    let filled = factory.fill_one(&d, &vec![]);
    assert!(matches!(get(&filled, "coop"), Val::Null));
}

#[test]
fn dto_factory_fills_batch_in_order() {
    let factory = DTOFactory::new(vec![]);
    let docs = vec![doc("e1", 10), doc("e2", 20)];
    let resolved = vec![vec![], vec![]];
    let out = factory.fill_many(&docs, &resolved);
    assert_eq!(out.len(), 2);
    assert_eq!(as_str(get(&out[0], "id")), "e1");
    assert_eq!(as_str(get(&out[1], "id")), "e2");
}

#[test]
fn decomposition_round_trip() {
    let set = vec![
        SelectionNode::Field(graph_gateway::subgraph::FieldNode {
            name: "a".to_string(),
            children: vec![],
        }),
        SelectionNode::Field(graph_gateway::subgraph::FieldNode {
            name: "b".to_string(),
            children: vec![SelectionNode::Field(graph_gateway::subgraph::FieldNode {
                name: "c".to_string(),
                children: vec![],
            })],
        }),
    ];
    let q = process_context("x", &set, "q");
    assert_eq!(q, "{ q(id: \"x\") { a b { c } } }");
}

#[test]
fn decomposition_renders_leaf_and_other() {
    let leaf = SelectionNode::Field(graph_gateway::subgraph::FieldNode {
        name: "key".to_string(),
        children: vec![],
    });
    assert_eq!(process_field_node(&leaf), "key");
    assert_eq!(process_field_node(&SelectionNode::Other), "");
}

#[test]
fn request_body_escapes_query() {
    let body = build_request_body("{ q(id: \"x\") { a } }");
    assert_eq!(body, "{\"query\": \"{ q(id: \\\"x\\\") { a } }\"}");
}

#[test]
fn transport_error_on_unreachable_url() {
    let forwarder = HttpForwarder { url: "http://127.0.0.1:9/graphql".to_string() };
    let r = forwarder.forward_query("{ q(id: \"x\") { a } }", "q");
    assert!(matches!(r, Err(ForwardError::Transport(_))));
}

#[test]
fn remote_protocol_error_is_distinct_from_transport() {
    let reply = obj(vec![("errors", Val::Arr(vec![s("boom")]))]);
    let r = interpret_response(&reply, "q");
    assert!(matches!(r, Err(ForwardError::RemoteProtocol(_))));
    assert!(!matches!(r, Err(ForwardError::Transport(_))));
}

#[test]
fn reply_with_errors_and_value_degrades_to_value() {
    let reply = obj(vec![
        ("errors", Val::Arr(vec![s("partial")])),
        ("data", obj(vec![("q", s("value"))])),
    ]);
    let r = interpret_response(&reply, "q").expect("value expected");
    assert_eq!(as_str(&r), "value");
}

#[test]
fn reply_without_value_yields_null() {
    let reply = obj(vec![("data", obj(vec![("other", s("x"))]))]);
    let r = interpret_response(&reply, "q").expect("null expected");
    assert!(matches!(r, Val::Null));
}

#[test]
fn root_dispatches_reads_by_name() {
    let config = DtoConfig {
        singletons: vec![DtoSingleton {
            name: "getById".to_string(),
            query: "{\"id\": \"{{id}}\"}".to_string(),
            id: None,
        }],
        vectors: vec![DtoVector {
            name: "getAll".to_string(),
            query: "{}".to_string(),
        }],
        resolvers: vec![],
    };
    let root = Root::new(config);
    let docs = vec![doc("e1", 10), doc("e1", 20), doc("e2", 5)];
    let args = obj(vec![("id", s("e1")), ("at", Val::Int(15))]);
    let one = root
        .resolve_singleton("getById", &docs, &args, None, &NoOpAuthorizer)
        .expect("singleton failed");
    assert_eq!(as_int(get(&one, "createdAt")), 10);
    let many = root
        .resolve_vector("getAll", &docs, &args, 999, None, &NoOpAuthorizer)
        .expect("vector failed");
    assert_eq!(many.len(), 2);
    let unknown = root.resolve_singleton("nope", &docs, &args, None, &NoOpAuthorizer);
    assert!(matches!(unknown, Err(ResolveError::UnknownField)));
}

#[test]
fn context_binds_factory_and_root() {
    let ctx = graph_gateway::root::Context::new(graph_gateway::config::Graphlette {
        path: "/farm".to_string(),
        mongo: graph_gateway::config::MongoConfig {
            uri: "mongodb://localhost:27017".to_string(),
            collection: "simple".to_string(),
            db: "test_db".to_string(),
            options: graph_gateway::config::MongoOptions { direct_connection: true },
        },
        schema: "farm".to_string(),
        dto_config: DtoConfig {
            singletons: vec![],
            vectors: vec![],
            resolvers: vec![DtoResolver {
                name: "coop".to_string(),
                query_name: "getById".to_string(),
                url: "http://coop.example/graphql".to_string(),
                id: None,
            }],
        },
    });
    assert_eq!(ctx.dto_factory.resolvers.len(), 1);
    assert_eq!(ctx.root.singletons.len(), 0);
}
