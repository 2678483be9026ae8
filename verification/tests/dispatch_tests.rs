use spark_connect_proxy::dispatch::dispatch_step;
use spark_connect_proxy::dispatch::is_grpc_path;
use spark_connect_proxy::dispatch::upstream_target;
use spark_connect_proxy::dispatch::ConnState;
use spark_connect_proxy::dispatch::GrpcDecision;
use spark_connect_proxy::store::InMemorySessionStore;
use spark_connect_proxy::store::SessionStore;

fn store_with_session(token: &str, addr: Option<&str>) -> InMemorySessionStore {
    let mut store = InMemorySessionStore::new();
    store.create_session("alice", token.to_string());
    if let Some(a) = addr {
        store.set_session_addr(token, a.to_string());
    }
    store
}

#[test]
fn grpc_path_classification() {
    assert!(is_grpc_path("/spark.connect.SparkConnectService/ExecutePlan"));
    assert!(is_grpc_path("/spark.connect.SparkConnectService"));
    assert!(!is_grpc_path("/sessions"));
    assert!(!is_grpc_path("/callback"));
    assert!(!is_grpc_path("/"));
    assert!(!is_grpc_path(""));
}

#[test]
fn missing_header_rejected_without_allocation() {
    let store = store_with_session("tok", Some("127.0.0.1:45001"));
    let mut state = ConnState::new();
    let d = dispatch_step(&mut state, &store, None);
    assert!(matches!(d, GrpcDecision::Reject(400)));
    assert!(state.upstream_addr.is_none());
}

#[test]
fn malformed_header_rejected_without_allocation() {
    let store = store_with_session("tok", Some("127.0.0.1:45001"));
    let mut state = ConnState::new();
    let d = dispatch_step(&mut state, &store, Some("Basic dXNlcg=="));
    assert!(matches!(d, GrpcDecision::Reject(400)));
    let d = dispatch_step(&mut state, &store, Some("Bearer"));
    assert!(matches!(d, GrpcDecision::Reject(400)));
    assert!(state.upstream_addr.is_none());
}

#[test]
fn unknown_token_not_found() {
    let store = store_with_session("tok", Some("127.0.0.1:45001"));
    let mut state = ConnState::new();
    let d = dispatch_step(&mut state, &store, Some("Bearer NOPE"));
    assert!(matches!(d, GrpcDecision::Reject(404)));
    assert!(state.upstream_addr.is_none());
}

#[test]
fn session_without_addr_not_found() {
    // The backend has not called back yet: reject, allocate nothing.
    let store = store_with_session("tok", None);
    let mut state = ConnState::new();
    let d = dispatch_step(&mut state, &store, Some("Bearer tok"));
    assert!(matches!(d, GrpcDecision::Reject(404)));
    assert!(state.upstream_addr.is_none());
}

#[test]
fn first_request_connects_then_reuses() {
    let store = store_with_session("tok", Some("127.0.0.1:45001"));
    let mut state = ConnState::new();
    let d = dispatch_step(&mut state, &store, Some("Bearer tok"));
    match d {
        GrpcDecision::Connect(addr) => assert_eq!(addr, "127.0.0.1:45001"),
        _ => panic!("expected a connect decision"),
    }
    assert_eq!(state.upstream_addr.as_deref(), Some("127.0.0.1:45001"));
    // A second request on the same connection reuses the same upstream.
    let d = dispatch_step(&mut state, &store, Some("Bearer tok"));
    assert!(matches!(d, GrpcDecision::Forward));
    assert_eq!(state.upstream_addr.as_deref(), Some("127.0.0.1:45001"));
    // Even a second request without a header forwards: auth happens on
    // first-request initialization only.
    let d = dispatch_step(&mut state, &store, None);
    assert!(matches!(d, GrpcDecision::Forward));
}

#[test]
fn fresh_connection_establishes_fresh_upstream() {
    // After an inbound connection is dropped, a new connection with the
    // same token starts from an empty slot and connects again.
    let store = store_with_session("tok", Some("127.0.0.1:45001"));
    let mut first = ConnState::new();
    let d = dispatch_step(&mut first, &store, Some("Bearer tok"));
    assert!(matches!(d, GrpcDecision::Connect(_)));
    drop(first);
    let mut second = ConnState::new();
    let d = dispatch_step(&mut second, &store, Some("Bearer tok"));
    assert!(matches!(d, GrpcDecision::Connect(_)));
}

#[test]
fn deleted_session_token_not_found() {
    let mut store = store_with_session("tok", Some("127.0.0.1:45001"));
    store.delete_session("alice", 0);
    let mut state = ConnState::new();
    let d = dispatch_step(&mut state, &store, Some("Bearer tok"));
    assert!(matches!(d, GrpcDecision::Reject(404)));
}

#[test]
fn upstream_target_rewrite() {
    assert_eq!(
        upstream_target("127.0.0.1:45001", Some("/spark.connect.SparkConnectService/ExecutePlan")),
        "http://127.0.0.1:45001/spark.connect.SparkConnectService/ExecutePlan"
    );
    assert_eq!(upstream_target("127.0.0.1:45001", None), "http://127.0.0.1:45001/");
}
