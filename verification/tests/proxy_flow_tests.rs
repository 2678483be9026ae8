//! End-to-end flows over the verified core: session creation, the backend
//! callback, and gRPC dispatch, exercised together as the running proxy
//! wires them.

use spark_connect_proxy::auth::BearerToken;
use spark_connect_proxy::auth::TokenAuth;
use spark_connect_proxy::auth::UserAuth;
use spark_connect_proxy::config::ConfigTable;
use spark_connect_proxy::config::SparkVersion;
use spark_connect_proxy::dispatch::dispatch_step;
use spark_connect_proxy::dispatch::is_grpc_path;
use spark_connect_proxy::dispatch::upstream_target;
use spark_connect_proxy::dispatch::ConnState;
use spark_connect_proxy::dispatch::GrpcDecision;
use spark_connect_proxy::launcher::Launcher;
use spark_connect_proxy::routes;
use spark_connect_proxy::store::InMemorySessionStore;

fn launcher() -> Launcher {
    let v = SparkVersion {
        name: "a".to_string(),
        home: "/opt/a".to_string(),
        default: true,
        env: None,
        default_configs: None,
        merge_configs: None,
        override_configs: None,
    };
    Launcher::from_parts(vec![v], "http://10.0.0.5:9000".to_string(), None, None).unwrap()
}

#[test]
fn happy_path_create_callback_dispatch() {
    let mut store = InMemorySessionStore::new();
    let launcher = launcher();
    let user = UserAuth::authorize();

    // POST /sessions with an empty body.
    let (token, _plan) =
        routes::create_session(&mut store, &launcher, &user, None, &ConfigTable::new()).unwrap();

    // The backend stub calls POST /callback with its listening address.
    let header = format!("Bearer {}", token);
    let bearer: BearerToken = TokenAuth::authorize(Some(&header)).unwrap();
    routes::session_callback(&mut store, &bearer, "127.0.0.1:45001".to_string());

    // A gRPC call arrives with the same bearer token.
    let path = "/spark.connect.SparkConnectService/ExecutePlan";
    assert!(is_grpc_path(path));
    let mut conn = ConnState::new();
    let d = dispatch_step(&mut conn, &store, Some(&header));
    let addr = match d {
        GrpcDecision::Connect(a) => a,
        _ => panic!("expected a connect decision"),
    };
    assert_eq!(addr, "127.0.0.1:45001");
    // The backend observes the original path under its own authority.
    assert_eq!(upstream_target(&addr, Some(path)), format!("http://{}{}", addr, path));
}

#[test]
fn pre_callback_grpc_is_not_found() {
    let mut store = InMemorySessionStore::new();
    let launcher = launcher();
    let user = UserAuth::authorize();
    let (token, _plan) =
        routes::create_session(&mut store, &launcher, &user, None, &ConfigTable::new()).unwrap();
    let header = format!("Bearer {}", token);
    let mut conn = ConnState::new();
    let d = dispatch_step(&mut conn, &store, Some(&header));
    assert!(matches!(d, GrpcDecision::Reject(404)));
}

#[test]
fn delete_then_reuse_is_not_found() {
    let mut store = InMemorySessionStore::new();
    let launcher = launcher();
    let user = UserAuth::authorize();
    let (token, _plan) =
        routes::create_session(&mut store, &launcher, &user, None, &ConfigTable::new()).unwrap();
    routes::delete_session(&mut store, &user, 0);
    let header = format!("Bearer {}", token);
    let mut conn = ConnState::new();
    let d = dispatch_step(&mut conn, &store, Some(&header));
    assert!(matches!(d, GrpcDecision::Reject(404)));
}
