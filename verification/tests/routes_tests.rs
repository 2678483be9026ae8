use spark_connect_proxy::auth::BearerToken;
use spark_connect_proxy::auth::parse_bearer;
use spark_connect_proxy::auth::TokenAuth;
use spark_connect_proxy::auth::UserAuth;
use spark_connect_proxy::config::ConfigTable;
use spark_connect_proxy::config::SparkVersion;
use spark_connect_proxy::launcher::Launcher;
use spark_connect_proxy::routes;
use spark_connect_proxy::store::InMemorySessionStore;
use spark_connect_proxy::store::SessionStore;

fn launcher() -> Launcher {
    let v = SparkVersion {
        name: "a".to_string(),
        home: "/opt/a".to_string(),
        default: true,
        env: None,
        default_configs: None,
        merge_configs: None,
        override_configs: None,
    };
    Launcher::from_parts(vec![v], "http://10.0.0.5:8100".to_string(), None, None).unwrap()
}

#[test]
fn user_auth_stub_identity() {
    assert_eq!(UserAuth::authorize().0, "testuser");
}

fn auth_err(header: Option<&str>) -> u16 {
    match TokenAuth::authorize(header) {
        Ok(_) => panic!("authorization should be refused"),
        Err(code) => code,
    }
}

#[test]
fn token_auth_requires_bearer_header() {
    assert_eq!(auth_err(None), 401);
    assert_eq!(auth_err(Some("Basic dXNlcg==")), 401);
    assert_eq!(auth_err(Some("Bearer")), 401);
    match TokenAuth::authorize(Some("Bearer T")) {
        Ok(token) => assert_eq!(token.0, "T"),
        Err(_) => panic!("a well-formed bearer header should be accepted"),
    }
}

#[test]
fn parse_bearer_splits_on_first_space() {
    assert_eq!(parse_bearer("Bearer abc"), Some("abc".to_string()));
    assert_eq!(parse_bearer("Bearer a b"), Some("a b".to_string()));
    assert_eq!(parse_bearer("Bearer "), Some("".to_string()));
    assert_eq!(parse_bearer("Bearer"), None);
    assert_eq!(parse_bearer("Token abc"), None);
    assert_eq!(parse_bearer(""), None);
}

#[test]
fn create_session_returns_uuid_token_and_plan() {
    let mut store = InMemorySessionStore::new();
    let launcher = launcher();
    let user = UserAuth::authorize();
    let (token, plan) =
        routes::create_session(&mut store, &launcher, &user, None, &ConfigTable::new())
            .expect("creation should succeed");
    assert_eq!(token.len(), 36);
    assert_eq!(plan.submit_path, "/opt/a/bin/spark-submit");
    let listed = routes::list_sessions(&store, &user);
    assert_eq!(listed.len(), 1);
    assert_eq!(listed[0].token, token);
    assert!(listed[0].addr.is_none());
}

#[test]
fn create_session_unknown_version_is_internal_error() {
    let mut store = InMemorySessionStore::new();
    let launcher = launcher();
    let user = UserAuth::authorize();
    match routes::create_session(&mut store, &launcher, &user, Some("missing"), &ConfigTable::new())
    {
        Ok(_) => panic!("an unknown version should fail the launch"),
        Err(code) => assert_eq!(code, 500),
    }
    // The orphan session row remains in the store, as the control plane
    // leaves it.
    assert_eq!(routes::list_sessions(&store, &user).len(), 1);
}

#[test]
fn get_session_route_found_and_missing() {
    let mut store = InMemorySessionStore::new();
    let launcher = launcher();
    let user = UserAuth::authorize();
    let (token, _plan) =
        routes::create_session(&mut store, &launcher, &user, None, &ConfigTable::new()).unwrap();
    let s = routes::get_session(&store, &user, 0).expect("session should exist");
    assert_eq!(s.token, token);
    match routes::get_session(&store, &user, 9) {
        Ok(_) => panic!("a missing session should not resolve"),
        Err(code) => assert_eq!(code, 404),
    }
}

#[test]
fn delete_session_route_then_token_gone() {
    let mut store = InMemorySessionStore::new();
    let launcher = launcher();
    let user = UserAuth::authorize();
    let (token, _plan) =
        routes::create_session(&mut store, &launcher, &user, None, &ConfigTable::new()).unwrap();
    routes::delete_session(&mut store, &user, 0);
    assert!(store.get_session_by_token(&token).is_none());
    assert_eq!(routes::list_sessions(&store, &user).len(), 0);
}

#[test]
fn callback_publishes_backend_address() {
    let mut store = InMemorySessionStore::new();
    let launcher = launcher();
    let user = UserAuth::authorize();
    let (token, _plan) =
        routes::create_session(&mut store, &launcher, &user, None, &ConfigTable::new()).unwrap();
    let bearer = BearerToken(token.clone());
    routes::session_callback(&mut store, &bearer, "127.0.0.1:45001".to_string());
    let s = store.get_session_by_token(&token).unwrap();
    assert_eq!(s.addr.as_deref(), Some("127.0.0.1:45001"));
}

#[test]
fn callback_unknown_token_is_noop() {
    let mut store = InMemorySessionStore::new();
    store.create_session("alice", "tok".to_string());
    let bearer = BearerToken("unknown".to_string());
    routes::session_callback(&mut store, &bearer, "127.0.0.1:1".to_string());
    assert!(store.get_session_by_token("tok").unwrap().addr.is_none());
}

#[test]
fn list_versions_route() {
    let launcher = launcher();
    assert_eq!(routes::list_versions(&launcher), vec!["a".to_string()]);
}
