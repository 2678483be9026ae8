use spark_connect_proxy::store::InMemorySessionStore;
use spark_connect_proxy::store::SessionStore;

#[test]
fn create_then_get() {
    let mut store = InMemorySessionStore::new();
    store.create_session("alice", "tok-a".to_string());
    let s = store.get_session("alice", 0).expect("session should exist");
    assert_eq!(s.id, 0);
    assert_eq!(s.token, "tok-a");
    assert!(s.addr.is_none());
}

#[test]
fn get_unknown_user_or_id() {
    let mut store = InMemorySessionStore::new();
    store.create_session("alice", "tok-a".to_string());
    assert!(store.get_session("bob", 0).is_none());
    assert!(store.get_session("alice", 1).is_none());
}

#[test]
fn ids_are_assigned_monotonically() {
    let mut store = InMemorySessionStore::new();
    store.create_session("alice", "tok-a".to_string());
    store.create_session("alice", "tok-b".to_string());
    store.create_session("bob", "tok-c".to_string());
    assert_eq!(store.get_session("alice", 0).unwrap().token, "tok-a");
    assert_eq!(store.get_session("alice", 1).unwrap().token, "tok-b");
    assert_eq!(store.get_session("bob", 2).unwrap().token, "tok-c");
}

#[test]
fn list_matches_point_lookup() {
    // Every (user, id) pair returned by the listing is found again,
    // unchanged, by the point lookup.
    let mut store = InMemorySessionStore::new();
    store.create_session("alice", "tok-a".to_string());
    store.create_session("alice", "tok-b".to_string());
    let listed = store.list_sessions("alice");
    assert_eq!(listed.len(), 2);
    for s in listed {
        let again = store.get_session("alice", s.id).expect("listed session must resolve");
        assert_eq!(again.id, s.id);
        assert_eq!(again.token, s.token);
        assert_eq!(again.addr, s.addr);
    }
}

#[test]
fn token_resolves_until_delete() {
    let mut store = InMemorySessionStore::new();
    store.create_session("alice", "tok-a".to_string());
    store.create_session("bob", "tok-b".to_string());
    assert!(store.get_session_by_token("tok-a").is_some());
    // Unrelated operations keep the token resolvable.
    store.set_session_addr("tok-b", "127.0.0.1:1".to_string());
    store.delete_session("bob", 1);
    assert!(store.get_session_by_token("tok-a").is_some());
    // Deleting the owning row removes it.
    store.delete_session("alice", 0);
    assert!(store.get_session_by_token("tok-a").is_none());
}

#[test]
fn distinct_tokens_stay_distinct() {
    let mut store = InMemorySessionStore::new();
    store.create_session("alice", "tok-a".to_string());
    store.create_session("alice", "tok-b".to_string());
    store.create_session("bob", "tok-c".to_string());
    let mut tokens: Vec<String> = Vec::new();
    for user in ["alice", "bob"] {
        for s in store.list_sessions(user) {
            assert!(!tokens.contains(&s.token));
            tokens.push(s.token);
        }
    }
    assert_eq!(tokens.len(), 3);
}

#[test]
fn set_addr_then_lookup_by_token() {
    let mut store = InMemorySessionStore::new();
    store.create_session("alice", "tok-a".to_string());
    store.create_session("alice", "tok-b".to_string());
    store.set_session_addr("tok-b", "127.0.0.1:45001".to_string());
    let s = store.get_session_by_token("tok-b").expect("token should resolve");
    assert_eq!(s.addr, Some("127.0.0.1:45001".to_string()));
    // The other session is untouched.
    assert!(store.get_session_by_token("tok-a").unwrap().addr.is_none());
}

#[test]
fn set_addr_unknown_token_is_noop() {
    let mut store = InMemorySessionStore::new();
    store.create_session("alice", "tok-a".to_string());
    store.set_session_addr("nope", "127.0.0.1:1".to_string());
    assert!(store.get_session("alice", 0).unwrap().addr.is_none());
}

#[test]
fn list_isolation_between_users() {
    let mut store = InMemorySessionStore::new();
    store.create_session("alice", "tok-a".to_string());
    store.create_session("bob", "tok-b".to_string());
    let alices = store.list_sessions("alice");
    let bobs = store.list_sessions("bob");
    assert_eq!(alices.len(), 1);
    assert_eq!(bobs.len(), 1);
    assert_eq!(alices[0].token, "tok-a");
    assert_eq!(bobs[0].token, "tok-b");
}

#[test]
fn delete_unknown_is_noop() {
    let mut store = InMemorySessionStore::new();
    store.create_session("alice", "tok-a".to_string());
    store.delete_session("alice", 7);
    store.delete_session("bob", 0);
    assert_eq!(store.list_sessions("alice").len(), 1);
}
