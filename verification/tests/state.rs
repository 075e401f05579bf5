use netchat::conn_handler::ConnState;
use netchat::state::ConnectionRegistry;
use netchat::state::ServerState;
use netchat::state::UserRegistry;

#[test]
fn test_state() {
    let connections = ConnectionRegistry::new();
    let users = UserRegistry::new();
    let state = ServerState::new();

    assert_eq!(connections.len(), 0);
    assert_eq!(users.len(), 0);
    assert_eq!(state.connections.len(), 0);
    assert_eq!(state.users.len(), 0);
}

#[test]
fn test_user_registry_ops() {
    let mut users = UserRegistry::new();
    users.insert("alice".to_string(), 1);
    users.insert("bob".to_string(), 2);
    assert_eq!(users.len(), 2);
    assert_eq!(users.get("alice"), Some(1));
    assert_eq!(users.get("bob"), Some(2));
    assert_eq!(users.get("carol"), None);

    users.insert("alice".to_string(), 7);
    assert_eq!(users.len(), 2);
    assert_eq!(users.get("alice"), Some(7));

    assert!(users.contains_conn(7));
    assert!(users.contains_conn(2));
    assert!(!users.contains_conn(1));

    users.remove("alice");
    assert_eq!(users.len(), 1);
    assert_eq!(users.get("alice"), None);
    users.remove("alice");
    assert_eq!(users.len(), 1);

    assert_eq!(users.usernames(), vec!["bob"]);
    assert_eq!(users.conns(), vec![2]);
}

#[test]
fn test_connection_registry_ops() {
    let mut conns = ConnectionRegistry::new();
    conns.insert(10);
    conns.insert(20);
    conns.insert(10);
    assert_eq!(conns.len(), 2);
    assert!(conns.contains(10));
    assert!(conns.contains(20));
    assert!(!conns.contains(30));

    conns.remove(10);
    assert_eq!(conns.len(), 1);
    assert!(!conns.contains(10));
    conns.remove(30);
    assert_eq!(conns.len(), 1);
}

#[test]
fn test_connect_disconnect_cycles_leak_nothing() {
    let mut state = ServerState::new();
    state.connection_opened(999);
    state.register_user("resident".to_string(), 999);
    let conns_before = state.connections.len();
    let users_before = state.users.len();

    for k in 0..100u64 {
        let id = 1000 + k;
        state.connection_opened(id);
        state.register_user(format!("user{}", k), id);
        let st = ConnState::Authenticated(format!("user{}", k));
        state.teardown(id, &st);
    }

    assert_eq!(state.connections.len(), conns_before);
    assert_eq!(state.users.len(), users_before);
    assert!(state.connections.contains(999));
    assert_eq!(state.users.get("resident"), Some(999));
}

#[test]
fn test_teardown_unauthenticated_keeps_users() {
    let mut state = ServerState::new();
    state.connection_opened(1);
    state.connection_opened(2);
    state.register_user("alice".to_string(), 1);
    state.teardown(2, &ConnState::AwaitingAuth);
    assert_eq!(state.connections.len(), 1);
    assert_eq!(state.users.len(), 1);
    assert_eq!(state.users.get("alice"), Some(1));
}

#[test]
fn test_idle_connections() {
    let mut state = ServerState::new();
    state.connection_opened(1);
    state.connection_opened(2);
    state.connection_opened(3);
    state.register_user("alice".to_string(), 2);
    let idle = state.idle_connections();
    assert_eq!(idle, vec![1, 3]);
}
