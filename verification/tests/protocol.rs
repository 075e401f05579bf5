use netchat::auth::SessionVerdict;
use netchat::auth::classify_oracle_reply;
use netchat::auth::verdict_of;
use netchat::commands::ListCommand;
use netchat::commands::PerfCommand;
use netchat::commands::get_commands;
use netchat::config::ServerConfig;
use netchat::conn_handler::Action;
use netchat::conn_handler::ConnState;
use netchat::conn_handler::Reply;
use netchat::conn_handler::process_frame;
use netchat::conn_handler::process_frame_now;
use netchat::conn_handler::apply_auth_verdict;
use netchat::router::route_message;
use netchat::state::ServerState;

fn server_config(protect_server: bool, online_mode: bool) -> ServerConfig {
    ServerConfig {
        host: "127.0.0.1".to_string(),
        port: 2052,
        online_mode,
        api_key: String::new(),
        protect_server,
        server_password: "12345678".to_string(),
    }
}

fn valid_token() -> String {
    let t = "a".repeat(256);
    assert_eq!(t.len(), 256);
    t
}

#[test]
fn test_gate_rejects_every_other_frame() {
    let cfg = server_config(true, false);
    let commands = get_commands();
    let st = ConnState::initial(cfg.protect_server);
    assert_eq!(st, ConnState::AwaitingServerPassword);

    for frame in ["hello", "AUTH:alice:tok", "global:hi", "SERVER_PASSWORD:x", ":"] {
        let step = process_frame(&st, frame, &cfg, &commands, 0);
        assert_eq!(step.reply, Some(Reply::ServerPassRequired));
        assert_eq!(step.next, ConnState::AwaitingServerPassword);
        assert_eq!(step.action, Action::NoAction);
        assert!(!step.close);
    }
}

#[test]
fn test_gate_password_exchange() {
    let cfg = server_config(true, false);
    let commands = get_commands();
    let st = ConnState::AwaitingServerPassword;

    let wrong = process_frame(&st, "SERVER_PASS:nope", &cfg, &commands, 0);
    assert_eq!(wrong.reply, Some(Reply::ServerPassIncorrect));
    assert_eq!(wrong.next, ConnState::AwaitingServerPassword);

    let right = process_frame(&st, "SERVER_PASS:12345678\n", &cfg, &commands, 0);
    assert_eq!(right.reply, Some(Reply::ServerPassCorrect));
    assert_eq!(right.next, ConnState::AwaitingAuth);
}

#[test]
fn test_disconnect_from_any_state() {
    let cfg = server_config(true, false);
    let commands = get_commands();
    for st in [
        ConnState::AwaitingServerPassword,
        ConnState::AwaitingAuth,
        ConnState::Authenticated("alice".to_string()),
    ] {
        let step = process_frame(&st, " DISCONNECT \r\n", &cfg, &commands, 0);
        assert_eq!(step.reply, Some(Reply::Disconnected));
        assert!(step.close);
        assert_eq!(step.next, st);
    }
}

#[test]
fn test_auth_validation_failures() {
    let cfg = server_config(false, false);
    let commands = get_commands();
    let st = ConnState::AwaitingAuth;

    let step = process_frame(&st, "hello there", &cfg, &commands, 0);
    assert_eq!(step.reply, Some(Reply::NotAuthenticated));
    assert_eq!(step.next, ConnState::AwaitingAuth);

    let step = process_frame(&st, "AUTH:missingtoken", &cfg, &commands, 0);
    assert_eq!(step.reply, Some(Reply::AuthInvalid));

    let step = process_frame(&st, &format!("AUTH:x:{}", valid_token()), &cfg, &commands, 0);
    assert_eq!(step.reply, Some(Reply::InvalidUsername));

    let step = process_frame(&st, "AUTH:alice:shorttoken", &cfg, &commands, 0);
    assert_eq!(step.reply, Some(Reply::InvalidSessionToken));
}

#[test]
fn test_offline_auth_success() {
    let cfg = server_config(false, false);
    let commands = get_commands();
    let st = ConnState::AwaitingAuth;
    let frame = format!("AUTH:alice:{}\n", valid_token());
    let step = process_frame(&st, &frame, &cfg, &commands, 0);
    assert_eq!(step.reply, Some(Reply::AuthSuccess));
    assert_eq!(step.next, ConnState::Authenticated("alice".to_string()));
    assert_eq!(step.action, Action::RegisterUser { username: "alice".to_string() });
    assert!(!step.close);
}

#[test]
fn test_online_auth_defers_to_oracle() {
    let cfg = server_config(false, true);
    let commands = get_commands();
    let st = ConnState::AwaitingAuth;
    let frame = format!("AUTH:alice: {} ", valid_token());
    let step = process_frame(&st, &frame, &cfg, &commands, 0);
    assert_eq!(step.reply, None);
    assert_eq!(step.next, ConnState::AwaitingAuth);
    assert_eq!(
        step.action,
        Action::VerifySession { username: "alice".to_string(), session_token: valid_token() }
    );
}

#[test]
fn test_apply_auth_verdict() {
    let st = ConnState::AwaitingAuth;

    let step = apply_auth_verdict(&st, "alice", &SessionVerdict::Valid);
    assert_eq!(step.reply, Some(Reply::AuthSuccess));
    assert_eq!(step.next, ConnState::Authenticated("alice".to_string()));
    assert_eq!(step.action, Action::RegisterUser { username: "alice".to_string() });

    let step = apply_auth_verdict(&st, "alice", &SessionVerdict::Invalid);
    assert_eq!(step.reply, Some(Reply::AuthFailed));
    assert_eq!(step.next, ConnState::AwaitingAuth);
    assert_eq!(step.action, Action::NoAction);

    let step = apply_auth_verdict(&st, "alice", &SessionVerdict::OracleError("down".to_string()));
    assert_eq!(step.reply, Some(Reply::AuthError("down".to_string())));
    assert_eq!(step.next, ConnState::AwaitingAuth);
    assert_eq!(step.reply.unwrap().line(), "AUTH_ERROR:down\n");
}

#[test]
fn test_second_auth_already_authenticated() {
    let cfg = server_config(false, false);
    let commands = get_commands();
    let mut state = ServerState::new();
    state.connection_opened(5);
    state.register_user("alice".to_string(), 5);

    let st = ConnState::Authenticated("alice".to_string());
    let frame = format!("AUTH:alice:{}", valid_token());
    let step = process_frame(&st, &frame, &cfg, &commands, 0);
    assert_eq!(step.reply, Some(Reply::AlreadyAuthenticated));
    assert_eq!(step.next, st);
    assert_eq!(step.action, Action::NoAction);

    assert_eq!(state.users.len(), 1);
    assert_eq!(state.users.get("alice"), Some(5));
}

#[test]
fn test_message_shape_rejections() {
    let cfg = server_config(false, false);
    let commands = get_commands();
    let st = ConnState::Authenticated("alice".to_string());

    let long = format!("bob:{}", "x".repeat(300));
    let step = process_frame(&st, &long, &cfg, &commands, 0);
    assert_eq!(step.reply, Some(Reply::MessageTooLong));

    let step = process_frame(&st, "", &cfg, &commands, 0);
    assert_eq!(step.reply, Some(Reply::EmptyMessage));

    let step = process_frame(&st, "bob:", &cfg, &commands, 0);
    assert_eq!(step.reply, Some(Reply::EmptyMessage));

    let step = process_frame(&st, "nocolonhere", &cfg, &commands, 0);
    assert_eq!(step.reply, Some(Reply::InvalidMessageFormat));
}

#[test]
fn test_get_messages_action() {
    let cfg = server_config(false, false);
    let commands = get_commands();
    let st = ConnState::Authenticated("alice".to_string());
    let step = process_frame(&st, "GET_MESSAGES: bob \n", &cfg, &commands, 0);
    assert_eq!(step.reply, None);
    assert_eq!(step.action, Action::FetchMessages { recipient: "bob".to_string() });
}

#[test]
fn test_command_dispatch_and_fall_through() {
    let cfg = server_config(false, false);
    let commands = get_commands();
    let st = ConnState::Authenticated("alice".to_string());

    let step = process_frame(&st, "global:!perf now please", &cfg, &commands, 0);
    assert_eq!(step.reply, None);
    assert_eq!(
        step.action,
        Action::RunCommand {
            name: "!perf".to_string(),
            args: vec!["now".to_string(), "please".to_string()],
        }
    );

    let step = process_frame(&st, "global:!unknown hi", &cfg, &commands, 77);
    assert_eq!(step.reply, None);
    match step.action {
        Action::Relay { recipient, body, full_message, timestamp, sender } => {
            assert_eq!(recipient, "global");
            assert_eq!(body, "!unknown hi");
            assert_eq!(full_message, "77:alice:global:!unknown hi");
            assert_eq!(timestamp, 77);
            assert_eq!(sender, "alice");
        },
        other => panic!("expected relay, got {:?}", other),
    }
}

#[test]
fn test_broadcast_reaches_every_authenticated_connection() {
    let cfg = server_config(false, false);
    let commands = get_commands();
    let mut state = ServerState::new();
    for (name, id) in [("alice", 1u64), ("bob", 2), ("carol", 3)] {
        state.connection_opened(id);
        state.register_user(name.to_string(), id);
    }

    let st = ConnState::Authenticated("alice".to_string());
    let step = process_frame(&st, "global:hello", &cfg, &commands, 42);
    assert_eq!(step.reply, None);
    match &step.action {
        Action::Relay { recipient, full_message, .. } => {
            assert_eq!(recipient, "global");
            assert!(full_message.ends_with(":global:hello"));
            let targets = route_message(&state.users, recipient);
            assert_eq!(targets, vec![1, 2, 3]);
        },
        other => panic!("expected relay, got {:?}", other),
    }
}

#[test]
fn test_direct_message_to_offline_recipient() {
    let cfg = server_config(false, false);
    let commands = get_commands();
    let mut state = ServerState::new();
    state.connection_opened(1);
    state.register_user("alice".to_string(), 1);

    let st = ConnState::Authenticated("alice".to_string());
    let step = process_frame(&st, "ghost:are you there?", &cfg, &commands, 9);
    assert_eq!(step.reply, None);
    match &step.action {
        Action::Relay { recipient, body, timestamp, sender, .. } => {
            assert_eq!(recipient, "ghost");
            assert_eq!(body, "are you there?");
            assert_eq!(*timestamp, 9);
            assert_eq!(sender, "alice");
            let targets = route_message(&state.users, recipient);
            assert!(targets.is_empty());
        },
        other => panic!("expected relay, got {:?}", other),
    }
}

#[test]
fn test_direct_message_to_online_recipient() {
    let mut state = ServerState::new();
    state.connection_opened(1);
    state.connection_opened(2);
    state.register_user("alice".to_string(), 1);
    state.register_user("bob".to_string(), 2);
    let targets = route_message(&state.users, "bob");
    assert_eq!(targets, vec![2]);
}

#[test]
fn test_end_to_end_offline_broadcast() {
    let cfg = server_config(false, false);
    let commands = get_commands();
    let mut state = ServerState::new();
    for id in [1u64, 2, 3] {
        state.connection_opened(id);
    }
    state.register_user("bob".to_string(), 2);
    state.register_user("carol".to_string(), 3);

    let st = ConnState::initial(cfg.protect_server);
    assert_eq!(st, ConnState::AwaitingAuth);

    let frame = format!("AUTH:alice:{}", "a".repeat(256));
    let step = process_frame(&st, &frame, &cfg, &commands, 100);
    assert_eq!(step.reply.as_ref().unwrap().line(), "AUTH_SUCCESS\n");
    let st = step.next;
    match step.action {
        Action::RegisterUser { username } => state.register_user(username, 1),
        other => panic!("expected registration, got {:?}", other),
    }

    let step = process_frame(&st, "global:hello", &cfg, &commands, 1234);
    match &step.action {
        Action::Relay { recipient, full_message, .. } => {
            assert_eq!(full_message, "1234:alice:global:hello");
            let targets = route_message(&state.users, recipient);
            assert_eq!(targets, vec![2, 3, 1]);
            for other in [2u64, 3] {
                assert!(targets.contains(&other));
            }
        },
        other => panic!("expected relay, got {:?}", other),
    }
}

#[test]
fn test_reply_lines() {
    assert_eq!(Reply::Disconnected.line(), "DISCONNECTED\n");
    assert_eq!(Reply::ServerPassRequired.line(), "SERVER_PASS_REQUIRED\n");
    assert_eq!(Reply::ServerPassCorrect.line(), "SERVER_PASS_CORRECT\n");
    assert_eq!(Reply::ServerPassIncorrect.line(), "SERVER_PASS_INCORRECT\n");
    assert_eq!(Reply::AuthInvalid.line(), "AUTH_INVALID\n");
    assert_eq!(Reply::AuthFailed.line(), "AUTH_FAILED\n");
    assert_eq!(Reply::AuthSuccess.line(), "AUTH_SUCCESS\n");
    assert_eq!(Reply::AlreadyAuthenticated.line(), "ALREADY_AUTHENTICATED\n");
    assert_eq!(Reply::NotAuthenticated.line(), "NOT_AUTHENTICATED\n");
    assert_eq!(Reply::InvalidUsername.line(), "INVALID_USERNAME\n");
    assert_eq!(Reply::InvalidSessionToken.line(), "INVALID_SESSION_TOKEN\n");
    assert_eq!(Reply::MessageTooLong.line(), "MESSAGE_TOO_LONG\n");
    assert_eq!(Reply::EmptyMessage.line(), "EMPTY_MESSAGE\n");
    assert_eq!(Reply::InvalidMessageFormat.line(), "INVALID_MESSAGE_FORMAT\n");
    assert_eq!(Reply::ServerShutdown.line(), "SERVER_SHUTDOWN\n");
    assert_eq!(Reply::AuthError("oops".to_string()).line(), "AUTH_ERROR:oops\n");
}

#[test]
fn test_process_frame_now_uses_clock() {
    let cfg = server_config(false, false);
    let commands = get_commands();
    let st = ConnState::Authenticated("alice".to_string());
    let (ts, step) = process_frame_now(&st, "bob:hi", &cfg, &commands);
    match step.action {
        Action::Relay { timestamp, full_message, .. } => {
            assert_eq!(timestamp, ts);
            assert_eq!(full_message, format!("{}:alice:bob:hi", ts));
        },
        other => panic!("expected relay, got {:?}", other),
    }
}

#[test]
fn test_classify_oracle_reply() {
    assert_eq!(classify_oracle_reply("{\"valid\": true}"), SessionVerdict::Valid);
    assert_eq!(classify_oracle_reply("{\"valid\": false}"), SessionVerdict::Invalid);
    assert_eq!(classify_oracle_reply("{}"), SessionVerdict::Invalid);
    assert_eq!(
        classify_oracle_reply("{\"error\": \"no such session\"}"),
        SessionVerdict::OracleError("no such session".to_string())
    );
    match classify_oracle_reply("not json at all") {
        SessionVerdict::OracleError(m) => assert!(!m.is_empty()),
        other => panic!("expected oracle error, got {:?}", other),
    }
}

#[test]
fn test_verdict_of() {
    assert_eq!(verdict_of(None, Some(true)), SessionVerdict::Valid);
    assert_eq!(verdict_of(None, Some(false)), SessionVerdict::Invalid);
    assert_eq!(verdict_of(None, None), SessionVerdict::Invalid);
    assert_eq!(
        verdict_of(Some("e".to_string()), Some(true)),
        SessionVerdict::OracleError("e".to_string())
    );
}

#[test]
fn test_command_table() {
    let commands = get_commands();
    assert!(commands.contains_name("!perf"));
    assert!(commands.contains_name("!list"));
    assert!(!commands.contains_name("!nope"));
    assert!(!commands.contains_name("perf"));
}

#[test]
fn test_perf_command_render() {
    let out = PerfCommand::render("12.34", 3 * 1024 * 1024 * 1024, 8 * 1024 * 1024 * 1024);
    assert_eq!(
        String::from_utf8(out).unwrap(),
        "CPU Usage: 12.34%, RAM Usage: 3072MB/8192MB"
    );
}

#[test]
fn test_list_command_render() {
    let out = ListCommand::render(&vec!["alice".to_string(), "bob".to_string()]);
    assert_eq!(String::from_utf8(out).unwrap(), "Users: alice, bob, ");
    let out = ListCommand::render(&Vec::new());
    assert_eq!(String::from_utf8(out).unwrap(), "Users: ");
}
