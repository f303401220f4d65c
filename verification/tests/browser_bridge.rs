use world_loom::bridge::{
    admit_mcp_request, bounded_env_value, check_connect_request, connect_failure_reply,
    constant_time_digest_eq, cors_headers, ping_reply, proxy_message, proxy_shutdown,
    AllowedOrigins, BridgeConfig, BridgeError, BridgeReply, ConnectFailure, McpAdmission, McpAuth,
    PendingConnections, ServerRead, SocketAction, SocketMessage, DEFAULT_BRIDGE_ADDR,
};

#[test]
fn allowed_origins_can_allow_any_origin() {
    assert!(AllowedOrigins::Any.is_allowed("https://example.test"));
}

#[test]
fn allowed_origins_match_exact_origins_only() {
    let allowed = AllowedOrigins::List(vec!["http://localhost:3000".into()]);

    assert!(allowed.is_allowed("http://localhost:3000"));
    assert!(!allowed.is_allowed("http://127.0.0.1:3000"));
}

#[test]
fn bridge_config_env_values_are_bounded() {
    assert_eq!(bounded_env_value(Some("1"), 100, 10, 200), 10, "too-small values clamp up");
    assert_eq!(bounded_env_value(Some("500"), 100, 10, 200), 200, "too-large values clamp down");
    assert_eq!(bounded_env_value(Some("125"), 100, 10, 200), 125, "in-range values pass through");
    assert_eq!(
        bounded_env_value(Some("not-a-number"), 100, 10, 200),
        100,
        "invalid values fall back to default"
    );
    assert_eq!(
        bounded_env_value(None, 100, 10, 200),
        100,
        "missing values fall back to default"
    );
}

#[test]
fn mcp_bearer_auth_rejects_missing_and_invalid_tokens() {
    let auth = McpAuth::required("correct-token");
    assert!(!auth.is_authorized(None));
    assert!(!auth.is_authorized(Some("Bearer wrong-token")));
    assert!(auth.is_authorized(Some("Bearer correct-token")));
}

#[test]
fn settings_are_read_like_numbers() {
    assert_eq!(bounded_env_value(Some(" +125\n"), 100, 10, 200), 125);
    assert_eq!(bounded_env_value(Some("-5"), 100, 10, 200), 100);
    assert_eq!(bounded_env_value(Some("18446744073709551616"), 100, 10, 200), 100);
    assert_eq!(bounded_env_value(Some("18446744073709551615"), 100, 10, 200), 200);
    let config = BridgeConfig::from_env(None, Some("4"), Some("7"));
    assert_eq!(
        config,
        BridgeConfig {
            tcp_read_buffer_bytes: 16 * 1024,
            ws_queue_capacity: 16,
            max_pending_connections: 7,
        }
    );
    assert_eq!(DEFAULT_BRIDGE_ADDR, "127.0.0.1:18081");
}

#[test]
fn origins_are_split_at_commas() {
    let local = vec!["http://localhost:3000".to_string(), "http://127.0.0.1:3000".to_string()];
    assert_eq!(AllowedOrigins::from_env(None), AllowedOrigins::List(local));
    assert_eq!(AllowedOrigins::from_env(Some(" * ")), AllowedOrigins::Any);
    assert!(AllowedOrigins::from_env(Some(" * ")).is_any());
    let two = AllowedOrigins::from_env(Some(" https://a.test ,, https://b.test,"));
    assert_eq!(
        two,
        AllowedOrigins::List(vec!["https://a.test".to_string(), "https://b.test".to_string()])
    );
    assert!(!two.is_any());
    assert!(AllowedOrigins::from_env(Some(" , ")).is_allowed("http://127.0.0.1:3000"));
    let star_in_list = AllowedOrigins::from_env(Some("*,x"));
    assert!(star_in_list.is_allowed("*"));
    assert!(!star_in_list.is_allowed("https://a.test"));
}

#[test]
fn requests_without_an_origin_are_let_in() {
    let origins = AllowedOrigins::from_env(Some("https://a.test"));
    assert!(origins.is_origin_allowed(None));
    assert!(origins.is_origin_allowed(Some("https://a.test")));
    assert!(!origins.is_origin_allowed(Some("https://b.test")));
    assert_eq!(origins.cors_origin(Some("https://a.test")), "https://a.test");
    assert_eq!(origins.cors_origin(Some("https://b.test")), "null");
    assert_eq!(origins.cors_origin(None), "null");
    assert_eq!(AllowedOrigins::Any.cors_origin(Some("https://b.test")), "*");
}

#[test]
fn answers_carry_fixed_headers() {
    let headers = cors_headers();
    assert_eq!(headers.len(), 7);
    assert!(headers.contains(&("access-control-max-age", "86400")));
    assert!(headers.contains(&("x-world-loom-bridge", "rust")));
}

#[test]
fn bearer_scheme_is_read_in_either_case() {
    let auth = McpAuth::required("a b");
    assert!(auth.is_authorized(Some("bEARER a b")));
    for bad in ["Bearer", "Bearer ", "Bearer  a b", "Basic a b", "a b", ""] {
        assert!(!auth.is_authorized(Some(bad)), "{bad}");
    }
    assert!(McpAuth::disabled().is_authorized(None));
    assert!(McpAuth::disabled().is_authorized(Some("anything")));
}

#[test]
fn key_file_gives_its_token() {
    assert!(McpAuth::from_env(None).unwrap().is_authorized(None));
    let auth = McpAuth::from_env(Some("  secret-word\n")).unwrap();
    assert!(auth.is_authorized(Some("Bearer secret-word")));
    assert!(!auth.is_authorized(Some("Bearer   secret-word")));
    assert_eq!(
        McpAuth::from_env(Some(" \n")).err(),
        Some("WORLD_LOOM_MCP_API_KEY_FILE file must not be empty".to_string())
    );
}

#[test]
fn digests_are_compared_byte_by_byte() {
    let mut a = [7_u8; 32];
    let b = a;
    assert!(constant_time_digest_eq(&a, &b));
    for i in 0..32 {
        a[i] ^= 1;
        assert!(!constant_time_digest_eq(&a, &b));
        a[i] ^= 1;
    }
}

#[test]
fn tool_requests_are_admitted_by_origin_and_token() {
    let origins = AllowedOrigins::from_env(Some("https://a.test"));
    let auth = McpAuth::required("t");
    let ask = |origin, token| admit_mcp_request(&origins, &auth, origin, token);
    assert_eq!(ask(Some("https://b.test"), Some("Bearer t")), McpAdmission::Forbidden);
    assert_eq!(ask(Some("https://a.test"), None), McpAdmission::Unauthorized);
    assert_eq!(ask(None, Some("Bearer t")), McpAdmission::Open);
}

#[test]
fn pending_connections_are_bounded_and_taken_once() {
    let mut pending: PendingConnections<u8> = PendingConnections::new(2);
    assert!(pending.insert_pending_connection("a".to_string(), 1).is_ok());
    assert!(pending.insert_pending_connection("b".to_string(), 2).is_ok());
    assert_eq!(pending.insert_pending_connection("c".to_string(), 3), Err(3));
    assert_eq!(pending.socket_ws(false, Some("a")), Err(403));
    assert_eq!(pending.socket_ws(true, None), Err(400));
    assert_eq!(pending.socket_ws(true, Some("x")), Err(404));
    assert_eq!(pending.socket_ws(true, Some("a")), Ok(1));
    assert_eq!(pending.socket_ws(true, Some("a")), Err(404));
    assert!(pending.insert_pending_connection("c".to_string(), 3).is_ok());
    assert_eq!(pending.take_pending_connection("c"), Some(3));
}

#[test]
fn connections_are_answered_with_a_token() {
    let mut pending: PendingConnections<u8> = PendingConnections::new(2);
    let reply = pending.connect_tcp(9, "play.\"host\"", 25565);
    assert_eq!(reply.status, 200);
    let body: serde_json::Value = serde_json::from_str(&reply.body).unwrap();
    let token = body["token"].as_str().unwrap().to_string();
    assert_eq!(token.len(), 32);
    assert!(token.bytes().all(|byte| byte.is_ascii_hexdigit()));
    assert_eq!(body["remote"]["address"], "play.\"host\"");
    assert_eq!(body["remote"]["family"], "IPv4");
    assert_eq!(body["remote"]["port"], 25565);
    assert_eq!(pending.socket_ws(true, Some(&token)), Ok(9));
    let reply = pending.keep_connection(1, "t".to_string(), "h", 2);
    assert_eq!(
        reply.body,
        "{\"token\":\"t\",\"remote\":{\"address\":\"h\",\"family\":\"IPv4\",\"port\":2}}"
    );
    pending.connect_tcp(1, "h", 2);
    let reply = pending.connect_tcp(1, "h", 2);
    assert_eq!(
        reply,
        BridgeReply {
            status: 503,
            body: "{\"code\":503,\"error\":\"too many pending bridge connections\"}".to_string(),
        }
    );
}

#[test]
fn connect_requests_need_host_and_port() {
    assert!(check_connect_request("localhost", 25565).is_none());
    for (host, port) in [("  ", 1), ("", 1), ("localhost", 0)] {
        let reply = check_connect_request(host, port).unwrap();
        assert_eq!(reply.status, 400);
        assert_eq!(reply.body, "{\"code\":400,\"error\":\"host and port are required\"}");
    }
}

#[test]
fn failed_connections_are_explained() {
    let reply = connect_failure_reply(&ConnectFailure::Refused("refused".to_string()));
    assert_eq!(reply.status, 502);
    assert_eq!(
        reply.body,
        "{\"code\":502,\"error\":\"failed to connect to Minecraft server: refused\"}"
    );
    let reply = connect_failure_reply(&ConnectFailure::TimedOut);
    assert_eq!(reply.status, 504);
    assert_eq!(
        reply.body,
        "{\"code\":504,\"error\":\"connection to Minecraft server timed out\"}"
    );
}

#[test]
fn pings_are_answered() {
    assert_eq!(ping_reply("ping:17"), Some("pong:17:0".to_string()));
    assert_eq!(ping_reply("ping:"), Some("pong::0".to_string()));
    assert_eq!(ping_reply("pong:17"), None);
    match proxy_message(SocketMessage::Text("ping:a:b".to_string())) {
        SocketAction::Reply(reply) => assert_eq!(reply, "pong:a:b"),
        _ => panic!("a ping is answered"),
    }
}

#[test]
fn proxy_hands_messages_on() {
    match proxy_message(SocketMessage::Text("hello".to_string())) {
        SocketAction::WriteText(text) => assert_eq!(text, "hello"),
        _ => panic!("a text is handed on"),
    }
    match proxy_message(SocketMessage::Binary(vec![1, 2])) {
        SocketAction::WriteBytes(bytes) => assert_eq!(bytes, vec![1, 2]),
        _ => panic!("bytes are handed on"),
    }
    assert!(matches!(proxy_message(SocketMessage::Close), SocketAction::Stop));
    assert!(matches!(proxy_message(SocketMessage::Failed), SocketAction::Stop));
    assert!(matches!(proxy_message(SocketMessage::Control), SocketAction::Ignore));
    assert_eq!(proxy_shutdown(&ServerRead::Bytes(5)), None);
    assert_eq!(
        proxy_shutdown(&ServerRead::Closed),
        Some("proxy-shutdown:Minecraft server closed the connection.".to_string())
    );
    assert_eq!(
        proxy_shutdown(&ServerRead::Failed("reset".to_string())),
        Some("proxy-shutdown:Minecraft server connection failed: reset".to_string())
    );
}

#[test]
fn bridge_errors_have_their_texts() {
    let x = || "x".to_string();
    assert_eq!(BridgeError::InvalidAddress(x()).message(), "invalid bridge address: x");
    assert_eq!(BridgeError::Bind(x()).message(), "failed to bind browser bridge: x");
    assert_eq!(BridgeError::Runtime(x()).message(), "failed to start bridge runtime: x");
    assert_eq!(BridgeError::Startup(x()).message(), "failed to start browser bridge: x");
}
