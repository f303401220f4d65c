use serde_json::Value;
use world_loom::block::{BlockPos, AIR, BEDROCK, STONE};
use world_loom::json::{json_of_value, parse_json, value_of_json, Json};
use world_loom::mcp::{
    block_json, block_state_name, build_plan_argument, finish_tool_call,
    handle_http_json_rpc_request, handle_json_rpc_request, is_known_tool, optional_u32,
    parse_block_name, required_block_pos, required_block_state, required_build_id, required_i32,
    required_region, required_sculpt_spec, required_string, tool_definitions, tool_error,
    tool_result, tool_table, McpStep, Region, ToolOutcome, MAX_FILL_BLOCKS, MAX_SNAPSHOT_BLOCKS,
    MCP_ENDPOINT_PATH, MCP_PROTOCOL_VERSION, SERVER_VERSION,
};

fn json(source: &str) -> Json {
    parse_json(source.as_bytes()).unwrap()
}

fn value(json: &Json) -> Value {
    value_of_json(json)
}

fn definitions() -> Vec<Value> {
    tool_definitions().iter().map(value).collect()
}

fn region_arguments(max_x: i32, max_y: i32, max_z: i32) -> Json {
    json(&format!(
        "{{\"min_x\":0,\"min_y\":0,\"min_z\":0,\"max_x\":{max_x},\"max_y\":{max_y},\"max_z\":{max_z}}}"
    ))
}

fn respond(step: McpStep) -> (u16, Option<Value>) {
    match step {
        McpStep::Respond(response) => (response.status, response.body.as_ref().map(value)),
        McpStep::Call(call) => panic!("{} was called", call.name),
    }
}

#[test]
fn tool_list_contains_world_and_build_plan_tools() {
    let names = definitions()
        .into_iter()
        .map(|tool| {
            tool.get("name").and_then(Value::as_str).expect("tool should have name").to_string()
        })
        .collect::<Vec<_>>();

    assert_eq!(
        names,
        vec![
            "server_status",
            "list_players",
            "get_world_bounds",
            "list_build_palette",
            "get_block",
            "snapshot_region",
            "set_block",
            "remove_block",
            "fill_region",
            "validate_build_plan",
            "apply_build_plan",
            "get_build",
            "undo_build",
            "validate_sculpt_spec",
            "inspect_asset_budget",
            "publish_asset",
            "list_assets",
            "get_asset",
            "spawn_asset",
            "update_asset",
            "remove_asset",
            "list_asset_instances",
        ]
    );
}

#[test]
fn region_volume_limit_is_strict() {
    let allowed = region_arguments(7, 7, 7);
    assert_eq!(
        required_region(&allowed, MAX_SNAPSHOT_BLOCKS)
            .expect("512-block region should be accepted")
            .volume(),
        MAX_SNAPSHOT_BLOCKS
    );

    let too_large = region_arguments(8, 7, 7);
    assert!(required_region(&too_large, MAX_SNAPSHOT_BLOCKS).is_err());
}

#[test]
fn fill_region_has_smaller_limit_than_snapshot_region() {
    let too_large = region_arguments(4, 4, 5);
    assert!(required_region(&too_large, MAX_FILL_BLOCKS).is_err());
}

#[test]
fn block_names_are_limited_to_world_command_blocks() {
    assert_eq!(
        parse_block_name("minecraft:stone"),
        Some(valence::BlockState::STONE.to_raw())
    );
    assert_eq!(
        parse_block_name("RED_CONCRETE"),
        Some(valence::BlockState::RED_CONCRETE.to_raw())
    );
    assert_eq!(
        parse_block_name("diamond_block"),
        Some(valence::BlockState::DIAMOND_BLOCK.to_raw())
    );
    assert_eq!(parse_block_name("sand"), None);
}

#[test]
fn tools_list_returns_json_rpc_shape() {
    let (status, response) = respond(handle_json_rpc_request(&json(
        "{\"jsonrpc\":\"2.0\",\"id\":1,\"method\":\"tools/list\"}",
    )));
    let response = response.unwrap();
    assert_eq!(status, 200);
    assert_eq!(response["jsonrpc"], "2.0");
    assert_eq!(response["id"], 1);
    assert_eq!(
        response["result"]["tools"].as_array().expect("tools should be an array").len(),
        22
    );
}

#[test]
fn validation_and_lookup_tools_are_annotated_read_only() {
    for name in [
        "list_build_palette",
        "validate_build_plan",
        "get_build",
        "validate_sculpt_spec",
        "inspect_asset_budget",
        "list_assets",
        "get_asset",
        "list_asset_instances",
    ] {
        let tool = definitions()
            .into_iter()
            .find(|tool| tool["name"] == name)
            .expect("tool should be listed");
        assert_eq!(tool["annotations"]["readOnlyHint"], true);
    }
}

#[test]
fn direct_edit_schemas_defer_to_the_runtime_palette() {
    for name in ["set_block", "fill_region"] {
        let tool = definitions()
            .into_iter()
            .find(|tool| tool["name"] == name)
            .expect("tool should be listed");
        let block = &tool["inputSchema"]["properties"]["block"];
        assert_eq!(block["type"], "string");
        assert!(block.get("enum").is_none());
        assert!(block["description"]
            .as_str()
            .expect("block description")
            .contains("list_build_palette"));
    }
}

#[test]
fn every_listed_tool_is_known() {
    for tool in tool_table() {
        assert!(is_known_tool(tool.name));
    }
    for name in ["", "Server_status", "set_blocks", "tools/list"] {
        assert!(!is_known_tool(name));
    }
}

#[test]
fn schemas_are_strict_objects() {
    for tool in definitions() {
        let schema = &tool["inputSchema"];
        assert_eq!(schema["type"], "object");
        assert_eq!(schema["additionalProperties"], false);
        for name in schema["required"].as_array().unwrap() {
            assert!(schema["properties"].get(name.as_str().unwrap()).is_some());
        }
    }
    let apply = definitions().into_iter().find(|tool| tool["name"] == "apply_build_plan").unwrap();
    assert_eq!(apply["annotations"]["destructiveHint"], true);
    assert_eq!(apply["annotations"]["idempotentHint"], true);
    let operations = &apply["inputSchema"]["properties"]["plan"]["properties"]["operations"];
    assert_eq!(operations["maxItems"], 128);
    assert_eq!(operations["items"]["oneOf"][1]["properties"]["op"]["const"], "fill_box");
    let spawn = definitions().into_iter().find(|tool| tool["name"] == "spawn_asset").unwrap();
    assert_eq!(spawn["inputSchema"]["properties"]["version"]["maximum"], 65535);
}

#[test]
fn bodies_that_do_not_parse_are_answered_with_status_400() {
    let (status, body) = respond(handle_http_json_rpc_request(b"{"));
    let error = serde_json::from_slice::<Value>(b"{").unwrap_err();
    assert_eq!(status, 400);
    let body = body.unwrap();
    assert_eq!(body["error"]["code"], -32700);
    assert_eq!(body["error"]["message"], format!("parse error: {error}"));
    assert_eq!(body["id"], Value::Null);
}

#[test]
fn notifications_are_answered_with_status_202() {
    let (status, body) =
        respond(handle_http_json_rpc_request(b"{\"method\":\"notifications/initialized\"}"));
    assert_eq!((status, body), (202, None));
    let (status, body) = respond(handle_http_json_rpc_request(b"[1]"));
    assert_eq!((status, body), (202, None));
}

#[test]
fn server_introduces_itself() {
    let (status, body) = respond(handle_http_json_rpc_request(
        b"{\"id\":\"x\",\"method\":\"initialize\"}",
    ));
    let body = body.unwrap();
    assert_eq!(status, 200);
    assert_eq!(body["id"], "x");
    assert_eq!(body["result"]["protocolVersion"], MCP_PROTOCOL_VERSION);
    assert_eq!(body["result"]["serverInfo"]["name"], "world-loom-server");
    assert_eq!(body["result"]["serverInfo"]["version"], SERVER_VERSION);
    assert_eq!(body["result"]["capabilities"]["tools"]["listChanged"], false);
    assert_eq!(MCP_ENDPOINT_PATH, "/mcp");
    let (_, body) = respond(handle_http_json_rpc_request(b"{\"id\":null,\"method\":\"ping\"}"));
    assert_eq!(body.unwrap().to_string(), "{\"id\":null,\"jsonrpc\":\"2.0\",\"result\":{}}");
}

#[test]
fn bad_requests_have_their_codes() {
    let error = |source: &str| {
        let (status, body) = respond(handle_http_json_rpc_request(source.as_bytes()));
        assert_eq!(status, 200);
        let body = body.unwrap();
        (
            body["error"]["code"].as_i64().unwrap(),
            body["error"]["message"].as_str().unwrap().to_string(),
        )
    };
    assert_eq!(error("{\"id\":1}"), (-32600, "missing method".to_string()));
    assert_eq!(error("{\"id\":1,\"method\":3}"), (-32600, "missing method".to_string()));
    assert_eq!(error("{\"id\":1,\"method\":\"x\"}"), (-32601, "unknown method `x`".to_string()));
    assert_eq!(
        error("{\"id\":1,\"method\":\"tools/call\"}"),
        (-32602, "missing params".to_string())
    );
    assert_eq!(
        error("{\"id\":1,\"method\":\"tools/call\",\"params\":{}}"),
        (-32602, "missing params.name".to_string())
    );
    assert_eq!(
        error("{\"id\":1,\"method\":\"tools/call\",\"params\":{\"name\":\"x\"}}"),
        (-32602, "unknown tool `x`".to_string())
    );
}

#[test]
fn known_tools_are_handed_to_the_world() {
    let call = |source: &[u8]| match handle_http_json_rpc_request(source) {
        McpStep::Call(call) => call,
        McpStep::Respond(_) => panic!("a tool was called"),
    };
    let first = call(
        b"{\"id\":7,\"method\":\"tools/call\",\"params\":{\"name\":\"get_block\",\"arguments\":{\"x\":1}}}",
    );
    assert_eq!(first.name, "get_block");
    assert_eq!(value(&first.id), Value::from(7));
    assert_eq!(first.arguments.compact_text(), "{\"x\":1}");
    let bare = call(b"{\"id\":7,\"method\":\"tools/call\",\"params\":{\"name\":\"list_players\"}}");
    assert_eq!(bare.arguments.compact_text(), "{}");
}

#[test]
fn tool_outcomes_are_answered() {
    let answer = |outcome: ToolOutcome| {
        let response = finish_tool_call(json("5"), outcome);
        assert_eq!(response.status, 200);
        let body = value(response.body.as_ref().unwrap());
        assert_eq!(body["id"], 5);
        body["result"].clone()
    };
    let done = answer(ToolOutcome::Reply(Ok(json("{\"b\":1,\"a\":[true]}"))));
    assert_eq!(done["isError"], false);
    assert_eq!(done["structuredContent"]["b"], 1);
    assert_eq!(
        done["content"][0]["text"],
        serde_json::to_string_pretty(&done["structuredContent"]).unwrap()
    );
    let failed = |outcome: ToolOutcome| {
        let result = answer(outcome);
        assert_eq!(result["isError"], true);
        result["content"][0]["text"].as_str().unwrap().to_string()
    };
    assert_eq!(failed(ToolOutcome::Reply(Err("no".to_string()))), "no");
    assert_eq!(failed(ToolOutcome::QueueClosed), "MCP world request queue is closed");
    assert_eq!(failed(ToolOutcome::TimedOut), "MCP tool timed out waiting for server tick");
    assert_eq!(failed(ToolOutcome::Disconnected), "MCP world response channel closed");
    assert_eq!(value(&tool_error("x"))["content"][0]["type"], "text");
    assert_eq!(value(&tool_result(json("1")))["content"][0]["text"], "1");
}

#[test]
fn integer_arguments_are_checked() {
    let arguments = json("{\"x\":-3,\"y\":2147483648,\"z\":\"4\",\"f\":1.0}");
    assert_eq!(required_i32(&arguments, "x"), Ok(-3));
    assert_eq!(
        required_i32(&arguments, "y"),
        Err("argument `y` is outside i32 range".to_string())
    );
    for name in ["z", "f", "w"] {
        assert_eq!(
            required_i32(&arguments, name),
            Err(format!("missing integer argument `{name}`"))
        );
    }
    assert_eq!(
        required_block_pos(&json("{\"x\":1,\"y\":2,\"z\":3}")),
        Ok(BlockPos::new(1, 2, 3))
    );
    assert_eq!(
        required_block_pos(&json("{\"x\":1,\"z\":3}")),
        Err("missing integer argument `y`".to_string())
    );
}

#[test]
fn block_arguments_are_checked() {
    assert_eq!(required_block_state(&json("{\"block\":\" Stone\"}")), Ok(STONE));
    assert_eq!(required_block_state(&json("{\"block\":\"minecraft:AIR\"}")), Ok(AIR));
    assert_eq!(
        required_block_state(&json("{\"block\":\"sand\"}")),
        Err("unsupported block `sand`".to_string())
    );
    assert_eq!(
        required_block_state(&json("{\"block\":1}")),
        Err("missing string argument `block`".to_string())
    );
}

#[test]
fn regions_are_ordered_and_limited() {
    let reversed = json(
        "{\"min_x\":1,\"min_y\":0,\"min_z\":0,\"max_x\":0,\"max_y\":0,\"max_z\":0}",
    );
    assert_eq!(
        required_region(&reversed, 512),
        Err("region min coordinates must be <= max coordinates".to_string())
    );
    assert_eq!(
        required_region(&region_arguments(8, 7, 7), 512),
        Err("region volume 576 exceeds limit 512".to_string())
    );
    let huge = json(
        "{\"min_x\":-2147483648,\"min_y\":-2147483648,\"min_z\":-2147483648,\
          \"max_x\":2147483647,\"max_y\":2147483647,\"max_z\":2147483647}",
    );
    assert_eq!(
        required_region(&huge, 512),
        Err("region volume 79228162514264337593543950336 exceeds limit 512".to_string())
    );
    let one = Region { min: BlockPos::new(3, 4, 5), max: BlockPos::new(3, 4, 5) };
    assert_eq!(one.volume(), 1);
}

#[test]
fn text_arguments_are_bounded_in_bytes() {
    let arguments = json("{\"build_id\":\"b\",\"long\":\"éé\",\"empty\":\"\",\"n\":1}");
    assert_eq!(required_build_id(&arguments), Ok("b"));
    assert_eq!(
        required_build_id(&json("{\"build_id\":\"\"}")),
        Err("build_id must be a non-empty string of at most 128 bytes".to_string())
    );
    assert_eq!(required_string(&arguments, "long", 4), Ok("éé"));
    for (name, max) in [("long", 3), ("empty", 9), ("n", 9), ("gone", 9)] {
        assert_eq!(
            required_string(&arguments, name, max),
            Err(format!("`{name}` must be a non-empty string of at most {max} bytes"))
        );
    }
}

#[test]
fn other_arguments_are_checked() {
    assert_eq!(optional_u32(&json("{}"), "version"), Ok(None));
    assert_eq!(optional_u32(&json("{\"version\":3}"), "version"), Ok(Some(3)));
    assert_eq!(
        optional_u32(&json("{\"version\":-3}"), "version"),
        Err("`version` must be an unsigned integer".to_string())
    );
    assert_eq!(
        optional_u32(&json("{\"version\":4294967296}"), "version"),
        Err("`version` is outside u32 range".to_string())
    );
    assert_eq!(
        required_sculpt_spec(&json("{\"spec\":{\"a\":1}}")).map(Json::compact_text),
        Ok("{\"a\":1}".to_string())
    );
    for bad in ["{}", "{\"spec\":[]}"] {
        assert_eq!(
            required_sculpt_spec(&json(bad)).map(Json::compact_text),
            Err("missing object argument `spec`".to_string())
        );
    }
    assert_eq!(build_plan_argument(&json("{\"plan\":1}")).compact_text(), "1");
    assert_eq!(build_plan_argument(&json("{\"x\":1}")).compact_text(), "{\"x\":1}");
}

#[test]
fn blocks_are_named() {
    assert_eq!(block_state_name(AIR), "air");
    assert_eq!(block_state_name(BEDROCK), "bedrock");
    assert_eq!(block_state_name(STONE), "stone");
    let sand = valence::BlockState::SAND;
    assert_eq!(block_state_name(sand.to_raw()), sand.to_string());
    let door = valence::BlockState::OAK_DOOR;
    assert_eq!(block_state_name(door.to_raw()), door.to_string());
    assert_eq!(parse_block_name(" minecraft:air "), Some(AIR));
    assert_eq!(
        block_json(BlockPos::new(-1, 64, 3), STONE).compact_text(),
        "{\"block\":\"stone\",\"block_state_raw\":1,\"x\":-1,\"y\":64,\"z\":3}"
    );
    let back = json_of_value(value(&block_json(BlockPos::new(-1, 64, 3), STONE)));
    assert_eq!(back.get("x").and_then(Json::as_i64), Some(-1));
}

#[test]
fn parsed_requests_without_an_id_are_answered_under_null() {
    let (status, response) = respond(handle_json_rpc_request(&json(r#"{"method":"ping"}"#)));
    assert_eq!(status, 200);
    let response = response.unwrap();
    assert_eq!(response["id"], Value::Null);
    let (status, response) = respond(handle_http_json_rpc_request(br#"{"method":"ping"}"#));
    assert_eq!((status, response.is_none()), (202, true));
}
