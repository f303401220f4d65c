//! What requests are answered and what arguments are taken, said of the JSON that comes and goes.

use vstd::prelude::*;
use crate::block::{state_text, BlockPos, BlockState};
use crate::build_palette::{
    entry_for, entry_named, found_entry, is_plain, lookups_round_trip, palette, palette_is_unique,
    palette_name, palette_names_are_plain, plain_name, plain_names_stay,
};
use crate::json::{first_member, member, missing_member, JsonView};
use crate::mcp::{
    block_argument, block_name, bounded_text, http_step, initialize_result_view, integer_argument,
    json_rpc_error_view, json_rpc_success_view, known_tool, member_text, named_block,
    outcome_message, ping_result_view, position_argument, region_argument, tool_error_view, tool_result_view,
    tools_list_result_view, Region, StepView,
    ToolOutcome,
};
use crate::server::{owed_text, version_argument};
use crate::server_rules::{has_integer, has_text, lies_in};
use crate::text::utf8_len;
use crate::world_command::in_palette;

verus! {

// ---- answers ----

/// True iff the answer is a result of JSON-RPC 2.0 under that id.
pub open spec fn is_success(body: JsonView, id: JsonView, result: JsonView) -> bool {
    &&& member(body, "id"@) == Some(id)
    &&& has_text(body, "jsonrpc"@, "2.0"@)
    &&& member(body, "result"@) == Some(result)
    &&& member(body, "error"@) is None
}

/// True iff the answer is an error of JSON-RPC 2.0 under that id, with that code and message.
pub open spec fn is_failure(body: JsonView, id: JsonView, code: int, message: Seq<char>) -> bool {
    &&& member(body, "id"@) == Some(id)
    &&& has_text(body, "jsonrpc"@, "2.0"@)
    &&& member(body, "result"@) is None
    &&& member(body, "error"@) matches Some(error) && has_integer(error, "code"@, code) && has_text(
        error,
        "message"@,
        message,
    )
}

/// A result is answered under the request's id, and is no error; an error has its code and message,
/// and no result.
pub proof fn answers_carry_the_id(id: JsonView, result: JsonView, code: int, message: Seq<char>)
    requires
        i64::MIN <= code <= i64::MAX,
    ensures
        is_success(json_rpc_success_view(id, result), id, result),
        is_failure(json_rpc_error_view(id, code, message), id, code, message),
{
    reveal_strlit("id");
    reveal_strlit("jsonrpc");
    reveal_strlit("result");
    reveal_strlit("error");
    reveal_strlit("code");
    reveal_strlit("message");
    assert("id"@.len() == 2 && "jsonrpc"@.len() == 7 && "result"@.len() == 6 && "error"@.len() == 5
        && "code"@.len() == 4 && "message"@.len() == 7);
    let success = json_rpc_success_view(id, result);
    first_member(success->Object_0, "id"@, 0);
    first_member(success->Object_0, "jsonrpc"@, 1);
    first_member(success->Object_0, "result"@, 2);
    missing_member(success, "error"@);
    let failure = json_rpc_error_view(id, code, message);
    first_member(failure->Object_0, "error"@, 0);
    first_member(failure->Object_0, "id"@, 1);
    first_member(failure->Object_0, "jsonrpc"@, 2);
    missing_member(failure, "result"@);
    let error = failure->Object_0[0].1;
    first_member(error->Object_0, "code"@, 0);
    first_member(error->Object_0, "message"@, 1);
}

/// A tool's result says that it is no error, holds the result itself, and shows its text; a tool's
/// failure says that it is one, and shows the message.
pub proof fn tool_results_show_their_text(result: JsonView, rendered: Seq<char>)
    ensures
        ({
            let done = tool_result_view(result, rendered);
            let failed = tool_error_view(rendered);
            &&& member(done, "isError"@) == Some(JsonView::Bool(false))
            &&& member(done, "structuredContent"@) == Some(result)
            &&& member(failed, "isError"@) == Some(JsonView::Bool(true))
            &&& member(failed, "structuredContent"@) is None
            &&& member(failed, "content"@) == member(done, "content"@)
            &&& member(done, "content"@) matches Some(JsonView::Array(items)) && items.len() == 1
                && has_text(items[0], "text"@, rendered) && has_text(items[0], "type"@, "text"@)
        }),
{
    reveal_strlit("isError");
    reveal_strlit("structuredContent");
    reveal_strlit("content");
    reveal_strlit("text");
    reveal_strlit("type");
    assert("isError"@.len() == 7 && "structuredContent"@.len() == 17 && "content"@.len() == 7
        && "text"@.len() == 4 && "type"@.len() == 4);
    assert("isError"@[0] == 'i' && "content"@[0] == 'c');
    assert("text"@[1] == 'e' && "type"@[1] == 'y');
    let done = tool_result_view(result, rendered);
    let failed = tool_error_view(rendered);
    first_member(done->Object_0, "content"@, 0);
    first_member(done->Object_0, "isError"@, 1);
    first_member(done->Object_0, "structuredContent"@, 2);
    first_member(failed->Object_0, "content"@, 0);
    first_member(failed->Object_0, "isError"@, 1);
    missing_member(failed, "structuredContent"@);
    let item = done->Object_0[0].1->Array_0[0];
    first_member(item->Object_0, "text"@, 0);
    first_member(item->Object_0, "type"@, 1);
}

// ---- requests ----

/// Every request with an id is answered with status 200 under that id, or handed on as a call under
/// it; every answer is a result or an error.
pub proof fn requests_are_answered_under_their_id(body: JsonView, id: JsonView)
    requires
        member(body, "id"@) == Some(id),
    ensures
        match http_step(Ok(body)) {
            StepView::Respond(response) => response.status == 200 && (response.body matches Some(
                answer,
            ) && member(answer, "id"@) == Some(id) && has_text(answer, "jsonrpc"@, "2.0"@) && (
            member(answer, "result"@) is None <==> member(answer, "error"@) is Some)),
            StepView::Call { id: called, name, arguments } => called == id,
        },
{
    answers_carry_the_id(id, initialize_result_view(), 0, ""@);
    answers_carry_the_id(id, ping_result_view(), 0, ""@);
    answers_carry_the_id(id, tools_list_result_view(), 0, ""@);
    answers_carry_the_id(id, JsonView::Null, -32600, "missing method"@);
    answers_carry_the_id(id, JsonView::Null, -32602, "missing params"@);
    answers_carry_the_id(id, JsonView::Null, -32602, "missing params.name"@);
    if let Some(method) = member_text(body, "method"@) {
        answers_carry_the_id(id, JsonView::Null, -32601, "unknown method `"@ + method + "`"@);
        if let Some(params) = member(body, "params"@) {
            if let Some(name) = member_text(params, "name"@) {
                answers_carry_the_id(id, JsonView::Null, -32602, "unknown tool `"@ + name + "`"@);
            }
        }
    }
}

/// True iff the request is answered with that error.
pub open spec fn fails_with(body: JsonView, id: JsonView, code: int) -> bool {
    http_step(Ok(body)) matches StepView::Respond(response) && response.status == 200 && (
    response.body matches Some(answer) && exists|message: Seq<char>|
        is_failure(answer, id, code, message))
}

/// True iff the request is answered with that result.
pub open spec fn succeeds_with(body: JsonView, id: JsonView, result: JsonView) -> bool {
    http_step(Ok(body)) matches StepView::Respond(response) && response.status == 200 && (
    response.body matches Some(answer) && is_success(answer, id, result))
}

/// A request that names no method is invalid; one that names an unknown method, and a call of a tool
/// without parameters, without a name or of an unknown tool, fail each with its own code.
pub proof fn bad_requests_fail_with_their_code(body: JsonView, id: JsonView)
    requires
        member(body, "id"@) == Some(id),
    ensures
        (forall|method: Seq<char>| !has_text(body, "method"@, method)) ==> fails_with(
            body,
            id,
            -32600,
        ),
        forall|method: Seq<char>| #[trigger]
            has_text(body, "method"@, method) && method != "initialize"@ && method != "ping"@
                && method != "tools/list"@ && method != "tools/call"@ ==> fails_with(
                body,
                id,
                -32601,
            ),
        has_text(body, "method"@, "tools/call"@) && !names_a_listed_tool(body) ==> fails_with(
            body,
            id,
            -32602,
        ),
{
    different_methods();
    answers_carry_the_id(id, JsonView::Null, -32600, "missing method"@);
    answers_carry_the_id(id, JsonView::Null, -32602, "missing params"@);
    answers_carry_the_id(id, JsonView::Null, -32602, "missing params.name"@);
    match member_text(body, "method"@) {
        Some(method) => {
            assert(has_text(body, "method"@, method));
            answers_carry_the_id(id, JsonView::Null, -32601, "unknown method `"@ + method + "`"@);
            if let Some(params) = member(body, "params"@) {
                if let Some(name) = member_text(params, "name"@) {
                    assert(has_text(params, "name"@, name));
                    answers_carry_the_id(
                        id,
                        JsonView::Null,
                        -32602,
                        "unknown tool `"@ + name + "`"@,
                    );
                }
            }
        },
        None => {},
    }
}

/// True iff the request's parameters name a tool that is listed.
pub open spec fn names_a_listed_tool(body: JsonView) -> bool {
    member(body, "params"@) matches Some(params) && exists|name: Seq<char>| #[trigger]
        has_text(params, "name"@, name) && known_tool(name)
}

/// Of two different methods each is told apart from the other.
proof fn different_methods()
    ensures
        "initialize"@ != "ping"@,
        "initialize"@ != "tools/list"@,
        "initialize"@ != "tools/call"@,
        "ping"@ != "tools/list"@,
        "ping"@ != "tools/call"@,
        "tools/list"@ != "tools/call"@,
{
    reveal_strlit("initialize");
    reveal_strlit("ping");
    reveal_strlit("tools/list");
    reveal_strlit("tools/call");
    assert("initialize"@.len() == 10 && "ping"@.len() == 4 && "tools/list"@.len() == 10
        && "tools/call"@.len() == 10);
    assert("initialize"@[0] == 'i' && "tools/list"@[0] == 't' && "tools/call"@[0] == 't');
    assert("tools/list"@[6] == 'l' && "tools/call"@[6] == 'c');
}

/// Each method of the protocol gets its own result, and a call of a listed tool is handed on with its
/// name and its arguments, or with none where it has none.
pub proof fn methods_get_their_results(body: JsonView, id: JsonView, name: Seq<char>)
    requires
        member(body, "id"@) == Some(id),
    ensures
        has_text(body, "method"@, "initialize"@) ==> succeeds_with(
            body,
            id,
            initialize_result_view(),
        ),
        has_text(body, "method"@, "ping"@) ==> succeeds_with(body, id, JsonView::Object(seq![])),
        has_text(body, "method"@, "tools/list"@) ==> succeeds_with(
            body,
            id,
            tools_list_result_view(),
        ),
        has_text(body, "method"@, "tools/call"@) && known_tool(name) ==> (member(
            body,
            "params"@,
        ) matches Some(params) ==> (has_text(params, "name"@, name) ==> http_step(Ok(body))
            == (StepView::Call {
            id,
            name,
            arguments: match member(params, "arguments"@) {
                Some(arguments) => arguments,
                None => JsonView::Object(seq![]),
            },
        }))),
{
    different_methods();
    answers_carry_the_id(id, initialize_result_view(), 0, ""@);
    answers_carry_the_id(id, ping_result_view(), 0, ""@);
    answers_carry_the_id(id, tools_list_result_view(), 0, ""@);
}

/// What does not parse is answered with status 400 and an error under no id, that tells why.
pub proof fn unparsable_requests_are_told_why(message: Seq<char>)
    ensures
        http_step(Err(message)) matches StepView::Respond(response) && response.status == 400 && (
        response.body matches Some(answer) && is_failure(
            answer,
            JsonView::Null,
            -32700,
            "parse error: "@ + message,
        )),
{
    answers_carry_the_id(JsonView::Null, JsonView::Null, -32700, "parse error: "@ + message);
}

// ---- arguments ----

/// An integer is taken exactly where the argument is a whole number of 32 bits; it is that number.
pub proof fn integers_are_taken_exactly_when(arguments: JsonView, name: Seq<char>, n: i32)
    ensures
        integer_argument(arguments, name) == Ok::<i32, Seq<char>>(n) <==> has_integer(
            arguments,
            name,
            n as int,
        ),
        integer_argument(arguments, name) is Err <==> forall|k: int| #[trigger]
            has_integer(arguments, name, k) ==> k < -0x8000_0000 || k > 0x7FFF_FFFF,
{
    if let Ok(k) = integer_argument(arguments, name) {
        assert(has_integer(arguments, name, k as int));
    }
}

/// A position is taken exactly where its three arguments are whole numbers of 32 bits; these are its
/// coordinates, in the order of their names.
pub proof fn positions_are_taken_exactly_when(
    arguments: JsonView,
    x: Seq<char>,
    y: Seq<char>,
    z: Seq<char>,
    p: BlockPos,
)
    ensures
        position_argument(arguments, x, y, z) == Ok::<BlockPos, Seq<char>>(p) <==> has_integer(
            arguments,
            x,
            p.x as int,
        ) && has_integer(arguments, y, p.y as int) && has_integer(arguments, z, p.z as int),
{
    integers_are_taken_exactly_when(arguments, x, p.x);
    integers_are_taken_exactly_when(arguments, y, p.y);
    integers_are_taken_exactly_when(arguments, z, p.z);
}

/// A region is taken exactly where its six arguments are whole numbers of 32 bits, no lower one
/// exceeds the upper one, and it has no more blocks than the limit.
pub proof fn regions_are_taken_exactly_when(arguments: JsonView, limit: i64, region: Region)
    ensures
        region_argument(arguments, limit) == Ok::<Region, Seq<char>>(region) <==> {
            &&& has_integer(arguments, "min_x"@, region.min.x as int)
            &&& has_integer(arguments, "min_y"@, region.min.y as int)
            &&& has_integer(arguments, "min_z"@, region.min.z as int)
            &&& has_integer(arguments, "max_x"@, region.max.x as int)
            &&& has_integer(arguments, "max_y"@, region.max.y as int)
            &&& has_integer(arguments, "max_z"@, region.max.z as int)
            &&& lies_in(region.min, region)
            &&& lies_in(region.max, region)
            &&& (region.max.x - region.min.x + 1) * (region.max.y - region.min.y + 1) * (
            region.max.z - region.min.z + 1) <= limit
        },
{
    positions_are_taken_exactly_when(arguments, "min_x"@, "min_y"@, "min_z"@, region.min);
    positions_are_taken_exactly_when(arguments, "max_x"@, "max_y"@, "max_z"@, region.max);
}

/// A text is taken exactly where the argument is a text that is not empty and not too long.
pub proof fn texts_are_taken_exactly_when(
    arguments: JsonView,
    name: Seq<char>,
    max_bytes: nat,
    value: Seq<char>,
)
    ensures
        bounded_text(arguments, name, max_bytes) == Some(value) <==> has_text(
            arguments,
            name,
            value,
        ) && value.len() > 0 && utf8_len(value) <= max_bytes,
        owed_text(arguments, name, max_bytes) == Ok::<Seq<char>, Seq<char>>(value) <==> has_text(
            arguments,
            name,
            value,
        ) && value.len() > 0 && utf8_len(value) <= max_bytes,
{
}

/// A version may be missing; one that is there is taken exactly where it is a whole number of 32 bits
/// that is not negative.
pub proof fn versions_are_taken_exactly_when(arguments: JsonView, version: u32)
    ensures
        version_argument(arguments) == Ok::<Option<u32>, Seq<char>>(None) <==> member(
            arguments,
            "version"@,
        ) is None,
        version_argument(arguments) == Ok::<Option<u32>, Seq<char>>(Some(version)) <==> has_integer(
            arguments,
            "version"@,
            version as int,
        ),
{
}

/// A block is taken exactly where the argument names air or a block of the palette.
pub proof fn blocks_are_taken_by_name(arguments: JsonView, i: int)
    requires
        0 <= i < palette().len(),
    ensures
        has_text(arguments, "block"@, palette()[i].name@) ==> block_argument(arguments)
            == Ok::<BlockState, Seq<char>>(palette()[i].block),
        has_text(arguments, "block"@, "minecraft:"@ + palette()[i].name@) ==> block_argument(
            arguments,
        ) == Ok::<BlockState, Seq<char>>(palette()[i].block),
        has_text(arguments, "block"@, "air"@) ==> block_argument(arguments) == Ok::<
            BlockState,
            Seq<char>,
        >(0u16),
        block_argument(arguments) matches Ok(block) ==> block == 0 || in_palette(block),
        (forall|name: Seq<char>| !has_text(arguments, "block"@, name)) ==> block_argument(
            arguments,
        ) is Err,
{
    palette_names_are_plain(i);
    plain_names_stay(palette()[i].name@);
    lookups_round_trip(i);
    reveal_strlit("air");
    assert(is_plain("air"@) && "air"@.len() == 3);
    plain_names_stay("air"@);
    if let Some(name) = member_text(arguments, "block"@) {
        assert(has_text(arguments, "block"@, name));
        if named_block(name) is Some && named_block(name) != Some(0u16) {
            let plain = plain_name(plain_name(name));
            let k = entry_named(palette(), plain, 0)->0;
            entry_named_is_in_range(plain, 0);
            assert(palette()[k].block == named_block(name)->0);
        }
    }
}

proof fn entry_named_is_in_range(name: Seq<char>, i: int)
    requires
        0 <= i <= palette().len(),
    ensures
        entry_named(palette(), name, i) matches Some(k) ==> i <= k < palette().len()
            && palette()[k].name@ == name,
    decreases palette().len() - i,
{
    if i < palette().len() {
        entry_named_is_in_range(name, i + 1);
    }
}

proof fn palette_is_not_empty()
    ensures
        palette().len() > 0,
{
}

/// The name of a block in answers names it among the arguments too.
pub proof fn answered_names_are_taken(arguments: JsonView, block: BlockState)
    requires
        block == 0 || in_palette(block) && block != 79,
        has_text(arguments, "block"@, block_name(block)),
    ensures
        block_argument(arguments) == Ok::<BlockState, Seq<char>>(block),
{
    if block == 0 {
        palette_is_not_empty();
        blocks_are_taken_by_name(arguments, 0);
    } else {
        let i = choose|i: int| 0 <= i < palette().len() && (#[trigger] palette()[i]).block == block;
        lookups_round_trip(i);
        blocks_are_taken_by_name(arguments, i);
    }
}

/// Air and bedrock are named so, a block of the palette by its name there, and any other block by its
/// text in the registry; no two blocks of the palette have one name.
pub proof fn blocks_are_answered_by_name(i: int, j: int, block: BlockState)
    requires
        0 <= i < palette().len(),
        0 <= j < palette().len(),
    ensures
        block_name(0) == "air"@,
        block_name(79) == "bedrock"@,
        palette()[i].block != 0 && palette()[i].block != 79 ==> block_name(palette()[i].block)
            == palette()[i].name@,
        i != j ==> palette()[i].name@ != palette()[j].name@ && palette()[i].block
            != palette()[j].block,
        block != 0 && block != 79 && !in_palette(block) ==> block_name(block) == state_text(block),
{
    lookups_round_trip(i);
    lookups_round_trip(j);
    if i < j {
        palette_is_unique(i, j);
    } else if j < i {
        palette_is_unique(j, i);
    }
    if palette_name(block) is Some {
        found_entry(block, 0);
        let k = entry_for(palette(), block, 0)->0;
        assert(palette()[k].block == block);
    }
}

/// A call that came to nothing is told why: what the tool said, that the queue was closed, that no
/// reply came in time, or that none could come.
pub proof fn failed_calls_are_told_why(outcome: ToolOutcome)
    ensures
        outcome_message(outcome) is None <==> (outcome matches ToolOutcome::Reply(reply) && reply
            is Ok),
        outcome matches ToolOutcome::Reply(Err(message)) ==> outcome_message(outcome) == Some(
            message@,
        ),
        outcome is QueueClosed ==> outcome_message(outcome) == Some(
            "MCP world request queue is closed"@,
        ),
        outcome is TimedOut ==> outcome_message(outcome) == Some(
            "MCP tool timed out waiting for server tick"@,
        ),
        outcome is Disconnected ==> outcome_message(outcome) == Some(
            "MCP world response channel closed"@,
        ),
{
}

/// The server says which protocol it speaks, that it has tools whose list does not change, and its name.
pub proof fn server_says_what_it_is()
    ensures
        ({
            let said = initialize_result_view();
            &&& has_text(said, "protocolVersion"@, "2025-06-18"@)
            &&& member(said, "serverInfo"@) matches Some(info) && has_text(
                info,
                "name"@,
                "world-loom-server"@,
            ) && has_text(info, "version"@, "0.1.0"@)
            &&& member(said, "capabilities"@) matches Some(capabilities) && (member(
                capabilities,
                "tools"@,
            ) matches Some(tools) && member(tools, "listChanged"@) == Some(JsonView::Bool(false)))
        }),
{
    reveal_strlit("capabilities");
    reveal_strlit("instructions");
    reveal_strlit("protocolVersion");
    reveal_strlit("serverInfo");
    reveal_strlit("name");
    reveal_strlit("version");
    assert("capabilities"@.len() == 12 && "instructions"@.len() == 12 && "protocolVersion"@.len()
        == 15 && "serverInfo"@.len() == 10 && "name"@.len() == 4 && "version"@.len() == 7);
    assert("capabilities"@[0] == 'c' && "instructions"@[0] == 'i');
    let members = initialize_result_view()->Object_0;
    first_member(members, "capabilities"@, 0);
    first_member(members, "protocolVersion"@, 2);
    first_member(members, "serverInfo"@, 3);
    let capabilities = members[0].1->Object_0;
    first_member(capabilities, "tools"@, 0);
    first_member(capabilities[0].1->Object_0, "listChanged"@, 0);
    let info = members[3].1->Object_0;
    first_member(info, "name"@, 0);
    first_member(info, "version"@, 1);
}

} // verus!
