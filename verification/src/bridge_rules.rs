//! Who is let in by the bridge, with what settings it runs, and what it answers itself.

use vstd::prelude::*;
use crate::bridge::{
    admits, answered_origin, authorizes, bearer_token, bounded_setting, connected_body, default_origins, first_space,
    is_connected, is_error_reply, lets_in, named_origins, origin_in, origins_from, ping_id, token_digest, BridgeReply, OriginsView,
    PendingConnections, DEFAULT_MAX_PENDING_CONNECTIONS, DEFAULT_TCP_READ_BUFFER_BYTES,
    DEFAULT_WS_QUEUE_CAPACITY, MAX_MAX_PENDING_CONNECTIONS, MAX_TCP_READ_BUFFER_BYTES,
    MAX_WS_QUEUE_CAPACITY, MIN_MAX_PENDING_CONNECTIONS, MIN_TCP_READ_BUFFER_BYTES,
    MIN_WS_QUEUE_CAPACITY,
};
use crate::json::json_string;
use crate::text::{ascii_lowered, decimal_nat, parsed_unsigned, trimmed};
use crate::text_rules::{prefixes_are_taken_away, stands_between};
use crate::written_rules::writes;

verus! {

// ---- settings ----

/// True iff the setting is the number that the text writes, where that lies from `low` to `high`; the
/// nearer end where it does not; and `usual` where the text writes no number of a size, or is missing.
pub open spec fn is_setting(raw: Option<Seq<char>>, value: int, low: int, usual: int, high: int) -> bool {
    match raw {
        None => value == usual,
        Some(text) => match parsed_unsigned(trimmed(text)) {
            None => value == usual,
            Some(n) => {
                &&& low <= n <= high ==> value == n
                &&& n < low ==> value == low
                &&& high < n <= usize::MAX ==> value == high
                &&& n > usize::MAX ==> value == usual
            },
        },
    }
}

/// The buffer has 4096 to 65536 bytes, 16384 as a rule; the queue 16 to 8192 messages, 1024 as a rule;
/// and 1 to 1024 connections may wait, 128 as a rule.
pub proof fn settings_keep_their_ranges(raw: Option<Seq<char>>)
    ensures
        is_setting(
            raw,
            bounded_setting(
                raw,
                DEFAULT_TCP_READ_BUFFER_BYTES as int,
                MIN_TCP_READ_BUFFER_BYTES as int,
                MAX_TCP_READ_BUFFER_BYTES as int,
                usize::MAX as int,
            ),
            4096,
            16384,
            65536,
        ),
        is_setting(
            raw,
            bounded_setting(
                raw,
                DEFAULT_WS_QUEUE_CAPACITY as int,
                MIN_WS_QUEUE_CAPACITY as int,
                MAX_WS_QUEUE_CAPACITY as int,
                usize::MAX as int,
            ),
            16,
            1024,
            8192,
        ),
        is_setting(
            raw,
            bounded_setting(
                raw,
                DEFAULT_MAX_PENDING_CONNECTIONS as int,
                MIN_MAX_PENDING_CONNECTIONS as int,
                MAX_MAX_PENDING_CONNECTIONS as int,
                usize::MAX as int,
            ),
            1,
            128,
            1024,
        ),
{
}

// ---- origins ----

/// True iff no comma stands in `a..b`.
pub open spec fn no_comma(raw: Seq<char>, a: int, b: int) -> bool {
    forall|k: int| a <= k < b ==> #[trigger] raw[k] != ','
}

/// True iff `a..b` is a piece of the list: commas or the ends of the text stand around it, and none in
/// it.
pub open spec fn is_piece(raw: Seq<char>, a: int, b: int) -> bool {
    &&& 0 <= a <= b <= raw.len()
    &&& a == 0 || raw[a - 1] == ','
    &&& b == raw.len() || raw[b] == ','
    &&& no_comma(raw, a, b)
}

/// True iff a piece of the list from `start` on writes the origin, with white space around it or not.
pub open spec fn writes_origin(raw: Seq<char>, start: int, origin: Seq<char>) -> bool {
    origin.len() > 0 && exists|a: int, b: int|
        start <= a && #[trigger] is_piece(raw, a, b) && trimmed(raw.subrange(a, b)) == origin
}

proof fn origins_in_pieces(raw: Seq<char>, start: int, i: int, origin: Seq<char>)
    requires
        0 <= start <= i <= raw.len(),
        start == 0 || raw[start - 1] == ',',
        no_comma(raw, start, i),
    ensures
        origins_from(raw, start, i).contains(origin) <==> writes_origin(raw, start, origin),
    decreases raw.len() - i,
{
    if i >= raw.len() {
        let piece = raw.subrange(start, raw.len() as int);
        assert(is_piece(raw, start, raw.len() as int));
        if origin_in(piece).contains(origin) {
            assert(writes_origin(raw, start, origin));
        }
        if writes_origin(raw, start, origin) {
            let (a, b) = choose|a: int, b: int|
                start <= a && #[trigger] is_piece(raw, a, b) && trimmed(raw.subrange(a, b))
                    == origin;
            if a > start {
                assert(raw[a - 1] == ',');
            }
            if b < raw.len() {
                assert(raw[b] == ',');
            }
            assert(a == start && b == raw.len());
            assert(origin_in(piece)[0] == origin);
        }
    } else if raw[i] == ',' {
        let piece = raw.subrange(start, i);
        let rest = origins_from(raw, i + 1, i + 1);
        origins_in_pieces(raw, i + 1, i + 1, origin);
        assert(is_piece(raw, start, i));
        let all = origin_in(piece) + rest;
        if all.contains(origin) {
            let k = choose|k: int| 0 <= k < all.len() && all[k] == origin;
            if k < origin_in(piece).len() {
                assert(trimmed(piece) == origin);
                assert(writes_origin(raw, start, origin));
            } else {
                assert(rest[k - origin_in(piece).len()] == origin);
                assert(writes_origin(raw, i + 1, origin));
                let (a, b) = choose|a: int, b: int|
                    i + 1 <= a && #[trigger] is_piece(raw, a, b) && trimmed(raw.subrange(a, b))
                        == origin;
                assert(start <= a && is_piece(raw, a, b));
                assert(writes_origin(raw, start, origin));
            }
        }
        if writes_origin(raw, start, origin) {
            let (a, b) = choose|a: int, b: int|
                start <= a && #[trigger] is_piece(raw, a, b) && trimmed(raw.subrange(a, b))
                    == origin;
            if start < a <= i {
                assert(raw[a - 1] == ',');
            }
            if a == start {
                if b > i {
                    assert(raw[i] != ',');
                }
                if b < i {
                    assert(raw[b] == ',');
                }
                assert(b == i);
                assert(all[0] == origin);
            } else {
                assert(i + 1 <= a && is_piece(raw, a, b));
                assert(writes_origin(raw, i + 1, origin));
                let k = choose|k: int| 0 <= k < rest.len() && rest[k] == origin;
                assert(all[origin_in(piece).len() + k] == origin);
            }
        }
    } else {
        origins_in_pieces(raw, start, i + 1, origin);
    }
}

/// The origins that are let in are those that the list writes between its commas; a star lets all in;
/// and where no origin is written, or nothing is, the two local ones are let in, and no other.
pub proof fn origins_are_let_in_exactly_when(raw: Seq<char>, origin: Seq<char>)
    ensures
        trimmed(raw) == seq!['*'] ==> lets_in(named_origins(Some(raw)), origin),
        trimmed(raw) != seq!['*'] && (exists|other: Seq<char>| writes_origin(raw, 0, other)) ==> (
        lets_in(named_origins(Some(raw)), origin) <==> writes_origin(raw, 0, origin)),
        trimmed(raw) != seq!['*'] && !(exists|other: Seq<char>| writes_origin(raw, 0, other)) ==> (
        lets_in(named_origins(Some(raw)), origin) <==> origin == "http://localhost:3000"@ || origin
            == "http://127.0.0.1:3000"@),
        lets_in(named_origins(None), origin) <==> origin == "http://localhost:3000"@ || origin
            == "http://127.0.0.1:3000"@,
{
    origins_in_pieces(raw, 0, 0, origin);
    let list = origins_from(raw, 0, 0);
    let local = default_origins();
    assert(local[0] == "http://localhost:3000"@ && local[1] == "http://127.0.0.1:3000"@);
    if list.len() > 0 {
        origins_in_pieces(raw, 0, 0, list[0]);
        assert(list.contains(list[0]));
        assert(writes_origin(raw, 0, list[0]));
    }
    if exists|other: Seq<char>| writes_origin(raw, 0, other) {
        let other = choose|other: Seq<char>| writes_origin(raw, 0, other);
        origins_in_pieces(raw, 0, 0, other);
        assert(list.contains(other));
    }
}

/// A request without an origin is let in, and one with an origin exactly where that is; the answer
/// names a star where all are let in, else the request's own origin where it is let in, else none.
pub proof fn answers_name_the_origin_that_asked(origins: OriginsView, origin: Seq<char>)
    ensures
        admits(origins, None),
        admits(origins, Some(origin)) <==> lets_in(origins, origin),
        origins is Any ==> answered_origin(origins, Some(origin)) == "*"@ && answered_origin(
            origins,
            None,
        ) == "*"@,
        !(origins is Any) ==> answered_origin(origins, None) == "null"@,
        !(origins is Any) && lets_in(origins, origin) ==> answered_origin(origins, Some(origin))
            == origin,
        !lets_in(origins, origin) ==> answered_origin(origins, Some(origin)) == "null"@,
{
}

// ---- authorization ----

/// True iff the header is the scheme, one space and the token, with no space in the scheme.
pub open spec fn is_header(header: Seq<char>, scheme: Seq<char>, token: Seq<char>) -> bool {
    header == scheme + seq![' '] + token && forall|i: int|
        0 <= i < scheme.len() ==> #[trigger] scheme[i] != ' '
}

proof fn space_is_first(s: Seq<char>, i: int)
    requires
        0 <= i <= s.len(),
    ensures
        match first_space(s, i) {
            Some(k) => i <= k < s.len() && s[k] == ' ' && forall|j: int|
                i <= j < k ==> #[trigger] s[j] != ' ',
            None => forall|j: int| i <= j < s.len() ==> #[trigger] s[j] != ' ',
        },
    decreases s.len() - i,
{
    if i < s.len() && s[i] != ' ' {
        space_is_first(s, i + 1);
    }
}

/// Where a token is asked for, a request may call tools exactly where its header is the bearer scheme,
/// in letters of either case, one space and a token of the digest; where none is, it always may.
pub proof fn tools_may_be_called_exactly_when(digest: Seq<u8>, header: Seq<char>)
    ensures
        authorizes(None, Some(header)) && authorizes(None, None),
        !authorizes(Some(digest), None),
        authorizes(Some(digest), Some(header)) <==> exists|scheme: Seq<char>, token: Seq<char>|
            #[trigger]
            is_header(header, scheme, token) && ascii_lowered(scheme) == "bearer"@ && token.len() > 0
                && token_digest(token) == digest,
{
    space_is_first(header, 0);
    if authorizes(Some(digest), Some(header)) {
        let k = first_space(header, 0)->0;
        let scheme = header.take(k);
        let token = header.skip(k + 1);
        assert(header =~= scheme + seq![' '] + token);
        assert forall|i: int| 0 <= i < scheme.len() implies #[trigger] scheme[i] != ' ' by {
            assert(header[i] != ' ');
        }
        assert(is_header(header, scheme, token));
    }
    if exists|scheme: Seq<char>, token: Seq<char>| #[trigger]
        is_header(header, scheme, token) && ascii_lowered(scheme) == "bearer"@ && token.len() > 0
            && token_digest(token) == digest {
        let (scheme, token) = choose|scheme: Seq<char>, token: Seq<char>| #[trigger]
            is_header(header, scheme, token) && ascii_lowered(scheme) == "bearer"@ && token.len() > 0
                && token_digest(token) == digest;
        let n = scheme.len() as int;
        assert(header[n] == ' ');
        assert forall|i: int| 0 <= i < n implies #[trigger] header[i] != ' ' by {
            assert(scheme[i] == header[i]);
        }
        assert(first_space(header, 0) == Some(n));
        assert(header.take(n) =~= scheme);
        assert(header.skip(n + 1) =~= token);
        assert(bearer_token(header) == Some(token));
    }
}

// ---- connections and pings ----

/// A new connection is kept under its token exactly where there is room, beside those that wait
/// already, and answered with status 200; where there is none, nothing changes and the status is 503.
pub proof fn connections_are_kept_while_there_is_room<S>(
    before: PendingConnections<S>,
    after: PendingConnections<S>,
    stream: S,
    token: Seq<char>,
    host: Seq<char>,
    port: u16,
    reply: BridgeReply,
    other: Seq<char>,
)
    requires
        is_connected(before, after, stream, token, host, port, reply),
    ensures
        reply.status == 200 <==> before.connections.spec_keys().len() < before.capacity,
        reply.status == 200 || reply.status == 503,
        reply.status == 503 ==> after == before,
        reply.status == 200 ==> {
            &&& after.connections@.contains_key(token)
            &&& after.connections@[token] == stream
            &&& other != token ==> after.connections@.contains_key(other)
                == before.connections@.contains_key(other) && after.connections@[other]
                == before.connections@[other]
        },
{
}

/// A text is a ping exactly where `ping:` stands before its id.
pub proof fn pings_are_told_apart(text: Seq<char>, id: Seq<char>)
    ensures
        ping_id(text) == Some(id) <==> text == "ping:"@ + id,
{
    prefixes_are_taken_away("ping:"@, id, text);
}

proof fn piece_is_written(head: Seq<char>, piece: Seq<char>, tail: Seq<char>)
    ensures
        writes(head + piece + tail, piece),
{
    assert(stands_between(head + piece + tail, head, piece, tail));
}

/// A client is told of its connection by the token that it is kept under, and by the host and the port
/// that it asked for, each under its own name.
pub proof fn clients_are_told_their_token(token: Seq<char>, host: Seq<char>, port: u16)
    ensures
        ({
            let body = connected_body(token, host, port);
            &&& writes(body, "\"token\":"@ + json_string(token))
            &&& writes(body, "\"address\":"@ + json_string(host))
            &&& writes(body, "\"port\":"@ + decimal_nat(port as nat) + "}}"@)
        }),
{
    reveal_strlit("{\"token\":");
    reveal_strlit("{");
    reveal_strlit("\"token\":");
    reveal_strlit(",\"remote\":{\"address\":");
    reveal_strlit(",\"remote\":{");
    reveal_strlit("\"address\":");
    reveal_strlit(",\"family\":\"IPv4\",\"port\":");
    reveal_strlit(",\"family\":\"IPv4\",");
    reveal_strlit("\"port\":");
    let t = json_string(token);
    let h = json_string(host);
    let p = decimal_nat(port as nat);
    let k1 = "\"token\":"@;
    let k2 = "\"address\":"@;
    let k3 = "\"port\":"@;
    let s2 = ",\"remote\":{"@;
    let s3 = ",\"family\":\"IPv4\","@;
    assert("{\"token\":"@ =~= "{"@ + k1);
    assert(",\"remote\":{\"address\":"@ =~= s2 + k2);
    assert(",\"family\":\"IPv4\",\"port\":"@ =~= s3 + k3);
    three_parts(t, h, p, k1, k2, k3, s2, s3);
}

proof fn three_parts(
    t: Seq<char>,
    h: Seq<char>,
    p: Seq<char>,
    k1: Seq<char>,
    k2: Seq<char>,
    k3: Seq<char>,
    s2: Seq<char>,
    s3: Seq<char>,
)
    ensures
        ({
            let body = ("{"@ + k1) + t + (s2 + k2) + h + (s3 + k3) + p + "}}"@;
            writes(body, k1 + t) && writes(body, k2 + h) && writes(body, k3 + p + "}}"@)
        }),
{
    let body = ("{"@ + k1) + t + (s2 + k2) + h + (s3 + k3) + p + "}}"@;
    let none = Seq::<char>::empty();
    let r4 = (s3 + k3) + p + "}}"@;
    let r3 = h + r4;
    let head3 = ("{"@ + k1) + t + (s2 + k2) + h;
    assert(body =~= head3 + r4);
    assert(body =~= "{"@ + (k1 + t) + ((s2 + k2) + r3));
    piece_is_written("{"@, k1 + t, (s2 + k2) + r3);
    let head2 = ("{"@ + k1) + t + s2;
    assert(body =~= head2 + (k2 + h) + r4);
    piece_is_written(head2, k2 + h, r4);
    assert(body =~= (head3 + s3) + (k3 + p + "}}"@) + none);
    piece_is_written(head3 + s3, k3 + p + "}}"@, none);
}

/// A reply that reports an error has the error's number as its status and in its body, and the error's
/// text beside it.
pub proof fn error_replies_say_their_number(reply: BridgeReply, status: u16, error: Seq<char>)
    requires
        is_error_reply(reply, status, error),
    ensures
        reply.status == status,
        writes(reply.body@, "{\"code\":"@ + decimal_nat(status as nat)),
        writes(reply.body@, ",\"error\":"@ + json_string(error)),
{
    let a = "{\"code\":"@ + decimal_nat(status as nat);
    let b = ",\"error\":"@ + json_string(error);
    let none = Seq::<char>::empty();
    assert(reply.body@ =~= none + a + (b + "}"@));
    piece_is_written(none, a, b + "}"@);
    assert(reply.body@ =~= a + b + "}"@);
    piece_is_written(a, b, "}"@);
}

} // verus!
