//! The browser bridge: its settings, whom it lets in, and what it answers.

use vstd::prelude::*;
use vstd::string::StringExecFns;
use vstd::utf8::encode_utf8;
use crate::digest::{sha256, sha256_of};
use crate::ids::{is_simple_id, new_simple_id};
use crate::json::{json_string, json_string_text, slice_text};
use crate::ordered_map::OrderedMap;
use crate::text::{
    ascii_lowered, chars_of, decimal_nat, has_prefix, lower_chars, parse_unsigned, parsed_unsigned,
    prefixed, push_u64, same_text, starts_with, text_of, trim_chars, trimmed,
};

verus! {

pub const BRIDGE_ADDR_ENV: &'static str = "WORLD_LOOM_BRIDGE_ADDR";

pub const BRIDGE_ALLOWED_ORIGINS_ENV: &'static str = "WORLD_LOOM_ALLOWED_ORIGINS";

pub const BRIDGE_TCP_READ_BUFFER_BYTES_ENV: &'static str =
    "WORLD_LOOM_BRIDGE_TCP_READ_BUFFER_BYTES";

pub const BRIDGE_WS_QUEUE_CAPACITY_ENV: &'static str = "WORLD_LOOM_BRIDGE_WS_QUEUE_CAPACITY";

pub const BRIDGE_MAX_PENDING_CONNECTIONS_ENV: &'static str =
    "WORLD_LOOM_BRIDGE_MAX_PENDING_CONNECTIONS";

pub const MCP_API_KEY_FILE_ENV: &'static str = "WORLD_LOOM_MCP_API_KEY_FILE";

pub const DEFAULT_BRIDGE_ADDR: &'static str = "127.0.0.1:18081";

pub const API_ROOT: &'static str = "/api/vm/net";

pub const DEFAULT_TCP_READ_BUFFER_BYTES: usize = 16384;

pub const MIN_TCP_READ_BUFFER_BYTES: usize = 4096;

pub const MAX_TCP_READ_BUFFER_BYTES: usize = 65536;

pub const DEFAULT_WS_QUEUE_CAPACITY: usize = 1024;

pub const MIN_WS_QUEUE_CAPACITY: usize = 16;

pub const MAX_WS_QUEUE_CAPACITY: usize = 8192;

pub const DEFAULT_MAX_PENDING_CONNECTIONS: usize = 128;

pub const MIN_MAX_PENDING_CONNECTIONS: usize = 1;

pub const MAX_MAX_PENDING_CONNECTIONS: usize = 1024;

/// Why the bridge did not start. Errors of the operating system are held by their text.
#[derive(Debug, PartialEq, Eq)]
pub enum BridgeError {
    InvalidAddress(String),
    Bind(String),
    Runtime(String),
    Startup(String),
}

impl BridgeError {
    pub open spec fn spec_message(self) -> Seq<char> {
        match self {
            BridgeError::InvalidAddress(address) => "invalid bridge address: "@ + address@,
            BridgeError::Bind(error) => "failed to bind browser bridge: "@ + error@,
            BridgeError::Runtime(error) => "failed to start bridge runtime: "@ + error@,
            BridgeError::Startup(message) => "failed to start browser bridge: "@ + message@,
        }
    }

    /// The text of the error.
    pub fn message(&self) -> (r: String)
        ensures
            r@ == self.spec_message(),
    {
        match self {
            BridgeError::InvalidAddress(address) => prefixed(
                "invalid bridge address: ",
                address.as_str(),
            ),
            BridgeError::Bind(error) => prefixed("failed to bind browser bridge: ", error.as_str()),
            BridgeError::Runtime(error) => prefixed(
                "failed to start bridge runtime: ",
                error.as_str(),
            ),
            BridgeError::Startup(message) => prefixed(
                "failed to start browser bridge: ",
                message.as_str(),
            ),
        }
    }
}

// ---- settings ----

/// `value`, moved into `min..=max`.
pub open spec fn clamped(value: int, min: int, max: int) -> int {
    if value < min {
        min
    } else if value > max {
        max
    } else {
        value
    }
}

/// A setting: the number that the text writes, moved into its range, or the default where there is
/// no text, or it writes no number, or one above `largest`.
pub open spec fn bounded_setting(
    raw: Option<Seq<char>>,
    default: int,
    min: int,
    max: int,
    largest: int,
) -> int {
    match raw {
        None => default,
        Some(raw) => match parsed_unsigned(trimmed(raw)) {
            None => default,
            Some(value) => if value <= largest {
                clamped(value as int, min, max)
            } else {
                default
            },
        },
    }
}

pub fn bounded_env_value(raw: Option<&str>, default: usize, min: usize, max: usize) -> (r: usize)
    requires
        min <= max,
    ensures
        r == bounded_setting(
            slice_text(raw),
            default as int,
            min as int,
            max as int,
            usize::MAX as int,
        ),
{
    let raw = match raw {
        Some(raw) => raw,
        None => return default,
    };
    match parse_unsigned(&trim_chars(&chars_of(raw)), usize::MAX as u64) {
        Some(value) => {
            let value: usize = value as usize;
            if value < min {
                min
            } else if value > max {
                max
            } else {
                value
            }
        },
        None => default,
    }
}

#[derive(Debug, Clone, Copy, PartialEq, Eq, Structural)]
pub struct BridgeConfig {
    pub tcp_read_buffer_bytes: usize,
    pub ws_queue_capacity: usize,
    pub max_pending_connections: usize,
}

impl BridgeConfig {
    /// True iff every setting lies in its range.
    pub open spec fn in_range(self) -> bool {
        &&& MIN_TCP_READ_BUFFER_BYTES <= self.tcp_read_buffer_bytes <= MAX_TCP_READ_BUFFER_BYTES
        &&& MIN_WS_QUEUE_CAPACITY <= self.ws_queue_capacity <= MAX_WS_QUEUE_CAPACITY
        &&& MIN_MAX_PENDING_CONNECTIONS <= self.max_pending_connections
            <= MAX_MAX_PENDING_CONNECTIONS
    }

    /// The settings that the environment's texts write.
    pub fn from_env(
        tcp_read_buffer_bytes: Option<&str>,
        ws_queue_capacity: Option<&str>,
        max_pending_connections: Option<&str>,
    ) -> (r: Self)
        ensures
            r.tcp_read_buffer_bytes == bounded_setting(
                slice_text(tcp_read_buffer_bytes),
                DEFAULT_TCP_READ_BUFFER_BYTES as int,
                MIN_TCP_READ_BUFFER_BYTES as int,
                MAX_TCP_READ_BUFFER_BYTES as int,
                usize::MAX as int,
            ),
            r.ws_queue_capacity == bounded_setting(
                slice_text(ws_queue_capacity),
                DEFAULT_WS_QUEUE_CAPACITY as int,
                MIN_WS_QUEUE_CAPACITY as int,
                MAX_WS_QUEUE_CAPACITY as int,
                usize::MAX as int,
            ),
            r.max_pending_connections == bounded_setting(
                slice_text(max_pending_connections),
                DEFAULT_MAX_PENDING_CONNECTIONS as int,
                MIN_MAX_PENDING_CONNECTIONS as int,
                MAX_MAX_PENDING_CONNECTIONS as int,
                usize::MAX as int,
            ),
            r.in_range(),
    {
        BridgeConfig {
            tcp_read_buffer_bytes: bounded_env_value(
                tcp_read_buffer_bytes,
                DEFAULT_TCP_READ_BUFFER_BYTES,
                MIN_TCP_READ_BUFFER_BYTES,
                MAX_TCP_READ_BUFFER_BYTES,
            ),
            ws_queue_capacity: bounded_env_value(
                ws_queue_capacity,
                DEFAULT_WS_QUEUE_CAPACITY,
                MIN_WS_QUEUE_CAPACITY,
                MAX_WS_QUEUE_CAPACITY,
            ),
            max_pending_connections: bounded_env_value(
                max_pending_connections,
                DEFAULT_MAX_PENDING_CONNECTIONS,
                MIN_MAX_PENDING_CONNECTIONS,
                MAX_MAX_PENDING_CONNECTIONS,
            ),
        }
    }
}

// ---- origins ----

/// The origins whose browsers are let in.
#[derive(Debug, PartialEq, Eq)]
pub enum AllowedOrigins {
    Any,
    List(Vec<String>),
}

/// What the allowed origins are.
pub enum OriginsView {
    Any,
    List(Seq<Seq<char>>),
}

impl View for AllowedOrigins {
    type V = OriginsView;

    open spec fn view(&self) -> OriginsView {
        match self {
            AllowedOrigins::Any => OriginsView::Any,
            AllowedOrigins::List(origins) => OriginsView::List(origin_texts(origins@)),
        }
    }
}

pub open spec fn origin_texts(origins: Seq<String>) -> Seq<Seq<char>> {
    origins.map_values(|origin: String| origin@)
}

/// The origins that are let in where none are named.
pub open spec fn default_origins() -> Seq<Seq<char>> {
    seq!["http://localhost:3000"@, "http://127.0.0.1:3000"@]
}

/// The origin in a piece of a list: its text without white space around it, where there is any.
pub open spec fn origin_in(piece: Seq<char>) -> Seq<Seq<char>> {
    if trimmed(piece).len() == 0 {
        Seq::empty()
    } else {
        seq![trimmed(piece)]
    }
}

/// The origins of a list with commas between them: from `start` on, where no comma stands in
/// `start..i`.
pub open spec fn origins_from(raw: Seq<char>, start: int, i: int) -> Seq<Seq<char>>
    decreases raw.len() - i,
{
    if i >= raw.len() {
        origin_in(raw.subrange(start, raw.len() as int))
    } else if raw[i] == ',' {
        origin_in(raw.subrange(start, i)) + origins_from(raw, i + 1, i + 1)
    } else {
        origins_from(raw, start, i + 1)
    }
}

/// The origins that a text names: a star lets all in, and an empty list stands for the default.
pub open spec fn named_origins(raw: Option<Seq<char>>) -> OriginsView {
    match raw {
        None => OriginsView::List(default_origins()),
        Some(raw) => if trimmed(raw) == seq!['*'] {
            OriginsView::Any
        } else if origins_from(raw, 0, 0).len() == 0 {
            OriginsView::List(default_origins())
        } else {
            OriginsView::List(origins_from(raw, 0, 0))
        },
    }
}

/// True iff an origin is let in.
pub open spec fn lets_in(origins: OriginsView, origin: Seq<char>) -> bool {
    match origins {
        OriginsView::Any => true,
        OriginsView::List(list) => list.contains(origin),
    }
}

fn local_origins() -> (r: AllowedOrigins)
    ensures
        r@ == OriginsView::List(default_origins()),
{
    let mut origins: Vec<String> = Vec::new();
    origins.push("http://localhost:3000".to_owned());
    origins.push("http://127.0.0.1:3000".to_owned());
    proof {
        assert(origin_texts(origins@) =~= default_origins());
    }
    AllowedOrigins::List(origins)
}

fn push_origin(origins: &mut Vec<String>, chars: &Vec<char>, start: usize, end: usize)
    requires
        start <= end <= chars@.len(),
    ensures
        origin_texts(final(origins)@) == origin_texts(old(origins)@) + origin_in(
            chars@.subrange(start as int, end as int),
        ),
{
    let ghost before = origin_texts(origins@);
    let piece = chars_of(text_of(chars, start, end).as_str());
    let origin = trim_chars(&piece);
    if origin.len() > 0 {
        let text = text_of(&origin, 0, origin.len());
        proof {
            assert(origin@.subrange(0, origin@.len() as int) =~= origin@);
        }
        origins.push(text);
        proof {
            assert(origin_texts(origins@) =~= before + seq![origin@]);
        }
    } else {
        proof {
            assert(before + Seq::<Seq<char>>::empty() =~= before);
        }
    }
}

fn split_origins(chars: &Vec<char>) -> (r: Vec<String>)
    ensures
        origin_texts(r@) == origins_from(chars@, 0, 0),
{
    let mut origins: Vec<String> = Vec::new();
    let mut start: usize = 0;
    let mut i: usize = 0;
    proof {
        assert(origin_texts(origins@) + origins_from(chars@, 0, 0) =~= origins_from(chars@, 0, 0));
    }
    while i < chars.len()
        invariant
            start <= i <= chars@.len(),
            origin_texts(origins@) + origins_from(chars@, start as int, i as int) == origins_from(
                chars@,
                0,
                0,
            ),
        decreases chars@.len() - i,
    {
        if chars[i] == ',' {
            let ghost before = origin_texts(origins@);
            push_origin(&mut origins, chars, start, i);
            proof {
                let piece = origin_in(chars@.subrange(start as int, i as int));
                let rest = origins_from(chars@, i + 1, i + 1);
                assert(before + (piece + rest) =~= (before + piece) + rest);
            }
            i = i + 1;
            start = i;
        } else {
            i = i + 1;
        }
    }
    push_origin(&mut origins, chars, start, i);
    origins
}

impl AllowedOrigins {
    /// The origins that the environment's text names.
    pub fn from_env(raw: Option<&str>) -> (r: Self)
        ensures
            r@ == named_origins(slice_text(raw)),
    {
        let raw = match raw {
            Some(raw) => raw,
            None => return local_origins(),
        };
        let chars = chars_of(raw);
        let whole = trim_chars(&chars);
        if whole.len() == 1 && whole[0] == '*' {
            proof {
                assert(whole@ =~= seq!['*']);
            }
            return AllowedOrigins::Any;
        }
        proof {
            if trimmed(raw@) == seq!['*'] {
                assert(whole@[0] == '*');
            }
        }
        let origins = split_origins(&chars);
        proof {
            assert(origin_texts(origins@).len() == origins@.len());
        }
        if origins.len() == 0 {
            local_origins()
        } else {
            AllowedOrigins::List(origins)
        }
    }

    pub fn is_any(&self) -> (r: bool)
        ensures
            r == self@ is Any,
    {
        match self {
            AllowedOrigins::Any => true,
            AllowedOrigins::List(origins) => false,
        }
    }

    pub fn is_allowed(&self, origin: &str) -> (r: bool)
        ensures
            r == lets_in(self@, origin@),
    {
        match self {
            AllowedOrigins::Any => true,
            AllowedOrigins::List(origins) => {
                let ghost list = origin_texts(origins@);
                let mut i: usize = 0;
                while i < origins.len()
                    invariant
                        i <= origins@.len(),
                        list == origin_texts(origins@),
                        self@ == OriginsView::List(list),
                        forall|j: int| 0 <= j < i ==> #[trigger] list[j] != origin@,
                    decreases origins@.len() - i,
                {
                    proof {
                        assert(list[i as int] == origins@[i as int]@);
                    }
                    if same_text(origins[i].as_str(), origin) {
                        return true;
                    }
                    i = i + 1;
                }
                false
            },
        }
    }

    /// True iff a request is let in, by its `Origin` header; one without is.
    pub fn is_origin_allowed(&self, origin: Option<&str>) -> (r: bool)
        ensures
            r == admits(self@, slice_text(origin)),
    {
        match origin {
            Some(origin) => self.is_allowed(origin),
            None => true,
        }
    }

    /// The origin that the answer to a request names.
    pub fn cors_origin(&self, origin: Option<&str>) -> (r: String)
        ensures
            r@ == answered_origin(self@, slice_text(origin)),
    {
        if self.is_any() {
            return "*".to_owned();
        }
        match origin {
            Some(origin) => if self.is_allowed(origin) {
                origin.to_owned()
            } else {
                "null".to_owned()
            },
            None => "null".to_owned(),
        }
    }
}

/// True iff a request with that `Origin` header is let in.
pub open spec fn admits(origins: OriginsView, origin: Option<Seq<char>>) -> bool {
    match origin {
        Some(origin) => lets_in(origins, origin),
        None => true,
    }
}

/// The origin that an answer names: a star where all are let in, the request's own where it is let
/// in, and `null` otherwise.
pub open spec fn answered_origin(origins: OriginsView, origin: Option<Seq<char>>) -> Seq<char> {
    if origins is Any {
        "*"@
    } else {
        match origin {
            Some(origin) => if lets_in(origins, origin) {
                origin
            } else {
                "null"@
            },
            None => "null"@,
        }
    }
}

/// The headers of every answer, behind the origin that it names.
pub open spec fn fixed_headers() -> Seq<(Seq<char>, Seq<char>)> {
    seq![
        (
            "access-control-allow-headers"@,
            "Content-Type, Authorization, Accept, MCP-Protocol-Version"@,
        ),
        ("access-control-allow-methods"@, "GET, POST, OPTIONS"@),
        ("content-type"@, "application/json"@),
        ("access-control-max-age"@, "86400"@),
        ("allow"@, "GET, POST, OPTIONS"@),
        ("x-world-loom-bridge"@, "rust"@),
        ("access-control-allow-private-network"@, "true"@),
    ]
}

/// The headers of every answer, behind the origin that it names.
pub fn cors_headers() -> (r: Vec<(&'static str, &'static str)>)
    ensures
        r@.map_values(|header: (&'static str, &'static str)| (header.0@, header.1@))
            == fixed_headers(),
{
    let mut headers: Vec<(&'static str, &'static str)> = Vec::new();
    headers.push(
        (
            "access-control-allow-headers",
            "Content-Type, Authorization, Accept, MCP-Protocol-Version",
        ),
    );
    headers.push(("access-control-allow-methods", "GET, POST, OPTIONS"));
    headers.push(("content-type", "application/json"));
    headers.push(("access-control-max-age", "86400"));
    headers.push(("allow", "GET, POST, OPTIONS"));
    headers.push(("x-world-loom-bridge", "rust"));
    headers.push(("access-control-allow-private-network", "true"));
    proof {
        assert(headers@.map_values(|header: (&'static str, &'static str)| (header.0@, header.1@))
            =~= fixed_headers());
    }
    headers
}

// ---- authorization ----

/// Whether tool requests need a token, and the digest of that token.
#[derive(Clone, Copy, PartialEq, Eq)]
pub struct McpAuth {
    pub expected_digest: Option<[u8; 32]>,
}

/// The digest of a token.
pub open spec fn token_digest(token: Seq<char>) -> Seq<u8> {
    sha256_of(encode_utf8(token))
}

/// The index of the first space, from `i` on.
pub open spec fn first_space(s: Seq<char>, i: int) -> Option<int>
    decreases s.len() - i,
{
    if i >= s.len() {
        None
    } else if s[i] == ' ' {
        Some(i)
    } else {
        first_space(s, i + 1)
    }
}

/// The token of an `Authorization` header: what stands behind the first space, where the bearer
/// scheme, in letters of either case, stands before it.
pub open spec fn bearer_token(header: Seq<char>) -> Option<Seq<char>> {
    match first_space(header, 0) {
        None => None,
        Some(i) => if ascii_lowered(header.take(i)) == "bearer"@ && header.skip(i + 1).len() > 0 {
            Some(header.skip(i + 1))
        } else {
            None
        },
    }
}

/// True iff a request with that `Authorization` header may call tools.
pub open spec fn authorizes(expected: Option<Seq<u8>>, header: Option<Seq<char>>) -> bool {
    match expected {
        None => true,
        Some(digest) => match header {
            None => false,
            Some(header) => match bearer_token(header) {
                None => false,
                Some(token) => token_digest(token) == digest,
            },
        },
    }
}

/// Compares two digests, in a time that does not depend on where they differ.
pub fn constant_time_digest_eq(left: &[u8; 32], right: &[u8; 32]) -> (r: bool)
    ensures
        r == (left@ == right@),
{
    let mut difference: u8 = 0;
    let mut i: usize = 0;
    proof {
        assert(left@.take(0) =~= right@.take(0));
    }
    while i < 32
        invariant
            i <= 32,
            difference == 0 <==> left@.take(i as int) == right@.take(i as int),
        decreases 32 - i,
    {
        let l: u8 = left[i];
        let q: u8 = right[i];
        let ghost before = difference;
        difference = difference | (l ^ q);
        proof {
            assert((before | (l ^ q) == 0) <==> (before == 0 && l == q)) by (bit_vector);
            assert(left@.take(i + 1) =~= left@.take(i as int).push(l));
            assert(right@.take(i + 1) =~= right@.take(i as int).push(q));
            if left@.take(i + 1) == right@.take(i + 1) {
                assert(left@.take(i as int) =~= left@.take(i + 1).drop_last());
                assert(right@.take(i as int) =~= right@.take(i + 1).drop_last());
                assert(left@.take(i + 1).last() == right@.take(i + 1).last());
            }
        }
        i = i + 1;
    }
    proof {
        assert(left@.take(32) =~= left@);
        assert(right@.take(32) =~= right@);
    }
    difference == 0
}

impl McpAuth {
    /// The digest that a token has to have.
    pub open spec fn expected(self) -> Option<Seq<u8>> {
        match self.expected_digest {
            Some(digest) => Some(digest@),
            None => None,
        }
    }

    pub fn disabled() -> (r: Self)
        ensures
            r.expected() is None,
    {
        McpAuth { expected_digest: None }
    }

    pub fn required(token: &str) -> (r: Self)
        ensures
            r.expected() == Some(token_digest(token@)),
    {
        McpAuth { expected_digest: Some(sha256(token.as_bytes())) }
    }

    /// The rule that the text of the key file makes: its token, without white space around it.
    pub fn from_env(key_file: Option<&str>) -> (r: Result<Self, String>)
        ensures
            match slice_text(key_file) {
                None => r matches Ok(auth) && auth.expected() is None,
                Some(key) => if trimmed(key).len() == 0 {
                    r matches Err(message) && message@
                        == "WORLD_LOOM_MCP_API_KEY_FILE file must not be empty"@
                } else {
                    r matches Ok(auth) && auth.expected() == Some(token_digest(trimmed(key)))
                },
            },
    {
        let key = match key_file {
            Some(key) => key,
            None => return Ok(McpAuth::disabled()),
        };
        let token = trim_chars(&chars_of(key));
        if token.len() == 0 {
            return Err("WORLD_LOOM_MCP_API_KEY_FILE file must not be empty".to_owned());
        }
        proof {
            assert(token@.subrange(0, token@.len() as int) =~= token@);
        }
        Ok(McpAuth::required(text_of(&token, 0, token.len()).as_str()))
    }

    pub fn is_authorized(&self, header: Option<&str>) -> (r: bool)
        ensures
            r == authorizes(self.expected(), slice_text(header)),
    {
        let expected = match self.expected_digest {
            Some(digest) => digest,
            None => return true,
        };
        let header = match header {
            Some(header) => header,
            None => return false,
        };
        let chars = chars_of(header);
        let mut i: usize = 0;
        while i < chars.len() && chars[i] != ' '
            invariant
                i <= chars@.len(),
                first_space(chars@, 0) == first_space(chars@, i as int),
            decreases chars@.len() - i,
        {
            i = i + 1;
        }
        if i == chars.len() {
            return false;
        }
        let scheme = chars_of(text_of(&chars, 0, i).as_str());
        let token = text_of(&chars, i + 1, chars.len());
        proof {
            assert(chars@.subrange(0, i as int) =~= chars@.take(i as int));
            assert(chars@.subrange(i + 1, chars@.len() as int) =~= chars@.skip(i + 1));
        }
        let lowered = lower_chars(&scheme);
        proof {
            assert(lowered@.subrange(0, lowered@.len() as int) =~= lowered@);
        }
        if !same_text(text_of(&lowered, 0, lowered.len()).as_str(), "bearer") || i + 1
            == chars.len() {
            return false;
        }
        let actual = sha256(token.as_str().as_bytes());
        constant_time_digest_eq(&expected, &actual)
    }
}

/// Whether a tool request goes on.
#[derive(Debug, Clone, Copy, PartialEq, Eq, Structural)]
pub enum McpAdmission {
    /// Status 403: the origin is not let in.
    Forbidden,
    /// Status 401: the token is missing or wrong.
    Unauthorized,
    Open,
}

/// Whether a tool request goes on; its origin is looked at first.
pub fn admit_mcp_request(
    origins: &AllowedOrigins,
    auth: &McpAuth,
    origin: Option<&str>,
    authorization: Option<&str>,
) -> (r: McpAdmission)
    ensures
        r == if !admits(origins@, slice_text(origin)) {
            McpAdmission::Forbidden
        } else if !authorizes(auth.expected(), slice_text(authorization)) {
            McpAdmission::Unauthorized
        } else {
            McpAdmission::Open
        },
{
    if !origins.is_origin_allowed(origin) {
        McpAdmission::Forbidden
    } else if !auth.is_authorized(authorization) {
        McpAdmission::Unauthorized
    } else {
        McpAdmission::Open
    }
}

// ---- connections ----

/// Connections that wait for their web socket, by token; never more than `capacity`.
pub struct PendingConnections<S> {
    pub connections: OrderedMap<String, S>,
    pub capacity: usize,
}

impl<S> PendingConnections<S> {
    /// The invariant.
    pub open spec fn wf(self) -> bool {
        self.connections.wf() && self.connections.spec_keys().len() <= self.capacity
    }

    pub fn new(capacity: usize) -> (r: Self)
        ensures
            r.wf(),
            r.capacity == capacity,
            r.connections@ == Map::<Seq<char>, S>::empty(),
    {
        PendingConnections { connections: OrderedMap::new(), capacity }
    }

    /// Puts a connection under its token, or hands it back where there is no room.
    pub fn insert_pending_connection(&mut self, token: String, stream: S) -> (r: Result<(), S>)
        requires
            old(self).wf(),
        ensures
            final(self).wf(),
            final(self).capacity == old(self).capacity,
            if old(self).connections.spec_keys().len() >= old(self).capacity {
                r == Err::<(), S>(stream) && *final(self) == *old(self)
            } else {
                r == Ok::<(), S>(()) && final(self).connections@ == old(self).connections@.insert(
                    token@,
                    stream,
                )
            },
    {
        if self.connections.len() >= self.capacity {
            return Err(stream);
        }
        self.connections.insert(token, stream);
        Ok(())
    }

    /// Takes the connection of that token out.
    pub fn take_pending_connection(&mut self, token: &str) -> (r: Option<S>)
        requires
            old(self).wf(),
        ensures
            final(self).wf(),
            final(self).capacity == old(self).capacity,
            final(self).connections@ == old(self).connections@.remove(token@),
            r == if old(self).connections@.contains_key(token@) {
                Some(old(self).connections@[token@])
            } else {
                None
            },
    {
        let key = token.to_owned();
        self.connections.take(&key)
    }
}

/// A status and a JSON body.
#[derive(Debug, PartialEq, Eq)]
pub struct BridgeReply {
    pub status: u16,
    pub body: String,
}

/// True iff the reply reports an error.
pub open spec fn is_error_reply(reply: BridgeReply, status: u16, error: Seq<char>) -> bool {
    reply.status == status && reply.body@ == "{\"code\":"@ + decimal_nat(status as nat)
        + ",\"error\":"@ + json_string(error) + "}"@
}

fn error_reply(status: u16, error: &str) -> (r: BridgeReply)
    ensures
        is_error_reply(r, status, error@),
{
    let mut body = "{\"code\":".to_owned();
    push_u64(&mut body, status as u64);
    body.append(",\"error\":");
    body.append(json_string_text(error).as_str());
    body.append("}");
    BridgeReply { status, body }
}

/// What is wrong with the address that a client asks for.
pub fn check_connect_request(host: &str, port: u16) -> (r: Option<BridgeReply>)
    ensures
        if trimmed(host@).len() == 0 || port == 0 {
            r matches Some(reply) && is_error_reply(reply, 400, "host and port are required"@)
        } else {
            r is None
        },
{
    if trim_chars(&chars_of(host)).len() == 0 || port == 0 {
        Some(error_reply(400, "host and port are required"))
    } else {
        None
    }
}

/// Why there is no connection to the game server.
pub enum ConnectFailure {
    Refused(String),
    TimedOut,
}

/// What a client is answered that has no connection.
pub fn connect_failure_reply(failure: &ConnectFailure) -> (r: BridgeReply)
    ensures
        match failure {
            ConnectFailure::Refused(error) => is_error_reply(
                r,
                502,
                "failed to connect to Minecraft server: "@ + error@,
            ),
            ConnectFailure::TimedOut => is_error_reply(
                r,
                504,
                "connection to Minecraft server timed out"@,
            ),
        },
{
    match failure {
        ConnectFailure::Refused(error) => error_reply(
            502,
            prefixed("failed to connect to Minecraft server: ", error.as_str()).as_str(),
        ),
        ConnectFailure::TimedOut => error_reply(504, "connection to Minecraft server timed out"),
    }
}

/// The body that tells a client of its connection.
pub open spec fn connected_body(token: Seq<char>, host: Seq<char>, port: u16) -> Seq<char> {
    "{\"token\":"@ + json_string(token) + ",\"remote\":{\"address\":"@ + json_string(host)
        + ",\"family\":\"IPv4\",\"port\":"@ + decimal_nat(port as nat) + "}}"@
}

/// True iff the connection was put under the token and the client was told so, or there was no
/// room and it was told that.
pub open spec fn is_connected<S>(
    before: PendingConnections<S>,
    after: PendingConnections<S>,
    stream: S,
    token: Seq<char>,
    host: Seq<char>,
    port: u16,
    reply: BridgeReply,
) -> bool {
    if before.connections.spec_keys().len() >= before.capacity {
        after == before && is_error_reply(reply, 503, "too many pending bridge connections"@)
    } else {
        &&& after.connections@ == before.connections@.insert(token, stream)
        &&& reply.status == 200
        &&& reply.body@ == connected_body(token, host, port)
    }
}

impl<S> PendingConnections<S> {
    /// Keeps a new connection under that token, and says so.
    pub fn keep_connection(
        &mut self,
        stream: S,
        token: String,
        host: &str,
        port: u16,
    ) -> (r: BridgeReply)
        requires
            old(self).wf(),
        ensures
            final(self).wf(),
            final(self).capacity == old(self).capacity,
            is_connected(*old(self), *final(self), stream, token@, host@, port, r),
    {
        let mut body = "{\"token\":".to_owned();
        body.append(json_string_text(token.as_str()).as_str());
        body.append(",\"remote\":{\"address\":");
        body.append(json_string_text(host).as_str());
        body.append(",\"family\":\"IPv4\",\"port\":");
        push_u64(&mut body, port as u64);
        body.append("}}");
        match self.insert_pending_connection(token, stream) {
            Ok(()) => BridgeReply { status: 200, body },
            Err(_) => error_reply(503, "too many pending bridge connections"),
        }
    }

    /// Keeps a new connection under a new token, and says so.
    pub fn connect_tcp(&mut self, stream: S, host: &str, port: u16) -> (r: BridgeReply)
        requires
            old(self).wf(),
        ensures
            final(self).wf(),
            final(self).capacity == old(self).capacity,
            exists|token: Seq<char>|
                is_simple_id(token) && #[trigger] is_connected(
                    *old(self),
                    *final(self),
                    stream,
                    token,
                    host@,
                    port,
                    r,
                ),
    {
        self.keep_connection(stream, new_simple_id(), host, port)
    }

    /// The connection that a web socket asks for, or the status that refuses it.
    pub fn socket_ws(&mut self, origin_allowed: bool, token: Option<&str>) -> (r: Result<S, u16>)
        requires
            old(self).wf(),
        ensures
            final(self).wf(),
            final(self).capacity == old(self).capacity,
            if !origin_allowed {
                r == Err::<S, u16>(403) && *final(self) == *old(self)
            } else {
                match slice_text(token) {
                    None => r == Err::<S, u16>(400) && *final(self) == *old(self),
                    Some(token) => {
                        &&& final(self).connections@ == old(self).connections@.remove(token)
                        &&& r == if old(self).connections@.contains_key(token) {
                            Ok::<S, u16>(old(self).connections@[token])
                        } else {
                            Err::<S, u16>(404)
                        }
                    },
                }
            },
    {
        if !origin_allowed {
            return Err(403);
        }
        let token = match token {
            Some(token) => token,
            None => return Err(400),
        };
        match self.take_pending_connection(token) {
            Some(stream) => Ok(stream),
            None => Err(404),
        }
    }
}

// ---- the proxy ----

/// What follows `ping:` in a text.
pub open spec fn ping_id(text: Seq<char>) -> Option<Seq<char>> {
    if has_prefix(text, "ping:"@) {
        Some(text.skip("ping:"@.len() as int))
    } else {
        None
    }
}

fn pinged(text: &str) -> (r: Option<String>)
    ensures
        match r {
            Some(id) => ping_id(text@) == Some(id@),
            None => ping_id(text@) is None,
        },
{
    let chars = chars_of(text);
    let head = chars_of("ping:");
    if starts_with(&chars, &head) {
        proof {
            assert(chars@.subrange(head@.len() as int, chars@.len() as int) =~= chars@.skip(
                head@.len() as int,
            ));
        }
        Some(text_of(&chars, head.len(), chars.len()))
    } else {
        None
    }
}

/// What the ping socket answers to a text; other texts get no answer.
pub fn ping_reply(text: &str) -> (r: Option<String>)
    ensures
        match ping_id(text@) {
            Some(id) => r matches Some(reply) && reply@ == "pong:"@ + id + ":0"@,
            None => r is None,
        },
{
    match pinged(text) {
        Some(id) => {
            let mut reply = prefixed("pong:", id.as_str());
            reply.append(":0");
            Some(reply)
        },
        None => None,
    }
}

/// What a web socket hands the proxy.
pub enum SocketMessage {
    Binary(Vec<u8>),
    Text(String),
    Close,
    Control,
    Failed,
}

/// What the proxy does with it.
pub enum SocketAction {
    /// Write the bytes to the game server.
    WriteBytes(Vec<u8>),
    /// Write the text's bytes to the game server.
    WriteText(String),
    /// Answer on the web socket.
    Reply(String),
    Ignore,
    Stop,
}

/// What the proxy does with a message of a web socket: bytes and texts are handed on, but for
/// pings, which it answers itself.
pub fn proxy_message(message: SocketMessage) -> (r: SocketAction)
    ensures
        match message {
            SocketMessage::Binary(bytes) => r == SocketAction::WriteBytes(bytes),
            SocketMessage::Text(text) => match ping_id(text@) {
                Some(id) => r matches SocketAction::Reply(reply) && reply@ == "pong:"@ + id,
                None => r == SocketAction::WriteText(text),
            },
            SocketMessage::Close => r == SocketAction::Stop,
            SocketMessage::Control => r == SocketAction::Ignore,
            SocketMessage::Failed => r == SocketAction::Stop,
        },
{
    match message {
        SocketMessage::Binary(bytes) => SocketAction::WriteBytes(bytes),
        SocketMessage::Text(text) => match pinged(text.as_str()) {
            Some(id) => SocketAction::Reply(prefixed("pong:", id.as_str())),
            None => SocketAction::WriteText(text),
        },
        SocketMessage::Close => SocketAction::Stop,
        SocketMessage::Control => SocketAction::Ignore,
        SocketMessage::Failed => SocketAction::Stop,
    }
}

/// What reading from the game server gave.
pub enum ServerRead {
    Closed,
    Bytes(usize),
    Failed(String),
}

/// What the proxy tells the web socket before it closes it; bytes are handed on instead.
pub fn proxy_shutdown(read: &ServerRead) -> (r: Option<String>)
    ensures
        match read {
            ServerRead::Closed => r matches Some(text) && text@
                == "proxy-shutdown:Minecraft server closed the connection."@,
            ServerRead::Bytes(count) => r is None,
            ServerRead::Failed(error) => r matches Some(text) && text@
                == "proxy-shutdown:Minecraft server connection failed: "@ + error@,
        },
{
    match read {
        ServerRead::Closed => Some(
            "proxy-shutdown:Minecraft server closed the connection.".to_owned(),
        ),
        ServerRead::Bytes(count) => None,
        ServerRead::Failed(error) => Some(
            prefixed("proxy-shutdown:Minecraft server connection failed: ", error.as_str()),
        ),
    }
}

// ---- laws ----

/// The token that is asked for is accepted, whatever it is made of.
pub proof fn right_token_is_accepted(token: Seq<char>)
    requires
        token.len() > 0,
    ensures
        authorizes(Some(token_digest(token)), Some("Bearer "@ + token)),
{
    reveal_strlit("Bearer ");
    reveal_strlit("bearer");
    let header = "Bearer "@ + token;
    reveal_with_fuel(first_space, 8);
    assert(header[6] == ' ');
    assert(header[0] == 'B' && header[1] == 'e' && header[2] == 'a' && header[3] == 'r' && header[4]
        == 'e' && header[5] == 'r');
    assert(first_space(header, 0) == Some(6int));
    assert(ascii_lowered(header.take(6)) =~= "bearer"@);
    assert(header.skip(7) =~= token);
}

/// Where a token is asked for, nothing but a bearer token of its digest is accepted.
pub proof fn other_headers_are_refused(digest: Seq<u8>, header: Option<Seq<char>>)
    requires
        authorizes(Some(digest), header),
    ensures
        header matches Some(header) && bearer_token(header) matches Some(token) && token_digest(
            token,
        ) == digest,
{
}

/// No answer names an origin that is not let in.
pub proof fn answers_name_no_other_origin(origins: OriginsView, origin: Seq<char>)
    requires
        !lets_in(origins, origin),
    ensures
        answered_origin(origins, Some(origin)) == "null"@,
{
}

/// A connection that was kept is found again by its token, once.
pub proof fn kept_connection_is_taken_once<S>(
    before: PendingConnections<S>,
    after: PendingConnections<S>,
    stream: S,
    token: Seq<char>,
    host: Seq<char>,
    port: u16,
    reply: BridgeReply,
)
    requires
        before.connections.spec_keys().len() < before.capacity,
        is_connected(before, after, stream, token, host, port, reply),
    ensures
        after.connections@.contains_key(token),
        after.connections@[token] == stream,
        !after.connections@.remove(token).contains_key(token),
{
}

} // verus!
