//! Version 1 of the HTTP API: routing of a request line to a request, the
//! refusals, and the payloads of the replies.
use vstd::prelude::*;
use crate::device_contract::{
    bool_text, info_groups, port_groups, port_index_from_id, ports_groups, render_info_result,
    render_port_result, render_ports_result, render_wifi_result, spec_port_index_from_id,
    wifi_groups, RuntimeSnapshot, WifiSnapshot,
};
use crate::text::{
    bounded_push, emit, lemma_index_of, pieces_view, render_groups, split_once, split_once_str,
    str_eq, strip_prefix, strip_prefix_str, utf8_len, TextBuf,
};

verus! {

#[derive(Clone, Copy, Debug, PartialEq, Eq, Structural)]
pub enum ApiRequest {
    Health,
    Info,
    Ports,
    Port { index: usize },
    PortPower { index: usize, enabled: bool },
    PortReplug { index: usize },
    Wifi,
    WifiSetForbidden,
    WifiClearForbidden,
    RebootForbidden,
}

/// A port change that a request asks the runtime to carry out.
#[derive(Clone, Copy, Debug, PartialEq, Eq, Structural)]
pub enum ApiPendingAction {
    PortPower { index: usize, enabled: bool },
    PortReplug { index: usize },
}

/// The refusals the API can answer with.
#[derive(Clone, Copy, Debug, PartialEq, Eq, Structural)]
pub enum ApiErrorKind {
    UnknownEndpoint,
    BadEnabled,
    InvalidPort,
    UnsafeWifiWrite,
    UnsafeReboot,
}

/// An HTTP status line and the error object of a refusal.
#[derive(Clone, Copy, Debug, PartialEq, Eq)]
pub struct ApiErrorSpec {
    pub status: &'static str,
    pub code: &'static str,
    pub message: &'static str,
    pub retryable: bool,
}

impl ApiErrorSpec {
    /// Status, code and message of each refusal; none is retryable.
    pub open spec fn describes(self, kind: ApiErrorKind) -> bool {
        &&& !self.retryable
        &&& match kind {
            ApiErrorKind::UnknownEndpoint => self.status@ == "400 Bad Request"@ && self.code@
                == "bad_request"@ && self.message@ == "unknown endpoint"@,
            ApiErrorKind::BadEnabled => self.status@ == "400 Bad Request"@ && self.code@
                == "bad_request"@ && self.message@ == "missing or invalid enabled"@,
            ApiErrorKind::InvalidPort => self.status@ == "404 Not Found"@ && self.code@
                == "invalid_port"@ && self.message@ == "invalid port"@,
            ApiErrorKind::UnsafeWifiWrite => self.status@ == "403 Forbidden"@ && self.code@
                == "unsafe_transport"@ && self.message@
                == "Wi-Fi configuration changes require Web Serial or Local USB"@,
            ApiErrorKind::UnsafeReboot => self.status@ == "403 Forbidden"@ && self.code@
                == "unsafe_transport"@ && self.message@
                == "Reboot to apply Wi-Fi changes requires Web Serial or Local USB"@,
        }
    }

    /// The error object of a refusal.
    pub fn of(kind: ApiErrorKind) -> (e: ApiErrorSpec)
        ensures
            e.describes(kind),
    {
        match kind {
            ApiErrorKind::UnknownEndpoint => ApiErrorSpec {
                status: "400 Bad Request",
                code: "bad_request",
                message: "unknown endpoint",
                retryable: false,
            },
            ApiErrorKind::BadEnabled => ApiErrorSpec {
                status: "400 Bad Request",
                code: "bad_request",
                message: "missing or invalid enabled",
                retryable: false,
            },
            ApiErrorKind::InvalidPort => ApiErrorSpec {
                status: "404 Not Found",
                code: "invalid_port",
                message: "invalid port",
                retryable: false,
            },
            ApiErrorKind::UnsafeWifiWrite => ApiErrorSpec {
                status: "403 Forbidden",
                code: "unsafe_transport",
                message: "Wi-Fi configuration changes require Web Serial or Local USB",
                retryable: false,
            },
            ApiErrorKind::UnsafeReboot => ApiErrorSpec {
                status: "403 Forbidden",
                code: "unsafe_transport",
                message: "Reboot to apply Wi-Fi changes requires Web Serial or Local USB",
                retryable: false,
            },
        }
    }
}

/// `s.split_once(c)`, or the whole of `s` and an empty rest.
pub open spec fn split_or_whole(s: Seq<char>, c: char) -> (Seq<char>, Seq<char>) {
    match split_once(s, c) {
        Some(parts) => parts,
        None => (s, Seq::empty()),
    }
}

/// The value of the first `enabled=` pair of a query: `0` or `1`. A pair
/// without `=` before it, a missing key or another value give none.
pub open spec fn spec_parse_enabled_query(query: Seq<char>) -> Option<bool>
    decreases query.len(),
{
    let (part, rest) = split_or_whole(query, '&');
    match split_once(part, '=') {
        None => None,
        Some((key, value)) => if key == "enabled"@ {
            if value == "0"@ {
                Some(false)
            } else if value == "1"@ {
                Some(true)
            } else {
                None
            }
        } else if split_once(query, '&') is Some {
            proof {
                lemma_index_of(query, '&');
            }
            spec_parse_enabled_query(rest)
        } else {
            None
        },
    }
}

/// Splitting `a + [c] + b` at the first `c`, when `a` holds no `c`.
proof fn lemma_split_at_first(a: Seq<char>, c: char, b: Seq<char>)
    requires
        forall|j: int| 0 <= j < a.len() ==> a[j] != c,
    ensures
        split_once(a + seq![c] + b, c) == Some((a, b)),
{
    let s = a + seq![c] + b;
    assert(s[a.len() as int] == c);
    assert forall|j: int| 0 <= j < a.len() implies s[j] != c by {
        assert(s[j] == a[j]);
    }
    crate::text::lemma_index_of_unique(s, c, a.len() as int);
    assert(s.subrange(0, a.len() as int) =~= a);
    assert(s.subrange(a.len() as int + 1, s.len() as int) =~= b);
}

/// A pair whose key is not `enabled` does not decide the query: the pairs
/// after it do. Here `key` holds neither `&` nor `=` and `value` holds no
/// `&`.
pub proof fn lemma_other_pair_is_skipped(key: Seq<char>, value: Seq<char>, rest: Seq<char>)
    requires
        key != "enabled"@,
        forall|j: int| 0 <= j < key.len() ==> key[j] != '&' && key[j] != '=',
        forall|j: int| 0 <= j < value.len() ==> value[j] != '&',
    ensures
        spec_parse_enabled_query(key + seq!['='] + value + seq!['&'] + rest) == spec_parse_enabled_query(rest),
{
    let part = key + seq!['='] + value;
    assert forall|j: int| 0 <= j < part.len() implies part[j] != '&' by {
        if j < key.len() {
            assert(part[j] == key[j]);
        } else if j > key.len() {
            assert(part[j] == value[j - key.len() - 1]);
        }
    }
    lemma_split_at_first(part, '&', rest);
    lemma_split_at_first(key, '=', value);
}

/// The first `enabled` pair decides the query: `enabled=1` switches on,
/// `enabled=0` off, and any other value (without `&`) is refused, whatever
/// follows.
pub proof fn lemma_enabled_pair_decides(value: Seq<char>, rest: Seq<char>)
    requires
        forall|j: int| 0 <= j < value.len() ==> value[j] != '&',
    ensures
        spec_parse_enabled_query("enabled"@ + seq!['='] + value + seq!['&'] + rest) == if value
            == "1"@ {
            Some(true)
        } else if value == "0"@ {
            Some(false)
        } else {
            None
        },
        spec_parse_enabled_query("enabled"@ + seq!['='] + value) == if value == "1"@ {
            Some(true)
        } else if value == "0"@ {
            Some(false)
        } else {
            None
        },
{
    reveal_strlit("enabled");
    reveal_strlit("0");
    reveal_strlit("1");
    let key = "enabled"@;
    let part = key + seq!['='] + value;
    assert forall|j: int| 0 <= j < key.len() implies key[j] != '&' && key[j] != '=' by {}
    assert forall|j: int| 0 <= j < part.len() implies part[j] != '&' by {
        if j < key.len() {
            assert(part[j] == key[j]);
        } else if j > key.len() {
            assert(part[j] == value[j - key.len() - 1]);
        }
    }
    lemma_split_at_first(part, '&', rest);
    lemma_split_at_first(key, '=', value);
    lemma_index_of(part, '&');
    assert(split_or_whole(part, '&') == (part, Seq::<char>::empty()));
    assert("1"@[0] != "0"@[0]);
}

/// Routing of a path under `/api/v1/ports/`.
pub open spec fn spec_parse_port_request(method: Seq<char>, path: Seq<char>, query: Seq<char>) -> Result<
    ApiRequest,
    ApiErrorKind,
> {
    match strip_prefix(path, "/api/v1/ports/"@) {
        None => Err(ApiErrorKind::UnknownEndpoint),
        Some(rest) => {
            let (port_id, tail) = split_or_whole(rest, '/');
            match spec_port_index_from_id(port_id) {
                None => Err(ApiErrorKind::InvalidPort),
                Some(index) => if method == "GET"@ && tail == Seq::<char>::empty() {
                    Ok(ApiRequest::Port { index })
                } else if method == "POST"@ && tail == "actions/replug"@ {
                    Ok(ApiRequest::PortReplug { index })
                } else if method == "POST"@ && tail == "power"@ {
                    match spec_parse_enabled_query(query) {
                        Some(enabled) => Ok(ApiRequest::PortPower { index, enabled }),
                        None => Err(ApiErrorKind::BadEnabled),
                    }
                } else {
                    Err(ApiErrorKind::UnknownEndpoint)
                },
            }
        },
    }
}

/// Routing of a method and a request target.
pub open spec fn spec_parse_request(method: Seq<char>, path_and_query: Seq<char>) -> Result<
    ApiRequest,
    ApiErrorKind,
> {
    let (path, query) = split_or_whole(path_and_query, '?');
    if method == "GET"@ && path == "/api/v1/health"@ {
        Ok(ApiRequest::Health)
    } else if method == "GET"@ && path == "/api/v1/info"@ {
        Ok(ApiRequest::Info)
    } else if method == "GET"@ && path == "/api/v1/ports"@ {
        Ok(ApiRequest::Ports)
    } else if method == "GET"@ && path == "/api/v1/wifi"@ {
        Ok(ApiRequest::Wifi)
    } else if method == "POST"@ && (path == "/api/v1/wifi/set"@ || path == "/api/v1/wifi/clear"@) {
        Err(ApiErrorKind::UnsafeWifiWrite)
    } else if method == "POST"@ && path == "/api/v1/reboot"@ {
        Err(ApiErrorKind::UnsafeReboot)
    } else {
        spec_parse_port_request(method, path, query)
    }
}

/// Whether a parse result is the specified one, errors compared by kind.
pub open spec fn parsed_as(r: Result<ApiRequest, ApiErrorSpec>, expected: Result<ApiRequest, ApiErrorKind>) -> bool {
    match (r, expected) {
        (Ok(a), Ok(b)) => a == b,
        (Err(e), Err(k)) => e.describes(k),
        _ => false,
    }
}

fn split_path_and_query(path_and_query: &str) -> (r: (&str, &str))
    ensures
        (r.0@, r.1@) == split_or_whole(path_and_query@, '?'),
{
    proof {
        reveal_strlit("");
        assert(""@ =~= Seq::<char>::empty());
    }
    match split_once_str(path_and_query, '?') {
        Some(parts) => parts,
        None => (path_and_query, ""),
    }
}

fn parse_enabled_query(query: &str) -> (r: Option<bool>)
    ensures
        r == spec_parse_enabled_query(query@),
    decreases query@.len(),
{
    let (part, rest) = match split_once_str(query, '&') {
        Some(parts) => parts,
        None => (query, ""),
    };
    proof {
        reveal_strlit("");
        assert(""@ =~= Seq::<char>::empty());
    }
    let (key, value) = match split_once_str(part, '=') {
        Some(kv) => kv,
        None => return None,
    };
    if str_eq(key, "enabled") {
        if str_eq(value, "0") {
            Some(false)
        } else if str_eq(value, "1") {
            Some(true)
        } else {
            None
        }
    } else {
        match split_once_str(query, '&') {
            Some(_) => {
                proof {
                    lemma_index_of(query@, '&');
                }
                parse_enabled_query(rest)
            },
            None => None,
        }
    }
}

fn parse_port_request(method: &str, path: &str, query: &str) -> (r: Result<ApiRequest, ApiErrorSpec>)
    ensures
        parsed_as(r, spec_parse_port_request(method@, path@, query@)),
{
    let rest = match strip_prefix_str(path, "/api/v1/ports/") {
        Some(rest) => rest,
        None => return Err(ApiErrorSpec::of(ApiErrorKind::UnknownEndpoint)),
    };
    let (port_id, tail) = match split_once_str(rest, '/') {
        Some(parts) => parts,
        None => (rest, ""),
    };
    proof {
        reveal_strlit("");
        assert(""@ =~= Seq::<char>::empty());
    }
    let index = match port_index_from_id(port_id) {
        Some(index) => index,
        None => return Err(ApiErrorSpec::of(ApiErrorKind::InvalidPort)),
    };
    if str_eq(method, "GET") && str_eq(tail, "") {
        Ok(ApiRequest::Port { index })
    } else if str_eq(method, "POST") && str_eq(tail, "actions/replug") {
        Ok(ApiRequest::PortReplug { index })
    } else if str_eq(method, "POST") && str_eq(tail, "power") {
        match parse_enabled_query(query) {
            Some(enabled) => Ok(ApiRequest::PortPower { index, enabled }),
            None => Err(ApiErrorSpec::of(ApiErrorKind::BadEnabled)),
        }
    } else {
        Err(ApiErrorSpec::of(ApiErrorKind::UnknownEndpoint))
    }
}

/// Routes a method and request target (path and query) to a request, or to
/// the refusal the API answers with.
pub fn parse_request(method: &str, path_and_query: &str) -> (r: Result<ApiRequest, ApiErrorSpec>)
    ensures
        parsed_as(r, spec_parse_request(method@, path_and_query@)),
{
    let (path, query) = split_path_and_query(path_and_query);
    let get = str_eq(method, "GET");
    let post = str_eq(method, "POST");
    if get && str_eq(path, "/api/v1/health") {
        Ok(ApiRequest::Health)
    } else if get && str_eq(path, "/api/v1/info") {
        Ok(ApiRequest::Info)
    } else if get && str_eq(path, "/api/v1/ports") {
        Ok(ApiRequest::Ports)
    } else if get && str_eq(path, "/api/v1/wifi") {
        Ok(ApiRequest::Wifi)
    } else if post && (str_eq(path, "/api/v1/wifi/set") || str_eq(path, "/api/v1/wifi/clear")) {
        Err(ApiErrorSpec::of(ApiErrorKind::UnsafeWifiWrite))
    } else if post && str_eq(path, "/api/v1/reboot") {
        Err(ApiErrorSpec::of(ApiErrorKind::UnsafeReboot))
    } else {
        parse_port_request(method, path, query)
    }
}

/// An HTTP status line and a body of at most 2048 bytes.
#[derive(Debug)]
pub struct ApiResponse {
    pub status: &'static str,
    pub body: TextBuf,
}

#[derive(Debug)]
pub enum ApiOutcome {
    Response(ApiResponse),
    ResponseAndAction { response: ApiResponse, action: ApiPendingAction },
}

/// Status, body and the action to carry out, if any.
pub open spec fn outcome_view(o: ApiOutcome) -> (Seq<char>, Seq<char>, Option<ApiPendingAction>) {
    match o {
        ApiOutcome::Response(r) => (r.status@, r.body@, None),
        ApiOutcome::ResponseAndAction { response, action } => (
            response.status@,
            response.body@,
            Some(action),
        ),
    }
}

pub fn render_health_json() -> (s: &'static str)
    ensures
        s@ == "{\"ok\":true}"@,
{
    "{\"ok\":true}"
}

pub fn render_port_replug_json() -> (s: &'static str)
    ensures
        s@ == "{\"accepted\":true,\"mode\":\"power_cycle\"}"@,
{
    "{\"accepted\":true,\"mode\":\"power_cycle\"}"
}

pub open spec fn port_power_groups(enabled: bool) -> Seq<Seq<Seq<char>>> {
    seq![seq!["{\"accepted\":true,\"power_enabled\":"@, bool_text(enabled), "}"@]]
}

/// `{"accepted":true,"power_enabled":<enabled>}`.
pub fn render_port_power_json(enabled: bool) -> (r: TextBuf)
    ensures
        r.capacity() == 128,
        r@ == render_groups(Seq::empty(), port_power_groups(enabled), 128),
{
    let mut out = TextBuf::with_capacity(128);
    let ghost start = out@;
    let v = vec![
        "{\"accepted\":true,\"power_enabled\":",
        if enabled {
            "true"
        } else {
            "false"
        },
        "}",
    ];
    let ghost g0: Seq<Seq<Seq<char>>> = Seq::empty();
    emit(&mut out, &v, Ghost(start), Ghost(g0));
    assert(g0.push(pieces_view(v@)) =~~= port_power_groups(enabled));
    out
}

pub open spec fn error_groups(code: Seq<char>, message: Seq<char>, retryable: bool) -> Seq<
    Seq<Seq<char>>,
> {
    seq![
        seq![
            "{\"error\":{\"code\":\""@,
            code,
            "\",\"message\":\""@,
            message,
            "\",\"retryable\":"@,
            bool_text(retryable),
            "}}"@,
        ],
    ]
}

/// `{"error":{"code":..,"message":..,"retryable":..}}` of a refusal.
pub fn render_error_json(error: ApiErrorSpec) -> (r: TextBuf)
    ensures
        r.capacity() == 256,
        r@ == render_groups(
            Seq::empty(),
            error_groups(error.code@, error.message@, error.retryable),
            256,
        ),
{
    let mut out = TextBuf::with_capacity(256);
    let ghost start = out@;
    let v = vec![
        "{\"error\":{\"code\":\"",
        error.code,
        "\",\"message\":\"",
        error.message,
        "\",\"retryable\":",
        if error.retryable {
            "true"
        } else {
            "false"
        },
        "}}",
    ];
    let ghost g0: Seq<Seq<Seq<char>>> = Seq::empty();
    emit(&mut out, &v, Ghost(start), Ghost(g0));
    assert(g0.push(pieces_view(v@)) =~~= error_groups(error.code@, error.message@, error.retryable));
    out
}

pub fn render_info_json(snapshot: RuntimeSnapshot, version: &str) -> (r: TextBuf)
    ensures
        r.capacity() == 1536,
        r@ == render_groups(Seq::empty(), info_groups(snapshot, version@), 1536),
{
    render_info_result(snapshot, version)
}

pub fn render_ports_json(snapshot: RuntimeSnapshot) -> (r: TextBuf)
    ensures
        r.capacity() == 2048,
        r@ == render_groups(Seq::empty(), ports_groups(snapshot), 2048),
{
    render_ports_result(snapshot)
}

pub fn render_port_json(snapshot: RuntimeSnapshot, index: usize) -> (r: Option<TextBuf>)
    ensures
        index >= 4 ==> r is None,
        index < 4 ==> (r matches Some(t) && t.capacity() == 768 && t@ == render_groups(
            Seq::empty(),
            port_groups(snapshot.uptime_ms, index as int, snapshot.ports@[index as int]),
            768,
        )),
{
    render_port_result(snapshot, index)
}

pub fn render_wifi_json(wifi: WifiSnapshot) -> (r: TextBuf)
    requires
        wifi.ssid_len <= 32,
    ensures
        r.capacity() == 512,
        r@ == render_groups(Seq::empty(), wifi_groups(wifi), 512),
{
    render_wifi_result(wifi)
}

fn response_static(status: &'static str, body: &'static str) -> (r: ApiResponse)
    ensures
        r.status == status,
        r.body@ == bounded_push(Seq::empty(), body@, 2048),
{
    let mut owned = TextBuf::with_capacity(2048);
    owned.push_str(body);
    ApiResponse { status, body: owned }
}

fn response_owned(status: &'static str, body: TextBuf) -> (r: ApiResponse)
    requires
        body.capacity() <= 2048,
    ensures
        r.status == status,
        r.body@ == body@,
{
    let mut owned = TextBuf::with_capacity(2048);
    owned.push_str(body.as_str());
    assert(Seq::<char>::empty() + body@ =~= body@);
    proof {
        vstd::utf8::is_ascii_chars_encode_utf8(Seq::<char>::empty());
    }
    ApiResponse { status, body: owned }
}

/// The body of a refusal.
pub open spec fn error_body(kind: ApiErrorKind) -> Seq<char> {
    let (code, message) = match kind {
        ApiErrorKind::UnknownEndpoint => ("bad_request"@, "unknown endpoint"@),
        ApiErrorKind::BadEnabled => ("bad_request"@, "missing or invalid enabled"@),
        ApiErrorKind::InvalidPort => ("invalid_port"@, "invalid port"@),
        ApiErrorKind::UnsafeWifiWrite => (
            "unsafe_transport"@,
            "Wi-Fi configuration changes require Web Serial or Local USB"@,
        ),
        ApiErrorKind::UnsafeReboot => (
            "unsafe_transport"@,
            "Reboot to apply Wi-Fi changes requires Web Serial or Local USB"@,
        ),
    };
    render_groups(Seq::empty(), error_groups(code, message, false), 256)
}

pub open spec fn error_status(kind: ApiErrorKind) -> Seq<char> {
    match kind {
        ApiErrorKind::UnknownEndpoint | ApiErrorKind::BadEnabled => "400 Bad Request"@,
        ApiErrorKind::InvalidPort => "404 Not Found"@,
        ApiErrorKind::UnsafeWifiWrite | ApiErrorKind::UnsafeReboot => "403 Forbidden"@,
    }
}

pub open spec fn refusal(kind: ApiErrorKind) -> (Seq<char>, Seq<char>, Option<ApiPendingAction>) {
    (error_status(kind), error_body(kind), None)
}

/// The answer to a request: status line, body, and the port action to carry
/// out, if any.
pub open spec fn spec_handle_request(
    method: Seq<char>,
    path_and_query: Seq<char>,
    s: RuntimeSnapshot,
    version: Seq<char>,
) -> (Seq<char>, Seq<char>, Option<ApiPendingAction>) {
    match spec_parse_request(method, path_and_query) {
        Ok(ApiRequest::Health) => ("200 OK"@, "{\"ok\":true}"@, None),
        Ok(ApiRequest::Info) => (
            "200 OK"@,
            render_groups(Seq::empty(), info_groups(s, version), 1536),
            None,
        ),
        Ok(ApiRequest::Ports) => (
            "200 OK"@,
            render_groups(Seq::empty(), ports_groups(s), 2048),
            None,
        ),
        Ok(ApiRequest::Port { index }) => if index < 4 {
            (
                "200 OK"@,
                render_groups(
                    Seq::empty(),
                    port_groups(s.uptime_ms, index as int, s.ports@[index as int]),
                    768,
                ),
                None,
            )
        } else {
            refusal(ApiErrorKind::InvalidPort)
        },
        Ok(ApiRequest::PortPower { index, enabled }) => (
            "200 OK"@,
            render_groups(Seq::empty(), port_power_groups(enabled), 128),
            Some(ApiPendingAction::PortPower { index, enabled }),
        ),
        Ok(ApiRequest::PortReplug { index }) => (
            "202 Accepted"@,
            "{\"accepted\":true,\"mode\":\"power_cycle\"}"@,
            Some(ApiPendingAction::PortReplug { index }),
        ),
        Ok(ApiRequest::Wifi) => (
            "200 OK"@,
            render_groups(Seq::empty(), wifi_groups(s.wifi), 512),
            None,
        ),
        Ok(ApiRequest::WifiSetForbidden) => refusal(ApiErrorKind::UnsafeWifiWrite),
        Ok(ApiRequest::WifiClearForbidden) => refusal(ApiErrorKind::UnsafeWifiWrite),
        Ok(ApiRequest::RebootForbidden) => refusal(ApiErrorKind::UnsafeReboot),
        Err(kind) => refusal(kind),
    }
}

fn refuse(error: ApiErrorSpec) -> (r: ApiOutcome)
    ensures
        outcome_view(r) == (error.status@, render_groups(
            Seq::empty(),
            error_groups(error.code@, error.message@, error.retryable),
            256,
        ), None::<ApiPendingAction>),
{
    ApiOutcome::Response(response_owned(error.status, render_error_json(error)))
}

/// Answers one HTTP request: reads are rendered from the snapshot, port
/// changes are answered and handed back as the action to carry out, Wi-Fi
/// writes and reboots are refused on this transport.
pub fn handle_request(
    method: &str,
    path_and_query: &str,
    snapshot: RuntimeSnapshot,
    version: &str,
) -> (r: ApiOutcome)
    requires
        spec_parse_request(method@, path_and_query@) == Ok::<ApiRequest, ApiErrorKind>(
            ApiRequest::Wifi,
        ) ==> snapshot.wifi.ssid_len <= 32,
    ensures
        outcome_view(r) == spec_handle_request(method@, path_and_query@, snapshot, version@),
{
    proof {
        reveal_strlit("{\"ok\":true}");
        reveal_strlit("{\"accepted\":true,\"mode\":\"power_cycle\"}");
        vstd::utf8::is_ascii_chars_encode_utf8("{\"ok\":true}"@);
        vstd::utf8::is_ascii_chars_encode_utf8("{\"accepted\":true,\"mode\":\"power_cycle\"}"@);
        vstd::utf8::is_ascii_chars_encode_utf8(Seq::<char>::empty());
        assert(Seq::<char>::empty() + "{\"ok\":true}"@ =~= "{\"ok\":true}"@);
        assert(Seq::<char>::empty() + "{\"accepted\":true,\"mode\":\"power_cycle\"}"@
            =~= "{\"accepted\":true,\"mode\":\"power_cycle\"}"@);
    }
    match parse_request(method, path_and_query) {
        Ok(ApiRequest::Health) => ApiOutcome::Response(
            response_static("200 OK", render_health_json()),
        ),
        Ok(ApiRequest::Info) => ApiOutcome::Response(
            response_owned("200 OK", render_info_result(snapshot, version)),
        ),
        Ok(ApiRequest::Ports) => ApiOutcome::Response(
            response_owned("200 OK", render_ports_result(snapshot)),
        ),
        Ok(ApiRequest::Port { index }) => match render_port_result(snapshot, index) {
            Some(body) => ApiOutcome::Response(response_owned("200 OK", body)),
            None => refuse(ApiErrorSpec::of(ApiErrorKind::InvalidPort)),
        },
        Ok(ApiRequest::PortPower { index, enabled }) => ApiOutcome::ResponseAndAction {
            response: response_owned("200 OK", render_port_power_json(enabled)),
            action: ApiPendingAction::PortPower { index, enabled },
        },
        Ok(ApiRequest::PortReplug { index }) => ApiOutcome::ResponseAndAction {
            response: response_static("202 Accepted", render_port_replug_json()),
            action: ApiPendingAction::PortReplug { index },
        },
        Ok(ApiRequest::Wifi) => ApiOutcome::Response(
            response_owned("200 OK", render_wifi_result(snapshot.wifi)),
        ),
        Ok(ApiRequest::WifiSetForbidden) | Ok(ApiRequest::WifiClearForbidden) => refuse(
            ApiErrorSpec::of(ApiErrorKind::UnsafeWifiWrite),
        ),
        Ok(ApiRequest::RebootForbidden) => refuse(ApiErrorSpec::of(ApiErrorKind::UnsafeReboot)),
        Err(error) => refuse(error),
    }
}

/// Reads never change the board: no `GET` request carries an action.
pub proof fn lemma_get_requests_carry_no_action(
    path_and_query: Seq<char>,
    s: RuntimeSnapshot,
    version: Seq<char>,
)
    ensures
        spec_handle_request("GET"@, path_and_query, s, version).2 is None,
{
    reveal_strlit("GET");
    reveal_strlit("POST");
    assert("GET"@ != "POST"@) by {
        assert("GET"@[0] != "POST"@[0]);
    }
}

/// Wi-Fi changes and reboots are never made over HTTP: a `POST` to the
/// Wi-Fi write paths or to the reboot path, whatever its query, is refused
/// with `403 Forbidden` and carries no action.
pub proof fn lemma_wifi_writes_and_reboot_refused(
    path: Seq<char>,
    query: Seq<char>,
    s: RuntimeSnapshot,
    version: Seq<char>,
)
    requires
        path == "/api/v1/wifi/set"@ || path == "/api/v1/wifi/clear"@ || path == "/api/v1/reboot"@,
    ensures
        ({
            let (status, _, action) = spec_handle_request("POST"@, path + seq!['?'] + query, s, version);
            status == "403 Forbidden"@ && action is None
        }),
{
    reveal_strlit("/api/v1/wifi/set");
    reveal_strlit("/api/v1/wifi/clear");
    reveal_strlit("/api/v1/reboot");
    reveal_strlit("/api/v1/health");
    reveal_strlit("/api/v1/info");
    reveal_strlit("/api/v1/ports");
    reveal_strlit("/api/v1/wifi");
    reveal_strlit("GET");
    reveal_strlit("POST");
    let target = path + seq!['?'] + query;
    assert forall|j: int| 0 <= j < path.len() implies target[j] != '?' by {
        assert(target[j] == path[j]);
    }
    crate::text::lemma_index_of_unique(target, '?', path.len() as int);
    assert(target.subrange(0, path.len() as int) =~= path);
    assert("GET"@ != "POST"@) by {
        assert("GET"@[0] != "POST"@[0]);
    }
}

} // verus!
