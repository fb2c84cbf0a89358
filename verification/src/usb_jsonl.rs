//! The USB JSON-lines protocol: framing of request lines from the serial byte
//! stream, dispatch of a decoded request, and the JSON replies and log lines.
use vstd::prelude::*;
use vstd::utf8::{decode_utf8, encode_utf8, valid_utf8};
use crate::device_contract::{
    info_groups, port_index_from_id, ports_groups, render_info_result, render_ports_result,
    render_wifi_result, spec_port_index_from_id, wifi_groups, RuntimeSnapshot,
};
use crate::text::{
    bounded_push, emit, escape_groups, lemma_push_is_write, lemma_render_groups_append,
    lemma_render_groups_push, lemma_utf8_len_append, pieces_view, render_groups,
    signed_dec_chars, signed_decimal, str_eq, str_from_utf8, utf8_len, write_fold, TextBuf,
};

verus! {

#[derive(Clone, Copy, Debug, PartialEq, Eq, Structural)]
pub enum LogLevel {
    Fault,
    Warn,
    Info,
    Debug,
}

impl LogLevel {
    pub open spec fn spec_as_str(self) -> Seq<char> {
        match self {
            LogLevel::Fault => "error"@,
            LogLevel::Warn => "warn"@,
            LogLevel::Info => "info"@,
            LogLevel::Debug => "debug"@,
        }
    }

    pub fn as_str(self) -> (s: &'static str)
        ensures
            s@ == self.spec_as_str(),
    {
        match self {
            LogLevel::Fault => "error",
            LogLevel::Warn => "warn",
            LogLevel::Info => "info",
            LogLevel::Debug => "debug",
        }
    }
}

#[derive(Clone, Copy, Debug, PartialEq, Eq, Structural)]
pub enum ProtocolError {
    InvalidJson,
    MissingField,
    UnsupportedMethod,
    InvalidPort,
    FrameTooLarge,
    InvalidWifiInput,
    SnapshotUnavailable,
}

impl ProtocolError {
    pub open spec fn spec_code(self) -> Seq<char> {
        match self {
            ProtocolError::InvalidJson => "invalid_json"@,
            ProtocolError::MissingField => "missing_field"@,
            ProtocolError::UnsupportedMethod => "unsupported_method"@,
            ProtocolError::InvalidPort => "invalid_port"@,
            ProtocolError::FrameTooLarge => "frame_too_large"@,
            ProtocolError::InvalidWifiInput => "invalid_wifi_input"@,
            ProtocolError::SnapshotUnavailable => "snapshot_unavailable"@,
        }
    }

    pub open spec fn spec_message(self) -> Seq<char> {
        match self {
            ProtocolError::InvalidJson => "request frame is not valid JSON"@,
            ProtocolError::MissingField => "required request field is missing"@,
            ProtocolError::UnsupportedMethod => "request method is not supported by this firmware"@,
            ProtocolError::InvalidPort => "requested port is outside the supported port1..port4 range"@,
            ProtocolError::FrameTooLarge => "request frame exceeds the line buffer capacity"@,
            ProtocolError::InvalidWifiInput => "wifi credentials are invalid"@,
            ProtocolError::SnapshotUnavailable => "hardware snapshot is not available yet"@,
        }
    }

    pub fn code(self) -> (s: &'static str)
        ensures
            s@ == self.spec_code(),
    {
        match self {
            ProtocolError::InvalidJson => "invalid_json",
            ProtocolError::MissingField => "missing_field",
            ProtocolError::UnsupportedMethod => "unsupported_method",
            ProtocolError::InvalidPort => "invalid_port",
            ProtocolError::FrameTooLarge => "frame_too_large",
            ProtocolError::InvalidWifiInput => "invalid_wifi_input",
            ProtocolError::SnapshotUnavailable => "snapshot_unavailable",
        }
    }

    pub fn message(self) -> (s: &'static str)
        ensures
            s@ == self.spec_message(),
    {
        match self {
            ProtocolError::InvalidJson => "request frame is not valid JSON",
            ProtocolError::MissingField => "required request field is missing",
            ProtocolError::UnsupportedMethod => "request method is not supported by this firmware",
            ProtocolError::InvalidPort => "requested port is outside the supported port1..port4 range",
            ProtocolError::FrameTooLarge => "request frame exceeds the line buffer capacity",
            ProtocolError::InvalidWifiInput => "wifi credentials are invalid",
            ProtocolError::SnapshotUnavailable => "hardware snapshot is not available yet",
        }
    }
}

/// Framing state after one more byte of the stream, and what the byte
/// yields: a complete request line, nothing yet, or a framing error. A frame
/// starts at `{`, ends at a line feed, ignores carriage returns, and holds at
/// most `cap` bytes.
pub open spec fn jsonl_step(buf: Seq<u8>, in_frame: bool, byte: u8, cap: nat) -> (
    Seq<u8>,
    bool,
    Result<Option<Seq<char>>, ProtocolError>,
) {
    if byte == 10 {
        if !in_frame || buf.len() == 0 {
            (Seq::empty(), false, Ok(None))
        } else if !valid_utf8(buf) {
            (Seq::empty(), false, Err(ProtocolError::InvalidJson))
        } else {
            (Seq::empty(), false, Ok(Some(decode_utf8(buf))))
        }
    } else if byte == 13 {
        (buf, in_frame, Ok(None))
    } else if !in_frame && byte != 123 {
        (buf, in_frame, Ok(None))
    } else if buf.len() >= cap {
        (Seq::empty(), false, Err(ProtocolError::FrameTooLarge))
    } else {
        (buf.push(byte), true, Ok(None))
    }
}

/// Collects request lines from the serial byte stream, at most `N` bytes
/// each.
pub struct UsbJsonlState<const N: usize> {
    buffer: Vec<u8>,
    in_frame: bool,
}

impl<const N: usize> View for UsbJsonlState<N> {
    type V = (Seq<u8>, bool);

    closed spec fn view(&self) -> (Seq<u8>, bool) {
        (self.buffer@, self.in_frame)
    }
}

impl<const N: usize> UsbJsonlState<N> {
    #[verifier::type_invariant]
    closed spec fn bounded(&self) -> bool {
        self.buffer@.len() <= N
    }

    /// Waiting for the start of a frame, nothing buffered.
    pub fn new() -> (s: Self)
        ensures
            s@ == (Seq::<u8>::empty(), false),
    {
        UsbJsonlState { buffer: Vec::new(), in_frame: false }
    }

    /// Takes one byte of the stream; returns the request line it completes,
    /// if any.
    pub fn push_byte(&mut self, byte: u8) -> (r: Result<Option<TextBuf>, ProtocolError>)
        ensures
            ({
                let (buf, in_frame, out) = jsonl_step(old(self)@.0, old(self)@.1, byte, N as nat);
                &&& final(self)@ == (buf, in_frame)
                &&& match (r, out) {
                    (Ok(Some(line)), Ok(Some(text))) => line@ == text && line.capacity() == N,
                    (Ok(None), Ok(None)) => true,
                    (Err(e), Err(f)) => e == f,
                    _ => false,
                }
            }),
    {
        proof {
            use_type_invariant(&*self);
        }
        if byte == 10 {
            if !self.in_frame || self.buffer.len() == 0 {
                self.buffer = Vec::new();
                self.in_frame = false;
                return Ok(None);
            }
            let mut line = TextBuf::with_capacity(N);
            let text = match str_from_utf8(self.buffer.as_slice()) {
                Some(text) => text,
                None => {
                    self.buffer = Vec::new();
                    self.in_frame = false;
                    return Err(ProtocolError::InvalidJson);
                },
            };
            proof {
                vstd::utf8::decode_utf8_encode_utf8(self.buffer@);
                vstd::utf8::is_ascii_chars_encode_utf8(Seq::<char>::empty());
                assert(Seq::<char>::empty() + text@ =~= text@);
            }
            if !line.push_str(text) {
                self.buffer = Vec::new();
                self.in_frame = false;
                return Err(ProtocolError::FrameTooLarge);
            }
            self.buffer = Vec::new();
            self.in_frame = false;
            Ok(Some(line))
        } else if byte == 13 {
            Ok(None)
        } else {
            if !self.in_frame {
                if byte != 123 {
                    return Ok(None);
                }
                self.in_frame = true;
            }
            if self.buffer.len() >= N {
                self.buffer = Vec::new();
                self.in_frame = false;
                return Err(ProtocolError::FrameTooLarge);
            }
            let mut grown = self.buffer.clone();
            grown.push(byte);
            self.buffer = grown;
            Ok(None)
        }
    }
}

impl<const N: usize> Default for UsbJsonlState<N> {
    fn default() -> (s: Self)
        ensures
            s@ == (Seq::<u8>::empty(), false),
    {
        Self::new()
    }
}

/// Framing state after a run of bytes, and whether every byte of the run
/// yielded nothing.
pub open spec fn jsonl_feed(buf: Seq<u8>, in_frame: bool, bytes: Seq<u8>, cap: nat) -> (
    Seq<u8>,
    bool,
    bool,
)
    decreases bytes.len(),
{
    if bytes.len() == 0 {
        (buf, in_frame, true)
    } else {
        let (b, f, out) = jsonl_step(buf, in_frame, bytes[0], cap);
        let (b2, f2, quiet) = jsonl_feed(b, f, bytes.drop_first(), cap);
        (b2, f2, quiet && out == Ok::<Option<Seq<char>>, ProtocolError>(None))
    }
}

proof fn lemma_feed_inside_frame(buf: Seq<u8>, rest: Seq<u8>, cap: nat)
    requires
        buf.len() > 0,
        buf.len() + rest.len() <= cap,
        forall|i: int| 0 <= i < rest.len() ==> rest[i] != 10 && rest[i] != 13,
    ensures
        jsonl_feed(buf, true, rest, cap) == (buf + rest, true, true),
    decreases rest.len(),
{
    if rest.len() == 0 {
        assert(buf + rest =~= buf);
    } else {
        lemma_feed_inside_frame(buf.push(rest[0]), rest.drop_first(), cap);
        assert(buf.push(rest[0]) + rest.drop_first() =~= buf + rest);
    }
}

/// A request line written to the stream is read back: from an idle state, the
/// bytes of a line that starts with `{`, holds no line feed or carriage
/// return and fits the buffer yield nothing until the closing line feed,
/// which yields the line itself (or `InvalidJson` when it is not UTF-8) and
/// leaves the state idle again.
pub proof fn lemma_line_round_trip(line: Seq<u8>, cap: nat)
    requires
        line.len() > 0,
        line[0] == 123,
        line.len() <= cap,
        forall|i: int| 0 <= i < line.len() ==> line[i] != 10 && line[i] != 13,
    ensures
        jsonl_feed(Seq::empty(), false, line, cap) == (line, true, true),
        jsonl_step(line, true, 10, cap) == (
            Seq::<u8>::empty(),
            false,
            if valid_utf8(line) {
                Ok::<Option<Seq<char>>, ProtocolError>(Some(decode_utf8(line)))
            } else {
                Err(ProtocolError::InvalidJson)
            },
        ),
{
    let first = Seq::<u8>::empty().push(line[0]);
    assert(jsonl_step(Seq::empty(), false, line[0], cap) == (first, true, Ok::<Option<Seq<char>>, ProtocolError>(None)));
    lemma_feed_inside_frame(first, line.drop_first(), cap);
    assert(first + line.drop_first() =~= line);
}

/// A frame that outgrows the buffer is refused with `FrameTooLarge`, and the
/// state goes back to waiting for the next frame.
pub proof fn lemma_overlong_frame_is_refused(buf: Seq<u8>, byte: u8, cap: nat)
    requires
        buf.len() >= cap,
        byte != 10,
        byte != 13,
    ensures
        jsonl_step(buf, true, byte, cap) == (
            Seq::<u8>::empty(),
            false,
            Err::<Option<Seq<char>>, ProtocolError>(ProtocolError::FrameTooLarge),
        ),
{
}

/// What a request asks the runtime to do once the reply is sent.
pub enum UsbAction {
    NoAction,
    Reboot,
    WifiSet { ssid: TextBuf, psk: TextBuf, psk_configured: bool },
    WifiClear,
    PortPowerSet { index: usize, enabled: bool },
    PortReplug { index: usize },
}

/// `UsbAction` with the credentials as text.
pub enum UsbActionModel {
    NoAction,
    Reboot,
    WifiSet { ssid: Seq<char>, psk: Seq<char>, psk_configured: bool },
    WifiClear,
    PortPowerSet { index: usize, enabled: bool },
    PortReplug { index: usize },
}

impl View for UsbAction {
    type V = UsbActionModel;

    open spec fn view(&self) -> UsbActionModel {
        match self {
            UsbAction::NoAction => UsbActionModel::NoAction,
            UsbAction::Reboot => UsbActionModel::Reboot,
            UsbAction::WifiSet { ssid, psk, psk_configured } => UsbActionModel::WifiSet {
                ssid: ssid@,
                psk: psk@,
                psk_configured: *psk_configured,
            },
            UsbAction::WifiClear => UsbActionModel::WifiClear,
            UsbAction::PortPowerSet { index, enabled } => UsbActionModel::PortPowerSet {
                index: *index,
                enabled: *enabled,
            },
            UsbAction::PortReplug { index } => UsbActionModel::PortReplug { index: *index },
        }
    }
}

/// The reply line, the log line to emit, and the action to carry out.
pub struct UsbResponse {
    pub response: TextBuf,
    pub log: Option<TextBuf>,
    pub action: UsbAction,
}

pub open spec fn usb_response_view(r: UsbResponse) -> (Seq<char>, Option<Seq<char>>, UsbActionModel) {
    (
        r.response@,
        match r.log {
            Some(l) => Some(l@),
            None => None,
        },
        r.action@,
    )
}

/// The id of a request: a JSON string or a JSON integer.
#[derive(Clone, Copy, Debug, PartialEq, Eq)]
pub enum RequestId<'a> {
    Text(&'a str),
    Number(i64),
}

/// The parameters a request may carry.
#[derive(Clone, Copy, Debug, PartialEq, Eq)]
pub struct RequestParams<'a> {
    pub port: Option<&'a str>,
    pub enabled: Option<bool>,
    pub ssid: Option<&'a str>,
    pub psk: Option<&'a str>,
}

/// A request line decoded with its id read as a string.
#[derive(Clone, Copy, Debug, PartialEq, Eq)]
pub struct Request<'a> {
    pub id: Option<&'a str>,
    pub method: Option<&'a str>,
    pub params: RequestParams<'a>,
}

/// A request line decoded with its id read as an integer.
#[derive(Clone, Copy, Debug, PartialEq, Eq)]
pub struct NumericIdRequest<'a> {
    pub id: Option<i64>,
    pub method: Option<&'a str>,
    pub params: RequestParams<'a>,
}

/// A request with its id and method present.
#[derive(Clone, Copy, Debug, PartialEq, Eq)]
pub struct ParsedRequest<'a> {
    pub id: RequestId<'a>,
    pub method: &'a str,
    pub params: RequestParams<'a>,
}

/// Picks the decoded request: the string-id reading when the line decoded
/// that way, else the integer-id reading; `InvalidJson` when it decoded
/// neither way, `MissingField` when the id or the method is absent.
pub fn resolve_request<'a>(
    as_text_id: Option<Request<'a>>,
    as_numeric_id: Option<NumericIdRequest<'a>>,
) -> (r: Result<ParsedRequest<'a>, ProtocolError>)
    ensures
        match as_text_id {
            Some(req) => match (req.id, req.method) {
                (Some(id), Some(method)) => r == Ok::<ParsedRequest<'a>, ProtocolError>(
                    ParsedRequest { id: RequestId::Text(id), method, params: req.params },
                ),
                _ => r == Err::<ParsedRequest<'a>, ProtocolError>(ProtocolError::MissingField),
            },
            None => match as_numeric_id {
                None => r == Err::<ParsedRequest<'a>, ProtocolError>(ProtocolError::InvalidJson),
                Some(req) => match (req.id, req.method) {
                    (Some(id), Some(method)) => r == Ok::<ParsedRequest<'a>, ProtocolError>(
                        ParsedRequest { id: RequestId::Number(id), method, params: req.params },
                    ),
                    _ => r == Err::<ParsedRequest<'a>, ProtocolError>(ProtocolError::MissingField),
                },
            },
        },
{
    if let Some(req) = as_text_id {
        let id = match req.id {
            Some(id) => id,
            None => return Err(ProtocolError::MissingField),
        };
        let method = match req.method {
            Some(method) => method,
            None => return Err(ProtocolError::MissingField),
        };
        return Ok(ParsedRequest { id: RequestId::Text(id), method, params: req.params });
    }
    let req = match as_numeric_id {
        Some(req) => req,
        None => return Err(ProtocolError::InvalidJson),
    };
    let id = match req.id {
        Some(id) => id,
        None => return Err(ProtocolError::MissingField),
    };
    let method = match req.method {
        Some(method) => method,
        None => return Err(ProtocolError::MissingField),
    };
    Ok(ParsedRequest { id: RequestId::Number(id), method, params: req.params })
}

/// The writes of a request id: an escaped JSON string, or an integer (a
/// negative one's sign written on its own).
pub open spec fn id_groups(id: RequestId) -> Seq<Seq<Seq<char>>> {
    match id {
        RequestId::Text(s) => seq![seq![seq!['"']]] + escape_groups(s@, true) + seq![
            seq![seq!['"']],
        ],
        RequestId::Number(n) => if n < 0 {
            seq![seq!["-"@, signed_dec_chars(-(n as int))]]
        } else {
            seq![seq![signed_dec_chars(n as int)]]
        },
    }
}

fn write_id_json(
    out: &mut TextBuf,
    id: RequestId,
    Ghost(start): Ghost<Seq<char>>,
    Ghost(done): Ghost<Seq<Seq<Seq<char>>>>,
)
    requires
        old(out)@ == render_groups(start, done, old(out).capacity()),
    ensures
        final(out).capacity() == old(out).capacity(),
        final(out)@ == render_groups(start, done + id_groups(id), old(out).capacity()),
{
    let ghost cap = out.capacity();
    match id {
        RequestId::Text(s) => {
            let ghost b0 = out@;
            out.push('"');
            proof {
                lemma_push_is_write(b0, seq!['"'], cap);
                lemma_render_groups_push(start, done, seq![seq!['"']], cap);
            }
            let ghost d1 = done.push(seq![seq!['"']]);
            out.push_json_escaped(s, true);
            proof {
                lemma_render_groups_append(start, d1, escape_groups(s@, true), cap);
            }
            let ghost d2 = d1 + escape_groups(s@, true);
            let ghost b2 = out@;
            out.push('"');
            proof {
                lemma_push_is_write(b2, seq!['"'], cap);
                lemma_render_groups_push(start, d2, seq![seq!['"']], cap);
                assert(d2.push(seq![seq!['"']]) =~~= done + id_groups(id));
            }
        },
        RequestId::Number(n) => {
            if n < 0 {
                let magnitude: i64 = if n == i64::MIN {
                    0
                } else {
                    -n
                };
                let digits = if n == i64::MIN {
                    crate::text::decimal(9223372036854775808u64)
                } else {
                    signed_decimal(magnitude)
                };
                let v = vec!["-", digits.as_str()];
                emit(out, &v, Ghost(start), Ghost(done));
                proof {
                    if n != i64::MIN {
                        assert(digits@ == signed_dec_chars(-(n as int)));
                    }
                    assert(done.push(pieces_view(v@)) =~~= done + id_groups(id));
                }
            } else {
                let digits = signed_decimal(n);
                let v = vec![digits.as_str()];
                emit(out, &v, Ghost(start), Ghost(done));
                assert(done.push(pieces_view(v@)) =~~= done + id_groups(id));
            }
        },
    }
}

/// `{"id":<id>,"ok":true,"result":<result>}`.
pub open spec fn simple_ok_groups(id: RequestId, result: Seq<char>) -> Seq<Seq<Seq<char>>> {
    seq![seq!["{\"id\":"@]] + id_groups(id) + seq![seq![",\"ok\":true,\"result\":"@, result, "}"@]]
}

pub open spec fn simple_ok_text(id: RequestId, result: Seq<char>) -> Seq<char> {
    render_groups(Seq::empty(), simple_ok_groups(id, result), 16384)
}

fn render_simple_ok(id: RequestId, result_json: &str) -> (r: TextBuf)
    ensures
        r@ == simple_ok_text(id, result_json@),
        r.capacity() == 16384,
{
    let mut out = TextBuf::with_capacity(16384);
    let ghost start = out@;
    let ghost g0: Seq<Seq<Seq<char>>> = Seq::empty();
    let v = vec!["{\"id\":"];
    emit(&mut out, &v, Ghost(start), Ghost(g0));
    let ghost g1 = g0.push(pieces_view(v@));
    write_id_json(&mut out, id, Ghost(start), Ghost(g1));
    let ghost g2 = g1 + id_groups(id);
    let v = vec![",\"ok\":true,\"result\":", result_json, "}"];
    emit(&mut out, &v, Ghost(start), Ghost(g2));
    assert(g2.push(pieces_view(v@)) =~~= simple_ok_groups(id, result_json@));
    out
}

/// `{"type":"log","level":..,"target":..,"message":..}`, target and message
/// escaped.
pub open spec fn log_groups(level: LogLevel, target: Seq<char>, message: Seq<char>) -> Seq<
    Seq<Seq<char>>,
> {
    seq![seq!["{\"type\":\"log\",\"level\":\""@, level.spec_as_str(), "\",\"target\":\""@]]
        + escape_groups(target, true) + seq![seq!["\",\"message\":\""@]] + escape_groups(
        message,
        true,
    ) + seq![seq!["\"}"@]]
}

/// Replaces the content of `out` with a log line.
pub fn render_log_json(out: &mut TextBuf, level: LogLevel, target: &str, message: &str)
    ensures
        final(out).capacity() == old(out).capacity(),
        final(out)@ == render_groups(
            Seq::empty(),
            log_groups(level, target@, message@),
            old(out).capacity(),
        ),
{
    out.clear();
    let ghost cap = out.capacity();
    let ghost start = out@;
    let ghost g0: Seq<Seq<Seq<char>>> = Seq::empty();
    let v = vec!["{\"type\":\"log\",\"level\":\"", level.as_str(), "\",\"target\":\""];
    emit(out, &v, Ghost(start), Ghost(g0));
    let ghost g1 = g0.push(pieces_view(v@));
    out.push_json_escaped(target, true);
    proof {
        lemma_render_groups_append(start, g1, escape_groups(target@, true), cap);
    }
    let ghost g2 = g1 + escape_groups(target@, true);
    let v = vec!["\",\"message\":\""];
    emit(out, &v, Ghost(start), Ghost(g2));
    let ghost g3 = g2.push(pieces_view(v@));
    out.push_json_escaped(message, true);
    proof {
        lemma_render_groups_append(start, g3, escape_groups(message@, true), cap);
    }
    let ghost g4 = g3 + escape_groups(message@, true);
    let v = vec!["\"}"];
    emit(out, &v, Ghost(start), Ghost(g4));
    assert(g4.push(pieces_view(v@)) =~~= log_groups(level, target@, message@));
}

pub open spec fn log_text(level: LogLevel, message: Seq<char>) -> Seq<char> {
    render_groups(Seq::empty(), log_groups(level, "usb_jsonl"@, message), 256)
}

fn log_line(level: LogLevel, message: &str) -> (r: TextBuf)
    ensures
        r@ == log_text(level, message@),
{
    let mut log = TextBuf::with_capacity(256);
    render_log_json(&mut log, level, "usb_jsonl", message);
    log
}

/// `{"ok":false,"error":{"code":..,"message":..}}`, with `"id"` when given.
pub open spec fn protocol_error_groups(request_id: Option<Seq<char>>, error: ProtocolError) -> Seq<
    Seq<Seq<char>>,
> {
    seq![
        seq![
            "{\"ok\":false,\"error\":{\"code\":\""@,
            error.spec_code(),
            "\",\"message\":\""@,
            error.spec_message(),
            "\"}"@,
        ],
    ] + match request_id {
        Some(id) => seq![seq![",\"id\":\""@, id, "\""@]],
        None => Seq::empty(),
    } + seq![seq![seq!['}']]]
}

/// The reply to a request that failed, in 256 bytes.
pub fn render_protocol_error(request_id: Option<&str>, error: ProtocolError) -> (r: TextBuf)
    ensures
        r.capacity() == 256,
        r@ == render_groups(
            Seq::empty(),
            protocol_error_groups(
                match request_id {
                    Some(id) => Some(id@),
                    None => None,
                },
                error,
            ),
            256,
        ),
{
    let mut out = TextBuf::with_capacity(256);
    let ghost start = out@;
    let ghost g0: Seq<Seq<Seq<char>>> = Seq::empty();
    let v = vec![
        "{\"ok\":false,\"error\":{\"code\":\"",
        error.code(),
        "\",\"message\":\"",
        error.message(),
        "\"}",
    ];
    emit(&mut out, &v, Ghost(start), Ghost(g0));
    let ghost g1 = g0.push(pieces_view(v@));
    let ghost g2 = g1;
    if let Some(id) = request_id {
        let v = vec![",\"id\":\"", id, "\""];
        emit(&mut out, &v, Ghost(start), Ghost(g1));
        proof {
            g2 = g1.push(pieces_view(v@));
        }
    }
    let ghost before = out@;
    out.push('}');
    proof {
        lemma_push_is_write(before, seq!['}'], 256);
        lemma_render_groups_push(start, g2, seq![seq!['}']], 256);
        let idv = match request_id {
            Some(id) => Some(id@),
            None => None,
        };
        assert(g2.push(seq![seq!['}']]) =~~= protocol_error_groups(idv, error));
    }
    out
}

/// Checks Wi-Fi credentials: both present (`MissingField`), an SSID of 1 to 32
/// bytes and a passphrase that is empty or of 8 to 64 bytes
/// (`InvalidWifiInput`).
pub open spec fn spec_validate_wifi(ssid: Option<Seq<char>>, psk: Option<Seq<char>>) -> Result<
    (Seq<char>, Seq<char>),
    ProtocolError,
> {
    match (ssid, psk) {
        (Some(s), Some(p)) => if utf8_len(s) == 0 || utf8_len(s) > 32 || (utf8_len(p) != 0
            && utf8_len(p) < 8) || utf8_len(p) > 64 {
            Err(ProtocolError::InvalidWifiInput)
        } else {
            Ok((s, p))
        },
        _ => Err(ProtocolError::MissingField),
    }
}

/// Wi-Fi input is accepted exactly when the SSID is 1 to 32 bytes and the
/// passphrase is empty (an open network) or 8 to 64 bytes; accepted input
/// comes back unchanged, refused input is invalid, and a missing SSID or
/// passphrase is a missing field.
pub proof fn lemma_wifi_input_acceptance(ssid: Option<Seq<char>>, psk: Option<Seq<char>>)
    ensures
        (ssid is None || psk is None) ==> spec_validate_wifi(ssid, psk) == Err::<
            (Seq<char>, Seq<char>),
            ProtocolError,
        >(ProtocolError::MissingField),
        match (ssid, psk) {
            (Some(s), Some(p)) => {
                let ok = 1 <= encode_utf8(s).len() <= 32 && (encode_utf8(p).len() == 0 || 8
                    <= encode_utf8(p).len() <= 64);
                &&& ok ==> spec_validate_wifi(ssid, psk) == Ok::<(Seq<char>, Seq<char>), ProtocolError>((s, p))
                &&& !ok ==> spec_validate_wifi(ssid, psk) == Err::<(Seq<char>, Seq<char>), ProtocolError>(
                    ProtocolError::InvalidWifiInput,
                )
            },
            _ => true,
        },
{
    if let (Some(s), Some(p)) = (ssid, psk) {
        assert(utf8_len(s) == encode_utf8(s).len());
        assert(utf8_len(p) == encode_utf8(p).len());
    }
}

/// An open network (an empty passphrase) with a valid SSID is accepted.
pub proof fn lemma_open_network_accepted(s: Seq<char>)
    requires
        1 <= encode_utf8(s).len() <= 32,
    ensures
        spec_validate_wifi(Some(s), Some(Seq::<char>::empty())) == Ok::<
            (Seq<char>, Seq<char>),
            ProtocolError,
        >((s, Seq::<char>::empty())),
{
    assert(encode_utf8(Seq::<char>::empty()).len() == 0);
}

pub open spec fn opt_view(v: Option<&str>) -> Option<Seq<char>> {
    match v {
        Some(s) => Some(s@),
        None => None,
    }
}

fn validate_wifi_input(ssid: Option<&str>, psk: Option<&str>) -> (r: Result<(TextBuf, TextBuf), ProtocolError>)
    ensures
        match (r, spec_validate_wifi(opt_view(ssid), opt_view(psk))) {
            (Ok((s, p)), Ok((es, ep))) => s@ == es && p@ == ep && s.capacity() == 32
                && p.capacity() == 64,
            (Err(e), Err(f)) => e == f,
            _ => false,
        },
{
    let ssid = match ssid {
        Some(s) => s,
        None => return Err(ProtocolError::MissingField),
    };
    let psk = match psk {
        Some(p) => p,
        None => return Err(ProtocolError::MissingField),
    };
    let ssid_len = ssid.as_bytes().len();
    let psk_len = psk.as_bytes().len();
    if ssid_len == 0 || ssid_len > 32 || (psk_len != 0 && psk_len < 8) || psk_len > 64 {
        return Err(ProtocolError::InvalidWifiInput);
    }
    let mut ssid_out = TextBuf::with_capacity(32);
    let mut psk_out = TextBuf::with_capacity(64);
    proof {
        vstd::utf8::is_ascii_chars_encode_utf8(Seq::<char>::empty());
        assert(Seq::<char>::empty() + ssid@ =~= ssid@);
        assert(Seq::<char>::empty() + psk@ =~= psk@);
    }
    if !ssid_out.push_str(ssid) {
        return Err(ProtocolError::InvalidWifiInput);
    }
    if !psk_out.push_str(psk) {
        return Err(ProtocolError::InvalidWifiInput);
    }
    Ok((ssid_out, psk_out))
}

/// The port a request names: `MissingField` without one, `InvalidPort` for
/// one that is not `port1`..`port4`.
pub open spec fn spec_port_param(port: Option<Seq<char>>) -> Result<usize, ProtocolError> {
    match port {
        None => Err(ProtocolError::MissingField),
        Some(p) => match spec_port_index_from_id(p) {
            Some(i) => Ok(i),
            None => Err(ProtocolError::InvalidPort),
        },
    }
}

fn parse_port_index(port: Option<&str>) -> (r: Result<usize, ProtocolError>)
    ensures
        r == spec_port_param(opt_view(port)),
{
    let port = match port {
        Some(p) => p,
        None => return Err(ProtocolError::MissingField),
    };
    match port_index_from_id(port) {
        Some(i) => Ok(i),
        None => Err(ProtocolError::InvalidPort),
    }
}

/// The answer to a decoded request: reply line, log line and action, or the
/// protocol error it fails with.
pub open spec fn spec_handle_parsed(
    req: ParsedRequest,
    s: RuntimeSnapshot,
    version: Seq<char>,
    hardware_snapshot: Option<Seq<char>>,
) -> Result<(Seq<char>, Option<Seq<char>>, UsbActionModel), ProtocolError> {
    let m = req.method@;
    let id = req.id;
    let accepted = "{\"accepted\":true,\"reboot_required\":false,\"applied\":false}"@;
    if m == "info"@ {
        Ok((
            simple_ok_text(id, render_groups(Seq::empty(), info_groups(s, version), 1536)),
            None,
            UsbActionModel::NoAction,
        ))
    } else if m == "ports.get"@ {
        Ok((
            simple_ok_text(id, render_groups(Seq::empty(), ports_groups(s), 2048)),
            None,
            UsbActionModel::NoAction,
        ))
    } else if m == "wifi.get"@ {
        Ok((
            simple_ok_text(id, render_groups(Seq::empty(), wifi_groups(s.wifi), 512)),
            None,
            UsbActionModel::NoAction,
        ))
    } else if m == "hardware.snapshot"@ {
        match hardware_snapshot {
            None => Err(ProtocolError::SnapshotUnavailable),
            Some(json) => Ok((simple_ok_text(id, json), None, UsbActionModel::NoAction)),
        }
    } else if m == "wifi.set"@ {
        match spec_validate_wifi(opt_view(req.params.ssid), opt_view(req.params.psk)) {
            Err(e) => Err(e),
            Ok((ssid, psk)) => Ok((
                simple_ok_text(id, accepted),
                Some(
                    log_text(
                        LogLevel::Info,
                        "wifi credentials accepted over USB; runtime cache updated"@,
                    ),
                ),
                UsbActionModel::WifiSet { ssid, psk, psk_configured: psk.len() != 0 },
            )),
        }
    } else if m == "wifi.clear"@ {
        Ok((
            simple_ok_text(id, accepted),
            Some(log_text(LogLevel::Info, "wifi clear accepted over USB; runtime cache cleared"@)),
            UsbActionModel::WifiClear,
        ))
    } else if m == "port.power_set"@ {
        match spec_port_param(opt_view(req.params.port)) {
            Err(e) => Err(e),
            Ok(index) => match req.params.enabled {
                None => Err(ProtocolError::MissingField),
                Some(enabled) => Ok((
                    simple_ok_text(
                        id,
                        if enabled {
                            "{\"accepted\":true,\"power_enabled\":true}"@
                        } else {
                            "{\"accepted\":true,\"power_enabled\":false}"@
                        },
                    ),
                    Some(
                        log_text(
                            LogLevel::Info,
                            if enabled {
                                "port power enabled"@
                            } else {
                                "port power disabled"@
                            },
                        ),
                    ),
                    UsbActionModel::PortPowerSet { index, enabled },
                )),
            },
        }
    } else if m == "port.replug"@ {
        match spec_port_param(opt_view(req.params.port)) {
            Err(e) => Err(e),
            Ok(index) => Ok((
                simple_ok_text(id, "{\"accepted\":true,\"mode\":\"power_cycle\"}"@),
                Some(log_text(LogLevel::Info, "port replug requested as power-cycle"@)),
                UsbActionModel::PortReplug { index },
            )),
        }
    } else if m == "reboot"@ {
        Ok((
            simple_ok_text(id, "{\"accepted\":true}"@),
            Some(log_text(LogLevel::Warn, "software reboot accepted over USB"@)),
            UsbActionModel::Reboot,
        ))
    } else {
        Err(ProtocolError::UnsupportedMethod)
    }
}

fn response_of(response: TextBuf, log: Option<TextBuf>, action: UsbAction) -> (r: Result<UsbResponse, ProtocolError>)
    ensures
        r matches Ok(u) && usb_response_view(u) == (
            response@,
            match log {
                Some(l) => Some(l@),
                None => None,
            },
            action@,
        ),
{
    Ok(UsbResponse { response, log, action })
}

/// Answers a decoded request (see `spec_handle_parsed`).
pub fn handle_parsed_request(
    request: ParsedRequest,
    snapshot: RuntimeSnapshot,
    version: &str,
    hardware_snapshot: Option<&str>,
) -> (r: Result<UsbResponse, ProtocolError>)
    requires
        request.method@ == "wifi.get"@ ==> snapshot.wifi.ssid_len <= 32,
    ensures
        match (r, spec_handle_parsed(request, snapshot, version@, opt_view(hardware_snapshot))) {
            (Ok(u), Ok(expected)) => usb_response_view(u) == expected,
            (Err(e), Err(f)) => e == f,
            _ => false,
        },
{
    let id = request.id;
    let m = request.method;
    let accepted = "{\"accepted\":true,\"reboot_required\":false,\"applied\":false}";
    if str_eq(m, "info") {
        let body = render_info_result(snapshot, version);
        response_of(render_simple_ok(id, body.as_str()), None, UsbAction::NoAction)
    } else if str_eq(m, "ports.get") {
        let body = render_ports_result(snapshot);
        response_of(render_simple_ok(id, body.as_str()), None, UsbAction::NoAction)
    } else if str_eq(m, "wifi.get") {
        let body = render_wifi_result(snapshot.wifi);
        response_of(render_simple_ok(id, body.as_str()), None, UsbAction::NoAction)
    } else if str_eq(m, "hardware.snapshot") {
        match hardware_snapshot {
            None => Err(ProtocolError::SnapshotUnavailable),
            Some(json) => response_of(render_simple_ok(id, json), None, UsbAction::NoAction),
        }
    } else if str_eq(m, "wifi.set") {
        let (ssid, psk) = match validate_wifi_input(request.params.ssid, request.params.psk) {
            Ok(pair) => pair,
            Err(e) => return Err(e),
        };
        let log = log_line(LogLevel::Info, "wifi credentials accepted over USB; runtime cache updated");
        let psk_configured = !psk.is_empty();
        response_of(
            render_simple_ok(id, accepted),
            Some(log),
            UsbAction::WifiSet { ssid, psk, psk_configured },
        )
    } else if str_eq(m, "wifi.clear") {
        let log = log_line(LogLevel::Info, "wifi clear accepted over USB; runtime cache cleared");
        response_of(render_simple_ok(id, accepted), Some(log), UsbAction::WifiClear)
    } else if str_eq(m, "port.power_set") {
        let index = match parse_port_index(request.params.port) {
            Ok(i) => i,
            Err(e) => return Err(e),
        };
        let enabled = match request.params.enabled {
            Some(e) => e,
            None => return Err(ProtocolError::MissingField),
        };
        let log = log_line(
            LogLevel::Info,
            if enabled {
                "port power enabled"
            } else {
                "port power disabled"
            },
        );
        let reply = if enabled {
            "{\"accepted\":true,\"power_enabled\":true}"
        } else {
            "{\"accepted\":true,\"power_enabled\":false}"
        };
        response_of(
            render_simple_ok(id, reply),
            Some(log),
            UsbAction::PortPowerSet { index, enabled },
        )
    } else if str_eq(m, "port.replug") {
        let index = match parse_port_index(request.params.port) {
            Ok(i) => i,
            Err(e) => return Err(e),
        };
        let log = log_line(LogLevel::Info, "port replug requested as power-cycle");
        response_of(
            render_simple_ok(id, "{\"accepted\":true,\"mode\":\"power_cycle\"}"),
            Some(log),
            UsbAction::PortReplug { index },
        )
    } else if str_eq(m, "reboot") {
        let log = log_line(LogLevel::Warn, "software reboot accepted over USB");
        response_of(render_simple_ok(id, "{\"accepted\":true}"), Some(log), UsbAction::Reboot)
    } else {
        Err(ProtocolError::UnsupportedMethod)
    }
}

} // verus!
