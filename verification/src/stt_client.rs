//! Streaming speech-to-text session logic.
//!
//! One session is a bidirectional byte stream: outbound binary frames
//! carry raw PCM16LE mono audio and one final text control frame signals
//! end-of-audio; inbound text frames carry JSON control and result
//! messages.  This module holds the verified core of the client: the
//! connection URL and authorization header construction, the inbound
//! message schema, the per-frame and per-message decisions of the
//! receive loop, the session state machine, and the audio chunker.  The
//! network transport itself runs outside the verified library and feeds
//! frames and outcomes into these functions.

use vstd::prelude::*;
use vstd::string::*;
use vstd::utf8::encode_utf8;
use vstd::arithmetic::div_mod::lemma_fundamental_div_mod_converse;

verus! {

/// Default endpoint of the speech-to-text service.
pub const STT_URL: &'static str = "wss://api.deepgram.com/v2/listen";

/// Capacity of the bounded queue of outstanding audio chunks feeding the
/// sender: pushing into a full queue blocks the audio producer, an
/// intentional backpressure mechanism.
pub const AUDIO_QUEUE_CAPACITY: usize = 32;

/// A fatal session error.  No error is retried within a session;
/// retry or reconnect is the caller's policy, on a whole new session.
#[derive(Debug, Clone, PartialEq, Eq)]
pub enum SttError {
    /// A malformed configuration, such as an authorization header that
    /// cannot be constructed from the secret.
    Configuration { message: String },
    /// A non-success HTTP response during the opening handshake.
    Handshake { message: String },
    /// An I/O, TLS or protocol-level transport failure.
    Transport { message: String },
    /// A malformed or undecodable inbound message.
    Parse { message: String },
    /// An inbound frame of a kind the protocol does not allow.
    ProtocolViolation,
    /// An error reported by the server.
    Application { code: String, description: String },
}

/// One decoded transcription result, mapped from a `TurnInfo` message
/// and delivered to the caller's callback.
#[derive(Debug, Clone, PartialEq, Eq)]
pub struct TranscriptionResult {
    /// The event kind: an interim turn update, or `"EndOfTurn"` for the
    /// server's determination that the turn is complete.
    pub event: String,
    pub turn_index: u32,
    pub transcript: String,
    /// The recognized words of the transcript.
    pub words: Vec<String>,
}

/// Whether a transcription result reports the end of a turn.
pub open spec fn spec_is_end_of_turn(event: Seq<char>) -> bool {
    event == "EndOfTurn"@
}

impl TranscriptionResult {
    /// Whether this result reports the end of a turn, which triggers
    /// finalization of the transcript.
    pub fn is_end_of_turn(&self) -> (r: bool)
        ensures
            r == spec_is_end_of_turn(self.event@),
    {
        str_eq(self.event.as_str(), "EndOfTurn")
    }
}

/// The inbound protocol: a discriminated union over the `type` field.
/// Unknown discriminators are rejected as a parse error.
#[derive(Debug, Clone, PartialEq, Eq)]
pub enum ServerMessage {
    /// Informational: the session is established.
    Connected { request_id: String, sequence_id: u32 },
    /// A turn update or end-of-turn result.
    TurnInfo {
        request_id: String,
        sequence_id: u32,
        event: String,
        turn_index: u32,
        transcript: String,
        words: Vec<String>,
    },
    /// Fatal: a server-reported error.
    Error {
        sequence_id: Option<u32>,
        code: String,
        description: String,
        websocket_close_code: Option<u16>,
    },
    /// Informational: a configuration acknowledgement.
    Configuration,
}

// ---------------------------------------------------------------------
// Verified string utilities.
// ---------------------------------------------------------------------

/// Character-wise string equality.
pub fn str_eq(a: &str, b: &str) -> (r: bool)
    ensures
        r == (a@ == b@),
{
    let an = a.unicode_len();
    let bn = b.unicode_len();
    if an != bn {
        return false;
    }
    let mut i: usize = 0;
    while i < an
        invariant
            an == a@.len(),
            an == b@.len(),
            0 <= i <= an,
            forall|j: int| 0 <= j < i ==> a@[j] == b@[j],
        decreases an - i,
    {
        if a.get_char(i) != b.get_char(i) {
            return false;
        }
        i = i + 1;
    }
    proof {
        assert(a@ =~= b@);
    }
    true
}

/// Relies on `String::push`: appends one character.
#[verifier::external_body]
fn push_char(s: &mut String, c: char)
    ensures
        final(s)@ == old(s)@.push(c),
{
    s.push(c);
}

/// The decimal digit character for `d`.
pub open spec fn digit_char(d: int) -> char {
    if d == 0 {
        '0'
    } else if d == 1 {
        '1'
    } else if d == 2 {
        '2'
    } else if d == 3 {
        '3'
    } else if d == 4 {
        '4'
    } else if d == 5 {
        '5'
    } else if d == 6 {
        '6'
    } else if d == 7 {
        '7'
    } else if d == 8 {
        '8'
    } else {
        '9'
    }
}

/// The decimal digits of `n` without a leading zero: empty for zero.
pub open spec fn decimal_digits(n: int) -> Seq<char>
    decreases n,
{
    if n <= 0 {
        Seq::empty()
    } else {
        decimal_digits(n / 10).push(digit_char(n % 10))
    }
}

/// The usual decimal rendering of a non-negative number: `"0"` for zero.
pub open spec fn decimal_repr(n: int) -> Seq<char> {
    if n == 0 {
        seq!['0']
    } else {
        decimal_digits(n)
    }
}

fn digit_to_char(d: u32) -> (c: char)
    requires
        d < 10,
    ensures
        c == digit_char(d as int),
{
    if d == 0 {
        '0'
    } else if d == 1 {
        '1'
    } else if d == 2 {
        '2'
    } else if d == 3 {
        '3'
    } else if d == 4 {
        '4'
    } else if d == 5 {
        '5'
    } else if d == 6 {
        '6'
    } else if d == 7 {
        '7'
    } else if d == 8 {
        '8'
    } else {
        '9'
    }
}

/// Appends the decimal digits of `n` (nothing for zero).
fn push_decimal_digits(out: &mut String, n: u32)
    ensures
        final(out)@ == old(out)@ + decimal_digits(n as int),
    decreases n,
{
    if n == 0 {
        proof {
            assert(old(out)@ + decimal_digits(0) =~= old(out)@);
        }
    } else {
        push_decimal_digits(out, n / 10);
        push_char(out, digit_to_char(n % 10));
        proof {
            assert((old(out)@ + decimal_digits(n as int / 10)).push(digit_char(n as int % 10))
                =~= old(out)@ + decimal_digits(n as int));
        }
    }
}

/// Appends the decimal rendering of `n`.
fn push_decimal(out: &mut String, n: u32)
    ensures
        final(out)@ == old(out)@ + decimal_repr(n as int),
{
    if n == 0 {
        push_char(out, '0');
        proof {
            assert(old(out)@.push('0') =~= old(out)@ + decimal_repr(0));
        }
    } else {
        push_decimal_digits(out, n);
    }
}

// ---------------------------------------------------------------------
// Connection URL and authorization header.
// ---------------------------------------------------------------------

/// The connection URL for a session: the base URL plus the query
/// parameters selecting model, sample rate and encoding.
pub open spec fn spec_request_url(base: Seq<char>, sample_rate: u32) -> Seq<char> {
    base + "?model=flux-general-en&sample_rate="@ + decimal_repr(sample_rate as int)
        + "&encoding=linear16"@
}

/// Appends a trailing slash to the base URL unless one is already there.
pub fn normalize_base_url(url: &str) -> (r: String)
    ensures
        url@.len() > 0 && url@.last() == '/' ==> r@ == url@,
        !(url@.len() > 0 && url@.last() == '/') ==> r@ == url@.push('/'),
{
    let n = url.unicode_len();
    if n > 0 && url.get_char(n - 1) == '/' {
        url.to_owned()
    } else {
        let mut out = url.to_owned();
        push_char(&mut out, '/');
        out
    }
}

/// Chooses the endpoint for a session: a caller that probed the default
/// local endpoint and found it unreachable falls back to the remote
/// cloud endpoint; any other requested endpoint is used as given.
pub fn select_endpoint(requested: &str, local_probe_ok: bool) -> (r: String)
    ensures
        requested@ == "ws://localhost:8765"@ && !local_probe_ok ==> r@
            == "wss://river.sandbox.deepgram.com"@,
        requested@ != "ws://localhost:8765"@ || local_probe_ok ==> r@ == requested@,
{
    if str_eq(requested, "ws://localhost:8765") && !local_probe_ok {
        "wss://river.sandbox.deepgram.com".to_owned()
    } else {
        requested.to_owned()
    }
}

/// The one text control frame, sent after the last audio chunk to tell
/// the server that no more audio is coming.
pub fn close_stream_message() -> (r: String)
    ensures
        r@ == "{\"type\":\"CloseStream\"}"@,
{
    "{\"type\":\"CloseStream\"}".to_owned()
}

/// A byte allowed in an HTTP header value: 32..=255 except 127 (DEL),
/// or horizontal tab.
pub open spec fn header_byte_ok(b: u8) -> bool {
    (b >= 32 && b != 127) || b == 9
}

/// Every byte of the UTF-8 encoding of `s` is allowed in an HTTP header
/// value.
pub open spec fn header_value_acceptable(s: Seq<char>) -> bool {
    forall|i: int| 0 <= i < encode_utf8(s).len() ==> header_byte_ok(#[trigger] encode_utf8(s)[i])
}

/// Relies on `http::HeaderValue::from_str`: it accepts exactly the
/// strings in which every byte is 32..=255 except 127, or a horizontal
/// tab.
#[verifier::external_body]
fn header_value_ok(s: &str) -> (r: bool)
    ensures
        r == header_value_acceptable(s@),
{
    http::HeaderValue::from_str(s).is_ok()
}

/// The authorization header value carrying the secret.
pub open spec fn spec_auth_header(api_key: Seq<char>) -> Seq<char> {
    "Token "@ + api_key
}

/// Builds the bearer-style authorization header from the secret, before
/// any network attempt.
///
/// No secret, or an empty one, means connecting without authorization.
/// A secret from which no valid header value can be constructed is a
/// fatal configuration error.
pub fn build_auth_header(api_key: Option<&str>) -> (r: Result<Option<String>, SttError>)
    ensures
        api_key is None ==> r == Ok::<Option<String>, SttError>(None),
        api_key matches Some(k) ==> (if k@.len() == 0 {
            r == Ok::<Option<String>, SttError>(None)
        } else if header_value_acceptable(spec_auth_header(k@)) {
            r is Ok && (r->Ok_0 matches Some(v) && v@ == spec_auth_header(k@))
        } else {
            r is Err && r->Err_0 is Configuration
        }),
{
    match api_key {
        None => Ok(None),
        Some(k) => {
            if k.is_empty() {
                Ok(None)
            } else {
                let mut value = "Token ".to_owned();
                value.append(k);
                if header_value_ok(value.as_str()) {
                    Ok(Some(value))
                } else {
                    Err(
                        SttError::Configuration {
                            message: "invalid authorization header value constructed from the api key".to_owned(),
                        },
                    )
                }
            }
        },
    }
}

// ---------------------------------------------------------------------
// Inbound message parsing.
//
// Inbound text frames are JSON documents.  The generic JSON decoding is
// serde_json's: each trusted accessor below reads one aspect of the
// document (well-formedness, one top-level field, one entry of the
// `words` array) and its result is a named function of the text alone.
// The schema of the tagged union is decoded by verified code on top of
// them, and the decoded message is pinned, field by field, to those
// names.
// ---------------------------------------------------------------------

/// Whether `s` is a well-formed JSON document, as serde_json decides
/// it.
pub uninterp spec fn json_wellformed(s: Seq<char>) -> bool;

/// The string content of top-level field `name` of document `s`:
/// `None` when the document is ill-formed, not an object, lacks the
/// field, or the field is not a string.
pub uninterp spec fn json_field_string(s: Seq<char>, name: Seq<char>) -> Option<Seq<char>>;

/// The u64 content of top-level field `name` of document `s`: `None`
/// when absent or not an integer representable as u64.
pub uninterp spec fn json_field_u64(s: Seq<char>, name: Seq<char>) -> Option<u64>;

/// Whether document `s` is an object with a top-level field `name`.
pub uninterp spec fn json_field_present(s: Seq<char>, name: Seq<char>) -> bool;

/// Whether top-level field `name` of document `s` is present and null.
pub uninterp spec fn json_field_null(s: Seq<char>, name: Seq<char>) -> bool;

/// Whether top-level field `name` of document `s` is present and a
/// number.
pub uninterp spec fn json_field_number(s: Seq<char>, name: Seq<char>) -> bool;

/// The length of the top-level `words` array of document `s`: `None`
/// when absent or not an array.
pub uninterp spec fn json_words_len(s: Seq<char>) -> Option<int>;

/// The string content of the `word` field of element `i` of the
/// top-level `words` array.
pub uninterp spec fn json_word_at(s: Seq<char>, i: int) -> Option<Seq<char>>;

/// Whether element `i` of the top-level `words` array has a numeric
/// `confidence` field.
pub uninterp spec fn json_word_confidence_ok(s: Seq<char>, i: int) -> bool;

/// Relies on `serde_json::from_str::<Value>`: it succeeds exactly on
/// well-formed JSON, deterministically in the text alone.
#[verifier::external_body]
fn check_json_wellformed(text: &str) -> (r: bool)
    ensures
        r == json_wellformed(text@),
{
    serde_json::from_str::<serde_json::Value>(text).is_ok()
}

/// Relies on serde_json's `from_str`, `Value::get` and `Value::as_str`.
#[verifier::external_body]
fn get_field_string(text: &str, name: &str) -> (r: Option<String>)
    ensures
        r is Some <==> json_field_string(text@, name@) is Some,
        r matches Some(v) ==> json_field_string(text@, name@) == Some(v@),
{
    serde_json::from_str::<serde_json::Value>(text).ok().and_then(
        |doc| doc.get(name).and_then(|f| f.as_str()).map(|v| v.to_string()),
    )
}

/// Relies on serde_json's `from_str`, `Value::get` and `Value::as_u64`.
#[verifier::external_body]
fn get_field_u64(text: &str, name: &str) -> (r: Option<u64>)
    ensures
        r == json_field_u64(text@, name@),
{
    serde_json::from_str::<serde_json::Value>(text).ok().and_then(
        |doc| doc.get(name).and_then(|f| f.as_u64()),
    )
}

/// Relies on serde_json's `from_str` and `Value::get`.
#[verifier::external_body]
fn check_field_present(text: &str, name: &str) -> (r: bool)
    ensures
        r == json_field_present(text@, name@),
{
    serde_json::from_str::<serde_json::Value>(text).ok().map_or(
        false,
        |doc| doc.get(name).is_some(),
    )
}

/// Relies on serde_json's `from_str`, `Value::get` and `Value::is_null`.
#[verifier::external_body]
fn check_field_null(text: &str, name: &str) -> (r: bool)
    ensures
        r == json_field_null(text@, name@),
{
    serde_json::from_str::<serde_json::Value>(text).ok().map_or(
        false,
        |doc| doc.get(name).map_or(false, |f| f.is_null()),
    )
}

/// Relies on serde_json's `from_str`, `Value::get` and
/// `Value::is_number`.
#[verifier::external_body]
fn check_field_number(text: &str, name: &str) -> (r: bool)
    ensures
        r == json_field_number(text@, name@),
{
    serde_json::from_str::<serde_json::Value>(text).ok().map_or(
        false,
        |doc| doc.get(name).map_or(false, |f| f.is_number()),
    )
}

/// Relies on serde_json's `from_str`, `Value::get` and
/// `Value::as_array`.
#[verifier::external_body]
fn get_words_len(text: &str) -> (r: Option<usize>)
    ensures
        r is Some <==> json_words_len(text@) is Some,
        r matches Some(n) ==> json_words_len(text@) == Some(n as int),
{
    serde_json::from_str::<serde_json::Value>(text).ok().and_then(
        |doc| doc.get("words").and_then(|w| w.as_array()).map(|a| a.len()),
    )
}

/// Relies on serde_json's `from_str`, `Value::get`, `Value::as_array`,
/// slice `get` and `Value::as_str`.
#[verifier::external_body]
fn get_word_at(text: &str, i: usize) -> (r: Option<String>)
    ensures
        r is Some <==> json_word_at(text@, i as int) is Some,
        r matches Some(v) ==> json_word_at(text@, i as int) == Some(v@),
{
    serde_json::from_str::<serde_json::Value>(text).ok().and_then(
        |doc| doc.get("words").and_then(|w| w.as_array()).and_then(|a| a.get(i)).and_then(
            |e| e.get("word").and_then(|f| f.as_str()).map(|v| v.to_string()),
        ),
    )
}

/// Relies on serde_json's `from_str`, `Value::get`, `Value::as_array`,
/// slice `get` and `Value::is_number`.
#[verifier::external_body]
fn check_word_confidence(text: &str, i: usize) -> (r: bool)
    ensures
        r == json_word_confidence_ok(text@, i as int),
{
    serde_json::from_str::<serde_json::Value>(text).ok().map_or(
        false,
        |doc| doc.get("words").and_then(|w| w.as_array()).and_then(|a| a.get(i)).map_or(
            false,
            |e| e.get("confidence").map_or(false, |f| f.is_number()),
        ),
    )
}

/// The mathematical content of a [`ServerMessage`], over character
/// sequences and plain values.
pub enum ServerMessageView {
    Connected { request_id: Seq<char>, sequence_id: u32 },
    TurnInfo {
        request_id: Seq<char>,
        sequence_id: u32,
        event: Seq<char>,
        turn_index: u32,
        transcript: Seq<char>,
        words: Seq<Seq<char>>,
    },
    Error {
        sequence_id: Option<u32>,
        code: Seq<char>,
        description: Seq<char>,
        websocket_close_code: Option<u16>,
    },
    Configuration,
}

/// The views of a sequence of strings, in order.
pub open spec fn string_seq_views(v: Seq<String>) -> Seq<Seq<char>>
    decreases v.len(),
{
    if v.len() == 0 {
        Seq::empty()
    } else {
        string_seq_views(v.drop_last()).push(v.last()@)
    }
}

impl View for ServerMessage {
    type V = ServerMessageView;

    open spec fn view(&self) -> ServerMessageView {
        match self {
            ServerMessage::Connected { request_id, sequence_id } => ServerMessageView::Connected {
                request_id: request_id@,
                sequence_id: *sequence_id,
            },
            ServerMessage::TurnInfo {
                request_id,
                sequence_id,
                event,
                turn_index,
                transcript,
                words,
            } => ServerMessageView::TurnInfo {
                request_id: request_id@,
                sequence_id: *sequence_id,
                event: event@,
                turn_index: *turn_index,
                transcript: transcript@,
                words: string_seq_views(words@),
            },
            ServerMessage::Error {
                sequence_id,
                code,
                description,
                websocket_close_code,
            } => ServerMessageView::Error {
                sequence_id: *sequence_id,
                code: code@,
                description: description@,
                websocket_close_code: *websocket_close_code,
            },
            ServerMessage::Configuration => ServerMessageView::Configuration,
        }
    }
}

/// Every element of the `words` array up to `n` is an object with a
/// string `word` and a numeric `confidence`.
pub open spec fn spec_words_ok(s: Seq<char>, n: int) -> bool {
    forall|i: int|
        0 <= i < n ==> (#[trigger] json_word_at(s, i)) is Some && json_word_confidence_ok(s, i)
}

/// The decoded `words` of document `s`: the `word` strings, in order.
pub open spec fn spec_word_seq(s: Seq<char>, n: int) -> Seq<Seq<char>>
    decreases n,
{
    if n <= 0 {
        Seq::empty()
    } else {
        spec_word_seq(s, n - 1).push(json_word_at(s, n - 1)->Some_0)
    }
}

/// An optional integer field: `Some(None)` when absent or null,
/// `Some(Some(v))` when an integer, `None` (reject) otherwise.
pub open spec fn spec_opt_field_u64(s: Seq<char>, name: Seq<char>) -> Option<Option<u64>> {
    if !json_field_present(s, name) {
        Some(None)
    } else if json_field_null(s, name) {
        Some(None)
    } else {
        match json_field_u64(s, name) {
            None => None,
            Some(n) => Some(Some(n)),
        }
    }
}

/// A threshold field of a `Configuration` message may be absent, null
/// or a number; anything else is rejected.
pub open spec fn spec_threshold_ok(s: Seq<char>, name: Seq<char>) -> bool {
    !json_field_present(s, name) || json_field_null(s, name) || json_field_number(s, name)
}

/// The decoded `Connected` message of document `s`, when it decodes.
pub open spec fn spec_connected(s: Seq<char>) -> Option<ServerMessageView> {
    match json_field_string(s, "request_id"@) {
        None => None,
        Some(request_id) => match json_field_u64(s, "sequence_id"@) {
            None => None,
            Some(sequence_id) => if sequence_id > u32::MAX {
                None
            } else {
                Some(
                    ServerMessageView::Connected {
                        request_id,
                        sequence_id: sequence_id as u32,
                    },
                )
            },
        },
    }
}

/// The decoded `TurnInfo` message of document `s`, when it decodes:
/// every required field present with the right type.
pub open spec fn spec_turn_info(s: Seq<char>) -> Option<ServerMessageView> {
    match json_field_string(s, "request_id"@) {
        None => None,
        Some(request_id) => match json_field_u64(s, "sequence_id"@) {
            None => None,
            Some(sequence_id) => if sequence_id > u32::MAX {
                None
            } else {
                match json_field_string(s, "event"@) {
                    None => None,
                    Some(event) => match json_field_u64(s, "turn_index"@) {
                        None => None,
                        Some(turn_index) => if turn_index > u32::MAX {
                            None
                        } else {
                            match json_field_string(s, "transcript"@) {
                                None => None,
                                Some(transcript) => if !(json_field_number(
                                    s,
                                    "audio_window_start"@,
                                ) && json_field_number(s, "audio_window_end"@)
                                    && json_field_number(s, "end_of_turn_confidence"@)) {
                                    None
                                } else {
                                    match json_words_len(s) {
                                        None => None,
                                        Some(n) => if !spec_words_ok(s, n) {
                                            None
                                        } else {
                                            Some(
                                                ServerMessageView::TurnInfo {
                                                    request_id,
                                                    sequence_id: sequence_id as u32,
                                                    event,
                                                    turn_index: turn_index as u32,
                                                    transcript,
                                                    words: spec_word_seq(s, n),
                                                },
                                            )
                                        },
                                    }
                                },
                            }
                        },
                    },
                }
            },
        },
    }
}

/// The decoded `Error` message of document `s`, when it decodes.
pub open spec fn spec_error_message(s: Seq<char>) -> Option<ServerMessageView> {
    match json_field_string(s, "code"@) {
        None => None,
        Some(code) => match json_field_string(s, "description"@) {
            None => None,
            Some(description) => match spec_opt_field_u64(s, "sequence_id"@) {
                None => None,
                Some(seq_opt) => if seq_opt matches Some(n) && n > u32::MAX {
                    None
                } else {
                    match spec_opt_field_u64(s, "websocket_close_code"@) {
                        None => None,
                        Some(close_opt) => if close_opt matches Some(n) && n > u16::MAX {
                            None
                        } else {
                            Some(
                                ServerMessageView::Error {
                                    sequence_id: match seq_opt {
                                        None => None,
                                        Some(n) => Some(n as u32),
                                    },
                                    code,
                                    description,
                                    websocket_close_code: match close_opt {
                                        None => None,
                                        Some(n) => Some(n as u16),
                                    },
                                },
                            )
                        },
                    }
                },
            },
        },
    }
}

/// The decoded message of one inbound text frame, when it decodes: the
/// `type` field selects the variant; an ill-formed document, an unknown
/// discriminator, or a missing or wrongly-typed field decodes to
/// nothing.
pub open spec fn spec_server_message(s: Seq<char>) -> Option<ServerMessageView> {
    if !json_wellformed(s) {
        None
    } else {
        match json_field_string(s, "type"@) {
            None => None,
            Some(ty) => if ty == "Connected"@ {
                spec_connected(s)
            } else if ty == "TurnInfo"@ {
                spec_turn_info(s)
            } else if ty == "Error"@ {
                spec_error_message(s)
            } else if ty == "Configuration"@ {
                if spec_threshold_ok(s, "eot_threshold"@) && spec_threshold_ok(
                    s,
                    "preflight_threshold"@,
                ) {
                    Some(ServerMessageView::Configuration)
                } else {
                    None
                }
            } else {
                None
            },
        }
    }
}

fn parse_error(message: &str) -> (r: SttError)
    ensures
        r is Parse,
{
    SttError::Parse { message: message.to_owned() }
}

/// A required u32 field: a JSON integer in u32 range.
fn get_field_u32(text: &str, name: &str) -> (r: Option<u32>)
    ensures
        r is Some <==> (json_field_u64(text@, name@) matches Some(n) && n <= u32::MAX),
        r matches Some(v) ==> json_field_u64(text@, name@) == Some(v as u64),
{
    match get_field_u64(text, name) {
        None => None,
        Some(n) => if n <= u32::MAX as u64 {
            Some(n as u32)
        } else {
            None
        },
    }
}

/// An optional integer field, as `spec_opt_field_u64` fixes it.
fn get_opt_field_u64(text: &str, name: &str) -> (r: Result<Option<u64>, ()>)
    ensures
        r matches Ok(o) ==> spec_opt_field_u64(text@, name@) == Some(o),
        r is Err <==> spec_opt_field_u64(text@, name@) is None,
{
    if !check_field_present(text, name) {
        Ok(None)
    } else if check_field_null(text, name) {
        Ok(None)
    } else {
        match get_field_u64(text, name) {
            None => Err(()),
            Some(n) => Ok(Some(n)),
        }
    }
}

/// The string views of collected words equal the decoded word sequence.
proof fn lemma_collected_words(s: Seq<char>, ws: Seq<String>, n: int)
    requires
        ws.len() == n,
        0 <= n,
        forall|k: int| 0 <= k < n ==> (#[trigger] json_word_at(s, k)) is Some,
        forall|k: int| 0 <= k < n ==> (#[trigger] ws[k])@ == json_word_at(s, k)->Some_0,
    ensures
        string_seq_views(ws) == spec_word_seq(s, n),
    decreases n,
{
    if n > 0 {
        let wd = ws.drop_last();
        assert(forall|k: int| 0 <= k < n - 1 ==> (#[trigger] wd[k]) == ws[k]);
        lemma_collected_words(s, wd, n - 1);
        assert(ws.last() == ws[n - 1]);
    }
}

/// Parses one inbound text frame as a [`ServerMessage`].
///
/// The tagged schema is the canonical target: the `type` field selects
/// the variant.  The contract pins the outcome to the document's
/// decoded content: parsing succeeds exactly when the message decodes,
/// and then returns that message; unknown discriminators, missing
/// required fields and wrongly-typed fields are rejected as parse
/// errors rather than silently ignored.
#[verifier::loop_isolation(false)]
pub fn parse_server_message(text: &str) -> (r: Result<ServerMessage, SttError>)
    ensures
        r matches Ok(m) ==> spec_server_message(text@) == Some(m@),
        r is Err <==> spec_server_message(text@) is None,
        r is Err ==> r->Err_0 is Parse,
{
    if !check_json_wellformed(text) {
        return Err(parse_error("invalid server JSON"));
    }
    let ty = match get_field_string(text, "type") {
        Some(t) => t,
        None => {
            return Err(parse_error("missing or invalid type discriminator"));
        },
    };
    if str_eq(ty.as_str(), "Connected") {
        let request_id = match get_field_string(text, "request_id") {
            Some(v) => v,
            None => {
                return Err(parse_error("Connected: missing or invalid request_id"));
            },
        };
        let sequence_id = match get_field_u32(text, "sequence_id") {
            Some(n) => n,
            None => {
                return Err(parse_error("Connected: missing or invalid sequence_id"));
            },
        };
        Ok(ServerMessage::Connected { request_id, sequence_id })
    } else if str_eq(ty.as_str(), "TurnInfo") {
        let request_id = match get_field_string(text, "request_id") {
            Some(v) => v,
            None => {
                return Err(parse_error("TurnInfo: missing or invalid request_id"));
            },
        };
        let sequence_id = match get_field_u32(text, "sequence_id") {
            Some(n) => n,
            None => {
                return Err(parse_error("TurnInfo: missing or invalid sequence_id"));
            },
        };
        let event = match get_field_string(text, "event") {
            Some(v) => v,
            None => {
                return Err(parse_error("TurnInfo: missing or invalid event"));
            },
        };
        let turn_index = match get_field_u32(text, "turn_index") {
            Some(n) => n,
            None => {
                return Err(parse_error("TurnInfo: missing or invalid turn_index"));
            },
        };
        let transcript = match get_field_string(text, "transcript") {
            Some(v) => v,
            None => {
                return Err(parse_error("TurnInfo: missing or invalid transcript"));
            },
        };
        if !check_field_number(text, "audio_window_start") {
            return Err(parse_error("TurnInfo: missing or invalid audio_window_start"));
        }
        if !check_field_number(text, "audio_window_end") {
            return Err(parse_error("TurnInfo: missing or invalid audio_window_end"));
        }
        if !check_field_number(text, "end_of_turn_confidence") {
            return Err(parse_error("TurnInfo: missing or invalid end_of_turn_confidence"));
        }
        let count = match get_words_len(text) {
            Some(c) => c,
            None => {
                return Err(parse_error("TurnInfo: missing or invalid words"));
            },
        };
        let mut words: Vec<String> = Vec::new();
        let mut i: usize = 0;
        while i < count
            invariant
                json_words_len(text@) == Some(count as int),
                0 <= i <= count,
                words@.len() == i,
                forall|k: int| 0 <= k < i ==> (#[trigger] json_word_at(text@, k)) is Some,
                forall|k: int| 0 <= k < i ==> json_word_confidence_ok(text@, k),
                forall|k: int|
                    0 <= k < i ==> (#[trigger] words@[k])@ == json_word_at(text@, k)->Some_0,
            decreases count - i,
        {
            let word = match get_word_at(text, i) {
                Some(w) => w,
                None => {
                    proof {
                        assert(!spec_words_ok(text@, count as int)) by {
                            if spec_words_ok(text@, count as int) {
                                assert(json_word_at(text@, i as int) is Some);
                            }
                        }
                    }
                    return Err(parse_error("TurnInfo: invalid words"));
                },
            };
            if !check_word_confidence(text, i) {
                proof {
                    assert(!spec_words_ok(text@, count as int)) by {
                        if spec_words_ok(text@, count as int) {
                            assert(json_word_at(text@, i as int) is Some);
                        }
                    }
                }
                return Err(parse_error("TurnInfo: invalid words"));
            }
            words.push(word);
            i = i + 1;
        }
        proof {
            lemma_collected_words(text@, words@, count as int);
        }
        Ok(
            ServerMessage::TurnInfo {
                request_id,
                sequence_id,
                event,
                turn_index,
                transcript,
                words,
            },
        )
    } else if str_eq(ty.as_str(), "Error") {
        let code = match get_field_string(text, "code") {
            Some(v) => v,
            None => {
                return Err(parse_error("Error: missing or invalid code"));
            },
        };
        let description = match get_field_string(text, "description") {
            Some(v) => v,
            None => {
                return Err(parse_error("Error: missing or invalid description"));
            },
        };
        let sequence_id = match get_opt_field_u64(text, "sequence_id") {
            Ok(None) => None,
            Ok(Some(n)) => {
                if n <= u32::MAX as u64 {
                    Some(n as u32)
                } else {
                    return Err(parse_error("Error: invalid sequence_id"));
                }
            },
            Err(_) => {
                return Err(parse_error("Error: invalid sequence_id"));
            },
        };
        let websocket_close_code = match get_opt_field_u64(text, "websocket_close_code") {
            Ok(None) => None,
            Ok(Some(n)) => {
                if n <= u16::MAX as u64 {
                    Some(n as u16)
                } else {
                    return Err(parse_error("Error: invalid websocket_close_code"));
                }
            },
            Err(_) => {
                return Err(parse_error("Error: invalid websocket_close_code"));
            },
        };
        Ok(ServerMessage::Error { sequence_id, code, description, websocket_close_code })
    } else if str_eq(ty.as_str(), "Configuration") {
        if !(!check_field_present(text, "eot_threshold") || check_field_null(
            text,
            "eot_threshold",
        ) || check_field_number(text, "eot_threshold")) {
            return Err(parse_error("Configuration: invalid eot_threshold"));
        }
        if !(!check_field_present(text, "preflight_threshold") || check_field_null(
            text,
            "preflight_threshold",
        ) || check_field_number(text, "preflight_threshold")) {
            return Err(parse_error("Configuration: invalid preflight_threshold"));
        }
        Ok(ServerMessage::Configuration)
    } else {
        Err(parse_error("unknown message type"))
    }
}

// ---------------------------------------------------------------------
// The receive loop's decisions.
// ---------------------------------------------------------------------

/// One frame read from the bidirectional stream, as the receive loop
/// sees it.
#[derive(Debug, Clone, PartialEq, Eq)]
pub enum InboundFrame {
    /// A text frame: a JSON control or result message.
    Text(String),
    /// A binary frame, which the protocol does not allow inbound.
    Binary(Vec<u8>),
    /// The server closed the stream.
    Close,
    /// Any other frame kind (ping, pong): ignorable.
    Other,
}

/// What the receive loop does in response to one frame.
#[derive(Debug, Clone, PartialEq, Eq)]
pub enum FrameAction {
    /// Deliver this result to the callback, then continue reading.
    Deliver(TranscriptionResult),
    /// Informational or ignorable: continue reading.
    Continue,
    /// The stream ended normally: stop reading, with success.
    Finish,
    /// Fatal: stop reading and fail the session with this error.
    Fail(SttError),
}

/// The decision for one parsed message: `Connected` and
/// `Configuration` are informational, a `TurnInfo` is mapped into a
/// [`TranscriptionResult`] and delivered, and an `Error` fails the
/// session with the server-reported code and description.
pub fn message_action(m: ServerMessage) -> (a: FrameAction)
    ensures
        m is Connected ==> a is Continue,
        m is Configuration ==> a is Continue,
        m matches ServerMessage::Error { code, description, .. } ==> a == FrameAction::Fail(
            (SttError::Application { code, description }),
        ),
        m matches ServerMessage::TurnInfo {
            event,
            turn_index,
            transcript,
            words,
            ..
        } ==> a == FrameAction::Deliver(
            (TranscriptionResult { event, turn_index, transcript, words }),
        ),
{
    match m {
        ServerMessage::Connected { request_id: _, sequence_id: _ } => FrameAction::Continue,
        ServerMessage::Configuration => FrameAction::Continue,
        ServerMessage::Error { sequence_id: _, code, description, websocket_close_code: _ } => {
            FrameAction::Fail(SttError::Application { code, description })
        },
        ServerMessage::TurnInfo {
            request_id: _,
            sequence_id: _,
            event,
            turn_index,
            transcript,
            words,
        } => FrameAction::Deliver(TranscriptionResult { event, turn_index, transcript, words }),
    }
}

/// The decision for one inbound frame: text frames are parsed and
/// dispatched on the message, a close frame ends the loop normally, an
/// inbound binary frame is a protocol violation, a text frame that does
/// not decode is a fatal parse error, and other frame kinds are
/// ignored.
pub fn handle_frame(frame: InboundFrame) -> (a: FrameAction)
    ensures
        frame is Binary ==> a == FrameAction::Fail(SttError::ProtocolViolation),
        frame is Close ==> a is Finish,
        frame is Other ==> a is Continue,
        frame matches InboundFrame::Text(t) ==> ({
            let decoded = spec_server_message(t@);
            &&& (decoded is None ==> (a matches FrameAction::Fail(e) && e is Parse))
            &&& (decoded matches Some(m) ==> ({
                &&& (m is Connected ==> a is Continue)
                &&& (m is Configuration ==> a is Continue)
                &&& (m matches ServerMessageView::Error { code, description, .. } ==> (a matches
                FrameAction::Fail(e) && (e matches SttError::Application {
                    code: ecode,
                    description: edescription,
                } && ecode@ == code && edescription@ == description)))
                &&& (m matches ServerMessageView::TurnInfo {
                    event,
                    turn_index,
                    transcript,
                    words,
                    ..
                } ==> (a matches FrameAction::Deliver(res) && res.event@ == event
                    && res.turn_index == turn_index && res.transcript@ == transcript
                    && string_seq_views(res.words@) == words))
            }))
        }),
        frame is Text ==> !(a is Finish),
{
    match frame {
        InboundFrame::Text(t) => {
            match parse_server_message(t.as_str()) {
                Ok(m) => message_action(m),
                Err(e) => FrameAction::Fail(e),
            }
        },
        InboundFrame::Binary(_) => FrameAction::Fail(SttError::ProtocolViolation),
        InboundFrame::Close => FrameAction::Finish,
        InboundFrame::Other => FrameAction::Continue,
    }
}

// ---------------------------------------------------------------------
// The sender's decisions and the session outcome.
// ---------------------------------------------------------------------

/// What the sender does next.
#[derive(Debug, Clone, PartialEq, Eq)]
pub enum SenderAction {
    /// Forward this chunk as one binary frame.
    SendAudio(Vec<u8>),
    /// The queue is closed: send the end-of-audio control frame, then
    /// stop without closing the connection (the server closes after
    /// flushing its final results).
    SendCloseStream,
}

/// The decision for the next item taken from the audio queue.
pub fn sender_step(next_chunk: Option<Vec<u8>>) -> (a: SenderAction)
    ensures
        next_chunk matches Some(c) ==> a == SenderAction::SendAudio(c),
        next_chunk is None ==> a is SendCloseStream,
{
    match next_chunk {
        Some(c) => SenderAction::SendAudio(c),
        None => SenderAction::SendCloseStream,
    }
}

/// Joins the outcomes of the sender and receiver halves once both have
/// finished: the session succeeds only when both halves did; a failure
/// of either half is the session's failure, the sender's first.
pub fn session_outcome(send: Result<(), SttError>, recv: Result<(), SttError>) -> (r: Result<
    (),
    SttError,
>)
    ensures
        send matches Err(e) ==> r == Err::<(), SttError>(e),
        send is Ok ==> (recv matches Err(e) ==> r == Err::<(), SttError>(e)),
        send is Ok && recv is Ok ==> r is Ok,
{
    match send {
        Err(e) => Err(e),
        Ok(_) => match recv {
            Err(e) => Err(e),
            Ok(_) => Ok(()),
        },
    }
}

// ---------------------------------------------------------------------
// The session state machine.
// ---------------------------------------------------------------------

/// The lifecycle of one session.
#[derive(Debug, Clone, PartialEq, Eq)]
pub enum SessionState {
    /// The connection is being established.
    Connecting,
    /// Both halves are running concurrently.
    Active,
    /// One half finished; the other is still winding down.
    Closing,
    /// Both halves finished without error.
    Closed,
    /// A fatal error.  Terminal: no retry is attempted inside the
    /// client.
    Failed(SttError),
}

/// An observable step of a session.
#[derive(Debug, Clone, PartialEq, Eq)]
pub enum SessionEvent {
    /// The connection was established.
    Established,
    /// One of the two halves finished cleanly.
    SideFinished,
    /// Anything fatal: a connect, send, receive, parse or server
    /// error.
    SideFailed(SttError),
}

/// The transition function of the session state machine:
/// `Connecting -> Active -> Closing -> Closed`, with `Failed` reachable
/// from every non-terminal state and terminal.  An event that does not
/// apply to the current state leaves it unchanged.
pub open spec fn spec_session_step(state: SessionState, event: SessionEvent) -> SessionState {
    match state {
        SessionState::Failed(e) => SessionState::Failed(e),
        _ => match event {
            SessionEvent::SideFailed(e) => SessionState::Failed(e),
            SessionEvent::Established => if state is Connecting {
                SessionState::Active
            } else {
                state
            },
            SessionEvent::SideFinished => if state is Active {
                SessionState::Closing
            } else if state is Closing {
                SessionState::Closed
            } else {
                state
            },
        },
    }
}

/// Executes one transition of the session state machine.
pub fn session_step(state: SessionState, event: SessionEvent) -> (next: SessionState)
    ensures
        next == spec_session_step(state, event),
{
    match state {
        SessionState::Failed(e) => SessionState::Failed(e),
        _ => match event {
            SessionEvent::SideFailed(e) => SessionState::Failed(e),
            SessionEvent::Established => if matches!(state, SessionState::Connecting) {
                SessionState::Active
            } else {
                state
            },
            SessionEvent::SideFinished => if matches!(state, SessionState::Active) {
                SessionState::Closing
            } else if matches!(state, SessionState::Closing) {
                SessionState::Closed
            } else {
                state
            },
        },
    }
}

/// A failed session stays failed: no event leaves the `Failed` state.
pub proof fn lemma_failed_is_terminal(e: SttError, event: SessionEvent)
    ensures
        spec_session_step(SessionState::Failed(e), event) == SessionState::Failed(e),
{
}

// ---------------------------------------------------------------------
// The client.
// ---------------------------------------------------------------------

/// One streaming speech-to-text client: a base URL and the sample rate
/// of the audio it will send.
pub struct SttClient {
    url: String,
    sample_rate: u32,
}

impl SttClient {
    /// The configured base URL.
    pub closed spec fn spec_url(&self) -> Seq<char> {
        self.url@
    }

    /// The configured sample rate.
    pub closed spec fn spec_sample_rate(&self) -> u32 {
        self.sample_rate
    }

    pub fn new(url: &str, sample_rate: u32) -> (r: Self)
        ensures
            r.spec_url() == url@,
            r.spec_sample_rate() == sample_rate,
    {
        SttClient { url: url.to_owned(), sample_rate }
    }

    pub fn url(&self) -> (r: &str)
        ensures
            r@ == self.spec_url(),
    {
        self.url.as_str()
    }

    pub fn sample_rate(&self) -> (r: u32)
        ensures
            r == self.spec_sample_rate(),
    {
        self.sample_rate
    }

    /// The fully resolved connection URL with query parameters.
    pub fn request_url(&self) -> (r: String)
        ensures
            r@ == spec_request_url(self.spec_url(), self.spec_sample_rate()),
    {
        let mut out = self.url.as_str().to_owned();
        out.append("?model=flux-general-en&sample_rate=");
        push_decimal(&mut out, self.sample_rate);
        out.append("&encoding=linear16");
        proof {
            assert(out@ =~= spec_request_url(self.spec_url(), self.spec_sample_rate()));
        }
        out
    }
}

// ---------------------------------------------------------------------
// Audio chunking.
// ---------------------------------------------------------------------

/// Accumulates PCM16LE bytes and slices them into chunks of exactly
/// `chunk_size` bytes; a partial remainder is retained for the next
/// call, and no chunk is ever padded.
pub struct AudioBuffer {
    buffer: Vec<u8>,
    chunk_size: usize,
}

impl AudioBuffer {
    /// The bytes accumulated and not yet returned in a chunk.
    pub closed spec fn bytes(&self) -> Seq<u8> {
        self.buffer@
    }

    /// The configured chunk size in bytes.
    pub closed spec fn spec_chunk_size(&self) -> int {
        self.chunk_size as int
    }

    /// Well-formedness: the chunk size is positive.  `new` establishes
    /// it and every method preserves it.
    pub closed spec fn well_formed(&self) -> bool {
        self.chunk_size >= 1
    }

    /// A chunker for 16-bit mono PCM at `sample_rate` with chunks of
    /// `chunk_duration_ms` milliseconds:
    /// `chunk_size = sample_rate * chunk_duration_ms / 1000 * 2` bytes.
    pub fn new(sample_rate: u32, chunk_duration_ms: u32) -> (r: Self)
        requires
            sample_rate * chunk_duration_ms <= u32::MAX,
            sample_rate * chunk_duration_ms >= 1000,
        ensures
            r.well_formed(),
            r.spec_chunk_size() == sample_rate * chunk_duration_ms / 1000 * 2,
            r.bytes() == Seq::<u8>::empty(),
    {
        let chunk_size = (sample_rate * chunk_duration_ms / 1000 * 2) as usize;
        AudioBuffer { buffer: Vec::new(), chunk_size }
    }

    /// Appends `data` to the backlog and returns every complete chunk,
    /// in arrival order; the remainder stays buffered.
    pub fn add_pcm_bytes(&mut self, data: &[u8]) -> (chunks: Vec<Vec<u8>>)
        requires
            old(self).well_formed(),
        ensures
            final(self).well_formed(),
            ({
                let total = old(self).bytes() + data@;
                let cs = old(self).spec_chunk_size();
                let n = total.len() as int / cs;
                &&& final(self).spec_chunk_size() == cs
                &&& chunks@.len() == n
                &&& forall|i: int|
                    0 <= i < n ==> #[trigger] chunks@[i]@ == total.subrange(i * cs, (i + 1) * cs)
                &&& final(self).bytes() == total.skip(n * cs)
            }),
    {
        let ghost prior = self.buffer@;
        let ghost total = self.buffer@ + data@;
        let ghost cs = self.chunk_size as int;

        // Append the new bytes to the backlog.
        let mut k: usize = 0;
        while k < data.len()
            invariant
                0 <= k <= data@.len(),
                self.buffer@ == prior + data@.take(k as int),
                self.chunk_size == cs,
            decreases data@.len() - k,
        {
            self.buffer.push(data[k]);
            proof {
                assert(prior + data@.take(k as int + 1) =~= (prior + data@.take(k as int)).push(
                    data@[k as int],
                ));
            }
            k = k + 1;
        }
        proof {
            assert(self.buffer@ =~= total);
        }

        // Extract complete chunks.
        let mut chunks: Vec<Vec<u8>> = Vec::new();
        let mut start: usize = 0;
        proof {
            assert(chunks@.len() * cs == 0) by (nonlinear_arith)
                requires chunks@.len() == 0;
        }
        while self.buffer.len() - start >= self.chunk_size
            invariant
                self.chunk_size == cs,
                cs >= 1,
                self.buffer@ == total,
                0 <= start <= total.len(),
                start == chunks@.len() * cs,
                forall|i: int|
                    0 <= i < chunks@.len() ==> #[trigger] chunks@[i]@ == total.subrange(
                        i * cs,
                        (i + 1) * cs,
                    ),
            decreases total.len() - start,
        {
            let mut chunk: Vec<u8> = Vec::new();
            let mut j: usize = 0;
            while j < self.chunk_size
                invariant
                    self.chunk_size == cs,
                    self.buffer@ == total,
                    total.len() <= usize::MAX,
                    0 <= j <= cs,
                    start + cs <= total.len(),
                    chunk@ == total.subrange(start as int, start + j),
                decreases cs - j,
            {
                let b = self.buffer[start + j];
                chunk.push(b);
                proof {
                    assert(total.subrange(start as int, start + j + 1) =~= total.subrange(
                        start as int,
                        start + j,
                    ).push(total[start + j]));
                }
                j = j + 1;
            }
            let ghost c = chunks@.len() as int;
            chunks.push(chunk);
            proof {
                assert((c + 1) * cs == c * cs + cs) by (nonlinear_arith);
                assert(chunk@ == total.subrange(c * cs, (c + 1) * cs));
            }
            start = start + self.chunk_size;
        }

        // Retain the partial remainder for the next call.
        let mut rest: Vec<u8> = Vec::new();
        let mut k: usize = start;
        while k < self.buffer.len()
            invariant
                self.buffer@ == total,
                start <= k <= total.len(),
                rest@ == total.subrange(start as int, k as int),
            decreases total.len() - k,
        {
            let b = self.buffer[k];
            rest.push(b);
            proof {
                assert(total.subrange(start as int, k as int + 1) =~= total.subrange(
                    start as int,
                    k as int,
                ).push(total[k as int]));
            }
            k = k + 1;
        }
        self.buffer = rest;

        proof {
            let n = chunks@.len() as int;
            assert(total.len() - start < cs);
            lemma_fundamental_div_mod_converse(
                total.len() as int,
                cs,
                n,
                total.len() - start,
            );
            assert(self.buffer@ =~= total.skip(n * cs));
        }
        chunks
    }

    /// Hands back whatever partial data is buffered, or nothing when the
    /// backlog is empty.
    pub fn flush(&mut self) -> (r: Option<Vec<u8>>)
        ensures
            final(self).well_formed() == old(self).well_formed(),
            final(self).spec_chunk_size() == old(self).spec_chunk_size(),
            r is Some <==> old(self).bytes().len() > 0,
            r matches Some(v) ==> v@ == old(self).bytes() && final(self).bytes()
                == Seq::<u8>::empty(),
            r is None ==> final(self).bytes() == old(self).bytes(),
    {
        if self.buffer.len() > 0 {
            let mut out: Vec<u8> = Vec::new();
            core::mem::swap(&mut self.buffer, &mut out);
            Some(out)
        } else {
            None
        }
    }
}

} // verus!
