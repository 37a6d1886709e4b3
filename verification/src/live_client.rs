//! The read-only League Live Client Data API: the fixed local endpoint, the
//! parsing of the active-player payload, and the classification of failures.
use vstd::prelude::*;
use vstd::string::*;
use crate::text::{
    debug_quoted, debug_str, decimal, decimal_string, is_trim_of, owned, push_str, squeeze,
    squeeze_whitespace, trim,
};

verus! {

/// Characters of the response body kept in a failure preview.
pub const RESPONSE_PREVIEW_CHAR_LIMIT: usize = 120;

/// Request timeout of the Live Client client.
pub const DEFAULT_TIMEOUT_MS: u64 = 1500;

#[derive(Debug, Clone, PartialEq, Eq)]
pub struct ActivePlayerSnapshot {
    pub champion_name: String,
    pub level: u8,
}

/// The active player as resolved for the runtime: who plays, which champion at
/// which level, the game mode and where the data came from.
#[derive(Debug, Clone, PartialEq, Eq)]
pub struct ResolvedPlayerSnapshot {
    pub active_player_name: String,
    pub champion_name: String,
    pub level: u8,
    pub game_mode: Option<String>,
    pub source_endpoint: String,
    pub fallback_used: bool,
}

#[derive(Debug, Clone, PartialEq, Eq)]
pub enum LiveClientError {
    Http {
        url: String,
        status_code: Option<u16>,
        response_body_len: Option<usize>,
        response_body_preview: Option<String>,
        reason: String,
    },
    InvalidPayload {
        url: String,
        response_body_len: usize,
        response_body_preview: String,
        reason: String,
    },
}

#[derive(Debug, Clone)]
pub struct LiveClientDataApi {
    pub timeout_ms: u64,
}

/// The kind of one member of a JSON object, as far as the parser reads it.
#[derive(Debug, Clone, PartialEq, Eq)]
pub enum JsonField {
    Null,
    Bool,
    /// A number, with its value when it is a non-negative integer that fits in `u64`.
    Number(Option<u64>),
    Text(String),
    Array,
    Object,
}

/// What a JSON document holds under one key of its root.
#[derive(Debug, Clone, PartialEq, Eq)]
pub enum JsonLookup {
    /// The document is not valid JSON; the parser's message.
    Invalid(String),
    NotObject,
    Missing,
    Present(JsonField),
}

pub enum JsonFieldView {
    Null,
    Bool,
    Number(Option<u64>),
    Text(Seq<char>),
    Array,
    Object,
}

pub enum JsonLookupView {
    Invalid(Seq<char>),
    NotObject,
    Missing,
    Present(JsonFieldView),
}

/// A JSON document as the parser sees it.
pub enum JsonRoot {
    Invalid(Seq<char>),
    NotObject,
    Object(Map<Seq<char>, JsonFieldView>),
}

impl View for JsonField {
    type V = JsonFieldView;

    open spec fn view(&self) -> JsonFieldView {
        match self {
            JsonField::Null => JsonFieldView::Null,
            JsonField::Bool => JsonFieldView::Bool,
            JsonField::Number(n) => JsonFieldView::Number(*n),
            JsonField::Text(s) => JsonFieldView::Text(s@),
            JsonField::Array => JsonFieldView::Array,
            JsonField::Object => JsonFieldView::Object,
        }
    }
}

impl View for JsonLookup {
    type V = JsonLookupView;

    open spec fn view(&self) -> JsonLookupView {
        match self {
            JsonLookup::Invalid(e) => JsonLookupView::Invalid(e@),
            JsonLookup::NotObject => JsonLookupView::NotObject,
            JsonLookup::Missing => JsonLookupView::Missing,
            JsonLookup::Present(f) => JsonLookupView::Present(f@),
        }
    }
}

/// What `serde_json::from_str::<serde_json::Value>` makes of `payload`.
pub uninterp spec fn json_root(payload: Seq<char>) -> JsonRoot;

/// The lookup of `key` in a parsed document.
pub open spec fn lookup_in(root: JsonRoot, key: Seq<char>) -> JsonLookupView {
    match root {
        JsonRoot::Invalid(e) => JsonLookupView::Invalid(e),
        JsonRoot::NotObject => JsonLookupView::NotObject,
        JsonRoot::Object(m) => if m.contains_key(key) {
            JsonLookupView::Present(m[key])
        } else {
            JsonLookupView::Missing
        },
    }
}

/// Parses `payload` with `serde_json::from_str` into a `serde_json::Value` and
/// reads the member `key` of its root object.
#[verifier::external_body]
fn json_root_field(payload: &str, key: &str) -> (r: JsonLookup)
    ensures
        r@ == lookup_in(json_root(payload@), key@),
{
    let value: serde_json::Value = match serde_json::from_str(payload) {
        Ok(value) => value,
        Err(error) => return JsonLookup::Invalid(error.to_string()),
    };
    let Some(object) = value.as_object() else { return JsonLookup::NotObject };
    JsonLookup::Present(match object.get(key) {
        None => return JsonLookup::Missing,
        Some(serde_json::Value::Null) => JsonField::Null,
        Some(serde_json::Value::Bool(_)) => JsonField::Bool,
        Some(serde_json::Value::Number(n)) => JsonField::Number(n.as_u64()),
        Some(serde_json::Value::String(s)) => JsonField::Text(s.clone()),
        Some(serde_json::Value::Array(_)) => JsonField::Array,
        Some(serde_json::Value::Object(_)) => JsonField::Object,
    })
}

pub enum LiveClientErrorView {
    Http {
        url: Seq<char>,
        status_code: Option<u16>,
        response_body_len: Option<usize>,
        response_body_preview: Option<Seq<char>>,
        reason: Seq<char>,
    },
    InvalidPayload {
        url: Seq<char>,
        response_body_len: usize,
        response_body_preview: Seq<char>,
        reason: Seq<char>,
    },
}

impl View for LiveClientError {
    type V = LiveClientErrorView;

    open spec fn view(&self) -> LiveClientErrorView {
        match self {
            LiveClientError::Http { url, status_code, response_body_len, response_body_preview, reason } =>
                LiveClientErrorView::Http {
                url: url@,
                status_code: *status_code,
                response_body_len: *response_body_len,
                response_body_preview: match response_body_preview {
                    Some(p) => Some(p@),
                    None => None,
                },
                reason: reason@,
            },
            LiveClientError::InvalidPayload { url, response_body_len, response_body_preview, reason } =>
                LiveClientErrorView::InvalidPayload {
                url: url@,
                response_body_len: *response_body_len,
                response_body_preview: response_body_preview@,
                reason: reason@,
            },
        }
    }
}

/// The fixed local endpoint of the active player.
pub open spec fn active_player_url_text() -> Seq<char> {
    "https://127.0.0.1:2999/liveclientdata/activeplayer"@
}

/// The preview of a response body: its words joined by single spaces, cut to
/// the first 120 characters, with "..." when something was cut.
pub open spec fn preview_of(payload: Seq<char>) -> Seq<char> {
    let normalized = squeeze_whitespace(payload);
    if normalized.len() > RESPONSE_PREVIEW_CHAR_LIMIT {
        normalized.take(RESPONSE_PREVIEW_CHAR_LIMIT as int) + "..."@
    } else {
        normalized
    }
}

/// The preview of a response body kept in failure reports.
pub fn summarize_payload(payload: &str) -> (r: String)
    ensures
        r@ == preview_of(payload@),
{
    let normalized = squeeze(payload);
    let count = normalized.as_str().unicode_len();
    if count > RESPONSE_PREVIEW_CHAR_LIMIT {
        let cut = normalized.as_str().substring_char(0, RESPONSE_PREVIEW_CHAR_LIMIT);
        let mut preview = owned(cut);
        push_str(&mut preview, "...");
        preview
    } else {
        normalized
    }
}

/// The error for a payload that was received but is not usable.
pub open spec fn invalid_payload_error(url: Seq<char>, payload: &str, reason: Seq<char>) -> LiveClientErrorView {
    LiveClientErrorView::InvalidPayload {
        url: url,
        response_body_len: payload.spec_bytes().len() as usize,
        response_body_preview: preview_of(payload@),
        reason: reason,
    }
}

/// The name of a JSON value's type in failure reasons.
pub open spec fn json_type_name(f: JsonFieldView) -> Seq<char> {
    match f {
        JsonFieldView::Null => "null"@,
        JsonFieldView::Bool => "bool"@,
        JsonFieldView::Number(_) => "number"@,
        JsonFieldView::Text(_) => "string"@,
        JsonFieldView::Array => "array"@,
        JsonFieldView::Object => "object"@,
    }
}

/// The champion name of the payload, or the reason it is unusable.
pub open spec fn champion_field(lookup: JsonLookupView) -> Result<Seq<char>, Seq<char>> {
    match lookup {
        JsonLookupView::Invalid(e) => Err("JSON 解析失败: "@ + e),
        JsonLookupView::NotObject => Err("根节点不是 JSON 对象"@),
        JsonLookupView::Missing => Err("缺少 championName 字段"@),
        JsonLookupView::Present(JsonFieldView::Text(s)) => {
            let t = choose|t: Seq<char>| is_trim_of(t, s);
            if t.len() > 0 {
                Ok(t)
            } else {
                Err("championName 为空字符串"@)
            }
        },
        JsonLookupView::Present(JsonFieldView::Null) => Err("championName 为空值"@),
        JsonLookupView::Present(other) => Err("championName 字段类型错误: "@ + json_type_name(other)),
    }
}

/// The level of the payload, or the reason it is unusable.
pub open spec fn level_field(lookup: JsonLookupView) -> Result<u8, Seq<char>> {
    match lookup {
        JsonLookupView::Invalid(e) => Err("JSON 解析失败: "@ + e),
        JsonLookupView::NotObject => Err("根节点不是 JSON 对象"@),
        JsonLookupView::Missing => Err("缺少 level 字段"@),
        JsonLookupView::Present(JsonFieldView::Number(Some(n))) => if n <= 255 {
            Ok(n as u8)
        } else {
            Err("level 超出 u8 范围: "@ + decimal(n as nat))
        },
        JsonLookupView::Present(JsonFieldView::Number(None)) => Err("level 不是非负整数"@),
        JsonLookupView::Present(JsonFieldView::Null) => Err("level 为空值"@),
        JsonLookupView::Present(other) => Err("level 字段类型错误: "@ + json_type_name(other)),
    }
}

/// What the parser makes of a payload received from `url`: the trimmed
/// champion name and the level, or the first reason the payload is unusable.
pub open spec fn parse_result(url: Seq<char>, payload: &str) -> Result<(Seq<char>, u8), LiveClientErrorView> {
    let root = json_root(payload@);
    match champion_field(lookup_in(root, "championName"@)) {
        Err(reason) => Err(invalid_payload_error(url, payload, reason)),
        Ok(name) => match level_field(lookup_in(root, "level"@)) {
            Err(reason) => Err(invalid_payload_error(url, payload, reason)),
            Ok(level) => Ok((name, level)),
        },
    }
}

pub open spec fn snapshot_result_view(r: Result<ActivePlayerSnapshot, LiveClientError>) -> Result<(Seq<char>, u8), LiveClientErrorView> {
    match r {
        Ok(s) => Ok((s.champion_name@, s.level)),
        Err(e) => Err(e@),
    }
}

fn invalid_payload(url: &str, payload: &str, reason: String) -> (e: LiveClientError)
    ensures
        e@ == invalid_payload_error(url@, payload, reason@),
{
    LiveClientError::InvalidPayload {
        url: owned(url),
        response_body_len: payload.len(),
        response_body_preview: summarize_payload(payload),
        reason: reason,
    }
}

fn type_name_text(f: &JsonField) -> (r: &'static str)
    ensures
        r@ == json_type_name(f@),
{
    match f {
        JsonField::Null => "null",
        JsonField::Bool => "bool",
        JsonField::Number(_) => "number",
        JsonField::Text(_) => "string",
        JsonField::Array => "array",
        JsonField::Object => "object",
    }
}

fn concat_reason(prefix: &str, detail: &str) -> (r: String)
    ensures
        r@ == prefix@ + detail@,
{
    let mut r = owned(prefix);
    push_str(&mut r, detail);
    r
}

/// The champion name found under `championName` (trimmed), or the reason it
/// is unusable.
pub fn read_champion(lookup: JsonLookup) -> (r: Result<String, String>)
    ensures
        match r {
            Ok(s) => champion_field(lookup@) == Ok::<Seq<char>, Seq<char>>(s@),
            Err(e) => champion_field(lookup@) == Err::<Seq<char>, Seq<char>>(e@),
        },
{
    match lookup {
        JsonLookup::Invalid(e) => Err(concat_reason("JSON 解析失败: ", e.as_str())),
        JsonLookup::NotObject => Err(owned("根节点不是 JSON 对象")),
        JsonLookup::Missing => Err(owned("缺少 championName 字段")),
        JsonLookup::Present(JsonField::Text(s)) => {
            let t = trim(s.as_str());
            proof {
                crate::text::lemma_trim_unique(s@);
            }
            if t.unicode_len() == 0 {
                Err(owned("championName 为空字符串"))
            } else {
                Ok(owned(t))
            }
        },
        JsonLookup::Present(JsonField::Null) => Err(owned("championName 为空值")),
        JsonLookup::Present(other) => Err(concat_reason("championName 字段类型错误: ", type_name_text(&other))),
    }
}

/// The level found under `level`, or the reason it is unusable.
pub fn read_level(lookup: JsonLookup) -> (r: Result<u8, String>)
    ensures
        match r {
            Ok(n) => level_field(lookup@) == Ok::<u8, Seq<char>>(n),
            Err(e) => level_field(lookup@) == Err::<u8, Seq<char>>(e@),
        },
{
    match lookup {
        JsonLookup::Invalid(e) => Err(concat_reason("JSON 解析失败: ", e.as_str())),
        JsonLookup::NotObject => Err(owned("根节点不是 JSON 对象")),
        JsonLookup::Missing => Err(owned("缺少 level 字段")),
        JsonLookup::Present(JsonField::Number(Some(n))) => {
            if n <= 255 {
                Ok(n as u8)
            } else {
                let digits = decimal_string(n as u128);
                Err(concat_reason("level 超出 u8 范围: ", digits.as_str()))
            }
        },
        JsonLookup::Present(JsonField::Number(None)) => Err(owned("level 不是非负整数")),
        JsonLookup::Present(JsonField::Null) => Err(owned("level 为空值")),
        JsonLookup::Present(other) => Err(concat_reason("level 字段类型错误: ", type_name_text(&other))),
    }
}

fn parse_active_player_from(url: &str, payload: &str) -> (r: Result<ActivePlayerSnapshot, LiveClientError>)
    ensures
        snapshot_result_view(r) == parse_result(url@, payload),
{
    let champion = match read_champion(json_root_field(payload, "championName")) {
        Ok(name) => name,
        Err(reason) => return Err(invalid_payload(url, payload, reason)),
    };
    let level = match read_level(json_root_field(payload, "level")) {
        Ok(level) => level,
        Err(reason) => return Err(invalid_payload(url, payload, reason)),
    };
    Ok(ActivePlayerSnapshot { champion_name: champion, level: level })
}

/// Parses an active-player payload of the fixed endpoint: the trimmed champion
/// name and the level, or the first reason the payload is unusable.
pub fn parse_active_player(payload: &str) -> (r: Result<ActivePlayerSnapshot, LiveClientError>)
    ensures
        snapshot_result_view(r) == parse_result(active_player_url_text(), payload),
{
    let url = "https://127.0.0.1:2999/liveclientdata/activeplayer";
    parse_active_player_from(url, payload)
}

/// Whether an HTTP status code is a success (2xx).
pub open spec fn is_success_status(status: u16) -> bool {
    200 <= status <= 299
}

/// What a completed request to the endpoint yields: a failure for a non-2xx
/// status (with `status_text`, the status's display text), the parsed payload otherwise.
pub open spec fn response_result(status: u16, status_text: Seq<char>, body: &str) -> Result<(Seq<char>, u8), LiveClientErrorView> {
    if is_success_status(status) {
        parse_result(active_player_url_text(), body)
    } else {
        Err(LiveClientErrorView::Http {
            url: active_player_url_text(),
            status_code: Some(status),
            response_body_len: Some(body.spec_bytes().len() as usize),
            response_body_preview: Some(preview_of(body@)),
            reason: "HTTP 状态码异常: "@ + status_text,
        })
    }
}

/// Interprets the response of the active-player endpoint.
pub fn interpret_active_player_response(status: u16, status_text: &str, body: &str) -> (r: Result<ActivePlayerSnapshot, LiveClientError>)
    ensures
        snapshot_result_view(r) == response_result(status, status_text@, body),
{
    if 200 <= status && status <= 299 {
        parse_active_player(body)
    } else {
        Err(LiveClientError::Http {
            url: owned("https://127.0.0.1:2999/liveclientdata/activeplayer"),
            status_code: Some(status),
            response_body_len: Some(body.len()),
            response_body_preview: Some(summarize_payload(body)),
            reason: concat_reason("HTTP 状态码异常: ", status_text),
        })
    }
}

/// The failure of a request that produced no usable response; `status_code`
/// is known once the response head arrived.
pub fn request_failure(status_code: Option<u16>, reason: String) -> (e: LiveClientError)
    ensures
        e@ == (LiveClientErrorView::Http {
            url: active_player_url_text(),
            status_code: status_code,
            response_body_len: None,
            response_body_preview: None,
            reason: reason@,
        }),
{
    LiveClientError::Http {
        url: owned("https://127.0.0.1:2999/liveclientdata/activeplayer"),
        status_code: status_code,
        response_body_len: None,
        response_body_preview: None,
        reason: reason,
    }
}

impl LiveClientDataApi {
    /// A client with the default timeout.
    pub fn new() -> (r: Self)
        ensures
            r.timeout_ms == DEFAULT_TIMEOUT_MS,
    {
        LiveClientDataApi { timeout_ms: DEFAULT_TIMEOUT_MS }
    }

    /// The fixed local endpoint of the active player.
    pub fn active_player_url(&self) -> (r: &'static str)
        ensures
            r@ == active_player_url_text(),
    {
        "https://127.0.0.1:2999/liveclientdata/activeplayer"
    }
}

pub open spec fn error_code_text(e: LiveClientErrorView) -> Seq<char> {
    match e {
        LiveClientErrorView::Http { .. } => "HEX-LIVE-CLIENT-UNAVAILABLE"@,
        LiveClientErrorView::InvalidPayload { .. } => "HEX-LIVE-CLIENT-PAYLOAD"@,
    }
}

pub open spec fn pause_reason_text(e: LiveClientErrorView) -> Seq<char> {
    match e {
        LiveClientErrorView::Http { .. } => "LiveClientUnavailable"@,
        LiveClientErrorView::InvalidPayload { .. } => "InvalidLiveClientData"@,
    }
}

pub open spec fn result_category_text(e: LiveClientErrorView) -> Seq<char> {
    match e {
        LiveClientErrorView::Http { .. } => "http_error"@,
        LiveClientErrorView::InvalidPayload { .. } => "invalid_payload"@,
    }
}

/// `{:?}` of an optional number: `None` or `Some(n)`.
pub open spec fn debug_option_number(n: Option<nat>) -> Seq<char> {
    match n {
        Some(n) => "Some("@ + decimal(n) + ")"@,
        None => "None"@,
    }
}

/// `{:?}` of an optional string: `None` or `Some("...")`.
pub open spec fn debug_option_text(s: Option<Seq<char>>) -> Seq<char> {
    match s {
        Some(s) => "Some("@ + debug_quoted(s) + ")"@,
        None => "None"@,
    }
}

/// The human-readable description of a Live Client failure.
pub open spec fn error_message(e: LiveClientErrorView) -> Seq<char> {
    match e {
        LiveClientErrorView::Http { url, status_code, response_body_len, response_body_preview, reason } =>
            "live client 请求失败: url="@ + url + ", status_code="@ + debug_option_number(
            match status_code {
                Some(c) => Some(c as nat),
                None => None,
            },
        ) + ", response_body_len="@ + debug_option_number(
            match response_body_len {
                Some(c) => Some(c as nat),
                None => None,
            },
        ) + ", response_body_preview="@ + debug_option_text(response_body_preview) + ", reason="@ + reason,
        LiveClientErrorView::InvalidPayload { url, response_body_len, response_body_preview, reason } =>
            "live client 响应无效: url="@ + url + ", response_body_len="@ + decimal(response_body_len as nat)
            + ", response_body_preview="@ + debug_quoted(response_body_preview) + ", reason="@ + reason,
    }
}

fn push_debug_option_number(out: &mut String, n: Option<u128>)
    ensures
        final(out)@ == old(out)@ + debug_option_number(
            match n {
                Some(v) => Some(v as nat),
                None => None,
            },
        ),
{
    match n {
        Some(v) => {
            push_str(out, "Some(");
            let digits = decimal_string(v);
            push_str(out, digits.as_str());
            push_str(out, ")");
        },
        None => push_str(out, "None"),
    }
    assert(final(out)@ =~= old(out)@ + debug_option_number(
        match n {
            Some(v) => Some(v as nat),
            None => None,
        },
    ));
}

impl LiveClientError {
    /// The diagnostic error code.
    pub fn error_code(&self) -> (r: &'static str)
        ensures
            r@ == error_code_text(self@),
    {
        match self {
            LiveClientError::Http { .. } => "HEX-LIVE-CLIENT-UNAVAILABLE",
            LiveClientError::InvalidPayload { .. } => "HEX-LIVE-CLIENT-PAYLOAD",
        }
    }

    /// The name of the pause reason this failure leads to.
    pub fn pause_reason(&self) -> (r: &'static str)
        ensures
            r@ == pause_reason_text(self@),
    {
        match self {
            LiveClientError::Http { .. } => "LiveClientUnavailable",
            LiveClientError::InvalidPayload { .. } => "InvalidLiveClientData",
        }
    }

    /// The category under which the failure is logged.
    pub fn result_category(&self) -> (r: &'static str)
        ensures
            r@ == result_category_text(self@),
    {
        match self {
            LiveClientError::Http { .. } => "http_error",
            LiveClientError::InvalidPayload { .. } => "invalid_payload",
        }
    }

    /// The human-readable description of the failure.
    pub fn message(&self) -> (r: String)
        ensures
            r@ == error_message(self@),
    {
        let mut out = String::new();
        match self {
            LiveClientError::Http { url, status_code, response_body_len, response_body_preview, reason } => {
                push_str(&mut out, "live client 请求失败: url=");
                push_str(&mut out, url.as_str());
                push_str(&mut out, ", status_code=");
                push_debug_option_number(
                    &mut out,
                    match status_code {
                        Some(c) => Some(*c as u128),
                        None => None,
                    },
                );
                push_str(&mut out, ", response_body_len=");
                push_debug_option_number(
                    &mut out,
                    match response_body_len {
                        Some(c) => Some(*c as u128),
                        None => None,
                    },
                );
                push_str(&mut out, ", response_body_preview=");
                match response_body_preview {
                    Some(p) => {
                        push_str(&mut out, "Some(");
                        let quoted = debug_str(p.as_str());
                        push_str(&mut out, quoted.as_str());
                        push_str(&mut out, ")");
                    },
                    None => push_str(&mut out, "None"),
                }
                push_str(&mut out, ", reason=");
                push_str(&mut out, reason.as_str());
            },
            LiveClientError::InvalidPayload { url, response_body_len, response_body_preview, reason } => {
                push_str(&mut out, "live client 响应无效: url=");
                push_str(&mut out, url.as_str());
                push_str(&mut out, ", response_body_len=");
                let digits = decimal_string(*response_body_len as u128);
                push_str(&mut out, digits.as_str());
                push_str(&mut out, ", response_body_preview=");
                let quoted = debug_str(response_body_preview.as_str());
                push_str(&mut out, quoted.as_str());
                push_str(&mut out, ", reason=");
                push_str(&mut out, reason.as_str());
            },
        }
        assert(out@ =~= error_message(self@));
        out
    }
}

} // verus!
