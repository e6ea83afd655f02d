//! Model providers: endpoint configuration, request headers, and reading
//! text out of provider responses and stream events.

use vstd::prelude::*;
use crate::behavior::{clean_reply, spec_clean_reply};
use crate::json::{Json, as_bool, as_str, at_in, at_opt, get_in, get_opt, spec_get, text_opt};
use crate::text::{
    CharClass, chars_eq_str, chars_of, push_all, push_str_chars, string_of, strip_suffix_repeat,
    take_chars, trim, trim_ws,
};

verus! {

/// The wire protocol a model endpoint speaks.
#[derive(Clone, Copy, PartialEq, Eq, Structural, Debug)]
pub enum ProviderKind {
    OpenaiResponses,
    AnthropicMessages,
    OpenaiCompatible,
}

/// Where and how to reach a model.
#[derive(Clone, Debug)]
pub struct ModelEndpointConfig {
    pub provider: ProviderKind,
    pub base_url: String,
    pub model: String,
    pub credential_ref: Option<String>,
    pub max_output_tokens: u32,
}

impl Default for ModelEndpointConfig {
    fn default() -> (r: Self)
        ensures
            r.provider == ProviderKind::OpenaiResponses,
            r.base_url@ == "https://api.openai.com/v1"@,
            r.model@.len() == 0,
            r.credential_ref is None,
            r.max_output_tokens == 300,
    {
        ModelEndpointConfig {
            provider: ProviderKind::OpenaiResponses,
            base_url: String::from_str("https://api.openai.com/v1"),
            model: String::new(),
            credential_ref: None,
            max_output_tokens: 300,
        }
    }
}

impl ModelEndpointConfig {
    /// A field-by-field copy.
    pub fn duplicate(&self) -> (r: Self)
        ensures
            r == *self,
    {
        ModelEndpointConfig {
            provider: self.provider,
            base_url: self.base_url.clone(),
            model: self.model.clone(),
            credential_ref: crate::chat::copy_opt(&self.credential_ref),
            max_output_tokens: self.max_output_tokens,
        }
    }
}

/// A base URL as it is joined with an endpoint path: trimmed, trailing
/// slashes removed.
pub open spec fn clean_base(url: Seq<char>) -> Seq<char> {
    strip_suffix_repeat(trim(url), "/"@)
}

pub open spec fn endpoint_path(p: ProviderKind) -> Seq<char> {
    match p {
        ProviderKind::OpenaiResponses => "/responses"@,
        ProviderKind::AnthropicMessages => "/messages"@,
        ProviderKind::OpenaiCompatible => "/chat/completions"@,
    }
}

/// The request URL of an endpoint; refused while the address or the model
/// name is blank.
pub open spec fn spec_endpoint(config: ModelEndpointConfig) -> Option<Seq<char>> {
    let base = clean_base(config.base_url@);
    if base.len() == 0 || trim(config.model@).len() == 0 {
        None
    } else {
        Some(base + endpoint_path(config.provider))
    }
}

fn clean_base_exec(url: &str) -> (r: Vec<char>)
    ensures
        r@ == clean_base(url@),
{
    let c = chars_of(url);
    let t = trim_ws(&c);
    crate::json::strip_suffix_exec(&t, "/")
}

/// The URL requests to `config` go to. The API key is looked up separately,
/// after this succeeds.
pub fn normalized_endpoint(config: &ModelEndpointConfig) -> (r: Result<String, String>)
    ensures
        r is Ok <==> spec_endpoint(*config) is Some,
        r matches Ok(u) ==> spec_endpoint(*config) == Some(u@),
        r matches Err(e) ==> e@ == "请先填写模型地址和模型名称"@,
{
    let base = clean_base_exec(config.base_url.as_str());
    let mc = chars_of(config.model.as_str());
    let model = trim_ws(&mc);
    if base.len() == 0 || model.len() == 0 {
        return Err(String::from_str("请先填写模型地址和模型名称"));
    }
    let mut url = base;
    match config.provider {
        ProviderKind::OpenaiResponses => push_str_chars(&mut url, "/responses"),
        ProviderKind::AnthropicMessages => push_str_chars(&mut url, "/messages"),
        ProviderKind::OpenaiCompatible => push_str_chars(&mut url, "/chat/completions"),
    }
    Ok(string_of(&url))
}

pub open spec fn clamp_u32(v: u32, lo: u32, hi: u32) -> u32 {
    if v < lo { lo } else if v > hi { hi } else { v }
}

/// A configuration as it is saved: base URL and model trimmed, trailing
/// slashes dropped, output tokens within 1..=8192.
pub open spec fn endpoint_normalized(old: ModelEndpointConfig, new: ModelEndpointConfig) -> bool {
    &&& new.provider == old.provider
    &&& new.base_url@ == clean_base(old.base_url@)
    &&& new.model@ == trim(old.model@)
    &&& new.credential_ref == old.credential_ref
    &&& new.max_output_tokens == clamp_u32(old.max_output_tokens, 1, 8_192)
}

pub fn normalize_endpoint_config(config: ModelEndpointConfig) -> (r: ModelEndpointConfig)
    ensures
        endpoint_normalized(config, r),
{
    let base = clean_base_exec(config.base_url.as_str());
    let mc = chars_of(config.model.as_str());
    let model = trim_ws(&mc);
    let t = config.max_output_tokens;
    ModelEndpointConfig {
        provider: config.provider,
        base_url: string_of(&base),
        model: string_of(&model),
        credential_ref: config.credential_ref,
        max_output_tokens: if t < 1 { 1 } else if t > 8_192 { 8_192 } else { t },
    }
}

/// Normalizing a saved configuration again changes nothing.
pub proof fn law_endpoint_normalization_idempotent(a: ModelEndpointConfig, b: ModelEndpointConfig, c: ModelEndpointConfig)
    requires
        endpoint_normalized(a, b),
        endpoint_normalized(b, c),
    ensures
        c.provider == b.provider,
        c.model@ == b.model@,
        c.max_output_tokens == b.max_output_tokens,
        c.credential_ref == b.credential_ref,
{
    crate::text::lemma_trim_idempotent(a.model@);
}

/// The error a request fails with before it is sent, for a missing key:
/// OpenAI's own API and Anthropic both need one.
pub open spec fn spec_missing_key(config: ModelEndpointConfig, has_secret: bool) -> Option<Seq<char>> {
    let openai_host = "https://api.openai.com"@;
    if (config.provider == ProviderKind::OpenaiResponses || config.provider == ProviderKind::OpenaiCompatible)
        && config.base_url@.len() >= openai_host.len()
        && config.base_url@.take(openai_host.len() as int) == openai_host && !has_secret {
        Some("未配置 OpenAI API Key"@)
    } else if config.provider == ProviderKind::AnthropicMessages && !has_secret {
        Some("未配置 Anthropic API Key"@)
    } else {
        None
    }
}

pub fn missing_key_error(config: &ModelEndpointConfig, has_secret: bool) -> (r: Option<String>)
    ensures
        match r {
            Some(e) => Some(e@),
            None => None,
        } == spec_missing_key(*config, has_secret),
{
    let url = chars_of(config.base_url.as_str());
    let host = chars_of("https://api.openai.com");
    let openai = match config.provider {
        ProviderKind::OpenaiResponses | ProviderKind::OpenaiCompatible => true,
        ProviderKind::AnthropicMessages => false,
    };
    let on_host = host.len() <= url.len() && crate::text::occurs_at_exec(&url, &host, 0);
    proof {
        if host.len() <= url.len() {
            assert(url@.subrange(0, host.len() as int) =~= url@.take(host.len() as int));
        }
    }
    if openai && on_host && !has_secret {
        Some(String::from_str("未配置 OpenAI API Key"))
    } else if config.provider == ProviderKind::AnthropicMessages && !has_secret {
        Some(String::from_str("未配置 Anthropic API Key"))
    } else {
        None
    }
}

/// The headers of a streaming request: JSON body, event-stream replies,
/// and the provider's way of passing the key (Anthropic also names its API
/// version).
pub open spec fn spec_auth_headers(provider: ProviderKind, secret: Option<Seq<char>>) -> Seq<(Seq<char>, Seq<char>)> {
    let base = seq![("content-type"@, "application/json"@), ("accept"@, "text/event-stream"@)];
    match provider {
        ProviderKind::AnthropicMessages => match secret {
            Some(s) => base + seq![("x-api-key"@, s), ("anthropic-version"@, "2023-06-01"@)],
            None => base + seq![("anthropic-version"@, "2023-06-01"@)],
        },
        _ => match secret {
            Some(s) => base + seq![("authorization"@, "Bearer "@ + s)],
            None => base,
        },
    }
}

pub fn auth_headers(provider: ProviderKind, secret: Option<&str>) -> (r: Vec<(String, String)>)
    ensures
        r@.map_values(|h: (String, String)| (h.0@, h.1@)) == spec_auth_headers(provider, match secret { Some(s) => Some(s@), None => None }),
{
    let mut r: Vec<(String, String)> = Vec::new();
    r.push((String::from_str("content-type"), String::from_str("application/json")));
    r.push((String::from_str("accept"), String::from_str("text/event-stream")));
    match provider {
        ProviderKind::AnthropicMessages => {
            if let Some(s) = secret {
                r.push((String::from_str("x-api-key"), String::from_str(s)));
            }
            r.push((String::from_str("anthropic-version"), String::from_str("2023-06-01")));
        },
        _ => {
            if let Some(s) = secret {
                let mut v: Vec<char> = Vec::new();
                push_str_chars(&mut v, "Bearer ");
                push_str_chars(&mut v, s);
                r.push((String::from_str("authorization"), string_of(&v)));
            }
        },
    }
    assert(r@.map_values(|h: (String, String)| (h.0@, h.1@)) =~= spec_auth_headers(provider, match secret { Some(s) => Some(s@), None => None }));
    r
}

pub open spec fn some(j: Json) -> Option<Json> {
    Some(j)
}

/// The text increment carried by one stream event, per provider protocol.
pub open spec fn spec_stream_delta(value: Json, provider: ProviderKind) -> Option<Seq<char>> {
    let v = some(value);
    match provider {
        ProviderKind::OpenaiResponses => if as_str(get_in(v, "type"@)) == Some("response.output_text.delta"@) {
            as_str(get_in(v, "delta"@))
        } else {
            None
        },
        ProviderKind::AnthropicMessages => if as_str(get_in(v, "type"@)) == Some("content_block_delta"@) {
            as_str(get_in(get_in(v, "delta"@), "text"@))
        } else {
            None
        },
        ProviderKind::OpenaiCompatible => as_str(get_in(get_in(at_in(get_in(v, "choices"@), 0), "delta"@), "content"@)),
    }
}

fn str_is(j: Option<&Json>, lit: &str) -> (r: bool)
    ensures
        r == (as_str(match j { Some(v) => Some(*v), None => None }) == Some(lit@)),
{
    match text_opt(j) {
        Some(s) => {
            let c = chars_of(s.as_str());
            chars_eq_str(&c, lit)
        },
        None => false,
    }
}

pub fn stream_delta(value: &Json, provider: &ProviderKind) -> (r: Option<String>)
    ensures
        match r {
            Some(s) => Some(s@),
            None => None,
        } == spec_stream_delta(*value, *provider),
{
    match provider {
        ProviderKind::OpenaiResponses => {
            if str_is(value.get("type"), "response.output_text.delta") {
                text_opt(value.get("delta"))
            } else {
                None
            }
        },
        ProviderKind::AnthropicMessages => {
            if str_is(value.get("type"), "content_block_delta") {
                text_opt(get_opt(value.get("delta"), "text"))
            } else {
                None
            }
        },
        ProviderKind::OpenaiCompatible => {
            text_opt(get_opt(get_opt(at_opt(value.get("choices"), 0), "delta"), "content"))
        },
    }
}

pub open spec fn or_empty(s: Option<Seq<char>>) -> Seq<char> {
    match s {
        Some(t) => t,
        None => Seq::empty(),
    }
}

/// The reply text of a complete (non-streamed) response.
pub open spec fn spec_extract_text(value: Json, provider: ProviderKind) -> Seq<char> {
    let v = some(value);
    match provider {
        ProviderKind::OpenaiResponses => match as_str(get_in(v, "output_text"@)) {
            Some(t) => t,
            None => or_empty(as_str(get_in(at_in(get_in(at_in(get_in(v, "output"@), 0), "content"@), 0), "text"@))),
        },
        ProviderKind::AnthropicMessages => or_empty(as_str(get_in(at_in(get_in(v, "content"@), 0), "text"@))),
        ProviderKind::OpenaiCompatible => or_empty(as_str(get_in(get_in(at_in(get_in(v, "choices"@), 0), "message"@), "content"@))),
    }
}

fn or_empty_exec(s: Option<String>) -> (r: String)
    ensures
        r@ == or_empty(match s { Some(t) => Some(t@), None => None }),
{
    match s {
        Some(t) => t,
        None => String::new(),
    }
}

pub fn extract_text(value: &Json, provider: &ProviderKind) -> (r: String)
    ensures
        r@ == spec_extract_text(*value, *provider),
{
    match provider {
        ProviderKind::OpenaiResponses => match text_opt(value.get("output_text")) {
            Some(t) => t,
            None => or_empty_exec(text_opt(get_opt(at_opt(get_opt(at_opt(value.get("output"), 0), "content"), 0), "text"))),
        },
        ProviderKind::AnthropicMessages => or_empty_exec(text_opt(get_opt(at_opt(value.get("content"), 0), "text"))),
        ProviderKind::OpenaiCompatible => or_empty_exec(text_opt(get_opt(get_opt(at_opt(value.get("choices"), 0), "message"), "content"))),
    }
}

/// What the vision model reported about the desktop: whether it changed
/// meaningfully (the fallback when it did not say) and a cleaned summary of
/// at most 600 characters. Without a JSON reply the whole reply is the
/// summary.
pub open spec fn spec_visual_observation(raw: Seq<char>, parsed: Option<Json>, fallback_changed: bool) -> (bool, Seq<char>) {
    match parsed {
        Some(v) => {
            let changed = match as_bool(spec_get(v, "changed"@)) {
                Some(b) => b,
                None => fallback_changed,
            };
            (changed, spec_clean_reply(or_empty(as_str(spec_get(v, "summary"@))), 600))
        },
        None => (fallback_changed, spec_clean_reply(raw, 600)),
    }
}

/// Reads a vision model's reply; `parsed` is the JSON found in `raw`.
pub fn parse_visual_observation(raw: String, parsed: Option<&Json>, fallback_changed: bool) -> (r: (bool, String))
    ensures
        (r.0, r.1@) == spec_visual_observation(raw@, match parsed { Some(v) => Some(*v), None => None }, fallback_changed),
{
    match parsed {
        Some(v) => {
            let changed = match v.get("changed") {
                Some(c) => match c.as_boolean() {
                    Some(b) => b,
                    None => fallback_changed,
                },
                None => fallback_changed,
            };
            let summary = or_empty_exec(text_opt(v.get("summary")));
            (changed, clean_reply(summary, 600))
        },
        None => (fallback_changed, clean_reply(raw, 600)),
    }
}

/// The error shown when a model answers with a failing HTTP status: the
/// status and at most 400 characters of the body.
pub fn http_error(status: u16, body: &str) -> (r: String)
    ensures
        r@ == "模型返回 HTTP "@ + crate::text::decimal(status as nat) + ": "@ + take_chars(body@, 400),
{
    let mut v = crate::text::chars_of("模型返回 HTTP ");
    let d = crate::text::decimal_chars(status as u64);
    push_all(&mut v, &d);
    push_str_chars(&mut v, ": ");
    let b = crate::text::take_chars_vec(&crate::text::chars_of(body), 400);
    push_all(&mut v, &b);
    string_of(&v)
}

/// A key reference names a keychain entry: 1 to 100 bytes.
pub fn secret_reference_ok(reference: &str) -> (r: Result<(), String>)
    ensures
        (reference@.len() == 0 || vstd::utf8::encode_utf8(reference@).len() > 100) ==> (r matches Err(e) && e@ == "密钥引用无效"@),
        !(reference@.len() == 0 || vstd::utf8::encode_utf8(reference@).len() > 100) ==> r is Ok,
{
    if reference.is_empty() || reference.as_bytes().len() > 100 {
        return Err(String::from_str("密钥引用无效"));
    }
    Ok(())
}

/// The headers of a request: a streamed one accepts an event stream, any
/// other asks for JSON.
pub open spec fn spec_request_headers(provider: ProviderKind, secret: Option<Seq<char>>, stream: bool) -> Seq<(Seq<char>, Seq<char>)> {
    let h = spec_auth_headers(provider, secret);
    if stream { h } else { h.update(1, ("accept"@, "application/json"@)) }
}

pub fn request_headers(provider: ProviderKind, secret: Option<&str>, stream: bool) -> (r: Vec<(String, String)>)
    ensures
        r@.map_values(|h: (String, String)| (h.0@, h.1@)) == spec_request_headers(provider, match secret { Some(s) => Some(s@), None => None }, stream),
{
    let mut h = auth_headers(provider, secret);
    assert(h@.map_values(|x: (String, String)| (x.0@, x.1@)).len() == h@.len());
    assert(h@.len() >= 2);
    if !stream {
        let ghost before = h@;
        h.set(1, (String::from_str("accept"), String::from_str("application/json")));
        assert(h@.map_values(|x: (String, String)| (x.0@, x.1@)) =~= before.map_values(|x: (String, String)| (x.0@, x.1@)).update(1, ("accept"@, "application/json"@)));
    }
    h
}

} // verus!
