//! Request bodies for the three provider protocols, and the text of a reply
//! assembled from its stream events.

use vstd::prelude::*;
use crate::chat::ChatMessage;
use crate::json::Json;
use crate::provider::{ModelEndpointConfig, ProviderKind, spec_extract_text, spec_stream_delta, extract_text, stream_delta};
use crate::text::{chars_eq_str, chars_of, find_first, find_first_exec, first_match, first_match_from, slice_chars, string_of};

verus! {

/// The id of the message that carries a desktop-vision instruction.
pub open spec fn is_vision(m: ChatMessage) -> bool {
    m.id@ == "__vision__"@
}

/// The instruction sent with a screenshot when no vision message gives one.
pub open spec fn default_vision_instruction() -> Seq<char> {
    "请只描述你观察到的桌面内容，不要复述密码、令牌或联系方式。"@
}

/// The instruction sent with a screenshot: the content of the first vision
/// message.
pub open spec fn vision_instruction(ms: Seq<ChatMessage>) -> Seq<char> {
    match first_match(ms, |m: ChatMessage| is_vision(m)) {
        Some(i) => ms[i].content@,
        None => default_vision_instruction(),
    }
}

/// The messages sent as history: all of them, less the vision messages when
/// a screenshot goes with the request.
pub open spec fn history_messages(ms: Seq<ChatMessage>, has_image: bool) -> Seq<ChatMessage>
    decreases ms.len(),
{
    if ms.len() == 0 {
        ms
    } else {
        let rest = history_messages(ms.drop_last(), has_image);
        if has_image && is_vision(ms.last()) { rest } else { rest.push(ms.last()) }
    }
}

/// The base64 data of a data URL: what follows the first comma.
pub open spec fn data_of(url: Seq<char>) -> Seq<char> {
    match find_first(url, seq![',']) {
        Some(i) => url.skip(i + 1),
        None => url,
    }
}

pub open spec fn is_text(j: Json, s: Seq<char>) -> bool {
    j matches Json::Str(x) && x@ == s
}

/// An object member with key `key` and text `value`.
pub open spec fn text_member(e: (String, Json), key: Seq<char>, value: Seq<char>) -> bool {
    e.0@ == key && is_text(e.1, value)
}

pub open spec fn obj(j: Json) -> Seq<(String, Json)> {
    match j {
        Json::Object(es) => es@,
        _ => Seq::empty(),
    }
}

pub open spec fn arr(j: Json) -> Seq<Json> {
    match j {
        Json::Array(xs) => xs@,
        _ => Seq::empty(),
    }
}

/// `{"role": .., "content": ..}` of a message.
pub open spec fn message_json_ok(j: Json, m: ChatMessage) -> bool {
    &&& j is Object
    &&& obj(j).len() == 2
    &&& text_member(obj(j)[0], "role"@, m.role@)
    &&& text_member(obj(j)[1], "content"@, m.content@)
}

pub open spec fn messages_json_ok(items: Seq<Json>, ms: Seq<ChatMessage>) -> bool {
    items.len() == ms.len() && forall|i: int| 0 <= i < ms.len() ==> #[trigger] message_json_ok(items[i], ms[i])
}

/// `{"type": kind, "text": text}`.
pub open spec fn text_part_ok(j: Json, kind: Seq<char>, text: Seq<char>) -> bool {
    j is Object && obj(j).len() == 2 && text_member(obj(j)[0], "type"@, kind) && text_member(obj(j)[1], "text"@, text)
}

/// `{"role": "user", "content": [text part, image part]}`, the image part
/// checked by `image_ok`.
pub open spec fn user_parts_ok(j: Json, text_kind: Seq<char>, text: Seq<char>, image_ok: spec_fn(Json) -> bool) -> bool {
    &&& j is Object
    &&& obj(j).len() == 2
    &&& text_member(obj(j)[0], "role"@, "user"@)
    &&& obj(j)[1].0@ == "content"@
    &&& obj(j)[1].1 is Array
    &&& arr(obj(j)[1].1).len() == 2
    &&& text_part_ok(arr(obj(j)[1].1)[0], text_kind, text)
    &&& image_ok(arr(obj(j)[1].1)[1])
}

/// `{"type": "input_image", "image_url": url, "detail": "low"}`.
pub open spec fn responses_image_ok(j: Json, url: Seq<char>) -> bool {
    j is Object && obj(j).len() == 3 && text_member(obj(j)[0], "type"@, "input_image"@)
        && text_member(obj(j)[1], "image_url"@, url) && text_member(obj(j)[2], "detail"@, "low"@)
}

/// `{"type": "image", "source": {"type": "base64", "media_type":
/// "image/jpeg", "data": data}}`.
pub open spec fn anthropic_image_ok(j: Json, data: Seq<char>) -> bool {
    &&& j is Object
    &&& obj(j).len() == 2
    &&& text_member(obj(j)[0], "type"@, "image"@)
    &&& obj(j)[1].0@ == "source"@
    &&& obj(j)[1].1 is Object
    &&& obj(obj(j)[1].1).len() == 3
    &&& text_member(obj(obj(j)[1].1)[0], "type"@, "base64"@)
    &&& text_member(obj(obj(j)[1].1)[1], "media_type"@, "image/jpeg"@)
    &&& text_member(obj(obj(j)[1].1)[2], "data"@, data)
}

/// `{"type": "image_url", "image_url": {"url": url}}`.
pub open spec fn compatible_image_ok(j: Json, url: Seq<char>) -> bool {
    &&& j is Object
    &&& obj(j).len() == 2
    &&& text_member(obj(j)[0], "type"@, "image_url"@)
    &&& obj(j)[1].0@ == "image_url"@
    &&& obj(j)[1].1 is Object
    &&& obj(obj(j)[1].1).len() == 1
    &&& text_member(obj(obj(j)[1].1)[0], "url"@, url)
}

/// The history of a Responses or Messages request: the kept messages, then,
/// with a screenshot, one user item carrying the instruction and the image.
pub open spec fn history_ok(items: Seq<Json>, ms: Seq<ChatMessage>, image: Option<Seq<char>>, last_ok: spec_fn(Json) -> bool) -> bool {
    let kept = history_messages(ms, image is Some);
    match image {
        None => messages_json_ok(items, kept),
        Some(_) => items.len() == kept.len() + 1 && messages_json_ok(items.take(kept.len() as int), kept) && last_ok(items.last()),
    }
}

/// One message of an OpenAI-compatible request: a vision message becomes a
/// user item with the image when a screenshot goes with the request.
pub open spec fn compatible_item_ok(j: Json, m: ChatMessage, image: Option<Seq<char>>) -> bool {
    match image {
        Some(url) if is_vision(m) => user_parts_ok(j, "text"@, m.content@, |p: Json| compatible_image_ok(p, url)),
        _ => message_json_ok(j, m),
    }
}

pub open spec fn number_member(e: (String, Json), key: Seq<char>, n: u64) -> bool {
    e.0@ == key && e.1 == Json::Number(Some(n))
}

pub open spec fn bool_member(e: (String, Json), key: Seq<char>, b: bool) -> bool {
    e.0@ == key && e.1 == Json::Bool(b)
}

/// The request body for `config`'s protocol.
pub open spec fn payload_ok(r: Json, config: ModelEndpointConfig, prompt: Seq<char>, ms: Seq<ChatMessage>, image: Option<Seq<char>>, stream: bool) -> bool {
    let e = obj(r);
    &&& r is Object
    &&& match config.provider {
        ProviderKind::OpenaiResponses => {
            &&& e.len() == 6
            &&& text_member(e[0], "model"@, config.model@)
            &&& text_member(e[1], "instructions"@, prompt)
            &&& e[2].0@ == "input"@ && e[2].1 is Array
            &&& history_ok(arr(e[2].1), ms, image, |j: Json| user_parts_ok(j, "input_text"@, vision_instruction(ms), |p: Json| responses_image_ok(p, image->0)))
            &&& number_member(e[3], "max_output_tokens"@, config.max_output_tokens as u64)
            &&& bool_member(e[4], "stream"@, stream)
            &&& bool_member(e[5], "store"@, false)
        },
        ProviderKind::AnthropicMessages => {
            &&& e.len() == 5
            &&& text_member(e[0], "model"@, config.model@)
            &&& text_member(e[1], "system"@, prompt)
            &&& e[2].0@ == "messages"@ && e[2].1 is Array
            &&& history_ok(arr(e[2].1), ms, image, |j: Json| user_parts_ok(j, "text"@, vision_instruction(ms), |p: Json| anthropic_image_ok(p, data_of(image->0))))
            &&& number_member(e[3], "max_tokens"@, config.max_output_tokens as u64)
            &&& bool_member(e[4], "stream"@, stream)
        },
        ProviderKind::OpenaiCompatible => {
            let items = arr(e[1].1);
            &&& e.len() == 4
            &&& text_member(e[0], "model"@, config.model@)
            &&& e[1].0@ == "messages"@ && e[1].1 is Array
            &&& items.len() == ms.len() + 1
            &&& items[0] is Object && obj(items[0]).len() == 2
            &&& text_member(obj(items[0])[0], "role"@, "system"@)
            &&& text_member(obj(items[0])[1], "content"@, prompt)
            &&& forall|i: int| 0 <= i < ms.len() ==> #[trigger] compatible_item_ok(items[i + 1], ms[i], image)
            &&& number_member(e[2], "max_tokens"@, config.max_output_tokens as u64)
            &&& bool_member(e[3], "stream"@, stream)
        },
    }
}

fn text(s: &str) -> (r: Json)
    ensures
        is_text(r, s@),
{
    Json::Str(String::from_str(s))
}

fn member(key: &str, value: Json) -> (r: (String, Json))
    ensures
        r.0@ == key@,
        r.1 == value,
{
    (String::from_str(key), value)
}

fn message_json(m: &ChatMessage) -> (r: Json)
    ensures
        message_json_ok(r, *m),
{
    let mut es: Vec<(String, Json)> = Vec::new();
    es.push(member("role", Json::Str(m.role.clone())));
    es.push(member("content", Json::Str(m.content.clone())));
    Json::Object(es)
}

fn text_part(kind: &str, t: String) -> (r: Json)
    ensures
        text_part_ok(r, kind@, t@),
{
    let mut es: Vec<(String, Json)> = Vec::new();
    es.push(member("type", text(kind)));
    es.push(member("text", Json::Str(t)));
    Json::Object(es)
}

fn user_parts(kind: &str, t: String, image: Json) -> (r: Json)
    ensures
        r is Object,
        obj(r).len() == 2,
        text_member(obj(r)[0], "role"@, "user"@),
        obj(r)[1].0@ == "content"@,
        obj(r)[1].1 is Array,
        arr(obj(r)[1].1).len() == 2,
        text_part_ok(arr(obj(r)[1].1)[0], kind@, t@),
        arr(obj(r)[1].1)[1] == image,
{
    let mut parts: Vec<Json> = Vec::new();
    parts.push(text_part(kind, t));
    parts.push(image);
    let mut es: Vec<(String, Json)> = Vec::new();
    es.push(member("role", text("user")));
    es.push(member("content", Json::Array(parts)));
    Json::Object(es)
}

fn vision_instruction_exec(ms: &Vec<ChatMessage>) -> (r: String)
    ensures
        r@ == vision_instruction(ms@),
{
    let mut i: usize = 0;
    while i < ms.len()
        invariant
            i <= ms.len(),
            first_match(ms@, |m: ChatMessage| is_vision(m)) == first_match_from(ms@, |m: ChatMessage| is_vision(m), i as nat),
        decreases ms.len() - i,
    {
        if chars_eq_str(&chars_of(ms[i].id.as_str()), "__vision__") {
            return ms[i].content.clone();
        }
        i = i + 1;
    }
    String::from_str("请只描述你观察到的桌面内容，不要复述密码、令牌或联系方式。")
}

fn history_items(ms: &Vec<ChatMessage>, has_image: bool) -> (r: Vec<Json>)
    ensures
        messages_json_ok(r@, history_messages(ms@, has_image)),
{
    let mut items: Vec<Json> = Vec::new();
    let mut i: usize = 0;
    while i < ms.len()
        invariant
            i <= ms.len(),
            messages_json_ok(items@, history_messages(ms@.take(i as int), has_image)),
        decreases ms.len() - i,
    {
        let ghost kept = history_messages(ms@.take(i as int), has_image);
        assert(ms@.take(i + 1).drop_last() =~= ms@.take(i as int));
        assert(ms@.take(i + 1).last() == ms@[i as int]);
        let vision = chars_eq_str(&chars_of(ms[i].id.as_str()), "__vision__");
        if !(has_image && vision) {
            let ghost before = items@;
            items.push(message_json(&ms[i]));
            assert forall|k: int| 0 <= k < kept.len() + 1 implies #[trigger] message_json_ok(items@[k], kept.push(ms@[i as int])[k]) by {
                if k < kept.len() {
                    assert(items@[k] == before[k]);
                }
            }
        }
        i = i + 1;
    }
    assert(ms@.take(ms.len() as int) =~= ms@);
    items
}

fn data_exec(url: &str) -> (r: String)
    ensures
        r@ == data_of(url@),
{
    let c = chars_of(url);
    let comma: Vec<char> = vec![','];
    assert(comma@ =~= seq![',']);
    match find_first_exec(&c, &comma) {
        Some(i) => {
            proof {
                crate::text::lemma_find_first_bound(c@, comma@);
                assert(crate::text::occurs_at(c@, comma@, i as int));
            }
            assert(i + 1 <= c.len());
            let rest = slice_chars(&c, i + 1, c.len());
            assert(rest@ =~= c@.skip(i + 1));
            string_of(&rest)
        },
        None => String::from_str(url),
    }
}

fn responses_image(url: &str) -> (r: Json)
    ensures
        responses_image_ok(r, url@),
{
    let mut es: Vec<(String, Json)> = Vec::new();
    es.push(member("type", text("input_image")));
    es.push(member("image_url", text(url)));
    es.push(member("detail", text("low")));
    Json::Object(es)
}

fn anthropic_image(url: &str) -> (r: Json)
    ensures
        anthropic_image_ok(r, data_of(url@)),
{
    let mut src: Vec<(String, Json)> = Vec::new();
    src.push(member("type", text("base64")));
    src.push(member("media_type", text("image/jpeg")));
    src.push(member("data", Json::Str(data_exec(url))));
    let mut es: Vec<(String, Json)> = Vec::new();
    es.push(member("type", text("image")));
    es.push(member("source", Json::Object(src)));
    Json::Object(es)
}

fn compatible_image(url: &str) -> (r: Json)
    ensures
        compatible_image_ok(r, url@),
{
    let mut inner: Vec<(String, Json)> = Vec::new();
    inner.push(member("url", text(url)));
    let mut es: Vec<(String, Json)> = Vec::new();
    es.push(member("type", text("image_url")));
    es.push(member("image_url", Json::Object(inner)));
    Json::Object(es)
}

/// The request body of a model call.
pub fn build_payload(config: &ModelEndpointConfig, prompt: &str, messages: &Vec<ChatMessage>, image_data_url: Option<&str>, stream: bool) -> (r: Json)
    ensures
        payload_ok(r, *config, prompt@, messages@, match image_data_url {
            Some(u) => Some(u@),
            None => None,
        }, stream),
{
    let ghost image = match image_data_url {
        Some(u) => Some(u@),
        None => None::<Seq<char>>,
    };
    match config.provider {
        ProviderKind::OpenaiResponses => {
            let mut input = history_items(messages, image_data_url.is_some());
            let ghost kept = input@;
            match image_data_url {
                Some(url) => {
                    let item = user_parts("input_text", vision_instruction_exec(messages), responses_image(url));
                    input.push(item);
                    assert(input@.take(kept.len() as int) =~= kept);
                },
                None => {},
            }
            let mut es: Vec<(String, Json)> = Vec::new();
            es.push(member("model", Json::Str(config.model.clone())));
            es.push(member("instructions", text(prompt)));
            es.push(member("input", Json::Array(input)));
            es.push(member("max_output_tokens", Json::Number(Some(config.max_output_tokens as u64))));
            es.push(member("stream", Json::Bool(stream)));
            es.push(member("store", Json::Bool(false)));
            Json::Object(es)
        },
        ProviderKind::AnthropicMessages => {
            let mut history = history_items(messages, image_data_url.is_some());
            let ghost kept = history@;
            match image_data_url {
                Some(url) => {
                    let item = user_parts("text", vision_instruction_exec(messages), anthropic_image(url));
                    history.push(item);
                    assert(history@.take(kept.len() as int) =~= kept);
                },
                None => {},
            }
            let mut es: Vec<(String, Json)> = Vec::new();
            es.push(member("model", Json::Str(config.model.clone())));
            es.push(member("system", text(prompt)));
            es.push(member("messages", Json::Array(history)));
            es.push(member("max_tokens", Json::Number(Some(config.max_output_tokens as u64))));
            es.push(member("stream", Json::Bool(stream)));
            Json::Object(es)
        },
        ProviderKind::OpenaiCompatible => {
            let mut history: Vec<Json> = Vec::new();
            let mut sys: Vec<(String, Json)> = Vec::new();
            sys.push(member("role", text("system")));
            sys.push(member("content", text(prompt)));
            history.push(Json::Object(sys));
            let mut i: usize = 0;
            while i < messages.len()
                invariant
                    i <= messages.len(),
                    history@.len() == i + 1,
                    history@[0] is Object && obj(history@[0]).len() == 2,
                    text_member(obj(history@[0])[0], "role"@, "system"@),
                    text_member(obj(history@[0])[1], "content"@, prompt@),
                    image == match image_data_url {
                        Some(u) => Some(u@),
                        None => None::<Seq<char>>,
                    },
                    forall|k: int| 0 <= k < i ==> #[trigger] compatible_item_ok(history@[k + 1], messages@[k], image),
                decreases messages.len() - i,
            {
                let m = &messages[i];
                let vision = chars_eq_str(&chars_of(m.id.as_str()), "__vision__");
                let ghost before = history@;
                match image_data_url {
                    Some(url) if vision => {
                        history.push(user_parts("text", m.content.clone(), compatible_image(url)));
                    },
                    _ => {
                        history.push(message_json(m));
                    },
                }
                assert forall|k: int| 0 <= k < i + 1 implies #[trigger] compatible_item_ok(history@[k + 1], messages@[k], image) by {
                    if k < i {
                        assert(history@[k + 1] == before[k + 1]);
                    }
                }
                i = i + 1;
            }
            let mut es: Vec<(String, Json)> = Vec::new();
            es.push(member("model", Json::Str(config.model.clone())));
            es.push(member("messages", Json::Array(history)));
            es.push(member("max_tokens", Json::Number(Some(config.max_output_tokens as u64))));
            es.push(member("stream", Json::Bool(stream)));
            Json::Object(es)
        },
    }
}

/// The reply text of a stream, assembled event by event.
#[derive(Debug)]
pub struct StreamText {
    pub text: String,
}

pub open spec fn opt_json(v: Option<&Json>) -> Option<Json> {
    match v {
        Some(j) => Some(*j),
        None => None,
    }
}

impl StreamText {
    pub fn new() -> (r: Self)
        ensures
            r.text@.len() == 0,
    {
        StreamText { text: String::new() }
    }

    /// An event of a complete frame (`None` when its data is not JSON): its
    /// text increment is appended and handed back.
    pub fn on_event(&mut self, value: Option<&Json>, provider: &ProviderKind) -> (r: Option<String>)
        ensures
            match opt_json(value) {
                Some(v) => match spec_stream_delta(v, *provider) {
                    Some(d) => (r matches Some(x) && x@ == d) && final(self).text@ == old(self).text@ + d,
                    None => r is None && final(self).text@ == old(self).text@,
                },
                None => r is None && final(self).text@ == old(self).text@,
            },
    {
        match value {
            Some(v) => match stream_delta(v, provider) {
                Some(d) => {
                    let mut t = chars_of(self.text.as_str());
                    let dc = chars_of(d.as_str());
                    crate::text::push_all(&mut t, &dc);
                    self.text = string_of(&t);
                    Some(d)
                },
                None => None,
            },
            None => None,
        }
    }

    /// An event found in the tail left when the stream ended: like
    /// `on_event`, except that an event without an increment, arriving
    /// while no text has come yet, supplies the full-response text when it
    /// has any.
    pub fn on_tail_event(&mut self, value: Option<&Json>, provider: &ProviderKind) -> (r: Option<String>)
        ensures
            match opt_json(value) {
                Some(v) => match spec_stream_delta(v, *provider) {
                    Some(d) => (r matches Some(x) && x@ == d) && final(self).text@ == old(self).text@ + d,
                    None => r is None && final(self).text@ == (
                        if old(self).text@.len() == 0 && spec_extract_text(v, *provider).len() > 0 {
                            spec_extract_text(v, *provider)
                        } else {
                            old(self).text@
                        }),
                },
                None => r is None && final(self).text@ == old(self).text@,
            },
    {
        match value {
            Some(v) => {
                let delta = self.on_event(value, provider);
                if delta.is_none() && self.text.as_str().is_empty() {
                    let fallback = extract_text(v, provider);
                    if !fallback.as_str().is_empty() {
                        self.text = fallback;
                    }
                }
                delta
            },
            None => None,
        }
    }

    /// The reply text: when no event gave any and the leftover buffer is
    /// not blank, the full-response text of the buffer parsed as one JSON
    /// value (`buffer_value`, `None` when it is not JSON).
    pub fn finish(self, buffer_value: Option<&Json>, buffer_blank: bool, provider: &ProviderKind) -> (r: String)
        ensures
            r@ == if self.text@.len() == 0 && !buffer_blank {
                match opt_json(buffer_value) {
                    Some(v) => spec_extract_text(v, *provider),
                    None => self.text@,
                }
            } else {
                self.text@
            },
    {
        if self.text.as_str().is_empty() && !buffer_blank {
            match buffer_value {
                Some(v) => extract_text(v, provider),
                None => self.text,
            }
        } else {
            self.text
        }
    }
}

/// The prompt of a provider check.
pub fn provider_test_prompt(vision: bool) -> (r: &'static str)
    ensures
        r@ == (if vision { "请回复 OK，表示你可以处理图片输入。"@ } else { "请只回复 OK。"@ }),
{
    if vision { "请回复 OK，表示你可以处理图片输入。" } else { "请只回复 OK。" }
}

/// The messages of a provider check: a vision check carries one vision
/// message with the test picture's caption.
pub fn provider_test_messages(vision: bool, now: u64) -> (r: Vec<ChatMessage>)
    ensures
        !vision ==> r@.len() == 0,
        vision ==> r@.len() == 1 && is_vision(r@[0]) && r@[0].role@ == "user"@ && r@[0].content@ == "测试图片"@
            && r@[0].timestamp == now && r@[0].source@ == "test"@ && r@[0].vision_summary is None
            && r@[0].speaker_pet_id is None && r@[0].speaker_name is None,
{
    let mut r: Vec<ChatMessage> = Vec::new();
    if vision {
        r.push(ChatMessage {
            id: String::from_str("__vision__"),
            role: String::from_str("user"),
            content: String::from_str("测试图片"),
            timestamp: now,
            source: String::from_str("test"),
            vision_summary: None,
            speaker_pet_id: None,
            speaker_name: None,
        });
    }
    r
}

/// What a provider check reports: the first 80 characters of the reply.
pub fn provider_test_reply(reply: &str) -> (r: String)
    ensures
        r@ == crate::text::take_chars(reply@, 80),
{
    string_of(&crate::text::take_chars_vec(&chars_of(reply), 80))
}

} // verus!
