use sakipet::behavior::{parse_behavior_response, parse_pet_conversation_response, PetBehavior};
use sakipet::chat::{relationship_memory_content, ChatMessage};
use sakipet::companion::{random_heartbeat_delay, AiSettings};
use sakipet::json::Json;
use sakipet::life::{advance_pet_life_state, PetLifeState};
use sakipet::memory::{token_overlap, tokens, top_ranked, MAX_RECALLED_MEMORIES};
use sakipet::payload::build_payload;
use sakipet::platform::now_ms;
use sakipet::prompt::{prompt_for, CardPrompt};
use sakipet::provider::{parse_visual_observation, stream_delta, ModelEndpointConfig, ProviderKind};
use sakipet::sse::sse_boundary;

fn text(s: &str) -> Json {
    Json::Str(s.to_string())
}

fn object(entries: Vec<(&str, Json)>) -> Json {
    Json::Object(entries.into_iter().map(|(k, v)| (k.to_string(), v)).collect())
}

fn behavior(say: &str) -> PetBehavior {
    PetBehavior { say: say.to_string(), ..PetBehavior::default() }
}

#[test]
fn heartbeat_delay_stays_within_configured_range() {
    let settings = AiSettings { heartbeat_min_minutes: 20, heartbeat_max_minutes: 60, ..AiSettings::default() };
    for _ in 0..20 {
        let seconds = random_heartbeat_delay(&settings) / 1000;
        assert!((20 * 60..=60 * 60).contains(&seconds));
    }
}

#[test]
fn behavior_response_accepts_character_card_aliases_and_limits_actions() {
    // {"text":"欢迎回来。","animation":"jumping","emotion":"开心","look":"right","duration":99999,"nextActionAfter":1}
    let parsed = PetBehavior {
        say: "欢迎回来。".to_string(),
        action: "jumping".to_string(),
        mood: "开心".to_string(),
        duration: 99999,
        next_action_after: 1,
        look: Some("right".to_string()),
    };
    let (say, behavior) = parse_behavior_response(String::new(), Some(parsed), 80);
    assert_eq!(say, "欢迎回来。");
    assert_eq!(behavior.action, "jumping");
    assert_eq!(behavior.mood, "开心");
    assert_eq!(behavior.look.as_deref(), Some("right"));
    assert_eq!(behavior.duration, 12_000);
    assert_eq!(behavior.next_action_after, 30);

    // {"say":"不执行工具","action":"run-shell"}
    let parsed = PetBehavior { action: "run-shell".to_string(), ..behavior_with("不执行工具") };
    let (_, fallback) = parse_behavior_response(String::new(), Some(parsed), 80);
    assert_eq!(fallback.action, "idle");
}

fn behavior_with(say: &str) -> PetBehavior {
    behavior(say)
}

#[test]
fn pet_conversation_response_is_bounded_and_keeps_both_speakers() {
    let long_line = "喵".repeat(140);
    let first = PetBehavior { action: "jumping".to_string(), ..behavior(&long_line) };
    let second = PetBehavior { mood: "开心".to_string(), ..behavior("记住这次一起晒太阳。") };
    let (first, second) = parse_pet_conversation_response(Some((first, second))).expect("valid exchange");
    assert_eq!(first.say.chars().count(), 100);
    assert_eq!(first.action, "jumping");
    assert_eq!(second.say, "记住这次一起晒太阳。");
}

#[test]
fn relationship_memory_is_written_from_each_pet_view() {
    let first_view = relationship_memory_content("saki", "saki", "小祥", "今天一起晒太阳吧。", "anoninu", "阿农", "好呀，我记住了。");
    let second_view = relationship_memory_content("anoninu", "saki", "小祥", "今天一起晒太阳吧。", "anoninu", "阿农", "好呀，我记住了。");
    assert!(first_view.contains("我和阿农的一次互动"));
    assert!(first_view.contains("小祥：“今天一起晒太阳吧。”"));
    assert!(second_view.contains("我和小祥的一次互动"));
    assert!(second_view.contains("阿农：“好呀，我记住了。”"));
}

#[test]
fn pet_life_state_decays_attention_and_becomes_lonely() {
    let mut state = PetLifeState::default();
    state.attention = 35;
    state.last_interaction_at = now_ms().saturating_sub(10 * 3_600_000);
    advance_pet_life_state(&mut state, now_ms());
    assert!(state.attention <= 20);
    assert_eq!(state.mood, "lonely");
}

#[test]
fn visual_observation_can_reject_pixel_only_changes() {
    let raw = r#"{"changed":false,"summary":"只是光标移动"}"#.to_string();
    let parsed = object(vec![("changed", Json::Bool(false)), ("summary", text("只是光标移动"))]);
    let (changed, summary) = parse_visual_observation(raw, Some(&parsed), true);
    assert!(!changed);
    assert_eq!(summary, "只是光标移动");
}

#[test]
fn sse_boundary_accepts_lf_and_crlf() {
    assert_eq!(sse_boundary("data: {}\n\nrest"), Some((8, 2)));
    assert_eq!(sse_boundary("data: {}\r\n\r\nrest"), Some((8, 4)));
}

#[test]
fn provider_stream_deltas_are_normalized() {
    let responses = object(vec![("type", text("response.output_text.delta")), ("delta", text("你好"))]);
    assert_eq!(stream_delta(&responses, &ProviderKind::OpenaiResponses), Some("你好".to_string()));
    let anthropic = object(vec![
        ("type", text("content_block_delta")),
        ("delta", object(vec![("type", text("text_delta")), ("text", text("你好"))])),
    ]);
    assert_eq!(stream_delta(&anthropic, &ProviderKind::AnthropicMessages), Some("你好".to_string()));
    let compatible = object(vec![(
        "choices",
        Json::Array(vec![object(vec![("delta", object(vec![("content", text("你好"))]))])]),
    )]);
    assert_eq!(stream_delta(&compatible, &ProviderKind::OpenaiCompatible), Some("你好".to_string()));
}

fn empty_card() -> CardPrompt {
    CardPrompt {
        system_prompt: String::new(),
        description: String::new(),
        personality: String::new(),
        scenario: String::new(),
        mes_example: String::new(),
        first_mes: String::new(),
        post_history_instructions: String::new(),
    }
}

#[test]
fn prompt_puts_app_safety_before_character_card_and_excludes_creator_notes() {
    // Creator notes ("不应该发给模型") are not a part of a card's prompt at all.
    let card = CardPrompt { system_prompt: "角色提示".to_string(), ..empty_card() };
    let prompt = prompt_for(&card, "saki", "", &Vec::new(), "", "", &PetLifeState::default(), now_ms());
    assert!(prompt.find("只能进行聊天").unwrap() < prompt.find("角色提示").unwrap());
    assert!(!prompt.contains("不应该发给模型"));
}

fn message(id: &str, role: &str, content: &str, source: &str) -> ChatMessage {
    ChatMessage {
        id: id.to_string(),
        role: role.to_string(),
        content: content.to_string(),
        timestamp: now_ms(),
        source: source.to_string(),
        vision_summary: None,
        speaker_pet_id: None,
        speaker_name: None,
    }
}

fn field<'a>(value: &'a Json, key: &str) -> &'a Json {
    value.get(key).expect("member present")
}

fn item(value: &Json, index: usize) -> &Json {
    value.at(index).expect("element present")
}

fn text_of(value: &Json) -> &str {
    value.as_text().expect("a string").as_str()
}

#[test]
fn provider_payloads_keep_protocol_specific_fields() {
    let messages = vec![message("message", "user", "你好", "chat")];
    let responses = ModelEndpointConfig { model: "gpt-test".to_string(), ..ModelEndpointConfig::default() };
    let responses_payload = build_payload(&responses, "system", &messages, None, true);
    assert_eq!(text_of(field(&responses_payload, "instructions")), "system");
    assert_eq!(field(&responses_payload, "store").as_boolean(), Some(false));
    assert_eq!(field(&responses_payload, "stream").as_boolean(), Some(true));

    let anthropic = ModelEndpointConfig {
        provider: ProviderKind::AnthropicMessages,
        model: "messages-test".to_string(),
        ..ModelEndpointConfig::default()
    };
    let anthropic_payload = build_payload(&anthropic, "system", &messages, None, false);
    assert_eq!(text_of(field(&anthropic_payload, "system")), "system");
    assert_eq!(field(&anthropic_payload, "max_tokens").as_unsigned(), Some(300));
    assert_eq!(field(&anthropic_payload, "stream").as_boolean(), Some(false));

    let compatible = ModelEndpointConfig {
        provider: ProviderKind::OpenaiCompatible,
        model: "local-test".to_string(),
        ..ModelEndpointConfig::default()
    };
    let compatible_payload = build_payload(&compatible, "system", &messages, None, true);
    assert_eq!(text_of(field(item(field(&compatible_payload, "messages"), 0), "role")), "system");
    assert_eq!(text_of(field(item(field(&compatible_payload, "messages"), 1), "content")), "你好");
}

#[test]
fn vision_payload_contains_image_without_persisting_it() {
    let config = ModelEndpointConfig {
        provider: ProviderKind::OpenaiCompatible,
        model: "local-vision".to_string(),
        ..ModelEndpointConfig::default()
    };
    let payload = build_payload(
        &config,
        "vision",
        &vec![message("__vision__", "user", "比较上一次观察，判断是否换了界面", "vision")],
        Some("data:image/jpeg;base64,abc"),
        false,
    );
    let content = field(item(field(&payload, "messages"), 1), "content");
    assert_eq!(text_of(field(field(item(content, 1), "image_url"), "url")), "data:image/jpeg;base64,abc");
    assert_eq!(text_of(field(item(content, 0), "text")), "比较上一次观察，判断是否换了界面");
}

#[test]
fn chinese_memory_search_prefers_matching_fact() {
    let facts = ["用户喜欢粉蓝色", "用户喜欢猫粮"];
    let (importance, confidence, recency) = (0.5_f64, 1.0_f64, 1.0_f64);
    let query = tokens("粉蓝色界面");
    let keys: Vec<u64> = facts
        .iter()
        .map(|content| {
            let overlap = token_overlap(&query, &tokens(content)) as f64;
            let score = overlap * 2.0 + importance * 1.5 + confidence + recency;
            score.to_bits()
        })
        .collect();
    let results = top_ranked(&keys, MAX_RECALLED_MEMORIES);
    assert_eq!(results.first().map(|index| facts[*index]), Some("用户喜欢粉蓝色"));
}
