use sakipet::memory::{top_ranked, MAX_RECALLED_MEMORIES};
use sakipet::chat::{chat_request, conversation_exchange, request_id};
use sakipet::companion::{
    fingerprint_changed, heartbeat_ready, heartbeat_reply_kept, normalize_ai_settings, pick_conversation, pick_heartbeat,
    plan_companion_round, settings_have_chat, sorted_ids, vision_request, AiSettings, CompanionSchedule, PetCandidate,
};
use sakipet::behavior::PetBehavior;
use sakipet::desktop::{next_scene_id as window_scene_id, open_permission_settings, window_scene_refusal};
use sakipet::environment::{classify, platform_snapshot, process_snapshot, EnvironmentSettings, EnvironmentSnapshot, EnvironmentState};
use sakipet::football::{classify_touch, TouchKind};
use sakipet::json::{scene_json_candidates, Json};
use sakipet::memory::{
    append_shared_memory, edit_memory, load_memories, load_profile, memory_from_operation, memory_operation, split_words,
    store_target, token_overlap, tokens, MemoryFact, StoreTarget,
};
use sakipet::payload::StreamText;
use sakipet::provider::{ModelEndpointConfig, ProviderKind};
use sakipet::relationship::{
    load_relationship, migrate_legacy_relationship, new_relationship, pair_key, relationship_has_room, DirectionalEntry,
    DirectionalFeelings,
};
use sakipet::scene::{next_scene_id, prop_pass_schedule, scene_beats, scene_pairs, valid_prop, valid_scene};
use sakipet::social::{
    choose_candidates, claim_proximity_cooldown, get_social_log, manual_request, normalize_social_settings,
    social_scheduler_tick, SocialCandidate, SocialLogEntry, SocialSettings,
};
use sakipet::sse::SseBuffer;

fn chat_settings() -> AiSettings {
    AiSettings {
        enabled: true,
        chat_model: Some(ModelEndpointConfig { model: "m".to_string(), ..ModelEndpointConfig::default() }),
        ..AiSettings::default()
    }
}

fn pet(id: &str) -> PetCandidate {
    PetCandidate { pet_id: id.to_string(), paused: false, quiet_mode: false }
}

#[test]
fn request_ids_join_time_and_sequence() {
    assert_eq!(request_id(1700, 3), "req-1700-3");
    assert_eq!(next_scene_id(12, 5), "social-12-5");
    assert_eq!(window_scene_id(12, 5), "window-scene-12-5");
}

#[test]
fn chat_requests_are_trimmed_and_bounded() {
    assert_eq!(chat_request("  你好  ", false), Ok("你好".to_string()));
    assert_eq!(chat_request("   ", false), Err("消息不能为空且不能超过 4000 字".to_string()));
    assert_eq!(chat_request(&"a".repeat(4001), false), Err("消息不能为空且不能超过 4000 字".to_string()));
    assert_eq!(chat_request("hi", true), Err("这只宠物正在回复，请先停止当前回复".to_string()));
}

#[test]
fn chat_needs_a_named_model() {
    assert!(settings_have_chat(&chat_settings()));
    let blank = AiSettings {
        chat_model: Some(ModelEndpointConfig { model: "  ".to_string(), ..ModelEndpointConfig::default() }),
        ..chat_settings()
    };
    assert!(!settings_have_chat(&blank));
}

#[test]
fn ai_settings_are_clamped_when_saved() {
    let s = normalize_ai_settings(AiSettings {
        max_recent_messages: 100,
        heartbeat_min_minutes: 0,
        heartbeat_max_minutes: 5_000,
        ..AiSettings::default()
    });
    assert_eq!(s.max_recent_messages, 40);
    assert_eq!(s.heartbeat_min_minutes, 1);
    assert_eq!(s.heartbeat_max_minutes, 1_440);
}

#[test]
fn sorted_ids_drop_repeats() {
    let ids = vec!["b".to_string(), "a".to_string(), "b".to_string(), "c".to_string()];
    assert_eq!(sorted_ids(&ids), vec!["a".to_string(), "b".to_string(), "c".to_string()]);
}

#[test]
fn companion_round_schedules_active_pets_and_pairs() {
    let settings = chat_settings();
    let mut schedule = CompanionSchedule::new();
    let pets = vec![pet("b"), pet("a"), PetCandidate { pet_id: "c".to_string(), paused: true, quiet_mode: false }];
    let round = plan_companion_round(&mut schedule, &settings, &pets, 1_000).expect("a round");
    assert_eq!(round.candidates, vec!["a".to_string(), "b".to_string()]);
    assert_eq!(round.pair_keys, vec!["a\u{1f}b".to_string()]);
    assert_eq!(schedule.next_heartbeat.len(), 2);
    for (_, due) in &schedule.next_heartbeat {
        assert!(*due >= 1_000 + 20 * 60_000 && *due <= 1_000 + 60 * 60_000);
    }
    let kept = schedule.next_heartbeat[0].1;
    let again = plan_companion_round(&mut schedule, &settings, &pets, 2_000).expect("a round");
    assert_eq!(again.candidates.len(), 2);
    assert_eq!(schedule.next_heartbeat[0].1, kept);
}

#[test]
fn companion_round_waits_without_chat() {
    let mut schedule = CompanionSchedule::new();
    assert!(plan_companion_round(&mut schedule, &AiSettings::default(), &vec![pet("a")], 0).is_none());
}

#[test]
fn due_companions_are_picked_after_the_cooldown() {
    let settings = chat_settings();
    let mut schedule = CompanionSchedule::new();
    let pets = vec![pet("a"), pet("b")];
    let round = plan_companion_round(&mut schedule, &settings, &pets, 0).expect("a round");
    let later = 10 * 3_600_000;
    assert!(pick_conversation(&mut schedule, &settings, &round, later, later - 1_000, true).is_none());
    let start = pick_conversation(&mut schedule, &settings, &round, later, 0, true).expect("due pair");
    assert_eq!((start.first.as_str(), start.second.as_str()), ("a", "b"));
    assert_eq!(start.request_id, format!("pet-conversation-{later}"));
    assert!(schedule.next_pet_conversation[0].1 > later);
    assert!(pick_heartbeat(&mut schedule, &settings, &round, later, 0, true).is_none());
    let (pet_id, marker) = pick_heartbeat(&mut schedule, &settings, &round, later, 0, false).expect("due pet");
    assert_eq!(pet_id, "a");
    assert_eq!(marker, format!("heartbeat-{later}"));
}

#[test]
fn heartbeats_respect_recent_messages() {
    let s = chat_settings();
    assert!(heartbeat_ready(&s, false, false, None, 0, 1_000_000));
    assert!(!heartbeat_ready(&s, false, false, Some(900_000), 0, 1_000_000));
    assert!(!heartbeat_ready(&s, true, false, None, 0, 1_000_000));
    assert!(!heartbeat_ready(&s, false, false, None, 2_000_000, 1_000_000));
    assert!(!heartbeat_reply_kept("no_reply"));
    assert!(!heartbeat_reply_kept(""));
    assert!(heartbeat_reply_kept("喵"));
    assert!(fingerprint_changed(Some(1), 2));
    assert!(!fingerprint_changed(None, 2));
    assert!(vision_request("").contains("上一次观察摘要：无。"));
}

#[test]
fn silent_exchanges_store_nothing() {
    let quiet = PetBehavior::default();
    assert!(conversation_exchange("r", "a", "A", &quiet, "b", "B", &quiet, 1).is_none());
    let talk = PetBehavior { say: "你好".to_string(), ..PetBehavior::default() };
    let (first, second) = conversation_exchange("r", "a", "A", &talk, "b", "B", &quiet, 1).unwrap();
    assert_eq!(first.unwrap().id, "pet-conversation-r-a");
    assert!(second.is_none());
}

fn env_settings() -> EnvironmentSettings {
    EnvironmentSettings {
        foreground_tracking_enabled: true,
        break_reminder_enabled: true,
        break_reminder_minutes: 50,
        low_battery_enabled: true,
        low_battery_threshold: 20,
        meeting_quiet_enabled: true,
        meeting_apps: vec!["zoom".to_string()],
        coding_apps: vec!["Code".to_string()],
    }
}

fn snapshot(name: &str, battery: Option<u8>, fullscreen: bool) -> EnvironmentSnapshot {
    EnvironmentSnapshot {
        app_name: name.to_string(),
        is_fullscreen: fullscreen,
        battery_percent: battery,
        on_battery: battery.map(|_| true),
        ..EnvironmentSnapshot::default()
    }
}

#[test]
fn foreground_apps_are_classified_case_insensitively() {
    let settings = env_settings();
    let mut s = snapshot("ZOOM.us", None, false);
    classify(&mut s, &settings);
    assert_eq!(s.category, "meeting");
    let mut s = snapshot("VS code", None, false);
    classify(&mut s, &settings);
    assert_eq!(s.category, "coding");
    let mut s = snapshot("Finder", None, false);
    classify(&mut s, &settings);
    assert_eq!(s.category, "other");
    assert_eq!(platform_snapshot().session, "unsupported");
}

#[test]
fn low_battery_is_reminded_once_until_it_recovers() {
    let settings = env_settings();
    let mut state = EnvironmentState::default();
    let first = process_snapshot(&mut state, &settings, snapshot("Finder", Some(15), false), 1);
    assert!(first.low_battery_due);
    let second = process_snapshot(&mut state, &settings, snapshot("Finder", Some(12), false), 2);
    assert!(!second.low_battery_due);
    process_snapshot(&mut state, &settings, snapshot("Finder", Some(30), false), 3);
    let again = process_snapshot(&mut state, &settings, snapshot("Finder", Some(10), false), 4);
    assert!(again.low_battery_due);
}

#[test]
fn breaks_are_reminded_at_most_every_two_hours() {
    let settings = env_settings();
    let mut state = EnvironmentState::default();
    let start = 10_000_000;
    process_snapshot(&mut state, &settings, snapshot("Code", None, false), start);
    let due = process_snapshot(&mut state, &settings, snapshot("Code", None, false), start + 50 * 60_000);
    assert!(due.break_due);
    let soon = process_snapshot(&mut state, &settings, snapshot("Code", None, false), start + 100 * 60_000);
    assert!(!soon.break_due);
    let later = process_snapshot(&mut state, &settings, snapshot("Code", None, false), start + 171 * 60_000);
    assert!(later.break_due);
}

#[test]
fn fullscreen_meetings_keep_pets_quiet() {
    let settings = env_settings();
    let mut state = EnvironmentState::default();
    let out = process_snapshot(&mut state, &settings, snapshot("zoom", None, true), 1);
    assert!(out.auto_quiet);
    assert!(out.changed);
    let out = process_snapshot(&mut state, &settings, snapshot("zoom", None, false), 2);
    assert!(!out.auto_quiet);
}

#[test]
fn stream_frames_yield_their_data_lines() {
    let mut buffer = SseBuffer::new();
    let first = buffer.push_chunk(b"data: {\"a\":1}\n\ndata: [DONE]\n\ndata: par");
    assert_eq!(first, vec!["{\"a\":1}".to_string()]);
    let second = buffer.push_chunk(b"tial\r\n\r\n");
    assert_eq!(second, vec!["partial".to_string()]);
    assert!(buffer.tail_payloads().is_empty());
}

#[test]
fn stream_text_falls_back_to_the_full_response() {
    let full = Json::Object(vec![("output_text".to_string(), Json::Str("整段回复".to_string()))]);
    let mut text = StreamText::new();
    assert_eq!(text.on_tail_event(Some(&full), &ProviderKind::OpenaiResponses), None);
    assert_eq!(text.finish(None, true, &ProviderKind::OpenaiResponses), "整段回复");
}

#[test]
fn tokens_are_lowercased_runs_and_words() {
    let t = tokens("Ab c");
    assert_eq!(&t[..3], &["a".to_string(), "b".to_string(), "c".to_string()]);
    assert!(t.contains(&"ab".to_string()));
    assert!(t.contains(&"abc".to_string()));
    assert_eq!(t[t.len() - 2..].to_vec(), vec!["ab".to_string(), "c".to_string()]);
    assert_eq!(split_words("  x  yz "), vec!["x".to_string(), "yz".to_string()]);
}

#[test]
fn matching_memories_share_more_tokens() {
    let query = tokens("粉蓝色界面");
    let pink = token_overlap(&query, &tokens("用户喜欢粉蓝色"));
    let food = token_overlap(&query, &tokens("用户喜欢猫粮"));
    assert!(pink > food);
}

fn fact(id: &str, content: &str, status: &str, updated_at: u64) -> (MemoryFact, ()) {
    (
        MemoryFact {
            id: id.to_string(),
            content: content.to_string(),
            kind: "fact".to_string(),
            scope: "pet".to_string(),
            created_at: 0,
            updated_at,
            status: status.to_string(),
            expires_at: None,
        },
        (),
    )
}

#[test]
fn memory_log_replays_latest_records_newest_first() {
    let records = vec![
        fact("a", "旧", "active", 1),
        fact("b", "猫", "active", 5),
        fact("a", "新", "active", 3),
        fact("c", "走了", "active", 9),
        fact("c", "", "deleted", 10),
        fact("", "无名", "active", 99),
    ];
    let loaded = load_memories(records, 100);
    let contents: Vec<&str> = loaded.iter().map(|(f, _)| f.content.as_str()).collect();
    assert_eq!(contents, vec!["猫", "新"]);
}

#[test]
fn extracted_operations_are_validated() {
    let op = memory_operation(&Json::Object(vec![
        ("action".to_string(), Json::Str("forget".to_string())),
        ("content".to_string(), Json::Str("  喜欢猫  ".to_string())),
    ]))
    .expect("valid forget");
    assert_eq!(op.target, "喜欢猫");
    assert!(memory_operation(&Json::Object(vec![("action".to_string(), Json::Str("drop".to_string()))])).is_none());
    let temp = memory_operation(&Json::Object(vec![
        ("content".to_string(), Json::Str("今天累了".to_string())),
        ("kind".to_string(), Json::Str("temporary".to_string())),
    ]))
    .unwrap();
    let stored = memory_from_operation(&temp, None, 1_000, 7);
    assert_eq!(stored.id, "memory-1000-7");
    assert_eq!(stored.expires_at, Some(1_000 + 48 * 3_600_000));
}

#[test]
fn shared_memories_skip_repeats_and_list_active_facts() {
    let mut facts = vec![fact("a", "喜欢蓝色", "active", 1)];
    assert!(!append_shared_memory(&mut facts, fact("b", "喜欢蓝色", "active", 2)));
    assert!(append_shared_memory(&mut facts, fact("c", "喜欢猫", "active", 2)));
    assert_eq!(load_profile(&facts), "- 喜欢蓝色\n- 喜欢猫");
    assert_eq!(store_target(&fact("x", " ", "active", 0).0, &facts), StoreTarget::Skip);
    assert_eq!(store_target(&fact("x", "喜欢猫", "active", 0).0, &facts), StoreTarget::Skip);
    assert_eq!(store_target(&fact("x", "新事", "active", 0).0, &facts), StoreTarget::PetLog);
    assert!(edit_memory(fact("", "x", "active", 0).0, 1).is_err());
}

#[test]
fn relationships_load_under_the_canonical_key() {
    let rel = load_relationship("saki", "anon", None, 42).expect("valid pair");
    assert_eq!(rel.pair_id, "anon--saki");
    assert_eq!(rel.known_since, 42);
    assert_eq!(pair_key("a", "a"), Err("无效的宠物组合".to_string()));
    let legacy = Json::Object(vec![
        ("affinity".to_string(), Json::Number(Some(150))),
        ("interactionCount".to_string(), Json::Number(Some(4))),
        ("unlockedMilestones".to_string(), Json::Array(vec![Json::Str("first-meet".to_string()), Json::Null])),
    ]);
    let migrated = migrate_legacy_relationship("b", "a", &legacy, 7).unwrap();
    assert_eq!(migrated.affinity, 100);
    assert_eq!(migrated.level, 5);
    assert_eq!(migrated.interaction_count, 4);
    assert_eq!(migrated.unlocked_milestones, vec!["first-meet".to_string()]);
    assert!(migrate_legacy_relationship("b", "a", &Json::Object(Vec::new()), 7).is_none());
}

fn candidate(id: &str, monitor: &str) -> SocialCandidate {
    SocialCandidate { pet_id: id.to_string(), monitor_key: monitor.to_string() }
}

#[test]
fn scenes_gather_pets_on_one_monitor() {
    let available = vec![candidate("c", "m1"), candidate("a", "m2"), candidate("b", "m2")];
    assert_eq!(choose_candidates(&available, &Vec::new(), 4, &Vec::new()), Ok(vec![1, 2]));
    let requested = vec!["a".to_string()];
    assert_eq!(choose_candidates(&available, &requested, 4, &vec![0, 2, 1]), Ok(vec![1, 2]));
    let requested = vec!["a".to_string(), "c".to_string()];
    assert_eq!(
        choose_candidates(&available, &requested, 4, &Vec::new()),
        Err("宠物需要位于同一块屏幕才能互动".to_string())
    );
    assert_eq!(
        choose_candidates(&available, &vec!["z".to_string()], 4, &Vec::new()),
        Err("至少需要两只可见且未暂停的宠物".to_string())
    );
}

#[test]
fn proximity_cooldown_blocks_the_pair_for_a_while() {
    let mut cooldowns = Vec::new();
    assert!(claim_proximity_cooldown(&mut cooldowns, "a", "b", 1_000));
    assert!(!claim_proximity_cooldown(&mut cooldowns, "b", "a", 20_000));
    assert!(claim_proximity_cooldown(&mut cooldowns, "b", "a", 31_000));
    assert!(!claim_proximity_cooldown(&mut cooldowns, "a", "a", 0));
}

#[test]
fn social_settings_and_scheduler() {
    let s = normalize_social_settings(SocialSettings { min_interval_minutes: 500, max_interval_minutes: 1, max_participants: 9, ..SocialSettings::default() });
    assert_eq!((s.min_interval_minutes, s.max_interval_minutes, s.max_participants), (120, 120, 4));
    let settings = SocialSettings::default();
    let mut next = 0;
    assert!(!social_scheduler_tick(&mut next, &settings, 1_000));
    assert!(next >= 1_000 + 3 * 60_000 && next <= 1_000 + 10 * 60_000);
    assert!(!social_scheduler_tick(&mut next, &settings, 2_000));
    let due_at = next;
    assert!(social_scheduler_tick(&mut next, &settings, due_at));
    assert!(next > due_at);
    assert_eq!(manual_request(false, None, None), Err("手动宠物社交已关闭".to_string()));
    assert_eq!(
        manual_request(true, Some(String::new()), Some(vec!["b".to_string()])),
        Ok(vec!["b".to_string()])
    );
}

fn log(id: &str, timestamp: u64, participants: &[&str], kind: &str) -> SocialLogEntry {
    SocialLogEntry {
        id: id.to_string(),
        timestamp,
        participants: participants.iter().map(|p| p.to_string()).collect(),
        interaction_type: kind.to_string(),
        trigger: "manual".to_string(),
        prop: None,
        dialogue: Vec::new(),
        milestones: Vec::new(),
        outcome: "completed".to_string(),
    }
}

#[test]
fn social_log_is_filtered_newest_first() {
    let entries = vec![log("1", 10, &["a", "b"], "greet"), log("2", 20, &["b", "c"], "chase"), log("3", 30, &["a", "c"], "greet")];
    let ids: Vec<String> = get_social_log(&entries, Some("a"), None, None, None, None).into_iter().map(|e| e.id).collect();
    assert_eq!(ids, vec!["3".to_string(), "1".to_string()]);
    let ids: Vec<String> = get_social_log(&entries, None, None, Some("greet"), Some(15), None).into_iter().map(|e| e.id).collect();
    assert_eq!(ids, vec!["3".to_string()]);
}

#[test]
fn scenes_play_their_beats_and_record_every_pair() {
    let beats = scene_beats("greet", false);
    assert_eq!(beats.iter().map(|b| b.phase).collect::<Vec<_>>(), vec!["face", "interaction", "settle"]);
    assert_eq!(scene_beats("chase", false)[0].hold_ms, 900);
    assert_eq!(scene_pairs(3), vec![(0, 1), (0, 2), (1, 2)]);
}

#[test]
fn window_scene_requests_are_checked_in_order() {
    assert_eq!(window_scene_refusal("bad id!", "crawl", true, true, false, false, true), Some("无效的窗口互动参数".to_string()));
    assert_eq!(window_scene_refusal("pet-1", "sit", true, false, false, false, true), Some("请先在这只宠物的独立设置中开启窗口互动".to_string()));
    assert_eq!(window_scene_refusal("pet-1", "sit", true, true, false, false, true), None);
    assert_eq!(open_permission_settings("camera"), Err("无效的权限类型".to_string()));
}

#[test]
fn touches_by_other_pets_are_tackles() {
    assert_eq!(classify_touch(2, Some(1), 0, true), TouchKind::Tackle);
    assert_eq!(classify_touch(1, None, 0, true), TouchKind::Shoot);
}

#[test]
fn scene_json_skips_braces_inside_strings_and_trailing_prose() {
    let reply = "  Sure! {\"scene\":\"chat\",\"say\":\"a } brace\"} and more }  ";
    let candidates = scene_json_candidates(reply);
    assert_eq!(candidates.len(), 2);
    assert_eq!(candidates[0], reply.trim());
    assert_eq!(candidates[1], "{\"scene\":\"chat\",\"say\":\"a } brace\"}");
}

#[test]
fn scene_json_without_a_closed_object_offers_only_the_trimmed_reply() {
    assert_eq!(scene_json_candidates(" {\"scene\": "), vec!["{\"scene\":".to_string()]);
    assert_eq!(scene_json_candidates("no json"), vec!["no json".to_string()]);
}

#[test]
fn scene_json_handles_escaped_quotes_and_nesting() {
    let reply = "x {\"a\":{\"b\":\"q\\\"}\"}} y";
    let candidates = scene_json_candidates(reply);
    assert_eq!(candidates[1], "{\"a\":{\"b\":\"q\\\"}\"}}");
}

#[test]
fn recall_keeps_the_best_scores_and_the_storage_order_of_ties() {
    assert_eq!(top_ranked(&vec![3, 9, 3, 7, 9], 3), vec![1, 4, 3]);
    assert_eq!(top_ranked(&vec![5, 5, 5], 8), vec![0, 1, 2]);
    assert_eq!(top_ranked(&vec![1, 2], 0), Vec::<usize>::new());
    assert_eq!(top_ranked(&vec![], 8), Vec::<usize>::new());
}

#[test]
fn recall_takes_at_most_eight_facts() {
    let keys: Vec<u64> = (0..12).collect();
    assert_eq!(top_ranked(&keys, MAX_RECALLED_MEMORIES), vec![11, 10, 9, 8, 7, 6, 5, 4]);
}

#[test]
fn a_stored_feeling_at_the_top_of_its_range_has_no_room() {
    let mut rel = new_relationship(5);
    assert!(relationship_has_room(&rel));
    let mut feelings = DirectionalFeelings::new();
    feelings.fondness = 32764;
    rel.directional.push(DirectionalEntry { pet_id: "a".to_string(), feelings });
    assert!(relationship_has_room(&rel));
    feelings.fondness = 32765;
    rel.directional.push(DirectionalEntry { pet_id: "b".to_string(), feelings });
    assert!(!relationship_has_room(&rel));
}

#[test]
fn stream_events_do_not_depend_on_chunking() {
    let text = "data: one\n\ndata: two\nid: 3\n\ndata: [DONE]\n\ndata: tail";
    let mut whole = SseBuffer::new();
    let all_at_once = whole.push_chunk(text.as_bytes());
    for cut in 0..text.len() {
        let mut split = SseBuffer::new();
        let mut events = split.push_chunk(&text.as_bytes()[..cut]);
        events.extend(split.push_chunk(&text.as_bytes()[cut..]));
        assert_eq!(events, all_at_once);
        assert_eq!(split.tail_trimmed(), whole.tail_trimmed());
    }
    assert_eq!(all_at_once, vec!["one".to_string(), "two".to_string()]);
    assert_eq!(whole.tail_payloads(), vec!["tail".to_string()]);
}

#[test]
fn a_fetched_ball_goes_back_and_forth_twice() {
    assert_eq!(prop_pass_schedule("fetch", "football", 3), vec![(0, 1), (1, 2)]);
    assert_eq!(prop_pass_schedule("fetch", "football", 2), vec![(0, 1), (1, 0)]);
}

#[test]
fn a_passed_ball_goes_round_the_group_twice() {
    assert_eq!(prop_pass_schedule("pass", "football", 3), vec![(0, 1), (1, 2), (2, 0), (0, 1), (1, 2), (2, 0)]);
    assert_eq!(prop_pass_schedule("pass", "football", 1), Vec::<(usize, usize)>::new());
}

#[test]
fn a_tugged_plush_changes_hands_six_times_and_a_snack_visits_everyone() {
    assert_eq!(prop_pass_schedule("tug", "plush", 2), vec![(0, 1), (1, 0), (0, 1), (1, 0), (0, 1), (1, 0)]);
    assert_eq!(prop_pass_schedule("toy-scramble", "ribbon", 2).len(), 4);
    assert_eq!(prop_pass_schedule("share-snack", "snack", 3), vec![(0, 0), (1, 1), (2, 2)]);
    assert_eq!(prop_pass_schedule("greet", "kite", 3), Vec::<(usize, usize)>::new());
}

#[test]
fn request_ids_differ_when_the_clock_or_the_counter_differs() {
    assert_eq!(request_id(12, 3), "req-12-3");
    assert_ne!(request_id(1, 23), request_id(12, 3));
    assert_ne!(request_id(5, 1), request_id(5, 2));
}

#[test]
fn catalogue_names_and_validated_props_name_themselves() {
    for name in ["greet", "kick-and-chase", "fetch", "share-snack"] {
        assert_eq!(valid_scene(name, 2), Some(name.to_string()));
    }
    assert_eq!(valid_scene("group-pile", 3), Some("group-pile".to_string()));
    for raw in [" Ball ", "toy", "snack", "RIBBON"] {
        let prop = valid_prop(Some(raw)).unwrap();
        assert_eq!(valid_prop(Some(&prop)), Some(prop.clone()));
    }
}
