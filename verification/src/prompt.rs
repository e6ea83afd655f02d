//! The system prompts sent to the chat model: a pet's own context, and the
//! request for a pet-to-pet exchange.

use vstd::prelude::*;
use crate::life::PetLifeState;
use crate::text::{chars_of, decimal, decimal_chars, push_all, push_str_chars, string_of};

verus! {

/// The parts of a character card that go into a prompt. Notes meant for the
/// card's creator are not among them.
#[derive(Debug)]
pub struct CardPrompt {
    pub system_prompt: String,
    pub description: String,
    pub personality: String,
    pub scenario: String,
    pub mes_example: String,
    pub first_mes: String,
    pub post_history_instructions: String,
}

pub open spec fn safety_header() -> Seq<char> {
    "你是 SakiPet 桌面宠物。你只能进行聊天和陪伴，不执行文件、Shell、系统控制或网络工具。\n\n"@
}

pub open spec fn reply_rules() -> Seq<char> {
    "回复要求：使用自然简短的中文，保持角色语气。只返回 JSON，不要 Markdown 或解释，格式为 {\"say\":\"要说的话\",\"action\":\"idle|waving|jumping|waiting|review|walk|sleep\",\"mood\":\"当前心情\",\"look\":\"up|up-right|right|down-right|down|down-left|left|up-left|null\",\"duration\":5200,\"nextActionAfter\":1800}。普通聊天优先使用 idle，只有确实适合时才选择动作；不要凭空描述用户没有提供或观察到的事实。"@
}

/// A labelled section, left out when its text is empty.
pub open spec fn section(label: Seq<char>, value: Seq<char>) -> Seq<char> {
    if value.len() == 0 { Seq::empty() } else { "\n"@ + label + "：\n"@ + value + "\n"@ }
}

/// The card's part of the prompt: its system prompt, then its labelled
/// descriptions.
pub open spec fn card_part(card: CardPrompt) -> Seq<char> {
    (if card.system_prompt@.len() == 0 { Seq::empty() } else { card.system_prompt@ + "\n"@ })
        + section("角色描述"@, card.description@)
        + section("性格"@, card.personality@)
        + section("场景"@, card.scenario@)
        + section("对话示例"@, card.mes_example@)
        + section("初始问候"@, card.first_mes@)
}

/// One listed memory: `- [kind] content`.
pub open spec fn memory_line(m: (String, String)) -> Seq<char> {
    "- ["@ + m.0@ + "] "@ + m.1@ + "\n"@
}

pub open spec fn memory_lines(ms: Seq<(String, String)>) -> Seq<char>
    decreases ms.len(),
{
    if ms.len() == 0 { Seq::empty() } else { memory_lines(ms.drop_last()) + memory_line(ms.last()) }
}

/// Lore, shared profile, at most eight memories and the summary, each only
/// when present.
pub open spec fn context_part(lore: Seq<char>, profile: Seq<char>, memories: Seq<(String, String)>, summary: Seq<char>) -> Seq<char> {
    (if lore.len() == 0 { Seq::empty() } else { "\n相关世界书：\n"@ + lore })
        + (if profile.len() == 0 { Seq::empty() } else { "\n共享用户资料：\n"@ + profile + "\n"@ })
        + (if memories.len() == 0 {
            Seq::empty()
        } else {
            "\n关于你们共同经历的记忆（关系记忆优先）：\n"@ + memory_lines(if memories.len() > 8 { memories.take(8) } else { memories })
        })
        + (if summary.len() == 0 { Seq::empty() } else { "\n较早对话摘要：\n"@ + summary + "\n"@ })
}

/// Whole days since the pet met the user, counting the first day.
pub open spec fn known_days(now: u64, known_since: u64) -> nat {
    (if now >= known_since { ((now - known_since) / 86_400_000) as nat } else { 0 }) + 1
}

/// The pet's id and its current state.
pub open spec fn state_part(pet_id: Seq<char>, s: PetLifeState, now: u64) -> Seq<char> {
    "\n当前宠物 ID："@ + pet_id + "\n当前宠物状态：\n- 心情："@ + s.mood@ + "\n- 精力："@ + decimal(s.energy as nat)
        + " / 100\n- 注意力："@ + decimal(s.attention as nat) + " / 100\n- 亲密度："@ + decimal(s.bond as nat)
        + " / 100\n- 当前活动："@ + s.activity@ + "\n- 认识用户："@ + decimal(known_days(now, s.known_since)) + " 天\n- 总互动次数："@
        + decimal(s.interaction_count as nat) + "\n- 聊天次数："@ + decimal(s.chat_count as nat) + "\n- 与其他宠物互动次数："@
        + decimal(s.pet_interaction_count as nat) + "\n"@
}

/// A pet's system prompt: the app's safety rules first, then the card, the
/// context, the state, the reply format, and the card's post-history
/// instructions last.
pub open spec fn spec_prompt(card: CardPrompt, pet_id: Seq<char>, profile: Seq<char>, memories: Seq<(String, String)>, summary: Seq<char>, lore: Seq<char>, state: PetLifeState, now: u64) -> Seq<char> {
    safety_header() + card_part(card) + context_part(lore, profile, memories, summary) + state_part(pet_id, state, now) + reply_rules()
        + (if card.post_history_instructions@.len() == 0 { Seq::empty() } else { "\n\n历史后指令：\n"@ + card.post_history_instructions@ })
}

/// The text the card's lorebook is searched with: the query, then the
/// summary.
pub fn lore_query(query: &str, summary: &str) -> (r: String)
    ensures
        r@ == query@ + "\n"@ + summary@,
{
    let mut v = chars_of(query);
    push_str_chars(&mut v, "\n");
    push_str_chars(&mut v, summary);
    string_of(&v)
}

fn push_section(out: &mut Vec<char>, label: &str, value: &String)
    ensures
        final(out)@ == old(out)@ + section(label@, value@),
{
    if value.as_str().is_empty() {
        assert(old(out)@ + Seq::<char>::empty() =~= old(out)@);
        return;
    }
    let ghost before = out@;
    push_str_chars(out, "\n");
    push_str_chars(out, label);
    push_str_chars(out, "：\n");
    push_str_chars(out, value.as_str());
    push_str_chars(out, "\n");
    assert(out@ =~= before + section(label@, value@));
}

fn card_text(card: &CardPrompt) -> (r: Vec<char>)
    ensures
        r@ == card_part(*card),
{
    let mut v: Vec<char> = Vec::new();
    if !card.system_prompt.as_str().is_empty() {
        push_str_chars(&mut v, card.system_prompt.as_str());
        push_str_chars(&mut v, "\n");
    }
    let ghost head = v@;
    assert(head =~= (if card.system_prompt@.len() == 0 { Seq::empty() } else { card.system_prompt@ + "\n"@ }));
    push_section(&mut v, "角色描述", &card.description);
    push_section(&mut v, "性格", &card.personality);
    push_section(&mut v, "场景", &card.scenario);
    push_section(&mut v, "对话示例", &card.mes_example);
    push_section(&mut v, "初始问候", &card.first_mes);
    assert(v@ =~= card_part(*card));
    v
}

fn memory_text(ms: &Vec<(String, String)>, n: usize) -> (r: Vec<char>)
    requires
        n <= ms.len(),
    ensures
        r@ == memory_lines(ms@.take(n as int)),
{
    let mut v: Vec<char> = Vec::new();
    let mut i: usize = 0;
    assert(ms@.take(0) =~= Seq::<(String, String)>::empty());
    while i < n
        invariant
            i <= n <= ms.len(),
            v@ == memory_lines(ms@.take(i as int)),
        decreases n - i,
    {
        assert(ms@.take(i + 1).drop_last() =~= ms@.take(i as int));
        assert(ms@.take(i + 1).last() == ms@[i as int]);
        let ghost before = v@;
        push_str_chars(&mut v, "- [");
        push_str_chars(&mut v, ms[i].0.as_str());
        push_str_chars(&mut v, "] ");
        push_str_chars(&mut v, ms[i].1.as_str());
        push_str_chars(&mut v, "\n");
        assert(v@ =~= before + memory_line(ms@[i as int]));
        i = i + 1;
    }
    v
}

fn context_text(lore: &str, profile: &str, memories: &Vec<(String, String)>, summary: &str) -> (r: Vec<char>)
    ensures
        r@ == context_part(lore@, profile@, memories@, summary@),
{
    let mut v: Vec<char> = Vec::new();
    let l = chars_of(lore);
    if l.len() > 0 {
        push_str_chars(&mut v, "\n相关世界书：\n");
        push_all(&mut v, &l);
    }
    let ghost a = v@;
    let p = chars_of(profile);
    if p.len() > 0 {
        push_str_chars(&mut v, "\n共享用户资料：\n");
        push_all(&mut v, &p);
        push_str_chars(&mut v, "\n");
    }
    let ghost b = v@;
    if memories.len() > 0 {
        push_str_chars(&mut v, "\n关于你们共同经历的记忆（关系记忆优先）：\n");
        let n = if memories.len() > 8 { 8 } else { memories.len() };
        let m = memory_text(memories, n);
        push_all(&mut v, &m);
        assert(memories@.take(n as int) =~= (if memories@.len() > 8 { memories@.take(8) } else { memories@ }));
    }
    let ghost c = v@;
    let s = chars_of(summary);
    if s.len() > 0 {
        push_str_chars(&mut v, "\n较早对话摘要：\n");
        push_all(&mut v, &s);
        push_str_chars(&mut v, "\n");
    }
    assert(v@ =~= context_part(lore@, profile@, memories@, summary@));
    v
}

fn push_number(out: &mut Vec<char>, n: u64)
    ensures
        final(out)@ == old(out)@ + decimal(n as nat),
{
    let d = decimal_chars(n);
    push_all(out, &d);
}

fn state_text(pet_id: &str, s: &PetLifeState, now: u64) -> (r: Vec<char>)
    ensures
        r@ == state_part(pet_id@, *s, now),
{
    let mut v: Vec<char> = Vec::new();
    push_str_chars(&mut v, "\n当前宠物 ID：");
    push_str_chars(&mut v, pet_id);
    push_str_chars(&mut v, "\n当前宠物状态：\n- 心情：");
    push_str_chars(&mut v, s.mood.as_str());
    push_str_chars(&mut v, "\n- 精力：");
    push_number(&mut v, s.energy as u64);
    push_str_chars(&mut v, " / 100\n- 注意力：");
    push_number(&mut v, s.attention as u64);
    push_str_chars(&mut v, " / 100\n- 亲密度：");
    push_number(&mut v, s.bond as u64);
    push_str_chars(&mut v, " / 100\n- 当前活动：");
    push_str_chars(&mut v, s.activity.as_str());
    push_str_chars(&mut v, "\n- 认识用户：");
    let days = (if now >= s.known_since { (now - s.known_since) / 86_400_000 } else { 0 }) + 1;
    push_number(&mut v, days);
    push_str_chars(&mut v, " 天\n- 总互动次数：");
    push_number(&mut v, s.interaction_count);
    push_str_chars(&mut v, "\n- 聊天次数：");
    push_number(&mut v, s.chat_count);
    push_str_chars(&mut v, "\n- 与其他宠物互动次数：");
    push_number(&mut v, s.pet_interaction_count);
    push_str_chars(&mut v, "\n");
    assert(v@ =~= state_part(pet_id@, *s, now));
    v
}

/// A pet's system prompt; `lore` is what the card's lorebook gives for the
/// lore query.
pub fn prompt_for(card: &CardPrompt, pet_id: &str, profile: &str, memories: &Vec<(String, String)>, summary: &str, lore: &str, state: &PetLifeState, now: u64) -> (r: String)
    ensures
        r@ == spec_prompt(*card, pet_id@, profile@, memories@, summary@, lore@, *state, now),
{
    let mut v = chars_of("你是 SakiPet 桌面宠物。你只能进行聊天和陪伴，不执行文件、Shell、系统控制或网络工具。\n\n");
    let c = card_text(card);
    push_all(&mut v, &c);
    let x = context_text(lore, profile, memories, summary);
    push_all(&mut v, &x);
    let st = state_text(pet_id, state, now);
    push_all(&mut v, &st);
    push_str_chars(&mut v, "回复要求：使用自然简短的中文，保持角色语气。只返回 JSON，不要 Markdown 或解释，格式为 {\"say\":\"要说的话\",\"action\":\"idle|waving|jumping|waiting|review|walk|sleep\",\"mood\":\"当前心情\",\"look\":\"up|up-right|right|down-right|down|down-left|left|up-left|null\",\"duration\":5200,\"nextActionAfter\":1800}。普通聊天优先使用 idle，只有确实适合时才选择动作；不要凭空描述用户没有提供或观察到的事实。");
    let ghost before = v@;
    if !card.post_history_instructions.as_str().is_empty() {
        push_str_chars(&mut v, "\n\n历史后指令：\n");
        push_str_chars(&mut v, card.post_history_instructions.as_str());
    }
    assert(v@ =~= spec_prompt(*card, pet_id@, profile@, memories@, summary@, lore@, *state, now));
    string_of(&v)
}

pub open spec fn exchange_intro() -> Seq<char> {
    "应用约束：你只能生成桌面宠物之间的简短对话和陪伴行为，不执行文件、Shell、系统控制或网络工具。不要把用户没有提供的事实当成事实。\n\n现在请安排两只宠物进行一次自然、轻松的短对话。它们都是真实存在于桌面上的独立角色，不要让一只替另一只说话，也不要提及模型、提示词或 JSON。每只最多说一句，允许其中一只保持安静；内容应该和它们当前的关系、状态或日常陪伴有关，不要连续打扰用户。\n\n"@
}

pub open spec fn exchange_format() -> Seq<char> {
    "只返回 JSON，不要 Markdown，格式为：{\"first\":{\"say\":\"A 的台词\",\"action\":\"idle|waving|jumping|waiting|review|walk|sleep\",\"mood\":\"心情\",\"look\":\"up|up-right|right|down-right|down|down-left|left|up-left|null\",\"duration\":5200,\"nextActionAfter\":1800},\"second\":{\"say\":\"B 的台词\",\"action\":\"idle|waving|jumping|waiting|review|walk|sleep\",\"mood\":\"心情\",\"look\":\"up|up-right|right|down-right|down|down-left|left|up-left|null\",\"duration\":5200,\"nextActionAfter\":1800}}。"@
}

/// The request for a pet-to-pet exchange, embedding each pet's own context
/// (built without a summary).
pub open spec fn spec_exchange_prompt(first_id: Seq<char>, first_name: Seq<char>, first_context: Seq<char>, second_id: Seq<char>, second_name: Seq<char>, second_context: Seq<char>) -> Seq<char> {
    exchange_intro() + "宠物 A（"@ + first_name + "，id: "@ + first_id + "）的角色上下文：\n"@ + first_context + "\n\n宠物 B（"@
        + second_name + "，id: "@ + second_id + "）的角色上下文：\n"@ + second_context + "\n\n"@ + exchange_format()
}

/// The prompt of a pet-to-pet exchange; each pet's lore is what its card's
/// lorebook gives for the exchange query.
pub fn pet_conversation_prompt(
    profile: &str,
    first_id: &str,
    first_name: &str,
    first_card: &CardPrompt,
    first_memories: &Vec<(String, String)>,
    first_lore: &str,
    first_state: &PetLifeState,
    second_id: &str,
    second_name: &str,
    second_card: &CardPrompt,
    second_memories: &Vec<(String, String)>,
    second_lore: &str,
    second_state: &PetLifeState,
    now: u64,
) -> (r: String)
    ensures
        r@ == spec_exchange_prompt(
            first_id@,
            first_name@,
            spec_prompt(*first_card, first_id@, profile@, first_memories@, Seq::empty(), first_lore@, *first_state, now),
            second_id@,
            second_name@,
            spec_prompt(*second_card, second_id@, profile@, second_memories@, Seq::empty(), second_lore@, *second_state, now),
        ),
{
    let first = prompt_for(first_card, first_id, profile, first_memories, "", first_lore, first_state, now);
    let second = prompt_for(second_card, second_id, profile, second_memories, "", second_lore, second_state, now);
    proof {
        reveal_strlit("");
    }
    let mut v = chars_of("应用约束：你只能生成桌面宠物之间的简短对话和陪伴行为，不执行文件、Shell、系统控制或网络工具。不要把用户没有提供的事实当成事实。\n\n现在请安排两只宠物进行一次自然、轻松的短对话。它们都是真实存在于桌面上的独立角色，不要让一只替另一只说话，也不要提及模型、提示词或 JSON。每只最多说一句，允许其中一只保持安静；内容应该和它们当前的关系、状态或日常陪伴有关，不要连续打扰用户。\n\n");
    push_str_chars(&mut v, "宠物 A（");
    push_str_chars(&mut v, first_name);
    push_str_chars(&mut v, "，id: ");
    push_str_chars(&mut v, first_id);
    push_str_chars(&mut v, "）的角色上下文：\n");
    push_str_chars(&mut v, first.as_str());
    push_str_chars(&mut v, "\n\n宠物 B（");
    push_str_chars(&mut v, second_name);
    push_str_chars(&mut v, "，id: ");
    push_str_chars(&mut v, second_id);
    push_str_chars(&mut v, "）的角色上下文：\n");
    push_str_chars(&mut v, second.as_str());
    push_str_chars(&mut v, "\n\n");
    push_str_chars(&mut v, "只返回 JSON，不要 Markdown，格式为：{\"first\":{\"say\":\"A 的台词\",\"action\":\"idle|waving|jumping|waiting|review|walk|sleep\",\"mood\":\"心情\",\"look\":\"up|up-right|right|down-right|down|down-left|left|up-left|null\",\"duration\":5200,\"nextActionAfter\":1800},\"second\":{\"say\":\"B 的台词\",\"action\":\"idle|waving|jumping|waiting|review|walk|sleep\",\"mood\":\"心情\",\"look\":\"up|up-right|right|down-right|down|down-left|left|up-left|null\",\"duration\":5200,\"nextActionAfter\":1800}}。");
    assert(v@ =~= spec_exchange_prompt(first_id@, first_name@, first@, second_id@, second_name@, second@));
    string_of(&v)
}

/// The app's own rules come before anything a character card says: every
/// prompt starts with them.
pub proof fn law_safety_rules_first(card: CardPrompt, pet_id: Seq<char>, profile: Seq<char>, memories: Seq<(String, String)>, summary: Seq<char>, lore: Seq<char>, state: PetLifeState, now: u64)
    ensures
        spec_prompt(card, pet_id, profile, memories, summary, lore, state, now).take(safety_header().len() as int) == safety_header(),
{
    let p = spec_prompt(card, pet_id, profile, memories, summary, lore, state, now);
    assert(p.take(safety_header().len() as int) =~= safety_header());
}

} // verus!
