//! Chat messages: ids, the history window sent to a model, pet-to-pet
//! exchanges and the relationship memory each pet keeps of them.

use vstd::prelude::*;
use crate::behavior::PetBehavior;
use crate::text::{chars_eq, chars_eq_str, chars_of, decimal, decimal_chars, push_all, push_str_chars, string_of, trim};

verus! {

/// One message of a pet's chat history.
#[derive(Clone, Debug)]
pub struct ChatMessage {
    pub id: String,
    pub role: String,
    pub content: String,
    pub timestamp: u64,
    pub source: String,
    pub vision_summary: Option<String>,
    pub speaker_pet_id: Option<String>,
    pub speaker_name: Option<String>,
}

pub fn copy_opt(o: &Option<String>) -> (r: Option<String>)
    ensures
        r == *o,
{
    match o {
        Some(s) => Some(s.clone()),
        None => None,
    }
}

impl ChatMessage {
    /// An identical copy.
    pub fn duplicate(&self) -> (r: Self)
        ensures
            r == *self,
    {
        ChatMessage {
            id: self.id.clone(),
            role: self.role.clone(),
            content: self.content.clone(),
            timestamp: self.timestamp,
            source: self.source.clone(),
            vision_summary: copy_opt(&self.vision_summary),
            speaker_pet_id: copy_opt(&self.speaker_pet_id),
            speaker_name: copy_opt(&self.speaker_name),
        }
    }
}

/// `prefix` followed by the decimal renderings of `a` and `b`, each
/// preceded by `-`.
pub open spec fn numbered_id(prefix: Seq<char>, a: u64, b: u64) -> Seq<char> {
    prefix + "-"@ + decimal(a as nat) + "-"@ + decimal(b as nat)
}

pub fn numbered_id_exec(prefix: &str, a: u64, b: u64) -> (r: String)
    ensures
        r@ == numbered_id(prefix@, a, b),
{
    let mut v: Vec<char> = Vec::new();
    push_str_chars(&mut v, prefix);
    push_str_chars(&mut v, "-");
    let x = decimal_chars(a);
    push_all(&mut v, &x);
    push_str_chars(&mut v, "-");
    let y = decimal_chars(b);
    push_all(&mut v, &y);
    assert(v@ =~= numbered_id(prefix@, a, b));
    string_of(&v)
}

/// The id of a chat request started at `now_ms` as the `sequence`-th
/// request of this run: `req-<now>-<sequence>`.
pub fn request_id(now_ms: u64, sequence: u64) -> (r: String)
    ensures
        r@ == numbered_id("req"@, now_ms, sequence),
{
    numbered_id_exec("req", now_ms, sequence)
}

/// An id of the form `prefix-a-b` gives back its two numbers: two ids with
/// the same prefix are equal only for the same numbers.
pub proof fn lemma_numbered_id_injective(prefix: Seq<char>, a: u64, b: u64, c: u64, d: u64)
    requires
        numbered_id(prefix, a, b) == numbered_id(prefix, c, d),
    ensures
        a == c && b == d,
{
    reveal_strlit("-");
    let x = decimal(a as nat);
    let y = decimal(b as nat);
    let z = decimal(c as nat);
    let w = decimal(d as nat);
    crate::text::lemma_decimal_digits(a as nat);
    crate::text::lemma_decimal_digits(c as nat);
    let k: int = prefix.len() as int + 1;
    let left = numbered_id(prefix, a, b).skip(k);
    let right = numbered_id(prefix, c, d).skip(k);
    assert(left =~= x + "-"@ + y);
    assert(right =~= z + "-"@ + w);
    assert(left == right);
    if x.len() < z.len() {
        assert(left[x.len() as int] == '-');
        assert(right[x.len() as int] == z[x.len() as int]);
    } else if z.len() < x.len() {
        assert(right[z.len() as int] == '-');
        assert(left[z.len() as int] == x[z.len() as int]);
    }
    assert(x.len() == z.len());
    assert(left.take(x.len() as int) =~= x);
    assert(right.take(z.len() as int) =~= z);
    crate::text::lemma_decimal_injective(a as nat, c as nat);
    assert(left.skip(x.len() + 1int) =~= y);
    assert(right.skip(z.len() + 1int) =~= w);
    crate::text::lemma_decimal_injective(b as nat, d as nat);
}

/// Requests started at different clock readings, or with different
/// sequence numbers, get different ids: a run that numbers its requests
/// from an increasing counter never hands out one id twice.
pub proof fn law_request_ids_distinct(now1: u64, seq1: u64, now2: u64, seq2: u64)
    requires
        now1 != now2 || seq1 != seq2,
    ensures
        numbered_id("req"@, now1, seq1) != numbered_id("req"@, now2, seq2),
{
    if numbered_id("req"@, now1, seq1) == numbered_id("req"@, now2, seq2) {
        lemma_numbered_id_injective("req"@, now1, seq1, now2, seq2);
    }
}

/// The messages sent to the model: the last `max(max_recent, 2)` ones.
pub open spec fn spec_history_window(messages: Seq<ChatMessage>, max_recent: nat) -> Seq<ChatMessage> {
    let keep = if max_recent < 2 { 2 } else { max_recent };
    let start = if messages.len() > keep { messages.len() - keep } else { 0 };
    messages.skip(start)
}

pub fn history_for_prompt(messages: &Vec<ChatMessage>, max_recent: usize) -> (r: Vec<ChatMessage>)
    ensures
        r@ == spec_history_window(messages@, max_recent as nat),
{
    let keep = if max_recent < 2 { 2 } else { max_recent };
    let start = messages.len().saturating_sub(keep);
    let mut r: Vec<ChatMessage> = Vec::new();
    let mut i = start;
    while i < messages.len()
        invariant
            start <= i <= messages.len(),
            r@ == messages@.subrange(start as int, i as int),
        decreases messages.len() - i,
    {
        r.push(messages[i].duplicate());
        i = i + 1;
        assert(r@ =~= messages@.subrange(start as int, i as int));
    }
    assert(r@ =~= spec_history_window(messages@, max_recent as nat));
    r
}

/// The message a pet's line in a pet-to-pet exchange is stored as.
pub open spec fn conversation_message_ok(
    m: ChatMessage,
    request_id: Seq<char>,
    pet_id: Seq<char>,
    pet_name: Seq<char>,
    say: Seq<char>,
    timestamp: u64,
) -> bool {
    &&& m.id@ == "pet-conversation-"@ + request_id + "-"@ + pet_id
    &&& m.role@ == "assistant"@
    &&& m.content@ == say
    &&& m.timestamp == timestamp
    &&& m.source@ == "pet-conversation"@
    &&& m.vision_summary is None
    &&& (m.speaker_pet_id matches Some(p) && p@ == pet_id)
    &&& (m.speaker_name matches Some(n) && n@ == pet_name)
}

pub fn pet_conversation_message(
    request_id: &str,
    pet_id: &str,
    pet_name: &str,
    behavior: &PetBehavior,
    timestamp: u64,
) -> (r: ChatMessage)
    ensures
        conversation_message_ok(r, request_id@, pet_id@, pet_name@, behavior.say@, timestamp),
{
    let mut id: Vec<char> = Vec::new();
    push_str_chars(&mut id, "pet-conversation-");
    push_str_chars(&mut id, request_id);
    push_str_chars(&mut id, "-");
    push_str_chars(&mut id, pet_id);
    ChatMessage {
        id: string_of(&id),
        role: String::from_str("assistant"),
        content: behavior.say.clone(),
        timestamp,
        source: String::from_str("pet-conversation"),
        vision_summary: None,
        speaker_pet_id: Some(String::from_str(pet_id)),
        speaker_name: Some(String::from_str(pet_name)),
    }
}

/// The longest chat message a user may send, in characters.
pub const MAX_MESSAGE_CHARS: usize = 4_000;

/// A user's chat message as it is sent: trimmed, refused when empty or
/// longer than the limit, and while the pet is still answering.
pub fn chat_request(content: &str, pet_busy: bool) -> (r: Result<String, String>)
    ensures
        (trim(content@).len() == 0 || trim(content@).len() > MAX_MESSAGE_CHARS) ==> (r matches Err(e) && e@ == "消息不能为空且不能超过 4000 字"@),
        !(trim(content@).len() == 0 || trim(content@).len() > MAX_MESSAGE_CHARS) && pet_busy ==> (r matches Err(e) && e@ == "这只宠物正在回复，请先停止当前回复"@),
        !(trim(content@).len() == 0 || trim(content@).len() > MAX_MESSAGE_CHARS) && !pet_busy ==> (r matches Ok(t) && t@ == trim(content@)),
{
    let c = crate::text::trim_ws(&chars_of(content));
    if c.len() == 0 || c.len() > MAX_MESSAGE_CHARS {
        return Err(String::from_str("消息不能为空且不能超过 4000 字"));
    }
    if pet_busy {
        return Err(String::from_str("这只宠物正在回复，请先停止当前回复"));
    }
    Ok(string_of(&c))
}

/// A message written at `now` by the application itself, with id
/// `<id_prefix>-<now>` and no speaker.
pub fn chat_message(id_prefix: &str, role: &str, content: String, now: u64, source: &str, vision_summary: Option<String>) -> (r: ChatMessage)
    ensures
        r.id@ == id_prefix@ + "-"@ + decimal(now as nat),
        r.role@ == role@,
        r.content == content,
        r.timestamp == now,
        r.source@ == source@,
        r.vision_summary == vision_summary,
        r.speaker_pet_id is None,
        r.speaker_name is None,
{
    let mut id = chars_of(id_prefix);
    push_str_chars(&mut id, "-");
    let d = decimal_chars(now);
    push_all(&mut id, &d);
    ChatMessage {
        id: string_of(&id),
        role: String::from_str(role),
        content,
        timestamp: now,
        source: String::from_str(source),
        vision_summary,
        speaker_pet_id: None,
        speaker_name: None,
    }
}

/// The stored messages of a pet-to-pet exchange: one per pet that said
/// something, none at all when both stayed silent.
pub fn conversation_exchange(
    request_id: &str,
    first_id: &str,
    first_name: &str,
    first: &PetBehavior,
    second_id: &str,
    second_name: &str,
    second: &PetBehavior,
    timestamp: u64,
) -> (r: Option<(Option<ChatMessage>, Option<ChatMessage>)>)
    ensures
        r is None <==> (first.say@.len() == 0 && second.say@.len() == 0),
        r matches Some((a, b)) ==> {
            &&& (a is Some <==> first.say@.len() > 0)
            &&& (b is Some <==> second.say@.len() > 0)
            &&& (a matches Some(m) ==> conversation_message_ok(m, request_id@, first_id@, first_name@, first.say@, timestamp))
            &&& (b matches Some(m) ==> conversation_message_ok(m, request_id@, second_id@, second_name@, second.say@, timestamp))
        },
{
    let a = if first.say.as_str().is_empty() {
        None
    } else {
        Some(pet_conversation_message(request_id, first_id, first_name, first, timestamp))
    };
    let b = if second.say.as_str().is_empty() {
        None
    } else {
        Some(pet_conversation_message(request_id, second_id, second_name, second, timestamp))
    };
    if a.is_none() && b.is_none() {
        None
    } else {
        Some((a, b))
    }
}

/// The memory `pet_id` keeps of an exchange, told from its own side: who it
/// talked with, what it said, and what the other pet said.
pub open spec fn spec_relationship_memory(
    pet_id: Seq<char>,
    first_id: Seq<char>,
    first_name: Seq<char>,
    first_say: Seq<char>,
    second_id: Seq<char>,
    second_name: Seq<char>,
    second_say: Seq<char>,
) -> Seq<char> {
    let self_name = if pet_id == first_id { first_name } else if pet_id == second_id { second_name } else { pet_id };
    let other_name = if pet_id == first_id { second_name } else if pet_id == second_id { first_name } else { second_name };
    let own = if pet_id == first_id { first_say } else { second_say };
    let other = if pet_id == first_id { second_say } else { first_say };
    "我和"@ + other_name + "的一次互动："@ + self_name + "：“"@ + own + "”；"@ + other_name + "：“"@ + other + "”"@
}

pub fn relationship_memory_content(
    pet_id: &str,
    first_id: &str,
    first_name: &str,
    first_say: &str,
    second_id: &str,
    second_name: &str,
    second_say: &str,
) -> (r: String)
    ensures
        r@ == spec_relationship_memory(pet_id@, first_id@, first_name@, first_say@, second_id@, second_name@, second_say@),
{
    let p = chars_of(pet_id);
    let f = chars_of(first_id);
    let s = chars_of(second_id);
    let is_first = chars_eq(&p, &f);
    let is_second = chars_eq(&p, &s);
    let (self_name, other_name) = if is_first {
        (first_name, second_name)
    } else if is_second {
        (second_name, first_name)
    } else {
        (pet_id, second_name)
    };
    let own = if is_first { first_say } else { second_say };
    let other = if is_first { second_say } else { first_say };
    let mut v: Vec<char> = Vec::new();
    push_str_chars(&mut v, "我和");
    push_str_chars(&mut v, other_name);
    push_str_chars(&mut v, "的一次互动：");
    push_str_chars(&mut v, self_name);
    push_str_chars(&mut v, "：“");
    push_str_chars(&mut v, own);
    push_str_chars(&mut v, "”；");
    push_str_chars(&mut v, other_name);
    push_str_chars(&mut v, "：“");
    push_str_chars(&mut v, other);
    push_str_chars(&mut v, "”");
    assert(v@ =~= spec_relationship_memory(pet_id@, first_id@, first_name@, first_say@, second_id@, second_name@, second_say@));
    string_of(&v)
}

/// The two memories of an exchange are each told from their own pet's side:
/// each names the other pet as its partner and quotes its own line first.
pub proof fn law_relationship_memory_perspective(
    first_id: Seq<char>,
    first_name: Seq<char>,
    first_say: Seq<char>,
    second_id: Seq<char>,
    second_name: Seq<char>,
    second_say: Seq<char>,
)
    requires
        first_id != second_id,
    ensures
        spec_relationship_memory(first_id, first_id, first_name, first_say, second_id, second_name, second_say)
            == "我和"@ + second_name + "的一次互动："@ + first_name + "：“"@ + first_say + "”；"@ + second_name + "：“"@ + second_say + "”"@,
        spec_relationship_memory(second_id, first_id, first_name, first_say, second_id, second_name, second_say)
            == "我和"@ + first_name + "的一次互动："@ + second_name + "：“"@ + second_say + "”；"@ + first_name + "：“"@ + first_say + "”"@,
{
}

/// How a stored line of a pet-to-pet exchange names its speaker: the stored
/// name, else the name of the pet id, else the first pet's name.
pub open spec fn speaker_label(m: ChatMessage, first_id: Seq<char>, first_name: Seq<char>, second_id: Seq<char>, second_name: Seq<char>) -> Seq<char> {
    match m.speaker_name {
        Some(n) => n@,
        None => match m.speaker_pet_id {
            Some(p) => if p@ == first_id { first_name } else if p@ == second_id { second_name } else { p@ },
            None => first_name,
        },
    }
}

/// The exchange lines of a history, in history order, as `(time, "name：text")`.
pub open spec fn exchange_lines(msgs: Seq<ChatMessage>, first_id: Seq<char>, first_name: Seq<char>, second_id: Seq<char>, second_name: Seq<char>) -> Seq<(u64, Seq<char>)>
    decreases msgs.len(),
{
    if msgs.len() == 0 {
        Seq::empty()
    } else {
        let prev = exchange_lines(msgs.drop_last(), first_id, first_name, second_id, second_name);
        let m = msgs.last();
        if m.source@ == "pet-conversation"@ {
            prev.push((m.timestamp, speaker_label(m, first_id, first_name, second_id, second_name) + "："@ + m.content@))
        } else {
            prev
        }
    }
}

/// Inserts `x` into a time-ordered sequence after every entry that is not
/// later than it.
pub open spec fn insert_by_time(s: Seq<(u64, Seq<char>)>, x: (u64, Seq<char>)) -> Seq<(u64, Seq<char>)>
    decreases s.len(),
{
    if s.len() == 0 {
        seq![x]
    } else if s.last().0 <= x.0 {
        s.push(x)
    } else {
        insert_by_time(s.drop_last(), x).push(s.last())
    }
}

/// Stable ordering by time: entries with equal times keep their order.
pub open spec fn sort_by_time(s: Seq<(u64, Seq<char>)>) -> Seq<(u64, Seq<char>)>
    decreases s.len(),
{
    if s.len() == 0 {
        s
    } else {
        insert_by_time(sort_by_time(s.drop_last()), s.last())
    }
}

/// Drops each entry equal to the one kept before it.
pub open spec fn dedup_adjacent(s: Seq<(u64, Seq<char>)>) -> Seq<(u64, Seq<char>)>
    decreases s.len(),
{
    if s.len() == 0 {
        s
    } else {
        let d = dedup_adjacent(s.drop_last());
        if d.len() > 0 && d.last() == s.last() {
            d
        } else {
            d.push(s.last())
        }
    }
}

/// Texts joined with line breaks.
pub open spec fn join_lines(s: Seq<Seq<char>>) -> Seq<char>
    decreases s.len(),
{
    if s.len() == 0 {
        Seq::empty()
    } else if s.len() == 1 {
        s[0]
    } else {
        join_lines(s.drop_last()) + "\n"@ + s.last()
    }
}

/// At most the last `n` entries.
pub open spec fn last_n<T>(s: Seq<T>, n: nat) -> Seq<T> {
    if s.len() > n {
        s.skip(s.len() - n)
    } else {
        s
    }
}

/// The lines of recent pet-to-pet talk between the two pets: both histories'
/// exchange lines, ordered by time, repeated lines dropped, the last eight.
pub open spec fn recent_exchange(first: Seq<ChatMessage>, second: Seq<ChatMessage>, first_id: Seq<char>, first_name: Seq<char>, second_id: Seq<char>, second_name: Seq<char>) -> Seq<Seq<char>> {
    let all = exchange_lines(first + second, first_id, first_name, second_id, second_name);
    last_n(dedup_adjacent(sort_by_time(all)), 8).map_values(|e: (u64, Seq<char>)| e.1)
}

/// The context message handed to the model before a pet-to-pet exchange.
pub open spec fn history_message_ok(m: ChatMessage, lines: Seq<Seq<char>>, now: u64) -> bool {
    &&& m.id@ == "__pet_conversation_history__"@
    &&& m.role@ == "user"@
    &&& m.content@ == "最近的宠物间对话：\n"@ + join_lines(lines)
    &&& m.timestamp == now
    &&& m.source@ == "pet-conversation-context"@
    &&& m.vision_summary is None
    &&& m.speaker_pet_id is None
    &&& m.speaker_name is None
}

struct TimedLine {
    time: u64,
    text: Vec<char>,
}

spec fn timed_view(s: Seq<TimedLine>) -> Seq<(u64, Seq<char>)> {
    s.map_values(|t: TimedLine| (t.time, t.text@))
}

fn label_of(m: &ChatMessage, first_id: &str, first_name: &str, second_id: &str, second_name: &str) -> (r: Vec<char>)
    ensures
        r@ == speaker_label(*m, first_id@, first_name@, second_id@, second_name@),
{
    match &m.speaker_name {
        Some(n) => chars_of(n.as_str()),
        None => match &m.speaker_pet_id {
            Some(p) => {
                let pc = chars_of(p.as_str());
                if chars_eq_str(&pc, first_id) {
                    chars_of(first_name)
                } else if chars_eq_str(&pc, second_id) {
                    chars_of(second_name)
                } else {
                    pc
                }
            },
            None => chars_of(first_name),
        },
    }
}

fn collect_lines(
    out: &mut Vec<TimedLine>,
    msgs: &Vec<ChatMessage>,
    first_id: &str,
    first_name: &str,
    second_id: &str,
    second_name: &str,
    Ghost(before): Ghost<Seq<ChatMessage>>,
)
    requires
        timed_view(old(out)@) == exchange_lines(before, first_id@, first_name@, second_id@, second_name@),
    ensures
        timed_view(final(out)@) == exchange_lines(before + msgs@, first_id@, first_name@, second_id@, second_name@),
{
    let mut i: usize = 0;
    assert(before + msgs@.take(0) =~= before);
    while i < msgs.len()
        invariant
            i <= msgs.len(),
            timed_view(out@) == exchange_lines(before + msgs@.take(i as int), first_id@, first_name@, second_id@, second_name@),
        decreases msgs.len() - i,
    {
        let m = &msgs[i];
        assert((before + msgs@.take(i + 1)).drop_last() =~= before + msgs@.take(i as int));
        assert((before + msgs@.take(i + 1)).last() == msgs@[i as int]);
        let src = chars_of(m.source.as_str());
        if chars_eq_str(&src, "pet-conversation") {
            let mut text = label_of(m, first_id, first_name, second_id, second_name);
            push_str_chars(&mut text, "：");
            push_str_chars(&mut text, m.content.as_str());
            let ghost o = out@;
            out.push(TimedLine { time: m.timestamp, text });
            assert(timed_view(out@) =~= timed_view(o).push((m.timestamp, text@)));
        }
        i = i + 1;
    }
    assert(msgs@.take(msgs.len() as int) =~= msgs@);
}

fn insert_timed(s: Vec<TimedLine>, x: TimedLine) -> (r: Vec<TimedLine>)
    ensures
        timed_view(r@) == insert_by_time(timed_view(s@), (x.time, x.text@)),
    decreases s.len(),
{
    let mut s = s;
    if s.len() == 0 {
        let mut r: Vec<TimedLine> = Vec::new();
        let ghost xv = (x.time, x.text@);
        r.push(x);
        assert(timed_view(r@) =~= seq![xv]);
        r
    } else if s[s.len() - 1].time <= x.time {
        let ghost sv = timed_view(s@);
        let ghost xv = (x.time, x.text@);
        s.push(x);
        assert(timed_view(s@) =~= sv.push(xv));
        s
    } else {
        let ghost sv = timed_view(s@);
        let last = s.pop().unwrap();
        assert(timed_view(s@) =~= sv.drop_last());
        let ghost lv = (last.time, last.text@);
        let mut r = insert_timed(s, x);
        let ghost rv = timed_view(r@);
        r.push(last);
        assert(timed_view(r@) =~= rv.push(lv));
        r
    }
}

fn sort_timed(s: Vec<TimedLine>) -> (r: Vec<TimedLine>)
    ensures
        timed_view(r@) == sort_by_time(timed_view(s@)),
    decreases s.len(),
{
    let mut s = s;
    if s.len() == 0 {
        s
    } else {
        let ghost sv = timed_view(s@);
        let last = s.pop().unwrap();
        assert(timed_view(s@) =~= sv.drop_last());
        let sorted = sort_timed(s);
        insert_timed(sorted, last)
    }
}

fn dedup_timed(s: &Vec<TimedLine>) -> (r: Vec<TimedLine>)
    ensures
        timed_view(r@) == dedup_adjacent(timed_view(s@)),
{
    let mut r: Vec<TimedLine> = Vec::new();
    let mut i: usize = 0;
    assert(timed_view(s@).take(0) =~= Seq::<(u64, Seq<char>)>::empty());
    while i < s.len()
        invariant
            i <= s.len(),
            timed_view(r@) == dedup_adjacent(timed_view(s@).take(i as int)),
        decreases s.len() - i,
    {
        assert(timed_view(s@).take(i + 1).drop_last() =~= timed_view(s@).take(i as int));
        let same = r.len() > 0 && r[r.len() - 1].time == s[i].time && chars_eq(&r[r.len() - 1].text, &s[i].text);
        if !same {
            let ghost rv = timed_view(r@);
            let text = crate::text::slice_chars(&s[i].text, 0, s[i].text.len());
            assert(text@ =~= s@[i as int].text@);
            r.push(TimedLine { time: s[i].time, text });
            assert(timed_view(r@) =~= rv.push((s@[i as int].time, s@[i as int].text@)));
        }
        i = i + 1;
    }
    assert(timed_view(s@).take(s.len() as int) =~= timed_view(s@));
    r
}

fn join_texts(lines: &Vec<TimedLine>, from: usize) -> (r: Vec<char>)
    requires
        from <= lines.len(),
    ensures
        r@ == join_lines(timed_view(lines@).skip(from as int).map_values(|e: (u64, Seq<char>)| e.1)),
{
    let ghost all = timed_view(lines@).skip(from as int).map_values(|e: (u64, Seq<char>)| e.1);
    let mut r: Vec<char> = Vec::new();
    let mut i = from;
    assert(all.take(0) =~= Seq::<Seq<char>>::empty());
    while i < lines.len()
        invariant
            from <= i <= lines.len(),
            all == timed_view(lines@).skip(from as int).map_values(|e: (u64, Seq<char>)| e.1),
            r@ == join_lines(all.take(i - from)),
        decreases lines.len() - i,
    {
        assert(all.take(i + 1 - from).drop_last() =~= all.take(i - from));
        assert(all[i - from] == lines@[i as int].text@);
        if i > from {
            push_str_chars(&mut r, "\n");
        }
        push_all(&mut r, &lines[i].text);
        i = i + 1;
    }
    assert(all.take(lines.len() - from) =~= all);
    r
}

/// The context message for a pet-to-pet exchange: the recent exchange
/// lines of both histories, or nothing when they never talked.
pub fn conversation_history(
    first: &Vec<ChatMessage>,
    second: &Vec<ChatMessage>,
    first_id: &str,
    first_name: &str,
    second_id: &str,
    second_name: &str,
    now: u64,
) -> (r: Vec<ChatMessage>)
    ensures
        ({
            let lines = recent_exchange(first@, second@, first_id@, first_name@, second_id@, second_name@);
            if lines.len() == 0 {
                r@.len() == 0
            } else {
                r@.len() == 1 && history_message_ok(r@[0], lines, now)
            }
        }),
{
    let mut collected: Vec<TimedLine> = Vec::new();
    assert(timed_view(collected@) =~= exchange_lines(Seq::<ChatMessage>::empty(), first_id@, first_name@, second_id@, second_name@));
    collect_lines(&mut collected, first, first_id, first_name, second_id, second_name, Ghost(Seq::empty()));
    assert(Seq::<ChatMessage>::empty() + first@ =~= first@);
    collect_lines(&mut collected, second, first_id, first_name, second_id, second_name, Ghost(first@));
    let sorted = sort_timed(collected);
    let unique = dedup_timed(&sorted);
    let from = if unique.len() > 8 { unique.len() - 8 } else { 0 };
    let ghost kept = last_n(timed_view(unique@), 8);
    assert(kept =~= timed_view(unique@).skip(from as int));
    if unique.len() == 0 {
        let e: Vec<ChatMessage> = Vec::new();
        return e;
    }
    let joined = join_texts(&unique, from);
    let mut content: Vec<char> = Vec::new();
    push_str_chars(&mut content, "最近的宠物间对话：\n");
    push_all(&mut content, &joined);
    let mut r: Vec<ChatMessage> = Vec::new();
    r.push(ChatMessage {
        id: String::from_str("__pet_conversation_history__"),
        role: String::from_str("user"),
        content: string_of(&content),
        timestamp: now,
        source: String::from_str("pet-conversation-context"),
        vision_summary: None,
        speaker_pet_id: None,
        speaker_name: None,
    });
    r
}

/// The most messages a chat window shows.
pub const MAX_HISTORY_MESSAGES: usize = 200;

/// The messages a chat window shows: the last ones, at most a page.
pub fn chat_history(messages: &Vec<ChatMessage>) -> (r: Vec<ChatMessage>)
    ensures
        r@ == last_n(messages@, MAX_HISTORY_MESSAGES as nat),
{
    let start = if messages.len() > MAX_HISTORY_MESSAGES { messages.len() - MAX_HISTORY_MESSAGES } else { 0 };
    let mut r: Vec<ChatMessage> = Vec::new();
    let mut i = start;
    while i < messages.len()
        invariant
            start <= i <= messages.len(),
            r@ == messages@.subrange(start as int, i as int),
        decreases messages.len() - i,
    {
        r.push(messages[i].duplicate());
        i = i + 1;
        assert(r@ =~= messages@.subrange(start as int, i as int));
    }
    assert(r@ =~= last_n(messages@, MAX_HISTORY_MESSAGES as nat));
    r
}

} // verus!
