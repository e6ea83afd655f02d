//! AI companion settings and the schedulers that let pets speak up on their
//! own: heartbeat remarks and pet-to-pet conversations.

use vstd::prelude::*;
use crate::platform::random_between;
use crate::provider::{ModelEndpointConfig, endpoint_normalized, normalize_endpoint_config};
use crate::relationship::{lemma_seq_lt_irreflexive, lemma_seq_lt_total, lemma_seq_lt_transitive, seq_lt, str_lt};
use crate::scene::string_views;
use crate::text::{
    ascii_lower, ascii_lower_vec, chars_eq, chars_eq_str, chars_of, decimal, decimal_chars, push_all,
    push_str_chars, string_of, trim, trim_ws,
};

verus! {

/// The AI companion preferences. The chance that a heartbeat looks at the
/// desktop is a probability and is kept by the application, not here.
#[derive(Debug)]
pub struct AiSettings {
    pub enabled: bool,
    pub chat_model: Option<ModelEndpointConfig>,
    pub vision_model: Option<ModelEndpointConfig>,
    pub memory_enabled: bool,
    pub max_recent_messages: usize,
    pub heartbeat_enabled: bool,
    pub heartbeat_min_minutes: u32,
    pub heartbeat_max_minutes: u32,
    pub desktop_vision_enabled: bool,
    pub pet_conversation_enabled: bool,
}

impl Default for AiSettings {
    fn default() -> (r: Self)
        ensures
            !r.enabled,
            r.chat_model is None,
            r.vision_model is None,
            r.memory_enabled,
            r.max_recent_messages == 12,
            r.heartbeat_enabled,
            r.heartbeat_min_minutes == 20,
            r.heartbeat_max_minutes == 60,
            !r.desktop_vision_enabled,
            r.pet_conversation_enabled,
    {
        AiSettings {
            enabled: false,
            chat_model: None,
            vision_model: None,
            memory_enabled: true,
            max_recent_messages: 12,
            heartbeat_enabled: true,
            heartbeat_min_minutes: 20,
            heartbeat_max_minutes: 60,
            desktop_vision_enabled: false,
            pet_conversation_enabled: true,
        }
    }
}

pub open spec fn clamp_int(v: int, lo: int, hi: int) -> int {
    if v < lo { lo } else if v > hi { hi } else { v }
}

pub open spec fn opt_endpoint_normalized(old: Option<ModelEndpointConfig>, new: Option<ModelEndpointConfig>) -> bool {
    match (old, new) {
        (Some(o), Some(n)) => endpoint_normalized(o, n),
        (None, None) => true,
        _ => false,
    }
}

/// Settings as they are saved: endpoints normalized, the history window
/// within 2..=40 messages, heartbeat minutes within 1..=1440 with the
/// maximum no smaller than the minimum.
pub open spec fn ai_settings_normalized(old: AiSettings, new: AiSettings) -> bool {
    let min = clamp_int(old.heartbeat_min_minutes as int, 1, 1_440);
    let max_raw = if old.heartbeat_max_minutes as int >= min { old.heartbeat_max_minutes as int } else { min };
    &&& new.enabled == old.enabled
    &&& opt_endpoint_normalized(old.chat_model, new.chat_model)
    &&& opt_endpoint_normalized(old.vision_model, new.vision_model)
    &&& new.memory_enabled == old.memory_enabled
    &&& new.max_recent_messages == clamp_int(old.max_recent_messages as int, 2, 40)
    &&& new.heartbeat_enabled == old.heartbeat_enabled
    &&& new.heartbeat_min_minutes == min
    &&& new.heartbeat_max_minutes == clamp_int(max_raw, 1, 1_440)
    &&& new.desktop_vision_enabled == old.desktop_vision_enabled
    &&& new.pet_conversation_enabled == old.pet_conversation_enabled
}

fn normalize_opt(c: Option<ModelEndpointConfig>) -> (r: Option<ModelEndpointConfig>)
    ensures
        opt_endpoint_normalized(c, r),
{
    match c {
        Some(e) => Some(normalize_endpoint_config(e)),
        None => None,
    }
}

/// Normalizes settings before they are saved.
pub fn normalize_ai_settings(settings: AiSettings) -> (r: AiSettings)
    ensures
        ai_settings_normalized(settings, r),
{
    let min = if settings.heartbeat_min_minutes < 1 { 1 } else if settings.heartbeat_min_minutes > 1_440 { 1_440 } else { settings.heartbeat_min_minutes };
    let max_raw = if settings.heartbeat_max_minutes >= min { settings.heartbeat_max_minutes } else { min };
    let max = if max_raw < 1 { 1 } else if max_raw > 1_440 { 1_440 } else { max_raw };
    let recent = if settings.max_recent_messages < 2 { 2 } else if settings.max_recent_messages > 40 { 40 } else { settings.max_recent_messages };
    AiSettings {
        enabled: settings.enabled,
        chat_model: normalize_opt(settings.chat_model),
        vision_model: normalize_opt(settings.vision_model),
        memory_enabled: settings.memory_enabled,
        max_recent_messages: recent,
        heartbeat_enabled: settings.heartbeat_enabled,
        heartbeat_min_minutes: min,
        heartbeat_max_minutes: max,
        desktop_vision_enabled: settings.desktop_vision_enabled,
        pet_conversation_enabled: settings.pet_conversation_enabled,
    }
}

/// The model has a name (not just spaces).
pub open spec fn model_named(m: Option<ModelEndpointConfig>) -> bool {
    m matches Some(c) && trim(c.model@).len() > 0
}

/// Chat is possible: AI is on and a chat model is named.
pub open spec fn spec_have_chat(settings: AiSettings) -> bool {
    settings.enabled && model_named(settings.chat_model)
}

fn model_is_named(m: &Option<ModelEndpointConfig>) -> (r: bool)
    ensures
        r == model_named(*m),
{
    match m {
        Some(c) => {
            let mc = chars_of(c.model.as_str());
            trim_ws(&mc).len() > 0
        },
        None => false,
    }
}

pub fn settings_have_chat(settings: &AiSettings) -> (r: bool)
    ensures
        r == spec_have_chat(*settings),
{
    settings.enabled && model_is_named(&settings.chat_model)
}

/// The heartbeat interval in minutes: the smaller and the larger of the two
/// configured bounds.
pub open spec fn delay_minutes(settings: AiSettings) -> (int, int) {
    let lo = if settings.heartbeat_min_minutes <= settings.heartbeat_max_minutes { settings.heartbeat_min_minutes } else { settings.heartbeat_max_minutes };
    let hi = if settings.heartbeat_max_minutes >= lo { settings.heartbeat_max_minutes } else { lo };
    (lo as int, hi as int)
}

/// A random whole number of minutes within the configured interval, in
/// milliseconds.
pub fn random_heartbeat_delay(settings: &AiSettings) -> (r: u64)
    ensures
        delay_minutes(*settings).0 * 60_000 <= r <= delay_minutes(*settings).1 * 60_000,
        r % 60_000 == 0,
{
    let lo = if settings.heartbeat_min_minutes <= settings.heartbeat_max_minutes { settings.heartbeat_min_minutes } else { settings.heartbeat_max_minutes };
    let hi = if settings.heartbeat_max_minutes >= lo { settings.heartbeat_max_minutes } else { lo };
    let minutes = random_between(lo as u64, hi as u64);
    minutes * 60_000
}

pub open spec fn sat_add(a: u64, b: int) -> int {
    if a + b > u64::MAX { u64::MAX as int } else { a + b }
}

/// A due time drawn after `now` from the heartbeat interval.
pub open spec fn due_in_window(settings: AiSettings, now: u64, due: u64) -> bool {
    sat_add(now, delay_minutes(settings).0 * 60_000) <= due <= sat_add(now, delay_minutes(settings).1 * 60_000)
}

fn draw_due(settings: &AiSettings, now: u64) -> (r: u64)
    ensures
        due_in_window(*settings, now, r),
{
    let d = random_heartbeat_delay(settings);
    if d > u64::MAX - now { u64::MAX } else { now + d }
}

/// Strictly increasing in lexicographic order: sorted, no repeats.
pub open spec fn strictly_sorted(s: Seq<Seq<char>>) -> bool {
    forall|i: int, j: int| 0 <= i < j < s.len() ==> seq_lt(#[trigger] s[i], #[trigger] s[j])
}

fn insert_sorted(v: &mut Vec<String>, x: String)
    requires
        strictly_sorted(string_views(old(v)@)),
    ensures
        strictly_sorted(string_views(final(v)@)),
        forall|y: Seq<char>| string_views(final(v)@).contains(y) <==> (string_views(old(v)@).contains(y) || y == x@),
{
    let ghost vs = string_views(v@);
    let mut p: usize = 0;
    while p < v.len() && str_lt(v[p].as_str(), x.as_str())
        invariant
            p <= v.len(),
            vs == string_views(v@),
            forall|i: int| 0 <= i < p ==> seq_lt(#[trigger] vs[i], x@),
        decreases v.len() - p,
    {
        p = p + 1;
    }
    if p < v.len() && chars_eq(&chars_of(v[p].as_str()), &chars_of(x.as_str())) {
        assert(vs[p as int] == x@);
        assert(vs.contains(x@));
        return;
    }
    proof {
        if p < vs.len() {
            lemma_seq_lt_total(vs[p as int], x@);
            assert(seq_lt(x@, vs[p as int]));
            assert forall|j: int| p <= j < vs.len() implies seq_lt(x@, #[trigger] vs[j]) by {
                if j > p {
                    lemma_seq_lt_transitive(x@, vs[p as int], vs[j]);
                }
            }
        }
    }
    let ghost xv = x@;
    v.insert(p, x);
    let ghost nv = string_views(v@);
    assert(nv =~= vs.insert(p as int, xv));
    assert forall|i: int, j: int| 0 <= i < j < nv.len() implies seq_lt(#[trigger] nv[i], #[trigger] nv[j]) by {
        if j < p {
        } else if j == p {
        } else if i < p {
            assert(nv[j] == vs[j - 1]);
            assert(seq_lt(vs[i], vs[j - 1]));
        } else if i == p {
            assert(nv[j] == vs[j - 1]);
        } else {
            assert(nv[i] == vs[i - 1]);
            assert(nv[j] == vs[j - 1]);
        }
    }
    assert forall|y: Seq<char>| nv.contains(y) <==> (vs.contains(y) || y == xv) by {
        if nv.contains(y) {
            let k = choose|k: int| 0 <= k < nv.len() && nv[k] == y;
            if k < p {
                assert(vs[k] == y);
            } else if k > p {
                assert(vs[k - 1] == y);
            }
        }
        if vs.contains(y) {
            let k = choose|k: int| 0 <= k < vs.len() && vs[k] == y;
            if k < p {
                assert(nv[k] == y);
            } else {
                assert(nv[k + 1] == y);
            }
        }
        if y == xv {
            assert(nv[p as int] == y);
        }
    }
}

/// The distinct ids of `ids`, sorted.
pub fn sorted_ids(ids: &Vec<String>) -> (r: Vec<String>)
    ensures
        strictly_sorted(string_views(r@)),
        forall|y: Seq<char>| string_views(r@).contains(y) <==> string_views(ids@).contains(y),
{
    let mut r: Vec<String> = Vec::new();
    let mut i: usize = 0;
    while i < ids.len()
        invariant
            i <= ids.len(),
            strictly_sorted(string_views(r@)),
            forall|y: Seq<char>| string_views(r@).contains(y) <==> string_views(ids@.take(i as int)).contains(y),
        decreases ids.len() - i,
    {
        let ghost before = string_views(ids@.take(i as int));
        insert_sorted(&mut r, ids[i].clone());
        proof {
            let after = string_views(ids@.take(i + 1));
            assert(after =~= before.push(ids@[i as int]@));
            assert forall|y: Seq<char>| after.contains(y) <==> (before.contains(y) || y == ids@[i as int]@) by {
                if after.contains(y) {
                    let k = choose|k: int| 0 <= k < after.len() && after[k] == y;
                    if k < before.len() {
                        assert(before[k] == y);
                    }
                }
                if before.contains(y) {
                    let k = choose|k: int| 0 <= k < before.len() && before[k] == y;
                    assert(after[k] == y);
                }
                if y == ids@[i as int]@ {
                    assert(after[i as int] == y);
                }
            }
        }
        i = i + 1;
    }
    assert(ids@.take(ids.len() as int) =~= ids@);
    r
}

/// A pet that could take part, with its own switches.
#[derive(Debug)]
pub struct PetCandidate {
    pub pet_id: String,
    pub paused: bool,
    pub quiet_mode: bool,
}

/// `y` is the id of a pet that is neither paused nor in quiet mode.
pub open spec fn is_active_pet(pets: Seq<PetCandidate>, y: Seq<char>) -> bool {
    exists|k: int| 0 <= k < pets.len() && (#[trigger] pets[k]).pet_id@ == y && !pets[k].paused && !pets[k].quiet_mode
}

/// The first index at or after `i` whose entry has key `key`.
pub open spec fn key_index_from(entries: Seq<(String, u64)>, key: Seq<char>, i: nat) -> Option<int>
    decreases entries.len() - i,
{
    if i >= entries.len() {
        None
    } else if entries[i as int].0@ == key {
        Some(i as int)
    } else {
        key_index_from(entries, key, i + 1)
    }
}

pub open spec fn key_index(entries: Seq<(String, u64)>, key: Seq<char>) -> Option<int> {
    key_index_from(entries, key, 0)
}

/// The due time recorded for `key`.
pub open spec fn lookup(entries: Seq<(String, u64)>, key: Seq<char>) -> Option<u64> {
    match key_index(entries, key) {
        Some(i) => Some(entries[i].1),
        None => None,
    }
}

pub proof fn lemma_key_index_from(entries: Seq<(String, u64)>, key: Seq<char>, i: nat)
    ensures
        key_index_from(entries, key, i) matches Some(k) ==> i <= k < entries.len() && entries[k].0@ == key,
        key_index_from(entries, key, i) is None ==> forall|k: int| i <= k < entries.len() ==> entries[k].0@ != key,
    decreases entries.len() - i,
{
    if i < entries.len() && entries[i as int].0@ != key {
        lemma_key_index_from(entries, key, i + 1);
    }
}

fn find_key(entries: &Vec<(String, u64)>, key: &String) -> (r: Option<usize>)
    ensures
        match r {
            Some(i) => Some(i as int),
            None => None,
        } == key_index(entries@, key@),
{
    let k = chars_of(key.as_str());
    let mut i: usize = 0;
    while i < entries.len()
        invariant
            i <= entries.len(),
            k@ == key@,
            key_index(entries@, key@) == key_index_from(entries@, key@, i as nat),
        decreases entries.len() - i,
    {
        let e = chars_of(entries[i].0.as_str());
        if chars_eq(&e, &k) {
            return Some(i);
        }
        i = i + 1;
    }
    None
}

/// An entry per key, in the order of `keys`: the recorded due time where
/// there is one, else a new one drawn from the heartbeat interval.
pub open spec fn rescheduled(old: Seq<(String, u64)>, keys: Seq<Seq<char>>, settings: AiSettings, now: u64, new: Seq<(String, u64)>) -> bool {
    &&& new.len() == keys.len()
    &&& forall|i: int| 0 <= i < keys.len() ==> (#[trigger] new[i]).0@ == keys[i] && match lookup(old, keys[i]) {
        Some(d) => new[i].1 == d,
        None => due_in_window(settings, now, new[i].1),
    }
}

fn reschedule(old: &Vec<(String, u64)>, keys: &Vec<String>, settings: &AiSettings, now: u64) -> (r: Vec<(String, u64)>)
    ensures
        rescheduled(old@, string_views(keys@), *settings, now, r@),
{
    let mut r: Vec<(String, u64)> = Vec::new();
    let mut i: usize = 0;
    while i < keys.len()
        invariant
            i <= keys.len(),
            r@.len() == i,
            forall|j: int| 0 <= j < i ==> (#[trigger] r@[j]).0@ == keys@[j]@ && match lookup(old@, keys@[j]@) {
                Some(d) => r@[j].1 == d,
                None => due_in_window(*settings, now, r@[j].1),
            },
        decreases keys.len() - i,
    {
        let due = match find_key(old, &keys[i]) {
            Some(k) => {
                proof {
                    lemma_key_index_from(old@, keys@[i as int]@, 0);
                }
                old[k].1
            },
            None => draw_due(settings, now),
        };
        r.push((keys[i].clone(), due));
        i = i + 1;
    }
    r
}

/// The due times of the two companion schedulers.
#[derive(Debug)]
pub struct CompanionSchedule {
    pub next_heartbeat: Vec<(String, u64)>,
    pub next_pet_conversation: Vec<(String, u64)>,
}

impl CompanionSchedule {
    pub fn new() -> (r: Self)
        ensures
            r.next_heartbeat@.len() == 0,
            r.next_pet_conversation@.len() == 0,
    {
        CompanionSchedule { next_heartbeat: Vec::new(), next_pet_conversation: Vec::new() }
    }
}

/// The pets of one scheduler round and the pairs they form.
#[derive(Debug)]
pub struct CompanionRound {
    pub candidates: Vec<String>,
    pub pair_members: Vec<(String, String)>,
    pub pair_keys: Vec<String>,
}

/// The pairs `(c[i], c[j])` with `i < j`, row by row from index `i`.
pub open spec fn pairs_from(c: Seq<Seq<char>>, i: nat) -> Seq<(Seq<char>, Seq<char>)>
    decreases c.len() - i,
{
    if i >= c.len() {
        Seq::empty()
    } else {
        Seq::new((c.len() - i - 1) as nat, |k: int| (c[i as int], c[i + 1 + k])) + pairs_from(c, i + 1)
    }
}

/// The key of a pair: both ids joined by the unit separator.
pub open spec fn join_pair(p: (Seq<char>, Seq<char>)) -> Seq<char> {
    p.0 + seq!['\u{1f}'] + p.1
}

pub open spec fn member_views(m: Seq<(String, String)>) -> Seq<(Seq<char>, Seq<char>)> {
    m.map_values(|x: (String, String)| (x.0@, x.1@))
}

fn pair_list(c: &Vec<String>) -> (r: (Vec<(String, String)>, Vec<String>))
    ensures
        member_views(r.0@) == pairs_from(string_views(c@), 0),
        string_views(r.1@) == pairs_from(string_views(c@), 0).map_values(|p: (Seq<char>, Seq<char>)| join_pair(p)),
{
    let ghost cv = string_views(c@);
    let mut members: Vec<(String, String)> = Vec::new();
    let mut keys: Vec<String> = Vec::new();
    let mut i: usize = 0;
    while i < c.len()
        invariant
            i <= c.len(),
            cv == string_views(c@),
            member_views(members@) + pairs_from(cv, i as nat) == pairs_from(cv, 0),
            string_views(keys@) == member_views(members@).map_values(|p: (Seq<char>, Seq<char>)| join_pair(p)),
        decreases c.len() - i,
    {
        let ghost before = member_views(members@);
        let ghost row = Seq::new((cv.len() - i - 1) as nat, |k: int| (cv[i as int], cv[i + 1 + k]));
        let mut j: usize = i + 1;
        while j < c.len()
            invariant
                i < j <= c.len(),
                cv == string_views(c@),
                row == Seq::new((cv.len() - i - 1) as nat, |k: int| (cv[i as int], cv[i + 1 + k])),
                member_views(members@) == before + row.take(j - i - 1),
                string_views(keys@) == member_views(members@).map_values(|p: (Seq<char>, Seq<char>)| join_pair(p)),
            decreases c.len() - j,
        {
            let mut key = chars_of(c[i].as_str());
            key.push('\u{1f}');
            let second = chars_of(c[j].as_str());
            push_all(&mut key, &second);
            assert(key@ =~= join_pair((cv[i as int], cv[j as int])));
            let ghost m0 = members@;
            let ghost k0 = keys@;
            members.push((c[i].clone(), c[j].clone()));
            keys.push(string_of(&key));
            assert(member_views(members@) =~= member_views(m0).push((cv[i as int], cv[j as int])));
            assert(row.take(j - i) =~= row.take(j - i - 1).push((cv[i as int], cv[j as int])));
            assert(string_views(keys@) =~= string_views(k0).push(join_pair((cv[i as int], cv[j as int]))));
            assert(member_views(members@).map_values(|p: (Seq<char>, Seq<char>)| join_pair(p)) =~= member_views(m0).map_values(|p: (Seq<char>, Seq<char>)| join_pair(p)).push(join_pair((cv[i as int], cv[j as int]))));
            j = j + 1;
        }
        assert(row.take(j - i - 1) =~= row);
        assert(before + row + pairs_from(cv, (i + 1) as nat) =~= before + pairs_from(cv, i as nat));
        i = i + 1;
    }
    (members, keys)
}

/// The milliseconds that must pass after one companion event before the
/// next.
pub const COMPANION_COOLDOWN_MS: u64 = 600_000;

/// Starts a scheduler round: the active pets (sorted, distinct) and their
/// pairs, with due times kept for pets and pairs still present, new ones
/// drawn for newcomers, and everything else forgotten. Nothing happens while
/// chat is unavailable or both schedulers are off.
pub fn plan_companion_round(schedule: &mut CompanionSchedule, settings: &AiSettings, pets: &Vec<PetCandidate>, now: u64) -> (r: Option<CompanionRound>)
    ensures
        r is None <==> (!spec_have_chat(*settings) || (!settings.heartbeat_enabled && !settings.pet_conversation_enabled)),
        r is None ==> *final(schedule) == *old(schedule),
        r matches Some(round) ==> {
            let c = string_views(round.candidates@);
            &&& strictly_sorted(c)
            &&& forall|y: Seq<char>| c.contains(y) <==> is_active_pet(pets@, y)
            &&& member_views(round.pair_members@) == pairs_from(c, 0)
            &&& string_views(round.pair_keys@) == pairs_from(c, 0).map_values(|p: (Seq<char>, Seq<char>)| join_pair(p))
            &&& if settings.heartbeat_enabled {
                rescheduled(old(schedule).next_heartbeat@, c, *settings, now, final(schedule).next_heartbeat@)
            } else {
                final(schedule).next_heartbeat@.len() == 0
            }
            &&& if settings.pet_conversation_enabled {
                rescheduled(old(schedule).next_pet_conversation@, string_views(round.pair_keys@), *settings, now, final(schedule).next_pet_conversation@)
            } else {
                final(schedule).next_pet_conversation@.len() == 0
            }
        },
{
    if !settings_have_chat(settings) || (!settings.heartbeat_enabled && !settings.pet_conversation_enabled) {
        return None;
    }
    let mut ids: Vec<String> = Vec::new();
    let mut i: usize = 0;
    while i < pets.len()
        invariant
            i <= pets.len(),
            forall|y: Seq<char>| string_views(ids@).contains(y) <==> exists|k: int| 0 <= k < i && (#[trigger] pets@[k]).pet_id@ == y && !pets@[k].paused && !pets@[k].quiet_mode,
        decreases pets.len() - i,
    {
        let ghost before = string_views(ids@);
        if !pets[i].paused && !pets[i].quiet_mode {
            ids.push(pets[i].pet_id.clone());
            assert(string_views(ids@) =~= before.push(pets@[i as int].pet_id@));
            assert forall|y: Seq<char>| string_views(ids@).contains(y) <==> exists|k: int| 0 <= k < i + 1 && (#[trigger] pets@[k]).pet_id@ == y && !pets@[k].paused && !pets@[k].quiet_mode by {
                if string_views(ids@).contains(y) {
                    let m = choose|m: int| 0 <= m < string_views(ids@).len() && string_views(ids@)[m] == y;
                    if m < before.len() {
                        assert(before[m] == y);
                    }
                }
                if before.contains(y) {
                    let m = choose|m: int| 0 <= m < before.len() && before[m] == y;
                    assert(string_views(ids@)[m] == y);
                }
                if y == pets@[i as int].pet_id@ {
                    assert(string_views(ids@)[before.len() as int] == y);
                }
            }
        }
        i = i + 1;
    }
    let candidates = sorted_ids(&ids);
    let (pair_members, pair_keys) = pair_list(&candidates);
    if settings.heartbeat_enabled {
        schedule.next_heartbeat = reschedule(&schedule.next_heartbeat, &candidates, settings, now);
    } else {
        schedule.next_heartbeat = Vec::new();
    }
    if settings.pet_conversation_enabled {
        schedule.next_pet_conversation = reschedule(&schedule.next_pet_conversation, &pair_keys, settings, now);
    } else {
        schedule.next_pet_conversation = Vec::new();
    }
    Some(CompanionRound { candidates, pair_members, pair_keys })
}

impl CompanionRound {
    /// Every pair has its key.
    pub open spec fn wf(&self) -> bool {
        self.pair_members@.len() == self.pair_keys@.len()
    }
}

/// The first of `keys`, from index `i` on, whose recorded due time has come.
pub open spec fn first_due_from(entries: Seq<(String, u64)>, keys: Seq<Seq<char>>, now: u64, i: nat) -> Option<int>
    decreases keys.len() - i,
{
    if i >= keys.len() {
        None
    } else if lookup(entries, keys[i as int]) matches Some(d) && d <= now {
        Some(i as int)
    } else {
        first_due_from(entries, keys, now, i + 1)
    }
}

pub proof fn lemma_first_due_from(entries: Seq<(String, u64)>, keys: Seq<Seq<char>>, now: u64, i: nat)
    ensures
        first_due_from(entries, keys, now, i) matches Some(k) ==> i <= k < keys.len(),
    decreases keys.len() - i,
{
    if i < keys.len() {
        lemma_first_due_from(entries, keys, now, i + 1);
    }
}

fn first_due(entries: &Vec<(String, u64)>, keys: &Vec<String>, now: u64) -> (r: Option<usize>)
    ensures
        match r {
            Some(i) => Some(i as int),
            None => None,
        } == first_due_from(entries@, string_views(keys@), now, 0),
        r matches Some(i) ==> i < keys.len(),
{
    proof {
        lemma_first_due_from(entries@, string_views(keys@), now, 0);
    }
    let mut i: usize = 0;
    while i < keys.len()
        invariant
            i <= keys.len(),
            first_due_from(entries@, string_views(keys@), now, 0) == first_due_from(entries@, string_views(keys@), now, i as nat),
        decreases keys.len() - i,
    {
        match find_key(entries, &keys[i]) {
            Some(k) => {
                proof {
                    lemma_key_index_from(entries@, keys@[i as int]@, 0);
                }
                if entries[k].1 <= now {
                    return Some(i);
                }
            },
            None => {},
        }
        i = i + 1;
    }
    None
}

/// `new` is `old` with a fresh due time drawn for the entry of `key`.
pub open spec fn redrawn(old: Seq<(String, u64)>, key: Seq<char>, settings: AiSettings, now: u64, new: Seq<(String, u64)>) -> bool {
    &&& new.len() == old.len()
    &&& forall|i: int| 0 <= i < old.len() ==> (#[trigger] new[i]).0 == old[i].0 && if key_index(old, key) == Some(i) {
        due_in_window(settings, now, new[i].1)
    } else {
        new[i].1 == old[i].1
    }
}

fn redraw(entries: &mut Vec<(String, u64)>, key: &String, settings: &AiSettings, now: u64)
    ensures
        redrawn(old(entries)@, key@, *settings, now, final(entries)@),
{
    match find_key(entries, key) {
        Some(j) => {
            proof {
                lemma_key_index_from(entries@, key@, 0);
            }
            let due = draw_due(settings, now);
            let name = entries[j].0.clone();
            entries.set(j, (name, due));
        },
        None => {},
    }
}

/// Enough time has passed since the last companion event.
pub open spec fn cooldown_over(now: u64, last_event: u64) -> bool {
    now >= last_event && now - last_event >= COMPANION_COOLDOWN_MS
}

/// A pet conversation the scheduler wants to start.
#[derive(Debug)]
pub struct ConversationStart {
    pub first: String,
    pub second: String,
    pub request_id: String,
}

fn numbered(prefix: &str, n: u64) -> (r: String)
    ensures
        r@ == prefix@ + decimal(n as nat),
{
    let mut v = chars_of(prefix);
    let d = decimal_chars(n);
    push_all(&mut v, &d);
    string_of(&v)
}

/// Picks the first pair whose conversation is due, when conversations are on,
/// the companion cooldown is over and no pet is busy; its next conversation
/// is drawn anew.
pub fn pick_conversation(schedule: &mut CompanionSchedule, settings: &AiSettings, round: &CompanionRound, now: u64, last_event: u64, no_active_task: bool) -> (r: Option<ConversationStart>)
    requires
        round.wf(),
    ensures
        ({
            let keys = string_views(round.pair_keys@);
            let k = first_due_from(old(schedule).next_pet_conversation@, keys, now, 0);
            &&& r is Some <==> (settings.pet_conversation_enabled && cooldown_over(now, last_event) && no_active_task && k is Some)
            &&& r matches Some(start) ==> (k matches Some(kk) && start.first@ == round.pair_members@[kk].0@ && start.second@ == round.pair_members@[kk].1@
                && start.request_id@ == "pet-conversation-"@ + decimal(now as nat)
                && redrawn(old(schedule).next_pet_conversation@, keys[kk], *settings, now, final(schedule).next_pet_conversation@))
            &&& r is None ==> final(schedule).next_pet_conversation == old(schedule).next_pet_conversation
            &&& final(schedule).next_heartbeat == old(schedule).next_heartbeat
        }),
{
    let cooled = now >= last_event && now - last_event >= COMPANION_COOLDOWN_MS;
    if !(settings.pet_conversation_enabled && cooled && no_active_task) {
        return None;
    }
    match first_due(&schedule.next_pet_conversation, &round.pair_keys, now) {
        Some(k) => {
            redraw(&mut schedule.next_pet_conversation, &round.pair_keys[k], settings, now);
            Some(ConversationStart {
                first: round.pair_members[k].0.clone(),
                second: round.pair_members[k].1.clone(),
                request_id: numbered("pet-conversation-", now),
            })
        },
        None => None,
    }
}

/// Picks the first pet whose heartbeat is due, when heartbeats are on, the
/// companion cooldown is over and no pet is busy; returns it with the marker
/// its task is registered under, and draws its next heartbeat.
pub fn pick_heartbeat(schedule: &mut CompanionSchedule, settings: &AiSettings, round: &CompanionRound, now: u64, last_event: u64, any_active: bool) -> (r: Option<(String, String)>)
    ensures
        ({
            let keys = string_views(round.candidates@);
            let k = first_due_from(old(schedule).next_heartbeat@, keys, now, 0);
            &&& r is Some <==> (settings.heartbeat_enabled && cooldown_over(now, last_event) && k is Some && !any_active)
            &&& r matches Some((pet, marker)) ==> (k matches Some(kk) && pet@ == keys[kk]
                && marker@ == "heartbeat-"@ + decimal(now as nat)
                && redrawn(old(schedule).next_heartbeat@, keys[kk], *settings, now, final(schedule).next_heartbeat@))
            &&& r is None ==> final(schedule).next_heartbeat == old(schedule).next_heartbeat
            &&& final(schedule).next_pet_conversation == old(schedule).next_pet_conversation
        }),
{
    let cooled = now >= last_event && now - last_event >= COMPANION_COOLDOWN_MS;
    if !(settings.heartbeat_enabled && cooled) {
        return None;
    }
    match first_due(&schedule.next_heartbeat, &round.candidates, now) {
        Some(k) => {
            if any_active {
                return None;
            }
            redraw(&mut schedule.next_heartbeat, &round.candidates[k], settings, now);
            Some((round.candidates[k].clone(), numbered("heartbeat-", now)))
        },
        None => None,
    }
}

/// A round schedules exactly its own keys: nothing else keeps a due time,
/// and a key that had one keeps it.
pub proof fn law_schedule_tracks_candidates(old: Seq<(String, u64)>, keys: Seq<Seq<char>>, settings: AiSettings, now: u64, new: Seq<(String, u64)>, y: Seq<char>)
    requires
        rescheduled(old, keys, settings, now, new),
    ensures
        lookup(new, y) is Some ==> keys.contains(y),
        keys.contains(y) && lookup(old, y) is Some ==> lookup(new, y) == lookup(old, y),
        keys.contains(y) && lookup(old, y) is None ==> (lookup(new, y) matches Some(d) && due_in_window(settings, now, d)),
{
    lemma_key_index_from(new, y, 0);
    if let Some(i) = key_index(new, y) {
        assert(new[i].0@ == keys[i]);
    }
    if keys.contains(y) {
        let j = choose|j: int| 0 <= j < keys.len() && keys[j] == y;
        assert(new[j].0@ == y);
        assert(key_index(new, y) is Some);
    }
}

/// The chat model a user message goes to: refused while AI is off or no chat
/// model is configured.
pub fn chat_endpoint(settings: &AiSettings) -> (r: Result<ModelEndpointConfig, String>)
    ensures
        !settings.enabled ==> (r matches Err(e) && e@ == "AI 对话未启用"@),
        settings.enabled && settings.chat_model is None ==> (r matches Err(e) && e@ == "尚未配置聊天模型"@),
        settings.enabled && settings.chat_model is Some ==> r == Ok::<ModelEndpointConfig, String>(settings.chat_model->0),
{
    if !settings.enabled {
        return Err(String::from_str("AI 对话未启用"));
    }
    match &settings.chat_model {
        Some(c) => Ok(c.duplicate()),
        None => Err(String::from_str("尚未配置聊天模型")),
    }
}

/// How long after the last message a pet stays quiet on its own.
pub const RECENT_MESSAGE_MS: u64 = 300_000;

/// How long a desktop look lasts before another may be taken.
pub const VISION_INTERVAL_MS: u64 = 3_600_000;

/// A heartbeat may speak: chat is available and heartbeats are on, the pet
/// is neither paused nor quiet, its last message is at least five minutes
/// old, and its next action is not still ahead.
pub open spec fn spec_heartbeat_ready(settings: AiSettings, paused: bool, quiet_mode: bool, last_message_at: Option<u64>, next_action_at: u64, now: u64) -> bool {
    &&& spec_have_chat(settings)
    &&& settings.heartbeat_enabled
    &&& !paused
    &&& !quiet_mode
    &&& !(last_message_at matches Some(t) && (if now >= t { now - t } else { 0 }) < RECENT_MESSAGE_MS)
    &&& next_action_at <= now
}

/// A pet in quiet mode or paused never speaks on a heartbeat, nor while
/// heartbeats are off or its next action is still ahead.
pub proof fn law_quiet_or_paused_pets_stay_silent(
    settings: AiSettings,
    paused: bool,
    quiet_mode: bool,
    last_message_at: Option<u64>,
    next_action_at: u64,
    now: u64,
)
    ensures
        (quiet_mode || paused || !settings.heartbeat_enabled || now < next_action_at)
            ==> !spec_heartbeat_ready(settings, paused, quiet_mode, last_message_at, next_action_at, now),
{
}

pub fn heartbeat_ready(settings: &AiSettings, paused: bool, quiet_mode: bool, last_message_at: Option<u64>, next_action_at: u64, now: u64) -> (r: bool)
    ensures
        r == spec_heartbeat_ready(*settings, paused, quiet_mode, last_message_at, next_action_at, now),
        quiet_mode ==> !r,
        paused ==> !r,
        !settings.heartbeat_enabled ==> !r,
        now < next_action_at ==> !r,
{
    proof {
        law_quiet_or_paused_pets_stay_silent(*settings, paused, quiet_mode, last_message_at, next_action_at, now);
    }
    if !settings_have_chat(settings) || !settings.heartbeat_enabled || paused || quiet_mode {
        return false;
    }
    match last_message_at {
        Some(t) => {
            let age = if now >= t { now - t } else { 0 };
            if age < RECENT_MESSAGE_MS {
                return false;
            }
        },
        None => {},
    }
    next_action_at <= now
}

/// A heartbeat may look at the desktop (before the random draw against the
/// configured chance): desktop vision is on with a named vision model, no
/// chat window is open, and the last look is at least an hour old.
pub open spec fn spec_vision_allowed(settings: AiSettings, chat_window_open: bool, last_vision_at: u64, now: u64) -> bool {
    &&& settings.desktop_vision_enabled
    &&& model_named(settings.vision_model)
    &&& !chat_window_open
    &&& (if now >= last_vision_at { now - last_vision_at } else { 0 }) >= VISION_INTERVAL_MS
}

pub fn vision_allowed(settings: &AiSettings, chat_window_open: bool, last_vision_at: u64, now: u64) -> (r: bool)
    ensures
        r == spec_vision_allowed(*settings, chat_window_open, last_vision_at, now),
{
    let age = if now >= last_vision_at { now - last_vision_at } else { 0 };
    settings.desktop_vision_enabled && model_is_named(&settings.vision_model) && !chat_window_open && age >= VISION_INTERVAL_MS
}

/// A screenshot is compared with the model only when an earlier one exists
/// and its fingerprint differs.
pub fn fingerprint_changed(previous: Option<u64>, current: u64) -> (r: bool)
    ensures
        r == (previous matches Some(p) && p != current),
{
    match previous {
        Some(p) => p != current,
        None => false,
    }
}

/// The request that asks the vision model to compare a screenshot with the
/// previous observation.
pub open spec fn spec_vision_request(previous_summary: Seq<char>) -> Seq<char> {
    "请观察这张桌面截图，并与上一次观察进行比较。上一次观察摘要："@
        + (if previous_summary.len() == 0 { "无"@ } else { previous_summary })
        + "。只返回 JSON：{\"changed\":true/false,\"summary\":\"有意义的界面或活动变化\"}。不要复述密码、令牌、私人联系方式或其他敏感文本。"@
}

pub fn vision_request(previous_summary: &str) -> (r: String)
    ensures
        r@ == spec_vision_request(previous_summary@),
{
    let mut v = chars_of("请观察这张桌面截图，并与上一次观察进行比较。上一次观察摘要：");
    let p = chars_of(previous_summary);
    if p.len() == 0 {
        push_str_chars(&mut v, "无");
    } else {
        push_all(&mut v, &p);
    }
    push_str_chars(&mut v, "。只返回 JSON：{\"changed\":true/false,\"summary\":\"有意义的界面或活动变化\"}。不要复述密码、令牌、私人联系方式或其他敏感文本。");
    string_of(&v)
}

/// A heartbeat reply is kept unless it is empty or `NO_REPLY` in any ASCII
/// case.
pub fn heartbeat_reply_kept(reply: &str) -> (r: bool)
    ensures
        r == (reply@.len() > 0 && ascii_lower(reply@) != ascii_lower("NO_REPLY"@)),
{
    let c = chars_of(reply);
    if c.len() == 0 {
        return false;
    }
    let lower = ascii_lower_vec(&c);
    let marker = chars_of("NO_REPLY");
    let lm = ascii_lower_vec(&marker);
    !chars_eq(&lower, &lm)
}

/// Two pets may talk: chat is available and conversations are on, neither
/// pet is paused or quiet, and no chat window is open.
pub open spec fn spec_conversation_ready(settings: AiSettings, first_paused: bool, first_quiet: bool, second_paused: bool, second_quiet: bool, chat_window_open: bool) -> bool {
    spec_have_chat(settings) && settings.pet_conversation_enabled && !first_paused && !first_quiet && !second_paused
        && !second_quiet && !chat_window_open
}

pub fn conversation_ready(settings: &AiSettings, first_paused: bool, first_quiet: bool, second_paused: bool, second_quiet: bool, chat_window_open: bool) -> (r: bool)
    ensures
        r == spec_conversation_ready(*settings, first_paused, first_quiet, second_paused, second_quiet, chat_window_open),
{
    settings_have_chat(settings) && settings.pet_conversation_enabled && !first_paused && !first_quiet && !second_paused
        && !second_quiet && !chat_window_open
}

} // verus!
