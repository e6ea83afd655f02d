//! A pet's life state: mood, energy, attention and bond, and how time,
//! user interactions and the pet's own behaviour change them.

use vstd::prelude::*;
use crate::behavior::{BehaviorView, PetBehavior};
use crate::platform::now_ms;
use crate::text::{ascii_lower, ascii_lower_vec, chars_eq_str, chars_of, trim, trim_ws};

verus! {

/// The persisted life state of one pet.
#[derive(Clone, Debug)]
pub struct PetLifeState {
    pub mood: String,
    pub energy: u8,
    pub attention: u8,
    pub bond: u8,
    pub activity: String,
    pub last_interaction_at: u64,
    pub last_spoke_at: u64,
    pub known_since: u64,
    pub interaction_count: u64,
    pub chat_count: u64,
    pub pet_interaction_count: u64,
    pub next_action_at: u64,
}

/// The mathematical content of a `PetLifeState`.
pub struct LifeView {
    pub mood: Seq<char>,
    pub energy: u8,
    pub attention: u8,
    pub bond: u8,
    pub activity: Seq<char>,
    pub last_interaction_at: u64,
    pub last_spoke_at: u64,
    pub known_since: u64,
    pub interaction_count: u64,
    pub chat_count: u64,
    pub pet_interaction_count: u64,
    pub next_action_at: u64,
}

impl View for PetLifeState {
    type V = LifeView;

    open spec fn view(&self) -> LifeView {
        LifeView {
            mood: self.mood@,
            energy: self.energy,
            attention: self.attention,
            bond: self.bond,
            activity: self.activity@,
            last_interaction_at: self.last_interaction_at,
            last_spoke_at: self.last_spoke_at,
            known_since: self.known_since,
            interaction_count: self.interaction_count,
            chat_count: self.chat_count,
            pet_interaction_count: self.pet_interaction_count,
            next_action_at: self.next_action_at,
        }
    }
}

/// A new pet: calm, rested, fairly attentive, no bond yet.
pub open spec fn new_life(now: u64) -> LifeView {
    LifeView {
        mood: "calm"@,
        energy: 78,
        attention: 55,
        bond: 0,
        activity: "idle"@,
        last_interaction_at: 0,
        last_spoke_at: 0,
        known_since: now,
        interaction_count: 0,
        chat_count: 0,
        pet_interaction_count: 0,
        next_action_at: 0,
    }
}

impl PetLifeState {
    /// The state of a pet first met at `now`.
    pub fn new_at(now: u64) -> (r: Self)
        ensures
            r@ == new_life(now),
    {
        PetLifeState {
            mood: String::from_str("calm"),
            energy: 78,
            attention: 55,
            bond: 0,
            activity: String::from_str("idle"),
            last_interaction_at: 0,
            last_spoke_at: 0,
            known_since: now,
            interaction_count: 0,
            chat_count: 0,
            pet_interaction_count: 0,
            next_action_at: 0,
        }
    }
}

impl Default for PetLifeState {
    /// A pet met now (the wall clock).
    fn default() -> (r: Self)
        ensures
            r@ == new_life(r.known_since),
    {
        PetLifeState::new_at(now_ms())
    }
}

pub const HOUR_MS: u64 = 3_600_000;

pub open spec fn sat_sub_u8(a: u8, b: int) -> u8 {
    if a - b < 0 { 0 } else { (a - b) as u8 }
}

pub open spec fn min_int(a: int, b: int) -> int {
    if a < b { a } else { b }
}

/// The mood and activity that energy and attention call for.
pub open spec fn settle_mood(s: LifeView) -> LifeView {
    if s.energy <= 20 {
        LifeView { mood: "sleepy"@, activity: "sleeping"@, ..s }
    } else if s.energy >= 55 && s.activity == "sleeping"@ {
        LifeView { mood: "calm"@, activity: "idle"@, ..s }
    } else if s.attention <= 20 {
        LifeView { mood: "lonely"@, ..s }
    } else {
        s
    }
}

/// Time passing until `now`: each full hour since the last interaction
/// costs 2 attention (at most 20); a sleeping or sleepy pet regains 6 energy
/// per hour (at most 72, capped at 100). A pet never interacted with only
/// gets its first-met time set.
pub open spec fn spec_advance(s: LifeView, now: u64) -> LifeView {
    let s1 = if s.known_since == 0 { LifeView { known_since: now, ..s } } else { s };
    if s1.last_interaction_at == 0 {
        s1
    } else {
        let elapsed = if now >= s1.last_interaction_at { now - s1.last_interaction_at } else { 0 };
        let hours = elapsed / (HOUR_MS as int);
        let s2 = if hours > 0 {
            let attention = sat_sub_u8(s1.attention, 2 * min_int(hours, 10));
            let energy = if s1.activity == "sleeping"@ || s1.mood == "sleepy"@ {
                let e = s1.energy + 6 * min_int(hours, 12);
                if e > 100 { 100u8 } else { e as u8 }
            } else {
                s1.energy
            };
            LifeView { attention, energy, ..s1 }
        } else {
            s1
        };
        settle_mood(s2)
    }
}

/// Applies the time that passed until `now`.
pub fn advance_pet_life_state(state: &mut PetLifeState, now: u64)
    ensures
        final(state)@ == spec_advance(old(state)@, now),
{
    if state.known_since == 0 {
        state.known_since = now;
    }
    if state.last_interaction_at == 0 {
        return;
    }
    let hours = now.saturating_sub(state.last_interaction_at) / HOUR_MS;
    if hours > 0 {
        let h10: u8 = if hours < 10 { hours as u8 } else { 10 };
        state.attention = state.attention.saturating_sub(h10 * 2);
        let activity = chars_of(state.activity.as_str());
        let mood = chars_of(state.mood.as_str());
        if chars_eq_str(&activity, "sleeping") || chars_eq_str(&mood, "sleepy") {
            let h12: u8 = if hours < 12 { hours as u8 } else { 12 };
            let e = state.energy.saturating_add(h12 * 6);
            state.energy = if e > 100 { 100 } else { e };
        }
    }
    let activity = chars_of(state.activity.as_str());
    if state.energy <= 20 {
        state.mood = String::from_str("sleepy");
        state.activity = String::from_str("sleeping");
    } else if state.energy >= 55 && chars_eq_str(&activity, "sleeping") {
        state.mood = String::from_str("calm");
        state.activity = String::from_str("idle");
    } else if state.attention <= 20 {
        state.mood = String::from_str("lonely");
    }
}

pub open spec fn up_to_100(v: u8, add: int) -> u8 {
    if v + add > 100 { 100 } else { (v + add) as u8 }
}

pub open spec fn sat_inc(v: u64) -> u64 {
    if v == u64::MAX { v } else { (v + 1) as u64 }
}

/// An interaction of the given kind at `now` (the kind compared without
/// ASCII case): double-clicks and chats cheer the pet up, dragging and
/// walking tire it a little, speaking and heartbeats only mark that it
/// spoke, a noticed desktop change makes it curious, a conversation with
/// another pet makes it social, and anything else is play.
pub open spec fn spec_interaction(s: LifeView, kind: Seq<char>, now: u64) -> LifeView {
    let k = ascii_lower(kind);
    let s0 = LifeView { last_interaction_at: now, interaction_count: sat_inc(s.interaction_count), ..s };
    if k == "doubleclick"@ || k == "double_click"@ || k == "chat"@ {
        LifeView {
            attention: up_to_100(s0.attention, 16),
            bond: up_to_100(s0.bond, 1),
            mood: "happy"@,
            activity: "chatting"@,
            chat_count: if k == "chat"@ { sat_inc(s0.chat_count) } else { s0.chat_count },
            ..s0
        }
    } else if k == "drag"@ {
        LifeView {
            attention: up_to_100(s0.attention, 6),
            energy: sat_sub_u8(s0.energy, 1),
            mood: "curious"@,
            activity: "playing"@,
            ..s0
        }
    } else if k == "walk"@ {
        LifeView {
            attention: up_to_100(s0.attention, 3),
            energy: sat_sub_u8(s0.energy, 2),
            mood: "content"@,
            activity: "walking"@,
            ..s0
        }
    } else if k == "speak"@ || k == "heartbeat"@ {
        LifeView { last_spoke_at: now, activity: "speaking"@, ..s0 }
    } else if k == "vision-change"@ || k == "vision_change"@ {
        LifeView { attention: up_to_100(s0.attention, 4), mood: "curious"@, activity: "watching"@, ..s0 }
    } else if k == "pet-conversation"@ || k == "pet_conversation"@ {
        LifeView {
            attention: up_to_100(s0.attention, 5),
            bond: up_to_100(s0.bond, 1),
            pet_interaction_count: sat_inc(s0.pet_interaction_count),
            mood: "social"@,
            activity: "talking"@,
            ..s0
        }
    } else {
        LifeView {
            attention: up_to_100(s0.attention, 8),
            bond: up_to_100(s0.bond, 1),
            mood: "happy"@,
            activity: "playing"@,
            ..s0
        }
    }
}

/// Energy, attention and bond capped at 100.
pub open spec fn spec_clamp_stats(s: LifeView) -> LifeView {
    LifeView {
        energy: if s.energy > 100 { 100 } else { s.energy },
        attention: if s.attention > 100 { 100 } else { s.attention },
        bond: if s.bond > 100 { 100 } else { s.bond },
        ..s
    }
}

/// The stats are within 0..=100.
pub open spec fn stats_bounded(s: LifeView) -> bool {
    s.energy <= 100 && s.attention <= 100 && s.bond <= 100
}

fn clamp_stats(state: &mut PetLifeState)
    ensures
        final(state)@ == spec_clamp_stats(old(state)@),
{
    if state.energy > 100 {
        state.energy = 100;
    }
    if state.attention > 100 {
        state.attention = 100;
    }
    if state.bond > 100 {
        state.bond = 100;
    }
}

fn add_capped(v: u8, add: u8) -> (r: u8)
    ensures
        r == up_to_100(v, add as int),
{
    let x = v.saturating_add(add);
    if x > 100 { 100 } else { x }
}

fn apply_interaction(state: &mut PetLifeState, kind: &str, now: u64)
    ensures
        final(state)@ == spec_interaction(old(state)@, kind@, now),
{
    let kc = chars_of(kind);
    let k = ascii_lower_vec(&kc);
    state.last_interaction_at = now;
    state.interaction_count = state.interaction_count.saturating_add(1);
    if chars_eq_str(&k, "doubleclick") || chars_eq_str(&k, "double_click") || chars_eq_str(&k, "chat") {
        state.attention = add_capped(state.attention, 16);
        state.bond = add_capped(state.bond, 1);
        state.mood = String::from_str("happy");
        state.activity = String::from_str("chatting");
        if chars_eq_str(&k, "chat") {
            state.chat_count = state.chat_count.saturating_add(1);
        }
    } else if chars_eq_str(&k, "drag") {
        state.attention = add_capped(state.attention, 6);
        state.energy = state.energy.saturating_sub(1);
        state.mood = String::from_str("curious");
        state.activity = String::from_str("playing");
    } else if chars_eq_str(&k, "walk") {
        state.attention = add_capped(state.attention, 3);
        state.energy = state.energy.saturating_sub(2);
        state.mood = String::from_str("content");
        state.activity = String::from_str("walking");
    } else if chars_eq_str(&k, "speak") || chars_eq_str(&k, "heartbeat") {
        state.last_spoke_at = now;
        state.activity = String::from_str("speaking");
    } else if chars_eq_str(&k, "vision-change") || chars_eq_str(&k, "vision_change") {
        state.attention = add_capped(state.attention, 4);
        state.mood = String::from_str("curious");
        state.activity = String::from_str("watching");
    } else if chars_eq_str(&k, "pet-conversation") || chars_eq_str(&k, "pet_conversation") {
        state.attention = add_capped(state.attention, 5);
        state.bond = add_capped(state.bond, 1);
        state.pet_interaction_count = state.pet_interaction_count.saturating_add(1);
        state.mood = String::from_str("social");
        state.activity = String::from_str("talking");
    } else {
        state.attention = add_capped(state.attention, 8);
        state.bond = add_capped(state.bond, 1);
        state.mood = String::from_str("happy");
        state.activity = String::from_str("playing");
    }
}

/// The state as it is read at `now`: time applied, stats capped.
pub fn pet_life_state(state: &mut PetLifeState, now: u64)
    ensures
        final(state)@ == spec_clamp_stats(spec_advance(old(state)@, now)),
{
    advance_pet_life_state(state, now);
    clamp_stats(state);
}

/// Records a user interaction of `kind` at `now`.
pub fn record_pet_interaction_internal(state: &mut PetLifeState, kind: &str, now: u64)
    ensures
        final(state)@ == spec_clamp_stats(spec_interaction(spec_advance(old(state)@, now), kind@, now)),
{
    advance_pet_life_state(state, now);
    apply_interaction(state, kind, now);
    clamp_stats(state);
}

/// What performing a behaviour does: a non-blank mood is taken over, the
/// action sets the activity, speaking marks the time, and the next
/// spontaneous action is scheduled.
pub open spec fn spec_behavior(s: LifeView, b: BehaviorView, now: u64) -> LifeView {
    let speaks = trim(b.say).len() > 0;
    let activity = if b.action == "walk"@ {
        "walking"@
    } else if b.action == "sleep"@ {
        "sleeping"@
    } else if b.action == "waving"@ || b.action == "jumping"@ {
        "playing"@
    } else if speaks {
        "speaking"@
    } else {
        "idle"@
    };
    let next = now + b.next_action_after * 1_000;
    LifeView {
        mood: if trim(b.mood).len() > 0 { b.mood } else { s.mood },
        activity,
        last_spoke_at: if speaks { now } else { s.last_spoke_at },
        next_action_at: if b.next_action_after > 0 {
            if next > u64::MAX { u64::MAX } else { next as u64 }
        } else {
            s.next_action_at
        },
        ..s
    }
}

/// Records that the pet performed `behavior` at `now`.
pub fn record_pet_behavior_internal(state: &mut PetLifeState, behavior: &PetBehavior, now: u64)
    requires
        behavior.next_action_after <= u64::MAX / 1_000,
    ensures
        final(state)@ == spec_clamp_stats(spec_behavior(spec_advance(old(state)@, now), behavior@, now)),
{
    advance_pet_life_state(state, now);
    let mc = chars_of(behavior.mood.as_str());
    let mt = trim_ws(&mc);
    if mt.len() > 0 {
        state.mood = behavior.mood.clone();
    }
    let sc = chars_of(behavior.say.as_str());
    let st = trim_ws(&sc);
    let speaks = st.len() > 0;
    let a = chars_of(behavior.action.as_str());
    state.activity = if chars_eq_str(&a, "walk") {
        String::from_str("walking")
    } else if chars_eq_str(&a, "sleep") {
        String::from_str("sleeping")
    } else if chars_eq_str(&a, "waving") || chars_eq_str(&a, "jumping") {
        String::from_str("playing")
    } else if speaks {
        String::from_str("speaking")
    } else {
        String::from_str("idle")
    };
    if speaks {
        state.last_spoke_at = now;
    }
    if behavior.next_action_after > 0 {
        state.next_action_at = now.saturating_add(behavior.next_action_after * 1_000);
    }
    clamp_stats(state);
}

/// The pet finishes whatever it was doing at `now`.
pub fn settle_pet_activity_internal(state: &mut PetLifeState, now: u64)
    ensures
        final(state)@ == spec_clamp_stats(LifeView { activity: "idle"@, ..spec_advance(old(state)@, now) }),
{
    advance_pet_life_state(state, now);
    state.activity = String::from_str("idle");
    clamp_stats(state);
}

/// Whatever happens to a pet, its energy, attention and bond stay within
/// 0..=100 afterwards.
pub proof fn law_stats_bounded(s: LifeView, kind: Seq<char>, b: BehaviorView, now: u64)
    ensures
        stats_bounded(spec_clamp_stats(spec_advance(s, now))),
        stats_bounded(spec_clamp_stats(spec_interaction(spec_advance(s, now), kind, now))),
        stats_bounded(spec_clamp_stats(spec_behavior(spec_advance(s, now), b, now))),
{
}

/// Time alone never raises attention, and every interaction is counted.
pub proof fn law_time_and_counting(s: LifeView, kind: Seq<char>, now: u64)
    ensures
        spec_advance(s, now).attention <= s.attention,
        s.interaction_count < u64::MAX ==> spec_interaction(spec_advance(s, now), kind, now).interaction_count == s.interaction_count + 1,
        spec_interaction(spec_advance(s, now), kind, now).last_interaction_at == now,
{
}

/// A pet left alone for ten hours or more with at most 40 attention and
/// more than 20 energy, awake, ends up with at most 20 attention and lonely.
pub proof fn law_neglect_makes_lonely(s: LifeView, now: u64)
    requires
        s.known_since != 0,
        s.last_interaction_at != 0,
        now >= s.last_interaction_at + 10 * HOUR_MS,
        s.attention <= 40,
        s.energy > 20,
        s.activity != "sleeping"@,
        s.mood != "sleepy"@,
    ensures
        spec_advance(s, now).attention <= 20,
        spec_advance(s, now).mood == "lonely"@,
{
    let elapsed = now - s.last_interaction_at;
    assert(elapsed / (HOUR_MS as int) >= 10) by (nonlinear_arith)
        requires
            elapsed >= 10 * 3_600_000,
    ;
}

} // verus!
