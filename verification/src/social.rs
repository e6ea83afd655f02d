//! Social coordination: settings, the scene scheduler, who takes part in a
//! scene, proximity cooldowns and reading the social log.

use vstd::prelude::*;
use crate::platform::random_between;
use crate::relationship::{pair_key, spec_pair_key, is_safe_id, spec_is_safe_id, seq_lt, str_lt};
use crate::scene::string_views;
use crate::text::{chars_eq, chars_eq_str, chars_of};

verus! {

/// The user's social preferences.
#[derive(Clone, Copy, Debug)]
pub struct SocialSettings {
    pub enabled: bool,
    pub min_interval_minutes: u32,
    pub max_interval_minutes: u32,
    pub proximity_enabled: bool,
    pub manual_enabled: bool,
    pub max_participants: u8,
    pub props_enabled: bool,
}

impl Default for SocialSettings {
    fn default() -> (r: Self)
        ensures
            r == (SocialSettings {
                enabled: true,
                min_interval_minutes: 3,
                max_interval_minutes: 10,
                proximity_enabled: true,
                manual_enabled: true,
                max_participants: 4,
                props_enabled: true,
            }),
    {
        SocialSettings {
            enabled: true,
            min_interval_minutes: 3,
            max_interval_minutes: 10,
            proximity_enabled: true,
            manual_enabled: true,
            max_participants: 4,
            props_enabled: true,
        }
    }
}

pub open spec fn clamp(v: int, lo: int, hi: int) -> int {
    if v < lo { lo } else if v > hi { hi } else { v }
}

/// Settings as they are saved: the interval within 1..=120 minutes at the
/// least and up to 240 at the most, never shorter than the least, and two to
/// four participants.
pub open spec fn social_normalized(old: SocialSettings, new: SocialSettings) -> bool {
    &&& new.min_interval_minutes == clamp(old.min_interval_minutes as int, 1, 120)
    &&& new.max_interval_minutes == clamp(old.max_interval_minutes as int, new.min_interval_minutes as int, 240)
    &&& new.max_participants == clamp(old.max_participants as int, 2, 4)
    &&& new.enabled == old.enabled
    &&& new.proximity_enabled == old.proximity_enabled
    &&& new.manual_enabled == old.manual_enabled
    &&& new.props_enabled == old.props_enabled
}

pub fn normalize_social_settings(settings: SocialSettings) -> (r: SocialSettings)
    ensures
        social_normalized(settings, r),
        r.min_interval_minutes <= r.max_interval_minutes <= 240,
{
    let min = if settings.min_interval_minutes < 1 { 1 } else if settings.min_interval_minutes > 120 { 120 } else { settings.min_interval_minutes };
    let max = if settings.max_interval_minutes < min { min } else if settings.max_interval_minutes > 240 { 240 } else { settings.max_interval_minutes };
    let parts = if settings.max_participants < 2 { 2 } else if settings.max_participants > 4 { 4 } else { settings.max_participants };
    SocialSettings { min_interval_minutes: min, max_interval_minutes: max, max_participants: parts, ..settings }
}

/// The scheduler's interval bounds fit its arithmetic.
pub open spec fn schedulable(settings: SocialSettings, now: u64) -> bool {
    &&& settings.min_interval_minutes <= settings.max_interval_minutes
    &&& settings.max_interval_minutes as int * 60_000 <= u32::MAX
    &&& now as int + settings.max_interval_minutes as int * 60_000 <= u64::MAX
}

pub open spec fn in_interval(settings: SocialSettings, now: u64, next: u64) -> bool {
    now + settings.min_interval_minutes as int * 60_000 <= next <= now + settings.max_interval_minutes as int * 60_000
}

/// One tick of the scene scheduler: the first tick only draws the next due
/// time; later ticks say whether a scheduled scene is due and, when it is,
/// draw the time after it. Nothing happens while social play is off.
pub fn social_scheduler_tick(next: &mut u64, settings: &SocialSettings, now: u64) -> (due: bool)
    requires
        schedulable(*settings, now),
    ensures
        !settings.enabled ==> !due && *final(next) == *old(next),
        settings.enabled ==> (due <==> (*old(next) != 0 && now >= *old(next))),
        settings.enabled && (*old(next) == 0 || due) ==> in_interval(*settings, now, *final(next)),
        settings.enabled && !(*old(next) == 0 || due) ==> *final(next) == *old(next),
{
    if !settings.enabled {
        return false;
    }
    let min = settings.min_interval_minutes * 60_000;
    let max = settings.max_interval_minutes * 60_000;
    if *next == 0 {
        *next = now + random_between(min as u64, max as u64);
        return false;
    }
    if now >= *next {
        *next = now + random_between(min as u64, max as u64);
        return true;
    }
    false
}

/// How long two pets that met by proximity wait before it may start a scene
/// again.
pub const PROXIMITY_COOLDOWN_MS: u64 = 30_000;

pub open spec fn cd_view(v: Seq<(String, u64)>) -> Seq<(Seq<char>, u64)> {
    v.map_values(|e: (String, u64)| (e.0@, e.1))
}

/// The cooldowns still running at `now`, in order.
pub open spec fn live(s: Seq<(Seq<char>, u64)>, now: u64) -> Seq<(Seq<char>, u64)>
    decreases s.len(),
{
    if s.len() == 0 {
        s
    } else {
        let rest = live(s.drop_last(), now);
        if s.last().1 > now { rest.push(s.last()) } else { rest }
    }
}

pub open spec fn has_key(s: Seq<(Seq<char>, u64)>, k: Seq<char>) -> bool {
    exists|i: int| 0 <= i < s.len() && (#[trigger] s[i]).0 == k
}

pub open spec fn sat_add_u64(a: u64, b: u64) -> u64 {
    if a + b > u64::MAX { u64::MAX } else { (a + b) as u64 }
}

/// Claiming the proximity cooldown of a pair: expired cooldowns are dropped;
/// the claim succeeds, and starts the pair's cooldown, unless one is running.
/// Invalid pairs are refused and change nothing.
pub open spec fn spec_claim(s: Seq<(Seq<char>, u64)>, first: Seq<char>, second: Seq<char>, now: u64) -> (bool, Seq<(Seq<char>, u64)>) {
    match spec_pair_key(first, second) {
        None => (false, s),
        Some((k, _, _)) => {
            let l = live(s, now);
            if has_key(l, k) { (false, l) } else { (true, l.push((k, sat_add_u64(now, PROXIMITY_COOLDOWN_MS)))) }
        },
    }
}

pub fn claim_proximity_cooldown(cooldowns: &mut Vec<(String, u64)>, first: &str, second: &str, now: u64) -> (r: bool)
    ensures
        (r, cd_view(final(cooldowns)@)) == spec_claim(cd_view(old(cooldowns)@), first@, second@, now),
{
    let key = match pair_key(first, second) {
        Ok((k, _, _)) => k,
        Err(_) => return false,
    };
    let ghost old_view = cd_view(cooldowns@);
    let mut kept: Vec<(String, u64)> = Vec::new();
    let mut i: usize = 0;
    while i < cooldowns.len()
        invariant
            i <= cooldowns.len(),
            old_view == cd_view(cooldowns@),
            cooldowns@ == old(cooldowns)@,
            cd_view(kept@) == live(old_view.take(i as int), now),
        decreases cooldowns.len() - i,
    {
        assert(old_view.take(i + 1).drop_last() =~= old_view.take(i as int));
        if cooldowns[i].1 > now {
            let ghost before = cd_view(kept@);
            kept.push((cooldowns[i].0.clone(), cooldowns[i].1));
            assert(cd_view(kept@) =~= before.push(old_view[i as int]));
        }
        i = i + 1;
    }
    assert(old_view.take(cooldowns.len() as int) =~= old_view);
    let kc = chars_of(key.as_str());
    let mut j: usize = 0;
    while j < kept.len()
        invariant
            j <= kept.len(),
            kc@ == key@,
            cd_view(kept@) == live(old_view, now),
            old_view == cd_view(old(cooldowns)@),
            spec_pair_key(first@, second@) matches Some((k, _, _)) && k == key@,
            forall|m: int| 0 <= m < j ==> cd_view(kept@)[m].0 != key@,
        decreases kept.len() - j,
    {
        if chars_eq(&chars_of(kept[j].0.as_str()), &kc) {
            assert(cd_view(kept@)[j as int].0 == key@);
            assert(has_key(cd_view(kept@), key@));
            assert(has_key(live(old_view, now), key@));
            *cooldowns = kept;
            return false;
        }
        j = j + 1;
    }
    let until = if now > u64::MAX - PROXIMITY_COOLDOWN_MS { u64::MAX } else { now + PROXIMITY_COOLDOWN_MS };
    let ghost before = cd_view(kept@);
    kept.push((key, until));
    assert(cd_view(kept@) =~= before.push((key@, until)));
    *cooldowns = kept;
    true
}

proof fn lemma_live_contains(s: Seq<(Seq<char>, u64)>, now: u64, e: (Seq<char>, u64))
    requires
        s.contains(e),
        e.1 > now,
    ensures
        live(s, now).contains(e),
    decreases s.len(),
{
    if s.last() == e {
        assert(live(s, now).last() == e);
    } else {
        let k = choose|k: int| 0 <= k < s.len() && s[k] == e;
        assert(s.drop_last()[k] == e);
        lemma_live_contains(s.drop_last(), now, e);
        let l = live(s.drop_last(), now);
        let m = choose|m: int| 0 <= m < l.len() && l[m] == e;
        if s.last().1 > now {
            assert(l.push(s.last())[m] == e);
        }
    }
}

/// Two proximity scenes of the same pair are at least the cooldown apart:
/// after a successful claim, claiming the pair again, in either order,
/// fails until the cooldown has run out.
pub proof fn law_proximity_cooldown_holds(s: Seq<(Seq<char>, u64)>, a: Seq<char>, b: Seq<char>, t1: u64, t2: u64)
    requires
        spec_claim(s, a, b, t1).0,
        t1 <= t2,
        t2 < sat_add_u64(t1, PROXIMITY_COOLDOWN_MS),
    ensures
        !spec_claim(spec_claim(s, a, b, t1).1, b, a, t2).0,
{
    crate::relationship::law_pair_key_symmetric(a, b);
    let (k, _f, _s) = spec_pair_key(a, b)->0;
    let after = spec_claim(s, a, b, t1).1;
    let e = (k, sat_add_u64(t1, PROXIMITY_COOLDOWN_MS));
    assert(after.last() == e);
    assert(after.contains(e));
    lemma_live_contains(after, t2, e);
    let l = live(after, t2);
    let m = choose|m: int| 0 <= m < l.len() && l[m] == e;
    assert(l[m].0 == k);
}

/// A pet that can join a scene: its id and the monitor it is on. Positions
/// stay with the application, which hands in the order of nearness.
#[derive(Debug)]
pub struct SocialCandidate {
    pub pet_id: String,
    pub monitor_key: String,
}

/// The elements of `s` satisfying `p`, in order.
pub open spec fn keep(s: Seq<usize>, p: spec_fn(usize) -> bool) -> Seq<usize>
    decreases s.len(),
{
    if s.len() == 0 {
        s
    } else {
        let rest = keep(s.drop_last(), p);
        if p(s.last()) { rest.push(s.last()) } else { rest }
    }
}

/// The first candidate with id `id`.
pub open spec fn find_pet_from(av: Seq<SocialCandidate>, id: Seq<char>, i: nat) -> Option<int>
    decreases av.len() - i,
{
    if i >= av.len() {
        None
    } else if av[i as int].pet_id@ == id {
        Some(i as int)
    } else {
        find_pet_from(av, id, i + 1)
    }
}

pub proof fn lemma_find_pet_from(av: Seq<SocialCandidate>, id: Seq<char>, i: nat)
    ensures
        find_pet_from(av, id, i) matches Some(k) ==> i <= k < av.len() && av[k].pet_id@ == id,
    decreases av.len() - i,
{
    if i < av.len() && av[i as int].pet_id@ != id {
        lemma_find_pet_from(av, id, i + 1);
    }
}

pub open spec fn has_pet(av: Seq<SocialCandidate>, sel: Seq<usize>, id: Seq<char>) -> bool {
    exists|j: int| 0 <= j < sel.len() && av[#[trigger] sel[j] as int].pet_id@ == id
}

/// The requested pets that are available, each once, in request order.
pub open spec fn select_requested(av: Seq<SocialCandidate>, req: Seq<Seq<char>>) -> Seq<usize>
    decreases req.len(),
{
    if req.len() == 0 {
        Seq::empty()
    } else {
        let sel = select_requested(av, req.drop_last());
        match find_pet_from(av, req.last(), 0) {
            Some(i) => if has_pet(av, sel, av[i].pet_id@) { sel } else { sel.push(i as usize) },
            None => sel,
        }
    }
}

pub open spec fn take_at_most<T>(s: Seq<T>, n: int) -> Seq<T> {
    if s.len() > n { s.take(n) } else { s }
}

pub open spec fn valid_indices(av: Seq<SocialCandidate>, s: Seq<usize>) -> bool {
    forall|j: int| 0 <= j < s.len() ==> (#[trigger] s[j]) < av.len()
}

/// Pets that can come along with a single requested pet: others on its
/// monitor, nearest first.
pub open spec fn nearby_pred(av: Seq<SocialCandidate>, src: usize) -> spec_fn(usize) -> bool {
    |o: usize| o < av.len() && av[o as int].pet_id@ != av[src as int].pet_id@ && av[o as int].monitor_key@ == av[src as int].monitor_key@
}

pub open spec fn nearby(av: Seq<SocialCandidate>, order: Seq<usize>, src: usize) -> Seq<usize> {
    keep(order, nearby_pred(av, src))
}

/// Candidates on a monitor.
pub open spec fn monitor_pred(av: Seq<SocialCandidate>, m: Seq<char>) -> spec_fn(usize) -> bool {
    |o: usize| o < av.len() && av[o as int].monitor_key@ == m
}

pub open spec fn on_monitor(av: Seq<SocialCandidate>, s: Seq<usize>, m: Seq<char>) -> Seq<usize> {
    keep(s, monitor_pred(av, m))
}

/// A candidate shares its monitor with another candidate.
pub open spec fn has_partner(av: Seq<SocialCandidate>, i: int) -> bool {
    exists|j: int| 0 <= j < av.len() && j != i && (#[trigger] av[j]).monitor_key@ == av[i].monitor_key@
}

/// The first candidate, from `i` on, that shares its monitor.
pub open spec fn first_with_partner(av: Seq<SocialCandidate>, i: nat) -> Option<int>
    decreases av.len() - i,
{
    if i >= av.len() {
        None
    } else if has_partner(av, i as int) {
        Some(i as int)
    } else {
        first_with_partner(av, i + 1)
    }
}

/// Inserts `x` after every entry whose pet id is not greater.
pub open spec fn insert_by_id(av: Seq<SocialCandidate>, s: Seq<usize>, x: usize) -> Seq<usize>
    decreases s.len(),
{
    if s.len() == 0 {
        seq![x]
    } else if !seq_lt(av[x as int].pet_id@, av[s.last() as int].pet_id@) {
        s.push(x)
    } else {
        insert_by_id(av, s.drop_last(), x).push(s.last())
    }
}

/// Stable ordering by pet id.
pub open spec fn sort_by_id(av: Seq<SocialCandidate>, s: Seq<usize>) -> Seq<usize>
    decreases s.len(),
{
    if s.len() == 0 {
        s
    } else {
        insert_by_id(av, sort_by_id(av, s.drop_last()), s.last())
    }
}

pub open spec fn all_indices(n: nat) -> Seq<usize> {
    Seq::new(n, |i: int| i as usize)
}

/// Who takes part in a scene, as indices into `av`. With requested pets:
/// those available (at most `max` requests are looked at); a single one is
/// joined by its nearest neighbours on the same monitor; the scene keeps the
/// pets on the first one's monitor and needs two of them. Without a request:
/// the pets on the monitor of the first pet that has company there, sorted
/// by id, at most `max`.
pub open spec fn spec_choose(av: Seq<SocialCandidate>, req: Seq<Seq<char>>, max: u8, order: Seq<usize>) -> Result<Seq<usize>, Seq<char>> {
    if req.len() > 0 {
        let sel0 = select_requested(av, take_at_most(req, max as int));
        let sel = if req.len() == 1 && sel0.len() == 1 {
            sel0 + take_at_most(nearby(av, order, sel0[0]), if max >= 1 { max - 1 } else { 0 })
        } else {
            sel0
        };
        if sel.len() >= 2 {
            let kept = on_monitor(av, sel, av[sel[0] as int].monitor_key@);
            if kept.len() >= 2 { Ok(kept) } else { Err("宠物需要位于同一块屏幕才能互动"@) }
        } else {
            Err("至少需要两只可见且未暂停的宠物"@)
        }
    } else {
        match first_with_partner(av, 0) {
            Some(i) => {
                let group = take_at_most(sort_by_id(av, on_monitor(av, all_indices(av.len()), av[i].monitor_key@)), max as int);
                if group.len() >= 2 { Ok(group) } else { Err("当前没有两只位于同一屏幕的可互动宠物"@) }
            },
            None => Err("当前没有两只位于同一屏幕的可互动宠物"@),
        }
    }
}

proof fn lemma_keep_len(s: Seq<usize>, p: spec_fn(usize) -> bool)
    ensures
        keep(s, p).len() <= s.len(),
    decreases s.len(),
{
    if s.len() > 0 {
        lemma_keep_len(s.drop_last(), p);
    }
}

proof fn lemma_select_len(av: Seq<SocialCandidate>, req: Seq<Seq<char>>)
    ensures
        select_requested(av, req).len() <= req.len(),
    decreases req.len(),
{
    if req.len() > 0 {
        lemma_select_len(av, req.drop_last());
    }
}

/// A scene never takes more pets than the settings allow: every choice has
/// at most `max_participants` pets, whether pets were requested or a group
/// was found on one monitor.
pub proof fn law_choice_respects_max_participants(av: Seq<SocialCandidate>, req: Seq<Seq<char>>, max: u8, order: Seq<usize>)
    ensures
        spec_choose(av, req, max, order) matches Ok(v) ==> v.len() <= max,
{
    if req.len() > 0 {
        let req_max = take_at_most(req, max as int);
        let sel0 = select_requested(av, req_max);
        lemma_select_len(av, req_max);
        let room: int = if max >= 1 { max - 1 } else { 0 };
        if req.len() == 1 && sel0.len() == 1 {
            let near = take_at_most(nearby(av, order, sel0[0]), room);
            let sel = sel0 + near;
            assert(sel.len() <= max);
            if sel.len() >= 2 {
                lemma_keep_len(sel, monitor_pred(av, av[sel[0] as int].monitor_key@));
            }
        } else if sel0.len() >= 2 {
            lemma_keep_len(sel0, monitor_pred(av, av[sel0[0] as int].monitor_key@));
        }
    }
}

proof fn lemma_keep_valid(av: Seq<SocialCandidate>, s: Seq<usize>, p: spec_fn(usize) -> bool)
    requires
        forall|o: usize| #[trigger] p(o) ==> o < av.len(),
    ensures
        valid_indices(av, keep(s, p)),
        keep(s, p).len() <= s.len(),
    decreases s.len(),
{
    if s.len() > 0 {
        lemma_keep_valid(av, s.drop_last(), p);
    }
}

fn find_pet(av: &Vec<SocialCandidate>, id: &String) -> (r: Option<usize>)
    ensures
        match r {
            Some(i) => Some(i as int),
            None => None,
        } == find_pet_from(av@, id@, 0),
        r matches Some(i) ==> i < av.len(),
{
    proof {
        lemma_find_pet_from(av@, id@, 0);
    }
    let want = chars_of(id.as_str());
    let mut i: usize = 0;
    while i < av.len()
        invariant
            i <= av.len(),
            want@ == id@,
            find_pet_from(av@, id@, 0) == find_pet_from(av@, id@, i as nat),
        decreases av.len() - i,
    {
        if chars_eq(&chars_of(av[i].pet_id.as_str()), &want) {
            return Some(i);
        }
        i = i + 1;
    }
    None
}

fn has_pet_exec(av: &Vec<SocialCandidate>, sel: &Vec<usize>, id: &Vec<char>) -> (r: bool)
    requires
        valid_indices(av@, sel@),
    ensures
        r == has_pet(av@, sel@, id@),
{
    let mut j: usize = 0;
    while j < sel.len()
        invariant
            j <= sel.len(),
            valid_indices(av@, sel@),
            forall|k: int| 0 <= k < j ==> av@[#[trigger] sel@[k] as int].pet_id@ != id@,
        decreases sel.len() - j,
    {
        if chars_eq(&chars_of(av[sel[j]].pet_id.as_str()), id) {
            assert(av@[sel@[j as int] as int].pet_id@ == id@);
            return true;
        }
        j = j + 1;
    }
    false
}

fn keep_nearby(av: &Vec<SocialCandidate>, order: &Vec<usize>, src: usize) -> (r: Vec<usize>)
    requires
        src < av.len(),
    ensures
        r@ == nearby(av@, order@, src),
        valid_indices(av@, r@),
{
    let mut r: Vec<usize> = Vec::new();
    let mut i: usize = 0;
    let sid = chars_of(av[src].pet_id.as_str());
    let smon = chars_of(av[src].monitor_key.as_str());
    while i < order.len()
        invariant
            i <= order.len(),
            src < av.len(),
            sid@ == av@[src as int].pet_id@,
            smon@ == av@[src as int].monitor_key@,
            r@ == keep(order@.take(i as int), nearby_pred(av@, src)),
        decreases order.len() - i,
    {
        assert(order@.take(i + 1).drop_last() =~= order@.take(i as int));
        let o = order[i];
        if o < av.len() && !chars_eq(&chars_of(av[o].pet_id.as_str()), &sid) && chars_eq(&chars_of(av[o].monitor_key.as_str()), &smon) {
            r.push(o);
        }
        i = i + 1;
    }
    assert(order@.take(order.len() as int) =~= order@);
    proof {
        lemma_keep_valid(av@, order@, nearby_pred(av@, src));
    }
    r
}

fn keep_monitor(av: &Vec<SocialCandidate>, s: &Vec<usize>, m: &Vec<char>) -> (r: Vec<usize>)
    ensures
        r@ == on_monitor(av@, s@, m@),
        valid_indices(av@, r@),
        r@.len() <= s@.len(),
{
    let mut r: Vec<usize> = Vec::new();
    let mut i: usize = 0;
    while i < s.len()
        invariant
            i <= s.len(),
            r@ == keep(s@.take(i as int), monitor_pred(av@, m@)),
        decreases s.len() - i,
    {
        assert(s@.take(i + 1).drop_last() =~= s@.take(i as int));
        let o = s[i];
        if o < av.len() && chars_eq(&chars_of(av[o].monitor_key.as_str()), m) {
            r.push(o);
        }
        i = i + 1;
    }
    assert(s@.take(s.len() as int) =~= s@);
    proof {
        lemma_keep_valid(av@, s@, monitor_pred(av@, m@));
    }
    r
}

fn insert_id(av: &Vec<SocialCandidate>, s: Vec<usize>, x: usize) -> (r: Vec<usize>)
    requires
        valid_indices(av@, s@),
        x < av.len(),
    ensures
        r@ == insert_by_id(av@, s@, x),
        valid_indices(av@, r@),
    decreases s.len(),
{
    let mut s = s;
    if s.len() == 0 {
        let mut r: Vec<usize> = Vec::new();
        r.push(x);
        assert(r@ =~= seq![x]);
        r
    } else if !str_lt(av[x].pet_id.as_str(), av[s[s.len() - 1]].pet_id.as_str()) {
        s.push(x);
        s
    } else {
        let ghost sv = s@;
        let last = s.pop().unwrap();
        assert(s@ =~= sv.drop_last());
        let mut r = insert_id(av, s, x);
        r.push(last);
        r
    }
}

fn sort_ids(av: &Vec<SocialCandidate>, s: Vec<usize>) -> (r: Vec<usize>)
    requires
        valid_indices(av@, s@),
    ensures
        r@ == sort_by_id(av@, s@),
        valid_indices(av@, r@),
    decreases s.len(),
{
    let mut s = s;
    if s.len() == 0 {
        s
    } else {
        let ghost sv = s@;
        let last = s.pop().unwrap();
        assert(s@ =~= sv.drop_last());
        let sorted = sort_ids(av, s);
        insert_id(av, sorted, last)
    }
}

fn first_partner(av: &Vec<SocialCandidate>) -> (r: Option<usize>)
    ensures
        match r {
            Some(i) => Some(i as int),
            None => None,
        } == first_with_partner(av@, 0),
        r matches Some(i) ==> i < av.len(),
{
    let mut i: usize = 0;
    while i < av.len()
        invariant
            i <= av.len(),
            first_with_partner(av@, 0) == first_with_partner(av@, i as nat),
        decreases av.len() - i,
    {
        let m = chars_of(av[i].monitor_key.as_str());
        let mut j: usize = 0;
        let mut found = false;
        while j < av.len()
            invariant
                j <= av.len(),
                i < av.len(),
                m@ == av@[i as int].monitor_key@,
                found ==> has_partner(av@, i as int),
                !found ==> forall|k: int| 0 <= k < j && k != i ==> (#[trigger] av@[k]).monitor_key@ != m@,
            decreases av.len() - j,
        {
            if j != i && chars_eq(&chars_of(av[j].monitor_key.as_str()), &m) {
                assert(av@[j as int].monitor_key@ == av@[i as int].monitor_key@);
                found = true;
            }
            j = j + 1;
        }
        if found {
            return Some(i);
        }
        i = i + 1;
    }
    None
}

fn select_exec(av: &Vec<SocialCandidate>, requested: &Vec<String>, max: usize) -> (r: Vec<usize>)
    ensures
        r@ == select_requested(av@, take_at_most(string_views(requested@), max as int)),
        valid_indices(av@, r@),
{
    let n = if requested.len() > max { max } else { requested.len() };
    let ghost req = take_at_most(string_views(requested@), max as int);
    assert(req =~= string_views(requested@).take(n as int));
    let mut sel: Vec<usize> = Vec::new();
    let mut i: usize = 0;
    while i < n
        invariant
            i <= n <= requested.len(),
            req == string_views(requested@).take(n as int),
            sel@ == select_requested(av@, req.take(i as int)),
            valid_indices(av@, sel@),
        decreases n - i,
    {
        assert(req.take(i + 1).drop_last() =~= req.take(i as int));
        assert(req.take(i + 1).last() == requested@[i as int]@);
        match find_pet(av, &requested[i]) {
            Some(k) => {
                let id = chars_of(av[k].pet_id.as_str());
                if !has_pet_exec(av, &sel, &id) {
                    sel.push(k);
                }
            },
            None => {},
        }
        i = i + 1;
    }
    assert(req.take(n as int) =~= req);
    sel
}

/// The participants of a scene, as indices into `available`; `nearest`
/// lists candidates by nearness to a single requested pet.
pub fn choose_candidates(available: &Vec<SocialCandidate>, requested: &Vec<String>, max_participants: u8, nearest: &Vec<usize>) -> (r: Result<Vec<usize>, String>)
    ensures
        match r {
            Ok(v) => spec_choose(available@, string_views(requested@), max_participants, nearest@) == Ok::<Seq<usize>, Seq<char>>(v@),
            Err(e) => spec_choose(available@, string_views(requested@), max_participants, nearest@) == Err::<Seq<usize>, Seq<char>>(e@),
        },
        r matches Ok(v) ==> valid_indices(available@, v@) && v@.len() >= 2,
        r matches Ok(v) ==> v@.len() <= max_participants,
{
    proof {
        law_choice_respects_max_participants(available@, string_views(requested@), max_participants, nearest@);
    }
    let max = max_participants as usize;
    if requested.len() > 0 {
        let mut sel = select_exec(available, requested, max);
        if requested.len() == 1 && sel.len() == 1 {
            let near = keep_nearby(available, nearest, sel[0]);
            let room = if max >= 1 { max - 1 } else { 0 };
            let ghost sel0 = sel@;
            let ghost extra = take_at_most(nearby(available@, nearest@, sel0[0]), room as int);
            let mut k: usize = 0;
            let limit = if near.len() > room { room } else { near.len() };
            assert(extra =~= near@.take(limit as int));
            while k < limit
                invariant
                    k <= limit <= near.len(),
                    sel@ == sel0 + extra.take(k as int),
                    extra =~= near@.take(limit as int),
                    valid_indices(available@, sel0),
                    valid_indices(available@, near@),
                decreases limit - k,
            {
                sel.push(near[k]);
                assert(extra.take(k + 1) =~= extra.take(k as int).push(near@[k as int]));
                k = k + 1;
            }
            assert(extra.take(limit as int) =~= extra);
            assert forall|j: int| 0 <= j < sel@.len() implies (#[trigger] sel@[j]) < available.len() by {
                if j >= sel0.len() {
                    assert(sel@[j] == near@[j - sel0.len()]);
                }
            }
        }
        if sel.len() >= 2 {
            let m = chars_of(available[sel[0]].monitor_key.as_str());
            let kept = keep_monitor(available, &sel, &m);
            if kept.len() >= 2 {
                Ok(kept)
            } else {
                Err(String::from_str("宠物需要位于同一块屏幕才能互动"))
            }
        } else {
            Err(String::from_str("至少需要两只可见且未暂停的宠物"))
        }
    } else {
        match first_partner(available) {
            Some(i) => {
                let mut all: Vec<usize> = Vec::new();
                let mut k: usize = 0;
                while k < available.len()
                    invariant
                        k <= available.len(),
                        all@ == all_indices(available.len() as nat).take(k as int),
                    decreases available.len() - k,
                {
                    all.push(k);
                    assert(all@ =~= all_indices(available.len() as nat).take(k + 1));
                    k = k + 1;
                }
                assert(all@ =~= all_indices(available.len() as nat));
                let m = chars_of(available[i].monitor_key.as_str());
                let members = keep_monitor(available, &all, &m);
                let mut group = sort_ids(available, members);
                if group.len() > max {
                    group.truncate(max);
                }
                if group.len() >= 2 {
                    Ok(group)
                } else {
                    Err(String::from_str("当前没有两只位于同一屏幕的可互动宠物"))
                }
            },
            None => Err(String::from_str("当前没有两只位于同一屏幕的可互动宠物")),
        }
    }
}

/// The pets a manual scene asks for: the source pet when given and not
/// empty, then the targets. Refused while manual scenes are off.
pub fn manual_request(manual_enabled: bool, source_pet_id: Option<String>, target_pet_ids: Option<Vec<String>>) -> (r: Result<Vec<String>, String>)
    ensures
        !manual_enabled ==> (r matches Err(e) && e@ == "手动宠物社交已关闭"@),
        manual_enabled ==> (r matches Ok(v) && v@ == (match source_pet_id {
            Some(s) => if s@.len() > 0 { seq![s] } else { Seq::empty() },
            None => Seq::empty(),
        }) + (match target_pet_ids {
            Some(t) => t@,
            None => Seq::empty(),
        })),
{
    if !manual_enabled {
        return Err(String::from_str("手动宠物社交已关闭"));
    }
    let mut requested: Vec<String> = Vec::new();
    match source_pet_id {
        Some(s) => {
            if !s.as_str().is_empty() {
                requested.push(s);
            }
        },
        None => {},
    }
    match target_pet_ids {
        Some(t) => {
            let mut t = t;
            requested.append(&mut t);
        },
        None => {},
    }
    Ok(requested)
}

/// What the coordinator does with a pet's runtime report.
#[derive(Debug)]
pub struct RuntimeReportAction {
    pub cancel_scenes: bool,
    pub repair_position: bool,
    pub consider_proximity: bool,
}

/// A report needs safe ids. A dragged pet's scenes are cancelled; a pet that
/// is neither dragged nor busy has its position repaired and may meet a
/// neighbour.
pub fn runtime_report(instance_id: &str, pet_id: &str, dragging: bool, busy: bool) -> (r: Result<RuntimeReportAction, String>)
    ensures
        !(spec_is_safe_id(instance_id@) && spec_is_safe_id(pet_id@)) ==> (r matches Err(e) && e@ == "无效的宠物运行状态"@),
        spec_is_safe_id(instance_id@) && spec_is_safe_id(pet_id@) ==> (r matches Ok(a) && a.cancel_scenes == dragging
            && a.repair_position == (!dragging && !busy) && a.consider_proximity == (!dragging && !busy)),
{
    if !is_safe_id(instance_id) || !is_safe_id(pet_id) {
        return Err(String::from_str("无效的宠物运行状态"));
    }
    Ok(RuntimeReportAction {
        cancel_scenes: dragging,
        repair_position: !dragging && !busy,
        consider_proximity: !dragging && !busy,
    })
}

/// A line spoken in a logged scene.
#[derive(Debug)]
pub struct SocialLogDialogue {
    pub pet_id: String,
    pub text: String,
}

/// One finished scene in the social log.
#[derive(Debug)]
pub struct SocialLogEntry {
    pub id: String,
    pub timestamp: u64,
    pub participants: Vec<String>,
    pub interaction_type: String,
    pub trigger: String,
    pub prop: Option<String>,
    pub dialogue: Vec<SocialLogDialogue>,
    pub milestones: Vec<String>,
    pub outcome: String,
}

pub fn copy_strings(v: &Vec<String>) -> (r: Vec<String>)
    ensures
        r@ == v@,
{
    let mut r: Vec<String> = Vec::new();
    let mut i: usize = 0;
    while i < v.len()
        invariant
            i <= v.len(),
            r@ == v@.take(i as int),
        decreases v.len() - i,
    {
        r.push(v[i].clone());
        assert(r@ =~= v@.take(i + 1));
        i = i + 1;
    }
    assert(v@.take(v.len() as int) =~= v@);
    r
}

impl SocialLogDialogue {
    pub fn duplicate(&self) -> (r: Self)
        ensures
            r == *self,
    {
        SocialLogDialogue { pet_id: self.pet_id.clone(), text: self.text.clone() }
    }
}

/// The mathematical content of a log entry.
pub struct LogView {
    pub id: Seq<char>,
    pub timestamp: u64,
    pub participants: Seq<Seq<char>>,
    pub interaction_type: Seq<char>,
    pub trigger: Seq<char>,
    pub prop: Option<Seq<char>>,
    pub dialogue: Seq<(Seq<char>, Seq<char>)>,
    pub milestones: Seq<Seq<char>>,
    pub outcome: Seq<char>,
}

impl View for SocialLogEntry {
    type V = LogView;

    open spec fn view(&self) -> LogView {
        LogView {
            id: self.id@,
            timestamp: self.timestamp,
            participants: string_views(self.participants@),
            interaction_type: self.interaction_type@,
            trigger: self.trigger@,
            prop: match self.prop {
                Some(p) => Some(p@),
                None => None,
            },
            dialogue: self.dialogue@.map_values(|d: SocialLogDialogue| (d.pet_id@, d.text@)),
            milestones: string_views(self.milestones@),
            outcome: self.outcome@,
        }
    }
}

impl SocialLogEntry {
    pub fn duplicate(&self) -> (r: Self)
        ensures
            r@ == self@,
    {
        let mut dialogue: Vec<SocialLogDialogue> = Vec::new();
        let mut i: usize = 0;
        while i < self.dialogue.len()
            invariant
                i <= self.dialogue.len(),
                dialogue@ == self.dialogue@.take(i as int),
            decreases self.dialogue.len() - i,
        {
            dialogue.push(self.dialogue[i].duplicate());
            assert(dialogue@ =~= self.dialogue@.take(i + 1));
            i = i + 1;
        }
        assert(self.dialogue@.take(self.dialogue.len() as int) =~= self.dialogue@);
        SocialLogEntry {
            id: self.id.clone(),
            timestamp: self.timestamp,
            participants: copy_strings(&self.participants),
            interaction_type: self.interaction_type.clone(),
            trigger: self.trigger.clone(),
            prop: crate::chat::copy_opt(&self.prop),
            dialogue,
            milestones: copy_strings(&self.milestones),
            outcome: self.outcome.clone(),
        }
    }
}

pub open spec fn opt_view(o: Option<&str>) -> Option<Seq<char>> {
    match o {
        Some(s) => Some(s@),
        None => None,
    }
}

/// An entry passes the log filters: each given pet took part, the scene is
/// of the given kind, and it happened within the given time range.
pub open spec fn log_matches(e: SocialLogEntry, pet: Option<Seq<char>>, second: Option<Seq<char>>, kind: Option<Seq<char>>, from: Option<u64>, to: Option<u64>) -> bool {
    &&& (pet matches Some(p) ==> string_views(e.participants@).contains(p))
    &&& (second matches Some(p) ==> string_views(e.participants@).contains(p))
    &&& (kind matches Some(k) ==> e.interaction_type@ == k)
    &&& (from matches Some(f) ==> e.timestamp >= f)
    &&& (to matches Some(t) ==> e.timestamp <= t)
}

pub open spec fn matching_logs(s: Seq<SocialLogEntry>, pet: Option<Seq<char>>, second: Option<Seq<char>>, kind: Option<Seq<char>>, from: Option<u64>, to: Option<u64>) -> Seq<SocialLogEntry>
    decreases s.len(),
{
    if s.len() == 0 {
        s
    } else {
        let rest = matching_logs(s.drop_last(), pet, second, kind, from, to);
        if log_matches(s.last(), pet, second, kind, from, to) { rest.push(s.last()) } else { rest }
    }
}

/// The most entries a log query returns.
pub const LOG_PAGE: usize = 200;

fn contains_str(list: &Vec<String>, id: &str) -> (r: bool)
    ensures
        r == string_views(list@).contains(id@),
{
    let want = chars_of(id);
    let mut i: usize = 0;
    while i < list.len()
        invariant
            i <= list.len(),
            want@ == id@,
            forall|k: int| 0 <= k < i ==> string_views(list@)[k] != id@,
        decreases list.len() - i,
    {
        if chars_eq(&chars_of(list[i].as_str()), &want) {
            assert(string_views(list@)[i as int] == id@);
            return true;
        }
        i = i + 1;
    }
    false
}

fn entry_matches(e: &SocialLogEntry, pet: Option<&str>, second: Option<&str>, kind: Option<&str>, from: Option<u64>, to: Option<u64>) -> (r: bool)
    ensures
        r == log_matches(*e, opt_view(pet), opt_view(second), opt_view(kind), from, to),
{
    let a = match pet {
        Some(p) => contains_str(&e.participants, p),
        None => true,
    };
    let b = match second {
        Some(p) => contains_str(&e.participants, p),
        None => true,
    };
    let c = match kind {
        Some(k) => chars_eq_str(&chars_of(e.interaction_type.as_str()), k),
        None => true,
    };
    let d = match from {
        Some(f) => e.timestamp >= f,
        None => true,
    };
    let g = match to {
        Some(t) => e.timestamp <= t,
        None => true,
    };
    a && b && c && d && g
}

/// The log entries that pass the filters, newest first (by position in the
/// time-ordered log), at most a page of them.
pub fn get_social_log(entries: &Vec<SocialLogEntry>, pet_id: Option<&str>, second_pet_id: Option<&str>, interaction_type: Option<&str>, from_ms: Option<u64>, to_ms: Option<u64>) -> (r: Vec<SocialLogEntry>)
    ensures
        ({
            let m = matching_logs(entries@, opt_view(pet_id), opt_view(second_pet_id), opt_view(interaction_type), from_ms, to_ms);
            &&& r@.len() == if m.len() > LOG_PAGE { LOG_PAGE as int } else { m.len() as int }
            &&& forall|k: int| 0 <= k < r@.len() ==> (#[trigger] r@[k])@ == m[m.len() - 1 - k]@
        }),
{
    let ghost m_all = matching_logs(entries@, opt_view(pet_id), opt_view(second_pet_id), opt_view(interaction_type), from_ms, to_ms);
    let mut idx: Vec<usize> = Vec::new();
    let mut i: usize = 0;
    while i < entries.len()
        invariant
            i <= entries.len(),
            idx@.len() == matching_logs(entries@.take(i as int), opt_view(pet_id), opt_view(second_pet_id), opt_view(interaction_type), from_ms, to_ms).len(),
            forall|k: int| 0 <= k < idx@.len() ==> (#[trigger] idx@[k]) < entries.len()
                && entries@[idx@[k] as int] == matching_logs(entries@.take(i as int), opt_view(pet_id), opt_view(second_pet_id), opt_view(interaction_type), from_ms, to_ms)[k],
        decreases entries.len() - i,
    {
        assert(entries@.take(i + 1).drop_last() =~= entries@.take(i as int));
        assert(entries@.take(i + 1).last() == entries@[i as int]);
        if entry_matches(&entries[i], pet_id, second_pet_id, interaction_type, from_ms, to_ms) {
            idx.push(i);
        }
        i = i + 1;
    }
    assert(entries@.take(entries.len() as int) =~= entries@);
    let n = idx.len();
    let count = if n > LOG_PAGE { LOG_PAGE } else { n };
    let mut r: Vec<SocialLogEntry> = Vec::new();
    let mut k: usize = 0;
    while k < count
        invariant
            k <= count <= n,
            n == idx@.len(),
            n == m_all.len(),
            count == (if m_all.len() > LOG_PAGE { LOG_PAGE as int } else { m_all.len() as int }),
            forall|j: int| 0 <= j < idx@.len() ==> (#[trigger] idx@[j]) < entries.len() && entries@[idx@[j] as int] == m_all[j],
            r@.len() == k,
            forall|j: int| 0 <= j < k ==> (#[trigger] r@[j])@ == m_all[m_all.len() - 1 - j]@,
        decreases count - k,
    {
        let e = entries[idx[n - 1 - k]].duplicate();
        r.push(e);
        k = k + 1;
    }
    r
}

/// What starting a scene reports back.
#[derive(Debug)]
pub struct SocialSceneSummary {
    pub scene_id: String,
    pub scene: String,
    pub trigger: String,
    pub participants: Vec<String>,
    pub queued: bool,
}

/// The report of a scene request that waits for the busy stage:
/// `queued-<now>`, with the requested pets.
pub fn queued_summary(now: u64, trigger: String, requested: Vec<String>) -> (r: SocialSceneSummary)
    ensures
        r.scene_id@ == "queued-"@ + crate::text::decimal(now as nat),
        r.scene@ == "queued"@,
        r.trigger == trigger,
        r.participants == requested,
        r.queued,
{
    let mut id = chars_of("queued-");
    let d = crate::text::decimal_chars(now);
    crate::text::push_all(&mut id, &d);
    SocialSceneSummary {
        scene_id: crate::text::string_of(&id),
        scene: String::from_str("queued"),
        trigger,
        participants: requested,
        queued: true,
    }
}

/// The error a scene request gets while the stage is busy.
pub open spec fn busy_error() -> Seq<char> {
    "社交舞台正在使用中，请稍后再试"@
}

/// A busy stage queues the request and retries it up to thirty times, a
/// second apart, until it starts or fails otherwise.
pub fn should_retry(error: &str, attempt: u32) -> (r: bool)
    ensures
        r == (error@ == busy_error() && attempt < 30),
{
    chars_eq_str(&chars_of(error), "社交舞台正在使用中，请稍后再试") && attempt < 30
}

/// The log entry of a completed scene.
pub fn completed_log_entry(
    scene_id: String,
    now: u64,
    participants: Vec<String>,
    scene: String,
    trigger: String,
    prop: Option<String>,
    dialogue: Vec<SocialLogDialogue>,
    milestones: Vec<String>,
) -> (r: SocialLogEntry)
    ensures
        r.id == scene_id,
        r.timestamp == now,
        r.participants == participants,
        r.interaction_type == scene,
        r.trigger == trigger,
        r.prop == prop,
        r.dialogue == dialogue,
        r.milestones == milestones,
        r.outcome@ == "completed"@,
{
    SocialLogEntry {
        id: scene_id,
        timestamp: now,
        participants,
        interaction_type: scene,
        trigger,
        prop,
        dialogue,
        milestones,
        outcome: String::from_str("completed"),
    }
}

/// A scene can start only while social play is on.
pub fn scene_start_allowed(enabled: bool) -> (r: Result<(), String>)
    ensures
        enabled ==> r is Ok,
        !enabled ==> (r matches Err(e) && e@ == "宠物社交已关闭"@),
{
    if enabled { Ok(()) } else { Err(String::from_str("宠物社交已关闭")) }
}

} // verus!
