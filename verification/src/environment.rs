//! The desktop environment: which application is in front, whether the
//! session is active, the battery, and the reminders and quiet periods that
//! follow from them.

use vstd::prelude::*;
use crate::text::{ascii_lower, ascii_lower_vec, chars_eq, chars_of, find_first, find_first_exec};

verus! {

/// What the platform reports about the foreground application and power.
#[derive(Debug)]
pub struct EnvironmentSnapshot {
    pub app_name: String,
    pub app_id: String,
    pub category: String,
    pub is_fullscreen: bool,
    pub session: String,
    pub battery_percent: Option<u8>,
    pub on_battery: Option<bool>,
    pub notification_supported: bool,
}

/// The mathematical content of an `EnvironmentSnapshot`.
pub struct SnapshotView {
    pub app_name: Seq<char>,
    pub app_id: Seq<char>,
    pub category: Seq<char>,
    pub is_fullscreen: bool,
    pub session: Seq<char>,
    pub battery_percent: Option<u8>,
    pub on_battery: Option<bool>,
    pub notification_supported: bool,
}

impl View for EnvironmentSnapshot {
    type V = SnapshotView;

    open spec fn view(&self) -> SnapshotView {
        SnapshotView {
            app_name: self.app_name@,
            app_id: self.app_id@,
            category: self.category@,
            is_fullscreen: self.is_fullscreen,
            session: self.session@,
            battery_percent: self.battery_percent,
            on_battery: self.on_battery,
            notification_supported: self.notification_supported,
        }
    }
}

/// Nothing known yet: no application, an active session, no battery data.
pub open spec fn empty_snapshot() -> SnapshotView {
    SnapshotView {
        app_name: Seq::empty(),
        app_id: Seq::empty(),
        category: "unknown"@,
        is_fullscreen: false,
        session: "active"@,
        battery_percent: None,
        on_battery: None,
        notification_supported: false,
    }
}

impl Default for EnvironmentSnapshot {
    fn default() -> (r: Self)
        ensures
            r@ == empty_snapshot(),
    {
        EnvironmentSnapshot {
            app_name: String::new(),
            app_id: String::new(),
            category: String::from_str("unknown"),
            is_fullscreen: false,
            session: String::from_str("active"),
            battery_percent: None,
            on_battery: None,
            notification_supported: false,
        }
    }
}

impl EnvironmentSnapshot {
    /// A field-by-field copy.
    pub fn duplicate(&self) -> (r: Self)
        ensures
            r@ == self@,
    {
        EnvironmentSnapshot {
            app_name: self.app_name.clone(),
            app_id: self.app_id.clone(),
            category: self.category.clone(),
            is_fullscreen: self.is_fullscreen,
            session: self.session.clone(),
            battery_percent: self.battery_percent,
            on_battery: self.on_battery,
            notification_supported: self.notification_supported,
        }
    }
}

/// The snapshot of a platform without a foreground probe.
pub fn platform_snapshot() -> (r: EnvironmentSnapshot)
    ensures
        r@ == (SnapshotView { session: "unsupported"@, ..empty_snapshot() }),
{
    let mut r = EnvironmentSnapshot::default();
    r.session = String::from_str("unsupported");
    r
}

/// The snapshot when no application is in front.
pub fn inactive_snapshot() -> (r: EnvironmentSnapshot)
    ensures
        r@ == (SnapshotView { session: "inactive"@, ..empty_snapshot() }),
{
    let mut r = EnvironmentSnapshot::default();
    r.session = String::from_str("inactive");
    r
}

/// Battery data as the power API reports it: a percentage (above 100 means
/// unknown) and the AC line status (0 means on battery).
pub open spec fn spec_power(power: Option<(u8, u8)>) -> (Option<u8>, Option<bool>) {
    match power {
        Some((percent, ac_line)) => (
            if percent <= 100 { Some(percent) } else { None },
            Some(ac_line == 0),
        ),
        None => (None, None),
    }
}

/// The snapshot of a foreground application found by a platform probe.
pub fn foreground_snapshot(app_name: String, app_id: String, is_fullscreen: bool, power: Option<(u8, u8)>) -> (r: EnvironmentSnapshot)
    ensures
        r@ == (SnapshotView {
            app_name: app_name@,
            app_id: app_id@,
            is_fullscreen,
            battery_percent: spec_power(power).0,
            on_battery: spec_power(power).1,
            ..empty_snapshot()
        }),
{
    let mut r = EnvironmentSnapshot::default();
    r.app_name = app_name;
    r.app_id = app_id;
    r.is_fullscreen = is_fullscreen;
    match power {
        Some((percent, ac_line)) => {
            r.battery_percent = if percent <= 100 { Some(percent) } else { None };
            r.on_battery = Some(ac_line == 0);
        },
        None => {},
    }
    r
}

/// The user's environment preferences.
#[derive(Debug)]
pub struct EnvironmentSettings {
    pub foreground_tracking_enabled: bool,
    pub break_reminder_enabled: bool,
    pub break_reminder_minutes: u32,
    pub low_battery_enabled: bool,
    pub low_battery_threshold: u8,
    pub meeting_quiet_enabled: bool,
    pub meeting_apps: Vec<String>,
    pub coding_apps: Vec<String>,
}

/// `item` occurs in the key or the name, ASCII case ignored.
pub open spec fn item_matches(key: Seq<char>, name: Seq<char>, item: Seq<char>) -> bool {
    ||| find_first(ascii_lower(key), ascii_lower(item)) is Some
    ||| find_first(ascii_lower(name), ascii_lower(item)) is Some
}

/// Some entry of `items` matches.
pub open spec fn list_matches(key: Seq<char>, name: Seq<char>, items: Seq<String>) -> bool {
    exists|i: int| 0 <= i < items.len() && #[trigger] item_matches(key, name, items[i]@)
}

/// The application's identity: its id, or its name when it has no id.
pub open spec fn identity(s: SnapshotView) -> Seq<char> {
    if s.app_id.len() == 0 { s.app_name } else { s.app_id }
}

/// The category of the foreground application: meeting apps first, then
/// coding apps, else other.
pub open spec fn category_for(s: SnapshotView, settings: EnvironmentSettings) -> Seq<char> {
    if list_matches(identity(s), s.app_name, settings.meeting_apps@) {
        "meeting"@
    } else if list_matches(identity(s), s.app_name, settings.coding_apps@) {
        "coding"@
    } else {
        "other"@
    }
}

pub open spec fn classified(s: SnapshotView, settings: EnvironmentSettings) -> SnapshotView {
    SnapshotView { category: category_for(s, settings), ..s }
}

fn any_item_matches(items: &Vec<String>, key: &Vec<char>, name: &Vec<char>) -> (r: bool)
    ensures
        r == list_matches(key@, name@, items@),
{
    let lk = ascii_lower_vec(key);
    let ln = ascii_lower_vec(name);
    let mut i: usize = 0;
    while i < items.len()
        invariant
            i <= items.len(),
            lk@ == ascii_lower(key@),
            ln@ == ascii_lower(name@),
            forall|j: int| 0 <= j < i ==> !#[trigger] item_matches(key@, name@, items@[j]@),
        decreases items.len() - i,
    {
        let ic = chars_of(items[i].as_str());
        let li = ascii_lower_vec(&ic);
        let in_key = find_first_exec(&lk, &li).is_some();
        let in_name = find_first_exec(&ln, &li).is_some();
        if in_key || in_name {
            assert(item_matches(key@, name@, items@[i as int]@));
            return true;
        }
        i = i + 1;
    }
    false
}

/// Sets the snapshot's category from the configured meeting and coding apps.
pub fn classify(snapshot: &mut EnvironmentSnapshot, settings: &EnvironmentSettings)
    ensures
        final(snapshot)@ == classified(old(snapshot)@, *settings),
{
    let id = chars_of(snapshot.app_id.as_str());
    let name = chars_of(snapshot.app_name.as_str());
    let key = if id.len() == 0 { chars_of(snapshot.app_name.as_str()) } else { id };
    if any_item_matches(&settings.meeting_apps, &key, &name) {
        snapshot.category = String::from_str("meeting");
    } else if any_item_matches(&settings.coding_apps, &key, &name) {
        snapshot.category = String::from_str("coding");
    } else {
        snapshot.category = String::from_str("other");
    }
}

/// What the monitor remembers between snapshots.
#[derive(Debug)]
pub struct EnvironmentState {
    pub snapshot: EnvironmentSnapshot,
    pub app_key: String,
    pub app_since: u64,
    pub break_reminded_at: u64,
    pub low_battery_reminded: bool,
    pub auto_quiet: bool,
}

pub struct StateView {
    pub snapshot: SnapshotView,
    pub app_key: Seq<char>,
    pub app_since: u64,
    pub break_reminded_at: u64,
    pub low_battery_reminded: bool,
    pub auto_quiet: bool,
}

impl View for EnvironmentState {
    type V = StateView;

    open spec fn view(&self) -> StateView {
        StateView {
            snapshot: self.snapshot@,
            app_key: self.app_key@,
            app_since: self.app_since,
            break_reminded_at: self.break_reminded_at,
            low_battery_reminded: self.low_battery_reminded,
            auto_quiet: self.auto_quiet,
        }
    }
}

impl Default for EnvironmentState {
    fn default() -> (r: Self)
        ensures
            r@ == (StateView {
                snapshot: empty_snapshot(),
                app_key: Seq::empty(),
                app_since: 0,
                break_reminded_at: 0,
                low_battery_reminded: false,
                auto_quiet: false,
            }),
    {
        EnvironmentState {
            snapshot: EnvironmentSnapshot::default(),
            app_key: String::new(),
            app_since: 0,
            break_reminded_at: 0,
            low_battery_reminded: false,
            auto_quiet: false,
        }
    }
}

/// What a snapshot calls for: an update to announce, sleep or wake, the
/// reminders that fell due, and whether pets should keep quiet.
#[derive(Debug)]
pub struct EnvironmentOutcome {
    pub snapshot: EnvironmentSnapshot,
    pub changed: bool,
    pub session_changed: bool,
    pub should_sleep: bool,
    pub break_due: bool,
    pub low_battery_due: bool,
    pub auto_quiet: bool,
}

pub struct OutcomeView {
    pub snapshot: SnapshotView,
    pub changed: bool,
    pub session_changed: bool,
    pub should_sleep: bool,
    pub break_due: bool,
    pub low_battery_due: bool,
    pub auto_quiet: bool,
}

impl View for EnvironmentOutcome {
    type V = OutcomeView;

    open spec fn view(&self) -> OutcomeView {
        OutcomeView {
            snapshot: self.snapshot@,
            changed: self.changed,
            session_changed: self.session_changed,
            should_sleep: self.should_sleep,
            break_due: self.break_due,
            low_battery_due: self.low_battery_due,
            auto_quiet: self.auto_quiet,
        }
    }
}

pub open spec fn sat_sub(a: u64, b: u64) -> int {
    if a >= b { a - b } else { 0 }
}

/// The key that identifies a foreground application across snapshots.
pub open spec fn app_key_of(s: SnapshotView) -> Seq<char> {
    s.app_id + ":"@ + s.app_name + ":"@ + s.category
}

pub const BREAK_REPEAT_MS: u64 = 7_200_000;

/// The battery is low enough for a reminder.
pub open spec fn battery_low(settings: EnvironmentSettings, s: SnapshotView) -> bool {
    &&& settings.low_battery_enabled
    &&& s.on_battery == Some(true)
    &&& s.battery_percent matches Some(p) && p <= settings.low_battery_threshold
}

/// The battery has recovered well above the threshold.
pub open spec fn battery_recovered(settings: EnvironmentSettings, s: SnapshotView) -> bool {
    let t = settings.low_battery_threshold;
    let bar = if t + 5 > 255 { 255 } else { t + 5 };
    s.battery_percent matches Some(p) && p >= bar
}

/// Pets keep quiet in a full-screen meeting and while the session is not
/// active.
pub open spec fn spec_auto_quiet(settings: EnvironmentSettings, s: SnapshotView) -> bool {
    (settings.meeting_quiet_enabled && s.category == "meeting"@ && s.is_fullscreen)
        || s.session != "active"@
}

/// One step of the monitor on an already classified snapshot taken at `now`.
pub open spec fn env_step(st: StateView, settings: EnvironmentSettings, s: SnapshotView, now: u64) -> (StateView, OutcomeView) {
    let key = app_key_of(s);
    let new_app = st.app_key != key;
    let since = if new_app { now } else { st.app_since };
    let reminded_at = if new_app { 0 } else { st.break_reminded_at };
    let session_changed = st.snapshot.session != s.session;
    let break_due = settings.foreground_tracking_enabled && settings.break_reminder_enabled
        && s.category == "coding"@
        && sat_sub(now, since) >= settings.break_reminder_minutes as int * 60_000
        && sat_sub(now, reminded_at) >= BREAK_REPEAT_MS;
    let low = battery_low(settings, s);
    let low_due = low && !st.low_battery_reminded;
    let reminded = if low_due {
        true
    } else if !low && battery_recovered(settings, s) {
        false
    } else {
        st.low_battery_reminded
    };
    let quiet = spec_auto_quiet(settings, s);
    (
        StateView {
            snapshot: s,
            app_key: key,
            app_since: since,
            break_reminded_at: if break_due { now } else { reminded_at },
            low_battery_reminded: reminded,
            auto_quiet: quiet,
        },
        OutcomeView {
            snapshot: s,
            changed: new_app || session_changed || st.snapshot != s,
            session_changed,
            should_sleep: session_changed && s.session != "active"@,
            break_due,
            low_battery_due: low_due,
            auto_quiet: quiet,
        },
    )
}

fn same_text(a: &String, b: &String) -> (r: bool)
    ensures
        r == (a@ == b@),
{
    let x = chars_of(a.as_str());
    let y = chars_of(b.as_str());
    chars_eq(&x, &y)
}

fn same_snapshot(a: &EnvironmentSnapshot, b: &EnvironmentSnapshot) -> (r: bool)
    ensures
        r == (a@ == b@),
{
    let battery_same = match (a.battery_percent, b.battery_percent) {
        (Some(x), Some(y)) => x == y,
        (None, None) => true,
        _ => false,
    };
    let power_same = match (a.on_battery, b.on_battery) {
        (Some(x), Some(y)) => x == y,
        (None, None) => true,
        _ => false,
    };
    same_text(&a.app_name, &b.app_name) && same_text(&a.app_id, &b.app_id) && same_text(&a.category, &b.category)
        && a.is_fullscreen == b.is_fullscreen && same_text(&a.session, &b.session) && battery_same
        && power_same && a.notification_supported == b.notification_supported
}

fn key_chars(s: &EnvironmentSnapshot) -> (r: Vec<char>)
    ensures
        r@ == app_key_of(s@),
{
    let mut k = chars_of(s.app_id.as_str());
    k.push(':');
    let name = chars_of(s.app_name.as_str());
    crate::text::push_all(&mut k, &name);
    k.push(':');
    let cat = chars_of(s.category.as_str());
    crate::text::push_all(&mut k, &cat);
    proof {
        reveal_strlit(":");
    }
    assert(k@ =~= app_key_of(s@));
    k
}

fn is_active(session: &String) -> (r: bool)
    ensures
        r == (session@ == "active"@),
{
    let c = chars_of(session.as_str());
    crate::text::chars_eq_str(&c, "active")
}

/// Classifies a new snapshot and advances the monitor's state, saying what
/// the application has to announce or do.
pub fn process_snapshot(state: &mut EnvironmentState, settings: &EnvironmentSettings, snapshot: EnvironmentSnapshot, now: u64) -> (r: EnvironmentOutcome)
    ensures
        (final(state)@, r@) == env_step(old(state)@, *settings, classified(snapshot@, *settings), now),
{
    let mut snapshot = snapshot;
    classify(&mut snapshot, settings);
    let key = key_chars(&snapshot);
    let old_key = chars_of(state.app_key.as_str());
    let mut changed = false;
    if !chars_eq(&old_key, &key) {
        state.app_key = crate::text::string_of(&key);
        state.app_since = now;
        state.break_reminded_at = 0;
        changed = true;
    }
    let mut session_changed = false;
    let mut should_sleep = false;
    if !same_text(&state.snapshot.session, &snapshot.session) {
        session_changed = true;
        should_sleep = !is_active(&snapshot.session);
        changed = true;
    }
    if !same_snapshot(&state.snapshot, &snapshot) {
        changed = true;
    }
    let since = if now >= state.app_since { now - state.app_since } else { 0 };
    let since_reminder = if now >= state.break_reminded_at { now - state.break_reminded_at } else { 0 };
    let coding = crate::text::chars_eq_str(&chars_of(snapshot.category.as_str()), "coding");
    let mut break_due = false;
    if settings.foreground_tracking_enabled && settings.break_reminder_enabled && coding
        && since >= (settings.break_reminder_minutes as u64) * 60_000 && since_reminder >= BREAK_REPEAT_MS
    {
        state.break_reminded_at = now;
        break_due = true;
    }
    let low = settings.low_battery_enabled && match (snapshot.on_battery, snapshot.battery_percent) {
        (Some(true), Some(p)) => p <= settings.low_battery_threshold,
        _ => false,
    };
    let mut low_battery_due = false;
    let bar: u8 = if settings.low_battery_threshold > 250 { 255 } else { settings.low_battery_threshold + 5 };
    if low && !state.low_battery_reminded {
        state.low_battery_reminded = true;
        low_battery_due = true;
    } else if !low && match snapshot.battery_percent {
        Some(p) => p >= bar,
        None => false,
    } {
        state.low_battery_reminded = false;
    }
    let meeting = crate::text::chars_eq_str(&chars_of(snapshot.category.as_str()), "meeting");
    let quiet = (settings.meeting_quiet_enabled && meeting && snapshot.is_fullscreen) || !is_active(&snapshot.session);
    state.auto_quiet = quiet;
    state.snapshot = snapshot.duplicate();
    EnvironmentOutcome {
        snapshot,
        changed,
        session_changed,
        should_sleep,
        break_due,
        low_battery_due,
        auto_quiet: quiet,
    }
}

/// A low-battery reminder comes once per low spell: it is due only when none
/// was given since the battery last recovered, and giving it marks it given.
pub proof fn law_low_battery_reminds_once(st: StateView, settings: EnvironmentSettings, s: SnapshotView, now: u64)
    ensures
        env_step(st, settings, s, now).1.low_battery_due ==> !st.low_battery_reminded
            && env_step(st, settings, s, now).0.low_battery_reminded,
        st.low_battery_reminded && !battery_recovered(settings, s) ==> env_step(st, settings, s, now).0.low_battery_reminded,
{
}

/// Two break reminders for the same application are at least two hours
/// apart.
pub proof fn law_break_reminders_spaced(st: StateView, settings: EnvironmentSettings, s1: SnapshotView, t1: u64, s2: SnapshotView, t2: u64)
    requires
        t1 <= t2,
        app_key_of(s1) == app_key_of(s2),
        env_step(st, settings, s1, t1).1.break_due,
        env_step(env_step(st, settings, s1, t1).0, settings, s2, t2).1.break_due,
    ensures
        t2 - t1 >= BREAK_REPEAT_MS,
{
}

/// A full-screen meeting, or a session that is not active, keeps pets quiet.
pub proof fn law_quiet_in_meetings(st: StateView, settings: EnvironmentSettings, s: SnapshotView, now: u64)
    ensures
        env_step(st, settings, s, now).1.auto_quiet <==> ((settings.meeting_quiet_enabled && s.category == "meeting"@ && s.is_fullscreen) || s.session != "active"@),
        env_step(st, settings, s, now).1.should_sleep ==> env_step(st, settings, s, now).1.auto_quiet,
{
}

} // verus!
