//! Per-user preferences, kept in a concurrent map of the `dashmap` crate.

use vstd::prelude::*;

use dashmap::DashMap;

use crate::text::{chars_of, first_index_of, str_eq, string_of, substring, trim, trim_spec};

verus! {

/// The `dashmap` crate's concurrent hash map, opaque to proofs.
#[verifier::external_type_specification]
#[verifier::external_body]
#[verifier::reject_recursive_types(K)]
#[verifier::reject_recursive_types(V)]
#[verifier::reject_recursive_types(S)]
pub struct ExDashMap<K, V, S>(DashMap<K, V, S>);

/// The preferences of one user.
#[derive(Debug, Clone, Copy, PartialEq, Eq, Structural)]
pub struct UserSettings {
    pub auto_mode: bool,
}

impl Default for UserSettings {
    fn default() -> (r: UserSettings)
        ensures
            r.auto_mode,
    {
        UserSettings { auto_mode: true }
    }
}

/// What the map holds: each user's automatic-mode flag.
pub uninterp spec fn settings_contents(m: DashMap<i64, UserSettings>) -> Map<i64, bool>;

/// `DashMap::new`: a map with nothing in it.
#[verifier::external_body]
fn settings_map_new() -> (r: DashMap<i64, UserSettings>)
    ensures
        settings_contents(r) =~= Map::empty(),
{
    DashMap::new()
}

/// `DashMap::get`, the found value copied out and read as its flag: what the
/// map holds for the key.
#[verifier::external_body]
fn settings_map_get(m: &DashMap<i64, UserSettings>, k: i64) -> (r: Option<bool>)
    ensures
        r == (if settings_contents(*m).contains_key(k) {
            Some(settings_contents(*m)[k])
        } else {
            None
        }),
{
    m.get(&k).map(|s| s.auto_mode)
}

/// `DashMap::insert`: the key now maps to the value, every other key is
/// unchanged.
#[verifier::external_body]
fn settings_map_insert(m: &mut DashMap<i64, UserSettings>, k: i64, v: UserSettings)
    ensures
        settings_contents(*final(m)) == settings_contents(*old(m)).insert(k, v.auto_mode),
{
    m.insert(k, v);
}

/// The preferences of every user who set any.
pub struct SettingsMap {
    inner: DashMap<i64, UserSettings>,
}

impl SettingsMap {
    /// What the map holds.
    pub closed spec fn view_map(&self) -> Map<i64, bool> {
        settings_contents(self.inner)
    }

    /// The automatic-mode flag that `get` reports for a user: the stored one,
    /// else the default (on).
    pub open spec fn auto_of(&self, user_id: i64) -> bool {
        if self.view_map().contains_key(user_id) {
            self.view_map()[user_id]
        } else {
            true
        }
    }

    /// An empty map.
    pub fn new() -> (r: SettingsMap)
        ensures
            r.view_map() == Map::<i64, bool>::empty(),
    {
        SettingsMap { inner: settings_map_new() }
    }

    /// The preferences of a user: those stored, else the defaults.
    pub fn get(&self, user_id: i64) -> (r: UserSettings)
        ensures
            r.auto_mode == self.auto_of(user_id),
    {
        match settings_map_get(&self.inner, user_id) {
            Some(a) => UserSettings { auto_mode: a },
            None => UserSettings::default(),
        }
    }

    /// Stores the preferences of a user.
    pub fn set(&mut self, user_id: i64, settings: UserSettings)
        ensures
            final(self).view_map() == old(self).view_map().insert(user_id, settings.auto_mode),
    {
        settings_map_insert(&mut self.inner, user_id, settings);
    }

    /// Turns a user's automatic mode on or off.
    pub fn set_auto(&mut self, user_id: i64, enabled: bool)
        ensures
            final(self).view_map() == old(self).view_map().insert(user_id, enabled),
    {
        let mut s = self.get(user_id);
        s.auto_mode = enabled;
        settings_map_insert(&mut self.inner, user_id, s);
    }
}

/// `/settings` arguments split at their first space (`split_once(' ')` on
/// the trimmed text): the sub-command and its value.
pub open spec fn settings_parts(args: Seq<char>) -> (Seq<char>, Seq<char>) {
    let t = trim_spec(args);
    match first_index_of(t, ' ') {
        Some(i) => (t.take(i), t.skip(i + 1)),
        None => (t, Seq::empty()),
    }
}

/// A value that turns automatic mode on.
pub open spec fn is_on(v: Seq<char>) -> bool {
    v == "on"@ || v == "true"@ || v == "1"@
}

/// A value that turns automatic mode off.
pub open spec fn is_off(v: Seq<char>) -> bool {
    v == "off"@ || v == "false"@ || v == "0"@
}

/// `ON` or `OFF`.
pub open spec fn on_off(b: bool) -> Seq<char> {
    if b {
        "ON"@
    } else {
        "OFF"@
    }
}

/// What `/settings` does: the new automatic-mode flag it stores, if any,
/// and its reply, given the user's current flag.
pub open spec fn settings_command_spec(args: Seq<char>, current: bool) -> (Option<bool>, Seq<char>) {
    let (cmd, val) = settings_parts(args);
    if cmd == "auto"@ {
        if is_on(val) {
            (Some(true), "Auto mode: ON\nFormat selection will be skipped."@)
        } else if is_off(val) {
            (Some(false), "Auto mode: OFF\nFormat selection will appear on /dl."@)
        } else {
            (None, "Auto mode: "@ + on_off(current) + "\nUsage: /settings auto <on|off>"@)
        }
    } else {
        (None, "Settings:\n\u{251c} Auto mode: "@ + on_off(current) + "\n\u{2514} Usage: /settings auto <on|off>"@)
    }
}

impl SettingsMap {
    /// Runs `/settings` for a user (see `settings_command_spec`): stores the
    /// flag it sets and returns the reply.
    pub fn settings_command(&mut self, user_id: i64, args: &str) -> (r: String)
        ensures
            r@ == settings_command_spec(args@, old(self).auto_of(user_id)).1,
            match settings_command_spec(args@, old(self).auto_of(user_id)).0 {
                Some(b) => final(self).view_map() == old(self).view_map().insert(user_id, b),
                None => final(self).view_map() == old(self).view_map(),
            },
    {
        let t = trim(args);
        let tc = chars_of(t.as_str());
        let (cmd, val) = match crate::text::find_char(&tc, ' ') {
            Some(i) => {
                assert(i < tc.len());
                assert(tc@.subrange(0, i as int) =~= tc@.take(i as int));
                assert(tc@.subrange(i + 1, tc@.len() as int) =~= tc@.skip(i + 1));
                (substring(&tc, 0, i), substring(&tc, i + 1, tc.len()))
            },
            None => (string_of(&tc), String::new()),
        };
        let current = self.get(user_id).auto_mode;
        let status = if current {
            "ON"
        } else {
            "OFF"
        };
        if str_eq(cmd.as_str(), "auto") {
            let v = val.as_str();
            if str_eq(v, "on") || str_eq(v, "true") || str_eq(v, "1") {
                self.set_auto(user_id, true);
                String::from_str("Auto mode: ON\nFormat selection will be skipped.")
            } else if str_eq(v, "off") || str_eq(v, "false") || str_eq(v, "0") {
                self.set_auto(user_id, false);
                String::from_str("Auto mode: OFF\nFormat selection will appear on /dl.")
            } else {
                let mut r = String::from_str("Auto mode: ");
                r.append(status);
                r.append("\nUsage: /settings auto <on|off>");
                r
            }
        } else {
            let mut r = String::from_str("Settings:\n\u{251c} Auto mode: ");
            r.append(status);
            r.append("\n\u{2514} Usage: /settings auto <on|off>");
            r
        }
    }
}

/// What `set_auto` stores, `get` reports, and no other user's preferences
/// change.
pub proof fn law_set_auto_then_get(before: SettingsMap, after: SettingsMap, user: i64, enabled: bool, other: i64)
    requires
        after.view_map() == before.view_map().insert(user, enabled),
    ensures
        after.auto_of(user) == enabled,
        other != user ==> after.auto_of(other) == before.auto_of(other),
{
}

/// A user who never set anything is in automatic mode.
pub proof fn law_default_auto(m: SettingsMap, user: i64)
    requires
        !m.view_map().contains_key(user),
    ensures
        m.auto_of(user),
{
}

} // verus!
