//! Platform services and preference storage.

use vstd::prelude::*;

use crate::model::{AttachTarget, DashboardPreferences, Density, PlatformKind};
use crate::text::chars_of;

verus! {

#[derive(Clone, Copy, Debug, PartialEq, Eq)]
pub struct PlatformServices {
    pub kind: PlatformKind,
    pub persistence: &'static str,
    pub clipboard: &'static str,
    pub notifications: &'static str,
}

#[derive(Debug, PartialEq, Eq)]
pub struct PreferenceSnapshot {
    pub key: String,
    pub preferences: DashboardPreferences,
}

impl Clone for PreferenceSnapshot {
    fn clone(&self) -> (r: Self)
        ensures
            r.key == self.key,
            r.preferences.same_as(self.preferences),
    {
        PreferenceSnapshot { key: self.key.clone(), preferences: self.preferences.clone() }
    }
}

pub trait PreferenceStore {
    fn load(&self) -> Option<PreferenceSnapshot>;

    fn save(&mut self, preferences: DashboardPreferences) -> PreferenceSnapshot;
}

#[derive(Debug)]
pub struct MemoryPreferenceStore {
    pub key: String,
    pub snapshot: Option<PreferenceSnapshot>,
}

impl Clone for MemoryPreferenceStore {
    fn clone(&self) -> (r: Self)
        ensures
            r.key == self.key,
            self.loads(r.snapshot),
    {
        MemoryPreferenceStore { key: self.key.clone(), snapshot: self.load() }
    }
}

impl MemoryPreferenceStore {
    /// What loading gives: a copy of the held snapshot.
    pub open spec fn loads(self, loaded: Option<PreferenceSnapshot>) -> bool {
        match self.snapshot {
            Some(held) => loaded matches Some(snapshot) && snapshot.key == held.key
                && snapshot.preferences.same_as(held.preferences),
            None => loaded is None,
        }
    }

    /// What saving leaves behind: the same key, with the preferences under it.
    pub open spec fn saves(self, preferences: DashboardPreferences, after: Self) -> bool {
        &&& after.key == self.key
        &&& after.snapshot matches Some(held) && held.key == self.key
            && held.preferences.same_as(preferences)
    }

    pub fn new(platform: PlatformKind) -> (r: Self)
        ensures
            r.key@ == preference_key_text(platform),
            r.snapshot is None,
    {
        MemoryPreferenceStore { key: preference_key(platform), snapshot: None }
    }
}

impl PreferenceStore for MemoryPreferenceStore {
    fn load(&self) -> (r: Option<PreferenceSnapshot>)
        ensures
            self.loads(r),
    {
        match &self.snapshot {
            Some(snapshot) => Some(snapshot.clone()),
            None => None,
        }
    }

    fn save(&mut self, preferences: DashboardPreferences) -> (r: PreferenceSnapshot)
        ensures
            old(self).saves(preferences, *final(self)),
            r.key == old(self).key,
            r.preferences == preferences,
    {
        let snapshot = PreferenceSnapshot { key: self.key.clone(), preferences };
        self.snapshot = Some(snapshot.clone());
        snapshot
    }
}

/// What was saved in memory comes back, under the key of the store.
pub proof fn saved_preferences_come_back(
    before: MemoryPreferenceStore,
    preferences: DashboardPreferences,
    after: MemoryPreferenceStore,
    loaded: Option<PreferenceSnapshot>,
)
    requires
        before.saves(preferences, after),
        after.loads(loaded),
    ensures
        loaded matches Some(snapshot) && snapshot.key == before.key
            && snapshot.preferences.same_as(preferences),
{
}

/// The preferences inside a snapshot.
pub fn load_preferences(snapshot: Option<PreferenceSnapshot>) -> (r: Option<DashboardPreferences>)
    ensures
        r == (match snapshot {
            Some(snapshot) => Some(snapshot.preferences),
            None => None,
        }),
{
    match snapshot {
        Some(snapshot) => Some(snapshot.preferences),
        None => None,
    }
}

/// The stored preferences, or the defaults for the targets where nothing is stored.
pub fn load_or_default_preferences(
    stored: Option<DashboardPreferences>,
    platform: PlatformKind,
    targets: Vec<AttachTarget>,
) -> (r: DashboardPreferences)
    requires
        targets@.len() <= u64::MAX - 1_717_200_000,
    ensures
        match stored {
            Some(stored) => r == stored,
            None => r.is_default(platform, targets@),
        },
{
    match stored {
        Some(stored) => stored,
        None => DashboardPreferences::defaults(platform, targets),
    }
}

/// The key under which the preferences of a platform are stored.
pub open spec fn preference_key_text(platform: PlatformKind) -> Seq<char> {
    "ndn-dashboard-next:"@ + (match platform {
        PlatformKind::Browser => "browser"@,
        PlatformKind::Desktop => "desktop"@,
    }) + ":preferences:v1"@
}

pub fn preference_key(platform: PlatformKind) -> (r: String)
    ensures
        r@ == preference_key_text(platform),
{
    let suffix = match platform {
        PlatformKind::Browser => "browser",
        PlatformKind::Desktop => "desktop",
    };
    "ndn-dashboard-next:".to_string().concat(suffix).concat(":preferences:v1")
}

/// No two platforms share a preference key.
pub proof fn preference_keys_differ(a: PlatformKind, b: PlatformKind)
    requires
        preference_key_text(a) == preference_key_text(b),
    ensures
        a == b,
{
    reveal_strlit("ndn-dashboard-next:");
    reveal_strlit("browser");
    reveal_strlit("desktop");
    let at = "ndn-dashboard-next:"@.len() as int;
    assert(preference_key_text(PlatformKind::Browser)[at] == 'b');
    assert(preference_key_text(PlatformKind::Desktop)[at] == 'd');
}

/// Where the configuration of a user is kept.
#[derive(Clone, Copy, Debug, PartialEq, Eq, Structural)]
pub enum ConfigHome {
    /// The directory that `XDG_CONFIG_HOME` names.
    Xdg,
    /// `.config` below the directory that `HOME` names.
    HomeDotConfig,
    /// `ndn-dashboard-next-config` below the directory for temporary files.
    Temporary,
}

/// Picks where the configuration is kept, by which variables are set.
pub fn config_home(has_xdg_config_home: bool, has_home: bool) -> (r: ConfigHome)
    ensures
        r == (if has_xdg_config_home {
            ConfigHome::Xdg
        } else if has_home {
            ConfigHome::HomeDotConfig
        } else {
            ConfigHome::Temporary
        }),
{
    if has_xdg_config_home {
        ConfigHome::Xdg
    } else if has_home {
        ConfigHome::HomeDotConfig
    } else {
        ConfigHome::Temporary
    }
}

/// The file that holds the preferences of a platform.
pub fn preference_file_name(platform: PlatformKind) -> (r: &'static str)
    ensures
        r@ == (match platform {
            PlatformKind::Browser => "preferences-browser.json"@,
            PlatformKind::Desktop => "preferences-desktop.json"@,
        }),
{
    match platform {
        PlatformKind::Browser => "preferences-browser.json",
        PlatformKind::Desktop => "preferences-desktop.json",
    }
}

/// A character that a file name can keep: an ASCII letter or digit, or one of `.-_`.
pub open spec fn is_safe_char(c: char) -> bool {
    ||| '0' <= c <= '9'
    ||| 'a' <= c <= 'z'
    ||| 'A' <= c <= 'Z'
    ||| c == '.'
    ||| c == '-'
    ||| c == '_'
}

/// The name with an underscore in place of every character that is not safe.
pub open spec fn safe_name(name: Seq<char>) -> Seq<char> {
    name.map_values(
        |c: char|
            if is_safe_char(c) {
                c
            } else {
                '_'
            },
    )
}

/// The name under which a text is saved to a file.
pub fn safe_file_name(filename: &str) -> (r: String)
    ensures
        r@ == safe_name(filename@),
{
    let x = chars_of(filename);
    let mut out = String::new();
    let mut i: usize = 0;
    while i < x.len()
        invariant
            i <= x@.len(),
            x@ == filename@,
            out@ == safe_name(filename@.take(i as int)),
        decreases x@.len() - i,
    {
        let c = x[i];
        let ghost before = out@;
        let safe = ('0' <= c && c <= '9') || ('a' <= c && c <= 'z') || ('A' <= c && c <= 'Z') || c
            == '.' || c == '-' || c == '_';
        let kept = if safe {
            c
        } else {
            '_'
        };
        out.push(kept);
        assert(safe_name(filename@.take(i + 1)) =~= before.push(kept));
        i = i + 1;
    }
    assert(filename@.take(i as int) =~= filename@);
    out
}

/// A saved name has only safe characters, and a safe name is saved as it is.
pub proof fn safe_names_are_kept(name: Seq<char>)
    ensures
        forall|i: int| 0 <= i < safe_name(name).len() ==> is_safe_char(#[trigger] safe_name(name)[i]),
        safe_name(safe_name(name)) == safe_name(name),
        safe_name(name).len() == name.len(),
{
    assert(safe_name(safe_name(name)) =~= safe_name(name));
}

pub fn density_storage_label(density: Density) -> (r: &'static str)
    ensures
        r@ == (match density {
            Density::Compact => "stored compact"@,
            Density::Comfortable => "stored comfortable"@,
        }),
{
    match density {
        Density::Compact => "stored compact",
        Density::Comfortable => "stored comfortable",
    }
}

/// The platform that a build runs on: a browser where it is built for WebAssembly.
pub fn current_platform(wasm_build: bool) -> (r: PlatformKind)
    ensures
        r == (if wasm_build {
            PlatformKind::Browser
        } else {
            PlatformKind::Desktop
        }),
{
    if wasm_build {
        PlatformKind::Browser
    } else {
        PlatformKind::Desktop
    }
}

pub fn services(kind: PlatformKind) -> (r: PlatformServices)
    ensures
        r.kind == kind,
        r.persistence@ == (match kind {
            PlatformKind::Browser => "browser localStorage"@,
            PlatformKind::Desktop => "local JSON config"@,
        }),
        r.clipboard@ == (match kind {
            PlatformKind::Browser => "web clipboard"@,
            PlatformKind::Desktop => "system clipboard"@,
        }),
        r.notifications@ == (match kind {
            PlatformKind::Browser => "web notifications"@,
            PlatformKind::Desktop => "desktop notifications"@,
        }),
{
    match kind {
        PlatformKind::Browser => PlatformServices {
            kind,
            persistence: "browser localStorage",
            clipboard: "web clipboard",
            notifications: "web notifications",
        },
        PlatformKind::Desktop => PlatformServices {
            kind,
            persistence: "local JSON config",
            clipboard: "system clipboard",
            notifications: "desktop notifications",
        },
    }
}

/// A safe file name keeps letters, digits, dots, hyphens and underscores where
/// they stand, and has an underscore in place of anything else.
pub proof fn safe_names_replace_the_rest(name: Seq<char>, i: int)
    requires
        0 <= i < name.len(),
    ensures
        ({
            let c = name[i];
            let plain = ('a' <= c <= 'z') || ('A' <= c <= 'Z') || ('0' <= c <= '9') || c == '.'
                || c == '-' || c == '_';
            safe_name(name)[i] == if plain {
                c
            } else {
                '_'
            }
        }),
{
}

} // verus!
