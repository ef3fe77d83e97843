//! Typed dashboard and router configuration drafts.

use vstd::prelude::*;

use crate::model::{Density, PlatformKind};
use crate::number;
use crate::number::{decimal, decimal_size, flag};
use crate::text::same_text;

verus! {

#[derive(Clone, Copy, Debug, PartialEq, Eq, Structural)]
pub enum ConfigPreset {
    LocalLab,
    BrowserSandbox,
    CompatReadOnly,
}

impl ConfigPreset {
    pub const ALL: [Self; 3] = [Self::LocalLab, Self::BrowserSandbox, Self::CompatReadOnly];

    /// The text of [`ConfigPreset::label`].
    pub open spec fn label_text(self) -> Seq<char> {
        match self {
            Self::LocalLab => "local lab"@,
            Self::BrowserSandbox => "browser sandbox"@,
            Self::CompatReadOnly => "compat read-only"@,
        }
    }

    pub fn label(self) -> (r: &'static str)
        ensures
            r@ == self.label_text(),
    {
        match self {
            Self::LocalLab => "local lab",
            Self::BrowserSandbox => "browser sandbox",
            Self::CompatReadOnly => "compat read-only",
        }
    }
}

#[derive(Debug, PartialEq, Eq)]
pub struct DashboardSettingsDraft {
    pub platform: PlatformKind,
    pub density: Density,
    pub node_prefix: String,
    pub max_tool_results: usize,
    pub auto_start_ping_server: bool,
    pub auto_start_iperf_server: bool,
    pub browser_config_read_only: bool,
}

impl Clone for DashboardSettingsDraft {
    fn clone(&self) -> (r: Self)
        ensures
            r == *self,
    {
        DashboardSettingsDraft {
            platform: self.platform,
            density: self.density,
            node_prefix: self.node_prefix.clone(),
            max_tool_results: self.max_tool_results,
            auto_start_ping_server: self.auto_start_ping_server,
            auto_start_iperf_server: self.auto_start_iperf_server,
            browser_config_read_only: self.browser_config_read_only,
        }
    }
}

impl DashboardSettingsDraft {
    pub fn for_platform(platform: PlatformKind, density: Density) -> (r: Self)
        ensures
            r.platform == platform,
            r.density == density,
            r.node_prefix@ == "/local/operator"@,
            r.max_tool_results == 200,
            r.auto_start_ping_server == (platform is Desktop),
            !r.auto_start_iperf_server,
            r.browser_config_read_only == (platform is Browser),
    {
        DashboardSettingsDraft {
            platform,
            density,
            node_prefix: "/local/operator".to_string(),
            max_tool_results: 200,
            auto_start_ping_server: platform == PlatformKind::Desktop,
            auto_start_iperf_server: false,
            browser_config_read_only: platform == PlatformKind::Browser,
        }
    }
}

#[derive(Debug, PartialEq, Eq)]
pub struct StartupFaceDraft {
    pub uri: String,
    pub persist: bool,
}

impl Clone for StartupFaceDraft {
    fn clone(&self) -> (r: Self)
        ensures
            r == *self,
    {
        StartupFaceDraft {
            uri: self.uri.clone(),
            persist: self.persist,
        }
    }
}

#[derive(Debug, PartialEq, Eq)]
pub struct StartupRouteDraft {
    pub prefix: String,
    pub face_uri: String,
    pub cost: u64,
}

impl Clone for StartupRouteDraft {
    fn clone(&self) -> (r: Self)
        ensures
            r == *self,
    {
        StartupRouteDraft {
            prefix: self.prefix.clone(),
            face_uri: self.face_uri.clone(),
            cost: self.cost,
        }
    }
}

#[derive(Debug, PartialEq, Eq)]
pub struct DiscoveryDraft {
    pub enabled: bool,
    pub service_prefix: String,
}

impl Clone for DiscoveryDraft {
    fn clone(&self) -> (r: Self)
        ensures
            r == *self,
    {
        DiscoveryDraft {
            enabled: self.enabled,
            service_prefix: self.service_prefix.clone(),
        }
    }
}

#[derive(Debug, PartialEq, Eq)]
pub struct SecurityDraft {
    pub require_signed_commands: bool,
    pub trust_context: String,
}

impl Clone for SecurityDraft {
    fn clone(&self) -> (r: Self)
        ensures
            r == *self,
    {
        SecurityDraft {
            require_signed_commands: self.require_signed_commands,
            trust_context: self.trust_context.clone(),
        }
    }
}

#[derive(Debug, PartialEq, Eq)]
pub struct RouterConfigDraft {
    pub router_name: String,
    pub management_socket: String,
    pub cs_capacity_bytes: u64,
    pub faces: Vec<StartupFaceDraft>,
    pub routes: Vec<StartupRouteDraft>,
    pub discovery: DiscoveryDraft,
    pub security: SecurityDraft,
}

fn copy_faces(faces: &Vec<StartupFaceDraft>) -> (r: Vec<StartupFaceDraft>)
    ensures
        r@ == faces@,
{
    let mut out: Vec<StartupFaceDraft> = Vec::new();
    let mut i: usize = 0;
    while i < faces.len()
        invariant
            i <= faces@.len(),
            out@ == faces@.take(i as int),
        decreases faces@.len() - i,
    {
        out.push(faces[i].clone());
        i = i + 1;
        assert(out@ =~= faces@.take(i as int));
    }
    assert(faces@.take(i as int) =~= faces@);
    out
}

fn copy_routes(routes: &Vec<StartupRouteDraft>) -> (r: Vec<StartupRouteDraft>)
    ensures
        r@ == routes@,
{
    let mut out: Vec<StartupRouteDraft> = Vec::new();
    let mut i: usize = 0;
    while i < routes.len()
        invariant
            i <= routes@.len(),
            out@ == routes@.take(i as int),
        decreases routes@.len() - i,
    {
        out.push(routes[i].clone());
        i = i + 1;
        assert(out@ =~= routes@.take(i as int));
    }
    assert(routes@.take(i as int) =~= routes@);
    out
}

impl Clone for RouterConfigDraft {
    fn clone(&self) -> (r: Self)
        ensures
            r.same_as(*self),
    {
        RouterConfigDraft {
            router_name: self.router_name.clone(),
            management_socket: self.management_socket.clone(),
            cs_capacity_bytes: self.cs_capacity_bytes,
            faces: copy_faces(&self.faces),
            routes: copy_routes(&self.routes),
            discovery: self.discovery.clone(),
            security: self.security.clone(),
        }
    }
}

#[derive(Debug, PartialEq, Eq)]
pub struct ConfigDiff {
    pub field: &'static str,
    pub current: String,
    pub draft: String,
    pub restart_required: bool,
}

impl Clone for ConfigDiff {
    fn clone(&self) -> (r: Self)
        ensures
            r == *self,
    {
        ConfigDiff {
            field: self.field,
            current: self.current.clone(),
            draft: self.draft.clone(),
            restart_required: self.restart_required,
        }
    }
}

/// What a diff row says.
pub struct DiffText {
    pub field: Seq<char>,
    pub current: Seq<char>,
    pub draft: Seq<char>,
    pub restart_required: bool,
}

impl View for ConfigDiff {
    type V = DiffText;

    open spec fn view(&self) -> DiffText {
        DiffText {
            field: self.field@,
            current: self.current@,
            draft: self.draft@,
            restart_required: self.restart_required,
        }
    }
}

/// What a list of diff rows says.
pub open spec fn diff_texts(diffs: Seq<ConfigDiff>) -> Seq<DiffText> {
    Seq::new(diffs.len(), |i: int| diffs[i]@)
}

/// One row where the two texts differ, else none.
pub open spec fn changed(
    field: Seq<char>,
    current: Seq<char>,
    draft: Seq<char>,
    restart_required: bool,
) -> Seq<DiffText> {
    if current == draft {
        seq![]
    } else {
        seq![DiffText { field, current, draft, restart_required }]
    }
}

impl RouterConfigDraft {
    /// Equal contents.
    pub open spec fn same_as(self, other: RouterConfigDraft) -> bool {
        &&& self.router_name == other.router_name
        &&& self.management_socket == other.management_socket
        &&& self.cs_capacity_bytes == other.cs_capacity_bytes
        &&& self.faces@ == other.faces@
        &&& self.routes@ == other.routes@
        &&& self.discovery == other.discovery
        &&& self.security == other.security
    }

    /// The parts of the draft that are no list.
    pub open spec fn named(
        self,
        router_name: Seq<char>,
        management_socket: Seq<char>,
        cs_capacity_bytes: u64,
        discovery: bool,
        service_prefix: Seq<char>,
        signed: bool,
        trust_context: Seq<char>,
    ) -> bool {
        &&& self.router_name@ == router_name
        &&& self.management_socket@ == management_socket
        &&& self.cs_capacity_bytes == cs_capacity_bytes
        &&& self.discovery.enabled == discovery
        &&& self.discovery.service_prefix@ == service_prefix
        &&& self.security.require_signed_commands == signed
        &&& self.security.trust_context@ == trust_context
    }

    /// The draft that a preset stands for.
    pub open spec fn is_preset(self, preset: ConfigPreset) -> bool {
        match preset {
            ConfigPreset::LocalLab => {
                &&& self.named(
                    "/local/operator/router"@,
                    "unix:///run/ndn-fwd/mgmt.sock"@,
                    65_536,
                    true,
                    "/local/operator/services"@,
                    true,
                    "/local/operator"@,
                )
                &&& self.faces@.len() == 1
                &&& self.faces@[0].uri@ == "udp4://127.0.0.1:6363"@
                &&& self.faces@[0].persist
                &&& self.routes@.len() == 1
                &&& self.routes@[0].prefix@ == "/local/operator"@
                &&& self.routes@[0].face_uri@ == "udp4://127.0.0.1:6363"@
                &&& self.routes@[0].cost == 10
            },
            ConfigPreset::BrowserSandbox => {
                &&& self.named(
                    "/browser/sandbox/router"@,
                    "browser-engine://in-page"@,
                    16_384,
                    false,
                    "/browser/sandbox/services"@,
                    false,
                    "/browser/sandbox"@,
                )
                &&& self.faces@.len() == 0
                &&& self.routes@.len() == 0
            },
            ConfigPreset::CompatReadOnly => {
                &&& self.named(
                    "/compat/forwarder"@,
                    "unix:///run/nfd/nfd.sock"@,
                    0,
                    false,
                    "/localhop/ndn-autoconf"@,
                    false,
                    "/"@,
                )
                &&& self.faces@.len() == 0
                &&& self.routes@.len() == 0
            },
        }
    }

    /// The rows by which a draft differs from the current configuration.
    pub open spec fn changes_from(self, current: RouterConfigDraft) -> Seq<DiffText> {
        changed("router_name"@, current.router_name@, self.router_name@, true) + changed(
            "management_socket"@,
            current.management_socket@,
            self.management_socket@,
            true,
        ) + changed(
            "cs_capacity_bytes"@,
            number::decimal_text(current.cs_capacity_bytes as nat),
            number::decimal_text(self.cs_capacity_bytes as nat),
            false,
        ) + changed(
            "faces"@,
            number::decimal_text(current.faces@.len()),
            number::decimal_text(self.faces@.len()),
            true,
        ) + changed(
            "routes"@,
            number::decimal_text(current.routes@.len()),
            number::decimal_text(self.routes@.len()),
            true,
        ) + changed(
            "discovery.enabled"@,
            number::flag_text(current.discovery.enabled),
            number::flag_text(self.discovery.enabled),
            false,
        ) + changed(
            "security.require_signed_commands"@,
            number::flag_text(current.security.require_signed_commands),
            number::flag_text(self.security.require_signed_commands),
            true,
        )
    }

    pub fn preset(preset: ConfigPreset) -> (r: Self)
        ensures
            r.is_preset(preset),
    {
        match preset {
            ConfigPreset::LocalLab => RouterConfigDraft {
                router_name: "/local/operator/router".to_string(),
                management_socket: "unix:///run/ndn-fwd/mgmt.sock".to_string(),
                cs_capacity_bytes: 65_536,
                faces: vec![
                    StartupFaceDraft { uri: "udp4://127.0.0.1:6363".to_string(), persist: true },
                ],
                routes: vec![
                    StartupRouteDraft {
                        prefix: "/local/operator".to_string(),
                        face_uri: "udp4://127.0.0.1:6363".to_string(),
                        cost: 10,
                    },
                ],
                discovery: DiscoveryDraft {
                    enabled: true,
                    service_prefix: "/local/operator/services".to_string(),
                },
                security: SecurityDraft {
                    require_signed_commands: true,
                    trust_context: "/local/operator".to_string(),
                },
            },
            ConfigPreset::BrowserSandbox => RouterConfigDraft {
                router_name: "/browser/sandbox/router".to_string(),
                management_socket: "browser-engine://in-page".to_string(),
                cs_capacity_bytes: 16_384,
                faces: Vec::new(),
                routes: Vec::new(),
                discovery: DiscoveryDraft {
                    enabled: false,
                    service_prefix: "/browser/sandbox/services".to_string(),
                },
                security: SecurityDraft {
                    require_signed_commands: false,
                    trust_context: "/browser/sandbox".to_string(),
                },
            },
            ConfigPreset::CompatReadOnly => RouterConfigDraft {
                router_name: "/compat/forwarder".to_string(),
                management_socket: "unix:///run/nfd/nfd.sock".to_string(),
                cs_capacity_bytes: 0,
                faces: Vec::new(),
                routes: Vec::new(),
                discovery: DiscoveryDraft {
                    enabled: false,
                    service_prefix: "/localhop/ndn-autoconf".to_string(),
                },
                security: SecurityDraft {
                    require_signed_commands: false,
                    trust_context: "/".to_string(),
                },
            },
        }
    }

    pub fn can_write(platform: PlatformKind) -> (r: bool)
        ensures
            r == (platform is Desktop),
    {
        platform == PlatformKind::Desktop
    }

    pub fn diff_from(&self, current: &Self) -> (r: Vec<ConfigDiff>)
        ensures
            diff_texts(r@) == self.changes_from(*current),
    {
        let mut diffs: Vec<ConfigDiff> = Vec::new();
        assert(diff_texts(diffs@) =~= seq![]);
        push_diff(
            &mut diffs,
            "router_name",
            current.router_name.as_str(),
            self.router_name.as_str(),
            true,
        );
        push_diff(
            &mut diffs,
            "management_socket",
            current.management_socket.as_str(),
            self.management_socket.as_str(),
            true,
        );
        push_diff(
            &mut diffs,
            "cs_capacity_bytes",
            decimal(current.cs_capacity_bytes).as_str(),
            decimal(self.cs_capacity_bytes).as_str(),
            false,
        );
        push_diff(
            &mut diffs,
            "faces",
            decimal_size(current.faces.len()).as_str(),
            decimal_size(self.faces.len()).as_str(),
            true,
        );
        push_diff(
            &mut diffs,
            "routes",
            decimal_size(current.routes.len()).as_str(),
            decimal_size(self.routes.len()).as_str(),
            true,
        );
        push_diff(
            &mut diffs,
            "discovery.enabled",
            flag(current.discovery.enabled).as_str(),
            flag(self.discovery.enabled).as_str(),
            false,
        );
        push_diff(
            &mut diffs,
            "security.require_signed_commands",
            flag(current.security.require_signed_commands).as_str(),
            flag(self.security.require_signed_commands).as_str(),
            true,
        );
        assert(diff_texts(diffs@) =~= self.changes_from(*current));
        diffs
    }
}

fn push_diff(
    diffs: &mut Vec<ConfigDiff>,
    field: &'static str,
    current: &str,
    draft: &str,
    restart_required: bool,
)
    ensures
        diff_texts(final(diffs)@) == diff_texts(old(diffs)@) + changed(
            field@,
            current@,
            draft@,
            restart_required,
        ),
{
    let ghost before = diff_texts(diffs@);
    if !same_text(current, draft) {
        diffs.push(
            ConfigDiff {
                field,
                current: current.to_string(),
                draft: draft.to_string(),
                restart_required,
            },
        );
    }
    assert(diff_texts(diffs@) =~= before + changed(field@, current@, draft@, restart_required));
}

/// A draft does not differ from a copy of itself.
pub proof fn copy_has_no_diff(draft: RouterConfigDraft, copy: RouterConfigDraft)
    requires
        copy.same_as(draft),
    ensures
        copy.changes_from(draft) == Seq::<DiffText>::empty(),
{
    assert(copy.changes_from(draft) =~= Seq::empty());
}

/// The row shows two different values and needs a restart, unless it is about
/// the store's capacity or discovery.
pub open spec fn marks_boundary(row: DiffText) -> bool {
    &&& row.current != row.draft
    &&& row.restart_required <==> !(row.field == "cs_capacity_bytes"@ || row.field
        == "discovery.enabled"@)
}

/// Every diff row shows two different values, and only the store's capacity and
/// discovery change without a restart.
pub proof fn diff_rows_mark_restart_boundaries(draft: RouterConfigDraft, current: RouterConfigDraft)
    ensures
        forall|i: int|
            0 <= i < draft.changes_from(current).len() ==> marks_boundary(
                #[trigger] draft.changes_from(current)[i],
            ),
{
    reveal_strlit("router_name");
    reveal_strlit("management_socket");
    reveal_strlit("cs_capacity_bytes");
    reveal_strlit("faces");
    reveal_strlit("routes");
    reveal_strlit("discovery.enabled");
    reveal_strlit("security.require_signed_commands");
    assert("management_socket"@[0] == 'm' && "cs_capacity_bytes"@[0] == 'c'
        && "discovery.enabled"@[0] == 'd');
}

// ---------------------------------------------------------------------------
// Laws
// ---------------------------------------------------------------------------

/// The row of a setting that changes.
pub open spec fn diff_row(
    field: Seq<char>,
    current: Seq<char>,
    draft: Seq<char>,
    restart_required: bool,
) -> DiffText {
    DiffText { field, current, draft, restart_required }
}

/// A diff lists a setting exactly where the draft changes it, with the current
/// value before the new one; faces and routes count by their number.
#[verifier::rlimit(60)]
pub proof fn diffs_list_what_changed(draft: RouterConfigDraft, current: RouterConfigDraft)
    ensures
        ({
            let diff = draft.changes_from(current);
            &&& current.router_name@ != draft.router_name@ ==> diff.contains(
                diff_row("router_name"@, current.router_name@, draft.router_name@, true),
            )
            &&& current.management_socket@ != draft.management_socket@ ==> diff.contains(
                diff_row(
                    "management_socket"@,
                    current.management_socket@,
                    draft.management_socket@,
                    true,
                ),
            )
            &&& current.cs_capacity_bytes != draft.cs_capacity_bytes ==> diff.contains(
                diff_row(
                    "cs_capacity_bytes"@,
                    number::decimal_text(current.cs_capacity_bytes as nat),
                    number::decimal_text(draft.cs_capacity_bytes as nat),
                    false,
                ),
            )
            &&& current.faces@.len() != draft.faces@.len() ==> diff.contains(
                diff_row(
                    "faces"@,
                    number::decimal_text(current.faces@.len()),
                    number::decimal_text(draft.faces@.len()),
                    true,
                ),
            )
            &&& current.routes@.len() != draft.routes@.len() ==> diff.contains(
                diff_row(
                    "routes"@,
                    number::decimal_text(current.routes@.len()),
                    number::decimal_text(draft.routes@.len()),
                    true,
                ),
            )
            &&& current.discovery.enabled != draft.discovery.enabled ==> diff.contains(
                diff_row(
                    "discovery.enabled"@,
                    number::flag_text(current.discovery.enabled),
                    number::flag_text(draft.discovery.enabled),
                    false,
                ),
            )
            &&& current.security.require_signed_commands != draft.security.require_signed_commands
                ==> diff.contains(
                diff_row(
                    "security.require_signed_commands"@,
                    number::flag_text(current.security.require_signed_commands),
                    number::flag_text(draft.security.require_signed_commands),
                    true,
                ),
            )
            &&& diff.len() == (if current.router_name@ != draft.router_name@ {
                1int
            } else {
                0
            }) + (if current.management_socket@ != draft.management_socket@ {
                1int
            } else {
                0
            }) + (if current.cs_capacity_bytes != draft.cs_capacity_bytes {
                1int
            } else {
                0
            }) + (if current.faces@.len() != draft.faces@.len() {
                1int
            } else {
                0
            }) + (if current.routes@.len() != draft.routes@.len() {
                1int
            } else {
                0
            }) + (if current.discovery.enabled != draft.discovery.enabled {
                1int
            } else {
                0
            }) + (if current.security.require_signed_commands
                != draft.security.require_signed_commands {
                1int
            } else {
                0
            })
        }),
{
    let a = changed("router_name"@, current.router_name@, draft.router_name@, true);
    let b = changed(
        "management_socket"@,
        current.management_socket@,
        draft.management_socket@,
        true,
    );
    let c = changed(
        "cs_capacity_bytes"@,
        number::decimal_text(current.cs_capacity_bytes as nat),
        number::decimal_text(draft.cs_capacity_bytes as nat),
        false,
    );
    let d = changed(
        "faces"@,
        number::decimal_text(current.faces@.len()),
        number::decimal_text(draft.faces@.len()),
        true,
    );
    let e = changed(
        "routes"@,
        number::decimal_text(current.routes@.len()),
        number::decimal_text(draft.routes@.len()),
        true,
    );
    let f = changed(
        "discovery.enabled"@,
        number::flag_text(current.discovery.enabled),
        number::flag_text(draft.discovery.enabled),
        false,
    );
    let g = changed(
        "security.require_signed_commands"@,
        number::flag_text(current.security.require_signed_commands),
        number::flag_text(draft.security.require_signed_commands),
        true,
    );
    if current.cs_capacity_bytes != draft.cs_capacity_bytes && number::decimal_text(
        current.cs_capacity_bytes as nat,
    ) == number::decimal_text(draft.cs_capacity_bytes as nat) {
        number::decimal_is_injective(
            current.cs_capacity_bytes as nat,
            draft.cs_capacity_bytes as nat,
        );
    }
    if number::decimal_text(current.faces@.len()) == number::decimal_text(draft.faces@.len()) {
        number::decimal_is_injective(current.faces@.len(), draft.faces@.len());
    }
    if number::decimal_text(current.routes@.len()) == number::decimal_text(draft.routes@.len()) {
        number::decimal_is_injective(current.routes@.len(), draft.routes@.len());
    }
    number::flags_are_told_apart(current.discovery.enabled);
    number::flags_are_told_apart(draft.discovery.enabled);
    number::flags_are_told_apart(current.security.require_signed_commands);
    number::flags_are_told_apart(draft.security.require_signed_commands);
    let all = draft.changes_from(current);
    assert(all == a + b + c + d + e + f + g);
    let bc = a.len() + b.len();
    let cd = bc + c.len();
    let de = cd + d.len();
    let ef = de + e.len();
    let fg = ef + f.len();
    if a.len() > 0 {
        assert(all[0] == a[0]);
    }
    if b.len() > 0 {
        assert(all[a.len() as int] == b[0]);
    }
    if c.len() > 0 {
        assert(all[bc as int] == c[0]);
    }
    if d.len() > 0 {
        assert(all[cd as int] == d[0]);
    }
    if e.len() > 0 {
        assert(all[de as int] == e[0]);
    }
    if f.len() > 0 {
        assert(all[ef as int] == f[0]);
    }
    if g.len() > 0 {
        assert(all[fg as int] == g[0]);
    }
}

/// A preset fits its use: the local one signs its commands, announces itself
/// and routes its own name over its one face; the others change nothing of the
/// forwarder, and a compatible forwarder keeps no content store of ours.
pub proof fn presets_fit_their_use(draft: RouterConfigDraft, preset: ConfigPreset)
    requires
        draft.is_preset(preset),
    ensures
        draft.security.require_signed_commands <==> preset == ConfigPreset::LocalLab,
        draft.discovery.enabled <==> preset == ConfigPreset::LocalLab,
        preset != ConfigPreset::LocalLab ==> draft.faces@.len() == 0 && draft.routes@.len() == 0,
        preset == ConfigPreset::LocalLab ==> {
            &&& draft.faces@.len() == 1 && draft.faces@[0].persist
            &&& draft.routes@.len() == 1
            &&& draft.routes@[0].face_uri@ == draft.faces@[0].uri@
            &&& draft.routes@[0].prefix@ == draft.security.trust_context@
            &&& draft.routes@[0].cost == 10
        },
        draft.cs_capacity_bytes == (match preset {
            ConfigPreset::LocalLab => 65_536nat,
            ConfigPreset::BrowserSandbox => 16_384,
            ConfigPreset::CompatReadOnly => 0,
        }),
        preset == ConfigPreset::LocalLab ==> draft.management_socket@
            == "unix:///run/ndn-fwd/mgmt.sock"@,
        preset == ConfigPreset::BrowserSandbox ==> draft.management_socket@
            == "browser-engine://in-page"@,
        preset == ConfigPreset::CompatReadOnly ==> draft.management_socket@
            == "unix:///run/nfd/nfd.sock"@,
{
}

} // verus!
