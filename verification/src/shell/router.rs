//! The start router dialog, and the edits of a router configuration.

use vstd::prelude::*;

use crate::config::{
    ConfigPreset, DashboardSettingsDraft, RouterConfigDraft, StartupFaceDraft, StartupRouteDraft,
};
use crate::model::PlatformKind;
use crate::number;
use crate::number::{decimal, parse_u64, parse_usize};
use crate::operations::StartRouterTab;
use crate::shell::Tone;

verus! {

/// The preset that a platform runs with.
pub open spec fn preset_on(platform: PlatformKind) -> ConfigPreset {
    match platform {
        PlatformKind::Browser => ConfigPreset::BrowserSandbox,
        PlatformKind::Desktop => ConfigPreset::LocalLab,
    }
}

pub fn platform_preset(platform: PlatformKind) -> (r: ConfigPreset)
    ensures
        r == preset_on(platform),
{
    match platform {
        PlatformKind::Browser => ConfigPreset::BrowserSandbox,
        PlatformKind::Desktop => ConfigPreset::LocalLab,
    }
}

// ---------------------------------------------------------------------------
// Edits
// ---------------------------------------------------------------------------

/// The first face of a draft, or none.
pub fn first_face_uri(draft: &RouterConfigDraft) -> (r: String)
    ensures
        r@ == (if draft.faces@.len() > 0 {
            draft.faces@[0].uri@
        } else {
            seq![]
        }),
{
    if draft.faces.len() > 0 {
        draft.faces[0].uri.clone()
    } else {
        String::new()
    }
}

/// The prefix of the first route of a draft, or none.
pub fn first_route_prefix(draft: &RouterConfigDraft) -> (r: String)
    ensures
        r@ == (if draft.routes@.len() > 0 {
            draft.routes@[0].prefix@
        } else {
            seq![]
        }),
{
    if draft.routes.len() > 0 {
        draft.routes[0].prefix.clone()
    } else {
        String::new()
    }
}

/// The cost of the first route of a draft, or the usual one.
pub fn first_route_cost(draft: &RouterConfigDraft) -> (r: String)
    ensures
        r@ == (if draft.routes@.len() > 0 {
            number::decimal_text(draft.routes@[0].cost as nat)
        } else {
            "10"@
        }),
{
    if draft.routes.len() > 0 {
        decimal(draft.routes[0].cost)
    } else {
        "10".to_string()
    }
}

/// The faces after the first one was given a URI. Where there is none, a URI
/// that is not empty adds one.
pub open spec fn faces_with(faces: Seq<StartupFaceDraft>, uri: String) -> Seq<StartupFaceDraft> {
    if faces.len() > 0 {
        faces.update(0, StartupFaceDraft { uri, ..faces[0] })
    } else if uri@.len() > 0 {
        seq![StartupFaceDraft { uri, persist: true }]
    } else {
        faces
    }
}

/// The routes after the first one was given a face.
pub open spec fn routes_over(routes: Seq<StartupRouteDraft>, uri: String) -> Seq<
    StartupRouteDraft,
> {
    if routes.len() > 0 {
        routes.update(0, StartupRouteDraft { face_uri: uri, ..routes[0] })
    } else {
        routes
    }
}

/// The draft with these faces and routes.
pub open spec fn only_lists_differ(before: RouterConfigDraft, after: RouterConfigDraft) -> bool {
    &&& after.router_name == before.router_name
    &&& after.management_socket == before.management_socket
    &&& after.cs_capacity_bytes == before.cs_capacity_bytes
    &&& after.discovery == before.discovery
    &&& after.security == before.security
}

/// Gives the first face of a draft a URI, and the first route that face.
pub fn edit_face_uri(draft: &mut RouterConfigDraft, uri: String)
    ensures
        only_lists_differ(*old(draft), *final(draft)),
        final(draft).faces@ == faces_with(old(draft).faces@, uri),
        final(draft).routes@ == routes_over(old(draft).routes@, uri),
{
    if draft.faces.len() > 0 {
        let persist = draft.faces[0].persist;
        draft.faces.set(0, StartupFaceDraft { uri: uri.clone(), persist });
    } else if !uri.as_str().is_empty() {
        draft.faces.push(StartupFaceDraft { uri: uri.clone(), persist: true });
        assert(draft.faces@ =~= faces_with(old(draft).faces@, uri));
    }
    if draft.routes.len() > 0 {
        let prefix = draft.routes[0].prefix.clone();
        let cost: u64 = draft.routes[0].cost;
        draft.routes.set(0, StartupRouteDraft { prefix, face_uri: uri, cost });
    }
}

/// The URI of the first face, or the empty one.
pub open spec fn is_first_uri(uri: Seq<char>, faces: Seq<StartupFaceDraft>) -> bool {
    uri == (if faces.len() > 0 {
        faces[0].uri@
    } else {
        seq![]
    })
}

/// Gives the first route of a draft a prefix. Where there is none, a prefix
/// that is not empty adds one over the first face.
pub fn edit_route_prefix(draft: &mut RouterConfigDraft, prefix: String)
    ensures
        only_lists_differ(*old(draft), *final(draft)),
        final(draft).faces == old(draft).faces,
        if old(draft).routes@.len() > 0 {
            final(draft).routes@ == old(draft).routes@.update(
                0,
                StartupRouteDraft { prefix, ..old(draft).routes@[0] },
            )
        } else if prefix@.len() > 0 {
            &&& final(draft).routes@.len() == 1
            &&& final(draft).routes@[0].prefix == prefix
            &&& is_first_uri(final(draft).routes@[0].face_uri@, old(draft).faces@)
            &&& final(draft).routes@[0].cost == 10
        } else {
            final(draft).routes@ == old(draft).routes@
        },
{
    if draft.routes.len() > 0 {
        let face_uri = draft.routes[0].face_uri.clone();
        let cost: u64 = draft.routes[0].cost;
        draft.routes.set(0, StartupRouteDraft { prefix, face_uri, cost });
    } else if !prefix.as_str().is_empty() {
        let face_uri = first_face_uri(draft);
        draft.routes.push(StartupRouteDraft { prefix, face_uri, cost: 10 });
    }
}

/// Gives the first route of a draft a cost, and says whether the text is a
/// number at all.
pub fn edit_route_cost(draft: &mut RouterConfigDraft, value: &str) -> (r: bool)
    ensures
        only_lists_differ(*old(draft), *final(draft)),
        final(draft).faces == old(draft).faces,
        match number::read_unsigned(value@, u64::MAX as nat) {
            Some(cost) => r && final(draft).routes@ == (if old(draft).routes@.len() > 0 {
                old(draft).routes@.update(
                    0,
                    StartupRouteDraft { cost: cost as u64, ..old(draft).routes@[0] },
                )
            } else {
                old(draft).routes@
            }),
            None => !r && *final(draft) == *old(draft),
        },
{
    match parse_u64(value) {
        Some(cost) => {
            if draft.routes.len() > 0 {
                let prefix = draft.routes[0].prefix.clone();
                let face_uri = draft.routes[0].face_uri.clone();
                draft.routes.set(0, StartupRouteDraft { prefix, face_uri, cost });
            }
            true
        },
        None => false,
    }
}

/// Sets the capacity of the content store, and says whether the text is a
/// number at all.
pub fn edit_cs_capacity(draft: &mut RouterConfigDraft, value: &str) -> (r: bool)
    ensures
        *final(draft) == (RouterConfigDraft {
            cs_capacity_bytes: final(draft).cs_capacity_bytes,
            ..*old(draft)
        }),
        match number::read_unsigned(value@, u64::MAX as nat) {
            Some(bytes) => r && final(draft).cs_capacity_bytes == bytes,
            None => !r && final(draft).cs_capacity_bytes == old(draft).cs_capacity_bytes,
        },
{
    match parse_u64(value) {
        Some(bytes) => {
            draft.cs_capacity_bytes = bytes;
            true
        },
        None => false,
    }
}

/// Renames the first face of a draft where there is one.
pub fn rename_face(draft: &mut RouterConfigDraft, uri: String)
    ensures
        only_lists_differ(*old(draft), *final(draft)),
        final(draft).routes == old(draft).routes,
        final(draft).faces@ == (if old(draft).faces@.len() > 0 {
            old(draft).faces@.update(0, StartupFaceDraft { uri, ..old(draft).faces@[0] })
        } else {
            old(draft).faces@
        }),
{
    if draft.faces.len() > 0 {
        let persist = draft.faces[0].persist;
        draft.faces.set(0, StartupFaceDraft { uri, persist });
    }
}

/// Renames the first route of a draft where there is one.
pub fn rename_route(draft: &mut RouterConfigDraft, prefix: String)
    ensures
        only_lists_differ(*old(draft), *final(draft)),
        final(draft).faces == old(draft).faces,
        final(draft).routes@ == (if old(draft).routes@.len() > 0 {
            old(draft).routes@.update(0, StartupRouteDraft { prefix, ..old(draft).routes@[0] })
        } else {
            old(draft).routes@
        }),
{
    if draft.routes.len() > 0 {
        let face_uri = draft.routes[0].face_uri.clone();
        let cost: u64 = draft.routes[0].cost;
        draft.routes.set(0, StartupRouteDraft { prefix, face_uri, cost });
    }
}

/// Sets how many results are kept, and says whether the text is a number at all.
pub fn edit_result_limit(draft: &mut DashboardSettingsDraft, value: &str) -> (r: bool)
    ensures
        *final(draft) == (DashboardSettingsDraft {
            max_tool_results: final(draft).max_tool_results,
            ..*old(draft)
        }),
        match number::read_unsigned(value@, usize::MAX as nat) {
            Some(limit) => r && final(draft).max_tool_results == limit,
            None => !r && final(draft).max_tool_results == old(draft).max_tool_results,
        },
{
    match parse_usize(value) {
        Some(limit) => {
            draft.max_tool_results = limit;
            true
        },
        None => false,
    }
}

// ---------------------------------------------------------------------------
// The dialog
// ---------------------------------------------------------------------------

/// The start router dialog.
#[derive(Debug)]
pub struct StartRouterDialog {
    pub open: bool,
    pub tab: StartRouterTab,
    pub draft: RouterConfigDraft,
    pub raw_toml: String,
    pub parse_error: Option<String>,
}

/// The text of a rendered draft, or nothing.
pub open spec fn rendered_text(rendered: Result<String, String>) -> Seq<char> {
    match rendered {
        Ok(toml) => toml@,
        Err(_) => seq![],
    }
}

fn rendered_or_empty(rendered: Result<String, String>) -> (r: String)
    ensures
        r@ == rendered_text(rendered),
{
    match rendered {
        Ok(toml) => toml,
        Err(_) => String::new(),
    }
}

impl StartRouterDialog {
    /// A closed dialog with the preset of the platform.
    pub fn new(platform: PlatformKind) -> (r: Self)
        ensures
            !r.open,
            r.tab is QuickStart,
            r.draft.is_preset(preset_on(platform)),
            r.raw_toml@.len() == 0,
            r.parse_error is None,
    {
        StartRouterDialog {
            open: false,
            tab: StartRouterTab::QuickStart,
            draft: RouterConfigDraft::preset(platform_preset(platform)),
            raw_toml: String::new(),
            parse_error: None,
        }
    }

    /// Opens the dialog on its first tab.
    pub fn show(&mut self)
        ensures
            final(self).open,
            final(self).tab is QuickStart,
            final(self).draft == old(self).draft,
            final(self).raw_toml == old(self).raw_toml,
            final(self).parse_error == old(self).parse_error,
    {
        self.tab = StartRouterTab::QuickStart;
        self.open = true;
    }

    /// Opens the dialog on its first tab, with the rendered draft as raw text
    /// unless there is some already.
    pub fn show_rendered(&mut self, rendered: Result<String, String>)
        ensures
            final(self).open,
            final(self).tab is QuickStart,
            final(self).draft == old(self).draft,
            final(self).parse_error == old(self).parse_error,
            final(self).raw_toml@ == (if old(self).raw_toml@.len() == 0 {
                rendered_text(rendered)
            } else {
                old(self).raw_toml@
            }),
    {
        if self.raw_toml.as_str().is_empty() {
            self.raw_toml = rendered_or_empty(rendered);
        }
        self.show();
    }

    /// Takes a changed draft, and what rendering it gave.
    pub fn update(&mut self, draft: RouterConfigDraft, rendered: Result<String, String>)
        ensures
            final(self).draft == draft,
            final(self).raw_toml@ == rendered_text(rendered),
            final(self).parse_error is None,
            final(self).open == old(self).open,
            final(self).tab == old(self).tab,
    {
        self.raw_toml = rendered_or_empty(rendered);
        self.parse_error = None;
        self.draft = draft;
    }

    /// Takes raw text as it is typed.
    pub fn type_raw(&mut self, raw: String)
        ensures
            final(self).raw_toml == raw,
            final(self).parse_error is None,
            final(self).draft == old(self).draft,
            final(self).open == old(self).open,
            final(self).tab == old(self).tab,
    {
        self.raw_toml = raw;
        self.parse_error = None;
    }

    /// Takes what reading the raw text gave: a draft replaces the one before,
    /// an error is shown beside it.
    pub fn apply_raw(&mut self, parsed: Result<RouterConfigDraft, String>)
        ensures
            match parsed {
                Ok(draft) => final(self).draft == draft && final(self).parse_error is None,
                Err(err) => final(self).draft == old(self).draft && final(self).parse_error == Some(
                    err,
                ),
            },
            final(self).raw_toml == old(self).raw_toml,
            final(self).open == old(self).open,
            final(self).tab == old(self).tab,
    {
        match parsed {
            Ok(draft) => {
                self.draft = draft;
                self.parse_error = None;
            },
            Err(err) => {
                self.parse_error = Some(err);
            },
        }
    }

    /// Closes the dialog where the start went well.
    pub fn start_finished(&mut self, tone: Tone)
        ensures
            final(self).open == (old(self).open && !(tone is Good)),
            final(self).tab == old(self).tab,
            final(self).draft == old(self).draft,
            final(self).raw_toml == old(self).raw_toml,
            final(self).parse_error == old(self).parse_error,
    {
        if tone == Tone::Good {
            self.open = false;
        }
    }
}

/// When a change takes effect.
pub fn apply_label(restart_required: bool) -> (r: &'static str)
    ensures
        r@ == (if restart_required {
            "restart"@
        } else {
            "runtime"@
        }),
{
    if restart_required {
        "restart"
    } else {
        "runtime"
    }
}

/// Where a draft has a face and a route, editing the face URI leaves the first
/// route over the first face.
pub proof fn route_follows_face(
    faces: Seq<StartupFaceDraft>,
    routes: Seq<StartupRouteDraft>,
    uri: String,
)
    requires
        routes.len() > 0,
        faces.len() > 0 || uri@.len() > 0,
    ensures
        routes_over(routes, uri)[0].face_uri == faces_with(faces, uri)[0].uri,
{
}

/// Editing the face URI changes the first face and the route over it, and keeps
/// everything else; without a face a new one is made, that persists.
pub proof fn editing_a_face_keeps_the_others(
    faces: Seq<StartupFaceDraft>,
    routes: Seq<StartupRouteDraft>,
    uri: String,
    i: int,
)
    ensures
        faces.len() > 0 ==> faces_with(faces, uri).len() == faces.len() && faces_with(
            faces,
            uri,
        )[0].uri@ == uri@ && faces_with(faces, uri)[0].persist == faces[0].persist,
        faces.len() == 0 && uri@.len() > 0 ==> faces_with(faces, uri).len() == 1 && faces_with(
            faces,
            uri,
        )[0].uri@ == uri@ && faces_with(faces, uri)[0].persist,
        faces.len() == 0 && uri@.len() == 0 ==> faces_with(faces, uri).len() == 0,
        0 < i < faces.len() ==> faces_with(faces, uri)[i] == faces[i],
        routes_over(routes, uri).len() == routes.len(),
        routes.len() > 0 ==> routes_over(routes, uri)[0].face_uri@ == uri@ && routes_over(
            routes,
            uri,
        )[0].prefix == routes[0].prefix && routes_over(routes, uri)[0].cost == routes[0].cost,
        0 < i < routes.len() ==> routes_over(routes, uri)[i] == routes[i],
{
}

/// Only the listed edits differ: an edit of faces and routes keeps the name, the
/// socket, the capacity, the discovery and the security of a draft.
pub proof fn list_edits_keep_the_settings(before: RouterConfigDraft, after: RouterConfigDraft)
    requires
        only_lists_differ(before, after),
    ensures
        after.router_name == before.router_name,
        after.management_socket == before.management_socket,
        after.cs_capacity_bytes == before.cs_capacity_bytes,
        after.discovery == before.discovery,
        after.security == before.security,
{
}

/// A browser starts from the sandbox, a desktop from the local lab.
pub proof fn presets_go_by_platform(platform: PlatformKind)
    ensures
        preset_on(platform) is BrowserSandbox <==> platform is Browser,
        preset_on(platform) is LocalLab <==> platform is Desktop,
{
}

/// A route that is added goes over the first face, or over none where there is
/// no face.
pub proof fn added_routes_go_over_the_first_face(uri: Seq<char>, faces: Seq<StartupFaceDraft>)
    requires
        is_first_uri(uri, faces),
    ensures
        faces.len() > 0 ==> uri == faces[0].uri@,
        faces.len() == 0 ==> uri.len() == 0,
{
}

} // verus!
