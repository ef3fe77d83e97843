//! Fleet, routing, discovery, radio, and topology models.

use vstd::prelude::*;

use crate::engine::{EngineSummary, FaceRow, RouteRow};
use crate::list;
use crate::model::{FeatureState, ForwarderKind, ForwarderProfile, TrustPosture};
use crate::number;
use crate::number::{decimal};
use crate::text;
use crate::text::{ascii_lowercase, before_char, piece_after, same_text, starts_with};

verus! {

#[derive(Debug, PartialEq, Eq)]
pub struct FleetNeighborRow {
    pub peer: String,
    pub face_uri: String,
    pub reachability: &'static str,
    pub trust: TrustPosture,
    pub enrollment_action: &'static str,
}

impl Clone for FleetNeighborRow {
    fn clone(&self) -> (r: Self)
        ensures
            r == *self,
    {
        FleetNeighborRow {
            peer: self.peer.clone(),
            face_uri: self.face_uri.clone(),
            reachability: self.reachability,
            trust: self.trust,
            enrollment_action: self.enrollment_action,
        }
    }
}

/// What a neighbor row says.
pub struct NeighborText {
    pub peer: Seq<char>,
    pub face_uri: Seq<char>,
    pub reachability: Seq<char>,
    pub trust: TrustPosture,
    pub enrollment_action: Seq<char>,
}

impl View for FleetNeighborRow {
    type V = NeighborText;

    open spec fn view(&self) -> NeighborText {
        NeighborText {
            peer: self.peer@,
            face_uri: self.face_uri@,
            reachability: self.reachability@,
            trust: self.trust,
            enrollment_action: self.enrollment_action@,
        }
    }
}

#[derive(Debug, PartialEq, Eq)]
pub struct DiscoveryControlState {
    pub protocol: &'static str,
    pub status: FeatureState,
    pub service_prefix: String,
    pub writable: bool,
}

impl Clone for DiscoveryControlState {
    fn clone(&self) -> (r: Self)
        ensures
            r == *self,
    {
        DiscoveryControlState {
            protocol: self.protocol,
            status: self.status,
            service_prefix: self.service_prefix.clone(),
            writable: self.writable,
        }
    }
}

#[derive(Clone, Copy, Debug, PartialEq, Eq)]
pub struct RoutingControlState {
    pub protocol: &'static str,
    pub status: FeatureState,
    pub routes: usize,
    pub writable: bool,
}

impl RoutingControlState {
    /// The control with these parts.
    pub open spec fn is(
        self,
        protocol: Seq<char>,
        status: FeatureState,
        routes: nat,
        writable: bool,
    ) -> bool {
        &&& self.protocol@ == protocol
        &&& self.status == status
        &&& self.routes == routes
        &&& self.writable == writable
    }
}

#[derive(Debug, PartialEq, Eq)]
pub struct RadioFaceRow {
    pub transport: &'static str,
    pub face: String,
    pub state: String,
    pub support: FeatureState,
}

impl Clone for RadioFaceRow {
    fn clone(&self) -> (r: Self)
        ensures
            r == *self,
    {
        RadioFaceRow {
            transport: self.transport,
            face: self.face.clone(),
            state: self.state.clone(),
            support: self.support,
        }
    }
}

/// What a radio row says.
pub struct RadioText {
    pub transport: Seq<char>,
    pub face: Seq<char>,
    pub state: Seq<char>,
    pub support: FeatureState,
}

impl View for RadioFaceRow {
    type V = RadioText;

    open spec fn view(&self) -> RadioText {
        RadioText {
            transport: self.transport@,
            face: self.face@,
            state: self.state@,
            support: self.support,
        }
    }
}

#[derive(Debug, PartialEq, Eq)]
pub struct TopologyEdge {
    pub source: String,
    pub target: String,
    pub via: String,
    pub evidence: &'static str,
}

impl Clone for TopologyEdge {
    fn clone(&self) -> (r: Self)
        ensures
            r == *self,
    {
        TopologyEdge {
            source: self.source.clone(),
            target: self.target.clone(),
            via: self.via.clone(),
            evidence: self.evidence,
        }
    }
}

/// What an edge of the topology says.
pub struct EdgeText {
    pub source: Seq<char>,
    pub target: Seq<char>,
    pub via: Seq<char>,
    pub evidence: Seq<char>,
}

impl View for TopologyEdge {
    type V = EdgeText;

    open spec fn view(&self) -> EdgeText {
        EdgeText {
            source: self.source@,
            target: self.target@,
            via: self.via@,
            evidence: self.evidence@,
        }
    }
}

#[derive(Debug, PartialEq, Eq)]
pub struct NetworkViewModel {
    pub neighbors: Vec<FleetNeighborRow>,
    pub discovery: DiscoveryControlState,
    pub routing: Vec<RoutingControlState>,
    pub radios: Vec<RadioFaceRow>,
    pub topology: Vec<TopologyEdge>,
    pub degraded: bool,
}

impl Clone for NetworkViewModel {
    fn clone(&self) -> (r: Self)
        ensures
            r.neighbors@ == self.neighbors@,
            r.routing@ == self.routing@,
            r.radios@ == self.radios@,
            r.topology@ == self.topology@,
            r.discovery == self.discovery,
            r.degraded == self.degraded,
    {
        let r = NetworkViewModel {
            neighbors: self.neighbors.clone(),
            routing: self.routing.clone(),
            radios: self.radios.clone(),
            topology: self.topology.clone(),
            discovery: self.discovery.clone(),
            degraded: self.degraded,
        };
        assert(r.neighbors@ =~= self.neighbors@);
        assert(r.routing@ =~= self.routing@);
        assert(r.radios@ =~= self.radios@);
        assert(r.topology@ =~= self.topology@);
        r
    }
}

/// The peer of a face: what stands between `://` and the next slash of its URI.
pub open spec fn peer_text(uri: Seq<char>) -> Seq<char> {
    let rest = match text::second_piece(uri, "://"@) {
        Some(rest) => rest,
        None => uri,
    };
    rest.take(text::first_at(rest, '/'))
}

/// The transport that a URI names.
pub open spec fn transport_text(uri: Seq<char>) -> Seq<char> {
    if "ether://"@.is_prefix_of(uri) {
        "ethernet"@
    } else if "ble://"@.is_prefix_of(uri) {
        "BLE"@
    } else if "wifi-aware://"@.is_prefix_of(uri) {
        "Wi-Fi Aware"@
    } else if "wfb://"@.is_prefix_of(uri) {
        "WFB"@
    } else if "webtransport://"@.is_prefix_of(uri) {
        "WebTransport"@
    } else if "udp"@.is_prefix_of(uri) {
        "UDP"@
    } else {
        "local"@
    }
}

/// The URI is that of a link-layer radio.
pub open spec fn is_radio(uri: Seq<char>) -> bool {
    ||| "ether://"@.is_prefix_of(uri)
    ||| "ble://"@.is_prefix_of(uri)
    ||| "wifi-aware://"@.is_prefix_of(uri)
    ||| "wfb://"@.is_prefix_of(uri)
}

/// How a forwarder supports the radio of a URI.
pub open spec fn support_of(uri: Seq<char>, kind: ForwarderKind) -> FeatureState {
    if is_radio(uri) {
        if kind is NdnRs {
            FeatureState::Enabled
        } else {
            FeatureState::Unsupported
        }
    } else {
        FeatureState::ReadOnly
    }
}

/// The face leads to a neighbor.
pub open spec fn is_external(face: FaceRow) -> bool {
    !"internal://"@.is_prefix_of(face.uri@)
}

/// The row of the neighbor behind a face.
pub open spec fn neighbor_of(face: FaceRow, writable: bool) -> NeighborText {
    NeighborText {
        peer: peer_text(face.uri@),
        face_uri: face.uri@,
        reachability: if face.state@ == "up"@ {
            "reachable"@
        } else {
            "degraded"@
        },
        trust: if writable {
            TrustPosture::Valid
        } else {
            TrustPosture::Unsupported
        },
        enrollment_action: if writable {
            "enroll"@
        } else {
            "unavailable"@
        },
    }
}

/// The row of the radio of a face.
pub open spec fn radio_of(face: FaceRow, kind: ForwarderKind) -> RadioText {
    RadioText {
        transport: transport_text(face.uri@),
        face: number::decimal_text(face.id as nat),
        state: face.state@,
        support: support_of(face.uri@, kind),
    }
}

/// The edge of a route.
pub open spec fn edge_of(route: RouteRow, kind: ForwarderKind) -> EdgeText {
    EdgeText {
        source: kind.label_text(),
        target: route.prefix@,
        via: "face "@ + number::decimal_text(route.face_id as nat),
        evidence: if kind is NdnRs {
            "rib/fib"@
        } else {
            "compat route"@
        },
    }
}

/// The route was learned by distance vector routing.
pub open spec fn is_dvr(route: RouteRow) -> bool {
    route.source@ == "dvr"@
}

/// The route was learned by link state routing, ASCII case aside.
pub open spec fn is_nlsr(route: RouteRow) -> bool {
    text::ascii_lower(route.source@) == "nlsr"@
}

/// The network can be changed through this profile.
pub open spec fn is_writable(profile: ForwarderProfile) -> bool {
    profile.capabilities.ndnrs_native is Enabled
}

impl NetworkViewModel {
    /// The network as an engine's summary shows it.
    pub open spec fn shows(self, profile: ForwarderProfile, summary: EngineSummary) -> bool {
        let writable = is_writable(profile);
        let routes = summary.routes@;
        &&& self.neighbors@.map_values(|row: FleetNeighborRow| row@) == summary.faces@.filter(
            |face: FaceRow| is_external(face),
        ).map_values(|face: FaceRow| neighbor_of(face, writable))
        &&& self.discovery.protocol@ == "service discovery"@
        &&& self.discovery.status == (if writable {
            FeatureState::Enabled
        } else {
            FeatureState::ReadOnly
        })
        &&& self.discovery.service_prefix@ == "/localhop/ndn-autoconf"@
        &&& self.discovery.writable == writable
        &&& self.routing@.len() == 3
        &&& self.routing@[0].is("static"@, FeatureState::Enabled, routes.len(), writable)
        &&& self.routing@[1].is(
            "DVR"@,
            if writable {
                FeatureState::Degraded
            } else {
                FeatureState::Unsupported
            },
            routes.filter(|route: RouteRow| is_dvr(route)).len(),
            writable,
        )
        &&& self.routing@[2].is(
            "NLSR"@,
            if profile.kind is Nfd {
                FeatureState::ReadOnly
            } else {
                FeatureState::Unsupported
            },
            routes.filter(|route: RouteRow| is_nlsr(route)).len(),
            false,
        )
        &&& self.radios@.map_values(|row: RadioFaceRow| row@) == summary.faces@.map_values(
            |face: FaceRow| radio_of(face, profile.kind),
        )
        &&& self.topology@.map_values(|edge: TopologyEdge| edge@) == routes.map_values(
            |route: RouteRow| edge_of(route, profile.kind),
        )
        &&& self.degraded == !(profile.kind is NdnRs)
    }

    pub fn from_engine(profile: &ForwarderProfile, summary: &EngineSummary) -> (r: Self)
        ensures
            r.shows(*profile, *summary),
    {
        let writable = profile.capabilities.ndnrs_native == FeatureState::Enabled;
        let degraded = !matches!(profile.kind, ForwarderKind::NdnRs);
        let neighbors = neighbor_rows(&summary.faces, writable);
        let radios = radio_rows(&summary.faces, profile.kind);
        let topology = topology_edges(&summary.routes, profile.kind);
        let (dvr, nlsr) = learned_routes(&summary.routes);
        NetworkViewModel {
            neighbors,
            discovery: DiscoveryControlState {
                protocol: "service discovery",
                status: if writable {
                    FeatureState::Enabled
                } else {
                    FeatureState::ReadOnly
                },
                service_prefix: "/localhop/ndn-autoconf".to_string(),
                writable,
            },
            routing: vec![
                RoutingControlState {
                    protocol: "static",
                    status: FeatureState::Enabled,
                    routes: summary.routes.len(),
                    writable,
                },
                RoutingControlState {
                    protocol: "DVR",
                    status: if writable {
                        FeatureState::Degraded
                    } else {
                        FeatureState::Unsupported
                    },
                    routes: dvr,
                    writable,
                },
                RoutingControlState {
                    protocol: "NLSR",
                    status: if profile.kind == ForwarderKind::Nfd {
                        FeatureState::ReadOnly
                    } else {
                        FeatureState::Unsupported
                    },
                    routes: nlsr,
                    writable: false,
                },
            ],
            radios,
            topology,
            degraded,
        }
    }
}

fn neighbor_rows(faces: &Vec<FaceRow>, writable: bool) -> (r: Vec<FleetNeighborRow>)
    ensures
        r@.map_values(|row: FleetNeighborRow| row@) == faces@.filter(
            |face: FaceRow| is_external(face),
        ).map_values(|face: FaceRow| neighbor_of(face, writable)),
{
    let ghost keep = |face: FaceRow| is_external(face);
    let ghost row_of = |face: FaceRow| neighbor_of(face, writable);
    let ghost view = |row: FleetNeighborRow| row@;
    let mut out: Vec<FleetNeighborRow> = Vec::new();
    let mut i: usize = 0;
    proof {
        list::lemma_filter_ends(faces@, keep);
        assert(out@.map_values(view) =~= faces@.take(0).filter(keep).map_values(row_of));
    }
    while i < faces.len()
        invariant
            i <= faces@.len(),
            keep == (|face: FaceRow| is_external(face)),
            row_of == (|face: FaceRow| neighbor_of(face, writable)),
            view == (|row: FleetNeighborRow| row@),
            out@.map_values(view) == faces@.take(i as int).filter(keep).map_values(row_of),
        decreases faces@.len() - i,
    {
        let ghost before = faces@.take(i as int).filter(keep);
        let ghost rows = out@;
        proof {
            list::lemma_filter_next(faces@, keep, i as int);
        }
        let face = &faces[i];
        if !starts_with(face.uri.as_str(), "internal://") {
            let row = FleetNeighborRow {
                peer: peer_from_face(face),
                face_uri: face.uri.clone(),
                reachability: if same_text(face.state.as_str(), "up") {
                    "reachable"
                } else {
                    "degraded"
                },
                trust: if writable {
                    TrustPosture::Valid
                } else {
                    TrustPosture::Unsupported
                },
                enrollment_action: if writable {
                    "enroll"
                } else {
                    "unavailable"
                },
            };
            assert(view(row) == row_of(*face));
            let ghost added = row;
            out.push(row);
            proof {
                assert(out@.map_values(view) =~= rows.map_values(view).push(view(added)));
                assert(before.push(*face).map_values(row_of) =~= before.map_values(row_of).push(
                    row_of(*face),
                ));
            }
        }
        i = i + 1;
    }
    proof {
        list::lemma_filter_ends(faces@, keep);
    }
    out
}

fn radio_rows(faces: &Vec<FaceRow>, kind: ForwarderKind) -> (r: Vec<RadioFaceRow>)
    ensures
        r@.map_values(|row: RadioFaceRow| row@) == faces@.map_values(
            |face: FaceRow| radio_of(face, kind),
        ),
{
    let mut out: Vec<RadioFaceRow> = Vec::new();
    let mut i: usize = 0;
    while i < faces.len()
        invariant
            i <= faces@.len(),
            out@.len() == i,
            forall|k: int| 0 <= k < i ==> (#[trigger] out@[k])@ == radio_of(faces@[k], kind),
        decreases faces@.len() - i,
    {
        let face = &faces[i];
        out.push(
            RadioFaceRow {
                transport: transport_kind(face.uri.as_str()),
                face: decimal(face.id),
                state: face.state.clone(),
                support: radio_support(face.uri.as_str(), kind),
            },
        );
        i = i + 1;
    }
    assert(out@.map_values(|row: RadioFaceRow| row@) =~= faces@.map_values(
        |face: FaceRow| radio_of(face, kind),
    ));
    out
}

fn topology_edges(routes: &Vec<RouteRow>, kind: ForwarderKind) -> (r: Vec<TopologyEdge>)
    ensures
        r@.map_values(|edge: TopologyEdge| edge@) == routes@.map_values(
            |route: RouteRow| edge_of(route, kind),
        ),
{
    let mut out: Vec<TopologyEdge> = Vec::new();
    let mut i: usize = 0;
    while i < routes.len()
        invariant
            i <= routes@.len(),
            out@.len() == i,
            forall|k: int| 0 <= k < i ==> (#[trigger] out@[k])@ == edge_of(routes@[k], kind),
        decreases routes@.len() - i,
    {
        let route = &routes[i];
        out.push(
            TopologyEdge {
                source: kind.label().to_string(),
                target: route.prefix.clone(),
                via: "face ".to_string().concat(decimal(route.face_id).as_str()),
                evidence: if matches!(kind, ForwarderKind::NdnRs) {
                    "rib/fib"
                } else {
                    "compat route"
                },
            },
        );
        i = i + 1;
    }
    assert(out@.map_values(|edge: TopologyEdge| edge@) =~= routes@.map_values(
        |route: RouteRow| edge_of(route, kind),
    ));
    out
}

/// How many routes were learned by distance vector and by link state routing.
fn learned_routes(routes: &Vec<RouteRow>) -> (r: (usize, usize))
    ensures
        r.0 == routes@.filter(|route: RouteRow| is_dvr(route)).len(),
        r.1 == routes@.filter(|route: RouteRow| is_nlsr(route)).len(),
{
    let ghost by_dvr = |route: RouteRow| is_dvr(route);
    let ghost by_nlsr = |route: RouteRow| is_nlsr(route);
    let mut dvr: usize = 0;
    let mut nlsr: usize = 0;
    let mut i: usize = 0;
    proof {
        list::lemma_filter_ends(routes@, by_dvr);
        list::lemma_filter_ends(routes@, by_nlsr);
    }
    while i < routes.len()
        invariant
            i <= routes@.len(),
            by_dvr == (|route: RouteRow| is_dvr(route)),
            by_nlsr == (|route: RouteRow| is_nlsr(route)),
            dvr <= i,
            nlsr <= i,
            dvr == routes@.take(i as int).filter(by_dvr).len(),
            nlsr == routes@.take(i as int).filter(by_nlsr).len(),
        decreases routes@.len() - i,
    {
        proof {
            list::lemma_filter_next(routes@, by_dvr, i as int);
            list::lemma_filter_next(routes@, by_nlsr, i as int);
        }
        let source = routes[i].source.as_str();
        if same_text(source, "dvr") {
            dvr = dvr + 1;
        }
        if same_text(ascii_lowercase(source).as_str(), "nlsr") {
            nlsr = nlsr + 1;
        }
        i = i + 1;
    }
    proof {
        list::lemma_filter_ends(routes@, by_dvr);
        list::lemma_filter_ends(routes@, by_nlsr);
    }
    (dvr, nlsr)
}

fn peer_from_face(face: &FaceRow) -> (r: String)
    ensures
        r@ == peer_text(face.uri@),
{
    let uri = face.uri.as_str();
    proof {
        reveal_strlit("://");
    }
    let rest = match piece_after(uri, "://") {
        Some(rest) => rest,
        None => uri,
    };
    before_char(rest, '/').to_string()
}

fn transport_kind(uri: &str) -> (r: &'static str)
    ensures
        r@ == transport_text(uri@),
{
    if starts_with(uri, "ether://") {
        "ethernet"
    } else if starts_with(uri, "ble://") {
        "BLE"
    } else if starts_with(uri, "wifi-aware://") {
        "Wi-Fi Aware"
    } else if starts_with(uri, "wfb://") {
        "WFB"
    } else if starts_with(uri, "webtransport://") {
        "WebTransport"
    } else if starts_with(uri, "udp") {
        "UDP"
    } else {
        "local"
    }
}

fn radio_support(uri: &str, kind: ForwarderKind) -> (r: FeatureState)
    ensures
        r == support_of(uri@, kind),
{
    let radio = starts_with(uri, "ether://") || starts_with(uri, "ble://") || starts_with(
        uri,
        "wifi-aware://",
    ) || starts_with(uri, "wfb://");
    if radio {
        if kind == ForwarderKind::NdnRs {
            FeatureState::Enabled
        } else {
            FeatureState::Unsupported
        }
    } else {
        FeatureState::ReadOnly
    }
}

/// Where the network cannot be changed no neighbor counts as trusted, and
/// neither discovery nor routing can be written.
pub proof fn read_only_network_trusts_no_neighbor(
    view: NetworkViewModel,
    profile: ForwarderProfile,
    summary: EngineSummary,
)
    requires
        view.shows(profile, summary),
        !is_writable(profile),
    ensures
        forall|i: int|
            0 <= i < view.neighbors@.len() ==> (
            #[trigger] view.neighbors@[i]).trust is Unsupported,
        !view.discovery.writable,
        forall|i: int| 0 <= i < view.routing@.len() ==> !(#[trigger] view.routing@[i]).writable,
{
    let rows = view.neighbors@.map_values(|row: FleetNeighborRow| row@);
    let faces = summary.faces@.filter(|face: FaceRow| is_external(face));
    let writable = is_writable(profile);
    assert(rows == faces.map_values(|face: FaceRow| neighbor_of(face, writable)));
    assert forall|i: int| 0 <= i < view.neighbors@.len() implies (
    #[trigger] view.neighbors@[i]).trust is Unsupported by {
        assert(rows[i] == view.neighbors@[i]@);
        assert(rows.len() == faces.len());
        assert(rows[i] == neighbor_of(faces[i], writable));
    }
}

// ---------------------------------------------------------------------------
// Laws
// ---------------------------------------------------------------------------

/// Every face but an internal one is a neighbor, in the order of the faces. One
/// that is up is reachable; it is trusted and can be enrolled only where the
/// native extensions are enabled.
pub proof fn neighbors_are_the_outer_faces(
    view: NetworkViewModel,
    profile: ForwarderProfile,
    summary: EngineSummary,
    i: int,
)
    requires
        view.shows(profile, summary),
    ensures
        ({
            let outer = summary.faces@.filter(
                |face: FaceRow| !"internal://"@.is_prefix_of(face.uri@),
            );
            let native = profile.capabilities.ndnrs_native is Enabled;
            &&& view.neighbors@.len() == outer.len()
            &&& 0 <= i < outer.len() ==> {
                let row = view.neighbors@[i];
                &&& row.face_uri@ == outer[i].uri@
                &&& outer[i].state@ == "up"@ ==> row.reachability@ == "reachable"@
                &&& outer[i].state@ != "up"@ ==> row.reachability@ == "degraded"@
                &&& native ==> row.trust is Valid && row.enrollment_action@ == "enroll"@
                &&& !native ==> row.trust is Unsupported && row.enrollment_action@
                    == "unavailable"@
            }
        }),
{
    let outside = |face: FaceRow| is_external(face);
    let plain = |face: FaceRow| !"internal://"@.is_prefix_of(face.uri@);
    assert(outside =~= plain);
    let rows = view.neighbors@.map_values(|row: FleetNeighborRow| row@);
    assert(rows.len() == view.neighbors@.len());
    if 0 <= i < rows.len() {
        assert(rows[i] == view.neighbors@[i]@);
    }
}

/// Every face is listed with its transport, which its URI begins with. A radio
/// is supported by a native forwarder only; anything else can be read.
pub proof fn radios_are_told_by_their_uri(
    view: NetworkViewModel,
    profile: ForwarderProfile,
    summary: EngineSummary,
    i: int,
)
    requires
        view.shows(profile, summary),
    ensures
        view.radios@.len() == summary.faces@.len(),
        0 <= i < summary.faces@.len() ==> {
            let row = view.radios@[i];
            let face = summary.faces@[i];
            let ether = "ether://"@.is_prefix_of(face.uri@);
            let ble = "ble://"@.is_prefix_of(face.uri@);
            let aware = "wifi-aware://"@.is_prefix_of(face.uri@);
            let wfb = "wfb://"@.is_prefix_of(face.uri@);
            let radio = ether || ble || aware || wfb;
            &&& row.face@ == number::decimal_text(face.id as nat)
            &&& row.state@ == face.state@
            &&& ether ==> row.transport@ == "ethernet"@
            &&& ble && !ether ==> row.transport@ == "BLE"@
            &&& aware && !ether && !ble ==> row.transport@ == "Wi-Fi Aware"@
            &&& wfb && !ether && !ble && !aware ==> row.transport@ == "WFB"@
            &&& radio ==> (row.support is Enabled <==> profile.kind is NdnRs)
            &&& radio && !(profile.kind is NdnRs) ==> row.support is Unsupported
            &&& !radio ==> row.support is ReadOnly
        },
{
    let rows = view.radios@.map_values(|row: RadioFaceRow| row@);
    assert(rows.len() == view.radios@.len());
    if 0 <= i < rows.len() {
        assert(rows[i] == view.radios@[i]@);
    }
}

/// Every route is an edge from the forwarder to its prefix, over its own face.
pub proof fn edges_are_the_routes(
    view: NetworkViewModel,
    profile: ForwarderProfile,
    summary: EngineSummary,
    i: int,
)
    requires
        view.shows(profile, summary),
    ensures
        view.topology@.len() == summary.routes@.len(),
        0 <= i < summary.routes@.len() ==> {
            let edge = view.topology@[i];
            &&& edge.source@ == profile.kind.label_text()
            &&& edge.target@ == summary.routes@[i].prefix@
            &&& edge.via@ == "face "@ + number::decimal_text(summary.routes@[i].face_id as nat)
            &&& profile.kind is NdnRs ==> edge.evidence@ == "rib/fib"@
            &&& !(profile.kind is NdnRs) ==> edge.evidence@ == "compat route"@
        },
{
    let rows = view.topology@.map_values(|edge: TopologyEdge| edge@);
    assert(rows.len() == view.topology@.len());
    if 0 <= i < rows.len() {
        assert(rows[i] == view.topology@[i]@);
    }
}

/// Routing counts every route as static, and those learned by the source they
/// name. Only where the native extensions are enabled is anything writable, and
/// NLSR never is.
pub proof fn routing_counts_routes_by_source(
    view: NetworkViewModel,
    profile: ForwarderProfile,
    summary: EngineSummary,
)
    requires
        view.shows(profile, summary),
    ensures
        ({
            let native = profile.capabilities.ndnrs_native is Enabled;
            let routing = view.routing@;
            &&& routing.len() == 3
            &&& routing[0].routes == summary.routes@.len() && routing[0].status is Enabled
            &&& routing[1].routes == summary.routes@.filter(
                |route: RouteRow| route.source@ == "dvr"@,
            ).len()
            &&& routing[2].routes == summary.routes@.filter(
                |route: RouteRow| text::ascii_lower(route.source@) == "nlsr"@,
            ).len()
            &&& routing[0].writable == native && routing[1].writable == native
            &&& !routing[2].writable
            &&& routing[1].status is Degraded <==> native
            &&& routing[2].status is ReadOnly <==> profile.kind is Nfd
            &&& view.discovery.writable == native
            &&& view.discovery.status is Enabled <==> native
            &&& view.degraded <==> !(profile.kind is NdnRs)
        }),
{
    let dvr = |route: RouteRow| is_dvr(route);
    let plain_dvr = |route: RouteRow| route.source@ == "dvr"@;
    assert(dvr =~= plain_dvr);
    let nlsr = |route: RouteRow| is_nlsr(route);
    let plain_nlsr = |route: RouteRow| text::ascii_lower(route.source@) == "nlsr"@;
    assert(nlsr =~= plain_nlsr);
}

} // verus!
