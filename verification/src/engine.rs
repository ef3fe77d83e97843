//! Read-only forwarder engine datasets and the summary that is shown of them.

use vstd::prelude::*;

use crate::list;
use crate::model::{AttachMode, FeatureState, ForwarderKind, ForwarderProfile};
use crate::number;
use crate::number::{decimal, hex, one_place};
use crate::text;
use crate::text::{contains, lower, same_text, trim};

verus! {

#[derive(Clone, Copy, Debug, PartialEq, Eq, Structural)]
pub enum DatasetState {
    Fresh,
    Stale { age_s: u64 },
    Disconnected,
    Unsupported,
}

impl DatasetState {
    /// The text of [`DatasetState::label`].
    pub open spec fn label_text(self) -> Seq<char> {
        match self {
            DatasetState::Fresh => "fresh"@,
            DatasetState::Stale { age_s } => "stale "@ + number::decimal_text(age_s as nat) + "s"@,
            DatasetState::Disconnected => "disconnected"@,
            DatasetState::Unsupported => "unsupported"@,
        }
    }

    pub fn label(self) -> (r: String)
        ensures
            r@ == self.label_text(),
    {
        match self {
            DatasetState::Fresh => "fresh".to_string(),
            DatasetState::Stale { age_s } => "stale ".to_string().concat(
                decimal(age_s).as_str(),
            ).concat("s"),
            DatasetState::Disconnected => "disconnected".to_string(),
            DatasetState::Unsupported => "unsupported".to_string(),
        }
    }

    /// The text of [`DatasetState::tone`].
    pub open spec fn tone_text(self) -> Seq<char> {
        match self {
            Self::Fresh => "good"@,
            Self::Stale { .. } => "amber"@,
            Self::Disconnected => "bad"@,
            Self::Unsupported => "muted"@,
        }
    }

    pub fn tone(self) -> (r: &'static str)
        ensures
            r@ == self.tone_text(),
    {
        match self {
            Self::Fresh => "good",
            Self::Stale { .. } => "amber",
            Self::Disconnected => "bad",
            Self::Unsupported => "muted",
        }
    }
}

#[derive(Clone, Copy, Debug, PartialEq, Eq)]
pub struct DatasetSource {
    pub name: &'static str,
    pub state: DatasetState,
    pub last_update_unix_s: Option<u64>,
}

impl DatasetSource {
    /// The source of a dataset; one that delivers shows when it last did.
    pub open spec fn is(self, name: Seq<char>, state: DatasetState) -> bool {
        &&& self.name@ == name
        &&& self.state == state
        &&& self.last_update_unix_s == (if state is Fresh || state is Stale {
            Some(1_717_300_000u64)
        } else {
            None
        })
    }
}

/// The six datasets of an engine in their order, each with its state.
pub open spec fn are_sources(
    sources: Seq<DatasetSource>,
    status: DatasetState,
    faces: DatasetState,
    routes: DatasetState,
    strategies: DatasetState,
    store: DatasetState,
    traffic: DatasetState,
) -> bool {
    &&& sources.len() == 6
    &&& sources[0].is("status/general"@, status)
    &&& sources[1].is("faces/list"@, faces)
    &&& sources[2].is("fib/list + rib/list"@, routes)
    &&& sources[3].is("strategy-choice/list"@, strategies)
    &&& sources[4].is("cs/info + pit/summary"@, store)
    &&& sources[5].is("faces/counters + measurements/list"@, traffic)
}

fn source(name: &'static str, state: DatasetState) -> (r: DatasetSource)
    ensures
        r.is(name@, state),
{
    DatasetSource {
        name,
        state,
        last_update_unix_s: match state {
            DatasetState::Fresh | DatasetState::Stale { .. } => Some(1_717_300_000),
            _ => None,
        },
    }
}

fn dataset_sources(
    status: DatasetState,
    faces: DatasetState,
    routes: DatasetState,
    strategies: DatasetState,
    store: DatasetState,
    traffic: DatasetState,
) -> (r: Vec<DatasetSource>)
    ensures
        are_sources(r@, status, faces, routes, strategies, store, traffic),
{
    vec![
        source("status/general", status),
        source("faces/list", faces),
        source("fib/list + rib/list", routes),
        source("strategy-choice/list", strategies),
        source("cs/info + pit/summary", store),
        source("faces/counters + measurements/list", traffic),
    ]
}

fn standard_sources(state: DatasetState) -> (r: Vec<DatasetSource>)
    ensures
        are_sources(r@, state, state, state, state, state, state),
{
    dataset_sources(state, state, state, state, state, state)
}

#[derive(Debug, PartialEq, Eq)]
pub struct ForwarderStatusView {
    pub version: String,
    pub uptime_s: u64,
    pub start_unix_s: u64,
    pub n_cs_entries: u64,
    pub n_pit_entries: u64,
    pub n_in_interests: u64,
    pub n_out_interests: u64,
    pub n_in_data: u64,
    pub n_out_data: u64,
}

impl Clone for ForwarderStatusView {
    fn clone(&self) -> (r: Self)
        ensures
            r == *self,
    {
        ForwarderStatusView {
            version: self.version.clone(),
            uptime_s: self.uptime_s,
            start_unix_s: self.start_unix_s,
            n_cs_entries: self.n_cs_entries,
            n_pit_entries: self.n_pit_entries,
            n_in_interests: self.n_in_interests,
            n_out_interests: self.n_out_interests,
            n_in_data: self.n_in_data,
            n_out_data: self.n_out_data,
        }
    }
}

#[derive(Debug, PartialEq, Eq)]
pub struct FaceRow {
    pub id: u64,
    pub uri: String,
    pub scope: String,
    pub persistency: String,
    pub state: String,
    pub rx_packets: u64,
    pub tx_packets: u64,
    pub rx_bytes: u64,
    pub tx_bytes: u64,
}

impl Clone for FaceRow {
    fn clone(&self) -> (r: Self)
        ensures
            r == *self,
    {
        FaceRow {
            id: self.id,
            uri: self.uri.clone(),
            scope: self.scope.clone(),
            persistency: self.persistency.clone(),
            state: self.state.clone(),
            rx_packets: self.rx_packets,
            tx_packets: self.tx_packets,
            rx_bytes: self.rx_bytes,
            tx_bytes: self.tx_bytes,
        }
    }
}

/// What a face row says.
pub struct FaceText {
    pub id: u64,
    pub uri: Seq<char>,
    pub scope: Seq<char>,
    pub persistency: Seq<char>,
    pub state: Seq<char>,
    pub rx_packets: int,
    pub tx_packets: int,
    pub rx_bytes: int,
    pub tx_bytes: int,
}

impl View for FaceRow {
    type V = FaceText;

    open spec fn view(&self) -> FaceText {
        FaceText {
            id: self.id,
            uri: self.uri@,
            scope: self.scope@,
            persistency: self.persistency@,
            state: self.state@,
            rx_packets: self.rx_packets as int,
            tx_packets: self.tx_packets as int,
            rx_bytes: self.rx_bytes as int,
            tx_bytes: self.tx_bytes as int,
        }
    }
}

/// What face rows say.
pub open spec fn face_texts(faces: Seq<FaceRow>) -> Seq<FaceText> {
    faces.map_values(|face: FaceRow| face@)
}

impl FaceRow {
    pub fn traffic_label(&self) -> (r: String)
        ensures
            r@ == count_text(self.rx_packets) + " / "@ + count_text(self.tx_packets),
    {
        compact_count(self.rx_packets).concat(" / ").concat(
            compact_count(self.tx_packets).as_str(),
        )
    }
}

#[derive(Debug, PartialEq, Eq)]
pub struct RouteRow {
    pub prefix: String,
    pub source: String,
    pub face_id: u64,
    pub cost: u64,
    pub flags: String,
}

impl Clone for RouteRow {
    fn clone(&self) -> (r: Self)
        ensures
            r == *self,
    {
        RouteRow {
            prefix: self.prefix.clone(),
            source: self.source.clone(),
            face_id: self.face_id,
            cost: self.cost,
            flags: self.flags.clone(),
        }
    }
}

/// What a route row says.
pub struct RouteText {
    pub prefix: Seq<char>,
    pub source: Seq<char>,
    pub face_id: u64,
    pub cost: u64,
    pub flags: Seq<char>,
}

impl View for RouteRow {
    type V = RouteText;

    open spec fn view(&self) -> RouteText {
        RouteText {
            prefix: self.prefix@,
            source: self.source@,
            face_id: self.face_id,
            cost: self.cost,
            flags: self.flags@,
        }
    }
}

/// What route rows say.
pub open spec fn route_texts(routes: Seq<RouteRow>) -> Seq<RouteText> {
    routes.map_values(|route: RouteRow| route@)
}

#[derive(Debug, PartialEq, Eq)]
pub struct StrategyRow {
    pub prefix: String,
    pub strategy: String,
    pub inherited: bool,
}

impl Clone for StrategyRow {
    fn clone(&self) -> (r: Self)
        ensures
            r == *self,
    {
        StrategyRow {
            prefix: self.prefix.clone(),
            strategy: self.strategy.clone(),
            inherited: self.inherited,
        }
    }
}

/// What a strategy row says.
pub struct StrategyText {
    pub prefix: Seq<char>,
    pub strategy: Seq<char>,
    pub inherited: bool,
}

impl View for StrategyRow {
    type V = StrategyText;

    open spec fn view(&self) -> StrategyText {
        StrategyText {
            prefix: self.prefix@,
            strategy: self.strategy@,
            inherited: self.inherited,
        }
    }
}

/// What strategy rows say.
pub open spec fn strategy_texts(strategies: Seq<StrategyRow>) -> Seq<StrategyText> {
    strategies.map_values(|strategy: StrategyRow| strategy@)
}

#[derive(Clone, Copy, Debug, PartialEq, Eq, Structural)]
pub struct StorePitSummary {
    pub cs_capacity: u64,
    pub cs_entries: u64,
    pub cs_hit_rate_pct: u8,
    pub pit_entries: u64,
    pub pit_satisfied_rate_pct: u8,
}

#[derive(Clone, Copy, Debug, PartialEq, Eq, Structural)]
pub struct TrafficSummary {
    pub interest_in_rate: u64,
    pub interest_out_rate: u64,
    pub data_in_rate: u64,
    pub data_out_rate: u64,
    pub satisfaction_rate_pct: u8,
}

#[derive(Debug, PartialEq, Eq)]
pub struct EngineSnapshot {
    pub status: Option<ForwarderStatusView>,
    pub faces: Vec<FaceRow>,
    pub routes: Vec<RouteRow>,
    pub strategies: Vec<StrategyRow>,
    pub store_pit: Option<StorePitSummary>,
    pub traffic: Option<TrafficSummary>,
    pub sources: Vec<DatasetSource>,
}

impl Clone for EngineSnapshot {
    fn clone(&self) -> (r: Self)
        ensures
            r.faces@ == self.faces@,
            r.routes@ == self.routes@,
            r.strategies@ == self.strategies@,
            r.sources@ == self.sources@,
            r.status == self.status,
            r.store_pit == self.store_pit,
            r.traffic == self.traffic,
    {
        let r = EngineSnapshot {
            faces: self.faces.clone(),
            routes: self.routes.clone(),
            strategies: self.strategies.clone(),
            sources: self.sources.clone(),
            status: match &self.status {
                Some(status) => Some(status.clone()),
                None => None,
            },
            store_pit: self.store_pit,
            traffic: self.traffic,
        };
        assert(r.faces@ =~= self.faces@);
        assert(r.routes@ =~= self.routes@);
        assert(r.strategies@ =~= self.strategies@);
        assert(r.sources@ =~= self.sources@);
        r
    }
}

#[derive(Debug, PartialEq, Eq)]
pub struct EnginePollError {
    pub message: String,
}

impl Clone for EnginePollError {
    fn clone(&self) -> (r: Self)
        ensures
            r == *self,
    {
        EnginePollError {
            message: self.message.clone(),
        }
    }
}

impl EnginePollError {
    pub fn new(message: &str) -> (r: Self)
        ensures
            r.message@ == message@,
    {
        EnginePollError { message: message.to_string() }
    }

    /// The error of a socket that could not be connected.
    pub fn connect(socket: &str, detail: &str) -> (r: Self)
        ensures
            r.message@ == "connect "@ + socket@ + ": "@ + detail@,
    {
        EnginePollError {
            message: "connect ".to_string().concat(socket).concat(": ").concat(detail),
        }
    }
}

#[derive(Debug, PartialEq, Eq)]
pub enum EngineDetail {
    Face(FaceRow),
    Route(RouteRow),
    Strategy(StrategyRow),
    Empty,
}

impl Clone for EngineDetail {
    fn clone(&self) -> (r: Self)
        ensures
            r == *self,
    {
        match self {
            EngineDetail::Face(face) => EngineDetail::Face(face.clone()),
            EngineDetail::Route(route) => EngineDetail::Route(route.clone()),
            EngineDetail::Strategy(strategy) => EngineDetail::Strategy(strategy.clone()),
            EngineDetail::Empty => EngineDetail::Empty,
        }
    }
}

#[derive(Debug, PartialEq, Eq)]
pub struct EngineSummary {
    pub profile_kind: ForwarderKind,
    pub read_only: bool,
    pub status: Option<ForwarderStatusView>,
    pub faces: Vec<FaceRow>,
    pub routes: Vec<RouteRow>,
    pub strategies: Vec<StrategyRow>,
    pub store_pit: Option<StorePitSummary>,
    pub traffic: Option<TrafficSummary>,
    pub sources: Vec<DatasetSource>,
    pub detail: EngineDetail,
}

/// A copy of a list of faces.
pub fn copy_faces(faces: &Vec<FaceRow>) -> (r: Vec<FaceRow>)
    ensures
        r@ == faces@,
{
    let mut out: Vec<FaceRow> = Vec::new();
    let mut i: usize = 0;
    while i < faces.len()
        invariant
            i <= faces@.len(),
            out@ == faces@.take(i as int),
        decreases faces@.len() - i,
    {
        out.push(faces[i].clone());
        i = i + 1;
        assert(out@ =~= faces@.take(i as int));
    }
    assert(faces@.take(i as int) =~= faces@);
    out
}

/// A copy of a list of routes.
pub fn copy_routes(routes: &Vec<RouteRow>) -> (r: Vec<RouteRow>)
    ensures
        r@ == routes@,
{
    let mut out: Vec<RouteRow> = Vec::new();
    let mut i: usize = 0;
    while i < routes.len()
        invariant
            i <= routes@.len(),
            out@ == routes@.take(i as int),
        decreases routes@.len() - i,
    {
        out.push(routes[i].clone());
        i = i + 1;
        assert(out@ =~= routes@.take(i as int));
    }
    assert(routes@.take(i as int) =~= routes@);
    out
}

fn copy_strategies(strategies: &Vec<StrategyRow>) -> (r: Vec<StrategyRow>)
    ensures
        r@ == strategies@,
{
    let mut out: Vec<StrategyRow> = Vec::new();
    let mut i: usize = 0;
    while i < strategies.len()
        invariant
            i <= strategies@.len(),
            out@ == strategies@.take(i as int),
        decreases strategies@.len() - i,
    {
        out.push(strategies[i].clone());
        i = i + 1;
        assert(out@ =~= strategies@.take(i as int));
    }
    assert(strategies@.take(i as int) =~= strategies@);
    out
}

impl Clone for EngineSummary {
    fn clone(&self) -> (r: Self)
        ensures
            r.same_as(*self),
    {
        let mut sources: Vec<DatasetSource> = Vec::new();
        let mut i: usize = 0;
        while i < self.sources.len()
            invariant
                i <= self.sources@.len(),
                sources@ == self.sources@.take(i as int),
            decreases self.sources@.len() - i,
        {
            sources.push(self.sources[i]);
            i = i + 1;
            assert(sources@ =~= self.sources@.take(i as int));
        }
        assert(self.sources@.take(i as int) =~= self.sources@);
        EngineSummary {
            profile_kind: self.profile_kind,
            read_only: self.read_only,
            status: match &self.status {
                Some(status) => Some(status.clone()),
                None => None,
            },
            faces: copy_faces(&self.faces),
            routes: copy_routes(&self.routes),
            strategies: copy_strategies(&self.strategies),
            store_pit: self.store_pit,
            traffic: self.traffic,
            sources,
            detail: self.detail.clone(),
        }
    }
}

/// Only reading is possible: the capability says so, or the forwarder is of a
/// kind that is never written to.
pub open spec fn is_read_only(profile: ForwarderProfile) -> bool {
    profile.capabilities.nfd_basic is ReadOnly || profile.kind is Nfd || profile.kind is YaNfd
}

/// The first row to show in detail: a face, else a route.
pub open spec fn first_detail(faces: Seq<FaceRow>, routes: Seq<RouteRow>) -> EngineDetail {
    if faces.len() > 0 {
        EngineDetail::Face(faces[0])
    } else if routes.len() > 0 {
        EngineDetail::Route(routes[0])
    } else {
        EngineDetail::Empty
    }
}

/// The row holds a query: in its URI or state, or as its number.
pub open spec fn face_answers(face: FaceRow, query: Seq<char>) -> bool {
    ||| text::occurs(text::lower_text(face.uri@), query)
    ||| number::decimal_text(face.id as nat) == query
    ||| text::occurs(text::lower_text(face.state@), query)
}

/// The row holds a query in its prefix.
pub open spec fn route_answers(route: RouteRow, query: Seq<char>) -> bool {
    text::occurs(text::lower_text(route.prefix@), query)
}

/// What is searched for: the query without whitespace around it, in lower case.
pub open spec fn search_text(query: Seq<char>) -> Seq<char> {
    text::lower_text(text::trimmed(query))
}

/// Whether a face answers a query, given its lower-case texts.
pub fn face_matches(id: u64, uri_lower: &str, state_lower: &str, query: &str) -> (r: bool)
    ensures
        r == (text::occurs(uri_lower@, query@) || number::decimal_text(id as nat) == query@
            || text::occurs(state_lower@, query@)),
{
    contains(uri_lower, query) || same_text(decimal(id).as_str(), query) || contains(
        state_lower,
        query,
    )
}

impl EngineSummary {
    /// Equal contents.
    pub open spec fn same_as(self, other: EngineSummary) -> bool {
        &&& self.profile_kind == other.profile_kind
        &&& self.read_only == other.read_only
        &&& self.status == other.status
        &&& self.faces@ == other.faces@
        &&& self.routes@ == other.routes@
        &&& self.strategies@ == other.strategies@
        &&& self.store_pit == other.store_pit
        &&& self.traffic == other.traffic
        &&& self.sources@ == other.sources@
        &&& self.detail == other.detail
    }

    /// The summary of a snapshot.
    pub open spec fn sums_up(self, profile: ForwarderProfile, snapshot: EngineSnapshot) -> bool {
        &&& self.profile_kind == profile.kind
        &&& self.read_only == is_read_only(profile)
        &&& self.status == snapshot.status
        &&& self.faces == snapshot.faces
        &&& self.routes == snapshot.routes
        &&& self.strategies == snapshot.strategies
        &&& self.store_pit == snapshot.store_pit
        &&& self.traffic == snapshot.traffic
        &&& self.sources == snapshot.sources
        &&& self.detail == first_detail(snapshot.faces@, snapshot.routes@)
    }

    pub fn from_snapshot(profile: &ForwarderProfile, snapshot: EngineSnapshot) -> (r: Self)
        ensures
            r.sums_up(*profile, snapshot),
    {
        let read_only = profile.capabilities.nfd_basic == FeatureState::ReadOnly || matches!(
            profile.kind,
            ForwarderKind::Nfd | ForwarderKind::YaNfd
        );
        let detail = if snapshot.faces.len() > 0 {
            EngineDetail::Face(snapshot.faces[0].clone())
        } else if snapshot.routes.len() > 0 {
            EngineDetail::Route(snapshot.routes[0].clone())
        } else {
            EngineDetail::Empty
        };
        EngineSummary {
            profile_kind: profile.kind,
            read_only,
            status: snapshot.status,
            faces: snapshot.faces,
            routes: snapshot.routes,
            strategies: snapshot.strategies,
            store_pit: snapshot.store_pit,
            traffic: snapshot.traffic,
            sources: snapshot.sources,
            detail,
        }
    }

    pub fn mock(profile: &ForwarderProfile) -> (r: Self)
        ensures
            exists|snapshot: EngineSnapshot| #[trigger]
                r.sums_up(*profile, snapshot) && snapshot.is_mock(*profile),
    {
        let snapshot = EngineSnapshot::mock(profile);
        EngineSummary::from_snapshot(profile, snapshot)
    }

    pub fn filter_faces(&self, query: &str) -> (r: Vec<FaceRow>)
        ensures
            r@ == self.faces@.filter(|face: FaceRow| face_answers(face, search_text(query@))),
            text::trimmed(query@).len() == 0 ==> r@ == self.faces@,
    {
        let wanted = lower(trim(query));
        let ghost keep = |face: FaceRow| face_answers(face, search_text(query@));
        let mut out: Vec<FaceRow> = Vec::new();
        let mut i: usize = 0;
        proof {
            list::lemma_filter_ends(self.faces@, keep);
        }
        while i < self.faces.len()
            invariant
                i <= self.faces@.len(),
                wanted@ == search_text(query@),
                keep == (|face: FaceRow| face_answers(face, search_text(query@))),
                out@ == self.faces@.take(i as int).filter(keep),
            decreases self.faces@.len() - i,
        {
            proof {
                list::lemma_filter_next(self.faces@, keep, i as int);
            }
            let face = &self.faces[i];
            let uri = lower(face.uri.as_str());
            let state = lower(face.state.as_str());
            if face_matches(face.id, uri.as_str(), state.as_str(), wanted.as_str()) {
                out.push(face.clone());
            }
            i = i + 1;
        }
        proof {
            list::lemma_filter_ends(self.faces@, keep);
            if text::trimmed(query@).len() == 0 {
                blank_search_shows_all(self.faces@, self.routes@, query@);
            }
        }
        out
    }

    pub fn search_routes(&self, prefix_query: &str) -> (r: Vec<RouteRow>)
        ensures
            r@ == self.routes@.filter(
                |route: RouteRow| route_answers(route, search_text(prefix_query@)),
            ),
            text::trimmed(prefix_query@).len() == 0 ==> r@ == self.routes@,
    {
        let wanted = lower(trim(prefix_query));
        let ghost keep = |route: RouteRow| route_answers(route, search_text(prefix_query@));
        let mut out: Vec<RouteRow> = Vec::new();
        let mut i: usize = 0;
        proof {
            list::lemma_filter_ends(self.routes@, keep);
        }
        while i < self.routes.len()
            invariant
                i <= self.routes@.len(),
                wanted@ == search_text(prefix_query@),
                keep == (|route: RouteRow| route_answers(route, search_text(prefix_query@))),
                out@ == self.routes@.take(i as int).filter(keep),
            decreases self.routes@.len() - i,
        {
            proof {
                list::lemma_filter_next(self.routes@, keep, i as int);
            }
            let route = &self.routes[i];
            if contains(lower(route.prefix.as_str()).as_str(), wanted.as_str()) {
                out.push(route.clone());
            }
            i = i + 1;
        }
        proof {
            list::lemma_filter_ends(self.routes@, keep);
            if text::trimmed(prefix_query@).len() == 0 {
                blank_search_shows_all(self.faces@, self.routes@, prefix_query@);
            }
        }
        out
    }

    pub fn disconnected(profile: &ForwarderProfile) -> (r: Self)
        ensures
            exists|snapshot: EngineSnapshot| #[trigger]
                r.sums_up(*profile, snapshot) && snapshot.is_empty(DatasetState::Disconnected),
    {
        let snapshot = EngineSnapshot::empty(DatasetState::Disconnected);
        EngineSummary::from_snapshot(profile, snapshot)
    }
}

/// A search for nothing but whitespace shows every face and every route.
pub proof fn blank_search_shows_all(
    faces: Seq<FaceRow>,
    routes: Seq<RouteRow>,
    query: Seq<char>,
)
    requires
        text::trimmed(query).len() == 0,
    ensures
        faces.filter(|face: FaceRow| face_answers(face, search_text(query))) == faces,
        routes.filter(|route: RouteRow| route_answers(route, search_text(query))) == routes,
{
    let keep_face = |face: FaceRow| face_answers(face, search_text(query));
    let keep_route = |route: RouteRow| route_answers(route, search_text(query));
    assert(search_text(query) =~= Seq::empty());
    assert forall|i: int| 0 <= i < faces.len() implies keep_face(#[trigger] faces[i]) by {
        text::lemma_occurs_trivial(text::lower_text(faces[i].uri@));
    }
    assert forall|i: int| 0 <= i < routes.len() implies keep_route(#[trigger] routes[i]) by {
        text::lemma_occurs_trivial(text::lower_text(routes[i].prefix@));
    }
    list::lemma_filter_keeps_all(faces, keep_face);
    list::lemma_filter_keeps_all(routes, keep_route);
}

impl EngineSnapshot {
    /// No rows, and every dataset in the same state.
    pub open spec fn is_empty(self, state: DatasetState) -> bool {
        &&& self.status is None
        &&& self.faces@.len() == 0
        &&& self.routes@.len() == 0
        &&& self.strategies@.len() == 0
        &&& self.store_pit is None
        &&& self.traffic is None
        &&& are_sources(self.sources@, state, state, state, state, state, state)
    }

    /// The stand-in datasets of a native forwarder.
    pub open spec fn is_native_mock(self, version: Seq<char>) -> bool {
        &&& self.status matches Some(status) && status.version@ == version && status.uptime_s
            == 18_240 && status.start_unix_s == 1_717_281_760 && status.n_cs_entries == 18_044
            && status.n_pit_entries == 128 && status.n_in_interests == 2_430_000
            && status.n_out_interests == 2_112_000 && status.n_in_data == 1_980_000
            && status.n_out_data == 2_020_000
        &&& face_texts(self.faces@) == native_faces()
        &&& route_texts(self.routes@) == native_routes()
        &&& strategy_texts(self.strategies@) == native_strategies()
        &&& self.store_pit == Some(
            StorePitSummary {
                cs_capacity: 65_536,
                cs_entries: 18_044,
                cs_hit_rate_pct: 71,
                pit_entries: 128,
                pit_satisfied_rate_pct: 94,
            },
        )
        &&& self.traffic == Some(
            TrafficSummary {
                interest_in_rate: 832,
                interest_out_rate: 718,
                data_in_rate: 692,
                data_out_rate: 711,
                satisfaction_rate_pct: 92,
            },
        )
        &&& are_sources(
            self.sources@,
            DatasetState::Fresh,
            DatasetState::Fresh,
            DatasetState::Fresh,
            DatasetState::Fresh,
            DatasetState::Fresh,
            DatasetState::Fresh,
        )
    }

    /// The stand-in datasets of a compatible forwarder, two of them stale.
    pub open spec fn is_compatible_mock(self, version: Seq<char>) -> bool {
        &&& self.status matches Some(status) && status.version@ == version && status.uptime_s
            == 7_220 && status.start_unix_s == 1_717_292_780 && status.n_cs_entries == 4_220
            && status.n_pit_entries == 44 && status.n_in_interests == 404_100
            && status.n_out_interests == 398_010 && status.n_in_data == 331_022 && status.n_out_data
            == 328_980
        &&& face_texts(self.faces@) == compatible_faces()
        &&& route_texts(self.routes@) == compatible_routes()
        &&& strategy_texts(self.strategies@) == compatible_strategies()
        &&& self.store_pit == Some(
            StorePitSummary {
                cs_capacity: 16_384,
                cs_entries: 4_220,
                cs_hit_rate_pct: 53,
                pit_entries: 44,
                pit_satisfied_rate_pct: 88,
            },
        )
        &&& self.traffic == Some(
            TrafficSummary {
                interest_in_rate: 122,
                interest_out_rate: 119,
                data_in_rate: 106,
                data_out_rate: 107,
                satisfaction_rate_pct: 86,
            },
        )
        &&& are_sources(
            self.sources@,
            DatasetState::Fresh,
            DatasetState::Fresh,
            DatasetState::Fresh,
            DatasetState::Fresh,
            DatasetState::Stale { age_s: 45 },
            DatasetState::Stale { age_s: 45 },
        )
    }

    /// The stand-in datasets for a profile.
    pub open spec fn is_mock(self, profile: ForwarderProfile) -> bool {
        match profile.kind {
            ForwarderKind::Unknown => self.is_empty(DatasetState::Unsupported),
            ForwarderKind::Nfd => self.is_compatible_mock(profile.version@),
            ForwarderKind::YaNfd => self.is_compatible_mock(profile.version@),
            ForwarderKind::NdnRs => self.is_native_mock(profile.version@),
            ForwarderKind::BrowserEngine => self.is_native_mock(profile.version@),
        }
    }

    fn empty(state: DatasetState) -> (r: Self)
        ensures
            r.is_empty(state),
    {
        EngineSnapshot {
            status: None,
            faces: Vec::new(),
            routes: Vec::new(),
            strategies: Vec::new(),
            store_pit: None,
            traffic: None,
            sources: standard_sources(state),
        }
    }

    pub fn mock(profile: &ForwarderProfile) -> (r: Self)
        ensures
            r.is_mock(*profile),
    {
        match profile.kind {
            ForwarderKind::Unknown => EngineSnapshot::empty(DatasetState::Unsupported),
            ForwarderKind::Nfd | ForwarderKind::YaNfd => compatible_snapshot(profile),
            ForwarderKind::NdnRs | ForwarderKind::BrowserEngine => ndnrs_snapshot(profile),
        }
    }
}

/// The stand-in faces of a native forwarder.
pub open spec fn native_faces() -> Seq<FaceText> {
    seq![
        face_text(7, "udp4://10.0.0.2:6363"@, "non-local"@, "persistent"@, "up"@, 18_120, 21_552),
        face_text(
            11,
            "webtransport://edge.example"@,
            "non-local"@,
            "on-demand"@,
            "up"@,
            8_041,
            8_112,
        ),
        face_text(14, "internal://mgmt"@, "local"@, "permanent"@, "up"@, 210, 214),
    ]
}

/// The stand-in routes of a native forwarder.
pub open spec fn native_routes() -> Seq<RouteText> {
    seq![
        route_text("/ndn/site/video"@, "rib"@, 7, 10, "child-inherit"@),
        route_text("/localhop/nfd"@, "management"@, 14, 0, "local"@),
        route_text("/ndn/edge/tools"@, "rib"@, 11, 20, "capture"@),
    ]
}

/// The stand-in strategies of a native forwarder.
pub open spec fn native_strategies() -> Seq<StrategyText> {
    seq![
        strategy_text("/"@, "/localhost/nfd/strategy/best-route/v=5"@, true),
        strategy_text("/ndn/site/video"@, "/localhost/nfd/strategy/multicast/v=5"@, false),
        strategy_text("/ndn/edge/tools"@, "/localhost/nfd/strategy/cclf/v=1"@, false),
    ]
}

/// The stand-in faces of a compatible forwarder.
pub open spec fn compatible_faces() -> Seq<FaceText> {
    seq![
        face_text(1, "unix:///run/nfd.sock"@, "local"@, "permanent"@, "up"@, 1_440, 1_399),
        face_text(
            260,
            "udp4://192.0.2.10:6363"@,
            "non-local"@,
            "persistent"@,
            "up"@,
            9_204,
            9_017,
        ),
    ]
}

/// The stand-in routes of a compatible forwarder.
pub open spec fn compatible_routes() -> Seq<RouteText> {
    seq![
        route_text("/localhost/nfd"@, "management"@, 1, 0, "local"@),
        route_text("/ndn/testbed"@, "rib"@, 260, 10, "child-inherit"@),
    ]
}

/// The stand-in strategies of a compatible forwarder.
pub open spec fn compatible_strategies() -> Seq<StrategyText> {
    seq![
        strategy_text("/"@, "/localhost/nfd/strategy/best-route/v=5"@, true),
    ]
}

/// The row of a stand-in face, whose packets have a fixed size each way.
pub open spec fn face_text(
    id: u64,
    uri: Seq<char>,
    scope: Seq<char>,
    persistency: Seq<char>,
    state: Seq<char>,
    rx_packets: int,
    tx_packets: int,
) -> FaceText {
    FaceText {
        id,
        uri,
        scope,
        persistency,
        state,
        rx_packets,
        tx_packets,
        rx_bytes: rx_packets * 940,
        tx_bytes: tx_packets * 980,
    }
}

pub open spec fn route_text(
    prefix: Seq<char>,
    source: Seq<char>,
    face_id: u64,
    cost: u64,
    flags: Seq<char>,
) -> RouteText {
    RouteText { prefix, source, face_id, cost, flags }
}

pub open spec fn strategy_text(
    prefix: Seq<char>,
    strategy: Seq<char>,
    inherited: bool,
) -> StrategyText {
    StrategyText { prefix, strategy, inherited }
}

fn face(
    id: u64,
    uri: &str,
    scope: &str,
    persistency: &str,
    state: &str,
    rx_packets: u64,
    tx_packets: u64,
) -> (r: FaceRow)
    requires
        rx_packets * 940 <= u64::MAX,
        tx_packets * 980 <= u64::MAX,
    ensures
        r@ == face_text(
            id,
            uri@,
            scope@,
            persistency@,
            state@,
            rx_packets as int,
            tx_packets as int,
        ),
{
    FaceRow {
        id,
        uri: uri.to_string(),
        scope: scope.to_string(),
        persistency: persistency.to_string(),
        state: state.to_string(),
        rx_packets,
        tx_packets,
        rx_bytes: rx_packets * 940,
        tx_bytes: tx_packets * 980,
    }
}

fn route(prefix: &str, source: &str, face_id: u64, cost: u64, flags: &str) -> (r: RouteRow)
    ensures
        r@ == route_text(prefix@, source@, face_id, cost, flags@),
{
    RouteRow {
        prefix: prefix.to_string(),
        source: source.to_string(),
        face_id,
        cost,
        flags: flags.to_string(),
    }
}

fn strategy(prefix: &str, name: &str, inherited: bool) -> (r: StrategyRow)
    ensures
        r@ == strategy_text(prefix@, name@, inherited),
{
    StrategyRow { prefix: prefix.to_string(), strategy: name.to_string(), inherited }
}

fn ndnrs_snapshot(profile: &ForwarderProfile) -> (r: EngineSnapshot)
    ensures
        r.is_native_mock(profile.version@),
{
    let r = EngineSnapshot {
        status: Some(
            ForwarderStatusView {
                version: profile.version.clone(),
                uptime_s: 18_240,
                start_unix_s: 1_717_281_760,
                n_cs_entries: 18_044,
                n_pit_entries: 128,
                n_in_interests: 2_430_000,
                n_out_interests: 2_112_000,
                n_in_data: 1_980_000,
                n_out_data: 2_020_000,
            },
        ),
        faces: vec![
            face(7, "udp4://10.0.0.2:6363", "non-local", "persistent", "up", 18_120, 21_552),
            face(
                11,
                "webtransport://edge.example",
                "non-local",
                "on-demand",
                "up",
                8_041,
                8_112,
            ),
            face(14, "internal://mgmt", "local", "permanent", "up", 210, 214),
        ],
        routes: vec![
            route("/ndn/site/video", "rib", 7, 10, "child-inherit"),
            route("/localhop/nfd", "management", 14, 0, "local"),
            route("/ndn/edge/tools", "rib", 11, 20, "capture"),
        ],
        strategies: vec![
            strategy("/", "/localhost/nfd/strategy/best-route/v=5", true),
            strategy("/ndn/site/video", "/localhost/nfd/strategy/multicast/v=5", false),
            strategy("/ndn/edge/tools", "/localhost/nfd/strategy/cclf/v=1", false),
        ],
        store_pit: Some(
            StorePitSummary {
                cs_capacity: 65_536,
                cs_entries: 18_044,
                cs_hit_rate_pct: 71,
                pit_entries: 128,
                pit_satisfied_rate_pct: 94,
            },
        ),
        traffic: Some(
            TrafficSummary {
                interest_in_rate: 832,
                interest_out_rate: 718,
                data_in_rate: 692,
                data_out_rate: 711,
                satisfaction_rate_pct: 92,
            },
        ),
        sources: standard_sources(DatasetState::Fresh),
    };
    assert(face_texts(r.faces@) =~= native_faces());
    assert(route_texts(r.routes@) =~= native_routes());
    assert(strategy_texts(r.strategies@) =~= native_strategies());
    r
}

fn compatible_snapshot(profile: &ForwarderProfile) -> (r: EngineSnapshot)
    ensures
        r.is_compatible_mock(profile.version@),
{
    let r = EngineSnapshot {
        status: Some(
            ForwarderStatusView {
                version: profile.version.clone(),
                uptime_s: 7_220,
                start_unix_s: 1_717_292_780,
                n_cs_entries: 4_220,
                n_pit_entries: 44,
                n_in_interests: 404_100,
                n_out_interests: 398_010,
                n_in_data: 331_022,
                n_out_data: 328_980,
            },
        ),
        faces: vec![
            face(1, "unix:///run/nfd.sock", "local", "permanent", "up", 1_440, 1_399),
            face(260, "udp4://192.0.2.10:6363", "non-local", "persistent", "up", 9_204, 9_017),
        ],
        routes: vec![
            route("/localhost/nfd", "management", 1, 0, "local"),
            route("/ndn/testbed", "rib", 260, 10, "child-inherit"),
        ],
        strategies: vec![strategy("/", "/localhost/nfd/strategy/best-route/v=5", true)],
        store_pit: Some(
            StorePitSummary {
                cs_capacity: 16_384,
                cs_entries: 4_220,
                cs_hit_rate_pct: 53,
                pit_entries: 44,
                pit_satisfied_rate_pct: 88,
            },
        ),
        traffic: Some(
            TrafficSummary {
                interest_in_rate: 122,
                interest_out_rate: 119,
                data_in_rate: 106,
                data_out_rate: 107,
                satisfaction_rate_pct: 86,
            },
        ),
        sources: dataset_sources(
            DatasetState::Fresh,
            DatasetState::Fresh,
            DatasetState::Fresh,
            DatasetState::Fresh,
            DatasetState::Stale { age_s: 45 },
            DatasetState::Stale { age_s: 45 },
        ),
    };
    assert(face_texts(r.faces@) =~= compatible_faces());
    assert(route_texts(r.routes@) =~= compatible_routes());
    assert(strategy_texts(r.strategies@) =~= compatible_strategies());
    r
}

/// A count as it is shown: thousands and millions with one place.
pub open spec fn count_text(value: u64) -> Seq<char> {
    if value >= 1_000_000 {
        number::one_place_text(value as nat, 1_000_000) + "m"@
    } else if value >= 1_000 {
        number::one_place_text(value as nat, 1_000) + "k"@
    } else {
        number::decimal_text(value as nat)
    }
}

pub fn compact_count(value: u64) -> (r: String)
    ensures
        r@ == count_text(value),
{
    if value >= 1_000_000 {
        one_place(value, 1_000_000).concat("m")
    } else if value >= 1_000 {
        one_place(value, 1_000).concat("k")
    } else {
        decimal(value)
    }
}

// ---------------------------------------------------------------------------
// Polling a forwarder
// ---------------------------------------------------------------------------

/// What a poll of an engine comes down to.
pub enum EnginePoll {
    /// The datasets are to be fetched over the local socket.
    Desktop,
    /// The summary is known without asking the forwarder.
    Show(EngineSummary),
}

/// Decides how an engine is polled.
pub fn plan_engine_poll(profile: &ForwarderProfile) -> (r: EnginePoll)
    ensures
        r is Desktop <==> profile.attach_mode is LocalDesktop,
        r matches EnginePoll::Show(summary) ==> exists|snapshot: EngineSnapshot| #[trigger]
            summary.sums_up(*profile, snapshot) && snapshot.is_mock(*profile),
{
    match profile.attach_mode {
        AttachMode::LocalDesktop => EnginePoll::Desktop,
        AttachMode::BrowserEngine | AttachMode::RemoteWeb | AttachMode::Relay => EnginePoll::Show(
            EngineSummary::mock(profile),
        ),
    }
}

/// The general status dataset of a forwarder.
pub struct StatusDataset {
    pub nfd_version: String,
    pub start_timestamp_ms: u64,
    pub current_timestamp_ms: u64,
    pub n_cs_entries: u64,
    pub n_pit_entries: u64,
    pub n_in_interests: u64,
    pub n_out_interests: u64,
    pub n_in_data: u64,
    pub n_out_data: u64,
}

/// One face of the face dataset.
pub struct FaceDataset {
    pub face_id: u64,
    pub uri: String,
    pub face_scope: u64,
    pub face_persistency: u64,
    pub n_in_interests: u64,
    pub n_in_data: u64,
    pub n_in_nacks: u64,
    pub n_out_interests: u64,
    pub n_out_data: u64,
    pub n_out_nacks: u64,
    pub n_in_bytes: u64,
    pub n_out_bytes: u64,
}

/// One route of a prefix in the routing table.
pub struct RibRoute {
    pub face_id: u64,
    pub origin: u64,
    pub cost: u64,
    pub flags: u64,
}

/// One prefix of the routing table.
pub struct RibDataset {
    pub name: String,
    pub routes: Vec<RibRoute>,
}

/// One next hop of a prefix in the forwarding table.
pub struct FibNextHop {
    pub face_id: u64,
    pub cost: u64,
}

/// One prefix of the forwarding table.
pub struct FibDataset {
    pub name: String,
    pub nexthops: Vec<FibNextHop>,
}

/// One strategy choice.
pub struct StrategyDataset {
    pub name: String,
    pub strategy: String,
}

/// What the datasets of a forwarder gave; one that could not be fetched is missing.
pub struct EngineDatasets {
    pub status: Option<StatusDataset>,
    pub faces: Option<Vec<FaceDataset>>,
    pub rib: Option<Vec<RibDataset>>,
    pub fib: Option<Vec<FibDataset>>,
    pub strategies: Option<Vec<StrategyDataset>>,
}

/// The packets of a face each way.
pub open spec fn rx_total(face: FaceDataset) -> int {
    face.n_in_interests + face.n_in_data + face.n_in_nacks
}

pub open spec fn tx_total(face: FaceDataset) -> int {
    face.n_out_interests + face.n_out_data + face.n_out_nacks
}

impl FaceDataset {
    /// The packet counters add up to a 64-bit number each way.
    pub open spec fn counts_fit(self) -> bool {
        rx_total(self) <= u64::MAX && tx_total(self) <= u64::MAX
    }

    /// Whether the packet counters add up to a 64-bit number each way.
    pub fn counters_fit(&self) -> (r: bool)
        ensures
            r == self.counts_fit(),
    {
        self.n_in_interests as u128 + self.n_in_data as u128 + self.n_in_nacks as u128
            <= u64::MAX as u128 && self.n_out_interests as u128 + self.n_out_data as u128
            + self.n_out_nacks as u128 <= u64::MAX as u128
    }
}

pub open spec fn scope_text(scope: u64) -> Seq<char> {
    if scope == 0 {
        "non-local"@
    } else if scope == 1 {
        "local"@
    } else {
        "unknown"@
    }
}

pub open spec fn persistency_text(persistency: u64) -> Seq<char> {
    if persistency == 0 {
        "persistent"@
    } else if persistency == 1 {
        "on-demand"@
    } else if persistency == 2 {
        "permanent"@
    } else {
        "unknown"@
    }
}

pub fn face_scope_label(scope: u64) -> (r: &'static str)
    ensures
        r@ == scope_text(scope),
{
    if scope == 0 {
        "non-local"
    } else if scope == 1 {
        "local"
    } else {
        "unknown"
    }
}

pub fn face_persistency_label(persistency: u64) -> (r: &'static str)
    ensures
        r@ == persistency_text(persistency),
{
    if persistency == 0 {
        "persistent"
    } else if persistency == 1 {
        "on-demand"
    } else if persistency == 2 {
        "permanent"
    } else {
        "unknown"
    }
}

/// How many in a hundred, at most all of them; none of nothing. The product
/// stops at the largest 64-bit number.
pub open spec fn percentage(satisfied: u64, total: u64) -> int {
    let scaled = if satisfied * 100 > u64::MAX {
        u64::MAX as int
    } else {
        satisfied * 100
    };
    if total == 0 {
        0
    } else if scaled / (total as int) > 100 {
        100
    } else {
        scaled / (total as int)
    }
}

pub fn satisfaction_pct(satisfied: u64, total: u64) -> (r: u8)
    ensures
        r == percentage(satisfied, total),
{
    if total == 0 {
        return 0;
    }
    let scaled: u64 = match satisfied.checked_mul(100) {
        Some(scaled) => scaled,
        None => u64::MAX,
    };
    let share: u64 = scaled / total;
    if share > 100 {
        100
    } else {
        share as u8
    }
}

/// A share never exceeds a hundred percent.
pub proof fn percentage_is_at_most_all(satisfied: u64, total: u64)
    ensures
        0 <= percentage(satisfied, total) <= 100,
{
    if total > 0 {
        let scaled = if satisfied * 100 > u64::MAX {
            u64::MAX as int
        } else {
            satisfied * 100
        };
        assert(scaled / (total as int) >= 0) by (nonlinear_arith)
            requires
                scaled >= 0,
                total > 0,
        ;
    }
}

/// The status that a dataset tells: seconds instead of milliseconds, and the
/// time since the start.
pub open spec fn status_view(dataset: StatusDataset) -> ForwarderStatusView {
    ForwarderStatusView {
        version: dataset.nfd_version,
        uptime_s: (if dataset.current_timestamp_ms < dataset.start_timestamp_ms {
            0
        } else {
            (dataset.current_timestamp_ms - dataset.start_timestamp_ms) / 1000
        }) as u64,
        start_unix_s: dataset.start_timestamp_ms / 1000,
        n_cs_entries: dataset.n_cs_entries,
        n_pit_entries: dataset.n_pit_entries,
        n_in_interests: dataset.n_in_interests,
        n_out_interests: dataset.n_out_interests,
        n_in_data: dataset.n_in_data,
        n_out_data: dataset.n_out_data,
    }
}

/// The row of a face in the dataset.
pub open spec fn face_view(face: FaceDataset) -> FaceText {
    FaceText {
        id: face.face_id,
        uri: face.uri@,
        scope: scope_text(face.face_scope),
        persistency: persistency_text(face.face_persistency),
        state: "up"@,
        rx_packets: rx_total(face),
        tx_packets: tx_total(face),
        rx_bytes: face.n_in_bytes as int,
        tx_bytes: face.n_out_bytes as int,
    }
}

/// The rows of the face dataset, none where it is missing.
pub open spec fn face_views(faces: Option<Vec<FaceDataset>>) -> Seq<FaceText> {
    match faces {
        Some(faces) => faces@.map_values(|face: FaceDataset| face_view(face)),
        None => seq![],
    }
}

/// The row of a route of a prefix.
pub open spec fn rib_view(name: Seq<char>, route: RibRoute) -> RouteText {
    RouteText {
        prefix: name,
        source: "origin "@ + number::decimal_text(route.origin as nat),
        face_id: route.face_id,
        cost: route.cost,
        flags: "0x"@ + number::hex_text(route.flags as nat),
    }
}

/// The row of a next hop of a prefix.
pub open spec fn fib_view(name: Seq<char>, hop: FibNextHop) -> RouteText {
    RouteText {
        prefix: name,
        source: "fib"@,
        face_id: hop.face_id,
        cost: hop.cost,
        flags: "read-only"@,
    }
}

/// The rows of the routing table, prefix by prefix.
pub open spec fn rib_views(rib: Seq<RibDataset>) -> Seq<RouteText>
    decreases rib.len(),
{
    if rib.len() == 0 {
        seq![]
    } else {
        let entry = rib.last();
        rib_views(rib.drop_last()) + entry.routes@.map_values(
            |route: RibRoute| rib_view(entry.name@, route),
        )
    }
}

/// The rows of the forwarding table, prefix by prefix.
pub open spec fn fib_views(fib: Seq<FibDataset>) -> Seq<RouteText>
    decreases fib.len(),
{
    if fib.len() == 0 {
        seq![]
    } else {
        let entry = fib.last();
        fib_views(fib.drop_last()) + entry.nexthops@.map_values(
            |hop: FibNextHop| fib_view(entry.name@, hop),
        )
    }
}

/// The rows of the routing table, else those of the forwarding table, else none.
pub open spec fn route_views(
    rib: Option<Vec<RibDataset>>,
    fib: Option<Vec<FibDataset>>,
) -> Seq<RouteText> {
    match rib {
        Some(rib) => rib_views(rib@),
        None => match fib {
            Some(fib) => fib_views(fib@),
            None => seq![],
        },
    }
}

/// The row of a strategy choice; the choice for the root is inherited.
pub open spec fn strategy_view(choice: StrategyDataset) -> StrategyText {
    StrategyText {
        prefix: choice.name@,
        strategy: choice.strategy@,
        inherited: choice.name@ == "/"@,
    }
}

/// The rows of the strategy choices, none where they are missing.
pub open spec fn strategy_views(choices: Option<Vec<StrategyDataset>>) -> Seq<StrategyText> {
    match choices {
        Some(choices) => choices@.map_values(|choice: StrategyDataset| strategy_view(choice)),
        None => seq![],
    }
}

/// What the status tells of the content store and the pending Interests.
pub open spec fn store_view(status: ForwarderStatusView) -> StorePitSummary {
    StorePitSummary {
        cs_capacity: if status.n_cs_entries > 1 {
            status.n_cs_entries
        } else {
            1
        },
        cs_entries: status.n_cs_entries,
        cs_hit_rate_pct: percentage(status.n_out_data, status.n_in_interests) as u8,
        pit_entries: status.n_pit_entries,
        pit_satisfied_rate_pct: percentage(status.n_out_data, status.n_in_interests) as u8,
    }
}

/// What the status tells of the traffic.
pub open spec fn traffic_view(status: ForwarderStatusView) -> TrafficSummary {
    TrafficSummary {
        interest_in_rate: status.n_in_interests,
        interest_out_rate: status.n_out_interests,
        data_in_rate: status.n_in_data,
        data_out_rate: status.n_out_data,
        satisfaction_rate_pct: percentage(status.n_out_data, status.n_in_interests) as u8,
    }
}

/// A dataset that was fetched is fresh; one that was not is disconnected.
pub open spec fn fetched_state(fetched: bool) -> DatasetState {
    if fetched {
        DatasetState::Fresh
    } else {
        DatasetState::Disconnected
    }
}

fn state_of_fetch(fetched: bool) -> (r: DatasetState)
    ensures
        r == fetched_state(fetched),
{
    if fetched {
        DatasetState::Fresh
    } else {
        DatasetState::Disconnected
    }
}

impl EngineSnapshot {
    /// The snapshot of what a forwarder's datasets gave.
    pub open spec fn is_of(self, datasets: EngineDatasets) -> bool {
        &&& self.status == (match datasets.status {
            Some(status) => Some(status_view(status)),
            None => None,
        })
        &&& face_texts(self.faces@) == face_views(datasets.faces)
        &&& route_texts(self.routes@) == route_views(datasets.rib, datasets.fib)
        &&& strategy_texts(self.strategies@) == strategy_views(datasets.strategies)
        &&& self.store_pit == (match self.status {
            Some(status) => Some(store_view(status)),
            None => None,
        })
        &&& self.traffic == (match self.status {
            Some(status) => Some(traffic_view(status)),
            None => None,
        })
        &&& are_sources(
            self.sources@,
            fetched_state(datasets.status is Some),
            fetched_state(datasets.faces is Some),
            fetched_state(datasets.fib is Some || datasets.rib is Some),
            fetched_state(datasets.strategies is Some),
            fetched_state(datasets.status is Some),
            fetched_state(datasets.status is Some),
        )
    }

    /// The snapshot of what a forwarder's datasets gave.
    pub fn from_datasets(datasets: EngineDatasets) -> (r: Self)
        requires
            datasets.faces matches Some(faces) ==> forall|i: int|
                0 <= i < faces@.len() ==> (#[trigger] faces@[i]).counts_fit(),
        ensures
            r.is_of(datasets),
    {
        let sources = dataset_sources(
            state_of_fetch(datasets.status.is_some()),
            state_of_fetch(datasets.faces.is_some()),
            state_of_fetch(datasets.fib.is_some() || datasets.rib.is_some()),
            state_of_fetch(datasets.strategies.is_some()),
            state_of_fetch(datasets.status.is_some()),
            state_of_fetch(datasets.status.is_some()),
        );
        let faces = match &datasets.faces {
            Some(faces) => face_rows(faces),
            None => {
                let none: Vec<FaceRow> = Vec::new();
                assert(face_texts(none@) =~= seq![]);
                none
            },
        };
        let routes = match &datasets.rib {
            Some(rib) => rib_rows(rib),
            None => match &datasets.fib {
                Some(fib) => fib_rows(fib),
                None => {
                    let none: Vec<RouteRow> = Vec::new();
                    assert(route_texts(none@) =~= seq![]);
                    none
                },
            },
        };
        let strategies = match &datasets.strategies {
            Some(choices) => strategy_rows(choices),
            None => {
                let none: Vec<StrategyRow> = Vec::new();
                assert(strategy_texts(none@) =~= seq![]);
                none
            },
        };
        let status = match datasets.status {
            Some(status) => Some(status_row(status)),
            None => None,
        };
        let store_pit = match &status {
            Some(status) => Some(
                StorePitSummary {
                    cs_capacity: if status.n_cs_entries > 1 {
                        status.n_cs_entries
                    } else {
                        1
                    },
                    cs_entries: status.n_cs_entries,
                    cs_hit_rate_pct: satisfaction_pct(status.n_out_data, status.n_in_interests),
                    pit_entries: status.n_pit_entries,
                    pit_satisfied_rate_pct: satisfaction_pct(
                        status.n_out_data,
                        status.n_in_interests,
                    ),
                },
            ),
            None => None,
        };
        let traffic = match &status {
            Some(status) => Some(
                TrafficSummary {
                    interest_in_rate: status.n_in_interests,
                    interest_out_rate: status.n_out_interests,
                    data_in_rate: status.n_in_data,
                    data_out_rate: status.n_out_data,
                    satisfaction_rate_pct: satisfaction_pct(
                        status.n_out_data,
                        status.n_in_interests,
                    ),
                },
            ),
            None => None,
        };
        EngineSnapshot { status, faces, routes, strategies, store_pit, traffic, sources }
    }
}

fn status_row(dataset: StatusDataset) -> (r: ForwarderStatusView)
    ensures
        r == status_view(dataset),
{
    ForwarderStatusView {
        uptime_s: if dataset.current_timestamp_ms < dataset.start_timestamp_ms {
            0
        } else {
            (dataset.current_timestamp_ms - dataset.start_timestamp_ms) / 1000
        },
        start_unix_s: dataset.start_timestamp_ms / 1000,
        version: dataset.nfd_version,
        n_cs_entries: dataset.n_cs_entries,
        n_pit_entries: dataset.n_pit_entries,
        n_in_interests: dataset.n_in_interests,
        n_out_interests: dataset.n_out_interests,
        n_in_data: dataset.n_in_data,
        n_out_data: dataset.n_out_data,
    }
}

fn face_rows(faces: &Vec<FaceDataset>) -> (r: Vec<FaceRow>)
    requires
        forall|i: int| 0 <= i < faces@.len() ==> (#[trigger] faces@[i]).counts_fit(),
    ensures
        face_texts(r@) == faces@.map_values(|face: FaceDataset| face_view(face)),
{
    let mut out: Vec<FaceRow> = Vec::new();
    let mut i: usize = 0;
    while i < faces.len()
        invariant
            i <= faces@.len(),
            forall|k: int| 0 <= k < faces@.len() ==> (#[trigger] faces@[k]).counts_fit(),
            out@.len() == i,
            forall|k: int| 0 <= k < i ==> (#[trigger] out@[k])@ == face_view(faces@[k]),
        decreases faces@.len() - i,
    {
        let face = &faces[i];
        assert(faces@[i as int].counts_fit());
        out.push(
            FaceRow {
                id: face.face_id,
                uri: face.uri.clone(),
                scope: face_scope_label(face.face_scope).to_string(),
                persistency: face_persistency_label(face.face_persistency).to_string(),
                state: "up".to_string(),
                rx_packets: face.n_in_interests + face.n_in_data + face.n_in_nacks,
                tx_packets: face.n_out_interests + face.n_out_data + face.n_out_nacks,
                rx_bytes: face.n_in_bytes,
                tx_bytes: face.n_out_bytes,
            },
        );
        i = i + 1;
    }
    assert(face_texts(out@) =~= faces@.map_values(|face: FaceDataset| face_view(face)));
    out
}

fn rib_rows(rib: &Vec<RibDataset>) -> (r: Vec<RouteRow>)
    ensures
        route_texts(r@) == rib_views(rib@),
{
    let mut out: Vec<RouteRow> = Vec::new();
    let mut i: usize = 0;
    assert(route_texts(out@) =~= rib_views(rib@.take(0)));
    while i < rib.len()
        invariant
            i <= rib@.len(),
            route_texts(out@) == rib_views(rib@.take(i as int)),
        decreases rib@.len() - i,
    {
        let entry = &rib[i];
        let ghost before = route_texts(out@);
        let ghost view = |route: RibRoute| rib_view(entry.name@, route);
        let mut k: usize = 0;
        assert(before + entry.routes@.take(0).map_values(view) =~= before);
        while k < entry.routes.len()
            invariant
                k <= entry.routes@.len(),
                view == (|route: RibRoute| rib_view(entry.name@, route)),
                route_texts(out@) == before + entry.routes@.take(k as int).map_values(view),
            decreases entry.routes@.len() - k,
        {
            let route = &entry.routes[k];
            let ghost sofar = out@;
            let row = RouteRow {
                prefix: entry.name.clone(),
                source: "origin ".to_string().concat(decimal(route.origin).as_str()),
                face_id: route.face_id,
                cost: route.cost,
                flags: "0x".to_string().concat(hex(route.flags).as_str()),
            };
            assert(row@ == view(*route));
            let ghost added = row@;
            out.push(row);
            proof {
                assert(route_texts(out@) =~= route_texts(sofar).push(added));
                assert(entry.routes@.take(k + 1).map_values(view) =~= entry.routes@.take(
                    k as int,
                ).map_values(view).push(added));
            }
            k = k + 1;
        }
        proof {
            let next = rib@.take(i + 1);
            assert(next.drop_last() =~= rib@.take(i as int));
            assert(entry.routes@.take(k as int) =~= entry.routes@);
        }
        i = i + 1;
    }
    assert(rib@.take(i as int) =~= rib@);
    out
}

fn fib_rows(fib: &Vec<FibDataset>) -> (r: Vec<RouteRow>)
    ensures
        route_texts(r@) == fib_views(fib@),
{
    let mut out: Vec<RouteRow> = Vec::new();
    let mut i: usize = 0;
    assert(route_texts(out@) =~= fib_views(fib@.take(0)));
    while i < fib.len()
        invariant
            i <= fib@.len(),
            route_texts(out@) == fib_views(fib@.take(i as int)),
        decreases fib@.len() - i,
    {
        let entry = &fib[i];
        let ghost before = route_texts(out@);
        let ghost view = |hop: FibNextHop| fib_view(entry.name@, hop);
        let mut k: usize = 0;
        assert(before + entry.nexthops@.take(0).map_values(view) =~= before);
        while k < entry.nexthops.len()
            invariant
                k <= entry.nexthops@.len(),
                view == (|hop: FibNextHop| fib_view(entry.name@, hop)),
                route_texts(out@) == before + entry.nexthops@.take(k as int).map_values(view),
            decreases entry.nexthops@.len() - k,
        {
            let hop = &entry.nexthops[k];
            let ghost sofar = out@;
            let row = route(entry.name.as_str(), "fib", hop.face_id, hop.cost, "read-only");
            assert(row@ == view(*hop));
            let ghost added = row@;
            out.push(row);
            proof {
                assert(route_texts(out@) =~= route_texts(sofar).push(added));
                assert(entry.nexthops@.take(k + 1).map_values(view) =~= entry.nexthops@.take(
                    k as int,
                ).map_values(view).push(added));
            }
            k = k + 1;
        }
        proof {
            let next = fib@.take(i + 1);
            assert(next.drop_last() =~= fib@.take(i as int));
            assert(entry.nexthops@.take(k as int) =~= entry.nexthops@);
        }
        i = i + 1;
    }
    assert(fib@.take(i as int) =~= fib@);
    out
}

fn strategy_rows(choices: &Vec<StrategyDataset>) -> (r: Vec<StrategyRow>)
    ensures
        strategy_texts(r@) == choices@.map_values(|choice: StrategyDataset| strategy_view(choice)),
{
    let mut out: Vec<StrategyRow> = Vec::new();
    let mut i: usize = 0;
    while i < choices.len()
        invariant
            i <= choices@.len(),
            out@.len() == i,
            forall|k: int| 0 <= k < i ==> (#[trigger] out@[k])@ == strategy_view(choices@[k]),
        decreases choices@.len() - i,
    {
        let choice = &choices[i];
        let name = choice.name.as_str();
        out.push(strategy(name, choice.strategy.as_str(), same_text(name, "/")));
        i = i + 1;
    }
    assert(strategy_texts(out@) =~= choices@.map_values(
        |choice: StrategyDataset| strategy_view(choice),
    ));
    out
}

// ---------------------------------------------------------------------------
// Laws
// ---------------------------------------------------------------------------

/// How many routes the first `n` prefixes of a routing table have.
pub open spec fn routes_before(rib: Seq<RibDataset>, n: int) -> int
    decreases n,
{
    if n <= 0 {
        0
    } else {
        routes_before(rib, n - 1) + rib[n - 1].routes@.len()
    }
}

/// How many next hops the first `n` prefixes of a forwarding table have.
pub open spec fn hops_before(fib: Seq<FibDataset>, n: int) -> int
    decreases n,
{
    if n <= 0 {
        0
    } else {
        hops_before(fib, n - 1) + fib[n - 1].nexthops@.len()
    }
}

proof fn lemma_rib_rows(rib: Seq<RibDataset>, n: int)
    requires
        0 <= n <= rib.len(),
    ensures
        rib_views(rib.take(n)).len() == routes_before(rib, n),
    decreases n,
{
    if n > 0 {
        lemma_rib_rows(rib, n - 1);
        assert(rib.take(n).drop_last() =~= rib.take(n - 1));
    }
}

proof fn lemma_rib_row(rib: Seq<RibDataset>, n: int, e: int, k: int)
    requires
        0 <= e < n <= rib.len(),
        0 <= k < rib[e].routes@.len(),
    ensures
        0 <= routes_before(rib, e) + k < routes_before(rib, n),
        rib_views(rib.take(n))[routes_before(rib, e) + k] == rib_view(rib[e].name@, rib[e].routes@[k]),
    decreases n,
{
    lemma_rib_rows(rib, n - 1);
    let entry = rib[n - 1];
    let view = |route: RibRoute| rib_view(entry.name@, route);
    let before = rib_views(rib.take(n - 1));
    let rows = rib_views(rib.take(n));
    assert(rib.take(n).drop_last() =~= rib.take(n - 1));
    assert(rows == before + entry.routes@.map_values(view));
    if e < n - 1 {
        lemma_rib_row(rib, n - 1, e, k);
        assert(rows[routes_before(rib, e) + k] == before[routes_before(rib, e) + k]);
    } else {
        assert(rows[routes_before(rib, e) + k] == entry.routes@.map_values(view)[k]);
    }
}

proof fn lemma_fib_rows(fib: Seq<FibDataset>, n: int)
    requires
        0 <= n <= fib.len(),
    ensures
        fib_views(fib.take(n)).len() == hops_before(fib, n),
    decreases n,
{
    if n > 0 {
        lemma_fib_rows(fib, n - 1);
        assert(fib.take(n).drop_last() =~= fib.take(n - 1));
    }
}

proof fn lemma_fib_row(fib: Seq<FibDataset>, n: int, e: int, k: int)
    requires
        0 <= e < n <= fib.len(),
        0 <= k < fib[e].nexthops@.len(),
    ensures
        0 <= hops_before(fib, e) + k < hops_before(fib, n),
        fib_views(fib.take(n))[hops_before(fib, e) + k] == fib_view(fib[e].name@, fib[e].nexthops@[k]),
    decreases n,
{
    lemma_fib_rows(fib, n - 1);
    let entry = fib[n - 1];
    let view = |hop: FibNextHop| fib_view(entry.name@, hop);
    let before = fib_views(fib.take(n - 1));
    let rows = fib_views(fib.take(n));
    assert(fib.take(n).drop_last() =~= fib.take(n - 1));
    assert(rows == before + entry.nexthops@.map_values(view));
    if e < n - 1 {
        lemma_fib_row(fib, n - 1, e, k);
        assert(rows[hops_before(fib, e) + k] == before[hops_before(fib, e) + k]);
    } else {
        assert(rows[hops_before(fib, e) + k] == entry.nexthops@.map_values(view)[k]);
    }
}

proof fn lemma_route_place(rib: Seq<RibDataset>, n: int, i: int) -> (place: (int, int))
    requires
        0 <= n <= rib.len(),
        0 <= i < routes_before(rib, n),
    ensures
        0 <= place.0 < n,
        0 <= place.1 < rib[place.0].routes@.len(),
        i == routes_before(rib, place.0) + place.1,
    decreases n,
{
    if i < routes_before(rib, n - 1) {
        lemma_route_place(rib, n - 1, i)
    } else {
        (n - 1, i - routes_before(rib, n - 1))
    }
}

proof fn lemma_hop_place(fib: Seq<FibDataset>, n: int, i: int) -> (place: (int, int))
    requires
        0 <= n <= fib.len(),
        0 <= i < hops_before(fib, n),
    ensures
        0 <= place.0 < n,
        0 <= place.1 < fib[place.0].nexthops@.len(),
        i == hops_before(fib, place.0) + place.1,
    decreases n,
{
    if i < hops_before(fib, n - 1) {
        lemma_hop_place(fib, n - 1, i)
    } else {
        (n - 1, i - hops_before(fib, n - 1))
    }
}

/// Where the routing table was fetched, each of its routes is one row, in the
/// order of the table: under the prefix, with the face and the cost of the
/// route, its origin as the source and its flags in hexadecimal.
pub proof fn each_route_of_the_rib_is_a_row(
    snapshot: EngineSnapshot,
    datasets: EngineDatasets,
    rib: Seq<RibDataset>,
    e: int,
    k: int,
)
    requires
        snapshot.is_of(datasets),
        datasets.rib matches Some(table) && table@ == rib,
        0 <= e < rib.len(),
        0 <= k < rib[e].routes@.len(),
    ensures
        ({
            let at = routes_before(rib, e) + k;
            let route = rib[e].routes@[k];
            &&& 0 <= at < snapshot.routes@.len()
            &&& snapshot.routes@[at].prefix@ == rib[e].name@
            &&& snapshot.routes@[at].face_id == route.face_id
            &&& snapshot.routes@[at].cost == route.cost
            &&& snapshot.routes@[at].source@ == "origin "@ + number::decimal_text(
                route.origin as nat,
            )
            &&& snapshot.routes@[at].flags@ == "0x"@ + number::hex_text(route.flags as nat)
        }),
{
    lemma_rib_rows(rib, rib.len() as int);
    lemma_rib_row(rib, rib.len() as int, e, k);
    assert(rib.take(rib.len() as int) =~= rib);
    let texts = route_texts(snapshot.routes@);
    let at = routes_before(rib, e) + k;
    assert(texts[at] == snapshot.routes@[at]@);
}

/// Where the routing table was fetched, each row is one of its routes: nothing
/// else is shown, also where the forwarding table was fetched too.
pub proof fn each_row_is_a_route_of_the_rib(
    snapshot: EngineSnapshot,
    datasets: EngineDatasets,
    rib: Seq<RibDataset>,
    i: int,
) -> (place: (int, int))
    requires
        snapshot.is_of(datasets),
        datasets.rib matches Some(table) && table@ == rib,
        0 <= i < snapshot.routes@.len(),
    ensures
        0 <= place.0 < rib.len(),
        0 <= place.1 < rib[place.0].routes@.len(),
        i == routes_before(rib, place.0) + place.1,
        snapshot.routes@[i].prefix@ == rib[place.0].name@,
        snapshot.routes@[i].face_id == rib[place.0].routes@[place.1].face_id,
        snapshot.routes@[i].cost == rib[place.0].routes@[place.1].cost,
{
    lemma_rib_rows(rib, rib.len() as int);
    assert(rib.take(rib.len() as int) =~= rib);
    assert(route_texts(snapshot.routes@).len() == snapshot.routes@.len());
    let place = lemma_route_place(rib, rib.len() as int, i);
    each_route_of_the_rib_is_a_row(snapshot, datasets, rib, place.0, place.1);
    place
}

/// Where only the forwarding table was fetched, each of its next hops is one
/// row, in the order of the table: under the prefix, with the face and the cost
/// of the hop.
pub proof fn each_next_hop_of_the_fib_is_a_row(
    snapshot: EngineSnapshot,
    datasets: EngineDatasets,
    fib: Seq<FibDataset>,
    e: int,
    k: int,
)
    requires
        snapshot.is_of(datasets),
        datasets.rib is None,
        datasets.fib matches Some(table) && table@ == fib,
        0 <= e < fib.len(),
        0 <= k < fib[e].nexthops@.len(),
    ensures
        ({
            let at = hops_before(fib, e) + k;
            let hop = fib[e].nexthops@[k];
            &&& 0 <= at < snapshot.routes@.len()
            &&& snapshot.routes@[at].prefix@ == fib[e].name@
            &&& snapshot.routes@[at].face_id == hop.face_id
            &&& snapshot.routes@[at].cost == hop.cost
            &&& snapshot.routes@[at].source@ == "fib"@
            &&& snapshot.routes@[at].flags@ == "read-only"@
        }),
{
    lemma_fib_rows(fib, fib.len() as int);
    lemma_fib_row(fib, fib.len() as int, e, k);
    assert(fib.take(fib.len() as int) =~= fib);
    let texts = route_texts(snapshot.routes@);
    let at = hops_before(fib, e) + k;
    assert(texts[at] == snapshot.routes@[at]@);
}

/// Where the routing table was not fetched, each row is a next hop of the
/// forwarding table; where neither was, there are no rows.
pub proof fn each_row_is_a_next_hop_of_the_fib(
    snapshot: EngineSnapshot,
    datasets: EngineDatasets,
    i: int,
) -> (place: (int, int))
    requires
        snapshot.is_of(datasets),
        datasets.rib is None,
        0 <= i < snapshot.routes@.len(),
    ensures
        datasets.fib is Some,
        ({
            let fib = datasets.fib->0@;
            &&& 0 <= place.0 < fib.len()
            &&& 0 <= place.1 < fib[place.0].nexthops@.len()
            &&& i == hops_before(fib, place.0) + place.1
            &&& snapshot.routes@[i].prefix@ == fib[place.0].name@
            &&& snapshot.routes@[i].face_id == fib[place.0].nexthops@[place.1].face_id
            &&& snapshot.routes@[i].cost == fib[place.0].nexthops@[place.1].cost
        }),
{
    assert(route_texts(snapshot.routes@).len() == snapshot.routes@.len());
    let fib = datasets.fib->0@;
    lemma_fib_rows(fib, fib.len() as int);
    assert(fib.take(fib.len() as int) =~= fib);
    let place = lemma_hop_place(fib, fib.len() as int, i);
    each_next_hop_of_the_fib_is_a_row(snapshot, datasets, fib, place.0, place.1);
    place
}

/// Each face of the dataset is one row, in the order of the dataset, with its
/// own number and URI; what came in is counted as received and what went out
/// as sent, and scope and persistency are told apart.
pub proof fn each_face_is_a_row(
    snapshot: EngineSnapshot,
    datasets: EngineDatasets,
    faces: Seq<FaceDataset>,
    i: int,
)
    requires
        snapshot.is_of(datasets),
        faces == (match datasets.faces {
            Some(faces) => faces@,
            None => Seq::empty(),
        }),
    ensures
        snapshot.faces@.len() == faces.len(),
        0 <= i < faces.len() ==> {
            let row = snapshot.faces@[i];
            let face = faces[i];
            &&& row.id == face.face_id
            &&& row.uri@ == face.uri@
            &&& row.state@ == "up"@
            &&& row.rx_packets == face.n_in_interests + face.n_in_data + face.n_in_nacks
            &&& row.tx_packets == face.n_out_interests + face.n_out_data + face.n_out_nacks
            &&& row.rx_bytes == face.n_in_bytes
            &&& row.tx_bytes == face.n_out_bytes
            &&& face.face_scope == 0 ==> row.scope@ == "non-local"@
            &&& face.face_scope == 1 ==> row.scope@ == "local"@
            &&& face.face_scope > 1 ==> row.scope@ == "unknown"@
            &&& face.face_persistency == 0 ==> row.persistency@ == "persistent"@
            &&& face.face_persistency == 1 ==> row.persistency@ == "on-demand"@
            &&& face.face_persistency == 2 ==> row.persistency@ == "permanent"@
            &&& face.face_persistency > 2 ==> row.persistency@ == "unknown"@
        },
{
    let texts = face_texts(snapshot.faces@);
    assert(texts.len() == snapshot.faces@.len());
    if 0 <= i < texts.len() {
        assert(texts[i] == snapshot.faces@[i]@);
        assert(texts[i] == face_view(faces[i]));
    }
}

/// Each strategy choice is one row, in the order of the dataset; the choice for
/// the root is the one that other prefixes inherit.
pub proof fn each_strategy_choice_is_a_row(
    snapshot: EngineSnapshot,
    datasets: EngineDatasets,
    choices: Seq<StrategyDataset>,
    i: int,
)
    requires
        snapshot.is_of(datasets),
        choices == (match datasets.strategies {
            Some(choices) => choices@,
            None => Seq::empty(),
        }),
    ensures
        snapshot.strategies@.len() == choices.len(),
        0 <= i < choices.len() ==> {
            &&& snapshot.strategies@[i].prefix@ == choices[i].name@
            &&& snapshot.strategies@[i].strategy@ == choices[i].strategy@
            &&& snapshot.strategies@[i].inherited <==> choices[i].name@ == "/"@
        },
{
    let texts = strategy_texts(snapshot.strategies@);
    assert(texts.len() == snapshot.strategies@.len());
    if 0 <= i < texts.len() {
        assert(texts[i] == snapshot.strategies@[i]@);
        assert(texts[i] == strategy_view(choices[i]));
    }
}

/// The status is that of the dataset, with times in whole seconds; a clock that
/// went backwards gives no uptime. Where the status is missing, so is all that
/// is read off it.
pub proof fn status_is_told_in_seconds(snapshot: EngineSnapshot, datasets: EngineDatasets)
    requires
        snapshot.is_of(datasets),
    ensures
        snapshot.status is Some <==> datasets.status is Some,
        snapshot.store_pit is Some <==> datasets.status is Some,
        snapshot.traffic is Some <==> datasets.status is Some,
        datasets.status matches Some(given) ==> {
            let status = snapshot.status->0;
            let started = given.start_timestamp_ms;
            let now = given.current_timestamp_ms;
            &&& status.version@ == given.nfd_version@
            &&& status.start_unix_s * 1000 <= started < status.start_unix_s * 1000 + 1000
            &&& now >= started ==> status.uptime_s * 1000 <= now - started < status.uptime_s * 1000
                + 1000
            &&& now < started ==> status.uptime_s == 0
            &&& status.n_cs_entries == given.n_cs_entries
            &&& status.n_pit_entries == given.n_pit_entries
            &&& status.n_in_interests == given.n_in_interests
            &&& status.n_out_interests == given.n_out_interests
            &&& status.n_in_data == given.n_in_data
            &&& status.n_out_data == given.n_out_data
        },
{
}

/// A share is the number of whole percents: as many as fit, all where there is
/// as much as asked for, and none of nothing.
pub proof fn percentage_is_the_whole_percents(satisfied: u64, total: u64)
    requires
        satisfied * 100 <= u64::MAX,
    ensures
        total == 0 ==> percentage(satisfied, total) == 0,
        0 < total <= satisfied ==> percentage(satisfied, total) == 100,
        satisfied < total ==> percentage(satisfied, total) * total <= satisfied * 100 < (percentage(
            satisfied,
            total,
        ) + 1) * total,
{
    if total > 0 {
        let scaled: int = satisfied * 100;
        let whole: int = total as int;
        let share = scaled / whole;
        assert(share * whole <= scaled < (share + 1) * whole) by (nonlinear_arith)
            requires
                share == scaled / whole,
                whole > 0,
        ;
        if total <= satisfied {
            assert(share >= 100) by (nonlinear_arith)
                requires
                    share == scaled / whole,
                    scaled >= 100 * whole,
                    whole > 0,
            ;
        } else {
            assert(share < 100) by (nonlinear_arith)
                requires
                    share == scaled / whole,
                    scaled < 100 * whole,
                    whole > 0,
            ;
        }
    }
}

/// What is shown of the content store, the pending Interests and the traffic is
/// read off the status: each count under its own name, and both rates as the
/// share of Interests that were answered with Data.
pub proof fn store_and_traffic_follow_the_status(
    snapshot: EngineSnapshot,
    datasets: EngineDatasets,
)
    requires
        snapshot.is_of(datasets),
    ensures
        datasets.status matches Some(given) ==> {
            let store = snapshot.store_pit->0;
            let traffic = snapshot.traffic->0;
            &&& store.cs_entries == given.n_cs_entries
            &&& store.cs_capacity >= 1 && store.cs_capacity >= given.n_cs_entries
            &&& store.cs_capacity == 1 || store.cs_capacity == given.n_cs_entries
            &&& store.pit_entries == given.n_pit_entries
            &&& traffic.interest_in_rate == given.n_in_interests
            &&& traffic.interest_out_rate == given.n_out_interests
            &&& traffic.data_in_rate == given.n_in_data
            &&& traffic.data_out_rate == given.n_out_data
            &&& store.cs_hit_rate_pct == percentage(given.n_out_data, given.n_in_interests)
            &&& store.pit_satisfied_rate_pct == percentage(given.n_out_data, given.n_in_interests)
            &&& traffic.satisfaction_rate_pct == percentage(given.n_out_data, given.n_in_interests)
        },
{
    if let Some(given) = datasets.status {
        percentage_is_at_most_all(given.n_out_data, given.n_in_interests);
    }
}

/// A dataset is fresh exactly where it was fetched, and disconnected where it
/// was not; the routes count as fetched where either table was. Only a fresh
/// one shows when it was last updated.
pub proof fn sources_tell_what_was_fetched(snapshot: EngineSnapshot, datasets: EngineDatasets)
    requires
        snapshot.is_of(datasets),
    ensures
        ({
            let sources = snapshot.sources@;
            &&& sources.len() == 6
            &&& sources[0].name@ == "status/general"@
            &&& sources[1].name@ == "faces/list"@
            &&& sources[2].name@ == "fib/list + rib/list"@
            &&& sources[3].name@ == "strategy-choice/list"@
            &&& sources[4].name@ == "cs/info + pit/summary"@
            &&& sources[5].name@ == "faces/counters + measurements/list"@
            &&& sources[0].state is Fresh <==> datasets.status is Some
            &&& sources[1].state is Fresh <==> datasets.faces is Some
            &&& sources[2].state is Fresh <==> datasets.rib is Some || datasets.fib is Some
            &&& sources[3].state is Fresh <==> datasets.strategies is Some
            &&& sources[4].state is Fresh <==> datasets.status is Some
            &&& sources[5].state is Fresh <==> datasets.status is Some
            &&& forall|i: int|
                0 <= i < 6 ==> ((#[trigger] sources[i]).state is Fresh
                    || sources[i].state is Disconnected) && (sources[i].last_update_unix_s is Some
                    <==> sources[i].state is Fresh)
        }),
{
    assert forall|i: int| 0 <= i < 6 implies ((#[trigger] snapshot.sources@[i]).state is Fresh
        || snapshot.sources@[i].state is Disconnected) && (
    snapshot.sources@[i].last_update_unix_s is Some <==> snapshot.sources@[i].state is Fresh) by {
        assert(i == 0 || i == 1 || i == 2 || i == 3 || i == 4 || i == 5);
    }
}

/// A summary shows the snapshot unchanged, and is read only where the target is
/// or where it is of a compatible kind. In detail it shows the first face, or
/// where there is none the first route.
pub proof fn summary_shows_the_snapshot(
    summary: EngineSummary,
    profile: ForwarderProfile,
    snapshot: EngineSnapshot,
)
    requires
        summary.sums_up(profile, snapshot),
    ensures
        summary.faces@ == snapshot.faces@,
        summary.routes@ == snapshot.routes@,
        summary.strategies@ == snapshot.strategies@,
        summary.sources@ == snapshot.sources@,
        summary.status == snapshot.status,
        summary.store_pit == snapshot.store_pit,
        summary.traffic == snapshot.traffic,
        summary.profile_kind == profile.kind,
        summary.read_only <==> profile.capabilities.nfd_basic is ReadOnly || profile.kind is Nfd
            || profile.kind is YaNfd,
        snapshot.faces@.len() > 0 ==> summary.detail == EngineDetail::Face(snapshot.faces@[0]),
        snapshot.faces@.len() == 0 && snapshot.routes@.len() > 0 ==> summary.detail
            == EngineDetail::Route(snapshot.routes@[0]),
        snapshot.faces@.len() == 0 && snapshot.routes@.len() == 0 ==> summary.detail is Empty,
{
}

/// A search shows a face exactly where its number is what is searched for, or
/// where that stands somewhere in its URI or its state; and a route where it
/// stands somewhere in the prefix. Case and surrounding whitespace do not count.
pub proof fn search_looks_into_the_rows(
    faces: Seq<FaceRow>,
    routes: Seq<RouteRow>,
    query: Seq<char>,
    i: int,
)
    ensures
        ({
            let wanted = text::lower_text(text::trimmed(query));
            &&& 0 <= i < faces.len() ==> {
                let uri = text::lower_text(faces[i].uri@);
                let state = text::lower_text(faces[i].state@);
                faces.filter(|face: FaceRow| face_answers(face, search_text(query))).contains(
                    faces[i],
                ) <==> {
                    ||| number::decimal_text(faces[i].id as nat) == wanted
                    ||| exists|at: int|
                        0 <= at <= uri.len() - wanted.len() && #[trigger] uri.subrange(
                            at,
                            at + wanted.len(),
                        ) == wanted
                    ||| exists|at: int|
                        0 <= at <= state.len() - wanted.len() && #[trigger] state.subrange(
                            at,
                            at + wanted.len(),
                        ) == wanted
                }
            }
            &&& 0 <= i < routes.len() ==> {
                let prefix = text::lower_text(routes[i].prefix@);
                routes.filter(|route: RouteRow| route_answers(route, search_text(query))).contains(
                    routes[i],
                ) <==> exists|at: int|
                    0 <= at <= prefix.len() - wanted.len() && #[trigger] prefix.subrange(
                        at,
                        at + wanted.len(),
                    ) == wanted
            }
        }),
{
    broadcast use vstd::seq_lib::group_filter_ensures;

    let wanted = search_text(query);
    if 0 <= i < faces.len() {
        text::occurrence_is_a_piece(text::lower_text(faces[i].uri@), wanted);
        text::occurrence_is_a_piece(text::lower_text(faces[i].state@), wanted);
        let keep = |face: FaceRow| face_answers(face, wanted);
        assert(faces.contains(faces[i]));
        assert(keep(faces[i]) == face_answers(faces[i], wanted));
    }
    if 0 <= i < routes.len() {
        text::occurrence_is_a_piece(text::lower_text(routes[i].prefix@), wanted);
        let keep = |route: RouteRow| route_answers(route, wanted);
        assert(routes.contains(routes[i]));
        assert(keep(routes[i]) == route_answers(routes[i], wanted));
    }
}

/// A count below a thousand is told as it is; above, it ends with its unit.
pub proof fn counts_carry_their_unit(value: u64)
    ensures
        value < 1_000 ==> count_text(value) == number::decimal_text(value as nat),
        1_000 <= value < 1_000_000 ==> count_text(value).last() == 'k',
        value >= 1_000_000 ==> count_text(value).last() == 'm',
{
    reveal_strlit("k");
    reveal_strlit("m");
}

/// A local target is asked for its datasets; every other one is shown with
/// stand-in figures, of which an unknown forwarder has none.
pub proof fn only_local_targets_are_polled(profile: ForwarderProfile, poll: EnginePoll)
    requires
        call_ensures(plan_engine_poll, (&profile,), poll),
    ensures
        poll is Desktop <==> profile.attach_mode is LocalDesktop,
        poll matches EnginePoll::Show(summary) ==> {
            &&& profile.kind is Unknown ==> summary.faces@.len() == 0 && summary.routes@.len() == 0
                && summary.strategies@.len() == 0
            &&& profile.kind is NdnRs || profile.kind is BrowserEngine ==> summary.faces@.len()
                == 3
            &&& profile.kind is Nfd || profile.kind is YaNfd ==> summary.faces@.len() == 2
        },
{
    if let EnginePoll::Show(summary) = poll {
        let snapshot = choose|snapshot: EngineSnapshot| #[trigger]
            summary.sums_up(profile, snapshot) && snapshot.is_mock(profile);
        assert(face_texts(snapshot.faces@).len() == snapshot.faces@.len());
    }
}

/// Fresh figures are good, older ones amber, and a lost forwarder is bad.
pub proof fn tones_follow_the_freshness(state: DatasetState)
    ensures
        state is Fresh ==> state.tone_text() == "good"@,
        state is Stale ==> state.tone_text() == "amber"@,
        state is Disconnected ==> state.tone_text() == "bad"@,
        state is Unsupported ==> state.tone_text() == "muted"@,
{
}

} // verus!
