//! The engine workspace: its forms, what they may send, and the mutations that
//! were sent from it.

use vstd::prelude::*;

use crate::engine::{EngineDetail, EngineSummary, FaceRow, RouteRow, StorePitSummary, StrategyRow};
use crate::model::{ForwarderProfile, TrustPosture};
use crate::mutation;
use crate::mutation::{
    preflight_mutation, CsCapacityCommand, CsEraseCommand, FaceCreateCommand, FaceDestroyCommand,
    MutationOperation, MutationRecord, MutationSession, MutationStatus, ReconnectForwarderCommand,
    RouteAddCommand, RouteRemoveCommand, ShutdownForwarderCommand, StrategySetCommand,
    StrategyUnsetCommand, TypedMutationCommand,
};
use crate::number;
use crate::number::decimal;
use crate::shell;
use crate::shell::{parse_opt_u64, parse_u64_or, KnownStrategy};
use crate::text;
use crate::text::{same_text, trim};

verus! {

#[derive(Debug, PartialEq, Eq)]
pub struct EngineForm {
    pub face_uri: String,
    pub face_mtu: String,
    pub destroy_face_id: String,
    pub confirm_destroy: bool,
    pub route_prefix: String,
    pub route_face_id: String,
    pub route_cost: String,
    pub remove_route_prefix: String,
    pub remove_route_face_id: String,
    pub confirm_route_remove: bool,
    pub strategy_prefix: String,
    pub strategy_name: String,
    pub custom_strategy_name: String,
    pub unset_strategy_prefix: String,
    pub confirm_strategy_unset: bool,
    pub cs_capacity: String,
    pub cs_erase_prefix: String,
    pub cs_erase_count: String,
    pub confirm_cs_erase: bool,
    pub shutdown_reason: String,
    pub confirm_shutdown: bool,
}

/// What [`EngineForm`] says.
#[verifier::ext_equal]
pub struct FormText {
    pub face_uri: Seq<char>,
    pub face_mtu: Seq<char>,
    pub destroy_face_id: Seq<char>,
    pub confirm_destroy: bool,
    pub route_prefix: Seq<char>,
    pub route_face_id: Seq<char>,
    pub route_cost: Seq<char>,
    pub remove_route_prefix: Seq<char>,
    pub remove_route_face_id: Seq<char>,
    pub confirm_route_remove: bool,
    pub strategy_prefix: Seq<char>,
    pub strategy_name: Seq<char>,
    pub custom_strategy_name: Seq<char>,
    pub unset_strategy_prefix: Seq<char>,
    pub confirm_strategy_unset: bool,
    pub cs_capacity: Seq<char>,
    pub cs_erase_prefix: Seq<char>,
    pub cs_erase_count: Seq<char>,
    pub confirm_cs_erase: bool,
    pub shutdown_reason: Seq<char>,
    pub confirm_shutdown: bool,
}

impl View for EngineForm {
    type V = FormText;

    open spec fn view(&self) -> FormText {
        FormText {
            face_uri: self.face_uri@,
            face_mtu: self.face_mtu@,
            destroy_face_id: self.destroy_face_id@,
            confirm_destroy: self.confirm_destroy,
            route_prefix: self.route_prefix@,
            route_face_id: self.route_face_id@,
            route_cost: self.route_cost@,
            remove_route_prefix: self.remove_route_prefix@,
            remove_route_face_id: self.remove_route_face_id@,
            confirm_route_remove: self.confirm_route_remove,
            strategy_prefix: self.strategy_prefix@,
            strategy_name: self.strategy_name@,
            custom_strategy_name: self.custom_strategy_name@,
            unset_strategy_prefix: self.unset_strategy_prefix@,
            confirm_strategy_unset: self.confirm_strategy_unset,
            cs_capacity: self.cs_capacity@,
            cs_erase_prefix: self.cs_erase_prefix@,
            cs_erase_count: self.cs_erase_count@,
            confirm_cs_erase: self.confirm_cs_erase,
            shutdown_reason: self.shutdown_reason@,
            confirm_shutdown: self.confirm_shutdown,
        }
    }
}

impl Clone for EngineForm {
    fn clone(&self) -> (r: Self)
        ensures
            r == *self,
    {
        EngineForm {
            face_uri: self.face_uri.clone(),
            face_mtu: self.face_mtu.clone(),
            destroy_face_id: self.destroy_face_id.clone(),
            confirm_destroy: self.confirm_destroy,
            route_prefix: self.route_prefix.clone(),
            route_face_id: self.route_face_id.clone(),
            route_cost: self.route_cost.clone(),
            remove_route_prefix: self.remove_route_prefix.clone(),
            remove_route_face_id: self.remove_route_face_id.clone(),
            confirm_route_remove: self.confirm_route_remove,
            strategy_prefix: self.strategy_prefix.clone(),
            strategy_name: self.strategy_name.clone(),
            custom_strategy_name: self.custom_strategy_name.clone(),
            unset_strategy_prefix: self.unset_strategy_prefix.clone(),
            confirm_strategy_unset: self.confirm_strategy_unset,
            cs_capacity: self.cs_capacity.clone(),
            cs_erase_prefix: self.cs_erase_prefix.clone(),
            cs_erase_count: self.cs_erase_count.clone(),
            confirm_cs_erase: self.confirm_cs_erase,
            shutdown_reason: self.shutdown_reason.clone(),
            confirm_shutdown: self.confirm_shutdown,
        }
    }
}

/// The number of the first face, or nothing.
pub open spec fn first_face(faces: Seq<FaceRow>) -> Seq<char> {
    if faces.len() > 0 {
        number::decimal_text(faces[0].id as nat)
    } else {
        seq![]
    }
}

/// The prefix of the first route, or a sample prefix.
pub open spec fn first_prefix(routes: Seq<RouteRow>) -> Seq<char> {
    if routes.len() > 0 {
        routes[0].prefix@
    } else {
        "/ndn/site/video"@
    }
}

/// The face of the first route, or nothing.
pub open spec fn first_next_hop(routes: Seq<RouteRow>) -> Seq<char> {
    if routes.len() > 0 {
        number::decimal_text(routes[0].face_id as nat)
    } else {
        seq![]
    }
}

/// The prefix of the first strategy, or the root.
pub open spec fn first_strategy_prefix(strategies: Seq<StrategyRow>) -> Seq<char> {
    if strategies.len() > 0 {
        strategies[0].prefix@
    } else {
        "/"@
    }
}

/// The capacity of the content store, or the usual one.
pub open spec fn capacity_text(store: Option<StorePitSummary>) -> Seq<char> {
    match store {
        Some(store) => number::decimal_text(store.cs_capacity as nat),
        None => "65536"@,
    }
}

/// The form as an engine first fills it.
pub open spec fn form_for(summary: EngineSummary) -> FormText {
    FormText {
        face_uri: "udp4://127.0.0.1:6363"@,
        face_mtu: seq![],
        destroy_face_id: match summary.detail {
            EngineDetail::Face(face) => number::decimal_text(face.id as nat),
            _ => first_face(summary.faces@),
        },
        confirm_destroy: false,
        route_prefix: "/ndn/site/video"@,
        route_face_id: first_face(summary.faces@),
        route_cost: "10"@,
        remove_route_prefix: first_prefix(summary.routes@),
        remove_route_face_id: first_next_hop(summary.routes@),
        confirm_route_remove: false,
        strategy_prefix: first_strategy_prefix(summary.strategies@),
        strategy_name: KnownStrategy::BestRoute.name_text(),
        custom_strategy_name: seq![],
        unset_strategy_prefix: first_strategy_prefix(summary.strategies@),
        confirm_strategy_unset: false,
        cs_capacity: capacity_text(summary.store_pit),
        cs_erase_prefix: "/"@,
        cs_erase_count: seq![],
        confirm_cs_erase: false,
        shutdown_reason: "operator requested shutdown"@,
        confirm_shutdown: false,
    }
}

fn first_face_text(summary: &EngineSummary) -> (r: String)
    ensures
        r@ == first_face(summary.faces@),
{
    if summary.faces.len() > 0 {
        decimal(summary.faces[0].id)
    } else {
        String::new()
    }
}

fn first_strategy_text(summary: &EngineSummary) -> (r: String)
    ensures
        r@ == first_strategy_prefix(summary.strategies@),
{
    if summary.strategies.len() > 0 {
        summary.strategies[0].prefix.clone()
    } else {
        "/".to_string()
    }
}

impl FormText {
    /// The strategy that the form names.
    pub open spec fn strategy(self) -> Seq<char> {
        if self.strategy_name == "__custom__"@ {
            text::trimmed(self.custom_strategy_name)
        } else {
            self.strategy_name
        }
    }

    /// The form after an operation was sent: its confirmation is taken back.
    pub open spec fn sent(self, operation: MutationOperation) -> FormText {
        match operation {
            MutationOperation::DestroyFace => FormText { confirm_destroy: false, ..self },
            MutationOperation::RemoveRoute => FormText { confirm_route_remove: false, ..self },
            MutationOperation::UnsetStrategy => FormText { confirm_strategy_unset: false, ..self },
            MutationOperation::EraseCs => FormText { confirm_cs_erase: false, ..self },
            MutationOperation::ShutdownForwarder => FormText { confirm_shutdown: false, ..self },
            _ => self,
        }
    }

    /// The form holds what an operation needs.
    pub open spec fn complete_for(self, operation: MutationOperation) -> bool {
        match operation {
            MutationOperation::CreateFace => true,
            MutationOperation::DestroyFace => shell::field_u64(self.destroy_face_id) is Some,
            MutationOperation::AddRoute => shell::field_u64(self.route_face_id) is Some,
            MutationOperation::RemoveRoute => shell::field_u64(self.remove_route_face_id) is Some,
            MutationOperation::SetStrategy => text::trimmed(self.strategy_prefix).len() > 0
                && self.strategy().len() > 0,
            MutationOperation::UnsetStrategy => text::trimmed(self.unset_strategy_prefix).len() > 0,
            MutationOperation::SetCsCapacity => shell::field_u64(self.cs_capacity) is Some,
            MutationOperation::EraseCs => text::trimmed(self.cs_erase_prefix).len() > 0,
            MutationOperation::ShutdownForwarder => true,
            MutationOperation::ReconnectForwarder => true,
            _ => false,
        }
    }

    /// The form lets an operation be sent, checks of the forwarder aside.
    pub open spec fn ready_for(self, operation: MutationOperation) -> bool {
        &&& self.complete_for(operation)
        &&& match operation {
            MutationOperation::CreateFace => text::trimmed(self.face_uri).len() > 0,
            MutationOperation::DestroyFace => self.confirm_destroy,
            MutationOperation::AddRoute => text::trimmed(self.route_prefix).len() > 0,
            MutationOperation::RemoveRoute => text::trimmed(self.remove_route_prefix).len() > 0
                && self.confirm_route_remove,
            MutationOperation::UnsetStrategy => self.confirm_strategy_unset,
            MutationOperation::EraseCs => self.confirm_cs_erase,
            MutationOperation::ShutdownForwarder => self.confirm_shutdown,
            _ => true,
        }
    }

    /// The command is what the form says of an operation.
    pub open spec fn commands(
        self,
        operation: MutationOperation,
        endpoint: Seq<char>,
        command: TypedMutationCommand,
    ) -> bool {
        match command {
            TypedMutationCommand::FaceCreate(face) => {
                &&& operation is CreateFace
                &&& face.uri@ == text::trimmed(self.face_uri)
                &&& is_field(face.mtu, self.face_mtu)
            },
            TypedMutationCommand::FaceDestroy(face) => {
                &&& operation is DestroyFace
                &&& shell::field_u64(self.destroy_face_id) == Some(face.face_id as nat)
            },
            TypedMutationCommand::RouteAdd(route) => {
                &&& operation is AddRoute
                &&& route.prefix@ == text::trimmed(self.route_prefix)
                &&& route.face_id is Some
                &&& is_field(route.face_id, self.route_face_id)
                &&& route.cost as nat == (match shell::field_u64(self.route_cost) {
                    Some(cost) => cost,
                    None => 10,
                })
            },
            TypedMutationCommand::RouteRemove(route) => {
                &&& operation is RemoveRoute
                &&& route.prefix@ == text::trimmed(self.remove_route_prefix)
                &&& route.face_id is Some
                &&& is_field(route.face_id, self.remove_route_face_id)
            },
            TypedMutationCommand::StrategySet(choice) => {
                &&& operation is SetStrategy
                &&& choice.prefix@ == text::trimmed(self.strategy_prefix)
                &&& choice.strategy@ == self.strategy()
            },
            TypedMutationCommand::StrategyUnset(choice) => {
                &&& operation is UnsetStrategy
                &&& choice.prefix@ == text::trimmed(self.unset_strategy_prefix)
            },
            TypedMutationCommand::CsCapacity(store) => {
                &&& operation is SetCsCapacity
                &&& shell::field_u64(self.cs_capacity) == Some(store.capacity_bytes as nat)
            },
            TypedMutationCommand::CsErase(store) => {
                &&& operation is EraseCs
                &&& store.prefix@ == text::trimmed(self.cs_erase_prefix)
                &&& is_field(store.count, self.cs_erase_count)
            },
            TypedMutationCommand::ShutdownForwarder(stop) => {
                &&& operation is ShutdownForwarder
                &&& stop.reason@ == text::trimmed(self.shutdown_reason)
            },
            TypedMutationCommand::ReconnectForwarder(target) => {
                &&& operation is ReconnectForwarder
                &&& target.endpoint@ == endpoint
            },
        }
    }
}

/// The number is the one in a field.
pub open spec fn is_field(value: Option<u64>, field: Seq<char>) -> bool {
    match value {
        Some(n) => shell::field_u64(field) == Some(n as nat),
        None => shell::field_u64(field) is None,
    }
}

/// The checks of the forwarder let an operation be sent.
pub open spec fn passes(
    profile: ForwarderProfile,
    trust: TrustPosture,
    operation: MutationOperation,
) -> bool {
    !(mutation::status_after(
        mutation::checks_of(profile, trust, operation),
        operation,
    ) is Blocked)
}

impl EngineForm {
    pub fn for_summary(summary: &EngineSummary) -> (r: Self)
        ensures
            r@ == form_for(*summary),
    {
        let r = EngineForm {
            face_uri: "udp4://127.0.0.1:6363".to_string(),
            face_mtu: String::new(),
            destroy_face_id: match &summary.detail {
                EngineDetail::Face(face) => decimal(face.id),
                _ => first_face_text(summary),
            },
            confirm_destroy: false,
            route_prefix: "/ndn/site/video".to_string(),
            route_face_id: first_face_text(summary),
            route_cost: "10".to_string(),
            remove_route_prefix: if summary.routes.len() > 0 {
                summary.routes[0].prefix.clone()
            } else {
                "/ndn/site/video".to_string()
            },
            remove_route_face_id: if summary.routes.len() > 0 {
                decimal(summary.routes[0].face_id)
            } else {
                String::new()
            },
            confirm_route_remove: false,
            strategy_prefix: first_strategy_text(summary),
            strategy_name: KnownStrategy::BestRoute.name().to_string(),
            custom_strategy_name: String::new(),
            unset_strategy_prefix: first_strategy_text(summary),
            confirm_strategy_unset: false,
            cs_capacity: match &summary.store_pit {
                Some(store) => decimal(store.cs_capacity),
                None => "65536".to_string(),
            },
            cs_erase_prefix: "/".to_string(),
            cs_erase_count: String::new(),
            confirm_cs_erase: false,
            shutdown_reason: "operator requested shutdown".to_string(),
            confirm_shutdown: false,
        };
        assert(r@ =~= form_for(*summary));
        r
    }

    /// The strategy that the form names.
    pub fn selected_strategy(&self) -> (r: String)
        ensures
            r@ == self@.strategy(),
    {
        if same_text(self.strategy_name.as_str(), "__custom__") {
            trim(self.custom_strategy_name.as_str()).to_string()
        } else {
            self.strategy_name.clone()
        }
    }

    /// Whether the control of an operation is enabled.
    pub fn can_send(
        &self,
        profile: &ForwarderProfile,
        trust: TrustPosture,
        operation: MutationOperation,
    ) -> (r: bool)
        ensures
            r == (passes(*profile, trust, operation) && self@.ready_for(operation)),
    {
        if !preflight_mutation(profile, trust, operation).can_execute() {
            return false;
        }
        match operation {
            MutationOperation::CreateFace => !trim(self.face_uri.as_str()).is_empty(),
            MutationOperation::DestroyFace => parse_opt_u64(self.destroy_face_id.as_str()).is_some()
                && self.confirm_destroy,
            MutationOperation::AddRoute => !trim(self.route_prefix.as_str()).is_empty()
                && parse_opt_u64(self.route_face_id.as_str()).is_some(),
            MutationOperation::RemoveRoute => !trim(self.remove_route_prefix.as_str()).is_empty()
                && parse_opt_u64(self.remove_route_face_id.as_str()).is_some()
                && self.confirm_route_remove,
            MutationOperation::SetStrategy => !trim(self.strategy_prefix.as_str()).is_empty()
                && !self.selected_strategy().as_str().is_empty(),
            MutationOperation::UnsetStrategy => !trim(
                self.unset_strategy_prefix.as_str(),
            ).is_empty() && self.confirm_strategy_unset,
            MutationOperation::SetCsCapacity => parse_opt_u64(self.cs_capacity.as_str()).is_some(),
            MutationOperation::EraseCs => !trim(self.cs_erase_prefix.as_str()).is_empty()
                && self.confirm_cs_erase,
            MutationOperation::ShutdownForwarder => self.confirm_shutdown,
            MutationOperation::ReconnectForwarder => true,
            _ => false,
        }
    }

    /// The command that the form gives an operation, where it holds what the
    /// operation needs.
    pub fn command(&self, operation: MutationOperation, endpoint: &str) -> (r: Option<
        TypedMutationCommand,
    >)
        ensures
            r is Some <==> self@.complete_for(operation),
            r matches Some(command) ==> self@.commands(operation, endpoint@, command),
    {
        match operation {
            MutationOperation::CreateFace => Some(
                TypedMutationCommand::FaceCreate(
                    FaceCreateCommand {
                        uri: trim(self.face_uri.as_str()).to_string(),
                        mtu: parse_opt_u64(self.face_mtu.as_str()),
                    },
                ),
            ),
            MutationOperation::DestroyFace => match parse_opt_u64(self.destroy_face_id.as_str()) {
                Some(face_id) => Some(
                    TypedMutationCommand::FaceDestroy(FaceDestroyCommand { face_id }),
                ),
                None => None,
            },
            MutationOperation::AddRoute => match parse_opt_u64(self.route_face_id.as_str()) {
                Some(face_id) => Some(
                    TypedMutationCommand::RouteAdd(
                        RouteAddCommand {
                            prefix: trim(self.route_prefix.as_str()).to_string(),
                            face_id: Some(face_id),
                            cost: parse_u64_or(self.route_cost.as_str(), 10),
                        },
                    ),
                ),
                None => None,
            },
            MutationOperation::RemoveRoute => match parse_opt_u64(
                self.remove_route_face_id.as_str(),
            ) {
                Some(face_id) => Some(
                    TypedMutationCommand::RouteRemove(
                        RouteRemoveCommand {
                            prefix: trim(self.remove_route_prefix.as_str()).to_string(),
                            face_id: Some(face_id),
                        },
                    ),
                ),
                None => None,
            },
            MutationOperation::SetStrategy => {
                let prefix = trim(self.strategy_prefix.as_str());
                let strategy = self.selected_strategy();
                if prefix.is_empty() || strategy.as_str().is_empty() {
                    None
                } else {
                    Some(
                        TypedMutationCommand::StrategySet(
                            StrategySetCommand { prefix: prefix.to_string(), strategy },
                        ),
                    )
                }
            },
            MutationOperation::UnsetStrategy => {
                let prefix = trim(self.unset_strategy_prefix.as_str());
                if prefix.is_empty() {
                    None
                } else {
                    Some(
                        TypedMutationCommand::StrategyUnset(
                            StrategyUnsetCommand { prefix: prefix.to_string() },
                        ),
                    )
                }
            },
            MutationOperation::SetCsCapacity => match parse_opt_u64(self.cs_capacity.as_str()) {
                Some(capacity_bytes) => Some(
                    TypedMutationCommand::CsCapacity(CsCapacityCommand { capacity_bytes }),
                ),
                None => None,
            },
            MutationOperation::EraseCs => {
                let prefix = trim(self.cs_erase_prefix.as_str());
                if prefix.is_empty() {
                    None
                } else {
                    Some(
                        TypedMutationCommand::CsErase(
                            CsEraseCommand {
                                prefix: prefix.to_string(),
                                count: parse_opt_u64(self.cs_erase_count.as_str()),
                            },
                        ),
                    )
                }
            },
            MutationOperation::ShutdownForwarder => Some(
                TypedMutationCommand::ShutdownForwarder(
                    ShutdownForwarderCommand {
                        reason: trim(self.shutdown_reason.as_str()).to_string(),
                    },
                ),
            ),
            MutationOperation::ReconnectForwarder => Some(
                TypedMutationCommand::ReconnectForwarder(
                    ReconnectForwarderCommand { endpoint: endpoint.to_string() },
                ),
            ),
            _ => None,
        }
    }

    /// Takes the confirmation of an operation back.
    pub fn take_back(&mut self, operation: MutationOperation)
        ensures
            final(self)@ == old(self)@.sent(operation),
    {
        match operation {
            MutationOperation::DestroyFace => {
                self.confirm_destroy = false;
            },
            MutationOperation::RemoveRoute => {
                self.confirm_route_remove = false;
            },
            MutationOperation::UnsetStrategy => {
                self.confirm_strategy_unset = false;
            },
            MutationOperation::EraseCs => {
                self.confirm_cs_erase = false;
            },
            MutationOperation::ShutdownForwarder => {
                self.confirm_shutdown = false;
            },
            _ => {},
        }
    }
}

/// A control that is enabled has a command to send, and the command carries
/// out the operation of the control.
pub proof fn enabled_controls_have_commands(
    form: FormText,
    operation: MutationOperation,
    endpoint: Seq<char>,
    command: TypedMutationCommand,
)
    requires
        form.commands(operation, endpoint, command),
    ensures
        command.carries_out() == operation,
        form.ready_for(operation) ==> form.complete_for(operation),
{
}

/// After a destructive operation was sent its control stays disabled until it
/// is confirmed anew.
pub proof fn confirmations_hold_once(form: FormText, operation: MutationOperation)
    requires
        operation is DestroyFace || operation is RemoveRoute || operation is UnsetStrategy
            || operation is EraseCs || operation is ShutdownForwarder,
    ensures
        !form.sent(operation).ready_for(operation),
{
}

// ---------------------------------------------------------------------------
// Mutations that were sent
// ---------------------------------------------------------------------------

/// The mutations that were sent from the workspace, the latest first, and the
/// session in which they can be repeated.
#[derive(Debug)]
pub struct MutationBoard {
    pub records: Vec<MutationRecord>,
    pub session: MutationSession,
}

/// The record of a command that was just sent.
pub open spec fn is_running(
    record: MutationRecord,
    profile: ForwarderProfile,
    trust: TrustPosture,
    command: TypedMutationCommand,
) -> bool {
    &&& record.is(
        command.carries_out(),
        command.target_text(),
        MutationStatus::Running,
        "executing management command"@,
        record.preflight,
        1,
    )
    &&& record.preflight.is_of(profile, trust, command.carries_out())
    &&& record.command == Some(command)
}

/// A running record of an operation on a target.
pub open spec fn runs(
    record: MutationRecord,
    operation: MutationOperation,
    target: Seq<char>,
) -> bool {
    record.operation == operation && record.target@ == target && record.status is Running
}

/// The place of the first running record of an operation on a target, or the
/// length.
pub open spec fn running_place(
    records: Seq<MutationRecord>,
    operation: MutationOperation,
    target: Seq<char>,
) -> int
    decreases records.len(),
{
    if records.len() == 0 {
        0
    } else if runs(records[0], operation, target) {
        0
    } else {
        1 + running_place(records.drop_first(), operation, target)
    }
}

/// The records after one has ended: it takes the place of the first running
/// record of its operation and target, or comes before all.
pub open spec fn settled(records: Seq<MutationRecord>, record: MutationRecord) -> Seq<
    MutationRecord,
> {
    let place = running_place(records, record.operation, record.target@);
    if place < records.len() {
        records.update(place, record)
    } else {
        records.insert(0, record)
    }
}

impl MutationBoard {
    pub fn new() -> (r: Self)
        ensures
            r.records@.len() == 0,
            r.session.commands@.len() == 0,
    {
        MutationBoard { records: Vec::new(), session: MutationSession::default() }
    }

    /// Shows a command as running.
    pub fn replay(
        &mut self,
        profile: &ForwarderProfile,
        trust: TrustPosture,
        command: &TypedMutationCommand,
    )
        ensures
            final(self).records@.len() == old(self).records@.len() + 1,
            is_running(final(self).records@[0], *profile, trust, *command),
            final(self).records@ == old(self).records@.insert(0, final(self).records@[0]),
            final(self).session == old(self).session,
    {
        let preflight = preflight_mutation(profile, trust, command.operation());
        let pending = MutationRecord::for_command(command.clone(), preflight).running();
        self.records.insert(0, pending);
    }

    /// Shows a command as running, and records it where it can be repeated.
    pub fn begin(
        &mut self,
        profile: &ForwarderProfile,
        trust: TrustPosture,
        command: &TypedMutationCommand,
    )
        ensures
            final(self).records@.len() == old(self).records@.len() + 1,
            is_running(final(self).records@[0], *profile, trust, *command),
            final(self).records@ == old(self).records@.insert(0, final(self).records@[0]),
            final(self).session.commands@ == (if command.can_replay() {
                old(self).session.commands@.push(*command)
            } else {
                old(self).session.commands@
            }),
    {
        self.replay(profile, trust, command);
        self.session.record(command.clone());
    }

    /// Sends what the form says of an operation: the command is shown as
    /// running, recorded, and handed out; its confirmation is taken back.
    pub fn submit(
        &mut self,
        form: &mut EngineForm,
        profile: &ForwarderProfile,
        trust: TrustPosture,
        operation: MutationOperation,
    ) -> (r: Option<TypedMutationCommand>)
        ensures
            r is Some <==> old(form)@.complete_for(operation),
            match r {
                Some(command) => {
                    &&& old(form)@.commands(operation, profile.endpoint@, command)
                    &&& final(form)@ == old(form)@.sent(operation)
                    &&& final(self).records@.len() == old(self).records@.len() + 1
                    &&& is_running(final(self).records@[0], *profile, trust, command)
                    &&& final(self).records@ == old(self).records@.insert(
                        0,
                        final(self).records@[0],
                    )
                    &&& final(self).session.commands@ == (if command.can_replay() {
                        old(self).session.commands@.push(command)
                    } else {
                        old(self).session.commands@
                    })
                },
                None => *final(self) == *old(self) && *final(form) == *old(form),
            },
    {
        match form.command(operation, profile.endpoint.as_str()) {
            Some(command) => {
                self.begin(profile, trust, &command);
                form.take_back(operation);
                Some(command)
            },
            None => None,
        }
    }

    /// Takes in the record of a mutation that has ended.
    pub fn settle(&mut self, record: MutationRecord)
        ensures
            final(self).records@ == settled(old(self).records@, record),
            final(self).session == old(self).session,
    {
        let place = find_running(&self.records, record.operation, record.target.as_str());
        if place < self.records.len() {
            self.records.set(place, record);
        } else {
            self.records.insert(0, record);
        }
    }
}

fn find_running(records: &Vec<MutationRecord>, operation: MutationOperation, target: &str) -> (r:
    usize)
    ensures
        r == running_place(records@, operation, target@),
        r <= records@.len(),
{
    assert(records@.skip(0) =~= records@);
    let mut i: usize = 0;
    while i < records.len()
        invariant
            i <= records@.len(),
            running_place(records@, operation, target@) == i + running_place(
                records@.skip(i as int),
                operation,
                target@,
            ),
        decreases records@.len() - i,
    {
        let row = &records[i];
        if row.operation == operation && same_text(row.target.as_str(), target) && row.status
            == MutationStatus::Running {
            return i;
        }
        assert(records@.skip(i as int).drop_first() =~= records@.skip(i + 1));
        i = i + 1;
    }
    i
}

/// A mutation that was just sent is shown once: when it has ended, its record
/// stands where it was shown as running.
pub proof fn each_mutation_is_shown_once(
    records: Seq<MutationRecord>,
    running: MutationRecord,
    ended: MutationRecord,
)
    requires
        running.status is Running,
        ended.operation == running.operation,
        ended.target@ == running.target@,
    ensures
        settled(records.insert(0, running), ended) == records.insert(0, ended),
{
    assert(records.insert(0, running)[0] == running);
    assert(settled(records.insert(0, running), ended) =~= records.insert(0, ended));
}

/// Records that are not running, or that are about something else, stay as
/// they are when a mutation ends.
pub proof fn settling_keeps_the_others(
    records: Seq<MutationRecord>,
    ended: MutationRecord,
    i: int,
)
    requires
        0 <= i < records.len(),
        !runs(records[i], ended.operation, ended.target@),
    ensures
        settled(records, ended).contains(records[i]),
{
    let place = running_place(records, ended.operation, ended.target@);
    lemma_running_place(records, ended.operation, ended.target@);
    let after = settled(records, ended);
    if place < records.len() {
        assert(after[i] == records[i]);
    } else {
        assert(after[i + 1] == records[i]);
    }
}

proof fn lemma_running_place(
    records: Seq<MutationRecord>,
    operation: MutationOperation,
    target: Seq<char>,
)
    ensures
        0 <= running_place(records, operation, target) <= records.len(),
        running_place(records, operation, target) < records.len() ==> runs(
            records[running_place(records, operation, target)],
            operation,
            target,
        ),
    decreases records.len(),
{
    if records.len() > 0 && !runs(records[0], operation, target) {
        lemma_running_place(records.drop_first(), operation, target);
    }
}

// ---------------------------------------------------------------------------
// Laws
// ---------------------------------------------------------------------------

/// What takes something away is sent only with its own confirmation, and
/// nothing is sent without the fields that it needs.
pub proof fn nothing_is_taken_away_unconfirmed(form: FormText, operation: MutationOperation)
    requires
        form.ready_for(operation),
    ensures
        operation is DestroyFace ==> form.confirm_destroy,
        operation is RemoveRoute ==> form.confirm_route_remove && text::trimmed(
            form.remove_route_prefix,
        ).len() > 0,
        operation is UnsetStrategy ==> form.confirm_strategy_unset && text::trimmed(
            form.unset_strategy_prefix,
        ).len() > 0,
        operation is EraseCs ==> form.confirm_cs_erase && text::trimmed(form.cs_erase_prefix).len()
            > 0,
        operation is ShutdownForwarder ==> form.confirm_shutdown,
        operation is CreateFace ==> text::trimmed(form.face_uri).len() > 0,
        operation is AddRoute ==> text::trimmed(form.route_prefix).len() > 0,
        operation is SetStrategy ==> text::trimmed(form.strategy_prefix).len() > 0,
        !(operation is AdoptTrustContext) && !(operation is EnrollCertificate) && !(
        operation is ApproveTrustRequest) && !(operation is RejectTrustRequest) && !(
        operation is ImportSafeBag) && !(operation is ReviewSchemaChange),
{
}

/// Sending takes back the confirmation of what was sent, and changes nothing
/// else in the form.
pub proof fn sending_takes_back_one_confirmation(form: FormText, operation: MutationOperation)
    ensures
        ({
            let after = form.sent(operation);
            &&& after.confirm_destroy == (form.confirm_destroy && !(operation is DestroyFace))
            &&& after.confirm_route_remove == (form.confirm_route_remove && !(
            operation is RemoveRoute))
            &&& after.confirm_strategy_unset == (form.confirm_strategy_unset && !(
            operation is UnsetStrategy))
            &&& after.confirm_cs_erase == (form.confirm_cs_erase && !(operation is EraseCs))
            &&& after.confirm_shutdown == (form.confirm_shutdown && !(
            operation is ShutdownForwarder))
            &&& after.face_uri == form.face_uri && after.face_mtu == form.face_mtu
            &&& after.destroy_face_id == form.destroy_face_id
            &&& after.route_prefix == form.route_prefix && after.route_face_id
                == form.route_face_id && after.route_cost == form.route_cost
            &&& after.remove_route_prefix == form.remove_route_prefix
                && after.remove_route_face_id == form.remove_route_face_id
            &&& after.strategy_prefix == form.strategy_prefix && after.strategy_name
                == form.strategy_name && after.custom_strategy_name == form.custom_strategy_name
            &&& after.unset_strategy_prefix == form.unset_strategy_prefix
            &&& after.cs_capacity == form.cs_capacity && after.cs_erase_prefix
                == form.cs_erase_prefix && after.cs_erase_count == form.cs_erase_count
            &&& after.shutdown_reason == form.shutdown_reason
        }),
{
}

/// A command is made of the fields for its own operation: a numeral in a field
/// becomes that number in the command, and texts go over without the blanks
/// around them.
pub proof fn commands_carry_the_fields(
    form: FormText,
    operation: MutationOperation,
    endpoint: Seq<char>,
    command: TypedMutationCommand,
    n: u64,
)
    requires
        form.commands(operation, endpoint, command),
    ensures
        command matches TypedMutationCommand::FaceCreate(face) ==> {
            &&& operation is CreateFace && face.uri@ == text::trimmed(form.face_uri)
            &&& text::trimmed(form.face_mtu) == number::decimal_text(n as nat) ==> face.mtu == Some(
                n,
            )
            &&& text::trimmed(form.face_mtu).len() == 0 ==> face.mtu is None
        },
        command matches TypedMutationCommand::FaceDestroy(face) ==> operation is DestroyFace && (
        text::trimmed(form.destroy_face_id) == number::decimal_text(n as nat) ==> face.face_id
            == n),
        command matches TypedMutationCommand::RouteAdd(route) ==> {
            &&& operation is AddRoute && route.prefix@ == text::trimmed(form.route_prefix)
            &&& text::trimmed(form.route_face_id) == number::decimal_text(n as nat)
                ==> route.face_id == Some(n)
            &&& text::trimmed(form.route_cost) == number::decimal_text(n as nat) ==> route.cost == n
            &&& text::trimmed(form.route_cost).len() == 0 ==> route.cost == 10
        },
        command matches TypedMutationCommand::RouteRemove(route) ==> {
            &&& operation is RemoveRoute && route.prefix@ == text::trimmed(
                form.remove_route_prefix,
            )
            &&& text::trimmed(form.remove_route_face_id) == number::decimal_text(n as nat)
                ==> route.face_id == Some(n)
        },
        command matches TypedMutationCommand::StrategySet(choice) ==> {
            &&& operation is SetStrategy && choice.prefix@ == text::trimmed(form.strategy_prefix)
            &&& form.strategy_name != "__custom__"@ ==> choice.strategy@ == form.strategy_name
            &&& form.strategy_name == "__custom__"@ ==> choice.strategy@ == text::trimmed(
                form.custom_strategy_name,
            )
        },
        command matches TypedMutationCommand::StrategyUnset(choice) ==> operation is UnsetStrategy
            && choice.prefix@ == text::trimmed(form.unset_strategy_prefix),
        command matches TypedMutationCommand::CsCapacity(store) ==> operation is SetCsCapacity && (
        text::trimmed(form.cs_capacity) == number::decimal_text(n as nat) ==> store.capacity_bytes
            == n),
        command matches TypedMutationCommand::CsErase(store) ==> {
            &&& operation is EraseCs && store.prefix@ == text::trimmed(form.cs_erase_prefix)
            &&& text::trimmed(form.cs_erase_count) == number::decimal_text(n as nat)
                ==> store.count == Some(n)
            &&& text::trimmed(form.cs_erase_count).len() == 0 ==> store.count is None
        },
        command matches TypedMutationCommand::ShutdownForwarder(stop) ==> operation
            is ShutdownForwarder && stop.reason@ == text::trimmed(form.shutdown_reason),
        command matches TypedMutationCommand::ReconnectForwarder(target) ==> operation
            is ReconnectForwarder && target.endpoint@ == endpoint,
{
    shell::fields_hold_their_numbers(form.face_mtu, n, 0);
    shell::fields_hold_their_numbers(form.destroy_face_id, n, 0);
    shell::fields_hold_their_numbers(form.route_face_id, n, 0);
    shell::fields_hold_their_numbers(form.route_cost, n, 0);
    shell::fields_hold_their_numbers(form.remove_route_face_id, n, 0);
    shell::fields_hold_their_numbers(form.cs_capacity, n, 0);
    shell::fields_hold_their_numbers(form.cs_erase_count, n, 0);
}

/// A form begins without any confirmation, and points at what is there: the
/// face in detail, else the first, and the first route with its next hop.
pub proof fn forms_begin_unconfirmed(summary: EngineSummary)
    ensures
        ({
            let form = form_for(summary);
            &&& !form.confirm_destroy && !form.confirm_route_remove && !form.confirm_strategy_unset
                && !form.confirm_cs_erase && !form.confirm_shutdown
            &&& summary.detail matches EngineDetail::Face(face) ==> form.destroy_face_id
                == number::decimal_text(face.id as nat)
            &&& !(summary.detail is Face) && summary.faces@.len() > 0 ==> form.destroy_face_id
                == number::decimal_text(summary.faces@[0].id as nat)
            &&& summary.faces@.len() > 0 ==> form.route_face_id == number::decimal_text(
                summary.faces@[0].id as nat,
            )
            &&& summary.routes@.len() > 0 ==> form.remove_route_prefix
                == summary.routes@[0].prefix@ && form.remove_route_face_id == number::decimal_text(
                summary.routes@[0].face_id as nat,
            )
            &&& summary.strategies@.len() > 0 ==> form.strategy_prefix
                == summary.strategies@[0].prefix@ && form.unset_strategy_prefix
                == summary.strategies@[0].prefix@
            &&& summary.store_pit matches Some(store) ==> form.cs_capacity == number::decimal_text(
                store.cs_capacity as nat,
            )
        }),
{
}

/// A control passes its checks exactly where the preflight is not blocked.
pub proof fn controls_pass_with_their_preflight(
    preflight: mutation::MutationPreflight,
    profile: ForwarderProfile,
    trust: TrustPosture,
    operation: MutationOperation,
)
    requires
        preflight.is_of(profile, trust, operation),
    ensures
        passes(profile, trust, operation) <==> !(preflight.status is Blocked),
{
}

/// A mutation that has begun is shown as running, with its own command, target
/// and preflight, and one attempt.
pub proof fn begun_mutations_run(
    record: MutationRecord,
    profile: ForwarderProfile,
    trust: TrustPosture,
    command: TypedMutationCommand,
)
    requires
        is_running(record, profile, trust, command),
    ensures
        record.status is Running,
        record.attempts == 1,
        record.command == Some(command),
        record.operation == command.carries_out(),
        record.target@ == command.target_text(),
        record.preflight.operation == command.carries_out(),
{
}

proof fn lemma_first_running(
    records: Seq<MutationRecord>,
    operation: MutationOperation,
    target: Seq<char>,
    k: int,
)
    requires
        0 <= k <= records.len(),
        forall|j: int| 0 <= j < k ==> !runs(#[trigger] records[j], operation, target),
        k < records.len() ==> runs(records[k], operation, target),
    ensures
        running_place(records, operation, target) == k,
    decreases k,
{
    if k > 0 {
        assert(!runs(records[0], operation, target));
        let rest = records.drop_first();
        assert forall|j: int| 0 <= j < k - 1 implies !runs(#[trigger] rest[j], operation, target) by {
            assert(rest[j] == records[j + 1]);
        }
        if k < records.len() {
            assert(rest[k - 1] == records[k]);
        }
        lemma_first_running(rest, operation, target, k - 1);
    }
}

/// A record that ended takes the place of the first that still runs for the
/// same operation and target, and every other record stays; where none runs it
/// comes first.
pub proof fn ended_mutations_take_their_place(
    records: Seq<MutationRecord>,
    ended: MutationRecord,
    k: int,
)
    requires
        0 <= k <= records.len(),
        forall|j: int|
            0 <= j < k ==> !((#[trigger] records[j]).status is Running && records[j].operation
                == ended.operation && records[j].target@ == ended.target@),
        k < records.len() ==> records[k].status is Running && records[k].operation
            == ended.operation && records[k].target@ == ended.target@,
    ensures
        k < records.len() ==> settled(records, ended) == records.update(k, ended),
        k == records.len() ==> settled(records, ended) == seq![ended] + records,
{
    assert forall|j: int| 0 <= j < k implies !runs(
        #[trigger] records[j],
        ended.operation,
        ended.target@,
    ) by {}
    lemma_first_running(records, ended.operation, ended.target@, k);
    if k == records.len() {
        assert(records.insert(0, ended) =~= seq![ended] + records);
    }
}

/// Only a form that holds what an operation needs lets it be sent: the face, the
/// prefix or the number that the operation is about.
pub proof fn operations_need_their_own_fields(form: FormText, operation: MutationOperation)
    ensures
        form.ready_for(MutationOperation::CreateFace) <==> text::trimmed(form.face_uri).len() > 0,
        form.ready_for(MutationOperation::AddRoute) <==> text::trimmed(form.route_prefix).len() > 0
            && shell::field_u64(form.route_face_id) is Some,
        form.ready_for(MutationOperation::DestroyFace) <==> form.confirm_destroy
            && shell::field_u64(form.destroy_face_id) is Some,
        form.ready_for(MutationOperation::RemoveRoute) <==> form.confirm_route_remove
            && text::trimmed(form.remove_route_prefix).len() > 0 && shell::field_u64(
            form.remove_route_face_id,
        ) is Some,
        form.ready_for(MutationOperation::UnsetStrategy) <==> form.confirm_strategy_unset
            && text::trimmed(form.unset_strategy_prefix).len() > 0,
        form.ready_for(MutationOperation::EraseCs) <==> form.confirm_cs_erase && text::trimmed(
            form.cs_erase_prefix,
        ).len() > 0,
        form.ready_for(MutationOperation::SetCsCapacity) <==> shell::field_u64(
            form.cs_capacity,
        ) is Some,
        form.ready_for(MutationOperation::SetStrategy) ==> text::trimmed(
            form.strategy_prefix,
        ).len() > 0,
        form.ready_for(MutationOperation::ShutdownForwarder) <==> form.confirm_shutdown,
        form.ready_for(MutationOperation::ReconnectForwarder),
        form.ready_for(operation) ==> form.complete_for(operation),
{
}

} // verus!
