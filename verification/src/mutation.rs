//! Mutation commands, their preflight, and their records.
//!
//! A mutation is modeled before it is executed, so that browser, compatibility,
//! and trust constraints show the same everywhere. Executing one takes two
//! steps: [`begin_mutation`] decides whether a management command is sent at
//! all, and [`finish_mutation`] records what came of it.

use vstd::prelude::*;

use crate::model;
use crate::model::{
    socket_path, AttachMode, FeatureState, ForwarderKind, ForwarderProfile, TrustPosture,
};
use crate::number;
use crate::number::decimal;
use crate::text;
use crate::text::trim;

verus! {

#[derive(Clone, Copy, Debug, PartialEq, Eq, Structural)]
pub enum MutationOperation {
    AdoptTrustContext,
    EnrollCertificate,
    ApproveTrustRequest,
    RejectTrustRequest,
    ImportSafeBag,
    ReviewSchemaChange,
    CreateFace,
    DestroyFace,
    AddRoute,
    RemoveRoute,
    SetStrategy,
    UnsetStrategy,
    SetCsCapacity,
    EraseCs,
    ShutdownForwarder,
    ReconnectForwarder,
}

impl MutationOperation {
    /// The text of [`MutationOperation::label`].
    pub open spec fn label_text(self) -> Seq<char> {
        match self {
            Self::AdoptTrustContext => "adopt trust context"@,
            Self::EnrollCertificate => "enroll certificate"@,
            Self::ApproveTrustRequest => "approve request"@,
            Self::RejectTrustRequest => "reject request"@,
            Self::ImportSafeBag => "import SafeBag"@,
            Self::ReviewSchemaChange => "review schema change"@,
            Self::CreateFace => "create face"@,
            Self::DestroyFace => "destroy face"@,
            Self::AddRoute => "add route"@,
            Self::RemoveRoute => "remove route"@,
            Self::SetStrategy => "set strategy"@,
            Self::UnsetStrategy => "unset strategy"@,
            Self::SetCsCapacity => "set CS capacity"@,
            Self::EraseCs => "erase CS"@,
            Self::ShutdownForwarder => "shutdown forwarder"@,
            Self::ReconnectForwarder => "reconnect forwarder"@,
        }
    }

    pub fn label(self) -> (r: &'static str)
        ensures
            r@ == self.label_text(),
    {
        match self {
            Self::AdoptTrustContext => "adopt trust context",
            Self::EnrollCertificate => "enroll certificate",
            Self::ApproveTrustRequest => "approve request",
            Self::RejectTrustRequest => "reject request",
            Self::ImportSafeBag => "import SafeBag",
            Self::ReviewSchemaChange => "review schema change",
            Self::CreateFace => "create face",
            Self::DestroyFace => "destroy face",
            Self::AddRoute => "add route",
            Self::RemoveRoute => "remove route",
            Self::SetStrategy => "set strategy",
            Self::UnsetStrategy => "unset strategy",
            Self::SetCsCapacity => "set CS capacity",
            Self::EraseCs => "erase CS",
            Self::ShutdownForwarder => "shutdown forwarder",
            Self::ReconnectForwarder => "reconnect forwarder",
        }
    }

    /// The operation changes trust: adopting, enrolling, or answering a request.
    pub open spec fn changes_trust(self) -> bool {
        ||| self is AdoptTrustContext
        ||| self is EnrollCertificate
        ||| self is ApproveTrustRequest
        ||| self is RejectTrustRequest
    }

    /// The operation works on the trust context.
    pub open spec fn uses_trust_context(self) -> bool {
        self.changes_trust() || self is ImportSafeBag || self is ReviewSchemaChange
    }

    /// The operation needs the native extensions.
    pub open spec fn uses_native(self) -> bool {
        self.changes_trust() || self is ReviewSchemaChange
    }

    /// The operation takes something away or weakens something.
    pub open spec fn destroys(self) -> bool {
        ||| self is DestroyFace
        ||| self is RemoveRoute
        ||| self is UnsetStrategy
        ||| self is EraseCs
        ||| self is ShutdownForwarder
        ||| self is ImportSafeBag
        ||| self is ReviewSchemaChange
    }

    /// The operation writes to the tables of the forwarder.
    pub open spec fn writes_tables(self) -> bool {
        ||| self is CreateFace
        ||| self is DestroyFace
        ||| self is AddRoute
        ||| self is RemoveRoute
        ||| self is SetStrategy
        ||| self is UnsetStrategy
        ||| self is SetCsCapacity
        ||| self is EraseCs
    }

    pub fn requires_trust_context(self) -> (r: bool)
        ensures
            r == self.uses_trust_context(),
    {
        matches!(
            self,
            MutationOperation::AdoptTrustContext
                | MutationOperation::EnrollCertificate
                | MutationOperation::ApproveTrustRequest
                | MutationOperation::RejectTrustRequest
                | MutationOperation::ImportSafeBag
                | MutationOperation::ReviewSchemaChange
        )
    }

    pub fn requires_signed_management(self) -> (r: bool)
        ensures
            r == !(self is ReconnectForwarder),
    {
        !matches!(self, MutationOperation::ReconnectForwarder)
    }

    pub fn requires_ndnrs_native(self) -> (r: bool)
        ensures
            r == self.uses_native(),
    {
        matches!(
            self,
            MutationOperation::AdoptTrustContext
                | MutationOperation::EnrollCertificate
                | MutationOperation::ApproveTrustRequest
                | MutationOperation::RejectTrustRequest
                | MutationOperation::ReviewSchemaChange
        )
    }

    pub fn is_destructive(self) -> (r: bool)
        ensures
            r == self.destroys(),
    {
        matches!(
            self,
            MutationOperation::DestroyFace
                | MutationOperation::RemoveRoute
                | MutationOperation::UnsetStrategy
                | MutationOperation::EraseCs
                | MutationOperation::ShutdownForwarder
                | MutationOperation::ImportSafeBag
                | MutationOperation::ReviewSchemaChange
        )
    }
}

#[derive(Clone, Copy, Debug, PartialEq, Eq, Structural)]
pub enum PreflightStatus {
    Ready,
    NeedsConfirmation,
    Blocked,
}

impl PreflightStatus {
    /// The text of [`PreflightStatus::label`].
    pub open spec fn label_text(self) -> Seq<char> {
        match self {
            Self::Ready => "ready"@,
            Self::NeedsConfirmation => "confirm"@,
            Self::Blocked => "blocked"@,
        }
    }

    pub fn label(self) -> (r: &'static str)
        ensures
            r@ == self.label_text(),
    {
        match self {
            Self::Ready => "ready",
            Self::NeedsConfirmation => "confirm",
            Self::Blocked => "blocked",
        }
    }

    /// What the status says in a sentence.
    pub open spec fn summary_text(self) -> Seq<char> {
        match self {
            PreflightStatus::Ready => "All required gates passed."@,
            PreflightStatus::NeedsConfirmation => "Ready after explicit operator confirmation."@,
            PreflightStatus::Blocked => "Blocked until the failed gates are resolved."@,
        }
    }

    pub fn allows_execution(self) -> (r: bool)
        ensures
            r == !(self is Blocked),
    {
        matches!(self, PreflightStatus::Ready | PreflightStatus::NeedsConfirmation)
    }
}

#[derive(Debug, PartialEq, Eq)]
pub struct PreflightCheck {
    pub label: &'static str,
    pub passed: bool,
    pub detail: String,
}

impl Clone for PreflightCheck {
    fn clone(&self) -> (r: Self)
        ensures
            r == *self,
    {
        PreflightCheck {
            label: self.label,
            passed: self.passed,
            detail: self.detail.clone(),
        }
    }
}

/// What a check says.
pub struct CheckText {
    pub label: Seq<char>,
    pub passed: bool,
    pub detail: Seq<char>,
}

impl View for PreflightCheck {
    type V = CheckText;

    open spec fn view(&self) -> CheckText {
        CheckText { label: self.label@, passed: self.passed, detail: self.detail@ }
    }
}

/// What checks say.
pub open spec fn check_texts(checks: Seq<PreflightCheck>) -> Seq<CheckText> {
    checks.map_values(|check: PreflightCheck| check@)
}

#[derive(Debug, PartialEq, Eq)]
pub struct MutationPreflight {
    pub operation: MutationOperation,
    pub status: PreflightStatus,
    pub checks: Vec<PreflightCheck>,
}

impl Clone for MutationPreflight {
    fn clone(&self) -> (r: Self)
        ensures
            r.same_as(*self),
    {
        let mut checks: Vec<PreflightCheck> = Vec::new();
        let mut i: usize = 0;
        while i < self.checks.len()
            invariant
                i <= self.checks@.len(),
                checks@ == self.checks@.take(i as int),
            decreases self.checks@.len() - i,
        {
            checks.push(self.checks[i].clone());
            i = i + 1;
            assert(checks@ =~= self.checks@.take(i as int));
        }
        assert(self.checks@.take(i as int) =~= self.checks@);
        MutationPreflight { operation: self.operation, status: self.status, checks }
    }
}

impl MutationPreflight {
    /// Equal contents.
    pub open spec fn same_as(self, other: MutationPreflight) -> bool {
        &&& self.operation == other.operation
        &&& self.status == other.status
        &&& self.checks@ == other.checks@
    }

    pub fn can_execute(&self) -> (r: bool)
        ensures
            r == !(self.status is Blocked),
    {
        self.status.allows_execution()
    }

    pub fn summary(&self) -> (r: &'static str)
        ensures
            r@ == self.status.summary_text(),
    {
        match self.status {
            PreflightStatus::Ready => "All required gates passed.",
            PreflightStatus::NeedsConfirmation => "Ready after explicit operator confirmation.",
            PreflightStatus::Blocked => "Blocked until the failed gates are resolved.",
        }
    }
}

#[derive(Clone, Copy, Debug, PartialEq, Eq, Structural)]
pub enum MutationStatus {
    Pending,
    Running,
    Complete,
    Failed,
    Retryable,
    Blocked,
}

impl MutationStatus {
    /// The text of [`MutationStatus::label`].
    pub open spec fn label_text(self) -> Seq<char> {
        match self {
            Self::Pending => "pending"@,
            Self::Running => "running"@,
            Self::Complete => "complete"@,
            Self::Failed => "failed"@,
            Self::Retryable => "retry"@,
            Self::Blocked => "blocked"@,
        }
    }

    pub fn label(self) -> (r: &'static str)
        ensures
            r@ == self.label_text(),
    {
        match self {
            Self::Pending => "pending",
            Self::Running => "running",
            Self::Complete => "complete",
            Self::Failed => "failed",
            Self::Retryable => "retry",
            Self::Blocked => "blocked",
        }
    }
}

// ---------------------------------------------------------------------------
// Commands
// ---------------------------------------------------------------------------

#[derive(Debug, PartialEq, Eq)]
pub struct FaceCreateCommand {
    pub uri: String,
    pub mtu: Option<u64>,
}

impl Clone for FaceCreateCommand {
    fn clone(&self) -> (r: Self)
        ensures
            r == *self,
    {
        FaceCreateCommand {
            uri: self.uri.clone(),
            mtu: self.mtu,
        }
    }
}

#[derive(Clone, Copy, Debug, PartialEq, Eq)]
pub struct FaceDestroyCommand {
    pub face_id: u64,
}

#[derive(Debug, PartialEq, Eq)]
pub struct RouteAddCommand {
    pub prefix: String,
    pub face_id: Option<u64>,
    pub cost: u64,
}

impl Clone for RouteAddCommand {
    fn clone(&self) -> (r: Self)
        ensures
            r == *self,
    {
        RouteAddCommand {
            prefix: self.prefix.clone(),
            face_id: self.face_id,
            cost: self.cost,
        }
    }
}

#[derive(Debug, PartialEq, Eq)]
pub struct RouteRemoveCommand {
    pub prefix: String,
    pub face_id: Option<u64>,
}

impl Clone for RouteRemoveCommand {
    fn clone(&self) -> (r: Self)
        ensures
            r == *self,
    {
        RouteRemoveCommand {
            prefix: self.prefix.clone(),
            face_id: self.face_id,
        }
    }
}

#[derive(Debug, PartialEq, Eq)]
pub struct StrategySetCommand {
    pub prefix: String,
    pub strategy: String,
}

impl Clone for StrategySetCommand {
    fn clone(&self) -> (r: Self)
        ensures
            r == *self,
    {
        StrategySetCommand {
            prefix: self.prefix.clone(),
            strategy: self.strategy.clone(),
        }
    }
}

#[derive(Debug, PartialEq, Eq)]
pub struct StrategyUnsetCommand {
    pub prefix: String,
}

impl Clone for StrategyUnsetCommand {
    fn clone(&self) -> (r: Self)
        ensures
            r == *self,
    {
        StrategyUnsetCommand {
            prefix: self.prefix.clone(),
        }
    }
}

#[derive(Clone, Copy, Debug, PartialEq, Eq)]
pub struct CsCapacityCommand {
    pub capacity_bytes: u64,
}

#[derive(Debug, PartialEq, Eq)]
pub struct CsEraseCommand {
    pub prefix: String,
    pub count: Option<u64>,
}

impl Clone for CsEraseCommand {
    fn clone(&self) -> (r: Self)
        ensures
            r == *self,
    {
        CsEraseCommand {
            prefix: self.prefix.clone(),
            count: self.count,
        }
    }
}

#[derive(Debug, PartialEq, Eq)]
pub struct ShutdownForwarderCommand {
    pub reason: String,
}

impl Clone for ShutdownForwarderCommand {
    fn clone(&self) -> (r: Self)
        ensures
            r == *self,
    {
        ShutdownForwarderCommand {
            reason: self.reason.clone(),
        }
    }
}

#[derive(Debug, PartialEq, Eq)]
pub struct ReconnectForwarderCommand {
    pub endpoint: String,
}

impl Clone for ReconnectForwarderCommand {
    fn clone(&self) -> (r: Self)
        ensures
            r == *self,
    {
        ReconnectForwarderCommand {
            endpoint: self.endpoint.clone(),
        }
    }
}

#[derive(Debug, PartialEq, Eq)]
pub enum TypedMutationCommand {
    FaceCreate(FaceCreateCommand),
    FaceDestroy(FaceDestroyCommand),
    RouteAdd(RouteAddCommand),
    RouteRemove(RouteRemoveCommand),
    StrategySet(StrategySetCommand),
    StrategyUnset(StrategyUnsetCommand),
    CsCapacity(CsCapacityCommand),
    CsErase(CsEraseCommand),
    ShutdownForwarder(ShutdownForwarderCommand),
    ReconnectForwarder(ReconnectForwarderCommand),
}

impl Clone for TypedMutationCommand {
    fn clone(&self) -> (r: Self)
        ensures
            r == *self,
    {
        match self {
            TypedMutationCommand::FaceCreate(c) => TypedMutationCommand::FaceCreate(c.clone()),
            TypedMutationCommand::FaceDestroy(c) => TypedMutationCommand::FaceDestroy(*c),
            TypedMutationCommand::RouteAdd(c) => TypedMutationCommand::RouteAdd(c.clone()),
            TypedMutationCommand::RouteRemove(c) => TypedMutationCommand::RouteRemove(c.clone()),
            TypedMutationCommand::StrategySet(c) => TypedMutationCommand::StrategySet(c.clone()),
            TypedMutationCommand::StrategyUnset(c) => TypedMutationCommand::StrategyUnset(
                c.clone(),
            ),
            TypedMutationCommand::CsCapacity(c) => TypedMutationCommand::CsCapacity(*c),
            TypedMutationCommand::CsErase(c) => TypedMutationCommand::CsErase(c.clone()),
            TypedMutationCommand::ShutdownForwarder(c) => TypedMutationCommand::ShutdownForwarder(
                c.clone(),
            ),
            TypedMutationCommand::ReconnectForwarder(c) => TypedMutationCommand::ReconnectForwarder(
                c.clone(),
            ),
        }
    }
}

/// A number where there is one, else a word.
pub open spec fn number_or(value: Option<u64>, word: Seq<char>) -> Seq<char> {
    match value {
        Some(inner) => number::decimal_text(inner as nat),
        None => word,
    }
}

/// A text where there is one, else another.
pub open spec fn text_or(value: Option<String>, word: Seq<char>) -> Seq<char> {
    match value {
        Some(inner) => inner@,
        None => word,
    }
}

fn show_number(value: Option<u64>, word: &str) -> (r: String)
    ensures
        r@ == number_or(value, word@),
{
    match value {
        Some(inner) => decimal(inner),
        None => word.to_string(),
    }
}

fn show_text(value: &Option<String>, word: &str) -> (r: String)
    ensures
        r@ == text_or(*value, word@),
{
    match value {
        Some(inner) => inner.clone(),
        None => word.to_string(),
    }
}

/// A route and the face that it goes through.
pub open spec fn route_target_text(prefix: Seq<char>, face_id: Option<u64>) -> Seq<char> {
    match face_id {
        Some(face_id) => prefix + " via face "@ + number::decimal_text(face_id as nat),
        None => prefix + " via requesting face"@,
    }
}

/// What erasing works on.
pub open spec fn erase_target_text(prefix: Seq<char>, count: Option<u64>) -> Seq<char> {
    match count {
        Some(count) => prefix + " limit "@ + number::decimal_text(count as nat),
        None => prefix + " all matches"@,
    }
}

/// What a shutdown works on, with its reason where there is one.
pub open spec fn shutdown_target_text(reason: Seq<char>) -> Seq<char> {
    if text::trimmed(reason).len() == 0 {
        "local forwarder"@
    } else {
        "local forwarder: "@ + text::trimmed(reason)
    }
}

fn route_target(prefix: &str, face_id: Option<u64>) -> (r: String)
    ensures
        r@ == route_target_text(prefix@, face_id),
{
    match face_id {
        Some(face_id) => prefix.to_string().concat(" via face ").concat(decimal(face_id).as_str()),
        None => prefix.to_string().concat(" via requesting face"),
    }
}

fn cs_erase_target(prefix: &str, count: Option<u64>) -> (r: String)
    ensures
        r@ == erase_target_text(prefix@, count),
{
    match count {
        Some(count) => prefix.to_string().concat(" limit ").concat(decimal(count).as_str()),
        None => prefix.to_string().concat(" all matches"),
    }
}

fn shutdown_target(reason: &str) -> (r: String)
    ensures
        r@ == shutdown_target_text(reason@),
{
    let reason = trim(reason);
    if reason.is_empty() {
        "local forwarder".to_string()
    } else {
        "local forwarder: ".to_string().concat(reason)
    }
}

impl TypedMutationCommand {
    /// The operation that a command carries out.
    pub open spec fn carries_out(self) -> MutationOperation {
        match self {
            TypedMutationCommand::FaceCreate(_) => MutationOperation::CreateFace,
            TypedMutationCommand::FaceDestroy(_) => MutationOperation::DestroyFace,
            TypedMutationCommand::RouteAdd(_) => MutationOperation::AddRoute,
            TypedMutationCommand::RouteRemove(_) => MutationOperation::RemoveRoute,
            TypedMutationCommand::StrategySet(_) => MutationOperation::SetStrategy,
            TypedMutationCommand::StrategyUnset(_) => MutationOperation::UnsetStrategy,
            TypedMutationCommand::CsCapacity(_) => MutationOperation::SetCsCapacity,
            TypedMutationCommand::CsErase(_) => MutationOperation::EraseCs,
            TypedMutationCommand::ShutdownForwarder(_) => MutationOperation::ShutdownForwarder,
            TypedMutationCommand::ReconnectForwarder(_) => MutationOperation::ReconnectForwarder,
        }
    }

    /// What a command works on.
    pub open spec fn target_text(self) -> Seq<char> {
        match self {
            TypedMutationCommand::FaceCreate(command) => command.uri@,
            TypedMutationCommand::FaceDestroy(command) => "face "@ + number::decimal_text(
                command.face_id as nat,
            ),
            TypedMutationCommand::RouteAdd(command) => route_target_text(
                command.prefix@,
                command.face_id,
            ),
            TypedMutationCommand::RouteRemove(command) => route_target_text(
                command.prefix@,
                command.face_id,
            ),
            TypedMutationCommand::StrategySet(command) => command.prefix@ + " -> "@
                + command.strategy@,
            TypedMutationCommand::StrategyUnset(command) => command.prefix@ + " strategy"@,
            TypedMutationCommand::CsCapacity(command) => number::decimal_text(
                command.capacity_bytes as nat,
            ) + " bytes"@,
            TypedMutationCommand::CsErase(command) => erase_target_text(
                command.prefix@,
                command.count,
            ),
            TypedMutationCommand::ShutdownForwarder(command) => shutdown_target_text(
                command.reason@,
            ),
            TypedMutationCommand::ReconnectForwarder(command) => command.endpoint@,
        }
    }

    /// The command can be repeated from a session.
    pub open spec fn can_replay(self) -> bool {
        !(self is ShutdownForwarder) && !(self is ReconnectForwarder)
    }

    /// The line of a session that stands for a command.
    pub open spec fn line_text(self) -> Seq<char> {
        match self {
            TypedMutationCommand::FaceCreate(command) => "face/create uri="@ + command.uri@
                + " mtu="@ + number_or(command.mtu, "auto"@),
            TypedMutationCommand::FaceDestroy(command) => "faces/destroy face_id="@
                + number::decimal_text(command.face_id as nat),
            TypedMutationCommand::RouteAdd(command) => "rib/register prefix="@ + command.prefix@
                + " face="@ + number_or(command.face_id, "requesting"@) + " cost="@
                + number::decimal_text(command.cost as nat),
            TypedMutationCommand::RouteRemove(command) => "rib/unregister prefix="@
                + command.prefix@ + " face="@ + number_or(command.face_id, "requesting"@),
            TypedMutationCommand::StrategySet(command) => "strategy-choice/set prefix="@
                + command.prefix@ + " strategy="@ + command.strategy@,
            TypedMutationCommand::StrategyUnset(command) => "strategy-choice/unset prefix="@
                + command.prefix@,
            TypedMutationCommand::CsCapacity(command) => "cs/config capacity="@
                + number::decimal_text(command.capacity_bytes as nat),
            TypedMutationCommand::CsErase(command) => "cs/erase prefix="@ + command.prefix@
                + " count="@ + number_or(command.count, "all"@),
            TypedMutationCommand::ShutdownForwarder(command) => "status/shutdown reason="@
                + text::trimmed(command.reason@),
            TypedMutationCommand::ReconnectForwarder(command) => "session/reconnect endpoint="@
                + command.endpoint@,
        }
    }

    pub fn operation(&self) -> (r: MutationOperation)
        ensures
            r == self.carries_out(),
    {
        match self {
            TypedMutationCommand::FaceCreate(_) => MutationOperation::CreateFace,
            TypedMutationCommand::FaceDestroy(_) => MutationOperation::DestroyFace,
            TypedMutationCommand::RouteAdd(_) => MutationOperation::AddRoute,
            TypedMutationCommand::RouteRemove(_) => MutationOperation::RemoveRoute,
            TypedMutationCommand::StrategySet(_) => MutationOperation::SetStrategy,
            TypedMutationCommand::StrategyUnset(_) => MutationOperation::UnsetStrategy,
            TypedMutationCommand::CsCapacity(_) => MutationOperation::SetCsCapacity,
            TypedMutationCommand::CsErase(_) => MutationOperation::EraseCs,
            TypedMutationCommand::ShutdownForwarder(_) => MutationOperation::ShutdownForwarder,
            TypedMutationCommand::ReconnectForwarder(_) => MutationOperation::ReconnectForwarder,
        }
    }

    pub fn target(&self) -> (r: String)
        ensures
            r@ == self.target_text(),
    {
        match self {
            TypedMutationCommand::FaceCreate(command) => command.uri.clone(),
            TypedMutationCommand::FaceDestroy(command) => "face ".to_string().concat(
                decimal(command.face_id).as_str(),
            ),
            TypedMutationCommand::RouteAdd(command) => route_target(
                command.prefix.as_str(),
                command.face_id,
            ),
            TypedMutationCommand::RouteRemove(command) => route_target(
                command.prefix.as_str(),
                command.face_id,
            ),
            TypedMutationCommand::StrategySet(command) => command.prefix.clone().concat(
                " -> ",
            ).concat(command.strategy.as_str()),
            TypedMutationCommand::StrategyUnset(command) => command.prefix.clone().concat(
                " strategy",
            ),
            TypedMutationCommand::CsCapacity(command) => decimal(command.capacity_bytes).concat(
                " bytes",
            ),
            TypedMutationCommand::CsErase(command) => cs_erase_target(
                command.prefix.as_str(),
                command.count,
            ),
            TypedMutationCommand::ShutdownForwarder(command) => shutdown_target(
                command.reason.as_str(),
            ),
            TypedMutationCommand::ReconnectForwarder(command) => command.endpoint.clone(),
        }
    }

    pub fn replayable(&self) -> (r: bool)
        ensures
            r == self.can_replay(),
    {
        !matches!(
            self,
            TypedMutationCommand::ShutdownForwarder(_)
                | TypedMutationCommand::ReconnectForwarder(_)
        )
    }

    pub fn session_line(&self) -> (r: String)
        ensures
            r@ == self.line_text(),
    {
        match self {
            TypedMutationCommand::FaceCreate(command) => "face/create uri=".to_string().concat(
                command.uri.as_str(),
            ).concat(" mtu=").concat(show_number(command.mtu, "auto").as_str()),
            TypedMutationCommand::FaceDestroy(command) => {
                "faces/destroy face_id=".to_string().concat(decimal(command.face_id).as_str())
            },
            TypedMutationCommand::RouteAdd(command) => "rib/register prefix=".to_string().concat(
                command.prefix.as_str(),
            ).concat(" face=").concat(show_number(command.face_id, "requesting").as_str()).concat(
                " cost=",
            ).concat(decimal(command.cost).as_str()),
            TypedMutationCommand::RouteRemove(command) => {
                "rib/unregister prefix=".to_string().concat(command.prefix.as_str()).concat(
                    " face=",
                ).concat(show_number(command.face_id, "requesting").as_str())
            },
            TypedMutationCommand::StrategySet(command) => {
                "strategy-choice/set prefix=".to_string().concat(command.prefix.as_str()).concat(
                    " strategy=",
                ).concat(command.strategy.as_str())
            },
            TypedMutationCommand::StrategyUnset(command) => {
                "strategy-choice/unset prefix=".to_string().concat(command.prefix.as_str())
            },
            TypedMutationCommand::CsCapacity(command) => "cs/config capacity=".to_string().concat(
                decimal(command.capacity_bytes).as_str(),
            ),
            TypedMutationCommand::CsErase(command) => "cs/erase prefix=".to_string().concat(
                command.prefix.as_str(),
            ).concat(" count=").concat(show_number(command.count, "all").as_str()),
            TypedMutationCommand::ShutdownForwarder(command) => {
                "status/shutdown reason=".to_string().concat(trim(command.reason.as_str()))
            },
            TypedMutationCommand::ReconnectForwarder(command) => {
                "session/reconnect endpoint=".to_string().concat(command.endpoint.as_str())
            },
        }
    }
}

#[derive(Debug, PartialEq, Eq)]
pub struct MutationSession {
    pub commands: Vec<TypedMutationCommand>,
}

impl Default for MutationSession {
    fn default() -> (r: Self)
        ensures
            r.commands@.len() == 0,
    {
        MutationSession { commands: Vec::new() }
    }
}

impl Clone for MutationSession {
    fn clone(&self) -> (r: Self)
        ensures
            r.commands@ == self.commands@,
    {
        let mut commands: Vec<TypedMutationCommand> = Vec::new();
        let mut i: usize = 0;
        while i < self.commands.len()
            invariant
                i <= self.commands@.len(),
                commands@ == self.commands@.take(i as int),
            decreases self.commands@.len() - i,
        {
            commands.push(self.commands[i].clone());
            i = i + 1;
            assert(commands@ =~= self.commands@.take(i as int));
        }
        assert(self.commands@.take(i as int) =~= self.commands@);
        MutationSession { commands }
    }
}

impl MutationSession {
    pub fn record(&mut self, command: TypedMutationCommand)
        ensures
            final(self).commands@ == (if command.can_replay() {
                old(self).commands@.push(command)
            } else {
                old(self).commands@
            }),
    {
        if command.replayable() {
            self.commands.push(command);
        }
    }

    pub fn export_lines(&self) -> (r: Vec<String>)
        ensures
            text::string_texts(r@) == self.commands@.map_values(
                |command: TypedMutationCommand| command.line_text(),
            ),
    {
        let mut lines: Vec<String> = Vec::new();
        let mut i: usize = 0;
        while i < self.commands.len()
            invariant
                i <= self.commands@.len(),
                lines@.len() == i,
                forall|k: int|
                    0 <= k < i ==> (#[trigger] lines@[k])@ == self.commands@[k].line_text(),
            decreases self.commands@.len() - i,
        {
            lines.push(self.commands[i].session_line());
            i = i + 1;
        }
        assert(text::string_texts(lines@) =~= self.commands@.map_values(
            |command: TypedMutationCommand| command.line_text(),
        ));
        lines
    }
}

/// Every command of a session can be repeated.
pub open spec fn all_replayable(commands: Seq<TypedMutationCommand>) -> bool {
    forall|i: int| 0 <= i < commands.len() ==> (#[trigger] commands[i]).can_replay()
}

/// A session starts with commands that can all be repeated, and recording keeps
/// it so.
pub proof fn session_stays_replayable(
    before: Seq<TypedMutationCommand>,
    command: TypedMutationCommand,
    after: Seq<TypedMutationCommand>,
)
    requires
        all_replayable(before),
        after == (if command.can_replay() {
            before.push(command)
        } else {
            before
        }),
    ensures
        all_replayable(Seq::empty()),
        all_replayable(after),
{
}

// ---------------------------------------------------------------------------
// Preflight
// ---------------------------------------------------------------------------

/// The target takes management writes.
pub open spec fn target_check(state: FeatureState) -> CheckText {
    CheckText {
        label: "target"@,
        passed: state is Enabled,
        detail: match state {
            FeatureState::Enabled => "management writes supported"@,
            FeatureState::ReadOnly => "compatible target is read-only in dashboard-next"@,
            _ => "management writes are "@ + state.label_text(),
        },
    }
}

/// The target has the native mutation surface.
pub open spec fn native_check(state: FeatureState) -> CheckText {
    CheckText {
        label: "native"@,
        passed: state is Enabled,
        detail: match state {
            FeatureState::Enabled => "ndn-rs native mutation surface available"@,
            FeatureState::Degraded => "native mutation surface is sandbox-limited"@,
            _ => "native mutation surface is "@ + state.label_text(),
        },
    }
}

/// The target has the trust context.
pub open spec fn trust_check(state: FeatureState) -> CheckText {
    CheckText {
        label: "trust context"@,
        passed: state is Enabled,
        detail: match state {
            FeatureState::Enabled => "TrustContext API available"@,
            FeatureState::Degraded => "TrustContext API is degraded; mutation stays disabled"@,
            _ => "TrustContext API is "@ + state.label_text(),
        },
    }
}

/// The command can be signed.
pub open spec fn signature_check(trust: TrustPosture) -> CheckText {
    CheckText {
        label: "signature"@,
        passed: trust is Valid || trust is Weakened,
        detail: match trust {
            TrustPosture::Valid => "active signing identity is trusted"@,
            TrustPosture::Weakened => "signed command possible, but schema review is required"@,
            TrustPosture::Ephemeral => {
                "identity must be persisted before signing management commands"@
            },
            TrustPosture::Expired => "certificate is expired"@,
            TrustPosture::NoIdentity => "no signing identity is available"@,
            TrustPosture::Unsupported => "target has no TrustContext-backed signing posture"@,
            TrustPosture::Error => "trust error must be resolved before signing"@,
        },
    }
}

/// Why the platform does not carry an operation; nothing where it does.
pub open spec fn platform_blocker(
    profile: ForwarderProfile,
    operation: MutationOperation,
) -> Option<Seq<char>> {
    let mode = profile.attach_mode;
    if operation.writes_tables() && !(mode is LocalDesktop) {
        Some("browser/relay mutation transport adapter is not wired yet"@)
    } else if operation is ShutdownForwarder && mode is RemoteWeb {
        Some("remote browser attach cannot shut down the forwarder"@)
    } else if operation is ShutdownForwarder && mode is BrowserEngine {
        Some("browser engine sessions are stopped by closing the runtime"@)
    } else if operation is ImportSafeBag && mode is BrowserEngine {
        Some("browser SafeBag import requires an external custodian handoff"@)
    } else if operation is ReconnectForwarder {
        None
    } else if profile.kind is Unknown {
        Some("attach target is unknown"@)
    } else {
        None
    }
}

/// The platform carries the operation.
pub open spec fn platform_check(
    profile: ForwarderProfile,
    operation: MutationOperation,
) -> CheckText {
    CheckText {
        label: "platform"@,
        passed: platform_blocker(profile, operation) is None,
        detail: match platform_blocker(profile, operation) {
            Some(blocker) => blocker,
            None => if operation is ReconnectForwarder {
                "reconnect is a dashboard session action"@
            } else {
                "platform path is available"@
            },
        },
    }
}

/// A check that is made under a condition.
pub open spec fn check_if(needed: bool, check: CheckText) -> Seq<CheckText> {
    if needed {
        seq![check]
    } else {
        seq![]
    }
}

/// The checks of an operation, in their order.
pub open spec fn checks_of(
    profile: ForwarderProfile,
    trust: TrustPosture,
    operation: MutationOperation,
) -> Seq<CheckText> {
    seq![target_check(profile.capabilities.nfd_basic)] + check_if(
        operation.uses_native(),
        native_check(profile.capabilities.ndnrs_native),
    ) + check_if(
        operation.uses_trust_context(),
        trust_check(profile.capabilities.trust_context),
    ) + check_if(!(operation is ReconnectForwarder), signature_check(trust)) + seq![
        platform_check(profile, operation),
    ]
}

/// Every check passed.
pub open spec fn all_passed(checks: Seq<CheckText>) -> bool {
    forall|i: int| 0 <= i < checks.len() ==> (#[trigger] checks[i]).passed
}

/// The status of an operation after its checks.
pub open spec fn status_after(
    checks: Seq<CheckText>,
    operation: MutationOperation,
) -> PreflightStatus {
    if !all_passed(checks) {
        PreflightStatus::Blocked
    } else if operation.destroys() || operation.changes_trust() {
        PreflightStatus::NeedsConfirmation
    } else {
        PreflightStatus::Ready
    }
}

impl MutationPreflight {
    /// The preflight of an operation on a profile.
    pub open spec fn is_of(
        self,
        profile: ForwarderProfile,
        trust: TrustPosture,
        operation: MutationOperation,
    ) -> bool {
        let checks = checks_of(profile, trust, operation);
        &&& self.operation == operation
        &&& check_texts(self.checks@) == checks
        &&& self.status == status_after(checks, operation)
    }
}

fn platform_obstacle(profile: &ForwarderProfile, operation: MutationOperation) -> (r: Option<
    &'static str,
>)
    ensures
        r is Some <==> platform_blocker(*profile, operation) is Some,
        r matches Some(detail) ==> platform_blocker(*profile, operation) == Some(detail@),
{
    match (profile.attach_mode, operation) {
        (
            AttachMode::BrowserEngine | AttachMode::RemoteWeb | AttachMode::Relay,
            MutationOperation::CreateFace
            | MutationOperation::DestroyFace
            | MutationOperation::AddRoute
            | MutationOperation::RemoveRoute
            | MutationOperation::SetStrategy
            | MutationOperation::UnsetStrategy
            | MutationOperation::SetCsCapacity
            | MutationOperation::EraseCs,
        ) => Some("browser/relay mutation transport adapter is not wired yet"),
        (AttachMode::RemoteWeb, MutationOperation::ShutdownForwarder) => Some(
            "remote browser attach cannot shut down the forwarder",
        ),
        (AttachMode::BrowserEngine, MutationOperation::ShutdownForwarder) => Some(
            "browser engine sessions are stopped by closing the runtime",
        ),
        (AttachMode::BrowserEngine, MutationOperation::ImportSafeBag) => Some(
            "browser SafeBag import requires an external custodian handoff",
        ),
        (_, MutationOperation::ReconnectForwarder) => None,
        _ => {
            if profile.kind == ForwarderKind::Unknown {
                Some("attach target is unknown")
            } else {
                None
            }
        },
    }
}

fn push_check(checks: &mut Vec<PreflightCheck>, check: PreflightCheck)
    ensures
        check_texts(final(checks)@) == check_texts(old(checks)@) + seq![check@],
{
    let ghost before = checks@;
    let ghost added = check@;
    checks.push(check);
    assert(check_texts(checks@) =~= check_texts(before) + seq![added]);
}

pub fn preflight_mutation(
    profile: &ForwarderProfile,
    trust: TrustPosture,
    operation: MutationOperation,
) -> (r: MutationPreflight)
    ensures
        r.is_of(*profile, trust, operation),
{
    let mut checks: Vec<PreflightCheck> = Vec::new();
    let capabilities = profile.capabilities;
    push_check(
        &mut checks,
        PreflightCheck {
            label: "target",
            passed: capabilities.nfd_basic == FeatureState::Enabled,
            detail: match capabilities.nfd_basic {
                FeatureState::Enabled => "management writes supported".to_string(),
                FeatureState::ReadOnly => {
                    "compatible target is read-only in dashboard-next".to_string()
                },
                state => "management writes are ".to_string().concat(state.label()),
            },
        },
    );
    if operation.requires_ndnrs_native() {
        push_check(
            &mut checks,
            PreflightCheck {
                label: "native",
                passed: capabilities.ndnrs_native == FeatureState::Enabled,
                detail: match capabilities.ndnrs_native {
                    FeatureState::Enabled => "ndn-rs native mutation surface available".to_string(),
                    FeatureState::Degraded => {
                        "native mutation surface is sandbox-limited".to_string()
                    },
                    state => "native mutation surface is ".to_string().concat(state.label()),
                },
            },
        );
    }
    if operation.requires_trust_context() {
        push_check(
            &mut checks,
            PreflightCheck {
                label: "trust context",
                passed: capabilities.trust_context == FeatureState::Enabled,
                detail: match capabilities.trust_context {
                    FeatureState::Enabled => "TrustContext API available".to_string(),
                    FeatureState::Degraded => {
                        "TrustContext API is degraded; mutation stays disabled".to_string()
                    },
                    state => "TrustContext API is ".to_string().concat(state.label()),
                },
            },
        );
    }
    if operation.requires_signed_management() {
        let detail = match trust {
            TrustPosture::Valid => "active signing identity is trusted",
            TrustPosture::Weakened => "signed command possible, but schema review is required",
            TrustPosture::Ephemeral => {
                "identity must be persisted before signing management commands"
            },
            TrustPosture::Expired => "certificate is expired",
            TrustPosture::NoIdentity => "no signing identity is available",
            TrustPosture::Unsupported => "target has no TrustContext-backed signing posture",
            TrustPosture::Error => "trust error must be resolved before signing",
        };
        push_check(
            &mut checks,
            PreflightCheck {
                label: "signature",
                passed: matches!(trust, TrustPosture::Valid | TrustPosture::Weakened),
                detail: detail.to_string(),
            },
        );
    }
    let obstacle = platform_obstacle(profile, operation);
    let detail = match obstacle {
        Some(detail) => detail,
        None => {
            if matches!(operation, MutationOperation::ReconnectForwarder) {
                "reconnect is a dashboard session action"
            } else {
                "platform path is available"
            }
        },
    };
    push_check(
        &mut checks,
        PreflightCheck {
            label: "platform",
            passed: obstacle.is_none(),
            detail: detail.to_string(),
        },
    );
    assert(check_texts(checks@) =~= checks_of(*profile, trust, operation));
    let mut blocked = false;
    let mut i: usize = 0;
    while i < checks.len()
        invariant
            i <= checks@.len(),
            blocked == !(forall|k: int| 0 <= k < i ==> (#[trigger] check_texts(checks@)[k]).passed),
        decreases checks@.len() - i,
    {
        assert(check_texts(checks@)[i as int].passed == checks@[i as int].passed);
        if !checks[i].passed {
            blocked = true;
        }
        i = i + 1;
    }
    let status = if blocked {
        PreflightStatus::Blocked
    } else if operation.is_destructive() || matches!(
        operation,
        MutationOperation::AdoptTrustContext
            | MutationOperation::EnrollCertificate
            | MutationOperation::ApproveTrustRequest
            | MutationOperation::RejectTrustRequest
    ) {
        PreflightStatus::NeedsConfirmation
    } else {
        PreflightStatus::Ready
    };
    MutationPreflight { operation, status, checks }
}

/// An operation is blocked exactly where one of its checks failed, and can be
/// executed exactly where all of them passed.
pub proof fn blocked_means_a_failed_check(
    preflight: MutationPreflight,
    profile: ForwarderProfile,
    trust: TrustPosture,
    operation: MutationOperation,
)
    requires
        preflight.is_of(profile, trust, operation),
    ensures
        preflight.status is Blocked <==> exists|i: int|
            0 <= i < preflight.checks@.len() && !(#[trigger] preflight.checks@[i]).passed,
{
    let checks = check_texts(preflight.checks@);
    assert(checks.len() == preflight.checks@.len());
    if exists|i: int| 0 <= i < preflight.checks@.len() && !(#[trigger] preflight.checks@[i]).passed {
        let i = choose|i: int|
            0 <= i < preflight.checks@.len() && !(#[trigger] preflight.checks@[i]).passed;
        assert(!checks[i].passed);
    }
    if !all_passed(checks) {
        let i = choose|i: int| 0 <= i < checks.len() && !(#[trigger] checks[i]).passed;
        assert(!preflight.checks@[i].passed);
    }
}

/// What can be read off a profile without running its checks: a target that
/// does not take writes blocks everything, and without a signing identity only
/// a reconnect goes through.
pub proof fn gates_hold_for_every_operation(
    preflight: MutationPreflight,
    profile: ForwarderProfile,
    trust: TrustPosture,
    operation: MutationOperation,
)
    requires
        preflight.is_of(profile, trust, operation),
    ensures
        !(profile.capabilities.nfd_basic is Enabled) ==> preflight.status is Blocked,
        !(trust is Valid || trust is Weakened) && !(operation is ReconnectForwarder)
            ==> preflight.status is Blocked,
        operation.uses_trust_context() && !(profile.capabilities.trust_context is Enabled)
            ==> preflight.status is Blocked,
        operation.writes_tables() && !(profile.attach_mode is LocalDesktop)
            ==> preflight.status is Blocked,
        operation.destroys() ==> !(preflight.status is Ready),
{
    let checks = checks_of(profile, trust, operation);
    assert(checks[0] == target_check(profile.capabilities.nfd_basic));
    assert(checks[checks.len() - 1] == platform_check(profile, operation));
    if !(operation is ReconnectForwarder) {
        assert(checks[checks.len() - 2] == signature_check(trust));
        if operation.uses_trust_context() {
            assert(checks[checks.len() - 3] == trust_check(profile.capabilities.trust_context));
        }
    }
}

// ---------------------------------------------------------------------------
// Records
// ---------------------------------------------------------------------------

#[derive(Debug, PartialEq, Eq)]
pub struct MutationRecord {
    pub operation: MutationOperation,
    pub target: String,
    pub status: MutationStatus,
    pub result: String,
    pub preflight: MutationPreflight,
    pub command: Option<TypedMutationCommand>,
    pub attempts: u8,
}

impl Clone for MutationRecord {
    fn clone(&self) -> (r: Self)
        ensures
            r.operation == self.operation,
            r.target == self.target,
            r.status == self.status,
            r.result == self.result,
            r.preflight.same_as(self.preflight),
            r.command == self.command,
            r.attempts == self.attempts,
    {
        MutationRecord {
            operation: self.operation,
            target: self.target.clone(),
            status: self.status,
            result: self.result.clone(),
            preflight: self.preflight.clone(),
            command: match &self.command {
                Some(command) => Some(command.clone()),
                None => None,
            },
            attempts: self.attempts,
        }
    }
}

impl MutationRecord {
    /// The record with these parts.
    pub open spec fn is(
        self,
        operation: MutationOperation,
        target: Seq<char>,
        status: MutationStatus,
        result: Seq<char>,
        preflight: MutationPreflight,
        attempts: u8,
    ) -> bool {
        &&& self.operation == operation
        &&& self.target@ == target
        &&& self.status == status
        &&& self.result@ == result
        &&& self.preflight == preflight
        &&& self.attempts == attempts
    }

    pub fn pending(operation: MutationOperation, target: &str, preflight: MutationPreflight) -> (r:
        Self)
        ensures
            r.is(operation, target@, MutationStatus::Pending, "queued"@, preflight, 0),
            r.command is None,
    {
        MutationRecord {
            operation,
            target: target.to_string(),
            status: MutationStatus::Pending,
            result: "queued".to_string(),
            preflight,
            command: None,
            attempts: 0,
        }
    }

    pub fn for_command(command: TypedMutationCommand, preflight: MutationPreflight) -> (r: Self)
        ensures
            r.is(
                command.carries_out(),
                command.target_text(),
                MutationStatus::Pending,
                "queued"@,
                preflight,
                0,
            ),
            r.command == Some(command),
    {
        MutationRecord {
            operation: command.operation(),
            target: command.target(),
            status: MutationStatus::Pending,
            result: "queued".to_string(),
            preflight,
            command: Some(command),
            attempts: 0,
        }
    }

    pub fn running(self) -> (r: Self)
        ensures
            r.is(
                self.operation,
                self.target@,
                MutationStatus::Running,
                "executing management command"@,
                self.preflight,
                (if self.attempts < 255 {
                    self.attempts + 1
                } else {
                    255
                }) as u8,
            ),
            r.command == self.command,
    {
        let mut record = self;
        record.status = MutationStatus::Running;
        record.result = "executing management command".to_string();
        record.attempts = record.attempts.saturating_add(1);
        record
    }

    /// The record of an operation that ended with this status and result.
    fn ended(
        operation: MutationOperation,
        target: String,
        status: MutationStatus,
        result: String,
        preflight: MutationPreflight,
        attempts: u8,
    ) -> (r: Self)
        ensures
            r.is(operation, target@, status, result@, preflight, attempts),
            r.command is None,
    {
        MutationRecord { operation, target, status, result, preflight, command: None, attempts }
    }
}

// ---------------------------------------------------------------------------
// Execution
// ---------------------------------------------------------------------------

/// A mutation whose checks have passed, ready to be sent.
#[derive(Debug, PartialEq, Eq)]
pub struct ReadyMutation {
    pub command: TypedMutationCommand,
    pub preflight: MutationPreflight,
    pub socket: String,
}

/// What executing a mutation comes down to.
#[derive(Debug, PartialEq, Eq)]
pub enum MutationStep {
    /// The record is known, and no management command is sent.
    Done(MutationRecord),
    /// The command is to be sent over the socket.
    Send(ReadyMutation),
}

/// What executing a command comes down to: a blocked one is recorded as such, a
/// reconnect is complete at once, and any other is sent.
pub open spec fn leads_to(
    r: MutationStep,
    profile: ForwarderProfile,
    trust: TrustPosture,
    command: TypedMutationCommand,
) -> bool {
    let operation = command.carries_out();
    let status = status_after(checks_of(profile, trust, operation), operation);
    match r {
        MutationStep::Done(record) => {
            &&& record.preflight.is_of(profile, trust, operation)
            &&& record.command is None
            &&& if status is Blocked {
                record.is(
                    operation,
                    command.target_text(),
                    MutationStatus::Blocked,
                    PreflightStatus::Blocked.summary_text(),
                    record.preflight,
                    0,
                )
            } else {
                command is ReconnectForwarder && record.is(
                    operation,
                    command.target_text(),
                    MutationStatus::Complete,
                    "reconnect requested; attach probe will refresh dashboard state"@,
                    record.preflight,
                    1,
                )
            }
        },
        MutationStep::Send(ready) => {
            &&& !(status is Blocked)
            &&& !(command is ReconnectForwarder)
            &&& ready.command == command
            &&& ready.preflight.is_of(profile, trust, operation)
            &&& ready.socket@ == model::socket_text(profile.endpoint@)
        },
    }
}

/// Decides whether a mutation is sent: blocked ones are recorded as such, and
/// a reconnect is a matter of the dashboard alone.
pub fn begin_mutation(
    profile: &ForwarderProfile,
    trust: TrustPosture,
    command: TypedMutationCommand,
) -> (r: MutationStep)
    ensures
        leads_to(r, *profile, trust, command),
{
    if let TypedMutationCommand::ReconnectForwarder(command) = command {
        return MutationStep::Done(execute_reconnect_forwarder(profile, trust, command));
    }
    let operation = command.operation();
    let preflight = preflight_mutation(profile, trust, operation);
    if !preflight.can_execute() {
        let result = preflight.summary().to_string();
        return MutationStep::Done(
            MutationRecord::ended(
                operation,
                command.target(),
                MutationStatus::Blocked,
                result,
                preflight,
                0,
            ),
        );
    }
    MutationStep::Send(
        ReadyMutation { command, preflight, socket: socket_path(profile.endpoint.as_str()) },
    )
}

/// Records a reconnect, which is a matter of the dashboard alone.
pub fn execute_reconnect_forwarder(
    profile: &ForwarderProfile,
    trust: TrustPosture,
    command: ReconnectForwarderCommand,
) -> (r: MutationRecord)
    ensures
        r.preflight.is_of(*profile, trust, MutationOperation::ReconnectForwarder),
        r.command is None,
        ({
            let operation = MutationOperation::ReconnectForwarder;
            if status_after(checks_of(*profile, trust, operation), operation) is Blocked {
                r.is(
                    operation,
                    command.endpoint@,
                    MutationStatus::Blocked,
                    PreflightStatus::Blocked.summary_text(),
                    r.preflight,
                    0,
                )
            } else {
                r.is(
                    operation,
                    command.endpoint@,
                    MutationStatus::Complete,
                    "reconnect requested; attach probe will refresh dashboard state"@,
                    r.preflight,
                    1,
                )
            }
        }),
{
    let operation = MutationOperation::ReconnectForwarder;
    let preflight = preflight_mutation(profile, trust, operation);
    if !preflight.can_execute() {
        let result = preflight.summary().to_string();
        return MutationRecord::ended(
            operation,
            command.endpoint,
            MutationStatus::Blocked,
            result,
            preflight,
            0,
        );
    }
    MutationRecord::ended(
        operation,
        command.endpoint,
        MutationStatus::Complete,
        "reconnect requested; attach probe will refresh dashboard state".to_string(),
        preflight,
        1,
    )
}

/// The parameters that a forwarder answers a command with.
#[derive(Debug, PartialEq, Eq)]
pub struct ManagementReply {
    pub face_id: Option<u64>,
    pub uri: Option<String>,
    pub name: Option<String>,
    pub strategy: Option<String>,
    pub cost: Option<u64>,
    pub capacity: Option<u64>,
    pub count: Option<u64>,
    pub status_text: String,
}

/// What came of sending a command.
#[derive(Debug, PartialEq, Eq)]
pub enum ManagementOutcome {
    /// There is no local socket to send over.
    NoAdapter,
    /// The prefix of the command is no name.
    InvalidPrefix(String),
    /// The strategy of the command is no name.
    InvalidStrategy(String),
    /// The socket could not be connected.
    ConnectFailed(String),
    /// The forwarder refused the command or did not answer.
    Refused(String),
    /// The forwarder accepted the command.
    Accepted(ManagementReply),
}

/// What is recorded of an accepted command. What the forwarder does not repeat
/// is taken from the command.
pub open spec fn accepted_text(command: TypedMutationCommand, reply: ManagementReply) -> Seq<char> {
    match command {
        TypedMutationCommand::FaceCreate(_) => "face "@ + number_or(reply.face_id, "unknown"@)
            + " created"@ + (match reply.uri {
            Some(uri) => " for "@ + uri@,
            None => seq![],
        }),
        TypedMutationCommand::FaceDestroy(command) => "face "@ + number_or(
            reply.face_id,
            number::decimal_text(command.face_id as nat),
        ) + " destroyed"@,
        TypedMutationCommand::RouteAdd(command) => "route "@ + text_or(reply.name, command.prefix@)
            + " registered via face "@ + number_or(reply.face_id, "requesting"@) + " cost "@
            + number_or(reply.cost, number::decimal_text(command.cost as nat)),
        TypedMutationCommand::RouteRemove(command) => "route "@ + text_or(
            reply.name,
            command.prefix@,
        ) + " unregistered from face "@ + number_or(reply.face_id, "requesting"@),
        TypedMutationCommand::StrategySet(command) => "strategy "@ + text_or(
            reply.strategy,
            command.strategy@,
        ) + " set for "@ + text_or(reply.name, command.prefix@),
        TypedMutationCommand::StrategyUnset(command) => "strategy unset for "@ + text_or(
            reply.name,
            command.prefix@,
        ),
        TypedMutationCommand::CsCapacity(command) => "CS capacity set to "@ + number_or(
            reply.capacity,
            number::decimal_text(command.capacity_bytes as nat),
        ) + " bytes"@,
        TypedMutationCommand::CsErase(command) => "erased "@ + number_or(reply.count, "0"@)
            + " CS entries under "@ + text_or(reply.name, command.prefix@),
        TypedMutationCommand::ShutdownForwarder(_) => "shutdown accepted: "@ + reply.status_text@,
        TypedMutationCommand::ReconnectForwarder(_) => {
            "reconnect requested; attach probe will refresh dashboard state"@
        },
    }
}

/// The management verb that a command is sent as.
pub open spec fn verb_text(command: TypedMutationCommand) -> Seq<char> {
    match command {
        TypedMutationCommand::FaceCreate(_) => "faces/create"@,
        TypedMutationCommand::FaceDestroy(_) => "faces/destroy"@,
        TypedMutationCommand::RouteAdd(_) => "rib/register"@,
        TypedMutationCommand::RouteRemove(_) => "rib/unregister"@,
        TypedMutationCommand::StrategySet(_) => "strategy-choice/set"@,
        TypedMutationCommand::StrategyUnset(_) => "strategy-choice/unset"@,
        TypedMutationCommand::CsCapacity(_) => "cs/config"@,
        TypedMutationCommand::CsErase(_) => "cs/erase"@,
        TypedMutationCommand::ShutdownForwarder(_) => "status/shutdown"@,
        TypedMutationCommand::ReconnectForwarder(_) => "session/reconnect"@,
    }
}

/// The status that an outcome is recorded with. A socket that cannot be
/// connected can be tried again, and so can a shutdown that was refused.
pub open spec fn outcome_status(
    command: TypedMutationCommand,
    outcome: ManagementOutcome,
) -> MutationStatus {
    match outcome {
        ManagementOutcome::NoAdapter => MutationStatus::Failed,
        ManagementOutcome::InvalidPrefix(_) => MutationStatus::Failed,
        ManagementOutcome::InvalidStrategy(_) => MutationStatus::Failed,
        ManagementOutcome::ConnectFailed(_) => MutationStatus::Retryable,
        ManagementOutcome::Refused(_) => if command is ShutdownForwarder {
            MutationStatus::Retryable
        } else {
            MutationStatus::Failed
        },
        ManagementOutcome::Accepted(_) => MutationStatus::Complete,
    }
}

/// What is recorded of an outcome.
pub open spec fn outcome_text(
    command: TypedMutationCommand,
    socket: Seq<char>,
    outcome: ManagementOutcome,
) -> Seq<char> {
    match outcome {
        ManagementOutcome::NoAdapter => "desktop IPC adapter is unavailable in browser builds"@,
        ManagementOutcome::InvalidPrefix(error) => "invalid prefix: "@ + error@,
        ManagementOutcome::InvalidStrategy(error) => "invalid strategy name: "@ + error@,
        ManagementOutcome::ConnectFailed(error) => "connect "@ + socket + ": "@ + error@,
        ManagementOutcome::Refused(error) => verb_text(command) + " failed: "@ + error@,
        ManagementOutcome::Accepted(reply) => accepted_text(command, reply),
    }
}

fn management_verb(command: &TypedMutationCommand) -> (r: &'static str)
    ensures
        r@ == verb_text(*command),
{
    match command {
        TypedMutationCommand::FaceCreate(_) => "faces/create",
        TypedMutationCommand::FaceDestroy(_) => "faces/destroy",
        TypedMutationCommand::RouteAdd(_) => "rib/register",
        TypedMutationCommand::RouteRemove(_) => "rib/unregister",
        TypedMutationCommand::StrategySet(_) => "strategy-choice/set",
        TypedMutationCommand::StrategyUnset(_) => "strategy-choice/unset",
        TypedMutationCommand::CsCapacity(_) => "cs/config",
        TypedMutationCommand::CsErase(_) => "cs/erase",
        TypedMutationCommand::ShutdownForwarder(_) => "status/shutdown",
        TypedMutationCommand::ReconnectForwarder(_) => "session/reconnect",
    }
}

fn accepted_result(command: &TypedMutationCommand, reply: &ManagementReply) -> (r: String)
    ensures
        r@ == accepted_text(*command, *reply),
{
    match command {
        TypedMutationCommand::FaceCreate(_) => {
            let created = "face ".to_string().concat(
                show_number(reply.face_id, "unknown").as_str(),
            ).concat(" created");
            match &reply.uri {
                Some(uri) => {
                    let suffix = " for ".to_string().concat(uri.as_str());
                    created.concat(suffix.as_str())
                },
                None => {
                    assert(created@ + Seq::<char>::empty() =~= created@);
                    created
                },
            }
        },
        TypedMutationCommand::FaceDestroy(command) => "face ".to_string().concat(
            show_number(reply.face_id, decimal(command.face_id).as_str()).as_str(),
        ).concat(" destroyed"),
        TypedMutationCommand::RouteAdd(command) => "route ".to_string().concat(
            show_text(&reply.name, command.prefix.as_str()).as_str(),
        ).concat(" registered via face ").concat(
            show_number(reply.face_id, "requesting").as_str(),
        ).concat(" cost ").concat(
            show_number(reply.cost, decimal(command.cost).as_str()).as_str(),
        ),
        TypedMutationCommand::RouteRemove(command) => "route ".to_string().concat(
            show_text(&reply.name, command.prefix.as_str()).as_str(),
        ).concat(" unregistered from face ").concat(
            show_number(reply.face_id, "requesting").as_str(),
        ),
        TypedMutationCommand::StrategySet(command) => "strategy ".to_string().concat(
            show_text(&reply.strategy, command.strategy.as_str()).as_str(),
        ).concat(" set for ").concat(show_text(&reply.name, command.prefix.as_str()).as_str()),
        TypedMutationCommand::StrategyUnset(command) => "strategy unset for ".to_string().concat(
            show_text(&reply.name, command.prefix.as_str()).as_str(),
        ),
        TypedMutationCommand::CsCapacity(command) => "CS capacity set to ".to_string().concat(
            show_number(reply.capacity, decimal(command.capacity_bytes).as_str()).as_str(),
        ).concat(" bytes"),
        TypedMutationCommand::CsErase(command) => "erased ".to_string().concat(
            show_number(reply.count, "0").as_str(),
        ).concat(" CS entries under ").concat(
            show_text(&reply.name, command.prefix.as_str()).as_str(),
        ),
        TypedMutationCommand::ShutdownForwarder(_) => "shutdown accepted: ".to_string().concat(
            reply.status_text.as_str(),
        ),
        TypedMutationCommand::ReconnectForwarder(_) => {
            "reconnect requested; attach probe will refresh dashboard state".to_string()
        },
    }
}

impl MutationRecord {
    /// The record of what came of sending a mutation.
    pub open spec fn records(self, ready: ReadyMutation, outcome: ManagementOutcome) -> bool {
        &&& self.is(
            ready.command.carries_out(),
            ready.command.target_text(),
            outcome_status(ready.command, outcome),
            outcome_text(ready.command, ready.socket@, outcome),
            ready.preflight,
            1,
        )
        &&& self.command is None
    }
}

/// Records what came of sending a mutation.
pub fn finish_mutation(ready: ReadyMutation, outcome: ManagementOutcome) -> (r: MutationRecord)
    ensures
        r.records(ready, outcome),
{
    let operation = ready.command.operation();
    let target = ready.command.target();
    let (status, result) = match &outcome {
        ManagementOutcome::NoAdapter => (
            MutationStatus::Failed,
            "desktop IPC adapter is unavailable in browser builds".to_string(),
        ),
        ManagementOutcome::InvalidPrefix(error) => (
            MutationStatus::Failed,
            "invalid prefix: ".to_string().concat(error.as_str()),
        ),
        ManagementOutcome::InvalidStrategy(error) => (
            MutationStatus::Failed,
            "invalid strategy name: ".to_string().concat(error.as_str()),
        ),
        ManagementOutcome::ConnectFailed(error) => (
            MutationStatus::Retryable,
            "connect ".to_string().concat(ready.socket.as_str()).concat(": ").concat(
                error.as_str(),
            ),
        ),
        ManagementOutcome::Refused(error) => (
            if matches!(ready.command, TypedMutationCommand::ShutdownForwarder(_)) {
                MutationStatus::Retryable
            } else {
                MutationStatus::Failed
            },
            management_verb(&ready.command).to_string().concat(" failed: ").concat(error.as_str()),
        ),
        ManagementOutcome::Accepted(reply) => (
            MutationStatus::Complete,
            accepted_result(&ready.command, reply),
        ),
    };
    MutationRecord::ended(operation, target, status, result, ready.preflight, 1)
}

// ---------------------------------------------------------------------------
// Laws
// ---------------------------------------------------------------------------

/// What takes something away, and what changes whom the forwarder trusts, is
/// never ready without the operator's word; what only adds or sets is ready as
/// soon as its checks have passed.
pub proof fn confirmation_guards_what_takes_away(
    preflight: MutationPreflight,
    profile: ForwarderProfile,
    trust: TrustPosture,
    operation: MutationOperation,
)
    requires
        preflight.is_of(profile, trust, operation),
    ensures
        preflight.operation == operation,
        operation is DestroyFace || operation is RemoveRoute || operation is UnsetStrategy
            || operation is EraseCs || operation is ShutdownForwarder || operation is ImportSafeBag
            || operation is ReviewSchemaChange || operation is AdoptTrustContext
            || operation is EnrollCertificate || operation is ApproveTrustRequest
            || operation is RejectTrustRequest ==> !(preflight.status is Ready) && ((forall|i: int|
            0 <= i < preflight.checks@.len() ==> (#[trigger] preflight.checks@[i]).passed)
            ==> preflight.status is NeedsConfirmation),
        operation is CreateFace || operation is AddRoute || operation is SetStrategy
            || operation is SetCsCapacity || operation is ReconnectForwarder ==> !(
        preflight.status is NeedsConfirmation) && ((forall|i: int|
            0 <= i < preflight.checks@.len() ==> (#[trigger] preflight.checks@[i]).passed)
            ==> preflight.status is Ready),
{
    blocked_means_a_failed_check(preflight, profile, trust, operation);
}

/// When an operation goes through, read off the profile and the trust alone:
/// the target takes writes; what changes trust or the schema has the native
/// extensions and the trust context, and a SafeBag has the trust context; all
/// but a reconnect can be signed; tables are written over the local socket
/// only; a browser neither stops a forwarder nor imports keys into its own
/// engine; and but for a reconnect the kind of the target is known.
pub proof fn operation_goes_through_exactly_when(
    preflight: MutationPreflight,
    profile: ForwarderProfile,
    trust: TrustPosture,
    operation: MutationOperation,
)
    requires
        preflight.is_of(profile, trust, operation),
    ensures
        !(preflight.status is Blocked) <==> {
            &&& profile.capabilities.nfd_basic is Enabled
            &&& operation is AdoptTrustContext || operation is EnrollCertificate
                || operation is ApproveTrustRequest || operation is RejectTrustRequest
                || operation is ReviewSchemaChange
                ==> profile.capabilities.ndnrs_native is Enabled
            &&& operation is AdoptTrustContext || operation is EnrollCertificate
                || operation is ApproveTrustRequest || operation is RejectTrustRequest
                || operation is ReviewSchemaChange || operation is ImportSafeBag
                ==> profile.capabilities.trust_context is Enabled
            &&& operation is ReconnectForwarder || trust is Valid || trust is Weakened
            &&& operation is CreateFace || operation is DestroyFace || operation is AddRoute
                || operation is RemoveRoute || operation is SetStrategy || operation is UnsetStrategy
                || operation is SetCsCapacity || operation is EraseCs
                ==> profile.attach_mode is LocalDesktop
            &&& operation is ShutdownForwarder ==> !(profile.attach_mode is RemoteWeb) && !(
            profile.attach_mode is BrowserEngine)
            &&& operation is ImportSafeBag ==> !(profile.attach_mode is BrowserEngine)
            &&& operation is ReconnectForwarder || !(profile.kind is Unknown)
        },
{
    let checks = checks_of(profile, trust, operation);
    let native = check_if(
        operation.uses_native(),
        native_check(profile.capabilities.ndnrs_native),
    );
    let context = check_if(
        operation.uses_trust_context(),
        trust_check(profile.capabilities.trust_context),
    );
    assert(checks[0] == target_check(profile.capabilities.nfd_basic));
    assert(checks[checks.len() - 1] == platform_check(profile, operation));
    if operation.uses_native() {
        assert(checks[1] == native_check(profile.capabilities.ndnrs_native));
    }
    if operation.uses_trust_context() {
        assert(checks[(1 + native.len()) as int] == trust_check(profile.capabilities.trust_context));
    }
    if !(operation is ReconnectForwarder) {
        assert(checks[checks.len() - 2] == signature_check(trust));
    }
    assert forall|i: int| 0 <= i < checks.len() implies {
        ||| #[trigger] checks[i] == target_check(profile.capabilities.nfd_basic)
        ||| operation.uses_native() && checks[i] == native_check(profile.capabilities.ndnrs_native)
        ||| operation.uses_trust_context() && checks[i] == trust_check(
            profile.capabilities.trust_context,
        )
        ||| !(operation is ReconnectForwarder) && checks[i] == signature_check(trust)
        ||| checks[i] == platform_check(profile, operation)
    } by {}
}

/// The checks stand in a fixed order under fixed names: the target first, the
/// platform last, and between them the native extensions, the trust context and
/// the signature, each where the operation needs it. The first two of these and
/// the signature pass by what the profile and the trust say of them.
pub proof fn checks_are_shown_in_order(
    preflight: MutationPreflight,
    profile: ForwarderProfile,
    trust: TrustPosture,
    operation: MutationOperation,
)
    requires
        preflight.is_of(profile, trust, operation),
    ensures
        ({
            let checks = preflight.checks@;
            let last = checks.len() - 1;
            let changes_trust = operation is AdoptTrustContext || operation is EnrollCertificate
                || operation is ApproveTrustRequest || operation is RejectTrustRequest
                || operation is ReviewSchemaChange;
            &&& checks.len() == (if changes_trust {
                5int
            } else if operation is ImportSafeBag {
                4
            } else if operation is ReconnectForwarder {
                2
            } else {
                3
            })
            &&& checks[0].label@ == "target"@ && checks[0].passed == (
            profile.capabilities.nfd_basic is Enabled)
            &&& changes_trust ==> checks[1].label@ == "native"@ && checks[1].passed == (
            profile.capabilities.ndnrs_native is Enabled)
            &&& changes_trust || operation is ImportSafeBag ==> checks[last - 2].label@
                == "trust context"@ && checks[last - 2].passed == (
            profile.capabilities.trust_context is Enabled)
            &&& !(operation is ReconnectForwarder) ==> checks[last - 1].label@ == "signature"@
                && checks[last - 1].passed == (trust is Valid || trust is Weakened)
            &&& checks[last].label@ == "platform"@
        }),
{
    let texts = check_texts(preflight.checks@);
    assert(texts.len() == preflight.checks@.len());
    assert(texts[0] == preflight.checks@[0]@);
    assert(texts[1] == preflight.checks@[1]@);
    let last = texts.len() - 1;
    assert(texts[last] == preflight.checks@[last]@);
    assert(texts[last - 1] == preflight.checks@[last - 1]@);
    if operation.uses_trust_context() {
        assert(texts[last - 2] == preflight.checks@[last - 2]@);
    }
}

/// A failed check says what is in the way, in the words for that obstacle.
pub proof fn failed_checks_give_the_reason(
    preflight: MutationPreflight,
    profile: ForwarderProfile,
    trust: TrustPosture,
    operation: MutationOperation,
)
    requires
        preflight.is_of(profile, trust, operation),
    ensures
        ({
            let checks = preflight.checks@;
            let target = checks[0].detail@;
            let signature = checks[checks.len() - 2].detail@;
            let platform = checks[checks.len() - 1];
            let tables = operation is CreateFace || operation is DestroyFace
                || operation is AddRoute || operation is RemoveRoute || operation is SetStrategy
                || operation is UnsetStrategy || operation is SetCsCapacity || operation is EraseCs;
            &&& profile.capabilities.nfd_basic is ReadOnly ==> target
                == "compatible target is read-only in dashboard-next"@
            &&& profile.capabilities.nfd_basic is Enabled ==> target
                == "management writes supported"@
            &&& !(operation is ReconnectForwarder) ==> {
                &&& trust is Valid ==> signature == "active signing identity is trusted"@
                &&& trust is Weakened ==> signature
                    == "signed command possible, but schema review is required"@
                &&& trust is Ephemeral ==> signature
                    == "identity must be persisted before signing management commands"@
                &&& trust is Expired ==> signature == "certificate is expired"@
                &&& trust is NoIdentity ==> signature == "no signing identity is available"@
                &&& trust is Unsupported ==> signature
                    == "target has no TrustContext-backed signing posture"@
                &&& trust is Error ==> signature == "trust error must be resolved before signing"@
            }
            &&& tables && !(profile.attach_mode is LocalDesktop) ==> !platform.passed
                && platform.detail@ == "browser/relay mutation transport adapter is not wired yet"@
            &&& operation is ShutdownForwarder && profile.attach_mode is RemoteWeb
                ==> !platform.passed && platform.detail@
                == "remote browser attach cannot shut down the forwarder"@
            &&& operation is ShutdownForwarder && profile.attach_mode is BrowserEngine
                ==> !platform.passed && platform.detail@
                == "browser engine sessions are stopped by closing the runtime"@
            &&& operation is ImportSafeBag && profile.attach_mode is BrowserEngine
                ==> !platform.passed && platform.detail@
                == "browser SafeBag import requires an external custodian handoff"@
            &&& operation is ReconnectForwarder ==> platform.passed && platform.detail@
                == "reconnect is a dashboard session action"@
        }),
{
    let texts = check_texts(preflight.checks@);
    assert(texts.len() == preflight.checks@.len());
    assert(texts[0] == preflight.checks@[0]@);
    let last = texts.len() - 1;
    assert(texts[last] == preflight.checks@[last]@);
    assert(texts[last - 1] == preflight.checks@[last - 1]@);
}

/// A command stands for the one operation that its form names.
pub proof fn commands_carry_out_their_own_operation(command: TypedMutationCommand)
    ensures
        command is FaceCreate <==> command.carries_out() is CreateFace,
        command is FaceDestroy <==> command.carries_out() is DestroyFace,
        command is RouteAdd <==> command.carries_out() is AddRoute,
        command is RouteRemove <==> command.carries_out() is RemoveRoute,
        command is StrategySet <==> command.carries_out() is SetStrategy,
        command is StrategyUnset <==> command.carries_out() is UnsetStrategy,
        command is CsCapacity <==> command.carries_out() is SetCsCapacity,
        command is CsErase <==> command.carries_out() is EraseCs,
        command is ShutdownForwarder <==> command.carries_out() is ShutdownForwarder,
        command is ReconnectForwarder <==> command.carries_out() is ReconnectForwarder,
{
}

/// Only a command whose preflight is not blocked is sent, and then as it was
/// given, to the socket of the profile. A blocked one is recorded as blocked
/// and never tried; a reconnect that is not blocked is complete at once.
pub proof fn blocked_commands_are_never_sent(
    step: MutationStep,
    profile: ForwarderProfile,
    trust: TrustPosture,
    command: TypedMutationCommand,
    preflight: MutationPreflight,
)
    requires
        leads_to(step, profile, trust, command),
        preflight.is_of(profile, trust, command.carries_out()),
    ensures
        step is Send <==> !(preflight.status is Blocked) && !(command is ReconnectForwarder),
        step matches MutationStep::Send(ready) ==> ready.command == command
            && ready.preflight.status == preflight.status && ({
            let plain = "unix://"@;
            if plain.is_prefix_of(profile.endpoint@) {
                plain + ready.socket@ == profile.endpoint@
            } else {
                ready.socket@ == profile.endpoint@
            }
        }),
        step matches MutationStep::Done(record) ==> {
            &&& record.operation == command.carries_out()
            &&& record.target@ == command.target_text()
            &&& record.preflight.status == preflight.status
            &&& preflight.status is Blocked ==> record.status is Blocked && record.attempts == 0
                && record.result@ == "Blocked until the failed gates are resolved."@
            &&& !(preflight.status is Blocked) ==> command is ReconnectForwarder
                && record.status is Complete && record.attempts == 1
        },
{
    if let MutationStep::Send(ready) = step {
        let plain = "unix://"@;
        if plain.is_prefix_of(profile.endpoint@) {
            assert(plain + ready.socket@ =~= profile.endpoint@);
        }
    }
}

/// A sent command is complete exactly where the forwarder accepted it. It can
/// be tried again where the socket could not be connected, and a shutdown also
/// where it was refused; anything else has failed. The record keeps the
/// preflight and counts one attempt.
pub proof fn complete_means_accepted(
    record: MutationRecord,
    ready: ReadyMutation,
    outcome: ManagementOutcome,
)
    requires
        record.records(ready, outcome),
    ensures
        record.status is Complete <==> outcome is Accepted,
        record.status is Retryable <==> outcome is ConnectFailed || (outcome is Refused
            && ready.command is ShutdownForwarder),
        record.status is Complete || record.status is Retryable || record.status is Failed,
        record.operation == ready.command.carries_out(),
        record.target@ == ready.command.target_text(),
        record.preflight == ready.preflight,
        record.attempts == 1,
        record.command is None,
{
}

/// What the record of a failure says ends with the error itself, and names what
/// failed: the prefix, the strategy, the socket, or the management verb.
pub proof fn failures_are_told(
    record: MutationRecord,
    ready: ReadyMutation,
    outcome: ManagementOutcome,
)
    requires
        record.records(ready, outcome),
    ensures
        outcome matches ManagementOutcome::InvalidPrefix(error) ==> record.result@
            == "invalid prefix: "@ + error@,
        outcome matches ManagementOutcome::InvalidStrategy(error) ==> record.result@
            == "invalid strategy name: "@ + error@,
        outcome matches ManagementOutcome::ConnectFailed(error) ==> record.result@ == "connect "@
            + ready.socket@ + ": "@ + error@,
        outcome matches ManagementOutcome::Refused(error) ==> {
            &&& ready.command is FaceCreate ==> record.result@ == "faces/create failed: "@ + error@
            &&& ready.command is FaceDestroy ==> record.result@ == "faces/destroy failed: "@
                + error@
            &&& ready.command is RouteAdd ==> record.result@ == "rib/register failed: "@ + error@
            &&& ready.command is RouteRemove ==> record.result@ == "rib/unregister failed: "@
                + error@
            &&& ready.command is StrategySet ==> record.result@ == "strategy-choice/set failed: "@
                + error@
            &&& ready.command is StrategyUnset ==> record.result@
                == "strategy-choice/unset failed: "@ + error@
            &&& ready.command is CsCapacity ==> record.result@ == "cs/config failed: "@ + error@
            &&& ready.command is CsErase ==> record.result@ == "cs/erase failed: "@ + error@
            &&& ready.command is ShutdownForwarder ==> record.result@ == "status/shutdown failed: "@
                + error@
        },
{
    if let ManagementOutcome::Refused(error) = outcome {
        reveal_strlit(" failed: ");
        reveal_strlit("faces/create");
        reveal_strlit("faces/destroy");
        reveal_strlit("rib/register");
        reveal_strlit("rib/unregister");
        reveal_strlit("strategy-choice/set");
        reveal_strlit("strategy-choice/unset");
        reveal_strlit("cs/config");
        reveal_strlit("cs/erase");
        reveal_strlit("status/shutdown");
        reveal_strlit("faces/create failed: ");
        reveal_strlit("faces/destroy failed: ");
        reveal_strlit("rib/register failed: ");
        reveal_strlit("rib/unregister failed: ");
        reveal_strlit("strategy-choice/set failed: ");
        reveal_strlit("strategy-choice/unset failed: ");
        reveal_strlit("cs/config failed: ");
        reveal_strlit("cs/erase failed: ");
        reveal_strlit("status/shutdown failed: ");
        match ready.command {
            TypedMutationCommand::FaceCreate(_) => {
                assert(record.result@ =~= "faces/create failed: "@ + error@);
            },
            TypedMutationCommand::FaceDestroy(_) => {
                assert(record.result@ =~= "faces/destroy failed: "@ + error@);
            },
            TypedMutationCommand::RouteAdd(_) => {
                assert(record.result@ =~= "rib/register failed: "@ + error@);
            },
            TypedMutationCommand::RouteRemove(_) => {
                assert(record.result@ =~= "rib/unregister failed: "@ + error@);
            },
            TypedMutationCommand::StrategySet(_) => {
                assert(record.result@ =~= "strategy-choice/set failed: "@ + error@);
            },
            TypedMutationCommand::StrategyUnset(_) => {
                assert(record.result@ =~= "strategy-choice/unset failed: "@ + error@);
            },
            TypedMutationCommand::CsCapacity(_) => {
                assert(record.result@ =~= "cs/config failed: "@ + error@);
            },
            TypedMutationCommand::CsErase(_) => {
                assert(record.result@ =~= "cs/erase failed: "@ + error@);
            },
            TypedMutationCommand::ShutdownForwarder(_) => {
                assert(record.result@ =~= "status/shutdown failed: "@ + error@);
            },
            TypedMutationCommand::ReconnectForwarder(_) => {},
        }
    }
}

/// What the record of an accepted command says goes by the forwarder's reply:
/// what the reply repeats is told from it, and only the rest from the command.
pub proof fn accepted_replies_are_told(
    record: MutationRecord,
    ready: ReadyMutation,
    outcome: ManagementOutcome,
)
    requires
        record.records(ready, outcome),
    ensures
        outcome matches ManagementOutcome::Accepted(reply) ==> match ready.command {
            TypedMutationCommand::FaceCreate(_) => {
                &&& reply.face_id matches Some(id) ==> reply.uri matches Some(uri)
                    ==> record.result@ == "face "@ + number::decimal_text(id as nat) + " created"@
                    + (" for "@ + uri@)
                &&& reply.face_id is None && reply.uri is None ==> record.result@ == "face "@
                    + "unknown"@ + " created"@
            },
            TypedMutationCommand::FaceDestroy(command) => {
                &&& reply.face_id matches Some(id) ==> record.result@ == "face "@
                    + number::decimal_text(id as nat) + " destroyed"@
                &&& reply.face_id is None ==> record.result@ == "face "@ + number::decimal_text(
                    command.face_id as nat,
                ) + " destroyed"@
            },
            TypedMutationCommand::RouteAdd(command) => {
                &&& reply.name matches Some(name) ==> reply.face_id matches Some(id)
                    ==> reply.cost matches Some(cost) ==> record.result@ == "route "@ + name@
                    + " registered via face "@ + number::decimal_text(id as nat) + " cost "@
                    + number::decimal_text(cost as nat)
                &&& reply.name is None && reply.face_id is None && reply.cost is None
                    ==> record.result@ == "route "@ + command.prefix@ + " registered via face "@
                    + "requesting"@ + " cost "@ + number::decimal_text(command.cost as nat)
            },
            TypedMutationCommand::RouteRemove(command) => {
                &&& reply.name matches Some(name) ==> reply.face_id matches Some(id)
                    ==> record.result@ == "route "@ + name@ + " unregistered from face "@
                    + number::decimal_text(id as nat)
                &&& reply.name is None && reply.face_id is None ==> record.result@ == "route "@
                    + command.prefix@ + " unregistered from face "@ + "requesting"@
            },
            TypedMutationCommand::StrategySet(command) => {
                &&& reply.strategy matches Some(strategy) ==> reply.name matches Some(name)
                    ==> record.result@ == "strategy "@ + strategy@ + " set for "@ + name@
                &&& reply.strategy is None && reply.name is None ==> record.result@ == "strategy "@
                    + command.strategy@ + " set for "@ + command.prefix@
            },
            TypedMutationCommand::StrategyUnset(command) => {
                &&& reply.name matches Some(name) ==> record.result@ == "strategy unset for "@
                    + name@
                &&& reply.name is None ==> record.result@ == "strategy unset for "@
                    + command.prefix@
            },
            TypedMutationCommand::CsCapacity(command) => {
                &&& reply.capacity matches Some(capacity) ==> record.result@
                    == "CS capacity set to "@ + number::decimal_text(capacity as nat) + " bytes"@
                &&& reply.capacity is None ==> record.result@ == "CS capacity set to "@
                    + number::decimal_text(command.capacity_bytes as nat) + " bytes"@
            },
            TypedMutationCommand::CsErase(command) => {
                &&& reply.count matches Some(count) ==> reply.name matches Some(name)
                    ==> record.result@ == "erased "@ + number::decimal_text(count as nat)
                    + " CS entries under "@ + name@
                &&& reply.count is None && reply.name is None ==> record.result@ == "erased "@
                    + "0"@ + " CS entries under "@ + command.prefix@
            },
            TypedMutationCommand::ShutdownForwarder(_) => record.result@ == "shutdown accepted: "@
                + reply.status_text@,
            TypedMutationCommand::ReconnectForwarder(_) => true,
        },
{
    if let ManagementOutcome::Accepted(reply) = outcome {
        if ready.command is FaceCreate && reply.uri is None {
            assert(record.result@ =~= "face "@ + number_or(reply.face_id, "unknown"@)
                + " created"@);
        }
    }
}

/// What a command works on is told with its own numbers and names.
pub proof fn targets_name_what_is_touched(command: TypedMutationCommand)
    ensures
        command matches TypedMutationCommand::FaceCreate(face) ==> command.target_text()
            == face.uri@,
        command matches TypedMutationCommand::FaceDestroy(face) ==> command.target_text()
            == "face "@ + number::decimal_text(face.face_id as nat),
        command matches TypedMutationCommand::RouteAdd(route) ==> {
            &&& route.face_id matches Some(id) ==> command.target_text() == route.prefix@
                + " via face "@ + number::decimal_text(id as nat)
            &&& route.face_id is None ==> command.target_text() == route.prefix@
                + " via requesting face"@
        },
        command matches TypedMutationCommand::RouteRemove(route) ==> {
            &&& route.face_id matches Some(id) ==> command.target_text() == route.prefix@
                + " via face "@ + number::decimal_text(id as nat)
            &&& route.face_id is None ==> command.target_text() == route.prefix@
                + " via requesting face"@
        },
        command matches TypedMutationCommand::StrategySet(choice) ==> command.target_text()
            == choice.prefix@ + " -> "@ + choice.strategy@,
        command matches TypedMutationCommand::StrategyUnset(choice) ==> command.target_text()
            == choice.prefix@ + " strategy"@,
        command matches TypedMutationCommand::CsCapacity(store) ==> command.target_text()
            == number::decimal_text(store.capacity_bytes as nat) + " bytes"@,
        command matches TypedMutationCommand::CsErase(store) ==> {
            &&& store.count matches Some(count) ==> command.target_text() == store.prefix@
                + " limit "@ + number::decimal_text(count as nat)
            &&& store.count is None ==> command.target_text() == store.prefix@ + " all matches"@
        },
        command matches TypedMutationCommand::ReconnectForwarder(session) ==> command.target_text()
            == session.endpoint@,
{
}

/// A session repeats everything but a shutdown and a reconnect, and the line of
/// a command gives its parameters in full.
pub proof fn session_lines_give_the_parameters(command: TypedMutationCommand)
    ensures
        command.can_replay() <==> !(command is ShutdownForwarder) && !(
        command is ReconnectForwarder),
        command matches TypedMutationCommand::FaceCreate(face) ==> face.mtu matches Some(mtu)
            ==> command.line_text() == "face/create uri="@ + face.uri@ + " mtu="@
            + number::decimal_text(mtu as nat),
        command matches TypedMutationCommand::FaceCreate(face) ==> face.mtu is None
            ==> command.line_text() == "face/create uri="@ + face.uri@ + " mtu="@ + "auto"@,
        command matches TypedMutationCommand::FaceDestroy(face) ==> command.line_text()
            == "faces/destroy face_id="@ + number::decimal_text(face.face_id as nat),
        command matches TypedMutationCommand::RouteAdd(route) ==> route.face_id matches Some(id)
            ==> command.line_text() == "rib/register prefix="@ + route.prefix@ + " face="@
            + number::decimal_text(id as nat) + " cost="@ + number::decimal_text(
            route.cost as nat,
        ),
        command matches TypedMutationCommand::RouteAdd(route) ==> route.face_id is None
            ==> command.line_text() == "rib/register prefix="@ + route.prefix@ + " face="@
            + "requesting"@ + " cost="@ + number::decimal_text(route.cost as nat),
        command matches TypedMutationCommand::RouteRemove(route) ==> route.face_id matches Some(id)
            ==> command.line_text() == "rib/unregister prefix="@ + route.prefix@ + " face="@
            + number::decimal_text(id as nat),
        command matches TypedMutationCommand::RouteRemove(route) ==> route.face_id is None
            ==> command.line_text() == "rib/unregister prefix="@ + route.prefix@ + " face="@
            + "requesting"@,
        command matches TypedMutationCommand::StrategySet(choice) ==> command.line_text()
            == "strategy-choice/set prefix="@ + choice.prefix@ + " strategy="@ + choice.strategy@,
        command matches TypedMutationCommand::StrategyUnset(choice) ==> command.line_text()
            == "strategy-choice/unset prefix="@ + choice.prefix@,
        command matches TypedMutationCommand::CsCapacity(store) ==> command.line_text()
            == "cs/config capacity="@ + number::decimal_text(store.capacity_bytes as nat),
        command matches TypedMutationCommand::CsErase(store) ==> store.count matches Some(count)
            ==> command.line_text() == "cs/erase prefix="@ + store.prefix@ + " count="@
            + number::decimal_text(count as nat),
        command matches TypedMutationCommand::CsErase(store) ==> store.count is None
            ==> command.line_text() == "cs/erase prefix="@ + store.prefix@ + " count="@ + "all"@,
{
}

/// A verdict says in its sentence what it allows.
pub proof fn verdicts_say_what_they_allow(status: PreflightStatus)
    ensures
        status == PreflightStatus::Ready <==> status.summary_text()
            == "All required gates passed."@,
        status == PreflightStatus::NeedsConfirmation <==> status.summary_text()
            == "Ready after explicit operator confirmation."@,
        status == PreflightStatus::Blocked <==> status.summary_text()
            == "Blocked until the failed gates are resolved."@,
{
    reveal_strlit("All required gates passed.");
    reveal_strlit("Ready after explicit operator confirmation.");
    reveal_strlit("Blocked until the failed gates are resolved.");
    assert("All required gates passed."@[0] == 'A');
    assert("Ready after explicit operator confirmation."@[0] == 'R');
    assert("Blocked until the failed gates are resolved."@[0] == 'B');
}

/// A check of a feature passes only where the feature is enabled, and says so;
/// a degraded one is told apart from a missing one.
pub proof fn feature_checks_say_the_state(state: FeatureState)
    ensures
        native_check(state).passed <==> state == FeatureState::Enabled,
        trust_check(state).passed <==> state == FeatureState::Enabled,
        state == FeatureState::Enabled ==> native_check(state).detail
            == "ndn-rs native mutation surface available"@ && trust_check(state).detail
            == "TrustContext API available"@,
        state == FeatureState::Degraded ==> native_check(state).detail
            == "native mutation surface is sandbox-limited"@ && trust_check(state).detail
            == "TrustContext API is degraded; mutation stays disabled"@,
        state == FeatureState::Unsupported || state == FeatureState::Disabled || state
            == FeatureState::ReadOnly ==> native_check(state).detail
            == "native mutation surface is "@ + state.label_text(),
{
}

} // verus!
