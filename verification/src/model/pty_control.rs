//! Run-bound PTY input controller: who may write to a PTY, and what a write
//! acknowledgement means.
//!
//! # States and transitions
//!
//! | From | Operation | Result |
//! |---|---|---|
//! | `Unowned { e }` | [`InputArbiter::claim`] | `Owned { e + 1 }` and a run-bound handle |
//! | `Owned { e }` | [`InputArbiter::claim`] | [`ControlError::Busy`]; state unchanged |
//! | any `{ e }` | [`InputArbiter::takeover`] | `Owned { e + 1, Human }`; the previous holder, if any, is returned for retirement |
//! | `Owned { e }` | [`InputArbiter::release`] with the current handle | `Unowned { e }` |
//! | any | [`InputArbiter::release`] with any other handle | [`ControlError::Stale`]; state unchanged |
//!
//! The epoch never decreases and every change of owner advances it by exactly
//! one. Advancing past `u64::MAX` is [`ControlError::EpochExhausted`], never a
//! wrap. A handle authorizes only while its run, epoch, and holder all match the
//! current `Owned` state, so a takeover invalidates every earlier handle, and a
//! released handle can never authorize again: a later owner has a larger epoch.
//! A different run's arbiter rejects the handle by run identity.
//!
//! # Serialized authorization and write
//!
//! Authorization and the PTY write happen inside one `&mut self` call,
//! [`InputArbiter::write_step`], and every ownership change also requires
//! `&mut self`. No takeover can therefore land between the check and the write:
//! exclusive access to the arbiter is the serialization point. Callers must not
//! split the two by authorizing with [`InputArbiter::authorize`] and writing
//! elsewhere.
//!
//! # Acknowledgements
//!
//! [`InputOutcome::Accepted`] means every byte of the request was written to the
//! PTY master. It does not mean the child consumed them or finished a turn.
//! [`InputOutcome::Incomplete`] reports exactly how many bytes were written
//! (possibly zero) and why the rest were not. Bytes already written cannot be
//! recalled; only the unwritten remainder is dropped.

use crate::io_error::ErrorKind;
use crate::model::ids::RunId;
use crate::text::{decimal, push_decimal};
use vstd::prelude::*;
use vstd::slice::slice_subrange;

verus! {

/// Monotonic ownership counter for one run's PTY input.
#[derive(Clone, Copy, Debug, PartialEq, Eq, PartialOrd, Ord, Hash, Structural)]
pub struct ControllerEpoch(pub u64);

/// The epoch of a PTY that has never been owned.
pub const EPOCH_ZERO: u64 = 0;

impl ControllerEpoch {
    pub fn new(value: u64) -> (epoch: ControllerEpoch)
        ensures
            epoch.0 == value,
    {
        ControllerEpoch(value)
    }

    pub fn get(self) -> (value: u64)
        ensures
            value == self.0,
    {
        self.0
    }

    /// The following epoch; refused only at `u64::MAX`.
    pub fn next(self) -> (epoch: Result<ControllerEpoch, ControlError>)
        ensures
            epoch == next_epoch(self),
    {
        if self.0 == u64::MAX {
            Err(ControlError::EpochExhausted)
        } else {
            Ok(ControllerEpoch(self.0 + 1))
        }
    }
}

/// The epoch behind `epoch`.
pub open spec fn next_epoch(epoch: ControllerEpoch) -> Result<ControllerEpoch, ControlError> {
    if epoch.0 == u64::MAX {
        Err(ControlError::EpochExhausted)
    } else {
        Ok(ControllerEpoch((epoch.0 + 1) as u64))
    }
}

/// Identifies one controller: a connection or an explicit claim. Opaque; carries
/// no invariant beyond identity.
#[derive(Clone, Copy, Debug, PartialEq, Eq, Hash, Structural)]
pub struct HolderId(pub u64);

impl HolderId {
    pub fn new(value: u64) -> (holder: HolderId)
        ensures
            holder.0 == value,
    {
        HolderId(value)
    }

    pub fn get(self) -> (value: u64)
        ensures
            value == self.0,
    {
        self.0
    }
}

/// Correlates an input request with its outcome. Not a durability guarantee.
#[derive(Clone, Copy, Debug, PartialEq, Eq, Hash, Structural)]
pub struct RequestId(pub u64);

impl RequestId {
    pub fn new(value: u64) -> (request: RequestId)
        ensures
            request.0 == value,
    {
        RequestId(value)
    }

    pub fn get(self) -> (value: u64)
        ensures
            value == self.0,
    {
        self.0
    }
}

/// Who holds input ownership.
#[derive(Clone, Copy, Debug, PartialEq, Eq, Hash, Structural)]
pub enum ControllerKind {
    Human,
    Agent,
}

/// Input ownership of one run's PTY.
#[derive(Clone, Copy, Debug, PartialEq, Eq, Structural)]
pub enum ControllerState {
    Unowned { epoch: ControllerEpoch },
    Owned { epoch: ControllerEpoch, holder: HolderId, kind: ControllerKind },
}

impl ControllerState {
    pub open spec fn epoch_of(self) -> ControllerEpoch {
        match self {
            ControllerState::Unowned { epoch } => epoch,
            ControllerState::Owned { epoch, .. } => epoch,
        }
    }

    pub fn epoch(&self) -> (epoch: ControllerEpoch)
        ensures
            epoch == self.epoch_of(),
    {
        match *self {
            ControllerState::Unowned { epoch } => epoch,
            ControllerState::Owned { epoch, .. } => epoch,
        }
    }
}

/// What a [`ControllerHandle`] authorizes by: its run, epoch, and holder.
/// `Copy`, so queued work can carry it, but only obtainable from a handle.
#[derive(Clone, Copy, Debug, PartialEq, Eq, Structural)]
pub struct HandleKey {
    run_id: RunId,
    epoch: ControllerEpoch,
    holder: HolderId,
}

impl HandleKey {
    pub closed spec fn run_of(self) -> RunId {
        self.run_id
    }

    pub closed spec fn epoch_of(self) -> ControllerEpoch {
        self.epoch
    }

    pub closed spec fn holder_of(self) -> HolderId {
        self.holder
    }

    /// The key with these three parts.
    pub closed spec fn with(run_id: RunId, epoch: ControllerEpoch, holder: HolderId) -> HandleKey {
        HandleKey { run_id, epoch, holder }
    }

    pub fn run_id(self) -> (run_id: RunId)
        ensures
            run_id == self.run_of(),
    {
        self.run_id
    }

    pub fn epoch(self) -> (epoch: ControllerEpoch)
        ensures
            epoch == self.epoch_of(),
    {
        self.epoch
    }

    pub fn holder(self) -> (holder: HolderId)
        ensures
            holder == self.holder_of(),
    {
        self.holder
    }
}

/// A key has the parts that it was made with.
pub broadcast proof fn lemma_key_parts(run_id: RunId, epoch: ControllerEpoch, holder: HolderId)
    ensures
        (#[trigger] HandleKey::with(run_id, epoch, holder)).run_of() == run_id,
        HandleKey::with(run_id, epoch, holder).epoch_of() == epoch,
        HandleKey::with(run_id, epoch, holder).holder_of() == holder,
{
}

/// Proof of ownership at one epoch, bound to one run, held by one controller
/// of one kind. Only an [`InputArbiter`] creates handles.
///
/// Not `Clone` or `Copy`: its holder borrows it to write and gives it up to end
/// its input, so nothing can use a handle after its own holder ended it. A
/// takeover still invalidates it from outside, which no owned token can
/// express; that is the epoch check every use makes.
#[derive(Debug, PartialEq, Eq)]
pub struct ControllerHandle {
    key: HandleKey,
    kind: ControllerKind,
}

impl ControllerHandle {
    pub closed spec fn key_of(self) -> HandleKey {
        self.key
    }

    pub closed spec fn kind_of(self) -> ControllerKind {
        self.kind
    }

    /// The handle with this key and kind.
    pub closed spec fn with(key: HandleKey, kind: ControllerKind) -> ControllerHandle {
        ControllerHandle { key, kind }
    }

    pub fn run_id(&self) -> (run_id: RunId)
        ensures
            run_id == self.key_of().run_of(),
    {
        self.key.run_id
    }

    pub fn epoch(&self) -> (epoch: ControllerEpoch)
        ensures
            epoch == self.key_of().epoch_of(),
    {
        self.key.epoch
    }

    pub fn holder(&self) -> (holder: HolderId)
        ensures
            holder == self.key_of().holder_of(),
    {
        self.key.holder
    }

    pub fn kind(&self) -> (kind: ControllerKind)
        ensures
            kind == self.kind_of(),
    {
        self.kind
    }

    /// The identity this handle authorizes by.
    pub fn key(&self) -> (key: HandleKey)
        ensures
            key == self.key_of(),
    {
        self.key
    }
}

/// A handle has the parts that it was made with.
pub broadcast proof fn lemma_handle_parts(key: HandleKey, kind: ControllerKind)
    ensures
        (#[trigger] ControllerHandle::with(key, kind)).key_of() == key,
        ControllerHandle::with(key, kind).kind_of() == kind,
{
}

/// Why a handle does not authorize.
#[derive(Clone, Copy, Debug, PartialEq, Eq, Structural)]
pub enum StaleReason {
    /// The handle belongs to a different run.
    RunMismatch,
    /// Nobody owns the PTY now.
    Unowned,
    /// Ownership moved to a later epoch.
    EpochMismatch,
    /// Same epoch, different holder (a forged or foreign handle).
    HolderMismatch,
}

#[derive(Clone, Copy, Debug, PartialEq, Eq, Structural)]
pub enum ControlError {
    /// The PTY input is owned.
    Busy { holder: HolderId, kind: ControllerKind, epoch: ControllerEpoch },
    /// The controller handle is stale.
    Stale { reason: StaleReason },
    /// The controller epoch is exhausted.
    EpochExhausted,
}

impl ControllerKind {
    pub open spec fn text(self) -> Seq<char> {
        match self {
            ControllerKind::Human => "Human"@,
            ControllerKind::Agent => "Agent"@,
        }
    }

    /// The variant's name, as events carry it.
    pub fn name(self) -> (name: &'static str)
        ensures
            name@ == self.text(),
    {
        match self {
            ControllerKind::Human => "Human",
            ControllerKind::Agent => "Agent",
        }
    }
}

impl StaleReason {
    pub open spec fn text(self) -> Seq<char> {
        match self {
            StaleReason::RunMismatch => "RunMismatch"@,
            StaleReason::Unowned => "Unowned"@,
            StaleReason::EpochMismatch => "EpochMismatch"@,
            StaleReason::HolderMismatch => "HolderMismatch"@,
        }
    }

    /// The variant's name.
    pub fn name(self) -> (name: &'static str)
        ensures
            name@ == self.text(),
    {
        match self {
            StaleReason::RunMismatch => "RunMismatch",
            StaleReason::Unowned => "Unowned",
            StaleReason::EpochMismatch => "EpochMismatch",
            StaleReason::HolderMismatch => "HolderMismatch",
        }
    }
}

impl ControlError {
    pub open spec fn text(self) -> Seq<char> {
        match self {
            ControlError::Busy { holder, kind, epoch } => "PTY input is owned by holder "@
                + decimal(holder.0 as nat) + " ("@ + kind.text() + ") at epoch "@ + decimal(
                epoch.0 as nat,
            ),
            ControlError::Stale { reason } => "controller handle is stale: "@ + reason.text(),
            ControlError::EpochExhausted => "controller epoch exhausted"@,
        }
    }

    /// What the error says.
    pub fn message(&self) -> (message: String)
        ensures
            message@ == self.text(),
    {
        let mut message = String::new();
        match self {
            ControlError::Busy { holder, kind, epoch } => {
                message.append("PTY input is owned by holder ");
                push_decimal(&mut message, holder.0);
                message.append(" (");
                message.append(kind.name());
                message.append(") at epoch ");
                push_decimal(&mut message, epoch.0);
            },
            ControlError::Stale { reason } => {
                message.append("controller handle is stale: ");
                message.append(reason.name());
            },
            ControlError::EpochExhausted => {
                message.append("controller epoch exhausted");
            },
        }
        assert(message@ =~= self.text());
        message
    }
}

/// Result of a human takeover.
#[derive(Debug, PartialEq, Eq)]
pub struct Takeover {
    /// The new controller's handle.
    pub handle: ControllerHandle,
    /// The superseded controller, which the caller must retire (close its
    /// connection and drop its queued input). `None` if the PTY was unowned.
    pub retired: Option<(HolderId, ControllerKind)>,
}

/// A write attempt: what was handed over, and what came of it.
pub type Call = (Seq<u8>, Attempt);

/// One nonblocking write attempt to the PTY input.
pub trait PtyInputSink {
    /// The write attempts so far. Only the sink itself can say what they were, so
    /// nothing is known of them but that each attempt is one more. An implementation that
    /// is itself verified has to override this.
    closed spec fn attempts(&self) -> Seq<Call> {
        arbitrary()
    }

    /// Write a prefix of `bytes` without blocking. `WouldBlock` and `Interrupted`
    /// mean "try again"; any other error is terminal for the request.
    fn try_write(&mut self, bytes: &[u8]) -> (attempt: Result<usize, ErrorKind>)
        ensures
            final(self).attempts() == old(self).attempts().push((bytes@, attempt)),
    ;
}

/// Why a request was not written in full.
#[derive(Clone, Copy, Debug, PartialEq, Eq, Structural)]
pub enum IncompleteReason {
    /// The handle stopped authorizing before the request finished.
    NotAuthorized(StaleReason),
    /// The caller's deadline expired first.
    DeadlineExceeded,
    /// The sink accepted zero bytes for a non-empty write: the PTY is closed.
    Closed,
    /// The sink failed with a terminal error.
    SinkFailed(ErrorKind),
}

/// Final result of an input request.
#[derive(Clone, Copy, Debug, PartialEq, Eq, Structural)]
pub enum InputOutcome {
    /// All `bytes` were written to the PTY master.
    Accepted { request_id: RequestId, epoch: ControllerEpoch, bytes: usize },
    /// `accepted < total` bytes were written; the remainder was dropped.
    Incomplete {
        request_id: RequestId,
        epoch: ControllerEpoch,
        accepted: usize,
        total: usize,
        reason: IncompleteReason,
    },
}

#[derive(Clone, Copy, Debug, PartialEq, Eq, Structural)]
pub enum InputError {
    /// The input request is empty.
    Empty,
}

impl InputError {
    pub open spec fn text(self) -> Seq<char> {
        "input request is empty"@
    }

    /// What the error says.
    pub fn message(&self) -> (message: &'static str)
        ensures
            message@ == self.text(),
    {
        "input request is empty"
    }
}

/// Progress of one [`InputArbiter::write_step`].
#[derive(Clone, Copy, Debug, PartialEq, Eq, Structural)]
pub enum WriteStep {
    /// Not finished; call again when the PTY is writable.
    Pending,
    /// Finished with this outcome. Further steps return it again.
    Done(InputOutcome),
}

/// What came of one write attempt.
pub type Attempt = Result<usize, ErrorKind>;

// Requests.

/// An input request and its write progress.
pub struct PendingModel {
    pub request_id: RequestId,
    pub key: HandleKey,
    pub kind: ControllerKind,
    pub bytes: Seq<u8>,
    pub accepted: nat,
    pub outcome: Option<InputOutcome>,
}

impl PendingModel {
    /// A request is not empty, has written no more than its bytes, and its
    /// outcome says exactly how many of them were written.
    pub open spec fn wf(self) -> bool {
        &&& 0 < self.bytes.len() <= usize::MAX
        &&& self.accepted <= self.bytes.len()
        &&& match self.outcome {
            None => self.accepted < self.bytes.len(),
            Some(InputOutcome::Accepted { request_id, epoch, bytes }) => {
                &&& self.accepted == self.bytes.len()
                &&& bytes == self.accepted
                &&& request_id == self.request_id
                &&& epoch == self.key.epoch_of()
            },
            Some(InputOutcome::Incomplete { request_id, epoch, accepted, total, .. }) => {
                &&& self.accepted < self.bytes.len()
                &&& accepted == self.accepted
                &&& total == self.bytes.len()
                &&& request_id == self.request_id
                &&& epoch == self.key.epoch_of()
            },
        }
    }

    /// The outcome of a request that is given up now.
    pub open spec fn incomplete(self, reason: IncompleteReason) -> InputOutcome {
        InputOutcome::Incomplete {
            request_id: self.request_id,
            epoch: self.key.epoch_of(),
            accepted: self.accepted as usize,
            total: self.bytes.len() as usize,
            reason,
        }
    }

    /// The request decided as incomplete, unless it is already decided.
    pub open spec fn given_up(self, reason: IncompleteReason) -> PendingModel {
        if self.outcome is Some {
            self
        } else {
            PendingModel { outcome: Some(self.incomplete(reason)), ..self }
        }
    }

    /// `n` bytes more were written.
    pub open spec fn written(self, n: nat) -> PendingModel {
        PendingModel {
            accepted: self.accepted + n,
            outcome: if self.accepted + n == self.bytes.len() {
                Some(
                    InputOutcome::Accepted {
                        request_id: self.request_id,
                        epoch: self.key.epoch_of(),
                        bytes: (self.accepted + n) as usize,
                    },
                )
            } else {
                self.outcome
            },
            ..self
        }
    }

    /// The bytes that are still to be written.
    pub open spec fn remaining(self) -> Seq<u8> {
        self.bytes.skip(self.accepted as int)
    }

    /// An undecided request behind one write attempt of its remaining bytes. A
    /// count larger than what was offered is not believed.
    pub open spec fn attempted(self, attempt: Attempt) -> PendingModel {
        match attempt {
            Ok(n) => if n == 0 {
                self.given_up(IncompleteReason::Closed)
            } else if n > self.remaining().len() {
                self.given_up(IncompleteReason::SinkFailed(ErrorKind::InvalidData))
            } else {
                self.written(n as nat)
            },
            Err(kind) => if kind == ErrorKind::WouldBlock || kind == ErrorKind::Interrupted {
                self
            } else {
                self.given_up(IncompleteReason::SinkFailed(kind))
            },
        }
    }

    /// Where the request stands.
    pub open spec fn step(self) -> WriteStep {
        match self.outcome {
            Some(outcome) => WriteStep::Done(outcome),
            None => WriteStep::Pending,
        }
    }
}

/// A queued input request and its write progress.
#[derive(Clone, Debug, PartialEq, Eq)]
pub struct PendingInput {
    request_id: RequestId,
    key: HandleKey,
    kind: ControllerKind,
    bytes: Vec<u8>,
    accepted: usize,
    outcome: Option<InputOutcome>,
}

impl View for PendingInput {
    type V = PendingModel;

    closed spec fn view(&self) -> PendingModel {
        PendingModel {
            request_id: self.request_id,
            key: self.key,
            kind: self.kind,
            bytes: self.bytes@,
            accepted: self.accepted as nat,
            outcome: self.outcome,
        }
    }
}

impl PendingInput {
    pub open spec fn wf(&self) -> bool {
        self@.wf()
    }

    /// Refused only where there is nothing to write.
    pub fn new(request_id: RequestId, handle: &ControllerHandle, bytes: Vec<u8>) -> (request:
        Result<PendingInput, InputError>)
        ensures
            bytes@.len() == 0 ==> request == Err::<PendingInput, InputError>(InputError::Empty),
            bytes@.len() > 0 ==> (request matches Ok(r) && r.wf() && r@ == (PendingModel {
                request_id,
                key: handle.key_of(),
                kind: handle.kind_of(),
                bytes: bytes@,
                accepted: 0,
                outcome: None,
            })),
    {
        if bytes.len() == 0 {
            return Err(InputError::Empty);
        }
        Ok(
            PendingInput {
                request_id,
                key: handle.key,
                kind: handle.kind,
                bytes,
                accepted: 0,
                outcome: None,
            },
        )
    }

    pub fn request_id(&self) -> (request_id: RequestId)
        ensures
            request_id == self@.request_id,
    {
        self.request_id
    }

    /// The identity of the handle that queued this request.
    pub fn key(&self) -> (key: HandleKey)
        ensures
            key == self@.key,
    {
        self.key
    }

    /// The kind of controller that queued this request.
    pub fn kind(&self) -> (kind: ControllerKind)
        ensures
            kind == self@.kind,
    {
        self.kind
    }

    /// Bytes written so far.
    pub fn accepted(&self) -> (accepted: usize)
        ensures
            accepted == self@.accepted,
    {
        self.accepted
    }

    pub fn total(&self) -> (total: usize)
        ensures
            total == self@.bytes.len(),
    {
        self.bytes.len()
    }

    /// The final outcome, once decided.
    pub fn outcome(&self) -> (outcome: Option<InputOutcome>)
        ensures
            outcome == self@.outcome,
    {
        self.outcome
    }

    /// Abandons the remainder because the caller's deadline expired. Returns the
    /// already-decided outcome unchanged if the request had finished.
    pub fn expire(&mut self) -> (outcome: InputOutcome)
        requires
            old(self).wf(),
        ensures
            final(self).wf(),
            final(self)@ == old(self)@.given_up(IncompleteReason::DeadlineExceeded),
            final(self)@.outcome == Some(outcome),
    {
        self.finish_incomplete(IncompleteReason::DeadlineExceeded)
    }

    /// Decides the request as incomplete, unless it is already decided.
    fn finish_incomplete(&mut self, reason: IncompleteReason) -> (outcome: InputOutcome)
        requires
            old(self).wf(),
        ensures
            final(self).wf(),
            final(self)@ == old(self)@.given_up(reason),
            final(self)@.outcome == Some(outcome),
    {
        match self.outcome {
            Some(outcome) => outcome,
            None => {
                let outcome = InputOutcome::Incomplete {
                    request_id: self.request_id,
                    epoch: self.key.epoch,
                    accepted: self.accepted,
                    total: self.bytes.len(),
                    reason,
                };
                self.outcome = Some(outcome);
                outcome
            },
        }
    }

    /// Records `n` newly written bytes, deciding the request once all are written.
    fn record_written(&mut self, n: usize)
        requires
            old(self).wf(),
            old(self)@.outcome is None,
            n <= old(self)@.remaining().len(),
        ensures
            final(self).wf(),
            final(self)@ == old(self)@.written(n as nat),
    {
        self.accepted = self.accepted + n;
        if self.accepted == self.bytes.len() {
            self.outcome = Some(
                InputOutcome::Accepted {
                    request_id: self.request_id,
                    epoch: self.key.epoch,
                    bytes: self.accepted,
                },
            );
        }
    }

    /// Records what came of one write attempt of the remaining bytes.
    pub fn record_attempt(&mut self, attempt: Attempt) -> (step: WriteStep)
        requires
            old(self).wf(),
            old(self)@.outcome is None,
        ensures
            final(self).wf(),
            final(self)@ == old(self)@.attempted(attempt),
            step == final(self)@.step(),
    {
        let remaining: usize = self.bytes.len() - self.accepted;
        match attempt {
            Ok(n) => {
                if n == 0 {
                    WriteStep::Done(self.finish_incomplete(IncompleteReason::Closed))
                } else if n > remaining {
                    // A count larger than the buffer breaks the sink's contract;
                    // fail closed rather than believe it.
                    WriteStep::Done(
                        self.finish_incomplete(
                            IncompleteReason::SinkFailed(ErrorKind::InvalidData),
                        ),
                    )
                } else {
                    self.record_written(n);
                    match self.outcome {
                        Some(outcome) => WriteStep::Done(outcome),
                        None => WriteStep::Pending,
                    }
                }
            },
            Err(kind) => {
                if kind == ErrorKind::WouldBlock || kind == ErrorKind::Interrupted {
                    WriteStep::Pending
                } else {
                    WriteStep::Done(self.finish_incomplete(IncompleteReason::SinkFailed(kind)))
                }
            },
        }
    }
}

// Ownership.

/// The single authority over one run's PTY input.
pub struct ArbiterModel {
    pub run_id: RunId,
    pub state: ControllerState,
}

impl ArbiterModel {
    /// `None` exactly when `key` authorizes.
    pub open spec fn stale(self, key: HandleKey) -> Option<StaleReason> {
        if key.run_of() != self.run_id {
            Some(StaleReason::RunMismatch)
        } else {
            match self.state {
                ControllerState::Unowned { .. } => Some(StaleReason::Unowned),
                ControllerState::Owned { epoch, holder, .. } => if epoch != key.epoch_of() {
                    Some(StaleReason::EpochMismatch)
                } else if holder != key.holder_of() {
                    Some(StaleReason::HolderMismatch)
                } else {
                    None
                },
            }
        }
    }

    pub open spec fn authorizes(self, key: HandleKey) -> bool {
        self.stale(key) is None
    }

    pub open spec fn epoch(self) -> ControllerEpoch {
        self.state.epoch_of()
    }

    /// Owned at `epoch`.
    pub open spec fn owned(
        self,
        epoch: ControllerEpoch,
        holder: HolderId,
        kind: ControllerKind,
    ) -> ArbiterModel {
        ArbiterModel { state: ControllerState::Owned { epoch, holder, kind }, ..self }
    }

    /// The handle of an owner at `epoch`.
    pub open spec fn handle(
        self,
        epoch: ControllerEpoch,
        holder: HolderId,
        kind: ControllerKind,
    ) -> ControllerHandle {
        ControllerHandle::with(HandleKey::with(self.run_id, epoch, holder), kind)
    }

    /// What a claim gives: the arbiter behind it and the answer.
    pub open spec fn claimed(self, holder: HolderId, kind: ControllerKind) -> (
        ArbiterModel,
        Result<ControllerHandle, ControlError>,
    ) {
        match self.state {
            ControllerState::Owned { epoch, holder: owner, kind: owner_kind } => (
                self,
                Err(ControlError::Busy { holder: owner, kind: owner_kind, epoch }),
            ),
            ControllerState::Unowned { epoch } => match next_epoch(epoch) {
                Err(error) => (self, Err(error)),
                Ok(next) => (self.owned(next, holder, kind), Ok(self.handle(next, holder, kind))),
            },
        }
    }

    /// Who would be superseded by a takeover.
    pub open spec fn owner(self) -> Option<(HolderId, ControllerKind)> {
        match self.state {
            ControllerState::Unowned { .. } => None,
            ControllerState::Owned { holder, kind, .. } => Some((holder, kind)),
        }
    }

    /// What a takeover gives: the arbiter behind it and the answer.
    pub open spec fn taken_over(self, holder: HolderId) -> (
        ArbiterModel,
        Result<Takeover, ControlError>,
    ) {
        match next_epoch(self.epoch()) {
            Err(error) => (self, Err(error)),
            Ok(next) => (
                self.owned(next, holder, ControllerKind::Human),
                Ok(
                    Takeover {
                        handle: self.handle(next, holder, ControllerKind::Human),
                        retired: self.owner(),
                    },
                ),
            ),
        }
    }

    /// What a release gives: the arbiter behind it and the answer.
    pub open spec fn released(self, key: HandleKey) -> (ArbiterModel, Result<(), ControlError>) {
        match self.stale(key) {
            Some(reason) => (self, Err(ControlError::Stale { reason })),
            None => (
                ArbiterModel {
                    state: ControllerState::Unowned { epoch: key.epoch_of() },
                    ..self
                },
                Ok(()),
            ),
        }
    }

    /// Whether a write step of `pending` reaches the PTY.
    pub open spec fn reaches_pty(self, pending: PendingModel) -> bool {
        pending.outcome is None && self.authorizes(pending.key)
    }

    /// What a write step of `pending` hands to the PTY, which answers `attempt`: all
    /// that is still to be written, or nothing where the PTY is not reached.
    pub open spec fn calls(self, pending: PendingModel, attempt: Attempt) -> Seq<Call> {
        if self.reaches_pty(pending) {
            seq![(pending.bytes.skip(pending.accepted as int), attempt)]
        } else {
            Seq::empty()
        }
    }

    /// `pending` behind one write step, in which the PTY, if it was reached at
    /// all, answered `attempt`.
    pub open spec fn stepped(self, pending: PendingModel, attempt: Attempt) -> PendingModel {
        if pending.outcome is Some {
            pending
        } else {
            match self.stale(pending.key) {
                Some(reason) => pending.given_up(IncompleteReason::NotAuthorized(reason)),
                None => pending.attempted(attempt),
            }
        }
    }
}

/// The single owner of one run's PTY input authority.
#[derive(Debug)]
pub struct InputArbiter {
    run_id: RunId,
    state: ControllerState,
}

impl View for InputArbiter {
    type V = ArbiterModel;

    closed spec fn view(&self) -> ArbiterModel {
        ArbiterModel { run_id: self.run_id, state: self.state }
    }
}

impl InputArbiter {
    /// A never-owned PTY at epoch zero.
    pub fn new(run_id: RunId) -> (arbiter: InputArbiter)
        ensures
            arbiter@ == (ArbiterModel {
                run_id,
                state: ControllerState::Unowned { epoch: ControllerEpoch(EPOCH_ZERO) },
            }),
    {
        InputArbiter::resume(
            run_id,
            ControllerState::Unowned { epoch: ControllerEpoch(EPOCH_ZERO) },
        )
    }

    /// Resumes from a persisted state.
    pub fn resume(run_id: RunId, state: ControllerState) -> (arbiter: InputArbiter)
        ensures
            arbiter@ == (ArbiterModel { run_id, state }),
    {
        InputArbiter { run_id, state }
    }

    pub fn run_id(&self) -> (run_id: RunId)
        ensures
            run_id == self@.run_id,
    {
        self.run_id
    }

    pub fn state(&self) -> (state: ControllerState)
        ensures
            state == self@.state,
    {
        self.state
    }

    /// Takes ownership of an unowned PTY.
    pub fn claim(&mut self, holder: HolderId, kind: ControllerKind) -> (handle: Result<
        ControllerHandle,
        ControlError,
    >)
        ensures
            (final(self)@, handle) == old(self)@.claimed(holder, kind),
    {
        match self.state {
            ControllerState::Owned { epoch, holder: owner, kind: owner_kind } => Err(
                ControlError::Busy { holder: owner, kind: owner_kind, epoch },
            ),
            ControllerState::Unowned { epoch } => match epoch.next() {
                Ok(next) => Ok(self.own(next, holder, kind)),
                Err(error) => Err(error),
            },
        }
    }

    /// Explicit human takeover: succeeds whether or not the PTY is owned.
    pub fn takeover(&mut self, holder: HolderId) -> (takeover: Result<Takeover, ControlError>)
        ensures
            (final(self)@, takeover) == old(self)@.taken_over(holder),
    {
        let next = match self.state.epoch().next() {
            Ok(next) => next,
            Err(error) => return Err(error),
        };
        let retired = match self.state {
            ControllerState::Unowned { .. } => None,
            ControllerState::Owned { holder: owner, kind, .. } => Some((owner, kind)),
        };
        let handle = self.own(next, holder, ControllerKind::Human);
        Ok(Takeover { handle, retired })
    }

    /// Gives up ownership. Only the current handle releases.
    pub fn release(&mut self, handle: &ControllerHandle) -> (released: Result<(), ControlError>)
        ensures
            (final(self)@, released) == old(self)@.released(handle.key_of()),
    {
        match self.stale_reason(handle.key) {
            Some(reason) => Err(ControlError::Stale { reason }),
            None => {
                self.state = ControllerState::Unowned { epoch: handle.key.epoch };
                Ok(())
            },
        }
    }

    /// Whether the handle behind `key` authorizes right now. Informational only;
    /// see the module docs on serialization.
    pub fn authorize(&self, key: HandleKey) -> (authorized: Result<(), ControlError>)
        ensures
            authorized == (match self@.stale(key) {
                None => Ok::<(), ControlError>(()),
                Some(reason) => Err(ControlError::Stale { reason }),
            }),
    {
        match self.stale_reason(key) {
            None => Ok(()),
            Some(reason) => Err(ControlError::Stale { reason }),
        }
    }

    /// `None` exactly when `key` authorizes now.
    pub fn stale_reason(&self, key: HandleKey) -> (reason: Option<StaleReason>)
        ensures
            reason == self@.stale(key),
    {
        if key.run_id != self.run_id {
            return Some(StaleReason::RunMismatch);
        }
        match self.state {
            ControllerState::Unowned { .. } => Some(StaleReason::Unowned),
            ControllerState::Owned { epoch, holder, .. } => if epoch != key.epoch {
                Some(StaleReason::EpochMismatch)
            } else if holder != key.holder {
                Some(StaleReason::HolderMismatch)
            } else {
                None
            },
        }
    }

    /// Authorizes `pending` and makes one write attempt to `sink`, atomically with
    /// respect to ownership changes. The sink is reached only by a request that
    /// is undecided and authorized, and is handed exactly the bytes of it that
    /// are still to be written.
    pub fn write_step<S: PtyInputSink>(&mut self, pending: &mut PendingInput, sink: &mut S) -> (step:
        WriteStep)
        requires
            old(pending).wf(),
        ensures
            *final(self) == *old(self),
            final(pending).wf(),
            step == final(pending)@.step(),
            exists|attempt: Attempt|
                {
                    &&& final(pending)@ == #[trigger] old(self)@.stepped(old(pending)@, attempt)
                    &&& final(sink).attempts() == old(sink).attempts() + old(self)@.calls(
                        old(pending)@,
                        attempt,
                    )
                },
            !old(self)@.reaches_pty(old(pending)@) ==> *final(sink) == *old(sink),
    {
        let ghost arbiter = self@;
        let ghost before = pending@;
        let ghost tried = sink.attempts();
        if let Some(outcome) = pending.outcome {
            proof {
                let attempt: Attempt = Ok(0);
                assert(pending@ == arbiter.stepped(before, attempt));
                assert(sink.attempts() =~= tried + arbiter.calls(before, attempt));
            }
            return WriteStep::Done(outcome);
        }
        if let Some(reason) = self.stale_reason(pending.key) {
            let outcome = pending.finish_incomplete(IncompleteReason::NotAuthorized(reason));
            proof {
                let attempt: Attempt = Ok(0);
                assert(pending@ == arbiter.stepped(before, attempt));
                assert(sink.attempts() =~= tried + arbiter.calls(before, attempt));
            }
            return WriteStep::Done(outcome);
        }
        let attempt = sink.try_write(
            slice_subrange(pending.bytes.as_slice(), pending.accepted, pending.bytes.len()),
        );
        let step = pending.record_attempt(attempt);
        proof {
            assert(pending@ == arbiter.stepped(before, attempt));
            assert(before.bytes.subrange(before.accepted as int, before.bytes.len() as int)
                =~= before.bytes.skip(before.accepted as int));
            assert(sink.attempts() =~= tried + arbiter.calls(before, attempt));
        }
        step
    }

    /// Transitions to `Owned` at `epoch` and mints its handle.
    fn own(&mut self, epoch: ControllerEpoch, holder: HolderId, kind: ControllerKind) -> (handle:
        ControllerHandle)
        ensures
            final(self)@ == old(self)@.owned(epoch, holder, kind),
            handle == old(self)@.handle(epoch, holder, kind),
    {
        self.state = ControllerState::Owned { epoch, holder, kind };
        ControllerHandle { key: HandleKey { run_id: self.run_id, epoch, holder }, kind }
    }
}

// What holds of ownership as a whole.

/// One change of ownership.
pub enum OwnershipChange {
    Claim { holder: HolderId, kind: ControllerKind },
    Takeover { holder: HolderId },
    Release { key: HandleKey },
}

/// The arbiter behind one operation.
pub open spec fn changed(a: ArbiterModel, change: OwnershipChange) -> ArbiterModel {
    match change {
        OwnershipChange::Claim { holder, kind } => a.claimed(holder, kind).0,
        OwnershipChange::Takeover { holder } => a.taken_over(holder).0,
        OwnershipChange::Release { key } => a.released(key).0,
    }
}

/// The arbiter behind operations, one after the other.
pub open spec fn changed_all(a: ArbiterModel, changes: Seq<OwnershipChange>) -> ArbiterModel
    decreases changes.len(),
{
    if changes.len() == 0 {
        a
    } else {
        changed(changed_all(a, changes.drop_last()), changes.last())
    }
}

/// The epoch never decreases, the run never changes, and an operation that
/// gives the PTY a new owner advances the epoch by exactly one.
pub proof fn law_epoch_monotone(a: ArbiterModel, change: OwnershipChange)
    ensures
        changed(a, change).run_id == a.run_id,
        a.epoch().0 <= changed(a, change).epoch().0 <= a.epoch().0 + 1,
        changed(a, change).epoch().0 == a.epoch().0 + 1 <==> (changed(a, change).state is Owned
            && changed(a, change) != a),
{
}

/// The epoch never decreases over any number of operations.
pub proof fn law_epoch_never_decreases(a: ArbiterModel, changes: Seq<OwnershipChange>)
    ensures
        changed_all(a, changes).run_id == a.run_id,
        a.epoch().0 <= changed_all(a, changes).epoch().0,
    decreases changes.len(),
{
    if changes.len() > 0 {
        law_epoch_never_decreases(a, changes.drop_last());
        law_epoch_monotone(changed_all(a, changes.drop_last()), changes.last());
    }
}

/// A key of an epoch that has passed never authorizes again, whatever happens.
proof fn lemma_old_key_stays_stale(a: ArbiterModel, changes: Seq<OwnershipChange>, key: HandleKey)
    requires
        key.epoch_of().0 < a.epoch().0 || (key.epoch_of().0 == a.epoch().0 && a.state is Unowned),
    ensures
        !changed_all(a, changes).authorizes(key),
        key.epoch_of().0 < changed_all(a, changes).epoch().0 || (key.epoch_of().0 == changed_all(
            a,
            changes,
        ).epoch().0 && changed_all(a, changes).state is Unowned),
    decreases changes.len(),
{
    if changes.len() > 0 {
        let before = changed_all(a, changes.drop_last());
        lemma_old_key_stays_stale(a, changes.drop_last(), key);
        law_epoch_monotone(before, changes.last());
    }
}

/// A takeover invalidates every handle that was given out before it, whether it was still
/// valid or not, for good.
pub proof fn law_takeover_invalidates_earlier_handles(
    a: ArbiterModel,
    holder: HolderId,
    key: HandleKey,
    later: Seq<OwnershipChange>,
)
    requires
        key.epoch_of().0 <= a.epoch().0,
        a.taken_over(holder).1 is Ok,
    ensures
        !changed_all(a.taken_over(holder).0, later).authorizes(key),
{
    lemma_old_key_stays_stale(a.taken_over(holder).0, later, key);
}

/// A released handle can never authorize again.
pub proof fn law_released_handle_is_dead(
    a: ArbiterModel,
    key: HandleKey,
    later: Seq<OwnershipChange>,
)
    requires
        a.authorizes(key),
    ensures
        a.released(key).1 is Ok,
        !changed_all(a.released(key).0, later).authorizes(key),
{
    lemma_old_key_stays_stale(a.released(key).0, later, key);
}

/// A handle never authorizes at the arbiter of another run.
pub proof fn law_other_run_rejects(a: ArbiterModel, changes: Seq<OwnershipChange>, key: HandleKey)
    requires
        key.run_of() != a.run_id,
    ensures
        changed_all(a, changes).stale(key) == Some(StaleReason::RunMismatch),
{
    law_epoch_never_decreases(a, changes);
}

/// The handle that a claim or a takeover gives authorizes, and no handle with
/// another epoch or holder does.
pub proof fn law_new_handle_is_the_only_one(
    a: ArbiterModel,
    holder: HolderId,
    kind: ControllerKind,
    other: HandleKey,
)
    ensures
        a.claimed(holder, kind).1 matches Ok(handle) ==> a.claimed(holder, kind).0.authorizes(
            handle.key_of(),
        ) && (a.claimed(holder, kind).0.authorizes(other) ==> other == handle.key_of()),
        a.taken_over(holder).1 matches Ok(takeover) ==> a.taken_over(holder).0.authorizes(
            takeover.handle.key_of(),
        ) && (a.taken_over(holder).0.authorizes(other) ==> other == takeover.handle.key_of()),
{
}

/// A request behind write steps, each of which met its own arbiter and answer.
pub open spec fn stepped_all(
    pending: PendingModel,
    steps: Seq<(ArbiterModel, Attempt)>,
) -> PendingModel
    decreases steps.len(),
{
    if steps.len() == 0 {
        pending
    } else {
        let (a, attempt) = steps.last();
        a.stepped(stepped_all(pending, steps.drop_last()), attempt)
    }
}

/// What those steps hand to the PTY.
pub open spec fn calls_all(
    pending: PendingModel,
    steps: Seq<(ArbiterModel, Attempt)>,
) -> Seq<Call>
    decreases steps.len(),
{
    if steps.len() == 0 {
        Seq::empty()
    } else {
        let (a, attempt) = steps.last();
        calls_all(pending, steps.drop_last()) + a.calls(
            stepped_all(pending, steps.drop_last()),
            attempt,
        )
    }
}

/// The bytes that the PTY took, by its own account. A count beyond what it was handed
/// counts for nothing.
pub open spec fn taken_by(calls: Seq<Call>) -> Seq<u8>
    decreases calls.len(),
{
    if calls.len() == 0 {
        Seq::empty()
    } else {
        let head = taken_by(calls.drop_last());
        match calls.last() {
            (bytes, Ok(n)) if n <= bytes.len() => head + bytes.take(n as int),
            _ => head,
        }
    }
}

/// What the PTY takes of a request over any number of steps is exactly what the
/// request accounts for as written: its bytes, in order, each of them once.
pub proof fn law_pty_takes_the_request_in_order(
    pending: PendingModel,
    steps: Seq<(ArbiterModel, Attempt)>,
)
    requires
        pending.wf(),
    ensures
        taken_by(calls_all(pending, steps)) == pending.bytes.subrange(
            pending.accepted as int,
            stepped_all(pending, steps).accepted as int,
        ),
    decreases steps.len(),
{
    law_write_accounting(pending, steps);
    if steps.len() == 0 {
        assert(pending.bytes.subrange(pending.accepted as int, pending.accepted as int)
            =~= Seq::<u8>::empty());
    } else {
        let head = steps.drop_last();
        let (a, attempt) = steps.last();
        let before = stepped_all(pending, head);
        law_pty_takes_the_request_in_order(pending, head);
        law_write_accounting(pending, head);
        let calls = calls_all(pending, head);
        if a.reaches_pty(before) {
            let call = (before.bytes.skip(before.accepted as int), attempt);
            assert(calls_all(pending, steps) =~= calls.push(call));
            assert(calls.push(call).drop_last() =~= calls);
            let after = stepped_all(pending, steps);
            assert(taken_by(calls_all(pending, steps)) =~= pending.bytes.subrange(
                pending.accepted as int,
                after.accepted as int,
            ));
        } else {
            assert(calls_all(pending, steps) =~= calls);
        }
    }
}

/// Accounting is exact over any number of steps: what was written only grows,
/// never beyond the request, its bytes never change, and an outcome that was
/// reached is the outcome for good.
pub proof fn law_write_accounting(pending: PendingModel, steps: Seq<(ArbiterModel, Attempt)>)
    requires
        pending.wf(),
    ensures
        stepped_all(pending, steps).wf(),
        stepped_all(pending, steps).bytes == pending.bytes,
        pending.accepted <= stepped_all(pending, steps).accepted <= pending.bytes.len(),
        pending.outcome is Some ==> stepped_all(pending, steps) == pending,
    decreases steps.len(),
{
    if steps.len() > 0 {
        law_write_accounting(pending, steps.drop_last());
    }
}

/// A request whose handle does not authorize writes nothing further.
pub proof fn law_unauthorized_writes_nothing(
    a: ArbiterModel,
    pending: PendingModel,
    attempt: Attempt,
)
    requires
        pending.wf(),
        !a.authorizes(pending.key),
    ensures
        a.stepped(pending, attempt).accepted == pending.accepted,
        a.stepped(pending, attempt).outcome is Some,
        pending.outcome is None ==> a.stepped(pending, attempt).outcome == Some(
            pending.incomplete(IncompleteReason::NotAuthorized(a.stale(pending.key)->0)),
        ),
{
}

// What each operation does, in terms of what it was given and what it gave back.

/// A claim is granted exactly where nobody owns the PTY and an epoch is left: the claimant
/// then owns it at the next epoch, and its handle names this run, that epoch, the claimant
/// and its kind. A claim on an owned PTY is told who owns it, and changes nothing.
pub proof fn law_claim_is_for_the_unowned(
    arbiter: &mut InputArbiter,
    holder: HolderId,
    kind: ControllerKind,
    answer: Result<ControllerHandle, ControlError>,
)
    requires
        call_ensures(InputArbiter::claim, (arbiter, holder, kind), answer),
    ensures
        final(arbiter)@.run_id == old(arbiter)@.run_id,
        old(arbiter)@.state matches ControllerState::Owned {
            epoch,
            holder: owner,
            kind: owner_kind,
        } ==> final(arbiter)@ == old(arbiter)@ && answer == Err::<ControllerHandle, ControlError>(
            ControlError::Busy { holder: owner, kind: owner_kind, epoch },
        ),
        old(arbiter)@.state matches ControllerState::Unowned { epoch } ==> (if epoch.0 == u64::MAX {
            final(arbiter)@ == old(arbiter)@ && answer == Err::<ControllerHandle, ControlError>(
                ControlError::EpochExhausted,
            )
        } else {
            &&& answer matches Ok(handle)
            &&& handle.kind_of() == kind
            &&& handle.key_of().run_of() == old(arbiter)@.run_id
            &&& handle.key_of().holder_of() == holder
            &&& handle.key_of().epoch_of().0 == epoch.0 + 1
            &&& final(arbiter)@.state == (ControllerState::Owned {
                epoch: handle.key_of().epoch_of(),
                holder,
                kind,
            })
        }),
{
    broadcast use lemma_key_parts, lemma_handle_parts;
}

/// A takeover is granted wherever an epoch is left, owned or not: the PTY is then a
/// human's at the next epoch, and the answer names the owner that was there before, of
/// either kind, or nobody where there was none.
pub proof fn law_takeover_is_always_granted(
    arbiter: &mut InputArbiter,
    holder: HolderId,
    answer: Result<Takeover, ControlError>,
)
    requires
        call_ensures(InputArbiter::takeover, (arbiter, holder), answer),
    ensures
        final(arbiter)@.run_id == old(arbiter)@.run_id,
        old(arbiter)@.epoch().0 == u64::MAX ==> final(arbiter)@ == old(arbiter)@ && answer == Err::<
            Takeover,
            ControlError,
        >(ControlError::EpochExhausted),
        old(arbiter)@.epoch().0 < u64::MAX ==> {
            &&& answer matches Ok(takeover)
            &&& takeover.handle.kind_of() == ControllerKind::Human
            &&& takeover.handle.key_of().run_of() == old(arbiter)@.run_id
            &&& takeover.handle.key_of().holder_of() == holder
            &&& takeover.handle.key_of().epoch_of().0 == old(arbiter)@.epoch().0 + 1
            &&& final(arbiter)@.state == (ControllerState::Owned {
                epoch: takeover.handle.key_of().epoch_of(),
                holder,
                kind: ControllerKind::Human,
            })
            &&& old(arbiter)@.state is Unowned ==> takeover.retired is None
            &&& old(arbiter)@.state matches ControllerState::Owned {
                holder: owner,
                kind: owner_kind,
                ..
            } ==> takeover.retired == Some((owner, owner_kind))
        },
{
    broadcast use lemma_key_parts, lemma_handle_parts;
}

/// A handle authorizes exactly where its run, its epoch and its holder are those of the
/// PTY's owner. Where it does not, the reason is the first of these that fails: the run,
/// that there is an owner at all, the epoch, the holder.
pub proof fn law_handle_authorizes_by_its_parts(
    arbiter: InputArbiter,
    key: HandleKey,
    reason: Option<StaleReason>,
    answer: Result<(), ControlError>,
)
    requires
        call_ensures(InputArbiter::stale_reason, (&arbiter, key), reason),
        call_ensures(InputArbiter::authorize, (&arbiter, key), answer),
    ensures
        reason is None <==> (key.run_of() == arbiter@.run_id && (
        arbiter@.state matches ControllerState::Owned { epoch, holder, .. } && epoch
            == key.epoch_of() && holder == key.holder_of())),
        answer is Ok <==> reason is None,
        answer matches Err(error) ==> error == (ControlError::Stale { reason: reason->0 }),
        reason == Some(StaleReason::RunMismatch) <==> key.run_of() != arbiter@.run_id,
        reason == Some(StaleReason::Unowned) <==> key.run_of() == arbiter@.run_id
            && arbiter@.state is Unowned,
        reason == Some(StaleReason::EpochMismatch) <==> key.run_of() == arbiter@.run_id
            && arbiter@.state is Owned && arbiter@.epoch() != key.epoch_of(),
{
}

/// A release by the owner's own handle leaves the PTY to nobody, at the same epoch. By any
/// other handle it is refused with the reason for which the handle does not authorize, and
/// changes nothing.
pub proof fn law_release_is_by_the_owner(
    arbiter: &mut InputArbiter,
    handle: ControllerHandle,
    answer: Result<(), ControlError>,
)
    requires
        call_ensures(InputArbiter::release, (arbiter, &handle), answer),
    ensures
        final(arbiter)@.run_id == old(arbiter)@.run_id,
        answer is Ok <==> (handle.key_of().run_of() == old(arbiter)@.run_id && (
        old(arbiter)@.state matches ControllerState::Owned { epoch, holder, .. } && epoch
            == handle.key_of().epoch_of() && holder == handle.key_of().holder_of())),
        answer is Ok ==> final(arbiter)@.state == (ControllerState::Unowned {
            epoch: old(arbiter)@.epoch(),
        }),
        answer matches Err(error) ==> final(arbiter)@ == old(arbiter)@ && (
        error matches ControlError::Stale { reason } && (reason == StaleReason::RunMismatch
            <==> handle.key_of().run_of() != old(arbiter)@.run_id) && (reason
            == StaleReason::Unowned ==> old(arbiter)@.state is Unowned)),
{
}

/// A new PTY is nobody's, at epoch zero; a resumed one is as it was left. The arbiter
/// tells its run and state as they are.
pub proof fn law_new_pty_is_unowned(
    run_id: RunId,
    state: ControllerState,
    fresh: InputArbiter,
    resumed: InputArbiter,
    told_run: RunId,
    told: ControllerState,
    epoch: ControllerEpoch,
)
    requires
        call_ensures(InputArbiter::new, (run_id,), fresh),
        call_ensures(InputArbiter::resume, (run_id, state), resumed),
        call_ensures(InputArbiter::run_id, (&resumed,), told_run),
        call_ensures(InputArbiter::state, (&resumed,), told),
        call_ensures(ControllerState::epoch, (&told,), epoch),
    ensures
        fresh@.run_id == run_id,
        fresh@.state matches ControllerState::Unowned { epoch: first } && first.0 == 0,
        told_run == run_id,
        told == state,
        state matches ControllerState::Unowned { epoch: e } ==> epoch == e,
        state matches ControllerState::Owned { epoch: e, .. } ==> epoch == e,
{
}

/// Epochs go up by one, and there is none behind the last.
pub proof fn law_epochs_go_up_by_one(
    epoch: ControllerEpoch,
    next: Result<ControllerEpoch, ControlError>,
)
    requires
        call_ensures(ControllerEpoch::next, (epoch,), next),
    ensures
        epoch.0 < u64::MAX ==> (next matches Ok(n) && n.0 == epoch.0 + 1),
        epoch.0 == u64::MAX ==> next == Err::<ControllerEpoch, ControlError>(
            ControlError::EpochExhausted,
        ),
{
}

/// A handle tells its run, epoch, holder and kind as its key and itself carry them, and so
/// does its key.
pub proof fn law_handle_tells_its_parts(
    handle: ControllerHandle,
    run_id: RunId,
    epoch: ControllerEpoch,
    holder: HolderId,
    kind: ControllerKind,
    key: HandleKey,
    key_run: RunId,
    key_epoch: ControllerEpoch,
    key_holder: HolderId,
)
    requires
        call_ensures(ControllerHandle::run_id, (&handle,), run_id),
        call_ensures(ControllerHandle::epoch, (&handle,), epoch),
        call_ensures(ControllerHandle::holder, (&handle,), holder),
        call_ensures(ControllerHandle::kind, (&handle,), kind),
        call_ensures(ControllerHandle::key, (&handle,), key),
        call_ensures(HandleKey::run_id, (key,), key_run),
        call_ensures(HandleKey::epoch, (key,), key_epoch),
        call_ensures(HandleKey::holder, (key,), key_holder),
    ensures
        run_id == key_run && epoch == key_epoch && holder == key_holder,
        handle == ControllerHandle::with(HandleKey::with(run_id, epoch, holder), kind),
        ControllerHandle::with(key, kind) == handle,
{
    broadcast use lemma_key_parts, lemma_handle_parts;
}

/// A new request is the holder's own: all of its bytes are still to be written, under the
/// number, key and kind that it was made with. There is none for no bytes.
pub proof fn law_new_request_has_everything_to_write(
    request_id: RequestId,
    handle: ControllerHandle,
    bytes: Vec<u8>,
    made: Result<PendingInput, InputError>,
    request: PendingInput,
    told: RequestId,
    key: HandleKey,
    kind: ControllerKind,
    accepted: usize,
    total: usize,
    outcome: Option<InputOutcome>,
)
    requires
        call_ensures(PendingInput::new, (request_id, &handle, bytes), made),
        made matches Ok(r) ==> r == request,
        call_ensures(PendingInput::request_id, (&request,), told),
        call_ensures(PendingInput::key, (&request,), key),
        call_ensures(PendingInput::kind, (&request,), kind),
        call_ensures(PendingInput::accepted, (&request,), accepted),
        call_ensures(PendingInput::total, (&request,), total),
        call_ensures(PendingInput::outcome, (&request,), outcome),
    ensures
        made is Ok <==> bytes@.len() > 0,
        made is Ok ==> {
            &&& told == request_id
            &&& key == handle.key_of()
            &&& kind == handle.kind_of()
            &&& accepted == 0
            &&& total == bytes@.len()
            &&& outcome is None
            &&& request@.bytes == bytes@
        },
{
}

/// What a write attempt makes of a request: bytes that the PTY took are counted once, and
/// the request is accepted exactly when the last of them was; a PTY that takes nothing is
/// closed; one that claims more than it was offered has failed; a full one leaves the
/// request as it is; any other error ends it. Nothing else of the request changes.
#[verifier::rlimit(40)]
pub proof fn law_attempt_is_counted(
    request: &mut PendingInput,
    attempt: Attempt,
    step: WriteStep,
)
    requires
        old(request).wf(),
        old(request)@.outcome is None,
        call_ensures(PendingInput::record_attempt, (request, attempt), step),
    ensures
        final(request)@.bytes == old(request)@.bytes,
        final(request)@.request_id == old(request)@.request_id,
        final(request)@.key == old(request)@.key,
        final(request)@.kind == old(request)@.kind,
        (step is Pending <==> final(request)@.outcome is None),
        step matches WriteStep::Done(outcome) ==> final(request)@.outcome == Some(outcome),
        attempt matches Ok(n) ==> {
            let left = old(request)@.bytes.len() - old(request)@.accepted;
            &&& 0 < n <= left ==> final(request)@.accepted == old(request)@.accepted + n
            &&& 0 < n < left ==> step is Pending
            &&& n == left ==> step == WriteStep::Done(
                InputOutcome::Accepted {
                    request_id: old(request)@.request_id,
                    epoch: old(request)@.key.epoch_of(),
                    bytes: old(request)@.bytes.len() as usize,
                },
            )
            &&& (n == 0 || n > left) ==> final(request)@.accepted == old(request)@.accepted && (
            step matches WriteStep::Done(
                InputOutcome::Incomplete { request_id, epoch, accepted, total, reason },
            ) && request_id == old(request)@.request_id && epoch == old(request)@.key.epoch_of()
                && accepted == old(request)@.accepted && total == old(request)@.bytes.len()
                && reason == (if n == 0 {
                IncompleteReason::Closed
            } else {
                IncompleteReason::SinkFailed(ErrorKind::InvalidData)
            }))
        },
        attempt matches Err(kind) ==> {
            &&& final(request)@.accepted == old(request)@.accepted
            &&& step is Pending <==> (kind == ErrorKind::WouldBlock || kind
                == ErrorKind::Interrupted)
            &&& step matches WriteStep::Done(outcome) ==> (
            outcome matches InputOutcome::Incomplete { accepted, total, reason, .. } && accepted
                == old(request)@.accepted && total == old(request)@.bytes.len() && reason
                == IncompleteReason::SinkFailed(kind))
        },
{
}

/// A deadline that passes ends a request with what it had written, and never touches one
/// that was decided before.
pub proof fn law_deadline_ends_the_undecided(request: &mut PendingInput, outcome: InputOutcome)
    requires
        old(request).wf(),
        call_ensures(PendingInput::expire, (request,), outcome),
    ensures
        final(request)@.accepted == old(request)@.accepted,
        final(request)@.bytes == old(request)@.bytes,
        final(request)@.outcome == Some(outcome),
        old(request)@.outcome matches Some(before) ==> outcome == before && final(request)@ == old(request)@,
        old(request)@.outcome is None ==> (outcome matches InputOutcome::Incomplete {
            request_id,
            epoch,
            accepted,
            total,
            reason,
        } && request_id == old(request)@.request_id && epoch == old(request)@.key.epoch_of()
            && accepted == old(request)@.accepted && total == old(request)@.bytes.len() && reason
            == IncompleteReason::DeadlineExceeded),
{
}

/// A write step never changes who owns the PTY. It reaches the PTY at most once, and only
/// with an undecided request whose key is the owner's, of which it hands over exactly what
/// is still to be written. A request that does not authorize is ended with what it had
/// written and the reason for which it does not; a decided one stays decided.
#[verifier::rlimit(40)]
pub proof fn law_write_step_writes_for_the_owner<S: PtyInputSink>(
    arbiter: &mut InputArbiter,
    request: &mut PendingInput,
    sink: &mut S,
    step: WriteStep,
)
    requires
        old(request).wf(),
        call_ensures(InputArbiter::write_step::<S>, (arbiter, request, sink), step),
    ensures
        final(arbiter)@ == old(arbiter)@,
        final(request)@.bytes == old(request)@.bytes,
        final(request)@.request_id == old(request)@.request_id,
        final(request)@.key == old(request)@.key,
        step == (match final(request)@.outcome {
            Some(outcome) => WriteStep::Done(outcome),
            None => WriteStep::Pending,
        }),
        ({
            let owner = old(request)@.key.run_of() == old(arbiter)@.run_id && (
            old(arbiter)@.state matches ControllerState::Owned { epoch, holder, .. } && epoch == old(request)@.key.epoch_of() && holder == old(request)@.key.holder_of());
            if old(request)@.outcome is None && owner {
                exists|attempt: Attempt|
                    {
                        &&& final(sink).attempts() == #[trigger] old(sink).attempts().push(
                            (
                                old(request)@.bytes.subrange(
                                    old(request)@.accepted as int,
                                    old(request)@.bytes.len() as int,
                                ),
                                attempt,
                            ),
                        )
                        &&& final(request)@.accepted == old(request)@.accepted + (match attempt {
                            Ok(n) if n <= old(request)@.bytes.len() - old(request)@.accepted
                                => n as int,
                            _ => 0,
                        })
                        &&& attempt matches Ok(n) ==> (final(request)@.outcome is None <==> 0 < n
                            < old(request)@.bytes.len() - old(request)@.accepted)
                        &&& attempt matches Err(kind) ==> (final(request)@.outcome is None <==> (
                        kind == ErrorKind::WouldBlock || kind == ErrorKind::Interrupted))
                    }
            } else {
                &&& *final(sink) == *old(sink)
                &&& final(request)@.accepted == old(request)@.accepted
                &&& old(request)@.outcome is Some ==> final(request)@ == old(request)@
                &&& old(request)@.outcome is None ==> (final(request)@.outcome matches Some(
                    InputOutcome::Incomplete { accepted, total, reason, .. },
                ) && accepted == old(request)@.accepted && total == old(request)@.bytes.len() && (
                reason matches IncompleteReason::NotAuthorized(stale) && (stale
                    == StaleReason::RunMismatch <==> old(request)@.key.run_of() != old(arbiter)@.run_id)))
            }
        }),
{
    let attempt = choose|attempt: Attempt|
        {
            &&& final(request)@ == #[trigger] old(arbiter)@.stepped(old(request)@, attempt)
            &&& final(sink).attempts() == old(sink).attempts() + old(arbiter)@.calls(
                old(request)@,
                attempt,
            )
        };
    let rest = old(request)@.bytes.subrange(
        old(request)@.accepted as int,
        old(request)@.bytes.len() as int,
    );
    assert(rest =~= old(request)@.bytes.skip(old(request)@.accepted as int));
    assert(old(sink).attempts() + seq![(rest, attempt)] =~= old(sink).attempts().push(
        (rest, attempt),
    ));
}

/// What an error says names what went wrong: who owns the PTY, of which kind and at which
/// epoch; why a handle is stale; that no epoch is left. No two reasons read alike.
pub proof fn law_control_errors_are_told(error: ControlError, message: String)
    requires
        call_ensures(ControlError::message, (&error,), message),
    ensures
        error matches ControlError::Busy { holder, kind, epoch } ==> message@
            == "PTY input is owned by holder "@ + decimal(holder.0 as nat) + (match kind {
            ControllerKind::Human => " ("@ + "Human"@ + ") at epoch "@,
            ControllerKind::Agent => " ("@ + "Agent"@ + ") at epoch "@,
        }) + decimal(epoch.0 as nat),
        error matches ControlError::Stale { reason } ==> message@
            == "controller handle is stale: "@ + (match reason {
            StaleReason::RunMismatch => "RunMismatch"@,
            StaleReason::Unowned => "Unowned"@,
            StaleReason::EpochMismatch => "EpochMismatch"@,
            StaleReason::HolderMismatch => "HolderMismatch"@,
        }),
        error is EpochExhausted ==> message@ == "controller epoch exhausted"@,
{
    if let ControlError::Busy { holder, kind, epoch } = error {
        let a = "PTY input is owned by holder "@ + decimal(holder.0 as nat);
        assert(a + " ("@ + kind.text() + ") at epoch "@ =~= a + (" ("@ + kind.text()
            + ") at epoch "@));
    }
}

/// Epochs, holders and requests are the numbers that they were made of; kinds and reasons
/// are called by their own names; and an empty request is told as that.
pub proof fn law_numbers_and_names_are_kept(
    value: u64,
    epoch: ControllerEpoch,
    holder: HolderId,
    request: RequestId,
    told_epoch: u64,
    told_holder: u64,
    told_request: u64,
    kind: ControllerKind,
    kind_name: &'static str,
    reason: StaleReason,
    reason_name: &'static str,
    error: InputError,
    message: &'static str,
)
    requires
        call_ensures(ControllerEpoch::new, (value,), epoch),
        call_ensures(HolderId::new, (value,), holder),
        call_ensures(RequestId::new, (value,), request),
        call_ensures(ControllerEpoch::get, (epoch,), told_epoch),
        call_ensures(HolderId::get, (holder,), told_holder),
        call_ensures(RequestId::get, (request,), told_request),
        call_ensures(ControllerKind::name, (kind,), kind_name),
        call_ensures(StaleReason::name, (reason,), reason_name),
        call_ensures(InputError::message, (&error,), message),
    ensures
        epoch.0 == value && holder.0 == value && request.0 == value,
        told_epoch == value && told_holder == value && told_request == value,
        kind is Human ==> kind_name@ == "Human"@,
        kind is Agent ==> kind_name@ == "Agent"@,
        reason_name@ == (match reason {
            StaleReason::RunMismatch => "RunMismatch"@,
            StaleReason::Unowned => "Unowned"@,
            StaleReason::EpochMismatch => "EpochMismatch"@,
            StaleReason::HolderMismatch => "HolderMismatch"@,
        }),
        message@ == "input request is empty"@,
{
}

} // verus!
