//! The sidecar's PTY input authority: what its writer does next.
//!
//! One writer per PTY run owns the run's [`InputArbiter`] and the PTY master's
//! write half. Everyone else (attach connections, the push forwarder) reaches it
//! through two bounded queues:
//!
//! - **controls** (claim, takeover, release, resize) are always served before
//!   the next input step, so a full PTY input buffer or a long queued push can
//!   never delay a takeover;
//! - **inputs** (write requests and end-of-input markers) are served in order,
//!   one nonblocking write attempt at a time, and apply backpressure to their
//!   senders when full.
//!
//! Authorization and each write happen inside [`InputArbiter::write_step`], so no
//! takeover can land between the check and the write. A request queued by a
//! controller that has since been superseded writes nothing further.
//!
//! [`InputWriter`] holds the queues and the authority. Its owner calls
//! [`InputWriter::turn`] while there is work, and carries out the effects that
//! each turn returns, in their order. A sender that finds a queue full gets its
//! item back and tries again once there is room. `R` is where an answer goes.

use crate::io_error::ErrorKind;
use crate::model::ids::RunId;
use crate::model::pty_control::{
    ArbiterModel, Attempt, Call, ControlError, ControllerEpoch, ControllerHandle, ControllerKind,
    ControllerState, HandleKey, HolderId, IncompleteReason, InputArbiter, InputOutcome,
    PendingInput, PendingModel, PtyInputSink, RequestId, StaleReason, Takeover, WriteStep, EPOCH_ZERO,
};
use crate::recording::Geometry;
use std::collections::{HashMap, VecDeque};
use vstd::prelude::*;

verus! {

broadcast use vstd::std_specs::hash::group_hash_axioms;

/// Maximum queued control requests before senders wait.
pub const CONTROL_CAPACITY: usize = 16;

/// Maximum queued input items before senders wait.
pub const INPUT_CAPACITY: usize = 32;

/// How long the writer's owner waits for writability before it rechecks controls.
pub const WRITABLE_POLL_MS: u64 = 10;

/// How a human came to hold control.
#[derive(Clone, Copy, Debug, PartialEq, Eq, Structural)]
pub enum Trigger {
    Attach,
    Takeover,
}

impl Trigger {
    pub open spec fn text(self) -> Seq<char> {
        match self {
            Trigger::Attach => "attach"@,
            Trigger::Takeover => "takeover"@,
        }
    }

    pub fn as_str(self) -> (name: &'static str)
        ensures
            name@ == self.text(),
    {
        match self {
            Trigger::Attach => "attach",
            Trigger::Takeover => "takeover",
        }
    }
}

/// Why a control request did not take effect.
#[derive(Clone, Copy, Debug, PartialEq, Eq, Structural)]
pub enum RequestError {
    Control(ControlError),
    /// The PTY input writer is no longer running.
    WriterGone,
}

impl RequestError {
    pub open spec fn text(self) -> Seq<char> {
        match self {
            RequestError::Control(error) => error.text(),
            RequestError::WriterGone => "the PTY input writer is no longer running"@,
        }
    }

    /// What the error says.
    pub fn message(&self) -> (message: String)
        ensures
            message@ == self.text(),
    {
        match self {
            RequestError::Control(error) => error.message(),
            RequestError::WriterGone => "the PTY input writer is no longer running".to_owned(),
        }
    }
}

/// A control request.
#[derive(Debug)]
pub enum Control<R> {
    Claim { holder: HolderId, kind: ControllerKind, reply: R },
    Takeover { holder: HolderId, reply: R },
    Resize { key: HandleKey, size: Geometry },
    /// Release now and cancel everything the holder still has queued.
    Disconnect { handle: ControllerHandle },
}

/// Something queued behind the input before it.
#[derive(Debug)]
pub enum InputItem<R> {
    Write { request: PendingInput, reply: Option<R> },
    End {
        handle: ControllerHandle,
        /// Receives whether the holder still held control and was released.
        done: Option<R>,
    },
}

/// What the writer's owner has to do, in order.
#[derive(Debug)]
pub enum Effect<R> {
    /// A human took control.
    HumanControl(Trigger),
    /// No human holds control any more.
    HumanReleased,
    /// `holder` was superseded by a takeover at `epoch` and must be retired.
    Retire { holder: HolderId, kind: ControllerKind, epoch: ControllerEpoch },
    /// Requests from a superseded controller were stopped. Wide enough for the
    /// sum over any number of requests.
    InputRevoked { kind: ControllerKind, accepted: u128, total: u128 },
    /// Apply a window size to the PTY.
    Resize(Geometry),
    Claimed { reply: R, result: Result<ControllerHandle, ControlError> },
    TookOver { reply: R, result: Result<Takeover, ControlError> },
    Outcome { reply: R, outcome: InputOutcome },
    /// A holder's input ended; `released` tells whether it was still current.
    Ended { reply: R, released: bool },
}

/// What a queued input item stands for.
pub enum ItemModel<R> {
    Write { request: PendingModel, reply: Option<R> },
    End { handle: ControllerHandle, done: Option<R> },
}

impl<R> View for InputItem<R> {
    type V = ItemModel<R>;

    open spec fn view(&self) -> ItemModel<R> {
        match *self {
            InputItem::Write { request, reply } => ItemModel::Write { request: request@, reply },
            InputItem::End { handle, done } => ItemModel::End { handle, done },
        }
    }
}

impl<R> InputItem<R> {
    pub open spec fn wf(&self) -> bool {
        self@.wf()
    }
}

impl<R> ItemModel<R> {
    /// A queued request is sound and undecided.
    pub open spec fn wf(self) -> bool {
        self matches ItemModel::Write { request, .. } ==> request.wf() && request.outcome is None
    }

    pub open spec fn holder(self) -> HolderId {
        match self {
            ItemModel::Write { request, .. } => request.key.holder_of(),
            ItemModel::End { handle, .. } => handle.key_of().holder_of(),
        }
    }
}

pub open spec fn item_models<R>(items: Seq<InputItem<R>>) -> Seq<ItemModel<R>> {
    Seq::new(items.len(), |i: int| items[i]@)
}

pub open spec fn item_model<R>(item: Option<InputItem<R>>) -> Option<ItemModel<R>> {
    match item {
        Some(item) => Some(item@),
        None => None,
    }
}

/// The items of `holder`, or those of everybody else, in their order.
pub open spec fn items_of<R>(
    items: Seq<ItemModel<R>>,
    holder: HolderId,
    theirs: bool,
) -> Seq<ItemModel<R>>
    decreases items.len(),
{
    if items.len() == 0 {
        Seq::empty()
    } else {
        let head = items_of(items.drop_last(), holder, theirs);
        if (items.last().holder() == holder) == theirs {
            head.push(items.last())
        } else {
            head
        }
    }
}

/// `end`, unless it is one of `holder`.
pub open spec fn unless_of<R>(end: Option<ItemModel<R>>, holder: HolderId) -> Option<
    ItemModel<R>,
> {
    match end {
        Some(item) if item.holder() == holder => None,
        other => other,
    }
}

/// The queues and the authority.
pub struct WriterModel<R> {
    pub arbiter: ArbiterModel,
    /// The kind of each controller that has not ended its input.
    pub kinds: Map<u64, ControllerKind>,
    /// The request being written, with where to report its outcome.
    pub current: Option<(PendingModel, Option<R>)>,
    pub controls: Seq<Control<R>>,
    pub inputs: Seq<ItemModel<R>>,
    pub next_holder: u64,
    pub next_request: u64,
}

/// The answer to an outcome, where someone waits for it.
pub open spec fn answer<R>(reply: Option<R>, outcome: InputOutcome) -> Seq<Effect<R>> {
    match reply {
        Some(reply) => seq![Effect::Outcome { reply, outcome }],
        None => Seq::empty(),
    }
}

/// The answer to the end of a holder's input, where someone waits for it.
pub open spec fn ended<R>(done: Option<R>, released: bool) -> Seq<Effect<R>> {
    match done {
        Some(reply) => seq![Effect::Ended { reply, released }],
        None => Seq::empty(),
    }
}

/// What finishing cancelled items amounts to: the answers, and how many bytes of
/// the requests that were not written in full were accepted and asked for.
pub struct Cancelled<R> {
    pub effects: Seq<Effect<R>>,
    pub accepted: nat,
    pub total: nat,
    /// What reached the PTY.
    pub calls: Seq<Call>,
}

/// Each cancelled write takes one write step, which does not reach the PTY
/// unless its handle still authorizes; `attempts` are the PTY's answers.
pub open spec fn cancelled<R>(
    arbiter: ArbiterModel,
    items: Seq<ItemModel<R>>,
    attempts: Seq<Attempt>,
) -> Cancelled<R>
    decreases items.len(),
{
    if items.len() == 0 {
        Cancelled { effects: Seq::empty(), accepted: 0, total: 0, calls: Seq::empty() }
    } else {
        let head = cancelled(arbiter, items.drop_last(), attempts);
        match items.last() {
            ItemModel::End { done, .. } => Cancelled {
                effects: head.effects + ended(done, false),
                ..head
            },
            ItemModel::Write { request, reply } => {
                let attempt = attempts[items.len() - 1];
                let calls = head.calls + arbiter.calls(request, attempt);
                match arbiter.stepped(request, attempt).outcome {
                    None => Cancelled { calls, ..head },
                    Some(
                        InputOutcome::Incomplete { request_id, epoch, accepted, total, reason },
                    ) => Cancelled {
                        effects: head.effects + answer(
                            reply,
                            InputOutcome::Incomplete { request_id, epoch, accepted, total, reason },
                        ),
                        accepted: head.accepted + accepted as nat,
                        total: head.total + total as nat,
                        calls,
                    },
                    Some(outcome) => Cancelled {
                        effects: head.effects + answer(reply, outcome),
                        calls,
                        ..head
                    },
                }
            },
        }
    }
}

impl<R> WriterModel<R> {
    pub open spec fn wf(self) -> bool {
        &&& self.controls.len() <= CONTROL_CAPACITY
        &&& self.inputs.len() <= INPUT_CAPACITY
        &&& forall|i: int| 0 <= i < self.inputs.len() ==> (#[trigger] self.inputs[i]).wf()
        &&& self.current matches Some((request, _)) ==> request.wf() && request.outcome is None
    }

    /// End of a holder's input: it is released if it still authorizes, and
    /// forgotten either way.
    pub open spec fn released(self, handle: ControllerHandle) -> (WriterModel<R>, Seq<Effect<R>>) {
        let (arbiter, result) = self.arbiter.released(handle.key_of());
        (
            WriterModel {
                arbiter,
                kinds: self.kinds.remove(handle.key_of().holder_of().0),
                ..self
            },
            if result is Ok && (self.arbiter.state matches ControllerState::Owned { kind, .. }
                && kind == ControllerKind::Human) {
                seq![Effect::HumanReleased]
            } else {
                Seq::empty()
            },
        )
    }

    /// Everything that `holder` still has queued, staged or in flight.
    pub open spec fn pending_of(self, end: Option<ItemModel<R>>, holder: HolderId) -> Seq<
        ItemModel<R>,
    > {
        let queued = items_of(self.inputs, holder, true);
        let staged = match end {
            Some(item) if item.holder() == holder => queued.push(item),
            _ => queued,
        };
        match self.current {
            Some((request, reply)) if request.key.holder_of() == holder => staged.push(
                ItemModel::Write { request, reply },
            ),
            _ => staged,
        }
    }

    /// Without anything of `holder` queued or in flight.
    pub open spec fn without(self, holder: HolderId) -> WriterModel<R> {
        WriterModel {
            inputs: items_of(self.inputs, holder, false),
            current: match self.current {
                Some((request, _)) if request.key.holder_of() == holder => None,
                other => other,
            },
            ..self
        }
    }

    /// Serves a disconnect ahead of all input: `handle` is released if it is
    /// current, and every input of its holder is cancelled. What was revoked is
    /// reported once, in aggregate.
    pub open spec fn disconnected(
        self,
        end: Option<ItemModel<R>>,
        handle: ControllerHandle,
        attempts: Seq<Attempt>,
    ) -> (WriterModel<R>, Option<ItemModel<R>>, Seq<Effect<R>>) {
        let holder = handle.key_of().holder_of();
        let kind = if self.kinds.contains_key(holder.0) {
            self.kinds[holder.0]
        } else {
            ControllerKind::Human
        };
        let (free, effects) = self.released(handle);
        let gone = cancelled(free.arbiter, free.pending_of(end, holder), attempts);
        (
            free.without(holder),
            unless_of(end, holder),
            effects + gone.effects + if gone.total > 0 {
                seq![
                    Effect::InputRevoked {
                        kind,
                        accepted: gone.accepted as u128,
                        total: gone.total as u128,
                    },
                ]
            } else {
                Seq::empty()
            },
        )
    }

    /// What reaches the PTY while a disconnect is served.
    pub open spec fn disconnect_calls(
        self,
        end: Option<ItemModel<R>>,
        handle: ControllerHandle,
        attempts: Seq<Attempt>,
    ) -> Seq<Call> {
        let free = self.released(handle).0;
        cancelled(
            free.arbiter,
            free.pending_of(end, handle.key_of().holder_of()),
            attempts,
        ).calls
    }

    /// Serves one control; `end` is the end marker that was taken off the queue
    /// together with it.
    pub open spec fn served(
        self,
        end: Option<ItemModel<R>>,
        control: Control<R>,
        attempts: Seq<Attempt>,
    ) -> (WriterModel<R>, Option<ItemModel<R>>, Seq<Effect<R>>) {
        match control {
            Control::Claim { holder, kind, reply } => {
                let (arbiter, result) = self.arbiter.claimed(holder, kind);
                let answer = seq![Effect::Claimed { reply, result }];
                if result is Ok {
                    (
                        WriterModel { arbiter, kinds: self.kinds.insert(holder.0, kind), ..self },
                        end,
                        if kind == ControllerKind::Human {
                            seq![Effect::HumanControl(Trigger::Attach)] + answer
                        } else {
                            answer
                        },
                    )
                } else {
                    (self, end, answer)
                }
            },
            Control::Takeover { holder, reply } => {
                let (arbiter, result) = self.arbiter.taken_over(holder);
                let answer = seq![Effect::TookOver { reply, result }];
                match result {
                    Err(_) => (self, end, answer),
                    Ok(takeover) => (
                        WriterModel {
                            arbiter,
                            kinds: self.kinds.insert(holder.0, ControllerKind::Human),
                            ..self
                        },
                        end,
                        seq![Effect::HumanControl(Trigger::Takeover)] + (match takeover.retired {
                            Some((retired, kind)) => seq![
                                Effect::Retire {
                                    holder: retired,
                                    kind,
                                    epoch: takeover.handle.key_of().epoch_of(),
                                },
                            ],
                            None => Seq::empty(),
                        }) + answer,
                    ),
                }
            },
            Control::Resize { key, size } => (
                self,
                end,
                if self.arbiter.authorizes(key) {
                    seq![Effect::Resize(size)]
                } else {
                    Seq::empty()
                },
            ),
            Control::Disconnect { handle } => self.disconnected(end, handle, attempts),
        }
    }

    /// What reaches the PTY while a control is served: nothing, but for the requests
    /// of a controller that disconnects.
    pub open spec fn control_calls(
        self,
        end: Option<ItemModel<R>>,
        control: Control<R>,
        attempts: Seq<Attempt>,
    ) -> Seq<Call> {
        match control {
            Control::Disconnect { handle } => self.disconnect_calls(end, handle, attempts),
            _ => Seq::empty(),
        }
    }

    /// Serves controls in order.
    pub open spec fn served_all(
        self,
        end: Option<ItemModel<R>>,
        controls: Seq<Control<R>>,
        attempts: Seq<Seq<Attempt>>,
    ) -> (WriterModel<R>, Option<ItemModel<R>>, Seq<Effect<R>>)
        decreases controls.len(),
    {
        if controls.len() == 0 {
            (self, end, Seq::empty())
        } else {
            let (w, e, effects) = self.served_all(end, controls.drop_last(), attempts);
            let (w2, e2, more) = w.served(e, controls.last(), attempts[controls.len() - 1]);
            (w2, e2, effects + more)
        }
    }

    /// What reaches the PTY while controls are served.
    pub open spec fn serve_calls(
        self,
        end: Option<ItemModel<R>>,
        controls: Seq<Control<R>>,
        attempts: Seq<Seq<Attempt>>,
    ) -> Seq<Call>
        decreases controls.len(),
    {
        if controls.len() == 0 {
            Seq::empty()
        } else {
            let (w, e, _) = self.served_all(end, controls.drop_last(), attempts);
            self.serve_calls(end, controls.drop_last(), attempts) + w.control_calls(
                e,
                controls.last(),
                attempts[controls.len() - 1],
            )
        }
    }

    /// Takes all controls off the queue, and the next input if nothing is being
    /// written: a request becomes the current one, an end marker is handed out.
    pub open spec fn taken(self) -> (WriterModel<R>, Option<ItemModel<R>>) {
        let idle = WriterModel { controls: Seq::empty(), ..self };
        if self.current is None && self.inputs.len() > 0 {
            let rest = WriterModel { inputs: self.inputs.skip(1), ..idle };
            match self.inputs[0] {
                ItemModel::Write { request, reply } => (
                    WriterModel { current: Some((request, reply)), ..rest },
                    None,
                ),
                end => (rest, Some(end)),
            }
        } else {
            (idle, None)
        }
    }

    /// One input step behind the controls: an end marker, or one write step of
    /// the current request, to which the PTY, if it is reached, answers
    /// `attempt`. Also tells whether the PTY's input buffer was full.
    pub open spec fn advanced(self, end: Option<ItemModel<R>>, attempt: Attempt) -> (
        WriterModel<R>,
        Seq<Effect<R>>,
        bool,
    ) {
        match end {
            Some(ItemModel::End { handle, done }) => {
                let (w, effects) = self.released(handle);
                let released = self.arbiter.authorizes(handle.key_of());
                (w, effects + ended(done, released), false)
            },
            _ => match self.current {
                None => (self, Seq::empty(), false),
                Some((request, reply)) => {
                    let after = self.arbiter.stepped(request, attempt);
                    match after.outcome {
                        None => (
                            WriterModel { current: Some((after, reply)), ..self },
                            Seq::empty(),
                            after.accepted == request.accepted,
                        ),
                        Some(outcome) => (
                            WriterModel { current: None, ..self },
                            self.revocation(request, outcome) + answer(reply, outcome),
                            false,
                        ),
                    }
                },
            },
        }
    }

    /// What reaches the PTY in that step: the rest of the current request, where its
    /// handle authorizes.
    pub open spec fn advance_calls(self, end: Option<ItemModel<R>>, attempt: Attempt) -> Seq<Call> {
        match end {
            Some(ItemModel::End { .. }) => Seq::empty(),
            _ => match self.current {
                None => Seq::empty(),
                Some((request, _)) => self.arbiter.calls(request, attempt),
            },
        }
    }

    /// What is reported when a request ends because its handle no longer
    /// authorizes.
    pub open spec fn revocation(self, request: PendingModel, outcome: InputOutcome) -> Seq<
        Effect<R>,
    > {
        let holder = request.key.holder_of().0;
        match outcome {
            InputOutcome::Incomplete {
                accepted,
                total,
                reason: IncompleteReason::NotAuthorized(_),
                ..
            } => seq![
                Effect::InputRevoked {
                    kind: if self.kinds.contains_key(holder) {
                        self.kinds[holder]
                    } else {
                        ControllerKind::Agent
                    },
                    accepted: accepted as u128,
                    total: total as u128,
                },
            ],
            _ => Seq::empty(),
        }
    }

    /// One turn of the writer: all controls, then one input step.
    pub open spec fn turned(self, attempts: Seq<Seq<Attempt>>, attempt: Attempt) -> (
        WriterModel<R>,
        Seq<Effect<R>>,
        bool,
    ) {
        let (w, end) = self.taken();
        let (w2, end2, effects) = w.served_all(end, self.controls, attempts);
        let (w3, more, stalled) = w2.advanced(end2, attempt);
        (w3, effects + more, stalled)
    }

    /// What reaches the PTY in one turn.
    pub open spec fn turn_calls(self, attempts: Seq<Seq<Attempt>>, attempt: Attempt) -> Seq<Call> {
        let (w, end) = self.taken();
        let (w2, end2, _) = w.served_all(end, self.controls, attempts);
        w.serve_calls(end, self.controls, attempts) + w2.advance_calls(end2, attempt)
    }

    /// With one item more at the end of the input queue.
    pub open spec fn with_input(self, item: ItemModel<R>) -> WriterModel<R> {
        WriterModel { inputs: self.inputs.push(item), ..self }
    }

    /// With one request number used up.
    pub open spec fn numbered(self) -> WriterModel<R> {
        WriterModel {
            next_request: if self.next_request == u64::MAX {
                0
            } else {
                (self.next_request + 1) as u64
            },
            ..self
        }
    }

    /// The request for `bytes` under the next number.
    pub open spec fn requested(self, handle: &ControllerHandle, bytes: Seq<u8>) -> PendingModel {
        PendingModel {
            request_id: RequestId(self.next_request),
            key: handle.key_of(),
            kind: handle.kind_of(),
            bytes,
            accepted: 0,
            outcome: None,
        }
    }

    pub open spec fn has_work(self) -> bool {
        self.controls.len() > 0 || self.inputs.len() > 0 || self.current is Some
    }
}

/// The request being written, with where to report its outcome.
#[derive(Debug)]
struct Current<R> {
    request: PendingInput,
    reply: Option<R>,
}

/// The sender and writer side of a PTY run's input authority.
pub struct InputWriter<R> {
    arbiter: InputArbiter,
    kinds: HashMap<u64, ControllerKind>,
    current: Option<Current<R>>,
    controls: VecDeque<Control<R>>,
    inputs: VecDeque<InputItem<R>>,
    next_holder: u64,
    next_request: u64,
}

impl<R> View for InputWriter<R> {
    type V = WriterModel<R>;

    closed spec fn view(&self) -> WriterModel<R> {
        WriterModel {
            arbiter: self.arbiter@,
            kinds: self.kinds@,
            current: match self.current {
                Some(Current { request, reply }) => Some((request@, reply)),
                None => None,
            },
            controls: self.controls@,
            inputs: item_models(self.inputs@),
            next_holder: self.next_holder,
            next_request: self.next_request,
        }
    }
}

/// What one turn of the writer came to.
pub struct Turn<R> {
    /// What has to be done, in order.
    pub effects: Vec<Effect<R>>,
    /// The PTY's input buffer is full: wait a little for room before the next turn.
    pub stalled: bool,
}

/// What the first half of a turn comes to.
#[derive(Debug)]
pub struct Begun<R> {
    /// What has to be done, in order.
    pub effects: Vec<Effect<R>>,
    /// The end marker that was staged.
    pub end: Option<InputItem<R>>,
}

/// The kind of a holder, if it is known.
fn kind_of(kinds: &HashMap<u64, ControllerKind>, holder: u64) -> (kind: Option<ControllerKind>)
    ensures
        kind == (if kinds@.contains_key(holder) {
            Some(kinds@[holder])
        } else {
            None::<ControllerKind>
        }),
{
    match kinds.get(&holder) {
        Some(kind) => Some(*kind),
        None => None,
    }
}

proof fn lemma_items_of_len<R>(items: Seq<ItemModel<R>>, holder: HolderId, theirs: bool)
    ensures
        items_of(items, holder, theirs).len() <= items.len(),
        forall|i: int|
            0 <= i < items_of(items, holder, theirs).len() ==> items.contains(
                #[trigger] items_of(items, holder, theirs)[i],
            ) && (items_of(items, holder, theirs)[i].holder() == holder) == theirs,
    decreases items.len(),
{
    if items.len() > 0 {
        lemma_items_of_len(items.drop_last(), holder, theirs);
        let head = items_of(items.drop_last(), holder, theirs);
        assert forall|i: int| 0 <= i < items_of(items, holder, theirs).len() implies items.contains(
            #[trigger] items_of(items, holder, theirs)[i],
        ) && (items_of(items, holder, theirs)[i].holder() == holder) == theirs by {
            if i < head.len() {
                assert(items.drop_last().contains(head[i]));
                let j = choose|j: int|
                    0 <= j < items.drop_last().len() && items.drop_last()[j] == head[i];
                assert(items[j] == head[i]);
            } else {
                assert(items[items.len() - 1] == items.last());
            }
        }
    }
}

/// Cancelling looks at one answer of the PTY for each item.
proof fn lemma_cancelled_agrees<R>(
    arbiter: ArbiterModel,
    items: Seq<ItemModel<R>>,
    a: Seq<Attempt>,
    b: Seq<Attempt>,
)
    requires
        forall|i: int| 0 <= i < items.len() ==> a[i] == b[i],
    ensures
        cancelled(arbiter, items, a) == cancelled(arbiter, items, b),
    decreases items.len(),
{
    if items.len() > 0 {
        lemma_cancelled_agrees(arbiter, items.drop_last(), a, b);
    }
}

/// Serving looks at one list of answers for each control.
proof fn lemma_served_agrees<R>(
    w: WriterModel<R>,
    end: Option<ItemModel<R>>,
    controls: Seq<Control<R>>,
    a: Seq<Seq<Attempt>>,
    b: Seq<Seq<Attempt>>,
)
    requires
        forall|i: int| 0 <= i < controls.len() ==> a[i] == b[i],
    ensures
        w.served_all(end, controls, a) == w.served_all(end, controls, b),
        w.serve_calls(end, controls, a) == w.serve_calls(end, controls, b),
    decreases controls.len(),
{
    if controls.len() > 0 {
        lemma_served_agrees(w, end, controls.drop_last(), a, b);
    }
}

/// Whether an item is one of `holder`.
fn belongs<R>(item: &InputItem<R>, holder: HolderId) -> (yes: bool)
    ensures
        yes == (item@.holder() == holder),
{
    match item {
        InputItem::Write { request, .. } => request.key().holder() == holder,
        InputItem::End { handle, .. } => handle.holder() == holder,
    }
}

/// Takes the items of `holder` off a queue and leaves those of everybody else, in
/// their order.
fn take_items<R>(inputs: &mut VecDeque<InputItem<R>>, holder: HolderId) -> (theirs: VecDeque<
    InputItem<R>,
>)
    ensures
        item_models(theirs@) == items_of(item_models(old(inputs)@), holder, true),
        item_models(final(inputs)@) == items_of(item_models(old(inputs)@), holder, false),
{
    let ghost all = item_models(inputs@);
    let ghost mut k: int = 0;
    let mut theirs: VecDeque<InputItem<R>> = VecDeque::new();
    let mut others: VecDeque<InputItem<R>> = VecDeque::new();
    assert(all.skip(0) =~= all);
    assert(item_models(theirs@) =~= items_of(all.take(0), holder, true));
    assert(item_models(others@) =~= items_of(all.take(0), holder, false));
    while inputs.len() > 0
        invariant
            0 <= k <= all.len(),
            item_models(inputs@) == all.skip(k),
            item_models(theirs@) == items_of(all.take(k), holder, true),
            item_models(others@) == items_of(all.take(k), holder, false),
        decreases inputs@.len(),
    {
        let ghost before = inputs@;
        assert(item_models(before).len() == before.len());
        assert(item_models(before)[0] == all.skip(k)[0]);
        let item = inputs.pop_front().unwrap();
        proof {
            assert(before[0]@ == all[k]);
            assert(item_models(inputs@) =~= all.skip(k).skip(1));
            assert(all.skip(k).skip(1) =~= all.skip(k + 1));
            assert(all.take(k + 1).drop_last() =~= all.take(k));
            assert(all.take(k + 1).last() == item@);
        }
        let ghost mine = theirs@;
        let ghost rest = others@;
        if belongs(&item, holder) {
            theirs.push_back(item);
            assert(item_models(theirs@) =~= item_models(mine).push(item@));
        } else {
            others.push_back(item);
            assert(item_models(others@) =~= item_models(rest).push(item@));
        }
        proof {
            k = k + 1;
        }
    }
    proof {
        assert(all.skip(k).len() == 0);
        assert(all.take(k) =~= all);
    }
    *inputs = others;
    theirs
}

impl<R> InputWriter<R> {
    pub open spec fn wf(&self) -> bool {
        self@.wf()
    }

    /// The input authority of a run whose PTY was never owned.
    pub fn new(run_id: RunId) -> (writer: InputWriter<R>)
        ensures
            writer.wf(),
            writer@ == (WriterModel::<R> {
                arbiter: ArbiterModel {
                    run_id,
                    state: ControllerState::Unowned { epoch: ControllerEpoch(EPOCH_ZERO) },
                },
                kinds: Map::empty(),
                current: None,
                controls: Seq::empty(),
                inputs: Seq::empty(),
                next_holder: 1,
                next_request: 1,
            }),
    {
        let writer = InputWriter {
            arbiter: InputArbiter::new(run_id),
            kinds: HashMap::new(),
            current: None,
            controls: VecDeque::new(),
            inputs: VecDeque::new(),
            next_holder: 1,
            next_request: 1,
        };
        assert(writer@.inputs =~= Seq::empty());
        writer
    }

    /// A fresh holder identity for a connection or claim.
    pub fn next_holder(&mut self) -> (holder: HolderId)
        ensures
            holder.0 == old(self)@.next_holder,
            final(self)@ == (WriterModel {
                next_holder: if holder.0 == u64::MAX {
                    0
                } else {
                    (holder.0 + 1) as u64
                },
                ..old(self)@
            }),
    {
        let holder: u64 = self.next_holder;
        self.next_holder = if holder == u64::MAX {
            0
        } else {
            holder + 1
        };
        HolderId(holder)
    }

    /// Whether a turn would do anything.
    pub fn has_work(&self) -> (work: bool)
        ensures
            work == self@.has_work(),
    {
        self.controls.len() > 0 || self.inputs.len() > 0 || self.current.is_some()
    }

    /// Queues a control; handed back where the queue is full.
    pub fn push_control(&mut self, control: Control<R>) -> (pushed: Result<(), Control<R>>)
        requires
            old(self).wf(),
        ensures
            final(self).wf(),
            if old(self)@.controls.len() < CONTROL_CAPACITY {
                pushed == Ok::<(), Control<R>>(()) && final(self)@ == (WriterModel {
                    controls: old(self)@.controls.push(control),
                    ..old(self)@
                })
            } else {
                pushed == Err::<(), Control<R>>(control) && final(self)@ == old(self)@
            },
    {
        if self.controls.len() >= CONTROL_CAPACITY {
            return Err(control);
        }
        self.controls.push_back(control);
        Ok(())
    }

    /// Queues an input item; handed back where the queue is full.
    pub fn push_input(&mut self, item: InputItem<R>) -> (pushed: Result<(), InputItem<R>>)
        requires
            old(self).wf(),
            item.wf(),
        ensures
            final(self).wf(),
            if old(self)@.inputs.len() < INPUT_CAPACITY {
                pushed == Ok::<(), InputItem<R>>(()) && final(self)@ == (WriterModel {
                    inputs: old(self)@.inputs.push(item@),
                    ..old(self)@
                })
            } else {
                pushed == Err::<(), InputItem<R>>(item) && final(self)@ == old(self)@
            },
    {
        if self.inputs.len() >= INPUT_CAPACITY {
            return Err(item);
        }
        let ghost before = self@.inputs;
        self.inputs.push_back(item);
        assert(self@.inputs =~= before.push(item@));
        Ok(())
    }

    /// Asks for control of an unowned PTY.
    pub fn claim(&mut self, holder: HolderId, kind: ControllerKind, reply: R) -> (pushed: Result<
        (),
        Control<R>,
    >)
        requires
            old(self).wf(),
        ensures
            final(self).wf(),
            if old(self)@.controls.len() < CONTROL_CAPACITY {
                pushed == Ok::<(), Control<R>>(()) && final(self)@ == (WriterModel {
                    controls: old(self)@.controls.push(Control::Claim { holder, kind, reply }),
                    ..old(self)@
                })
            } else {
                pushed == Err::<(), Control<R>>(Control::Claim { holder, kind, reply })
                    && final(self)@ == old(self)@
            },
    {
        self.push_control(Control::Claim { holder, kind, reply })
    }

    /// Asks for a human takeover, retiring any current controller.
    pub fn takeover(&mut self, holder: HolderId, reply: R) -> (pushed: Result<(), Control<R>>)
        requires
            old(self).wf(),
        ensures
            final(self).wf(),
            if old(self)@.controls.len() < CONTROL_CAPACITY {
                pushed == Ok::<(), Control<R>>(()) && final(self)@ == (WriterModel {
                    controls: old(self)@.controls.push(Control::Takeover { holder, reply }),
                    ..old(self)@
                })
            } else {
                pushed == Err::<(), Control<R>>(Control::Takeover { holder, reply }) && final(self)@
                    == old(self)@
            },
    {
        self.push_control(Control::Takeover { holder, reply })
    }

    /// Asks for a window size, to be applied if `handle` still authorizes then.
    pub fn resize(&mut self, handle: &ControllerHandle, size: Geometry) -> (pushed: Result<
        (),
        Control<R>,
    >)
        requires
            old(self).wf(),
        ensures
            final(self).wf(),
            if old(self)@.controls.len() < CONTROL_CAPACITY {
                pushed == Ok::<(), Control<R>>(()) && final(self)@ == (WriterModel {
                    controls: old(self)@.controls.push(
                        Control::Resize { key: handle.key_of(), size },
                    ),
                    ..old(self)@
                })
            } else {
                pushed == Err::<(), Control<R>>(Control::Resize { key: handle.key_of(), size })
                    && final(self)@ == old(self)@
            },
    {
        self.push_control(Control::Resize { key: handle.key(), size })
    }

    /// The controller behind `handle` disconnected: it is released ahead of any
    /// queued input, and everything it still has queued or in flight is
    /// cancelled. Unlike at [`InputWriter::end_of_input`], nothing it queued is
    /// written after this is served, so a full PTY cannot keep a vanished client
    /// in control.
    pub fn disconnect(&mut self, handle: ControllerHandle) -> (pushed: Result<(), Control<R>>)
        requires
            old(self).wf(),
        ensures
            final(self).wf(),
            if old(self)@.controls.len() < CONTROL_CAPACITY {
                pushed == Ok::<(), Control<R>>(()) && final(self)@ == (WriterModel {
                    controls: old(self)@.controls.push(Control::Disconnect { handle }),
                    ..old(self)@
                })
            } else {
                pushed == Err::<(), Control<R>>(Control::Disconnect { handle }) && final(self)@
                    == old(self)@
            },
    {
        self.push_control(Control::Disconnect { handle })
    }

    /// A request for `bytes` under a fresh number; `None` where there is nothing
    /// to write.
    pub fn request(&mut self, handle: &ControllerHandle, bytes: Vec<u8>) -> (request: Option<
        PendingInput,
    >)
        requires
            old(self).wf(),
        ensures
            final(self).wf(),
            final(self)@ == old(self)@.numbered(),
            bytes@.len() == 0 <==> request is None,
            request matches Some(r) ==> r.wf() && r@ == old(self)@.requested(handle, bytes@),
    {
        let id: u64 = self.next_request;
        self.next_request = if id == u64::MAX {
            0
        } else {
            id + 1
        };
        match PendingInput::new(RequestId(id), handle, bytes) {
            Ok(request) => Some(request),
            Err(_) => None,
        }
    }

    /// Queues `bytes`, whose outcome goes to `reply`. `None` for empty input; the
    /// request comes back where the queue is full.
    pub fn submit(&mut self, handle: &ControllerHandle, bytes: Vec<u8>, reply: R) -> (pushed: Option<
        Result<(), InputItem<R>>,
    >)
        requires
            old(self).wf(),
        ensures
            final(self).wf(),
            bytes@.len() == 0 <==> pushed is None,
            pushed matches Some(p) ==> (p is Ok <==> old(self)@.inputs.len() < INPUT_CAPACITY),
            pushed matches Some(Err(item)) ==> item@ == (ItemModel::Write {
                request: old(self)@.requested(handle, bytes@),
                reply: Some(reply),
            }),
            final(self)@ == (if pushed matches Some(Ok(_)) {
                old(self)@.numbered().with_input(
                    ItemModel::Write {
                        request: old(self)@.requested(handle, bytes@),
                        reply: Some(reply),
                    },
                )
            } else {
                old(self)@.numbered()
            }),
    {
        match self.request(handle, bytes) {
            None => None,
            Some(request) => Some(self.push_input(InputItem::Write { request, reply: Some(reply) })),
        }
    }

    /// Queues `bytes` without anyone waiting for the outcome. `None` for empty
    /// input; the request comes back where the queue is full.
    pub fn write_nowait(&mut self, handle: &ControllerHandle, bytes: Vec<u8>) -> (pushed: Option<
        Result<(), InputItem<R>>,
    >)
        requires
            old(self).wf(),
        ensures
            final(self).wf(),
            bytes@.len() == 0 <==> pushed is None,
            pushed matches Some(p) ==> (p is Ok <==> old(self)@.inputs.len() < INPUT_CAPACITY),
            pushed matches Some(Err(item)) ==> item@ == (ItemModel::Write {
                request: old(self)@.requested(handle, bytes@),
                reply: None::<R>,
            }),
            final(self)@ == (if pushed matches Some(Ok(_)) {
                old(self)@.numbered().with_input(
                    ItemModel::Write {
                        request: old(self)@.requested(handle, bytes@),
                        reply: None::<R>,
                    },
                )
            } else {
                old(self)@.numbered()
            }),
    {
        match self.request(handle, bytes) {
            None => None,
            Some(request) => Some(self.push_input(InputItem::Write { request, reply: None })),
        }
    }

    /// Releases `handle` once every input it queued before this call is done.
    /// A handle that no longer authorizes releases nothing.
    pub fn end_of_input(&mut self, handle: ControllerHandle) -> (pushed: Result<(), InputItem<R>>)
        requires
            old(self).wf(),
        ensures
            final(self).wf(),
            pushed is Ok <==> old(self)@.inputs.len() < INPUT_CAPACITY,
            pushed matches Err(item) ==> item == (InputItem::End { handle, done: None::<R> }),
            final(self)@ == (if pushed is Ok {
                old(self)@.with_input(ItemModel::End { handle, done: None })
            } else {
                old(self)@
            }),
    {
        self.push_input(InputItem::End { handle, done: None })
    }

    /// Like [`InputWriter::end_of_input`], but `done` receives whether `handle`
    /// still held control when its input ended, so that every byte it queued
    /// before this call was authorized.
    pub fn end_of_input_and_wait(&mut self, handle: ControllerHandle, done: R) -> (pushed: Result<
        (),
        InputItem<R>,
    >)
        requires
            old(self).wf(),
        ensures
            final(self).wf(),
            pushed is Ok <==> old(self)@.inputs.len() < INPUT_CAPACITY,
            pushed matches Err(item) ==> item == (InputItem::End { handle, done: Some(done) }),
            final(self)@ == (if pushed is Ok {
                old(self)@.with_input(ItemModel::End { handle, done: Some(done) })
            } else {
                old(self)@
            }),
    {
        self.push_input(InputItem::End { handle, done: Some(done) })
    }

    /// End of a holder's input: releases it if it still authorizes, and forgets
    /// the holder either way. Returns whether it was still current.
    fn release(&mut self, handle: &ControllerHandle, effects: &mut Vec<Effect<R>>) -> (released:
        bool)
        ensures
            released == old(self)@.arbiter.authorizes(handle.key_of()),
            final(self)@ == old(self)@.released(*handle).0,
            final(effects)@ == old(effects)@ + old(self)@.released(*handle).1,
    {
        let human_owned = match self.arbiter.state() {
            ControllerState::Owned { kind, .. } => kind == ControllerKind::Human,
            ControllerState::Unowned { .. } => false,
        };
        let ghost before = *self;
        // A successful release proves `handle` was current, so `human_owned` then
        // describes the holder that just released.
        let released = self.arbiter.release(handle).is_ok();
        let holder: u64 = handle.holder().0;
        self.kinds.remove(&holder);
        if released && human_owned {
            effects.push(Effect::HumanReleased);
        }
        proof {
            assert(self@.kinds =~= before@.kinds.remove(holder));
            assert(effects@ =~= old(effects)@ + before@.released(*handle).1);
        }
        released
    }

    /// Finishes cancelled items in order. Returns how many bytes of those that
    /// were not written in full were accepted and asked for.
    fn cancel<S: PtyInputSink>(
        &mut self,
        items: VecDeque<InputItem<R>>,
        sink: &mut S,
        effects: &mut Vec<Effect<R>>,
    ) -> (counts: (u128, u128))
        requires
            forall|i: int| 0 <= i < items@.len() ==> (#[trigger] items@[i]).wf(),
        ensures
            final(self)@ == old(self)@,
            exists|attempts: Seq<Attempt>|
                {
                    let gone = #[trigger] cancelled(
                        old(self)@.arbiter,
                        item_models(items@),
                        attempts,
                    );
                    &&& final(effects)@ == old(effects)@ + gone.effects
                    &&& counts.0 == gone.accepted
                    &&& counts.1 == gone.total
                    &&& final(sink).attempts() == old(sink).attempts() + gone.calls
                },
    {
        let ghost tried = sink.attempts();
        let ghost arbiter = self@.arbiter;
        let ghost all = item_models(items@);
        let ghost start = effects@;
        let ghost mut attempts: Seq<Attempt> = Seq::empty();
        let ghost mut k: int = 0;
        let mut items = items;
        let count: usize = items.len();
        let mut accepted_total: u128 = 0;
        let mut bytes_total: u128 = 0;
        assert(all.skip(0) =~= all);
        assert(all.take(0) =~= Seq::empty());
        assert(effects@ =~= start + cancelled(arbiter, all.take(0), attempts).effects);
        assert(tried =~= tried + cancelled(arbiter, all.take(0), attempts).calls);
        while items.len() > 0
            invariant
                0 <= k <= all.len() == count,
                attempts.len() == k,
                self@ == old(self)@,
                arbiter == self@.arbiter,
                item_models(items@) == all.skip(k),
                forall|i: int| 0 <= i < items@.len() ==> (#[trigger] items@[i]).wf(),
                effects@ == start + cancelled(arbiter, all.take(k), attempts).effects,
                sink.attempts() == tried + cancelled(arbiter, all.take(k), attempts).calls,
                accepted_total == cancelled(arbiter, all.take(k), attempts).accepted,
                bytes_total == cancelled(arbiter, all.take(k), attempts).total,
                accepted_total <= k * 0xFFFF_FFFF_FFFF_FFFF,
                bytes_total <= k * 0xFFFF_FFFF_FFFF_FFFF,
            decreases items@.len(),
        {
            let ghost before = items@;
            let ghost so_far = effects@;
            assert(item_models(before).len() == before.len());
            assert(item_models(before)[0] == all.skip(k)[0]);
            let item = items.pop_front().unwrap();
            proof {
                assert(before[0].wf());
                assert(item_models(items@) =~= all.skip(k).skip(1));
                assert(all.skip(k).skip(1) =~= all.skip(k + 1));
                assert(all.take(k + 1).drop_last() =~= all.take(k));
                assert(all.take(k + 1).last() == item@);
                assert forall|i: int| 0 <= i < items@.len() implies (#[trigger] items@[i]).wf() by {
                    assert(before[i + 1].wf());
                }
            }
            let ghost mut attempt: Attempt = Ok(0);
            match item {
                InputItem::Write { request, reply } => {
                    let ghost asked = request@;
                    let ghost reached = sink.attempts();
                    let mut request = request;
                    let step = self.arbiter.write_step(&mut request, sink);
                    proof {
                        attempt = choose|a: Attempt|
                            request@ == #[trigger] arbiter.stepped(asked, a) && sink.attempts()
                                == reached + arbiter.calls(asked, a);
                    }
                    if let WriteStep::Done(outcome) = step {
                        if let InputOutcome::Incomplete { accepted, total, .. } = outcome {
                            accepted_total = accepted_total + accepted as u128;
                            bytes_total = bytes_total + total as u128;
                        }
                        if let Some(reply) = reply {
                            effects.push(Effect::Outcome { reply, outcome });
                        }
                    }
                },
                InputItem::End { done, .. } => {
                    // Cancelled by a disconnect: its input did not complete.
                    if let Some(reply) = done {
                        effects.push(Effect::Ended { reply, released: false });
                    }
                },
            }
            proof {
                let longer = attempts.push(attempt);
                lemma_cancelled_agrees(arbiter, all.take(k), attempts, longer);
                attempts = longer;
                k = k + 1;
                assert(effects@ =~= start + cancelled(arbiter, all.take(k), attempts).effects);
                assert(sink.attempts() =~= tried + cancelled(arbiter, all.take(k), attempts).calls);
            }
        }
        proof {
            assert(all.skip(k).len() == 0);
            assert(all.take(k) =~= all);
        }
        (accepted_total, bytes_total)
    }

    /// Takes everything that `holder` still has queued, staged or in flight.
    fn gather(&mut self, next_end: &mut Option<InputItem<R>>, holder: HolderId) -> (gone: VecDeque<
        InputItem<R>,
    >)
        requires
            old(self).wf(),
            *old(next_end) matches Some(item) ==> item@ is End,
        ensures
            final(self).wf(),
            final(self)@ == old(self)@.without(holder),
            item_model(*final(next_end)) == unless_of(item_model(*old(next_end)), holder),
            item_models(gone@) == old(self)@.pending_of(item_model(*old(next_end)), holder),
            forall|i: int| 0 <= i < gone@.len() ==> (#[trigger] gone@[i]).wf(),
    {
        let ghost w = self@;
        let mut gone = take_items(&mut self.inputs, holder);
        let ghost theirs = gone@;
        proof {
            lemma_items_of_len(w.inputs, holder, true);
            lemma_items_of_len(w.inputs, holder, false);
            assert forall|i: int| 0 <= i < theirs.len() implies (#[trigger] theirs[i]).wf() by {
                assert(item_models(theirs)[i] == theirs[i]@);
            }
            assert forall|i: int| 0 <= i < self@.inputs.len() implies (
            #[trigger] self@.inputs[i]).wf() by {
                assert(w.inputs.contains(self@.inputs[i]));
            }
        }
        let mine = match &*next_end {
            Some(item) => belongs(item, holder),
            None => false,
        };
        if mine {
            let item = next_end.take().unwrap();
            gone.push_back(item);
            assert(item_models(gone@) =~= item_models(theirs).push(item@));
        }
        let ghost staged = gone@;
        let writing = match &self.current {
            Some(current) => current.request.key().holder() == holder,
            None => false,
        };
        if writing {
            let current = self.current.take().unwrap();
            let item = InputItem::Write { request: current.request, reply: current.reply };
            gone.push_back(item);
            assert(item_models(gone@) =~= item_models(staged).push(item@));
        }
        gone
    }

    /// Serves a disconnect ahead of all input.
    fn serve_disconnect<S: PtyInputSink>(
        &mut self,
        handle: ControllerHandle,
        next_end: &mut Option<InputItem<R>>,
        sink: &mut S,
        effects: &mut Vec<Effect<R>>,
    )
        requires
            old(self).wf(),
            *old(next_end) matches Some(item) ==> item@ is End,
        ensures
            final(self).wf(),
            *final(next_end) matches Some(item) ==> item@ is End,
            exists|attempts: Seq<Attempt>|
                {
                    let served = #[trigger] old(self)@.disconnected(
                        item_model(*old(next_end)),
                        handle,
                        attempts,
                    );
                    &&& final(self)@ == served.0
                    &&& item_model(*final(next_end)) == served.1
                    &&& final(effects)@ == old(effects)@ + served.2
                    &&& final(sink).attempts() == old(sink).attempts() + old(
                        self)@.disconnect_calls(item_model(*old(next_end)), handle, attempts)
                },
    {
        let ghost tried = sink.attempts();
        let ghost w = self@;
        let ghost end = item_model(*next_end);
        let ghost start = effects@;
        let holder = handle.holder();
        let kind = match kind_of(&self.kinds, holder.0) {
            Some(kind) => kind,
            None => ControllerKind::Human,
        };
        self.release(&handle, effects);
        let ghost mid = effects@;
        let gone = self.gather(next_end, holder);
        let ghost all = item_models(gone@);
        let ghost arbiter = self@.arbiter;
        let (accepted, total): (u128, u128) = self.cancel(gone, sink, effects);
        let ghost attempts = choose|attempts: Seq<Attempt>|
            {
                let c = #[trigger] cancelled(arbiter, all, attempts);
                &&& effects@ == mid + c.effects
                &&& accepted == c.accepted
                &&& total == c.total
                &&& sink.attempts() == tried + c.calls
            };
        if total > 0 {
            effects.push(Effect::InputRevoked { kind, accepted, total });
        }
        proof {
            let served = w.disconnected(end, handle, attempts);
            assert(effects@ =~= start + served.2);
        }
    }

    /// Serves one control that leaves the queues alone.
    fn apply_control(&mut self, control: Control<R>, effects: &mut Vec<Effect<R>>)
        requires
            old(self).wf(),
            !(control is Disconnect),
        ensures
            final(self).wf(),
            forall|end: Option<ItemModel<R>>, attempts: Seq<Attempt>|
                {
                    let served = #[trigger] old(self)@.served(end, control, attempts);
                    &&& final(self)@ == served.0
                    &&& end == served.1
                    &&& final(effects)@ == old(effects)@ + served.2
                },
    {
        let ghost w = self@;
        let ghost start = effects@;
        match control {
            Control::Claim { holder, kind, reply } => {
                let result = self.arbiter.claim(holder, kind);
                if result.is_ok() {
                    self.kinds.insert(holder.0, kind);
                    if kind == ControllerKind::Human {
                        effects.push(Effect::HumanControl(Trigger::Attach));
                    }
                }
                effects.push(Effect::Claimed { reply, result });
            },
            Control::Takeover { holder, reply } => {
                let result = self.arbiter.takeover(holder);
                if let Ok(takeover) = &result {
                    self.kinds.insert(holder.0, ControllerKind::Human);
                    effects.push(Effect::HumanControl(Trigger::Takeover));
                    if let Some((retired, kind)) = takeover.retired {
                        effects.push(
                            Effect::Retire {
                                holder: retired,
                                kind,
                                epoch: takeover.handle.epoch(),
                            },
                        );
                    }
                }
                effects.push(Effect::TookOver { reply, result });
            },
            Control::Resize { key, size } => {
                if self.arbiter.authorize(key).is_ok() {
                    effects.push(Effect::Resize(size));
                }
            },
            Control::Disconnect { .. } => {},
        }
        proof {
            assert forall|end: Option<ItemModel<R>>, attempts: Seq<Attempt>|
                {
                    let served = #[trigger] w.served(end, control, attempts);
                    &&& self@ == served.0
                    &&& end == served.1
                    &&& effects@ == start + served.2
                } by {
                let served = w.served(end, control, attempts);
                assert(effects@ =~= start + served.2);
                assert(self@ == served.0);
            }
        }
    }

    /// Takes the next input off the queue if nothing is being written: a request
    /// becomes the current one, an end marker is handed out.
    fn stage(&mut self) -> (end: Option<InputItem<R>>)
        requires
            old(self).wf(),
            old(self)@.controls.len() == 0,
        ensures
            final(self).wf(),
            final(self)@ == old(self)@.taken().0,
            item_model(end) == old(self)@.taken().1,
            end matches Some(item) ==> item@ is End,
    {
        let ghost w = self@;
        assert(w.controls =~= Seq::empty());
        if self.current.is_some() || self.inputs.len() == 0 {
            return None;
        }
        let item = self.inputs.pop_front().unwrap();
        proof {
            assert(w.inputs[0] == item@);
            assert(w.inputs[0].wf());
            assert(item_models(self.inputs@) =~= w.inputs.skip(1));
            assert forall|i: int| 0 <= i < self@.inputs.len() implies (
            #[trigger] self@.inputs[i]).wf() by {
                assert(w.inputs[i + 1].wf());
            }
        }
        match item {
            InputItem::Write { request, reply } => {
                self.current = Some(Current { request, reply });
                None
            },
            InputItem::End { handle, done } => Some(InputItem::End { handle, done }),
        }
    }

    /// Serves controls in order.
    fn serve<S: PtyInputSink>(
        &mut self,
        controls: VecDeque<Control<R>>,
        end: &mut Option<InputItem<R>>,
        sink: &mut S,
        effects: &mut Vec<Effect<R>>,
    )
        requires
            old(self).wf(),
            *old(end) matches Some(item) ==> item@ is End,
        ensures
            final(self).wf(),
            *final(end) matches Some(item) ==> item@ is End,
            exists|attempts: Seq<Seq<Attempt>>|
                {
                    let served = #[trigger] old(self)@.served_all(
                        item_model(*old(end)),
                        controls@,
                        attempts,
                    );
                    &&& final(self)@ == served.0
                    &&& item_model(*final(end)) == served.1
                    &&& final(effects)@ == old(effects)@ + served.2
                    &&& final(sink).attempts() == old(sink).attempts() + old(self)@.serve_calls(
                        item_model(*old(end)),
                        controls@,
                        attempts,
                    )
                },
    {
        let ghost tried = sink.attempts();
        let ghost w = self@;
        let ghost first_end = item_model(*end);
        let ghost start = effects@;
        let ghost all = controls@;
        let ghost mut k: int = 0;
        let ghost mut attempts: Seq<Seq<Attempt>> = Seq::empty();
        let mut controls = controls;
        proof {
            assert(all.skip(0) =~= all);
            assert(all.take(0) =~= Seq::empty());
            assert(effects@ =~= start + w.served_all(first_end, all.take(0), attempts).2);
            assert(tried =~= tried + w.serve_calls(first_end, all.take(0), attempts));
        }
        while controls.len() > 0
            invariant
                0 <= k <= all.len(),
                attempts.len() == k,
                controls@ == all.skip(k),
                self.wf(),
                *end matches Some(item) ==> item@ is End,
                self@ == w.served_all(first_end, all.take(k), attempts).0,
                item_model(*end) == w.served_all(first_end, all.take(k), attempts).1,
                effects@ == start + w.served_all(first_end, all.take(k), attempts).2,
                sink.attempts() == tried + w.serve_calls(first_end, all.take(k), attempts),
            decreases controls@.len(),
        {
            let ghost before = controls@;
            let ghost at = self@;
            let ghost at_end = item_model(*end);
            let ghost so_far = effects@;
            let control = controls.pop_front().unwrap();
            proof {
                assert(control == all[k]);
                assert(controls@ =~= all.skip(k + 1));
                assert(all.take(k + 1).drop_last() =~= all.take(k));
                assert(all.take(k + 1).last() == control);
            }
            let ghost mut answers: Seq<Attempt> = Seq::empty();
            let ghost reached = sink.attempts();
            match control {
                Control::Disconnect { handle } => {
                    self.serve_disconnect(handle, end, sink, effects);
                    proof {
                        answers = choose|attempts: Seq<Attempt>|
                            {
                                let served = #[trigger] at.disconnected(at_end, handle, attempts);
                                &&& self@ == served.0
                                &&& item_model(*end) == served.1
                                &&& effects@ == so_far + served.2
                                &&& sink.attempts() == reached + at.disconnect_calls(
                                    at_end,
                                    handle,
                                    attempts,
                                )
                            };
                    }
                },
                other => {
                    self.apply_control(other, effects);
                    assert(at.served(at_end, control, answers).1 == at_end);
                    assert(sink.attempts() =~= reached + at.control_calls(
                        at_end,
                        control,
                        answers,
                    ));
                },
            }
            proof {
                let served = at.served(at_end, control, answers);
                assert(self@ == served.0);
                let longer = attempts.push(answers);
                lemma_served_agrees(w, first_end, all.take(k), attempts, longer);
                attempts = longer;
                k = k + 1;
                assert(effects@ =~= start + w.served_all(first_end, all.take(k), attempts).2);
                assert(sink.attempts() =~= tried + w.serve_calls(
                    first_end,
                    all.take(k),
                    attempts,
                ));
            }
        }
        proof {
            assert(all.skip(k).len() == 0);
            assert(all.take(k) =~= all);
        }
    }

    /// One input step: an end marker, or one write step of the current request.
    /// Returns whether the PTY's input buffer was full.
    fn advance<S: PtyInputSink>(
        &mut self,
        end: Option<InputItem<R>>,
        sink: &mut S,
        effects: &mut Vec<Effect<R>>,
    ) -> (stalled: bool)
        requires
            old(self).wf(),
            end matches Some(item) ==> item@ is End,
        ensures
            final(self).wf(),
            exists|attempt: Attempt|
                {
                    let after = #[trigger] old(self)@.advanced(item_model(end), attempt);
                    &&& final(self)@ == after.0
                    &&& final(effects)@ == old(effects)@ + after.1
                    &&& stalled == after.2
                    &&& final(sink).attempts() == old(sink).attempts() + old(self)@.advance_calls(
                        item_model(end),
                        attempt,
                    )
                },
    {
        let ghost tried = sink.attempts();
        let ghost w = self@;
        let ghost start = effects@;
        let ghost marker = item_model(end);
        if let Some(InputItem::End { handle, done }) = end {
            let released = self.release(&handle, effects);
            if let Some(reply) = done {
                effects.push(Effect::Ended { reply, released });
            }
            proof {
                let attempt: Attempt = Ok(0);
                let after = w.advanced(marker, attempt);
                assert(effects@ =~= start + after.1);
                assert(sink.attempts() =~= tried + w.advance_calls(marker, attempt));
            }
            return false;
        }
        let writing = match self.current.take() {
            Some(writing) => writing,
            None => {
                proof {
                    let attempt: Attempt = Ok(0);
                    let after = w.advanced(marker, attempt);
                    assert(effects@ =~= start + after.1);
                    assert(sink.attempts() =~= tried + w.advance_calls(marker, attempt));
                }
                return false;
            },
        };
        let Current { request, reply } = writing;
        let mut request = request;
        let ghost asked = request@;
        let before: usize = request.accepted();
        let step = self.arbiter.write_step(&mut request, sink);
        let ghost attempt = choose|a: Attempt|
            request@ == #[trigger] w.arbiter.stepped(asked, a) && sink.attempts() == tried
                + w.arbiter.calls(asked, a);
        let ghost after = w.advanced(marker, attempt);
        match step {
            WriteStep::Done(outcome) => {
                if let InputOutcome::Incomplete { accepted, total, reason, .. } = outcome {
                    if let IncompleteReason::NotAuthorized(_) = reason {
                        let kind = match kind_of(&self.kinds, request.key().holder().0) {
                            Some(kind) => kind,
                            None => ControllerKind::Agent,
                        };
                        effects.push(
                            Effect::InputRevoked {
                                kind,
                                accepted: accepted as u128,
                                total: total as u128,
                            },
                        );
                    }
                }
                if let Some(reply) = reply {
                    effects.push(Effect::Outcome { reply, outcome });
                }
                assert(effects@ =~= start + after.1);
                false
            },
            WriteStep::Pending => {
                // No progress means that the PTY input buffer is full.
                let stalled = request.accepted() == before;
                self.current = Some(Current { request, reply });
                assert(effects@ =~= start + after.1);
                stalled
            },
        }
    }

    /// The first half of a turn: the next input is staged, so that a disconnect can
    /// cancel it along with everything else its holder queued, and all queued controls
    /// are served. The effects have to be carried out before [`InputWriter::end_turn`]
    /// is called with what was staged.
    pub fn begin_turn<S: PtyInputSink>(&mut self, sink: &mut S) -> (begun: Begun<R>)
        requires
            old(self).wf(),
        ensures
            final(self).wf(),
            begun.end matches Some(item) ==> item@ is End,
            exists|attempts: Seq<Seq<Attempt>>|
                {
                    let served = #[trigger] old(self)@.taken().0.served_all(
                        old(self)@.taken().1,
                        old(self)@.controls,
                        attempts,
                    );
                    &&& final(self)@ == served.0
                    &&& item_model(begun.end) == served.1
                    &&& begun.effects@ == served.2
                    &&& final(sink).attempts() == old(sink).attempts() + old(
                        self)@.taken().0.serve_calls(
                        old(self)@.taken().1,
                        old(self)@.controls,
                        attempts,
                    )
                },
    {
        let ghost w = self@;
        let mut controls: VecDeque<Control<R>> = VecDeque::new();
        controls.append(&mut self.controls);
        assert(controls@ =~= w.controls);
        assert(self@.taken() == w.taken());
        let mut end = self.stage();
        let mut effects: Vec<Effect<R>> = Vec::new();
        self.serve(controls, &mut end, sink, &mut effects);
        proof {
            let (taken, first_end) = w.taken();
            assert forall|attempts: Seq<Seq<Attempt>>| #[trigger]
                taken.served_all(first_end, w.controls, attempts).2 =~= Seq::<Effect<R>>::empty()
                    + taken.served_all(first_end, w.controls, attempts).2 by {}
        }
        Begun { effects, end }
    }

    /// The second half of a turn: the end marker that was staged, or one write step of
    /// the current request.
    pub fn end_turn<S: PtyInputSink>(&mut self, end: Option<InputItem<R>>, sink: &mut S) -> (turn:
        Turn<R>)
        requires
            old(self).wf(),
            end matches Some(item) ==> item@ is End,
        ensures
            final(self).wf(),
            exists|attempt: Attempt|
                {
                    let after = #[trigger] old(self)@.advanced(item_model(end), attempt);
                    &&& final(self)@ == after.0
                    &&& turn.effects@ == after.1
                    &&& turn.stalled == after.2
                    &&& final(sink).attempts() == old(sink).attempts() + old(self)@.advance_calls(
                        item_model(end),
                        attempt,
                    )
                },
    {
        let ghost w = self@;
        let ghost marker = item_model(end);
        let mut effects: Vec<Effect<R>> = Vec::new();
        let stalled = self.advance(end, sink, &mut effects);
        proof {
            assert forall|attempt: Attempt| #[trigger] w.advanced(marker, attempt).1
                =~= Seq::<Effect<R>>::empty() + w.advanced(marker, attempt).1 by {}
        }
        Turn { effects, stalled }
    }

    /// One turn of the writer: all queued controls, then one input step. What the
    /// PTY answers to each write attempt is the only thing left open.
    pub fn turn<S: PtyInputSink>(&mut self, sink: &mut S) -> (turn: Turn<R>)
        requires
            old(self).wf(),
        ensures
            final(self).wf(),
            exists|attempts: Seq<Seq<Attempt>>, attempt: Attempt|
                {
                    let after = #[trigger] old(self)@.turned(attempts, attempt);
                    &&& final(self)@ == after.0
                    &&& turn.effects@ == after.1
                    &&& turn.stalled == after.2
                    &&& final(sink).attempts() == old(sink).attempts() + old(self)@.turn_calls(
                        attempts,
                        attempt,
                    )
                },
    {
        let ghost tried = sink.attempts();
        let ghost w = self@;
        let begun = self.begin_turn(sink);
        let ghost (taken, first_end) = w.taken();
        let ghost attempts = choose|attempts: Seq<Seq<Attempt>>|
            {
                let served = #[trigger] taken.served_all(first_end, w.controls, attempts);
                &&& self@ == served.0
                &&& item_model(begun.end) == served.1
                &&& begun.effects@ == served.2
                &&& sink.attempts() == tried + taken.serve_calls(first_end, w.controls, attempts)
            };
        let ghost reached = sink.attempts();
        let ghost mid = self@;
        let ghost mid_end = item_model(begun.end);
        let mut effects = begun.effects;
        let ghost mid_effects = effects@;
        let rest = self.end_turn(begun.end, sink);
        let mut more = rest.effects;
        let ghost last_effects = more@;
        effects.append(&mut more);
        proof {
            let attempt = choose|attempt: Attempt|
                {
                    let after = #[trigger] mid.advanced(mid_end, attempt);
                    &&& self@ == after.0
                    &&& last_effects == after.1
                    &&& rest.stalled == after.2
                    &&& sink.attempts() == reached + mid.advance_calls(mid_end, attempt)
                };
            let after = w.turned(attempts, attempt);
            assert(effects@ =~= mid_effects + last_effects);
            assert(self@ == after.0 && effects@ == after.1 && rest.stalled == after.2);
            assert(sink.attempts() =~= tried + w.turn_calls(attempts, attempt));
        }
        Turn { effects, stalled: rest.stalled }
    }
}

// What holds of the writer as a whole.

/// A disconnect that is served leaves its holder without control and without
/// anything queued, staged or in flight, and takes nothing from anybody else.
pub proof fn law_disconnect_cancels<R>(
    w: WriterModel<R>,
    end: Option<ItemModel<R>>,
    handle: ControllerHandle,
    attempts: Seq<Attempt>,
)
    ensures
        ({
            let (after, after_end, _) = w.disconnected(end, handle, attempts);
            let holder = handle.key_of().holder_of();
            &&& !after.arbiter.authorizes(handle.key_of())
            &&& forall|i: int|
                0 <= i < after.inputs.len() ==> (#[trigger] after.inputs[i]).holder() != holder
            &&& after.current matches Some((request, _)) ==> request.key.holder_of() != holder
            &&& after_end matches Some(item) ==> item.holder() != holder
            &&& items_of(after.inputs, holder, false) == items_of(w.inputs, holder, false)
            &&& w.current matches Some((request, _)) ==> request.key.holder_of() != holder
                ==> after.current == w.current
        }),
{
    let holder = handle.key_of().holder_of();
    lemma_items_of_len(w.inputs, holder, false);
    lemma_items_of_idempotent(w.inputs, holder);
}

proof fn lemma_items_of_idempotent<R>(items: Seq<ItemModel<R>>, holder: HolderId)
    ensures
        items_of(items_of(items, holder, false), holder, false) == items_of(items, holder, false),
    decreases items.len(),
{
    if items.len() > 0 {
        lemma_items_of_idempotent(items.drop_last(), holder);
        let head = items_of(items.drop_last(), holder, false);
        if items.last().holder() != holder {
            assert(head.push(items.last()).drop_last() =~= head);
        }
    }
}

/// Where the arbiter authorizes nobody, cancelling never reaches the PTY, and
/// every cancelled request ends as not authorized with what it had written.
proof fn lemma_cancelled_unreached<R>(
    arbiter: ArbiterModel,
    items: Seq<ItemModel<R>>,
    a: Seq<Attempt>,
    b: Seq<Attempt>,
)
    requires
        arbiter.state is Unowned,
    ensures
        cancelled(arbiter, items, a) == cancelled(arbiter, items, b),
        cancelled(arbiter, items, a).calls.len() == 0,
    decreases items.len(),
{
    if items.len() > 0 {
        lemma_cancelled_unreached(arbiter, items.drop_last(), a, b);
    }
}

/// When the controller that holds the PTY disconnects, nothing that it queued is
/// written: the PTY is not reached, whatever it would answer.
pub proof fn law_disconnect_writes_nothing<R>(
    w: WriterModel<R>,
    end: Option<ItemModel<R>>,
    handle: ControllerHandle,
    a: Seq<Attempt>,
    b: Seq<Attempt>,
)
    requires
        w.arbiter.authorizes(handle.key_of()),
    ensures
        w.disconnected(end, handle, a) == w.disconnected(end, handle, b),
        w.disconnected(end, handle, a).0.arbiter.state is Unowned,
        w.disconnect_calls(end, handle, a).len() == 0,
{
    let holder = handle.key_of().holder_of();
    let free = w.released(handle).0;
    lemma_cancelled_unreached(free.arbiter, free.pending_of(end, holder), a, b);
}

/// Controls come before input: a takeover that is queued while a request is being
/// written is served before the next write attempt. The request writes nothing
/// more, and its outcome says how much it had written.
pub proof fn law_takeover_preempts_input<R>(
    w: WriterModel<R>,
    holder: HolderId,
    reply: R,
    attempts: Seq<Seq<Attempt>>,
    attempt: Attempt,
)
    requires
        w.wf(),
        w.controls == seq![Control::Takeover { holder, reply }],
        w.current is Some,
        w.arbiter.authorizes((w.current->0).0.key),
        w.arbiter.epoch().0 < u64::MAX,
    ensures
        ({
            let (request, waiting) = w.current->0;
            let (after, effects, stalled) = w.turned(attempts, attempt);
            let outcome = request.incomplete(
                IncompleteReason::NotAuthorized(StaleReason::EpochMismatch),
            );
            &&& after.current is None
            &&& after.arbiter == w.arbiter.taken_over(holder).0
            &&& !stalled
            &&& w.turn_calls(attempts, attempt).len() == 0
            &&& waiting is Some ==> effects.last() == (Effect::Outcome {
                reply: waiting->0,
                outcome,
            })
        }),
{
    reveal_with_fuel(WriterModel::served_all, 2);
    reveal_with_fuel(WriterModel::serve_calls, 2);
    let (request, waiting) = w.current->0;
    let (taken, end) = w.taken();
    assert(w.controls.drop_last() =~= Seq::empty());
    let (w2, end2, effects) = taken.served_all(end, w.controls, attempts);
    assert(w2.arbiter == w.arbiter.taken_over(holder).0);
    assert(w2.current == w.current);
    assert(end2 is None);
}

proof fn lemma_serving_keeps_controls<R>(
    w: WriterModel<R>,
    end: Option<ItemModel<R>>,
    controls: Seq<Control<R>>,
    attempts: Seq<Seq<Attempt>>,
)
    ensures
        w.served_all(end, controls, attempts).0.controls == w.controls,
    decreases controls.len(),
{
    if controls.len() > 0 {
        lemma_serving_keeps_controls(w, end, controls.drop_last(), attempts);
    }
}

/// Every control that is queued when a turn begins is served in it, before the next input
/// step: a request whose handle does not authorize behind them writes nothing more, and
/// is decided with what it had written. However much input is queued, and whatever the
/// PTY answers, it delays no control.
pub proof fn law_controls_come_before_input<R>(
    w: WriterModel<R>,
    attempts: Seq<Seq<Attempt>>,
    attempt: Attempt,
)
    ensures
        ({
            let (staged, end) = w.taken();
            let (served, end2, effects) = staged.served_all(end, w.controls, attempts);
            let (after, all, _) = w.turned(attempts, attempt);
            &&& after.controls.len() == 0
            &&& effects.is_prefix_of(all)
            &&& end2 is None ==> (served.current matches Some((request, waiting)) ==> (
            request.outcome is None && !served.arbiter.authorizes(request.key) ==> {
                &&& after.current is None
                &&& served.advance_calls(end2, attempt).len() == 0
                &&& waiting matches Some(reply) ==> all.last() == (Effect::Outcome {
                    reply,
                    outcome: request.incomplete(
                        IncompleteReason::NotAuthorized(served.arbiter.stale(request.key)->0),
                    ),
                })
            }))
        }),
{
    let (staged, end) = w.taken();
    lemma_serving_keeps_controls(staged, end, w.controls, attempts);
    let (served, end2, effects) = staged.served_all(end, w.controls, attempts);
    let (_, more, _) = served.advanced(end2, attempt);
    assert((effects + more).subrange(0, effects.len() as int) =~= effects);
}

/// Input is served in order, and an end marker only once everything queued before
/// it is done: it is handed out from the head of the queue while nothing is
/// being written.
pub proof fn law_end_of_input_drains<R>(w: WriterModel<R>)
    ensures
        w.taken().1 is Some ==> w.current is None && w.inputs.len() > 0 && w.taken().1 == Some(
            w.inputs[0],
        ) && w.taken().0.inputs == w.inputs.skip(1),
        w.current is Some ==> w.taken().0.inputs == w.inputs && w.taken().0.current == w.current,
{
}

/// A request that is being written stays the current one until it is decided, and
/// its bytes are written in order: each step leaves a longer or equal prefix of
/// them written.
pub proof fn law_current_request_progresses<R>(w: WriterModel<R>, attempt: Attempt)
    requires
        w.wf(),
        w.current is Some,
    ensures
        w.advanced(None, attempt).0.current matches Some((request, reply)) ==> {
            &&& request.bytes == (w.current->0).0.bytes
            &&& (w.current->0).0.accepted <= request.accepted < request.bytes.len()
            &&& reply == (w.current->0).1
        },
        w.advanced(None, attempt).2 ==> w.advanced(None, attempt).0 == w,
{
}

// What each operation does, in terms of what it was given and what it gave back.

/// A takeover retires whoever owned the PTY. Where it succeeds, what has to be done is: a
/// human took control; then, only where the PTY was owned, one retirement, which names that
/// owner, its kind (either kind) and the new epoch; then the answer. Where no epoch is
/// left, the answer is all there is, and nothing changes.
pub proof fn law_takeover_retires_the_owner<R>(
    w: WriterModel<R>,
    end: Option<ItemModel<R>>,
    holder: HolderId,
    reply: R,
    attempts: Seq<Attempt>,
)
    ensures
        ({
            let (after, after_end, effects) = w.served(
                end,
                Control::Takeover { holder, reply },
                attempts,
            );
            &&& after_end == end
            &&& after.current == w.current && after.inputs == w.inputs && after.controls
                == w.controls
            &&& after.next_holder == w.next_holder && after.next_request == w.next_request
            &&& w.arbiter.epoch().0 == u64::MAX ==> {
                &&& effects =~= seq![
                    Effect::TookOver { reply, result: Err(ControlError::EpochExhausted) },
                ]
                &&& after == w
            }
            &&& w.arbiter.epoch().0 < u64::MAX ==> {
                &&& effects.len() > 0
                &&& effects.last() matches Effect::TookOver { reply: to, result: Ok(takeover) }
                &&& to == reply
                &&& takeover.handle.key_of().epoch_of().0 == w.arbiter.epoch().0 + 1
                &&& takeover.handle.key_of().holder_of() == holder
                &&& takeover.handle.key_of().run_of() == w.arbiter.run_id
                &&& takeover.handle.kind_of() == ControllerKind::Human
                &&& after.arbiter.authorizes(takeover.handle.key_of())
                &&& after.arbiter.state is Owned && after.arbiter.state->kind
                    == ControllerKind::Human
                &&& after.kinds == w.kinds.insert(holder.0, ControllerKind::Human)
                &&& effects[0] == Effect::<R>::HumanControl(Trigger::Takeover)
                &&& w.arbiter.state is Unowned ==> effects.len() == 2
                &&& w.arbiter.state matches ControllerState::Owned { holder: owner, kind, .. }
                    ==> effects.len() == 3 && effects[1] == (Effect::<R>::Retire {
                    holder: owner,
                    kind,
                    epoch: takeover.handle.key_of().epoch_of(),
                })
            }
        }),
{
    broadcast use crate::model::pty_control::lemma_key_parts, crate::model::pty_control::lemma_handle_parts;
}

/// The same of a turn in which a takeover is the one control that waits: the retirement of
/// the owner stands between the news that a human took control and the answer, and the PTY
/// is not written to.
pub proof fn law_takeover_turn_retires_the_owner<R, S: PtyInputSink>(
    writer: &mut InputWriter<R>,
    sink: &mut S,
    begun: Begun<R>,
    holder: HolderId,
    reply: R,
)
    requires
        old(writer).wf(),
        old(writer)@.controls == seq![Control::Takeover { holder, reply }],
        old(writer)@.arbiter.epoch().0 < u64::MAX,
        call_ensures(InputWriter::<R>::begin_turn::<S>, (writer, sink), begun),
    ensures
        final(sink).attempts() == old(sink).attempts(),
        final(writer)@.controls.len() == 0,
        final(writer)@.arbiter.state matches ControllerState::Owned { holder: h, kind, epoch } && h
            == holder && kind == ControllerKind::Human && epoch.0 == old(writer)@.arbiter.epoch().0
            + 1,
        begun.effects@.len() == if old(writer)@.arbiter.state is Owned {
            3int
        } else {
            2
        },
        begun.effects@[0] == Effect::<R>::HumanControl(Trigger::Takeover),
        old(writer)@.arbiter.state matches ControllerState::Owned { holder: owner, kind, epoch }
            ==> begun.effects@[1] == (Effect::<R>::Retire {
            holder: owner,
            kind,
            epoch: ControllerEpoch((epoch.0 + 1) as u64),
        }),
        begun.effects@.last() matches Effect::TookOver { reply: to, result: Ok(takeover) } && to
            == reply && takeover.handle.key_of().holder_of() == holder,
{
    let (staged, end) = old(writer)@.taken();
    let attempts = choose|attempts: Seq<Seq<Attempt>>|
        {
            let served = #[trigger] staged.served_all(end, old(writer)@.controls, attempts);
            &&& final(writer)@ == served.0
            &&& item_model(begun.end) == served.1
            &&& begun.effects@ == served.2
            &&& final(sink).attempts() == old(sink).attempts() + staged.serve_calls(
                end,
                old(writer)@.controls,
                attempts,
            )
        };
    lemma_single_control(staged, end, Control::Takeover { holder, reply }, attempts);
    law_takeover_retires_the_owner(staged, end, holder, reply, attempts[0]);
    assert(old(sink).attempts() + Seq::<Call>::empty() =~= old(sink).attempts());
}

/// One control that waits is served by itself.
proof fn lemma_single_control<R>(
    w: WriterModel<R>,
    end: Option<ItemModel<R>>,
    control: Control<R>,
    attempts: Seq<Seq<Attempt>>,
)
    ensures
        w.served_all(end, seq![control], attempts) == w.served(end, control, attempts[0]),
        w.serve_calls(end, seq![control], attempts) == w.control_calls(end, control, attempts[0]),
{
    let controls = seq![control];
    assert(controls.drop_last() =~= Seq::<Control<R>>::empty());
    assert(controls.last() == control);
    assert(w.served_all(end, Seq::empty(), attempts) == (w, end, Seq::<Effect<R>>::empty()));
    assert(w.serve_calls(end, Seq::empty(), attempts) =~= Seq::<Call>::empty());
    let more = w.served(end, control, attempts[0]).2;
    assert(Seq::<Effect<R>>::empty() + more =~= more);
    let calls = w.control_calls(end, control, attempts[0]);
    assert(Seq::<Call>::empty() + calls =~= calls);
}

/// Controls are served one behind the other, in the order in which they were asked for:
/// each meets what the one before it left, and its effects come behind those of all before.
pub proof fn law_controls_are_served_in_order<R>(
    w: WriterModel<R>,
    end: Option<ItemModel<R>>,
    controls: Seq<Control<R>>,
    control: Control<R>,
    attempts: Seq<Seq<Attempt>>,
)
    ensures
        ({
            let before = w.served_all(end, controls, attempts);
            let last = before.0.served(before.1, control, attempts[controls.len() as int]);
            let all = w.served_all(end, controls.push(control), attempts);
            &&& all.0 == last.0
            &&& all.1 == last.1
            &&& all.2 == before.2 + last.2
        }),
{
    assert(controls.push(control).drop_last() =~= controls);
}

/// A claim on a PTY that nobody owns is granted, at the next epoch, and a human's is
/// announced before it is answered, an agent's is only answered. A claim on an owned PTY is
/// told who owns it, and changes nothing.
#[verifier::rlimit(40)]
pub proof fn law_claim_turn<R, S: PtyInputSink>(
    writer: &mut InputWriter<R>,
    sink: &mut S,
    begun: Begun<R>,
    holder: HolderId,
    kind: ControllerKind,
    reply: R,
)
    requires
        old(writer).wf(),
        old(writer)@.controls == seq![Control::Claim { holder, kind, reply }],
        call_ensures(InputWriter::<R>::begin_turn::<S>, (writer, sink), begun),
    ensures
        final(sink).attempts() == old(sink).attempts(),
        final(writer)@.controls.len() == 0,
        begun.effects@.len() > 0,
        old(writer)@.arbiter.state matches ControllerState::Owned {
            holder: owner,
            kind: owner_kind,
            epoch,
        } ==> {
            &&& final(writer)@.arbiter == old(writer)@.arbiter
            &&& final(writer)@.kinds == old(writer)@.kinds
            &&& begun.effects@ =~= seq![
                Effect::Claimed {
                    reply,
                    result: Err(ControlError::Busy { holder: owner, kind: owner_kind, epoch }),
                },
            ]
        },
        old(writer)@.arbiter.state matches ControllerState::Unowned { epoch } ==> (if epoch.0
            == u64::MAX {
            &&& final(writer)@.arbiter == old(writer)@.arbiter
            &&& begun.effects@ =~= seq![
                Effect::Claimed { reply, result: Err(ControlError::EpochExhausted) },
            ]
        } else {
            &&& final(writer)@.arbiter.state == (ControllerState::Owned {
                holder,
                kind,
                epoch: ControllerEpoch((epoch.0 + 1) as u64),
            })
            &&& final(writer)@.kinds == old(writer)@.kinds.insert(holder.0, kind)
            &&& begun.effects@.last() matches Effect::Claimed { reply: to, result: Ok(handle) }
            &&& to == reply
            &&& handle.kind_of() == kind
            &&& final(writer)@.arbiter.authorizes(handle.key_of())
            &&& begun.effects@.len() == (if kind == ControllerKind::Human {
                2int
            } else {
                1
            })
            &&& kind == ControllerKind::Human ==> begun.effects@[0] == Effect::<R>::HumanControl(
                Trigger::Attach,
            )
        }),
{
    broadcast use crate::model::pty_control::lemma_key_parts, crate::model::pty_control::lemma_handle_parts;

    let (staged, end) = old(writer)@.taken();
    let control = Control::Claim { holder, kind, reply };
    let attempts = choose|attempts: Seq<Seq<Attempt>>|
        {
            let served = #[trigger] staged.served_all(end, old(writer)@.controls, attempts);
            &&& final(writer)@ == served.0
            &&& item_model(begun.end) == served.1
            &&& begun.effects@ == served.2
            &&& final(sink).attempts() == old(sink).attempts() + staged.serve_calls(
                end,
                old(writer)@.controls,
                attempts,
            )
        };
    lemma_single_control(staged, end, control, attempts);
    assert(old(sink).attempts() + Seq::<Call>::empty() =~= old(sink).attempts());
}

/// A window size is applied exactly where it is asked for by the owner, and is the size
/// that was asked for. Nothing else changes.
pub proof fn law_resize_turn<R, S: PtyInputSink>(
    writer: &mut InputWriter<R>,
    sink: &mut S,
    begun: Begun<R>,
    key: HandleKey,
    size: Geometry,
)
    requires
        old(writer).wf(),
        old(writer)@.controls == seq![Control::<R>::Resize { key, size }],
        call_ensures(InputWriter::<R>::begin_turn::<S>, (writer, sink), begun),
    ensures
        final(sink).attempts() == old(sink).attempts(),
        final(writer)@.arbiter == old(writer)@.arbiter,
        final(writer)@.kinds == old(writer)@.kinds,
        ({
            let by_owner = key.run_of() == old(writer)@.arbiter.run_id && (
            old(writer)@.arbiter.state matches ControllerState::Owned { epoch, holder, .. } && epoch
                == key.epoch_of() && holder == key.holder_of());
            begun.effects@ =~= if by_owner {
                seq![Effect::Resize(size)]
            } else {
                Seq::empty()
            }
        }),
{
    let (staged, end) = old(writer)@.taken();
    let control = Control::Resize { key, size };
    let attempts = choose|attempts: Seq<Seq<Attempt>>|
        {
            let served = #[trigger] staged.served_all(end, old(writer)@.controls, attempts);
            &&& final(writer)@ == served.0
            &&& item_model(begun.end) == served.1
            &&& begun.effects@ == served.2
            &&& final(sink).attempts() == old(sink).attempts() + staged.serve_calls(
                end,
                old(writer)@.controls,
                attempts,
            )
        };
    lemma_single_control(staged, end, control, attempts);
    assert(old(sink).attempts() + Seq::<Call>::empty() =~= old(sink).attempts());
}

/// Of the requests that are cancelled, each whose key does not authorize is answered, where
/// someone waits for it, with what it had written, and counts with that and with all of its
/// bytes. The end of a holder's input is answered too: it was not released by it.
pub proof fn law_cancelled_items_are_answered<R>(
    arbiter: ArbiterModel,
    items: Seq<ItemModel<R>>,
    item: ItemModel<R>,
    attempts: Seq<Attempt>,
)
    ensures
        ({
            let before = cancelled(arbiter, items, attempts);
            let all = cancelled(arbiter, items.push(item), attempts);
            &&& item matches ItemModel::End { done, .. } ==> {
                &&& all.accepted == before.accepted && all.total == before.total
                &&& all.calls == before.calls
                &&& done is None ==> all.effects =~= before.effects
                &&& done matches Some(reply) ==> all.effects =~= before.effects.push(
                    Effect::Ended { reply, released: false },
                )
            }
            &&& item matches ItemModel::Write { request, reply } ==> (item.wf()
                && !arbiter.authorizes(request.key) ==> {
                &&& all.calls =~= before.calls
                &&& all.accepted == before.accepted + request.accepted
                &&& all.total == before.total + request.bytes.len()
                &&& reply is None ==> all.effects =~= before.effects
                &&& reply matches Some(to) ==> all.effects =~= before.effects.push(
                    Effect::Outcome {
                        reply: to,
                        outcome: InputOutcome::Incomplete {
                            request_id: request.request_id,
                            epoch: request.key.epoch_of(),
                            accepted: request.accepted as usize,
                            total: request.bytes.len() as usize,
                            reason: IncompleteReason::NotAuthorized(arbiter.stale(request.key)->0),
                        },
                    },
                )
            })
        }),
{
    assert(items.push(item).drop_last() =~= items);
    assert(items.push(item).last() == item);
}

/// Cancelled requests whose keys do not authorize are reported in aggregate: with all that
/// they had written, and all that they had asked for.
pub proof fn law_disconnect_reports_what_it_revoked<R>(
    w: WriterModel<R>,
    end: Option<ItemModel<R>>,
    handle: ControllerHandle,
    attempts: Seq<Attempt>,
)
    ensures
        ({
            let (after, _, effects) = w.disconnected(end, handle, attempts);
            let holder = handle.key_of().holder_of();
            let gone = cancelled(after.arbiter, w.pending_of(end, holder), attempts);
            let owned = w.arbiter.authorizes(handle.key_of());
            let human = owned && w.arbiter.state->kind == ControllerKind::Human;
            let first = if human {
                1int
            } else {
                0
            };
            &&& after.arbiter.state is Unowned || after.arbiter == w.arbiter
            &&& owned ==> after.arbiter.state == (ControllerState::Unowned {
                epoch: w.arbiter.epoch(),
            })
            &&& !owned ==> after.arbiter == w.arbiter
            &&& after.kinds == w.kinds.remove(holder.0)
            &&& human ==> effects.len() > 0 && effects[0] == Effect::<R>::HumanReleased
            &&& effects.len() == first + gone.effects.len() + if gone.total > 0 {
                1int
            } else {
                0
            }
            &&& effects.subrange(first, first + gone.effects.len()) =~= gone.effects
            &&& gone.total > 0 ==> (effects.last() matches Effect::InputRevoked {
                kind,
                accepted,
                total,
            } && kind == (if w.kinds.contains_key(holder.0) {
                w.kinds[holder.0]
            } else {
                ControllerKind::Human
            }) && accepted == gone.accepted as u128 && total == gone.total as u128)
        }),
{
    let holder = handle.key_of().holder_of();
    let free = w.released(handle).0;
    assert(free.pending_of(end, holder) == w.pending_of(end, holder));
}

/// Everything of a holder that is not written yet is cancelled when it disconnects: what it
/// queued, in order, then its end of input, then the request being written. Nothing of
/// anybody else is.
pub proof fn law_pending_is_the_holders_own<R>(
    w: WriterModel<R>,
    end: Option<ItemModel<R>>,
    holder: HolderId,
)
    ensures
        ({
            let pending = w.pending_of(end, holder);
            &&& forall|i: int|
                0 <= i < pending.len() ==> (#[trigger] pending[i]).holder() == holder
            &&& forall|i: int|
                0 <= i < w.inputs.len() && (#[trigger] w.inputs[i]).holder() == holder
                    ==> pending.contains(w.inputs[i])
            &&& forall|i: int|
                0 <= i < w.inputs.len() && (#[trigger] w.inputs[i]).holder() != holder ==> w.without(
                    holder,
                ).inputs.contains(w.inputs[i])
            &&& w.current matches Some((request, reply)) ==> (request.key.holder_of() == holder
                ==> pending.last() == (ItemModel::Write { request, reply }))
            &&& end matches Some(item) ==> (item.holder() == holder ==> pending.contains(item))
        }),
{
    lemma_items_of_holder(w.inputs, holder, true);
    lemma_items_of_holder(w.inputs, holder, false);
    let queued = items_of(w.inputs, holder, true);
    let staged = match end {
        Some(item) if item.holder() == holder => queued.push(item),
        _ => queued,
    };
    let pending = w.pending_of(end, holder);
    assert forall|i: int| 0 <= i < staged.len() implies pending.contains(
        #[trigger] staged[i],
    ) by {
        assert(pending[i] == staged[i]);
    }
    assert forall|i: int| 0 <= i < queued.len() implies staged.contains(#[trigger] queued[i]) by {
        assert(staged[i] == queued[i]);
    }
    if let Some(item) = end {
        if item.holder() == holder {
            assert(staged.last() == item);
            assert(staged[staged.len() - 1] == item);
        }
    }
}

/// The items of a holder, or of the others, are those in the queue that are its, or not.
proof fn lemma_items_of_holder<R>(items: Seq<ItemModel<R>>, holder: HolderId, theirs: bool)
    ensures
        ({
            let taken = items_of(items, holder, theirs);
            &&& forall|i: int|
                0 <= i < taken.len() ==> ((#[trigger] taken[i]).holder() == holder) == theirs
            &&& forall|i: int|
                0 <= i < items.len() && ((#[trigger] items[i]).holder() == holder) == theirs
                    ==> taken.contains(items[i])
        }),
    decreases items.len(),
{
    if items.len() > 0 {
        lemma_items_of_holder(items.drop_last(), holder, theirs);
        let head = items_of(items.drop_last(), holder, theirs);
        let taken = items_of(items, holder, theirs);
        assert forall|i: int|
            0 <= i < items.len() && ((#[trigger] items[i]).holder() == holder)
                == theirs implies taken.contains(items[i]) by {
            if i < items.len() - 1 {
                assert(items.drop_last()[i] == items[i]);
                let k = choose|k: int| 0 <= k < head.len() && head[k] == items[i];
                assert(taken[k] == items[i]);
            } else {
                assert(taken.last() == items[i]);
            }
        }
    }
}

/// The end of a holder's input, once it is reached, releases the PTY exactly where the
/// holder's handle is still the owner's, tells that no human holds it where that owner was
/// one, and answers whoever waits whether it was released. The holder is forgotten, and
/// nothing is written.
pub proof fn law_end_of_input_releases_the_owner<R, S: PtyInputSink>(
    writer: &mut InputWriter<R>,
    handle: ControllerHandle,
    done: Option<R>,
    sink: &mut S,
    turn: Turn<R>,
)
    requires
        old(writer).wf(),
        call_ensures(
            InputWriter::<R>::end_turn::<S>,
            (writer, Some(InputItem::End { handle, done }), sink),
            turn,
        ),
    ensures
        final(sink).attempts() == old(sink).attempts(),
        !turn.stalled,
        final(writer)@.kinds == old(writer)@.kinds.remove(handle.key_of().holder_of().0),
        final(writer)@.current == old(writer)@.current,
        final(writer)@.inputs == old(writer)@.inputs,
        final(writer)@.controls == old(writer)@.controls,
        final(writer)@.arbiter.run_id == old(writer)@.arbiter.run_id,
        ({
            let by_owner = handle.key_of().run_of() == old(writer)@.arbiter.run_id && (
            old(writer)@.arbiter.state matches ControllerState::Owned { epoch, holder, .. } && epoch
                == handle.key_of().epoch_of() && holder == handle.key_of().holder_of());
            let human = by_owner && old(writer)@.arbiter.state->kind == ControllerKind::Human;
            &&& by_owner ==> final(writer)@.arbiter.state == (ControllerState::Unowned {
                epoch: old(writer)@.arbiter.epoch(),
            })
            &&& !by_owner ==> final(writer)@.arbiter.state == old(writer)@.arbiter.state
            &&& turn.effects@ =~= (if human {
                seq![Effect::HumanReleased]
            } else {
                Seq::empty()
            }) + (match done {
                Some(reply) => seq![Effect::Ended { reply, released: by_owner }],
                None => Seq::empty(),
            })
        }),
{
    let end = Some(InputItem::End { handle, done });
    let attempt = choose|attempt: Attempt|
        {
            let after = #[trigger] old(writer)@.advanced(item_model(end), attempt);
            &&& final(writer)@ == after.0
            &&& turn.effects@ == after.1
            &&& turn.stalled == after.2
            &&& final(sink).attempts() == old(sink).attempts() + old(writer)@.advance_calls(
                item_model(end),
                attempt,
            )
        };
    assert(item_model(end) == Some(ItemModel::End { handle, done }));
    assert(old(writer)@.advance_calls(item_model(end), attempt) == Seq::<Call>::empty());
    assert(old(sink).attempts() + Seq::<Call>::empty() =~= old(sink).attempts());
}

/// A request whose key is not the owner's is ended without another write: it is told of as
/// revoked, with the kind of its holder as far as that is known, what it had written and
/// what it had asked for, and then answered with the same.
pub proof fn law_superseded_request_is_revoked<R, S: PtyInputSink>(
    writer: &mut InputWriter<R>,
    sink: &mut S,
    turn: Turn<R>,
    request: PendingModel,
    waiting: Option<R>,
)
    requires
        old(writer).wf(),
        old(writer)@.current == Some((request, waiting)),
        !old(writer)@.arbiter.authorizes(request.key),
        call_ensures(
            InputWriter::<R>::end_turn::<S>,
            (writer, None::<InputItem<R>>, sink),
            turn,
        ),
    ensures
        final(sink).attempts() == old(sink).attempts(),
        !turn.stalled,
        final(writer)@.current is None,
        final(writer)@.arbiter == old(writer)@.arbiter,
        final(writer)@.inputs == old(writer)@.inputs,
        turn.effects@.len() == if waiting is Some {
            2int
        } else {
            1
        },
        turn.effects@[0] == (Effect::<R>::InputRevoked {
            kind: if old(writer)@.kinds.contains_key(request.key.holder_of().0) {
                old(writer)@.kinds[request.key.holder_of().0]
            } else {
                ControllerKind::Agent
            },
            accepted: request.accepted as u128,
            total: request.bytes.len() as u128,
        }),
        waiting matches Some(reply) ==> turn.effects@[1] == (Effect::Outcome {
            reply,
            outcome: InputOutcome::Incomplete {
                request_id: request.request_id,
                epoch: request.key.epoch_of(),
                accepted: request.accepted as usize,
                total: request.bytes.len() as usize,
                reason: IncompleteReason::NotAuthorized(
                    old(writer)@.arbiter.stale(request.key)->0,
                ),
            },
        }),
{
    let attempt = choose|attempt: Attempt|
        {
            let after = #[trigger] old(writer)@.advanced(None, attempt);
            &&& final(writer)@ == after.0
            &&& turn.effects@ == after.1
            &&& turn.stalled == after.2
            &&& final(sink).attempts() == old(sink).attempts() + old(writer)@.advance_calls(
                None,
                attempt,
            )
        };
    assert(item_model(None::<InputItem<R>>) == None::<ItemModel<R>>);
    assert(old(writer)@.advance_calls(None, attempt) == Seq::<Call>::empty());
    assert(old(sink).attempts() + Seq::<Call>::empty() =~= old(sink).attempts());
}

/// A request of the owner is handed to the PTY with exactly what is left of it, once. What
/// the PTY takes is counted; the request stays the current one while some of it is left and
/// the PTY has not failed, and is answered otherwise: as accepted where all of it was
/// taken, as incomplete where the PTY was closed or failed. The turn is stalled exactly
/// where the PTY took nothing and did not fail.
#[verifier::rlimit(40)]
pub proof fn law_owners_request_is_written<R, S: PtyInputSink>(
    writer: &mut InputWriter<R>,
    sink: &mut S,
    turn: Turn<R>,
    request: PendingModel,
    waiting: Option<R>,
)
    requires
        old(writer).wf(),
        old(writer)@.current == Some((request, waiting)),
        old(writer)@.arbiter.authorizes(request.key),
        call_ensures(
            InputWriter::<R>::end_turn::<S>,
            (writer, None::<InputItem<R>>, sink),
            turn,
        ),
    ensures
        final(writer)@.arbiter == old(writer)@.arbiter,
        final(writer)@.kinds == old(writer)@.kinds,
        final(writer)@.inputs == old(writer)@.inputs,
        exists|attempt: Attempt|
            {
                let left = request.bytes.len() - request.accepted;
                &&& final(sink).attempts() == #[trigger] old(sink).attempts().push(
                    (request.bytes.skip(request.accepted as int), attempt),
                )
                &&& turn.stalled <==> (attempt == Err::<usize, ErrorKind>(ErrorKind::WouldBlock)
                    || attempt == Err::<usize, ErrorKind>(ErrorKind::Interrupted))
                &&& turn.stalled ==> final(writer)@.current == old(writer)@.current
                    && turn.effects@.len() == 0
                &&& attempt matches Ok(n) ==> (0 < n < left ==> {
                    &&& turn.effects@.len() == 0
                    &&& final(writer)@.current matches Some((after, reply))
                    &&& reply == waiting
                    &&& after.bytes == request.bytes
                    &&& after.accepted == request.accepted + n
                    &&& after.outcome is None
                })
                &&& (attempt matches Ok(n) && 0 < n < left) || turn.stalled || {
                    &&& final(writer)@.current is None
                    &&& waiting is None ==> turn.effects@.len() == 0
                    &&& waiting matches Some(to) ==> turn.effects@.len() == 1 && (
                    turn.effects@[0] matches Effect::Outcome { reply, outcome } && reply == to && (
                    match attempt {
                        Ok(n) if n == left => outcome == (InputOutcome::Accepted {
                            request_id: request.request_id,
                            epoch: request.key.epoch_of(),
                            bytes: request.bytes.len() as usize,
                        }),
                        Ok(n) => outcome == (InputOutcome::Incomplete {
                            request_id: request.request_id,
                            epoch: request.key.epoch_of(),
                            accepted: request.accepted as usize,
                            total: request.bytes.len() as usize,
                            reason: if n == 0 {
                                IncompleteReason::Closed
                            } else {
                                IncompleteReason::SinkFailed(ErrorKind::InvalidData)
                            },
                        }),
                        Err(kind) => outcome == (InputOutcome::Incomplete {
                            request_id: request.request_id,
                            epoch: request.key.epoch_of(),
                            accepted: request.accepted as usize,
                            total: request.bytes.len() as usize,
                            reason: IncompleteReason::SinkFailed(kind),
                        }),
                    }))
                }
            },
{
    let attempt = choose|attempt: Attempt|
        {
            let after = #[trigger] old(writer)@.advanced(None, attempt);
            &&& final(writer)@ == after.0
            &&& turn.effects@ == after.1
            &&& turn.stalled == after.2
            &&& final(sink).attempts() == old(sink).attempts() + old(writer)@.advance_calls(
                None,
                attempt,
            )
        };
    assert(item_model(None::<InputItem<R>>) == None::<ItemModel<R>>);
    let rest = request.bytes.skip(request.accepted as int);
    assert(old(sink).attempts() + seq![(rest, attempt)] =~= old(sink).attempts().push(
        (rest, attempt),
    ));
}

/// Without a request or an end marker there is nothing to do.
pub proof fn law_idle_turn_does_nothing<R, S: PtyInputSink>(
    writer: &mut InputWriter<R>,
    sink: &mut S,
    turn: Turn<R>,
    work: bool,
)
    requires
        old(writer).wf(),
        call_ensures(InputWriter::<R>::has_work, (&*old(writer),), work),
        call_ensures(InputWriter::<R>::turn::<S>, (writer, sink), turn),
    ensures
        work <==> (old(writer)@.controls.len() > 0 || old(writer)@.inputs.len() > 0 || old(writer)@.current is Some),
        !work ==> turn.effects@.len() == 0 && !turn.stalled && final(writer)@ == old(writer)@
            && final(sink).attempts() == old(sink).attempts(),
{
    if !work {
        let (attempts, attempt) = choose|attempts: Seq<Seq<Attempt>>, attempt: Attempt|
            {
                let after = #[trigger] old(writer)@.turned(attempts, attempt);
                &&& final(writer)@ == after.0
                &&& turn.effects@ == after.1
                &&& turn.stalled == after.2
                &&& final(sink).attempts() == old(sink).attempts() + old(writer)@.turn_calls(
                    attempts,
                    attempt,
                )
            };
        assert(old(writer)@.controls =~= Seq::<Control<R>>::empty());
        assert(old(writer)@.taken().0 == old(writer)@);
        assert(old(sink).attempts() + old(writer)@.turn_calls(attempts, attempt) =~= old(sink).attempts());
    }
}

/// A control waits at the end of its queue, exactly as it was asked for, while fewer than
/// sixteen wait; otherwise it is handed back. Nothing else changes.
pub proof fn law_controls_wait_as_they_were_asked_for<R>(
    claiming: &mut InputWriter<R>,
    taking: &mut InputWriter<R>,
    resizing: &mut InputWriter<R>,
    leaving: &mut InputWriter<R>,
    holder: HolderId,
    kind: ControllerKind,
    reply: R,
    handle: ControllerHandle,
    size: Geometry,
    claimed: Result<(), Control<R>>,
    taken: Result<(), Control<R>>,
    resized: Result<(), Control<R>>,
    left: Result<(), Control<R>>,
)
    requires
        old(claiming).wf() && old(taking).wf() && old(resizing).wf() && old(leaving).wf(),
        call_ensures(InputWriter::<R>::claim, (claiming, holder, kind, reply), claimed),
        call_ensures(InputWriter::<R>::takeover, (taking, holder, reply), taken),
        call_ensures(InputWriter::<R>::resize, (resizing, &handle, size), resized),
        call_ensures(InputWriter::<R>::disconnect, (leaving, handle), left),
    ensures
        old(claiming)@.controls.len() < 16 ==> claimed is Ok && final(claiming)@.controls == old(claiming)@.controls.push(Control::Claim { holder, kind, reply }),
        old(claiming)@.controls.len() >= 16 ==> claimed is Err && final(claiming)@ == old(claiming)@ && claimed->Err_0 == (Control::Claim { holder, kind, reply }),
        old(taking)@.controls.len() < 16 ==> taken is Ok && final(taking)@.controls == old(taking)@.controls.push(Control::Takeover { holder, reply }),
        old(taking)@.controls.len() >= 16 ==> taken is Err && final(taking)@ == old(taking)@
            && taken->Err_0 == (Control::Takeover { holder, reply }),
        old(resizing)@.controls.len() < 16 ==> resized is Ok && final(resizing)@.controls == old(resizing)@.controls.push(Control::Resize { key: handle.key_of(), size }),
        old(resizing)@.controls.len() >= 16 ==> resized is Err && final(resizing)@ == old(resizing)@ && resized->Err_0 == (Control::<R>::Resize { key: handle.key_of(), size }),
        old(leaving)@.controls.len() < 16 ==> left is Ok && final(leaving)@.controls == old(leaving)@.controls.push(Control::Disconnect { handle }),
        old(leaving)@.controls.len() >= 16 ==> left is Err && final(leaving)@ == old(leaving)@
            && left->Err_0 == (Control::<R>::Disconnect { handle }),
        final(claiming)@.inputs == old(claiming)@.inputs && final(taking)@.inputs == old(taking)@.inputs && final(resizing)@.inputs == old(resizing)@.inputs && final(leaving)@.inputs
            == old(leaving)@.inputs,
        final(claiming)@.arbiter == old(claiming)@.arbiter && final(taking)@.arbiter == old(taking)@.arbiter && final(resizing)@.arbiter == old(resizing)@.arbiter && final(leaving)@.arbiter == old(leaving)@.arbiter,
        final(claiming)@.current == old(claiming)@.current && final(taking)@.current == old(taking)@.current && final(resizing)@.current == old(resizing)@.current && final(leaving)@.current == old(leaving)@.current,
{
}

/// Input waits at the end of its queue while fewer than thirty-two items wait, and is
/// handed back otherwise: with the bytes, key and kind that it was given, under a number
/// that is used up either way. There is no request for no bytes. Whoever asked for the
/// outcome is the one that it goes to.
pub proof fn law_input_waits_as_it_was_given<R>(
    asking: &mut InputWriter<R>,
    sending: &mut InputWriter<R>,
    handle: ControllerHandle,
    bytes: Vec<u8>,
    reply: R,
    asked: Option<Result<(), InputItem<R>>>,
    sent: Option<Result<(), InputItem<R>>>,
)
    requires
        old(asking).wf() && old(sending).wf(),
        call_ensures(InputWriter::<R>::submit, (asking, &handle, bytes, reply), asked),
        call_ensures(InputWriter::<R>::write_nowait, (sending, &handle, bytes), sent),
    ensures
        asked is None <==> bytes@.len() == 0,
        sent is None <==> bytes@.len() == 0,
        final(asking)@.next_request == (if old(asking)@.next_request == u64::MAX {
            0int
        } else {
            old(asking)@.next_request + 1
        }),
        final(sending)@.next_request == (if old(sending)@.next_request == u64::MAX {
            0int
        } else {
            old(sending)@.next_request + 1
        }),
        asked matches Some(pushed) ==> {
            let waiting = ItemModel::Write {
                request: PendingModel {
                    request_id: RequestId(old(asking)@.next_request),
                    key: handle.key_of(),
                    kind: handle.kind_of(),
                    bytes: bytes@,
                    accepted: 0,
                    outcome: None,
                },
                reply: Some(reply),
            };
            &&& pushed is Ok <==> old(asking)@.inputs.len() < 32
            &&& pushed is Ok ==> final(asking)@.inputs == old(asking)@.inputs.push(waiting)
            &&& pushed matches Err(item) ==> item@ == waiting && final(asking)@.inputs == old(asking)@.inputs
        },
        sent matches Some(pushed) ==> {
            let waiting = ItemModel::Write {
                request: PendingModel {
                    request_id: RequestId(old(sending)@.next_request),
                    key: handle.key_of(),
                    kind: handle.kind_of(),
                    bytes: bytes@,
                    accepted: 0,
                    outcome: None,
                },
                reply: None::<R>,
            };
            &&& pushed is Ok <==> old(sending)@.inputs.len() < 32
            &&& pushed is Ok ==> final(sending)@.inputs == old(sending)@.inputs.push(waiting)
            &&& pushed matches Err(item) ==> item@ == waiting && final(sending)@.inputs == old(sending)@.inputs
        },
        final(asking)@.controls == old(asking)@.controls && final(sending)@.controls == old(sending)@.controls,
        final(asking)@.arbiter == old(asking)@.arbiter && final(sending)@.arbiter == old(sending)@.arbiter,
        final(asking)@.current == old(asking)@.current && final(sending)@.current == old(sending)@.current,
{
}

/// The end of a holder's input waits behind everything that is queued, with whoever asked
/// to be told of it.
pub proof fn law_end_of_input_waits_its_turn<R>(
    ending: &mut InputWriter<R>,
    waiting: &mut InputWriter<R>,
    handle: ControllerHandle,
    done: R,
    ended: Result<(), InputItem<R>>,
    waited: Result<(), InputItem<R>>,
)
    requires
        old(ending).wf() && old(waiting).wf(),
        call_ensures(InputWriter::<R>::end_of_input, (ending, handle), ended),
        call_ensures(InputWriter::<R>::end_of_input_and_wait, (waiting, handle, done), waited),
    ensures
        ended is Ok <==> old(ending)@.inputs.len() < 32,
        waited is Ok <==> old(waiting)@.inputs.len() < 32,
        ended is Ok ==> final(ending)@.inputs == old(ending)@.inputs.push(
            ItemModel::End { handle, done: None },
        ),
        waited is Ok ==> final(waiting)@.inputs == old(waiting)@.inputs.push(
            ItemModel::End { handle, done: Some(done) },
        ),
        ended matches Err(item) ==> final(ending)@ == old(ending)@ && item == (InputItem::End {
            handle,
            done: None::<R>,
        }),
        waited matches Err(item) ==> final(waiting)@ == old(waiting)@ && item == (InputItem::End {
            handle,
            done: Some(done),
        }),
        final(ending)@.arbiter == old(ending)@.arbiter && final(waiting)@.arbiter == old(waiting)@.arbiter,
        final(ending)@.controls == old(ending)@.controls && final(waiting)@.controls == old(waiting)@.controls,
        final(ending)@.current == old(ending)@.current && final(waiting)@.current == old(waiting)@.current,
{
}

/// A new writer's PTY is nobody's and nothing waits. Holders are numbered from one, each by
/// the number behind the last.
pub proof fn law_new_writer_is_idle<R>(
    run_id: RunId,
    fresh: InputWriter<R>,
    writer: &mut InputWriter<R>,
    holder: HolderId,
)
    requires
        call_ensures(InputWriter::<R>::new, (run_id,), fresh),
        call_ensures(InputWriter::<R>::next_holder, (writer,), holder),
    ensures
        fresh@.arbiter.run_id == run_id,
        fresh@.arbiter.state matches ControllerState::Unowned { epoch } && epoch.0 == 0,
        fresh@.controls.len() == 0 && fresh@.inputs.len() == 0 && fresh@.current is None,
        fresh@.kinds.dom() =~= Set::empty(),
        fresh@.next_holder == 1 && fresh@.next_request == 1,
        holder.0 == old(writer)@.next_holder,
        final(writer)@.next_holder == (if old(writer)@.next_holder == u64::MAX {
            0int
        } else {
            old(writer)@.next_holder + 1
        }),
        final(writer)@.arbiter == old(writer)@.arbiter,
        final(writer)@.inputs == old(writer)@.inputs,
        final(writer)@.controls == old(writer)@.controls,
        final(writer)@.current == old(writer)@.current,
        final(writer)@.next_request == old(writer)@.next_request,
{
}

/// How a human came to hold control, and why a request did not take effect, is told in
/// these words.
pub proof fn law_triggers_and_refusals_are_told(
    trigger: Trigger,
    name: &'static str,
    error: RequestError,
    message: String,
    inner: String,
)
    requires
        call_ensures(Trigger::as_str, (trigger,), name),
        call_ensures(RequestError::message, (&error,), message),
        error matches RequestError::Control(control) ==> call_ensures(
            ControlError::message,
            (&control,),
            inner,
        ),
    ensures
        trigger is Attach ==> name@ == "attach"@,
        trigger is Takeover ==> name@ == "takeover"@,
        error is Control ==> message@ == inner@,
        error is WriterGone ==> message@ == "the PTY input writer is no longer running"@,
{
}

/// A turn without controls takes the next input off the queue, where nothing is being
/// written: a request becomes the one that is, an end marker is handed out. Nothing is
/// written by that, and nothing has to be done.
pub proof fn law_turn_stages_the_next_input<R, S: PtyInputSink>(
    writer: &mut InputWriter<R>,
    sink: &mut S,
    begun: Begun<R>,
)
    requires
        old(writer).wf(),
        old(writer)@.controls.len() == 0,
        call_ensures(InputWriter::<R>::begin_turn::<S>, (writer, sink), begun),
    ensures
        final(sink).attempts() == old(sink).attempts(),
        begun.effects@.len() == 0,
        final(writer)@.arbiter == old(writer)@.arbiter,
        final(writer)@.kinds == old(writer)@.kinds,
        ({
            let w = old(writer)@;
            let after = final(writer)@;
            if w.current is Some || w.inputs.len() == 0 {
                after.current == w.current && after.inputs == w.inputs && begun.end is None
            } else {
                &&& after.inputs == w.inputs.skip(1)
                &&& match w.inputs[0] {
                    ItemModel::Write { request, reply } => after.current == Some((request, reply))
                        && begun.end is None,
                    ItemModel::End { handle, done } => after.current is None && (
                    begun.end matches Some(InputItem::End { handle: h, done: d }) && h == handle
                        && d == done),
                }
            }
        }),
{
    let (staged, end) = old(writer)@.taken();
    assert(old(writer)@.controls =~= Seq::<Control<R>>::empty());
    let attempts = choose|attempts: Seq<Seq<Attempt>>|
        {
            let served = #[trigger] staged.served_all(end, old(writer)@.controls, attempts);
            &&& final(writer)@ == served.0
            &&& item_model(begun.end) == served.1
            &&& begun.effects@ == served.2
            &&& final(sink).attempts() == old(sink).attempts() + staged.serve_calls(
                end,
                old(writer)@.controls,
                attempts,
            )
        };
    assert(old(sink).attempts() + Seq::<Call>::empty() =~= old(sink).attempts());
    if let Some(item) = begun.end {
        assert(item@ is End);
    }
}

/// A whole turn is its two halves: what the controls leave is what the input step meets, and
/// its effects, and what it hands to the PTY, come behind theirs.
pub proof fn law_turn_is_both_halves<R>(
    w: WriterModel<R>,
    attempts: Seq<Seq<Attempt>>,
    attempt: Attempt,
)
    ensures
        ({
            let (staged, end) = w.taken();
            let (served, left, first) = staged.served_all(end, w.controls, attempts);
            let (after, second, stalled) = served.advanced(left, attempt);
            &&& w.turned(attempts, attempt) == (after, first + second, stalled)
            &&& w.turn_calls(attempts, attempt) == staged.serve_calls(end, w.controls, attempts)
                + served.advance_calls(left, attempt)
        }),
{
}

/// A controller that disconnects while it owns the PTY leaves it to nobody, at the same
/// epoch, with nothing written and nothing of its own left; a human's leaving is told first.
/// One that does not own it changes nothing of who does.
#[verifier::rlimit(40)]
pub proof fn law_disconnect_turn<R, S: PtyInputSink>(
    writer: &mut InputWriter<R>,
    sink: &mut S,
    begun: Begun<R>,
    handle: ControllerHandle,
)
    requires
        old(writer).wf(),
        old(writer)@.controls == seq![Control::<R>::Disconnect { handle }],
        call_ensures(InputWriter::<R>::begin_turn::<S>, (writer, sink), begun),
    ensures
        ({
            let w = old(writer)@;
            let after = final(writer)@;
            let holder = handle.key_of().holder_of();
            let owned = handle.key_of().run_of() == w.arbiter.run_id && (
            w.arbiter.state matches ControllerState::Owned { epoch, holder: h, .. } && epoch
                == handle.key_of().epoch_of() && h == holder);
            &&& after.controls.len() == 0
            &&& after.arbiter.run_id == w.arbiter.run_id
            &&& owned ==> after.arbiter.state == (ControllerState::Unowned {
                epoch: w.arbiter.epoch(),
            })
            &&& !owned ==> after.arbiter.state == w.arbiter.state
            &&& owned ==> final(sink).attempts() == old(sink).attempts()
            &&& owned && w.arbiter.state->kind == ControllerKind::Human ==> begun.effects@.len() > 0
                && begun.effects@[0] == Effect::<R>::HumanReleased
            &&& after.kinds == w.kinds.remove(holder.0)
            &&& forall|i: int|
                0 <= i < after.inputs.len() ==> (#[trigger] after.inputs[i]).holder() != holder
            &&& after.current matches Some((request, _)) ==> request.key.holder_of() != holder
            &&& item_model(begun.end) matches Some(item) ==> item.holder() != holder
        }),
{
    let (staged, end) = old(writer)@.taken();
    let control = Control::Disconnect { handle };
    let attempts = choose|attempts: Seq<Seq<Attempt>>|
        {
            let served = #[trigger] staged.served_all(end, old(writer)@.controls, attempts);
            &&& final(writer)@ == served.0
            &&& item_model(begun.end) == served.1
            &&& begun.effects@ == served.2
            &&& final(sink).attempts() == old(sink).attempts() + staged.serve_calls(
                end,
                old(writer)@.controls,
                attempts,
            )
        };
    lemma_single_control(staged, end, control, attempts);
    law_disconnect_cancels(staged, end, handle, attempts[0]);
    law_disconnect_reports_what_it_revoked(staged, end, handle, attempts[0]);
    if staged.arbiter.authorizes(handle.key_of()) {
        law_disconnect_writes_nothing(staged, end, handle, attempts[0], attempts[0]);
        assert(old(sink).attempts() + staged.disconnect_calls(end, handle, attempts[0]) =~= old(sink).attempts());
    }
}

/// Whatever control or input is queued waits at the end of its queue as it is, while there
/// is room for it; a request is made of the bytes, key and kind that it is given, under the
/// next number.
pub proof fn law_queues_take_what_they_are_given<R>(
    controlling: &mut InputWriter<R>,
    control: Control<R>,
    controlled: Result<(), Control<R>>,
    feeding: &mut InputWriter<R>,
    item: InputItem<R>,
    fed: Result<(), InputItem<R>>,
    asking: &mut InputWriter<R>,
    handle: ControllerHandle,
    bytes: Vec<u8>,
    request: Option<PendingInput>,
)
    requires
        old(controlling).wf() && old(feeding).wf() && old(asking).wf(),
        item.wf(),
        call_ensures(InputWriter::<R>::push_control, (controlling, control), controlled),
        call_ensures(InputWriter::<R>::push_input, (feeding, item), fed),
        call_ensures(InputWriter::<R>::request, (asking, &handle, bytes), request),
    ensures
        controlled is Ok <==> old(controlling)@.controls.len() < 16,
        controlled is Ok ==> final(controlling)@.controls == old(controlling)@.controls.push(
            control,
        ),
        controlled matches Err(back) ==> back == control && final(controlling)@ == old(controlling)@,
        fed is Ok <==> old(feeding)@.inputs.len() < 32,
        fed is Ok ==> final(feeding)@.inputs == old(feeding)@.inputs.push(item@),
        fed matches Err(back) ==> back == item && final(feeding)@ == old(feeding)@,
        request is Some <==> bytes@.len() > 0,
        request matches Some(r) ==> r@.bytes == bytes@ && r@.key == handle.key_of() && r@.kind
            == handle.kind_of() && r@.accepted == 0 && r@.outcome is None && r@.request_id.0 == old(asking)@.next_request,
        final(asking)@.next_request == (if old(asking)@.next_request == u64::MAX {
            0int
        } else {
            old(asking)@.next_request + 1
        }),
        final(asking)@.inputs == old(asking)@.inputs && final(asking)@.controls == old(asking)@.controls,
{
}

} // verus!
