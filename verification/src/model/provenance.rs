//! How a status came to be recorded, and on what evidence.

use vstd::prelude::*;

verus! {

/// One observation behind a recorded status.
#[derive(Clone, Copy, Debug, PartialEq, Eq, Hash, Structural)]
pub enum Evidence {
    SidecarWrite,
    ChildSpawned,
    SpawnFailedSyscall,
    ChildExitObserved,
    SupervisionFailed,
    DependencyFailed,
    LockReleased,
    NonTerminalMeta,
    OrphanKilled,
    EventLogTerminal,
}

/// Who a status comes from: the sidecar's own record, or inference after it was
/// gone.
#[derive(Debug, PartialEq, Eq)]
pub enum TransitionProvenance {
    Direct { evidence: Vec<Evidence> },
    Inferred { evidence: Vec<Evidence> },
}

/// A provenance and its evidence, in order.
pub struct ProvenanceModel {
    pub direct: bool,
    pub evidence: Seq<Evidence>,
}

impl View for TransitionProvenance {
    type V = ProvenanceModel;

    open spec fn view(&self) -> ProvenanceModel {
        match *self {
            TransitionProvenance::Direct { evidence } => ProvenanceModel {
                direct: true,
                evidence: evidence@,
            },
            TransitionProvenance::Inferred { evidence } => ProvenanceModel {
                direct: false,
                evidence: evidence@,
            },
        }
    }
}

impl TransitionProvenance {
    pub fn direct(evidence: Vec<Evidence>) -> (provenance: TransitionProvenance)
        ensures
            provenance@ == (ProvenanceModel { direct: true, evidence: evidence@ }),
    {
        TransitionProvenance::Direct { evidence }
    }

    pub fn inferred(evidence: Vec<Evidence>) -> (provenance: TransitionProvenance)
        ensures
            provenance@ == (ProvenanceModel { direct: false, evidence: evidence@ }),
    {
        TransitionProvenance::Inferred { evidence }
    }

    pub fn is_direct(&self) -> (direct: bool)
        ensures
            direct == self@.direct,
    {
        match self {
            TransitionProvenance::Direct { .. } => true,
            TransitionProvenance::Inferred { .. } => false,
        }
    }

    pub fn is_inferred(&self) -> (inferred: bool)
        ensures
            inferred == !self@.direct,
    {
        !self.is_direct()
    }

    /// Whether the sidecar's own record was replayed from the event log, and
    /// nothing more is known.
    pub fn is_healed(&self) -> (healed: bool)
        ensures
            healed == (self@.direct && self@.evidence == seq![Evidence::EventLogTerminal]),
    {
        match self {
            TransitionProvenance::Direct { evidence } => {
                let healed = evidence.len() == 1 && evidence[0] == Evidence::EventLogTerminal;
                assert(healed ==> evidence@ =~= seq![Evidence::EventLogTerminal]);
                assert(evidence@ == seq![Evidence::EventLogTerminal] ==> evidence@[0]
                    == Evidence::EventLogTerminal);
                healed
            },
            TransitionProvenance::Inferred { .. } => false,
        }
    }
}

/// The sidecar's own word and an inference are told apart, keep their evidence in order,
/// and only a direct record whose one piece of evidence is the event log is a healed one.
pub proof fn law_provenance_keeps_its_evidence(
    evidence: Vec<Evidence>,
    own: TransitionProvenance,
    guessed: TransitionProvenance,
    own_is_direct: bool,
    guessed_is_direct: bool,
    own_is_inferred: bool,
    guessed_is_inferred: bool,
    own_is_healed: bool,
    guessed_is_healed: bool,
)
    requires
        call_ensures(TransitionProvenance::direct, (evidence,), own),
        call_ensures(TransitionProvenance::inferred, (evidence,), guessed),
        call_ensures(TransitionProvenance::is_direct, (&own,), own_is_direct),
        call_ensures(TransitionProvenance::is_direct, (&guessed,), guessed_is_direct),
        call_ensures(TransitionProvenance::is_inferred, (&own,), own_is_inferred),
        call_ensures(TransitionProvenance::is_inferred, (&guessed,), guessed_is_inferred),
        call_ensures(TransitionProvenance::is_healed, (&own,), own_is_healed),
        call_ensures(TransitionProvenance::is_healed, (&guessed,), guessed_is_healed),
    ensures
        own_is_direct && !own_is_inferred,
        guessed_is_inferred && !guessed_is_direct,
        own matches TransitionProvenance::Direct { evidence: e } && e@ == evidence@,
        guessed matches TransitionProvenance::Inferred { evidence: e } && e@ == evidence@,
        !guessed_is_healed,
        own_is_healed <==> evidence@.len() == 1 && evidence@[0] == Evidence::EventLogTerminal,
{
    if evidence@.len() == 1 && evidence@[0] == Evidence::EventLogTerminal {
        assert(evidence@ =~= seq![Evidence::EventLogTerminal]);
    }
}

} // verus!
