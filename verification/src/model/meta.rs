//! The record of one run.

use crate::model::ids::{EpochTimestamp, ProcessIdentity, RunId};
use crate::model::provenance::{ProvenanceModel, TransitionProvenance};
use crate::model::pty::{PtyControl, PtyMeta, PtyRecording, RecordingState};
use crate::model::state::RunStatus;
use vstd::prelude::*;

verus! {

/// What is recorded of a run.
#[derive(Debug, PartialEq, Eq)]
pub struct Meta {
    session: String,
    run_id: RunId,
    generation: u64,
    sidecar: ProcessIdentity,
    started_at: EpochTimestamp,
    status: RunStatus,
    transition_provenance: Option<TransitionProvenance>,
    warnings: Vec<String>,
    pty: Option<PtyMeta>,
}

/// What a run's record says.
pub struct MetaModel {
    pub session: Seq<char>,
    pub run_id: RunId,
    pub generation: u64,
    pub sidecar: ProcessIdentity,
    pub started_at: EpochTimestamp,
    pub status: RunStatus,
    pub provenance: Option<ProvenanceModel>,
    pub warnings: Seq<Seq<char>>,
    pub pty: Option<PtyMeta>,
}

pub open spec fn texts(strings: Seq<String>) -> Seq<Seq<char>> {
    Seq::new(strings.len(), |i: int| strings[i]@)
}

impl View for Meta {
    type V = MetaModel;

    closed spec fn view(&self) -> MetaModel {
        MetaModel {
            session: self.session@,
            run_id: self.run_id,
            generation: self.generation,
            sidecar: self.sidecar,
            started_at: self.started_at,
            status: self.status,
            provenance: match self.transition_provenance {
                Some(p) => Some(p@),
                None => None,
            },
            warnings: texts(self.warnings@),
            pty: self.pty,
        }
    }
}

impl Meta {
    /// A run whose sidecar has started and whose child was not spawned yet.
    pub fn new_starting(
        session: String,
        run_id: RunId,
        generation: u64,
        sidecar: ProcessIdentity,
        started_at: EpochTimestamp,
    ) -> (meta: Meta)
        ensures
            meta@ == (MetaModel {
                session: session@,
                run_id,
                generation,
                sidecar,
                started_at,
                status: RunStatus::Starting,
                provenance: None,
                warnings: Seq::empty(),
                pty: None,
            }),
    {
        let meta = Meta {
            session,
            run_id,
            generation,
            sidecar,
            started_at,
            status: RunStatus::Starting,
            transition_provenance: None,
            warnings: Vec::new(),
            pty: None,
        };
        assert(meta@.warnings =~= Seq::empty());
        meta
    }

    /// A record that was kept elsewhere, as it was.
    pub fn restore(
        session: String,
        run_id: RunId,
        generation: u64,
        sidecar: ProcessIdentity,
        started_at: EpochTimestamp,
        status: RunStatus,
        transition_provenance: Option<TransitionProvenance>,
        warnings: Vec<String>,
        pty: Option<PtyMeta>,
    ) -> (meta: Meta)
        ensures
            meta@ == (MetaModel {
                session: session@,
                run_id,
                generation,
                sidecar,
                started_at,
                status,
                provenance: match transition_provenance {
                    Some(p) => Some(p@),
                    None => None,
                },
                warnings: texts(warnings@),
                pty,
            }),
    {
        Meta {
            session,
            run_id,
            generation,
            sidecar,
            started_at,
            status,
            transition_provenance,
            warnings,
            pty,
        }
    }

    pub fn sidecar(&self) -> (sidecar: ProcessIdentity)
        ensures
            sidecar == self@.sidecar,
    {
        self.sidecar
    }

    pub fn started_at(&self) -> (started_at: EpochTimestamp)
        ensures
            started_at == self@.started_at,
    {
        self.started_at
    }

    pub fn session(&self) -> (session: &str)
        ensures
            session@ == self@.session,
    {
        self.session.as_str()
    }

    pub fn run_id(&self) -> (run_id: RunId)
        ensures
            run_id == self@.run_id,
    {
        self.run_id
    }

    pub fn generation(&self) -> (generation: u64)
        ensures
            generation == self@.generation,
    {
        self.generation
    }

    pub fn status(&self) -> (status: &RunStatus)
        ensures
            *status == self@.status,
    {
        &self.status
    }

    /// How the status came to be recorded; `None` before the first transition.
    pub fn transition_provenance(&self) -> (provenance: Option<&TransitionProvenance>)
        ensures
            match self@.provenance {
                Some(p) => provenance matches Some(q) && q@ == p,
                None => provenance is None,
            },
    {
        self.transition_provenance.as_ref()
    }

    /// Records a status and how it came to be.
    pub(crate) fn record(&mut self, status: RunStatus, provenance: TransitionProvenance)
        ensures
            final(self)@ == (MetaModel { status, provenance: Some(provenance@), ..old(self)@ }),
    {
        self.status = status;
        self.transition_provenance = Some(provenance);
    }

    pub fn warnings(&self) -> (warnings: &Vec<String>)
        ensures
            texts(warnings@) == self@.warnings,
    {
        &self.warnings
    }

    pub fn add_warning(&mut self, warning: String)
        ensures
            final(self)@ == (MetaModel {
                warnings: old(self)@.warnings.push(warning@),
                ..old(self)@
            }),
    {
        let ghost before = self@.warnings;
        self.warnings.push(warning);
        assert(self@.warnings =~= before.push(warning@));
    }

    pub fn pty(&self) -> (pty: Option<&PtyMeta>)
        ensures
            pty == (match self@.pty {
                Some(p) => Some(&p),
                None => None::<&PtyMeta>,
            }),
    {
        self.pty.as_ref()
    }

    /// Records that this is a PTY session.
    pub fn set_pty(&mut self, pty: PtyMeta)
        ensures
            final(self)@ == (MetaModel { pty: Some(pty), ..old(self)@ }),
    {
        self.pty = Some(pty);
    }

    /// Records who controls the PTY; a session without one is left alone.
    pub fn set_pty_control(&mut self, control: PtyControl)
        ensures
            final(self)@ == (MetaModel {
                pty: match old(self)@.pty {
                    Some(p) => Some(PtyMeta { control, ..p }),
                    None => None,
                },
                ..old(self)@
            }),
    {
        if let Some(pty) = self.pty.take() {
            self.pty = Some(PtyMeta { enabled: pty.enabled, control, recording: pty.recording });
        }
    }

    /// Records where the PTY's recording stands; a session without a PTY is left
    /// alone.
    pub fn set_pty_recording(&mut self, recording: PtyRecording)
        ensures
            final(self)@ == (MetaModel {
                pty: match old(self)@.pty {
                    Some(p) => Some(PtyMeta { recording: Some(recording), ..p }),
                    None => None,
                },
                ..old(self)@
            }),
    {
        if let Some(pty) = self.pty.take() {
            self.pty = Some(
                PtyMeta {
                    enabled: pty.enabled,
                    control: pty.control,
                    recording: Some(recording),
                },
            );
        }
    }

    /// Records a new state of the PTY's recording; a session without a recording is
    /// left alone.
    pub fn set_recording_state(&mut self, state: RecordingState)
        ensures
            final(self)@ == (MetaModel {
                pty: match old(self)@.pty {
                    Some(p) => Some(
                        PtyMeta {
                            recording: match p.recording {
                                Some(r) => Some(PtyRecording { state, ..r }),
                                None => None,
                            },
                            ..p
                        },
                    ),
                    None => None,
                },
                ..old(self)@
            }),
    {
        if let Some(pty) = self.pty.take() {
            let recording = match pty.recording {
                Some(recording) => Some(
                    PtyRecording {
                        dir: recording.dir,
                        input_recorded: recording.input_recorded,
                        state,
                    },
                ),
                None => None,
            };
            self.pty = Some(PtyMeta { enabled: pty.enabled, control: pty.control, recording });
        }
    }
}

// What a record gives back.

/// A record gives back what it was made of.
pub proof fn law_restored_record_is_read_back(
    session: String,
    run_id: RunId,
    generation: u64,
    sidecar: ProcessIdentity,
    started_at: EpochTimestamp,
    status: RunStatus,
    provenance: Option<TransitionProvenance>,
    warnings: Vec<String>,
    pty: Option<PtyMeta>,
    meta: Meta,
)
    requires
        call_ensures(
            Meta::restore,
            (
                session,
                run_id,
                generation,
                sidecar,
                started_at,
                status,
                provenance,
                warnings,
                pty,
            ),
            meta,
        ),
    ensures
        forall|r: &str| call_ensures(Meta::session, (&meta,), r) ==> r@ == session@,
        forall|r: RunId| call_ensures(Meta::run_id, (&meta,), r) ==> r == run_id,
        forall|r: u64| call_ensures(Meta::generation, (&meta,), r) ==> r == generation,
        forall|r: ProcessIdentity| call_ensures(Meta::sidecar, (&meta,), r) ==> r == sidecar,
        forall|r: EpochTimestamp| call_ensures(Meta::started_at, (&meta,), r) ==> r == started_at,
        forall|r: &RunStatus| call_ensures(Meta::status, (&meta,), r) ==> *r == status,
        forall|r: &Vec<String>|
            call_ensures(Meta::warnings, (&meta,), r) ==> r@.len() == warnings@.len() && forall|
                i: int,
            |
                0 <= i < warnings@.len() ==> (#[trigger] texts(r@)[i]) == warnings@[i]@,
        forall|r: Option<&PtyMeta>|
            call_ensures(Meta::pty, (&meta,), r) ==> (r is Some <==> pty is Some) && (pty matches Some(
                p,
            ) ==> r == Some(&p)),
        forall|r: Option<&TransitionProvenance>|
            call_ensures(Meta::transition_provenance, (&meta,), r) ==> match provenance {
                Some(p) => r matches Some(q) && q@ == p@,
                None => r is None,
            },
{
    assert forall|r: &Vec<String>| call_ensures(Meta::warnings, (&meta,), r) implies r@.len()
        == warnings@.len() && forall|i: int|
        0 <= i < warnings@.len() ==> (#[trigger] texts(r@)[i]) == warnings@[i]@ by {
        assert(texts(r@).len() == texts(warnings@).len());
    }
}

/// A new record is of a run that is starting, with nothing on it yet.
pub proof fn law_new_record_is_starting(
    session: String,
    run_id: RunId,
    generation: u64,
    sidecar: ProcessIdentity,
    started_at: EpochTimestamp,
    meta: Meta,
)
    requires
        call_ensures(
            Meta::new_starting,
            (session, run_id, generation, sidecar, started_at),
            meta,
        ),
    ensures
        forall|r: &str| call_ensures(Meta::session, (&meta,), r) ==> r@ == session@,
        forall|r: RunId| call_ensures(Meta::run_id, (&meta,), r) ==> r == run_id,
        forall|r: u64| call_ensures(Meta::generation, (&meta,), r) ==> r == generation,
        forall|r: ProcessIdentity| call_ensures(Meta::sidecar, (&meta,), r) ==> r == sidecar,
        forall|r: EpochTimestamp| call_ensures(Meta::started_at, (&meta,), r) ==> r == started_at,
        forall|r: &RunStatus| call_ensures(Meta::status, (&meta,), r) ==> *r is Starting,
        forall|r: Option<&PtyMeta>| call_ensures(Meta::pty, (&meta,), r) ==> r is None,
        forall|r: Option<&TransitionProvenance>|
            call_ensures(Meta::transition_provenance, (&meta,), r) ==> r is None,
        meta@.warnings.len() == 0,
{
}

/// A warning is added behind the others, which stay, and nothing else changes.
pub proof fn law_warnings_only_grow(meta: &mut Meta, warning: String)
    requires
        call_ensures(Meta::add_warning, (meta, warning), ()),
    ensures
        final(meta)@.warnings.len() == old(meta)@.warnings.len() + 1,
        final(meta)@.warnings.last() == warning@,
        final(meta)@.warnings.drop_last() =~= old(meta)@.warnings,
        final(meta)@ == (MetaModel { warnings: final(meta)@.warnings, ..old(meta)@ }),
{
}

/// Who controls the PTY, and where its recording stands, are recorded as they are told,
/// only for a session that has one, and each leaves the other alone.
pub proof fn law_pty_facts_are_recorded(
    told: &mut Meta,
    control: PtyControl,
    recorded: &mut Meta,
    recording: PtyRecording,
    moved: &mut Meta,
    state: RecordingState,
)
    requires
        call_ensures(Meta::set_pty_control, (told, control), ()),
        call_ensures(Meta::set_pty_recording, (recorded, recording), ()),
        call_ensures(Meta::set_recording_state, (moved, state), ()),
    ensures
        old(told)@.pty is None ==> final(told)@ == old(told)@,
        old(told)@.pty matches Some(before) ==> (final(told)@.pty matches Some(after)
            && after.control == control && after.enabled == before.enabled && after.recording
            == before.recording),
        old(recorded)@.pty is None ==> final(recorded)@ == old(recorded)@,
        old(recorded)@.pty matches Some(before) ==> (final(recorded)@.pty matches Some(after)
            && after.recording == Some(recording) && after.control == before.control
            && after.enabled == before.enabled),
        old(moved)@.pty matches Some(before) ==> (final(moved)@.pty matches Some(after)
            && after.control == before.control && after.enabled == before.enabled
            && match before.recording {
            Some(was) => after.recording matches Some(is) && is.state == state && is.dir == was.dir
                && is.input_recorded == was.input_recorded,
            None => after.recording is None,
        }),
        old(moved)@.pty is None ==> final(moved)@ == old(moved)@,
        final(told)@ == (MetaModel { pty: final(told)@.pty, ..old(told)@ }),
        final(recorded)@ == (MetaModel { pty: final(recorded)@.pty, ..old(recorded)@ }),
        final(moved)@ == (MetaModel { pty: final(moved)@.pty, ..old(moved)@ }),
{
}

/// A run that is a PTY session has the facts that it was given, and keeps everything else.
pub proof fn law_pty_session_is_recorded(meta: &mut Meta, pty: PtyMeta)
    requires
        call_ensures(Meta::set_pty, (meta, pty), ()),
    ensures
        final(meta)@.pty == Some(pty),
        final(meta)@.status == old(meta)@.status,
        final(meta)@.provenance == old(meta)@.provenance,
        final(meta)@.warnings == old(meta)@.warnings,
        final(meta)@.run_id == old(meta)@.run_id,
{
}

} // verus!
