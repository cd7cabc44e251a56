//! The writer of a PTY's input.

use tendr::io_error::ErrorKind;
use tendr::model::ids::RunId;
use tendr::model::pty_control::{
    ControlError, ControllerEpoch, ControllerHandle, ControllerKind, HolderId, IncompleteReason,
    InputOutcome, PtyInputSink, RequestId, StaleReason, Takeover,
};
use tendr::pty_input::{
    Control, Effect, InputItem, InputWriter, RequestError, Trigger, CONTROL_CAPACITY,
    INPUT_CAPACITY,
};
use tendr::recording::Geometry;

fn run() -> RunId {
    RunId::from_v7(0x0190_0000_0000_7000, 1).unwrap()
}

/// A PTY whose input buffer is permanently full: the child never reads.
struct FullPty;

impl PtyInputSink for FullPty {
    fn try_write(&mut self, _bytes: &[u8]) -> Result<usize, ErrorKind> {
        Err(ErrorKind::WouldBlock)
    }
}

/// A PTY that accepts one byte per attempt and records everything written.
#[derive(Default)]
struct SlowPty(Vec<u8>);

impl PtyInputSink for SlowPty {
    fn try_write(&mut self, bytes: &[u8]) -> Result<usize, ErrorKind> {
        self.0.push(bytes[0]);
        Ok(1)
    }
}

/// Accepts all input.
struct SizedPty;

impl PtyInputSink for SizedPty {
    fn try_write(&mut self, bytes: &[u8]) -> Result<usize, ErrorKind> {
        Ok(bytes.len())
    }
}

/// Serves everything that can be served.
fn settle<S: PtyInputSink>(writer: &mut InputWriter<u32>, pty: &mut S) -> Vec<Effect<u32>> {
    let mut effects = Vec::new();
    while writer.has_work() {
        let turn = writer.turn(pty);
        effects.extend(turn.effects);
        if turn.stalled {
            break;
        }
    }
    effects
}

fn claim<S: PtyInputSink>(
    writer: &mut InputWriter<u32>,
    pty: &mut S,
    kind: ControllerKind,
) -> Result<ControllerHandle, ControlError> {
    let holder = writer.next_holder();
    assert!(writer.claim(holder, kind, 0).is_ok());
    for effect in settle(writer, pty) {
        if let Effect::Claimed { reply: 0, result } = effect {
            return result;
        }
    }
    unreachable!()
}

fn takeover<S: PtyInputSink>(writer: &mut InputWriter<u32>, pty: &mut S) -> Takeover {
    let holder = writer.next_holder();
    assert!(writer.takeover(holder, 0).is_ok());
    for effect in settle(writer, pty) {
        if let Effect::TookOver { reply: 0, result } = effect {
            return result.unwrap();
        }
    }
    unreachable!()
}

#[test]
fn disconnect_releases_ahead_of_input_stuck_behind_a_full_pty() {
    let mut pty = FullPty;
    let mut writer = InputWriter::new(run());
    let human = claim(&mut writer, &mut pty, ControllerKind::Human).unwrap();
    let epoch = human.epoch();
    for _ in 0..4 {
        assert!(writer.write_nowait(&human, vec![b'x'; 1024]).unwrap().is_ok());
    }
    assert!(writer
        .submit(&human, b"never-written".to_vec(), 9)
        .unwrap()
        .is_ok());
    settle(&mut writer, &mut pty);

    assert!(writer.disconnect(human).is_ok());
    let effects = settle(&mut writer, &mut pty);

    // The disconnected client's in-flight write is cancelled, not written.
    let stuck = effects.iter().find_map(|e| match e {
        Effect::Outcome { reply: 9, outcome } => Some(*outcome),
        _ => None,
    });
    match stuck {
        Some(InputOutcome::Incomplete {
            accepted: 0,
            reason: IncompleteReason::NotAuthorized(_),
            ..
        }) => {}
        other => panic!("the stuck write must be revoked, got {other:?}"),
    }
    assert!(effects.iter().any(|e| matches!(e, Effect::HumanReleased)));
    assert!(effects.iter().any(|e| matches!(
        e,
        Effect::InputRevoked {
            kind: ControllerKind::Human,
            accepted: 0,
            total: 4109
        }
    )));

    // Control is free again even though the PTY never accepts input.
    let next = claim(&mut writer, &mut pty, ControllerKind::Human).unwrap();
    assert!(next.epoch() > epoch);
}

#[test]
fn end_of_input_still_drains_before_release() {
    let mut pty = SlowPty::default();
    let mut writer = InputWriter::new(run());
    let agent = claim(&mut writer, &mut pty, ControllerKind::Agent).unwrap();
    assert!(writer.write_nowait(&agent, b"first".to_vec()).unwrap().is_ok());
    assert!(writer.write_nowait(&agent, b"second".to_vec()).unwrap().is_ok());

    assert!(writer.end_of_input_and_wait(agent, 7).is_ok());
    let ended = settle(&mut writer, &mut pty)
        .into_iter()
        .find_map(|e| match e {
            Effect::Ended { reply: 7, released } => Some(released),
            _ => None,
        });
    assert_eq!(ended, Some(true), "released while current");

    assert_eq!(pty.0.as_slice(), b"firstsecond");
    assert!(
        claim(&mut writer, &mut pty, ControllerKind::Agent).is_ok(),
        "released once its input was written"
    );
}

#[test]
fn only_the_current_controller_can_resize() {
    let mut pty = SizedPty;
    let mut writer = InputWriter::new(run());
    let old = claim(&mut writer, &mut pty, ControllerKind::Human).unwrap();
    let new = takeover(&mut writer, &mut pty).handle;

    assert!(writer.resize(&old, Geometry::new(10, 20).unwrap()).is_ok());
    assert!(writer.resize(&new, Geometry::new(30, 40).unwrap()).is_ok());
    let sizes: Vec<Geometry> = settle(&mut writer, &mut pty)
        .into_iter()
        .filter_map(|e| match e {
            Effect::Resize(size) => Some(size),
            _ => None,
        })
        .collect();

    assert_eq!(sizes.as_slice(), &[Geometry::new(30, 40).unwrap()]);
}

#[test]
fn end_of_input_reports_a_superseded_holder_as_not_released() {
    let mut pty = SlowPty::default();
    let mut writer = InputWriter::new(run());
    let agent = claim(&mut writer, &mut pty, ControllerKind::Agent).unwrap();
    takeover(&mut writer, &mut pty);

    assert!(writer.end_of_input_and_wait(agent, 3).is_ok());
    let ended = settle(&mut writer, &mut pty)
        .into_iter()
        .find_map(|e| match e {
            Effect::Ended { reply: 3, released } => Some(released),
            _ => None,
        });
    assert_eq!(
        ended,
        Some(false),
        "a push whose control was taken over must not be reported complete"
    );
}

#[test]
fn a_takeover_preempts_the_request_in_flight() {
    let mut pty = SlowPty::default();
    let mut writer = InputWriter::new(run());
    let agent = claim(&mut writer, &mut pty, ControllerKind::Agent).unwrap();
    assert!(writer.submit(&agent, b"abcdef".to_vec(), 5).unwrap().is_ok());
    writer.turn(&mut pty);
    writer.turn(&mut pty);
    assert_eq!(pty.0, b"ab");

    let human = writer.next_holder();
    assert!(writer.takeover(human, 6).is_ok());
    let turn = writer.turn(&mut pty);
    let mut kinds = Vec::new();
    for effect in &turn.effects {
        kinds.push(match effect {
            Effect::Retire { holder, kind, epoch } => {
                assert_eq!(*holder, agent.holder());
                assert_eq!(*kind, ControllerKind::Agent);
                assert_eq!(*epoch, ControllerEpoch::new(2));
                "retire"
            }
            Effect::HumanControl(trigger) => {
                assert_eq!(*trigger, Trigger::Takeover);
                "human"
            }
            Effect::TookOver { reply: 6, result } => {
                let takeover = result.as_ref().unwrap();
                assert_eq!(
                    takeover.retired,
                    Some((agent.holder(), ControllerKind::Agent))
                );
                "granted"
            }
            Effect::InputRevoked {
                kind: ControllerKind::Agent,
                accepted: 2,
                total: 6,
            } => "revoked",
            Effect::Outcome { reply: 5, outcome } => {
                assert_eq!(
                    *outcome,
                    InputOutcome::Incomplete {
                        request_id: RequestId::new(1),
                        epoch: ControllerEpoch::new(1),
                        accepted: 2,
                        total: 6,
                        reason: IncompleteReason::NotAuthorized(StaleReason::EpochMismatch),
                    }
                );
                "outcome"
            }
            other => panic!("{other:?}"),
        });
    }
    assert_eq!(kinds, ["human", "retire", "granted", "revoked", "outcome"]);
    assert_eq!(pty.0, b"ab", "nothing more was written");
}

#[test]
fn a_human_claim_and_release_are_announced() {
    let mut pty = SizedPty;
    let mut writer = InputWriter::new(run());
    let holder = writer.next_holder();
    assert_eq!(holder, HolderId::new(1));
    assert!(writer.claim(holder, ControllerKind::Human, 1).is_ok());
    let effects = settle(&mut writer, &mut pty);
    assert!(effects
        .iter()
        .any(|e| matches!(e, Effect::HumanControl(Trigger::Attach))));
    assert_eq!(Trigger::Attach.as_str(), "attach");
    assert_eq!(Trigger::Takeover.as_str(), "takeover");

    let refused = claim(&mut writer, &mut pty, ControllerKind::Agent).unwrap_err();
    assert_eq!(
        refused.message(),
        "PTY input is owned by holder 1 (Human) at epoch 1"
    );
    assert_eq!(
        RequestError::WriterGone.message(),
        "the PTY input writer is no longer running"
    );
}

#[test]
fn queues_are_bounded_and_hand_back_what_does_not_fit() {
    let mut pty = FullPty;
    let mut writer = InputWriter::new(run());
    for i in 0..CONTROL_CAPACITY {
        let holder = writer.next_holder();
        assert!(writer.claim(holder, ControllerKind::Agent, i as u32).is_ok());
    }
    let holder = writer.next_holder();
    match writer.claim(holder, ControllerKind::Agent, 99) {
        Err(Control::Claim { reply: 99, .. }) => {}
        other => panic!("{other:?}"),
    }
    let handle = settle(&mut writer, &mut pty)
        .into_iter()
        .find_map(|e| match e {
            Effect::Claimed { reply: 0, result } => result.ok(),
            _ => None,
        })
        .unwrap();
    assert!(writer.write_nowait(&handle, vec![]).is_none(), "an empty request");
    for _ in 0..INPUT_CAPACITY {
        assert!(writer.write_nowait(&handle, vec![1]).unwrap().is_ok());
    }
    match writer.write_nowait(&handle, vec![2]) {
        Some(Err(InputItem::Write { .. })) => {}
        other => panic!("{other:?}"),
    }
}

#[test]
fn an_end_without_a_waiter_releases_too() {
    let mut pty = SizedPty;
    let mut writer = InputWriter::new(run());
    let human = claim(&mut writer, &mut pty, ControllerKind::Human).unwrap();
    assert!(writer.end_of_input(human).is_ok());
    let effects = settle(&mut writer, &mut pty);
    assert!(matches!(effects.as_slice(), [Effect::HumanReleased]));
    assert!(claim(&mut writer, &mut pty, ControllerKind::Agent).is_ok());
}

#[test]
fn the_two_halves_of_a_turn_are_a_turn() {
    let mut pty = SlowPty::default();
    let mut writer = InputWriter::new(run());
    let agent = claim(&mut writer, &mut pty, ControllerKind::Agent).unwrap();
    let size = Geometry::new(3, 4).unwrap();
    assert!(writer.submit(&agent, b"a".to_vec(), 1).unwrap().is_ok());
    assert!(writer.resize(&agent, size).is_ok());
    let begun = writer.begin_turn(&mut pty);
    assert!(matches!(begun.effects.as_slice(), [Effect::Resize(s)] if *s == size));
    assert!(begun.end.is_none());
    assert!(pty.0.is_empty(), "controls come before input");
    let turn = writer.end_turn(begun.end, &mut pty);
    assert!(matches!(
        turn.effects.as_slice(),
        [Effect::Outcome {
            reply: 1,
            outcome: InputOutcome::Accepted { bytes: 1, .. }
        }]
    ));
    assert!(!turn.stalled);
    assert_eq!(pty.0, b"a");
}
