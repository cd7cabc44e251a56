//! Who may write to a PTY.

use tendr::io_error::ErrorKind;
use tendr::model::ids::RunId;
use tendr::model::pty_control::{
    ControlError, ControllerEpoch, ControllerHandle, ControllerKind, ControllerState, HolderId,
    IncompleteReason, InputArbiter, InputError, InputOutcome, PendingInput, PtyInputSink,
    RequestId, StaleReason, WriteStep, EPOCH_ZERO,
};

fn run(low: u64) -> RunId {
    RunId::from_v7(0x0190_0000_0000_7000, low).unwrap()
}

/// A sink that gives these answers and records what it was handed.
struct Scripted {
    answers: Vec<Result<usize, ErrorKind>>,
    handed: Vec<Vec<u8>>,
}

impl Scripted {
    fn new(mut answers: Vec<Result<usize, ErrorKind>>) -> Scripted {
        answers.reverse();
        Scripted {
            answers,
            handed: Vec::new(),
        }
    }
}

impl PtyInputSink for Scripted {
    fn try_write(&mut self, bytes: &[u8]) -> Result<usize, ErrorKind> {
        self.handed.push(bytes.to_vec());
        self.answers.pop().expect("the sink was not to be reached")
    }
}

fn request(handle: &ControllerHandle, bytes: &[u8]) -> PendingInput {
    PendingInput::new(RequestId::new(3), handle, bytes.to_vec()).unwrap()
}

#[test]
fn ownership_is_exclusive_and_epochs_advance() {
    let mut arbiter = InputArbiter::new(run(1));
    assert_eq!(
        arbiter.state(),
        ControllerState::Unowned {
            epoch: ControllerEpoch::new(EPOCH_ZERO)
        }
    );
    let agent = arbiter
        .claim(HolderId::new(1), ControllerKind::Agent)
        .unwrap();
    assert_eq!(agent.epoch(), ControllerEpoch::new(1));
    assert_eq!(agent.run_id(), run(1));
    assert_eq!(agent.kind(), ControllerKind::Agent);
    let busy = arbiter
        .claim(HolderId::new(2), ControllerKind::Human)
        .unwrap_err();
    assert_eq!(
        busy,
        ControlError::Busy {
            holder: HolderId::new(1),
            kind: ControllerKind::Agent,
            epoch: ControllerEpoch::new(1)
        }
    );
    let takeover = arbiter.takeover(HolderId::new(2)).unwrap();
    assert_eq!(
        takeover.retired,
        Some((HolderId::new(1), ControllerKind::Agent))
    );
    assert_eq!(takeover.handle.epoch(), ControllerEpoch::new(2));
    assert_eq!(
        arbiter.release(&agent),
        Err(ControlError::Stale {
            reason: StaleReason::EpochMismatch
        })
    );
    assert_eq!(arbiter.release(&takeover.handle), Ok(()));
    assert_eq!(
        arbiter.authorize(takeover.handle.key()),
        Err(ControlError::Stale {
            reason: StaleReason::Unowned
        })
    );
    assert_eq!(arbiter.state().epoch(), ControllerEpoch::new(2));
}

#[test]
fn a_handle_of_another_run_or_holder_is_stale() {
    let mut here = InputArbiter::new(run(1));
    let mut there = InputArbiter::new(run(2));
    let mine = here.claim(HolderId::new(1), ControllerKind::Agent).unwrap();
    let theirs = there
        .claim(HolderId::new(1), ControllerKind::Agent)
        .unwrap();
    assert_eq!(
        here.stale_reason(theirs.key()),
        Some(StaleReason::RunMismatch)
    );
    assert_eq!(here.stale_reason(mine.key()), None);
    let other = InputArbiter::resume(
        run(1),
        ControllerState::Owned {
            epoch: ControllerEpoch::new(1),
            holder: HolderId::new(9),
            kind: ControllerKind::Human,
        },
    );
    assert_eq!(
        other.stale_reason(mine.key()),
        Some(StaleReason::HolderMismatch)
    );
    assert_eq!(
        ControlError::Stale {
            reason: StaleReason::HolderMismatch
        }
        .message(),
        "controller handle is stale: HolderMismatch"
    );
}

#[test]
fn an_exhausted_epoch_grants_nothing() {
    let mut arbiter = InputArbiter::resume(
        run(1),
        ControllerState::Unowned {
            epoch: ControllerEpoch::new(u64::MAX),
        },
    );
    assert_eq!(
        arbiter.claim(HolderId::new(1), ControllerKind::Human),
        Err(ControlError::EpochExhausted)
    );
    assert_eq!(
        arbiter.takeover(HolderId::new(1)),
        Err(ControlError::EpochExhausted)
    );
    assert_eq!(
        ControlError::EpochExhausted.message(),
        "controller epoch exhausted"
    );
    assert_eq!(
        ControllerEpoch::new(4).next(),
        Ok(ControllerEpoch::new(5))
    );
}

#[test]
fn a_request_is_written_in_order_with_exact_accounting() {
    let mut arbiter = InputArbiter::new(run(1));
    let handle = arbiter
        .claim(HolderId::new(1), ControllerKind::Agent)
        .unwrap();
    let mut pending = request(&handle, b"hello");
    let mut sink = Scripted::new(vec![
        Ok(2),
        Err(ErrorKind::WouldBlock),
        Err(ErrorKind::Interrupted),
        Ok(3),
    ]);
    for accepted in [2, 2, 2] {
        assert_eq!(
            arbiter.write_step(&mut pending, &mut sink),
            WriteStep::Pending
        );
        assert_eq!(pending.accepted(), accepted);
    }
    let done = WriteStep::Done(InputOutcome::Accepted {
        request_id: RequestId::new(3),
        epoch: ControllerEpoch::new(1),
        bytes: 5,
    });
    assert_eq!(arbiter.write_step(&mut pending, &mut sink), done);
    assert_eq!(arbiter.write_step(&mut pending, &mut sink), done);
    assert_eq!(
        sink.handed,
        [b"hello".to_vec(), b"llo".to_vec(), b"llo".to_vec(), b"llo".to_vec()]
    );
}

#[test]
fn a_request_ends_early_for_exactly_these_reasons() {
    let reason_for = |answer: Result<usize, ErrorKind>| {
        let mut arbiter = InputArbiter::new(run(1));
        let handle = arbiter
            .claim(HolderId::new(1), ControllerKind::Agent)
            .unwrap();
        let mut pending = request(&handle, b"hello");
        let mut sink = Scripted::new(vec![answer]);
        match arbiter.write_step(&mut pending, &mut sink) {
            WriteStep::Done(InputOutcome::Incomplete {
                accepted: 0,
                total: 5,
                reason,
                ..
            }) => reason,
            other => panic!("{other:?}"),
        }
    };
    assert_eq!(reason_for(Ok(0)), IncompleteReason::Closed);
    assert_eq!(
        reason_for(Ok(6)),
        IncompleteReason::SinkFailed(ErrorKind::InvalidData)
    );
    assert_eq!(
        reason_for(Err(ErrorKind::BrokenPipe)),
        IncompleteReason::SinkFailed(ErrorKind::BrokenPipe)
    );

    let mut arbiter = InputArbiter::new(run(1));
    let handle = arbiter
        .claim(HolderId::new(1), ControllerKind::Agent)
        .unwrap();
    let mut late = request(&handle, b"hello");
    assert!(matches!(
        late.expire(),
        InputOutcome::Incomplete {
            reason: IncompleteReason::DeadlineExceeded,
            ..
        }
    ));
    let mut revoked = request(&handle, b"hello");
    arbiter.takeover(HolderId::new(2)).unwrap();
    let mut sink = Scripted::new(vec![]);
    assert!(matches!(
        arbiter.write_step(&mut revoked, &mut sink),
        WriteStep::Done(InputOutcome::Incomplete {
            reason: IncompleteReason::NotAuthorized(StaleReason::EpochMismatch),
            ..
        })
    ));
    assert_eq!(
        PendingInput::new(RequestId::new(1), &handle, vec![]),
        Err(InputError::Empty)
    );
    assert_eq!(InputError::Empty.message(), "input request is empty");
}

#[test]
fn a_released_or_superseded_handle_stays_dead() {
    let mut arbiter = InputArbiter::new(run(1));
    let first = arbiter
        .claim(HolderId::new(1), ControllerKind::Agent)
        .unwrap();
    arbiter.release(&first).unwrap();
    let second = arbiter
        .claim(HolderId::new(1), ControllerKind::Agent)
        .unwrap();
    assert!(arbiter.authorize(first.key()).is_err(), "the same holder, a later epoch");
    let third = arbiter.takeover(HolderId::new(2)).unwrap().handle;
    for dead in [&first, &second] {
        assert!(arbiter.authorize(dead.key()).is_err());
    }
    assert!(arbiter.authorize(third.key()).is_ok());
    arbiter.release(&third).unwrap();
    for dead in [&first, &second, &third] {
        assert!(arbiter.authorize(dead.key()).is_err());
    }
}
