//! Exit codes for the PTY operations: `attach`, and `push` to a PTY session.
//!
//! A failure that belongs to one of these classes is marked with its
//! [`PtyExitCode`]; the binary's `main` finds it with [`exit_code`] and exits with
//! its code instead of 1. Every other failure keeps exit 1.
//!
//! 82 (deadline exceeded) and 83 (missing or incompatible screen extension) are
//! reserved in the same range and not used yet.

use crate::io_error::ErrorKind;
use vstd::prelude::*;

verus! {

/// The class of a PTY operation failure, which fixes its exit code.
#[derive(Clone, Copy, Debug, PartialEq, Eq, Structural)]
pub enum PtyExitCode {
    /// 80: request validation or protocol-version failure after CLI parsing,
    /// such as a handshake with an older or newer sidecar.
    Protocol,
    /// 81: controller conflict, stale epoch or stale run: someone else holds
    /// the terminal, took it over, or the run it targeted has ended.
    Control,
    /// 84: runtime, transport or storage failure, including a push that ended
    /// with bytes unwritten.
    Runtime,
    /// 85: peer identity or permission rejection.
    Identity,
}

impl PtyExitCode {
    pub open spec fn number(self) -> i32 {
        match self {
            PtyExitCode::Protocol => 80,
            PtyExitCode::Control => 81,
            PtyExitCode::Runtime => 84,
            PtyExitCode::Identity => 85,
        }
    }

    /// The process exit code.
    pub fn code(self) -> (code: i32)
        ensures
            code == self.number(),
    {
        match self {
            PtyExitCode::Protocol => 80,
            PtyExitCode::Control => 81,
            PtyExitCode::Runtime => 84,
            PtyExitCode::Identity => 85,
        }
    }

    /// `failure`, marked to exit with this code. It says what the failure said,
    /// causes included.
    pub fn error(self, failure: Failure) -> (marked: Failure)
        ensures
            marked@ == seq![
                LinkModel { message: joined(failure@), code: Some(self) },
            ],
    {
        let message = failure.full_message();
        let links = vec![Link { message, code: Some(self) }];
        let marked = Failure { links };
        assert(marked@ =~= seq![LinkModel { message: joined(failure@), code: Some(self) }]);
        marked
    }

    /// The class of a failed peer check on the attach socket: a peer of
    /// another user (`PermissionDenied`) is [`Identity`](Self::Identity); a
    /// credential query that failed is [`Runtime`](Self::Runtime).
    pub fn of_peer_check(kind: ErrorKind) -> (code: PtyExitCode)
        ensures
            code == (if kind == ErrorKind::PermissionDenied {
                PtyExitCode::Identity
            } else {
                PtyExitCode::Runtime
            }),
    {
        if kind == ErrorKind::PermissionDenied {
            PtyExitCode::Identity
        } else {
            PtyExitCode::Runtime
        }
    }
}

/// One error of a chain: what it says, and the exit code it is marked with.
#[derive(Clone, Debug, PartialEq, Eq)]
pub struct Link {
    pub message: String,
    pub code: Option<PtyExitCode>,
}

/// A command's failure: an error, then what caused it, then what caused that.
#[derive(Clone, Debug, PartialEq, Eq)]
pub struct Failure {
    links: Vec<Link>,
}

pub struct LinkModel {
    pub message: Seq<char>,
    pub code: Option<PtyExitCode>,
}

impl View for Link {
    type V = LinkModel;

    open spec fn view(&self) -> LinkModel {
        LinkModel { message: self.message@, code: self.code }
    }
}

pub open spec fn link_models(links: Seq<Link>) -> Seq<LinkModel> {
    Seq::new(links.len(), |i: int| links[i]@)
}

impl View for Failure {
    type V = Seq<LinkModel>;

    closed spec fn view(&self) -> Seq<LinkModel> {
        link_models(self.links@)
    }
}

/// What a chain says, each cause behind a colon.
pub open spec fn joined(links: Seq<LinkModel>) -> Seq<char>
    decreases links.len(),
{
    if links.len() == 0 {
        Seq::empty()
    } else if links.len() == 1 {
        links[0].message
    } else {
        joined(links.drop_last()) + ": "@ + links.last().message
    }
}

/// The code of the first marked error of a chain, or 1.
pub open spec fn code_of(links: Seq<LinkModel>) -> i32
    decreases links.len(),
{
    if links.len() == 0 {
        1
    } else {
        match links[0].code {
            Some(code) => code.number(),
            None => code_of(links.skip(1)),
        }
    }
}

impl Failure {
    /// A failure with no further cause.
    pub fn new(message: &str) -> (failure: Failure)
        ensures
            failure@ == seq![LinkModel { message: message@, code: None }],
    {
        let failure = Failure { links: vec![Link { message: message.to_owned(), code: None }] };
        assert(failure@ =~= seq![LinkModel { message: message@, code: None }]);
        failure
    }

    /// The failure as the cause of what `message` says.
    pub fn context(self, message: &str) -> (failure: Failure)
        ensures
            failure@ == seq![LinkModel { message: message@, code: None }] + self@,
    {
        let ghost before = self@;
        let mut causes = self.links;
        let mut links = vec![Link { message: message.to_owned(), code: None }];
        links.append(&mut causes);
        let failure = Failure { links };
        assert(failure@ =~= seq![LinkModel { message: message@, code: None }] + before);
        failure
    }

    /// What the error says, without its causes.
    pub fn message(&self) -> (message: &str)
        ensures
            message@ == (if self@.len() == 0 {
                Seq::empty()
            } else {
                self@[0].message
            }),
    {
        if self.links.len() == 0 {
            proof {
                reveal_strlit("");
                assert(""@ =~= Seq::<char>::empty());
            }
            ""
        } else {
            self.links[0].message.as_str()
        }
    }

    /// What the error says, causes included.
    pub fn full_message(&self) -> (message: String)
        ensures
            message@ == joined(self@),
    {
        let mut message = String::new();
        let mut i: usize = 0;
        assert(self@.take(0) =~= Seq::empty());
        while i < self.links.len()
            invariant
                i <= self.links@.len(),
                self@ == link_models(self.links@),
                message@ == joined(self@.take(i as int)),
            decreases self.links@.len() - i,
        {
            let ghost head = self@.take(i as int);
            proof {
                assert(self@.take(i + 1).drop_last() =~= head);
                assert(self@.take(i + 1).last() == self.links@[i as int]@);
            }
            if i > 0 {
                message.append(": ");
            }
            message.append(self.links[i].message.as_str());
            i = i + 1;
            assert(message@ =~= joined(self@.take(i as int)));
        }
        assert(self@.take(i as int) =~= self@);
        message
    }
}

/// The exit code for a command's failure: the code of the first marked error
/// in its chain, or 1.
pub fn exit_code(failure: &Failure) -> (code: i32)
    ensures
        code == code_of(failure@),
{
    let mut i: usize = 0;
    assert(failure@.skip(0) =~= failure@);
    while i < failure.links.len()
        invariant
            i <= failure.links@.len(),
            failure@ == link_models(failure.links@),
            code_of(failure@) == code_of(failure@.skip(i as int)),
        decreases failure.links@.len() - i,
    {
        proof {
            assert(failure@.skip(i as int)[0] == failure.links@[i as int]@);
            assert(failure@.skip(i as int).skip(1) =~= failure@.skip(i + 1));
        }
        if let Some(code) = failure.links[i].code {
            return code.code();
        }
        i = i + 1;
    }
    1
}

/// Context on top of a marked failure keeps its code.
pub proof fn law_context_keeps_the_code(failure: Seq<LinkModel>, message: Seq<char>)
    ensures
        code_of(seq![LinkModel { message, code: None }] + failure) == code_of(failure),
{
    let wrapped = seq![LinkModel { message, code: None }] + failure;
    assert(wrapped.skip(1) =~= failure);
}

/// A failure that was marked exits with its mark and says what it said before.
pub proof fn law_mark_fixes_the_code(failure: Seq<LinkModel>, code: PtyExitCode)
    ensures
        code_of(seq![LinkModel { message: joined(failure), code: Some(code) }]) == code.number(),
        joined(seq![LinkModel { message: joined(failure), code: Some(code) }]) == joined(failure),
{
}

// What each operation does, in terms of what it was given and what it gave back.

/// A failure says its message first and then each cause behind a colon, the nearest first.
/// It exits with the code of the nearest cause that is marked, and with 1 where none is.
/// Context adds a message in front of it, and changes nothing else; a mark keeps what it
/// said, and fixes the code.
pub proof fn law_failures_are_told_and_coded(
    message: &str,
    fresh: Failure,
    failure: Failure,
    in_context: Failure,
    class: PtyExitCode,
    marked: Failure,
    number: i32,
    code_fresh: i32,
    code_before: i32,
    code_in_context: i32,
    code_marked: i32,
    said: String,
    said_marked: String,
    first: &str,
)
    requires
        call_ensures(Failure::new, (message,), fresh),
        call_ensures(Failure::context, (failure, message), in_context),
        call_ensures(PtyExitCode::error, (class, failure), marked),
        call_ensures(PtyExitCode::code, (class,), number),
        call_ensures(exit_code, (&fresh,), code_fresh),
        call_ensures(exit_code, (&failure,), code_before),
        call_ensures(exit_code, (&in_context,), code_in_context),
        call_ensures(exit_code, (&marked,), code_marked),
        call_ensures(Failure::full_message, (&failure,), said),
        call_ensures(Failure::full_message, (&marked,), said_marked),
        call_ensures(Failure::message, (&in_context,), first),
    ensures
        code_fresh == 1,
        code_in_context == code_before,
        code_marked == number,
        said_marked@ == said@,
        first@ == message@,
        in_context@.len() == failure@.len() + 1,
        in_context@.skip(1) =~= failure@,
        number == (match class {
            PtyExitCode::Protocol => 80i32,
            PtyExitCode::Control => 81,
            PtyExitCode::Runtime => 84,
            PtyExitCode::Identity => 85,
        }),
{
    law_context_keeps_the_code(failure@, message@);
    law_mark_fixes_the_code(failure@, class);
    assert(fresh@.skip(1) =~= Seq::<LinkModel>::empty());
    assert(code_of(fresh@.skip(1)) == 1);
}

/// What a failure says with one cause more is what it said, a colon, and that cause.
pub proof fn law_causes_are_told_behind_a_colon(
    shorter: Failure,
    longer: Failure,
    short: String,
    long: String,
)
    requires
        longer@.len() == shorter@.len() + 1,
        longer@.drop_last() == shorter@,
        call_ensures(Failure::full_message, (&shorter,), short),
        call_ensures(Failure::full_message, (&longer,), long),
    ensures
        shorter@.len() > 0 ==> long@ == short@ + ": "@ + longer@.last().message,
        shorter@.len() == 0 ==> long@ == longer@.last().message && short@.len() == 0,
{
}

/// A failure exits with the first mark in its chain: a mark behind it, and a message that
/// is not marked, do not matter.
pub proof fn law_first_mark_decides(failure: Failure, at: int, code: i32)
    requires
        0 <= at <= failure@.len(),
        forall|i: int| 0 <= i < at ==> (#[trigger] failure@[i]).code is None,
        at < failure@.len() ==> failure@[at].code is Some,
        call_ensures(exit_code, (&failure,), code),
    ensures
        at == failure@.len() ==> code == 1,
        at < failure@.len() ==> code == (match failure@[at].code->0 {
            PtyExitCode::Protocol => 80i32,
            PtyExitCode::Control => 81,
            PtyExitCode::Runtime => 84,
            PtyExitCode::Identity => 85,
        }),
{
    lemma_first_mark(failure@, at);
}

proof fn lemma_first_mark(links: Seq<LinkModel>, at: int)
    requires
        0 <= at <= links.len(),
        forall|i: int| 0 <= i < at ==> (#[trigger] links[i]).code is None,
        at < links.len() ==> links[at].code is Some,
    ensures
        code_of(links) == (if at < links.len() {
            links[at].code->0.number()
        } else {
            1
        }),
    decreases at,
{
    if at > 0 {
        assert(links[0].code is None);
        assert forall|i: int| 0 <= i < at - 1 implies (#[trigger] links.skip(1)[i]).code is None by {
            assert(links.skip(1)[i] == links[i + 1]);
        }
        lemma_first_mark(links.skip(1), at - 1);
    }
}

/// A peer of another user is a matter of identity; a check that failed otherwise is a
/// matter of the runtime.
pub proof fn law_peer_checks_are_classed(kind: ErrorKind, code: PtyExitCode)
    requires
        call_ensures(PtyExitCode::of_peer_check, (kind,), code),
    ensures
        kind is PermissionDenied ==> code is Identity,
        !(kind is PermissionDenied) ==> code is Runtime,
{
}

} // verus!
