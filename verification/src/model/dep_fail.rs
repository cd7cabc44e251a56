//! Why a run never started: its dependencies.

use vstd::prelude::*;

verus! {

/// How the dependency wait phase failed.
#[derive(Clone, Copy, Debug, PartialEq, Eq, Hash, Structural)]
pub enum DepFailReason {
    /// A dependency ended without success, or is not there.
    Failed,
    /// The wait exceeded its timeout.
    TimedOut,
    /// A kill was requested during the wait.
    Killed,
    /// A forced kill was requested during the wait.
    KilledForced,
}

impl DepFailReason {
    pub open spec fn text(self) -> Seq<char> {
        match self {
            DepFailReason::Failed => "Failed"@,
            DepFailReason::TimedOut => "TimedOut"@,
            DepFailReason::Killed => "Killed"@,
            DepFailReason::KilledForced => "KilledForced"@,
        }
    }

    /// The wire name.
    pub fn as_str(self) -> (name: &'static str)
        ensures
            name@ == self.text(),
    {
        match self {
            DepFailReason::Failed => "Failed",
            DepFailReason::TimedOut => "TimedOut",
            DepFailReason::Killed => "Killed",
            DepFailReason::KilledForced => "KilledForced",
        }
    }
}

/// What each reason is called on the wire.
pub proof fn law_reasons_are_named(reason: DepFailReason, name: &'static str)
    requires
        call_ensures(DepFailReason::as_str, (reason,), name),
    ensures
        reason is Failed ==> name@ == "Failed"@,
        reason is TimedOut ==> name@ == "TimedOut"@,
        reason is Killed ==> name@ == "Killed"@,
        reason is KilledForced ==> name@ == "KilledForced"@,
{
}

} // verus!
