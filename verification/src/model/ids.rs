//! Identities of runs and processes.

use crate::text::{digits, lemma_digits_len};
use vstd::prelude::*;

verus! {

/// The version that the UUID of a run carries.
pub const RUN_ID_VERSION: usize = 7;

/// A time-ordered UUID that names one run, as its high and low halves.
#[derive(Clone, Copy, Debug, PartialEq, Eq, Hash, Structural)]
pub struct RunId {
    hi: u64,
    lo: u64,
}

/// The version field of a UUID whose high half is `hi`.
pub open spec fn version_of(hi: u64) -> nat {
    (hi as nat / 0x1000) % 16
}

/// A UUID in its hyphenated lower-case form.
pub open spec fn uuid_text(hi: u64, lo: u64) -> Seq<char> {
    digits(hi as nat / 0x1_0000_0000, 16, 8) + seq!['-'] + digits(hi as nat / 0x1_0000, 16, 4)
        + seq!['-'] + digits(hi as nat, 16, 4) + seq!['-'] + digits(
        lo as nat / 0x1_0000_0000_0000,
        16,
        4,
    ) + seq!['-'] + digits(lo as nat, 16, 12)
}

/// `uuid::Uuid::get_version_num`: the four high bits of the seventh byte.
#[verifier::external_body]
fn uuid_version(hi: u64, lo: u64) -> (version: usize)
    ensures
        version == version_of(hi),
{
    uuid::Uuid::from_u64_pair(hi, lo).get_version_num()
}

/// The `Display` form of `uuid::Uuid`: 32 lower-case hexadecimal digits in
/// groups of 8, 4, 4, 4 and 12.
#[verifier::external_body]
fn uuid_to_string(hi: u64, lo: u64) -> (text: String)
    ensures
        text@ == uuid_text(hi, lo),
{
    uuid::Uuid::from_u64_pair(hi, lo).to_string()
}

impl View for RunId {
    type V = (u64, u64);

    closed spec fn view(&self) -> (u64, u64) {
        (self.hi, self.lo)
    }
}

/// A run identity is its two halves.
pub broadcast proof fn lemma_run_id_ext(a: RunId, b: RunId)
    ensures
        #[trigger] a@ == #[trigger] b@ <==> a == b,
{
}

impl RunId {
    /// Every run identity carries the version of a time-ordered UUID.
    #[verifier::type_invariant]
    pub open spec fn valid(self) -> bool {
        version_of(self@.0) == RUN_ID_VERSION
    }

    /// `None` unless the UUID has version 7.
    pub fn from_v7(hi: u64, lo: u64) -> (run_id: Option<RunId>)
        ensures
            run_id is Some <==> version_of(hi) == RUN_ID_VERSION,
            run_id matches Some(id) ==> id@ == (hi, lo),
    {
        if uuid_version(hi, lo) == RUN_ID_VERSION {
            Some(RunId { hi, lo })
        } else {
            None
        }
    }

    /// The high and the low half of the UUID.
    pub fn as_u64_pair(self) -> (pair: (u64, u64))
        ensures
            pair == self@,
    {
        (self.hi, self.lo)
    }

    /// The hyphenated form.
    pub fn to_text(self) -> (text: String)
        ensures
            text@ == uuid_text(self@.0, self@.1),
    {
        uuid_to_string(self.hi, self.lo)
    }
}

/// A process, told apart from a later one that reuses its number.
#[derive(Clone, Copy, Debug, PartialEq, Eq, Hash, Structural)]
pub struct ProcessIdentity {
    pub pid: u32,
    pub start_time_ns: u64,
}

/// Seconds since the Unix epoch.
#[derive(Clone, Copy, Debug, PartialEq, Eq, Hash, Structural)]
pub struct EpochTimestamp {
    pub secs: u64,
}

impl EpochTimestamp {
    pub fn from_secs(secs: u64) -> (at: EpochTimestamp)
        ensures
            at.secs == secs,
    {
        EpochTimestamp { secs }
    }
}

/// A run identity is made of the halves of a time-ordered UUID, and gives them back.
pub proof fn law_run_id_is_its_uuid(hi: u64, lo: u64, run_id: Option<RunId>, pair: (u64, u64))
    requires
        call_ensures(RunId::from_v7, (hi, lo), run_id),
        run_id matches Some(id) ==> call_ensures(RunId::as_u64_pair, (id,), pair),
    ensures
        run_id is Some <==> (hi as nat / 0x1000) % 16 == 7,
        run_id is Some ==> pair == (hi, lo),
{
}

/// A run is told by the thirty-two digits of its UUID, high half first, in groups of eight,
/// four, four, four and twelve with hyphens between them.
pub proof fn law_run_ids_are_told_as_uuids(run_id: RunId, pair: (u64, u64), text: String)
    requires
        call_ensures(RunId::as_u64_pair, (run_id,), pair),
        call_ensures(RunId::to_text, (run_id,), text),
    ensures
        text@.len() == 36,
        text@[8] == '-' && text@[13] == '-' && text@[18] == '-' && text@[23] == '-',
        text@.take(8) + text@.subrange(9, 13) + text@.subrange(14, 18) =~= digits(
            pair.0 as nat,
            16,
            16,
        ),
        text@.subrange(19, 23) + text@.skip(24) =~= digits(pair.1 as nat, 16, 16),
{
    let hi = pair.0 as nat;
    let lo = pair.1 as nat;
    lemma_digits_len(hi / 0x1_0000_0000, 16, 8);
    lemma_digits_len(hi / 0x1_0000, 16, 4);
    lemma_digits_len(hi, 16, 4);
    lemma_digits_len(lo / 0x1_0000_0000_0000, 16, 4);
    lemma_digits_len(lo, 16, 12);
    lemma_digits_split(hi, 12, 4);
    lemma_digits_split(hi / 0x1_0000, 8, 4);
    lemma_digits_split(lo, 4, 12);
    lemma_power16();
    assert(hi / 0x1_0000 / 0x1_0000 == hi / 0x1_0000_0000);
    assert(text@.take(8) =~= digits(hi / 0x1_0000_0000, 16, 8));
    assert(text@.subrange(9, 13) =~= digits(hi / 0x1_0000, 16, 4));
    assert(text@.subrange(14, 18) =~= digits(hi, 16, 4));
    assert(text@.subrange(19, 23) =~= digits(lo / 0x1_0000_0000_0000, 16, 4));
    assert(text@.skip(24) =~= digits(lo, 16, 12));
}

/// Sixteen to the power `n`.
pub open spec fn power16(n: nat) -> nat
    decreases n,
{
    if n == 0 {
        1
    } else {
        16 * power16((n - 1) as nat)
    }
}

proof fn lemma_power16()
    ensures
        power16(4) == 0x1_0000,
        power16(12) == 0x1_0000_0000_0000,
{
    reveal_with_fuel(power16, 13);
}

/// Digits split anywhere: the high ones are those of the quotient.
proof fn lemma_digits_split(value: nat, a: nat, b: nat)
    ensures
        power16(b) > 0,
        digits(value, 16, a + b) =~= digits(value / power16(b), 16, a) + digits(value, 16, b),
    decreases b,
{
    if b == 0 {
        assert(value / 1 == value);
        assert(digits(value, 16, 0) =~= Seq::<char>::empty());
    } else {
        let c = (b - 1) as nat;
        lemma_digits_split(value / 16, a, c);
        lemma_digits_len(value / 16, 16, c);
        assert(value / 16 / power16(c) == value / (16 * power16(c))) by {
            vstd::arithmetic::div_mod::lemma_div_denominator(
                value as int,
                16,
                power16(c) as int,
            );
        }
        assert((a + b - 1) as nat == a + c);
        let high = digits(value / power16(b), 16, a);
        let low = digits(value / 16, 16, c);
        assert((high + low).push(crate::text::digit(value % 16)) =~= high + low.push(
            crate::text::digit(value % 16),
        ));
    }
}

/// A time is the seconds that it was made of.
pub proof fn law_times_are_their_seconds(secs: u64, at: EpochTimestamp)
    requires
        call_ensures(EpochTimestamp::from_secs, (secs,), at),
    ensures
        at.secs == secs,
{
}

} // verus!
