//! What the errors of the recording format say.

use crate::recording::{
    Corruption, DecodeError, DecodeErrorKind, EncodeError, TermNameError, Violation, MAX_PAYLOAD,
    MAX_TERM_LEN,
};
use crate::text::{decimal, push_decimal};
use vstd::prelude::*;

verus! {

impl TermNameError {
    pub open spec fn text(self) -> Seq<char> {
        match self {
            TermNameError::TooLong => "TERM is longer than "@ + decimal(MAX_TERM_LEN as nat)
                + " bytes"@,
            TermNameError::InvalidByte => "TERM contains a byte outside 0x21..=0x7E"@,
        }
    }

    /// What the error says.
    pub fn message(&self) -> (message: String)
        ensures
            message@ == self.text(),
    {
        let mut message = String::new();
        match self {
            TermNameError::TooLong => {
                message.append("TERM is longer than ");
                push_decimal(&mut message, MAX_TERM_LEN as u64);
                message.append(" bytes");
            },
            TermNameError::InvalidByte => {
                message.append("TERM contains a byte outside 0x21..=0x7E");
            },
        }
        assert(message@ =~= self.text());
        message
    }
}

impl EncodeError {
    pub open spec fn text(self) -> Seq<char> {
        match self {
            EncodeError::FirstSequence => "segment 0 must start at sequence 1"@,
            EncodeError::SequenceExhausted => "sequence space exhausted"@,
            EncodeError::EmptyPayload => "record payload is empty"@,
            EncodeError::InputNotRecorded => "input record in a segment without input recording"@,
            EncodeError::EmptySegmentRotation => "cannot rotate away from a segment with no records"@,
            EncodeError::SegmentIndexExhausted => "segment index space exhausted"@,
            EncodeError::Sequence { expected, got } => "expected sequence "@ + decimal(
                expected as nat,
            ) + ", got "@ + decimal(got as nat),
            EncodeError::ElapsedRegressed { previous, got } => "elapsed time went backwards: "@
                + decimal(previous as nat) + " ns then "@ + decimal(got as nat) + " ns"@,
            EncodeError::PayloadTooLarge { len } => "record payload is "@ + decimal(len as nat)
                + " bytes; the maximum is "@ + decimal(MAX_PAYLOAD as nat),
        }
    }

    /// What the error says.
    pub fn message(&self) -> (message: String)
        ensures
            message@ == self.text(),
    {
        let mut message = String::new();
        match self {
            EncodeError::FirstSequence => message.append("segment 0 must start at sequence 1"),
            EncodeError::SequenceExhausted => message.append("sequence space exhausted"),
            EncodeError::EmptyPayload => message.append("record payload is empty"),
            EncodeError::InputNotRecorded => message.append("input record in a segment without input recording"),
            EncodeError::EmptySegmentRotation => message.append("cannot rotate away from a segment with no records"),
            EncodeError::SegmentIndexExhausted => message.append("segment index space exhausted"),
            EncodeError::Sequence { expected, got } => {
                message.append("expected sequence ");
                push_decimal(&mut message, *expected);
                message.append(", got ");
                push_decimal(&mut message, *got);
            },
            EncodeError::ElapsedRegressed { previous, got } => {
                message.append("elapsed time went backwards: ");
                push_decimal(&mut message, *previous);
                message.append(" ns then ");
                push_decimal(&mut message, *got);
                message.append(" ns");
            },
            EncodeError::PayloadTooLarge { len } => {
                message.append("record payload is ");
                push_decimal(&mut message, *len as u64);
                message.append(" bytes; the maximum is ");
                push_decimal(&mut message, MAX_PAYLOAD as u64);
            },
        }
        assert(message@ =~= self.text());
        message
    }
}

impl Corruption {
    pub open spec fn text(self) -> Seq<char> {
        match self {
            Corruption::HeaderIncomplete => "HeaderIncomplete"@,
            Corruption::HeaderLength => "HeaderLength"@,
            Corruption::HeaderChecksum => "HeaderChecksum"@,
            Corruption::LengthCheck => "LengthCheck"@,
            Corruption::LengthBounds => "LengthBounds"@,
            Corruption::RecordChecksum => "RecordChecksum"@,
            Corruption::TruncatedInteriorSegment => "TruncatedInteriorSegment"@,
        }
    }

    /// The variant's name.
    pub fn name(self) -> (name: &'static str)
        ensures
            name@ == self.text(),
    {
        match self {
            Corruption::HeaderIncomplete => "HeaderIncomplete",
            Corruption::HeaderLength => "HeaderLength",
            Corruption::HeaderChecksum => "HeaderChecksum",
            Corruption::LengthCheck => "LengthCheck",
            Corruption::LengthBounds => "LengthBounds",
            Corruption::RecordChecksum => "RecordChecksum",
            Corruption::TruncatedInteriorSegment => "TruncatedInteriorSegment",
        }
    }
}

impl Violation {
    /// The variant's name.
    pub open spec fn text(self) -> Seq<char> {
        match self {
            Violation::HeaderLengthMismatch => "HeaderLengthMismatch"@,
            Violation::ReservedFlags => "ReservedFlags"@,
            Violation::RunIdVersion => "RunIdVersion"@,
            Violation::FirstSequence => "FirstSequence"@,
            Violation::ZeroGeometry => "ZeroGeometry"@,
            Violation::TermByte => "TermByte"@,
            Violation::PayloadSize => "PayloadSize"@,
            Violation::Correlation => "Correlation"@,
            Violation::InputNotRecorded => "InputNotRecorded"@,
            Violation::Sequence => "Sequence"@,
            Violation::ElapsedRegressed => "ElapsedRegressed"@,
            Violation::NoSegments => "NoSegments"@,
            Violation::SegmentIndex => "SegmentIndex"@,
            Violation::SegmentRun => "SegmentRun"@,
            Violation::SegmentOrigin => "SegmentOrigin"@,
            Violation::SegmentFlags => "SegmentFlags"@,
            Violation::SegmentTerm => "SegmentTerm"@,
            Violation::SegmentFirstSequence => "SegmentFirstSequence"@,
            Violation::SegmentGeometry => "SegmentGeometry"@,
            Violation::SegmentElapsed => "SegmentElapsed"@,
            Violation::EmptyInteriorSegment => "EmptyInteriorSegment"@,
            Violation::UnknownKind(_) => "UnknownKind"@,
            Violation::UnknownResizeCause(_) => "UnknownResizeCause"@,
        }
    }

    /// The byte at fault, where the variant carries it.
    pub open spec fn byte(self) -> Option<u8> {
        match self {
            Violation::UnknownKind(code) => Some(code),
            Violation::UnknownResizeCause(code) => Some(code),
            _ => None,
        }
    }

    /// The variant's name, and the byte at fault where the variant carries it.
    pub fn name(self) -> (name: (&'static str, Option<u8>))
        ensures
            name.0@ == self.text(),
            name.1 == self.byte(),
    {
        let name = match self {
            Violation::HeaderLengthMismatch => "HeaderLengthMismatch",
            Violation::ReservedFlags => "ReservedFlags",
            Violation::RunIdVersion => "RunIdVersion",
            Violation::FirstSequence => "FirstSequence",
            Violation::ZeroGeometry => "ZeroGeometry",
            Violation::TermByte => "TermByte",
            Violation::PayloadSize => "PayloadSize",
            Violation::Correlation => "Correlation",
            Violation::InputNotRecorded => "InputNotRecorded",
            Violation::Sequence => "Sequence",
            Violation::ElapsedRegressed => "ElapsedRegressed",
            Violation::NoSegments => "NoSegments",
            Violation::SegmentIndex => "SegmentIndex",
            Violation::SegmentRun => "SegmentRun",
            Violation::SegmentOrigin => "SegmentOrigin",
            Violation::SegmentFlags => "SegmentFlags",
            Violation::SegmentTerm => "SegmentTerm",
            Violation::SegmentFirstSequence => "SegmentFirstSequence",
            Violation::SegmentGeometry => "SegmentGeometry",
            Violation::SegmentElapsed => "SegmentElapsed",
            Violation::EmptyInteriorSegment => "EmptyInteriorSegment",
            Violation::UnknownKind(code) => return ("UnknownKind", Some(code)),
            Violation::UnknownResizeCause(code) => return ("UnknownResizeCause", Some(code)),
        };
        (name, None)
    }
}

impl DecodeErrorKind {
    pub open spec fn text(self) -> Seq<char> {
        match self {
            DecodeErrorKind::BadMagic => "BadMagic"@,
            DecodeErrorKind::UnsupportedVersion(version) => "UnsupportedVersion("@ + decimal(
                version as nat,
            ) + ")"@,
            DecodeErrorKind::Corrupt(corruption) => "Corrupt("@ + corruption.text() + ")"@,
            DecodeErrorKind::Invalid(violation) => "Invalid("@ + violation.text() + (
            match violation.byte() {
                Some(code) => "("@ + decimal(code as nat) + ")"@,
                None => Seq::empty(),
            }) + ")"@,
        }
    }
}

/// What is wrong with a recording.
fn push_kind(message: &mut String, kind: DecodeErrorKind)
    ensures
        final(message)@ == old(message)@ + kind.text(),
{
    let ghost start = message@;
    match kind {
        DecodeErrorKind::BadMagic => message.append("BadMagic"),
        DecodeErrorKind::UnsupportedVersion(version) => {
            message.append("UnsupportedVersion(");
            push_decimal(message, version as u64);
            message.append(")");
        },
        DecodeErrorKind::Corrupt(corruption) => {
            message.append("Corrupt(");
            message.append(corruption.name());
            message.append(")");
        },
        DecodeErrorKind::Invalid(violation) => {
            let (name, byte) = violation.name();
            message.append("Invalid(");
            message.append(name);
            if let Some(code) = byte {
                message.append("(");
                push_decimal(message, code as u64);
                message.append(")");
            }
            message.append(")");
        },
    }
    assert(message@ =~= start + kind.text());
}

impl DecodeError {
    pub open spec fn text(self) -> Seq<char> {
        "recording "@ + self.kind.text() + " at segment "@ + (match self.segment {
            Some(segment) => "Some("@ + decimal(segment as nat) + ")"@,
            None => "None"@,
        }) + " offset "@ + decimal(self.offset as nat)
    }

    /// What the error says.
    pub fn message(&self) -> (message: String)
        ensures
            message@ == self.text(),
    {
        let mut message = "recording ".to_owned();
        push_kind(&mut message, self.kind);
        message.append(" at segment ");
        match self.segment {
            Some(segment) => {
                message.append("Some(");
                push_decimal(&mut message, segment as u64);
                message.append(")");
            },
            None => message.append("None"),
        }
        message.append(" offset ");
        push_decimal(&mut message, self.offset);
        assert(message@ =~= self.text());
        message
    }
}

// What each error says, with the numbers that it carries.

/// What a refused `TERM` and a refused record are told as: what was wrong, and the numbers
/// that it carries, in their order.
pub proof fn law_encode_errors_are_told(
    term: TermNameError,
    term_message: String,
    error: EncodeError,
    message: String,
)
    requires
        call_ensures(TermNameError::message, (&term,), term_message),
        call_ensures(EncodeError::message, (&error,), message),
    ensures
        term_message@ == (match term {
            TermNameError::TooLong => "TERM is longer than "@ + decimal(256) + " bytes"@,
            TermNameError::InvalidByte => "TERM contains a byte outside 0x21..=0x7E"@,
        }),
        message@ == (match error {
            EncodeError::Sequence { expected, got } => "expected sequence "@ + decimal(
                expected as nat,
            ) + ", got "@ + decimal(got as nat),
            EncodeError::ElapsedRegressed { previous, got } => "elapsed time went backwards: "@
                + decimal(previous as nat) + " ns then "@ + decimal(got as nat) + " ns"@,
            EncodeError::PayloadTooLarge { len } => "record payload is "@ + decimal(len as nat)
                + " bytes; the maximum is "@ + decimal(65_536),
            EncodeError::FirstSequence => "segment 0 must start at sequence 1"@,
            EncodeError::SequenceExhausted => "sequence space exhausted"@,
            EncodeError::EmptyPayload => "record payload is empty"@,
            EncodeError::InputNotRecorded => "input record in a segment without input recording"@,
            EncodeError::EmptySegmentRotation =>
                "cannot rotate away from a segment with no records"@,
            EncodeError::SegmentIndexExhausted => "segment index space exhausted"@,
        }),
{
}

/// What a recording that does not decode is told as: what is wrong with it, by name and
/// with the version or byte at fault, in which segment and at which byte.
pub proof fn law_decode_errors_are_told(
    error: DecodeError,
    message: String,
    corruption: Corruption,
    damage: &'static str,
    violation: Violation,
    breach: (&'static str, Option<u8>),
)
    requires
        call_ensures(DecodeError::message, (&error,), message),
        error.kind matches DecodeErrorKind::Corrupt(c) ==> c == corruption,
        error.kind matches DecodeErrorKind::Invalid(v) ==> v == violation,
        call_ensures(Corruption::name, (corruption,), damage),
        call_ensures(Violation::name, (violation,), breach),
    ensures
        ({
            let place = " at segment "@ + (match error.segment {
                Some(segment) => "Some("@ + decimal(segment as nat) + ")"@,
                None => "None"@,
            }) + " offset "@ + decimal(error.offset as nat);
            &&& error.kind is BadMagic ==> message@ =~= "recording "@ + "BadMagic"@ + place
            &&& error.kind matches DecodeErrorKind::UnsupportedVersion(v) ==> message@
                =~= "recording "@ + ("UnsupportedVersion("@ + decimal(v as nat) + ")"@) + place
            &&& error.kind is Corrupt ==> message@ =~= "recording "@ + ("Corrupt("@ + damage@
                + ")"@) + place
            &&& error.kind is Invalid && breach.1 is None ==> message@ =~= "recording "@ + (
            "Invalid("@ + breach.0@ + ")"@) + place
            &&& error.kind is Invalid && breach.1 is Some ==> message@ =~= "recording "@ + (
            "Invalid("@ + breach.0@ + "("@ + decimal(breach.1->0 as nat) + ")"@ + ")"@) + place
        }),
        breach.1 is Some <==> violation is UnknownKind || violation is UnknownResizeCause,
        violation matches Violation::UnknownKind(code) ==> breach.1 == Some(code),
        violation matches Violation::UnknownResizeCause(code) ==> breach.1 == Some(code),
{
    if error.kind is Invalid {
        assert("Invalid("@ + breach.0@ + Seq::<char>::empty() =~= "Invalid("@ + breach.0@);
    }
}

/// What damage, and what breach of a rule, is called.
pub proof fn law_faults_are_named(
    corruption: Corruption,
    damage: &'static str,
    violation: Violation,
    breach: (&'static str, Option<u8>),
)
    requires
        call_ensures(Corruption::name, (corruption,), damage),
        call_ensures(Violation::name, (violation,), breach),
    ensures
        damage@ == (match corruption {
            Corruption::HeaderIncomplete => "HeaderIncomplete"@,
            Corruption::HeaderLength => "HeaderLength"@,
            Corruption::HeaderChecksum => "HeaderChecksum"@,
            Corruption::LengthCheck => "LengthCheck"@,
            Corruption::LengthBounds => "LengthBounds"@,
            Corruption::RecordChecksum => "RecordChecksum"@,
            Corruption::TruncatedInteriorSegment => "TruncatedInteriorSegment"@,
        }),
        breach.0@ == (match violation {
            Violation::HeaderLengthMismatch => "HeaderLengthMismatch"@,
            Violation::ReservedFlags => "ReservedFlags"@,
            Violation::RunIdVersion => "RunIdVersion"@,
            Violation::FirstSequence => "FirstSequence"@,
            Violation::ZeroGeometry => "ZeroGeometry"@,
            Violation::TermByte => "TermByte"@,
            Violation::UnknownKind(_) => "UnknownKind"@,
            Violation::PayloadSize => "PayloadSize"@,
            Violation::UnknownResizeCause(_) => "UnknownResizeCause"@,
            Violation::Correlation => "Correlation"@,
            Violation::InputNotRecorded => "InputNotRecorded"@,
            Violation::Sequence => "Sequence"@,
            Violation::ElapsedRegressed => "ElapsedRegressed"@,
            Violation::NoSegments => "NoSegments"@,
            Violation::SegmentIndex => "SegmentIndex"@,
            Violation::SegmentRun => "SegmentRun"@,
            Violation::SegmentOrigin => "SegmentOrigin"@,
            Violation::SegmentFlags => "SegmentFlags"@,
            Violation::SegmentTerm => "SegmentTerm"@,
            Violation::SegmentFirstSequence => "SegmentFirstSequence"@,
            Violation::SegmentGeometry => "SegmentGeometry"@,
            Violation::SegmentElapsed => "SegmentElapsed"@,
            Violation::EmptyInteriorSegment => "EmptyInteriorSegment"@,
        }),
{
}

} // verus!
