//! Boundary descriptor: where a session runs, for legibility only.
//!
//! Boundaries (host, container, VM, pod) are described, never managed.

use crate::text::{quoted, quoted_of, same_text};
use std::str::FromStr;
use vstd::prelude::*;

verus! {

/// The kind of execution boundary a session is declared to run within.
/// Open vocabulary: new kinds may be added without breaking callers.
#[derive(Clone, Copy, Debug, PartialEq, Eq, Structural)]
#[non_exhaustive]
pub enum BoundaryKind {
    Host,
    Container,
    Vm,
    Pod,
}

impl BoundaryKind {
    pub open spec fn text(self) -> Seq<char> {
        match self {
            BoundaryKind::Host => "host"@,
            BoundaryKind::Container => "container"@,
            BoundaryKind::Vm => "vm"@,
            BoundaryKind::Pod => "pod"@,
        }
    }

    /// The wire and command-line token for this kind.
    pub fn as_str(&self) -> (name: &'static str)
        ensures
            name@ == self.text(),
    {
        match self {
            BoundaryKind::Host => "host",
            BoundaryKind::Container => "container",
            BoundaryKind::Vm => "vm",
            BoundaryKind::Pod => "pod",
        }
    }

    /// The kind that a token names.
    pub open spec fn named(token: Seq<char>) -> Option<BoundaryKind> {
        if token == "host"@ {
            Some(BoundaryKind::Host)
        } else if token == "container"@ {
            Some(BoundaryKind::Container)
        } else if token == "vm"@ {
            Some(BoundaryKind::Vm)
        } else if token == "pod"@ {
            Some(BoundaryKind::Pod)
        } else {
            None
        }
    }

    /// The kind that a token names.
    pub fn parse(s: &str) -> (kind: Result<BoundaryKind, BoundaryParseError>)
        ensures
            match BoundaryKind::named(s@) {
                Some(k) => kind == Ok::<BoundaryKind, BoundaryParseError>(k),
                None => kind matches Err(BoundaryParseError::UnknownKind(token)) && token@ == s@,
            },
    {
        if same_text(s, "host") {
            Ok(BoundaryKind::Host)
        } else if same_text(s, "container") {
            Ok(BoundaryKind::Container)
        } else if same_text(s, "vm") {
            Ok(BoundaryKind::Vm)
        } else if same_text(s, "pod") {
            Ok(BoundaryKind::Pod)
        } else {
            Err(BoundaryParseError::UnknownKind(s.to_owned()))
        }
    }
}

/// A single boundary: its kind and a user-supplied label (e.g. host name,
/// image tag, VM id). The label is opaque.
#[derive(Clone, Debug, PartialEq, Eq)]
pub struct Boundary {
    pub kind: BoundaryKind,
    pub label: String,
}

/// A boundary and its ancestry. Flat vector, not recursive. `parents[0]` is the
/// immediate parent.
#[derive(Clone, Debug, PartialEq, Eq)]
pub struct BoundaryContext {
    pub current: Boundary,
    pub parents: Vec<Boundary>,
}

/// Failure parsing a `kind:label` boundary token.
#[derive(Clone, Debug, PartialEq, Eq)]
pub enum BoundaryParseError {
    /// A boundary must be `KIND:LABEL`.
    MissingColon(String),
    /// A boundary label cannot be empty.
    EmptyLabel(String),
    /// Neither host, container, vm, nor pod.
    UnknownKind(String),
}

impl BoundaryParseError {
    /// The token that was refused.
    pub open spec fn token(self) -> Seq<char> {
        match self {
            BoundaryParseError::MissingColon(token) => token@,
            BoundaryParseError::EmptyLabel(token) => token@,
            BoundaryParseError::UnknownKind(token) => token@,
        }
    }

    /// The message, given the token in quotes.
    pub open spec fn message_text(self, quoted: Seq<char>) -> Seq<char> {
        match self {
            BoundaryParseError::MissingColon(_) => "boundary must be KIND:LABEL (missing ':'), got: "@
                + quoted,
            BoundaryParseError::EmptyLabel(_) => "boundary label cannot be empty, got: "@ + quoted,
            BoundaryParseError::UnknownKind(_) => "unknown boundary kind "@ + quoted
                + " (expected host, container, vm, or pod)"@,
        }
    }

    /// The message, given the token in quotes.
    pub fn message_with(&self, quoted: &str) -> (message: String)
        ensures
            message@ == self.message_text(quoted@),
    {
        let mut message = String::new();
        match self {
            BoundaryParseError::MissingColon(_) => {
                message.append("boundary must be KIND:LABEL (missing ':'), got: ");
                message.append(quoted);
            },
            BoundaryParseError::EmptyLabel(_) => {
                message.append("boundary label cannot be empty, got: ");
                message.append(quoted);
            },
            BoundaryParseError::UnknownKind(_) => {
                message.append("unknown boundary kind ");
                message.append(quoted);
                message.append(" (expected host, container, vm, or pod)");
            },
        }
        assert(message@ =~= self.message_text(quoted@));
        message
    }

    /// The message.
    pub fn message(&self) -> (message: String)
        ensures
            message@ == self.message_text(quoted_of(self.token())),
    {
        match self {
            BoundaryParseError::MissingColon(token) => self.message_with(
                quoted(token.as_str()).as_str(),
            ),
            BoundaryParseError::EmptyLabel(token) => self.message_with(
                quoted(token.as_str()).as_str(),
            ),
            BoundaryParseError::UnknownKind(token) => self.message_with(
                quoted(token.as_str()).as_str(),
            ),
        }
    }
}

/// The text of a boundary: `kind:label`.
pub open spec fn boundary_text(kind: BoundaryKind, label: Seq<char>) -> Seq<char> {
    kind.text() + seq![':'] + label
}

/// Where the first colon stands, or the length where there is none.
pub open spec fn colon_index(s: Seq<char>) -> nat
    decreases s.len(),
{
    if s.len() == 0 || s[0] == ':' {
        0
    } else {
        1 + colon_index(s.skip(1))
    }
}

/// Why a token is no boundary.
pub enum BoundaryRefusal {
    MissingColon(Seq<char>),
    EmptyLabel(Seq<char>),
    UnknownKind(Seq<char>),
}

/// The boundary that a token stands for: what is before the first colon names its kind,
/// and all that is behind it is the label.
pub open spec fn parsed_boundary(s: Seq<char>) -> Result<
    (BoundaryKind, Seq<char>),
    BoundaryRefusal,
> {
    let colon = colon_index(s) as int;
    if colon == s.len() {
        Err(BoundaryRefusal::MissingColon(s))
    } else if colon + 1 == s.len() {
        Err(BoundaryRefusal::EmptyLabel(s))
    } else {
        match BoundaryKind::named(s.take(colon)) {
            Some(kind) => Ok((kind, s.skip(colon + 1))),
            None => Err(BoundaryRefusal::UnknownKind(s.take(colon))),
        }
    }
}

proof fn lemma_colon_index(s: Seq<char>, i: int)
    requires
        0 <= i <= s.len(),
        i < s.len() ==> s[i] == ':',
        forall|j: int| 0 <= j < i ==> s[j] != ':',
    ensures
        colon_index(s) == i,
    decreases s.len(),
{
    if s.len() > 0 && s[0] != ':' {
        lemma_colon_index(s.skip(1), i - 1);
    }
}

impl Boundary {
    /// Parses `kind:label`. Splits on the *first* colon only, so labels may
    /// themselves contain colons (e.g. `container:my-image:latest`).
    pub fn parse(s: &str) -> (boundary: Result<Boundary, BoundaryParseError>)
        ensures
            match parsed_boundary(s@) {
                Ok((kind, label)) => boundary matches Ok(b) && b.kind == kind && b.label@ == label,
                Err(BoundaryRefusal::MissingColon(text)) => boundary matches Err(
                    BoundaryParseError::MissingColon(t),
                ) && t@ == text,
                Err(BoundaryRefusal::EmptyLabel(text)) => boundary matches Err(
                    BoundaryParseError::EmptyLabel(t),
                ) && t@ == text,
                Err(BoundaryRefusal::UnknownKind(text)) => boundary matches Err(
                    BoundaryParseError::UnknownKind(t),
                ) && t@ == text,
            },
    {
        let n: usize = s.unicode_len();
        let mut i: usize = 0;
        while i < n && s.get_char(i) != ':'
            invariant
                i <= n,
                n == s@.len(),
                forall|j: int| 0 <= j < i ==> s@[j] != ':',
            decreases n - i,
        {
            i = i + 1;
        }
        proof {
            lemma_colon_index(s@, i as int);
            assert(s@.subrange(0, i as int) =~= s@.take(i as int));
        }
        if i == n {
            return Err(BoundaryParseError::MissingColon(s.to_owned()));
        }
        if i + 1 == n {
            return Err(BoundaryParseError::EmptyLabel(s.to_owned()));
        }
        let kind = match BoundaryKind::parse(s.substring_char(0, i)) {
            Ok(kind) => kind,
            Err(error) => return Err(error),
        };
        let label = s.substring_char(i + 1, n).to_owned();
        assert(label@ =~= s@.skip(i + 1));
        Ok(Boundary { kind, label })
    }

    /// The `kind:label` form, which parses back into this boundary.
    pub fn to_text(&self) -> (text: String)
        ensures
            text@ == boundary_text(self.kind, self.label@),
    {
        let mut text = String::new();
        text.append(self.kind.as_str());
        text.push(':');
        text.append(self.label.as_str());
        assert(text@ =~= boundary_text(self.kind, self.label@));
        text
    }
}

impl FromStr for BoundaryKind {
    type Err = BoundaryParseError;

    fn from_str(s: &str) -> (kind: Result<Self, Self::Err>)
        ensures
            match BoundaryKind::named(s@) {
                Some(k) => kind == Ok::<BoundaryKind, BoundaryParseError>(k),
                None => kind matches Err(BoundaryParseError::UnknownKind(token)) && token@ == s@,
            },
    {
        BoundaryKind::parse(s)
    }
}

impl FromStr for Boundary {
    type Err = BoundaryParseError;

    fn from_str(s: &str) -> (boundary: Result<Self, Self::Err>)
        ensures
            match parsed_boundary(s@) {
                Ok((kind, label)) => boundary matches Ok(b) && b.kind == kind && b.label@ == label,
                Err(BoundaryRefusal::MissingColon(text)) => boundary matches Err(
                    BoundaryParseError::MissingColon(t),
                ) && t@ == text,
                Err(BoundaryRefusal::EmptyLabel(text)) => boundary matches Err(
                    BoundaryParseError::EmptyLabel(t),
                ) && t@ == text,
                Err(BoundaryRefusal::UnknownKind(text)) => boundary matches Err(
                    BoundaryParseError::UnknownKind(t),
                ) && t@ == text,
            },
    {
        Boundary::parse(s)
    }
}

/// A kind's token holds no colon and names that kind.
proof fn lemma_kind_text(kind: BoundaryKind)
    ensures
        forall|i: int| 0 <= i < kind.text().len() ==> kind.text()[i] != ':',
        BoundaryKind::named(kind.text()) == Some(kind),
{
    reveal_strlit("host");
    reveal_strlit("container");
    reveal_strlit("vm");
    reveal_strlit("pod");
    assert("host"@[0] == 'h' && "container"@[0] == 'c' && "vm"@[0] == 'v' && "pod"@[0] == 'p');
}

/// A boundary with a label round-trips: its text parses back into it.
pub proof fn law_boundary_round_trip(kind: BoundaryKind, label: Seq<char>)
    requires
        label.len() > 0,
    ensures
        parsed_boundary(boundary_text(kind, label)) == Ok::<
            (BoundaryKind, Seq<char>),
            BoundaryRefusal,
        >((kind, label)),
{
    lemma_kind_text(kind);
    let s = boundary_text(kind, label);
    let n = kind.text().len() as int;
    assert(forall|j: int| 0 <= j < n ==> s[j] == kind.text()[j]);
    lemma_colon_index(s, n);
    assert(s.take(n) =~= kind.text());
    assert(s.skip(n + 1) =~= label);
}

/// Only the text of a boundary with a label parses, and it parses into that boundary.
pub proof fn law_parsed_boundary_is_its_text(s: Seq<char>)
    ensures
        parsed_boundary(s) matches Ok((kind, label)) ==> label.len() > 0 && s == boundary_text(
            kind,
            label,
        ),
{
    lemma_colon_found(s);
    if let Ok((kind, label)) = parsed_boundary(s) {
        assert(s =~= boundary_text(kind, label));
    }
}

proof fn lemma_colon_found(s: Seq<char>)
    ensures
        colon_index(s) <= s.len(),
        colon_index(s) < s.len() ==> s[colon_index(s) as int] == ':',
    decreases s.len(),
{
    if s.len() > 0 {
        lemma_colon_found(s.skip(1));
    }
}

// What each operation does, in terms of what it was given and what it gave back.

/// The first colon has none before it.
proof fn lemma_first_colon(s: Seq<char>)
    ensures
        colon_index(s) <= s.len(),
        forall|i: int| 0 <= i < colon_index(s) ==> (#[trigger] s[i]) != ':',
        colon_index(s) < s.len() ==> s[colon_index(s) as int] == ':',
    decreases s.len(),
{
    if s.len() > 0 && s[0] != ':' {
        let rest = s.skip(1);
        lemma_first_colon(rest);
        assert forall|i: int| 0 <= i < colon_index(s) implies (#[trigger] s[i]) != ':' by {
            if i > 0 {
                assert(rest[i - 1] == s[i]);
            }
        }
        if colon_index(s) < s.len() {
            assert(rest[colon_index(rest) as int] == s[colon_index(s) as int]);
        }
    }
}

/// A token is a boundary where its first colon stands behind the name of a kind and before
/// something: that is the kind, and all of what follows the colon, further colons included,
/// is the label. Without a colon, with nothing behind it, or with another name before it,
/// it is refused for that, and the refusal carries the token, or the name.
pub proof fn law_boundaries_are_read(
    s: &str,
    boundary: Result<Boundary, BoundaryParseError>,
    colon: int,
)
    requires
        call_ensures(Boundary::parse, (s,), boundary),
        0 <= colon <= s@.len(),
        forall|i: int| 0 <= i < colon ==> (#[trigger] s@[i]) != ':',
        colon < s@.len() ==> s@[colon] == ':',
    ensures
        ({
            let name = s@.take(colon);
            let known = name == "host"@ || name == "container"@ || name == "vm"@ || name == "pod"@;
            &&& colon == s@.len() ==> (boundary matches Err(BoundaryParseError::MissingColon(t))
                && t@ == s@)
            &&& colon == s@.len() - 1 ==> (boundary matches Err(BoundaryParseError::EmptyLabel(t))
                && t@ == s@)
            &&& colon < s@.len() - 1 ==> (boundary is Ok <==> known)
            &&& colon < s@.len() - 1 && !known ==> (boundary matches Err(
                BoundaryParseError::UnknownKind(t),
            ) && t@ == name)
            &&& boundary matches Ok(b) ==> b.label@ =~= s@.skip(colon + 1) && name == (
            match b.kind {
                BoundaryKind::Host => "host"@,
                BoundaryKind::Container => "container"@,
                BoundaryKind::Vm => "vm"@,
                BoundaryKind::Pod => "pod"@,
            })
        }),
{
    lemma_first_colon(s@);
    let k = colon_index(s@) as int;
    if k < colon {
        assert(s@[k] != ':');
    }
    if colon < k {
        assert(s@[colon] != ':');
    }
}

/// A boundary with a label is read back from its text, and a kind from its name. Any other
/// name is refused, and told as it was given.
pub proof fn law_boundary_is_read_back(
    boundary: Boundary,
    text: String,
    stored: &str,
    read: Result<Boundary, BoundaryParseError>,
    name: &'static str,
    kind: Result<BoundaryKind, BoundaryParseError>,
    other: &str,
    parsed: Result<BoundaryKind, BoundaryParseError>,
)
    requires
        boundary.label@.len() > 0,
        call_ensures(Boundary::to_text, (&boundary,), text),
        stored@ == text@,
        call_ensures(Boundary::parse, (stored,), read),
        call_ensures(BoundaryKind::as_str, (&boundary.kind,), name),
        call_ensures(BoundaryKind::parse, (name,), kind),
        call_ensures(BoundaryKind::parse, (other,), parsed),
    ensures
        read matches Ok(again) && again.kind == boundary.kind && again.label@ == boundary.label@,
        text@ == name@ + seq![':'] + boundary.label@,
        kind == Ok::<BoundaryKind, BoundaryParseError>(boundary.kind),
        parsed is Ok <==> other@ == "host"@ || other@ == "container"@ || other@ == "vm"@ || other@
            == "pod"@,
        parsed matches Err(error) ==> (error matches BoundaryParseError::UnknownKind(t) && t@
            == other@),
{
    law_boundary_round_trip(boundary.kind, boundary.label@);
    reveal_strlit("host");
    reveal_strlit("container");
    reveal_strlit("vm");
    reveal_strlit("pod");
    assert("vm"@[0] != "pod"@[0]);
    assert("host"@.len() == 4 && "container"@.len() == 9 && "vm"@.len() == 2 && "pod"@.len() == 3);
}

/// What a refusal says: what was wrong, and the token in quotes.
pub proof fn law_boundary_refusals_are_told(
    error: BoundaryParseError,
    quoted: &str,
    message: String,
)
    requires
        call_ensures(BoundaryParseError::message_with, (&error, quoted), message),
    ensures
        error is MissingColon ==> message@ == "boundary must be KIND:LABEL (missing ':'), got: "@
            + quoted@,
        error is EmptyLabel ==> message@ == "boundary label cannot be empty, got: "@ + quoted@,
        error is UnknownKind ==> message@ == "unknown boundary kind "@ + quoted@
            + " (expected host, container, vm, or pod)"@,
{
}

/// A refusal quotes the token that it carries.
pub proof fn law_boundary_refusals_quote_their_token(
    error: BoundaryParseError,
    message: String,
    quoted: &str,
    told: String,
)
    requires
        call_ensures(BoundaryParseError::message, (&error,), message),
        quoted@ == quoted_of(
            match error {
                BoundaryParseError::MissingColon(token) => token@,
                BoundaryParseError::EmptyLabel(token) => token@,
                BoundaryParseError::UnknownKind(token) => token@,
            },
        ),
        call_ensures(BoundaryParseError::message_with, (&error, quoted), told),
    ensures
        message@ == told@,
{
}

} // verus!
