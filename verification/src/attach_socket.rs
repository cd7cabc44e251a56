//! Private, peer-verified attach sockets: where they live and what may be trusted.
//!
//! A PTY session's attach endpoint must stay within the run owner's account.
//! The socket lives in `sockets/` under the persistent state root
//! (`~/.tendr/sockets`), an owner-only directory that survives logout, with a
//! short name derived from the session and run. Both ends verify the peer's
//! user id before any terminal bytes flow.
//!
//! Paths are byte strings here, as the platform has them.

use crate::bytes::{be_bytes, push_be};
use crate::io_error::ErrorKind;
use crate::model::ids::RunId;
use crate::text::same_text;
use vstd::prelude::*;

verus! {

/// Directory, under the state root, that holds attach sockets.
pub const SOCKET_DIR: &'static str = "sockets";

/// How old an unnamed socket must be before it counts as an orphan, in
/// milliseconds: far longer than a bind takes to publish its breadcrumb.
pub const ORPHAN_GRACE: u64 = 60_000;

/// The permissions of a private directory: `0700`.
pub const PRIVATE_MODE: u32 = 448;

/// Why there is no socket.
#[derive(Clone, Debug, PartialEq, Eq)]
pub enum SocketError {
    /// The directory is not a private directory owned by this user.
    UnsafeDirectory { reason: &'static str },
    /// The path is longer than the platform allows.
    PathTooLong { path: Vec<u8>, len: usize, max: usize },
}

/// The SHA-256 digest of a byte string.
pub uninterp spec fn sha256_of(bytes: Seq<u8>) -> Seq<u8>;

/// `sha2::Sha256::digest`: the 32 bytes of the SHA-256 digest, which depend on
/// nothing but the bytes.
#[verifier::external_body]
fn sha256(bytes: &[u8]) -> (digest: Vec<u8>)
    ensures
        digest@ == sha256_of(bytes@),
        digest@.len() == 32,
{
    <sha2::Sha256 as sha2::Digest>::digest(bytes).to_vec()
}

/// `sessions` is the name of the component at `i`, and of none behind it.
pub open spec fn last_sessions(components: Seq<String>, i: int) -> bool {
    &&& 0 <= i < components.len()
    &&& components[i]@ == "sessions"@
    &&& forall|j: int| i < j < components.len() ==> (#[trigger] components[j])@ != "sessions"@
}

/// The state root (`…/.tendr`) of a session directory
/// (`…/.tendr/sessions/<namespace>/<name>`), given the directory's components:
/// how many of them lead to the root. A namespace or a session may itself be called
/// `sessions`, so the component in front of these two comes first; where that is another
/// one, the root is in front of the last component called `sessions`. `None` where no
/// component is.
pub fn state_root_for(components: &Vec<String>) -> (root: Option<usize>)
    ensures
        components@.len() >= 3 && components@[components@.len() - 3]@ == "sessions"@ ==> root
            == Some((components@.len() - 3) as usize),
        !(components@.len() >= 3 && components@[components@.len() - 3]@ == "sessions"@) ==> match root {
            Some(n) => last_sessions(components@, n as int),
            None => forall|j: int|
                0 <= j < components@.len() ==> (#[trigger] components@[j])@ != "sessions"@,
        },
{
    let mut i: usize = components.len();
    if i >= 3 && same_text(components[i - 3].as_str(), "sessions") {
        return Some(i - 3);
    }
    while i > 0
        invariant
            i <= components@.len(),
            !(components@.len() >= 3 && components@[components@.len() - 3]@ == "sessions"@),
            forall|j: int|
                i <= j < components@.len() ==> (#[trigger] components@[j])@ != "sessions"@,
        decreases i,
    {
        i = i - 1;
        if same_text(components[i].as_str(), "sessions") {
            return Some(i);
        }
    }
    None
}

/// What is known of a directory that has to be private.
#[derive(Clone, Copy, Debug, PartialEq, Eq, Structural)]
pub struct DirFacts {
    pub is_symlink: bool,
    pub is_dir: bool,
    /// The effective user owns it.
    pub owned: bool,
    pub mode: u32,
}

/// Whether an existing directory may hold private files: not a symlink, a
/// directory, owned by the effective user. Tells whether its permissions have to
/// be tightened to `0700`.
pub fn check_private_dir(facts: DirFacts) -> (tighten: Result<bool, SocketError>)
    ensures
        match tighten {
            Ok(t) => !facts.is_symlink && facts.is_dir && facts.owned && t == (facts.mode % 512
                != PRIVATE_MODE),
            Err(SocketError::UnsafeDirectory { reason }) => {
                ||| facts.is_symlink && reason@ == "it is a symbolic link"@
                ||| !facts.is_symlink && !facts.is_dir && reason@ == "it is not a directory"@
                ||| !facts.is_symlink && facts.is_dir && !facts.owned && reason@
                    == "it is owned by another user"@
            },
            Err(_) => false,
        },
{
    if facts.is_symlink {
        return Err(SocketError::UnsafeDirectory { reason: "it is a symbolic link" });
    }
    if !facts.is_dir {
        return Err(SocketError::UnsafeDirectory { reason: "it is not a directory" });
    }
    if !facts.owned {
        return Err(SocketError::UnsafeDirectory { reason: "it is owned by another user" });
    }
    Ok(facts.mode % 512 != PRIVATE_MODE)
}

/// What to do about a directory that has to be private, once it was looked at.
#[derive(Clone, Copy, Debug, PartialEq, Eq, Structural)]
pub enum DirStep {
    /// There is none: create it, owner-only.
    Create,
    /// There is something: check it.
    Check,
    Fail(ErrorKind),
}

/// What to do about a directory that has to be private, once it was looked at.
pub fn before_private_dir(found: Result<(), ErrorKind>) -> (step: DirStep)
    ensures
        step == (match found {
            Ok(_) => DirStep::Check,
            Err(kind) => if kind == ErrorKind::NotFound {
                DirStep::Create
            } else {
                DirStep::Fail(kind)
            },
        }),
{
    match found {
        Ok(()) => DirStep::Check,
        Err(kind) => if kind == ErrorKind::NotFound {
            DirStep::Create
        } else {
            DirStep::Fail(kind)
        },
    }
}

/// What to do once it was created: where a concurrent creator won, whatever exists
/// is checked.
pub fn after_create(created: Result<(), ErrorKind>) -> (step: DirStep)
    ensures
        step == (match created {
            Ok(_) => DirStep::Check,
            Err(kind) => if kind == ErrorKind::AlreadyExists {
                DirStep::Check
            } else {
                DirStep::Fail(kind)
            },
        }),
{
    match created {
        Ok(()) => DirStep::Check,
        Err(kind) => if kind == ErrorKind::AlreadyExists {
            DirStep::Check
        } else {
            DirStep::Fail(kind)
        },
    }
}

/// Whether a bind failed because the path exists: what is already there is never
/// adopted or removed.
pub fn path_exists(kind: ErrorKind) -> (exists_already: bool)
    ensures
        exists_already == (kind == ErrorKind::AddrInUse),
{
    kind == ErrorKind::AddrInUse
}

/// What to do about the socket directory before it is swept.
#[derive(Clone, Copy, Debug, PartialEq, Eq, Structural)]
pub enum SweepStep {
    /// There is none: nothing to sweep.
    Nothing,
    Sweep,
    /// It cannot be trusted, or looked at: nothing is removed.
    Refuse,
}

/// What to do about the socket directory before it is swept.
pub fn before_sweep(found: Result<DirFacts, ErrorKind>) -> (step: SweepStep)
    ensures
        step == (match found {
            Err(kind) => if kind == ErrorKind::NotFound {
                SweepStep::Nothing
            } else {
                SweepStep::Refuse
            },
            Ok(facts) => if facts.is_dir && facts.owned {
                SweepStep::Sweep
            } else {
                SweepStep::Refuse
            },
        }),
{
    match found {
        Err(kind) => if kind == ErrorKind::NotFound {
            SweepStep::Nothing
        } else {
            SweepStep::Refuse
        },
        Ok(facts) => if facts.is_dir && facts.owned {
            SweepStep::Sweep
        } else {
            SweepStep::Refuse
        },
    }
}

/// Whether a session has no breadcrumb, by the error of reading it. Any other error
/// ends the sweep: an unnamed socket could not be told from a live one.
pub fn has_no_breadcrumb(kind: ErrorKind) -> (none: bool)
    ensures
        none == (kind == ErrorKind::NotFound || kind == ErrorKind::NotADirectory),
{
    kind == ErrorKind::NotFound || kind == ErrorKind::NotADirectory
}

/// The lower-case hexadecimal digits of bytes.
pub open spec fn hex_of(bytes: Seq<u8>) -> Seq<u8>
    decreases bytes.len(),
{
    if bytes.len() == 0 {
        Seq::empty()
    } else {
        hex_of(bytes.drop_last()) + seq![
            hex_digit_of(bytes.last() / 16),
            hex_digit_of(bytes.last() % 16),
        ]
    }
}

pub open spec fn hex_digit_of(d: u8) -> u8 {
    if d < 10 {
        (0x30 + d) as u8
    } else {
        (0x61 + (d - 10)) as u8
    }
}

fn hex_digit(d: u8) -> (digit: u8)
    requires
        d < 16,
    ensures
        digit == hex_digit_of(d),
{
    if d < 10 {
        0x30 + d
    } else {
        0x61 + (d - 10)
    }
}

/// `.sock`.
pub open spec fn socket_suffix() -> Seq<u8> {
    seq![0x2eu8, 0x73, 0x6f, 0x63, 0x6b]
}

/// The name of a run's socket, given the digest of its session and run: twelve
/// hexadecimal digits and `.sock`.
pub open spec fn socket_name_of(digest: Seq<u8>) -> Seq<u8> {
    hex_of(digest.take(6)) + socket_suffix()
}

/// What the name of a run's socket is derived from: the session directory and the
/// run's sixteen bytes.
pub open spec fn socket_identity(session_dir: Seq<u8>, run_id: (u64, u64)) -> Seq<u8> {
    session_dir + be_bytes(run_id.0 as nat, 8) + be_bytes(run_id.1 as nat, 8)
}

/// The name of a run's socket, given the digest of its session and run.
pub fn socket_name(digest: &Vec<u8>) -> (name: Vec<u8>)
    requires
        digest@.len() >= 6,
    ensures
        name@ == socket_name_of(digest@),
{
    let ghost six = digest@.take(6);
    let mut name: Vec<u8> = Vec::new();
    let mut i: usize = 0;
    assert(six.take(0) =~= Seq::<u8>::empty());
    while i < 6
        invariant
            i <= 6,
            digest@.len() >= 6,
            six == digest@.take(6),
            name@ == hex_of(six.take(i as int)),
        decreases 6 - i,
    {
        assert(six.take(i + 1).drop_last() =~= six.take(i as int));
        assert(six.take(i + 1).last() == digest@[i as int]);
        name.push(hex_digit(digest[i] / 16));
        name.push(hex_digit(digest[i] % 16));
        i = i + 1;
        assert(name@ =~= hex_of(six.take(i as int)));
    }
    assert(six.take(6) =~= six);
    name.push(0x2e);
    name.push(0x73);
    name.push(0x6f);
    name.push(0x63);
    name.push(0x6b);
    assert(name@ =~= socket_name_of(digest@));
    name
}

/// `name` under `dir`.
pub open spec fn joined_path(dir: Seq<u8>, name: Seq<u8>) -> Seq<u8> {
    if dir.len() == 0 || dir.last() == 0x2f {
        dir + name
    } else {
        dir + seq![0x2fu8] + name
    }
}

fn join_path(dir: &[u8], name: &[u8]) -> (path: Vec<u8>)
    ensures
        path@ == joined_path(dir@, name@),
{
    let mut path: Vec<u8> = Vec::new();
    path.extend_from_slice(dir);
    assert(path@ =~= dir@);
    if dir.len() > 0 && dir[dir.len() - 1] != 0x2f {
        path.push(0x2f);
    }
    path.extend_from_slice(name);
    assert(path@ =~= joined_path(dir@, name@));
    path
}

/// `sockets`.
pub open spec fn socket_dir_bytes() -> Seq<u8> {
    seq![0x73u8, 0x6f, 0x63, 0x6b, 0x65, 0x74, 0x73]
}

/// The path of the socket whose digest is `digest`.
pub open spec fn socket_path_of(state_root: Seq<u8>, digest: Seq<u8>) -> Seq<u8> {
    joined_path(joined_path(state_root, socket_dir_bytes()), socket_name_of(digest))
}

/// The path of a socket, checked against the platform's limit `max`, given the
/// digest of its session and run.
pub fn checked_socket_path(state_root: &[u8], digest: &Vec<u8>, max: usize) -> (path: Result<
    Vec<u8>,
    SocketError,
>)
    requires
        digest@.len() >= 6,
    ensures
        path is Ok <==> socket_path_of(state_root@, digest@).len() <= max,
        path matches Ok(p) ==> p@ == socket_path_of(state_root@, digest@),
        path matches Err(e) ==> (e matches SocketError::PathTooLong { path: p, len, max: m } && p@
            == socket_path_of(state_root@, digest@) && len == p@.len() && m == max),
{
    let dir: [u8; 7] = [0x73, 0x6f, 0x63, 0x6b, 0x65, 0x74, 0x73];
    assert(dir@ =~= socket_dir_bytes());
    let sockets = join_path(state_root, &dir);
    let name = socket_name(digest);
    let path = join_path(sockets.as_slice(), name.as_slice());
    let len: usize = path.len();
    if len > max {
        return Err(SocketError::PathTooLong { path, len, max });
    }
    Ok(path)
}

/// The socket path for a run, checked against the platform's limit `max`.
pub fn socket_path(state_root: &[u8], session_dir: &[u8], run_id: RunId, max: usize) -> (path:
    Result<Vec<u8>, SocketError>)
    ensures
        ({
            let digest = sha256_of(socket_identity(session_dir@, run_id@));
            let expected = socket_path_of(state_root@, digest);
            &&& path is Ok <==> expected.len() <= max
            &&& path matches Ok(p) ==> p@ == expected
            &&& path matches Err(e) ==> (e matches SocketError::PathTooLong { path: p, len, max: m }
                && p@ == expected && len == p@.len() && m == max)
        }),
{
    let (hi, lo) = run_id.as_u64_pair();
    let mut identity: Vec<u8> = Vec::new();
    identity.extend_from_slice(session_dir);
    push_be(&mut identity, hi, 8);
    push_be(&mut identity, lo, 8);
    assert(identity@ =~= socket_identity(session_dir@, run_id@));
    let digest = sha256(identity.as_slice());
    checked_socket_path(state_root, &digest, max)
}

/// A hexadecimal digit, in either case.
pub open spec fn is_hex(b: u8) -> bool {
    0x30 <= b <= 0x39 || 0x41 <= b <= 0x46 || 0x61 <= b <= 0x66
}

/// `<12 hex digits>.sock`.
pub open spec fn is_run_socket_name_of(name: Seq<u8>) -> bool {
    &&& name.len() == 17
    &&& forall|i: int| 0 <= i < 12 ==> is_hex(#[trigger] name[i])
    &&& name.skip(12) == socket_suffix()
}

/// Whether a name has the shape that [`socket_path`] gives a run's socket.
pub fn is_run_socket_name(name: &[u8]) -> (yes: bool)
    ensures
        yes == is_run_socket_name_of(name@),
{
    if name.len() != 17 {
        return false;
    }
    let mut i: usize = 0;
    while i < 12
        invariant
            i <= 12,
            name@.len() == 17,
            forall|j: int| 0 <= j < i ==> is_hex(#[trigger] name@[j]),
        decreases 12 - i,
    {
        let b: u8 = name[i];
        if !((0x30 <= b && b <= 0x39) || (0x41 <= b && b <= 0x46) || (0x61 <= b && b <= 0x66)) {
            assert(!is_hex(name@[i as int]));
            return false;
        }
        i = i + 1;
    }
    let suffixed = name[12] == 0x2e && name[13] == 0x73 && name[14] == 0x6f && name[15] == 0x63
        && name[16] == 0x6b;
    proof {
        let tail = name@.skip(12);
        if suffixed {
            assert(tail =~= socket_suffix());
        } else {
            assert(tail[0] == name@[12] && tail[1] == name@[13] && tail[2] == name@[14] && tail[3]
                == name@[15] && tail[4] == name@[16]);
        }
    }
    suffixed
}

/// Every run's socket has a name that is recognized as one.
pub proof fn law_socket_names_are_recognised(digest: Seq<u8>)
    requires
        digest.len() >= 6,
    ensures
        is_run_socket_name_of(socket_name_of(digest)),
{
    lemma_hex(digest.take(6));
    let name = socket_name_of(digest);
    assert(name.skip(12) =~= socket_suffix());
    assert forall|i: int| 0 <= i < 12 implies is_hex(#[trigger] name[i]) by {
        assert(name[i] == hex_of(digest.take(6))[i]);
    }
}

/// A sweep finds every socket that a run left behind, and none that a live session could
/// still be using: one that a breadcrumb names, that was just bound, or whose age is not
/// known is passed over.
pub proof fn law_sweep_spares_live_sockets(digest: Seq<u8>, name: Seq<u8>, facts: SocketFacts)
    requires
        digest.len() >= 6,
    ensures
        !possible_orphan(name, true, facts),
        (facts.age matches Some(age) ==> age < ORPHAN_GRACE) ==> !possible_orphan(
            name,
            false,
            facts,
        ),
        facts.is_socket && facts.owned && (facts.age matches Some(age) && age >= ORPHAN_GRACE)
            ==> possible_orphan(socket_name_of(digest), false, facts),
{
    law_socket_names_are_recognised(digest);
}

proof fn lemma_hex(bytes: Seq<u8>)
    ensures
        hex_of(bytes).len() == 2 * bytes.len(),
        forall|i: int| 0 <= i < hex_of(bytes).len() ==> is_hex(#[trigger] hex_of(bytes)[i]),
    decreases bytes.len(),
{
    if bytes.len() > 0 {
        lemma_hex(bytes.drop_last());
        let head = hex_of(bytes.drop_last());
        assert forall|i: int| 0 <= i < hex_of(bytes).len() implies is_hex(
            #[trigger] hex_of(bytes)[i],
        ) by {
            if i < head.len() {
                assert(hex_of(bytes)[i] == head[i]);
            }
        }
    }
}

/// What is known of an entry of the socket directory.
#[derive(Clone, Copy, Debug, PartialEq, Eq, Structural)]
pub struct SocketFacts {
    pub is_socket: bool,
    /// The effective user owns it.
    pub owned: bool,
    /// Milliseconds since it was last modified, where that is known.
    pub age: Option<u64>,
}

/// An entry of the socket directory that may be an orphan.
pub open spec fn possible_orphan(
    name: Seq<u8>,
    named_by_breadcrumb: bool,
    facts: SocketFacts,
) -> bool {
    &&& is_run_socket_name_of(name)
    &&& !named_by_breadcrumb
    &&& facts.is_socket
    &&& facts.owned
    &&& facts.age matches Some(age) && age >= ORPHAN_GRACE
}

/// Whether an entry of the socket directory may be an orphan, so that a connection
/// to it is worth trying. A socket that a live session could still be using never
/// is: it must be named like a run's socket, named by no session breadcrumb (live
/// or not), be a socket owned by the effective user, and be older than
/// [`ORPHAN_GRACE`], which covers the moment between a bind and its breadcrumb.
pub fn may_be_orphan(name: &[u8], named_by_breadcrumb: bool, facts: SocketFacts) -> (yes: bool)
    ensures
        yes == possible_orphan(name@, named_by_breadcrumb, facts),
{
    if !is_run_socket_name(name) || named_by_breadcrumb {
        return false;
    }
    let old_enough = match facts.age {
        Some(age) => age >= ORPHAN_GRACE,
        None => false,
    };
    facts.is_socket && facts.owned && old_enough
}

/// Whether a possible orphan is one: connecting to it is refused, so nothing
/// listens on it.
pub fn is_orphan(connected: Result<(), ErrorKind>) -> (orphan: bool)
    ensures
        orphan == (connected == Err::<(), ErrorKind>(ErrorKind::ConnectionRefused)),
{
    match connected {
        Ok(()) => false,
        Err(kind) => kind == ErrorKind::ConnectionRefused,
    }
}

/// Whether the peer of a connection is this process's effective user;
/// `PermissionDenied` for a different one, or the credential query's own error.
pub fn verify_peer(peer: Result<u32, ErrorKind>, me: u32) -> (verified: Result<(), ErrorKind>)
    ensures
        verified == (match peer {
            Err(kind) => Err::<(), ErrorKind>(kind),
            Ok(uid) => if uid == me {
                Ok(())
            } else {
                Err(ErrorKind::PermissionDenied)
            },
        }),
{
    match peer {
        Err(kind) => Err(kind),
        Ok(uid) => if uid == me {
            Ok(())
        } else {
            Err(ErrorKind::PermissionDenied)
        },
    }
}

// What each operation does, in terms of what it was given and what it gave back.

/// Two digits for each byte, in order.
proof fn lemma_hex_digits(bytes: Seq<u8>)
    ensures
        hex_of(bytes).len() == 2 * bytes.len(),
        forall|i: int|
            0 <= i < bytes.len() ==> hex_of(bytes)[2 * i] == hex_digit_of((#[trigger] bytes[i]) / 16)
                && hex_of(bytes)[2 * i + 1] == hex_digit_of(bytes[i] % 16),
    decreases bytes.len(),
{
    if bytes.len() > 0 {
        let head = bytes.drop_last();
        lemma_hex_digits(head);
        assert forall|i: int| 0 <= i < bytes.len() implies hex_of(bytes)[2 * i] == hex_digit_of(
            (#[trigger] bytes[i]) / 16,
        ) && hex_of(bytes)[2 * i + 1] == hex_digit_of(bytes[i] % 16) by {
            if i < head.len() {
                assert(head[i] == bytes[i]);
            }
        }
    }
}

/// A run's socket is named by the first six bytes of its digest, two lower-case digits for
/// each, and `.sock`. Exactly names of twelve digits, in either case, and `.sock` are
/// taken for names of such sockets.
pub proof fn law_socket_names(digest: Vec<u8>, name: Vec<u8>, other: &[u8], yes: bool)
    requires
        digest@.len() >= 6,
        call_ensures(socket_name, (&digest,), name),
        call_ensures(is_run_socket_name, (other,), yes),
    ensures
        name@.len() == 17,
        forall|i: int|
            0 <= i < 6 ==> {
                let high = (#[trigger] digest@[i]) / 16;
                let low = digest@[i] % 16;
                &&& name@[2 * i] == (if high < 10 {
                    0x30 + high
                } else {
                    0x61 + high - 10
                })
                &&& name@[2 * i + 1] == (if low < 10 {
                    0x30 + low
                } else {
                    0x61 + low - 10
                })
            },
        name@.skip(12) =~= seq![0x2eu8, 0x73, 0x6f, 0x63, 0x6b],
        yes <==> other@.len() == 17 && other@.skip(12) =~= seq![0x2eu8, 0x73, 0x6f, 0x63, 0x6b]
            && forall|i: int|
            0 <= i < 12 ==> (0x30 <= (#[trigger] other@[i]) <= 0x39 || 0x41 <= other@[i] <= 0x46
                || 0x61 <= other@[i] <= 0x66),
        other@ == name@ ==> yes,
{
    let six = digest@.take(6);
    lemma_hex_digits(six);
    assert forall|i: int| 0 <= i < 6 implies six[i] == #[trigger] digest@[i] by {}
    assert(name@.skip(12) =~= socket_suffix());
    law_socket_names_are_recognised(digest@);
    if yes {
        assert forall|i: int| 0 <= i < 12 implies (0x30 <= (#[trigger] other@[i]) <= 0x39 || 0x41
            <= other@[i] <= 0x46 || 0x61 <= other@[i] <= 0x66) by {
            assert(is_hex(other@[i]));
        }
    }
    if other@.len() == 17 && other@.skip(12) =~= seq![0x2eu8, 0x73, 0x6f, 0x63, 0x6b]
        && forall|i: int|
        0 <= i < 12 ==> (0x30 <= (#[trigger] other@[i]) <= 0x39 || 0x41 <= other@[i] <= 0x46
            || 0x61 <= other@[i] <= 0x66) {
        assert(other@.skip(12) =~= socket_suffix());
        assert forall|i: int| 0 <= i < 12 implies is_hex(#[trigger] other@[i]) by {}
    }
}

/// A run's socket lies in `sockets` under the state root, one separator between the parts,
/// and is named by the digest of the session's directory and the run's sixteen bytes. A
/// path within the platform's limit is given; one beyond it is refused with the path, its
/// length and the limit.
pub proof fn law_socket_paths(
    state_root: &[u8],
    session_dir: &[u8],
    run_id: RunId,
    max: usize,
    digest: Vec<u8>,
    name: Vec<u8>,
    path: Result<Vec<u8>, SocketError>,
)
    requires
        digest@ == sha256_of(
            session_dir@ + be_bytes(run_id@.0 as nat, 8) + be_bytes(run_id@.1 as nat, 8),
        ),
        digest@.len() >= 6,
        call_ensures(socket_name, (&digest,), name),
        call_ensures(socket_path, (state_root, session_dir, run_id, max), path),
    ensures
        ({
            let slash = seq![0x2fu8];
            let sockets = seq![0x73u8, 0x6f, 0x63, 0x6b, 0x65, 0x74, 0x73];
            let root = if state_root@.len() == 0 || state_root@.last() == 0x2f {
                state_root@
            } else {
                state_root@ + slash
            };
            let whole = root + sockets + slash + name@;
            &&& path is Ok <==> whole.len() <= max
            &&& path matches Ok(p) ==> p@ =~= whole
            &&& path matches Err(e) ==> (e matches SocketError::PathTooLong { path: p, len, max: m }
                && p@ =~= whole && len == whole.len() && m == max)
        }),
{
    let dir = joined_path(state_root@, socket_dir_bytes());
    assert(dir.last() == 0x73);
    assert(dir.len() >= 7);
}

/// The state root of a session directory ends before `sessions`: before the component that
/// stands three from the end where that is its name, and otherwise before the last that has
/// it. There is none where no component has.
pub proof fn law_state_root(components: Vec<String>, root: Option<usize>)
    requires
        call_ensures(state_root_for, (&components,), root),
    ensures
        root matches Some(n) ==> n < components@.len() && components@[n as int]@ == "sessions"@,
        root is None <==> forall|j: int|
            0 <= j < components@.len() ==> (#[trigger] components@[j])@ != "sessions"@,
        components@.len() >= 3 && components@[components@.len() - 3]@ == "sessions"@ ==> root
            == Some((components@.len() - 3) as usize),
        !(components@.len() >= 3 && components@[components@.len() - 3]@ == "sessions"@) ==> (
        root matches Some(n) ==> forall|j: int|
            n < j < components@.len() ==> (#[trigger] components@[j])@ != "sessions"@),
{
    assert(components.len() == components@.len());
}

/// A directory may hold private files where it is a directory of this user's own, and not a
/// link to one; it is tightened exactly where others have a right in it, or the user lacks
/// one. Otherwise the first that is wrong is told.
pub proof fn law_private_directories(facts: DirFacts, tighten: Result<bool, SocketError>)
    requires
        call_ensures(check_private_dir, (facts,), tighten),
    ensures
        tighten is Ok <==> !facts.is_symlink && facts.is_dir && facts.owned,
        tighten matches Ok(t) ==> (t <==> facts.mode % 512 != 7 * 64),
        tighten matches Err(e) ==> (e matches SocketError::UnsafeDirectory { reason } && reason@
            == (if facts.is_symlink {
            "it is a symbolic link"@
        } else if !facts.is_dir {
            "it is not a directory"@
        } else {
            "it is owned by another user"@
        })),
{
}

/// A private directory that is not there is created, and one that is there, also where
/// someone else was faster to create it, is checked. Any other failure is told as it is.
pub proof fn law_private_directory_steps(
    found: Result<(), ErrorKind>,
    before: DirStep,
    created: Result<(), ErrorKind>,
    after: DirStep,
)
    requires
        call_ensures(before_private_dir, (found,), before),
        call_ensures(after_create, (created,), after),
    ensures
        found is Ok ==> before is Check,
        found matches Err(kind) ==> (if kind is NotFound {
            before is Create
        } else {
            before == DirStep::Fail(kind)
        }),
        created is Ok ==> after is Check,
        created matches Err(kind) ==> (if kind is AlreadyExists {
            after is Check
        } else {
            after == DirStep::Fail(kind)
        }),
{
}

/// The socket directory is swept where it is a directory of this user's own; there is
/// nothing to sweep where there is none; and it is left alone otherwise. A session has no
/// breadcrumb where its file, or its directory, is not there, and a path is taken where its
/// address is in use: no other error tells that.
pub proof fn law_sweep_steps(
    found: Result<DirFacts, ErrorKind>,
    step: SweepStep,
    kind: ErrorKind,
    none: bool,
    taken: bool,
)
    requires
        call_ensures(before_sweep, (found,), step),
        call_ensures(has_no_breadcrumb, (kind,), none),
        call_ensures(path_exists, (kind,), taken),
    ensures
        step is Sweep <==> (found matches Ok(facts) && facts.is_dir && facts.owned),
        step is Nothing <==> found == Err::<DirFacts, ErrorKind>(ErrorKind::NotFound),
        none <==> kind is NotFound || kind is NotADirectory,
        taken <==> kind is AddrInUse,
{
}

/// A socket may be an orphan where it has a run's name, no breadcrumb names it, it is a
/// socket of this user's own, and it is known to be at least a minute old. It is one where
/// nothing listens on it: a connection is refused, and fails in no other way.
pub proof fn law_orphans(
    name: &[u8],
    named: bool,
    facts: SocketFacts,
    yes: bool,
    like_a_run: bool,
    connected: Result<(), ErrorKind>,
    orphan: bool,
)
    requires
        call_ensures(may_be_orphan, (name, named, facts), yes),
        call_ensures(is_run_socket_name, (name,), like_a_run),
        call_ensures(is_orphan, (connected,), orphan),
    ensures
        yes <==> like_a_run && !named && facts.is_socket && facts.owned && (
        facts.age matches Some(age) && age >= 60_000),
        orphan <==> (connected matches Err(kind) && kind is ConnectionRefused),
{
}

/// A peer is let in where it is this very user; another is denied, and where it could not
/// be told who it is, the error is the one of asking.
pub proof fn law_peers(peer: Result<u32, ErrorKind>, me: u32, verified: Result<(), ErrorKind>)
    requires
        call_ensures(verify_peer, (peer, me), verified),
    ensures
        verified is Ok <==> peer == Ok::<u32, ErrorKind>(me),
        peer matches Err(kind) ==> (verified matches Err(k) && k == kind),
        peer matches Ok(uid) ==> (uid != me ==> (verified matches Err(k)
            && k is PermissionDenied)),
{
}

/// The path of a run's socket is that of the digest of its session and run.
pub proof fn law_socket_path_is_that_of_its_digest(
    state_root: &[u8],
    session_dir: &[u8],
    run_id: RunId,
    max: usize,
    digest: Vec<u8>,
    path: Result<Vec<u8>, SocketError>,
    checked: Result<Vec<u8>, SocketError>,
)
    requires
        digest@ == sha256_of(
            session_dir@ + be_bytes(run_id@.0 as nat, 8) + be_bytes(run_id@.1 as nat, 8),
        ),
        digest@.len() >= 6,
        call_ensures(socket_path, (state_root, session_dir, run_id, max), path),
        call_ensures(checked_socket_path, (state_root, &digest, max), checked),
    ensures
        path is Ok <==> checked is Ok,
        path matches Ok(p) ==> checked->Ok_0@ == p@ && p@.len() <= max,
        path matches Err(SocketError::PathTooLong { path: p, len, .. }) ==> (
        checked matches Err(SocketError::PathTooLong { path: q, len: l, max: m }) && q@ == p@ && l
            == len && m == max && len > max),
{
}

} // verus!
