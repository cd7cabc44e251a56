//! Big-endian integers in byte strings.

use vstd::prelude::*;

verus! {

/// `256` to the power `n`.
pub open spec fn pow256(n: nat) -> nat
    decreases n,
{
    if n == 0 {
        1
    } else {
        256 * pow256((n - 1) as nat)
    }
}

/// The `n` low bytes of `value`, most significant first.
pub open spec fn be_bytes(value: nat, n: nat) -> Seq<u8>
    decreases n,
{
    if n == 0 {
        Seq::empty()
    } else {
        be_bytes(value / 256, (n - 1) as nat).push((value % 256) as u8)
    }
}

/// The number whose digits in base 256 are `s`, most significant first.
pub open spec fn be_value(s: Seq<u8>) -> nat
    decreases s.len(),
{
    if s.len() == 0 {
        0
    } else {
        be_value(s.drop_last()) * 256 + s.last() as nat
    }
}

/// The number stored in the `n` bytes of `s` that start at `at`.
pub open spec fn be_at(s: Seq<u8>, at: int, n: int) -> nat {
    be_value(s.subrange(at, at + n))
}

pub proof fn lemma_be_bytes_len(value: nat, n: nat)
    ensures
        be_bytes(value, n).len() == n,
    decreases n,
{
    if n > 0 {
        lemma_be_bytes_len(value / 256, (n - 1) as nat);
    }
}

/// Reading back the bytes of a number that fits gives the number.
pub proof fn lemma_be_value_of_bytes(value: nat, n: nat)
    requires
        value < pow256(n),
    ensures
        be_value(be_bytes(value, n)) == value,
        be_bytes(value, n).len() == n,
    decreases n,
{
    if n > 0 {
        let m = (n - 1) as nat;
        assert(value / 256 < pow256(m));
        lemma_be_value_of_bytes(value / 256, m);
        assert(be_bytes(value, n).drop_last() =~= be_bytes(value / 256, m));
    }
}

/// A byte string is the bytes of the number that it stores.
pub proof fn lemma_be_bytes_of_value(s: Seq<u8>)
    ensures
        be_bytes(be_value(s), s.len()) == s,
        be_value(s) < pow256(s.len()),
    decreases s.len(),
{
    if s.len() > 0 {
        let head = s.drop_last();
        lemma_be_bytes_of_value(head);
        assert(be_value(s) / 256 == be_value(head));
        assert(be_value(s) % 256 == s.last() as nat);
        assert(be_bytes(be_value(s), s.len()) =~= s);
    } else {
        assert(be_bytes(be_value(s), s.len()) =~= s);
    }
}

pub proof fn lemma_pow256()
    ensures
        pow256(1) == 0x100,
        pow256(2) == 0x1_0000,
        pow256(3) == 0x100_0000,
        pow256(4) == 0x1_0000_0000,
        pow256(8) == 0x1_0000_0000_0000_0000,
{
    reveal_with_fuel(pow256, 9);
}

/// Appends the `n` low bytes of `value`, most significant first.
pub fn push_be(out: &mut Vec<u8>, value: u64, n: usize)
    requires
        n <= 8,
    ensures
        final(out)@ == old(out)@ + be_bytes(value as nat, n as nat),
    decreases n,
{
    if n > 0 {
        push_be(out, value / 256, n - 1);
        out.push((value % 256) as u8);
        assert(out@ =~= old(out)@ + be_bytes(value as nat, n as nat));
    } else {
        assert(out@ =~= old(out)@ + be_bytes(value as nat, n as nat));
    }
}

/// Reads the `n` bytes of `bytes` that start at `at` as a number.
pub fn be_read(bytes: &[u8], at: usize, n: usize) -> (value: u64)
    requires
        n <= 8,
        at + n <= bytes@.len(),
    ensures
        value as nat == be_at(bytes@, at as int, n as int),
        value < pow256(n as nat),
    decreases n,
{
    let ghost field = bytes@.subrange(at as int, at + n);
    if n == 0 {
        0
    } else {
        let head: u64 = be_read(bytes, at, n - 1);
        proof {
            assert(field.drop_last() =~= bytes@.subrange(at as int, at + n - 1));
            lemma_be_bytes_of_value(field);
            lemma_pow256_mono(n as nat, 8);
            lemma_pow256();
            assert(at + n <= bytes.len());
        }
        head * 256 + bytes[at + (n - 1)] as u64
    }
}

pub proof fn lemma_pow256_mono(a: nat, b: nat)
    requires
        a <= b,
    ensures
        0 < pow256(a) <= pow256(b),
    decreases b,
{
    if a < b {
        lemma_pow256_mono(a, (b - 1) as nat);
    } else if a > 0 {
        lemma_pow256_mono((a - 1) as nat, (a - 1) as nat);
    }
}

pub fn be_u16(bytes: &[u8], at: usize) -> (value: u16)
    requires
        at + 2 <= bytes@.len(),
    ensures
        value as nat == be_at(bytes@, at as int, 2),
{
    proof {
        lemma_pow256();
    }
    be_read(bytes, at, 2) as u16
}

pub fn be_u32(bytes: &[u8], at: usize) -> (value: u32)
    requires
        at + 4 <= bytes@.len(),
    ensures
        value as nat == be_at(bytes@, at as int, 4),
{
    proof {
        lemma_pow256();
    }
    be_read(bytes, at, 4) as u32
}

pub fn be_u64(bytes: &[u8], at: usize) -> (value: u64)
    requires
        at + 8 <= bytes@.len(),
    ensures
        value as nat == be_at(bytes@, at as int, 8),
{
    be_read(bytes, at, 8)
}

/// A number is written most significant byte first, behind what was there, and is read back
/// where it was written: each byte is worth 256 times the one behind it.
pub proof fn law_number_is_read_back(
    out: &mut Vec<u8>,
    value: u64,
    n: usize,
    bytes: &[u8],
    at: usize,
    read: u64,
)
    requires
        n <= 8,
        value < pow256(n as nat),
        call_ensures(push_be, (out, value, n), ()),
        at == old(out)@.len(),
        bytes@.len() >= final(out)@.len(),
        bytes@.take(final(out)@.len() as int) == final(out)@,
        call_ensures(be_read, (bytes, at, n), read),
    ensures
        read == value,
        final(out)@.len() == old(out)@.len() + n,
        final(out)@.take(old(out)@.len() as int) =~= old(out)@,
        n == 1 ==> final(out)@.last() == value,
        n == 2 ==> final(out)@[at + 0] == value / 256 && final(out)@[at + 1] == value % 256,
{
    lemma_be_value_of_bytes(value as nat, n as nat);
    assert(bytes@.subrange(at as int, at + n) =~= be_bytes(value as nat, n as nat)) by {
        assert forall|i: int| at <= i < at + n implies bytes@[i] == final(out)@[i] by {
            assert(bytes@.take(final(out)@.len() as int)[i] == bytes@[i]);
        }
    }
    reveal_with_fuel(be_bytes, 3);
    lemma_pow256();
}

/// Numbers of two, four and eight bytes are the bytes there, each worth 256 times the one
/// behind it.
pub proof fn law_numbers_are_their_bytes(
    bytes: &[u8],
    at: usize,
    short: u16,
    long: u32,
    wide: u64,
)
    requires
        at + 8 <= bytes@.len(),
        call_ensures(be_u16, (bytes, at), short),
        call_ensures(be_u32, (bytes, at), long),
        call_ensures(be_u64, (bytes, at), wide),
    ensures
        short == bytes@[at as int] * 256 + bytes@[at + 1],
        long == short * 0x1_0000 + bytes@[at + 2] * 256 + bytes@[at + 3],
        wide == long * 0x1_0000_0000 + bytes@[at + 4] * 0x100_0000 + bytes@[at + 5] * 0x1_0000
            + bytes@[at + 6] * 256 + bytes@[at + 7],
{
    let s = bytes@;
    let a = at as int;
    lemma_value_steps(s, a, 8);
}

/// The number in `n` bytes is the one in all but the last of them, times 256, and that.
proof fn lemma_value_steps(s: Seq<u8>, at: int, n: nat)
    requires
        0 <= at,
        at + n <= s.len(),
    ensures
        be_at(s, at, 0) == 0,
        forall|k: int|
            1 <= k <= n ==> #[trigger] be_at(s, at, k) == be_at(s, at, k - 1) * 256 + s[at + k
                - 1],
{
    assert(s.subrange(at, at) =~= Seq::<u8>::empty());
    assert forall|k: int| 1 <= k <= n implies #[trigger] be_at(s, at, k) == be_at(s, at, k - 1)
        * 256 + s[at + k - 1] by {
        let part = s.subrange(at, at + k);
        assert(part.drop_last() =~= s.subrange(at, at + k - 1));
        assert(part.last() == s[at + k - 1]);
    }
}

} // verus!
