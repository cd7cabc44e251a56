//! Numbers as text, and text one character at a time.

use vstd::prelude::*;

verus! {

/// `String::push` appends one character to the text.
pub assume_specification[ String::push ](text: &mut String, c: char)
    ensures
        final(text)@ == old(text)@.push(c),
;

/// The digit `d` in bases up to 16, in lower case.
pub open spec fn digit(d: nat) -> char {
    if d < 10 {
        ('0' as nat + d) as char
    } else {
        ('a' as nat + (d - 10)) as char
    }
}

/// The `n` low digits of `value` in base `base`, most significant first.
pub open spec fn digits(value: nat, base: nat, n: nat) -> Seq<char>
    decreases n,
{
    if n == 0 {
        Seq::empty()
    } else {
        digits(value / base, base, (n - 1) as nat).push(digit(value % base))
    }
}

/// How many decimal digits `value` has; zero has one.
pub open spec fn decimal_len(value: nat) -> nat
    decreases value,
{
    if value < 10 {
        1
    } else {
        1 + decimal_len(value / 10)
    }
}

/// `value` in decimal, without leading zeros.
pub open spec fn decimal(value: nat) -> Seq<char> {
    digits(value, 10, decimal_len(value))
}

pub proof fn lemma_digits_len(value: nat, base: nat, n: nat)
    requires
        base > 0,
    ensures
        digits(value, base, n).len() == n,
    decreases n,
{
    if n > 0 {
        lemma_digits_len(value / base, base, (n - 1) as nat);
    }
}

/// The character of the digit `d`.
pub fn digit_char(d: u8) -> (c: char)
    requires
        d < 16,
    ensures
        c == digit(d as nat),
{
    if d < 10 {
        (0x30u8 + d) as char
    } else {
        (0x61u8 + (d - 10)) as char
    }
}

/// Appends the `n` low digits of `value` in base `base`.
pub fn push_digits(out: &mut String, value: u64, base: u64, n: usize)
    requires
        2 <= base <= 16,
    ensures
        final(out)@ == old(out)@ + digits(value as nat, base as nat, n as nat),
    decreases n,
{
    if n > 0 {
        push_digits(out, value / base, base, n - 1);
        out.push(digit_char((value % base) as u8));
    }
    assert(out@ =~= old(out)@ + digits(value as nat, base as nat, n as nat));
}

/// How many decimal digits `value` has.
pub fn decimal_width(value: u64) -> (n: usize)
    ensures
        n == decimal_len(value as nat),
        n <= 20,
{
    proof {
        assert forall|v: nat| v < 0x1_0000_0000_0000_0000 implies #[trigger] decimal_len(v) <= 20 by {
            reveal_with_fuel(decimal_len, 21);
        }
    }
    decimal_width_rec(value)
}

fn decimal_width_rec(value: u64) -> (n: usize)
    requires
        decimal_len(value as nat) <= 20,
    ensures
        n == decimal_len(value as nat),
    decreases value,
{
    if value < 10 {
        1
    } else {
        1 + decimal_width_rec(value / 10)
    }
}

/// Appends `value` in decimal.
pub fn push_decimal(out: &mut String, value: u64)
    ensures
        final(out)@ == old(out)@ + decimal(value as nat),
{
    let n: usize = decimal_width(value);
    push_digits(out, value, 10, n);
}

/// Whether two texts are the same.
pub fn same_text(a: &str, b: &str) -> (same: bool)
    ensures
        same == (a@ == b@),
{
    let n: usize = a.unicode_len();
    if n != b.unicode_len() {
        return false;
    }
    let mut i: usize = 0;
    while i < n
        invariant
            i <= n,
            n == a@.len(),
            n == b@.len(),
            forall|j: int| 0 <= j < i ==> a@[j] == b@[j],
        decreases n - i,
    {
        if a.get_char(i) != b.get_char(i) {
            return false;
        }
        i = i + 1;
    }
    assert(a@ =~= b@);
    true
}

/// White space: the characters with the Unicode property `White_Space`.
pub open spec fn white_space(c: char) -> bool {
    ||| '\u{9}' <= c <= '\u{d}'
    ||| c == ' '
    ||| c == '\u{85}'
    ||| c == '\u{a0}'
    ||| c == '\u{1680}'
    ||| '\u{2000}' <= c <= '\u{200a}'
    ||| c == '\u{2028}'
    ||| c == '\u{2029}'
    ||| c == '\u{202f}'
    ||| c == '\u{205f}'
    ||| c == '\u{3000}'
}

fn is_white_space(c: char) -> (white: bool)
    ensures
        white == white_space(c),
{
    ('\u{9}' <= c && c <= '\u{d}') || c == ' ' || c == '\u{85}' || c == '\u{a0}'
        || c == '\u{1680}' || ('\u{2000}' <= c && c <= '\u{200a}') || c == '\u{2028}'
        || c == '\u{2029}' || c == '\u{202f}' || c == '\u{205f}' || c == '\u{3000}'
}

/// A text in double quotes, with what cannot stand between them escaped.
pub uninterp spec fn quoted_of(text: Seq<char>) -> Seq<char>;

/// `{:?}` of a `str`: the text in double quotes, escaped, which depends on nothing else.
#[verifier::external_body]
pub(crate) fn quoted(text: &str) -> (quoted: String)
    ensures
        quoted@ == quoted_of(text@),
{
    format!("{text:?}")
}

/// How many white-space characters `s` starts with.
pub open spec fn leading_space(s: Seq<char>) -> nat
    decreases s.len(),
{
    if s.len() > 0 && white_space(s[0]) {
        1 + leading_space(s.skip(1))
    } else {
        0
    }
}

/// How many white-space characters `s` ends with.
pub open spec fn trailing_space(s: Seq<char>) -> nat
    decreases s.len(),
{
    if s.len() > 0 && white_space(s.last()) {
        1 + trailing_space(s.drop_last())
    } else {
        0
    }
}

/// `s` without white space at its ends.
pub open spec fn trimmed(s: Seq<char>) -> Seq<char> {
    let rest = s.skip(leading_space(s) as int);
    rest.take(rest.len() - trailing_space(rest))
}

proof fn lemma_space_len(s: Seq<char>)
    ensures
        leading_space(s) <= s.len(),
        trailing_space(s) <= s.len(),
    decreases s.len(),
{
    if s.len() > 0 {
        lemma_space_len(s.skip(1));
        lemma_space_len(s.drop_last());
    }
}

/// `text` without white space at its ends.
pub fn trim(text: &str) -> (rest: &str)
    ensures
        rest@ == trimmed(text@),
{
    let n: usize = text.unicode_len();
    let ghost all = text@;
    proof {
        lemma_space_len(all);
        assert(all.skip(0) =~= all);
    }
    let mut from: usize = 0;
    while from < n && is_white_space(text.get_char(from))
        invariant
            from <= n,
            n == text@.len(),
            all == text@,
            leading_space(all) == from + leading_space(all.skip(from as int)),
        decreases n - from,
    {
        assert(all.skip(from as int).skip(1) =~= all.skip(from + 1));
        from = from + 1;
    }
    assert(leading_space(all.skip(from as int)) == 0);
    let ghost rest = all.skip(from as int);
    proof {
        lemma_space_len(rest);
        assert(rest.take(rest.len() as int) =~= rest);
    }
    let mut to: usize = n;
    while to > from && is_white_space(text.get_char(to - 1))
        invariant
            from <= to <= n,
            n == text@.len(),
            all == text@,
            rest == all.skip(from as int),
            trailing_space(rest) == (n - to) + trailing_space(rest.take(to - from)),
        decreases to,
    {
        assert(rest.take(to - from).drop_last() =~= rest.take(to - from - 1));
        assert(rest.take(to - from).last() == all[to - 1]);
        to = to - 1;
    }
    proof {
        if to > from {
            assert(rest.take(to - from).last() == all[to - 1]);
        }
        assert(trailing_space(rest.take(to - from)) == 0);
    }
    let result = text.substring_char(from, to);
    assert(result@ =~= trimmed(text@));
    result
}

/// The number that decimal digits stand for; `None` where there are none, where
/// something else is among them, or where it does not fit in 64 bits.
pub open spec fn parsed_digits(s: Seq<char>) -> Option<nat>
    decreases s.len(),
{
    if s.len() == 0 {
        Some(0)
    } else {
        match parsed_digits(s.drop_last()) {
            Some(head) if '0' <= s.last() <= '9' && head * 10 + (s.last() as nat - '0' as nat)
                <= u64::MAX => Some((head * 10 + (s.last() as nat - '0' as nat)) as nat),
            _ => None,
        }
    }
}

/// A 64-bit number as `u64::from_str` reads it: digits, at least one, behind an
/// optional plus sign.
pub open spec fn parsed_u64(s: Seq<char>) -> Option<nat> {
    let digits = if s.len() > 0 && s[0] == '+' {
        s.skip(1)
    } else {
        s
    };
    if digits.len() == 0 {
        None
    } else {
        parsed_digits(digits)
    }
}

proof fn lemma_digits_stay_bad(s: Seq<char>, n: int)
    requires
        0 <= n <= s.len(),
        parsed_digits(s.take(n)) is None,
    ensures
        parsed_digits(s) is None,
    decreases s.len() - n,
{
    if n < s.len() {
        assert(s.take(n + 1).drop_last() =~= s.take(n));
        lemma_digits_stay_bad(s, n + 1);
    } else {
        assert(s.take(n) =~= s);
    }
}

/// A 64-bit number in decimal.
pub fn parse_u64(text: &str) -> (value: Option<u64>)
    ensures
        match parsed_u64(text@) {
            Some(v) => value == Some(v as u64),
            None => value is None,
        },
{
    let n: usize = text.unicode_len();
    let from: usize = if n > 0 && text.get_char(0) == '+' {
        1
    } else {
        0
    };
    if from == n {
        return None;
    }
    let ghost digits = text@.skip(from as int);
    proof {
        assert(text@.skip(0) =~= text@);
        assert(digits.take(0) =~= Seq::empty());
    }
    let mut value: u64 = 0;
    let mut i: usize = from;
    while i < n
        invariant
            from <= i <= n,
            n == text@.len(),
            digits == text@.skip(from as int),
            parsed_u64(text@) == parsed_digits(digits),
            parsed_digits(digits.take(i - from)) == Some(value as nat),
        decreases n - i,
    {
        let c: char = text.get_char(i);
        proof {
            assert(digits.take(i - from + 1).drop_last() =~= digits.take(i - from));
            assert(digits.take(i - from + 1).last() == c);
        }
        let digit: Option<u64> = decimal_digit(c);
        match digit {
            None => {
                proof {
                    lemma_digits_stay_bad(digits, i - from + 1);
                }
                return None;
            },
            Some(digit) => {
                if value > (u64::MAX - digit) / 10 {
                    proof {
                        assert(value * 10 + digit > u64::MAX);
                        lemma_digits_stay_bad(digits, i - from + 1);
                    }
                    return None;
                }
                value = value * 10 + digit;
            },
        }
        i = i + 1;
    }
    assert(digits.take(i - from) =~= digits);
    Some(value)
}

/// The value of a decimal digit.
fn decimal_digit(c: char) -> (digit: Option<u64>)
    ensures
        digit is Some <==> '0' <= c <= '9',
        digit matches Some(d) ==> d == c as nat - '0' as nat && d <= 9,
{
    if '0' <= c && c <= '9' {
        Some((c as u64) - 48)
    } else {
        None
    }
}

/// The lines of a text as they are stored: the parts between line feeds, each but
/// the last without a carriage return in front of its line feed.
pub open spec fn lines_of(s: Seq<char>) -> Seq<Seq<char>>
    decreases s.len(),
{
    if s.len() == 0 {
        seq![Seq::empty()]
    } else {
        let head = lines_of(s.drop_last());
        if s.last() == '\n' {
            head.drop_last().push(without_cr(head.last())).push(Seq::empty())
        } else {
            head.drop_last().push(head.last().push(s.last()))
        }
    }
}

/// `line` without a carriage return at its end.
pub open spec fn without_cr(line: Seq<char>) -> Seq<char> {
    if line.len() > 0 && line.last() == '\r' {
        line.drop_last()
    } else {
        line
    }
}

/// The parts of a text between commas.
pub open spec fn comma_parts(s: Seq<char>) -> Seq<Seq<char>>
    decreases s.len(),
{
    if s.len() == 0 {
        seq![Seq::empty()]
    } else {
        let head = comma_parts(s.drop_last());
        if s.last() == ',' {
            head.push(Seq::empty())
        } else {
            head.drop_last().push(head.last().push(s.last()))
        }
    }
}

/// One of the parts of `list`, without white space around it, is `wanted`.
pub open spec fn is_named(list: Seq<char>, wanted: Seq<char>) -> bool {
    exists|i: int|
        0 <= i < comma_parts(list).len() && trimmed(#[trigger] comma_parts(list)[i]) == wanted
}

/// Whether a comma-separated list names `wanted`, with any white space around it.
pub fn list_names(list: &str, wanted: &str) -> (named: bool)
    ensures
        named == exists|i: int|
            0 <= i < comma_parts(list@).len() && trimmed(#[trigger] comma_parts(list@)[i])
                == wanted@,
        named == is_named(list@, wanted@),
{
    let ghost all = list@;
    let n: usize = list.unicode_len();
    let mut start: usize = 0;
    let mut i: usize = 0;
    let mut named = false;
    proof {
        assert(all.take(0) =~= Seq::empty());
        assert(comma_parts(all.take(0)).drop_last() =~= Seq::empty());
        assert(all.subrange(0, 0) =~= Seq::empty());
    }
    while i < n
        invariant
            start <= i <= n,
            n == list@.len(),
            all == list@,
            comma_parts(all.take(i as int)).len() >= 1,
            comma_parts(all.take(i as int)).last() == all.subrange(start as int, i as int),
            named == exists|j: int|
                0 <= j < comma_parts(all.take(i as int)).len() - 1 && trimmed(
                    #[trigger] comma_parts(all.take(i as int))[j],
                ) == wanted@,
        decreases n - i,
    {
        let c: char = list.get_char(i);
        let ghost head = comma_parts(all.take(i as int));
        let ghost part = all.subrange(start as int, i as int);
        let ghost next = comma_parts(all.take(i + 1));
        proof {
            assert(all.take(i + 1).drop_last() =~= all.take(i as int));
            assert(all.take(i + 1).last() == c);
        }
        if c == ',' {
            let same = same_text(trim(list.substring_char(start, i)), wanted);
            proof {
                assert(next.drop_last() =~= head);
                assert(all.subrange(i + 1, i + 1) =~= Seq::empty());
                assert(head.last() == next[next.len() - 2]);
                assert forall|j: int| 0 <= j < head.len() implies head[j] == next[j] by {}
                if named {
                    let j = choose|j: int|
                        0 <= j < head.len() - 1 && trimmed(#[trigger] head[j]) == wanted@;
                    assert(trimmed(next[j]) == wanted@);
                }
                if same {
                    assert(trimmed(next[next.len() - 2]) == wanted@);
                }
                if !named && !same {
                    assert forall|j: int| 0 <= j < next.len() - 1 implies trimmed(
                        #[trigger] next[j],
                    ) != wanted@ by {
                        assert(head[j] == next[j]);
                    }
                }
            }
            if same {
                named = true;
            }
            start = i + 1;
        } else {
            proof {
                assert(next.drop_last() =~= head.drop_last());
                assert(all.subrange(start as int, i + 1) =~= part.push(c));
                assert forall|j: int| 0 <= j < head.len() - 1 implies head[j] == next[j] by {
                    assert(head.drop_last()[j] == next.drop_last()[j]);
                }
                if named {
                    let j = choose|j: int|
                        0 <= j < head.len() - 1 && trimmed(#[trigger] head[j]) == wanted@;
                    assert(trimmed(next[j]) == wanted@);
                } else {
                    assert forall|j: int| 0 <= j < next.len() - 1 implies trimmed(
                        #[trigger] next[j],
                    ) != wanted@ by {
                        assert(head[j] == next[j]);
                    }
                }
            }
        }
        i = i + 1;
    }
    let same = same_text(trim(list.substring_char(start, n)), wanted);
    proof {
        assert(all.take(n as int) =~= all);
        let parts = comma_parts(all);
        if same {
            assert(trimmed(parts[parts.len() - 1]) == wanted@);
        }
        if named {
            let j = choose|j: int|
                0 <= j < parts.len() - 1 && trimmed(#[trigger] parts[j]) == wanted@;
            assert(trimmed(parts[j]) == wanted@);
        }
        if !named && !same {
            assert forall|j: int| 0 <= j < parts.len() implies trimmed(#[trigger] parts[j])
                != wanted@ by {}
        }
    }
    named || same
}

// What each operation does, in terms of what it was given and what it gave back.

/// Enough decimal digits of a number are read back as the number.
proof fn lemma_digits_are_read_back(value: nat, n: nat)
    requires
        value <= u64::MAX,
        n >= decimal_len(value),
    ensures
        parsed_digits(digits(value, 10, n)) == Some(value),
        digits(value, 10, n).len() == n,
        forall|i: int| 0 <= i < n ==> '0' <= (#[trigger] digits(value, 10, n)[i]) <= '9',
    decreases n,
{
    lemma_digits_len(value, 10, n);
    let head = digits(value / 10, 10, (n - 1) as nat);
    let all = digits(value, 10, n);
    assert(all.drop_last() =~= head);
    assert(all.last() == digit(value % 10));
    assert(all.last() as nat == '0' as nat + value % 10);
    if value < 10 {
        if n > 1 {
            lemma_digits_are_read_back(0, (n - 1) as nat);
        } else {
            assert(head =~= Seq::<char>::empty());
        }
        assert(value / 10 == 0);
    } else {
        lemma_digits_are_read_back(value / 10, (n - 1) as nat);
    }
    assert forall|i: int| 0 <= i < n implies '0' <= (#[trigger] all[i]) <= '9' by {
        if i < n - 1 {
            assert(all[i] == head[i]);
        }
    }
}

/// A number in decimal has no zero in front.
proof fn lemma_no_leading_zero(value: nat)
    ensures
        value >= 10 ==> decimal(value)[0] != '0',
        decimal(value).len() == decimal_len(value),
    decreases value,
{
    let n = decimal_len(value);
    lemma_digits_len(value, 10, n);
    if value >= 10 {
        let head = decimal(value / 10);
        lemma_no_leading_zero(value / 10);
        lemma_digits_len(value / 10, 10, (n - 1) as nat);
        assert(decimal(value)[0] == head[0]);
        if value / 10 < 10 {
            assert(decimal_len(value / 10) == 1);
            assert(digits(value / 100, 10, 0) =~= Seq::<char>::empty());
            assert(head[0] == digit((value / 10) % 10));
        }
    }
}

/// A number that is written in decimal is read back as that number, and has no zero in
/// front. It stands behind what was there.
pub proof fn law_written_number_is_read_back(
    out: &mut String,
    value: u64,
    text: &str,
    read: Option<u64>,
)
    requires
        call_ensures(push_decimal, (out, value), ()),
        final(out)@ == old(out)@ + text@,
        call_ensures(parse_u64, (text,), read),
    ensures
        read == Some(value),
        value >= 10 ==> text@[0] != '0',
        value < 10 ==> text@.len() == 1,
        forall|i: int| 0 <= i < text@.len() ==> '0' <= (#[trigger] text@[i]) <= '9',
{
    assert(text@ =~= final(out)@.skip(old(out)@.len() as int));
    assert(text@ =~= decimal(value as nat));
    lemma_digits_are_read_back(value as nat, decimal_len(value as nat));
    lemma_no_leading_zero(value as nat);
    assert(text@[0] != '+');
}

/// Digits are read as a number of 64 bits, with a plus sign in front of them or not:
/// each is worth ten times the ones behind it. Nothing is no number, and neither is
/// anything else, nor a number that is too large.
pub proof fn law_numbers_are_read_digit_by_digit(
    text: &str,
    head: &str,
    value: Option<u64>,
    before: Option<u64>,
)
    requires
        text@.len() > 0,
        head@ == text@.drop_last(),
        call_ensures(parse_u64, (text,), value),
        call_ensures(parse_u64, (head,), before),
    ensures
        text@.len() == 1 ==> (value is Some <==> '0' <= text@[0] <= '9'),
        text@.len() == 1 && value is Some ==> value->0 == text@[0] as nat - '0' as nat,
        text@.len() == 1 ==> before is None,
        text@.len() > 1 && !(text@.len() == 2 && text@[0] == '+') ==> (value is Some
            <==> before is Some && '0' <= text@.last() <= '9' && before->0 * 10 + (
        text@.last() as nat - '0' as nat) <= u64::MAX),
        text@.len() > 1 && before is Some && value is Some ==> value->0 == before->0 * 10 + (
        text@.last() as nat - '0' as nat),
        text@.len() == 2 && text@[0] == '+' ==> (value is Some <==> '0' <= text@[1] <= '9'),
{
    let s = text@;
    let signed = s[0] == '+';
    assert(parsed_digits(Seq::empty()) == Some(0nat));
    if s.len() == 1 {
        assert(s.drop_last() =~= Seq::<char>::empty());
        assert(s.skip(1) =~= Seq::<char>::empty());
    } else if signed {
        assert(s.skip(1).drop_last() =~= s.drop_last().skip(1));
        if s.len() == 2 {
            assert(s.skip(1).drop_last() =~= Seq::<char>::empty());
        }
        lemma_parsed_fits(s.drop_last().skip(1));
    } else {
        lemma_parsed_fits(s.drop_last());
    }
}

/// What is read fits in 64 bits.
proof fn lemma_parsed_fits(s: Seq<char>)
    ensures
        parsed_digits(s) matches Some(v) ==> v <= u64::MAX,
{
}

/// A digit is one of `0` to `9` and, from ten on, one of `a` to `f`, in order.
pub proof fn law_digit_characters(d: u8, c: char)
    requires
        d < 16,
        call_ensures(digit_char, (d,), c),
    ensures
        d < 10 ==> c as nat == '0' as nat + d,
        d >= 10 ==> c as nat == 'a' as nat + d - 10,
{
}

/// The digits of a number are those of its quotient by the base, and then the remainder.
pub proof fn law_digits_are_remainders(
    out: &mut String,
    value: u64,
    base: u64,
    n: usize,
    short: &mut String,
    last: char,
    rest: u8,
)
    requires
        2 <= base <= 16,
        n > 0,
        old(out)@ == old(short)@,
        rest == value % base,
        call_ensures(push_digits, (out, value, base, n), ()),
        call_ensures(push_digits, (short, (value / base) as u64, base, (n - 1) as usize), ()),
        call_ensures(digit_char, (rest,), last),
    ensures
        final(out)@ =~= final(short)@.push(last),
        final(out)@.len() == old(out)@.len() + n,
{
    lemma_digits_len(value as nat, base as nat, n as nat);
}

/// Texts are the same where they have the same characters.
pub proof fn law_texts_are_compared(a: &str, b: &str, same: bool)
    requires
        call_ensures(same_text, (a, b), same),
    ensures
        same <==> a@.len() == b@.len() && forall|i: int|
            0 <= i < a@.len() ==> (#[trigger] a@[i]) == b@[i],
{
    if a@.len() == b@.len() && forall|i: int|
        0 <= i < a@.len() ==> (#[trigger] a@[i]) == b@[i] {
        assert(a@ =~= b@);
    }
}

/// What is cut off in front is white space, and what follows is not.
proof fn lemma_leading_space(s: Seq<char>)
    ensures
        leading_space(s) <= s.len(),
        forall|i: int| 0 <= i < leading_space(s) ==> white_space(#[trigger] s[i]),
        leading_space(s) < s.len() ==> !white_space(s[leading_space(s) as int]),
    decreases s.len(),
{
    if s.len() > 0 && white_space(s[0]) {
        let rest = s.skip(1);
        lemma_leading_space(rest);
        assert forall|i: int| 0 <= i < leading_space(s) implies white_space(#[trigger] s[i]) by {
            if i > 0 {
                assert(rest[i - 1] == s[i]);
            }
        }
        if leading_space(s) < s.len() {
            assert(rest[leading_space(rest) as int] == s[leading_space(s) as int]);
        }
    }
}

/// What is cut off at the end is white space, and what stands before it is not.
proof fn lemma_trailing_space(s: Seq<char>)
    ensures
        trailing_space(s) <= s.len(),
        forall|i: int| s.len() - trailing_space(s) <= i < s.len() ==> white_space(#[trigger] s[i]),
        trailing_space(s) < s.len() ==> !white_space(s[s.len() - trailing_space(s) - 1]),
    decreases s.len(),
{
    if s.len() > 0 && white_space(s.last()) {
        let rest = s.drop_last();
        lemma_trailing_space(rest);
        assert forall|i: int| s.len() - trailing_space(s) <= i < s.len() implies white_space(
            #[trigger] s[i],
        ) by {
            if i < s.len() - 1 {
                assert(rest[i] == s[i]);
            }
        }
        if trailing_space(s) < s.len() {
            assert(rest[rest.len() - trailing_space(rest) - 1] == s[s.len() - trailing_space(s)
                - 1]);
        }
    }
}

/// Trimming takes white space off both ends, all of it, and nothing else.
pub proof fn law_trimming_takes_off_white_space(text: &str, rest: &str)
    requires
        call_ensures(trim, (text,), rest),
    ensures
        exists|from: int|
            {
                let to = from + rest@.len();
                &&& 0 <= from <= to <= text@.len()
                &&& rest@ == #[trigger] text@.subrange(from, from + rest@.len())
                &&& forall|i: int| 0 <= i < from ==> white_space(#[trigger] text@[i])
                &&& forall|i: int| to <= i < text@.len() ==> white_space(#[trigger] text@[i])
            },
        rest@.len() > 0 ==> !white_space(rest@[0]) && !white_space(rest@.last()),
{
    let s = text@;
    lemma_leading_space(s);
    let from = leading_space(s) as int;
    let behind = s.skip(from);
    lemma_trailing_space(behind);
    assert(rest@ =~= s.subrange(from, from + rest@.len()));
    assert forall|i: int| from + rest@.len() <= i < s.len() implies white_space(
        #[trigger] s[i],
    ) by {
        assert(behind[i - from] == s[i]);
    }
    if rest@.len() > 0 {
        assert(rest@[0] == s[from]);
        assert(rest@.last() == behind[rest@.len() - 1]);
    }
}

/// White space is the blank, the controls from tab to carriage return, and the spaces and
/// separators of Unicode; nothing else is.
pub proof fn law_white_space(c: char)
    ensures
        white_space(c) <==> ((c as u32) == 0x20 || 0x9 <= (c as u32) <= 0xd || (c as u32) == 0x85
            || (c as u32) == 0xa0 || (c as u32) == 0x1680 || 0x2000 <= (c as u32) <= 0x200a || (
        c as u32) == 0x2028 || (c as u32) == 0x2029 || (c as u32) == 0x202f || (c as u32) == 0x205f
            || (c as u32) == 0x3000),
{
}

/// A text without a comma is one part.
pub proof fn lemma_one_part(s: Seq<char>)
    requires
        !s.contains(','),
    ensures
        comma_parts(s) =~= seq![s],
    decreases s.len(),
{
    if s.len() > 0 {
        assert forall|x: char| s.drop_last().contains(x) implies s.contains(x) by {
            let i = choose|i: int| 0 <= i < s.drop_last().len() && s.drop_last()[i] == x;
            assert(s[i] == x);
        }
        lemma_one_part(s.drop_last());
        assert(s.contains(s[s.len() - 1]));
        assert(s.drop_last().push(s.last()) =~= s);
    } else {
        assert(s =~= Seq::<char>::empty());
    }
}

/// The parts on both sides of a comma are those of the whole.
pub proof fn lemma_parts_on_both_sides(a: Seq<char>, b: Seq<char>)
    ensures
        comma_parts(a.push(',') + b) =~= comma_parts(a) + comma_parts(b),
        comma_parts(b).len() > 0,
    decreases b.len(),
{
    let whole = a.push(',') + b;
    if b.len() == 0 {
        assert(whole =~= a.push(','));
        assert(a.push(',').drop_last() =~= a);
        assert(b =~= Seq::<char>::empty());
    } else {
        lemma_parts_on_both_sides(a, b.drop_last());
        assert(whole.drop_last() =~= a.push(',') + b.drop_last());
        assert(whole.last() == b.last());
        let left = comma_parts(a);
        let right = comma_parts(b.drop_last());
        assert((left + right).last() == right.last());
        assert((left + right).drop_last() =~= left + right.drop_last());
        let grown = right.last().push(b.last());
        assert((left + right.drop_last()).push(grown) =~= left + right.drop_last().push(grown));
        assert((left + right).push(Seq::empty()) =~= left + right.push(Seq::<char>::empty()));
    }
}

/// A list names something where one of its parts, trimmed, is that. A list without a comma
/// has one part; one with a comma names what the list before it or the list behind it
/// names.
pub proof fn law_list_names_its_parts(
    plain: &str,
    left: &str,
    right: &str,
    joined: &str,
    wanted: &str,
    alone: &str,
    one: bool,
    first: bool,
    second: bool,
    either: bool,
)
    requires
        !plain@.contains(','),
        joined@ == left@.push(',') + right@,
        call_ensures(trim, (plain,), alone),
        call_ensures(list_names, (plain, wanted), one),
        call_ensures(list_names, (left, wanted), first),
        call_ensures(list_names, (right, wanted), second),
        call_ensures(list_names, (joined, wanted), either),
    ensures
        one <==> alone@ == wanted@,
        either <==> first || second,
{
    lemma_one_part(plain@);
    assert(comma_parts(plain@)[0] == plain@);
    lemma_parts_on_both_sides(left@, right@);
    let a = comma_parts(left@);
    let b = comma_parts(right@);
    let both = comma_parts(joined@);
    assert(both =~= a + b);
    let single = comma_parts(plain@);
    if one {
        let i = choose|i: int| 0 <= i < single.len() && trimmed(#[trigger] single[i]) == wanted@;
        assert(single[i] == plain@);
    }
    if trimmed(plain@) == wanted@ {
        assert(trimmed(single[0]) == wanted@);
    }
    if first {
        let i = choose|i: int| 0 <= i < a.len() && trimmed(#[trigger] a[i]) == wanted@;
        assert(both[i] == a[i]);
    }
    if second {
        let i = choose|i: int| 0 <= i < b.len() && trimmed(#[trigger] b[i]) == wanted@;
        assert(both[a.len() + i] == b[i]);
    }
    if either {
        let i = choose|i: int| 0 <= i < both.len() && trimmed(#[trigger] both[i]) == wanted@;
        if i < a.len() {
            assert(a[i] == both[i]);
        } else {
            assert(b[i - a.len()] == both[i]);
        }
    }
}

/// A number is as wide as it is when it is written.
pub proof fn law_numbers_are_as_wide_as_written(value: u64, n: usize, out: &mut String)
    requires
        call_ensures(decimal_width, (value,), n),
        call_ensures(push_decimal, (out, value), ()),
    ensures
        final(out)@.len() == old(out)@.len() + n,
        value < 10 <==> n == 1,
        1 <= n <= 20,
{
    lemma_digits_len(value as nat, 10, decimal_len(value as nat));
    assert(decimal_len(value as nat / 10) >= 1);
}

} // verus!
