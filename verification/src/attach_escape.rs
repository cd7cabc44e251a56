//! The attach client's detach escape: a two-key sequence recognized in the
//! user's keystrokes before they are forwarded to the session.
//!
//! With the default escape, `Ctrl-\` followed by `d` detaches, `Ctrl-\` twice
//! forwards one literal `Ctrl-\`, and `Ctrl-\` followed by any other byte
//! forwards both bytes unchanged. Every other byte is forwarded as typed. A
//! prefix at the end of one read is held until the next read decides it.
//! `Enter` is not part of the sequence (it would submit an unfinished prompt),
//! and neither is newline-tilde-dot, which an outer `ssh -t` consumes.

use vstd::prelude::*;

verus! {

/// `Ctrl-\`.
pub const PREFIX: u8 = 0x1c;

/// The key that detaches after [`PREFIX`]: `d`.
pub const DETACH_KEY: u8 = 0x64;

/// Which escape the client recognizes.
#[derive(Clone, Copy, Debug, PartialEq, Eq, Structural)]
pub enum EscapeMode {
    /// `Ctrl-\ d` detaches.
    CtrlBackslash,
    /// No escape: every byte is forwarded.
    Disabled,
}

/// What the keystrokes fed so far ask for.
#[derive(Clone, Copy, Debug, PartialEq, Eq, Structural)]
pub enum Escape {
    /// Keep relaying.
    Continue,
    /// Detach now. Bytes after the detach key are discarded.
    Detach,
}

/// Incremental escape recognizer.
#[derive(Clone, Copy, Debug, PartialEq, Eq, Structural)]
pub struct EscapeParser {
    pub mode: EscapeMode,
    /// The last byte was a prefix that nothing has decided yet.
    pub prefix_pending: bool,
}

/// What feeding bytes came to.
pub struct Fed {
    pub parser: EscapeParser,
    pub forward: Seq<u8>,
    pub escape: Escape,
}

impl EscapeParser {
    /// One byte: the parser behind it, what is forwarded, and what it asks for.
    pub open spec fn step(self, byte: u8) -> Fed {
        let decided = EscapeParser { prefix_pending: false, ..self };
        if self.mode == EscapeMode::Disabled {
            Fed { parser: self, forward: seq![byte], escape: Escape::Continue }
        } else if self.prefix_pending {
            if byte == DETACH_KEY {
                Fed { parser: decided, forward: Seq::empty(), escape: Escape::Detach }
            } else if byte == PREFIX {
                Fed { parser: decided, forward: seq![PREFIX], escape: Escape::Continue }
            } else {
                Fed { parser: decided, forward: seq![PREFIX, byte], escape: Escape::Continue }
            }
        } else if byte == PREFIX {
            Fed {
                parser: EscapeParser { prefix_pending: true, ..self },
                forward: Seq::empty(),
                escape: Escape::Continue,
            }
        } else {
            Fed { parser: self, forward: seq![byte], escape: Escape::Continue }
        }
    }

    /// Bytes one after the other, up to the detach key if there is one.
    pub open spec fn fed(self, input: Seq<u8>) -> Fed
        decreases input.len(),
    {
        if input.len() == 0 {
            Fed { parser: self, forward: Seq::empty(), escape: Escape::Continue }
        } else {
            let head = self.fed(input.drop_last());
            if head.escape == Escape::Detach {
                head
            } else {
                let last = head.parser.step(input.last());
                Fed { forward: head.forward + last.forward, ..last }
            }
        }
    }

    pub fn new(mode: EscapeMode) -> (parser: EscapeParser)
        ensures
            parser == (EscapeParser { mode, prefix_pending: false }),
    {
        EscapeParser { mode, prefix_pending: false }
    }

    /// Feeds one read's worth of keystrokes, appending the bytes to forward to
    /// `forward`.
    pub fn feed(&mut self, input: &[u8], forward: &mut Vec<u8>) -> (escape: Escape)
        ensures
            *final(self) == old(self).fed(input@).parser,
            final(forward)@ == old(forward)@ + old(self).fed(input@).forward,
            escape == old(self).fed(input@).escape,
    {
        let ghost start = *self;
        let ghost before = forward@;
        let mut i: usize = 0;
        assert(input@.take(0) =~= Seq::<u8>::empty());
        assert(forward@ =~= before + start.fed(input@.take(0)).forward);
        while i < input.len()
            invariant
                i <= input@.len(),
                start == *old(self),
                before == old(forward)@,
                *self == start.fed(input@.take(i as int)).parser,
                forward@ == before + start.fed(input@.take(i as int)).forward,
                start.fed(input@.take(i as int)).escape == Escape::Continue,
            decreases input@.len() - i,
        {
            let byte: u8 = input[i];
            let ghost so_far = forward@;
            let ghost at = *self;
            proof {
                assert(input@.take(i + 1).drop_last() =~= input@.take(i as int));
                assert(input@.take(i + 1).last() == byte);
            }
            if self.mode == EscapeMode::Disabled {
                forward.push(byte);
            } else if self.prefix_pending {
                self.prefix_pending = false;
                if byte == DETACH_KEY {
                    proof {
                        lemma_detach_stays(start, input@, i + 1);
                        assert(forward@ =~= before + start.fed(input@.take(i + 1)).forward);
                    }
                    return Escape::Detach;
                }
                forward.push(PREFIX);
                if byte != PREFIX {
                    forward.push(byte);
                }
            } else if byte == PREFIX {
                self.prefix_pending = true;
            } else {
                forward.push(byte);
            }
            i = i + 1;
            proof {
                assert(forward@ =~= so_far + at.step(byte).forward);
                assert(forward@ =~= before + start.fed(input@.take(i as int)).forward);
            }
        }
        assert(input@.take(i as int) =~= input@);
        Escape::Continue
    }
}

/// Nothing behind the detach key counts.
proof fn lemma_detach_stays(p: EscapeParser, input: Seq<u8>, n: int)
    requires
        0 <= n <= input.len(),
        p.fed(input.take(n)).escape == Escape::Detach,
    ensures
        p.fed(input) == p.fed(input.take(n)),
    decreases input.len() - n,
{
    if n < input.len() {
        assert(input.take(n + 1).drop_last() =~= input.take(n));
        lemma_detach_stays(p, input, n + 1);
    } else {
        assert(input.take(n) =~= input);
    }
}

/// Chunking never changes the result: two reads give what one would, and a read
/// that follows the detach is not looked at.
pub proof fn law_chunking_never_changes_the_result(p: EscapeParser, a: Seq<u8>, b: Seq<u8>)
    ensures
        p.fed(a).escape == Escape::Detach ==> p.fed(a + b) == p.fed(a),
        p.fed(a).escape == Escape::Continue ==> p.fed(a + b) == (Fed {
            forward: p.fed(a).forward + p.fed(a).parser.fed(b).forward,
            ..p.fed(a).parser.fed(b)
        }),
    decreases b.len(),
{
    if b.len() == 0 {
        assert(a + b =~= a);
        assert(p.fed(a).forward + Seq::<u8>::empty() =~= p.fed(a).forward);
    } else {
        assert((a + b).drop_last() =~= a + b.drop_last());
        law_chunking_never_changes_the_result(p, a, b.drop_last());
        let first = p.fed(a);
        let second = first.parser.fed(b.drop_last());
        let last = second.parser.step(b.last());
        assert(first.forward + second.forward + last.forward =~= first.forward + (second.forward
            + last.forward));
    }
}

/// Keystrokes without the prefix pass through unchanged.
pub proof fn law_no_prefix_passes_through(p: EscapeParser, input: Seq<u8>)
    requires
        !p.prefix_pending,
        forall|i: int| 0 <= i < input.len() ==> input[i] != PREFIX,
    ensures
        p.fed(input) == (Fed { parser: p, forward: input, escape: Escape::Continue }),
    decreases input.len(),
{
    if input.len() == 0 {
        assert(input =~= Seq::<u8>::empty());
    } else {
        law_no_prefix_passes_through(p, input.drop_last());
        assert(input.drop_last() + seq![input.last()] =~= input);
    }
}

/// A disabled escape forwards everything.
pub proof fn law_disabled_forwards_everything(p: EscapeParser, input: Seq<u8>)
    requires
        p.mode == EscapeMode::Disabled,
    ensures
        p.fed(input) == (Fed { parser: p, forward: input, escape: Escape::Continue }),
    decreases input.len(),
{
    if input.len() == 0 {
        assert(input =~= Seq::<u8>::empty());
    } else {
        law_disabled_forwards_everything(p, input.drop_last());
        assert(input.drop_last() + seq![input.last()] =~= input);
    }
}

// What feeding does, in terms of what was fed and what came out.

/// What one keystroke does. Without an escape it is forwarded. Otherwise the prefix,
/// `0x1c`, is held back until the next keystroke decides: `d` detaches, and neither is
/// forwarded; the prefix again is forwarded once; any other is forwarded behind the prefix.
/// A keystroke that no prefix is waiting for is forwarded.
pub proof fn law_keystroke(
    parser: &mut EscapeParser,
    input: &[u8],
    forward: &mut Vec<u8>,
    escape: Escape,
)
    requires
        input@.len() == 1,
        call_ensures(EscapeParser::feed, (parser, input, forward), escape),
    ensures
        ({
            let key = input@[0];
            let sent = final(forward)@.skip(old(forward)@.len() as int);
            let on = old(parser).mode is CtrlBackslash;
            let held = old(parser).prefix_pending;
            &&& final(parser).mode == old(parser).mode
            &&& old(forward)@.is_prefix_of(final(forward)@)
            &&& escape is Detach <==> on && held && key == 0x64
            &&& !on ==> sent =~= seq![key] && *final(parser) == *old(parser)
            &&& on && held && key == 0x64 ==> sent.len() == 0
            &&& on && held && key == 0x1c ==> sent =~= seq![0x1cu8]
            &&& on && held && key != 0x64 && key != 0x1c ==> sent =~= seq![0x1cu8, key]
            &&& on && !held && key == 0x1c ==> sent.len() == 0
            &&& on && !held && key != 0x1c ==> sent =~= seq![key]
            &&& on ==> (final(parser).prefix_pending <==> !held && key == 0x1c)
        }),
{
    assert(input@.drop_last() =~= Seq::<u8>::empty());
    let head = old(parser).fed(Seq::empty());
    assert(head.parser == *old(parser));
    let last = old(parser).step(input@[0]);
    assert(head.forward + last.forward =~= last.forward);
    let sent = final(forward)@.skip(old(forward)@.len() as int);
    assert(sent =~= last.forward);
    assert(final(forward)@.take(old(forward)@.len() as int) =~= old(forward)@);
}

/// Reads are taken one behind the other: what comes of two of them is what comes of both in
/// one, and once the client detaches nothing that follows is looked at.
pub proof fn law_reads_are_taken_in_order(
    first: &mut EscapeParser,
    second: &mut EscapeParser,
    whole: &mut EscapeParser,
    a: &[u8],
    b: &[u8],
    both: &[u8],
    forward: &mut Vec<u8>,
    more: &mut Vec<u8>,
    all: &mut Vec<u8>,
    detached: Escape,
    after: Escape,
    at_once: Escape,
)
    requires
        both@ == a@ + b@,
        *old(whole) == *old(first),
        *old(second) == *final(first),
        old(all)@ == old(forward)@,
        old(more)@ == final(forward)@,
        call_ensures(EscapeParser::feed, (first, a, forward), detached),
        call_ensures(EscapeParser::feed, (second, b, more), after),
        call_ensures(EscapeParser::feed, (whole, both, all), at_once),
    ensures
        detached is Detach ==> at_once is Detach && final(all)@ == final(forward)@,
        detached is Continue ==> at_once == after && final(all)@ =~= final(more)@ && *final(whole)
            == *final(second),
{
    law_chunking_never_changes_the_result(*old(first), a@, b@);
}

/// A parser starts with no prefix held back.
pub proof fn law_new_parser_holds_nothing(mode: EscapeMode, parser: EscapeParser)
    requires
        call_ensures(EscapeParser::new, (mode,), parser),
    ensures
        parser.mode == mode && !parser.prefix_pending,
{
}

} // verus!
