//! The detach escape.

use tendr::attach_escape::{Escape, EscapeMode, EscapeParser, DETACH_KEY, PREFIX};

fn run(mode: EscapeMode, chunks: &[&[u8]]) -> (Vec<u8>, Escape) {
    let mut parser = EscapeParser::new(mode);
    let mut forward = Vec::new();
    for chunk in chunks {
        if parser.feed(chunk, &mut forward) == Escape::Detach {
            return (forward, Escape::Detach);
        }
    }
    (forward, Escape::Continue)
}

#[test]
fn prefix_then_d_detaches_and_forwards_what_came_before() {
    assert_eq!(
        run(EscapeMode::CtrlBackslash, &[b"ls\r\x1cd"]),
        (b"ls\r".to_vec(), Escape::Detach)
    );
}

#[test]
fn bytes_after_the_detach_key_are_discarded() {
    assert_eq!(
        run(EscapeMode::CtrlBackslash, &[b"a\x1cdrm -rf\r"]),
        (b"a".to_vec(), Escape::Detach)
    );
}

#[test]
fn a_doubled_prefix_forwards_one_literal_prefix() {
    assert_eq!(
        run(EscapeMode::CtrlBackslash, &[b"A\x1c\x1cB"]),
        (b"A\x1cB".to_vec(), Escape::Continue)
    );
}

#[test]
fn prefix_then_another_key_forwards_both_unchanged() {
    assert_eq!(
        run(EscapeMode::CtrlBackslash, &[b"\x1cx\x1c\r"]),
        (b"\x1cx\x1c\r".to_vec(), Escape::Continue)
    );
}

#[test]
fn ctrl_right_bracket_passes_through() {
    // Alone, Ctrl-] is an ordinary byte: nothing about it is special to
    // the parser.
    assert_eq!(
        run(EscapeMode::CtrlBackslash, &[b"\x1d"]),
        (b"\x1d".to_vec(), Escape::Continue)
    );

    // As the byte that resolves a pending prefix, it is just an "other"
    // key: both bytes forward unchanged.
    assert_eq!(
        run(EscapeMode::CtrlBackslash, &[b"\x1c\x1d"]),
        (b"\x1c\x1d".to_vec(), Escape::Continue)
    );

    // Right after that resolution, a further Ctrl-] still passes
    // through untouched: no state leaks from the resolved prefix.
    assert_eq!(
        run(EscapeMode::CtrlBackslash, &[b"\x1c\x1d\x1d"]),
        (b"\x1c\x1d\x1d".to_vec(), Escape::Continue)
    );
}

#[test]
fn a_prefix_split_across_reads_is_held_then_decided() {
    assert_eq!(
        run(EscapeMode::CtrlBackslash, &[b"abc\x1c", b"d"]),
        (b"abc".to_vec(), Escape::Detach)
    );
    assert_eq!(
        run(EscapeMode::CtrlBackslash, &[b"abc\x1c", b"\x1c", b"q"]),
        (b"abc\x1cq".to_vec(), Escape::Continue)
    );
    let mut parser = EscapeParser::new(EscapeMode::CtrlBackslash);
    let mut forward = Vec::new();
    assert_eq!(parser.feed(b"z\x1c", &mut forward), Escape::Continue);
    assert_eq!(
        forward, b"z",
        "a trailing prefix is held, not forwarded yet"
    );
}

#[test]
fn disabled_escape_forwards_everything() {
    assert_eq!(
        run(EscapeMode::Disabled, &[b"\x1cd\x1c\x1c"]),
        (b"\x1cd\x1c\x1c".to_vec(), Escape::Continue)
    );
}

/// A small generator, so that many inputs are tried without chance.
fn pseudo_random(seed: &mut u64) -> u64 {
    *seed = seed
        .wrapping_mul(6_364_136_223_846_793_005)
        .wrapping_add(1_442_695_040_888_963_407);
    *seed >> 33
}

#[test]
fn keystrokes_without_the_prefix_pass_through_unchanged() {
    let mut seed = 7;
    for _ in 0..200 {
        let mut chunks: Vec<Vec<u8>> = Vec::new();
        for _ in 0..pseudo_random(&mut seed) % 16 {
            let mut chunk = Vec::new();
            for _ in 0..pseudo_random(&mut seed) % 64 {
                let byte = (pseudo_random(&mut seed) % 256) as u8;
                if byte != PREFIX {
                    chunk.push(byte);
                }
            }
            chunks.push(chunk);
        }
        let slices: Vec<&[u8]> = chunks.iter().map(|c| c.as_slice()).collect();
        let (forward, escape) = run(EscapeMode::CtrlBackslash, &slices);
        assert_eq!(escape, Escape::Continue);
        assert_eq!(forward, chunks.concat());
    }
}

#[test]
fn chunking_never_changes_the_result() {
    let mut seed = 11;
    for _ in 0..500 {
        let mut bytes = Vec::new();
        for _ in 0..pseudo_random(&mut seed) % 24 {
            bytes.push(match pseudo_random(&mut seed) % 3 {
                0 => PREFIX,
                1 => DETACH_KEY,
                _ => (pseudo_random(&mut seed) % 256) as u8,
            });
        }
        let whole = run(EscapeMode::CtrlBackslash, &[&bytes]);
        for at in 0..=bytes.len() {
            let parts = run(EscapeMode::CtrlBackslash, &[&bytes[..at], &bytes[at..]]);
            assert_eq!(whole, parts);
        }
    }
}
