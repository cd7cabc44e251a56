//! Finds terminal queries and mode changes in output bytes.

use crate::recording::Sequence;
use vstd::prelude::*;
use vstd::slice::{slice_subrange, slice_to_vec};

verus! {

/// The most bytes of one escape sequence the scanner keeps for classification.
pub const MAX_SEQUENCE: usize = 256;

pub const ESC: u8 = 0x1b;

pub const BEL: u8 = 0x07;

pub const CAN: u8 = 0x18;

pub const SUB: u8 = 0x1a;

pub const DEL: u8 = 0x7f;

pub const BACKSLASH: u8 = 0x5c;

pub const SEMICOLON: u8 = 0x3b;

pub const COMMA: u8 = 0x2c;

/// A terminal query or mode change worth finding in a recording.
#[derive(Clone, Copy, Debug, PartialEq, Eq, Structural)]
pub enum Marker {
    Da1Query,
    Da2Query,
    CursorPositionQuery,
    StatusQuery,
    ModeQuery,
    KittyKeyboardQuery,
    KittyKeyboardPush,
    KittyKeyboardPop,
    KittyKeyboardSet,
    ForegroundColourQuery,
    BackgroundColourQuery,
    XtversionQuery,
    KittyGraphicsQuery,
    AltScreen(bool),
    BracketedPaste(bool),
    /// XTMODKEYS `modifyOtherKeys`: the level set, `None` for one above 3.
    ModifyOtherKeys(Option<u8>),
    ModifyOtherKeysReset,
    ModifyOtherKeysOff,
}

impl Marker {
    /// The name of a marker in a dump.
    pub open spec fn label_text(self) -> Seq<char> {
        match self {
            Marker::Da1Query => "query:da1"@,
            Marker::Da2Query => "query:da2"@,
            Marker::CursorPositionQuery => "query:dsr-cpr"@,
            Marker::StatusQuery => "query:dsr-status"@,
            Marker::ModeQuery => "query:decrqm"@,
            Marker::KittyKeyboardQuery => "query:kitty-keyboard"@,
            Marker::KittyKeyboardPush => "mode:kitty-keyboard-push"@,
            Marker::KittyKeyboardPop => "mode:kitty-keyboard-pop"@,
            Marker::KittyKeyboardSet => "mode:kitty-keyboard-set"@,
            Marker::ForegroundColourQuery => "query:osc10"@,
            Marker::BackgroundColourQuery => "query:osc11"@,
            Marker::XtversionQuery => "query:xtversion"@,
            Marker::KittyGraphicsQuery => "query:kitty-graphics"@,
            Marker::AltScreen(true) => "mode:alt-screen-on"@,
            Marker::AltScreen(false) => "mode:alt-screen-off"@,
            Marker::BracketedPaste(true) => "mode:bracketed-paste-on"@,
            Marker::BracketedPaste(false) => "mode:bracketed-paste-off"@,
            Marker::ModifyOtherKeys(Some(0)) => "mode:modify-other-keys=0"@,
            Marker::ModifyOtherKeys(Some(1)) => "mode:modify-other-keys=1"@,
            Marker::ModifyOtherKeys(Some(2)) => "mode:modify-other-keys=2"@,
            Marker::ModifyOtherKeys(Some(3)) => "mode:modify-other-keys=3"@,
            Marker::ModifyOtherKeys(_) => "mode:modify-other-keys"@,
            Marker::ModifyOtherKeysReset => "mode:modify-other-keys=reset"@,
            Marker::ModifyOtherKeysOff => "mode:modify-other-keys=off"@,
        }
    }

    /// The name of the marker in a dump.
    pub fn label(self) -> (label: &'static str)
        ensures
            label@ == self.label_text(),
    {
        match self {
            Marker::Da1Query => "query:da1",
            Marker::Da2Query => "query:da2",
            Marker::CursorPositionQuery => "query:dsr-cpr",
            Marker::StatusQuery => "query:dsr-status",
            Marker::ModeQuery => "query:decrqm",
            Marker::KittyKeyboardQuery => "query:kitty-keyboard",
            Marker::KittyKeyboardPush => "mode:kitty-keyboard-push",
            Marker::KittyKeyboardPop => "mode:kitty-keyboard-pop",
            Marker::KittyKeyboardSet => "mode:kitty-keyboard-set",
            Marker::ForegroundColourQuery => "query:osc10",
            Marker::BackgroundColourQuery => "query:osc11",
            Marker::XtversionQuery => "query:xtversion",
            Marker::KittyGraphicsQuery => "query:kitty-graphics",
            Marker::AltScreen(true) => "mode:alt-screen-on",
            Marker::AltScreen(false) => "mode:alt-screen-off",
            Marker::BracketedPaste(true) => "mode:bracketed-paste-on",
            Marker::BracketedPaste(false) => "mode:bracketed-paste-off",
            Marker::ModifyOtherKeys(Some(0)) => "mode:modify-other-keys=0",
            Marker::ModifyOtherKeys(Some(1)) => "mode:modify-other-keys=1",
            Marker::ModifyOtherKeys(Some(2)) => "mode:modify-other-keys=2",
            Marker::ModifyOtherKeys(Some(3)) => "mode:modify-other-keys=3",
            Marker::ModifyOtherKeys(_) => "mode:modify-other-keys",
            Marker::ModifyOtherKeysReset => "mode:modify-other-keys=reset",
            Marker::ModifyOtherKeysOff => "mode:modify-other-keys=off",
        }
    }
}

// Numbers and fields in byte strings.

pub open spec fn is_digit(b: u8) -> bool {
    0x30 <= b <= 0x39
}

/// Nothing but digits.
pub open spec fn numeric(s: Seq<u8>) -> bool {
    forall|i: int| 0 <= i < s.len() ==> is_digit(#[trigger] s[i])
}

/// The value of a string of digits.
pub open spec fn number(s: Seq<u8>) -> nat
    decreases s.len(),
{
    if s.len() == 0 {
        0
    } else {
        (number(s.drop_last()) * 10 + (s.last() - 0x30)) as nat
    }
}

/// The parts of `s` between the bytes `sep`; at least one.
pub open spec fn fields(s: Seq<u8>, sep: u8) -> Seq<Seq<u8>>
    decreases s.len(),
{
    if s.len() == 0 {
        seq![Seq::empty()]
    } else {
        let head = fields(s.drop_last(), sep);
        if s.last() == sep {
            head.push(Seq::empty())
        } else {
            head.drop_last().push(head.last().push(s.last()))
        }
    }
}

proof fn lemma_fields_nonempty(s: Seq<u8>, sep: u8)
    ensures
        fields(s, sep).len() >= 1,
    decreases s.len(),
{
    if s.len() > 0 {
        lemma_fields_nonempty(s.drop_last(), sep);
    }
}

pub open spec fn byte_strings(parts: Seq<Vec<u8>>) -> Seq<Seq<u8>> {
    Seq::new(parts.len(), |i: int| parts[i]@)
}

/// `a` and `b` hold the same bytes.
pub fn same_bytes(a: &[u8], b: &[u8]) -> (same: bool)
    ensures
        same == (a@ == b@),
{
    if a.len() != b.len() {
        return false;
    }
    let mut i: usize = 0;
    while i < a.len()
        invariant
            i <= a@.len(),
            a@.len() == b@.len(),
            forall|j: int| 0 <= j < i ==> a@[j] == b@[j],
        decreases a@.len() - i,
    {
        if a[i] != b[i] {
            return false;
        }
        i = i + 1;
    }
    assert(a@ =~= b@);
    true
}

/// Whether `bytes` holds nothing but digits.
pub fn is_number(bytes: &[u8]) -> (all: bool)
    ensures
        all == numeric(bytes@),
{
    let mut i: usize = 0;
    while i < bytes.len()
        invariant
            i <= bytes@.len(),
            forall|j: int| 0 <= j < i ==> is_digit(#[trigger] bytes@[j]),
        decreases bytes@.len() - i,
    {
        if bytes[i] < 0x30 || bytes[i] > 0x39 {
            assert(!is_digit(bytes@[i as int]));
            return false;
        }
        i = i + 1;
    }
    true
}

/// The parts of `bytes` between the bytes `sep`.
pub fn split_fields(bytes: &[u8], sep: u8) -> (parts: Vec<Vec<u8>>)
    ensures
        byte_strings(parts@) == fields(bytes@, sep),
        parts@.len() >= 1,
{
    let mut parts: Vec<Vec<u8>> = Vec::new();
    let mut current: Vec<u8> = Vec::new();
    let mut i: usize = 0;
    assert(bytes@.take(0) =~= Seq::<u8>::empty());
    assert(byte_strings(parts@).push(current@) =~= fields(bytes@.take(0), sep));
    while i < bytes.len()
        invariant
            i <= bytes@.len(),
            byte_strings(parts@).push(current@) == fields(bytes@.take(i as int), sep),
        decreases bytes@.len() - i,
    {
        let b: u8 = bytes[i];
        let ghost before = byte_strings(parts@);
        let ghost part = current@;
        proof {
            assert(bytes@.take(i + 1).drop_last() =~= bytes@.take(i as int));
            assert(before.push(part).drop_last() =~= before);
        }
        if b == sep {
            parts.push(current);
            current = Vec::new();
            assert(byte_strings(parts@) =~= before.push(part));
        } else {
            current.push(b);
        }
        i = i + 1;
        assert(byte_strings(parts@).push(current@) =~= fields(bytes@.take(i as int), sep));
    }
    assert(bytes@.take(i as int) =~= bytes@);
    let ghost before = byte_strings(parts@);
    let ghost part = current@;
    parts.push(current);
    assert(byte_strings(parts@) =~= before.push(part));
    parts
}

/// The value of a string of digits, where it is at most `cap`.
fn small_number(bytes: &[u8], cap: u32) -> (value: Option<u32>)
    requires
        numeric(bytes@),
        cap < 100_000,
    ensures
        value == (if number(bytes@) <= cap {
            Some(number(bytes@) as u32)
        } else {
            None::<u32>
        }),
{
    let mut value: u32 = 0;
    let mut over = false;
    let mut i: usize = 0;
    assert(bytes@.take(0) =~= Seq::<u8>::empty());
    while i < bytes.len()
        invariant
            i <= bytes@.len(),
            numeric(bytes@),
            cap < 100_000,
            over <==> number(bytes@.take(i as int)) > cap,
            !over ==> value == number(bytes@.take(i as int)),
            value <= cap,
        decreases bytes@.len() - i,
    {
        assert(is_digit(bytes@[i as int]));
        assert(bytes@.take(i + 1).drop_last() =~= bytes@.take(i as int));
        let digit: u32 = (bytes[i] - 0x30) as u32;
        if !over {
            let next: u32 = value * 10 + digit;
            if next > cap {
                over = true;
            } else {
                value = next;
            }
        }
        i = i + 1;
    }
    assert(bytes@.take(i as int) =~= bytes@);
    if over {
        None
    } else {
        Some(value)
    }
}

// What a complete sequence is.

/// An intermediate byte of a CSI.
pub open spec fn intermediate(b: u8) -> bool {
    0x20 <= b <= 0x2f
}

/// The place of the first intermediate byte, or the length where there is none.
pub open spec fn first_intermediate(s: Seq<u8>) -> nat
    decreases s.len(),
{
    if s.len() == 0 {
        0
    } else {
        let k = first_intermediate(s.drop_last());
        if k < s.len() - 1 || intermediate(s.last()) {
            k
        } else {
            s.len()
        }
    }
}

proof fn lemma_first_intermediate(s: Seq<u8>)
    ensures
        first_intermediate(s) <= s.len(),
        forall|i: int| 0 <= i < first_intermediate(s) ==> !intermediate(#[trigger] s[i]),
        first_intermediate(s) < s.len() ==> intermediate(s[first_intermediate(s) as int]),
    decreases s.len(),
{
    if s.len() > 0 {
        lemma_first_intermediate(s.drop_last());
        assert forall|i: int| 0 <= i < first_intermediate(s) implies !intermediate(
            #[trigger] s[i],
        ) by {
            if i < s.len() - 1 {
                assert(s.drop_last()[i] == s[i]);
            }
        }
    }
}

/// The alternate-screen and bracketed-paste changes among private modes.
pub open spec fn mode_markers(modes: Seq<Seq<u8>>, set: bool) -> Seq<Marker>
    decreases modes.len(),
{
    if modes.len() == 0 {
        Seq::empty()
    } else {
        let head = mode_markers(modes.drop_last(), set);
        if modes.last() == seq![0x31u8, 0x30, 0x34, 0x39] {
            head.push(Marker::AltScreen(set))
        } else if modes.last() == seq![0x32u8, 0x30, 0x30, 0x34] {
            head.push(Marker::BracketedPaste(set))
        } else {
            head
        }
    }
}

/// The level of `modifyOtherKeys`; `None` above 3.
pub open spec fn key_level(level: Seq<u8>) -> Option<u8> {
    if number(level) <= 3 {
        Some(number(level) as u8)
    } else {
        None
    }
}

/// The markers of a CSI without intermediate bytes.
pub open spec fn plain_csi_markers(final_byte: u8, params: Seq<u8>) -> Seq<Marker> {
    // `c`
    if final_byte == 0x63 && (params == Seq::<u8>::empty() || params == seq![0x30u8]) {
        seq![Marker::Da1Query]
    } else if final_byte == 0x63 && (params == seq![0x3eu8] || params == seq![0x3eu8, 0x30]) {
        seq![Marker::Da2Query]
    } else if final_byte == 0x6e && params == seq![0x36u8] {
        // `n`
        seq![Marker::CursorPositionQuery]
    } else if final_byte == 0x6e && params == seq![0x35u8] {
        seq![Marker::StatusQuery]
    } else if final_byte == 0x6e && params == seq![0x3eu8, 0x34] {
        seq![Marker::ModifyOtherKeysOff]
    } else if final_byte == 0x6d && (params == seq![0x3eu8] || params == seq![0x3eu8, 0x34]
        || params == seq![0x3eu8, 0x34, 0x3b]) {
        // `m`
        seq![Marker::ModifyOtherKeysReset]
    } else if final_byte == 0x6d && params.len() >= 3 && params.take(3) == seq![0x3eu8, 0x34, 0x3b]
        && numeric(params.skip(3)) {
        seq![Marker::ModifyOtherKeys(key_level(params.skip(3)))]
    } else if final_byte == 0x75 && params == seq![0x3fu8] {
        // `u`
        seq![Marker::KittyKeyboardQuery]
    } else if final_byte == 0x75 && params.len() >= 1 && params[0] == 0x3e && numeric(
        params.skip(1),
    ) {
        seq![Marker::KittyKeyboardPush]
    } else if final_byte == 0x75 && params.len() >= 1 && params[0] == 0x3c && numeric(
        params.skip(1),
    ) {
        seq![Marker::KittyKeyboardPop]
    } else if final_byte == 0x75 && params.len() >= 2 && params[0] == 0x3d && all_numeric(
        fields(params.skip(1), SEMICOLON),
    ) {
        seq![Marker::KittyKeyboardSet]
    } else if final_byte == 0x71 && (params == seq![0x3eu8] || params == seq![0x3eu8, 0x30]) {
        // `q`
        seq![Marker::XtversionQuery]
    } else if (final_byte == 0x68 || final_byte == 0x6c) && params.len() >= 1 && params[0]
        == 0x3f {
        // `h` and `l`
        mode_markers(fields(params.skip(1), SEMICOLON), final_byte == 0x68)
    } else {
        Seq::empty()
    }
}

pub open spec fn all_numeric(parts: Seq<Seq<u8>>) -> bool {
    forall|i: int| 0 <= i < parts.len() ==> numeric(#[trigger] parts[i])
}

/// The mode that DECRQM asks about: its parameters without a leading `?`.
pub open spec fn queried_mode(params: Seq<u8>) -> Seq<u8> {
    if params.len() >= 1 && params[0] == 0x3f {
        params.skip(1)
    } else {
        params
    }
}

/// The markers of a complete CSI, given the bytes behind `ESC [`: parameters,
/// then intermediate bytes, which make a different function, then the final
/// byte.
pub open spec fn csi_markers_of(body: Seq<u8>) -> Seq<Marker> {
    let rest = body.drop_last();
    let split = first_intermediate(rest) as int;
    let params = rest.take(split);
    let intermediates = rest.skip(split);
    if body.len() == 0 || !(forall|i: int|
        0 <= i < intermediates.len() ==> intermediate(#[trigger] intermediates[i])) {
        Seq::empty()
    } else if body.last() == 0x70 && intermediates == seq![0x24u8] {
        if queried_mode(params).len() > 0 && numeric(queried_mode(params)) {
            seq![Marker::ModeQuery]
        } else {
            Seq::empty()
        }
    } else if intermediates.len() > 0 {
        Seq::empty()
    } else {
        plain_csi_markers(body.last(), params)
    }
}

/// The markers of a complete APC, given its payload. A kitty graphics command is
/// `G`, comma-separated `key=value` control data, then optionally `;` and a
/// payload; `a=q` makes it a query.
pub open spec fn apc_markers_of(payload: Seq<u8>) -> Seq<Marker> {
    if payload.len() >= 1 && payload[0] == 0x47 && fields(
        fields(payload.skip(1), SEMICOLON)[0],
        COMMA,
    ).contains(seq![0x61u8, 0x3d, 0x71]) {
        seq![Marker::KittyGraphicsQuery]
    } else {
        Seq::empty()
    }
}

/// The colour queries among `parts`, the first of which is about colour `first`.
pub open spec fn colour_markers(first: nat, parts: Seq<Seq<u8>>) -> Seq<Marker>
    decreases parts.len(),
{
    if parts.len() == 0 {
        Seq::empty()
    } else {
        let head = colour_markers(first, parts.drop_last());
        let colour = first + parts.len() - 1;
        if parts.last() != seq![0x3fu8] {
            head
        } else if colour == 10 {
            head.push(Marker::ForegroundColourQuery)
        } else if colour == 11 {
            head.push(Marker::BackgroundColourQuery)
        } else {
            head
        }
    }
}

/// The markers of a complete OSC, given its payload: `Ps ; ? ; ? …` queries
/// colour `Ps`, then `Ps + 1`, and so on.
pub open spec fn osc_markers_of(payload: Seq<u8>) -> Seq<Marker> {
    let parts = fields(payload, SEMICOLON);
    let ps = parts[0];
    if 1 <= ps.len() <= 3 && numeric(ps) {
        colour_markers(number(ps), parts.skip(1))
    } else {
        Seq::empty()
    }
}

/// Whether `bytes` is the one byte `only`.
fn is_byte(bytes: &[u8], only: u8) -> (same: bool)
    ensures
        same == (bytes@ == seq![only]),
{
    let same = bytes.len() == 1 && bytes[0] == only;
    assert(same ==> bytes@ =~= seq![only]);
    assert(bytes@ == seq![only] ==> seq![only][0] == only);
    same
}

/// Whether `bytes` starts with `first`.
fn starts_with(bytes: &[u8], first: u8) -> (starts: bool)
    ensures
        starts == (bytes@.len() >= 1 && bytes@[0] == first),
{
    bytes.len() >= 1 && bytes[0] == first
}

/// `bytes` without its first `n` bytes.
fn skip(bytes: &[u8], n: usize) -> (rest: &[u8])
    requires
        n <= bytes@.len(),
    ensures
        rest@ == bytes@.skip(n as int),
{
    let rest = slice_subrange(bytes, n, bytes.len());
    assert(rest@ =~= bytes@.skip(n as int));
    rest
}

fn private_modes(modes: &[u8], set: bool) -> (markers: Vec<Marker>)
    ensures
        markers@ == mode_markers(fields(modes@, SEMICOLON), set),
{
    let parts = split_fields(modes, SEMICOLON);
    let ghost all = byte_strings(parts@);
    let mut markers: Vec<Marker> = Vec::new();
    let mut i: usize = 0;
    assert(all.take(0) =~= Seq::<Seq<u8>>::empty());
    while i < parts.len()
        invariant
            i <= parts@.len(),
            all == byte_strings(parts@),
            markers@ == mode_markers(all.take(i as int), set),
        decreases parts@.len() - i,
    {
        proof {
            assert(all.take(i + 1).drop_last() =~= all.take(i as int));
            assert(all.take(i + 1).last() == parts@[i as int]@);
        }
        if same_bytes(parts[i].as_slice(), &[0x31, 0x30, 0x34, 0x39]) {
            markers.push(Marker::AltScreen(set));
        } else if same_bytes(parts[i].as_slice(), &[0x32, 0x30, 0x30, 0x34]) {
            markers.push(Marker::BracketedPaste(set));
        }
        i = i + 1;
    }
    assert(all.take(i as int) =~= all);
    markers
}

fn are_numbers(bytes: &[u8]) -> (all: bool)
    ensures
        all == all_numeric(fields(bytes@, SEMICOLON)),
{
    let parts = split_fields(bytes, SEMICOLON);
    let ghost strings = byte_strings(parts@);
    let mut i: usize = 0;
    while i < parts.len()
        invariant
            i <= parts@.len(),
            strings == byte_strings(parts@),
            strings == fields(bytes@, SEMICOLON),
            forall|j: int| 0 <= j < i ==> numeric(#[trigger] strings[j]),
        decreases parts@.len() - i,
    {
        assert(strings[i as int] == parts@[i as int]@);
        if !is_number(parts[i].as_slice()) {
            return false;
        }
        i = i + 1;
    }
    true
}

/// The markers of a CSI without intermediate bytes.
fn plain_csi(final_byte: u8, params: &[u8]) -> (markers: Vec<Marker>)
    ensures
        markers@ == plain_csi_markers(final_byte, params@),
{
    let bare = params.len() == 0;
    let markers = if final_byte == 0x63 && (bare || is_byte(params, 0x30)) {
        assert(bare ==> params@ =~= Seq::<u8>::empty());
        vec![Marker::Da1Query]
    } else if final_byte == 0x63 && (is_byte(params, 0x3e) || same_bytes(
        params,
        &[0x3e, 0x30],
    )) {
        vec![Marker::Da2Query]
    } else if final_byte == 0x6e && is_byte(params, 0x36) {
        vec![Marker::CursorPositionQuery]
    } else if final_byte == 0x6e && is_byte(params, 0x35) {
        vec![Marker::StatusQuery]
    } else if final_byte == 0x6e && same_bytes(params, &[0x3e, 0x34]) {
        vec![Marker::ModifyOtherKeysOff]
    } else if final_byte == 0x6d && (is_byte(params, 0x3e) || same_bytes(
        params,
        &[0x3e, 0x34],
    ) || same_bytes(params, &[0x3e, 0x34, 0x3b])) {
        vec![Marker::ModifyOtherKeysReset]
    } else if final_byte == 0x6d && params.len() >= 3 && same_bytes(
        slice_subrange(params, 0, 3),
        &[0x3e, 0x34, 0x3b],
    ) && is_number(skip(params, 3)) {
        let level: Option<u8> = match small_number(skip(params, 3), 3) {
            Some(level) => Some(level as u8),
            None => None,
        };
        assert(level == key_level(params@.skip(3)));
        vec![Marker::ModifyOtherKeys(level)]
    } else if final_byte == 0x75 && is_byte(params, 0x3f) {
        vec![Marker::KittyKeyboardQuery]
    } else if final_byte == 0x75 && starts_with(params, 0x3e) && is_number(skip(params, 1)) {
        vec![Marker::KittyKeyboardPush]
    } else if final_byte == 0x75 && starts_with(params, 0x3c) && is_number(skip(params, 1)) {
        vec![Marker::KittyKeyboardPop]
    } else if final_byte == 0x75 && params.len() >= 2 && starts_with(params, 0x3d) && are_numbers(
        skip(params, 1),
    ) {
        vec![Marker::KittyKeyboardSet]
    } else if final_byte == 0x71 && (is_byte(params, 0x3e) || same_bytes(
        params,
        &[0x3e, 0x30],
    )) {
        vec![Marker::XtversionQuery]
    } else if (final_byte == 0x68 || final_byte == 0x6c) && starts_with(params, 0x3f) {
        private_modes(skip(params, 1), final_byte == 0x68)
    } else {
        Vec::new()
    };
    assert(markers@ =~= plain_csi_markers(final_byte, params@));
    markers
}

/// Markers for a complete CSI, given the bytes after `ESC [`.
pub fn csi_markers(body: &[u8]) -> (markers: Vec<Marker>)
    ensures
        markers@ == csi_markers_of(body@),
{
    if body.len() == 0 {
        return Vec::new();
    }
    let last: usize = body.len() - 1;
    let final_byte: u8 = body[last];
    let rest = slice_subrange(body, 0, last);
    assert(rest@ =~= body@.drop_last());
    proof {
        lemma_first_intermediate(rest@);
    }
    let mut split: usize = 0;
    while split < rest.len() && !(0x20 <= rest[split] && rest[split] <= 0x2f)
        invariant
            split <= rest@.len(),
            forall|j: int| 0 <= j < split ==> !intermediate(#[trigger] rest@[j]),
        decreases rest@.len() - split,
    {
        split = split + 1;
    }
    proof {
        let k = first_intermediate(rest@) as int;
        if k < split {
            assert(!intermediate(rest@[k]));
        }
        assert(k == split);
    }
    let params = slice_subrange(rest, 0, split);
    let intermediates = skip(rest, split);
    assert(params@ =~= rest@.take(split as int));
    let mut i: usize = 0;
    while i < intermediates.len()
        invariant
            i <= intermediates@.len(),
            forall|j: int| 0 <= j < i ==> intermediate(#[trigger] intermediates@[j]),
            body@.len() > 0,
            rest@ == body@.drop_last(),
            split == first_intermediate(rest@),
            intermediates@ == rest@.skip(split as int),
        decreases intermediates@.len() - i,
    {
        if intermediates[i] < 0x20 || 0x2f < intermediates[i] {
            assert(!intermediate(intermediates@[i as int]));
            return Vec::new();
        }
        i = i + 1;
    }
    let dollar = is_byte(intermediates, 0x24);
    if final_byte == 0x70 && dollar {
        let mode = if starts_with(params, 0x3f) {
            skip(params, 1)
        } else {
            params
        };
        if mode.len() > 0 && is_number(mode) {
            let markers = vec![Marker::ModeQuery];
            assert(markers@ =~= csi_markers_of(body@));
            return markers;
        }
        return Vec::new();
    }
    if intermediates.len() > 0 {
        return Vec::new();
    }
    plain_csi(final_byte, params)
}

/// Markers for a complete APC, given its payload between `ESC _` and the
/// terminator.
pub fn apc_markers(payload: &[u8]) -> (markers: Vec<Marker>)
    ensures
        markers@ == apc_markers_of(payload@),
{
    if !starts_with(payload, 0x47) {
        return Vec::new();
    }
    let parts = split_fields(skip(payload, 1), SEMICOLON);
    assert(byte_strings(parts@)[0] == parts@[0]@);
    let keys = split_fields(parts[0].as_slice(), COMMA);
    let ghost strings = byte_strings(keys@);
    let ghost wanted = seq![0x61u8, 0x3d, 0x71];
    let mut i: usize = 0;
    while i < keys.len()
        invariant
            i <= keys@.len(),
            strings == byte_strings(keys@),
            wanted == seq![0x61u8, 0x3d, 0x71],
            payload@.len() >= 1,
            payload@[0] == 0x47,
            strings == fields(fields(payload@.skip(1), SEMICOLON)[0], COMMA),
            forall|j: int| 0 <= j < i ==> #[trigger] strings[j] != wanted,
        decreases keys@.len() - i,
    {
        assert(strings[i as int] == keys@[i as int]@);
        if same_bytes(keys[i].as_slice(), &[0x61, 0x3d, 0x71]) {
            assert(strings.contains(wanted));
            return vec![Marker::KittyGraphicsQuery];
        }
        i = i + 1;
    }
    Vec::new()
}

/// Markers for a complete OSC, given its payload between `ESC ]` and the
/// terminator.
pub fn osc_markers(payload: &[u8]) -> (markers: Vec<Marker>)
    ensures
        markers@ == osc_markers_of(payload@),
{
    let parts = split_fields(payload, SEMICOLON);
    let ghost all = byte_strings(parts@);
    assert(all[0] == parts@[0]@);
    let ps = parts[0].as_slice();
    if ps.len() == 0 || ps.len() > 3 || !is_number(ps) {
        return Vec::new();
    }
    proof {
        assert(number(ps@) <= 999) by {
            reveal_with_fuel(number, 4);
            assert forall|j: int| 0 <= j < ps@.len() implies is_digit(#[trigger] ps@[j]) by {}
        }
    }
    let first: usize = match small_number(ps, 999) {
        Some(first) => first as usize,
        None => return Vec::new(),
    };
    let ghost rest = all.skip(1);
    let mut markers: Vec<Marker> = Vec::new();
    let mut i: usize = 1;
    assert(rest.take(0) =~= Seq::<Seq<u8>>::empty());
    while i < parts.len()
        invariant
            1 <= i <= parts@.len(),
            all == byte_strings(parts@),
            rest == all.skip(1),
            first <= 999,
            markers@ == colour_markers(first as nat, rest.take(i - 1)),
        decreases parts@.len() - i,
    {
        proof {
            assert(rest.take(i as int).drop_last() =~= rest.take(i - 1));
            assert(rest.take(i as int).last() == parts@[i as int]@);
        }
        let asked = is_byte(parts[i].as_slice(), 0x3f);
        if asked && i <= 12 {
            let colour: usize = first + (i - 1);
            if colour == 10 {
                markers.push(Marker::ForegroundColourQuery);
            } else if colour == 11 {
                markers.push(Marker::BackgroundColourQuery);
            }
        }
        assert(markers@ == colour_markers(first as nat, rest.take(i as int)));
        i = i + 1;
    }
    assert(rest.take(i - 1) =~= rest);
    markers
}

// The scanner.

/// A control string ended by BEL or `ESC \\`.
#[derive(Clone, Copy, Debug, PartialEq, Eq, Structural)]
pub enum StrKind {
    Osc,
    Apc,
}

/// Where in a sequence the scanner is.
pub enum Place {
    Ground,
    /// After `ESC`.
    Escape,
    /// After `ESC [`.
    Csi,
    /// Inside an OSC (after `ESC ]`) or an APC (after `ESC _`).
    Str(StrKind),
    /// After an `ESC` inside an OSC or APC, which is either the start of the
    /// `ESC \\` terminator or a new sequence starting in the given record.
    StrEscape(StrKind, u64),
}

/// What the scanner knows between two bytes.
pub struct ScanModel {
    pub place: Place,
    /// The record holding the current sequence's `ESC`.
    pub start: Option<u64>,
    /// The current sequence from its `ESC`, at most [`MAX_SEQUENCE`] bytes.
    pub bytes: Seq<u8>,
    /// The current sequence is longer than [`MAX_SEQUENCE`].
    pub overflow: bool,
}

/// A flagged sequence: what it is, the record holding its `ESC`, and its bytes.
pub struct FindingModel {
    pub marker: Marker,
    pub start: u64,
    pub bytes: Seq<u8>,
}

impl ScanModel {
    /// Outside of any sequence.
    pub open spec fn ground() -> ScanModel {
        ScanModel { place: Place::Ground, start: None, bytes: Seq::empty(), overflow: false }
    }

    /// Just behind an `ESC` that stands in record `sequence`.
    pub open spec fn begun(sequence: u64) -> ScanModel {
        ScanModel {
            place: Place::Escape,
            start: Some(sequence),
            bytes: seq![ESC],
            overflow: false,
        }
    }

    /// One byte more of the sequence in progress.
    pub open spec fn pushed(self, byte: u8) -> ScanModel {
        if self.bytes.len() < MAX_SEQUENCE {
            ScanModel { bytes: self.bytes.push(byte), ..self }
        } else {
            ScanModel { overflow: true, ..self }
        }
    }

    pub open spec fn at(self, place: Place) -> ScanModel {
        ScanModel { place, ..self }
    }

    /// What is found when the sequence in progress is complete and stands for
    /// `markers`; nothing where it was too long to be kept.
    pub open spec fn findings(self, markers: Seq<Marker>) -> Seq<FindingModel> {
        if self.overflow {
            Seq::empty()
        } else {
            Seq::new(
                markers.len(),
                |i: int|
                    FindingModel { marker: markers[i], start: self.start->0, bytes: self.bytes },
            )
        }
    }

    /// The markers of a complete control string whose terminator is the last
    /// `terminator` bytes.
    pub open spec fn str_markers(self, kind: StrKind, terminator: int) -> Seq<Marker> {
        let payload = self.bytes.subrange(2, self.bytes.len() - terminator);
        match kind {
            StrKind::Osc => osc_markers_of(payload),
            StrKind::Apc => apc_markers_of(payload),
        }
    }

    /// One byte behind `ESC`.
    pub open spec fn escape_step(self, sequence: u64, byte: u8) -> ScanModel {
        if byte == 0x5b {
            self.pushed(byte).at(Place::Csi)
        } else if byte == 0x5d {
            self.pushed(byte).at(Place::Str(StrKind::Osc))
        } else if byte == 0x5f {
            self.pushed(byte).at(Place::Str(StrKind::Apc))
        } else if byte == ESC {
            ScanModel::begun(sequence)
        } else if byte < 0x20 && byte != CAN && byte != SUB {
            // Executed by the terminal without ending the sequence.
            self
        } else {
            ScanModel::ground()
        }
    }

    /// The scanner behind one more byte of record `sequence`, and what that byte
    /// completes.
    pub open spec fn step(self, sequence: u64, byte: u8) -> (ScanModel, Seq<FindingModel>) {
        match self.place {
            Place::Ground => (
                if byte == ESC {
                    ScanModel::begun(sequence)
                } else {
                    self
                },
                Seq::empty(),
            ),
            Place::Escape => (self.escape_step(sequence, byte), Seq::empty()),
            Place::Csi => if byte == ESC {
                (ScanModel::begun(sequence), Seq::empty())
            } else if byte == CAN || byte == SUB || byte > DEL {
                (ScanModel::ground(), Seq::empty())
            } else if byte < 0x20 || byte == DEL {
                // Executed by the terminal without ending the sequence.
                (self, Seq::empty())
            } else if byte < 0x40 {
                (self.pushed(byte), Seq::empty())
            } else {
                let whole = self.pushed(byte);
                (ScanModel::ground(), whole.findings(csi_markers_of(whole.bytes.skip(2))))
            },
            Place::Str(kind) => if byte == BEL {
                let whole = self.pushed(byte);
                (ScanModel::ground(), whole.findings(whole.str_markers(kind, 1)))
            } else if byte == ESC {
                (self.pushed(byte).at(Place::StrEscape(kind, sequence)), Seq::empty())
            } else if byte == CAN || byte == SUB {
                (ScanModel::ground(), Seq::empty())
            } else {
                (self.pushed(byte), Seq::empty())
            },
            Place::StrEscape(kind, escape_at) => if byte == BACKSLASH {
                let whole = self.pushed(byte);
                (ScanModel::ground(), whole.findings(whole.str_markers(kind, 2)))
            } else {
                (ScanModel::begun(escape_at).escape_step(sequence, byte), Seq::empty())
            },
        }
    }

    /// The scanner behind the bytes of record `sequence`, and what they complete.
    pub open spec fn scan(self, sequence: u64, bytes: Seq<u8>) -> (ScanModel, Seq<FindingModel>)
        decreases bytes.len(),
    {
        if bytes.len() == 0 {
            (self, Seq::empty())
        } else {
            let (before, found) = self.scan(sequence, bytes.drop_last());
            let (after, more) = before.step(sequence, bytes.last());
            (after, found + more)
        }
    }

    /// The sequence in progress, if any, and the record it began in.
    pub open spec fn in_progress(self) -> Option<(u64, Seq<u8>)> {
        match self.place {
            Place::Ground => None,
            _ => Some((self.start->0, self.bytes)),
        }
    }

    /// What holds between any two bytes.
    pub open spec fn wf(self) -> bool {
        &&& self.bytes.len() <= MAX_SEQUENCE
        &&& self.overflow ==> self.bytes.len() == MAX_SEQUENCE
        &&& match self.place {
            Place::Ground => self.start is None && self.bytes.len() == 0,
            Place::Escape => self.start is Some && self.bytes.len() == 1,
            Place::Csi => self.start is Some && self.bytes.len() >= 2,
            Place::Str(_) => self.start is Some && self.bytes.len() >= 2,
            Place::StrEscape(_, _) => self.start is Some && self.bytes.len() >= 3,
        }
    }
}

/// A flagged sequence: what it is, the record holding its `ESC`, and its bytes.
#[derive(Clone, Debug, PartialEq, Eq)]
pub struct Finding {
    pub marker: Marker,
    pub start: Sequence,
    pub bytes: Vec<u8>,
}

impl View for Finding {
    type V = FindingModel;

    open spec fn view(&self) -> FindingModel {
        FindingModel { marker: self.marker, start: self.start@, bytes: self.bytes@ }
    }
}

pub open spec fn finding_models(found: Seq<Finding>) -> Seq<FindingModel> {
    Seq::new(found.len(), |i: int| found[i]@)
}

#[derive(Clone, Copy, Debug, PartialEq, Eq)]
enum State {
    Ground,
    Escape,
    Csi,
    Str(StrKind),
    StrEscape(StrKind, Sequence),
}

/// Finds [`Marker`]s in output bytes fed record by record.
#[derive(Debug)]
pub struct Scanner {
    state: State,
    start: Option<Sequence>,
    bytes: Vec<u8>,
    overflow: bool,
}

impl View for Scanner {
    type V = ScanModel;

    closed spec fn view(&self) -> ScanModel {
        ScanModel {
            place: match self.state {
                State::Ground => Place::Ground,
                State::Escape => Place::Escape,
                State::Csi => Place::Csi,
                State::Str(kind) => Place::Str(kind),
                State::StrEscape(kind, at) => Place::StrEscape(kind, at@),
            },
            start: match self.start {
                Some(start) => Some(start@),
                None => None,
            },
            bytes: self.bytes@,
            overflow: self.overflow,
        }
    }
}

impl Scanner {
    pub open spec fn wf(&self) -> bool {
        self@.wf()
    }

    /// A scanner outside of any sequence.
    pub fn new() -> (scanner: Scanner)
        ensures
            scanner.wf(),
            scanner@ == ScanModel::ground(),
    {
        let scanner = Scanner {
            state: State::Ground,
            start: None,
            bytes: Vec::new(),
            overflow: false,
        };
        assert(scanner@.bytes =~= Seq::<u8>::empty());
        scanner
    }

    /// Scans the output bytes of record `sequence` and appends what they complete.
    pub fn feed(&mut self, sequence: Sequence, bytes: &[u8], found: &mut Vec<Finding>)
        requires
            old(self).wf(),
        ensures
            final(self).wf(),
            final(self)@ == old(self)@.scan(sequence@, bytes@).0,
            finding_models(final(found)@) == finding_models(old(found)@) + old(self)@.scan(
                sequence@,
                bytes@,
            ).1,
    {
        let ghost start = self@;
        let ghost before = finding_models(found@);
        let mut i: usize = 0;
        assert(bytes@.take(0) =~= Seq::<u8>::empty());
        assert(finding_models(found@) =~= before + start.scan(sequence@, bytes@.take(0)).1);
        while i < bytes.len()
            invariant
                i <= bytes@.len(),
                self.wf(),
                self@ == start.scan(sequence@, bytes@.take(i as int)).0,
                finding_models(found@) == before + start.scan(sequence@, bytes@.take(i as int)).1,
            decreases bytes@.len() - i,
        {
            assert(bytes@.take(i + 1).drop_last() =~= bytes@.take(i as int));
            self.step(sequence, bytes[i], found);
            i = i + 1;
            assert(finding_models(found@) =~= before + start.scan(
                sequence@,
                bytes@.take(i as int),
            ).1);
        }
        assert(bytes@.take(i as int) =~= bytes@);
    }

    /// The sequence in progress, if any, and the record it began in.
    pub fn unfinished(&self) -> (progress: Option<(Sequence, &[u8])>)
        requires
            self.wf(),
        ensures
            match self@.in_progress() {
                Some((start, bytes)) => progress matches Some((s, b)) && s@ == start && b@ == bytes,
                None => progress is None,
            },
    {
        match self.state {
            State::Ground => None,
            _ => match self.start {
                Some(start) => Some((start, self.bytes.as_slice())),
                None => None,
            },
        }
    }

    /// Whether the sequence in progress is longer than what is kept of it.
    pub fn overflowed(&self) -> (overflow: bool)
        ensures
            overflow == self@.overflow,
    {
        self.overflow
    }

    /// Takes one byte of record `sequence`.
    pub fn step(&mut self, sequence: Sequence, byte: u8, found: &mut Vec<Finding>)
        requires
            old(self).wf(),
        ensures
            final(self).wf(),
            final(self)@ == old(self)@.step(sequence@, byte).0,
            finding_models(final(found)@) == finding_models(old(found)@) + old(self)@.step(
                sequence@,
                byte,
            ).1,
    {
        assert(finding_models(found@) =~= finding_models(found@) + Seq::<FindingModel>::empty());
        match self.state {
            State::Ground => {
                if byte == ESC {
                    self.begin(sequence);
                }
            },
            State::Escape => {
                self.step_escape(sequence, byte);
            },
            State::Csi => {
                if byte == ESC {
                    self.begin(sequence);
                } else if byte == CAN || byte == SUB || byte > DEL {
                    self.reset();
                } else if byte < 0x20 || byte == DEL {
                } else if byte < 0x40 {
                    self.push(byte);
                } else {
                    self.push(byte);
                    if !self.overflow {
                        let markers = csi_markers(skip(self.bytes.as_slice(), 2));
                        self.found(&markers, found);
                    }
                    self.reset();
                }
            },
            State::Str(kind) => {
                if byte == BEL {
                    self.push(byte);
                    self.str_end(kind, 1, found);
                } else if byte == ESC {
                    self.push(byte);
                    self.state = State::StrEscape(kind, sequence);
                } else if byte == CAN || byte == SUB {
                    self.reset();
                } else {
                    self.push(byte);
                }
            },
            State::StrEscape(kind, escape_at) => {
                if byte == BACKSLASH {
                    self.push(byte);
                    self.str_end(kind, 2, found);
                } else {
                    self.begin(escape_at);
                    self.step_escape(sequence, byte);
                }
            },
        }
    }

    fn step_escape(&mut self, sequence: Sequence, byte: u8)
        requires
            old(self).wf(),
            old(self)@.place is Escape,
        ensures
            final(self).wf(),
            final(self)@ == old(self)@.escape_step(sequence@, byte),
    {
        if byte == 0x5b {
            self.push(byte);
            self.state = State::Csi;
        } else if byte == 0x5d {
            self.push(byte);
            self.state = State::Str(StrKind::Osc);
        } else if byte == 0x5f {
            self.push(byte);
            self.state = State::Str(StrKind::Apc);
        } else if byte == ESC {
            self.begin(sequence);
        } else if byte < 0x20 && byte != CAN && byte != SUB {
        } else {
            self.reset();
        }
    }

    /// Classifies a finished OSC or APC whose terminator is the last `terminator`
    /// bytes.
    fn str_end(&mut self, kind: StrKind, terminator: usize, found: &mut Vec<Finding>)
        requires
            old(self)@.start is Some,
            !old(self)@.overflow ==> old(self)@.bytes.len() >= 2 + terminator,
        ensures
            final(self)@ == ScanModel::ground(),
            finding_models(final(found)@) == finding_models(old(found)@) + old(self)@.findings(
                old(self)@.str_markers(kind, terminator as int),
            ),
    {
        assert(finding_models(found@) =~= finding_models(found@) + Seq::<FindingModel>::empty());
        if !self.overflow {
            let end: usize = self.bytes.len() - terminator;
            let payload = slice_subrange(self.bytes.as_slice(), 2, end);
            let markers = match kind {
                StrKind::Osc => osc_markers(payload),
                StrKind::Apc => apc_markers(payload),
            };
            self.found(&markers, found);
        }
        self.reset();
    }

    /// Notes the sequence in progress once for each marker.
    fn found(&self, markers: &Vec<Marker>, found: &mut Vec<Finding>)
        requires
            self@.start is Some,
            !self@.overflow,
        ensures
            finding_models(final(found)@) == finding_models(old(found)@) + self@.findings(markers@),
    {
        let ghost before = finding_models(found@);
        let ghost all = self@.findings(markers@);
        let start = self.start.unwrap();
        let mut i: usize = 0;
        assert(finding_models(found@) =~= before + all.take(0));
        while i < markers.len()
            invariant
                i <= markers@.len(),
                self@.start == Some(start@),
                !self@.overflow,
                all == self@.findings(markers@),
                finding_models(found@) == before + all.take(i as int),
            decreases markers@.len() - i,
        {
            let ghost so_far = found@;
            let finding = Finding {
                marker: markers[i],
                start,
                bytes: slice_to_vec(self.bytes.as_slice()),
            };
            assert(finding@ == all[i as int]);
            found.push(finding);
            i = i + 1;
            assert(finding_models(found@) =~= finding_models(so_far).push(finding@));
            assert(all.take(i as int) =~= all.take(i - 1).push(all[i - 1]));
            assert(finding_models(found@) =~= before + all.take(i as int));
        }
        assert(all.take(i as int) =~= all);
    }

    fn begin(&mut self, sequence: Sequence)
        ensures
            final(self)@ == ScanModel::begun(sequence@),
    {
        self.reset();
        self.state = State::Escape;
        self.start = Some(sequence);
        self.bytes.push(ESC);
        assert(self@.bytes =~= seq![ESC]);
    }

    fn push(&mut self, byte: u8)
        ensures
            final(self)@ == old(self)@.pushed(byte),
    {
        if self.bytes.len() < MAX_SEQUENCE {
            self.bytes.push(byte);
        } else {
            self.overflow = true;
        }
    }

    fn reset(&mut self)
        ensures
            final(self)@ == ScanModel::ground(),
    {
        self.state = State::Ground;
        self.start = None;
        self.bytes.clear();
        self.overflow = false;
        assert(self@.bytes =~= Seq::<u8>::empty());
    }
}

// What holds of scanning as a whole.

/// The scanner keeps its invariant over any bytes.
pub proof fn law_scan_keeps_wf(m: ScanModel, sequence: u64, bytes: Seq<u8>)
    requires
        m.wf(),
    ensures
        m.scan(sequence, bytes).0.wf(),
    decreases bytes.len(),
{
    if bytes.len() > 0 {
        law_scan_keeps_wf(m, sequence, bytes.drop_last());
    }
}

/// Two scanners that differ only in which record each sequence began in.
pub open spec fn same_but_records(a: ScanModel, b: ScanModel) -> bool {
    &&& match (a.place, b.place) {
        (Place::StrEscape(j, _), Place::StrEscape(k, _)) => j == k,
        (Place::StrEscape(_, _), _) => false,
        (_, Place::StrEscape(_, _)) => false,
        (p, q) => p == q,
    }
    &&& a.bytes == b.bytes
    &&& a.overflow == b.overflow
}

/// The same sequences were flagged, whatever records they began in.
pub open spec fn same_findings(a: Seq<FindingModel>, b: Seq<FindingModel>) -> bool {
    &&& a.len() == b.len()
    &&& forall|i: int|
        0 <= i < a.len() ==> (#[trigger] a[i]).marker == b[i].marker && a[i].bytes == b[i].bytes
}

proof fn lemma_step_ignores_records(a: ScanModel, b: ScanModel, s: u64, t: u64, byte: u8)
    requires
        same_but_records(a, b),
    ensures
        same_but_records(a.step(s, byte).0, b.step(t, byte).0),
        same_findings(a.step(s, byte).1, b.step(t, byte).1),
{
}

/// What is flagged does not depend on which records the bytes lie in.
pub proof fn law_scan_ignores_records(a: ScanModel, b: ScanModel, s: u64, t: u64, bytes: Seq<u8>)
    requires
        same_but_records(a, b),
    ensures
        same_but_records(a.scan(s, bytes).0, b.scan(t, bytes).0),
        same_findings(a.scan(s, bytes).1, b.scan(t, bytes).1),
    decreases bytes.len(),
{
    if bytes.len() > 0 {
        law_scan_ignores_records(a, b, s, t, bytes.drop_last());
        lemma_step_ignores_records(
            a.scan(s, bytes.drop_last()).0,
            b.scan(t, bytes.drop_last()).0,
            s,
            t,
            bytes.last(),
        );
    }
}

/// Scanning two pieces of one record is scanning them joined.
pub proof fn law_scan_joins(m: ScanModel, s: u64, head: Seq<u8>, tail: Seq<u8>)
    ensures
        m.scan(s, head + tail).0 == m.scan(s, head).0.scan(s, tail).0,
        m.scan(s, head + tail).1 == m.scan(s, head).1 + m.scan(s, head).0.scan(s, tail).1,
    decreases tail.len(),
{
    if tail.len() == 0 {
        assert(head + tail =~= head);
        assert(m.scan(s, head).1 + Seq::<FindingModel>::empty() =~= m.scan(s, head).1);
    } else {
        assert((head + tail).drop_last() =~= head + tail.drop_last());
        law_scan_joins(m, s, head, tail.drop_last());
        let (mid, found) = m.scan(s, head);
        let (late, more) = mid.scan(s, tail.drop_last());
        let last = late.step(s, tail.last()).1;
        assert((found + more) + last =~= found + (more + last));
    }
}

/// A stream that is cut into two records anywhere, even inside a sequence, is
/// flagged as if it lay in one.
pub proof fn law_scan_split(m: ScanModel, s: u64, t: u64, head: Seq<u8>, tail: Seq<u8>)
    ensures
        same_but_records(m.scan(s, head).0.scan(t, tail).0, m.scan(s, head + tail).0),
        same_findings(
            m.scan(s, head).1 + m.scan(s, head).0.scan(t, tail).1,
            m.scan(s, head + tail).1,
        ),
{
    law_scan_joins(m, s, head, tail);
    let mid = m.scan(s, head).0;
    law_scan_ignores_records(mid, mid, t, s, tail);
}

/// `record` is the one being scanned, or one in which the sequence in progress
/// began before it.
pub open spec fn known_record(m: ScanModel, scanned: u64, record: u64) -> bool {
    record == scanned || m.start == Some(record) || (m.place matches Place::StrEscape(_, at) && at
        == record)
}

/// A sequence is attributed to the record that holds its `ESC`: the record being
/// scanned, or the one that the sequence in progress began in.
pub proof fn law_scan_attributes(m: ScanModel, s: u64, bytes: Seq<u8>)
    requires
        m.wf(),
    ensures
        forall|i: int|
            0 <= i < m.scan(s, bytes).1.len() ==> known_record(
                m,
                s,
                (#[trigger] m.scan(s, bytes).1[i]).start,
            ),
        forall|r: u64| #[trigger] known_record(m.scan(s, bytes).0, s, r) ==> known_record(m, s, r),
    decreases bytes.len(),
{
    law_scan_keeps_wf(m, s, bytes);
    if bytes.len() > 0 {
        law_scan_attributes(m, s, bytes.drop_last());
        let (before, found) = m.scan(s, bytes.drop_last());
        law_scan_keeps_wf(m, s, bytes.drop_last());
        let (after, more) = before.step(s, bytes.last());
        assert forall|i: int| 0 <= i < more.len() implies known_record(
            before,
            s,
            (#[trigger] more[i]).start,
        ) by {}
        assert forall|r: u64| #[trigger] known_record(after, s, r) implies known_record(m, s, r) by {
            assert(known_record(before, s, r));
        }
    }
}

// What each operation does, in terms of what it was given and what it gave back.

/// A byte string without `sep` is one field.
proof fn lemma_one_field(s: Seq<u8>, sep: u8)
    requires
        !s.contains(sep),
    ensures
        fields(s, sep) =~= seq![s],
    decreases s.len(),
{
    if s.len() > 0 {
        assert forall|x: u8| s.drop_last().contains(x) implies s.contains(x) by {
            let i = choose|i: int| 0 <= i < s.drop_last().len() && s.drop_last()[i] == x;
            assert(s[i] == x);
        }
        lemma_one_field(s.drop_last(), sep);
        assert(s.contains(s[s.len() - 1]));
        assert(s.drop_last().push(s.last()) =~= s);
    } else {
        assert(s =~= Seq::<u8>::empty());
    }
}

/// The fields on both sides of a `sep` are those of the whole.
proof fn lemma_fields_on_both_sides(a: Seq<u8>, b: Seq<u8>, sep: u8)
    ensures
        fields(a.push(sep) + b, sep) =~= fields(a, sep) + fields(b, sep),
        fields(b, sep).len() > 0,
    decreases b.len(),
{
    let whole = a.push(sep) + b;
    if b.len() == 0 {
        assert(whole =~= a.push(sep));
        assert(a.push(sep).drop_last() =~= a);
        assert(b =~= Seq::<u8>::empty());
    } else {
        lemma_fields_on_both_sides(a, b.drop_last(), sep);
        assert(whole.drop_last() =~= a.push(sep) + b.drop_last());
        assert(whole.last() == b.last());
        let left = fields(a, sep);
        let right = fields(b.drop_last(), sep);
        assert((left + right).last() == right.last());
        assert((left + right).drop_last() =~= left + right.drop_last());
        let grown = right.last().push(b.last());
        assert((left + right.drop_last()).push(grown) =~= left + right.drop_last().push(grown));
        assert((left + right).push(Seq::empty()) =~= left + right.push(Seq::<u8>::empty()));
    }
}

/// Fields are what stands between separators: where there is none, there is one field, the
/// whole; and the fields of two byte strings with a separator between them are those of the
/// one and then those of the other.
pub proof fn law_fields_lie_between_separators(
    plain: &[u8],
    left: &[u8],
    right: &[u8],
    joined: &[u8],
    sep: u8,
    one: Vec<Vec<u8>>,
    first: Vec<Vec<u8>>,
    second: Vec<Vec<u8>>,
    both: Vec<Vec<u8>>,
)
    requires
        !plain@.contains(sep),
        joined@ == left@.push(sep) + right@,
        call_ensures(split_fields, (plain, sep), one),
        call_ensures(split_fields, (left, sep), first),
        call_ensures(split_fields, (right, sep), second),
        call_ensures(split_fields, (joined, sep), both),
    ensures
        byte_strings(one@) =~= seq![plain@],
        byte_strings(both@) =~= byte_strings(first@) + byte_strings(second@),
{
    lemma_one_field(plain@, sep);
    lemma_fields_on_both_sides(left@, right@, sep);
}

/// Byte strings are the same where they have the same bytes, and a number is nothing but
/// the digits from `0` to `9`.
pub proof fn law_bytes_are_compared_and_told_as_numbers(
    a: &[u8],
    b: &[u8],
    same: bool,
    number: bool,
)
    requires
        call_ensures(same_bytes, (a, b), same),
        call_ensures(is_number, (a,), number),
    ensures
        same <==> a@.len() == b@.len() && forall|i: int|
            0 <= i < a@.len() ==> (#[trigger] a@[i]) == b@[i],
        number <==> forall|i: int| 0 <= i < a@.len() ==> 0x30 <= (#[trigger] a@[i]) <= 0x39,
{
    if a@.len() == b@.len() && forall|i: int|
        0 <= i < a@.len() ==> (#[trigger] a@[i]) == b@[i] {
        assert(a@ =~= b@);
    }
    if number {
        assert forall|i: int| 0 <= i < a@.len() implies 0x30 <= (#[trigger] a@[i]) <= 0x39 by {
            assert(is_digit(a@[i]));
        }
    }
}

/// Which modes among these are flagged.
proof fn lemma_mode_markers(modes: Seq<Seq<u8>>, set: bool, alt: Seq<u8>, paste: Seq<u8>)
    requires
        alt == seq![0x31u8, 0x30, 0x34, 0x39],
        paste == seq![0x32u8, 0x30, 0x30, 0x34],
    ensures
        ({
            let markers = mode_markers(modes, set);
            &&& markers.contains(Marker::AltScreen(set)) <==> modes.contains(alt)
            &&& markers.contains(Marker::BracketedPaste(set)) <==> modes.contains(paste)
            &&& forall|i: int|
                0 <= i < markers.len() ==> (#[trigger] markers[i]) == Marker::AltScreen(set)
                    || markers[i] == Marker::BracketedPaste(set)
            &&& markers.len() <= modes.len()
        }),
    decreases modes.len(),
{
    if modes.len() > 0 {
        let head = modes.drop_last();
        lemma_mode_markers(head, set, alt, paste);
        let before = mode_markers(head, set);
        let markers = mode_markers(modes, set);
        assert(alt[0] == 0x31 && paste[0] == 0x32);
        assert(modes =~= head.push(modes.last()));
        assert forall|x: Seq<u8>| modes.contains(x) <==> head.contains(x) || modes.last() == x by {
            if head.contains(x) {
                let i = choose|i: int| 0 <= i < head.len() && head[i] == x;
                assert(modes[i] == x);
            }
            if modes.contains(x) {
                let i = choose|i: int| 0 <= i < modes.len() && modes[i] == x;
                if i < head.len() {
                    assert(head[i] == x);
                }
            }
            assert(modes[modes.len() - 1] == modes.last());
        }
        assert forall|m: Marker| before.contains(m) implies markers.contains(m) by {
            let i = choose|i: int| 0 <= i < before.len() && before[i] == m;
            assert(markers[i] == m);
        }
        if markers.len() > before.len() {
            assert(markers[markers.len() - 1] == markers.last());
        }
        assert forall|m: Marker| markers.contains(m) && (markers.len() == before.len()
            || markers.last() != m) implies before.contains(m) by {
            let i = choose|i: int| 0 <= i < markers.len() && markers[i] == m;
            assert(before[i] == m);
        }
    }
}

/// What a control sequence without intermediate bytes is flagged as, by its parameters and
/// its last byte: each query and each mode change is flagged exactly where it is asked for
/// in one of its forms, and at most one of them is, but for the modes that are switched on
/// or off together.
#[verifier::rlimit(40)]
pub proof fn law_plain_control_sequences(
    body: &[u8],
    params: Seq<u8>,
    last: u8,
    on: bool,
    markers: Vec<Marker>,
)
    requires
        body@ == params.push(last),
        forall|i: int| 0 <= i < params.len() ==> !(0x20 <= (#[trigger] params[i]) <= 0x2f),
        call_ensures(csi_markers, (body,), markers),
    ensures
        ({
            let m = markers@;
            let only = |x: Marker| m.len() == 1 && m[0] == x;
            let digits_from = |k: int|
                forall|i: int| k <= i < params.len() ==> 0x30 <= (#[trigger] params[i]) <= 0x39;
            // `c`, `0c`
            &&& only(Marker::Da1Query) <==> last == 0x63 && (params =~= seq![] || params
                =~= seq![0x30u8])
            // `>c`, `>0c`
            &&& only(Marker::Da2Query) <==> last == 0x63 && (params =~= seq![0x3eu8] || params
                =~= seq![0x3eu8, 0x30])
            // `6n`, `5n`, `>4n`
            &&& only(Marker::CursorPositionQuery) <==> last == 0x6e && params =~= seq![0x36u8]
            &&& only(Marker::StatusQuery) <==> last == 0x6e && params =~= seq![0x35u8]
            &&& only(Marker::ModifyOtherKeysOff) <==> last == 0x6e && params
                =~= seq![0x3eu8, 0x34]
            // `>m`, `>4m`, `>4;m`, and `>4;` and a level and `m`
            &&& only(Marker::ModifyOtherKeysReset) <==> last == 0x6d && (params
                =~= seq![0x3eu8] || params =~= seq![0x3eu8, 0x34] || params
                =~= seq![0x3eu8, 0x34, 0x3b])
            &&& (m.len() == 1 && m[0] is ModifyOtherKeys) <==> last == 0x6d && params.len() > 3
                && params[0] == 0x3e && params[1] == 0x34 && params[2] == 0x3b && digits_from(3)
            &&& m.len() == 1 && m[0] is ModifyOtherKeys && params.len() == 4 ==> m[0]
                == Marker::ModifyOtherKeys(
                if params[3] <= 0x33 {
                    Some((params[3] - 0x30) as u8)
                } else {
                    None
                },
            )
            // `?u`, `>` and a number and `u`, `<` and a number and `u`
            &&& only(Marker::KittyKeyboardQuery) <==> last == 0x75 && params =~= seq![0x3fu8]
            &&& only(Marker::KittyKeyboardPush) <==> last == 0x75 && params.len() >= 1
                && params[0] == 0x3e && digits_from(1)
            &&& only(Marker::KittyKeyboardPop) <==> last == 0x75 && params.len() >= 1
                && params[0] == 0x3c && digits_from(1)
            // `=` and numbers and `u`
            &&& only(Marker::KittyKeyboardSet) <==> last == 0x75 && params.len() >= 2
                && params[0] == 0x3d && all_numeric(fields(params.skip(1), 0x3b))
            // `>q`, `>0q`
            &&& only(Marker::XtversionQuery) <==> last == 0x71 && (params =~= seq![0x3eu8]
                || params =~= seq![0x3eu8, 0x30])
            // `?` and modes and `h` or `l`
            &&& m.contains(Marker::AltScreen(on)) <==> last == (if on {
                0x68u8
            } else {
                0x6c
            }) && params.len() >= 1 && params[0] == 0x3f && fields(params.skip(1), 0x3b).contains(
                seq![0x31u8, 0x30, 0x34, 0x39],
            )
            &&& m.contains(Marker::BracketedPaste(on)) <==> last == (if on {
                0x68u8
            } else {
                0x6c
            }) && params.len() >= 1 && params[0] == 0x3f && fields(params.skip(1), 0x3b).contains(
                seq![0x32u8, 0x30, 0x30, 0x34],
            )
            &&& last != 0x68 && last != 0x6c ==> m.len() <= 1
            &&& !m.contains(Marker::ModeQuery)
        }),
{
    let rest = body@.drop_last();
    assert(rest =~= params);
    assert(body@.last() == last);
    assert forall|i: int| 0 <= i < rest.len() implies !intermediate(#[trigger] rest[i]) by {
        assert(rest[i] == params[i]);
    }
    lemma_first_intermediate(rest);
    assert(rest.take(rest.len() as int) =~= params);
    assert(rest.skip(rest.len() as int) =~= Seq::<u8>::empty());
    let m = markers@;
    assert(m == plain_csi_markers(last, params));
    if params.len() >= 3 {
        assert(params.take(3) == seq![0x3eu8, 0x34, 0x3b] <==> params[0] == 0x3e && params[1]
            == 0x34 && params[2] == 0x3b) by {
            if params[0] == 0x3e && params[1] == 0x34 && params[2] == 0x3b {
                assert(params.take(3) =~= seq![0x3eu8, 0x34, 0x3b]);
            }
            assert(params.take(3)[0] == params[0] && params.take(3)[1] == params[1]
                && params.take(3)[2] == params[2]);
        }
    }
    assert forall|k: int| 0 <= k <= params.len() implies (numeric(#[trigger] params.skip(k))
        <==> forall|i: int| k <= i < params.len() ==> 0x30 <= (#[trigger] params[i]) <= 0x39) by {
        if numeric(params.skip(k)) {
            assert forall|i: int| k <= i < params.len() implies 0x30 <= (#[trigger] params[i])
                <= 0x39 by {
                assert(is_digit(params.skip(k)[i - k]));
            }
        }
        if forall|i: int| k <= i < params.len() ==> 0x30 <= (#[trigger] params[i]) <= 0x39 {
            assert forall|i: int| 0 <= i < params.skip(k).len() implies is_digit(
                #[trigger] params.skip(k)[i],
            ) by {
                assert(params.skip(k)[i] == params[i + k]);
            }
        }
    }
    if params.len() == 4 {
        let level = params.skip(3);
        assert(level =~= seq![params[3]]);
        assert(level.drop_last() =~= Seq::<u8>::empty());
        assert(number(level.drop_last()) == 0);
        assert(number(level) == params[3] - 0x30 || params[3] < 0x30);
    }
    if params.len() == 3 && params.take(3) == seq![0x3eu8, 0x34, 0x3b] {
        assert(params =~= seq![0x3eu8, 0x34, 0x3b]);
    }
    if (last == 0x68 || last == 0x6c) && params.len() >= 1 && params[0] == 0x3f {
        lemma_mode_markers(
            fields(params.skip(1), SEMICOLON),
            last == 0x68,
            seq![0x31u8, 0x30, 0x34, 0x39],
            seq![0x32u8, 0x30, 0x30, 0x34],
        );
    }
}

/// A control sequence with intermediate bytes is flagged for one thing only: a query of a
/// mode, which is a number, with `?` in front of it or not, then `$` and `p`.
#[verifier::rlimit(40)]
pub proof fn law_mode_query(
    body: &[u8],
    params: Seq<u8>,
    between: Seq<u8>,
    last: u8,
    markers: Vec<Marker>,
)
    requires
        body@ == (params + between).push(last),
        forall|i: int| 0 <= i < params.len() ==> !(0x20 <= (#[trigger] params[i]) <= 0x2f),
        between.len() > 0,
        0x20 <= between[0] <= 0x2f,
        call_ensures(csi_markers, (body,), markers),
    ensures
        markers@.len() > 0 <==> last == 0x70 && between =~= seq![0x24u8] && ({
            let from = if params.len() > 0 && params[0] == 0x3f {
                1int
            } else {
                0
            };
            from < params.len() && forall|i: int|
                from <= i < params.len() ==> 0x30 <= (#[trigger] params[i]) <= 0x39
        }),
        markers@.len() > 0 ==> markers@.len() == 1 && markers@[0] == Marker::ModeQuery,
{
    let rest = body@.drop_last();
    assert(rest =~= params + between);
    assert(body@.last() == last);
    lemma_first_intermediate(rest);
    let k = first_intermediate(rest) as int;
    assert(rest[params.len() as int] == between[0]);
    if k < params.len() {
        assert(rest[k] == params[k]);
    }
    assert(k == params.len());
    assert(rest.take(k) =~= params);
    assert(rest.skip(k) =~= between);
    let mode = queried_mode(params);
    let from = if params.len() > 0 && params[0] == 0x3f {
        1int
    } else {
        0
    };
    assert(mode =~= params.skip(from));
    if numeric(mode) {
        assert forall|i: int| from <= i < params.len() implies 0x30 <= (#[trigger] params[i])
            <= 0x39 by {
            assert(is_digit(mode[i - from]));
        }
    }
    if forall|i: int| from <= i < params.len() ==> 0x30 <= (#[trigger] params[i]) <= 0x39 {
        assert forall|i: int| 0 <= i < mode.len() implies is_digit(#[trigger] mode[i]) by {
            assert(mode[i] == params[i + from]);
        }
    }
    if between =~= seq![0x24u8] {
        assert forall|i: int| 0 <= i < between.len() implies intermediate(
            #[trigger] between[i],
        ) by {}
    }
}

/// Which colours are asked about.
proof fn lemma_colour_markers(first: nat, parts: Seq<Seq<u8>>, ask: Seq<u8>)
    requires
        ask == seq![0x3fu8],
    ensures
        ({
            let m = colour_markers(first, parts);
            &&& m.contains(Marker::ForegroundColourQuery) <==> (0 <= 10 - first < parts.len()
                && parts[10 - first] == ask)
            &&& m.contains(Marker::BackgroundColourQuery) <==> (0 <= 11 - first < parts.len()
                && parts[11 - first] == ask)
            &&& forall|i: int|
                0 <= i < m.len() ==> (#[trigger] m[i]) == Marker::ForegroundColourQuery || m[i]
                    == Marker::BackgroundColourQuery
            &&& m.len() <= parts.len()
        }),
    decreases parts.len(),
{
    if parts.len() > 0 {
        let head = colour_markers(first, parts.drop_last());
        lemma_colour_markers(first, parts.drop_last(), ask);
        let m = colour_markers(first, parts);
        assert forall|x: Marker| head.contains(x) implies m.contains(x) by {
            let i = choose|i: int| 0 <= i < head.len() && head[i] == x;
            assert(m[i] == x);
        }
        if m.len() > head.len() {
            assert(m[m.len() - 1] == m.last());
        }
        assert forall|x: Marker| m.contains(x) && (m.len() == head.len() || m.last()
            != x) implies head.contains(x) by {
            let i = choose|i: int| 0 <= i < m.len() && m[i] == x;
            assert(head[i] == x);
        }
    }
}

/// An operating system command asks about the colour of the foreground or the background
/// exactly where it names a colour, by a number of one to three digits, and the `?` that
/// stands as many fields further on as it takes to get to ten, or to eleven, is there.
pub proof fn law_colour_queries(payload: &[u8], parts: Vec<Vec<u8>>, markers: Vec<Marker>)
    requires
        call_ensures(split_fields, (payload, 0x3b), parts),
        call_ensures(osc_markers, (payload,), markers),
    ensures
        ({
            let named = 1 <= parts@[0]@.len() <= 3 && numeric(parts@[0]@);
            let colour = number(parts@[0]@);
            let asked = |c: int|
                named && 1 <= c - colour + 1 < parts@.len() && parts@[c - colour + 1]@
                    =~= seq![0x3fu8];
            &&& markers@.contains(Marker::ForegroundColourQuery) <==> asked(10)
            &&& markers@.contains(Marker::BackgroundColourQuery) <==> asked(11)
            &&& forall|i: int|
                0 <= i < markers@.len() ==> (#[trigger] markers@[i])
                    == Marker::ForegroundColourQuery || markers@[i]
                    == Marker::BackgroundColourQuery
            &&& !named ==> markers@.len() == 0
        }),
{
    let split = fields(payload@, 0x3b);
    assert(split[0] == parts@[0]@);
    lemma_colour_markers(number(split[0]), split.skip(1), seq![0x3fu8]);
    assert forall|i: int| 1 <= i < split.len() implies #[trigger] split.skip(1)[i - 1]
        == parts@[i]@ by {
        assert(split[i] == parts@[i]@);
    }
}

/// A number is read digit by digit.
pub proof fn law_numbers_are_decimal(head: Seq<u8>, last: u8)
    requires
        0x30 <= last <= 0x39,
    ensures
        number(head.push(last)) == 10 * number(head) + (last - 0x30),
        number(seq![last]) == last - 0x30,
{
    assert(head.push(last).drop_last() =~= head);
    assert(seq![last].drop_last() =~= Seq::<u8>::empty());
    assert(number(Seq::empty()) == 0);
}

/// A graphics command is a query exactly where it starts with `G` and `a=q` is one of the
/// comma-separated controls that stand before its first semicolon.
pub proof fn law_graphics_queries(
    payload: &[u8],
    command: &[u8],
    control: &[u8],
    parts: Vec<Vec<u8>>,
    controls: Vec<Vec<u8>>,
    markers: Vec<Marker>,
)
    requires
        payload@.len() > 0 ==> command@ == payload@.skip(1),
        call_ensures(split_fields, (command, 0x3b), parts),
        control@ == parts@[0]@,
        call_ensures(split_fields, (control, 0x2c), controls),
        call_ensures(apc_markers, (payload,), markers),
    ensures
        markers@.len() > 0 <==> payload@.len() > 0 && payload@[0] == 0x47 && exists|i: int|
            0 <= i < controls@.len() && (#[trigger] controls@[i])@ =~= seq![0x61u8, 0x3d, 0x71],
        markers@.len() > 0 ==> markers@.len() == 1 && markers@[0] == Marker::KittyGraphicsQuery,
{
    if payload@.len() > 0 {
        let query = seq![0x61u8, 0x3d, 0x71];
        let split = fields(command@, 0x3b);
        assert(split[0] == byte_strings(parts@)[0]);
        assert(split[0] == control@);
        let all = fields(control@, 0x2c);
        assert(all == byte_strings(controls@));
        if all.contains(query) {
            let i = choose|i: int| 0 <= i < all.len() && all[i] == query;
            assert(controls@[i]@ == query);
        }
        if exists|i: int| 0 <= i < controls@.len() && (#[trigger] controls@[i])@ =~= query {
            let i = choose|i: int|
                0 <= i < controls@.len() && (#[trigger] controls@[i])@ =~= query;
            assert(all[i] == query);
        }
    }
}

/// What one byte does to a scanner. Outside of a sequence only `ESC` matters, and begins
/// one in this record. Behind `ESC`, `[`, `]` and `_` tell what it is. A cancelling byte
/// ends a sequence, and another `ESC` begins one anew. A control sequence is complete with
/// a byte from `@` to `~`, a control string with `BEL` or with `ESC` and a backslash; what
/// is then found is what the sequence is flagged as, with all of its bytes and the record
/// that it began in, and nothing where it was too long to be kept.
#[verifier::rlimit(40)]
pub proof fn law_scanner_takes_a_byte(
    scanner: &mut Scanner,
    sequence: Sequence,
    byte: u8,
    found: &mut Vec<Finding>,
)
    requires
        old(scanner).wf(),
        call_ensures(Scanner::step, (scanner, sequence, byte, found), ()),
    ensures
        ({
            let m = old(scanner)@;
            let after = final(scanner)@;
            let before = finding_models(old(found)@);
            let all = finding_models(final(found)@);
            let nothing = all == before;
            let anew = after.place is Escape && after.start == Some(sequence@) && after.bytes
                =~= seq![0x1bu8] && !after.overflow;
            let ended = after.place is Ground && after.start is None && after.bytes.len() == 0;
            let kept = after.start == m.start && after.bytes == m.bytes && after.overflow
                == m.overflow;
            let grown = after.start == m.start && (if m.bytes.len() < 256 {
                after.bytes =~= m.bytes.push(byte) && after.overflow == m.overflow
            } else {
                after.bytes == m.bytes && after.overflow
            });
            let whole = m.bytes.push(byte);
            let cancelled = byte == 0x18 || byte == 0x1a;
            let flagged = |markers: Seq<Marker>|
                if m.overflow || m.bytes.len() >= 256 {
                    all == before
                } else {
                    &&& all.len() == before.len() + markers.len()
                    &&& forall|i: int| 0 <= i < before.len() ==> (#[trigger] all[i]) == before[i]
                    &&& forall|i: int|
                        0 <= i < markers.len() ==> (#[trigger] all[before.len() + i])
                            == (FindingModel { marker: markers[i], start: m.start->0, bytes: whole })
                };
            &&& m.place is Ground ==> nothing && (if byte == 0x1b {
                anew
            } else {
                after == m
            })
            &&& m.place is Escape ==> nothing && (if byte == 0x5b {
                after.place is Csi && grown
            } else if byte == 0x5d {
                after.place == Place::Str(StrKind::Osc) && grown
            } else if byte == 0x5f {
                after.place == Place::Str(StrKind::Apc) && grown
            } else if byte == 0x1b {
                anew
            } else if byte < 0x20 && !cancelled {
                after == m
            } else {
                ended
            })
            &&& m.place is Csi ==> (if byte == 0x1b {
                anew && nothing
            } else if cancelled || byte > 0x7f {
                ended && nothing
            } else if byte < 0x20 || byte == 0x7f {
                after == m && nothing
            } else if byte < 0x40 {
                after.place is Csi && grown && nothing
            } else {
                ended && flagged(csi_markers_of(whole.skip(2)))
            })
            &&& m.place matches Place::Str(kind) ==> (if byte == 0x07 {
                ended && flagged(
                    match kind {
                        StrKind::Osc => osc_markers_of(whole.subrange(2, whole.len() - 1)),
                        StrKind::Apc => apc_markers_of(whole.subrange(2, whole.len() - 1)),
                    },
                )
            } else if byte == 0x1b {
                after.place == Place::StrEscape(kind, sequence@) && grown && nothing
            } else if cancelled {
                ended && nothing
            } else {
                after.place == m.place && grown && nothing
            })
            &&& m.place matches Place::StrEscape(kind, at) ==> (if byte == 0x5c {
                ended && flagged(
                    match kind {
                        StrKind::Osc => osc_markers_of(whole.subrange(2, whole.len() - 2)),
                        StrKind::Apc => apc_markers_of(whole.subrange(2, whole.len() - 2)),
                    },
                )
            } else {
                nothing && (byte == 0x5b || byte == 0x5d || byte == 0x5f ==> after.start == Some(at)
                    && after.bytes =~= seq![0x1bu8, byte])
            })
        }),
{
    let m = old(scanner)@;
    let before = finding_models(old(found)@);
    assert(before + Seq::<FindingModel>::empty() =~= before);
    let (next, more) = m.step(sequence@, byte);
    assert(finding_models(final(found)@) == before + more);
    if more.len() == 0 {
        assert(before + more =~= before);
    }
    if m.place is StrEscape {
        let at = m.place->StrEscape_1;
        assert(seq![0x1bu8].push(byte) =~= seq![0x1bu8, byte]);
    }
}

/// The bytes of a record are taken one behind the other: feeding none changes nothing, and
/// feeding some and then the rest is feeding all of them.
pub proof fn law_fed_bytes_are_taken_in_order(
    first: &mut Scanner,
    second: &mut Scanner,
    whole: &mut Scanner,
    sequence: Sequence,
    head: &[u8],
    tail: &[u8],
    all: &[u8],
    found_first: &mut Vec<Finding>,
    found_second: &mut Vec<Finding>,
    found_whole: &mut Vec<Finding>,
)
    requires
        old(first).wf(),
        old(whole)@ == old(first)@,
        old(second)@ == final(first)@,
        all@ == head@ + tail@,
        old(found_first)@.len() == 0,
        old(found_whole)@.len() == 0,
        *old(found_second) == *final(found_first),
        call_ensures(Scanner::feed, (first, sequence, head, found_first), ()),
        call_ensures(Scanner::feed, (second, sequence, tail, found_second), ()),
        call_ensures(Scanner::feed, (whole, sequence, all, found_whole), ()),
    ensures
        final(whole)@ == final(second)@,
        finding_models(final(found_whole)@) == finding_models(final(found_second)@),
        head@.len() == 0 ==> final(first)@ == old(first)@ && final(found_first)@.len() == 0,
{
    law_scan_joins(old(first)@, sequence@, head@, tail@);
    let none = Seq::<FindingModel>::empty();
    assert(finding_models(old(found_first)@) =~= none);
    assert(finding_models(old(found_whole)@) =~= none);
    let a = old(first)@.scan(sequence@, head@).1;
    let b = old(second)@.scan(sequence@, tail@).1;
    let c = old(first)@.scan(sequence@, all@).1;
    assert(none + a =~= a);
    assert(none + c =~= c);
    assert(finding_models(final(found_second)@) == a + b);
    if head@.len() == 0 {
        assert(finding_models(final(found_first)@).len() == 0);
        assert(finding_models(final(found_first)@).len() == final(found_first)@.len());
    }
}

/// A byte that is fed by itself does what it does in a step.
pub proof fn law_one_byte_is_one_step(
    fed: &mut Scanner,
    stepped: &mut Scanner,
    sequence: Sequence,
    bytes: &[u8],
    found_fed: &mut Vec<Finding>,
    found_stepped: &mut Vec<Finding>,
)
    requires
        old(fed).wf(),
        old(fed)@ == old(stepped)@,
        *old(found_fed) == *old(found_stepped),
        bytes@.len() == 1,
        call_ensures(Scanner::feed, (fed, sequence, bytes, found_fed), ()),
        call_ensures(Scanner::step, (stepped, sequence, bytes@[0], found_stepped), ()),
    ensures
        final(fed)@ == final(stepped)@,
        finding_models(final(found_fed)@) == finding_models(final(found_stepped)@),
{
    let m = old(fed)@;
    assert(bytes@.drop_last() =~= Seq::<u8>::empty());
    assert(m.scan(sequence@, Seq::empty()) == (m, Seq::<FindingModel>::empty()));
    let more = m.step(sequence@, bytes@[0]).1;
    assert(Seq::<FindingModel>::empty() + more =~= more);
}

/// A new scanner is outside of any sequence. A sequence in progress is told with the record
/// that it began in and what is kept of it, and whether that is all of it.
pub proof fn law_unfinished_sequence_is_told(
    fresh: Scanner,
    scanner: Scanner,
    progress: Option<(Sequence, &[u8])>,
    overflow: bool,
)
    requires
        scanner.wf(),
        call_ensures(Scanner::new, (), fresh),
        call_ensures(Scanner::unfinished, (&scanner,), progress),
        call_ensures(Scanner::overflowed, (&scanner,), overflow),
    ensures
        fresh@.place is Ground && fresh@.bytes.len() == 0 && fresh@.start is None
            && !fresh@.overflow,
        progress is None <==> scanner@.place is Ground,
        progress matches Some((start, bytes)) ==> scanner@.start == Some(start@) && bytes@
            == scanner@.bytes && bytes@.len() <= 256,
        overflow == scanner@.overflow,
{
}

/// Each marker has a name of its own: queries and modes are told apart, what is switched on
/// from what is switched off, and the levels of `modifyOtherKeys` from each other.
pub proof fn law_marker_labels(marker: Marker, label: &'static str)
    requires
        call_ensures(Marker::label, (marker,), label),
    ensures
        label@ == (match marker {
            Marker::Da1Query => "query:da1"@,
            Marker::Da2Query => "query:da2"@,
            Marker::CursorPositionQuery => "query:dsr-cpr"@,
            Marker::StatusQuery => "query:dsr-status"@,
            Marker::ModeQuery => "query:decrqm"@,
            Marker::KittyKeyboardQuery => "query:kitty-keyboard"@,
            Marker::KittyKeyboardPush => "mode:kitty-keyboard-push"@,
            Marker::KittyKeyboardPop => "mode:kitty-keyboard-pop"@,
            Marker::KittyKeyboardSet => "mode:kitty-keyboard-set"@,
            Marker::ForegroundColourQuery => "query:osc10"@,
            Marker::BackgroundColourQuery => "query:osc11"@,
            Marker::XtversionQuery => "query:xtversion"@,
            Marker::KittyGraphicsQuery => "query:kitty-graphics"@,
            Marker::AltScreen(on) => if on {
                "mode:alt-screen-on"@
            } else {
                "mode:alt-screen-off"@
            },
            Marker::BracketedPaste(on) => if on {
                "mode:bracketed-paste-on"@
            } else {
                "mode:bracketed-paste-off"@
            },
            Marker::ModifyOtherKeys(level) => if level == Some(0u8) {
                "mode:modify-other-keys=0"@
            } else if level == Some(1u8) {
                "mode:modify-other-keys=1"@
            } else if level == Some(2u8) {
                "mode:modify-other-keys=2"@
            } else if level == Some(3u8) {
                "mode:modify-other-keys=3"@
            } else {
                "mode:modify-other-keys"@
            },
            Marker::ModifyOtherKeysReset => "mode:modify-other-keys=reset"@,
            Marker::ModifyOtherKeysOff => "mode:modify-other-keys=off"@,
        }),
{
}

} // verus!
