//! The terminal output transcoder: a byte-level state machine rewriting the
//! legacy `@`-escape dialect into real terminal control sequences, plus the
//! direct attribute-to-escape entry point that shares its color table.
//!
//! States: `Default` copies bytes through and watches for the prefix `@`;
//! `GotPrefix` decides between a two-digit color code (after `X`) and a
//! named sequence; `ReadColorNibble1` and `ReadColorNibble2` read the two
//! hex digits of an attribute byte, the first digit giving the high nibble;
//! `ReadNamedSequence` accumulates a name until the closing `@`, expanding
//! a known name (the clear-screen token) and dropping an unknown one.
//! A non-hex byte aborts a color code: after the first nibble the literal
//! prefix, the `X` and the offending byte are re-emitted; after one hex
//! digit the three literal bytes re-emitted are the prefix, that digit and
//! the offending byte. The terminator byte 0x1A stops the whole buffer.

use vstd::prelude::*;

verus! {

/// The escape-parser mode of the transcoder.
pub enum PcbState {
    Default,
    GotPrefix,
    ReadColorNibble1,
    ReadColorNibble2(u8),
    ReadNamedSequence(Vec<u8>),
}

/// The prefix byte that opens an escape.
pub const PREFIX: u8 = 64u8;

/// The byte that ends processing of a whole buffer.
pub const TERMINATOR: u8 = 0x1A;

/// Whether a byte is an ASCII hex digit.
pub open spec fn is_hex(b: u8) -> bool {
    (48 <= b && b <= 57) || (97 <= b && b <= 102) || (65 <= b && b <= 70)
}

/// The numeric value of an ASCII hex digit.
pub open spec fn hex_val(b: u8) -> int {
    if 48 <= b && b <= 57 {
        b - 48
    } else if 97 <= b && b <= 102 {
        b - 97 + 10
    } else {
        b - 65 + 10
    }
}

/// The fixed 8-entry palette reorder from a legacy 3-bit color index to the
/// terminal's numeric color: the offset added to 30 (foreground) or 40
/// (background).
pub open spec fn color_offset(i: int) -> int {
    if i == 0 {
        0
    } else if i == 1 {
        4
    } else if i == 2 {
        2
    } else if i == 3 {
        6
    } else if i == 4 {
        1
    } else if i == 5 {
        5
    } else if i == 6 {
        3
    } else {
        7
    }
}

/// The escape sequence that sets one attribute byte: `ESC [ 0;` then `1;`
/// when the high bit asks for bold, then the foreground code from the low
/// nibble, `;`, the background code from the high nibble, and `m`.
pub open spec fn color_seq(c: int) -> Seq<u8> {
    let fg = color_offset(c % 8);
    let bg = color_offset((c / 16) % 8);
    let head: Seq<u8> = seq![27u8, 91u8, 48u8, 59u8];
    let bold: Seq<u8> = if c >= 128 {
        seq![49u8, 59u8]
    } else {
        Seq::empty()
    };
    head + bold + seq![51u8, (48 + fg) as u8, 59u8, 52u8, (48 + bg) as u8, 109u8]
}

/// The expansion of a named sequence: the clear-screen token becomes the
/// real clear-screen escape; an unknown name is dropped.
pub open spec fn named_seq_expansion(name: Seq<u8>) -> Seq<u8> {
    if name == seq![67u8, 76u8, 83u8] {
        seq![27u8, 91u8, 50u8, 74u8]
    } else {
        Seq::empty()
    }
}

/// The abstract state of the transcoder.
pub ghost enum StateView {
    Default,
    GotPrefix,
    Nibble1,
    Nibble2(u8),
    Named(Seq<u8>),
}

impl PcbState {
    /// The abstract content of a state.
    pub open spec fn view(&self) -> StateView {
        match self {
            PcbState::Default => StateView::Default,
            PcbState::GotPrefix => StateView::GotPrefix,
            PcbState::ReadColorNibble1 => StateView::Nibble1,
            PcbState::ReadColorNibble2(d) => StateView::Nibble2(*d),
            PcbState::ReadNamedSequence(acc) => StateView::Named(acc@),
        }
    }
}

/// The state after one input byte.
pub open spec fn step_state(s: StateView, b: u8) -> StateView {
    match s {
        StateView::Default => if b == PREFIX {
            StateView::GotPrefix
        } else {
            StateView::Default
        },
        StateView::GotPrefix => if b == 88 {
            StateView::Nibble1
        } else {
            StateView::Named(seq![b])
        },
        StateView::Nibble1 => if is_hex(b) {
            StateView::Nibble2(b)
        } else {
            StateView::Default
        },
        StateView::Nibble2(_) => StateView::Default,
        StateView::Named(acc) => if b == PREFIX {
            StateView::Default
        } else {
            StateView::Named(acc.push(b))
        },
    }
}

/// What one input byte emits.
pub open spec fn step_out(s: StateView, b: u8) -> Seq<u8> {
    match s {
        StateView::Default => if b == PREFIX {
            Seq::empty()
        } else {
            seq![b]
        },
        StateView::GotPrefix => Seq::empty(),
        StateView::Nibble1 => if is_hex(b) {
            Seq::empty()
        } else {
            seq![PREFIX, 88u8, b]
        },
        StateView::Nibble2(d) => if is_hex(b) {
            color_seq(hex_val(d) * 16 + hex_val(b))
        } else {
            seq![PREFIX, d, b]
        },
        StateView::Named(acc) => if b == PREFIX {
            named_seq_expansion(acc)
        } else {
            Seq::empty()
        },
    }
}

/// Everything the transcoder emits for the bytes of `data` from position
/// `i` on, started in state `s`; the terminator stops it.
pub open spec fn run_out(s: StateView, data: Seq<u8>, i: int) -> Seq<u8>
    decreases data.len() - i,
{
    if i < 0 || i >= data.len() || data[i] == TERMINATOR {
        Seq::empty()
    } else {
        step_out(s, data[i]) + run_out(step_state(s, data[i]), data, i + 1)
    }
}

/// The whole rewriting of one buffer.
pub open spec fn transcoded(data: Seq<u8>) -> Seq<u8> {
    run_out(StateView::Default, data, 0)
}

/// Appends the bytes of the escape sequence for one attribute byte; shared
/// by the print-path transcoder and the direct entry point.
fn push_color_seq(out: &mut Vec<u8>, c: u8)
    ensures
        final(out)@ == old(out)@ + color_seq(c as int),
{
    out.push(27);
    out.push(91);
    out.push(48);
    out.push(59);
    if c >= 128 {
        out.push(49);
        out.push(59);
    }
    let fg = color_offset_exec(c % 8);
    let bg = color_offset_exec((c / 16) % 8);
    out.push(51);
    out.push(48 + fg);
    out.push(59);
    out.push(52);
    out.push(48 + bg);
    out.push(109);
    proof {
        assert(final(out)@ =~= old(out)@ + color_seq(c as int));
    }
}

/// The palette reorder table.
fn color_offset_exec(i: u8) -> (r: u8)
    requires
        i < 8,
    ensures
        r as int == color_offset(i as int),
        r < 8,
{
    if i == 0 {
        0
    } else if i == 1 {
        4
    } else if i == 2 {
        2
    } else if i == 3 {
        6
    } else if i == 4 {
        1
    } else if i == 5 {
        5
    } else if i == 6 {
        3
    } else {
        7
    }
}

/// Whether a byte is an ASCII hex digit.
fn is_hex_exec(b: u8) -> (r: bool)
    ensures
        r == is_hex(b),
{
    (48 <= b && b <= 57) || (97 <= b && b <= 102) || (65 <= b && b <= 70)
}

/// The value of an ASCII hex digit.
fn hex_val_exec(b: u8) -> (r: u8)
    requires
        is_hex(b),
    ensures
        r as int == hex_val(b),
        r < 16,
{
    if 48 <= b && b <= 57 {
        b - 48
    } else if 97 <= b && b <= 102 {
        b - 97 + 10
    } else {
        b - 65 + 10
    }
}

/// The escape sequence that sets one attribute byte directly; the same
/// color table as the print path.
pub fn set_color(color: u8) -> (r: Vec<u8>)
    ensures
        r@ == color_seq(color as int),
{
    let mut out: Vec<u8> = Vec::new();
    push_color_seq(&mut out, color);
    out
}

/// Rewrites one buffer of application output into terminal bytes,
/// following the documented state machine; processing stops at the
/// terminator byte.
pub fn transcode(data: &[u8]) -> (r: Vec<u8>)
    ensures
        r@ == transcoded(data@),
{
    let mut out: Vec<u8> = Vec::new();
    let mut state = PcbState::Default;
    let n = data.len();
    let mut i: usize = 0;
    while i < n
        invariant
            n == data@.len(),
            i <= n,
            state@ matches StateView::Nibble2(d) ==> is_hex(d),
            transcoded(data@) == out@ + run_out(state@, data@, i as int),
        decreases n - i,
    {
        let c = data[i];
        if c == TERMINATOR {
            proof {
                assert(run_out(state@, data@, i as int) =~= Seq::<u8>::empty());
                assert(transcoded(data@) =~= out@);
            }
            return out;
        }
        let ghost pre: StateView = state@;
        let ghost pre_out: Seq<u8> = out@;
        match state {
            PcbState::Default => {
                if c == PREFIX {
                    state = PcbState::GotPrefix;
                } else {
                    out.push(c);
                }
            },
            PcbState::GotPrefix => {
                if c == 88 {
                    state = PcbState::ReadColorNibble1;
                } else {
                    let mut acc: Vec<u8> = Vec::new();
                    acc.push(c);
                    proof {
                        assert(acc@ =~= seq![c]);
                    }
                    state = PcbState::ReadNamedSequence(acc);
                }
            },
            PcbState::ReadColorNibble1 => {
                if is_hex_exec(c) {
                    state = PcbState::ReadColorNibble2(c);
                } else {
                    out.push(PREFIX);
                    out.push(88);
                    out.push(c);
                    state = PcbState::Default;
                }
            },
            PcbState::ReadColorNibble2(d) => {
                if is_hex_exec(c) {
                    let hi = hex_val_exec(d);
                    let lo = hex_val_exec(c);
                    push_color_seq(&mut out, hi * 16 + lo);
                } else {
                    out.push(PREFIX);
                    out.push(d);
                    out.push(c);
                }
                state = PcbState::Default;
            },
            PcbState::ReadNamedSequence(acc) => {
                if c == PREFIX {
                    if is_cls_token(&acc) {
                        out.push(27);
                        out.push(91);
                        out.push(50);
                        out.push(74);
                    }
                    state = PcbState::Default;
                } else {
                    let mut acc2 = acc;
                    acc2.push(c);
                    state = PcbState::ReadNamedSequence(acc2);
                }
            },
        }
        proof {
            assert(state@ == step_state(pre, c));
            assert(out@ =~= pre_out + step_out(pre, c));
            assert(run_out(pre, data@, i as int) == step_out(pre, c) + run_out(
                state@,
                data@,
                i as int + 1,
            ));
            assert(pre_out + run_out(pre, data@, i as int) =~= out@ + run_out(
                state@,
                data@,
                i as int + 1,
            ));
        }
        i = i + 1;
    }
    proof {
        assert(run_out(state@, data@, n as int) =~= Seq::<u8>::empty());
        assert(transcoded(data@) =~= out@);
    }
    out
}

/// Whether an accumulated name is the clear-screen token `CLS`.
fn is_cls_token(acc: &Vec<u8>) -> (r: bool)
    ensures
        r == (acc@ == seq![67u8, 76u8, 83u8]),
{
    if acc.len() == 3 && acc[0] == 67 && acc[1] == 76 && acc[2] == 83 {
        proof {
            assert(acc@ =~= seq![67u8, 76u8, 83u8]);
        }
        true
    } else {
        proof {
            if acc@ == seq![67u8, 76u8, 83u8] {
                assert(acc@.len() == 3);
                assert(acc@[0] == 67u8 && acc@[1] == 76u8 && acc@[2] == 83u8);
            }
        }
        false
    }
}

/// The uppercase hex digit characters of an attribute byte, high nibble
/// first.
pub open spec fn hex_hi(c: int) -> u8 {
    hex_digit_byte(c / 16)
}

/// The low hex digit of an attribute byte.
pub open spec fn hex_lo(c: int) -> u8 {
    hex_digit_byte(c % 16)
}

/// The uppercase ASCII hex digit for a value below sixteen.
pub open spec fn hex_digit_byte(d: int) -> u8 {
    if d < 10 {
        (48 + d) as u8
    } else {
        (65 + d - 10) as u8
    }
}

/// The print path and the direct entry point render one attribute byte
/// identically: transcoding the four-byte escape `@ X hi lo` (any pair of
/// hex digits) emits exactly the escape sequence of the attribute byte the
/// digits compose, and leaves the machine back in its default state.
pub proof fn lemma_color_roundtrip(d1: u8, d2: u8)
    requires
        is_hex(d1),
        is_hex(d2),
    ensures
        transcoded(seq![PREFIX, 88u8, d1, d2]) == color_seq(hex_val(d1) * 16 + hex_val(d2)),
{
    let data = seq![PREFIX, 88u8, d1, d2];
    assert(d1 != TERMINATOR && d2 != TERMINATOR);
    assert(run_out(StateView::Default, data, 4) =~= Seq::<u8>::empty());
    assert(run_out(StateView::Nibble2(d1), data, 3) =~= color_seq(hex_val(d1) * 16 + hex_val(d2)));
    assert(run_out(StateView::Nibble1, data, 2) =~= color_seq(hex_val(d1) * 16 + hex_val(d2)));
    assert(run_out(StateView::GotPrefix, data, 1) =~= color_seq(hex_val(d1) * 16 + hex_val(d2)));
    assert(transcoded(data) =~= color_seq(hex_val(d1) * 16 + hex_val(d2)));
}

/// For every attribute byte, the print path on `@X` plus the byte's two
/// uppercase hex digits equals the direct entry point on that byte.
pub proof fn lemma_print_path_matches_set_color(c: u8)
    ensures
        transcoded(seq![PREFIX, 88u8, hex_hi(c as int), hex_lo(c as int)]) == color_seq(c as int),
{
    let hi = hex_hi(c as int);
    let lo = hex_lo(c as int);
    assert(is_hex(hi) && hex_val(hi) == c as int / 16);
    assert(is_hex(lo) && hex_val(lo) == c as int % 16);
    lemma_color_roundtrip(hi, lo);
    assert(hex_val(hi) * 16 + hex_val(lo) == c as int);
}

/// A buffer holding neither the prefix byte nor the terminator passes
/// through the transcoder unchanged: identity on plain text.
pub proof fn lemma_plain_text_identity(data: Seq<u8>)
    requires
        forall|i: int| 0 <= i < data.len() ==> data[i] != PREFIX && data[i] != TERMINATOR,
    ensures
        transcoded(data) == data,
{
    lemma_plain_suffix(data, 0);
    assert(transcoded(data) =~= data);
}

proof fn lemma_plain_suffix(data: Seq<u8>, i: int)
    requires
        0 <= i <= data.len(),
        forall|k: int| 0 <= k < data.len() ==> data[k] != PREFIX && data[k] != TERMINATOR,
    ensures
        run_out(StateView::Default, data, i) == data.subrange(i, data.len() as int),
    decreases data.len() - i,
{
    if i == data.len() {
        assert(run_out(StateView::Default, data, i) =~= data.subrange(i, data.len() as int));
    } else {
        lemma_plain_suffix(data, i + 1);
        assert(run_out(StateView::Default, data, i) =~= data.subrange(i, data.len() as int));
    }
}

} // verus!
