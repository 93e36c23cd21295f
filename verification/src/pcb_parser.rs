//! The character-at-a-time variant of the escape parser: it tracks the
//! caret's current attribute while rewriting `@X`-style color codes into
//! terminal escape sequences, one input byte per call.
//!
//! The attribute byte follows the legacy layout: bits 0..2 the foreground
//! color index, bit 3 the bold/intense flag, bits 4..6 the background color
//! index. Both hex digits of a color code compose with the first digit as
//! the high nibble, and the color table is the same fixed 8-entry palette
//! reorder the buffer transcoder uses.

use vstd::prelude::*;
use crate::transcode::color_offset;

verus! {

/// The caret's attribute state, as the parser models it.
#[derive(Debug, Clone, Copy, PartialEq, Eq, Structural)]
pub struct PcbCaret {
    /// The current attribute byte.
    pub attr: u8,
}

impl PcbCaret {
    /// A caret with the default attribute.
    pub fn new() -> (r: Self)
        ensures
            r.attr == 0,
    {
        PcbCaret { attr: 0 }
    }

    /// Sets the attribute byte.
    pub fn set_attr(&mut self, attr: u8)
        ensures
            final(self).attr == attr,
    {
        self.attr = attr;
    }
}

/// The streaming escape parser: whether the prefix was seen, whether a
/// color code is being read, the pending first nibble, and how many color
/// digits were consumed.
#[derive(Debug)]
pub struct PCBoardParser {
    pub pcb_code: bool,
    pub pcb_color: bool,
    pub pcb_value: u8,
    pub pcb_pos: i32,
}

/// The value of one hex digit byte; a byte that is no hex digit counts as
/// zero.
pub open spec fn conv_val(ch: u8) -> u8 {
    if 48 <= ch && ch <= 57 {
        (ch - 48) as u8
    } else if 97 <= ch && ch <= 102 {
        (10 + ch - 97) as u8
    } else if 65 <= ch && ch <= 70 {
        (10 + ch - 65) as u8
    } else {
        0
    }
}

/// The escape sequence this parser emits when a color code completes:
/// `ESC [` then `1;` for a bold attribute and `0;` otherwise, then the
/// foreground code from the attribute's low bits, `;`, the background code
/// from bits 4..6, and `m`.
pub open spec fn attr_seq(attr: u8) -> Seq<u8> {
    let lead: Seq<u8> = if attr & 8 != 0 {
        seq![27u8, 91u8, 49u8, 59u8]
    } else {
        seq![27u8, 91u8, 48u8, 59u8]
    };
    lead + seq![
        51u8,
        (48 + color_offset((attr & 7) as int)) as u8,
        59u8,
        52u8,
        (48 + color_offset(((attr >> 4) & 7) as int)) as u8,
        109u8,
    ]
}

/// The numeric value of a hex digit byte; any other byte counts as zero.
pub fn conv_ch(ch: u8) -> (r: u8)
    ensures
        r == conv_val(ch),
        r < 16,
{
    if 48 <= ch && ch <= 57 {
        return ch - 48;
    }
    if 97 <= ch && ch <= 102 {
        return 10 + ch - 97;
    }
    if 65 <= ch && ch <= 70 {
        return 10 + ch - 65;
    }
    0
}

impl PCBoardParser {
    /// A parser in its default state.
    pub fn new() -> (r: Self)
        ensures
            !r.pcb_code,
            !r.pcb_color,
            r.pcb_value == 0,
            r.pcb_pos == 0,
    {
        PCBoardParser { pcb_code: false, pcb_color: false, pcb_value: 0, pcb_pos: 0 }
    }

    /// Feeds one byte through the parser: plain bytes are appended to the
    /// buffer; the prefix byte opens an escape; `X` after the prefix starts
    /// a color code; the first color digit is held as the high nibble; the
    /// second completes the attribute byte, moves it onto the caret and
    /// appends the corresponding escape sequence; a second prefix byte
    /// inside an escape cancels it; any other byte after the prefix is
    /// dropped and ends the escape.
    pub fn print_char(&mut self, buf: &mut Vec<u8>, caret: &mut PcbCaret, ch: u8)
        requires
            old(self).pcb_pos < i32::MAX,
        ensures
            ({
                let parser = *old(self);
                let pre = old(buf)@;
                if parser.pcb_color {
                    let pos = parser.pcb_pos + 1;
                    if pos == 1 {
                        &&& final(self).pcb_color && final(self).pcb_code == parser.pcb_code
                        &&& final(self).pcb_pos == 1
                        &&& final(self).pcb_value == conv_val(ch)
                        &&& final(buf)@ == pre
                        &&& *final(caret) == *old(caret)
                    } else {
                        &&& !final(self).pcb_color && !final(self).pcb_code
                        &&& (if pos == 2 {
                            let attr = ((parser.pcb_value << 4) + conv_val(ch)) as u8;
                            &&& final(self).pcb_value == attr
                            &&& final(caret).attr == attr
                            &&& final(buf)@ == pre + attr_seq(attr)
                        } else {
                            &&& final(self).pcb_value == parser.pcb_value
                            &&& *final(caret) == *old(caret)
                            &&& final(buf)@ == pre
                        })
                    }
                } else if parser.pcb_code {
                    &&& final(buf)@ == pre
                    &&& *final(caret) == *old(caret)
                    &&& (if ch == 64 {
                        !final(self).pcb_code && !final(self).pcb_color
                    } else if ch == 88 {
                        final(self).pcb_code && final(self).pcb_color && final(self).pcb_pos == 0
                    } else {
                        final(self).pcb_code && !final(self).pcb_color
                    })
                } else {
                    &&& *final(caret) == *old(caret)
                    &&& (if ch == 64 {
                        final(self).pcb_code && !final(self).pcb_color && final(buf)@ == pre
                    } else {
                        *final(self) == parser && final(buf)@ == pre.push(ch)
                    })
                }
            }),
    {
        if self.pcb_color {
            self.pcb_pos = self.pcb_pos + 1;
            if self.pcb_pos < 3 {
                if self.pcb_pos == 1 {
                    self.pcb_value = conv_ch(ch);
                    return ;
                }
                if self.pcb_pos == 2 {
                    let low = conv_ch(ch);
                    let hi = self.pcb_value;
                    let attr: u8 = ((hi as u32 * 16 + low as u32) % 256) as u8;
                    proof {
                        assert(attr == ((hi << 4) + low) as u8) by (bit_vector)
                            requires
                                attr == ((hi as u32 * 16 + low as u32) % 256) as u8,
                                low < 16,
                        ;
                    }
                    self.pcb_value = attr;
                    caret.set_attr(attr);
                    buf.push(27);
                    buf.push(91);
                    if attr & 8 != 0 {
                        buf.push(49);
                    } else {
                        buf.push(48);
                    }
                    buf.push(59);
                    proof {
                        assert(attr & 7 < 8 && (attr >> 4) & 7 < 8) by (bit_vector);
                    }
                    let fg = fg_code(attr & 7);
                    buf.push(51);
                    buf.push(fg);
                    buf.push(59);
                    let bg = fg_code((attr >> 4) & 7);
                    buf.push(52);
                    buf.push(bg);
                    buf.push(109);
                    proof {
                        assert(final(buf)@ =~= old(buf)@ + attr_seq(attr));
                    }
                }
            }
            self.pcb_color = false;
            self.pcb_code = false;
            return ;
        }
        if self.pcb_code {
            if ch == 64 {
                self.pcb_code = false;
            } else if ch == 88 {
                self.pcb_color = true;
                self.pcb_pos = 0;
            }
            return ;
        }
        if ch == 64 {
            self.pcb_code = true;
        } else {
            buf.push(ch);
        }
    }
}

/// The single digit of a color code's numeric offset, as a byte.
fn fg_code(i: u8) -> (r: u8)
    requires
        i < 8,
    ensures
        r as int == 48 + color_offset(i as int),
{
    if i == 0 {
        48
    } else if i == 1 {
        52
    } else if i == 2 {
        50
    } else if i == 3 {
        54
    } else if i == 4 {
        49
    } else if i == 5 {
        53
    } else if i == 6 {
        51
    } else {
        55
    }
}

} // verus!
