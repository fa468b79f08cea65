use vstd::prelude::*;

use vstd::string::StringExecFns;

verus! {

/// The block character that shows a pair of vertically stacked pixels: a
/// full block for both on, the matching half block for one on, and a space
/// for both off.
pub open spec fn pair_char(top: bool, bottom: bool) -> char {
    if top && bottom {
        '\u{2588}'
    } else if top {
        '\u{2580}'
    } else if bottom {
        '\u{2584}'
    } else {
        ' '
    }
}

/// Character `i` of the rendered framebuffer body: sixteen lines of 64 block
/// characters, each line closed by a carriage return and a newline, each line
/// showing two framebuffer rows.
pub open spec fn body_char(d: Seq<bool>, i: int) -> char {
    let line = i / 66;
    let pos = i % 66;
    if pos < 64 {
        pair_char(d[line * 128 + pos], d[line * 128 + 64 + pos])
    } else if pos == 64 {
        '\r'
    } else {
        '\n'
    }
}

/// The whole string drawn for a framebuffer `d`: escape codes that hide the
/// cursor, home it and set the two colors, then the sixteen body lines.
pub open spec fn display_text(d: Seq<bool>) -> Seq<char> {
    "\x1b[?25l\x1b[H\x1b[48;5;232m\x1b[38;5;214m"@ + Seq::new(1056, |i: int| body_char(d, i))
}

/// Generates a string that, printed to a terminal in raw mode, draws the
/// 64x32 framebuffer `display` (row-major, as [`crate::vm::Chip8::display`]
/// hands it out): each character cell shows two vertically stacked pixels as
/// half-block characters, and the leading escape codes hide the cursor, move
/// it to the top-left corner and set the colors.
pub fn generate_display_string(display: &Vec<bool>) -> (text: String)
    requires
        display@.len() == 2048,
    ensures
        text@ == display_text(display@),
{
    let mut output = String::new();
    output.append("\x1b[?25l\x1b[H\x1b[48;5;232m\x1b[38;5;214m");
    let mut line: usize = 0;
    while line < 16
        invariant
            line <= 16,
            display@.len() == 2048,
            output@ == "\x1b[?25l\x1b[H\x1b[48;5;232m\x1b[38;5;214m"@ + Seq::new(
                (line as int * 66) as nat,
                |i: int| body_char(display@, i),
            ),
        decreases 16 - line,
    {
        let mut pos: usize = 0;
        while pos < 64
            invariant
                line < 16,
                pos <= 64,
                display@.len() == 2048,
                output@ == "\x1b[?25l\x1b[H\x1b[48;5;232m\x1b[38;5;214m"@ + Seq::new(
                    (line as int * 66 + pos) as nat,
                    |i: int| body_char(display@, i),
                ),
            decreases 64 - pos,
        {
            let top = display[line * 128 + pos];
            let bottom = display[line * 128 + 64 + pos];
            if top && bottom {
                output.append("\u{2588}");
            } else if top {
                output.append("\u{2580}");
            } else if bottom {
                output.append("\u{2584}");
            } else {
                output.append(" ");
            }
            proof {
                reveal_strlit("\u{2588}");
                reveal_strlit("\u{2580}");
                reveal_strlit("\u{2584}");
                reveal_strlit(" ");
                let k = line as int * 66 + pos;
                assert(k / 66 == line && k % 66 == pos) by (nonlinear_arith)
                    requires
                        k == line as int * 66 + pos,
                        0 <= pos < 64,
                        0 <= line,
                ;
                assert(body_char(display@, k) == pair_char(
                    display@[line as int * 128 + pos],
                    display@[line as int * 128 + 64 + pos],
                ));
                assert(output@ =~= "\x1b[?25l\x1b[H\x1b[48;5;232m\x1b[38;5;214m"@ + Seq::new(
                    (k + 1) as nat,
                    |i: int| body_char(display@, i),
                ));
            }
            pos += 1;
        }
        output.append("\r\n");
        proof {
            reveal_strlit("\r\n");
            let k = line as int * 66 + 64;
            assert(k / 66 == line && k % 66 == 64 && (k + 1) / 66 == line && (k + 1) % 66 == 65)
                by (nonlinear_arith)
                requires
                    k == line as int * 66 + 64,
                    0 <= line,
            ;
            assert(output@ =~= "\x1b[?25l\x1b[H\x1b[48;5;232m\x1b[38;5;214m"@ + Seq::new(
                ((line + 1) as int * 66) as nat,
                |i: int| body_char(display@, i),
            ));
        }
        line += 1;
    }
    proof {
        assert(output@ =~= display_text(display@));
    }
    output
}

} // verus!
