use crate::frame::FrameBuffer;
use std::io::Write;
use vstd::prelude::*;

verus! {

/// The character one pixel renders to on the terminal.
pub open spec fn pixel_char(on: bool) -> char {
    if on {
        '\u{25A0}'
    } else {
        ' '
    }
}

/// The text a frame renders to: a terminal reset escape and a carriage
/// return, then each of the 32 rows as a newline followed by its 64 pixel
/// characters, top row first.
pub open spec fn render_spec(video: Seq<bool>) -> Seq<char> {
    Seq::new(2083, |k: int| {
        if k == 0 {
            '\u{1b}'
        } else if k == 1 {
            'c'
        } else if k == 2 {
            '\r'
        } else {
            let j = k - 3;
            if j % 65 == 0 {
                '\n'
            } else {
                pixel_char(video[(j / 65) * 64 + (j % 65 - 1)])
            }
        }
    })
}

/// The frame sink the execution engine pushes finished frames to.
pub trait Chip8Display {
    /// Accept one complete 64x32 frame, row-major. The sink must not keep
    /// the buffer and is expected to return promptly: a sink that blocks
    /// stalls emulation.
    fn display(&self, data: &FrameBuffer)
        requires
            data.wf(),
    ;
}

/// A sink that discards every frame: for tests, and for running without a
/// terminal.
pub struct Chip8NullDisplay {}

impl Chip8Display for Chip8NullDisplay {
    fn display(&self, data: &FrameBuffer) {
    }
}

/// A sink that redraws each frame as text on the terminal.
pub struct Chip8TerminalDisplay {}

impl Chip8TerminalDisplay {
    pub fn new() -> (r: Chip8TerminalDisplay) {
        Chip8TerminalDisplay {  }
    }
}

impl Default for Chip8TerminalDisplay {
    fn default() -> (r: Self)
        ensures
            r == (Chip8TerminalDisplay {  }),
    {
        Chip8TerminalDisplay::new()
    }
}

/// Relies on std::io::Stdout's Write implementation, through the `write!`
/// macro, to put the rendered text on the terminal.
#[verifier::external_body]
fn write_stdout(s: &str) {
    let mut out = std::io::stdout();
    let _ = write!(out, "{}", s);
}

/// Render one frame as the terminal text `render_spec` describes.
pub fn render_frame(data: &FrameBuffer) -> (r: String)
    requires
        data.wf(),
    ensures
        r@ == render_spec(data@),
{
    let mut out = String::from_str("\u{1b}c\r");
    proof {
        reveal_strlit("\u{1b}c\r");
        assert(out@ =~= render_spec(data@).take(3));
    }
    let mut row: usize = 0;
    while row < 32
        invariant
            data.wf(),
            row <= 32,
            out@ == render_spec(data@).take(3 + 65 * row),
        decreases 32 - row,
    {
        out.append("\n");
        proof {
            reveal_strlit("\n");
            let m = 3 + 65 * (row as int);
            assert((m - 3) % 65 == 0) by (nonlinear_arith)
                requires
                    m == 3 + 65 * (row as int),
                    0 <= row,
            ;
            assert(render_spec(data@)[m] == '\n');
            assert(out@ =~= render_spec(data@).take(m + 1));
        }
        let mut colu: usize = 0;
        while colu < 64
            invariant
                data.wf(),
                row < 32,
                colu <= 64,
                out@ == render_spec(data@).take(3 + 65 * row + 1 + colu),
            decreases 64 - colu,
        {
            let on = data.get(colu, row);
            if on {
                out.append("\u{25A0}");
            } else {
                out.append(" ");
            }
            proof {
                reveal_strlit("\u{25A0}");
                reveal_strlit(" ");
                let m = 3 + 65 * (row as int) + 1 + colu as int;
                assert((m - 3) / 65 == row as int && (m - 3) % 65 == colu as int + 1)
                    by (nonlinear_arith)
                    requires
                        m == 3 + 65 * (row as int) + 1 + colu as int,
                        0 <= row,
                        0 <= colu < 64,
                ;
                assert(render_spec(data@)[m] == pixel_char(data@[row as int * 64 + colu as int]));
                assert(out@ =~= render_spec(data@).take(m + 1));
            }
            colu = colu + 1;
        }
        row = row + 1;
    }
    proof {
        assert(render_spec(data@).take(2083) =~= render_spec(data@));
    }
    out
}

impl Chip8Display for Chip8TerminalDisplay {
    fn display(&self, data: &FrameBuffer) {
        let text = render_frame(data);
        write_stdout(text.as_str());
    }
}

} // verus!
