//! Terminal rendering of QR codes: two rows of modules per line of text,
//! drawn with half-block characters, inside a quiet zone.

use vstd::prelude::*;

verus! {

/// The modules of the QR code of a text (dark is `true`, row by row) and its
/// width; `None` where the text does not fit in a code.
pub uninterp spec fn qr_modules_of(data: Seq<char>) -> Option<(Seq<bool>, nat)>;

/// Relies on qrcode::QrCode::with_error_correction_level at level L, and on
/// QrCode::to_colors and QrCode::width: the modules, row by row, of a square
/// code of that width.
#[verifier::external_body]
fn qr_modules(data: &str) -> (r: Option<(Vec<bool>, usize)>)
    ensures
        match r {
            Some((m, w)) => qr_modules_of(data@) == Some((m@, w as nat)) && m@.len() == w * w,
            None => qr_modules_of(data@) is None,
        },
{
    match qrcode::QrCode::with_error_correction_level(data.as_bytes(), qrcode::EcLevel::L) {
        Ok(code) => Some((code.to_colors().into_iter().map(|c| c == qrcode::Color::Dark).collect(), code.width())),
        Err(_) => None,
    }
}

/// The character for a pair of modules, the upper over the lower.
pub open spec fn block(top: bool, bottom: bool) -> char {
    if top && bottom {
        '█'
    } else if top {
        '▀'
    } else if bottom {
        '▄'
    } else {
        ' '
    }
}

/// `n` spaces.
pub open spec fn spaces(n: nat) -> Seq<char> {
    Seq::new(n, |i: int| ' ')
}

/// The characters of the line that draws rows `r` and `r + 1`.
pub open spec fn cells(m: Seq<bool>, w: nat, r: nat) -> Seq<char> {
    Seq::new(w, |c: int| block(m[r * w + c], r + 1 < w && m[(r + 1) * w + c]))
}

/// The lines that draw the rows from `r` on, two rows per line.
pub open spec fn lines_from(m: Seq<bool>, w: nat, r: nat) -> Seq<char>
    decreases w + 1 - r,
{
    if r >= w {
        Seq::empty()
    } else {
        "  "@ + cells(m, w, r) + "  \n"@ + lines_from(m, w, r + 2)
    }
}

/// The drawing of a code of width `w`.
pub open spec fn drawing(m: Seq<bool>, w: nat) -> Seq<char> {
    "\n"@ + spaces(w + 4) + "\n"@ + lines_from(m, w, 0) + spaces(w + 4) + "\n"@
}

fn push_spaces(s: &mut String, n: usize)
    ensures
        final(s)@ == old(s)@ + spaces(n as nat),
{
    let mut i: usize = 0;
    while i < n
        invariant
            i <= n,
            s@ == old(s)@ + spaces(i as nat),
        decreases n - i,
    {
        s.push(' ');
        assert(spaces((i + 1) as nat) =~= spaces(i as nat).push(' '));
        i = i + 1;
    }
}

fn block_char(top: bool, bottom: bool) -> (c: char)
    ensures
        c == block(top, bottom),
{
    if top && bottom {
        '█'
    } else if top {
        '▀'
    } else if bottom {
        '▄'
    } else {
        ' '
    }
}

/// Draws the modules `m` of a code of width `w`.
pub fn draw_modules(m: &Vec<bool>, w: usize) -> (r: String)
    requires
        m@.len() == w * w,
    ensures
        r@ == drawing(m@, w as nat),
{
    let len = m.len();
    assert(len == w * w);
    proof {
        if w >= 2 {
            assert(w * w >= 2 * w) by (nonlinear_arith)
                requires
                    w >= 2,
            ;
        }
    }
    assert(w + 4 <= usize::MAX);
    let mut out = String::from_str("\n");
    push_spaces(&mut out, w + 4);
    out.append("\n");
    let ghost head = out@;
    let ghost tail = spaces((w + 4) as nat) + "\n"@;
    let mut r: usize = 0;
    while r < w
        invariant
            m@.len() == w * w,
            w * w <= usize::MAX,
            w + 4 <= usize::MAX,
            r <= w + 1,
            head + lines_from(m@, w as nat, 0) == out@ + lines_from(m@, w as nat, r as nat),
        decreases w + 1 - r,
    {
        let ghost before = out@;
        out.append("  ");
        let mut c: usize = 0;
        while c < w
            invariant
                m@.len() == w * w,
                w * w <= usize::MAX,
                w + 4 <= usize::MAX,
                r < w,
                c <= w,
                out@ == before + "  "@ + cells(m@, w as nat, r as nat).subrange(0, c as int),
            decreases w - c,
        {
            proof {
                assert(r * w + c < w * w) by (nonlinear_arith)
                    requires
                        r < w,
                        c < w,
                ;
                if r + 1 < w {
                    assert((r + 1) * w + c < w * w) by (nonlinear_arith)
                        requires
                            r + 1 < w,
                            c < w,
                    ;
                }
            }
            let top = m[r * w + c];
            let bottom = if r + 1 < w {
                m[(r + 1) * w + c]
            } else {
                false
            };
            out.push(block_char(top, bottom));
            assert(cells(m@, w as nat, r as nat).subrange(0, c + 1) =~= cells(m@, w as nat, r as nat).subrange(
                0,
                c as int,
            ).push(block(top, bottom)));
            c = c + 1;
        }
        out.append("  \n");
        proof {
            assert(cells(m@, w as nat, r as nat).subrange(0, w as int) =~= cells(m@, w as nat, r as nat));
            assert(lines_from(m@, w as nat, r as nat) == "  "@ + cells(m@, w as nat, r as nat) + "  \n"@ + lines_from(
                m@,
                w as nat,
                (r + 2) as nat,
            ));
            assert(before + lines_from(m@, w as nat, r as nat) =~= out@ + lines_from(m@, w as nat, (r + 2) as nat));
        }
        r = r + 2;
    }
    assert(lines_from(m@, w as nat, r as nat) =~= Seq::<char>::empty());
    push_spaces(&mut out, w + 4);
    out.append("\n");
    assert(out@ =~= drawing(m@, w as nat));
    out
}

/// The drawing of the QR code of `data`; `None` where the text does not fit
/// in a code.
pub fn render_qr_code(data: &str) -> (r: Option<String>)
    ensures
        match qr_modules_of(data@) {
            Some((m, w)) => r is Some && r->0@ == drawing(m, w),
            None => r is None,
        },
{
    match qr_modules(data) {
        Some((m, w)) => Some(draw_modules(&m, w)),
        None => None,
    }
}

} // verus!
