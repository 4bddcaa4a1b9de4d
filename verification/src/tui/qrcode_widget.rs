use crate::login_with_qrcode::{half_block, qr_matrix, qr_modules, dark_at, text_line, text_lines_from};
use crate::text::string_of;
use vstd::string::StringSliceAdditionalSpecFns;
use vstd::prelude::*;

verus! {

/// Draws the login QR code of a link, or the message shown in its place.
pub struct QrcodeWidget<'a> {
    url: &'a Result<Box<str>, &'a str>,
}

/// Whether the module in column `x` of row `y` of the drawing is light: the
/// code sits inside a light border one module wide.
pub open spec fn light_at(w: nat, m: Seq<bool>, x: int, y: int) -> bool {
    if 1 <= x < w + 1 && 1 <= y < w + 1 {
        !m[(y - 1) * w + (x - 1)]
    } else {
        true
    }
}

/// The lower half of a line of the drawing: light as the module below, except
/// under the last row, where nothing is drawn.
pub open spec fn light_below(w: nat, m: Seq<bool>, x: int, y: int) -> bool {
    if 1 <= x < w + 1 && 1 <= y + 1 < w + 1 {
        !m[y * w + (x - 1)]
    } else if y == w + 1 {
        false
    } else {
        true
    }
}

/// One line of the drawing, for rows `y` and `y + 1`.
pub open spec fn framed_line(w: nat, m: Seq<bool>, y: int) -> Seq<char> {
    Seq::new(w + 2, |x: int| half_block(light_at(w, m, x, y), light_below(w, m, x, y))).push('\n')
}

/// The lines of the drawing from row `y` on, two rows a line.
pub open spec fn framed_lines_from(w: nat, m: Seq<bool>, y: int) -> Seq<char>
    decreases w + 4 - y,
{
    if y < 0 || y >= w + 2 {
        Seq::empty()
    } else {
        framed_line(w, m, y) + framed_lines_from(w, m, y + 2)
    }
}

/// The drawing of a QR code of width `width` inside a light border, light
/// modules drawn, two rows a line.
pub fn framed_text(width: usize, modules: &[bool]) -> (r: String)
    requires
        modules@.len() == width * width,
    ensures
        r@ == framed_lines_from(width as nat, modules@, 0),
{
    let ghost w = width as nat;
    let ghost m = modules@;
    let total: usize = modules.len();
    proof {
        assert(width + 4 <= usize::MAX) by (nonlinear_arith)
            requires width * width <= usize::MAX, width >= 0, usize::MAX >= 0xffff_ffff;
    }
    let size: usize = width + 2;
    let mut out: Vec<char> = Vec::new();
    let mut y: usize = 0;
    while y < size
        invariant
            w == width,
            m == modules@,
            m.len() == width * width,
            total == width * width,
            width + 4 <= usize::MAX,
            size == width + 2,
            y <= size + 1,
            out@ + framed_lines_from(w, m, y as int) == framed_lines_from(w, m, 0),
        decreases size + 2 - y,
    {
        let ghost head = out@;
        let mut x: usize = 0;
        while x < size
            invariant
                w == width,
                m == modules@,
                m.len() == width * width,
                total == width * width,
                size == width + 2,
                y < size,
                x <= size,
                out@ == head + Seq::new(x as nat, |k: int| half_block(light_at(w, m, k, y as int), light_below(w, m, k, y as int))),
            decreases size - x,
        {
            let top = if x >= 1 && y >= 1 && x < width + 1 && y < width + 1 {
                proof {
                    assert((y - 1) * width + (x - 1) < width * width) by (nonlinear_arith)
                        requires 1 <= y < width + 1, 1 <= x < width + 1;
                    assert((y - 1) * width + (x - 1) == (y - 1) * w + (x - 1));
                }
                !modules[(y - 1) * width + (x - 1)]
            } else {
                true
            };
            let bottom = if x >= 1 && y + 1 >= 1 && x < width + 1 && y + 1 < width + 1 {
                proof {
                    assert(y * width + (x - 1) < width * width) by (nonlinear_arith)
                        requires y + 1 < width + 1, 1 <= x < width + 1;
                    assert(y * width + (x - 1) == y * w + (x - 1));
                }
                !modules[y * width + (x - 1)]
            } else if y == size - 1 {
                false
            } else {
                true
            };
            out.push(crate::login_with_qrcode::half_block_char(top, bottom));
            proof {
                assert(out@ =~= head + Seq::new((x + 1) as nat, |k: int| half_block(light_at(w, m, k, y as int), light_below(w, m, k, y as int))));
            }
            x = x + 1;
        }
        out.push('\n');
        proof {
            assert(out@ =~= head + framed_line(w, m, y as int));
            assert(head + framed_lines_from(w, m, y as int) =~= head + framed_line(w, m, y as int) + framed_lines_from(w, m, y + 2));
        }
        y = y + 2;
    }
    proof {
        assert(framed_lines_from(w, m, y as int) =~= Seq::<char>::empty());
        assert(out@ + Seq::<char>::empty() =~= out@);
    }
    string_of(&out)
}

impl<'a> QrcodeWidget<'a> {
    pub closed spec fn spec_url(&self) -> Result<Box<str>, &'a str> {
        *self.url
    }

    pub fn new(url: &'a Result<Box<str>, &'a str>) -> (r: Self)
        ensures
            r.spec_url() == *url,
    {
        QrcodeWidget { url }
    }

    /// What the widget shows: nothing drawn when there is no link (its
    /// message is shown instead); the drawing of the link's QR code; or the
    /// error when no QR code holds the link.
    pub fn drawing(&self) -> (r: Option<Result<String, String>>)
        ensures
            self.spec_url() is Err ==> r is None,
            self.spec_url() matches Ok(u) ==> match qr_matrix((&*u).spec_bytes()) {
                Ok((w, m)) => m.len() == w * w && (r matches Some(Ok(t)) && t@ == framed_lines_from(w, m, 0)),
                Err(e) => r matches Some(Err(msg)) && msg@ == e,
            },
    {
        match self.url {
            Ok(u) => {
                let s: &str = u;
                match qr_modules(s.as_bytes()) {
                    Ok((width, modules)) => Some(Ok(framed_text(width, modules.as_slice()))),
                    Err(e) => Some(Err(e)),
                }
            },
            Err(_) => None,
        }
    }
}

/// The code inside its light border, one module wide: a square of side
/// `w + 2`, row by row, a module set where the drawing fills it, on the
/// border and where the code is light.
pub open spec fn lit_bordered(w: nat, m: Seq<bool>) -> Seq<bool> {
    Seq::new(((w + 2) * (w + 2)) as nat, |i: int| {
        let x = i % (w + 2) as int;
        let y = i / (w + 2) as int;
        x == 0 || y == 0 || x == w + 1 || y == w + 1 || !m[(y - 1) * w + (x - 1)]
    })
}

/// The module in column `x` of row `y` of a square of side `n` stands at
/// `y * n + x`.
proof fn lemma_cell_index(n: int, x: int, y: int)
    requires
        0 <= x < n,
        0 <= y < n,
    ensures
        0 <= y * n + x < n * n,
        (y * n + x) % n == x,
        (y * n + x) / n == y,
{
    assert(0 <= y * n + x < n * n) by (nonlinear_arith)
        requires
            0 <= x < n,
            0 <= y < n,
    ;
    vstd::arithmetic::div_mod::lemma_fundamental_div_mod_converse(y * n + x, n, y, x);
}

/// One line of the drawing is the half-block line of the bordered code.
proof fn lemma_framed_line(w: nat, m: Seq<bool>, y: int)
    requires
        m.len() == w * w,
        0 <= y < w + 2,
    ensures
        framed_line(w, m, y) == text_line(w + 2, lit_bordered(w, m), y),
{
    let n = w + 2;
    let b = lit_bordered(w, m);
    assert forall|x: int| 0 <= x < n implies light_at(w, m, x, y) == dark_at(n, b, x, y) && light_below(w, m, x, y) == dark_at(
        n,
        b,
        x,
        y + 1,
    ) by {
        lemma_cell_index(n as int, x, y);
        if y + 1 < n {
            lemma_cell_index(n as int, x, y + 1);
        }
    }
    assert(framed_line(w, m, y) =~= text_line(n, b, y));
}

/// The lines of the drawing from row `y` on are those of the bordered code.
proof fn lemma_framed_lines_from(w: nat, m: Seq<bool>, y: int)
    requires
        m.len() == w * w,
        0 <= y,
    ensures
        framed_lines_from(w, m, y) == text_lines_from(w + 2, lit_bordered(w, m), y),
    decreases w + 4 - y,
{
    if y < w + 2 {
        lemma_framed_line(w, m, y);
        lemma_framed_lines_from(w, m, y + 2);
    }
}

/// The drawing of a code is the half-block text of the code inside its light
/// border, light modules filled: the character in column `x` of line `k`
/// shows in its upper half the module in row `2k` of the bordered code and in
/// its lower half the one in row `2k + 1`, so the drawing scans as the code.
pub proof fn law_drawing_is_the_bordered_code(w: nat, m: Seq<bool>)
    requires
        m.len() == w * w,
    ensures
        framed_lines_from(w, m, 0) == text_lines_from(w + 2, lit_bordered(w, m), 0),
{
    lemma_framed_lines_from(w, m, 0);
}

} // verus!
