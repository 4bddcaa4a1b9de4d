use crate::errors::CloudError;
use crate::text::{concat_all, concat_strs, decimal_string, int_decimal, lemma_concat_take_step, string_of};
use vstd::prelude::*;

verus! {

/// The cloud's answer, around its data.
pub struct Response<T> {
    pub data: T,
}

/// The token of a login by QR code: the text to show as a QR code, and the
/// fields that ask for its status.
pub struct Token {
    pub qrcode: String,
    pub uid: String,
    pub time: u64,
    pub sign: String,
}

/// The status of a login by QR code.
pub struct Status {
    pub status: i32,
}

/// The cookies a finished login by QR code gives.
pub struct QrcodeResult {
    pub cookies: Cookies,
}

/// The login cookies of the cloud.
#[allow(non_snake_case)]
pub struct Cookies {
    pub UID: String,
    pub CID: String,
    pub SEID: String,
    pub KID: String,
}

/// The query that asks for the status of a login by QR code.
pub struct Query {
    pub uid: String,
    pub time: u64,
    pub sign: String,
}

/// The modules of the QR code that `qrcode::QrCode::new` makes for `data`:
/// its width and, row by row, whether each module is dark; or the text of the
/// error.
pub uninterp spec fn qr_matrix(data: Seq<u8>) -> Result<(nat, Seq<bool>), Seq<char>>;

/// Makes the QR code of `data` with `qrcode::QrCode::new` and reads its modules
/// with `width` and `to_colors`. Claimed: the result is `qr_matrix` of the data,
/// and there are width times width modules, row after row, as the crate lays
/// them out.
#[verifier::external_body]
pub(crate) fn qr_modules(data: &[u8]) -> (r: Result<(usize, Vec<bool>), String>)
    ensures
        match r {
            Ok((w, m)) => qr_matrix(data@) == Ok::<(nat, Seq<bool>), Seq<char>>((w as nat, m@)) && m@.len() == w * w,
            Err(e) => qr_matrix(data@) == Err::<(nat, Seq<bool>), Seq<char>>(e@),
        },
{
    match qrcode::QrCode::new(data) {
        Ok(code) => Ok((code.width(), code.to_colors().iter().map(|c| *c == qrcode::Color::Dark).collect())),
        Err(e) => Err(format!("{e}")),
    }
}

/// The character that shows two modules, one above the other.
pub open spec fn half_block(top: bool, bottom: bool) -> char {
    if top && bottom {
        '█'
    } else if top {
        '▀'
    } else if bottom {
        '▄'
    } else {
        ' '
    }
}

/// Whether the module in column `x` of row `y` is dark; rows past the last
/// one are light.
pub open spec fn dark_at(w: nat, m: Seq<bool>, x: int, y: int) -> bool {
    y < w && m[y * w + x]
}

/// One line of text for rows `y` and `y + 1`.
pub open spec fn text_line(w: nat, m: Seq<bool>, y: int) -> Seq<char> {
    Seq::new(w, |x: int| half_block(dark_at(w, m, x, y), dark_at(w, m, x, y + 1))).push('\n')
}

/// The lines of text for the rows from `y` on, two rows a line.
pub open spec fn text_lines_from(w: nat, m: Seq<bool>, y: int) -> Seq<char>
    decreases w + 2 - y,
{
    if y < 0 || y >= w {
        Seq::empty()
    } else {
        text_line(w, m, y) + text_lines_from(w, m, y + 2)
    }
}

pub(crate) fn half_block_char(top: bool, bottom: bool) -> (r: char)
    ensures
        r == half_block(top, bottom),
{
    if top && bottom {
        '█'
    } else if top {
        '▀'
    } else if bottom {
        '▄'
    } else {
        ' '
    }
}

/// The QR code as text: each line shows two rows of modules with half blocks.
pub fn half_block_text(width: usize, modules: &[bool]) -> (r: String)
    requires
        modules@.len() == width * width,
    ensures
        r@ == text_lines_from(width as nat, modules@, 0),
{
    let ghost w = width as nat;
    let ghost m = modules@;
    let total: usize = modules.len();
    proof {
        assert(width + 2 <= usize::MAX + 1) by (nonlinear_arith)
            requires width * width <= usize::MAX, width >= 0;
    }
    let mut out: Vec<char> = Vec::new();
    let mut y: usize = 0;
    while y < width
        invariant
            w == width,
            m == modules@,
            m.len() == width * width,
            total == width * width,
            width + 2 <= usize::MAX + 1,
            y % 2 == 0,
            y <= width + 1,
            out@ + text_lines_from(w, m, y as int) == text_lines_from(w, m, 0),
        decreases width + 2 - y,
    {
        let ghost head = out@;
        let mut x: usize = 0;
        while x < width
            invariant
                w == width,
                m == modules@,
                m.len() == width * width,
                total == width * width,
                y < width,
                x <= width,
                out@ == head + Seq::new(x as nat, |k: int| half_block(dark_at(w, m, k, y as int), dark_at(w, m, k, y + 1))),
            decreases width - x,
        {
            proof {
                assert(y * width + x < width * width) by (nonlinear_arith)
                    requires y < width, x < width;
                assert(y * width + x == y * w + x);
            }
            let top = modules[y * width + x];
            let bottom = if y + 1 < width {
                proof {
                    assert((y + 1) * width + x < width * width) by (nonlinear_arith)
                        requires y + 1 < width, x < width;
                    assert((y + 1) * width + x == (y + 1) * w + x);
                }
                modules[(y + 1) * width + x]
            } else {
                false
            };
            out.push(half_block_char(top, bottom));
            proof {
                assert(out@ =~= head + Seq::new((x + 1) as nat, |k: int| half_block(dark_at(w, m, k, y as int), dark_at(w, m, k, y + 1))));
            }
            x = x + 1;
        }
        out.push('\n');
        proof {
            assert(out@ =~= head + text_line(w, m, y as int));
            assert(head + text_lines_from(w, m, y as int) =~= head + text_line(w, m, y as int) + text_lines_from(w, m, y + 2));
        }
        y = y + 2;
    }
    proof {
        assert(text_lines_from(w, m, y as int) =~= Seq::<char>::empty());
        assert(out@ + Seq::<char>::empty() =~= out@);
    }
    string_of(&out)
}

/// The text shown to scan for a login: the QR code of `data`, two rows of
/// modules a line; an error when no QR code can hold the data.
pub fn qrcode_text(data: &[u8]) -> (r: Result<String, CloudError>)
    ensures
        match qr_matrix(data@) {
            Ok((w, m)) => m.len() == w * w && (r matches Ok(t) && t@ == text_lines_from(w, m, 0)),
            Err(e) => r matches Err(CloudError::Api(msg)) && msg@ == e,
        },
{
    match qr_modules(data) {
        Ok((width, modules)) => Ok(half_block_text(width, modules.as_slice())),
        Err(e) => Err(CloudError::Api(e)),
    }
}

/// What a status of a login by QR code means: still waiting or scanned
/// (`Ok(false)`), signed in (`Ok(true)`), or the end of the login with a
/// message: expired, canceled, or another status.
pub open spec fn qrcode_status_spec(status: i32) -> Result<bool, Seq<char>> {
    if status == 0 || status == 1 {
        Ok(false)
    } else if status == 2 {
        Ok(true)
    } else if status == -1 {
        Err("[status=-1] qrcode: expired"@)
    } else if status == -2 {
        Err("[status=-2] qrcode: canceled"@)
    } else {
        Err("qrcode: aborted with "@ + int_decimal(status as int))
    }
}

/// Reads a status of a login by QR code: whether the login is signed in, or
/// the error that ends it.
pub fn qrcode_status_step(status: i32) -> (r: Result<bool, CloudError>)
    ensures
        match qrcode_status_spec(status) {
            Ok(b) => r == Ok::<bool, CloudError>(b),
            Err(e) => r matches Err(CloudError::Api(m)) && m@ == e,
        },
{
    if status == 0 || status == 1 {
        Ok(false)
    } else if status == 2 {
        Ok(true)
    } else if status == -1 {
        Err(CloudError::Api("[status=-1] qrcode: expired".to_owned()))
    } else if status == -2 {
        Err(CloudError::Api("[status=-2] qrcode: canceled".to_owned()))
    } else {
        let n = decimal_string(status);
        let parts = ["qrcode: aborted with ", n.as_str()];
        let m = concat_strs(&parts);
        proof {
            let v = seq!["qrcode: aborted with "@, n@];
            assert(parts@.map_values(|p: &str| p@) =~= v);
            crate::text::lemma_concat_two("qrcode: aborted with "@, n@);
        }
        Err(CloudError::Api(m))
    }
}

/// The cookie header of a login: `UID=..; CID=..; SEID=..; KID=..`.
pub open spec fn cookie_text(c: Cookies) -> Seq<char> {
    "UID="@ + c.UID@ + "; CID="@ + c.CID@ + "; SEID="@ + c.SEID@ + "; KID="@ + c.KID@
}

/// The cookie header made of the login cookies.
pub fn cookie_string(cookies: &Cookies) -> (r: String)
    ensures
        r@ == cookie_text(*cookies),
{
    let parts = [
        "UID=", cookies.UID.as_str(), "; CID=", cookies.CID.as_str(), "; SEID=", cookies.SEID.as_str(),
        "; KID=", cookies.KID.as_str(),
    ];
    let r = concat_strs(&parts);
    proof {
        let v = parts@.map_values(|p: &str| p@);
        assert(v.len() == 8);
        assert(concat_all(v.take(0)) =~= Seq::<char>::empty());
        lemma_concat_take_step(v, 0);
        lemma_concat_take_step(v, 1);
        lemma_concat_take_step(v, 2);
        lemma_concat_take_step(v, 3);
        lemma_concat_take_step(v, 4);
        lemma_concat_take_step(v, 5);
        lemma_concat_take_step(v, 6);
        lemma_concat_take_step(v, 7);
        assert(Seq::<char>::empty() + v[0] =~= v[0]);
        assert(concat_all(v) =~= cookie_text(*cookies));
    }
    r
}

} // verus!
