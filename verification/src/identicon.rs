//! Mirrored 5×5 identicons: which cells a seed's digest fills, and the SVG
//! that draws them. The foreground colour is computed by the caller.

use vstd::prelude::*;
use vstd::utf8::encode_utf8;
use crate::text::{push_str, push_decimal, decimal};
use crate::csrf::{sha256, sha256_spec};
use crate::sharing::{to_hex, hex_text};

verus! {

/// SHA-256 digest of a seed's UTF-8 bytes: the identicon's source of bits.
pub fn identicon_digest(seed: &str) -> (r: Vec<u8>)
    ensures
        r@ == sha256_spec(encode_utf8(seed@)),
        r@.len() == 32,
{
    sha256(seed.as_bytes())
}

/// The big-endian number in the digest's last four bytes, which picks the hue.
pub open spec fn hue_seed_spec(d: Seq<u8>) -> int {
    d[28] * 16777216 + d[29] * 65536 + d[30] * 256 + d[31]
}

pub fn hue_seed(digest: &[u8]) -> (r: u32)
    requires
        digest@.len() == 32,
    ensures
        r == hue_seed_spec(digest@),
{
    (digest[28] as u32) * 16777216 + (digest[29] as u32) * 65536 + (digest[30] as u32) * 256 + digest[31] as u32
}

/// `#rrggbb` in lower-case hex.
pub fn color_hex(r: u8, g: u8, b: u8) -> (s: String)
    ensures
        s@ == seq!['#'] + hex_text(seq![r, g, b]),
{
    let mut out = String::from_str("#");
    let v: Vec<u8> = vec![r, g, b];
    let h = to_hex(v.as_slice());
    push_str(&mut out, h.as_str());
    proof {
        reveal_strlit("#");
    }
    assert(out@ =~= seq!['#'] + hex_text(seq![r, g, b]));
    out
}

/// Column and row of the `i`-th cell of the centre and left half.
pub open spec fn cell_pos(i: int) -> (int, int) {
    if i < 5 { (2, i) } else if i < 10 { (1, i - 5) } else { (0, i - 10) }
}

/// One filled cell.
pub open spec fn rect_text(x: int, y: int, color: Seq<char>) -> Seq<char> {
    "<rect x=\""@ + decimal(x) + "\" y=\""@ + decimal(y) + "\" width=\"1\" height=\"1\" fill=\""@ + color + "\"/>"@
}

/// The cells of digest byte `i`: none when the byte is odd, else its cell
/// and, off the centre column, the mirrored one.
pub open spec fn cell_text(d: Seq<u8>, i: int, color: Seq<char>) -> Seq<char> {
    if d[i] % 2 != 0 {
        Seq::empty()
    } else {
        let (c, r) = cell_pos(i);
        rect_text(c, r, color) + if c != 2 { rect_text(4 - c, r, color) } else { Seq::empty() }
    }
}

/// The cells of the first `k` digest bytes.
pub open spec fn cells_text(d: Seq<u8>, color: Seq<char>, k: nat) -> Seq<char>
    decreases k,
{
    if k == 0 { Seq::empty() } else { cells_text(d, color, (k - 1) as nat) + cell_text(d, k - 1, color) }
}

/// The identicon of a digest in a colour.
pub open spec fn identicon_text(d: Seq<u8>, color: Seq<char>) -> Seq<char> {
    "<svg xmlns=\"http://www.w3.org/2000/svg\" viewBox=\"0 0 5 5\" shape-rendering=\"crispEdges\">"@
        + "<rect width=\"5\" height=\"5\" fill=\"#f0f0f0\"/>"@ + cells_text(d, color, 15) + "</svg>"@
}

/// Appends one filled cell.
pub fn push_cell(out: &mut String, x: u8, y: u8, color: &str)
    ensures
        final(out)@ == old(out)@ + rect_text(x as int, y as int, color@),
{
    push_str(out, "<rect x=\"");
    push_decimal(out, x as i64);
    push_str(out, "\" y=\"");
    push_decimal(out, y as i64);
    push_str(out, "\" width=\"1\" height=\"1\" fill=\"");
    push_str(out, color);
    push_str(out, "\"/>");
}

/// The identicon SVG: a light background, and the cells that the first
/// fifteen digest bytes fill, mirrored about the centre column.
pub fn identicon_svg(digest: &[u8], color: &str) -> (r: String)
    requires
        digest@.len() >= 15,
    ensures
        r@ == identicon_text(digest@, color@),
{
    let mut out = String::new();
    push_str(&mut out, "<svg xmlns=\"http://www.w3.org/2000/svg\" viewBox=\"0 0 5 5\" shape-rendering=\"crispEdges\">");
    push_str(&mut out, "<rect width=\"5\" height=\"5\" fill=\"#f0f0f0\"/>");
    let ghost head = out@;
    let mut i: usize = 0;
    while i < 15
        invariant
            i <= 15,
            digest@.len() >= 15,
            out@ == head + cells_text(digest@, color@, i as nat),
        decreases 15 - i,
    {
        if digest[i] % 2 == 0 {
            let (col, row): (u8, u8) = if i < 5 {
                (2, i as u8)
            } else if i < 10 {
                (1, (i - 5) as u8)
            } else {
                (0, (i - 10) as u8)
            };
            push_cell(&mut out, col, row, color);
            if col != 2 {
                push_cell(&mut out, 4 - col, row, color);
            }
        }
        assert(out@ =~= head + cells_text(digest@, color@, (i + 1) as nat));
        i = i + 1;
    }
    push_str(&mut out, "</svg>");
    out
}

} // verus!
