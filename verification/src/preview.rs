//! Preview image packing and quality heuristics for rendered RGBA8 frames.

use base64::engine::general_purpose::STANDARD;
use base64::Engine;
use crate::text::{decimal_chars, push_chars, push_decimal_chars, string_from_chars};
use vstd::prelude::*;

verus! {

/// The framebuffer clear color of the preview renderer.
pub const CLEAR_RGBA: [u8; 4] = [12, 14, 18, 255];

/// Observed framebuffer clear bytes from the sRGB readback of the GPU renderer.
pub const GPU_CLEAR_RGBA: [u8; 4] = [61, 66, 75, 255];

/// Symbol `v` (`0..64`) of the standard base64 alphabet.
pub open spec fn b64_symbol(v: int) -> char {
    if v < 26 {
        (65 + v) as char
    } else if v < 52 {
        (97 + v - 26) as char
    } else if v < 62 {
        (48 + v - 52) as char
    } else if v == 62 {
        '+'
    } else {
        '/'
    }
}

/// Standard base64 (RFC 4648 alphabet, `=` padding) of `b`: every three bytes become four
/// symbols; a final group of one or two bytes is padded to four symbols with `=`.
pub open spec fn base64_standard(b: Seq<u8>) -> Seq<char>
    decreases b.len(),
{
    if b.len() == 0 {
        Seq::empty()
    } else {
        let x0 = b[0] as int;
        if b.len() == 1 {
            seq![b64_symbol(x0 / 4), b64_symbol((x0 % 4) * 16), '=', '=']
        } else {
            let x1 = b[1] as int;
            if b.len() == 2 {
                seq![b64_symbol(x0 / 4), b64_symbol((x0 % 4) * 16 + x1 / 16), b64_symbol((x1 % 16) * 4), '=']
            } else {
                let x2 = b[2] as int;
                seq![b64_symbol(x0 / 4), b64_symbol((x0 % 4) * 16 + x1 / 16),
                    b64_symbol((x1 % 16) * 4 + x2 / 64), b64_symbol(x2 % 64)]
                    + base64_standard(b.skip(3))
            }
        }
    }
}

/// `base64::engine::general_purpose::STANDARD.encode`: the standard padded base64 text of
/// `bytes`. It panics when the encoded length overflows `usize`, which `requires` rules out.
#[verifier::external_body]
fn base64_encode(bytes: &[u8]) -> (s: String)
    requires
        (bytes@.len() / 3) * 4 + 4 <= usize::MAX,
    ensures
        s@ == base64_standard(bytes@),
{
    STANDARD.encode(bytes)
}

/// `base64::engine::general_purpose::STANDARD.decode`: with canonical padding required and
/// trailing bits refused, it succeeds exactly on texts that are the standard encoding of some
/// bytes, and returns those bytes.
#[verifier::external_body]
fn base64_decode(text: &String) -> (r: Option<Vec<u8>>)
    ensures
        match r {
            Some(v) => text@ == base64_standard(v@),
            None => forall|b: Seq<u8>| text@ != #[trigger] base64_standard(b),
        },
{
    STANDARD.decode(text.as_bytes()).ok()
}

/// The message of a preview whose RGBA byte count does not match its size.
pub open spec fn rgba_length_message(len: int, width: u32, height: u32, expected: int) -> Seq<char> {
    "preview rgba length "@ + decimal_chars(len as nat) + " does not match "@ + decimal_chars(width as nat) + "x"@
        + decimal_chars(height as nat) + " (expected "@ + decimal_chars(expected as nat) + " bytes)"@
}

/// The `Display` text of the error `base64::engine::general_purpose::STANDARD.decode` returns
/// for `text` (the offending symbol or length).
pub uninterp spec fn base64_error_text(text: Seq<char>) -> Seq<char>;

/// The message of a preview whose base64 text does not decode.
pub open spec fn rgba_base64_message(text: Seq<char>) -> Seq<char> {
    "preview rgba base64 decode failed: "@ + base64_error_text(text)
}

/// The message of a decoded preview whose byte count does not match its size.
pub open spec fn decoded_length_message(len: int, width: u32, height: u32, expected: int) -> Seq<char> {
    "decoded preview rgba length "@ + decimal_chars(len as nat) + " does not match "@ + decimal_chars(width as nat)
        + "x"@ + decimal_chars(height as nat) + " (expected "@ + decimal_chars(expected as nat) + " bytes)"@
}

/// Formats a length-mismatch message: `lead`, the byte count, the size and the expected
/// count.
fn format_length_message(lead: &str, len: usize, width: u32, height: u32, expected: usize) -> (m: String)
    ensures
        m@ == lead@ + decimal_chars(len as nat) + " does not match "@ + decimal_chars(width as nat) + "x"@
            + decimal_chars(height as nat) + " (expected "@ + decimal_chars(expected as nat) + " bytes)"@,
{
    let mut v: Vec<char> = Vec::new();
    push_chars(&mut v, lead);
    push_decimal_chars(&mut v, len as u64);
    push_chars(&mut v, " does not match ");
    push_decimal_chars(&mut v, width as u64);
    push_chars(&mut v, "x");
    push_decimal_chars(&mut v, height as u64);
    push_chars(&mut v, " (expected ");
    push_decimal_chars(&mut v, expected as u64);
    push_chars(&mut v, " bytes)");
    assert(v@ =~= lead@ + decimal_chars(len as nat) + " does not match "@ + decimal_chars(width as nat) + "x"@
        + decimal_chars(height as nat) + " (expected "@ + decimal_chars(expected as nat) + " bytes)"@);
    string_from_chars(v.as_slice())
}

/// Formats the length-mismatch message of `from_rgba`.
fn format_rgba_length_message(len: usize, width: u32, height: u32, expected: usize) -> (m: String)
    ensures
        m@ == rgba_length_message(len as int, width, height, expected as int),
{
    format_length_message("preview rgba length ", len, width, height, expected)
}

/// The `Display` text of the error `base64::engine::general_purpose::STANDARD.decode` returns
/// for a `text` that does not decode. Its wording is named, not stated.
#[verifier::external_body]
fn base64_decode_error(text: &String) -> (m: String)
    requires
        forall|b: Seq<u8>| text@ != #[trigger] base64_standard(b),
    ensures
        m@ == base64_error_text(text@),
{
    STANDARD.decode(text.as_bytes()).err().map(|err| err.to_string()).unwrap_or_default()
}

/// The decode-failure message of `decode_rgba` for a `text` that does not decode: a fixed lead
/// and the decoder's error text.
fn format_rgba_base64_message(text: &String) -> (m: String)
    requires
        forall|b: Seq<u8>| text@ != #[trigger] base64_standard(b),
    ensures
        m@ == rgba_base64_message(text@),
{
    let detail = base64_decode_error(text);
    let mut v: Vec<char> = Vec::new();
    push_chars(&mut v, "preview rgba base64 decode failed: ");
    push_chars(&mut v, detail.as_str());
    string_from_chars(v.as_slice())
}

/// Formats the length-mismatch message of `decode_rgba`.
fn format_decoded_length_message(len: usize, width: u32, height: u32, expected: usize) -> (m: String)
    ensures
        m@ == decoded_length_message(len as int, width, height, expected as int),
{
    format_length_message("decoded preview rgba length ", len, width, height, expected)
}

/// A rendered preview frame: `width × height` RGBA8 pixels carried as standard base64 text.
#[derive(Debug, Clone, PartialEq, Eq)]
pub struct NativePreviewImage {
    pub width: u32,
    pub height: u32,
    /// Base64-encoded RGBA8 pixels (`width * height * 4` bytes decoded).
    pub rgba_base64: String,
    pub backend: String,
}

/// Byte count of a `width × height` RGBA8 frame.
pub open spec fn rgba_len(width: u32, height: u32) -> int {
    width * height * 4
}

impl NativePreviewImage {
    /// Packs `rgba` as a preview of the given size; fails when its length is not
    /// `width * height * 4`.
    pub fn from_rgba(width: u32, height: u32, rgba: Vec<u8>, backend: &str) -> (r: Result<Self, String>)
        requires
            rgba_len(width, height) <= usize::MAX,
            (rgba@.len() / 3) * 4 + 4 <= usize::MAX,
        ensures
            rgba.len() == rgba_len(width, height) <==> r is Ok,
            r matches Ok(p) ==> p.width == width && p.height == height
                && p.rgba_base64@ == base64_standard(rgba@) && p.backend@ == backend@,
            r matches Err(m) ==> m@ == rgba_length_message(rgba.len() as int, width, height,
                rgba_len(width, height)),
    {
        let expected = width as usize * height as usize * 4;
        if rgba.len() != expected {
            return Err(format_rgba_length_message(rgba.len(), width, height, expected));
        }
        Ok(NativePreviewImage {
            width,
            height,
            rgba_base64: base64_encode(rgba.as_slice()),
            backend: backend.to_string(),
        })
    }

    /// Decodes the pixels; fails when the text is not standard base64 or does not hold
    /// exactly `width * height * 4` bytes.
    pub fn decode_rgba(&self) -> (r: Result<Vec<u8>, String>)
        requires
            rgba_len(self.width, self.height) <= usize::MAX,
        ensures
            r is Ok <==> exists|b: Seq<u8>| #[trigger] base64_standard(b) == self.rgba_base64@
                && b.len() == rgba_len(self.width, self.height),
            r matches Ok(v) ==> base64_standard(v@) == self.rgba_base64@,
            r matches Err(m) ==> (forall|b: Seq<u8>| self.rgba_base64@ != #[trigger] base64_standard(b))
                && m@ == rgba_base64_message(self.rgba_base64@)
                || exists|b: Seq<u8>| #[trigger] base64_standard(b) == self.rgba_base64@
                && b.len() != rgba_len(self.width, self.height)
                && m@ == decoded_length_message(b.len() as int, self.width, self.height,
                    rgba_len(self.width, self.height)),
    {
        let expected = self.width as usize * self.height as usize * 4;
        match base64_decode(&self.rgba_base64) {
            None => Err(format_rgba_base64_message(&self.rgba_base64)),
            Some(rgba) => {
                proof {
                    lemma_base64_injective(rgba@);
                }
                if rgba.len() != expected {
                    Err(format_decoded_length_message(rgba.len(), self.width, self.height, expected))
                } else {
                    Ok(rgba)
                }
            },
        }
    }
}

/// A preview packed by `from_rgba` from `rgba` decodes: `decode_rgba` finds a byte sequence
/// of the right length behind its text, and the only such sequence is `rgba` itself.
pub proof fn lemma_preview_round_trip(rgba: Seq<u8>, width: u32, height: u32)
    requires
        rgba.len() == rgba_len(width, height),
    ensures
        exists|b: Seq<u8>| #[trigger] base64_standard(b) == base64_standard(rgba) && b.len() == rgba_len(width, height),
        forall|v: Seq<u8>| #[trigger] base64_standard(v) == base64_standard(rgba) ==> v == rgba,
{
    lemma_base64_injective(rgba);
    assert(base64_standard(rgba) == base64_standard(rgba) && rgba.len() == rgba_len(width, height));
}

/// Standard base64 is injective: a text encodes at most one byte sequence.
pub proof fn lemma_base64_injective(b: Seq<u8>)
    ensures
        forall|c: Seq<u8>| #[trigger] base64_standard(c) == base64_standard(b) ==> c == b,
{
    assert forall|c: Seq<u8>| #[trigger] base64_standard(c) == base64_standard(b) implies c == b by {
        lemma_base64_injective_pair(b, c);
    }
}

proof fn lemma_b64_symbol(v: int, w: int)
    requires
        0 <= v < 64,
        0 <= w < 64,
    ensures
        b64_symbol(v) != '=',
        b64_symbol(v) == b64_symbol(w) ==> v == w,
{
}

proof fn lemma_base64_len(b: Seq<u8>)
    ensures
        base64_standard(b).len() == 4 * ((b.len() + 2) / 3),
    decreases b.len(),
{
    if b.len() >= 3 {
        lemma_base64_len(b.skip(3));
    }
}

/// The first group of four symbols of the encoding.
proof fn lemma_base64_head(b: Seq<u8>)
    requires
        b.len() >= 1,
    ensures
        ({
            let e = base64_standard(b);
            let x0 = b[0] as int;
            let x1 = if b.len() >= 2 { b[1] as int } else { 0 };
            let x2 = if b.len() >= 3 { b[2] as int } else { 0 };
            &&& e.len() >= 4
            &&& e[0] == b64_symbol(x0 / 4)
            &&& e[1] == b64_symbol((x0 % 4) * 16 + x1 / 16)
            &&& e[2] == (if b.len() >= 2 { b64_symbol((x1 % 16) * 4 + x2 / 64) } else { '=' })
            &&& e[3] == (if b.len() >= 3 { b64_symbol(x2 % 64) } else { '=' })
        }),
{
    lemma_base64_len(b);
}

proof fn lemma_base64_injective_pair(b: Seq<u8>, c: Seq<u8>)
    requires
        base64_standard(b) == base64_standard(c),
    ensures
        b == c,
    decreases b.len(),
{
    let e = base64_standard(b);
    lemma_base64_len(b);
    lemma_base64_len(c);
    if b.len() == 0 || c.len() == 0 {
        return;
    }
    lemma_base64_head(b);
    lemma_base64_head(c);
    let (b0, c0) = (b[0] as int, c[0] as int);
    lemma_b64_symbol(b0 / 4, c0 / 4);
    assert(b0 / 4 == c0 / 4);
    if b.len() == 1 || c.len() == 1 {
        if b.len() >= 2 {
            lemma_b64_symbol((b0 % 4) * 16 + b[1] as int / 16, 0);
            if b.len() >= 3 {
                lemma_b64_symbol((b[1] as int % 16) * 4 + b[2] as int / 64, 0);
            } else {
                lemma_b64_symbol((b[1] as int % 16) * 4, 0);
            }
        }
        if c.len() >= 2 {
            lemma_b64_symbol((c0 % 4) * 16 + c[1] as int / 16, 0);
            if c.len() >= 3 {
                lemma_b64_symbol((c[1] as int % 16) * 4 + c[2] as int / 64, 0);
            } else {
                lemma_b64_symbol((c[1] as int % 16) * 4, 0);
            }
        }
        lemma_b64_symbol((b0 % 4) * 16, (c0 % 4) * 16);
        assert(b.len() == 1 && c.len() == 1);
        assert(b0 == c0);
        assert(b =~= c);
        return;
    }
    let (b1, c1) = (b[1] as int, c[1] as int);
    lemma_b64_symbol((b0 % 4) * 16 + b1 / 16, (c0 % 4) * 16 + c1 / 16);
    assert(b0 == c0 && b1 / 16 == c1 / 16);
    if b.len() == 2 || c.len() == 2 {
        if b.len() >= 3 {
            lemma_b64_symbol(b[2] as int % 64, 0);
        }
        if c.len() >= 3 {
            lemma_b64_symbol(c[2] as int % 64, 0);
        }
        assert(b.len() == 2 && c.len() == 2);
        lemma_b64_symbol((b1 % 16) * 4, (c1 % 16) * 4);
        assert(b1 == c1);
        assert(b =~= c);
        return;
    }
    let (b2, c2) = (b[2] as int, c[2] as int);
    lemma_b64_symbol((b1 % 16) * 4 + b2 / 64, (c1 % 16) * 4 + c2 / 64);
    lemma_b64_symbol(b2 % 64, c2 % 64);
    assert(b1 == c1 && b2 == c2);
    let tb = base64_standard(b.skip(3));
    let tc = base64_standard(c.skip(3));
    assert(tb =~= e.skip(4));
    assert(tc =~= e.skip(4));
    lemma_base64_injective_pair(b.skip(3), c.skip(3));
    assert(b =~= b.take(3) + b.skip(3));
    assert(c =~= c.take(3) + c.skip(3));
    assert(b.take(3) =~= c.take(3));
}

/// Whether pixel `p` (four bytes from byte `4 * p`) differs from `clear`.
pub open spec fn pixel_differs(rgba: Seq<u8>, p: int, clear: [u8; 4]) -> bool {
    rgba[4 * p] != clear[0] || rgba[4 * p + 1] != clear[1] || rgba[4 * p + 2] != clear[2]
        || rgba[4 * p + 3] != clear[3]
}

/// Returns true when the buffer holds a whole pixel that differs from the clear color
/// (bytes past the last whole pixel are ignored).
pub fn preview_has_visible_pixels(rgba: &[u8], clear: [u8; 4]) -> (b: bool)
    ensures
        b <==> exists|p: int| 0 <= p < rgba@.len() / 4 && #[trigger] pixel_differs(rgba@, p, clear),
{
    let len = rgba.len();
    let n = len / 4;
    let mut p: usize = 0;
    while p < n
        invariant
            len == rgba@.len(),
            n == len / 4,
            p <= n,
            forall|q: int| 0 <= q < p ==> !#[trigger] pixel_differs(rgba@, q, clear),
        decreases n - p,
    {
        assert(4 * p + 3 < len) by (nonlinear_arith)
            requires p < n, n == len / 4;
        let i = 4 * p;
        if rgba[i] != clear[0] || rgba[i + 1] != clear[1] || rgba[i + 2] != clear[2] || rgba[i + 3] != clear[3] {
            assert(pixel_differs(rgba@, p as int, clear));
            return true;
        }
        p += 1;
    }
    false
}

/// The frame a smoke preview starts on: two thirds through the animation (at least frame 1)
/// when there are several frames, else frame 0.
pub open spec fn preview_frame_index(frame_count: int) -> int {
    if frame_count <= 1 {
        0
    } else if (frame_count - 1) * 2 / 3 >= 1 {
        (frame_count - 1) * 2 / 3
    } else {
        1
    }
}

/// Picks a mid-animation frame where the plume has developed.
pub fn default_smoke_preview_frame(frame_count: usize) -> (frame: u32)
    requires
        frame_count <= 1 || (frame_count - 1) * 2 <= usize::MAX,
    ensures
        frame == preview_frame_index(frame_count as int) as u32,
{
    if frame_count <= 1 {
        0
    } else {
        let f = (frame_count - 1) * 2 / 3;
        if f >= 1 { f as u32 } else { 1 }
    }
}

/// How many smoke impostors a preview keeps: 72 for sparse puffs (under 400 particles), 680
/// otherwise.
pub fn smoke_preview_cull_budget(raw_particle_count: usize) -> (budget: usize)
    ensures
        budget == (if raw_particle_count < 400 { 72usize } else { 680usize }),
{
    if raw_particle_count < 400 {
        72
    } else {
        680
    }
}

} // verus!
