use vstd::prelude::*;

verus! {

/// what `miniz_oxide::inflate::decompress_to_vec` inflates the raw deflate stream `data` to;
/// nothing where the stream does not inflate
pub uninterp spec fn raw_inflate(data: Seq<u8>) -> Option<Seq<u8>>;

/// Inflates a raw deflate stream with `miniz_oxide::inflate::decompress_to_vec_with_limit` and
/// returns the length of what it gave.
/// Claimed: a length comes back only when the stream inflates (`raw_inflate`, which the call
/// without a limit computes with the same inner loop) to at most `limit` bytes, and it is the
/// length of that output; when the whole output is shorter than `limit`, a length comes back.
/// The output grows to at most `limit` bytes, so the call allocates no more.
#[verifier::external_body]
fn inflate_len(data: &Vec<u8>, limit: usize) -> (r: Option<usize>)
    ensures
        r matches Some(n) ==> raw_inflate(data@) matches Some(v) && v.len() == n && n <= limit,
        r is None ==> !(raw_inflate(data@) matches Some(v) && v.len() < limit),
{
    match miniz_oxide::inflate::decompress_to_vec_with_limit(data, limit) {
        Ok(v) => Some(v.len()),
        Err(_) => None,
    }
}

/// the eight bytes every PNG file starts with
pub open spec fn png_signature() -> Seq<u8> {
    seq![137u8, 80u8, 78u8, 71u8, 13u8, 10u8, 26u8, 10u8]
}

/// the four letters of the header chunk's type
pub open spec fn ihdr_type() -> Seq<u8> {
    seq![73u8, 72u8, 68u8, 82u8]
}

/// the four letters of an image data chunk's type
pub open spec fn idat_type() -> Seq<u8> {
    seq![73u8, 68u8, 65u8, 84u8]
}

/// the four letters of the end chunk's type
pub open spec fn iend_type() -> Seq<u8> {
    seq![73u8, 69u8, 78u8, 68u8]
}

/// the big endian 32 bit number at `i`
pub open spec fn be32(s: Seq<u8>, i: int) -> int {
    s[i] * 0x1000000 + s[i + 1] * 0x10000 + s[i + 2] * 0x100 + s[i + 3]
}

/// the type of the chunk at `p`
pub open spec fn chunk_type(s: Seq<u8>, p: int) -> Seq<u8> {
    s.subrange(p + 4, p + 8)
}

/// the data of the image data chunks from `p` on, in order, when only image data chunks follow
/// up to an empty end chunk that ends the bytes; nothing otherwise
pub open spec fn idat_chain(s: Seq<u8>, p: int) -> Option<Seq<u8>>
    decreases s.len() - p,
{
    if p < 0 || p + 12 > s.len() {
        None
    } else if chunk_type(s, p) == iend_type() {
        if be32(s, p) == 0 && p + 12 == s.len() { Some(Seq::empty()) } else { None }
    } else if chunk_type(s, p) == idat_type() && p + 12 + be32(s, p) <= s.len() {
        match idat_chain(s, p + 12 + be32(s, p)) {
            Some(d) => Some(s.subrange(p + 8, p + 8 + be32(s, p)) + d),
            None => None,
        }
    } else {
        None
    }
}

/// a chunk type the decoder knows and parses, or one whose place is fixed: these may not stand
/// between the header and the image data
pub open spec fn known_chunk(t: Seq<u8>) -> bool {
    ||| t == ihdr_type()
    ||| t == idat_type()
    ||| t == iend_type()
    ||| t == seq![80u8, 76u8, 84u8, 69u8]
    ||| t == seq![98u8, 75u8, 71u8, 68u8]
    ||| t == seq![105u8, 84u8, 88u8, 116u8]
    ||| t == seq![122u8, 84u8, 88u8, 116u8]
    ||| t == seq![116u8, 69u8, 88u8, 116u8]
    ||| t == seq![112u8, 72u8, 89u8, 115u8]
    ||| t == seq![116u8, 73u8, 77u8, 69u8]
    ||| t == seq![116u8, 82u8, 78u8, 83u8]
}

/// the image data from `p` on: chunks the decoder skips (none it parses: no palette, text,
/// background, transparency, physical size or time), then the image data chunks up to the end,
/// see `idat_chain`
pub open spec fn image_data(s: Seq<u8>, p: int) -> Option<Seq<u8>>
    decreases s.len() - p,
{
    if p < 0 || p + 12 > s.len() {
        None
    } else if chunk_type(s, p) == idat_type() {
        idat_chain(s, p)
    } else if !known_chunk(chunk_type(s, p)) && p + 12 + be32(s, p) <= s.len() {
        image_data(s, p + 12 + be32(s, p))
    } else {
        None
    }
}

/// the width of the image
pub open spec fn png_width(s: Seq<u8>) -> int {
    be32(s, 16)
}

/// the height of the image
pub open spec fn png_height(s: Seq<u8>) -> int {
    be32(s, 20)
}

/// the bytes of a pixel of the image: its channels times its bytes per channel
pub open spec fn png_pixel_bytes(s: Seq<u8>) -> int {
    (if s[25] == 0 { 1int } else if s[25] == 2 { 3int } else if s[25] == 4 { 2int } else { 4int }) * (s[24] / 8)
}

/// the length of the inflated image data: each row starts with its filter byte
pub open spec fn png_scanlines_len(s: Seq<u8>) -> int {
    png_height(s) * (1 + png_width(s) * png_pixel_bytes(s))
}

/// the header of the bytes: the signature, then a header chunk for a non interlaced gray, gray
/// with alpha, RGB or RGBA image of 8 bits per channel, at least one pixel wide and high,
/// of at most `i32::MAX` pixels
pub open spec fn png_header_ok(s: Seq<u8>) -> bool {
    &&& s.len() >= 33
    &&& s.subrange(0, 8) == png_signature()
    &&& be32(s, 8) == 13
    &&& chunk_type(s, 8) == ihdr_type()
    &&& png_width(s) >= 1
    &&& png_height(s) >= 1
    &&& png_width(s) * png_height(s) <= i32::MAX
    &&& s[24] == 8
    &&& (s[25] == 0 || s[25] == 2 || s[25] == 4 || s[25] == 6)
    &&& s[26] == 0
    &&& s[27] == 0
    &&& s[28] == 0
}

/// the PNG files the library decodes: a header as `png_header_ok` asks, then chunks the decoder
/// skips, then only image data chunks up to an empty end chunk, at least six bytes of image data, and a deflate stream inside
/// them (between the two bytes of its zlib header and its four bytes of checksum) that inflates
/// to exactly the rows of the image
pub open spec fn png_plain(s: Seq<u8>) -> bool {
    &&& png_header_ok(s)
    &&& png_scanlines_len(s) < usize::MAX
    &&& image_data(s, 33) matches Some(d)
    &&& d.len() >= 6
    &&& raw_inflate(d.subrange(2, d.len() - 4)) matches Some(v)
    &&& v.len() == png_scanlines_len(s)
}

/// what `png_pong` decodes from the bytes of a PNG file, as the width, the height and the
/// pixels in 8 bit RGBA, row by row; nothing where its decoder refuses the bytes
pub uninterp spec fn png_rgba8(bytes: Seq<u8>) -> Option<(u32, u32, Seq<u8>)>;

/// Decodes a PNG file with `png_pong::Decoder::new` and the first step of
/// `Decoder::into_steps`, converts the step's raster to 8 bit RGBA with
/// `pix::Raster::with_raster`, then reads it back with `Raster::width`, `Raster::height` and
/// `Raster::as_u8_slice`.
/// Asked: `png_plain`. On such bytes the decoder does not panic: the zlib stream has at least
/// six bytes (`zlib::decompress` cuts off four), the inflated rows fill the raster
/// (`unfilter_scanlines` slices them), the raster has at most `i32::MAX` pixels (`pix` counts
/// them in `i32`), no palette is read, and the first step ends before the end chunk.
/// Claimed: the result is `png_rgba8` of the bytes, a function of the bytes alone, and the
/// pixels hold four bytes for each of the `width * height` pixels. Which of these bytes the
/// decoder still refuses (a checksum that does not match, for one) is not claimed. Such bytes
/// give a gray, gray with alpha, RGB or RGBA raster of 8 bits per channel; the match needs an
/// arm for the other rasters to be complete, and that arm gives nothing.
#[verifier::external_body]
fn decode_png_rgba8(bytes: &Vec<u8>) -> (r: Option<(u32, u32, Vec<u8>)>)
    requires
        png_plain(bytes@),
    ensures
        r matches Some(t) ==> png_rgba8(bytes@) == Some((t.0, t.1, t.2@)) && t.2@.len() == 4 * t.0 * t.1,
        r is None ==> png_rgba8(bytes@) is None,
{
    let step = png_pong::Decoder::new(std::io::Cursor::new(bytes.clone())).ok()?.into_steps().next()?.ok()?;
    let raster: pix::Raster<pix::rgb::SRgba8> = match step.raster {
        png_pong::PngRaster::Rgba8(r) => r,
        png_pong::PngRaster::Rgb8(r) => pix::Raster::with_raster(&r),
        png_pong::PngRaster::Graya8(r) => pix::Raster::with_raster(&r),
        png_pong::PngRaster::Gray8(r) => pix::Raster::with_raster(&r),
        _ => return None,
    };
    Some((raster.width(), raster.height(), raster.as_u8_slice().to_vec()))
}

/// the big endian 32 bit number at `i`
fn be32_at(s: &Vec<u8>, i: usize) -> (r: u64)
    requires
        i + 4 <= s.len(),
    ensures
        r == be32(s@, i as int),
        r < 0x1_0000_0000,
{
    (s[i] as u64) * 0x1000000 + (s[i + 1] as u64) * 0x10000 + (s[i + 2] as u64) * 0x100 + (s[i + 3] as u64)
}

/// wether the chunk at `p` has the type of the four letters
fn type_is(s: &Vec<u8>, p: usize, a: u8, b: u8, c: u8, d: u8) -> (r: bool)
    requires
        p + 8 <= s.len(),
    ensures
        r == (chunk_type(s@, p as int) == seq![a, b, c, d]),
{
    let r = s[p + 4] == a && s[p + 5] == b && s[p + 6] == c && s[p + 7] == d;
    if r {
        assert(chunk_type(s@, p as int) =~= seq![a, b, c, d]);
    } else {
        proof {
            if chunk_type(s@, p as int) == seq![a, b, c, d] {
                assert(chunk_type(s@, p as int)[0] == s@[p + 4]);
                assert(chunk_type(s@, p as int)[1] == s@[p + 5]);
                assert(chunk_type(s@, p as int)[2] == s@[p + 6]);
                assert(chunk_type(s@, p as int)[3] == s@[p + 7]);
            }
        }
    }
    r
}

/// wether the chunk at `p` has a type the decoder parses or whose place is fixed
fn known_type(s: &Vec<u8>, p: usize) -> (r: bool)
    requires
        p + 8 <= s.len(),
    ensures
        r == known_chunk(chunk_type(s@, p as int)),
{
    type_is(s, p, 73, 72, 68, 82) || type_is(s, p, 73, 68, 65, 84) || type_is(s, p, 73, 69, 78, 68)
        || type_is(s, p, 80, 76, 84, 69) || type_is(s, p, 98, 75, 71, 68) || type_is(s, p, 105, 84, 88, 116)
        || type_is(s, p, 122, 84, 88, 116) || type_is(s, p, 116, 69, 88, 116) || type_is(s, p, 112, 72, 89, 115)
        || type_is(s, p, 116, 73, 77, 69) || type_is(s, p, 116, 82, 78, 83)
}

/// wether the header of the bytes is one the library decodes, see `png_header_ok`
fn png_header_check(s: &Vec<u8>) -> (r: bool)
    ensures
        r == png_header_ok(s@),
{
    if s.len() < 33 {
        return false;
    }
    let sig = s[0] == 137 && s[1] == 80 && s[2] == 78 && s[3] == 71 && s[4] == 13 && s[5] == 10 && s[6] == 26 && s[7] == 10;
    if sig {
        assert(s@.subrange(0, 8) =~= png_signature());
    } else {
        proof {
            if s@.subrange(0, 8) == png_signature() {
                assert(s@.subrange(0, 8)[0] == s@[0] && s@.subrange(0, 8)[1] == s@[1] && s@.subrange(0, 8)[2] == s@[2]);
                assert(s@.subrange(0, 8)[3] == s@[3] && s@.subrange(0, 8)[4] == s@[4] && s@.subrange(0, 8)[5] == s@[5]);
                assert(s@.subrange(0, 8)[6] == s@[6] && s@.subrange(0, 8)[7] == s@[7]);
            }
        }
        return false;
    }
    if be32_at(s, 8) != 13 || !type_is(s, 8, 73, 72, 68, 82) {
        return false;
    }
    let w = be32_at(s, 16);
    let h = be32_at(s, 20);
    if w < 1 || h < 1 {
        return false;
    }
    if w > 0x7fff_ffff || h > 0x7fff_ffff {
        assert(w > i32::MAX ==> w * h > i32::MAX) by (nonlinear_arith)
            requires h >= 1;
        assert(h > i32::MAX ==> w * h > i32::MAX) by (nonlinear_arith)
            requires w >= 1;
        return false;
    }
    assert(w * h <= 0x7fff_ffff * 0x7fff_ffff) by (nonlinear_arith)
        requires w <= 0x7fff_ffff, h <= 0x7fff_ffff;
    if w * h > 0x7fff_ffff {
        return false;
    }
    s[24] == 8 && (s[25] == 0 || s[25] == 2 || s[25] == 4 || s[25] == 6) && s[26] == 0 && s[27] == 0 && s[28] == 0
}

/// wether the bytes are a PNG file the library decodes, see `png_plain`
fn png_plain_check(s: &Vec<u8>) -> (r: bool)
    ensures
        r == png_plain(s@),
{
    if !png_header_check(s) {
        return false;
    }
    let len = s.len();
    let w = be32_at(s, 16);
    let h = be32_at(s, 20);
    let channels: u64 = if s[25] == 0 { 1 } else if s[25] == 2 { 3 } else if s[25] == 4 { 2 } else { 4 };
    let pb: u64 = channels * (s[24] as u64 / 8);
    assert(pb == png_pixel_bytes(s@) && pb <= 8);
    assert(h * (1 + w * pb) == h + pb * (w * h)) by (nonlinear_arith);
    assert(pb * (w * h) <= 8 * 0x7fff_ffff) by (nonlinear_arith)
        requires pb <= 8, w * h <= 0x7fff_ffff, w * h >= 0;
    let needed: u64 = h + pb * (w * h);
    assert(needed == png_scanlines_len(s@));
    if needed >= usize::MAX as u64 {
        return false;
    }
    // skip the chunks before the image data
    let mut p: usize = 33;
    loop
        invariant
            33 <= p,
            len == s@.len(),
            png_header_ok(s@),
            needed == png_scanlines_len(s@),
            needed < usize::MAX,
            image_data(s@, 33) == image_data(s@, p as int),
        ensures
            p + 12 <= len,
            chunk_type(s@, p as int) == idat_type(),
            image_data(s@, 33) == idat_chain(s@, p as int),
        decreases len - p,
    {
        if p > len || len - p < 12 {
            return false;
        }
        if type_is(s, p, 73, 68, 65, 84) {
            break;
        }
        let l = be32_at(s, p);
        if known_type(s, p) || l > (len - p - 12) as u64 {
            return false;
        }
        p = p + 12 + l as usize;
    }
    // the data of the image data chunks up to the end chunk
    let mut data: Vec<u8> = Vec::new();
    loop
        invariant
            33 <= p,
            len == s@.len(),
            png_header_ok(s@),
            needed == png_scanlines_len(s@),
            needed < usize::MAX,
            image_data(s@, 33) == match idat_chain(s@, p as int) {
                Some(d) => Some(data@ + d),
                None => None::<Seq<u8>>,
            },
        ensures
            image_data(s@, 33) == Some(data@),
        decreases len - p,
    {
        if p > len || len - p < 12 {
            return false;
        }
        let l = be32_at(s, p);
        if type_is(s, p, 73, 69, 78, 68) {
            if l == 0 && p + 12 == len {
                assert(idat_chain(s@, p as int) == Some(Seq::<u8>::empty()));
                assert(data@ + Seq::<u8>::empty() =~= data@);
                break;
            }
            return false;
        }
        if !type_is(s, p, 73, 68, 65, 84) || l > (len - p - 12) as u64 {
            return false;
        }
        let l = l as usize;
        let ghost before = data@;
        let mut k: usize = 0;
        while k < l
            invariant
                0 <= k <= l,
                p + 12 + l <= len,
                len == s@.len(),
                data@ == before + s@.subrange(p + 8, p + 8 + k),
            decreases l - k,
        {
            data.push(s[p + 8 + k]);
            k = k + 1;
            assert(data@ =~= before + s@.subrange(p + 8, p + 8 + k));
        }
        proof {
            let rest = idat_chain(s@, (p + 12 + l) as int);
            match rest {
                Some(d) => {
                    assert(before + (s@.subrange(p + 8, p + 8 + l) + d) =~= data@ + d);
                },
                None => {},
            }
        }
        p = p + 12 + l;
    }
    let dlen = data.len();
    if dlen < 6 {
        return false;
    }
    let mut inner: Vec<u8> = Vec::new();
    let mut k: usize = 2;
    while k < dlen - 4
        invariant
            2 <= k <= dlen - 4,
            dlen == data@.len(),
            dlen >= 6,
            inner@ == data@.subrange(2, k as int),
        decreases dlen - 4 - k,
    {
        inner.push(data[k]);
        k = k + 1;
        assert(inner@ =~= data@.subrange(2, k as int));
    }
    match inflate_len(&inner, (needed + 1) as usize) {
        Some(n) => n as u64 == needed,
        None => false,
    }
}

/// the pixels of an image in 8 bit RGBA, row by row
pub struct Pixels {
    pub width: u32,
    pub height: u32,
    pub rgba: Vec<u8>,
}

impl Pixels {
    /// decodes the bytes of a PNG file into RGBA pixels; nothing where they are no PNG file that
    /// the library decodes (see `png_plain`: palette images, images of 16 bits per channel,
    /// interlaced images and files with text, palette, background, transparency, physical size
    /// or time chunks are among them) or where the decoder refuses them
    pub fn decode(bytes: &Vec<u8>) -> (r: Option<Pixels>)
        ensures
            match r {
                Some(p) => png_plain(bytes@) && png_rgba8(bytes@) == Some((p.width, p.height, p.rgba@))
                    && p.rgba@.len() == 4 * p.width * p.height,
                None => !png_plain(bytes@) || png_rgba8(bytes@) is None,
            },
    {
        if !png_plain_check(bytes) {
            return None;
        }
        match decode_png_rgba8(bytes) {
            Some((width, height, rgba)) => Some(Pixels { width, height, rgba }),
            None => None,
        }
    }
}

/// a texture of the graphics device and its size in pixels
pub struct Texture {
    pub id: u32,
    pub width: u32,
    pub height: u32,
}

} // verus!
