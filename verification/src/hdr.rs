//! Radiance RGBE (`.hdr`) decoding: header, size line, and new-RLE or
//! uncompressed scanlines.  Pixels come out as raw RGBE quadruples; turning
//! them into linear floats is left to the caller.
use vstd::prelude::*;
use vstd::utf8::valid_utf8;

verus! {

/// One RGBE pixel: 8-bit mantissas and a shared exponent.
#[derive(Debug, Clone, Copy, PartialEq, Eq, Structural)]
pub struct Rgbe {
    pub r: u8,
    pub g: u8,
    pub b: u8,
    pub e: u8,
}

/// Why an `.hdr` file could not be decoded.
#[derive(Debug, Clone, Copy, PartialEq, Eq, Structural)]
pub enum HdrError {
    /// The file does not start with `#?`.
    NotRadiance,
    /// No line follows the header.
    NoSizeLine,
    /// The size line is not valid UTF-8.
    SizeLineNotUtf8,
    /// The size line has fewer than four fields.
    InvalidSizeLine,
    /// The height or width field is not a decimal `u32`.
    InvalidNumber,
    /// `width * height` does not fit in a `u32`; the engine aborts on such a file.
    SizeOverflow,
    /// Fewer than four bytes are left at the start of a scanline.
    UnexpectedEof { row: u32 },
    /// An RLE scanline announces a width other than the image width.
    ScanlineWidthMismatch,
    /// The data ends inside an RLE channel.
    EofInRleChannel,
    /// The data ends inside an RLE run.
    EofInRleRun,
    /// The data ends inside an RLE literal.
    EofInRleLiteral,
    /// The data ends inside an uncompressed scanline.
    EofInRawScanline,
    /// An RLE run or literal reaches past the end of the scanline; the engine
    /// aborts on such a file.
    RunPastScanline,
}

/// A decoded RGBE image, rows top to bottom.
pub struct RgbeImage {
    pub pixels: Vec<Rgbe>,
    pub width: u32,
    pub height: u32,
}

// ---------------------------------------------------------------------------
// Specification of the format
// ---------------------------------------------------------------------------

/// Decode one RLE channel of a scanline of width `w` starting at `pos`, with
/// `acc` already decoded.  Returns the channel and the position after it.
pub open spec fn spec_rle_channel(data: Seq<u8>, pos: int, w: int, acc: Seq<u8>) -> Result<
    (Seq<u8>, int),
    HdrError,
>
    decreases data.len() - pos,
{
    if acc.len() >= w {
        Ok((acc, pos))
    } else if pos < 0 || pos >= data.len() {
        Err(HdrError::EofInRleChannel)
    } else if data[pos] > 128 {
        let count = data[pos] - 128;
        if pos + 1 >= data.len() {
            Err(HdrError::EofInRleRun)
        } else if acc.len() + count > w {
            Err(HdrError::RunPastScanline)
        } else {
            spec_rle_channel(data, pos + 2, w, acc + Seq::new(count as nat, |k: int| data[pos + 1]))
        }
    } else {
        let count = data[pos] as int;
        if pos + 1 + count > data.len() {
            Err(HdrError::EofInRleLiteral)
        } else if acc.len() + count > w {
            Err(HdrError::RunPastScanline)
        } else {
            spec_rle_channel(data, pos + 1 + count, w, acc + data.subrange(pos + 1, pos + 1 + count))
        }
    }
}

/// The four channels of an RLE scanline, decoded one after the other.
pub open spec fn spec_rle_scanline(data: Seq<u8>, pos: int, w: int) -> Result<
    (Seq<Rgbe>, int),
    HdrError,
> {
    match spec_rle_channel(data, pos, w, Seq::empty()) {
        Err(e) => Err(e),
        Ok((c0, p1)) => match spec_rle_channel(data, p1, w, Seq::empty()) {
            Err(e) => Err(e),
            Ok((c1, p2)) => match spec_rle_channel(data, p2, w, Seq::empty()) {
                Err(e) => Err(e),
                Ok((c2, p3)) => match spec_rle_channel(data, p3, w, Seq::empty()) {
                    Err(e) => Err(e),
                    Ok((c3, p4)) => Ok(
                        (
                            Seq::new(
                                w as nat,
                                |x: int| Rgbe { r: c0[x], g: c1[x], b: c2[x], e: c3[x] },
                            ),
                            p4,
                        ),
                    ),
                },
            },
        },
    }
}

/// Decode scanline `row` (of width `w`) starting at `pos`.
pub open spec fn spec_scanline(data: Seq<u8>, pos: int, w: int, row: u32) -> Result<
    (Seq<Rgbe>, int),
    HdrError,
> {
    if pos + 4 > data.len() {
        Err(HdrError::UnexpectedEof { row })
    } else if data[pos] == 2 && data[pos + 1] == 2 && data[pos + 2] < 128 {
        let scan_w = data[pos + 2] * 256 + data[pos + 3];
        if scan_w != w {
            Err(HdrError::ScanlineWidthMismatch)
        } else {
            spec_rle_scanline(data, pos + 4, w)
        }
    } else if pos + 4 * w > data.len() {
        Err(HdrError::EofInRawScanline)
    } else {
        Ok(
            (
                Seq::new(
                    w as nat,
                    |x: int|
                        Rgbe {
                            r: data[pos + 4 * x],
                            g: data[pos + 4 * x + 1],
                            b: data[pos + 4 * x + 2],
                            e: data[pos + 4 * x + 3],
                        },
                ),
                pos + 4 * w,
            ),
        )
    }
}

/// Decode the first `rows` scanlines of width `w`.
pub open spec fn spec_decode_rows(data: Seq<u8>, w: int, rows: nat) -> Result<
    (Seq<Rgbe>, int),
    HdrError,
>
    decreases rows,
{
    if rows == 0 {
        Ok((Seq::empty(), 0))
    } else {
        match spec_decode_rows(data, w, (rows - 1) as nat) {
            Err(e) => Err(e),
            Ok((px, pos)) => match spec_scanline(data, pos, w, (rows - 1) as u32) {
                Err(e) => Err(e),
                Ok((line, p2)) => Ok((px + line, p2)),
            },
        }
    }
}

/// Index just past the header: past the first empty line (two consecutive
/// newlines), scanning from `i`, or the end of the data if there is none.
pub open spec fn spec_skip_header(data: Seq<u8>, i: int) -> int
    decreases data.len() - i,
{
    if i < 0 || i >= data.len() {
        i
    } else if data[i] == 10 && i + 1 < data.len() && data[i + 1] == 10 {
        i + 2
    } else {
        spec_skip_header(data, i + 1)
    }
}

/// Index of the first newline at or after `i`.
pub open spec fn spec_find_newline(data: Seq<u8>, i: int) -> Option<int>
    decreases data.len() - i,
{
    if i < 0 || i >= data.len() {
        None
    } else if data[i] == 10 {
        Some(i)
    } else {
        spec_find_newline(data, i + 1)
    }
}

/// The whitespace characters of ASCII (tab, newline, vertical tab, form
/// feed, carriage return, space).
pub open spec fn is_ascii_space(b: u8) -> bool {
    b == 32 || (9 <= b && b <= 13)
}

/// Length in bytes of the white-space character (Unicode `White_Space`,
/// which `str::split_whitespace` splits on) that starts at `i` in UTF-8 text,
/// or 0.  In valid UTF-8 these lead bytes only start whole characters.
pub open spec fn ws_len(line: Seq<u8>, i: int) -> int {
    let b0 = line[i];
    let has2 = i + 1 < line.len();
    let has3 = i + 2 < line.len();
    if is_ascii_space(b0) {
        1
    } else if b0 == 0xC2 && has2 && (line[i + 1] == 0x85 || line[i + 1] == 0xA0) {
        2
    } else if b0 == 0xE1 && has3 && line[i + 1] == 0x9A && line[i + 2] == 0x80 {
        3
    } else if b0 == 0xE2 && has3 && line[i + 1] == 0x80 && ((0x80 <= line[i + 2] && line[i + 2]
        <= 0x8A) || line[i + 2] == 0xA8 || line[i + 2] == 0xA9 || line[i + 2] == 0xAF) {
        3
    } else if b0 == 0xE2 && has3 && line[i + 1] == 0x81 && line[i + 2] == 0x9F {
        3
    } else if b0 == 0xE3 && has3 && line[i + 1] == 0x80 && line[i + 2] == 0x80 {
        3
    } else {
        0
    }
}

/// Split `line` from `i` on white space, with `cur` the token being read and
/// `acc` the tokens already read.  Empty tokens are dropped.
pub open spec fn spec_tokens_from(line: Seq<u8>, i: int, cur: Seq<u8>, acc: Seq<Seq<u8>>) -> Seq<
    Seq<u8>,
>
    decreases line.len() - i,
{
    if i < 0 || i >= line.len() {
        if cur.len() > 0 {
            acc.push(cur)
        } else {
            acc
        }
    } else if ws_len(line, i) > 0 {
        spec_tokens_from(
            line,
            i + ws_len(line, i),
            Seq::empty(),
            if cur.len() > 0 {
                acc.push(cur)
            } else {
                acc
            },
        )
    } else {
        spec_tokens_from(line, i + 1, cur.push(line[i]), acc)
    }
}

/// The whitespace-separated fields of `line`.
pub open spec fn spec_tokens(line: Seq<u8>) -> Seq<Seq<u8>> {
    spec_tokens_from(line, 0, Seq::empty(), Seq::empty())
}

pub open spec fn is_digit(b: u8) -> bool {
    48 <= b && b <= 57
}

/// Value of a string of decimal digits.
pub open spec fn decimal_value(d: Seq<u8>) -> int
    decreases d.len(),
{
    if d.len() == 0 {
        0
    } else {
        decimal_value(d.drop_last()) * 10 + (d.last() - 48)
    }
}

/// `s` without an optional leading `+`.
pub open spec fn unsigned_digits(s: Seq<u8>) -> Seq<u8> {
    if s.len() > 0 && s[0] == 43 {
        s.subrange(1, s.len() as int)
    } else {
        s
    }
}

/// Every byte of `d` is an ASCII digit.
pub open spec fn all_digits(d: Seq<u8>) -> bool {
    forall|k: int| 0 <= k < d.len() ==> is_digit(#[trigger] d[k])
}

/// A decimal `u32` as `str::parse` reads it: an optional `+`, then one or
/// more digits whose value fits in 32 bits.
pub open spec fn spec_parse_u32(s: Seq<u8>) -> Option<u32> {
    let d = unsigned_digits(s);
    if d.len() == 0 || !all_digits(d) {
        None
    } else if decimal_value(d) > u32::MAX {
        None
    } else {
        Some(decimal_value(d) as u32)
    }
}

/// The whole `.hdr` decoding: header, size line `-Y H +X W`, scanlines.
/// Returns width, height and pixels.
pub open spec fn spec_parse_rgbe(data: Seq<u8>) -> Result<(u32, u32, Seq<Rgbe>), HdrError> {
    if !(data.len() >= 2 && data[0] == 35 && data[1] == 63) {
        Err(HdrError::NotRadiance)
    } else {
        let i = spec_skip_header(data, 0);
        match spec_find_newline(data, i) {
            None => Err(HdrError::NoSizeLine),
            Some(nl) => {
                let line = data.subrange(i, nl);
                let parts = spec_tokens(line);
                if !valid_utf8(line) {
                    Err(HdrError::SizeLineNotUtf8)
                } else if parts.len() < 4 {
                    Err(HdrError::InvalidSizeLine)
                } else {
                    match spec_parse_u32(parts[1]) {
                        None => Err(HdrError::InvalidNumber),
                        Some(h) => match spec_parse_u32(parts[3]) {
                            None => Err(HdrError::InvalidNumber),
                            Some(w) => if w * h > u32::MAX {
                                Err(HdrError::SizeOverflow)
                            } else {
                                match spec_decode_rows(
                                    data.subrange(nl + 1, data.len() as int),
                                    w as int,
                                    h as nat,
                                ) {
                                    Err(e) => Err(e),
                                    Ok((px, _)) => Ok((w, h, px)),
                                }
                            },
                        },
                    }
                }
            },
        }
    }
}

// ---------------------------------------------------------------------------
// Decoding
// ---------------------------------------------------------------------------

/// Decode one RLE channel of width `w` starting at `pos`.
fn decode_rle_channel(data: &[u8], pos: usize, w: usize) -> (r: Result<(Vec<u8>, usize), HdrError>)
    requires
        pos <= data@.len(),
    ensures
        match spec_rle_channel(data@, pos as int, w as int, Seq::empty()) {
            Ok((c, p)) => r is Ok && (r->Ok_0).0@ == c && (r->Ok_0).1 == p,
            Err(e) => r == Err::<(Vec<u8>, usize), HdrError>(e),
        },
        r is Ok ==> (r->Ok_0).1 <= data@.len(),
        r is Ok ==> (r->Ok_0).0@.len() == w,
{
    let n = data.len();
    let mut chan: Vec<u8> = Vec::new();
    let mut p: usize = pos;
    while chan.len() < w
        invariant
            n == data@.len(),
            p <= data@.len(),
            chan@.len() <= w,
            spec_rle_channel(data@, pos as int, w as int, Seq::empty()) == spec_rle_channel(
                data@,
                p as int,
                w as int,
                chan@,
            ),
        decreases data@.len() - p,
    {
        if p >= data.len() {
            return Err(HdrError::EofInRleChannel);
        }
        let code = data[p];
        if code > 128 {
            let count = (code - 128) as usize;
            if data.len() - p <= 1 {
                return Err(HdrError::EofInRleRun);
            }
            if count > w - chan.len() {
                return Err(HdrError::RunPastScanline);
            }
            let val = data[p + 1];
            let ghost before = chan@;
            let mut k: usize = 0;
            while k < count
                invariant
                    k <= count,
                    chan@ == before + Seq::new(k as nat, |q: int| val),
                decreases count - k,
            {
                chan.push(val);
                k = k + 1;
                assert(chan@ =~= before + Seq::new(k as nat, |q: int| val));
            }
            assert(Seq::new(count as nat, |q: int| val) =~= Seq::new(
                (code - 128) as nat,
                |q: int| data@[p + 1],
            ));
            p = p + 2;
        } else {
            let count = code as usize;
            if data.len() - p - 1 < count {
                return Err(HdrError::EofInRleLiteral);
            }
            if count > w - chan.len() {
                return Err(HdrError::RunPastScanline);
            }
            let ghost before = chan@;
            let mut k: usize = 0;
            while k < count
                invariant
                    k <= count,
                    n == data@.len(),
                    p + 1 + count <= data@.len(),
                    chan@ == before + data@.subrange(p + 1, p + 1 + k),
                decreases count - k,
            {
                chan.push(data[p + 1 + k]);
                k = k + 1;
                assert(chan@ =~= before + data@.subrange(p + 1, p + 1 + k));
            }
            p = p + 1 + count;
        }
    }
    Ok((chan, p))
}

/// Decode one scanline of width `w` starting at `pos`.
fn decode_scanline(data: &[u8], pos: usize, w: usize, row: u32) -> (r: Result<
    (Vec<Rgbe>, usize),
    HdrError,
>)
    requires
        pos <= data@.len(),
    ensures
        match spec_scanline(data@, pos as int, w as int, row) {
            Ok((px, p)) => r is Ok && (r->Ok_0).0@ == px && (r->Ok_0).1 == p,
            Err(e) => r == Err::<(Vec<Rgbe>, usize), HdrError>(e),
        },
        r is Ok ==> (r->Ok_0).1 <= data@.len(),
{
    if data.len() - pos < 4 {
        return Err(HdrError::UnexpectedEof { row });
    }
    let b0 = data[pos];
    let b1 = data[pos + 1];
    let b2 = data[pos + 2];
    let b3 = data[pos + 3];
    assert((b2 & 0x80u8) == 0u8 <==> b2 < 128u8) by (bit_vector);
    if b0 == 2 && b1 == 2 && (b2 & 0x80) == 0 {
        let scan_w = ((b2 as usize) << 8usize) | b3 as usize;
        assert(((b2 as usize) << 8usize) | (b3 as usize) == (b2 as usize) * 256 + (b3 as usize))
            by (bit_vector);
        if scan_w != w {
            return Err(HdrError::ScanlineWidthMismatch);
        }
        let (c0, p1) = match decode_rle_channel(data, pos + 4, w) {
            Ok(v) => v,
            Err(e) => {
                return Err(e);
            },
        };
        let (c1, p2) = match decode_rle_channel(data, p1, w) {
            Ok(v) => v,
            Err(e) => {
                return Err(e);
            },
        };
        let (c2, p3) = match decode_rle_channel(data, p2, w) {
            Ok(v) => v,
            Err(e) => {
                return Err(e);
            },
        };
        let (c3, p4) = match decode_rle_channel(data, p3, w) {
            Ok(v) => v,
            Err(e) => {
                return Err(e);
            },
        };
        let mut line: Vec<Rgbe> = Vec::new();
        let mut x: usize = 0;
        while x < w
            invariant
                c0@.len() == w && c1@.len() == w && c2@.len() == w && c3@.len() == w,
                x <= w,
                line@ =~= Seq::new(
                    x as nat,
                    |i: int| Rgbe { r: c0@[i], g: c1@[i], b: c2@[i], e: c3@[i] },
                ),
            decreases w - x,
        {
            line.push(Rgbe { r: c0[x], g: c1[x], b: c2[x], e: c3[x] });
            x = x + 1;
        }
        Ok((line, p4))
    } else {
        if (data.len() - pos) / 4 < w {
            return Err(HdrError::EofInRawScanline);
        }
        let n = data.len();
        let mut line: Vec<Rgbe> = Vec::new();
        let mut x: usize = 0;
        while x < w
            invariant
                x <= w,
                n == data@.len(),
                pos + 4 * w <= data@.len(),
                line@ =~= Seq::new(
                    x as nat,
                    |i: int|
                        Rgbe {
                            r: data@[pos + 4 * i],
                            g: data@[pos + 4 * i + 1],
                            b: data@[pos + 4 * i + 2],
                            e: data@[pos + 4 * i + 3],
                        },
                ),
            decreases w - x,
        {
            let q = pos + 4 * x;
            line.push(Rgbe { r: data[q], g: data[q + 1], b: data[q + 2], e: data[q + 3] });
            x = x + 1;
        }
        Ok((line, pos + 4 * w))
    }
}

proof fn lemma_rows_err(data: Seq<u8>, w: int, k: nat, n: nat, e: HdrError)
    requires
        k <= n,
        spec_decode_rows(data, w, k) == Err::<(Seq<Rgbe>, int), HdrError>(e),
    ensures
        spec_decode_rows(data, w, n) == Err::<(Seq<Rgbe>, int), HdrError>(e),
    decreases n - k,
{
    if k < n {
        lemma_rows_err(data, w, k + 1, n, e);
    }
}

/// Decode `height` scanlines of width `width`, top to bottom.
pub fn decode_rgbe_scanlines(data: &[u8], width: u32, height: u32) -> (r: Result<
    Vec<Rgbe>,
    HdrError,
>)
    ensures
        match spec_decode_rows(data@, width as int, height as nat) {
            Ok((px, _)) => r is Ok && (r->Ok_0)@ == px,
            Err(e) => r == Err::<Vec<Rgbe>, HdrError>(e),
        },
{
    let w = width as usize;
    let mut pixels: Vec<Rgbe> = Vec::new();
    let mut pos: usize = 0;
    let mut row: u32 = 0;
    while row < height
        invariant
            row <= height,
            w == width,
            pos <= data@.len(),
            spec_decode_rows(data@, width as int, row as nat) == Ok::<(Seq<Rgbe>, int), HdrError>(
                (pixels@, pos as int),
            ),
        decreases height - row,
    {
        match decode_scanline(data, pos, w, row) {
            Ok((line, p)) => {
                let ghost before = pixels@;
                let mut line = line;
                pixels.append(&mut line);
                assert(pixels@ =~= before + spec_scanline(data@, pos as int, w as int, row)->Ok_0.0);
                pos = p;
            },
            Err(e) => {
                proof { lemma_rows_err(data@, width as int, (row + 1) as nat, height as nat, e); }
                return Err(e);
            },
        }
        row = row + 1;
    }
    Ok(pixels)
}

// ---------------------------------------------------------------------------
// Header and size line
// ---------------------------------------------------------------------------

/// `std::str::from_utf8` on `data[start..end]`: it succeeds exactly when the
/// bytes are valid UTF-8, which is what `vstd::utf8::valid_utf8` defines.
#[verifier::external_body]
fn is_utf8(data: &[u8], start: usize, end: usize) -> (r: bool)
    requires
        start <= end <= data@.len(),
    ensures
        r == valid_utf8(data@.subrange(start as int, end as int)),
{
    std::str::from_utf8(&data[start..end]).is_ok()
}

/// Index just past the header's terminating empty line.
fn skip_header(data: &[u8]) -> (i: usize)
    ensures
        i == spec_skip_header(data@, 0),
        i <= data@.len(),
{
    let mut i: usize = 0;
    while i < data.len()
        invariant
            i <= data@.len(),
            spec_skip_header(data@, 0) == spec_skip_header(data@, i as int),
        decreases data@.len() - i,
    {
        if data[i] == 10 && data.len() - i > 1 && data[i + 1] == 10 {
            return i + 2;
        }
        i = i + 1;
    }
    i
}

/// Index of the first newline at or after `i`.
fn find_newline(data: &[u8], i: usize) -> (r: Option<usize>)
    ensures
        r is None <==> spec_find_newline(data@, i as int) is None,
        r matches Some(k) ==> spec_find_newline(data@, i as int) == Some(k as int),
        r matches Some(k) ==> i <= k < data@.len(),
{
    let mut k: usize = i;
    while k < data.len()
        invariant
            i <= k,
            spec_find_newline(data@, i as int) == spec_find_newline(data@, k as int),
        decreases data@.len() - k,
    {
        if data[k] == 10 {
            return Some(k);
        }
        k = k + 1;
    }
    None
}

/// Length of the white-space character starting at `i` (see `ws_len`).
fn ws_len_exec(line: &[u8], i: usize) -> (n: usize)
    requires
        i < line@.len(),
    ensures
        n == ws_len(line@, i as int),
{
    let b0 = line[i];
    let has2 = i + 1 < line.len();
    let has3 = has2 && i + 2 < line.len();
    if b0 == 32 || (9 <= b0 && b0 <= 13) {
        1
    } else if b0 == 0xC2 && has2 && (line[i + 1] == 0x85 || line[i + 1] == 0xA0) {
        2
    } else if b0 == 0xE1 && has3 && line[i + 1] == 0x9A && line[i + 2] == 0x80 {
        3
    } else if b0 == 0xE2 && has3 && line[i + 1] == 0x80 && ((0x80 <= line[i + 2] && line[i + 2]
        <= 0x8A) || line[i + 2] == 0xA8 || line[i + 2] == 0xA9 || line[i + 2] == 0xAF) {
        3
    } else if b0 == 0xE2 && has3 && line[i + 1] == 0x81 && line[i + 2] == 0x9F {
        3
    } else if b0 == 0xE3 && has3 && line[i + 1] == 0x80 && line[i + 2] == 0x80 {
        3
    } else {
        0
    }
}

/// Split `line` into white-space-separated fields.
fn tokens(line: &[u8]) -> (r: Vec<Vec<u8>>)
    ensures
        r@.map_values(|v: Vec<u8>| v@) == spec_tokens(line@),
{
    let mut acc: Vec<Vec<u8>> = Vec::new();
    let mut cur: Vec<u8> = Vec::new();
    let mut i: usize = 0;
    assert(acc@.map_values(|v: Vec<u8>| v@) =~= Seq::<Seq<u8>>::empty());
    while i < line.len()
        invariant
            i <= line@.len(),
            spec_tokens(line@) == spec_tokens_from(
                line@,
                i as int,
                cur@,
                acc@.map_values(|v: Vec<u8>| v@),
            ),
        decreases line@.len() - i,
    {
        let w = ws_len_exec(line, i);
        if w > 0 {
            if cur.len() > 0 {
                let ghost before = acc@.map_values(|v: Vec<u8>| v@);
                let ghost c = cur@;
                acc.push(cur);
                assert(acc@.map_values(|v: Vec<u8>| v@) =~= before.push(c));
            }
            cur = Vec::new();
            assert(cur@ =~= Seq::<u8>::empty());
            i = i + w;
        } else {
            cur.push(line[i]);
            i = i + 1;
        }
    }
    if cur.len() > 0 {
        let ghost before = acc@.map_values(|v: Vec<u8>| v@);
        let ghost c = cur@;
        acc.push(cur);
        assert(acc@.map_values(|v: Vec<u8>| v@) =~= before.push(c));
    }
    acc
}

proof fn lemma_decimal_monotone(d: Seq<u8>, i: int, j: int)
    requires
        0 <= i <= j <= d.len(),
        forall|k: int| 0 <= k < d.len() ==> is_digit(#[trigger] d[k]),
    ensures
        decimal_value(d.take(i)) <= decimal_value(d.take(j)),
    decreases j - i,
{
    if i < j {
        lemma_decimal_monotone(d, i, j - 1);
        assert(d.take(j).drop_last() =~= d.take(j - 1));
        assert(d.take(j).last() == d[j - 1]);
        assert(decimal_value(d.take(j - 1)) >= 0) by {
            lemma_decimal_nonneg(d.take(j - 1));
        }
    }
}

proof fn lemma_decimal_nonneg(d: Seq<u8>)
    requires
        forall|k: int| 0 <= k < d.len() ==> is_digit(#[trigger] d[k]),
    ensures
        decimal_value(d) >= 0,
    decreases d.len(),
{
    if d.len() > 0 {
        let p = d.drop_last();
        assert forall|k: int| 0 <= k < p.len() implies is_digit(#[trigger] p[k]) by {
            assert(p[k] == d[k]);
        }
        lemma_decimal_nonneg(p);
        assert(is_digit(d[d.len() - 1]));
    }
}

/// Parse a decimal `u32` as `str::parse::<u32>` does.
fn parse_u32(s: &[u8]) -> (r: Option<u32>)
    ensures
        r == spec_parse_u32(s@),
{
    let start: usize = if s.len() > 0 && s[0] == 43 {
        1
    } else {
        0
    };
    let ghost d = unsigned_digits(s@);
    assert(d =~= s@.subrange(start as int, s@.len() as int));
    if start == s.len() {
        return None;
    }
    let mut v: u64 = 0;
    let mut k: usize = start;
    while k < s.len()
        invariant
            start <= k <= s@.len(),
            d == unsigned_digits(s@),
            d =~= s@.subrange(start as int, s@.len() as int),
            v == decimal_value(d.take(k - start)),
            v <= u32::MAX,
            forall|q: int| 0 <= q < k - start ==> is_digit(#[trigger] d[q]),
        decreases s@.len() - k,
    {
        let c = s[k];
        if !(48 <= c && c <= 57) {
            assert(!is_digit(d[k - start]));
            assert(!all_digits(d));
            return None;
        }
        assert(d.take(k - start + 1).drop_last() =~= d.take(k - start));
        assert(d.take(k - start + 1).last() == c);
        v = v * 10 + (c - 48) as u64;
        k = k + 1;
        if v > 0xffff_ffffu64 {
            proof {
                if all_digits(d) {
                    lemma_decimal_monotone(d, k - start, d.len() as int);
                    assert(d.take(d.len() as int) =~= d);
                    assert(decimal_value(d) > u32::MAX);
                }
            }
            return None;
        }
    }
    assert(d.take(k - start) =~= d);
    Some(v as u32)
}

/// Decode a Radiance `.hdr` file: header, size line `-Y H +X W`, then
/// `H` scanlines of `W` pixels.
pub fn parse_rgbe(data: &[u8]) -> (r: Result<RgbeImage, HdrError>)
    ensures
        match spec_parse_rgbe(data@) {
            Ok((w, h, px)) => r is Ok && (r->Ok_0).width == w && (r->Ok_0).height == h && (
            r->Ok_0).pixels@ == px,
            Err(e) => r is Err && r->Err_0 == e,
        },
        r is Ok ==> (r->Ok_0).pixels@.len() == (r->Ok_0).width * (r->Ok_0).height,
{
    if !(data.len() >= 2 && data[0] == 35 && data[1] == 63) {
        return Err(HdrError::NotRadiance);
    }
    let i = skip_header(data);
    let nl = match find_newline(data, i) {
        Some(k) => k,
        None => {
            return Err(HdrError::NoSizeLine);
        },
    };
    if !is_utf8(data, i, nl) {
        return Err(HdrError::SizeLineNotUtf8);
    }
    let line = &data[i..nl];
    let parts = tokens(line);
    assert(parts@.map_values(|v: Vec<u8>| v@).len() == parts@.len());
    if parts.len() < 4 {
        return Err(HdrError::InvalidSizeLine);
    }
    assert(parts@.map_values(|v: Vec<u8>| v@)[1] == parts@[1]@);
    assert(parts@.map_values(|v: Vec<u8>| v@)[3] == parts@[3]@);
    let height = match parse_u32(parts[1].as_slice()) {
        Some(h) => h,
        None => {
            return Err(HdrError::InvalidNumber);
        },
    };
    let width = match parse_u32(parts[3].as_slice()) {
        Some(w) => w,
        None => {
            return Err(HdrError::InvalidNumber);
        },
    };
    assert((width as u64) * (height as u64) <= 0xffff_ffffu64 * 0xffff_ffffu64) by (nonlinear_arith)
        requires
            width <= 0xffff_ffffu32,
            height <= 0xffff_ffffu32,
    ;
    if (width as u64) * (height as u64) > 0xffff_ffffu64 {
        return Err(HdrError::SizeOverflow);
    }
    let body = &data[nl + 1..data.len()];
    match decode_rgbe_scanlines(body, width, height) {
        Ok(pixels) => {
            proof {
                lemma_decoded_pixel_count(body@, width as nat, height as nat);
            }
            Ok(RgbeImage { pixels, width, height })
        },
        Err(e) => Err(e),
    }
}

// ---------------------------------------------------------------------------
// Laws
// ---------------------------------------------------------------------------

proof fn lemma_scanline_len(data: Seq<u8>, pos: int, w: int, row: u32)
    requires
        w >= 0,
        spec_scanline(data, pos, w, row) is Ok,
    ensures
        (spec_scanline(data, pos, w, row)->Ok_0).0.len() == w,
{
}

/// A successful decode yields exactly `width` pixels for each of the
/// `rows` scanlines.
pub proof fn lemma_decoded_pixel_count(data: Seq<u8>, w: nat, rows: nat)
    requires
        spec_decode_rows(data, w as int, rows) is Ok,
    ensures
        (spec_decode_rows(data, w as int, rows)->Ok_0).0.len() == w * rows,
    decreases rows,
{
    if rows > 0 {
        let prev = spec_decode_rows(data, w as int, (rows - 1) as nat);
        assert(prev is Ok);
        lemma_decoded_pixel_count(data, w, (rows - 1) as nat);
        let pos = (prev->Ok_0).1;
        let line = spec_scanline(data, pos, w as int, (rows - 1) as u32);
        assert(line is Ok);
        lemma_scanline_len(data, pos, w as int, (rows - 1) as u32);
        assert((spec_decode_rows(data, w as int, rows)->Ok_0).0 == (prev->Ok_0).0 + (line->Ok_0).0);
        let r1 = (rows - 1) as nat;
        assert((prev->Ok_0).0.len() == w * r1);
        assert((line->Ok_0).0.len() == w);
        assert(w * r1 + w == w * rows) by (nonlinear_arith)
            requires
                r1 + 1 == rows,
        ;
        assert((prev->Ok_0).0.len() + (line->Ok_0).0.len() == w * rows);
    } else {
        assert(w * rows == 0) by (nonlinear_arith)
            requires
                rows == 0,
        ;
    }
}

/// An uncompressed scanline (one that does not start with the RLE marker)
/// decodes to its bytes taken four at a time as R, G, B, E.
pub proof fn lemma_raw_scanline_is_verbatim(data: Seq<u8>, pos: int, w: int, row: u32, x: int)
    requires
        0 <= pos,
        0 <= x < w,
        pos + 4 * w <= data.len(),
        pos + 4 <= data.len(),
        !(data[pos] == 2 && data[pos + 1] == 2 && data[pos + 2] < 128),
    ensures
        spec_scanline(data, pos, w, row) is Ok,
        (spec_scanline(data, pos, w, row)->Ok_0).0[x] == (Rgbe {
            r: data[pos + 4 * x],
            g: data[pos + 4 * x + 1],
            b: data[pos + 4 * x + 2],
            e: data[pos + 4 * x + 3],
        }),
{
}

} // verus!
