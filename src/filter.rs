//! Scanline defiltering: the inverse of PNG's per-row predictive filters.
//!
//! Each reconstructed byte is the filtered byte plus (modulo 256) a predictor
//! computed from already reconstructed bytes of the same channel: `a` to the
//! left, `b` above and `c` above-left, each `bpp` bytes away in the flat row,
//! where `bpp` is the source image's bytes per pixel.
use vstd::prelude::*;

use crate::decode_error::DecodeError;

verus! {

/// Byte addition modulo 256.
pub open spec fn add_mod(x: u8, y: u8) -> u8 {
    ((x + y) % 256) as u8
}

/// Byte subtraction modulo 256.
pub open spec fn sub_mod(x: u8, y: u8) -> u8 {
    ((x - y + 256) % 256) as u8
}

pub open spec fn abs(x: int) -> int {
    if x < 0 { -x } else { x }
}

/// The Paeth predictor: whichever of `a`, `b`, `c` is nearest to
/// `a + b - c`, ties going to `a`, then to `b`.
pub open spec fn paeth(a: u8, b: u8, c: u8) -> u8 {
    let p = a + b - c;
    let pa = abs(p - a);
    let pb = abs(p - b);
    let pc = abs(p - c);
    if pa <= pb && pa <= pc {
        a
    } else if pb <= pc {
        b
    } else {
        c
    }
}

/// The predictor of filter type `filter` (0 none, 1 sub, 2 up, 3 average,
/// 4 Paeth) from the left, above and above-left bytes.
pub open spec fn predictor(filter: u8, a: u8, b: u8, c: u8) -> u8 {
    if filter == 1 {
        a
    } else if filter == 2 {
        b
    } else if filter == 3 {
        ((a + b) / 2) as u8
    } else if filter == 4 {
        paeth(a, b, c)
    } else {
        0
    }
}

/// The byte `bpp` places before `i` in `row`, or zero in the first pixel.
pub open spec fn left(row: Seq<u8>, i: int, bpp: nat) -> u8 {
    if i >= bpp { row[i - bpp] } else { 0 }
}

/// The first `n` reconstructed bytes of a filtered row `line` whose
/// reconstructed predecessor is `prior`.
pub open spec fn unfilter_prefix(filter: u8, line: Seq<u8>, prior: Seq<u8>, bpp: nat, n: nat) -> Seq<
    u8,
>
    decreases n,
{
    if n == 0 {
        seq![]
    } else {
        let done = unfilter_prefix(filter, line, prior, bpp, (n - 1) as nat);
        let i = n - 1;
        done.push(add_mod(line[i], predictor(filter, left(done, i, bpp), prior[i], left(prior, i, bpp))))
    }
}

/// The reconstruction of the filtered row `line` under `prior`.
pub open spec fn unfilter_row(filter: u8, line: Seq<u8>, prior: Seq<u8>, bpp: nat) -> Seq<u8> {
    unfilter_prefix(filter, line, prior, bpp, line.len())
}

/// The filtered form of the raw row `raw` under `prior`: what an encoder writes.
pub open spec fn filter_row(filter: u8, raw: Seq<u8>, prior: Seq<u8>, bpp: nat) -> Seq<u8> {
    Seq::new(
        raw.len(),
        |i: int| sub_mod(raw[i], predictor(filter, left(raw, i, bpp), prior[i], left(prior, i, bpp))),
    )
}

/// A filter-type byte that names one of the five filters.
pub open spec fn is_filter_type(filter: u8) -> bool {
    filter <= 4
}

/// The Paeth predictor of `a` (left), `b` (above) and `c` (above-left).
pub fn paeth_predictor(a: u8, b: u8, c: u8) -> (r: u8)
    ensures
        r == paeth(a, b, c),
{
    let p: i32 = a as i32 + b as i32 - c as i32;
    let pa: i32 = if p >= a as i32 { p - a as i32 } else { a as i32 - p };
    let pb: i32 = if p >= b as i32 { p - b as i32 } else { b as i32 - p };
    let pc: i32 = if p >= c as i32 { p - c as i32 } else { c as i32 - p };
    if pa <= pb && pa <= pc {
        a
    } else if pb <= pc {
        b
    } else {
        c
    }
}

fn predict(filter: u8, a: u8, b: u8, c: u8) -> (r: u8)
    ensures
        r == predictor(filter, a, b, c),
{
    if filter == 1 {
        a
    } else if filter == 2 {
        b
    } else if filter == 3 {
        ((a as u16 + b as u16) / 2) as u8
    } else if filter == 4 {
        paeth_predictor(a, b, c)
    } else {
        0
    }
}

/// Reconstructs one scanline. `line` is the row's filtered bytes without its
/// filter-type byte, `prior` the reconstructed row above it (all zero for
/// the first row), and `bpp` the source bytes per pixel.
pub fn unfilter_scanline(filter_type: u8, line: &[u8], prior: &[u8], bpp: usize) -> (r: Result<
    Vec<u8>,
    DecodeError,
>)
    requires
        line@.len() == prior@.len(),
        bpp >= 1,
    ensures
        r is Ok <==> is_filter_type(filter_type),
        r is Ok ==> r->Ok_0@ == unfilter_row(filter_type, line@, prior@, bpp as nat),
        r is Err ==> r->Err_0 is InvalidScanlineFilter,
{
    if filter_type > 4 {
        return Err(DecodeError::InvalidScanlineFilter());
    }
    let mut out: Vec<u8> = Vec::new();
    let mut i: usize = 0;
    while i < line.len()
        invariant
            i <= line@.len(),
            line@.len() == prior@.len(),
            bpp >= 1,
            out@.len() == i,
            out@ == unfilter_prefix(filter_type, line@, prior@, bpp as nat, i as nat),
        decreases line@.len() - i,
    {
        let a: u8 = if i >= bpp { out[i - bpp] } else { 0 };
        let c: u8 = if i >= bpp { prior[i - bpp] } else { 0 };
        let p = predict(filter_type, a, prior[i], c);
        out.push(line[i].wrapping_add(p));
        i += 1;
    }
    Ok(out)
}

proof fn lemma_add_sub_mod(x: u8, p: u8)
    ensures
        add_mod(sub_mod(x, p), p) == x,
{
    if x >= p {
        assert((x - p + 256) % 256 == x - p);
    } else {
        assert((x - p + 256) % 256 == x - p + 256);
    }
}

proof fn lemma_unfilter_prefix_of_filtered(filter: u8, raw: Seq<u8>, prior: Seq<u8>, bpp: nat, n: nat)
    requires
        raw.len() == prior.len(),
        bpp >= 1,
        n <= raw.len(),
    ensures
        unfilter_prefix(filter, filter_row(filter, raw, prior, bpp), prior, bpp, n) == raw.subrange(
            0,
            n as int,
        ),
    decreases n,
{
    if n > 0 {
        let line = filter_row(filter, raw, prior, bpp);
        let i = n - 1;
        lemma_unfilter_prefix_of_filtered(filter, raw, prior, bpp, (n - 1) as nat);
        let done = unfilter_prefix(filter, line, prior, bpp, (n - 1) as nat);
        assert(left(done, i, bpp) == left(raw, i, bpp));
        lemma_add_sub_mod(raw[i], predictor(filter, left(raw, i, bpp), prior[i], left(prior, i, bpp)));
        assert(unfilter_prefix(filter, line, prior, bpp, n) =~= raw.subrange(0, n as int));
    }
}

/// A row of `n` zero bytes: the row above the first one.
pub open spec fn zero_row(n: nat) -> Seq<u8> {
    Seq::new(n, |i: int| 0u8)
}

/// Reconstructed row `y` of an image whose filtered scanlines, each a
/// filter-type byte followed by `row_len` bytes, lie back to back in `data`.
pub open spec fn raw_row(data: Seq<u8>, row_len: nat, bpp: nat, y: nat) -> Seq<u8>
    decreases y,
{
    let start: int = (y * (row_len + 1)) as int;
    let prior = if y == 0 {
        zero_row(row_len)
    } else {
        raw_row(data, row_len, bpp, (y - 1) as nat)
    };
    unfilter_row(data[start], data.subrange(start + 1, start + 1 + row_len), prior, bpp)
}

/// The first `n` reconstructed rows, back to back.
pub open spec fn raw_rows(data: Seq<u8>, row_len: nat, bpp: nat, n: nat) -> Seq<u8>
    decreases n,
{
    if n == 0 {
        seq![]
    } else {
        raw_rows(data, row_len, bpp, (n - 1) as nat) + raw_row(data, row_len, bpp, (n - 1) as nat)
    }
}

/// The first `n` scanlines all carry a known filter type.
pub open spec fn filters_valid(data: Seq<u8>, row_len: nat, n: nat) -> bool {
    forall|y: int| 0 <= y < n ==> #[trigger] is_filter_type(data[y * (row_len + 1)])
}

proof fn lemma_unfilter_prefix_len(filter: u8, line: Seq<u8>, prior: Seq<u8>, bpp: nat, n: nat)
    ensures
        unfilter_prefix(filter, line, prior, bpp, n).len() == n,
    decreases n,
{
    if n > 0 {
        lemma_unfilter_prefix_len(filter, line, prior, bpp, (n - 1) as nat);
    }
}

proof fn lemma_raw_row_len(data: Seq<u8>, row_len: nat, bpp: nat, y: nat)
    requires
        (y + 1) * (row_len + 1) <= data.len(),
    ensures
        raw_row(data, row_len, bpp, y).len() == row_len,
{
    let start: int = (y * (row_len + 1)) as int;
    let line = data.subrange(start + 1, start + 1 + row_len);
    let prior = if y == 0 {
        zero_row(row_len)
    } else {
        raw_row(data, row_len, bpp, (y - 1) as nat)
    };
    assert((y + 1) * (row_len + 1) == y * (row_len + 1) + row_len + 1) by (nonlinear_arith);
    lemma_unfilter_prefix_len(data[start], line, prior, bpp, line.len());
}

/// The first `n` reconstructed rows hold `n * row_len` bytes.
pub proof fn lemma_raw_rows_len(data: Seq<u8>, row_len: nat, bpp: nat, n: nat)
    requires
        n * (row_len + 1) <= data.len(),
    ensures
        raw_rows(data, row_len, bpp, n).len() == n * row_len,
    decreases n,
{
    if n > 0 {
        assert((n - 1) * (row_len + 1) <= n * (row_len + 1)) by (nonlinear_arith)
            requires n >= 1;
        lemma_raw_rows_len(data, row_len, bpp, (n - 1) as nat);
        lemma_raw_row_len(data, row_len, bpp, (n - 1) as nat);
        let m = (n - 1) as nat;
        assert(n * row_len == m * row_len + row_len) by (nonlinear_arith)
            requires m == n - 1;
        assert(raw_rows(data, row_len, bpp, n) == raw_rows(data, row_len, bpp, m) + raw_row(
            data,
            row_len,
            bpp,
            m,
        ));
    } else {
        assert(n * row_len == 0) by (nonlinear_arith)
            requires n == 0;
    }
}

fn zero_bytes(n: usize) -> (r: Vec<u8>)
    ensures
        r@ == zero_row(n as nat),
{
    let mut r: Vec<u8> = Vec::new();
    let mut i: usize = 0;
    while i < n
        invariant
            i <= n,
            r@ == zero_row(i as nat),
        decreases n - i,
    {
        r.push(0u8);
        i += 1;
        assert(r@ =~= zero_row(i as nat));
    }
    r
}

/// Reconstructs `height` scanlines of `row_len` filtered bytes each (plus a
/// leading filter-type byte) into the raw source bytes, rows in order.
/// Fails on the first scanline whose filter type is unknown.
pub fn unfilter_scanlines(data: &[u8], row_len: usize, height: usize, bpp: usize) -> (r: Result<
    Vec<u8>,
    DecodeError,
>)
    requires
        height * (row_len + 1) <= data@.len(),
        bpp >= 1,
    ensures
        r is Ok <==> filters_valid(data@, row_len as nat, height as nat),
        r is Ok ==> r->Ok_0@ == raw_rows(data@, row_len as nat, bpp as nat, height as nat),
        r is Err ==> r->Err_0 is InvalidScanlineFilter,
{
    let ghost stride = row_len + 1;
    let mut out: Vec<u8> = Vec::new();
    let mut prior: Vec<u8> = zero_bytes(row_len);
    let mut y: usize = 0;
    let mut start: usize = 0;
    while y < height
        invariant
            y <= height,
            stride == row_len + 1,
            height * stride <= data@.len(),
            bpp >= 1,
            start == y * stride,
            prior@ == (if y == 0 {
                zero_row(row_len as nat)
            } else {
                raw_row(data@, row_len as nat, bpp as nat, (y - 1) as nat)
            }),
            out@ == raw_rows(data@, row_len as nat, bpp as nat, y as nat),
            filters_valid(data@, row_len as nat, y as nat),
        decreases height - y,
    {
        proof {
            assert((y + 1) * stride <= height * stride) by (nonlinear_arith)
                requires y + 1 <= height, stride >= 0;
            assert((y + 1) * stride == y * stride + stride) by (nonlinear_arith);
            if y > 0 {
                assert(y * stride <= (y + 1) * stride) by (nonlinear_arith)
                    requires stride >= 0;
                lemma_raw_row_len(data@, row_len as nat, bpp as nat, (y - 1) as nat);
            }
        }
        let filter_type = data[start];
        let line = vstd::slice::slice_subrange(data, start + 1, start + 1 + row_len);
        let row = match unfilter_scanline(filter_type, line, prior.as_slice(), bpp) {
            Ok(row) => row,
            Err(e) => {
                assert(!is_filter_type(data@[y * (row_len + 1)]));
                return Err(e);
            },
        };
        let mut copy = row.clone();
        out.append(&mut copy);
        proof {
            assert forall|k: int| 0 <= k < y + 1 implies #[trigger] is_filter_type(
                data@[k * (row_len + 1)],
            ) by {
                if k < y {
                    assert(is_filter_type(data@[k * (row_len + 1)]));
                }
            }
        }
        prior = row;
        y += 1;
        start += row_len + 1;
    }
    Ok(out)
}

/// Defiltering undoes filtering: a row filtered with any of the five filter
/// types against a known previous row reconstructs to itself.
pub proof fn lemma_unfilter_inverts_filter(filter: u8, raw: Seq<u8>, prior: Seq<u8>, bpp: nat)
    requires
        raw.len() == prior.len(),
        bpp >= 1,
    ensures
        unfilter_row(filter, filter_row(filter, raw, prior, bpp), prior, bpp) == raw,
{
    lemma_unfilter_prefix_of_filtered(filter, raw, prior, bpp, raw.len());
    assert(raw.subrange(0, raw.len() as int) =~= raw);
}

/// When the three neighbours are equal, Paeth resolves to the left byte.
pub proof fn lemma_paeth_prefers_left(a: u8)
    ensures
        paeth(a, a, a) == a,
{
}

} // verus!
