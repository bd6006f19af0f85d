//! YUV 4:2:2 to RGB24 buffer conversions.
//!
//! Every pair of horizontally adjacent pixels shares one blue-difference
//! (Cb) and one red-difference (Cr) sample; each pixel has its own luma (Y)
//! sample.  The per-pixel colour transform is a parameter `to_rgb`, which
//! maps `(y, cb, cr)` to `(r, g, b)`; these functions place every sample and
//! every result at the right offset of the buffers.

use vstd::prelude::*;

verus! {

/// The three bytes `out[at..at + 3]` are a result of `to_rgb(y, cb, cr)`.
pub open spec fn rgb_at<F: Fn(u8, u8, u8) -> (u8, u8, u8)>(
    to_rgb: F,
    y: u8,
    cb: u8,
    cr: u8,
    out: Seq<u8>,
    at: int,
) -> bool {
    call_ensures(to_rgb, (y, cb, cr), (out[at], out[at + 1], out[at + 2]))
}

/// `to_rgb` may be called on every sample triple.
pub open spec fn total<F: Fn(u8, u8, u8) -> (u8, u8, u8)>(to_rgb: F) -> bool {
    forall|y: u8, cb: u8, cr: u8| call_requires(to_rgb, (y, cb, cr))
}

/// `out` holds, at `6 * k`, the RGB pair of the two pixels with luma `y1`
/// and `y2` that share the chroma samples `cb` and `cr`.
pub open spec fn pair_at<F: Fn(u8, u8, u8) -> (u8, u8, u8)>(
    to_rgb: F,
    y1: u8,
    y2: u8,
    cb: u8,
    cr: u8,
    out: Seq<u8>,
    k: int,
) -> bool {
    &&& rgb_at(to_rgb, y1, cb, cr, out, 6 * k)
    &&& rgb_at(to_rgb, y2, cb, cr, out, 6 * k + 3)
}

/// Bytes of `new` and `old` agree outside `[lo, hi)`, and they have the same length.
pub open spec fn same_outside(new: Seq<u8>, old: Seq<u8>, lo: int, hi: int) -> bool {
    &&& new.len() == old.len()
    &&& forall|i: int| 0 <= i < new.len() && !(lo <= i < hi) ==> new[i] == old[i]
}

/// Writes the RGB values of the two pixels `(y1, cb, cr)` and `(y2, cb, cr)`
/// into `out[6 * k..6 * k + 6]`, leaving every other byte as it was.
fn write_pair<F: Fn(u8, u8, u8) -> (u8, u8, u8)>(
    out: &mut [u8],
    k: usize,
    y1: u8,
    y2: u8,
    cb: u8,
    cr: u8,
    to_rgb: &F,
)
    requires
        6 * k + 6 <= old(out).len(),
        total(*to_rgb),
    ensures
        pair_at(*to_rgb, y1, y2, cb, cr, final(out)@, k as int),
        same_outside(final(out)@, old(out)@, 6 * k, 6 * k + 6),
{
    let at = 6 * k;
    let (r, g, b) = to_rgb(y1, cb, cr);
    out[at] = r;
    out[at + 1] = g;
    out[at + 2] = b;
    let (r, g, b) = to_rgb(y2, cb, cr);
    out[at + 3] = r;
    out[at + 4] = g;
    out[at + 5] = b;
}

/// Pixel pair `k` of a packed YUYV buffer: bytes `4k..4k+4` hold
/// `Y1 Cb Y2 Cr`.
pub open spec fn yuyv_pair_converted<F: Fn(u8, u8, u8) -> (u8, u8, u8)>(
    to_rgb: F,
    inp: Seq<u8>,
    out: Seq<u8>,
    k: int,
) -> bool {
    pair_at(to_rgb, inp[4 * k], inp[4 * k + 2], inp[4 * k + 1], inp[4 * k + 3], out, k)
}

/// Number of pixel pairs that a conversion of an `in_len`-byte YUV 4:2:2
/// buffer writes: one per four input bytes.
pub open spec fn pair_count(in_len: nat) -> nat {
    in_len / 4
}

/// The output buffer of an `in_len`-byte input holds one and a half bytes per
/// input byte (three RGB bytes for every two YUV bytes).
pub open spec fn rgb24_len_matches(in_len: nat, out_len: nat) -> bool {
    out_len * 2 == in_len * 3
}

proof fn lemma_pairs_fit(in_len: nat, out_len: nat)
    requires
        rgb24_len_matches(in_len, out_len),
    ensures
        6 * pair_count(in_len) <= out_len,
        4 * pair_count(in_len) <= in_len,
{
    assert(6 * (in_len / 4) <= out_len && 4 * (in_len / 4) <= in_len) by (nonlinear_arith)
        requires
            out_len * 2 == in_len * 3,
    ;
}

/// Converts a packed YUYV 4:2:2 buffer (`Y1 Cb Y2 Cr` per pixel pair) to
/// RGB24 (`R G B` per pixel): pixel pair `k` becomes
/// `to_rgb(Y1, Cb, Cr)` followed by `to_rgb(Y2, Cb, Cr)` at `out_buf[6 * k..]`.
/// Bytes of `out_buf` past the last complete pair are left as they were.
pub fn yuv422_interleaved_to_rgb24<F: Fn(u8, u8, u8) -> (u8, u8, u8)>(
    in_buf: &[u8],
    out_buf: &mut [u8],
    to_rgb: F,
)
    requires
        rgb24_len_matches(in_buf@.len(), old(out_buf)@.len()),
        total(to_rgb),
    ensures
        forall|k: int|
            0 <= k < in_buf@.len() / 4 ==> #[trigger] yuyv_pair_converted(
                to_rgb,
                in_buf@,
                final(out_buf)@,
                k,
            ),
        same_outside(final(out_buf)@, old(out_buf)@, 0, 6 * (in_buf@.len() / 4) as int),
{
    proof {
        lemma_pairs_fit(in_buf@.len(), out_buf@.len());
    }
    let pairs = in_buf.len() / 4;
    let ghost original = out_buf@;
    let mut k: usize = 0;
    while k < pairs
        invariant
            pairs == pair_count(in_buf@.len()),
            6 * pairs <= out_buf@.len(),
            4 * pairs <= in_buf@.len(),
            k <= pairs,
            total(to_rgb),
            forall|j: int| 0 <= j < k ==> #[trigger] yuyv_pair_converted(to_rgb, in_buf@, out_buf@, j),
            same_outside(out_buf@, original, 0, 6 * k),
        decreases pairs - k,
    {
        let ghost before = out_buf@;
        assert(4 * k < 4 * pairs);
        assert(in_buf@.len() == in_buf.len());
        let base = 4 * k;
        write_pair(out_buf, k, in_buf[base], in_buf[base + 2], in_buf[base + 1], in_buf[base + 3], &to_rgb);
        assert forall|j: int| 0 <= j < k + 1 implies #[trigger] yuyv_pair_converted(to_rgb, in_buf@, out_buf@, j) by {
            if j < k {
                assert(yuyv_pair_converted(to_rgb, in_buf@, before, j));
                assert(out_buf@[6 * j] == before[6 * j]);
                assert(out_buf@[6 * j + 1] == before[6 * j + 1]);
                assert(out_buf@[6 * j + 2] == before[6 * j + 2]);
                assert(out_buf@[6 * j + 3] == before[6 * j + 3]);
                assert(out_buf@[6 * j + 4] == before[6 * j + 4]);
                assert(out_buf@[6 * j + 5] == before[6 * j + 5]);
            }
        }
        k = k + 1;
    }
}

/// Where the planes of a planar YUV 4:2:2 buffer of `len` bytes start:
/// `[Y1 Y2 ...][Cb1 Cb2 ...][Cr1 Cr2 ...]`, the luma plane taking the first
/// half and each chroma plane a quarter.
pub struct PlanarLayout {
    /// Bytes in the luma plane.
    pub luma_len: usize,
    /// Bytes in each chroma plane.
    pub chroma_len: usize,
    /// Offset of the first Cb sample.
    pub cb_begin: usize,
    /// Offset of the first Cr sample.
    pub cr_begin: usize,
}

pub open spec fn spec_luma_len(len: nat) -> nat {
    len / 2
}

pub open spec fn spec_chroma_len(len: nat) -> nat {
    spec_luma_len(len) / 2
}

pub open spec fn spec_cb_begin(len: nat) -> nat {
    spec_luma_len(len)
}

pub open spec fn spec_cr_begin(len: nat) -> nat {
    spec_luma_len(len) + spec_chroma_len(len)
}

/// The plane offsets of a planar buffer of `len` bytes.
pub fn planar_layout(len: usize) -> (l: PlanarLayout)
    ensures
        l.luma_len == spec_luma_len(len as nat),
        l.chroma_len == spec_chroma_len(len as nat),
        l.cb_begin == spec_cb_begin(len as nat),
        l.cr_begin == spec_cr_begin(len as nat),
        l.luma_len == len / 2,
        l.chroma_len == len / 4,
        l.cb_begin == len / 2,
        l.cr_begin == len / 2 + len / 4,
        l.cr_begin == l.cb_begin + l.chroma_len,
{
    proof {
        lemma_planar_offsets(len as nat);
    }
    let luma_len = len / 2;
    let chroma_len = luma_len / 2;
    PlanarLayout { luma_len, chroma_len, cb_begin: luma_len, cr_begin: luma_len + chroma_len }
}

/// Pixel pair `k` of a planar buffer: luma bytes `2k` and `2k + 1`, and
/// chroma sample `k` of each chroma plane.
pub open spec fn planar_pair_converted<F: Fn(u8, u8, u8) -> (u8, u8, u8)>(
    to_rgb: F,
    inp: Seq<u8>,
    out: Seq<u8>,
    k: int,
) -> bool {
    pair_at(
        to_rgb,
        inp[2 * k],
        inp[2 * k + 1],
        inp[spec_cb_begin(inp.len()) + k],
        inp[spec_cr_begin(inp.len()) + k],
        out,
        k,
    )
}

/// Converts a planar YUV 4:2:2 buffer (luma plane, then Cb plane, then Cr
/// plane) to RGB24: pixel pair `k` takes luma bytes `2k`, `2k + 1` and the
/// `k`-th sample of each chroma plane, and becomes `to_rgb(Y1, Cb, Cr)`
/// followed by `to_rgb(Y2, Cb, Cr)` at `out_buf[6 * k..]`.  There is one pair
/// per chroma sample; bytes of `out_buf` past the last pair are left as they were.
pub fn yuv422_planar_to_rgb24<F: Fn(u8, u8, u8) -> (u8, u8, u8)>(
    in_buf: &[u8],
    out_buf: &mut [u8],
    to_rgb: F,
)
    requires
        rgb24_len_matches(in_buf@.len(), old(out_buf)@.len()),
        total(to_rgb),
    ensures
        pair_count(in_buf@.len()) == spec_chroma_len(in_buf@.len()),
        forall|k: int|
            0 <= k < in_buf@.len() / 4 ==> #[trigger] planar_pair_converted(
                to_rgb,
                in_buf@,
                final(out_buf)@,
                k,
            ),
        same_outside(final(out_buf)@, old(out_buf)@, 0, 6 * (in_buf@.len() / 4) as int),
{
    proof {
        lemma_pairs_fit(in_buf@.len(), out_buf@.len());
    }
    let layout = planar_layout(in_buf.len());
    let pairs = layout.chroma_len;
    assert(in_buf@.len() == in_buf.len());
    assert(pairs == pair_count(in_buf@.len()));
    let ghost original = out_buf@;
    let mut k: usize = 0;
    while k < pairs
        invariant
            pairs == pair_count(in_buf@.len()),
            layout.cb_begin == spec_cb_begin(in_buf@.len()),
            layout.cr_begin == spec_cr_begin(in_buf@.len()),
            layout.cr_begin + pairs <= in_buf@.len(),
            6 * pairs <= out_buf@.len(),
            2 * pairs <= layout.cb_begin,
            k <= pairs,
            total(to_rgb),
            forall|j: int| 0 <= j < k ==> #[trigger] planar_pair_converted(to_rgb, in_buf@, out_buf@, j),
            same_outside(out_buf@, original, 0, 6 * k),
        decreases pairs - k,
    {
        let ghost before = out_buf@;
        let y1 = in_buf[2 * k];
        let y2 = in_buf[2 * k + 1];
        let cb = in_buf[layout.cb_begin + k];
        let cr = in_buf[layout.cr_begin + k];
        write_pair(out_buf, k, y1, y2, cb, cr, &to_rgb);
        assert forall|j: int| 0 <= j < k + 1 implies #[trigger] planar_pair_converted(to_rgb, in_buf@, out_buf@, j) by {
            if j < k {
                assert(planar_pair_converted(to_rgb, in_buf@, before, j));
                assert(out_buf@[6 * j] == before[6 * j]);
                assert(out_buf@[6 * j + 1] == before[6 * j + 1]);
                assert(out_buf@[6 * j + 2] == before[6 * j + 2]);
                assert(out_buf@[6 * j + 3] == before[6 * j + 3]);
                assert(out_buf@[6 * j + 4] == before[6 * j + 4]);
                assert(out_buf@[6 * j + 5] == before[6 * j + 5]);
            }
        }
        k = k + 1;
    }
}

/// One work item of a packed conversion, for callers that hand the groups
/// of a buffer out to several threads: the 4-byte group `Y1 Cb Y2 Cr`
/// becomes the 6 bytes `to_rgb(Y1, Cb, Cr)`, `to_rgb(Y2, Cb, Cr)`.
pub fn yuyv_group_to_rgb<F: Fn(u8, u8, u8) -> (u8, u8, u8)>(
    group: &[u8],
    out: &mut [u8],
    to_rgb: &F,
)
    requires
        group@.len() == 4,
        old(out)@.len() == 6,
        total(*to_rgb),
    ensures
        final(out)@.len() == 6,
        pair_at(*to_rgb, group@[0], group@[2], group@[1], group@[3], final(out)@, 0),
{
    write_pair(out, 0, group[0], group[2], group[1], group[3], to_rgb);
}

/// One work item of a planar conversion: the two luma samples `lumas` and
/// the shared chroma samples `cb`, `cr` become the 6 bytes
/// `to_rgb(lumas[0], cb, cr)`, `to_rgb(lumas[1], cb, cr)`.
pub fn planar_pair_to_rgb<F: Fn(u8, u8, u8) -> (u8, u8, u8)>(
    lumas: &[u8],
    cb: u8,
    cr: u8,
    out: &mut [u8],
    to_rgb: &F,
)
    requires
        lumas@.len() == 2,
        old(out)@.len() == 6,
        total(*to_rgb),
    ensures
        final(out)@.len() == 6,
        pair_at(*to_rgb, lumas@[0], lumas@[1], cb, cr, final(out)@, 0),
{
    write_pair(out, 0, lumas[0], lumas[1], cb, cr, to_rgb);
}

/// Handing the groups of a packed buffer out as separate work items gives
/// the whole-buffer conversion: when the 6 output bytes of every group `k`
/// hold what `yuyv_group_to_rgb` promises for the 4 input bytes of group
/// `k`, every pixel pair of the buffer is converted as
/// `yuv422_interleaved_to_rgb24` promises.
pub proof fn lemma_interleaved_work_items<F: Fn(u8, u8, u8) -> (u8, u8, u8)>(
    to_rgb: F,
    inp: Seq<u8>,
    out: Seq<u8>,
)
    requires
        rgb24_len_matches(inp.len(), out.len()),
        forall|k: int|
            0 <= k < pair_count(inp.len()) ==> {
                let group = #[trigger] inp.subrange(4 * k, 4 * k + 4);
                pair_at(to_rgb, group[0], group[2], group[1], group[3], out.subrange(6 * k, 6 * k + 6), 0)
            },
    ensures
        forall|k: int|
            0 <= k < pair_count(inp.len()) ==> #[trigger] yuyv_pair_converted(to_rgb, inp, out, k),
{
    lemma_pairs_fit(inp.len(), out.len());
    assert forall|k: int| 0 <= k < pair_count(inp.len()) implies #[trigger] yuyv_pair_converted(to_rgb, inp, out, k) by {
        let group = inp.subrange(4 * k, 4 * k + 4);
        let chunk = out.subrange(6 * k, 6 * k + 6);
        assert(pair_at(to_rgb, group[0], group[2], group[1], group[3], chunk, 0));
        assert(chunk[0] == out[6 * k] && chunk[1] == out[6 * k + 1] && chunk[2] == out[6 * k + 2]);
        assert(chunk[3] == out[6 * k + 3] && chunk[4] == out[6 * k + 4] && chunk[5] == out[6 * k + 5]);
    }
}

/// Handing the pixel pairs of a planar buffer out as separate work items
/// gives the whole-buffer conversion: when the 6 output bytes of every pair
/// `k` hold what `planar_pair_to_rgb` promises for luma bytes `2k`, `2k + 1`
/// and chroma sample `k` of each plane, every pixel pair of the buffer is
/// converted as `yuv422_planar_to_rgb24` promises.
pub proof fn lemma_planar_work_items<F: Fn(u8, u8, u8) -> (u8, u8, u8)>(
    to_rgb: F,
    inp: Seq<u8>,
    out: Seq<u8>,
)
    requires
        rgb24_len_matches(inp.len(), out.len()),
        forall|k: int|
            0 <= k < pair_count(inp.len()) ==> {
                let lumas = #[trigger] inp.subrange(2 * k, 2 * k + 2);
                pair_at(
                    to_rgb,
                    lumas[0],
                    lumas[1],
                    inp[spec_cb_begin(inp.len()) + k],
                    inp[spec_cr_begin(inp.len()) + k],
                    out.subrange(6 * k, 6 * k + 6),
                    0,
                )
            },
    ensures
        forall|k: int|
            0 <= k < pair_count(inp.len()) ==> #[trigger] planar_pair_converted(to_rgb, inp, out, k),
{
    lemma_pairs_fit(inp.len(), out.len());
    assert forall|k: int| 0 <= k < pair_count(inp.len()) implies #[trigger] planar_pair_converted(to_rgb, inp, out, k) by {
        let lumas = inp.subrange(2 * k, 2 * k + 2);
        let chunk = out.subrange(6 * k, 6 * k + 6);
        assert(pair_at(
            to_rgb,
            lumas[0],
            lumas[1],
            inp[spec_cb_begin(inp.len()) + k],
            inp[spec_cr_begin(inp.len()) + k],
            chunk,
            0,
        ));
        assert(chunk[0] == out[6 * k] && chunk[1] == out[6 * k + 1] && chunk[2] == out[6 * k + 2]);
        assert(chunk[3] == out[6 * k + 3] && chunk[4] == out[6 * k + 4] && chunk[5] == out[6 * k + 5]);
    }
}

/// Pixel pairs of an `n`-byte input: one per complete 4-byte group.
pub proof fn lemma_pair_count(n: nat)
    ensures
        pair_count(n) == n / 4,
        4 * pair_count(n) <= n < 4 * pair_count(n) + 4,
{
}

/// The planes of an `len`-byte planar buffer: the luma plane is the first
/// half, the Cb plane the next quarter starting at `len / 2`, and the Cr
/// plane starts right after the Cb plane, at `len / 2 + len / 4`; there are
/// as many chroma samples per plane as pixel pairs.
pub proof fn lemma_planar_offsets(len: nat)
    ensures
        spec_luma_len(len) == len / 2,
        spec_chroma_len(len) == len / 4,
        spec_cb_begin(len) == len / 2,
        spec_cr_begin(len) == len / 2 + len / 4,
        spec_cr_begin(len) == spec_cb_begin(len) + spec_chroma_len(len),
        spec_chroma_len(len) == pair_count(len),
        len / 2 + len / 4 + len / 4 <= len,
{
    assert((len / 2) / 2 == len / 4) by {
        vstd::arithmetic::div_mod::lemma_div_denominator(len as int, 2, 2);
    }
}

/// What a converted packed pixel pair is, in terms of the buffers: pair `k`
/// reads `Y1 = in[4k]`, `Cb = in[4k + 1]`, `Y2 = in[4k + 2]`,
/// `Cr = in[4k + 3]`, and `out[6k..6k + 3]` is a result of
/// `to_rgb(Y1, Cb, Cr)`, `out[6k + 3..6k + 6]` one of `to_rgb(Y2, Cb, Cr)`.
pub proof fn lemma_yuyv_pair_meaning<F: Fn(u8, u8, u8) -> (u8, u8, u8)>(
    to_rgb: F,
    inp: Seq<u8>,
    out: Seq<u8>,
    k: int,
)
    ensures
        yuyv_pair_converted(to_rgb, inp, out, k) <==> (call_ensures(
            to_rgb,
            (inp[4 * k], inp[4 * k + 1], inp[4 * k + 3]),
            (out[6 * k], out[6 * k + 1], out[6 * k + 2]),
        ) && call_ensures(
            to_rgb,
            (inp[4 * k + 2], inp[4 * k + 1], inp[4 * k + 3]),
            (out[6 * k + 3], out[6 * k + 4], out[6 * k + 5]),
        )),
{
}

/// What a converted planar pixel pair is, in terms of the buffers, for an
/// input of `n` bytes: pair `k` reads `Y1 = in[2k]`, `Y2 = in[2k + 1]`,
/// `Cb = in[n / 2 + k]` and `Cr = in[n / 2 + n / 4 + k]`, and
/// `out[6k..6k + 3]` is a result of `to_rgb(Y1, Cb, Cr)`,
/// `out[6k + 3..6k + 6]` one of `to_rgb(Y2, Cb, Cr)`.
pub proof fn lemma_planar_pair_meaning<F: Fn(u8, u8, u8) -> (u8, u8, u8)>(
    to_rgb: F,
    inp: Seq<u8>,
    out: Seq<u8>,
    k: int,
)
    ensures
        planar_pair_converted(to_rgb, inp, out, k) <==> (call_ensures(
            to_rgb,
            (inp[2 * k], inp[inp.len() / 2 + k], inp[inp.len() / 2 + inp.len() / 4 + k]),
            (out[6 * k], out[6 * k + 1], out[6 * k + 2]),
        ) && call_ensures(
            to_rgb,
            (inp[2 * k + 1], inp[inp.len() / 2 + k], inp[inp.len() / 2 + inp.len() / 4 + k]),
            (out[6 * k + 3], out[6 * k + 4], out[6 * k + 5]),
        )),
{
    lemma_planar_offsets(inp.len());
}

/// The bytes a conversion leaves alone: same length, and every byte before
/// `lo` or from `hi` on is unchanged.
pub proof fn lemma_same_outside_meaning(new: Seq<u8>, old: Seq<u8>, lo: int, hi: int)
    ensures
        same_outside(new, old, lo, hi) <==> (new.len() == old.len() && forall|i: int|
            0 <= i < new.len() && (i < lo || hi <= i) ==> #[trigger] new[i] == old[i]),
{
}

} // verus!
