//! Decoded frames in planar YUV 4:2:0 and the packing of codec planes into
//! one tightly packed payload.

use vstd::prelude::*;
use vstd::slice::slice_subrange;

verus! {

/// Length of a tightly packed YUV 4:2:0 payload: one full-resolution luma
/// plane followed by two chroma planes of half the width and half the height.
pub open spec fn packed_len(width: int, height: int) -> int {
    width * height + 2 * ((width / 2) * (height / 2))
}

/// A decoded picture: `[Y plane | U plane | V plane]`, rows stored back to
/// back without padding.
#[derive(Debug, Clone)]
pub struct DecodedFrame {
    /// Width in pixels.
    pub width: u32,
    /// Height in pixels.
    pub height: u32,
    /// Presentation timestamp, where the container gives one.
    pub pts: Option<i64>,
    /// The three planes, luma first.
    pub data: Vec<u8>,
    /// Row stride of each plane, in the order Y, U, V.
    pub linesize: [i32; 3],
}

/// The mathematical value of a [`DecodedFrame`].
pub struct FrameView {
    pub width: u32,
    pub height: u32,
    pub pts: Option<i64>,
    pub data: Seq<u8>,
    pub linesize: Seq<i32>,
}

impl FrameView {
    /// The frame invariant: the payload has exactly the packed length and
    /// the strides are those of a tightly packed frame.
    pub open spec fn wf(self) -> bool {
        &&& self.data.len() == packed_len(self.width as int, self.height as int)
        &&& self.linesize.len() == 3
        &&& self.linesize[0] as int == self.width as int
        &&& self.linesize[1] as int == self.width as int / 2
        &&& self.linesize[2] as int == self.width as int / 2
    }
}

impl View for DecodedFrame {
    type V = FrameView;

    open spec fn view(&self) -> FrameView {
        FrameView {
            width: self.width,
            height: self.height,
            pts: self.pts,
            data: self.data@,
            linesize: self.linesize@,
        }
    }
}

impl DecodedFrame {
    /// The frame invariant: the payload has exactly the packed length and
    /// the strides are those of a tightly packed frame.
    pub open spec fn wf(&self) -> bool {
        self@.wf()
    }

    /// Both dimensions are even, as the 4:2:0 layout wants.
    pub open spec fn even_dimensions(&self) -> bool {
        self.width % 2 == 0 && self.height % 2 == 0
    }

    /// Size of the luma plane in bytes.
    pub fn y_plane_size(&self) -> (size: usize)
        requires
            self.width * self.height <= usize::MAX,
        ensures
            size == self.width * self.height,
    {
        (self.width as usize) * (self.height as usize)
    }

    /// Size of each chroma plane in bytes.
    pub fn chroma_plane_size(&self) -> (size: usize)
        requires
            self.width * self.height <= usize::MAX,
        ensures
            size == (self.width / 2) * (self.height / 2),
            self.even_dimensions() ==> size == (self.width * self.height) / 4,
    {
        let half_width: usize = (self.width / 2) as usize;
        let half_height: usize = (self.height / 2) as usize;
        proof {
            lemma_half_product(self.width as int, self.height as int);
            lemma_even_quarter(self.width as int, self.height as int);
        }
        half_width * half_height
    }
}

/// The product of the halves is no more than the product.
pub proof fn lemma_half_product(width: int, height: int)
    requires
        0 <= width,
        0 <= height,
    ensures
        0 <= (width / 2) * (height / 2) <= width * height,
{
    assert(0 <= (width / 2) * (height / 2) <= width * height) by (nonlinear_arith)
        requires
            0 <= width / 2 <= width,
            0 <= height / 2 <= height,
    ;
}

/// With even dimensions each chroma plane is a quarter of the luma plane,
/// and the whole payload is one and a half times the luma plane.
pub proof fn lemma_even_quarter(width: int, height: int)
    requires
        0 <= width,
        0 <= height,
    ensures
        width % 2 == 0 && height % 2 == 0 ==> {
            &&& (width / 2) * (height / 2) == (width * height) / 4
            &&& packed_len(width, height) == (width * height) * 3 / 2
        },
{
    if width % 2 == 0 && height % 2 == 0 {
        let a = width / 2;
        let b = height / 2;
        assert(width == 2 * a && height == 2 * b);
        assert(width * height == 4 * (a * b)) by (nonlinear_arith)
            requires
                width == 2 * a,
                height == 2 * b,
        ;
    }
}

/// One plane as a codec hands it out: rows of bytes, each row starting
/// `stride` bytes after the one before.
pub struct Plane<'a> {
    /// The plane's bytes.
    pub data: &'a [u8],
    /// Distance in bytes between the starts of two consecutive rows.
    pub stride: usize,
}

impl<'a> Plane<'a> {
    /// The plane holds `rows` rows of `row_width` bytes each.
    pub open spec fn holds(&self, row_width: int, rows: int) -> bool {
        rows > 0 ==> (rows - 1) * self.stride as int + row_width <= self.data@.len()
    }

    /// The first `row_width` bytes of row `r`.
    pub open spec fn row(&self, r: int, row_width: int) -> Seq<u8> {
        self.data@.subrange(r * self.stride as int, r * self.stride as int + row_width)
    }

    /// The first `rows` rows, each cut to `row_width` bytes, back to back.
    pub open spec fn packed(&self, row_width: int, rows: int) -> Seq<u8>
        decreases rows,
    {
        if rows <= 0 {
            Seq::<u8>::empty()
        } else {
            self.packed(row_width, rows - 1) + self.row(rows - 1, row_width)
        }
    }

    /// Whether the plane is large enough for `rows` rows of `row_width`
    /// bytes.
    pub fn has_rows(&self, row_width: usize, rows: usize) -> (enough: bool)
        ensures
            enough == self.holds(row_width as int, rows as int),
    {
        if rows == 0 {
            return true;
        }
        let len: usize = self.data.len();
        if row_width > len {
            proof {
                assert(0 <= (rows - 1) * self.stride as int) by (nonlinear_arith)
                    requires
                        rows >= 1,
                        self.stride >= 0,
                ;
            }
            return false;
        }
        match (rows - 1).checked_mul(self.stride) {
            Some(last_start) => last_start <= len - row_width,
            None => false,
        }
    }
}

/// Row `r` of a tightly packed plane: `row_width` bytes from `r * row_width`.
pub open spec fn packed_row(payload: Seq<u8>, r: int, row_width: int) -> Seq<u8> {
    payload.subrange(r * row_width, r * row_width + row_width)
}

/// Packing keeps every row and drops the padding between rows: the packed
/// plane has `rows * row_width` bytes, and its row `r` is the source's row
/// `r` cut to `row_width` bytes.
pub proof fn lemma_packed_rows(plane: Plane, row_width: int, rows: int)
    requires
        0 <= row_width,
        0 <= rows,
        plane.holds(row_width, rows),
    ensures
        plane.packed(row_width, rows).len() == rows * row_width,
        forall|r: int|
            0 <= r < rows ==> packed_row(plane.packed(row_width, rows), r, row_width)
                == #[trigger] plane.row(r, row_width),
    decreases rows,
{
    let stride = plane.stride as int;
    if rows > 0 {
        assert((rows - 2) * stride <= (rows - 1) * stride) by (nonlinear_arith)
            requires
                stride >= 0,
        ;
        lemma_packed_rows(plane, row_width, rows - 1);
        let before = plane.packed(row_width, rows - 1);
        let last = plane.row(rows - 1, row_width);
        let all = plane.packed(row_width, rows);
        assert(all == before + last);
        assert((rows - 1) * row_width + row_width == rows * row_width) by (nonlinear_arith);
        assert(0 <= (rows - 1) * stride) by (nonlinear_arith)
            requires
                rows >= 1,
                stride >= 0,
        ;
        assert(last.len() == row_width);
        assert(all.len() == rows * row_width);
        assert forall|r: int| 0 <= r < rows implies packed_row(all, r, row_width)
            == #[trigger] plane.row(r, row_width) by {
            assert(0 <= r * row_width && r * row_width + row_width <= (rows - 1) * row_width
                + row_width) by (nonlinear_arith)
                requires
                    0 <= r <= rows - 1,
                    0 <= row_width,
            ;
            if r < rows - 1 {
                assert(r * row_width + row_width <= (rows - 1) * row_width) by (nonlinear_arith)
                    requires
                        0 <= r < rows - 1,
                        0 <= row_width,
                ;
                assert(packed_row(all, r, row_width) =~= packed_row(before, r, row_width));
            } else {
                assert(packed_row(all, r, row_width) =~= last);
            }
        }
    } else {
        assert(rows * row_width == 0) by (nonlinear_arith)
            requires
                rows == 0,
        ;
    }
}

/// Appends the first `rows` rows of `plane`, each cut to `row_width` bytes.
fn append_rows(out: &mut Vec<u8>, plane: &Plane, row_width: usize, rows: usize)
    requires
        plane.holds(row_width as int, rows as int),
    ensures
        final(out)@ == old(out)@ + plane.packed(row_width as int, rows as int),
{
    let len: usize = plane.data.len();
    let mut r: usize = 0;
    while r < rows
        invariant
            0 <= r <= rows,
            len == plane.data@.len(),
            plane.holds(row_width as int, rows as int),
            out@ == old(out)@ + plane.packed(row_width as int, r as int),
        decreases rows - r,
    {
        proof {
            assert(r * plane.stride <= (rows - 1) * plane.stride) by (nonlinear_arith)
                requires
                    0 <= r <= rows - 1,
                    plane.stride >= 0,
            ;
            assert(0 <= r * plane.stride) by (nonlinear_arith)
                requires
                    0 <= r,
                    plane.stride >= 0,
            ;
        }
        let start: usize = r * plane.stride;
        let row = slice_subrange(plane.data, start, start + row_width);
        let ghost before = out@;
        out.extend_from_slice(row);
        proof {
            assert(row@ == plane.row(r as int, row_width as int));
            assert(out@ =~= before + row@);
            assert(plane.packed(row_width as int, r as int + 1) == plane.packed(
                row_width as int,
                r as int,
            ) + plane.row(r as int, row_width as int));
            assert(out@ =~= old(out)@ + plane.packed(row_width as int, r as int + 1));
        }
        r = r + 1;
    }
}

/// The payload, in the packed layout, of a frame whose planes the codec hands
/// out with strides.
pub open spec fn packed_planes(width: int, height: int, y: Plane, u: Plane, v: Plane) -> Seq<u8> {
    y.packed(width, height) + u.packed(width / 2, height / 2) + v.packed(width / 2, height / 2)
}

/// The three planes are large enough for a `width` by `height` frame, and the
/// width fits the type of a stride.
pub open spec fn planes_fit(width: int, height: int, y: Plane, u: Plane, v: Plane) -> bool {
    &&& width <= i32::MAX
    &&& y.holds(width, height)
    &&& u.holds(width / 2, height / 2)
    &&& v.holds(width / 2, height / 2)
}

/// The frame that packing yields: none where the planes do not fit.
pub open spec fn packed_frame(
    width: u32,
    height: u32,
    pts: Option<i64>,
    y: Plane,
    u: Plane,
    v: Plane,
) -> Option<FrameView> {
    if planes_fit(width as int, height as int, y, u, v) {
        Some(
            FrameView {
                width,
                height,
                pts,
                data: packed_planes(width as int, height as int, y, u, v),
                linesize: seq![width as i32, (width / 2) as i32, (width / 2) as i32],
            },
        )
    } else {
        None
    }
}

/// Copies the planes of one picture, row by row, into a tightly packed frame.
///
/// Returns `None` exactly when a plane is too small for the dimensions or the
/// width does not fit a stride.
pub fn pack_planes(
    width: u32,
    height: u32,
    pts: Option<i64>,
    y: &Plane,
    u: &Plane,
    v: &Plane,
) -> (packed: Option<DecodedFrame>)
    ensures
        packed is Some <==> planes_fit(width as int, height as int, *y, *u, *v),
        match packed {
            Some(frame) => frame.wf() && packed_frame(width, height, pts, *y, *u, *v) == Some(
                frame@,
            ),
            None => packed_frame(width, height, pts, *y, *u, *v) is None,
        },
{
    let chroma_width: u32 = width / 2;
    let chroma_height: u32 = height / 2;
    if width > 0x7fff_ffff || !y.has_rows(width as usize, height as usize) || !u.has_rows(
        chroma_width as usize,
        chroma_height as usize,
    ) || !v.has_rows(chroma_width as usize, chroma_height as usize) {
        return None;
    }
    let mut data: Vec<u8> = Vec::new();
    append_rows(&mut data, y, width as usize, height as usize);
    append_rows(&mut data, u, chroma_width as usize, chroma_height as usize);
    append_rows(&mut data, v, chroma_width as usize, chroma_height as usize);
    proof {
        lemma_packed_rows(*y, width as int, height as int);
        lemma_packed_rows(*u, width as int / 2, height as int / 2);
        lemma_packed_rows(*v, width as int / 2, height as int / 2);
        assert(height as int * width as int == width as int * height as int) by (nonlinear_arith);
        assert((height as int / 2) * (width as int / 2) == (width as int / 2) * (height as int
            / 2)) by (nonlinear_arith);
        assert(data@ =~= packed_planes(width as int, height as int, *y, *u, *v));
    }
    let frame = DecodedFrame {
        width,
        height,
        pts,
        data,
        linesize: [width as i32, chroma_width as i32, chroma_width as i32],
    };
    proof {
        assert(frame@.linesize =~= seq![width as i32, (width / 2) as i32, (width / 2) as i32]);
    }
    Some(frame)
}

} // verus!
