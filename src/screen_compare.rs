//! Comparison of a captured screen region against a reference image, pixel by
//! pixel, for exact equality of all four RGBA channels.
use vstd::prelude::*;

verus! {

/// An image as 8-bit RGBA: four bytes per pixel, rows from the top, pixels
/// from the left.
#[derive(Clone, Debug)]
pub struct Frame {
    pub width: u32,
    pub height: u32,
    pub rgba: Vec<u8>,
}

impl Frame {
    pub open spec fn wf(&self) -> bool {
        self.rgba@.len() == 4 * (self.width as int) * (self.height as int)
    }
}

/// How many of the `total` pixels of a region matched.
#[derive(Clone, Copy, Debug, PartialEq, Eq)]
pub struct MatchCount {
    pub matching: u64,
    pub total: u64,
}

/// Pixel `p` is the same, channel for channel, in `a` and `b`.
pub open spec fn pixel_equal(a: Seq<u8>, b: Seq<u8>, p: int) -> bool {
    a.subrange(4 * p, 4 * p + 4) == b.subrange(4 * p, 4 * p + 4)
}

/// How many of the first `n` pixels are the same in `a` and `b`.
pub open spec fn count_equal_pixels(a: Seq<u8>, b: Seq<u8>, n: nat) -> nat
    decreases n,
{
    if n == 0 {
        0
    } else {
        count_equal_pixels(a, b, (n - 1) as nat) + if pixel_equal(a, b, n - 1) {
            1nat
        } else {
            0nat
        }
    }
}

/// The matching pixels of a `width` by `height` region against a reference
/// image: none where the reference has other dimensions, else those equal in
/// both at the same place.
pub open spec fn matching_pixels(
    reference_width: u32,
    reference_height: u32,
    reference: Seq<u8>,
    captured: Seq<u8>,
    width: u32,
    height: u32,
) -> nat {
    if reference_width != width || reference_height != height {
        0
    } else {
        count_equal_pixels(reference, captured, (width * height) as nat)
    }
}

pub proof fn lemma_count_bounded(a: Seq<u8>, b: Seq<u8>, n: nat)
    ensures
        count_equal_pixels(a, b, n) <= n,
        count_equal_pixels(a, b, n) == n <==> forall|p: int| 0 <= p < n ==> pixel_equal(a, b, p),
    decreases n,
{
    if n > 0 {
        lemma_count_bounded(a, b, (n - 1) as nat);
    }
}

/// Counts the pixels of the `width` by `height` region that `captured` holds
/// which equal the reference image's pixel at the same place.  A reference of
/// other dimensions matches nowhere, whatever its pixels.
pub fn compare_frames(reference: &Frame, captured: &Frame, width: u32, height: u32) -> (r:
    MatchCount)
    requires
        reference.wf(),
        captured.wf(),
        captured.width == width,
        captured.height == height,
    ensures
        r.total == width * height,
        r.matching == matching_pixels(
            reference.width,
            reference.height,
            reference.rgba@,
            captured.rgba@,
            width,
            height,
        ),
        r.matching <= r.total,
        reference.width != width || reference.height != height ==> r.matching == 0,
        reference.width == width && reference.height == height ==> (r.matching == r.total
            <==> forall|p: int| 0 <= p < r.total ==> pixel_equal(reference.rgba@, captured.rgba@, p)),
{
    assert((width as u64) * (height as u64) <= u64::MAX) by (nonlinear_arith)
        requires
            width <= u32::MAX,
            height <= u32::MAX,
    ;
    let total: u64 = width as u64 * height as u64;
    if reference.width != width || reference.height != height {
        return MatchCount { matching: 0, total };
    }
    assert(4 * (width as int) * (height as int) == 4 * ((width as int) * (height as int)))
        by (nonlinear_arith);
    let len = captured.rgba.len();
    let n = len / 4;
    assert(n == total);
    let ghost a = reference.rgba@;
    let ghost b = captured.rgba@;
    let mut matching: u64 = 0;
    let mut p: usize = 0;
    while p < n
        invariant
            a == reference.rgba@,
            b == captured.rgba@,
            a.len() == b.len() == len,
            len == 4 * n,
            n == total,
            p <= n,
            matching == count_equal_pixels(a, b, p as nat),
            matching <= p,
        decreases n - p,
    {
        let i = 4 * p;
        let same = reference.rgba[i] == captured.rgba[i] && reference.rgba[i + 1]
            == captured.rgba[i + 1] && reference.rgba[i + 2] == captured.rgba[i + 2]
            && reference.rgba[i + 3] == captured.rgba[i + 3];
        proof {
            if same {
                assert(a.subrange(4 * p, 4 * p + 4) =~= b.subrange(4 * p, 4 * p + 4));
            } else {
                if pixel_equal(a, b, p as int) {
                    assert(a.subrange(4 * p, 4 * p + 4)[0] == a[i as int]);
                    assert(a.subrange(4 * p, 4 * p + 4)[1] == a[i + 1]);
                    assert(a.subrange(4 * p, 4 * p + 4)[2] == a[i + 2]);
                    assert(a.subrange(4 * p, 4 * p + 4)[3] == a[i + 3]);
                    assert(b.subrange(4 * p, 4 * p + 4)[0] == b[i as int]);
                    assert(b.subrange(4 * p, 4 * p + 4)[1] == b[i + 1]);
                    assert(b.subrange(4 * p, 4 * p + 4)[2] == b[i + 2]);
                    assert(b.subrange(4 * p, 4 * p + 4)[3] == b[i + 3]);
                }
            }
        }
        if same {
            matching += 1;
        }
        p += 1;
    }
    proof {
        lemma_count_bounded(a, b, total as nat);
    }
    MatchCount { matching, total }
}


/// What decoding the encoded image `bytes` gives: width, height and RGBA
/// bytes, or `None` where the bytes are no image of a known format.
pub uninterp spec fn decoded_rgba(bytes: Seq<u8>) -> Option<(u32, u32, Seq<u8>)>;

/// Relies on `image::load_from_memory`, which guesses the format from the
/// bytes and decodes them, and on `DynamicImage::to_rgba8`, whose buffer holds
/// four bytes per pixel, row by row (it is made by `ImageBuffer::new`).
#[verifier::external_body]
fn decode_rgba(bytes: &Vec<u8>) -> (r: Option<Frame>)
    ensures
        match r {
            Some(f) => decoded_rgba(bytes@) == Some((f.width, f.height, f.rgba@)) && f.wf(),
            None => decoded_rgba(bytes@) is None,
        },
{
    match image::load_from_memory(bytes) {
        Ok(image) => {
            let rgba = image.to_rgba8();
            Some(Frame { width: rgba.width(), height: rgba.height(), rgba: rgba.into_raw() })
        },
        Err(_) => None,
    }
}

/// Why a screenshot could not be compared.
#[derive(Clone, Copy, Debug, PartialEq, Eq)]
pub enum CompareError {
    UnreadableReference,
    UnreadableCapture,
    CaptureSizeMismatch,
}

/// Decodes the reference image and the screenshot of a `width` by `height`
/// region, both encoded (PNG and the like), and counts the pixels that match.
pub fn compare_screenshot(reference_image: &Vec<u8>, screenshot: &Vec<u8>, width: u32, height: u32) -> (r:
    Result<MatchCount, CompareError>)
    ensures
        match (decoded_rgba(reference_image@), decoded_rgba(screenshot@)) {
            (None, _) => r == Err::<MatchCount, CompareError>(CompareError::UnreadableReference),
            (Some(_), None) => r == Err::<MatchCount, CompareError>(CompareError::UnreadableCapture),
            (Some((rw, rh, rp)), Some((cw, ch, cp))) => if cw != width || ch != height {
                r == Err::<MatchCount, CompareError>(CompareError::CaptureSizeMismatch)
            } else {
                r == Ok::<MatchCount, CompareError>(
                    MatchCount {
                        matching: matching_pixels(rw, rh, rp, cp, width, height) as u64,
                        total: (width * height) as u64,
                    },
                )
            },
        },
{
    let reference = match decode_rgba(reference_image) {
        Some(f) => f,
        None => {
            return Err(CompareError::UnreadableReference);
        },
    };
    let captured = match decode_rgba(screenshot) {
        Some(f) => f,
        None => {
            return Err(CompareError::UnreadableCapture);
        },
    };
    if captured.width != width || captured.height != height {
        return Err(CompareError::CaptureSizeMismatch);
    }
    Ok(compare_frames(&reference, &captured, width, height))
}

} // verus!
