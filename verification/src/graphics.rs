//! Display-mode negotiation.
//!
//! The firmware enumerates display modes as plain `(width, height, raw
//! pixel format)` triples. This module picks a mode under a resolution
//! cap, locates the chosen mode in the enumeration, and normalizes the
//! active mode into a portable frame-buffer descriptor.

use vstd::prelude::*;

verus! {

/// Raw firmware code for a red-green-blue, 8 bits per color layout.
pub const RAW_FORMAT_RGB: u32 = 0;
/// Raw firmware code for a blue-green-red, 8 bits per color layout.
pub const RAW_FORMAT_BGR: u32 = 1;

/// Minimum standard resolution: caps below it are replaced by a default.
pub const MIN_STANDARD_WIDTH: usize = 640;
/// See `MIN_STANDARD_WIDTH`.
pub const MIN_STANDARD_HEIGHT: usize = 480;
/// Default resolution ceiling substituted for a sub-standard cap.
pub const DEFAULT_CAP_WIDTH: usize = 1920;
/// See `DEFAULT_CAP_WIDTH`.
pub const DEFAULT_CAP_HEIGHT: usize = 1080;

/// Portable pixel format of the negotiated frame buffer.
#[derive(Clone, Copy, Debug, PartialEq, Eq, Structural)]
pub enum PixelFormat {
    Rgb,
    Bgr,
}

/// One display mode as the firmware enumerates it.
#[derive(Clone, Copy, Debug, PartialEq, Eq, Structural)]
pub struct GraphicsMode {
    pub width: usize,
    pub height: usize,
    pub raw_format: u32,
}

/// Immutable snapshot of the active display mode; ownership passes to
/// the kernel at handoff.
#[derive(Clone, Copy, Debug, PartialEq, Eq, Structural)]
pub struct FrameBufferConfig {
    pub base_address: u64,
    pub stride_pixels: usize,
    pub width: usize,
    pub height: usize,
    pub pixel_format: PixelFormat,
}

/// Error of the graphics negotiation.
#[derive(Clone, Copy, Debug, PartialEq, Eq, Structural)]
pub enum GraphicsError {
    /// The active mode reports a pixel format outside the portable pair.
    UnsupportedFormat,
}

/// Only these two raw formats can be normalized; a mode with any other
/// format is discarded.
pub open spec fn format_supported(raw: u32) -> bool {
    raw == RAW_FORMAT_RGB || raw == RAW_FORMAT_BGR
}

/// The normalized form of a supported raw format.
pub open spec fn normalize_format_spec(raw: u32) -> PixelFormat
    recommends
        format_supported(raw),
{
    if raw == RAW_FORMAT_RGB {
        PixelFormat::Rgb
    } else {
        PixelFormat::Bgr
    }
}

/// The cap actually searched under: a cap below the minimum standard
/// resolution is replaced by the default ceiling.
pub open spec fn effective_cap_spec(cap: (usize, usize)) -> (usize, usize) {
    if cap.0 < MIN_STANDARD_WIDTH || cap.1 < MIN_STANDARD_HEIGHT {
        (DEFAULT_CAP_WIDTH, DEFAULT_CAP_HEIGHT)
    } else {
        cap
    }
}

/// One step of the search: a landscape mode strictly larger than the best
/// so far in both dimensions replaces it.
pub open spec fn better_candidate(m: GraphicsMode, best: (usize, usize)) -> bool {
    m.width > m.height && best.0 < m.width && best.1 < m.height
}

/// The search over the remaining modes, carrying the best candidate so
/// far: modes with an unsupported format are skipped; a supported mode
/// that improves on the best replaces it; the search stops early at the
/// first supported mode meeting or exceeding the cap in both dimensions.
pub open spec fn search_from_spec(
    modes: Seq<GraphicsMode>,
    cap: (usize, usize),
    best: (usize, usize),
) -> (usize, usize)
    decreases modes.len(),
{
    if modes.len() == 0 {
        best
    } else {
        let m = modes.first();
        if !format_supported(m.raw_format) {
            search_from_spec(modes.drop_first(), cap, best)
        } else {
            let next = if better_candidate(m, best) {
                (m.width, m.height)
            } else {
                best
            };
            if cap.0 <= m.width && cap.1 <= m.height {
                next
            } else {
                search_from_spec(modes.drop_first(), cap, next)
            }
        }
    }
}

/// What `search` returns: the search from the zero resolution under the
/// effective cap. The zero resolution comes back when no mode qualifies.
pub open spec fn search_spec(modes: Seq<GraphicsMode>, cap: (usize, usize)) -> (usize, usize) {
    search_from_spec(modes, effective_cap_spec(cap), (0, 0))
}

/// Pick a resolution among the available modes under the cap.
pub fn search(modes: &Vec<GraphicsMode>, cap: (usize, usize)) -> (r: (usize, usize))
    ensures
        r == search_spec(modes@, cap),
{
    let (cap_w, cap_h) = cap;
    let (lim_w, lim_h) = if cap_w < MIN_STANDARD_WIDTH || cap_h < MIN_STANDARD_HEIGHT {
        (DEFAULT_CAP_WIDTH, DEFAULT_CAP_HEIGHT)
    } else {
        (cap_w, cap_h)
    };
    let ghost ecap = effective_cap_spec(cap);
    let n = modes.len();
    let mut best_w: usize = 0;
    let mut best_h: usize = 0;
    let mut i: usize = 0;
    proof {
        assert(modes@.subrange(0, n as int) =~= modes@);
    }
    loop
        invariant_except_break
            i <= n,
            n == modes@.len(),
            (lim_w, lim_h) == ecap,
            search_from_spec(modes@, ecap, (0, 0)) == search_from_spec(
                modes@.subrange(i as int, n as int),
                ecap,
                (best_w, best_h),
            ),
        ensures
            (best_w, best_h) == search_from_spec(modes@, ecap, (0, 0)),
        decreases n - i,
    {
        if i >= n {
            proof {
                assert(modes@.subrange(i as int, n as int) =~= Seq::<GraphicsMode>::empty());
            }
            break;
        }
        let ghost rest = modes@.subrange(i as int, n as int);
        proof {
            assert(rest.first() == modes@[i as int]);
            assert(rest.drop_first() =~= modes@.subrange(i + 1, n as int));
        }
        let m = modes[i];
        if m.raw_format == RAW_FORMAT_RGB || m.raw_format == RAW_FORMAT_BGR {
            if m.width > m.height && best_w < m.width && best_h < m.height {
                best_w = m.width;
                best_h = m.height;
            }
            if lim_w <= m.width && lim_h <= m.height {
                break;
            }
        }
        i = i + 1;
    }
    (best_w, best_h)
}

/// A cap below the minimum standard resolution searches exactly as the
/// default ceiling does, over every mode list.
pub proof fn lemma_search_substandard_cap(modes: Seq<GraphicsMode>, cap: (usize, usize))
    requires
        cap.0 < MIN_STANDARD_WIDTH || cap.1 < MIN_STANDARD_HEIGHT,
    ensures
        search_spec(modes, cap) == search_spec(modes, (DEFAULT_CAP_WIDTH, DEFAULT_CAP_HEIGHT)),
{
    assert(effective_cap_spec(cap) == (DEFAULT_CAP_WIDTH, DEFAULT_CAP_HEIGHT));
    assert(effective_cap_spec((DEFAULT_CAP_WIDTH, DEFAULT_CAP_HEIGHT)) == (
        DEFAULT_CAP_WIDTH,
        DEFAULT_CAP_HEIGHT,
    ));
}

/// The search from any starting candidate either keeps that candidate
/// or lands on the resolution of some listed landscape mode with a
/// supported format.
proof fn lemma_search_from_result(
    modes: Seq<GraphicsMode>,
    cap: (usize, usize),
    best: (usize, usize),
)
    ensures
        search_from_spec(modes, cap, best) == best || exists|i: int|
            0 <= i < modes.len() && format_supported(#[trigger] modes[i].raw_format)
                && modes[i].width > modes[i].height && search_from_spec(modes, cap, best) == (
            modes[i].width,
            modes[i].height,
        ),
    decreases modes.len(),
{
    if modes.len() > 0 {
        let m = modes.first();
        let rest = modes.drop_first();
        let result = search_from_spec(modes, cap, best);
        if !format_supported(m.raw_format) {
            lemma_search_from_result(rest, cap, best);
            if result != best {
                let j = choose|j: int|
                    0 <= j < rest.len() && format_supported(#[trigger] rest[j].raw_format)
                        && rest[j].width > rest[j].height && search_from_spec(rest, cap, best) == (
                        rest[j].width,
                        rest[j].height,
                    );
                assert(modes[j + 1] == rest[j]);
            }
        } else {
            let next = if better_candidate(m, best) {
                (m.width, m.height)
            } else {
                best
            };
            if cap.0 <= m.width && cap.1 <= m.height {
                if result != best {
                    assert(better_candidate(m, best));
                    assert(modes[0] == m);
                }
            } else {
                lemma_search_from_result(rest, cap, next);
                if result == next {
                    if result != best {
                        assert(better_candidate(m, best));
                        assert(modes[0] == m);
                    }
                } else {
                    let j = choose|j: int|
                        0 <= j < rest.len() && format_supported(#[trigger] rest[j].raw_format)
                            && rest[j].width > rest[j].height && search_from_spec(rest, cap, next)
                            == (rest[j].width, rest[j].height);
                    assert(modes[j + 1] == rest[j]);
                }
            }
        }
    }
}

/// The search never invents a resolution: it returns the zero
/// resolution, or the resolution of an available landscape mode with a
/// supported pixel format.
pub proof fn lemma_search_result_available(modes: Seq<GraphicsMode>, cap: (usize, usize))
    ensures
        search_spec(modes, cap) == (0usize, 0usize) || exists|i: int|
            0 <= i < modes.len() && format_supported(#[trigger] modes[i].raw_format)
                && modes[i].width > modes[i].height && search_spec(modes, cap) == (
            modes[i].width,
            modes[i].height,
        ),
{
    lemma_search_from_result(modes, effective_cap_spec(cap), (0, 0));
}

/// A mode offers exactly the given resolution.
pub open spec fn mode_matches(m: GraphicsMode, resolution: (usize, usize)) -> bool {
    m.width == resolution.0 && m.height == resolution.1
}

/// Locate the first mode with the given resolution, to commit it to the
/// device; `None` when no enumerated mode offers that resolution.
pub fn find_mode(modes: &Vec<GraphicsMode>, resolution: (usize, usize)) -> (r: Option<usize>)
    ensures
        match r {
            Some(i) => i < modes@.len() && mode_matches(modes@[i as int], resolution)
                && forall|j: int| 0 <= j < i ==> !mode_matches(modes@[j], resolution),
            None => forall|j: int| 0 <= j < modes@.len() ==> !mode_matches(modes@[j], resolution),
        },
{
    let n = modes.len();
    let mut i: usize = 0;
    while i < n
        invariant
            i <= n,
            n == modes@.len(),
            forall|j: int| 0 <= j < i ==> !mode_matches(modes@[j], resolution),
        decreases n - i,
    {
        let m = modes[i];
        if m.width == resolution.0 && m.height == resolution.1 {
            return Some(i);
        }
        i = i + 1;
    }
    None
}

/// Negotiate a mode: search under the cap, then locate the first mode
/// offering the chosen resolution, to commit it to the device. `None`
/// exactly when the search comes back with the zero resolution, which
/// no enumerated mode offers — the caller treats that as fatal.
pub fn select_mode(modes: &Vec<GraphicsMode>, cap: (usize, usize)) -> (r: Option<usize>)
    ensures
        match r {
            Some(i) => i < modes@.len() && mode_matches(modes@[i as int], search_spec(modes@, cap))
                && forall|j: int| 0 <= j < i ==> !mode_matches(modes@[j], search_spec(modes@, cap)),
            None => forall|j: int|
                0 <= j < modes@.len() ==> !mode_matches(modes@[j], search_spec(modes@, cap)),
        },
{
    let resolution = search(modes, cap);
    find_mode(modes, resolution)
}

/// Normalize the active mode, as read back from the device, into a
/// portable frame-buffer descriptor. Fails exactly when the reported raw
/// pixel format is outside the portable pair.
pub fn describe(
    base_address: u64,
    stride_pixels: usize,
    width: usize,
    height: usize,
    raw_format: u32,
) -> (r: Result<FrameBufferConfig, GraphicsError>)
    ensures
        r is Ok <==> format_supported(raw_format),
        r matches Ok(c) ==> c == (FrameBufferConfig {
            base_address,
            stride_pixels,
            width,
            height,
            pixel_format: normalize_format_spec(raw_format),
        }),
        r is Err ==> r == Result::<FrameBufferConfig, GraphicsError>::Err(
            GraphicsError::UnsupportedFormat,
        ),
{
    let pixel_format = if raw_format == RAW_FORMAT_RGB {
        PixelFormat::Rgb
    } else if raw_format == RAW_FORMAT_BGR {
        PixelFormat::Bgr
    } else {
        return Err(GraphicsError::UnsupportedFormat);
    };
    Ok(FrameBufferConfig { base_address, stride_pixels, width, height, pixel_format })
}

} // verus!
