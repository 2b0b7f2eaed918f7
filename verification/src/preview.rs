//! Settings-screen preview pipeline: frame-rate limiting, draining pending
//! threshold updates, pixel-format conversion and base64 encoding of the
//! annotated frame.

use vstd::prelude::*;

use crate::types::DetectorParams;

verus! {

/// Minimum interval between two emitted preview frames, in milliseconds.
pub const PREVIEW_INTERVAL_MS: i64 = 30;

/// Whether the preview processes this frame: the very first frame always,
/// later ones only when the last emitted frame is at least 30 ms old.
pub fn preview_due(frame_index: u64, prev_frame_ms: i64, now_ms: i64) -> (r: bool)
    ensures
        r == (frame_index == 0 || now_ms - prev_frame_ms >= PREVIEW_INTERVAL_MS),
{
    frame_index == 0 || (now_ms as i128) - (prev_frame_ms as i128) >= PREVIEW_INTERVAL_MS as i128
}

/// Drains all pending threshold updates and applies the newest: the
/// detector is rebuilt once with the last pair received, and every pending
/// message is consumed. Returns the parameters to use and whether the
/// detector must be rebuilt.
pub fn apply_threshold_updates(current: &DetectorParams, pending: &Vec<(u32, u32)>) -> (r: (
    DetectorParams,
    bool,
))
    ensures
        pending@.len() == 0 ==> r == (*current, false),
        pending@.len() > 0 ==> r == (
            DetectorParams {
                min_threshold: pending@.last().0,
                max_threshold: pending@.last().1,
                ..*current
            },
            true,
        ),
{
    if pending.len() == 0 {
        (*current, false)
    } else {
        let last: (u32, u32) = pending[pending.len() - 1];
        (
            DetectorParams { min_threshold: last.0, max_threshold: last.1, ..*current },
            true,
        )
    }
}

/// The RGBA expansion of a packed RGB buffer: every pixel keeps its three
/// channels and gains an opaque alpha byte.
pub open spec fn rgba_of(rgb: Seq<u8>) -> Seq<u8> {
    Seq::new(
        rgb.len() / 3 * 4,
        |i: int|
            if i % 4 == 3 {
                255u8
            } else {
                rgb[i / 4 * 3 + i % 4]
            },
    )
}

/// Converts a packed RGB buffer to RGBA with opaque alpha.
pub fn rgb_to_rgba(rgb: &[u8]) -> (r: Vec<u8>)
    requires
        rgb@.len() % 3 == 0,
        rgb@.len() <= 0x1000_0000,
    ensures
        r@ == rgba_of(rgb@),
{
    let n: usize = rgb.len();
    let mut out: Vec<u8> = Vec::new();
    let mut i: usize = 0;
    while i < n
        invariant
            n == rgb@.len() <= 0x1000_0000,
            n % 3 == 0,
            i % 3 == 0,
            0 <= i <= n,
            out@.len() == i / 3 * 4,
            forall|k: int| 0 <= k < out@.len() ==> out@[k] == rgba_of(rgb@)[k],
        decreases n - i,
    {
        out.push(rgb[i]);
        out.push(rgb[i + 1]);
        out.push(rgb[i + 2]);
        out.push(255u8);
        proof {
            let j = i as int;
            assert(out@.len() == j / 3 * 4 + 4);
            assert((j + 3) / 3 * 4 == j / 3 * 4 + 4);
            assert forall|k: int| 0 <= k < out@.len() implies out@[k] == rgba_of(rgb@)[k] by {
                if k < j / 3 * 4 {
                } else {
                    assert(k / 4 == j / 3);
                    assert(k % 4 == k - j / 3 * 4);
                }
            }
        }
        i = i + 3;
    }
    proof {
        assert(out@ =~= rgba_of(rgb@));
    }
    out
}

/// The base64 text of a byte sequence, as the base64 crate's standard
/// alphabet with padding produces it.
pub uninterp spec fn base64_of(bytes: Seq<u8>) -> Seq<char>;

/// Relies on base64::encode: standard alphabet with padding, four output
/// characters for every three input bytes; the result depends on the bytes
/// alone. The length bound keeps the encoder's internal size computation
/// from overflowing.
#[verifier::external_body]
fn base64_encode(bytes: &[u8]) -> (r: String)
    requires
        bytes@.len() <= 0x1000_0000_0000,
    ensures
        r@ == base64_of(bytes@),
        r@.len() == 4 * ((bytes@.len() + 2) / 3),
{
    base64::encode(bytes)
}

/// Encodes an annotated preview frame for the UI: the packed RGB pixels are
/// expanded to RGBA with opaque alpha, and the RGBA buffer is base64
/// encoded as the `grab_camera_frame` payload.
pub fn encode_preview_frame(rgb: &[u8]) -> (r: String)
    requires
        rgb@.len() % 3 == 0,
        rgb@.len() <= 0x1000_0000,
    ensures
        r@ == base64_of(rgba_of(rgb@)),
        r@.len() == 4 * ((rgb@.len() / 3 * 4 + 2) / 3),
{
    let rgba: Vec<u8> = rgb_to_rgba(rgb);
    base64_encode(rgba.as_slice())
}

} // verus!
