//! Camera-source decisions taken on the device label: requested frame rate
//! and whether the label names a file rather than a device.

use vstd::prelude::*;

verus! {

/// Frame rate requested from a camera whose label marks it as a
/// high-framerate USB device.
pub const HIGH_FPS: u32 = 120;

/// Frame rate requested from any other camera.
pub const LOW_FPS: u32 = 30;

/// `needle` occurs as a contiguous subsequence of `hay`.
pub open spec fn contains_seq(hay: Seq<u8>, needle: Seq<u8>) -> bool {
    exists|i: int|
        0 <= i && i + needle.len() <= hay.len() && #[trigger] hay.subrange(
            i,
            i + needle.len() as int,
        ) == needle
}

/// Whether `needle` occurs as a contiguous subsequence of `hay`.
pub fn contains_sub(hay: &[u8], needle: &[u8]) -> (r: bool)
    ensures
        r == contains_seq(hay@, needle@),
{
    let n: usize = hay.len();
    let m: usize = needle.len();
    if m > n {
        proof {
            assert forall|i: int| !(0 <= i && i + needle@.len() <= hay@.len() && #[trigger] hay@
                .subrange(i, i + needle@.len() as int) == needle@) by {}
        }
        return false;
    }
    let mut i: usize = 0;
    while i <= n - m
        invariant
            m <= n == hay@.len(),
            m == needle@.len(),
            0 <= i <= n - m + 1,
            forall|k: int|
                0 <= k < i ==> #[trigger] hay@.subrange(k, k + needle@.len() as int) != needle@,
        decreases n - m + 1 - i,
    {
        let mut j: usize = 0;
        let mut all_eq: bool = true;
        while j < m
            invariant
                m <= n == hay@.len(),
                m == needle@.len(),
                0 <= i <= n - m,
                0 <= j <= m,
                all_eq == (forall|k: int| 0 <= k < j ==> hay@[i + k] == needle@[k]),
            decreases m - j,
        {
            if hay[i + j] != needle[j] {
                all_eq = false;
                proof {
                    assert(!(hay@[i + j] == needle@[j as int]));
                }
            }
            if !all_eq {
                j = m;
            } else {
                j = j + 1;
            }
        }
        if all_eq {
            proof {
                assert(hay@.subrange(i as int, i + needle@.len() as int) =~= needle@);
            }
            return true;
        }
        proof {
            if hay@.subrange(i as int, i + needle@.len() as int) == needle@ {
                assert(forall|k: int|
                    0 <= k < m ==> #[trigger] hay@.subrange(i as int, i + needle@.len() as int)[k]
                        == hay@[i + k]);
                assert(exists|k: int| 0 <= k < m && hay@[i + k] != needle@[k]);
            }
        }
        i = i + 1;
    }
    proof {
        assert forall|k: int| 0 <= k && k + needle@.len() <= hay@.len() implies #[trigger] hay@
            .subrange(k, k + needle@.len() as int) != needle@ by {
            assert(k < i);
        }
    }
    false
}

/// The bytes of the "USB" marker that singles out high-framerate cameras.
pub open spec fn usb_marker() -> Seq<u8> {
    seq![0x55u8, 0x53u8, 0x42u8]
}

/// The frame rate requested when opening a camera: 120 FPS when the label
/// contains "USB", 30 FPS otherwise.
pub fn framerate_for_label(label: &[u8]) -> (r: u32)
    ensures
        r == if contains_seq(label@, usb_marker()) {
            HIGH_FPS
        } else {
            LOW_FPS
        },
{
    let marker: [u8; 3] = [0x55, 0x53, 0x42];
    proof {
        assert(marker@ =~= usb_marker());
    }
    if contains_sub(label, marker.as_slice()) {
        HIGH_FPS
    } else {
        LOW_FPS
    }
}

/// The host platform, as far as the capture-format choice cares.
#[derive(Clone, Copy, Debug, PartialEq, Eq, Structural)]
pub enum HostOs {
    MacOs,
    Windows,
    Other,
}

/// How a video source is opened: as a file whose container is
/// auto-detected, or through a named OS capture format.
#[derive(Clone, Copy, Debug, PartialEq, Eq)]
pub enum CaptureSource {
    AutoDetect,
    Format(&'static str),
}

/// The way to open the video source named by the label: a label with a
/// path separator is a file container to auto-detect; otherwise the
/// platform capture format, with no supported format on other platforms.
pub fn capture_source(os: HostOs, label: &[u8]) -> (r: Option<CaptureSource>)
    ensures
        r == if is_file_label(label@) {
            Some(CaptureSource::AutoDetect)
        } else {
            match os {
                HostOs::MacOs => Some(CaptureSource::Format("avfoundation")),
                HostOs::Windows => Some(CaptureSource::Format("dshow")),
                HostOs::Other => None::<CaptureSource>,
            }
        },
{
    if label_is_file(label) {
        Some(CaptureSource::AutoDetect)
    } else {
        match os {
            HostOs::MacOs => Some(CaptureSource::Format("avfoundation")),
            HostOs::Windows => Some(CaptureSource::Format("dshow")),
            HostOs::Other => None,
        }
    }
}

/// The label names a file when it contains a path separator (forward or
/// backward slash); the source is then opened as an auto-detected container
/// instead of an OS capture device.
pub open spec fn is_file_label(label: Seq<u8>) -> bool {
    contains_seq(label, seq![0x2fu8]) || contains_seq(label, seq![0x5cu8])
}

/// Whether the label names a file rather than a capture device.
pub fn label_is_file(label: &[u8]) -> (r: bool)
    ensures
        r == is_file_label(label@),
{
    let fwd: [u8; 1] = [0x2f];
    let bwd: [u8; 1] = [0x5c];
    proof {
        assert(fwd@ =~= seq![0x2fu8]);
        assert(bwd@ =~= seq![0x5cu8]);
    }
    contains_sub(label, fwd.as_slice()) || contains_sub(label, bwd.as_slice())
}

} // verus!
