use vstd::prelude::*;
use crate::audio::{channels, sample_rate};
use crate::timestamps::div_positive;
use crate::models::{Quality, audio_bitrate, video_bitrate_exact, wrap_u32};

verus! {

/// `high` in the upper and `low` in the lower 32 bits of a 64-bit
/// attribute, as Media Foundation packs sizes and ratios.
pub open spec fn packed(high: int, low: int) -> int {
    high * 0x1_0000_0000 + low
}

/// Packs two 32-bit values into one 64-bit attribute.
pub fn pack_u32_pair(high: u32, low: u32) -> (r: u64)
    ensures
        r == packed(high as int, low as int),
{
    let r = ((high as u64) << 32) | (low as u64);
    assert(r == high as u64 * 0x1_0000_0000u64 + low as u64) by (bit_vector)
        requires r == ((high as u64) << 32) | (low as u64);
    r
}

/// The frame-size attribute: height in the upper, width in the lower half.
pub fn frame_size_attribute(width: u32, height: u32) -> (r: u64)
    ensures
        r == packed(height as int, width as int),
{
    pack_u32_pair(height, width)
}

/// A ratio attribute (frame rate, pixel aspect): denominator in the upper,
/// numerator in the lower half.
pub fn ratio_attribute(numerator: u32, denominator: u32) -> (r: u64)
    ensures
        r == packed(denominator as int, numerator as int),
{
    pack_u32_pair(denominator, numerator)
}

/// The attributes of an encoder's video stream: H.264 out, 32-bit RGB in.
#[derive(Clone, Copy, Debug, PartialEq, Eq, Structural)]
pub struct VideoStreamConfig {
    pub frame_size: u64,
    pub frame_rate: u64,
    pub pixel_aspect_ratio: u64,
    pub avg_bitrate: u32,
}

/// The video stream of a `width` x `height` recording at `fps`: the frame
/// size, a frame rate of `fps`/1, square pixels and the quality's bitrate.
pub fn video_stream_config(width: u32, height: u32, fps: u32, quality: Quality) -> (r: VideoStreamConfig)
    ensures
        r.frame_size == packed(height as int, width as int),
        r.frame_rate == packed(1, fps as int),
        r.pixel_aspect_ratio == packed(1, 1),
        r.avg_bitrate as int == wrap_u32(video_bitrate_exact(quality, width as int, height as int)),
{
    VideoStreamConfig {
        frame_size: frame_size_attribute(width, height),
        frame_rate: ratio_attribute(fps, 1),
        pixel_aspect_ratio: ratio_attribute(1, 1),
        avg_bitrate: quality.video_bitrate_bps(width, height),
    }
}

/// The attributes of an encoder's audio stream: AAC out, 32-bit float PCM
/// in.
#[derive(Clone, Copy, Debug, PartialEq, Eq, Structural)]
pub struct AudioStreamConfig {
    pub channels: u32,
    pub samples_per_second: u32,
    pub avg_bytes_per_second: u32,
    pub input_bits_per_sample: u32,
    pub input_block_alignment: u32,
}

/// The audio stream: the mixer's channels and rate, the quality's bitrate
/// in bytes per second, and four-byte samples in the input.
pub fn audio_stream_config(quality: Quality) -> (r: AudioStreamConfig)
    ensures
        r.channels == 2,
        r.samples_per_second == 48_000,
        r.avg_bytes_per_second == audio_bitrate(quality) / 8,
        r.input_bits_per_sample == 32,
        r.input_block_alignment == 8,
{
    let channel_count = channels();
    AudioStreamConfig {
        channels: channel_count as u32,
        samples_per_second: sample_rate(),
        avg_bytes_per_second: quality.audio_bitrate_bps() / 8,
        input_bits_per_sample: 32,
        input_block_alignment: (channel_count * 4) as u32,
    }
}

/// The byte length of a `width` x `height` four-byte-per-pixel frame.
pub open spec fn frame_bytes(width: int, height: int) -> int {
    width * height * 4
}

/// Checks a video frame buffer against the encoder's frame size: it must
/// hold at least `width * height * 4` bytes, of which that many are sent.
pub fn check_video_frame(len: usize, width: u32, height: u32) -> (r: Result<usize, String>)
    requires
        frame_bytes(width as int, height as int) <= u32::MAX,
    ensures
        r is Ok <==> len >= frame_bytes(width as int, height as int),
        r matches Ok(n) ==> n == frame_bytes(width as int, height as int),
        r matches Err(e) ==> e@ == "Video frame buffer too small"@,
{
    let expected = (width * height * 4) as usize;
    if len < expected {
        proof {
            reveal_strlit("Video frame buffer too small");
        }
        return Err(String::from_str("Video frame buffer too small"));
    }
    Ok(expected)
}

/// How long one video frame lasts at `fps`, in 100-nanosecond units.
pub fn video_sample_duration(fps: u32) -> (r: i64)
    requires
        fps > 0,
    ensures
        r == 10_000_000int / (fps as int),
{
    div_positive(10_000_000i64, fps as i64)
}

/// How long `sample_count` interleaved stereo samples at 48 kHz last, in
/// 100-nanosecond units, and at least 1.
pub fn audio_sample_duration(sample_count: usize) -> (r: i64)
    requires
        sample_count * 10_000_000 <= i64::MAX,
    ensures
        r == if sample_count * 10_000_000 / 96_000 < 1 { 1 } else { sample_count * 10_000_000 / 96_000 },
{
    let rate = sample_rate();
    let channel_count = channels();
    assert(rate == 48_000);
    assert(channel_count == 2);
    assert((rate as i64) == 48000i64);
    assert((channel_count as i64) == 2i64);
    let denominator: i64 = (rate as i64) * (channel_count as i64);
    let d = div_positive((sample_count as i64) * 10_000_000, denominator);
    if d < 1 { 1 } else { d }
}

/// Where an audio buffer goes: nowhere for a writer without audio, else
/// to its audio stream; a writer that should have audio but has no stream
/// gives "No audio stream".
pub fn audio_target(has_audio: bool, audio_stream_index: Option<u32>) -> (r: Result<Option<u32>, String>)
    ensures
        !has_audio ==> r == Ok::<Option<u32>, String>(None),
        has_audio && audio_stream_index is Some ==> r == Ok::<Option<u32>, String>(audio_stream_index),
        has_audio && audio_stream_index is None ==> (r matches Err(e) && e@ == "No audio stream"@),
{
    if !has_audio {
        return Ok(None);
    }
    match audio_stream_index {
        Some(i) => Ok(Some(i)),
        None => {
            proof {
                reveal_strlit("No audio stream");
            }
            Err(String::from_str("No audio stream"))
        },
    }
}

} // verus!
