//! What a client asks of a transcode and what the encoder is told.

use vstd::prelude::*;

use crate::ids::MediaId;
use crate::media::FrameRate;
use crate::media::VideoRangeType;

verus! {

/// The ticks of a second.
pub const TICKS_PER_SECOND: i64 = 10_000_000;

/// How a subtitle reaches the client.
#[derive(Clone, Copy, Debug, PartialEq, Eq, Structural)]
pub enum SubtitleDeliveryMethod {
    /// As part of the picture.
    Encode,
    Embed,
    External,
    Hls,
    Drop,
}

/// The query of an HLS request.
#[derive(Debug)]
pub struct HlsVideoQuery {
    pub play_session_id: Option<String>,
    pub media_source_id: Option<MediaId>,
    pub video_codec: Option<String>,
    pub audio_codec: Option<String>,
    /// In seconds.
    pub segment_length: Option<i64>,
    pub start_time_ticks: Option<i64>,
    /// The ticks up to the start of the segment that is asked for.
    pub runtime_ticks: Option<i64>,
    pub max_width: Option<i64>,
    pub max_height: Option<i64>,
    pub video_bit_rate: Option<i64>,
    pub audio_bit_rate: Option<i64>,
    pub max_streaming_bitrate: Option<i64>,
    pub audio_stream_index: Option<i64>,
    pub subtitle_stream_index: Option<i64>,
    pub subtitle_method: Option<SubtitleDeliveryMethod>,
    pub transcode_reasons: Option<String>,
}

/// A floating-point setting, by the bits of its double-precision number. All bits
/// zero is the number zero.
#[derive(Clone, Copy, Debug, PartialEq, Eq, Structural)]
pub struct FloatSetting {
    pub bits: u64,
}

/// The encoding settings of the server, as far as they are set.
#[derive(Debug)]
pub struct EncodingOptions {
    pub enable_video_transcoding: Option<bool>,
    pub encoding_preset: Option<String>,
    /// A name; the empty name is the default kind.
    pub hardware_acceleration_type: Option<String>,
    pub vaapi_device: Option<String>,
    pub vaapi_driver: Option<String>,
    pub enable_tonemapping: Option<bool>,
    pub enable_vpp_tonemapping: Option<bool>,
    pub tonemapping_algorithm: Option<String>,
    pub tonemapping_desat: Option<FloatSetting>,
    pub tonemapping_peak: Option<FloatSetting>,
    pub allow_hevc_encoding: Option<bool>,
    pub allow_av1_encoding: Option<bool>,
    pub h264_crf: Option<i64>,
    pub h265_crf: Option<i64>,
    pub normalize_audio_loudness: Option<bool>,
}

/// The encoding settings with their defaults filled in.
#[derive(Debug)]
pub struct EncoderSettings {
    pub encoding_preset: Option<String>,
    pub hardware_acceleration_type: String,
    pub vaapi_device: String,
    pub vaapi_driver: String,
    pub enable_tonemapping: bool,
    pub enable_vpp_tonemapping: bool,
    pub tonemapping_algorithm: String,
    pub tonemapping_desat: FloatSetting,
    pub tonemapping_peak: FloatSetting,
    pub allow_hevc_encoding: bool,
    pub allow_av1_encoding: bool,
    pub h264_crf: i64,
    pub h265_crf: i64,
    pub normalize_audio_loudness: bool,
}

/// A text, or another where there is none.
pub open spec fn text_or(t: Option<String>, default: Seq<char>) -> Seq<char> {
    match t {
        Some(s) => s@,
        None => default,
    }
}

/// A value, or another where there is none.
pub open spec fn value_or<T>(v: Option<T>, default: T) -> T {
    match v {
        Some(x) => x,
        None => default,
    }
}

/// The text, or `default` where there is none.
pub fn text_or_default(t: &Option<String>, default: &str) -> (r: String)
    ensures
        r@ == text_or(*t, default@),
{
    match t {
        Some(s) => s.clone(),
        None => default.to_owned(),
    }
}

/// The value, or `default` where there is none.
pub fn value_or_default<T: Copy>(v: Option<T>, default: T) -> (r: T)
    ensures
        r == value_or(v, default),
{
    match v {
        Some(x) => x,
        None => default,
    }
}

impl EncoderSettings {
    /// These settings are what the options say, with the defaults filled in.
    pub open spec fn are_of(self, options: EncodingOptions) -> bool {
        &&& self.encoding_preset == options.encoding_preset
        &&& self.hardware_acceleration_type@ == text_or(options.hardware_acceleration_type, ""@)
        &&& self.vaapi_device@ == text_or(options.vaapi_device, "/dev/dri/renderD128"@)
        &&& self.vaapi_driver@ == text_or(options.vaapi_driver, ""@)
        &&& self.enable_tonemapping == value_or(options.enable_tonemapping, false)
        &&& self.enable_vpp_tonemapping == value_or(options.enable_vpp_tonemapping, false)
        &&& self.tonemapping_algorithm@ == text_or(options.tonemapping_algorithm, "hable"@)
        &&& self.tonemapping_desat == value_or(
            options.tonemapping_desat,
            FloatSetting { bits: 0 },
        )
        &&& self.tonemapping_peak == value_or(options.tonemapping_peak, FloatSetting { bits: 0 })
        &&& self.allow_hevc_encoding == value_or(options.allow_hevc_encoding, false)
        &&& self.allow_av1_encoding == value_or(options.allow_av1_encoding, false)
        &&& self.h264_crf == value_or(options.h264_crf, 23i64)
        &&& self.h265_crf == value_or(options.h265_crf, 28i64)
        &&& self.normalize_audio_loudness == value_or(options.normalize_audio_loudness, true)
    }

    /// Fills in the defaults of the options.
    pub fn new(options: &EncodingOptions) -> (r: EncoderSettings)
        ensures
            r.are_of(*options),
    {
        EncoderSettings {
            encoding_preset: options.encoding_preset.clone(),
            hardware_acceleration_type: text_or_default(&options.hardware_acceleration_type, ""),
            vaapi_device: text_or_default(&options.vaapi_device, "/dev/dri/renderD128"),
            vaapi_driver: text_or_default(&options.vaapi_driver, ""),
            enable_tonemapping: value_or_default(options.enable_tonemapping, false),
            enable_vpp_tonemapping: value_or_default(options.enable_vpp_tonemapping, false),
            tonemapping_algorithm: text_or_default(&options.tonemapping_algorithm, "hable"),
            tonemapping_desat: value_or_default(
                options.tonemapping_desat,
                FloatSetting { bits: 0 },
            ),
            tonemapping_peak: value_or_default(options.tonemapping_peak, FloatSetting { bits: 0 }),
            allow_hevc_encoding: value_or_default(options.allow_hevc_encoding, false),
            allow_av1_encoding: value_or_default(options.allow_av1_encoding, false),
            h264_crf: value_or_default(options.h264_crf, 23),
            h265_crf: value_or_default(options.h265_crf, 28),
            normalize_audio_loudness: value_or_default(options.normalize_audio_loudness, true),
        }
    }
}

/// What the encoder is told. The directory it writes to is that of the session,
/// and a burnt-in subtitle keeps its own size.
#[derive(Debug)]
pub struct TranscodeParams {
    pub input_url: String,
    pub video_codec: String,
    pub audio_codec: String,
    pub segment_length: u32,
    pub start_time_ticks: Option<i64>,
    pub max_width: Option<u32>,
    pub max_height: Option<u32>,
    pub video_bitrate: Option<u32>,
    pub audio_bitrate: Option<u32>,
    pub audio_channels: Option<u32>,
    pub audio_stream_index: Option<i32>,
    pub subtitle_stream_index: Option<i32>,
    pub burn_subtitle: bool,
    pub source_video_codec: Option<String>,
    pub source_audio_codec: Option<String>,
    pub source_video_range_type: Option<VideoRangeType>,
    pub is_live: bool,
    pub settings: EncoderSettings,
}

/// How far a transcode has come.
#[derive(Clone, Copy, Debug, PartialEq, Eq, Structural)]
pub enum TranscodeState {
    Starting,
    Running,
    Complete,
    Error,
}

/// A transcode of a play session, as it is when it is made.
#[derive(Debug)]
pub struct TranscodeSession {
    pub id: String,
    pub item_id: MediaId,
    pub media_source_id: MediaId,
    pub input_url: String,
    pub video_codec: String,
    pub audio_codec: String,
    pub audio_stream_index: Option<i32>,
    pub subtitle_stream_index: Option<i32>,
    pub burn_subtitle: bool,
    pub segment_length: u32,
    pub transcode_reasons: Option<String>,
    pub runtime_ticks: i64,
    pub is_live: bool,
    pub source_video_codec: Option<String>,
    pub source_audio_codec: Option<String>,
    pub source_video_profile: Option<String>,
    pub source_video_level: Option<i64>,
    pub source_video_range_type: Option<VideoRangeType>,
    pub source_video_width: Option<i64>,
    pub source_video_height: Option<i64>,
    pub source_frame_rate: Option<FrameRate>,
}

// ---------------------------------------------------------------------------
// Numbers of a query
// ---------------------------------------------------------------------------

/// The low half of a number, read without a sign.
pub open spec fn low_u32(v: i64) -> u32 {
    v as u32
}

/// The low half of a number, read with a sign.
pub open spec fn low_i32(v: i64) -> i32 {
    v as i32
}

/// The low half of a number that may be missing, read without a sign.
pub open spec fn narrow(v: Option<i64>) -> Option<u32> {
    match v {
        Some(n) => Some(low_u32(n)),
        None => None,
    }
}

/// The low half of a number that may be missing, read with a sign.
pub open spec fn narrow_signed(v: Option<i64>) -> Option<i32> {
    match v {
        Some(n) => Some(low_i32(n)),
        None => None,
    }
}

/// A stream index that is given and is no placeholder below zero.
pub open spec fn stream_choice(v: Option<i64>) -> Option<i32> {
    match v {
        Some(n) => if low_i32(n) >= 0 {
            Some(low_i32(n))
        } else {
            None
        },
        None => None,
    }
}

/// The low half of a number that may be missing.
pub fn narrowed(v: Option<i64>) -> (r: Option<u32>)
    ensures
        r == narrow(v),
{
    match v {
        Some(n) => Some(#[verifier::truncate] (n as u32)),
        None => None,
    }
}

/// The low half of a number that may be missing, read with a sign.
pub fn narrowed_signed(v: Option<i64>) -> (r: Option<i32>)
    ensures
        r == narrow_signed(v),
{
    match v {
        Some(n) => Some(#[verifier::truncate] (n as i32)),
        None => None,
    }
}

/// A stream index that is given and is no placeholder below zero.
pub fn chosen_stream(v: Option<i64>) -> (r: Option<i32>)
    ensures
        r == stream_choice(v),
{
    match narrowed_signed(v) {
        Some(n) => if n >= 0 {
            Some(n)
        } else {
            None
        },
        None => None,
    }
}

/// Seconds in ticks, where they fit.
pub open spec fn ticks_of_seconds(seconds: int) -> Option<i64> {
    let ticks = seconds * TICKS_PER_SECOND;
    if i64::MIN <= ticks <= i64::MAX {
        Some(ticks as i64)
    } else {
        None
    }
}

/// Counts seconds in ticks, where they fit.
pub fn seconds_to_ticks(seconds: i64) -> (r: Option<i64>)
    ensures
        r == ticks_of_seconds(seconds as int),
{
    seconds.checked_mul(TICKS_PER_SECOND)
}

/// The channels of the sound: two where it is encoded anew, since browsers do not
/// play more; those of the source where it is copied.
pub open spec fn channels_for(audio_codec: Seq<char>) -> Option<u32> {
    if audio_codec == "copy"@ {
        None
    } else {
        Some(2)
    }
}

/// The channels of the sound.
pub fn audio_channels(audio_codec: &str) -> (r: Option<u32>)
    ensures
        r == channels_for(audio_codec@),
{
    if crate::text::same_text(audio_codec, "copy") {
        None
    } else {
        Some(2)
    }
}

// ---------------------------------------------------------------------------
// Laws
// ---------------------------------------------------------------------------

/// A text or a value that is given is taken, and the other one where none is.
pub proof fn what_is_given_is_taken(t: &Option<String>, other: &str, text: String)
    requires
        call_ensures(text_or_default, (t, other), text),
    ensures
        *t matches Some(s) ==> text@ == s@,
        *t is None ==> text@ == other@,
{
}

/// The same of a value.
pub proof fn values_given_are_taken<T: Copy>(v: Option<T>, other: T, value: T)
    requires
        call_ensures(value_or_default::<T>, (v, other), value),
    ensures
        v matches Some(x) ==> value == x,
        v is None ==> value == other,
{
}

/// Each option that is set is what the encoder goes by.
pub proof fn options_that_are_set_count(options: &EncodingOptions, r: EncoderSettings)
    requires
        call_ensures(EncoderSettings::new, (options,), r),
    ensures
        r.encoding_preset == options.encoding_preset,
        options.hardware_acceleration_type matches Some(s) ==> r.hardware_acceleration_type@ == s@,
        options.vaapi_device matches Some(s) ==> r.vaapi_device@ == s@,
        options.vaapi_driver matches Some(s) ==> r.vaapi_driver@ == s@,
        options.enable_tonemapping matches Some(b) ==> r.enable_tonemapping == b,
        options.enable_vpp_tonemapping matches Some(b) ==> r.enable_vpp_tonemapping == b,
        options.tonemapping_algorithm matches Some(s) ==> r.tonemapping_algorithm@ == s@,
        options.tonemapping_desat matches Some(f) ==> r.tonemapping_desat == f,
        options.tonemapping_peak matches Some(f) ==> r.tonemapping_peak == f,
        options.allow_hevc_encoding matches Some(b) ==> r.allow_hevc_encoding == b,
        options.allow_av1_encoding matches Some(b) ==> r.allow_av1_encoding == b,
        options.h264_crf matches Some(n) ==> r.h264_crf == n,
        options.h265_crf matches Some(n) ==> r.h265_crf == n,
        options.normalize_audio_loudness matches Some(b) ==> r.normalize_audio_loudness == b,
{
}

/// Each option that is not set has its default.
pub proof fn options_have_defaults(options: &EncodingOptions, r: EncoderSettings)
    requires
        call_ensures(EncoderSettings::new, (options,), r),
    ensures
        options.hardware_acceleration_type is None ==> r.hardware_acceleration_type@ == ""@,
        options.vaapi_device is None ==> r.vaapi_device@ == "/dev/dri/renderD128"@,
        options.vaapi_driver is None ==> r.vaapi_driver@ == ""@,
        options.enable_tonemapping is None ==> !r.enable_tonemapping,
        options.enable_vpp_tonemapping is None ==> !r.enable_vpp_tonemapping,
        options.tonemapping_algorithm is None ==> r.tonemapping_algorithm@ == "hable"@,
        options.tonemapping_desat is None ==> r.tonemapping_desat.bits == 0,
        options.tonemapping_peak is None ==> r.tonemapping_peak.bits == 0,
        options.allow_hevc_encoding is None ==> !r.allow_hevc_encoding,
        options.allow_av1_encoding is None ==> !r.allow_av1_encoding,
        options.h264_crf is None ==> r.h264_crf == 23,
        options.h265_crf is None ==> r.h265_crf == 28,
        options.normalize_audio_loudness is None ==> r.normalize_audio_loudness,
{
}

/// Settings that are those of the options are told apart by nothing but texts that
/// read alike.
pub proof fn options_fix_the_settings(
    options: EncodingOptions,
    a: EncoderSettings,
    b: EncoderSettings,
)
    requires
        a.are_of(options),
        b.are_of(options),
    ensures
        a.encoding_preset == b.encoding_preset,
        a.hardware_acceleration_type@ == b.hardware_acceleration_type@,
        a.vaapi_device@ == b.vaapi_device@,
        a.vaapi_driver@ == b.vaapi_driver@,
        a.enable_tonemapping == b.enable_tonemapping,
        a.enable_vpp_tonemapping == b.enable_vpp_tonemapping,
        a.tonemapping_algorithm@ == b.tonemapping_algorithm@,
        a.tonemapping_desat == b.tonemapping_desat,
        a.tonemapping_peak == b.tonemapping_peak,
        a.allow_hevc_encoding == b.allow_hevc_encoding,
        a.allow_av1_encoding == b.allow_av1_encoding,
        a.h264_crf == b.h264_crf,
        a.h265_crf == b.h265_crf,
        a.normalize_audio_loudness == b.normalize_audio_loudness,
{
}

/// The low half of a number differs from it by a multiple of two to the 32nd, read
/// without a sign and with one.
pub proof fn low_halves_are_congruent(n: i64)
    ensures
        (n - low_u32(n)) % 0x1_0000_0000 == 0,
        (n - low_i32(n)) % 0x1_0000_0000 == 0,
{
    let high: i64 = n >> 32;
    let low: u32 = n as u32;
    let signed: i32 = n as i32;
    assert(n == (n >> 32) * 0x1_0000_0000 + (n as u32)) by (bit_vector);
    assert(n == ((n >> 32) + (if (n as i32) < 0 {
        1i64
    } else {
        0i64
    })) * 0x1_0000_0000 + (n as i32)) by (bit_vector);
    assert((high * 0x1_0000_0000) % 0x1_0000_0000 == 0);
}

/// A number that may be missing is narrowed to one that differs by a multiple of
/// two to the 32nd. One that fits is kept, and none stays none.
pub proof fn narrowing_keeps_what_fits(
    v: Option<i64>,
    r: Option<u32>,
    signed: Option<i32>,
)
    requires
        call_ensures(narrowed, (v,), r),
        call_ensures(narrowed_signed, (v,), signed),
    ensures
        v is None <==> r is None,
        v is None <==> signed is None,
        v matches Some(n) ==> (n - r->0) % 0x1_0000_0000 == 0 && (n - signed->0) % 0x1_0000_0000
            == 0,
        v matches Some(n) ==> 0 <= n <= u32::MAX ==> r->0 == n,
        v matches Some(n) ==> i32::MIN <= n <= i32::MAX ==> signed->0 == n,
{
    if let Some(n) = v {
        low_halves_are_congruent(n);
    }
}

/// A stream is chosen by an index that is not below zero, and by no other.
pub proof fn placeholders_choose_no_stream(v: Option<i64>, r: Option<i32>)
    requires
        call_ensures(chosen_stream, (v,), r),
    ensures
        v matches Some(n) ==> 0 <= n <= i32::MAX ==> (r matches Some(k) && k == n),
        v matches Some(n) ==> i32::MIN <= n < 0 ==> r is None,
        v is None ==> r is None,
        r matches Some(k) ==> k >= 0 && (v->0 - k) % 0x1_0000_0000 == 0,
        v matches Some(n) ==> (r is None <==> (n + 0x8000_0000) % 0x1_0000_0000 < 0x8000_0000),
{
    if let Some(n) = v {
        low_halves_are_congruent(n);
        let k = low_i32(n) as int;
        assert((n + 0x8000_0000) % 0x1_0000_0000 == k + 0x8000_0000);
    }
}

/// A second has ten million ticks. Seconds whose ticks do not fit have none.
pub proof fn seconds_have_ten_million_ticks(seconds: i64, r: Option<i64>)
    requires
        call_ensures(seconds_to_ticks, (seconds,), r),
    ensures
        r matches Some(ticks) ==> ticks == seconds * 10_000_000,
        r is None <==> !(i64::MIN <= seconds * 10_000_000 <= i64::MAX),
{
}

/// Sound that is encoded has two channels, and a copy keeps its own.
pub proof fn encoded_sound_has_two_channels(audio_codec: &str, r: Option<u32>)
    requires
        call_ensures(audio_channels, (audio_codec,), r),
    ensures
        audio_codec@ == "copy"@ ==> r is None,
        audio_codec@ != "copy"@ ==> r == Some(2u32),
{
}

} // verus!
