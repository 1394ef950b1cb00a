//! Benchmark-specific run configurations (FFmpeg, 7-Zip, Unigine), the safety
//! rules for user-supplied extra arguments, and the per-benchmark time limits.

use vstd::prelude::*;
use crate::text::{
    lemma_absent_prefix, lemma_contains_at, append_strings, chars_of, contains, contains_str, dec, dec_string, dec_value, eq_str, is_digit, join,
    join_strings, lowercase, push_chars, push_lit, push_str, push_string, replace_char,
    replace_char_chars, split_whitespace_chars, starts_with, starts_with_str, string_from,
    str_contains, str_is, string_of, to_lowercase, trim, trim_str, words,
};

verus! {

// ---------------------------------------------------------------------------
// Custom argument safety
// ---------------------------------------------------------------------------

/// Why a custom argument token is refused.
#[derive(Debug, Clone, Copy, PartialEq, Eq, Structural)]
pub enum ArgRejection {
    Empty,
    DangerousFlag,
    PathTraversal,
    AbsolutePath,
    ShellCharacter,
}

/// Characters that could start a new shell command or redirect output.
pub open spec fn is_shell_meta(c: char) -> bool {
    c == ';' || c == '&' || c == '|' || c == '`' || c == '$' || c == '>' || c == '<' || c
        == '\n' || c == '\r'
}

/// Flags that would let a benchmark overwrite files or force overwrites.
pub open spec fn is_dangerous_flag(t: Seq<char>) -> bool {
    ||| t == "-o"@
    ||| t == "--output"@
    ||| t == "-y"@
    ||| starts_with(t, "-o="@)
    ||| starts_with(t, "--output="@)
    ||| starts_with(t, "-y="@)
}

/// The first rule that the (trimmed) argument breaks, if any.
pub open spec fn arg_rejection(arg: Seq<char>) -> Option<ArgRejection> {
    let t = trim(arg);
    if t.len() == 0 {
        Some(ArgRejection::Empty)
    } else if is_dangerous_flag(t) {
        Some(ArgRejection::DangerousFlag)
    } else if contains(t, ".."@) {
        Some(ArgRejection::PathTraversal)
    } else if starts_with(t, "/"@) || contains(t, "=/"@) {
        Some(ArgRejection::AbsolutePath)
    } else if exists|i: int| 0 <= i < t.len() && is_shell_meta(#[trigger] t[i]) {
        Some(ArgRejection::ShellCharacter)
    } else {
        None
    }
}

/// A custom argument token is safe when it breaks none of the rules.
pub open spec fn is_safe_arg(arg: Seq<char>) -> bool {
    arg_rejection(arg) is None
}

/// The safe tokens of `ws`, in order.
pub open spec fn safe_args(ws: Seq<Seq<char>>) -> Seq<Seq<char>>
    decreases ws.len(),
{
    if ws.len() == 0 {
        Seq::empty()
    } else if is_safe_arg(ws.last()) {
        safe_args(ws.drop_last()).push(ws.last())
    } else {
        safe_args(ws.drop_last())
    }
}

/// The message that `validate_custom_arg` reports for each rejection.
pub open spec fn rejection_message(r: ArgRejection) -> Seq<char> {
    match r {
        ArgRejection::Empty => "Argüman boş olamaz"@,
        ArgRejection::DangerousFlag => "Tehlikeli bayrak kullanımı (-o, --output, -y) yasaktır"@,
        ArgRejection::PathTraversal => "Dizin geçişi ('..') içeren argümanlar yasaktır"@,
        ArgRejection::AbsolutePath => "Kök dizini ('/') referans alan mutlak yollar yasaktır"@,
        ArgRejection::ShellCharacter => "Tehlikeli kabuk karakterleri içeren argümanlar yasaktır"@,
    }
}

fn is_shell_meta_char(c: char) -> (r: bool)
    ensures
        r == is_shell_meta(c),
{
    c == ';' || c == '&' || c == '|' || c == '`' || c == '$' || c == '>' || c == '<' || c
        == '\n' || c == '\r'
}

/// The first rule that `arg` breaks, if any.
pub fn check_custom_arg(arg: &str) -> (r: Option<ArgRejection>)
    ensures
        r == arg_rejection(arg@),
{
    let t = trim_str(arg);
    let ts = t.as_slice();
    if t.len() == 0 {
        return Some(ArgRejection::Empty);
    }
    if eq_str(ts, "-o") || eq_str(ts, "--output") || eq_str(ts, "-y") || starts_with_str(ts, "-o=")
        || starts_with_str(ts, "--output=") || starts_with_str(ts, "-y=") {
        return Some(ArgRejection::DangerousFlag);
    }
    if contains_str(ts, "..") {
        return Some(ArgRejection::PathTraversal);
    }
    if starts_with_str(ts, "/") || contains_str(ts, "=/") {
        return Some(ArgRejection::AbsolutePath);
    }
    let mut i: usize = 0;
    while i < t.len()
        invariant
            t@ == trim(arg@),
            t@.len() > 0,
            !is_dangerous_flag(t@),
            !contains(t@, ".."@),
            !(starts_with(t@, "/"@) || contains(t@, "=/"@)),
            i <= t@.len(),
            forall|k: int| 0 <= k < i ==> !is_shell_meta(#[trigger] t@[k]),
        decreases t@.len() - i,
    {
        if is_shell_meta_char(t[i]) {
            assert(is_shell_meta(t@[i as int]));
            return Some(ArgRejection::ShellCharacter);
        }
        i += 1;
    }
    None
}

/// Filtering keeps exactly the safe tokens: every kept token is safe and was
/// given, and every safe token given is kept.
pub proof fn lemma_safe_args_sound(ws: Seq<Seq<char>>)
    ensures
        forall|i: int|
            0 <= i < safe_args(ws).len() ==> is_safe_arg(#[trigger] safe_args(ws)[i]) && ws.contains(
                safe_args(ws)[i],
            ),
        forall|i: int| 0 <= i < ws.len() && is_safe_arg(#[trigger] ws[i]) ==> safe_args(ws).contains(ws[i]),
        safe_args(ws).len() <= ws.len(),
    decreases ws.len(),
{
    if ws.len() > 0 {
        let d = ws.drop_last();
        lemma_safe_args_sound(d);
        let sd = safe_args(d);
        assert forall|i: int| 0 <= i < safe_args(ws).len() implies is_safe_arg(
            #[trigger] safe_args(ws)[i],
        ) && ws.contains(safe_args(ws)[i]) by {
            if i < sd.len() {
                assert(safe_args(ws)[i] == sd[i]);
                let k = choose|k: int| 0 <= k < d.len() && d[k] == sd[i];
                assert(ws[k] == d[k]);
            } else {
                assert(safe_args(ws)[i] == ws.last());
                assert(ws[ws.len() - 1] == ws.last());
            }
        }
        assert forall|i: int| 0 <= i < ws.len() && is_safe_arg(#[trigger] ws[i]) implies safe_args(
            ws,
        ).contains(ws[i]) by {
            if i < ws.len() - 1 {
                assert(d[i] == ws[i]);
                assert(sd.contains(d[i]));
                let k = choose|k: int| 0 <= k < sd.len() && sd[k] == d[i];
                assert(safe_args(ws)[k] == sd[k]);
            } else {
                assert(ws[i] == ws.last());
                assert(safe_args(ws)[safe_args(ws).len() - 1] == ws.last());
            }
        }
    }
}

/// Validates an individual CLI argument token for safety.
/// Rejects dangerous flags (-o, --output, -y), path traversal ('..'), absolute root paths ('/'),
/// and dangerous shell injection characters.
pub fn is_safe_custom_arg(arg: &str) -> (r: bool)
    ensures
        r == is_safe_arg(arg@),
{
    check_custom_arg(arg).is_none()
}

/// The safe tokens among the whitespace-separated tokens of `tokens`.
pub fn filter_safe_tokens(tokens: &Vec<String>) -> (r: Vec<String>)
    ensures
        r.deep_view() == safe_args(tokens.deep_view()),
{
    let ghost dv = tokens.deep_view();
    let mut r: Vec<String> = Vec::new();
    let mut i: usize = 0;
    while i < tokens.len()
        invariant
            dv == tokens.deep_view(),
            dv.len() == tokens@.len(),
            i <= dv.len(),
            r.deep_view() == safe_args(dv.take(i as int)),
        decreases dv.len() - i,
    {
        assert(dv.take(i + 1).drop_last() =~= dv.take(i as int));
        assert(dv[i as int] == tokens@[i as int]@);
        if is_safe_custom_arg(tokens[i].as_str()) {
            push_string(&mut r, tokens[i].clone());
        }
        i += 1;
    }
    assert(dv.take(dv.len() as int) =~= dv);
    r
}

/// Filters a string of custom arguments, keeping only safe tokens.
pub fn filter_safe_custom_args(custom_args: &str) -> (r: Vec<String>)
    ensures
        r.deep_view() == safe_args(words(custom_args@)),
{
    let v = chars_of(custom_args);
    let tokens = split_whitespace_chars(v.as_slice());
    filter_safe_tokens(&tokens)
}

/// Validates an individual custom argument or returns an error string describing why it's unsafe.
pub fn validate_custom_arg(arg: &str) -> (r: Result<(), &'static str>)
    ensures
        match arg_rejection(arg@) {
            None => r is Ok,
            Some(why) => r is Err && r->Err_0@ == rejection_message(why),
        },
{
    match check_custom_arg(arg) {
        None => Ok(()),
        Some(ArgRejection::Empty) => Err("Argüman boş olamaz"),
        Some(ArgRejection::DangerousFlag) => Err(
            "Tehlikeli bayrak kullanımı (-o, --output, -y) yasaktır",
        ),
        Some(ArgRejection::PathTraversal) => Err("Dizin geçişi ('..') içeren argümanlar yasaktır"),
        Some(ArgRejection::AbsolutePath) => Err(
            "Kök dizini ('/') referans alan mutlak yollar yasaktır",
        ),
        Some(ArgRejection::ShellCharacter) => Err(
            "Tehlikeli kabuk karakterleri içeren argümanlar yasaktır",
        ),
    }
}


// ---------------------------------------------------------------------------
// FFmpeg
// ---------------------------------------------------------------------------

/// FFmpeg encoder settings chosen in the configuration dialog.
#[derive(Debug, Clone, PartialEq, Eq)]
pub struct FfmpegConfig {
    pub codec: String,
    pub crf: u32,
    pub preset: String,
    pub resolution: String,
    pub input_source: String,
    pub duration_enabled: bool,
    pub duration_secs: u32,
    pub threads: u32,
    pub custom_args: String,
}

impl Default for FfmpegConfig {
    fn default() -> (r: Self)
        ensures
            r.codec@ == "H.264 (libx264 - CPU)"@,
            r.crf == 23,
            r.preset@ == "medium"@,
            r.resolution@ == "1080p FHD (1920x1080)"@,
            r.input_source@ == "Sentetik Test Kaynağı (lavfi testsrc2)"@,
            r.duration_enabled,
            r.duration_secs == 20,
            r.threads == 0,
            r.custom_args@ == Seq::<char>::empty(),
    {
        FfmpegConfig {
            codec: string_from("H.264 (libx264 - CPU)"),
            crf: 23,
            preset: string_from("medium"),
            resolution: string_from("1080p FHD (1920x1080)"),
            input_source: string_from("Sentetik Test Kaynağı (lavfi testsrc2)"),
            duration_enabled: true,
            duration_secs: 20,
            threads: 0,
            custom_args: String::new(),
        }
    }
}

/// The encoders that the codec label can select.
#[derive(Debug, Clone, Copy, PartialEq, Eq, Structural)]
pub enum FfmpegCodec {
    X265,
    SvtAv1,
    AomAv1,
    Vp9,
    H264Nvenc,
    HevcNvenc,
    Av1Nvenc,
    H264Vaapi,
    HevcVaapi,
    X264,
}

/// The encoder that a lower-cased codec label selects; the first rule that matches wins.
pub open spec fn ffmpeg_codec(lower: Seq<char>) -> FfmpegCodec {
    if contains(lower, "libx265"@) || (contains(lower, "h.265"@) && contains(lower, "cpu"@)) {
        FfmpegCodec::X265
    } else if contains(lower, "libsvtav1"@) || contains(lower, "svt"@) {
        FfmpegCodec::SvtAv1
    } else if contains(lower, "libaom"@) || contains(lower, "aom"@) {
        FfmpegCodec::AomAv1
    } else if contains(lower, "vp9"@) {
        FfmpegCodec::Vp9
    } else if contains(lower, "h264_nvenc"@) || (contains(lower, "h.264"@) && contains(
        lower,
        "nvenc"@,
    )) {
        FfmpegCodec::H264Nvenc
    } else if contains(lower, "hevc_nvenc"@) || ((contains(lower, "hevc"@) || contains(
        lower,
        "h.265"@,
    )) && contains(lower, "nvenc"@)) {
        FfmpegCodec::HevcNvenc
    } else if contains(lower, "av1_nvenc"@) || (contains(lower, "av1"@) && contains(
        lower,
        "nvenc"@,
    )) {
        FfmpegCodec::Av1Nvenc
    } else if contains(lower, "h264_vaapi"@) || (contains(lower, "h.264"@) && contains(
        lower,
        "vaapi"@,
    )) {
        FfmpegCodec::H264Vaapi
    } else if contains(lower, "hevc_vaapi"@) || ((contains(lower, "hevc"@) || contains(
        lower,
        "h.265"@,
    )) && contains(lower, "vaapi"@)) {
        FfmpegCodec::HevcVaapi
    } else {
        FfmpegCodec::X264
    }
}

/// FFmpeg's name of each encoder.
pub open spec fn codec_name(c: FfmpegCodec) -> Seq<char> {
    match c {
        FfmpegCodec::X265 => "libx265"@,
        FfmpegCodec::SvtAv1 => "libsvtav1"@,
        FfmpegCodec::AomAv1 => "libaom-av1"@,
        FfmpegCodec::Vp9 => "libvpx-vp9"@,
        FfmpegCodec::H264Nvenc => "h264_nvenc"@,
        FfmpegCodec::HevcNvenc => "hevc_nvenc"@,
        FfmpegCodec::Av1Nvenc => "av1_nvenc"@,
        FfmpegCodec::H264Vaapi => "h264_vaapi"@,
        FfmpegCodec::HevcVaapi => "hevc_vaapi"@,
        FfmpegCodec::X264 => "libx264"@,
    }
}

/// The NVIDIA encoders (names ending in `_nvenc`).
pub open spec fn is_nvenc(c: FfmpegCodec) -> bool {
    c is H264Nvenc || c is HevcNvenc || c is Av1Nvenc
}

/// The VA-API encoders (names ending in `_vaapi`).
pub open spec fn is_vaapi(c: FfmpegCodec) -> bool {
    c is H264Vaapi || c is HevcVaapi
}

/// The output resolutions that the resolution label can select.
#[derive(Debug, Clone, Copy, PartialEq, Eq, Structural)]
pub enum FfmpegResolution {
    Uhd4k,
    Qhd1440,
    Hd720,
    Sd480,
    Fhd1080,
}

/// The resolution that a label selects; the first rule that matches wins.
pub open spec fn ffmpeg_resolution(label: Seq<char>) -> FfmpegResolution {
    if contains(label, "3840x2160"@) || contains(label, "4K"@) {
        FfmpegResolution::Uhd4k
    } else if contains(label, "2560x1440"@) || contains(label, "1440p"@) || contains(label, "2K"@) {
        FfmpegResolution::Qhd1440
    } else if contains(label, "1280x720"@) || contains(label, "720p"@) {
        FfmpegResolution::Hd720
    } else if contains(label, "854x480"@) || contains(label, "480p"@) {
        FfmpegResolution::Sd480
    } else {
        FfmpegResolution::Fhd1080
    }
}

/// `WIDTHxHEIGHT` of each resolution.
pub open spec fn resolution_size(r: FfmpegResolution) -> Seq<char> {
    match r {
        FfmpegResolution::Uhd4k => "3840x2160"@,
        FfmpegResolution::Qhd1440 => "2560x1440"@,
        FfmpegResolution::Hd720 => "1280x720"@,
        FfmpegResolution::Sd480 => "854x480"@,
        FfmpegResolution::Fhd1080 => "1920x1080"@,
    }
}

/// The short name of each resolution shown in the preset label.
pub open spec fn resolution_label(r: FfmpegResolution) -> Seq<char> {
    match r {
        FfmpegResolution::Uhd4k => "4K"@,
        FfmpegResolution::Fhd1080 => "1080p"@,
        FfmpegResolution::Qhd1440 => "1440p"@,
        FfmpegResolution::Hd720 => "720p"@,
        FfmpegResolution::Sd480 => "854x480"@,
    }
}

/// Whether the input is one of the bundled demo videos.
pub open spec fn is_demo_video(input: Seq<char>) -> bool {
    contains(input, "Buck Bunny"@) || contains(input, "Tears of Steel"@)
}

/// Arguments that select the input: a demo video scaled to the target size, or the
/// synthetic `testsrc2` source (limited in time when a duration is enabled).
pub open spec fn ffmpeg_input_args(
    input: Seq<char>,
    duration_enabled: bool,
    duration_secs: u32,
    res: FfmpegResolution,
) -> Seq<Seq<char>> {
    if is_demo_video(input) {
        seq![
            "-i"@,
            if contains(input, "Buck Bunny"@) {
                "big_buck_bunny_1080p.mp4"@
            } else {
                "tears_of_steel_1080p.mp4"@
            },
            "-vf"@,
            "scale="@ + replace_char(resolution_size(res), 'x', ":"@),
        ]
    } else {
        seq![
            "-f"@,
            "lavfi"@,
            "-i"@,
            if duration_enabled && duration_secs > 0 {
                "testsrc2=duration="@ + dec(duration_secs as nat) + ":size="@ + resolution_size(res)
                    + ":rate=60"@
            } else {
                "testsrc2=size="@ + resolution_size(res) + ":rate=60"@
            },
        ]
    }
}

/// The preset passed to SVT-AV1: the given one when it is all digits, else `6`.
pub open spec fn svt_preset(preset: Seq<char>) -> Seq<char> {
    if forall|i: int| 0 <= i < preset.len() ==> is_digit(#[trigger] preset[i]) {
        preset
    } else {
        "6"@
    }
}

/// Quality arguments of each encoder.
pub open spec fn ffmpeg_quality_args(c: FfmpegCodec, crf: u32, preset: Seq<char>) -> Seq<
    Seq<char>,
> {
    if is_nvenc(c) {
        seq!["-cq"@, dec(crf as nat), "-preset"@, "p4"@]
    } else if is_vaapi(c) {
        seq!["-qp"@, dec(crf as nat)]
    } else if c is Vp9 {
        seq!["-crf"@, dec(crf as nat), "-b:v"@, "0"@]
    } else if c is SvtAv1 {
        seq!["-crf"@, dec(crf as nat), "-preset"@, svt_preset(preset)]
    } else if c is AomAv1 {
        seq!["-crf"@, dec(crf as nat), "-b:v"@, "0"@, "-cpu-used"@, "4"@]
    } else {
        seq!["-crf"@, dec(crf as nat), "-preset"@, preset]
    }
}

/// The complete FFmpeg argument list of a configuration.
pub open spec fn ffmpeg_args(cfg: FfmpegConfig) -> Seq<Seq<char>> {
    let codec = ffmpeg_codec(lowercase(cfg.codec@));
    let res = ffmpeg_resolution(cfg.resolution@);
    seq!["-y"@] + ffmpeg_input_args(cfg.input_source@, cfg.duration_enabled, cfg.duration_secs, res)
        + (if is_vaapi(codec) {
        seq!["-vaapi_device"@, "/dev/dri/renderD128"@, "-vf"@, "format=nv12,hwupload"@]
    } else {
        Seq::empty()
    }) + seq!["-c:v"@, codec_name(codec)] + ffmpeg_quality_args(codec, cfg.crf, trim(cfg.preset@))
        + (if cfg.threads > 0 {
        seq!["-threads"@, dec(cfg.threads as nat)]
    } else {
        Seq::empty()
    }) + safe_args(words(cfg.custom_args@)) + seq!["-f"@, "null"@, "-"@]
}

/// The label of an FFmpeg configuration: resolution, encoder, CRF and preset.
pub open spec fn ffmpeg_preset_display(cfg: FfmpegConfig) -> Seq<char> {
    let codec = ffmpeg_codec(lowercase(cfg.codec@));
    let res = ffmpeg_resolution(cfg.resolution@);
    resolution_label(res) + " "@ + codec_name(codec) + " (CRF "@ + dec(cfg.crf as nat) + ", "@
        + trim(cfg.preset@) + ")"@
}

fn ffmpeg_codec_exec(lower: &[char]) -> (c: FfmpegCodec)
    ensures
        c == ffmpeg_codec(lower@),
{
    if contains_str(lower, "libx265") || (contains_str(lower, "h.265") && contains_str(
        lower,
        "cpu",
    )) {
        FfmpegCodec::X265
    } else if contains_str(lower, "libsvtav1") || contains_str(lower, "svt") {
        FfmpegCodec::SvtAv1
    } else if contains_str(lower, "libaom") || contains_str(lower, "aom") {
        FfmpegCodec::AomAv1
    } else if contains_str(lower, "vp9") {
        FfmpegCodec::Vp9
    } else if contains_str(lower, "h264_nvenc") || (contains_str(lower, "h.264") && contains_str(
        lower,
        "nvenc",
    )) {
        FfmpegCodec::H264Nvenc
    } else if contains_str(lower, "hevc_nvenc") || ((contains_str(lower, "hevc") || contains_str(
        lower,
        "h.265",
    )) && contains_str(lower, "nvenc")) {
        FfmpegCodec::HevcNvenc
    } else if contains_str(lower, "av1_nvenc") || (contains_str(lower, "av1") && contains_str(
        lower,
        "nvenc",
    )) {
        FfmpegCodec::Av1Nvenc
    } else if contains_str(lower, "h264_vaapi") || (contains_str(lower, "h.264") && contains_str(
        lower,
        "vaapi",
    )) {
        FfmpegCodec::H264Vaapi
    } else if contains_str(lower, "hevc_vaapi") || ((contains_str(lower, "hevc") || contains_str(
        lower,
        "h.265",
    )) && contains_str(lower, "vaapi")) {
        FfmpegCodec::HevcVaapi
    } else {
        FfmpegCodec::X264
    }
}

fn codec_name_str(c: FfmpegCodec) -> (s: &'static str)
    ensures
        s@ == codec_name(c),
{
    match c {
        FfmpegCodec::X265 => "libx265",
        FfmpegCodec::SvtAv1 => "libsvtav1",
        FfmpegCodec::AomAv1 => "libaom-av1",
        FfmpegCodec::Vp9 => "libvpx-vp9",
        FfmpegCodec::H264Nvenc => "h264_nvenc",
        FfmpegCodec::HevcNvenc => "hevc_nvenc",
        FfmpegCodec::Av1Nvenc => "av1_nvenc",
        FfmpegCodec::H264Vaapi => "h264_vaapi",
        FfmpegCodec::HevcVaapi => "hevc_vaapi",
        FfmpegCodec::X264 => "libx264",
    }
}

fn ffmpeg_resolution_exec(label: &[char]) -> (r: FfmpegResolution)
    ensures
        r == ffmpeg_resolution(label@),
{
    if contains_str(label, "3840x2160") || contains_str(label, "4K") {
        FfmpegResolution::Uhd4k
    } else if contains_str(label, "2560x1440") || contains_str(label, "1440p") || contains_str(
        label,
        "2K",
    ) {
        FfmpegResolution::Qhd1440
    } else if contains_str(label, "1280x720") || contains_str(label, "720p") {
        FfmpegResolution::Hd720
    } else if contains_str(label, "854x480") || contains_str(label, "480p") {
        FfmpegResolution::Sd480
    } else {
        FfmpegResolution::Fhd1080
    }
}

fn resolution_size_str(r: FfmpegResolution) -> (s: &'static str)
    ensures
        s@ == resolution_size(r),
{
    match r {
        FfmpegResolution::Uhd4k => "3840x2160",
        FfmpegResolution::Qhd1440 => "2560x1440",
        FfmpegResolution::Hd720 => "1280x720",
        FfmpegResolution::Sd480 => "854x480",
        FfmpegResolution::Fhd1080 => "1920x1080",
    }
}

fn resolution_label_str(r: FfmpegResolution) -> (s: &'static str)
    ensures
        s@ == resolution_label(r),
{
    match r {
        FfmpegResolution::Uhd4k => "4K",
        FfmpegResolution::Fhd1080 => "1080p",
        FfmpegResolution::Qhd1440 => "1440p",
        FfmpegResolution::Hd720 => "720p",
        FfmpegResolution::Sd480 => "854x480",
    }
}

fn ffmpeg_input_args_exec(
    input: &str,
    duration_enabled: bool,
    duration_secs: u32,
    res: FfmpegResolution,
) -> (v: Vec<String>)
    ensures
        v.deep_view() == ffmpeg_input_args(input@, duration_enabled, duration_secs, res),
{
    let iv = chars_of(input);
    let size = resolution_size_str(res);
    let mut v: Vec<String> = Vec::new();
    if contains_str(iv.as_slice(), "Buck Bunny") || contains_str(iv.as_slice(), "Tears of Steel") {
        push_lit(&mut v, "-i");
        if contains_str(iv.as_slice(), "Buck Bunny") {
            push_lit(&mut v, "big_buck_bunny_1080p.mp4");
        } else {
            push_lit(&mut v, "tears_of_steel_1080p.mp4");
        }
        push_lit(&mut v, "-vf");
        let sv = chars_of(size);
        let scaled = replace_char_chars(sv.as_slice(), 'x', ":");
        let mut scale = string_from("scale=");
        push_chars(&mut scale, scaled.as_slice());
        push_string(&mut v, scale);
    } else {
        push_lit(&mut v, "-f");
        push_lit(&mut v, "lavfi");
        push_lit(&mut v, "-i");
        let mut src = String::new();
        if duration_enabled && duration_secs > 0 {
            push_str(&mut src, "testsrc2=duration=");
            let d = dec_string(duration_secs as u64);
            push_str(&mut src, d.as_str());
            push_str(&mut src, ":size=");
            push_str(&mut src, size);
            push_str(&mut src, ":rate=60");
        } else {
            push_str(&mut src, "testsrc2=size=");
            push_str(&mut src, size);
            push_str(&mut src, ":rate=60");
        }
        push_string(&mut v, src);
    }
    assert(v.deep_view() =~= ffmpeg_input_args(input@, duration_enabled, duration_secs, res));
    v
}

fn all_digits(s: &[char]) -> (r: bool)
    ensures
        r == (forall|i: int| 0 <= i < s@.len() ==> is_digit(#[trigger] s@[i])),
{
    let mut i: usize = 0;
    while i < s.len()
        invariant
            i <= s@.len(),
            forall|k: int| 0 <= k < i ==> is_digit(#[trigger] s@[k]),
        decreases s@.len() - i,
    {
        if !('0' <= s[i] && s[i] <= '9') {
            assert(!is_digit(s@[i as int]));
            return false;
        }
        i += 1;
    }
    true
}

fn ffmpeg_quality_args_exec(c: FfmpegCodec, crf: u32, preset: &[char]) -> (v: Vec<String>)
    ensures
        v.deep_view() == ffmpeg_quality_args(c, crf, preset@),
{
    let mut v: Vec<String> = Vec::new();
    let is_nv = match c {
        FfmpegCodec::H264Nvenc | FfmpegCodec::HevcNvenc | FfmpegCodec::Av1Nvenc => true,
        _ => false,
    };
    let is_va = match c {
        FfmpegCodec::H264Vaapi | FfmpegCodec::HevcVaapi => true,
        _ => false,
    };
    let crf_s = dec_string(crf as u64);
    if is_nv {
        push_lit(&mut v, "-cq");
        push_string(&mut v, crf_s);
        push_lit(&mut v, "-preset");
        push_lit(&mut v, "p4");
    } else if is_va {
        push_lit(&mut v, "-qp");
        push_string(&mut v, crf_s);
    } else if c == FfmpegCodec::Vp9 {
        push_lit(&mut v, "-crf");
        push_string(&mut v, crf_s);
        push_lit(&mut v, "-b:v");
        push_lit(&mut v, "0");
    } else if c == FfmpegCodec::SvtAv1 {
        push_lit(&mut v, "-crf");
        push_string(&mut v, crf_s);
        push_lit(&mut v, "-preset");
        if all_digits(preset) {
            push_string(&mut v, string_of(preset));
        } else {
            push_lit(&mut v, "6");
        }
    } else if c == FfmpegCodec::AomAv1 {
        push_lit(&mut v, "-crf");
        push_string(&mut v, crf_s);
        push_lit(&mut v, "-b:v");
        push_lit(&mut v, "0");
        push_lit(&mut v, "-cpu-used");
        push_lit(&mut v, "4");
    } else {
        push_lit(&mut v, "-crf");
        push_string(&mut v, crf_s);
        push_lit(&mut v, "-preset");
        push_string(&mut v, string_of(preset));
    }
    assert(v.deep_view() =~= ffmpeg_quality_args(c, crf, preset@));
    v
}

impl FfmpegConfig {
    /// The configuration used for every FFmpeg version: the defaults.
    pub fn for_version(_version: &str) -> (r: Self)
        ensures
            r.codec@ == "H.264 (libx264 - CPU)"@,
            r.crf == 23,
            r.preset@ == "medium"@,
            r.resolution@ == "1080p FHD (1920x1080)"@,
            r.input_source@ == "Sentetik Test Kaynağı (lavfi testsrc2)"@,
            r.duration_enabled,
            r.duration_secs == 20,
            r.threads == 0,
            r.custom_args@ == Seq::<char>::empty(),
    {
        Self::default()
    }

    /// The FFmpeg arguments, the command line shown to the user, and the preset label.
    pub fn to_run_args(&self) -> (r: (Vec<String>, String, String))
        ensures
            r.0.deep_view() == ffmpeg_args(*self),
            r.1@ == "./ffmpeg "@ + join(ffmpeg_args(*self), " "@),
            r.2@ == ffmpeg_preset_display(*self),
    {
        let lower = to_lowercase(self.codec.as_str());
        let lower_v = chars_of(lower.as_str());
        let codec = ffmpeg_codec_exec(lower_v.as_slice());
        let resv = chars_of(self.resolution.as_str());
        let res = ffmpeg_resolution_exec(resv.as_slice());
        let preset_raw = trim_str(self.preset.as_str());

        let mut args: Vec<String> = Vec::new();
        push_lit(&mut args, "-y");
        let input = ffmpeg_input_args_exec(
            self.input_source.as_str(),
            self.duration_enabled,
            self.duration_secs,
            res,
        );
        append_strings(&mut args, input);
        let is_va = match codec {
            FfmpegCodec::H264Vaapi | FfmpegCodec::HevcVaapi => true,
            _ => false,
        };
        let ghost before_vaapi = args.deep_view();
        if is_va {
            push_lit(&mut args, "-vaapi_device");
            push_lit(&mut args, "/dev/dri/renderD128");
            push_lit(&mut args, "-vf");
            push_lit(&mut args, "format=nv12,hwupload");
        }
        let ghost after_vaapi = args.deep_view();
        push_lit(&mut args, "-c:v");
        push_lit(&mut args, codec_name_str(codec));
        let quality = ffmpeg_quality_args_exec(codec, self.crf, preset_raw.as_slice());
        append_strings(&mut args, quality);
        let ghost before_threads = args.deep_view();
        if self.threads > 0 {
            push_lit(&mut args, "-threads");
            push_string(&mut args, dec_string(self.threads as u64));
        }
        let ghost after_threads = args.deep_view();
        let custom = filter_safe_custom_args(self.custom_args.as_str());
        append_strings(&mut args, custom);
        push_lit(&mut args, "-f");
        push_lit(&mut args, "null");
        push_lit(&mut args, "-");
        proof {
            let vaapi_part: Seq<Seq<char>> = if is_vaapi(codec) {
                seq!["-vaapi_device"@, "/dev/dri/renderD128"@, "-vf"@, "format=nv12,hwupload"@]
            } else {
                Seq::empty()
            };
            assert(after_vaapi =~= before_vaapi + vaapi_part);
            let threads_part: Seq<Seq<char>> = if self.threads > 0 {
                seq!["-threads"@, dec(self.threads as nat)]
            } else {
                Seq::empty()
            };
            assert(after_threads =~= before_threads + threads_part);
            assert(args.deep_view() =~= ffmpeg_args(*self));
        }

        let joined = join_strings(&args, " ");
        let mut preview = string_from("./ffmpeg ");
        push_str(&mut preview, joined.as_str());

        let mut display = string_from(resolution_label_str(res));
        push_str(&mut display, " ");
        push_str(&mut display, codec_name_str(codec));
        push_str(&mut display, " (CRF ");
        let crf_s = dec_string(self.crf as u64);
        push_str(&mut display, crf_s.as_str());
        push_str(&mut display, ", ");
        push_chars(&mut display, preset_raw.as_slice());
        push_str(&mut display, ")");
        (args, preview, display)
    }
}


// ---------------------------------------------------------------------------
// 7-Zip
// ---------------------------------------------------------------------------

/// 7-Zip benchmark settings.
#[derive(Debug, Clone, PartialEq, Eq)]
pub struct SevenZipConfig {
    pub threads: u32,
    pub dict_size: String,
    pub passes: u32,
    pub custom_args: String,
}

impl Default for SevenZipConfig {
    fn default() -> (r: Self)
        ensures
            r.threads == 0,
            r.dict_size@ == "32MB (Varsayılan)"@,
            r.passes == 1,
            r.custom_args@ == Seq::<char>::empty(),
    {
        SevenZipConfig {
            threads: 0,
            dict_size: string_from("32MB (Varsayılan)"),
            passes: 1,
            custom_args: String::new(),
        }
    }
}

/// Dictionary size (in MB) that a dictionary label selects; the first rule that matches wins.
pub open spec fn seven_zip_dict_mb(label: Seq<char>) -> nat {
    if contains(label, "64"@) {
        64
    } else if contains(label, "128"@) {
        128
    } else if contains(label, "256"@) {
        256
    } else if contains(label, "512"@) {
        512
    } else if contains(label, "1024"@) || contains(label, "1 GB"@) || contains(label, "1GB"@) {
        1024
    } else {
        32
    }
}

/// The dictionary value as 7-Zip writes it (`64m`).
pub open spec fn seven_zip_dict_value(label: Seq<char>) -> Seq<char> {
    dec(seven_zip_dict_mb(label)) + "m"@
}

/// The complete 7-Zip argument list of a configuration.
pub open spec fn seven_zip_args(cfg: SevenZipConfig) -> Seq<Seq<char>> {
    seq!["b"@] + (if cfg.threads > 0 {
        seq!["-mmt="@ + dec(cfg.threads as nat)]
    } else {
        Seq::empty()
    }) + seq!["-md="@ + seven_zip_dict_value(cfg.dict_size@)] + (if cfg.passes > 1 {
        seq![dec(cfg.passes as nat)]
    } else {
        Seq::empty()
    }) + safe_args(words(cfg.custom_args@))
}

/// The label of a 7-Zip configuration: threads, dictionary and passes.
pub open spec fn seven_zip_preset_display(cfg: SevenZipConfig) -> Seq<char> {
    "7z ("@ + (if cfg.threads == 0 {
        "Auto"@
    } else {
        dec(cfg.threads as nat)
    }) + "T, "@ + seven_zip_dict_value(cfg.dict_size@) + " Dict, "@ + dec(cfg.passes as nat)
        + "p)"@
}

fn seven_zip_dict_value_exec(label: &str) -> (s: String)
    ensures
        s@ == seven_zip_dict_value(label@),
{
    let lv = chars_of(label);
    let l = lv.as_slice();
    let mb: u64 = if contains_str(l, "64") {
        64
    } else if contains_str(l, "128") {
        128
    } else if contains_str(l, "256") {
        256
    } else if contains_str(l, "512") {
        512
    } else if contains_str(l, "1024") || contains_str(l, "1 GB") || contains_str(l, "1GB") {
        1024
    } else {
        32
    };
    let mut s = dec_string(mb);
    push_str(&mut s, "m");
    s
}

impl SevenZipConfig {
    /// The 7-Zip arguments, the command line shown to the user, and the preset label.
    pub fn to_run_args(&self) -> (r: (Vec<String>, String, String))
        ensures
            r.0.deep_view() == seven_zip_args(*self),
            r.1@ == "./7zz "@ + join(seven_zip_args(*self), " "@),
            r.2@ == seven_zip_preset_display(*self),
    {
        let mut args: Vec<String> = Vec::new();
        push_lit(&mut args, "b");
        let ghost a0 = args.deep_view();
        if self.threads > 0 {
            let mut t = string_from("-mmt=");
            let d = dec_string(self.threads as u64);
            push_str(&mut t, d.as_str());
            push_string(&mut args, t);
        }
        let ghost a1 = args.deep_view();
        let dict_value = seven_zip_dict_value_exec(self.dict_size.as_str());
        let mut flag = string_from("-md=");
        push_str(&mut flag, dict_value.as_str());
        push_string(&mut args, flag);
        let ghost a2 = args.deep_view();
        if self.passes > 1 {
            push_string(&mut args, dec_string(self.passes as u64));
        }
        let ghost a3 = args.deep_view();
        let custom = filter_safe_custom_args(self.custom_args.as_str());
        append_strings(&mut args, custom);
        proof {
            let tp: Seq<Seq<char>> = if self.threads > 0 {
                seq!["-mmt="@ + dec(self.threads as nat)]
            } else {
                Seq::empty()
            };
            assert(a1 =~= a0 + tp);
            let pp: Seq<Seq<char>> = if self.passes > 1 {
                seq![dec(self.passes as nat)]
            } else {
                Seq::empty()
            };
            assert(a3 =~= a2 + pp);
            assert(args.deep_view() =~= seven_zip_args(*self));
        }
        let joined = join_strings(&args, " ");
        let mut preview = string_from("./7zz ");
        push_str(&mut preview, joined.as_str());

        let mut display = string_from("7z (");
        if self.threads == 0 {
            push_str(&mut display, "Auto");
        } else {
            let d = dec_string(self.threads as u64);
            push_str(&mut display, d.as_str());
        }
        push_str(&mut display, "T, ");
        push_str(&mut display, dict_value.as_str());
        push_str(&mut display, " Dict, ");
        let p = dec_string(self.passes as u64);
        push_str(&mut display, p.as_str());
        push_str(&mut display, "p)");
        (args, preview, display)
    }
}

/// The decimal texts of the dictionary sizes 7-Zip is given.
proof fn lemma_dict_size_digits()
    ensures
        dec(32) == "32"@,
        dec(64) == "64"@,
        dec(128) == "128"@,
        dec(256) == "256"@,
        dec(512) == "512"@,
        dec(1024) == "1024"@,
{
    reveal_with_fuel(dec, 5);
    reveal_strlit("32");
    reveal_strlit("64");
    reveal_strlit("128");
    reveal_strlit("256");
    reveal_strlit("512");
    reveal_strlit("1024");
    assert(dec(32) =~= "32"@);
    assert(dec(64) =~= "64"@);
    assert(dec(12) =~= seq!['1', '2']);
    assert(dec(128) =~= "128"@);
    assert(dec(25) =~= seq!['2', '5']);
    assert(dec(256) =~= "256"@);
    assert(dec(51) =~= seq!['5', '1']);
    assert(dec(512) =~= "512"@);
    assert(dec(10) =~= seq!['1', '0']);
    assert(dec(102) =~= seq!['1', '0', '2']);
    assert(dec(1024) =~= "1024"@);
}

/// The 7-Zip dictionary flag names the size in MB that the dictionary label
/// names: 64, 128, 256, 512 or 1024 (also written "1 GB" or "1GB"), the first of
/// these that the label names, and 32 when it names none. The flag follows "b"
/// and the thread count, when one is given.
pub proof fn lemma_seven_zip_dict_flag_names_label_size(cfg: SevenZipConfig)
    ensures
        ({
            let label = cfg.dict_size@;
            let flag = seven_zip_args(cfg)[if cfg.threads > 0 {
                2int
            } else {
                1int
            }];
            &&& contains(label, "64"@) ==> flag == "-md=64m"@
            &&& !contains(label, "64"@) && contains(label, "128"@) ==> flag == "-md=128m"@
            &&& !contains(label, "64"@) && !contains(label, "128"@) && contains(label, "256"@) ==> flag
                == "-md=256m"@
            &&& !contains(label, "64"@) && !contains(label, "128"@) && !contains(label, "256"@)
                && contains(label, "512"@) ==> flag == "-md=512m"@
            &&& !contains(label, "64"@) && !contains(label, "128"@) && !contains(label, "256"@)
                && !contains(label, "512"@) && (contains(label, "1024"@) || contains(label, "1 GB"@)
                || contains(label, "1GB"@)) ==> flag == "-md=1024m"@
            &&& !contains(label, "64"@) && !contains(label, "128"@) && !contains(label, "256"@)
                && !contains(label, "512"@) && !contains(label, "1024"@) && !contains(label, "1 GB"@)
                && !contains(label, "1GB"@) ==> flag == "-md=32m"@
        }),
{
    lemma_dict_size_digits();
    reveal_strlit("32");
    reveal_strlit("64");
    reveal_strlit("128");
    reveal_strlit("256");
    reveal_strlit("512");
    reveal_strlit("1024");
    reveal_strlit("-md=");
    reveal_strlit("m");
    reveal_strlit("-md=32m");
    reveal_strlit("-md=64m");
    reveal_strlit("-md=128m");
    reveal_strlit("-md=256m");
    reveal_strlit("-md=512m");
    reveal_strlit("-md=1024m");
    let tp: Seq<Seq<char>> = if cfg.threads > 0 {
        seq!["-mmt="@ + dec(cfg.threads as nat)]
    } else {
        Seq::empty()
    };
    let v = "-md="@ + seven_zip_dict_value(cfg.dict_size@);
    let i: int = if cfg.threads > 0 {
        2
    } else {
        1
    };
    assert(seven_zip_args(cfg)[i] == v);
    let label = cfg.dict_size@;
    assert(v =~= "-md="@ + dec(seven_zip_dict_mb(label)) + "m"@);
    if contains(label, "64"@) {
        assert(seven_zip_dict_mb(label) == 64);
        assert(v == "-md="@ + "64"@ + "m"@);
        assert("-md="@ + "64"@ + "m"@ =~= "-md=64m"@);
    } else if contains(label, "128"@) {
        assert(seven_zip_dict_mb(label) == 128);
        assert(v == "-md="@ + "128"@ + "m"@);
        assert("-md="@ + "128"@ + "m"@ =~= "-md=128m"@);
    } else if contains(label, "256"@) {
        assert(seven_zip_dict_mb(label) == 256);
        assert(v == "-md="@ + "256"@ + "m"@);
        assert("-md="@ + "256"@ + "m"@ =~= "-md=256m"@);
    } else if contains(label, "512"@) {
        assert(seven_zip_dict_mb(label) == 512);
        assert(v == "-md="@ + "512"@ + "m"@);
        assert("-md="@ + "512"@ + "m"@ =~= "-md=512m"@);
    } else if contains(label, "1024"@) || contains(label, "1 GB"@) || contains(label, "1GB"@) {
        assert(seven_zip_dict_mb(label) == 1024);
        assert(v == "-md="@ + "1024"@ + "m"@);
        assert("-md="@ + "1024"@ + "m"@ =~= "-md=1024m"@);
    } else {
        assert(seven_zip_dict_mb(label) == 32);
        assert(v == "-md="@ + "32"@ + "m"@);
        assert("-md="@ + "32"@ + "m"@ =~= "-md=32m"@);
    }
}

// ---------------------------------------------------------------------------
// Unigine (Heaven and Superposition)
// ---------------------------------------------------------------------------

/// Unigine benchmark settings.
#[derive(Debug, Clone, PartialEq, Eq)]
pub struct UnigineConfig {
    pub preset: String,
    pub custom_args: String,
}

impl Default for UnigineConfig {
    fn default() -> (r: Self)
        ensures
            r.preset@ == "1080p Extreme"@,
            r.custom_args@ == Seq::<char>::empty(),
    {
        UnigineConfig { preset: string_from("1080p Extreme"), custom_args: String::new() }
    }
}

/// Whether a version label names Unigine Heaven (otherwise Superposition is meant).
pub open spec fn is_heaven(version: Seq<char>) -> bool {
    contains(version, "Heaven"@)
}

/// Heaven's fixed arguments.
pub open spec fn heaven_base_args() -> Seq<Seq<char>> {
    seq![
        "-data_path"@,
        "../"@,
        "-sound_app"@,
        "null"@,
        "-engine_config"@,
        "../data/heaven_4.0.cfg"@,
        "-system_script"@,
        "heaven/unigine.cpp"@,
        "-video_mode"@,
        "-1"@,
        "-extern_define"@,
        "PHORONIX,RELEASE"@,
        "-video_app"@,
        "opengl"@,
        "-video_fullscreen"@,
        "1"@,
    ]
}

/// Heaven's video size arguments: 720p for the basic presets, else 1080p.
pub open spec fn heaven_size_args(preset: Seq<char>) -> Seq<Seq<char>> {
    if contains(preset, "720p"@) || contains(preset, "Basic"@) {
        seq!["-video_width"@, "1280"@, "-video_height"@, "720"@]
    } else {
        seq!["-video_width"@, "1920"@, "-video_height"@, "1080"@]
    }
}

/// Superposition's width, height and preset number for a preset label.
pub open spec fn superposition_mode(preset: Seq<char>) -> (Seq<char>, Seq<char>, Seq<char>) {
    if contains(preset, "8K"@) {
        ("7680"@, "4320"@, "6"@)
    } else if contains(preset, "4K"@) {
        ("3840"@, "2160"@, "5"@)
    } else if contains(preset, "720p"@) || contains(preset, "Low"@) {
        ("1280"@, "720"@, "1"@)
    } else if contains(preset, "Medium"@) {
        ("1920"@, "1080"@, "2"@)
    } else if contains(preset, "High"@) {
        ("1920"@, "1080"@, "3"@)
    } else {
        ("1920"@, "1080"@, "4"@)
    }
}

/// Superposition's arguments for a preset label.
pub open spec fn superposition_args(preset: Seq<char>) -> Seq<Seq<char>> {
    let (w, h, p) = superposition_mode(preset);
    seq![
        "-sound_app"@,
        "openal"@,
        "-system_script"@,
        "superposition/system_script.cpp"@,
        "-data_path"@,
        "../"@,
        "-engine_config"@,
        "../data/superposition/unigine.cfg"@,
        "-video_width"@,
        w,
        "-video_height"@,
        h,
        "-video_mode"@,
        "-1"@,
        "-project_name"@,
        "Superposition"@,
        "-video_resizable"@,
        "1"@,
        "-console_command"@,
        "config_readonly 1 && world_load superposition/superposition"@,
        "-mode"@,
        "2"@,
        "-preset"@,
        p,
    ]
}

/// The complete Unigine argument list of a configuration for a version.
pub open spec fn unigine_args(cfg: UnigineConfig, version: Seq<char>) -> Seq<Seq<char>> {
    (if is_heaven(version) {
        heaven_base_args() + heaven_size_args(cfg.preset@)
    } else {
        superposition_args(cfg.preset@)
    }) + safe_args(words(cfg.custom_args@))
}

/// Superposition runs the quality preset and resolution that the preset label
/// names: 8K Optimized (6, 7680x4320), 4K Optimized (5, 3840x2160), 720p Low
/// (1, 1280x720), 1080p Medium (2), 1080p High (3) and otherwise 1080p Extreme
/// (4), the first of these that the label names; distinct quality levels get
/// distinct preset numbers.
pub proof fn lemma_superposition_preset_named_by_label(cfg: UnigineConfig, version: Seq<char>)
    requires
        !is_heaven(version),
    ensures
        ({
            let a = unigine_args(cfg, version);
            let p = cfg.preset@;
            &&& a[8] == "-video_width"@ && a[10] == "-video_height"@ && a[22] == "-preset"@
            &&& contains(p, "8K"@) ==> a[9] == "7680"@ && a[11] == "4320"@ && a[23] == "6"@
            &&& !contains(p, "8K"@) && contains(p, "4K"@) ==> a[9] == "3840"@ && a[11] == "2160"@ && a[23]
                == "5"@
            &&& !contains(p, "8K"@) && !contains(p, "4K"@) && (contains(p, "720p"@) || contains(p, "Low"@))
                ==> a[9] == "1280"@ && a[11] == "720"@ && a[23] == "1"@
            &&& !contains(p, "8K"@) && !contains(p, "4K"@) && !contains(p, "720p"@) && !contains(p, "Low"@)
                && contains(p, "Medium"@) ==> a[9] == "1920"@ && a[11] == "1080"@ && a[23] == "2"@
            &&& !contains(p, "8K"@) && !contains(p, "4K"@) && !contains(p, "720p"@) && !contains(p, "Low"@)
                && !contains(p, "Medium"@) && contains(p, "High"@) ==> a[9] == "1920"@ && a[11] == "1080"@
                && a[23] == "3"@
            &&& !contains(p, "8K"@) && !contains(p, "4K"@) && !contains(p, "720p"@) && !contains(p, "Low"@)
                && !contains(p, "Medium"@) && !contains(p, "High"@) ==> a[9] == "1920"@ && a[11] == "1080"@
                && a[23] == "4"@
        }),
{
    let a = unigine_args(cfg, version);
    let s = superposition_args(cfg.preset@);
    assert(s.len() == 24);
    assert(forall|i: int| 0 <= i < 24 ==> a[i] == s[i]);
}

/// The launcher of each Unigine benchmark.
pub open spec fn unigine_command(version: Seq<char>) -> Seq<char> {
    if is_heaven(version) {
        "./heaven_x64"@
    } else {
        "./superposition"@
    }
}

fn unigine_base_args_exec(preset: &str, heaven: bool) -> (v: Vec<String>)
    ensures
        heaven ==> v.deep_view() == heaven_base_args() + heaven_size_args(preset@),
        !heaven ==> v.deep_view() == superposition_args(preset@),
{
    let pv = chars_of(preset);
    let p = pv.as_slice();
    let mut v: Vec<String> = Vec::new();
    if heaven {
        push_lit(&mut v, "-data_path");
        push_lit(&mut v, "../");
        push_lit(&mut v, "-sound_app");
        push_lit(&mut v, "null");
        push_lit(&mut v, "-engine_config");
        push_lit(&mut v, "../data/heaven_4.0.cfg");
        push_lit(&mut v, "-system_script");
        push_lit(&mut v, "heaven/unigine.cpp");
        push_lit(&mut v, "-video_mode");
        push_lit(&mut v, "-1");
        push_lit(&mut v, "-extern_define");
        push_lit(&mut v, "PHORONIX,RELEASE");
        push_lit(&mut v, "-video_app");
        push_lit(&mut v, "opengl");
        push_lit(&mut v, "-video_fullscreen");
        push_lit(&mut v, "1");
        if contains_str(p, "720p") || contains_str(p, "Basic") {
            push_lit(&mut v, "-video_width");
            push_lit(&mut v, "1280");
            push_lit(&mut v, "-video_height");
            push_lit(&mut v, "720");
        } else {
            push_lit(&mut v, "-video_width");
            push_lit(&mut v, "1920");
            push_lit(&mut v, "-video_height");
            push_lit(&mut v, "1080");
        }
        assert(v.deep_view() =~= heaven_base_args() + heaven_size_args(preset@));
    } else {
        let (w, h, n): (&str, &str, &str) = if contains_str(p, "8K") {
            ("7680", "4320", "6")
        } else if contains_str(p, "4K") {
            ("3840", "2160", "5")
        } else if contains_str(p, "720p") || contains_str(p, "Low") {
            ("1280", "720", "1")
        } else if contains_str(p, "Medium") {
            ("1920", "1080", "2")
        } else if contains_str(p, "High") {
            ("1920", "1080", "3")
        } else {
            ("1920", "1080", "4")
        };
        assert((w@, h@, n@) == superposition_mode(preset@));
        push_lit(&mut v, "-sound_app");
        push_lit(&mut v, "openal");
        push_lit(&mut v, "-system_script");
        push_lit(&mut v, "superposition/system_script.cpp");
        push_lit(&mut v, "-data_path");
        push_lit(&mut v, "../");
        push_lit(&mut v, "-engine_config");
        push_lit(&mut v, "../data/superposition/unigine.cfg");
        push_lit(&mut v, "-video_width");
        push_lit(&mut v, w);
        push_lit(&mut v, "-video_height");
        push_lit(&mut v, h);
        push_lit(&mut v, "-video_mode");
        push_lit(&mut v, "-1");
        push_lit(&mut v, "-project_name");
        push_lit(&mut v, "Superposition");
        push_lit(&mut v, "-video_resizable");
        push_lit(&mut v, "1");
        push_lit(&mut v, "-console_command");
        push_lit(&mut v, "config_readonly 1 && world_load superposition/superposition");
        push_lit(&mut v, "-mode");
        push_lit(&mut v, "2");
        push_lit(&mut v, "-preset");
        push_lit(&mut v, n);
        assert(v.deep_view() =~= superposition_args(preset@));
    }
    v
}

impl UnigineConfig {
    /// The default configuration of a Unigine version: Heaven's and Superposition's
    /// presets are named differently.
    pub fn for_version(version: &str) -> (r: Self)
        ensures
            r.preset@ == (if is_heaven(version@) {
                "Extreme (1080p)"@
            } else {
                "1080p Extreme"@
            }),
            r.custom_args@ == Seq::<char>::empty(),
    {
        let preset = if str_contains(version, "Heaven") {
            string_from("Extreme (1080p)")
        } else {
            string_from("1080p Extreme")
        };
        UnigineConfig { preset, custom_args: String::new() }
    }

    /// The Unigine arguments, the command line shown to the user, and the preset label.
    pub fn to_run_args(&self, version: &str) -> (r: (Vec<String>, String, String))
        ensures
            r.0.deep_view() == unigine_args(*self, version@),
            r.1@ == unigine_command(version@) + " "@ + join(unigine_args(*self, version@), " "@),
            r.2@ == version@ + " ("@ + self.preset@ + ")"@,
    {
        let heaven = str_contains(version, "Heaven");
        let mut args = unigine_base_args_exec(self.preset.as_str(), heaven);
        let custom = filter_safe_custom_args(self.custom_args.as_str());
        append_strings(&mut args, custom);
        assert(args.deep_view() =~= unigine_args(*self, version@));
        let joined = join_strings(&args, " ");
        let mut preview = if heaven {
            string_from("./heaven_x64")
        } else {
            string_from("./superposition")
        };
        push_str(&mut preview, " ");
        push_str(&mut preview, joined.as_str());
        let mut display = string_from(version);
        push_str(&mut display, " (");
        push_str(&mut display, self.preset.as_str());
        push_str(&mut display, ")");
        (args, preview, display)
    }
}

/// Per-benchmark overrides chosen by the user.
#[derive(Debug, Clone, PartialEq, Eq, Default)]
pub struct BenchmarkCustomConfig {
    pub benchmark_id: String,
    pub ffmpeg: Option<FfmpegConfig>,
    pub seven_zip: Option<SevenZipConfig>,
    pub unigine: Option<UnigineConfig>,
    pub custom_args: String,
    pub timeout_secs: Option<u64>,
    pub effective_run_args: Option<Vec<String>>,
    pub custom_preset_name: Option<String>,
}

// ---------------------------------------------------------------------------
// Benchmark time limits
// ---------------------------------------------------------------------------

/// The time limit a label selects: `None` follows the global setting, `Some(0)` is
/// unlimited; the first rule that matches wins.
pub open spec fn bench_duration_of(label: Seq<char>) -> Option<u64> {
    if contains(label, "Varsayılan"@) || contains(label, "Default"@) {
        None
    } else if contains(label, "Sınırsız"@) || contains(label, "Unlimited"@) {
        Some(0)
    } else if contains(label, "600"@) {
        Some(600)
    } else if contains(label, "300"@) {
        Some(300)
    } else if contains(label, "180"@) {
        Some(180)
    } else if contains(label, "120"@) {
        Some(120)
    } else if contains(label, "60"@) {
        Some(60)
    } else if contains(label, "30"@) {
        Some(30)
    } else {
        None
    }
}

/// The label of a time limit, in English when `is_en`, else in Turkish.
pub open spec fn bench_duration_label(opt: Option<u64>, is_en: bool) -> Seq<char> {
    match opt {
        None => if is_en {
            "Default (Global Setting)"@
        } else {
            "Varsayılan (Genel Ayar)"@
        },
        Some(secs) => if secs == 0 {
            if is_en {
                "Unlimited (No Limit)"@
            } else {
                "Sınırsız (Limit Yok)"@
            }
        } else if secs == 30 {
            if is_en {
                "30 seconds"@
            } else {
                "30 saniye"@
            }
        } else if secs == 60 {
            if is_en {
                "60 seconds (1 min)"@
            } else {
                "60 saniye (1 dk)"@
            }
        } else if secs == 120 {
            if is_en {
                "120 seconds (2 min)"@
            } else {
                "120 saniye (2 dk)"@
            }
        } else if secs == 180 {
            if is_en {
                "180 seconds (3 min)"@
            } else {
                "180 saniye (3 dk)"@
            }
        } else if secs == 300 {
            if is_en {
                "300 seconds (5 min)"@
            } else {
                "300 saniye (5 dk)"@
            }
        } else if secs == 600 {
            if is_en {
                "600 seconds (10 min)"@
            } else {
                "600 saniye (10 dk)"@
            }
        } else if is_en {
            dec(secs as nat) + " seconds"@
        } else {
            dec(secs as nat) + " saniye"@
        },
    }
}

/// Reading back the label of a listed time limit, or of the default, in either
/// language, gives the same choice.
pub proof fn lemma_bench_duration_round_trip(opt: Option<u64>, is_en: bool)
    requires
        opt matches Some(secs) ==> (secs == 0 || secs == 30 || secs == 60 || secs == 120 || secs
            == 180 || secs == 300 || secs == 600),
    ensures
        bench_duration_of(bench_duration_label(opt, is_en)) == opt,
{
    reveal_strlit("Varsayılan");
    reveal_strlit("Default");
    reveal_strlit("Sınırsız");
    reveal_strlit("Unlimited");
    reveal_strlit("600");
    reveal_strlit("300");
    reveal_strlit("180");
    reveal_strlit("120");
    reveal_strlit("60");
    reveal_strlit("30");
    let l = bench_duration_label(opt, is_en);
    match opt {
        None => {
            reveal_strlit("Default (Global Setting)");
            reveal_strlit("Varsayılan (Genel Ayar)");
            if is_en {
                lemma_contains_at(l, "Default"@, 0);
            } else {
                lemma_contains_at(l, "Varsayılan"@, 0);
            }
        },
        Some(secs) => {
            reveal_strlit("Unlimited (No Limit)");
            reveal_strlit("Sınırsız (Limit Yok)");
            reveal_strlit("30 seconds");
            reveal_strlit("30 saniye");
            reveal_strlit("60 seconds (1 min)");
            reveal_strlit("60 saniye (1 dk)");
            reveal_strlit("120 seconds (2 min)");
            reveal_strlit("120 saniye (2 dk)");
            reveal_strlit("180 seconds (3 min)");
            reveal_strlit("180 saniye (3 dk)");
            reveal_strlit("300 seconds (5 min)");
            reveal_strlit("300 saniye (5 dk)");
            reveal_strlit("600 seconds (10 min)");
            reveal_strlit("600 saniye (10 dk)");
            lemma_absent_prefix(l, "Varsayılan"@, 1);
            lemma_absent_prefix(l, "Default"@, 1);
            if secs == 0 {
                if is_en {
                    lemma_contains_at(l, "Unlimited"@, 0);
                } else {
                    lemma_contains_at(l, "Sınırsız"@, 0);
                }
            } else {
                lemma_absent_prefix(l, "Sınırsız"@, 1);
                lemma_absent_prefix(l, "Unlimited"@, 1);
                if secs == 600 {
                    lemma_contains_at(l, "600"@, 0);
                } else if secs == 300 {
                    lemma_absent_prefix(l, "600"@, 1);
                    lemma_contains_at(l, "300"@, 0);
                } else if secs == 180 {
                    lemma_absent_prefix(l, "600"@, 1);
                    lemma_absent_prefix(l, "300"@, 2);
                    lemma_contains_at(l, "180"@, 0);
                } else if secs == 120 {
                    lemma_absent_prefix(l, "600"@, 1);
                    lemma_absent_prefix(l, "300"@, 1);
                    lemma_absent_prefix(l, "180"@, 2);
                    lemma_contains_at(l, "120"@, 0);
                } else if secs == 60 {
                    lemma_absent_prefix(l, "600"@, 3);
                    lemma_absent_prefix(l, "300"@, 1);
                    lemma_absent_prefix(l, "180"@, 2);
                    lemma_absent_prefix(l, "120"@, 2);
                    lemma_contains_at(l, "60"@, 0);
                } else {
                    lemma_absent_prefix(l, "600"@, 1);
                    lemma_absent_prefix(l, "300"@, 3);
                    lemma_absent_prefix(l, "180"@, 1);
                    lemma_absent_prefix(l, "120"@, 1);
                    lemma_absent_prefix(l, "60"@, 1);
                    lemma_contains_at(l, "30"@, 0);
                }
            }
        },
    }
}

/// Reads a time-limit label back into a limit.
pub fn parse_bench_duration(val: &str) -> (r: Option<u64>)
    ensures
        r == bench_duration_of(val@),
{
    let v = chars_of(val);
    let s = v.as_slice();
    if contains_str(s, "Varsayılan") || contains_str(s, "Default") {
        None
    } else if contains_str(s, "Sınırsız") || contains_str(s, "Unlimited") {
        Some(0)
    } else if contains_str(s, "600") {
        Some(600)
    } else if contains_str(s, "300") {
        Some(300)
    } else if contains_str(s, "180") {
        Some(180)
    } else if contains_str(s, "120") {
        Some(120)
    } else if contains_str(s, "60") {
        Some(60)
    } else if contains_str(s, "30") {
        Some(30)
    } else {
        None
    }
}

/// The label of a time limit in the language `lang` (`"en"` for English, else Turkish).
pub fn format_bench_duration(opt: Option<u64>, lang: &str) -> (r: String)
    ensures
        r@ == bench_duration_label(opt, lang@ == "en"@),
{
    let is_en = str_is(lang, "en");
    match opt {
        None => if is_en {
            string_from("Default (Global Setting)")
        } else {
            string_from("Varsayılan (Genel Ayar)")
        },
        Some(secs) => if secs == 0 {
            if is_en {
                string_from("Unlimited (No Limit)")
            } else {
                string_from("Sınırsız (Limit Yok)")
            }
        } else if secs == 30 {
            if is_en {
                string_from("30 seconds")
            } else {
                string_from("30 saniye")
            }
        } else if secs == 60 {
            if is_en {
                string_from("60 seconds (1 min)")
            } else {
                string_from("60 saniye (1 dk)")
            }
        } else if secs == 120 {
            if is_en {
                string_from("120 seconds (2 min)")
            } else {
                string_from("120 saniye (2 dk)")
            }
        } else if secs == 180 {
            if is_en {
                string_from("180 seconds (3 min)")
            } else {
                string_from("180 saniye (3 dk)")
            }
        } else if secs == 300 {
            if is_en {
                string_from("300 seconds (5 min)")
            } else {
                string_from("300 saniye (5 dk)")
            }
        } else if secs == 600 {
            if is_en {
                string_from("600 seconds (10 min)")
            } else {
                string_from("600 saniye (10 dk)")
            }
        } else {
            let mut s = dec_string(secs);
            if is_en {
                push_str(&mut s, " seconds");
            } else {
                push_str(&mut s, " saniye");
            }
            s
        },
    }
}

// ---------------------------------------------------------------------------
// Settings form fields
// ---------------------------------------------------------------------------

/// The digits of an unsigned number as `u32::from_str` reads it: an optional `+`
/// and then only ASCII digits.
pub open spec fn unsigned_digits(s: Seq<char>) -> Seq<char> {
    if s.len() > 0 && s[0] == '+' {
        s.drop_first()
    } else {
        s
    }
}

/// The value of a text field read as a `u32` (`str::parse::<u32>`): `None` when it
/// is empty, holds anything but digits after an optional `+`, or overflows.
pub open spec fn u32_field(s: Seq<char>) -> Option<u32> {
    let ds = unsigned_digits(s);
    if ds.len() > 0 && (forall|i: int| 0 <= i < ds.len() ==> is_digit(#[trigger] ds[i])) && dec_value(ds)
        <= u32::MAX {
        Some(dec_value(ds) as u32)
    } else {
        None
    }
}

fn parse_u32_chars(s: &[char]) -> (r: Option<u32>)
    ensures
        r == u32_field(s@),
{
    let n = s.len();
    let start: usize = if n > 0 && s[0] == '+' {
        1
    } else {
        0
    };
    let ghost ds = unsigned_digits(s@);
    assert(ds =~= s@.skip(start as int));
    if start == n {
        return None;
    }
    let mut value: u64 = 0;
    let mut overflow = false;
    let mut j: usize = start;
    while j < n
        invariant
            n == s@.len(),
            start < n,
            ds == unsigned_digits(s@),
            ds =~= s@.skip(start as int),
            start <= j <= n,
            forall|k: int| start <= k < j ==> is_digit(#[trigger] s@[k]),
            !overflow ==> value as nat == dec_value(s@.subrange(start as int, j as int)) && value
                <= u32::MAX,
            overflow ==> dec_value(s@.subrange(start as int, j as int)) > u32::MAX,
        decreases n - j,
    {
        let c = s[j];
        if !('0' <= c && c <= '9') {
            assert(ds[j - start] == c);
            assert(!is_digit(ds[j - start]));
            return None;
        }
        let d: u64 = (c as u32 - 48) as u64;
        let ghost prev = s@.subrange(start as int, j as int);
        assert(s@.subrange(start as int, j + 1).drop_last() =~= prev);
        assert(s@.subrange(start as int, j + 1).last() == c);
        if !overflow {
            if value * 10 + d > 4294967295 {
                overflow = true;
            } else {
                value = value * 10 + d;
            }
        } else {
            assert(dec_value(prev) * 10 + d >= dec_value(prev)) by (nonlinear_arith);
        }
        j += 1;
    }
    assert(s@.subrange(start as int, n as int) =~= ds);
    assert forall|i: int| 0 <= i < ds.len() implies is_digit(#[trigger] ds[i]) by {
        assert(ds[i] == s@[start + i]);
    }
    if overflow {
        None
    } else {
        Some(value as u32)
    }
}

/// A text field read as a `u32` (`str::parse::<u32>`).
pub fn parse_u32_field(s: &str) -> (r: Option<u32>)
    ensures
        r == u32_field(s@),
{
    let v = chars_of(s);
    parse_u32_chars(v.as_slice())
}

/// The CRF field of the FFmpeg settings: its number (23 when unreadable), limited
/// to 0..=51.
pub fn ffmpeg_crf_from_field(s: &str) -> (r: u32)
    ensures
        r == match u32_field(s@) {
            Some(n) => if n > 51 {
                51
            } else {
                n
            },
            None => 23,
        },
{
    match parse_u32_field(s) {
        Some(n) => if n > 51 {
            51
        } else {
            n
        },
        None => 23,
    }
}

/// A thread-count field: its number (0, automatic, when unreadable), at most 128.
pub fn thread_count_from_field(s: &str) -> (r: u32)
    ensures
        r == match u32_field(s@) {
            Some(n) => if n > 128 {
                128
            } else {
                n
            },
            None => 0,
        },
{
    match parse_u32_field(s) {
        Some(n) => if n > 128 {
            128
        } else {
            n
        },
        None => 0,
    }
}

/// The passes field of the 7-Zip settings: its number (1 when unreadable),
/// limited to 1..=50.
pub fn seven_zip_passes_from_field(s: &str) -> (r: u32)
    ensures
        r == match u32_field(s@) {
            Some(n) => if n < 1 {
                1
            } else if n > 50 {
                50
            } else {
                n
            },
            None => 1,
        },
{
    match parse_u32_field(s) {
        Some(n) => if n < 1 {
            1
        } else if n > 50 {
            50
        } else {
            n
        },
        None => 1,
    }
}

/// The FFmpeg test length chosen: a full-length ("Süresiz" or "Tam") choice turns
/// the limit off; otherwise the leading number of the choice, 20 when unreadable.
pub open spec fn ffmpeg_duration_choice(s: Seq<char>) -> (bool, u32) {
    if contains(s, "Süresiz"@) || contains(s, "Tam"@) {
        (false, 0)
    } else {
        (true, match u32_field(crate::config::digit_prefix(s)) {
            Some(n) => n,
            None => 20,
        })
    }
}

/// Whether the FFmpeg test length is limited, and to how many seconds.
pub fn ffmpeg_duration_from_choice(s: &str) -> (r: (bool, u32))
    ensures
        r == ffmpeg_duration_choice(s@),
{
    let v = chars_of(s);
    if contains_str(v.as_slice(), "Süresiz") || contains_str(v.as_slice(), "Tam") {
        return (false, 0);
    }
    let mut k: usize = 0;
    while k < v.len() && '0' <= v[k] && v[k] <= '9'
        invariant
            k <= v@.len(),
            forall|i: int| 0 <= i < k ==> is_digit(#[trigger] v@[i]),
        decreases v@.len() - k,
    {
        k += 1;
    }
    let mut digits: Vec<char> = Vec::new();
    let mut j: usize = 0;
    while j < k
        invariant
            k <= v@.len(),
            j <= k,
            digits@ == v@.take(j as int),
        decreases k - j,
    {
        digits.push(v[j]);
        assert(v@.take(j + 1) =~= v@.take(j as int).push(v@[j as int]));
        j += 1;
    }
    proof {
        crate::config::lemma_digit_prefix_take(v@, k as int);
    }
    match parse_u32_chars(digits.as_slice()) {
        Some(n) => (true, n),
        None => (true, 20),
    }
}

} // verus!
