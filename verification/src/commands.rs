//! The command lines of the helper applications that mux, copy, decrypt and concatenate media
//! streams (ffmpeg, VLC, MP4Box, mkvmerge, shaka-packager, and the containers that run some of
//! them), and the files they read.

use vstd::prelude::*;
use crate::DashMpdError;
use crate::digits::{decimal, decimal_chars};
use crate::media::{AudioTrack, spec_ffmpeg_container_name, ffmpeg_container_name};
use crate::messages::{views, push_msg};
use crate::text::{str_eq, contains_str, contains_seq, push_str, push_chars};

verus! {

/// The strings as sequences of characters.
pub open spec fn strs(names: Seq<&str>) -> Seq<Seq<char>> {
    names.map_values(|s: &str| s@)
}

/// Appends the strings to the arguments.
fn push_all(args: &mut Vec<String>, items: &[&str])
    ensures
        views(final(args)@) == views(old(args)@) + strs(items@),
{
    let mut i: usize = 0;
    let ghost start = views(args@);
    while i < items.len()
        invariant
            i <= items.len(),
            views(args@) == start + strs(items@).take(i as int),
        decreases items.len() - i,
    {
        push_msg(args, items[i].to_owned());
        assert(views(args@) =~= start + strs(items@).take(i + 1));
        i = i + 1;
    }
    assert(strs(items@).take(items.len() as int) =~= strs(items@));
}

/// Appends one string to the arguments.
fn push_one(args: &mut Vec<String>, item: &str)
    ensures
        views(final(args)@) == views(old(args)@).push(item@),
{
    push_msg(args, item.to_owned());
}

// ---------------------------------------------------------------------------------------------
// Muxing

/// VLC, MP4Box and mkvmerge mux a single audio track with the video: the path of that track, or
/// an error naming the application when there are several.
pub fn single_audio_track(tracks: &Vec<AudioTrack>, application: &str) -> (r: Result<String, DashMpdError>)
    requires
        tracks.len() >= 1,
    ensures
        tracks.len() == 1 ==> (r matches Ok(p) && p@ == tracks@[0].path@),
        tracks.len() > 1 ==> (r matches Err(DashMpdError::Muxing(m)) && m@ == "cannot mux more than one audio track with "@
            + application@),
{
    if tracks.len() > 1 {
        let mut m = "cannot mux more than one audio track with ".to_owned();
        push_str(&mut m, application);
        return Err(DashMpdError::Muxing(m));
    }
    Ok(tracks[0].path.clone())
}

/// The arguments of ffmpeg to copy the stream in `input` into `output`, selecting the muxer
/// of the container when ffmpeg has a name for it.
pub open spec fn spec_ffmpeg_stream_args(input: Seq<char>, container: Seq<char>, output: Seq<char>) -> Seq<Seq<char>> {
    seq!["-hide_banner"@, "-nostats"@, "-loglevel"@, "error"@, "-y"@, "-nostdin"@, "-i"@, input, "-movflags"@,
        "faststart"@, "-preset"@, "veryfast"@] + match spec_ffmpeg_container_name(container) {
        Some(n) => seq!["-f"@, n],
        None => seq![],
    } + seq![output]
}

/// The arguments of ffmpeg to copy a single stream into a container (see
/// `spec_ffmpeg_stream_args`).
pub fn ffmpeg_stream_args(input: &str, container: &str, output: &str) -> (r: Vec<String>)
    ensures
        views(r@) == spec_ffmpeg_stream_args(input@, container@, output@),
{
    let mut args: Vec<String> = Vec::new();
    push_all(&mut args, &["-hide_banner", "-nostats", "-loglevel", "error", "-y", "-nostdin", "-i"]);
    push_one(&mut args, input);
    push_all(&mut args, &["-movflags", "faststart", "-preset", "veryfast"]);
    if let Some(cn) = ffmpeg_container_name(container) {
        push_one(&mut args, "-f");
        push_one(&mut args, cn.as_str());
    }
    push_one(&mut args, output);
    assert(views(args@) =~= spec_ffmpeg_stream_args(input@, container@, output@));
    args
}

/// The VLC muxer for an output container.
pub open spec fn spec_vlc_muxer(container: Seq<char>) -> Seq<char> {
    if container == "ogg"@ {
        "ogg"@
    } else if container == "webm"@ {
        "mkv"@
    } else if container == "mp3"@ {
        "raw"@
    } else if container == "mpg"@ {
        "mpeg1"@
    } else {
        container
    }
}

/// The stream output chain of VLC: transcoding to VP9 and Vorbis for WebM, then writing the
/// file `output` with the container's muxer.
pub open spec fn spec_vlc_sout(container: Seq<char>, output: Seq<char>) -> Seq<char> {
    "--sout=#"@ + (if container == "webm"@ {
        "transcode{vcodec=VP90,acodec=vorb}:"@
    } else {
        seq![]
    }) + "std{access=file,mux="@ + spec_vlc_muxer(container) + ",dst="@ + output + "}"@
}

/// The arguments of VLC to mux the video with the audio into `output`.
pub open spec fn spec_vlc_mux_args(video: Seq<char>, audio: Seq<char>, container: Seq<char>, output: Seq<char>) -> Seq<
    Seq<char>,
> {
    seq!["-I"@, "dummy"@, "--no-repeat"@, "--no-loop"@, video, "--input-slave"@, audio, "--sout-mp4-faststart"@,
        spec_vlc_sout(container, output), "--sout-keep"@, "vlc://quit"@]
}

/// The arguments of VLC to mux a video and an audio file (see `spec_vlc_mux_args`).
pub fn vlc_mux_args(video: &str, audio: &str, container: &str, output: &str) -> (r: Vec<String>)
    ensures
        views(r@) == spec_vlc_mux_args(video@, audio@, container@, output@),
{
    let muxer = if str_eq(container, "ogg") {
        "ogg"
    } else if str_eq(container, "webm") {
        "mkv"
    } else if str_eq(container, "mp3") {
        "raw"
    } else if str_eq(container, "mpg") {
        "mpeg1"
    } else {
        container
    };
    let mut sout = "--sout=#".to_owned();
    if str_eq(container, "webm") {
        push_str(&mut sout, "transcode{vcodec=VP90,acodec=vorb}:");
    }
    push_str(&mut sout, "std{access=file,mux=");
    push_str(&mut sout, muxer);
    push_str(&mut sout, ",dst=");
    push_str(&mut sout, output);
    push_str(&mut sout, "}");
    let mut args: Vec<String> = Vec::new();
    push_all(&mut args, &["-I", "dummy", "--no-repeat", "--no-loop"]);
    push_one(&mut args, video);
    push_one(&mut args, "--input-slave");
    push_one(&mut args, audio);
    push_one(&mut args, "--sout-mp4-faststart");
    push_one(&mut args, sout.as_str());
    push_all(&mut args, &["--sout-keep", "vlc://quit"]);
    assert(sout@ =~= spec_vlc_sout(container@, output@));
    assert(views(args@) =~= spec_vlc_mux_args(video@, audio@, container@, output@));
    args
}

/// VLC reports success even when it fails to mux: muxing succeeded when it exited successfully
/// and its error output does not mention an "mp4 mux error".
pub fn vlc_mux_succeeded(exit_success: bool, stderr: &str) -> (r: bool)
    ensures
        r == (exit_success && !contains_seq(stderr@, "mp4 mux error"@)),
{
    exit_success && !contains_str(stderr, "mp4 mux error")
}

/// The arguments of MP4Box to mux a video and an audio file into `output`.
pub fn mp4box_mux_args(video: &str, audio: &str, output: &str) -> (r: Vec<String>)
    ensures
        views(r@) == seq!["-flat"@, "-add"@, video@, "-add"@, audio@, "-new"@, output@],
{
    let mut args: Vec<String> = Vec::new();
    push_all(&mut args, &["-flat", "-add", video, "-add", audio, "-new", output]);
    assert(views(args@) =~= seq!["-flat"@, "-add"@, video@, "-add"@, audio@, "-new"@, output@]);
    args
}

/// The arguments of MP4Box to copy the stream in `input` into `output`.
pub fn mp4box_stream_args(input: &str, output: &str) -> (r: Vec<String>)
    ensures
        views(r@) == seq!["-add"@, input@, "-new"@, output@],
{
    let mut args: Vec<String> = Vec::new();
    push_all(&mut args, &["-add", input, "-new", output]);
    assert(views(args@) =~= seq!["-add"@, input@, "-new"@, output@]);
    args
}

/// The arguments of mkvmerge to mux the audio (without its video) and the video (without its
/// audio) into `output`.
pub fn mkvmerge_mux_args(output: &str, audio: &str, video: &str) -> (r: Vec<String>)
    ensures
        views(r@) == seq!["--output"@, output@, "--no-video"@, audio@, "--no-audio"@, video@],
{
    let mut args: Vec<String> = Vec::new();
    push_all(&mut args, &["--output", output, "--no-video", audio, "--no-audio", video]);
    assert(views(args@) =~= seq!["--output"@, output@, "--no-video"@, audio@, "--no-audio"@, video@]);
    args
}

/// The arguments of mkvmerge to copy the video of `video` (without audio) into `output`.
pub fn mkvmerge_video_args(output: &str, video: &str) -> (r: Vec<String>)
    ensures
        views(r@) == seq!["--output"@, output@, "--no-audio"@, video@],
{
    let mut args: Vec<String> = Vec::new();
    push_all(&mut args, &["--output", output, "--no-audio", video]);
    assert(views(args@) =~= seq!["--output"@, output@, "--no-audio"@, video@]);
    args
}

/// The arguments of mkvmerge to copy the audio of `audio` (without video) into `output`.
pub fn mkvmerge_audio_args(output: &str, audio: &str) -> (r: Vec<String>)
    ensures
        views(r@) == seq!["--output"@, output@, "--no-video"@, audio@],
{
    let mut args: Vec<String> = Vec::new();
    push_all(&mut args, &["--output", output, "--no-video", audio]);
    assert(views(args@) =~= seq!["--output"@, output@, "--no-video"@, audio@]);
    args
}

/// The arguments of ffmpeg to extract the STPP (TTML) subtitle data of `input` into `output`.
pub fn ffmpeg_stpp_extract_args(input: &str, output: &str) -> (r: Vec<String>)
    ensures
        views(r@) == seq![
            "-hide_banner"@,
            "-nostats"@,
            "-loglevel"@,
            "error"@,
            "-y"@,
            "-nostdin"@,
            "-i"@,
            input@,
            "-f"@,
            "data"@,
            "-map"@,
            "0"@,
            "-c"@,
            "copy"@,
            output@,
        ],
{
    let mut args: Vec<String> = Vec::new();
    push_all(
        &mut args,
        &["-hide_banner", "-nostats", "-loglevel", "error", "-y", "-nostdin", "-i", input, "-f", "data", "-map", "0", "-c", "copy", output],
    );
    assert(views(args@) =~= seq![
        "-hide_banner"@,
        "-nostats"@,
        "-loglevel"@,
        "error"@,
        "-y"@,
        "-nostdin"@,
        "-i"@,
        input@,
        "-f"@,
        "data"@,
        "-map"@,
        "0"@,
        "-c"@,
        "copy"@,
        output@,
    ]);
    args
}

/// The arguments of MP4Box to add the subtitles of `subtitles` to the MP4 file `output`.
pub fn mp4box_add_subtitles_args(subtitles: &str, output: &str) -> (r: Vec<String>)
    ensures
        views(r@) == seq!["-add"@, subtitles@, output@],
{
    let mut args: Vec<String> = Vec::new();
    push_all(&mut args, &["-add", subtitles, output]);
    assert(views(args@) =~= seq!["-add"@, subtitles@, output@]);
    args
}

/// The arguments of mkvmerge to write to `output` the Matroska file `input` with the SubRip
/// subtitles of `srt` added.
pub fn mkvmerge_add_subtitles_args(output: &str, input: &str, srt: &str) -> (r: Vec<String>)
    ensures
        views(r@) == seq!["-o"@, output@, input@, srt@],
{
    let mut args: Vec<String> = Vec::new();
    push_all(&mut args, &["-o", output, input, srt]);
    assert(views(args@) =~= seq!["-o"@, output@, input@, srt@]);
    args
}

/// The log level of MP4Box for a verbosity: errors only at 0, then warnings, information, and
/// debugging output from 3 on.
pub open spec fn mp4box_log_level(verbosity: u8) -> Seq<char> {
    if verbosity == 0 {
        "all@error"@
    } else if verbosity == 1 {
        "all@warning"@
    } else if verbosity == 2 {
        "all@info"@
    } else {
        "all@debug"@
    }
}

/// The arguments of MP4Box to extract the WebVTT subtitles of the fragmented MP4 file `input` to
/// the file `vtt_output`.
pub fn mp4box_wvtt_extract_args(verbosity: u8, vtt_output: &str, input: &str) -> (r: Vec<String>)
    ensures
        views(r@) == seq!["-logs"@, mp4box_log_level(verbosity), "-noprog"@, "-raw"@, "0:output="@ + vtt_output@, input@],
{
    let level = if verbosity == 0 {
        "all@error"
    } else if verbosity == 1 {
        "all@warning"
    } else if verbosity == 2 {
        "all@info"
    } else {
        "all@debug"
    };
    let mut raw = "0:output=".to_owned();
    push_str(&mut raw, vtt_output);
    let mut args: Vec<String> = Vec::new();
    push_all(&mut args, &["-logs", level, "-noprog", "-raw"]);
    push_msg(&mut args, raw);
    push_one(&mut args, input);
    assert(views(args@) =~= seq!["-logs"@, mp4box_log_level(verbosity), "-noprog"@, "-raw"@, "0:output="@ + vtt_output@, input@]);
    args
}

// ---------------------------------------------------------------------------------------------
// Decryption

/// The description of the `i`-th key for shaka-packager.
pub open spec fn shaka_key(i: nat, kid: Seq<char>, key: Seq<char>) -> Seq<char> {
    "label=lbl"@ + decimal(i) + ":key_id="@ + kid + ":key="@ + key
}

/// The descriptions of the keys for shaka-packager, separated by commas.
pub open spec fn shaka_keys(keys: Seq<(String, String)>) -> Seq<char>
    decreases keys.len(),
{
    if keys.len() == 0 {
        seq![]
    } else if keys.len() == 1 {
        shaka_key(0, keys[0].0@, keys[0].1@)
    } else {
        let n = (keys.len() - 1) as nat;
        shaka_keys(keys.drop_last()) + ","@ + shaka_key(n, keys[n as int].0@, keys[n as int].1@)
    }
}

/// The `--keys` argument of shaka-packager for the decryption keys (pairs of a KID and a key).
pub fn shaka_key_list(keys: &Vec<(String, String)>) -> (r: String)
    ensures
        r@ == shaka_keys(keys@),
{
    let mut r = String::new();
    let mut i: usize = 0;
    while i < keys.len()
        invariant
            i <= keys.len(),
            r@ == shaka_keys(keys@.take(i as int)),
        decreases keys.len() - i,
    {
        assert(keys@.take(i + 1).drop_last() =~= keys@.take(i as int));
        if i > 0 {
            push_str(&mut r, ",");
        }
        push_str(&mut r, "label=lbl");
        push_chars(&mut r, decimal_chars(i as u64).as_slice());
        push_str(&mut r, ":key_id=");
        push_str(&mut r, keys[i].0.as_str());
        push_str(&mut r, ":key=");
        push_str(&mut r, keys[i].1.as_str());
        i = i + 1;
    }
    assert(keys@.take(keys.len() as int) =~= keys@);
    r
}

/// The arguments of shaka-packager to decrypt the `media_type` stream of `input` into `output`;
/// it is quiet unless messages were asked for.
pub open spec fn spec_shaka_args(
    quiet: bool,
    input: Seq<char>,
    media_type: Seq<char>,
    output: Seq<char>,
    keys: Seq<(String, String)>,
) -> Seq<Seq<char>> {
    (if quiet {
        seq!["--quiet"@]
    } else {
        seq![]
    }) + seq![
        "in="@ + input + ",stream="@ + media_type + ",output="@ + output,
        "--enable_raw_key_decryption"@,
        "--keys"@,
        shaka_keys(keys),
    ]
}

fn shaka_stream_spec(input: &str, media_type: &str, output: &str) -> (r: String)
    ensures
        r@ == "in="@ + input@ + ",stream="@ + media_type@ + ",output="@ + output@,
{
    let mut r = "in=".to_owned();
    push_str(&mut r, input);
    push_str(&mut r, ",stream=");
    push_str(&mut r, media_type);
    push_str(&mut r, ",output=");
    push_str(&mut r, output);
    r
}

/// The arguments of shaka-packager to decrypt a stream (see `spec_shaka_args`), quiet when the
/// verbosity is 0.
pub fn shaka_args(verbosity: u8, input: &str, media_type: &str, output: &str, keys: &Vec<(String, String)>) -> (r: Vec<
    String,
>)
    ensures
        views(r@) == spec_shaka_args(verbosity < 1, input@, media_type@, output@, keys@),
{
    let mut args: Vec<String> = Vec::new();
    if verbosity < 1 {
        push_one(&mut args, "--quiet");
    }
    push_msg(&mut args, shaka_stream_spec(input, media_type, output));
    push_all(&mut args, &["--enable_raw_key_decryption", "--keys"]);
    push_msg(&mut args, shaka_key_list(keys));
    assert(views(args@) =~= spec_shaka_args(verbosity < 1, input@, media_type@, output@, keys@));
    args
}

/// The arguments of the container runtime to decrypt, with the shaka-packager container, the
/// file `input_name` of the directory `dir` (seen as /tmp in the container) into the file
/// `output_name` of the same directory.
pub open spec fn spec_shaka_container_args(
    dir: Seq<char>,
    input_name: Seq<char>,
    output_name: Seq<char>,
    media_type: Seq<char>,
    keys: Seq<(String, String)>,
) -> Seq<Seq<char>> {
    seq![
        "run"@,
        "--rm"@,
        "--network=none"@,
        "--userns=keep-id"@,
        "-v"@,
        dir + ":/tmp"@,
        "docker.io/google/shaka-packager:latest"@,
        "packager"@,
    ] + spec_shaka_args(true, "/tmp/"@ + input_name, media_type, "/tmp/"@ + output_name, keys)
}

fn in_dir(prefix: &str, name: &str) -> (r: String)
    ensures
        r@ == prefix@ + name@,
{
    let mut r = prefix.to_owned();
    push_str(&mut r, name);
    r
}

/// The arguments of the container runtime to run shaka-packager (see
/// `spec_shaka_container_args`).
pub fn shaka_container_args(
    dir: &str,
    input_name: &str,
    output_name: &str,
    media_type: &str,
    keys: &Vec<(String, String)>,
) -> (r: Vec<String>)
    ensures
        views(r@) == spec_shaka_container_args(dir@, input_name@, output_name@, media_type@, keys@),
{
    let mut args: Vec<String> = Vec::new();
    push_all(&mut args, &["run", "--rm", "--network=none", "--userns=keep-id", "-v"]);
    let mut mount = dir.to_owned();
    push_str(&mut mount, ":/tmp");
    push_msg(&mut args, mount);
    push_all(&mut args, &["docker.io/google/shaka-packager:latest", "packager"]);
    let input = in_dir("/tmp/", input_name);
    let output = in_dir("/tmp/", output_name);
    let mut rest = shaka_args(0, input.as_str(), media_type, output.as_str(), keys);
    let ghost head = args@;
    let ghost tail = rest@;
    args.append(&mut rest);
    assert(views(args@) =~= views(head) + views(tail));
    assert(views(args@) =~= spec_shaka_container_args(dir@, input_name@, output_name@, media_type@, keys@));
    args
}

/// The line of a GPAC DRM file that gives the key of a KID.
pub open spec fn gpac_key_line(kid: Seq<char>, key: Seq<char>) -> Seq<char> {
    "  <key KID=\"0x"@ + kid + "\" value=\"0x"@ + key + "\"/>\n"@
}

pub open spec fn gpac_key_lines(keys: Seq<(String, String)>) -> Seq<char>
    decreases keys.len(),
{
    if keys.len() == 0 {
        seq![]
    } else {
        gpac_key_lines(keys.drop_last()) + gpac_key_line(keys.last().0@, keys.last().1@)
    }
}

/// The GPAC DRM file that gives MP4Box the decryption keys.
pub open spec fn spec_gpac_drm_file(keys: Seq<(String, String)>) -> Seq<char> {
    "<GPACDRM>\n  <CrypTrack>\n"@ + gpac_key_lines(keys) + "  </CrypTrack>\n</GPACDRM>\n"@
}

/// The contents of the GPAC DRM file for the decryption keys (see `spec_gpac_drm_file`).
pub fn gpac_drm_file(keys: &Vec<(String, String)>) -> (r: String)
    ensures
        r@ == spec_gpac_drm_file(keys@),
{
    let mut r = "<GPACDRM>\n  <CrypTrack>\n".to_owned();
    let mut i: usize = 0;
    while i < keys.len()
        invariant
            i <= keys.len(),
            r@ == "<GPACDRM>\n  <CrypTrack>\n"@ + gpac_key_lines(keys@.take(i as int)),
        decreases keys.len() - i,
    {
        assert(keys@.take(i + 1).drop_last() =~= keys@.take(i as int));
        push_str(&mut r, "  <key KID=\"0x");
        push_str(&mut r, keys[i].0.as_str());
        push_str(&mut r, "\" value=\"0x");
        push_str(&mut r, keys[i].1.as_str());
        push_str(&mut r, "\"/>\n");
        i = i + 1;
    }
    assert(keys@.take(keys.len() as int) =~= keys@);
    push_str(&mut r, "  </CrypTrack>\n</GPACDRM>\n");
    r
}

/// The arguments of MP4Box to decrypt `input` into `output` with the keys of the DRM file.
pub fn mp4box_decrypt_args(drm_file: &str, input: &str, output: &str) -> (r: Vec<String>)
    ensures
        views(r@) == seq!["-decrypt"@, drm_file@, input@, "-out"@, output@],
{
    let mut args: Vec<String> = Vec::new();
    push_all(&mut args, &["-decrypt", drm_file, input, "-out", output]);
    assert(views(args@) =~= seq!["-decrypt"@, drm_file@, input@, "-out"@, output@]);
    args
}

/// The arguments of the container runtime to decrypt, with the MP4Box container, the file
/// `input_name` of the directory `dir` (seen as /tmp in the container) into `output_name`, with
/// the DRM file `drm_name`.
pub fn mp4box_container_decrypt_args(dir: &str, drm_name: &str, input_name: &str, output_name: &str) -> (r: Vec<
    String,
>)
    ensures
        views(r@) == seq![
            "run"@,
            "--rm"@,
            "--network=none"@,
            "--userns=keep-id"@,
            "-v"@,
            dir@ + ":/tmp"@,
            "docker.io/gpac/ubuntu:latest"@,
            "MP4Box"@,
            "-decrypt"@,
            "/tmp/"@ + drm_name@,
            "/tmp/"@ + input_name@,
            "-out"@,
            "/tmp/"@ + output_name@,
        ],
{
    let mut args: Vec<String> = Vec::new();
    push_all(&mut args, &["run", "--rm", "--network=none", "--userns=keep-id", "-v"]);
    let mut mount = dir.to_owned();
    push_str(&mut mount, ":/tmp");
    push_msg(&mut args, mount);
    push_all(&mut args, &["docker.io/gpac/ubuntu:latest", "MP4Box", "-decrypt"]);
    push_msg(&mut args, in_dir("/tmp/", drm_name));
    push_msg(&mut args, in_dir("/tmp/", input_name));
    push_one(&mut args, "-out");
    push_msg(&mut args, in_dir("/tmp/", output_name));
    assert(views(args@) =~= seq![
        "run"@,
        "--rm"@,
        "--network=none"@,
        "--userns=keep-id"@,
        "-v"@,
        dir@ + ":/tmp"@,
        "docker.io/gpac/ubuntu:latest"@,
        "MP4Box"@,
        "-decrypt"@,
        "/tmp/"@ + drm_name@,
        "/tmp/"@ + input_name@,
        "-out"@,
        "/tmp/"@ + output_name@,
    ]);
    args
}

/// A decryption succeeded when it left a decrypted file (of some content, for the applications
/// whose output is checked for emptiness); otherwise the error names the stream.
pub fn decryption_outcome(decrypted: bool, media_type: &str) -> (r: Result<(), DashMpdError>)
    ensures
        decrypted ==> r is Ok,
        !decrypted ==> (r matches Err(DashMpdError::Decrypting(m)) && m@ == media_type@ + " stream"@),
{
    if decrypted {
        Ok(())
    } else {
        let mut m = media_type.to_owned();
        push_str(&mut m, " stream");
        Err(DashMpdError::Decrypting(m))
    }
}

// ---------------------------------------------------------------------------------------------
// Concatenation

/// Concatenation needs at least two files.
pub fn check_concat_inputs(count: usize) -> (r: Result<(), DashMpdError>)
    ensures
        count >= 2 ==> r is Ok,
        count < 2 ==> (r matches Err(DashMpdError::Muxing(m)) && m@ == "need at least two files"@),
{
    if count < 2 {
        Err(DashMpdError::Muxing("need at least two files".to_owned()))
    } else {
        Ok(())
    }
}

/// The lines naming the files of an ffconcat list.
pub open spec fn ffconcat_lines(files: Seq<Seq<char>>) -> Seq<char>
    decreases files.len(),
{
    if files.len() == 0 {
        seq![]
    } else {
        ffconcat_lines(files.drop_last()) + "file '"@ + files.last() + "'\n"@
    }
}

/// The list of files read by ffmpeg's concat demuxer.
pub fn ffconcat_list(files: &Vec<String>) -> (r: String)
    ensures
        r@ == "ffconcat version 1.0\n"@ + ffconcat_lines(views(files@)),
{
    let mut r = "ffconcat version 1.0\n".to_owned();
    let mut i: usize = 0;
    while i < files.len()
        invariant
            i <= files.len(),
            r@ == "ffconcat version 1.0\n"@ + ffconcat_lines(views(files@).take(i as int)),
        decreases files.len() - i,
    {
        assert(views(files@).take(i + 1).drop_last() =~= views(files@).take(i as int));
        push_str(&mut r, "file '");
        push_str(&mut r, files[i].as_str());
        push_str(&mut r, "'\n");
        i = i + 1;
    }
    assert(views(files@).take(files.len() as int) =~= views(files@));
    r
}

/// The arguments of ffmpeg to concatenate, with its concat demuxer, the files of the list into
/// `output` (written with the given muxer).
pub fn ffmpeg_demuxer_args(list: &str, muxer: &str, output: &str) -> (r: Vec<String>)
    ensures
        views(r@) == seq![
            "-hide_banner"@,
            "-nostats"@,
            "-loglevel"@,
            "error"@,
            "-y"@,
            "-nostdin"@,
            "-f"@,
            "concat"@,
            "-safe"@,
            "0"@,
            "-i"@,
            list@,
            "-c"@,
            "copy"@,
            "-movflags"@,
            "faststart+omit_tfhd_offset"@,
            "-f"@,
            muxer@,
            "file:"@ + output@,
        ],
{
    let mut args: Vec<String> = Vec::new();
    push_all(&mut args, &["-hide_banner", "-nostats", "-loglevel", "error", "-y", "-nostdin", "-f", "concat", "-safe", "0", "-i"]);
    push_one(&mut args, list);
    push_all(&mut args, &["-c", "copy", "-movflags", "faststart+omit_tfhd_offset", "-f"]);
    push_one(&mut args, muxer);
    push_msg(&mut args, in_dir("file:", output));
    assert(views(args@) =~= seq![
        "-hide_banner"@,
        "-nostats"@,
        "-loglevel"@,
        "error"@,
        "-y"@,
        "-nostdin"@,
        "-f"@,
        "concat"@,
        "-safe"@,
        "0"@,
        "-i"@,
        list@,
        "-c"@,
        "copy"@,
        "-movflags"@,
        "faststart+omit_tfhd_offset"@,
        "-f"@,
        muxer@,
        "file:"@ + output@,
    ]);
    args
}

/// "-cat" before each of the files.
pub open spec fn cat_args(files: Seq<Seq<char>>) -> Seq<Seq<char>>
    decreases files.len(),
{
    if files.len() == 0 {
        seq![]
    } else {
        cat_args(files.drop_last()) + seq!["-cat"@, files.last()]
    }
}

/// The arguments of MP4Box to concatenate the copy `first` of the first file and the other
/// files into `output`.
pub fn mp4box_concat_args(first: &str, rest: &Vec<String>, output: &str) -> (r: Vec<String>)
    ensures
        views(r@) == seq!["-flat"@, "-add"@, first@] + cat_args(views(rest@)) + seq![output@],
{
    let mut args: Vec<String> = Vec::new();
    push_all(&mut args, &["-flat", "-add", first]);
    let mut i: usize = 0;
    assert(views(rest@).take(0) =~= seq![]);
    while i < rest.len()
        invariant
            i <= rest.len(),
            views(args@) == seq!["-flat"@, "-add"@, first@] + cat_args(views(rest@).take(i as int)),
        decreases rest.len() - i,
    {
        assert(views(rest@).take(i + 1).drop_last() =~= views(rest@).take(i as int));
        push_one(&mut args, "-cat");
        push_one(&mut args, rest[i].as_str());
        i = i + 1;
    }
    assert(views(rest@).take(rest.len() as int) =~= views(rest@));
    push_one(&mut args, output);
    args
}

/// The arguments of mkvmerge to concatenate the copy `first` of the first file and the other
/// files into `output`; quiet unless messages were asked for.
pub fn mkvmerge_concat_args(verbosity: u8, output: &str, first: &str, rest: &Vec<String>) -> (r: Vec<String>)
    ensures
        views(r@) == (if verbosity < 1 {
            seq!["--quiet"@]
        } else {
            seq![]
        }) + seq!["-o"@, output@, "["@, first@] + views(rest@) + seq!["]"@],
{
    let mut args: Vec<String> = Vec::new();
    if verbosity < 1 {
        push_one(&mut args, "--quiet");
    }
    push_all(&mut args, &["-o", output, "[", first]);
    let ghost head = views(args@);
    let mut i: usize = 0;
    while i < rest.len()
        invariant
            i <= rest.len(),
            views(args@) == head + views(rest@).take(i as int),
        decreases rest.len() - i,
    {
        push_one(&mut args, rest[i].as_str());
        assert(views(args@) =~= head + views(rest@).take(i + 1));
        i = i + 1;
    }
    assert(views(rest@).take(rest.len() as int) =~= views(rest@));
    push_one(&mut args, "]");
    args
}

} // verus!
