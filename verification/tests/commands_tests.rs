use dash_mpd::commands::{
    check_concat_inputs, decryption_outcome, ffconcat_list, ffmpeg_demuxer_args, ffmpeg_stpp_extract_args, ffmpeg_stream_args, gpac_drm_file,
    mkvmerge_add_subtitles_args, mkvmerge_audio_args, mkvmerge_concat_args, mkvmerge_mux_args, mkvmerge_video_args,
    mp4box_add_subtitles_args, mp4box_concat_args,
    mp4box_container_decrypt_args, mp4box_decrypt_args, mp4box_mux_args, mp4box_stream_args, mp4box_wvtt_extract_args, shaka_args,
    shaka_container_args, single_audio_track, vlc_mux_args, vlc_mux_succeeded,
};
use dash_mpd::media::AudioTrack;
use dash_mpd::pssh::widevine_pssh;
use dash_mpd::DashMpdError;

fn strs(v: &[&str]) -> Vec<String> {
    v.iter().map(|s| s.to_string()).collect()
}

fn keys() -> Vec<(String, String)> {
    vec![("eb676abbcb345e96bbcf616630f1a3da".to_string(), "100b6c20940f779a4589152b57d2dacb".to_string()),
         ("1".to_string(), "aa".to_string())]
}

#[test]
fn one_audio_track_for_vlc_mp4box_mkvmerge() {
    let t = |p: &str| AudioTrack { language: "en".to_string(), path: p.to_string() };
    assert_eq!(single_audio_track(&vec![t("a.mp4")], "VLC").unwrap(), "a.mp4");
    assert!(matches!(single_audio_track(&vec![t("a.mp4"), t("b.mp4")], "MP4Box"),
                     Err(DashMpdError::Muxing(m)) if m == "cannot mux more than one audio track with MP4Box"));
}

#[test]
fn muxing_command_lines() {
    assert_eq!(ffmpeg_stream_args("in.mp4", "mkv", "/tmp/out.mkv"), strs(&[
        "-hide_banner", "-nostats", "-loglevel", "error", "-y", "-nostdin", "-i", "in.mp4",
        "-movflags", "faststart", "-preset", "veryfast", "-f", "matroska", "/tmp/out.mkv"]));
    assert_eq!(ffmpeg_stream_args("in.mp4", "flv", "o.flv").last().unwrap(), "o.flv");
    assert_eq!(vlc_mux_args("v.mp4", "a.mp4", "webm", "/tmp/o.mp4"), strs(&[
        "-I", "dummy", "--no-repeat", "--no-loop", "v.mp4", "--input-slave", "a.mp4", "--sout-mp4-faststart",
        "--sout=#transcode{vcodec=VP90,acodec=vorb}:std{access=file,mux=mkv,dst=/tmp/o.mp4}",
        "--sout-keep", "vlc://quit"]));
    assert_eq!(vlc_mux_args("v", "a", "mp4", "o")[8], "--sout=#std{access=file,mux=mp4,dst=o}");
    assert!(vlc_mux_succeeded(true, "all fine"));
    assert!(!vlc_mux_succeeded(true, "[000] mp4 mux error: no stream"));
    assert!(!vlc_mux_succeeded(false, ""));
    assert_eq!(mp4box_mux_args("v", "a", "o"), strs(&["-flat", "-add", "v", "-add", "a", "-new", "o"]));
    assert_eq!(mp4box_stream_args("i", "o"), strs(&["-add", "i", "-new", "o"]));
    assert_eq!(mkvmerge_mux_args("o", "a", "v"), strs(&["--output", "o", "--no-video", "a", "--no-audio", "v"]));
    assert_eq!(mkvmerge_video_args("o", "v"), strs(&["--output", "o", "--no-audio", "v"]));
    assert_eq!(mkvmerge_audio_args("o", "a"), strs(&["--output", "o", "--no-video", "a"]));
}

#[test]
fn decryption_command_lines() {
    assert_eq!(shaka_args(0, "/tmp/in.mp4", "audio", "/tmp/out.mp4", &keys()), strs(&[
        "--quiet",
        "in=/tmp/in.mp4,stream=audio,output=/tmp/out.mp4",
        "--enable_raw_key_decryption",
        "--keys",
        "label=lbl0:key_id=eb676abbcb345e96bbcf616630f1a3da:key=100b6c20940f779a4589152b57d2dacb,label=lbl1:key_id=1:key=aa"]));
    assert_eq!(shaka_args(2, "i", "video", "o", &vec![]).len(), 4);
    let c = shaka_container_args("/var/tmp", "in.mp4", "out.mp4", "video", &keys()[1..].to_vec());
    assert_eq!(c, strs(&[
        "run", "--rm", "--network=none", "--userns=keep-id", "-v", "/var/tmp:/tmp",
        "docker.io/google/shaka-packager:latest", "packager", "--quiet",
        "in=/tmp/in.mp4,stream=video,output=/tmp/out.mp4", "--enable_raw_key_decryption", "--keys",
        "label=lbl0:key_id=1:key=aa"]));
    assert_eq!(gpac_drm_file(&keys()[1..].to_vec()),
               "<GPACDRM>\n  <CrypTrack>\n  <key KID=\"0x1\" value=\"0xaa\"/>\n  </CrypTrack>\n</GPACDRM>\n");
    assert_eq!(mp4box_decrypt_args("drm.xml", "i", "o"), strs(&["-decrypt", "drm.xml", "i", "-out", "o"]));
    assert_eq!(mp4box_container_decrypt_args("/d", "drm.xml", "i", "o"), strs(&[
        "run", "--rm", "--network=none", "--userns=keep-id", "-v", "/d:/tmp", "docker.io/gpac/ubuntu:latest",
        "MP4Box", "-decrypt", "/tmp/drm.xml", "/tmp/i", "-out", "/tmp/o"]));
    assert!(decryption_outcome(true, "audio").is_ok());
    assert!(matches!(decryption_outcome(false, "audio"), Err(DashMpdError::Decrypting(m)) if m == "audio stream"));
}

#[test]
fn concatenation_command_lines() {
    assert!(check_concat_inputs(2).is_ok());
    assert!(matches!(check_concat_inputs(1), Err(DashMpdError::Muxing(m)) if m == "need at least two files"));
    assert_eq!(ffconcat_list(&strs(&["/a/p1.mp4", "/a/p2.mp4"])),
               "ffconcat version 1.0\nfile '/a/p1.mp4'\nfile '/a/p2.mp4'\n");
    let d = ffmpeg_demuxer_args("/tmp/list.txt", "matroska", "out.mkv");
    assert_eq!(d[11], "/tmp/list.txt");
    assert_eq!(d.last().unwrap(), "file:out.mkv");
    assert_eq!(mp4box_concat_args("/tmp/c.mp4", &strs(&["p2.mp4", "p3.mp4"]), "out.mp4"),
               strs(&["-flat", "-add", "/tmp/c.mp4", "-cat", "p2.mp4", "-cat", "p3.mp4", "out.mp4"]));
    assert_eq!(mkvmerge_concat_args(0, "out.mkv", "/tmp/c.mkv", &strs(&["p2.mkv"])),
               strs(&["--quiet", "-o", "out.mkv", "[", "/tmp/c.mkv", "p2.mkv", "]"]));
    assert_eq!(mkvmerge_concat_args(1, "out.mkv", "/tmp/c.mkv", &vec![])[0], "-o");
}

#[test]
fn widevine_pssh_box() {
    let widevine = [0xed, 0xef, 0x8b, 0xa9, 0x79, 0xd6, 0x4a, 0xce, 0xa3, 0xc8, 0x27, 0xdc, 0xd5, 0x1d, 0x21, 0xed];
    let mut pssh_box: Vec<u8> = vec![0, 0, 0, 32];
    pssh_box.extend_from_slice(b"pssh");
    pssh_box.extend_from_slice(&[0, 0, 0, 0]);
    pssh_box.extend_from_slice(&widevine);
    pssh_box.extend_from_slice(&[0, 0, 0, 0]);
    assert_eq!(pssh_box.len(), 32);
    let mut segment: Vec<u8> = b"....moov....".to_vec();
    segment.extend_from_slice(&pssh_box);
    segment.extend_from_slice(b"trailing");
    assert_eq!(widevine_pssh(&segment), Some(pssh_box.clone()));
    // A PlayReady box is skipped.
    let mut other = segment.clone();
    other[12 + 12] = 0x9a;
    assert_eq!(widevine_pssh(&other), None);
    // A box that would extend past the bytes read is skipped.
    assert_eq!(widevine_pssh(&segment[..12 + 30]), None);
    assert_eq!(widevine_pssh(b"no boxes here"), None);
}

#[test]
fn stpp_extraction_command_line() {
    assert_eq!(ffmpeg_stpp_extract_args("/tmp/subs.sub", "out.ttml"), strs(&[
        "-hide_banner", "-nostats", "-loglevel", "error", "-y", "-nostdin", "-i", "/tmp/subs.sub",
        "-f", "data", "-map", "0", "-c", "copy", "out.ttml"]));
}

#[test]
fn wvtt_extraction_command_line() {
    assert_eq!(mp4box_wvtt_extract_args(0, "out.vtt", "subs.mp4"),
               strs(&["-logs", "all@error", "-noprog", "-raw", "0:output=out.vtt", "subs.mp4"]));
    assert_eq!(mp4box_wvtt_extract_args(7, "o.vtt", "s.mp4")[1], "all@debug");
}

#[test]
fn subtitle_merge_command_lines() {
    assert_eq!(mp4box_add_subtitles_args("/tmp/subs.sub", "out.mp4"), strs(&["-add", "/tmp/subs.sub", "out.mp4"]));
    assert_eq!(mkvmerge_add_subtitles_args("/tmp/t.mkv", "out.mkv", "out.srt"),
               strs(&["-o", "/tmp/t.mkv", "out.mkv", "out.srt"]));
}
