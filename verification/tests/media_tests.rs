use dash_mpd::media::{next_mux_step, next_concat_step, ffmpeg_mux_step, multiaudio_ffmpeg_args, HelperStep, FfmpegMuxStep, mux_outcome, concat_outcome};
use dash_mpd::DashMpdError;
use dash_mpd::media::{copy_preference, next_muxer, next_concat_helper, Muxer, ConcatHelper, ffmpeg_muxer, ffmpeg_mux_args, without_stream_copy, AudioTrack, mp4decrypt_args, concat_preference, ffmpeg_container_name, make_ffmpeg_concat_filter_args, muxer_preference, streams_all, streams_include, temporary_outpath};

fn strs(v: &[&str]) -> Vec<String> {
    v.iter().map(|s| s.to_string()).collect()
}

#[test]
fn container_names() {
    assert_eq!(ffmpeg_container_name("mkv"), Some("matroska".to_string()));
    assert_eq!(ffmpeg_container_name("ts"), Some("mpegts".to_string()));
    assert_eq!(ffmpeg_container_name("mp4"), Some("mp4".to_string()));
    assert_eq!(ffmpeg_container_name("flv"), None);
}

#[test]
fn muxer_and_concat_orders() {
    assert_eq!(muxer_preference("mkv", &None), strs(&["mkvmerge", "ffmpeg", "mp4box"]));
    assert_eq!(muxer_preference("webm", &None), strs(&["vlc", "ffmpeg"]));
    assert_eq!(muxer_preference("mp4", &None), strs(&["ffmpeg", "vlc", "mp4box"]));
    assert_eq!(muxer_preference("avi", &None), strs(&["ffmpeg", "mp4box"]));
    assert_eq!(muxer_preference("mp4", &Some("mp4box,ffmpeg".to_string())), strs(&["mp4box", "ffmpeg"]));
    assert_eq!(concat_preference("mkv", &None), strs(&["mkvmerge", "ffmpeg"]));
    assert_eq!(concat_preference("ts", &None), strs(&["ffmpeg"]));
    assert_eq!(concat_preference("mp4", &Some("ffmpegdemuxer".to_string())), strs(&["ffmpegdemuxer"]));
}

#[test]
fn concat_filter_audio_and_video() {
    let paths = strs(&["a.mp4", "b.mp4", "c.mp4"]);
    let args = make_ffmpeg_concat_filter_args(&paths, &[true, true, true], &[true, true, true]);
    assert_eq!(args, strs(&[
        "-i", "a.mp4", "-i", "b.mp4", "-i", "c.mp4",
        "-filter_complex", "[0:v][0:a][1:v][1:a][2:v][2:a] concat=n=3:v=1:a=1[outv][outa]",
        "-map", "[outv]", "-map", "[outa]",
    ]));
}

#[test]
fn concat_filter_audio_only_and_video_only() {
    let paths = strs(&["/tmp/audio1", "/tmp/audio2"]);
    let args = make_ffmpeg_concat_filter_args(&paths, &[false, false], &[true, true]);
    assert_eq!(args, strs(&["-i", "/tmp/audio1", "-i", "/tmp/audio2", "-filter_complex", "[0:a][1:a] concat=n=2:v=0:a=1[outa]", "-map", "[outa]"]));
    let args = make_ffmpeg_concat_filter_args(&paths, &[true, true], &[false, false]);
    assert_eq!(args, strs(&["-i", "/tmp/audio1", "-i", "/tmp/audio2", "-filter_complex", "[0:v][1:v] concat=n=2:v=1:a=0[outv]", "-map", "[outv]"]));
}

#[test]
fn concat_filter_null_audio_sources() {
    let paths = strs(&["x.mp4", "y.mp4"]);
    let args = make_ffmpeg_concat_filter_args(&paths, &[true, true], &[true, false]);
    assert_eq!(args[4], "-filter_complex");
    assert_eq!(args[5], "anullsrc=r=48000:cl=mono:d=1[anull1:a];[0:v][0:a][1:v][anull1:a] concat=n=2:v=1:a=1[outv][outa]");
}

#[test]
fn stream_kinds() {
    let types = vec![Some("video".to_string()), Some("audio".to_string()), None];
    assert!(streams_include(&types, "audio"));
    assert!(streams_include(&types, "video"));
    assert!(!streams_include(&types, "subtitle"));
    assert!(!streams_all(&types, "audio"));
    assert!(streams_all(&vec![Some("audio".to_string())], "audio"));
    assert!(streams_all(&vec![], "audio"));
}

#[test]
fn temporary_output_name() {
    assert_eq!(temporary_outpath(".mkv").unwrap(), "dashmpdrs-tmp.mkv");
}

#[test]
fn ffmpeg_muxing_arguments() {
    assert_eq!(ffmpeg_muxer("mkv"), "matroska");
    assert_eq!(ffmpeg_muxer("ts"), "mpegts");
    assert_eq!(ffmpeg_muxer("webm"), "webm");
    let tracks = vec![
        AudioTrack { language: "en-US".to_string(), path: "a-en.mp4".to_string() },
        AudioTrack { language: "fra".to_string(), path: "a-fr.mp4".to_string() },
    ];
    let args = ffmpeg_mux_args("v.mp4", &None, &tracks, &Some("0.5".to_string()), "mp4", "out.mp4");
    assert_eq!(args, strs(&[
        "-hide_banner", "-nostats", "-loglevel", "error", "-y", "-nostdin",
        "-i", "v.mp4", "-ss", "0.5", "-i", "a-en.mp4", "-i", "a-fr.mp4",
        "-map", "0:v", "-map", "1:a", "-metadata:s:a:0", "language=en",
        "-map", "2:a", "-metadata:s:a:1", "language=fra",
        "-c:v", "copy", "-c:a", "copy", "-movflags", "faststart", "-preset", "veryfast",
        "-f", "mp4", "out.mp4",
    ]));
    let reencode = without_stream_copy(&args);
    assert!(!reencode.iter().any(|a| a == "copy" || a == "-c:v" || a == "-c:a"));
    assert_eq!(reencode.len(), args.len() - 4);
}

#[test]
fn mp4decrypt_arguments() {
    let keys = vec![("kid1".to_string(), "key1".to_string()), ("kid2".to_string(), "key2".to_string())];
    assert_eq!(mp4decrypt_args(&keys, "in.mp4", "out.mp4"),
               strs(&["--key", "kid1:key1", "--key", "kid2:key2", "in.mp4", "out.mp4"]));
    assert_eq!(mp4decrypt_args(&vec![], "in.mp4", "out.mp4"), strs(&["in.mp4", "out.mp4"]));
}

#[test]
fn copy_preference_and_next_muxer() {
    assert_eq!(copy_preference("mkv", &None), strs(&["mkvmerge", "ffmpeg", "mp4box"]));
    assert_eq!(copy_preference("webm", &None), strs(&["ffmpeg", "mp4box"]));
    assert_eq!(copy_preference("mp4", &Some("mp4box,ffmpeg".to_string())), strs(&["mp4box", "ffmpeg"]));
    let prefs = strs(&["gstreamer", "vlc", "ffmpeg", "mp4box"]);
    assert_eq!(next_muxer(&prefs, 0, true), Some((1, Muxer::Vlc)));
    assert_eq!(next_muxer(&prefs, 0, false), Some((2, Muxer::Ffmpeg)));
    assert_eq!(next_muxer(&prefs, 3, true), Some((3, Muxer::Mp4Box)));
    assert_eq!(next_muxer(&prefs, 4, true), None);
    let helpers = strs(&["ffmpegdemuxer", "cat", "mkvmerge"]);
    assert_eq!(next_concat_helper(&helpers, 0), Some((0, ConcatHelper::FfmpegDemuxer)));
    assert_eq!(next_concat_helper(&helpers, 1), Some((2, ConcatHelper::Mkvmerge)));
    assert_eq!(next_concat_helper(&strs(&["cat"]), 0), None);
}

#[test]
fn muxing_steps() {
    let prefs = muxer_preference("mp4", &None);
    assert!(matches!(next_mux_step(&prefs, 0, false, true), HelperStep::Run(0, Muxer::Ffmpeg)));
    assert!(matches!(next_mux_step(&prefs, 1, false, true), HelperStep::Run(1, Muxer::Vlc)));
    assert!(matches!(next_mux_step(&prefs, 2, true, true), HelperStep::Succeeded));
    assert!(matches!(next_mux_step(&prefs, 3, false, true), HelperStep::Failed(DashMpdError::Muxing(m)) if m == "all muxers failed"));
    let odd = strs(&["foo", "mp4box"]);
    assert!(matches!(next_mux_step(&odd, 0, false, true), HelperStep::Run(1, Muxer::Mp4Box)));
    let cprefs = concat_preference("mkv", &None);
    assert!(matches!(next_concat_step(1, &cprefs, 0, false), HelperStep::Succeeded));
    assert!(matches!(next_concat_step(3, &cprefs, 0, false), HelperStep::Run(0, ConcatHelper::Mkvmerge)));
    assert!(matches!(next_concat_step(3, &cprefs, 1, false), HelperStep::Run(1, ConcatHelper::FfmpegFilter)));
    assert!(matches!(next_concat_step(3, &cprefs, 2, true), HelperStep::Succeeded));
    assert!(matches!(next_concat_step(3, &cprefs, 2, false),
                     HelperStep::Failed(DashMpdError::Muxing(m)) if m == "all concat helpers failed"));
    assert!(matches!(ffmpeg_mux_step(0, false), FfmpegMuxStep::RunCopying));
    assert!(matches!(ffmpeg_mux_step(1, true), FfmpegMuxStep::Succeeded));
    assert!(matches!(ffmpeg_mux_step(1, false), FfmpegMuxStep::RunReencoding));
    assert!(matches!(ffmpeg_mux_step(2, false), FfmpegMuxStep::Failed(DashMpdError::Muxing(m)) if m == "running ffmpeg"));
    assert!(matches!(multiaudio_ffmpeg_args("v.mp4", &vec![], "mp4", "o.mp4"),
                     Err(DashMpdError::Muxing(m)) if m == "no audio tracks"));
    let tracks = vec![AudioTrack { language: "en-US".to_string(), path: "a.mp4".to_string() }];
    let args = multiaudio_ffmpeg_args("v.mp4", &tracks, "mp4", "o.mp4").unwrap();
    assert_eq!(args, strs(&["-hide_banner", "-nostats", "-loglevel", "error", "-y", "-nostdin", "-i", "v.mp4",
        "-i", "a.mp4", "-map", "0:v", "-map", "1:a", "-metadata:s:a:0", "language=en",
        "-c:v", "copy", "-c:a", "copy", "-movflags", "faststart", "-preset", "veryfast", "-f", "mp4", "o.mp4"]));
}

#[test]
fn muxing_outcomes() {
    let prefs = muxer_preference("mkv", &None);
    assert_eq!(mux_outcome(&prefs, true, &vec![false, true, true]).unwrap(), (1, Muxer::Ffmpeg));
    assert_eq!(mux_outcome(&prefs, true, &vec![true, false, false]).unwrap(), (0, Muxer::Mkvmerge));
    assert!(matches!(mux_outcome(&prefs, true, &vec![false, false, false]),
                     Err(DashMpdError::Muxing(m)) if m == "all muxers failed"));
    let odd = strs(&["nope", "vlc"]);
    assert!(matches!(mux_outcome(&odd, false, &vec![true, true]), Err(DashMpdError::Muxing(_))));
    assert_eq!(mux_outcome(&odd, true, &vec![true, true]).unwrap(), (1, Muxer::Vlc));
    let cprefs = concat_preference("mp4", &None);
    assert_eq!(concat_outcome(1, &cprefs, &vec![false, false]).unwrap(), None);
    assert_eq!(concat_outcome(2, &cprefs, &vec![false, true]).unwrap(), Some((1, ConcatHelper::FfmpegFilter)));
    assert!(matches!(concat_outcome(2, &cprefs, &vec![false, false]),
                     Err(DashMpdError::Muxing(m)) if m == "all concat helpers failed"));
}
