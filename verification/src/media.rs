//! Decisions about media containers and the external muxing tools: container names for ffmpeg,
//! the order in which muxers and concatenation helpers are tried, the arguments of the ffmpeg
//! concat filter, and what the streams of a container reveal about its content.

use vstd::prelude::*;
use crate::DashMpdError;
use crate::digits::{decimal, decimal_chars};
use crate::text::{str_eq, push_str, push_chars, has_prefix, starts_with};
use crate::messages::{views, push_msg, concat_all};
use crate::split::{split_char, split_at_char};

verus! {

/// An audio track that has been downloaded: its language and the path of the file holding it.
#[derive(Debug, Clone)]
pub struct AudioTrack {
    pub language: String,
    pub path: String,
}

/// The ffmpeg format name for a container file extension.
pub open spec fn spec_ffmpeg_container_name(extension: Seq<char>) -> Option<Seq<char>> {
    if extension == "mkv"@ {
        Some("matroska"@)
    } else if extension == "webm"@ {
        Some("webm"@)
    } else if extension == "avi"@ {
        Some("avi"@)
    } else if extension == "mov"@ {
        Some("mov"@)
    } else if extension == "mp4"@ {
        Some("mp4"@)
    } else if extension == "ts"@ {
        Some("mpegts"@)
    } else if extension == "ogg"@ {
        Some("ogg"@)
    } else if extension == "vob"@ {
        Some("vob"@)
    } else {
        None
    }
}

/// The ffmpeg format name (see "ffmpeg -formats") for a container file extension.
pub fn ffmpeg_container_name(extension: &str) -> (r: Option<String>)
    ensures
        match r {
            Some(s) => spec_ffmpeg_container_name(extension@) == Some(s@),
            None => spec_ffmpeg_container_name(extension@) is None,
        },
{
    if str_eq(extension, "mkv") {
        Some("matroska".to_owned())
    } else if str_eq(extension, "webm") {
        Some("webm".to_owned())
    } else if str_eq(extension, "avi") {
        Some("avi".to_owned())
    } else if str_eq(extension, "mov") {
        Some("mov".to_owned())
    } else if str_eq(extension, "mp4") {
        Some("mp4".to_owned())
    } else if str_eq(extension, "ts") {
        Some("mpegts".to_owned())
    } else if str_eq(extension, "ogg") {
        Some("ogg".to_owned())
    } else if str_eq(extension, "vob") {
        Some("vob".to_owned())
    } else {
        None
    }
}

/// The muxers to try, in order, for an output container: the user's ordering for that
/// container (a comma-separated list) when there is one, else a default that depends on the
/// container.
pub open spec fn spec_muxer_preference(container: Seq<char>, ordering: Option<Seq<char>>) -> Seq<Seq<char>> {
    match ordering {
        Some(o) => split_char(o, ','),
        None => if container == "mkv"@ {
            seq!["mkvmerge"@, "ffmpeg"@, "mp4box"@]
        } else if container == "webm"@ {
            seq!["vlc"@, "ffmpeg"@]
        } else if container == "mp4"@ {
            seq!["ffmpeg"@, "vlc"@, "mp4box"@]
        } else {
            seq!["ffmpeg"@, "mp4box"@]
        },
    }
}

pub open spec fn str_views(names: Seq<&str>) -> Seq<Seq<char>> {
    names.map_values(|s: &str| s@)
}

fn strings_of(names: &[&str]) -> (r: Vec<String>)
    ensures
        views(r@) == str_views(names@),
{
    let mut r: Vec<String> = Vec::new();
    let mut i: usize = 0;
    while i < names.len()
        invariant
            i <= names.len(),
            views(r@) == str_views(names@).take(i as int),
        decreases names.len() - i,
    {
        push_msg(&mut r, names[i].to_owned());
        assert(views(r@) =~= str_views(names@).take(i + 1));
        i = i + 1;
    }
    assert(str_views(names@).take(names.len() as int) =~= str_views(names@));
    r
}

/// The muxers to try, in order, when muxing audio and video into an output container with the
/// given extension: the user-specified ordering for the container (e.g. "ffmpeg,vlc,mp4box")
/// when there is one, else the default preference for the container.
pub fn muxer_preference(container: &str, ordering: &Option<String>) -> (r: Vec<String>)
    ensures
        views(r@) == spec_muxer_preference(container@, match ordering {
            Some(o) => Some(o@),
            None => None,
        }),
{
    if let Some(o) = ordering {
        return split_at_char(o.as_str(), ',');
    }
    let r = if str_eq(container, "mkv") {
        strings_of(&["mkvmerge", "ffmpeg", "mp4box"])
    } else if str_eq(container, "webm") {
        strings_of(&["vlc", "ffmpeg"])
    } else if str_eq(container, "mp4") {
        strings_of(&["ffmpeg", "vlc", "mp4box"])
    } else {
        strings_of(&["ffmpeg", "mp4box"])
    };
    assert(views(r@) =~= spec_muxer_preference(container@, None));
    r
}

/// The muxers to try, in order, when copying a single stream into an output container: the
/// user's ordering for the container when there is one, else mkvmerge, ffmpeg then MP4Box for
/// mkv, and ffmpeg then MP4Box for the others.
pub open spec fn spec_copy_preference(container: Seq<char>, ordering: Option<Seq<char>>) -> Seq<Seq<char>> {
    match ordering {
        Some(o) => split_char(o, ','),
        None => if container == "mkv"@ {
            seq!["mkvmerge"@, "ffmpeg"@, "mp4box"@]
        } else {
            seq!["ffmpeg"@, "mp4box"@]
        },
    }
}

/// The muxers to try, in order, when copying an audio or a video stream into an output
/// container with the given extension.
pub fn copy_preference(container: &str, ordering: &Option<String>) -> (r: Vec<String>)
    ensures
        views(r@) == spec_copy_preference(container@, match ordering {
            Some(o) => Some(o@),
            None => None,
        }),
{
    if let Some(o) = ordering {
        return split_at_char(o.as_str(), ',');
    }
    let r = if str_eq(container, "mkv") {
        strings_of(&["mkvmerge", "ffmpeg", "mp4box"])
    } else {
        strings_of(&["ffmpeg", "mp4box"])
    };
    assert(views(r@) =~= spec_copy_preference(container@, None));
    r
}

/// A muxing application.
#[derive(Debug, Clone, Copy, PartialEq, Eq, Structural)]
pub enum Muxer {
    Mkvmerge,
    Ffmpeg,
    Vlc,
    Mp4Box,
}

/// The muxer that a preference names: "mkvmerge", "ffmpeg", "mp4box", and "vlc" where VLC can be
/// used (it muxes audio with video, but does not copy a single stream).
pub open spec fn muxer_named(name: Seq<char>, with_vlc: bool) -> Option<Muxer> {
    if name == "mkvmerge"@ {
        Some(Muxer::Mkvmerge)
    } else if name == "ffmpeg"@ {
        Some(Muxer::Ffmpeg)
    } else if name == "vlc"@ && with_vlc {
        Some(Muxer::Vlc)
    } else if name == "mp4box"@ {
        Some(Muxer::Mp4Box)
    } else {
        None
    }
}

/// The next muxer to try: the first name at or after position `from` of the preference list
/// that names a muxer (unknown names are skipped), with its position; none when the list is
/// exhausted, and the muxing then fails.
pub fn next_muxer(prefs: &Vec<String>, from: usize, with_vlc: bool) -> (r: Option<(usize, Muxer)>)
    ensures
        r is None <==> forall|j: int| from <= j < prefs.len() ==> muxer_named(#[trigger] prefs@[j]@, with_vlc) is None,
        r matches Some((j, m)) ==> {
            &&& from <= j < prefs.len()
            &&& muxer_named(prefs@[j as int]@, with_vlc) == Some(m)
            &&& forall|k: int| from <= k < j ==> muxer_named(#[trigger] prefs@[k]@, with_vlc) is None
        },
{
    let mut j: usize = from;
    while j < prefs.len()
        invariant
            from <= j,
            forall|k: int| from <= k < j && k < prefs.len() ==> muxer_named(#[trigger] prefs@[k]@, with_vlc) is None,
        decreases prefs.len() - j,
    {
        let name = prefs[j].as_str();
        if str_eq(name, "mkvmerge") {
            return Some((j, Muxer::Mkvmerge));
        } else if str_eq(name, "ffmpeg") {
            return Some((j, Muxer::Ffmpeg));
        } else if with_vlc && str_eq(name, "vlc") {
            return Some((j, Muxer::Vlc));
        } else if str_eq(name, "mp4box") {
            return Some((j, Muxer::Mp4Box));
        }
        j = j + 1;
    }
    None
}

/// An application that concatenates the media files of several Periods.
#[derive(Debug, Clone, Copy, PartialEq, Eq, Structural)]
pub enum ConcatHelper {
    Mkvmerge,
    /// The ffmpeg concat filter.
    FfmpegFilter,
    /// The ffmpeg concat demuxer.
    FfmpegDemuxer,
    Mp4Box,
}

/// The concatenation helper that a preference names: "mkvmerge", "ffmpeg", "ffmpegdemuxer" or
/// "mp4box".
pub open spec fn concat_helper_named(name: Seq<char>) -> Option<ConcatHelper> {
    if name == "mkvmerge"@ {
        Some(ConcatHelper::Mkvmerge)
    } else if name == "ffmpeg"@ {
        Some(ConcatHelper::FfmpegFilter)
    } else if name == "ffmpegdemuxer"@ {
        Some(ConcatHelper::FfmpegDemuxer)
    } else if name == "mp4box"@ {
        Some(ConcatHelper::Mp4Box)
    } else {
        None
    }
}

/// The next concatenation helper to try: the first name at or after position `from` of the
/// preference list that names one, with its position.
pub fn next_concat_helper(prefs: &Vec<String>, from: usize) -> (r: Option<(usize, ConcatHelper)>)
    ensures
        r is None <==> forall|j: int| from <= j < prefs.len() ==> concat_helper_named(#[trigger] prefs@[j]@) is None,
        r matches Some((j, h)) ==> {
            &&& from <= j < prefs.len()
            &&& concat_helper_named(prefs@[j as int]@) == Some(h)
            &&& forall|k: int| from <= k < j ==> concat_helper_named(#[trigger] prefs@[k]@) is None
        },
{
    let mut j: usize = from;
    while j < prefs.len()
        invariant
            from <= j,
            forall|k: int| from <= k < j && k < prefs.len() ==> concat_helper_named(#[trigger] prefs@[k]@) is None,
        decreases prefs.len() - j,
    {
        let name = prefs[j].as_str();
        if str_eq(name, "mkvmerge") {
            return Some((j, ConcatHelper::Mkvmerge));
        } else if str_eq(name, "ffmpeg") {
            return Some((j, ConcatHelper::FfmpegFilter));
        } else if str_eq(name, "ffmpegdemuxer") {
            return Some((j, ConcatHelper::FfmpegDemuxer));
        } else if str_eq(name, "mp4box") {
            return Some((j, ConcatHelper::Mp4Box));
        }
        j = j + 1;
    }
    None
}

/// The concatenation helpers to try, in order, for files in a container: the user's ordering
/// for that container when there is one, else mkvmerge then ffmpeg for mp4, mkv and webm, and
/// ffmpeg for the others.
pub open spec fn spec_concat_preference(container: Seq<char>, ordering: Option<Seq<char>>) -> Seq<Seq<char>> {
    match ordering {
        Some(o) => split_char(o, ','),
        None => if container == "mp4"@ || container == "mkv"@ || container == "webm"@ {
            seq!["mkvmerge"@, "ffmpeg"@]
        } else {
            seq!["ffmpeg"@]
        },
    }
}

/// The concatenation helpers to try, in order, for media files in the given container.
pub fn concat_preference(container: &str, ordering: &Option<String>) -> (r: Vec<String>)
    ensures
        views(r@) == spec_concat_preference(container@, match ordering {
            Some(o) => Some(o@),
            None => None,
        }),
{
    if let Some(o) = ordering {
        return split_at_char(o.as_str(), ',');
    }
    let r = if str_eq(container, "mp4") || str_eq(container, "mkv") || str_eq(container, "webm") {
        strings_of(&["mkvmerge", "ffmpeg"])
    } else {
        strings_of(&["ffmpeg"])
    };
    assert(views(r@) =~= spec_concat_preference(container@, None));
    r
}

/// A stream of the given codec type (as ffprobe reports it) is of `kind`.
pub open spec fn stream_is(codec_type: Option<String>, kind: Seq<char>) -> bool {
    codec_type matches Some(t) && t@ == kind
}

/// Whether some stream has codec type `kind` ("audio", "video").
pub fn streams_include(codec_types: &Vec<Option<String>>, kind: &str) -> (r: bool)
    ensures
        r == exists|i: int| 0 <= i < codec_types.len() && stream_is(#[trigger] codec_types@[i], kind@),
{
    let mut i: usize = 0;
    while i < codec_types.len()
        invariant
            i <= codec_types.len(),
            forall|k: int| 0 <= k < i ==> !stream_is(#[trigger] codec_types@[k], kind@),
        decreases codec_types.len() - i,
    {
        if let Some(t) = &codec_types[i] {
            if str_eq(t.as_str(), kind) {
                assert(stream_is(codec_types@[i as int], kind@));
                return true;
            }
        }
        i = i + 1;
    }
    false
}

/// Whether every stream has codec type `kind` (true when there are no streams).
pub fn streams_all(codec_types: &Vec<Option<String>>, kind: &str) -> (r: bool)
    ensures
        r == forall|i: int| 0 <= i < codec_types.len() ==> stream_is(#[trigger] codec_types@[i], kind@),
{
    let mut i: usize = 0;
    while i < codec_types.len()
        invariant
            i <= codec_types.len(),
            forall|k: int| 0 <= k < i ==> stream_is(#[trigger] codec_types@[k], kind@),
        decreases codec_types.len() - i,
    {
        let is_kind = match &codec_types[i] {
            Some(t) => str_eq(t.as_str(), kind),
            None => false,
        };
        if !is_kind {
            assert(!stream_is(codec_types@[i as int], kind@));
            return false;
        }
        i = i + 1;
    }
    true
}

/// A name for a temporary output file with the given suffix, in the current directory (as on
/// Windows; elsewhere the file is created, with a random name, in the temporary directory, which
/// is the caller's I/O).
pub fn temporary_outpath(suffix: &str) -> (r: Result<String, DashMpdError>)
    ensures
        r matches Ok(p) && p@ == "dashmpdrs-tmp"@ + suffix@,
{
    let mut p = "dashmpdrs-tmp".to_owned();
    push_str(&mut p, suffix);
    Ok(p)
}

/// What the ffmpeg concat filter needs to know while the inputs are taken in turn: the input
/// arguments so far, the null audio sources, the link labels, and whether some input had audio
/// and whether some input had video.
pub type ConcatState = (Seq<Seq<char>>, Seq<char>, Seq<Seq<char>>, bool, bool);

pub open spec fn null_audio_source(i: nat) -> Seq<char> {
    "anullsrc=r=48000:cl=mono:d=1[anull"@ + decimal(i) + ":a];"@
}

/// Input `i` (at `path`, with or without video and audio) is added: it becomes an input when it
/// has video or audio; its video link label is added when it has video, then its audio link
/// label, or, when it has no audio, a null audio source (the sources so far are repeated after
/// it) and its label.
pub open spec fn concat_step(st: ConcatState, i: nat, path: Seq<char>, video: bool, audio: bool) -> ConcatState {
    let input = seq!["-i"@, path];
    let args1 = if video {
        st.0 + input
    } else {
        st.0
    };
    let labels1 = if video {
        st.2.push("["@ + decimal(i) + ":v]"@)
    } else {
        st.2
    };
    if audio {
        let args2 = if video {
            args1
        } else {
            args1 + input
        };
        (args2, st.1, labels1.push("["@ + decimal(i) + ":a]"@), true, st.4 || video)
    } else {
        (
            args1,
            st.1 + null_audio_source(i) + st.1,
            labels1.push("[anull"@ + decimal(i) + ":a]"@),
            st.3,
            st.4 || video,
        )
    }
}

/// The state after the first `n` inputs.
pub open spec fn concat_state(paths: Seq<Seq<char>>, video: Seq<bool>, audio: Seq<bool>, n: nat) -> ConcatState
    decreases n,
{
    if n == 0 {
        (seq![], seq![], seq![], false, false)
    } else {
        let k = (n - 1) as nat;
        concat_step(concat_state(paths, video, audio, k), k, paths[k as int], video[k as int], audio[k as int])
    }
}

/// The labels that do not refer to a null audio source, one after the other.
pub open spec fn join_real_labels(ls: Seq<Seq<char>>) -> Seq<char>
    decreases ls.len(),
{
    if ls.len() == 0 {
        seq![]
    } else if has_prefix(ls.last(), "[anull"@) {
        join_real_labels(ls.drop_last())
    } else {
        join_real_labels(ls.drop_last()) + ls.last()
    }
}

/// The filter graph for `n` inputs: null audio sources and all labels when some input has
/// audio, only the labels of real streams otherwise; then the concat filter with its stream
/// counts and output labels.
pub open spec fn concat_filter(st: ConcatState, n: nat) -> Seq<char> {
    let body = if st.3 {
        st.1 + concat_all(st.2)
    } else {
        join_real_labels(st.2)
    };
    body + " concat=n="@ + decimal(n) + (if st.4 {
        ":v=1"@
    } else {
        ":v=0"@
    }) + (if st.3 {
        ":a=1"@
    } else {
        ":a=0"@
    }) + (if st.4 {
        "[outv]"@
    } else {
        seq![]
    }) + (if st.3 {
        "[outa]"@
    } else {
        seq![]
    })
}

/// The ffmpeg arguments that concatenate the inputs with the concat filter.
pub open spec fn spec_concat_filter_args(paths: Seq<Seq<char>>, video: Seq<bool>, audio: Seq<bool>) -> Seq<Seq<char>> {
    let n = paths.len();
    let st = concat_state(paths, video, audio, n);
    st.0 + seq!["-filter_complex"@, concat_filter(st, n)] + (if st.4 {
        seq!["-map"@, "[outv]"@]
    } else {
        seq![]
    }) + (if st.3 {
        seq!["-map"@, "[outa]"@]
    } else {
        seq![]
    })
}

/// The text `pre` followed by the decimal notation of `i` and by `post`.
fn numbered(pre: &str, i: usize, post: &str) -> (r: String)
    ensures
        r@ == pre@ + decimal(i as nat) + post@,
{
    let mut s = pre.to_owned();
    let d = decimal_chars(i as u64);
    push_chars(&mut s, d.as_slice());
    push_str(&mut s, post);
    s
}

/// Appends `s` to the argument list.
fn push_arg(args: &mut Vec<String>, s: String)
    ensures
        views(final(args)@) == views(old(args)@).push(s@),
{
    push_msg(args, s);
}

/// The arguments to ffmpeg that concatenate the given inputs with its "concat filter", each
/// input being known to hold video and/or audio. An input without audio gets a null audio
/// source, which is only used when some input has audio.
///
/// Example for three inputs with video and audio:
/// "[0:v][0:a][1:v][1:a][2:v][2:a] concat=n=3:v=1:a=1[outv][outa]".
pub fn make_ffmpeg_concat_filter_args(paths: &[String], has_video: &[bool], has_audio: &[bool]) -> (r: Vec<String>)
    requires
        has_video.len() == paths.len(),
        has_audio.len() == paths.len(),
    ensures
        views(r@) == spec_concat_filter_args(views(paths@), has_video@, has_audio@),
{
    let n = paths.len();
    let ghost ps = views(paths@);
    let mut args: Vec<String> = Vec::new();
    let mut anullsrc = String::new();
    let mut link_labels: Vec<String> = Vec::new();
    let mut have_audio = false;
    let mut have_video = false;
    let mut i: usize = 0;
    assert(views(args@) =~= seq![] && anullsrc@ =~= seq![] && views(link_labels@) =~= seq![]);
    while i < n
        invariant
            n == paths.len(),
            has_video.len() == n,
            has_audio.len() == n,
            ps == views(paths@),
            i <= n,
            concat_state(ps, has_video@, has_audio@, i as nat) == (
                views(args@),
                anullsrc@,
                views(link_labels@),
                have_audio,
                have_video,
            ),
        decreases n - i,
    {
        let path = &paths[i];
        assert(ps[i as int] == path@);
        let mut included = false;
        if has_video[i] {
            included = true;
            push_arg(&mut args, "-i".to_owned());
            push_arg(&mut args, path.clone());
            have_video = true;
            push_arg(&mut link_labels, numbered("[", i, ":v]"));
        }
        if has_audio[i] {
            if !included {
                push_arg(&mut args, "-i".to_owned());
                push_arg(&mut args, path.clone());
            }
            push_arg(&mut link_labels, numbered("[", i, ":a]"));
            have_audio = true;
        } else {
            let piece = numbered("anullsrc=r=48000:cl=mono:d=1[anull", i, ":a];");
            let old = anullsrc.clone();
            push_str(&mut anullsrc, piece.as_str());
            push_str(&mut anullsrc, old.as_str());
            push_arg(&mut link_labels, numbered("[anull", i, ":a]"));
        }
        proof {
            let st = concat_state(ps, has_video@, has_audio@, i as nat);
            assert(concat_state(ps, has_video@, has_audio@, (i + 1) as nat) == concat_step(
                st,
                i as nat,
                ps[i as int],
                has_video@[i as int],
                has_audio@[i as int],
            ));
            assert(views(args@) =~= concat_state(ps, has_video@, has_audio@, (i + 1) as nat).0);
            assert(views(link_labels@) =~= concat_state(ps, has_video@, has_audio@, (i + 1) as nat).2);
        }
        i = i + 1;
    }
    let ghost st = concat_state(ps, has_video@, has_audio@, n as nat);
    let mut filter = String::new();
    if have_audio {
        push_str(&mut filter, anullsrc.as_str());
        let mut j: usize = 0;
        assert(views(link_labels@).take(0) =~= seq![]);
        while j < link_labels.len()
            invariant
                j <= link_labels.len(),
                filter@ == anullsrc@ + concat_all(views(link_labels@).take(j as int)),
            decreases link_labels.len() - j,
        {
            assert(views(link_labels@).take(j + 1).drop_last() =~= views(link_labels@).take(j as int));
            push_str(&mut filter, link_labels[j].as_str());
            j = j + 1;
        }
        assert(views(link_labels@).take(link_labels.len() as int) =~= views(link_labels@));
    } else {
        let mut j: usize = 0;
        assert(views(link_labels@).take(0) =~= seq![]);
        while j < link_labels.len()
            invariant
                j <= link_labels.len(),
                filter@ == join_real_labels(views(link_labels@).take(j as int)),
            decreases link_labels.len() - j,
        {
            assert(views(link_labels@).take(j + 1).drop_last() =~= views(link_labels@).take(j as int));
            if !starts_with(link_labels[j].as_str(), "[anull") {
                push_str(&mut filter, link_labels[j].as_str());
            }
            j = j + 1;
        }
        assert(views(link_labels@).take(link_labels.len() as int) =~= views(link_labels@));
    }
    push_str(&mut filter, " concat=n=");
    let count = decimal_chars(n as u64);
    push_chars(&mut filter, count.as_slice());
    if have_video {
        push_str(&mut filter, ":v=1");
    } else {
        push_str(&mut filter, ":v=0");
    }
    if have_audio {
        push_str(&mut filter, ":a=1");
    } else {
        push_str(&mut filter, ":a=0");
    }
    if have_video {
        push_str(&mut filter, "[outv]");
    }
    if have_audio {
        push_str(&mut filter, "[outa]");
    }
    assert(filter@ =~= concat_filter(st, n as nat));
    push_arg(&mut args, "-filter_complex".to_owned());
    push_arg(&mut args, filter);
    if have_video {
        push_arg(&mut args, "-map".to_owned());
        push_arg(&mut args, "[outv]".to_owned());
    }
    if have_audio {
        push_arg(&mut args, "-map".to_owned());
        push_arg(&mut args, "[outa]".to_owned());
    }
    assert(views(args@) =~= spec_concat_filter_args(ps, has_video@, has_audio@));
    args
}

/// The ffmpeg muxer for an output container (see "ffmpeg -muxers").
pub open spec fn spec_ffmpeg_muxer(container: Seq<char>) -> Seq<char> {
    if container == "mkv"@ {
        "matroska"@
    } else if container == "ts"@ {
        "mpegts"@
    } else {
        container
    }
}

/// The ffmpeg muxer for an output container.
pub fn ffmpeg_muxer(container: &str) -> (r: String)
    ensures
        r@ == spec_ffmpeg_muxer(container@),
{
    if str_eq(container, "mkv") {
        "matroska".to_owned()
    } else if str_eq(container, "ts") {
        "mpegts".to_owned()
    } else {
        container.to_owned()
    }
}

/// A language tag keeps only its ASCII lower-case letters.
pub open spec fn sanitized_language(l: Seq<char>) -> Seq<char> {
    l.filter(|c: char| 'a' <= c && c <= 'z')
}

fn sanitize_language(l: &str) -> (r: String)
    ensures
        r@ == sanitized_language(l@),
{
    let v = crate::text::chars_of(l);
    let ghost p = |c: char| 'a' <= c && c <= 'z';
    let mut out = String::new();
    let mut i: usize = 0;
    proof {
        reveal(Seq::filter);
    }
    assert(v@.take(0).filter(p) =~= seq![]);
    while i < v.len()
        invariant
            i <= v.len(),
            p == (|c: char| 'a' <= c && c <= 'z'),
            out@ == v@.take(i as int).filter(p),
        decreases v.len() - i,
    {
        proof {
            reveal(Seq::filter);
            assert(v@.take(i + 1).drop_last() =~= v@.take(i as int));
        }
        let c = v[i];
        if 'a' <= c && c <= 'z' {
            crate::text::push_char(&mut out, c);
        }
        i = i + 1;
    }
    assert(v@.take(v.len() as int) =~= v@);
    out
}

/// The input arguments for the audio tracks: "-i" and the path of each.
pub open spec fn audio_inputs(tracks: Seq<AudioTrack>, n: nat) -> Seq<Seq<char>>
    decreases n,
{
    if n == 0 {
        seq![]
    } else {
        audio_inputs(tracks, (n - 1) as nat) + seq!["-i"@, tracks[n - 1].path@]
    }
}

/// The stream mappings for the audio tracks: input `k + 1` is the `k`-th audio stream, tagged
/// with its sanitized language.
pub open spec fn audio_mappings(tracks: Seq<AudioTrack>, n: nat) -> Seq<Seq<char>>
    decreases n,
{
    if n == 0 {
        seq![]
    } else {
        let k = (n - 1) as nat;
        audio_mappings(tracks, k) + seq![
            "-map"@,
            decimal(k + 1) + ":a"@,
            "-metadata:s:a:"@ + decimal(k),
            "language="@ + sanitized_language(tracks[k as int].language@),
        ]
    }
}

/// The arguments of ffmpeg to mux the video file and the audio tracks into `output` with the
/// muxer `muxer`, copying the streams: the video and each audio track are inputs (each preceded
/// by a seek when it starts later than the other stream), the video and the audio streams are
/// mapped, and each audio stream is tagged with its language.
pub open spec fn spec_ffmpeg_mux_args(
    video: Seq<char>,
    video_seek: Option<Seq<char>>,
    tracks: Seq<AudioTrack>,
    audio_seek: Option<Seq<char>>,
    muxer: Seq<char>,
    output: Seq<char>,
) -> Seq<Seq<char>> {
    let n = tracks.len();
    let head = seq!["-hide_banner"@, "-nostats"@, "-loglevel"@, "error"@, "-y"@, "-nostdin"@];
    let vseek = match video_seek {
        Some(v) => seq!["-ss"@, v],
        None => seq![],
    };
    let aseek = match audio_seek {
        Some(a) => seq!["-ss"@, a],
        None => seq![],
    };
    head + vseek + seq!["-i"@, video] + aseek + audio_inputs(tracks, n) + seq!["-map"@, "0:v"@]
        + audio_mappings(tracks, n) + seq![
        "-c:v"@,
        "copy"@,
        "-c:a"@,
        "copy"@,
        "-movflags"@,
        "faststart"@,
        "-preset"@,
        "veryfast"@,
        "-f"@,
        muxer,
        output,
    ]
}

fn push_args(args: &mut Vec<String>, items: &[&str])
    ensures
        views(final(args)@) == views(old(args)@) + str_views(items@),
{
    let mut i: usize = 0;
    let ghost start = views(args@);
    while i < items.len()
        invariant
            i <= items.len(),
            views(args@) == start + str_views(items@).take(i as int),
        decreases items.len() - i,
    {
        push_msg(args, items[i].to_owned());
        assert(views(args@) =~= start + str_views(items@).take(i + 1));
        i = i + 1;
    }
    assert(str_views(items@).take(items.len() as int) =~= str_views(items@));
}

/// The ffmpeg arguments that mux the video at `video` with the audio tracks into `output`
/// using `muxer`, copying the streams; `video_seek` and `audio_seek` are the offsets (in
/// seconds, as ffmpeg reads them) by which the later-starting stream is delayed, if any.
pub fn ffmpeg_mux_args(
    video: &str,
    video_seek: &Option<String>,
    audio_tracks: &Vec<AudioTrack>,
    audio_seek: &Option<String>,
    muxer: &str,
    output: &str,
) -> (r: Vec<String>)
    ensures
        views(r@) == spec_ffmpeg_mux_args(
            video@,
            crate::text::opt_view(*video_seek),
            audio_tracks@,
            crate::text::opt_view(*audio_seek),
            muxer@,
            output@,
        ),
{
    let ghost tracks = audio_tracks@;
    let mut args: Vec<String> = Vec::new();
    push_args(&mut args, &["-hide_banner", "-nostats", "-loglevel", "error", "-y", "-nostdin"]);
    if let Some(v) = video_seek {
        push_msg(&mut args, "-ss".to_owned());
        push_msg(&mut args, v.clone());
    }
    push_msg(&mut args, "-i".to_owned());
    push_msg(&mut args, video.to_owned());
    if let Some(a) = audio_seek {
        push_msg(&mut args, "-ss".to_owned());
        push_msg(&mut args, a.clone());
    }
    let ghost before_inputs = views(args@);
    let mut i: usize = 0;
    while i < audio_tracks.len()
        invariant
            tracks == audio_tracks@,
            i <= audio_tracks.len(),
            views(args@) == before_inputs + audio_inputs(tracks, i as nat),
        decreases audio_tracks.len() - i,
    {
        push_msg(&mut args, "-i".to_owned());
        push_msg(&mut args, audio_tracks[i].path.clone());
        i = i + 1;
    }
    push_msg(&mut args, "-map".to_owned());
    push_msg(&mut args, "0:v".to_owned());
    let ghost before_maps = views(args@);
    let mut i: usize = 0;
    while i < audio_tracks.len()
        invariant
            tracks == audio_tracks@,
            i <= audio_tracks.len(),
            views(args@) == before_maps + audio_mappings(tracks, i as nat),
        decreases audio_tracks.len() - i,
    {
        proof {
            reveal_strlit("");
        }
        push_msg(&mut args, "-map".to_owned());
        push_msg(&mut args, numbered("", i + 1, ":a"));
        push_msg(&mut args, numbered("-metadata:s:a:", i, ""));
        let mut lang = "language=".to_owned();
        let s = sanitize_language(audio_tracks[i].language.as_str());
        push_str(&mut lang, s.as_str());
        push_msg(&mut args, lang);
        i = i + 1;
    }
    push_args(&mut args, &["-c:v", "copy", "-c:a", "copy", "-movflags", "faststart", "-preset", "veryfast", "-f"]);
    push_msg(&mut args, muxer.to_owned());
    push_msg(&mut args, output.to_owned());
    args
}

/// The arguments without those that ask for the streams to be copied ("-c:v", "copy", "-c:a"),
/// so that ffmpeg reencodes the streams when the container needs it.
pub open spec fn spec_without_stream_copy(args: Seq<Seq<char>>) -> Seq<Seq<char>> {
    args.filter(|a: Seq<char>| !(a == "-c:v"@ || a == "copy"@ || a == "-c:a"@))
}

/// The arguments without the request to copy the streams.
pub fn without_stream_copy(args: &Vec<String>) -> (r: Vec<String>)
    ensures
        views(r@) == spec_without_stream_copy(views(args@)),
{
    let ghost p = |a: Seq<char>| !(a == "-c:v"@ || a == "copy"@ || a == "-c:a"@);
    let ghost all = views(args@);
    let mut out: Vec<String> = Vec::new();
    let mut i: usize = 0;
    proof {
        reveal(Seq::filter);
    }
    assert(all.take(0).filter(p) =~= seq![]);
    assert(views(out@) =~= seq![]);
    while i < args.len()
        invariant
            i <= args.len(),
            all == views(args@),
            p == (|a: Seq<char>| !(a == "-c:v"@ || a == "copy"@ || a == "-c:a"@)),
            views(out@) == all.take(i as int).filter(p),
        decreases args.len() - i,
    {
        proof {
            reveal(Seq::filter);
            assert(all.take(i + 1).drop_last() =~= all.take(i as int));
            assert(all[i as int] == args@[i as int]@);
        }
        let a = args[i].as_str();
        if !(str_eq(a, "-c:v") || str_eq(a, "copy") || str_eq(a, "-c:a")) {
            push_msg(&mut out, args[i].clone());
        }
        i = i + 1;
    }
    assert(all.take(args.len() as int) =~= all);
    out
}

/// The arguments of mp4decrypt: "--key" and "KID:KEY" for each key, then the input and output
/// paths.
pub open spec fn key_args(keys: Seq<(String, String)>, n: nat) -> Seq<Seq<char>>
    decreases n,
{
    if n == 0 {
        seq![]
    } else {
        key_args(keys, (n - 1) as nat) + seq!["--key"@, keys[n - 1].0@ + ":"@ + keys[n - 1].1@]
    }
}

/// The arguments of mp4decrypt that decrypt `inpath` into `outpath` with the given (KID, key)
/// pairs, in the order given.
pub fn mp4decrypt_args(keys: &Vec<(String, String)>, inpath: &str, outpath: &str) -> (r: Vec<String>)
    ensures
        views(r@) == key_args(keys@, keys.len() as nat) + seq![inpath@, outpath@],
{
    let mut args: Vec<String> = Vec::new();
    let mut i: usize = 0;
    assert(views(args@) =~= key_args(keys@, 0));
    while i < keys.len()
        invariant
            i <= keys.len(),
            views(args@) == key_args(keys@, i as nat),
        decreases keys.len() - i,
    {
        push_msg(&mut args, "--key".to_owned());
        let mut kv = keys[i].0.clone();
        push_str(&mut kv, ":");
        push_str(&mut kv, keys[i].1.as_str());
        push_msg(&mut args, kv);
        i = i + 1;
    }
    push_msg(&mut args, inpath.to_owned());
    push_msg(&mut args, outpath.to_owned());
    args
}

// ---------------------------------------------------------------------------------------------
// Running the external tools in turn

/// What to do next while trying helper applications in order of preference.
#[derive(Debug, Clone)]
pub enum HelperStep<T> {
    /// Run the helper named at this position of the preference list.
    Run(usize, T),
    /// Finished successfully.
    Succeeded,
    /// Every helper failed.
    Failed(DashMpdError),
}

pub open spec fn all_muxers_failed_msg() -> Seq<char> {
    "all muxers failed"@
}

/// The next step of muxing with the muxers of a preference list, tried in turn until one
/// succeeds. `from` is the position after the last muxer run (0 at first), `last_succeeded`
/// whether that run succeeded (false at first). After a success muxing is done; otherwise the
/// next muxer named at or after `from` is run (unknown names are skipped); when none is left,
/// muxing fails with "all muxers failed".
pub fn next_mux_step(prefs: &Vec<String>, from: usize, last_succeeded: bool, with_vlc: bool) -> (r: HelperStep<Muxer>)
    ensures
        last_succeeded ==> r is Succeeded,
        !last_succeeded ==> match r {
            HelperStep::Run(j, m) => {
                &&& from <= j < prefs.len()
                &&& muxer_named(prefs@[j as int]@, with_vlc) == Some(m)
                &&& forall|k: int| from <= k < j ==> muxer_named(#[trigger] prefs@[k]@, with_vlc) is None
            },
            HelperStep::Succeeded => false,
            HelperStep::Failed(e) => {
                &&& e matches DashMpdError::Muxing(m) && m@ == all_muxers_failed_msg()
                &&& forall|j: int| from <= j < prefs.len() ==> muxer_named(#[trigger] prefs@[j]@, with_vlc) is None
            },
        },
{
    if last_succeeded {
        return HelperStep::Succeeded;
    }
    match next_muxer(prefs, from, with_vlc) {
        Some((j, m)) => HelperStep::Run(j, m),
        None => HelperStep::Failed(DashMpdError::Muxing("all muxers failed".to_owned())),
    }
}

pub open spec fn all_concat_helpers_failed_msg() -> Seq<char> {
    "all concat helpers failed"@
}

/// The next step of concatenating `n_paths` files with the helpers of a preference list, tried
/// in turn until one succeeds: fewer than two files need no concatenation and no helper is run;
/// otherwise as for muxing (`from` is the position after the last helper run, `last_succeeded`
/// its outcome), failing with "all concat helpers failed" when no helper is left.
pub fn next_concat_step(n_paths: usize, prefs: &Vec<String>, from: usize, last_succeeded: bool) -> (r: HelperStep<ConcatHelper>)
    ensures
        (n_paths < 2 || last_succeeded) ==> r is Succeeded,
        !(n_paths < 2 || last_succeeded) ==> match r {
            HelperStep::Run(j, h) => {
                &&& from <= j < prefs.len()
                &&& concat_helper_named(prefs@[j as int]@) == Some(h)
                &&& forall|k: int| from <= k < j ==> concat_helper_named(#[trigger] prefs@[k]@) is None
            },
            HelperStep::Succeeded => false,
            HelperStep::Failed(e) => {
                &&& e matches DashMpdError::Muxing(m) && m@ == all_concat_helpers_failed_msg()
                &&& forall|j: int| from <= j < prefs.len() ==> concat_helper_named(#[trigger] prefs@[j]@) is None
            },
        },
{
    if n_paths < 2 || last_succeeded {
        return HelperStep::Succeeded;
    }
    match next_concat_helper(prefs, from) {
        Some((j, h)) => HelperStep::Run(j, h),
        None => HelperStep::Failed(DashMpdError::Muxing("all concat helpers failed".to_owned())),
    }
}

/// The outcome of trying the muxers of a preference list in turn with `next_mux_step`, when the
/// muxer named at position `j` would succeed exactly when `succeeded[j]`: the first muxer named in
/// the list that succeeds, with its position; "all muxers failed" when no named muxer succeeds.
pub fn mux_outcome(prefs: &Vec<String>, with_vlc: bool, succeeded: &Vec<bool>) -> (r: Result<(usize, Muxer), DashMpdError>)
    requires
        succeeded.len() == prefs.len(),
    ensures
        match r {
            Ok((j, m)) => {
                &&& j < prefs.len()
                &&& muxer_named(prefs@[j as int]@, with_vlc) == Some(m)
                &&& succeeded@[j as int]
                &&& forall|k: int| 0 <= k < j ==> muxer_named(#[trigger] prefs@[k]@, with_vlc) is None || !succeeded@[k]
            },
            Err(e) => {
                &&& e matches DashMpdError::Muxing(msg) && msg@ == all_muxers_failed_msg()
                &&& forall|k: int| 0 <= k < prefs.len() ==> muxer_named(#[trigger] prefs@[k]@, with_vlc) is None || !succeeded@[k]
            },
        },
{
    let mut from: usize = 0;
    let mut last: Option<(usize, Muxer)> = None;
    loop
        invariant
            succeeded.len() == prefs.len(),
            from <= prefs.len(),
            forall|k: int| 0 <= k < from ==> muxer_named(#[trigger] prefs@[k]@, with_vlc) is None || !succeeded@[k]
                || (last matches Some((j, _)) && k == j),
            match last {
                None => true,
                Some((j, m)) => {
                    &&& j + 1 == from
                    &&& muxer_named(prefs@[j as int]@, with_vlc) == Some(m)
                    &&& forall|k: int| 0 <= k < j ==> muxer_named(#[trigger] prefs@[k]@, with_vlc) is None || !succeeded@[k]
                },
            },
        decreases prefs.len() - from,
    {
        let last_succeeded = match last {
            Some((j, _)) => succeeded[j],
            None => false,
        };
        match next_mux_step(prefs, from, last_succeeded, with_vlc) {
            HelperStep::Run(j, m) => {
                if let Some((lj, _)) = last {
                    assert(!succeeded@[lj as int]);
                }
                last = Some((j, m));
                from = j + 1;
            },
            HelperStep::Succeeded => {
                return match last {
                    Some(x) => Ok(x),
                    None => Err(DashMpdError::Muxing("all muxers failed".to_owned())),
                };
            },
            HelperStep::Failed(e) => {
                if let Some((lj, _)) = last {
                    assert(!succeeded@[lj as int]);
                }
                return Err(e);
            },
        }
    }
}

/// The outcome of concatenating `n_paths` files with the helpers of a preference list tried in
/// turn with `next_concat_step`, when the helper named at position `j` would succeed exactly when
/// `succeeded[j]`: with fewer than two files, success with no helper run; else the first helper
/// named in the list that succeeds, with its position; "all concat helpers failed" when no named
/// helper succeeds.
pub fn concat_outcome(n_paths: usize, prefs: &Vec<String>, succeeded: &Vec<bool>) -> (r: Result<
    Option<(usize, ConcatHelper)>,
    DashMpdError,
>)
    requires
        succeeded.len() == prefs.len(),
    ensures
        n_paths < 2 ==> r == Ok::<Option<(usize, ConcatHelper)>, DashMpdError>(None),
        n_paths >= 2 ==> match r {
            Ok(Some((j, h))) => {
                &&& j < prefs.len()
                &&& concat_helper_named(prefs@[j as int]@) == Some(h)
                &&& succeeded@[j as int]
                &&& forall|k: int| 0 <= k < j ==> concat_helper_named(#[trigger] prefs@[k]@) is None || !succeeded@[k]
            },
            Ok(None) => false,
            Err(e) => {
                &&& e matches DashMpdError::Muxing(msg) && msg@ == all_concat_helpers_failed_msg()
                &&& forall|k: int| 0 <= k < prefs.len() ==> concat_helper_named(#[trigger] prefs@[k]@) is None || !succeeded@[k]
            },
        },
{
    let mut from: usize = 0;
    let mut last: Option<(usize, ConcatHelper)> = None;
    loop
        invariant
            succeeded.len() == prefs.len(),
            from <= prefs.len(),
            n_paths < 2 ==> last is None,
            forall|k: int| 0 <= k < from ==> concat_helper_named(#[trigger] prefs@[k]@) is None || !succeeded@[k]
                || (last matches Some((j, _)) && k == j),
            match last {
                None => true,
                Some((j, h)) => {
                    &&& j + 1 == from
                    &&& concat_helper_named(prefs@[j as int]@) == Some(h)
                    &&& forall|k: int| 0 <= k < j ==> concat_helper_named(#[trigger] prefs@[k]@) is None || !succeeded@[k]
                },
            },
        decreases prefs.len() - from,
    {
        let last_succeeded = match last {
            Some((j, _)) => succeeded[j],
            None => false,
        };
        match next_concat_step(n_paths, prefs, from, last_succeeded) {
            HelperStep::Run(j, h) => {
                if let Some((lj, _)) = last {
                    assert(!succeeded@[lj as int]);
                }
                last = Some((j, h));
                from = j + 1;
            },
            HelperStep::Succeeded => {
                return Ok(last);
            },
            HelperStep::Failed(e) => {
                if let Some((lj, _)) = last {
                    assert(!succeeded@[lj as int]);
                }
                return Err(e);
            },
        }
    }
}

/// What to do next while muxing with ffmpeg.
#[derive(Debug, Clone)]
pub enum FfmpegMuxStep {
    /// Run ffmpeg copying the streams (the arguments of `ffmpeg_mux_args`).
    RunCopying,
    /// Run ffmpeg again, letting it reencode the streams (the same arguments through
    /// `without_stream_copy`), since copying is not possible into some containers.
    RunReencoding,
    /// Done: copy ffmpeg's output to the output file.
    Succeeded,
    /// Both runs failed.
    Failed(DashMpdError),
}

pub open spec fn running_ffmpeg_msg() -> Seq<char> {
    "running ffmpeg"@
}

/// The next step of muxing audio and video with ffmpeg, after `runs` runs of ffmpeg of which the
/// last succeeded or not: first a run that copies the streams; if it fails, a run that may
/// reencode them; if that fails too, muxing fails with "running ffmpeg".
pub fn ffmpeg_mux_step(runs: usize, last_succeeded: bool) -> (r: FfmpegMuxStep)
    ensures
        runs == 0 ==> r is RunCopying,
        runs > 0 && last_succeeded ==> r is Succeeded,
        runs == 1 && !last_succeeded ==> r is RunReencoding,
        runs > 1 && !last_succeeded ==> (r matches FfmpegMuxStep::Failed(DashMpdError::Muxing(m)) && m@
            == running_ffmpeg_msg()),
{
    if runs == 0 {
        FfmpegMuxStep::RunCopying
    } else if last_succeeded {
        FfmpegMuxStep::Succeeded
    } else if runs == 1 {
        FfmpegMuxStep::RunReencoding
    } else {
        FfmpegMuxStep::Failed(DashMpdError::Muxing("running ffmpeg".to_owned()))
    }
}

pub open spec fn no_audio_tracks_msg() -> Seq<char> {
    "no audio tracks"@
}

/// The ffmpeg arguments that mux the video at `video` with several audio tracks into `output`
/// with `muxer`, copying the streams and tagging each audio stream with its language; with no
/// audio track there is nothing to mux, an error.
pub fn multiaudio_ffmpeg_args(video: &str, audio_tracks: &Vec<AudioTrack>, muxer: &str, output: &str) -> (r: Result<
    Vec<String>,
    DashMpdError,
>)
    ensures
        audio_tracks.len() == 0 ==> (r matches Err(DashMpdError::Muxing(m)) && m@ == no_audio_tracks_msg()),
        audio_tracks.len() > 0 ==> (r matches Ok(a) && views(a@) == spec_ffmpeg_mux_args(
            video@,
            None,
            audio_tracks@,
            None,
            muxer@,
            output@,
        )),
{
    if audio_tracks.len() == 0 {
        return Err(DashMpdError::Muxing("no audio tracks".to_owned()));
    }
    let a = ffmpeg_mux_args(video, &None, audio_tracks, &None, muxer, output);
    Ok(a)
}

} // verus!
