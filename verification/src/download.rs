//! The decisions taken while downloading a manifest's content: whether a live manifest is
//! accepted, the base URL of the manifest and of each Period, which Periods are downloaded, what
//! becomes of the streams fetched for a Period, and whether the manifest uses DRM.

use vstd::prelude::*;
use crate::DashMpdError;
use crate::duration::XsDuration;
use crate::mpd::{MPD, Period, BaseURL, ProgramInformation};
use crate::planning::{spec_mpd_is_dynamic, mpd_is_dynamic};
use crate::urls::{spec_merge_baseurls, merge_baseurls, url_parse, parse_url, UrlParseOutcome};
use crate::addressing::{first_base, merge_opt, reports, PlanError};
use crate::classify::SubtitleType;
use crate::text::{opt_view, str_eq, push_str, push_chars};
use crate::digits::{decimal, decimal_chars};
use crate::fragments::MediaFragment;
use crate::fetch::DashDownloader;

verus! {

// ---------------------------------------------------------------------------------------------
// Live manifests and base URLs

pub open spec fn live_refused_msg() -> Seq<char> {
    "Don't know how to download dynamic MPD"@
}

/// A live (dynamic) manifest is downloaded only when live streams are allowed.
pub fn check_live_allowed(mpd: &MPD, allow_live_streams: bool) -> (r: Result<(), DashMpdError>)
    ensures
        r is Err <==> spec_mpd_is_dynamic(*mpd) && !allow_live_streams,
        r matches Err(e) ==> reports(e, PlanError::Unhandled(live_refused_msg())),
{
    if mpd_is_dynamic(mpd) && !allow_live_streams {
        Err(DashMpdError::UnhandledMediaStream("Don't know how to download dynamic MPD".to_owned()))
    } else {
        Ok(())
    }
}

/// The base URL of the manifest's content: the URL the manifest was fetched from, with the
/// manifest's first BaseURL merged into it; a base URL given by the user replaces it (merged into
/// the manifest's URL), though a manifest BaseURL that cannot be merged is still an error.
pub open spec fn spec_toplevel_base_url(
    redirected: Seq<char>,
    mpd_base: Seq<BaseURL>,
    user_base: Option<Seq<char>>,
) -> Result<Seq<char>, Seq<char>> {
    match merge_opt(redirected, first_base(mpd_base)) {
        Err(e) => Err(e),
        Ok(b) => match user_base {
            None => Ok(b),
            Some(u) => spec_merge_baseurls(redirected, u),
        },
    }
}

/// Computes `spec_toplevel_base_url` for the manifest `mpd` fetched from `redirected_url`.
pub fn toplevel_base_url(redirected_url: &str, mpd: &MPD, user_base: &Option<String>) -> (r: Result<
    String,
    DashMpdError,
>)
    ensures
        match spec_toplevel_base_url(redirected_url@, mpd.base_url@, opt_view(*user_base)) {
            Ok(u) => r matches Ok(v) && v@ == u,
            Err(e) => r matches Err(x) && reports(x, PlanError::Parsing(e)),
        },
{
    let b = if mpd.base_url.len() > 0 {
        match merge_baseurls(redirected_url, mpd.base_url[0].base.as_str()) {
            Ok(u) => u,
            Err(x) => return Err(x),
        }
    } else {
        redirected_url.to_owned()
    };
    match user_base {
        None => Ok(b),
        Some(u) => merge_baseurls(redirected_url, u.as_str()),
    }
}

/// The base URL of a Period: the manifest's base URL with the Period's first BaseURL merged
/// into it.
pub fn period_base_url(base_url: &str, period: &Period) -> (r: Result<String, DashMpdError>)
    ensures
        match merge_opt(base_url@, first_base(period.BaseURL@)) {
            Ok(u) => r matches Ok(v) && v@ == u,
            Err(e) => r matches Err(x) && reports(x, PlanError::Parsing(e)),
        },
{
    if period.BaseURL.len() > 0 {
        merge_baseurls(base_url, period.BaseURL[0].base.as_str())
    } else {
        Ok(base_url.to_owned())
    }
}

// ---------------------------------------------------------------------------------------------
// The Periods to download

/// `a` is shorter than `b`.
pub open spec fn shorter(a: XsDuration, b: XsDuration) -> bool {
    a.secs < b.secs || (a.secs == b.secs && a.nanos < b.nanos)
}

/// A Period is skipped when a minimum duration is requested and the Period has a duration
/// shorter than it.
pub open spec fn spec_period_too_short(minimum: Option<XsDuration>, duration: Option<XsDuration>) -> bool {
    match (minimum, duration) {
        (Some(m), Some(d)) => shorter(d, m),
        _ => false,
    }
}

/// Whether a Period of the given duration is skipped for being shorter than `minimum`.
pub fn period_too_short(minimum: Option<XsDuration>, duration: Option<XsDuration>) -> (r: bool)
    ensures
        r == spec_period_too_short(minimum, duration),
{
    match (minimum, duration) {
        (Some(m), Some(d)) => d.secs < m.secs || (d.secs == m.secs && d.nanos < m.nanos),
        _ => false,
    }
}

/// The numbers (counted from 1) of the Periods that are downloaded, in order.
pub open spec fn kept_periods(periods: Seq<Period>, minimum: Option<XsDuration>) -> Seq<u8>
    decreases periods.len(),
{
    if periods.len() == 0 {
        seq![]
    } else {
        let before = kept_periods(periods.drop_last(), minimum);
        if spec_period_too_short(minimum, periods.last().duration) {
            before
        } else {
            before.push(periods.len() as u8)
        }
    }
}

/// The numbers of the Periods to download: those not shorter than the requested minimum
/// duration. Periods are numbered by a `u8`, so there are at most 255 of them.
pub fn periods_to_download(periods: &Vec<Period>, minimum: Option<XsDuration>) -> (r: Vec<u8>)
    requires
        periods.len() <= 255,
    ensures
        r@ == kept_periods(periods@, minimum),
{
    let mut kept: Vec<u8> = Vec::new();
    let mut i: usize = 0;
    while i < periods.len()
        invariant
            i <= periods.len() <= 255,
            kept@ == kept_periods(periods@.take(i as int), minimum),
        decreases periods.len() - i,
    {
        assert(periods@.take(i + 1).drop_last() =~= periods@.take(i as int));
        if !period_too_short(minimum, periods[i].duration) {
            kept.push((i + 1) as u8);
        }
        i = i + 1;
    }
    assert(periods@.take(periods.len() as int) =~= periods@);
    kept
}

/// The Periods kept are numbered in increasing order, and none is too short.
pub proof fn lemma_kept_periods(periods: Seq<Period>, minimum: Option<XsDuration>)
    requires
        periods.len() <= 255,
    ensures
        forall|i: int, j: int|
            0 <= i < j < kept_periods(periods, minimum).len() ==> kept_periods(periods, minimum)[i]
                < kept_periods(periods, minimum)[j],
        forall|i: int|
            0 <= i < kept_periods(periods, minimum).len() ==> {
                let k = #[trigger] kept_periods(periods, minimum)[i];
                &&& 1 <= k <= periods.len()
                &&& !spec_period_too_short(minimum, periods[k - 1].duration)
            },
    decreases periods.len(),
{
    if periods.len() > 0 {
        let p = periods.drop_last();
        lemma_kept_periods(p, minimum);
        let before = kept_periods(p, minimum);
        assert forall|i: int| 0 <= i < before.len() implies {
            let k = #[trigger] before[i];
            &&& 1 <= k <= periods.len()
            &&& !spec_period_too_short(minimum, periods[k - 1].duration)
        } by {
            let k = before[i];
            assert(periods[k - 1] == p[k - 1]);
        }
    }
}

// ---------------------------------------------------------------------------------------------
// The output of a Period

/// What is made of the streams fetched for a Period.
#[derive(Debug, Clone, Copy, PartialEq, Eq, Structural)]
pub enum PeriodOutput {
    /// Mux the audio and the video streams into the output file.
    MuxAudioVideo,
    /// Copy the audio stream into the output container.
    CopyAudio,
    /// Copy the video stream into the output container.
    CopyVideo,
    /// Nothing was requested that could be produced.
    Nothing,
}

pub open spec fn no_stream_msg(fetch_audio: bool, fetch_video: bool) -> Seq<char> {
    if fetch_audio && fetch_video {
        "no audio or video streams found"@
    } else if fetch_video {
        "no video streams found"@
    } else {
        "no audio streams found"@
    }
}

/// The output of a Period from the streams that were fetched (`have_audio`, `have_video`): both
/// are muxed, one alone is copied; with neither, requesting one is an error.
pub open spec fn spec_period_output(have_audio: bool, have_video: bool, fetch_audio: bool, fetch_video: bool) -> Result<
    PeriodOutput,
    Seq<char>,
> {
    if have_audio && have_video {
        Ok(PeriodOutput::MuxAudioVideo)
    } else if have_audio {
        Ok(PeriodOutput::CopyAudio)
    } else if have_video {
        Ok(PeriodOutput::CopyVideo)
    } else if fetch_audio || fetch_video {
        Err(no_stream_msg(fetch_audio, fetch_video))
    } else {
        Ok(PeriodOutput::Nothing)
    }
}

/// Decides the output of a Period (see `spec_period_output`).
pub fn period_output(have_audio: bool, have_video: bool, fetch_audio: bool, fetch_video: bool) -> (r: Result<
    PeriodOutput,
    DashMpdError,
>)
    ensures
        match spec_period_output(have_audio, have_video, fetch_audio, fetch_video) {
            Ok(o) => r == Ok::<PeriodOutput, DashMpdError>(o),
            Err(m) => r matches Err(x) && reports(x, PlanError::Unhandled(m)),
        },
{
    if have_audio && have_video {
        Ok(PeriodOutput::MuxAudioVideo)
    } else if have_audio {
        Ok(PeriodOutput::CopyAudio)
    } else if have_video {
        Ok(PeriodOutput::CopyVideo)
    } else if fetch_video && fetch_audio {
        Err(DashMpdError::UnhandledMediaStream("no audio or video streams found".to_owned()))
    } else if fetch_video {
        Err(DashMpdError::UnhandledMediaStream("no video streams found".to_owned()))
    } else if fetch_audio {
        Err(DashMpdError::UnhandledMediaStream("no audio streams found".to_owned()))
    } else {
        Ok(PeriodOutput::Nothing)
    }
}

/// How STPP subtitles are merged into the muxed output of a Period.
#[derive(Debug, Clone, Copy, PartialEq, Eq, Structural)]
pub enum SubtitleMerge {
    /// Not merged.
    NoMerge,
    /// With MP4Box, into an MP4 container.
    Mp4Box,
    /// With mkvmerge, into a Matroska or WebM container (from SRT subtitles, when they exist).
    Mkvmerge,
}

/// The container type of an output file: its extension, "mp4" when it has none.
pub open spec fn container_type(extension: Option<Seq<char>>) -> Seq<char> {
    match extension {
        Some(e) => e,
        None => "mp4"@,
    }
}

/// STPP subtitles among the formats are merged with MP4Box into an MP4 container and with
/// mkvmerge into a Matroska or WebM one.
pub open spec fn spec_subtitle_merge(formats: Seq<SubtitleType>, extension: Option<Seq<char>>) -> SubtitleMerge {
    let c = container_type(extension);
    if !formats.contains(SubtitleType::Stpp) {
        SubtitleMerge::NoMerge
    } else if c == "mp4"@ {
        SubtitleMerge::Mp4Box
    } else if c == "mkv"@ || c == "webm"@ {
        SubtitleMerge::Mkvmerge
    } else {
        SubtitleMerge::NoMerge
    }
}

/// Decides how the subtitles of a Period are merged into its muxed output file, whose extension
/// is `extension` (see `spec_subtitle_merge`).
pub fn subtitle_merge(formats: &Vec<SubtitleType>, extension: &Option<String>) -> (r: SubtitleMerge)
    ensures
        r == spec_subtitle_merge(formats@, opt_view(*extension)),
{
    let mut has_stpp = false;
    let mut i: usize = 0;
    while i < formats.len()
        invariant
            i <= formats.len(),
            has_stpp == formats@.take(i as int).contains(SubtitleType::Stpp),
        decreases formats.len() - i,
    {
        proof {
            let before = formats@.take(i as int);
            let after = formats@.take(i + 1);
            assert(after =~= before.push(formats@[i as int]));
            if formats@[i as int] == SubtitleType::Stpp {
                assert(after[i as int] == SubtitleType::Stpp);
            } else if after.contains(SubtitleType::Stpp) {
                let k = choose|k: int| 0 <= k < after.len() && after[k] == SubtitleType::Stpp;
                assert(before[k] == SubtitleType::Stpp);
            }
            if before.contains(SubtitleType::Stpp) {
                let k = choose|k: int| 0 <= k < before.len() && before[k] == SubtitleType::Stpp;
                assert(after[k] == SubtitleType::Stpp);
            }
        }
        if formats[i] == SubtitleType::Stpp {
            has_stpp = true;
        }
        i = i + 1;
    }
    assert(formats@.take(formats.len() as int) =~= formats@);
    if !has_stpp {
        return SubtitleMerge::NoMerge;
    }
    let c = match extension {
        Some(e) => e.as_str(),
        None => "mp4",
    };
    if str_eq(c, "mp4") {
        SubtitleMerge::Mp4Box
    } else if str_eq(c, "mkv") || str_eq(c, "webm") {
        SubtitleMerge::Mkvmerge
    } else {
        SubtitleMerge::NoMerge
    }
}

/// What becomes of the output files of the Periods once they are all written.
#[derive(Debug, Clone, Copy, PartialEq, Eq, Structural)]
pub enum OutputsPlan {
    /// No Period produced a file.
    NoOutput,
    /// A single Period was written directly to the requested output file.
    Single,
    /// The files of the Periods are concatenated into the first one.
    Concatenate,
    /// Each Period stays in a file of its own.
    Separate,
}

/// The files of several Periods are concatenated when concatenation is asked for and their
/// video streams can be concatenated; otherwise they are kept separate.
pub fn outputs_plan(count: usize, concatenate_periods: bool, concatenable: bool) -> (r: OutputsPlan)
    ensures
        r == (if count == 0 {
            OutputsPlan::NoOutput
        } else if count == 1 {
            OutputsPlan::Single
        } else if concatenate_periods && concatenable {
            OutputsPlan::Concatenate
        } else {
            OutputsPlan::Separate
        }),
{
    if count == 0 {
        OutputsPlan::NoOutput
    } else if count == 1 {
        OutputsPlan::Single
    } else if concatenate_periods && concatenable {
        OutputsPlan::Concatenate
    } else {
        OutputsPlan::Separate
    }
}

// ---------------------------------------------------------------------------------------------
// Content protection

/// Some AdaptationSet of some Period of the manifest, or one of its Representations, has a
/// ContentProtection element.
pub open spec fn spec_uses_content_protection(mpd: MPD) -> bool {
    exists|i: int, j: int|
        0 <= i < mpd.periods@.len() && 0 <= j < mpd.periods@[i].adaptations@.len() && ({
            let a = #[trigger] mpd.periods@[i].adaptations@[j];
            a.ContentProtection@.len() > 0 || exists|k: int|
                0 <= k < a.representations@.len() && (#[trigger] a.representations@[k]).ContentProtection@.len()
                    > 0
        })
}

/// Whether the manifest uses ContentProtection (DRM) on some AdaptationSet or Representation.
pub fn uses_content_protection(mpd: &MPD) -> (r: bool)
    ensures
        r == spec_uses_content_protection(*mpd),
{
    let mut i: usize = 0;
    while i < mpd.periods.len()
        invariant
            i <= mpd.periods.len(),
            forall|pi: int, j: int|
                0 <= pi < i && 0 <= j < mpd.periods@[pi].adaptations@.len() ==> {
                    let a = #[trigger] mpd.periods@[pi].adaptations@[j];
                    a.ContentProtection@.len() == 0 && forall|k: int|
                        0 <= k < a.representations@.len() ==> (#[trigger] a.representations@[k]).ContentProtection@.len()
                            == 0
                },
        decreases mpd.periods.len() - i,
    {
        let p = &mpd.periods[i];
        let mut j: usize = 0;
        while j < p.adaptations.len()
            invariant
                i < mpd.periods.len(),
                *p == mpd.periods@[i as int],
                j <= p.adaptations.len(),
                forall|pi: int, jj: int|
                    0 <= pi < i && 0 <= jj < mpd.periods@[pi].adaptations@.len() ==> {
                        let a = #[trigger] mpd.periods@[pi].adaptations@[jj];
                        a.ContentProtection@.len() == 0 && forall|k: int|
                            0 <= k < a.representations@.len() ==> (#[trigger] a.representations@[k]).ContentProtection@.len()
                                == 0
                    },
                forall|jj: int|
                    0 <= jj < j ==> {
                        let a = #[trigger] p.adaptations@[jj];
                        a.ContentProtection@.len() == 0 && forall|k: int|
                            0 <= k < a.representations@.len() ==> (#[trigger] a.representations@[k]).ContentProtection@.len()
                                == 0
                    },
            decreases p.adaptations.len() - j,
        {
            let a = &p.adaptations[j];
            if a.ContentProtection.len() > 0 {
                assert(mpd.periods@[i as int].adaptations@[j as int].ContentProtection@.len() > 0);
                return true;
            }
            let mut k: usize = 0;
            while k < a.representations.len()
                invariant
                    i < mpd.periods.len(),
                    *p == mpd.periods@[i as int],
                    j < p.adaptations.len(),
                    *a == p.adaptations@[j as int],
                    k <= a.representations.len(),
                    forall|kk: int| 0 <= kk < k ==> (#[trigger] a.representations@[kk]).ContentProtection@.len() == 0,
                decreases a.representations.len() - k,
            {
                if a.representations[k].ContentProtection.len() > 0 {
                    assert(mpd.periods@[i as int].adaptations@[j as int].representations@[k as int].ContentProtection@.len() > 0);
                    return true;
                }
                k = k + 1;
            }
            j = j + 1;
        }
        i = i + 1;
    }
    false
}

// ---------------------------------------------------------------------------------------------
// Fetching fragments

/// What an HTTP request for a media fragment carries.
#[derive(Debug, Clone)]
pub struct FragmentRequest {
    pub url: String,
    /// The Accept header.
    pub accept: String,
    /// The Range header, when the fragment has a byte range.
    pub range: Option<String>,
    /// The Referer header.
    pub referer: String,
    /// HTTP Basic authentication, with a username and a password.
    pub basic_auth: Option<(String, String)>,
    /// HTTP Bearer authentication.
    pub bearer_token: Option<String>,
    pub timeout: Option<XsDuration>,
    /// The Sec-Fetch-Mode header.
    pub fetch_mode: String,
}

/// The request for a fragment of content type `fragment_type` ("audio" or "video"): it accepts
/// that type before any other, asks for the fragment's byte range when it has both ends, names
/// the user's referer (else the manifest's URL), and authenticates with a username and password
/// when both are given, and with a bearer token when one is given. (Its Sec-Fetch-Mode header is
/// always "navigate".)
pub open spec fn spec_fragment_request(
    fragment_type: Seq<char>,
    f: MediaFragment,
    referer: Option<Seq<char>>,
    redirected_url: Seq<char>,
    username: Option<Seq<char>>,
    password: Option<Seq<char>>,
    token: Option<Seq<char>>,
) -> (Seq<char>, Seq<char>, Option<Seq<char>>, Seq<char>, Option<(Seq<char>, Seq<char>)>, Option<Seq<char>>, Option<XsDuration>) {
    (
        f.url@,
        fragment_type + "/*;q=0.9,*/*;q=0.5"@,
        match (f.start_byte, f.end_byte) {
            (Some(s), Some(e)) => Some("bytes="@ + decimal(s as nat) + "-"@ + decimal(e as nat)),
            _ => None,
        },
        match referer {
            Some(r) => r,
            None => redirected_url,
        },
        match (username, password) {
            (Some(u), Some(p)) => Some((u, p)),
            _ => None,
        },
        token,
        f.timeout,
    )
}

pub open spec fn request_view(r: FragmentRequest) -> (Seq<char>, Seq<char>, Option<Seq<char>>, Seq<char>, Option<(Seq<char>, Seq<char>)>, Option<Seq<char>>, Option<XsDuration>) {
    (
        r.url@,
        r.accept@,
        opt_view(r.range),
        r.referer@,
        match r.basic_auth {
            Some((u, p)) => Some((u@, p@)),
            None => None,
        },
        opt_view(r.bearer_token),
        r.timeout,
    )
}

/// The request for a media fragment (see `spec_fragment_request`), with the settings of the
/// download.
pub fn fragment_request(fragment_type: &str, f: &MediaFragment, d: &DashDownloader) -> (r: FragmentRequest)
    ensures
        request_view(r) == spec_fragment_request(
            fragment_type@,
            *f,
            opt_view(d.referer),
            d.redirected_url@,
            opt_view(d.auth_username),
            opt_view(d.auth_password),
            opt_view(d.auth_bearer_token),
        ),
        r.fetch_mode@ == "navigate"@,
{
    let mut accept = fragment_type.to_owned();
    push_str(&mut accept, "/*;q=0.9,*/*;q=0.5");
    let range = match (f.start_byte, f.end_byte) {
        (Some(s), Some(e)) => {
            let mut h = "bytes=".to_owned();
            push_chars(&mut h, decimal_chars(s).as_slice());
            push_str(&mut h, "-");
            push_chars(&mut h, decimal_chars(e).as_slice());
            Some(h)
        },
        _ => None,
    };
    let referer = match &d.referer {
        Some(r) => r.clone(),
        None => d.redirected_url.clone(),
    };
    let basic_auth = match (&d.auth_username, &d.auth_password) {
        (Some(u), Some(p)) => Some((u.clone(), p.clone())),
        _ => None,
    };
    FragmentRequest {
        url: f.url.clone(),
        accept,
        range,
        referer,
        basic_auth,
        bearer_token: d.auth_bearer_token.clone(),
        timeout: f.timeout,
        fetch_mode: "navigate".to_owned(),
    }
}

pub open spec fn too_many_errors_msg() -> Seq<char> {
    "more than max_error_count network errors"@
}

/// Counts a failed fragment download: the download is abandoned once there have been more than
/// `max_error_count` failures.
pub fn count_download_error(errors: u32, max_error_count: u32) -> (r: Result<u32, DashMpdError>)
    requires
        errors < u32::MAX,
    ensures
        errors + 1 > max_error_count ==> (r matches Err(DashMpdError::Network(m)) && m@ == too_many_errors_msg()),
        errors + 1 <= max_error_count ==> r == Ok::<u32, DashMpdError>((errors + 1) as u32),
{
    let n = errors + 1;
    if n > max_error_count {
        Err(DashMpdError::Network("more than max_error_count network errors".to_owned()))
    } else {
        Ok(n)
    }
}

/// An application that decrypts media content.
#[derive(Debug, Clone, Copy, PartialEq, Eq, Structural)]
pub enum DecryptionTool {
    Mp4decrypt,
    Shaka,
    /// Shaka packager run in a container.
    ShakaContainer,
    Mp4Box,
    /// MP4Box run in a container.
    Mp4BoxContainer,
}

/// The decryption application that a preference names.
pub open spec fn decryption_tool_named(name: Seq<char>) -> Option<DecryptionTool> {
    if name == "mp4decrypt"@ {
        Some(DecryptionTool::Mp4decrypt)
    } else if name == "shaka"@ {
        Some(DecryptionTool::Shaka)
    } else if name == "shaka-container"@ {
        Some(DecryptionTool::ShakaContainer)
    } else if name == "mp4box"@ {
        Some(DecryptionTool::Mp4Box)
    } else if name == "mp4box-container"@ {
        Some(DecryptionTool::Mp4BoxContainer)
    } else {
        None
    }
}

/// The decryption application of the user's preference ("mp4decrypt", "shaka",
/// "shaka-container", "mp4box" or "mp4box-container"); another name is an error.
pub fn decryption_tool(preference: &str) -> (r: Result<DecryptionTool, DashMpdError>)
    ensures
        match decryption_tool_named(preference@) {
            Some(t) => r == Ok::<DecryptionTool, DashMpdError>(t),
            None => r matches Err(DashMpdError::Decrypting(m)) && m@ == "unknown decryption application"@,
        },
{
    if str_eq(preference, "mp4decrypt") {
        Ok(DecryptionTool::Mp4decrypt)
    } else if str_eq(preference, "shaka") {
        Ok(DecryptionTool::Shaka)
    } else if str_eq(preference, "shaka-container") {
        Ok(DecryptionTool::ShakaContainer)
    } else if str_eq(preference, "mp4box") {
        Ok(DecryptionTool::Mp4Box)
    } else if str_eq(preference, "mp4box-container") {
        Ok(DecryptionTool::Mp4BoxContainer)
    } else {
        Err(DashMpdError::Decrypting("unknown decryption application".to_owned()))
    }
}

// ---------------------------------------------------------------------------------------------
// Metainformation of the output file

/// The extended attributes of a ProgramInformation element: its title, source and copyright, as
/// Dublin Core title, source and rights, when they have content.
pub open spec fn program_attributes(pi: ProgramInformation) -> Seq<(Seq<char>, Seq<char>)> {
    (match pi.Title {
        Some(t) if t.content is Some => seq![("user.dublincore.title"@, t.content->0@)],
        _ => seq![],
    }) + (match pi.Source {
        Some(t) if t.content is Some => seq![("user.dublincore.source"@, t.content->0@)],
        _ => seq![],
    }) + (match pi.Copyright {
        Some(t) if t.content is Some => seq![("user.dublincore.rights"@, t.content->0@)],
        _ => seq![],
    })
}

pub open spec fn programs_attributes(pis: Seq<ProgramInformation>) -> Seq<(Seq<char>, Seq<char>)>
    decreases pis.len(),
{
    if pis.len() == 0 {
        seq![]
    } else {
        programs_attributes(pis.drop_last()) + program_attributes(pis.last())
    }
}

/// The metainformation recorded on the output file, as extended attributes (name and value),
/// when recording is asked for and audio or video is fetched, and the manifest URL parses: that
/// URL as the origin (unless it holds a username or a password), then the title, source and
/// copyright of each ProgramInformation.
pub open spec fn spec_metainformation(
    record: bool,
    fetches_media: bool,
    mpd_url: Seq<char>,
    pis: Seq<ProgramInformation>,
) -> Seq<(Seq<char>, Seq<char>)> {
    if !(record && fetches_media) {
        seq![]
    } else {
        match url_parse(mpd_url) {
            UrlParseOutcome::Parsed(u) => (if u.username@.len() == 0 && u.password is None {
                seq![("user.xdg.origin.url"@, mpd_url)]
            } else {
                seq![]
            }) + programs_attributes(pis),
            _ => seq![],
        }
    }
}

pub open spec fn attribute_views(v: Seq<(String, String)>) -> Seq<(Seq<char>, Seq<char>)> {
    v.map_values(|p: (String, String)| (p.0@, p.1@))
}

fn push_attribute(v: &mut Vec<(String, String)>, name: &str, value: &String)
    ensures
        attribute_views(final(v)@) == attribute_views(old(v)@).push((name@, value@)),
{
    let ghost before = v@;
    v.push((name.to_owned(), value.clone()));
    assert(attribute_views(v@) =~= attribute_views(before).push((name@, value@)));
}

/// The extended attributes to record on the output file of the download `d` of the manifest
/// `mpd` (see `spec_metainformation`).
pub fn metainformation(d: &DashDownloader, mpd: &MPD) -> (r: Vec<(String, String)>)
    ensures
        attribute_views(r@) == spec_metainformation(
            d.record_metainformation,
            d.fetch_audio || d.fetch_video,
            d.mpd_url@,
            mpd.ProgramInformation@,
        ),
{
    let mut v: Vec<(String, String)> = Vec::new();
    assert(attribute_views(v@) =~= seq![]);
    if !(d.record_metainformation && (d.fetch_audio || d.fetch_video)) {
        return v;
    }
    let u = match parse_url(d.mpd_url.as_str()) {
        UrlParseOutcome::Parsed(u) => u,
        _ => return v,
    };
    proof {
        reveal_strlit("");
        assert(u.username@.len() == 0 ==> u.username@ =~= ""@);
    }
    if str_eq(u.username.as_str(), "") && u.password.is_none() {
        push_attribute(&mut v, "user.xdg.origin.url", &d.mpd_url);
    }
    let ghost head = attribute_views(v@);
    assert(head =~= (if u.username@.len() == 0 && u.password is None {
        seq![("user.xdg.origin.url"@, d.mpd_url@)]
    } else {
        seq![]
    }));
    let pis = &mpd.ProgramInformation;
    let mut i: usize = 0;
    assert(pis@.take(0) =~= seq![]);
    assert(head + programs_attributes(pis@.take(0)) =~= head);
    while i < pis.len()
        invariant
            i <= pis.len(),
            attribute_views(v@) == head + programs_attributes(pis@.take(i as int)),
        decreases pis.len() - i,
    {
        assert(pis@.take(i + 1).drop_last() =~= pis@.take(i as int));
        let ghost before = attribute_views(v@);
        let pi = &pis[i];
        if let Some(t) = &pi.Title {
            if let Some(c) = &t.content {
                push_attribute(&mut v, "user.dublincore.title", c);
            }
        }
        if let Some(t) = &pi.Source {
            if let Some(c) = &t.content {
                push_attribute(&mut v, "user.dublincore.source", c);
            }
        }
        if let Some(t) = &pi.Copyright {
            if let Some(c) = &t.content {
                push_attribute(&mut v, "user.dublincore.rights", c);
            }
        }
        assert(attribute_views(v@) =~= before + program_attributes(pis@[i as int]));
        i = i + 1;
    }
    assert(pis@.take(pis.len() as int) =~= pis@);
    v
}

// ---------------------------------------------------------------------------------------------
// Fetching the manifest

/// An HTTP request for a manifest.
#[derive(Debug, Clone)]
pub struct ManifestRequest {
    pub url: String,
    /// The request headers, as names and values.
    pub headers: Vec<(String, String)>,
    /// HTTP Basic authentication, with a username and a password.
    pub basic_auth: Option<(String, String)>,
    /// HTTP Bearer authentication.
    pub bearer_token: Option<String>,
}

pub open spec fn header_views(v: Seq<(String, String)>) -> Seq<(Seq<char>, Seq<char>)> {
    v.map_values(|p: (String, String)| (p.0@, p.1@))
}

/// The authentication of a request: with a username and password when both are given, and with
/// a bearer token when one is given.
pub open spec fn auth_views(r: ManifestRequest) -> (Option<(Seq<char>, Seq<char>)>, Option<Seq<char>>) {
    (
        match r.basic_auth {
            Some((u, p)) => Some((u@, p@)),
            None => None,
        },
        opt_view(r.bearer_token),
    )
}

pub open spec fn spec_auth(d: DashDownloader) -> (Option<(Seq<char>, Seq<char>)>, Option<Seq<char>>) {
    (
        match (d.auth_username, d.auth_password) {
            (Some(u), Some(p)) => Some((u@, p@)),
            _ => None,
        },
        opt_view(d.auth_bearer_token),
    )
}

fn push_header(v: &mut Vec<(String, String)>, name: &str, value: &str)
    ensures
        header_views(final(v)@) == header_views(old(v)@).push((name@, value@)),
{
    let ghost before = v@;
    v.push((name.to_owned(), value.to_owned()));
    assert(header_views(v@) =~= header_views(before).push((name@, value@)));
}

fn basic_auth_of(d: &DashDownloader) -> (r: Option<(String, String)>)
    ensures
        match r {
            Some((u, p)) => Some((u@, p@)),
            None => None,
        } == spec_auth(*d).0,
{
    match (&d.auth_username, &d.auth_password) {
        (Some(u), Some(p)) => Some((u.clone(), p.clone())),
        _ => None,
    }
}

/// The request for the manifest of the download `d`: it accepts DASH manifests and English,
/// names the user's referer when one is given, and authenticates as the user asked.
pub fn manifest_request(d: &DashDownloader) -> (r: ManifestRequest)
    ensures
        r.url@ == d.mpd_url@,
        header_views(r.headers@) == seq![
            ("Accept"@, "application/dash+xml,video/vnd.mpeg.dash.mpd"@),
            ("Accept-Language"@, "en-US,en"@),
            ("Upgrade-Insecure-Requests"@, "1"@),
            ("Sec-Fetch-Mode"@, "navigate"@),
        ] + match d.referer {
            Some(x) => seq![("Referer"@, x@)],
            None => seq![],
        },
        auth_views(r) == spec_auth(*d),
{
    let mut headers: Vec<(String, String)> = Vec::new();
    push_header(&mut headers, "Accept", "application/dash+xml,video/vnd.mpeg.dash.mpd");
    push_header(&mut headers, "Accept-Language", "en-US,en");
    push_header(&mut headers, "Upgrade-Insecure-Requests", "1");
    push_header(&mut headers, "Sec-Fetch-Mode", "navigate");
    if let Some(x) = &d.referer {
        push_header(&mut headers, "Referer", x.as_str());
    }
    let r = ManifestRequest {
        url: d.mpd_url.clone(),
        headers,
        basic_auth: basic_auth_of(d),
        bearer_token: d.auth_bearer_token.clone(),
    };
    assert(header_views(r.headers@) =~= seq![
        ("Accept"@, "application/dash+xml,video/vnd.mpeg.dash.mpd"@),
        ("Accept-Language"@, "en-US,en"@),
        ("Upgrade-Insecure-Requests"@, "1"@),
        ("Sec-Fetch-Mode"@, "navigate"@),
    ] + match d.referer {
        Some(x) => seq![("Referer"@, x@)],
        None => seq![],
    });
    r
}

/// The request for the manifest named by a Location element, at `url`: it accepts DASH
/// manifests and English, names the user's referer (else the URL of the first manifest), and
/// authenticates as the user asked.
pub fn relocated_manifest_request(d: &DashDownloader, url: &str) -> (r: ManifestRequest)
    ensures
        r.url@ == url@,
        header_views(r.headers@) == seq![
            ("Accept"@, "application/dash+xml,video/vnd.mpeg.dash.mpd"@),
            ("Accept-Language"@, "en-US,en"@),
            ("Sec-Fetch-Mode"@, "navigate"@),
            ("Referer"@, match d.referer {
                Some(x) => x@,
                None => d.redirected_url@,
            }),
        ],
        auth_views(r) == spec_auth(*d),
{
    let mut headers: Vec<(String, String)> = Vec::new();
    push_header(&mut headers, "Accept", "application/dash+xml,video/vnd.mpeg.dash.mpd");
    push_header(&mut headers, "Accept-Language", "en-US,en");
    push_header(&mut headers, "Sec-Fetch-Mode", "navigate");
    match &d.referer {
        Some(x) => push_header(&mut headers, "Referer", x.as_str()),
        None => push_header(&mut headers, "Referer", d.redirected_url.as_str()),
    }
    let r = ManifestRequest {
        url: url.to_owned(),
        headers,
        basic_auth: basic_auth_of(d),
        bearer_token: d.auth_bearer_token.clone(),
    };
    assert(header_views(r.headers@) =~= seq![
        ("Accept"@, "application/dash+xml,video/vnd.mpeg.dash.mpd"@),
        ("Accept-Language"@, "en-US,en"@),
        ("Sec-Fetch-Mode"@, "navigate"@),
        ("Referer"@, match d.referer {
            Some(x) => x@,
            None => d.redirected_url@,
        }),
    ]);
    r
}

/// The error for a manifest request answered with an HTTP error status.
pub fn manifest_status_error(status: &str) -> (e: DashMpdError)
    ensures
        e matches DashMpdError::Network(m) && m@ == "fetching DASH manifest (HTTP "@ + status@ + ")"@,
{
    let mut m = "fetching DASH manifest (HTTP ".to_owned();
    push_str(&mut m, status);
    push_str(&mut m, ")");
    DashMpdError::Network(m)
}

// ---------------------------------------------------------------------------------------------
// Fetching the fragments of a Period

/// The positions of the fragments of Period `period`, in order: fragments of other Periods are
/// not fetched.
pub fn period_fragment_indices(fragments: &Vec<MediaFragment>, period: u8) -> (r: Vec<usize>)
    ensures
        forall|k: int| 0 <= k < r.len() ==> r@[k] < fragments.len() && fragments@[#[trigger] r@[k] as int].period == period,
        forall|k: int, l: int| 0 <= k < l < r.len() ==> #[trigger] r@[k] < #[trigger] r@[l],
        forall|j: int| 0 <= j < fragments.len() && #[trigger] fragments@[j].period == period ==> r@.contains(j as usize),
{
    let mut r: Vec<usize> = Vec::new();
    let mut i: usize = 0;
    while i < fragments.len()
        invariant
            i <= fragments.len(),
            forall|k: int| 0 <= k < r.len() ==> #[trigger] r@[k] < i && fragments@[r@[k] as int].period == period,
            forall|k: int, l: int| 0 <= k < l < r.len() ==> #[trigger] r@[k] < #[trigger] r@[l],
            forall|j: int| 0 <= j < i && #[trigger] fragments@[j].period == period ==> r@.contains(j as usize),
        decreases fragments.len() - i,
    {
        if fragments[i].period == period {
            let ghost old_r = r@;
            r.push(i);
            assert forall|j: int| 0 <= j < i + 1 && #[trigger] fragments@[j].period == period implies r@.contains(
                j as usize,
            ) by {
                if j < i {
                    let k = choose|k: int| 0 <= k < old_r.len() && old_r[k] == j as usize;
                    assert(r@[k] == j as usize);
                } else {
                    assert(r@[r.len() - 1] == j as usize);
                }
            }
        } else {
            assert forall|j: int| 0 <= j < i + 1 && #[trigger] fragments@[j].period == period implies r@.contains(
                j as usize,
            ) by {
                assert(j != i);
            }
        }
        i = i + 1;
    }
    r
}

/// What to do next with a fragment to download.
#[derive(Debug, Clone, Copy, PartialEq, Eq, Structural)]
pub enum FragmentAttempt {
    /// Request the fragment (again).
    Fetch,
    /// The fragment was fetched: go on with the next one.
    Done,
    /// Every attempt failed: go on with the next fragment without it.
    GiveUp,
}

/// The next step with a fragment after `attempts` requests, the last of which succeeded or not:
/// a fragment is requested at most `retry_count` times, and no more once a request succeeded. (A
/// failed request is also counted with `count_download_error`, which ends the download after too
/// many failures.)
pub fn next_fragment_attempt(attempts: u32, retry_count: u32, last_succeeded: bool) -> (r: FragmentAttempt)
    ensures
        attempts > 0 && last_succeeded ==> r == FragmentAttempt::Done,
        !(attempts > 0 && last_succeeded) && attempts < retry_count ==> r == FragmentAttempt::Fetch,
        !(attempts > 0 && last_succeeded) && attempts >= retry_count ==> r == FragmentAttempt::GiveUp,
{
    if attempts > 0 && last_succeeded {
        FragmentAttempt::Done
    } else if attempts < retry_count {
        FragmentAttempt::Fetch
    } else {
        FragmentAttempt::GiveUp
    }
}

/// A content type of audio content: an audio or a video type (some servers label audio segments
/// in an MP4 container "video/mp4"), or the generic "application/octet-stream".
pub open spec fn audio_content_type(t: Seq<char>) -> bool {
    crate::text::has_prefix(t, "audio/"@) || crate::text::has_prefix(t, "video/"@) || crate::text::has_prefix(
        t,
        "application/octet-stream"@,
    )
}

/// A content type of video content: a video type, or "application/octet-stream".
pub open spec fn video_content_type(t: Seq<char>) -> bool {
    crate::text::has_prefix(t, "video/"@) || crate::text::has_prefix(t, "application/octet-stream"@)
}

/// Whether the body of a response for a fragment of type `fragment_type` ("audio" or "video") is
/// kept, given its Content-Type header (none when absent): always when content types are not
/// checked, else only when the header names content of that type. A refused body leaves the
/// fragment empty.
pub fn fragment_body_kept(content_type_checks: bool, fragment_type: &str, content_type: &Option<String>) -> (r: bool)
    requires
        fragment_type@ == "audio"@ || fragment_type@ == "video"@,
    ensures
        r == (!content_type_checks || match content_type {
            None => false,
            Some(t) => if fragment_type@ == "audio"@ {
                audio_content_type(t@)
            } else {
                video_content_type(t@)
            },
        }),
{
    if !content_type_checks {
        return true;
    }
    match content_type {
        None => false,
        Some(t) => {
            let t = t.as_str();
            if str_eq(fragment_type, "audio") {
                crate::text::starts_with(t, "audio/") || crate::text::starts_with(t, "video/")
                    || crate::text::starts_with(t, "application/octet-stream")
            } else {
                crate::text::starts_with(t, "video/") || crate::text::starts_with(t, "application/octet-stream")
            }
        },
    }
}

/// The progress reported while fetching audio segment number `segment_counter` (counted from 1)
/// of `segment_count` segments: the percentage 100 × counter / (count + 2), rounded up, and no more
/// than `u32::MAX`.
pub open spec fn spec_progress_percent(segment_counter: nat, segment_count: nat) -> nat {
    let d = segment_count + 2;
    let p = (100 * segment_counter + d - 1) / d as int;
    if p > u32::MAX { u32::MAX as nat } else { p as nat }
}

/// The progress reported while fetching video or subtitle segment number `segment_counter` of
/// `segment_count` segments: the percentage 100 × counter / count, rounded up, and no more than
/// `u32::MAX` (which is also what a count of zero gives, but 0 for a counter of zero).
pub open spec fn spec_segment_progress_percent(segment_counter: nat, segment_count: nat) -> nat {
    if segment_count == 0 {
        if segment_counter == 0 { 0 } else { u32::MAX as nat }
    } else {
        let p = (100 * segment_counter + segment_count - 1) / segment_count as int;
        if p > u32::MAX { u32::MAX as nat } else { p as nat }
    }
}

/// The progress percentage reported while fetching video or subtitle segments (see
/// `spec_segment_progress_percent`).
pub fn segment_progress_percent(segment_counter: u32, segment_count: u32) -> (r: u32)
    ensures
        r == spec_segment_progress_percent(segment_counter as nat, segment_count as nat),
{
    if segment_count == 0 {
        return if segment_counter == 0 { 0 } else { u32::MAX };
    }
    let d: u64 = segment_count as u64;
    let p: u64 = (100 * (segment_counter as u64) + d - 1) / d;
    if p > u32::MAX as u64 {
        u32::MAX
    } else {
        p as u32
    }
}

/// The progress percentage reported to the progress observers (see `spec_progress_percent`).
pub fn progress_percent(segment_counter: u32, segment_count: u32) -> (r: u32)
    ensures
        r == spec_progress_percent(segment_counter as nat, segment_count as nat),
{
    let d: u64 = segment_count as u64 + 2;
    let p: u64 = (100 * (segment_counter as u64) + d - 1) / d;
    if p > u32::MAX as u64 {
        u32::MAX
    } else {
        p as u32
    }
}

} // verus!
