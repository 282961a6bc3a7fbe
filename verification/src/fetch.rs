//! The configuration of a download: the manifest URL and the user's preferences, set by a builder.

use vstd::prelude::*;
use crate::duration::XsDuration;
use crate::mpd::XsDouble;
use crate::selection::QualityPreference;
use crate::text::str_eq;
use crate::urls::{url_parse, parse_url, UrlParseOutcome};

verus! {

/// Receives updates concerning the progression of the download, and can display this information
/// to the user, for example using a progress bar.
pub trait ProgressObserver: Send + Sync {
    fn update(&self, percent: u32, message: &str);
}

/// The settings of a download of the media content of a DASH manifest. The HTTP client, the
/// progress observers and the bandwidth limiter are held by the caller that performs the download.
#[derive(Debug, Clone)]
pub struct DashDownloader {
    pub mpd_url: String,
    /// The serialization of the manifest URL, as parsed (later replaced by the URL that a
    /// redirection led to).
    pub redirected_url: String,
    pub base_url: Option<String>,
    pub referer: Option<String>,
    pub auth_username: Option<String>,
    pub auth_password: Option<String>,
    pub auth_bearer_token: Option<String>,
    pub output_path: Option<String>,
    pub quality_preference: QualityPreference,
    pub language_preference: Option<String>,
    pub role_preference: Vec<String>,
    pub video_width_preference: Option<u64>,
    pub video_height_preference: Option<u64>,
    pub fetch_video: bool,
    pub fetch_audio: bool,
    pub fetch_subtitles: bool,
    pub keep_video: Option<String>,
    pub keep_audio: Option<String>,
    pub concatenate_periods: bool,
    pub fragment_path: Option<String>,
    /// Pairs of a track ID or KID and its key, no ID twice.
    pub decryption_keys: Vec<(String, String)>,
    pub xslt_stylesheets: Vec<String>,
    pub minimum_period_duration: Option<XsDuration>,
    pub content_type_checks: bool,
    pub conformity_checks: bool,
    pub use_index_range: bool,
    pub fragment_retry_count: u32,
    pub max_error_count: u32,
    pub sleep_between_requests: u8,
    pub allow_live_streams: bool,
    /// A duration in seconds, an `xs:double`.
    pub force_duration: Option<XsDouble>,
    /// The bandwidth limit in bytes per second; 0 for none.
    pub rate_limit: u64,
    /// The quota of the bandwidth limiter, when a limit was set: kilobytes per second, and the
    /// burst size in kilobytes.
    pub bw_quota: Option<(u32, u32)>,
    pub sandbox: bool,
    pub verbosity: u8,
    pub record_metainformation: bool,
    /// Pairs of a container type and a comma-separated list of muxing applications.
    pub muxer_preference: Vec<(String, String)>,
    /// Pairs of a container type and a comma-separated list of concatenation helpers.
    pub concat_preference: Vec<(String, String)>,
    pub decryptor_preference: String,
    pub ffmpeg_location: String,
    pub vlc_location: String,
    pub mkvmerge_location: String,
    pub mp4box_location: String,
    pub mp4decrypt_location: String,
    pub shaka_packager_location: String,
}

/// The views of a sequence of strings.
pub open spec fn string_views(s: Seq<String>) -> Seq<Seq<char>> {
    s.map_values(|x: String| x@)
}

// ---------------------------------------------------------------------------------------------
// Association lists

/// The map that an association list stands for: a later pair overrides an earlier one.
pub open spec fn assoc_map(s: Seq<(String, String)>) -> Map<Seq<char>, Seq<char>>
    decreases s.len(),
{
    if s.len() == 0 {
        Map::empty()
    } else {
        assoc_map(s.drop_last()).insert(s.last().0@, s.last().1@)
    }
}

/// The pairs of `s` whose key is not `k`, in order.
pub open spec fn without_key(s: Seq<(String, String)>, k: Seq<char>) -> Seq<(String, String)>
    decreases s.len(),
{
    if s.len() == 0 {
        s
    } else if s.last().0@ == k {
        without_key(s.drop_last(), k)
    } else {
        without_key(s.drop_last(), k).push(s.last())
    }
}

/// No key occurs twice.
pub open spec fn keys_distinct(s: Seq<(String, String)>) -> bool {
    forall|i: int, j: int| 0 <= i < j < s.len() ==> s[i].0@ != s[j].0@
}

proof fn lemma_without_key(s: Seq<(String, String)>, k: Seq<char>)
    ensures
        assoc_map(without_key(s, k)) == assoc_map(s).remove(k),
        forall|i: int| 0 <= i < without_key(s, k).len() ==> (#[trigger] without_key(s, k)[i]).0@ != k,
        forall|i: int| 0 <= i < without_key(s, k).len() ==> s.contains(#[trigger] without_key(s, k)[i]),
        keys_distinct(s) ==> keys_distinct(without_key(s, k)),
    decreases s.len(),
{
    if s.len() == 0 {
        assert(assoc_map(s).remove(k) =~= Map::empty());
    } else {
        let p = s.drop_last();
        lemma_without_key(p, k);
        let r = without_key(p, k);
        assert forall|i: int| 0 <= i < r.len() implies s.contains(#[trigger] r[i]) by {
            let j = choose|j: int| 0 <= j < p.len() && p[j] == r[i];
            assert(s[j] == r[i]);
        }
        if s.last().0@ == k {
            assert(assoc_map(s).remove(k) =~= assoc_map(p).remove(k));
        } else {
            assert(r.push(s.last()).drop_last() =~= r);
            assert(assoc_map(s).remove(k) =~= assoc_map(p).remove(k).insert(s.last().0@, s.last().1@));
            let q = r.push(s.last());
            assert forall|i: int| 0 <= i < q.len() implies s.contains(#[trigger] q[i]) by {
                if i == r.len() {
                    assert(s[s.len() - 1] == q[i]);
                }
            }
            if keys_distinct(s) {
                assert(keys_distinct(p));
                assert forall|i: int, j: int| 0 <= i < j < q.len() implies q[i].0@ != q[j].0@ by {
                    if j == r.len() {
                        let m = choose|m: int| 0 <= m < p.len() && p[m] == q[i];
                        assert(s[m] == p[m]);
                        assert(s[s.len() - 1] == s.last());
                    }
                }
            }
        }
    }
}

/// Sets the value of `key` in the association list to `value`: the pairs of another key keep
/// their order, and the new pair comes last.
pub fn assoc_insert(list: &mut Vec<(String, String)>, key: String, value: String)
    ensures
        final(list)@ == without_key(old(list)@, key@).push((key, value)),
        assoc_map(final(list)@) == assoc_map(old(list)@).insert(key@, value@),
        keys_distinct(old(list)@) ==> keys_distinct(final(list)@),
{
    let mut kept: Vec<(String, String)> = Vec::new();
    let mut i: usize = 0;
    while i < list.len()
        invariant
            0 <= i <= list.len(),
            kept@ == without_key(list@.subrange(0, i as int), key@),
        decreases list.len() - i,
    {
        assert(list@.subrange(0, i + 1).drop_last() =~= list@.subrange(0, i as int));
        if !str_eq(list[i].0.as_str(), key.as_str()) {
            let pair = (list[i].0.clone(), list[i].1.clone());
            kept.push(pair);
        }
        i = i + 1;
    }
    assert(list@.subrange(0, list@.len() as int) =~= list@);
    proof {
        lemma_without_key(old(list)@, key@);
        let w = without_key(old(list)@, key@);
        assert(w.push((key, value)).drop_last() =~= w);
        assert(assoc_map(old(list)@).remove(key@).insert(key@, value@) =~= assoc_map(old(list)@).insert(key@, value@));
        if keys_distinct(old(list)@) {
            assert forall|a: int, b: int| 0 <= a < b < w.len() + 1 implies (w.push((key, value)))[a].0@ != (w.push((key, value)))[b].0@ by {
                if b == w.len() {
                    assert(w[a].0@ != key@);
                }
            }
        }
    }
    kept.push((key, value));
    *list = kept;
}

/// The value of `key` in an association list: that of its last pair with this key.
pub fn assoc_get(list: &Vec<(String, String)>, key: &str) -> (r: Option<String>)
    ensures
        r is Some <==> assoc_map(list@).contains_key(key@),
        r matches Some(v) ==> v@ == assoc_map(list@)[key@],
{
    let mut found: Option<String> = None;
    let mut i: usize = 0;
    while i < list.len()
        invariant
            0 <= i <= list.len(),
            found is Some <==> assoc_map(list@.subrange(0, i as int)).contains_key(key@),
            found matches Some(v) ==> v@ == assoc_map(list@.subrange(0, i as int))[key@],
        decreases list.len() - i,
    {
        assert(list@.subrange(0, i + 1).drop_last() =~= list@.subrange(0, i as int));
        if str_eq(list[i].0.as_str(), key) {
            found = Some(list[i].1.clone());
        }
        i = i + 1;
    }
    assert(list@.subrange(0, list@.len() as int) =~= list@);
    found
}

/// Setting a preference twice for the same key keeps the later value: the list that two
/// insertions of `key` leave stands for the map of the first list with `key` set to the second
/// value.
pub proof fn lemma_later_setting_retained(
    list: Seq<(String, String)>,
    key: String,
    first: String,
    second: String,
)
    ensures
        assoc_map(without_key(without_key(list, key@).push((key, first)), key@).push((key, second)))
            == assoc_map(list).insert(key@, second@),
{
    let l1 = without_key(list, key@).push((key, first));
    let l2 = without_key(l1, key@).push((key, second));
    lemma_without_key(list, key@);
    assert(l1.drop_last() =~= without_key(list, key@));
    lemma_without_key(l1, key@);
    assert(l2.drop_last() =~= without_key(l1, key@));
    assert(assoc_map(l1).remove(key@) =~= assoc_map(list).remove(key@));
    assert(assoc_map(l2) =~= assoc_map(list).insert(key@, second@));
}

// ---------------------------------------------------------------------------------------------
// Construction and builders

/// The serialization of the URL that `u` parses to.
pub open spec fn parsed_text(u: Seq<char>) -> Seq<char> {
    match url_parse(u) {
        UrlParseOutcome::Parsed(p) => p.text@,
        _ => Seq::empty(),
    }
}

/// The settings that `DashDownloader::new` starts from, for the manifest at `mpd_url`.
pub open spec fn default_settings(d: DashDownloader, mpd_url: Seq<char>) -> bool {
    &&& d.mpd_url@ == mpd_url
    &&& d.redirected_url@ == parsed_text(mpd_url)
    &&& d.base_url is None && d.referer is None
    &&& d.auth_username is None && d.auth_password is None && d.auth_bearer_token is None
    &&& d.output_path is None
    &&& d.quality_preference == QualityPreference::Lowest
    &&& d.language_preference is None
    &&& string_views(d.role_preference@) == seq!["main"@, "alternate"@]
    &&& d.video_width_preference is None && d.video_height_preference is None
    &&& d.fetch_video && d.fetch_audio && !d.fetch_subtitles
    &&& d.keep_video is None && d.keep_audio is None
    &&& d.concatenate_periods
    &&& d.fragment_path is None
    &&& d.decryption_keys@.len() == 0
    &&& d.xslt_stylesheets@.len() == 0
    &&& d.minimum_period_duration is None
    &&& d.content_type_checks && d.conformity_checks && d.use_index_range
    &&& d.fragment_retry_count == 10 && d.max_error_count == 30
    &&& d.sleep_between_requests == 0
    &&& !d.allow_live_streams
    &&& d.force_duration is None
    &&& d.rate_limit == 0 && d.bw_quota is None
    &&& !d.sandbox && d.verbosity == 0 && d.record_metainformation
    &&& d.muxer_preference@.len() == 0 && d.concat_preference@.len() == 0
    &&& d.decryptor_preference@ == "mp4decrypt"@
    &&& d.ffmpeg_location@ == "ffmpeg"@
    &&& d.vlc_location@ == "vlc"@
    &&& d.mkvmerge_location@ == "mkvmerge"@
    &&& d.mp4box_location@ == "MP4Box"@
    &&& d.mp4decrypt_location@ == "mp4decrypt"@
    &&& d.shaka_packager_location@ == "shaka-packager"@
}

impl DashDownloader {
    /// A `DashDownloader` for the DASH manifest at `mpd_url`, with the default settings (those of
    /// a Unix system for the locations of the helper applications). `mpd_url` must parse as a URL
    /// (see `try_new`).
    pub fn new(mpd_url: &str) -> (d: DashDownloader)
        requires
            url_parse(mpd_url@) is Parsed,
        ensures
            default_settings(d, mpd_url@),
    {
        let redirected_url = match parse_url(mpd_url) {
            UrlParseOutcome::Parsed(p) => p.text,
            _ => String::new(),
        };
        let role_preference = vec!["main".to_owned(), "alternate".to_owned()];
        assert(string_views(role_preference@) =~= seq!["main"@, "alternate"@]);
        DashDownloader {
            mpd_url: mpd_url.to_owned(),
            redirected_url,
            base_url: None,
            referer: None,
            auth_username: None,
            auth_password: None,
            auth_bearer_token: None,
            output_path: None,
            quality_preference: QualityPreference::Lowest,
            language_preference: None,
            role_preference,
            video_width_preference: None,
            video_height_preference: None,
            fetch_video: true,
            fetch_audio: true,
            fetch_subtitles: false,
            keep_video: None,
            keep_audio: None,
            concatenate_periods: true,
            fragment_path: None,
            decryption_keys: Vec::new(),
            xslt_stylesheets: Vec::new(),
            minimum_period_duration: None,
            content_type_checks: true,
            conformity_checks: true,
            use_index_range: true,
            fragment_retry_count: 10,
            max_error_count: 30,
            sleep_between_requests: 0,
            allow_live_streams: false,
            force_duration: None,
            rate_limit: 0,
            bw_quota: None,
            sandbox: false,
            verbosity: 0,
            record_metainformation: true,
            muxer_preference: Vec::new(),
            concat_preference: Vec::new(),
            decryptor_preference: "mp4decrypt".to_owned(),
            ffmpeg_location: "ffmpeg".to_owned(),
            vlc_location: "vlc".to_owned(),
            mkvmerge_location: "mkvmerge".to_owned(),
            mp4box_location: "MP4Box".to_owned(),
            mp4decrypt_location: "mp4decrypt".to_owned(),
            shaka_packager_location: "shaka-packager".to_owned(),
        }
    }

    /// `DashDownloader::new(mpd_url)` where `mpd_url` parses as a URL, else `None`.
    pub fn try_new(mpd_url: &str) -> (r: Option<DashDownloader>)
        ensures
            r is Some <==> url_parse(mpd_url@) is Parsed,
            r matches Some(d) ==> default_settings(d, mpd_url@),
    {
        match parse_url(mpd_url) {
            UrlParseOutcome::Parsed(_) => Some(DashDownloader::new(mpd_url)),
            _ => None,
        }
    }

    /// Specify the base URL to use when downloading content from the manifest (useful when downloading from a file:// URL).
    pub fn with_base_url(self, base_url: String) -> (d: DashDownloader)
        ensures
            d.base_url == Some(base_url),
            d == (DashDownloader { base_url: d.base_url, ..self }),
    {
        let mut d = self;
        d.base_url = Some(base_url);
        d
    }

    /// Specify the value of the Referer HTTP header used when fetching the manifest and the media segments.
    pub fn with_referer(self, referer: String) -> (d: DashDownloader)
        ensures
            d.referer == Some(referer),
            d == (DashDownloader { referer: d.referer, ..self }),
    {
        let mut d = self;
        d.referer = Some(referer);
        d
    }

    /// Specify the username and password for HTTP Basic authentication.
    pub fn with_authentication(self, username: &str, password: &str) -> (d: DashDownloader)
        ensures
            d.auth_username matches Some(s) && s@ == username@,
            d.auth_password matches Some(s) && s@ == password@,
            d == (DashDownloader { auth_username: d.auth_username, auth_password: d.auth_password, ..self }),
    {
        let mut d = self;
        d.auth_username = Some(username.to_owned());
        d.auth_password = Some(password.to_owned());
        d
    }

    /// Specify a token for HTTP Bearer authentication.
    pub fn with_auth_bearer(self, token: &str) -> (d: DashDownloader)
        ensures
            d.auth_bearer_token matches Some(s) && s@ == token@,
            d == (DashDownloader { auth_bearer_token: d.auth_bearer_token, ..self }),
    {
        let mut d = self;
        d.auth_bearer_token = Some(token.to_owned());
        d
    }

    /// Prefer the best quality (and highest bandwidth) representation of the media content.
    pub fn best_quality(self) -> (d: DashDownloader)
        ensures
            d.quality_preference == QualityPreference::Highest,
            d == (DashDownloader { quality_preference: d.quality_preference, ..self }),
    {
        let mut d = self;
        d.quality_preference = QualityPreference::Highest;
        d
    }

    /// Prefer an intermediate quality representation of the media content.
    pub fn intermediate_quality(self) -> (d: DashDownloader)
        ensures
            d.quality_preference == QualityPreference::Intermediate,
            d == (DashDownloader { quality_preference: d.quality_preference, ..self }),
    {
        let mut d = self;
        d.quality_preference = QualityPreference::Intermediate;
        d
    }

    /// Prefer the lowest quality (and lowest bandwidth) representation of the media content.
    pub fn worst_quality(self) -> (d: DashDownloader)
        ensures
            d.quality_preference == QualityPreference::Lowest,
            d == (DashDownloader { quality_preference: d.quality_preference, ..self }),
    {
        let mut d = self;
        d.quality_preference = QualityPreference::Lowest;
        d
    }

    /// Specify the preferred language of the audio and subtitle streams.
    pub fn prefer_language(self, lang: String) -> (d: DashDownloader)
        ensures
            d.language_preference == Some(lang),
            d == (DashDownloader { language_preference: d.language_preference, ..self }),
    {
        let mut d = self;
        d.language_preference = Some(lang);
        d
    }

    /// Prefer the video representation whose width is closest to `width`.
    pub fn prefer_video_width(self, width: u64) -> (d: DashDownloader)
        ensures
            d.video_width_preference == Some(width),
            d == (DashDownloader { video_width_preference: d.video_width_preference, ..self }),
    {
        let mut d = self;
        d.video_width_preference = Some(width);
        d
    }

    /// Prefer the video representation whose height is closest to `height`.
    pub fn prefer_video_height(self, height: u64) -> (d: DashDownloader)
        ensures
            d.video_height_preference == Some(height),
            d == (DashDownloader { video_height_preference: d.video_height_preference, ..self }),
    {
        let mut d = self;
        d.video_height_preference = Some(height);
        d
    }

    /// Download only the video content.
    pub fn video_only(self) -> (d: DashDownloader)
        ensures
            d.fetch_audio == false,
            d.fetch_video == true,
            d == (DashDownloader { fetch_audio: d.fetch_audio, fetch_video: d.fetch_video, ..self }),
    {
        let mut d = self;
        d.fetch_audio = false;
        d.fetch_video = true;
        d
    }

    /// Download only the audio content.
    pub fn audio_only(self) -> (d: DashDownloader)
        ensures
            d.fetch_audio == true,
            d.fetch_video == false,
            d == (DashDownloader { fetch_audio: d.fetch_audio, fetch_video: d.fetch_video, ..self }),
    {
        let mut d = self;
        d.fetch_audio = true;
        d.fetch_video = false;
        d
    }

    /// Keep the video stream (before muxing) in a file at this path.
    pub fn keep_video_as(self, video_path: String) -> (d: DashDownloader)
        ensures
            d.keep_video == Some(video_path),
            d == (DashDownloader { keep_video: d.keep_video, ..self }),
    {
        let mut d = self;
        d.keep_video = Some(video_path);
        d
    }

    /// Keep the audio stream (before muxing) in a file at this path.
    pub fn keep_audio_as(self, audio_path: String) -> (d: DashDownloader)
        ensures
            d.keep_audio == Some(audio_path),
            d == (DashDownloader { keep_audio: d.keep_audio, ..self }),
    {
        let mut d = self;
        d.keep_audio = Some(audio_path);
        d
    }

    /// Save the media fragments in this directory.
    pub fn save_fragments_to(self, fragment_path: String) -> (d: DashDownloader)
        ensures
            d.fragment_path == Some(fragment_path),
            d == (DashDownloader { fragment_path: d.fragment_path, ..self }),
    {
        let mut d = self;
        d.fragment_path = Some(fragment_path);
        d
    }

    /// Ignore Periods whose duration is shorter than `value` (such as advertising).
    pub fn minimum_period_duration(self, value: XsDuration) -> (d: DashDownloader)
        ensures
            d.minimum_period_duration == Some(value),
            d == (DashDownloader { minimum_period_duration: d.minimum_period_duration, ..self }),
    {
        let mut d = self;
        d.minimum_period_duration = Some(value);
        d
    }

    /// Whether to download the audio content.
    pub fn fetch_audio(self, value: bool) -> (d: DashDownloader)
        ensures
            d.fetch_audio == value,
            d == (DashDownloader { fetch_audio: d.fetch_audio, ..self }),
    {
        let mut d = self;
        d.fetch_audio = value;
        d
    }

    /// Whether to download the video content.
    pub fn fetch_video(self, value: bool) -> (d: DashDownloader)
        ensures
            d.fetch_video == value,
            d == (DashDownloader { fetch_video: d.fetch_video, ..self }),
    {
        let mut d = self;
        d.fetch_video = value;
        d
    }

    /// Whether to download the subtitles.
    pub fn fetch_subtitles(self, value: bool) -> (d: DashDownloader)
        ensures
            d.fetch_subtitles == value,
            d == (DashDownloader { fetch_subtitles: d.fetch_subtitles, ..self }),
    {
        let mut d = self;
        d.fetch_subtitles = value;
        d
    }

    /// Whether to concatenate the content of the Periods into a single output file.
    pub fn concatenate_periods(self, value: bool) -> (d: DashDownloader)
        ensures
            d.concatenate_periods == value,
            d == (DashDownloader { concatenate_periods: d.concatenate_periods, ..self }),
    {
        let mut d = self;
        d.concatenate_periods = value;
        d
    }

    /// Don't check the content type of media segments.
    pub fn without_content_type_checks(self) -> (d: DashDownloader)
        ensures
            d.content_type_checks == false,
            d == (DashDownloader { content_type_checks: d.content_type_checks, ..self }),
    {
        let mut d = self;
        d.content_type_checks = false;
        d
    }

    /// Whether to check the content type of media segments.
    pub fn content_type_checks(self, value: bool) -> (d: DashDownloader)
        ensures
            d.content_type_checks == value,
            d == (DashDownloader { content_type_checks: d.content_type_checks, ..self }),
    {
        let mut d = self;
        d.content_type_checks = value;
        d
    }

    /// Whether to check the manifest for DASH conformity.
    pub fn conformity_checks(self, value: bool) -> (d: DashDownloader)
        ensures
            d.conformity_checks == value,
            d == (DashDownloader { conformity_checks: d.conformity_checks, ..self }),
    {
        let mut d = self;
        d.conformity_checks = value;
        d
    }

    /// Whether to download SegmentBase content by the byte ranges of its index.
    pub fn use_index_range(self, value: bool) -> (d: DashDownloader)
        ensures
            d.use_index_range == value,
            d == (DashDownloader { use_index_range: d.use_index_range, ..self }),
    {
        let mut d = self;
        d.use_index_range = value;
        d
    }

    /// The number of times a failed media fragment download is retried.
    pub fn fragment_retry_count(self, count: u32) -> (d: DashDownloader)
        ensures
            d.fragment_retry_count == count,
            d == (DashDownloader { fragment_retry_count: d.fragment_retry_count, ..self }),
    {
        let mut d = self;
        d.fragment_retry_count = count;
        d
    }

    /// The number of failed fragment downloads tolerated before the download is abandoned.
    pub fn max_error_count(self, count: u32) -> (d: DashDownloader)
        ensures
            d.max_error_count == count,
            d == (DashDownloader { max_error_count: d.max_error_count, ..self }),
    {
        let mut d = self;
        d.max_error_count = count;
        d
    }

    /// The number of seconds to wait between fragment requests.
    pub fn sleep_between_requests(self, seconds: u8) -> (d: DashDownloader)
        ensures
            d.sleep_between_requests == seconds,
            d == (DashDownloader { sleep_between_requests: d.sleep_between_requests, ..self }),
    {
        let mut d = self;
        d.sleep_between_requests = seconds;
        d
    }

    /// Whether to download live (dynamic) streams.
    pub fn allow_live_streams(self, value: bool) -> (d: DashDownloader)
        ensures
            d.allow_live_streams == value,
            d == (DashDownloader { allow_live_streams: d.allow_live_streams, ..self }),
    {
        let mut d = self;
        d.allow_live_streams = value;
        d
    }

    /// Download this duration (in seconds, an `xs:double`) of a live stream or of each Period.
    pub fn force_duration(self, seconds: XsDouble) -> (d: DashDownloader)
        ensures
            d.force_duration == Some(seconds),
            d == (DashDownloader { force_duration: d.force_duration, ..self }),
    {
        let mut d = self;
        d.force_duration = Some(seconds);
        d
    }

    /// The level of detail of the messages printed while downloading.
    pub fn verbosity(self, level: u8) -> (d: DashDownloader)
        ensures
            d.verbosity == level,
            d == (DashDownloader { verbosity: d.verbosity, ..self }),
    {
        let mut d = self;
        d.verbosity = level;
        d
    }

    /// Whether to restrict the process's access to the filesystem and network (Linux only).
    pub fn sandbox(self, enable: bool) -> (d: DashDownloader)
        ensures
            d.sandbox == enable,
            d == (DashDownloader { sandbox: d.sandbox, ..self }),
    {
        let mut d = self;
        d.sandbox = enable;
        d
    }

    /// Whether to record the manifest URL and metainformation in extended attributes of the output file.
    pub fn record_metainformation(self, record: bool) -> (d: DashDownloader)
        ensures
            d.record_metainformation == record,
            d == (DashDownloader { record_metainformation: d.record_metainformation, ..self }),
    {
        let mut d = self;
        d.record_metainformation = record;
        d
    }

    /// The decryption tool to use: mp4decrypt, shaka or mp4box.
    pub fn with_decryptor_preference(self, decryption_tool: &str) -> (d: DashDownloader)
        ensures
            d.decryptor_preference@ == decryption_tool@,
            d == (DashDownloader { decryptor_preference: d.decryptor_preference, ..self }),
    {
        let mut d = self;
        d.decryptor_preference = decryption_tool.to_owned();
        d
    }

    /// The location of the ffmpeg program.
    pub fn with_ffmpeg(self, ffmpeg_path: &str) -> (d: DashDownloader)
        ensures
            d.ffmpeg_location@ == ffmpeg_path@,
            d == (DashDownloader { ffmpeg_location: d.ffmpeg_location, ..self }),
    {
        let mut d = self;
        d.ffmpeg_location = ffmpeg_path.to_owned();
        d
    }

    /// The location of the VLC program.
    pub fn with_vlc(self, vlc_path: &str) -> (d: DashDownloader)
        ensures
            d.vlc_location@ == vlc_path@,
            d == (DashDownloader { vlc_location: d.vlc_location, ..self }),
    {
        let mut d = self;
        d.vlc_location = vlc_path.to_owned();
        d
    }

    /// The location of the mkvmerge program.
    pub fn with_mkvmerge(self, path: &str) -> (d: DashDownloader)
        ensures
            d.mkvmerge_location@ == path@,
            d == (DashDownloader { mkvmerge_location: d.mkvmerge_location, ..self }),
    {
        let mut d = self;
        d.mkvmerge_location = path.to_owned();
        d
    }

    /// The location of the MP4Box program.
    pub fn with_mp4box(self, path: &str) -> (d: DashDownloader)
        ensures
            d.mp4box_location@ == path@,
            d == (DashDownloader { mp4box_location: d.mp4box_location, ..self }),
    {
        let mut d = self;
        d.mp4box_location = path.to_owned();
        d
    }

    /// The location of the mp4decrypt program.
    pub fn with_mp4decrypt(self, path: &str) -> (d: DashDownloader)
        ensures
            d.mp4decrypt_location@ == path@,
            d == (DashDownloader { mp4decrypt_location: d.mp4decrypt_location, ..self }),
    {
        let mut d = self;
        d.mp4decrypt_location = path.to_owned();
        d
    }

    /// The location of the shaka-packager program.
    pub fn with_shaka_packager(self, path: &str) -> (d: DashDownloader)
        ensures
            d.shaka_packager_location@ == path@,
            d == (DashDownloader { shaka_packager_location: d.shaka_packager_location, ..self }),
    {
        let mut d = self;
        d.shaka_packager_location = path.to_owned();
        d
    }


    /// The preference ordering of the Role annotations of AdaptationSets (such as "main" before
    /// "alternate"). A list of 255 roles or more is ignored.
    pub fn prefer_roles(self, role_preference: Vec<String>) -> (d: DashDownloader)
        ensures
            role_preference.len() < 255 ==> d == (DashDownloader { role_preference, ..self }),
            role_preference.len() >= 255 ==> d == self,
    {
        let mut d = self;
        if role_preference.len() < 255 {
            d.role_preference = role_preference;
        }
        d
    }

    /// Adds a key to decrypt media that uses Common Encryption: `id` is a track ID in decimal or a
    /// 128-bit KID in hexadecimal, `key` a 128-bit key in hexadecimal. A later key for the same ID
    /// replaces the earlier one.
    pub fn add_decryption_key(self, id: String, key: String) -> (d: DashDownloader)
        ensures
            d.decryption_keys@ == without_key(self.decryption_keys@, id@).push((id, key)),
            assoc_map(d.decryption_keys@) == assoc_map(self.decryption_keys@).insert(id@, key@),
            d == (DashDownloader { decryption_keys: d.decryption_keys, ..self }),
    {
        let mut d = self;
        assoc_insert(&mut d.decryption_keys, id, key);
        d
    }

    /// Registers an XSLT stylesheet to apply to the manifest before it is parsed; stylesheets are
    /// applied in the order of their registration.
    pub fn with_xslt_stylesheet(self, stylesheet: String) -> (d: DashDownloader)
        ensures
            d.xslt_stylesheets@ == self.xslt_stylesheets@.push(stylesheet),
            d == (DashDownloader { xslt_stylesheets: d.xslt_stylesheets, ..self }),
    {
        let mut d = self;
        d.xslt_stylesheets.push(stylesheet);
        d
    }

    /// Limits the bandwidth used to download media segments to `bps` bytes per second. The
    /// limiter counts in kilobytes: `1 + bps / 1024` per second (at most `u32::MAX`), with bursts
    /// of 10240 kilobytes.
    pub fn with_rate_limit(self, bps: u64) -> (d: DashDownloader)
        ensures
            d.rate_limit == bps,
            d.bw_quota == Some(((if 1 + bps / 1024 > u32::MAX { u32::MAX as int } else { 1 + bps / 1024 }) as u32, 10240u32)),
            d == (DashDownloader { rate_limit: d.rate_limit, bw_quota: d.bw_quota, ..self }),
    {
        let mut d = self;
        d.rate_limit = bps;
        let kbps: u64 = 1 + bps / 1024;
        let per_second: u32 = if kbps > 0xffff_ffff { 0xffff_ffff } else { kbps as u32 };
        d.bw_quota = Some((per_second, 10 * 1024));
        d
    }

    /// When muxing audio and video into a container of type `container`, try the muxing
    /// applications in the comma-separated `ordering` (such as "ffmpeg,vlc,mp4box"). A later
    /// ordering for the same container replaces the earlier one.
    pub fn with_muxer_preference(self, container: &str, ordering: &str) -> (d: DashDownloader)
        ensures
            assoc_map(d.muxer_preference@) == assoc_map(self.muxer_preference@).insert(container@, ordering@),
            d.muxer_preference@.last().0@ == container@ && d.muxer_preference@.last().1@ == ordering@,
            d.muxer_preference@.drop_last() == without_key(self.muxer_preference@, container@),
            d == (DashDownloader { muxer_preference: d.muxer_preference, ..self }),
    {
        let mut d = self;
        assoc_insert(&mut d.muxer_preference, container.to_owned(), ordering.to_owned());
        d
    }

    /// When concatenating the streams of several Periods into a container of type `container`,
    /// try the helpers in the comma-separated `ordering` ("ffmpeg", "ffmpegdemuxer", "mkvmerge",
    /// "mp4box"). A later ordering for the same container replaces the earlier one.
    pub fn with_concat_preference(self, container: &str, ordering: &str) -> (d: DashDownloader)
        ensures
            assoc_map(d.concat_preference@) == assoc_map(self.concat_preference@).insert(container@, ordering@),
            d.concat_preference@.last().0@ == container@ && d.concat_preference@.last().1@ == ordering@,
            d.concat_preference@.drop_last() == without_key(self.concat_preference@, container@),
            d == (DashDownloader { concat_preference: d.concat_preference, ..self }),
    {
        let mut d = self;
        assoc_insert(&mut d.concat_preference, container.to_owned(), ordering.to_owned());
        d
    }
}

} // verus!
