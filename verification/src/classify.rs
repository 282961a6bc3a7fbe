//! Classification of adaptation sets (audio, video, subtitles), of subtitle formats and of
//! content protection schemes.

use vstd::prelude::*;
use crate::mpd::{AdaptationSet, Representation, ContentProtection, ContentComponent};
use crate::text::{has_prefix, starts_with, str_eq, opt_view};

verus! {

/// Whether the codec name (such as "mp4a" or "mp4a.40.2") designates an audio codec.
pub open spec fn spec_is_audio_codec(n: Seq<char>) -> bool {
    ||| has_prefix(n, "mp4a"@)
    ||| has_prefix(n, "aac"@)
    ||| has_prefix(n, "vorbis"@)
    ||| has_prefix(n, "opus"@)
    ||| has_prefix(n, "flac"@)
    ||| has_prefix(n, "mp3"@)
    ||| has_prefix(n, "ec-3"@)
    ||| has_prefix(n, "ac-4"@)
    ||| has_prefix(n, "dtsc"@)
    ||| has_prefix(n, "mha1"@)
}

/// Whether the MIME type designates a subtitle format.
pub open spec fn spec_is_subtitle_mimetype(mt: Seq<char>) -> bool {
    mt == "text/vtt"@ || mt == "application/ttml+xml"@ || mt == "application/x-sami"@
}

/// Whether the codec name designates a subtitle format.
pub open spec fn spec_is_subtitle_codec(c: Seq<char>) -> bool {
    ||| c == "wvtt"@
    ||| c == "c608"@
    ||| c == "stpp"@
    ||| c == "tx3g"@
    ||| has_prefix(c, "stpp."@)
}

/// The optional attribute is present and equal to `lit`.
pub open spec fn attr_is(o: Option<String>, lit: Seq<char>) -> bool {
    o matches Some(s) && s@ == lit
}

/// The optional attribute is present and begins with `p`.
pub open spec fn attr_starts(o: Option<String>, p: Seq<char>) -> bool {
    o matches Some(s) && has_prefix(s@, p)
}

/// A Representation whose contentType is "audio" or whose mimeType is "audio/*".
pub open spec fn rep_says_audio(r: Representation) -> bool {
    attr_is(r.contentType, "audio"@) || attr_starts(r.mimeType, "audio/"@)
}

/// The AdaptationSet holds audio: its codec is an audio codec, its contentType is "audio", its
/// mimeType is "audio/*", or one of its Representations says audio.
pub open spec fn spec_is_audio_adaptation(a: AdaptationSet) -> bool {
    ||| (a.codecs matches Some(c) && spec_is_audio_codec(c@))
    ||| attr_is(a.contentType, "audio"@)
    ||| attr_starts(a.mimeType, "audio/"@)
    ||| exists|i: int| 0 <= i < a.representations.len() && #[trigger] rep_says_audio(a.representations@[i])
}

/// The verdict of the Representations of `rs` from index `i` on, for video: the first one whose
/// contentType is "video" decides yes, one with a subtitle codec decides no, one with mimeType
/// "video/*" decides yes; none of them means no.
pub open spec fn reps_video_from(rs: Seq<Representation>, i: int) -> bool
    decreases rs.len() - i,
{
    if i < 0 || i >= rs.len() {
        false
    } else if attr_is(rs[i].contentType, "video"@) {
        true
    } else if rs[i].codecs matches Some(c) && spec_is_subtitle_codec(c@) {
        false
    } else if attr_starts(rs[i].mimeType, "video/"@) {
        true
    } else {
        reps_video_from(rs, i + 1)
    }
}

/// The AdaptationSet holds video: it is not audio, and its contentType is "video", its mimeType
/// is "video/*", or its Representations decide for video.
pub open spec fn spec_is_video_adaptation(a: AdaptationSet) -> bool {
    &&& !spec_is_audio_adaptation(a)
    &&& {
        ||| attr_is(a.contentType, "video"@)
        ||| attr_starts(a.mimeType, "video/"@)
        ||| reps_video_from(a.representations@, 0)
    }
}

/// A Representation with a subtitle mimeType or a subtitle codec.
pub open spec fn rep_says_subtitle(r: Representation) -> bool {
    (r.mimeType matches Some(m) && spec_is_subtitle_mimetype(m@))
    || (r.codecs matches Some(c) && spec_is_subtitle_codec(c@))
}

/// The AdaptationSet holds subtitles: by its mimeType, its contentType "text", its codec, the
/// contentType "text" of a ContentComponent, or a Representation with a subtitle mimeType or
/// codec.
pub open spec fn spec_is_subtitle_adaptation(a: AdaptationSet) -> bool {
    ||| (a.mimeType matches Some(m) && spec_is_subtitle_mimetype(m@))
    ||| attr_is(a.contentType, "text"@)
    ||| (a.codecs matches Some(c) && spec_is_subtitle_codec(c@))
    ||| exists|i: int|
        0 <= i < a.ContentComponent.len() && attr_is(#[trigger] a.ContentComponent@[i].contentType, "text"@)
    ||| exists|i: int| 0 <= i < a.representations.len() && #[trigger] rep_says_subtitle(a.representations@[i])
}

/// Whether the codec name designates an audio codec.
pub fn is_audio_codec(name: &str) -> (r: bool)
    ensures
        r == spec_is_audio_codec(name@),
{
    starts_with(name, "mp4a") || starts_with(name, "aac") || starts_with(name, "vorbis")
        || starts_with(name, "opus") || starts_with(name, "flac") || starts_with(name, "mp3")
        || starts_with(name, "ec-3") || starts_with(name, "ac-4") || starts_with(name, "dtsc")
        || starts_with(name, "mha1")
}

/// Whether the optional attribute is present and equal to `lit`.
fn opt_eq(o: &Option<String>, lit: &str) -> (r: bool)
    ensures
        r == attr_is(*o, lit@),
{
    match o {
        Some(s) => str_eq(s.as_str(), lit),
        None => false,
    }
}

/// Whether the optional attribute is present and begins with `p`.
fn opt_starts(o: &Option<String>, p: &str) -> (r: bool)
    ensures
        r == attr_starts(*o, p@),
{
    match o {
        Some(s) => starts_with(s.as_str(), p),
        None => false,
    }
}

/// Whether the optional attribute is a subtitle codec.
fn opt_subtitle_codec(o: &Option<String>) -> (r: bool)
    ensures
        r == (o matches Some(c) && spec_is_subtitle_codec(c@)),
{
    match o {
        Some(c) => is_subtitle_codec(c.as_str()),
        None => false,
    }
}

/// Whether the optional attribute is a subtitle MIME type.
fn opt_subtitle_mimetype(o: &Option<String>) -> (r: bool)
    ensures
        r == (o matches Some(m) && spec_is_subtitle_mimetype(m@)),
{
    match o {
        Some(m) => is_subtitle_mimetype(m.as_str()),
        None => false,
    }
}

/// Returns `true` if this AdaptationSet contains audio content: the codec attribute is a known
/// audio codec, or the `contentType` attribute is `audio`, or the `mimeType` attribute is
/// `audio/*`, or one of its child `Representation` nodes has an audio `contentType` or
/// `mimeType` attribute.
#[verifier::loop_isolation(false)]
pub fn is_audio_adaptation(a: &&AdaptationSet) -> (r: bool)
    ensures
        r == spec_is_audio_adaptation(**a),
{
    if let Some(codec) = &a.codecs {
        if is_audio_codec(codec.as_str()) {
            return true;
        }
    }
    if opt_eq(&a.contentType, "audio") {
        return true;
    }
    if opt_starts(&a.mimeType, "audio/") {
        return true;
    }
    let reps = &a.representations;
    let mut i: usize = 0;
    while i < reps.len()
        invariant
            i <= reps.len(),
            forall|k: int| 0 <= k < i ==> !rep_says_audio(#[trigger] reps@[k]),
        decreases reps.len() - i,
    {
        let r = &reps[i];
        if opt_eq(&r.contentType, "audio") || opt_starts(&r.mimeType, "audio/") {
            assert(rep_says_audio(reps@[i as int]));
            return true;
        }
        i = i + 1;
    }
    false
}

/// Returns `true` if this AdaptationSet contains video content: it is not an audio adaptation
/// (an audio adaptation is audio-only, but a video adaptation may contain audio), and its
/// `contentType` is `video`, or its `mimeType` is `video/*`, or the first of its child
/// Representations that decides says video (contentType `video` or mimeType `video/*`, where
/// a subtitle codec such as `wvtt` decides against video).
#[verifier::loop_isolation(false)]
pub fn is_video_adaptation(a: &&AdaptationSet) -> (r: bool)
    ensures
        r == spec_is_video_adaptation(**a),
        r ==> !spec_is_audio_adaptation(**a),
{
    if is_audio_adaptation(a) {
        return false;
    }
    if opt_eq(&a.contentType, "video") {
        return true;
    }
    if opt_starts(&a.mimeType, "video/") {
        return true;
    }
    let reps = &a.representations;
    let mut i: usize = 0;
    while i < reps.len()
        invariant
            i <= reps.len(),
            reps_video_from(reps@, 0) == reps_video_from(reps@, i as int),
        decreases reps.len() - i,
    {
        let r = &reps[i];
        if opt_eq(&r.contentType, "video") {
            return true;
        }
        if opt_subtitle_codec(&r.codecs) {
            return false;
        }
        if opt_starts(&r.mimeType, "video/") {
            return true;
        }
        i = i + 1;
    }
    false
}

/// Whether the MIME type designates a subtitle format ("text/vtt", "application/ttml+xml" or
/// "application/x-sami").
pub fn is_subtitle_mimetype(mt: &str) -> (r: bool)
    ensures
        r == spec_is_subtitle_mimetype(mt@),
{
    str_eq(mt, "text/vtt") || str_eq(mt, "application/ttml+xml") || str_eq(mt, "application/x-sami")
}

/// Whether the codec name designates a subtitle format ("wvtt", "c608", "stpp", "tx3g" or
/// "stpp.*").
pub fn is_subtitle_codec(c: &str) -> (r: bool)
    ensures
        r == spec_is_subtitle_codec(c@),
{
    str_eq(c, "wvtt") || str_eq(c, "c608") || str_eq(c, "stpp") || str_eq(c, "tx3g")
        || starts_with(c, "stpp.")
}

/// Returns `true` if this AdaptationSet contains subtitles: its `@mimeType` is a subtitle MIME
/// type, its `@contentType` is "text", its `@codecs` is a subtitle codec, one of its
/// ContentComponents has `@contentType` "text", or one of its Representations has a subtitle
/// `@mimeType` or `@codecs`.
#[verifier::loop_isolation(false)]
pub fn is_subtitle_adaptation(a: &&AdaptationSet) -> (r: bool)
    ensures
        r == spec_is_subtitle_adaptation(**a),
{
    if opt_subtitle_mimetype(&a.mimeType) {
        return true;
    }
    if opt_eq(&a.contentType, "text") {
        return true;
    }
    if opt_subtitle_codec(&a.codecs) {
        return true;
    }
    let ccs = &a.ContentComponent;
    let mut j: usize = 0;
    while j < ccs.len()
        invariant
            j <= ccs.len(),
            forall|k: int| 0 <= k < j ==> !attr_is(#[trigger] ccs@[k].contentType, "text"@),
        decreases ccs.len() - j,
    {
        if opt_eq(&ccs[j].contentType, "text") {
            return true;
        }
        j = j + 1;
    }
    let reps = &a.representations;
    let mut i: usize = 0;
    while i < reps.len()
        invariant
            i <= reps.len(),
            forall|k: int| 0 <= k < i ==> !rep_says_subtitle(#[trigger] reps@[k]),
        decreases reps.len() - i,
    {
        let r = &reps[i];
        if opt_subtitle_mimetype(&r.mimeType) || opt_subtitle_codec(&r.codecs) {
            assert(rep_says_subtitle(reps@[i as int]));
            return true;
        }
        i = i + 1;
    }
    false
}

/// The subtitle formats that a manifest can announce.
#[derive(Debug, PartialEq, Eq, Clone, Copy, Structural)]
pub enum SubtitleType {
    /// W3C WebVTT, as used in particular for HTML5 media
    Vtt,
    /// SubRip
    Srt,
    /// MPSub
    Sub,
    /// Advanced Substation Alpha
    Ass,
    /// MPEG-4 Timed Text, aka MP4TT aka 3GPP-TT (codec=tx3g)
    Ttxt,
    /// Timed Text Markup Language
    Ttml,
    /// Synchronized Accessible Media Interchange
    Sami,
    /// Binary WebVTT in a wvtt box in fragmented MP4 container, as specified by ISO/IEC
    /// 14496-30:2014.
    Wvtt,
    /// XML content (generally TTML) in an stpp box in fragmented MP4 container
    Stpp,
    /// EIA-608 aka CEA-608, a legacy standard for closed captioning for NTSC TV
    Eia608,
    Unknown,
}

/// The subtitle format announced by a MIME type, if it announces one.
pub open spec fn spec_subtitle_type_for_mimetype(mt: Seq<char>) -> Option<SubtitleType> {
    if mt == "text/vtt"@ {
        Some(SubtitleType::Vtt)
    } else if mt == "application/ttml+xml"@ {
        Some(SubtitleType::Ttml)
    } else if mt == "application/x-sami"@ {
        Some(SubtitleType::Sami)
    } else {
        None
    }
}

/// The subtitle format announced by a codec name, if it announces one.
pub open spec fn codec_subtitle_type(c: Seq<char>) -> Option<SubtitleType> {
    if c == "wvtt"@ {
        Some(SubtitleType::Wvtt)
    } else if c == "c608"@ {
        Some(SubtitleType::Eia608)
    } else if c == "tx3g"@ {
        Some(SubtitleType::Ttxt)
    } else if c == "stpp"@ || has_prefix(c, "stpp."@) {
        Some(SubtitleType::Stpp)
    } else {
        None
    }
}

pub open spec fn attr_mimetype_type(o: Option<String>) -> Option<SubtitleType> {
    match o {
        Some(m) => spec_subtitle_type_for_mimetype(m@),
        None => None,
    }
}

pub open spec fn attr_codec_type(o: Option<String>) -> Option<SubtitleType> {
    match o {
        Some(c) => codec_subtitle_type(c@),
        None => None,
    }
}

/// The subtitle format announced by the first of the Representations `rs[i..]` that announces
/// one (by mimeType, then by codecs), or `Unknown`.
pub open spec fn reps_subtitle_type_from(rs: Seq<Representation>, i: int) -> SubtitleType
    decreases rs.len() - i,
{
    if i < 0 || i >= rs.len() {
        SubtitleType::Unknown
    } else {
        match attr_mimetype_type(rs[i].mimeType) {
            Some(t) => t,
            None => match attr_codec_type(rs[i].codecs) {
                Some(t) => t,
                None => reps_subtitle_type_from(rs, i + 1),
            },
        }
    }
}

/// The subtitle format of an AdaptationSet: announced by its mimeType, else by its codecs, else
/// by its Representations.
pub open spec fn spec_subtitle_type(a: AdaptationSet) -> SubtitleType {
    match attr_mimetype_type(a.mimeType) {
        Some(t) => t,
        None => match attr_codec_type(a.codecs) {
            Some(t) => t,
            None => reps_subtitle_type_from(a.representations@, 0),
        },
    }
}

/// The subtitle format announced by a MIME type.
pub fn subtitle_type_for_mimetype(mt: &str) -> (r: Option<SubtitleType>)
    ensures
        r == spec_subtitle_type_for_mimetype(mt@),
{
    if str_eq(mt, "text/vtt") {
        Some(SubtitleType::Vtt)
    } else if str_eq(mt, "application/ttml+xml") {
        Some(SubtitleType::Ttml)
    } else if str_eq(mt, "application/x-sami") {
        Some(SubtitleType::Sami)
    } else {
        None
    }
}

fn opt_mimetype_type(o: &Option<String>) -> (r: Option<SubtitleType>)
    ensures
        r == attr_mimetype_type(*o),
{
    match o {
        Some(m) => subtitle_type_for_mimetype(m.as_str()),
        None => None,
    }
}

fn opt_codec_type(o: &Option<String>) -> (r: Option<SubtitleType>)
    ensures
        r == attr_codec_type(*o),
{
    match o {
        Some(c) => {
            let c = c.as_str();
            if str_eq(c, "wvtt") {
                Some(SubtitleType::Wvtt)
            } else if str_eq(c, "c608") {
                Some(SubtitleType::Eia608)
            } else if str_eq(c, "tx3g") {
                Some(SubtitleType::Ttxt)
            } else if str_eq(c, "stpp") || starts_with(c, "stpp.") {
                Some(SubtitleType::Stpp)
            } else {
                None
            }
        },
        None => None,
    }
}

/// The subtitle format of an AdaptationSet, from its `@mimeType`, then its `@codecs`, then
/// those of its Representations in order; `Unknown` when none announces a format.
#[verifier::loop_isolation(false)]
pub fn subtitle_type(a: &&AdaptationSet) -> (r: SubtitleType)
    ensures
        r == spec_subtitle_type(**a),
{
    if let Some(t) = opt_mimetype_type(&a.mimeType) {
        return t;
    }
    if let Some(t) = opt_codec_type(&a.codecs) {
        return t;
    }
    let reps = &a.representations;
    let mut i: usize = 0;
    while i < reps.len()
        invariant
            i <= reps.len(),
            reps_subtitle_type_from(reps@, 0) == reps_subtitle_type_from(reps@, i as int),
        decreases reps.len() - i,
    {
        if let Some(t) = opt_mimetype_type(&reps[i].mimeType) {
            return t;
        }
        if let Some(t) = opt_codec_type(&reps[i].codecs) {
            return t;
        }
        i = i + 1;
    }
    SubtitleType::Unknown
}

/// The name of the protection scheme of a ContentProtection element with `@value` `value` and a
/// `@schemeIdUri` whose lower-case form is `uri`.
pub open spec fn protection_name(value: Option<Seq<char>>, uri: Seq<char>) -> Seq<char> {
    if value == Some("cenc"@) {
        "cenc"@
    } else if value == Some("Widevine"@) {
        "Widevine"@
    } else if value == Some("MSPR 2.0"@) {
        "PlayReady"@
    } else {
        protection_name_for_uri(uri)
    }
}

/// The name of the protection scheme identified by the (lower-case) scheme URI.
pub open spec fn protection_name_for_uri(uri: Seq<char>) -> Seq<char> {
    if uri == "urn:mpeg:dash:mp4protection:2011"@ {
        "cenc"@
    } else if uri == "urn:uuid:edef8ba9-79d6-4ace-a3c8-27dcd51d21ed"@ {
        "Widevine"@
    } else if uri == "urn:uuid:9a04f079-9840-4286-ab92-e65be0885f95"@ {
        "PlayReady"@
    } else if uri == "urn:uuid:94ce86fb-07ff-4f43-adb8-93d2fa968ca2"@ {
        "FairPlay"@
    } else if uri == "urn:uuid:3ea8778f-7742-4bf9-b18b-e834b2acbd47"@ {
        "Clear Key AES-128"@
    } else if uri == "urn:uuid:be58615b-19c4-4684-88b3-c8c57e99e957"@ {
        "Clear Key SAMPLE-AES"@
    } else if uri == "urn:uuid:adb41c24-2dbf-4a6d-958b-4457c0d27b95"@ {
        "Nagra"@
    } else if uri == "urn:uuid:5e629af5-38da-4063-8977-97ffbd9902d4"@ {
        "Marlin"@
    } else if uri == "urn:uuid:f239e769-efa3-4850-9c16-a903c6932efb"@ {
        "Adobe PrimeTime"@
    } else if uri == "urn:uuid:1077efec-c0b2-4d02-ace3-3c1e52e2fb4b"@ {
        "W3C Common PSSH box"@
    } else if uri == "urn:uuid:80a6be7e-1448-4c37-9e70-d5aebe04c8d2"@ {
        "Irdeto Content Protection"@
    } else if uri == "urn:uuid:3d5e6d35-9b9a-41e8-b843-dd3c6e72c42c"@ {
        "WisePlay-ChinaDRM"@
    } else if uri == "urn:uuid:616c7469-6361-7374-2d50-726f74656374"@ {
        "Alticast"@
    } else if uri == "urn:uuid:6dd8b3c3-45f4-4a68-bf3a-64168d01a4a6"@ {
        "ABV DRM"@
    } else if uri == "urn:mpeg:dash:sea:2012"@ {
        "SEA"@
    } else {
        "<unknown>"@
    }
}

/// The lower-case form of a string, as `str::to_lowercase` computes it.
pub uninterp spec fn lowercase(s: Seq<char>) -> Seq<char>;

/// The string with its ASCII upper-case letters made lower-case.
pub open spec fn ascii_lowercase(s: Seq<char>) -> Seq<char> {
    s.map_values(|c: char| if 'A' <= c && c <= 'Z' { ((c as u32) + 32) as char } else { c })
}

/// Calls `str::to_lowercase`, which returns the lower-case equivalent of the string by the
/// Unicode `Lowercase` property. Its result is a function of the string alone and is named
/// `lowercase`; for a string of ASCII characters, whose lower-case equivalents are the ASCII
/// ones, it is that string with its letters A to Z made lower-case. Nothing more is claimed.
#[verifier::external_body]
fn to_lowercase(s: &str) -> (r: String)
    ensures
        r@ == lowercase(s@),
        (forall|i: int| 0 <= i < s@.len() ==> (#[trigger] s@[i] as u32) < 128) ==> r@ == ascii_lowercase(s@),
{
    s.to_lowercase()
}

/// The name of the protection scheme given the `@value` attribute and the lower-cased
/// `@schemeIdUri` of a ContentProtection element.
pub fn content_protection_name(value: &Option<String>, lowered_uri: &str) -> (r: String)
    ensures
        r@ == protection_name(opt_view(*value), lowered_uri@),
{
    if let Some(v) = value {
        if str_eq(v.as_str(), "cenc") {
            return "cenc".to_owned();
        }
        if str_eq(v.as_str(), "Widevine") {
            return "Widevine".to_owned();
        }
        if str_eq(v.as_str(), "MSPR 2.0") {
            return "PlayReady".to_owned();
        }
    }
    if str_eq(lowered_uri, "urn:mpeg:dash:mp4protection:2011") {
        return "cenc".to_owned();
    }
    if str_eq(lowered_uri, "urn:uuid:edef8ba9-79d6-4ace-a3c8-27dcd51d21ed") {
        return "Widevine".to_owned();
    }
    if str_eq(lowered_uri, "urn:uuid:9a04f079-9840-4286-ab92-e65be0885f95") {
        return "PlayReady".to_owned();
    }
    if str_eq(lowered_uri, "urn:uuid:94ce86fb-07ff-4f43-adb8-93d2fa968ca2") {
        return "FairPlay".to_owned();
    }
    if str_eq(lowered_uri, "urn:uuid:3ea8778f-7742-4bf9-b18b-e834b2acbd47") {
        return "Clear Key AES-128".to_owned();
    }
    if str_eq(lowered_uri, "urn:uuid:be58615b-19c4-4684-88b3-c8c57e99e957") {
        return "Clear Key SAMPLE-AES".to_owned();
    }
    if str_eq(lowered_uri, "urn:uuid:adb41c24-2dbf-4a6d-958b-4457c0d27b95") {
        return "Nagra".to_owned();
    }
    if str_eq(lowered_uri, "urn:uuid:5e629af5-38da-4063-8977-97ffbd9902d4") {
        return "Marlin".to_owned();
    }
    if str_eq(lowered_uri, "urn:uuid:f239e769-efa3-4850-9c16-a903c6932efb") {
        return "Adobe PrimeTime".to_owned();
    }
    if str_eq(lowered_uri, "urn:uuid:1077efec-c0b2-4d02-ace3-3c1e52e2fb4b") {
        return "W3C Common PSSH box".to_owned();
    }
    if str_eq(lowered_uri, "urn:uuid:80a6be7e-1448-4c37-9e70-d5aebe04c8d2") {
        return "Irdeto Content Protection".to_owned();
    }
    if str_eq(lowered_uri, "urn:uuid:3d5e6d35-9b9a-41e8-b843-dd3c6e72c42c") {
        return "WisePlay-ChinaDRM".to_owned();
    }
    if str_eq(lowered_uri, "urn:uuid:616c7469-6361-7374-2d50-726f74656374") {
        return "Alticast".to_owned();
    }
    if str_eq(lowered_uri, "urn:uuid:6dd8b3c3-45f4-4a68-bf3a-64168d01a4a6") {
        return "ABV DRM".to_owned();
    }
    if str_eq(lowered_uri, "urn:mpeg:dash:sea:2012") {
        return "SEA".to_owned();
    }
    "<unknown>".to_owned()
}

/// The name of the content protection scheme (DRM system) of a ContentProtection element, from
/// its `@value` and then from its `@schemeIdUri`, compared without regard to case.
pub fn content_protection_type(cp: &ContentProtection) -> (r: String)
    ensures
        r@ == protection_name(opt_view(cp.value), lowercase(cp.schemeIdUri@)),
        (forall|i: int| 0 <= i < cp.schemeIdUri@.len() ==> (#[trigger] cp.schemeIdUri@[i] as u32) < 128) ==> r@
            == protection_name(opt_view(cp.value), ascii_lowercase(cp.schemeIdUri@)),
{
    let uri = to_lowercase(cp.schemeIdUri.as_str());
    content_protection_name(&cp.value, uri.as_str())
}

/// The codec names of subtitles: when an AdaptationSet's `@mimeType` names no subtitle format
/// (or is absent), its `@codecs` decides: "wvtt" is binary WebVTT in MP4, "c608" CEA-608
/// captions, "tx3g" MPEG-4 timed text, and "stpp" or "stpp.<profile>" TTML in MP4.
pub proof fn lemma_codec_subtitle_types(a: AdaptationSet)
    requires
        a.mimeType matches Some(m) ==> (m@ != "text/vtt"@ && m@ != "application/ttml+xml"@ && m@
            != "application/x-sami"@),
    ensures
        a.codecs matches Some(c) && c@ == "wvtt"@ ==> spec_subtitle_type(a) == SubtitleType::Wvtt,
        a.codecs matches Some(c) && c@ == "c608"@ ==> spec_subtitle_type(a) == SubtitleType::Eia608,
        a.codecs matches Some(c) && c@ == "tx3g"@ ==> spec_subtitle_type(a) == SubtitleType::Ttxt,
        a.codecs matches Some(c) && (c@ == "stpp"@ || (c@.len() >= 5 && c@.subrange(0, 5) == "stpp."@))
            ==> spec_subtitle_type(a) == SubtitleType::Stpp,
{
    reveal_strlit("wvtt");
    reveal_strlit("c608");
    reveal_strlit("tx3g");
    reveal_strlit("stpp");
    reveal_strlit("stpp.");
    assert("c608"@[0] != "wvtt"@[0]);
    assert("tx3g"@[0] != "wvtt"@[0]);
    assert("tx3g"@[0] != "c608"@[0]);
    assert("c608"@ != "wvtt"@);
    assert("tx3g"@ != "wvtt"@);
    assert("tx3g"@ != "c608"@);
    if let Some(c) = a.codecs {
        if c@.len() >= 5 && c@.subrange(0, 5) == "stpp."@ {
            assert(has_prefix(c@, "stpp."@));
        }
    }
}

/// The MIME types of subtitles decide first: "text/vtt" is WebVTT, "application/ttml+xml" TTML
/// and "application/x-sami" SAMI, whatever `@codecs` says.
pub proof fn lemma_mimetype_subtitle_types(a: AdaptationSet)
    ensures
        a.mimeType matches Some(m) && m@ == "text/vtt"@ ==> spec_subtitle_type(a) == SubtitleType::Vtt,
        a.mimeType matches Some(m) && m@ == "application/ttml+xml"@ ==> spec_subtitle_type(a)
            == SubtitleType::Ttml,
        a.mimeType matches Some(m) && m@ == "application/x-sami"@ ==> spec_subtitle_type(a)
            == SubtitleType::Sami,
{
    reveal_strlit("text/vtt");
    reveal_strlit("application/ttml+xml");
    reveal_strlit("application/x-sami");
    assert("application/ttml+xml"@[0] != "text/vtt"@[0]);
    assert("application/x-sami"@[0] != "text/vtt"@[0]);
    assert("application/x-sami"@[12] != "application/ttml+xml"@[12]);
    assert("application/ttml+xml"@ != "text/vtt"@);
    assert("application/x-sami"@ != "text/vtt"@);
    assert("application/x-sami"@ != "application/ttml+xml"@);
}

/// An AdaptationSet that is classified as video is never classified as audio.
pub proof fn lemma_video_adaptation_is_not_audio(a: AdaptationSet)
    ensures
        spec_is_video_adaptation(a) ==> !spec_is_audio_adaptation(a),
{
}

} // verus!
