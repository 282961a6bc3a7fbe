//! The data model of a DASH manifest (MPD): one plain struct per XML element.
//!
//! Attribute values that the schema types as `xs:double` are held by their IEEE-754 bit
//! pattern (`XsDouble`), `xs:duration` values as `XsDuration` and `xs:dateTime` values as
//! seconds and nanoseconds since the Unix epoch (`XsDateTime`).
use vstd::prelude::*;
use crate::duration::XsDuration;
use crate::scte35::{Signal, SpliceInfoSection};

verus! {

/// An `xs:double` value, held as the bit pattern of the IEEE-754 binary64 number.
#[derive(Debug, Clone, Copy, Default, PartialEq, Eq, Structural)]
pub struct XsDouble {
    pub bits: u64,
}

/// An `xs:dateTime` value in UTC: whole seconds since 1970-01-01T00:00:00Z and the
/// nanoseconds within that second.
#[derive(Debug, Clone, Copy, Default, PartialEq, Eq, Structural)]
pub struct XsDateTime {
    pub secs: i64,
    pub nanos: u32,
}


/// The title of the media stream.
#[derive(Debug, Clone, Default, PartialEq)]
pub struct Title {
    pub content: Option<String>,
}

/// The source of the media stream.
#[derive(Debug, Clone, Default, PartialEq)]
pub struct Source {
    pub content: Option<String>,
}

/// Copyright information concerning the media stream.
#[derive(Debug, Clone, Default, PartialEq)]
pub struct Copyright {
    pub content: Option<String>,
}

/// Metainformation concerning the media stream (title, language, etc.)
#[derive(Debug, Clone, Default, PartialEq)]
pub struct ProgramInformation {
    pub lang: Option<String>,
    pub moreInformationURL: Option<String>,
    pub Title: Option<Title>,
    pub Source: Option<Source>,
    pub Copyright: Option<Copyright>,
    pub scte214ContentIdentifier: Option<Scte214ContentIdentifier>,
}

/// DASH specification MPEG extension (SCTE 214) program identification type.
///
/// Indicates how the program content is identified.
#[derive(Debug, Clone, Default, PartialEq)]
pub struct Scte214ContentIdentifier {
    pub idType: Option<String>,
    pub idValue: Option<String>,
}

/// Describes a sequence of contiguous Segments with identical duration.
#[derive(Debug, Clone, Default, PartialEq)]
pub struct S {
    pub t: Option<u64>,
    pub n: Option<u64>,
    pub d: u64,
    pub r: Option<i64>,
    pub k: Option<u64>,
}

/// Contains a sequence of `S` elements, each of which describes a sequence of contiguous segments of
/// identical duration.
#[derive(Debug, Clone, Default, PartialEq)]
pub struct SegmentTimeline {
    pub segments: Vec<S>,
}

/// Information on the bitstream switching capabilities for Representations.
///
/// When bitstream switching is enabled, the player can seamlessly switch between Representations in
/// the manifest without reinitializing the media decoder. This means fewer perturbations for the
/// viewer when the network conditions change. It requires the media segments to have been encoded
/// respecting a certain number of constraints.
#[derive(Debug, Clone, Default, PartialEq)]
pub struct BitstreamSwitching {
    pub source_url: Option<String>,
    pub range: Option<String>,
}

/// The first media segment in a sequence of Segments.
///
/// Subsequent segments can be concatenated to this segment to produce a media stream.
#[derive(Debug, Clone, Default, PartialEq)]
pub struct Initialization {
    pub sourceURL: Option<String>,
    pub range: Option<String>,
}

#[derive(Debug, Clone, Default, PartialEq)]
pub struct RepresentationIndex {
    pub range: Option<String>,
    pub sourceURL: Option<String>,
}

/// Allows template-based `SegmentURL` construction. Specifies various substitution rules using
/// dynamic values such as `$Time$` and `$Number$` that map to a sequence of Segments.
#[derive(Debug, Clone, Default, PartialEq)]
pub struct SegmentTemplate {
    pub media: Option<String>,
    pub index: Option<String>,
    pub initialization: Option<String>,
    pub bitstreamSwitching: Option<String>,
    pub indexRange: Option<String>,
    pub indexRangeExact: Option<bool>,
    pub startNumber: Option<u64>,
    pub duration: Option<XsDouble>,
    pub timescale: Option<u64>,
    pub eptDelta: Option<i64>,
    pub pbDelta: Option<i64>,
    pub presentationTimeOffset: Option<u64>,
    pub availabilityTimeOffset: Option<XsDouble>,
    pub availabilityTimeComplete: Option<bool>,
    pub Initialization: Option<Initialization>,
    pub representation_index: Option<RepresentationIndex>,
    pub failover_content: Option<FailoverContent>,
    pub SegmentTimeline: Option<SegmentTimeline>,
    pub BitstreamSwitching: Option<BitstreamSwitching>,
}

/// A URI string to which a new request for an updated manifest should be made.
///
/// This feature is intended for servers and clients that can't use sticky HTTP redirects.
#[derive(Debug, Clone, Default, PartialEq)]
pub struct Location {
    pub url: String,
}

/// A URI string that specifies one or more common locations for Segments and other resources.
///
/// Used as a prefix for SegmentURLs. Can be specified at the level of the MPD node, or Period,
/// AdaptationSet, Representation, and can be nested (the client should combine the prefix on MPD
/// and on Representation, for example).
#[derive(Debug, Clone, Default, PartialEq)]
pub struct BaseURL {
    pub serviceLocation: Option<String>,
    pub byte_range: Option<String>,
    pub availability_time_offset: Option<XsDouble>,
    pub availability_time_complete: Option<bool>,
    pub timeShiftBufferDepth: Option<XsDuration>,
    pub priority: Option<u64>,
    pub weight: Option<i64>,
    pub base: String,
}

/// Failover Content Segment (FCS).
///
/// The time and optional duration for which a representation does not represent the main content
/// but a failover version. It can and is also used to represent gaps where no segments are present
/// at all - used within the `FailoverContent` element.
#[derive(Debug, Clone, Default, PartialEq)]
pub struct Fcs {
    pub t: u64,
    pub d: Option<u64>,
}

/// Period of time for which either failover content or no content/segments exist for the
/// parent `Representation`.
#[derive(Debug, Clone, Default, PartialEq)]
pub struct FailoverContent {
    pub valid: Option<bool>,
    pub fcs_list: Vec<Fcs>,
}

/// Specifies some common information concerning media segments.
#[derive(Debug, Clone, Default, PartialEq)]
pub struct SegmentBase {
    pub timescale: Option<u64>,
    pub presentationTimeOffset: Option<u64>,
    pub indexRange: Option<String>,
    pub indexRangeExact: Option<bool>,
    pub availabilityTimeOffset: Option<XsDouble>,
    pub availabilityTimeComplete: Option<bool>,
    pub presentationDuration: Option<u64>,
    pub eptDelta: Option<i64>,
    pub pbDelta: Option<i64>,
    pub Initialization: Option<Initialization>,
    pub representation_index: Option<RepresentationIndex>,
    pub failover_content: Option<FailoverContent>,
}

/// The URL of a media segment.
#[derive(Debug, Clone, Default, PartialEq)]
pub struct SegmentURL {
    pub media: Option<String>,
    pub mediaRange: Option<String>,
    pub index: Option<String>,
    pub indexRange: Option<String>,
}

/// Contains a sequence of SegmentURL elements.
#[derive(Debug, Clone, Default, PartialEq)]
pub struct SegmentList {
    pub duration: Option<u64>,
    pub timescale: Option<u64>,
    pub indexRange: Option<String>,
    pub indexRangeExact: Option<bool>,
    pub href: Option<String>,
    pub actuate: Option<String>,
    pub sltype: Option<String>,
    pub show: Option<String>,
    pub Initialization: Option<Initialization>,
    pub SegmentTimeline: Option<SegmentTimeline>,
    pub BitstreamSwitching: Option<BitstreamSwitching>,
    pub segment_urls: Vec<SegmentURL>,
}

#[derive(Debug, Clone, Default, PartialEq)]
pub struct Resync {
    pub rtype: Option<String>,
    pub dT: Option<u64>,
    pub dImax: Option<XsDouble>,
    pub dImin: Option<XsDouble>,
    pub marker: Option<bool>,
}

/// Specifies information concerning the audio channel (e.g. stereo, multichannel).
#[derive(Debug, Clone, Default, PartialEq)]
pub struct AudioChannelConfiguration {
    pub schemeIdUri: String,
    pub value: Option<String>,
    pub id: Option<String>,
}

#[derive(Debug, Clone, Default, PartialEq)]
pub struct Language {
    pub content: Option<String>,
}

/// A Preselection is a personalization option to produce a “complete audio experience”.
///
/// Used for audio signaling in the context of the ATSC 3.0 standard for advanced IP-based
/// television broadcasting. Details are specified by the “DASH-IF Interoperability Point for ATSC
/// 3.0” document.
#[derive(Debug, Clone, Default, PartialEq)]
pub struct Preselection {
    pub id: Option<String>,
    pub preselectionComponents: String,
    pub lang: Option<String>,
    pub audioSamplingRate: Option<String>,
    pub codecs: String,
    pub selectionPriority: Option<u64>,
    pub tag: String,
    pub FramePacking: Vec<FramePacking>,
    pub AudioChannelConfiguration: Vec<AudioChannelConfiguration>,
    pub ContentProtection: Vec<ContentProtection>,
    pub OutputProtection: Option<OutputProtection>,
    pub essential_property: Vec<EssentialProperty>,
    pub supplemental_property: Vec<SupplementalProperty>,
    pub InbandEventStream: Vec<InbandEventStream>,
    pub Switching: Vec<Switching>,
    pub group_label: Vec<Label>,
    pub Label: Vec<Label>,
    pub ProducerReferenceTime: Option<ProducerReferenceTime>,
    pub Resync: Option<Resync>,
    pub accessibilities: Vec<Accessibility>,
    pub roles: Vec<Role>,
    pub ratings: Vec<Rating>,
    pub viewpoints: Vec<Viewpoint>,
    pub languages: Vec<Language>,
}

/// Specifies that content is suitable for presentation to audiences for which that rating is known to be
/// appropriate, or for unrestricted audiences.
#[derive(Debug, Clone, Default, PartialEq)]
pub struct Rating {
    pub id: Option<String>,
    pub schemeIdUri: String,
    pub value: Option<String>,
}

/// Specifies frame-packing arrangement information of the video media component type.
#[derive(Debug, Clone, Default, PartialEq)]
pub struct FramePacking {
    pub id: Option<String>,
    pub schemeIdUri: String,
    pub value: Option<String>,
}

/// Information used to allow Adaptation Set Switching (for instance, allowing the player to switch
/// between camera angles).
///
/// This is different from "bitstream switching".
#[derive(Debug, Clone, Default, PartialEq)]
pub struct Switching {
    pub interval: Option<u64>,
    pub stype: Option<String>,
}

/// Specifies the accessibility scheme used by the media content.
#[derive(Debug, Clone, Default, PartialEq)]
pub struct Accessibility {
    pub schemeIdUri: String,
    pub value: Option<String>,
    pub id: Option<String>,
}

/// Scope of a namespace.
#[derive(Debug, Clone, Default, PartialEq)]
pub struct Scope {
    pub schemeIdUri: String,
    pub value: Option<String>,
    pub id: Option<String>,
}

/// A SubRepresentation contains information that only applies to one media stream in a Representation.
#[derive(Debug, Clone, Default, PartialEq)]
pub struct SubRepresentation {
    pub level: Option<u32>,
    pub dependencyLevel: Option<String>,
    pub contentComponent: Option<String>,
    pub mimeType: Option<String>,
    pub codecs: Option<String>,
    pub contentType: Option<String>,
    pub profiles: Option<String>,
    pub segmentProfiles: Option<String>,
    pub scanType: Option<String>,
    pub frameRate: Option<String>,
    pub sar: Option<String>,
    pub bandwidth: Option<u64>,
    pub audioSamplingRate: Option<String>,
    pub maxPlayoutRate: Option<XsDouble>,
    pub codingDependency: Option<bool>,
    pub width: Option<u64>,
    pub height: Option<u64>,
    pub startWithSAP: Option<u64>,
    pub maximumSAPPeriod: Option<XsDouble>,
    pub FramePacking: Vec<FramePacking>,
    pub AudioChannelConfiguration: Vec<AudioChannelConfiguration>,
    pub ContentProtection: Vec<ContentProtection>,
    pub OutputProtection: Option<OutputProtection>,
    pub essential_property: Vec<EssentialProperty>,
    pub supplemental_property: Vec<SupplementalProperty>,
    pub InbandEventStream: Vec<InbandEventStream>,
    pub Switching: Vec<Switching>,
    pub group_label: Vec<Label>,
    pub Label: Vec<Label>,
    pub ProducerReferenceTime: Option<ProducerReferenceTime>,
    pub Resync: Option<Resync>,
}

/// A Representation describes a version of the content, using a specific encoding and bitrate.
///
/// Streams often have multiple representations with different bitrates, to allow the client to
/// select that most suitable to its network conditions (adaptive bitrate or ABR streaming).
#[derive(Debug, Clone, Default, PartialEq)]
pub struct Representation {
    pub id: Option<String>,
    pub bandwidth: Option<u64>,
    pub qualityRanking: Option<u8>,
    pub dependencyId: Option<String>,
    pub associationId: Option<String>,
    pub associationType: Option<String>,
    pub mediaStreamStructureId: Option<String>,
    pub profiles: Option<String>,
    pub width: Option<u64>,
    pub height: Option<u64>,
    pub sar: Option<String>,
    pub frameRate: Option<String>,
    pub audioSamplingRate: Option<String>,
    pub mimeType: Option<String>,
    pub segmentProfiles: Option<String>,
    pub codecs: Option<String>,
    pub containerProfiles: Option<String>,
    pub maximumSAPPeriod: Option<XsDouble>,
    pub startWithSAP: Option<u64>,
    pub maxPlayoutRate: Option<XsDouble>,
    pub codingDependency: Option<bool>,
    pub scanType: Option<String>,
    pub selectionPriority: Option<u64>,
    pub tag: Option<String>,
    pub contentType: Option<String>,
    pub lang: Option<String>,
    pub sampleRate: Option<u64>,
    pub numChannels: Option<u32>,
    pub href: Option<String>,
    pub actuate: Option<String>,
    pub scte214_supplemental_profiles: Option<String>,
    pub scte214_supplemental_codecs: Option<String>,
    pub FramePacking: Vec<FramePacking>,
    pub AudioChannelConfiguration: Vec<AudioChannelConfiguration>,
    pub ContentProtection: Vec<ContentProtection>,
    pub OutputProtection: Option<OutputProtection>,
    pub essential_property: Vec<EssentialProperty>,
    pub supplemental_property: Vec<SupplementalProperty>,
    pub InbandEventStream: Vec<InbandEventStream>,
    pub Switching: Vec<Switching>,
    pub group_label: Vec<Label>,
    pub Label: Vec<Label>,
    pub ProducerReferenceTime: Vec<ProducerReferenceTime>,
    pub Resync: Vec<Resync>,
    pub BaseURL: Vec<BaseURL>,
    pub SubRepresentation: Vec<SubRepresentation>,
    pub SegmentBase: Option<SegmentBase>,
    pub SegmentList: Option<SegmentList>,
    pub SegmentTemplate: Option<SegmentTemplate>,
    pub representation_index: Option<RepresentationIndex>,
}

/// Describes a media content component.
#[derive(Debug, Clone, Default, PartialEq)]
pub struct ContentComponent {
    pub id: Option<String>,
    pub lang: Option<String>,
    pub contentType: Option<String>,
    pub par: Option<String>,
    pub tag: Option<String>,
    pub Accessibility: Vec<Accessibility>,
    pub Role: Vec<Role>,
    pub Rating: Vec<Rating>,
    pub Viewpoint: Vec<Viewpoint>,
}

/// A Common Encryption "Protection System Specific Header" box. Content is typically base64 encoded.
#[derive(Debug, Clone, Default, PartialEq)]
pub struct CencPssh {
    pub content: Option<String>,
}

/// Licence acquisition URL for content using Microsoft PlayReady DRM.
#[derive(Debug, Clone, Default, PartialEq)]
pub struct Laurl {
    pub lic_type: Option<String>,
    pub content: Option<String>,
}

/// Initialization data that is specific to the Microsoft PlayReady DRM.
#[derive(Debug, Clone, Default, PartialEq)]
pub struct MsprPro {
    pub xmlns: Option<String>,
    pub content: Option<String>,
}

#[derive(Debug, Clone, Default, PartialEq)]
pub struct MsprIsEncrypted {
    pub content: Option<String>,
}

#[derive(Debug, Clone, Default, PartialEq)]
pub struct MsprIVSize {
    pub content: Option<String>,
}

#[derive(Debug, Clone, Default, PartialEq)]
pub struct MsprKid {
    pub content: Option<String>,
}

#[derive(Debug, Clone, Default, PartialEq)]
pub struct OutputProtection {
    pub schemeIdUri: String,
    pub value: Option<String>,
    pub id: Option<String>,
}

/// Contains information on DRM (rights management / encryption) mechanisms used in the stream.
///
/// If this node is not present, no content protection (such as Widevine and Playready) is applied
/// by the source.
#[derive(Debug, Clone, Default, PartialEq)]
pub struct ContentProtection {
    pub robustness: Option<String>,
    pub refId: Option<String>,
    pub ref_: Option<String>,
    pub schemeIdUri: String,
    pub value: Option<String>,
    pub id: Option<String>,
    pub cenc_pssh: Vec<CencPssh>,
    pub default_KID: Option<String>,
    pub laurl: Option<Laurl>,
    pub clearkey_laurl: Option<Laurl>,
    pub msprpro: Option<MsprPro>,
    pub mspr_is_encrypted: Option<MsprIsEncrypted>,
    pub mspr_iv_size: Option<MsprIVSize>,
    pub mspr_kid: Option<MsprKid>,
}

/// The Role specifies the purpose of this media stream (caption, subtitle, main content, etc.).
///
/// Possible values include "caption", "subtitle", "main", "alternate", "supplementary",
/// "commentary", and "dub" (this is the attribute scheme for @value when the schemeIdUri is
/// "urn:mpeg:dash:role:2011").
#[derive(Debug, Clone, Default, PartialEq)]
pub struct Role {
    pub id: Option<String>,
    pub schemeIdUri: String,
    pub value: Option<String>,
}

#[derive(Debug, Clone, Default, PartialEq)]
pub struct Viewpoint {
    pub id: Option<String>,
    pub schemeIdUri: String,
    pub value: Option<String>,
}

#[derive(Debug, Clone, Default, PartialEq)]
pub struct Selection {
    pub dataEncoding: Option<String>,
    pub parameter: Option<String>,
    pub data: Option<String>,
}

#[derive(Debug, Clone, Default, PartialEq)]
pub struct SelectionInfo {
    pub selectionInfo: Option<String>,
    pub contactURL: Option<String>,
    pub Selection: Vec<Selection>,
}

/// A mechanism allowing the server to send additional information to the DASH client which is
/// synchronized with the media stream.
///
/// DASH Events are Used for various purposes such as dynamic ad insertion, providing additional
/// metainformation concerning the actors or location at a point in the media stream, providing
/// parental guidance information, or sending custom data to the DASH player application.
#[derive(Debug, Clone, Default, PartialEq)]
pub struct Event {
    pub id: Option<String>,
    pub presentationTime: Option<u64>,
    pub presentationTimeOffset: Option<u64>,
    pub duration: Option<u64>,
    pub timescale: Option<u64>,
    pub contentEncoding: Option<String>,
    pub messageData: Option<String>,
    pub SelectionInfo: Option<SelectionInfo>,
    pub signal: Vec<Signal>,
    pub splice_info_section: Vec<SpliceInfoSection>,
    pub value: Option<String>,
    pub content: Option<String>,
}

#[derive(Debug, Clone, Default, PartialEq)]
pub struct EventStream {
    pub href: Option<String>,
    pub actuate: Option<String>,
    pub messageData: Option<String>,
    pub schemeIdUri: String,
    pub value: Option<String>,
    pub timescale: Option<u64>,
    pub presentationTimeOffset: Option<u64>,
    pub event: Vec<Event>,
}

/// "Inband" events are materialized by the presence of DASHEventMessageBoxes (emsg) in the media
/// segments.
///
/// The client is informed of their presence by the inclusion of an InbandEventStream element in the
/// AdaptationSet or Representation element.
#[derive(Debug, Clone, Default, PartialEq)]
pub struct InbandEventStream {
    pub timescale: Option<u64>,
    pub schemeIdUri: String,
    pub event: Vec<Event>,
    pub value: Option<String>,
    pub href: Option<String>,
    pub actuate: Option<String>,
}

#[derive(Debug, Clone, Default, PartialEq)]
pub struct EssentialProperty {
    pub id: Option<String>,
    pub schemeIdUri: String,
    pub value: Option<String>,
}

#[derive(Debug, Clone, Default, PartialEq)]
pub struct SupplementalProperty {
    pub id: Option<String>,
    pub schemeIdUri: String,
    pub value: Option<String>,
    pub scte214ContentIdentifiers: Vec<Scte214ContentIdentifier>,
}

/// Provides a textual description of the content, which can be used by the client to allow
/// selection of the desired media stream.
#[derive(Debug, Clone, Default, PartialEq)]
pub struct Label {
    pub id: Option<String>,
    pub lang: Option<String>,
    pub content: String,
}

/// Contains a set of Representations.
///
/// For example, if multiple language streams are available for the audio content, each one can be
/// in its own AdaptationSet. DASH implementation guidelines indicate that "representations in the
/// same video adaptation set should be alternative encodings of the same source content, encoded
/// such that switching between them does not produce visual glitches due to picture size or aspect
/// ratio differences".
#[derive(Debug, Clone, Default, PartialEq)]
pub struct AdaptationSet {
    pub id: Option<String>,
    pub href: Option<String>,
    pub actuate: Option<String>,
    pub group: Option<i64>,
    pub selectionPriority: Option<u64>,
    pub contentType: Option<String>,
    pub profiles: Option<String>,
    pub lang: Option<String>,
    pub sar: Option<String>,
    pub par: Option<String>,
    pub scanType: Option<String>,
    pub segmentAlignment: Option<bool>,
    pub segmentProfiles: Option<String>,
    pub subsegmentAlignment: Option<bool>,
    pub subsegmentStartsWithSAP: Option<u64>,
    pub bitstreamSwitching: Option<bool>,
    pub audioSamplingRate: Option<String>,
    pub width: Option<u64>,
    pub height: Option<u64>,
    pub mimeType: Option<String>,
    pub codecs: Option<String>,
    pub minBandwidth: Option<u64>,
    pub maxBandwidth: Option<u64>,
    pub minWidth: Option<u64>,
    pub maxWidth: Option<u64>,
    pub minHeight: Option<u64>,
    pub maxHeight: Option<u64>,
    pub frameRate: Option<String>,
    pub maxFrameRate: Option<String>,
    pub maxPlayoutRate: Option<XsDouble>,
    pub maximumSAPPeriod: Option<XsDouble>,
    pub startWithSAP: Option<u64>,
    pub codingDependency: Option<bool>,
    pub FramePacking: Vec<FramePacking>,
    pub AudioChannelConfiguration: Vec<AudioChannelConfiguration>,
    pub ContentProtection: Vec<ContentProtection>,
    pub essential_property: Vec<EssentialProperty>,
    pub supplemental_property: Vec<SupplementalProperty>,
    pub InbandEventStream: Vec<InbandEventStream>,
    pub Switching: Vec<Switching>,
    pub GroupLabel: Vec<Label>,
    pub Label: Vec<Label>,
    pub ProducerReferenceTime: Vec<ProducerReferenceTime>,
    pub Resync: Vec<Resync>,
    pub Accessibility: Vec<Accessibility>,
    pub Role: Vec<Role>,
    pub Rating: Vec<Rating>,
    pub Viewpoint: Vec<Viewpoint>,
    pub ContentComponent: Vec<ContentComponent>,
    pub BaseURL: Vec<BaseURL>,
    pub SegmentBase: Option<SegmentBase>,
    pub SegmentList: Option<SegmentList>,
    pub SegmentTemplate: Option<SegmentTemplate>,
    pub representations: Vec<Representation>,
    pub scte214_supplemental_profiles: Option<String>,
    pub scte214_supplemental_codecs: Option<String>,
}

/// Identifies the asset to which a given Period belongs.
///
/// Can be used to implement client functionality that depends on distinguishing between ads and
/// main content.
#[derive(Debug, Clone, Default, PartialEq)]
pub struct AssetIdentifier {
    pub schemeIdUri: String,
    pub value: Option<String>,
    pub scte214ContentIdentifiers: Vec<Scte214ContentIdentifier>,
}

/// Subsets provide a mechanism to restrict the combination of active Adaptation Sets.
///
/// An active Adaptation Set is one for which the DASH Client is presenting at least one of the
/// contained Representations.
#[derive(Debug, Clone, Default, PartialEq)]
pub struct Subset {
    pub id: Option<String>,
    pub contains: Vec<u64>,
}

/// Describes a chunk of the content with a start time and a duration. Content can be split up into
/// multiple periods (such as chapters, advertising segments).
#[derive(Debug, Clone, Default, PartialEq)]
pub struct Period {
    pub href: Option<String>,
    pub actuate: Option<String>,
    pub id: Option<String>,
    pub start: Option<XsDuration>,
    pub duration: Option<XsDuration>,
    pub bitstreamSwitching: Option<bool>,
    pub BaseURL: Vec<BaseURL>,
    pub SegmentBase: Option<SegmentBase>,
    pub SegmentList: Option<SegmentList>,
    pub SegmentTemplate: Option<SegmentTemplate>,
    pub asset_identifier: Option<AssetIdentifier>,
    pub event_streams: Vec<EventStream>,
    pub service_description: Vec<ServiceDescription>,
    pub ContentProtection: Vec<ContentProtection>,
    pub adaptations: Vec<AdaptationSet>,
    pub subsets: Vec<Subset>,
    pub supplemental_property: Vec<SupplementalProperty>,
    pub empty_adaptations: Vec<AdaptationSet>,
    pub group_label: Vec<Label>,
    pub pre_selections: Vec<Preselection>,
    pub essential_property: Vec<EssentialProperty>,
}

#[derive(Debug, Clone, Default, PartialEq)]
pub struct Reporting {
    pub id: Option<String>,
    pub schemeIdUri: String,
    pub value: Option<String>,
    pub reportingUrl: Option<String>,
    pub probability: Option<u64>,
}

#[derive(Debug, Clone, Default, PartialEq)]
pub struct Range {
    pub starttime: Option<XsDuration>,
    pub duration: Option<XsDuration>,
}

#[derive(Debug, Clone, Default, PartialEq)]
pub struct Metrics {
    pub metrics: String,
    pub Reporting: Vec<Reporting>,
    pub Range: Vec<Range>,
}

#[derive(Debug, Clone, Default, PartialEq)]
pub struct Latency {
    pub min: Option<XsDouble>,
    pub max: Option<XsDouble>,
    pub target: Option<XsDouble>,
    pub referenceId: Option<String>,
}

#[derive(Debug, Clone, Default, PartialEq)]
pub struct PlaybackRate {
    pub min: XsDouble,
    pub max: XsDouble,
}

#[derive(Debug, Clone, Default, PartialEq)]
pub struct ServiceDescription {
    pub id: Option<String>,
    pub Latency: Option<Latency>,
    pub PlaybackRate: Option<PlaybackRate>,
    pub scopes: Vec<Scope>,
}

/// Used to synchronize the clocks of the DASH client and server, to allow low-latency streaming.
#[derive(Debug, Clone, Default, PartialEq)]
pub struct UTCTiming {
    pub id: Option<String>,
    pub schemeIdUri: String,
    pub value: Option<String>,
}

/// Specifies wall‐clock times at which media fragments were produced.
///
/// This information helps clients consume the fragments at the same rate at which they were
/// produced. Used by the low-latency streaming extensions to DASH.
#[derive(Debug, Clone, Default, PartialEq)]
pub struct ProducerReferenceTime {
    pub id: Option<String>,
    pub inband: Option<bool>,
    pub presentationTime: Option<u64>,
    pub prtType: Option<String>,
    pub wallClockTime: Option<XsDateTime>,
    pub UTCTiming: Option<UTCTiming>,
}

#[derive(Debug, Clone, Default, PartialEq)]
pub struct LeapSecondInformation {
    pub availabilityStartLeapOffset: Option<i64>,
    pub nextAvailabilityStartLeapOffset: Option<i64>,
    pub nextLeapChangeTime: Option<XsDateTime>,
}

/// The Patch mechanism allows the DASH client to retrieve a set of instructions for replacing
/// certain parts of the MPD manifest with updated information.
///
/// It is a bandwidth-friendly alternative to retrieving a new version of the full MPD manifest. The
/// MPD patch document is guaranteed to be available between MPD@publishTime and MPD@publishTime +
/// PatchLocation@ttl.
#[derive(Debug, Clone, Default, PartialEq)]
pub struct PatchLocation {
    pub ttl: Option<XsDouble>,
    pub content: String,
}

/// The root node of a parsed DASH MPD manifest.
#[derive(Debug, Clone, Default, PartialEq)]
pub struct MPD {
    pub xmlns: Option<String>,
    pub id: Option<String>,
    pub profiles: Option<String>,
    pub mpdtype: Option<String>,
    pub availabilityStartTime: Option<XsDateTime>,
    pub availabilityEndTime: Option<XsDateTime>,
    pub publishTime: Option<XsDateTime>,
    pub mediaPresentationDuration: Option<XsDuration>,
    pub minimumUpdatePeriod: Option<XsDuration>,
    pub minBufferTime: Option<XsDuration>,
    pub timeShiftBufferDepth: Option<XsDuration>,
    pub suggestedPresentationDelay: Option<XsDuration>,
    pub maxSegmentDuration: Option<XsDuration>,
    pub maxSubsegmentDuration: Option<XsDuration>,
    pub xsi: Option<String>,
    pub ext: Option<String>,
    pub cenc: Option<String>,
    pub mspr: Option<String>,
    pub xlink: Option<String>,
    pub scte35: Option<String>,
    pub dvb: Option<String>,
    pub schemaLocation: Option<String>,
    pub scte214: Option<String>,
    pub ProgramInformation: Vec<ProgramInformation>,
    pub base_url: Vec<BaseURL>,
    pub locations: Vec<Location>,
    pub PatchLocation: Vec<PatchLocation>,
    pub ServiceDescription: Vec<ServiceDescription>,
    pub ContentProtection: Vec<ContentProtection>,
    pub periods: Vec<Period>,
    pub Metrics: Vec<Metrics>,
    pub essential_property: Vec<EssentialProperty>,
    pub supplemental_property: Vec<SupplementalProperty>,
    pub UTCTiming: Vec<UTCTiming>,
    pub LeapSecondInformation: Option<LeapSecondInformation>,
}

/// The XML namespaces that a serialized manifest declares on its root element.
#[derive(Debug, Clone, Copy, PartialEq, Eq, Structural)]
pub enum Namespace {
    Mpd,
    Xsi,
    Cenc,
    Mspr,
    Xlink,
    Dvb,
    Scte35,
}

/// The well-known URI of each namespace.
pub open spec fn namespace_uri(ns: Namespace) -> Seq<char> {
    match ns {
        Namespace::Mpd => "urn:mpeg:dash:schema:mpd:2011"@,
        Namespace::Xsi => "http://www.w3.org/2001/XMLSchema-instance"@,
        Namespace::Cenc => "urn:mpeg:cenc:2013"@,
        Namespace::Mspr => "urn:microsoft:playready"@,
        Namespace::Xlink => "http://www.w3.org/1999/xlink"@,
        Namespace::Dvb => "urn:dvb:dash-extensions:2014-1"@,
        Namespace::Scte35 => "http://www.scte.org/schemas/35/2016"@,
    }
}

/// The namespace URI to serialize: the one given in the manifest (or set explicitly), else the
/// well-known URI of the namespace.
pub fn namespace_or(given: &Option<String>, ns: Namespace) -> (r: String)
    ensures
        r@ == match given {
            Some(s) => s@,
            None => namespace_uri(ns),
        },
{
    match given {
        Some(s) => s.clone(),
        None => match ns {
            Namespace::Mpd => "urn:mpeg:dash:schema:mpd:2011".to_owned(),
            Namespace::Xsi => "http://www.w3.org/2001/XMLSchema-instance".to_owned(),
            Namespace::Cenc => "urn:mpeg:cenc:2013".to_owned(),
            Namespace::Mspr => "urn:microsoft:playready".to_owned(),
            Namespace::Xlink => "http://www.w3.org/1999/xlink".to_owned(),
            Namespace::Dvb => "urn:dvb:dash-extensions:2014-1".to_owned(),
            Namespace::Scte35 => "http://www.scte.org/schemas/35/2016".to_owned(),
        },
    }
}

/// The default of attributes whose schema default is "onRequest".
pub fn default_optstring_on_request() -> (r: Option<String>)
    ensures
        r matches Some(s) && s@ == "onRequest"@,
{
    Some("onRequest".to_owned())
}

/// The default of attributes whose schema default is "1".
pub fn default_optstring_one() -> (r: Option<String>)
    ensures
        r matches Some(s) && s@ == "1"@,
{
    Some("1".to_owned())
}

/// The default of attributes whose schema default is "encoder".
pub fn default_optstring_encoder() -> (r: Option<String>)
    ensures
        r matches Some(s) && s@ == "encoder"@,
{
    Some("encoder".to_owned())
}

/// The default of boolean attributes whose schema default is false.
pub fn default_optbool_false() -> (r: Option<bool>)
    ensures
        r == Some(false),
{
    Some(false)
}

/// The default of integer attributes whose schema default is 0.
pub fn default_optu64_zero() -> (r: Option<u64>)
    ensures
        r == Some(0u64),
{
    Some(0)
}

} // verus!
