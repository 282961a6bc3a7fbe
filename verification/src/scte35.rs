//! The SCTE-35 elements that can appear in a DASH manifest's event streams.
use vstd::prelude::*;

verus! {


#[derive(Debug, Clone, Default, PartialEq)]
pub struct AvailDescriptor {
    pub provider_avail_id: u32,
}

#[derive(Debug, Clone, Default, PartialEq)]
pub struct DTMFDescriptor {
    pub preroll: Option<u8>,
    pub chars: Option<String>,
}

#[derive(Debug, Clone, Default, PartialEq)]
pub struct TimeDescriptor {
    pub tai_seconds: Option<u64>,
    pub tai_ns: Option<u32>,
    pub utc_offset: Option<u16>,
}

#[derive(Debug, Clone, Default, PartialEq)]
pub struct BreakDuration {
    pub auto_return: bool,
    pub duration: u64,
}

#[derive(Debug, Clone, Default, PartialEq)]
pub struct ScteEvent {
    pub splice_event_id: Option<u32>,
    pub splice_event_cancel_indicator: Option<bool>,
    pub out_of_network_indicator: Option<bool>,
    pub unique_program_id: Option<u16>,
    pub avail_num: Option<u8>,
    pub avails_expected: Option<u8>,
    pub break_duration: Option<BreakDuration>,
}

#[derive(Debug, Clone, Default, PartialEq)]
pub struct SpliceTime {
    pub xmlns: Option<String>,
    pub pts_time: Option<u64>,
}

#[derive(Debug, Clone, Default, PartialEq)]
pub struct SpliceNull {}

#[derive(Debug, Clone, Default, PartialEq)]
pub struct SpliceSchedule {
    pub scte_events: Vec<ScteEvent>,
}

#[derive(Debug, Clone, Default, PartialEq)]
pub struct BandwidthReservation {}

#[derive(Debug, Clone, Default, PartialEq)]
pub struct EncryptedPacket {
    pub content: Option<String>,
}

#[derive(Debug, Clone, Default, PartialEq)]
pub struct PrivateBytes {
    pub content: Option<String>,
}

#[derive(Debug, Clone, Default, PartialEq)]
pub struct PrivateCommand {
    pub identifier: u32,
    pub private_bytes: Vec<PrivateBytes>,
}

#[derive(Debug, Clone, Default, PartialEq)]
pub struct TimeSignal {
    pub splice_time: Vec<SpliceTime>,
}

#[derive(Debug, Clone, Default, PartialEq)]
pub struct SegmentationUpid {
    pub xmlns: Option<String>,
    pub segmentation_upid_type: Option<u8>,
    pub format_identifier: Option<u32>,
    pub segmentation_upid_format: Option<String>,
    pub format: Option<String>,
    pub content: Option<String>,
}

#[derive(Debug, Clone, Default, PartialEq)]
pub struct SegmentationDescriptor {
    pub xmlns: Option<String>,
    pub segmentation_event_id: Option<u32>,
    pub segmentation_event_cancel_indicator: Option<bool>,
    pub splice_event_id: Option<u64>,
    pub segmentation_type_id: Option<u8>,
    pub segmentation_duration: Option<u64>,
    pub segmentation_upid_type: Option<u8>,
    pub segmentation_upid: Option<u64>,
    pub segment_num: Option<u8>,
    pub segments_expected: Option<u8>,
    pub sub_segment_num: Option<u8>,
    pub sub_segments_expected: Option<u8>,
    pub segmentation_upids: Vec<SegmentationUpid>,
}

#[derive(Debug, Clone, Default, PartialEq)]
pub struct Program {
    pub splice_time: Vec<SpliceTime>,
}

#[derive(Debug, Clone, Default, PartialEq)]
pub struct SpliceInsert {
    pub splice_event_id: Option<u32>,
    pub splice_event_cancel_indicator: Option<bool>,
    pub out_of_network_indicator: Option<bool>,
    pub splice_immediate_flag: Option<bool>,
    pub unique_program_id: Option<u16>,
    pub avail_num: Option<u8>,
    pub avails_expected: Option<u8>,
    pub break_duration: Option<BreakDuration>,
}

#[derive(Debug, Clone, Default, PartialEq)]
pub struct SpliceInfoSection {
    pub xmlns: Option<String>,
    pub sap_type: Option<u16>,
    pub pre_roll_milliseconds: Option<u32>,
    pub pts_adjustment: Option<u64>,
    pub protocol_version: Option<u8>,
    pub tier: Option<u16>,
    pub time_signal: Option<TimeSignal>,
    pub segmentation_descriptor: Option<SegmentationDescriptor>,
    pub splice_null: Option<SpliceNull>,
    pub splice_insert: Option<SpliceInsert>,
    pub splice_schedule: Option<SpliceSchedule>,
    pub bandwidth_reservation: Option<BandwidthReservation>,
    pub private_command: Option<PrivateCommand>,
    pub encrypted_packet: Option<EncryptedPacket>,
    pub avail_descriptor: Option<AvailDescriptor>,
    pub dtmf_descriptor: Option<DTMFDescriptor>,
    pub time_descriptor: Option<TimeDescriptor>,
}

/// A binary representation of a SCTE 35 cue message. We don't attempt to decode these, but the
/// `scte35-reader` crate is able to parse a subset of the standard, and the `threefive` Python
/// library provides a full parser.
///
/// Basic messages may just be '/' + base64-encoded string
///   e.g. "/TWFpbiBDb250ZW50" -> "Main Content"
#[derive(Debug, Clone, Default, PartialEq)]
pub struct Binary {
    pub signal_type: Option<String>,
    pub content: String,
}

#[derive(Debug, Clone, Default, PartialEq)]
pub struct Signal {
    pub xmlns: Option<String>,
    pub splice_info_section: Option<SpliceInfoSection>,
    pub content: Option<Binary>,
}

} // verus!
