//! The SegmentTemplate settings that apply to a Representation, inherited from the Period, the
//! AdaptationSet and the Representation itself, and the template values of a Representation.

use vstd::prelude::*;
use crate::mpd::{SegmentTemplate, SegmentTimeline, AdaptationSet, Representation, XsDouble};
use crate::template::TemplateParams;
use crate::digits::{decimal, decimal_chars};
use crate::text::{string_from_chars, opt_view};

verus! {

/// The SegmentTemplate attribute values in force for a Representation.
#[derive(Debug, Clone, PartialEq)]
pub struct TemplateSettings {
    pub initialization: Option<String>,
    pub media: Option<String>,
    pub duration: Option<XsDouble>,
    pub timescale: u64,
    pub start_number: u64,
}

/// The SegmentTemplate attribute values in force, as plain values.
pub struct SettingsView {
    pub initialization: Option<Seq<char>>,
    pub media: Option<Seq<char>>,
    pub duration: Option<XsDouble>,
    pub timescale: u64,
    pub start_number: u64,
}

impl View for TemplateSettings {
    type V = SettingsView;

    open spec fn view(&self) -> SettingsView {
        SettingsView {
            initialization: opt_view(self.initialization),
            media: opt_view(self.media),
            duration: self.duration,
            timescale: self.timescale,
            start_number: self.start_number,
        }
    }
}

/// No initialization, media or duration; timescale 1 and start number 1.
pub open spec fn initial_settings() -> SettingsView {
    SettingsView { initialization: None, media: None, duration: None, timescale: 1, start_number: 1 }
}

/// The settings after the SegmentTemplate `st` that addresses the Representation: its
/// `@initialization`, `@media`, `@timescale` and `@startNumber` replace the current values when
/// present.
pub open spec fn applied_settings(v: SettingsView, st: SegmentTemplate) -> SettingsView {
    SettingsView {
        initialization: override_with(v.initialization, opt_view(st.initialization)),
        media: override_with(v.media, opt_view(st.media)),
        duration: v.duration,
        timescale: st.timescale.unwrap_or(v.timescale),
        start_number: st.startNumber.unwrap_or(v.start_number),
    }
}

/// The settings after an enclosing SegmentTemplate `st`: as `applied_settings`, and its
/// `@duration` too replaces the current one when present.
pub open spec fn inherited_settings(v: SettingsView, st: SegmentTemplate) -> SettingsView {
    SettingsView { duration: override_with(v.duration, st.duration), ..applied_settings(v, st) }
}

/// A present value replaces the current one.
pub open spec fn override_with<T>(current: Option<T>, given: Option<T>) -> Option<T> {
    match given {
        Some(v) => Some(v),
        None => current,
    }
}

impl TemplateSettings {
    /// No initialization, media or duration; timescale 1 and start number 1.
    pub fn new() -> (s: TemplateSettings)
        ensures
            s.initialization is None,
            s.media is None,
            s.duration is None,
            s.timescale == 1,
            s.start_number == 1,
            s@ == initial_settings(),
    {
        TemplateSettings { initialization: None, media: None, duration: None, timescale: 1, start_number: 1 }
    }

    /// The settings after an enclosing SegmentTemplate (of a Period or an AdaptationSet): each of
    /// its `@initialization`, `@media`, `@duration`, `@timescale` and `@startNumber` that is
    /// present replaces the current value.
    pub fn inherit(self, st: &SegmentTemplate) -> (s: TemplateSettings)
        ensures
            opt_view(s.initialization) == override_with(opt_view(self.initialization), opt_view(st.initialization)),
            opt_view(s.media) == override_with(opt_view(self.media), opt_view(st.media)),
            s.duration == override_with(self.duration, st.duration),
            s.timescale == st.timescale.unwrap_or(self.timescale),
            s.start_number == st.startNumber.unwrap_or(self.start_number),
            s@ == inherited_settings(self@, *st),
    {
        let mut s = self.apply(st);
        if let Some(d) = st.duration {
            s.duration = Some(d);
        }
        s
    }

    /// The settings after the SegmentTemplate that addresses the Representation: its
    /// `@initialization`, `@media`, `@timescale` and `@startNumber` replace the current values
    /// when present (its `@duration` is read separately).
    pub fn apply(self, st: &SegmentTemplate) -> (s: TemplateSettings)
        ensures
            opt_view(s.initialization) == override_with(opt_view(self.initialization), opt_view(st.initialization)),
            opt_view(s.media) == override_with(opt_view(self.media), opt_view(st.media)),
            s.duration == self.duration,
            s.timescale == st.timescale.unwrap_or(self.timescale),
            s.start_number == st.startNumber.unwrap_or(self.start_number),
            s@ == applied_settings(self@, *st),
    {
        let mut s = self;
        if let Some(i) = &st.initialization {
            s.initialization = Some(i.clone());
        }
        if let Some(m) = &st.media {
            s.media = Some(m.clone());
        }
        if let Some(ts) = st.timescale {
            s.timescale = ts;
        }
        if let Some(n) = st.startNumber {
            s.start_number = n;
        }
        s
    }
}

/// The SegmentTemplate that addresses a Representation: its own, else its AdaptationSet's.
pub fn representation_template<'a>(r: &'a Representation, a: &'a AdaptationSet) -> (t: Option<&'a SegmentTemplate>)
    ensures
        t == match r.SegmentTemplate {
            Some(st) => Some(&st),
            None => match a.SegmentTemplate {
                Some(st) => Some(&st),
                None => None,
            },
        },
{
    match &r.SegmentTemplate {
        Some(st) => Some(st),
        None => match &a.SegmentTemplate {
            Some(st) => Some(st),
            None => None,
        },
    }
}

/// The SegmentTimeline of a Representation: that of its own SegmentTemplate, else that of its
/// AdaptationSet's SegmentTemplate (also when the Representation's template has no timeline).
pub fn representation_timeline<'a>(r: &'a Representation, a: &'a AdaptationSet) -> (t: Option<&'a SegmentTimeline>)
    ensures
        t == match r.SegmentTemplate {
            Some(st) if st.SegmentTimeline is Some => Some(&st.SegmentTimeline->0),
            _ => match a.SegmentTemplate {
                Some(st) => match st.SegmentTimeline {
                    Some(tl) => Some(&tl),
                    None => None,
                },
                None => None,
            },
        },
{
    if let Some(st) = &r.SegmentTemplate {
        if let Some(tl) = &st.SegmentTimeline {
            return Some(tl);
        }
    }
    match &a.SegmentTemplate {
        Some(st) => match &st.SegmentTimeline {
            Some(tl) => Some(tl),
            None => None,
        },
        None => None,
    }
}

/// The template values of a Representation: its `@id` as RepresentationID and its `@bandwidth`
/// (in decimal) as Bandwidth.
pub fn representation_params(r: &Representation) -> (p: TemplateParams)
    ensures
        opt_view(p.representation_id) == opt_view(r.id),
        opt_view(p.bandwidth) == match r.bandwidth {
            Some(b) => Some(decimal(b as nat)),
            None => None,
        },
        p.number is None,
        p.time is None,
{
    let bandwidth = match r.bandwidth {
        Some(b) => {
            let d = decimal_chars(b);
            Some(string_from_chars(d.as_slice()))
        },
        None => None,
    };
    TemplateParams { representation_id: r.id.clone(), number: None, time: None, bandwidth }
}

} // verus!
