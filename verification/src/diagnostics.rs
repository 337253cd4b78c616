//! The hardware diagnostics panel's lines: which decoder and encoder
//! families this installation registered, and what each element is backed
//! by.

use vstd::prelude::*;
use crate::problem::concat;
use crate::text::{decimal, decimal_text};

verus! {

/// One vendor family as the registry scan reports it.
pub struct VendorReport {
    /// The family's name.
    pub label: String,
    /// The version of the plugin that provides it, when registered.
    pub plugin_version: Option<String>,
    /// Whether any of its elements is registered.
    pub available: bool,
    /// Whether this platform is expected to have it.
    pub expected: bool,
    /// How many decoders it registered.
    pub decoders: usize,
    /// How many encoders it registered.
    pub encoders: usize,
}

/// How many of `v` are available.
pub open spec fn available_count(v: Seq<VendorReport>) -> nat
    decreases v.len(),
{
    if v.len() == 0 {
        0
    } else {
        available_count(v.drop_last()) + if v.last().available { 1nat } else { 0nat }
    }
}

/// The header of the whole panel.
pub open spec fn summary_text(
    version: Seq<char>,
    platform: Seq<char>,
    vendors: Seq<VendorReport>,
    has_software_encoder: bool,
) -> Seq<char> {
    "GStreamer "@ + version + " on "@ + platform + ": "@ + decimal(available_count(vendors))
        + " of "@ + decimal(vendors.len()) + " families available"@ + if has_software_encoder {
        Seq::<char>::empty()
    } else {
        "; no software encoder, so export is unavailable"@
    }
}

/// The one-line header of the whole panel: the GStreamer version, the
/// platform, how many families are there, and a warning when nothing can
/// encode in software.
pub fn summary_line(
    version: &str,
    platform: &str,
    vendors: &[VendorReport],
    has_software_encoder: bool,
) -> (r: String)
    ensures
        r@ == summary_text(version@, platform@, vendors@, has_software_encoder),
{
    let mut available: usize = 0;
    let mut i: usize = 0;
    while i < vendors.len()
        invariant
            i <= vendors@.len(),
            available as nat == available_count(vendors@.subrange(0, i as int)),
            available <= i,
        decreases vendors@.len() - i,
    {
        assert(vendors@.subrange(0, i + 1 as int).drop_last() =~= vendors@.subrange(0, i as int));
        if vendors[i].available {
            available = available + 1;
        }
        i = i + 1;
    }
    assert(vendors@.subrange(0, vendors@.len() as int) =~= vendors@);
    let mut out = concat("GStreamer ", version);
    out.append(" on ");
    out.append(platform);
    out.append(": ");
    out.append(decimal_text(available as u64).as_str());
    out.append(" of ");
    out.append(decimal_text(vendors.len() as u64).as_str());
    out.append(" families available");
    if !has_software_encoder {
        out.append("; no software encoder, so export is unavailable");
    }
    assert(out@ =~= summary_text(version@, platform@, vendors@, has_software_encoder));
    out
}

/// One vendor's heading.
pub open spec fn vendor_text(v: VendorReport) -> Seq<char> {
    v.label@ + (match v.plugin_version {
        Some(version) => " "@ + version@,
        None => Seq::empty(),
    }) + " - "@ + if v.available {
        decimal(v.decoders as nat) + " decoders, "@ + decimal(v.encoders as nat) + " encoders"@
    } else if v.expected {
        "missing"@
    } else {
        "not available on this platform"@
    }
}

/// One vendor's heading: name, plugin version and how much of it is there.
pub fn vendor_heading(vendor: &VendorReport) -> (r: String)
    ensures
        r@ == vendor_text(*vendor),
{
    let mut out = vendor.label.clone();
    match &vendor.plugin_version {
        Some(version) => {
            out.append(" ");
            out.append(version.as_str());
        },
        None => {},
    }
    out.append(" - ");
    if vendor.available {
        out.append(decimal_text(vendor.decoders as u64).as_str());
        out.append(" decoders, ");
        out.append(decimal_text(vendor.encoders as u64).as_str());
        out.append(" encoders");
    } else if vendor.expected {
        out.append("missing");
    } else {
        out.append("not available on this platform");
    }
    assert(out@ =~= vendor_text(*vendor));
    out
}

/// One element as the registry reports it.
pub struct ElementStatus {
    /// The element's factory name.
    pub name: String,
    /// What it does: decoder, encoder, ...
    pub kind: String,
    /// Whether it is registered.
    pub present: bool,
    /// The plugin that provides it, when known.
    pub plugin: Option<String>,
    /// That plugin's version, when known.
    pub plugin_version: Option<String>,
}

/// One element's line.
pub open spec fn element_text(e: ElementStatus) -> Seq<char> {
    if e.present {
        "[x] "@ + e.name@ + " ("@ + e.kind@ + ") - "@ + (match e.plugin {
            Some(p) => p@,
            None => "unknown plugin"@,
        }) + match e.plugin_version {
            Some(v) => " "@ + v@,
            None => Seq::<char>::empty(),
        }
    } else {
        "[ ] "@ + e.name@ + " ("@ + e.kind@ + ") - not registered"@
    }
}

/// One element's line: whether it is there, and what backs it.
pub fn element_line(element: &ElementStatus) -> (r: String)
    ensures
        r@ == element_text(*element),
{
    let mut out = if element.present {
        concat("[x] ", element.name.as_str())
    } else {
        concat("[ ] ", element.name.as_str())
    };
    out.append(" (");
    out.append(element.kind.as_str());
    if element.present {
        out.append(") - ");
        match &element.plugin {
            Some(p) => out.append(p.as_str()),
            None => out.append("unknown plugin"),
        }
        match &element.plugin_version {
            Some(v) => {
                out.append(" ");
                out.append(v.as_str());
            },
            None => {},
        }
    } else {
        out.append(") - not registered");
    }
    assert(out@ =~= element_text(*element));
    out
}

} // verus!
