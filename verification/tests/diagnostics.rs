use sub_ui::diagnostics::{element_line, summary_line, vendor_heading, ElementStatus, VendorReport};

fn vendors() -> Vec<VendorReport> {
    vec![
        VendorReport {
            label: "VA-API".to_owned(),
            plugin_version: Some("1.24.2".to_owned()),
            available: true,
            expected: true,
            decoders: 4,
            encoders: 2,
        },
        VendorReport {
            label: "AMF".to_owned(),
            plugin_version: None,
            available: false,
            expected: false,
            decoders: 0,
            encoders: 0,
        },
        VendorReport {
            label: "NVIDIA".to_owned(),
            plugin_version: None,
            available: false,
            expected: true,
            decoders: 0,
            encoders: 0,
        },
    ]
}

#[test]
fn the_summary_names_the_version_and_platform() {
    let line = summary_line("1.24.2", "linux-x86_64", &vendors(), true);
    assert!(line.contains("1.24.2"), "line: {line}");
    assert!(line.contains("linux-x86_64"), "line: {line}");
    assert!(line.contains("families available"), "line: {line}");
    assert_eq!(line, "GStreamer 1.24.2 on linux-x86_64: 1 of 3 families available");
    assert_eq!(
        summary_line("1.24.2", "linux-x86_64", &[], false),
        "GStreamer 1.24.2 on linux-x86_64: 0 of 0 families available; no software encoder, so export is unavailable"
    );
}

#[test]
fn every_vendor_gets_a_heading_and_every_element_a_line() {
    for vendor in &vendors() {
        let heading = vendor_heading(vendor);
        assert!(heading.starts_with(vendor.label.as_str()), "heading: {heading}");
    }
    assert_eq!(vendor_heading(&vendors()[0]), "VA-API 1.24.2 - 4 decoders, 2 encoders");
    let present = ElementStatus {
        name: "vah264dec".to_owned(),
        kind: "decoder".to_owned(),
        present: true,
        plugin: Some("va".to_owned()),
        plugin_version: Some("1.24.2".to_owned()),
    };
    let absent = ElementStatus {
        name: "nvh264enc".to_owned(),
        kind: "encoder".to_owned(),
        present: false,
        plugin: None,
        plugin_version: None,
    };
    for element in [&present, &absent] {
        let line = element_line(element);
        assert!(line.contains(&element.name), "line: {line}");
        assert!(line.contains(element.kind.as_str()), "line: {line}");
        assert_eq!(line.starts_with("[x]"), element.present, "line: {line}");
    }
    assert_eq!(element_line(&present), "[x] vah264dec (decoder) - va 1.24.2");
    assert_eq!(element_line(&absent), "[ ] nvh264enc (encoder) - not registered");
}

#[test]
fn an_unavailable_family_says_so_in_its_heading() {
    let vendors = vendors();
    assert_eq!(vendor_heading(&vendors[1]), "AMF - not available on this platform");
    assert_eq!(vendor_heading(&vendors[2]), "NVIDIA - missing");
    for vendor in &vendors[1..] {
        let heading = vendor_heading(vendor);
        assert!(heading.contains("missing") || heading.contains("not available"), "heading: {heading}");
    }
}
