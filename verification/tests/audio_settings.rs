use sub_ui::audio_settings::{AudioSettingsAction, SettingsClick, device_label, status_line, underrun_line, AudioSettingsPanel, OutputDevice, OutputDiagnostics};
use sub_ui::problem::Problem;

fn devices() -> Vec<OutputDevice> {
    vec![
        OutputDevice {
            id: "built-in".to_owned(),
            name: "Built-in Output".to_owned(),
            is_default: true,
            default_sample_rate: Some(48_000),
            format_channels: vec![2, 6],
        },
        OutputDevice {
            id: "usb".to_owned(),
            name: "USB Interface".to_owned(),
            is_default: false,
            default_sample_rate: None,
            format_channels: vec![2, 6],
        },
    ]
}

fn diagnostics() -> OutputDiagnostics {
    OutputDiagnostics {
        device_name: "Built-in Output".to_owned(),
        format: "2 ch f32 at 44100 Hz, resampled from 48000 Hz".to_owned(),
        underrun_frames: 0,
        stream_errors: 0,
        last_error: None,
    }
}

fn unavailable(message: &str) -> Problem {
    Problem { code: "audio.device_unavailable".to_owned(), message: message.to_owned(), details: Vec::new() }
}

#[test]
fn a_closed_panel_never_asks_for_a_scan() {
    let mut panel = AudioSettingsPanel::new(());
    assert!(!panel.needs_devices());
    panel.open = true;
    assert!(panel.needs_devices());
    panel.set_devices(Ok(devices()));
    assert!(!panel.needs_devices());
    assert_eq!(panel.devices().map(|result| result.map(|list| list.len()).ok()), Some(Some(2)));
    panel.refresh();
    assert!(panel.needs_devices());
}

#[test]
fn a_failed_scan_is_remembered_rather_than_repeated() {
    let mut panel = AudioSettingsPanel::new(());
    panel.open = true;
    panel.set_devices(Err(unavailable("the host is gone")));
    assert!(!panel.needs_devices());
    let Some(Err(error)) = panel.devices() else {
        panic!("the scan failed");
    };
    assert_eq!(error.code, "audio.device_unavailable");
}

#[test]
fn the_selection_follows_what_the_output_actually_did() {
    let mut panel = AudioSettingsPanel::new(());
    assert_eq!(panel.selected(), None);
    panel.set_selected(Some("usb"));
    assert_eq!(panel.selected(), Some("usb"));
    panel.set_error(Some(unavailable("gone")));
    // The application restored the previous device, so the panel does.
    panel.set_selected(None);
    assert_eq!(panel.selected(), None);
    assert!(panel.last_error().is_some());
    panel.set_error(None);
    assert!(panel.last_error().is_none());
}

#[test]
fn the_panel_keeps_the_scrub_settings_and_the_snapshot_it_is_given() {
    let mut panel = AudioSettingsPanel::new(3u8);
    assert_eq!(panel.scrub(), 3);
    panel.set_scrub(9);
    assert_eq!(panel.scrub(), 9);
    assert!(panel.diagnostics().is_none());
    panel.set_diagnostics(Some(diagnostics()));
    assert_eq!(panel.diagnostics().map(|d| d.device_name.as_str()), Some("Built-in Output"));
}

#[test]
fn a_device_label_names_the_default_and_what_it_can_do() {
    let devices = devices();
    let label = device_label(&devices[0]);
    assert!(label.contains("Built-in Output"), "{label}");
    assert!(label.contains("system default"), "{label}");
    assert!(label.contains("48000 Hz"), "{label}");
    assert!(label.contains("up to 6 ch"), "{label}");
    assert_eq!(label, "Built-in Output (system default) — 48000 Hz, up to 6 ch");
    assert!(!device_label(&devices[1]).contains("system default"), "only one device is the default");
    assert_eq!(device_label(&devices[1]), "USB Interface, up to 6 ch");
}

#[test]
fn the_status_line_says_when_nothing_is_playing() {
    assert!(status_line(None).contains("closed"));
    let line = status_line(Some(&diagnostics()));
    assert!(line.contains("Built-in Output"), "{line}");
    assert!(line.contains("44100 Hz"), "{line}");
    assert!(line.contains("resampled from 48000 Hz"), "{line}");
    assert_eq!(line, "Playing on Built-in Output: 2 ch f32 at 44100 Hz, resampled from 48000 Hz");
}

#[test]
fn underruns_and_stream_errors_are_surfaced() {
    let mut diagnostics = diagnostics();
    assert!(diagnostics.is_healthy());
    diagnostics.underrun_frames = 512;
    diagnostics.stream_errors = 2;
    diagnostics.last_error = Some("device disconnected".to_owned());
    assert!(!diagnostics.is_healthy());
    let line = underrun_line(&diagnostics);
    assert!(line.contains("512 underrun frames"), "{line}");
    assert!(line.contains("2 stream errors"), "{line}");
    assert!(line.contains("device disconnected"), "{line}");
    assert_eq!(line, "512 underrun frames, 2 stream errors — last: device disconnected");
}

#[test]
fn a_click_asks_only_for_a_change() {
    let mut panel: AudioSettingsPanel<u32> = AudioSettingsPanel::new(40);
    assert_eq!(panel.action_for(SettingsClick::Rescan), AudioSettingsAction::Rescan);
    assert_eq!(panel.action_for(SettingsClick::Device(0)), AudioSettingsAction::Nothing, "nothing listed yet");
    assert_eq!(panel.action_for(SettingsClick::SystemDefault), AudioSettingsAction::Nothing, "already the default");
    panel.set_devices(Ok(devices()));
    assert_eq!(
        panel.action_for(SettingsClick::Device(1)),
        AudioSettingsAction::SelectDevice(Some("usb".to_owned()))
    );
    panel.set_selected(Some("usb"));
    assert_eq!(panel.action_for(SettingsClick::Device(1)), AudioSettingsAction::Nothing, "already chosen");
    assert_eq!(panel.action_for(SettingsClick::Device(2)), AudioSettingsAction::Nothing, "no such entry");
    assert_eq!(panel.action_for(SettingsClick::SystemDefault), AudioSettingsAction::SelectDevice(None));
    assert_eq!(panel.action_for(SettingsClick::Scrub(80)), AudioSettingsAction::SetScrub(80));
    panel.set_devices(Err(Problem::new("audio.no_host", "no host".to_owned())));
    assert_eq!(panel.action_for(SettingsClick::Device(0)), AudioSettingsAction::Nothing);
}
