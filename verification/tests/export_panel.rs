use sub_ui::export_panel::{
    duration_label, sequence_frames, progress_line, ExportEvent, ExportPanel, ExportRange, ExportReport, ExportStatus,
    PresetEntry, PresetSource, Progress, SequenceSummary, RECENT_LIMIT,
};
use sub_ui::problem::{Problem, EXPORT_NOT_READY};

const SEQUENCE: u64 = 7;

fn library_entry(id: &str, name: &str, summary: &str) -> PresetEntry {
    PresetEntry {
        id: id.to_owned(),
        name: name.to_owned(),
        summary: summary.to_owned(),
        codec: Some("h264".to_owned()),
        source: PresetSource::Library,
    }
}

/// The shipped library, as far as these cases need it.
fn builtin() -> Vec<PresetEntry> {
    vec![
        library_entry("youtube-1080p", "YouTube 1080p", "MP4 · 1920×1080 · H.264"),
        library_entry("prores-422", "ProRes 422", "MOV · ProRes 422"),
    ]
}

/// One plugin preset, as the exporter world describes them.
fn plugin_preset(plugin: &str, id: &str) -> PresetEntry {
    PresetEntry {
        id: id.to_owned(),
        name: format!("Plugin {id}"),
        summary: "MOV · 24 fps · a plugin target".to_owned(),
        codec: None,
        source: PresetSource::Plugin { plugin: plugin.to_owned() },
    }
}

/// A project with one sequence `frames` long.
fn project(frames: i64) -> Vec<SequenceSummary> {
    vec![SequenceSummary { id: SEQUENCE, frames }]
}

/// A panel over that project, ready to export the whole of it.
fn panel(sequences: &[SequenceSummary]) -> ExportPanel {
    let mut panel = ExportPanel::new();
    panel.set_library(builtin());
    panel.select_sequence(sequences, SEQUENCE);
    panel.set_output("/tmp/out.mp4".to_owned());
    panel
}

fn field(error: &Problem) -> &str {
    error.details.iter().find(|(name, _)| name == "field").map(|(_, value)| value.as_str()).expect("a field is named")
}

fn report(path: &str, frames: u64) -> ExportReport {
    ExportReport { path: path.to_owned(), video_frames: frames, duration: sub_ui::media_bin::MediaTime { value: frames as i64, rate: sub_ui::media_bin::Rational { numerator: 24, denominator: 1 } }, video_encoder: "x264enc".to_owned() }
}

#[test]
fn the_whole_sequence_range_covers_every_frame_of_the_longest_track() {
    let project = project(120);
    let panel = panel(&project);
    let request = panel.request(&project).unwrap_or_else(|_| panic!("the panel is ready"));
    assert_eq!(request.range, ExportRange::WholeSequence);
    assert_eq!(request.frames_total(), 120);
    assert_eq!((request.start, request.end), (0, 120));
    assert_eq!(request.sequence, SEQUENCE);
    assert_eq!(request.output, "/tmp/out.mp4");
    assert_eq!(request.preset.id, "youtube-1080p", "the first preset is chosen when none was");
}

#[test]
fn the_in_to_out_range_exports_only_the_frames_between_the_points() {
    let project = project(120);
    let mut panel = panel(&project);
    panel.set_range(ExportRange::InToOut);
    panel.set_in_out(24, 48);
    let request = panel.request(&project).unwrap_or_else(|_| panic!("the panel is ready"));
    assert_eq!(request.range, ExportRange::InToOut);
    assert_eq!(request.frames_total(), 24);
    assert_eq!(request.start, 24);
}

#[test]
fn the_points_stay_ordered_and_non_negative_however_they_are_dragged() {
    let project = project(120);
    let mut panel = panel(&project);
    assert_eq!(panel.in_out(), (0, 120), "choosing a sequence spans all of it");
    panel.set_in_out(-10, 30);
    assert_eq!(panel.in_out(), (0, 30), "an in point cannot precede zero");
    panel.set_in_out(40, 10);
    assert_eq!(panel.in_out(), (40, 40), "an out point cannot precede the in");
}

#[test]
fn an_empty_range_and_every_missing_choice_name_their_own_field() {
    let project = project(120);
    let mut bare = ExportPanel::new();
    assert_eq!(field(&bare.request(&project).err().expect("not ready")), "preset", "no preset is the first thing missing");
    bare.set_library(builtin());
    assert_eq!(field(&bare.request(&project).err().expect("not ready")), "sequence");
    bare.select_sequence(&project, SEQUENCE);
    assert_eq!(field(&bare.request(&project).err().expect("not ready")), "output");
    bare.set_output("/tmp/out.mp4".to_owned());
    bare.set_range(ExportRange::InToOut);
    bare.set_in_out(30, 30);
    let error = bare.request(&project).err().expect("not ready");
    assert_eq!(field(&error), "range");
    assert_eq!(error.code, EXPORT_NOT_READY);
    assert_eq!(error.message, "the range has no frames in it");
}

#[test]
fn a_sequence_the_project_has_lost_is_refused_rather_than_exported() {
    let project = project(120);
    let panel = panel(&project);
    let error = panel.request(&[]).err().expect("the sequence is gone");
    assert_eq!(field(&error), "sequence");
    assert_eq!(error.message, "the chosen sequence is no longer open");
}

#[test]
fn plugin_presets_join_the_list_after_the_library_and_replace_their_own() {
    let project = project(120);
    let mut panel = panel(&project);
    let library = panel.presets().len();
    let plugin = "com.example.exporter";
    panel.set_plugin_presets(plugin, vec![plugin_preset(plugin, "web.small"), plugin_preset(plugin, "web.big")]);
    assert_eq!(panel.presets().len(), library + 2);
    let entry = panel.presets().iter().find(|entry| entry.id == "web.small").expect("the plugin preset is listed");
    assert_eq!(entry.source, PresetSource::Plugin { plugin: plugin.to_owned() });
    assert!(entry.summary.starts_with("MOV"), "{}", entry.summary);

    // Loading the plugin again replaces what it offered before.
    panel.set_plugin_presets(plugin, vec![plugin_preset(plugin, "web.small")]);
    assert_eq!(panel.presets().len(), library + 1);

    // Another plugin's presets are left alone.
    panel.set_plugin_presets("com.example.other", vec![plugin_preset("com.example.other", "tape")]);
    panel.set_plugin_presets(plugin, Vec::new());
    assert_eq!(panel.presets().len(), library + 1);
    assert_eq!(panel.presets()[library].id, "tape");

    panel.set_plugin_presets(plugin, vec![plugin_preset(plugin, "web.small")]);
    assert!(panel.select_preset("web.small").is_ok());
    let request = panel.request(&project).unwrap_or_else(|_| panic!("the panel is ready"));
    assert_eq!(request.preset.id, "web.small");
}

#[test]
fn the_library_can_be_reloaded_without_losing_the_plugins_presets() {
    let project = project(120);
    let mut panel = panel(&project);
    let plugin = "com.example.exporter";
    panel.set_plugin_presets(plugin, vec![plugin_preset(plugin, "web.small")]);
    panel.set_library(builtin());
    assert!(panel.presets().iter().any(|entry| entry.id == "web.small"), "reloading the library keeps what plugins contributed");
    assert_eq!(panel.presets().first().map(|entry| entry.source.clone()), Some(PresetSource::Library));
    assert_eq!(panel.presets().len(), builtin().len() + 1);
}

#[test]
fn an_encoder_override_belongs_to_the_preset_it_was_chosen_for() {
    let project = project(120);
    let mut panel = panel(&project);
    let choices = vec!["x264enc".to_owned(), "vah264enc".to_owned()];
    assert!(panel.set_encoder_override(Some("x264enc"), &choices).is_ok());
    assert_eq!(
        panel.request(&project).unwrap_or_else(|_| panic!("ready")).encoder_override,
        Some("x264enc".to_owned())
    );
    let refused = panel.set_encoder_override(Some("not-an-encoder"), &choices);
    assert!(refused.is_err(), "an element the preset's codec cannot use is refused");
    assert_eq!(field(&refused.err().expect("refused")), "encoder");
    assert_eq!(panel.encoder_override(), Some("x264enc"), "and the pin is left alone");

    // Choosing the same preset again keeps the pin.
    assert!(panel.select_preset("youtube-1080p").is_ok());
    assert_eq!(panel.encoder_override(), Some("x264enc"));

    let other = panel.presets()[1].id.clone();
    assert!(panel.select_preset(&other).is_ok());
    assert_eq!(panel.encoder_override(), None, "the pin does not survive a change of preset");
    assert!(panel.set_encoder_override(None, &choices).is_ok());
}

#[test]
fn an_unknown_preset_id_is_refused_and_leaves_the_choice_alone() {
    let project = project(120);
    let mut panel = panel(&project);
    let chosen = panel.selected_preset().map(|entry| entry.id.clone());
    let error = panel.select_preset("no-such-preset").err().expect("refused");
    assert_eq!(field(&error), "preset");
    assert_eq!(panel.selected_preset().map(|entry| entry.id.clone()), chosen);
}

#[test]
fn the_job_events_drive_the_progress_bar_the_eta_and_the_recent_list() {
    let project = project(120);
    let mut panel = panel(&project);
    assert!(matches!(panel.status(), ExportStatus::Idle));

    assert!(panel.start(&project).is_ok());
    panel.apply_event(ExportEvent::Started { path: "/tmp/out.mp4".to_owned(), frames_total: 120 });
    assert!(panel.status().is_running());
    assert_eq!(panel.status().summary(), "Starting: 0 of 120 frames");

    panel.apply_event(ExportEvent::Progress(Progress {
        frames_done: 30,
        frames_total: 120,
        percent_milli: Some(25_000),
        frames_per_second_milli: 15_000,
        eta_secs: Some(6),
    }));
    let line = panel.status().summary();
    assert!(line.contains("25%"), "{line}");
    assert!(line.contains("0:06 left"), "{line}");
    assert_eq!(line, "25% · 30 of 120 frames · 15 fps · 0:06 left");

    panel.apply_event(ExportEvent::Finished(report("/tmp/out.mp4", 120)));
    assert!(!panel.status().is_running());
    assert_eq!(panel.status().summary(), "Wrote /tmp/out.mp4 (120 frames, x264enc)");
    assert_eq!(panel.recent().len(), 1);
    assert_eq!(panel.recent()[0].frames, 120);
    assert_eq!(panel.recent()[0].duration.value, 120, "the media duration the export wrote");
    assert_eq!(panel.recent()[0].preset, "YouTube 1080p", "listed under the preset it started with");
}

#[test]
fn a_progress_line_without_a_percentage_or_an_eta_says_so() {
    let line = progress_line(&Progress {
        frames_done: 3,
        frames_total: 10,
        percent_milli: None,
        frames_per_second_milli: 2_500,
        eta_secs: None,
    });
    assert_eq!(line, "3 of 10 frames · 2 fps · unknown left");
}

#[test]
fn a_cancelled_and_a_failed_export_say_so_and_add_nothing_to_the_list() {
    let project = project(120);
    let mut panel = panel(&project);
    panel.apply_event(ExportEvent::Cancelled { frames_done: 12 });
    assert!(panel.status().summary().contains("Cancelled after 12 frames"));

    let error = Problem {
        code: "export.pipeline_failed".to_owned(),
        message: "x264enc refused the buffer".to_owned(),
        details: Vec::new(),
    };
    panel.apply_event(ExportEvent::Failed { error, frames_done: 3 });
    let line = panel.status().summary();
    assert!(line.contains("export.pipeline_failed"), "{line}");
    assert_eq!(line, "Failed [export.pipeline_failed]: x264enc refused the buffer");
    assert!(panel.recent().is_empty(), "nothing was written to remember");
}

#[test]
fn the_recent_list_is_newest_first_without_repeating_a_path() {
    let project = project(120);
    let mut panel = panel(&project);
    for index in 0..=RECENT_LIMIT {
        panel.apply_event(ExportEvent::Finished(report(&format!("/tmp/out{index}.mp4"), index as u64)));
    }
    assert_eq!(panel.recent().len(), RECENT_LIMIT, "the list is bounded");
    assert_eq!(panel.recent()[0].path, format!("/tmp/out{RECENT_LIMIT}.mp4"), "newest first");

    panel.apply_event(ExportEvent::Finished(report("/tmp/out1.mp4", 1)));
    let repeats = panel.recent().iter().filter(|entry| entry.path == "/tmp/out1.mp4").count();
    assert_eq!(repeats, 1, "an export to the same file moves rather than repeats");
    assert_eq!(panel.recent()[0].path, "/tmp/out1.mp4");
    assert_eq!(panel.recent().len(), RECENT_LIMIT);
}

#[test]
fn a_preset_entry_reads_as_the_file_it_writes() {
    let entry = &builtin()[0];
    assert!(entry.summary.starts_with("MP4 · 1920×1080"), "{}", entry.summary);
    assert!(entry.list_label().ends_with("(built in)"), "{}", entry.list_label());
    assert_eq!(entry.list_label(), "YouTube 1080p (built in)");
    assert_eq!(plugin_preset("com.example.exporter", "web").list_label(), "Plugin web (plugin com.example.exporter)");
}

#[test]
fn an_eta_reads_as_a_clock_and_a_percentage_as_a_bar_width() {
    assert_eq!(duration_label(9), "0:09");
    assert_eq!(duration_label(125), "2:05");
    assert_eq!(duration_label(3_725), "1:02:05");
}

#[test]
fn an_unavailable_renderer_is_explained_rather_than_hidden() {
    let mut panel = ExportPanel::new();
    assert_eq!(panel.unavailable(), None);
    panel.set_unavailable(Some("no renderer here".to_owned()));
    assert_eq!(panel.unavailable(), Some("no renderer here"));
    panel.set_unavailable(None);
    assert_eq!(panel.unavailable(), None);
}

#[test]
fn an_export_range_names_itself() {
    assert_eq!(ExportRange::WholeSequence.label(), "Whole sequence");
    assert_eq!(ExportRange::InToOut.label(), "In to out");
    assert_eq!(ExportRange::default(), ExportRange::WholeSequence);
}

#[test]
fn a_sequence_is_as_long_as_its_longest_track() {
    assert_eq!(sequence_frames(&[48, 120, 96]), 120);
    assert_eq!(sequence_frames(&[]), 0, "a sequence with no tracks has no frames");
    assert_eq!(sequence_frames(&[0]), 0);
}

#[test]
fn a_library_selects_its_first_preset_when_nothing_was_chosen() {
    let mut panel = ExportPanel::new();
    assert!(panel.selected_preset().is_none());
    let before = panel.request(&project(10)).map(|_| ()).unwrap_err();
    assert_eq!(field(&before), "preset");
    panel.set_library(builtin());
    assert_eq!(panel.selected_preset().map(|entry| entry.id.clone()), Some("youtube-1080p".to_owned()));
    let after = panel.request(&project(10)).map(|_| ()).unwrap_err();
    assert_eq!(field(&after), "sequence", "the preset is no longer what is missing");
    // A choice that is still listed survives a reload, and so does its override.
    assert!(panel.select_preset("prores-422").is_ok());
    assert!(panel.set_encoder_override(None, &[]).is_ok());
    panel.set_library(builtin());
    assert_eq!(panel.selected_preset().map(|entry| entry.id.clone()), Some("prores-422".to_owned()));
    // One that is gone falls back to the first.
    panel.set_library(vec![library_entry("dnxhr", "DNxHR", "MXF")]);
    assert_eq!(panel.selected_preset().map(|entry| entry.id.clone()), Some("dnxhr".to_owned()));
}

#[test]
fn dragging_the_points_changes_nothing_else() {
    let sequences = project(48);
    let mut panel = panel(&sequences);
    panel.add_problem(Problem::new(EXPORT_NOT_READY, "earlier".to_owned()));
    panel.set_in_out(-10, 30);
    assert_eq!(panel.in_out(), (0, 30));
    panel.set_in_out(40, 10);
    assert_eq!(panel.in_out(), (40, 40));
    assert_eq!(panel.output(), "/tmp/out.mp4");
    assert_eq!(panel.problems().len(), 1);
    assert!(matches!(panel.status(), sub_ui::export_panel::ExportStatus::Idle));
}
