use sub_ui::export_panel::{
    ExportEvent, ExportPanel, ExportRange, ExportReport, ExportRequest, ExportStatus, PresetEntry,
    PresetSource,
};
use sub_ui::export_runner::{check_preset_source, frames_total, is_terminal, ExportRunner};
use sub_ui::media_bin::Rational;
use sub_ui::problem::{EXPORT_BUSY, EXPORT_PRESET_UNSUPPORTED};

const FPS_24: Rational = Rational { numerator: 24, denominator: 1 };
const FPS_25: Rational = Rational { numerator: 25, denominator: 1 };
const FPS_30: Rational = Rational { numerator: 30, denominator: 1 };

fn request(source: PresetSource) -> ExportRequest {
    ExportRequest {
        preset: PresetEntry {
            id: "youtube-1080p".to_owned(),
            name: "YouTube 1080p".to_owned(),
            summary: "MP4".to_owned(),
            codec: Some("h264".to_owned()),
            source,
        },
        sequence: 1,
        range: ExportRange::WholeSequence,
        start: 0,
        end: 48,
        output: "out.mp4".to_owned(),
        encoder_override: None,
    }
}

#[test]
fn a_plugin_preset_is_refused_rather_than_silently_substituted() {
    assert!(check_preset_source(&request(PresetSource::Library)).is_ok());
    let error = check_preset_source(&request(PresetSource::Plugin { plugin: "com.example.exporter".to_owned() }))
        .err()
        .expect("a plugin preset is unsupported");
    assert_eq!(error.code, EXPORT_PRESET_UNSUPPORTED);
    assert_eq!(
        error.details,
        vec![
            ("preset".to_owned(), "youtube-1080p".to_owned()),
            ("plugin".to_owned(), "com.example.exporter".to_owned()),
        ]
    );
    assert_eq!(
        error.message,
        "preset 'youtube-1080p' comes from plugin com.example.exporter, which cannot render an export yet"
    );
}

#[test]
fn frame_count_is_the_span_itself_at_the_settings_own_rate() {
    assert_eq!(frames_total(48, FPS_24, FPS_24), 48);
}

#[test]
fn frame_count_rescales_to_the_settings_rate_and_rounds_up() {
    // One frame at 25 is a twenty-fifth of a second: 1.2 frames at 30, and
    // an export covers it rather than clipping it.
    assert_eq!(frames_total(1, FPS_25, FPS_30), 2);
    // Five of them are exactly six frames at 30, with no rounding at all.
    assert_eq!(frames_total(5, FPS_25, FPS_30), 6);
    let ntsc = Rational { numerator: 30_000, denominator: 1_001 };
    assert_eq!(frames_total(30, FPS_30, ntsc), 30);
}

#[test]
fn a_negative_frame_count_never_reaches_the_job() {
    assert_eq!(frames_total(0, FPS_24, FPS_24), 0);
    assert_eq!(frames_total(-3, FPS_24, FPS_24), 0);
    assert_eq!(frames_total(-3, FPS_25, FPS_30), 0);
}

#[test]
fn an_idle_runner_polls_and_cancels_without_a_job() {
    let mut runner: ExportRunner<u32> = ExportRunner::new();
    let mut panel = ExportPanel::new();
    assert!(!runner.is_running());
    assert!(runner.handle().is_none());
    let events = vec![ExportEvent::Cancelled { frames_done: 1 }];
    assert_eq!(runner.poll(events, false, &mut panel), 0);
    assert!(matches!(panel.status(), ExportStatus::Idle), "an idle runner touches nothing");
}

#[test]
fn a_second_export_is_refused_while_one_runs() {
    let mut runner: ExportRunner<u32> = ExportRunner::new();
    assert!(runner.check_free().is_ok());
    runner.started(7);
    assert_eq!(runner.handle(), Some(&7));
    let error = runner.check_free().err().expect("a second export is refused");
    assert_eq!(error.code, EXPORT_BUSY);
}

#[test]
fn a_refused_start_leaves_the_runner_free() {
    let runner: ExportRunner<u32> = ExportRunner::new();
    assert!(check_preset_source(&request(PresetSource::Plugin { plugin: "p".to_owned() })).is_err());
    assert!(!runner.is_running());
    assert!(runner.check_free().is_ok());
}

#[test]
fn the_runner_is_free_the_moment_the_panel_knows_how_the_export_ended() {
    let mut runner: ExportRunner<u32> = ExportRunner::new();
    let mut panel = ExportPanel::new();
    runner.started(1);
    let applied = runner.poll(vec![ExportEvent::Started { path: "out.mp4".to_owned(), frames_total: 48 }], false, &mut panel);
    assert_eq!(applied, 1);
    assert!(runner.is_running());
    assert!(panel.status().is_running());
    let report = ExportReport { path: "out.mp4".to_owned(), video_frames: 48, duration: sub_ui::media_bin::MediaTime { value: 48 as i64, rate: sub_ui::media_bin::Rational { numerator: 24, denominator: 1 } }, video_encoder: "x264enc".to_owned() };
    assert_eq!(runner.poll(vec![ExportEvent::Finished(report)], false, &mut panel), 1);
    assert!(!runner.is_running());
    assert!(matches!(panel.status(), ExportStatus::Finished(_)));

    // A job that ended without a last event frees the runner too.
    runner.started(2);
    assert_eq!(runner.poll(Vec::new(), true, &mut panel), 0);
    assert!(!runner.is_running());
}

#[test]
fn only_the_last_events_end_an_export() {
    assert!(!is_terminal(&ExportEvent::Started { path: String::new(), frames_total: 0 }));
    assert!(is_terminal(&ExportEvent::Cancelled { frames_done: 0 }));
}

#[test]
fn a_finished_export_tops_the_recent_list_and_keeps_the_problems() {
    let mut runner: ExportRunner<u32> = ExportRunner::new();
    let mut panel = ExportPanel::new();
    panel.add_problem(sub_ui::problem::Problem::new("ui.export_not_ready", "earlier".to_owned()));
    runner.started(1);
    let first = ExportReport { path: "a.mp4".to_owned(), video_frames: 10, duration: sub_ui::media_bin::MediaTime { value: 10 as i64, rate: sub_ui::media_bin::Rational { numerator: 24, denominator: 1 } }, video_encoder: "x264enc".to_owned() };
    runner.poll(vec![ExportEvent::Finished(first)], false, &mut panel);
    runner.started(2);
    let second = ExportReport { path: "b.mp4".to_owned(), video_frames: 20, duration: sub_ui::media_bin::MediaTime { value: 20 as i64, rate: sub_ui::media_bin::Rational { numerator: 24, denominator: 1 } }, video_encoder: "x264enc".to_owned() };
    runner.poll(
        vec![ExportEvent::Started { path: "b.mp4".to_owned(), frames_total: 20 }, ExportEvent::Finished(second)],
        false,
        &mut panel,
    );
    let paths: Vec<&str> = panel.recent().iter().map(|e| e.path.as_str()).collect();
    assert_eq!(paths, ["b.mp4", "a.mp4"]);
    assert_eq!(panel.recent()[0].frames, 20);
    assert_eq!(panel.problems().len(), 1);
    assert_eq!(panel.problems()[0].message, "earlier");
    runner.started(3);
    runner.poll(vec![ExportEvent::Cancelled { frames_done: 3 }], false, &mut panel);
    assert_eq!(panel.recent().len(), 2, "a cancelled export adds nothing");
}
