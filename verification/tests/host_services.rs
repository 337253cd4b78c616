use sub_ui::export_panel::{ExportReport, ExportStatus as PanelStatus, Progress};
use sub_ui::host_services::{wire_status, ExportDesk, WireStatus};
use sub_ui::problem::{Problem, EXPORT_BUSY};

fn problem(code: &str, message: &str) -> Problem {
    Problem { code: code.to_owned(), message: message.to_owned(), details: Vec::new() }
}

#[test]
fn a_queued_export_answers_at_once_and_makes_the_window_busy() {
    let mut host: ExportDesk<&str> = ExportDesk::new();
    assert!(!host.is_busy(), "nothing is running to begin with");
    let status = host.queue_export("/tmp/out.mkv", "job one").unwrap_or_else(|_| panic!("queued"));
    assert_eq!(status.state, "running");
    assert_eq!(status.job, "export-1");
    assert_eq!(status.output, "/tmp/out.mkv");
    assert_eq!(status.frames_done, 0);
    assert!(host.is_busy(), "the window has an export to start");
    assert_eq!(host.status("export-1").expect("the job is known").state, "running");

    let queued = host.take_queued();
    assert_eq!(queued, vec![("export-1".to_owned(), "job one")]);
    assert!(host.take_queued().is_empty(), "taken once, not twice");
    assert!(host.is_busy(), "still reserved until it ends");
}

#[test]
fn concurrent_clients_reserve_only_one_export() {
    let mut host: ExportDesk<u8> = ExportDesk::new();
    let results: Vec<_> = (0..8).map(|n| host.queue_export("/tmp/out.mkv", n)).collect();
    assert_eq!(results.iter().filter(|result| result.is_ok()).count(), 1);
    for error in results.into_iter().filter_map(Result::err) {
        assert_eq!(error.code, EXPORT_BUSY);
        assert_eq!(error.message, "this editor is already exporting");
    }
    assert_eq!(host.queued_len(), 1);
}

#[test]
fn an_unknown_job_is_a_stable_not_found() {
    let mut host: ExportDesk<u8> = ExportDesk::new();
    assert!(host.queue_export("/tmp/out.mkv", 0).is_ok());
    assert!(host.status("export-9").is_none());
    assert_eq!(host.running_job(), Some("export-1".to_owned()));
}

#[test]
fn the_panels_progress_is_what_export_progress_reports() {
    let mut host: ExportDesk<u8> = ExportDesk::new();
    assert!(host.queue_export("/tmp/out.mkv", 0).is_ok());
    host.take_queued();
    host.publish(&PanelStatus::Idle);
    let waiting = host.status("export-1").expect("the job");
    assert_eq!(waiting.frames_total, 0, "the window has not started it yet");

    host.publish(&PanelStatus::Running { path: "/tmp/out.mkv".to_owned(), frames_total: 12, progress: None });
    let started = host.status("export-1").expect("the job");
    assert_eq!(started.state, "running");
    assert_eq!(started.frames_total, 12);
    assert_eq!(started.frames_done, 0);
    assert!(host.is_busy(), "it is still running");

    host.publish(&PanelStatus::Running {
        path: "/tmp/out.mkv".to_owned(),
        frames_total: 12,
        progress: Some(Progress { frames_done: 5, frames_total: 12, percent_milli: None, frames_per_second_milli: 0, eta_secs: None }),
    });
    assert_eq!(host.status("export-1").expect("the job").frames_done, 5);

    host.publish(&PanelStatus::Finished(ExportReport {
        path: "/tmp/out.mkv".to_owned(),
        video_frames: 12,
        duration: sub_ui::media_bin::MediaTime { value: 12, rate: sub_ui::media_bin::Rational { numerator: 24, denominator: 1 } },
        video_encoder: "x264enc".to_owned(),
    }));
    let done = host.status("export-1").expect("the job");
    assert_eq!(done.state, "completed");
    assert_eq!(done.frames_done, 12);
    assert!(!host.is_busy(), "the window is free for the next one");

    let next = host.queue_export("/tmp/two.mkv", 1).unwrap_or_else(|_| panic!("free again"));
    assert_eq!(next.job, "export-2");
}

#[test]
fn a_failed_export_carries_the_error_the_panel_shows() {
    let mut host: ExportDesk<u8> = ExportDesk::new();
    assert!(host.queue_export("/tmp/out.mkv", 0).is_ok());
    host.take_queued();
    let error = problem("core.internal", "the encoder stopped");
    host.publish(&PanelStatus::Failed { error: problem("core.internal", "the encoder stopped"), frames_done: 3 });
    let status = host.status("export-1").expect("the job");
    assert_eq!(status.state, "failed");
    assert_eq!(status.frames_done, 3);
    assert_eq!(status.output, "/tmp/out.mkv");
    let carried = status.error.as_ref().expect("the error");
    assert_eq!(carried.code, error.code);
    assert_eq!(carried.message, error.message);
    assert!(!host.is_busy());
}

#[test]
fn a_refused_start_is_reported_on_the_job_it_was_given() {
    let mut host: ExportDesk<u8> = ExportDesk::new();
    assert!(host.queue_export("/tmp/out.mkv", 0).is_ok());
    host.take_queued();
    let error = problem("ui.export_not_ready", "choose an export preset");
    host.refuse("export-1", &error);
    let status = host.status("export-1").expect("the job");
    assert_eq!(status.state, "failed");
    assert_eq!(status.output, "/tmp/out.mkv");
    assert_eq!(status.error.as_ref().map(|e| e.message.as_str()), Some("choose an export preset"));
    assert!(!host.is_busy(), "a refusal frees the window too");
}

#[test]
fn a_cancelled_export_keeps_the_output_it_was_asked_for() {
    let previous = WireStatus {
        job: "export-1".to_owned(),
        state: "running".to_owned(),
        output: "/tmp/out.mkv".to_owned(),
        frames_done: 0,
        frames_total: 12,
        error: None,
    };
    let status = wire_status("export-1", &PanelStatus::Cancelled { frames_done: 4 }, Some(&previous)).expect("a cancel is news");
    assert_eq!(status.state, "cancelled");
    assert_eq!(status.frames_done, 4);
    assert_eq!(status.frames_total, 12);
    assert_eq!(status.output, "/tmp/out.mkv");
    assert!(wire_status("export-1", &PanelStatus::Idle, Some(&previous)).is_none(), "an idle panel has nothing to say");
}
