use sub_ui::media_bin::{MediaTime, Rational};
use sub_ui::media_import::{followups, stream_info, unknown_frame_rate, AudioStream, ImportBook, ProbedMedia, ProbedVideo};

const FPS_24: Rational = Rational { numerator: 24, denominator: 1 };
const FPS_23_976: Rational = Rational { numerator: 24_000, denominator: 1_001 };

/// A probe result for a one-second 1080p file with stereo sound.
fn probed(frame_rate: Option<Rational>) -> ProbedMedia {
    ProbedMedia {
        duration: Some(MediaTime { value: 24, rate: FPS_24 }),
        video: vec![ProbedVideo { width: 1920, height: 1080, frame_rate }],
        audio: vec![AudioStream { channels: 2, sample_rate: 48_000 }],
    }
}

#[test]
fn the_probe_result_becomes_what_the_project_file_keeps() {
    let info = stream_info(&probed(Some(FPS_23_976)));
    assert_eq!(info.duration, Some(MediaTime { value: 24, rate: FPS_24 }));
    assert_eq!(info.video.len(), 1);
    assert_eq!(info.video[0].frame_rate, FPS_23_976);
    assert_eq!(info.video[0].width, 1920);
    assert_eq!(info.audio[0].channels, 2);
    assert_eq!(info.audio[0].sample_rate, 48_000);
}

#[test]
fn a_stream_with_no_declared_rate_gets_the_stand_in_rate() {
    let info = stream_info(&probed(None));
    assert_eq!(info.video[0].frame_rate, unknown_frame_rate());
    assert_eq!(unknown_frame_rate(), Rational { numerator: 1, denominator: 1 });
}

#[test]
fn a_gesture_comes_back_whole_and_in_the_order_the_files_were_chosen() {
    let mut book: ImportBook<&str> = ImportBook::new();
    let first = book.submit(2, Some(4));
    let second = book.submit(1, None);
    assert_eq!(first.index(), 0);
    assert_eq!(second.index(), 1);

    // The second file of the first gesture finishes first.
    book.record(first, 1, "b.mov");
    assert!(book.collect(&[first, second]).is_empty(), "nothing is whole while its jobs run");
    book.record(second, 0, "c.mov");
    let finished = book.collect(&[first]);
    assert_eq!(finished.len(), 1, "one gesture, one batch");
    assert_eq!(finished[0].batch, second);
    assert_eq!(finished[0].outcomes, vec!["c.mov"]);
    assert_eq!(finished[0].bin, None);

    book.record(first, 0, "a.mov");
    let finished = book.collect(&[]);
    assert_eq!(finished.len(), 1);
    assert_eq!(finished[0].batch, first);
    assert_eq!(finished[0].bin, Some(4));
    assert_eq!(finished[0].outcomes, vec!["a.mov", "b.mov"], "in the order asked, not the order finished");
    assert!(book.collect(&[]).is_empty(), "a gesture comes back once");
}

#[test]
fn a_file_outside_the_project_folder_fails_the_import_and_adds_nothing() {
    let mut book: ImportBook<Result<&str, &str>> = ImportBook::new();
    let batch = book.submit(1, None);
    book.record(batch, 0, Err("model.invalid_path"));
    let finished = book.collect(&[]);
    assert_eq!(finished.len(), 1, "one gesture, one batch");
    assert_eq!(finished[0].outcomes, vec![Err("model.invalid_path")]);
}

#[test]
fn an_outcome_for_a_slot_the_gesture_never_had_is_ignored() {
    let mut book: ImportBook<u8> = ImportBook::new();
    let batch = book.submit(1, None);
    book.record(batch, 5, 1);
    book.record(sub_ui::media_import::ImportBatch(99), 0, 2);
    book.record(batch, 0, 3);
    let finished = book.collect(&[]);
    assert_eq!(finished[0].outcomes, vec![3]);
}

#[test]
fn only_a_stream_with_a_length_is_summarised() {
    let full = stream_info(&probed(Some(FPS_24)));
    assert_eq!(followups(Some(&full)), (true, true), "a picture gets a strip and sound a waveform");
    let mut silent = probed(Some(FPS_24));
    silent.audio.clear();
    assert_eq!(followups(Some(&stream_info(&silent))), (true, false));
    let mut sound_only = probed(Some(FPS_24));
    sound_only.video.clear();
    assert_eq!(followups(Some(&stream_info(&sound_only))), (false, true));
    let mut empty = probed(Some(FPS_24));
    empty.duration = Some(MediaTime { value: 0, rate: FPS_24 });
    assert_eq!(followups(Some(&stream_info(&empty))), (false, false), "a zero length is no length");
    let mut unknown = probed(Some(FPS_24));
    unknown.duration = None;
    assert_eq!(followups(Some(&stream_info(&unknown))), (false, false));
    assert_eq!(followups(None), (false, false));
}
