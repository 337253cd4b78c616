use sub_ui::playback_audio::{
    audio_slots, cache_full, clip_is_near, pick_window, source_position, window_covers, window_starts, Admission,
    AudioSlot, ClipSource, Decoded, PlannedSlot, PlaybackAudio, SlotError, SlotLive, TrackSource, Window,
    MAX_CACHE_SAMPLES,
};
use sub_ui::media_bin::{MediaTime, Rational};

const RATE: u64 = 48_000;

#[test]
fn a_tail_seek_asks_for_the_window_around_the_playhead() {
    // A playhead near the end of a ninety-minute source asks for the window
    // around it, never for the source's origin.
    let source = source_position(0, 5_398 * RATE, 0);
    assert_eq!(source, 5_398 * RATE);
    let (first, next) = window_starts(source, RATE);
    assert!(first >= 5_397 * RATE, "tail seek must never decode from the source origin");
    assert_eq!(first, 5_398 * RATE - RATE / 10);
    assert_eq!(next, None, "the next grid line is more than a second away");
    // Within a second of the next grid line, that window is wanted too.
    let (_, next) = window_starts(5_399 * RATE + RATE / 2, RATE);
    assert_eq!(next, Some(5_400 * RATE - RATE / 10));
    // The budget refuses a window that would overflow the cache.
    assert!(!cache_full(0, 0, RATE));
    assert!(cache_full(MAX_CACHE_SAMPLES, 0, RATE));
    let window = (2 * 4 * RATE) as usize;
    assert!(!cache_full(MAX_CACHE_SAMPLES - 2 * window, 1, RATE));
    assert!(cache_full(MAX_CACHE_SAMPLES - 2 * window + 1, 1, RATE));
}

#[test]
fn a_clip_is_near_from_one_step_before_it_until_it_ends() {
    assert!(clip_is_near(0, RATE, 2 * RATE, RATE), "two seconds ahead is within a step");
    assert!(!clip_is_near(0, RATE, 2 * RATE + 1, RATE));
    assert!(clip_is_near(2 * RATE, RATE, 2 * RATE, RATE));
    assert!(!clip_is_near(3 * RATE, RATE, 2 * RATE, RATE), "a clip that has ended is not near");
}

#[test]
fn the_source_position_saturates_rather_than_wrapping() {
    assert_eq!(source_position(100, 50, 10), 140);
    assert_eq!(source_position(100, 5, 10), 100, "before the clip, its first sample");
    assert_eq!(source_position(-1, 5, 0), u64::MAX);
}

#[test]
fn the_latest_window_holding_the_sample_plays_it() {
    let starts = [0, 2 * RATE - RATE / 10, 4 * RATE - RATE / 10];
    assert!(window_covers(0, 0, RATE));
    assert!(!window_covers(2 * RATE - RATE / 10, 2 * RATE - RATE / 10, RATE), "the early tenth is not played from");
    assert_eq!(pick_window(&starts, RATE, RATE), Some(0));
    assert_eq!(pick_window(&starts, 3 * RATE, RATE), Some(2 * RATE - RATE / 10));
    assert_eq!(pick_window(&starts, 100 * RATE, RATE), None);
}

#[test]
fn the_first_window_asked_for_holds_the_playhead() {
    for source in [0, 1, RATE / 10, RATE, 2 * RATE - 1, 2 * RATE, 3 * RATE + 7, 5_398 * RATE] {
        let (first, _) = window_starts(source, RATE);
        assert!(window_covers(first, source, RATE), "{source}");
    }
}

const WINDOW: usize = (2 * 4 * RATE) as usize;

/// Offers every needed window, as the frame loop does, and returns the
/// decodes the worker would post for those it took.
fn offer_all(audio: &mut PlaybackAudio<()>, needed: &[Window], requested: &mut Vec<u64>) -> Vec<Decoded<()>> {
    let mut done = Vec::new();
    for &window in needed {
        if let Admission::Decode(epoch) = audio.offer(window, RATE) {
            requested.push(window.start);
            audio.sent(window);
            done.push(Decoded { window, epoch, samples: Ok((WINDOW, ())) });
        }
    }
    done
}

#[test]
fn ninety_minute_sources_seek_directly_to_bounded_tail_windows() {
    let mut audio: PlaybackAudio<()> = PlaybackAudio::new();
    let slots: Vec<AudioSlot> = (0..64).map(|index| AudioSlot { source: index, source_start: 0 }).collect();
    let live: Vec<SlotLive> = (0..64).map(|_| SlotLive { audible: true, span: Some((0, 90 * 60 * RATE)) }).collect();
    audio.configure(slots);
    let mut requested = Vec::new();
    assert!(requested.is_empty(), "configuring must not eagerly decode");
    assert!(!audio.loading());
    let tail = 5_398 * RATE;
    let mut completed = Vec::new();
    for _ in 0..10 {
        let (needed, _) = audio.update(tail, RATE, &live, completed);
        completed = offer_all(&mut audio, &needed, &mut requested);
        let held = audio.held_samples() as usize;
        assert!(held + audio.pending_count() * WINDOW <= MAX_CACHE_SAMPLES);
        if !audio.loading() {
            break;
        }
    }
    assert!(!audio.loading());
    assert!(!requested.is_empty());
    assert!(requested.len() < 64, "aggregate PCM budget must limit concurrent clips");
    assert!(
        requested.iter().all(|start| *start >= 5_397 * RATE),
        "tail seek must never decode from the source origin"
    );
    assert!(audio.error().is_some(), "exhausted cache budget is visible");
    assert_eq!(audio.error(), Some("preview audio cache limit reached"));
}

#[test]
fn configuration_failure_clears_previous_audio_and_surfaces_the_error() {
    let mut audio: PlaybackAudio<()> = PlaybackAudio::new();
    audio.configure(vec![AudioSlot { source: 1, source_start: 0 }]);
    let live = [SlotLive { audible: true, span: Some((0, RATE)) }];
    let (needed, _) = audio.update(0, RATE, &live, Vec::new());
    assert_eq!(needed, vec![Window { source: 1, start: 0 }]);
    audio.clear_with_error("[not_found] audio clip references missing media".to_string());
    audio.update(0, RATE, &[], Vec::new());
    assert!(!audio.ready(&[]));
    assert!(audio.error().is_some());
    assert_eq!(audio.error(), Some("[not_found] audio clip references missing media"));
    assert!(audio.installs().is_empty());
    assert_eq!(audio.held_samples(), 0);
}

#[test]
fn a_decoded_window_plays_and_makes_the_slot_ready() {
    let mut audio: PlaybackAudio<Vec<u8>> = PlaybackAudio::new();
    audio.configure(vec![AudioSlot { source: 7, source_start: RATE }]);
    let live = [SlotLive { audible: true, span: Some((0, 10 * RATE)) }];
    let (needed, changed) = audio.update(0, RATE, &live, Vec::new());
    // The clip begins a second into its source: the window on the grid line
    // before it, started a tenth of a second early, and the next one, since
    // the source is within a second of it.
    assert_eq!(needed, vec![Window { source: 7, start: 0 }, Window { source: 7, start: 2 * RATE - RATE / 10 }]);
    assert!(!changed);
    assert!(!audio.ready(&live), "nothing is decoded yet");
    let epoch = match audio.offer(needed[0], RATE) {
        Admission::Decode(epoch) => epoch,
        other => panic!("{other:?}"),
    };
    audio.sent(needed[0]);
    assert_eq!(audio.offer(needed[0], RATE), Admission::Skip, "a window being decoded is not asked for twice");
    assert!(audio.loading());
    let done = vec![Decoded { window: needed[0], epoch, samples: Ok((WINDOW, vec![1, 2, 3])) }];
    let (_, changed) = audio.update(0, RATE, &live, done);
    assert!(changed, "the slot now plays the decoded window");
    assert!(!audio.loading());
    assert!(audio.ready(&live));
    assert_eq!(audio.installs(), vec![Some(needed[0])]);
    assert_eq!(audio.samples(needed[0]), Some(&vec![1, 2, 3]));
    assert_eq!(audio.held_samples(), WINDOW as u128);
    assert_eq!(audio.offer(needed[0], RATE), Admission::Skip, "a held window is not decoded again");
}

#[test]
fn a_seek_abandons_what_was_being_decoded() {
    let mut audio: PlaybackAudio<()> = PlaybackAudio::new();
    audio.configure(vec![AudioSlot { source: 3, source_start: 0 }]);
    let live = [SlotLive { audible: true, span: Some((0, 600 * RATE)) }];
    let (needed, _) = audio.update(0, RATE, &live, Vec::new());
    let epoch = match audio.offer(needed[0], RATE) {
        Admission::Decode(epoch) => epoch,
        other => panic!("{other:?}"),
    };
    audio.sent(needed[0]);
    // A small step keeps the decode; a seek of more than half a second does not.
    audio.update(RATE / 4, RATE, &live, Vec::new());
    assert!(audio.loading());
    let late = vec![Decoded { window: needed[0], epoch, samples: Ok((WINDOW, ())) }];
    let (needed, changed) = audio.update(300 * RATE, RATE, &live, late);
    assert!(!audio.loading(), "the seek abandoned the decode in flight");
    assert!(!changed);
    assert_eq!(audio.held_samples(), 0, "a late load from before the seek is dropped");
    assert_eq!(needed, vec![Window { source: 3, start: 300 * RATE - RATE / 10 }]);
    match audio.offer(needed[0], RATE) {
        Admission::Decode(after) => assert_ne!(after, epoch),
        other => panic!("{other:?}"),
    }
}

#[test]
fn a_muted_track_plays_nothing_and_a_failed_decode_is_shown() {
    let mut audio: PlaybackAudio<()> = PlaybackAudio::new();
    audio.configure(vec![AudioSlot { source: 1, source_start: 0 }, AudioSlot { source: 2, source_start: 0 }]);
    let live = [
        SlotLive { audible: false, span: Some((0, RATE)) },
        SlotLive { audible: true, span: Some((0, RATE)) },
    ];
    let (needed, _) = audio.update(0, RATE, &live, Vec::new());
    assert_eq!(needed, vec![Window { source: 2, start: 0 }], "a track that is not heard asks for nothing");
    let epoch = match audio.offer(needed[0], RATE) {
        Admission::Decode(epoch) => epoch,
        other => panic!("{other:?}"),
    };
    audio.sent(needed[0]);
    let failed = vec![Decoded { window: needed[0], epoch, samples: Err("[io] unreadable".to_string()) }];
    audio.update(0, RATE, &live, failed);
    assert_eq!(audio.error(), Some("[io] unreadable"));
    assert!(!audio.ready(&live), "the heard clip under the playhead has nothing to play");
    assert_eq!(audio.offer(needed[0], RATE), Admission::Skip, "a failed window is not retried while wanted");
    assert_eq!(audio.installs(), vec![None, None]);
    // Once the playhead leaves the clip the failure is forgotten.
    audio.update(5 * RATE, RATE, &live, Vec::new());
    assert_eq!(audio.error(), None);
    assert!(audio.ready(&live));
}

fn at(value: i64, numerator: u32, denominator: u32) -> MediaTime {
    MediaTime { value, rate: Rational { numerator, denominator } }
}

#[test]
fn every_clip_of_an_audio_track_becomes_a_slot_lane_by_lane() {
    let tracks = vec![
        TrackSource { audio: false, clips: vec![ClipSource { media: 9, stream: 0, source_start: at(0, 1, 1) }] },
        TrackSource {
            audio: true,
            clips: vec![
                ClipSource { media: 20, stream: 0, source_start: at(1, 1, 1) },
                ClipSource { media: 10, stream: 1, source_start: at(30, 30_000, 1_001) },
            ],
        },
        TrackSource { audio: true, clips: vec![ClipSource { media: 10, stream: 0, source_start: at(3, 2, 1) }] },
    ];
    let slots = audio_slots(&tracks, &[10, 20, 9], 48_000).expect("every clip resolves");
    assert_eq!(
        slots,
        vec![
            PlannedSlot { track: 0, media: 1, stream: 0, source_start: 48_000 },
            PlannedSlot { track: 0, media: 0, stream: 1, source_start: 48_048 },
            PlannedSlot { track: 1, media: 0, stream: 0, source_start: 72_000 },
        ]
    );
}

#[test]
fn a_sequence_that_cannot_be_set_up_says_why() {
    let missing = vec![TrackSource { audio: true, clips: vec![ClipSource { media: 5, stream: 0, source_start: at(0, 1, 1) }] }];
    assert_eq!(audio_slots(&missing, &[], 48_000), Err(SlotError::MissingMedia));
    assert_eq!(audio_slots(&missing, &[5], 0), Err(SlotError::InvalidRate));
    let early = vec![TrackSource { audio: true, clips: vec![ClipSource { media: 5, stream: 0, source_start: at(-1, 1, 1) }] }];
    assert_eq!(audio_slots(&early, &[5], 48_000), Err(SlotError::StartNotRepresentable));
    let far = vec![TrackSource { audio: true, clips: vec![ClipSource { media: 5, stream: 0, source_start: at(i64::MAX, 1, 1) }] }];
    assert_eq!(audio_slots(&far, &[5], 48_000), Err(SlotError::StartNotRepresentable));
    // A video track's clips are not looked at, so missing media there is no error.
    let video = vec![TrackSource { audio: false, clips: vec![ClipSource { media: 5, stream: 0, source_start: at(-1, 1, 1) }] }];
    assert_eq!(audio_slots(&video, &[], 48_000), Ok(Vec::new()));
}
