use audio_bars::control::{App, InputEvent, RecordingState};
use audio_bars::rms::SampleBuffer;
use audio_bars::store::DEFAULT_BUCKET_COUNT;

#[test]
fn initial_state() {
    let app = App::default();
    assert_eq!(app.recording, RecordingState::Recording);
    assert!(!app.exit);
    assert!(!app.shutdown_sent);
    assert_eq!(app.last_terminal_width, 0);
    assert_eq!(app.bars.values, vec![0; DEFAULT_BUCKET_COUNT]);
}

#[test]
fn stop_while_recording_fires_once() {
    // stop while recording: state becomes Stopped, the signal fires once,
    // and later stop presses are no-ops
    let mut app = App::default();
    let mut sends: u32 = 0;

    if app.handle_key_event(' ') {
        sends += 1;
    }
    assert_eq!(app.recording, RecordingState::Stopped);
    assert_eq!(sends, 1);

    if app.handle_key_event(' ') {
        sends += 1;
    }
    assert_eq!(app.recording, RecordingState::Stopped);
    assert_eq!(sends, 1);
    assert!(!app.exit);
}

#[test]
fn stop_twice_then_quit_sends_one_signal() {
    let mut app = App::default();
    let mut sends: u32 = 0;

    for key in [' ', ' ', 'q'] {
        if app.handle_key_event(key) {
            sends += 1;
        }
    }
    assert!(app.exit);
    if app.finalize_shutdown() {
        sends += 1;
    }
    assert_eq!(sends, 1);
}

#[test]
fn quit_without_stop_sends_on_the_way_out() {
    let mut app = App::default();
    let mut sends: u32 = 0;

    if app.handle_key_event('q') {
        sends += 1;
    }
    assert!(app.exit);
    assert_eq!(app.recording, RecordingState::Recording);
    if app.finalize_shutdown() {
        sends += 1;
    }
    assert_eq!(sends, 1);
}

#[test]
fn unrelated_events_are_no_ops() {
    let mut app = App::default();
    assert!(!app.handle_event(InputEvent::Key('x')));
    assert!(!app.handle_event(InputEvent::Resize(80, 24)));
    assert!(!app.handle_event(InputEvent::Other));
    assert_eq!(app.recording, RecordingState::Recording);
    assert!(!app.exit);
    assert!(!app.shutdown_sent);

    assert!(app.handle_event(InputEvent::Key(' ')));
    assert_eq!(app.recording, RecordingState::Stopped);
}

#[test]
fn stop_recording_is_idempotent_on_the_signal() {
    let mut app = App::default();
    assert!(app.stop_recording());
    assert!(!app.stop_recording());
    assert_eq!(app.recording, RecordingState::Stopped);
}

#[test]
fn width_change_grows_store_preserving_prefix() {
    // width 40 gives max(10, (40-4)/2) = 18 buckets; width 80 gives 38;
    // growing preserves the first 18 values and zeroes the rest
    let mut app = App::default();
    assert!(app.observe_width(40));
    assert_eq!(app.last_terminal_width, 40);
    assert_eq!(app.bars.values.len(), 18);

    let buf = SampleBuffer::new(vec![500; 36]).unwrap();
    app.process_audio_samples(&buf);
    assert_eq!(app.bars.values, vec![5000; 18]);

    assert!(app.observe_width(80));
    assert_eq!(app.last_terminal_width, 80);
    assert_eq!(app.bars.values.len(), 38);
    assert_eq!(&app.bars.values[..18], &[5000; 18][..]);
    assert_eq!(&app.bars.values[18..], &[0; 20][..]);

    assert!(!app.observe_width(80));
    assert_eq!(app.bars.values.len(), 38);
}

#[test]
fn bar_count_floor_on_narrow_widths() {
    let mut app = App::default();
    app.update_bar_count(0);
    assert_eq!(app.bars.values.len(), 10);
    app.update_bar_count(3);
    assert_eq!(app.bars.values.len(), 10);
    app.update_bar_count(23);
    assert_eq!(app.bars.values.len(), 10);
    app.update_bar_count(44);
    assert_eq!(app.bars.values.len(), 20);
}

#[test]
fn aggregation_leaves_control_state_alone() {
    let mut app = App::default();
    let buf = SampleBuffer::new(vec![100; 100]).unwrap();
    app.process_audio_samples(&buf);
    assert_eq!(app.recording, RecordingState::Recording);
    assert!(!app.exit);
    assert!(!app.shutdown_sent);
    assert_eq!(app.bars.values, vec![1000; DEFAULT_BUCKET_COUNT]);
}
