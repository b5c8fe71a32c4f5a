//! The control-loop state machine: dispatching stop/quit input, tracking
//! the recording state, resizing on width changes, and coordinating the
//! one-shot shutdown signal for the capture thread. The surrounding
//! process runs the actual loop and performs the sends this module decides.

use vstd::prelude::*;

verus! {

use crate::rms::{SampleBuffer, aggregated};
use crate::store::{BucketStore, DEFAULT_BUCKET_COUNT, MIN_BUCKET_COUNT};

/// Whether the capture thread is still expected to be recording. The state
/// moves from `Recording` to `Stopped` once and never back.
#[derive(Clone, Copy, Debug, PartialEq, Eq, Structural)]
pub enum RecordingState {
    Recording,
    Stopped,
}

/// A discrete input event, as the input backend reports it: a key press,
/// a terminal resize, or anything else.
#[derive(Clone, Copy, Debug, PartialEq, Eq, Structural)]
pub enum InputEvent {
    Key(char),
    Resize(u16, u16),
    Other,
}

/// The key that requests the capture to stop.
pub const STOP_KEY: char = ' ';

/// The key that requests the whole run to end.
pub const QUIT_KEY: char = 'q';

/// A key press stops the capture exactly when it is the stop key and the
/// capture is still recording.
pub open spec fn key_stops(r: RecordingState, key: char) -> bool {
    key == STOP_KEY && r is Recording
}

/// Recording state after dispatching one key press.
pub open spec fn step_recording(r: RecordingState, key: char) -> RecordingState {
    if key_stops(r, key) {
        RecordingState::Stopped
    } else {
        r
    }
}

/// Shutdown-sent flag after dispatching one key press.
pub open spec fn step_sent(r: RecordingState, sent: bool, key: char) -> bool {
    if key_stops(r, key) {
        true
    } else {
        sent
    }
}

/// Whether dispatching this key press sends the shutdown signal now.
pub open spec fn step_send_now(r: RecordingState, sent: bool, key: char) -> bool {
    key_stops(r, key) && !sent
}

/// Recording state after dispatching a whole sequence of key presses.
pub open spec fn recording_after(r: RecordingState, keys: Seq<char>) -> RecordingState
    decreases keys.len(),
{
    if keys.len() == 0 {
        r
    } else {
        recording_after(step_recording(r, keys[0]), keys.drop_first())
    }
}

/// Shutdown-sent flag after dispatching a whole sequence of key presses.
pub open spec fn sent_after(r: RecordingState, sent: bool, keys: Seq<char>) -> bool
    decreases keys.len(),
{
    if keys.len() == 0 {
        sent
    } else {
        sent_after(step_recording(r, keys[0]), step_sent(r, sent, keys[0]), keys.drop_first())
    }
}

/// How many shutdown signals dispatching a sequence of key presses sends.
pub open spec fn sends_during(r: RecordingState, sent: bool, keys: Seq<char>) -> nat
    decreases keys.len(),
{
    if keys.len() == 0 {
        0
    } else {
        (if step_send_now(r, sent, keys[0]) {
            1nat
        } else {
            0nat
        }) + sends_during(
            step_recording(r, keys[0]),
            step_sent(r, sent, keys[0]),
            keys.drop_first(),
        )
    }
}

proof fn lemma_sends_balance(r: RecordingState, sent: bool, keys: Seq<char>)
    requires
        r is Recording ==> !sent,
    ensures
        sends_during(r, sent, keys) + (if sent_after(r, sent, keys) {
            0nat
        } else {
            1nat
        }) == (if sent {
            0nat
        } else {
            1nat
        }),
    decreases keys.len(),
{
    if keys.len() > 0 {
        let k = keys[0];
        lemma_sends_balance(step_recording(r, k), step_sent(r, sent, k), keys.drop_first());
    }
}

/// The shutdown signal is sent exactly once per run, whatever the user
/// presses: starting from the initial state, the sends made while
/// dispatching any sequence of key presses, plus the final send the quit
/// path makes when none was made yet, always add up to one.
pub proof fn lemma_shutdown_sent_exactly_once(keys: Seq<char>)
    ensures
        sends_during(RecordingState::Recording, false, keys) + (if sent_after(
            RecordingState::Recording,
            false,
            keys,
        ) {
            0nat
        } else {
            1nat
        }) == 1,
{
    lemma_sends_balance(RecordingState::Recording, false, keys);
}

/// Bucket count chosen for a render width: two character cells per bar
/// after reserving a margin for the borders, but never fewer than
/// `MIN_BUCKET_COUNT` buckets.
pub open spec fn bucket_count_for_width(w: u16) -> int {
    let usable = if w as int >= 4 {
        w as int - 4
    } else {
        0
    };
    let c = usable / 2;
    if c < MIN_BUCKET_COUNT as int {
        MIN_BUCKET_COUNT as int
    } else {
        c
    }
}

/// The control thread's whole state: the bucket store the render step
/// reads, the recording/exit flags, whether the one-shot shutdown signal
/// has been sent, and the last render width seen.
pub struct App {
    pub bars: BucketStore,
    pub exit: bool,
    pub recording: RecordingState,
    pub shutdown_sent: bool,
    pub last_terminal_width: u16,
}

impl App {
    /// The bucket store is well formed.
    pub open spec fn wf(&self) -> bool {
        self.bars.wf()
    }

    /// State and width are untouched; only the bucket store may differ.
    pub open spec fn same_control_state(&self, other: &App) -> bool {
        &&& self.exit == other.exit
        &&& self.recording == other.recording
        &&& self.shutdown_sent == other.shutdown_sent
        &&& self.last_terminal_width == other.last_terminal_width
    }

    /// Marks the run as over; the control loop exits on its next check.
    pub fn exit(&mut self)
        ensures
            final(self).exit,
            final(self).bars == old(self).bars,
            final(self).recording == old(self).recording,
            final(self).shutdown_sent == old(self).shutdown_sent,
            final(self).last_terminal_width == old(self).last_terminal_width,
    {
        self.exit = true;
    }

    /// Moves to `Stopped` and decides the shutdown send: the signal is to
    /// be sent now exactly when it never was before.
    pub fn stop_recording(&mut self) -> (send: bool)
        ensures
            final(self).recording is Stopped,
            final(self).shutdown_sent,
            send == !old(self).shutdown_sent,
            final(self).bars == old(self).bars,
            final(self).exit == old(self).exit,
            final(self).last_terminal_width == old(self).last_terminal_width,
    {
        let send = !self.shutdown_sent;
        self.shutdown_sent = true;
        self.recording = RecordingState::Stopped;
        send
    }

    /// Dispatches one key press: the stop key while recording stops the
    /// capture, the quit key ends the run, anything else is a no-op.
    pub fn handle_key_event(&mut self, key: char) -> (send: bool)
        ensures
            final(self).recording == step_recording(old(self).recording, key),
            final(self).shutdown_sent == step_sent(
                old(self).recording,
                old(self).shutdown_sent,
                key,
            ),
            send == step_send_now(old(self).recording, old(self).shutdown_sent, key),
            final(self).exit == (old(self).exit || key == QUIT_KEY),
            final(self).bars == old(self).bars,
            final(self).last_terminal_width == old(self).last_terminal_width,
    {
        if key == STOP_KEY {
            if self.recording == RecordingState::Recording {
                return self.stop_recording();
            }
            false
        } else if key == QUIT_KEY {
            self.exit();
            false
        } else {
            false
        }
    }

    /// Dispatches one input event: key presses go through the key
    /// dispatch; resize and other events are no-ops here (width changes
    /// are picked up by comparing render widths instead).
    pub fn handle_event(&mut self, ev: InputEvent) -> (send: bool)
        ensures
            match ev {
                InputEvent::Key(c) => {
                    &&& final(self).recording == step_recording(old(self).recording, c)
                    &&& final(self).shutdown_sent == step_sent(
                        old(self).recording,
                        old(self).shutdown_sent,
                        c,
                    )
                    &&& send == step_send_now(old(self).recording, old(self).shutdown_sent, c)
                    &&& final(self).exit == (old(self).exit || c == QUIT_KEY)
                },
                _ => *final(self) == *old(self) && !send,
            },
            final(self).bars == old(self).bars,
            final(self).last_terminal_width == old(self).last_terminal_width,
    {
        match ev {
            InputEvent::Key(c) => self.handle_key_event(c),
            _ => false,
        }
    }

    /// Decides the final shutdown send on the quit path: send now exactly
    /// when the signal never went out, so the whole run sends it once.
    pub fn finalize_shutdown(&mut self) -> (send: bool)
        ensures
            send == !old(self).shutdown_sent,
            final(self).shutdown_sent,
            final(self).bars == old(self).bars,
            final(self).exit == old(self).exit,
            final(self).recording == old(self).recording,
            final(self).last_terminal_width == old(self).last_terminal_width,
    {
        let send = !self.shutdown_sent;
        self.shutdown_sent = true;
        send
    }

    /// Folds one sample buffer into the bucket store; the control flags
    /// are untouched.
    pub fn process_audio_samples(&mut self, samples: &SampleBuffer)
        requires
            old(self).wf(),
            samples.wf(),
        ensures
            final(self).wf(),
            final(self).bars.values@ == aggregated(samples@, old(self).bars.values@),
            final(self).same_control_state(old(self)),
    {
        self.bars.aggregate(samples);
    }

    /// Resizes the store to the bucket count the given width calls for;
    /// values below the new count are preserved, new buckets start at zero.
    pub fn update_bar_count(&mut self, terminal_width: u16)
        requires
            old(self).wf(),
        ensures
            final(self).wf(),
            final(self).bars.values@.len() == bucket_count_for_width(terminal_width),
            forall|i: int|
                0 <= i < final(self).bars.values@.len() && i < old(self).bars.values@.len()
                    ==> #[trigger] final(self).bars.values@[i] == old(self).bars.values@[i],
            forall|i: int|
                old(self).bars.values@.len() <= i < final(self).bars.values@.len()
                    ==> #[trigger] final(self).bars.values@[i] == 0,
            final(self).same_control_state(old(self)),
    {
        let usable = if terminal_width >= 4 {
            terminal_width - 4
        } else {
            0
        };
        let count = (usable / 2) as usize;
        let count = if count < MIN_BUCKET_COUNT {
            MIN_BUCKET_COUNT
        } else {
            count
        };
        self.bars.resize(count);
    }

    /// Compares the render width seen now against the last one seen and
    /// resizes the store when it changed, as the draw step does each frame.
    pub fn observe_width(&mut self, width: u16) -> (changed: bool)
        requires
            old(self).wf(),
        ensures
            final(self).wf(),
            changed == (width != old(self).last_terminal_width),
            !changed ==> *final(self) == *old(self),
            changed ==> {
                &&& final(self).last_terminal_width == width
                &&& final(self).bars.values@.len() == bucket_count_for_width(width)
                &&& forall|i: int|
                    0 <= i < final(self).bars.values@.len() && i < old(self).bars.values@.len()
                        ==> #[trigger] final(self).bars.values@[i] == old(self).bars.values@[i]
                &&& forall|i: int|
                    old(self).bars.values@.len() <= i < final(self).bars.values@.len()
                        ==> #[trigger] final(self).bars.values@[i] == 0
            },
            final(self).exit == old(self).exit,
            final(self).recording == old(self).recording,
            final(self).shutdown_sent == old(self).shutdown_sent,
    {
        if width != self.last_terminal_width {
            self.update_bar_count(width);
            self.last_terminal_width = width;
            true
        } else {
            false
        }
    }
}

impl Default for App {
    /// The state a run starts in: recording, not exiting, shutdown not
    /// sent, no width seen yet, and the default bucket store.
    fn default() -> (app: App)
        ensures
            app.wf(),
            app.recording is Recording,
            !app.exit,
            !app.shutdown_sent,
            app.last_terminal_width == 0,
            app.bars.values@.len() == DEFAULT_BUCKET_COUNT,
            forall|i: int| 0 <= i < DEFAULT_BUCKET_COUNT ==> #[trigger] app.bars.values@[i] == 0,
    {
        App {
            bars: BucketStore::new(),
            exit: false,
            recording: RecordingState::Recording,
            shutdown_sent: false,
            last_terminal_width: 0,
        }
    }
}

} // verus!
