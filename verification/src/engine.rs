//! The decisions of the engine's main loop: when to run a frame, and when to
//! stop.
use vstd::prelude::*;
use crate::input::{KeyboardInput, LetterKeys};

verus! {

/// The shortest time between two frames, in nanoseconds: 16 ms.
pub const FRAME_NS: u128 = 16_000_000;

/// A window event, as far as the main loop tells events apart.
#[derive(Debug, Clone, Copy, PartialEq, Eq, Structural)]
pub enum WindowEventKind {
    Resize,
    Close,
}

/// What the main loop does on one pass.
#[derive(Debug, Clone, Copy, PartialEq, Eq, Structural)]
pub enum FrameStep {
    /// Less than a frame's time has passed: keep the last frame's time.
    Wait,
    /// Run a frame covering `dt_ms` whole milliseconds.
    Run { dt_ms: u128 },
}

/// The pass of the main loop `elapsed_ns` nanoseconds after the last frame:
/// wait while less than 16 ms have passed, else run a frame of the elapsed
/// whole milliseconds.
pub fn frame_step(elapsed_ns: u128) -> (r: FrameStep)
    ensures
        elapsed_ns < FRAME_NS ==> r == FrameStep::Wait,
        elapsed_ns >= FRAME_NS ==> r == (FrameStep::Run { dt_ms: elapsed_ns / 1_000_000 }),
{
    if FRAME_NS > elapsed_ns {
        return FrameStep::Wait;
    }
    FrameStep::Run { dt_ms: elapsed_ns / 1_000_000 }
}

/// Position of the first close event among `events`, or their number.
pub open spec fn first_close(events: Seq<WindowEventKind>) -> int
    decreases events.len(),
{
    if events.len() == 0 {
        0
    } else if events[0] == WindowEventKind::Close {
        0
    } else {
        1 + first_close(events.drop_first())
    }
}

/// How a frame's window events are handled, in order: each resize before
/// the first close makes the renderer be fetched again; a close ends the
/// loop at once. Returns the number of resizes to handle and whether the
/// loop ends.
pub fn window_events_outcome(events: &Vec<WindowEventKind>) -> (r: (usize, bool))
    ensures
        r.0 == first_close(events@),
        r.1 == (first_close(events@) < events@.len()),
{
    let mut i: usize = 0;
    let n = events.len();
    while i < n
        invariant
            n == events@.len(),
            i <= n,
            forall|k: int| 0 <= k < i ==> events@[k] == WindowEventKind::Resize,
        decreases n - i,
    {
        if events[i] == WindowEventKind::Close {
            proof {
                lemma_first_close_at(events@, i as int);
            }
            return (i, true);
        }
        i += 1;
    }
    proof {
        lemma_first_close_at(events@, n as int);
    }
    (n, false)
}

proof fn lemma_first_close_at(events: Seq<WindowEventKind>, i: int)
    requires
        0 <= i <= events.len(),
        forall|k: int| 0 <= k < i ==> events[k] == WindowEventKind::Resize,
        i < events.len() ==> events[i] == WindowEventKind::Close,
    ensures
        first_close(events) == i,
    decreases i,
{
    if i > 0 {
        let rest = events.drop_first();
        assert forall|k: int| 0 <= k < i - 1 implies rest[k] == WindowEventKind::Resize by {
            assert(rest[k] == events[k + 1]);
        }
        if i < events.len() {
            assert(rest[i - 1] == events[i]);
        }
        lemma_first_close_at(rest, i - 1);
    }
}

/// `first_close` is the position of the first close event: every event
/// before it is a resize, and it is a close unless it is the number of
/// events (no close at all).
pub proof fn lemma_first_close_is_first(events: Seq<WindowEventKind>)
    ensures
        0 <= first_close(events) <= events.len(),
        forall|k: int| 0 <= k < first_close(events) ==> #[trigger] events[k] == WindowEventKind::Resize,
        first_close(events) < events.len() ==> events[first_close(events)] == WindowEventKind::Close,
    decreases events.len(),
{
    if events.len() > 0 && events[0] != WindowEventKind::Close {
        let rest = events.drop_first();
        lemma_first_close_is_first(rest);
        assert forall|k: int| 0 <= k < first_close(events) implies #[trigger] events[k]
            == WindowEventKind::Resize by {
            if k > 0 {
                assert(events[k] == rest[k - 1]);
            }
        }
        if first_close(events) < events.len() {
            assert(events[first_close(events)] == rest[first_close(rest)]);
        }
    }
}

/// Whether the player asks to quit: the command key and Q are down.
pub fn quit_requested(keyboard: &KeyboardInput) -> (r: bool)
    ensures
        r == (keyboard.cmd_down && keyboard.letter_keys@[LetterKeys::Q.spec_index()].ended_down),
{
    keyboard.cmd_down && keyboard.letter_down(LetterKeys::Q)
}

} // verus!
