//! Walking the stack in chunks, as the Windows capture routine does: it
//! fills a buffer of bounded size and is asked again, skipping what was
//! already seen, until it comes back with less than a full buffer.
use super::Frame;
use crate::lock::LockGuard;
use vstd::prelude::*;

verus! {

/// Number of frames captured at a time.
pub const BUFFER_SIZE: u16 = 64;

/// The instruction pointer that the capture routine reports for a frame.
#[derive(Clone, Copy, Debug, PartialEq, Eq, Structural)]
pub struct StackFrame {
    ip: usize,
}

impl StackFrame {
    /// Wraps a captured instruction pointer.
    pub fn new(ip: usize) -> (r: StackFrame)
        ensures
            r.ip() == ip,
    {
        StackFrame { ip }
    }

    pub closed spec fn ip_spec(&self) -> usize {
        self.ip
    }

    /// The captured instruction pointer.
    #[verifier::when_used_as_spec(ip_spec)]
    pub fn ip(&self) -> (r: usize)
        ensures
            r == self.ip_spec(),
    {
        self.ip
    }
}

/// The frame that stands for a captured instruction pointer and the base
/// address of its module. The capture routine knows no stack pointer,
/// and nothing better for the start of the function than the
/// instruction pointer itself.
pub fn frame(stack_frame: StackFrame, base_address: usize) -> (f: Frame)
    ensures
        f.ip() == stack_frame.ip(),
        f.sp() is None,
        f.symbol_address() == stack_frame.ip(),
        f.module_base_address() == Some(base_address),
        f.registers() is None,
{
    Frame::new(stack_frame.ip(), None, stack_frame.ip(), Some(base_address))
}

/// The number of frames to skip in the next capture, or `None` where the
/// walk is over: the consumer asked to stop, the last capture did not
/// fill the buffer, or the count of frames would leave the range of the
/// capture routine.
pub open spec fn following_skip(skip: u32, len: u16, stopped: bool) -> Option<u32> {
    if stopped || len < BUFFER_SIZE || skip > u32::MAX - len {
        None
    } else {
        Some((skip + len) as u32)
    }
}

/// Decides, after a capture that skipped `skip` frames and returned `len`
/// frames, how the walk goes on. `stopped` says that the consumer asked
/// to stop.
pub fn next_skip(skip: u32, len: u16, stopped: bool) -> (r: Option<u32>)
    ensures
        r == following_skip(skip, len, stopped),
{
    if stopped || len < BUFFER_SIZE || skip > u32::MAX - len as u32 {
        None
    } else {
        Some(skip + len as u32)
    }
}

/// What a walk in chunks does next.
#[derive(Clone, Copy, Debug, PartialEq, Eq)]
pub enum Action {
    /// Capture the next chunk, skipping this many frames.
    Capture(u32),
    /// Hand the frame at this place of the chunk at hand to the consumer.
    Deliver(usize),
    /// End the walk.
    Stop,
}

/// What a walk does first: it captures the innermost frames, unless the
/// calling thread is inside the library already; `guard` is what taking
/// the library's lock gave.
pub fn begin(guard: Option<&LockGuard>) -> (r: Action)
    ensures
        r == if guard is Some {
            Action::Capture(0)
        } else {
            Action::Stop
        },
{
    match guard {
        Some(_) => Action::Capture(0),
        None => Action::Stop,
    }
}

/// What a walk does after a capture that returned `len` frames: it hands
/// over the first of them, or ends where there is none.
pub fn after_capture(len: u16) -> (r: Action)
    ensures
        r == if len == 0 {
            Action::Stop
        } else {
            Action::Deliver(0)
        },
{
    if len == 0 {
        Action::Stop
    } else {
        Action::Deliver(0)
    }
}

/// What a walk does after the consumer answered a frame: where the
/// answer is `false` the walk ends; else the frame after it in the chunk
/// is handed over; after the last frame of the chunk the next chunk is
/// captured, or the walk ends, as `following_skip` says.
pub open spec fn following_action(skip: u32, len: u16, place: usize, go_on: bool) -> Action {
    if !go_on {
        Action::Stop
    } else if place + 1 < len {
        Action::Deliver((place + 1) as usize)
    } else {
        match following_skip(skip, len, false) {
            Some(next) => Action::Capture(next),
            None => Action::Stop,
        }
    }
}

/// Decides what a walk does after the consumer answered, with `go_on`,
/// the frame at `place` of a chunk of `len` frames that was captured
/// skipping `skip` frames.
pub fn after_answer(skip: u32, len: u16, place: usize, go_on: bool) -> (r: Action)
    ensures
        r == following_action(skip, len, place, go_on),
{
    if !go_on {
        Action::Stop
    } else if place < usize::MAX && place + 1 < len as usize {
        Action::Deliver(place + 1)
    } else {
        match next_skip(skip, len, false) {
            Some(next) => Action::Capture(next),
            None => Action::Stop,
        }
    }
}

/// The skip counts of a walk whose captures returned `lens` frames in
/// turn and whose consumer never asked to stop: the count in force for
/// each capture.
pub open spec fn skips(lens: Seq<u16>) -> Seq<u32>
    decreases lens.len(),
{
    if lens.len() == 0 {
        Seq::empty()
    } else if lens.len() == 1 {
        seq![0u32]
    } else {
        let earlier = skips(lens.drop_last());
        match following_skip(earlier.last(), lens[lens.len() - 2], false) {
            Some(skip) => earlier.push(skip),
            None => earlier,
        }
    }
}

/// No frame is captured twice and none is left out: while the walk goes
/// on, the skip count of each capture is the number of frames that the
/// captures before it returned.
pub proof fn lemma_skips_count_frames(lens: Seq<u16>)
    requires
        lens.len() > 0,
        skips(lens).len() == lens.len(),
    ensures
        forall|i: int| 0 <= i < lens.len() ==> (#[trigger] skips(lens)[i]) == total(lens.take(i)),
    decreases lens.len(),
{
    if lens.len() == 1 {
        assert(lens.take(0) =~= Seq::<u16>::empty());
    } else {
        let shorter = lens.drop_last();
        lemma_skips_length(shorter);
        let earlier = skips(shorter);
        lemma_skips_count_frames(shorter);
        assert forall|i: int| 0 <= i < lens.len() implies (#[trigger] skips(lens)[i]) == total(lens.take(i)) by {
            if i < lens.len() - 1 {
                assert(skips(lens)[i] == earlier[i]);
                assert(shorter.take(i) =~= lens.take(i));
            } else {
                let before = lens.take(i - 1);
                assert(shorter.take(i - 1) =~= before);
                assert(lens.take(i).drop_last() =~= before);
                assert(lens.take(i).last() == lens[i - 1]);
            }
        }
    }
}

/// A walk makes at most one capture per length given.
proof fn lemma_skips_length(lens: Seq<u16>)
    ensures
        skips(lens).len() <= lens.len(),
        lens.len() > 0 ==> skips(lens).len() > 0,
    decreases lens.len(),
{
    if lens.len() > 1 {
        lemma_skips_length(lens.drop_last());
    }
}

/// The number of frames in captures of the given lengths.
pub open spec fn total(lens: Seq<u16>) -> int
    decreases lens.len(),
{
    if lens.len() == 0 {
        0
    } else {
        total(lens.drop_last()) + lens.last()
    }
}

} // verus!
