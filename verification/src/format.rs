//! Choosing the frames that a formatted trace shows.
use crate::backtrace::Frame;
use vstd::prelude::*;

verus! {

/// How much of a trace is shown.
#[derive(Clone, Copy, Debug, PartialEq, Eq, Structural)]
pub enum PrintFmt {
    /// Only what the caller of the formatting function is concerned
    /// with: the frames of the formatting machinery itself are left out.
    Short,
    /// Every frame.
    Full,
}

/// Whether `i` is the place of the first frame that executes the
/// function starting at `entry_point`.
pub open spec fn is_entry_frame(frames: Seq<Frame>, entry_point: usize, i: int) -> bool {
    &&& 0 <= i < frames.len()
    &&& frames[i].symbol_address() == entry_point
    &&& forall|k: int| 0 <= k < i ==> (#[trigger] frames[k]).symbol_address() != entry_point
}

/// The number of leading frames that are not shown. In the short form
/// these are the frames up to and including the first frame of the
/// formatting function, which starts at `entry_point`; where no such
/// frame is found, and in the full form, every frame is shown.
pub open spec fn hidden_frames(frames: Seq<Frame>, mode: PrintFmt, entry_point: usize) -> int {
    if mode == PrintFmt::Short && exists|i: int| is_entry_frame(frames, entry_point, i) {
        (choose|i: int| is_entry_frame(frames, entry_point, i)) + 1
    } else {
        0
    }
}

/// Finds the number of leading frames that a formatted trace leaves out.
pub fn skipped_frames(frames: &Vec<Frame>, mode: PrintFmt, entry_point: usize) -> (n: usize)
    ensures
        n == hidden_frames(frames@, mode, entry_point),
        n <= frames.len(),
{
    match mode {
        PrintFmt::Full => 0,
        PrintFmt::Short => {
            let mut i: usize = 0;
            while i < frames.len()
                invariant
                    i <= frames.len(),
                    mode == PrintFmt::Short,
                    forall|k: int| 0 <= k < i ==> (#[trigger] frames@[k]).symbol_address() != entry_point,
                decreases frames.len() - i,
            {
                if frames[i].symbol_address() == entry_point {
                    proof {
                        assert(is_entry_frame(frames@, entry_point, i as int));
                        let j = choose|j: int| is_entry_frame(frames@, entry_point, j);
                        if j < i {
                            assert(frames@[j].symbol_address() != entry_point);
                        } else if i < j {
                            assert(frames@[i as int].symbol_address() != entry_point);
                        }
                    }
                    return i + 1;
                }
                i += 1;
            }
            proof {
                assert forall|j: int| !is_entry_frame(frames@, entry_point, j) by {
                    if 0 <= j < frames.len() {
                        assert(frames@[j].symbol_address() != entry_point);
                    }
                }
            }
            0
        },
    }
}

} // verus!
