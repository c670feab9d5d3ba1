//! Stack frames as a stack walker reports them, and the order in which
//! they are handed to a consumer that may stop the walk.
use crate::lock::LockGuard;
use vstd::prelude::*;

pub mod dbghelp;

verus! {

/// The general-purpose registers of one frame of a backtrace on x86-64.
///
/// Not every register of the architecture is recorded.
#[non_exhaustive]
#[derive(Clone, Copy, Debug, PartialEq, Eq)]
pub struct Registers {
    pub rax: u64,
    pub rdx: u64,
    pub rcx: u64,
    pub rbx: u64,
    pub rsi: u64,
    pub rdi: u64,
    pub rbp: u64,
    pub rsp: u64,
    pub r8: u64,
    pub r9: u64,
    pub r10: u64,
    pub r11: u64,
    pub r12: u64,
    pub r13: u64,
    pub r14: u64,
    pub r15: u64,
}

/// One activation record of a captured call stack.
///
/// A frame is a plain value: it is copied freely and carries nothing of
/// what resolving its addresses may later find.
#[derive(Clone, Copy, Debug, PartialEq, Eq)]
pub struct Frame {
    ip: usize,
    sp: Option<usize>,
    symbol_address: usize,
    module_base_address: Option<usize>,
    registers: Option<Registers>,
}

impl Registers {
    /// Registers that all hold zero, for the walker to fill in.
    pub fn zeroed() -> (r: Registers)
        ensures
            r.rax == 0 && r.rdx == 0 && r.rcx == 0 && r.rbx == 0,
            r.rsi == 0 && r.rdi == 0 && r.rbp == 0 && r.rsp == 0,
            r.r8 == 0 && r.r9 == 0 && r.r10 == 0 && r.r11 == 0,
            r.r12 == 0 && r.r13 == 0 && r.r14 == 0 && r.r15 == 0,
    {
        Registers {
            rax: 0,
            rdx: 0,
            rcx: 0,
            rbx: 0,
            rsi: 0,
            rdi: 0,
            rbp: 0,
            rsp: 0,
            r8: 0,
            r9: 0,
            r10: 0,
            r11: 0,
            r12: 0,
            r13: 0,
            r14: 0,
            r15: 0,
        }
    }
}

impl Frame {
    /// Builds a frame from what the walker found: the instruction
    /// pointer, the stack pointer if known, the start of the enclosing
    /// function as well as it is known, and the base address of the
    /// containing module if known.
    pub fn new(
        ip: usize,
        sp: Option<usize>,
        symbol_address: usize,
        module_base_address: Option<usize>,
    ) -> (f: Frame)
        ensures
            f.ip_spec() == ip,
            f.sp_spec() == sp,
            f.symbol_address_spec() == symbol_address,
            f.module_base_address_spec() == module_base_address,
            f.registers_spec() is None,
    {
        Frame { ip, sp, symbol_address, module_base_address, registers: None }
    }

    /// The same frame with the registers that the walker recovered for
    /// it.
    pub fn with_registers(self, registers: Registers) -> (f: Frame)
        ensures
            f.ip_spec() == self.ip_spec(),
            f.sp_spec() == self.sp_spec(),
            f.symbol_address_spec() == self.symbol_address_spec(),
            f.module_base_address_spec() == self.module_base_address_spec(),
            f.registers_spec() == Some(registers),
    {
        Frame {
            ip: self.ip,
            sp: self.sp,
            symbol_address: self.symbol_address,
            module_base_address: self.module_base_address,
            registers: Some(registers),
        }
    }

    pub closed spec fn registers_spec(&self) -> Option<Registers> {
        self.registers
    }

    /// The registers of this frame; `None` where the walker recovers
    /// none.
    #[verifier::when_used_as_spec(registers_spec)]
    pub fn registers(&self) -> (r: Option<Registers>)
        ensures
            r == self.registers_spec(),
    {
        self.registers
    }

    pub closed spec fn ip_spec(&self) -> usize {
        self.ip
    }

    pub closed spec fn sp_spec(&self) -> Option<usize> {
        self.sp
    }

    pub closed spec fn symbol_address_spec(&self) -> usize {
        self.symbol_address
    }

    pub closed spec fn module_base_address_spec(&self) -> Option<usize> {
        self.module_base_address
    }

    /// The instruction pointer of this frame: normally the next
    /// instruction to execute in it.
    #[verifier::when_used_as_spec(ip_spec)]
    pub fn ip(&self) -> (r: usize)
        ensures
            r == self.ip_spec(),
    {
        self.ip
    }

    /// The stack pointer of this frame, where the walker reports one.
    #[verifier::when_used_as_spec(sp_spec)]
    pub fn sp(&self) -> (r: Option<usize>)
        ensures
            r == self.sp_spec(),
    {
        self.sp
    }

    /// The start of the function this frame executes, as well as the
    /// walker could tell; some walkers can only repeat `ip`.
    #[verifier::when_used_as_spec(symbol_address_spec)]
    pub fn symbol_address(&self) -> (r: usize)
        ensures
            r == self.symbol_address_spec(),
    {
        self.symbol_address
    }

    /// The base address of the module this frame's code belongs to, where
    /// the walker reports one.
    #[verifier::when_used_as_spec(module_base_address_spec)]
    pub fn module_base_address(&self) -> (r: Option<usize>)
        ensures
            r == self.module_base_address_spec(),
    {
        self.module_base_address
    }
}

/// How far the delivery of a stack walk's frames has come.
///
/// The frames of a walk are handed to a consumer one by one, innermost
/// frame first, and the consumer answers each with whether the walk
/// should go on. A `Walk` says which frame is due next and takes the
/// answers; whoever walks the stack asks it before every frame.
#[derive(Clone, Copy, Debug, PartialEq, Eq)]
pub struct Walk {
    /// Number of frames handed over so far.
    pub delivered: usize,
    /// Whether no further frame is to be handed over: the consumer asked
    /// to stop, or the walk was refused from the start.
    pub over: bool,
}

impl Walk {
    /// The frame that is due, of a stack of `len` frames.
    pub open spec fn due(self, len: usize) -> Option<usize> {
        if !self.over && self.delivered < len {
            Some(self.delivered)
        } else {
            None
        }
    }

    /// The walk after the consumer answered the frame that was due.
    pub open spec fn answered(self, go_on: bool) -> Walk {
        if self.over {
            self
        } else if self.delivered == usize::MAX {
            Walk { delivered: self.delivered, over: true }
        } else {
            Walk { delivered: (self.delivered + 1) as usize, over: !go_on }
        }
    }

    /// The place, counted from the innermost frame, of the frame to hand
    /// to the consumer next, given that the walker has `len` frames in
    /// all; `None` where the walk is over or every frame was handed
    /// over. A walker that does not know the number of frames passes the
    /// number of frames found so far.
    pub fn next(&self, len: usize) -> (r: Option<usize>)
        ensures
            r == self.due(len),
    {
        if !self.over && self.delivered < len {
            Some(self.delivered)
        } else {
            None
        }
    }

    /// Takes the consumer's answer to the frame that was due: the walk
    /// moves on to the following frame, and is over where the answer is
    /// `false`. A walk that is over stays as it is.
    pub fn answer(self, go_on: bool) -> (r: Walk)
        ensures
            r == self.answered(go_on),
    {
        if self.over {
            self
        } else if self.delivered == usize::MAX {
            Walk { delivered: self.delivered, over: true }
        } else {
            Walk { delivered: self.delivered + 1, over: !go_on }
        }
    }
}

/// Begins handing over the frames of a stack walk. `guard` is what
/// taking the library's lock gave: with `None`, the calling thread is
/// inside the library already, and the walk is over before its first
/// frame.
pub fn trace(guard: Option<&LockGuard>) -> (walk: Walk)
    ensures
        walk == (Walk { delivered: 0, over: guard is None }),
{
    Walk { delivered: 0, over: guard.is_none() }
}

/// The places of the frames handed over, in the order of handing over,
/// while the consumer gives the `answers` in turn to a stack of `len`
/// frames.
pub open spec fn handed_over(walk: Walk, len: usize, answers: Seq<bool>) -> Seq<usize>
    decreases answers.len(),
{
    if answers.len() == 0 {
        Seq::empty()
    } else {
        match walk.due(len) {
            None => Seq::empty(),
            Some(place) => seq![place] + handed_over(walk.answered(answers[0]), len, answers.skip(1)),
        }
    }
}

/// Delivery of a walk: the frames are handed over from the place the
/// walk stands at, innermost first, each exactly once and none left
/// out, up to and including the first frame that the consumer answers
/// with `false`, or to the end of the stack; no frame is handed over
/// after that answer. A walk that is over, as the walk of a thread
/// without the lock is from the start, hands over no frame at all.
pub proof fn lemma_trace(walk: Walk, len: usize, answers: Seq<bool>)
    ensures
        walk.over ==> handed_over(walk, len, answers).len() == 0,
        handed_over(walk, len, answers).len() <= answers.len(),
        handed_over(walk, len, answers).len() == 0 || walk.delivered + handed_over(walk, len, answers).len()
            <= len,
        forall|k: int|
            0 <= k < handed_over(walk, len, answers).len() ==> #[trigger] handed_over(walk, len, answers)[k]
                == walk.delivered + k,
        forall|k: int| 0 <= k < handed_over(walk, len, answers).len() - 1 ==> #[trigger] answers[k],
        !walk.over && handed_over(walk, len, answers).len() < answers.len() && walk.delivered + handed_over(
            walk,
            len,
            answers,
        ).len() < len ==> handed_over(walk, len, answers).len() > 0 && !answers[handed_over(
            walk,
            len,
            answers,
        ).len() - 1],
    decreases answers.len(),
{
    if answers.len() > 0 {
        match walk.due(len) {
            None => {},
            Some(place) => {
                let after = walk.answered(answers[0]);
                let rest = handed_over(after, len, answers.skip(1));
                lemma_trace(after, len, answers.skip(1));
                let all = handed_over(walk, len, answers);
                assert(all =~= seq![place] + rest);
                assert forall|k: int| 0 <= k < all.len() implies #[trigger] all[k] == walk.delivered + k by {
                    if k > 0 {
                        assert(all[k] == rest[k - 1]);
                    }
                }
                assert forall|k: int| 0 <= k < all.len() - 1 implies #[trigger] answers[k] by {
                    if k > 0 {
                        assert(answers.skip(1)[k - 1] == answers[k]);
                    } else {
                        assert(rest.len() > 0);
                    }
                }
                if rest.len() > 0 {
                    assert(answers.skip(1)[rest.len() - 1] == answers[rest.len() as int]);
                }
            },
        }
    }
}

} // verus!
