use backtrace::backtrace::dbghelp::{
    after_answer, after_capture, begin, frame, next_skip, Action, StackFrame, BUFFER_SIZE,
};
use backtrace::backtrace::{trace, Frame, Registers, Walk};
use backtrace::capture::{Backtrace, BacktraceFrame, BacktraceSymbol};
use backtrace::format::{skipped_frames, PrintFmt};
use backtrace::lock::{lock, LockHeld};
use backtrace::symbolize::dladdr;
use backtrace::symbolize::gimli::dwarf::Location;
use backtrace::symbolize::gimli::Symbol;

fn frames() -> Vec<Frame> {
    vec![
        Frame::new(0x1010, Some(0x7ff0), 0x1000, Some(0x400000)),
        Frame::new(0x2020, None, 0x2000, None),
        Frame::new(0x3030, Some(0x7fe0), 0x3030, None),
    ]
}

fn symbols() -> Vec<Vec<Symbol>> {
    vec![
        vec![
            Symbol::Frame {
                addr: 0x10,
                location: Some(Location { file: Some(b"/src/inner.rs".to_vec()), line: Some(7), column: None }),
                name: Some(b"inner".to_vec()),
            },
            Symbol::Frame { addr: 0x10, location: None, name: None },
        ],
        vec![Symbol::Symtab { addr: 0x20, name: b"middle".to_vec() }],
        vec![Symbol::Dladdr(dladdr::Symbol::new(Some(b"outer".to_vec()), 0x3000, None))],
    ]
}

#[test]
fn frame_hands_back_what_the_walker_found() {
    let f = Frame::new(0x1010, Some(0x7ff0), 0x1000, Some(0x400000));
    assert_eq!(f.ip(), 0x1010);
    assert_eq!(f.sp(), Some(0x7ff0));
    assert_eq!(f.symbol_address(), 0x1000);
    assert_eq!(f.module_base_address(), Some(0x400000));
    assert_eq!(f.registers(), None);
    let copy = f;
    assert_eq!(copy, f);
}

#[test]
fn backtrace_registers() {
    let mut regs = Registers::zeroed();
    regs.rsp = 0x7ff0;
    regs.rax = 1;
    let captured: Vec<Frame> = frames().into_iter().map(|f| f.with_registers(regs)).collect();
    let b = Backtrace::new_unresolved(captured.clone());
    let b = b.resolve(&symbols());

    assert!(!b.frames().is_empty());

    for (frame, captured) in b.frames().iter().zip(&captured) {
        let names: Vec<_> = frame.symbols().iter().map(|s| s.name()).collect();
        assert_eq!(names.len(), frame.symbols().len());
        assert_eq!(captured.registers(), Some(regs));
        assert_eq!(captured.registers().unwrap().rsp, 0x7ff0);
    }
}

#[test]
fn backtrace_new_unresolved_should_start_with_call_site_trace() {
    let b = Backtrace::new_unresolved(frames());
    assert_eq!(b.unresolved_frames().map(|f| f.len()), Some(3));
    let b = b.resolve(&symbols());

    assert!(!b.frames().is_empty());

    let this_ip = 0x1000;
    let frame_ip = b.frames().first().unwrap().symbol_address();
    assert_eq!(this_ip, frame_ip);
}

#[test]
fn backtrace_new_should_start_with_call_site_trace() {
    let b = Backtrace::new(&frames(), &symbols());

    assert!(!b.frames().is_empty());

    let this_ip = 0x1000;
    let frame_ip = b.frames().first().unwrap().symbol_address();
    assert_eq!(this_ip, frame_ip);
    assert!(b.unresolved_frames().is_none());
}

#[test]
fn resolved_backtrace_keeps_name_address_file_and_line_of_each_symbol() {
    let b = Backtrace::new(&frames(), &symbols());
    let resolved = b.frames();
    assert_eq!(resolved.len(), 3);
    assert_eq!(resolved[0].ip(), 0x1010);
    assert_eq!(resolved[0].symbol_address(), 0x1000);
    assert_eq!(resolved[0].symbols().len(), 2);

    let inner = &resolved[0].symbols()[0];
    assert_eq!(inner.name(), Some(&b"inner".to_vec()));
    assert_eq!(inner.addr(), Some(0x10));
    assert_eq!(inner.filename(), Some(&b"/src/inner.rs".to_vec()));
    assert_eq!(inner.lineno(), Some(7));

    let anonymous = &resolved[0].symbols()[1];
    assert_eq!(anonymous.name(), None);
    assert_eq!(anonymous.addr(), Some(0x10));
    assert_eq!(anonymous.filename(), None);
    assert_eq!(anonymous.lineno(), None);

    let middle = &resolved[1].symbols()[0];
    assert_eq!(middle.name(), Some(&b"middle".to_vec()));
    assert_eq!(middle.addr(), None);
    assert_eq!(middle.filename(), None);

    let outer = &resolved[2].symbols()[0];
    assert_eq!(outer.name(), Some(&b"outer".to_vec()));
    assert_eq!(outer.addr(), Some(0x3000));
    assert_eq!(outer.lineno(), None);
}

#[test]
fn frames_without_findings_resolve_to_frames_without_symbols() {
    let b = Backtrace::new(&frames(), &symbols()[..1].to_vec());
    assert_eq!(b.frames().len(), 3);
    assert_eq!(b.frames()[0].symbols().len(), 2);
    assert_eq!(b.frames()[1].symbols().len(), 0);
    assert_eq!(b.frames()[2].ip(), 0x3030);
    let b = Backtrace::new(&Vec::new(), &symbols());
    assert_eq!(b.frames().len(), 0);
}

#[test]
fn resolving_a_resolved_backtrace_copies_it() {
    let b = Backtrace::new(&frames(), &symbols());
    let again = b.resolve(&Vec::new());
    assert_eq!(again.frames().len(), 3);
    assert_eq!(again.frames()[0].symbols()[0].name(), Some(&b"inner".to_vec()));
    assert_eq!(again.frames()[1].symbols()[0].name(), Some(&b"middle".to_vec()));
    assert_eq!(b.frames()[2].symbols()[0].addr(), again.frames()[2].symbols()[0].addr());
}

#[test]
fn backtrace_converts_from_and_into_its_frames() {
    let list: Vec<BacktraceFrame> = frames()
        .iter()
        .zip(symbols().iter())
        .map(|(f, s)| BacktraceFrame::capture(f, s))
        .collect();
    let b = Backtrace::from_frames(list);
    assert_eq!(b.frames().len(), 3);
    let list = b.into_frames(&Vec::new());
    assert_eq!(list[1].ip(), 0x2020);
    let list = Backtrace::new_unresolved(frames()).into_frames(&symbols());
    assert_eq!(list.len(), 3);
    assert_eq!(list[0].symbols()[0].lineno(), Some(7));
    let symbol = BacktraceSymbol::capture(&symbols()[1][0]);
    assert_eq!(symbol.duplicate().name(), Some(&b"middle".to_vec()));
    assert_eq!(list[0].duplicate().symbols().len(), 2);
}

/// Walks `frames` under `guard` as a stack walker does, handing each
/// frame that is due to `cb`, and returns the instruction pointers
/// handed over.
fn walk(held: bool, frames: &[Frame], mut cb: impl FnMut(&Frame) -> bool) -> Vec<usize> {
    let mut thread = LockHeld::new();
    let guard = if held { lock(&mut thread) } else { None };
    let mut seen = Vec::new();
    let mut walk = trace(guard.as_ref());
    while let Some(place) = walk.next(frames.len()) {
        seen.push(frames[place].ip());
        walk = walk.answer(cb(&frames[place]));
    }
    seen
}

#[test]
fn trace_hands_over_frames_innermost_first_until_told_to_stop() {
    assert_eq!(walk(true, &frames(), |_| true), vec![0x1010, 0x2020, 0x3030]);
    assert_eq!(walk(true, &frames(), |f| f.ip() != 0x2020), vec![0x1010, 0x2020]);
    assert_eq!(walk(true, &frames(), |_| false), vec![0x1010]);
    assert_eq!(walk(true, &frames(), |f| f.ip() != 0x3030), vec![0x1010, 0x2020, 0x3030]);
    assert_eq!(walk(true, &[], |_| true), Vec::<usize>::new());
}

#[test]
fn trace_hands_over_nothing_to_a_thread_inside_the_library() {
    assert_eq!(walk(false, &frames(), |_| true), Vec::<usize>::new());
    assert_eq!(trace(None), Walk { delivered: 0, over: true });
    assert_eq!(trace(None).next(3), None);
    assert_eq!(trace(None).answer(true), Walk { delivered: 0, over: true });
}

#[test]
fn walk_counts_the_frames_and_stays_over_once_stopped() {
    let mut thread = LockHeld::new();
    let guard = lock(&mut thread);
    let start = trace(guard.as_ref());
    assert_eq!(start, Walk { delivered: 0, over: false });
    assert_eq!(start.next(0), None);
    assert_eq!(start.next(2), Some(0));
    let second = start.answer(true);
    assert_eq!(second, Walk { delivered: 1, over: false });
    assert_eq!(second.next(2), Some(1));
    assert_eq!(second.next(1), None);
    let stopped = second.answer(false);
    assert_eq!(stopped, Walk { delivered: 2, over: true });
    assert_eq!(stopped.next(5), None);
    assert_eq!(stopped.answer(true), stopped);
    let last = Walk { delivered: usize::MAX, over: false };
    assert_eq!(last.answer(true), Walk { delivered: usize::MAX, over: true });
}

/// Walks a stack of `depth` frames in chunks, the consumer stopping at
/// the frame `stop_at`, and returns the places of the frames handed over.
fn chunked(held: bool, depth: u32, stop_at: Option<u32>) -> Vec<u32> {
    let mut thread = LockHeld::new();
    let guard = if held { lock(&mut thread) } else { None };
    let mut seen = Vec::new();
    let mut action = begin(guard.as_ref());
    let (mut skip, mut len) = (0u32, 0u16);
    loop {
        action = match action {
            Action::Stop => return seen,
            Action::Capture(next) => {
                skip = next;
                len = (depth.saturating_sub(skip)).min(BUFFER_SIZE as u32) as u16;
                after_capture(len)
            }
            Action::Deliver(place) => {
                let frame = skip + place as u32;
                seen.push(frame);
                after_answer(skip, len, place, Some(frame) != stop_at)
            }
        };
    }
}

#[test]
fn chunked_walk_hands_over_every_frame_once_and_in_order() {
    for depth in [0u32, 1, 63, 64, 65, 128, 200] {
        assert_eq!(chunked(true, depth, None), (0..depth).collect::<Vec<u32>>(), "{}", depth);
    }
    assert_eq!(chunked(false, 100, None), Vec::<u32>::new());
}

#[test]
fn chunked_walk_stops_at_the_answer_also_at_the_end_of_a_chunk() {
    assert_eq!(chunked(true, 200, Some(63)), (0..64).collect::<Vec<u32>>());
    assert_eq!(chunked(true, 200, Some(64)), (0..65).collect::<Vec<u32>>());
    assert_eq!(chunked(true, 200, Some(0)), vec![0]);
    assert_eq!(chunked(true, 200, Some(127)), (0..128).collect::<Vec<u32>>());
    assert_eq!(after_answer(0, 64, 63, false), Action::Stop);
    assert_eq!(after_answer(0, 64, 63, true), Action::Capture(64));
    assert_eq!(after_answer(64, 64, 10, true), Action::Deliver(11));
    assert_eq!(after_answer(64, 20, 19, true), Action::Stop);
    assert_eq!(after_answer(u32::MAX - 63, 64, 63, true), Action::Stop);
    assert_eq!(after_answer(0, 64, usize::MAX, true), Action::Capture(64));
    assert_eq!(after_capture(0), Action::Stop);
    assert_eq!(after_capture(5), Action::Deliver(0));
    assert_eq!(begin(None), Action::Stop);
}

#[test]
fn chunked_walk_goes_on_only_after_a_full_buffer() {
    assert_eq!(BUFFER_SIZE, 64);
    assert_eq!(next_skip(0, 64, false), Some(64));
    assert_eq!(next_skip(64, 64, false), Some(128));
    assert_eq!(next_skip(128, 63, false), None);
    assert_eq!(next_skip(0, 0, false), None);
    assert_eq!(next_skip(0, 64, true), None);
    assert_eq!(next_skip(u32::MAX - 64, 64, false), Some(u32::MAX));
    assert_eq!(next_skip(u32::MAX - 63, 64, false), None);
    assert_eq!(next_skip(u32::MAX, 64, false), None);
}

#[test]
fn captured_instruction_pointer_stands_for_the_whole_frame() {
    let f = frame(StackFrame::new(0x1234), 0x1000);
    assert_eq!(f.ip(), 0x1234);
    assert_eq!(f.sp(), None);
    assert_eq!(f.symbol_address(), 0x1234);
    assert_eq!(f.module_base_address(), Some(0x1000));
    assert_eq!(StackFrame::new(9).ip(), 9);
}

#[test]
fn short_trace_leaves_out_the_frames_of_the_formatting_machinery() {
    let list = frames();
    assert_eq!(skipped_frames(&list, PrintFmt::Short, 0x2000), 2);
    assert_eq!(skipped_frames(&list, PrintFmt::Short, 0x1000), 1);
    assert_eq!(skipped_frames(&list, PrintFmt::Short, 0x3030), 3);
    assert_eq!(skipped_frames(&list, PrintFmt::Short, 0x9999), 0);
    assert_eq!(skipped_frames(&list, PrintFmt::Full, 0x2000), 0);
    assert_eq!(skipped_frames(&Vec::new(), PrintFmt::Short, 0), 0);
    let twice = vec![list[1], list[0], list[1]];
    assert_eq!(skipped_frames(&twice, PrintFmt::Short, 0x2000), 1);
}

#[test]
fn lock_is_refused_to_the_thread_that_holds_it() {
    let mut thread = LockHeld::new();
    assert!(!thread.is_held());
    let guard = lock(&mut thread).unwrap();
    assert!(thread.is_held());
    assert!(lock(&mut thread).is_none());
    assert!(thread.is_held());
    guard.release(&mut thread);
    assert!(!thread.is_held());
    let guard = lock(&mut thread);
    assert!(guard.is_some());
}
