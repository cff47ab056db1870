use kival::crash::{crash_report_lines, signal_str, CrashLine, FatalSignal, DEFAULT_STACK_SIZE};

fn text(s: &str) -> CrashLine {
    CrashLine::Text(s.to_string())
}

const REPORT: &str = "note: we would appreciate a report at https://github.com/selemis-com/kival";
const HELP: &str = "help: you can increase kival's stack size by setting RUST_MIN_STACK=16777216";
const OVERFLOW: &str = "note: kival unexpectedly overflowed its stack! this is a bug";
const DEPTH: &str = "note: maximum backtrace depth reached, frames may have been lost";

#[test]
fn empty_backtrace_prints_nothing() {
    assert!(crash_report_lines(&Vec::new(), FatalSignal::Segv).is_empty());
}

#[test]
fn signal_names_match_the_handled_signals() {
    assert_eq!(signal_str(FatalSignal::Ill), "SIGILL");
    assert_eq!(signal_str(FatalSignal::Bus), "SIGBUS");
    assert_eq!(signal_str(FatalSignal::Segv), "SIGSEGV");
    assert_eq!(signal_str(FatalSignal::Other), "<unknown>");
}

#[test]
fn suggested_stack_size_doubles_the_default() {
    assert_eq!(DEFAULT_STACK_SIZE * 2, 16777216);
}

#[test]
fn acyclic_backtrace_prints_every_frame() {
    let lines = crash_report_lines(&vec![1, 2, 3], FatalSignal::Bus);
    assert_eq!(
        lines,
        vec![
            text("error: kival interrupted by SIGBUS, printing backtrace\n"),
            CrashLine::Frames(0, 3),
            text(""),
            text(REPORT),
        ]
    );
}

#[test]
fn recursion_cycle_is_printed_once() {
    let lines = crash_report_lines(&vec![9, 1, 2, 1, 2, 1, 2, 7], FatalSignal::Segv);
    assert_eq!(
        lines,
        vec![
            text("error: kival interrupted by SIGSEGV, printing backtrace\n"),
            CrashLine::Frames(0, 1),
            text("\n### cycle encountered after 1 frames with period 2"),
            CrashLine::Frames(1, 3),
            text("### recursed 3 times\n"),
            CrashLine::Frames(7, 8),
            text(""),
            text(OVERFLOW),
            text(REPORT),
            text(HELP),
        ]
    );
}

#[test]
fn full_depth_overflow_mentions_lost_frames() {
    let lines = crash_report_lines(&vec![4; 256], FatalSignal::Segv);
    assert_eq!(
        lines,
        vec![
            text("error: kival interrupted by SIGSEGV, printing backtrace\n"),
            CrashLine::Frames(0, 0),
            text("\n### cycle encountered after 0 frames with period 1"),
            CrashLine::Frames(0, 1),
            text("### recursed 256 times\n"),
            CrashLine::Frames(256, 256),
            text(""),
            text(OVERFLOW),
            text(DEPTH),
            text(REPORT),
            text(HELP),
        ]
    );
}

#[test]
fn long_backtrace_repeats_the_signal_name() {
    let stack: Vec<usize> = (0..30).collect();
    let lines = crash_report_lines(&stack, FatalSignal::Ill);
    assert_eq!(
        lines,
        vec![
            text("error: kival interrupted by SIGILL, printing backtrace\n"),
            CrashLine::Frames(0, 30),
            text(""),
            text(REPORT),
            text("note: backtrace dumped due to SIGILL! resuming signal"),
        ]
    );
}

#[test]
fn deep_segfault_without_cycle_is_reported_as_overflow() {
    let stack: Vec<usize> = (0..129).collect();
    let lines = crash_report_lines(&stack, FatalSignal::Segv);
    assert_eq!(
        lines,
        vec![
            text("error: kival interrupted by SIGSEGV, printing backtrace\n"),
            CrashLine::Frames(0, 129),
            text(""),
            text(OVERFLOW),
            text(REPORT),
            text(HELP),
            text("note: backtrace dumped due to SIGSEGV! resuming signal"),
        ]
    );
}

#[test]
fn equal_chunks_are_counted_even_when_not_adjacent_to_the_first() {
    let lines = crash_report_lines(&vec![5, 5, 6, 7, 7], FatalSignal::Other);
    assert_eq!(
        lines,
        vec![
            text("error: kival interrupted by <unknown>, printing backtrace\n"),
            CrashLine::Frames(0, 0),
            text("\n### cycle encountered after 0 frames with period 1"),
            CrashLine::Frames(0, 1),
            text("### recursed 3 times\n"),
            CrashLine::Frames(3, 5),
            text(""),
            text(REPORT),
        ]
    );
}
