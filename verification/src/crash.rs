//! The report printed when a fatal signal interrupts the process: the captured frames, with a
//! repeated cycle of frames shown once, and the notes that follow them. The signal handler
//! captures the frames and writes the lines.
use vstd::prelude::*;
use crate::text::{append_str, decimal, decimal_string};

verus! {

/// Default stack size suggested when a stack overflow is suspected.
pub const DEFAULT_STACK_SIZE: usize = 8 * 1024 * 1024;

/// Most frames the handler captures.
pub const MAX_FRAMES: usize = 256;

/// The fatal signals that are handled.
#[derive(Debug, Clone, Copy, PartialEq, Eq, Structural)]
pub enum FatalSignal {
    /// Illegal instruction.
    Ill,
    /// Bus error.
    Bus,
    /// Segmentation fault.
    Segv,
    /// Any other signal.
    Other,
}

/// The name of a signal.
pub open spec fn signal_name(s: FatalSignal) -> Seq<char> {
    match s {
        FatalSignal::Ill => "SIGILL"@,
        FatalSignal::Bus => "SIGBUS"@,
        FatalSignal::Segv => "SIGSEGV"@,
        FatalSignal::Other => "<unknown>"@,
    }
}

/// One line of the report: a text, or the frames `[start, end)` resolved to symbols.
#[derive(Debug, PartialEq, Eq)]
pub enum CrashLine {
    /// A text line.
    Text(String),
    /// Captured frames to resolve and print.
    Frames(usize, usize),
}

/// A report line, by value.
pub enum LineView {
    /// A text line.
    Text(Seq<char>),
    /// Captured frames `[start, end)`.
    Frames(int, int),
}

/// A report line by value.
pub open spec fn line_view(l: CrashLine) -> LineView {
    match l {
        CrashLine::Text(s) => LineView::Text(s@),
        CrashLine::Frames(a, b) => LineView::Frames(a as int, b as int),
    }
}

/// Report lines by value.
pub open spec fn lines_view(v: Seq<CrashLine>) -> Seq<LineView> {
    v.map_values(|l: CrashLine| line_view(l))
}

/// First `i >= from` where frame `1 + 2i` equals frame `i`: the runner, two steps at a time,
/// meets the walker.
pub open spec fn meet_from(s: Seq<usize>, from: int) -> Option<int>
    decreases s.len() - from,
{
    if from < 0 || 1 + 2 * from >= s.len() {
        None
    } else if s[1 + 2 * from] == s[from] {
        Some(from)
    } else {
        meet_from(s, from + 1)
    }
}

/// First `j >= from` where frame `period + j` equals frame `j`.
pub open spec fn offset_from(s: Seq<usize>, period: int, from: int) -> Option<int>
    decreases s.len() - from,
{
    if from < 0 || period < 0 || period + from >= s.len() {
        None
    } else if s[period + from] == s[from] {
        Some(from)
    } else {
        offset_from(s, period, from + 1)
    }
}

/// Number of adjacent equal chunks of `period` frames among the whole chunks from `start` on.
pub open spec fn equal_chunks_from(s: Seq<usize>, start: int, period: int) -> nat
    decreases s.len() - start,
{
    if period <= 0 || start < 0 || start + 2 * period > s.len() {
        0
    } else {
        (if s.subrange(start, start + period) == s.subrange(start + period, start + 2 * period) {
            1nat
        } else {
            0nat
        }) + equal_chunks_from(s, start + period, period)
    }
}

/// The cycle found in the frames: offset, period and repetitions; or whether a period was
/// found without an offset, which ends the report after its first line.
pub enum CycleSpec {
    /// No period found.
    NoPeriod,
    /// A period without an offset.
    Broken,
    /// Offset, period and repetition count.
    Found(int, int, int),
}

/// The cycle of the frames.
pub open spec fn cycle_of(s: Seq<usize>) -> CycleSpec {
    match meet_from(s, 0) {
        None => CycleSpec::NoPeriod,
        Some(p) => {
            let period = p + 1;
            match offset_from(s, period, 0) {
                None => CycleSpec::Broken,
                Some(offset) => CycleSpec::Found(offset, period, 1 + equal_chunks_from(s, offset, period) as int),
            }
        },
    }
}

/// The first line of the report.
pub open spec fn header(sig: FatalSignal) -> Seq<char> {
    "error: kival interrupted by "@ + signal_name(sig) + ", printing backtrace\n"@
}

/// The lines after the frames: the notes, and how many lines they take.
pub open spec fn notes(len: int, cyclic: bool, sig: FatalSignal, written: int) -> Seq<LineView> {
    let overflow = (cyclic || len > 128) && sig == FatalSignal::Segv;
    let full = len == MAX_FRAMES;
    let segv = sig == FatalSignal::Segv;
    let total = written + (if overflow {
        1int
    } else {
        0
    }) + (if full {
        1int
    } else {
        0
    }) + 1 + (if segv {
        1int
    } else {
        0
    });
    (if overflow {
        seq![LineView::Text("note: kival unexpectedly overflowed its stack! this is a bug"@)]
    } else {
        Seq::empty()
    }) + (if full {
        seq![LineView::Text("note: maximum backtrace depth reached, frames may have been lost"@)]
    } else {
        Seq::empty()
    }) + seq![LineView::Text("note: we would appreciate a report at https://github.com/selemis-com/kival"@)] + (if segv {
        seq![LineView::Text("help: you can increase kival's stack size by setting RUST_MIN_STACK=16777216"@)]
    } else {
        Seq::empty()
    }) + (if total > 24 {
        seq![LineView::Text("note: backtrace dumped due to "@ + signal_name(sig) + "! resuming signal"@)]
    } else {
        Seq::empty()
    })
}

/// The whole report for the captured frames `s`.
pub open spec fn crash_report(s: Seq<usize>, sig: FatalSignal) -> Seq<LineView> {
    let len = s.len() as int;
    if len == 0 {
        Seq::empty()
    } else {
        let head = seq![LineView::Text(header(sig))];
        match cycle_of(s) {
            CycleSpec::Broken => head,
            CycleSpec::NoPeriod => head + seq![LineView::Frames(0, len), LineView::Text(Seq::empty())] + notes(
                len,
                false,
                sig,
                1 + len + 1,
            ),
            CycleSpec::Found(offset, period, cycles) => {
                let prefix = head + seq![LineView::Frames(0, offset)];
                if cycles > 1 {
                    let consumed = offset + period * cycles;
                    prefix + seq![
                        LineView::Text("\n### cycle encountered after "@ + decimal(offset as nat) + " frames with period "@
                            + decimal(period as nat)),
                        LineView::Frames(offset, offset + period),
                        LineView::Text("### recursed "@ + decimal(cycles as nat) + " times\n"@),
                        LineView::Frames(consumed, len),
                        LineView::Text(Seq::empty()),
                    ] + notes(len, true, sig, 1 + offset + period + 4 + (len - consumed) + 1)
                } else {
                    prefix + seq![LineView::Frames(offset, len), LineView::Text(Seq::empty())] + notes(
                        len,
                        false,
                        sig,
                        1 + offset + (len - offset) + 1,
                    )
                }
            },
        }
    }
}

/// `meet_from` finds a meeting point inside the frames.
proof fn lemma_meet(s: Seq<usize>, from: int)
    requires
        0 <= from,
    ensures
        meet_from(s, from) matches Some(p) ==> from <= p && 1 + 2 * p < s.len(),
    decreases s.len() - from,
{
    if 1 + 2 * from < s.len() && s[1 + 2 * from] != s[from] {
        lemma_meet(s, from + 1);
    }
}

/// `offset_from` finds an offset inside the frames.
proof fn lemma_offset(s: Seq<usize>, period: int, from: int)
    requires
        0 <= from,
    ensures
        offset_from(s, period, from) matches Some(o) ==> from <= o && period + o < s.len(),
    decreases s.len() - from,
{
    if 0 <= period && period + from < s.len() && s[period + from] != s[from] {
        lemma_offset(s, period, from + 1);
    }
}

/// The repeated chunks fit in the frames after `start`, with one chunk to spare.
proof fn lemma_chunks_fit(s: Seq<usize>, start: int, period: int)
    requires
        period > 0,
        0 <= start,
        start + period <= s.len(),
    ensures
        start + period * (1 + equal_chunks_from(s, start, period)) <= s.len(),
    decreases s.len() - start,
{
    let c = equal_chunks_from(s, start, period);
    if start + 2 * period <= s.len() {
        lemma_chunks_fit(s, start + period, period);
        let c2 = equal_chunks_from(s, start + period, period);
        assert(period * (1 + c) <= period + period * (1 + c2)) by (nonlinear_arith)
            requires
                c <= 1 + c2,
                period > 0,
        ;
    } else {
        assert(c == 0);
        assert(period * (1 + c) == period) by (nonlinear_arith)
            requires
                c == 0,
        ;
    }
}


/// Whether every frames line of a report names a range inside a stack of `len` frames.
pub open spec fn frames_in_bounds(lines: Seq<LineView>, len: int) -> bool {
    forall|i: int|
        0 <= i < lines.len() ==> (#[trigger] lines[i] matches LineView::Frames(a, b) ==> 0 <= a <= b <= len)
}

/// The notes are text lines only.
proof fn lemma_notes_are_text(len: int, cyclic: bool, sig: FatalSignal, written: int)
    ensures
        frames_in_bounds(notes(len, cyclic, sig, written), 0),
{
    let n = notes(len, cyclic, sig, written);
    assert forall|i: int| 0 <= i < n.len() implies !(#[trigger] n[i] is Frames) by {
    }
}

/// Appending lines that keep to the bounds keeps to them.
proof fn lemma_bounds_concat(a: Seq<LineView>, b: Seq<LineView>, len: int)
    requires
        frames_in_bounds(a, len),
        frames_in_bounds(b, len),
    ensures
        frames_in_bounds(a + b, len),
{
    assert forall|i: int| 0 <= i < (a + b).len() implies (#[trigger] (a + b)[i] matches LineView::Frames(x, y)
        ==> 0 <= x <= y <= len) by {
        if i >= a.len() {
            assert((a + b)[i] == b[i - a.len()]);
        }
    }
}

/// Every range of frames that a report prints lies inside the captured stack, whatever cycle
/// it found, so the handler never reads past the frames it captured.
pub proof fn report_frames_lie_within_the_stack(s: Seq<usize>, sig: FatalSignal)
    ensures
        frames_in_bounds(crash_report(s, sig), s.len() as int),
{
    let len = s.len() as int;
    if len > 0 {
        lemma_meet(s, 0);
        let head = seq![LineView::Text(header(sig))];
        assert(frames_in_bounds(head, len));
        match cycle_of(s) {
            CycleSpec::Broken => {},
            CycleSpec::NoPeriod => {
                let mid = seq![LineView::Frames(0, len), LineView::Text(Seq::empty())];
                assert(frames_in_bounds(mid, len));
                lemma_notes_are_text(len, false, sig, 1 + len + 1);
                let tail = notes(len, false, sig, 1 + len + 1);
                assert(frames_in_bounds(tail, len));
                lemma_bounds_concat(head, mid, len);
                lemma_bounds_concat(head + mid, tail, len);
            },
            CycleSpec::Found(offset, period, cycles) => {
                let p = meet_from(s, 0)->0;
                assert(period == p + 1);
                lemma_offset(s, period, 0);
                lemma_chunks_fit(s, offset, period);
                let prefix = head + seq![LineView::Frames(0, offset)];
                lemma_bounds_concat(head, seq![LineView::Frames(0, offset)], len);
                if cycles > 1 {
                    let consumed = offset + period * cycles;
                    assert(period * cycles >= period) by (nonlinear_arith)
                        requires
                            cycles > 1,
                            period > 0,
                    ;
                    let mid = seq![
                        LineView::Text("\n### cycle encountered after "@ + decimal(offset as nat) + " frames with period "@
                            + decimal(period as nat)),
                        LineView::Frames(offset, offset + period),
                        LineView::Text("### recursed "@ + decimal(cycles as nat) + " times\n"@),
                        LineView::Frames(consumed, len),
                        LineView::Text(Seq::empty()),
                    ];
                    assert(frames_in_bounds(mid, len));
                    let w = 1 + offset + period + 4 + (len - consumed) + 1;
                    lemma_notes_are_text(len, true, sig, w);
                    assert(frames_in_bounds(notes(len, true, sig, w), len));
                    lemma_bounds_concat(prefix, mid, len);
                    lemma_bounds_concat(prefix + mid, notes(len, true, sig, w), len);
                } else {
                    let mid = seq![LineView::Frames(offset, len), LineView::Text(Seq::empty())];
                    assert(frames_in_bounds(mid, len));
                    let w = 1 + offset + (len - offset) + 1;
                    lemma_notes_are_text(len, false, sig, w);
                    assert(frames_in_bounds(notes(len, false, sig, w), len));
                    lemma_bounds_concat(prefix, mid, len);
                    lemma_bounds_concat(prefix + mid, notes(len, false, sig, w), len);
                }
            },
        }
    }
}

/// The first index `i` where frame `1 + 2i` equals frame `i`.
fn find_meet(s: &Vec<usize>) -> (r: Option<usize>)
    ensures
        match r {
            Some(p) => meet_from(s@, 0) == Some(p as int),
            None => meet_from(s@, 0) is None,
        },
{
    let mut i: usize = 0;
    while i < s.len() / 2
        invariant
            meet_from(s@, 0) == meet_from(s@, i as int),
            i <= s@.len() / 2,
        decreases s@.len() / 2 - i,
    {
        if s[1 + 2 * i] == s[i] {
            return Some(i);
        }
        i += 1;
    }
    None
}

/// The first `j` where frame `period + j` equals frame `j`.
fn find_offset(s: &Vec<usize>, period: usize) -> (r: Option<usize>)
    requires
        period <= s@.len(),
    ensures
        match r {
            Some(o) => offset_from(s@, period as int, 0) == Some(o as int),
            None => offset_from(s@, period as int, 0) is None,
        },
{
    let mut j: usize = 0;
    while j < s.len() - period
        invariant
            period <= s@.len(),
            j <= s@.len() - period,
            offset_from(s@, period as int, 0) == offset_from(s@, period as int, j as int),
        decreases s@.len() - period - j,
    {
        if s[period + j] == s[j] {
            return Some(j);
        }
        j += 1;
    }
    None
}

/// Whether the chunks of `period` frames at `a` and `b` are equal.
fn chunks_equal(s: &Vec<usize>, a: usize, b: usize, period: usize) -> (r: bool)
    requires
        a + period <= s@.len(),
        b + period <= s@.len(),
    ensures
        r == (s@.subrange(a as int, a + period) == s@.subrange(b as int, b + period)),
{
    let mut k: usize = 0;
    while k < period
        invariant
            k <= period,
            a + period <= s.len(),
            b + period <= s.len(),
            forall|t: int| 0 <= t < k ==> #[trigger] s@[a + t] == s@[b + t],
        decreases period - k,
    {
        if s[a + k] != s[b + k] {
            assert(s@.subrange(a as int, a + period)[k as int] != s@.subrange(b as int, b + period)[k as int]);
            return false;
        }
        k += 1;
    }
    assert forall|t: int| 0 <= t < period implies #[trigger] s@.subrange(a as int, a + period)[t]
        == s@.subrange(b as int, b + period)[t] by {
        assert(s@[a + t] == s@[b + t]);
    }
    assert(s@.subrange(a as int, a + period) =~= s@.subrange(b as int, b + period));
    true
}

/// Number of adjacent equal chunks from `start` on.
fn count_equal_chunks(s: &Vec<usize>, start: usize, period: usize) -> (c: usize)
    requires
        period > 0,
        start + period <= s@.len(),
    ensures
        c == equal_chunks_from(s@, start as int, period as int),
        c < s@.len(),
{
    let mut count: usize = 0;
    let mut at = start;
    proof {
        lemma_chunks_fit(s@, start as int, period as int);
        let e = equal_chunks_from(s@, start as int, period as int);
        assert(1 + e <= period * (1 + e)) by (nonlinear_arith)
            requires
                period >= 1,
        ;
    }
    while s.len() - (at + period) >= period
        invariant
            period > 0,
            start <= at,
            at + period <= s@.len(),
            count + equal_chunks_from(s@, at as int, period as int) == equal_chunks_from(s@, start as int, period as int),
            equal_chunks_from(s@, start as int, period as int) < s@.len(),
        decreases s@.len() - at,
    {
        proof {
            lemma_chunks_fit(s@, at as int, period as int);
        }
        if chunks_equal(s, at, at + period, period) {
            count = count + 1;
        }
        at = at + period;
    }
    count
}

/// Appends a text line.
fn push_text(lines: &mut Vec<CrashLine>, text: String)
    ensures
        lines_view(final(lines)@) == lines_view(old(lines)@).push(LineView::Text(text@)),
{
    let ghost before = lines_view(lines@);
    lines.push(CrashLine::Text(text));
    assert(lines_view(lines@) =~= before.push(LineView::Text(text@)));
}

/// Appends a frames line.
fn push_frames(lines: &mut Vec<CrashLine>, a: usize, b: usize)
    ensures
        lines_view(final(lines)@) == lines_view(old(lines)@).push(LineView::Frames(a as int, b as int)),
{
    let ghost before = lines_view(lines@);
    lines.push(CrashLine::Frames(a, b));
    assert(lines_view(lines@) =~= before.push(LineView::Frames(a as int, b as int)));
}

/// Appends the notes after the frames.
fn push_notes(lines: &mut Vec<CrashLine>, len: usize, cyclic: bool, sig: FatalSignal, written: usize)
    requires
        written <= 4 * MAX_FRAMES + 16,
    ensures
        lines_view(final(lines)@) == lines_view(old(lines)@) + notes(len as int, cyclic, sig, written as int),
{
    let ghost before = lines_view(lines@);
    let mut total = written;
    let overflow = (cyclic || len > 128) && sig == FatalSignal::Segv;
    if overflow {
        push_text(lines, "note: kival unexpectedly overflowed its stack! this is a bug".to_owned());
        total = total + 1;
    }
    let ghost a = lines_view(lines@);
    if len == MAX_FRAMES {
        push_text(lines, "note: maximum backtrace depth reached, frames may have been lost".to_owned());
        total = total + 1;
    }
    let ghost b = lines_view(lines@);
    push_text(lines, "note: we would appreciate a report at https://github.com/selemis-com/kival".to_owned());
    total = total + 1;
    let ghost c = lines_view(lines@);
    if sig == FatalSignal::Segv {
        push_text(lines, "help: you can increase kival's stack size by setting RUST_MIN_STACK=16777216".to_owned());
        total = total + 1;
    }
    let ghost d = lines_view(lines@);
    if total > 24 {
        let mut m = "note: backtrace dumped due to ".to_owned();
        append_str(&mut m, signal_str(sig));
        append_str(&mut m, "! resuming signal");
        push_text(lines, m);
    }
    assert(lines_view(lines@) =~= before + notes(len as int, cyclic, sig, written as int));
}

/// The name of a signal.
pub fn signal_str(sig: FatalSignal) -> (s: &'static str)
    ensures
        s@ == signal_name(sig),
{
    match sig {
        FatalSignal::Ill => "SIGILL",
        FatalSignal::Bus => "SIGBUS",
        FatalSignal::Segv => "SIGSEGV",
        FatalSignal::Other => "<unknown>",
    }
}

/// The report for the captured frames: the header, the frames with a repeated cycle shown
/// once, and the notes; nothing when no frame was captured.
pub fn crash_report_lines(stack: &Vec<usize>, sig: FatalSignal) -> (r: Vec<CrashLine>)
    requires
        stack@.len() <= MAX_FRAMES,
    ensures
        lines_view(r@) == crash_report(stack@, sig),
{
    let mut lines: Vec<CrashLine> = Vec::new();
    let len = stack.len();
    if len == 0 {
        assert(lines_view(lines@) =~= Seq::<LineView>::empty());
        return lines;
    }
    let mut h = "error: kival interrupted by ".to_owned();
    append_str(&mut h, signal_str(sig));
    append_str(&mut h, ", printing backtrace\n");
    assert(lines_view(lines@) =~= Seq::<LineView>::empty());
    push_text(&mut lines, h);
    let ghost head = lines_view(lines@);
    assert(head =~= seq![LineView::Text(header(sig))]);
    proof {
        lemma_meet(stack@, 0);
    }
    match find_meet(stack) {
        None => {
            push_frames(&mut lines, 0, len);
            push_text(&mut lines, String::new());
            push_notes(&mut lines, len, false, sig, 1 + len + 1);
            assert(lines_view(lines@) =~= crash_report(stack@, sig));
            lines
        },
        Some(p) => {
            let period = p + 1;
            proof {
                lemma_offset(stack@, period as int, 0);
            }
            let offset = match find_offset(stack, period) {
                Some(o) => o,
                None => {
                    return lines;
                },
            };
            push_frames(&mut lines, 0, offset);
            proof {
                lemma_chunks_fit(stack@, offset as int, period as int);
            }
            let equal = count_equal_chunks(stack, offset, period);
            let cycles = 1 + equal;
            if cycles > 1 {
                let consumed = offset + period * cycles;
                let mut m = "\n### cycle encountered after ".to_owned();
                let o = decimal_string(offset as u64);
                append_str(&mut m, o.as_str());
                append_str(&mut m, " frames with period ");
                let q = decimal_string(period as u64);
                append_str(&mut m, q.as_str());
                push_text(&mut lines, m);
                push_frames(&mut lines, offset, offset + period);
                let mut n = "### recursed ".to_owned();
                let c = decimal_string(cycles as u64);
                append_str(&mut n, c.as_str());
                append_str(&mut n, " times\n");
                push_text(&mut lines, n);
                push_frames(&mut lines, consumed, len);
                push_text(&mut lines, String::new());
                push_notes(&mut lines, len, true, sig, 1 + offset + period + 4 + (len - consumed) + 1);
                assert(lines_view(lines@) =~= crash_report(stack@, sig));
                lines
            } else {
                push_frames(&mut lines, offset, len);
                push_text(&mut lines, String::new());
                push_notes(&mut lines, len, false, sig, 1 + offset + (len - offset) + 1);
                assert(lines_view(lines@) =~= crash_report(stack@, sig));
                lines
            }
        },
    }
}

} // verus!
