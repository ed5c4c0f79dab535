//! The stream scanner: a single forward pass over the input lines.
//!
//! The mathematical model is a fold of a per-line step over the input. The
//! step's state is the contents of the context buffer and the pending
//! after-count; each step also says which lines it emits. For each incoming
//! line, in this order: while the after-count is positive the line is
//! emitted unconditionally as trailing context; otherwise a line matching
//! some pattern has the buffered context flushed before it and re-arms the
//! after-count; otherwise the line is pushed into the bounded buffer,
//! evicting the oldest when full. Nothing is flushed at end of input.

use vstd::prelude::*;
use crate::matcher::{line_matches, patterns_of, views_of, is_match_any};
use crate::ring::{cb_lines, cb_capacity, cb_plain, cb_new, cb_add, cb_drain};

verus! {

/// The state the scanner carries across lines: the buffered before-context
/// (oldest first) and the number of lines still owed as trailing context.
pub ghost struct ScanState {
    pub buf: Seq<Seq<char>>,
    pub after: nat,
}

/// The state at the start of a scan: nothing buffered, nothing owed.
pub open spec fn initial_state() -> ScanState {
    ScanState { buf: Seq::empty(), after: 0 }
}

/// A bounded push: the line is appended and, when the buffer already holds
/// `cap` lines or more, the oldest is dropped; with `cap == 0` the line is
/// dropped at once.
pub open spec fn push_bounded(buf: Seq<Seq<char>>, line: Seq<char>, cap: nat) -> Seq<Seq<char>> {
    if buf.len() < cap {
        buf.push(line)
    } else {
        buf.push(line).drop_first()
    }
}

/// The scanner state after one line, given the state before it.
pub open spec fn step_state(
    patterns: Seq<Seq<char>>,
    before: nat,
    after_cfg: nat,
    st: ScanState,
    line: Seq<char>,
) -> ScanState {
    if st.after > 0 {
        ScanState { buf: st.buf, after: (st.after - 1) as nat }
    } else if line_matches(patterns, line) {
        ScanState { buf: Seq::empty(), after: after_cfg }
    } else {
        ScanState { buf: push_bounded(st.buf, line, before), after: 0 }
    }
}

/// The lines one step emits: the line alone while trailing context is owed;
/// the flushed buffer followed by the line on a match; nothing otherwise.
pub open spec fn step_emit(
    patterns: Seq<Seq<char>>,
    st: ScanState,
    line: Seq<char>,
) -> Seq<Seq<char>> {
    if st.after > 0 {
        seq![line]
    } else if line_matches(patterns, line) {
        st.buf.push(line)
    } else {
        Seq::empty()
    }
}

/// The fold of the step over the whole input: the final state and the
/// concatenation of everything emitted, in order.
pub open spec fn scan(
    patterns: Seq<Seq<char>>,
    before: nat,
    after_cfg: nat,
    lines: Seq<Seq<char>>,
) -> (ScanState, Seq<Seq<char>>)
    decreases lines.len(),
{
    if lines.len() == 0 {
        (initial_state(), Seq::empty())
    } else {
        let (st, out) = scan(patterns, before, after_cfg, lines.drop_last());
        (
            step_state(patterns, before, after_cfg, st, lines.last()),
            out + step_emit(patterns, st, lines.last()),
        )
    }
}

/// Everything the filter writes for the given patterns, context settings
/// and input lines, in order.
pub open spec fn filter_output(
    patterns: Seq<Seq<char>>,
    before: nat,
    after_cfg: nat,
    lines: Seq<Seq<char>>,
) -> Seq<Seq<char>> {
    scan(patterns, before, after_cfg, lines).1
}

/// The stream scanner: compiled patterns, the bounded context buffer, the
/// two context settings, and the pending after-count.
pub struct Scanner {
    pub regexes: Vec<regex::Regex>,
    pub buffer: queues::CircularBuffer<String>,
    pub before_lines: usize,
    pub after_lines: usize,
    pub after_count: usize,
}

impl Scanner {
    /// The pattern set, as the pattern strings of the compiled matchers.
    pub open spec fn patterns(self) -> Seq<Seq<char>> {
        patterns_of(self.regexes@)
    }

    /// The abstract state the scanner is in.
    pub open spec fn state(self) -> ScanState {
        ScanState { buf: cb_lines(self.buffer), after: self.after_count as nat }
    }

    /// The context buffer matches the configured before-count and was made
    /// without default values.
    pub open spec fn inv(self) -> bool {
        &&& cb_capacity(self.buffer) == self.before_lines as nat
        &&& cb_plain(self.buffer)
    }

    /// A fresh scanner over the given compiled patterns and settings.
    pub fn new(regexes: Vec<regex::Regex>, before_lines: usize, after_lines: usize) -> (s: Scanner)
        ensures
            s.inv(),
            s.state() == initial_state(),
            s.patterns() == patterns_of(regexes@),
            s.before_lines == before_lines,
            s.after_lines == after_lines,
    {
        Scanner {
            regexes,
            buffer: cb_new(before_lines),
            before_lines,
            after_lines,
            after_count: 0,
        }
    }

    /// Feed one line to the scanner; the returned lines are what the filter
    /// writes for it, in order: one scanner step of the model.
    pub fn process_line(&mut self, line: String) -> (out: Vec<String>)
        requires
            old(self).inv(),
        ensures
            final(self).inv(),
            final(self).patterns() == old(self).patterns(),
            final(self).before_lines == old(self).before_lines,
            final(self).after_lines == old(self).after_lines,
            final(self).state() == step_state(
                old(self).patterns(),
                old(self).before_lines as nat,
                old(self).after_lines as nat,
                old(self).state(),
                line@,
            ),
            views_of(out@) == step_emit(old(self).patterns(), old(self).state(), line@),
    {
        if self.after_count > 0 {
            self.after_count = self.after_count - 1;
            let mut out: Vec<String> = Vec::new();
            out.push(line);
            assert(views_of(out@) =~= seq![out@[0]@]);
            out
        } else if is_match_any(line.as_str(), &self.regexes) {
            let mut out = cb_drain(&mut self.buffer);
            let ghost flushed = views_of(out@);
            out.push(line);
            self.after_count = self.after_lines;
            assert(views_of(out@) =~= flushed.push(line@));
            out
        } else {
            cb_add(&mut self.buffer, line);
            let out: Vec<String> = Vec::new();
            assert(views_of(out@) =~= Seq::<Seq<char>>::empty());
            out
        }
    }
}

/// Run the whole filter over an input already split into lines: scan them
/// in order and collect everything emitted.
pub fn run_filter(
    regexes: Vec<regex::Regex>,
    before_lines: usize,
    after_lines: usize,
    lines: Vec<String>,
) -> (out: Vec<String>)
    ensures
        views_of(out@) == filter_output(
            patterns_of(regexes@),
            before_lines as nat,
            after_lines as nat,
            views_of(lines@),
        ),
{
    let ghost patterns = patterns_of(regexes@);
    let mut scanner = Scanner::new(regexes, before_lines, after_lines);
    let mut out: Vec<String> = Vec::new();
    let mut i: usize = 0;
    while i < lines.len()
        invariant
            i <= lines@.len(),
            scanner.inv(),
            scanner.patterns() == patterns,
            scanner.before_lines == before_lines,
            scanner.after_lines == after_lines,
            scanner.state() == scan(patterns, before_lines as nat, after_lines as nat,
                views_of(lines@).take(i as int)).0,
            views_of(out@) == scan(patterns, before_lines as nat, after_lines as nat,
                views_of(lines@).take(i as int)).1,
        decreases lines@.len() - i,
    {
        let ghost prefix = views_of(lines@).take(i as int);
        let line = lines[i].clone();
        let mut emitted = scanner.process_line(line);
        let ghost before_out = views_of(out@);
        let ghost emitted_view = views_of(emitted@);
        out.append(&mut emitted);
        i += 1;
        proof {
            let next = views_of(lines@).take(i as int);
            assert(next.drop_last() =~= prefix);
            assert(next.last() == views_of(lines@)[i - 1]);
            assert(views_of(out@) =~= before_out + emitted_view);
        }
    }
    proof {
        assert(views_of(lines@).take(lines@.len() as int) =~= views_of(lines@));
    }
    out
}

} // verus!
