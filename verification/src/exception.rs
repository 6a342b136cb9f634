//! The diagnostic pipeline: presentable exception records with a message, a
//! chain of underlying causes, captured stack frames, and a filter that
//! bounds which frames are interesting.
//!
//! Native stack captures are read through their debug text; a verified
//! parser extracts the frames, one per line, from entries of the shape
//! `{ fn: "name", file: "path", line: 42 },`.

use crate::intlit;
use crate::outside;
use crate::strutil;
use vstd::prelude::*;

verus! {

use vstd::string::StrSliceExecFns;

/// The mathematical value of a [`FrameSymbol`].
pub struct FrameV {
    pub func: Seq<char>,
    pub file: Option<Seq<char>>,
    pub line: Option<u32>,
}

/// One captured stack frame: the function's name, and its source file and
/// line when they were available.
#[derive(Debug, Clone, PartialEq, Eq)]
pub struct FrameSymbol {
    pub func: String,
    pub file: Option<String>,
    pub line: Option<u32>,
}

impl View for FrameSymbol {
    type V = FrameV;

    open spec fn view(&self) -> FrameV {
        FrameV { func: self.func@, file: self.file.deep_view(), line: self.line }
    }
}

impl DeepView for FrameSymbol {
    type V = FrameV;

    open spec fn deep_view(&self) -> FrameV {
        self.view()
    }
}

impl FrameSymbol {
    /// Whether the frame comes from the `core` or `std` runtime.
    pub fn is_core_or_stdlib(&self) -> (r: bool)
        ensures
            r == (strutil::spec_starts_with(self.func@, "core::"@) || strutil::spec_starts_with(
                self.func@,
                "std::"@,
            )),
    {
        strutil::str_starts_with(self.func.as_str(), "core::") || strutil::str_starts_with(
            self.func.as_str(),
            "std::",
        )
    }
}

/// The first index at or after `i` whose character is not whitespace.
pub open spec fn spec_ws_end(s: Seq<char>, i: int) -> int
    recommends
        0 <= i <= s.len(),
    decreases s.len() - i,
{
    if 0 <= i < s.len() && strutil::is_space(s[i]) {
        spec_ws_end(s, i + 1)
    } else {
        i
    }
}

/// The first index at or after `i` whose character is not a decimal digit.
pub open spec fn spec_digits_end(s: Seq<char>, i: int) -> int
    recommends
        0 <= i <= s.len(),
    decreases s.len() - i,
{
    if 0 <= i < s.len() && intlit::is_digit(s[i]) {
        spec_digits_end(s, i + 1)
    } else {
        i
    }
}

/// The frame parsed from the text at offset `p0`, just after the opening
/// brace: whitespace, `fn:`, a quoted name, a comma, `file:`, a quoted
/// path, a comma, `line:`, digits, whitespace, and the closing `},`.  The
/// line number is kept only when it fits in a `u32`.
pub open spec fn spec_parse_frame_at(s: Seq<char>, p0: int) -> Option<FrameV> {
    let p1 = spec_ws_end(s, p0);
    if !strutil::spec_starts_with(s.skip(p1), "fn:"@) {
        None
    } else {
        let p2 = spec_ws_end(s, p1 + 3);
        if !(p2 < s.len() && s[p2] == '"') {
            None
        } else {
            match strutil::spec_find_char(s.skip(p2 + 1), '"') {
                None => None,
                Some(fl) => {
                    if fl == 0 {
                        None
                    } else {
                        let func = s.skip(p2 + 1).take(fl);
                        let p3 = p2 + 1 + fl + 1;
                        if !strutil::spec_starts_with(s.skip(p3), ","@) {
                            None
                        } else {
                            let p4 = spec_ws_end(s, p3 + 1);
                            if !strutil::spec_starts_with(s.skip(p4), "file:"@) {
                                None
                            } else {
                                spec_parse_frame_tail(s, func, spec_ws_end(s, p4 + 5))
                            }
                        }
                    }
                },
            }
        }
    }
}

/// The rest of a frame entry from the quoted file path on.
pub open spec fn spec_parse_frame_tail(s: Seq<char>, func: Seq<char>, p5: int) -> Option<FrameV> {
    if !(p5 < s.len() && s[p5] == '"') {
        None
    } else {
        match strutil::spec_find_char(s.skip(p5 + 1), '"') {
            None => None,
            Some(gl) => {
                if gl == 0 {
                    None
                } else {
                    let file = s.skip(p5 + 1).take(gl);
                    let p6 = p5 + 1 + gl + 1;
                    if !strutil::spec_starts_with(s.skip(p6), ","@) {
                        None
                    } else {
                        let p7 = spec_ws_end(s, p6 + 1);
                        if !strutil::spec_starts_with(s.skip(p7), "line:"@) {
                            None
                        } else {
                            let p8 = spec_ws_end(s, p7 + 5);
                            let p9 = spec_digits_end(s, p8);
                            if p9 == p8 {
                                None
                            } else {
                                let digits = s.subrange(p8, p9);
                                let p10 = spec_ws_end(s, p9);
                                if !strutil::spec_starts_with(s.skip(p10), "},"@) {
                                    None
                                } else {
                                    Some(
                                        FrameV {
                                            func,
                                            file: Some(file),
                                            line: if intlit::digits_val(digits) <= u32::MAX {
                                                Some(intlit::digits_val(digits) as u32)
                                            } else {
                                                None
                                            },
                                        },
                                    )
                                }
                            }
                        }
                    }
                }
            },
        }
    }
}

/// The frame described by one line of a capture's debug text: the entry is
/// read from the line's first opening brace.
pub open spec fn spec_parse_frame_line(line: Seq<char>) -> Option<FrameV> {
    match strutil::spec_find_char(line, '{') {
        None => None,
        Some(b) => spec_parse_frame_at(line, b + 1),
    }
}

} // verus!

verus! {

use vstd::string::StrSliceExecFns as _;

/// The first non-whitespace position at or after `i`.
fn ws_end(s: &str, i: usize) -> (r: usize)
    requires
        i <= s@.len(),
    ensures
        r == spec_ws_end(s@, i as int),
        i <= r <= s@.len(),
{
    let n = s.unicode_len();
    let mut j = i;
    while j < n
        invariant
            i <= j <= n,
            n == s@.len(),
            spec_ws_end(s@, i as int) == spec_ws_end(s@, j as int),
        decreases n - j,
    {
        let c = s.get_char(j);
        if !(c == ' ' || c == '\t' || c == '\n' || c == '\r') {
            return j;
        }
        j += 1;
    }
    j
}

/// The first non-digit position at or after `i`.
fn digits_end(s: &str, i: usize) -> (r: usize)
    requires
        i <= s@.len(),
    ensures
        r == spec_digits_end(s@, i as int),
        i <= r <= s@.len(),
        forall|k: int| i <= k < r ==> intlit::is_digit(s@[k]),
{
    let n = s.unicode_len();
    let mut j = i;
    while j < n
        invariant
            i <= j <= n,
            n == s@.len(),
            spec_digits_end(s@, i as int) == spec_digits_end(s@, j as int),
            forall|k: int| i <= k < j ==> intlit::is_digit(s@[k]),
        decreases n - j,
    {
        let c = s.get_char(j);
        if !('0' <= c && c <= '9') {
            return j;
        }
        j += 1;
    }
    j
}

/// Parses one line of a capture's debug text into a frame, if the line
/// holds a complete `{ fn: "...", file: "...", line: N },` entry.
pub fn parse_frame_line(line: &str) -> (r: Option<FrameSymbol>)
    ensures
        match r {
            Some(f) => spec_parse_frame_line(line@) == Some(f@),
            None => spec_parse_frame_line(line@) is None,
        },
{
    proof {
        reveal_strlit("fn:");
        reveal_strlit("file:");
        reveal_strlit("line:");
        reveal_strlit(",");
        reveal_strlit("},");
    }
    let n = line.unicode_len();
    let b = match strutil::find_char(line, '{') {
        Some(b) => b,
        None => {
            return None;
        },
    };
    let p1 = ws_end(line, b + 1);
    if !strutil::str_starts_with(line.substring_char(p1, n), "fn:") {
        return None;
    }
    let p2 = ws_end(line, p1 + 3);
    if !(p2 < n && line.get_char(p2) == '"') {
        return None;
    }
    let fl = match strutil::find_char(line.substring_char(p2 + 1, n), '"') {
        Some(i) => i,
        None => {
            return None;
        },
    };
    if fl == 0 {
        return None;
    }
    let func = line.substring_char(p2 + 1, p2 + 1 + fl).to_owned();
    proof {
        assert(func@ =~= line@.skip(p2 + 1).take(fl as int));
    }
    let p3 = p2 + 1 + fl + 1;
    if !strutil::str_starts_with(line.substring_char(p3, n), ",") {
        return None;
    }
    let p4 = ws_end(line, p3 + 1);
    if !strutil::str_starts_with(line.substring_char(p4, n), "file:") {
        return None;
    }
    let p5 = ws_end(line, p4 + 5);
    if !(p5 < n && line.get_char(p5) == '"') {
        return None;
    }
    let gl = match strutil::find_char(line.substring_char(p5 + 1, n), '"') {
        Some(i) => i,
        None => {
            return None;
        },
    };
    if gl == 0 {
        return None;
    }
    let file = line.substring_char(p5 + 1, p5 + 1 + gl).to_owned();
    proof {
        assert(file@ =~= line@.skip(p5 + 1).take(gl as int));
    }
    let p6 = p5 + 1 + gl + 1;
    if !strutil::str_starts_with(line.substring_char(p6, n), ",") {
        return None;
    }
    let p7 = ws_end(line, p6 + 1);
    if !strutil::str_starts_with(line.substring_char(p7, n), "line:") {
        return None;
    }
    let p8 = ws_end(line, p7 + 5);
    let p9 = digits_end(line, p8);
    if p9 == p8 {
        return None;
    }
    let digits = line.substring_char(p8, p9);
    let p10 = ws_end(line, p9);
    if !strutil::str_starts_with(line.substring_char(p10, n), "},") {
        return None;
    }
    proof {
        assert(digits@ =~= line@.subrange(p8 as int, p9 as int));
        assert(intlit::int_body(digits@) =~= digits@);
        assert(intlit::all_digits(digits@));
        intlit::lemma_digits_val_nonneg(digits@);
    }
    let line_no: Option<u32> = match intlit::parse_i64(digits) {
        Some(v) => if v <= u32::MAX as i64 {
            Some(v as u32)
        } else {
            None
        },
        None => None,
    };
    Some(FrameSymbol { func, file: Some(file), line: line_no })
}

/// The lines of a text, split at line feeds.
pub open spec fn spec_lines(s: Seq<char>) -> Seq<Seq<char>>
    decreases s.len() via spec_lines_decreases
{
    match strutil::spec_find_char(s, '\n') {
        None => seq![s],
        Some(i) => seq![s.take(i)] + spec_lines(s.skip(i + 1)),
    }
}

#[via_fn]
proof fn spec_lines_decreases(s: Seq<char>) {
    strutil::lemma_find_char_in_range(s, '\n');
}

/// The frames of a list of lines, one per line that parses.
pub open spec fn spec_frames_of_lines(ls: Seq<Seq<char>>) -> Seq<FrameV>
    decreases ls.len(),
{
    if ls.len() == 0 {
        Seq::empty()
    } else {
        match spec_parse_frame_line(ls[0]) {
            Some(f) => seq![f] + spec_frames_of_lines(ls.drop_first()),
            None => spec_frames_of_lines(ls.drop_first()),
        }
    }
}

/// The frames held in a capture's debug text.
pub open spec fn spec_parse_frames(text: Seq<char>) -> Seq<FrameV> {
    spec_frames_of_lines(spec_lines(text))
}

/// Extracts the stack frames from a capture's debug text, line by line.
pub fn parse_frames_text(text: &str) -> (r: Vec<FrameSymbol>)
    ensures
        r.deep_view() == spec_parse_frames(text@),
{
    let n = text.unicode_len();
    let mut out: Vec<FrameSymbol> = Vec::new();
    let mut p: usize = 0;
    let mut done = false;
    proof {
        assert(out.deep_view() =~= Seq::<FrameV>::empty());
        assert(text@.skip(0) =~= text@);
    }
    while !done
        invariant
            0 <= p <= n,
            n == text@.len(),
            !done ==> spec_parse_frames(text@) == out.deep_view() + spec_frames_of_lines(
                spec_lines(text@.skip(p as int)),
            ),
            done ==> spec_parse_frames(text@) == out.deep_view(),
        decreases n - p + (if done { 0int } else { 1int }),
    {
        let rest = text.substring_char(p, n);
        proof {
            assert(rest@ =~= text@.skip(p as int));
        }
        let (line, next, finish): (&str, usize, bool) = match strutil::find_char(rest, '\n') {
            Some(i) => (text.substring_char(p, p + i), p + i + 1, false),
            None => (rest, p, true),
        };
        proof {
            if !finish {
                let i = next - p - 1;
                assert(line@ =~= rest@.take(i as int));
                assert(text@.skip(next as int) =~= rest@.skip(i + 1));
            }
        }
        let ghost ls = spec_lines(text@.skip(p as int));
        proof {
            if finish {
                assert(ls == seq![rest@]);
            } else {
                assert(ls == seq![line@] + spec_lines(text@.skip(next as int)));
                assert(ls[0] == line@);
                assert(ls.drop_first() =~= spec_lines(text@.skip(next as int)));
            }
        }
        let ghost old_dv = out.deep_view();
        match parse_frame_line(line) {
            Some(f) => {
                let ghost fv = f@;
                out.push(f);
                proof {
                    assert(out.deep_view() =~= old_dv.push(fv));
                    assert(old_dv + (seq![fv] + spec_frames_of_lines(ls.drop_first())) =~= out.deep_view()
                        + spec_frames_of_lines(ls.drop_first()));
                }
            },
            None => {},
        }
        proof {
            if finish {
                assert(ls.drop_first() =~= Seq::<Seq<char>>::empty());
                assert(spec_frames_of_lines(ls.drop_first()) =~= Seq::<FrameV>::empty());
                assert(out.deep_view() + Seq::<FrameV>::empty() =~= out.deep_view());
            }
        }
        if finish {
            done = true;
        } else {
            p = next;
        }
    }
    out
}

} // verus!

verus! {

/// A presentable exception record: a message, the chain of underlying
/// causes in their original order, the captured stack frames, and the
/// optional start and end function names that bound the interesting frames.
#[derive(Debug)]
pub struct ExceptionWithTrace {
    pub message: Option<String>,
    pub sources: Vec<String>,
    pub frames: Vec<FrameSymbol>,
    pub filtered_range: (Option<String>, Option<String>),
}

impl ExceptionWithTrace {
    /// A record with no cause chain; the frames are read from the capture's
    /// debug text when one is given.
    pub fn new(message: Option<String>, trace: Option<&std::backtrace::Backtrace>) -> (r: Self)
        ensures
            r.message == message,
            r.sources@.len() == 0,
            r.filtered_range.0 is None && r.filtered_range.1 is None,
            trace is None ==> r.frames@.len() == 0,
    {
        Self::with_sources(message, Vec::new(), trace)
    }

    /// A record with a cause chain; the frames are read from the capture's
    /// debug text when one is given.
    pub fn with_sources(
        message: Option<String>,
        sources: Vec<String>,
        trace: Option<&std::backtrace::Backtrace>,
    ) -> (r: Self)
        ensures
            r.message == message,
            r.sources == sources,
            r.filtered_range.0 is None && r.filtered_range.1 is None,
            trace is None ==> r.frames@.len() == 0,
    {
        let frames = match trace {
            Some(t) => Self::parse_frames(t),
            None => Vec::new(),
        };
        ExceptionWithTrace { message, sources, frames, filtered_range: (None, None) }
    }

    /// Reads the frames out of a native capture, through its debug text.
    /// What the text holds depends on the capture, so nothing more exact
    /// than the parse itself can be promised of the result.
    pub fn parse_frames(trace: &std::backtrace::Backtrace) -> Vec<FrameSymbol> {
        let text = outside::backtrace_debug_text(trace);
        parse_frames_text(text.as_str())
    }
}

/// The first line of a message: everything before the first line feed.
pub open spec fn spec_first_line(s: Seq<char>) -> Seq<char> {
    match strutil::spec_find_char(s, '\n') {
        Some(i) => s.take(i),
        None => s,
    }
}

/// Cuts a message down to its first line.
pub fn first_line(s: &str) -> (r: String)
    ensures
        r@ == spec_first_line(s@),
{
    match strutil::find_char(s, '\n') {
        Some(i) => {
            let n = s.unicode_len();
            let cut = s.substring_char(0, i);
            proof {
                assert(cut@ =~= s@.take(spec_first_line(s@).len() as int));
            }
            cut.to_owned()
        },
        None => s.to_owned(),
    }
}

/// A frame of the always-skipped panic machinery.
pub open spec fn is_noise(f: FrameV) -> bool {
    f.func == "core::panicking::panic_fmt"@ || f.func == "core::result::unwrap_failed"@ || f.func
        == "core::result::Result<T,E>::expect"@
}

fn clone_frame(f: &FrameSymbol) -> (r: FrameSymbol)
    ensures
        r@ == f@,
{
    FrameSymbol {
        func: f.func.clone(),
        file: match &f.file {
            Some(x) => Some(x.clone()),
            None => None,
        },
        line: f.line,
    }
}

fn is_noise_exec(f: &FrameSymbol) -> (r: bool)
    ensures
        r == is_noise(f@),
{
    strutil::str_eq(f.func.as_str(), "core::panicking::panic_fmt") || strutil::str_eq(
        f.func.as_str(),
        "core::result::unwrap_failed",
    ) || strutil::str_eq(f.func.as_str(), "core::result::Result<T,E>::expect")
}

/// The interesting frames from position `i` on.  Before the start name has
/// been seen, frames are only consumed: the one equal to the start name
/// flips `saw` and is itself skipped.  After that, walking stops at the
/// first frame whose name starts with the end name, panic machinery is
/// skipped, and every other frame is yielded with its index.
pub open spec fn spec_filtered_from(
    frames: Seq<FrameV>,
    i: int,
    saw: bool,
    start: Option<Seq<char>>,
    end: Option<Seq<char>>,
) -> Seq<(int, FrameV)>
    decreases frames.len() - i,
{
    if i < 0 || i >= frames.len() {
        Seq::empty()
    } else if !saw {
        if start matches Some(s) && frames[i].func == s {
            spec_filtered_from(frames, i + 1, true, start, end)
        } else {
            spec_filtered_from(frames, i + 1, false, start, end)
        }
    } else if end matches Some(e) && strutil::spec_starts_with(frames[i].func, e) {
        Seq::empty()
    } else if is_noise(frames[i]) {
        spec_filtered_from(frames, i + 1, true, start, end)
    } else {
        seq![(i, frames[i])] + spec_filtered_from(frames, i + 1, true, start, end)
    }
}

/// The filtered frames of a whole record.
pub open spec fn spec_filtered_frames(e: ExceptionWithTrace) -> Seq<(int, FrameV)> {
    spec_filtered_from(
        e.frames.deep_view(),
        0,
        e.filtered_range.0 is None,
        e.filtered_range.0.deep_view(),
        e.filtered_range.1.deep_view(),
    )
}

/// The view of an indexed frame list.
pub open spec fn indexed_frames_view(r: Seq<(usize, FrameSymbol)>) -> Seq<(int, FrameV)> {
    r.map_values(|p: (usize, FrameSymbol)| (p.0 as int, p.1@))
}

impl ExceptionWithTrace {
    /// The interesting frames, each with its index in the stored list:
    /// frames up to and including the first one named exactly like the
    /// range's start (when set) are skipped, walking stops at the first
    /// frame whose name starts with the range's end (when set), and panic
    /// machinery frames are always skipped.  The result derives from the
    /// stored frames and range alone, so repeated calls agree.
    pub fn filtered_frames(&self) -> (r: Vec<(usize, FrameSymbol)>)
        ensures
            indexed_frames_view(r@) == spec_filtered_frames(*self),
    {
        let ghost fv = self.frames.deep_view();
        let mut saw = self.filtered_range.0.is_none();
        let mut out: Vec<(usize, FrameSymbol)> = Vec::new();
        let mut i: usize = 0;
        proof {
            assert(fv.len() == self.frames@.len());
            assert(indexed_frames_view(out@) =~= Seq::<(int, FrameV)>::empty());
        }
        while i < self.frames.len()
            invariant
                0 <= i <= self.frames@.len(),
                fv == self.frames.deep_view(),
                fv.len() == self.frames@.len(),
                spec_filtered_frames(*self) == indexed_frames_view(out@) + spec_filtered_from(
                    fv,
                    i as int,
                    saw,
                    self.filtered_range.0.deep_view(),
                    self.filtered_range.1.deep_view(),
                ),
            decreases self.frames@.len() - i,
        {
            let f = &self.frames[i];
            proof {
                assert(fv[i as int] == self.frames@[i as int]@);
            }
            if !saw {
                if let Some(start) = &self.filtered_range.0 {
                    if strutil::str_eq(f.func.as_str(), start.as_str()) {
                        saw = true;
                    }
                }
            } else {
                let stop = match &self.filtered_range.1 {
                    Some(end) => strutil::str_starts_with(f.func.as_str(), end.as_str()),
                    None => false,
                };
                if stop {
                    proof {
                        assert(spec_filtered_from(
                            fv,
                            i as int,
                            true,
                            self.filtered_range.0.deep_view(),
                            self.filtered_range.1.deep_view(),
                        ) =~= Seq::<(int, FrameV)>::empty());
                        assert(indexed_frames_view(out@) + Seq::<(int, FrameV)>::empty()
                            =~= indexed_frames_view(out@));
                    }
                    return out;
                }
                if !is_noise_exec(f) {
                    let ghost old_iv = indexed_frames_view(out@);
                    let copy = clone_frame(f);
                    out.push((i, copy));
                    proof {
                        assert(indexed_frames_view(out@) =~= old_iv.push((i as int, fv[i as int])));
                        assert(old_iv + (seq![(i as int, fv[i as int])] + spec_filtered_from(
                            fv,
                            i + 1,
                            true,
                            self.filtered_range.0.deep_view(),
                            self.filtered_range.1.deep_view(),
                        )) =~= indexed_frames_view(out@) + spec_filtered_from(
                            fv,
                            i + 1,
                            true,
                            self.filtered_range.0.deep_view(),
                            self.filtered_range.1.deep_view(),
                        ));
                    }
                }
            }
            i += 1;
        }
        proof {
            assert(spec_filtered_from(
                fv,
                self.frames@.len() as int,
                saw,
                self.filtered_range.0.deep_view(),
                self.filtered_range.1.deep_view(),
            ) =~= Seq::<(int, FrameV)>::empty());
            assert(indexed_frames_view(out@) + Seq::<(int, FrameV)>::empty() =~= indexed_frames_view(
                out@,
            ));
        }
        out
    }
}

} // verus!

verus! {

/// The first index at or after `i` whose frame is named exactly `name`.
pub open spec fn spec_first_named(frames: Seq<FrameV>, i: int, name: Seq<char>) -> Option<int>
    decreases frames.len() - i,
{
    if i < 0 || i >= frames.len() {
        None
    } else if frames[i].func == name {
        Some(i)
    } else {
        spec_first_named(frames, i + 1, name)
    }
}

/// The first index at or after `i` whose frame's name starts with `name`.
pub open spec fn spec_first_prefixed(frames: Seq<FrameV>, i: int, name: Seq<char>) -> Option<int>
    decreases frames.len() - i,
{
    if i < 0 || i >= frames.len() {
        None
    } else if strutil::spec_starts_with(frames[i].func, name) {
        Some(i)
    } else {
        spec_first_prefixed(frames, i + 1, name)
    }
}

/// The non-noise frames with indices in `[i, b)`, in order, each with its
/// index.
pub open spec fn spec_between(frames: Seq<FrameV>, i: int, b: int) -> Seq<(int, FrameV)>
    decreases b - i,
{
    if i >= b {
        Seq::empty()
    } else if i < 0 || i >= frames.len() {
        Seq::empty()
    } else if is_noise(frames[i]) {
        spec_between(frames, i + 1, b)
    } else {
        seq![(i, frames[i])] + spec_between(frames, i + 1, b)
    }
}

proof fn lemma_first_named_range(frames: Seq<FrameV>, i: int, name: Seq<char>)
    ensures
        spec_first_named(frames, i, name) matches Some(a) ==> i <= a < frames.len()
            && frames[a].func == name,
    decreases frames.len() - i,
{
    if 0 <= i < frames.len() && frames[i].func != name {
        lemma_first_named_range(frames, i + 1, name);
    }
}

proof fn lemma_first_prefixed_range(frames: Seq<FrameV>, i: int, name: Seq<char>)
    ensures
        spec_first_prefixed(frames, i, name) matches Some(b) ==> i <= b < frames.len(),
    decreases frames.len() - i,
{
    if 0 <= i < frames.len() && !strutil::spec_starts_with(frames[i].func, name) {
        lemma_first_prefixed_range(frames, i + 1, name);
    }
}

proof fn lemma_filtered_before_start(
    frames: Seq<FrameV>,
    i: int,
    sname: Seq<char>,
    end: Option<Seq<char>>,
)
    requires
        0 <= i <= frames.len(),
    ensures
        spec_filtered_from(frames, i, false, Some(sname), end) == match spec_first_named(
            frames,
            i,
            sname,
        ) {
            None => Seq::<(int, FrameV)>::empty(),
            Some(a) => spec_filtered_from(frames, a + 1, true, Some(sname), end),
        },
    decreases frames.len() - i,
{
    if i < frames.len() && frames[i].func != sname {
        lemma_filtered_before_start(frames, i + 1, sname, end);
    }
}

proof fn lemma_filtered_after_start(
    frames: Seq<FrameV>,
    i: int,
    start: Option<Seq<char>>,
    ename: Seq<char>,
)
    requires
        0 <= i <= frames.len(),
    ensures
        spec_filtered_from(frames, i, true, start, Some(ename)) == spec_between(
            frames,
            i,
            match spec_first_prefixed(frames, i, ename) {
                Some(b) => b,
                None => frames.len() as int,
            },
        ),
    decreases frames.len() - i,
{
    lemma_first_prefixed_range(frames, i, ename);
    if i < frames.len() {
        if strutil::spec_starts_with(frames[i].func, ename) {
        } else {
            lemma_filtered_after_start(frames, i + 1, start, ename);
            lemma_first_prefixed_range(frames, i + 1, ename);
        }
    }
}

/// With both bounds set, the filtered frames are exactly the non-noise
/// frames strictly between the first frame named like the start bound and
/// the first later frame whose name begins with the end bound (to the end
/// of the list when no such frame follows); nothing is yielded when the
/// start name never occurs.
pub proof fn lemma_filtered_frames_between(
    frames: Seq<FrameV>,
    sname: Seq<char>,
    ename: Seq<char>,
)
    ensures
        spec_filtered_from(frames, 0, false, Some(sname), Some(ename)) == match spec_first_named(
            frames,
            0,
            sname,
        ) {
            None => Seq::<(int, FrameV)>::empty(),
            Some(a) => spec_between(
                frames,
                a + 1,
                match spec_first_prefixed(frames, a + 1, ename) {
                    Some(b) => b,
                    None => frames.len() as int,
                },
            ),
        },
{
    lemma_filtered_before_start(frames, 0, sname, Some(ename));
    lemma_first_named_range(frames, 0, sname);
    match spec_first_named(frames, 0, sname) {
        None => {},
        Some(a) => {
            lemma_filtered_after_start(frames, a + 1, Some(sname), ename);
        },
    }
}

} // verus!
