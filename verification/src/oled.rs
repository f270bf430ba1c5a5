//! The Inland SH1106 OLED's text mode and scrolling log: multi-line text
//! validation against the panel's geometry, a fixed-capacity circular buffer
//! of the most recent log lines, and the refresh throttle that bounds how
//! often a rendering is pushed over the slow transport. The SPI transport
//! itself lives outside this crate.

use vstd::prelude::*;

use crate::text::contains_nl;
use crate::text::first_nl;
use crate::text::lemma_first_nl;

verus! {

pub const INLAND_SH1106_WIDTH: u8 = 128;

pub const INLAND_SH1106_HEIGHT: u8 = 64;

pub const INLAND_SH1106_TEXT_LINE_HEIGHT: i32 = 6;

pub const INLAND_SH1106_MAX_TEXT_LINES: usize = 10;

pub const INLAND_SH1106_MAX_CHARS_PER_LINE: usize = 32;

pub const INLAND_SH1106_LOGS_REFRESH_INTERVAL_MS: u64 = 75;

/// Faults of the OLED driver. The transport variants are produced by the
/// display wiring outside this crate; the content variants come from the
/// geometry checks in this module.
#[derive(Debug, Clone, Copy, PartialEq, Eq, Structural)]
pub enum InlandSh1106OledError {
    Communication,
    Pin,
    TooManyLines { actual_lines: usize, max_lines: usize },
    LineTooLong { line_index: usize, actual_chars: usize, max_chars: usize },
}

/// The newline-separated segments of `s`, in order. Unlike the two-row
/// splitter's line count, a trailing newline here opens a final empty
/// segment.
pub open spec fn lines_of(s: Seq<char>) -> Seq<Seq<char>>
    decreases s.len(),
    via lines_of_decreases
{
    if !contains_nl(s) {
        seq![s]
    } else {
        seq![s.take(first_nl(s))] + lines_of(s.skip(first_nl(s) + 1))
    }
}

#[via_fn]
proof fn lines_of_decreases(s: Seq<char>) {
    lemma_first_nl(s);
}

/// Index of the first segment of `ls` longer than the panel's 32 columns
/// (`ls.len()` if none).
pub open spec fn first_long(ls: Seq<Seq<char>>) -> int
    decreases ls.len(),
{
    if ls.len() == 0 {
        0
    } else if ls[0].len() > 32 {
        0
    } else {
        1 + first_long(ls.drop_first())
    }
}

pub proof fn lemma_first_long(ls: Seq<Seq<char>>)
    ensures
        0 <= first_long(ls) <= ls.len(),
        forall|j: int| 0 <= j < first_long(ls) ==> (#[trigger] ls[j]).len() <= 32,
        first_long(ls) < ls.len() ==> ls[first_long(ls)].len() > 32,
    decreases ls.len(),
{
    if ls.len() > 0 && ls[0].len() <= 32 {
        lemma_first_long(ls.drop_first());
        assert forall|j: int| 0 <= j < first_long(ls) implies (#[trigger] ls[j]).len() <= 32 by {
            if j > 0 {
                assert(ls[j] == ls.drop_first()[j - 1]);
            }
        }
    }
}

/// Whether `s` fits the panel's text mode: at most 10 newline-separated
/// segments, each at most 32 characters.
pub open spec fn oled_text_ok(s: Seq<char>) -> bool {
    &&& lines_of(s).len() <= 10
    &&& first_long(lines_of(s)) == lines_of(s).len()
}

/// The fault reported for text that does not fit the panel: an over-length
/// segment among the first ten is reported first (as the scan of the
/// segments in order meets it), otherwise the segment count.
pub open spec fn oled_text_error_of(s: Seq<char>) -> InlandSh1106OledError {
    let ls = lines_of(s);
    if first_long(ls) < ls.len() && first_long(ls) < 10 {
        InlandSh1106OledError::LineTooLong {
            line_index: first_long(ls) as usize,
            actual_chars: ls[first_long(ls)].len() as usize,
            max_chars: 32,
        }
    } else {
        InlandSh1106OledError::TooManyLines { actual_lines: ls.len() as usize, max_lines: 10 }
    }
}

/// The newline-separated segments of `value`, in order.
fn collect_segments(value: &str) -> (r: Vec<String>)
    ensures
        r@.len() == lines_of(value@).len(),
        forall|j: int| 0 <= j < r@.len() ==> (#[trigger] r@[j])@ == lines_of(value@)[j],
    decreases value@.len(),
{
    let n = value.unicode_len();
    let p = crate::text::first_newline(value);
    proof {
        lemma_first_nl(value@);
    }
    if p < n {
        let seg = value.substring_char(0, p);
        let tail = value.substring_char(p + 1, n);
        proof {
            assert(seg@ =~= value@.take(p as int));
            assert(tail@ =~= value@.skip(p + 1));
        }
        let mut v = collect_segments(tail);
        v.insert(0, String::from_str(seg));
        proof {
            assert(lines_of(value@) =~= seq![value@.take(first_nl(value@))] + lines_of(
                value@.skip(first_nl(value@) + 1),
            ));
        }
        v
    } else {
        let mut v: Vec<String> = Vec::new();
        v.push(String::from_str(value));
        v
    }
}

/// Check multi-line text against the panel's text mode geometry (up to 10
/// lines of up to 32 characters) and hand back the lines.
pub fn validate_text_lines(value: &str) -> (r: Result<Vec<String>, InlandSh1106OledError>)
    ensures
        r is Ok <==> oled_text_ok(value@),
        r matches Ok(v) ==> {
            &&& v@.len() == lines_of(value@).len()
            &&& forall|j: int| 0 <= j < v@.len() ==> (#[trigger] v@[j])@ == lines_of(value@)[j]
        },
        r matches Err(e) ==> e == oled_text_error_of(value@),
{
    let v = collect_segments(value);
    let limit = if v.len() < INLAND_SH1106_MAX_TEXT_LINES {
        v.len()
    } else {
        INLAND_SH1106_MAX_TEXT_LINES
    };
    let ghost ls = lines_of(value@);
    let mut k: usize = 0;
    while k < limit
        invariant
            limit <= v@.len(),
            limit == if v@.len() < 10 {
                v@.len() as int
            } else {
                10
            },
            k <= limit,
            ls == lines_of(value@),
            v@.len() == ls.len(),
            forall|j: int| 0 <= j < v@.len() ==> (#[trigger] v@[j])@ == ls[j],
            forall|j: int| 0 <= j < k ==> (#[trigger] ls[j]).len() <= 32,
        decreases limit - k,
    {
        let c = v[k].as_str().unicode_len();
        if c > INLAND_SH1106_MAX_CHARS_PER_LINE {
            proof {
                lemma_first_long(ls);
                assert(first_long(ls) == k);
            }
            return Err(
                InlandSh1106OledError::LineTooLong {
                    line_index: k,
                    actual_chars: c,
                    max_chars: INLAND_SH1106_MAX_CHARS_PER_LINE,
                },
            );
        }
        k = k + 1;
    }
    proof {
        lemma_first_long(ls);
    }
    if v.len() > INLAND_SH1106_MAX_TEXT_LINES {
        return Err(
            InlandSh1106OledError::TooManyLines {
                actual_lines: v.len(),
                max_lines: INLAND_SH1106_MAX_TEXT_LINES,
            },
        );
    }
    Ok(v)
}

/// Check lines already split (one per panel row, in order) against the
/// panel's text mode geometry. Unlike the free-form check, the row count
/// is known up front here, so it is checked before any row's length.
pub fn validate_text_slice(lines: &Vec<String>) -> (r: Result<(), InlandSh1106OledError>)
    ensures
        ({
            let ls = lines@.map_values(|s: String| s@);
            &&& (r is Ok <==> ls.len() <= 10 && first_long(ls) == ls.len())
            &&& (r matches Err(e) ==> e == (if ls.len() > 10 {
                InlandSh1106OledError::TooManyLines { actual_lines: ls.len() as usize, max_lines: 10 }
            } else {
                InlandSh1106OledError::LineTooLong {
                    line_index: first_long(ls) as usize,
                    actual_chars: ls[first_long(ls)].len() as usize,
                    max_chars: 32,
                }
            }))
        }),
{
    let ghost ls = lines@.map_values(|s: String| s@);
    if lines.len() > INLAND_SH1106_MAX_TEXT_LINES {
        return Err(
            InlandSh1106OledError::TooManyLines {
                actual_lines: lines.len(),
                max_lines: INLAND_SH1106_MAX_TEXT_LINES,
            },
        );
    }
    let mut k: usize = 0;
    while k < lines.len()
        invariant
            k <= lines@.len(),
            ls == lines@.map_values(|s: String| s@),
            ls.len() == lines@.len(),
            ls.len() <= 10,
            forall|j: int| 0 <= j < k ==> (#[trigger] ls[j]).len() <= 32,
        decreases lines@.len() - k,
    {
        let c = lines[k].as_str().unicode_len();
        proof {
            assert(ls[k as int] == lines@[k as int]@);
        }
        if c > INLAND_SH1106_MAX_CHARS_PER_LINE {
            proof {
                lemma_first_long(ls);
                assert(first_long(ls) == k);
            }
            return Err(
                InlandSh1106OledError::LineTooLong {
                    line_index: k,
                    actual_chars: c,
                    max_chars: INLAND_SH1106_MAX_CHARS_PER_LINE,
                },
            );
        }
        k = k + 1;
    }
    proof {
        lemma_first_long(ls);
    }
    Ok(())
}

/// A log message as stored: cut to the panel's 32 columns.
pub open spec fn trunc_line(m: Seq<char>) -> Seq<char> {
    if m.len() <= 32 {
        m
    } else {
        m.take(32)
    }
}

/// What one insertion does to the held entries (oldest first): append, and
/// once the 10 slots are full, evict the oldest.
pub open spec fn ring_push(v: Seq<Seq<char>>, m: Seq<char>) -> Seq<Seq<char>> {
    if v.len() < 10 {
        v.push(m)
    } else {
        v.skip(1).push(m)
    }
}

/// Fixed-capacity circular store of the most recent log lines, oldest
/// first. Insertion is O(1); once the 10 slots are full the logically
/// oldest entry is overwritten.
#[derive(Debug)]
pub struct LogRingBuffer {
    slots: Vec<String>,
    head: usize,
    count: usize,
}

impl View for LogRingBuffer {
    type V = Seq<Seq<char>>;

    /// The held entries, oldest first.
    closed spec fn view(&self) -> Seq<Seq<char>> {
        Seq::new(self.count as nat, |i: int| self.slots@[(self.head + i) % 10]@)
    }
}

impl LogRingBuffer {
    /// The store's invariant: 10 physical slots, indices in range, every
    /// slot within the panel's 32 columns.
    pub closed spec fn wf(&self) -> bool {
        &&& self.slots@.len() == 10
        &&& self.head < 10
        &&& self.count <= 10
        &&& forall|i: int| 0 <= i < 10 ==> (#[trigger] self.slots@[i])@.len() <= 32
    }

    pub fn new() -> (r: LogRingBuffer)
        ensures
            r.wf(),
            r@ =~= Seq::<Seq<char>>::empty(),
    {
        let mut slots: Vec<String> = Vec::new();
        let mut i: usize = 0;
        while i < 10
            invariant
                i <= 10,
                slots@.len() == i,
                forall|j: int| 0 <= j < i ==> (#[trigger] slots@[j])@.len() == 0,
            decreases 10 - i,
        {
            slots.push(String::new());
            i = i + 1;
        }
        LogRingBuffer { slots, head: 0, count: 0 }
    }

    /// How many entries are held.
    pub fn len(&self) -> (r: usize)
        ensures
            r == self@.len(),
    {
        self.count
    }

    /// Insert `msg`, cut to 32 characters; once full, the oldest entry is
    /// evicted. Never fails.
    pub fn push(&mut self, msg: &str)
        requires
            old(self).wf(),
        ensures
            final(self).wf(),
            final(self)@ =~= ring_push(old(self)@, trunc_line(msg@)),
    {
        let insert_at = if self.count < 10 {
            let idx = (self.head + self.count) % 10;
            self.count = self.count + 1;
            idx
        } else {
            let idx = self.head;
            self.head = (self.head + 1) % 10;
            idx
        };
        let n = msg.unicode_len();
        let t = if n <= 32 {
            String::from_str(msg)
        } else {
            String::from_str(msg.substring_char(0, 32))
        };
        self.slots[insert_at] = t;
    }

    /// The rendering view: always exactly 10 lines, the empty padding
    /// first, then the held entries oldest first, so new entries appear to
    /// scroll in from the bottom of the panel.
    pub fn render(&self) -> (r: Vec<String>)
        requires
            self.wf(),
        ensures
            r@.len() == 10,
            forall|j: int| 0 <= j < 10 - self@.len() ==> (#[trigger] r@[j])@.len() == 0,
            forall|j: int|
                0 <= j < self@.len() ==> (#[trigger] r@[10 - self@.len() + j])@ == self@[j],
            forall|j: int| 0 <= j < 10 ==> (#[trigger] r@[j])@.len() <= 32,
    {
        let mut out: Vec<String> = Vec::new();
        let pad = 10 - self.count;
        let mut j: usize = 0;
        while j < pad
            invariant
                j <= pad,
                out@.len() == j,
                forall|i: int| 0 <= i < j ==> (#[trigger] out@[i])@.len() == 0,
            decreases pad - j,
        {
            out.push(String::new());
            j = j + 1;
        }
        let mut i: usize = 0;
        while i < self.count
            invariant
                self.wf(),
                i <= self.count,
                pad == 10 - self.count,
                out@.len() == pad + i,
                forall|k: int| 0 <= k < pad ==> (#[trigger] out@[k])@.len() == 0,
                forall|k: int| 0 <= k < i ==> (#[trigger] out@[pad + k])@ == self@[k],
                forall|k: int| 0 <= k < out@.len() ==> (#[trigger] out@[k])@.len() <= 32,
            decreases self.count - i,
        {
            let idx = (self.head + i) % 10;
            let entry = self.slots[idx].clone();
            proof {
                assert(entry@.len() <= 32);
            }
            out.push(entry);
            i = i + 1;
        }
        out
    }
}

/// Whether a refresh is due: only a dirty buffer refreshes, and a
/// non-forced refresh additionally waits out the 75 ms interval since the
/// last successful one.
pub open spec fn refresh_due(dirty: bool, last_refresh: Option<u64>, force: bool, now_ms: u64) -> bool {
    dirty && (force || match last_refresh {
        None => true,
        Some(t) => now_ms >= t + 75,
    })
}

/// Rate limiter for pushing renderings to the physical panel: tracks
/// whether the buffer changed since the last successful render and when
/// that render happened, against an externally supplied monotonic clock.
#[derive(Debug, Clone, Copy, PartialEq, Eq, Structural)]
pub struct RefreshThrottle {
    dirty: bool,
    last_refresh: Option<u64>,
}

impl RefreshThrottle {
    /// The buffer changed since the last successful render.
    pub closed spec fn dirty(&self) -> bool {
        self.dirty
    }

    /// When the last successful render happened, if ever.
    pub closed spec fn last_refresh(&self) -> Option<u64> {
        self.last_refresh
    }

    pub fn new() -> (r: RefreshThrottle)
        ensures
            !r.dirty(),
            r.last_refresh() is None,
    {
        RefreshThrottle { dirty: false, last_refresh: None }
    }

    /// Record a change of the buffer; every log call does this whether or
    /// not the content actually differs.
    pub fn mark_dirty(&mut self)
        ensures
            final(self).dirty(),
            final(self).last_refresh() == old(self).last_refresh(),
    {
        self.dirty = true;
    }

    /// Whether a render should happen now.
    pub fn is_due(&self, force: bool, now_ms: u64) -> (r: bool)
        ensures
            r == refresh_due(self.dirty(), self.last_refresh(), force, now_ms),
    {
        if !self.dirty {
            return false;
        }
        if force {
            return true;
        }
        match self.last_refresh {
            None => true,
            Some(t) => now_ms >= t && now_ms - t >= INLAND_SH1106_LOGS_REFRESH_INTERVAL_MS,
        }
    }

    /// Record a successful render at `now_ms`: the buffer is clean and the
    /// interval restarts. A failed render leaves the state untouched, so a
    /// later attempt retries.
    pub fn mark_rendered(&mut self, now_ms: u64)
        ensures
            !final(self).dirty(),
            final(self).last_refresh() == Some(now_ms),
    {
        self.dirty = false;
        self.last_refresh = Some(now_ms);
    }
}

/// `v` is the rendering the panel receives for held entries `lines`:
/// exactly 10 rows of at most 32 characters, the empty padding first, the
/// entries oldest first below it.
pub open spec fn frame_of(lines: Seq<Seq<char>>, v: Seq<String>) -> bool {
    &&& v.len() == 10
    &&& forall|j: int| 0 <= j < 10 - lines.len() ==> (#[trigger] v[j])@.len() == 0
    &&& forall|j: int| 0 <= j < lines.len() ==> (#[trigger] v[10 - lines.len() + j])@ == lines[j]
    &&& forall|j: int| 0 <= j < 10 ==> (#[trigger] v[j])@.len() <= 32
}

/// Law: a rendered log frame always fits the panel's text mode — handing
/// it to the pre-split geometry check can never fail.
pub proof fn lemma_frame_fits_panel(lines: Seq<Seq<char>>, v: Seq<String>)
    requires
        frame_of(lines, v),
    ensures
        ({
            let ls = v.map_values(|s: String| s@);
            &&& ls.len() <= 10
            &&& first_long(ls) == ls.len()
        }),
{
    let ls = v.map_values(|s: String| s@);
    lemma_first_long(ls);
    if first_long(ls) < ls.len() {
        assert(ls[first_long(ls)] == v[first_long(ls)]@);
    }
}

/// The decision core of the scrolling log display: the circular buffer
/// composed with the refresh throttle. When a call hands back a frame, the
/// caller pushes it to the physical panel and reports success through
/// `confirm_rendered`; a failed or skipped render leaves the state dirty so
/// a later call retries.
#[derive(Debug)]
pub struct ThrottledLog {
    ring: LogRingBuffer,
    throttle: RefreshThrottle,
}

impl ThrottledLog {
    pub closed spec fn wf(&self) -> bool {
        self.ring.wf()
    }

    /// The held log lines, oldest first.
    pub closed spec fn lines(&self) -> Seq<Seq<char>> {
        self.ring@
    }

    pub closed spec fn dirty(&self) -> bool {
        self.throttle.dirty()
    }

    pub closed spec fn last_refresh(&self) -> Option<u64> {
        self.throttle.last_refresh()
    }

    pub fn new() -> (r: ThrottledLog)
        ensures
            r.wf(),
            r.lines() =~= Seq::<Seq<char>>::empty(),
            !r.dirty(),
            r.last_refresh() is None,
    {
        ThrottledLog { ring: LogRingBuffer::new(), throttle: RefreshThrottle::new() }
    }

    /// Append `msg` (cut to 32 characters), mark the buffer dirty, and hand
    /// back a frame to render exactly when the non-forced refresh is due.
    pub fn log(&mut self, msg: &str, now_ms: u64) -> (frame: Option<Vec<String>>)
        requires
            old(self).wf(),
        ensures
            final(self).wf(),
            final(self).lines() =~= ring_push(old(self).lines(), trunc_line(msg@)),
            final(self).dirty(),
            final(self).last_refresh() == old(self).last_refresh(),
            frame is Some <==> refresh_due(true, old(self).last_refresh(), false, now_ms),
            frame matches Some(v) ==> frame_of(final(self).lines(), v@),
    {
        self.ring.push(msg);
        self.throttle.mark_dirty();
        if self.throttle.is_due(false, now_ms) {
            Some(self.ring.render())
        } else {
            None
        }
    }

    /// Hand back a frame to render regardless of elapsed time, exactly when
    /// the buffer is dirty.
    pub fn flush(&self, now_ms: u64) -> (frame: Option<Vec<String>>)
        requires
            self.wf(),
        ensures
            frame is Some <==> self.dirty(),
            frame matches Some(v) ==> frame_of(self.lines(), v@),
    {
        if self.throttle.is_due(true, now_ms) {
            Some(self.ring.render())
        } else {
            None
        }
    }

    /// Report that a handed-back frame reached the panel at `now_ms`: the
    /// buffer is clean and the throttle interval restarts.
    pub fn confirm_rendered(&mut self, now_ms: u64)
        ensures
            final(self).wf() == old(self).wf(),
            final(self).lines() == old(self).lines(),
            !final(self).dirty(),
            final(self).last_refresh() == Some(now_ms),
    {
        self.throttle.mark_rendered(now_ms);
    }
}

/// What a burst of insertions, in order, leaves in the ring.
pub open spec fn ring_push_all(v: Seq<Seq<char>>, msgs: Seq<Seq<char>>) -> Seq<Seq<char>>
    decreases msgs.len(),
{
    if msgs.len() == 0 {
        v
    } else {
        ring_push_all(ring_push(v, msgs[0]), msgs.drop_first())
    }
}

/// Law: pushing any burst of messages into the ring retains exactly the
/// most recent 10 of everything it has seen, in insertion order; fewer than
/// 10 are all retained.
pub proof fn lemma_ring_retains_last(v: Seq<Seq<char>>, msgs: Seq<Seq<char>>)
    requires
        v.len() <= 10,
    ensures
        ({
            let all = v + msgs;
            let r = ring_push_all(v, msgs);
            &&& r.len() == if all.len() <= 10 {
                all.len() as int
            } else {
                10
            }
            &&& r =~= all.skip(all.len() - r.len())
        }),
    decreases msgs.len(),
{
    let all = v + msgs;
    let r = ring_push_all(v, msgs);
    if msgs.len() == 0 {
        assert(all =~= v);
    } else {
        let v2 = ring_push(v, msgs[0]);
        let rest = msgs.drop_first();
        lemma_ring_retains_last(v2, rest);
        let all2 = v2 + rest;
        if v.len() < 10 {
            assert(all2 =~= all);
            assert(r =~= all.skip(all.len() - r.len()));
        } else {
            assert(all2 =~= all.skip(1));
            assert(r =~= all.skip(all.len() - r.len()));
        }
    }
}

/// Law: after a successful render at `t0`, a non-forced refresh attempt
/// within the 75 ms interval is a no-op, whatever was logged meanwhile; of
/// two log calls inside one interval of a render, neither renders again.
pub proof fn lemma_throttle_coalesces(t0: u64, now_ms: u64, dirty: bool)
    requires
        now_ms < t0 + 75,
    ensures
        !refresh_due(dirty, Some(t0), false, now_ms),
{
}

/// Law: of two log calls within one interval of each other on a
/// never-rendered dirty buffer, exactly the first renders: it is due at
/// once, and after its render the second is not.
pub proof fn lemma_two_logs_one_render(t1: u64, t2: u64)
    requires
        t1 <= t2 < t1 + 75,
    ensures
        refresh_due(true, None::<u64>, false, t1),
        !refresh_due(true, Some(t1), false, t2),
{
}

/// Law: a forced flush renders exactly when the buffer is dirty, regardless
/// of elapsed time.
pub proof fn lemma_flush_renders_iff_dirty(dirty: bool, last_refresh: Option<u64>, now_ms: u64)
    ensures
        refresh_due(dirty, last_refresh, true, now_ms) == dirty,
{
}

} // verus!
