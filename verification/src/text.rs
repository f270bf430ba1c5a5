//! Fixed-width display text: the character predicate, the line validator and
//! the two-row content splitter shared by the character displays.

use vstd::prelude::*;

verus! {

/// A character the displays can show: printable ASCII or the space character.
pub open spec fn displayable(c: char) -> bool {
    0x20 <= (c as u32) && (c as u32) <= 0x7e
}

/// Every character of `s` is displayable.
pub open spec fn all_displayable(s: Seq<char>) -> bool {
    forall|i: int| 0 <= i < s.len() ==> displayable(#[trigger] s[i])
}

/// Index of the first non-displayable character of `s` (`s.len()` if none).
pub open spec fn first_bad(s: Seq<char>) -> int
    decreases s.len(),
{
    if s.len() == 0 {
        0
    } else if !displayable(s[0]) {
        0
    } else {
        1 + first_bad(s.drop_first())
    }
}

pub proof fn lemma_first_bad(s: Seq<char>)
    ensures
        0 <= first_bad(s) <= s.len(),
        forall|j: int| 0 <= j < first_bad(s) ==> displayable(#[trigger] s[j]),
        first_bad(s) < s.len() ==> !displayable(s[first_bad(s)]),
        all_displayable(s) <==> first_bad(s) == s.len(),
    decreases s.len(),
{
    if s.len() > 0 && displayable(s[0]) {
        lemma_first_bad(s.drop_first());
        assert(forall|j: int| 0 <= j < first_bad(s) ==> displayable(#[trigger] s[j])) by {
            assert forall|j: int| 0 <= j < first_bad(s) implies displayable(#[trigger] s[j]) by {
                if j > 0 {
                    assert(s[j] == s.drop_first()[j - 1]);
                }
            }
        }
        if first_bad(s) == s.len() {
            assert forall|i: int| 0 <= i < s.len() implies displayable(#[trigger] s[i]) by {
                if i > 0 {
                    assert(s[i] == s.drop_first()[i - 1]);
                }
            }
        }
        if !all_displayable(s) {
            assert(!all_displayable(s.drop_first())) by {
                let i = choose|i: int| 0 <= i < s.len() && !displayable(#[trigger] s[i]);
                assert(s.drop_first()[i - 1] == s[i]);
            }
        }
    }
}

/// A single line fails validation with one of these faults.
#[derive(Debug, Clone, PartialEq, Eq)]
pub enum LineError {
    /// The line holds more characters than the display row can show.
    TooLong { actual: usize, max: usize },
    /// The line holds a character the display cannot show.
    InvalidChar { c: char },
}

/// Whether `s` fits a row of `max` columns: at most `max` characters, all
/// displayable.
pub open spec fn line_ok(s: Seq<char>, max: int) -> bool {
    s.len() <= max && all_displayable(s)
}

/// The fault reported for a line that does not fit a row of `max` columns:
/// over-length is reported first, otherwise the first offending character.
pub open spec fn line_error_of(s: Seq<char>, max: int) -> LineError {
    if s.len() > max {
        LineError::TooLong { actual: s.len() as usize, max: max as usize }
    } else {
        LineError::InvalidChar { c: s[first_bad(s)] }
    }
}

/// Validate one display line: at most `max` characters (counted as
/// characters, not bytes), each printable ASCII or space.
pub fn validate_line(value: &str, max: usize) -> (r: Result<String, LineError>)
    ensures
        r is Ok <==> line_ok(value@, max as int),
        r matches Ok(l) ==> l@ == value@,
        r matches Err(e) ==> e == line_error_of(value@, max as int),
{
    let n = value.unicode_len();
    if n > max {
        return Err(LineError::TooLong { actual: n, max });
    }
    let mut i: usize = 0;
    while i < n
        invariant
            n == value@.len(),
            n <= max,
            i <= n,
            forall|j: int| 0 <= j < i ==> displayable(#[trigger] value@[j]),
        decreases n - i,
    {
        let c = value.get_char(i);
        let u = c as u32;
        if !(0x20 <= u && u <= 0x7e) {
            proof {
                lemma_first_bad(value@);
                assert(first_bad(value@) == i);
            }
            return Err(LineError::InvalidChar { c });
        }
        i = i + 1;
    }
    Ok(String::from_str(value))
}

/// The bounded content preview carried by diagnostics: at most the first 64
/// characters of the offending input.
pub open spec fn preview(s: Seq<char>) -> Seq<char> {
    if s.len() <= 64 {
        s
    } else {
        s.take(64)
    }
}

/// The bounded content preview of `value` for a diagnostic.
pub fn take_preview(value: &str) -> (r: String)
    ensures
        r@ == preview(value@),
{
    let n = value.unicode_len();
    if n <= 64 {
        String::from_str(value)
    } else {
        String::from_str(value.substring_char(0, 64))
    }
}

/// `s` holds at least one newline separator.
pub open spec fn contains_nl(s: Seq<char>) -> bool {
    exists|i: int| 0 <= i < s.len() && s[i] == '\n'
}

/// Index of the first newline of `s` (`s.len()` if none).
pub open spec fn first_nl(s: Seq<char>) -> int
    decreases s.len(),
{
    if s.len() == 0 {
        0
    } else if s[0] == '\n' {
        0
    } else {
        1 + first_nl(s.drop_first())
    }
}

pub proof fn lemma_first_nl(s: Seq<char>)
    ensures
        0 <= first_nl(s) <= s.len(),
        forall|j: int| 0 <= j < first_nl(s) ==> s[j] != '\n',
        first_nl(s) < s.len() ==> s[first_nl(s)] == '\n',
        contains_nl(s) <==> first_nl(s) < s.len(),
    decreases s.len(),
{
    if s.len() > 0 && s[0] != '\n' {
        lemma_first_nl(s.drop_first());
        assert forall|j: int| 0 <= j < first_nl(s) implies s[j] != '\n' by {
            if j > 0 {
                assert(s[j] == s.drop_first()[j - 1]);
            }
        }
        if contains_nl(s) {
            let i = choose|i: int| 0 <= i < s.len() && s[i] == '\n';
            assert(s.drop_first()[i - 1] == s[i]);
        }
        if contains_nl(s.drop_first()) {
            let i = choose|i: int| 0 <= i < s.drop_first().len() && s.drop_first()[i] == '\n';
            assert(s[i + 1] == s.drop_first()[i]);
        }
    }
}

/// Number of newline characters in `s`.
pub open spec fn nl_count(s: Seq<char>) -> nat
    decreases s.len(),
{
    if s.len() == 0 {
        0
    } else {
        nl_count(s.drop_last()) + (if s.last() == '\n' {
            1nat
        } else {
            0nat
        })
    }
}

pub proof fn lemma_nl_count_bound(s: Seq<char>)
    ensures
        nl_count(s) <= s.len(),
        s.len() > 0 && s.last() != '\n' ==> nl_count(s) < s.len(),
    decreases s.len(),
{
    if s.len() > 0 {
        lemma_nl_count_bound(s.drop_last());
    }
}

/// How many lines `s` has, counted as the newline-separated segments except
/// that a final newline does not open an extra empty line (the convention of
/// the surrounding text handling).
pub open spec fn line_count(s: Seq<char>) -> nat {
    if s.len() == 0 {
        0
    } else if s.last() == '\n' {
        nl_count(s)
    } else {
        nl_count(s) + 1
    }
}

/// The characters the first display row receives from input `s`: up to the
/// first newline if there is one, the whole input if it fits `cols` columns,
/// and the first `cols` characters otherwise.
pub open spec fn row1(s: Seq<char>, cols: int) -> Seq<char> {
    if contains_nl(s) {
        s.take(first_nl(s))
    } else if s.len() <= cols {
        s
    } else {
        s.take(cols)
    }
}

/// The characters the second display row receives from input `s`, if any:
/// the segment after the first newline (up to a second newline), or the
/// overflow past the first `cols` characters.
pub open spec fn row2(s: Seq<char>, cols: int) -> Option<Seq<char>> {
    if contains_nl(s) {
        let rest = s.skip(first_nl(s) + 1);
        Some(
            if contains_nl(rest) {
                rest.take(first_nl(rest))
            } else {
                rest
            },
        )
    } else if s.len() <= cols {
        None
    } else {
        Some(s.skip(cols))
    }
}

/// Splitting fails with one of these faults.
#[derive(Debug, Clone, PartialEq, Eq)]
pub enum SplitError {
    /// The input holds more characters than the addressed capacity.
    TooLong { actual: usize, max: usize },
    /// Newline-separated input holds more lines than the display has rows.
    TooManyLines { actual: usize, max: usize },
    /// The input holds a character the display cannot show.
    InvalidChar { c: char },
}

/// A line fault seen while splitting, as a splitting fault.
pub open spec fn widen(e: LineError) -> SplitError {
    match e {
        LineError::TooLong { actual, max } => SplitError::TooLong { actual, max },
        LineError::InvalidChar { c } => SplitError::InvalidChar { c },
    }
}

fn widen_error(e: LineError) -> (r: SplitError)
    ensures
        r == widen(e),
{
    match e {
        LineError::TooLong { actual, max } => SplitError::TooLong { actual, max },
        LineError::InvalidChar { c } => SplitError::InvalidChar { c },
    }
}

/// Whether input `s` splits cleanly onto two rows of `cols` columns: it is
/// empty, or each resulting row fits and the newline-separated line count is
/// within the two rows.
pub open spec fn split_ok(s: Seq<char>, cols: int) -> bool {
    if s.len() == 0 {
        true
    } else if contains_nl(s) {
        &&& line_count(s) <= 2
        &&& line_ok(row1(s, cols), cols)
        &&& line_ok(row2(s, cols)->Some_0, cols)
    } else if s.len() > 2 * cols {
        false
    } else if s.len() <= cols {
        line_ok(s, cols)
    } else {
        &&& line_ok(row1(s, cols), cols)
        &&& line_ok(row2(s, cols)->Some_0, cols)
    }
}

/// The fault reported for an input that does not split onto two rows of
/// `cols` columns: too many lines or whole-content over-length first, then
/// the first row's fault, then the second row's.
pub open spec fn split_error_of(s: Seq<char>, cols: int) -> SplitError {
    if contains_nl(s) {
        if line_count(s) > 2 {
            SplitError::TooManyLines { actual: line_count(s) as usize, max: 2 }
        } else if !line_ok(row1(s, cols), cols) {
            widen(line_error_of(row1(s, cols), cols))
        } else {
            widen(line_error_of(row2(s, cols)->Some_0, cols))
        }
    } else {
        if s.len() > 2 * cols {
            SplitError::TooLong { actual: s.len() as usize, max: (2 * cols) as usize }
        } else if !line_ok(row1(s, cols), cols) {
            widen(line_error_of(row1(s, cols), cols))
        } else {
            widen(line_error_of(row2(s, cols)->Some_0, cols))
        }
    }
}

/// Index of the first newline of `value` (its character count if none).
pub(crate) fn first_newline(value: &str) -> (p: usize)
    ensures
        p == first_nl(value@),
{
    let n = value.unicode_len();
    let mut i: usize = 0;
    while i < n
        invariant
            n == value@.len(),
            i <= n,
            forall|j: int| 0 <= j < i ==> value@[j] != '\n',
        decreases n - i,
    {
        if value.get_char(i) == '\n' {
            proof {
                lemma_first_nl(value@);
            }
            return i;
        }
        i = i + 1;
    }
    proof {
        lemma_first_nl(value@);
    }
    n
}

/// Number of newline characters in `value`.
fn count_newlines(value: &str) -> (k: usize)
    ensures
        k as nat == nl_count(value@),
{
    let n = value.unicode_len();
    let mut i: usize = 0;
    let mut k: usize = 0;
    while i < n
        invariant
            n == value@.len(),
            i <= n,
            k <= i,
            k as nat == nl_count(value@.take(i as int)),
        decreases n - i,
    {
        let c = value.get_char(i);
        proof {
            assert(value@.take(i + 1).drop_last() =~= value@.take(i as int));
            assert(value@.take(i + 1).last() == value@[i as int]);
        }
        if c == '\n' {
            k = k + 1;
        }
        i = i + 1;
    }
    proof {
        assert(value@.take(n as int) =~= value@);
    }
    k
}

/// Split free-form input onto up to two display rows of `cols` columns.
///
/// An empty input yields no rows (the canonical clear request). Input with a
/// newline is split there; more than two resulting lines is a fault, and
/// each line is validated on its own. Input without a newline goes on the
/// first row when it fits, is cut at `cols` onto both rows when at most
/// `2 * cols` characters long, and is a fault otherwise.
pub fn split_content(value: &str, cols: usize) -> (r: Result<(Option<String>, Option<String>), SplitError>)
    requires
        cols <= usize::MAX / 2,
    ensures
        r is Ok <==> split_ok(value@, cols as int),
        r matches Ok(p) ==> (p.0 is Some <==> value@.len() > 0),
        r matches Ok(p) ==> (p.0 matches Some(a) ==> a@ == row1(value@, cols as int)),
        r matches Ok(p) ==> ((p.1 is Some) <==> row2(value@, cols as int) is Some),
        r matches Ok(p) ==> (p.1 matches Some(b) ==> Some(b@) == row2(value@, cols as int)),
        r matches Err(e) ==> e == split_error_of(value@, cols as int),
{
    let n = value.unicode_len();
    if n == 0 {
        return Ok((None, None));
    }
    let p = first_newline(value);
    proof {
        lemma_first_nl(value@);
    }
    if p < n {
        // Newline-separated input: count the lines, then validate each row.
        let nlc = count_newlines(value);
        proof {
            lemma_nl_count_bound(value@);
        }
        let last_is_nl = value.get_char(n - 1) == '\n';
        let lc = if last_is_nl {
            nlc
        } else {
            nlc + 1
        };
        if lc > 2 {
            return Err(SplitError::TooManyLines { actual: lc, max: 2 });
        }
        let l1s = value.substring_char(0, p);
        let rest = value.substring_char(p + 1, n);
        proof {
            assert(l1s@ =~= value@.take(p as int));
            assert(rest@ =~= value@.skip(p + 1));
            lemma_first_nl(rest@);
        }
        let rn = rest.unicode_len();
        let q = first_newline(rest);
        let l2s = if q < rn {
            rest.substring_char(0, q)
        } else {
            rest
        };
        proof {
            if q < rn {
                assert(l2s@ =~= rest@.take(q as int));
            }
        }
        let line1 = match validate_line(l1s, cols) {
            Ok(x) => x,
            Err(e) => {
                return Err(widen_error(e));
            },
        };
        let line2 = match validate_line(l2s, cols) {
            Ok(x) => x,
            Err(e) => {
                return Err(widen_error(e));
            },
        };
        Ok((Some(line1), Some(line2)))
    } else {
        // No newline: place by character count.
        if n <= cols {
            match validate_line(value, cols) {
                Ok(x) => Ok((Some(x), None)),
                Err(e) => Err(widen_error(e)),
            }
        } else if n <= 2 * cols {
            let l1s = value.substring_char(0, cols);
            let l2s = value.substring_char(cols, n);
            proof {
                assert(l1s@ =~= value@.take(cols as int));
                assert(l2s@ =~= value@.skip(cols as int));
            }
            let line1 = match validate_line(l1s, cols) {
                Ok(x) => x,
                Err(e) => {
                    return Err(widen_error(e));
                },
            };
            let line2 = match validate_line(l2s, cols) {
                Ok(x) => x,
                Err(e) => {
                    return Err(widen_error(e));
                },
            };
            Ok((Some(line1), Some(line2)))
        } else {
            Err(SplitError::TooLong { actual: n, max: 2 * cols })
        }
    }
}

} // verus!

