//! A 16x2 character LCD's text model: validated single lines and two-row
//! content split from free-form input. The physical I2C transport lives
//! outside this crate; everything here is pure computation.

use vstd::prelude::*;

use crate::text::all_displayable;
use crate::text::first_bad;
use crate::text::line_ok;
use crate::text::preview;
use crate::text::row1;
use crate::text::row2;
use crate::text::split_content;
use crate::text::split_error_of;
use crate::text::split_ok;
use crate::text::take_preview;
use crate::text::validate_line;
use crate::text::LineError;
use crate::text::SplitError;

verus! {

/// Faults of the LCD driver. The transport variants are produced by the
/// display wiring outside this crate; `InvalidContent` carries a content
/// fault from this module.
#[derive(Debug, Clone, PartialEq, Eq)]
pub enum LcdError {
    Initialization,
    Backlight,
    Clear,
    SetCursor,
    Print,
    InvalidContent(LcdStringError),
}

impl From<LcdStringError> for LcdError {
    fn from(e: LcdStringError) -> (r: LcdError) {
        LcdError::InvalidContent(e)
    }
}

impl vstd::std_specs::convert::FromSpecImpl<LcdStringError> for LcdError {
    open spec fn obeys_from_spec() -> bool {
        true
    }

    open spec fn from_spec(e: LcdStringError) -> LcdError {
        LcdError::InvalidContent(e)
    }
}

/// One validated LCD row: at most 16 characters, each printable ASCII or
/// space. Constructed only through `try_from`; never mutated afterwards.
#[derive(Debug, Clone)]
pub struct LcdString {
    s: String,
}

/// A string rejected for the LCD, with a bounded preview of the offending
/// content for diagnostics.
#[derive(Debug, Clone, PartialEq, Eq)]
pub enum LcdStringError {
    TooLong { content: String, actual_length: usize, max_length: usize },
    TooManyLines { content: String, actual_lines: usize, max_lines: usize },
    ContainsInvalidCharacters { content: String, invalid_char: char },
}

impl View for LcdString {
    type V = Seq<char>;

    closed spec fn view(&self) -> Seq<char> {
        self.s@
    }
}

impl LcdString {
    /// The row invariant: the characters fit one 16-column row.
    pub open spec fn wf(&self) -> bool {
        line_ok(self@, 16)
    }

    pub fn as_str(&self) -> (r: &str)
        ensures
            r@ == self@,
    {
        self.s.as_str()
    }

    /// Validate `value` as a single LCD row.
    pub fn try_from(value: &str) -> (r: Result<LcdString, LcdStringError>)
        ensures
            r is Ok <==> line_ok(value@, 16),
            r matches Ok(l) ==> l@ == value@ && l.wf(),
            r matches Err(e) ==> match e {
                LcdStringError::TooLong { content, actual_length, max_length } => {
                    &&& value@.len() > 16
                    &&& content@ == preview(value@)
                    &&& actual_length == value@.len() as usize
                    &&& max_length == 16usize
                },
                LcdStringError::ContainsInvalidCharacters { content, invalid_char } => {
                    &&& value@.len() <= 16
                    &&& !all_displayable(value@)
                    &&& content@ == preview(value@)
                    &&& invalid_char == value@[first_bad(value@)]
                },
                LcdStringError::TooManyLines { .. } => false,
            },
    {
        match validate_line(value, 16) {
            Ok(s) => Ok(LcdString { s }),
            Err(LineError::TooLong { actual, max }) => Err(
                LcdStringError::TooLong {
                    content: take_preview(value),
                    actual_length: actual,
                    max_length: max,
                },
            ),
            Err(LineError::InvalidChar { c }) => Err(
                LcdStringError::ContainsInvalidCharacters {
                    content: take_preview(value),
                    invalid_char: c,
                },
            ),
        }
    }
}

/// Two-row LCD content. `None` rows stay blank; empty content clears the
/// display.
#[derive(Debug, Clone)]
pub struct LcdContent {
    pub line1: Option<LcdString>,
    pub line2: Option<LcdString>,
}

impl Default for LcdContent {
    /// Empty content: both rows blank, the canonical clear request.
    fn default() -> (r: LcdContent)
        ensures
            r.line1 is None,
            r.line2 is None,
    {
        LcdContent { line1: None, line2: None }
    }
}

/// `e` is the fault that splitting `s` for the 16x2 LCD reports, with the
/// bounded content preview attached.
pub open spec fn lcd_split_error_matches(s: Seq<char>, e: LcdStringError) -> bool {
    match e {
        LcdStringError::TooLong { content, actual_length, max_length } => {
            &&& split_error_of(s, 16) == (SplitError::TooLong {
                actual: actual_length,
                max: max_length,
            })
            &&& content@ == preview(s)
        },
        LcdStringError::TooManyLines { content, actual_lines, max_lines } => {
            &&& split_error_of(s, 16) == (SplitError::TooManyLines {
                actual: actual_lines,
                max: max_lines,
            })
            &&& content@ == preview(s)
        },
        LcdStringError::ContainsInvalidCharacters { content, invalid_char } => {
            &&& split_error_of(s, 16) == (SplitError::InvalidChar { c: invalid_char })
            &&& content@ == preview(s)
        },
    }
}

impl LcdContent {
    /// Both present rows satisfy the row invariant.
    pub open spec fn wf(&self) -> bool {
        &&& (self.line1 matches Some(l) ==> l.wf())
        &&& (self.line2 matches Some(l) ==> l.wf())
    }

    /// Split free-form input onto the two 16-column LCD rows.
    ///
    /// Empty input clears the display; input with a newline is split there
    /// (at most two lines); short input goes on row 1; input of at most 32
    /// characters is cut at column 16; anything longer is rejected.
    pub fn try_from(value: &str) -> (r: Result<LcdContent, LcdStringError>)
        ensures
            r is Ok <==> split_ok(value@, 16),
            r matches Ok(c) ==> {
                &&& c.wf()
                &&& (c.line1 is Some <==> value@.len() > 0)
                &&& (c.line1 matches Some(a) ==> a@ == row1(value@, 16))
                &&& ((c.line2 is Some) <==> row2(value@, 16) is Some)
                &&& (c.line2 matches Some(b) ==> Some(b@) == row2(value@, 16))
            },
            r matches Err(e) ==> lcd_split_error_matches(value@, e),
    {
        match split_content(value, 16) {
            Ok((l1, l2)) => {
                let line1 = match l1 {
                    Some(s) => Some(LcdString { s }),
                    None => None,
                };
                let line2 = match l2 {
                    Some(s) => Some(LcdString { s }),
                    None => None,
                };
                Ok(LcdContent { line1, line2 })
            },
            Err(SplitError::TooLong { actual, max }) => Err(
                LcdStringError::TooLong {
                    content: take_preview(value),
                    actual_length: actual,
                    max_length: max,
                },
            ),
            Err(SplitError::TooManyLines { actual, max }) => Err(
                LcdStringError::TooManyLines {
                    content: take_preview(value),
                    actual_lines: actual,
                    max_lines: max,
                },
            ),
            Err(SplitError::InvalidChar { c }) => Err(
                LcdStringError::ContainsInvalidCharacters {
                    content: take_preview(value),
                    invalid_char: c,
                },
            ),
        }
    }
}

} // verus!
